//! Verified helpers for text: decimal numbers, character classes and
//! splitting of lines.
use vstd::prelude::*;

verus! {

broadcast use vstd::string::group_string_axioms;

/// Whether `c` is an ASCII decimal digit.
pub open spec fn is_digit(c: char) -> bool {
    '0' <= c && c <= '9'
}

/// The numeric value of an ASCII decimal digit.
pub open spec fn digit_value(c: char) -> nat {
    (c as int - '0' as int) as nat
}

/// Whether every character of `s` is an ASCII decimal digit.
pub open spec fn all_digits(s: Seq<char>) -> bool {
    forall|i: int| 0 <= i < s.len() ==> is_digit(#[trigger] s[i])
}

/// The value of a string of decimal digits, most significant first.
pub open spec fn decimal_value(s: Seq<char>) -> nat
    decreases s.len(),
{
    if s.len() == 0 {
        0
    } else {
        decimal_value(s.drop_last()) * 10 + digit_value(s.last())
    }
}

/// The digits that `str::parse` reads: the text without one leading `+`.
pub open spec fn unsigned_body(s: Seq<char>) -> Seq<char> {
    if s.len() > 0 && s[0] == '+' { s.drop_first() } else { s }
}

/// What `str::parse::<u32>` gives back: an optional `+`, then at least one
/// decimal digit, and a value that fits in 32 bits.
pub open spec fn spec_parse_u32(s: Seq<char>) -> Option<u32> {
    let body = unsigned_body(s);
    if body.len() > 0 && all_digits(body) && decimal_value(body) <= u32::MAX {
        Some(decimal_value(body) as u32)
    } else {
        None
    }
}

proof fn lemma_body_push(p: Seq<char>, c: char)
    requires
        p.len() > 0 || c != '+',
    ensures
        unsigned_body(p.push(c)) =~= unsigned_body(p).push(c),
{
    if p.len() > 0 && p[0] == '+' {
        assert(p.push(c).drop_first() =~= p.drop_first().push(c));
    }
}

proof fn lemma_decimal_push(b: Seq<char>, c: char)
    ensures
        decimal_value(b.push(c)) == decimal_value(b) * 10 + digit_value(c),
{
    assert(b.push(c).drop_last() =~= b);
}

proof fn lemma_all_digits_push(b: Seq<char>, c: char)
    ensures
        all_digits(b.push(c)) == (all_digits(b) && is_digit(c)),
{
    if all_digits(b) && is_digit(c) {
        assert forall|i: int| 0 <= i < b.push(c).len() implies is_digit(#[trigger] b.push(c)[i]) by {
            if i < b.len() {
                assert(b.push(c)[i] == b[i]);
            }
        }
    }
    if all_digits(b.push(c)) {
        assert(is_digit(b.push(c)[b.len() as int]));
        assert forall|i: int| 0 <= i < b.len() implies is_digit(#[trigger] b[i]) by {
            assert(b.push(c)[i] == b[i]);
        }
    }
}

/// Parses a decimal `u32` the way `str::parse::<u32>` does.
pub fn parse_u32(s: &str) -> (r: Option<u32>)
    ensures
        r == spec_parse_u32(s@),
{
    let ghost text = s@;
    let mut value: u64 = 0;
    let mut ok = true;
    let mut big = false;
    let mut first = true;
    let mut nonempty = false;
    for c in it: s.chars()
        invariant
            it.seq() == text,
            first == (it.index() == 0),
            ({
                let b = unsigned_body(text.take(it.index()));
                &&& ok == all_digits(b)
                &&& nonempty == (b.len() > 0)
                &&& (ok && !big) ==> (value == decimal_value(b) && value <= u32::MAX)
                &&& (ok && big) ==> decimal_value(b) > u32::MAX
            }),
    {
        let ghost p = text.take(it.index());
        assert(text.take(it.index() + 1) =~= p.push(c));
        if first && c == '+' {
            assert(unsigned_body(p.push(c)) =~= Seq::<char>::empty());
        } else {
            proof {
                lemma_body_push(p, c);
                lemma_decimal_push(unsigned_body(p), c);
                lemma_all_digits_push(unsigned_body(p), c);
            }
            nonempty = true;
            if ok {
                if '0' <= c && c <= '9' {
                    if !big {
                        let next = value * 10 + (c as u64 - '0' as u64);
                        if next > 0xffff_ffff {
                            big = true;
                        } else {
                            value = next;
                        }
                    }
                } else {
                    ok = false;
                }
            }
        }
        first = false;
    }
    assert(text.take(text.len() as int) =~= text);
    if ok && nonempty && !big {
        Some(value as u32)
    } else {
        None
    }
}

/// What `str::parse::<usize>` gives back: an optional `+`, then at least one
/// decimal digit, and a value that fits in 32 bits.
pub open spec fn spec_parse_usize(s: Seq<char>) -> Option<usize> {
    let body = unsigned_body(s);
    if body.len() > 0 && all_digits(body) && decimal_value(body) <= usize::MAX {
        Some(decimal_value(body) as usize)
    } else {
        None
    }
}

/// Parses a decimal `usize` the way `str::parse::<usize>` does.
pub fn parse_usize(s: &str) -> (r: Option<usize>)
    ensures
        r == spec_parse_usize(s@),
{
    let ghost text = s@;
    let mut value: u64 = 0;
    let mut ok = true;
    let mut big = false;
    let mut first = true;
    let mut nonempty = false;
    for c in it: s.chars()
        invariant
            it.seq() == text,
            first == (it.index() == 0),
            ({
                let b = unsigned_body(text.take(it.index()));
                &&& ok == all_digits(b)
                &&& nonempty == (b.len() > 0)
                &&& (ok && !big) ==> (value == decimal_value(b) && value <= usize::MAX)
                &&& (ok && big) ==> decimal_value(b) > usize::MAX
            }),
    {
        let ghost p = text.take(it.index());
        assert(text.take(it.index() + 1) =~= p.push(c));
        if first && c == '+' {
            assert(unsigned_body(p.push(c)) =~= Seq::<char>::empty());
        } else {
            proof {
                lemma_body_push(p, c);
                lemma_decimal_push(unsigned_body(p), c);
                lemma_all_digits_push(unsigned_body(p), c);
            }
            nonempty = true;
            if ok {
                if '0' <= c && c <= '9' {
                    if !big {
                        let d = c as u64 - '0' as u64;
                        if value > (usize::MAX as u64 - d) / 10 {
                            big = true;
                        } else {
                            value = value * 10 + d;
                        }
                    }
                } else {
                    ok = false;
                }
            }
        }
        first = false;
    }
    assert(text.take(text.len() as int) =~= text);
    if ok && nonempty && !big {
        Some(value as usize)
    } else {
        None
    }
}

/// What `str::parse::<u64>` gives back: an optional `+`, then at least one
/// decimal digit, and a value that fits in 64 bits.
pub open spec fn spec_parse_u64(s: Seq<char>) -> Option<u64> {
    let body = unsigned_body(s);
    if body.len() > 0 && all_digits(body) && decimal_value(body) <= u64::MAX {
        Some(decimal_value(body) as u64)
    } else {
        None
    }
}

/// Parses a decimal `u64` the way `str::parse::<u64>` does.
pub fn parse_u64(s: &str) -> (r: Option<u64>)
    ensures
        r == spec_parse_u64(s@),
{
    let ghost text = s@;
    let mut value: u64 = 0;
    let mut ok = true;
    let mut big = false;
    let mut first = true;
    let mut nonempty = false;
    for c in it: s.chars()
        invariant
            it.seq() == text,
            first == (it.index() == 0),
            ({
                let b = unsigned_body(text.take(it.index()));
                &&& ok == all_digits(b)
                &&& nonempty == (b.len() > 0)
                &&& (ok && !big) ==> value == decimal_value(b)
                &&& (ok && big) ==> decimal_value(b) > u64::MAX
            }),
    {
        let ghost p = text.take(it.index());
        assert(text.take(it.index() + 1) =~= p.push(c));
        if first && c == '+' {
            assert(unsigned_body(p.push(c)) =~= Seq::<char>::empty());
        } else {
            proof {
                lemma_body_push(p, c);
                lemma_decimal_push(unsigned_body(p), c);
                lemma_all_digits_push(unsigned_body(p), c);
            }
            nonempty = true;
            if ok {
                if '0' <= c && c <= '9' {
                    if !big {
                        let d = c as u64 - '0' as u64;
                        if value > (u64::MAX - d) / 10 {
                            big = true;
                            assert(decimal_value(unsigned_body(p.push(c))) > u64::MAX) by (nonlinear_arith)
                                requires
                                    decimal_value(unsigned_body(p.push(c))) == value * 10 + d,
                                    value > (u64::MAX - d) / 10,
                                    d <= 9,
                            ;
                        } else {
                            value = value * 10 + d;
                        }
                    }
                } else {
                    ok = false;
                }
            }
        }
        first = false;
    }
    assert(text.take(text.len() as int) =~= text);
    if ok && nonempty && !big {
        Some(value)
    } else {
        None
    }
}

/// What `str::parse::<i64>` gives back: an optional `+` or `-`, then at
/// least one decimal digit, and a value that fits in 64 bits.
pub open spec fn spec_parse_i64(s: Seq<char>) -> Option<i64> {
    if s.len() > 0 && s[0] == '-' {
        let body = s.drop_first();
        if body.len() > 0 && all_digits(body) && decimal_value(body) <= 0x8000_0000_0000_0000 {
            Some((0 - decimal_value(body)) as i64)
        } else {
            None
        }
    } else {
        let body = unsigned_body(s);
        if body.len() > 0 && all_digits(body) && decimal_value(body) <= i64::MAX {
            Some(decimal_value(body) as i64)
        } else {
            None
        }
    }
}

/// Parses a decimal `i64` the way `str::parse::<i64>` does.
pub fn parse_i64(s: &str) -> (r: Option<i64>)
    ensures
        r == spec_parse_i64(s@),
{
    let v = chars_of(s);
    if v.len() > 0 && v[0] == '-' {
        let body = string_from_range(&v, 1, v.len());
        proof {
            assert(body@ =~= s@.drop_first());
        }
        if v.len() == 1 || v[1] == '+' {
            proof {
                if body@.len() > 0 {
                    assert(body@[0] == v@[1]);
                    assert(!is_digit(body@[0]));
                }
            }
            return None;
        }
        match parse_u64(body.as_str()) {
            Some(m) => {
                if m <= 0x8000_0000_0000_0000 {
                    if m == 0x8000_0000_0000_0000 {
                        Some(i64::MIN)
                    } else {
                        Some(0 - (m as i64))
                    }
                } else {
                    None
                }
            },
            None => None,
        }
    } else {
        match parse_u64(s) {
            Some(m) => {
                if m <= 0x7fff_ffff_ffff_ffff {
                    Some(m as i64)
                } else {
                    None
                }
            },
            None => None,
        }
    }
}

/// `String::push`: appends one character.
#[verifier::external_body]
pub fn string_push(s: &mut String, c: char)
    ensures
        final(s)@ == old(s)@.push(c),
{
    s.push(c);
}

/// The characters of `s`, in order.
pub fn chars_of(s: &str) -> (v: Vec<char>)
    ensures
        v@ == s@,
{
    let ghost text = s@;
    let mut v: Vec<char> = Vec::new();
    for c in it: s.chars()
        invariant
            it.seq() == text,
            v@ == text.take(it.index()),
    {
        assert(text.take(it.index() + 1) =~= v@.push(c));
        v.push(c);
    }
    assert(text.take(text.len() as int) =~= text);
    v
}

/// A `String` holding the characters of `v[from..to]`.
pub fn string_from_range(v: &Vec<char>, from: usize, to: usize) -> (s: String)
    requires
        from <= to <= v.len(),
    ensures
        s@ == v@.subrange(from as int, to as int),
{
    let mut s = String::new();
    let mut i = from;
    while i < to
        invariant
            from <= i <= to <= v.len(),
            s@ == v@.subrange(from as int, i as int),
        decreases to - i,
    {
        assert(v@.subrange(from as int, i + 1) =~= s@.push(v[i as int]));
        string_push(&mut s, v[i]);
        i = i + 1;
    }
    s
}

/// A `String` holding the characters of `v`.
pub fn string_from_chars(v: &Vec<char>) -> (s: String)
    ensures
        s@ == v@,
{
    let s = string_from_range(v, 0, v.len());
    assert(v@.subrange(0, v@.len() as int) =~= v@);
    s
}

/// Appends the characters of `t` to `s`.
pub fn push_str(s: &mut String, t: &str)
    ensures
        final(s)@ == old(s)@ + t@,
{
    let v = chars_of(t);
    let ghost start = s@;
    let mut i: usize = 0;
    while i < v.len()
        invariant
            v@ == t@,
            i <= v.len(),
            s@ == start + v@.take(i as int),
        decreases v.len() - i,
    {
        assert(start + v@.take(i + 1) =~= s@.push(v[i as int]));
        string_push(s, v[i]);
        i = i + 1;
    }
    assert(v@.take(v.len() as int) =~= v@);
}

/// The decimal digits of `n`, as `format!("{}", n)` writes them.
pub open spec fn spec_decimal(n: nat) -> Seq<char>
    decreases n,
{
    if n < 10 {
        seq![digit_char(n)]
    } else {
        spec_decimal(n / 10).push(digit_char(n % 10))
    }
}

/// The ASCII digit for a value below ten.
pub open spec fn digit_char(d: nat) -> char {
    (d + '0' as nat) as char
}

/// Writes `n` in decimal, as `format!("{}", n)` does.
pub fn u64_to_decimal(n: u64) -> (s: String)
    ensures
        s@ == spec_decimal(n as nat),
    decreases n,
{
    if n < 10 {
        let mut s = String::new();
        let c = char_from_digit(n as u8);
        string_push(&mut s, c);
        assert(s@ =~= seq![digit_char(n as nat)]);
        s
    } else {
        let mut s = u64_to_decimal(n / 10);
        let c = char_from_digit((n % 10) as u8);
        string_push(&mut s, c);
        s
    }
}

/// The digit written for a value below ten reads back as that value.
proof fn lemma_digit_char(d: nat)
    requires
        d < 10,
    ensures
        is_digit(digit_char(d)),
        digit_value(digit_char(d)) == d,
        digit_char(d) != '+',
{
}

/// The decimal text of `n` is a non-empty run of digits, starting with a
/// digit (so not with `+`), whose value is `n`.
pub proof fn lemma_decimal_digits(n: nat)
    ensures
        spec_decimal(n).len() > 0,
        all_digits(spec_decimal(n)),
        decimal_value(spec_decimal(n)) == n,
        spec_decimal(n)[0] != '+',
    decreases n,
{
    if n < 10 {
        lemma_digit_char(n);
        assert(spec_decimal(n) =~= seq![digit_char(n)]);
        assert(spec_decimal(n).drop_last() =~= Seq::<char>::empty());
        assert(decimal_value(spec_decimal(n)) == decimal_value(Seq::<char>::empty()) * 10 + digit_value(
            digit_char(n),
        ));
    } else {
        lemma_decimal_digits(n / 10);
        lemma_digit_char(n % 10);
        let p = spec_decimal(n / 10);
        lemma_all_digits_push(p, digit_char(n % 10));
        lemma_decimal_push(p, digit_char(n % 10));
        assert(spec_decimal(n) == p.push(digit_char(n % 10)));
        assert(n == (n / 10) * 10 + n % 10) by (nonlinear_arith);
        assert(spec_decimal(n)[0] == p[0]);
    }
}

/// Writing a `u64` in decimal and reading it back gives the same `u64`.
pub proof fn lemma_parse_u64_of_decimal(n: u64)
    ensures
        spec_parse_u64(spec_decimal(n as nat)) == Some(n),
{
    lemma_decimal_digits(n as nat);
    assert(unsigned_body(spec_decimal(n as nat)) == spec_decimal(n as nat));
}

/// The ASCII digit for a value below ten.
pub fn char_from_digit(d: u8) -> (c: char)
    requires
        d < 10,
    ensures
        c == digit_char(d as nat),
{
    match d {
        0 => '0',
        1 => '1',
        2 => '2',
        3 => '3',
        4 => '4',
        5 => '5',
        6 => '6',
        7 => '7',
        8 => '8',
        _ => '9',
    }
}

/// Whether `c` is white space in the sense of `char::is_whitespace`
/// (the Unicode `White_Space` property).
pub open spec fn is_white_space(c: char) -> bool {
    ||| ('\u{9}' <= c && c <= '\u{d}')
    ||| c == ' '
    ||| c == '\u{85}'
    ||| c == '\u{a0}'
    ||| c == '\u{1680}'
    ||| ('\u{2000}' <= c && c <= '\u{200a}')
    ||| c == '\u{2028}'
    ||| c == '\u{2029}'
    ||| c == '\u{202f}'
    ||| c == '\u{205f}'
    ||| c == '\u{3000}'
}

/// `char::is_whitespace`.
pub fn char_is_white_space(c: char) -> (b: bool)
    ensures
        b == is_white_space(c),
{
    ('\u{9}' <= c && c <= '\u{d}') || c == ' ' || c == '\u{85}' || c == '\u{a0}' || c == '\u{1680}'
        || ('\u{2000}' <= c && c <= '\u{200a}') || c == '\u{2028}' || c == '\u{2029}' || c
        == '\u{202f}' || c == '\u{205f}' || c == '\u{3000}'
}

/// Whether a sequence of characters holds only white space.
pub open spec fn all_white_space(s: Seq<char>) -> bool {
    forall|i: int| 0 <= i < s.len() ==> is_white_space(#[trigger] s[i])
}

/// The pieces of `s` between occurrences of `sep`, as `str::split` with a
/// `char` pattern gives them (there is always at least one piece).
pub open spec fn spec_split(s: Seq<char>, sep: char) -> Seq<Seq<char>>
    decreases s.len(),
{
    if s.len() == 0 {
        seq![Seq::<char>::empty()]
    } else {
        let r = spec_split(s.drop_last(), sep);
        if s.last() == sep {
            r.push(Seq::<char>::empty())
        } else {
            r.update(r.len() - 1, r.last().push(s.last()))
        }
    }
}

proof fn lemma_split_nonempty(s: Seq<char>, sep: char)
    ensures
        spec_split(s, sep).len() >= 1,
    decreases s.len(),
{
    if s.len() > 0 {
        lemma_split_nonempty(s.drop_last(), sep);
    }
}

/// Splits `s` at every `sep`, as `s.split(sep)` does.
pub fn split_char(s: &str, sep: char) -> (pieces: Vec<String>)
    ensures
        pieces.deep_view() == spec_split(s@, sep),
{
    let v = chars_of(s);
    let mut out: Vec<String> = Vec::new();
    let mut start: usize = 0;
    let mut i: usize = 0;
    assert(out.deep_view() =~= Seq::<Seq<char>>::empty());
    assert(v@.take(0) =~= Seq::<char>::empty());
    assert(v@.subrange(0, 0) =~= Seq::<char>::empty());
    assert(out.deep_view().push(v@.subrange(0, 0)) =~= seq![Seq::<char>::empty()]);
    while i < v.len()
        invariant
            v@ == s@,
            start <= i <= v.len(),
            out.deep_view().push(v@.subrange(start as int, i as int)) == spec_split(
                v@.take(i as int),
                sep,
            ),
        decreases v.len() - i,
    {
        let ghost p = v@.take(i as int);
        assert(v@.take(i + 1).drop_last() =~= p);
        proof {
            lemma_split_nonempty(p, sep);
        }
        if v[i] == sep {
            let piece = string_from_range(&v, start, i);
            out.push(piece);
            start = i + 1;
            assert(v@.subrange(start as int, i + 1) =~= Seq::<char>::empty());
            assert(out.deep_view().push(v@.subrange(start as int, i + 1)) =~= spec_split(
                p,
                sep,
            ).push(Seq::<char>::empty()));
        } else {
            assert(v@.subrange(start as int, i + 1) =~= v@.subrange(start as int, i as int).push(
                v@[i as int],
            ));
            assert(out.deep_view().push(v@.subrange(start as int, i + 1)) =~= spec_split(
                p,
                sep,
            ).update(
                spec_split(p, sep).len() - 1,
                spec_split(p, sep).last().push(v@[i as int]),
            ));
        }
        i = i + 1;
    }
    let last = string_from_range(&v, start, v.len());
    out.push(last);
    assert(v@.take(v.len() as int) =~= v@);
    out
}

/// A line without the `\r` that ended it.
pub open spec fn strip_cr(p: Seq<char>) -> Seq<char> {
    if p.len() > 0 && p.last() == '\r' { p.drop_last() } else { p }
}

/// The lines of `s` as `str::lines` gives them: split at `\n`, a `\r`
/// before the `\n` dropped, and no empty line after a final `\n`.
pub open spec fn spec_lines(s: Seq<char>) -> Seq<Seq<char>> {
    let pieces = spec_split(s, '\n');
    let body = pieces.drop_last().map_values(|p: Seq<char>| strip_cr(p));
    if pieces.last().len() == 0 { body } else { body.push(pieces.last()) }
}

/// Removes one trailing `\r`.
fn strip_cr_string(s: &String) -> (r: String)
    ensures
        r@ == strip_cr(s@),
{
    let v = chars_of(s.as_str());
    if v.len() > 0 && v[v.len() - 1] == '\r' {
        string_from_range(&v, 0, v.len() - 1)
    } else {
        string_from_chars(&v)
    }
}

/// Splits `s` into lines, as `s.lines()` does.
pub fn lines(s: &str) -> (out: Vec<String>)
    ensures
        out.deep_view() == spec_lines(s@),
{
    let pieces = split_char(s, '\n');
    let ghost ps = pieces.deep_view();
    proof {
        lemma_split_nonempty(s@, '\n');
    }
    let n = pieces.len() - 1;
    let mut out: Vec<String> = Vec::new();
    let mut i: usize = 0;
    while i < n
        invariant
            pieces.deep_view() == ps,
            ps == spec_split(s@, '\n'),
            n + 1 == ps.len(),
            i <= n,
            out.deep_view() =~= ps.take(i as int).map_values(|p: Seq<char>| strip_cr(p)),
        decreases n - i,
    {
        let line = strip_cr_string(&pieces[i]);
        assert(pieces[i as int]@ == ps[i as int]);
        out.push(line);
        assert(ps.take(i + 1).map_values(|p: Seq<char>| strip_cr(p)) =~= ps.take(i as int).map_values(
            |p: Seq<char>| strip_cr(p),
        ).push(strip_cr(ps[i as int])));
        i = i + 1;
    }
    assert(ps.take(n as int) =~= ps.drop_last());
    assert(pieces[n as int]@ == ps.last());
    if !pieces[n].as_str().is_empty() {
        out.push(pieces[n].clone());
    }
    out
}

/// `s` without leading white space.
pub open spec fn spec_trim_start(s: Seq<char>) -> Seq<char>
    decreases s.len(),
{
    if s.len() > 0 && is_white_space(s[0]) { spec_trim_start(s.drop_first()) } else { s }
}

/// `s` without trailing white space.
pub open spec fn spec_trim_end(s: Seq<char>) -> Seq<char>
    decreases s.len(),
{
    if s.len() > 0 && is_white_space(s.last()) { spec_trim_end(s.drop_last()) } else { s }
}

/// `s` without leading and trailing white space, as `str::trim` gives it.
pub open spec fn spec_trim(s: Seq<char>) -> Seq<char> {
    spec_trim_end(spec_trim_start(s))
}

/// Removes leading and trailing white space, as `str::trim` does.
pub fn trim(s: &str) -> (r: String)
    ensures
        r@ == spec_trim(s@),
{
    let v = chars_of(s);
    let mut lo: usize = 0;
    assert(v@.subrange(0, v@.len() as int) =~= v@);
    while lo < v.len() && char_is_white_space(v[lo])
        invariant
            v@ == s@,
            lo <= v.len(),
            spec_trim_start(v@) == spec_trim_start(v@.subrange(lo as int, v@.len() as int)),
        decreases v.len() - lo,
    {
        assert(v@.subrange(lo as int, v@.len() as int).drop_first() =~= v@.subrange(
            lo + 1,
            v@.len() as int,
        ));
        lo = lo + 1;
    }
    assert(v@.subrange(0, v@.len() as int) =~= v@);
    let ghost t = v@.subrange(lo as int, v@.len() as int);
    assert(spec_trim_start(v@) == t);
    let mut hi: usize = v.len();
    while hi > lo && char_is_white_space(v[hi - 1])
        invariant
            v@ == s@,
            lo <= hi <= v.len(),
            t == v@.subrange(lo as int, v@.len() as int),
            spec_trim_end(t) == spec_trim_end(v@.subrange(lo as int, hi as int)),
        decreases hi,
    {
        assert(v@.subrange(lo as int, hi as int).drop_last() =~= v@.subrange(
            lo as int,
            hi - 1,
        ));
        hi = hi - 1;
    }
    string_from_range(&v, lo, hi)
}

/// The white-space separated words of `s`, as `str::split_whitespace`
/// gives them: the completed words and the word in progress.
pub open spec fn words_acc(s: Seq<char>) -> (Seq<Seq<char>>, Seq<char>)
    decreases s.len(),
{
    if s.len() == 0 {
        (Seq::empty(), Seq::empty())
    } else {
        let (w, cur) = words_acc(s.drop_last());
        if is_white_space(s.last()) {
            (if cur.len() > 0 { w.push(cur) } else { w }, Seq::empty())
        } else {
            (w, cur.push(s.last()))
        }
    }
}

/// The white-space separated words of `s`, as `str::split_whitespace`
/// gives them.
pub open spec fn spec_words(s: Seq<char>) -> Seq<Seq<char>> {
    let (w, cur) = words_acc(s);
    if cur.len() > 0 { w.push(cur) } else { w }
}

/// Splits `s` at white space, dropping empty pieces, as
/// `s.split_whitespace()` does.
pub fn split_whitespace(s: &str) -> (out: Vec<String>)
    ensures
        out.deep_view() == spec_words(s@),
{
    let v = chars_of(s);
    let mut out: Vec<String> = Vec::new();
    let mut start: usize = 0;
    let mut i: usize = 0;
    assert(out.deep_view() =~= Seq::<Seq<char>>::empty());
    assert(v@.take(0) =~= Seq::<char>::empty());
    while i < v.len()
        invariant
            v@ == s@,
            start <= i <= v.len(),
            words_acc(v@.take(i as int)) == (out.deep_view(), v@.subrange(start as int, i as int)),
        decreases v.len() - i,
    {
        assert(v@.take(i + 1).drop_last() =~= v@.take(i as int));
        if char_is_white_space(v[i]) {
            if start < i {
                let w = string_from_range(&v, start, i);
                out.push(w);
            } else {
                assert(v@.subrange(start as int, i as int) =~= Seq::<char>::empty());
            }
            start = i + 1;
            assert(v@.subrange(start as int, i + 1) =~= Seq::<char>::empty());
        } else {
            assert(v@.subrange(start as int, i + 1) =~= v@.subrange(start as int, i as int).push(
                v@[i as int],
            ));
        }
        i = i + 1;
    }
    assert(v@.take(v.len() as int) =~= v@);
    if start < v.len() {
        let w = string_from_range(&v, start, v.len());
        out.push(w);
    } else {
        assert(v@.subrange(start as int, v.len() as int) =~= Seq::<char>::empty());
    }
    out
}

/// Whether `s` begins with `prefix`.
pub open spec fn spec_starts_with(s: Seq<char>, prefix: Seq<char>) -> bool {
    prefix.len() <= s.len() && s.take(prefix.len() as int) == prefix
}

/// Whether `s` begins with `prefix`, as `str::starts_with` says.
pub fn starts_with(s: &str, prefix: &str) -> (b: bool)
    ensures
        b == spec_starts_with(s@, prefix@),
{
    let v = chars_of(s);
    let p = chars_of(prefix);
    if p.len() > v.len() {
        return false;
    }
    let mut i: usize = 0;
    while i < p.len()
        invariant
            v@ == s@,
            p@ == prefix@,
            p.len() <= v.len(),
            i <= p.len(),
            v@.take(i as int) == p@.take(i as int),
        decreases p.len() - i,
    {
        if v[i] != p[i] {
            assert(v@.take(p.len() as int)[i as int] != p@[i as int]);
            return false;
        }
        assert(v@.take(i + 1) =~= v@.take(i as int).push(v@[i as int]));
        assert(p@.take(i + 1) =~= p@.take(i as int).push(p@[i as int]));
        i = i + 1;
    }
    assert(p@.take(p.len() as int) =~= p@);
    true
}

/// Whether `"::"` starts at position `i` of `s`.
pub open spec fn pair_sep_at(s: Seq<char>, i: int) -> bool {
    0 <= i && i + 1 < s.len() && s[i] == ':' && s[i + 1] == ':'
}

/// Whether `s` contains `"::"`, as `str::contains("::")` says.
pub open spec fn contains_pair_sep(s: Seq<char>) -> bool {
    exists|i: int| pair_sep_at(s, i)
}

/// The pieces of `s` between `"::"` separators, matched from the left
/// without overlap, as `str::split("::")` gives them.
pub open spec fn spec_split_pair_sep(s: Seq<char>) -> Seq<Seq<char>>
    decreases s.len(),
{
    if s.len() == 0 {
        seq![Seq::<char>::empty()]
    } else if pair_sep_at(s, 0) {
        seq![Seq::<char>::empty()] + spec_split_pair_sep(s.skip(2))
    } else {
        let r = spec_split_pair_sep(s.drop_first());
        r.update(0, seq![s[0]] + r[0])
    }
}

proof fn lemma_split_pair_sep_nonempty(s: Seq<char>)
    ensures
        spec_split_pair_sep(s).len() >= 1,
    decreases s.len(),
{
    if s.len() > 0 {
        if pair_sep_at(s, 0) {
            lemma_split_pair_sep_nonempty(s.skip(2));
        } else {
            lemma_split_pair_sep_nonempty(s.drop_first());
        }
    }
}

/// Whether `s` contains `"::"`.
pub fn contains_double_colon(s: &str) -> (b: bool)
    ensures
        b == contains_pair_sep(s@),
{
    let v = chars_of(s);
    let mut i: usize = 0;
    while i < v.len() && i + 1 < v.len()
        invariant
            v@ == s@,
            forall|j: int| 0 <= j < i ==> !pair_sep_at(v@, j),
        decreases v.len() - i,
    {
        if v[i] == ':' && v[i + 1] == ':' {
            assert(pair_sep_at(v@, i as int));
            return true;
        }
        i = i + 1;
    }
    assert forall|j: int| !pair_sep_at(v@, j) by {
        if j >= i {
            assert(!(j + 1 < v@.len()));
        }
    }
    false
}

fn split_pair_sep_from(v: &Vec<char>, i: usize) -> (out: Vec<String>)
    requires
        i <= v.len(),
    ensures
        out.deep_view() == spec_split_pair_sep(v@.skip(i as int)),
    decreases v.len() - i,
{
    let ghost s = v@.skip(i as int);
    if i == v.len() {
        let mut out: Vec<String> = Vec::new();
        out.push(String::new());
        assert(out.deep_view() =~= seq![Seq::<char>::empty()]);
        assert(s =~= Seq::<char>::empty());
        out
    } else if i + 1 < v.len() && v[i] == ':' && v[i + 1] == ':' {
        let rest = split_pair_sep_from(v, i + 2);
        assert(s.skip(2) =~= v@.skip(i + 2));
        assert(pair_sep_at(s, 0));
        let mut out: Vec<String> = Vec::new();
        out.push(String::new());
        let mut k: usize = 0;
        while k < rest.len()
            invariant
                out.deep_view() =~= seq![Seq::<char>::empty()] + rest.deep_view().take(k as int),
                k <= rest.len(),
            decreases rest.len() - k,
        {
            let ghost old_out = out.deep_view();
            out.push(rest[k].clone());
            assert(out.deep_view() =~= old_out.push(rest[k as int]@));
            assert(rest.deep_view().take(k + 1) =~= rest.deep_view().take(k as int).push(
                rest[k as int]@,
            ));
            k = k + 1;
        }
        assert(rest.deep_view().take(rest.len() as int) =~= rest.deep_view());
        out
    } else {
        let mut rest = split_pair_sep_from(v, i + 1);
        assert(s.drop_first() =~= v@.skip(i + 1));
        assert(!pair_sep_at(s, 0));
        proof {
            lemma_split_pair_sep_nonempty(v@.skip(i + 1));
        }
        let mut first = String::new();
        string_push(&mut first, v[i]);
        push_str(&mut first, rest[0].as_str());
        let ghost before = rest.deep_view();
        rest.set(0, first);
        assert(rest.deep_view() =~= before.update(0, seq![v@[i as int]] + before[0]));
        rest
    }
}

/// Splits `s` at `"::"`, as `s.split("::")` does.
pub fn split_double_colon(s: &str) -> (out: Vec<String>)
    ensures
        out.deep_view() == spec_split_pair_sep(s@),
        out.len() >= 1,
{
    let v = chars_of(s);
    assert(v@.skip(0) =~= v@);
    proof {
        lemma_split_pair_sep_nonempty(s@);
    }
    split_pair_sep_from(&v, 0)
}

} // verus!
