//! Closed captions: a language and its tokens, read from and written as
//! VDF, and compiled into the game's binary caption format.
use vstd::prelude::*;

use vstd::utf8::encode_utf8;
use crate::vdf::{canonical, entries_view, first_under, node_of, obj_get, parse_vdf, plain_text, render_vdf, spec_parse_vdf, VdfNode, VdfPair, VdfValue};

verus! {

/// Whether `a` comes before `b` in the order of their characters' code
/// points (the order of their UTF-8 bytes).
pub open spec fn text_lt(a: Seq<char>, b: Seq<char>) -> bool
    decreases a.len(),
{
    if a.len() == 0 {
        b.len() > 0
    } else if b.len() == 0 {
        false
    } else if a[0] < b[0] {
        true
    } else if a[0] > b[0] {
        false
    } else {
        text_lt(a.drop_first(), b.drop_first())
    }
}

/// Of two texts, one comes first unless they are equal; never both.
pub proof fn lemma_text_order(a: Seq<char>, b: Seq<char>)
    ensures
        a == b || text_lt(a, b) || text_lt(b, a),
        !(text_lt(a, b) && text_lt(b, a)),
        !text_lt(a, a),
    decreases a.len(),
{
    if a.len() == 0 {
        if b.len() == 0 {
            assert(a =~= b);
        }
    } else if b.len() == 0 {
    } else if a[0] == b[0] {
        lemma_text_order(a.drop_first(), b.drop_first());
        if a.drop_first() == b.drop_first() {
            assert forall|i: int| 0 <= i < a.len() implies a[i] == b[i] by {
                if i > 0 {
                    assert(a[i] == a.drop_first()[i - 1]);
                    assert(b[i] == b.drop_first()[i - 1]);
                }
            }
            assert(a =~= b);
        }
    }
    if a.len() > 0 {
        lemma_text_order(a.drop_first(), a.drop_first());
    }
}

/// The order of texts is transitive.
pub proof fn lemma_text_lt_trans(a: Seq<char>, b: Seq<char>, c: Seq<char>)
    requires
        text_lt(a, b),
        text_lt(b, c),
    ensures
        text_lt(a, c),
    decreases a.len(),
{
    if a.len() > 0 && b.len() > 0 && c.len() > 0 && a[0] == b[0] && b[0] == c[0] {
        lemma_text_lt_trans(a.drop_first(), b.drop_first(), c.drop_first());
    }
}

/// Whether `a` comes before `b` (see `text_lt`).
pub fn text_less(a: &str, b: &str) -> (r: bool)
    ensures
        r == text_lt(a@, b@),
{
    let x = crate::text::chars_of(a);
    let y = crate::text::chars_of(b);
    let mut i: usize = 0;
    proof {
        assert(a@.skip(0) =~= a@);
        assert(b@.skip(0) =~= b@);
    }
    while i < x.len() && i < y.len()
        invariant
            x@ == a@,
            y@ == b@,
            i <= x@.len(),
            i <= y@.len(),
            x@.take(i as int) == y@.take(i as int),
            text_lt(a@, b@) == text_lt(a@.skip(i as int), b@.skip(i as int)),
        decreases x.len() - i,
    {
        proof {
            assert(a@.skip(i as int).drop_first() =~= a@.skip(i + 1));
            assert(b@.skip(i as int).drop_first() =~= b@.skip(i + 1));
            assert(a@.skip(i as int)[0] == x@[i as int]);
            assert(b@.skip(i as int)[0] == y@[i as int]);
        }
        let cx = x[i];
        let cy = y[i];
        if cx < cy {
            return true;
        }
        if cx > cy {
            return false;
        }
        proof {
            assert(x@[i as int] == y@[i as int]);
            assert(x@.take(i + 1) =~= x@.take(i as int).push(x@[i as int]));
            assert(y@.take(i + 1) =~= y@.take(i as int).push(y@[i as int]));
        }
        i = i + 1;
    }
    proof {
        assert(a@.skip(0) =~= a@);
    }
    i < y.len()
}

/// The names of the tokens, in order.
pub open spec fn token_names(tokens: Seq<(String, String)>) -> Seq<Seq<char>> {
    tokens.map_values(|t: (String, String)| t.0@)
}

/// The tokens as a map from token name to text.
pub open spec fn token_map(tokens: Seq<(String, String)>) -> Map<Seq<char>, Seq<char>>
    decreases tokens.len(),
{
    if tokens.len() == 0 {
        Map::empty()
    } else {
        token_map(tokens.drop_last()).insert(tokens.last().0@, tokens.last().1@)
    }
}

/// Whether the token names ascend strictly.
pub open spec fn sorted_tokens(tokens: Seq<(String, String)>) -> bool {
    forall|i: int, j: int| 0 <= i < j < tokens.len() ==> text_lt(#[trigger] tokens[i].0@, #[trigger] tokens[j].0@)
}

/// In ascending tokens, the map holds each token's text under its name.
proof fn lemma_sorted_map(tokens: Seq<(String, String)>)
    requires
        sorted_tokens(tokens),
    ensures
        token_map(tokens).dom() == token_names(tokens).to_set(),
        forall|i: int| 0 <= i < tokens.len() ==> #[trigger] token_map(tokens)[tokens[i].0@] == tokens[i].1@,
    decreases tokens.len(),
{
    if tokens.len() > 0 {
        let init = tokens.drop_last();
        assert(sorted_tokens(init)) by {
            assert forall|i: int, j: int| 0 <= i < j < init.len() implies text_lt(#[trigger] init[i].0@, #[trigger] init[j].0@) by {
                assert(init[i] == tokens[i] && init[j] == tokens[j]);
            }
        }
        lemma_sorted_map(init);
        let last = tokens.last();
        assert(token_names(tokens) =~= token_names(init).push(last.0@));
        token_names(init).lemma_push_to_set_commute(last.0@);
        assert forall|i: int| 0 <= i < tokens.len() implies #[trigger] token_map(tokens)[tokens[i].0@] == tokens[i].1@ by {
            if i < tokens.len() - 1 {
                assert(text_lt(tokens[i].0@, tokens[tokens.len() - 1].0@));
                lemma_text_order(tokens[i].0@, last.0@);
                assert(init[i] == tokens[i]);
            }
        }
    }
}

/// A language and its caption tokens, the token names ascending.
pub struct Caption {
    pub language: String,
    pub tokens: Vec<(String, String)>,
}

/// Why a caption file could not be read.
#[derive(Debug, Clone, Copy, PartialEq, Eq, Structural)]
pub enum CaptionError {
    /// The text is not a VDF document.
    Unparsable,
    /// The root holds no `Language` string.
    NoLanguage,
    /// The root holds no `Tokens` object.
    NoTokens,
    /// A token holds no string.
    BadToken,
    /// More tokens than the format can count.
    TooManyTokens,
    /// The data would start past what the format can address.
    DataTooFar,
    /// A token's text is too long for its entry.
    TokenTooLong,
}

impl Caption {
    /// Whether the token names ascend strictly.
    pub open spec fn wf(&self) -> bool {
        sorted_tokens(self.tokens@)
    }

    /// The tokens, by name.
    pub open spec fn token_view(&self) -> Map<Seq<char>, Seq<char>> {
        token_map(self.tokens@)
    }

    /// A caption of `language` with the tokens `tokens`, set in order (a
    /// later token of the same name wins).
    pub fn new(language: String, tokens: Vec<(String, String)>) -> (c: Caption)
        ensures
            c.wf(),
            c.language@ == language@,
            c.token_view() == token_map(tokens@),
    {
        let mut c = Caption { language, tokens: Vec::new() };
        let ghost all = tokens@;
        proof {
            assert(token_map(c.tokens@) =~= token_map(all.take(0)));
        }
        for t in it: tokens
            invariant
                it.seq() == all,
                c.wf(),
                c.language@ == language@,
                c.token_view() == token_map(all.take(it.index())),
        {
            let ghost idx = it.index();
            proof {
                assert(all.take(idx + 1).drop_last() =~= all.take(idx));
                assert(all.take(idx + 1).last() == t);
            }
            let (k, v) = t;
            c.set_token(k, v);
        }
        proof {
            assert(all.take(all.len() as int) =~= all);
        }
        c
    }

    /// Sets a token, replacing any of the same name.
    pub fn set_token(&mut self, key: String, value: String)
        requires
            old(self).wf(),
        ensures
            final(self).wf(),
            final(self).language == old(self).language,
            final(self).token_view() == old(self).token_view().insert(key@, value@),
    {
        let ghost t0 = self.tokens@;
        proof {
            lemma_sorted_map(t0);
        }
        let mut i: usize = 0;
        let mut found = false;
        while i < self.tokens.len() && !found
            invariant
                self.tokens@ == t0,
                sorted_tokens(t0),
                i <= t0.len(),
                found ==> i < t0.len() && !text_lt(t0[i as int].0@, key@),
                forall|j: int| 0 <= j < i ==> text_lt(#[trigger] t0[j].0@, key@),
            decreases self.tokens.len() - i, if found { 0int } else { 1int },
        {
            if !text_less(self.tokens[i].0.as_str(), key.as_str()) {
                found = true;
            } else {
                i = i + 1;
            }
        }
        let ghost k = key@;
        let ghost v = value@;
        if i < self.tokens.len() && string_same(&self.tokens[i].0, &key) {
            self.tokens.set(i, (key, value));
            proof {
                let t1 = self.tokens@;
                assert(t1 == t0.update(i as int, t1[i as int]));
                assert(sorted_tokens(t1)) by {
                    assert forall|a: int, b: int| 0 <= a < b < t1.len() implies text_lt(#[trigger] t1[a].0@, #[trigger] t1[b].0@) by {
                        assert(t1[a].0@ == t0[a].0@);
                        assert(t1[b].0@ == t0[b].0@);
                    }
                }
                lemma_sorted_map(t1);
                assert(token_names(t1) =~= token_names(t0));
                assert(token_names(t0)[i as int] == k);
                assert(token_map(t0).contains_key(k));
                assert(self.token_view() =~= token_map(t0).insert(k, v)) by {
                    assert(self.token_view().dom() =~= token_map(t0).insert(k, v).dom());
                    assert forall|x: Seq<char>| #[trigger] self.token_view().contains_key(x) implies self.token_view()[x] == token_map(t0).insert(k, v)[x] by {
                        let j = choose|j: int| 0 <= j < t1.len() && token_names(t1)[j] == x;
                        assert(t1[j].0@ == x);
                        assert(self.token_view()[t1[j].0@] == t1[j].1@);
                        if j != i {
                            assert(t0[j] == t1[j]);
                            assert(token_map(t0)[t0[j].0@] == t0[j].1@);
                            if x == k {
                                lemma_text_order(t0[j].0@, t0[i as int].0@);
                                if j < i {
                                    assert(text_lt(t0[j].0@, t0[i as int].0@));
                                } else {
                                    assert(text_lt(t0[i as int].0@, t0[j].0@));
                                }
                            }
                        }
                    }
                }
            }
        } else {
            self.tokens.insert(i, (key, value));
            proof {
                let t1 = self.tokens@;
                assert(t1 == t0.insert(i as int, t1[i as int]));
                assert(i < t0.len() ==> text_lt(k, t0[i as int].0@)) by {
                    if i < t0.len() {
                        lemma_text_order(t0[i as int].0@, k);
                        assert(t0[i as int].0@ != k);
                    }
                }
                assert(sorted_tokens(t1)) by {
                    assert forall|a: int, b: int| 0 <= a < b < t1.len() implies text_lt(#[trigger] t1[a].0@, #[trigger] t1[b].0@) by {
                        if b < i {
                            assert(t1[a] == t0[a] && t1[b] == t0[b]);
                        } else if b == i {
                            assert(t1[a] == t0[a]);
                        } else if a < i {
                            assert(t1[a] == t0[a] && t1[b] == t0[b - 1]);
                            assert(text_lt(t0[a].0@, k));
                            assert(text_lt(k, t0[i as int].0@));
                            if b - 1 > i {
                                assert(text_lt(t0[i as int].0@, t0[b - 1].0@));
                                lemma_text_lt_trans(k, t0[i as int].0@, t0[b - 1].0@);
                            }
                            lemma_text_lt_trans(t0[a].0@, k, t0[b - 1].0@);
                        } else if a == i {
                            assert(t1[b] == t0[b - 1]);
                            if b - 1 > i {
                                assert(text_lt(t0[i as int].0@, t0[b - 1].0@));
                                lemma_text_lt_trans(k, t0[i as int].0@, t0[b - 1].0@);
                            }
                        } else {
                            assert(t1[a] == t0[a - 1] && t1[b] == t0[b - 1]);
                        }
                    }
                }
                lemma_sorted_map(t1);
                assert(self.token_view() =~= token_map(t0).insert(k, v)) by {
                    assert forall|x: Seq<char>| #[trigger] self.token_view().contains_key(x) == token_map(t0).insert(k, v).contains_key(x) by {
                        if token_map(t0).contains_key(x) {
                            let j = choose|j: int| 0 <= j < t0.len() && token_names(t0)[j] == x;
                            let j1 = if j < i { j } else { j + 1 };
                            assert(t1[j1] == t0[j]);
                            assert(token_names(t1)[j1] == x);
                        }
                        if x == k {
                            assert(token_names(t1)[i as int] == x);
                        }
                        if self.token_view().contains_key(x) {
                            let j = choose|j: int| 0 <= j < t1.len() && token_names(t1)[j] == x;
                            if j < i {
                                assert(token_names(t0)[j] == x);
                            } else if j > i {
                                assert(token_names(t0)[j - 1] == x);
                            }
                        }
                    }
                    assert forall|x: Seq<char>| #[trigger] self.token_view().contains_key(x) implies self.token_view()[x] == token_map(t0).insert(k, v)[x] by {
                        let j = choose|j: int| 0 <= j < t1.len() && token_names(t1)[j] == x;
                        assert(t1[j].0@ == x);
                        assert(self.token_view()[t1[j].0@] == t1[j].1@);
                        if j != i {
                            let j0 = if j < i { j } else { j - 1 };
                            assert(t0[j0] == t1[j]);
                            assert(token_map(t0)[t0[j0].0@] == t0[j0].1@);
                            assert(x != k) by {
                                assert(text_lt(t1[j].0@, t1[i as int].0@) || text_lt(t1[i as int].0@, t1[j].0@));
                                lemma_text_order(x, k);
                            }
                        }
                    }
                }
            }
        }
    }

    /// Removes a token.
    pub fn remove_token(&mut self, key: &str)
        requires
            old(self).wf(),
        ensures
            final(self).wf(),
            final(self).language == old(self).language,
            final(self).token_view() == old(self).token_view().remove(key@),
    {
        let ghost t0 = self.tokens@;
        proof {
            lemma_sorted_map(t0);
        }
        let mut i: usize = 0;
        while i < self.tokens.len()
            invariant
                self.tokens@ == t0,
                t0 == old(self).tokens@,
                self.language == old(self).language,
                sorted_tokens(t0),
                i <= t0.len(),
                forall|j: int| 0 <= j < i ==> t0[j].0@ != key@,
            decreases self.tokens.len() - i,
        {
            if crate::player_records::string_eq_str(&self.tokens[i].0, key) {
                self.tokens.remove(i);
                proof {
                    lemma_sorted_map(t0);
                    let t1 = self.tokens@;
                    assert(t1 =~= t0.remove(i as int));
                    assert(sorted_tokens(t1)) by {
                        assert forall|a: int, b: int| 0 <= a < b < t1.len() implies text_lt(#[trigger] t1[a].0@, #[trigger] t1[b].0@) by {
                            let a0 = if a < i { a } else { a + 1 };
                            let b0 = if b < i { b } else { b + 1 };
                            assert(t1[a] == t0[a0] && t1[b] == t0[b0]);
                        }
                    }
                    lemma_sorted_map(t1);
                    assert(self.token_view() =~= token_map(t0).remove(key@)) by {
                        assert forall|x: Seq<char>| #[trigger] self.token_view().contains_key(x) == token_map(t0).remove(key@).contains_key(x) by {
                            if token_map(t0).contains_key(x) && x != key@ {
                                assert(token_names(t0).to_set().contains(x));
                                assert(token_names(t0).contains(x));
                                let j = choose|j: int| 0 <= j < token_names(t0).len() && token_names(t0)[j] == x;
                                assert(token_names(t0)[i as int] == key@);
                                assert(j != i);
                                let j1 = if j < i { j } else { j - 1 };
                                assert(t1[j1] == t0[j]);
                                assert(token_names(t1)[j1] == x);
                            }
                            if self.token_view().contains_key(x) {
                                let j = choose|j: int| 0 <= j < t1.len() && token_names(t1)[j] == x;
                                let j0 = if j < i { j } else { j + 1 };
                                assert(t0[j0] == t1[j]);
                                assert(token_names(t0)[j0] == x);
                                assert(x != key@) by {
                                    lemma_text_order(t0[j0].0@, t0[i as int].0@);
                                    if j0 < i {
                                        assert(text_lt(t0[j0].0@, t0[i as int].0@));
                                    } else {
                                        assert(text_lt(t0[i as int].0@, t0[j0].0@));
                                    }
                                }
                            }
                        }
                        assert forall|x: Seq<char>| #[trigger] self.token_view().contains_key(x) implies self.token_view()[x] == token_map(t0).remove(key@)[x] by {
                            let j = choose|j: int| 0 <= j < t1.len() && token_names(t1)[j] == x;
                            let j0 = if j < i { j } else { j + 1 };
                            assert(t0[j0] == t1[j]);
                            assert(self.token_view()[t1[j].0@] == t1[j].1@);
                            assert(token_map(t0)[t0[j0].0@] == t0[j0].1@);
                        }
                    }
                }
                return;
            }
            i = i + 1;
        }
        proof {
            lemma_sorted_map(t0);
            assert(!token_map(t0).contains_key(key@)) by {
                if token_map(t0).contains_key(key@) {
                    let j = choose|j: int| 0 <= j < t0.len() && token_names(t0)[j] == key@;
                    assert(t0[j].0@ == key@);
                }
            }
            assert(token_map(t0).remove(key@) =~= token_map(t0));
        }
    }
}

/// Whether two strings hold the same text.
fn string_same(a: &String, b: &String) -> (r: bool)
    ensures
        r == (a@ == b@),
{
    *a == *b
}

/// The size of a data block of a compiled caption file.
pub const BLOCK_SIZE: usize = 8192;

/// The size of the header of a compiled caption file.
pub const HEADER_SIZE: usize = 24;

/// The size of a directory entry: CRC (4 bytes), block (4), offset (2),
/// length (2).
pub const DIRECTORY_ENTRY_SIZE: usize = 12;

/// `n` as two little-endian bytes (of its low 16 bits).
pub open spec fn le16(n: int) -> Seq<u8> {
    seq![(n % 256) as u8, ((n / 256) % 256) as u8]
}

/// `n` as four little-endian bytes (of its low 32 bits).
pub open spec fn le32(n: int) -> Seq<u8> {
    seq![(n % 256) as u8, ((n / 256) % 256) as u8, ((n / 65536) % 256) as u8, ((n / 16777216) % 256) as u8]
}

/// The UTF-16 code units of a character.
pub open spec fn char_units(c: char) -> Seq<int> {
    let v = (c as u32) as int;
    if v < 0x10000 {
        seq![v]
    } else {
        seq![0xD800 + (v - 0x10000) / 1024, 0xDC00 + (v - 0x10000) % 1024]
    }
}

/// The UTF-16 encoding of `s`, little-endian.
pub open spec fn utf16_le(s: Seq<char>) -> Seq<u8>
    decreases s.len(),
{
    if s.len() == 0 {
        Seq::empty()
    } else {
        let us = char_units(s.last());
        utf16_le(s.drop_last()) + if us.len() == 1 {
            le16(us[0])
        } else {
            le16(us[0]) + le16(us[1])
        }
    }
}

/// The text `str::to_lowercase` gives for `s`.
pub uninterp spec fn spec_to_lowercase(s: Seq<char>) -> Seq<char>;

/// `n` steps of the CRC-32 (IEEE) register, whose bits are taken lowest
/// first, with the reflected polynomial `0xEDB88320`.
pub open spec fn crc32_shift(c: u32, n: nat) -> u32
    decreases n,
{
    if n == 0 {
        c
    } else {
        let next = if c & 1u32 == 1u32 { (c >> 1u32) ^ 0xEDB8_8320u32 } else { c >> 1u32 };
        crc32_shift(next, (n - 1) as nat)
    }
}

/// The CRC-32 register after `bytes`, started at all ones: each byte is
/// added into the low bits, then shifted through.
pub open spec fn crc32_register(bytes: Seq<u8>) -> u32
    decreases bytes.len(),
{
    if bytes.len() == 0 {
        0xFFFF_FFFFu32
    } else {
        crc32_shift(crc32_register(bytes.drop_last()) ^ (bytes.last() as u32), 8)
    }
}

/// The CRC-32 (IEEE) of `bytes`, as `crc32fast::hash` gives it: the
/// register after the bytes, inverted.
pub open spec fn spec_crc32(bytes: Seq<u8>) -> u32 {
    crc32_register(bytes) ^ 0xFFFF_FFFFu32
}

/// `str::to_lowercase`. The contract names the result; it says nothing of
/// Unicode case mapping.
#[verifier::external_body]
fn lowercase(s: &str) -> (r: String)
    ensures
        r@ == spec_to_lowercase(s@),
{
    s.to_lowercase()
}

/// `crc32fast::hash`: the CRC-32 (IEEE) of the bytes (see `spec_crc32`).
#[verifier::external_body]
fn crc32(bytes: &[u8]) -> (r: u32)
    ensures
        r == spec_crc32(bytes@),
{
    crc32fast::hash(bytes)
}

/// The bytes a token's text takes in a data block: its UTF-16 encoding and
/// a two-byte terminator.
pub open spec fn entry_bytes(v: Seq<char>) -> Seq<u8> {
    utf16_le(v) + seq![0u8, 0u8]
}

/// Where the tokens so far have put their texts: the current block and the
/// position in it, the directory written, the finished blocks' bytes and
/// the current block's bytes.
pub struct Layout {
    pub block: int,
    pub pos: int,
    pub dir: Seq<u8>,
    pub data: Seq<u8>,
    pub cur: Seq<u8>,
}

/// The layout after the tokens `ts`, in order: a text that would reach the
/// end of the current block starts a new one; each token gets a directory
/// entry of the CRC of its lower-cased UTF-8 name, its block, offset and
/// length.
pub open spec fn layout(ts: Seq<(String, String)>) -> Layout
    decreases ts.len(),
{
    if ts.len() == 0 {
        Layout { block: 0, pos: 0, dir: Seq::empty(), data: Seq::empty(), cur: Seq::empty() }
    } else {
        let l = layout(ts.drop_last());
        let e = entry_bytes(ts.last().1@);
        let fresh = l.pos + e.len() >= BLOCK_SIZE;
        let block = if fresh { l.block + 1 } else { l.block };
        let pos = if fresh { 0 } else { l.pos };
        let data = if fresh { l.data + l.cur } else { l.data };
        let cur = if fresh { Seq::<u8>::empty() } else { l.cur };
        Layout {
            block,
            pos: pos + e.len(),
            dir: l.dir + le32(spec_crc32(encode_utf8(spec_to_lowercase(ts.last().0@))) as int) + le32(block) + le16(pos)
                + le16(e.len() as int),
            data,
            cur: cur + e,
        }
    }
}

/// The padding after the directory of `n` entries, up to a multiple of 512.
pub open spec fn dir_padding(n: int) -> int {
    (512 - (HEADER_SIZE + n * DIRECTORY_ENTRY_SIZE) % 512) % 512
}

/// Where the data of a file with `n` entries starts.
pub open spec fn data_offset(n: int) -> int {
    HEADER_SIZE + n * DIRECTORY_ENTRY_SIZE + dir_padding(n)
}

/// The compiled caption file of the tokens `ts`: `VCCD`, version 1, the
/// number of blocks, the block size, the number of entries and the data
/// offset, then the directory, zeros up to the data offset, and the data.
pub open spec fn compiled(ts: Seq<(String, String)>) -> Seq<u8> {
    let l = layout(ts);
    let n = ts.len() as int;
    seq![0x56u8, 0x43u8, 0x43u8, 0x44u8] + le32(1) + le32(l.block + 1) + le32(BLOCK_SIZE as int) + le32(n)
        + le32(data_offset(n)) + l.dir + Seq::new(dir_padding(n) as nat, |i: int| 0u8) + l.data + l.cur
}

/// Whether some token's text is too long for the two bytes of its entry's
/// length.
pub open spec fn has_long_token(ts: Seq<(String, String)>) -> bool {
    exists|i: int| 0 <= i < ts.len() && entry_bytes(#[trigger] ts[i].1@).len() > 65535
}

/// Appends `n` as two little-endian bytes.
fn push_le16(out: &mut Vec<u8>, n: u16)
    ensures
        final(out)@ == old(out)@ + le16(n as int),
{
    out.push((n % 256) as u8);
    out.push((n / 256) as u8);
    assert(final(out)@ =~= old(out)@ + le16(n as int)) by {
        assert(((n as int / 256) % 256) == n / 256);
    };
}

/// Appends `n` as four little-endian bytes.
fn push_le32(out: &mut Vec<u8>, n: u32)
    ensures
        final(out)@ =~= old(out)@ + le32(n as int),
{
    out.push((n % 256) as u8);
    out.push(((n / 256) % 256) as u8);
    out.push(((n / 65536) % 256) as u8);
    out.push((n / 16777216) as u8);
    assert((n as int / 16777216) % 256 == n / 16777216);
}

/// Appends the UTF-16 encoding of `s`, little-endian.
fn push_utf16_le(out: &mut Vec<u8>, s: &str)
    ensures
        final(out)@ == old(out)@ + utf16_le(s@),
{
    let v = crate::text::chars_of(s);
    let ghost start = out@;
    let mut i: usize = 0;
    while i < v.len()
        invariant
            v@ == s@,
            i <= v@.len(),
            out@ == start + utf16_le(v@.take(i as int)),
        decreases v.len() - i,
    {
        let c = v[i];
        proof {
            assert(v@.take(i + 1).drop_last() =~= v@.take(i as int));
            assert(v@.take(i + 1).last() == c);
        }
        proof {
            vstd::utf8::char_is_scalar(c);
        }
        let x = c as u32;
        if x < 0x10000 {
            push_le16(out, x as u16);
        } else {
            let w = x - 0x10000;
            push_le16(out, (0xD800 + w / 1024) as u16);
            push_le16(out, (0xDC00 + w % 1024) as u16);
        }
        proof {
            assert(out@ =~= start + utf16_le(v@.take(i + 1)));
        }
        i = i + 1;
    }
    proof {
        assert(v@.take(v@.len() as int) =~= v@);
    }
}

/// Appends `b` to `out`.
fn append_bytes(out: &mut Vec<u8>, b: &Vec<u8>)
    ensures
        final(out)@ == old(out)@ + b@,
{
    let ghost start = out@;
    let mut i: usize = 0;
    while i < b.len()
        invariant
            i <= b@.len(),
            out@ == start + b@.take(i as int),
        decreases b.len() - i,
    {
        out.push(b[i]);
        i = i + 1;
        assert(out@ =~= start + b@.take(i as int));
    }
    assert(b@.take(b@.len() as int) =~= b@);
}

impl Caption {
    /// Compiles the caption into the game's binary format (see
    /// `compiled`). Fails where there are more tokens than an `i32` counts,
    /// where the data would start past what an `i32` addresses, or where a
    /// token's text takes more than 65535 bytes.
    pub fn compile(&self) -> (r: Result<Vec<u8>, CaptionError>)
        ensures
            ({
                let ts = self.tokens@;
                let n = ts.len() as int;
                if n > i32::MAX {
                    r == Err::<Vec<u8>, CaptionError>(CaptionError::TooManyTokens)
                } else if data_offset(n) > i32::MAX {
                    r == Err::<Vec<u8>, CaptionError>(CaptionError::DataTooFar)
                } else if has_long_token(ts) {
                    r == Err::<Vec<u8>, CaptionError>(CaptionError::TokenTooLong)
                } else {
                    r matches Ok(bytes) && bytes@ == compiled(ts)
                }
            }),
    {
        let ghost ts = self.tokens@;
        let n = self.tokens.len();
        if n > 0x7fff_ffff {
            return Err(CaptionError::TooManyTokens);
        }
        let n64 = n as u64;
        let base: u64 = 24 + n64 * 12;
        let padding: u64 = (512 - base % 512) % 512;
        let offset: u64 = base + padding;
        assert(padding == dir_padding(n as int));
        assert(offset == data_offset(n as int));
        if offset > 0x7fff_ffff {
            return Err(CaptionError::DataTooFar);
        }
        let mut dir: Vec<u8> = Vec::new();
        let mut data: Vec<u8> = Vec::new();
        let mut cur: Vec<u8> = Vec::new();
        let mut block: u64 = 0;
        let mut pos: usize = 0;
        let mut i: usize = 0;
        while i < n
            invariant
                n == ts.len(),
                ts == self.tokens@,
                n <= 0x7fff_ffff,
                data_offset(n as int) <= i32::MAX,
                i <= n,
                block <= i,
                pos <= 65535 + BLOCK_SIZE,
                cur@.len() == pos,
                layout(ts.take(i as int)) == (Layout { block: block as int, pos: pos as int, dir: dir@, data: data@, cur: cur@ }),
                forall|j: int| 0 <= j < i ==> entry_bytes(#[trigger] ts[j].1@).len() <= 65535,
            decreases n - i,
        {
            let ghost l = layout(ts.take(i as int));
            proof {
                assert(ts.take(i + 1).drop_last() =~= ts.take(i as int));
                assert(ts.take(i + 1).last() == ts[i as int]);
            }
            let k = &self.tokens[i].0;
            let v = &self.tokens[i].1;
            let mut e: Vec<u8> = Vec::new();
            push_utf16_le(&mut e, v.as_str());
            e.push(0);
            e.push(0);
            assert(e@ =~= entry_bytes(ts[i as int].1@));
            let len = e.len();
            if len > 65535 {
                proof {
                    assert(entry_bytes(ts[i as int].1@).len() > 65535);
                    assert(has_long_token(ts));
                }
                return Err(CaptionError::TokenTooLong);
            }
            if pos + len >= BLOCK_SIZE {
                append_bytes(&mut data, &cur);
                cur = Vec::new();
                block = block + 1;
                pos = 0;
            }
            let entry_offset = pos as u16;
            append_bytes(&mut cur, &e);
            let lower = lowercase(k.as_str());
            let crc = crc32(lower.as_str().as_bytes());
            push_le32(&mut dir, crc);
            push_le32(&mut dir, block as u32);
            push_le16(&mut dir, entry_offset);
            push_le16(&mut dir, len as u16);
            pos = pos + len;
            i = i + 1;
            proof {
                assert(dir@ =~= l.dir + le32(spec_crc32(encode_utf8(spec_to_lowercase(ts[i - 1].0@))) as int) + le32(block as int)
                    + le16(entry_offset as int) + le16(len as int));
            }
        }
        proof {
            assert(ts.take(n as int) =~= ts);
            assert(!has_long_token(ts));
        }
        let mut out: Vec<u8> = Vec::new();
        out.push(0x56);
        out.push(0x43);
        out.push(0x43);
        out.push(0x44);
        push_le32(&mut out, 1);
        push_le32(&mut out, (block + 1) as u32);
        push_le32(&mut out, BLOCK_SIZE as u32);
        push_le32(&mut out, n as u32);
        push_le32(&mut out, offset as u32);
        append_bytes(&mut out, &dir);
        let ghost before_pad = out@;
        let mut z: u64 = 0;
        while z < padding
            invariant
                z <= padding,
                out@ == before_pad + Seq::new(z as nat, |j: int| 0u8),
            decreases padding - z,
        {
            out.push(0);
            z = z + 1;
            assert(out@ =~= before_pad + Seq::new(z as nat, |j: int| 0u8));
        }
        append_bytes(&mut out, &data);
        append_bytes(&mut out, &cur);
        proof {
            assert(out@ =~= compiled(ts));
        }
        Ok(out)
    }
}

/// The token entries of a caption's VDF form: each name holding its text.
pub open spec fn token_entries(ts: Seq<(String, String)>) -> Seq<(Seq<char>, Seq<VdfNode>)> {
    Seq::new(ts.len(), |i: int| (ts[i].0@, seq![VdfNode::Str(ts[i].1@)]))
}

/// A caption's VDF document: `Language` holding the language and `Tokens`
/// holding the tokens (see `token_entries`).
pub open spec fn caption_node(c: Caption) -> VdfNode {
    VdfNode::Obj(
        seq![
            ("Language"@, seq![VdfNode::Str(c.language@)]),
            ("Tokens"@, seq![VdfNode::Obj(token_entries(c.tokens@))]),
        ],
    )
}

/// The language and the tokens a caption file's text gives: the document's
/// root must hold a `Language` string and a `Tokens` object whose entries
/// each hold a string first; the tokens are set in the entries' order.
pub open spec fn read_caption(text: Seq<char>) -> Result<(Seq<char>, Map<Seq<char>, Seq<char>>), CaptionError> {
    match spec_parse_vdf(text) {
        None => Err(CaptionError::Unparsable),
        Some((_, root)) => match first_under(root, "Language"@) {
            Some(VdfNode::Str(lang)) => match first_under(root, "Tokens"@) {
                Some(VdfNode::Obj(entries)) => if entries_all_str(entries) {
                    Ok((lang, entries_token_map(entries)))
                } else {
                    Err(CaptionError::BadToken)
                },
                _ => Err(CaptionError::NoTokens),
            },
            _ => Err(CaptionError::NoLanguage),
        },
    }
}

/// The tokens that the entries of a caption's document give are the
/// caption's tokens.
proof fn lemma_entries_token_map(ts: Seq<(String, String)>)
    ensures
        entries_token_map(token_entries(ts)) == token_map(ts),
    decreases ts.len(),
{
    if ts.len() > 0 {
        assert(token_entries(ts).drop_last() =~= token_entries(ts.drop_last()));
        lemma_entries_token_map(ts.drop_last());
    }
}

/// Reading back a caption's VDF document gives the caption: where the text
/// of a caption file parses to the document that `to_vdf` writes for `c`,
/// `from_vdf` reads `c`'s language and tokens from it.
pub proof fn lemma_vdf_round_trip(c: Caption, text: Seq<char>)
    requires
        spec_parse_vdf(text) matches Some((k, root)) && root == caption_node(c),
    ensures
        read_caption(text) == Ok::<(Seq<char>, Map<Seq<char>, Seq<char>>), CaptionError>((c.language@, c.token_view())),
{
    let root = caption_node(c);
    let entries = token_entries(c.tokens@);
    let top = seq![
        ("Language"@, seq![VdfNode::Str(c.language@)]),
        ("Tokens"@, seq![VdfNode::Obj(entries)]),
    ];
    reveal_strlit("Language");
    reveal_strlit("Tokens");
    assert("Language"@ != "Tokens"@) by {
        assert("Language"@[0] != "Tokens"@[0]);
    }
    assert(top.drop_first() =~= seq![("Tokens"@, seq![VdfNode::Obj(entries)])]);
    assert(obj_get(top, "Language"@) == Some(seq![VdfNode::Str(c.language@)]));
    assert(obj_get(top.drop_first(), "Tokens"@) == Some(seq![VdfNode::Obj(entries)]));
    assert(obj_get(top, "Tokens"@) == Some(seq![VdfNode::Obj(entries)]));
    assert(entries_all_str(entries));
    lemma_entries_token_map(c.tokens@);
}

/// Whether every entry holds a string first.
pub open spec fn entries_all_str(entries: Seq<(Seq<char>, Seq<VdfNode>)>) -> bool {
    forall|i: int| 0 <= i < entries.len() ==> (#[trigger] entries[i]).1.len() > 0 && entries[i].1[0] is Str
}

/// The tokens of VDF entries, set in order: each name with its first
/// string.
pub open spec fn entries_token_map(entries: Seq<(Seq<char>, Seq<VdfNode>)>) -> Map<Seq<char>, Seq<char>>
    decreases entries.len(),
{
    if entries.len() == 0 {
        Map::empty()
    } else {
        entries_token_map(entries.drop_last()).insert(entries.last().0, entries.last().1[0]->Str_0)
    }
}

/// Whether no text of a caption (its language, its tokens' names and
/// texts) holds a double quote or a backslash.
pub open spec fn plain_caption(c: Caption) -> bool {
    &&& plain_text(c.language@)
    &&& forall|i: int|
        #![trigger c.tokens@[i]]
        0 <= i < c.tokens@.len() ==> plain_text(c.tokens@[i].0@) && plain_text(c.tokens@[i].1@)
}

/// The document of a caption with ascending tokens and plain texts is one
/// that `keyvalues_parser` reads back unchanged.
proof fn lemma_caption_canonical(c: Caption)
    requires
        c.wf(),
        plain_caption(c),
    ensures
        canonical(caption_node(c)),
{
    let entries = token_entries(c.tokens@);
    assert(canonical(VdfNode::Obj(entries))) by {
        assert forall|i: int, j: int| 0 <= i < entries.len() && 0 <= j < entries[i].1.len() implies canonical(
            #[trigger] entries[i].1[j],
        ) by {
            assert(entries[i].1[j] == VdfNode::Str(c.tokens@[i].1@));
        }
        assert forall|i: int| 0 <= i < entries.len() implies plain_text((#[trigger] entries[i]).0) && entries[i].1.len() > 0 by {
            assert(entries[i].0 == c.tokens@[i].0@);
        }
        assert forall|i: int, j: int| 0 <= i < j < entries.len() implies text_lt(#[trigger] entries[i].0, #[trigger] entries[j].0) by {
            assert(text_lt(c.tokens@[i].0@, c.tokens@[j].0@));
        }
    }
    reveal_strlit("Language");
    reveal_strlit("Tokens");
    let top = seq![
        ("Language"@, seq![VdfNode::Str(c.language@)]),
        ("Tokens"@, seq![VdfNode::Obj(entries)]),
    ];
    assert(text_lt("Language"@, "Tokens"@));
    assert(plain_text("Language"@)) by {
        assert forall|k: int| 0 <= k < "Language"@.len() implies "Language"@[k] != '"' && "Language"@[k] != '\\' by {}
    }
    assert(plain_text("Tokens"@)) by {
        assert forall|k: int| 0 <= k < "Tokens"@.len() implies "Tokens"@[k] != '"' && "Tokens"@[k] != '\\' by {}
    }
    assert forall|i: int, j: int| 0 <= i < top.len() && 0 <= j < top[i].1.len() implies canonical(#[trigger] top[i].1[j]) by {
        if i == 0 {
            assert(top[i].1[j] == VdfNode::Str(c.language@));
        } else {
            assert(top[i].1[j] == VdfNode::Obj(entries));
        }
    }
    assert forall|i: int, j: int| 0 <= i < j < top.len() implies text_lt(#[trigger] top[i].0, #[trigger] top[j].0) by {}
    assert(caption_node(c) == VdfNode::Obj(top));
}

impl Caption {
    /// The caption as a VDF document: `lang` holding `Language` (the
    /// language) and `Tokens` (each token's name holding its text).
    pub fn to_vdf(&self) -> (r: VdfPair)
        ensures
            r.key@ == "lang"@,
            node_of(r.value) == caption_node(*self),
    {
        let mut entries: Vec<(String, Vec<VdfValue>)> = Vec::new();
        let mut i: usize = 0;
        while i < self.tokens.len()
            invariant
                i <= self.tokens@.len(),
                entries@.len() == i,
                entries_view(entries@) == token_entries(self.tokens@.take(i as int)),
            decreases self.tokens.len() - i,
        {
            let ghost before = entries@;
            let k = self.tokens[i].0.clone();
            let v = self.tokens[i].1.clone();
            let vals: Vec<VdfValue> = vec![VdfValue::Str(v)];
            let ghost kv = k@;
            let ghost vv = vals@.map_values(|x: VdfValue| node_of(x));
            proof {
                assert(vv =~= seq![VdfNode::Str(self.tokens@[i as int].1@)]);
            }
            entries.push((k, vals));
            proof {
                assert(entries_view(entries@)[i as int] == (kv, vv));
                assert forall|j: int| 0 <= j < i implies entries_view(entries@)[j] == entries_view(before)[j] by {
                    assert(entries@[j] == before[j]);
                }
                assert forall|j: int| 0 <= j < i + 1 implies entries_view(entries@)[j] == token_entries(self.tokens@.take(i + 1))[j] by {
                    if j < i {
                        assert(token_entries(self.tokens@.take(i + 1))[j] == token_entries(self.tokens@.take(i as int))[j]);
                    } else {
                        assert(kv == self.tokens@[i as int].0@);
                    }
                }
                assert(entries_view(entries@) =~= token_entries(self.tokens@.take(i + 1)));
            }
            i = i + 1;
        }
        proof {
            assert(self.tokens@.take(self.tokens@.len() as int) =~= self.tokens@);
        }
        let tokens_value = VdfValue::Obj(entries);
        proof {
            crate::vdf::lemma_obj_view(tokens_value);
        }
        let lang_vals: Vec<VdfValue> = vec![VdfValue::Str(self.language.clone())];
        let tok_vals: Vec<VdfValue> = vec![tokens_value];
        let root_entries: Vec<(String, Vec<VdfValue>)> = vec![("Language".to_string(), lang_vals), ("Tokens".to_string(), tok_vals)];
        let root = VdfValue::Obj(root_entries);
        proof {
            crate::vdf::lemma_obj_view(root);
            assert(lang_vals@.map_values(|x: VdfValue| node_of(x)) =~= seq![VdfNode::Str(self.language@)]);
            assert(tok_vals@.map_values(|x: VdfValue| node_of(x)) =~= seq![VdfNode::Obj(token_entries(self.tokens@))]);
            assert(entries_view(root_entries@) =~= seq![
                ("Language"@, seq![VdfNode::Str(self.language@)]),
                ("Tokens"@, seq![VdfNode::Obj(token_entries(self.tokens@))]),
            ]);
        }
        VdfPair { key: "lang".to_string(), value: root }
    }

    /// The caption's VDF document (`to_vdf`) as text, written out by
    /// `keyvalues_parser`. Where the tokens ascend and no text of the caption
    /// holds a double quote or a backslash, `from_vdf` reads the same
    /// language and tokens back from it.
    pub fn to_vdf_text(&self) -> (r: String)
        ensures
            self.wf() && plain_caption(*self) ==> read_caption(r@) == Ok::<
                (Seq<char>, Map<Seq<char>, Seq<char>>),
                CaptionError,
            >((self.language@, self.token_view())),
    {
        let doc = self.to_vdf();
        let r = render_vdf(&doc);
        proof {
            if self.wf() && plain_caption(*self) {
                lemma_caption_canonical(*self);
                reveal_strlit("lang");
                assert(plain_text("lang"@)) by {
                    assert forall|k: int| 0 <= k < "lang"@.len() implies "lang"@[k] != '"' && "lang"@[k] != '\\' by {}
                }
                lemma_vdf_round_trip(*self, r@);
            }
        }
        r
    }

    /// Reads a caption from the text of a VDF caption file: the root's
    /// `Language` string and its `Tokens` object, each token holding a
    /// string.
    pub fn from_vdf(vdf: &str) -> (r: Result<Caption, CaptionError>)
        ensures
            match read_caption(vdf@) {
                Ok((lang, tokens)) => r matches Ok(c) && c.wf() && c.language@ == lang && c.token_view() == tokens,
                Err(e) => r == Err::<Caption, CaptionError>(e),
            },
    {
        let doc = match parse_vdf(vdf) {
            Some(d) => d,
            None => {
                return Err(CaptionError::Unparsable);
            },
        };
        let language = match crate::vdf::first_value(&doc.value, "Language") {
            Some(VdfValue::Str(l)) => l.clone(),
            _ => {
                return Err(CaptionError::NoLanguage);
            },
        };
        let entries = match crate::vdf::first_value(&doc.value, "Tokens") {
            Some(t) => match t {
                VdfValue::Obj(es) => {
                    proof {
                        crate::vdf::lemma_obj_view(*t);
                    }
                    es
                },
                VdfValue::Str(_) => {
                    return Err(CaptionError::NoTokens);
                },
            },
            None => {
                return Err(CaptionError::NoTokens);
            },
        };
        let ghost ev = entries_view(entries@);
        let ghost root = node_of(doc.value);
        proof {
            assert(first_under(root, "Tokens"@) == Some(VdfNode::Obj(ev)));
        }
        let mut c = Caption { language, tokens: Vec::new() };
        let mut i: usize = 0;
        proof {
            assert(c.token_view() =~= entries_token_map(ev.take(0)));
        }
        while i < entries.len()
            invariant
                i <= entries@.len(),
                ev == entries_view(entries@),
                spec_parse_vdf(vdf@) == Some((doc.key@, root)),
                first_under(root, "Language"@) == Some(VdfNode::Str(c.language@)),
                first_under(root, "Tokens"@) == Some(VdfNode::Obj(ev)),
                c.wf(),
                c.language@ == language@,
                entries_all_str(ev.take(i as int)),
                c.token_view() == entries_token_map(ev.take(i as int)),
            decreases entries.len() - i,
        {
            proof {
                assert(ev.take(i + 1).drop_last() =~= ev.take(i as int));
                assert(ev.take(i + 1).last() == ev[i as int]);
            }
            let vals = &entries[i].1;
            if vals.len() == 0 {
                proof {
                    assert(!entries_all_str(ev)) by {
                        assert(ev[i as int].1.len() == 0);
                    }
                }
                return Err(CaptionError::BadToken);
            }
            match &vals[0] {
                VdfValue::Str(text) => {
                    c.set_token(entries[i].0.clone(), text.clone());
                    proof {
                        assert(entries_all_str(ev.take(i + 1))) by {
                            assert forall|j: int| 0 <= j < i + 1 implies (#[trigger] ev.take(i + 1)[j]).1.len() > 0 && ev.take(i + 1)[j].1[0] is Str by {
                                if j < i {
                                    assert(ev.take(i + 1)[j] == ev.take(i as int)[j]);
                                }
                            }
                        }
                    }
                },
                VdfValue::Obj(_) => {
                    proof {
                        assert(!entries_all_str(ev)) by {
                            assert(!(ev[i as int].1[0] is Str));
                        }
                    }
                    return Err(CaptionError::BadToken);
                },
            }
            i = i + 1;
        }
        proof {
            assert(ev.take(ev.len() as int) =~= ev);
        }
        Ok(c)
    }
}

} // verus!
