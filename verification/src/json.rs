//! JSON values as the library holds them: user data attached to players and
//! preferences of the web interface.
use vstd::prelude::*;

verus! {

/// A JSON value. Numbers are kept as their decimal text; an object keeps
/// its fields in order.
#[derive(Debug)]
pub enum JsonValue {
    Null,
    Bool(bool),
    Number(String),
    Str(String),
    Array(Vec<JsonValue>),
    Object(Vec<(String, JsonValue)>),
}

/// The index of the first field named `key`, or the length where there is
/// none.
pub open spec fn field_index(fields: Seq<(String, JsonValue)>, key: Seq<char>) -> int
    decreases fields.len(),
{
    if fields.len() == 0 {
        0
    } else if fields[0].0@ == key {
        0
    } else {
        1 + field_index(fields.drop_first(), key)
    }
}

/// Whether a field named `key` is present.
pub open spec fn field_has(fields: Seq<(String, JsonValue)>, key: Seq<char>) -> bool {
    exists|i: int| 0 <= i < fields.len() && #[trigger] fields[i].0@ == key
}

/// The value of the field named `key`, where there is one.
pub open spec fn field_get(fields: Seq<(String, JsonValue)>, key: Seq<char>) -> Option<JsonValue> {
    if field_has(fields, key) {
        Some(fields[field_index(fields, key)].1)
    } else {
        None
    }
}

/// Whether no key occurs twice.
pub open spec fn keys_unique(fields: Seq<(String, JsonValue)>) -> bool {
    forall|i: int, j: int| 0 <= i < j < fields.len() ==> fields[i].0@ != fields[j].0@
}

/// Whether every object inside `v` has each key once.
pub open spec fn well_formed(v: JsonValue) -> bool
    decreases v,
{
    match v {
        JsonValue::Object(fs) => keys_unique(fs@) && forall|i: int|
            0 <= i < fs@.len() ==> well_formed(#[trigger] fs@[i].1),
        JsonValue::Array(xs) => forall|i: int| 0 <= i < xs@.len() ==> well_formed(#[trigger] xs@[i]),
        _ => true,
    }
}

/// Whether two values are the same JSON: the same kind, the same text,
/// and element by element, field by field in order, the same.
pub open spec fn same_json(a: JsonValue, b: JsonValue) -> bool
    decreases a,
{
    match a {
        JsonValue::Null => b is Null,
        JsonValue::Bool(x) => b matches JsonValue::Bool(y) && x == y,
        JsonValue::Number(x) => b matches JsonValue::Number(y) && x@ == y@,
        JsonValue::Str(x) => b matches JsonValue::Str(y) && x@ == y@,
        JsonValue::Array(xs) => b matches JsonValue::Array(ys) && xs@.len() == ys@.len() && forall|i: int|
            0 <= i < xs@.len() ==> same_json(#[trigger] xs@[i], ys@[i]),
        JsonValue::Object(fs) => b matches JsonValue::Object(gs) && fs@.len() == gs@.len() && forall|i: int|
            0 <= i < fs@.len() ==> #[trigger] fs@[i].0@ == gs@[i].0@ && same_json(fs@[i].1, gs@[i].1),
    }
}

/// Whether `r` is `b` merged into `a`: where both are objects, a field of
/// `b` whose value is null is absent from `r`, any other field of `b` is in
/// `r` merged into `a`'s field of that name (null where `a` has none), and
/// the fields of `a` that `b` does not name are kept unchanged; otherwise
/// `r` is `b`.
pub open spec fn is_merge(a: JsonValue, b: JsonValue, r: JsonValue) -> bool
    decreases b,
{
    match (a, b) {
        (JsonValue::Object(af), JsonValue::Object(bf)) => match r {
            JsonValue::Object(rf) => {
                &&& keys_unique(rf@)
                &&& forall|k: Seq<char>|
                    #![trigger field_has(rf@, k)]
                    !field_has(bf@, k) ==> (field_has(rf@, k) == field_has(af@, k) && (field_has(
                        af@,
                        k,
                    ) ==> field_get(rf@, k) == field_get(af@, k)))
                &&& forall|i: int|
                    #![trigger bf@[i]]
                    0 <= i < bf@.len() ==> {
                        let k = bf@[i].0@;
                        let v = bf@[i].1;
                        if v is Null {
                            !field_has(rf@, k)
                        } else {
                            field_has(rf@, k) && is_merge(
                                match field_get(af@, k) {
                                    Some(x) => x,
                                    None => JsonValue::Null,
                                },
                                v,
                                rf@[field_index(rf@, k)].1,
                            )
                        }
                    }
            },
            _ => false,
        },
        _ => r == b,
    }
}

/// A merge leaves in each field that `b` sets to a value other than null or
/// an object exactly `b`'s value.
pub proof fn lemma_merge_sets_value(a: JsonValue, b: JsonValue, r: JsonValue, k: Seq<char>)
    requires
        a is Object,
        b matches JsonValue::Object(bf) && field_has(bf@, k) && !(field_get(bf@, k)->0 is Null)
            && !(field_get(bf@, k)->0 is Object),
        is_merge(a, b, r),
    ensures
        r matches JsonValue::Object(rf) && field_get(rf@, k) == match b {
            JsonValue::Object(bf) => field_get(bf@, k),
            _ => None,
        },
{
    if let (JsonValue::Object(af), JsonValue::Object(bf)) = (a, b) {
        if let JsonValue::Object(rf) = r {
            lemma_field_index(bf@, k);
            let i = field_index(bf@, k);
            assert(bf@[i].0@ == k);
            let v = bf@[i].1;
            assert(field_has(rf@, k));
            lemma_field_index(rf@, k);
            let x = match field_get(af@, k) {
                Some(x) => x,
                None => JsonValue::Null,
            };
            let y = rf@[field_index(rf@, k)].1;
            assert(is_merge(x, v, y));
            assert(y == v);
            assert(field_get(rf@, k) == Some(y));
            assert(field_get(bf@, k) == Some(v));
        }
    }
}

/// A merge removes each field that `b` sets to null.
pub proof fn lemma_merge_removes_null(a: JsonValue, b: JsonValue, r: JsonValue, k: Seq<char>)
    requires
        a is Object,
        b matches JsonValue::Object(bf) && field_has(bf@, k) && field_get(bf@, k)->0 is Null,
        is_merge(a, b, r),
    ensures
        r matches JsonValue::Object(rf) && !field_has(rf@, k),
{
    if let (JsonValue::Object(af), JsonValue::Object(bf)) = (a, b) {
        lemma_field_index(bf@, k);
        let i = field_index(bf@, k);
        assert(bf@[i].0@ == k);
    }
}

/// A merge keeps each field of `a` that `b` does not name, with its value.
pub proof fn lemma_merge_keeps_unnamed(a: JsonValue, b: JsonValue, r: JsonValue, k: Seq<char>)
    requires
        a matches JsonValue::Object(af) && field_has(af@, k),
        b matches JsonValue::Object(bf) && !field_has(bf@, k),
        is_merge(a, b, r),
    ensures
        r matches JsonValue::Object(rf) && field_get(rf@, k) == match a {
            JsonValue::Object(af) => field_get(af@, k),
            _ => None,
        },
{
}

/// Whether two values are the same JSON regardless of the order of object
/// fields: objects with the same keys whose values are, key by key, the same
/// in this sense; any other value equal.
pub open spec fn json_equiv(x: JsonValue, y: JsonValue) -> bool
    decreases x,
{
    match x {
        JsonValue::Object(xf) => match y {
            JsonValue::Object(yf) => {
                &&& forall|k: Seq<char>| #![trigger field_has(xf@, k)] #![trigger field_has(yf@, k)]
                    field_has(xf@, k) == field_has(yf@, k)
                &&& forall|i: int|
                    #![trigger xf@[i]]
                    0 <= i < xf@.len() && field_index(xf@, xf@[i].0@) == i ==> json_equiv(
                        xf@[i].1,
                        yf@[field_index(yf@, xf@[i].0@)].1,
                    )
            },
            _ => false,
        },
        _ => x == y,
    }
}

/// Whether no object inside `v` (`v` itself included) has a field whose
/// value is null.
pub open spec fn null_free(v: JsonValue) -> bool
    decreases v,
{
    match v {
        JsonValue::Object(fs) => forall|i: int|
            #![trigger fs@[i]]
            0 <= i < fs@.len() ==> !(fs@[i].1 is Null) && null_free(fs@[i].1),
        _ => true,
    }
}

/// Whether every field of the object `b` is null or holds no null in any
/// object inside it: a null only stands at the top, to remove a field.
pub open spec fn nulls_on_top(b: JsonValue) -> bool {
    match b {
        JsonValue::Object(bf) => forall|i: int|
            #![trigger bf@[i]]
            0 <= i < bf@.len() ==> bf@[i].1 is Null || null_free(bf@[i].1),
        _ => true,
    }
}

/// Every value is the same JSON as itself.
pub proof fn lemma_json_equiv_refl(x: JsonValue)
    ensures
        json_equiv(x, x),
    decreases x,
{
    if let JsonValue::Object(xf) = x {
        assert forall|i: int| 0 <= i < xf@.len() && field_index(xf@, xf@[i].0@) == i implies json_equiv(
            xf@[i].1,
            xf@[field_index(xf@, xf@[i].0@)].1,
        ) by {
            lemma_json_equiv_refl(xf@[i].1);
        }
    }
}

/// Merging a value with no null inside into itself gives the same JSON.
proof fn lemma_merge_self(b: JsonValue, r: JsonValue)
    requires
        is_merge(b, b, r),
        null_free(b),
    ensures
        json_equiv(b, r),
    decreases b,
{
    match b {
        JsonValue::Object(bf) => {
            if let JsonValue::Object(rf) = r {
                assert forall|k: Seq<char>| field_has(bf@, k) implies field_has(rf@, k) by {
                    lemma_field_index(bf@, k);
                    let j = field_index(bf@, k);
                    assert(bf@[j].0@ == k);
                }
                assert forall|i: int| 0 <= i < bf@.len() && field_index(bf@, bf@[i].0@) == i implies json_equiv(
                    bf@[i].1,
                    rf@[field_index(rf@, bf@[i].0@)].1,
                ) by {
                    let k = bf@[i].0@;
                    assert(field_has(bf@, k));
                    lemma_merge_self(bf@[i].1, rf@[field_index(rf@, k)].1);
                }
            }
        },
        _ => {
            lemma_json_equiv_refl(b);
        },
    }
}

/// The induction behind `lemma_merge_twice`: where `a` is an object, a null
/// may stand on top of `b`; where it is not, none may stand inside `b`.
proof fn lemma_merge_again(a: JsonValue, b: JsonValue, r1: JsonValue, r2: JsonValue)
    requires
        is_merge(a, b, r1),
        is_merge(r1, b, r2),
        (a is Object && nulls_on_top(b)) || null_free(b),
    ensures
        json_equiv(r1, r2),
    decreases b,
{
    match (a, b) {
        (JsonValue::Object(af), JsonValue::Object(bf)) => {
            if let (JsonValue::Object(r1f), JsonValue::Object(r2f)) = (r1, r2) {
                assert forall|k: Seq<char>| field_has(r1f@, k) == field_has(r2f@, k) by {
                    lemma_field_index(bf@, k);
                    if field_has(bf@, k) {
                        let j = field_index(bf@, k);
                        assert(bf@[j].0@ == k);
                    }
                }
                assert forall|i: int| 0 <= i < r1f@.len() && field_index(r1f@, r1f@[i].0@) == i implies json_equiv(
                    r1f@[i].1,
                    r2f@[field_index(r2f@, r1f@[i].0@)].1,
                ) by {
                    let k = r1f@[i].0@;
                    assert(field_has(r1f@, k));
                    lemma_field_index(bf@, k);
                    if field_has(bf@, k) {
                        let j = field_index(bf@, k);
                        assert(bf@[j].0@ == k);
                        let v = bf@[j].1;
                        let ak = match field_get(af@, k) {
                            Some(x) => x,
                            None => JsonValue::Null,
                        };
                        assert(is_merge(ak, v, r1f@[i].1));
                        assert(field_get(r1f@, k) == Some(r1f@[i].1));
                        lemma_merge_again(ak, v, r1f@[i].1, r2f@[field_index(r2f@, k)].1);
                    } else {
                        assert(field_get(r2f@, k) == field_get(r1f@, k));
                        lemma_json_equiv_refl(r1f@[i].1);
                    }
                }
            }
        },
        (_, JsonValue::Object(bf)) => {
            assert(r1 == b);
            lemma_merge_self(b, r2);
        },
        _ => {
            lemma_json_equiv_refl(r1);
        },
    }
}

/// Merging the same object `b` into an object a second time changes nothing
/// (up to the order of fields), where every field of `b` is null or holds no
/// null inside it.
pub proof fn lemma_merge_twice(a: JsonValue, b: JsonValue, r1: JsonValue, r2: JsonValue)
    requires
        a is Object,
        b is Object,
        nulls_on_top(b),
        is_merge(a, b, r1),
        is_merge(r1, b, r2),
    ensures
        json_equiv(r1, r2),
{
    lemma_merge_again(a, b, r1, r2);
}

proof fn lemma_field_index(fields: Seq<(String, JsonValue)>, key: Seq<char>)
    ensures
        0 <= field_index(fields, key) <= fields.len(),
        field_index(fields, key) < fields.len() ==> fields[field_index(fields, key)].0@ == key,
        forall|j: int| 0 <= j < field_index(fields, key) ==> fields[j].0@ != key,
        field_has(fields, key) <==> field_index(fields, key) < fields.len(),
    decreases fields.len(),
{
    if fields.len() > 0 && fields[0].0@ != key {
        lemma_field_index(fields.drop_first(), key);
        assert forall|j: int| 0 <= j < field_index(fields, key) implies fields[j].0@ != key by {
            if j > 0 {
                assert(fields[j] == fields.drop_first()[j - 1]);
            }
        }
        if field_has(fields, key) {
            let i = choose|i: int| 0 <= i < fields.len() && #[trigger] fields[i].0@ == key;
            assert(fields.drop_first()[i - 1].0@ == key);
        }
        if field_index(fields, key) < fields.len() {
            assert(fields.drop_first()[field_index(fields, key) - 1] == fields[field_index(fields, key)]);
        }
    }
    if fields.len() > 0 && fields[0].0@ == key {
        assert(fields[0].0@ == key);
    }
}

proof fn lemma_unique_index(fields: Seq<(String, JsonValue)>, i: int)
    requires
        keys_unique(fields),
        0 <= i < fields.len(),
    ensures
        field_index(fields, fields[i].0@) == i,
        field_has(fields, fields[i].0@),
{
    lemma_field_index(fields, fields[i].0@);
    assert(fields[i].0@ == fields[i].0@);
}

/// Finds the position of the field named `key`.
fn find_field(fields: &Vec<(String, JsonValue)>, key: &String) -> (r: Option<usize>)
    ensures
        match r {
            Some(i) => i < fields@.len() && fields@[i as int].0@ == key@ && field_index(fields@, key@)
                == i,
            None => !field_has(fields@, key@),
        },
{
    proof {
        lemma_field_index(fields@, key@);
    }
    let mut i: usize = 0;
    while i < fields.len()
        invariant
            i <= fields@.len(),
            forall|j: int| 0 <= j < i ==> fields@[j].0@ != key@,
            0 <= field_index(fields@, key@) <= fields@.len(),
            field_index(fields@, key@) < fields@.len() ==> fields@[field_index(fields@, key@)].0@
                == key@,
            forall|j: int| 0 <= j < field_index(fields@, key@) ==> fields@[j].0@ != key@,
            field_has(fields@, key@) <==> field_index(fields@, key@) < fields@.len(),
        decreases fields.len() - i,
    {
        if fields[i].0 == *key {
            return Some(i);
        }
        i = i + 1;
    }
    None
}

proof fn lemma_remove_field(fields: Seq<(String, JsonValue)>, i: int)
    requires
        keys_unique(fields),
        0 <= i < fields.len(),
    ensures
        keys_unique(fields.remove(i)),
        !field_has(fields.remove(i), fields[i].0@),
        forall|k: Seq<char>|
            k != fields[i].0@ ==> field_has(fields.remove(i), k) == field_has(fields, k) && (
            field_has(fields, k) ==> field_get(fields.remove(i), k) == field_get(fields, k)),
{
    let r = fields.remove(i);
    assert forall|a: int, b: int| 0 <= a < b < r.len() implies r[a].0@ != r[b].0@ by {
        let a2 = if a < i { a } else { a + 1 };
        let b2 = if b < i { b } else { b + 1 };
        assert(r[a] == fields[a2] && r[b] == fields[b2]);
    }
    if field_has(r, fields[i].0@) {
        let j = choose|j: int| 0 <= j < r.len() && #[trigger] r[j].0@ == fields[i].0@;
        let j2 = if j < i { j } else { j + 1 };
        assert(r[j] == fields[j2]);
    }
    assert forall|k: Seq<char>| k != fields[i].0@ implies field_has(r, k) == field_has(fields, k) && (
    field_has(fields, k) ==> field_get(r, k) == field_get(fields, k)) by {
        if field_has(fields, k) {
            let j = choose|j: int| 0 <= j < fields.len() && #[trigger] fields[j].0@ == k;
            let j2 = if j < i { j } else { j - 1 };
            assert(r[j2] == fields[j]);
            assert(r[j2].0@ == k);
            lemma_unique_index(fields, j);
            lemma_unique_index(r, j2);
        }
        if field_has(r, k) {
            let j = choose|j: int| 0 <= j < r.len() && #[trigger] r[j].0@ == k;
            let j2 = if j < i { j } else { j + 1 };
            assert(r[j] == fields[j2]);
            assert(fields[j2].0@ == k);
        }
    }
}

proof fn lemma_push_field(fields: Seq<(String, JsonValue)>, k: String, v: JsonValue)
    requires
        keys_unique(fields),
        !field_has(fields, k@),
    ensures
        keys_unique(fields.push((k, v))),
        field_has(fields.push((k, v)), k@),
        field_index(fields.push((k, v)), k@) == fields.len(),
        forall|k2: Seq<char>|
            k2 != k@ ==> field_has(fields.push((k, v)), k2) == field_has(fields, k2) && (field_has(
                fields,
                k2,
            ) ==> field_get(fields.push((k, v)), k2) == field_get(fields, k2)),
{
    let r = fields.push((k, v));
    assert forall|a: int, b: int| 0 <= a < b < r.len() implies r[a].0@ != r[b].0@ by {
        if b == fields.len() {
            assert(r[a] == fields[a]);
            if r[a].0@ == k@ {
                assert(fields[a].0@ == k@);
            }
        } else {
            assert(r[a] == fields[a] && r[b] == fields[b]);
        }
    }
    lemma_unique_index(r, fields.len() as int);
    assert forall|k2: Seq<char>| k2 != k@ implies field_has(r, k2) == field_has(fields, k2) && (field_has(
        fields,
        k2,
    ) ==> field_get(r, k2) == field_get(fields, k2)) by {
        if field_has(fields, k2) {
            let j = choose|j: int| 0 <= j < fields.len() && #[trigger] fields[j].0@ == k2;
            assert(r[j] == fields[j]);
            lemma_unique_index(fields, j);
            lemma_unique_index(r, j);
        }
        if field_has(r, k2) {
            let j = choose|j: int| 0 <= j < r.len() && #[trigger] r[j].0@ == k2;
            if j < fields.len() {
                assert(r[j] == fields[j]);
            }
        }
    }
}

/// Merges `b` into `a`: objects merge field by field, anything else is
/// replaced by `b`.
fn merge_value(a: &mut JsonValue, b: JsonValue)
    requires
        well_formed(*old(a)),
        well_formed(b),
    ensures
        is_merge(*old(a), b, *final(a)),
        well_formed(*final(a)),
    decreases b,
{
    let both = match (&*a, &b) {
        (JsonValue::Object(_), JsonValue::Object(_)) => true,
        _ => false,
    };
    if !both {
        *a = b;
        return;
    }
    let ghost a0 = *a;
    let ghost b0 = b;
    let mut old_a = JsonValue::Null;
    std::mem::swap(a, &mut old_a);
    let mut af = match old_a {
        JsonValue::Object(f) => f,
        _ => Vec::new(),
    };
    let mut bf = match b {
        JsonValue::Object(f) => f,
        _ => Vec::new(),
    };
    let ghost af0 = af@;
    let ghost bf0 = bf@;
    let ghost bfv = bf;
    assert(a0 == JsonValue::Object(af));
    assert(b0 == JsonValue::Object(bf));
    let ghost mut done: Set<Seq<char>> = Set::empty();
    while bf.len() > 0
        invariant
            keys_unique(af@),
            forall|i: int| 0 <= i < af@.len() ==> well_formed(#[trigger] af@[i].1),
            b0 == JsonValue::Object(bfv),
            b == b0,
            bfv@ == bf0,
            keys_unique(bf0),
            forall|i: int| 0 <= i < bf0.len() ==> well_formed(#[trigger] bf0[i].1),
            bf@ == bf0.take(bf@.len() as int),
            bf@.len() <= bf0.len(),
            forall|k: Seq<char>|
                #![trigger field_has(af@, k)]
                !(exists|i: int| bf@.len() <= i < bf0.len() && #[trigger] bf0[i].0@ == k) ==> (
                field_has(af@, k) == field_has(af0, k) && (field_has(af0, k) ==> field_get(af@, k)
                    == field_get(af0, k))),
            forall|i: int|
                #![trigger bf0[i]]
                bf@.len() <= i < bf0.len() ==> {
                    let k = bf0[i].0@;
                    let v = bf0[i].1;
                    if v is Null {
                        !field_has(af@, k)
                    } else {
                        field_has(af@, k) && is_merge(
                            match field_get(af0, k) {
                                Some(x) => x,
                                None => JsonValue::Null,
                            },
                            v,
                            af@[field_index(af@, k)].1,
                        )
                    }
                },
            decreases bf.len(),
    {
        let j = bf.len() - 1;
        let (k, v) = bf.pop().unwrap();
        proof {
            assert(bf0[j as int] == (k, v));
            assert(bf@ =~= bf0.take(j as int));
            assert forall|i: int| j < i < bf0.len() implies #[trigger] bf0[i].0@ != k@ by {
                assert(bf0[j as int].0@ == k@);
            }
        }
        let ghost af_before = af@;
        let ghost prior = match field_get(af0, k@) {
            Some(x) => x,
            None => JsonValue::Null,
        };
        let found = find_field(&af, &k);
        proof {
            assert(field_has(af_before, k@) == field_has(af0, k@));
            assert(field_has(af0, k@) ==> field_get(af_before, k@) == field_get(af0, k@));
            if let Some(i) = found {
                lemma_unique_index(af_before, i as int);
                assert(prior == af_before[i as int].1);
            } else {
                assert(prior == JsonValue::Null);
            }
        }
        let ghost mut merged = JsonValue::Null;
        if v.is_null() {
            match found {
                Some(i) => {
                    proof {
                        lemma_remove_field(af@, i as int);
                    }
                    af.remove(i);
                },
                None => {},
            }
        } else {
            let mut cur = match found {
                Some(i) => {
                    proof {
                        lemma_remove_field(af@, i as int);
                    }
                    let (_, x) = af.remove(i);
                    x
                },
                None => JsonValue::Null,
            };
            let ghost af_mid = af@;
            proof {
                assert(decreases_to!(b0 => b0->Object_0));
                assert(decreases_to!(bfv => bfv@));
                assert(decreases_to!(bf0 => bf0[j as int]));
                assert(decreases_to!(bf0[j as int] => bf0[j as int].1));
                assert(decreases_to!(b0 => v));
            }
            merge_value(&mut cur, v);
            proof {
                merged = cur;
                lemma_push_field(af@, k, cur);
            }
            af.push((k, cur));
            proof {
                lemma_unique_index(af@, af_mid.len() as int);
                assert(af@[field_index(af@, k@)].1 == merged);
                assert forall|k2: Seq<char>| k2 != k@ implies field_has(af@, k2) == field_has(
                    af_before,
                    k2,
                ) && (field_has(af_before, k2) ==> field_get(af@, k2) == field_get(
                    af_before,
                    k2,
                )) by {
                    assert(field_has(af@, k2) == field_has(af_mid, k2));
                    assert(field_has(af_mid, k2) == field_has(af_before, k2));
                }
                assert forall|i: int| 0 <= i < af@.len() implies well_formed(#[trigger] af@[i].1) by {
                    if i < af_mid.len() {
                        assert(af@[i] == af_mid[i]);
                    }
                }
            }
        }
        proof {
            if v is Null {
                assert(!field_has(af@, k@));
            } else {
                assert(field_has(af@, k@) && is_merge(prior, v, af@[field_index(af@, k@)].1));
            }
            assert forall|k2: Seq<char>| k2 != k@ implies field_has(af@, k2) == field_has(
                af_before,
                k2,
            ) && (field_has(af_before, k2) ==> field_get(af@, k2) == field_get(af_before, k2))
                by {}
            assert forall|k2: Seq<char>|
                !(exists|i: int| j <= i < bf0.len() && #[trigger] bf0[i].0@ == k2) implies (
            field_has(af@, k2) == field_has(af0, k2) && (field_has(af0, k2) ==> field_get(af@, k2)
                == field_get(af0, k2))) by {
                assert(bf0[j as int].0@ == k@);
                assert(field_has(af_before, k2) == field_has(af0, k2));
            }
            assert forall|i: int| #![trigger bf0[i]] j <= i < bf0.len() implies {
                let k3 = bf0[i].0@;
                let v3 = bf0[i].1;
                if v3 is Null {
                    !field_has(af@, k3)
                } else {
                    field_has(af@, k3) && is_merge(
                        match field_get(af0, k3) {
                            Some(x) => x,
                            None => JsonValue::Null,
                        },
                        v3,
                        af@[field_index(af@, k3)].1,
                    )
                }
            } by {
                if i > j {
                    let k3 = bf0[i].0@;
                    assert(k3 != k@);
                    assert(field_has(af@, k3) == field_has(af_before, k3));
                    if field_has(af_before, k3) {
                        assert(field_get(af@, k3) == field_get(af_before, k3));
                    }
                }
            }
        }
    }
    *a = JsonValue::Object(af);
}

/// Merges the object `b` into the object `a`: each field of `b` whose value
/// is null is removed from `a`, each other field is merged into `a`'s field
/// of that name (objects field by field, anything else replaced). Where `a`
/// or `b` is not an object, `a` stays as it is.
pub fn merge_json_objects(a: &mut JsonValue, b: JsonValue)
    requires
        well_formed(*old(a)),
        well_formed(b),
    ensures
        well_formed(*final(a)),
        (*old(a) is Object && b is Object) ==> is_merge(*old(a), b, *final(a)),
        !(*old(a) is Object && b is Object) ==> *final(a) == *old(a),
{
    let both = match (&*a, &b) {
        (JsonValue::Object(_), JsonValue::Object(_)) => true,
        _ => false,
    };
    if both {
        merge_value(a, b);
    }
}

/// Whether `v` is well formed (see `well_formed`): no object inside it has
/// a key twice.
pub fn check_well_formed(v: &JsonValue) -> (b: bool)
    ensures
        b == well_formed(*v),
    decreases v,
{
    match v {
        JsonValue::Array(xs) => {
            let mut i: usize = 0;
            while i < xs.len()
                invariant
                    i <= xs@.len(),
                    *v == JsonValue::Array(*xs),
                    forall|j: int| 0 <= j < i ==> well_formed(#[trigger] xs@[j]),
                decreases xs.len() - i,
            {
                proof {
                    assert(decreases_to!(*v => v->Array_0));
                    assert(decreases_to!(*xs => xs@));
                    assert(decreases_to!(xs@ => xs@[i as int]));
                }
                if !check_well_formed(&xs[i]) {
                    return false;
                }
                i = i + 1;
            }
            true
        },
        JsonValue::Object(fs) => {
            let mut i: usize = 0;
            while i < fs.len()
                invariant
                    i <= fs@.len(),
                    *v == JsonValue::Object(*fs),
                    forall|j: int| 0 <= j < i ==> well_formed(#[trigger] fs@[j].1),
                    forall|a: int, c: int| 0 <= a < c < i ==> fs@[a].0@ != fs@[c].0@,
                decreases fs.len() - i,
            {
                proof {
                    assert(decreases_to!(*v => v->Object_0));
                    assert(decreases_to!(*fs => fs@));
                    assert(decreases_to!(fs@ => fs@[i as int]));
                    assert(decreases_to!(fs@[i as int] => fs@[i as int].1));
                }
                if !check_well_formed(&fs[i].1) {
                    return false;
                }
                let mut j: usize = 0;
                while j < i
                    invariant
                        j <= i < fs@.len(),
                        *v == JsonValue::Object(*fs),
                        forall|a: int| 0 <= a < j ==> fs@[a].0@ != fs@[i as int].0@,
                    decreases i - j,
                {
                    if fs[j].0 == fs[i].0 {
                        proof {
                            assert(fs@[j as int].0@ == fs@[i as int].0@);
                            assert(!keys_unique(fs@));
                        }
                        return false;
                    }
                    j = j + 1;
                }
                i = i + 1;
            }
            true
        },
        _ => true,
    }
}

impl JsonValue {
    /// Whether this is `null`.
    pub fn is_null(&self) -> (b: bool)
        ensures
            b == (*self is Null),
    {
        match self {
            JsonValue::Null => true,
            _ => false,
        }
    }
    /// A copy of this value (see `same_json`).
    pub fn deep_copy(&self) -> (r: JsonValue)
        ensures
            same_json(r, *self),
        decreases self,
    {
        match &*self {
            JsonValue::Null => JsonValue::Null,
            JsonValue::Bool(b) => JsonValue::Bool(*b),
            JsonValue::Number(n) => JsonValue::Number(n.clone()),
            JsonValue::Str(s) => JsonValue::Str(s.clone()),
            JsonValue::Array(xs) => {
                let mut v: Vec<JsonValue> = Vec::new();
                let mut i: usize = 0;
                while i < xs.len()
                    invariant
                        i <= xs@.len(),
                        *self == JsonValue::Array(*xs),
                        v@.len() == i,
                        forall|j: int| 0 <= j < i ==> same_json(#[trigger] v@[j], xs@[j]),
                    decreases xs.len() - i,
                {
                    proof {
                        assert(decreases_to!(*self => self->Array_0));
                        assert(decreases_to!(*xs => xs@));
                        assert(decreases_to!(xs@ => xs@[i as int]));
                    }
                    let x = xs[i].deep_copy();
                    v.push(x);
                    i = i + 1;
                }
                JsonValue::Array(v)
            },
            JsonValue::Object(fs) => {
                let mut v: Vec<(String, JsonValue)> = Vec::new();
                let mut i: usize = 0;
                while i < fs.len()
                    invariant
                        i <= fs@.len(),
                        *self == JsonValue::Object(*fs),
                        v@.len() == i,
                        forall|j: int| 0 <= j < i ==> #[trigger] v@[j].0@ == fs@[j].0@ && same_json(v@[j].1, fs@[j].1),
                    decreases fs.len() - i,
                {
                    proof {
                        assert(decreases_to!(*self => self->Object_0));
                        assert(decreases_to!(*fs => fs@));
                        assert(decreases_to!(fs@ => fs@[i as int]));
                        assert(decreases_to!(fs@[i as int] => fs@[i as int].1));
                    }
                    let x = fs[i].1.deep_copy();
                    v.push((fs[i].0.clone(), x));
                    i = i + 1;
                }
                JsonValue::Object(v)
            },
        }
    }
}

} // verus!
