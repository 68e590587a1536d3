//! Valve's KeyValues (VDF) documents, as the library holds them. Parsing is
//! `keyvalues_parser`'s; the lookups are the library's own.
use vstd::prelude::*;

use crate::caption::text_lt;
use crate::player_records::string_eq_str;

verus! {

/// A value in a VDF document: a string, or an object whose keys (in
/// ascending order, each once) each hold one or more values.
#[derive(Debug, PartialEq, Eq)]
pub enum VdfValue {
    Str(String),
    Obj(Vec<(String, Vec<VdfValue>)>),
}

/// A top-level key and its value.
#[derive(Debug, PartialEq, Eq)]
pub struct VdfPair {
    pub key: String,
    pub value: VdfValue,
}

/// A VDF value with its text as sequences of characters.
pub enum VdfNode {
    Str(Seq<char>),
    Obj(Seq<(Seq<char>, Seq<VdfNode>)>),
}

/// The view of a value.
pub open spec fn node_of(v: VdfValue) -> VdfNode
    decreases v,
{
    match v {
        VdfValue::Str(s) => VdfNode::Str(s@),
        VdfValue::Obj(entries) => VdfNode::Obj(
            Seq::new(
                entries@.len(),
                |i: int|
                    (
                        entries@[i].0@,
                        Seq::new(
                            entries@[i].1@.len(),
                            |j: int|
                                if decreases_to!(v => entries@[i].1@[j]) {
                                    node_of(entries@[i].1@[j])
                                } else {
                                    VdfNode::Str(Seq::empty())
                                },
                        ),
                    ),
            ),
        ),
    }
}

/// The document `keyvalues_parser::parse` reads from `text` (its top-level
/// key and value, `#base` lines left out), or `None` where it refuses the
/// text.
pub uninterp spec fn spec_parse_vdf(text: Seq<char>) -> Option<(Seq<char>, VdfNode)>;

#[verifier::external_type_specification]
#[verifier::external_body]
pub struct ExKeyValuesValue<'a>(keyvalues_parser::Value<'a>);

/// Copies a `keyvalues_parser` value into the library's form.
#[verifier::external_body]
fn value_from_parser(v: &keyvalues_parser::Value<'_>) -> VdfValue {
    match v {
        keyvalues_parser::Value::Str(s) => VdfValue::Str(s.to_string()),
        keyvalues_parser::Value::Obj(o) => VdfValue::Obj(
            o.iter().map(|(k, vs)| (k.to_string(), vs.iter().map(value_from_parser).collect())).collect(),
        ),
    }
}

/// `keyvalues_parser::parse`: reads a VDF document. The contract names the
/// result; it says nothing of the grammar.
#[verifier::external_body]
pub fn parse_vdf(text: &str) -> (r: Option<VdfPair>)
    ensures
        match r {
            Some(p) => spec_parse_vdf(text@) == Some((p.key@, node_of(p.value))),
            None => spec_parse_vdf(text@) is None,
        },
{
    match keyvalues_parser::parse(text) {
        Ok(p) => Some(VdfPair { key: p.key.to_string(), value: value_from_parser(&p.value) }),
        Err(_) => None,
    }
}

/// Whether a text holds neither a double quote nor a backslash.
pub open spec fn plain_text(s: Seq<char>) -> bool {
    !s.contains('"') && !s.contains('\\')
}

/// Whether `keyvalues_parser` writes a value out and reads it back as it
/// is: its texts are plain (see `plain_text`), and in each object the keys
/// ascend strictly in the order of their characters (the order in which it
/// keeps them) and each key holds one or more values.
pub open spec fn canonical(n: VdfNode) -> bool
    decreases n,
{
    match n {
        VdfNode::Str(s) => plain_text(s),
        VdfNode::Obj(es) => {
            &&& forall|i: int, j: int| 0 <= i < j < es.len() ==> text_lt(#[trigger] es[i].0, #[trigger] es[j].0)
            &&& forall|i: int| #![trigger es[i]] 0 <= i < es.len() ==> plain_text(es[i].0) && es[i].1.len() > 0
            &&& forall|i: int, j: int|
                #![trigger es[i].1[j]]
                0 <= i < es.len() && 0 <= j < es[i].1.len() ==> canonical(es[i].1[j])
        },
    }
}

/// Copies a value of the library into `keyvalues_parser`'s form.
#[verifier::external_body]
fn value_to_parser(v: &VdfValue) -> keyvalues_parser::Value<'static> {
    match v {
        VdfValue::Str(s) => keyvalues_parser::Value::Str(std::borrow::Cow::Owned(s.clone())),
        VdfValue::Obj(es) => keyvalues_parser::Value::Obj(
            es.iter().map(|(k, vs)| (std::borrow::Cow::Owned(k.clone()), vs.iter().map(value_to_parser).collect())).collect(),
        ),
    }
}

/// The text of a document as `keyvalues_parser::Vdf` writes it (its
/// `Display`). The contract does not spell the text out; it states that
/// `keyvalues_parser::parse` reads a plain key and a canonical value (see
/// `canonical`) back from it unchanged, which the crate's own round-trip
/// tests check.
#[verifier::external_body]
pub(crate) fn render_vdf(pair: &VdfPair) -> (r: String)
    ensures
        plain_text(pair.key@) && canonical(node_of(pair.value)) ==> spec_parse_vdf(r@) == Some(
            (pair.key@, node_of(pair.value)),
        ),
{
    keyvalues_parser::Vdf::new(std::borrow::Cow::Owned(pair.key.clone()), value_to_parser(&pair.value)).to_string()
}

/// The values an object holds under `key` (the first entry with that key),
/// if any.
pub open spec fn obj_get(entries: Seq<(Seq<char>, Seq<VdfNode>)>, key: Seq<char>) -> Option<Seq<VdfNode>>
    decreases entries.len(),
{
    if entries.len() == 0 {
        None
    } else if entries[0].0 == key {
        Some(entries[0].1)
    } else {
        obj_get(entries.drop_first(), key)
    }
}

/// The first value held under `key` by the object `n`, if `n` is an object
/// and has one.
pub open spec fn first_under(n: VdfNode, key: Seq<char>) -> Option<VdfNode> {
    match n {
        VdfNode::Obj(entries) => match obj_get(entries, key) {
            Some(vs) => if vs.len() > 0 {
                Some(vs[0])
            } else {
                None
            },
            None => None,
        },
        VdfNode::Str(_) => None,
    }
}

/// The value reached from `n` by taking the first value under each key in
/// turn, if each step finds one.
pub open spec fn nested(n: VdfNode, keys: Seq<Seq<char>>) -> Option<VdfNode>
    decreases keys.len(),
{
    if keys.len() == 0 {
        Some(n)
    } else {
        match first_under(n, keys[0]) {
            Some(m) => nested(m, keys.drop_first()),
            None => None,
        }
    }
}

/// The view of the entries of an object.
pub open spec fn entries_view(entries: Seq<(String, Vec<VdfValue>)>) -> Seq<(Seq<char>, Seq<VdfNode>)> {
    Seq::new(entries.len(), |i: int| (entries[i].0@, entries[i].1@.map_values(|x: VdfValue| node_of(x))))
}

/// The view of an object is the view of its entries.
pub proof fn lemma_obj_view(v: VdfValue)
    requires
        v is Obj,
    ensures
        node_of(v) == VdfNode::Obj(entries_view(v->Obj_0@)),
{
    let entries = v->Obj_0;
    assert forall|i: int, j: int|
        0 <= i < entries@.len() && 0 <= j < entries@[i].1@.len() implies decreases_to!(v => entries@[i].1@[j]) by {
        assert(decreases_to!(v => entries));
        assert(decreases_to!(entries => entries@));
        assert(decreases_to!(entries@ => entries@[i]));
        assert(decreases_to!(entries@[i] => entries@[i].1));
        assert(decreases_to!(entries@[i].1 => entries@[i].1@));
        assert(decreases_to!(entries@[i].1@ => entries@[i].1@[j]));
    }
    if let VdfNode::Obj(got) = node_of(v) {
        assert forall|i: int| 0 <= i < entries@.len() implies got[i] == entries_view(entries@)[i] by {
            assert(got[i].1 =~= entries_view(entries@)[i].1);
        }
        assert(got =~= entries_view(entries@));
    }
}

/// The values an object holds under `key`, if it has that key.
pub fn find_entry<'a>(entries: &'a Vec<(String, Vec<VdfValue>)>, key: &str) -> (r: Option<&'a Vec<VdfValue>>)
    ensures
        match r {
            Some(vs) => obj_get(entries_view(entries@), key@) == Some(vs@.map_values(|x: VdfValue| node_of(x))),
            None => obj_get(entries_view(entries@), key@) is None,
        },
{
    let ghost view = entries_view(entries@);
    assert(view.skip(0) =~= view);
    let mut i: usize = 0;
    while i < entries.len()
        invariant
            i <= entries@.len(),
            view == entries_view(entries@),
            obj_get(view, key@) == obj_get(view.skip(i as int), key@),
        decreases entries.len() - i,
    {
        proof {
            assert(view.skip(i as int).drop_first() =~= view.skip(i + 1));
            assert(view.skip(i as int)[0] == view[i as int]);
        }
        if string_eq_str(&entries[i].0, key) {
            return Some(&entries[i].1);
        }
        i = i + 1;
    }
    proof {
        assert(view.skip(i as int).len() == 0);
    }
    None
}

/// The first value the object `v` holds under `key` (see `first_under`).
pub fn first_value<'a>(v: &'a VdfValue, key: &str) -> (r: Option<&'a VdfValue>)
    ensures
        match r {
            Some(x) => first_under(node_of(*v), key@) == Some(node_of(*x)),
            None => first_under(node_of(*v), key@) is None,
        },
{
    match v {
        VdfValue::Obj(entries) => {
            proof {
                lemma_obj_view(*v);
            }
            match find_entry(entries, key) {
                Some(vs) => {
                    if vs.len() > 0 {
                        Some(&vs[0])
                    } else {
                        None
                    }
                },
                None => None,
            }
        },
        VdfValue::Str(_) => None,
    }
}

/// The value reached from `v` through `keys` (see `nested`).
pub fn get_nested_value<'a>(v: &'a VdfValue, keys: &Vec<String>) -> (r: Option<&'a VdfValue>)
    ensures
        match r {
            Some(x) => nested(node_of(*v), keys.deep_view()) == Some(node_of(*x)),
            None => nested(node_of(*v), keys.deep_view()) is None,
        },
{
    let mut current = v;
    assert(keys.deep_view().skip(0) =~= keys.deep_view());
    let mut i: usize = 0;
    while i < keys.len()
        invariant
            i <= keys@.len(),
            nested(node_of(*v), keys.deep_view()) == nested(node_of(*current), keys.deep_view().skip(i as int)),
        decreases keys.len() - i,
    {
        proof {
            assert(keys.deep_view().skip(i as int).drop_first() =~= keys.deep_view().skip(i + 1));
            assert(keys.deep_view().skip(i as int)[0] == keys@[i as int]@);
        }
        match first_value(current, keys[i].as_str()) {
            Some(next) => {
                current = next;
            },
            None => {
                return None;
            },
        }
        i = i + 1;
    }
    proof {
        assert(keys.deep_view().skip(i as int).len() == 0);
    }
    Some(current)
}

} // verus!
