//! The configuration file as a plain tree: KDL nodes with their names,
//! entries (arguments and properties) and child nodes, and the argument
//! accessors that the configuration reader uses.
use vstd::prelude::*;

use kdl::{KdlDocument, KdlEntry, KdlError, KdlNode, KdlValue};

use crate::text::{chars_of, decimal_micros, parse_decimal_micros, signed_decimal, signed_decimal_of};

verus! {

/// A KDL value.
#[derive(Clone, Debug)]
pub enum ConfigValue {
    Str(String),
    Int(i128),
    /// A floating-point number, as its shortest round-trip decimal text
    /// (`0.33`, `-12.5`, `inf`).
    Float(String),
    Bool(bool),
    Null,
}

/// A KDL entry: an argument (no name) or a property (`name=value`).
#[derive(Clone, Debug)]
pub struct ConfigEntry {
    pub name: Option<String>,
    pub value: ConfigValue,
}

/// A KDL node: its name, entries in order, and child block if it has one.
#[derive(Debug)]
pub struct ConfigNode {
    pub name: String,
    pub entries: Vec<ConfigEntry>,
    pub children: Option<Vec<ConfigNode>>,
}

#[verifier::external_type_specification]
#[verifier::external_body]
pub struct ExKdlDocument(KdlDocument);

#[verifier::external_type_specification]
#[verifier::external_body]
pub struct ExKdlNode(KdlNode);

#[verifier::external_type_specification]
#[verifier::external_body]
pub struct ExKdlEntry(KdlEntry);

#[verifier::external_type_specification]
#[verifier::external_body]
pub struct ExKdlError(KdlError);

/// What `KdlDocument::parse` makes of a text: its top-level nodes as a
/// plain tree, or the text of the syntax error it reports.
pub uninterp spec fn kdl_nodes(source: Seq<char>) -> Result<Seq<ConfigNode>, Seq<char>>;

/// `kdl::KdlDocument::parse` (the KDL v2 grammar: the crate is built without
/// its v1 fallback), with the document converted node for node into the plain
/// tree and the error
/// into its display text.  The result is named, not described.
#[verifier::external_body]
pub(crate) fn parse_kdl(source: &str) -> (r: Result<Vec<ConfigNode>, String>)
    ensures
        match r {
            Ok(nodes) => kdl_nodes(source@) == Ok::<Seq<ConfigNode>, Seq<char>>(nodes@),
            Err(e) => kdl_nodes(source@) == Err::<Seq<ConfigNode>, Seq<char>>(e@),
        },
{
    match KdlDocument::parse(source) {
        Ok(doc) => Ok(nodes_of(doc.nodes())),
        Err(e) => Err(e.to_string()),
    }
}

/// Node-for-node conversion of parsed KDL nodes (used by `parse_kdl`).
#[verifier::external_body]
fn nodes_of(nodes: &[KdlNode]) -> Vec<ConfigNode> {
    nodes.iter().map(|n| ConfigNode {
        name: n.name().value().to_string(),
        entries: n.entries().iter().map(entry_of).collect(),
        children: n.children().map(|d| nodes_of(d.nodes())),
    }).collect()
}

/// Entry conversion (used by `nodes_of`): the name's text and the value,
/// a float as its display text.
#[verifier::external_body]
fn entry_of(e: &KdlEntry) -> ConfigEntry {
    let value = match e.value() {
        KdlValue::String(s) => ConfigValue::Str(s.clone()),
        KdlValue::Integer(i) => ConfigValue::Int(*i),
        KdlValue::Float(x) => ConfigValue::Float(x.to_string()),
        KdlValue::Bool(b) => ConfigValue::Bool(*b),
        KdlValue::Null => ConfigValue::Null,
    };
    ConfigEntry { name: e.name().map(|i| i.value().to_string()), value }
}

/// The first argument (unnamed entry) that is a string.
pub open spec fn first_string(es: Seq<ConfigEntry>) -> Option<Seq<char>>
    decreases es.len(),
{
    if es.len() == 0 {
        None
    } else if es[0].name is None && es[0].value is Str {
        Some(es[0].value->Str_0@)
    } else {
        first_string(es.drop_first())
    }
}

/// The first argument that is an integer.
pub open spec fn first_int(es: Seq<ConfigEntry>) -> Option<i128>
    decreases es.len(),
{
    if es.len() == 0 {
        None
    } else if es[0].name is None && es[0].value is Int {
        Some(es[0].value->Int_0)
    } else {
        first_int(es.drop_first())
    }
}

/// The text of the first argument that is a number: an integer's decimal
/// numeral, or a float's text.
pub open spec fn first_number_text(es: Seq<ConfigEntry>) -> Option<Seq<char>>
    decreases es.len(),
{
    if es.len() == 0 {
        None
    } else if es[0].name is None && es[0].value is Int {
        Some(signed_decimal(es[0].value->Int_0 as int))
    } else if es[0].name is None && es[0].value is Float {
        Some(es[0].value->Float_0@)
    } else {
        first_number_text(es.drop_first())
    }
}

/// An integer number of units in millionths, saturated to `i64`.
pub open spec fn int_micros(i: i128) -> i64 {
    let m = i * 1_000_000;
    if m > i64::MAX {
        i64::MAX
    } else if m < i64::MIN {
        i64::MIN
    } else {
        m as i64
    }
}

/// The first argument that is a number, in millionths (a float that is
/// not finite gives `None`).
pub open spec fn first_number(es: Seq<ConfigEntry>) -> Option<i64>
    decreases es.len(),
{
    if es.len() == 0 {
        None
    } else if es[0].name is None && es[0].value is Int {
        Some(int_micros(es[0].value->Int_0))
    } else if es[0].name is None && es[0].value is Float {
        decimal_micros(es[0].value->Float_0@)
    } else {
        first_number(es.drop_first())
    }
}

/// The first argument that is a boolean.
pub open spec fn first_bool(es: Seq<ConfigEntry>) -> Option<bool>
    decreases es.len(),
{
    if es.len() == 0 {
        None
    } else if es[0].name is None && es[0].value is Bool {
        Some(es[0].value->Bool_0)
    } else {
        first_bool(es.drop_first())
    }
}

pub(crate) proof fn lemma_skip_next<T>(s: Seq<T>, i: int)
    requires
        0 <= i < s.len(),
    ensures
        s.skip(i).drop_first() =~= s.skip(i + 1),
        s.skip(i)[0] == s[i],
{
}

/// The first string argument of `node`.
pub fn first_string_arg(node: &ConfigNode) -> (r: Option<String>)
    ensures
        match r {
            Some(s) => first_string(node.entries@) == Some(s@),
            None => first_string(node.entries@) is None,
        },
{
    let es = &node.entries;
    let mut i: usize = 0;
    assert(es@.skip(0) =~= es@);
    while i < es.len()
        invariant
            es == &node.entries,
            0 <= i <= es.len(),
            first_string(es@.skip(i as int)) == first_string(es@),
        decreases es.len() - i,
    {
        proof {
            lemma_skip_next(es@, i as int);
        }
        if es[i].name.is_none() {
            if let ConfigValue::Str(s) = &es[i].value {
                return Some(s.clone());
            }
        }
        i += 1;
    }
    None
}

/// The first integer argument of `node`.
pub fn first_int_arg(node: &ConfigNode) -> (r: Option<i128>)
    ensures
        r == first_int(node.entries@),
{
    let es = &node.entries;
    let mut i: usize = 0;
    assert(es@.skip(0) =~= es@);
    while i < es.len()
        invariant
            es == &node.entries,
            0 <= i <= es.len(),
            first_int(es@.skip(i as int)) == first_int(es@),
        decreases es.len() - i,
    {
        proof {
            lemma_skip_next(es@, i as int);
        }
        if es[i].name.is_none() {
            if let ConfigValue::Int(v) = &es[i].value {
                return Some(*v);
            }
        }
        i += 1;
    }
    None
}

/// The text of the first numeric argument of `node`.
pub fn first_number_text_arg(node: &ConfigNode) -> (r: Option<String>)
    ensures
        match r {
            Some(t) => first_number_text(node.entries@) == Some(t@),
            None => first_number_text(node.entries@) is None,
        },
{
    let es = &node.entries;
    let mut i: usize = 0;
    assert(es@.skip(0) =~= es@);
    while i < es.len()
        invariant
            es == &node.entries,
            0 <= i <= es.len(),
            first_number_text(es@.skip(i as int)) == first_number_text(es@),
        decreases es.len() - i,
    {
        proof {
            lemma_skip_next(es@, i as int);
        }
        if es[i].name.is_none() {
            match &es[i].value {
                ConfigValue::Int(v) => {
                    return Some(signed_decimal_of(*v));
                },
                ConfigValue::Float(t) => {
                    return Some(t.clone());
                },
                _ => {},
            }
        }
        i += 1;
    }
    None
}

/// `i * 1_000_000`, saturated to `i64`.
pub fn int_micros_of(i: i128) -> (r: i64)
    ensures
        r == int_micros(i),
{
    let lim: i128 = 9_223_372_036_855;
    if i >= lim {
        i64::MAX
    } else if i <= -lim {
        i64::MIN
    } else {
        (i * 1_000_000) as i64
    }
}

/// The first numeric argument of `node`, in millionths.
pub fn first_float_arg(node: &ConfigNode) -> (r: Option<i64>)
    ensures
        r == first_number(node.entries@),
{
    let es = &node.entries;
    let mut i: usize = 0;
    assert(es@.skip(0) =~= es@);
    while i < es.len()
        invariant
            es == &node.entries,
            0 <= i <= es.len(),
            first_number(es@.skip(i as int)) == first_number(es@),
        decreases es.len() - i,
    {
        proof {
            lemma_skip_next(es@, i as int);
        }
        if es[i].name.is_none() {
            match &es[i].value {
                ConfigValue::Int(v) => {
                    return Some(int_micros_of(*v));
                },
                ConfigValue::Float(t) => {
                    let cs = chars_of(t.as_str());
                    return parse_decimal_micros(cs.as_slice());
                },
                _ => {},
            }
        }
        i += 1;
    }
    None
}

/// The first boolean argument of `node`.
pub fn first_bool_arg(node: &ConfigNode) -> (r: Option<bool>)
    ensures
        r == first_bool(node.entries@),
{
    let es = &node.entries;
    let mut i: usize = 0;
    assert(es@.skip(0) =~= es@);
    while i < es.len()
        invariant
            es == &node.entries,
            0 <= i <= es.len(),
            first_bool(es@.skip(i as int)) == first_bool(es@),
        decreases es.len() - i,
    {
        proof {
            lemma_skip_next(es@, i as int);
        }
        if es[i].name.is_none() {
            if let ConfigValue::Bool(b) = &es[i].value {
                return Some(*b);
            }
        }
        i += 1;
    }
    None
}

} // verus!
