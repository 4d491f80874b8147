//! The YAML value tree and the bridge from the YAML parser.
//!
//! Configuration logic works on [`YamlValue`], a tree of plain values the
//! verifier can reason about.  The text is parsed by the yaml-rust crate;
//! its opaque `Yaml` values are taken apart one level at a time by a
//! trusted decomposition and rebuilt, bounded-depth, into the library's
//! own tree.

use vstd::prelude::*;

verus! {

/// A YAML document as a tree of plain values.  Hash entries keep their
/// insertion order; `Bad` stands for an absent or malformed node.
#[derive(Debug)]
pub enum YamlValue {
    Str(String),
    Int(i64),
    /// Floats stay as their literal text, as the YAML parser keeps them.
    Real(String),
    Bool(bool),
    Array(Vec<YamlValue>),
    Hash(Vec<(YamlValue, YamlValue)>),
    Null,
    Bad,
}

#[verifier::external_type_specification]
#[verifier::external_body]
pub struct ExYaml(yaml_rust::Yaml);

#[verifier::external_type_specification]
#[verifier::external_body]
pub struct ExScanError(yaml_rust::ScanError);

/// One level of a parsed YAML node, with opaque children.
pub enum YamlNode {
    Str(String),
    Int(i64),
    Real(String),
    Bool(bool),
    Arr(Vec<yaml_rust::Yaml>),
    Hash(Vec<(yaml_rust::Yaml, yaml_rust::Yaml)>),
    Alias(usize),
    Null,
    Bad,
}

/// Relies on yaml_rust's Yaml enum: one arm per variant, moving the
/// variant's fields out (the hash becomes its entry pairs, in insertion
/// order).
#[verifier::external_body]
fn yaml_decompose(y: yaml_rust::Yaml) -> (r: YamlNode) {
    match y {
        yaml_rust::Yaml::Real(s) => YamlNode::Real(s),
        yaml_rust::Yaml::Integer(i) => YamlNode::Int(i),
        yaml_rust::Yaml::String(s) => YamlNode::Str(s),
        yaml_rust::Yaml::Boolean(b) => YamlNode::Bool(b),
        yaml_rust::Yaml::Array(a) => YamlNode::Arr(a),
        yaml_rust::Yaml::Hash(h) => YamlNode::Hash(h.into_iter().collect()),
        yaml_rust::Yaml::Alias(u) => YamlNode::Alias(u),
        yaml_rust::Yaml::Null => YamlNode::Null,
        yaml_rust::Yaml::BadValue => YamlNode::Bad,
    }
}

/// Rebuild a parsed YAML node as the library's own tree, descending at
/// most `depth` levels (deeper nodes, and the unsupported aliases,
/// become `Bad`).
pub fn convert_yaml(y: yaml_rust::Yaml, depth: u64) -> (r: YamlValue)
    decreases depth,
{
    if depth == 0 {
        return YamlValue::Bad;
    }
    match yaml_decompose(y) {
        YamlNode::Str(s) => YamlValue::Str(s),
        YamlNode::Int(i) => YamlValue::Int(i),
        YamlNode::Real(s) => YamlValue::Real(s),
        YamlNode::Bool(b) => YamlValue::Bool(b),
        YamlNode::Arr(items) => {
            let mut items = items;
            let mut out: Vec<YamlValue> = Vec::new();
            while items.len() > 0
                invariant
                    depth >= 1,
                decreases items@.len(),
            {
                let it = items.remove(0);
                out.push(convert_yaml(it, depth - 1));
            }
            YamlValue::Array(out)
        },
        YamlNode::Hash(pairs) => {
            let mut pairs = pairs;
            let mut out: Vec<(YamlValue, YamlValue)> = Vec::new();
            while pairs.len() > 0
                invariant
                    depth >= 1,
                decreases pairs@.len(),
            {
                let (k, v) = pairs.remove(0);
                out.push((convert_yaml(k, depth - 1), convert_yaml(v, depth - 1)));
            }
            YamlValue::Hash(out)
        },
        YamlNode::Alias(_) => YamlValue::Bad,
        YamlNode::Null => YamlValue::Null,
        YamlNode::Bad => YamlValue::Bad,
    }
}

/// Depth bound for configuration documents; their nesting is shallow.
pub const YAML_MAX_DEPTH: u64 = 64;

/// What YAML text parses to, as the library's value trees: one tree per
/// document, or nothing when the text is not valid YAML.
pub uninterp spec fn yaml_docs_of(text: Seq<char>) -> Option<Seq<YamlValue>>;

/// Relies on yaml_rust::YamlLoader::load_from_str: what a text parses to
/// is a function of the text alone.  The parsed documents, rebuilt as
/// the library's trees by `convert_yaml`, carry the name `yaml_docs_of`;
/// a scan error leaves the name `None` and is reported as an invalid
/// syntax error.
#[verifier::external_body]
pub fn parse_yaml_documents(text: &str) -> (r: Result<
    Vec<YamlValue>,
    crate::config::ConfigError,
>)
    ensures
        (r is Ok) <==> (yaml_docs_of(text@) is Some),
        r matches Ok(docs) ==> Some(docs@) == yaml_docs_of(text@),
{
    match yaml_rust::YamlLoader::load_from_str(text) {
        Ok(docs) => Ok(
            docs.into_iter().map(|d| convert_yaml(d, YAML_MAX_DEPTH)).collect(),
        ),
        Err(e) => Err(crate::config::ConfigError::InvalidSyntax(format!("{}", e))),
    }
}

} // verus!
