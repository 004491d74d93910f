//! YAML documents as plain values, and the scalars that recipes read from them.

use vstd::prelude::*;
use serde_yaml::Value;

verus! {

/// A YAML value as `serde_yaml` parses it.
#[verifier::external_type_specification]
#[verifier::external_body]
pub struct ExYamlValue(serde_yaml::Value);

/// A YAML value: a node of a parsed document.
#[derive(Debug, PartialEq)]
pub enum Yaml {
    Null,
    Bool(bool),
    /// A number, as `serde_yaml` writes it: the digits of an integer, or a float.
    Number(String),
    Str(String),
    Sequence(Vec<Yaml>),
    /// The entries of a mapping, in document order; no key occurs twice.
    Mapping(Vec<(Yaml, Yaml)>),
}

/// One level of a parsed YAML value: scalars as plain values, children still parsed.
pub enum Node {
    Null,
    Bool(bool),
    Number(String),
    Str(String),
    Sequence(Vec<Value>),
    Mapping(Vec<(Value, Value)>),
    Tagged(Value),
}

/// What the library reads from a parsed YAML value: its scalars as text (a number by its
/// `Display` text), its children in order, and where it carries a tag.
pub enum ValueView {
    Null,
    Bool(bool),
    Number(Seq<char>),
    Str(Seq<char>),
    Sequence(Seq<ValueView>),
    Mapping(Seq<(ValueView, ValueView)>),
    Tagged(Box<ValueView>),
}

/// What a `serde_yaml::Value` holds, read as a [`ValueView`].
pub uninterp spec fn yaml_value(v: Value) -> ValueView;

/// What `serde_yaml::from_str::<Value>` makes of a text: the value it parses, or the
/// message of its error.
pub uninterp spec fn yaml_text(text: Seq<char>) -> Result<ValueView, Seq<char>>;

/// What `serde_yaml::from_slice::<Value>` makes of a run of bytes: the value it parses,
/// or the message of its error.
pub uninterp spec fn yaml_bytes(bytes: Seq<u8>) -> Result<ValueView, Seq<char>>;

/// Parses a YAML document with `serde_yaml::from_str::<Value>`; on failure, the text of
/// the `serde_yaml` error. Claimed: the outcome depends on the text alone.
#[verifier::external_body]
fn parse_document(text: &str) -> (r: Result<Value, String>)
    ensures
        match r {
            Ok(v) => yaml_text(text@) == Ok::<ValueView, Seq<char>>(yaml_value(v)),
            Err(m) => yaml_text(text@) == Err::<ValueView, Seq<char>>(m@),
        },
{
    match serde_yaml::from_str::<Value>(text) {
        Ok(v) => Ok(v),
        Err(e) => Err(e.to_string()),
    }
}

/// Parses a YAML document with `serde_yaml::from_slice::<Value>`; on failure, the text of
/// the `serde_yaml` error. Claimed: the outcome depends on the bytes alone.
#[verifier::external_body]
fn parse_document_bytes(bytes: &[u8]) -> (r: Result<Value, String>)
    ensures
        match r {
            Ok(v) => yaml_bytes(bytes@) == Ok::<ValueView, Seq<char>>(yaml_value(v)),
            Err(m) => yaml_bytes(bytes@) == Err::<ValueView, Seq<char>>(m@),
        },
{
    match serde_yaml::from_slice::<Value>(bytes) {
        Ok(v) => Ok(v),
        Err(e) => Err(e.to_string()),
    }
}

/// Takes a `serde_yaml::Value` apart one level: the variant, with its scalar as a plain
/// value (a number by its `Display` text) and its children, mapping entries in order.
/// Claimed: the parts are those of the value as [`yaml_value`] reads it.
#[verifier::external_body]
fn node(v: Value) -> (r: Node)
    ensures
        match r {
            Node::Null => yaml_value(v) == ValueView::Null,
            Node::Bool(b) => yaml_value(v) == ValueView::Bool(b),
            Node::Number(n) => yaml_value(v) == ValueView::Number(n@),
            Node::Str(t) => yaml_value(v) == ValueView::Str(t@),
            Node::Sequence(items) => yaml_value(v) == ValueView::Sequence(
                items@.map_values(|x: Value| yaml_value(x)),
            ),
            Node::Mapping(es) => yaml_value(v) == ValueView::Mapping(
                es@.map_values(|e: (Value, Value)| (yaml_value(e.0), yaml_value(e.1))),
            ),
            Node::Tagged(inner) => yaml_value(v) == ValueView::Tagged(Box::new(yaml_value(inner))),
        },
{
    match v {
        Value::Null => Node::Null,
        Value::Bool(b) => Node::Bool(b),
        Value::Number(n) => Node::Number(n.to_string()),
        Value::String(s) => Node::Str(s),
        Value::Sequence(items) => Node::Sequence(items),
        Value::Mapping(m) => Node::Mapping(m.into_iter().collect()),
        Value::Tagged(t) => Node::Tagged(t.value),
    }
}

/// The deepest nesting of a document that is converted; `serde_yaml` refuses to parse
/// deeper documents.
pub const MAX_NESTING: usize = 128;

/// Whether a value nests no deeper than `d`: each sequence, mapping or tag takes one
/// level, scalars none.
pub open spec fn value_within(t: ValueView, d: nat) -> bool
    decreases d,
{
    match t {
        ValueView::Sequence(items) => d > 0 && forall|i: int|
            0 <= i < items.len() ==> value_within(#[trigger] items[i], (d - 1) as nat),
        ValueView::Mapping(es) => d > 0 && forall|i: int|
            0 <= i < es.len() ==> value_within(#[trigger] es[i].0, (d - 1) as nat) && value_within(
                es[i].1,
                (d - 1) as nat,
            ),
        ValueView::Tagged(b) => d > 0 && value_within(*b, (d - 1) as nat),
        _ => true,
    }
}

/// Whether a [`Yaml`] tree is the value `t` with its tags left out.
pub open spec fn denotes(y: Yaml, t: ValueView) -> bool
    decreases t,
{
    match t {
        ValueView::Tagged(b) => denotes(y, *b),
        ValueView::Null => y is Null,
        ValueView::Bool(b) => y == Yaml::Bool(b),
        ValueView::Number(n) => y matches Yaml::Number(s) && s@ == n,
        ValueView::Str(n) => y matches Yaml::Str(s) && s@ == n,
        ValueView::Sequence(ts) => y matches Yaml::Sequence(ys) && ys@.len() == ts.len() && forall|i: int|
            0 <= i < ts.len() ==> denotes(ys@[i], #[trigger] ts[i]),
        ValueView::Mapping(ts) => y matches Yaml::Mapping(es) && es@.len() == ts.len() && forall|i: int|
            0 <= i < ts.len() ==> denotes(es@[i].0, #[trigger] ts[i].0) && denotes(es@[i].1, ts[i].1),
    }
}

/// A sequence or mapping with a child deeper than one level less does not nest within `d`.
proof fn lemma_not_within(t: ValueView, d: nat, c: ValueView)
    requires
        d > 0,
        !value_within(c, (d - 1) as nat),
        (t matches ValueView::Sequence(ts) && exists|k: int| 0 <= k < ts.len() && ts[k] == c) || (
        t matches ValueView::Mapping(es) && exists|k: int|
            0 <= k < es.len() && (es[k].0 == c || es[k].1 == c)),
    ensures
        !value_within(t, d),
{
    match t {
        ValueView::Sequence(ts) => {
            let k = choose|k: int| 0 <= k < ts.len() && ts[k] == c;
            assert(!value_within(ts[k], (d - 1) as nat));
        },
        ValueView::Mapping(es) => {
            let k = choose|k: int| 0 <= k < es.len() && (es[k].0 == c || es[k].1 == c);
            assert(!(value_within(es[k].0, (d - 1) as nat) && value_within(es[k].1, (d - 1) as nat)));
        },
        _ => {},
    }
}

/// Converts a parsed value into a [`Yaml`] tree, leaving out its tags: the tree when the
/// value nests within `depth`, else `None`.
fn yaml_of(v: Value, depth: usize) -> (r: Option<Yaml>)
    ensures
        match r {
            Some(y) => value_within(yaml_value(v), depth as nat) && denotes(y, yaml_value(v)),
            None => !value_within(yaml_value(v), depth as nat),
        },
    decreases depth,
{
    let ghost t = yaml_value(v);
    match node(v) {
        Node::Null => Some(Yaml::Null),
        Node::Bool(b) => Some(Yaml::Bool(b)),
        Node::Number(n) => Some(Yaml::Number(n)),
        Node::Str(s) => Some(Yaml::Str(s)),
        Node::Tagged(inner) => {
            if depth == 0 {
                return None;
            }
            yaml_of(inner, depth - 1)
        },
        Node::Sequence(items) => {
            if depth == 0 {
                return None;
            }
            let ghost all = items@;
            let ghost ts = all.map_values(|x: Value| yaml_value(x));
            let mut items = items;
            let mut out: Vec<Yaml> = Vec::new();
            while items.len() > 0
                invariant
                    depth > 0,
                    t == yaml_value(v),
                    t == ValueView::Sequence(ts),
                    ts == all.map_values(|x: Value| yaml_value(x)),
                    out@.len() + items@.len() == all.len(),
                    items@ == all.subrange(out@.len() as int, all.len() as int),
                    forall|i: int| 0 <= i < out@.len() ==> value_within(#[trigger] ts[i], (depth - 1) as nat)
                        && denotes(out@[i], ts[i]),
                decreases items.len(),
            {
                let ghost k = out@.len() as int;
                let item = items.remove(0);
                assert(item == all[k]);
                match yaml_of(item, depth - 1) {
                    Some(y) => out.push(y),
                    None => {
                        assert(0 <= k < ts.len());
                        assert(ts[k] == yaml_value(item));
                        proof { lemma_not_within(t, depth as nat, ts[k]); }
                        return None;
                    },
                }
                assert(items@ =~= all.subrange(out@.len() as int, all.len() as int));
            }
            assert(out@.len() == ts.len());
            Some(Yaml::Sequence(out))
        },
        Node::Mapping(entries) => {
            if depth == 0 {
                return None;
            }
            let ghost all = entries@;
            let ghost ts = all.map_values(|e: (Value, Value)| (yaml_value(e.0), yaml_value(e.1)));
            let mut entries = entries;
            let mut out: Vec<(Yaml, Yaml)> = Vec::new();
            while entries.len() > 0
                invariant
                    depth > 0,
                    t == yaml_value(v),
                    t == ValueView::Mapping(ts),
                    ts == all.map_values(|e: (Value, Value)| (yaml_value(e.0), yaml_value(e.1))),
                    out@.len() + entries@.len() == all.len(),
                    entries@ == all.subrange(out@.len() as int, all.len() as int),
                    forall|i: int| 0 <= i < out@.len() ==> value_within(#[trigger] ts[i].0, (depth - 1) as nat)
                        && value_within(ts[i].1, (depth - 1) as nat) && denotes(out@[i].0, ts[i].0)
                        && denotes(out@[i].1, ts[i].1),
                decreases entries.len(),
            {
                let ghost j = out@.len() as int;
                let (k, v) = entries.remove(0);
                assert((k, v) == all[j]);
                let k = match yaml_of(k, depth - 1) {
                    Some(y) => y,
                    None => {
                        assert(ts[j].0 == yaml_value(all[j].0));
                        proof { lemma_not_within(t, depth as nat, ts[j].0); }
                        return None;
                    },
                };
                let v = match yaml_of(v, depth - 1) {
                    Some(y) => y,
                    None => {
                        assert(ts[j].1 == yaml_value(all[j].1));
                        proof { lemma_not_within(t, depth as nat, ts[j].1); }
                        return None;
                    },
                };
                out.push((k, v));
                assert(entries@ =~= all.subrange(out@.len() as int, all.len() as int));
            }
            assert(out@.len() == ts.len());
            Some(Yaml::Mapping(out))
        },
    }
}

/// Why a document could not be read as YAML.
pub enum DocumentError {
    /// The text is not YAML; the parser's message.
    Syntax(String),
    /// The document nests deeper than [`MAX_NESTING`].
    TooDeep,
}

/// What reading a document gives, when the parser made `parsed` of it.
pub open spec fn document_outcome(parsed: Result<ValueView, Seq<char>>, r: Result<Yaml, DocumentError>) -> bool {
    match parsed {
        Err(m) => r matches Err(DocumentError::Syntax(s)) && s@ == m,
        Ok(t) => if value_within(t, MAX_NESTING as nat) {
            r matches Ok(y) && denotes(y, t)
        } else {
            r matches Err(DocumentError::TooDeep)
        },
    }
}

/// Parses a YAML document into a [`Yaml`] tree: the parser's value with its tags left
/// out, `TooDeep` where it nests deeper than [`MAX_NESTING`], or the parser's message.
pub(crate) fn document(text: &str) -> (r: Result<Yaml, DocumentError>)
    ensures
        document_outcome(yaml_text(text@), r),
{
    match parse_document(text) {
        Ok(v) => match yaml_of(v, MAX_NESTING) {
            Some(y) => Ok(y),
            None => Err(DocumentError::TooDeep),
        },
        Err(e) => Err(DocumentError::Syntax(e)),
    }
}

/// Parses a YAML document, given as bytes, into a [`Yaml`] tree: the parser's value with
/// its tags left out, `TooDeep` where it nests deeper than [`MAX_NESTING`], or the
/// parser's message.
pub(crate) fn document_bytes(bytes: &[u8]) -> (r: Result<Yaml, DocumentError>)
    ensures
        document_outcome(yaml_bytes(bytes@), r),
{
    match parse_document_bytes(bytes) {
        Ok(v) => match yaml_of(v, MAX_NESTING) {
            Some(y) => Ok(y),
            None => Err(DocumentError::TooDeep),
        },
        Err(e) => Err(DocumentError::Syntax(e)),
    }
}

/// Whether `t` is a non-empty run of decimal digits: the text of a non-negative integer.
pub open spec fn is_digits(t: Seq<char>) -> bool {
    t.len() > 0 && forall|i: int| 0 <= i < t.len() ==> '0' <= #[trigger] t[i] <= '9'
}

/// The value of a run of decimal digits.
pub open spec fn decimal(t: Seq<char>) -> nat
    decreases t.len(),
{
    if t.len() == 0 {
        0
    } else {
        (decimal(t.drop_last()) * 10 + (t.last() as int - '0' as int)) as nat
    }
}

/// The non-negative integer that a number's text stands for, when it fits in `limit`.
pub open spec fn spec_unsigned(t: Seq<char>, limit: nat) -> Option<nat> {
    if is_digits(t) && decimal(t) <= limit {
        Some(decimal(t))
    } else {
        None
    }
}

/// Reads the text of a number as a non-negative integer no greater than `limit`.
pub fn unsigned(t: &str, limit: u64) -> (r: Option<u64>)
    ensures
        match spec_unsigned(t@, limit as nat) {
            Some(v) => r == Some(v as u64),
            None => r is None,
        },
{
    let cs = crate::text::chars_of(t);
    if cs.len() == 0 {
        return None;
    }
    let mut v: u64 = 0;
    let mut i: usize = 0;
    while i < cs.len()
        invariant
            i <= cs@.len(),
            cs@ == t@,
            cs@.len() > 0,
            is_digits(cs@.take(i as int)) || i == 0,
            v == decimal(cs@.take(i as int)),
            v <= limit,
        decreases cs@.len() - i,
    {
        let c = cs[i];
        if !('0' <= c && c <= '9') {
            assert(!is_digits(t@)) by {
                assert(t@[i as int] == c);
            }
            return None;
        }
        let d: u64 = ((c as u32) - ('0' as u32)) as u64;
        assert(cs@.take(i + 1).drop_last() =~= cs@.take(i as int));
        let next = match v.checked_mul(10) {
            Some(x) => match x.checked_add(d) {
                Some(y) => y,
                None => {
                    proof {
                        if is_digits(cs@) {
                            lemma_decimal_prefix_le(cs@, i + 1);
                        }
                    }
                    return None;
                },
            },
            None => {
                proof {
                    if is_digits(cs@) {
                        lemma_decimal_prefix_le(cs@, i + 1);
                    }
                }
                return None;
            },
        };
        if next > limit {
            proof {
                if is_digits(cs@) {
                    lemma_decimal_prefix_le(cs@, i + 1);
                }
            }
            return None;
        }
        v = next;
        i += 1;
        assert(is_digits(cs@.take(i as int))) by {
            assert forall|k: int| 0 <= k < i implies '0' <= #[trigger] cs@.take(i as int)[k] <= '9' by {
                if k < i - 1 {
                    assert(cs@.take(i as int)[k] == cs@.take(i - 1)[k]);
                }
            }
        }
    }
    assert(cs@.take(i as int) =~= cs@);
    Some(v)
}

/// A run of digits is worth at least any of its prefixes.
proof fn lemma_decimal_prefix_le(t: Seq<char>, n: int)
    requires
        is_digits(t),
        0 <= n <= t.len(),
    ensures
        decimal(t.take(n)) <= decimal(t),
    decreases t.len() - n,
{
    if n < t.len() {
        lemma_decimal_prefix_le(t, n + 1);
        assert(t.take(n + 1).drop_last() =~= t.take(n));
        assert('0' <= t[n]);
    } else {
        assert(t.take(n) =~= t);
    }
}

} // verus!
