//! Reading the fields of a recipe out of YAML mappings.

use vstd::prelude::*;
use crate::stone_recipe::yaml::{denotes, spec_unsigned, unsigned, value_within, ValueView, Yaml, MAX_NESTING};
use crate::text::str_eq;

verus! {

/// Why a recipe could not be read.
#[derive(Debug, Clone, PartialEq, Eq)]
pub enum Error {
    /// The text is not a YAML document; the parser's message.
    Syntax(String),
    /// The document nests deeper than the parser allows.
    TooDeep,
    /// A field that must be present is missing.
    MissingField(String),
    /// The value of a field does not have the type that the field needs.
    InvalidType(String),
    /// The value of a boolean field is text that is no spelling of a boolean.
    InvalidBoolean(String),
    /// The kind of a package path is none of the known kinds.
    InvalidPathKind(String),
    /// A package path mapping has no entry.
    MissingPathEntry,
    /// The URI of an upstream is not a valid URL; the URL parser's message.
    InvalidUri(String),
    /// A git upstream names something other than a full commit hash.
    GitRefNotCommit(String),
    /// A git payload for an upstream whose URI has no `git|` prefix.
    GitPayloadWithoutGitUri,
    /// A plain payload for an upstream whose URI has the `git|` prefix.
    GitUriWithPlainPayload,
    /// An upstream mapping has no entry.
    MissingUpstreamEntry,
    /// The payload of an upstream is neither a hash, a ref, nor the fields of one.
    UnmatchedUpstream,
}

/// The mathematical value of an [`Error`].
pub enum ErrorView {
    Syntax(Seq<char>),
    TooDeep,
    MissingField(Seq<char>),
    InvalidType(Seq<char>),
    InvalidBoolean(Seq<char>),
    InvalidPathKind(Seq<char>),
    MissingPathEntry,
    InvalidUri(Seq<char>),
    GitRefNotCommit(Seq<char>),
    GitPayloadWithoutGitUri,
    GitUriWithPlainPayload,
    MissingUpstreamEntry,
    UnmatchedUpstream,
}

impl View for Error {
    type V = ErrorView;

    open spec fn view(&self) -> ErrorView {
        match self {
            Error::Syntax(m) => ErrorView::Syntax(m@),
            Error::TooDeep => ErrorView::TooDeep,
            Error::MissingField(f) => ErrorView::MissingField(f@),
            Error::InvalidType(f) => ErrorView::InvalidType(f@),
            Error::InvalidBoolean(f) => ErrorView::InvalidBoolean(f@),
            Error::InvalidPathKind(k) => ErrorView::InvalidPathKind(k@),
            Error::MissingPathEntry => ErrorView::MissingPathEntry,
            Error::InvalidUri(m) => ErrorView::InvalidUri(m@),
            Error::GitRefNotCommit(r) => ErrorView::GitRefNotCommit(r@),
            Error::GitPayloadWithoutGitUri => ErrorView::GitPayloadWithoutGitUri,
            Error::GitUriWithPlainPayload => ErrorView::GitUriWithPlainPayload,
            Error::MissingUpstreamEntry => ErrorView::MissingUpstreamEntry,
            Error::UnmatchedUpstream => ErrorView::UnmatchedUpstream,
        }
    }
}

/// The message of an error.
pub open spec fn message(e: ErrorView) -> Seq<char> {
    match e {
        ErrorView::Syntax(t) => t,
        ErrorView::TooDeep => "recursion limit exceeded"@,
        ErrorView::MissingField(f) => "missing field `"@ + f + "`"@,
        ErrorView::InvalidType(f) => "invalid type for `"@ + f + "`"@,
        ErrorView::InvalidBoolean(f) => f + ": invalid boolean: expected true or false"@,
        ErrorView::InvalidPathKind(k) => "invalid path kind: "@ + k,
        ErrorView::MissingPathEntry => "missing path entry"@,
        ErrorView::InvalidUri(t) => "invalid uri: "@ + t,
        ErrorView::GitRefNotCommit(r) => "Using git tags or branches in upstreams is disallowed for reproducibility. Please use the full 40-character commit SHA instead of '"@
            + r + "'."@,
        ErrorView::GitPayloadWithoutGitUri => "found git payload but missing 'git|' prefixed URI"@,
        ErrorView::GitUriWithPlainPayload => "found git URI but plain payload fields"@,
        ErrorView::MissingUpstreamEntry => "missing upstream entry"@,
        ErrorView::UnmatchedUpstream => "data did not match any variant of untagged enum Outer"@,
    }
}

impl Error {
    /// The message of this error.
    pub fn to_string(&self) -> (m: String)
        ensures
            m@ == message(self@),
    {
        let mut m = String::new();
        match self {
            Error::Syntax(t) => m.push_str(t.as_str()),
            Error::TooDeep => m.push_str("recursion limit exceeded"),
            Error::MissingField(f) => {
                m.push_str("missing field `");
                m.push_str(f.as_str());
                m.push_str("`");
            },
            Error::InvalidType(f) => {
                m.push_str("invalid type for `");
                m.push_str(f.as_str());
                m.push_str("`");
            },
            Error::InvalidBoolean(f) => {
                m.push_str(f.as_str());
                m.push_str(": invalid boolean: expected true or false");
            },
            Error::InvalidPathKind(k) => {
                m.push_str("invalid path kind: ");
                m.push_str(k.as_str());
            },
            Error::MissingPathEntry => m.push_str("missing path entry"),
            Error::InvalidUri(t) => {
                m.push_str("invalid uri: ");
                m.push_str(t.as_str());
            },
            Error::GitRefNotCommit(r) => {
                m.push_str(
                    "Using git tags or branches in upstreams is disallowed for reproducibility. Please use the full 40-character commit SHA instead of '",
                );
                m.push_str(r.as_str());
                m.push_str("'.");
            },
            Error::GitPayloadWithoutGitUri => m.push_str(
                "found git payload but missing 'git|' prefixed URI",
            ),
            Error::GitUriWithPlainPayload => m.push_str("found git URI but plain payload fields"),
            Error::MissingUpstreamEntry => m.push_str("missing upstream entry"),
            Error::UnmatchedUpstream => m.push_str(
                "data did not match any variant of untagged enum Outer",
            ),
        }
        assert(m@ =~= message(self@));
        m
    }
}

/// Whether an outcome agrees with its mathematical value.
pub open spec fn agrees<T: DeepView>(r: Result<T, Error>, s: Result<T::V, ErrorView>) -> bool {
    match r {
        Ok(v) => s == Ok::<T::V, ErrorView>(v.deep_view()),
        Err(e) => s == Err::<T::V, ErrorView>(e@),
    }
}

/// What reading a YAML document gives, when the parser made `parsed` of it and `f`
/// reads the tree: the parser's message, `TooDeep` where the value nests deeper than
/// [`MAX_NESTING`], or what `f` reads from the value with its tags left out.
pub open spec fn read_outcome<T: DeepView>(
    parsed: Result<ValueView, Seq<char>>,
    r: Result<T, Error>,
    f: spec_fn(Yaml) -> Result<T::V, ErrorView>,
) -> bool {
    match parsed {
        Err(m) => r matches Err(Error::Syntax(e)) && e@ == m,
        Ok(t) => if value_within(t, MAX_NESTING as nat) {
            exists|doc: Yaml| denotes(doc, t) && agrees(r, #[trigger] f(doc))
        } else {
            r matches Err(Error::TooDeep)
        },
    }
}

/// The value of the first entry of a mapping whose key is the text `key`.
pub open spec fn lookup(es: Seq<(Yaml, Yaml)>, key: Seq<char>) -> Option<Yaml>
    decreases es.len(),
{
    if es.len() == 0 {
        None
    } else if (es[0].0 matches Yaml::Str(k) && k@ == key) {
        Some(es[0].1)
    } else {
        lookup(es.drop_first(), key)
    }
}

/// The value of the field `key` of a mapping.
pub fn field<'a>(es: &'a Vec<(Yaml, Yaml)>, key: &str) -> (r: Option<&'a Yaml>)
    ensures
        match r {
            Some(y) => lookup(es@, key@) == Some(*y),
            None => lookup(es@, key@) is None,
        },
{
    let mut i: usize = 0;
    assert(es@.skip(0) =~= es@);
    while i < es.len()
        invariant
            i <= es@.len(),
            lookup(es@, key@) == lookup(es@.skip(i as int), key@),
        decreases es@.len() - i,
    {
        assert(es@.skip(i as int)[0] == es@[i as int]);
        assert(es@.skip(i as int).drop_first() =~= es@.skip(i + 1));
        match &es[i].0 {
            Yaml::Str(k) => {
                if str_eq(k.as_str(), key) {
                    return Some(&es[i].1);
                }
            },
            _ => {},
        }
        i += 1;
    }
    assert(es@.skip(i as int) =~= Seq::<(Yaml, Yaml)>::empty());
    None
}

/// Text, for the field `ctx`.
pub open spec fn d_text(y: Yaml, ctx: Seq<char>) -> Result<Seq<char>, ErrorView> {
    match y {
        Yaml::Str(s) => Ok(s@),
        _ => Err(ErrorView::InvalidType(ctx)),
    }
}

/// Reads text, for the field `ctx`.
pub fn text(y: &Yaml, ctx: &str) -> (r: Result<String, Error>)
    ensures
        agrees(r, d_text(*y, ctx@)),
{
    match y {
        Yaml::Str(s) => Ok(s.clone()),
        _ => Err(Error::InvalidType(ctx.to_owned())),
    }
}

/// The text field `key`, which must be present.
pub open spec fn d_req_text(es: Seq<(Yaml, Yaml)>, key: Seq<char>) -> Result<Seq<char>, ErrorView> {
    match lookup(es, key) {
        None => Err(ErrorView::MissingField(key)),
        Some(y) => d_text(y, key),
    }
}

/// Reads the text field `key`, which must be present.
pub fn req_text(es: &Vec<(Yaml, Yaml)>, key: &str) -> (r: Result<String, Error>)
    ensures
        agrees(r, d_req_text(es@, key@)),
{
    match field(es, key) {
        None => Err(Error::MissingField(key.to_owned())),
        Some(y) => text(y, key),
    }
}

/// The optional text field `key`: absent or null, it has no value.
pub open spec fn d_opt_text(es: Seq<(Yaml, Yaml)>, key: Seq<char>) -> Result<
    Option<Seq<char>>,
    ErrorView,
> {
    match lookup(es, key) {
        None => Ok(None),
        Some(Yaml::Null) => Ok(None),
        Some(Yaml::Str(s)) => Ok(Some(s@)),
        Some(_) => Err(ErrorView::InvalidType(key)),
    }
}

/// Reads the optional text field `key`.
pub fn opt_text(es: &Vec<(Yaml, Yaml)>, key: &str) -> (r: Result<Option<String>, Error>)
    ensures
        agrees(r, d_opt_text(es@, key@)),
{
    match field(es, key) {
        None => Ok(None),
        Some(Yaml::Null) => Ok(None),
        Some(Yaml::Str(s)) => Ok(Some(s.clone())),
        Some(_) => Err(Error::InvalidType(key.to_owned())),
    }
}

/// The text of a YAML text value; empty for any other value.
pub open spec fn str_of(y: Yaml) -> Seq<char> {
    match y {
        Yaml::Str(s) => s@,
        _ => Seq::empty(),
    }
}

/// Items that must all be text, for the field `ctx`.
pub open spec fn d_text_items(items: Seq<Yaml>, ctx: Seq<char>) -> Result<Seq<Seq<char>>, ErrorView> {
    if forall|i: int| 0 <= i < items.len() ==> #[trigger] items[i] is Str {
        Ok(items.map_values(|y: Yaml| str_of(y)))
    } else {
        Err(ErrorView::InvalidType(ctx))
    }
}

/// Reads items that must all be text, for the field `ctx`.
pub fn text_items(items: &Vec<Yaml>, ctx: &str) -> (r: Result<Vec<String>, Error>)
    ensures
        agrees(r, d_text_items(items@, ctx@)),
{
    let mut out: Vec<String> = Vec::new();
    let mut i: usize = 0;
    while i < items.len()
        invariant
            i <= items@.len(),
            forall|k: int| 0 <= k < i ==> #[trigger] items@[k] is Str,
            out.deep_view() == items@.take(i as int).map_values(|y: Yaml| str_of(y)),
        decreases items@.len() - i,
    {
        match &items[i] {
            Yaml::Str(s) => {
                let ghost before = out.deep_view();
                out.push(s.clone());
                assert(out.deep_view() =~= before.push(s@));
                assert(items@.take(i + 1).map_values(|y: Yaml| str_of(y)) =~= items@.take(
                    i as int,
                ).map_values(|y: Yaml| str_of(y)).push(str_of(items@[i as int])));
            },
            _ => {
                return Err(Error::InvalidType(ctx.to_owned()));
            },
        }
        i += 1;
    }
    assert(items@.take(i as int) =~= items@);
    Ok(out)
}

/// The list-of-text field `key`: empty when absent.
pub open spec fn d_list_text(es: Seq<(Yaml, Yaml)>, key: Seq<char>) -> Result<Seq<Seq<char>>, ErrorView> {
    match lookup(es, key) {
        None => Ok(Seq::empty()),
        Some(Yaml::Sequence(items)) => d_text_items(items@, key),
        Some(_) => Err(ErrorView::InvalidType(key)),
    }
}

/// Reads the list-of-text field `key`.
pub fn list_text(es: &Vec<(Yaml, Yaml)>, key: &str) -> (r: Result<Vec<String>, Error>)
    ensures
        agrees(r, d_list_text(es@, key@)),
{
    match field(es, key) {
        None => {
            let v: Vec<String> = Vec::new();
            assert(v.deep_view() =~= Seq::<Seq<char>>::empty());
            Ok(v)
        },
        Some(Yaml::Sequence(items)) => text_items(items, key),
        Some(_) => Err(Error::InvalidType(key.to_owned())),
    }
}

/// The field `key` as text; a number counts by its text.
pub open spec fn d_force_text(es: Seq<(Yaml, Yaml)>, key: Seq<char>) -> Result<Seq<char>, ErrorView> {
    match lookup(es, key) {
        None => Err(ErrorView::MissingField(key)),
        Some(Yaml::Str(s)) => Ok(s@),
        Some(Yaml::Number(n)) => Ok(n@),
        Some(_) => Err(ErrorView::InvalidType(key)),
    }
}

/// Reads the field `key` as text; a number counts by its text.
pub fn force_text(es: &Vec<(Yaml, Yaml)>, key: &str) -> (r: Result<String, Error>)
    ensures
        agrees(r, d_force_text(es@, key@)),
{
    match field(es, key) {
        None => Err(Error::MissingField(key.to_owned())),
        Some(Yaml::Str(s)) => Ok(s.clone()),
        Some(Yaml::Number(n)) => Ok(n.clone()),
        Some(_) => Err(Error::InvalidType(key.to_owned())),
    }
}

/// The field `key` as a non-negative integer below 2^64; it must be present.
pub open spec fn d_unsigned_field(es: Seq<(Yaml, Yaml)>, key: Seq<char>) -> Result<u64, ErrorView> {
    match lookup(es, key) {
        None => Err(ErrorView::MissingField(key)),
        Some(Yaml::Number(n)) => match spec_unsigned(n@, u64::MAX as nat) {
            Some(v) => Ok(v as u64),
            None => Err(ErrorView::InvalidType(key)),
        },
        Some(_) => Err(ErrorView::InvalidType(key)),
    }
}

/// Reads the field `key` as a non-negative integer below 2^64.
pub fn unsigned_field(es: &Vec<(Yaml, Yaml)>, key: &str) -> (r: Result<u64, Error>)
    ensures
        agrees(r, d_unsigned_field(es@, key@)),
{
    match field(es, key) {
        None => Err(Error::MissingField(key.to_owned())),
        Some(Yaml::Number(n)) => match unsigned(n.as_str(), u64::MAX) {
            Some(v) => Ok(v),
            None => Err(Error::InvalidType(key.to_owned())),
        },
        Some(_) => Err(Error::InvalidType(key.to_owned())),
    }
}

/// The optional field `key` as an integer from 0 to 255: absent or null, it has no
/// value.
pub open spec fn d_opt_byte(es: Seq<(Yaml, Yaml)>, key: Seq<char>) -> Result<Option<u8>, ErrorView> {
    match lookup(es, key) {
        None => Ok(None),
        Some(Yaml::Null) => Ok(None),
        Some(Yaml::Number(n)) => match spec_unsigned(n@, 255) {
            Some(v) => Ok(Some(v as u8)),
            None => Err(ErrorView::InvalidType(key)),
        },
        Some(_) => Err(ErrorView::InvalidType(key)),
    }
}

/// Reads the optional field `key` as an integer from 0 to 255.
pub fn opt_byte(es: &Vec<(Yaml, Yaml)>, key: &str) -> (r: Result<Option<u8>, Error>)
    ensures
        agrees(r, d_opt_byte(es@, key@)),
{
    match field(es, key) {
        None => Ok(None),
        Some(Yaml::Null) => Ok(None),
        Some(Yaml::Number(n)) => match unsigned(n.as_str(), 255) {
            Some(v) => Ok(Some(v as u8)),
            None => Err(Error::InvalidType(key.to_owned())),
        },
        Some(_) => Err(Error::InvalidType(key.to_owned())),
    }
}

/// The field `key` as one text or a list of them; it must be present.
pub open spec fn d_single_or_list(es: Seq<(Yaml, Yaml)>, key: Seq<char>) -> Result<
    Seq<Seq<char>>,
    ErrorView,
> {
    match lookup(es, key) {
        None => Err(ErrorView::MissingField(key)),
        Some(Yaml::Str(s)) => Ok(seq![s@]),
        Some(Yaml::Sequence(items)) => d_text_items(items@, key),
        Some(_) => Err(ErrorView::InvalidType(key)),
    }
}

/// Reads the field `key` as one text or a list of them.
pub fn single_or_list(es: &Vec<(Yaml, Yaml)>, key: &str) -> (r: Result<Vec<String>, Error>)
    ensures
        agrees(r, d_single_or_list(es@, key@)),
{
    match field(es, key) {
        None => Err(Error::MissingField(key.to_owned())),
        Some(Yaml::Str(s)) => {
            let v = vec![s.clone()];
            assert(v.deep_view() =~= seq![s@]);
            Ok(v)
        },
        Some(Yaml::Sequence(items)) => text_items(items, key),
        Some(_) => Err(Error::InvalidType(key.to_owned())),
    }
}

/// The spellings of true that YAML documents use.
pub open spec fn truthy(s: Seq<char>) -> bool {
    s == "y"@ || s == "Y"@ || s == "yes"@ || s == "Yes"@ || s == "YES"@ || s == "true"@ || s
        == "True"@ || s == "TRUE"@ || s == "on"@ || s == "On"@ || s == "ON"@
}

/// The spellings of false that YAML documents use.
pub open spec fn falsy(s: Seq<char>) -> bool {
    s == "n"@ || s == "N"@ || s == "no"@ || s == "No"@ || s == "NO"@ || s == "false"@ || s
        == "False"@ || s == "FALSE"@ || s == "off"@ || s == "Off"@ || s == "OFF"@
}

/// A boolean, given as a boolean or as one of its spellings, for the field `ctx`.
pub open spec fn d_stringy(y: Yaml, ctx: Seq<char>) -> Result<bool, ErrorView> {
    match y {
        Yaml::Bool(b) => Ok(b),
        Yaml::Str(s) => if truthy(s@) {
            Ok(true)
        } else if falsy(s@) {
            Ok(false)
        } else {
            Err(ErrorView::InvalidBoolean(ctx))
        },
        _ => Err(ErrorView::InvalidType(ctx)),
    }
}

/// Reads a boolean, given as a boolean or as one of its spellings.
pub fn stringy_bool(y: &Yaml, ctx: &str) -> (r: Result<bool, Error>)
    ensures
        agrees(r, d_stringy(*y, ctx@)),
{
    match y {
        Yaml::Bool(b) => Ok(*b),
        Yaml::Str(s) => {
            let s = s.as_str();
            if str_eq(s, "y") || str_eq(s, "Y") || str_eq(s, "yes") || str_eq(s, "Yes") || str_eq(
                s,
                "YES",
            ) || str_eq(s, "true") || str_eq(s, "True") || str_eq(s, "TRUE") || str_eq(s, "on")
                || str_eq(s, "On") || str_eq(s, "ON") {
                Ok(true)
            } else if str_eq(s, "n") || str_eq(s, "N") || str_eq(s, "no") || str_eq(s, "No")
                || str_eq(s, "NO") || str_eq(s, "false") || str_eq(s, "False") || str_eq(
                s,
                "FALSE",
            ) || str_eq(s, "off") || str_eq(s, "Off") || str_eq(s, "OFF") {
                Ok(false)
            } else {
                Err(Error::InvalidBoolean(ctx.to_owned()))
            }
        },
        _ => Err(Error::InvalidType(ctx.to_owned())),
    }
}

/// The boolean field `key`, `default` when absent.
pub open spec fn d_bool_field(es: Seq<(Yaml, Yaml)>, key: Seq<char>, default: bool) -> Result<
    bool,
    ErrorView,
> {
    match lookup(es, key) {
        None => Ok(default),
        Some(y) => d_stringy(y, key),
    }
}

/// Reads the boolean field `key`, `default` when absent.
pub fn bool_field(es: &Vec<(Yaml, Yaml)>, key: &str, default: bool) -> (r: Result<bool, Error>)
    ensures
        agrees(r, d_bool_field(es@, key@, default)),
{
    match field(es, key) {
        None => Ok(default),
        Some(y) => stringy_bool(y, key),
    }
}

/// Each item decoded by `f`, in order; the first error when an item fails.
pub open spec fn d_all<A, T>(items: Seq<A>, f: spec_fn(A) -> Result<T, ErrorView>) -> Result<
    Seq<T>,
    ErrorView,
>
    decreases items.len(),
{
    if items.len() == 0 {
        Ok(Seq::empty())
    } else {
        match d_all(items.drop_last(), f) {
            Err(e) => Err(e),
            Ok(xs) => match f(items.last()) {
                Err(e) => Err(e),
                Ok(x) => Ok(xs.push(x)),
            },
        }
    }
}

/// An error in the first `n` items is the error of all of them.
pub proof fn lemma_d_all_prefix_err<A, T>(items: Seq<A>, n: int, f: spec_fn(A) -> Result<T, ErrorView>)
    requires
        0 <= n <= items.len(),
        d_all(items.take(n), f) is Err,
    ensures
        d_all(items, f) == d_all(items.take(n), f),
    decreases items.len() - n,
{
    if n < items.len() {
        assert(items.take(n + 1).drop_last() =~= items.take(n));
        lemma_d_all_prefix_err(items, n + 1, f);
    } else {
        assert(items.take(n) =~= items);
    }
}

/// Step of a loop that decodes items one by one: after the item at `i` decoded to
/// `x`, the first `i + 1` items decode to those before and `x`.
pub proof fn lemma_d_all_step<A, T>(items: Seq<A>, i: int, f: spec_fn(A) -> Result<T, ErrorView>, xs: Seq<T>)
    requires
        0 <= i < items.len(),
        d_all(items.take(i), f) == Ok::<Seq<T>, ErrorView>(xs),
    ensures
        match f(items[i]) {
            Ok(x) => d_all(items.take(i + 1), f) == Ok::<Seq<T>, ErrorView>(xs.push(x)),
            Err(e) => d_all(items, f) == Err::<Seq<T>, ErrorView>(e),
        },
{
    assert(items.take(i + 1).drop_last() =~= items.take(i));
    assert(items.take(i + 1).last() == items[i]);
    if f(items[i]) is Err {
        lemma_d_all_prefix_err(items, i + 1, f);
    }
}

} // verus!
