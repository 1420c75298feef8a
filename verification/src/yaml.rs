//! The YAML reader and writer that the lock file goes through.
//!
//! The calls into the `serde_yaml` crate are taken on trust: each states what
//! is believed of it. The test that guards the reader, `has_shallow_nesting`,
//! is proved.

use crate::names::{increasing, pairs_of, Pair};
use std::collections::BTreeMap;
use vstd::prelude::*;

verus! {

/// The error type of `serde_yaml`, carried through as an opaque value.
#[verifier::external_type_specification]
#[verifier::external_body]
pub struct ExYamlError(serde_yaml::Error);

/// What `serde_yaml::from_slice` reads from a document as a mapping from
/// strings to strings, in increasing order of key; `None` where it reports an
/// error.
pub uninterp spec fn yaml_mapping(document: Seq<u8>) -> Option<Seq<Pair>>;

/// The document that `serde_yaml::to_vec` writes for a mapping from strings
/// to strings, given in increasing order of key; `None` where it reports an
/// error.
pub uninterp spec fn yaml_document(entries: Seq<Pair>) -> Option<Seq<u8>>;

/// How many bytes of indentation a line of a document may begin with.
pub const MAX_INDENT: usize = 32;

/// A byte that may stand before the place where a block collection opens: a
/// space, a tab, `-`, `?` or `:`.
pub open spec fn is_indent_byte(b: u8) -> bool {
    b == 32 || b == 9 || b == 45 || b == 63 || b == 58
}

/// A line begins at place `i`: at the start, or just behind a line feed.
pub open spec fn starts_line(document: Seq<u8>, i: int) -> bool {
    i == 0 || document[i - 1] == 10
}

/// Some byte from `from` up to `to` is no indentation.
pub open spec fn has_content(document: Seq<u8>, from: int, to: int) -> bool {
    exists|k: int|
        from <= k < to && k < document.len() && !is_indent_byte(#[trigger] document[k])
}

/// No line begins with more than `MAX_INDENT` bytes of indentation.
pub open spec fn indents_are_shallow(document: Seq<u8>) -> bool {
    forall|i: int|
        0 <= i && i + MAX_INDENT < document.len() && starts_line(document, i)
            ==> #[trigger] has_content(document, i, i + MAX_INDENT + 1)
}

/// Every carriage return is followed at once by a line feed.
pub open spec fn line_ends_are_plain(document: Seq<u8>) -> bool {
    forall|i: int|
        0 <= i < document.len() && #[trigger] document[i] == 13 ==> i + 1 < document.len()
            && document[i + 1] == 10
}

/// The document cannot nest its block collections deep: its lines begin
/// with little indentation, and its columns start anew at every line end.
pub open spec fn is_shallow(document: Seq<u8>) -> bool {
    line_ends_are_plain(document) && indents_are_shallow(document)
}

/// Whether every carriage return is followed at once by a line feed.
pub fn has_plain_line_ends(document: &[u8]) -> (r: bool)
    ensures
        r == line_ends_are_plain(document@),
{
    let n: usize = document.len();
    let mut i: usize = 0;
    while i < n
        invariant
            n == document@.len(),
            i <= n,
            forall|j: int|
                0 <= j < i && #[trigger] document@[j] == 13 ==> j + 1 < n && document@[j + 1]
                    == 10,
        decreases n - i,
    {
        if document[i] == 13 {
            if i + 1 >= n {
                return false;
            }
            if document[i + 1] != 10 {
                return false;
            }
        }
        i = i + 1;
    }
    true
}

/// Whether no line begins with more than `MAX_INDENT` bytes of indentation.
pub fn has_shallow_indents(document: &[u8]) -> (r: bool)
    ensures
        r == indents_are_shallow(document@),
{
    let n: usize = document.len();
    let mut i: usize = 0;
    let mut run: usize = 0;
    let mut in_prefix: bool = true;
    while i < n
        invariant
            n == document@.len(),
            i <= n,
            run <= i,
            run <= MAX_INDENT,
            !in_prefix ==> run == 0 && i > 0 && document@[i - 1] != 10,
            in_prefix ==> starts_line(document@, i - run),
            forall|k: int| i - run <= k < i ==> is_indent_byte(#[trigger] document@[k]),
            forall|s: int|
                0 <= s < i - run && starts_line(document@, s) ==> #[trigger] has_content(
                    document@,
                    s,
                    s + MAX_INDENT + 1,
                ),
        decreases n - i,
    {
        let b: u8 = document[i];
        let ghost line = i - run;
        if in_prefix {
            if b == 32 || b == 9 || b == 45 || b == 63 || b == 58 {
                if run == MAX_INDENT {
                    proof {
                        assert(!has_content(document@, line, line + MAX_INDENT + 1));
                    }
                    return false;
                }
                run = run + 1;
            } else {
                proof {
                    assert(!is_indent_byte(document@[i as int]));
                    assert(has_content(document@, line, line + MAX_INDENT + 1));
                    assert forall|s: int| line < s <= i implies !starts_line(document@, s) by {
                        assert(is_indent_byte(document@[s - 1]));
                    }
                }
                run = 0;
                in_prefix = b == 10;
            }
        } else {
            in_prefix = b == 10;
        }
        i = i + 1;
    }
    proof {
        assert forall|s: int|
            0 <= s && s + MAX_INDENT < n && starts_line(document@, s) implies #[trigger] has_content(
            document@,
            s,
            s + MAX_INDENT + 1,
        ) by {
            if s > n - run {
                assert(is_indent_byte(document@[s - 1]));
            }
        }
    }
    true
}

/// Whether a document may be handed to the reader, which recurses once for
/// each collection that is open at a time. A block collection opens only at
/// a `-`, a `?`, a `:` or a key that stands on its line behind nothing but
/// such indicators and blanks, and only at a column that no open collection
/// has; a sequence may follow a key without a column of its own. The column
/// starts anew only behind a line feed. So a shallow document keeps at most
/// `2 * (MAX_INDENT + 1)` block collections open. Flow collections need no
/// test: the reader itself gives up at a depth of 255.
pub fn has_shallow_nesting(document: &[u8]) -> (r: bool)
    ensures
        r == is_shallow(document@),
{
    has_plain_line_ends(document) && has_shallow_indents(document)
}

/// Calls `serde_yaml::from_slice` for a `BTreeMap<String, String>` and hands
/// its entries out in the map's own order. Trusted: the result depends on the
/// bytes alone; nothing is claimed about what it is. The document must be
/// shallow: on one that nests too deep the call overruns its stack.
#[verifier::external_body]
pub(crate) fn read_mapping(document: &[u8]) -> (r: Result<Vec<(String, String)>, serde_yaml::Error>)
    requires
        is_shallow(document@),
    ensures
        match r {
            Ok(entries) => yaml_mapping(document@) == Some(pairs_of(entries@)),
            Err(_) => yaml_mapping(document@).is_none(),
        },
{
    let mapping: BTreeMap<String, String> = serde_yaml::from_slice(document)?;
    Ok(mapping.into_iter().collect())
}

/// Calls `serde_yaml::to_vec` on the entries as a `BTreeMap`. The entries must
/// come in increasing order of name, so that the map holds them one for one.
/// Trusted: the result depends on the entries alone; nothing is claimed about
/// what it is.
#[verifier::external_body]
pub(crate) fn write_mapping(entries: &Vec<(String, String)>) -> (r: Result<
    Vec<u8>,
    serde_yaml::Error,
>)
    requires
        increasing(pairs_of(entries@)),
    ensures
        match r {
            Ok(document) => yaml_document(pairs_of(entries@)) == Some(document@),
            Err(_) => yaml_document(pairs_of(entries@)).is_none(),
        },
{
    let mapping: BTreeMap<&String, &String> = entries.iter().map(|e| (&e.0, &e.1)).collect();
    serde_yaml::to_vec(&mapping)
}

/// The text of a `serde_yaml` error, through its `Display`. Nothing is claimed
/// about the text.
#[verifier::external_body]
pub(crate) fn error_text(error: &serde_yaml::Error) -> (r: String) {
    error.to_string()
}

} // verus!
