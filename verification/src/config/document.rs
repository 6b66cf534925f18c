//! Entries of TOML documents, read with the `toml` crate.

use crate::text::{chars_of, texts};
use vstd::prelude::*;

verus! {

/// The most brackets, braces and dots that a document may hold to be
/// read at all.
pub const MAX_NESTING: usize = 128;

/// Whether `c` can open a deeper level of a TOML document: a bracket
/// opens an array or a table header, a brace an inline table, and a dot
/// a table within a table.
pub open spec fn deepens(c: char) -> bool {
    c == '[' || c == '{' || c == '.'
}

/// A bound on how deep the document `text` nests: the number of its
/// brackets, braces and dots.
pub open spec fn nesting(text: Seq<char>) -> nat
    decreases text.len(),
{
    if text.len() == 0 {
        0
    } else {
        nesting(text.drop_last()) + if deepens(text.last()) {
            1nat
        } else {
            0nat
        }
    }
}

/// A part of a text from its start nests no deeper than the text.
pub proof fn lemma_nesting_grows(text: Seq<char>, upto: int)
    requires
        0 <= upto <= text.len(),
    ensures
        nesting(text.take(upto)) <= nesting(text),
    decreases text.len() - upto,
{
    if upto < text.len() {
        lemma_nesting_grows(text, upto + 1);
        assert(text.take(upto + 1).drop_last() =~= text.take(upto));
    } else {
        assert(text.take(upto) =~= text);
    }
}

/// The text of a string that may be absent.
pub open spec fn text_of(entry: Option<String>) -> Option<Seq<char>> {
    match entry {
        Some(s) => Some(s@),
        None => None,
    }
}

/// The texts of a list of strings that may be absent.
pub open spec fn texts_of(list: Option<Vec<String>>) -> Option<Seq<Seq<char>>> {
    match list {
        Some(strings) => Some(texts(strings@)),
        None => None,
    }
}

/// The string that `toml` reads under `key` in the table `table` of the
/// document `text`; `None` where `text` is no TOML document, has no such
/// table or key, or holds another kind of value there.
pub uninterp spec fn document_string(text: Seq<char>, table: Seq<char>, key: Seq<char>) -> Option<
    Seq<char>,
>;

/// The strings of the array that `toml` reads under `key` in the table
/// `table` of the document `text`; `None` where `text` is no TOML
/// document, has no such table or key, or holds anything there but an
/// array of strings.
pub uninterp spec fn document_strings(text: Seq<char>, table: Seq<char>, key: Seq<char>) -> Option<
    Seq<Seq<char>>,
>;

/// The strings that `toml` reads under `key` in each table of the array
/// of tables `array` of the document `text`, in the order of the tables;
/// `None` where `text` is no TOML document, has no such array, or has in
/// it anything but tables with a string under `key`.
pub uninterp spec fn document_column(text: Seq<char>, array: Seq<char>, key: Seq<char>) -> Option<
    Seq<Seq<char>>,
>;

/// Whether `toml` reads a value of any kind under `key` in the table
/// `table` of the document `text`.
pub uninterp spec fn document_has(text: Seq<char>, table: Seq<char>, key: Seq<char>) -> bool;

/// Parses `text` with `toml::from_str` into a `toml::Value` and hands out
/// the string under `table.key`, found with `Value::get` and
/// `Value::as_str`. The outcome depends on the three texts alone. The
/// parser calls itself once for each level of arrays and tables, without
/// a limit of its own, so the text must keep within the nesting bound.
#[verifier::external_body]
pub(crate) fn read_string(text: &str, table: &str, key: &str) -> (value: Option<String>)
    requires
        nesting(text@) <= MAX_NESTING,
    ensures
        text_of(value) == document_string(text@, table@, key@),
{
    let document: toml::Value = toml::from_str(text).ok()?;
    let entry = document.get(table)?.get(key)?;
    Some(entry.as_str()?.to_owned())
}

/// Parses `text` with `toml::from_str` into a `toml::Value` and hands out
/// the array of strings under `table.key`, found with `Value::get`,
/// `Value::as_array` and `Value::as_str`. The outcome depends on the
/// three texts alone. The text must keep within the nesting bound, as
/// for `read_string`.
#[verifier::external_body]
pub(crate) fn read_strings(text: &str, table: &str, key: &str) -> (values: Option<Vec<String>>)
    requires
        nesting(text@) <= MAX_NESTING,
    ensures
        texts_of(values) == document_strings(text@, table@, key@),
{
    let document: toml::Value = toml::from_str(text).ok()?;
    let entries = document.get(table)?.get(key)?.as_array()?;
    entries.iter().map(|entry| Some(entry.as_str()?.to_owned())).collect()
}

/// Parses `text` with `toml::from_str` into a `toml::Value` and hands out,
/// for each table of the array under `array`, the string under `key`,
/// found with `Value::get`, `Value::as_array` and `Value::as_str`. The
/// outcome depends on the three texts alone. The text must keep within
/// the nesting bound, as for `read_string`.
#[verifier::external_body]
pub(crate) fn read_column(text: &str, array: &str, key: &str) -> (values: Option<Vec<String>>)
    requires
        nesting(text@) <= MAX_NESTING,
    ensures
        texts_of(values) == document_column(text@, array@, key@),
{
    let document: toml::Value = toml::from_str(text).ok()?;
    let tables = document.get(array)?.as_array()?;
    tables.iter().map(|table| Some(table.get(key)?.as_str()?.to_owned())).collect()
}

/// Parses `text` with `toml::from_str` into a `toml::Value` and tells
/// whether `Value::get` finds a value under `table.key`. The outcome
/// depends on the three texts alone. The text must keep within the
/// nesting bound, as for `read_string`.
#[verifier::external_body]
pub(crate) fn read_presence(text: &str, table: &str, key: &str) -> (present: bool)
    requires
        nesting(text@) <= MAX_NESTING,
    ensures
        present == document_has(text@, table@, key@),
{
    match toml::from_str::<toml::Value>(text) {
        Ok(document) => document.get(table).and_then(|found| found.get(key)).is_some(),
        Err(_) => false,
    }
}

/// Whether the document `text` keeps within the nesting bound.
pub fn nests_within_bound(text: &str) -> (within: bool)
    ensures
        within == (nesting(text@) <= MAX_NESTING),
{
    let chars = chars_of(text);
    let mut deep: usize = 0;
    let mut i: usize = 0;
    assert(chars@.take(0) =~= Seq::<char>::empty());
    while i < chars.len()
        invariant
            i <= chars.len(),
            chars@ == text@,
            deep == nesting(chars@.take(i as int)),
            deep <= MAX_NESTING,
        decreases chars.len() - i,
    {
        let c = chars[i];
        proof {
            assert(chars@.take(i + 1).drop_last() =~= chars@.take(i as int));
            assert(chars@.take(i + 1).last() == c);
        }
        if c == '[' || c == '{' || c == '.' {
            if deep == MAX_NESTING {
                proof {
                    lemma_nesting_grows(chars@, i + 1);
                }
                return false;
            }
            deep += 1;
        }
        i += 1;
    }
    assert(chars@.take(chars@.len() as int) =~= chars@);
    true
}

/// The string under `table.key` of the document `text`, where the
/// document keeps within the nesting bound.
pub open spec fn entry_string(text: Seq<char>, table: Seq<char>, key: Seq<char>) -> Option<
    Seq<char>,
> {
    if nesting(text) <= MAX_NESTING {
        document_string(text, table, key)
    } else {
        None
    }
}

/// The array of strings under `table.key` of the document `text`, where
/// the document keeps within the nesting bound.
pub open spec fn entry_strings(text: Seq<char>, table: Seq<char>, key: Seq<char>) -> Option<
    Seq<Seq<char>>,
> {
    if nesting(text) <= MAX_NESTING {
        document_strings(text, table, key)
    } else {
        None
    }
}

/// The strings under `key` of the tables of the array `array` of the
/// document `text`, where the document keeps within the nesting bound.
pub open spec fn entry_column(text: Seq<char>, array: Seq<char>, key: Seq<char>) -> Option<
    Seq<Seq<char>>,
> {
    if nesting(text) <= MAX_NESTING {
        document_column(text, array, key)
    } else {
        None
    }
}

/// Whether the document `text` keeps within the nesting bound and holds
/// a value of any kind under `table.key`.
pub open spec fn entry_present(text: Seq<char>, table: Seq<char>, key: Seq<char>) -> bool {
    nesting(text) <= MAX_NESTING && document_has(text, table, key)
}

/// The string under `table.key` of a TOML document. A document that
/// nests too deep is not read, and gives nothing.
pub fn string_at(text: &str, table: &str, key: &str) -> (value: Option<String>)
    ensures
        text_of(value) == entry_string(text@, table@, key@),
{
    if nests_within_bound(text) {
        read_string(text, table, key)
    } else {
        None
    }
}

/// The array of strings under `table.key` of a TOML document. A document
/// that nests too deep is not read, and gives nothing.
pub fn strings_at(text: &str, table: &str, key: &str) -> (values: Option<Vec<String>>)
    ensures
        texts_of(values) == entry_strings(text@, table@, key@),
{
    if nests_within_bound(text) {
        read_strings(text, table, key)
    } else {
        None
    }
}

/// For each table of the array `array` of a TOML document, the string
/// under `key`. A document that nests too deep is not read, and gives
/// nothing.
pub fn column_at(text: &str, array: &str, key: &str) -> (values: Option<Vec<String>>)
    ensures
        texts_of(values) == entry_column(text@, array@, key@),
{
    if nests_within_bound(text) {
        read_column(text, array, key)
    } else {
        None
    }
}

/// Whether a TOML document holds a value of any kind under `table.key`.
/// A document that nests too deep is not read, and holds nothing.
pub fn present_at(text: &str, table: &str, key: &str) -> (present: bool)
    ensures
        present == entry_present(text@, table@, key@),
{
    nests_within_bound(text) && read_presence(text, table, key)
}

} // verus!
