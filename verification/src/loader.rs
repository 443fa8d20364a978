//! Reading a configuration dump: a text of lines `KEY=VALUE`, of which
//! comments and lines that cannot be read are passed over.

use vstd::prelude::*;
use vstd::slice::slice_subrange;
use vstd::string::*;
use vstd::utf8::{decode_utf8, encode_utf8_decode_utf8, valid_utf8};

use crate::text::{chars, find, lemma_split_first, lemma_split_none, split, trim, trim_range};
use crate::value::{parse_spec, Tristate, Value, ValueView};

verus! {

/// The byte that ends a line.
pub const NEWLINE: u8 = 10;

/// The option that one line of text sets, if it sets one.
///
/// The line is trimmed first. A line that begins with `#` is a comment. In
/// any other line the first `=` parts the key from the value, both trimmed;
/// a line without `=`, or with a value that is no value, sets nothing.
pub open spec fn parse_line_spec(line: Seq<char>) -> Option<(Seq<char>, ValueView)> {
    let text = trim(line);
    if text.len() > 0 && text[0] == '#' {
        None
    } else {
        match text.index_of_first('=') {
            Some(at) => match parse_spec(trim(text.skip(at + 1))) {
                Some(value) => Some((trim(text.take(at)), value)),
                None => None,
            },
            None => None,
        }
    }
}

/// The option that one line of bytes sets: that of its text, where the
/// bytes are well-formed UTF-8, and none where they are not.
pub open spec fn raw_line_spec(raw: Seq<u8>) -> Option<(Seq<char>, ValueView)> {
    if valid_utf8(raw) {
        parse_line_spec(decode_utf8(raw))
    } else {
        None
    }
}

/// The options that a dump sets, in the order of its lines. A key that is
/// set twice appears twice.
pub open spec fn load_spec(bytes: Seq<u8>) -> Seq<(Seq<char>, ValueView)> {
    split(bytes, NEWLINE).filter_map(|raw: Seq<u8>| raw_line_spec(raw))
}

/// No entry for `None`, the one entry for `Some`.
pub open spec fn entries<T>(entry: Option<T>) -> Seq<T> {
    match entry {
        Some(e) => seq![e],
        None => Seq::empty(),
    }
}

proof fn lemma_filter_map_prepend<A, B>(first: A, rest: Seq<A>, f: spec_fn(A) -> Option<B>)
    ensures
        (seq![first] + rest).filter_map(f) == entries(f(first)) + rest.filter_map(f),
    decreases rest.len(),
{
    let whole = seq![first] + rest;
    if rest.len() == 0 {
        Seq::lemma_filter_map_singleton(first, f);
    } else {
        lemma_filter_map_prepend(first, rest.drop_last(), f);
        assert(whole.drop_last() == seq![first] + rest.drop_last());
    }
}

/// A dump without a line break is a single line.
pub proof fn lemma_load_single_line(bytes: Seq<u8>)
    requires
        !bytes.contains(NEWLINE),
    ensures
        load_spec(bytes) == entries(raw_line_spec(bytes)),
{
    lemma_split_none(bytes, NEWLINE);
    Seq::lemma_filter_map_singleton(bytes, |raw: Seq<u8>| raw_line_spec(raw));
}

/// A dump with a line break sets what its first line sets, and then what
/// the rest of it sets.
pub proof fn lemma_load_first_line(bytes: Seq<u8>, at: int)
    requires
        0 <= at < bytes.len(),
        bytes[at] == NEWLINE,
        forall|j: int| 0 <= j < at ==> bytes[j] != NEWLINE,
    ensures
        load_spec(bytes) == entries(raw_line_spec(bytes.take(at))) + load_spec(
            bytes.skip(at + 1),
        ),
{
    lemma_split_first(bytes, NEWLINE, at);
    lemma_filter_map_prepend(
        bytes.take(at),
        split(bytes.skip(at + 1), NEWLINE),
        |raw: Seq<u8>| raw_line_spec(raw),
    );
}

/// Reading never yields `NotSet`: each option of a dump is set to true, to
/// false or to module, or holds a string.
pub proof fn lemma_load_never_not_set(bytes: Seq<u8>)
    ensures
        forall|k: int|
            0 <= k < load_spec(bytes).len() ==> (#[trigger] load_spec(bytes)[k]).1
                != ValueView::Tristate(Tristate::NotSet),
{
    let read = |raw: Seq<u8>| raw_line_spec(raw);
    assert forall|k: int| 0 <= k < load_spec(bytes).len() implies (#[trigger] load_spec(
        bytes,
    )[k]).1 != ValueView::Tristate(Tristate::NotSet) by {
        let entry = load_spec(bytes)[k];
        split(bytes, NEWLINE).lemma_filter_map_contains(read, entry);
    }
}

/// Reads one line of text.
///
/// Returns the option that the line sets, and `None` for a comment, a blank
/// line, a line without `=` and a line whose value cannot be read.
pub fn parse_line(line: &str) -> (entry: Option<(String, Value)>)
    ensures
        entry.deep_view() == parse_line_spec(line@),
{
    let text = chars(line);
    let (lo, hi) = trim_range(&text, 0, text.len());
    let ghost trimmed = text@.subrange(lo as int, hi as int);
    assert(text@.subrange(0, text.len() as int) == line@);
    if lo < hi && text[lo] == '#' {
        return None;
    }
    match find(&text, lo, hi, '=') {
        Some(at) => {
            let (key_lo, key_hi) = trim_range(&text, lo, at);
            let (value_lo, value_hi) = trim_range(&text, at + 1, hi);
            assert(trimmed.take(at - lo) == text@.subrange(lo as int, at as int));
            assert(trimmed.skip(at - lo + 1) == text@.subrange(at + 1, hi as int));
            match Value::parse(line.substring_char(value_lo, value_hi)) {
                Some(value) => Some((line.substring_char(key_lo, key_hi).to_owned(), value)),
                None => None,
            }
        },
        None => None,
    }
}

/// Reads one line of bytes: its text, if the bytes are text at all.
fn parse_raw_line(raw: &[u8]) -> (entry: Option<(String, Value)>)
    ensures
        entry.deep_view() == raw_line_spec(raw@),
{
    match core::str::from_utf8(raw) {
        Ok(line) => {
            proof {
                encode_utf8_decode_utf8(line@);
            }
            parse_line(line)
        },
        Err(_) => None,
    }
}

/// The end of the line that begins at `start`: the position of the next
/// line break, or the end of `bytes`.
fn line_end(bytes: &[u8], start: usize) -> (end: usize)
    requires
        start <= bytes.len(),
    ensures
        start <= end <= bytes.len(),
        forall|j: int| start <= j < end ==> bytes@[j] != NEWLINE,
        end < bytes.len() ==> bytes@[end as int] == NEWLINE,
{
    let mut end: usize = start;
    while end < bytes.len() && bytes[end] != NEWLINE
        invariant
            start <= end <= bytes.len(),
            forall|j: int| start <= j < end ==> bytes@[j] != NEWLINE,
        decreases bytes.len() - end,
    {
        end += 1;
    }
    end
}

/// Reads a configuration dump.
///
/// Returns the options that the dump sets, in the order of its lines and
/// with repeated keys kept. Comments, blank lines, lines without `=`, lines
/// whose value cannot be read and lines that are not well-formed UTF-8 are
/// passed over: no input is an error.
pub fn load(bytes: &[u8]) -> (pairs: Vec<(String, Value)>)
    ensures
        pairs.deep_view() == load_spec(bytes@),
        forall|k: int|
            0 <= k < pairs.len() ==> (#[trigger] pairs[k]).1 != Value::Tristate(Tristate::NotSet),
{
    proof {
        lemma_load_never_not_set(bytes@);
    }
    let mut pairs: Vec<(String, Value)> = Vec::new();
    let mut start: usize = 0;
    assert(bytes@.skip(0) == bytes@);
    loop
        invariant_except_break
            start <= bytes.len(),
            load_spec(bytes@) == pairs.deep_view() + load_spec(bytes@.skip(start as int)),
        ensures
            pairs.deep_view() == load_spec(bytes@),
        decreases bytes.len() - start,
    {
        let end = line_end(bytes, start);
        let entry = parse_raw_line(slice_subrange(bytes, start, end));
        proof {
            let rest = bytes@.skip(start as int);
            assert(rest.take(end - start) == bytes@.subrange(start as int, end as int));
            if end < bytes.len() {
                lemma_load_first_line(rest, end - start);
                assert(rest.skip(end - start + 1) == bytes@.skip(end + 1));
            } else {
                lemma_load_single_line(rest);
            }
        }
        if let Some(pair) = entry {
            pairs.push(pair);
        }
        if end == bytes.len() {
            break ;
        }
        start = end + 1;
    }
    assert forall|k: int| 0 <= k < pairs.len() implies (#[trigger] pairs[k]).1
        != Value::Tristate(Tristate::NotSet) by {
        assert(pairs.deep_view()[k].1 == pairs[k].1@);
    }
    pairs
}

} // verus!
