//! Text as a sequence of characters: trimming, searching, splitting and
//! joining, each with its mathematical meaning.

use vstd::prelude::*;

verus! {

/// Whether `c` is whitespace: whether it has the Unicode property
/// `White_Space`.
pub open spec fn white_space(c: char) -> bool {
    let code = c as u32;
    ||| 0x09 <= code <= 0x0D
    ||| code == 0x20
    ||| code == 0x85
    ||| code == 0xA0
    ||| code == 0x1680
    ||| 0x2000 <= code <= 0x200A
    ||| code == 0x2028
    ||| code == 0x2029
    ||| code == 0x202F
    ||| code == 0x205F
    ||| code == 0x3000
}

/// Whether `c` is whitespace.
pub fn is_whitespace(c: char) -> (blank: bool)
    ensures
        blank == white_space(c),
{
    let code: u32 = c as u32;
    (0x09 <= code && code <= 0x0D) || code == 0x20 || code == 0x85 || code == 0xA0 || code
        == 0x1680 || (0x2000 <= code && code <= 0x200A) || code == 0x2028 || code == 0x2029
        || code == 0x202F || code == 0x205F || code == 0x3000
}

/// `s` without its leading whitespace.
pub open spec fn trim_start(s: Seq<char>) -> Seq<char>
    decreases s.len(),
{
    if s.len() > 0 && white_space(s.first()) {
        trim_start(s.drop_first())
    } else {
        s
    }
}

/// `s` without its trailing whitespace.
pub open spec fn trim_end(s: Seq<char>) -> Seq<char>
    decreases s.len(),
{
    if s.len() > 0 && white_space(s.last()) {
        trim_end(s.drop_last())
    } else {
        s
    }
}

/// `s` without its leading and trailing whitespace.
pub open spec fn trim(s: Seq<char>) -> Seq<char> {
    trim_end(trim_start(s))
}

/// The characters of `s`, in order.
pub fn chars(s: &str) -> (text: Vec<char>)
    ensures
        text@ == s@,
{
    let mut text: Vec<char> = Vec::new();
    for c in it: s.chars()
        invariant
            it.seq() == s@,
            text@ == s@.take(it.index() as int),
    {
        text.push(c);
    }
    text
}

/// The bounds of what is left of `text[lo..hi]` once it is trimmed.
pub(crate) fn trim_range(text: &Vec<char>, lo: usize, hi: usize) -> (bounds: (usize, usize))
    requires
        lo <= hi <= text.len(),
    ensures
        lo <= bounds.0 <= bounds.1 <= hi,
        text@.subrange(bounds.0 as int, bounds.1 as int) == trim(
            text@.subrange(lo as int, hi as int),
        ),
{
    let mut start: usize = lo;
    while start < hi && is_whitespace(text[start])
        invariant
            lo <= start <= hi <= text.len(),
            trim_start(text@.subrange(start as int, hi as int)) == trim_start(
                text@.subrange(lo as int, hi as int),
            ),
        decreases hi - start,
    {
        assert(text@.subrange(start as int, hi as int).drop_first() == text@.subrange(
            start + 1,
            hi as int,
        ));
        start += 1;
    }
    let mut end: usize = hi;
    while start < end && is_whitespace(text[end - 1])
        invariant
            start <= end <= hi <= text.len(),
            trim_end(text@.subrange(start as int, end as int)) == trim_end(
                text@.subrange(start as int, hi as int),
            ),
        decreases end - start,
    {
        assert(text@.subrange(start as int, end as int).drop_last() == text@.subrange(
            start as int,
            end - 1,
        ));
        end -= 1;
    }
    (start, end)
}

/// The position of the first `wanted` in `text[lo..hi]`, if there is one.
pub(crate) fn find(text: &Vec<char>, lo: usize, hi: usize, wanted: char) -> (found: Option<usize>)
    requires
        lo <= hi <= text.len(),
    ensures
        match found {
            Some(at) => lo <= at < hi && text@.subrange(lo as int, hi as int).index_of_first(
                wanted,
            ) == Some(at - lo),
            None => text@.subrange(lo as int, hi as int).index_of_first(wanted) is None,
        },
{
    let mut at: usize = lo;
    while at < hi && text[at] != wanted
        invariant
            lo <= at <= hi <= text.len(),
            forall|j: int| lo <= j < at ==> text@[j] != wanted,
        decreases hi - at,
    {
        at += 1;
    }
    proof {
        let part = text@.subrange(lo as int, hi as int);
        part.index_of_first_ensures(wanted);
        assert(at < hi ==> part[at - lo] == wanted);
    }
    if at < hi {
        Some(at)
    } else {
        None
    }
}

/// The pieces of `s` that lie between occurrences of `sep`: what stands before
/// the first `sep`, then the pieces of what follows it. A sequence without
/// `sep` is its own single piece, and so is the empty sequence.
pub open spec fn split<T>(s: Seq<T>, sep: T) -> Seq<Seq<T>>
    decreases s.len(),
{
    match s.index_of_first(sep) {
        Some(at) => {
            proof {
                s.index_of_first_ensures(sep);
            }
            seq![s.take(at)] + split(s.skip(at + 1), sep)
        },
        None => seq![s],
    }
}

/// The pieces `parts` put together again, with one `sep` between neighbours.
pub open spec fn join<T>(parts: Seq<Seq<T>>, sep: T) -> Seq<T>
    decreases parts.len(),
{
    if parts.len() == 0 {
        Seq::empty()
    } else if parts.len() == 1 {
        parts.first()
    } else {
        parts.first() + seq![sep] + join(parts.drop_first(), sep)
    }
}

/// Whether no piece of `parts` holds `sep`.
pub open spec fn free_of<T>(parts: Seq<Seq<T>>, sep: T) -> bool {
    forall|k: int| 0 <= k < parts.len() ==> !(#[trigger] parts[k]).contains(sep)
}

/// A sequence that holds no `sep` is split into itself alone.
pub proof fn lemma_split_none<T>(s: Seq<T>, sep: T)
    requires
        !s.contains(sep),
    ensures
        split(s, sep) == seq![s],
{
    s.index_of_first_ensures(sep);
}

/// Splitting cuts at the first `sep`: the first piece is what stands before
/// it, and the other pieces are those of what follows it.
pub proof fn lemma_split_first<T>(s: Seq<T>, sep: T, at: int)
    requires
        0 <= at < s.len(),
        s[at] == sep,
        forall|j: int| 0 <= j < at ==> s[j] != sep,
    ensures
        split(s, sep) == seq![s.take(at)] + split(s.skip(at + 1), sep),
{
    s.index_of_first_ensures(sep);
}

/// Splitting yields at least one piece, and no piece holds the separator.
pub proof fn lemma_split_pieces<T>(s: Seq<T>, sep: T)
    ensures
        split(s, sep).len() >= 1,
        free_of(split(s, sep), sep),
    decreases s.len(),
{
    s.index_of_first_ensures(sep);
    if let Some(at) = s.index_of_first(sep) {
        let others = split(s.skip(at + 1), sep);
        lemma_split_pieces(s.skip(at + 1), sep);
        assert forall|k: int| 0 <= k < split(s, sep).len() implies !(#[trigger] split(
            s,
            sep,
        )[k]).contains(sep) by {
            if k > 0 {
                assert(split(s, sep)[k] == others[k - 1]);
            }
        }
    }
}

/// Joining the pieces of a split gives the sequence back.
pub proof fn lemma_join_split<T>(s: Seq<T>, sep: T)
    ensures
        join(split(s, sep), sep) == s,
    decreases s.len(),
{
    s.index_of_first_ensures(sep);
    if let Some(at) = s.index_of_first(sep) {
        let rest = s.skip(at + 1);
        lemma_join_split(rest, sep);
        lemma_split_pieces(rest, sep);
        assert(split(s, sep).drop_first() == split(rest, sep));
        assert(s == s.take(at) + seq![sep] + rest);
    }
}

/// Splitting a join gives the pieces back, provided there is at least one
/// piece and no piece holds the separator.
pub proof fn lemma_split_join<T>(parts: Seq<Seq<T>>, sep: T)
    requires
        parts.len() >= 1,
        free_of(parts, sep),
    ensures
        split(join(parts, sep), sep) == parts,
    decreases parts.len(),
{
    let first = parts.first();
    if parts.len() == 1 {
        lemma_split_none(first, sep);
    } else {
        let others = parts.drop_first();
        assert(free_of(others, sep)) by {
            assert(forall|k: int| 0 <= k < others.len() ==> others[k] == parts[k + 1]);
        }
        lemma_split_join(others, sep);
        let whole = join(parts, sep);
        let at = first.len() as int;
        assert(forall|j: int| 0 <= j < at ==> whole[j] == first[j]);
        lemma_split_first(whole, sep, at);
        assert(whole.take(at) == first);
        assert(whole.skip(at + 1) == join(others, sep));
    }
}

/// Joining one more piece appends a separator and the piece, but for the
/// first piece, which stands alone.
pub proof fn lemma_join_push<T>(parts: Seq<Seq<T>>, last: Seq<T>, sep: T)
    ensures
        join(parts.push(last), sep) == if parts.len() == 0 {
            last
        } else {
            join(parts, sep) + seq![sep] + last
        },
    decreases parts.len(),
{
    if parts.len() > 0 {
        let others = parts.drop_first();
        lemma_join_push(others, last, sep);
        assert(parts.push(last).drop_first() == others.push(last));
    }
}

} // verus!
