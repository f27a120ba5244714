//! Splitting a text into display segments at the positions that break
//! markers give.
//!
//! A marker names a position in the text, counted in characters. The text
//! up to that position is one segment; a break token follows it; the
//! character at the position is the break's own place and is left out; the
//! next segment starts behind it. A marker at or behind the end of the text
//! ends the last segment there and leaves nothing out.

use vstd::prelude::*;
use crate::document::bodytext::BreakMarker;
use crate::text::{chars_of, push_range, string_of};

verus! {

/// The token that stands for a break: a line-break tag where the output is
/// HTML-flavoured, a single space where it is plain.
pub open spec fn break_token(html: bool) -> Seq<char> {
    if html {
        seq!['<', 'b', 'r', '>']
    } else {
        seq![' ']
    }
}

/// The positions of `markers`, in the order of the markers.
pub open spec fn offsets_of(markers: Seq<BreakMarker>) -> Seq<usize> {
    Seq::new(markers.len(), |i: int| markers[i].offset)
}

/// `sorted` with `x` put behind the last element that is not greater.
pub open spec fn inserted(sorted: Seq<usize>, x: usize) -> Seq<usize>
    decreases sorted.len(),
{
    if sorted.len() == 0 {
        seq![x]
    } else if sorted.last() <= x {
        sorted.push(x)
    } else {
        inserted(sorted.drop_last(), x).push(sorted.last())
    }
}

/// The elements of `offsets` in ascending order.
pub open spec fn ascending(offsets: Seq<usize>) -> Seq<usize>
    decreases offsets.len(),
{
    if offsets.len() == 0 {
        Seq::empty()
    } else {
        inserted(ascending(offsets.drop_last()), offsets.last())
    }
}

/// No element of `s` is greater than one behind it.
pub open spec fn is_ascending(s: Seq<usize>) -> bool {
    forall|i: int, j: int| 0 <= i <= j < s.len() ==> s[i] <= s[j]
}

/// The output for the part of `text` from `cursor` on, with a break at each
/// of `offsets`, taken in the order given.
pub open spec fn walk(text: Seq<char>, offsets: Seq<usize>, cursor: int, token: Seq<char>) -> Seq<
    char,
>
    decreases offsets.len(),
{
    if offsets.len() == 0 {
        text.skip(cursor)
    } else {
        let offset = offsets[0] as int;
        let end = if offset < text.len() {
            offset
        } else {
            text.len() as int
        };
        let segment = if cursor < end {
            text.subrange(cursor, end)
        } else {
            Seq::empty()
        };
        let next = if offset < text.len() {
            offset + 1
        } else {
            text.len() as int
        };
        segment + token + walk(text, offsets.drop_first(), next, token)
    }
}

/// `text` with `token` at each break that `markers` give, the markers
/// taken by ascending position.
pub open spec fn segmented(text: Seq<char>, markers: Seq<BreakMarker>, token: Seq<char>) -> Seq<
    char,
> {
    walk(text, ascending(offsets_of(markers)), 0, token)
}

proof fn lemma_inserted_at(sorted: Seq<usize>, x: usize, at: int)
    requires
        0 <= at <= sorted.len(),
        forall|i: int| at <= i < sorted.len() ==> sorted[i] > x,
        at > 0 ==> sorted[at - 1] <= x,
    ensures
        inserted(sorted, x) == sorted.insert(at, x),
    decreases sorted.len() - at,
{
    if at < sorted.len() {
        lemma_inserted_at(sorted.drop_last(), x, at);
    }
}

/// Inserting keeps the length, the elements and the order.
pub proof fn lemma_inserted(sorted: Seq<usize>, x: usize)
    requires
        is_ascending(sorted),
    ensures
        is_ascending(inserted(sorted, x)),
        inserted(sorted, x).len() == sorted.len() + 1,
        inserted(sorted, x).to_multiset() == sorted.to_multiset().insert(x),
    decreases sorted.len(),
{
    broadcast use vstd::seq_lib::group_to_multiset_ensures;

    if sorted.len() > 0 && sorted.last() > x {
        let rest = sorted.drop_last();
        assert(is_ascending(rest)) by {
            assert forall|i: int, j: int| 0 <= i <= j < rest.len() implies rest[i] <= rest[j] by {
            }
        }
        lemma_inserted(rest, x);
        let front = inserted(rest, x);
        let all = front.push(sorted.last());
        assert forall|i: int, j: int| 0 <= i <= j < all.len() implies all[i] <= all[j] by {
            if j == all.len() - 1 && i < j {
                // every element of `front` is `x` or one of `rest`
                assert(front.to_multiset().count(front[i]) > 0);
            }
        }
        assert(sorted =~= rest.push(sorted.last()));
    }
}

/// The ascending order of a list holds the same positions, each as often,
/// with none greater than one behind it.
pub proof fn lemma_ascending(offsets: Seq<usize>)
    ensures
        is_ascending(ascending(offsets)),
        ascending(offsets).len() == offsets.len(),
        ascending(offsets).to_multiset() == offsets.to_multiset(),
    decreases offsets.len(),
{
    broadcast use vstd::seq_lib::group_to_multiset_ensures;

    if offsets.len() > 0 {
        lemma_ascending(offsets.drop_last());
        lemma_inserted(ascending(offsets.drop_last()), offsets.last());
        assert(offsets =~= offsets.drop_last().push(offsets.last()));
    }
}

/// The positions of `markers` in ascending order.
pub fn sorted_offsets(markers: &Vec<BreakMarker>) -> (sorted: Vec<usize>)
    ensures
        sorted@ == ascending(offsets_of(markers@)),
{
    let mut sorted: Vec<usize> = Vec::new();
    let mut i: usize = 0;
    while i < markers.len()
        invariant
            i <= markers.len(),
            sorted@ == ascending(offsets_of(markers@).take(i as int)),
        decreases markers.len() - i,
    {
        let x = markers[i].offset;
        let mut at: usize = sorted.len();
        while at > 0 && sorted[at - 1] > x
            invariant
                at <= sorted.len(),
                forall|k: int| at <= k < sorted.len() ==> sorted@[k] > x,
            decreases at,
        {
            at -= 1;
        }
        proof {
            lemma_inserted_at(sorted@, x, at as int);
            let all = offsets_of(markers@);
            assert(all.take(i + 1).drop_last() =~= all.take(i as int));
        }
        sorted.insert(at, x);
        i += 1;
    }
    assert(offsets_of(markers@).take(markers@.len() as int) =~= offsets_of(markers@));
    sorted
}

/// Splits `text` at the breaks that `markers` give and puts the break token
/// at each: `<br>` where `html` is set, a single space where it is not.
///
/// The markers are taken by ascending position, whatever their order in
/// `markers`. Without markers the result is `text`.
pub fn segment_text(text: &str, markers: &Vec<BreakMarker>, html: bool) -> (out: String)
    ensures
        out@ == segmented(text@, markers@, break_token(html)),
        markers@.len() == 0 ==> out@ == text@,
{
    let chars = chars_of(text);
    let out = segment_chars(&chars, markers, html);
    string_of(&out)
}

/// `segment_text` on a text that is held as characters.
pub fn segment_chars(chars: &Vec<char>, markers: &Vec<BreakMarker>, html: bool) -> (out: Vec<char>)
    ensures
        out@ == segmented(chars@, markers@, break_token(html)),
        markers@.len() == 0 ==> out@ == chars@,
{
    let mut token: Vec<char> = Vec::new();
    if html {
        token.push('<');
        token.push('b');
        token.push('r');
        token.push('>');
    } else {
        token.push(' ');
    }
    assert(token@ =~= break_token(html));
    segment_with(chars, markers, &token)
}

/// Splits a text at the breaks that `markers` give and puts `token` at
/// each.
pub fn segment_with(chars: &Vec<char>, markers: &Vec<BreakMarker>, token: &Vec<char>) -> (out: Vec<
    char,
>)
    ensures
        out@ == segmented(chars@, markers@, token@),
        markers@.len() == 0 ==> out@ == chars@,
{
    let offsets = sorted_offsets(markers);
    let len = chars.len();
    let mut out: Vec<char> = Vec::new();
    let mut cursor: usize = 0;
    let mut i: usize = 0;
    assert(offsets@.skip(0) =~= offsets@);
    while i < offsets.len()
        invariant
            i <= offsets.len(),
            cursor <= len,
            len == chars.len(),
            out@ + walk(chars@, offsets@.skip(i as int), cursor as int, token@) == walk(
                chars@,
                offsets@,
                0,
                token@,
            ),
        decreases offsets.len() - i,
    {
        let offset = offsets[i];
        let end = if offset < len {
            offset
        } else {
            len
        };
        let ghost rest = offsets@.skip(i as int);
        assert(rest.drop_first() =~= offsets@.skip(i + 1));
        if cursor < end {
            push_range(&mut out, chars, cursor, end);
        }
        push_range(&mut out, token, 0, token.len());
        let next = if offset < len {
            offset + 1
        } else {
            len
        };
        cursor = next;
        i += 1;
    }
    push_range(&mut out, chars, cursor, len);
    out
}

/// Without markers, segmenting changes nothing.
pub proof fn lemma_no_markers_is_identity(text: Seq<char>, token: Seq<char>)
    ensures
        segmented(text, Seq::<BreakMarker>::empty(), token) == text,
{
}

/// With one marker, at the end of the text, the output is the text and
/// then one break token: nothing follows the token.
pub proof fn lemma_break_at_end(text: Seq<char>, marker: BreakMarker, token: Seq<char>)
    requires
        marker.offset == text.len(),
    ensures
        segmented(text, seq![marker], token) == text + token,
{
    let offsets = offsets_of(seq![marker]);
    assert(ascending(offsets.drop_last()) =~= Seq::<usize>::empty());
    let sorted = ascending(offsets);
    assert(walk(text, sorted.drop_first(), text.len() as int, token) =~= Seq::<char>::empty());
}

/// With two markers at different positions inside the text, in either
/// order, the output is what precedes the first position, a token, what
/// stands between the two positions, a token, and what follows the second:
/// the characters at the two positions are left out.
pub proof fn lemma_two_breaks(text: Seq<char>, one: BreakMarker, other: BreakMarker, token: Seq<char>)
    requires
        one.offset != other.offset,
        one.offset < text.len(),
        other.offset < text.len(),
    ensures
        ({
            let low = if one.offset < other.offset {
                one.offset as int
            } else {
                other.offset as int
            };
            let high = if one.offset < other.offset {
                other.offset as int
            } else {
                one.offset as int
            };
            segmented(text, seq![one, other], token) == text.subrange(0, low) + token
                + text.subrange(low + 1, high) + token + text.skip(high + 1)
        }),
{
    let low = if one.offset < other.offset {
        one.offset
    } else {
        other.offset
    };
    let high = if one.offset < other.offset {
        other.offset
    } else {
        one.offset
    };
    let offsets = offsets_of(seq![one, other]);
    assert(offsets =~= seq![one.offset, other.offset]);
    assert(offsets.drop_last() =~= seq![one.offset]);
    assert(offsets.drop_last().drop_last() =~= Seq::<usize>::empty());
    assert(ascending(offsets.drop_last().drop_last()) =~= Seq::<usize>::empty());
    assert(ascending(offsets.drop_last()) =~= seq![one.offset]);
    let first = seq![one.offset];
    assert(first.drop_last() =~= Seq::<usize>::empty());
    assert(inserted(first.drop_last(), other.offset) =~= seq![other.offset]);
    let sorted = ascending(offsets);
    assert(sorted =~= seq![low, high]);
    assert(sorted.drop_first() =~= seq![high]);
    assert(sorted.drop_first().drop_first() =~= Seq::<usize>::empty());
    let tail = walk(text, sorted.drop_first().drop_first(), high + 1, token);
    assert(tail == text.skip(high + 1));
    let middle = walk(text, sorted.drop_first(), low + 1, token);
    let between = if low + 1 < high {
        text.subrange(low + 1, high as int)
    } else {
        Seq::empty()
    };
    assert(between =~= text.subrange(low + 1, high as int));
    assert(middle == between + token + tail);
    let before = if 0 < low {
        text.subrange(0, low as int)
    } else {
        Seq::empty()
    };
    assert(before =~= text.subrange(0, low as int));
    assert(walk(text, sorted, 0, token) == before + token + middle);
    assert(before + token + (between + token + tail) =~= before + token + between + token + tail);
}

} // verus!
