//! Comparing texts and cutting them at a separator.

use crate::decimal::ascii_text;
use vstd::prelude::*;
use vstd::utf8::*;

verus! {

/// Tells whether two string slices hold the same characters.
///
/// The slices are compared byte by byte; two texts with the same UTF-8
/// encoding are the same text.
pub fn same_text(a: &str, b: &str) -> (same: bool)
    ensures
        same == (a@ == b@),
{
    let x = a.as_bytes();
    let y = b.as_bytes();
    if x.len() != y.len() {
        return false;
    }
    let mut i: usize = 0;
    while i < x.len()
        invariant
            i <= x@.len(),
            x@.len() == y@.len(),
            x@ == encode_utf8(a@),
            y@ == encode_utf8(b@),
            forall|j: int| 0 <= j < i ==> x@[j] == y@[j],
        decreases x@.len() - i,
    {
        if x[i] != y[i] {
            return false;
        }
        i += 1;
    }
    proof {
        assert(x@ =~= y@);
        encode_utf8_decode_utf8(a@);
        encode_utf8_decode_utf8(b@);
    }
    true
}

/// The fields of a text between the occurrences of a separator, in order.
/// A text with n separators has n + 1 fields, some of them perhaps empty.
pub open spec fn split(s: Seq<char>, sep: char) -> Seq<Seq<char>>
    decreases s.len(),
{
    if s.len() == 0 {
        seq![Seq::empty()]
    } else {
        let before = split(s.drop_last(), sep);
        if s.last() == sep {
            before.push(Seq::empty())
        } else {
            before.drop_last().push(before.last().push(s.last()))
        }
    }
}

/// The text made of the given fields with a separator between neighbours.
pub open spec fn join(fields: Seq<Seq<char>>, sep: char) -> Seq<char>
    decreases fields.len(),
{
    if fields.len() == 0 {
        Seq::empty()
    } else if fields.len() == 1 {
        fields[0]
    } else {
        join(fields.drop_last(), sep).push(sep) + fields.last()
    }
}

/// Whether a text is free of a separator.
pub open spec fn free_of(s: Seq<char>, sep: char) -> bool {
    forall|i: int| 0 <= i < s.len() ==> #[trigger] s[i] != sep
}

/// Every text has at least one field, and no field holds the separator.
pub proof fn lemma_split_fields(s: Seq<char>, sep: char)
    ensures
        split(s, sep).len() >= 1,
        forall|k: int| 0 <= k < split(s, sep).len() ==> free_of(#[trigger] split(s, sep)[k], sep),
    decreases s.len(),
{
    if s.len() > 0 {
        lemma_split_fields(s.drop_last(), sep);
    }
}

/// Joining the fields of a text gives the text back.
pub proof fn lemma_join_split(s: Seq<char>, sep: char)
    ensures
        join(split(s, sep), sep) == s,
    decreases s.len(),
{
    if s.len() > 0 {
        let front = s.drop_last();
        let before = split(front, sep);
        lemma_split_fields(front, sep);
        lemma_join_split(front, sep);
        let fields = split(s, sep);
        if s.last() == sep {
            assert(fields.drop_last() =~= before);
        } else if before.len() > 1 {
            assert(fields.drop_last() =~= before.drop_last());
        }
        assert(front.push(s.last()) =~= s);
    }
}

/// Appending separator-free text to a text lengthens its last field.
pub proof fn lemma_split_append(s: Seq<char>, tail: Seq<char>, sep: char)
    requires
        free_of(tail, sep),
    ensures
        split(s + tail, sep) == split(s, sep).drop_last().push(split(s, sep).last() + tail),
    decreases tail.len(),
{
    lemma_split_fields(s, sep);
    let before = split(s, sep);
    if tail.len() > 0 {
        let front = tail.drop_last();
        assert(free_of(front, sep));
        lemma_split_append(s, front, sep);
        assert((s + tail).drop_last() =~= s + front);
        let mid = split(s + front, sep);
        assert(mid.last().push(tail.last()) =~= before.last() + tail);
    }
}

/// Cutting up the join of separator-free fields gives the fields back.
pub proof fn lemma_split_join(fields: Seq<Seq<char>>, sep: char)
    requires
        fields.len() >= 1,
        forall|k: int| 0 <= k < fields.len() ==> free_of(#[trigger] fields[k], sep),
    ensures
        split(join(fields, sep), sep) == fields,
    decreases fields.len(),
{
    if fields.len() == 1 {
        lemma_split_append(Seq::empty(), fields[0], sep);
    } else {
        let front = fields.drop_last();
        lemma_split_join(front, sep);
        let head = join(front, sep);
        let cut = head.push(sep);
        assert(cut.drop_last() =~= head);
        lemma_split_append(cut, fields.last(), sep);
    }
}

/// Cuts a run of ASCII bytes at each occurrence of a separator and returns
/// where each field starts and ends.
pub fn split_ranges(bytes: &[u8], sep: u8) -> (ranges: Vec<(usize, usize)>)
    ensures
        ranges@.len() == split(ascii_text(bytes@), sep as char).len(),
        forall|k: int|
            0 <= k < ranges@.len() ==> {
                &&& (#[trigger] ranges@[k]).0 <= ranges@[k].1 <= bytes@.len()
                &&& ascii_text(bytes@.subrange(ranges@[k].0 as int, ranges@[k].1 as int)) == split(
                    ascii_text(bytes@),
                    sep as char,
                )[k]
            },
{
    let ghost text = ascii_text(bytes@);
    let mut ranges: Vec<(usize, usize)> = Vec::new();
    let mut start: usize = 0;
    let mut i: usize = 0;
    while i < bytes.len()
        invariant
            start <= i <= bytes@.len(),
            text == ascii_text(bytes@),
            ranges@.len() + 1 == split(text.take(i as int), sep as char).len(),
            split(text.take(i as int), sep as char).last() == ascii_text(
                bytes@.subrange(start as int, i as int),
            ),
            forall|k: int|
                0 <= k < ranges@.len() ==> {
                    &&& (#[trigger] ranges@[k]).0 <= ranges@[k].1 <= bytes@.len()
                    &&& ascii_text(bytes@.subrange(ranges@[k].0 as int, ranges@[k].1 as int))
                        == split(text.take(i as int), sep as char)[k]
                },
        decreases bytes@.len() - i,
    {
        proof {
            assert(text.take(i + 1).drop_last() =~= text.take(i as int));
        }
        if bytes[i] == sep {
            ranges.push((start, i));
            start = i + 1;
        }
        i += 1;
    }
    proof {
        assert(text.take(i as int) =~= text);
    }
    ranges.push((start, i));
    ranges
}

} // verus!
