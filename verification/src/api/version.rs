//! Four-field version numbers such as `132.0.6834.83`.

use crate::decimal::{
    ascii_text, is_canonical_numeral, is_digit, is_numeral, lemma_canonical_numeral_unique,
    lemma_numeral_denotes, numeral, numeral_u32, push_numeral, read_numeral,
};
use crate::text::{free_of, join, lemma_join_split, lemma_split_join, split, split_ranges};
use std::cmp::Ordering;
use vstd::prelude::*;
use vstd::utf8::is_ascii_chars;

verus! {

/// The version of a build. Versions are ordered field by field, `major`
/// first.
#[derive(Debug, Clone, Copy, PartialEq, Eq, Ord, Hash, Structural)]
pub struct Version {
    pub major: u32,
    pub minor: u32,
    pub patch: u32,
    pub build: u32,
}

/// The text is not four decimal numbers, each fitting in 32 bits, with a dot
/// between neighbours.
#[derive(Debug, Clone, Copy, PartialEq, Eq, Structural)]
pub struct MalformedVersion;

/// The text of four fields with a dot between neighbours.
pub proof fn lemma_join_four(a: Seq<char>, b: Seq<char>, c: Seq<char>, d: Seq<char>)
    ensures
        join(seq![a, b, c, d], '.') == a + seq!['.'] + b + seq!['.'] + c + seq!['.'] + d,
{
    let four = seq![a, b, c, d];
    let three = seq![a, b, c];
    let two = seq![a, b];
    let one = seq![a];
    assert(four.drop_last() =~= three);
    assert(three.drop_last() =~= two);
    assert(two.drop_last() =~= one);
    assert(join(one, '.') == a);
    assert(join(two, '.') =~= a + seq!['.'] + b);
    assert(join(three, '.') =~= a + seq!['.'] + b + seq!['.'] + c);
    assert(join(four, '.') =~= a + seq!['.'] + b + seq!['.'] + c + seq!['.'] + d);
}

impl Version {
    /// The version that a text denotes, if it denotes one: the text must
    /// consist of exactly four numerals with a dot between neighbours, and
    /// each number must fit in 32 bits.
    pub open spec fn from_text(text: Seq<char>) -> Option<Version> {
        let fields = split(text, '.');
        if fields.len() == 4 {
            match (
                numeral_u32(fields[0]),
                numeral_u32(fields[1]),
                numeral_u32(fields[2]),
                numeral_u32(fields[3]),
            ) {
                (Some(major), Some(minor), Some(patch), Some(build)) => Some(
                    Version { major, minor, patch, build },
                ),
                _ => None,
            }
        } else {
            None
        }
    }

    /// The text of a version: its four fields in decimal, with a dot between
    /// neighbours.
    pub open spec fn text(self) -> Seq<char> {
        numeral(self.major as nat) + seq!['.'] + numeral(self.minor as nat) + seq!['.'] + numeral(
            self.patch as nat,
        ) + seq!['.'] + numeral(self.build as nat)
    }

    /// Whether every field of a text is a numeral without a needless leading
    /// zero.
    pub open spec fn is_canonical(text: Seq<char>) -> bool {
        forall|k: int|
            0 <= k < split(text, '.').len() ==> is_canonical_numeral(#[trigger] split(text, '.')[k])
    }

    /// How this version stands to another: the first field in which they
    /// differ decides.
    pub open spec fn ordering(self, other: Version) -> Ordering {
        if self.major != other.major {
            if self.major < other.major {
                Ordering::Less
            } else {
                Ordering::Greater
            }
        } else if self.minor != other.minor {
            if self.minor < other.minor {
                Ordering::Less
            } else {
                Ordering::Greater
            }
        } else if self.patch != other.patch {
            if self.patch < other.patch {
                Ordering::Less
            } else {
                Ordering::Greater
            }
        } else if self.build != other.build {
            if self.build < other.build {
                Ordering::Less
            } else {
                Ordering::Greater
            }
        } else {
            Ordering::Equal
        }
    }

    /// Reads a version from its text.
    pub fn parse(text: &str) -> (version: Result<Version, MalformedVersion>)
        ensures
            match version {
                Ok(v) => Version::from_text(text@) == Some(v),
                Err(_) => Version::from_text(text@) is None,
            },
    {
        if !text.is_ascii() {
            proof {
                if Version::from_text(text@) is Some {
                    Version::lemma_denoting_text_is_plain(text@);
                }
            }
            return Err(MalformedVersion);
        }
        let bytes = text.as_bytes();
        proof {
            vstd::string::is_ascii_spec_bytes(text);
            assert(ascii_text(bytes@) =~= text@);
        }
        let ranges = split_ranges(bytes, 46u8);
        if ranges.len() != 4 {
            return Err(MalformedVersion);
        }
        let major = read_numeral(bytes, ranges[0].0, ranges[0].1);
        let minor = read_numeral(bytes, ranges[1].0, ranges[1].1);
        let patch = read_numeral(bytes, ranges[2].0, ranges[2].1);
        let build = read_numeral(bytes, ranges[3].0, ranges[3].1);
        match (major, minor, patch, build) {
            (Some(major), Some(minor), Some(patch), Some(build)) => Ok(
                Version { major, minor, patch, build },
            ),
            _ => Err(MalformedVersion),
        }
    }

    /// Renders the version as text.
    pub fn to_string(&self) -> (text: String)
        ensures
            text@ == self.text(),
    {
        proof {
            reveal_strlit(".");
            assert("."@ =~= seq!['.']);
        }
        let mut out = String::new();
        push_numeral(&mut out, self.major);
        out.append(".");
        push_numeral(&mut out, self.minor);
        out.append(".");
        push_numeral(&mut out, self.patch);
        out.append(".");
        push_numeral(&mut out, self.build);
        proof {
            assert(out@ =~= self.text());
        }
        out
    }

    /// Compares this version with another, field by field.
    pub fn compare(&self, other: &Version) -> (order: Ordering)
        ensures
            order == self.ordering(*other),
    {
        if self.major != other.major {
            if self.major < other.major {
                Ordering::Less
            } else {
                Ordering::Greater
            }
        } else if self.minor != other.minor {
            if self.minor < other.minor {
                Ordering::Less
            } else {
                Ordering::Greater
            }
        } else if self.patch != other.patch {
            if self.patch < other.patch {
                Ordering::Less
            } else {
                Ordering::Greater
            }
        } else if self.build != other.build {
            if self.build < other.build {
                Ordering::Less
            } else {
                Ordering::Greater
            }
        } else {
            Ordering::Equal
        }
    }

    /// A text that denotes a version holds nothing but digits and dots.
    pub proof fn lemma_denoting_text_is_plain(text: Seq<char>)
        requires
            Version::from_text(text) is Some,
        ensures
            forall|i: int| 0 <= i < text.len() ==> is_digit(#[trigger] text[i]) || text[i] == '.',
            is_ascii_chars(text),
    {
        let fields = split(text, '.');
        lemma_join_split(text, '.');
        assert(fields =~= seq![fields[0], fields[1], fields[2], fields[3]]);
        lemma_join_four(fields[0], fields[1], fields[2], fields[3]);
        assert forall|i: int| 0 <= i < text.len() implies is_digit(#[trigger] text[i]) || text[i]
            == '.' by {
            let a = fields[0];
            let b = fields[1];
            let c = fields[2];
            let d = fields[3];
            if i < a.len() {
                assert(text[i] == a[i]);
            } else if i == a.len() {
            } else if i < a.len() + 1 + b.len() {
                assert(text[i] == b[i - a.len() - 1]);
            } else if i == a.len() + 1 + b.len() {
            } else if i < a.len() + 1 + b.len() + 1 + c.len() {
                assert(text[i] == c[i - a.len() - 1 - b.len() - 1]);
            } else if i == a.len() + 1 + b.len() + 1 + c.len() {
            } else {
                assert(text[i] == d[i - a.len() - 1 - b.len() - 1 - c.len() - 1]);
            }
        }
    }

    /// Reading the text of a version gives that version back.
    pub proof fn lemma_parse_rendered(version: Version)
        ensures
            Version::from_text(version.text()) == Some(version),
            Version::is_canonical(version.text()),
    {
        let a = numeral(version.major as nat);
        let b = numeral(version.minor as nat);
        let c = numeral(version.patch as nat);
        let d = numeral(version.build as nat);
        let fields = seq![a, b, c, d];
        lemma_numeral_denotes(version.major as nat);
        lemma_numeral_denotes(version.minor as nat);
        lemma_numeral_denotes(version.patch as nat);
        lemma_numeral_denotes(version.build as nat);
        assert forall|k: int| 0 <= k < fields.len() implies free_of(#[trigger] fields[k], '.') by {
            assert(is_numeral(fields[k]));
            assert forall|i: int| 0 <= i < fields[k].len() implies #[trigger] fields[k][i]
                != '.' by {
                assert(is_digit(fields[k][i]));
            }
        }
        lemma_split_join(fields, '.');
        lemma_join_four(a, b, c, d);
        assert(split(version.text(), '.') == fields);
    }

    /// Rendering the version that a canonical text denotes gives that text
    /// back.
    pub proof fn lemma_render_parsed(text: Seq<char>)
        requires
            Version::from_text(text) is Some,
            Version::is_canonical(text),
        ensures
            Version::from_text(text).unwrap().text() == text,
    {
        let fields = split(text, '.');
        lemma_join_split(text, '.');
        assert(fields =~= seq![fields[0], fields[1], fields[2], fields[3]]);
        lemma_join_four(fields[0], fields[1], fields[2], fields[3]);
        lemma_canonical_numeral_unique(fields[0]);
        lemma_canonical_numeral_unique(fields[1]);
        lemma_canonical_numeral_unique(fields[2]);
        lemma_canonical_numeral_unique(fields[3]);
    }

    /// Any two versions are ordered one way or the other, or are the same
    /// version.
    pub proof fn lemma_order_total(a: Version, b: Version)
        ensures
            a.ordering(b) == Ordering::Equal <==> a == b,
            a.ordering(b) == Ordering::Less <==> b.ordering(a) == Ordering::Greater,
            a.ordering(b) == Ordering::Greater <==> b.ordering(a) == Ordering::Less,
    {
    }

    /// A version below a second that is below a third is below the third.
    pub proof fn lemma_order_transitive(a: Version, b: Version, c: Version)
        requires
            a.ordering(b) == Ordering::Less,
            b.ordering(c) == Ordering::Less,
        ensures
            a.ordering(c) == Ordering::Less,
    {
    }
}

impl PartialOrd for Version {
    fn partial_cmp(&self, other: &Version) -> (order: Option<Ordering>) {
        Some(self.compare(other))
    }
}

impl vstd::std_specs::cmp::PartialOrdSpecImpl for Version {
    open spec fn obeys_partial_cmp_spec() -> bool {
        true
    }

    open spec fn partial_cmp_spec(&self, other: &Version) -> Option<Ordering> {
        Some(self.ordering(*other))
    }
}

} // verus!
