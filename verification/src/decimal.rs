//! Decimal numerals: natural numbers written in ASCII digits.

use vstd::prelude::*;

verus! {

/// Whether a character is one of the ten ASCII digits.
pub open spec fn is_digit(c: char) -> bool {
    '0' <= c <= '9'
}

/// The number that a digit stands for.
pub open spec fn digit_value(c: char) -> nat {
    (c as u8 - 48) as nat
}

/// The digit that stands for a number below ten.
pub open spec fn digit_char(d: nat) -> char {
    ((d + 48) as u8) as char
}

/// A numeral is a non-empty run of digits.
pub open spec fn is_numeral(s: Seq<char>) -> bool {
    &&& s.len() > 0
    &&& forall|i: int| 0 <= i < s.len() ==> is_digit(#[trigger] s[i])
}

/// A numeral is canonical when it has no needless leading zero.
pub open spec fn is_canonical_numeral(s: Seq<char>) -> bool {
    &&& is_numeral(s)
    &&& s[0] == '0' ==> s.len() == 1
}

/// The number that a run of digits denotes, most significant digit first.
pub open spec fn numeral_value(s: Seq<char>) -> nat
    decreases s.len(),
{
    if s.len() == 0 {
        0
    } else {
        numeral_value(s.drop_last()) * 10 + digit_value(s.last())
    }
}

/// The canonical numeral of a number.
pub open spec fn numeral(n: nat) -> Seq<char>
    decreases n,
{
    if n < 10 {
        seq![digit_char(n)]
    } else {
        numeral(n / 10).push(digit_char(n % 10))
    }
}

/// The 32-bit number that a text denotes, if the text is a numeral and the
/// number fits.
pub open spec fn numeral_u32(s: Seq<char>) -> Option<u32> {
    if is_numeral(s) && numeral_value(s) <= u32::MAX {
        Some(numeral_value(s) as u32)
    } else {
        None
    }
}

/// The characters that a run of ASCII bytes encodes.
pub open spec fn ascii_text(bytes: Seq<u8>) -> Seq<char> {
    Seq::new(bytes.len(), |i: int| bytes[i] as char)
}

/// A numeral whose first digit is not zero denotes a positive number.
pub proof fn lemma_leading_digit_positive(s: Seq<char>)
    requires
        is_numeral(s),
        s[0] != '0',
    ensures
        numeral_value(s) >= 1,
    decreases s.len(),
{
    if s.len() > 1 {
        lemma_leading_digit_positive(s.drop_last());
    }
}

/// The numeral of a number is canonical and denotes that number.
pub proof fn lemma_numeral_denotes(n: nat)
    ensures
        is_canonical_numeral(numeral(n)),
        numeral_value(numeral(n)) == n,
    decreases n,
{
    if n < 10 {
        let s = numeral(n);
        assert(numeral_value(s.drop_last()) == 0);
    } else {
        let front = numeral(n / 10);
        let s = front.push(digit_char(n % 10));
        lemma_numeral_denotes(n / 10);
        assert(s.drop_last() =~= front);
        if front[0] == '0' {
            assert(numeral_value(front.drop_last()) == 0);
        }
    }
}

/// A canonical numeral is the numeral of the number it denotes.
pub proof fn lemma_canonical_numeral_unique(s: Seq<char>)
    requires
        is_canonical_numeral(s),
    ensures
        numeral(numeral_value(s)) == s,
    decreases s.len(),
{
    let front = s.drop_last();
    if s.len() == 1 {
        assert(numeral_value(front) == 0);
        assert(seq![s.last()] =~= s);
    } else {
        lemma_leading_digit_positive(front);
        lemma_canonical_numeral_unique(front);
        assert(numeral_value(s) == numeral_value(front) * 10 + digit_value(s.last()));
        assert(front.push(s.last()) =~= s);
    }
}

/// The one-character text of a digit.
pub(crate) fn digit_text(d: u8) -> (text: &'static str)
    requires
        d < 10,
    ensures
        text@ == seq![digit_char(d as nat)],
{
    proof {
        reveal_strlit("0");
        reveal_strlit("1");
        reveal_strlit("2");
        reveal_strlit("3");
        reveal_strlit("4");
        reveal_strlit("5");
        reveal_strlit("6");
        reveal_strlit("7");
        reveal_strlit("8");
        reveal_strlit("9");
    }
    let text = match d {
        0 => "0",
        1 => "1",
        2 => "2",
        3 => "3",
        4 => "4",
        5 => "5",
        6 => "6",
        7 => "7",
        8 => "8",
        _ => "9",
    };
    text
}

/// Appends the canonical numeral of a number to a text.
pub fn push_numeral(out: &mut String, n: u32)
    ensures
        final(out)@ == old(out)@ + numeral(n as nat),
    decreases n,
{
    if n >= 10 {
        push_numeral(out, n / 10);
    }
    out.append(digit_text((n % 10) as u8));
}

/// Reads the bytes from `from` up to `to` as a numeral that fits in 32 bits.
pub(crate) fn read_numeral(bytes: &[u8], from: usize, to: usize) -> (value: Option<u32>)
    requires
        from <= to <= bytes@.len(),
    ensures
        value == numeral_u32(ascii_text(bytes@.subrange(from as int, to as int))),
{
    let ghost digits = ascii_text(bytes@.subrange(from as int, to as int));
    if from == to {
        return None;
    }
    let mut acc: u64 = 0;
    let mut too_large = false;
    let mut i: usize = from;
    while i < to
        invariant
            from <= i <= to <= bytes@.len(),
            digits == ascii_text(bytes@.subrange(from as int, to as int)),
            forall|k: int| 0 <= k < i - from ==> is_digit(#[trigger] digits[k]),
            !too_large ==> acc == numeral_value(digits.take(i - from)) && acc <= u32::MAX,
            too_large ==> numeral_value(digits.take(i - from)) > u32::MAX,
        decreases to - i,
    {
        let b = bytes[i];
        proof {
            let k = i - from;
            assert(digits.take(k + 1).drop_last() =~= digits.take(k));
        }
        if b < 48 || b > 57 {
            assert(!is_digit(digits[i - from]));
            return None;
        }
        if !too_large {
            acc = acc * 10 + (b - 48) as u64;
            if acc > 0xFFFF_FFFF {
                too_large = true;
            }
        }
        i += 1;
    }
    proof {
        assert(digits.take(to - from) =~= digits);
    }
    if too_large {
        None
    } else {
        Some(acc as u32)
    }
}

} // verus!
