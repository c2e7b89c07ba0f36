//! The ISO 7064 MOD 97-10 checksum over a rearranged IBAN.
//!
//! The checksum of an IBAN is computed by moving its first four characters
//! to the end, replacing every digit by itself and every uppercase letter
//! `'A'..'Z'` by the two decimal digits of its value `10..35`, and reducing
//! the resulting long decimal numeral modulo 97. The IBAN is valid when the
//! remainder is 1 and its length matches the country length table.

use vstd::prelude::*;

use crate::country::spec_country_length;

verus! {

/// The decimal digits a single character contributes to the checksum
/// numeral: a digit maps to itself, an uppercase letter `'A'..'Z'` to the
/// two digits of `10..35`, and every other character contributes nothing.
pub open spec fn char_digits(c: char) -> Seq<u8> {
    let u = c as u32;
    if 48 <= u && u <= 57 {
        seq![(u - 48) as u8]
    } else if 65 <= u && u <= 90 {
        seq![((u - 55) / 10) as u8, ((u - 55) % 10) as u8]
    } else {
        Seq::empty()
    }
}

/// The decimal digits that a character sequence contributes, in order.
pub open spec fn digits_of(s: Seq<char>) -> Seq<u8>
    decreases s.len(),
{
    if s.len() == 0 {
        Seq::empty()
    } else {
        char_digits(s.first()) + digits_of(s.drop_first())
    }
}

/// Reduces the decimal numeral `digits` modulo 97, folded from the left
/// starting at `acc`: each digit `d` turns the running remainder `r` into
/// `(r * 10 + d) % 97`.
pub open spec fn mod97_acc(digits: Seq<u8>, acc: nat) -> nat
    decreases digits.len(),
{
    if digits.len() == 0 {
        acc
    } else {
        mod97_acc(digits.drop_first(), ((acc * 10 + digits.first()) % 97) as nat)
    }
}

/// The value modulo 97 of the decimal numeral that `s` maps to.
pub open spec fn checksum_mod97(s: Seq<char>) -> nat {
    mod97_acc(digits_of(s), 0)
}

/// `content` with its first four characters (country code and check
/// digits) moved to the end.
pub open spec fn rearranged(content: Seq<char>) -> Seq<char> {
    content.skip(4) + content.take(4)
}

/// The number of leading non-NUL slots: the effective length of a
/// 34-slot IBAN buffer.
pub open spec fn content_len(s: Seq<char>) -> nat
    decreases s.len(),
{
    if s.len() == 0 {
        0
    } else if s.first() == '\0' {
        0
    } else {
        (1 + content_len(s.drop_first())) as nat
    }
}

/// The non-padding prefix of a buffer.
pub open spec fn content_of(s: Seq<char>) -> Seq<char> {
    s.take(content_len(s) as int)
}

/// Whether a buffer is a valid IBAN: its content is at least four
/// characters, its length is exactly what the country length table
/// mandates for its leading country code, and the MOD 97-10 checksum of
/// its rearranged content is 1.
pub open spec fn spec_is_valid(s: Seq<char>) -> bool {
    let c = content_of(s);
    &&& c.len() >= 4
    &&& spec_country_length(c[0], c[1]) == Some(c.len() as usize)
    &&& checksum_mod97(rearranged(c)) == 1
}

/// A scan that saw no NUL before position `i` and a NUL (or the end) at
/// `i` has found the content length.
pub proof fn lemma_content_len_at(s: Seq<char>, i: int)
    requires
        0 <= i <= s.len(),
        forall|k: int| 0 <= k < i ==> s[k] != '\0',
        i == s.len() || s[i] == '\0',
    ensures
        content_len(s) == i,
    decreases i,
{
    if i == 0 {
        if s.len() != 0 {
            assert(s.first() == '\0');
        }
    } else {
        assert(s.first() != '\0');
        lemma_content_len_at(s.drop_first(), i - 1);
    }
}

/// The content length never exceeds the buffer length.
pub proof fn lemma_content_len_le(s: Seq<char>)
    ensures
        content_len(s) <= s.len(),
    decreases s.len(),
{
    if s.len() != 0 && s.first() != '\0' {
        lemma_content_len_le(s.drop_first());
    }
}

/// The digits of a sequence split at any position are the digits of the
/// head character followed by the digits of the rest.
pub proof fn lemma_digits_of_skip(s: Seq<char>, i: int)
    requires
        0 <= i < s.len(),
    ensures
        digits_of(s.skip(i)) == char_digits(s[i]) + digits_of(s.skip(i + 1)),
{
    assert(s.skip(i).first() == s[i]);
    assert(s.skip(i).drop_first() =~= s.skip(i + 1));
    assert(digits_of(s.skip(i)) == char_digits(s.skip(i).first()) + digits_of(
        s.skip(i).drop_first(),
    ));
}

/// One digit at the front of the numeral performs one fold step.
pub proof fn lemma_mod97_acc_digit(d: u8, rest: Seq<u8>, acc: nat)
    ensures
        mod97_acc(seq![d] + rest, acc) == mod97_acc(rest, ((acc * 10 + d) % 97) as nat),
{
    assert((seq![d] + rest).first() == d);
    assert((seq![d] + rest).drop_first() =~= rest);
}

/// Two digits at the front of the numeral perform two fold steps.
pub proof fn lemma_mod97_acc_two_digits(d1: u8, d2: u8, rest: Seq<u8>, acc: nat)
    ensures
        mod97_acc(seq![d1, d2] + rest, acc) == mod97_acc(
            rest,
            ((((acc * 10 + d1) % 97) * 10 + d2) % 97) as nat,
        ),
{
    assert(seq![d1, d2] + rest =~= seq![d1] + (seq![d2] + rest));
    lemma_mod97_acc_digit(d1, seq![d2] + rest, acc);
    lemma_mod97_acc_digit(d2, rest, ((acc * 10 + d1) % 97) as nat);
}

/// Folding a concatenation of digit strings folds the pieces in order.
pub proof fn lemma_mod97_acc_append(d: Seq<u8>, e: Seq<u8>, acc: nat)
    ensures
        mod97_acc(d + e, acc) == mod97_acc(e, mod97_acc(d, acc)),
    decreases d.len(),
{
    if d.len() == 0 {
        assert(d + e =~= e);
    } else {
        assert((d + e).first() == d.first());
        assert((d + e).drop_first() =~= d.drop_first() + e);
        lemma_mod97_acc_append(d.drop_first(), e, ((acc * 10 + d.first()) % 97) as nat);
    }
}

} // verus!
