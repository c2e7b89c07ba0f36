//! The canonical IBAN buffer and the operations on it.

use vstd::prelude::*;
use vstd::string::StrSliceExecFns;

use crate::checksum::char_digits;
use crate::checksum::checksum_mod97;
use crate::checksum::content_len;
use crate::checksum::content_of;
use crate::checksum::digits_of;
use crate::checksum::lemma_content_len_le;
use crate::checksum::lemma_digits_of_skip;
use crate::checksum::lemma_mod97_acc_digit;
use crate::checksum::lemma_mod97_acc_two_digits;
use crate::checksum::mod97_acc;
use crate::checksum::rearranged;
use crate::checksum::spec_is_valid;
use crate::country::country_length;
use crate::country::spec_code;
use crate::country::CountryCode;
use crate::error::Error;

verus! {

/// Whether `c` is in the ASCII range.
pub open spec fn is_ascii_char(c: char) -> bool {
    (c as u32) < 128
}

/// Whether `c` may occur in a normalized IBAN: an ASCII digit or letter.
pub open spec fn is_iban_char(c: char) -> bool {
    let u = c as u32;
    (48 <= u && u <= 57) || (65 <= u && u <= 90) || (97 <= u && u <= 122)
}

/// `c` with an ASCII lowercase letter turned uppercase; anything else is
/// left as it is.
pub open spec fn spec_upper(c: char) -> char {
    if 97 <= c as u32 && c as u32 <= 122 {
        ((c as u32) - 32) as char
    } else {
        c
    }
}

/// Text input after normalization: spaces stripped, letters uppercased.
pub open spec fn spec_normalize(t: Seq<char>) -> Seq<char> {
    t.filter(|c: char| c != ' ').map_values(|c: char| spec_upper(c))
}

/// What building an IBAN from text yields: the normalized input, padded
/// to 34 slots, unless it is longer than 34 characters
/// (`WrongIBANSize`) or holds a character that is not an ASCII digit or
/// letter (`NotAnIBAN`).
pub open spec fn spec_parse_text(t: Seq<char>) -> Result<Seq<char>, Error> {
    let n = spec_normalize(t);
    if n.len() > 34 {
        Err(Error::WrongIBANSize)
    } else if exists|i: int| 0 <= i < n.len() && !is_iban_char(n[i]) {
        Err(Error::NotAnIBAN)
    } else {
        Ok(padded34(n))
    }
}

/// What building an IBAN from raw bytes yields: the bytes placed verbatim
/// and padded to 34 slots, unless there are more than 34 of them
/// (`WrongIBANSize`) or one is outside the ASCII range (`NotAnIBAN`).
pub open spec fn spec_parse_bytes(b: Seq<u8>) -> Result<Seq<char>, Error> {
    if b.len() > 34 {
        Err(Error::WrongIBANSize)
    } else if exists|i: int| 0 <= i < b.len() && b[i] >= 128 {
        Err(Error::NotAnIBAN)
    } else {
        Ok(padded34(b.map_values(|x: u8| x as char)))
    }
}

/// The low byte of a character: what the character turns into when it is
/// rendered as a single byte. For an ASCII character this is its exact
/// code; for any other character it is a garbage byte.
pub open spec fn char_low_byte(c: char) -> u8 {
    (((c as u32) % 256) as u8)
}

/// A buffer rendered as its 34 raw bytes, NUL padding included, with no
/// validation.
pub open spec fn spec_bytes_unchecked(s: Seq<char>) -> Seq<u8> {
    s.map_values(|c: char| char_low_byte(c))
}

/// A buffer rendered as its 34 raw bytes, provided every slot is ASCII;
/// `NotAnIBAN` otherwise.
pub open spec fn spec_bytes_checked(s: Seq<char>) -> Result<Seq<u8>, Error> {
    if forall|i: int| 0 <= i < s.len() ==> is_ascii_char(s[i]) {
        Ok(spec_bytes_unchecked(s))
    } else {
        Err(Error::NotAnIBAN)
    }
}

/// A buffer rendered as text: its ASCII characters with the NUL padding
/// left out.
pub open spec fn spec_to_text(s: Seq<char>) -> Seq<char> {
    s.filter(|c: char| is_ascii_char(c) && c != '\0')
}

/// What decoding the wire form yields: the 34 payload bytes loaded
/// verbatim into the 34 slots; any other payload length is
/// `WrongIBANSize`.
pub open spec fn spec_from_wire(b: Seq<u8>) -> Result<Seq<char>, Error> {
    if b.len() != 34 {
        Err(Error::WrongIBANSize)
    } else {
        Ok(b.map_values(|x: u8| x as char))
    }
}

/// Normalization handles one appended character at a time: a space is
/// dropped, anything else is uppercased and kept.
proof fn lemma_normalize_push(t: Seq<char>, c: char)
    ensures
        c == ' ' ==> spec_normalize(t.push(c)) == spec_normalize(t),
        c != ' ' ==> spec_normalize(t.push(c)) == spec_normalize(t).push(spec_upper(c)),
{
    broadcast use Seq::lemma_filter_push;

    if c == ' ' {
        assert(spec_normalize(t.push(c)) =~= spec_normalize(t));
    } else {
        assert(spec_normalize(t.push(c)) =~= spec_normalize(t).push(spec_upper(c)));
    }
}

/// Uppercases one ASCII letter.
fn upper_char(c: char) -> (r: char)
    ensures
        r == spec_upper(c),
{
    match c {
        'a' => 'A',
        'b' => 'B',
        'c' => 'C',
        'd' => 'D',
        'e' => 'E',
        'f' => 'F',
        'g' => 'G',
        'h' => 'H',
        'i' => 'I',
        'j' => 'J',
        'k' => 'K',
        'l' => 'L',
        'm' => 'M',
        'n' => 'N',
        'o' => 'O',
        'p' => 'P',
        'q' => 'Q',
        'r' => 'R',
        's' => 'S',
        't' => 'T',
        'u' => 'U',
        'v' => 'V',
        'w' => 'W',
        'x' => 'X',
        'y' => 'Y',
        'z' => 'Z',
        _ => c,
    }
}

/// Tests whether `c` is an ASCII digit or letter.
fn check_iban_char(c: char) -> (r: bool)
    ensures
        r == is_iban_char(c),
{
    let u = c as u32;
    (48 <= u && u <= 57) || (65 <= u && u <= 90) || (97 <= u && u <= 122)
}

/// A character sequence of length `n` padded with NUL to 34 slots.
pub open spec fn padded34(s: Seq<char>) -> Seq<char> {
    s + Seq::new((34 - s.len()) as nat, |i: int| '\0')
}

/// An international bank account number (IBAN).
///
/// Held as exactly 34 character slots, the maximum length of an IBAN.
/// An IBAN shorter than 34 characters leaves its trailing slots as NUL
/// padding; every constructor that validates its input puts padding only
/// after content.
#[derive(Debug)]
pub struct IBAN {
    chars: Vec<char>,
}

impl View for IBAN {
    type V = Seq<char>;

    closed spec fn view(&self) -> Seq<char> {
        self.chars@
    }
}

impl IBAN {
    #[verifier::type_invariant]
    spec fn wf(self) -> bool {
        self.chars@.len() == 34
    }

    /// Create a new IBAN with all 34 slots set to NUL.
    pub fn new() -> (r: IBAN)
        ensures
            r@ == padded34(Seq::<char>::empty()),
            content_len(r@) == 0,
    {
        let mut chars: Vec<char> = Vec::new();
        let mut i: usize = 0;
        while i < 34
            invariant
                i <= 34,
                chars@.len() == i,
                forall|k: int| 0 <= k < i ==> chars@[k] == '\0',
            decreases 34 - i,
        {
            chars.push('\0');
            i += 1;
        }
        proof {
            assert(chars@ =~= padded34(Seq::<char>::empty()));
            crate::checksum::lemma_content_len_at(chars@, 0);
        }
        IBAN { chars }
    }

    /// Create an IBAN directly from a complete 34-slot array, with no
    /// validation: the trusted-input path, used when the content is known
    /// to be well formed already.
    pub fn from_array(value: [char; 34]) -> (r: IBAN)
        ensures
            r@ == value@,
    {
        let mut chars: Vec<char> = Vec::new();
        let mut i: usize = 0;
        while i < 34
            invariant
                i <= 34,
                chars@ =~= value@.take(i as int),
            decreases 34 - i,
        {
            chars.push(value[i]);
            i += 1;
        }
        proof {
            assert(chars@ =~= value@);
        }
        IBAN { chars }
    }

    /// The slot at `index`, or `None` beyond the 34 slots.
    pub fn get(&self, index: usize) -> (r: Option<char>)
        ensures
            index < 34 ==> r == Some(self@[index as int]),
            index >= 34 ==> r is None,
    {
        proof {
            use_type_invariant(&*self);
        }
        if index < 34 {
            Some(self.chars[index])
        } else {
            None
        }
    }

    /// The length of the IBAN as it would be written: the number of slots
    /// before the first NUL padding slot.
    pub fn len(&self) -> (r: usize)
        ensures
            r == content_len(self@),
    {
        proof {
            use_type_invariant(&*self);
        }
        let mut i: usize = 0;
        while i < 34
            invariant
                i <= 34,
                self.chars@.len() == 34,
                forall|k: int| 0 <= k < i ==> self.chars@[k] != '\0',
            decreases 34 - i,
        {
            if self.chars[i] == '\0' {
                proof {
                    crate::checksum::lemma_content_len_at(self@, i as int);
                }
                return i;
            }
            i += 1;
        }
        proof {
            crate::checksum::lemma_content_len_at(self@, 34);
        }
        34
    }

    /// Builds an IBAN from text.
    ///
    /// Spaces are stripped and letters uppercased first; the result must
    /// then be at most 34 characters (`WrongIBANSize` otherwise), each an
    /// ASCII digit or letter (`NotAnIBAN` otherwise). The remaining slots
    /// are NUL padding.
    pub fn try_from(value: &str) -> (r: Result<IBAN, Error>)
        ensures
            match spec_parse_text(value@) {
                Ok(s) => r is Ok && r->Ok_0@ == s,
                Err(e) => r is Err && r->Err_0 == e,
            },
    {
        let n_chars = value.unicode_len();
        let mut norm: Vec<char> = Vec::new();
        let mut i: usize = 0;
        while i < n_chars
            invariant
                i <= n_chars,
                n_chars == value@.len(),
                norm@ == spec_normalize(value@.take(i as int)),
            decreases n_chars - i,
        {
            let c = value.get_char(i);
            proof {
                lemma_normalize_push(value@.take(i as int), value@[i as int]);
                assert(value@.take(i as int).push(value@[i as int]) =~= value@.take(i as int + 1));
            }
            if c != ' ' {
                let u = upper_char(c);
                norm.push(u);
            }
            i += 1;
        }
        proof {
            assert(value@.take(n_chars as int) =~= value@);
        }
        if norm.len() > 34 {
            return Err(Error::WrongIBANSize);
        }
        let mut chars: Vec<char> = Vec::new();
        let mut j: usize = 0;
        while j < norm.len()
            invariant
                j <= norm@.len() <= 34,
                norm@ == spec_normalize(value@),
                chars@ == norm@.take(j as int),
                forall|k: int| 0 <= k < j ==> is_iban_char(norm@[k]),
            decreases norm@.len() - j,
        {
            let c = norm[j];
            if !check_iban_char(c) {
                return Err(Error::NotAnIBAN);
            }
            chars.push(c);
            proof {
                assert(chars@ =~= norm@.take(j as int + 1));
            }
            j += 1;
        }
        proof {
            assert(chars@ =~= norm@);
        }
        while chars.len() < 34
            invariant
                norm@.len() <= chars@.len() <= 34,
                norm@ == spec_normalize(value@),
                norm@.len() <= 34,
                chars@.take(norm@.len() as int) == norm@,
                forall|k: int| norm@.len() <= k < chars@.len() ==> chars@[k] == '\0',
                forall|k: int| 0 <= k < norm@.len() ==> is_iban_char(norm@[k]),
            decreases 34 - chars@.len(),
        {
            chars.push('\0');
            proof {
                assert(chars@.take(norm@.len() as int) =~= norm@);
            }
        }
        proof {
            assert(chars@ =~= padded34(norm@));
        }
        Ok(IBAN { chars })
    }

    /// Builds an IBAN from an owned string; see [`IBAN::try_from`].
    pub fn try_from_string(value: String) -> (r: Result<IBAN, Error>)
        ensures
            match spec_parse_text(value@) {
                Ok(s) => r is Ok && r->Ok_0@ == s,
                Err(e) => r is Err && r->Err_0 == e,
            },
    {
        IBAN::try_from(value.as_str())
    }

    /// Builds an IBAN from a raw byte sequence of at most 34 bytes
    /// (`WrongIBANSize` otherwise), each within the ASCII range
    /// (`NotAnIBAN` otherwise). The bytes are placed verbatim: byte input
    /// is taken as already normalized.
    pub fn try_from_bytes(value: &[u8]) -> (r: Result<IBAN, Error>)
        ensures
            match spec_parse_bytes(value@) {
                Ok(s) => r is Ok && r->Ok_0@ == s,
                Err(e) => r is Err && r->Err_0 == e,
            },
    {
        if value.len() > 34 {
            return Err(Error::WrongIBANSize);
        }
        let mut chars: Vec<char> = Vec::new();
        let mut i: usize = 0;
        while i < value.len()
            invariant
                i <= value@.len() <= 34,
                chars@ == value@.take(i as int).map_values(|x: u8| x as char),
                forall|k: int| 0 <= k < i ==> value@[k] < 128,
            decreases value@.len() - i,
        {
            let b = value[i];
            if b >= 128 {
                return Err(Error::NotAnIBAN);
            }
            chars.push(b as char);
            proof {
                assert(chars@ =~= value@.take(i as int + 1).map_values(|x: u8| x as char));
            }
            i += 1;
        }
        proof {
            assert(chars@ =~= value@.map_values(|x: u8| x as char));
        }
        let content = chars.len();
        while chars.len() < 34
            invariant
                content == value@.len(),
                content <= chars@.len() <= 34,
                chars@.take(content as int) == value@.map_values(|x: u8| x as char),
                forall|k: int| content <= k < chars@.len() ==> chars@[k] == '\0',
            decreases 34 - chars@.len(),
        {
            chars.push('\0');
            proof {
                assert(chars@.take(content as int) =~= value@.map_values(|x: u8| x as char));
            }
        }
        proof {
            assert(chars@ =~= padded34(value@.map_values(|x: u8| x as char)));
        }
        Ok(IBAN { chars })
    }

    /// Sets the country code of the IBAN, overwriting its first two slots.
    pub fn set_country(&mut self, country: CountryCode)
        ensures
            final(self)@ == old(self)@.update(0, spec_code(country).0).update(
                1,
                spec_code(country).1,
            ),
    {
        proof {
            use_type_invariant(&*self);
        }
        let code = country.as_code();
        self.chars[0] = code.0;
        self.chars[1] = code.1;
    }

    /// The IBAN as text: its ASCII content without the NUL padding.
    pub fn to_string(&self) -> (r: String)
        ensures
            r@ == spec_to_text(self@),
    {
        proof {
            use_type_invariant(&*self);
        }
        let mut out = String::new();
        let mut i: usize = 0;
        while i < 34
            invariant
                i <= 34,
                self.chars@.len() == 34,
                out@ == spec_to_text(self@.take(i as int)),
            decreases 34 - i,
        {
            let c = self.chars[i];
            let u = c as u32;
            proof {
                broadcast use Seq::lemma_filter_push;

                assert(self@.take(i as int).push(self@[i as int]) =~= self@.take(i as int + 1));
            }
            if u < 128 && c != '\0' {
                push_char(&mut out, c);
            }
            i += 1;
        }
        proof {
            assert(self@.take(34) =~= self@);
        }
        out
    }

    /// Verifies the validity of the IBAN against the ISO 7064 MOD 97-10
    /// standard: the content must be at least four characters, exactly as
    /// long as the country length table mandates for its country code,
    /// and its rearranged digit rendering must leave remainder 1 modulo
    /// 97.
    pub fn is_valid(&self) -> (r: bool)
        ensures
            r == spec_is_valid(self@),
    {
        proof {
            use_type_invariant(&*self);
            lemma_content_len_le(self@);
        }
        let n = self.len();
        if n < 4 {
            return false;
        }
        let expected = country_length(self.chars[0], self.chars[1]);
        let length_matches = match expected {
            Some(l) => l == n,
            None => false,
        };
        if !length_matches {
            return false;
        }
        let mut re: Vec<char> = Vec::new();
        let mut i: usize = 4;
        while i < n
            invariant
                4 <= i <= n <= 34,
                n == content_len(self@),
                self.chars@.len() == 34,
                re@ == self@.subrange(4, i as int),
            decreases n - i,
        {
            re.push(self.chars[i]);
            proof {
                assert(re@ =~= self@.subrange(4, i as int + 1));
            }
            i += 1;
        }
        let mut k: usize = 0;
        while k < 4
            invariant
                k <= 4,
                4 <= n <= 34,
                n == content_len(self@),
                self.chars@.len() == 34,
                re@ == self@.subrange(4, n as int) + self@.subrange(0, k as int),
            decreases 4 - k,
        {
            re.push(self.chars[k]);
            proof {
                assert(re@ =~= self@.subrange(4, n as int) + self@.subrange(0, k as int + 1));
            }
            k += 1;
        }
        proof {
            assert(re@ =~= rearranged(content_of(self@)));
        }
        let mut rem: u64 = 0;
        let mut p: usize = 0;
        let digits = re.len();
        proof {
            assert(re@.skip(0) =~= re@);
        }
        while p < digits
            invariant
                p <= digits,
                digits == re@.len(),
                rem < 97,
                mod97_acc(digits_of(re@), 0) == mod97_acc(digits_of(re@.skip(p as int)), rem as nat),
            decreases digits - p,
        {
            let c = re[p];
            let u = c as u32;
            proof {
                lemma_digits_of_skip(re@, p as int);
            }
            if 48 <= u && u <= 57 {
                let d = (u - 48) as u64;
                proof {
                    lemma_mod97_acc_digit(
                        (u - 48) as u8,
                        digits_of(re@.skip(p as int + 1)),
                        rem as nat,
                    );
                }
                rem = (rem * 10 + d) % 97;
            } else if 65 <= u && u <= 90 {
                let v = (u - 55) as u64;
                proof {
                    lemma_mod97_acc_two_digits(
                        ((u - 55) / 10) as u8,
                        ((u - 55) % 10) as u8,
                        digits_of(re@.skip(p as int + 1)),
                        rem as nat,
                    );
                }
                rem = (rem * 10 + v / 10) % 97;
                rem = (rem * 10 + v % 10) % 97;
            } else {
                proof {
                    assert(char_digits(re@[p as int]) + digits_of(re@.skip(p as int + 1)) =~= digits_of(
                        re@.skip(p as int + 1),
                    ));
                }
            }
            p += 1;
        }
        proof {
            assert(re@.skip(digits as int) =~= Seq::<char>::empty());
            assert(checksum_mod97(rearranged(content_of(self@))) == rem as nat);
        }
        rem == 1
    }

    /// The IBAN rendered as its 34 raw bytes, NUL padding included,
    /// without sanity checks, albeit faster.
    ///
    /// No slot is checked to be ASCII: a non-ASCII character yields a
    /// garbage byte (its low byte) rather than a failure. Callers that
    /// cannot rule such content out want the checked rendering of
    /// [`crate::ToBytes::as_bytes`].
    pub fn as_bytes_unchecked(&self) -> (r: Vec<u8>)
        ensures
            r@ == spec_bytes_unchecked(self@),
    {
        proof {
            use_type_invariant(&*self);
        }
        let mut out: Vec<u8> = Vec::new();
        let mut i: usize = 0;
        while i < 34
            invariant
                i <= 34,
                self.chars@.len() == 34,
                out@ == spec_bytes_unchecked(self@.take(i as int)),
            decreases 34 - i,
        {
            let u = self.chars[i] as u32;
            out.push((u % 256) as u8);
            proof {
                assert(out@ =~= spec_bytes_unchecked(self@.take(i as int + 1)));
            }
            i += 1;
        }
        proof {
            assert(self@.take(34) =~= self@);
        }
        out
    }

    /// Decodes the fixed-width wire form: exactly 34 payload bytes,
    /// loaded verbatim into the 34 slots. Any other payload length fails
    /// with `WrongIBANSize`.
    pub fn from_wire(bytes: &[u8]) -> (r: Result<IBAN, Error>)
        ensures
            match spec_from_wire(bytes@) {
                Ok(s) => r is Ok && r->Ok_0@ == s,
                Err(e) => r is Err && r->Err_0 == e,
            },
    {
        if bytes.len() != 34 {
            return Err(Error::WrongIBANSize);
        }
        let mut chars: Vec<char> = Vec::new();
        let mut i: usize = 0;
        while i < 34
            invariant
                i <= 34,
                bytes@.len() == 34,
                chars@ == bytes@.take(i as int).map_values(|x: u8| x as char),
            decreases 34 - i,
        {
            chars.push(bytes[i] as char);
            proof {
                assert(chars@ =~= bytes@.take(i as int + 1).map_values(|x: u8| x as char));
            }
            i += 1;
        }
        proof {
            assert(chars@ =~= bytes@.map_values(|x: u8| x as char));
        }
        Ok(IBAN { chars })
    }
}

impl PartialEq for IBAN {
    /// Two IBANs are equal when all 34 of their slots agree.
    fn eq(&self, other: &IBAN) -> (r: bool) {
        proof {
            use_type_invariant(&*self);
            use_type_invariant(&*other);
        }
        let mut i: usize = 0;
        while i < 34
            invariant
                i <= 34,
                self.chars@.len() == 34,
                other.chars@.len() == 34,
                forall|k: int| 0 <= k < i ==> self.chars@[k] == other.chars@[k],
            decreases 34 - i,
        {
            if self.chars[i] != other.chars[i] {
                return false;
            }
            i += 1;
        }
        proof {
            assert(self@ =~= other@);
        }
        true
    }
}

impl vstd::std_specs::cmp::PartialEqSpecImpl for IBAN {
    open spec fn obeys_eq_spec() -> bool {
        true
    }

    open spec fn eq_spec(&self, other: &IBAN) -> bool {
        self@ == other@
    }
}

impl crate::traits::ToBytes for IBAN {
    open spec fn bytes_spec(&self) -> Result<Seq<u8>, Error> {
        spec_bytes_checked(self@)
    }

    /// The IBAN rendered as its 34 raw bytes, NUL padding included.
    /// Fails with `NotAnIBAN` when a slot is not an ASCII character.
    fn as_bytes(&self) -> (r: Result<Vec<u8>, Error>) {
        proof {
            use_type_invariant(&*self);
        }
        let mut out: Vec<u8> = Vec::new();
        let mut i: usize = 0;
        while i < 34
            invariant
                i <= 34,
                self.chars@.len() == 34,
                out@ == spec_bytes_unchecked(self@.take(i as int)),
                forall|k: int| 0 <= k < i ==> is_ascii_char(self@[k]),
            decreases 34 - i,
        {
            let u = self.chars[i] as u32;
            if u >= 128 {
                return Err(Error::NotAnIBAN);
            }
            out.push((u % 256) as u8);
            proof {
                assert(out@ =~= spec_bytes_unchecked(self@.take(i as int + 1)));
            }
            i += 1;
        }
        proof {
            assert(self@.take(34) =~= self@);
        }
        Ok(out)
    }
}

/// Relies on `String::push`: appends exactly the one given character.
#[verifier::external_body]
fn push_char(s: &mut String, c: char)
    ensures
        final(s)@ == old(s)@.push(c),
{
    s.push(c);
}

/// Uppercasing keeps a digit or letter a digit or letter.
proof fn lemma_upper_keeps_iban_char(c: char)
    requires
        is_iban_char(c),
    ensures
        is_iban_char(spec_upper(c)),
{
}

/// Every character of a normalized all-valid input is a digit or letter.
proof fn lemma_normalize_all_valid(t: Seq<char>)
    requires
        forall|i: int| 0 <= i < t.len() ==> (t[i] == ' ' || is_iban_char(#[trigger] t[i])),
    ensures
        forall|j: int|
            0 <= j < spec_normalize(t).len() ==> is_iban_char(#[trigger] spec_normalize(t)[j]),
    decreases t.len(),
{
    if t.len() == 0 {
        assert(spec_normalize(t) =~= Seq::<char>::empty());
    } else {
        let t0 = t.drop_last();
        let c = t.last();
        assert(t =~= t0.push(c));
        lemma_normalize_all_valid(t0);
        lemma_normalize_push(t0, c);
        if c != ' ' {
            lemma_upper_keeps_iban_char(c);
        }
    }
}

/// A disallowed non-space character of the input survives into the
/// normalized form.
proof fn lemma_normalize_keeps_bad_char(t: Seq<char>, i: int)
    requires
        0 <= i < t.len(),
        t[i] != ' ',
        !is_iban_char(t[i]),
    ensures
        exists|j: int|
            0 <= j < spec_normalize(t).len() && !is_iban_char(#[trigger] spec_normalize(t)[j]),
    decreases t.len(),
{
    let t0 = t.drop_last();
    let c = t.last();
    assert(t =~= t0.push(c));
    lemma_normalize_push(t0, c);
    if i == t.len() - 1 {
        let j = spec_normalize(t0).len() as int;
        assert(spec_upper(c) == c);
        assert(spec_normalize(t)[j] == c);
        assert(0 <= j < spec_normalize(t).len() && !is_iban_char(spec_normalize(t)[j]));
    } else {
        lemma_normalize_keeps_bad_char(t0, i);
        let j = choose|j: int|
            0 <= j < spec_normalize(t0).len() && !is_iban_char(spec_normalize(t0)[j]);
        assert(spec_normalize(t)[j] == spec_normalize(t0)[j]);
        assert(0 <= j < spec_normalize(t).len() && !is_iban_char(spec_normalize(t)[j]));
    }
}

/// Law: a text input whose normalized form is at most 34 characters, all
/// of them ASCII digits or letters, builds successfully, and the
/// effective length of the built buffer is exactly the normalized
/// character count.
pub proof fn lemma_valid_text_accepted(t: Seq<char>)
    requires
        spec_normalize(t).len() <= 34,
        forall|i: int| 0 <= i < t.len() ==> (t[i] == ' ' || is_iban_char(#[trigger] t[i])),
    ensures
        spec_parse_text(t) is Ok,
        content_len(spec_parse_text(t)->Ok_0) == spec_normalize(t).len(),
{
    lemma_normalize_all_valid(t);
    let n = spec_normalize(t);
    let buf = padded34(n);
    assert(forall|k: int| 0 <= k < n.len() ==> buf[k] != '\0');
    assert(n.len() == buf.len() || buf[n.len() as int] == '\0');
    crate::checksum::lemma_content_len_at(buf, n.len() as int);
}

/// Law: a text input with a disallowed character (one that is neither a
/// space nor an ASCII digit or letter) is rejected with `NotAnIBAN`,
/// provided its normalized form stays within the 34-character bound
/// (beyond that bound the size error takes precedence).
pub proof fn lemma_text_with_bad_char_rejected(t: Seq<char>, i: int)
    requires
        spec_normalize(t).len() <= 34,
        0 <= i < t.len(),
        t[i] != ' ',
        !is_iban_char(t[i]),
    ensures
        spec_parse_text(t) == Err::<Seq<char>, Error>(Error::NotAnIBAN),
{
    lemma_normalize_keeps_bad_char(t, i);
}

/// Law: a text input that normalizes to more than 34 characters is
/// rejected with `WrongIBANSize`, whatever characters it holds.
pub proof fn lemma_oversized_text_rejected(t: Seq<char>)
    requires
        spec_normalize(t).len() > 34,
    ensures
        spec_parse_text(t) == Err::<Seq<char>, Error>(Error::WrongIBANSize),
{
}

/// Law: rendering a buffer of pure ASCII content as its raw bytes and
/// building an IBAN back from those bytes restores the very same buffer.
pub proof fn lemma_bytes_round_trip(s: Seq<char>)
    requires
        s.len() == 34,
        forall|i: int| 0 <= i < s.len() ==> is_ascii_char(#[trigger] s[i]),
    ensures
        spec_parse_bytes(spec_bytes_unchecked(s)) == Ok::<Seq<char>, Error>(s),
{
    let b = spec_bytes_unchecked(s);
    assert(forall|i: int| 0 <= i < b.len() ==> #[trigger] b[i] < 128);
    lemma_low_bytes_restore_chars(s);
    assert(padded34(s) =~= s);
}

/// Reading the low bytes of ASCII characters back as characters is the
/// identity.
proof fn lemma_low_bytes_restore_chars(s: Seq<char>)
    requires
        forall|i: int| 0 <= i < s.len() ==> is_ascii_char(#[trigger] s[i]),
    ensures
        spec_bytes_unchecked(s).map_values(|x: u8| x as char) == s,
{
    let b = spec_bytes_unchecked(s);
    assert forall|i: int| 0 <= i < s.len() implies b.map_values(|x: u8| x as char)[i] == s[i] by {
        let c = s[i];
        assert((c as u32) % 256 == c as u32);
        assert(b[i] as u32 == c as u32);
        vstd::utf8::char_u32_cast(c, c as u32);
    }
    assert(b.map_values(|x: u8| x as char) =~= s);
}

/// Law: the wire rendering of a pure-ASCII buffer is its checked byte
/// rendering, and decoding that wire form restores the very same buffer.
pub proof fn lemma_wire_round_trip(s: Seq<char>)
    requires
        s.len() == 34,
        forall|i: int| 0 <= i < s.len() ==> is_ascii_char(#[trigger] s[i]),
    ensures
        spec_bytes_checked(s) == Ok::<Seq<u8>, Error>(spec_bytes_unchecked(s)),
        spec_from_wire(spec_bytes_unchecked(s)) == Ok::<Seq<char>, Error>(s),
{
    lemma_low_bytes_restore_chars(s);
}

} // verus!
