//! Decoding of the feed's non-standard timestamp encoding.
//!
//! A timestamp arrives as `/Date(<millis><sign><4-digit-offset>)/`: an
//! epoch-millisecond count followed by the UTC offset that was in force
//! at encode time. The offset only reflects daylight-saving state and is
//! not used: the authoritative reading treats `<millis>` as a UTC instant
//! and renders it in the fixed Stockholm civil timezone.
use vstd::prelude::*;

verus! {

/// Why a timestamp field failed to decode.
#[derive(Clone, Copy, Debug, PartialEq, Eq, Structural)]
pub enum DecodeError {
    /// The text is not of the form `/Date(<millis><sign><4-digit-offset>)/`.
    PatternMismatch,
    /// The millisecond count does not fit the target integer width.
    NumericOverflow,
    /// The millisecond count fits the integer width but not the calendar.
    OutOfRange,
}

impl DecodeError {
    /// A human-readable description of the failure.
    pub fn message(&self) -> (r: String)
        ensures
            *self is PatternMismatch ==> r@ == "Invalid date string"@,
            *self is NumericOverflow ==> r@
                == "Could not parse timestamp: number too large to fit in target type"@,
            *self is OutOfRange ==> r@ == "Invalid timestamp"@,
    {
        match self {
            DecodeError::PatternMismatch => String::from_str("Invalid date string"),
            DecodeError::NumericOverflow => String::from_str(
                "Could not parse timestamp: number too large to fit in target type",
            ),
            DecodeError::OutOfRange => String::from_str("Invalid timestamp"),
        }
    }
}

/// Whether `c` is a decimal digit.
pub open spec fn is_digit(c: char) -> bool {
    48 <= c as int && c as int <= 57
}

/// The numeric value of a digit character.
pub open spec fn digit_val(c: char) -> int {
    c as int - 48
}

/// Whether every character of `s` is a decimal digit.
pub open spec fn all_digits(s: Seq<char>) -> bool {
    forall|i: int| 0 <= i < s.len() ==> is_digit(#[trigger] s[i])
}

/// The value of a digit string read in base ten.
pub open spec fn digits_value(s: Seq<char>) -> int
    decreases s.len(),
{
    if s.len() == 0 {
        0
    } else {
        digits_value(s.drop_last()) * 10 + digit_val(s.last())
    }
}

/// Whether `s` is exactly `/Date(<millis><sign><4-digit-offset>)/`,
/// with at least one millisecond digit.
pub open spec fn matches_pattern(s: Seq<char>) -> bool {
    let k = s.len() - 13;
    &&& s.len() >= 14
    &&& s.subrange(0, 6) == "/Date("@
    &&& all_digits(s.subrange(6, 6 + k))
    &&& (s[6 + k] == '+' || s[6 + k] == '-')
    &&& all_digits(s.subrange(7 + k, 11 + k))
    &&& s.subrange(11 + k, 13 + k) == ")/"@
}

/// The millisecond digits of a matching timestamp string.
pub open spec fn millis_digits(s: Seq<char>) -> Seq<char> {
    s.subrange(6, s.len() - 7)
}

/// The millisecond count encoded by a matching timestamp string.
pub open spec fn millis_value(s: Seq<char>) -> int {
    digits_value(millis_digits(s))
}

/// A digit string's value is never negative.
proof fn lemma_digits_value_nonneg(s: Seq<char>)
    requires
        all_digits(s),
    ensures
        digits_value(s) >= 0,
    decreases s.len(),
{
    if s.len() > 0 {
        assert(all_digits(s.drop_last()));
        lemma_digits_value_nonneg(s.drop_last());
    }
}

/// Reading more digits never decreases a digit string's value.
proof fn lemma_digits_value_monotone(s: Seq<char>, j: int)
    requires
        all_digits(s),
        0 <= j <= s.len(),
    ensures
        digits_value(s.take(j)) <= digits_value(s),
    decreases s.len() - j,
{
    if j == s.len() {
        assert(s.take(j) =~= s);
    } else {
        assert(s.take(j + 1).drop_last() =~= s.take(j));
        assert(s.take(j + 1).last() == s[j]);
        assert(all_digits(s.take(j)));
        lemma_digits_value_nonneg(s.take(j));
        assert(digits_value(s.take(j)) <= digits_value(s.take(j + 1)));
        lemma_digits_value_monotone(s, j + 1);
    }
}

/// The text that the Stockholm civil timezone gives to the UTC instant
/// `millis` (epoch milliseconds): date, time with milliseconds, and the
/// zone's abbreviation.
pub uninterp spec fn stockholm_rendering(millis: int) -> Seq<char>;

/// Whether the calendar can represent the UTC instant `millis` (epoch
/// milliseconds): chrono's documented in-range condition, a function of
/// `millis` alone.
pub uninterp spec fn stockholm_representable(millis: int) -> bool;

/// Relies on chrono's `DateTime::<Utc>::from_timestamp_millis`, which its
/// documentation promises is `None` exactly on an out-of-range number of
/// milliseconds, and on chrono-tz's `Europe::Stockholm` with `Display`:
/// the instant is rendered in the Stockholm civil timezone, and the whole
/// result depends on `millis` alone.
#[verifier::external_body]
fn render_stockholm(millis: i64) -> (r: Option<String>)
    ensures
        r is Some <==> stockholm_representable(millis as int),
        r is Some ==> r->0@ == stockholm_rendering(millis as int),
{
    match chrono::DateTime::from_timestamp_millis(millis) {
        Some(utc) => Some(utc.with_timezone(&chrono_tz::Europe::Stockholm).to_string()),
        None => None,
    }
}

/// A decoded record timestamp: the UTC epoch-millisecond count and its
/// rendering in the fixed target civil timezone.
pub struct Timestamp {
    pub millis: i64,
    pub rendered: String,
}

impl Timestamp {
    /// The rendering always belongs to the millisecond count.
    pub open spec fn wf(&self) -> bool {
        self.rendered@ == stockholm_rendering(self.millis as int)
    }

    /// An equal copy.
    pub fn duplicate(&self) -> (r: Timestamp)
        ensures
            r == *self,
    {
        Timestamp { millis: self.millis, rendered: self.rendered.clone() }
    }
}

/// Decodes one timestamp field.
///
/// Text that is not of the expected pattern is rejected as a pattern
/// mismatch; a millisecond count beyond `i64` is rejected as numeric
/// overflow; one that fits `i64` is decoded exactly when the calendar can
/// represent it, and rejected as out of range otherwise.
pub fn date_from_str(s: &str) -> (r: Result<Timestamp, DecodeError>)
    ensures
        !matches_pattern(s@) ==> r == Err::<Timestamp, DecodeError>(DecodeError::PatternMismatch),
        matches_pattern(s@) && millis_value(s@) > i64::MAX ==> r == Err::<Timestamp, DecodeError>(
            DecodeError::NumericOverflow,
        ),
        matches_pattern(s@) && millis_value(s@) <= i64::MAX ==> {
            &&& (r is Ok <==> stockholm_representable(millis_value(s@)))
            &&& match r {
                Ok(t) => t.wf() && t.millis as int == millis_value(s@),
                Err(e) => e == DecodeError::OutOfRange,
            }
        },
{
    proof {
        reveal_strlit("/Date(");
        reveal_strlit(")/");
    }
    let len = s.unicode_len();
    if len < 14 {
        return Err(DecodeError::PatternMismatch);
    }
    let k = len - 13;

    if !(s.get_char(0) == '/' && s.get_char(1) == 'D' && s.get_char(2) == 'a' && s.get_char(3)
        == 't' && s.get_char(4) == 'e' && s.get_char(5) == '(') {
        proof {
            assert(s@.subrange(0, 6)[0] == s@[0]);
            assert(s@.subrange(0, 6)[1] == s@[1]);
            assert(s@.subrange(0, 6)[2] == s@[2]);
            assert(s@.subrange(0, 6)[3] == s@[3]);
            assert(s@.subrange(0, 6)[4] == s@[4]);
            assert(s@.subrange(0, 6)[5] == s@[5]);
        }
        return Err(DecodeError::PatternMismatch);
    }
    proof {
        assert(s@.subrange(0, 6) =~= "/Date("@);
    }

    let sign = s.get_char(6 + k);
    if !(sign == '+' || sign == '-') {
        return Err(DecodeError::PatternMismatch);
    }

    let mut i: usize = 7 + k;
    while i < 11 + k
        invariant
            7 + k <= i <= 11 + k,
            k == len - 13,
            14 <= len == s@.len(),
            forall|j: int| 7 + k <= j < i ==> is_digit(#[trigger] s@[j]),
        decreases 11 + k - i,
    {
        let c = s.get_char(i);
        let cc = c as u32;
        if !(48 <= cc && cc <= 57) {
            proof {
                assert(!is_digit(s@.subrange(7 + k as int, 11 + k as int)[i - 7 - k]));
            }
            return Err(DecodeError::PatternMismatch);
        }
        i = i + 1;
    }
    proof {
        assert forall|j: int| 0 <= j < 4 implies is_digit(
            #[trigger] s@.subrange(7 + k as int, 11 + k as int)[j],
        ) by {
            assert(s@.subrange(7 + k as int, 11 + k as int)[j] == s@[7 + k + j]);
        }
    }

    if !(s.get_char(len - 2) == ')' && s.get_char(len - 1) == '/') {
        proof {
            assert(s@.subrange(11 + k as int, 13 + k as int)[0] == s@[11 + k]);
            assert(s@.subrange(11 + k as int, 13 + k as int)[1] == s@[12 + k]);
        }
        return Err(DecodeError::PatternMismatch);
    }
    proof {
        assert(s@.subrange(11 + k as int, 13 + k as int) =~= ")/"@);
    }

    let ghost digits = s@.subrange(6, 6 + k as int);
    let mut i: usize = 6;
    while i < 6 + k
        invariant
            6 <= i <= 6 + k,
            k == len - 13,
            14 <= len == s@.len(),
            digits == s@.subrange(6, 6 + k as int),
            forall|j: int| 6 <= j < i ==> is_digit(#[trigger] s@[j]),
        decreases 6 + k - i,
    {
        let c = s.get_char(i);
        let cc = c as u32;
        if !(48 <= cc && cc <= 57) {
            proof {
                assert(!is_digit(digits[i - 6]));
            }
            return Err(DecodeError::PatternMismatch);
        }
        i = i + 1;
    }
    proof {
        assert forall|j: int| 0 <= j < digits.len() implies is_digit(#[trigger] digits[j]) by {
            assert(digits[j] == s@[6 + j]);
        }
        assert(matches_pattern(s@));
        assert(millis_digits(s@) =~= digits);
    }

    let mut acc: i64 = 0;
    let mut i: usize = 6;
    while i < 6 + k
        invariant
            6 <= i <= 6 + k,
            k == len - 13,
            14 <= len == s@.len(),
            digits == s@.subrange(6, 6 + k as int),
            all_digits(digits),
            matches_pattern(s@),
            millis_value(s@) == digits_value(digits),
            0 <= acc,
            acc as int == digits_value(digits.take(i - 6)),
        decreases 6 + k - i,
    {
        let c = s.get_char(i);
        proof {
            assert(digits[i - 6] == s@[i as int]);
        }
        let d = (c as u32 - 48) as i64;
        proof {
            assert(digits.take(i - 6 + 1).drop_last() =~= digits.take(i - 6));
            assert(digits.take(i - 6 + 1).last() == digits[i - 6]);
        }
        if acc > (i64::MAX - d) / 10 {
            proof {
                assert(acc as int * 10 + d as int > i64::MAX);
                assert(digits_value(digits.take(i - 6 + 1)) > i64::MAX);
                lemma_digits_value_monotone(digits, i - 6 + 1);
            }
            return Err(DecodeError::NumericOverflow);
        }
        proof {
            assert(acc as int * 10 + d as int <= i64::MAX);
        }
        acc = acc * 10 + d;
        i = i + 1;
    }
    proof {
        assert(digits.take(k as int) =~= digits);
    }

    match render_stockholm(acc) {
        Some(rendered) => Ok(Timestamp { millis: acc, rendered }),
        None => Err(DecodeError::OutOfRange),
    }
}

} // verus!
