//! Field coercion: from the raw text of a table cell to a typed value.
//!
//! Every conversion is a pure function of the text. A text that does not follow the field's
//! grammar is rejected with a [`DecodeError`]; nothing is repaired or guessed.

use vstd::prelude::*;
use vstd::string::*;
use crate::text::{
    all_digits, chars_of, digit_of, digits_value, ends_with, has_suffix, is_digit,
    lemma_digits_value_grows,
};

verus! {

/// Why a page could not be decoded.
#[derive(Clone, Copy, Debug, PartialEq, Eq, Structural)]
pub enum DecodeError {
    /// A counter cell is not a non-negative base-10 integer within range.
    MalformedCount,
    /// A duration cell does not read `<hours>h <minutes>min` or `<minutes>min`.
    MalformedDuration,
    /// A distance cell does not read `<decimal>km`.
    MalformedDistance,
    /// A marker element of a header cell carries no class token.
    UnexpectedMarkup,
    /// The page is longer than the parser can take.
    OversizedMarkup,
}

/// Text of the unit that ends a duration.
pub const MINUTES_SUFFIX: &'static str = "min";

/// Text that ends the hours segment of a duration.
pub const HOURS_MARKER: &'static str = "h ";

/// Text of the unit that ends a distance.
pub const DISTANCE_SUFFIX: &'static str = "km";

/// The counter that `text` denotes: a non-empty string of decimal digits whose value fits the
/// counter type. Signs, blanks and any other character make the text malformed.
pub open spec fn count_of(text: Seq<char>) -> Option<int> {
    if text.len() > 0 && all_digits(text) && digits_value(text) <= i128::MAX {
        Some(digits_value(text) as int)
    } else {
        None
    }
}

/// Whether the hours marker stands at position `k` of `s`.
pub open spec fn hours_marker_at(s: Seq<char>, k: int) -> bool {
    0 <= k && k + 2 <= s.len() && s[k] == 'h' && s[k + 1] == ' '
}

/// The first position at or after `from` where the hours marker stands, or `s.len()` when
/// there is none.
pub open spec fn hours_marker_from(s: Seq<char>, from: int) -> int
    decreases s.len() - from,
{
    if from < 0 || from + 2 > s.len() {
        s.len() as int
    } else if hours_marker_at(s, from) {
        from
    } else {
        hours_marker_from(s, from + 1)
    }
}

/// The minutes in `hours` hours and `minutes` minutes, if the total is within range.
pub open spec fn total_minutes(hours: int, minutes: int) -> Option<int> {
    if minutes + hours * 60 <= i128::MAX {
        Some(minutes + hours * 60)
    } else {
        None
    }
}

/// The minutes that the duration `text` denotes.
///
/// The text must end with the minutes unit. What stands before the unit is split at the first
/// hours marker: a counter of hours before it and a counter of minutes after it; without a
/// marker the whole is a counter of minutes.
pub open spec fn duration_of(text: Seq<char>) -> Option<int> {
    if !ends_with(text, MINUTES_SUFFIX@) {
        None
    } else {
        let body = text.take(text.len() - MINUTES_SUFFIX@.len());
        let cut = hours_marker_from(body, 0);
        if cut == body.len() {
            count_of(body)
        } else {
            match (count_of(body.take(cut)), count_of(body.skip(cut + 2))) {
                (Some(hours), Some(minutes)) => total_minutes(hours, minutes),
                _ => None,
            }
        }
    }
}

/// Whether `s` is a plain decimal numeral: digits with at most one decimal point among them,
/// and at least one digit. There is no sign and no exponent.
pub open spec fn is_numeral(s: Seq<char>) -> bool {
    &&& forall|i: int| 0 <= i < s.len() ==> is_digit(#[trigger] s[i]) || s[i] == '.'
    &&& forall|i: int, j: int|
        0 <= i < j < s.len() ==> !(#[trigger] s[i] == '.' && #[trigger] s[j] == '.')
    &&& exists|i: int| 0 <= i < s.len() && is_digit(#[trigger] s[i])
}

/// The numeral of the distance `text`: what stands before the distance unit, which must be a
/// plain decimal numeral.
pub open spec fn numeral_of(text: Seq<char>) -> Option<Seq<char>> {
    if ends_with(text, DISTANCE_SUFFIX@) && is_numeral(
        text.take(text.len() - DISTANCE_SUFFIX@.len()),
    ) {
        Some(text.take(text.len() - DISTANCE_SUFFIX@.len()))
    } else {
        None
    }
}

/// Whether `c` is white space.
pub open spec fn is_space(c: char) -> bool {
    ||| c == ' '
    ||| '\u{9}' <= c <= '\u{d}'
    ||| c == '\u{85}'
    ||| c == '\u{a0}'
    ||| c == '\u{1680}'
    ||| '\u{2000}' <= c <= '\u{200a}'
    ||| c == '\u{2028}'
    ||| c == '\u{2029}'
    ||| c == '\u{202f}'
    ||| c == '\u{205f}'
    ||| c == '\u{3000}'
}

/// `s` without its leading white space.
pub open spec fn trim_start(s: Seq<char>) -> Seq<char>
    decreases s.len(),
{
    if s.len() > 0 && is_space(s.first()) {
        trim_start(s.drop_first())
    } else {
        s
    }
}

/// `s` without its trailing white space.
pub open spec fn trim_end(s: Seq<char>) -> Seq<char>
    decreases s.len(),
{
    if s.len() > 0 && is_space(s.last()) {
        trim_end(s.drop_last())
    } else {
        s
    }
}

/// `s` without its leading and trailing white space.
pub open spec fn trimmed(s: Seq<char>) -> Seq<char> {
    trim_end(trim_start(s))
}

/// The counter denoted by the characters from `from` up to `to`.
fn count_in(chars: &Vec<char>, from: usize, to: usize) -> (count: Option<i128>)
    requires
        from <= to <= chars.len(),
    ensures
        match count {
            Some(n) => count_of(chars@.subrange(from as int, to as int)) == Some(n as int),
            None => count_of(chars@.subrange(from as int, to as int)) is None,
        },
{
    let ghost whole = chars@.subrange(from as int, to as int);
    if from == to {
        return None;
    }
    let mut acc: i128 = 0;
    let mut i: usize = from;
    while i < to
        invariant
            from <= i <= to <= chars.len(),
            whole == chars@.subrange(from as int, to as int),
            all_digits(whole.take(i - from)),
            acc == digits_value(whole.take(i - from)),
            0 <= acc,
        decreases to - i,
    {
        let ghost seen = whole.take(i - from);
        let ghost next = whole.take(i + 1 - from);
        proof {
            assert(next.drop_last() == seen);
            assert(whole[i - from] == chars@[i as int]);
        }
        match digit_of(chars[i]) {
            None => {
                return None;
            },
            Some(d) => {
                assert(all_digits(next)) by {
                    assert forall|j: int| 0 <= j < next.len() implies is_digit(
                        #[trigger] next[j],
                    ) by {
                        if j < seen.len() {
                            assert(next[j] == seen[j]);
                        }
                    }
                }
                if acc > (i128::MAX - d as i128) / 10 {
                    proof {
                        if all_digits(whole) {
                            lemma_digits_value_grows(whole, i + 1 - from);
                        }
                    }
                    return None;
                }
                acc = acc * 10 + d as i128;
            },
        }
        i += 1;
    }
    assert(whole.take(to - from) == whole);
    Some(acc)
}

/// Decodes a counter cell.
pub fn parse_count(text: &str) -> (count: Result<i128, DecodeError>)
    ensures
        match count {
            Ok(n) => count_of(text@) == Some(n as int),
            Err(e) => count_of(text@) is None && e == DecodeError::MalformedCount,
        },
{
    let chars: Vec<char> = chars_of(text);
    assert(chars@.subrange(0, chars@.len() as int) == chars@);
    match count_in(&chars, 0, chars.len()) {
        Some(n) => Ok(n),
        None => Err(DecodeError::MalformedCount),
    }
}

/// Decodes a duration cell into minutes.
pub fn parse_duration(text: &str) -> (minutes: Result<i128, DecodeError>)
    ensures
        match minutes {
            Ok(n) => duration_of(text@) == Some(n as int),
            Err(e) => duration_of(text@) is None && e == DecodeError::MalformedDuration,
        },
{
    let chars: Vec<char> = chars_of(text);
    proof {
        reveal_strlit("min");
    }
    if !has_suffix(&chars, MINUTES_SUFFIX) {
        return Err(DecodeError::MalformedDuration);
    }
    let end: usize = chars.len() - 3;
    let ghost body = text@.take(end as int);
    let mut cut: usize = 0;
    while end - cut >= 2 && !(chars[cut] == 'h' && chars[cut + 1] == ' ')
        invariant
            cut <= end,
            end <= chars.len(),
            chars@ == text@,
            body == text@.take(end as int),
            hours_marker_from(body, 0) == hours_marker_from(body, cut as int),
        decreases end - cut,
    {
        cut += 1;
    }
    if end - cut < 2 {
        return match count_in(&chars, 0, end) {
            Some(n) => Ok(n),
            None => Err(DecodeError::MalformedDuration),
        };
    }
    assert(chars@.subrange(0, cut as int) == body.take(cut as int));
    assert(chars@.subrange(cut + 2, end as int) == body.skip(cut + 2));
    let hours: i128 = match count_in(&chars, 0, cut) {
        Some(n) => n,
        None => {
            return Err(DecodeError::MalformedDuration);
        },
    };
    let minutes: i128 = match count_in(&chars, cut + 2, end) {
        Some(n) => n,
        None => {
            return Err(DecodeError::MalformedDuration);
        },
    };
    if hours > (i128::MAX - minutes) / 60 {
        return Err(DecodeError::MalformedDuration);
    }
    Ok(minutes + hours * 60)
}

/// A non-negative distance in kilometres, held as the plain decimal numeral that was read.
#[derive(Debug, PartialEq, Eq)]
pub struct Distance {
    numeral: String,
}

impl View for Distance {
    type V = Seq<char>;

    /// The numeral of the distance.
    closed spec fn view(&self) -> Seq<char> {
        self.numeral@
    }
}

impl Clone for Distance {
    fn clone(&self) -> (copy: Distance)
        ensures
            copy@ == self@,
    {
        proof {
            use_type_invariant(self);
        }
        Distance { numeral: self.numeral.clone() }
    }
}

impl Distance {
    #[verifier::type_invariant]
    spec fn well_formed(self) -> bool {
        is_numeral(self.numeral@)
    }

    /// The distance zero.
    pub fn zero() -> (distance: Distance)
        ensures
            distance@ == "0"@,
    {
        proof {
            reveal_strlit("0");
        }
        let numeral: String = String::from_str("0");
        assert(is_digit(numeral@[0]));
        Distance { numeral }
    }

    /// The numeral of the distance, which is always a plain decimal numeral.
    pub fn numeral(&self) -> (text: &str)
        ensures
            text@ == self@,
            is_numeral(text@),
    {
        proof {
            use_type_invariant(self);
        }
        self.numeral.as_str()
    }
}

/// Decodes a distance cell.
pub fn parse_distance(text: &str) -> (distance: Result<Distance, DecodeError>)
    ensures
        match distance {
            Ok(d) => numeral_of(text@) == Some(d@),
            Err(e) => numeral_of(text@) is None && e == DecodeError::MalformedDistance,
        },
{
    let chars: Vec<char> = chars_of(text);
    proof {
        reveal_strlit("km");
    }
    if !has_suffix(&chars, DISTANCE_SUFFIX) {
        return Err(DecodeError::MalformedDistance);
    }
    let end: usize = chars.len() - 2;
    let ghost body = text@.take(end as int);
    let mut seen_point: bool = false;
    let mut seen_digit: bool = false;
    let ghost mut point_at: int = 0;
    let ghost mut digit_at: int = 0;
    let mut i: usize = 0;
    while i < end
        invariant
            i <= end <= chars.len(),
            chars@ == text@,
            body == text@.take(end as int),
            body == text@.take(text@.len() - DISTANCE_SUFFIX@.len()),
            forall|j: int| 0 <= j < i ==> is_digit(#[trigger] body[j]) || body[j] == '.',
            forall|a: int, b: int|
                0 <= a < b < i ==> !(#[trigger] body[a] == '.' && #[trigger] body[b] == '.'),
            seen_point ==> 0 <= point_at < i && body[point_at] == '.',
            !seen_point ==> forall|j: int| 0 <= j < i ==> #[trigger] body[j] != '.',
            seen_digit ==> 0 <= digit_at < i && is_digit(body[digit_at]),
            !seen_digit ==> forall|j: int| 0 <= j < i ==> !is_digit(#[trigger] body[j]),
        decreases end - i,
    {
        let c: char = chars[i];
        if c == '.' {
            if seen_point {
                assert(body[point_at] == '.' && body[i as int] == '.');
                return Err(DecodeError::MalformedDistance);
            }
            seen_point = true;
            proof {
                point_at = i as int;
            }
        } else if digit_of(c).is_some() {
            seen_digit = true;
            proof {
                digit_at = i as int;
            }
        } else {
            assert(!(is_digit(body[i as int]) || body[i as int] == '.'));
            return Err(DecodeError::MalformedDistance);
        }
        i += 1;
    }
    if !seen_digit {
        return Err(DecodeError::MalformedDistance);
    }
    let numeral: String = String::from_str(text.substring_char(0, end));
    Ok(Distance { numeral })
}

/// Whether `c` is white space.
pub fn is_space_char(c: char) -> (space: bool)
    ensures
        space == is_space(c),
{
    c == ' ' || (c >= '\u{9}' && c <= '\u{d}') || c == '\u{85}' || c == '\u{a0}' || c == '\u{1680}'
        || (c >= '\u{2000}' && c <= '\u{200a}') || c == '\u{2028}' || c == '\u{2029}' || c
        == '\u{202f}' || c == '\u{205f}' || c == '\u{3000}'
}

/// Decodes a free-text cell: the text without its leading and trailing white space.
pub fn trim_text(text: &str) -> (out: String)
    ensures
        out@ == trimmed(text@),
{
    let chars: Vec<char> = chars_of(text);
    let mut start: usize = 0;
    assert(text@.skip(0) == text@);
    while start < chars.len() && is_space_char(chars[start])
        invariant
            start <= chars.len(),
            chars@ == text@,
            trim_start(text@) == trim_start(text@.skip(start as int)),
        decreases chars.len() - start,
    {
        assert(text@.skip(start as int).drop_first() == text@.skip(start + 1));
        start += 1;
    }
    let ghost rest = text@.skip(start as int);
    let mut end: usize = chars.len();
    while end > start && is_space_char(chars[end - 1])
        invariant
            start <= end <= chars.len(),
            chars@ == text@,
            trim_end(rest) == trim_end(text@.subrange(start as int, end as int)),
        decreases end - start,
    {
        assert(text@.subrange(start as int, end as int).drop_last() == text@.subrange(
            start as int,
            end - 1,
        ));
        end -= 1;
    }
    String::from_str(text.substring_char(start, end))
}

/// A string of digits holds no hours marker.
proof fn lemma_digits_hold_no_marker(s: Seq<char>, from: int)
    requires
        all_digits(s),
        0 <= from,
    ensures
        hours_marker_from(s, from) == s.len(),
    decreases s.len() - from,
{
    if from + 2 <= s.len() {
        lemma_digits_hold_no_marker(s, from + 1);
    }
}

/// Where digits are followed by the hours marker, the marker is found right after them.
proof fn lemma_marker_follows_digits(s: Seq<char>, digits: int, from: int)
    requires
        0 <= from <= digits,
        hours_marker_at(s, digits),
        forall|i: int| 0 <= i < digits ==> is_digit(#[trigger] s[i]),
    ensures
        hours_marker_from(s, from) == digits,
    decreases digits - from,
{
    if from < digits {
        lemma_marker_follows_digits(s, digits, from + 1);
    }
}

/// A duration with hours and minutes, `<h>h <m>min`, denotes `h * 60 + m` minutes, for all
/// counts `h` and `m` whose total is within range.
pub proof fn lemma_duration_of_hours_and_minutes(hours: Seq<char>, minutes: Seq<char>)
    requires
        hours.len() > 0,
        minutes.len() > 0,
        all_digits(hours),
        all_digits(minutes),
    ensures
        duration_of(hours + HOURS_MARKER@ + minutes + MINUTES_SUFFIX@) == if digits_value(hours)
            * 60 + digits_value(minutes) <= i128::MAX {
            Some((digits_value(hours) * 60 + digits_value(minutes)) as int)
        } else {
            None
        },
{
    reveal_strlit("h ");
    reveal_strlit("min");
    let text = hours + HOURS_MARKER@ + minutes + MINUTES_SUFFIX@;
    let body = hours + HOURS_MARKER@ + minutes;
    let cut = hours.len() as int;
    assert(text.subrange(text.len() - 3, text.len() as int) =~= MINUTES_SUFFIX@);
    assert(text.take(text.len() - 3) =~= body);
    assert forall|i: int| 0 <= i < cut implies is_digit(#[trigger] body[i]) by {
        assert(body[i] == hours[i]);
    }
    lemma_marker_follows_digits(body, cut, 0);
    assert(body.take(cut) =~= hours);
    assert(body.skip(cut + 2) =~= minutes);
}

/// A duration without hours, `<m>min`, denotes `m` minutes, for every count `m` within range.
pub proof fn lemma_duration_of_minutes(minutes: Seq<char>)
    requires
        minutes.len() > 0,
        all_digits(minutes),
    ensures
        duration_of(minutes + MINUTES_SUFFIX@) == if digits_value(minutes) <= i128::MAX {
            Some(digits_value(minutes) as int)
        } else {
            None
        },
{
    reveal_strlit("min");
    let text = minutes + MINUTES_SUFFIX@;
    assert(text.subrange(text.len() - 3, text.len() as int) =~= MINUTES_SUFFIX@);
    assert(text.take(text.len() - 3) =~= minutes);
    lemma_digits_hold_no_marker(minutes, 0);
}

/// A distance `<x>km` decodes to the numeral `x` itself, digit for digit, for every plain
/// decimal numeral `x`.
pub proof fn lemma_distance_keeps_numeral(numeral: Seq<char>)
    requires
        is_numeral(numeral),
    ensures
        numeral_of(numeral + DISTANCE_SUFFIX@) == Some(numeral),
{
    reveal_strlit("km");
    let text = numeral + DISTANCE_SUFFIX@;
    assert(text.subrange(text.len() - 2, text.len() as int) =~= DISTANCE_SUFFIX@);
    assert(text.take(text.len() - 2) =~= numeral);
}

} // verus!
