//! The XML-Schema `dateTime` primitive, read and rendered through `chrono`'s
//! RFC 3339 support. A text without a timezone is read as UTC.

use vstd::prelude::*;
use crate::text::{digit_char, chars_of, string_of};
use chrono::{Datelike, Timelike};

verus! {

/// A calendar date, a time of day and a UTC offset, as plain numbers. The
/// nanosecond reaches past one second only during a leap second, which is
/// held as second 59.
#[derive(Clone, Copy, Debug, PartialEq, Eq, Structural)]
pub struct DateTimeFields {
    pub year: i32,
    pub month: u32,
    pub day: u32,
    pub hour: u32,
    pub minute: u32,
    pub second: u32,
    pub nanosecond: u32,
    pub offset_seconds: i32,
}

pub open spec fn is_leap_year(y: int) -> bool {
    (y % 4 == 0 && y % 100 != 0) || y % 400 == 0
}

pub open spec fn days_in_month(y: int, m: int) -> int {
    if m == 2 {
        if is_leap_year(y) {
            29
        } else {
            28
        }
    } else if m == 4 || m == 6 || m == 9 || m == 11 {
        30
    } else {
        31
    }
}

impl DateTimeFields {
    /// A value that a four-digit RFC 3339 text can denote.
    pub open spec fn valid(&self) -> bool {
        &&& 0 <= self.year <= 9999
        &&& 1 <= self.month <= 12
        &&& 1 <= self.day <= days_in_month(self.year as int, self.month as int)
        &&& self.hour < 24
        &&& self.minute < 60
        &&& self.second < 60
        &&& self.nanosecond < 2_000_000_000
        &&& (self.nanosecond >= 1_000_000_000 ==> self.second == 59)
        &&& self.offset_seconds % 60 == 0
        &&& -86400 < self.offset_seconds < 86400
    }
}

pub open spec fn two_digits(n: int) -> Seq<char> {
    seq![digit_char(n / 10), digit_char(n % 10)]
}

pub open spec fn four_digits(n: int) -> Seq<char> {
    two_digits(n / 100) + two_digits(n % 100)
}

/// `n` as exactly `width` digits, with leading zeros.
pub open spec fn fixed_digits(n: int, width: nat) -> Seq<char>
    decreases width,
{
    if width == 0 {
        Seq::empty()
    } else {
        fixed_digits(n / 10, (width - 1) as nat).push(digit_char(n % 10))
    }
}

/// The fraction of a second: nothing when zero, else three, six or nine digits.
pub open spec fn fraction_text(nano: int) -> Seq<char> {
    if nano == 0 {
        Seq::empty()
    } else if nano % 1_000_000 == 0 {
        seq!['.'] + fixed_digits(nano / 1_000_000, 3)
    } else if nano % 1000 == 0 {
        seq!['.'] + fixed_digits(nano / 1000, 6)
    } else {
        seq!['.'] + fixed_digits(nano, 9)
    }
}

/// A UTC offset as a sign, hours and minutes: `+00:00`, `+06:30`, `-06:30`.
pub open spec fn offset_text(off: int) -> Seq<char> {
    let a = if off < 0 {
        -off
    } else {
        off
    };
    let minutes = a / 60;
    seq![
        if off < 0 {
            '-'
        } else {
            '+'
        },
    ] + two_digits(minutes / 60) + seq![':'] + two_digits(minutes % 60)
}

/// The RFC 3339 rendering with a numeric offset; a leap second shows as 60.
pub open spec fn rfc3339_text(f: DateTimeFields) -> Seq<char> {
    let leap = f.nanosecond >= 1_000_000_000;
    let sec = if leap {
        f.second + 1
    } else {
        f.second as int
    };
    let nano = if leap {
        f.nanosecond - 1_000_000_000
    } else {
        f.nanosecond as int
    };
    four_digits(f.year as int) + seq!['-'] + two_digits(f.month as int) + seq!['-'] + two_digits(
        f.day as int,
    ) + seq!['T'] + two_digits(f.hour as int) + seq![':'] + two_digits(f.minute as int) + seq![
        ':',
    ] + two_digits(sec) + fraction_text(nano) + offset_text(f.offset_seconds as int)
}

/// The RFC 3339 rendering of a UTC value with `Z` in place of `+00:00`.
pub open spec fn utc_z_text(f: DateTimeFields) -> Seq<char> {
    rfc3339_text(f).subrange(0, rfc3339_text(f).len() - 6).push('Z')
}

/// What `chrono` reads from an RFC 3339 text.
pub uninterp spec fn rfc3339_reading(s: Seq<char>) -> Option<DateTimeFields>;

/// Relies on `chrono::DateTime::parse_from_rfc3339` and the local date, time
/// and offset of its result. Its grammar takes a four-digit year, a valid
/// date and time, a leap second as 60, and an offset of hours and minutes
/// below 24:00; it reads `to_rfc3339`'s rendering of a valid value (see
/// `rfc3339_text`) back exactly, and reads `Z` as the offset `+00:00`.
#[verifier::external_body]
fn parse_rfc3339(s: &str) -> (r: Option<DateTimeFields>)
    ensures
        r == rfc3339_reading(s@),
        r matches Some(f) ==> f.valid(),
        forall|f: DateTimeFields| f.valid() && s@ == rfc3339_text(f) ==> r == Some(f),
        forall|f: DateTimeFields| f.valid() && f.offset_seconds == 0 && s@ == utc_z_text(f) ==> r == Some(f),
{
    chrono::DateTime::parse_from_rfc3339(s).ok().map(|d| DateTimeFields {
        year: d.year(), month: d.month(), day: d.day(), hour: d.hour(), minute: d.minute(),
        second: d.second(), nanosecond: d.nanosecond(), offset_seconds: d.offset().local_minus_utc(),
    })
}

/// Relies on `chrono::DateTime::to_rfc3339` of the value built from these
/// fields: four-digit year, two-digit fields, a fraction of 3, 6 or 9 digits
/// when not zero, and the offset as `+HH:MM` or `-HH:MM`, never `Z`.
#[verifier::external_body]
fn render_rfc3339(f: DateTimeFields) -> (r: String)
    requires
        f.valid(),
    ensures
        r@ == rfc3339_text(f),
{
    let date = chrono::NaiveDate::from_ymd_opt(f.year, f.month, f.day).unwrap();
    let time = date.and_hms_nano_opt(f.hour, f.minute, f.second, f.nanosecond).unwrap();
    let offset = chrono::FixedOffset::east_opt(f.offset_seconds).unwrap();
    time.and_local_timezone(offset).unwrap().to_rfc3339()
}

/// How often `c` occurs in `s`.
pub open spec fn count_char(s: Seq<char>, c: char) -> nat
    decreases s.len(),
{
    if s.len() == 0 {
        0
    } else {
        count_char(s.drop_last(), c) + if s.last() == c {
            1nat
        } else {
            0
        }
    }
}

/// Whether a text states its timezone: it ends in `Z`, holds a `+`, or holds
/// exactly three `-` (two in the date, one in a negative offset).
pub open spec fn states_timezone(s: Seq<char>) -> bool {
    (s.len() > 0 && s.last() == 'Z') || s.contains('+') || count_char(s, '-') == 3
}

/// The text read as RFC 3339: as it is when it states its timezone, else
/// with `Z` (UTC) appended.
pub open spec fn with_timezone(s: Seq<char>) -> Seq<char> {
    if states_timezone(s) {
        s
    } else {
        s.push('Z')
    }
}

/// A text that is not an XML-Schema date-time.
#[derive(Clone, Debug, PartialEq)]
pub struct DateTimeError {
    pub text: String,
}

/// A timezone-aware instant with its canonical RFC 3339 text.
#[derive(Clone, Debug)]
pub struct DateTime {
    fields: DateTimeFields,
    serialized: String,
}

impl PartialEq for DateTime {
    fn eq(&self, other: &DateTime) -> (r: bool) {
        self.fields == other.fields
    }
}

impl vstd::std_specs::cmp::PartialEqSpecImpl for DateTime {
    open spec fn obeys_eq_spec() -> bool {
        true
    }

    open spec fn eq_spec(&self, other: &DateTime) -> bool {
        self.fields_spec() == other.fields_spec()
    }
}

impl DateTime {
    pub closed spec fn fields_spec(&self) -> DateTimeFields {
        self.fields
    }

    pub closed spec fn text_spec(&self) -> Seq<char> {
        self.serialized@
    }

    /// The fields are valid and the text is their canonical rendering.
    pub open spec fn wf(&self) -> bool {
        self.fields_spec().valid() && self.text_spec() == rfc3339_text(self.fields_spec())
    }

    /// The date-time of these fields, with its canonical text.
    pub fn new(fields: DateTimeFields) -> (r: DateTime)
        requires
            fields.valid(),
        ensures
            r.wf(),
            r.fields_spec() == fields,
    {
        let serialized = render_rfc3339(fields);
        DateTime { fields, serialized }
    }

    /// The date, time and offset.
    pub fn as_internal(&self) -> (r: DateTimeFields)
        ensures
            r == self.fields_spec(),
    {
        self.fields
    }

    /// The canonical text: RFC 3339 with a numeric offset.
    pub fn to_string(&self) -> (r: String)
        ensures
            r@ == self.text_spec(),
    {
        self.serialized.clone()
    }

    /// Reads an XML-Schema date-time; one without a timezone is taken as UTC.
    pub fn from_str(s: &str) -> (r: Result<DateTime, DateTimeError>)
        ensures
            r is Ok <==> rfc3339_reading(with_timezone(s@)) is Some,
            r matches Ok(d) ==> d.wf() && Some(d.fields_spec()) == rfc3339_reading(
                with_timezone(s@),
            ),
            r matches Err(e) ==> e.text@ == s@,
            forall|f: DateTimeFields|
                f.valid() && s@ == rfc3339_text(f) ==> (r matches Ok(d) && d.fields_spec() == f),
            forall|f: DateTimeFields|
                f.valid() && f.offset_seconds == 0 && s@ == utc_z_text(f) ==> (r matches Ok(d) && d.fields_spec() == f),
    {
        let chars = chars_of(s);
        let full = add_missing_timezone(&chars);
        let text = string_of(&full);
        let parsed = parse_rfc3339(text.as_str());
        proof {
            assert forall|f: DateTimeFields| f.valid() && s@ == rfc3339_text(f) implies parsed
                == Some(f) by {
                lemma_canonical_states_timezone(f);
            }
            assert forall|f: DateTimeFields| f.valid() && f.offset_seconds == 0 && s@ == utc_z_text(f) implies parsed
                == Some(f) by {
                law_utc_offset_is_numeric(f);
                assert(s@.last() == 'Z');
            }
        }
        match parsed {
            Some(f) => Ok(DateTime::new(f)),
            None => Err(DateTimeError { text: String::from_str(s) }),
        }
    }

    /// Reads an XML-Schema date-time from characters.
    pub fn from_chars(s: &Vec<char>) -> (r: Result<DateTime, DateTimeError>)
        ensures
            r is Ok <==> rfc3339_reading(with_timezone(s@)) is Some,
            r matches Ok(d) ==> d.wf() && Some(d.fields_spec()) == rfc3339_reading(
                with_timezone(s@),
            ),
            r matches Err(e) ==> e.text@ == s@,
    {
        let t = string_of(s);
        DateTime::from_str(t.as_str())
    }
}

/// `s` with `Z` appended when it does not state its timezone.
pub fn add_missing_timezone(s: &Vec<char>) -> (r: Vec<char>)
    ensures
        r@ == with_timezone(s@),
{
    let mut has_plus = false;
    let mut dashes: usize = 0;
    let mut i: usize = 0;
    while i < s.len()
        invariant
            i <= s.len(),
            dashes == count_char(s@.subrange(0, i as int), '-'),
            dashes <= i,
            has_plus <==> s@.subrange(0, i as int).contains('+'),
        decreases s.len() - i,
    {
        let ghost prev = s@.subrange(0, i as int);
        let ghost next = s@.subrange(0, i + 1);
        assert(next.drop_last() =~= prev);
        if s[i] == '+' {
            has_plus = true;
            assert(next[i as int] == '+');
        }
        if s[i] == '-' {
            dashes = dashes + 1;
        }
        proof {
            if !has_plus {
                assert forall|k: int| 0 <= k < next.len() implies next[k] != '+' by {
                    if k < i {
                        assert(next[k] == prev[k]);
                    }
                }
            } else if !prev.contains('+') {
                assert(next[i as int] == '+');
            } else {
                let k = choose|k: int| 0 <= k < prev.len() && prev[k] == '+';
                assert(next[k] == '+');
            }
        }
        i = i + 1;
    }
    assert(s@.subrange(0, s.len() as int) =~= s@);
    let ends_z = s.len() > 0 && s[s.len() - 1] == 'Z';
    let mut out = s.clone();
    if !(ends_z || has_plus || dashes == 3) {
        out.push('Z');
    }
    out
}

pub proof fn lemma_count_char_append(a: Seq<char>, b: Seq<char>, c: char)
    ensures
        count_char(a + b, c) == count_char(a, c) + count_char(b, c),
    decreases b.len(),
{
    if b.len() == 0 {
        assert(a + b =~= a);
    } else {
        lemma_count_char_append(a, b.drop_last(), c);
        assert((a + b).drop_last() =~= a + b.drop_last());
    }
}

pub proof fn lemma_count_digits(n: int)
    ensures
        count_char(two_digits(n), '-') == 0,
        !two_digits(n).contains('+'),
{
    reveal_with_fuel(count_char, 3);
    let s = two_digits(n);
    assert(s.drop_last() =~= seq![digit_char(n / 10)]);
    assert(s.drop_last().drop_last() =~= Seq::<char>::empty());
    assert(!s.contains('+')) by {
        assert forall|k: int| 0 <= k < s.len() implies s[k] != '+' by {}
    }
}

pub proof fn lemma_fixed_digits(n: int, w: nat)
    ensures
        count_char(fixed_digits(n, w), '-') == 0,
        !fixed_digits(n, w).contains('+'),
        fixed_digits(n, w).len() == w,
    decreases w,
{
    if w > 0 {
        lemma_fixed_digits(n / 10, (w - 1) as nat);
        let s = fixed_digits(n, w);
        assert(s.drop_last() =~= fixed_digits(n / 10, (w - 1) as nat));
        assert(s.last() == digit_char(n % 10));
        assert forall|k: int| 0 <= k < s.len() implies s[k] != '+' by {
            if k < s.len() - 1 {
                assert(s[k] == s.drop_last()[k]);
            }
        }
    }
}

/// The canonical rendering states its timezone, so reading it adds nothing.
#[verifier::rlimit(60)]
pub proof fn lemma_canonical_states_timezone(f: DateTimeFields)
    requires
        f.valid(),
    ensures
        with_timezone(rfc3339_text(f)) == rfc3339_text(f),
{
    reveal_with_fuel(count_char, 3);
    let leap = f.nanosecond >= 1_000_000_000;
    let sec = if leap { f.second + 1 } else { f.second as int };
    let nano = if leap { f.nanosecond - 1_000_000_000 } else { f.nanosecond as int };
    let y = four_digits(f.year as int);
    let dash = seq!['-'];
    let t = seq!['T'];
    let colon = seq![':'];
    let body = y + dash + two_digits(f.month as int) + dash + two_digits(f.day as int) + t
        + two_digits(f.hour as int) + colon + two_digits(f.minute as int) + colon + two_digits(sec)
        + fraction_text(nano);
    let off = offset_text(f.offset_seconds as int);
    assert(rfc3339_text(f) =~= body + off);
    lemma_count_digits(f.year as int / 100);
    lemma_count_digits(f.year as int % 100);
    lemma_count_digits(f.month as int);
    lemma_count_digits(f.day as int);
    lemma_count_digits(f.hour as int);
    lemma_count_digits(f.minute as int);
    lemma_count_digits(sec);
    lemma_fixed_digits(nano / 1_000_000, 3);
    lemma_fixed_digits(nano / 1000, 6);
    lemma_fixed_digits(nano, 9);
    assert(count_char(dash, '-') == 1) by {
        assert(dash.drop_last() =~= Seq::<char>::empty());
    }
    assert(count_char(t, '-') == 0) by {
        assert(t.drop_last() =~= Seq::<char>::empty());
    }
    assert(count_char(colon, '-') == 0) by {
        assert(colon.drop_last() =~= Seq::<char>::empty());
    }
    assert(count_char(seq!['.'], '-') == 0) by {
        assert(seq!['.'].drop_last() =~= Seq::<char>::empty());
    }
    lemma_count_char_append(two_digits(f.year as int / 100), two_digits(f.year as int % 100), '-');
    lemma_count_char_append(y, dash, '-');
    lemma_count_char_append(y + dash, two_digits(f.month as int), '-');
    lemma_count_char_append(y + dash + two_digits(f.month as int), dash, '-');
    let through_month = y + dash + two_digits(f.month as int) + dash;
    lemma_count_char_append(through_month, two_digits(f.day as int), '-');
    let through_day = through_month + two_digits(f.day as int);
    lemma_count_char_append(through_day, t, '-');
    lemma_count_char_append(through_day + t, two_digits(f.hour as int), '-');
    let through_hour = through_day + t + two_digits(f.hour as int);
    lemma_count_char_append(through_hour, colon, '-');
    lemma_count_char_append(through_hour + colon, two_digits(f.minute as int), '-');
    let through_minute = through_hour + colon + two_digits(f.minute as int);
    lemma_count_char_append(through_minute, colon, '-');
    lemma_count_char_append(through_minute + colon, two_digits(sec), '-');
    let through_second = through_minute + colon + two_digits(sec);
    if nano != 0 {
        let digits = if nano % 1_000_000 == 0 {
            fixed_digits(nano / 1_000_000, 3)
        } else if nano % 1000 == 0 {
            fixed_digits(nano / 1000, 6)
        } else {
            fixed_digits(nano, 9)
        };
        assert(fraction_text(nano) == seq!['.'] + digits);
        lemma_count_char_append(seq!['.'], digits, '-');
    } else {
        assert(count_char(fraction_text(nano), '-') == 0);
    }
    lemma_count_char_append(through_second, fraction_text(nano), '-');
    assert(body =~= through_second + fraction_text(nano));
    assert(count_char(body, '-') == 2);
    lemma_count_char_append(body, off, '-');
    let rest = two_digits((if f.offset_seconds < 0 { -f.offset_seconds } else { f.offset_seconds as int }) / 60 / 60)
        + colon + two_digits((if f.offset_seconds < 0 { -f.offset_seconds } else { f.offset_seconds as int }) / 60 % 60);
    let a = if f.offset_seconds < 0 { -f.offset_seconds } else { f.offset_seconds as int };
    lemma_count_digits(a / 60 / 60);
    lemma_count_digits(a / 60 % 60);
    lemma_count_char_append(two_digits(a / 60 / 60), colon, '-');
    lemma_count_char_append(two_digits(a / 60 / 60) + colon, two_digits(a / 60 % 60), '-');
    let sign = if f.offset_seconds < 0 { '-' } else { '+' };
    assert(off =~= seq![sign] + rest);
    lemma_count_char_append(seq![sign], rest, '-');
    assert(count_char(seq![sign], '-') == if sign == '-' { 1nat } else { 0 }) by {
        assert(seq![sign].drop_last() =~= Seq::<char>::empty());
    }
    let full = rfc3339_text(f);
    if f.offset_seconds >= 0 {
        assert(full[body.len() as int] == '+');
    } else {
        assert(count_char(full, '-') == 3);
    }
}

/// A UTC instant renders its offset as `+00:00`, never as `Z`.
pub proof fn law_utc_offset_is_numeric(f: DateTimeFields)
    requires
        f.valid(),
        f.offset_seconds == 0,
    ensures
        rfc3339_text(f).len() >= 6,
        rfc3339_text(f).subrange(rfc3339_text(f).len() - 6, rfc3339_text(f).len() as int)
            == seq!['+', '0', '0', ':', '0', '0'],
        rfc3339_text(f).last() != 'Z',
{
    let t = rfc3339_text(f);
    let off = offset_text(0);
    assert(off =~= seq!['+', '0', '0', ':', '0', '0']);
    let body = t.subrange(0, t.len() - 6);
    assert(t =~= body + off);
}

/// A text without a timezone reads as the same text with `Z` appended.
pub proof fn law_missing_timezone_is_utc(s: Seq<char>)
    requires
        !states_timezone(s),
    ensures
        with_timezone(s) == with_timezone(s.push('Z')),
{
    assert(s.push('Z').last() == 'Z');
}

} // verus!
