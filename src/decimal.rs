//! The XML-Schema `decimal` primitive: a signed mantissa with a decimal scale,
//! read and rendered through `rust_decimal`.

use vstd::prelude::*;
use crate::text::{digits_of, string_of, chars_of, is_digit, all_digits, lemma_digits_round_trip};

verus! {

/// Largest magnitude of a mantissa: 2^96 - 1.
pub const MAX_MANTISSA: i128 = 79228162514264337593543950335;

/// Largest scale: the number of digits after the point.
pub const MAX_SCALE: u32 = 28;

pub open spec fn mantissa_in_range(m: int) -> bool {
    -(MAX_MANTISSA as int) <= m <= MAX_MANTISSA as int
}

pub open spec fn decimal_in_range(m: int, k: nat) -> bool {
    mantissa_in_range(m) && k <= MAX_SCALE
}

pub open spec fn abs(m: int) -> nat {
    if m < 0 {
        (-m) as nat
    } else {
        m as nat
    }
}

pub open spec fn zeros(k: nat) -> Seq<char> {
    Seq::new(k, |i: int| '0')
}

/// The digits of |m|, padded with leading zeros to at least `k` digits.
pub open spec fn padded_digits(m: int, k: nat) -> Seq<char> {
    let d = digits_of(abs(m));
    if d.len() < k {
        zeros((k - d.len()) as nat) + d
    } else {
        d
    }
}

/// The canonical text of `m * 10^-k`: a minus sign only when negative, at
/// least one digit before the point, and exactly `k` digits after it (no
/// point when `k` is zero).
pub open spec fn decimal_text(m: int, k: nat) -> Seq<char> {
    let p = padded_digits(m, k);
    let w = p.len() - k;
    let whole = if w == 0 {
        seq!['0']
    } else {
        p.subrange(0, w)
    };
    let frac = if k == 0 {
        Seq::empty()
    } else {
        seq!['.'] + p.subrange(w, p.len() as int)
    };
    (if m < 0 {
        seq!['-']
    } else {
        Seq::empty()
    }) + whole + frac
}

/// The text after an optional leading sign.
pub open spec fn unsigned_part(s: Seq<char>) -> Seq<char> {
    if s.len() > 0 && (s[0] == '+' || s[0] == '-') {
        s.drop_first()
    } else {
        s
    }
}

/// The lexical form of a decimal: an optional sign, then digits with at
/// most one point among them, and at least one digit.
pub open spec fn decimal_lexical(s: Seq<char>) -> bool {
    let b = unsigned_part(s);
    &&& b.len() > 0
    &&& b != seq!['.']
    &&& forall|i: int| 0 <= i < b.len() ==> is_digit(#[trigger] b[i]) || b[i] == '.'
    &&& forall|i: int, j: int| 0 <= i < b.len() && 0 <= j < b.len() && #[trigger] b[i] == '.' && #[trigger] b[j] == '.' ==> i == j
}

/// Whether `s` has the lexical form of a decimal.
pub fn is_decimal_lexical(s: &Vec<char>) -> (r: bool)
    ensures
        r == decimal_lexical(s@),
{
    let start: usize = if s.len() > 0 && (s[0] == '+' || s[0] == '-') { 1 } else { 0 };
    let ghost b = unsigned_part(s@);
    assert(b =~= s@.subrange(start as int, s@.len() as int));
    if start >= s.len() {
        return false;
    }
    let mut points: usize = 0;
    let mut point_at: usize = 0;
    let mut i: usize = start;
    while i < s.len()
        invariant
            start <= i <= s.len(),
            start < s.len(),
            b == unsigned_part(s@),
            b =~= s@.subrange(start as int, s@.len() as int),
            points <= 1,
            forall|k: int| 0 <= k < i - start ==> is_digit(#[trigger] b[k]) || b[k] == '.',
            points == 0 ==> forall|k: int| 0 <= k < i - start ==> #[trigger] b[k] != '.',
            points == 1 ==> start <= point_at < i && b[point_at - start] == '.' && forall|k: int|
                0 <= k < i - start && #[trigger] b[k] == '.' ==> k == point_at - start,
        decreases s.len() - i,
    {
        let c = s[i];
        assert(b[i - start] == c);
        if c == '.' {
            if points == 1 {
                return false;
            }
            points = 1;
            point_at = i;
        } else if !('0' <= c && c <= '9') {
            return false;
        }
        i = i + 1;
    }
    if s.len() - start == 1 && points == 1 {
        assert(b =~= seq!['.']);
        return false;
    }
    assert(b.len() == s.len() - start);
    assert(b != seq!['.']) by {
        if b.len() == 1 {
            assert(b[0] != '.');
            assert(seq!['.'][0] == '.');
        } else {
            assert(seq!['.'].len() == 1);
        }
    }
    true
}

/// What `rust_decimal` reads from a text: mantissa and scale, or nothing.
pub uninterp spec fn decimal_reading(s: Seq<char>) -> Option<(int, nat)>;

/// Relies on `rust_decimal::Decimal::from_str`, `mantissa` and `scale`. A
/// parsed decimal always has a mantissa below 2^96 in magnitude and a scale of
/// at most 28. Its parser rejects the empty text and reads the canonical
/// rendering (see `decimal_text`) back exactly, with or without a leading `+`
/// on a non-negative value.
#[verifier::external_body]
fn parse_decimal(s: &str) -> (r: Option<(i128, u32)>)
    ensures
        r matches Some((m, k)) ==> decimal_reading(s@) == Some((m as int, k as nat))
            && decimal_in_range(m as int, k as nat),
        r is None ==> decimal_reading(s@) is None,
        s@.len() == 0 ==> r is None,
        forall|m: int, k: nat|
            decimal_in_range(m, k) && s@ == decimal_text(m, k) ==> r == Some(
                (m as i128, k as u32),
            ),
        forall|m: int, k: nat|
            decimal_in_range(m, k) && m >= 0 && s@ == seq!['+'] + decimal_text(m, k) ==> r
                == Some((m as i128, k as u32)),
{
    <rust_decimal::Decimal as std::str::FromStr>::from_str(s).ok().map(|d| (d.mantissa(), d.scale()))
}

/// Relies on `rust_decimal::Decimal::from_i128_with_scale` and its `Display`,
/// which writes the digits of the mantissa with the point `scale` digits from
/// the right (see `decimal_text`).
#[verifier::external_body]
fn render_decimal(m: i128, k: u32) -> (r: String)
    requires
        decimal_in_range(m as int, k as nat),
    ensures
        r@ == decimal_text(m as int, k as nat),
{
    rust_decimal::Decimal::from_i128_with_scale(m, k).to_string()
}

/// An arbitrary-precision signed decimal number `mantissa * 10^-scale`.
#[derive(Clone, Copy, Debug, PartialEq, Eq, Structural)]
pub struct Decimal {
    mantissa: i128,
    scale: u32,
}

/// A text that is not a decimal number.
#[derive(Clone, Debug, PartialEq)]
pub struct DecimalError {
    pub text: String,
}

impl Decimal {
    pub closed spec fn mantissa_spec(&self) -> int {
        self.mantissa as int
    }

    pub closed spec fn scale_spec(&self) -> nat {
        self.scale as nat
    }

    /// The mantissa is below 2^96 in magnitude and the scale at most 28.
    pub open spec fn wf(&self) -> bool {
        decimal_in_range(self.mantissa_spec(), self.scale_spec())
    }

    /// The canonical text of this number.
    pub open spec fn text_spec(&self) -> Seq<char> {
        decimal_text(self.mantissa_spec(), self.scale_spec())
    }

    /// The number `mantissa * 10^-scale`.
    pub fn new(mantissa: i128, scale: u32) -> (r: Decimal)
        requires
            decimal_in_range(mantissa as int, scale as nat),
        ensures
            r.wf(),
            r.mantissa_spec() == mantissa,
            r.scale_spec() == scale,
    {
        Decimal { mantissa, scale }
    }

    pub fn mantissa(&self) -> (r: i128)
        ensures
            r == self.mantissa_spec(),
    {
        self.mantissa
    }

    pub fn scale(&self) -> (r: u32)
        ensures
            r == self.scale_spec(),
    {
        self.scale
    }

    /// Reads a decimal: an optional sign, digits, and at most one point.
    /// Any other text is rejected.
    pub fn from_str(s: &str) -> (r: Result<Decimal, DecimalError>)
        ensures
            r is Ok <==> decimal_lexical(s@) && decimal_reading(s@) is Some,
            r matches Ok(d) ==> d.wf() && decimal_reading(s@) == Some(
                (d.mantissa_spec(), d.scale_spec()),
            ),
            r matches Err(e) ==> e.text@ == s@,
            s@.len() == 0 ==> r is Err,
            forall|d: Decimal| d.wf() && s@ == d.text_spec() ==> r == Ok::<Decimal, DecimalError>(d),
            forall|m: int, k: nat|
                decimal_in_range(m, k) && s@ == decimal_text(m, k) ==> (r matches Ok(d)
                    && d.mantissa_spec() == m && d.scale_spec() == k),
            forall|m: int, k: nat|
                decimal_in_range(m, k) && m >= 0 && s@ == seq!['+'] + decimal_text(m, k)
                    ==> (r matches Ok(d) && d.mantissa_spec() == m && d.scale_spec() == k),
    {
        let cs = chars_of(s);
        proof {
            assert forall|m: int, k: nat| decimal_in_range(m, k) && s@ == decimal_text(m, k) implies decimal_lexical(s@) by {
                lemma_decimal_text_lexical(m, k);
            }
            assert forall|m: int, k: nat| decimal_in_range(m, k) && m >= 0 && s@ == seq!['+'] + decimal_text(m, k)
                implies decimal_lexical(s@) by {
                lemma_decimal_text_lexical(m, k);
                assert(s@.drop_first() =~= decimal_text(m, k));
            }
        }
        if !is_decimal_lexical(&cs) {
            return Err(DecimalError { text: String::from_str(s) });
        }
        match parse_decimal(s) {
            Some((m, k)) => Ok(Decimal { mantissa: m, scale: k }),
            None => Err(DecimalError { text: String::from_str(s) }),
        }
    }

    /// The canonical text: no `+`, a minus sign only when negative, and as
    /// many digits after the point as the scale.
    pub fn to_string(&self) -> (r: String)
        requires
            self.wf(),
        ensures
            r@ == self.text_spec(),
    {
        render_decimal(self.mantissa, self.scale)
    }

    /// Reads a decimal from characters.
    pub fn from_chars(s: &Vec<char>) -> (r: Result<Decimal, DecimalError>)
        ensures
            r is Ok <==> decimal_lexical(s@) && decimal_reading(s@) is Some,
            r matches Ok(d) ==> d.wf() && decimal_reading(s@) == Some(
                (d.mantissa_spec(), d.scale_spec()),
            ),
            r matches Err(e) ==> e.text@ == s@,
            forall|d: Decimal| d.wf() && s@ == d.text_spec() ==> r == Ok::<Decimal, DecimalError>(d),
    {
        let t = string_of(s);
        Decimal::from_str(t.as_str())
    }
}

/// The canonical text of a decimal has the lexical form of a decimal, with
/// no leading `+`.
pub proof fn lemma_decimal_text_lexical(m: int, k: nat)
    ensures
        decimal_lexical(decimal_text(m, k)),
        decimal_text(m, k).len() > 0 && decimal_text(m, k)[0] != '+',
        m >= 0 ==> unsigned_part(seq!['+'] + decimal_text(m, k)) == decimal_text(m, k),
        m >= 0 ==> unsigned_part(decimal_text(m, k)) == decimal_text(m, k),
{
    let d = digits_of(abs(m));
    lemma_digits_round_trip(abs(m));
    let p = padded_digits(m, k);
    assert(all_digits(p)) by {
        if d.len() < k {
            let z = zeros((k - d.len()) as nat);
            assert forall|i: int| 0 <= i < p.len() implies is_digit(#[trigger] p[i]) by {
                if i < z.len() {
                    assert(p[i] == z[i]);
                } else {
                    assert(p[i] == d[i - z.len()]);
                }
            }
        }
    }
    let w = p.len() - k;
    let whole = if w == 0 { seq!['0'] } else { p.subrange(0, w) };
    let frac = if k == 0 { Seq::<char>::empty() } else { seq!['.'] + p.subrange(w, p.len() as int) };
    let body = whole + frac;
    let t = decimal_text(m, k);
    let sign = if m < 0 { seq!['-'] } else { Seq::<char>::empty() };
    assert(t =~= sign + body);
    assert(unsigned_part(t) =~= body) by {
        if m < 0 {
            assert(t[0] == '-');
            assert(t.drop_first() =~= body);
        } else {
            assert(t =~= body);
            assert(is_digit(body[0]));
        }
    }
    assert forall|i: int| 0 <= i < body.len() implies is_digit(#[trigger] body[i]) || body[i] == '.' by {
        if i < whole.len() {
            if w != 0 {
                assert(body[i] == p[i]);
            }
        } else if k != 0 {
            if i > whole.len() {
                assert(body[i] == p[w + i - whole.len() - 1]);
            }
        }
    }
    assert forall|i: int, j: int| 0 <= i < body.len() && 0 <= j < body.len() && #[trigger] body[i] == '.' && #[trigger] body[j] == '.'
        implies i == j by {
        if i != whole.len() {
            if i < whole.len() {
                if w != 0 {
                    assert(body[i] == p[i]);
                }
            } else {
                assert(body[i] == p[w + i - whole.len() - 1]);
            }
        }
        if j != whole.len() {
            if j < whole.len() {
                if w != 0 {
                    assert(body[j] == p[j]);
                }
            } else {
                assert(body[j] == p[w + j - whole.len() - 1]);
            }
        }
    }
    assert(body != seq!['.']) by {
        assert(is_digit(body[0])) by {
            if w != 0 {
                assert(body[0] == p[0]);
            }
        }
    }
    if m >= 0 {
        assert((seq!['+'] + t).drop_first() =~= t);
    }
    assert(t.len() > 0 && t[0] != '+') by {
        if m >= 0 {
            assert(t[0] == body[0]);
            assert(is_digit(body[0])) by {
                if w != 0 {
                    assert(body[0] == p[0]);
                }
            }
        }
    }
}

} // verus!
