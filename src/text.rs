//! Character-level helpers shared by the codecs: conversions between `String`
//! and `Vec<char>`, and the decimal rendering and reading of integers.

use vstd::prelude::*;

verus! {

/// The character of a decimal digit.
pub open spec fn digit_char(d: int) -> char {
    if d == 0 {
        '0'
    } else if d == 1 {
        '1'
    } else if d == 2 {
        '2'
    } else if d == 3 {
        '3'
    } else if d == 4 {
        '4'
    } else if d == 5 {
        '5'
    } else if d == 6 {
        '6'
    } else if d == 7 {
        '7'
    } else if d == 8 {
        '8'
    } else {
        '9'
    }
}

pub open spec fn is_digit(c: char) -> bool {
    '0' <= c && c <= '9'
}

/// The value of a digit character.
pub open spec fn digit_value(c: char) -> int {
    c as int - '0' as int
}

/// The significant digits of `n`, most significant first; empty for zero.
pub open spec fn digits_of(n: nat) -> Seq<char>
    decreases n,
{
    if n == 0 {
        Seq::empty()
    } else {
        digits_of(n / 10).push(digit_char((n % 10) as int))
    }
}

/// The usual decimal rendering of a natural number.
pub open spec fn nat_text(n: nat) -> Seq<char> {
    if n == 0 {
        seq!['0']
    } else {
        digits_of(n)
    }
}

/// The usual decimal rendering of an integer, with a minus sign when negative.
pub open spec fn int_text(n: int) -> Seq<char> {
    if n < 0 {
        seq!['-'] + nat_text((-n) as nat)
    } else {
        nat_text(n as nat)
    }
}

/// The value of a string of digits.
pub open spec fn digits_value(s: Seq<char>) -> nat
    decreases s.len(),
{
    if s.len() == 0 {
        0
    } else {
        (digits_value(s.drop_last()) * 10 + digit_value(s.last())) as nat
    }
}

pub open spec fn all_digits(s: Seq<char>) -> bool {
    forall|i: int| 0 <= i < s.len() ==> is_digit(#[trigger] s[i])
}

/// The digits of an unsigned integer as written in XML content: an optional
/// leading `+`, then at least one digit.
pub open spec fn unsigned_digits(s: Seq<char>) -> Seq<char> {
    if s.len() > 0 && s[0] == '+' {
        s.drop_first()
    } else {
        s
    }
}

/// The unsigned integer that `s` denotes, if any, and whether it lies at most `max`.
pub open spec fn parse_unsigned(s: Seq<char>, max: nat) -> Option<nat> {
    let d = unsigned_digits(s);
    if d.len() > 0 && all_digits(d) && digits_value(d) <= max {
        Some(digits_value(d))
    } else {
        None
    }
}

/// The signed integer that `s` denotes, if any, between `-(min_abs)` and `max`:
/// an optional sign, then at least one digit.
pub open spec fn parse_signed(s: Seq<char>, min_abs: nat, max: nat) -> Option<int> {
    if s.len() > 0 && s[0] == '-' {
        let d = s.drop_first();
        if d.len() > 0 && all_digits(d) && digits_value(d) <= min_abs {
            Some(-(digits_value(d) as int))
        } else {
            None
        }
    } else {
        match parse_unsigned(s, max) {
            Some(n) => Some(n as int),
            None => None,
        }
    }
}

/// Relies on `str::chars` and `Iterator::collect`: the characters of the string, in order.
#[verifier::external_body]
pub fn chars_of(s: &str) -> (r: Vec<char>)
    ensures
        r@ == s@,
{
    s.chars().collect()
}

/// Relies on `FromIterator<&char>` for `String`: the string of those characters.
#[verifier::external_body]
pub fn string_of(v: &Vec<char>) -> (r: String)
    ensures
        r@ == v@,
{
    v.iter().collect()
}

/// Appends the characters of `s` to `out`.
pub fn push_str(out: &mut Vec<char>, s: &str)
    ensures
        final(out)@ == old(out)@ + s@,
{
    let mut v = chars_of(s);
    out.append(&mut v);
}

pub fn digit_to_char(d: u64) -> (c: char)
    requires
        d < 10,
    ensures
        c == digit_char(d as int),
{
    if d == 0 {
        '0'
    } else if d == 1 {
        '1'
    } else if d == 2 {
        '2'
    } else if d == 3 {
        '3'
    } else if d == 4 {
        '4'
    } else if d == 5 {
        '5'
    } else if d == 6 {
        '6'
    } else if d == 7 {
        '7'
    } else if d == 8 {
        '8'
    } else {
        '9'
    }
}

/// The decimal rendering of `n`.
pub fn u64_text(n: u64) -> (r: Vec<char>)
    ensures
        r@ == nat_text(n as nat),
{
    if n == 0 {
        return vec!['0'];
    }
    let mut rev: Vec<char> = Vec::new();
    let mut m: u64 = n;
    while m > 0
        invariant
            digits_of(n as nat) == digits_of(m as nat) + rev@.reverse(),
        decreases m,
    {
        let ghost before = rev@;
        rev.push(digit_to_char(m % 10));
        proof {
            assert(rev@.reverse() =~= seq![digit_char((m % 10) as int)] + before.reverse());
            assert(digits_of(m as nat) == digits_of((m / 10) as nat).push(digit_char((m % 10) as int)));
            assert(digits_of(m as nat) + before.reverse() =~= digits_of((m / 10) as nat) + rev@.reverse());
        }
        m = m / 10;
    }
    let mut out: Vec<char> = Vec::new();
    let mut i: usize = rev.len();
    while i > 0
        invariant
            i <= rev.len(),
            out@ + rev@.subrange(0, i as int).reverse() =~= rev@.reverse(),
        decreases i,
    {
        let ghost before = out@;
        out.push(rev[i - 1]);
        i = i - 1;
        proof {
            assert(rev@.subrange(0, i + 1).reverse() =~= seq![rev@[i as int]] + rev@.subrange(0, i as int).reverse());
        }
    }
    proof {
        assert(digits_of(0) =~= Seq::<char>::empty());
        assert(out@ =~= rev@.reverse());
    }
    out
}

/// The decimal rendering of a signed integer.
pub fn i64_text(n: i64) -> (r: Vec<char>)
    ensures
        r@ == int_text(n as int),
{
    if n < 0 {
        let abs: u64 = if n == i64::MIN {
            9223372036854775808u64
        } else {
            (-n) as u64
        };
        let mut out = vec!['-'];
        let mut d = u64_text(abs);
        out.append(&mut d);
        out
    } else {
        u64_text(n as u64)
    }
}

/// Reads an unsigned integer of at most `max`: an optional `+`, then digits.
pub fn read_unsigned(s: &Vec<char>, max: u64) -> (r: Option<u64>)
    ensures
        r matches Some(v) ==> parse_unsigned(s@, max as nat) == Some(v as nat),
        r is None ==> parse_unsigned(s@, max as nat) is None,
{
    let start: usize = if s.len() > 0 && s[0] == '+' {
        1
    } else {
        0
    };
    let ghost d = unsigned_digits(s@);
    assert(d =~= s@.subrange(start as int, s@.len() as int));
    if start >= s.len() {
        return None;
    }
    let mut acc: u64 = 0;
    let mut i: usize = start;
    while i < s.len()
        invariant
            start <= i <= s.len(),
            d == unsigned_digits(s@),
            d =~= s@.subrange(start as int, s@.len() as int),
            acc <= max,
            acc as nat == digits_value(s@.subrange(start as int, i as int)),
            all_digits(s@.subrange(start as int, i as int)),
        decreases s.len() - i,
    {
        let c = s[i];
        let ghost prefix = s@.subrange(start as int, i as int);
        let ghost next = s@.subrange(start as int, i + 1);
        assert(next.drop_last() =~= prefix);
        if !('0' <= c && c <= '9') {
            assert(d[i - start] == c);
            assert(!is_digit(d[i - start]));
            return None;
        }
        let dv = (c as u32 - '0' as u32) as u64;
        assert(digits_value(next) == digits_value(prefix) * 10 + dv);
        if acc > max / 10 || dv > max - acc * 10 {
            proof {
                assert(acc * 10 + dv > max) by (nonlinear_arith)
                    requires acc > max / 10 || dv > max - acc * 10, dv <= 9;
                if all_digits(d) {
                    lemma_digits_value_grows(d, i - start + 1);
                    assert(d.subrange(0, i - start + 1) =~= next);
                }
            }
            return None;
        }
        acc = acc * 10 + dv;
        i = i + 1;
        assert(all_digits(next));
    }
    assert(s@.subrange(start as int, i as int) =~= d);
    Some(acc)
}

/// The value of a string of digits never decreases as digits are appended.
pub proof fn lemma_digits_value_grows(s: Seq<char>, k: int)
    requires
        0 <= k <= s.len(),
        all_digits(s),
    ensures
        digits_value(s.subrange(0, k)) <= digits_value(s),
    decreases s.len() - k,
{
    if k < s.len() {
        lemma_digits_value_grows(s, k + 1);
        let a = s.subrange(0, k);
        let b = s.subrange(0, k + 1);
        assert(b.drop_last() =~= a);
        assert(is_digit(s[k]));
        assert(digits_value(b) == digits_value(a) * 10 + digit_value(s[k]));
    } else {
        assert(s.subrange(0, k) =~= s);
    }
}


/// Reads a signed integer between `-(min_abs)` and `max`.
pub fn read_signed(s: &Vec<char>, min_abs: u64, max: u64) -> (r: Option<i128>)
    ensures
        r matches Some(v) ==> parse_signed(s@, min_abs as nat, max as nat) == Some(v as int),
        r is None ==> parse_signed(s@, min_abs as nat, max as nat) is None,
{
    if s.len() > 0 && s[0] == '-' {
        let mut rest: Vec<char> = Vec::new();
        let mut i: usize = 1;
        while i < s.len()
            invariant
                1 <= i <= s.len(),
                rest@ == s@.subrange(1, i as int),
            decreases s.len() - i,
        {
            rest.push(s[i]);
            i = i + 1;
            assert(rest@ =~= s@.subrange(1, i as int));
        }
        assert(rest@ =~= s@.drop_first());
        if rest.len() > 0 && rest[0] == '+' {
            assert(!crate::text::is_digit(rest@[0]));
            return None;
        }
        assert(unsigned_digits(rest@) == rest@);
        match read_unsigned(&rest, min_abs) {
            Some(v) => Some(-(v as i128)),
            None => None,
        }
    } else {
        match read_unsigned(s, max) {
            Some(v) => Some(v as i128),
            None => None,
        }
    }
}

/// Reading the rendering of an integer in range gives that integer.
pub proof fn lemma_signed_round_trip(n: int, min_abs: nat, max: nat)
    requires
        -(min_abs as int) <= n <= max,
    ensures
        parse_signed(int_text(n), min_abs, max) == Some(n),
{
    if n < 0 {
        let a = (-n) as nat;
        lemma_unsigned_round_trip(a, min_abs);
        let t = int_text(n);
        assert(t.drop_first() =~= nat_text(a));
        let d = nat_text(a);
        lemma_digits_round_trip(a);
        assert(digits_of(a) == digits_of(a / 10).push(digit_char((a % 10) as int)));
        assert(d.len() > 0 && is_digit(d[0]));
        assert(unsigned_digits(d) == d);
    } else {
        lemma_unsigned_round_trip(n as nat, max);
        let t = nat_text(n as nat);
        lemma_digits_round_trip(n as nat);
        if n == 0 {
            assert(t[0] == '0');
        } else {
            assert(digits_of(n as nat) == digits_of((n / 10) as nat).push(digit_char(n % 10)));
            assert(is_digit(t[0]));
        }
    }
}

/// The digits of a number read back to that number.
pub proof fn lemma_digits_round_trip(n: nat)
    ensures
        all_digits(digits_of(n)),
        digits_value(digits_of(n)) == n,
    decreases n,
{
    if n > 0 {
        lemma_digits_round_trip(n / 10);
        let d = digits_of(n);
        assert(d.drop_last() == digits_of(n / 10));
        let r = (n % 10) as int;
        assert(digit_value(digit_char(r)) == r && is_digit(digit_char(r))) by {
            assert(0 <= r < 10);
        }
        assert forall|i: int| 0 <= i < d.len() implies is_digit(#[trigger] d[i]) by {
            if i < d.len() - 1 {
                assert(d[i] == digits_of(n / 10)[i]);
            }
        }
    }
}

/// Reading the rendering of a number of at most `max` gives that number.
pub proof fn lemma_unsigned_round_trip(n: nat, max: nat)
    requires
        n <= max,
    ensures
        parse_unsigned(nat_text(n), max) == Some(n),
{
    lemma_digits_round_trip(n);
    let t = nat_text(n);
    if n == 0 {
        assert(t.drop_last() =~= Seq::<char>::empty());
        assert(all_digits(t));
    } else {
        assert(digits_of(n) == digits_of(n / 10).push(digit_char((n % 10) as int)));
    }
    assert(t.len() > 0);
    assert(t[0] != '+') by {
        assert(is_digit(t[0]));
    }
    assert(unsigned_digits(t) == t);
}

/// The decimal rendering of a signed integer as a string.
pub fn i64_string(n: i64) -> (r: String)
    ensures
        r@ == int_text(n as int),
{
    let v = i64_text(n);
    string_of(&v)
}

/// The decimal rendering of `n` as a string.
pub fn u64_string(n: u64) -> (r: String)
    ensures
        r@ == nat_text(n as nat),
{
    let v = u64_text(n);
    string_of(&v)
}

} // verus!
