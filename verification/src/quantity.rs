//! Quantities of CPU and memory, written as a number with a unit.

use crate::text::chars_of;
use vstd::prelude::*;

verus! {

/// Why a quantity string was refused.
#[derive(Clone, Copy, Debug, PartialEq, Eq, Structural)]
pub enum QuantityError {
    /// The leading run of digits and points is not a decimal number.
    InvalidNumber,
    /// What follows the number is not a unit of the resource.
    UnknownUnit,
}

pub open spec fn is_digit(c: char) -> bool {
    '0' <= c && c <= '9'
}

pub open spec fn digit_value(c: char) -> nat {
    (c as u32 - '0' as u32) as nat
}

/// A character that belongs to the number in front of a quantity's unit.
pub open spec fn is_number_char(c: char) -> bool {
    is_digit(c) || c == '.'
}

/// The index at which the run of number characters that starts at `from` ends.
pub open spec fn number_end(s: Seq<char>, from: int) -> int
    decreases s.len() - from,
{
    if 0 <= from < s.len() && is_number_char(s[from]) {
        number_end(s, from + 1)
    } else {
        from
    }
}

/// The index of the first point in `s[from..end)`, or `end` where there is none.
pub open spec fn point_index(s: Seq<char>, from: int, end: int) -> int
    decreases end - from,
{
    if from < end && s[from] != '.' {
        point_index(s, from + 1, end)
    } else {
        from
    }
}

/// Every character of `s[from..end)` is a decimal digit.
pub open spec fn all_digits(s: Seq<char>, from: int, end: int) -> bool {
    forall|i: int| from <= i < end ==> is_digit(#[trigger] s[i])
}

/// `s[0..end)` is a decimal number: digits with at most one point among
/// them, and at least one digit.
pub open spec fn is_number(s: Seq<char>, end: int) -> bool {
    let p = point_index(s, 0, end);
    &&& all_digits(s, 0, p)
    &&& all_digits(s, p + 1, end)
    &&& end - (if p < end { 1int } else { 0int }) >= 1
}

/// The number that the digits `s[from..to)` spell.
pub open spec fn digits_value(s: Seq<char>, from: int, to: int) -> nat
    decreases to - from,
{
    if to <= from {
        0
    } else {
        digits_value(s, from, to - 1) * 10 + digit_value(s[to - 1])
    }
}

/// Ten to the power of `n`.
pub open spec fn pow10(n: nat) -> nat
    decreases n,
{
    if n == 0 {
        1
    } else {
        10 * pow10((n - 1) as nat)
    }
}

/// The whole part of the number `s[0..end)`: what its digits in front of the
/// point spell.
pub open spec fn whole_part(s: Seq<char>, end: int) -> nat {
    digits_value(s, 0, point_index(s, 0, end))
}

/// How many digits of the number `s[0..end)` stand behind the point.
pub open spec fn fraction_len(s: Seq<char>, end: int) -> nat {
    let p = point_index(s, 0, end);
    if p < end {
        (end - p - 1) as nat
    } else {
        0
    }
}

/// What the digits of the number `s[0..end)` behind the point spell.
pub open spec fn fraction_part(s: Seq<char>, end: int) -> nat {
    digits_value(s, point_index(s, 0, end) + 1, end)
}

/// The number `whole + fraction / 10^places`, counted in units of which
/// `unit` make one, rounded down to a whole number of them.
pub open spec fn scaled(whole: nat, fraction: nat, places: nat, unit: nat) -> nat {
    ((whole * pow10(places) + fraction) * unit) / pow10(places)
}

/// `v`, or the largest `u64` where `v` is beyond it.
pub open spec fn saturate(v: nat) -> u64 {
    if v > u64::MAX {
        u64::MAX
    } else {
        v as u64
    }
}

/// How many bytes one of `unit` holds; `None` where `unit` is no unit of memory.
pub open spec fn memory_unit(unit: Seq<char>) -> Option<nat> {
    if unit =~= seq!['K', 'i'] {
        Some(1024nat)
    } else if unit =~= seq!['M', 'i'] {
        Some(1024nat * 1024)
    } else if unit =~= seq!['G', 'i'] {
        Some(1024nat * 1024 * 1024)
    } else if unit =~= seq!['k'] {
        Some(1000nat)
    } else if unit =~= seq!['M'] {
        Some(1000nat * 1000)
    } else if unit =~= seq!['G'] {
        Some(1000nat * 1000 * 1000)
    } else if unit.len() == 0 {
        Some(1nat)
    } else {
        None
    }
}

/// How many millicores one of `unit` holds; `None` where `unit` is no unit of CPU.
pub open spec fn cpu_unit(unit: Seq<char>) -> Option<nat> {
    if unit =~= seq!['m'] {
        Some(1nat)
    } else if unit =~= seq!['k'] {
        Some(1000nat * 1000)
    } else if unit.len() == 0 {
        Some(1000nat)
    } else {
        None
    }
}

/// What a quantity string stands for, given what its unit is worth: the
/// number is checked first, then the unit.
pub open spec fn quantity(s: Seq<char>, unit: Option<nat>) -> Result<u64, QuantityError> {
    let end = number_end(s, 0);
    if !is_number(s, end) {
        Err(QuantityError::InvalidNumber)
    } else {
        match unit {
            None => Err(QuantityError::UnknownUnit),
            Some(u) => Ok(
                saturate(
                    scaled(whole_part(s, end), fraction_part(s, end), fraction_len(s, end), u),
                ),
            ),
        }
    }
}

/// The unit of a quantity string: what follows its number.
pub open spec fn unit_of(s: Seq<char>) -> Seq<char> {
    s.skip(number_end(s, 0))
}

/// A memory quantity in bytes.
pub open spec fn memory_bytes(s: Seq<char>) -> Result<u64, QuantityError> {
    quantity(s, memory_unit(unit_of(s)))
}

/// A CPU quantity in millicores.
pub open spec fn cpu_millicores(s: Seq<char>) -> Result<u64, QuantityError> {
    quantity(s, cpu_unit(unit_of(s)))
}

/// The run of number characters at `from` ends inside the string, and holds
/// number characters only.
proof fn lemma_number_run(s: Seq<char>, from: int)
    requires
        0 <= from <= s.len(),
    ensures
        from <= number_end(s, from) <= s.len(),
        forall|i: int| from <= i < number_end(s, from) ==> is_number_char(#[trigger] s[i]),
        number_end(s, from) < s.len() ==> !is_number_char(s[number_end(s, from)]),
    decreases s.len() - from,
{
    if from < s.len() && is_number_char(s[from]) {
        lemma_number_run(s, from + 1);
    }
}

pub(crate) fn is_digit_char(c: char) -> (r: bool)
    ensures
        r == is_digit(c),
{
    '0' <= c && c <= '9'
}

fn digit_of(c: char) -> (r: u64)
    requires
        is_digit(c),
    ensures
        r == digit_value(c),
        r <= 9,
{
    (c as u32 - '0' as u32) as u64
}

/// Where the number in front of a quantity's unit ends.
fn scan_number(v: &Vec<char>) -> (end: usize)
    ensures
        end == number_end(v@, 0),
        end <= v.len(),
{
    let mut i: usize = 0;
    proof {
        lemma_number_run(v@, 0);
    }
    while i < v.len() && (is_digit_char(v[i]) || v[i] == '.')
        invariant
            i <= v.len(),
            number_end(v@, 0) == number_end(v@, i as int),
        decreases v.len() - i,
    {
        i += 1;
    }
    i
}

/// The first point among `v[0..end)`.
fn scan_point(v: &Vec<char>, end: usize) -> (p: usize)
    requires
        end <= v.len(),
        forall|i: int| 0 <= i < end ==> is_number_char(#[trigger] v@[i]),
    ensures
        p == point_index(v@, 0, end as int),
        p <= end,
        all_digits(v@, 0, p as int),
{
    let mut i: usize = 0;
    while i < end && v[i] != '.'
        invariant
            i <= end <= v.len(),
            point_index(v@, 0, end as int) == point_index(v@, i as int, end as int),
            all_digits(v@, 0, i as int),
            forall|k: int| 0 <= k < end ==> is_number_char(#[trigger] v@[k]),
        decreases end - i,
    {
        i += 1;
    }
    i
}

/// Whether `v[from..end)` holds digits only.
fn only_digits(v: &Vec<char>, from: usize, end: usize) -> (r: bool)
    requires
        end <= v.len(),
    ensures
        r == all_digits(v@, from as int, end as int),
{
    let mut i: usize = from;
    while i < end
        invariant
            end <= v.len(),
            from <= i,
            all_digits(v@, from as int, i as int),
        decreases end - i,
    {
        if !is_digit_char(v[i]) {
            return false;
        }
        i += 1;
    }
    true
}

/// The number that the digits `v[from..to)` spell, or `None` where it is beyond `u64`.
pub(crate) fn read_whole(v: &Vec<char>, from: usize, to: usize) -> (r: Option<u64>)
    requires
        from <= to <= v.len(),
        all_digits(v@, from as int, to as int),
    ensures
        match r {
            Some(n) => n == digits_value(v@, from as int, to as int),
            None => digits_value(v@, from as int, to as int) > u64::MAX,
        },
{
    let mut acc: u64 = 0;
    let mut i: usize = from;
    while i < to
        invariant
            from <= i <= to <= v.len(),
            all_digits(v@, from as int, to as int),
            acc == digits_value(v@, from as int, i as int),
        decreases to - i,
    {
        let d = digit_of(v[i]);
        let next: u128 = acc as u128 * 10 + d as u128;
        if next > u64::MAX as u128 {
            proof {
                lemma_digits_value_grows(v@, from as int, i as int + 1, to as int);
            }
            return None;
        }
        acc = next as u64;
        i += 1;
    }
    Some(acc)
}

/// Reading more digits never gives a smaller number.
proof fn lemma_digits_value_grows(s: Seq<char>, from: int, mid: int, to: int)
    requires
        from <= mid <= to,
    ensures
        digits_value(s, from, mid) <= digits_value(s, from, to),
    decreases to - mid,
{
    if mid < to {
        lemma_digits_value_grows(s, from, mid, to - 1);
    }
}

/// How many places of a fraction are read: with this many, what is dropped
/// cannot change the result for any unit.
const PLACES: usize = 30;

/// Ten to the power of `PLACES`.
const SCALE: u128 = 1_000_000_000_000_000_000_000_000_000_000;

/// The digit at place `i` of the fraction `s[from..end)`; zero beyond its end.
spec fn fraction_digit(s: Seq<char>, from: int, end: int, i: int) -> nat {
    if from + i < end {
        digit_value(s[from + i])
    } else {
        0
    }
}

/// The first `places` places of the fraction `s[from..end)`, as a number.
spec fn leading(s: Seq<char>, from: int, end: int, places: nat) -> nat
    decreases places,
{
    if places == 0 {
        0
    } else {
        leading(s, from, end, (places - 1) as nat) * 10 + fraction_digit(s, from, end, places - 1)
    }
}

proof fn lemma_pow10_positive(n: nat)
    ensures
        pow10(n) > 0,
    decreases n,
{
    if n > 0 {
        lemma_pow10_positive((n - 1) as nat);
    }
}

proof fn lemma_pow10_adds(a: nat, b: nat)
    ensures
        pow10(a + b) == pow10(a) * pow10(b),
    decreases a,
{
    if a > 0 {
        lemma_pow10_adds((a - 1) as nat, b);
        assert((a + b - 1) as nat == (a - 1) as nat + b);
        assert(pow10(a + b) == 10 * pow10((a + b - 1) as nat));
        assert(pow10(a) == 10 * pow10((a - 1) as nat));
        assert(10 * (pow10((a - 1) as nat) * pow10(b)) == (10 * pow10((a - 1) as nat)) * pow10(b))
            by (nonlinear_arith);
    } else {
        assert(pow10(a) * pow10(b) == pow10(b)) by (nonlinear_arith)
            requires
                pow10(a) == 1,
        ;
    }
}

proof fn lemma_scale()
    ensures
        pow10(PLACES as nat) == SCALE,
{
    reveal_with_fuel(pow10, 31);
}

/// The first places of a fraction are what its first digits spell, followed
/// by zeros once the digits have run out.
proof fn lemma_leading(s: Seq<char>, from: int, end: int, k: nat)
    requires
        from <= end,
    ensures
        from + k <= end ==> leading(s, from, end, k) == digits_value(s, from, from + k),
        from + k >= end ==> leading(s, from, end, k) == digits_value(s, from, end) * pow10(
            (from + k - end) as nat,
        ),
    decreases k,
{
    if k > 0 {
        lemma_leading(s, from, end, (k - 1) as nat);
        if from + k > end {
            let d = digits_value(s, from, end);
            let q = pow10((from + k - 1 - end) as nat);
            assert(pow10((from + k - end) as nat) == 10 * q);
            assert(fraction_digit(s, from, end, k - 1) == 0);
            assert(d * q * 10 == d * (10 * q)) by (nonlinear_arith);
        } else if from + k == end {
            let d = digits_value(s, from, end);
            assert(d * pow10(0) == d) by (nonlinear_arith)
                requires
                    pow10(0) == 1,
            ;
        }
    } else if from == end {
        assert(digits_value(s, from, end) * pow10(0) == 0) by (nonlinear_arith)
            requires
                digits_value(s, from, end) == 0,
        ;
    }
}

/// Digits split in two spell the first part, shifted by the length of the
/// second, plus the second part, which is less than one unit of the shift.
proof fn lemma_digits_split(s: Seq<char>, from: int, mid: int, end: int)
    requires
        from <= mid <= end,
        all_digits(s, mid, end),
    ensures
        digits_value(s, from, end) == digits_value(s, from, mid) * pow10((end - mid) as nat)
            + digits_value(s, mid, end),
        digits_value(s, mid, end) < pow10((end - mid) as nat),
    decreases end - mid,
{
    if mid < end {
        lemma_digits_split(s, from, mid, end - 1);
        let a = digits_value(s, from, mid);
        let q = pow10((end - 1 - mid) as nat);
        let t = digits_value(s, mid, end - 1);
        let d = digit_value(s[end - 1]);
        assert(is_digit(s[end - 1]));
        assert(pow10((end - mid) as nat) == 10 * q);
        assert((a * q + t) * 10 + d == a * (10 * q) + (t * 10 + d)) by (nonlinear_arith);
    } else {
        let a = digits_value(s, from, mid);
        assert(a * pow10(0) == a) by (nonlinear_arith)
            requires
                pow10(0) == 1,
        ;
    }
}

/// A number with a fraction, times a unit that divides ten to the power of
/// `PLACES`, rounded down, is the whole part times the unit plus the leading
/// places of the fraction divided by what the unit lacks to that power.
proof fn lemma_scaled(
    whole: nat,
    fraction: nat,
    places: nat,
    lead: nat,
    tail: nat,
    unit: nat,
    rest: nat,
)
    requires
        unit * rest == SCALE,
        places <= PLACES ==> lead == fraction * pow10((PLACES - places) as nat),
        places > PLACES ==> fraction == lead * pow10((places - PLACES) as nat) + tail && tail
            < pow10((places - PLACES) as nat),
    ensures
        rest > 0,
        unit > 0,
        scaled(whole, fraction, places, unit) == whole * unit + lead / rest,
{
    lemma_scale();
    lemma_pow10_positive(places);
    let p = pow10(places) as int;
    let u = unit as int;
    let c = rest as int;
    let w = whole as int;
    let f = fraction as int;
    let l = lead as int;
    assert(u > 0 && c > 0) by (nonlinear_arith)
        requires
            u * c == SCALE,
            u >= 0,
            c >= 0,
    ;
    assert((w * p + f) * u == f * u + (w * u) * p) by (nonlinear_arith);
    vstd::arithmetic::div_mod::lemma_hoist_over_denominator(f * u, w * u, p as nat);
    assert(f * u >= 0) by (nonlinear_arith)
        requires
            f >= 0,
            u >= 0,
    ;
    if places <= PLACES {
        let r = pow10((PLACES - places) as nat) as int;
        lemma_pow10_positive((PLACES - places) as nat);
        lemma_pow10_adds(places, (PLACES - places) as nat);
        assert(p * r == u * c);
        vstd::arithmetic::div_mod::lemma_div_multiples_vanish_quotient(r, f * u, p);
        vstd::arithmetic::div_mod::lemma_div_multiples_vanish_quotient(u, l, c);
        assert(r * (f * u) == u * l) by (nonlinear_arith)
            requires
                l == f * r,
        ;
        assert(r * p == u * c) by (nonlinear_arith)
            requires
                p * r == u * c,
        ;
    } else {
        let r = pow10((places - PLACES) as nat) as int;
        lemma_pow10_positive((places - PLACES) as nat);
        lemma_pow10_adds(PLACES as nat, (places - PLACES) as nat);
        assert(p == u * (r * c)) by (nonlinear_arith)
            requires
                p == (u * c) * r,
        ;
        assert(r * c > 0) by (nonlinear_arith)
            requires
                r > 0,
                c > 0,
        ;
        vstd::arithmetic::div_mod::lemma_div_multiples_vanish_quotient(u, f, r * c);
        vstd::arithmetic::div_mod::lemma_div_denominator(f, r, c);
        vstd::arithmetic::div_mod::lemma_fundamental_div_mod_converse_div(f, r, l, tail as int);
    }
}

/// The first `PLACES` places of the fraction `v[from..end)`.
fn read_fraction(v: &Vec<char>, from: usize, end: usize) -> (r: u128)
    requires
        from <= end <= v.len(),
        all_digits(v@, from as int, end as int),
    ensures
        r == leading(v@, from as int, end as int, PLACES as nat),
        r < SCALE,
{
    let mut acc: u128 = 0;
    let mut k: usize = 0;
    proof {
        lemma_scale();
    }
    while k < PLACES
        invariant
            k <= PLACES,
            from <= end <= v.len(),
            all_digits(v@, from as int, end as int),
            acc == leading(v@, from as int, end as int, k as nat),
            acc < pow10(k as nat),
            pow10(PLACES as nat) == SCALE,
        decreases PLACES - k,
    {
        let d: u64 = if k < end - from {
            digit_of(v[from + k])
        } else {
            0
        };
        proof {
            lemma_pow10_adds((k + 1) as nat, (PLACES - k - 1) as nat);
            lemma_pow10_positive((PLACES - k - 1) as nat);
            assert(pow10((k + 1) as nat) <= SCALE) by (nonlinear_arith)
                requires
                    pow10((k + 1) as nat) * pow10((PLACES - k - 1) as nat) == SCALE,
                    pow10((PLACES - k - 1) as nat) > 0,
                    pow10((k + 1) as nat) >= 0,
            ;
        }
        acc = acc * 10 + d as u128;
        k += 1;
    }
    acc
}

/// Reads the quantity `v`, one of whose units is worth `unit.0`, where
/// `unit.1` is what that lacks to ten to the power of `PLACES`.
fn read_quantity(v: &Vec<char>, end: usize, unit: Option<(u64, u128)>) -> (r: Result<
    u64,
    QuantityError,
>)
    requires
        end == number_end(v@, 0),
        unit matches Some(u) ==> u.0 * u.1 == SCALE,
    ensures
        r == quantity(
            v@,
            match unit {
                Some(u) => Some(u.0 as nat),
                None => None,
            },
        ),
{
    proof {
        lemma_number_run(v@, 0);
    }
    let p = scan_point(v, end);
    if p < end && !only_digits(v, p + 1, end) {
        return Err(QuantityError::InvalidNumber);
    }
    if end == 0 || (end == 1 && p == 0) {
        return Err(QuantityError::InvalidNumber);
    }
    let whole = read_whole(v, 0, p);
    let from: usize = if p < end {
        p + 1
    } else {
        end
    };
    let lead = read_fraction(v, from, end);
    let (u, rest) = match unit {
        Some(u) => u,
        None => {
            return Err(QuantityError::UnknownUnit);
        },
    };
    let ghost places = fraction_len(v@, end as int);
    let ghost fraction = fraction_part(v@, end as int);
    let ghost exact = scaled(whole_part(v@, end as int), fraction, places, u as nat);
    proof {
        assert(fraction == digits_value(v@, from as int, end as int));
        assert(places == end - from);
        lemma_leading(v@, from as int, end as int, PLACES as nat);
        let tail = if places > PLACES {
            digits_value(v@, from + PLACES, end as int)
        } else {
            0
        };
        if places > PLACES {
            lemma_digits_split(v@, from as int, from + PLACES, end as int);
        }
        lemma_scaled(
            whole_part(v@, end as int),
            fraction,
            places,
            lead as nat,
            tail,
            u as nat,
            rest as nat,
        );
    }
    assert(lead / rest <= u) by {
        vstd::arithmetic::div_mod::lemma_div_is_ordered(
            lead as int,
            u as int * rest as int,
            rest as int,
        );
        vstd::arithmetic::div_mod::lemma_div_by_multiple(u as int, rest as int);
    }
    match whole {
        None => {
            assert(exact > u64::MAX) by (nonlinear_arith)
                requires
                    exact == whole_part(v@, end as int) * u + lead / rest,
                    whole_part(v@, end as int) > u64::MAX,
                    u >= 1,
                    lead / rest >= 0,
            ;
            Ok(u64::MAX)
        },
        Some(w) => {
            assert(w as u128 * u as u128 <= 0xffff_ffff_ffff_ffff * 0xffff_ffff_ffff_ffff)
                by (nonlinear_arith)
                requires
                    w <= 0xffff_ffff_ffff_ffff,
                    u <= 0xffff_ffff_ffff_ffff,
            ;
            let total: u128 = w as u128 * u as u128 + lead / rest;
            if total > u64::MAX as u128 {
                Ok(u64::MAX)
            } else {
                Ok(total as u64)
            }
        },
    }
}

/// Whether `unit` is the one character `a`.
spec fn one_char(unit: Seq<char>, a: char) -> bool {
    unit.len() == 1 && unit[0] == a
}

/// Whether `unit` is the two characters `a`, `b`.
spec fn two_chars(unit: Seq<char>, a: char, b: char) -> bool {
    unit.len() == 2 && unit[0] == a && unit[1] == b
}

proof fn lemma_one_char(unit: Seq<char>, a: char)
    ensures
        (unit =~= seq![a]) == one_char(unit, a),
{
    assert(seq![a].len() == 1 && seq![a][0] == a);
}

proof fn lemma_two_chars(unit: Seq<char>, a: char, b: char)
    ensures
        (unit =~= seq![a, b]) == two_chars(unit, a, b),
{
    assert(seq![a, b].len() == 2 && seq![a, b][0] == a && seq![a, b][1] == b);
}

/// Parses a memory quantity such as `512Mi` into bytes.
///
/// The number may hold one decimal point. The units are `Ki`, `Mi`, `Gi`
/// (powers of 1024), `k`, `M`, `G` (powers of 1000) and none (bytes). What is
/// left below one byte is dropped, and a quantity beyond `u64::MAX` bytes is
/// given as `u64::MAX`.
pub fn parse_memory(s: &str) -> (r: Result<u64, QuantityError>)
    ensures
        r == memory_bytes(s@),
{
    let v = chars_of(s);
    let end = scan_number(&v);
    let n = v.len() - end;
    let ghost unit = v@.skip(end as int);
    proof {
        lemma_two_chars(unit, 'K', 'i');
        lemma_two_chars(unit, 'M', 'i');
        lemma_two_chars(unit, 'G', 'i');
        lemma_one_char(unit, 'k');
        lemma_one_char(unit, 'M');
        lemma_one_char(unit, 'G');
    }
    let worth: Option<(u64, u128)> = if n == 2 && v[end] == 'K' && v[end + 1] == 'i' {
        Some((1024, 976_562_500_000_000_000_000_000_000))
    } else if n == 2 && v[end] == 'M' && v[end + 1] == 'i' {
        Some((1024 * 1024, 953_674_316_406_250_000_000_000))
    } else if n == 2 && v[end] == 'G' && v[end + 1] == 'i' {
        Some((1024 * 1024 * 1024, 931_322_574_615_478_515_625))
    } else if n == 1 && v[end] == 'k' {
        Some((1000, 1_000_000_000_000_000_000_000_000_000))
    } else if n == 1 && v[end] == 'M' {
        Some((1000 * 1000, 1_000_000_000_000_000_000_000_000))
    } else if n == 1 && v[end] == 'G' {
        Some((1000 * 1000 * 1000, 1_000_000_000_000_000_000_000))
    } else if n == 0 {
        Some((1, 1_000_000_000_000_000_000_000_000_000_000))
    } else {
        None
    };
    read_quantity(&v, end, worth)
}

/// Parses a CPU quantity such as `250m` into millicores.
///
/// The number may hold one decimal point. The units are `m` (millicores),
/// none (cores) and `k` (thousands of cores). What is left below one
/// millicore is dropped, and a quantity beyond `u64::MAX` millicores is given
/// as `u64::MAX`.
pub fn parse_cpu(s: &str) -> (r: Result<u64, QuantityError>)
    ensures
        r == cpu_millicores(s@),
{
    let v = chars_of(s);
    let end = scan_number(&v);
    let n = v.len() - end;
    let ghost unit = v@.skip(end as int);
    proof {
        lemma_one_char(unit, 'm');
        lemma_one_char(unit, 'k');
    }
    let worth: Option<(u64, u128)> = if n == 1 && v[end] == 'm' {
        Some((1, 1_000_000_000_000_000_000_000_000_000_000))
    } else if n == 1 && v[end] == 'k' {
        Some((1000 * 1000, 1_000_000_000_000_000_000_000_000))
    } else if n == 0 {
        Some((1000, 1_000_000_000_000_000_000_000_000_000))
    } else {
        None
    };
    read_quantity(&v, end, worth)
}

} // verus!
