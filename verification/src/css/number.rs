//! Numbers as written in a style sheet.
//!
//! A number keeps the literal it was written as, together with the unit
//! factor it still has to be multiplied by; a consumer turns it into the
//! nearest single-precision value. What the parsers have to know about that
//! value (whether it overflows, whether it is zero, whether it is a font
//! weight) is decided here exactly, by comparing the decimal literal with the
//! rounding bounds of the single-precision format.
use crate::text;
use vstd::prelude::*;
use vstd::slice::slice_subrange;

verus! {

/// How two numbers compare.
#[derive(Clone, Copy, Debug, PartialEq, Eq, Structural)]
pub enum Order {
    Less,
    Equal,
    Greater,
}

// ---------------------------------------------------------------------------
// Decimal digits
// ---------------------------------------------------------------------------
pub open spec fn digit_value(c: char) -> nat {
    if text::is_digit(c) {
        (c as u32 - '0' as u32) as nat
    } else {
        0
    }
}

/// The natural number that a run of digits writes.
pub open spec fn nat_of(digits: Seq<char>) -> nat
    decreases digits.len(),
{
    if digits.len() == 0 {
        0
    } else {
        nat_of(digits.drop_last()) * 10 + digit_value(digits.last())
    }
}

pub open spec fn pow10(n: nat) -> nat
    decreases n,
{
    if n == 0 {
        1
    } else {
        10 * pow10((n - 1) as nat)
    }
}

pub open spec fn all_digits(s: Seq<char>) -> bool {
    forall|i: int| 0 <= i < s.len() ==> text::is_digit(#[trigger] s[i])
}

/// How `c * 10^e` and `d * 10^f` compare.
pub open spec fn order(c: nat, e: int, d: nat, f: int) -> Order {
    let low = if e <= f {
        e
    } else {
        f
    };
    let x = c * pow10((e - low) as nat);
    let y = d * pow10((f - low) as nat);
    if x < y {
        Order::Less
    } else if x == y {
        Order::Equal
    } else {
        Order::Greater
    }
}

proof fn lemma_pow10_pos(n: nat)
    ensures
        pow10(n) >= 1,
    decreases n,
{
    if n > 0 {
        lemma_pow10_pos((n - 1) as nat);
    }
}

proof fn lemma_pow10_add(a: nat, b: nat)
    ensures
        pow10(a + b) == pow10(a) * pow10(b),
    decreases a,
{
    if a > 0 {
        lemma_pow10_add((a - 1) as nat, b);
        assert(pow10(a + b) == 10 * pow10((a - 1 + b) as nat));
        assert(10 * (pow10((a - 1) as nat) * pow10(b)) == (10 * pow10((a - 1) as nat)) * pow10(b))
            by (nonlinear_arith);
    } else {
        assert(pow10(0) * pow10(b) == pow10(b)) by (nonlinear_arith)
            requires
                pow10(0) == 1,
        ;
    }
}

proof fn lemma_pow10_mono(a: nat, b: nat)
    requires
        a <= b,
    ensures
        pow10(a) <= pow10(b),
{
    lemma_pow10_add(a, (b - a) as nat);
    lemma_pow10_pos((b - a) as nat);
    lemma_pow10_pos(a);
    assert(pow10(a) <= pow10(a) * pow10((b - a) as nat)) by (nonlinear_arith)
        requires
            pow10((b - a) as nat) >= 1,
            pow10(a) >= 0,
    ;
}

proof fn lemma_nat_bound(s: Seq<char>)
    ensures
        nat_of(s) < pow10(s.len()),
    decreases s.len(),
{
    if s.len() > 0 {
        lemma_nat_bound(s.drop_last());
        assert(pow10(s.len()) == 10 * pow10((s.len() - 1) as nat));
    }
}

proof fn lemma_nat_split(s: Seq<char>, k: int)
    requires
        0 <= k <= s.len(),
    ensures
        nat_of(s) == nat_of(s.take(k)) * pow10((s.len() - k) as nat) + nat_of(s.skip(k)),
    decreases s.len(),
{
    if k == s.len() {
        assert(s.take(k) =~= s);
        assert(nat_of(s.skip(k)) == 0);
        assert(nat_of(s) * pow10(0) == nat_of(s)) by (nonlinear_arith)
            requires
                pow10(0) == 1,
        ;
    } else {
        let init = s.drop_last();
        lemma_nat_split(init, k);
        assert(init.take(k) =~= s.take(k));
        assert(init.skip(k) =~= s.skip(k).drop_last());
        assert(s.skip(k).last() == s.last());
        let p = pow10((init.len() - k) as nat);
        assert(pow10((s.len() - k) as nat) == 10 * p);
        let a = nat_of(s.take(k));
        let b = nat_of(init.skip(k));
        assert((a * p + b) * 10 == a * (10 * p) + b * 10) by (nonlinear_arith);
    }
}

/// A run of digits that starts with a nonzero one has at least the magnitude
/// of its first place.
proof fn lemma_nat_low(s: Seq<char>)
    requires
        s.len() > 0,
        text::is_digit(s[0]),
        s[0] != '0',
    ensures
        nat_of(s) >= pow10((s.len() - 1) as nat),
{
    lemma_nat_split(s, 1);
    let one = s.take(1);
    assert(one.drop_last() =~= Seq::<char>::empty());
    assert(nat_of(one) == digit_value(s[0])) by {
        reveal_with_fuel(nat_of, 2);
    }
    let p = pow10((s.len() - 1) as nat);
    assert(nat_of(one) * p >= p) by (nonlinear_arith)
        requires
            nat_of(one) >= 1,
            p >= 0,
    ;
}

proof fn lemma_leading_zero(s: Seq<char>, k: int)
    requires
        0 <= k <= s.len(),
        forall|i: int| 0 <= i < k ==> s[i] == '0',
    ensures
        nat_of(s) == nat_of(s.skip(k)),
    decreases k,
{
    lemma_nat_split(s, k);
    lemma_zeros(s.take(k));
    assert(0 * pow10((s.len() - k) as nat) == 0) by (nonlinear_arith);
}

proof fn lemma_zeros(s: Seq<char>)
    requires
        forall|i: int| 0 <= i < s.len() ==> s[i] == '0',
    ensures
        nat_of(s) == 0,
    decreases s.len(),
{
    if s.len() > 0 {
        lemma_zeros(s.drop_last());
    }
}

/// Two values of different magnitude: the number of places decides.
proof fn lemma_order_magnitude(s: Seq<char>, e: int, t: Seq<char>, f: int)
    requires
        s.len() > 0,
        t.len() > 0,
        text::is_digit(s[0]),
        s[0] != '0',
        text::is_digit(t[0]),
        t[0] != '0',
        s.len() + e < t.len() + f,
    ensures
        order(nat_of(s), e, nat_of(t), f) == Order::Less,
        order(nat_of(t), f, nat_of(s), e) == Order::Greater,
{
    let low = if e <= f {
        e
    } else {
        f
    };
    let pe = (e - low) as nat;
    let pf = (f - low) as nat;
    lemma_nat_bound(s);
    lemma_nat_low(t);
    lemma_pow10_pos(pe);
    lemma_pow10_pos(pf);
    lemma_pow10_add(s.len(), pe);
    lemma_pow10_add((t.len() - 1) as nat, pf);
    lemma_pow10_mono((s.len() + pe) as nat, (t.len() - 1 + pf) as nat);
    let x = nat_of(s);
    let y = nat_of(t);
    let a = pow10(pe);
    let b = pow10(pf);
    assert(x * a < pow10(s.len()) * a) by (nonlinear_arith)
        requires
            x < pow10(s.len()),
            a >= 1,
    ;
    assert(pow10((t.len() - 1) as nat) * b <= y * b) by (nonlinear_arith)
        requires
            pow10((t.len() - 1) as nat) <= y,
            b >= 1,
    ;
}

/// The digit in place `i` of a run that is padded with zeros on the right.
pub open spec fn place(s: Seq<char>, i: int) -> char {
    if 0 <= i < s.len() {
        s[i]
    } else {
        '0'
    }
}

spec fn padded(s: Seq<char>, n: int) -> Seq<char> {
    Seq::new(n as nat, |i: int| place(s, i))
}

proof fn lemma_padded(s: Seq<char>, n: int)
    requires
        s.len() <= n,
    ensures
        nat_of(padded(s, n)) == nat_of(s) * pow10((n - s.len()) as nat),
{
    let p = padded(s, n);
    lemma_nat_split(p, s.len() as int);
    assert(p.take(s.len() as int) =~= s);
    lemma_zeros(p.skip(s.len() as int));
}

/// Two values of one magnitude: the first place in which they differ decides.
proof fn lemma_order_place(s: Seq<char>, e: int, t: Seq<char>, f: int, n: int, i: int)
    requires
        s.len() + e == t.len() + f,
        s.len() <= n,
        t.len() <= n,
        n == s.len() || n == t.len(),
        0 <= i <= n,
        all_digits(s),
        all_digits(t),
        forall|j: int| 0 <= j < i ==> place(s, j) == place(t, j),
    ensures
        i == n ==> order(nat_of(s), e, nat_of(t), f) == Order::Equal,
        i < n && place(s, i) < place(t, i) ==> order(nat_of(s), e, nat_of(t), f) == Order::Less,
        i < n && place(t, i) < place(s, i) ==> order(nat_of(s), e, nat_of(t), f) == Order::Greater,
{
    let a = padded(s, n);
    let b = padded(t, n);
    lemma_padded(s, n);
    lemma_padded(t, n);
    let low = if e <= f {
        e
    } else {
        f
    };
    assert(n - s.len() == e - low);
    assert(n - t.len() == f - low);
    assert(a.take(i) =~= b.take(i));
    if i == n {
        assert(a =~= b);
    } else {
        if place(s, i) < place(t, i) {
            lemma_less_at(a, b, i);
        }
        if place(t, i) < place(s, i) {
            lemma_less_at(b, a, i);
        }
    }
}

proof fn lemma_less_at(a: Seq<char>, b: Seq<char>, i: int)
    requires
        a.len() == b.len(),
        0 <= i < a.len(),
        a.take(i) == b.take(i),
        text::is_digit(a[i]),
        text::is_digit(b[i]),
        a[i] < b[i],
    ensures
        nat_of(a) < nat_of(b),
{
    lemma_nat_split(a, i + 1);
    lemma_nat_split(b, i + 1);
    lemma_nat_bound(a.skip(i + 1));
    let x = a.take(i + 1);
    let y = b.take(i + 1);
    assert(x.drop_last() =~= a.take(i));
    assert(y.drop_last() =~= b.take(i));
    assert(nat_of(x) + 1 <= nat_of(y));
    let p = pow10((a.len() - i - 1) as nat);
    assert((nat_of(x) + 1) * p <= nat_of(y) * p) by (nonlinear_arith)
        requires
            nat_of(x) + 1 <= nat_of(y),
            p >= 0,
    ;
    assert((nat_of(x) + 1) * p == nat_of(x) * p + p) by (nonlinear_arith);
}

/// Exponents beyond this bound are kept at it: no literal is long enough for
/// the difference to matter.
pub const EXPONENT_CAP: i128 = 1_000_000_000_000_000_000_000_000_000_000;

pub open spec fn capped(e: int) -> int {
    if e > EXPONENT_CAP {
        EXPONENT_CAP as int
    } else if e < -EXPONENT_CAP {
        -EXPONENT_CAP as int
    } else {
        e
    }
}

/// Compares `digits * 10^exponent` with the bound `bound * 10^bound_exponent`,
/// where `exponent` stands for any exponent that it caps.
fn compare(digits: &[char], exponent: i128, bound: &[char], bound_exponent: i64) -> (r: Order)
    requires
        all_digits(digits@),
        all_digits(bound@),
        0 < bound@.len() <= 1000,
        bound@[0] != '0',
        -1000 <= bound_exponent <= 1000,
        -EXPONENT_CAP <= exponent <= EXPONENT_CAP,
    ensures
        forall|e: int|
            capped(e) == exponent ==> r == #[trigger] order(
                nat_of(digits@),
                e,
                nat_of(bound@),
                bound_exponent as int,
            ),
{
    let total: usize = digits.len();
    let mut k: usize = 0;
    while k < total && digits[k] == '0'
        invariant
            k <= total == digits@.len(),
            forall|i: int| 0 <= i < k ==> digits@[i] == '0',
        decreases total - k,
    {
        k = k + 1;
    }
    let ghost f = bound_exponent as int;
    let ghost b = bound@;
    proof {
        lemma_leading_zero(digits@, k as int);
        lemma_nat_low(b);
        lemma_pow10_pos((b.len() - 1) as nat);
    }
    if k == total {
        proof {
            assert forall|e: int| capped(e) == exponent implies Order::Less == #[trigger] order(
                nat_of(digits@),
                e,
                nat_of(b),
                f,
            ) by {
                let low = if e <= f {
                    e
                } else {
                    f
                };
                lemma_pow10_pos((f - low) as nat);
                let y = pow10((f - low) as nat);
                assert(nat_of(digits@) == 0);
                assert(0 * pow10((e - low) as nat) == 0) by (nonlinear_arith);
                assert(nat_of(b) * y > 0) by (nonlinear_arith)
                    requires
                        nat_of(b) >= 1,
                        y >= 1,
                ;
            }
        }
        return Order::Less;
    }
    let s = slice_subrange(digits, k, total);
    let ghost sv = s@;
    assert(sv =~= digits@.skip(k as int));
    assert(sv[0] == digits@[k as int]);
    let n: i128 = s.len() as i128;
    let magnitude: i128 = n + exponent;
    let bound_magnitude: i128 = bound.len() as i128 + bound_exponent as i128;
    if magnitude < bound_magnitude {
        proof {
            assert forall|e: int| capped(e) == exponent implies Order::Less == #[trigger] order(
                nat_of(digits@),
                e,
                nat_of(b),
                f,
            ) by {
                lemma_order_magnitude(sv, e, b, f);
            }
        }
        return Order::Less;
    }
    if magnitude > bound_magnitude {
        proof {
            assert forall|e: int| capped(e) == exponent implies Order::Greater == #[trigger] order(
                nat_of(digits@),
                e,
                nat_of(b),
                f,
            ) by {
                lemma_order_magnitude(b, f, sv, e);
            }
        }
        return Order::Greater;
    }
    assert(forall|e: int| capped(e) == exponent ==> e == exponent);
    let ghost e = exponent as int;
    let size: usize = if s.len() >= bound.len() {
        s.len()
    } else {
        bound.len()
    };
    let mut i: usize = 0;
    while i < size
        invariant
            i <= size,
            s@ == sv,
            bound@ == b,
            size == sv.len() || size == b.len(),
            size >= sv.len(),
            size >= b.len(),
            all_digits(sv),
            all_digits(b),
            sv.len() + e == b.len() + f,
            forall|j: int| 0 <= j < i ==> place(sv, j) == place(b, j),
            nat_of(digits@) == nat_of(sv),
            f == bound_exponent,
            e == exponent,
            forall|x: int| capped(x) == exponent ==> x == e,
        decreases size - i,
    {
        let x: char = if i < s.len() {
            s[i]
        } else {
            '0'
        };
        let y: char = if i < bound.len() {
            bound[i]
        } else {
            '0'
        };
        proof {
            lemma_order_place(sv, e, b, f, size as int, i as int);
        }
        if x < y {
            return Order::Less;
        }
        if y < x {
            return Order::Greater;
        }
        i = i + 1;
    }
    proof {
        lemma_order_place(sv, e, b, f, size as int, size as int);
    }
    Order::Equal
}


// ---------------------------------------------------------------------------
// The float grammar
// ---------------------------------------------------------------------------
/// What a float literal writes.
pub enum FloatModel {
    Nan,
    Infinite,
    /// `digits * 10^exponent`, negated where `negative`.
    Decimal { negative: bool, digits: Seq<char>, exponent: int },
}

/// The first index at or after `i` that holds no digit.
pub open spec fn digits_end(s: Seq<char>, i: int) -> int
    decreases s.len() - i,
{
    if 0 <= i < s.len() && text::is_digit(s[i]) {
        digits_end(s, i + 1)
    } else {
        i
    }
}

/// Whether a sign stands at `i`.
pub open spec fn sign_at(s: Seq<char>, i: int) -> bool {
    0 <= i < s.len() && (s[i] == '+' || s[i] == '-')
}

/// The exponent part from `i` to the end of the literal: nothing, or `e`, an
/// optional sign and digits.
pub open spec fn exponent_part(s: Seq<char>, i: int) -> Option<int> {
    if i == s.len() {
        Some(0int)
    } else if s[i] == 'e' || s[i] == 'E' {
        let start = if sign_at(s, i + 1) {
            i + 2
        } else {
            i + 1
        };
        if start < s.len() && digits_end(s, start) == s.len() {
            let value = nat_of(s.skip(start)) as int;
            Some(
                if s[i + 1] == '-' {
                    -value
                } else {
                    value
                },
            )
        } else {
            None
        }
    } else {
        None
    }
}

/// An unsigned float literal: `inf`, `infinity`, `nan` in any case, or digits
/// with an optional point and an optional exponent.
pub open spec fn unsigned_float(s: Seq<char>, negative: bool) -> Option<FloatModel> {
    if text::eq_ci(s, "inf"@) || text::eq_ci(s, "infinity"@) {
        Some(FloatModel::Infinite)
    } else if text::eq_ci(s, "nan"@) {
        Some(FloatModel::Nan)
    } else {
        let a = digits_end(s, 0);
        let dot = a < s.len() && s[a] == '.';
        let b0 = if dot {
            a + 1
        } else {
            a
        };
        let b = if dot {
            digits_end(s, b0)
        } else {
            a
        };
        let digits = s.take(a) + s.subrange(b0, b);
        if digits.len() == 0 {
            None
        } else {
            match exponent_part(s, b) {
                Some(e) => Some(FloatModel::Decimal { negative, digits, exponent: e - (b - b0) }),
                None => None,
            }
        }
    }
}

/// What a text writes when it is read as a float literal.
pub open spec fn float_model(s: Seq<char>) -> Option<FloatModel> {
    if sign_at(s, 0) {
        unsigned_float(s.skip(1), s[0] == '-')
    } else {
        unsigned_float(s, false)
    }
}

/// A scanned float literal; the exponent is capped.
enum Float {
    Nan,
    Infinite,
    Decimal { negative: bool, digits: Vec<char>, exponent: i128 },
}

spec fn scans(f: Option<Float>, m: Option<FloatModel>) -> bool {
    match (f, m) {
        (None, None) => true,
        (Some(Float::Nan), Some(FloatModel::Nan)) => true,
        (Some(Float::Infinite), Some(FloatModel::Infinite)) => true,
        (
            Some(Float::Decimal { negative, digits, exponent }),
            Some(FloatModel::Decimal { negative: n, digits: d, exponent: e }),
        ) => negative == n && digits@ == d && all_digits(d) && exponent == capped(e),
        _ => false,
    }
}

fn skip_digits(s: &[char], from: usize) -> (r: usize)
    requires
        from <= s@.len(),
    ensures
        r == digits_end(s@, from as int),
        from <= r <= s@.len(),
        all_digits(s@.subrange(from as int, r as int)),
{
    let total: usize = s.len();
    let mut i: usize = from;
    while i < total && text::digit(s[i])
        invariant
            from <= i <= total == s@.len(),
            digits_end(s@, i as int) == digits_end(s@, from as int),
            forall|j: int| from <= j < i ==> text::is_digit(#[trigger] s@[j]),
        decreases total - i,
    {
        i = i + 1;
    }
    i
}

fn digit_of(c: char) -> (r: i128)
    requires
        text::is_digit(c),
    ensures
        r == digit_value(c),
        0 <= r <= 9,
{
    c as u32 as i128 - '0' as u32 as i128
}

/// Four times the exponent cap, which no literal's length can bring back
/// under the cap.
const EXPONENT_LIMIT: i128 = 4_000_000_000_000_000_000_000_000_000_000;

spec fn limited(n: nat) -> int {
    if n > EXPONENT_LIMIT {
        EXPONENT_LIMIT as int
    } else {
        n as int
    }
}

fn limited_value(s: &[char]) -> (r: i128)
    requires
        all_digits(s@),
    ensures
        r == limited(nat_of(s@)),
{
    let mut acc: i128 = 0;
    let mut i: usize = 0;
    while i < s.len()
        invariant
            i <= s@.len(),
            all_digits(s@),
            0 <= acc <= EXPONENT_LIMIT,
            acc == limited(nat_of(s@.take(i as int))),
        decreases s@.len() - i,
    {
        proof {
            let t = s@.take(i + 1);
            assert(t.drop_last() =~= s@.take(i as int));
            assert(t.last() == s@[i as int]);
        }
        let next: i128 = acc * 10 + digit_of(s[i]);
        acc = if next > EXPONENT_LIMIT {
            EXPONENT_LIMIT
        } else {
            next
        };
        i = i + 1;
    }
    assert(s@.take(s@.len() as int) =~= s@);
    acc
}

fn scan_exponent(s: &[char], i: usize, fraction: usize) -> (r: Option<i128>)
    requires
        i <= s@.len(),
    ensures
        match r {
            Some(x) => exponent_part(s@, i as int) is Some && x == capped(
                exponent_part(s@, i as int)->0 - fraction,
            ),
            None => exponent_part(s@, i as int) is None,
        },
{
    let total: usize = s.len();
    let mut exponent: i128 = 0;
    if i < total {
        if !(s[i] == 'e' || s[i] == 'E') {
            return None;
        }
        let signed: bool = i + 1 < total && (s[i + 1] == '+' || s[i + 1] == '-');
        let start: usize = if signed {
            i + 2
        } else {
            i + 1
        };
        if start >= total {
            return None;
        }
        if skip_digits(s, start) != total {
            return None;
        }
        let rest = slice_subrange(s, start, total);
        assert(rest@ =~= s@.skip(start as int));
        assert(rest@ =~= s@.subrange(start as int, total as int));
        let value = limited_value(rest);
        exponent = if s[i + 1] == '-' {
            -value
        } else {
            value
        };
    }
    let shifted: i128 = exponent - fraction as i128;
    Some(
        if shifted > EXPONENT_CAP {
            EXPONENT_CAP
        } else if shifted < -EXPONENT_CAP {
            -EXPONENT_CAP
        } else {
            shifted
        },
    )
}

fn scan_unsigned(s: &[char], negative: bool) -> (r: Option<Float>)
    ensures
        scans(r, unsigned_float(s@, negative)),
{
    if text::is_word_ci(s, "inf") || text::is_word_ci(s, "infinity") {
        return Some(Float::Infinite);
    }
    if text::is_word_ci(s, "nan") {
        return Some(Float::Nan);
    }
    let a = skip_digits(s, 0);
    let dot: bool = a < s.len() && s[a] == '.';
    let b0: usize = if dot {
        a + 1
    } else {
        a
    };
    let b: usize = if dot {
        skip_digits(s, b0)
    } else {
        a
    };
    let mut digits: Vec<char> = Vec::new();
    let mut i: usize = 0;
    while i < a
        invariant
            i <= a <= s@.len(),
            digits@ == s@.take(i as int),
        decreases a - i,
    {
        digits.push(s[i]);
        i = i + 1;
        assert(s@.take(i as int) =~= s@.take(i - 1).push(s@[i - 1]));
    }
    let mut j: usize = b0;
    assert(s@.subrange(b0 as int, b0 as int) =~= Seq::<char>::empty());
    while j < b
        invariant
            b0 <= j <= b <= s@.len(),
            digits@ == s@.take(a as int) + s@.subrange(b0 as int, j as int),
        decreases b - j,
    {
        digits.push(s[j]);
        j = j + 1;
        assert(s@.subrange(b0 as int, j as int) =~= s@.subrange(b0 as int, j - 1).push(s@[j - 1]));
    }
    if digits.len() == 0 {
        return None;
    }
    proof {
        assert(s@.take(a as int) =~= s@.subrange(0, a as int));
        assert forall|k: int| 0 <= k < digits@.len() implies text::is_digit(
            #[trigger] digits@[k],
        ) by {
            if k < a {
                assert(digits@[k] == s@.subrange(0, a as int)[k]);
            } else {
                assert(digits@[k] == s@.subrange(b0 as int, b as int)[k - a]);
            }
        }
    }
    match scan_exponent(s, b, b - b0) {
        Some(exponent) => Some(Float::Decimal { negative, digits, exponent }),
        None => None,
    }
}

fn scan_float(s: &[char]) -> (r: Option<Float>)
    ensures
        scans(r, float_model(s@)),
{
    if s.len() > 0 && (s[0] == '+' || s[0] == '-') {
        let rest = slice_subrange(s, 1, s.len());
        assert(rest@ =~= s@.skip(1));
        scan_unsigned(rest, s[0] == '-')
    } else {
        scan_unsigned(s, false)
    }
}

/// Whether a text is a float literal.
pub fn is_float(s: &[char]) -> (r: bool)
    ensures
        r == (float_model(s@) is Some),
{
    scan_float(s).is_some()
}

// ---------------------------------------------------------------------------
// Numbers
// ---------------------------------------------------------------------------
/// The unit factor that a literal still has to be multiplied by, after it is
/// rounded to single precision.
#[derive(Clone, Copy, Debug, PartialEq, Eq, Structural)]
pub enum Scale {
    /// The literal itself.
    One,
    /// Points: 96/72 pixels.
    Pt,
    /// Picas: 16 pixels.
    Pc,
    /// Centimetres: 96/2.54 pixels.
    Cm,
    /// Millimetres: 96/25.4 pixels.
    Mm,
    /// Inches: 96 pixels.
    In,
    /// Quarter millimetres: 96/101.6 pixels.
    Q,
    /// Half of the literal.
    Half,
}

/// The literals from which on the scaled value no longer fits single
/// precision: the midpoint between the last literal value that does and the
/// next one.
pub open spec fn overflow_bound(scale: Scale) -> Seq<char> {
    match scale {
        Scale::One | Scale::Q | Scale::Half => "340282356779733661637539395458142568448"@,
        Scale::Pt => "255211765049499045771695743600200515584"@,
        Scale::Pc => "21267647298733353852346212216133910528"@,
        Scale::Cm => "9003303628046016059695066371690856448"@,
        Scale::Mm => "90033033111333660026377159975150551040"@,
        Scale::In => "3544607935941000651567260431718285312"@,
    }
}

/// Whether a literal on the overflow bound itself still fits (ties round to
/// the even neighbour).
pub open spec fn bound_fits(scale: Scale) -> bool {
    scale == Scale::Cm || scale == Scale::Mm || scale == Scale::In
}

/// Whether the scaled value of a literal is finite in single precision.
pub open spec fn finite(literal: Seq<char>, scale: Scale) -> bool {
    match float_model(literal) {
        Some(FloatModel::Decimal { negative, digits, exponent }) => {
            let o = order(nat_of(digits), exponent, nat_of(overflow_bound(scale)), 0);
            o == Order::Less || (o == Order::Equal && bound_fits(scale))
        },
        _ => false,
    }
}

/// `5^150`: times `10^-150` it is half of the smallest positive value.
pub open spec fn zero_bound() -> Seq<char> {
    "700649232162408535461864791644958065640130970938257885878534141944895541342930300743319094181060791015625"@
}

/// `3 * 5^150`: times `10^-150` it is the literal up to which half of the
/// rounded literal rounds to zero.
pub open spec fn half_zero_bound() -> Seq<char> {
    "2101947696487225606385594374934874196920392912814773657635602425834686624028790902229957282543182373046875"@
}

/// Whether the scaled value of a literal is zero in single precision.
pub open spec fn zero(literal: Seq<char>, scale: Scale) -> bool {
    match float_model(literal) {
        Some(FloatModel::Decimal { negative, digits, exponent }) => if scale == Scale::Half {
            order(nat_of(digits), exponent, nat_of(half_zero_bound()), -150) == Order::Less
        } else {
            order(nat_of(digits), exponent, nat_of(zero_bound()), -150) != Order::Greater
        },
        _ => false,
    }
}

/// Whether a literal is at least one hundred in single precision: it reaches
/// the midpoint between the value below one hundred and one hundred.
pub open spec fn at_least_hundred(literal: Seq<char>) -> bool {
    match float_model(literal) {
        Some(FloatModel::Decimal { negative, digits, exponent }) => !negative && order(
            nat_of(digits),
            exponent,
            nat_of("99999996185302734375"@),
            -18,
        ) != Order::Less,
        _ => false,
    }
}

/// A number: a float literal and the unit factor that goes with it.
#[derive(Debug, PartialEq, Eq)]
pub struct Number {
    pub literal: String,
    pub scale: Scale,
}

pub struct NumberModel {
    pub literal: Seq<char>,
    pub scale: Scale,
}

impl View for Number {
    type V = NumberModel;

    open spec fn view(&self) -> NumberModel {
        NumberModel { literal: self.literal@, scale: self.scale }
    }
}

impl Clone for Number {
    fn clone(&self) -> (r: Number)
        ensures
            r == *self,
    {
        Number { literal: self.literal.clone(), scale: self.scale }
    }
}

fn bound_digits(bound: &str) -> (r: Vec<char>)
    ensures
        r@ == bound@,
{
    text::chars_of(bound)
}

impl Number {
    /// The number that `literal` writes, as it stands.
    pub fn new(literal: &str) -> (r: Number)
        ensures
            r@ == (NumberModel { literal: literal@, scale: Scale::One }),
    {
        Number { literal: literal.to_owned(), scale: Scale::One }
    }

    /// Reads a float literal that stands before a unit.
    pub fn read(s: &[char], scale: Scale) -> (r: Option<Number>)
        ensures
            r is Some == (float_model(s@) is Some),
            r matches Some(n) ==> n@ == (NumberModel { literal: s@, scale }),
    {
        if is_float(s) {
            Some(Number { literal: text::text_of(s), scale })
        } else {
            None
        }
    }

    /// Whether the value is finite.
    pub fn is_finite(&self) -> (r: bool)
        ensures
            r == finite(self@.literal, self@.scale),
    {
        let chars = text::chars_of(self.literal.as_str());
        match scan_float(chars.as_slice()) {
            Some(Float::Decimal { negative, digits, exponent }) => {
                proof {
                    lemma_bounds();
                }
                let bound: Vec<char> = match self.scale {
                    Scale::One | Scale::Q | Scale::Half => bound_digits(
                        "340282356779733661637539395458142568448",
                    ),
                    Scale::Pt => bound_digits("255211765049499045771695743600200515584"),
                    Scale::Pc => bound_digits("21267647298733353852346212216133910528"),
                    Scale::Cm => bound_digits("9003303628046016059695066371690856448"),
                    Scale::Mm => bound_digits("90033033111333660026377159975150551040"),
                    Scale::In => bound_digits("3544607935941000651567260431718285312"),
                };
                match compare(digits.as_slice(), exponent, bound.as_slice(), 0) {
                    Order::Less => true,
                    Order::Equal => match self.scale {
                        Scale::Cm | Scale::Mm | Scale::In => true,
                        _ => false,
                    },
                    Order::Greater => false,
                }
            },
            _ => false,
        }
    }

    /// Whether the value is zero.
    pub fn is_zero(&self) -> (r: bool)
        ensures
            r == zero(self@.literal, self@.scale),
    {
        let chars = text::chars_of(self.literal.as_str());
        match scan_float(chars.as_slice()) {
            Some(Float::Decimal { negative, digits, exponent }) => {
                proof {
                    lemma_bounds();
                }
                match self.scale {
                    Scale::Half => {
                        let bound = bound_digits(
                            "2101947696487225606385594374934874196920392912814773657635602425834686624028790902229957282543182373046875",
                        );
                        match compare(digits.as_slice(), exponent, bound.as_slice(), -150) {
                            Order::Less => true,
                            _ => false,
                        }
                    },
                    _ => {
                        let bound = bound_digits(
                            "700649232162408535461864791644958065640130970938257885878534141944895541342930300743319094181060791015625",
                        );
                        match compare(digits.as_slice(), exponent, bound.as_slice(), -150) {
                            Order::Greater => false,
                            _ => true,
                        }
                    },
                }
            },
            _ => false,
        }
    }

    /// Whether the literal is at least one hundred.
    pub fn reaches_hundred(&self) -> (r: bool)
        ensures
            r == at_least_hundred(self@.literal),
    {
        let chars = text::chars_of(self.literal.as_str());
        match scan_float(chars.as_slice()) {
            Some(Float::Decimal { negative, digits, exponent }) => {
                proof {
                    lemma_bounds();
                }
                if negative {
                    return false;
                }
                let bound = bound_digits("99999996185302734375");
                match compare(digits.as_slice(), exponent, bound.as_slice(), -18) {
                    Order::Less => false,
                    _ => true,
                }
            },
            _ => false,
        }
    }
}

/// The bounds are runs of digits without a leading zero.
proof fn lemma_bounds()
    ensures
        forall|scale: Scale| #![trigger overflow_bound(scale)]
            all_digits(overflow_bound(scale)) && 37 <= overflow_bound(scale).len() <= 39
                && overflow_bound(scale)[0] != '0',
        all_digits(zero_bound()),
        0 < zero_bound().len() <= 110,
        zero_bound()[0] != '0',
        all_digits(half_zero_bound()),
        0 < half_zero_bound().len() <= 110,
        half_zero_bound()[0] != '0',
        all_digits("99999996185302734375"@),
        0 < "99999996185302734375"@.len() <= 1000,
        "99999996185302734375"@[0] != '0',
{
    reveal_strlit("340282356779733661637539395458142568448");
    reveal_strlit("255211765049499045771695743600200515584");
    reveal_strlit("21267647298733353852346212216133910528");
    reveal_strlit("9003303628046016059695066371690856448");
    reveal_strlit("90033033111333660026377159975150551040");
    reveal_strlit("3544607935941000651567260431718285312");
    reveal_strlit(
        "700649232162408535461864791644958065640130970938257885878534141944895541342930300743319094181060791015625",
    );
    reveal_strlit(
        "2101947696487225606385594374934874196920392912814773657635602425834686624028790902229957282543182373046875",
    );
    reveal_strlit("99999996185302734375");
}

// ---------------------------------------------------------------------------
// Comparing literals
// ---------------------------------------------------------------------------
/// How `c * 10^e`, negated where `na`, and `d * 10^f`, negated where `nb`,
/// compare.
pub open spec fn signed_order(na: bool, c: nat, e: int, nb: bool, d: nat, f: int) -> Order {
    let low = if e <= f {
        e
    } else {
        f
    };
    let x = c * pow10((e - low) as nat);
    let y = d * pow10((f - low) as nat);
    let sx = if na {
        -x
    } else {
        x as int
    };
    let sy = if nb {
        -y
    } else {
        y as int
    };
    if sx < sy {
        Order::Less
    } else if sx == sy {
        Order::Equal
    } else {
        Order::Greater
    }
}

/// How two literals compare; none where one of them is no decimal number with
/// an exponent below the cap.
pub open spec fn literal_order(a: Seq<char>, b: Seq<char>) -> Option<Order> {
    match (float_model(a), float_model(b)) {
        (
            Some(FloatModel::Decimal { negative: na, digits: da, exponent: ea }),
            Some(FloatModel::Decimal { negative: nb, digits: db, exponent: eb }),
        ) => if -EXPONENT_CAP < ea < EXPONENT_CAP && -EXPONENT_CAP < eb < EXPONENT_CAP {
            Some(signed_order(na, nat_of(da), ea, nb, nat_of(db), eb))
        } else {
            None
        },
        _ => None,
    }
}

fn leading_zeros(digits: &[char]) -> (k: usize)
    requires
        all_digits(digits@),
    ensures
        k <= digits@.len(),
        nat_of(digits@) == nat_of(digits@.skip(k as int)),
        k < digits@.len() ==> digits@[k as int] != '0',
{
    let total: usize = digits.len();
    let mut k: usize = 0;
    while k < total && digits[k] == '0'
        invariant
            k <= total == digits@.len(),
            forall|i: int| 0 <= i < k ==> digits@[i] == '0',
        decreases total - k,
    {
        k = k + 1;
    }
    proof {
        lemma_leading_zero(digits@, k as int);
    }
    k
}

/// Compares two runs of digits that start with a nonzero one.
fn compare_significant(s: &[char], e: i128, t: &[char], f: i128) -> (r: Order)
    requires
        all_digits(s@),
        all_digits(t@),
        s@.len() > 0,
        t@.len() > 0,
        s@[0] != '0',
        t@[0] != '0',
        -EXPONENT_CAP <= e <= EXPONENT_CAP,
        -EXPONENT_CAP <= f <= EXPONENT_CAP,
    ensures
        r == order(nat_of(s@), e as int, nat_of(t@), f as int),
{
    let x: i128 = s.len() as i128 + e;
    let y: i128 = t.len() as i128 + f;
    if x < y {
        proof {
            lemma_order_magnitude(s@, e as int, t@, f as int);
        }
        return Order::Less;
    }
    if x > y {
        proof {
            lemma_order_magnitude(t@, f as int, s@, e as int);
        }
        return Order::Greater;
    }
    let size: usize = if s.len() >= t.len() {
        s.len()
    } else {
        t.len()
    };
    let mut i: usize = 0;
    while i < size
        invariant
            i <= size,
            size == s@.len() || size == t@.len(),
            size >= s@.len(),
            size >= t@.len(),
            all_digits(s@),
            all_digits(t@),
            s@.len() + e == t@.len() + f,
            forall|j: int| 0 <= j < i ==> place(s@, j) == place(t@, j),
        decreases size - i,
    {
        let a: char = if i < s.len() {
            s[i]
        } else {
            '0'
        };
        let b: char = if i < t.len() {
            t[i]
        } else {
            '0'
        };
        proof {
            lemma_order_place(s@, e as int, t@, f as int, size as int, i as int);
        }
        if a < b {
            return Order::Less;
        }
        if b < a {
            return Order::Greater;
        }
        i = i + 1;
    }
    proof {
        lemma_order_place(s@, e as int, t@, f as int, size as int, size as int);
    }
    Order::Equal
}

fn flip(o: Order) -> (r: Order)
    ensures
        r == (match o {
            Order::Less => Order::Greater,
            Order::Equal => Order::Equal,
            Order::Greater => Order::Less,
        }),
{
    match o {
        Order::Less => Order::Greater,
        Order::Equal => Order::Equal,
        Order::Greater => Order::Less,
    }
}

/// Compares two literals by value; none where one of them is no decimal
/// number with an exponent below the cap.
pub fn compare_literals(a: &[char], b: &[char]) -> (r: Option<Order>)
    ensures
        r == literal_order(a@, b@),
{
    match (scan_float(a), scan_float(b)) {
        (
            Some(Float::Decimal { negative: na, digits: da, exponent: ea }),
            Some(Float::Decimal { negative: nb, digits: db, exponent: eb }),
        ) => {
            if !(-EXPONENT_CAP < ea && ea < EXPONENT_CAP && -EXPONENT_CAP < eb && eb
                < EXPONENT_CAP) {
                return None;
            }
            let x = leading_zeros(da.as_slice());
            let y = leading_zeros(db.as_slice());
            let s = slice_subrange(da.as_slice(), x, da.len());
            let t = slice_subrange(db.as_slice(), y, db.len());
            assert(s@ =~= da@.skip(x as int));
            assert(t@ =~= db@.skip(y as int));
            proof {
                lemma_signs(s@, ea as int, t@, eb as int);
            }
            if s.len() == 0 && t.len() == 0 {
                return Some(Order::Equal);
            }
            if s.len() == 0 {
                return Some(
                    if nb {
                        Order::Greater
                    } else {
                        Order::Less
                    },
                );
            }
            if t.len() == 0 || na != nb {
                return Some(
                    if na {
                        Order::Less
                    } else {
                        Order::Greater
                    },
                );
            }
            let o = compare_significant(s, ea, t, eb);
            if na {
                Some(flip(o))
            } else {
                Some(o)
            }
        },
        _ => None,
    }
}

/// A run without leading zeros is zero exactly when it is empty.
proof fn lemma_signs(s: Seq<char>, e: int, t: Seq<char>, f: int)
    requires
        all_digits(s),
        all_digits(t),
        s.len() > 0 ==> s[0] != '0',
        t.len() > 0 ==> t[0] != '0',
    ensures
        ({
            let low = if e <= f {
                e
            } else {
                f
            };
            &&& s.len() == 0 ==> nat_of(s) * pow10((e - low) as nat) == 0
            &&& t.len() == 0 ==> nat_of(t) * pow10((f - low) as nat) == 0
            &&& s.len() > 0 ==> nat_of(s) * pow10((e - low) as nat) > 0
            &&& t.len() > 0 ==> nat_of(t) * pow10((f - low) as nat) > 0
        }),
{
    let low = if e <= f {
        e
    } else {
        f
    };
    lemma_positive(s, (e - low) as nat);
    lemma_positive(t, (f - low) as nat);
}

proof fn lemma_positive(s: Seq<char>, k: nat)
    requires
        all_digits(s),
        s.len() > 0 ==> s[0] != '0',
    ensures
        s.len() == 0 ==> nat_of(s) * pow10(k) == 0,
        s.len() > 0 ==> nat_of(s) * pow10(k) > 0,
{
    lemma_pow10_pos(k);
    if s.len() == 0 {
        assert(0 * pow10(k) == 0) by (nonlinear_arith);
    } else {
        lemma_nat_low(s);
        lemma_pow10_pos((s.len() - 1) as nat);
        assert(nat_of(s) * pow10(k) > 0) by (nonlinear_arith)
            requires
                nat_of(s) >= 1,
                pow10(k) >= 1,
        ;
    }
}

// ---------------------------------------------------------------------------
// Laws
// ---------------------------------------------------------------------------
proof fn lemma_digits_end(s: Seq<char>, i: int)
    requires
        0 <= i <= s.len(),
    ensures
        i <= digits_end(s, i) <= s.len(),
        forall|k: int| i <= k < digits_end(s, i) ==> text::is_digit(#[trigger] s[k]),
        digits_end(s, i) < s.len() ==> !text::is_digit(s[digits_end(s, i)]),
    decreases s.len() - i,
{
    if i < s.len() && text::is_digit(s[i]) {
        lemma_digits_end(s, i + 1);
    }
}

/// A character that may stand in a decimal literal.
pub open spec fn decimal_char(c: char) -> bool {
    '0' <= c <= '9' || c == '+' || c == '-' || c == '.' || c == 'e' || c == 'E'
}

proof fn lemma_unsigned_chars(s: Seq<char>, negative: bool)
    requires
        unsigned_float(s, negative) is Some,
        unsigned_float(s, negative)->0 is Decimal,
    ensures
        s.len() > 0,
        forall|k: int| 0 <= k < s.len() ==> decimal_char(#[trigger] s[k]),
        '0' <= s[0] <= '9' || s[0] == '.',
        '0' <= s.last() <= '9' || s.last() == '.',
{
    let a = digits_end(s, 0);
    lemma_digits_end(s, 0);
    let dot = a < s.len() && s[a] == '.';
    let b0 = if dot {
        a + 1
    } else {
        a
    };
    lemma_digits_end(s, b0);
    let b = if dot {
        digits_end(s, b0)
    } else {
        a
    };
    let digits = s.take(a) + s.subrange(b0, b);
    assert(digits.len() == a + (b - b0));
    if b < s.len() {
        let start = if sign_at(s, b + 1) {
            b + 2
        } else {
            b + 1
        };
        lemma_digits_end(s, start);
    }
    if a > 0 {
        assert(text::is_digit(s[0]));
    }
}

/// A decimal literal is made of digits, a point, signs and an exponent mark; it
/// starts with a sign, a digit or the point and ends with a digit or the point.
pub proof fn law_decimal_literals(s: Seq<char>)
    requires
        float_model(s) is Some,
        float_model(s)->0 is Decimal,
    ensures
        s.len() > 0,
        forall|k: int| 0 <= k < s.len() ==> decimal_char(#[trigger] s[k]),
        ('0' <= s[0] <= '9') || s[0] == '+' || s[0] == '-' || s[0] == '.',
        ('0' <= s.last() <= '9') || s.last() == '.',
{
    if sign_at(s, 0) {
        let rest = s.skip(1);
        lemma_unsigned_chars(rest, s[0] == '-');
        assert(rest.last() == s.last());
        assert forall|k: int| 0 <= k < s.len() implies decimal_char(#[trigger] s[k]) by {
            if k > 0 {
                assert(s[k] == rest[k - 1]);
            }
        }
    } else {
        lemma_unsigned_chars(s, false);
    }
}

/// A text with a character that stands in no number is no number.
pub proof fn lemma_no_float(s: Seq<char>, k: int)
    requires
        0 <= k < s.len(),
        s[k] == 'v' || s[k] == '(' || s[k] == '"' || s[k] == '\'' || s[k] == ' ',
    ensures
        float_model(s) is None,
{
    reveal_strlit("inf");
    reveal_strlit("infinity");
    reveal_strlit("nan");
    if float_model(s) is Some {
        if float_model(s)->0 is Decimal {
            law_decimal_literals(s);
            assert(decimal_char(s[k]));
        } else {
            let t = if sign_at(s, 0) {
                s.skip(1)
            } else {
                s
            };
            let i = if sign_at(s, 0) {
                k - 1
            } else {
                k
            };
            assert(t[i] == s[k]);
            assert(text::lowered(t)[i] == s[k]);
            let w = if text::eq_ci(t, "inf"@) {
                "inf"@
            } else if text::eq_ci(t, "infinity"@) {
                "infinity"@
            } else {
                "nan"@
            };
            assert(text::lowered(w)[i] == s[k]);
            assert(text::lowered(w).len() == w.len());
            assert(i == 0 || i == 1 || i == 2 || i == 3 || i == 4 || i == 5 || i == 6 || i == 7);
        }
    }
}

/// Appending a digit to a number is multiplying it by ten and adding the
/// digit.
pub proof fn law_digits_count_in_tens(digits: Seq<char>, n: nat)
    requires
        n < 10,
    ensures
        nat_of(Seq::empty()) == 0,
        nat_of(digits.push("0123456789"@[n as int])) == nat_of(digits) * 10 + n,
{
    reveal_strlit("0123456789");
    let all = digits.push("0123456789"@[n as int]);
    assert(all.drop_last() =~= digits);
    assert(n == 0 || n == 1 || n == 2 || n == 3 || n == 4 || n == 5 || n == 6 || n == 7 || n == 8
        || n == 9);
}

proof fn lemma_all_digits_end(s: Seq<char>, i: int, n: int)
    requires
        0 <= i <= n <= s.len(),
        forall|k: int| i <= k < n ==> text::is_digit(#[trigger] s[k]),
        n < s.len() ==> !text::is_digit(s[n]),
    ensures
        digits_end(s, i) == n,
    decreases n - i,
{
    if i < n {
        lemma_all_digits_end(s, i + 1, n);
    }
}

proof fn lemma_no_word(s: Seq<char>, k: int)
    requires
        0 <= k < s.len(),
        text::is_digit(s[k]),
    ensures
        !text::eq_ci(s, "inf"@) && !text::eq_ci(s, "infinity"@) && !text::eq_ci(s, "nan"@),
{
    reveal_strlit("inf");
    reveal_strlit("infinity");
    reveal_strlit("nan");
    assert(text::lowered(s)[k] == s[k]);
    assert(text::lowered(s).len() == s.len());
    if text::eq_ci(s, "inf"@) {
        assert(text::lowered("inf"@)[k] == s[k]);
        assert(text::lowered("inf"@).len() == 3);
        assert(k == 0 || k == 1 || k == 2);
    }
    if text::eq_ci(s, "nan"@) {
        assert(text::lowered("nan"@)[k] == s[k]);
        assert(text::lowered("nan"@).len() == 3);
        assert(k == 0 || k == 1 || k == 2);
    }
    if text::eq_ci(s, "infinity"@) {
        assert(text::lowered("infinity"@)[k] == s[k]);
        assert(text::lowered("infinity"@).len() == 8);
        assert(k == 0 || k == 1 || k == 2 || k == 3 || k == 4 || k == 5 || k == 6 || k == 7);
    }
}

/// Digits, with a point among them or none, write the number that they say;
/// each digit behind the point makes it ten times smaller, and a minus sign in
/// front negates it.
pub proof fn law_decimals_say_what_they_write(whole: Seq<char>, behind: Seq<char>)
    requires
        all_digits(whole),
        all_digits(behind),
        whole.len() > 0,
    ensures
        float_model(whole) == Some(
            FloatModel::Decimal { negative: false, digits: whole, exponent: 0 },
        ),
        float_model(whole + seq!['.'] + behind) == Some(
            FloatModel::Decimal {
                negative: false,
                digits: whole + behind,
                exponent: -(behind.len() as int),
            },
        ),
        float_model(seq!['-'] + whole) == Some(
            FloatModel::Decimal { negative: true, digits: whole, exponent: 0 },
        ),
        float_model(seq!['+'] + whole) == float_model(whole),
{
    let n = whole.len() as int;
    assert(text::is_digit(whole[0]));
    lemma_no_word(whole, 0);
    lemma_all_digits_end(whole, 0, n);
    assert(whole.take(n) + whole.subrange(n, n) =~= whole);
    assert(unsigned_float(whole, true) == Some(
        FloatModel::Decimal { negative: true, digits: whole, exponent: 0 },
    ));
    assert((seq!['-'] + whole).skip(1) =~= whole);
    assert((seq!['+'] + whole).skip(1) =~= whole);
    let s = whole + seq!['.'] + behind;
    assert(s[0] == whole[0]);
    lemma_no_word(s, 0);
    assert(s[n] == '.');
    assert forall|k: int| 0 <= k < n implies text::is_digit(#[trigger] s[k]) by {
        assert(s[k] == whole[k]);
    }
    lemma_all_digits_end(s, 0, n);
    assert forall|k: int| n + 1 <= k < s.len() implies text::is_digit(#[trigger] s[k]) by {
        assert(s[k] == behind[k - n - 1]);
    }
    lemma_all_digits_end(s, n + 1, s.len() as int);
    assert(s.take(n) + s.subrange(n + 1, s.len() as int) =~= whole + behind);
}

/// An exponent multiplies by that power of ten.
pub proof fn law_exponents_scale(whole: Seq<char>, power: Seq<char>)
    requires
        all_digits(whole),
        all_digits(power),
        whole.len() > 0,
        power.len() > 0,
    ensures
        float_model(whole + seq!['e'] + power) == Some(
            FloatModel::Decimal {
                negative: false,
                digits: whole,
                exponent: nat_of(power) as int,
            },
        ),
        float_model(whole + seq!['e', '-'] + power) == Some(
            FloatModel::Decimal {
                negative: false,
                digits: whole,
                exponent: -(nat_of(power) as int),
            },
        ),
{
    let n = whole.len() as int;
    assert(text::is_digit(whole[0]) && text::is_digit(power[0]));
    let s = whole + seq!['e'] + power;
    assert(s[0] == whole[0] && s[n] == 'e' && s[n + 1] == power[0]);
    lemma_no_word(s, 0);
    assert forall|k: int| 0 <= k < n implies text::is_digit(#[trigger] s[k]) by {
        assert(s[k] == whole[k]);
    }
    lemma_all_digits_end(s, 0, n);
    assert forall|k: int| n + 1 <= k < s.len() implies text::is_digit(#[trigger] s[k]) by {
        assert(s[k] == power[k - n - 1]);
    }
    lemma_all_digits_end(s, n + 1, s.len() as int);
    assert(s.skip(n + 1) =~= power);
    assert(s.take(n) + s.subrange(n, n) =~= whole);
    let t = whole + seq!['e', '-'] + power;
    assert(t[0] == whole[0] && t[n] == 'e' && t[n + 1] == '-' && t[n + 2] == power[0]);
    lemma_no_word(t, 0);
    assert forall|k: int| 0 <= k < n implies text::is_digit(#[trigger] t[k]) by {
        assert(t[k] == whole[k]);
    }
    lemma_all_digits_end(t, 0, n);
    assert forall|k: int| n + 2 <= k < t.len() implies text::is_digit(#[trigger] t[k]) by {
        assert(t[k] == power[k - n - 2]);
    }
    lemma_all_digits_end(t, n + 2, t.len() as int);
    assert(t.skip(n + 2) =~= power);
    assert(t.take(n) + t.subrange(n, n) =~= whole);
}

/// Two runs of digits compare as the numbers that they write, and the other way
/// round where both are negated; what is negative lies below zero and above.
pub proof fn law_literals_compare_as_numbers(a: Seq<char>, b: Seq<char>)
    requires
        all_digits(a),
        all_digits(b),
        a.len() > 0,
        b.len() > 0,
    ensures
        literal_order(a, b) == Some(Order::Less) <==> nat_of(a) < nat_of(b),
        literal_order(a, b) == Some(Order::Equal) <==> nat_of(a) == nat_of(b),
        literal_order(a, b) == Some(Order::Greater) <==> nat_of(a) > nat_of(b),
        literal_order(seq!['-'] + a, seq!['-'] + b) == literal_order(b, a),
        nat_of(a) > 0 ==> literal_order(seq!['-'] + a, b) == Some(Order::Less),
{
    law_decimals_say_what_they_write(a, Seq::empty());
    law_decimals_say_what_they_write(b, Seq::empty());
    assert(pow10(0) == 1);
    assert(nat_of(a) * pow10(0) == nat_of(a)) by (nonlinear_arith)
        requires
            pow10(0) == 1,
    ;
    assert(nat_of(b) * pow10(0) == nat_of(b)) by (nonlinear_arith)
        requires
            pow10(0) == 1,
    ;
}

/// A number with digits behind the point compares with a whole one as if both
/// were multiplied by that power of ten.
pub proof fn law_fractions_compare_as_numbers(a: Seq<char>, behind: Seq<char>, b: Seq<char>)
    requires
        all_digits(a),
        all_digits(behind),
        all_digits(b),
        a.len() > 0,
        b.len() > 0,
        behind.len() < EXPONENT_CAP,
    ensures
        ({
            let x = nat_of(a + behind);
            let y = nat_of(b) * pow10(behind.len());
            let o = literal_order(a + seq!['.'] + behind, b);
            &&& o == Some(Order::Less) <==> x < y
            &&& o == Some(Order::Equal) <==> x == y
            &&& o == Some(Order::Greater) <==> x > y
        }),
{
    law_decimals_say_what_they_write(a, behind);
    law_decimals_say_what_they_write(b, Seq::empty());
    let x = nat_of(a + behind);
    assert(pow10(0) == 1);
    assert(x * pow10(0) == x) by (nonlinear_arith)
        requires
            pow10(0) == 1,
    ;
}

/// A run of digits is zero where all of them are, and only there.
pub proof fn law_only_zeros_are_zero(digits: Seq<char>, scale: Scale)
    requires
        digits.len() > 0,
        all_digits(digits),
    ensures
        zero(digits, scale) <==> nat_of(digits) == 0,
{
    law_decimals_say_what_they_write(digits, Seq::empty());
    lemma_bounds();
    let n = nat_of(digits);
    let a = nat_of(zero_bound());
    let b = nat_of(half_zero_bound());
    lemma_nat_low(zero_bound());
    lemma_nat_low(half_zero_bound());
    lemma_pow10_pos((zero_bound().len() - 1) as nat);
    lemma_pow10_pos((half_zero_bound().len() - 1) as nat);
    lemma_nat_bound(zero_bound());
    lemma_nat_bound(half_zero_bound());
    lemma_pow10_mono(zero_bound().len(), 150);
    lemma_pow10_mono(half_zero_bound().len(), 150);
    assert(pow10(0) == 1);
    assert(a * pow10(0) == a && b * pow10(0) == b) by (nonlinear_arith)
        requires
            pow10(0) == 1,
    ;
    if n == 0 {
        assert(n * pow10(150) == 0) by (nonlinear_arith)
            requires
                n == 0,
        ;
    } else {
        assert(n * pow10(150) >= pow10(150)) by (nonlinear_arith)
            requires
                n >= 1,
        ;
    }
}

/// A whole number is a font weight, that is at least one hundred, where it
/// says so; a negative one never is.
pub proof fn law_weights_start_at_one_hundred(digits: Seq<char>)
    requires
        digits.len() > 0,
        all_digits(digits),
    ensures
        at_least_hundred(digits) <==> nat_of(digits) >= 100,
        !at_least_hundred(seq!['-'] + digits),
{
    law_decimals_say_what_they_write(digits, Seq::empty());
    reveal_strlit("99999996185302734375");
    let bound = "99999996185302734375"@;
    let n = nat_of(digits);
    let front = bound.take(2);
    let rest = bound.skip(2);
    lemma_nat_split(bound, 2);
    assert(nat_of(front) == 99) by {
        assert(front.drop_last() =~= seq!['9']);
        assert(front.drop_last().drop_last() =~= Seq::<char>::empty());
        reveal_with_fuel(nat_of, 3);
    }
    lemma_nat_bound(rest);
    assert(rest[0] == '9');
    lemma_nat_low(rest);
    lemma_pow10_pos(17);
    lemma_pow10_pos(18);
    let p = pow10(18);
    let r = nat_of(rest);
    assert(nat_of(bound) == 99 * p + r);
    assert(0 < r < p);
    assert(pow10(0) == 1);
    assert((99 * p + r) * pow10(0) == 99 * p + r) by (nonlinear_arith)
        requires
            pow10(0) == 1,
    ;
    if n >= 100 {
        assert(n * p >= 100 * p) by (nonlinear_arith)
            requires
                n >= 100,
        ;
    } else {
        assert(n * p <= 99 * p) by (nonlinear_arith)
            requires
                n <= 99,
        ;
    }
}

/// A whole number of at most thirty-six digits fits single precision in every
/// unit, and one of forty places fits in none.
pub proof fn law_large_numbers_do_not_fit(digits: Seq<char>, scale: Scale)
    requires
        digits.len() > 0,
        all_digits(digits),
    ensures
        digits.len() <= 36 ==> finite(digits, scale),
        digits.len() >= 40 && digits[0] != '0' ==> !finite(digits, scale),
{
    law_decimals_say_what_they_write(digits, Seq::empty());
    lemma_bounds();
    let bound = overflow_bound(scale);
    let n = nat_of(digits);
    lemma_nat_bound(digits);
    lemma_nat_bound(bound);
    lemma_nat_low(bound);
    assert(pow10(0) == 1);
    assert(n * pow10(0) == n && nat_of(bound) * pow10(0) == nat_of(bound)) by (nonlinear_arith)
        requires
            pow10(0) == 1,
    ;
    if digits.len() <= 36 {
        lemma_pow10_mono(digits.len(), 36);
        lemma_pow10_mono(36, (bound.len() - 1) as nat);
    }
    if digits.len() >= 40 && digits[0] != '0' {
        assert(text::is_digit(digits[0]));
        lemma_nat_low(digits);
        lemma_pow10_mono(39, (digits.len() - 1) as nat);
        lemma_pow10_mono(bound.len(), 39);
    }
}

/// `inf` and `infinity` are infinite and `nan` is no number, in any case and
/// with any sign; none of them fits, and none is zero.
pub proof fn law_words_for_numbers(s: Seq<char>, scale: Scale)
    requires
        text::lowered(s) == "inf"@ || text::lowered(s) == "infinity"@ || text::lowered(s) == "nan"@,
    ensures
        text::lowered(s) != "nan"@ ==> float_model(s) == Some(FloatModel::Infinite) && float_model(
            seq!['-'] + s,
        ) == Some(FloatModel::Infinite) && float_model(seq!['+'] + s) == Some(FloatModel::Infinite),
        text::lowered(s) == "nan"@ ==> float_model(s) == Some(FloatModel::Nan) && float_model(
            seq!['-'] + s,
        ) == Some(FloatModel::Nan),
        !finite(s, scale),
        !zero(s, scale),
{
    reveal_strlit("inf");
    reveal_strlit("infinity");
    reveal_strlit("nan");
    assert(text::lowered("inf"@) =~= "inf"@);
    assert(text::lowered("infinity"@) =~= "infinity"@);
    assert(text::lowered("nan"@) =~= "nan"@);
    assert("inf"@.len() == 3 && "infinity"@.len() == 8 && "nan"@.len() == 3);
    assert("inf"@[0] == 'i' && "infinity"@[0] == 'i' && "nan"@[0] == 'n');
    assert(text::lowered(s)[0] == text::lower(s[0]));
    let minus = seq!['-'] + s;
    let plus = seq!['+'] + s;
    assert(minus[0] == '-' && plus[0] == '+');
    assert(minus.skip(1) =~= s);
    assert(plus.skip(1) =~= s);
}

} // verus!
