//! The scores of an `Accept` header, as exact decimal numbers.
//!
//! A score is written as a floating-point number: a sign, digits with a point among
//! them, and a power of ten. It is kept as its digits, never as a number of limited
//! precision, so that two scores that differ in any digit are told apart.

use crate::number::{char_is_digit, digit_value, digits_value, is_digit};
use crate::text::{chars_of, chars_eq, copy_range, find, find_in, lowercase, to_lowercase};
use vstd::prelude::*;

verus! {

/// The largest power of ten, by its amount, that is read as it stands. A score that is
/// written with a larger one counts as infinite, or, with a negative one, as zero.
pub const EXPONENT_LIMIT: u64 = 1_000_000_000_000_000_000;

/// A score. A score that is above zero and finite is kept in normal form: it is
/// `0.d1 d2 d3 ...` times ten to the `exponent`, where `digits` holds `d1`, `d2`, ...
/// and `d1` is not 0. `Zero` stands for every score that is not above zero.
pub enum ScoreView {
    Zero,
    Finite { digits: Seq<char>, exponent: int },
    Infinite,
}

/// The digit at a place; behind the last digit every place holds 0.
pub open spec fn digit_at(digits: Seq<char>, i: int) -> nat {
    if 0 <= i < digits.len() {
        digit_value(digits[i])
    } else {
        0
    }
}

/// At place `k` the digit of `a` is the larger one, and before it the digits are equal.
pub open spec fn leads(a: Seq<char>, b: Seq<char>, k: int) -> bool {
    &&& 0 <= k
    &&& digit_at(a, k) > digit_at(b, k)
    &&& forall|j: int| 0 <= j < k ==> digit_at(a, j) == digit_at(b, j)
}

/// Of two runs of digits behind the point, `a` writes the larger number: at the first
/// place where they differ, the digit of `a` is the larger one.
pub open spec fn digits_above(a: Seq<char>, b: Seq<char>) -> bool {
    exists|k: int| leads(a, b, k)
}

/// Whether score `a` is above score `b`. Of two scores in normal form the one with the
/// larger exponent is the larger; with equal exponents the digits decide.
pub open spec fn above(a: ScoreView, b: ScoreView) -> bool {
    match a {
        ScoreView::Zero => false,
        ScoreView::Infinite => !(b is Infinite),
        ScoreView::Finite { digits, exponent } => match b {
            ScoreView::Zero => true,
            ScoreView::Infinite => false,
            ScoreView::Finite { digits: other, exponent: e } => exponent > e || (exponent == e
                && digits_above(digits, other)),
        },
    }
}

/// The score 1, which an entry without a score has.
pub open spec fn one() -> ScoreView {
    ScoreView::Finite { digits: seq!['1'], exponent: 1 }
}

proof fn lemma_first_difference(a: Seq<char>, b: Seq<char>, n: int)
    requires
        0 <= n,
        forall|j: int| 0 <= j < n ==> digit_at(a, j) == digit_at(b, j),
    ensures
        digits_above(a, b) || digits_above(b, a) || forall|j: int|
            digit_at(a, j) == digit_at(b, j),
    decreases a.len() + b.len() - n,
{
    if n >= a.len() && n >= b.len() {
        assert forall|j: int| digit_at(a, j) == digit_at(b, j) by {
            if 0 <= j < n {
            }
        }
    } else if digit_at(a, n) > digit_at(b, n) {
        assert(leads(a, b, n));
    } else if digit_at(a, n) < digit_at(b, n) {
        assert(leads(b, a, n));
    } else {
        assert forall|j: int| 0 <= j < n + 1 implies digit_at(a, j) == digit_at(b, j) by {
            if j < n {
            }
        }
        lemma_first_difference(a, b, n + 1);
    }
}

/// Two runs of digits write different numbers, one the larger, or agree at every place.
pub proof fn lemma_digits_compare(a: Seq<char>, b: Seq<char>)
    ensures
        digits_above(a, b) || digits_above(b, a) || forall|j: int|
            digit_at(a, j) == digit_at(b, j),
{
    lemma_first_difference(a, b, 0);
}

/// Of two runs of digits at most one writes the larger number.
pub proof fn lemma_digits_strict(a: Seq<char>, b: Seq<char>)
    ensures
        !(digits_above(a, b) && digits_above(b, a)),
{
    if digits_above(a, b) && digits_above(b, a) {
        let k1 = choose|k: int| leads(a, b, k);
        let k2 = choose|k: int| leads(b, a, k);
        if k1 < k2 {
            assert(digit_at(b, k1) == digit_at(a, k1));
        } else if k2 < k1 {
            assert(digit_at(a, k2) == digit_at(b, k2));
        }
    }
}

/// What is above the larger is above the smaller.
pub proof fn lemma_digits_transitive(a: Seq<char>, b: Seq<char>, c: Seq<char>)
    requires
        digits_above(a, b),
        digits_above(b, c),
    ensures
        digits_above(a, c),
{
    let k1 = choose|k: int| leads(a, b, k);
    let k2 = choose|k: int| leads(b, c, k);
    if k1 <= k2 {
        if k1 < k2 {
            assert(digit_at(b, k1) == digit_at(c, k1));
        }
        assert forall|j: int| 0 <= j < k1 implies digit_at(a, j) == digit_at(c, j) by {
            assert(digit_at(a, j) == digit_at(b, j));
            assert(digit_at(b, j) == digit_at(c, j));
        }
        assert(leads(a, c, k1));
    } else {
        assert(digit_at(a, k2) == digit_at(b, k2));
        assert forall|j: int| 0 <= j < k2 implies digit_at(a, j) == digit_at(c, j) by {
            assert(digit_at(a, j) == digit_at(b, j));
            assert(digit_at(b, j) == digit_at(c, j));
        }
        assert(leads(a, c, k2));
    }
}

/// What is above a number is above everything that is not above that number.
pub proof fn lemma_digits_carry(z: Seq<char>, y: Seq<char>, x: Seq<char>)
    requires
        digits_above(z, y),
        !digits_above(x, y),
    ensures
        digits_above(z, x),
{
    lemma_digits_compare(x, y);
    if digits_above(y, x) {
        lemma_digits_transitive(z, y, x);
    } else {
        let k = choose|k: int| leads(z, y, k);
        assert forall|j: int| 0 <= j < k implies digit_at(z, j) == digit_at(x, j) by {
            assert(digit_at(z, j) == digit_at(y, j));
            assert(digit_at(x, j) == digit_at(y, j));
        }
        assert(digit_at(x, k) == digit_at(y, k));
        assert(leads(z, x, k));
    }
}

/// Runs of digits of one length that agree at every place write the same number.
proof fn lemma_same_digits_same_number(a: Seq<char>, b: Seq<char>)
    requires
        a.len() == b.len(),
        forall|j: int| 0 <= j < a.len() ==> digit_at(a, j) == digit_at(b, j),
    ensures
        digits_value(a) == digits_value(b),
    decreases a.len(),
{
    if a.len() > 0 {
        let n = a.len() - 1;
        assert forall|j: int| 0 <= j < n implies digit_at(a.drop_last(), j) == digit_at(
            b.drop_last(),
            j,
        ) by {
            assert(digit_at(a, j) == digit_at(b, j));
        }
        lemma_same_digits_same_number(a.drop_last(), b.drop_last());
        assert(digit_at(a, n) == digit_at(b, n));
    }
}

proof fn lemma_leading_digit_is_numeric(a: Seq<char>, b: Seq<char>, k: int)
    requires
        a.len() == b.len(),
        leads(a, b, k),
    ensures
        digits_value(a) > digits_value(b),
    decreases a.len(),
{
    let n = a.len() - 1;
    assert(k <= n);
    assert(digit_at(b, n) <= 9);
    if k == n {
        assert forall|j: int| 0 <= j < n implies digit_at(a.drop_last(), j) == digit_at(
            b.drop_last(),
            j,
        ) by {
            assert(digit_at(a, j) == digit_at(b, j));
        }
        lemma_same_digits_same_number(a.drop_last(), b.drop_last());
    } else {
        assert forall|j: int| 0 <= j < k implies digit_at(a.drop_last(), j) == digit_at(
            b.drop_last(),
            j,
        ) by {
            assert(digit_at(a, j) == digit_at(b, j));
        }
        assert(digit_at(a.drop_last(), k) == digit_at(a, k));
        assert(digit_at(b.drop_last(), k) == digit_at(b, k));
        assert(leads(a.drop_last(), b.drop_last(), k));
        lemma_leading_digit_is_numeric(a.drop_last(), b.drop_last(), k);
    }
}

/// The order of the digits is the order of the numbers: of two runs of digits of one
/// length, one is above the other where the number that it writes is the larger.
pub proof fn lemma_digits_order_is_numeric(a: Seq<char>, b: Seq<char>)
    requires
        a.len() == b.len(),
    ensures
        digits_above(a, b) <==> digits_value(a) > digits_value(b),
{
    if digits_above(a, b) {
        let k = choose|k: int| leads(a, b, k);
        lemma_leading_digit_is_numeric(a, b, k);
    } else {
        lemma_digits_compare(a, b);
        if digits_above(b, a) {
            let k = choose|k: int| leads(b, a, k);
            lemma_leading_digit_is_numeric(b, a, k);
        } else {
            assert forall|j: int| 0 <= j < a.len() implies digit_at(a, j) == digit_at(b, j) by {}
            lemma_same_digits_same_number(a, b);
        }
    }
}

/// Zeros behind the last digit change nothing: a run of digits and the same run with a
/// zero behind it stand alike to every other run.
pub proof fn lemma_zero_behind_changes_nothing(a: Seq<char>, b: Seq<char>)
    ensures
        digits_above(a.push('0'), b) <==> digits_above(a, b),
        digits_above(b, a.push('0')) <==> digits_above(b, a),
{
    let p = a.push('0');
    assert forall|j: int| digit_at(p, j) == digit_at(a, j) by {
        if 0 <= j < a.len() {
            assert(p[j] == a[j]);
        }
    }
    if digits_above(p, b) {
        let k = choose|k: int| leads(p, b, k);
        assert(leads(a, b, k));
    }
    if digits_above(a, b) {
        let k = choose|k: int| leads(a, b, k);
        assert(leads(p, b, k));
    }
    if digits_above(b, p) {
        let k = choose|k: int| leads(b, p, k);
        assert(leads(b, a, k));
    }
    if digits_above(b, a) {
        let k = choose|k: int| leads(b, a, k);
        assert(leads(b, p, k));
    }
}

/// Of two scores at most one is above the other; no score is above itself.
pub proof fn lemma_above_strict(a: ScoreView, b: ScoreView)
    ensures
        !(above(a, b) && above(b, a)),
{
    if let ScoreView::Finite { digits, exponent } = a {
        if let ScoreView::Finite { digits: other, exponent: e } = b {
            lemma_digits_strict(digits, other);
        }
    }
}

/// A score that is above a second, which is above a third, is above the third.
pub proof fn lemma_above_transitive(a: ScoreView, b: ScoreView, c: ScoreView)
    requires
        above(a, b),
        above(b, c),
    ensures
        above(a, c),
{
    if let ScoreView::Finite { digits: da, exponent: ea } = a {
        if let ScoreView::Finite { digits: db, exponent: eb } = b {
            if let ScoreView::Finite { digits: dc, exponent: ec } = c {
                if ea == eb && eb == ec {
                    lemma_digits_transitive(da, db, dc);
                }
            }
        }
    }
}

/// A score that is above a second is above every score that is not above the second.
pub proof fn lemma_above_carries(z: ScoreView, y: ScoreView, x: ScoreView)
    requires
        above(z, y),
        !above(x, y),
    ensures
        above(z, x),
{
    if let ScoreView::Finite { digits: dz, exponent: ez } = z {
        if let ScoreView::Finite { digits: dy, exponent: ey } = y {
            if let ScoreView::Finite { digits: dx, exponent: ex } = x {
                if ez == ey && ey == ex {
                    lemma_digits_carry(dz, dy, dx);
                }
            }
        }
    }
}

/// Every character is a decimal digit.
pub open spec fn all_digits(s: Seq<char>) -> bool {
    forall|i: int| 0 <= i < s.len() ==> is_digit(#[trigger] s[i])
}

/// How many zeros `s` starts with.
pub open spec fn leading_zeros(s: Seq<char>) -> nat
    decreases s.len(),
{
    if s.len() > 0 && s[0] == '0' {
        1 + leading_zeros(s.drop_first())
    } else {
        0
    }
}

/// The number of leading zeros is the only place before which all are zeros and at
/// which no zero stands.
pub proof fn lemma_leading_zeros_is(s: Seq<char>, i: int)
    requires
        0 <= i <= s.len(),
        forall|j: int| 0 <= j < i ==> s[j] == '0',
        i < s.len() ==> s[i] != '0',
    ensures
        leading_zeros(s) == i,
    decreases i,
{
    if i > 0 {
        let t = s.drop_first();
        assert forall|j: int| 0 <= j < i - 1 implies t[j] == '0' by {
            assert(t[j] == s[j + 1]);
        }
        if i - 1 < t.len() {
            assert(t[i - 1] == s[i]);
        }
        lemma_leading_zeros_is(t, i - 1);
    }
}

/// The digits of a mantissa before its point.
pub open spec fn whole_of(mantissa: Seq<char>) -> Seq<char> {
    mantissa.take(find(mantissa, '.'))
}

/// The digits of a mantissa behind its point.
pub open spec fn fraction_of(mantissa: Seq<char>) -> Seq<char> {
    if find(mantissa, '.') < mantissa.len() {
        mantissa.skip(find(mantissa, '.') + 1)
    } else {
        Seq::empty()
    }
}

/// A mantissa is made of digits, with one point at most among them, before them or
/// behind them, and of one digit at least.
pub open spec fn is_mantissa(mantissa: Seq<char>) -> bool {
    &&& all_digits(whole_of(mantissa))
    &&& all_digits(fraction_of(mantissa))
    &&& whole_of(mantissa).len() + fraction_of(mantissa).len() > 0
}

/// The power of ten that a text writes: digits, with a sign before them or none.
pub open spec fn exponent_of(text: Seq<char>) -> Option<int> {
    let signed = text.len() > 0 && (text[0] == '+' || text[0] == '-');
    let digits = if signed {
        text.drop_first()
    } else {
        text
    };
    if digits.len() == 0 || !all_digits(digits) {
        None
    } else if text[0] == '-' {
        Some(-(digits_value(digits) as int))
    } else {
        Some(digits_value(digits) as int)
    }
}

/// The score that a mantissa and a power of ten write. The zeros in front of the
/// mantissa go into the exponent; a mantissa of zeros alone writes zero.
pub open spec fn finite_score(mantissa: Seq<char>, power: int) -> ScoreView {
    let digits = whole_of(mantissa) + fraction_of(mantissa);
    let zeros = leading_zeros(digits);
    if zeros == digits.len() {
        ScoreView::Zero
    } else if power > EXPONENT_LIMIT {
        ScoreView::Infinite
    } else if power < -EXPONENT_LIMIT {
        ScoreView::Zero
    } else {
        ScoreView::Finite {
            digits: digits.skip(zeros as int),
            exponent: whole_of(mantissa).len() - zeros + power,
        }
    }
}

/// The score that a text in lower case writes, without a sign: `inf` or `infinity`;
/// `nan`, which is above nothing; or a mantissa, with `e` and a power of ten behind it
/// or without.
pub open spec fn unsigned_score(body: Seq<char>) -> Option<ScoreView> {
    if body == "inf"@ || body == "infinity"@ {
        Some(ScoreView::Infinite)
    } else if body == "nan"@ {
        Some(ScoreView::Zero)
    } else if !is_mantissa(body.take(find(body, 'e'))) {
        None
    } else if find(body, 'e') >= body.len() {
        Some(finite_score(body, 0))
    } else {
        match exponent_of(body.skip(find(body, 'e') + 1)) {
            None => None,
            Some(power) => Some(finite_score(body.take(find(body, 'e')), power)),
        }
    }
}

/// The score that a text writes, in the notation of floating-point numbers, in capital
/// or small letters. A negative number is above nothing, as zero is. A text of any
/// other form is no score.
pub open spec fn score_value(text: Seq<char>) -> Option<ScoreView> {
    let signed = text.len() > 0 && (text[0] == '+' || text[0] == '-');
    let body = lowercase(
        if signed {
            text.drop_first()
        } else {
            text
        },
    );
    match unsigned_score(body) {
        None => None,
        Some(score) => if signed && text[0] == '-' {
            Some(ScoreView::Zero)
        } else {
            Some(score)
        },
    }
}

/// A score.
#[derive(Debug)]
pub enum Score {
    /// A score that is not above zero.
    Zero,
    /// A score above zero, in normal form.
    Finite { digits: Vec<char>, exponent: i128 },
    /// A score above every number.
    Infinite,
}

impl View for Score {
    type V = ScoreView;

    open spec fn view(&self) -> ScoreView {
        match self {
            Score::Zero => ScoreView::Zero,
            Score::Finite { digits, exponent } => ScoreView::Finite {
                digits: digits@,
                exponent: *exponent as int,
            },
            Score::Infinite => ScoreView::Infinite,
        }
    }
}

fn digit_of(digits: &[char], i: usize) -> (d: u32)
    ensures
        d == digit_at(digits@, i as int),
{
    if i < digits.len() && char_is_digit(digits[i]) {
        digits[i] as u32 - 48
    } else {
        0
    }
}

/// Whether the digits `a` write a larger number behind the point than the digits `b`.
pub fn digits_lead(a: &[char], b: &[char]) -> (larger: bool)
    ensures
        larger == digits_above(a@, b@),
{
    let end: usize = if a.len() >= b.len() {
        a.len()
    } else {
        b.len()
    };
    let mut k: usize = 0;
    while k < end
        invariant
            k <= end,
            end >= a@.len(),
            end >= b@.len(),
            forall|j: int| 0 <= j < k ==> digit_at(a@, j) == digit_at(b@, j),
        decreases end - k,
    {
        let da = digit_of(a, k);
        let db = digit_of(b, k);
        if da > db {
            assert(leads(a@, b@, k as int));
            return true;
        }
        if da < db {
            assert forall|i: int| !leads(a@, b@, i) by {
                if leads(a@, b@, i) {
                    if i < k {
                        assert(digit_at(a@, i) == digit_at(b@, i));
                    } else if i > k {
                        assert(digit_at(a@, k as int) == digit_at(b@, k as int));
                    }
                }
            }
            return false;
        }
        k = k + 1;
    }
    assert forall|i: int| !leads(a@, b@, i) by {
        if leads(a@, b@, i) {
            if i < k {
                assert(digit_at(a@, i) == digit_at(b@, i));
            }
        }
    }
    false
}

impl Score {
    /// The score 1.
    pub fn one() -> (s: Score)
        ensures
            s@ == self::one(),
    {
        let mut digits: Vec<char> = Vec::new();
        digits.push('1');
        assert(digits@ =~= seq!['1']);
        Score::Finite { digits, exponent: 1 }
    }

    /// Whether this score is above the other.
    pub fn above(&self, other: &Score) -> (b: bool)
        ensures
            b == self::above(self@, other@),
    {
        match self {
            Score::Zero => false,
            Score::Infinite => match other {
                Score::Infinite => false,
                _ => true,
            },
            Score::Finite { digits, exponent } => match other {
                Score::Zero => true,
                Score::Infinite => false,
                Score::Finite { digits: theirs, exponent: e } => {
                    if *exponent > *e {
                        true
                    } else if *exponent < *e {
                        false
                    } else {
                        digits_lead(digits.as_slice(), theirs.as_slice())
                    }
                },
            },
        }
    }
}

fn are_digits(s: &[char]) -> (b: bool)
    ensures
        b == all_digits(s@),
{
    let mut i: usize = 0;
    while i < s.len()
        invariant
            i <= s.len(),
            forall|j: int| 0 <= j < i ==> is_digit(s@[j]),
        decreases s.len() - i,
    {
        if !char_is_digit(s[i]) {
            assert(!is_digit(s@[i as int]));
            return false;
        }
        i = i + 1;
    }
    true
}

fn count_leading_zeros(s: &[char]) -> (n: usize)
    ensures
        n == leading_zeros(s@),
        n <= s.len(),
{
    let mut i: usize = 0;
    while i < s.len() && s[i] == '0'
        invariant
            i <= s.len(),
            forall|j: int| 0 <= j < i ==> s@[j] == '0',
        decreases s.len() - i,
    {
        i = i + 1;
    }
    proof {
        lemma_leading_zeros_is(s@, i as int);
    }
    i
}

/// The power of ten that a text writes; a power beyond the limit is given as the limit
/// and one more.
fn read_exponent(text: &[char]) -> (power: Option<i128>)
    ensures
        match power {
            None => exponent_of(text@) is None,
            Some(p) => exponent_of(text@) matches Some(v) && (if v > EXPONENT_LIMIT {
                p == EXPONENT_LIMIT + 1
            } else if v < -EXPONENT_LIMIT {
                p == -EXPONENT_LIMIT - 1
            } else {
                p == v
            }),
        },
{
    let signed = text.len() > 0 && (text[0] == '+' || text[0] == '-');
    let start: usize = if signed {
        1
    } else {
        0
    };
    let ghost digits = text@.skip(start as int);
    assert(text@.skip(0) == text@);
    if start == text.len() {
        return None;
    }
    assert(text@.skip(1) == text@.drop_first());
    let mut i: usize = start;
    let mut acc: u64 = 0;
    assert(digits.take(0) == Seq::<char>::empty());
    while i < text.len()
        invariant
            start <= i <= text.len(),
            start < text.len(),
            start <= 1,
            digits == text@.skip(start as int),
            digits == (if text@[0] == '+' || text@[0] == '-' {
                text@.drop_first()
            } else {
                text@
            }),
            forall|j: int| 0 <= j < i - start ==> is_digit(digits[j]),
            acc <= EXPONENT_LIMIT + 1,
            acc == (if digits_value(digits.take(i - start)) > EXPONENT_LIMIT {
                (EXPONENT_LIMIT + 1) as nat
            } else {
                digits_value(digits.take(i - start))
            }),
        decreases text.len() - i,
    {
        let c = text[i];
        assert(digits[i - start] == c);
        if !char_is_digit(c) {
            assert(!all_digits(digits));
            return None;
        }
        let d: u64 = (c as u32 - 48) as u64;
        proof {
            assert(digits.take(i - start + 1).drop_last() == digits.take(i - start));
            assert(digits.take(i - start + 1).last() == c);
        }
        let next: u64 = acc * 10 + d;
        acc = if next > EXPONENT_LIMIT {
            EXPONENT_LIMIT + 1
        } else {
            next
        };
        i = i + 1;
    }
    assert(digits.take(digits.len() as int) == digits);
    assert(all_digits(digits));
    if text[0] == '-' {
        Some(-(acc as i128))
    } else {
        Some(acc as i128)
    }
}

/// The score that a mantissa and a power of ten write.
fn read_finite(mantissa: &[char], power: i128) -> (score: Option<Score>)
    requires
        -EXPONENT_LIMIT - 1 <= power <= EXPONENT_LIMIT + 1,
    ensures
        match score {
            None => !is_mantissa(mantissa@),
            Some(s) => is_mantissa(mantissa@) && s@ == finite_score(mantissa@, power as int),
        },
{
    let dot = find_in(mantissa, '.');
    let whole = copy_range(mantissa, 0, dot);
    let end = mantissa.len();
    let fraction = if dot < end {
        copy_range(mantissa, dot + 1, end)
    } else {
        Vec::new()
    };
    assert(whole@ == whole_of(mantissa@));
    assert(fraction@ == fraction_of(mantissa@));
    if !are_digits(whole.as_slice()) || !are_digits(fraction.as_slice()) {
        return None;
    }
    if whole.len() == 0 && fraction.len() == 0 {
        return None;
    }
    let before: usize = whole.len();
    let mut digits = whole;
    let mut behind = fraction;
    digits.append(&mut behind);
    assert(digits@ == whole_of(mantissa@) + fraction_of(mantissa@));
    let zeros = count_leading_zeros(digits.as_slice());
    if zeros == digits.len() {
        Some(Score::Zero)
    } else if power > EXPONENT_LIMIT as i128 {
        Some(Score::Infinite)
    } else if power < -(EXPONENT_LIMIT as i128) {
        Some(Score::Zero)
    } else {
        let length = digits.len();
        let kept = copy_range(digits.as_slice(), zeros, length);
        assert(kept@ == digits@.skip(zeros as int));
        Some(Score::Finite { digits: kept, exponent: before as i128 - zeros as i128 + power })
    }
}

fn read_unsigned(body: &[char]) -> (score: Option<Score>)
    ensures
        match score {
            None => unsigned_score(body@) is None,
            Some(s) => unsigned_score(body@) == Some(s@),
        },
{
    let inf = chars_of("inf");
    let infinity = chars_of("infinity");
    let nan = chars_of("nan");
    if chars_eq(body, inf.as_slice()) || chars_eq(body, infinity.as_slice()) {
        return Some(Score::Infinite);
    }
    if chars_eq(body, nan.as_slice()) {
        return Some(Score::Zero);
    }
    let e = find_in(body, 'e');
    let mantissa = copy_range(body, 0, e);
    assert(mantissa@ == body@.take(e as int));
    if e >= body.len() {
        assert(body@.take(e as int) == body@);
        return read_finite(mantissa.as_slice(), 0);
    }
    let end = body.len();
    let tail = copy_range(body, e + 1, end);
    assert(tail@ == body@.skip(e + 1));
    match read_finite(mantissa.as_slice(), 0) {
        None => None,
        Some(_) => match read_exponent(tail.as_slice()) {
            None => None,
            Some(power) => read_finite(mantissa.as_slice(), power),
        },
    }
}

/// Reads a score.
pub fn parse_q_value(text: &[char]) -> (score: Option<Score>)
    ensures
        match score {
            None => score_value(text@) is None,
            Some(s) => score_value(text@) == Some(s@),
        },
{
    let signed = text.len() > 0 && (text[0] == '+' || text[0] == '-');
    let start: usize = if signed {
        1
    } else {
        0
    };
    let end = text.len();
    let unsigned = copy_range(text, start, end);
    assert(text@.subrange(0, text@.len() as int) == text@);
    assert(text@.subrange(1, text@.len() as int) == text@.drop_first());
    let body = to_lowercase(unsigned.as_slice());
    match read_unsigned(body.as_slice()) {
        None => None,
        Some(score) => if signed && text[0] == '-' {
            Some(Score::Zero)
        } else {
            Some(score)
        },
    }
}

} // verus!
