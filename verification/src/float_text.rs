//! Reading numbers written as `f32::from_str` accepts them (`1.25`,
//! `.5`, `2.`, `1e0`, `125E-2`, `inf`, `NaN`, with an optional sign) into
//! integer millionths, rounded half up.

use vstd::prelude::*;
use crate::num::{
    all_digits, digits_value, frac_part, int_part, is_negative,
    lemma_digits_take_step, lemma_pow10_mono, lemma_pow10_pos, pow10, signed_body,
};
use crate::text::{digit_val, find_char, is_digit, lemma_find, slice_range};

verus! {

/// Read values at or above this many millionths are held at it.
pub const FLOAT_CAP: u64 = 10_000_000_000_000;

pub open spec fn all_zero(s: Seq<char>) -> bool {
    forall|i: int| 0 <= i < s.len() ==> #[trigger] s[i] == '0'
}

pub proof fn lemma_zeros_value(s: Seq<char>)
    requires
        all_zero(s),
    ensures
        digits_value(s) == 0,
    decreases s.len(),
{
    if s.len() > 0 {
        lemma_zeros_value(s.drop_last());
    }
}

pub proof fn lemma_pow10_add(a: nat, b: nat)
    ensures
        pow10(a + b) == pow10(a) * pow10(b),
    decreases b,
{
    assert(pow10(0) == 1);
    if b == 0 {
        assert(a + b == a);
        assert(pow10(a) * 1 == pow10(a));
    } else {
        let b1 = (b - 1) as nat;
        let s1 = (a + b1) as nat;
        assert(pow10(b) == 10 * pow10(b1));
        lemma_pow10_add(a, b1);
        assert(a + b == s1 + 1);
        assert(pow10(s1 + 1) == 10 * pow10(s1));
        assert(pow10(a) * (10 * pow10(b1)) == 10 * (pow10(a) * pow10(b1))) by (nonlinear_arith);
    }
}

/// The value of digits `a` followed by digits `b`.
pub proof fn lemma_digits_concat(a: Seq<char>, b: Seq<char>)
    ensures
        digits_value(a + b) == digits_value(a) * pow10(b.len()) + digits_value(b),
    decreases b.len(),
{
    assert(pow10(0) == 1);
    if b.len() == 0 {
        assert(a + b =~= a);
    } else {
        assert(pow10(b.len()) == 10 * pow10((b.len() - 1) as nat));
        assert(digits_value(b) == digits_value(b.drop_last()) * 10 + digit_val(b.last()));
        let bl = b.drop_last();
        lemma_digits_concat(a, bl);
        assert((a + b).drop_last() =~= a + bl);
        assert((a + b).last() == b.last());
        let x = digits_value(a);
        let p = pow10(bl.len());
        let y = digits_value(bl);
        assert((x * p + y) * 10 == x * (10 * p) + y * 10) by (nonlinear_arith);
        assert(digits_value(a + b) == digits_value(a + bl) * 10 + digit_val(b.last()));
    }
}

/// Digits that start with a non-zero one are worth at least `10^(len-1)`.
pub proof fn lemma_digits_lower(s: Seq<char>)
    requires
        s.len() >= 1,
        all_digits(s),
        s[0] != '0',
    ensures
        digits_value(s) >= pow10((s.len() - 1) as nat),
{
    let h = s.take(1);
    let t = s.skip(1);
    assert(s =~= h + t);
    lemma_digits_concat(h, t);
    assert(h.drop_last() =~= Seq::<char>::empty());
    assert(is_digit(s[0]));
    assert(digits_value(h) >= 1);
    lemma_pow10_pos(t.len());
    assert(digits_value(h) * pow10(t.len()) >= pow10(t.len())) by (nonlinear_arith)
        requires
            digits_value(h) >= 1,
    ;
}

/// Digits `d` with the point after the first `q` of them (before them
/// when `q` is 0 or less, with zeros added when `q` is beyond them),
/// rounded half up to a whole number.
pub open spec fn shifted_round(d: Seq<char>, q: int) -> nat {
    (if q <= 0 {
        0nat
    } else if q <= d.len() {
        digits_value(d.take(q))
    } else {
        digits_value(d) * pow10((q - d.len()) as nat)
    }) + (if 0 <= q < d.len() && digit_val(d[q]) >= 5 {
        1nat
    } else {
        0nat
    })
}

/// `v`, held at `FLOAT_CAP`.
pub open spec fn capped(v: nat) -> nat {
    if v > FLOAT_CAP {
        FLOAT_CAP as nat
    } else {
        v
    }
}

/// Digits worth less than one millionth round to 0; digits whose leading
/// non-zero digit stands more than 13 places before the point reach the
/// cap.
proof fn lemma_round_far(d: Seq<char>, z: int, q: int)
    requires
        all_digits(d),
        0 <= z <= d.len(),
        all_zero(d.take(z)),
        z < d.len() ==> d[z] != '0',
    ensures
        z == d.len() ==> shifted_round(d, q) == 0,
        q < 0 ==> shifted_round(d, q) == 0,
        z < d.len() && q - z > 13 ==> capped(shifted_round(d, q)) == FLOAT_CAP,
{
    if z == d.len() {
        assert(d.take(z) =~= d);
        lemma_zeros_value(d);
        if q > 0 && q <= d.len() {
            assert(all_zero(d.take(q)));
            lemma_zeros_value(d.take(q));
        }
        if 0 <= q < d.len() {
            assert(d.take(z)[q] == '0');
        }
    }
    if z < d.len() && q - z > 13 {
        lemma_zeros_value(d.take(z));
        let hi = if q <= d.len() {
            q
        } else {
            d.len() as int
        };
        let mid = d.subrange(z, hi);
        assert(d.take(hi) =~= d.take(z) + mid);
        lemma_digits_concat(d.take(z), mid);
        assert(mid[0] == d[z]);
        lemma_digits_lower(mid);
        assert(digits_value(d.take(hi)) >= pow10((hi - z - 1) as nat));
        lemma_pow10_mono(13, (q - z - 1) as nat);
        assert(pow10(13) == 10_000_000_000_000) by {
            reveal_with_fuel(pow10, 14);
        }
        if q <= d.len() {
            lemma_pow10_mono(13, (q - z - 1) as nat);
        } else {
            assert(d.take(hi) =~= d);
            let e = (q - d.len()) as nat;
            lemma_pow10_add((d.len() - z - 1) as nat, e);
            lemma_pow10_pos(e);
            let x = digits_value(d);
            let lo = pow10((d.len() - z - 1) as nat);
            assert(x * pow10(e) >= lo * pow10(e)) by (nonlinear_arith)
                requires
                    x >= lo,
            ;
            assert((d.len() - z - 1) as nat + e == (q - z - 1) as nat);
        }
    }
}

/// The value of digits `d[z..hi]`, where there are at most 13.
fn digits_between(d: &[char], z: usize, hi: usize) -> (acc: u64)
    requires
        all_digits(d@),
        z <= hi <= d@.len(),
        hi - z <= 13,
    ensures
        acc == digits_value(d@.subrange(z as int, hi as int)),
        acc < pow10((hi - z) as nat),
{
    let mut acc: u64 = 0;
    let mut i: usize = z;
    assert(d@.subrange(z as int, z as int) =~= Seq::<char>::empty());
    assert(pow10(0) == 1);
    assert(pow10(13) == 10_000_000_000_000) by {
        reveal_with_fuel(pow10, 14);
    }
    while i < hi
        invariant
            z <= i <= hi <= d@.len(),
            hi - z <= 13,
            all_digits(d@),
            acc == digits_value(d@.subrange(z as int, i as int)),
            acc < pow10((i - z) as nat),
            pow10(13) == 10_000_000_000_000,
        decreases hi - i,
    {
        assert(d@.subrange(z as int, i + 1).drop_last() =~= d@.subrange(z as int, i as int));
        assert(is_digit(d@[i as int]));
        proof {
            lemma_pow10_mono((i + 1 - z) as nat, 13);
            assert(pow10((i + 1 - z) as nat) == 10 * pow10((i - z) as nat));
        }
        acc = acc * 10 + (d[i] as u32 - '0' as u32) as u64;
        i += 1;
    }
    acc
}

/// `acc * 10^k`, where `acc < 10^m` and `m + k <= 13`.
fn times_pow10(acc: u64, m: usize, k: usize) -> (r: u64)
    requires
        acc < pow10(m as nat),
        m + k <= 13,
    ensures
        r == acc * pow10(k as nat),
        r < pow10((m + k) as nat),
{
    let mut r = acc;
    let mut j: usize = 0;
    assert(pow10(0) == 1);
    assert(pow10(13) == 10_000_000_000_000) by {
        reveal_with_fuel(pow10, 14);
    }
    while j < k
        invariant
            j <= k,
            m + k <= 13,
            r == acc * pow10(j as nat),
            r < pow10((m + j) as nat),
            pow10(13) == 10_000_000_000_000,
        decreases k - j,
    {
        proof {
            lemma_pow10_mono((m + j + 1) as nat, 13);
            assert(pow10((m + j + 1) as nat) == 10 * pow10((m + j) as nat));
            assert(pow10((j + 1) as nat) == 10 * pow10(j as nat));
            assert(acc * pow10(j as nat) * 10 == acc * (10 * pow10(j as nat))) by (nonlinear_arith);
        }
        r = r * 10;
        j += 1;
    }
    r
}

/// `capped(shifted_round(d, q))`, computed.
#[verifier::rlimit(30)]
fn shifted_round_exec(d: &[char], q: i128) -> (r: u64)
    requires
        all_digits(d@),
    ensures
        r == capped(shifted_round(d@, q as int)),
{
    let n = d.len();
    let mut z: usize = 0;
    while z < n && d[z] == '0'
        invariant
            z <= n == d@.len(),
            all_zero(d@.take(z as int)),
        decreases n - z,
    {
        assert(all_zero(d@.take(z + 1)));
        z += 1;
    }
    proof {
        lemma_round_far(d@, z as int, q as int);
    }
    if z == n || q < 0 {
        return 0;
    }
    if q - (z as i128) > 13 {
        return FLOAT_CAP;
    }
    if q <= z as i128 {
        let qu = q as usize;
        proof {
            if qu > 0 {
                assert(all_zero(d@.take(qu as int)));
                lemma_zeros_value(d@.take(qu as int));
            }
            if qu < z {
                assert(d@.take(z as int)[qu as int] == '0');
            }
        }
        return if d[qu] >= '5' {
            1
        } else {
            0
        };
    }
    let hi: usize = if q >= n as i128 {
        n
    } else {
        q as usize
    };
    let acc = digits_between(d, z, hi);
    proof {
        lemma_zeros_value(d@.take(z as int));
        assert(d@.take(hi as int) =~= d@.take(z as int) + d@.subrange(z as int, hi as int));
        lemma_digits_concat(d@.take(z as int), d@.subrange(z as int, hi as int));
        assert(d@.take(n as int) =~= d@);
        assert(pow10(13) == 10_000_000_000_000) by {
            reveal_with_fuel(pow10, 14);
        }
    }
    if q > n as i128 {
        let r = times_pow10(acc, n - z, (q - n as i128) as usize);
        proof {
            lemma_pow10_mono((q - z) as nat, 13);
        }
        return r;
    }
    proof {
        lemma_pow10_mono((hi - z) as nat, 13);
    }
    if hi < n && d[hi] >= '5' {
        acc + 1
    } else {
        acc
    }
}

/// Index of the first digit other than `0` at or after `i`, or the length.
pub open spec fn leading_zeros(d: Seq<char>, i: int) -> int
    decreases d.len() - i,
{
    if 0 <= i < d.len() && d[i] == '0' {
        leading_zeros(d, i + 1)
    } else {
        i
    }
}

proof fn lemma_leading_zeros(d: Seq<char>, i: int)
    requires
        0 <= i <= d.len(),
        all_zero(d.take(i)),
    ensures
        i <= leading_zeros(d, i) <= d.len(),
        all_zero(d.take(leading_zeros(d, i))),
        leading_zeros(d, i) < d.len() ==> d[leading_zeros(d, i)] != '0',
    decreases d.len() - i,
{
    if i < d.len() && d[i] == '0' {
        assert(all_zero(d.take(i + 1)));
        lemma_leading_zeros(d, i + 1);
    }
}

/// The bound at which an exponent is held while it is read.
pub open spec fn exp_bound() -> int {
    100_000_000_000_000_000_000
}

pub open spec fn clamp_exp(e: int) -> int {
    if e > exp_bound() {
        exp_bound()
    } else if e < -exp_bound() {
        -exp_bound()
    } else {
        e
    }
}

/// Holding the exponent at `exp_bound()` changes nothing: beyond it the
/// number is either zero, or far beyond the cap, or far below a millionth.
proof fn lemma_exp_clamp(d: Seq<char>, il: int, e: int)
    requires
        all_digits(d),
        d.len() <= 0x1_0000_0000_0000_0000,
        0 <= il <= 0x1_0000_0000_0000_0000,
    ensures
        capped(shifted_round(d, il + e + 6)) == capped(shifted_round(d, il + clamp_exp(e) + 6)),
{
    assert(all_zero(d.take(0)));
    lemma_leading_zeros(d, 0);
    let z = leading_zeros(d, 0);
    lemma_round_far(d, z, il + e + 6);
    lemma_round_far(d, z, il + clamp_exp(e) + 6);
}

/// The exponent of float text (`[+-]digits`), if it is one.
pub open spec fn exp_value(t: Seq<char>) -> Option<int> {
    let d = signed_body(t);
    if d.len() > 0 && all_digits(d) {
        Some(
            if is_negative(t) {
                -(digits_value(d) as int)
            } else {
                digits_value(d) as int
            },
        )
    } else {
        None
    }
}

/// Reads an exponent, held at `exp_bound()` either way.
fn exp_value_exec(t: &[char]) -> (r: Option<i128>)
    ensures
        match exp_value(t@) {
            Some(e) => r == Some(clamp_exp(e) as i128),
            None => r is None,
        },
{
    let neg = t.len() > 0 && t[0] == '-';
    let d = if t.len() > 0 && (t[0] == '+' || t[0] == '-') {
        slice_range(t, 1, t.len())
    } else {
        slice_range(t, 0, t.len())
    };
    assert(d@ =~= signed_body(t@));
    if d.len() == 0 {
        return None;
    }
    let bound: u128 = 100_000_000_000_000_000_000;
    let mut acc: u128 = 0;
    let mut i: usize = 0;
    assert(d@.take(0) =~= Seq::<char>::empty());
    while i < d.len()
        invariant
            i <= d@.len(),
            bound == exp_bound(),
            d@ == signed_body(t@),
            acc == if digits_value(d@.take(i as int)) > bound {
                bound as int
            } else {
                digits_value(d@.take(i as int)) as int
            },
            forall|k: int| 0 <= k < i ==> is_digit(#[trigger] d@[k]),
        decreases d@.len() - i,
    {
        let c = d[i];
        if !('0' <= c && c <= '9') {
            assert(!all_digits(d@));
            return None;
        }
        proof {
            lemma_digits_take_step(d@, i as int);
        }
        let v = acc * 10 + (c as u32 - '0' as u32) as u128;
        acc = if v > bound {
            bound
        } else {
            v
        };
        i += 1;
    }
    assert(d@.take(d@.len() as int) =~= d@);
    assert(all_digits(d@));
    if neg {
        Some(0 - (acc as i128))
    } else {
        Some(acc as i128)
    }
}

/// ASCII lower case.
pub open spec fn lower(c: char) -> char {
    if 'A' <= c <= 'Z' {
        ((c as u32) + 32) as char
    } else {
        c
    }
}

/// `s` is `w` in any case (`w` in lower case).
pub open spec fn lower_is(s: Seq<char>, w: Seq<char>) -> bool {
    s.len() == w.len() && forall|i: int| 0 <= i < s.len() ==> lower(#[trigger] s[i]) == w[i]
}

/// `inf`, `infinity` or `nan`, in any case: what `f32::from_str` reads as
/// an infinity or as not a number.
pub open spec fn nonfinite_word(b: Seq<char>) -> bool {
    ||| lower_is(b, seq!['i', 'n', 'f'])
    ||| lower_is(b, seq!['i', 'n', 'f', 'i', 'n', 'i', 't', 'y'])
    ||| lower_is(b, seq!['n', 'a', 'n'])
}

fn lower_is_exec(s: &[char], w: &[char]) -> (b: bool)
    requires
        forall|i: int| 0 <= i < w@.len() ==> 'a' <= #[trigger] w@[i] <= 'z',
    ensures
        b == lower_is(s@, w@),
{
    if s.len() != w.len() {
        return false;
    }
    let mut i: usize = 0;
    while i < s.len()
        invariant
            i <= s@.len() == w@.len(),
            forall|k: int| 0 <= k < w@.len() ==> 'a' <= #[trigger] w@[k] <= 'z',
            forall|k: int| 0 <= k < i ==> lower(#[trigger] s@[k]) == w@[k],
        decreases s@.len() - i,
    {
        let c = s[i];
        let wc = w[i];
        let same = c == wc || ('A' <= c && c <= 'Z' && (wc as u32) == (c as u32) + 32);
        proof {
            if 'A' <= c <= 'Z' {
                assert(lower(c) as u32 == c as u32 + 32);
            }
            assert(same == (lower(c) == wc));
        }
        if !same {
            return false;
        }
        i += 1;
    }
    true
}

/// Index of the first `e` or `E` at or after `i`, or the length.
pub open spec fn find_exp_from(s: Seq<char>, i: int) -> int
    decreases s.len() - i,
{
    if 0 <= i < s.len() && s[i] != 'e' && s[i] != 'E' {
        find_exp_from(s, i + 1)
    } else {
        i
    }
}

fn find_exp(s: &[char]) -> (k: usize)
    ensures
        k == find_exp_from(s@, 0),
{
    let mut k: usize = 0;
    while k < s.len() && s[k] != 'e' && s[k] != 'E'
        invariant
            k <= s.len(),
            find_exp_from(s@, 0) == find_exp_from(s@, k as int),
        decreases s.len() - k,
    {
        k += 1;
    }
    k
}

/// What `f32::from_str` reads from `s`, in millionths: an optional sign;
/// then `inf`, `infinity` or `nan` in any case, read as `i64::MAX`
/// (outside every range the dialogs accept); or digits with at most one
/// `.` and at least one digit, then optionally `e` or `E` and an exponent
/// of `[+-]digits`. The exact decimal value is rounded half up to
/// millionths and held at `FLOAT_CAP` either way. `None` for any other
/// text.
pub open spec fn parse_float_micro_spec(s: Seq<char>) -> Option<i64> {
    let b = signed_body(s);
    if nonfinite_word(b) {
        Some(i64::MAX)
    } else {
        let k = find_exp_from(b, 0);
        let m = b.take(k);
        let ip = int_part(m);
        let fp = frac_part(m);
        let e = if k < b.len() {
            exp_value(b.skip(k + 1))
        } else {
            Some(0int)
        };
        if ip.len() + fp.len() > 0 && all_digits(ip) && all_digits(fp) && e is Some {
            let v = capped(shifted_round(ip + fp, ip.len() + e->0 + 6));
            Some(
                (if is_negative(s) {
                    -(v as int)
                } else {
                    v as int
                }) as i64,
            )
        } else {
            None
        }
    }
}

fn all_digits_exec(s: &[char]) -> (b: bool)
    ensures
        b == all_digits(s@),
{
    let mut i: usize = 0;
    while i < s.len()
        invariant
            i <= s@.len(),
            forall|k: int| 0 <= k < i ==> is_digit(#[trigger] s@[k]),
        decreases s@.len() - i,
    {
        if !('0' <= s[i] && s[i] <= '9') {
            return false;
        }
        i += 1;
    }
    true
}

/// The digits of a mantissa `m` (`digits[.digits]`, at least one digit),
/// and how many stand before the point.
fn mantissa_digits(m: &[char]) -> (r: Option<(Vec<char>, usize)>)
    ensures
        match r {
            Some((dd, il)) => {
                &&& int_part(m@).len() + frac_part(m@).len() > 0
                &&& all_digits(int_part(m@))
                &&& all_digits(frac_part(m@))
                &&& dd@ == int_part(m@) + frac_part(m@)
                &&& il == int_part(m@).len()
                &&& all_digits(dd@)
            },
            None => !(int_part(m@).len() + frac_part(m@).len() > 0 && all_digits(int_part(m@))
                && all_digits(frac_part(m@))),
        },
{
    let p = find_char(m, '.');
    proof {
        lemma_find(m@, '.');
    }
    let ip = slice_range(m, 0, p);
    let fp = if p < m.len() {
        slice_range(m, p + 1, m.len())
    } else {
        slice_range(m, 0, 0)
    };
    assert(ip@ =~= int_part(m@));
    assert(fp@ =~= frac_part(m@));
    if ip.len() + fp.len() == 0 {
        return None;
    }
    if !all_digits_exec(ip.as_slice()) || !all_digits_exec(fp.as_slice()) {
        return None;
    }
    let mut dd = ip.clone();
    let mut j: usize = 0;
    while j < fp.len()
        invariant
            j <= fp@.len(),
            dd@ == ip@ + fp@.take(j as int),
        decreases fp@.len() - j,
    {
        dd.push(fp[j]);
        assert(fp@.take(j + 1) =~= fp@.take(j as int).push(fp@[j as int]));
        j += 1;
    }
    assert(fp@.take(fp@.len() as int) =~= fp@);
    assert(all_digits(dd@)) by {
        assert forall|i: int| 0 <= i < dd@.len() implies is_digit(#[trigger] dd@[i]) by {
            if i < ip@.len() {
                assert(dd@[i] == ip@[i]);
            } else {
                assert(dd@[i] == fp@[i - ip@.len()]);
            }
        }
    }
    Some((dd, ip.len()))
}

/// Reads float text into millionths (see `parse_float_micro_spec`).
pub fn parse_float_micro(s: &[char]) -> (r: Option<i64>)
    ensures
        r == parse_float_micro_spec(s@),
{
    let neg = s.len() > 0 && s[0] == '-';
    let b = if s.len() > 0 && (s[0] == '+' || s[0] == '-') {
        slice_range(s, 1, s.len())
    } else {
        slice_range(s, 0, s.len())
    };
    assert(b@ =~= signed_body(s@));
    let inf = vec!['i', 'n', 'f'];
    let infinity = vec!['i', 'n', 'f', 'i', 'n', 'i', 't', 'y'];
    let nan = vec!['n', 'a', 'n'];
    assert(inf@ =~= seq!['i', 'n', 'f']);
    assert(infinity@ =~= seq!['i', 'n', 'f', 'i', 'n', 'i', 't', 'y']);
    assert(nan@ =~= seq!['n', 'a', 'n']);
    if lower_is_exec(b.as_slice(), inf.as_slice()) || lower_is_exec(b.as_slice(), infinity.as_slice())
        || lower_is_exec(b.as_slice(), nan.as_slice()) {
        return Some(i64::MAX);
    }
    let k = find_exp(b.as_slice());
    proof {
        lemma_find_exp(b@, 0);
    }
    let e: i128 = if k < b.len() {
        let t = slice_range(b.as_slice(), k + 1, b.len());
        assert(t@ =~= b@.skip(k + 1));
        match exp_value_exec(t.as_slice()) {
            Some(x) => x,
            None => {
                return None;
            },
        }
    } else {
        0
    };
    let m = slice_range(b.as_slice(), 0, k);
    assert(m@ =~= b@.take(k as int));
    let (dd, il) = match mantissa_digits(m.as_slice()) {
        Some(x) => x,
        None => {
            return None;
        },
    };
    let q: i128 = il as i128 + e + 6;
    proof {
        assert(dd@.len() == dd.len());
        assert(dd.len() <= usize::MAX);
        assert(usize::MAX <= 0xffff_ffff_ffff_ffff);
        lemma_exp_clamp(dd@, il as int, if k < b@.len() {
            exp_value(b@.skip(k + 1))->0
        } else {
            0
        });
    }
    let v = shifted_round_exec(dd.as_slice(), q);
    if neg {
        Some(0 - (v as i64))
    } else {
        Some(v as i64)
    }
}

proof fn lemma_find_exp(s: Seq<char>, i: int)
    requires
        0 <= i <= s.len(),
    ensures
        i <= find_exp_from(s, i) <= s.len(),
    decreases s.len() - i,
{
    if i < s.len() && s[i] != 'e' && s[i] != 'E' {
        lemma_find_exp(s, i + 1);
    }
}

} // verus!
