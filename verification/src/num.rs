//! Parsing and printing of decimal and hexadecimal numbers.
//!
//! Integers follow the grammar of std's `from_str`: an optional sign and
//! at least one digit. Fractional quantities (refresh rates, scale and gamma
//! factors) are held as integers in fixed units (thousandths or
//! millionths) and parsed from plain decimal notation.

use vstd::prelude::*;
use crate::text::{digit_val, find, find_char, is_digit, lemma_find, push_char, slice_range};

verus! {

pub open spec fn all_digits(s: Seq<char>) -> bool {
    forall|i: int| 0 <= i < s.len() ==> is_digit(#[trigger] s[i])
}

/// The value of a string of decimal digits (most significant first).
pub open spec fn digits_value(s: Seq<char>) -> nat
    decreases s.len(),
{
    if s.len() == 0 {
        0
    } else {
        digits_value(s.drop_last()) * 10 + digit_val(s.last())
    }
}

pub open spec fn pow10(k: nat) -> nat
    decreases k,
{
    if k == 0 {
        1
    } else {
        10 * pow10((k - 1) as nat)
    }
}

/// The digits after an optional leading `+`.
pub open spec fn unsigned_body(s: Seq<char>) -> Seq<char> {
    if s.len() > 0 && s[0] == '+' {
        s.drop_first()
    } else {
        s
    }
}

/// The digits after an optional leading `+` or `-`.
pub open spec fn signed_body(s: Seq<char>) -> Seq<char> {
    if s.len() > 0 && (s[0] == '+' || s[0] == '-') {
        s.drop_first()
    } else {
        s
    }
}

pub open spec fn is_negative(s: Seq<char>) -> bool {
    s.len() > 0 && s[0] == '-'
}

/// What `u32::from_str` returns, as an `Option`.
pub open spec fn parse_u32_spec(s: Seq<char>) -> Option<u32> {
    let d = unsigned_body(s);
    if d.len() > 0 && all_digits(d) && digits_value(d) <= u32::MAX {
        Some(digits_value(d) as u32)
    } else {
        None
    }
}

/// What `i32::from_str` returns, as an `Option`.
pub open spec fn parse_i32_spec(s: Seq<char>) -> Option<i32> {
    let d = signed_body(s);
    if d.len() > 0 && all_digits(d) {
        if is_negative(s) {
            if digits_value(d) <= 0x8000_0000 {
                Some((-digits_value(d)) as i32)
            } else {
                None
            }
        } else if digits_value(d) <= 0x7fff_ffff {
            Some(digits_value(d) as i32)
        } else {
            None
        }
    } else {
        None
    }
}

pub proof fn lemma_digits_take_step(s: Seq<char>, i: int)
    requires
        0 <= i < s.len(),
    ensures
        digits_value(s.take(i + 1)) == digits_value(s.take(i)) * 10 + digit_val(s[i]),
{
    assert(s.take(i + 1).drop_last() =~= s.take(i));
}

pub proof fn lemma_digits_take_mono(s: Seq<char>, i: int, j: int)
    requires
        0 <= i <= j <= s.len(),
    ensures
        digits_value(s.take(i)) <= digits_value(s.take(j)),
    decreases j - i,
{
    if i < j {
        lemma_digits_take_mono(s, i, j - 1);
        lemma_digits_take_step(s, j - 1);
    }
}

/// Parses a non-empty run of digits whose value is at most `bound`.
pub fn parse_digits(d: &[char], bound: u64) -> (r: Option<u64>)
    requires
        9 <= bound <= 0xffff_ffff_ffff,
    ensures
        match r {
            Some(v) => d@.len() > 0 && all_digits(d@) && digits_value(d@) <= bound && v
                == digits_value(d@),
            None => !(d@.len() > 0 && all_digits(d@) && digits_value(d@) <= bound),
        },
{
    if d.len() == 0 {
        return None;
    }
    let mut v: u64 = 0;
    let mut i: usize = 0;
    assert(d@.take(0) =~= Seq::<char>::empty());
    while i < d.len()
        invariant
            i <= d.len(),
            9 <= bound <= 0xffff_ffff_ffff,
            v == digits_value(d@.take(i as int)),
            v <= bound,
            forall|k: int| 0 <= k < i ==> is_digit(#[trigger] d@[k]),
        decreases d.len() - i,
    {
        let c = d[i];
        if !('0' <= c && c <= '9') {
            return None;
        }
        proof {
            lemma_digits_take_step(d@, i as int);
        }
        let dv = (c as u32 - '0' as u32) as u64;
        if v > (bound - dv) / 10 {
            proof {
                lemma_digits_take_mono(d@, i + 1, d@.len() as int);
                assert(d@.take(d@.len() as int) =~= d@);
            }
            return None;
        }
        v = v * 10 + dv;
        i += 1;
    }
    assert(d@.take(d@.len() as int) =~= d@);
    Some(v)
}

/// Parses an unsigned 32-bit integer as `u32::from_str` does.
pub fn parse_u32(s: &[char]) -> (r: Option<u32>)
    ensures
        r == parse_u32_spec(s@),
{
    let body = if s.len() > 0 && s[0] == '+' {
        slice_range(s, 1, s.len())
    } else {
        slice_range(s, 0, s.len())
    };
    assert(body@ =~= unsigned_body(s@));
    match parse_digits(body.as_slice(), 0xffff_ffff) {
        Some(v) => Some(v as u32),
        None => None,
    }
}

/// Parses a signed 32-bit integer as `i32::from_str` does.
pub fn parse_i32(s: &[char]) -> (r: Option<i32>)
    ensures
        r == parse_i32_spec(s@),
{
    let neg = s.len() > 0 && s[0] == '-';
    let body = if s.len() > 0 && (s[0] == '+' || s[0] == '-') {
        slice_range(s, 1, s.len())
    } else {
        slice_range(s, 0, s.len())
    };
    assert(body@ =~= signed_body(s@));
    if neg {
        match parse_digits(body.as_slice(), 0x8000_0000) {
            Some(v) => Some((0 - (v as i64)) as i32),
            None => None,
        }
    } else {
        match parse_digits(body.as_slice(), 0x7fff_ffff) {
            Some(v) => Some(v as i32),
            None => None,
        }
    }
}


/// The first `k` fraction digits of `f`, padded with zeros, as an integer.
pub open spec fn frac_value(f: Seq<char>, k: nat) -> nat {
    if f.len() >= k {
        digits_value(f.take(k as int))
    } else {
        digits_value(f) * pow10((k - f.len()) as nat)
    }
}

/// One more unit when the first dropped fraction digit is 5 or above.
pub open spec fn frac_round(f: Seq<char>, k: nat) -> nat {
    if f.len() > k && digit_val(f[k as int]) >= 5 {
        1
    } else {
        0
    }
}

/// The digits before the decimal point.
pub open spec fn int_part(b: Seq<char>) -> Seq<char> {
    b.take(find(b, '.'))
}

/// The digits after the decimal point (empty when there is none).
pub open spec fn frac_part(b: Seq<char>) -> Seq<char> {
    if find(b, '.') < b.len() {
        b.skip(find(b, '.') + 1)
    } else {
        Seq::empty()
    }
}

/// A decimal number `[+-]digits[.digits]` (at least one digit in all,
/// at most 10^9 before the point) in units of 10^-k, rounded half up.
pub open spec fn parse_fixed_spec(s: Seq<char>, k: nat) -> Option<i64> {
    let b = signed_body(s);
    let ip = int_part(b);
    let fp = frac_part(b);
    if ip.len() + fp.len() > 0 && all_digits(ip) && all_digits(fp) && digits_value(ip)
        <= 1_000_000_000 {
        let mag = digits_value(ip) * pow10(k) + frac_value(fp, k) + frac_round(fp, k);
        Some((if is_negative(s) {
            -mag
        } else {
            mag as int
        }) as i64)
    } else {
        None
    }
}

pub proof fn lemma_pow10_mono(i: nat, j: nat)
    requires
        i <= j,
    ensures
        1 <= pow10(i) <= pow10(j),
    decreases j,
{
    lemma_pow10_pos(i);
    if i < j {
        lemma_pow10_mono(i, (j - 1) as nat);
    }
}

pub proof fn lemma_pow10_pos(k: nat)
    ensures
        pow10(k) >= 1,
    decreases k,
{
    if k > 0 {
        lemma_pow10_pos((k - 1) as nat);
    }
}

pub proof fn lemma_pow10_bound(k: nat)
    requires
        k <= 6,
    ensures
        1 <= pow10(k) <= 1_000_000,
{
    lemma_pow10_mono(k, 6);
    reveal_with_fuel(pow10, 7);
}

pub proof fn lemma_digits_bound(s: Seq<char>)
    requires
        all_digits(s),
    ensures
        digits_value(s) < pow10(s.len()),
    decreases s.len(),
{
    if s.len() > 0 {
        assert(all_digits(s.drop_last()));
        lemma_digits_bound(s.drop_last());
    }
}

fn pow10_exec(k: usize) -> (p: u64)
    requires
        k <= 6,
    ensures
        p == pow10(k as nat),
{
    let mut p: u64 = 1;
    let mut i: usize = 0;
    while i < k
        invariant
            i <= k <= 6,
            p == pow10(i as nat),
        decreases k - i,
    {
        proof {
            lemma_pow10_bound((i + 1) as nat);
        }
        p = p * 10;
        i += 1;
    }
    p
}

/// `frac_value(f, k)`, or `None` when `f` holds a non-digit.
fn frac_digits(fp: &[char], k: usize) -> (r: Option<u64>)
    requires
        k <= 6,
    ensures
        match r {
            Some(a) => all_digits(fp@) && a == frac_value(fp@, k as nat) && a < pow10(k as nat),
            None => !all_digits(fp@),
        },
{
    // Fraction digits: all must be digits; the first k count.
    let mut acc: u64 = 0;
    let mut j: usize = 0;
    assert(fp@.take(0) =~= Seq::<char>::empty());
    while j < fp.len()
        invariant
            j <= fp.len(),
            k <= 6,
            forall|t: int| 0 <= t < j ==> is_digit(#[trigger] fp@[t]),
            acc == digits_value(fp@.take(if j < k { j as int } else { k as int })),
            acc < pow10(if j < k { j as nat } else { k as nat }),
        decreases fp.len() - j,
    {
        let c = fp[j];
        if !('0' <= c && c <= '9') {
            assert(!all_digits(fp@));
            return None;
        }
        if j < k {
            proof {
                lemma_digits_take_step(fp@, j as int);
                lemma_pow10_bound((j + 1) as nat);
            }
            acc = acc * 10 + (c as u32 - '0' as u32) as u64;
        }
        j += 1;
    }
    assert(all_digits(fp@));
    // Pad with zeros when fewer than k fraction digits were given.
    let mut m: usize = if fp.len() < k { fp.len() } else { k };
    if m < k {
        assert(fp@.take(fp@.len() as int) =~= fp@);
        assert(pow10(0) == 1);
        assert(acc == digits_value(fp@) * pow10(0));
    }
    while m < k
        invariant
            m <= k <= 6,
            fp.len() < k ==> fp.len() <= m,
            fp.len() >= k ==> m == k,
            fp.len() < k ==> acc == digits_value(fp@) * pow10((m - fp.len()) as nat),
            fp.len() >= k ==> acc == digits_value(fp@.take(k as int)),
            acc < pow10(m as nat),
        decreases k - m,
    {
        proof {
            lemma_pow10_bound((m + 1) as nat);
            let d = digits_value(fp@);
            let q = pow10((m - fp.len()) as nat);
            assert(d * q * 10 == d * (10 * q)) by (nonlinear_arith);
            assert(pow10((m + 1 - fp.len()) as nat) == 10 * q);
        }
        acc = acc * 10;
        m += 1;
    }
    Some(acc)
}

/// Parses a decimal number into units of 10^-k (see `parse_fixed_spec`).
pub fn parse_fixed(s: &[char], k: usize) -> (r: Option<i64>)
    requires
        k <= 6,
    ensures
        r == parse_fixed_spec(s@, k as nat),
{
    let neg = s.len() > 0 && s[0] == '-';
    let body = if s.len() > 0 && (s[0] == '+' || s[0] == '-') {
        slice_range(s, 1, s.len())
    } else {
        slice_range(s, 0, s.len())
    };
    assert(body@ =~= signed_body(s@));
    let p = find_char(body.as_slice(), '.');
    proof {
        lemma_find(body@, '.');
    }
    let ip = slice_range(body.as_slice(), 0, p);
    let fp = if p < body.len() {
        slice_range(body.as_slice(), p + 1, body.len())
    } else {
        slice_range(body.as_slice(), 0, 0)
    };
    assert(ip@ =~= int_part(body@));
    assert(fp@ =~= frac_part(body@));
    if ip.len() + fp.len() == 0 {
        return None;
    }
    let iv: u64 = if ip.len() == 0 {
        assert(all_digits(ip@));
        0
    } else {
        match parse_digits(ip.as_slice(), 1_000_000_000) {
            Some(v) => v,
            None => {
                return None;
            },
        }
    };
    let acc = match frac_digits(fp.as_slice(), k) {
        Some(a) => a,
        None => {
            return None;
        },
    };
    let round: u64 = if fp.len() > k && fp[k] >= '5' {
        1
    } else {
        0
    };
    let pk = pow10_exec(k);
    proof {
        lemma_pow10_bound(k as nat);
        assert(iv * pk <= 1_000_000_000 * 1_000_000) by (nonlinear_arith)
            requires
                iv <= 1_000_000_000,
                pk <= 1_000_000,
        ;
    }
    let mag: u64 = iv * pk + acc + round;
    if neg {
        Some(0 - (mag as i64))
    } else {
        Some(mag as i64)
    }
}


/// The character of a decimal digit.
pub open spec fn digit_char(d: nat) -> char {
    (48 + d) as char
}

/// Decimal notation of `n` (as `{}` prints it).
pub open spec fn dec(n: nat) -> Seq<char>
    decreases n,
{
    if n < 10 {
        seq![digit_char(n)]
    } else {
        dec(n / 10).push(digit_char(n % 10))
    }
}

/// Decimal notation is a non-empty string of digits whose value is the
/// number written.
pub proof fn lemma_dec_digits(n: nat)
    ensures
        dec(n).len() >= 1,
        all_digits(dec(n)),
        digits_value(dec(n)) == n,
    decreases n,
{
    let k = n % 10;
    assert(digit_char(k) as u32 == 48 + k);
    assert(digit_val(digit_char(k)) == k);
    vstd::arithmetic::div_mod::lemma_fundamental_div_mod(n as int, 10);
    if n < 10 {
        vstd::arithmetic::div_mod::lemma_small_mod(n, 10);
        assert(dec(n) == seq![digit_char(n)]);
        assert(dec(n).drop_last() =~= Seq::<char>::empty());
        assert(dec(n).last() == digit_char(k));
        assert(digits_value(dec(n)) == digits_value(Seq::<char>::empty()) * 10 + k);
        assert(digits_value(dec(n)) == n);
    } else {
        lemma_dec_digits(n / 10);
        let d = dec(n);
        assert(d.drop_last() =~= dec(n / 10));
        assert(d.last() == digit_char(k));
        assert(digits_value(d) == digits_value(dec(n / 10)) * 10 + k);
        assert(digits_value(d) == n);
        assert forall|i: int| 0 <= i < d.len() implies is_digit(#[trigger] d[i]) by {
            if i < d.len() - 1 {
                assert(d[i] == dec(n / 10)[i]);
            }
        }
    }
}

/// Decimal notation of a signed integer.
pub open spec fn dec_int(i: int) -> Seq<char> {
    if i < 0 {
        seq!['-'] + dec((-i) as nat)
    } else {
        dec(i as nat)
    }
}

/// `n` copies of `c`.
pub open spec fn repeat(c: char, n: nat) -> Seq<char> {
    Seq::new(n, |_i: int| c)
}

/// `d` padded on the left with `c` to at least `w` characters.
pub open spec fn pad_left(d: Seq<char>, c: char, w: nat) -> Seq<char> {
    if d.len() < w {
        repeat(c, (w - d.len()) as nat) + d
    } else {
        d
    }
}

/// `d` padded on the right with spaces to at least `w` characters (`{:<w}`).
pub open spec fn pad_right(d: Seq<char>, w: nat) -> Seq<char> {
    if d.len() < w {
        d + repeat(' ', (w - d.len()) as nat)
    } else {
        d
    }
}

/// The sign prefix of a negative number.
pub open spec fn sign(neg: bool) -> Seq<char> {
    if neg {
        seq!['-']
    } else {
        Seq::empty()
    }
}

pub open spec fn abs(v: int) -> nat {
    if v < 0 {
        (-v) as nat
    } else {
        v as nat
    }
}

/// A value in thousandths with three decimals (as `{:.3}` prints it).
pub open spec fn milli_3dp(v: int) -> Seq<char> {
    sign(v < 0) + dec(abs(v) / 1000) + seq!['.'] + pad_left(dec(abs(v) % 1000), '0', 3)
}

/// A value in thousandths rounded half up to two decimals (as `{:.2}` prints it).
pub open spec fn milli_2dp(v: int) -> Seq<char> {
    let c = (abs(v) + 5) / 10;
    sign(v < 0) + dec(c / 100) + seq!['.'] + pad_left(dec(c % 100), '0', 2)
}

/// `s` without its trailing `'0'` characters.
pub open spec fn strip_zeros(s: Seq<char>) -> Seq<char>
    decreases s.len(),
{
    if s.len() > 0 && s.last() == '0' {
        strip_zeros(s.drop_last())
    } else {
        s
    }
}

/// A value in millionths in shortest decimal form (`1250000` is `1.25`,
/// `1000000` is `1`).
pub open spec fn micro_str(v: int) -> Seq<char> {
    let a = abs(v);
    sign(v < 0) + dec(a / 1_000_000) + if a % 1_000_000 == 0 {
        Seq::empty()
    } else {
        seq!['.'] + strip_zeros(pad_left(dec(a % 1_000_000), '0', 6))
    }
}

/// The character of a lower-case hexadecimal digit.
pub open spec fn hex_char(d: nat) -> char {
    if d < 10 {
        (48 + d) as char
    } else {
        (87 + d) as char
    }
}

/// Lower-case hexadecimal notation of `n` (as `{:x}` prints it).
pub open spec fn hex(n: nat) -> Seq<char>
    decreases n,
{
    if n < 16 {
        seq![hex_char(n)]
    } else {
        hex(n / 16).push(hex_char(n % 16))
    }
}

fn digit_char_exec(d: u64) -> (c: char)
    requires
        d < 10,
    ensures
        c == digit_char(d as nat),
{
    ((d as u8) + 48) as char
}

fn hex_char_exec(d: u64) -> (c: char)
    requires
        d < 16,
    ensures
        c == hex_char(d as nat),
{
    if d < 10 {
        ((d as u8) + 48) as char
    } else {
        ((d as u8) + 87) as char
    }
}

/// Appends the decimal notation of `n`.
pub fn push_dec(s: &mut String, n: u64)
    ensures
        final(s)@ == old(s)@ + dec(n as nat),
    decreases n,
{
    if n < 10 {
        push_char(s, digit_char_exec(n));
    } else {
        push_dec(s, n / 10);
        push_char(s, digit_char_exec(n % 10));
        assert(old(s)@ + dec((n / 10) as nat) + seq![digit_char((n % 10) as nat)] =~= old(s)@ + dec(
            n as nat,
        ));
    }
}

/// Appends the lower-case hexadecimal notation of `n`.
pub fn push_hex(s: &mut String, n: u64)
    ensures
        final(s)@ == old(s)@ + hex(n as nat),
    decreases n,
{
    if n < 16 {
        push_char(s, hex_char_exec(n));
    } else {
        push_hex(s, n / 16);
        push_char(s, hex_char_exec(n % 16));
        assert(old(s)@ + hex((n / 16) as nat) + seq![hex_char((n % 16) as nat)] =~= old(s)@ + hex(
            n as nat,
        ));
    }
}

pub proof fn lemma_dec_len(n: nat)
    ensures
        1 <= dec(n).len(),
        n < 10 ==> dec(n).len() == 1,
        n < 100 ==> dec(n).len() <= 2,
        n < 1000 ==> dec(n).len() <= 3,
        n < 10000 ==> dec(n).len() <= 4,
        n < 100000 ==> dec(n).len() <= 5,
        n < 1_000_000 ==> dec(n).len() <= 6,
        dec(n).len() <= n + 1,
    decreases n,
{
    if n >= 10 {
        lemma_dec_len(n / 10);
    }
}

pub proof fn lemma_hex_len(n: nat)
    ensures
        1 <= hex(n).len(),
        n < 16 ==> hex(n).len() == 1,
        n < 256 ==> hex(n).len() <= 2,
        n < 4096 ==> hex(n).len() <= 3,
        n < 65536 ==> hex(n).len() <= 4,
        hex(n).len() <= n + 1,
    decreases n,
{
    if n >= 16 {
        lemma_hex_len(n / 16);
    }
}

/// Appends `n` copies of `c`.
pub fn push_repeat(s: &mut String, c: char, n: usize)
    ensures
        final(s)@ == old(s)@ + repeat(c, n as nat),
{
    let mut i: usize = 0;
    while i < n
        invariant
            i <= n,
            s@ == old(s)@ + repeat(c, i as nat),
        decreases n - i,
    {
        push_char(s, c);
        assert(old(s)@ + repeat(c, i as nat) + seq![c] =~= old(s)@ + repeat(c, (i + 1) as nat));
        i += 1;
    }
}

/// Appends `n` in decimal, zero-padded on the left to `w` digits.
pub fn push_dec_padded(s: &mut String, n: u64, w: usize)
    ensures
        final(s)@ == old(s)@ + pad_left(dec(n as nat), '0', w as nat),
{
    let mut d = String::new();
    push_dec(&mut d, n);
    let len = d.as_str().unicode_len();
    assert(d@ =~= dec(n as nat));
    if len < w {
        push_repeat(s, '0', w - len);
    }
    crate::text::push_str(s, d.as_str());
    assert(old(s)@ + pad_left(dec(n as nat), '0', w as nat) =~= s@);
}

/// Appends `n` in lower-case hex, zero-padded on the left to `w` digits.
pub fn push_hex_padded(s: &mut String, n: u64, w: usize)
    ensures
        final(s)@ == old(s)@ + pad_left(hex(n as nat), '0', w as nat),
{
    let mut d = String::new();
    push_hex(&mut d, n);
    let len = d.as_str().unicode_len();
    assert(d@ =~= hex(n as nat));
    if len < w {
        push_repeat(s, '0', w - len);
    }
    crate::text::push_str(s, d.as_str());
    assert(old(s)@ + pad_left(hex(n as nat), '0', w as nat) =~= s@);
}

/// Appends a signed integer in decimal.
pub fn push_dec_int(s: &mut String, v: i64)
    ensures
        final(s)@ == old(s)@ + dec_int(v as int),
{
    if v < 0 {
        push_char(s, '-');
        let a: u64 = (0 - (v as i128)) as u64;
        push_dec(s, a);
        assert(old(s)@ + seq!['-'] + dec(a as nat) =~= old(s)@ + dec_int(v as int));
    } else {
        push_dec(s, v as u64);
    }
}

fn abs_exec(v: i64) -> (a: u64)
    ensures
        a == abs(v as int),
{
    if v < 0 {
        (0 - (v as i128)) as u64
    } else {
        v as u64
    }
}

/// Appends a value in thousandths with three decimals.
pub fn push_milli_3dp(s: &mut String, v: i64)
    ensures
        final(s)@ == old(s)@ + milli_3dp(v as int),
{
    let a = abs_exec(v);
    if v < 0 {
        push_char(s, '-');
    }
    push_dec(s, a / 1000);
    push_char(s, '.');
    push_dec_padded(s, a % 1000, 3);
    assert(s@ =~= old(s)@ + milli_3dp(v as int));
}

/// Appends a value in thousandths rounded half up to two decimals.
pub fn push_milli_2dp(s: &mut String, v: i64)
    ensures
        final(s)@ == old(s)@ + milli_2dp(v as int),
{
    let a = abs_exec(v);
    let c = (a + 5) / 10;
    if v < 0 {
        push_char(s, '-');
    }
    push_dec(s, c / 100);
    push_char(s, '.');
    push_dec_padded(s, c % 100, 2);
    assert(s@ =~= old(s)@ + milli_2dp(v as int));
}

fn strip_zeros_exec(v: &[char]) -> (out: Vec<char>)
    ensures
        out@ == strip_zeros(v@),
{
    let mut e = v.len();
    assert(v@.take(e as int) =~= v@);
    while e > 0 && v[e - 1] == '0'
        invariant
            e <= v.len(),
            strip_zeros(v@) == strip_zeros(v@.take(e as int)),
        decreases e,
    {
        assert(v@.take(e as int).drop_last() =~= v@.take(e - 1));
        e -= 1;
    }
    crate::text::slice_take(v, e)
}

/// Appends a value in millionths in shortest decimal form.
pub fn push_micro(s: &mut String, v: i64)
    ensures
        final(s)@ == old(s)@ + micro_str(v as int),
{
    let a = abs_exec(v);
    if v < 0 {
        push_char(s, '-');
    }
    push_dec(s, a / 1_000_000);
    let f = a % 1_000_000;
    if f != 0 {
        push_char(s, '.');
        let mut t = String::new();
        push_dec_padded(&mut t, f, 6);
        let tv = crate::text::chars_of(t.as_str());
        let st = strip_zeros_exec(tv.as_slice());
        crate::text::push_chars(s, st.as_slice());
    }
    assert(s@ =~= old(s)@ + micro_str(v as int));
}

/// Decimal notation of an unsigned integer.
pub fn fmt_u64(n: u64) -> (s: String)
    ensures
        s@ == dec(n as nat),
{
    let mut s = String::new();
    push_dec(&mut s, n);
    assert(s@ =~= dec(n as nat));
    s
}


/// A value in millionths rounded half up to two decimals (as `{:.2}`).
pub open spec fn micro_2dp(v: int) -> Seq<char> {
    let c = (abs(v) + 5000) / 10000;
    sign(v < 0) + dec(c / 100) + seq!['.'] + pad_left(dec(c % 100), '0', 2)
}

/// Appends a value in millionths rounded half up to two decimals.
pub fn push_micro_2dp(s: &mut String, v: i64)
    ensures
        final(s)@ == old(s)@ + micro_2dp(v as int),
{
    let a = abs_exec(v);
    let c = (a / 2 + 2500) / 5000;
    assert(c == (a + 5000) / 10000) by (nonlinear_arith)
        requires
            c == (a / 2 + 2500) / 5000,
            a >= 0,
    ;
    if v < 0 {
        push_char(s, '-');
    }
    push_dec(s, c / 100);
    push_char(s, '.');
    push_dec_padded(s, c % 100, 2);
    assert(s@ =~= old(s)@ + micro_2dp(v as int));
}

} // verus!
