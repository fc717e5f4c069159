use vstd::prelude::*;
use vstd::string::StringExecFns;
use vstd::string::StrSliceExecFns;

verus! {

/// The largest magnitude of a micro-unit amount.
pub const MAX_MICROS: u64 = 9_223_372_036_854_775_807;

/// The largest whole part whose micro-unit amount can still fit in an `i64`.
pub const MAX_WHOLE: u64 = 9_223_372_036_854;

pub open spec fn is_digit(c: char) -> bool {
    '0' <= c && c <= '9'
}

pub open spec fn digit_value(c: char) -> int {
    c as int - '0' as int
}

pub open spec fn pow10(n: nat) -> int
    decreases n,
{
    if n == 0 {
        1
    } else {
        10 * pow10((n - 1) as nat)
    }
}

/// Where a left-to-right read of the digits of a decimal number stands: the whole
/// part, the fractional digits kept (at most six), how many were kept, whether the
/// point was seen, and how many digits were read in all.
pub struct DecimalScan {
    pub whole: int,
    pub frac: int,
    pub frac_len: nat,
    pub seen_point: bool,
    pub digits: nat,
}

pub open spec fn scan_start() -> DecimalScan {
    DecimalScan { whole: 0, frac: 0, frac_len: 0, seen_point: false, digits: 0 }
}

/// One character of the unsigned part: a digit, or the single decimal point.
/// Fractional digits after the sixth are read and dropped.
pub open spec fn scan_step(st: DecimalScan, c: char) -> Option<DecimalScan> {
    if is_digit(c) {
        if !st.seen_point {
            Some(DecimalScan { whole: st.whole * 10 + digit_value(c), digits: st.digits + 1, ..st })
        } else if st.frac_len < 6 {
            Some(
                DecimalScan {
                    frac: st.frac * 10 + digit_value(c),
                    frac_len: st.frac_len + 1,
                    digits: st.digits + 1,
                    ..st
                },
            )
        } else {
            Some(DecimalScan { digits: st.digits + 1, ..st })
        }
    } else if c == '.' && !st.seen_point {
        Some(DecimalScan { seen_point: true, ..st })
    } else {
        None
    }
}

/// The scan of the first `n` characters of `s`.
pub open spec fn scan_prefix(s: Seq<char>, n: nat) -> Option<DecimalScan>
    decreases n,
{
    if n == 0 {
        Some(scan_start())
    } else {
        match scan_prefix(s, (n - 1) as nat) {
            Some(st) => scan_step(st, s[n - 1]),
            None => None,
        }
    }
}

pub open spec fn has_sign(s: Seq<char>) -> bool {
    s.len() > 0 && (s[0] == '-' || s[0] == '+')
}

pub open spec fn unsigned_part(s: Seq<char>) -> Seq<char> {
    if has_sign(s) {
        s.subrange(1, s.len() as int)
    } else {
        s
    }
}

/// The amount, in micro-units, that a decimal text denotes: an optional sign, then
/// digits with at most one decimal point and at least one digit. Digits beyond the
/// sixth after the point are dropped (the amount is truncated toward zero).
pub open spec fn decimal_micros(s: Seq<char>) -> Option<int> {
    let body = unsigned_part(s);
    match scan_prefix(body, body.len()) {
        Some(st) => if st.digits > 0 {
            let magnitude = st.whole * 1_000_000 + st.frac * pow10((6 - st.frac_len) as nat);
            if s.len() > 0 && s[0] == '-' {
                Some(-magnitude)
            } else {
                Some(magnitude)
            }
        } else {
            None
        },
        None => None,
    }
}

/// Whether a decimal text denotes an amount whose magnitude fits an `i64` of micro-units.
pub open spec fn fits_micros(s: Seq<char>) -> bool {
    decimal_micros(s) matches Some(v) && -(MAX_MICROS as int) <= v <= MAX_MICROS as int
}

proof fn lemma_scan_bounds(s: Seq<char>, n: nat)
    requires
        n <= s.len(),
        scan_prefix(s, n) is Some,
    ensures
        ({
            let st = scan_prefix(s, n)->0;
            &&& st.whole >= 0
            &&& st.frac_len <= 6
            &&& 0 <= st.frac < pow10(st.frac_len)
        }),
    decreases n,
{
    if n > 0 {
        lemma_scan_bounds(s, (n - 1) as nat);
        let st = scan_prefix(s, (n - 1) as nat)->0;
        if st.frac_len < 6 {
            assert(pow10(st.frac_len + 1) == 10 * pow10(st.frac_len));
        }
    }
}

/// Reads a decimal text as micro-units; `None` where the text is no decimal number
/// or its amount does not fit.
pub fn parse_micros(s: &str) -> (r: Option<i64>)
    ensures
        r is Some <==> fits_micros(s@),
        r matches Some(v) ==> decimal_micros(s@) == Some(v as int),
{
    let n = s.unicode_len();
    let mut start: usize = 0;
    let mut negative = false;
    if n > 0 {
        let c0 = s.get_char(0);
        if c0 == '-' || c0 == '+' {
            start = 1;
            negative = c0 == '-';
        }
    }
    let ghost body = unsigned_part(s@);
    assert(body =~= s@.subrange(start as int, n as int));
    let mut whole: u64 = 0;
    let mut too_big = false;
    let mut frac: u64 = 0;
    let mut frac_len: u64 = 0;
    let mut seen_point = false;
    let mut digits: usize = 0;
    let mut i: usize = start;
    while i < n
        invariant
            start <= i <= n,
            n == s@.len(),
            body == s@.subrange(start as int, n as int),
            body == unsigned_part(s@),
            negative <==> (s@.len() > 0 && s@[0] == '-'),
            scan_prefix(body, (i - start) as nat) matches Some(st) && {
                &&& too_big <==> st.whole > MAX_WHOLE
                &&& !too_big ==> whole == st.whole
                &&& frac == st.frac
                &&& frac_len == st.frac_len
                &&& seen_point == st.seen_point
                &&& digits == st.digits
            },
            digits <= i,
        decreases n - i,
    {
        let c = s.get_char(i);
        let ghost k = (i - start) as nat;
        assert(body[k as int] == c);
        proof {
            lemma_scan_bounds(body, k);
        }
        if '0' <= c && c <= '9' {
            let d = (c as u32 - '0' as u32) as u64;
            if !seen_point {
                if !too_big {
                    if whole > MAX_WHOLE / 10 || whole * 10 + d > MAX_WHOLE {
                        too_big = true;
                    } else {
                        whole = whole * 10 + d;
                    }
                }
            } else if frac_len < 6 {
                assert(pow10(frac_len as nat) <= 100000) by {
                    reveal_with_fuel(pow10, 7);
                }
                frac = frac * 10 + d;
                frac_len = frac_len + 1;
            }
            digits = digits + 1;
        } else if c == '.' && !seen_point {
            seen_point = true;
        } else {
            assert(scan_prefix(body, k + 1) is None);
            proof {
                lemma_none_stays(body, k + 1);
            }
            assert(body.len() == (n - start) as nat);
            assert(scan_prefix(body, body.len()) is None);
            assert(decimal_micros(s@) is None);
            return None;
        }
        i = i + 1;
    }
    assert(body.len() == (n - start) as nat);
    proof {
        lemma_scan_bounds(body, body.len());
    }
    if digits == 0 || too_big {
        proof {
            let st = scan_prefix(body, body.len())->0;
            if too_big {
                lemma_pow10_positive((6 - st.frac_len) as nat);
                assert(st.frac * pow10((6 - st.frac_len) as nat) >= 0) by (nonlinear_arith)
                    requires
                        st.frac >= 0,
                        pow10((6 - st.frac_len) as nat) >= 0,
                ;
                assert(st.whole * 1_000_000 >= (MAX_WHOLE + 1) * 1_000_000) by (nonlinear_arith)
                    requires
                        st.whole >= MAX_WHOLE + 1,
                ;
            }
        }
        return None;
    }
    let mut scaled: u64 = frac;
    let mut k: u64 = frac_len;
    while k < 6
        invariant
            frac_len <= k <= 6,
            scaled == frac * pow10((k - frac_len) as nat),
            frac < pow10(frac_len as nat),
            scaled < pow10(k as nat),
        decreases 6 - k,
    {
        assert(pow10(k as nat) <= 100000) by {
            reveal_with_fuel(pow10, 7);
        }
        assert(pow10((k + 1 - frac_len) as nat) == 10 * pow10((k - frac_len) as nat));
        assert(pow10((k + 1) as nat) == 10 * pow10(k as nat));
        scaled = scaled * 10;
        k = k + 1;
        assert(scaled == frac * pow10((k - frac_len) as nat)) by (nonlinear_arith)
            requires
                scaled == 10 * (frac * pow10((k - 1 - frac_len) as nat)),
                pow10((k - frac_len) as nat) == 10 * pow10((k - 1 - frac_len) as nat),
        ;
    }
    assert(pow10(6) == 1_000_000) by {
        reveal_with_fuel(pow10, 7);
    }
    let total: u64 = whole * 1_000_000 + scaled;
    if total > MAX_MICROS {
        return None;
    }
    if negative {
        Some(-(total as i64))
    } else {
        Some(total as i64)
    }
}

proof fn lemma_pow10_positive(n: nat)
    ensures
        pow10(n) >= 1,
    decreases n,
{
    if n > 0 {
        lemma_pow10_positive((n - 1) as nat);
    }
}

proof fn lemma_none_stays(s: Seq<char>, n: nat)
    requires
        n <= s.len(),
        scan_prefix(s, n) is None,
    ensures
        scan_prefix(s, s.len()) is None,
    decreases s.len() - n,
{
    if n < s.len() {
        assert(scan_prefix(s, n + 1) is None);
        lemma_none_stays(s, n + 1);
    }
}

/// The amount a decimal text denotes, or zero where it does not parse or fit.
pub open spec fn micros_value(s: Seq<char>) -> int {
    if fits_micros(s) {
        decimal_micros(s)->0
    } else {
        0
    }
}

/// The amount a decimal text denotes, or zero where it does not parse or fit.
pub fn micros_or_zero(s: &str) -> (r: i64)
    ensures
        r == micros_value(s@),
{
    match parse_micros(s) {
        Some(v) => v,
        None => 0,
    }
}

pub open spec fn digit_char(d: int) -> char {
    ('0' as int + d) as char
}

/// The decimal digits of `n`, without leading zeros.
pub open spec fn decimal_text(n: nat) -> Seq<char>
    decreases n,
{
    if n < 10 {
        seq![digit_char(n as int)]
    } else {
        decimal_text(n / 10).push(digit_char((n % 10) as int))
    }
}

/// The last `width` decimal digits of `n`, with leading zeros.
pub open spec fn padded_text(n: nat, width: nat) -> Seq<char>
    decreases width,
{
    if width == 0 {
        Seq::empty()
    } else {
        padded_text(n / 10, (width - 1) as nat).push(digit_char((n % 10) as int))
    }
}

/// A quantity of micro-units written with six decimals.
pub open spec fn micros_text(q: nat) -> Seq<char> {
    decimal_text(q / 1_000_000) + seq!['.'] + padded_text(q % 1_000_000, 6)
}

fn digit_str(d: u64) -> (r: &'static str)
    requires
        d < 10,
    ensures
        r@ == seq![digit_char(d as int)],
{
    proof {
        reveal_strlit("0");
        reveal_strlit("1");
        reveal_strlit("2");
        reveal_strlit("3");
        reveal_strlit("4");
        reveal_strlit("5");
        reveal_strlit("6");
        reveal_strlit("7");
        reveal_strlit("8");
        reveal_strlit("9");
    }
    let r = match d {
        0 => "0",
        1 => "1",
        2 => "2",
        3 => "3",
        4 => "4",
        5 => "5",
        6 => "6",
        7 => "7",
        8 => "8",
        _ => "9",
    };
    assert(r@ =~= seq![digit_char(d as int)]);
    r
}

/// `n` in decimal.
pub fn decimal_string(n: u64) -> (r: String)
    ensures
        r@ == decimal_text(n as nat),
    decreases n,
{
    if n < 10 {
        let mut r = String::new();
        r.append(digit_str(n));
        assert(r@ =~= decimal_text(n as nat));
        r
    } else {
        let mut r = decimal_string(n / 10);
        r.append(digit_str(n % 10));
        assert(r@ =~= decimal_text(n as nat));
        r
    }
}

/// The last `width` digits of `n`, with leading zeros.
pub fn padded_string(n: u64, width: u64) -> (r: String)
    ensures
        r@ == padded_text(n as nat, width as nat),
    decreases width,
{
    if width == 0 {
        String::new()
    } else {
        let mut r = padded_string(n / 10, width - 1);
        r.append(digit_str(n % 10));
        assert(r@ =~= padded_text(n as nat, width as nat));
        r
    }
}

/// A quantity of micro-units written with six decimals (`1500000` is `1.500000`).
pub fn micros_string(q: u64) -> (r: String)
    ensures
        r@ == micros_text(q as nat),
{
    let mut r = decimal_string(q / 1_000_000);
    proof {
        reveal_strlit(".");
    }
    r.append(".");
    let frac = padded_string(q % 1_000_000, 6);
    r.append(frac.as_str());
    assert(r@ =~= micros_text(q as nat));
    r
}

} // verus!
