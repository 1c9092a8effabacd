//! Decimal price parsing: locating the quoted price field inside a response
//! body and turning the decimal string into a `DecimalPrice`.

use vstd::prelude::*;

verus! {

/// A price as parsed from a decimal string: the whole part, and the value of
/// the leading fractional digits taken literally. `"27.0080710784431881"`
/// yields whole 27 and fraction 8071: the first six fractional digits
/// `008071`, read as a plain integer, leading zeros and the remaining digits
/// discarded.
#[derive(Clone, Copy, PartialEq, Eq, Structural, Debug)]
pub struct DecimalPrice {
    pub whole: u64,
    pub fraction: u32,
}

impl DecimalPrice {
    /// The fraction is the value of at most six decimal digits.
    pub open spec fn wf(self) -> bool {
        self.fraction < 1000000
    }
}

/// Parsing failures: the price field is absent, not a decimal number, or the
/// whole part overflows.
#[derive(Clone, Copy, PartialEq, Eq, Structural, Debug)]
pub enum ParseError {
    MalformedInput,
}

pub open spec fn is_ascii_digit(b: u8) -> bool {
    48 <= b && b <= 57
}

/// The numeric value of one digit byte; non-digits count as zero, so the
/// function is total. It is only applied under `all_digits`.
pub open spec fn digit_val(b: u8) -> nat {
    if is_ascii_digit(b) {
        (b - 48) as nat
    } else {
        0
    }
}

pub open spec fn all_digits(s: Seq<u8>) -> bool {
    forall|i: int| 0 <= i < s.len() ==> is_ascii_digit(#[trigger] s[i])
}

/// The integer a string of decimal digits denotes, most significant first.
pub open spec fn digits_val(s: Seq<u8>) -> nat
    decreases s.len(),
{
    if s.len() == 0 {
        0
    } else {
        digits_val(s.drop_last()) * 10 + digit_val(s.last())
    }
}

pub open spec fn pow10(n: nat) -> nat
    decreases n,
{
    if n == 0 {
        1
    } else {
        10 * pow10((n - 1) as nat)
    }
}

/// A digit string of length n denotes a value below 10^n.
pub proof fn lemma_digits_val_bound(s: Seq<u8>)
    ensures
        digits_val(s) < pow10(s.len()),
    decreases s.len(),
{
    if s.len() > 0 {
        lemma_digits_val_bound(s.drop_last());
    }
}

pub proof fn lemma_pow10_le(a: nat, b: nat)
    requires
        a <= b,
    ensures
        pow10(a) <= pow10(b),
    decreases b,
{
    if a < b && b > 0 {
        lemma_pow10_le(a, (b - 1) as nat);
        lemma_pow10_pos((b - 1) as nat);
    }
}

pub proof fn lemma_pow10_pos(n: nat)
    ensures
        pow10(n) >= 1,
    decreases n,
{
    if n > 0 {
        lemma_pow10_pos((n - 1) as nat);
    }
}

/// A prefix of a digit string never denotes more than the whole string.
pub proof fn lemma_digits_val_prefix_le(s: Seq<u8>, i: int)
    requires
        0 <= i <= s.len(),
    ensures
        digits_val(s.take(i)) <= digits_val(s),
    decreases s.len() - i,
{
    if i < s.len() {
        assert(s.take(i + 1).drop_last() =~= s.take(i));
        assert(s.take(i + 1).last() == s[i]);
        lemma_digits_val_prefix_le(s, i + 1);
    } else {
        assert(s.take(i) =~= s);
    }
}

/// The index of the first occurrence of `b` in `s` at or after `i`.
pub open spec fn find_byte_from(s: Seq<u8>, i: int, b: u8) -> Option<int>
    decreases s.len() - i,
{
    if i < 0 || i >= s.len() {
        None
    } else if s[i] == b {
        Some(i)
    } else {
        find_byte_from(s, i + 1, b)
    }
}

pub proof fn lemma_find_byte_from_props(s: Seq<u8>, i: int, b: u8)
    requires
        0 <= i,
    ensures
        match find_byte_from(s, i, b) {
            Some(j) => i <= j < s.len() && s[j] == b && forall|t: int| i <= t < j ==> s[t] != b,
            None => forall|t: int| i <= t < s.len() ==> s[t] != b,
        },
    decreases s.len() - i,
{
    if i < s.len() && s[i] != b {
        lemma_find_byte_from_props(s, i + 1, b);
    }
}

pub proof fn lemma_find_byte_from_first(s: Seq<u8>, i: int, b: u8, j: int)
    requires
        0 <= i <= j < s.len(),
        s[j] == b,
        forall|t: int| i <= t < j ==> s[t] != b,
    ensures
        find_byte_from(s, i, b) == Some(j),
    decreases j - i,
{
    if i < j {
        lemma_find_byte_from_first(s, i + 1, b, j);
    }
}

/// The first six fractional digits; fewer stay as they are.
pub open spec fn frac_prefix(f: Seq<u8>) -> Seq<u8> {
    if f.len() <= 6 {
        f
    } else {
        f.take(6)
    }
}

/// What the whole-part digits of a dotless string denote, if they fit in u64.
pub open spec fn whole_spec(s: Seq<u8>) -> Option<DecimalPrice> {
    if s.len() > 0 && all_digits(s) && digits_val(s) <= u64::MAX {
        Some(DecimalPrice { whole: digits_val(s) as u64, fraction: 0 })
    } else {
        None
    }
}

/// The meaning of a decimal string: split at the first dot; the left side is
/// the whole part, the right side must be all digits (so a second dot fails),
/// and the fraction is the value of its first six digits, taken literally.
pub open spec fn decimal_spec(s: Seq<u8>) -> Option<DecimalPrice> {
    match find_byte_from(s, 0, 46) {
        None => whole_spec(s),
        Some(d) => {
            let w = s.take(d);
            let f = s.skip(d + 1);
            if w.len() > 0 && all_digits(w) && digits_val(w) <= u64::MAX && all_digits(f) {
                Some(
                    DecimalPrice {
                        whole: digits_val(w) as u64,
                        fraction: digits_val(frac_prefix(f)) as u32,
                    },
                )
            } else {
                None
            }
        },
    }
}

/// The parsing law for plain digit strings: for `W.F` with `W` and `F`
/// consisting only of digits, `W` nonempty and within u64, the parse yields
/// `W`'s value as the whole part and the literal value of `F`'s first six
/// digits as the fraction; a dotless `W` yields fraction 0.
pub proof fn lemma_parse_digit_strings(w: Seq<u8>, f: Seq<u8>)
    requires
        w.len() > 0,
        all_digits(w),
        all_digits(f),
        digits_val(w) <= u64::MAX,
    ensures
        decimal_spec(w + seq![46u8] + f) == Some(
            DecimalPrice {
                whole: digits_val(w) as u64,
                fraction: digits_val(frac_prefix(f)) as u32,
            },
        ),
        decimal_spec(w) == Some(DecimalPrice { whole: digits_val(w) as u64, fraction: 0 }),
{
    let s = w + seq![46u8] + f;
    let d = w.len() as int;
    assert(s[d] == 46);
    assert forall|t: int| 0 <= t < d implies s[t] != 46 by {
        assert(s[t] == w[t]);
        assert(is_ascii_digit(w[t]));
    }
    lemma_find_byte_from_first(s, 0, 46, d);
    assert(s.take(d) =~= w);
    assert(s.skip(d + 1) =~= f);
    lemma_find_byte_from_props(w, 0, 46);
    match find_byte_from(w, 0, 46) {
        Some(j) => {
            assert(w[j] == 46);
            assert(is_ascii_digit(w[j]));
            assert(false);
        },
        None => {},
    }
}

/// Whether `"priceUsd"`, quotes included, starts at index `i`.
pub open spec fn is_key_at(s: Seq<u8>, i: int) -> bool {
    &&& 0 <= i
    &&& i + 10 <= s.len()
    &&& s[i] == 34
    &&& s[i + 1] == 112
    &&& s[i + 2] == 114
    &&& s[i + 3] == 105
    &&& s[i + 4] == 99
    &&& s[i + 5] == 101
    &&& s[i + 6] == 85
    &&& s[i + 7] == 115
    &&& s[i + 8] == 100
    &&& s[i + 9] == 34
}

/// The index just past the first occurrence of the quoted key, scanning from `i`.
pub open spec fn find_key_from(s: Seq<u8>, i: int) -> Option<int>
    decreases s.len() - i,
{
    if i < 0 || i + 10 > s.len() {
        None
    } else if is_key_at(s, i) {
        Some(i + 10)
    } else {
        find_key_from(s, i + 1)
    }
}

/// The quoted string that follows the first `"priceUsd"` key: the bytes
/// between the next quote after the key and the quote after that.
pub open spec fn extract_field(s: Seq<u8>) -> Option<Seq<u8>> {
    match find_key_from(s, 0) {
        None => None,
        Some(k) => match find_byte_from(s, k, 34) {
            None => None,
            Some(q1) => match find_byte_from(s, q1 + 1, 34) {
                None => None,
                Some(q2) => Some(s.subrange(q1 + 1, q2)),
            },
        },
    }
}

/// The meaning of a whole response body: the price field located, then read
/// as a decimal string.
pub open spec fn parse_price_spec(s: Seq<u8>) -> Option<DecimalPrice> {
    match extract_field(s) {
        None => None,
        Some(v) => decimal_spec(v),
    }
}

fn find_byte(s: &[u8], start: usize, b: u8) -> (r: Option<usize>)
    requires
        start <= s@.len(),
    ensures
        match r {
            Some(j) => start <= j < s@.len() && find_byte_from(s@, start as int, b) == Some(
                j as int,
            ),
            None => find_byte_from(s@, start as int, b) is None,
        },
{
    let mut i: usize = start;
    while i < s.len()
        invariant
            start <= i <= s@.len(),
            find_byte_from(s@, start as int, b) == find_byte_from(s@, i as int, b),
        decreases s@.len() - i,
    {
        if s[i] == b {
            return Some(i);
        }
        i = i + 1;
    }
    None
}

fn find_key(s: &[u8]) -> (r: Option<usize>)
    ensures
        match r {
            Some(k) => k <= s@.len() && find_key_from(s@, 0) == Some(k as int),
            None => find_key_from(s@, 0) is None,
        },
{
    if s.len() < 10 {
        return None;
    }
    let mut i: usize = 0;
    while i <= s.len() - 10
        invariant
            10 <= s@.len(),
            i <= s@.len(),
            find_key_from(s@, 0) == find_key_from(s@, i as int),
        decreases s@.len() - i,
    {
        if s[i] == 34 && s[i + 1] == 112 && s[i + 2] == 114 && s[i + 3] == 105 && s[i + 4] == 99
            && s[i + 5] == 101 && s[i + 6] == 85 && s[i + 7] == 115 && s[i + 8] == 100 && s[i
            + 9] == 34 {
            return Some(i + 10);
        }
        i = i + 1;
    }
    None
}

/// Reads the digits of `s@.subrange(start, end)` as a u64, reporting when the
/// range holds a non-digit or denotes a value past u64::MAX.
fn parse_digits_u64(s: &[u8], start: usize, end: usize) -> (r: Option<u64>)
    requires
        start <= end <= s@.len(),
    ensures
        ({
            let w = s@.subrange(start as int, end as int);
            match r {
                Some(v) => all_digits(w) && digits_val(w) == v,
                None => !(all_digits(w) && digits_val(w) <= u64::MAX),
            }
        }),
{
    let ghost w = s@.subrange(start as int, end as int);
    let mut val: u64 = 0;
    let mut i: usize = start;
    while i < end
        invariant
            start <= i <= end <= s@.len(),
            w == s@.subrange(start as int, end as int),
            all_digits(w.take(i - start)),
            val == digits_val(w.take(i - start)),
        decreases end - i,
    {
        let b = s[i];
        proof {
            assert(w[i - start] == s@[i as int]);
        }
        if b < 48 || b > 57 {
            assert(!is_ascii_digit(w[i - start]));
            return None;
        }
        let d: u64 = (b - 48) as u64;
        proof {
            assert(w.take(i - start + 1).drop_last() =~= w.take(i - start));
            assert(w.take(i - start + 1).last() == w[i - start]);
        }
        if val > (u64::MAX - d) / 10 {
            proof {
                assert(digits_val(w.take(i - start + 1)) == val * 10 + d);
                assert(val * 10 + d > u64::MAX) by {
                    vstd::arithmetic::div_mod::lemma_fundamental_div_mod(
                        (u64::MAX - d) as int,
                        10,
                    );
                };
                lemma_digits_val_prefix_le(w, i - start + 1);
            }
            return None;
        }
        proof {
            assert(val * 10 + d <= u64::MAX) by {
                vstd::arithmetic::div_mod::lemma_fundamental_div_mod((u64::MAX - d) as int, 10);
            };
        }
        val = val * 10 + d;
        i = i + 1;
    }
    proof {
        assert(w.take(end - start) =~= w);
    }
    Some(val)
}

/// Parses a decimal string such as `"27.0080710784431881"`. Absence of a dot
/// yields fraction 0; a second dot, a non-digit, an empty whole part or a
/// whole part past u64::MAX all fail.
#[verifier::rlimit(30)]
pub fn parse_decimal(s: &[u8]) -> (r: Option<DecimalPrice>)
    ensures
        r == decimal_spec(s@),
        r matches Some(p) ==> p.wf(),
{
    let n = s.len();
    proof {
        assert(s@.subrange(0, n as int) =~= s@);
    }
    match find_byte(s, 0, 46) {
        None => {
            if n == 0 {
                return None;
            }
            match parse_digits_u64(s, 0, n) {
                None => None,
                Some(v) => Some(DecimalPrice { whole: v, fraction: 0 }),
            }
        },
        Some(d) => {
            if d == 0 {
                return None;
            }
            proof {
                assert(s@.subrange(0, d as int) =~= s@.take(d as int));
            }
            let whole = match parse_digits_u64(s, 0, d) {
                None => {
                    return None;
                },
                Some(v) => v,
            };
            let fs = d + 1;
            let ghost f = s@.skip(fs as int);
            proof {
                assert(s@.subrange(fs as int, n as int) =~= f);
            }
            if !check_digits(s, fs, n) {
                return None;
            }
            let fe: usize = if n - fs > 6 {
                fs + 6
            } else {
                n
            };
            let frac = parse_frac(s, fs, fe);
            proof {
                assert(s@.subrange(fs as int, fe as int) =~= frac_prefix(f));
            }
            Some(DecimalPrice { whole, fraction: frac })
        },
    }
}

/// Whether every byte of `s@.subrange(start, end)` is a decimal digit.
fn check_digits(s: &[u8], start: usize, end: usize) -> (r: bool)
    requires
        start <= end <= s@.len(),
    ensures
        r == all_digits(s@.subrange(start as int, end as int)),
{
    let ghost w = s@.subrange(start as int, end as int);
    let mut i: usize = start;
    while i < end
        invariant
            start <= i <= end <= s@.len(),
            w == s@.subrange(start as int, end as int),
            all_digits(w.take(i - start)),
        decreases end - i,
    {
        let b = s[i];
        proof {
            assert(w[i - start] == s@[i as int]);
        }
        if b < 48 || b > 57 {
            assert(!is_ascii_digit(w[i - start]));
            return false;
        }
        proof {
            assert(w.take(i - start + 1).drop_last() =~= w.take(i - start));
        }
        i = i + 1;
    }
    proof {
        assert(w.take(end - start) =~= w);
    }
    true
}

/// Reads the at most six fractional digits of `s@.subrange(start, end)` (all
/// of them digits) as a value below one million.
fn parse_frac(s: &[u8], start: usize, end: usize) -> (r: u32)
    requires
        start <= end <= s@.len(),
        end - start <= 6,
        all_digits(s@.subrange(start as int, end as int)),
    ensures
        r == digits_val(s@.subrange(start as int, end as int)),
        r < 1000000,
{
    proof {
        lemma_digits_val_bound(s@.subrange(start as int, end as int));
        lemma_pow10_le((end - start) as nat, 6);
        assert(pow10(0) == 1);
        assert(pow10(1) == 10);
        assert(pow10(2) == 100);
        assert(pow10(3) == 1000);
        assert(pow10(4) == 10000);
        assert(pow10(5) == 100000);
        assert(pow10(6) == 1000000);
    }
    let ghost w = s@.subrange(start as int, end as int);
    let mut val: u32 = 0;
    let mut i: usize = start;
    while i < end
        invariant
            start <= i <= end <= s@.len(),
            end - start <= 6,
            w == s@.subrange(start as int, end as int),
            all_digits(w),
            val == digits_val(w.take(i - start)),
            pow10(6) == 1000000,
            digits_val(w) < pow10(6),
        decreases end - i,
    {
        let b = s[i];
        proof {
            assert(w[i - start] == s@[i as int]);
            assert(w.take(i - start + 1).drop_last() =~= w.take(i - start));
            assert(w.take(i - start + 1).last() == w[i - start]);
            lemma_digits_val_prefix_le(w, i - start + 1);
        }
        let d: u32 = (b - 48) as u32;
        val = val * 10 + d;
        i = i + 1;
    }
    proof {
        assert(w.take(end - start) =~= w);
    }
    val
}

/// Locates the quoted `priceUsd` field in a response body and parses its
/// decimal string, the contract of the fixed-point parser: `Ok` exactly when
/// the field is present and its value is a well-formed decimal number whose
/// whole part fits in a u64.
pub fn parse_price(body: &[u8]) -> (r: Result<DecimalPrice, ParseError>)
    ensures
        r matches Ok(p) ==> parse_price_spec(body@) == Some(p) && p.wf(),
        r is Err <==> parse_price_spec(body@) is None,
        r is Err ==> r == Err::<DecimalPrice, ParseError>(ParseError::MalformedInput),
{
    let n = body.len();
    let k = match find_key(body) {
        None => {
            return Err(ParseError::MalformedInput);
        },
        Some(k) => k,
    };
    let q1 = match find_byte(body, k, 34) {
        None => {
            return Err(ParseError::MalformedInput);
        },
        Some(q) => q,
    };
    assert(q1 < n);
    let q2 = match find_byte(body, q1 + 1, 34) {
        None => {
            return Err(ParseError::MalformedInput);
        },
        Some(q) => q,
    };
    let mut value: Vec<u8> = Vec::new();
    let mut j: usize = q1 + 1;
    while j < q2
        invariant
            q1 + 1 <= j <= q2 < body@.len(),
            value@ == body@.subrange(q1 + 1, j as int),
        decreases q2 - j,
    {
        value.push(body[j]);
        proof {
            assert(body@.subrange(q1 + 1, j + 1) =~= body@.subrange(q1 + 1, j as int).push(
                body@[j as int],
            ));
        }
        j = j + 1;
    }
    match parse_decimal(value.as_slice()) {
        None => Err(ParseError::MalformedInput),
        Some(p) => Ok(p),
    }
}

} // verus!
