//! Block heights as they are written in a chain specification: a decimal
//! number, or a `0x`-prefixed hexadecimal one.
use vstd::arithmetic::div_mod::lemma_fundamental_div_mod;
use vstd::prelude::*;
use vstd::string::StringSliceAdditionalSpecFns;

verus! {

/// A block height, decoded from its textual or numeric form.
#[derive(Debug, Clone, Copy, PartialEq, Eq, Structural)]
pub struct Uint {
    pub value: u64,
}

/// Why the text of a block height was refused.
#[derive(Debug, Clone, Copy, PartialEq, Eq, Structural)]
pub enum HeightError {
    /// The text is neither a run of decimal digits nor `0x` and a run of hex digits.
    Malformed,
    /// The number is well formed but does not fit in 64 bits.
    Overflow,
}

pub open spec fn is_dec_digit(c: u8) -> bool {
    48 <= c <= 57
}

pub open spec fn is_hex_digit(c: u8) -> bool {
    is_dec_digit(c) || (97 <= c <= 102) || (65 <= c <= 70)
}

pub open spec fn is_digit_of(c: u8, radix: nat) -> bool {
    if radix == 16 {
        is_hex_digit(c)
    } else {
        is_dec_digit(c)
    }
}

/// The value of one decimal or hexadecimal digit (either case).
pub open spec fn digit_value(c: u8) -> nat {
    if is_dec_digit(c) {
        (c - 48) as nat
    } else if 97 <= c <= 102 {
        (c - 87) as nat
    } else {
        (c - 55) as nat
    }
}

pub open spec fn all_digits_of(b: Seq<u8>, radix: nat) -> bool {
    forall|i: int| 0 <= i < b.len() ==> is_digit_of(#[trigger] b[i], radix)
}

/// The number that a run of digits denotes, most significant digit first.
pub open spec fn digits_value(b: Seq<u8>, radix: nat) -> nat
    decreases b.len(),
{
    if b.len() == 0 {
        0
    } else {
        digits_value(b.drop_last(), radix) * radix + digit_value(b.last())
    }
}

pub open spec fn has_hex_prefix(b: Seq<u8>) -> bool {
    b.len() >= 2 && b[0] == 48 && b[1] == 120
}

/// The height that a text denotes, if the text is well formed.
pub open spec fn height_of_text(b: Seq<u8>) -> Option<nat> {
    if has_hex_prefix(b) {
        let d = b.skip(2);
        if d.len() > 0 && all_digits_of(d, 16) {
            Some(digits_value(d, 16))
        } else {
            None
        }
    } else if b.len() > 0 && all_digits_of(b, 10) {
        Some(digits_value(b, 10))
    } else {
        None
    }
}

/// A longer run of digits never denotes less than its prefix.
proof fn lemma_digits_value_prefix(b: Seq<u8>, k: int, radix: nat)
    requires
        0 <= k <= b.len(),
        radix >= 1,
    ensures
        digits_value(b.subrange(0, k), radix) <= digits_value(b, radix),
    decreases b.len() - k,
{
    if k < b.len() {
        lemma_digits_value_prefix(b, k + 1, radix);
        let p = b.subrange(0, k + 1);
        assert(p.drop_last() =~= b.subrange(0, k));
        let v = digits_value(b.subrange(0, k), radix);
        assert(v * radix >= v) by (nonlinear_arith)
            requires
                radix >= 1,
        ;
    } else {
        assert(b.subrange(0, k) =~= b);
    }
}

/// Reads `b[start..]`, all of whose bytes are digits of `radix`.
fn parse_digits(b: &[u8], start: usize, radix: u64) -> (r: Option<u64>)
    requires
        start <= b@.len(),
        radix == 10 || radix == 16,
        all_digits_of(b@.skip(start as int), radix as nat),
    ensures
        r is Some <==> digits_value(b@.skip(start as int), radix as nat) <= u64::MAX,
        r matches Some(v) ==> v == digits_value(b@.skip(start as int), radix as nat),
{
    let ghost d = b@.skip(start as int);
    let mut acc: u64 = 0;
    let mut i: usize = start;
    while i < b.len()
        invariant
            start <= i <= b@.len(),
            d == b@.skip(start as int),
            all_digits_of(d, radix as nat),
            radix == 10 || radix == 16,
            acc as nat == digits_value(d.subrange(0, i - start), radix as nat),
        decreases b@.len() - i,
    {
        let c = b[i];
        assert(d[i - start] == c);
        assert(is_digit_of(c, radix as nat));
        let dv: u64 = if 48 <= c && c <= 57 {
            (c - 48) as u64
        } else if 97 <= c && c <= 102 {
            (c - 87) as u64
        } else {
            (c - 55) as u64
        };
        let ghost p = d.subrange(0, i + 1 - start);
        assert(p.drop_last() =~= d.subrange(0, i - start));
        assert(p.last() == c);
        assert(digits_value(p, radix as nat) == acc * radix + dv);
        match acc.checked_mul(radix) {
            Some(m) => match m.checked_add(dv) {
                Some(next) => {
                    acc = next;
                },
                None => {
                    proof {
                        lemma_digits_value_prefix(d, i + 1 - start, radix as nat);
                    }
                    return None;
                },
            },
            None => {
                proof {
                    lemma_digits_value_prefix(d, i + 1 - start, radix as nat);
                    assert(acc * radix + dv >= acc * radix) by (nonlinear_arith)
                        requires
                            dv >= 0,
                    ;
                }
                return None;
            },
        }
        i = i + 1;
    }
    assert(d.subrange(0, i - start) =~= d);
    Some(acc)
}

impl Uint {
    /// A height given directly as a number.
    pub fn from_u64(value: u64) -> (r: Uint)
        ensures
            r.value == value,
    {
        Uint { value }
    }

    /// Decodes the text of a height: decimal digits, or `0x` and hexadecimal
    /// digits of either case.
    pub fn from_text(s: &str) -> (r: Result<Uint, HeightError>)
        ensures
            r is Ok <==> (height_of_text(s.spec_bytes()) matches Some(v) && v <= u64::MAX),
            r matches Ok(u) ==> height_of_text(s.spec_bytes()) == Some(u.value as nat),
            r == Err::<Uint, HeightError>(HeightError::Malformed) <==> height_of_text(
                s.spec_bytes(),
            ) is None,
    {
        let b = s.as_bytes();
        let n = b.len();
        let hex = n >= 2 && b[0] == 48 && b[1] == 120;
        let (start, radix): (usize, u64) = if hex {
            (2, 16)
        } else {
            (0, 10)
        };
        assert(b@.skip(0) =~= b@);
        if start >= n {
            return Err(HeightError::Malformed);
        }
        let mut i: usize = start;
        while i < n
            invariant
                start <= i <= n,
                n == b@.len(),
                b@ == s.spec_bytes(),
                radix == 10 || radix == 16,
                (radix == 16) == has_hex_prefix(b@),
                start == (if radix == 16 { 2usize } else { 0usize }),
                forall|j: int| start <= j < i ==> is_digit_of(b@[j], radix as nat),
            decreases n - i,
        {
            let c = b[i];
            let ok = if radix == 16 {
                (48 <= c && c <= 57) || (97 <= c && c <= 102) || (65 <= c && c <= 70)
            } else {
                48 <= c && c <= 57
            };
            if !ok {
                assert(!is_digit_of(b@.skip(start as int)[i - start], radix as nat));
                return Err(HeightError::Malformed);
            }
            i = i + 1;
        }
        assert(all_digits_of(b@.skip(start as int), radix as nat));
        match parse_digits(b, start, radix) {
            Some(v) => Ok(Uint { value: v }),
            None => Err(HeightError::Overflow),
        }
    }

    /// The height as a plain block number.
    pub fn height(self) -> (r: u64)
        ensures
            r == self.value,
    {
        self.value
    }
}

/// The digit that stands for `d` when a number is written out.
pub open spec fn digit_char(d: nat) -> u8 {
    if d < 10 {
        (48 + d) as u8
    } else {
        (87 + d) as u8
    }
}

/// The radix of a run of digits: sixteen for hexadecimal, ten otherwise.
pub open spec fn radix_of(hex: bool) -> nat {
    if hex {
        16
    } else {
        10
    }
}

/// `n` written without leading zeros, in lower case.
pub open spec fn digits_text(n: nat, hex: bool) -> Seq<u8>
    decreases n,
{
    if n < radix_of(hex) {
        seq![digit_char(n)]
    } else {
        digits_text(n / radix_of(hex), hex).push(digit_char(n % radix_of(hex)))
    }
}

/// `n` in decimal.
pub open spec fn decimal_text(n: nat) -> Seq<u8> {
    digits_text(n, false)
}

/// `n` in hexadecimal, after `0x`.
pub open spec fn hex_text(n: nat) -> Seq<u8> {
    seq![48u8, 120u8] + digits_text(n, true)
}

proof fn lemma_digits_text(n: nat, hex: bool)
    ensures
        digits_text(n, hex).len() > 0,
        all_digits_of(digits_text(n, hex), radix_of(hex)),
        digits_value(digits_text(n, hex), radix_of(hex)) == n,
    decreases n,
{
    let radix = radix_of(hex);
    let t = digits_text(n, hex);
    if n < radix {
        assert(t.drop_last() =~= Seq::<u8>::empty());
        assert(digit_value(digit_char(n)) == n);
        assert(digits_value(t.drop_last(), radix) == 0);
        assert(t.last() == digit_char(n));
        assert(0 * radix == 0);
    } else {
        let q = n / radix;
        let m = n % radix;
        lemma_fundamental_div_mod(n as int, radix as int);
        assert(q < n);
        lemma_digits_text(q, hex);
        assert(t.drop_last() =~= digits_text(q, hex));
        assert(m < radix);
        assert(digit_value(digit_char(m)) == m);
        assert(is_digit_of(digit_char(m), radix));
        assert(q * radix == radix * q) by (nonlinear_arith);
        assert(t.last() == digit_char(m));
        assert(digits_value(t, radix) == q * radix + m);
        assert forall|i: int| 0 <= i < t.len() implies is_digit_of(#[trigger] t[i], radix) by {
            if i < t.len() - 1 {
                assert(t[i] == digits_text(q, hex)[i]);
            }
        }
    }
}

/// A height decodes to the same number whether it is written in decimal or
/// in `0x`-prefixed hexadecimal.
pub proof fn lemma_decimal_and_hex_agree(n: nat)
    ensures
        height_of_text(decimal_text(n)) == Some(n),
        height_of_text(hex_text(n)) == Some(n),
        height_of_text(decimal_text(n)) == height_of_text(hex_text(n)),
{
    lemma_digits_text(n, false);
    lemma_digits_text(n, true);
    let d = decimal_text(n);
    if d.len() >= 2 {
        assert(is_dec_digit(d[1]));
    }
    let h = hex_text(n);
    assert(h.skip(2) =~= digits_text(n, true));
}

} // verus!
