//! Text helpers: string equality, UTF-8 bytes and decimal rendering.

use vstd::prelude::*;
use vstd::utf8::encode_utf8;
use vstd::utf8::decode_utf8;

verus! {

broadcast use vstd::utf8::encode_utf8_decode_utf8;

/// Two strings are equal exactly when their character sequences are equal.
pub fn str_eq(a: &str, b: &str) -> (res: bool)
    ensures
        res == (a@ == b@),
{
    let x = a.as_bytes();
    let y = b.as_bytes();
    if x.len() != y.len() {
        return false;
    }
    let n = x.len();
    let mut i: usize = 0;
    while i < n
        invariant
            n == x@.len(),
            n == y@.len(),
            x@ == encode_utf8(a@),
            y@ == encode_utf8(b@),
            0 <= i <= n,
            forall|j: int| 0 <= j < i ==> x@[j] == y@[j],
        decreases n - i,
    {
        if x[i] != y[i] {
            return false;
        }
        i = i + 1;
    }
    proof {
        assert(x@ =~= y@);
        assert(encode_utf8(a@) == encode_utf8(b@));
        assert(decode_utf8(encode_utf8(a@)) == a@);
        assert(decode_utf8(encode_utf8(b@)) == b@);
    }
    true
}

/// Appends the UTF-8 bytes of `s` to `out`.
pub fn push_utf8(out: &mut Vec<u8>, s: &str)
    ensures
        final(out)@ == old(out)@ + encode_utf8(s@),
{
    let b = s.as_bytes();
    let n = b.len();
    let ghost start = out@;
    let mut i: usize = 0;
    while i < n
        invariant
            n == b@.len(),
            0 <= i <= n,
            b@ == encode_utf8(s@),
            out@ == start + b@.take(i as int),
        decreases n - i,
    {
        out.push(b[i]);
        i = i + 1;
        proof {
            assert(b@.take(i as int) =~= b@.take(i - 1).push(b@[i - 1]));
        }
    }
    proof {
        assert(b@.take(n as int) =~= b@);
    }
}

/// Appends the bytes of `s` to `out`.
pub fn push_bytes(out: &mut Vec<u8>, s: &[u8])
    ensures
        final(out)@ == old(out)@ + s@,
{
    let n = s.len();
    let ghost start = out@;
    let mut i: usize = 0;
    while i < n
        invariant
            n == s@.len(),
            0 <= i <= n,
            out@ == start + s@.take(i as int),
        decreases n - i,
    {
        out.push(s[i]);
        i = i + 1;
        proof {
            assert(s@.take(i as int) =~= s@.take(i - 1).push(s@[i - 1]));
        }
    }
    proof {
        assert(s@.take(n as int) =~= s@);
    }
}

/// ASCII bytes of the decimal digits of `n`, most significant first, with no
/// leading zero (a single `0` for zero).
pub open spec fn decimal_digits(n: nat) -> Seq<u8>
    decreases n,
{
    if n < 10 {
        seq![(48 + n) as u8]
    } else {
        decimal_digits(n / 10).push((48 + n % 10) as u8)
    }
}

/// ASCII bytes of the decimal rendering of `v`, as `to_string` writes an
/// integer: a leading `-` for negative values, then the digits of `|v|`.
pub open spec fn decimal_bytes(v: int) -> Seq<u8> {
    if v < 0 {
        seq![45u8] + decimal_digits((-v) as nat)
    } else {
        decimal_digits(v as nat)
    }
}

fn push_digits(out: &mut Vec<u8>, n: u64)
    ensures
        final(out)@ == old(out)@ + decimal_digits(n as nat),
    decreases n,
{
    if n >= 10 {
        push_digits(out, n / 10);
    }
    let d: u64 = n % 10;
    out.push((48 + d) as u8);
    proof {
        if n >= 10 {
            assert(decimal_digits(n as nat) == decimal_digits((n / 10) as nat).push((48 + n % 10) as u8));
        }
    }
}

/// Appends the decimal rendering of `v` (the bytes of `v.to_string()`).
pub fn push_decimal(out: &mut Vec<u8>, v: i64)
    ensures
        final(out)@ == old(out)@ + decimal_bytes(v as int),
{
    let ghost start = out@;
    if v < 0 {
        out.push(45u8);
        let mag: u64 = if v == i64::MIN {
            9223372036854775808u64
        } else {
            (-v) as u64
        };
        push_digits(out, mag);
        proof {
            assert(out@ =~= start + (seq![45u8] + decimal_digits((-v) as nat)));
        }
    } else {
        push_digits(out, v as u64);
    }
}

/// Law: a single digit renders as its ASCII digit; appending a digit `d`
/// to a positive number `n` (giving `10 * n + d`) appends that digit's
/// character; a negative number renders as `-` then its magnitude.
pub proof fn lemma_decimal_steps(n: nat, d: nat)
    requires
        d < 10,
    ensures
        decimal_bytes(d as int) == seq![(48 + d) as u8],
        n > 0 ==> decimal_bytes((10 * n + d) as int) == decimal_bytes(n as int).push((48 + d) as u8),
        n > 0 ==> decimal_bytes(-(n as int)) == seq![45u8] + decimal_bytes(n as int),
{
    let m = 10 * n + d;
    if n > 0 {
        assert(m / 10 == n);
        assert(m % 10 == d);
        assert(m >= 10);
        assert(decimal_digits(m as nat) == decimal_digits((m / 10) as nat).push((48 + m % 10) as u8));
    }
}

} // verus!
