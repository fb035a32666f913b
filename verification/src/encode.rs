//! Numbers as text: lower-case hexadecimal of a fixed width, and decimal.

use vstd::prelude::*;

verus! {

/// The ASCII digit for a value below sixteen, in lower case.
pub open spec fn hex_digit(n: nat) -> u8
    recommends
        n < 16,
{
    if n < 10 {
        (0x30 + n) as u8
    } else {
        (0x61 + n - 10) as u8
    }
}

/// The last `width` hexadecimal digits of `value`, most significant first,
/// with leading zeros.
pub open spec fn hex_digits(value: nat, width: nat) -> Seq<u8>
    decreases width,
{
    if width == 0 {
        Seq::empty()
    } else {
        hex_digits(value / 16, (width - 1) as nat).push(hex_digit(value % 16))
    }
}

/// Two hexadecimal digits for each byte, in order.
pub open spec fn hex_of_bytes(bytes: Seq<u8>) -> Seq<u8>
    decreases bytes.len(),
{
    if bytes.len() == 0 {
        Seq::empty()
    } else {
        hex_of_bytes(bytes.drop_last()) + hex_digits(bytes.last() as nat, 2)
    }
}

/// The decimal digits of `n`, without leading zeros.
pub open spec fn decimal(n: nat) -> Seq<u8>
    decreases n,
{
    if n < 10 {
        seq![(0x30 + n) as u8]
    } else {
        decimal(n / 10).push((0x30 + n % 10) as u8)
    }
}

/// `hex_digits` yields exactly `width` digits.
pub proof fn lemma_hex_digits_len(value: nat, width: nat)
    ensures
        hex_digits(value, width).len() == width,
    decreases width,
{
    if width > 0 {
        lemma_hex_digits_len(value / 16, (width - 1) as nat);
    }
}

/// The hexadecimal text of `n` bytes is `2 * n` digits long.
pub proof fn lemma_hex_of_bytes_len(bytes: Seq<u8>)
    ensures
        hex_of_bytes(bytes).len() == 2 * bytes.len(),
    decreases bytes.len(),
{
    if bytes.len() > 0 {
        lemma_hex_of_bytes_len(bytes.drop_last());
        lemma_hex_digits_len(bytes.last() as nat, 2);
    }
}

fn digit_of(n: u8) -> (r: u8)
    requires
        n < 16,
    ensures
        r == hex_digit(n as nat),
{
    if n < 10 {
        0x30 + n
    } else {
        0x61 + (n - 10)
    }
}

/// Writes the last `width` hexadecimal digits of `value`.
pub fn to_hex(value: u128, width: usize) -> (r: Vec<u8>)
    ensures
        r@ == hex_digits(value as nat, width as nat),
{
    let mut tail: Vec<u8> = Vec::new();
    let mut rest: u128 = value;
    let mut k: usize = 0;
    assert(hex_digits(rest as nat, width as nat) + tail@ =~= hex_digits(
        value as nat,
        width as nat,
    ));
    while k < width
        invariant
            k <= width,
            tail@.len() == k,
            hex_digits(value as nat, width as nat) == hex_digits(rest as nat, (width - k) as nat)
                + tail@,
        decreases width - k,
    {
        let digit = digit_of((rest % 16) as u8);
        let ghost before = tail@;
        tail.insert(0, digit);
        proof {
            let init = hex_digits((rest / 16) as nat, (width - k - 1) as nat);
            assert(hex_digits(rest as nat, (width - k) as nat) == init.push(digit));
            assert(init.push(digit) + before =~= init + tail@);
        }
        rest = rest / 16;
        k += 1;
    }
    assert(hex_digits(rest as nat, 0) + tail@ =~= tail@);
    tail
}

/// Writes two hexadecimal digits for each byte.
pub fn hex_encode(bytes: &[u8]) -> (r: Vec<u8>)
    ensures
        r@ == hex_of_bytes(bytes@),
{
    let mut out: Vec<u8> = Vec::new();
    let mut i: usize = 0;
    assert(bytes@.take(0) =~= Seq::<u8>::empty());
    while i < bytes.len()
        invariant
            i <= bytes@.len(),
            out@ == hex_of_bytes(bytes@.take(i as int)),
        decreases bytes@.len() - i,
    {
        let byte = bytes[i];
        let high = digit_of(byte / 16);
        let low = digit_of(byte % 16);
        proof {
            let upto = bytes@.take(i + 1);
            assert(upto.drop_last() =~= bytes@.take(i as int));
            assert(upto.last() == byte);
            let v = byte as nat;
            reveal_with_fuel(hex_digits, 3);
            assert(hex_digits(v, 2) =~= seq![hex_digit(v / 16 % 16), hex_digit(v % 16)]);
            assert(v / 16 % 16 == v / 16);
        }
        out.push(high);
        out.push(low);
        proof {
            assert(out@ =~= hex_of_bytes(bytes@.take(i as int)) + seq![high, low]);
        }
        i += 1;
    }
    assert(bytes@.take(i as int) =~= bytes@);
    out
}

/// Writes `n` in decimal.
pub fn to_decimal(n: u64) -> (r: Vec<u8>)
    ensures
        r@ == decimal(n as nat),
{
    let mut tail: Vec<u8> = Vec::new();
    let mut rest: u64 = n;
    assert(decimal(rest as nat) + tail@ =~= decimal(n as nat));
    while rest >= 10
        invariant
            decimal(n as nat) == decimal(rest as nat) + tail@,
        decreases rest,
    {
        let digit: u8 = 0x30 + (rest % 10) as u8;
        let ghost before = tail@;
        tail.insert(0, digit);
        proof {
            let init = decimal((rest / 10) as nat);
            assert(decimal(rest as nat) == init.push(digit));
            assert(init.push(digit) + before =~= init + tail@);
        }
        rest = rest / 10;
    }
    let digit: u8 = 0x30 + rest as u8;
    let ghost before = tail@;
    tail.insert(0, digit);
    assert(decimal(rest as nat) + before =~= tail@);
    tail
}

} // verus!
