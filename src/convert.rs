use vstd::prelude::*;

verus! {

/// The two's complement value of the 64 bits of `n`, read as signed.
pub open spec fn as_signed(n: u64) -> int {
    if n <= i64::MAX {
        n as int
    } else {
        n - 0x1_0000_0000_0000_0000int
    }
}

/// The value of the 64 bits of `n`, read as unsigned.
pub open spec fn as_unsigned(n: i64) -> int {
    if n >= 0 {
        n as int
    } else {
        n + 0x1_0000_0000_0000_0000int
    }
}

/// Reinterprets the bits of an unsigned identifier as a signed one,
/// as a store with signed 64-bit columns holds it.
pub fn converti(num: u64) -> (r: i64)
    ensures
        r == as_signed(num),
{
    if num <= i64::MAX as u64 {
        num as i64
    } else {
        let low: u64 = num - 0x8000_0000_0000_0000u64;
        (low as i64) + i64::MIN
    }
}

/// Reads a signed column back as the unsigned identifier it stores.
pub fn convertu(num: i64) -> (r: u64)
    ensures
        r == as_unsigned(num),
{
    if num >= 0 {
        num as u64
    } else {
        let low: i64 = num - i64::MIN;
        (low as u64) + 0x8000_0000_0000_0000u64
    }
}

/// Storing an identifier in signed form and reading it back gives it unchanged,
/// and the other way round.
pub proof fn lemma_convert_round_trip(n: u64, s: i64)
    ensures
        as_unsigned(as_signed(n) as i64) == n,
        as_signed(as_unsigned(s) as u64) == s,
{
}

} // verus!
