//! Numbers of variable length: seven bits to a byte, the lowest first, and
//! the top bit of a byte says that another byte follows.

use vstd::prelude::*;

verus! {

/// The most bytes that a number of 64 bits takes.
pub const MAX_VARINT_LEN: usize = 10;

/// Why a number could not be read.
#[derive(Debug, Clone, Copy, PartialEq, Eq, Structural)]
pub enum VarintError {
    /// The bytes end before the number does.
    UnexpectedEof,
    /// The number takes more than ten bytes or more than 64 bits.
    Overflow,
}

/// The bytes of `v`.
pub open spec fn varint(v: nat) -> Seq<u8>
    decreases v,
{
    if v < 128 {
        seq![v as u8]
    } else {
        seq![(v % 128 + 128) as u8] + varint(v / 128)
    }
}

/// The number that `bytes` start with, and how many bytes it takes, where
/// `depth` bytes of the number came before.
pub open spec fn read_groups(bytes: Seq<u8>, depth: nat) -> Result<(nat, nat), VarintError>
    decreases bytes.len(),
{
    if depth >= MAX_VARINT_LEN {
        Err(VarintError::Overflow)
    } else if bytes.len() == 0 {
        Err(VarintError::UnexpectedEof)
    } else if bytes[0] < 128 {
        Ok((bytes[0] as nat, 1))
    } else {
        match read_groups(bytes.skip(1), depth + 1) {
            Ok((v, n)) => Ok((((bytes[0] - 128) + 128 * v) as nat, n + 1)),
            Err(e) => Err(e),
        }
    }
}

/// The number of 64 bits that `bytes` start with, and how many bytes it
/// takes.
pub open spec fn read_varint(bytes: Seq<u8>) -> Result<(u64, nat), VarintError> {
    match read_groups(bytes, 0) {
        Ok((v, n)) => if v <= u64::MAX {
            Ok((v as u64, n))
        } else {
            Err(VarintError::Overflow)
        },
        Err(e) => Err(e),
    }
}

/// 128 to the power of `k`.
pub open spec fn pow128(k: nat) -> nat
    decreases k,
{
    if k == 0 {
        1
    } else {
        128 * pow128((k - 1) as nat)
    }
}

/// A number below 128 to the power of `k` takes at most `k` bytes.
pub proof fn lemma_varint_len(v: nat, k: nat)
    requires
        k >= 1,
        v < pow128(k),
    ensures
        1 <= varint(v).len() <= k,
    decreases v,
{
    if v >= 128 {
        assert(pow128(1) == 128) by {
            reveal_with_fuel(pow128, 2);
        }
        assert(k >= 2);
        lemma_varint_len(v / 128, (k - 1) as nat);
    }
}

/// A number of 64 bits takes at most ten bytes.
pub proof fn lemma_varint_len_u64(v: u64)
    ensures
        1 <= varint(v as nat).len() <= MAX_VARINT_LEN,
{
    assert(pow128(10) == 1180591620717411303424) by {
        reveal_with_fuel(pow128, 11);
    }
    lemma_varint_len(v as nat, 10);
}

/// Reading the bytes of a number, whatever follows them, gives the number
/// and the length of its bytes, as long as they are no more than ten.
pub proof fn lemma_read_groups_round_trip(v: nat, rest: Seq<u8>, depth: nat)
    requires
        depth + varint(v).len() <= MAX_VARINT_LEN,
    ensures
        read_groups(varint(v) + rest, depth) == Ok::<(nat, nat), VarintError>(
            (v, varint(v).len()),
        ),
    decreases v,
{
    let bytes = varint(v) + rest;
    if v < 128 {
        assert(bytes[0] == v);
    } else {
        assert(bytes[0] == v % 128 + 128);
        assert(bytes.skip(1) =~= varint(v / 128) + rest);
        lemma_read_groups_round_trip(v / 128, rest, depth + 1);
    }
}

/// Round trip: reading the bytes of a number of 64 bits, whatever follows
/// them, gives the number and the length of its bytes.
pub proof fn lemma_varint_round_trip(v: u64, rest: Seq<u8>)
    ensures
        read_varint(varint(v as nat) + rest) == Ok::<(u64, nat), VarintError>(
            (v, varint(v as nat).len()),
        ),
{
    lemma_varint_len_u64(v);
    lemma_read_groups_round_trip(v as nat, rest, 0);
}

/// A number that was read took at least one byte, at most ten, and no more
/// than there were; its value is below 128 to the power of its length.
pub proof fn lemma_read_groups_bounds(bytes: Seq<u8>, depth: nat)
    ensures
        read_groups(bytes, depth) matches Ok((v, n)) ==> 1 <= n <= bytes.len() && depth + n
            <= MAX_VARINT_LEN && v < pow128(n),
    decreases bytes.len(),
{
    reveal_with_fuel(pow128, 2);
    if depth < MAX_VARINT_LEN && bytes.len() > 0 && bytes[0] >= 128 {
        lemma_read_groups_bounds(bytes.skip(1), depth + 1);
    }
}

/// Appends the bytes of `v` to `out`.
pub fn write_varint(v: u64, out: &mut Vec<u8>)
    ensures
        final(out)@ == old(out)@ + varint(v as nat),
    decreases v,
{
    if v < 128 {
        out.push(v as u8);
        assert(out@ =~= old(out)@ + varint(v as nat));
    } else {
        out.push((v % 128 + 128) as u8);
        write_varint(v / 128, out);
        assert(out@ =~= old(out)@ + varint(v as nat));
    }
}

/// Reads the groups of a number from `bytes[at..]`.
fn read_groups_at(bytes: &[u8], at: usize, depth: usize) -> (r: Result<(u128, usize), VarintError>)
    requires
        at <= bytes@.len(),
        depth <= MAX_VARINT_LEN,
    ensures
        match r {
            Ok((v, n)) => read_groups(bytes@.skip(at as int), depth as nat) == Ok::<
                (nat, nat),
                VarintError,
            >((v as nat, n as nat)),
            Err(e) => read_groups(bytes@.skip(at as int), depth as nat) == Err::<
                (nat, nat),
                VarintError,
            >(e),
        },
    decreases bytes@.len() - at,
{
    let ghost tail = bytes@.skip(at as int);
    if depth >= MAX_VARINT_LEN {
        return Err(VarintError::Overflow);
    }
    if at >= bytes.len() {
        return Err(VarintError::UnexpectedEof);
    }
    let b = bytes[at];
    assert(tail[0] == b);
    if b < 128 {
        return Ok((b as u128, 1));
    }
    assert(tail.skip(1) =~= bytes@.skip(at + 1));
    match read_groups_at(bytes, at + 1, depth + 1) {
        Ok((v, n)) => {
            proof {
                lemma_read_groups_bounds(tail.skip(1), (depth + 1) as nat);
                lemma_pow128_bounded(n as nat);
            }
            Ok(((b - 128) as u128 + 128 * v, n + 1))
        },
        Err(e) => Err(e),
    }
}

/// The powers of 128 up to the tenth are small.
proof fn lemma_pow128_bounded(n: nat)
    requires
        n <= 10,
    ensures
        pow128(n) <= 1180591620717411303424,
{
    reveal_with_fuel(pow128, 11);
}

/// The bytes from `at` on; none where `at` lies behind the end.
pub open spec fn tail(bytes: Seq<u8>, at: usize) -> Seq<u8> {
    if at <= bytes.len() {
        bytes.skip(at as int)
    } else {
        Seq::empty()
    }
}

/// Reads a number of 64 bits from `bytes[at..]` and returns it with the
/// number of bytes it takes.
pub fn read_varint_at(bytes: &[u8], at: usize) -> (r: Result<(u64, usize), VarintError>)
    ensures
        match r {
            Ok((v, n)) => read_varint(tail(bytes@, at)) == Ok::<(u64, nat), VarintError>(
                (v, n as nat),
            ) && 1 <= n && at + n <= bytes@.len(),
            Err(e) => read_varint(tail(bytes@, at)) == Err::<(u64, nat), VarintError>(e),
        },
{
    if at > bytes.len() {
        return Err(VarintError::UnexpectedEof);
    }
    proof {
        lemma_read_groups_bounds(bytes@.skip(at as int), 0);
    }
    match read_groups_at(bytes, at, 0) {
        Ok((v, n)) => {
            if v > u64::MAX as u128 {
                Err(VarintError::Overflow)
            } else {
                Ok((v as u64, n))
            }
        },
        Err(e) => Err(e),
    }
}

} // verus!
