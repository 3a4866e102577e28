//! Verified core of a minimal on-chain program.
//!
//! The program reads an unsigned 64-bit amount, little-endian, from the head
//! of an instruction payload, scales it to micro-units by a wrapping
//! multiplication with [`MICRO_UNITS_PER_UNIT`], and writes the 8-byte
//! little-endian encoding of the result over the head of the first account's
//! data buffer. The host runtime's calling convention (account handles,
//! program id, diagnostics) stays outside this crate; the logic here works on
//! plain byte buffers.

use vstd::assert_seqs_equal;
use vstd::bytes::spec_u64_from_le_bytes;
use vstd::bytes::spec_u64_to_le_bytes;
use vstd::prelude::*;

verus! {

/// Number of micro-units in one unit: the factor applied to every amount.
pub const MICRO_UNITS_PER_UNIT: u64 = 1_000_000;

/// Number of payload bytes that encode the amount, and of buffer bytes that
/// receive the result.
pub const AMOUNT_BYTES: usize = 8;

/// Typed failures of instruction processing. `InvalidInput` is the one error
/// the entry contract calls for by name; the other variants replace what
/// would otherwise be out-of-bounds crashes with clean rejections.
#[derive(Clone, Copy, Debug, PartialEq, Eq, Structural)]
pub enum ProcessError {
    /// The instruction payload is empty.
    InvalidInput,
    /// The payload is non-empty but holds fewer than `AMOUNT_BYTES` bytes.
    PayloadTooShort,
    /// No account was supplied.
    MissingAccount,
    /// The first account's data buffer holds fewer than `AMOUNT_BYTES` bytes.
    AccountTooSmall,
}

/// The amount encoded little-endian in the first `AMOUNT_BYTES` bytes of a
/// payload.
pub open spec fn spec_amount_of(payload: Seq<u8>) -> u64
    recommends
        payload.len() >= AMOUNT_BYTES,
{
    spec_u64_from_le_bytes(payload.subrange(0, AMOUNT_BYTES as int))
}

/// An amount scaled to micro-units with 64-bit wrapping multiplication: the
/// full product reduced modulo 2^64, so an overflowing product silently wraps.
pub open spec fn spec_scaled(amount: u64) -> u64 {
    ((amount * MICRO_UNITS_PER_UNIT) % 0x1_0000_0000_0000_0000) as u64
}

/// Reads the amount from an instruction payload. An empty payload is rejected
/// as `InvalidInput`, a non-empty one shorter than `AMOUNT_BYTES` bytes as
/// `PayloadTooShort`; otherwise the first `AMOUNT_BYTES` bytes are decoded
/// little-endian and the rest of the payload is ignored.
pub fn read_amount(payload: &[u8]) -> (r: Result<u64, ProcessError>)
    ensures
        payload@.len() == 0 ==> r == Err::<u64, ProcessError>(ProcessError::InvalidInput),
        0 < payload@.len() < AMOUNT_BYTES ==> r == Err::<u64, ProcessError>(
            ProcessError::PayloadTooShort,
        ),
        payload@.len() >= AMOUNT_BYTES ==> r == Ok::<u64, ProcessError>(spec_amount_of(payload@)),
{
    if payload.len() == 0 {
        return Err(ProcessError::InvalidInput);
    }
    if payload.len() < AMOUNT_BYTES {
        return Err(ProcessError::PayloadTooShort);
    }
    let head = vstd::slice::slice_subrange(payload, 0, AMOUNT_BYTES);
    Ok(vstd::bytes::u64_from_le_bytes(head))
}

/// Scales an amount to micro-units with wrapping 64-bit multiplication. The
/// silent wraparound on overflow is deliberate: the contract calls for
/// unchecked multiplication, so the result is the product modulo 2^64.
pub fn scale_amount(amount: u64) -> (r: u64)
    ensures
        r == spec_scaled(amount),
{
    amount.wrapping_mul(MICRO_UNITS_PER_UNIT)
}

/// Law: for every amount whose product with the scale factor fits in 64 bits,
/// scaling is exact.
pub proof fn lemma_scale_exact(amount: u64)
    requires
        amount * MICRO_UNITS_PER_UNIT <= u64::MAX,
    ensures
        spec_scaled(amount) == amount * MICRO_UNITS_PER_UNIT,
{
}

/// Law: for every amount, the scaled result is the full product reduced
/// modulo 2^64; where the product overflows 64 bits, the result is strictly
/// below the true product, so overflow silently loses information.
pub proof fn lemma_scale_wraps(amount: u64)
    ensures
        spec_scaled(amount) == (amount * MICRO_UNITS_PER_UNIT) % 0x1_0000_0000_0000_0000,
        amount * MICRO_UNITS_PER_UNIT > u64::MAX ==> spec_scaled(amount) < amount
            * MICRO_UNITS_PER_UNIT,
{
}

/// Writes the little-endian encoding of `value` over the first
/// `AMOUNT_BYTES` bytes of `buf`, leaving the rest of the buffer unchanged.
pub fn write_amount(buf: &mut Vec<u8>, value: u64)
    requires
        old(buf)@.len() >= AMOUNT_BYTES,
    ensures
        final(buf)@.len() == old(buf)@.len(),
        final(buf)@.subrange(0, AMOUNT_BYTES as int) == spec_u64_to_le_bytes(value),
        final(buf)@.skip(AMOUNT_BYTES as int) == old(buf)@.skip(AMOUNT_BYTES as int),
{
    let bytes = vstd::bytes::u64_to_le_bytes(value);
    let mut i: usize = 0;
    while i < AMOUNT_BYTES
        invariant
            i <= AMOUNT_BYTES,
            bytes@ == spec_u64_to_le_bytes(value),
            bytes@.len() == AMOUNT_BYTES,
            buf@.len() == old(buf)@.len() >= AMOUNT_BYTES,
            forall|j: int| 0 <= j < i ==> buf@[j] == bytes@[j],
            forall|j: int| i <= j < buf@.len() ==> buf@[j] == old(buf)@[j],
        decreases AMOUNT_BYTES - i,
    {
        let b = bytes[i];
        buf[i] = b;
        i += 1;
    }
    proof {
        assert_seqs_equal!(buf@.subrange(0, AMOUNT_BYTES as int) == spec_u64_to_le_bytes(value));
        assert_seqs_equal!(
            buf@.skip(AMOUNT_BYTES as int) == old(buf)@.skip(AMOUNT_BYTES as int)
        );
    }
}

/// The typed failure that a payload and a list of account buffers produce, if
/// any, in the order the checks run: empty payload, short payload, missing
/// account, short buffer.
pub open spec fn spec_failure_of(accounts: Seq<Seq<u8>>, payload: Seq<u8>) -> Option<
    ProcessError,
> {
    if payload.len() == 0 {
        Some(ProcessError::InvalidInput)
    } else if payload.len() < AMOUNT_BYTES {
        Some(ProcessError::PayloadTooShort)
    } else if accounts.len() == 0 {
        Some(ProcessError::MissingAccount)
    } else if accounts[0].len() < AMOUNT_BYTES {
        Some(ProcessError::AccountTooSmall)
    } else {
        None
    }
}

/// `accounts` with the little-endian encoding of `value` written over the
/// first `AMOUNT_BYTES` bytes of its first buffer, and nothing else changed.
pub open spec fn spec_written(accounts: Seq<Seq<u8>>, value: u64) -> Seq<Seq<u8>>
    recommends
        accounts.len() > 0,
        accounts[0].len() >= AMOUNT_BYTES,
{
    accounts.update(0, spec_u64_to_le_bytes(value) + accounts[0].skip(AMOUNT_BYTES as int))
}

/// The deep view of a list of buffers is the sequence of the buffers' views.
proof fn lemma_deep_view_is_views(v: &Vec<Vec<u8>>)
    ensures
        v.deep_view().len() == v@.len(),
        forall|i: int| 0 <= i < v@.len() ==> v.deep_view()[i] == v@[i]@,
{
    assert forall|i: int| 0 <= i < v@.len() implies v.deep_view()[i] == v@[i]@ by {
        assert(v@[i].deep_view() =~= v@[i]@);
    }
}

/// Processes one instruction: reads the amount from the payload, scales it to
/// micro-units with wrapping multiplication, and writes the result over the
/// head of the first account buffer. On any failure no buffer is mutated.
pub fn process_instruction(accounts: &mut Vec<Vec<u8>>, instruction_data: &[u8]) -> (r: Result<
    (),
    ProcessError,
>)
    ensures
        r matches Err(e) ==> {
            &&& spec_failure_of(old(accounts).deep_view(), instruction_data@) == Some(e)
            &&& final(accounts).deep_view() == old(accounts).deep_view()
        },
        r is Ok ==> {
            &&& spec_failure_of(old(accounts).deep_view(), instruction_data@) is None
            &&& final(accounts).deep_view() == spec_written(
                old(accounts).deep_view(),
                spec_scaled(spec_amount_of(instruction_data@)),
            )
        },
{
    let amount = match read_amount(instruction_data) {
        Ok(a) => a,
        Err(e) => {
            return Err(e);
        },
    };
    let result = scale_amount(amount);
    if accounts.len() == 0 {
        return Err(ProcessError::MissingAccount);
    }
    if accounts[0].len() < AMOUNT_BYTES {
        return Err(ProcessError::AccountTooSmall);
    }
    let first = &mut accounts[0];
    write_amount(first, result);
    proof {
        let scaled = spec_scaled(spec_amount_of(instruction_data@));
        lemma_deep_view_is_views(accounts);
        lemma_deep_view_is_views(old(accounts));
        assert(accounts@[0]@ =~= spec_u64_to_le_bytes(scaled) + old(accounts)@[0]@.skip(
            AMOUNT_BYTES as int,
        ));
        assert(accounts.deep_view() =~~= spec_written(old(accounts).deep_view(), scaled));
    }
    Ok(())
}

} // verus!
