//! Randomness syscalls: 32 bytes from the ticket chain or from the
//! beacon, derived from a domain-separation tag, a target epoch, and
//! caller-supplied entropy read from guest memory.

use vstd::prelude::*;

use crate::hashing::blake2b256_of;
use crate::kernel::InvocationKernel;
use crate::kernel::RandomnessOps;
use crate::memory::GuestMemory;
use crate::types::ErrorNumber;
use crate::types::Fault;
use crate::types::KernelError;

verus! {

/// Draws 32 bytes of ticket-chain randomness, reading the entropy from
/// the guest window.
pub fn get_chain_randomness(
    k: &InvocationKernel,
    mem: &GuestMemory,
    pers: i64,
    round: i64,
    entropy_off: u32,
    entropy_len: u32,
) -> (r: Result<Vec<u8>, KernelError>)
    ensures
        k.aborted ==> r == Err::<Vec<u8>, KernelError>(KernelError::Fatal(Fault::Aborted)),
        !k.aborted && !mem.contains_window(entropy_off, entropy_len) ==> r == Err::<
            Vec<u8>,
            KernelError,
        >(KernelError::Syscall(ErrorNumber::IllegalArgument)),
        !k.aborted && mem.contains_window(entropy_off, entropy_len) && (round > k.ctx.curr_epoch
            || round < k.ctx.tickets_from) ==> r == Err::<Vec<u8>, KernelError>(
            KernelError::Syscall(ErrorNumber::IllegalArgument),
        ),
        !k.aborted && mem.contains_window(entropy_off, entropy_len) && k.ctx.tickets_from <= round
            <= k.ctx.curr_epoch ==> r is Ok && r.unwrap()@ == blake2b256_of(
            InvocationKernel::rand_payload(
                pers,
                k.chain_seed@,
                round,
                mem.bytes@.subrange(entropy_off as int, entropy_off as int + entropy_len as int),
            ),
        ) && r.unwrap()@.len() == 32,
{
    if k.aborted {
        return Err(KernelError::Fatal(Fault::Aborted));
    }
    if !mem.check_bounds(entropy_off, entropy_len) {
        return Err(KernelError::Syscall(ErrorNumber::IllegalArgument));
    }
    let entropy = mem.read_range(entropy_off, entropy_len);
    k.get_randomness_from_tickets(pers, round, &entropy)
}

/// Draws 32 bytes of beacon randomness, reading the entropy from the
/// guest window.
pub fn get_beacon_randomness(
    k: &InvocationKernel,
    mem: &GuestMemory,
    pers: i64,
    round: i64,
    entropy_off: u32,
    entropy_len: u32,
) -> (r: Result<Vec<u8>, KernelError>)
    ensures
        k.aborted ==> r == Err::<Vec<u8>, KernelError>(KernelError::Fatal(Fault::Aborted)),
        !k.aborted && !mem.contains_window(entropy_off, entropy_len) ==> r == Err::<
            Vec<u8>,
            KernelError,
        >(KernelError::Syscall(ErrorNumber::IllegalArgument)),
        !k.aborted && mem.contains_window(entropy_off, entropy_len) && (round > k.ctx.curr_epoch
            || round < k.ctx.beacon_from) ==> r == Err::<Vec<u8>, KernelError>(
            KernelError::Syscall(ErrorNumber::IllegalArgument),
        ),
        !k.aborted && mem.contains_window(entropy_off, entropy_len) && k.ctx.beacon_from <= round
            <= k.ctx.curr_epoch ==> r is Ok && r.unwrap()@ == blake2b256_of(
            InvocationKernel::rand_payload(
                pers,
                k.beacon_seed@,
                round,
                mem.bytes@.subrange(entropy_off as int, entropy_off as int + entropy_len as int),
            ),
        ) && r.unwrap()@.len() == 32,
{
    if k.aborted {
        return Err(KernelError::Fatal(Fault::Aborted));
    }
    if !mem.check_bounds(entropy_off, entropy_len) {
        return Err(KernelError::Syscall(ErrorNumber::IllegalArgument));
    }
    let entropy = mem.read_range(entropy_off, entropy_len);
    k.get_randomness_from_beacon(pers, round, &entropy)
}

} // verus!
