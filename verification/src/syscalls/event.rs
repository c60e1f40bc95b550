//! The event syscall: an encoded event record is read from a guest
//! window, strictly decoded and validated, metered, and recorded.

use vstd::prelude::*;

use crate::codec::decode_event_spec;
use crate::codec::decode_event;
use crate::kernel::InvocationKernel;
use crate::memory::GuestMemory;
use crate::types::ErrorNumber;
use crate::types::Fault;
use crate::types::KernelError;

verus! {

/// Emits an actor event, handed over as an encoded record in the guest
/// window at `event_off`. A window that is out of bounds, malformed,
/// not fully consumed, or carrying unknown flag bits fails with
/// `IllegalArgument` and never partially applies; an unpayable event
/// halts execution with out-of-gas.
pub fn emit_event(k: &mut InvocationKernel, mem: &GuestMemory, event_off: u32, event_len: u32) -> (
    r: Result<(), KernelError>)
    ensures
        old(k).aborted ==> r == Err::<(), KernelError>(KernelError::Fatal(Fault::Aborted))
            && *final(k) == *old(k),
        !old(k).aborted && !mem.contains_window(event_off, event_len) ==> r == Err::<
            (),
            KernelError,
        >(KernelError::Syscall(ErrorNumber::IllegalArgument)) && *final(k) == *old(k),
        !old(k).aborted && mem.contains_window(event_off, event_len) ==> {
            let window = mem.bytes@.subrange(event_off as int, event_off as int + event_len as int);
            match decode_event_spec(window, 0) {
                None => r == Err::<(), KernelError>(
                    KernelError::Syscall(ErrorNumber::IllegalArgument),
                ) && *final(k) == *old(k),
                Some((e, used)) => {
                    if used != event_len {
                        r == Err::<(), KernelError>(
                            KernelError::Syscall(ErrorNumber::IllegalArgument),
                        ) && *final(k) == *old(k)
                    } else {
                        &&& (!old(k).validated ==> r == Err::<(), KernelError>(
                            KernelError::Fatal(Fault::ValidationPolicy),
                        ) && *final(k) == (InvocationKernel { aborted: true, ..*old(k) }))
                        &&& (old(k).validated ==> {
                            if InvocationKernel::event_cost(old(k).ctx, e) > old(k).gas_available {
                                r == Err::<(), KernelError>(KernelError::Fatal(Fault::OutOfGas))
                                    && *final(k) == (InvocationKernel {
                                    aborted: true,
                                    ..*old(k)
                                })
                            } else {
                                &&& r is Ok
                                &&& *final(k) == (InvocationKernel {
                                    gas_available: (old(k).gas_available
                                        - InvocationKernel::event_cost(old(k).ctx, e)) as u64,
                                    events: final(k).events,
                                    ..*old(k)
                                })
                                &&& final(k).events@.len() == old(k).events@.len() + 1
                                &&& final(k).events@.last()@ == e
                                &&& forall|i: int|
                                    0 <= i < old(k).events@.len() ==> final(k).events@[i] == old(k).events@[i]
                            }
                        })
                    }
                },
            }
        },
{
    if k.aborted {
        return Err(KernelError::Fatal(Fault::Aborted));
    }
    if !mem.check_bounds(event_off, event_len) {
        return Err(KernelError::Syscall(ErrorNumber::IllegalArgument));
    }
    let window = mem.read_range(event_off, event_len);
    match decode_event(&window, 0) {
        None => Err(KernelError::Syscall(ErrorNumber::IllegalArgument)),
        Some((evt, used)) => {
            if used != event_len as usize {
                return Err(KernelError::Syscall(ErrorNumber::IllegalArgument));
            }
            k.emit_event(evt)
        },
    }
}

} // verus!
