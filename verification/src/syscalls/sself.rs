//! Syscalls on the executing actor itself: its state root, its balance,
//! and its removal.

use vstd::prelude::*;

use crate::codec::cid_bytes;
use crate::codec::decode_address_spec;
use crate::codec::decode_address;
use crate::codec::decode_cid_spec;
use crate::codec::decode_cid;
use crate::codec::encode_cid;
use crate::kernel::InvocationKernel;
use crate::kernel::SelfOps;
use crate::kernel::PendingDestruct;
use crate::memory::GuestMemory;
use crate::types::ErrorNumber;
use crate::types::Fault;
use crate::types::KernelError;

verus! {

/// Writes the actor's state root into the guest buffer at `obuf_off`.
/// The returned value is the actual encoded length: if the buffer is
/// smaller, nothing is written and the guest must retry with a larger
/// buffer.
pub fn root(k: &InvocationKernel, mem: &mut GuestMemory, obuf_off: u32, obuf_len: u32) -> (r:
    Result<u32, KernelError>)
    requires
        k.wf(),
    ensures
        k.aborted ==> r == Err::<u32, KernelError>(KernelError::Fatal(Fault::Aborted)) && *final(mem) == *old(mem),
        !k.aborted && !old(mem).contains_window(obuf_off, obuf_len) ==> r == Err::<
            u32,
            KernelError,
        >(KernelError::Syscall(ErrorNumber::IllegalArgument)) && *final(mem) == *old(mem),
        !k.aborted && old(mem).contains_window(obuf_off, obuf_len) ==> {
            let enc = cid_bytes(k.state_root@);
            if enc.len() > obuf_len {
                r == Ok::<u32, KernelError>(enc.len() as u32) && *final(mem) == *old(mem)
            } else {
                &&& r == Ok::<u32, KernelError>(enc.len() as u32)
                &&& final(mem).bytes@ == old(mem).bytes@.take(obuf_off as int) + enc + old(mem).bytes@.skip(obuf_off as int + enc.len() as int)
            }
        },
{
    if k.aborted {
        return Err(KernelError::Fatal(Fault::Aborted));
    }
    if !mem.check_bounds(obuf_off, obuf_len) {
        return Err(KernelError::Syscall(ErrorNumber::IllegalArgument));
    }
    let root_cid = k.root();
    let enc = encode_cid(&root_cid);
    if enc.len() > obuf_len as usize {
        return Ok(enc.len() as u32);
    }
    mem.write_range(obuf_off, &enc);
    Ok(enc.len() as u32)
}

/// Reads a content identifier from guest memory at `cid_off` and makes
/// it the actor's new state root. A malformed identifier is rejected
/// with `IllegalArgument`; one that is neither reachable nor the
/// current root is a fatal invalid state-root transition.
pub fn set_root(k: &mut InvocationKernel, mem: &GuestMemory, cid_off: u32) -> (r: Result<
    (),
    KernelError,
>)
    requires
        old(k).wf(),
    ensures
        final(k).wf(),
        old(k).aborted ==> r == Err::<(), KernelError>(KernelError::Fatal(Fault::Aborted))
            && *final(k) == *old(k),
        !old(k).aborted ==> match decode_cid_spec(mem.bytes@, cid_off as int) {
            None => r == Err::<(), KernelError>(KernelError::Syscall(ErrorNumber::IllegalArgument))
                && *final(k) == *old(k),
            Some((c, used)) => {
                &&& (!old(k).validated ==> r == Err::<(), KernelError>(
                    KernelError::Fatal(Fault::ValidationPolicy),
                ) && *final(k) == (InvocationKernel { aborted: true, ..*old(k) }))
                &&& (old(k).validated ==> {
                    if old(k).valid_root_transition(c) {
                        r is Ok && *final(k) == (InvocationKernel {
                            state_root: final(k).state_root,
                            ..*old(k)
                        }) && final(k).state_root@ == c
                    } else {
                        r == Err::<(), KernelError>(
                            KernelError::Fatal(Fault::InvalidRootTransition),
                        ) && *final(k) == (InvocationKernel { aborted: true, ..*old(k) })
                    }
                })
            },
        },
{
    if k.aborted {
        return Err(KernelError::Fatal(Fault::Aborted));
    }
    match decode_cid(&mem.bytes, cid_off as usize) {
        None => Err(KernelError::Syscall(ErrorNumber::IllegalArgument)),
        Some((cid, _)) => k.set_root(cid),
    }
}

/// Reports the executing actor's balance.
pub fn current_balance(k: &InvocationKernel) -> (r: Result<u128, KernelError>)
    ensures
        k.aborted ==> r == Err::<u128, KernelError>(KernelError::Fatal(Fault::Aborted)),
        !k.aborted ==> r == Ok::<u128, KernelError>(k.balance),
{
    k.current_balance()
}

/// Reads a beneficiary address from the guest window and marks the
/// executing actor for removal, transferring its balance there.
pub fn self_destruct(k: &mut InvocationKernel, mem: &GuestMemory, addr_off: u32, addr_len: u32) -> (
    r: Result<(), KernelError>)
    ensures
        old(k).aborted ==> r == Err::<(), KernelError>(KernelError::Fatal(Fault::Aborted))
            && *final(k) == *old(k),
        !old(k).aborted && !mem.contains_window(addr_off, addr_len) ==> r == Err::<
            (),
            KernelError,
        >(KernelError::Syscall(ErrorNumber::IllegalArgument)) && *final(k) == *old(k),
        !old(k).aborted && mem.contains_window(addr_off, addr_len) ==> {
            let window = mem.bytes@.subrange(addr_off as int, addr_off as int + addr_len as int);
            match decode_address_spec(window, 0) {
                None => r == Err::<(), KernelError>(
                    KernelError::Syscall(ErrorNumber::IllegalArgument),
                ) && *final(k) == *old(k),
                Some((a, used)) => {
                    if used != addr_len {
                        r == Err::<(), KernelError>(
                            KernelError::Syscall(ErrorNumber::IllegalArgument),
                        ) && *final(k) == *old(k)
                    } else {
                        &&& (!old(k).validated ==> r == Err::<(), KernelError>(
                            KernelError::Fatal(Fault::ValidationPolicy),
                        ) && *final(k) == (InvocationKernel { aborted: true, ..*old(k) }))
                        &&& (old(k).validated ==> match old(k).resolve_spec(a) {
                            None => r == Err::<(), KernelError>(
                                KernelError::Syscall(ErrorNumber::NotFound),
                            ) && *final(k) == *old(k),
                            Some(id) => {
                                if InvocationKernel::lookup_code_spec(
                                    old(k).code_bindings@,
                                    id,
                                ) is Some {
                                    r is Ok && *final(k) == (InvocationKernel {
                                        balance: 0,
                                        destructed: Some(
                                            PendingDestruct {
                                                beneficiary: id,
                                                amount: old(k).balance,
                                            },
                                        ),
                                        ..*old(k)
                                    })
                                } else {
                                    r == Err::<(), KernelError>(
                                        KernelError::Syscall(ErrorNumber::NotFound),
                                    ) && *final(k) == *old(k)
                                }
                            },
                        })
                    }
                },
            }
        },
{
    if k.aborted {
        return Err(KernelError::Fatal(Fault::Aborted));
    }
    if !mem.check_bounds(addr_off, addr_len) {
        return Err(KernelError::Syscall(ErrorNumber::IllegalArgument));
    }
    let window = mem.read_range(addr_off, addr_len);
    match decode_address(&window, 0) {
        None => Err(KernelError::Syscall(ErrorNumber::IllegalArgument)),
        Some((addr, used)) => {
            if used != addr_len as usize {
                return Err(KernelError::Syscall(ErrorNumber::IllegalArgument));
            }
            k.self_destruct(&addr)
        },
    }
}

} // verus!
