//! The per-invocation kernel: the capability surface a guest invocation
//! is dispatched against. One value of [`InvocationKernel`] holds the
//! whole invocation frame — message envelope, gas counter, validation
//! status, block table, return stack, actor directory — and every
//! operation states exactly how it moves that frame.

use vstd::prelude::*;

use crate::blocks::BlockRegistry;
use crate::consensus::ConsensusFault;
use crate::consensus::HeaderRec;
use crate::consensus::detect_consensus_fault;
use crate::consensus::fault_spec;
use crate::hashing::blake2b256;
use crate::hashing::blake2b256_of;
use crate::types::clone_cid;
use crate::types::Address;
use crate::types::AddressSpec;
use crate::types::CidBuf;
use crate::types::CidSpec;
use crate::types::ErrorNumber;
use crate::types::EventRecord;
use crate::types::Fault;
use crate::types::KernelError;
use vstd::bytes::spec_u64_to_le_bytes;

verus! {

/// Invocation-scoped constants: the network view, the message envelope,
/// and the injected policy parameters. None of these change during an
/// invocation.
#[derive(Clone, Copy, PartialEq, Eq, Structural, Debug)]
pub struct InvocationCtx {
    /// Current chain epoch.
    pub curr_epoch: i64,
    /// Active protocol version.
    pub network_version: u32,
    /// Base fee at the beginning of the epoch.
    pub base_fee: u128,
    /// Total token supply in circulation at the beginning of the epoch.
    pub circ_supply: u128,
    /// ID of the immediate caller.
    pub caller: u64,
    /// ID of the receiving (executing) actor.
    pub receiver: u64,
    /// Method number of the message.
    pub method_number: u64,
    /// Block handle of the opaque parameter block.
    pub method_params: u32,
    /// Value carried by the message.
    pub value_received: u128,
    /// Origin actor of the top-level message, for address derivation.
    pub origin: u64,
    /// Nonce of the top-level message, for address derivation.
    pub origin_nonce: u64,
    /// Policy: the actor allowed to call `create_actor`.
    pub init_actor_id: u64,
    /// Policy: the nested-call depth limit.
    pub max_call_depth: u64,
    /// Policy: flat gas cost of emitting an event.
    pub event_base_cost: u64,
    /// Policy: per-byte gas cost of emitting an event.
    pub event_byte_cost: u64,
    /// Earliest epoch with ticket data available.
    pub tickets_from: i64,
    /// Earliest epoch with beacon data available.
    pub beacon_from: i64,
    /// Epoch bound for consensus-fault chain witnesses.
    pub earliest_fault_epoch: i64,
}

/// A pending `self_destruct`: who receives the balance, and how much.
/// Finalized only if the invocation as a whole succeeds.
#[derive(Clone, Copy, PartialEq, Eq, Structural, Debug)]
pub struct PendingDestruct {
    pub beneficiary: u64,
    pub amount: u128,
}

/// A directory binding from an address to an actor ID.
pub struct AddrBinding {
    pub addr: Address,
    pub id: u64,
}

/// A directory binding from an actor ID to its code identifier.
pub struct CodeBinding {
    pub id: u64,
    pub code: CidBuf,
}

/// The outcome of charging `cost` against `avail` units of gas: the
/// remaining gas, or nothing when the counter would go negative.
pub open spec fn charge_outcome(avail: u64, cost: u64) -> Option<u64> {
    if cost <= avail {
        Some((avail - cost) as u64)
    } else {
        None
    }
}

/// The gas left after charging `costs` in order, or nothing if any
/// charge drives the counter negative.
pub open spec fn gas_after(avail: u64, costs: Seq<u64>) -> Option<u64>
    decreases costs.len(),
{
    if costs.len() == 0 {
        Some(avail)
    } else {
        match charge_outcome(avail, costs[0]) {
            None => None,
            Some(g) => gas_after(g, costs.skip(1)),
        }
    }
}

/// The total of the first `k` costs.
pub open spec fn prefix_total(costs: Seq<u64>, k: int) -> int
    decreases k,
{
    if k <= 0 {
        0
    } else {
        prefix_total(costs, k - 1) + costs[k - 1]
    }
}

/// One invocation frame of the kernel.
pub struct InvocationKernel {
    /// Invocation-scoped constants.
    pub ctx: InvocationCtx,
    /// The block table, reachable set and backing store.
    pub blocks: BlockRegistry,
    /// The actor's state root.
    pub state_root: CidBuf,
    /// The actor's balance.
    pub balance: u128,
    /// The remaining gas budget.
    pub gas_available: u64,
    /// Whether a caller validation has succeeded.
    pub validated: bool,
    /// Whether the invocation has hit a fatal fault.
    pub aborted: bool,
    /// Current nested-call depth.
    pub call_depth: u64,
    /// Sequence counter for derived actor addresses.
    pub actor_seq: u64,
    /// Next actor ID handed out by `create_actor`.
    pub next_actor_id: u64,
    /// The return stack, oldest first.
    pub return_stack: Vec<Vec<u8>>,
    /// Directory: address to actor ID.
    pub addr_bindings: Vec<AddrBinding>,
    /// Directory: actor ID to code identifier.
    pub code_bindings: Vec<CodeBinding>,
    /// Chain state feeding ticket randomness.
    pub chain_seed: Vec<u8>,
    /// Beacon state feeding beacon randomness.
    pub beacon_seed: Vec<u8>,
    /// Headers known to sit in the current chain.
    pub chain_headers: Vec<HeaderRec>,
    /// Events emitted so far.
    pub events: Vec<EventRecord>,
    /// A pending self-destruction, if any.
    pub destructed: Option<PendingDestruct>,
}

impl InvocationKernel {
    /// Internal invariant of the frame.
    pub open spec fn wf(self) -> bool {
        self.blocks.wf() && self.state_root@.wf()
    }

    // -----------------------------------------------------------------
    // Validation ops
    // -----------------------------------------------------------------
    /// True when a validation call may mark the frame validated:
    /// exactly one successful validation is accepted per invocation.
    pub open spec fn validation_open(self) -> bool {
        !self.aborted && !self.validated
    }

    /// First-match resolution of an address in the directory.
    pub open spec fn lookup_addr_spec(bindings: Seq<AddrBinding>, a: AddressSpec) -> Option<u64>
        decreases bindings.len(),
    {
        if bindings.len() == 0 {
            None
        } else if bindings[0].addr@ == a {
            Some(bindings[0].id)
        } else {
            Self::lookup_addr_spec(bindings.skip(1), a)
        }
    }

    /// What an address resolves to: ID addresses resolve to themselves,
    /// key addresses through the directory.
    pub open spec fn resolve_spec(self, a: AddressSpec) -> Option<u64> {
        match a {
            AddressSpec::Id(i) => Some(i),
            _ => Self::lookup_addr_spec(self.addr_bindings@, a),
        }
    }

    /// First-match lookup of an actor's code identifier.
    pub open spec fn lookup_code_spec(bindings: Seq<CodeBinding>, id: u64) -> Option<CidSpec>
        decreases bindings.len(),
    {
        if bindings.len() == 0 {
            None
        } else if bindings[0].id == id {
            Some(bindings[0].code@)
        } else {
            Self::lookup_code_spec(bindings.skip(1), id)
        }
    }

    /// The actor ID the directory gives for `a`, if any.
    fn lookup_addr(&self, a: &Address) -> (r: Option<u64>)
        ensures
            r == Self::lookup_addr_spec(self.addr_bindings@, a@),
    {
        let mut i: usize = 0;
        assert(self.addr_bindings@.skip(0) =~= self.addr_bindings@);
        while i < self.addr_bindings.len()
            invariant
                i <= self.addr_bindings@.len(),
                Self::lookup_addr_spec(self.addr_bindings@, a@) == Self::lookup_addr_spec(
                    self.addr_bindings@.skip(i as int),
                    a@,
                ),
            decreases self.addr_bindings@.len() - i,
        {
            proof {
                assert(self.addr_bindings@.skip(i as int)[0] == self.addr_bindings@[i as int]);
                assert(self.addr_bindings@.skip(i as int).skip(1) =~= self.addr_bindings@.skip(
                    i as int + 1,
                ));
            }
            if crate::types::address_eq(&self.addr_bindings[i].addr, a) {
                return Some(self.addr_bindings[i].id);
            }
            i = i + 1;
        }
        None
    }

    /// The code identifier bound to `id`, if any.
    fn lookup_code(&self, id: u64) -> (r: Option<&CidBuf>)
        ensures
            match r {
                Some(c) => Self::lookup_code_spec(self.code_bindings@, id) == Some(c@),
                None => Self::lookup_code_spec(self.code_bindings@, id) is None,
            },
    {
        let mut i: usize = 0;
        assert(self.code_bindings@.skip(0) =~= self.code_bindings@);
        while i < self.code_bindings.len()
            invariant
                i <= self.code_bindings@.len(),
                Self::lookup_code_spec(self.code_bindings@, id) == Self::lookup_code_spec(
                    self.code_bindings@.skip(i as int),
                    id,
                ),
            decreases self.code_bindings@.len() - i,
        {
            proof {
                assert(self.code_bindings@.skip(i as int)[0] == self.code_bindings@[i as int]);
                assert(self.code_bindings@.skip(i as int).skip(1) =~= self.code_bindings@.skip(
                    i as int + 1,
                ));
            }
            if self.code_bindings[i].id == id {
                return Some(&self.code_bindings[i].code);
            }
            i = i + 1;
        }
        None
    }

    /// Body of the allow-list caller validation; see `ValidationOps`.
    fn validate_by_addrs(&mut self, allowed: &Vec<Address>) -> (r: Result<(), KernelError>)
        ensures
            old(self).aborted ==> r == Err::<(), KernelError>(KernelError::Fatal(Fault::Aborted))
                && *final(self) == *old(self),
            !old(self).aborted && old(self).validated ==> r == Err::<(), KernelError>(
                KernelError::Fatal(Fault::ValidationPolicy),
            ) && *final(self) == (InvocationKernel { aborted: true, ..*old(self) }),
            old(self).validation_open() ==> {
                let matched = exists|i: int|
                    0 <= i < allowed@.len() && old(self).resolve_spec(#[trigger] allowed@[i]@)
                        == Some(old(self).ctx.caller);
                if matched {
                    r is Ok && *final(self) == (InvocationKernel { validated: true, ..*old(self) })
                } else {
                    r == Err::<(), KernelError>(KernelError::Syscall(ErrorNumber::Forbidden))
                        && *final(self) == *old(self)
                }
            },
    {
        if self.aborted {
            return Err(KernelError::Fatal(Fault::Aborted));
        }
        if self.validated {
            self.aborted = true;
            return Err(KernelError::Fatal(Fault::ValidationPolicy));
        }
        let mut i: usize = 0;
        while i < allowed.len()
            invariant
                i <= allowed@.len(),
                !self.aborted && !self.validated,
                *self == *old(self),
                forall|j: int|
                    0 <= j < i ==> self.resolve_spec(#[trigger] allowed@[j]@) != Some(
                        self.ctx.caller,
                    ),
            decreases allowed@.len() - i,
        {
            let resolved: Option<u64> = match &allowed[i] {
                Address::Id(x) => Some(*x),
                other => self.lookup_addr(other),
            };
            match resolved {
                Some(id) if id == self.ctx.caller => {
                    self.validated = true;
                    return Ok(());
                },
                _ => {},
            }
            i = i + 1;
        }
        Err(KernelError::Syscall(ErrorNumber::Forbidden))
    }

    /// Body of the code-identifier caller validation; see
    /// `ValidationOps`.
    fn validate_by_types(&mut self, allowed: &Vec<CidBuf>) -> (r: Result<(), KernelError>)
        ensures
            old(self).aborted ==> r == Err::<(), KernelError>(KernelError::Fatal(Fault::Aborted))
                && *final(self) == *old(self),
            !old(self).aborted && old(self).validated ==> r == Err::<(), KernelError>(
                KernelError::Fatal(Fault::ValidationPolicy),
            ) && *final(self) == (InvocationKernel { aborted: true, ..*old(self) }),
            old(self).validation_open() ==> {
                let matched = match Self::lookup_code_spec(
                    old(self).code_bindings@,
                    old(self).ctx.caller,
                ) {
                    Some(code) => exists|i: int| 0 <= i < allowed@.len() && #[trigger] allowed@[i]@
                        == code,
                    None => false,
                };
                if matched {
                    r is Ok && *final(self) == (InvocationKernel { validated: true, ..*old(self) })
                } else {
                    r == Err::<(), KernelError>(KernelError::Syscall(ErrorNumber::Forbidden))
                        && *final(self) == *old(self)
                }
            },
    {
        if self.aborted {
            return Err(KernelError::Fatal(Fault::Aborted));
        }
        if self.validated {
            self.aborted = true;
            return Err(KernelError::Fatal(Fault::ValidationPolicy));
        }
        let code = match self.lookup_code(self.ctx.caller) {
            None => {
                return Err(KernelError::Syscall(ErrorNumber::Forbidden));
            },
            Some(c) => c,
        };
        let mut i: usize = 0;
        while i < allowed.len()
            invariant
                i <= allowed@.len(),
                !self.aborted && !self.validated,
                *self == *old(self),
                Self::lookup_code_spec(self.code_bindings@, self.ctx.caller) == Some(code@),
                forall|j: int| 0 <= j < i ==> #[trigger] allowed@[j]@ != code@,
            decreases allowed@.len() - i,
        {
            if crate::types::cid_eq(&allowed[i], code) {
                self.validated = true;
                return Ok(());
            }
            i = i + 1;
        }
        Err(KernelError::Syscall(ErrorNumber::Forbidden))
    }

    // -----------------------------------------------------------------
    // Self ops
    // -----------------------------------------------------------------
    /// The identifiers the state root may lawfully move to: those made
    /// reachable during this invocation, and the root the actor
    /// already has.
    pub open spec fn valid_root_transition(self, c: CidSpec) -> bool {
        self.blocks.reachable_contains(c) || c == self.state_root@
    }

    /// Body of the state-root replacement; see `SelfOps`.
    fn set_root_body(&mut self, new_root: CidBuf) -> (r: Result<(), KernelError>)
        requires
            old(self).wf(),
        ensures
            final(self).wf(),
            old(self).aborted ==> r == Err::<(), KernelError>(KernelError::Fatal(Fault::Aborted))
                && *final(self) == *old(self),
            !old(self).aborted && !old(self).validated ==> r == Err::<(), KernelError>(
                KernelError::Fatal(Fault::ValidationPolicy),
            ) && *final(self) == (InvocationKernel { aborted: true, ..*old(self) }),
            !old(self).aborted && old(self).validated ==> {
                if old(self).valid_root_transition(new_root@) {
                    r is Ok && *final(self) == (InvocationKernel {
                        state_root: final(self).state_root,
                        ..*old(self)
                    }) && final(self).state_root@ == new_root@
                } else {
                    r == Err::<(), KernelError>(KernelError::Fatal(Fault::InvalidRootTransition))
                        && *final(self) == (InvocationKernel { aborted: true, ..*old(self) })
                }
            },
            !old(self).aborted && old(self).validated ==> (r is Ok <==> old(
                self,
            ).valid_root_transition(new_root@)),
    {
        if self.aborted {
            return Err(KernelError::Fatal(Fault::Aborted));
        }
        if !self.validated {
            self.aborted = true;
            return Err(KernelError::Fatal(Fault::ValidationPolicy));
        }
        let reachable = self.blocks.is_reachable(&new_root);
        if !reachable && !crate::types::cid_eq(&new_root, &self.state_root) {
            self.aborted = true;
            return Err(KernelError::Fatal(Fault::InvalidRootTransition));
        }
        proof {
            if self.blocks.reachable_contains(new_root@) {
                let i = choose|i: int|
                    0 <= i < self.blocks.reachable@.len() && self.blocks.reachable@[i]@
                        == new_root@;
                assert(self.blocks.store_has(self.blocks.reachable@[i]@));
                let k = self.blocks.store_at(self.blocks.reachable@[i]@);
                assert(self.blocks.store@[k].cid@.wf());
            } else {
                assert(new_root@ == self.state_root@);
            }
        }
        self.state_root = new_root;
        Ok(())
    }

    /// Body of the self-destruction; see `SelfOps`.
    fn self_destruct_body(&mut self, beneficiary: &Address) -> (r: Result<(), KernelError>)
        ensures
            old(self).aborted ==> r == Err::<(), KernelError>(KernelError::Fatal(Fault::Aborted))
                && *final(self) == *old(self),
            !old(self).aborted && !old(self).validated ==> r == Err::<(), KernelError>(
                KernelError::Fatal(Fault::ValidationPolicy),
            ) && *final(self) == (InvocationKernel { aborted: true, ..*old(self) }),
            !old(self).aborted && old(self).validated ==> match old(self).resolve_spec(
                beneficiary@,
            ) {
                None => r == Err::<(), KernelError>(KernelError::Syscall(ErrorNumber::NotFound))
                    && *final(self) == *old(self),
                Some(id) => {
                    if Self::lookup_code_spec(old(self).code_bindings@, id) is Some {
                        r is Ok && *final(self) == (InvocationKernel {
                            balance: 0,
                            destructed: Some(
                                PendingDestruct { beneficiary: id, amount: old(self).balance },
                            ),
                            ..*old(self)
                        })
                    } else {
                        r == Err::<(), KernelError>(KernelError::Syscall(ErrorNumber::NotFound))
                            && *final(self) == *old(self)
                    }
                },
            },
    {
        if self.aborted {
            return Err(KernelError::Fatal(Fault::Aborted));
        }
        if !self.validated {
            self.aborted = true;
            return Err(KernelError::Fatal(Fault::ValidationPolicy));
        }
        let resolved: Option<u64> = match beneficiary {
            Address::Id(x) => Some(*x),
            other => self.lookup_addr(other),
        };
        match resolved {
            None => Err(KernelError::Syscall(ErrorNumber::NotFound)),
            Some(id) => {
                match self.lookup_code(id) {
                    None => Err(KernelError::Syscall(ErrorNumber::NotFound)),
                    Some(_) => {
                        let amount = self.balance;
                        self.balance = 0;
                        self.destructed = Some(PendingDestruct { beneficiary: id, amount });
                        Ok(())
                    },
                }
            },
        }
    }
}

/// Once the total of a cost sequence exceeds the budget, charging them
/// in order runs dry: there is a first charge that would drive the
/// counter negative, every charge before it fits, and from that point
/// on no further charge is applied.
pub proof fn lemma_gas_exhaustion(avail: u64, costs: Seq<u64>)
    ensures
        prefix_total(costs, costs.len() as int) <= avail ==> gas_after(avail, costs) == Some(
            (avail - prefix_total(costs, costs.len() as int)) as u64,
        ),
        prefix_total(costs, costs.len() as int) > avail ==> gas_after(avail, costs) is None
            && exists|k: int|
            0 <= k < costs.len() && #[trigger] prefix_total(costs, k) <= avail && prefix_total(
                costs,
                k,
            ) + costs[k] > avail && forall|j: int|
                0 <= j < k ==> #[trigger] prefix_total(costs, j) + costs[j] <= avail,
    decreases costs.len(),
{
    lemma_prefix_total_nonneg(costs, costs.len() as int);
    if costs.len() == 0 {
    } else {
        let tail = costs.skip(1);
        let total = prefix_total(costs, costs.len() as int);
        lemma_prefix_total_shift(costs, costs.len() as int);
        lemma_prefix_total_nonneg(tail, tail.len() as int);
        assert(total == costs[0] + prefix_total(tail, tail.len() as int));
        if costs[0] > avail {
            assert(total > avail);
            assert(gas_after(avail, costs) is None);
            let k = 0;
            assert(prefix_total(costs, 0) == 0);
            assert(prefix_total(costs, k) <= avail && prefix_total(costs, k) + costs[k] > avail
                && forall|j: int| 0 <= j < k ==> #[trigger] prefix_total(costs, j) + costs[j]
                <= avail);
        } else {
            let g = (avail - costs[0]) as u64;
            lemma_gas_exhaustion(g, tail);
            assert(gas_after(avail, costs) == gas_after(g, tail));
            assert forall|m: int| 0 <= m < costs.len() implies #[trigger] prefix_total(
                costs,
                m + 1,
            ) == costs[0] + prefix_total(tail, m) by {
                lemma_prefix_total_shift(costs, m + 1);
            }
            if total > avail {
                assert(prefix_total(tail, tail.len() as int) > g);
                let k0 = choose|k: int|
                    0 <= k < tail.len() && #[trigger] prefix_total(tail, k) <= g && prefix_total(
                        tail,
                        k,
                    ) + tail[k] > g && forall|j: int|
                        0 <= j < k ==> #[trigger] prefix_total(tail, j) + tail[j] <= g;
                let k = k0 + 1;
                assert(prefix_total(costs, k) == costs[0] + prefix_total(tail, k0));
                assert(prefix_total(costs, k) <= avail);
                assert(costs[k] == tail[k0]);
                assert(prefix_total(costs, k) + costs[k] > avail);
                assert forall|j: int| 0 <= j < k implies #[trigger] prefix_total(costs, j)
                    + costs[j] <= avail by {
                    if j == 0 {
                        assert(prefix_total(costs, 0) == 0);
                    } else {
                        assert(prefix_total(costs, j) == costs[0] + prefix_total(tail, j - 1));
                        assert(prefix_total(tail, j - 1) + tail[j - 1] <= g);
                        assert(costs[j] == tail[j - 1]);
                    }
                }
            } else {
                assert(prefix_total(tail, tail.len() as int) <= g);
            }
        }
    }
}

/// Prefix totals of unsigned costs are nonnegative and monotone.
pub proof fn lemma_prefix_total_nonneg(costs: Seq<u64>, k: int)
    requires
        k <= costs.len(),
    ensures
        forall|j: int| 0 <= j <= k ==> #[trigger] prefix_total(costs, j) >= 0,
    decreases k,
{
    if k > 0 {
        lemma_prefix_total_nonneg(costs, k - 1);
        assert(prefix_total(costs, k) == prefix_total(costs, k - 1) + costs[k - 1]);
    }
}

/// Dropping the first cost shifts the prefix total by that cost.
pub proof fn lemma_prefix_total_shift(costs: Seq<u64>, k: int)
    requires
        costs.len() > 0,
        0 <= k <= costs.len(),
    ensures
        k >= 1 ==> prefix_total(costs, k) == costs[0] + prefix_total(costs.skip(1), k - 1),
    decreases k,
{
    if k == 1 {
        assert(prefix_total(costs, 1) == prefix_total(costs, 0) + costs[0]);
        assert(prefix_total(costs.skip(1), 0) == 0);
    } else if k > 1 {
        lemma_prefix_total_shift(costs, k - 1);
        assert(costs.skip(1)[k - 2] == costs[k - 1]);
        assert(prefix_total(costs, k) == prefix_total(costs, k - 1) + costs[k - 1]);
        assert(prefix_total(costs.skip(1), k - 1) == prefix_total(costs.skip(1), k - 2)
            + costs.skip(1)[k - 2]);
    }
}


// ---------------------------------------------------------------------
// Send ops
// ---------------------------------------------------------------------
/// A message handed to `send`: the destination, the method to invoke,
/// its opaque parameters, and the value to transfer.
pub struct Message {
    pub to: Address,
    pub method: u64,
    pub params: Vec<u8>,
    pub value: u128,
}

/// What the sandbox engine reports back from running the callee. The
/// callee ran on its own frame; only gas and this outcome cross back.
pub enum CalleeOutcome {
    /// The callee succeeded and returned this payload.
    Completed(Vec<u8>),
    /// The callee failed with a recoverable error; its state changes
    /// were discarded.
    Failed(ErrorNumber),
    /// The callee hit a fatal fault, which propagates to the caller.
    Faulted(Fault),
}

/// The engine's report from a nested call: gas consumed by the callee,
/// drawn from the caller's budget, and how the callee ended.
pub struct SendOutcome {
    pub gas_used: u64,
    pub kind: CalleeOutcome,
}

/// What `send` reports to the caller on a non-fatal outcome.
#[derive(Clone, Copy, PartialEq, Eq, Structural, Debug)]
pub enum SendResult {
    /// The callee succeeded; its return payload is on the return stack.
    Completed,
    /// The callee failed; captured as a value, not fatal to the caller.
    CalleeError(ErrorNumber),
}

impl InvocationKernel {
    // -----------------------------------------------------------------
    // Block ops
    // -----------------------------------------------------------------
    /// Opens a reachable block into a fresh handle; fails with
    /// `NotFound` exactly when the identifier is not reachable, and
    /// succeeds whenever it is reachable and the handle table has room.
    fn block_open_body(&mut self, c: &CidBuf) -> (r: Result<u32, KernelError>)
        requires
            old(self).wf(),
        ensures
            final(self).wf(),
            *final(self) == (InvocationKernel { blocks: final(self).blocks, ..*old(self) }),
            old(self).aborted ==> r == Err::<u32, KernelError>(KernelError::Fatal(Fault::Aborted))
                && *final(self) == *old(self),
            !old(self).aborted ==> {
                &&& final(self).blocks.reachable == old(self).blocks.reachable
                &&& final(self).blocks.store == old(self).blocks.store
                &&& (old(self).blocks.reachable_contains(c@) && old(self).blocks.blocks@.len()
                    < u32::MAX ==> r is Ok)
                &&& (r matches Err(e) ==> final(self).blocks == old(self).blocks && (e
                    == KernelError::Syscall(ErrorNumber::NotFound) <==> !old(self).blocks.reachable_contains(c@)))
                &&& (r matches Ok(h) ==> {
                    &&& old(self).blocks.reachable_contains(c@)
                    &&& h == old(self).blocks.blocks@.len() + 1
                    &&& final(self).blocks.valid_handle(h)
                    &&& final(self).blocks.handle_codec(h) == old(self).blocks.store@[old(self).blocks.store_at(c@)].codec
                    &&& final(self).blocks.handle_data(h) == old(self).blocks.store@[old(self).blocks.store_at(c@)].data@
                })
            },
    {
        if self.aborted {
            return Err(KernelError::Fatal(Fault::Aborted));
        }
        self.blocks.block_open(c)
    }

    /// Creates a block from guest bytes, subject to the size, codec and
    /// link rules; allocates a handle without minting an identifier.
    fn block_create_body(&mut self, codec: u64, data: &Vec<u8>) -> (r: Result<u32, KernelError>)
        requires
            old(self).wf(),
        ensures
            final(self).wf(),
            *final(self) == (InvocationKernel { blocks: final(self).blocks, ..*old(self) }),
            old(self).aborted ==> r == Err::<u32, KernelError>(KernelError::Fatal(Fault::Aborted))
                && *final(self) == *old(self),
            !old(self).aborted ==> {
                &&& final(self).blocks.reachable == old(self).blocks.reachable
                &&& final(self).blocks.store == old(self).blocks.store
                &&& match old(self).blocks.create_check(codec, data@) {
                    Some(e) => r == Err::<u32, KernelError>(KernelError::Syscall(e)) && *final(self) == *old(self),
                    None => {
                        &&& r == Ok::<u32, KernelError>(
                            (old(self).blocks.blocks@.len() + 1) as u32,
                        )
                        &&& final(self).blocks.handle_codec(
                            (old(self).blocks.blocks@.len() + 1) as u32,
                        ) == codec
                        &&& final(self).blocks.handle_data(
                            (old(self).blocks.blocks@.len() + 1) as u32,
                        ) == data@
                    },
                }
            },
    {
        if self.aborted {
            return Err(KernelError::Fatal(Fault::Aborted));
        }
        self.blocks.block_create(codec, data)
    }

    /// Mints a content identifier for a block and adds it to the
    /// reachable set — the only way the reachable set grows.
    fn block_link_body(&mut self, id: u32, hash_fun: u64, hash_len: u32) -> (r: Result<
        CidBuf,
        KernelError,
    >)
        requires
            old(self).wf(),
        ensures
            final(self).wf(),
            *final(self) == (InvocationKernel { blocks: final(self).blocks, ..*old(self) }),
            old(self).aborted ==> r == Err::<CidBuf, KernelError>(
                KernelError::Fatal(Fault::Aborted),
            ) && *final(self) == *old(self),
            !old(self).aborted ==> {
                &&& final(self).blocks.blocks == old(self).blocks.blocks
                &&& (!old(self).blocks.valid_handle(id) ==> r == Err::<CidBuf, KernelError>(
                    KernelError::Syscall(ErrorNumber::InvalidHandle),
                ) && *final(self) == *old(self))
                &&& (old(self).blocks.valid_handle(id) && !crate::hashing::multihash_supported(
                    hash_fun,
                    hash_len,
                ) ==> r == Err::<CidBuf, KernelError>(
                    KernelError::Syscall(ErrorNumber::InvalidMultihashSpec),
                ) && *final(self) == *old(self))
                &&& (old(self).blocks.valid_handle(id) && crate::hashing::multihash_supported(
                    hash_fun,
                    hash_len,
                ) ==> {
                    &&& r is Ok
                    &&& r.unwrap()@ == BlockRegistry::link_cid(
                        old(self).blocks.handle_codec(id),
                        old(self).blocks.handle_data(id),
                        hash_fun,
                    )
                    &&& final(self).blocks.reachable_contains(r.unwrap()@)
                    &&& forall|c: CidSpec|
                        #![auto]
                        final(self).blocks.reachable_contains(c) <==> old(self).blocks.reachable_contains(c) || c == r.unwrap()@
                })
            },
    {
        if self.aborted {
            return Err(KernelError::Fatal(Fault::Aborted));
        }
        self.blocks.block_link(id, hash_fun, hash_len)
    }

    /// Reads from a block into `buf`; a read past the end is a short
    /// copy, never an error.
    fn block_read_body(&self, id: u32, offset: u32, buf: &mut Vec<u8>) -> (r: Result<
        u32,
        KernelError,
    >)
        requires
            self.wf(),
        ensures
            self.aborted ==> r == Err::<u32, KernelError>(KernelError::Fatal(Fault::Aborted))
                && *final(buf) == *old(buf),
            !self.aborted && !self.blocks.valid_handle(id) ==> r == Err::<u32, KernelError>(
                KernelError::Syscall(ErrorNumber::InvalidHandle),
            ) && *final(buf) == *old(buf),
            !self.aborted && self.blocks.valid_handle(id) ==> {
                let data = self.blocks.handle_data(id);
                let n = if offset >= data.len() {
                    0
                } else if data.len() - offset < old(buf)@.len() {
                    data.len() - offset
                } else {
                    old(buf)@.len() as int
                };
                &&& r == Ok::<u32, KernelError>(n as u32)
                &&& final(buf)@.len() == old(buf)@.len()
                &&& forall|i: int| 0 <= i < n ==> final(buf)@[i] == data[offset + i]
                &&& forall|i: int| n <= i < old(buf)@.len() ==> final(buf)@[i] == old(buf)@[i]
            },
    {
        if self.aborted {
            return Err(KernelError::Fatal(Fault::Aborted));
        }
        self.blocks.block_read(id, offset, buf)
    }

    /// Reports a block's codec and size.
    fn block_stat_body(&self, id: u32) -> (r: Result<crate::types::BlockStat, KernelError>)
        ensures
            self.aborted ==> r == Err::<crate::types::BlockStat, KernelError>(
                KernelError::Fatal(Fault::Aborted),
            ),
            !self.aborted && !self.blocks.valid_handle(id) ==> r == Err::<
                crate::types::BlockStat,
                KernelError,
            >(KernelError::Syscall(ErrorNumber::InvalidHandle)),
            !self.aborted && self.blocks.valid_handle(id) ==> r == Ok::<
                crate::types::BlockStat,
                KernelError,
            >(
                crate::types::BlockStat {
                    codec: self.blocks.handle_codec(id),
                    size: self.blocks.handle_data(id).len() as u64,
                },
            ),
    {
        if self.aborted {
            return Err(KernelError::Fatal(Fault::Aborted));
        }
        self.blocks.block_stat(id)
    }

    // -----------------------------------------------------------------
    // Actor ops
    // -----------------------------------------------------------------
    /// Resolves an address of any protocol to an ID address through the
    /// directory; an ID address resolves to itself. Returns `None`,
    /// not an error, when the address is unknown.
    fn resolve_address_body(&self, address: &Address) -> (r: Result<Option<Address>, KernelError>)
        ensures
            self.aborted ==> r == Err::<Option<Address>, KernelError>(
                KernelError::Fatal(Fault::Aborted),
            ),
            !self.aborted ==> match self.resolve_spec(address@) {
                Some(id) => r == Ok::<Option<Address>, KernelError>(Some(Address::Id(id))),
                None => r == Ok::<Option<Address>, KernelError>(None),
            },
    {
        if self.aborted {
            return Err(KernelError::Fatal(Fault::Aborted));
        }
        match address {
            Address::Id(x) => Ok(Some(Address::Id(*x))),
            other => match self.lookup_addr(other) {
                Some(id) => Ok(Some(Address::Id(id))),
                None => Ok(None),
            },
        }
    }

    /// Looks up the code identifier of the actor at `addr`; `None`,
    /// not an error, for nonexistent actors.
    fn get_actor_code_cid_body(&self, addr: &Address) -> (r: Result<Option<CidBuf>, KernelError>)
        ensures
            self.aborted ==> r == Err::<Option<CidBuf>, KernelError>(
                KernelError::Fatal(Fault::Aborted),
            ),
            !self.aborted ==> match self.resolve_spec(addr@) {
                None => r == Ok::<Option<CidBuf>, KernelError>(None),
                Some(id) => match Self::lookup_code_spec(self.code_bindings@, id) {
                    None => r == Ok::<Option<CidBuf>, KernelError>(None),
                    Some(code) => r is Ok && r.unwrap() is Some && r.unwrap().unwrap()@ == code,
                },
            },
    {
        if self.aborted {
            return Err(KernelError::Fatal(Fault::Aborted));
        }
        let resolved: Option<u64> = match addr {
            Address::Id(x) => Some(*x),
            other => self.lookup_addr(other),
        };
        match resolved {
            None => Ok(None),
            Some(id) => match self.lookup_code(id) {
                None => Ok(None),
                Some(c) => Ok(Some(clone_cid(c))),
            },
        }
    }

    /// The payload of the next derived actor address: a digest of the
    /// top-level origin, its nonce, and the per-invocation sequence
    /// number, so reordered messages cannot collide across forks.
    pub open spec fn actor_addr_payload(origin: u64, nonce: u64, seq: u64) -> Seq<u8> {
        blake2b256_of(
            spec_u64_to_le_bytes(origin) + spec_u64_to_le_bytes(nonce) + spec_u64_to_le_bytes(
                seq,
            ),
        ).take(20)
    }

    /// Derives a deterministic, collision-resistant address for a new
    /// actor from the invocation's origin and nonce.
    fn new_actor_address_body(&mut self) -> (r: Result<Address, KernelError>)
        ensures
            old(self).aborted ==> r == Err::<Address, KernelError>(
                KernelError::Fatal(Fault::Aborted),
            ) && *final(self) == *old(self),
            !old(self).aborted && old(self).actor_seq == u64::MAX ==> r == Err::<
                Address,
                KernelError,
            >(KernelError::Syscall(ErrorNumber::LimitExceeded)) && *final(self) == *old(self),
            !old(self).aborted && old(self).actor_seq < u64::MAX ==> r is Ok && r.unwrap()@ == (
            AddressSpec::Key {
                protocol: 2,
                payload: Self::actor_addr_payload(
                    old(self).ctx.origin,
                    old(self).ctx.origin_nonce,
                    old(self).actor_seq,
                ),
            }) && *final(self) == (InvocationKernel {
                actor_seq: (old(self).actor_seq + 1) as u64,
                ..*old(self)
            }),
    {
        if self.aborted {
            return Err(KernelError::Fatal(Fault::Aborted));
        }
        if self.actor_seq == u64::MAX {
            return Err(KernelError::Syscall(ErrorNumber::LimitExceeded));
        }
        let mut buf: Vec<u8> = Vec::new();
        crate::codec::push_u64(&mut buf, self.ctx.origin);
        crate::codec::push_u64(&mut buf, self.ctx.origin_nonce);
        crate::codec::push_u64(&mut buf, self.actor_seq);
        let mut payload = blake2b256(&buf);
        payload.truncate(20);
        proof {
            assert(payload@ =~= blake2b256_of(buf@).take(20));
        }
        self.actor_seq = self.actor_seq + 1;
        Ok(Address::Key { protocol: 2, payload })
    }

    /// Creates an actor with the given code and address, with empty
    /// state. Only the designated actor-creation authority may call it.
    fn create_actor_body(&mut self, code_id: CidBuf, addr: &Address) -> (r: Result<
        (),
        KernelError,
    >)
        ensures
            old(self).aborted ==> r == Err::<(), KernelError>(KernelError::Fatal(Fault::Aborted))
                && *final(self) == *old(self),
            !old(self).aborted && !old(self).validated ==> r == Err::<(), KernelError>(
                KernelError::Fatal(Fault::ValidationPolicy),
            ) && *final(self) == (InvocationKernel { aborted: true, ..*old(self) }),
            !old(self).aborted && old(self).validated && old(self).ctx.caller != old(self).ctx.init_actor_id ==> r == Err::<(), KernelError>(
                KernelError::Syscall(ErrorNumber::Forbidden),
            ) && *final(self) == *old(self),
            !old(self).aborted && old(self).validated && old(self).ctx.caller == old(self).ctx.init_actor_id ==> {
                if old(self).next_actor_id == u64::MAX {
                    r == Err::<(), KernelError>(KernelError::Syscall(ErrorNumber::LimitExceeded))
                        && *final(self) == *old(self)
                } else if Self::lookup_addr_spec(old(self).addr_bindings@, addr@) is Some {
                    r == Err::<(), KernelError>(KernelError::Syscall(ErrorNumber::IllegalArgument))
                        && *final(self) == *old(self)
                } else {
                    &&& r is Ok
                    &&& *final(self) == (InvocationKernel {
                        addr_bindings: final(self).addr_bindings,
                        code_bindings: final(self).code_bindings,
                        next_actor_id: (old(self).next_actor_id + 1) as u64,
                        ..*old(self)
                    })
                    &&& final(self).addr_bindings@.len() == old(self).addr_bindings@.len() + 1
                    &&& forall|i: int|
                        0 <= i < old(self).addr_bindings@.len() ==> final(self).addr_bindings@[i]
                            == old(self).addr_bindings@[i]
                    &&& final(self).addr_bindings@.last().addr@ == addr@
                    &&& final(self).addr_bindings@.last().id == old(self).next_actor_id
                    &&& final(self).code_bindings@.len() == old(self).code_bindings@.len() + 1
                    &&& forall|i: int|
                        0 <= i < old(self).code_bindings@.len() ==> final(self).code_bindings@[i]
                            == old(self).code_bindings@[i]
                    &&& final(self).code_bindings@.last().code@ == code_id@
                    &&& final(self).code_bindings@.last().id == old(self).next_actor_id
                }
            },
    {
        if self.aborted {
            return Err(KernelError::Fatal(Fault::Aborted));
        }
        if !self.validated {
            self.aborted = true;
            return Err(KernelError::Fatal(Fault::ValidationPolicy));
        }
        if self.ctx.caller != self.ctx.init_actor_id {
            return Err(KernelError::Syscall(ErrorNumber::Forbidden));
        }
        if self.next_actor_id == u64::MAX {
            return Err(KernelError::Syscall(ErrorNumber::LimitExceeded));
        }
        match self.lookup_addr(addr) {
            Some(_) => Err(KernelError::Syscall(ErrorNumber::IllegalArgument)),
            None => {
                let id = self.next_actor_id;
                self.next_actor_id = self.next_actor_id + 1;
                self.addr_bindings.push(
                    AddrBinding { addr: crate::types::clone_address(addr), id },
                );
                self.code_bindings.push(CodeBinding { id, code: code_id });
                Ok(())
            },
        }
    }

    // -----------------------------------------------------------------
    // Send ops
    // -----------------------------------------------------------------
    /// Body of the nested-send settlement; see `SendOps`.
    fn send_body(&mut self, message: &Message, outcome: SendOutcome) -> (r: Result<
        SendResult,
        KernelError,
    >)
        ensures
            old(self).aborted ==> r == Err::<SendResult, KernelError>(
                KernelError::Fatal(Fault::Aborted),
            ) && *final(self) == *old(self),
            !old(self).aborted && !old(self).validated ==> r == Err::<SendResult, KernelError>(
                KernelError::Fatal(Fault::ValidationPolicy),
            ) && *final(self) == (InvocationKernel { aborted: true, ..*old(self) }),
            !old(self).aborted && old(self).validated ==> {
                if old(self).call_depth >= old(self).ctx.max_call_depth {
                    r == Err::<SendResult, KernelError>(
                        KernelError::Fatal(Fault::CallDepthExceeded),
                    ) && *final(self) == (InvocationKernel { aborted: true, ..*old(self) })
                } else if message.value > old(self).balance {
                    r == Err::<SendResult, KernelError>(
                        KernelError::Syscall(ErrorNumber::InsufficientFunds),
                    ) && *final(self) == *old(self)
                } else if outcome.gas_used > old(self).gas_available {
                    r == Err::<SendResult, KernelError>(KernelError::Fatal(Fault::OutOfGas))
                        && *final(self) == (InvocationKernel {
                        gas_available: 0,
                        aborted: true,
                        ..*old(self)
                    })
                } else {
                    match outcome.kind {
                        CalleeOutcome::Completed(p) => r == Ok::<SendResult, KernelError>(
                            SendResult::Completed,
                        ) && *final(self) == (InvocationKernel {
                            gas_available: (old(self).gas_available - outcome.gas_used) as u64,
                            balance: (old(self).balance - message.value) as u128,
                            return_stack: final(self).return_stack,
                            ..*old(self)
                        }) && final(self).return_stack@ == old(self).return_stack@.push(p),
                        CalleeOutcome::Failed(e) => r == Ok::<SendResult, KernelError>(
                            SendResult::CalleeError(e),
                        ) && *final(self) == (InvocationKernel {
                            gas_available: (old(self).gas_available - outcome.gas_used) as u64,
                            ..*old(self)
                        }),
                        CalleeOutcome::Faulted(f) => r == Err::<SendResult, KernelError>(
                            KernelError::Fatal(f),
                        ) && *final(self) == (InvocationKernel {
                            gas_available: (old(self).gas_available - outcome.gas_used) as u64,
                            aborted: true,
                            ..*old(self)
                        }),
                    }
                }
            },
    {
        if self.aborted {
            return Err(KernelError::Fatal(Fault::Aborted));
        }
        if !self.validated {
            self.aborted = true;
            return Err(KernelError::Fatal(Fault::ValidationPolicy));
        }
        if self.call_depth >= self.ctx.max_call_depth {
            self.aborted = true;
            return Err(KernelError::Fatal(Fault::CallDepthExceeded));
        }
        if message.value > self.balance {
            return Err(KernelError::Syscall(ErrorNumber::InsufficientFunds));
        }
        if outcome.gas_used > self.gas_available {
            self.gas_available = 0;
            self.aborted = true;
            return Err(KernelError::Fatal(Fault::OutOfGas));
        }
        self.gas_available = self.gas_available - outcome.gas_used;
        match outcome.kind {
            CalleeOutcome::Completed(p) => {
                self.balance = self.balance - message.value;
                self.return_stack.push(p);
                Ok(SendResult::Completed)
            },
            CalleeOutcome::Failed(e) => Ok(SendResult::CalleeError(e)),
            CalleeOutcome::Faulted(f) => {
                self.aborted = true;
                Err(KernelError::Fatal(f))
            },
        }
    }

    // -----------------------------------------------------------------
    // Crypto ops
    // -----------------------------------------------------------------
    /// Hashes `data` with BLAKE2b-256.
    fn hash_blake2b_body(&self, data: &Vec<u8>) -> (r: Result<Vec<u8>, KernelError>)
        ensures
            self.aborted ==> r == Err::<Vec<u8>, KernelError>(KernelError::Fatal(Fault::Aborted)),
            !self.aborted ==> r is Ok && r.unwrap()@ == blake2b256_of(data@)
                && r.unwrap()@.len() == 32,
    {
        if self.aborted {
            return Err(KernelError::Fatal(Fault::Aborted));
        }
        Ok(blake2b256(data))
    }

    /// Decides whether two headers (and optional corroboration) prove a
    /// consensus fault, against the headers known to the current chain.
    /// "No fault" is a successful result, not an error.
    fn verify_consensus_fault_body(
        &self,
        h1: &HeaderRec,
        h2: &HeaderRec,
        extra: Option<&HeaderRec>,
    ) -> (r: Result<Option<ConsensusFault>, KernelError>)
        ensures
            self.aborted ==> r == Err::<Option<ConsensusFault>, KernelError>(
                KernelError::Fatal(Fault::Aborted),
            ),
            !self.aborted ==> r == Ok::<Option<ConsensusFault>, KernelError>(
                fault_spec(
                    *h1,
                    *h2,
                    match extra {
                        Some(e) => Some(*e),
                        None => None,
                    },
                    self.chain_headers@,
                    self.ctx.earliest_fault_epoch,
                ),
            ),
    {
        if self.aborted {
            return Err(KernelError::Fatal(Fault::Aborted));
        }
        Ok(
            detect_consensus_fault(
                h1,
                h2,
                extra,
                &self.chain_headers,
                self.ctx.earliest_fault_epoch,
            ),
        )
    }

    // -----------------------------------------------------------------
    // Randomness ops
    // -----------------------------------------------------------------
    /// The bytes a randomness derivation hashes: the domain-separation
    /// tag, the chain or beacon state, the target epoch, and the
    /// caller's entropy.
    pub open spec fn rand_payload(tag: i64, seed: Seq<u8>, epoch: i64, entropy: Seq<u8>) -> Seq<
        u8,
    > {
        spec_u64_to_le_bytes(tag as u64) + seed + spec_u64_to_le_bytes(epoch as u64) + entropy
    }

    /// Draws deterministic randomness from the ticket chain: available
    /// only for historical epochs whose ticket data is held, biasable
    /// because fork-dependent. Fails, never defaults, when the epoch's
    /// data is unavailable.
    fn get_randomness_from_tickets_body(
        &self,
        personalization: i64,
        rand_epoch: i64,
        entropy: &Vec<u8>,
    ) -> (r: Result<Vec<u8>, KernelError>)
        ensures
            self.aborted ==> r == Err::<Vec<u8>, KernelError>(KernelError::Fatal(Fault::Aborted)),
            !self.aborted && (rand_epoch > self.ctx.curr_epoch || rand_epoch
                < self.ctx.tickets_from) ==> r == Err::<Vec<u8>, KernelError>(
                KernelError::Syscall(ErrorNumber::IllegalArgument),
            ),
            !self.aborted && self.ctx.tickets_from <= rand_epoch <= self.ctx.curr_epoch ==> r
                is Ok && r.unwrap()@ == blake2b256_of(
                Self::rand_payload(personalization, self.chain_seed@, rand_epoch, entropy@),
            ) && r.unwrap()@.len() == 32,
    {
        if self.aborted {
            return Err(KernelError::Fatal(Fault::Aborted));
        }
        if rand_epoch > self.ctx.curr_epoch || rand_epoch < self.ctx.tickets_from {
            return Err(KernelError::Syscall(ErrorNumber::IllegalArgument));
        }
        let mut buf: Vec<u8> = Vec::new();
        crate::codec::push_u64(&mut buf, personalization as u64);
        crate::codec::push_bytes(&mut buf, &self.chain_seed);
        crate::codec::push_u64(&mut buf, rand_epoch as u64);
        crate::codec::push_bytes(&mut buf, entropy);
        Ok(blake2b256(&buf))
    }

    /// Draws deterministic randomness from the beacon: fork-independent
    /// and unbiasable. Fails, never defaults, when the epoch's beacon
    /// data is unavailable.
    fn get_randomness_from_beacon_body(
        &self,
        personalization: i64,
        rand_epoch: i64,
        entropy: &Vec<u8>,
    ) -> (r: Result<Vec<u8>, KernelError>)
        ensures
            self.aborted ==> r == Err::<Vec<u8>, KernelError>(KernelError::Fatal(Fault::Aborted)),
            !self.aborted && (rand_epoch > self.ctx.curr_epoch || rand_epoch
                < self.ctx.beacon_from) ==> r == Err::<Vec<u8>, KernelError>(
                KernelError::Syscall(ErrorNumber::IllegalArgument),
            ),
            !self.aborted && self.ctx.beacon_from <= rand_epoch <= self.ctx.curr_epoch ==> r is Ok
                && r.unwrap()@ == blake2b256_of(
                Self::rand_payload(personalization, self.beacon_seed@, rand_epoch, entropy@),
            ) && r.unwrap()@.len() == 32,
    {
        if self.aborted {
            return Err(KernelError::Fatal(Fault::Aborted));
        }
        if rand_epoch > self.ctx.curr_epoch || rand_epoch < self.ctx.beacon_from {
            return Err(KernelError::Syscall(ErrorNumber::IllegalArgument));
        }
        let mut buf: Vec<u8> = Vec::new();
        crate::codec::push_u64(&mut buf, personalization as u64);
        crate::codec::push_bytes(&mut buf, &self.beacon_seed);
        crate::codec::push_u64(&mut buf, rand_epoch as u64);
        crate::codec::push_bytes(&mut buf, entropy);
        Ok(blake2b256(&buf))
    }

    // -----------------------------------------------------------------
    // Event ops
    // -----------------------------------------------------------------
    /// The gas an event costs: a flat part and a per-byte part.
    pub open spec fn event_cost(ctx: InvocationCtx, e: crate::types::EventSpec) -> int {
        ctx.event_base_cost + (e.key.len() + e.value.len()) * ctx.event_byte_cost
    }

    /// Records a validated event. Charges gas before the work; an
    /// unpayable event aborts the invocation with out-of-gas.
    pub fn emit_event(&mut self, evt: EventRecord) -> (r: Result<(), KernelError>)
        ensures
            old(self).aborted ==> r == Err::<(), KernelError>(KernelError::Fatal(Fault::Aborted))
                && *final(self) == *old(self),
            !old(self).aborted && !old(self).validated ==> r == Err::<(), KernelError>(
                KernelError::Fatal(Fault::ValidationPolicy),
            ) && *final(self) == (InvocationKernel { aborted: true, ..*old(self) }),
            !old(self).aborted && old(self).validated && evt@.flags
                > crate::types::EVENT_FLAG_MASK ==> r == Err::<(), KernelError>(
                KernelError::Syscall(ErrorNumber::IllegalArgument),
            ) && *final(self) == *old(self),
            !old(self).aborted && old(self).validated && evt@.flags
                <= crate::types::EVENT_FLAG_MASK ==> {
                if Self::event_cost(old(self).ctx, evt@) > old(self).gas_available {
                    r == Err::<(), KernelError>(KernelError::Fatal(Fault::OutOfGas)) && *final(self) == (InvocationKernel { aborted: true, ..*old(self) })
                } else {
                    &&& r is Ok
                    &&& *final(self) == (InvocationKernel {
                        gas_available: (old(self).gas_available - Self::event_cost(
                            old(self).ctx,
                            evt@,
                        )) as u64,
                        events: final(self).events,
                        ..*old(self)
                    })
                    &&& final(self).events@ == old(self).events@.push(evt)
                }
            },
    {
        if self.aborted {
            return Err(KernelError::Fatal(Fault::Aborted));
        }
        if !self.validated {
            self.aborted = true;
            return Err(KernelError::Fatal(Fault::ValidationPolicy));
        }
        if evt.flags > crate::types::EVENT_FLAG_MASK {
            return Err(KernelError::Syscall(ErrorNumber::IllegalArgument));
        }
        let total_len: u128 = evt.key.len() as u128 + evt.value.len() as u128;
        let byte_cost: u128 = self.ctx.event_byte_cost as u128;
        if byte_cost > 0 && total_len > u64::MAX as u128 {
            proof {
                assert(Self::event_cost(self.ctx, evt@) > self.gas_available) by (nonlinear_arith)
                    requires
                        Self::event_cost(self.ctx, evt@) == self.ctx.event_base_cost + (
                        evt@.key.len() + evt@.value.len()) * self.ctx.event_byte_cost,
                        evt@.key.len() + evt@.value.len() > u64::MAX,
                        self.ctx.event_byte_cost >= 1,
                        self.gas_available <= u64::MAX,
                ;
            }
            self.aborted = true;
            return Err(KernelError::Fatal(Fault::OutOfGas));
        }
        proof {
            assert((u64::MAX as u128) * (u64::MAX as u128) + (u64::MAX as u128) < u128::MAX)
                by (nonlinear_arith);
            if byte_cost == 0 {
                assert(total_len * byte_cost == 0) by (nonlinear_arith)
                    requires
                        byte_cost == 0,
                ;
            } else {
                assert(total_len * byte_cost <= (u64::MAX as u128) * (u64::MAX as u128))
                    by (nonlinear_arith)
                    requires
                        0 <= total_len <= u64::MAX as u128,
                        0 <= byte_cost <= u64::MAX as u128,
                ;
            }
        }
        let cost: u128 = self.ctx.event_base_cost as u128 + total_len * byte_cost;
        if cost > self.gas_available as u128 {
            self.aborted = true;
            return Err(KernelError::Fatal(Fault::OutOfGas));
        }
        self.gas_available = self.gas_available - cost as u64;
        self.events.push(evt);
        Ok(())
    }

}


/// Gas accounting: the metered-fuel capability of one invocation frame.
pub trait GasOps {
    /// The invocation frame the operation acts on.
    spec fn gas_view(&self) -> InvocationKernel;

    /// Deducts `compute` units from the gas counter; `name` is
    /// diagnostic only and never affects semantics. If the counter
    /// would go negative the invocation aborts with an out-of-gas
    /// fault, the charge is not applied, and no later operation of
    /// this frame performs work.
    fn charge_gas(&mut self, name: &str, compute: i64) -> (r: Result<(), KernelError>)
        ensures
            old(self).gas_view().aborted ==> r == Err::<(), KernelError>(
                KernelError::Fatal(Fault::Aborted),
            ) && final(self).gas_view() == old(self).gas_view(),
            !old(self).gas_view().aborted && compute < 0 ==> r == Err::<(), KernelError>(
                KernelError::Syscall(ErrorNumber::IllegalArgument),
            ) && final(self).gas_view() == old(self).gas_view(),
            !old(self).gas_view().aborted && compute >= 0 ==> match charge_outcome(
                old(self).gas_view().gas_available,
                compute as u64,
            ) {
                Some(g) => r is Ok && final(self).gas_view() == (InvocationKernel {
                    gas_available: g,
                    ..old(self).gas_view()
                }),
                None => r == Err::<(), KernelError>(KernelError::Fatal(Fault::OutOfGas)) && final(self).gas_view() == (InvocationKernel { aborted: true, ..old(self).gas_view() }),
            },
    ;
}

impl GasOps for InvocationKernel {
    open spec fn gas_view(&self) -> InvocationKernel {
        *self
    }

    fn charge_gas(&mut self, name: &str, compute: i64) -> (r: Result<(), KernelError>) {
        if self.aborted {
            return Err(KernelError::Fatal(Fault::Aborted));
        }
        if compute < 0 {
            return Err(KernelError::Syscall(ErrorNumber::IllegalArgument));
        }
        let cost = compute as u64;
        if cost > self.gas_available {
            self.aborted = true;
            return Err(KernelError::Fatal(Fault::OutOfGas));
        }
        self.gas_available = self.gas_available - cost;
        Ok(())
    }
}



/// Content-addressed block I/O: the in-invocation block table and the
/// reachable set.
pub trait BlockOps {
    /// The invocation frame the operations act on.
    spec fn block_view(&self) -> InvocationKernel;

    /// Opens a block already reachable in state into a fresh handle;
    /// fails with `NotFound` exactly when the identifier is outside
    /// the reachable set, and succeeds whenever it is reachable and
    /// the handle table has room.
    fn block_open(&mut self, c: &CidBuf) -> (r: Result<u32, KernelError>)
        requires
            old(self).block_view().wf(),
        ensures
            final(self).block_view().wf(),
            final(self).block_view() == (InvocationKernel {
                blocks: final(self).block_view().blocks,
                ..old(self).block_view()
            }),
            old(self).block_view().aborted ==> r == Err::<u32, KernelError>(
                KernelError::Fatal(Fault::Aborted),
            ) && final(self).block_view() == old(self).block_view(),
            !old(self).block_view().aborted ==> {
                &&& final(self).block_view().blocks.reachable == old(self).block_view().blocks.reachable
                &&& final(self).block_view().blocks.store == old(self).block_view().blocks.store
                &&& (old(self).block_view().blocks.reachable_contains(c@) && old(
                    self,
                ).block_view().blocks.blocks@.len() < u32::MAX ==> r is Ok)
                &&& (r matches Err(e) ==> final(self).block_view().blocks == old(self).block_view().blocks && (e == KernelError::Syscall(ErrorNumber::NotFound) <==> !old(self).block_view().blocks.reachable_contains(c@)))
                &&& (r matches Ok(h) ==> {
                    &&& old(self).block_view().blocks.reachable_contains(c@)
                    &&& h == old(self).block_view().blocks.blocks@.len() + 1
                    &&& final(self).block_view().blocks.valid_handle(h)
                    &&& final(self).block_view().blocks.handle_codec(h) == old(self).block_view().blocks.store@[old(self).block_view().blocks.store_at(c@)].codec
                    &&& final(self).block_view().blocks.handle_data(h) == old(self).block_view().blocks.store@[old(self).block_view().blocks.store_at(c@)].data@
                })
            },
    ;

    /// Creates a block from guest bytes, subject to the size, codec
    /// and link rules; allocates a handle without minting an
    /// identifier.
    fn block_create(&mut self, codec: u64, data: &Vec<u8>) -> (r: Result<u32, KernelError>)
        requires
            old(self).block_view().wf(),
        ensures
            final(self).block_view().wf(),
            final(self).block_view() == (InvocationKernel {
                blocks: final(self).block_view().blocks,
                ..old(self).block_view()
            }),
            old(self).block_view().aborted ==> r == Err::<u32, KernelError>(
                KernelError::Fatal(Fault::Aborted),
            ) && final(self).block_view() == old(self).block_view(),
            !old(self).block_view().aborted ==> {
                &&& final(self).block_view().blocks.reachable == old(self).block_view().blocks.reachable
                &&& final(self).block_view().blocks.store == old(self).block_view().blocks.store
                &&& match old(self).block_view().blocks.create_check(codec, data@) {
                    Some(e) => r == Err::<u32, KernelError>(KernelError::Syscall(e)) && final(self).block_view() == old(self).block_view(),
                    None => {
                        &&& r == Ok::<u32, KernelError>(
                            (old(self).block_view().blocks.blocks@.len() + 1) as u32,
                        )
                        &&& final(self).block_view().blocks.handle_codec(
                            (old(self).block_view().blocks.blocks@.len() + 1) as u32,
                        ) == codec
                        &&& final(self).block_view().blocks.handle_data(
                            (old(self).block_view().blocks.blocks@.len() + 1) as u32,
                        ) == data@
                    },
                }
            },
    ;

    /// Mints a content identifier for a block and adds it to the
    /// reachable set — the only way the reachable set grows.
    fn block_link(&mut self, id: u32, hash_fun: u64, hash_len: u32) -> (r: Result<
        CidBuf,
        KernelError,
    >)
        requires
            old(self).block_view().wf(),
        ensures
            final(self).block_view().wf(),
            final(self).block_view() == (InvocationKernel {
                blocks: final(self).block_view().blocks,
                ..old(self).block_view()
            }),
            old(self).block_view().aborted ==> r == Err::<CidBuf, KernelError>(
                KernelError::Fatal(Fault::Aborted),
            ) && final(self).block_view() == old(self).block_view(),
            !old(self).block_view().aborted ==> {
                &&& final(self).block_view().blocks.blocks == old(self).block_view().blocks.blocks
                &&& (!old(self).block_view().blocks.valid_handle(id) ==> r == Err::<
                    CidBuf,
                    KernelError,
                >(KernelError::Syscall(ErrorNumber::InvalidHandle)) && final(self).block_view()
                    == old(self).block_view())
                &&& (old(self).block_view().blocks.valid_handle(id)
                    && !crate::hashing::multihash_supported(hash_fun, hash_len) ==> r == Err::<
                    CidBuf,
                    KernelError,
                >(KernelError::Syscall(ErrorNumber::InvalidMultihashSpec)) && final(self).block_view() == old(self).block_view())
                &&& (old(self).block_view().blocks.valid_handle(id)
                    && crate::hashing::multihash_supported(hash_fun, hash_len) ==> {
                    &&& r is Ok
                    &&& r.unwrap()@ == BlockRegistry::link_cid(
                        old(self).block_view().blocks.handle_codec(id),
                        old(self).block_view().blocks.handle_data(id),
                        hash_fun,
                    )
                    &&& final(self).block_view().blocks.reachable_contains(r.unwrap()@)
                    &&& forall|c: CidSpec|
                        #![auto]
                        final(self).block_view().blocks.reachable_contains(c) <==> old(self).block_view().blocks.reachable_contains(c) || c == r.unwrap()@
                })
            },
    ;

    /// Reads from a block into `buf`; a read past the end is a short
    /// copy, never an error.
    fn block_read(&self, id: u32, offset: u32, buf: &mut Vec<u8>) -> (r: Result<u32, KernelError>)
        requires
            self.block_view().wf(),
        ensures
            self.block_view().aborted ==> r == Err::<u32, KernelError>(
                KernelError::Fatal(Fault::Aborted),
            ) && *final(buf) == *old(buf),
            !self.block_view().aborted && !self.block_view().blocks.valid_handle(id) ==> r
                == Err::<u32, KernelError>(KernelError::Syscall(ErrorNumber::InvalidHandle))
                && *final(buf) == *old(buf),
            !self.block_view().aborted && self.block_view().blocks.valid_handle(id) ==> {
                let data = self.block_view().blocks.handle_data(id);
                let n = if offset >= data.len() {
                    0
                } else if data.len() - offset < old(buf)@.len() {
                    data.len() - offset
                } else {
                    old(buf)@.len() as int
                };
                &&& r == Ok::<u32, KernelError>(n as u32)
                &&& final(buf)@.len() == old(buf)@.len()
                &&& forall|i: int| 0 <= i < n ==> final(buf)@[i] == data[offset + i]
                &&& forall|i: int| n <= i < old(buf)@.len() ==> final(buf)@[i] == old(buf)@[i]
            },
    ;

    /// Reports a block's codec and size.
    fn block_stat(&self, id: u32) -> (r: Result<crate::types::BlockStat, KernelError>)
        ensures
            self.block_view().aborted ==> r == Err::<crate::types::BlockStat, KernelError>(
                KernelError::Fatal(Fault::Aborted),
            ),
            !self.block_view().aborted && !self.block_view().blocks.valid_handle(id) ==> r
                == Err::<crate::types::BlockStat, KernelError>(
                KernelError::Syscall(ErrorNumber::InvalidHandle),
            ),
            !self.block_view().aborted && self.block_view().blocks.valid_handle(id) ==> r == Ok::<
                crate::types::BlockStat,
                KernelError,
            >(
                crate::types::BlockStat {
                    codec: self.block_view().blocks.handle_codec(id),
                    size: self.block_view().blocks.handle_data(id).len() as u64,
                },
            ),
    ;
}

impl BlockOps for InvocationKernel {
    open spec fn block_view(&self) -> InvocationKernel {
        *self
    }

    fn block_open(&mut self, c: &CidBuf) -> (r: Result<u32, KernelError>) {
        self.block_open_body(c)
    }

    fn block_create(&mut self, codec: u64, data: &Vec<u8>) -> (r: Result<u32, KernelError>) {
        self.block_create_body(codec, data)
    }

    fn block_link(&mut self, id: u32, hash_fun: u64, hash_len: u32) -> (r: Result<
        CidBuf,
        KernelError,
    >) {
        self.block_link_body(id, hash_fun, hash_len)
    }

    fn block_read(&self, id: u32, offset: u32, buf: &mut Vec<u8>) -> (r: Result<
        u32,
        KernelError,
    >) {
        self.block_read_body(id, offset, buf)
    }

    fn block_stat(&self, id: u32) -> (r: Result<crate::types::BlockStat, KernelError>) {
        self.block_stat_body(id)
    }
}


/// Enquiries about and creation of other actors.
pub trait ActorOps {
    /// The invocation frame the operations act on.
    spec fn actor_view(&self) -> InvocationKernel;

    /// Resolves an address of any protocol to an ID address through
    /// the directory; an ID address resolves to itself. Returns
    /// `None`, not an error, when the address is unknown.
    fn resolve_address(&self, address: &Address) -> (r: Result<Option<Address>, KernelError>)
        ensures
            self.actor_view().aborted ==> r == Err::<Option<Address>, KernelError>(
                KernelError::Fatal(Fault::Aborted),
            ),
            !self.actor_view().aborted ==> match self.actor_view().resolve_spec(address@) {
                Some(id) => r == Ok::<Option<Address>, KernelError>(Some(Address::Id(id))),
                None => r == Ok::<Option<Address>, KernelError>(None),
            },
    ;

    /// Looks up the code identifier of the actor at `addr`; `None`,
    /// not an error, for nonexistent actors.
    fn get_actor_code_cid(&self, addr: &Address) -> (r: Result<Option<CidBuf>, KernelError>)
        ensures
            self.actor_view().aborted ==> r == Err::<Option<CidBuf>, KernelError>(
                KernelError::Fatal(Fault::Aborted),
            ),
            !self.actor_view().aborted ==> match self.actor_view().resolve_spec(addr@) {
                None => r == Ok::<Option<CidBuf>, KernelError>(None),
                Some(id) => match InvocationKernel::lookup_code_spec(
                    self.actor_view().code_bindings@,
                    id,
                ) {
                    None => r == Ok::<Option<CidBuf>, KernelError>(None),
                    Some(code) => r is Ok && r.unwrap() is Some && r.unwrap().unwrap()@ == code,
                },
            },
    ;

    /// Derives a deterministic, collision-resistant address for a new
    /// actor from the invocation's origin and nonce, so that
    /// reordered messages cannot collide across forks.
    fn new_actor_address(&mut self) -> (r: Result<Address, KernelError>)
        ensures
            old(self).actor_view().aborted ==> r == Err::<Address, KernelError>(
                KernelError::Fatal(Fault::Aborted),
            ) && final(self).actor_view() == old(self).actor_view(),
            !old(self).actor_view().aborted && old(self).actor_view().actor_seq == u64::MAX ==> r
                == Err::<Address, KernelError>(KernelError::Syscall(ErrorNumber::LimitExceeded))
                && final(self).actor_view() == old(self).actor_view(),
            !old(self).actor_view().aborted && old(self).actor_view().actor_seq < u64::MAX ==> r
                is Ok && r.unwrap()@ == (AddressSpec::Key {
                protocol: 2,
                payload: InvocationKernel::actor_addr_payload(
                    old(self).actor_view().ctx.origin,
                    old(self).actor_view().ctx.origin_nonce,
                    old(self).actor_view().actor_seq,
                ),
            }) && final(self).actor_view() == (InvocationKernel {
                actor_seq: (old(self).actor_view().actor_seq + 1) as u64,
                ..old(self).actor_view()
            }),
    ;

    /// Creates an actor with the given code and address, with empty
    /// state. Only the designated actor-creation authority may call
    /// it.
    fn create_actor(&mut self, code_id: CidBuf, addr: &Address) -> (r: Result<(), KernelError>)
        ensures
            old(self).actor_view().aborted ==> r == Err::<(), KernelError>(
                KernelError::Fatal(Fault::Aborted),
            ) && final(self).actor_view() == old(self).actor_view(),
            !old(self).actor_view().aborted && !old(self).actor_view().validated ==> r == Err::<
                (),
                KernelError,
            >(KernelError::Fatal(Fault::ValidationPolicy)) && final(self).actor_view() == (
            InvocationKernel { aborted: true, ..old(self).actor_view() }),
            !old(self).actor_view().aborted && old(self).actor_view().validated && old(self).actor_view().ctx.caller != old(self).actor_view().ctx.init_actor_id ==> r == Err::<
                (),
                KernelError,
            >(KernelError::Syscall(ErrorNumber::Forbidden)) && final(self).actor_view() == old(self).actor_view(),
            !old(self).actor_view().aborted && old(self).actor_view().validated && old(self).actor_view().ctx.caller == old(self).actor_view().ctx.init_actor_id ==> {
                if old(self).actor_view().next_actor_id == u64::MAX {
                    r == Err::<(), KernelError>(KernelError::Syscall(ErrorNumber::LimitExceeded))
                        && final(self).actor_view() == old(self).actor_view()
                } else if InvocationKernel::lookup_addr_spec(
                    old(self).actor_view().addr_bindings@,
                    addr@,
                ) is Some {
                    r == Err::<(), KernelError>(KernelError::Syscall(ErrorNumber::IllegalArgument))
                        && final(self).actor_view() == old(self).actor_view()
                } else {
                    &&& r is Ok
                    &&& final(self).actor_view() == (InvocationKernel {
                        addr_bindings: final(self).actor_view().addr_bindings,
                        code_bindings: final(self).actor_view().code_bindings,
                        next_actor_id: (old(self).actor_view().next_actor_id + 1) as u64,
                        ..old(self).actor_view()
                    })
                    &&& final(self).actor_view().addr_bindings@.len() == old(self).actor_view().addr_bindings@.len() + 1
                    &&& forall|i: int|
                        0 <= i < old(self).actor_view().addr_bindings@.len() ==> final(self).actor_view().addr_bindings@[i] == old(self).actor_view().addr_bindings@[i]
                    &&& final(self).actor_view().addr_bindings@.last().addr@ == addr@
                    &&& final(self).actor_view().addr_bindings@.last().id == old(self).actor_view().next_actor_id
                    &&& final(self).actor_view().code_bindings@.len() == old(self).actor_view().code_bindings@.len() + 1
                    &&& forall|i: int|
                        0 <= i < old(self).actor_view().code_bindings@.len() ==> final(self).actor_view().code_bindings@[i] == old(self).actor_view().code_bindings@[i]
                    &&& final(self).actor_view().code_bindings@.last().code@ == code_id@
                    &&& final(self).actor_view().code_bindings@.last().id == old(self).actor_view().next_actor_id
                }
            },
    ;
}

impl ActorOps for InvocationKernel {
    open spec fn actor_view(&self) -> InvocationKernel {
        *self
    }

    fn resolve_address(&self, address: &Address) -> (r: Result<Option<Address>, KernelError>) {
        self.resolve_address_body(address)
    }

    fn get_actor_code_cid(&self, addr: &Address) -> (r: Result<Option<CidBuf>, KernelError>) {
        self.get_actor_code_cid_body(addr)
    }

    fn new_actor_address(&mut self) -> (r: Result<Address, KernelError>) {
        self.new_actor_address_body()
    }

    fn create_actor(&mut self, code_id: CidBuf, addr: &Address) -> (r: Result<(), KernelError>) {
        self.create_actor_body(code_id, addr)
    }
}

/// The cryptographic primitives the kernel computes itself: domain
/// hashing and consensus-fault detection. Opaque proof verification is
/// the proof-system collaborator's, outside this interface.
pub trait CryptoOps {
    /// The invocation frame the operations act on.
    spec fn crypto_view(&self) -> InvocationKernel;

    /// Hashes `data` with BLAKE2b-256.
    fn hash_blake2b(&self, data: &Vec<u8>) -> (r: Result<Vec<u8>, KernelError>)
        ensures
            self.crypto_view().aborted ==> r == Err::<Vec<u8>, KernelError>(
                KernelError::Fatal(Fault::Aborted),
            ),
            !self.crypto_view().aborted ==> r is Ok && r.unwrap()@ == blake2b256_of(data@)
                && r.unwrap()@.len() == 32,
    ;

    /// Decides whether two headers (and optional corroboration) prove
    /// a consensus fault, against the headers known to the current
    /// chain. "No fault" is a successful result, not an error.
    fn verify_consensus_fault(
        &self,
        h1: &HeaderRec,
        h2: &HeaderRec,
        extra: Option<&HeaderRec>,
    ) -> (r: Result<Option<ConsensusFault>, KernelError>)
        ensures
            self.crypto_view().aborted ==> r == Err::<Option<ConsensusFault>, KernelError>(
                KernelError::Fatal(Fault::Aborted),
            ),
            !self.crypto_view().aborted ==> r == Ok::<Option<ConsensusFault>, KernelError>(
                fault_spec(
                    *h1,
                    *h2,
                    match extra {
                        Some(e) => Some(*e),
                        None => None,
                    },
                    self.crypto_view().chain_headers@,
                    self.crypto_view().ctx.earliest_fault_epoch,
                ),
            ),
    ;
}

impl CryptoOps for InvocationKernel {
    open spec fn crypto_view(&self) -> InvocationKernel {
        *self
    }

    fn hash_blake2b(&self, data: &Vec<u8>) -> (r: Result<Vec<u8>, KernelError>) {
        self.hash_blake2b_body(data)
    }

    fn verify_consensus_fault(
        &self,
        h1: &HeaderRec,
        h2: &HeaderRec,
        extra: Option<&HeaderRec>,
    ) -> (r: Result<Option<ConsensusFault>, KernelError>) {
        self.verify_consensus_fault_body(h1, h2, extra)
    }
}

/// Deterministic randomness derivation from the ticket chain and the
/// beacon.
pub trait RandomnessOps {
    /// The invocation frame the operations act on.
    spec fn rand_view(&self) -> InvocationKernel;

    /// Draws deterministic randomness from the ticket chain: available
    /// only for historical epochs whose ticket data is held, biasable
    /// because fork-dependent. Fails, never defaults, when the
    /// epoch's data is unavailable.
    fn get_randomness_from_tickets(
        &self,
        personalization: i64,
        rand_epoch: i64,
        entropy: &Vec<u8>,
    ) -> (r: Result<Vec<u8>, KernelError>)
        ensures
            self.rand_view().aborted ==> r == Err::<Vec<u8>, KernelError>(
                KernelError::Fatal(Fault::Aborted),
            ),
            !self.rand_view().aborted && (rand_epoch > self.rand_view().ctx.curr_epoch
                || rand_epoch < self.rand_view().ctx.tickets_from) ==> r == Err::<
                Vec<u8>,
                KernelError,
            >(KernelError::Syscall(ErrorNumber::IllegalArgument)),
            !self.rand_view().aborted && self.rand_view().ctx.tickets_from <= rand_epoch
                <= self.rand_view().ctx.curr_epoch ==> r is Ok && r.unwrap()@ == blake2b256_of(
                InvocationKernel::rand_payload(
                    personalization,
                    self.rand_view().chain_seed@,
                    rand_epoch,
                    entropy@,
                ),
            ) && r.unwrap()@.len() == 32,
    ;

    /// Draws deterministic randomness from the beacon:
    /// fork-independent and unbiasable. Fails, never defaults, when
    /// the epoch's beacon data is unavailable.
    fn get_randomness_from_beacon(
        &self,
        personalization: i64,
        rand_epoch: i64,
        entropy: &Vec<u8>,
    ) -> (r: Result<Vec<u8>, KernelError>)
        ensures
            self.rand_view().aborted ==> r == Err::<Vec<u8>, KernelError>(
                KernelError::Fatal(Fault::Aborted),
            ),
            !self.rand_view().aborted && (rand_epoch > self.rand_view().ctx.curr_epoch
                || rand_epoch < self.rand_view().ctx.beacon_from) ==> r == Err::<
                Vec<u8>,
                KernelError,
            >(KernelError::Syscall(ErrorNumber::IllegalArgument)),
            !self.rand_view().aborted && self.rand_view().ctx.beacon_from <= rand_epoch
                <= self.rand_view().ctx.curr_epoch ==> r is Ok && r.unwrap()@ == blake2b256_of(
                InvocationKernel::rand_payload(
                    personalization,
                    self.rand_view().beacon_seed@,
                    rand_epoch,
                    entropy@,
                ),
            ) && r.unwrap()@.len() == 32,
    ;
}

impl RandomnessOps for InvocationKernel {
    open spec fn rand_view(&self) -> InvocationKernel {
        *self
    }

    fn get_randomness_from_tickets(
        &self,
        personalization: i64,
        rand_epoch: i64,
        entropy: &Vec<u8>,
    ) -> (r: Result<Vec<u8>, KernelError>) {
        self.get_randomness_from_tickets_body(personalization, rand_epoch, entropy)
    }

    fn get_randomness_from_beacon(
        &self,
        personalization: i64,
        rand_epoch: i64,
        entropy: &Vec<u8>,
    ) -> (r: Result<Vec<u8>, KernelError>) {
        self.get_randomness_from_beacon_body(personalization, rand_epoch, entropy)
    }
}

/// Caller validation: an exported actor method must perform exactly
/// one successful caller validation before any state-mutating or
/// value-transferring operation is honored. A second validation, or a
/// mutating operation before one, is a policy violation and a fatal
/// fault.
pub trait ValidationOps {
    /// The invocation frame the operations act on.
    spec fn validation_view(&self) -> InvocationKernel;

    /// Accepts any caller. Fails the invocation if validation already
    /// succeeded once: the exactly-one-validation policy.
    fn validate_immediate_caller_accept_any(&mut self) -> (r: Result<(), KernelError>)
        ensures
            old(self).validation_view().aborted ==> r == Err::<(), KernelError>(
                KernelError::Fatal(Fault::Aborted),
            ) && final(self).validation_view() == old(self).validation_view(),
            !old(self).validation_view().aborted && old(self).validation_view().validated ==> r
                == Err::<(), KernelError>(KernelError::Fatal(Fault::ValidationPolicy)) && final(self).validation_view() == (InvocationKernel {
                aborted: true,
                ..old(self).validation_view()
            }),
            old(self).validation_view().validation_open() ==> r is Ok && final(self).validation_view() == (InvocationKernel {
                validated: true,
                ..old(self).validation_view()
            }),
    ;

    /// Accepts the caller only if one of `allowed` resolves to it; on
    /// a mismatch the caller is rejected with `Forbidden` and the
    /// frame is left open for another validation attempt.
    fn validate_immediate_caller_addr_one_of(&mut self, allowed: &Vec<Address>) -> (r: Result<
        (),
        KernelError,
    >)
        ensures
            old(self).validation_view().aborted ==> r == Err::<(), KernelError>(
                KernelError::Fatal(Fault::Aborted),
            ) && final(self).validation_view() == old(self).validation_view(),
            !old(self).validation_view().aborted && old(self).validation_view().validated ==> r
                == Err::<(), KernelError>(KernelError::Fatal(Fault::ValidationPolicy)) && final(self).validation_view() == (InvocationKernel {
                aborted: true,
                ..old(self).validation_view()
            }),
            old(self).validation_view().validation_open() ==> {
                let matched = exists|i: int|
                    0 <= i < allowed@.len() && old(self).validation_view().resolve_spec(
                        #[trigger] allowed@[i]@,
                    ) == Some(old(self).validation_view().ctx.caller);
                if matched {
                    r is Ok && final(self).validation_view() == (InvocationKernel {
                        validated: true,
                        ..old(self).validation_view()
                    })
                } else {
                    r == Err::<(), KernelError>(KernelError::Syscall(ErrorNumber::Forbidden))
                        && final(self).validation_view() == old(self).validation_view()
                }
            },
    ;

    /// Accepts the caller only if its code identifier is one of
    /// `allowed`; a caller with no known code is rejected.
    fn validate_immediate_caller_type_one_of(&mut self, allowed: &Vec<CidBuf>) -> (r: Result<
        (),
        KernelError,
    >)
        ensures
            old(self).validation_view().aborted ==> r == Err::<(), KernelError>(
                KernelError::Fatal(Fault::Aborted),
            ) && final(self).validation_view() == old(self).validation_view(),
            !old(self).validation_view().aborted && old(self).validation_view().validated ==> r
                == Err::<(), KernelError>(KernelError::Fatal(Fault::ValidationPolicy)) && final(self).validation_view() == (InvocationKernel {
                aborted: true,
                ..old(self).validation_view()
            }),
            old(self).validation_view().validation_open() ==> {
                let matched = match InvocationKernel::lookup_code_spec(
                    old(self).validation_view().code_bindings@,
                    old(self).validation_view().ctx.caller,
                ) {
                    Some(code) => exists|i: int|
                        0 <= i < allowed@.len() && #[trigger] allowed@[i]@ == code,
                    None => false,
                };
                if matched {
                    r is Ok && final(self).validation_view() == (InvocationKernel {
                        validated: true,
                        ..old(self).validation_view()
                    })
                } else {
                    r == Err::<(), KernelError>(KernelError::Syscall(ErrorNumber::Forbidden))
                        && final(self).validation_view() == old(self).validation_view()
                }
            },
    ;
}

impl ValidationOps for InvocationKernel {
    open spec fn validation_view(&self) -> InvocationKernel {
        *self
    }

    fn validate_immediate_caller_accept_any(&mut self) -> (r: Result<(), KernelError>) {
        if self.aborted {
            return Err(KernelError::Fatal(Fault::Aborted));
        }
        if self.validated {
            self.aborted = true;
            return Err(KernelError::Fatal(Fault::ValidationPolicy));
        }
        self.validated = true;
        Ok(())
    }

    fn validate_immediate_caller_addr_one_of(&mut self, allowed: &Vec<Address>) -> (r: Result<
        (),
        KernelError,
    >) {
        self.validate_by_addrs(allowed)
    }

    fn validate_immediate_caller_type_one_of(&mut self, allowed: &Vec<CidBuf>) -> (r: Result<
        (),
        KernelError,
    >) {
        self.validate_by_types(allowed)
    }
}


/// Actor state access: the executing actor's state root, balance, and
/// removal. The state root is the one persistent, cross-invocation
/// mutable resource.
pub trait SelfOps: BlockOps {
    /// The invocation frame the operations act on.
    spec fn self_view(&self) -> InvocationKernel;

    /// The actor's state root.
    fn root(&self) -> (r: CidBuf)
        ensures
            r@ == self.self_view().state_root@,
    ;

    /// Replaces the state root. Succeeds exactly when the new root is
    /// currently reachable — linked during this invocation, or the
    /// root the actor already has; pointing the state at unreachable
    /// content is an invalid transition and aborts the invocation,
    /// leaving the root unchanged.
    fn set_root(&mut self, new_root: CidBuf) -> (r: Result<(), KernelError>)
        requires
            old(self).self_view().wf(),
        ensures
            final(self).self_view().wf(),
            old(self).self_view().aborted ==> r == Err::<(), KernelError>(
                KernelError::Fatal(Fault::Aborted),
            ) && final(self).self_view() == old(self).self_view(),
            !old(self).self_view().aborted && !old(self).self_view().validated ==> r == Err::<
                (),
                KernelError,
            >(KernelError::Fatal(Fault::ValidationPolicy)) && final(self).self_view() == (
            InvocationKernel { aborted: true, ..old(self).self_view() }),
            !old(self).self_view().aborted && old(self).self_view().validated ==> {
                if old(self).self_view().valid_root_transition(new_root@) {
                    r is Ok && final(self).self_view() == (InvocationKernel {
                        state_root: final(self).self_view().state_root,
                        ..old(self).self_view()
                    }) && final(self).self_view().state_root@ == new_root@
                } else {
                    r == Err::<(), KernelError>(KernelError::Fatal(Fault::InvalidRootTransition))
                        && final(self).self_view() == (InvocationKernel {
                        aborted: true,
                        ..old(self).self_view()
                    })
                }
            },
            !old(self).self_view().aborted && old(self).self_view().validated ==> (r is Ok <==> old(
                self,
            ).self_view().valid_root_transition(new_root@)),
    ;

    /// The balance of the receiving actor.
    fn current_balance(&self) -> (r: Result<u128, KernelError>)
        ensures
            self.self_view().aborted ==> r == Err::<u128, KernelError>(
                KernelError::Fatal(Fault::Aborted),
            ),
            !self.self_view().aborted ==> r == Ok::<u128, KernelError>(self.self_view().balance),
    ;

    /// Marks the executing actor for removal at commit time,
    /// transferring its full balance to `beneficiary`. Fails with
    /// `NotFound` when the beneficiary does not resolve to an existing
    /// actor; removal is finalized only if the invocation succeeds.
    /// Only the actor itself may destroy itself; this operation needs
    /// no foreign-caller check because the frame it acts on is the
    /// executing actor's own, so no other caller can reach it.
    fn self_destruct(&mut self, beneficiary: &Address) -> (r: Result<(), KernelError>)
        ensures
            old(self).self_view().aborted ==> r == Err::<(), KernelError>(
                KernelError::Fatal(Fault::Aborted),
            ) && final(self).self_view() == old(self).self_view(),
            !old(self).self_view().aborted && !old(self).self_view().validated ==> r == Err::<
                (),
                KernelError,
            >(KernelError::Fatal(Fault::ValidationPolicy)) && final(self).self_view() == (
            InvocationKernel { aborted: true, ..old(self).self_view() }),
            !old(self).self_view().aborted && old(self).self_view().validated ==> match old(self).self_view().resolve_spec(beneficiary@) {
                None => r == Err::<(), KernelError>(KernelError::Syscall(ErrorNumber::NotFound))
                    && final(self).self_view() == old(self).self_view(),
                Some(id) => {
                    if InvocationKernel::lookup_code_spec(
                        old(self).self_view().code_bindings@,
                        id,
                    ) is Some {
                        r is Ok && final(self).self_view() == (InvocationKernel {
                            balance: 0,
                            destructed: Some(
                                PendingDestruct {
                                    beneficiary: id,
                                    amount: old(self).self_view().balance,
                                },
                            ),
                            ..old(self).self_view()
                        })
                    } else {
                        r == Err::<(), KernelError>(KernelError::Syscall(ErrorNumber::NotFound))
                            && final(self).self_view() == old(self).self_view()
                    }
                },
            },
    ;
}

impl SelfOps for InvocationKernel {
    open spec fn self_view(&self) -> InvocationKernel {
        *self
    }

    fn root(&self) -> (r: CidBuf) {
        clone_cid(&self.state_root)
    }

    fn set_root(&mut self, new_root: CidBuf) -> (r: Result<(), KernelError>) {
        self.set_root_body(new_root)
    }

    fn current_balance(&self) -> (r: Result<u128, KernelError>) {
        if self.aborted {
            return Err(KernelError::Fatal(Fault::Aborted));
        }
        Ok(self.balance)
    }

    fn self_destruct(&mut self, beneficiary: &Address) -> (r: Result<(), KernelError>) {
        self.self_destruct_body(beneficiary)
    }
}


/// Nested message sends: a synchronous, re-entrant call into another
/// actor, drawing on the caller's gas budget.
pub trait SendOps {
    /// The invocation frame the operation acts on.
    spec fn send_view(&self) -> InvocationKernel;

    /// Settles a nested synchronous call into another actor. The
    /// callee ran on its own frame against the caller's remaining
    /// budget; the engine reports gas used and the outcome. Gas
    /// consumed stays consumed whatever the outcome. A recoverable
    /// callee failure is captured as a value; a callee fault
    /// propagates and aborts the caller too.
    fn send(&mut self, message: &Message, outcome: SendOutcome) -> (r: Result<
        SendResult,
        KernelError,
    >)
        ensures
            old(self).send_view().aborted ==> r == Err::<SendResult, KernelError>(
                KernelError::Fatal(Fault::Aborted),
            ) && final(self).send_view() == old(self).send_view(),
            !old(self).send_view().aborted && !old(self).send_view().validated ==> r == Err::<
                SendResult,
                KernelError,
            >(KernelError::Fatal(Fault::ValidationPolicy)) && final(self).send_view() == (
            InvocationKernel { aborted: true, ..old(self).send_view() }),
            !old(self).send_view().aborted && old(self).send_view().validated ==> {
                if old(self).send_view().call_depth >= old(self).send_view().ctx.max_call_depth {
                    r == Err::<SendResult, KernelError>(
                        KernelError::Fatal(Fault::CallDepthExceeded),
                    ) && final(self).send_view() == (InvocationKernel {
                        aborted: true,
                        ..old(self).send_view()
                    })
                } else if message.value > old(self).send_view().balance {
                    r == Err::<SendResult, KernelError>(
                        KernelError::Syscall(ErrorNumber::InsufficientFunds),
                    ) && final(self).send_view() == old(self).send_view()
                } else if outcome.gas_used > old(self).send_view().gas_available {
                    r == Err::<SendResult, KernelError>(KernelError::Fatal(Fault::OutOfGas))
                        && final(self).send_view() == (InvocationKernel {
                        gas_available: 0,
                        aborted: true,
                        ..old(self).send_view()
                    })
                } else {
                    match outcome.kind {
                        CalleeOutcome::Completed(p) => r == Ok::<SendResult, KernelError>(
                            SendResult::Completed,
                        ) && final(self).send_view() == (InvocationKernel {
                            gas_available: (old(self).send_view().gas_available
                                - outcome.gas_used) as u64,
                            balance: (old(self).send_view().balance - message.value) as u128,
                            return_stack: final(self).send_view().return_stack,
                            ..old(self).send_view()
                        }) && final(self).send_view().return_stack@ == old(self).send_view().return_stack@.push(p),
                        CalleeOutcome::Failed(e) => r == Ok::<SendResult, KernelError>(
                            SendResult::CalleeError(e),
                        ) && final(self).send_view() == (InvocationKernel {
                            gas_available: (old(self).send_view().gas_available
                                - outcome.gas_used) as u64,
                            ..old(self).send_view()
                        }),
                        CalleeOutcome::Faulted(f) => r == Err::<SendResult, KernelError>(
                            KernelError::Fatal(f),
                        ) && final(self).send_view() == (InvocationKernel {
                            gas_available: (old(self).send_view().gas_available
                                - outcome.gas_used) as u64,
                            aborted: true,
                            ..old(self).send_view()
                        }),
                    }
                }
            },
    ;
}

impl SendOps for InvocationKernel {
    open spec fn send_view(&self) -> InvocationKernel {
        *self
    }

    fn send(&mut self, message: &Message, outcome: SendOutcome) -> (r: Result<
        SendResult,
        KernelError,
    >) {
        self.send_body(message, outcome)
    }
}

/// Network-scoped reads: invocation-scoped constants of the chain.
/// No failure mode.
pub trait NetworkOps {
    /// The invocation context the reads come from.
    spec fn network_view(&self) -> InvocationCtx;

    /// The current chain epoch.
    fn network_curr_epoch(&self) -> (r: i64)
        ensures
            r == self.network_view().curr_epoch,
    ;

    /// The active protocol version.
    fn network_version(&self) -> (r: u32)
        ensures
            r == self.network_view().network_version,
    ;

    /// The base fee at the beginning of the epoch.
    fn network_base_fee(&self) -> (r: u128)
        ensures
            r == self.network_view().base_fee,
    ;
}

/// Reads of the incoming message envelope. No failure mode.
pub trait MessageOps {
    /// The invocation context the reads come from.
    spec fn message_view(&self) -> InvocationCtx;

    /// The caller's actor ID.
    fn msg_caller(&self) -> (r: u64)
        ensures
            r == self.message_view().caller,
    ;

    /// The receiver's actor ID.
    fn msg_receiver(&self) -> (r: u64)
        ensures
            r == self.message_view().receiver,
    ;

    /// The method number of the message.
    fn msg_method_number(&self) -> (r: u64)
        ensures
            r == self.message_view().method_number,
    ;

    /// The block handle of the opaque parameter block.
    fn msg_method_params(&self) -> (r: u32)
        ensures
            r == self.message_view().method_params,
    ;

    /// The value the message carried.
    fn msg_value_received(&self) -> (r: u128)
        ensures
            r == self.message_view().value_received,
    ;
}

/// The circulating-supply read. No failure mode.
pub trait CircSupplyOps {
    /// The invocation context the read comes from.
    spec fn supply_view(&self) -> InvocationCtx;

    /// The total token supply in circulation at the beginning of the
    /// current epoch.
    fn total_fil_circ_supply(&self) -> (r: Result<u128, KernelError>)
        ensures
            r == Ok::<u128, KernelError>(self.supply_view().circ_supply),
    ;
}

impl NetworkOps for InvocationKernel {
    open spec fn network_view(&self) -> InvocationCtx {
        self.ctx
    }

    fn network_curr_epoch(&self) -> (r: i64) {
        self.ctx.curr_epoch
    }

    fn network_version(&self) -> (r: u32) {
        self.ctx.network_version
    }

    fn network_base_fee(&self) -> (r: u128) {
        self.ctx.base_fee
    }
}

impl MessageOps for InvocationKernel {
    open spec fn message_view(&self) -> InvocationCtx {
        self.ctx
    }

    fn msg_caller(&self) -> (r: u64) {
        self.ctx.caller
    }

    fn msg_receiver(&self) -> (r: u64) {
        self.ctx.receiver
    }

    fn msg_method_number(&self) -> (r: u64) {
        self.ctx.method_number
    }

    fn msg_method_params(&self) -> (r: u32) {
        self.ctx.method_params
    }

    fn msg_value_received(&self) -> (r: u128) {
        self.ctx.value_received
    }
}

impl CircSupplyOps for InvocationKernel {
    open spec fn supply_view(&self) -> InvocationCtx {
        self.ctx
    }

    fn total_fil_circ_supply(&self) -> (r: Result<u128, KernelError>) {
        Ok(self.ctx.circ_supply)
    }
}

/// A callee draws on the caller's remaining budget: when its charges
/// all fit, the gas the caller loses is exactly their total — at least
/// each single charge — and when they do not fit, the callee ran dry
/// on a budget its total exceeds.
pub proof fn lemma_nested_send_gas(caller_avail: u64, callee_costs: Seq<u64>)
    ensures
        gas_after(caller_avail, callee_costs) matches Some(g) ==> caller_avail - g
            == prefix_total(callee_costs, callee_costs.len() as int) && forall|k: int|
            0 <= k < callee_costs.len() ==> caller_avail - g >= callee_costs[k],
        gas_after(caller_avail, callee_costs) is None ==> prefix_total(
            callee_costs,
            callee_costs.len() as int,
        ) > caller_avail,
{
    lemma_gas_exhaustion(caller_avail, callee_costs);
    let total = prefix_total(callee_costs, callee_costs.len() as int);
    if total <= caller_avail {
        assert forall|k: int| 0 <= k < callee_costs.len() implies total >= callee_costs[k] by {
            lemma_prefix_total_mono(callee_costs, k + 1, callee_costs.len() as int);
            assert(prefix_total(callee_costs, k + 1) == prefix_total(callee_costs, k)
                + callee_costs[k]);
            lemma_prefix_total_nonneg(callee_costs, k);
        }
    }
}

/// Prefix totals grow with the prefix.
pub proof fn lemma_prefix_total_mono(costs: Seq<u64>, a: int, b: int)
    requires
        0 <= a <= b <= costs.len(),
    ensures
        prefix_total(costs, a) <= prefix_total(costs, b),
    decreases b - a,
{
    if a < b {
        lemma_prefix_total_mono(costs, a, b - 1);
        assert(prefix_total(costs, b) == prefix_total(costs, b - 1) + costs[b - 1]);
    }
}



impl InvocationKernel {
    /// Builds a fresh invocation frame from the injected context, the
    /// actor's state, the gas budget, the block-table policy, and the
    /// collaborator state (chain seeds, known headers, directory).
    /// Rejects a malformed state root.
    pub fn new(
        ctx: InvocationCtx,
        state_root: CidBuf,
        balance: u128,
        gas_limit: u64,
        max_block_size: u32,
        max_links: u32,
        allowed_codecs: Vec<u64>,
        chain_seed: Vec<u8>,
        beacon_seed: Vec<u8>,
        chain_headers: Vec<HeaderRec>,
        addr_bindings: Vec<AddrBinding>,
        code_bindings: Vec<CodeBinding>,
        next_actor_id: u64,
    ) -> (r: Result<InvocationKernel, KernelError>)
        ensures
            r is Ok <==> state_root@.wf(),
            r matches Ok(k) ==> {
                &&& k.wf()
                &&& k.ctx == ctx
                &&& k.state_root@ == state_root@
                &&& k.balance == balance
                &&& k.gas_available == gas_limit
                &&& !k.validated
                &&& !k.aborted
                &&& k.call_depth == 0
                &&& k.actor_seq == 0
                &&& k.next_actor_id == next_actor_id
                &&& k.return_stack@.len() == 0
                &&& k.events@.len() == 0
                &&& k.destructed is None
                &&& k.blocks.blocks@.len() == 0
                &&& k.blocks.reachable@.len() == 0
                &&& k.blocks.store@.len() == 0
                &&& k.blocks.max_block_size == max_block_size
                &&& k.blocks.max_links == max_links
                &&& k.blocks.allowed_codecs == allowed_codecs
                &&& k.addr_bindings == addr_bindings
                &&& k.code_bindings == code_bindings
                &&& k.chain_seed == chain_seed
                &&& k.beacon_seed == beacon_seed
                &&& k.chain_headers == chain_headers
            },
    {
        if state_root.digest.len() > crate::types::MAX_DIGEST_LEN {
            return Err(KernelError::Syscall(ErrorNumber::IllegalArgument));
        }
        Ok(
            InvocationKernel {
                ctx,
                blocks: BlockRegistry::new(max_block_size, max_links, allowed_codecs),
                state_root,
                balance,
                gas_available: gas_limit,
                validated: false,
                aborted: false,
                call_depth: 0,
                actor_seq: 0,
                next_actor_id,
                return_stack: Vec::new(),
                addr_bindings,
                code_bindings,
                chain_seed,
                beacon_seed,
                chain_headers,
                events: Vec::new(),
                destructed: None,
            },
        )
    }

    /// Seeds the reachable set and the backing store with one block, as
    /// the state-tree collaborator does before execution starts.
    pub fn seed_block(&mut self, cid: CidBuf, codec: u64, data: Vec<u8>) -> (r: Result<
        (),
        KernelError,
    >)
        requires
            old(self).wf(),
        ensures
            final(self).wf(),
            *final(self) == (InvocationKernel { blocks: final(self).blocks, ..*old(self) }),
            r is Ok <==> !old(self).blocks.store_has(cid@) && cid@.wf() && data@.len() <= old(self).blocks.max_block_size,
            r is Err ==> *final(self) == *old(self),
            r is Ok ==> final(self).blocks.reachable_contains(cid@) && forall|c: CidSpec|
                #![auto]
                final(self).blocks.reachable_contains(c) <==> old(self).blocks.reachable_contains(
                    c,
                ) || c == cid@,
    {
        self.blocks.seed_block(cid, codec, data)
    }
}

/// What one `return_pop` does to the stack `s` and a guest buffer `buf`:
/// the stack afterwards, the buffer afterwards, and the count of bytes
/// copied. Popping an empty stack, or popping into a buffer smaller
/// than the top element, copies nothing and consumes nothing.
pub open spec fn pop_result(s: Seq<Seq<u8>>, buf: Seq<u8>) -> (Seq<Seq<u8>>, Seq<u8>, nat) {
    if s.len() == 0 {
        (s, buf, 0)
    } else if buf.len() < s.last().len() {
        (s, buf, 0)
    } else {
        (s.drop_last(), s.last() + buf.skip(s.last().len() as int), s.last().len())
    }
}

/// The return-stack side channel: variable-length results, most recent
/// on top, probed with `return_size` and consumed by `return_pop` or
/// `return_discard`.
pub trait ReturnOps {
    /// The invocation frame the operations act on.
    spec fn return_view(&self) -> InvocationKernel;

    /// The stack's contents, oldest first.
    spec fn ret_stack(&self) -> Seq<Seq<u8>>;

    /// The size of the top element; 0 means non-existent.
    fn return_size(&self) -> (r: u64)
        ensures
            ({
                let s = self.ret_stack();
                if s.len() == 0 {
                    r == 0
                } else {
                    r == s.last().len()
                }
            }),
    ;

    /// Discards the top element, if any. No other part of the frame
    /// moves.
    fn return_discard(&mut self)
        ensures
            final(self).ret_stack() == if old(self).ret_stack().len() == 0 {
                old(self).ret_stack()
            } else {
                old(self).ret_stack().drop_last()
            },
            final(self).return_view() == (InvocationKernel {
                return_stack: final(self).return_view().return_stack,
                ..old(self).return_view()
            }),
    ;

    /// Pops the top element into `into`, returning the bytes copied.
    /// If `into` is smaller than the size `return_size` reported, the
    /// pop fails — returns 0 — without consuming the element. No
    /// other part of the frame moves.
    fn return_pop(&mut self, into: &mut Vec<u8>) -> (r: u64)
        ensures
            ({
                let (s2, b2, n) = pop_result(old(self).ret_stack(), old(into)@);
                final(self).ret_stack() == s2 && final(into)@ == b2 && r == n
            }),
            final(self).return_view() == (InvocationKernel {
                return_stack: final(self).return_view().return_stack,
                ..old(self).return_view()
            }),
    ;
}

/// The aggregate capability interface: everything a guest syscall may
/// be dispatched against.
pub trait Kernel: ActorOps + BlockOps + CircSupplyOps + CryptoOps + GasOps + MessageOps + NetworkOps + RandomnessOps + ReturnOps + SelfOps + SendOps + ValidationOps {

}

impl ReturnOps for InvocationKernel {
    open spec fn return_view(&self) -> InvocationKernel {
        *self
    }

    /// The return stack's contents, oldest first.
    open spec fn ret_stack(&self) -> Seq<Seq<u8>> {
        self.return_stack@.map_values(|v: Vec<u8>| v@)
    }

    fn return_size(&self) -> (r: u64) {
        if self.return_stack.len() == 0 {
            return 0;
        }
        self.return_stack[self.return_stack.len() - 1].len() as u64
    }

    fn return_discard(&mut self) {
        if self.return_stack.len() > 0 {
            self.return_stack.pop();
            proof {
                assert(self.return_stack@.map_values(|v: Vec<u8>| v@) =~= old(self).return_stack@.map_values(|v: Vec<u8>| v@).drop_last());
            }
        }
    }

    #[verifier::loop_isolation(false)]
    fn return_pop(&mut self, into: &mut Vec<u8>) -> (r: u64) {
        let depth = self.return_stack.len();
        if depth == 0 {
            return 0;
        }
        let top_len = self.return_stack[depth - 1].len();
        if into.len() < top_len {
            return 0;
        }
        let mut i: usize = 0;
        while i < top_len
            invariant
                i <= top_len,
                into@.len() == old(into)@.len(),
                forall|j: int|
                    0 <= j < i ==> into@[j] == self.return_stack@[depth - 1]@[j],
                forall|j: int| i <= j < old(into)@.len() ==> into@[j] == old(into)@[j],
            decreases top_len - i,
        {
            let b: u8 = self.return_stack[depth - 1][i];
            into.set(i, b);
            i = i + 1;
        }
        self.return_stack.pop();
        proof {
            let s = old(self).ret_stack();
            assert(s.last() == old(self).return_stack@.last()@);
            assert(self.return_stack@.map_values(|v: Vec<u8>| v@) =~= s.drop_last());
            assert(into@ =~= s.last() + old(into)@.skip(s.last().len() as int));
        }
        top_len as u64
    }
}

impl Kernel for InvocationKernel {

}

/// A failed pop is harmless and retryable: popping into a buffer
/// smaller than the top element leaves the stack and the buffer as
/// they were, and a later pop with an adequate buffer succeeds and
/// hands out that same element.
pub proof fn lemma_return_pop_retry(s: Seq<Seq<u8>>, small: Seq<u8>, adequate: Seq<u8>)
    requires
        s.len() > 0,
        small.len() < s.last().len(),
        adequate.len() >= s.last().len(),
    ensures
        pop_result(s, small) == (s, small, 0nat),
        pop_result(s, adequate).0 == s.drop_last(),
        pop_result(s, adequate).2 == s.last().len(),
        pop_result(s, adequate).1.take(s.last().len() as int) == s.last(),
{
    assert(pop_result(s, adequate).1.take(s.last().len() as int) =~= s.last());
}

} // verus!
