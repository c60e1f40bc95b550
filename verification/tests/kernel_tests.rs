//! End-to-end exercises of the invocation kernel: block I/O, gas,
//! validation, state-root transitions, sends and the return stack.

use fvm::blocks::CODEC_DAG;
use fvm::blocks::CODEC_RAW;
use fvm::consensus::ConsensusFaultKind;
use fvm::consensus::HeaderRec;
use fvm::hashing::HASH_BLAKE2B_256;
use fvm::hashing::HASH_SHA2_256;
use fvm::kernel::ActorOps;
use fvm::kernel::AddrBinding;
use fvm::kernel::BlockOps;
use fvm::kernel::CalleeOutcome;
use fvm::kernel::CryptoOps;
use fvm::kernel::CircSupplyOps;
use fvm::kernel::CodeBinding;
use fvm::kernel::GasOps;
use fvm::kernel::InvocationCtx;
use fvm::kernel::InvocationKernel;
use fvm::kernel::Kernel;
use fvm::kernel::Message;
use fvm::kernel::MessageOps;
use fvm::kernel::NetworkOps;
use fvm::kernel::RandomnessOps;
use fvm::kernel::SelfOps;
use fvm::kernel::SendOps;
use fvm::kernel::ValidationOps;
use fvm::kernel::ReturnOps;
use fvm::kernel::SendOutcome;
use fvm::kernel::SendResult;
use fvm::types::Address;
use fvm::types::CidBuf;
use fvm::types::ErrorNumber;
use fvm::types::EventRecord;
use fvm::types::Fault;
use fvm::types::KernelError;

fn test_ctx() -> InvocationCtx {
    InvocationCtx {
        curr_epoch: 100,
        network_version: 14,
        base_fee: 7,
        circ_supply: 1_000_000,
        caller: 7,
        receiver: 9,
        method_number: 3,
        method_params: 0,
        value_received: 50,
        origin: 7,
        origin_nonce: 21,
        init_actor_id: 1,
        max_call_depth: 8,
        event_base_cost: 10,
        event_byte_cost: 1,
        tickets_from: 10,
        beacon_from: 20,
        earliest_fault_epoch: 40,
    }
}

fn test_root_cid() -> CidBuf {
    CidBuf { codec: CODEC_RAW, hash_code: HASH_BLAKE2B_256, digest: vec![0xee; 32] }
}

fn test_kernel() -> InvocationKernel {
    InvocationKernel::new(
        test_ctx(),
        test_root_cid(),
        1000,
        10_000,
        4096,
        4,
        vec![CODEC_RAW, CODEC_DAG],
        vec![0xc4; 16],
        vec![0xbe; 16],
        Vec::new(),
        Vec::new(),
        Vec::new(),
        100,
    )
    .unwrap()
}

/// A kernel whose actor directory knows caller 7 (bound to a key
/// address) and actor 33.
fn directory_kernel() -> InvocationKernel {
    let mut k = test_kernel();
    k.addr_bindings = vec![AddrBinding {
        addr: Address::Key { protocol: 1, payload: vec![1, 2, 3] },
        id: 7,
    }];
    k.code_bindings = vec![
        CodeBinding { id: 7, code: CidBuf { codec: 0x55, hash_code: 0x12, digest: vec![5; 32] } },
        CodeBinding { id: 33, code: CidBuf { codec: 0x55, hash_code: 0x12, digest: vec![6; 32] } },
    ];
    k
}

fn is_syscall_err<T>(r: &Result<T, KernelError>, e: ErrorNumber) -> bool {
    matches!(r, Err(KernelError::Syscall(x)) if *x == e)
}

fn is_fatal_err<T>(r: &Result<T, KernelError>, f: Fault) -> bool {
    matches!(r, Err(KernelError::Fatal(x)) if *x == f)
}

#[test]
fn block_open_unreachable_is_not_found() {
    let mut k = test_kernel();
    let cid = CidBuf { codec: CODEC_RAW, hash_code: HASH_BLAKE2B_256, digest: vec![1; 32] };
    let r = k.block_open(&cid);
    assert!(is_syscall_err(&r, ErrorNumber::NotFound));
}

#[test]
fn block_open_after_seed_returns_contents() {
    let mut k = test_kernel();
    let cid = CidBuf { codec: CODEC_RAW, hash_code: HASH_BLAKE2B_256, digest: vec![2; 32] };
    k.seed_block(
        CidBuf { codec: cid.codec, hash_code: cid.hash_code, digest: cid.digest.clone() },
        CODEC_RAW,
        vec![10, 20, 30],
    )
    .unwrap();
    let h = k.block_open(&cid).unwrap();
    let stat = k.block_stat(h).unwrap();
    assert_eq!(stat.codec, CODEC_RAW);
    assert_eq!(stat.size, 3);
    let mut buf = vec![0u8; 8];
    let n = k.block_read(h, 0, &mut buf).unwrap();
    assert_eq!(n, 3);
    assert_eq!(&buf[..3], &[10, 20, 30]);
    assert_eq!(&buf[3..], &[0, 0, 0, 0, 0]);
    // A short copy past the end is not an error.
    let mut buf2 = vec![0u8; 8];
    let n2 = k.block_read(h, 2, &mut buf2).unwrap();
    assert_eq!(n2, 1);
    assert_eq!(buf2[0], 30);
}

#[test]
fn block_link_is_deterministic() {
    let mut k = test_kernel();
    let h = k.block_create(CODEC_RAW, &vec![1, 2, 3, 4]).unwrap();
    let c1 = k.block_link(h, HASH_BLAKE2B_256, 32).unwrap();
    let c2 = k.block_link(h, HASH_BLAKE2B_256, 32).unwrap();
    assert_eq!(c1.codec, c2.codec);
    assert_eq!(c1.hash_code, c2.hash_code);
    assert_eq!(c1.digest, c2.digest);
    assert_eq!(c1.digest.len(), 32);
    // The digest is a real hash of the payload, not the payload back.
    assert_ne!(c1.digest, vec![1, 2, 3, 4]);
    // A different hash function gives a different digest.
    let c3 = k.block_link(h, HASH_SHA2_256, 32).unwrap();
    assert_ne!(c1.digest, c3.digest);
    // The linked identifier is now reachable and can be opened.
    let h2 = k.block_open(&c1).unwrap();
    let mut buf = vec![0u8; 4];
    k.block_read(h2, 0, &mut buf).unwrap();
    assert_eq!(buf, vec![1, 2, 3, 4]);
}

#[test]
fn block_link_rejects_bad_handle_and_multihash() {
    let mut k = test_kernel();
    let r = k.block_link(5, HASH_BLAKE2B_256, 32);
    assert!(is_syscall_err(&r, ErrorNumber::InvalidHandle));
    let h = k.block_create(CODEC_RAW, &vec![1]).unwrap();
    let r2 = k.block_link(h, 0x9999, 32);
    assert!(is_syscall_err(&r2, ErrorNumber::InvalidMultihashSpec));
    let r3 = k.block_link(h, HASH_BLAKE2B_256, 16);
    assert!(is_syscall_err(&r3, ErrorNumber::InvalidMultihashSpec));
}

#[test]
fn block_create_enforces_limits() {
    let mut k = test_kernel();
    let r = k.block_create(CODEC_RAW, &vec![0u8; 5000]);
    assert!(is_syscall_err(&r, ErrorNumber::LimitExceeded));
    let r2 = k.block_create(0x99, &vec![1]);
    assert!(is_syscall_err(&r2, ErrorNumber::InvalidCodec));
}

/// The link section of a structured block: count, then encoded
/// identifiers.
fn dag_payload(links: &[&CidBuf]) -> Vec<u8> {
    let mut out = (links.len() as u64).to_le_bytes().to_vec();
    for c in links {
        out.extend_from_slice(&fvm::codec::encode_cid(c));
    }
    out
}

#[test]
fn block_create_checks_links() {
    let mut k = test_kernel();
    // Malformed link section.
    let r = k.block_create(CODEC_DAG, &vec![1, 2, 3]);
    assert!(is_syscall_err(&r, ErrorNumber::IllegalArgument));
    // Too many links.
    let mut many = (100u64).to_le_bytes().to_vec();
    many.extend_from_slice(&[0; 64]);
    let r2 = k.block_create(CODEC_DAG, &many);
    assert!(is_syscall_err(&r2, ErrorNumber::TooManyLinks));
    // A link outside the reachable set.
    let stranger = CidBuf { codec: CODEC_RAW, hash_code: HASH_SHA2_256, digest: vec![9; 32] };
    let r3 = k.block_create(CODEC_DAG, &dag_payload(&[&stranger]));
    assert!(is_syscall_err(&r3, ErrorNumber::UnreachableLink));
    // A reachable link is accepted.
    let h = k.block_create(CODEC_RAW, &vec![7]).unwrap();
    let linked = k.block_link(h, HASH_BLAKE2B_256, 32).unwrap();
    let h2 = k.block_create(CODEC_DAG, &dag_payload(&[&linked])).unwrap();
    assert!(k.block_stat(h2).is_ok());
}

#[test]
fn set_root_accepts_current_root_unchanged() {
    // The root the actor already has is a lawful transition target,
    // even though nothing was linked this invocation.
    let mut k = test_kernel();
    k.validate_immediate_caller_accept_any().unwrap();
    let current = k.root();
    k.set_root(current).unwrap();
    assert_eq!(k.state_root.digest, test_root_cid().digest);
    assert!(!k.aborted);
}

#[test]
fn set_root_succeeds_iff_reachable() {
    let mut k = test_kernel();
    k.validate_immediate_caller_accept_any().unwrap();
    let h = k.block_create(CODEC_RAW, &vec![1, 2]).unwrap();
    let cid = k.block_link(h, HASH_BLAKE2B_256, 32).unwrap();
    let copy = CidBuf { codec: cid.codec, hash_code: cid.hash_code, digest: cid.digest.clone() };
    k.set_root(copy).unwrap();
    let got = k.root();
    assert_eq!(got.digest, cid.digest);
    // An unreachable root is a fatal invalid transition; the root stays.
    let stranger = CidBuf { codec: CODEC_RAW, hash_code: HASH_SHA2_256, digest: vec![3; 32] };
    let r = k.set_root(stranger);
    assert!(is_fatal_err(&r, Fault::InvalidRootTransition));
    assert_eq!(k.state_root.digest, cid.digest);
    assert!(k.aborted);
}

#[test]
fn gas_runs_dry_at_first_overdraft() {
    let mut k = test_kernel();
    assert_eq!(k.gas_available, 10_000);
    k.charge_gas("work", 6_000).unwrap();
    assert_eq!(k.gas_available, 4_000);
    // This charge would drive the counter negative: fatal, not applied.
    let r = k.charge_gas("work", 5_000);
    assert!(is_fatal_err(&r, Fault::OutOfGas));
    assert_eq!(k.gas_available, 4_000);
    assert!(k.aborted);
    // Nothing executes after the abort.
    let r2 = k.charge_gas("more", 1);
    assert!(is_fatal_err(&r2, Fault::Aborted));
    let r3 = k.block_create(CODEC_RAW, &vec![1]);
    assert!(is_fatal_err(&r3, Fault::Aborted));
    // A negative declared cost is rejected.
    let mut k2 = test_kernel();
    let r4 = k2.charge_gas("bad", -1);
    assert!(is_syscall_err(&r4, ErrorNumber::IllegalArgument));
}

#[test]
fn mutating_before_validation_is_fatal() {
    let mut k = test_kernel();
    let root = k.root();
    let r = k.set_root(root);
    assert!(is_fatal_err(&r, Fault::ValidationPolicy));
    assert!(k.aborted);
}

#[test]
fn second_validation_is_rejected() {
    let mut k = test_kernel();
    k.validate_immediate_caller_accept_any().unwrap();
    let r = k.validate_immediate_caller_accept_any();
    assert!(is_fatal_err(&r, Fault::ValidationPolicy));
    assert!(k.aborted);
}

#[test]
fn validate_caller_addr_one_of_matches_and_rejects() {
    let mut k = directory_kernel();
    // The caller's ID address matches directly.
    k.validate_immediate_caller_addr_one_of(&vec![Address::Id(7)]).unwrap();
    assert!(k.validated);
    // A mismatching allow-list is Forbidden, and leaves validation open.
    let mut k2 = directory_kernel();
    let r = k2.validate_immediate_caller_addr_one_of(&vec![Address::Id(8)]);
    assert!(is_syscall_err(&r, ErrorNumber::Forbidden));
    assert!(!k2.validated && !k2.aborted);
    // A key address resolving to the caller matches too.
    let mut k3 = directory_kernel();
    k3.validate_immediate_caller_addr_one_of(&vec![Address::Key {
        protocol: 1,
        payload: vec![1, 2, 3],
    }])
    .unwrap();
    assert!(k3.validated);
}

#[test]
fn validate_caller_type_one_of_checks_code() {
    let mut k = directory_kernel();
    let code = CidBuf { codec: 0x55, hash_code: 0x12, digest: vec![5; 32] };
    k.validate_immediate_caller_type_one_of(&vec![code]).unwrap();
    assert!(k.validated);
    let mut k2 = directory_kernel();
    let wrong = CidBuf { codec: 0x55, hash_code: 0x12, digest: vec![6; 32] };
    let r = k2.validate_immediate_caller_type_one_of(&vec![wrong]);
    assert!(is_syscall_err(&r, ErrorNumber::Forbidden));
}

#[test]
fn self_destruct_requires_existing_beneficiary() {
    let mut k = directory_kernel();
    k.validate_immediate_caller_accept_any().unwrap();
    let r = k.self_destruct(&Address::Id(999));
    assert!(is_syscall_err(&r, ErrorNumber::NotFound));
    assert!(k.destructed.is_none());
    k.self_destruct(&Address::Id(33)).unwrap();
    let pending = k.destructed.unwrap();
    assert_eq!(pending.beneficiary, 33);
    assert_eq!(pending.amount, 1000);
    assert_eq!(k.balance, 0);
}

#[test]
fn send_accounts_gas_and_pushes_return() {
    let mut k = test_kernel();
    k.validate_immediate_caller_accept_any().unwrap();
    let msg = Message { to: Address::Id(33), method: 2, params: vec![], value: 100 };
    let outcome = SendOutcome { gas_used: 700, kind: CalleeOutcome::Completed(vec![4, 5, 6]) };
    let r = k.send(&msg, outcome).unwrap();
    assert_eq!(r, SendResult::Completed);
    assert_eq!(k.gas_available, 10_000 - 700);
    assert_eq!(k.balance, 900);
    assert_eq!(k.return_size(), 3);
    let mut buf = vec![0u8; 3];
    assert_eq!(k.return_pop(&mut buf), 3);
    assert_eq!(buf, vec![4, 5, 6]);
}

#[test]
fn send_captures_callee_failure_as_value() {
    let mut k = test_kernel();
    k.validate_immediate_caller_accept_any().unwrap();
    let msg = Message { to: Address::Id(33), method: 2, params: vec![], value: 100 };
    let outcome = SendOutcome { gas_used: 400, kind: CalleeOutcome::Failed(ErrorNumber::NotFound) };
    let r = k.send(&msg, outcome).unwrap();
    assert_eq!(r, SendResult::CalleeError(ErrorNumber::NotFound));
    // Gas stays consumed; value is not transferred; the caller goes on.
    assert_eq!(k.gas_available, 10_000 - 400);
    assert_eq!(k.balance, 1000);
    assert!(!k.aborted);
    assert_eq!(k.return_size(), 0);
}

#[test]
fn send_propagates_callee_fault_and_exhaustion() {
    let mut k = test_kernel();
    k.validate_immediate_caller_accept_any().unwrap();
    let msg = Message { to: Address::Id(33), method: 2, params: vec![], value: 0 };
    let outcome = SendOutcome { gas_used: 500, kind: CalleeOutcome::Faulted(Fault::OutOfGas) };
    let r = k.send(&msg, outcome);
    assert!(is_fatal_err(&r, Fault::OutOfGas));
    assert!(k.aborted);
    assert_eq!(k.gas_available, 10_000 - 500);
    // A callee claiming more gas than remains exhausts the budget.
    let mut k2 = test_kernel();
    k2.validate_immediate_caller_accept_any().unwrap();
    let outcome2 = SendOutcome { gas_used: 20_000, kind: CalleeOutcome::Completed(vec![]) };
    let r2 = k2.send(&msg, outcome2);
    assert!(is_fatal_err(&r2, Fault::OutOfGas));
    assert_eq!(k2.gas_available, 0);
}

#[test]
fn send_checks_depth_and_funds() {
    let mut k = test_kernel();
    k.validate_immediate_caller_accept_any().unwrap();
    let msg = Message { to: Address::Id(33), method: 2, params: vec![], value: 5000 };
    let outcome = SendOutcome { gas_used: 1, kind: CalleeOutcome::Completed(vec![]) };
    let r = k.send(&msg, outcome);
    assert!(is_syscall_err(&r, ErrorNumber::InsufficientFunds));
    let mut k2 = test_kernel();
    k2.validate_immediate_caller_accept_any().unwrap();
    k2.call_depth = 8;
    let msg2 = Message { to: Address::Id(33), method: 2, params: vec![], value: 0 };
    let outcome2 = SendOutcome { gas_used: 1, kind: CalleeOutcome::Completed(vec![]) };
    let r2 = k2.send(&msg2, outcome2);
    assert!(is_fatal_err(&r2, Fault::CallDepthExceeded));
}

#[test]
fn return_pop_small_buffer_fails_without_discarding() {
    let mut k = test_kernel();
    k.validate_immediate_caller_accept_any().unwrap();
    let msg = Message { to: Address::Id(33), method: 2, params: vec![], value: 0 };
    let outcome = SendOutcome { gas_used: 1, kind: CalleeOutcome::Completed(vec![9, 8, 7, 6]) };
    k.send(&msg, outcome).unwrap();
    assert_eq!(k.return_size(), 4);
    let gas_before = k.gas_available;
    let mut small = vec![0u8; 2];
    assert_eq!(k.return_pop(&mut small), 0);
    assert_eq!(small, vec![0, 0]);
    // The element is still there, and an adequate buffer receives it.
    assert_eq!(k.return_size(), 4);
    let mut ok = vec![0u8; 4];
    assert_eq!(k.return_pop(&mut ok), 4);
    assert_eq!(ok, vec![9, 8, 7, 6]);
    assert_eq!(k.return_size(), 0);
    // Return-stack traffic moves nothing else in the frame.
    assert_eq!(k.gas_available, gas_before);
    assert!(!k.aborted);
}

#[test]
fn return_discard_removes_top() {
    let mut k = test_kernel();
    k.validate_immediate_caller_accept_any().unwrap();
    let msg = Message { to: Address::Id(33), method: 2, params: vec![], value: 0 };
    k.send(&msg, SendOutcome { gas_used: 1, kind: CalleeOutcome::Completed(vec![1]) }).unwrap();
    k.send(&msg, SendOutcome { gas_used: 1, kind: CalleeOutcome::Completed(vec![2, 2]) }).unwrap();
    assert_eq!(k.return_size(), 2);
    k.return_discard();
    assert_eq!(k.return_size(), 1);
    k.return_discard();
    assert_eq!(k.return_size(), 0);
    k.return_discard();
    assert_eq!(k.return_size(), 0);
}

#[test]
fn consensus_fault_detection_cases() {
    let mut k = test_kernel();
    let a = HeaderRec { miner: 5, epoch: 50, parent: 11, ticket: 100 };
    let b = HeaderRec { miner: 5, epoch: 50, parent: 12, ticket: 101 };
    let other_miner = HeaderRec { miner: 6, epoch: 50, parent: 11, ticket: 102 };
    k.chain_headers = vec![a, b, other_miner];
    // Different miners: no fault.
    assert_eq!(k.verify_consensus_fault(&a, &other_miner, None).unwrap(), None);
    // Identical headers: no fault.
    assert_eq!(k.verify_consensus_fault(&a, &a, None).unwrap(), None);
    // Same miner, distinct, same epoch, witnessed: double-fork fault.
    let fault = k.verify_consensus_fault(&a, &b, None).unwrap().unwrap();
    assert_eq!(fault.target, 5);
    assert_eq!(fault.epoch, 50);
    assert_eq!(fault.kind, ConsensusFaultKind::DoubleForkMining);
    // Same parent, different epochs: time-offset fault.
    let c = HeaderRec { miner: 5, epoch: 60, parent: 11, ticket: 103 };
    let fault2 = k.verify_consensus_fault(&a, &c, None).unwrap().unwrap();
    assert_eq!(fault2.kind, ConsensusFaultKind::TimeOffsetMining);
    // No header witnessed in the chain at or after the bound: no fault.
    let mut k2 = test_kernel();
    k2.chain_headers = Vec::new();
    assert_eq!(k2.verify_consensus_fault(&a, &b, None).unwrap(), None);
}

#[test]
fn randomness_is_deterministic_and_bounded() {
    let k = test_kernel();
    let r1 = k.get_randomness_from_tickets(3, 50, &vec![1, 2]).unwrap();
    let r2 = k.get_randomness_from_tickets(3, 50, &vec![1, 2]).unwrap();
    assert_eq!(r1, r2);
    assert_eq!(r1.len(), 32);
    let r3 = k.get_randomness_from_tickets(3, 51, &vec![1, 2]).unwrap();
    assert_ne!(r1, r3);
    // Epochs outside the held range fail rather than defaulting.
    let r4 = k.get_randomness_from_tickets(3, 101, &vec![]);
    assert!(is_syscall_err(&r4, ErrorNumber::IllegalArgument));
    let r5 = k.get_randomness_from_tickets(3, 5, &vec![]);
    assert!(is_syscall_err(&r5, ErrorNumber::IllegalArgument));
    // Beacon randomness differs from ticket randomness for the same
    // arguments, because the seeds differ.
    let rb = k.get_randomness_from_beacon(3, 50, &vec![1, 2]).unwrap();
    assert_ne!(r1, rb);
}

#[test]
fn actor_directory_ops() {
    let mut k = directory_kernel();
    // ID addresses resolve to themselves.
    let r = k.resolve_address(&Address::Id(42)).unwrap();
    assert!(matches!(r, Some(Address::Id(42))));
    // Key addresses resolve through the directory.
    let key = Address::Key { protocol: 1, payload: vec![1, 2, 3] };
    let r2 = k.resolve_address(&key).unwrap();
    assert!(matches!(r2, Some(Address::Id(7))));
    let unknown = Address::Key { protocol: 1, payload: vec![9] };
    assert!(k.resolve_address(&unknown).unwrap().is_none());
    // Code lookup.
    let code = k.get_actor_code_cid(&Address::Id(33)).unwrap().unwrap();
    assert_eq!(code.digest, vec![6; 32]);
    assert!(k.get_actor_code_cid(&Address::Id(999)).unwrap().is_none());
    // Creation is reserved to the designated authority.
    k.validate_immediate_caller_accept_any().unwrap();
    let newcode = CidBuf { codec: 0x55, hash_code: 0x12, digest: vec![7; 32] };
    let r3 = k.create_actor(newcode, &Address::Key { protocol: 2, payload: vec![4] });
    assert!(is_syscall_err(&r3, ErrorNumber::Forbidden));
    // As the init actor, creation succeeds and binds the address.
    let mut k2 = directory_kernel();
    k2.ctx.caller = 1;
    k2.validate_immediate_caller_accept_any().unwrap();
    let newcode2 = CidBuf { codec: 0x55, hash_code: 0x12, digest: vec![7; 32] };
    let addr = Address::Key { protocol: 2, payload: vec![4] };
    k2.create_actor(newcode2, &addr).unwrap();
    let resolved = k2.resolve_address(&addr).unwrap();
    assert!(matches!(resolved, Some(Address::Id(100))));
}

#[test]
fn new_actor_address_is_deterministic() {
    let mut k1 = test_kernel();
    let mut k2 = test_kernel();
    let a1 = k1.new_actor_address().unwrap();
    let a2 = k2.new_actor_address().unwrap();
    match (&a1, &a2) {
        (
            Address::Key { protocol: p1, payload: b1 },
            Address::Key { protocol: p2, payload: b2 },
        ) => {
            assert_eq!(p1, p2);
            assert_eq!(b1, b2);
            assert_eq!(b1.len(), 20);
        },
        _ => panic!("expected key addresses"),
    }
    // The next derivation in the same invocation differs.
    let a3 = k1.new_actor_address().unwrap();
    match (&a1, &a3) {
        (Address::Key { payload: b1, .. }, Address::Key { payload: b3, .. }) => {
            assert_ne!(b1, b3);
        },
        _ => panic!("expected key addresses"),
    }
}

#[test]
fn emit_event_meters_and_records() {
    let mut k = test_kernel();
    k.validate_immediate_caller_accept_any().unwrap();
    let evt = EventRecord { flags: 3, key: vec![b'k'], value: vec![1, 2] };
    k.emit_event(evt).unwrap();
    // base 10 + 3 bytes at 1 each.
    assert_eq!(k.gas_available, 10_000 - 13);
    assert_eq!(k.events.len(), 1);
    // Unknown flag bits are rejected.
    let bad = EventRecord { flags: 4, key: vec![], value: vec![] };
    let r = k.emit_event(bad);
    assert!(is_syscall_err(&r, ErrorNumber::IllegalArgument));
    // An unpayable event is fatal.
    let mut k2 = test_kernel();
    k2.validate_immediate_caller_accept_any().unwrap();
    k2.gas_available = 5;
    let r2 = k2.emit_event(EventRecord { flags: 0, key: vec![], value: vec![] });
    assert!(matches!(r2, Err(KernelError::Fatal(Fault::OutOfGas))));
    assert!(k2.aborted);
}

#[test]
fn envelope_getters_read_the_context() {
    let k = test_kernel();
    assert_eq!(k.network_curr_epoch(), 100);
    assert_eq!(k.network_version(), 14);
    assert_eq!(k.network_base_fee(), 7);
    assert_eq!(k.total_fil_circ_supply().unwrap(), 1_000_000);
    assert_eq!(k.msg_caller(), 7);
    assert_eq!(k.msg_receiver(), 9);
    assert_eq!(k.msg_method_number(), 3);
    assert_eq!(k.msg_method_params(), 0);
    assert_eq!(k.msg_value_received(), 50);
    assert_eq!(k.current_balance().unwrap(), 1000);
    assert_eq!(k.hash_blake2b(&vec![1, 2, 3]).unwrap().len(), 32);
}

/// The aggregate trait is usable as a bound over the concrete kernel.
fn pop_all<K: Kernel>(k: &mut K) -> u64 {
    let mut count: u64 = 0;
    while k.return_size() != 0 {
        k.return_discard();
        count += 1;
    }
    count
}

#[test]
fn kernel_trait_aggregates_return_ops() {
    let mut k = test_kernel();
    k.validate_immediate_caller_accept_any().unwrap();
    let msg = Message { to: Address::Id(33), method: 2, params: vec![], value: 0 };
    k.send(&msg, SendOutcome { gas_used: 1, kind: CalleeOutcome::Completed(vec![1]) }).unwrap();
    k.send(&msg, SendOutcome { gas_used: 1, kind: CalleeOutcome::Completed(vec![2]) }).unwrap();
    assert_eq!(pop_all(&mut k), 2);
}
