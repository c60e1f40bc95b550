//! The syscall bridge against a real guest memory image: bounds
//! checking, strict decoding, and write-back behavior.

use fvm::blocks::CODEC_RAW;
use fvm::codec::encode_address;
use fvm::codec::encode_cid;
use fvm::codec::encode_event;
use fvm::hashing::HASH_BLAKE2B_256;
use fvm::kernel::AddrBinding;
use fvm::kernel::BlockOps;
use fvm::kernel::CodeBinding;
use fvm::kernel::InvocationCtx;
use fvm::kernel::InvocationKernel;
use fvm::kernel::RandomnessOps;
use fvm::kernel::ValidationOps;
use fvm::memory::GuestMemory;
use fvm::syscalls::event::emit_event;
use fvm::syscalls::rand::get_beacon_randomness;
use fvm::syscalls::rand::get_chain_randomness;
use fvm::syscalls::sself::current_balance;
use fvm::syscalls::sself::root;
use fvm::syscalls::sself::self_destruct;
use fvm::syscalls::sself::set_root;
use fvm::types::Address;
use fvm::types::CidBuf;
use fvm::types::ErrorNumber;
use fvm::types::EventRecord;
use fvm::types::KernelError;

fn test_ctx() -> InvocationCtx {
    InvocationCtx {
        curr_epoch: 100,
        network_version: 14,
        base_fee: 7,
        circ_supply: 1_000_000,
        caller: 7,
        receiver: 9,
        method_number: 3,
        method_params: 0,
        value_received: 50,
        origin: 7,
        origin_nonce: 21,
        init_actor_id: 1,
        max_call_depth: 8,
        event_base_cost: 10,
        event_byte_cost: 1,
        tickets_from: 10,
        beacon_from: 20,
        earliest_fault_epoch: 40,
    }
}

fn test_kernel() -> InvocationKernel {
    InvocationKernel::new(
        test_ctx(),
        CidBuf { codec: CODEC_RAW, hash_code: HASH_BLAKE2B_256, digest: vec![0xee; 32] },
        1000,
        10_000,
        4096,
        4,
        vec![CODEC_RAW],
        vec![0xc4; 16],
        vec![0xbe; 16],
        Vec::new(),
        vec![AddrBinding { addr: Address::Key { protocol: 1, payload: vec![1] }, id: 33 }],
        vec![CodeBinding {
            id: 33,
            code: CidBuf { codec: 0x55, hash_code: 0x12, digest: vec![5; 32] },
        }],
        100,
    )
    .unwrap()
}

fn is_illegal<T>(r: &Result<T, KernelError>) -> bool {
    matches!(r, Err(KernelError::Syscall(ErrorNumber::IllegalArgument)))
}

#[test]
fn root_syscall_reports_length_and_writes() {
    let k = test_kernel();
    let mut mem = GuestMemory { bytes: vec![0u8; 128] };
    // A too-small buffer: the actual length comes back, nothing written.
    let need = root(&k, &mut mem, 0, 8).unwrap();
    assert_eq!(need, 64);
    assert_eq!(mem.bytes, vec![0u8; 128]);
    // An adequate buffer receives the encoded root.
    let n = root(&k, &mut mem, 4, 100).unwrap();
    assert_eq!(n, 64);
    let expected = encode_cid(&k.state_root);
    assert_eq!(&mem.bytes[4..68], expected.as_slice());
    assert_eq!(&mem.bytes[..4], &[0, 0, 0, 0]);
    // An out-of-bounds window fails without side effects.
    let r = root(&k, &mut mem, 120, 64);
    assert!(is_illegal(&r));
}

#[test]
fn set_root_syscall_decodes_and_applies() {
    let mut k = test_kernel();
    k.validate_immediate_caller_accept_any().unwrap();
    let h = k.block_create(CODEC_RAW, &vec![1, 2, 3]).unwrap();
    let cid = k.block_link(h, HASH_BLAKE2B_256, 32).unwrap();
    let enc = encode_cid(&cid);
    let mut image = vec![0u8; 16];
    image.extend_from_slice(&enc);
    let mem = GuestMemory { bytes: image };
    set_root(&mut k, &mem, 16).unwrap();
    assert_eq!(k.state_root.digest, cid.digest);
    // A malformed identifier is rejected as an illegal argument.
    let bad = GuestMemory { bytes: vec![7u8; 20] };
    let r = set_root(&mut k, &bad, 0);
    assert!(is_illegal(&r));
}

#[test]
fn current_balance_syscall_reads_balance() {
    let k = test_kernel();
    assert_eq!(current_balance(&k).unwrap(), 1000);
}

#[test]
fn self_destruct_syscall_decodes_beneficiary() {
    let mut k = test_kernel();
    k.validate_immediate_caller_accept_any().unwrap();
    let enc = encode_address(&Address::Id(33));
    let mem = GuestMemory { bytes: enc.clone() };
    self_destruct(&mut k, &mem, 0, enc.len() as u32).unwrap();
    assert_eq!(k.destructed.unwrap().beneficiary, 33);
    // A window not exactly one address is rejected.
    let mut k2 = test_kernel();
    k2.validate_immediate_caller_accept_any().unwrap();
    let mut padded = enc.clone();
    padded.push(0);
    let mem2 = GuestMemory { bytes: padded };
    let r = self_destruct(&mut k2, &mem2, 0, 10);
    assert!(is_illegal(&r));
}

#[test]
fn randomness_syscalls_read_entropy_window() {
    let k = test_kernel();
    let mem = GuestMemory { bytes: vec![1, 2, 3, 4] };
    let r1 = get_chain_randomness(&k, &mem, 5, 50, 1, 2).unwrap();
    assert_eq!(r1.len(), 32);
    // The same window read directly gives the same derivation.
    let r2 = k.get_randomness_from_tickets(5, 50, &vec![2, 3]).unwrap();
    assert_eq!(r1, r2);
    // Out-of-bounds entropy fails before anything is derived.
    assert!(is_illegal(&get_chain_randomness(&k, &mem, 5, 50, 3, 4)));
    let rb = get_beacon_randomness(&k, &mem, 5, 50, 1, 2).unwrap();
    assert_ne!(r1, rb);
}

#[test]
fn emit_event_syscall_strictly_decodes() {
    let mut k = test_kernel();
    k.validate_immediate_caller_accept_any().unwrap();
    let evt = EventRecord { flags: 1, key: vec![b'a'], value: vec![b'b', b'c'] };
    let enc = encode_event(&evt);
    let mem = GuestMemory { bytes: enc.clone() };
    emit_event(&mut k, &mem, 0, enc.len() as u32).unwrap();
    assert_eq!(k.events.len(), 1);
    assert_eq!(k.events[0].key, vec![b'a']);
    assert_eq!(k.gas_available, 10_000 - 13);
    // Trailing bytes in the window are rejected: strict decoding.
    let mut padded = enc.clone();
    padded.push(0);
    let mem2 = GuestMemory { bytes: padded };
    let r = emit_event(&mut k, &mem2, 0, (enc.len() + 1) as u32);
    assert!(is_illegal(&r));
    // An out-of-bounds window is rejected without side effects.
    let r2 = emit_event(&mut k, &mem, 0, 1000);
    assert!(is_illegal(&r2));
    assert_eq!(k.events.len(), 1);
}
