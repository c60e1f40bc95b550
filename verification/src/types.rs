//! Plain-value data model of the kernel: content identifiers, addresses,
//! token amounts, and the two-tier error taxonomy (guest-recoverable
//! syscall errors versus invocation-fatal faults).

use vstd::prelude::*;

verus! {

/// Guest-recoverable error codes, returned across the syscall boundary as
/// small status values. The guest may inspect and react to these; they
/// never unwind the invocation.
#[derive(Clone, Copy, PartialEq, Eq, Structural, Debug)]
pub enum ErrorNumber {
    /// A malformed or out-of-bounds argument (bad memory window, bad encoding).
    IllegalArgument,
    /// A lookup failed: unknown content identifier, unknown actor.
    NotFound,
    /// The caller is not permitted to perform the operation.
    Forbidden,
    /// A configured size limit was exceeded.
    LimitExceeded,
    /// A block handle does not name a block of this invocation.
    InvalidHandle,
    /// The codec of a new block is not on the allow-list.
    InvalidCodec,
    /// A new block references more links than the configured maximum.
    TooManyLinks,
    /// A new block references a content identifier outside the reachable set.
    UnreachableLink,
    /// The requested hash function / length pair is not supported.
    InvalidMultihashSpec,
    /// The sending actor cannot cover the value to be transferred.
    InsufficientFunds,
}

/// Invocation-fatal faults. These abort the entire top-level invocation:
/// no state-root or balance change is committed, and they are never
/// surfaced to the guest as a recoverable status code.
#[derive(Clone, Copy, PartialEq, Eq, Structural, Debug)]
pub enum Fault {
    /// The gas counter would go negative.
    OutOfGas,
    /// A state-mutating operation ran before a successful caller
    /// validation, or validation was attempted twice.
    ValidationPolicy,
    /// An attempted state-root transition to an unreachable identifier.
    InvalidRootTransition,
    /// The backing store lacks a block it promised to hold.
    CorruptedStore,
    /// The nested-call depth limit was exceeded.
    CallDepthExceeded,
    /// An operation was attempted after the invocation already aborted.
    Aborted,
}

/// Every kernel operation fails in one of the two tiers.
#[derive(Clone, Copy, PartialEq, Eq, Structural, Debug)]
pub enum KernelError {
    /// Recoverable: mapped to a guest-visible status code by the bridge.
    Syscall(ErrorNumber),
    /// Fatal: terminates the invocation; never mapped to a status code.
    Fatal(Fault),
}

/// Mathematical model of a content identifier.
pub ghost struct CidSpec {
    pub codec: u64,
    pub hash_code: u64,
    pub digest: Seq<u8>,
}

/// A content identifier held as plain values: the payload codec, the hash
/// function that produced the digest, and the digest bytes themselves.
pub struct CidBuf {
    pub codec: u64,
    pub hash_code: u64,
    pub digest: Vec<u8>,
}

impl View for CidBuf {
    type V = CidSpec;

    open spec fn view(&self) -> CidSpec {
        CidSpec { codec: self.codec, hash_code: self.hash_code, digest: self.digest@ }
    }
}

/// The longest digest any well-formed content identifier may carry.
pub const MAX_DIGEST_LEN: usize = 64;

impl CidSpec {
    /// A well-formed identifier carries a digest of bounded length.
    pub open spec fn wf(self) -> bool {
        self.digest.len() <= MAX_DIGEST_LEN
    }
}

impl CidBuf {
    /// A well-formed identifier carries a digest of bounded length.
    pub open spec fn wf(self) -> bool {
        self@.wf()
    }
}

/// Mathematical model of an actor address.
pub ghost enum AddressSpec {
    Id(u64),
    Key { protocol: u8, payload: Seq<u8> },
}

/// An actor address: either a compact numeric ID assigned by the actor
/// directory, or a key-derived address carrying a protocol discriminant
/// and its payload bytes.
pub enum Address {
    Id(u64),
    Key { protocol: u8, payload: Vec<u8> },
}

impl View for Address {
    type V = AddressSpec;

    open spec fn view(&self) -> AddressSpec {
        match self {
            Address::Id(i) => AddressSpec::Id(*i),
            Address::Key { protocol, payload } => AddressSpec::Key {
                protocol: *protocol,
                payload: payload@,
            },
        }
    }
}

/// The longest payload a well-formed key address may carry.
pub const MAX_ADDR_PAYLOAD_LEN: usize = 63;

impl AddressSpec {
    /// Key addresses carry a nonzero protocol and a short payload; the
    /// zero protocol is reserved for ID addresses.
    pub open spec fn wf(self) -> bool {
        match self {
            AddressSpec::Id(_) => true,
            AddressSpec::Key { protocol, payload } => 1 <= protocol <= 3 && payload.len()
                <= MAX_ADDR_PAYLOAD_LEN,
        }
    }
}

impl Address {
    /// A well-formed address is one whose model is well formed.
    pub open spec fn wf(self) -> bool {
        self@.wf()
    }
}

/// Mathematical model of an actor event record.
pub ghost struct EventSpec {
    pub flags: u64,
    pub key: Seq<u8>,
    pub value: Seq<u8>,
}

/// Valid flag bits of an event record: bit 0 asks for the key to be
/// indexed, bit 1 for the value.
pub const EVENT_FLAG_MASK: u64 = 3;

impl EventSpec {
    /// A well-formed event carries only known flag bits, and key and
    /// value short enough for their lengths to cross the guest boundary.
    pub open spec fn wf(self) -> bool {
        self.flags <= EVENT_FLAG_MASK && self.key.len() <= u64::MAX && self.value.len() <= u64::MAX
    }
}

/// An event record emitted by the executing actor: a key/value pair with
/// flags saying how it should be indexed.
pub struct EventRecord {
    pub flags: u64,
    pub key: Vec<u8>,
    pub value: Vec<u8>,
}

impl View for EventRecord {
    type V = EventSpec;

    open spec fn view(&self) -> EventSpec {
        EventSpec { flags: self.flags, key: self.key@, value: self.value@ }
    }
}

impl EventRecord {
    /// A well-formed event record is one whose model is well formed.
    pub open spec fn wf(self) -> bool {
        self@.wf()
    }
}

/// Codec and size of a block, as reported by `block_stat`.
#[derive(Clone, Copy, PartialEq, Eq, Structural, Debug)]
pub struct BlockStat {
    pub codec: u64,
    pub size: u64,
}

/// Copies a byte vector.
pub fn clone_bytes(v: &Vec<u8>) -> (r: Vec<u8>)
    ensures
        r@ == v@,
{
    let mut out: Vec<u8> = Vec::new();
    let mut i: usize = 0;
    while i < v.len()
        invariant
            i <= v.len(),
            out@ == v@.subrange(0, i as int),
        decreases v.len() - i,
    {
        out.push(v[i]);
        assert(out@ == v@.subrange(0, i + 1 as int));
        i = i + 1;
    }
    assert(out@ == v@);
    out
}

/// True exactly when the two byte vectors hold the same bytes.
pub fn bytes_eq(a: &Vec<u8>, b: &Vec<u8>) -> (r: bool)
    ensures
        r <==> a@ == b@,
{
    if a.len() != b.len() {
        assert(a@ != b@);
        return false;
    }
    let mut i: usize = 0;
    while i < a.len()
        invariant
            i <= a.len(),
            a@.len() == b@.len(),
            forall|j: int| 0 <= j < i ==> a@[j] == b@[j],
        decreases a.len() - i,
    {
        if a[i] != b[i] {
            return false;
        }
        i = i + 1;
    }
    assert(a@ =~= b@);
    true
}

/// Clones a content identifier.
pub fn clone_cid(c: &CidBuf) -> (r: CidBuf)
    ensures
        r@ == c@,
{
    CidBuf { codec: c.codec, hash_code: c.hash_code, digest: clone_bytes(&c.digest) }
}

/// True exactly when the two identifiers are equal.
pub fn cid_eq(a: &CidBuf, b: &CidBuf) -> (r: bool)
    ensures
        r <==> a@ == b@,
{
    let r = a.codec == b.codec && a.hash_code == b.hash_code && bytes_eq(&a.digest, &b.digest);
    r
}

/// Clones an address.
pub fn clone_address(a: &Address) -> (r: Address)
    ensures
        r@ == a@,
{
    match a {
        Address::Id(i) => Address::Id(*i),
        Address::Key { protocol, payload } => Address::Key {
            protocol: *protocol,
            payload: clone_bytes(payload),
        },
    }
}

/// True exactly when the two addresses are equal.
pub fn address_eq(a: &Address, b: &Address) -> (r: bool)
    ensures
        r <==> a@ == b@,
{
    match (a, b) {
        (Address::Id(x), Address::Id(y)) => x == y,
        (
            Address::Key { protocol: pa, payload: la },
            Address::Key { protocol: pb, payload: lb },
        ) => *pa == *pb && bytes_eq(la, lb),
        _ => false,
    }
}

} // verus!
