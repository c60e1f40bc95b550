//! The block table: an in-invocation content-addressable store mapping
//! small integer handles to (codec, data) pairs, together with the set
//! of content identifiers the invocation may legally reference. Opening
//! an identifier outside the reachable set fails; linking a created
//! block is the only way the reachable set grows.

use vstd::prelude::*;

use crate::codec::decode_cid_spec;
use crate::codec::decode_cid;
use crate::codec::read_u64;
use crate::hashing::compute_digest;
use crate::hashing::digest_of;
use crate::hashing::multihash_supported;
use crate::types::clone_bytes;
use crate::types::cid_eq;
use crate::types::clone_cid;
use crate::types::BlockStat;
use crate::types::CidBuf;
use crate::types::CidSpec;
use crate::types::ErrorNumber;
use crate::types::Fault;
use crate::types::KernelError;
use vstd::bytes::spec_u64_from_le_bytes;

verus! {

/// Codec for raw byte payloads, which carry no links.
pub const CODEC_RAW: u64 = 0x55;

/// Codec for structured payloads that open with a link section: a count
/// of links followed by that many encoded content identifiers.
pub const CODEC_DAG: u64 = 0x71;

/// One block of the in-invocation table.
pub struct BlockRec {
    pub codec: u64,
    pub data: Vec<u8>,
}

/// One block served by the backing state-tree store.
pub struct StoreEntry {
    pub cid: CidBuf,
    pub codec: u64,
    pub data: Vec<u8>,
}

/// The block table of one invocation: the handle table, the reachable
/// set, the backing store contents, and the injected policy limits.
pub struct BlockRegistry {
    pub blocks: Vec<BlockRec>,
    pub reachable: Vec<CidBuf>,
    pub store: Vec<StoreEntry>,
    pub max_block_size: u32,
    pub max_links: u32,
    pub allowed_codecs: Vec<u64>,
}

impl BlockRegistry {
    /// True when `c` is in the reachable set.
    pub open spec fn reachable_contains(self, c: CidSpec) -> bool {
        exists|i: int| 0 <= i < self.reachable@.len() && self.reachable@[i]@ == c
    }

    /// True when the backing store holds a block for `c`.
    pub open spec fn store_has(self, c: CidSpec) -> bool {
        exists|i: int| 0 <= i < self.store@.len() && self.store@[i].cid@ == c
    }

    /// The store index holding `c` (unique under `wf`).
    pub open spec fn store_at(self, c: CidSpec) -> int {
        choose|i: int| 0 <= i < self.store@.len() && self.store@[i].cid@ == c
    }

    /// True when `codec` is on the allow-list.
    pub open spec fn codec_allowed(self, codec: u64) -> bool {
        self.allowed_codecs@.contains(codec)
    }

    /// True when `id` names a block of this invocation. Handles are
    /// 1-based; 0 never names a block.
    pub open spec fn valid_handle(self, id: u32) -> bool {
        1 <= id <= self.blocks@.len()
    }

    /// The codec of the block behind a valid handle.
    pub open spec fn handle_codec(self, id: u32) -> u64 {
        self.blocks@[id - 1].codec
    }

    /// The bytes of the block behind a valid handle.
    pub open spec fn handle_data(self, id: u32) -> Seq<u8> {
        self.blocks@[id - 1].data@
    }

    /// The policy limits, which no operation changes.
    pub open spec fn same_config(self, other: BlockRegistry) -> bool {
        self.max_block_size == other.max_block_size && self.max_links == other.max_links
            && self.allowed_codecs == other.allowed_codecs
    }

    /// Internal invariant: store identifiers are distinct and well
    /// formed, every reachable identifier is backed by the store, and
    /// every block (in the table or the store) respects the size limit.
    pub open spec fn wf(self) -> bool {
        &&& forall|i: int, j: int|
            0 <= i < j < self.store@.len() ==> self.store@[i].cid@ != self.store@[j].cid@
        &&& forall|i: int| 0 <= i < self.store@.len() ==> (#[trigger] self.store@[i].cid@).wf()
        &&& forall|i: int|
            0 <= i < self.store@.len() ==> (#[trigger] self.store@[i].data@).len()
                <= self.max_block_size
        &&& forall|i: int|
            0 <= i < self.reachable@.len() ==> self.store_has(#[trigger] self.reachable@[i]@)
        &&& forall|i: int|
            0 <= i < self.blocks@.len() ==> (#[trigger] self.blocks@[i].data@).len()
                <= self.max_block_size
    }

    /// An empty table with the given injected policy limits.
    pub fn new(max_block_size: u32, max_links: u32, allowed_codecs: Vec<u64>) -> (r: BlockRegistry)
        ensures
            r.wf(),
            r.blocks@.len() == 0,
            r.reachable@.len() == 0,
            r.store@.len() == 0,
            r.max_block_size == max_block_size,
            r.max_links == max_links,
            r.allowed_codecs == allowed_codecs,
    {
        BlockRegistry {
            blocks: Vec::new(),
            reachable: Vec::new(),
            store: Vec::new(),
            max_block_size,
            max_links,
            allowed_codecs,
        }
    }

    /// True when `c` is in the reachable set.
    pub fn is_reachable(&self, c: &CidBuf) -> (r: bool)
        ensures
            r == self.reachable_contains(c@),
    {
        let mut i: usize = 0;
        while i < self.reachable.len()
            invariant
                i <= self.reachable@.len(),
                forall|j: int| 0 <= j < i ==> self.reachable@[j]@ != c@,
            decreases self.reachable@.len() - i,
        {
            if cid_eq(&self.reachable[i], c) {
                return true;
            }
            i = i + 1;
        }
        false
    }

    /// The store index serving `c`, if any.
    fn find_store(&self, c: &CidBuf) -> (r: Option<usize>)
        ensures
            match r {
                Some(i) => 0 <= i < self.store@.len() && self.store@[i as int].cid@ == c@,
                None => !self.store_has(c@),
            },
    {
        let mut i: usize = 0;
        while i < self.store.len()
            invariant
                i <= self.store@.len(),
                forall|j: int| 0 <= j < i ==> self.store@[j].cid@ != c@,
            decreases self.store@.len() - i,
        {
            if cid_eq(&self.store[i].cid, c) {
                return Some(i);
            }
            i = i + 1;
        }
        None
    }

    /// Under `wf`, the store index holding `c` is unique.
    pub proof fn lemma_store_unique(self, c: CidSpec, i: int)
        requires
            self.wf(),
            0 <= i < self.store@.len(),
            self.store@[i].cid@ == c,
        ensures
            self.store_at(c) == i,
            self.store_has(c),
    {
        assert(self.store_has(c));
        let j = self.store_at(c);
        assert(0 <= j < self.store@.len() && self.store@[j].cid@ == c);
        if i < j {
            assert(self.store@[i].cid@ != self.store@[j].cid@);
        } else if j < i {
            assert(self.store@[j].cid@ != self.store@[i].cid@);
        }
    }

    /// Seeds the reachable set and the backing store with one block, as
    /// the state-tree collaborator does before the invocation starts.
    /// Rejects identifiers already served, malformed identifiers, and
    /// oversized payloads.
    pub fn seed_block(&mut self, cid: CidBuf, codec: u64, data: Vec<u8>) -> (r: Result<
        (),
        KernelError,
    >)
        requires
            old(self).wf(),
        ensures
            final(self).wf(),
            final(self).same_config(*old(self)),
            final(self).blocks == old(self).blocks,
            r is Ok <==> !old(self).store_has(cid@) && cid@.wf() && data@.len() <= old(
                self,
            ).max_block_size,
            r is Err ==> *final(self) == *old(self),
            r is Ok ==> final(self).reachable_contains(cid@) && final(self).store_has(cid@),
            r is Ok ==> forall|c: CidSpec|
                #![auto]
                final(self).reachable_contains(c) <==> old(self).reachable_contains(c) || c
                    == cid@,
            r is Ok ==> forall|c: CidSpec|
                #![auto]
                final(self).store_has(c) <==> old(self).store_has(c) || c == cid@,
            r is Ok ==> final(self).store@[final(self).store@.len() - 1].data@ == data@
                && final(self).store@[final(self).store@.len() - 1].codec == codec,
    {
        if cid.digest.len() > crate::types::MAX_DIGEST_LEN {
            return Err(KernelError::Syscall(ErrorNumber::IllegalArgument));
        }
        if data.len() > self.max_block_size as usize {
            return Err(KernelError::Syscall(ErrorNumber::LimitExceeded));
        }
        match self.find_store(&cid) {
            Some(_) => Err(KernelError::Syscall(ErrorNumber::IllegalArgument)),
            None => {
                let ghost cv = cid@;
                self.reachable.push(clone_cid(&cid));
                self.store.push(StoreEntry { cid, codec, data });
                proof {
                    assert(self.reachable@[self.reachable@.len() - 1]@ == cv);
                    assert(self.reachable_contains(cv));
                    assert(self.store@[self.store@.len() - 1].cid@ == cv);
                    assert(self.store_has(cv));
                    assert forall|c: CidSpec| #![auto] self.reachable_contains(c) implies (old(
                        self,
                    ).reachable_contains(c) || c == cv) by {
                        let i = choose|i: int|
                            0 <= i < self.reachable@.len() && self.reachable@[i]@ == c;
                        if i < old(self).reachable@.len() {
                            assert(old(self).reachable@[i]@ == c);
                        }
                    }
                    assert forall|c: CidSpec| #![auto] (old(self).reachable_contains(c) || c
                        == cv) implies self.reachable_contains(c) by {
                        if old(self).reachable_contains(c) {
                            let i = choose|i: int|
                                0 <= i < old(self).reachable@.len() && old(self).reachable@[i]@
                                    == c;
                            assert(self.reachable@[i]@ == c);
                        }
                    }
                    assert forall|c: CidSpec| #![auto] self.store_has(c) implies (old(
                        self,
                    ).store_has(c) || c == cv) by {
                        let i = choose|i: int|
                            0 <= i < self.store@.len() && self.store@[i].cid@ == c;
                        if i < old(self).store@.len() {
                            assert(old(self).store@[i].cid@ == c);
                        }
                    }
                    assert forall|c: CidSpec| #![auto] (old(self).store_has(c) || c
                        == cv) implies self.store_has(c) by {
                        if old(self).store_has(c) {
                            let i = choose|i: int|
                                0 <= i < old(self).store@.len() && old(self).store@[i].cid@ == c;
                            assert(self.store@[i].cid@ == c);
                        }
                    }
                }
                assert forall|i: int|
                    0 <= i < self.reachable@.len() implies self.store_has(
                    #[trigger] self.reachable@[i]@,
                ) by {
                    if i < self.reachable@.len() - 1 {
                        assert(old(self).store_has(old(self).reachable@[i]@));
                        let k = choose|k: int|
                            0 <= k < old(self).store@.len() && old(self).store@[k].cid@ == old(
                                self,
                            ).reachable@[i]@;
                        assert(self.store@[k].cid@ == self.reachable@[i]@);
                    } else {
                        assert(self.store@[self.store@.len() - 1].cid@ == self.reachable@[i]@);
                    }
                }
                Ok(())
            },
        }
    }

    /// Opens a block already reachable in state, copying it out of the
    /// backing store into a fresh handle. Fails with `NotFound` exactly
    /// when the identifier is outside the reachable set.
    pub fn block_open(&mut self, c: &CidBuf) -> (r: Result<u32, KernelError>)
        requires
            old(self).wf(),
        ensures
            final(self).wf(),
            final(self).same_config(*old(self)),
            final(self).reachable == old(self).reachable,
            final(self).store == old(self).store,
            r matches Err(e) ==> *final(self) == *old(self) && (e == KernelError::Syscall(
                ErrorNumber::NotFound,
            ) <==> !old(self).reachable_contains(c@)) && (old(self).reachable_contains(c@) ==> e
                == KernelError::Syscall(ErrorNumber::LimitExceeded) && old(self).blocks@.len()
                >= u32::MAX),
            !old(self).reachable_contains(c@) ==> r == Err::<u32, KernelError>(
                KernelError::Syscall(ErrorNumber::NotFound),
            ),
            r matches Ok(h) ==> {
                &&& old(self).reachable_contains(c@)
                &&& h == old(self).blocks@.len() + 1
                &&& final(self).blocks@.len() == old(self).blocks@.len() + 1
                &&& forall|i: int|
                    0 <= i < old(self).blocks@.len() ==> final(self).blocks@[i] == old(
                        self,
                    ).blocks@[i]
                &&& final(self).valid_handle(h)
                &&& final(self).handle_codec(h) == old(self).store@[old(self).store_at(c@)].codec
                &&& final(self).handle_data(h) == old(self).store@[old(self).store_at(
                    c@,
                )].data@
            },
    {
        if !self.is_reachable(c) {
            return Err(KernelError::Syscall(ErrorNumber::NotFound));
        }
        match self.find_store(c) {
            None => {
                // Unreachable: `wf` says every reachable identifier is
                // backed by the store.
                assert(false);
                Err(KernelError::Fatal(Fault::CorruptedStore))
            },
            Some(i) => {
                if self.blocks.len() >= (u32::MAX as usize) {
                    return Err(KernelError::Syscall(ErrorNumber::LimitExceeded));
                }
                proof {
                    old(self).lemma_store_unique(c@, i as int);
                }
                let rec = BlockRec {
                    codec: self.store[i].codec,
                    data: clone_bytes(&self.store[i].data),
                };
                self.blocks.push(rec);
                proof {
                    assert forall|k: int|
                        0 <= k < self.blocks@.len() implies (
                    #[trigger] self.blocks@[k].data@).len() <= self.max_block_size by {
                        if k < old(self).blocks@.len() {
                            assert(old(self).blocks@[k].data@.len() <= old(self).max_block_size);
                        } else {
                            assert(self.blocks@[k].data@ == old(self).store@[i as int].data@);
                        }
                    }
                    assert forall|k: int|
                        0 <= k < self.reachable@.len() implies self.store_has(
                        #[trigger] self.reachable@[k]@,
                    ) by {
                        assert(old(self).store_has(old(self).reachable@[k]@));
                        let m = choose|m: int|
                            0 <= m < old(self).store@.len() && old(self).store@[m].cid@ == old(
                                self,
                            ).reachable@[k]@;
                        assert(self.store@[m].cid@ == self.reachable@[k]@);
                    }
                }
                Ok(self.blocks.len() as u32)
            },
        }
    }

    /// True when `codec` is on the allow-list.
    fn codec_on_allowlist(&self, codec: u64) -> (r: bool)
        ensures
            r == self.codec_allowed(codec),
    {
        let mut i: usize = 0;
        while i < self.allowed_codecs.len()
            invariant
                i <= self.allowed_codecs@.len(),
                forall|j: int| 0 <= j < i ==> self.allowed_codecs@[j] != codec,
            decreases self.allowed_codecs@.len() - i,
        {
            if self.allowed_codecs[i] == codec {
                return true;
            }
            i = i + 1;
        }
        false
    }

    /// True when every identifier in `links` is reachable.
    pub open spec fn all_links_reachable(self, links: Seq<CidSpec>) -> bool {
        forall|i: int| 0 <= i < links.len() ==> self.reachable_contains(#[trigger] links[i])
    }

    /// Decodes exactly `n` consecutive content identifiers starting at
    /// `off`, or nothing if any of them is malformed.
    pub open spec fn decode_links_spec(data: Seq<u8>, off: int, n: nat) -> Option<
        (Seq<CidSpec>, int),
    >
        decreases n,
    {
        if n == 0 {
            Some((Seq::empty(), off))
        } else {
            match decode_cid_spec(data, off) {
                None => None,
                Some((c, used)) => match Self::decode_links_spec(data, off + used, (n - 1) as nat) {
                    None => None,
                    Some((rest, end)) => Some((seq![c] + rest, end)),
                },
            }
        }
    }

    /// The views of a sequence of identifiers.
    pub open spec fn cids_view(v: Seq<CidBuf>) -> Seq<CidSpec> {
        v.map_values(|c: CidBuf| c@)
    }

    /// Decodes `n` consecutive identifiers starting at `off`.
    fn decode_links(data: &Vec<u8>, off: usize, n: u32) -> (r: Option<(Vec<CidBuf>, usize)>)
        ensures
            r is Some <==> Self::decode_links_spec(data@, off as int, n as nat) is Some,
            r is Some ==> {
                let (v, end) = r.unwrap();
                let (vs, es) = Self::decode_links_spec(data@, off as int, n as nat).unwrap();
                Self::cids_view(v@) == vs && end == es
            },
        decreases n,
    {
        if n == 0 {
            let out: Vec<CidBuf> = Vec::new();
            assert(Self::cids_view(out@) =~= Seq::<CidSpec>::empty());
            return Some((out, off));
        }
        match decode_cid(data, off) {
            None => None,
            Some((c, used)) => {
                let dl: usize = data.len();
                assert(off + used <= dl);
                match Self::decode_links(data, off + used, n - 1) {
                    None => None,
                    Some((mut rest, end)) => {
                        rest.insert(0, c);
                        assert(Self::cids_view(rest@) =~= seq![c@] + Self::cids_view(
                            rest@.subrange(1, rest@.len() as int),
                        ));
                        Some((rest, end))
                    },
                }
            },
        }
    }

    /// The outcome of validating a new block before it enters the table:
    /// the error it is rejected with, or nothing when it is accepted.
    /// Checks run in this order: table capacity, size limit, codec
    /// allow-list, then — for link-bearing codecs — the strict link
    /// section: count, per-link encoding, and reachability of each link.
    pub open spec fn create_check(self, codec: u64, data: Seq<u8>) -> Option<ErrorNumber> {
        if self.blocks@.len() >= u32::MAX {
            Some(ErrorNumber::LimitExceeded)
        } else if data.len() > self.max_block_size {
            Some(ErrorNumber::LimitExceeded)
        } else if !self.codec_allowed(codec) {
            Some(ErrorNumber::InvalidCodec)
        } else if codec == CODEC_DAG {
            if data.len() < 8 {
                Some(ErrorNumber::IllegalArgument)
            } else {
                let n = spec_u64_from_le_bytes(data.subrange(0, 8));
                if n > self.max_links {
                    Some(ErrorNumber::TooManyLinks)
                } else {
                    match Self::decode_links_spec(data, 8, n as nat) {
                        None => Some(ErrorNumber::IllegalArgument),
                        Some((links, _)) => if self.all_links_reachable(links) {
                            None
                        } else {
                            Some(ErrorNumber::UnreachableLink)
                        },
                    }
                }
            }
        } else {
            None
        }
    }

    /// Creates a new block from guest-supplied bytes. The payload is
    /// held to the size limit, the codec allow-list, and — when the
    /// codec carries links — to the rule that every referenced
    /// identifier is already reachable. Allocates a fresh handle; does
    /// not yet mint a content identifier.
    #[verifier::loop_isolation(false)]
    pub fn block_create(&mut self, codec: u64, data: &Vec<u8>) -> (r: Result<u32, KernelError>)
        requires
            old(self).wf(),
        ensures
            final(self).wf(),
            final(self).same_config(*old(self)),
            final(self).reachable == old(self).reachable,
            final(self).store == old(self).store,
            match old(self).create_check(codec, data@) {
                Some(e) => r == Err::<u32, KernelError>(KernelError::Syscall(e)) && *final(self)
                    == *old(self),
                None => {
                    &&& r == Ok::<u32, KernelError>((old(self).blocks@.len() + 1) as u32)
                    &&& final(self).blocks@.len() == old(self).blocks@.len() + 1
                    &&& forall|i: int|
                        0 <= i < old(self).blocks@.len() ==> final(self).blocks@[i] == old(
                            self,
                        ).blocks@[i]
                    &&& final(self).handle_codec((old(self).blocks@.len() + 1) as u32) == codec
                    &&& final(self).handle_data((old(self).blocks@.len() + 1) as u32) == data@
                },
            },
    {
        if self.blocks.len() >= (u32::MAX as usize) {
            return Err(KernelError::Syscall(ErrorNumber::LimitExceeded));
        }
        if data.len() > self.max_block_size as usize {
            return Err(KernelError::Syscall(ErrorNumber::LimitExceeded));
        }
        if !self.codec_on_allowlist(codec) {
            return Err(KernelError::Syscall(ErrorNumber::InvalidCodec));
        }
        if codec == CODEC_DAG {
            if data.len() < 8 {
                return Err(KernelError::Syscall(ErrorNumber::IllegalArgument));
            }
            let n64: u64 = read_u64(data, 0);
            if n64 > self.max_links as u64 {
                return Err(KernelError::Syscall(ErrorNumber::TooManyLinks));
            }
            assert(n64 as nat == (n64 as u32) as nat);
            match Self::decode_links(data, 8, n64 as u32) {
                None => {
                    return Err(KernelError::Syscall(ErrorNumber::IllegalArgument));
                },
                Some((links, _)) => {
                    let ghost linkviews = Self::cids_view(links@);
                    proof {
                        assert(Self::decode_links_spec(data@, 8, n64 as nat) is Some);
                        assert(linkviews == Self::decode_links_spec(
                            data@,
                            8,
                            n64 as nat,
                        ).unwrap().0);
                    }
                    let mut i: usize = 0;
                    while i < links.len()
                        invariant
                            i <= links@.len(),
                            linkviews == Self::cids_view(links@),
                            forall|j: int|
                                0 <= j < i ==> self.reachable_contains(#[trigger] linkviews[j]),
                            *self == *old(self),
                        decreases links@.len() - i,
                    {
                        if !self.is_reachable(&links[i]) {
                            proof {
                                assert(linkviews[i as int] == links@[i as int]@);
                                assert(0 <= i < linkviews.len() && !old(self).reachable_contains(
                                    linkviews[i as int],
                                ));
                                assert(!old(self).all_links_reachable(linkviews));
                                assert(old(self).create_check(codec, data@) == Some(
                                    ErrorNumber::UnreachableLink,
                                ));
                            }
                            return Err(KernelError::Syscall(ErrorNumber::UnreachableLink));
                        }
                        i = i + 1;
                    }
                    assert(self.all_links_reachable(linkviews));
                },
            }
        }
        let rec = BlockRec { codec, data: clone_bytes(data) };
        self.blocks.push(rec);
        proof {
            assert forall|k: int|
                0 <= k < self.reachable@.len() implies self.store_has(
                #[trigger] self.reachable@[k]@,
            ) by {
                assert(old(self).store_has(old(self).reachable@[k]@));
                let m = choose|m: int|
                    0 <= m < old(self).store@.len() && old(self).store@[m].cid@ == old(
                        self,
                    ).reachable@[k]@;
                assert(self.store@[m].cid@ == self.reachable@[k]@);
            }
        }
        Ok(self.blocks.len() as u32)
    }

    /// The content identifier minted for a block: a deterministic
    /// function of the block's codec and bytes and of the hash function.
    pub open spec fn link_cid(codec: u64, data: Seq<u8>, hash_code: u64) -> CidSpec {
        CidSpec { codec, hash_code, digest: digest_of(hash_code, data) }
    }

    /// Mints a content identifier for the block behind `id` and adds it
    /// to the reachable set — the only way new content becomes linkable
    /// into the state root.
    pub fn block_link(&mut self, id: u32, hash_fun: u64, hash_len: u32) -> (r: Result<
        CidBuf,
        KernelError,
    >)
        requires
            old(self).wf(),
        ensures
            final(self).wf(),
            final(self).same_config(*old(self)),
            final(self).blocks == old(self).blocks,
            !old(self).valid_handle(id) ==> r == Err::<CidBuf, KernelError>(KernelError::Syscall(
                ErrorNumber::InvalidHandle,
            )) && *final(self) == *old(self),
            old(self).valid_handle(id) && !multihash_supported(hash_fun, hash_len) ==> r == Err::<
                CidBuf,
                KernelError,
            >(KernelError::Syscall(ErrorNumber::InvalidMultihashSpec)) && *final(self) == *old(
                self,
            ),
            old(self).valid_handle(id) && multihash_supported(hash_fun, hash_len) ==> {
                &&& r is Ok
                &&& r.unwrap()@ == Self::link_cid(
                    old(self).handle_codec(id),
                    old(self).handle_data(id),
                    hash_fun,
                )
                &&& final(self).reachable_contains(r.unwrap()@)
                &&& forall|c: CidSpec|
                    #![auto]
                    final(self).reachable_contains(c) <==> old(self).reachable_contains(c) || c
                        == r.unwrap()@
                &&& forall|c: CidSpec|
                    #![auto]
                    final(self).store_has(c) <==> old(self).store_has(c) || c == r.unwrap()@
            },
    {
        if id == 0 || (id as usize) > self.blocks.len() {
            return Err(KernelError::Syscall(ErrorNumber::InvalidHandle));
        }
        if !((hash_fun == crate::hashing::HASH_BLAKE2B_256 || hash_fun
            == crate::hashing::HASH_SHA2_256) && hash_len == 32) {
            return Err(KernelError::Syscall(ErrorNumber::InvalidMultihashSpec));
        }
        let idx: usize = (id - 1) as usize;
        let digest = compute_digest(hash_fun, &self.blocks[idx].data);
        let codec = self.blocks[idx].codec;
        let cid = CidBuf { codec, hash_code: hash_fun, digest };
        let in_store = match self.find_store(&cid) {
            Some(_) => true,
            None => false,
        };
        if !in_store {
            let entry = StoreEntry {
                cid: clone_cid(&cid),
                codec,
                data: clone_bytes(&self.blocks[idx].data),
            };
            self.store.push(entry);
        }
        let was_reachable = self.is_reachable(&cid);
        if !was_reachable {
            self.reachable.push(clone_cid(&cid));
        }
        proof {
            if was_reachable {
                assert(self.reachable_contains(cid@));
            } else {
                assert(self.reachable@[self.reachable@.len() - 1]@ == cid@);
                assert(self.reachable_contains(cid@));
            }
            if !in_store {
                assert(self.store@[self.store@.len() - 1].cid@ == cid@);
                assert(self.store_has(cid@));
            }
            assert forall|i: int|
                0 <= i < self.reachable@.len() implies self.store_has(
                #[trigger] self.reachable@[i]@,
            ) by {
                if i < old(self).reachable@.len() {
                    assert(old(self).store_has(old(self).reachable@[i]@));
                    let k = choose|k: int|
                        0 <= k < old(self).store@.len() && old(self).store@[k].cid@ == old(
                            self,
                        ).reachable@[i]@;
                    assert(self.store@[k].cid@ == self.reachable@[i]@);
                } else {
                    if in_store {
                        let k = choose|k: int|
                            0 <= k < old(self).store@.len() && old(self).store@[k].cid@ == cid@;
                        assert(self.store@[k].cid@ == self.reachable@[i]@);
                    } else {
                        assert(self.store@[old(self).store@.len() as int].cid@
                            == self.reachable@[i]@);
                    }
                }
            }
            assert forall|c: CidSpec| #![auto] self.reachable_contains(c) implies (old(
                self,
            ).reachable_contains(c) || c == cid@) by {
                let i = choose|i: int|
                    0 <= i < self.reachable@.len() && self.reachable@[i]@ == c;
                if i < old(self).reachable@.len() {
                    assert(old(self).reachable@[i]@ == c);
                }
            }
            assert forall|c: CidSpec| #![auto] (old(self).reachable_contains(c) || c
                == cid@) implies self.reachable_contains(c) by {
                if old(self).reachable_contains(c) {
                    let i = choose|i: int|
                        0 <= i < old(self).reachable@.len() && old(self).reachable@[i]@ == c;
                    assert(self.reachable@[i]@ == c);
                } else {
                    assert(self.reachable_contains(cid@));
                }
            }
            assert forall|c: CidSpec| #![auto] self.store_has(c) implies (old(self).store_has(c)
                || c == cid@) by {
                let i = choose|i: int| 0 <= i < self.store@.len() && self.store@[i].cid@ == c;
                if i < old(self).store@.len() {
                    assert(old(self).store@[i].cid@ == c);
                }
            }
            assert forall|c: CidSpec| #![auto] (old(self).store_has(c) || c
                == cid@) implies self.store_has(c) by {
                if old(self).store_has(c) {
                    let i = choose|i: int|
                        0 <= i < old(self).store@.len() && old(self).store@[i].cid@ == c;
                    assert(self.store@[i].cid@ == c);
                } else {
                    if in_store {
                        let k = choose|k: int|
                            0 <= k < old(self).store@.len() && old(self).store@[k].cid@ == cid@;
                        assert(self.store@[k].cid@ == cid@);
                    } else {
                        assert(self.store@[old(self).store@.len() as int].cid@ == cid@);
                    }
                }
            }
        }
        Ok(cid)
    }

    /// Reads from the block behind `id` into `buf`, starting at `offset`
    /// within the block. Reading past the end yields a short copy, never
    /// an error; bytes of `buf` beyond the copy keep their old values.
    pub fn block_read(&self, id: u32, offset: u32, buf: &mut Vec<u8>) -> (r: Result<
        u32,
        KernelError,
    >)
        requires
            self.wf(),
        ensures
            !self.valid_handle(id) ==> r == Err::<u32, KernelError>(KernelError::Syscall(
                ErrorNumber::InvalidHandle,
            )) && *final(buf) == *old(buf),
            self.valid_handle(id) ==> {
                let data = self.handle_data(id);
                let n = if offset >= data.len() {
                    0
                } else if data.len() - offset < old(buf)@.len() {
                    data.len() - offset
                } else {
                    old(buf)@.len() as int
                };
                &&& r == Ok::<u32, KernelError>(n as u32)
                &&& final(buf)@.len() == old(buf)@.len()
                &&& forall|i: int|
                    0 <= i < n ==> final(buf)@[i] == data[offset + i]
                &&& forall|i: int| n <= i < old(buf)@.len() ==> final(buf)@[i] == old(buf)@[i]
            },
    {
        if id == 0 || (id as usize) > self.blocks.len() {
            return Err(KernelError::Syscall(ErrorNumber::InvalidHandle));
        }
        let idx: usize = (id - 1) as usize;
        let dlen: usize = self.blocks[idx].data.len();
        let blen: usize = buf.len();
        let n: usize = if (offset as usize) >= dlen {
            0
        } else if dlen - (offset as usize) < blen {
            dlen - (offset as usize)
        } else {
            blen
        };
        let mut i: usize = 0;
        while i < n
            invariant
                i <= n,
                n <= buf@.len(),
                buf@.len() == old(buf)@.len(),
                idx < self.blocks@.len(),
                n == 0 || offset + n <= self.blocks@[idx as int].data@.len(),
                dlen == self.blocks@[idx as int].data@.len(),
                n <= u32::MAX,
                forall|j: int|
                    0 <= j < i ==> buf@[j] == self.blocks@[idx as int].data@[offset + j],
                forall|j: int| i <= j < old(buf)@.len() ==> buf@[j] == old(buf)@[j],
            decreases n - i,
        {
            let b: u8 = self.blocks[idx].data[offset as usize + i];
            buf.set(i, b);
            i = i + 1;
        }
        Ok(n as u32)
    }

    /// Reports the codec and size of the block behind `id`.
    pub fn block_stat(&self, id: u32) -> (r: Result<BlockStat, KernelError>)
        ensures
            !self.valid_handle(id) ==> r == Err::<BlockStat, KernelError>(KernelError::Syscall(
                ErrorNumber::InvalidHandle,
            )),
            self.valid_handle(id) ==> r == Ok::<BlockStat, KernelError>(
                BlockStat {
                    codec: self.handle_codec(id),
                    size: self.handle_data(id).len() as u64,
                },
            ),
    {
        if id == 0 || (id as usize) > self.blocks.len() {
            return Err(KernelError::Syscall(ErrorNumber::InvalidHandle));
        }
        let idx: usize = (id - 1) as usize;
        Ok(BlockStat { codec: self.blocks[idx].codec, size: self.blocks[idx].data.len() as u64 })
    }
}

/// Minting an identifier is deterministic: linking the same bytes under
/// the same codec and hash parameters yields the same identifier, in
/// this invocation or any other.
pub proof fn lemma_block_link_deterministic(
    codec: u64,
    data: Seq<u8>,
    hash_fun: u64,
    first: CidSpec,
    second: CidSpec,
)
    requires
        first == BlockRegistry::link_cid(codec, data, hash_fun),
        second == BlockRegistry::link_cid(codec, data, hash_fun),
    ensures
        first == second,
{
}

} // verus!
