//! Consensus-fault detection: deciding, from two block headers and an
//! optional corroborating header, whether they prove that one miner
//! misbehaved. The decision is a pure function of its inputs and of the
//! headers known to be in the current chain.

use vstd::prelude::*;

verus! {

/// A decoded block header, reduced to the fields fault detection reads.
/// A header is identified by its `ticket`; `parent` holds the ticket of
/// the header it was mined on top of.
#[derive(Clone, Copy, PartialEq, Eq, Structural, Debug)]
pub struct HeaderRec {
    pub miner: u64,
    pub epoch: i64,
    pub parent: u64,
    pub ticket: u64,
}

/// The kinds of provable consensus fault.
#[derive(Clone, Copy, PartialEq, Eq, Structural, Debug)]
pub enum ConsensusFaultKind {
    /// Two distinct headers by one miner at the same epoch.
    DoubleForkMining,
    /// Two distinct headers by one miner on the same parent at
    /// different epochs.
    TimeOffsetMining,
    /// A header mined on a sibling of an earlier header by the same
    /// miner, disowning that earlier header.
    ParentGrinding,
}

/// A populated fault descriptor: the offending miner, the epoch of the
/// later header, and the kind of fault proven.
#[derive(Clone, Copy, PartialEq, Eq, Structural, Debug)]
pub struct ConsensusFault {
    pub target: u64,
    pub epoch: i64,
    pub kind: ConsensusFaultKind,
}

/// True when `h` appears in `chain` at or after epoch `earliest`.
pub open spec fn chain_witness(chain: Seq<HeaderRec>, h: HeaderRec, earliest: i64) -> bool {
    exists|i: int| 0 <= i < chain.len() && chain[i] == h && chain[i].epoch >= earliest
}

/// The kind of fault two distinct same-miner headers prove, if any.
/// The corroborating header `extra` is consulted only for parent
/// grinding: it must be a sibling of `h1` by the same miner, with `h2`
/// mined directly on it.
pub open spec fn fault_kind_spec(h1: HeaderRec, h2: HeaderRec, extra: Option<HeaderRec>) -> Option<
    ConsensusFaultKind,
> {
    if h1.epoch == h2.epoch {
        Some(ConsensusFaultKind::DoubleForkMining)
    } else if h1.parent == h2.parent {
        Some(ConsensusFaultKind::TimeOffsetMining)
    } else if extra matches Some(e) && e.miner == h1.miner && e.epoch == h1.epoch && e.parent
        == h1.parent && e.ticket != h1.ticket && h2.parent == e.ticket {
        Some(ConsensusFaultKind::ParentGrinding)
    } else {
        None
    }
}

/// The complete fault decision: no fault unless the same miner signed
/// two distinct headers, the first no later than the second, at least
/// one of them sits in the chain at or after `earliest`, and the pair
/// (with `extra`) exhibits one of the fault patterns.
pub open spec fn fault_spec(
    h1: HeaderRec,
    h2: HeaderRec,
    extra: Option<HeaderRec>,
    chain: Seq<HeaderRec>,
    earliest: i64,
) -> Option<ConsensusFault> {
    if h1 == h2 || h1.miner != h2.miner || h1.epoch > h2.epoch {
        None
    } else if !chain_witness(chain, h1, earliest) && !chain_witness(chain, h2, earliest) {
        None
    } else {
        match fault_kind_spec(h1, h2, extra) {
            None => None,
            Some(kind) => Some(ConsensusFault { target: h1.miner, epoch: h2.epoch, kind }),
        }
    }
}

/// True when `h` appears in `chain` at or after epoch `earliest`.
pub fn in_chain_since(chain: &Vec<HeaderRec>, h: &HeaderRec, earliest: i64) -> (r: bool)
    ensures
        r == chain_witness(chain@, *h, earliest),
{
    let mut i: usize = 0;
    while i < chain.len()
        invariant
            i <= chain@.len(),
            forall|j: int| 0 <= j < i ==> !(chain@[j] == *h && chain@[j].epoch >= earliest),
        decreases chain@.len() - i,
    {
        let c = chain[i];
        if c.miner == h.miner && c.epoch == h.epoch && c.parent == h.parent && c.ticket == h.ticket
            && c.epoch >= earliest {
            assert(chain@[i as int] == *h);
            return true;
        }
        i = i + 1;
    }
    false
}

/// Decides whether `h1` and `h2` (with optional corroboration `extra`)
/// prove a consensus fault, consulting `chain` for the headers known to
/// the current chain at or after `earliest`. Returns no fault — not an
/// error — when the headers do not prove one.
#[verifier::loop_isolation(false)]
pub fn detect_consensus_fault(
    h1: &HeaderRec,
    h2: &HeaderRec,
    extra: Option<&HeaderRec>,
    chain: &Vec<HeaderRec>,
    earliest: i64,
) -> (r: Option<ConsensusFault>)
    ensures
        r == fault_spec(
            *h1,
            *h2,
            match extra {
                Some(e) => Some(*e),
                None => None,
            },
            chain@,
            earliest,
        ),
{
    let ghost extra_spec: Option<HeaderRec> = match extra {
        Some(e) => Some(*e),
        None => None,
    };
    if h1.miner == h2.miner && h1.epoch == h2.epoch && h1.parent == h2.parent && h1.ticket
        == h2.ticket {
        assert(*h1 == *h2);
        return None;
    }
    if h1.miner != h2.miner || h1.epoch > h2.epoch {
        return None;
    }
    if !in_chain_since(chain, h1, earliest) && !in_chain_since(chain, h2, earliest) {
        return None;
    }
    if h1.epoch == h2.epoch {
        return Some(
            ConsensusFault {
                target: h1.miner,
                epoch: h2.epoch,
                kind: ConsensusFaultKind::DoubleForkMining,
            },
        );
    }
    if h1.parent == h2.parent {
        return Some(
            ConsensusFault {
                target: h1.miner,
                epoch: h2.epoch,
                kind: ConsensusFaultKind::TimeOffsetMining,
            },
        );
    }
    match extra {
        Some(e) => {
            if e.miner == h1.miner && e.epoch == h1.epoch && e.parent == h1.parent && e.ticket
                != h1.ticket && h2.parent == e.ticket {
                Some(
                    ConsensusFault {
                        target: h1.miner,
                        epoch: h2.epoch,
                        kind: ConsensusFaultKind::ParentGrinding,
                    },
                )
            } else {
                None
            }
        },
        None => None,
    }
}

/// Headers by two different miners never prove a fault, identical
/// headers never prove a fault, and two distinct same-epoch headers by
/// one miner witnessed in the chain at or after `earliest` always
/// yield a populated double-fork descriptor.
pub proof fn lemma_fault_detection(
    h1: HeaderRec,
    h2: HeaderRec,
    extra: Option<HeaderRec>,
    chain: Seq<HeaderRec>,
    earliest: i64,
)
    ensures
        h1.miner != h2.miner ==> fault_spec(h1, h2, extra, chain, earliest) is None,
        h1 == h2 ==> fault_spec(h1, h2, extra, chain, earliest) is None,
        h1.miner == h2.miner && h1 != h2 && h1.epoch == h2.epoch && (chain_witness(
            chain,
            h1,
            earliest,
        ) || chain_witness(chain, h2, earliest)) ==> fault_spec(h1, h2, extra, chain, earliest)
            == Some(
            ConsensusFault {
                target: h1.miner,
                epoch: h2.epoch,
                kind: ConsensusFaultKind::DoubleForkMining,
            },
        ),
{
}

} // verus!
