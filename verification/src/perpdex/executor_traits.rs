//! Read sets, write sets and the executor interface of the parallel framework.
use vstd::prelude::*;

use super::state_traits::{PartitionId, StateLocation, StateValue};

verus! {

/// Index of a transaction in its block.
pub type TxIdx = usize;

/// Incarnation (re-execution count) of a transaction.
pub type TxIncarnation = usize;

/// A transaction index with its incarnation.
#[derive(Clone, Copy, Debug, PartialEq, Eq, Structural)]
pub struct TxVersion {
    pub tx_idx: TxIdx,
    pub tx_incarnation: TxIncarnation,
}

/// Where a read value came from.
#[derive(Clone, Copy, Debug, PartialEq, Eq, Structural)]
pub enum ReadOrigin {
    /// Written by a transaction version into multi-version memory.
    MvMemory(TxVersion),
    /// Read from storage.
    Storage,
}

/// The read origins of each location hash, held in a `hashbrown::HashMap` of
/// `smallvec::SmallVec`s.
#[verifier::external_body]
#[derive(Debug)]
pub struct OriginBuckets {
    map: hashbrown::HashMap<u64, smallvec::SmallVec<[ReadOrigin; 1]>>,
}

/// The origins that an `OriginBuckets` holds under each hash.
pub uninterp spec fn origin_buckets(b: OriginBuckets) -> Map<u64, Seq<ReadOrigin>>;

/// An empty `hashbrown::HashMap` (`HashMap::default`).
#[verifier::external_body]
fn buckets_new() -> (r: OriginBuckets)
    ensures
        origin_buckets(r).dom().is_empty(),
{
    OriginBuckets { map: hashbrown::HashMap::default() }
}

/// Appends `origin` to the bucket of `hash`, creating an empty bucket first
/// where there is none (`HashMap::entry`, `Entry::or_default`, `SmallVec::push`).
#[verifier::external_body]
fn buckets_push(b: &mut OriginBuckets, hash: u64, origin: ReadOrigin)
    ensures
        origin_buckets(*final(b)) == origin_buckets(*old(b)).insert(
            hash,
            if origin_buckets(*old(b)).contains_key(hash) {
                origin_buckets(*old(b))[hash].push(origin)
            } else {
                seq![origin]
            },
        ),
{
    b.map.entry(hash).or_default().push(origin);
}

/// A copy of the map (`Clone` of `hashbrown::HashMap`, which clones each
/// `SmallVec` of origins): the same origins under the same hashes.
#[verifier::external_body]
fn buckets_clone(b: &OriginBuckets) -> (r: OriginBuckets)
    ensures
        origin_buckets(r) == origin_buckets(*b),
{
    OriginBuckets { map: b.map.clone() }
}

impl Clone for OriginBuckets {
    /// The same origins under the same hashes.
    fn clone(&self) -> (r: OriginBuckets)
        ensures
            origin_buckets(r) == origin_buckets(*self),
    {
        buckets_clone(self)
    }
}

/// Whether the map holds no bucket (`HashMap::is_empty`).
#[verifier::external_body]
fn buckets_is_empty(b: &OriginBuckets) -> (r: bool)
    ensures
        r == (origin_buckets(*b) == Map::<u64, Seq<ReadOrigin>>::empty()),
{
    b.map.is_empty()
}

/// The reads of a transaction.
#[derive(Clone)]
pub struct ReadSet<L> {
    data: OriginBuckets,
    locations: Vec<L>,
    reads: Ghost<Seq<(L, ReadOrigin)>>,
}

impl<L: StateLocation> ReadSet<L> {
    /// The origins recorded under each location hash.
    pub closed spec fn origins(&self) -> Map<u64, Seq<ReadOrigin>> {
        origin_buckets(self.data)
    }

    /// The locations read, one for each hash, in the order first read.
    pub closed spec fn locations(&self) -> Seq<L> {
        self.locations@
    }

    /// Every read recorded, with its origin, in order.
    pub closed spec fn reads(&self) -> Seq<(L, ReadOrigin)> {
        self.reads@
    }

    /// The origins hold a bucket exactly where some read was recorded.
    pub open spec fn wf(&self) -> bool {
        (self.reads().len() == 0) == (self.origins() == Map::<u64, Seq<ReadOrigin>>::empty())
    }

    /// An empty read set.
    pub fn new() -> (r: ReadSet<L>)
        ensures
            r.origins() == Map::<u64, Seq<ReadOrigin>>::empty(),
            r.locations() == Seq::<L>::empty(),
            r.reads() == Seq::<(L, ReadOrigin)>::empty(),
            r.wf(),
    {
        let r = ReadSet { data: buckets_new(), locations: Vec::new(), reads: Ghost(Seq::empty()) };
        assert(r.origins() =~= Map::<u64, Seq<ReadOrigin>>::empty());
        r
    }

    /// Records a read of `location` from `origin` under the location's hash;
    /// the location is listed unless a listed location has the same hash.
    pub fn insert(&mut self, location: L, origin: ReadOrigin)
        ensures
            exists|hash: u64|
                {
                    &&& PartitionId::spec_from_hash(hash) == location.spec_partition_id()
                    &&& final(self).origins() == old(self).origins().insert(
                        hash,
                        if old(self).origins().contains_key(hash) {
                            old(self).origins()[hash].push(origin)
                        } else {
                            seq![origin]
                        },
                    )
                },
            final(self).locations() == old(self).locations() || final(self).locations()
                == old(self).locations().push(location),
            final(self).reads() == old(self).reads().push((location, origin)),
            final(self).wf(),
    {
        proof {
            self.reads@ = self.reads@.push((location, origin));
        }
        let hash = location.location_hash();
        buckets_push(&mut self.data, hash, origin);
        assert(self.origins().contains_key(hash));
        let mut seen = false;
        let mut i: usize = 0;
        while i < self.locations.len()
            invariant
                i <= self.locations@.len(),
            decreases self.locations@.len() - i,
        {
            if self.locations[i].location_hash() == hash {
                seen = true;
            }
            i = i + 1;
        }
        if !seen {
            self.locations.push(location);
        }
    }

    /// Whether nothing was read.
    pub fn is_empty(&self) -> (r: bool)
        ensures
            r == (self.origins() == Map::<u64, Seq<ReadOrigin>>::empty()),
            self.wf() ==> (r == (self.reads().len() == 0)),
    {
        buckets_is_empty(&self.data)
    }
}

impl<L: StateLocation> Default for ReadSet<L> {
    /// An empty read set.
    fn default() -> (r: ReadSet<L>)
        ensures
            r.origins() == Map::<u64, Seq<ReadOrigin>>::empty(),
            r.locations() == Seq::<L>::empty(),
            r.reads() == Seq::<(L, ReadOrigin)>::empty(),
            r.wf(),
    {
        ReadSet::new()
    }
}

/// The writes of a transaction: (location hash, location, value), in order.
#[derive(Clone, Debug)]
pub struct WriteSet<L, V> {
    data: Vec<(u64, L, V)>,
}

impl<L: StateLocation, V: StateValue> WriteSet<L, V> {
    /// The (hash, location, value) entries, in order of writing.
    pub closed spec fn entries(&self) -> Seq<(u64, L, V)> {
        self.data@
    }

    /// The (location, value) pairs, in order of writing.
    pub open spec fn writes(&self) -> Seq<(L, V)> {
        self.entries().map_values(|e: (u64, L, V)| (e.1, e.2))
    }

    /// Every hash carries the partition of its location.
    pub open spec fn hashes_partitioned(&self) -> bool {
        forall|i: int|
            0 <= i < self.entries().len() ==> PartitionId::spec_from_hash(#[trigger] self.entries()[i].0)
                == self.entries()[i].1.spec_partition_id()
    }

    /// An empty write set.
    pub fn new() -> (r: WriteSet<L, V>)
        ensures
            r.entries() == Seq::<(u64, L, V)>::empty(),
            r.writes() == Seq::<(L, V)>::empty(),
            r.hashes_partitioned(),
    {
        let r = WriteSet { data: Vec::new() };
        assert(r.writes() =~= Seq::<(L, V)>::empty());
        r
    }

    /// Records a write of `value` at `location`, under the location's hash.
    pub fn push(&mut self, location: L, value: V)
        ensures
            final(self).entries().len() == old(self).entries().len() + 1,
            final(self).entries().drop_last() == old(self).entries(),
            final(self).entries().last().1 == location,
            final(self).entries().last().2 == value,
            PartitionId::spec_from_hash(final(self).entries().last().0) == location.spec_partition_id(),
            final(self).writes() == old(self).writes().push((location, value)),
            old(self).hashes_partitioned() ==> final(self).hashes_partitioned(),
    {
        let hash = location.location_hash();
        self.data.push((hash, location, value));
        assert(self.data@.drop_last() =~= old(self).data@);
        assert(self.writes() =~= old(self).writes().push((location, value)));
    }

    /// The entries, in order of writing.
    pub fn iter(&self) -> (r: &[(u64, L, V)])
        ensures
            r@ == self.entries(),
    {
        self.data.as_slice()
    }
}

impl<L: StateLocation, V: StateValue> Default for WriteSet<L, V> {
    /// An empty write set.
    fn default() -> (r: WriteSet<L, V>)
        ensures
            r.entries() == Seq::<(u64, L, V)>::empty(),
    {
        WriteSet::new()
    }
}

/// Flags that say what validation a finished execution needs.
#[derive(Clone, Copy, Debug, PartialEq, Eq, Structural)]
pub struct FinishExecFlags {
    bits: u8,
}

impl FinishExecFlags {
    /// The raw bits.
    pub closed spec fn spec_bits(&self) -> u8 {
        self.bits
    }

    /// No flag set.
    pub fn empty() -> (r: FinishExecFlags)
        ensures
            r.spec_bits() == 0,
    {
        FinishExecFlags { bits: 0 }
    }

    /// `NeedValidation`, whose bits are 0.
    pub fn need_validation() -> (r: FinishExecFlags)
        ensures
            r.spec_bits() == 0,
    {
        FinishExecFlags { bits: 0 }
    }

    /// `WroteNewLocation`, bit 1.
    pub fn wrote_new_location() -> (r: FinishExecFlags)
        ensures
            r.spec_bits() == 1,
    {
        FinishExecFlags { bits: 1 }
    }

    /// The raw bits.
    pub fn bits(&self) -> (r: u8)
        ensures
            r == self.spec_bits(),
    {
        self.bits
    }
}

/// Multi-version memory (a placeholder: nothing is read from it yet).
#[derive(Debug)]
pub struct MvMemory;

/// Outcome of executing a transaction in a VM.
pub enum VmExecutionResult<L, V, R, E> {
    /// Executed: the reads, the writes, the VM's result and the flags.
    Success { read_set: ReadSet<L>, write_set: WriteSet<L, V>, result: R, flags: FinishExecFlags },
    /// Blocked on an earlier, unfinished transaction.
    Blocked(TxIdx),
    /// To be retried at once.
    Retry,
    /// Parallel execution is not possible; execute sequentially.
    FallbackToSequential,
    /// Execution failed.
    Error(E),
}

/// A VM that takes part in parallel execution.
pub trait VmExecutor: Sized {
    /// State location type.
    type Location: StateLocation;

    /// State value type.
    type Value: StateValue;

    /// Transaction format.
    type Transaction;

    /// Execution result format.
    type Result;

    /// Execution error.
    type Error;

    /// Storage backend.
    type Storage;

    /// The inputs on which `execute` runs without panicking.
    spec fn can_execute(&self, tx: &Self::Transaction) -> bool;

    /// Executes a transaction at the given version.
    fn execute(
        &mut self,
        tx_version: &TxVersion,
        tx: &Self::Transaction,
        storage: &Self::Storage,
        mv_memory: &MvMemory,
    ) -> VmExecutionResult<Self::Location, Self::Value, Self::Result, Self::Error>
        requires
            old(self).can_execute(tx),
    ;

    /// Locations that the transaction updates lazily; none by default.
    fn get_lazy_locations(&self, tx: &Self::Transaction) -> (r: Vec<Self::Location>)
        default_ensures
            r@ == Seq::<Self::Location>::empty(),
    {
        Vec::new()
    }
}

} // verus!
