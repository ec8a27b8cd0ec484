//! The autotuner: a cache from (device, key) to the index of the fastest
//! candidate, and the decisions around it.
//!
//! The autotuner does not run anything.  A caller asks it what to do for a key,
//! benchmarks the candidates where it is told to, and reports what it measured;
//! the autotuner picks the fastest candidate and remembers it.

use vstd::prelude::*;
use vstd::arithmetic::power2::pow2;

pub mod conv2d;
pub mod transpose2d;

verus! {

/// The largest dimension that is anchored: 2^30.
pub const ANCHOR_LIMIT: usize = 0x4000_0000;

/// A value that anchoring can give: a power of two up to 2^31.
pub open spec fn is_anchor_bucket(value: usize) -> bool {
    exists|exp: nat| exp <= 31 && value == #[trigger] pow2(exp)
}

/// `anchored` can be what anchoring makes of the size `x`: a power of two up
/// to 2^31 that, for a size of at least one, is at least a quarter of the size
/// and at most eight times the size.
pub open spec fn is_anchor_of(x: usize, anchored: usize) -> bool {
    &&& is_anchor_bucket(anchored)
    &&& x >= 1 ==> x <= 4 * anchored && anchored <= 8 * x
}

/// Calls `cubecl::tune::anchor` with no upper limit.  It rounds the base-2
/// logarithm of `x`, taken in single precision, up to a whole number and returns
/// 2 to that power, computed in `u32`.  How precise the logarithm is depends on
/// the platform, so the contract does not say which power of two comes back.
/// It says what holds of every logarithm that is off by less than one: the
/// exponent lies between the true logarithm minus one and plus two, so the
/// power is more than half and less than four times `x` as a single-precision
/// number, which is `x` to within one part in 2^24.  The contract leaves out `x`
/// above 2^30, where the exponent could reach 32 and the power leave `u32`.
#[verifier::external_body]
fn anchor(x: usize) -> (anchored: usize)
    requires
        x <= ANCHOR_LIMIT,
    ensures
        is_anchor_of(x, anchored),
{
    cubecl::tune::anchor(x, None)
}

/// Anchors a dimension to a power of two near it, so that nearby sizes share a
/// key.  Dimensions above [`ANCHOR_LIMIT`] are not anchored.
pub fn anchor_dim(x: usize) -> (anchored: Option<usize>)
    ensures
        x <= ANCHOR_LIMIT ==> anchored is Some && is_anchor_of(x, anchored->0),
        x > ANCHOR_LIMIT ==> anchored is None,
{
    if x <= ANCHOR_LIMIT {
        Some(anchor(x))
    } else {
        None
    }
}

/// The key of a class of problems, one variant for each operation.
#[derive(Clone, Copy, Debug, PartialEq, Eq, Hash)]
pub enum AutotuneKey {
    Conv2d(conv2d::Conv2dAutotuneKey),
    ConvTranspose2d(transpose2d::ConvTranspose2dAutotuneKey),
}

impl AutotuneKey {
    /// Tells whether two keys are the same: the same operation and the same
    /// fields.
    pub fn same(&self, other: &AutotuneKey) -> (b: bool)
        ensures
            b == (*self == *other),
    {
        match (self, other) {
            (AutotuneKey::Conv2d(a), AutotuneKey::Conv2d(b)) => a.same(b),
            (AutotuneKey::ConvTranspose2d(a), AutotuneKey::ConvTranspose2d(b)) => a.same(b),
            _ => false,
        }
    }
}

/// The kernels that compete for a key.
#[derive(Clone, Copy, Debug, PartialEq, Eq, Structural, Hash)]
pub enum ConvKernel {
    /// The direct kernel.
    Direct,
    /// The kernel that goes through a matrix multiplication: im2col for a
    /// convolution, col2im for a transposed one.
    Gemm,
}

/// One remembered decision.
#[derive(Clone, Copy, Debug)]
pub struct TuneEntry {
    pub device: u64,
    pub key: AutotuneKey,
    pub fastest: usize,
}

/// The decisions that a list of entries stands for; a later entry replaces an
/// earlier one for the same device and key.
pub open spec fn decisions(entries: Seq<TuneEntry>) -> Map<(u64, AutotuneKey), usize>
    decreases entries.len(),
{
    if entries.len() == 0 {
        Map::empty()
    } else {
        decisions(entries.drop_last()).insert(
            (entries.last().device, entries.last().key),
            entries.last().fastest,
        )
    }
}

/// The last entry for a device and key, if nothing for them follows it, is
/// their decision.
proof fn lemma_last_match(entries: Seq<TuneEntry>, i: int, device: u64, key: AutotuneKey)
    requires
        0 <= i < entries.len(),
        entries[i].device == device,
        entries[i].key == key,
        forall|j: int| i < j < entries.len() ==> !(entries[j].device == device && entries[j].key == key),
    ensures
        decisions(entries).contains_key((device, key)),
        decisions(entries)[(device, key)] == entries[i].fastest,
    decreases entries.len(),
{
    if i < entries.len() - 1 {
        lemma_last_match(entries.drop_last(), i, device, key);
    }
}

/// Without an entry for a device and key there is no decision for them.
proof fn lemma_no_match(entries: Seq<TuneEntry>, device: u64, key: AutotuneKey)
    requires
        forall|j: int| 0 <= j < entries.len() ==> !(entries[j].device == device && entries[j].key == key),
    ensures
        !decisions(entries).contains_key((device, key)),
    decreases entries.len(),
{
    if entries.len() > 0 {
        lemma_no_match(entries.drop_last(), device, key);
    }
}

/// Changing the last entry for a device and key changes their decision and no
/// other.
proof fn lemma_update_last_match(entries: Seq<TuneEntry>, i: int, fastest: usize)
    requires
        0 <= i < entries.len(),
        forall|j: int|
            i < j < entries.len() ==> !(entries[j].device == entries[i].device && entries[j].key
                == entries[i].key),
    ensures
        decisions(
            entries.update(
                i,
                TuneEntry { device: entries[i].device, key: entries[i].key, fastest },
            ),
        ) == decisions(entries).insert((entries[i].device, entries[i].key), fastest),
    decreases entries.len(),
{
    let entry = TuneEntry { device: entries[i].device, key: entries[i].key, fastest };
    let updated = entries.update(i, entry);
    if i == entries.len() - 1 {
        assert(updated.drop_last() =~= entries.drop_last());
        assert(decisions(updated) =~= decisions(entries).insert(
            (entries[i].device, entries[i].key),
            fastest,
        ));
    } else {
        lemma_update_last_match(entries.drop_last(), i, fastest);
        assert(updated.drop_last() =~= entries.drop_last().update(i, entry));
        assert(updated.last() == entries.last());
        assert(decisions(updated) =~= decisions(entries).insert(
            (entries[i].device, entries[i].key),
            fastest,
        ));
    }
}

/// What the autotuner tells a caller to do for a key.
#[derive(Clone, Copy, Debug, PartialEq, Eq, Structural, Hash)]
pub enum TuneDecision {
    /// Run the candidate with this index; nothing is to be measured.
    Replay { fastest: usize },
    /// Measure every candidate and report the outcomes.
    Benchmark,
}

/// Why tuning did not give a candidate.
#[derive(Clone, Copy, Debug, PartialEq, Eq, Structural, Hash)]
pub enum TuneError {
    /// There was no candidate to measure.
    NoCandidates,
    /// Every candidate failed; the error to report is that of the candidate
    /// with index `last`, the last one tried.
    AllCandidatesFailed { last: usize },
}

/// The decision for a key, given the remembered decisions and the number of
/// candidates of the current build.  A remembered index that names no candidate
/// counts as not remembered.
pub open spec fn spec_decide(
    cache: Map<(u64, AutotuneKey), usize>,
    device: u64,
    key: AutotuneKey,
    candidates: usize,
) -> TuneDecision {
    if cache.contains_key((device, key)) && cache[(device, key)] < candidates {
        TuneDecision::Replay { fastest: cache[(device, key)] }
    } else {
        TuneDecision::Benchmark
    }
}

/// Candidate `i` succeeded, no candidate that succeeded was faster, and none
/// before it was as fast.  An outcome is the median time of a candidate, or
/// `None` where the candidate failed.
pub open spec fn is_fastest(outcomes: Seq<Option<u64>>, i: int) -> bool {
    &&& 0 <= i < outcomes.len()
    &&& outcomes[i] is Some
    &&& forall|j: int|
        0 <= j < outcomes.len() && outcomes[j] is Some ==> outcomes[i]->0 <= (#[trigger] outcomes[j])->0
    &&& forall|j: int| 0 <= j < i && outcomes[j] is Some ==> outcomes[i]->0 < (#[trigger] outcomes[j])->0
}

/// Every candidate failed.
pub open spec fn all_failed(outcomes: Seq<Option<u64>>) -> bool {
    forall|j: int| 0 <= j < outcomes.len() ==> (#[trigger] outcomes[j]) is None
}

/// At most one candidate is the fastest.
pub proof fn lemma_fastest_is_unique(outcomes: Seq<Option<u64>>, i: int, j: int)
    requires
        is_fastest(outcomes, i),
        is_fastest(outcomes, j),
    ensures
        i == j,
{
    if i < j {
        assert(outcomes[j]->0 < outcomes[i]->0);
        assert(outcomes[i]->0 <= outcomes[j]->0);
    } else if j < i {
        assert(outcomes[i]->0 < outcomes[j]->0);
        assert(outcomes[j]->0 <= outcomes[i]->0);
    }
}

/// The index of the fastest candidate that succeeded: the first of those with
/// the least median time.  `None` where every candidate failed.
pub fn select_fastest(outcomes: &Vec<Option<u64>>) -> (fastest: Option<usize>)
    ensures
        fastest matches Some(i) ==> is_fastest(outcomes@, i as int),
        fastest is None <==> all_failed(outcomes@),
{
    let mut best: Option<usize> = None;
    let mut best_time: u64 = 0;
    let mut k: usize = 0;
    while k < outcomes.len()
        invariant
            k <= outcomes@.len(),
            best matches Some(i) ==> {
                &&& i < k
                &&& outcomes@[i as int] == Some(best_time)
                &&& forall|j: int|
                    0 <= j < k && outcomes@[j] is Some ==> best_time <= (#[trigger] outcomes@[j])->0
                &&& forall|j: int|
                    0 <= j < i && outcomes@[j] is Some ==> best_time < (#[trigger] outcomes@[j])->0
            },
            best is None ==> forall|j: int| 0 <= j < k ==> (#[trigger] outcomes@[j]) is None,
        decreases outcomes@.len() - k,
    {
        match outcomes[k] {
            Some(time) => {
                if best.is_none() || time < best_time {
                    best = Some(k);
                    best_time = time;
                }
            },
            None => {},
        }
        k += 1;
    }
    proof {
        if best is Some {
            assert(outcomes@[best->0 as int] is Some);
        }
    }
    best
}

/// The cache of the autotuner.
pub struct Autotuner {
    entries: Vec<TuneEntry>,
}

impl View for Autotuner {
    type V = Map<(u64, AutotuneKey), usize>;

    /// The remembered decisions: for a device and a key, the index of the
    /// fastest candidate.
    closed spec fn view(&self) -> Map<(u64, AutotuneKey), usize> {
        decisions(self.entries@)
    }
}

impl Autotuner {
    /// An autotuner that remembers nothing yet.
    pub fn new() -> (tuner: Self)
        ensures
            tuner@ == Map::<(u64, AutotuneKey), usize>::empty(),
    {
        Autotuner { entries: Vec::new() }
    }

    /// Position of the last entry for a device and key.
    fn position(&self, device: u64, key: &AutotuneKey) -> (found: Option<usize>)
        ensures
            found matches Some(i) ==> i < self.entries@.len() && self.entries@[i as int].device
                == device && self.entries@[i as int].key == *key && self@.contains_key(
                (device, *key),
            ) && self@[(device, *key)] == self.entries@[i as int].fastest && forall|j: int|
                i < j < self.entries@.len() ==> !(self.entries@[j].device == device
                    && self.entries@[j].key == *key),
            found is None ==> !self@.contains_key((device, *key)),
    {
        let mut i: usize = self.entries.len();
        while i > 0
            invariant
                i <= self.entries@.len(),
                forall|j: int|
                    i <= j < self.entries@.len() ==> !(self.entries@[j].device == device
                        && self.entries@[j].key == *key),
            decreases i,
        {
            i -= 1;
            if self.entries[i].device == device && self.entries[i].key.same(key) {
                proof {
                    lemma_last_match(self.entries@, i as int, device, *key);
                }
                return Some(i);
            }
        }
        proof {
            lemma_no_match(self.entries@, device, *key);
        }
        None
    }

    /// The remembered decision for a device and a key.
    pub fn fastest(&self, device: u64, key: &AutotuneKey) -> (fastest: Option<usize>)
        ensures
            self@.contains_key((device, *key)) ==> fastest == Some(self@[(device, *key)]),
            !self@.contains_key((device, *key)) ==> fastest is None,
    {
        match self.position(device, key) {
            Some(i) => Some(self.entries[i].fastest),
            None => None,
        }
    }

    /// Remembers a decision; it replaces an earlier one for the same device and
    /// key.
    pub fn register(&mut self, device: u64, key: &AutotuneKey, fastest: usize)
        ensures
            final(self)@ == old(self)@.insert((device, *key), fastest),
    {
        let entry = TuneEntry { device, key: *key, fastest };
        match self.position(device, key) {
            Some(i) => {
                proof {
                    lemma_update_last_match(self.entries@, i as int, fastest);
                }
                self.entries.set(i, entry);
            },
            None => {
                proof {
                    assert(self.entries@.push(entry).drop_last() =~= self.entries@);
                }
                self.entries.push(entry);
            },
        }
    }

    /// What to do for a key when there are `candidates` candidates: replay the
    /// remembered candidate, or benchmark where none is remembered or the
    /// remembered index names no candidate.
    pub fn decide(&self, device: u64, key: &AutotuneKey, candidates: usize) -> (decision:
        TuneDecision)
        ensures
            decision == spec_decide(self@, device, *key, candidates),
    {
        match self.fastest(device, key) {
            Some(fastest) => {
                if fastest < candidates {
                    TuneDecision::Replay { fastest }
                } else {
                    TuneDecision::Benchmark
                }
            },
            None => TuneDecision::Benchmark,
        }
    }

    /// Takes the outcomes of a benchmark, one for each candidate in order: the
    /// median time of the candidate, or `None` where it failed.  The fastest
    /// candidate that succeeded is remembered for the key and returned.  Where no
    /// candidate succeeded nothing is remembered and nothing that was
    /// remembered is lost.
    pub fn conclude(&mut self, device: u64, key: &AutotuneKey, outcomes: &Vec<Option<u64>>) -> (r:
        Result<usize, TuneError>)
        ensures
            match r {
                Ok(i) => is_fastest(outcomes@, i as int) && final(self)@ == old(self)@.insert(
                    (device, *key),
                    i,
                ),
                Err(TuneError::NoCandidates) => outcomes@.len() == 0 && final(self)@ == old(self)@,
                Err(TuneError::AllCandidatesFailed { last }) => outcomes@.len() > 0 && last
                    == outcomes@.len() - 1 && all_failed(outcomes@) && final(self)@ == old(self)@,
            },
    {
        match select_fastest(outcomes) {
            Some(i) => {
                self.register(device, key, i);
                Ok(i)
            },
            None => {
                if outcomes.len() == 0 {
                    Err(TuneError::NoCandidates)
                } else {
                    Err(TuneError::AllCandidatesFailed { last: outcomes.len() - 1 })
                }
            },
        }
    }
}

/// Tuning is done once: after the outcomes of a benchmark with a success have
/// been taken, the decision for the same device and key, with as many candidates
/// as were measured, is to replay the fastest of them.
pub proof fn lemma_tuned_key_replays(
    cache: Map<(u64, AutotuneKey), usize>,
    device: u64,
    key: AutotuneKey,
    outcomes: Seq<Option<u64>>,
    fastest: usize,
)
    requires
        is_fastest(outcomes, fastest as int),
        outcomes.len() <= usize::MAX,
    ensures
        spec_decide(cache.insert((device, key), fastest), device, key, outcomes.len() as usize)
            == (TuneDecision::Replay { fastest }),
{
}

/// A decision belongs to one device and one key: two calls share it exactly if
/// they run on the same device and their keys are equal, and remembering a
/// decision changes nothing for any other device or key.
pub proof fn lemma_decision_is_per_key(
    cache: Map<(u64, AutotuneKey), usize>,
    device: u64,
    key: AutotuneKey,
    fastest: usize,
    other_device: u64,
    other_key: AutotuneKey,
    candidates: usize,
)
    ensures
        device == other_device && key == other_key ==> spec_decide(
            cache.insert((device, key), fastest),
            other_device,
            other_key,
            candidates,
        ) == spec_decide(cache.insert((device, key), fastest), device, key, candidates),
        !(device == other_device && key == other_key) ==> spec_decide(
            cache.insert((device, key), fastest),
            other_device,
            other_key,
            candidates,
        ) == spec_decide(cache, other_device, other_key, candidates),
{
}

} // verus!
