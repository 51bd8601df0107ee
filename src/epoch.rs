use vstd::prelude::*;

use crate::types::MinerError;

verus! {

/// Message recorded when a dataset cannot be built for a new seed.
pub const STALE_SEED_REASON: &'static str = "cannot initialize a new dataset";

/// Lifecycle of an epoch's dataset.
#[derive(Debug, Clone)]
pub enum EpochState {
    /// Registered; its dataset is not built yet.
    Waiting,
    /// Its dataset is being built in the background.
    Loading,
    /// Its dataset is built and waits for the first height of the epoch.
    Loaded,
    /// Its dataset is the one the virtual machines mine with.
    Running,
    /// It was running and a later epoch took over.
    Superseded,
    /// Building its dataset failed, for the reason given.
    Failed(String),
}

/// A height range `(start_height, end_height]` that shares one seed.
#[derive(Debug, Clone)]
pub struct EpochSeed {
    pub start_height: u64,
    pub end_height: u64,
    pub seed: [u8; 32],
    pub state: EpochState,
}

impl EpochSeed {
    /// An epoch in the `Waiting` state.
    pub fn new(start_height: u64, end_height: u64, seed: [u8; 32]) -> (r: EpochSeed)
        ensures
            r == waiting_epoch(start_height, end_height, seed),
    {
        EpochSeed { start_height, end_height, seed, state: EpochState::Waiting }
    }
}

/// An epoch as registered, in the `Waiting` state.
pub open spec fn waiting_epoch(start_height: u64, end_height: u64, seed: [u8; 32]) -> EpochSeed {
    EpochSeed { start_height, end_height, seed, state: EpochState::Waiting }
}

/// Whether the epoch's range `(start, end]` holds `height`.
pub open spec fn covers(e: EpochSeed, height: u64) -> bool {
    e.start_height < height <= e.end_height
}

/// Whether the ranges `(a_start, a_end]` and `(b_start, b_end]` share no height.
pub open spec fn ranges_disjoint(a_start: u64, a_end: u64, b_start: u64, b_end: u64) -> bool {
    let lo = if a_start < b_start {
        b_start
    } else {
        a_start
    };
    let hi = if a_end < b_end {
        a_end
    } else {
        b_end
    };
    lo >= hi
}

/// Whether a dataset is being built, or is built and not yet in use.
pub open spec fn is_busy(st: EpochState) -> bool {
    st is Loading || st is Loaded
}

/// The epoch with its state replaced.
pub open spec fn with_state(e: EpochSeed, st: EpochState) -> EpochSeed {
    EpochSeed { state: st, ..e }
}

/// The invariant of an epoch sequence: at most one epoch loading or loaded,
/// at most one running, pairwise disjoint ranges, pairwise distinct seeds.
pub open spec fn epochs_wf(s: Seq<EpochSeed>) -> bool {
    &&& forall|i: int, j: int|
        0 <= i < s.len() && 0 <= j < s.len() && i != j ==> !(is_busy(s[i].state) && is_busy(
            s[j].state,
        ))
    &&& forall|i: int, j: int|
        0 <= i < s.len() && 0 <= j < s.len() && i != j ==> !(s[i].state is Running
            && s[j].state is Running)
    &&& forall|i: int, j: int|
        0 <= i < s.len() && 0 <= j < s.len() && i != j ==> ranges_disjoint(
            s[i].start_height,
            s[i].end_height,
            s[j].start_height,
            s[j].end_height,
        )
    &&& forall|i: int, j: int| 0 <= i < s.len() && 0 <= j < s.len() && i != j ==> s[i].seed@ != s[j].seed@
}

/// Whether some epoch has this seed.
pub open spec fn has_seed(s: Seq<EpochSeed>, seed: [u8; 32]) -> bool {
    exists|i: int| 0 <= i < s.len() && s[i].seed@ == seed@
}

/// Whether `(start, end]` shares a height with the range of some epoch.
pub open spec fn overlaps_any(s: Seq<EpochSeed>, start: u64, end: u64) -> bool {
    exists|i: int|
        0 <= i < s.len() && !ranges_disjoint(s[i].start_height, s[i].end_height, start, end)
}

/// The epochs after registering `(start, end]` with `seed`: unchanged where
/// the seed is known already or the range overlaps a registered one.
pub open spec fn after_add(s: Seq<EpochSeed>, start: u64, end: u64, seed: [u8; 32]) -> Seq<EpochSeed> {
    if has_seed(s, seed) || overlaps_any(s, start, end) {
        s
    } else {
        s.push(waiting_epoch(start, end, seed))
    }
}

/// Whether `i` is the first epoch whose range holds `height`.
pub open spec fn first_covering(s: Seq<EpochSeed>, height: u64, i: int) -> bool {
    &&& 0 <= i < s.len()
    &&& covers(s[i], height)
    &&& forall|j: int| 0 <= j < i ==> !covers(#[trigger] s[j], height)
}

/// The epochs after epoch `i` starts running: a running one is superseded.
pub open spec fn promoted(s: Seq<EpochSeed>, i: int) -> Seq<EpochSeed> {
    Seq::new(
        s.len(),
        |k: int|
            if k == i {
                with_state(s[k], EpochState::Running)
            } else if s[k].state is Running {
                with_state(s[k], EpochState::Superseded)
            } else {
                s[k]
            },
    )
}

/// Whether `i` is the first waiting epoch whose seed differs from `current`.
pub open spec fn next_to_load(s: Seq<EpochSeed>, current: [u8; 32], i: int) -> bool {
    &&& 0 <= i < s.len()
    &&& s[i].state is Waiting
    &&& s[i].seed@ != current@
    &&& forall|j: int| 0 <= j < i ==> !(#[trigger] s[j].state is Waiting && s[j].seed@ != current@)
}

/// Whether some epoch is loading or loaded.
pub open spec fn any_busy(s: Seq<EpochSeed>) -> bool {
    exists|i: int| 0 <= i < s.len() && is_busy(s[i].state)
}

/// The epoch that holds `height` and comes first, if any.
pub open spec fn swap_target(s: Seq<EpochSeed>, height: u64) -> Option<int> {
    if exists|i: int| first_covering(s, height, i) {
        Some(choose|i: int| first_covering(s, height, i))
    } else {
        None
    }
}

/// The epochs after a swap at `height`: the epoch holding it starts running
/// where its dataset is loaded; otherwise nothing changes.
pub open spec fn epochs_after_swap(s: Seq<EpochSeed>, height: u64) -> Seq<EpochSeed> {
    match swap_target(s, height) {
        Some(i) => if s[i].state is Loaded {
            promoted(s, i)
        } else {
            s
        },
        None => s,
    }
}

/// The current seed after a swap at `height`.
pub open spec fn seed_after_swap(s: Seq<EpochSeed>, current: [u8; 32], height: u64) -> [u8; 32] {
    match swap_target(s, height) {
        Some(i) => if s[i].state is Loaded {
            s[i].seed
        } else {
            current
        },
        None => current,
    }
}

/// The epoch whose dataset is built next, if one is picked: none while an
/// epoch is loading or loaded, else the first waiting one with a new seed.
pub open spec fn load_pick(s: Seq<EpochSeed>, current: [u8; 32]) -> Option<int> {
    if !any_busy(s) && exists|i: int| next_to_load(s, current, i) {
        Some(choose|i: int| next_to_load(s, current, i))
    } else {
        None
    }
}

/// The epochs after the next load is picked.
pub open spec fn epochs_after_pick(s: Seq<EpochSeed>, current: [u8; 32]) -> Seq<EpochSeed> {
    match load_pick(s, current) {
        Some(i) => s.update(i, with_state(s[i], EpochState::Loading)),
        None => s,
    }
}

/// The seed of the picked epoch, if any.
pub open spec fn picked_seed(s: Seq<EpochSeed>, current: [u8; 32]) -> Option<[u8; 32]> {
    match load_pick(s, current) {
        Some(i) => Some(s[i].seed),
        None => None,
    }
}

/// Whether some epoch is loading.
pub open spec fn loading_index(s: Seq<EpochSeed>, i: int) -> bool {
    0 <= i < s.len() && s[i].state is Loading
}

fn same_seed(a: &[u8; 32], b: &[u8; 32]) -> (r: bool)
    ensures
        r == (a@ == b@),
{
    let mut i: usize = 0;
    while i < 32
        invariant
            i <= 32,
            forall|k: int| 0 <= k < i ==> a@[k] == b@[k],
        decreases 32 - i,
    {
        if a[i] != b[i] {
            return false;
        }
        i += 1;
    }
    assert(a@ =~= b@);
    true
}

fn state_is_busy(st: &EpochState) -> (r: bool)
    ensures
        r == is_busy(*st),
{
    match st {
        EpochState::Loading => true,
        EpochState::Loaded => true,
        _ => false,
    }
}

fn state_is_waiting(st: &EpochState) -> (r: bool)
    ensures
        r == st is Waiting,
{
    match st {
        EpochState::Waiting => true,
        _ => false,
    }
}

fn state_is_loading(st: &EpochState) -> (r: bool)
    ensures
        r == st is Loading,
{
    match st {
        EpochState::Loading => true,
        _ => false,
    }
}

fn state_is_running(st: &EpochState) -> (r: bool)
    ensures
        r == st is Running,
{
    match st {
        EpochState::Running => true,
        _ => false,
    }
}

fn copy_with_state(e: &EpochSeed, st: EpochState) -> (r: EpochSeed)
    ensures
        r == with_state(*e, st),
{
    EpochSeed { start_height: e.start_height, end_height: e.end_height, seed: e.seed, state: st }
}

/// The epochs of the RandomX back-end and the seed its virtual machines use.
pub struct EpochManager {
    /// The registered epochs, in order of registration.
    pub epochs: Vec<EpochSeed>,
    /// Seed of the dataset in use.
    pub current_seed: [u8; 32],
}

impl EpochManager {
    pub open spec fn wf(&self) -> bool {
        epochs_wf(self.epochs@)
    }

    /// No epochs; the current seed is all ones, which no real seed matches.
    pub fn new() -> (r: EpochManager)
        ensures
            r.wf(),
            r.epochs@.len() == 0,
            forall|i: int| 0 <= i < 32 ==> r.current_seed@[i] == 0xff,
    {
        EpochManager { epochs: Vec::new(), current_seed: [0xffu8; 32] }
    }

    /// Registers the epoch `(start_height, end_height]` with `seed`. Returns
    /// whether it was added: nothing changes where the seed is registered
    /// already, or where the range overlaps a registered one.
    pub fn add_epoch(&mut self, start_height: u64, end_height: u64, seed: [u8; 32]) -> (added: bool)
        requires
            old(self).wf(),
        ensures
            final(self).wf(),
            final(self).epochs@ == after_add(old(self).epochs@, start_height, end_height, seed),
            final(self).current_seed == old(self).current_seed,
            added == !(has_seed(old(self).epochs@, seed) || overlaps_any(
                old(self).epochs@,
                start_height,
                end_height,
            )),
    {
        let mut i: usize = 0;
        while i < self.epochs.len()
            invariant
                old(self).wf(),
                *self == *old(self),
                i <= self.epochs@.len(),
                forall|k: int| 0 <= k < i ==> (#[trigger] self.epochs@[k]).seed@ != seed@,
                forall|k: int|
                    0 <= k < i ==> ranges_disjoint(
                        (#[trigger] self.epochs@[k]).start_height,
                        self.epochs@[k].end_height,
                        start_height,
                        end_height,
                    ),
            decreases self.epochs@.len() - i,
        {
            let e = &self.epochs[i];
            if same_seed(&e.seed, &seed) {
                return false;
            }
            let lo = if e.start_height < start_height {
                start_height
            } else {
                e.start_height
            };
            let hi = if e.end_height < end_height {
                e.end_height
            } else {
                end_height
            };
            if lo < hi {
                return false;
            }
            i += 1;
        }
        self.epochs.push(EpochSeed::new(start_height, end_height, seed));
        true
    }

    /// Whether a running epoch holds `height`: workers mine only then.
    pub fn has_running_epoch(&self, height: u64) -> (r: bool)
        ensures
            r == exists|i: int|
                0 <= i < self.epochs@.len() && self.epochs@[i].state is Running && covers(
                    self.epochs@[i],
                    height,
                ),
    {
        let mut i: usize = 0;
        while i < self.epochs.len()
            invariant
                i <= self.epochs@.len(),
                forall|k: int|
                    0 <= k < i ==> !((#[trigger] self.epochs@[k]).state is Running && covers(
                        self.epochs@[k],
                        height,
                    )),
            decreases self.epochs@.len() - i,
        {
            let e = &self.epochs[i];
            if state_is_running(&e.state) && e.start_height < height && height <= e.end_height {
                return true;
            }
            i += 1;
        }
        false
    }

    /// Called when the job height changes: where the epoch holding `height`
    /// has its dataset loaded, it starts running, its seed becomes current and
    /// the result is `Ok(true)` (the virtual machines must be rebound). Where
    /// its load failed, the failure is returned. Otherwise nothing changes.
    pub fn swap_dataset(&mut self, height: u64) -> (r: Result<bool, MinerError>)
        requires
            old(self).wf(),
        ensures
            final(self).wf(),
            (forall|i: int| !first_covering(old(self).epochs@, height, i)) ==> r == Ok::<
                bool,
                MinerError,
            >(false) && *final(self) == *old(self),
            forall|i: int|
                first_covering(old(self).epochs@, height, i) ==> {
                    let e = old(self).epochs@[i];
                    match e.state {
                        EpochState::Failed(reason) => r == Err::<bool, MinerError>(
                            MinerError::DatasetFailed(reason),
                        ) && *final(self) == *old(self),
                        EpochState::Loaded => r == Ok::<bool, MinerError>(true)
                            && final(self).epochs@ == promoted(old(self).epochs@, i)
                            && final(self).current_seed == e.seed,
                        _ => r == Ok::<bool, MinerError>(false) && *final(self) == *old(self),
                    }
                },
    {
        let mut i: usize = 0;
        while i < self.epochs.len() && !(self.epochs[i].start_height < height && height
            <= self.epochs[i].end_height)
            invariant
                old(self).wf(),
                *self == *old(self),
                i <= self.epochs@.len(),
                forall|k: int| 0 <= k < i ==> !covers(#[trigger] self.epochs@[k], height),
            decreases self.epochs@.len() - i,
        {
            i += 1;
        }
        if i == self.epochs.len() {
            return Ok(false);
        }
        assert(first_covering(self.epochs@, height, i as int));
        assert forall|k: int| first_covering(self.epochs@, height, k) implies k == i by {
            if k < i {
                assert(!covers(self.epochs@[k], height));
            }
            if k > i {
                assert(!covers(self.epochs@[i as int], height));
            }
        }
        match &self.epochs[i].state {
            EpochState::Failed(reason) => {
                return Err(MinerError::DatasetFailed(reason.clone()));
            },
            EpochState::Loaded => {},
            _ => {
                return Ok(false);
            },
        }
        let ghost before = self.epochs@;
        let seed = self.epochs[i].seed;
        let mut k: usize = 0;
        while k < self.epochs.len()
            invariant
                old(self).wf(),
                before == old(self).epochs@,
                self.current_seed == old(self).current_seed,
                i < before.len(),
                self.epochs@.len() == before.len(),
                k <= before.len(),
                forall|m: int| 0 <= m < k ==> self.epochs@[m] == promoted(before, i as int)[m],
                forall|m: int| k <= m < before.len() ==> self.epochs@[m] == before[m],
            decreases before.len() - k,
        {
            if k == i {
                let ne = copy_with_state(&self.epochs[k], EpochState::Running);
                self.epochs.set(k, ne);
            } else if state_is_running(&self.epochs[k].state) {
                let ne = copy_with_state(&self.epochs[k], EpochState::Superseded);
                self.epochs.set(k, ne);
            }
            k += 1;
        }
        assert(self.epochs@ =~= promoted(before, i as int));
        self.current_seed = seed;
        Ok(true)
    }

    /// Picks the next dataset to build: where no epoch is loading or loaded,
    /// the first waiting epoch whose seed is not the current one becomes
    /// loading and its seed is returned. Otherwise `None`, and nothing changes.
    pub fn start_next_load(&mut self) -> (r: Option<[u8; 32]>)
        requires
            old(self).wf(),
        ensures
            final(self).wf(),
            final(self).current_seed == old(self).current_seed,
            any_busy(old(self).epochs@) ==> r.is_none() && final(self).epochs@ == old(self).epochs@,
            !any_busy(old(self).epochs@) && (forall|i: int|
                !next_to_load(old(self).epochs@, old(self).current_seed, i)) ==> r.is_none()
                && final(self).epochs@ == old(self).epochs@,
            forall|i: int|
                !any_busy(old(self).epochs@) && next_to_load(
                    old(self).epochs@,
                    old(self).current_seed,
                    i,
                ) ==> r == Some(old(self).epochs@[i].seed) && final(self).epochs@ == old(self).epochs@.update(i, with_state(old(self).epochs@[i], EpochState::Loading)),
    {
        let mut i: usize = 0;
        while i < self.epochs.len()
            invariant
                old(self).wf(),
                *self == *old(self),
                i <= self.epochs@.len(),
                forall|k: int| 0 <= k < i ==> !is_busy((#[trigger] self.epochs@[k]).state),
            decreases self.epochs@.len() - i,
        {
            if state_is_busy(&self.epochs[i].state) {
                return None;
            }
            i += 1;
        }
        assert(!any_busy(self.epochs@));
        let mut j: usize = 0;
        while j < self.epochs.len() && !(state_is_waiting(&self.epochs[j].state) && !same_seed(
            &self.epochs[j].seed,
            &self.current_seed,
        ))
            invariant
                old(self).wf(),
                *self == *old(self),
                j <= self.epochs@.len(),
                forall|k: int|
                    0 <= k < j ==> !((#[trigger] self.epochs@[k]).state is Waiting
                        && self.epochs@[k].seed@ != self.current_seed@),
            decreases self.epochs@.len() - j,
        {
            j += 1;
        }
        if j == self.epochs.len() {
            return None;
        }
        let ghost before = self.epochs@;
        assert(next_to_load(before, self.current_seed, j as int));
        assert forall|k: int| next_to_load(before, self.current_seed, k) implies k == j by {
            if k < j {
                assert(!(before[k].state is Waiting && before[k].seed@ != self.current_seed@));
            }
            if k > j {
                assert(!(before[j as int].state is Waiting && before[j as int].seed@
                    != self.current_seed@));
            }
        }
        let seed = self.epochs[j].seed;
        let ne = copy_with_state(&self.epochs[j], EpochState::Loading);
        self.epochs.set(j, ne);
        Some(seed)
    }

    /// Records how building the loading epoch's dataset ended: `Loaded` on
    /// success, `Failed` with the reason otherwise. Nothing changes where no
    /// epoch is loading.
    pub fn finish_load(&mut self, result: Result<(), String>)
        requires
            old(self).wf(),
        ensures
            final(self).wf(),
            final(self).current_seed == old(self).current_seed,
            (forall|i: int| !loading_index(old(self).epochs@, i)) ==> final(self).epochs@ == old(self).epochs@,
            forall|i: int|
                loading_index(old(self).epochs@, i) ==> final(self).epochs@ == old(self).epochs@.update(i, with_state(old(self).epochs@[i], load_state(result))),
    {
        let mut i: usize = 0;
        while i < self.epochs.len() && !state_is_loading(&self.epochs[i].state)
            invariant
                old(self).wf(),
                *self == *old(self),
                i <= self.epochs@.len(),
                forall|k: int| 0 <= k < i ==> !((#[trigger] self.epochs@[k]).state is Loading),
            decreases self.epochs@.len() - i,
        {
            i += 1;
        }
        if i == self.epochs.len() {
            return;
        }
        assert(loading_index(self.epochs@, i as int));
        assert forall|k: int| loading_index(self.epochs@, k) implies k == i by {
            if k < i {
                assert(!(self.epochs@[k].state is Loading));
            }
            if k > i {
                assert(is_busy(self.epochs@[k].state) && is_busy(self.epochs@[i as int].state));
            }
        }
        let st = match result {
            Ok(()) => EpochState::Loaded,
            Err(reason) => EpochState::Failed(reason),
        };
        let ne = copy_with_state(&self.epochs[i], st);
        self.epochs.set(i, ne);
    }
}

/// The state an epoch reaches when building its dataset ends with `result`.
pub open spec fn load_state(result: Result<(), String>) -> EpochState {
    match result {
        Ok(_) => EpochState::Loaded,
        Err(reason) => EpochState::Failed(reason),
    }
}

/// How initialising the RandomX cache for a seed ended.
#[derive(Debug, Clone, Copy, PartialEq, Eq, Structural)]
pub enum CacheInit {
    /// The cache was rebuilt for the new seed.
    Changed,
    /// The cache already held that seed.
    Unchanged,
    /// The cache could not be built.
    Failed,
}

/// The result of a dataset build: the dataset outcome where the cache was
/// rebuilt, [`STALE_SEED_REASON`] otherwise. `dataset` is the outcome of
/// building the dataset, where it was attempted.
pub fn load_result(cache: CacheInit, dataset: Option<Result<(), String>>) -> (r: Result<(), String>)
    ensures
        cache == CacheInit::Changed && dataset.is_some() ==> r == dataset.unwrap(),
        !(cache == CacheInit::Changed && dataset.is_some()) ==> r is Err && r->Err_0@
            == STALE_SEED_REASON@,
{
    match (cache, dataset) {
        (CacheInit::Changed, Some(d)) => d,
        _ => Err(STALE_SEED_REASON.to_owned()),
    }
}

/// Under the invariant that every operation of [`EpochManager`] preserves, at
/// most one epoch is loading, at most one is running, and the ranges
/// `(start, end]` of any two epochs share no height.
pub proof fn lemma_epoch_invariant(s: Seq<EpochSeed>)
    requires
        epochs_wf(s),
    ensures
        forall|i: int, j: int|
            0 <= i < s.len() && 0 <= j < s.len() && s[i].state is Loading && s[j].state is Loading
                ==> i == j,
        forall|i: int, j: int|
            0 <= i < s.len() && 0 <= j < s.len() && s[i].state is Running && s[j].state is Running
                ==> i == j,
        forall|i: int, j: int, h: u64|
            0 <= i < s.len() && 0 <= j < s.len() && covers(s[i], h) && covers(s[j], h) ==> i == j,
{
    assert forall|i: int, j: int, h: u64|
        0 <= i < s.len() && 0 <= j < s.len() && covers(s[i], h) && covers(s[j], h) implies i
        == j by {
        if i != j {
            assert(ranges_disjoint(
                s[i].start_height,
                s[i].end_height,
                s[j].start_height,
                s[j].end_height,
            ));
        }
    }
}

/// Registering the same epoch twice is the same as registering it once.
pub proof fn lemma_add_epoch_idempotent(s: Seq<EpochSeed>, start: u64, end: u64, seed: [u8; 32])
    ensures
        after_add(after_add(s, start, end, seed), start, end, seed) == after_add(
            s,
            start,
            end,
            seed,
        ),
{
    let once = after_add(s, start, end, seed);
    if !(has_seed(s, seed) || overlaps_any(s, start, end)) {
        assert(once[s.len() as int].seed@ == seed@);
        assert(has_seed(once, seed));
    }
}

} // verus!
