use vstd::prelude::*;

use crate::epoch::{
    epochs_after_pick, epochs_after_swap, first_covering, load_pick, next_to_load, picked_seed,
    seed_after_swap, swap_target, EpochManager,
};
use crate::types::{installed, JobSharedData, MinerError};

verus! {

/// What a miner does around a job installation, beyond the shared state.
#[derive(Debug, Clone, Copy)]
pub struct NotifyPlan {
    /// The height changed: pause every worker before the new job is seen and
    /// resume them afterwards.
    pub height_changed: bool,
    /// The virtual machines must be rebound to the dataset that now runs.
    pub update_vms: bool,
    /// Seed of a dataset to build in the background, if one was picked.
    pub load_seed: Option<[u8; 32]>,
}

/// Installs a job for a back-end without epochs. Workers are paused and
/// resumed only where the height changed.
pub fn notify(
    shared: &mut JobSharedData,
    job_id: u32,
    height: u64,
    pre_nonce: &str,
    post_nonce: &str,
    difficulty: u64,
) -> (plan: NotifyPlan)
    ensures
        installed(
            *old(shared),
            *final(shared),
            job_id,
            height,
            pre_nonce@,
            post_nonce@,
            difficulty,
            plan.height_changed,
        ),
        !plan.update_vms,
        plan.load_seed.is_none(),
{
    let changed = shared.install_job(job_id, height, pre_nonce, post_nonce, difficulty);
    NotifyPlan { height_changed: changed, update_vms: false, load_seed: None }
}

/// Installs a job for the RandomX back-end. On a job change the epoch holding
/// the new height takes over where its dataset is loaded, then the next
/// dataset to build is picked. A failed dataset for the new height is an error.
/// With an unchanged height the epochs are untouched and no worker is paused.
pub fn rx_notify(
    shared: &mut JobSharedData,
    epochs: &mut EpochManager,
    job_id: u32,
    height: u64,
    pre_nonce: &str,
    post_nonce: &str,
    difficulty: u64,
) -> (r: Result<NotifyPlan, MinerError>)
    requires
        old(epochs).wf(),
    ensures
        final(epochs).wf(),
        installed(
            *old(shared),
            *final(shared),
            job_id,
            height,
            pre_nonce@,
            post_nonce@,
            difficulty,
            old(shared).height != height,
        ),
        old(shared).height == height ==> {
            &&& *final(epochs) == *old(epochs)
            &&& r is Ok
            &&& !r->Ok_0.height_changed
            &&& !r->Ok_0.update_vms
            &&& r->Ok_0.load_seed.is_none()
        },
        old(shared).height != height ==> (r is Err <==> exists|i: int|
            first_covering(old(epochs).epochs@, height, i) && old(epochs).epochs@[i].state is Failed),
        r is Ok && old(shared).height != height ==> {
            &&& r->Ok_0.height_changed
            &&& r->Ok_0.update_vms <==> exists|i: int|
                first_covering(old(epochs).epochs@, height, i)
                    && old(epochs).epochs@[i].state is Loaded
        },
        r is Err ==> old(shared).height != height,
        r is Ok && old(shared).height != height ==> {
            let swapped = epochs_after_swap(old(epochs).epochs@, height);
            let seed = seed_after_swap(old(epochs).epochs@, old(epochs).current_seed, height);
            &&& final(epochs).current_seed == seed
            &&& final(epochs).epochs@ == epochs_after_pick(swapped, seed)
            &&& r->Ok_0.load_seed == picked_seed(swapped, seed)
        },
{
    let changed = shared.install_job(job_id, height, pre_nonce, post_nonce, difficulty);
    if !changed {
        return Ok(NotifyPlan { height_changed: false, update_vms: false, load_seed: None });
    }
    let update_vms = match epochs.swap_dataset(height) {
        Ok(u) => u,
        Err(e) => {
            return Err(e);
        },
    };
    proof {
        let s0 = old(epochs).epochs@;
        if exists|i: int| first_covering(s0, height, i) {
            let i = choose|i: int| first_covering(s0, height, i);
            assert(swap_target(s0, height) == Some(i));
        } else {
            assert(swap_target(s0, height).is_none());
        }
        assert(epochs.epochs@ == epochs_after_swap(s0, height));
        assert(epochs.current_seed == seed_after_swap(s0, old(epochs).current_seed, height));
    }
    let ghost mid = epochs.epochs@;
    let load_seed = epochs.start_next_load();
    proof {
        if let Some(i) = load_pick(mid, epochs.current_seed) {
            assert(next_to_load(mid, epochs.current_seed, i));
        }
        assert(epochs.epochs@ == epochs_after_pick(mid, epochs.current_seed));
        assert(load_seed == picked_seed(mid, epochs.current_seed));
    }
    Ok(NotifyPlan { height_changed: true, update_vms, load_seed })
}

} // verus!
