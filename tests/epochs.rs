use epic_miner::epoch::{load_result, CacheInit, EpochManager, EpochSeed, EpochState};
use epic_miner::miner::rx_notify;
use epic_miner::types::{JobSharedData, MinerError};

const SEED_A: [u8; 32] = [0xa; 32];
const SEED_B: [u8; 32] = [0xb; 32];

fn state_of(m: &EpochManager, seed: [u8; 32]) -> EpochState {
    m.epochs.iter().find(|e| e.seed == seed).unwrap().state.clone()
}

fn is_state(st: EpochState, name: &str) -> bool {
    let n = match st {
        EpochState::Waiting => "Waiting",
        EpochState::Loading => "Loading",
        EpochState::Loaded => "Loaded",
        EpochState::Running => "Running",
        EpochState::Superseded => "Superseded",
        EpochState::Failed(_) => "Failed",
    };
    n == name
}

#[test]
fn new_epoch_is_waiting() {
    let e = EpochSeed::new(1, 2, SEED_A);
    assert_eq!((e.start_height, e.end_height, e.seed), (1, 2, SEED_A));
    assert!(is_state(e.state, "Waiting"));
}

#[test]
fn add_epoch_idempotent_by_seed() {
    let mut m = EpochManager::new();
    assert!(m.add_epoch(0, 1000, SEED_A));
    assert!(!m.add_epoch(0, 1000, SEED_A));
    assert!(!m.add_epoch(5000, 6000, SEED_A));
    assert_eq!(m.epochs.len(), 1);
}

#[test]
fn add_epoch_rejects_overlap_but_allows_adjacent() {
    let mut m = EpochManager::new();
    assert!(m.add_epoch(0, 1000, SEED_A));
    assert!(!m.add_epoch(999, 2000, SEED_B));
    assert!(m.add_epoch(1000, 2000, SEED_B));
    assert_eq!(m.epochs.len(), 2);
}

#[test]
fn only_one_load_at_a_time() {
    let mut m = EpochManager::new();
    m.add_epoch(0, 1000, SEED_A);
    m.add_epoch(1000, 2000, SEED_B);
    assert_eq!(m.start_next_load(), Some(SEED_A));
    assert_eq!(m.start_next_load(), None);
    m.finish_load(Ok(()));
    assert!(is_state(state_of(&m, SEED_A), "Loaded"));
    assert_eq!(m.start_next_load(), None);
}

#[test]
fn nothing_to_load_when_quiescent() {
    let mut m = EpochManager::new();
    assert_eq!(m.start_next_load(), None);
    m.finish_load(Ok(()));
    assert!(m.epochs.is_empty());
}

#[test]
fn dataset_precompute_and_swap() {
    let mut m = EpochManager::new();
    let mut d = JobSharedData::new(1);
    m.add_epoch(0, 1000, SEED_A);
    m.add_epoch(1000, 2000, SEED_B);
    assert_eq!(m.start_next_load(), Some(SEED_A));
    m.finish_load(Ok(()));

    let plan = rx_notify(&mut d, &mut m, 1, 500, "00", "", 1).ok().unwrap();
    assert!(plan.height_changed);
    assert!(plan.update_vms);
    assert_eq!(plan.load_seed, Some(SEED_B));
    assert!(is_state(state_of(&m, SEED_A), "Running"));
    assert!(is_state(state_of(&m, SEED_B), "Loading"));
    assert_eq!(m.current_seed, SEED_A);
    assert!(m.has_running_epoch(500));
    assert!(!m.has_running_epoch(1001));

    m.finish_load(Ok(()));
    assert!(is_state(state_of(&m, SEED_B), "Loaded"));

    let plan = rx_notify(&mut d, &mut m, 2, 1001, "00", "", 1).ok().unwrap();
    assert!(plan.update_vms);
    assert_eq!(plan.load_seed, None);
    assert!(is_state(state_of(&m, SEED_B), "Running"));
    assert!(is_state(state_of(&m, SEED_A), "Superseded"));
    assert_eq!(m.current_seed, SEED_B);
    assert!(m.has_running_epoch(1001));
}

#[test]
fn same_height_leaves_epochs_alone() {
    let mut m = EpochManager::new();
    let mut d = JobSharedData::new(1);
    m.add_epoch(0, 1000, SEED_A);
    let first = rx_notify(&mut d, &mut m, 1, 500, "00", "", 1).ok().unwrap();
    assert!(first.height_changed);
    assert_eq!(first.load_seed, Some(SEED_A));
    let second = rx_notify(&mut d, &mut m, 1, 500, "00", "", 1).ok().unwrap();
    assert!(!second.height_changed);
    assert!(!second.update_vms);
    assert_eq!(second.load_seed, None);
    assert!(is_state(state_of(&m, SEED_A), "Loading"));
}

#[test]
fn failed_dataset_is_fatal_at_its_heights() {
    let mut m = EpochManager::new();
    let mut d = JobSharedData::new(1);
    m.add_epoch(0, 1000, SEED_A);
    m.start_next_load();
    m.finish_load(Err("boom".to_string()));
    assert!(is_state(state_of(&m, SEED_A), "Failed"));
    match rx_notify(&mut d, &mut m, 1, 10, "00", "", 1) {
        Err(MinerError::DatasetFailed(r)) => assert_eq!(r, "boom"),
        _ => panic!("expected a dataset failure"),
    }
    assert!(rx_notify(&mut d, &mut m, 1, 2000, "00", "", 1).is_ok());
}

#[test]
fn load_result_cases() {
    assert_eq!(load_result(CacheInit::Changed, Some(Ok(()))), Ok(()));
    assert_eq!(
        load_result(CacheInit::Changed, Some(Err("x".to_string()))),
        Err("x".to_string())
    );
    assert_eq!(
        load_result(CacheInit::Unchanged, None),
        Err("cannot initialize a new dataset".to_string())
    );
    assert_eq!(
        load_result(CacheInit::Failed, None),
        Err("cannot initialize a new dataset".to_string())
    );
}

#[test]
fn current_seed_starts_all_ones() {
    let m = EpochManager::new();
    assert_eq!(m.current_seed, [0xff; 32]);
}
