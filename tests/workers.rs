use epic_miner::boundary::boundary;
use epic_miner::controller::{
    total_hashes_per_sec, ClientMessage, ControllerState, MinerCommand, MinerMessage,
};
use epic_miner::cuckoo::SolverSolutions;
use epic_miner::miner::notify;
use epic_miner::types::{AlgorithmParams, ControlMessage, JobSharedData, Stats};
use epic_miner::worker::{pp_epoch, PpCandidate, Step, Worker, MAX_HASHS, WORK_PER_CALL};

fn plus_one(b: &[u8; 32]) -> [u8; 32] {
    let mut r = *b;
    let mut i = 31;
    loop {
        let (v, carry) = r[i].overflowing_add(1);
        r[i] = v;
        if !carry || i == 0 {
            break;
        }
        i -= 1;
    }
    r
}

fn running_worker(instance: usize) -> Worker {
    let mut w = Worker::new(instance);
    w.on_control(ControlMessage::Resume);
    w
}

#[test]
fn worker_starts_paused() {
    let w = Worker::new(0);
    assert!(w.paused);
    assert!(!w.stopped);
    assert_eq!(w.rx_step(true, true), Step::Idle);
    assert_eq!(w.pp_step(), Step::Idle);
}

#[test]
fn control_transitions() {
    let mut w = Worker::new(3);
    assert_eq!(w.on_control(ControlMessage::Resume), None);
    assert!(!w.paused);
    assert_eq!(w.on_control(ControlMessage::SolverStopped(1)), None);
    assert!(!w.paused);
    assert_eq!(w.on_control(ControlMessage::Pause), None);
    assert!(w.paused);
    assert_eq!(w.on_control(ControlMessage::Stop), Some(ControlMessage::SolverStopped(3)));
    assert!(w.stopped);
    assert_eq!(w.on_control(ControlMessage::Stop), None);
    assert_eq!(w.on_control(ControlMessage::Resume), None);
    assert_eq!(w.rx_step(true, true), Step::Stop);
}

#[test]
fn rx_steps() {
    let w = running_worker(0);
    assert_eq!(w.rx_step(false, true), Step::AcquireVm);
    assert_eq!(w.rx_step(true, false), Step::Idle);
    assert_eq!(w.rx_step(true, true), Step::Mine);
    assert_eq!(w.pp_step(), Step::Mine);
}

#[test]
fn height_change_then_mining_counts_iterations() {
    let mut d = JobSharedData::new(1);
    let mut w = Worker::new(0);
    let pre = "00".repeat(40);
    let plan = notify(&mut d, 1, 500, &pre, "", 1);
    assert!(plan.height_changed);
    w.on_control(ControlMessage::Pause);
    w.on_control(ControlMessage::Resume);
    assert_eq!(w.rx_step(true, true), Step::Mine);
    let job = d.snapshot();
    let hashes = vec![[0xffu8; 32]; MAX_HASHS as usize];
    w.finish_rx_quantum(&mut d, &job, 10, &hashes, 1000, 1010, 1010);
    assert!(d.stats_snapshot()[0].iterations > 0);
    assert_eq!(d.stats[0].iterations, 100);
    assert_eq!(d.stats[0].hashes_per_sec, 10000);
    assert_eq!(d.stats[0].get_plugin_name(), "randomx");
    assert_eq!(d.stats[0].get_device_name(), "cpu");
}

#[test]
fn same_height_notify_does_not_pause() {
    let mut d = JobSharedData::new(1);
    assert!(notify(&mut d, 1, 7, "00", "", 1).height_changed);
    assert!(!notify(&mut d, 2, 7, "01", "", 1).height_changed);
    assert_eq!(d.job_id, 2);
}

#[test]
fn stale_results_are_dropped() {
    let mut d = JobSharedData::new(1);
    let mut w = running_worker(0);
    notify(&mut d, 500, 500, "00", "", 1);
    let job = d.snapshot();
    notify(&mut d, 600, 600, "00", "", 1);
    let hashes = vec![[0u8; 32]; 4];
    assert!(!w.finish_rx_quantum(&mut d, &job, 1, &hashes, 0, 1, 1));
    assert!(d.solutions.is_empty());
    assert_eq!(d.stats[0].iterations, 0);
    assert_eq!(w.iterations, 4);
    assert!(!w.finish_pp_quantum(
        &mut d,
        &job,
        Some(PpCandidate { nonce: 1, mix: [0; 32], digest: [0; 32] }),
        0,
        1,
        1
    ));
    assert!(d.solutions.is_empty());
}

#[test]
fn boundary_hash_emitted_and_one_above_not() {
    let mut d = JobSharedData::new(1);
    let mut w = running_worker(0);
    notify(&mut d, 1, 10, "00", "", 1000);
    let job = d.snapshot();
    let b = boundary(1000);
    let above = plus_one(&b);
    let hashes = vec![above, b, b];
    assert!(w.finish_rx_quantum(&mut d, &job, u64::MAX, &hashes, 5, 6, 77));
    assert_eq!(d.solutions.len(), 1);
    assert_eq!(d.solutions[0].get_id(), 1);
    assert_eq!(d.solutions[0].get_nonce(), 0);
    match d.solutions[0].get_algorithm_params() {
        AlgorithmParams::RandomX(h) => assert_eq!(h, b),
        _ => panic!("wrong variant"),
    }
    assert_eq!(d.stats[0].last_solution_time, 77);
    let only_above = vec![above; 3];
    assert!(!w.finish_rx_quantum(&mut d, &job, 0, &only_above, 5, 6, 99));
    assert_eq!(d.solutions.len(), 1);
    assert_eq!(d.stats[0].last_solution_time, 77);
}

#[test]
fn difficulty_zero_accepts_any_hash() {
    let mut d = JobSharedData::new(1);
    let mut w = running_worker(0);
    notify(&mut d, 1, 10, "00", "", 0);
    let job = d.snapshot();
    assert!(w.finish_rx_quantum(&mut d, &job, 3, &vec![[0xff; 32]], 0, 0, 1));
    assert_eq!(d.solutions[0].get_nonce(), 3);
    assert_eq!(d.stats[0].hashes_per_sec, 1);
}

#[test]
fn worker_writes_only_its_slot() {
    let mut d = JobSharedData::new(3);
    d.stats[0].hashes_per_sec = 11;
    d.stats[2].hashes_per_sec = 33;
    let mut w = running_worker(1);
    notify(&mut d, 1, 10, "00", "", 1);
    let job = d.snapshot();
    w.finish_rx_quantum(&mut d, &job, 0, &vec![[0xff; 32]; 100], 0, 100, 100);
    assert_eq!(d.stats[0].hashes_per_sec, 11);
    assert_eq!(d.stats[2].hashes_per_sec, 33);
    assert_eq!(d.stats[1].hashes_per_sec, 1000);
    w.mark_idle(&mut d);
    assert_eq!(d.stats[1].hashes_per_sec, 0);
    assert_eq!(d.stats[0].hashes_per_sec, 11);
}

#[test]
fn progpow_candidate_checked_against_boundary() {
    let mut d = JobSharedData::new(1);
    let mut w = running_worker(0);
    notify(&mut d, 9, 10, "00", "", 2);
    let job = d.snapshot();
    let b = boundary(2);
    let ok = PpCandidate { nonce: 5, mix: [7; 32], digest: b };
    assert!(w.finish_pp_quantum(&mut d, &job, Some(ok), 0, 0, 50));
    assert_eq!(d.solutions.len(), 1);
    match d.solutions[0].get_algorithm_params() {
        AlgorithmParams::ProgPow(m) => assert_eq!(m, [7; 32]),
        _ => panic!("wrong variant"),
    }
    assert_eq!(d.stats[0].hashes_per_sec, WORK_PER_CALL);
    assert_eq!(d.stats[0].get_plugin_name(), "progpow");
    let bad = PpCandidate { nonce: 6, mix: [8; 32], digest: plus_one(&b) };
    assert!(!w.finish_pp_quantum(&mut d, &job, Some(bad), 0, 1000, 60));
    assert_eq!(d.solutions.len(), 1);
    assert_eq!(d.stats[0].last_solution_time, 60);
    assert_eq!(d.stats[0].hashes_per_sec, WORK_PER_CALL);
    assert!(!w.finish_pp_quantum(&mut d, &job, None, 0, 1000, 70));
    assert_eq!(d.stats[0].last_solution_time, 60);
}

#[test]
fn stop_job_pauses_and_shutdown_reports_once() {
    let mut c = ControllerState::new();
    let mut d = JobSharedData::new(2);
    let mut workers = vec![running_worker(0), running_worker(1)];
    match c.handle(MinerMessage::StopJob) {
        MinerCommand::PauseSolvers => {
            for w in workers.iter_mut() {
                w.on_control(ControlMessage::Pause);
                w.mark_idle(&mut d);
            }
        }
        _ => panic!("expected a pause"),
    }
    assert!(d.stats.iter().all(|s| s.hashes_per_sec == 0));
    let mut reports = vec![];
    match c.handle(MinerMessage::Shutdown) {
        MinerCommand::Shutdown => {
            for w in workers.iter_mut() {
                for _ in 0..2 {
                    if let Some(r) = w.on_control(ControlMessage::Stop) {
                        reports.push(r);
                    }
                }
            }
        }
        _ => panic!("expected a shutdown"),
    }
    assert_eq!(
        reports,
        vec![ControlMessage::SolverStopped(0), ControlMessage::SolverStopped(1)]
    );
}

#[test]
fn controller_job_message() {
    let mut c = ControllerState::new();
    let pre = "00".repeat(40);
    match c.handle(MinerMessage::ReceivedJob(10, (1u64 << 32) + 5, 0, pre.clone())) {
        MinerCommand::Notify { job_id, height, pre_nonce, post_nonce, difficulty } => {
            assert_eq!(job_id, 5);
            assert_eq!(height, 10);
            assert_eq!(pre_nonce, pre);
            assert_eq!(post_nonce, "");
            assert_eq!(difficulty, 0);
        }
        _ => panic!("expected a job"),
    }
    assert_eq!(c.current_height, 10);
    assert_eq!(c.current_job_id, (1u64 << 32) + 5);
    assert_eq!(c.current_target_diff, 0);
    match c.handle(MinerMessage::ReceivedSeed(vec![(0, 1000, [1; 32])])) {
        MinerCommand::AddEpochs(e) => assert_eq!(e, vec![(0, 1000, [1; 32])]),
        _ => panic!("expected epochs"),
    }
    assert_eq!(c.current_height, 10);
}

#[test]
fn solutions_reported_at_current_height() {
    let mut c = ControllerState::new();
    c.handle(MinerMessage::ReceivedJob(42, 1, 1, String::new()));
    let mut d = JobSharedData::new(1);
    let mut w = running_worker(0);
    notify(&mut d, 1, 42, "", "", 1);
    let job = d.snapshot();
    w.finish_rx_quantum(&mut d, &job, 8, &vec![[0; 32]], 0, 1, 1);
    let msgs = c.solution_reports(d.take_solutions());
    assert_eq!(msgs.len(), 1);
    match &msgs[0] {
        ClientMessage::FoundSolution(h, s) => {
            assert_eq!(*h, 42);
            assert_eq!(s.get_nonce(), 8);
        }
    }
    assert!(c.solution_reports(vec![]).is_empty());
}

#[test]
fn combined_rate_sums_and_saturates() {
    let mut a = Stats::default();
    let mut b = Stats::default();
    a.hashes_per_sec = 100;
    b.hashes_per_sec = 23;
    assert_eq!(total_hashes_per_sec(&vec![a, b]), 123);
    assert_eq!(total_hashes_per_sec(&vec![]), 0);
    b.hashes_per_sec = u64::MAX;
    assert_eq!(total_hashes_per_sec(&vec![a, b]), u64::MAX);
}

#[test]
fn cuckoo_cycles_become_solutions() {
    let mut d = JobSharedData::new(1);
    let mut w = running_worker(0);
    notify(&mut d, 3, 10, "", "", 1);
    let job = d.snapshot();
    let mut sols = SolverSolutions::default();
    sols.edge_bits = 29;
    sols.num_sols = 2;
    sols.sols[0].nonce = 11;
    sols.sols[0].proof[0] = 5;
    sols.sols[1].nonce = 12;
    sols.sols[1].proof[41] = 6;
    assert_eq!(w.finish_cuckoo_round(&mut d, &job, &sols, 40), 2);
    assert_eq!(d.solutions.len(), 2);
    assert_eq!(d.solutions[1].get_nonce(), 12);
    assert_eq!(d.solutions[0].get_id(), 3);
    match d.solutions[1].get_algorithm_params() {
        AlgorithmParams::Cuckoo(e, v) => {
            assert_eq!(e, 29);
            assert_eq!(v.len(), 42);
            assert_eq!(v[41], 6);
        }
        _ => panic!("wrong variant"),
    }
    assert_eq!(w.last_solution_time, 40);
    sols.num_sols = 9;
    assert_eq!(w.finish_cuckoo_round(&mut d, &job, &sols, 41), 4);
    assert_eq!(d.solutions.len(), 6);
    notify(&mut d, 4, 11, "", "", 1);
    assert_eq!(w.finish_cuckoo_round(&mut d, &job, &sols, 42), 0);
    assert_eq!(d.solutions.len(), 6);
    assert_eq!(w.last_solution_time, 41);
}

#[test]
fn progpow_idle_zeroes_rate() {
    let mut d = JobSharedData::new(2);
    d.stats[0].hashes_per_sec = 5;
    d.stats[1].hashes_per_sec = 9;
    let w = Worker::new(1);
    w.mark_pp_idle(&mut d);
    assert_eq!(d.stats[1].hashes_per_sec, 0);
    assert_eq!(d.stats[1].get_plugin_name(), "progpow");
    assert_eq!(d.stats[0].hashes_per_sec, 5);
}

#[test]
fn progpow_epoch_index() {
    assert_eq!(pp_epoch(0), 0);
    assert_eq!(pp_epoch(29999), 0);
    assert_eq!(pp_epoch(30000), 1);
    assert_eq!(pp_epoch(95000), 3);
}
