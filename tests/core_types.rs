use epic_miner::config::{
    default_rx_bool, default_threads, EpicMinerPluginConfig, MinerConfig, RxConfig,
};
use epic_miner::types::{
    Algorithm, AlgorithmParams, JobSharedData, Solution, Stats, MAX_NAME_LEN, UNKNOWN_NAME,
};

#[test]
fn config_defaults() {
    assert_eq!(default_threads(), 1);
    assert!(!default_rx_bool());
    let rx = RxConfig::default();
    assert_eq!(rx.threads, 1);
    assert!(!rx.jit && !rx.hard_aes && !rx.large_pages);
    let c = MinerConfig::default();
    assert_eq!(c.algorithm, Some(Algorithm::RandomX));
    assert_eq!(c.stratum_server_addr, "http://127.0.0.1:13416");
    assert!(c.gpu_config.is_empty());
    assert!(c.miner_plugin_config.is_empty());
    assert!(!c.run_tui);
    assert!(c.miner_plugin_dir.is_none());
    let p = EpicMinerPluginConfig::default();
    assert!(p.plugin_name.is_empty());
    assert!(p.parameters.is_none());
}

#[test]
fn fresh_stats_have_empty_names() {
    let s = Stats::default();
    assert_eq!(s.get_plugin_name(), "");
    assert_eq!(s.get_device_name(), "");
    assert_eq!(s.get_error_reason(), "");
    assert_eq!(s.hashes_per_sec, 0);
}

#[test]
fn set_names_round_trip() {
    let mut s = Stats::default();
    s.set_plugin_name("randomx");
    s.set_device_name("cpu");
    assert_eq!(s.get_plugin_name(), "randomx");
    assert_eq!(s.get_device_name(), "cpu");
}

#[test]
fn shorter_name_replaces_longer_one() {
    let mut s = Stats::default();
    s.set_plugin_name("progpow_long");
    s.set_plugin_name("randomx");
    assert_eq!(s.get_plugin_name(), "randomx");
    assert!(s.plugin_name[7..].iter().all(|b| *b == 0));
    s.set_device_name("a_long_device");
    s.set_device_name("cpu");
    assert_eq!(s.get_device_name(), "cpu");
}

#[test]
fn invalid_utf8_name_is_unknown() {
    let mut s = Stats::default();
    s.device_name[0] = 0xff;
    s.device_name[1] = 0xfe;
    assert_eq!(s.get_device_name(), UNKNOWN_NAME);
    assert_eq!(s.get_device_name(), "Unknown Device Name");
}

#[test]
fn unterminated_name_reads_empty() {
    let mut s = Stats::default();
    s.error_reason = [b'a'; MAX_NAME_LEN];
    assert_eq!(s.get_error_reason(), "");
}

#[test]
fn solution_getters() {
    let s = Solution::new(7, 42, AlgorithmParams::Cuckoo(29, vec![1, 2, 3]));
    assert_eq!(s.get_id(), 7);
    assert_eq!(s.get_nonce(), 42);
    match s.get_algorithm_params() {
        AlgorithmParams::Cuckoo(e, v) => {
            assert_eq!(e, 29);
            assert_eq!(v, vec![1, 2, 3]);
        }
        _ => panic!("wrong variant"),
    }
}

#[test]
fn job_shared_data_new() {
    let d = JobSharedData::new(3);
    assert_eq!(d.stats.len(), 3);
    assert_eq!(d.difficulty, 1);
    assert_eq!(d.height, 0);
    assert!(d.solutions.is_empty());
    let e = JobSharedData::default();
    assert_eq!(e.difficulty, 0);
    assert!(e.stats.is_empty());
}

#[test]
fn install_job_reports_height_change_only() {
    let mut d = JobSharedData::new(1);
    assert!(d.install_job(1, 500, "00", "", 1));
    assert!(!d.install_job(1, 500, "00", "", 1));
    assert!(!d.install_job(2, 500, "11", "22", 5));
    assert_eq!(d.job_id, 2);
    assert_eq!(d.pre_nonce, "11");
    assert_eq!(d.post_nonce, "22");
    assert_eq!(d.difficulty, 5);
    assert!(d.install_job(3, 600, "11", "", 5));
    assert_eq!(d.height, 600);
}

#[test]
fn take_solutions_drains_in_order() {
    let mut d = JobSharedData::new(1);
    d.solutions.push(Solution::new(1, 10, AlgorithmParams::RandomX([1; 32])));
    d.solutions.push(Solution::new(1, 11, AlgorithmParams::ProgPow([2; 32])));
    let s = d.take_solutions();
    assert_eq!(s.len(), 2);
    assert_eq!(s[0].get_nonce(), 10);
    assert_eq!(s[1].get_nonce(), 11);
    assert!(d.solutions.is_empty());
    assert!(d.take_solutions().is_empty());
}

#[test]
fn snapshots_copy_fields() {
    let mut d = JobSharedData::new(2);
    d.install_job(4, 9, "ab", "cd", 3);
    d.stats[1].hashes_per_sec = 77;
    let j = d.snapshot();
    assert_eq!((j.job_id, j.height, j.difficulty), (4, 9, 3));
    assert_eq!(j.pre_nonce, "ab");
    assert_eq!(j.post_nonce, "cd");
    let st = d.stats_snapshot();
    assert_eq!(st.len(), 2);
    assert_eq!(st[1].hashes_per_sec, 77);
}
