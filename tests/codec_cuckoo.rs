use epic_miner::codec::{
    decode_algorithm_params, decode_solution_bytes, encode_algorithm_params,
    encode_solution_bytes,
};
use epic_miner::cuckoo::{resolve_param, Solution as CuckooSolution, SolverParams, SolverSolutions, SolverStats, PROOFSIZE};
use epic_miner::types::{AlgorithmParams, Solution};

fn same(a: &AlgorithmParams, b: &AlgorithmParams) -> bool {
    match (a, b) {
        (AlgorithmParams::Cuckoo(x, v), AlgorithmParams::Cuckoo(y, w)) => x == y && v == w,
        (AlgorithmParams::RandomX(x), AlgorithmParams::RandomX(y)) => x == y,
        (AlgorithmParams::ProgPow(x), AlgorithmParams::ProgPow(y)) => x == y,
        _ => false,
    }
}

#[test]
fn params_round_trip() {
    let all = vec![
        AlgorithmParams::Cuckoo(29, vec![1, u64::MAX, 0x0102030405060708]),
        AlgorithmParams::Cuckoo(31, vec![]),
        AlgorithmParams::RandomX([3; 32]),
        AlgorithmParams::ProgPow([4; 32]),
    ];
    for p in all.iter() {
        let bytes = encode_algorithm_params(p);
        let back = decode_algorithm_params(&bytes).unwrap();
        assert!(same(p, &back));
        assert_eq!(encode_algorithm_params(&back), bytes);
    }
}

#[test]
fn params_encoding_layout() {
    let bytes = encode_algorithm_params(&AlgorithmParams::Cuckoo(0x01020304, vec![5]));
    assert_eq!(
        bytes,
        vec![0, 4, 3, 2, 1, 1, 0, 0, 0, 0, 0, 0, 0, 5, 0, 0, 0, 0, 0, 0, 0]
    );
    let r = encode_algorithm_params(&AlgorithmParams::RandomX([9; 32]));
    assert_eq!(r.len(), 33);
    assert_eq!(r[0], 1);
}

#[test]
fn bad_encodings_rejected() {
    assert!(decode_algorithm_params(&[]).is_none());
    assert!(decode_algorithm_params(&[1; 5]).is_none());
    assert!(decode_algorithm_params(&[3; 33]).is_none());
    let mut c = encode_algorithm_params(&AlgorithmParams::Cuckoo(1, vec![1, 2]));
    c.pop();
    assert!(decode_algorithm_params(&c).is_none());
    assert!(decode_solution_bytes(&[0; 15]).is_none());
}

#[test]
fn solution_round_trip() {
    let s = Solution::new(11, 12, AlgorithmParams::Cuckoo(29, vec![7, 8]));
    let bytes = encode_solution_bytes(&s);
    let back = decode_solution_bytes(&bytes).unwrap();
    assert_eq!(back.get_id(), 11);
    assert_eq!(back.get_nonce(), 12);
    assert!(same(&back.get_algorithm_params(), &s.get_algorithm_params()));
    assert_eq!(encode_solution_bytes(&back), bytes);
}

#[test]
fn resolve_known_and_unknown_params() {
    let mut p = SolverParams::default();
    assert!(p.showcycle);
    assert!(resolve_param(&mut p, "nthreads", 4));
    assert_eq!(p.nthreads, 4);
    assert!(resolve_param(&mut p, "cpuload", 1));
    assert!(p.cpuload);
    assert!(resolve_param(&mut p, "cpuload", 2));
    assert!(!p.cpuload);
    assert!(resolve_param(&mut p, "tpb", 64));
    assert_eq!(p.tpb, 64);
    assert!(resolve_param(&mut p, "edge_bits", 31));
    assert_eq!(p.edge_bits, 31);
    let before = p;
    assert!(!resolve_param(&mut p, "tbp", 9));
    assert!(!resolve_param(&mut p, "bogus", 9));
    assert_eq!(p, before);
}

#[test]
fn cuckoo_solution_nonces_and_equality() {
    let mut a = CuckooSolution::default();
    for i in 0..PROOFSIZE {
        a.proof[i] = i as u64 * 3;
    }
    let v = a.to_u64s();
    assert_eq!(v.len(), PROOFSIZE);
    assert_eq!(v[5], 15);
    let mut b = a;
    b.nonce = 99;
    assert!(a == b);
    b.proof[0] = 1;
    assert!(a != b);
}

#[test]
fn cuckoo_solution_hash() {
    let a = CuckooSolution::default();
    let mut b = a;
    b.proof[41] = 1;
    let mut c = a;
    c.proof[41] = 1 + (1u64 << 32);
    assert_eq!(a.hash(), a.hash());
    assert_ne!(a.hash(), b.hash());
    assert_eq!(b.hash(), c.hash());
    assert_ne!(a.hash(), [0; 32]);
}

#[test]
fn cuckoo_plugin_stats_names() {
    let mut s = SolverStats::default();
    assert_eq!(s.get_plugin_name(), "");
    s.set_plugin_name("cuckaroo");
    assert_eq!(s.get_plugin_name(), "cuckaroo");
    s.set_plugin_name("cu");
    assert_eq!(s.get_plugin_name(), "cu");
    assert_eq!(s.get_device_name(), "");
    let sols = SolverSolutions::default();
    assert_eq!(sols.num_sols, 0);
}
