use vstd::prelude::*;
use vstd::string::StringSliceAdditionalSpecFns;
use vstd::utf8::{decode_utf8, valid_utf8};

verus! {

broadcast use vstd::array::group_array_axioms;

/// Width of the zero-terminated name fields of [`Stats`].
pub const MAX_NAME_LEN: usize = 256;

/// Name reported when a name field does not hold valid UTF-8.
pub const UNKNOWN_NAME: &'static str = "Unknown Device Name";

/// The proof-of-work algorithms a miner can drive.
#[derive(Debug, Clone, Copy, PartialEq, Eq, Structural)]
pub enum Algorithm {
    Cuckoo,
    RandomX,
    ProgPow,
}

/// The algorithm-specific proof carried by a [`Solution`].
#[derive(Debug, Clone)]
pub enum AlgorithmParams {
    /// Edge bits of the graph and the nonces of the cycle.
    Cuckoo(u32, Vec<u64>),
    /// The hash that met the boundary.
    RandomX([u8; 32]),
    /// The mix hash reported by the GPU.
    ProgPow([u8; 32]),
}

/// Mathematical model of [`AlgorithmParams`].
pub enum ParamsModel {
    Cuckoo(u32, Seq<u64>),
    RandomX(Seq<u8>),
    ProgPow(Seq<u8>),
}

impl View for AlgorithmParams {
    type V = ParamsModel;

    open spec fn view(&self) -> ParamsModel {
        match self {
            AlgorithmParams::Cuckoo(e, v) => ParamsModel::Cuckoo(*e, v@),
            AlgorithmParams::RandomX(h) => ParamsModel::RandomX(h@),
            AlgorithmParams::ProgPow(m) => ParamsModel::ProgPow(m@),
        }
    }
}

impl AlgorithmParams {
    /// A copy of these parameters.
    pub fn duplicate(&self) -> (r: AlgorithmParams)
        ensures
            r@ == self@,
    {
        match self {
            AlgorithmParams::Cuckoo(e, v) => {
                let c = v.clone();
                assert(c@ =~= v@);
                AlgorithmParams::Cuckoo(*e, c)
            },
            AlgorithmParams::RandomX(h) => AlgorithmParams::RandomX(*h),
            AlgorithmParams::ProgPow(m) => AlgorithmParams::ProgPow(*m),
        }
    }
}

/// Errors of the mining core.
#[derive(Debug, Clone)]
pub enum MinerError {
    /// Building the dataset of the epoch that holds the job height failed.
    DatasetFailed(String),
}

/// Messages between the miner and its solver workers.
#[derive(Debug, Clone, Copy, PartialEq, Eq, Structural)]
pub enum ControlMessage {
    /// Stop everything and leave the solver loop.
    Stop,
    /// Stop mining the current job and wait.
    Pause,
    /// Mine again.
    Resume,
    /// A solver reports that it has stopped.
    SolverStopped(usize),
}

/// Whether `i` is the position of the first zero byte of `s`.
pub open spec fn is_name_end(s: Seq<u8>, i: int) -> bool {
    &&& 0 <= i < s.len()
    &&& s[i] == 0
    &&& forall|j: int| 0 <= j < i ==> s[j] != 0
}

/// The bytes of a zero-terminated name field before its terminator; empty
/// where the field holds no terminator.
pub open spec fn name_bytes(s: Seq<u8>) -> Seq<u8> {
    if exists|i: int| is_name_end(s, i) {
        s.subrange(0, choose|i: int| is_name_end(s, i))
    } else {
        Seq::empty()
    }
}

/// The text of a name field: its bytes decoded as UTF-8, or [`UNKNOWN_NAME`].
pub open spec fn name_text(s: Seq<u8>) -> Seq<char> {
    if valid_utf8(name_bytes(s)) {
        decode_utf8(name_bytes(s))
    } else {
        UNKNOWN_NAME@
    }
}

/// Whether `name` fits a name field: at most [`MAX_NAME_LEN`] bytes, none zero.
pub open spec fn fits_name_field(name: &str) -> bool {
    &&& name.spec_bytes().len() <= MAX_NAME_LEN
    &&& forall|i: int| 0 <= i < name.spec_bytes().len() ==> name.spec_bytes()[i] != 0
}

/// The name field that holds `name`: its bytes, then zeros to the end of the
/// field, so that the name is zero-terminated wherever it is shorter.
pub open spec fn name_field(name: Seq<u8>) -> Seq<u8> {
    name + Seq::new((MAX_NAME_LEN - name.len()) as nat, |i: int| 0u8)
}

/// Relies on std::str::from_utf8: it accepts exactly the valid UTF-8 byte
/// sequences, and the string it gives decodes them.
#[verifier::external_body]
fn utf8_string(bytes: &[u8]) -> (r: Option<String>)
    ensures
        r.is_some() <==> valid_utf8(bytes@),
        r.is_some() ==> r.unwrap()@ == decode_utf8(bytes@),
{
    match std::str::from_utf8(bytes) {
        Ok(s) => Some(s.to_owned()),
        Err(_) => None,
    }
}

/// Writes `name` into a name field, zero-terminated and zero-padded.
pub(crate) fn write_name(field: &mut [u8; MAX_NAME_LEN], name: &str)
    requires
        fits_name_field(name),
    ensures
        final(field)@ == name_field(name.spec_bytes()),
{
    let bytes = name.as_bytes();
    let mut i: usize = 0;
    while i < MAX_NAME_LEN
        invariant
            bytes@ == name.spec_bytes(),
            bytes@.len() <= MAX_NAME_LEN,
            field@.len() == MAX_NAME_LEN,
            i <= MAX_NAME_LEN,
            forall|k: int| 0 <= k < i ==> field@[k] == name_field(bytes@)[k],
        decreases MAX_NAME_LEN - i,
    {
        if i < bytes.len() {
            field[i] = bytes[i];
        } else {
            field[i] = 0;
        }
        i += 1;
    }
    assert(field@ =~= name_field(bytes@));
}

/// The text of a zero-terminated name field.
pub(crate) fn name_string(c_str: &[u8; MAX_NAME_LEN]) -> (r: String)
    ensures
        r@ == name_text(c_str@),
{
    let mut j: usize = 0;
    while j < MAX_NAME_LEN && c_str[j] != 0
        invariant
            j <= MAX_NAME_LEN,
            forall|k: int| 0 <= k < j ==> c_str@[k] != 0,
        decreases MAX_NAME_LEN - j,
    {
        j += 1;
    }
    let end: usize = if j < MAX_NAME_LEN {
        j
    } else {
        0
    };
    let mut bytes: Vec<u8> = Vec::new();
    let mut k: usize = 0;
    while k < end
        invariant
            end <= MAX_NAME_LEN,
            k <= end,
            bytes@ == c_str@.subrange(0, k as int),
        decreases end - k,
    {
        bytes.push(c_str[k]);
        k += 1;
        assert(bytes@ =~= c_str@.subrange(0, k as int));
    }
    proof {
        if j < MAX_NAME_LEN {
            assert(is_name_end(c_str@, j as int));
            let c = choose|i: int| is_name_end(c_str@, i);
            assert(c == j as int) by {
                if c < j {
                    assert(c_str@[c] != 0);
                }
                if j < c {
                    assert(c_str@[j as int] != 0);
                }
            }
        } else {
            assert forall|i: int| !is_name_end(c_str@, i) by {
                if 0 <= i < MAX_NAME_LEN {
                    assert(c_str@[i] != 0);
                }
            }
            assert(bytes@ =~= Seq::<u8>::empty());
        }
        assert(bytes@ == name_bytes(c_str@));
    }
    match utf8_string(bytes.as_slice()) {
        Some(s) => s,
        None => UNKNOWN_NAME.to_owned(),
    }
}

/// Per-worker statistics, with names in fixed-width zero-terminated fields.
#[derive(Clone, Copy)]
pub struct Stats {
    pub device_id: u32,
    pub edge_bits: u32,
    pub plugin_name: [u8; MAX_NAME_LEN],
    pub device_name: [u8; MAX_NAME_LEN],
    pub has_errored: bool,
    pub error_reason: [u8; MAX_NAME_LEN],
    pub iterations: u32,
    pub last_start_time: u64,
    pub last_end_time: u64,
    pub last_solution_time: u64,
    pub hashes_per_sec: u64,
}

/// Whether every byte of a name field is zero.
pub open spec fn is_blank(field: Seq<u8>) -> bool {
    &&& field.len() == MAX_NAME_LEN
    &&& forall|i: int| 0 <= i < field.len() ==> field[i] == 0
}

/// Whether `s` holds the values of a fresh record: zero counters, blank names,
/// no error.
pub open spec fn is_fresh_stats(s: Stats) -> bool {
    &&& s.device_id == 0
    &&& s.edge_bits == 0
    &&& is_blank(s.plugin_name@)
    &&& is_blank(s.device_name@)
    &&& !s.has_errored
    &&& is_blank(s.error_reason@)
    &&& s.iterations == 0
    &&& s.last_start_time == 0
    &&& s.last_end_time == 0
    &&& s.last_solution_time == 0
    &&& s.hashes_per_sec == 0
}

impl Default for Stats {
    fn default() -> (r: Stats)
        ensures
            is_fresh_stats(r),
    {
        Stats {
            device_id: 0,
            edge_bits: 0,
            plugin_name: [0u8; MAX_NAME_LEN],
            device_name: [0u8; MAX_NAME_LEN],
            has_errored: false,
            error_reason: [0u8; MAX_NAME_LEN],
            iterations: 0,
            last_start_time: 0,
            last_end_time: 0,
            last_solution_time: 0,
            hashes_per_sec: 0,
        }
    }
}

impl Stats {
    fn get_name(&self, c_str: &[u8; MAX_NAME_LEN]) -> (r: String)
        ensures
            r@ == name_text(c_str@),
    {
        name_string(c_str)
    }

    /// The device name as a string.
    pub fn get_device_name(&self) -> (r: String)
        ensures
            r@ == name_text(self.device_name@),
    {
        self.get_name(&self.device_name)
    }

    /// The plugin name as a string.
    pub fn get_plugin_name(&self) -> (r: String)
        ensures
            r@ == name_text(self.plugin_name@),
    {
        self.get_name(&self.plugin_name)
    }

    /// The error reason as a string.
    pub fn get_error_reason(&self) -> (r: String)
        ensures
            r@ == name_text(self.error_reason@),
    {
        self.get_name(&self.error_reason)
    }

    /// Sets the plugin name; the rest of the field is zeroed.
    pub fn set_plugin_name(&mut self, name: &str)
        requires
            fits_name_field(name),
        ensures
            final(self).plugin_name@ == name_field(name.spec_bytes()),
            final(self).device_name == old(self).device_name,
            final(self).error_reason == old(self).error_reason,
            same_counters(*final(self), *old(self)),
    {
        write_name(&mut self.plugin_name, name);
    }

    /// Sets the device name; the rest of the field is zeroed.
    pub fn set_device_name(&mut self, name: &str)
        requires
            fits_name_field(name),
        ensures
            final(self).device_name@ == name_field(name.spec_bytes()),
            final(self).plugin_name == old(self).plugin_name,
            final(self).error_reason == old(self).error_reason,
            same_counters(*final(self), *old(self)),
    {
        write_name(&mut self.device_name, name);
    }
}

/// Whether `a` and `b` agree on every field but the three names.
pub open spec fn same_counters(a: Stats, b: Stats) -> bool {
    &&& a.device_id == b.device_id
    &&& a.edge_bits == b.edge_bits
    &&& a.has_errored == b.has_errored
    &&& a.iterations == b.iterations
    &&& a.last_start_time == b.last_start_time
    &&& a.last_end_time == b.last_end_time
    &&& a.last_solution_time == b.last_solution_time
    &&& a.hashes_per_sec == b.hashes_per_sec
}

/// A solution found by a worker: the job id, the nonce and the proof.
#[derive(Debug, Clone)]
pub struct Solution(u64, u64, AlgorithmParams);

/// Mathematical model of [`Solution`].
pub struct SolutionModel {
    pub id: u64,
    pub nonce: u64,
    pub params: ParamsModel,
}

impl View for Solution {
    type V = SolutionModel;

    closed spec fn view(&self) -> SolutionModel {
        SolutionModel { id: self.0, nonce: self.1, params: self.2@ }
    }
}

impl Solution {
    pub fn new(id: u64, nonce: u64, algo_params: AlgorithmParams) -> (r: Solution)
        ensures
            r@ == (SolutionModel { id, nonce, params: algo_params@ }),
    {
        Solution(id, nonce, algo_params)
    }

    pub fn get_id(&self) -> (r: u64)
        ensures
            r == self@.id,
    {
        self.0
    }

    pub fn get_nonce(&self) -> (r: u64)
        ensures
            r == self@.nonce,
    {
        self.1
    }

    pub fn get_algorithm_params(&self) -> (r: AlgorithmParams)
        ensures
            r@ == self@.params,
    {
        self.2.duplicate()
    }
}

/// The fields of the current job, as a worker reads them at the start of a
/// work quantum.
pub struct JobSnapshot {
    pub job_id: u32,
    pub height: u64,
    pub pre_nonce: String,
    pub post_nonce: String,
    pub difficulty: u64,
}

/// Data shared between a miner and its solver workers: the current job, the
/// solutions found and not yet collected, and one statistics slot per worker.
pub struct JobSharedData {
    /// Id of the current job.
    pub job_id: u32,
    /// Block height of the current job.
    pub height: u64,
    /// Hex of the header part before the nonce.
    pub pre_nonce: String,
    /// Hex of the header part after the nonce.
    pub post_nonce: String,
    /// Target difficulty of the current job.
    pub difficulty: u64,
    /// Solutions found and not yet collected.
    pub solutions: Vec<Solution>,
    /// Statistics, one slot per worker, indexed by the worker's instance.
    pub stats: Vec<Stats>,
}

impl Default for JobSharedData {
    fn default() -> (r: JobSharedData)
        ensures
            r.job_id == 0,
            r.height == 0,
            r.pre_nonce@.len() == 0,
            r.post_nonce@.len() == 0,
            r.difficulty == 0,
            r.solutions@.len() == 0,
            r.stats@.len() == 0,
    {
        JobSharedData {
            job_id: 0,
            height: 0,
            pre_nonce: String::new(),
            post_nonce: String::new(),
            difficulty: 0,
            solutions: Vec::new(),
            stats: Vec::new(),
        }
    }
}

impl JobSharedData {
    /// Shared data for `num_solvers` workers, each with a fresh statistics slot.
    pub fn new(num_solvers: usize) -> (r: JobSharedData)
        ensures
            r.job_id == 0,
            r.height == 0,
            r.pre_nonce@.len() == 0,
            r.post_nonce@.len() == 0,
            r.difficulty == 1,
            r.solutions@.len() == 0,
            r.stats@.len() == num_solvers,
            forall|i: int| 0 <= i < num_solvers ==> is_fresh_stats(#[trigger] r.stats@[i]),
    {
        let mut stats: Vec<Stats> = Vec::new();
        let mut i: usize = 0;
        while i < num_solvers
            invariant
                i <= num_solvers,
                stats@.len() == i,
                forall|k: int| 0 <= k < i ==> is_fresh_stats(#[trigger] stats@[k]),
            decreases num_solvers - i,
        {
            stats.push(Stats::default());
            i += 1;
        }
        JobSharedData {
            job_id: 0,
            height: 0,
            pre_nonce: String::new(),
            post_nonce: String::new(),
            difficulty: 1,
            solutions: Vec::new(),
            stats,
        }
    }

    /// Installs a job. Returns whether its height differs from the stored one,
    /// which makes it a job change. Solutions and statistics are untouched.
    pub fn install_job(
        &mut self,
        job_id: u32,
        height: u64,
        pre_nonce: &str,
        post_nonce: &str,
        difficulty: u64,
    ) -> (changed: bool)
        ensures
            installed(
                *old(self),
                *final(self),
                job_id,
                height,
                pre_nonce@,
                post_nonce@,
                difficulty,
                changed,
            ),
    {
        let changed = height != self.height;
        self.job_id = job_id;
        self.height = height;
        self.pre_nonce = pre_nonce.to_owned();
        self.post_nonce = post_nonce.to_owned();
        self.difficulty = difficulty;
        changed
    }

    /// Removes and returns the solutions found so far, in the order found.
    pub fn take_solutions(&mut self) -> (r: Vec<Solution>)
        ensures
            r@ == old(self).solutions@,
            final(self).solutions@.len() == 0,
            final(self).job_id == old(self).job_id,
            final(self).height == old(self).height,
            final(self).pre_nonce == old(self).pre_nonce,
            final(self).post_nonce == old(self).post_nonce,
            final(self).difficulty == old(self).difficulty,
            final(self).stats == old(self).stats,
    {
        let mut r: Vec<Solution> = Vec::new();
        std::mem::swap(&mut r, &mut self.solutions);
        r
    }

    /// A copy of the statistics of every worker.
    pub fn stats_snapshot(&self) -> (r: Vec<Stats>)
        ensures
            r@ == self.stats@,
    {
        let mut r: Vec<Stats> = Vec::new();
        let mut i: usize = 0;
        while i < self.stats.len()
            invariant
                i <= self.stats@.len(),
                r@ == self.stats@.subrange(0, i as int),
            decreases self.stats@.len() - i,
        {
            r.push(self.stats[i]);
            i += 1;
            assert(r@ =~= self.stats@.subrange(0, i as int));
        }
        assert(r@ =~= self.stats@);
        r
    }

    /// The fields of the current job.
    pub fn snapshot(&self) -> (r: JobSnapshot)
        ensures
            r.job_id == self.job_id,
            r.height == self.height,
            r.pre_nonce@ == self.pre_nonce@,
            r.post_nonce@ == self.post_nonce@,
            r.difficulty == self.difficulty,
    {
        JobSnapshot {
            job_id: self.job_id,
            height: self.height,
            pre_nonce: self.pre_nonce.clone(),
            post_nonce: self.post_nonce.clone(),
            difficulty: self.difficulty,
        }
    }
}

/// Installing the same job twice is the same as installing it once, and the
/// second installation is no job change: workers see no pause and no resume.
pub proof fn lemma_same_job_no_change(
    before: JobSharedData,
    once: JobSharedData,
    twice: JobSharedData,
    job_id: u32,
    height: u64,
    pre_nonce: Seq<char>,
    post_nonce: Seq<char>,
    difficulty: u64,
    first_changed: bool,
    second_changed: bool,
)
    requires
        installed(before, once, job_id, height, pre_nonce, post_nonce, difficulty, first_changed),
        installed(once, twice, job_id, height, pre_nonce, post_nonce, difficulty, second_changed),
    ensures
        !second_changed,
        same_job_data(once, twice),
{
}

/// The relation that [`JobSharedData::install_job`] establishes between the
/// data before and after, and the value it returns.
pub open spec fn installed(
    before: JobSharedData,
    after: JobSharedData,
    job_id: u32,
    height: u64,
    pre_nonce: Seq<char>,
    post_nonce: Seq<char>,
    difficulty: u64,
    changed: bool,
) -> bool {
    &&& changed == (before.height != height)
    &&& after.job_id == job_id
    &&& after.height == height
    &&& after.pre_nonce@ == pre_nonce
    &&& after.post_nonce@ == post_nonce
    &&& after.difficulty == difficulty
    &&& after.solutions == before.solutions
    &&& after.stats == before.stats
}

/// Whether two shared records hold the same job, solutions and statistics.
pub open spec fn same_job_data(a: JobSharedData, b: JobSharedData) -> bool {
    &&& a.job_id == b.job_id
    &&& a.height == b.height
    &&& a.pre_nonce@ == b.pre_nonce@
    &&& a.post_nonce@ == b.post_nonce@
    &&& a.difficulty == b.difficulty
    &&& a.solutions == b.solutions
    &&& a.stats == b.stats
}

} // verus!
