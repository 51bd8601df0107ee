use vstd::prelude::*;
use vstd::string::StringSliceAdditionalSpecFns;

use crate::boundary::{
    be_value, boundary, boundary_value, lemma_hash_within_max, hashes_per_sec, hashes_per_sec_spec, meets_boundary,
};
use crate::cuckoo::{SolverSolutions, MAX_SOLS};
use crate::types::{
    fits_name_field, is_blank, name_field, AlgorithmParams, ControlMessage, JobSharedData, JobSnapshot,
    ParamsModel, Solution, SolutionModel, Stats, MAX_NAME_LEN,
};

verus! {

/// Heights per ProgPow epoch.
pub const PP_EPOCH_LENGTH: u64 = 30000;

/// Hashes computed by a RandomX worker in one work quantum.
pub const MAX_HASHS: u64 = 100;

/// GPU work groups of one ProgPow batch.
pub const GLOBAL_WORK_SIZE: u64 = 2048;

/// Threads per GPU work group of one ProgPow batch.
pub const LOCAL_WORK_SIZE: u64 = 256;

/// Candidates searched by one ProgPow batch.
pub const WORK_PER_CALL: u64 = 524288;

/// Plugin name reported by RandomX workers.
pub const RX_ALGORITHM_NAME: &'static str = "randomx";

/// Device name reported by RandomX workers.
pub const RX_DEVICE_NAME: &'static str = "cpu";

/// Plugin name reported by ProgPow workers.
pub const PP_ALGORITHM_NAME: &'static str = "progpow";

/// The nonce `offset` places after `first`, wrapping at 2^64.
pub open spec fn nonce_at(first: u64, offset: int) -> u64 {
    if first + offset > u64::MAX {
        (first + offset - 0x1_0000_0000_0000_0000int) as u64
    } else {
        (first + offset) as u64
    }
}

/// Whether `i` is the first hash at or below the boundary of `difficulty`.
pub open spec fn first_accepted(hashes: Seq<[u8; 32]>, difficulty: u64, i: int) -> bool {
    &&& 0 <= i < hashes.len()
    &&& be_value(hashes[i]@) <= boundary_value(difficulty)
    &&& forall|j: int| 0 <= j < i ==> be_value((#[trigger] hashes[j])@) > boundary_value(difficulty)
}

/// Whether `s` is the record a worker writes after a quantum: the given times,
/// count and rate, the given names over blank fields, and nothing else set.
pub open spec fn quantum_stats(
    s: Stats,
    start: u64,
    end: u64,
    last_solution_time: u64,
    iterations: u64,
    hashes_per_sec: nat,
    plugin: Seq<u8>,
    device: Seq<u8>,
) -> bool {
    &&& s.device_id == 0
    &&& s.edge_bits == 0
    &&& !s.has_errored
    &&& is_blank(s.error_reason@)
    &&& s.iterations == iterations as u32
    &&& s.last_start_time == start
    &&& s.last_end_time == end
    &&& s.last_solution_time == last_solution_time
    &&& s.hashes_per_sec == hashes_per_sec
    &&& s.plugin_name@ == name_field(plugin)
    &&& s.device_name@ == name_field(device)
}

/// Whether `after` differs from `before` at most in slot `instance` of the
/// statistics: the job, the solutions and every other slot are unchanged.
pub open spec fn only_slot_written(before: JobSharedData, after: JobSharedData, instance: usize) -> bool {
    &&& after.job_id == before.job_id
    &&& after.height == before.height
    &&& after.pre_nonce == before.pre_nonce
    &&& after.post_nonce == before.post_nonce
    &&& after.difficulty == before.difficulty
    &&& after.stats@.len() == before.stats@.len()
    &&& forall|k: int|
        0 <= k < before.stats@.len() && k != instance ==> after.stats@[k] == before.stats@[k]
}

/// The paused and stopped flags after a control message.
pub open spec fn after_control(paused: bool, stopped: bool, msg: ControlMessage) -> (bool, bool) {
    if stopped {
        (paused, true)
    } else {
        match msg {
            ControlMessage::Stop => (paused, true),
            ControlMessage::Pause => (true, false),
            ControlMessage::Resume => (false, false),
            ControlMessage::SolverStopped(_) => (paused, false),
        }
    }
}

/// Whether a control message makes a running or paused worker stop.
pub open spec fn stops_now(stopped: bool, msg: ControlMessage) -> bool {
    !stopped && msg is Stop
}

/// Number of `SolverStopped` reports a worker sends while it receives `msgs`.
pub open spec fn stop_reports(paused: bool, stopped: bool, msgs: Seq<ControlMessage>) -> nat
    decreases msgs.len(),
{
    if msgs.len() == 0 {
        0
    } else {
        let next = after_control(paused, stopped, msgs[0]);
        (if stops_now(stopped, msgs[0]) {
            1nat
        } else {
            0nat
        }) + stop_reports(next.0, next.1, msgs.drop_first())
    }
}

/// What a worker does next in its loop.
#[derive(Debug, Clone, Copy, PartialEq, Eq, Structural)]
pub enum Step {
    /// Leave the loop.
    Stop,
    /// Sleep briefly and look again.
    Idle,
    /// Try to obtain a virtual machine from the RandomX state.
    AcquireVm,
    /// Run a work quantum on the current job.
    Mine,
}

/// The outcome of a ProgPow batch that found a candidate: its nonce, its mix
/// hash, and the digest the CPU computed to verify it (big-endian).
#[derive(Debug, Clone, Copy)]
pub struct PpCandidate {
    pub nonce: u64,
    pub mix: [u8; 32],
    pub digest: [u8; 32],
}

/// The state of one solver worker, which owns slot `instance` of the stats.
#[derive(Debug)]
pub struct Worker {
    pub instance: usize,
    pub paused: bool,
    pub stopped: bool,
    /// Hashes computed since the worker started.
    pub iterations: u64,
    /// When the worker last found a solution (milliseconds), zero if never.
    pub last_solution_time: u64,
}

impl Worker {
    /// A worker for slot `instance`; workers are born paused.
    pub fn new(instance: usize) -> (r: Worker)
        ensures
            r.instance == instance,
            r.paused,
            !r.stopped,
            r.iterations == 0,
            r.last_solution_time == 0,
    {
        Worker { instance, paused: true, stopped: false, iterations: 0, last_solution_time: 0 }
    }

    /// Applies a control message. Returns the `SolverStopped` report to send
    /// where the message stops the worker; a stopped worker ignores messages.
    pub fn on_control(&mut self, msg: ControlMessage) -> (report: Option<ControlMessage>)
        ensures
            (final(self).paused, final(self).stopped) == after_control(
                old(self).paused,
                old(self).stopped,
                msg,
            ),
            report == if stops_now(old(self).stopped, msg) {
                Some(ControlMessage::SolverStopped(old(self).instance))
            } else {
                None
            },
            final(self).instance == old(self).instance,
            final(self).iterations == old(self).iterations,
            final(self).last_solution_time == old(self).last_solution_time,
    {
        if self.stopped {
            return None;
        }
        match msg {
            ControlMessage::Stop => {
                self.stopped = true;
                Some(ControlMessage::SolverStopped(self.instance))
            },
            ControlMessage::Pause => {
                self.paused = true;
                None
            },
            ControlMessage::Resume => {
                self.paused = false;
                None
            },
            ControlMessage::SolverStopped(_) => None,
        }
    }

    /// The next step of a RandomX worker, given whether it holds a virtual
    /// machine and whether a running epoch holds the job height.
    pub fn rx_step(&self, has_vm: bool, epoch_running: bool) -> (r: Step)
        ensures
            r == if self.stopped {
                Step::Stop
            } else if self.paused {
                Step::Idle
            } else if !has_vm {
                Step::AcquireVm
            } else if !epoch_running {
                Step::Idle
            } else {
                Step::Mine
            },
    {
        if self.stopped {
            Step::Stop
        } else if self.paused {
            Step::Idle
        } else if !has_vm {
            Step::AcquireVm
        } else if !epoch_running {
            Step::Idle
        } else {
            Step::Mine
        }
    }

    /// The next step of a ProgPow worker.
    pub fn pp_step(&self) -> (r: Step)
        ensures
            r == if self.stopped {
                Step::Stop
            } else if self.paused {
                Step::Idle
            } else {
                Step::Mine
            },
    {
        if self.stopped {
            Step::Stop
        } else if self.paused {
            Step::Idle
        } else {
            Step::Mine
        }
    }

    /// Records in a RandomX worker's own slot that it is idle: its plugin
    /// name and a rate of zero.
    pub fn mark_idle(&self, shared: &mut JobSharedData)
        requires
            self.instance < old(shared).stats@.len(),
        ensures
            only_slot_written(*old(shared), *final(shared), self.instance),
            final(shared).solutions == old(shared).solutions,
            final(shared).stats@[self.instance as int].hashes_per_sec == 0,
            final(shared).stats@[self.instance as int].plugin_name@ == name_field(
                RX_ALGORITHM_NAME.spec_bytes(),
            ),
    {
        proof {
            lemma_worker_names_fit();
        }
        self.mark_idle_as(shared, RX_ALGORITHM_NAME);
    }

    /// Records in a ProgPow worker's own slot that it is idle: its plugin
    /// name and a rate of zero.
    pub fn mark_pp_idle(&self, shared: &mut JobSharedData)
        requires
            self.instance < old(shared).stats@.len(),
        ensures
            only_slot_written(*old(shared), *final(shared), self.instance),
            final(shared).solutions == old(shared).solutions,
            final(shared).stats@[self.instance as int].hashes_per_sec == 0,
            final(shared).stats@[self.instance as int].plugin_name@ == name_field(
                PP_ALGORITHM_NAME.spec_bytes(),
            ),
    {
        proof {
            lemma_worker_names_fit();
        }
        self.mark_idle_as(shared, PP_ALGORITHM_NAME);
    }

    fn mark_idle_as(&self, shared: &mut JobSharedData, plugin: &str)
        requires
            self.instance < old(shared).stats@.len(),
            fits_name_field(plugin),
        ensures
            only_slot_written(*old(shared), *final(shared), self.instance),
            final(shared).solutions == old(shared).solutions,
            final(shared).stats@[self.instance as int].hashes_per_sec == 0,
            final(shared).stats@[self.instance as int].plugin_name@ == name_field(
                plugin.spec_bytes(),
            ),
    {
        let mut s = shared.stats[self.instance];
        s.set_plugin_name(plugin);
        s.hashes_per_sec = 0;
        shared.stats.set(self.instance, s);
    }

    /// Ends a RandomX quantum of `hashes` (big-endian) computed for the nonces
    /// from `first_nonce` on, against the job read in `job`. Where the stored
    /// height is still the job's, the first hash at or below the boundary
    /// becomes a solution and the worker's slot gets the quantum's
    /// statistics; otherwise the results are stale and nothing is written.
    pub fn finish_rx_quantum(
        &mut self,
        shared: &mut JobSharedData,
        job: &JobSnapshot,
        first_nonce: u64,
        hashes: &Vec<[u8; 32]>,
        start: u64,
        end: u64,
        now: u64,
    ) -> (found: bool)
        requires
            old(self).instance < old(shared).stats@.len(),
            hashes@.len() * 1000 <= u64::MAX,
        ensures
            final(self).instance == old(self).instance,
            final(self).paused == old(self).paused,
            final(self).stopped == old(self).stopped,
            final(self).iterations == old(self).iterations.saturating_add(hashes@.len() as u64),
            final(shared).solutions@.len() > old(shared).solutions@.len() ==> final(shared).height == job.height,
            old(shared).height != job.height ==> *final(shared) == *old(shared) && !found
                && final(self).last_solution_time == old(self).last_solution_time,
            old(shared).height == job.height ==> {
                &&& only_slot_written(*old(shared), *final(shared), old(self).instance)
                &&& quantum_stats(
                    final(shared).stats@[old(self).instance as int],
                    start,
                    end,
                    final(self).last_solution_time,
                    final(self).iterations,
                    hashes_per_sec_spec(hashes@.len() as nat, start as nat, end as nat),
                    RX_ALGORITHM_NAME.spec_bytes(),
                    RX_DEVICE_NAME.spec_bytes(),
                )
                &&& found == exists|i: int| first_accepted(hashes@, job.difficulty, i)
                &&& !found ==> final(shared).solutions == old(shared).solutions
                    && final(self).last_solution_time == old(self).last_solution_time
                &&& forall|i: int|
                    first_accepted(hashes@, job.difficulty, i) ==> {
                        &&& final(self).last_solution_time == now
                        &&& final(shared).solutions@.drop_last() == old(shared).solutions@
                        &&& final(shared).solutions@.len() == old(shared).solutions@.len() + 1
                        &&& final(shared).solutions@.last()@ == (SolutionModel {
                            id: job.job_id as u64,
                            nonce: nonce_at(first_nonce, i),
                            params: ParamsModel::RandomX(hashes@[i]@),
                        })
                    }
            },
    {
        proof {
            lemma_worker_names_fit();
        }
        let n = hashes.len() as u64;
        self.iterations = self.iterations.saturating_add(n);
        if shared.height != job.height {
            return false;
        }
        let b = boundary(job.difficulty);
        let mut i: usize = 0;
        while i < hashes.len() && !meets_boundary(&hashes[i], &b)
            invariant
                i <= hashes@.len(),
                be_value(b@) == boundary_value(job.difficulty),
                forall|j: int|
                    0 <= j < i ==> be_value((#[trigger] hashes@[j])@) > boundary_value(
                        job.difficulty,
                    ),
            decreases hashes@.len() - i,
        {
            i += 1;
        }
        let found = i < hashes.len();
        if found {
            assert(first_accepted(hashes@, job.difficulty, i as int));
            assert forall|k: int| first_accepted(hashes@, job.difficulty, k) implies k == i by {
                if k < i {
                    assert(be_value(hashes@[k]@) > boundary_value(job.difficulty));
                }
                if k > i {
                    assert(be_value(hashes@[i as int]@) > boundary_value(job.difficulty));
                }
            }
            self.last_solution_time = now;
            let sol = Solution::new(
                job.job_id as u64,
                first_nonce.wrapping_add(i as u64),
                AlgorithmParams::RandomX(hashes[i]),
            );
            let ghost before = shared.solutions@;
            shared.solutions.push(sol);
            assert(shared.solutions@.drop_last() =~= before);
        } else {
            assert forall|k: int| !first_accepted(hashes@, job.difficulty, k) by {
                if 0 <= k < hashes@.len() {
                    assert(be_value(hashes@[k]@) > boundary_value(job.difficulty));
                }
            }
        }
        let stats = self.quantum_record(
            start,
            end,
            hashes_per_sec(n, start, end),
            RX_ALGORITHM_NAME,
            Some(RX_DEVICE_NAME),
        );
        shared.stats.set(self.instance, stats);
        found
    }

    /// Ends a ProgPow batch against the job read in `job`. Where the stored
    /// height is still the job's: a candidate sets the time of the last
    /// solution and becomes a solution where its digest is at or below the
    /// boundary, and the worker's slot gets the batch's statistics. Otherwise
    /// the results are stale and nothing is written.
    pub fn finish_pp_quantum(
        &mut self,
        shared: &mut JobSharedData,
        job: &JobSnapshot,
        candidate: Option<PpCandidate>,
        start: u64,
        end: u64,
        now: u64,
    ) -> (accepted: bool)
        requires
            old(self).instance < old(shared).stats@.len(),
        ensures
            final(self).instance == old(self).instance,
            final(self).paused == old(self).paused,
            final(self).stopped == old(self).stopped,
            final(self).iterations == old(self).iterations.saturating_add(WORK_PER_CALL),
            final(shared).solutions@.len() > old(shared).solutions@.len() ==> final(shared).height == job.height,
            old(shared).height != job.height ==> *final(shared) == *old(shared) && !accepted
                && final(self).last_solution_time == old(self).last_solution_time,
            old(shared).height == job.height ==> {
                &&& only_slot_written(*old(shared), *final(shared), old(self).instance)
                &&& quantum_stats(
                    final(shared).stats@[old(self).instance as int],
                    start,
                    end,
                    final(self).last_solution_time,
                    final(self).iterations,
                    hashes_per_sec_spec(WORK_PER_CALL as nat, start as nat, end as nat),
                    PP_ALGORITHM_NAME.spec_bytes(),
                    Seq::empty(),
                )
                &&& final(self).last_solution_time == if candidate.is_some() {
                    now
                } else {
                    old(self).last_solution_time
                }
                &&& accepted == (candidate.is_some() && be_value(candidate.unwrap().digest@)
                    <= boundary_value(job.difficulty))
                &&& !accepted ==> final(shared).solutions == old(shared).solutions
                &&& accepted ==> {
                    &&& final(shared).solutions@.drop_last() == old(shared).solutions@
                    &&& final(shared).solutions@.len() == old(shared).solutions@.len() + 1
                    &&& final(shared).solutions@.last()@ == (SolutionModel {
                        id: job.job_id as u64,
                        nonce: candidate.unwrap().nonce,
                        params: ParamsModel::ProgPow(candidate.unwrap().mix@),
                    })
                }
            },
    {
        proof {
            lemma_worker_names_fit();
        }
        self.iterations = self.iterations.saturating_add(WORK_PER_CALL);
        if shared.height != job.height {
            return false;
        }
        let mut accepted = false;
        match candidate {
            Some(c) => {
                self.last_solution_time = now;
                let b = boundary(job.difficulty);
                if meets_boundary(&c.digest, &b) {
                    let sol = Solution::new(
                        job.job_id as u64,
                        c.nonce,
                        AlgorithmParams::ProgPow(c.mix),
                    );
                    let ghost before = shared.solutions@;
                    shared.solutions.push(sol);
                    assert(shared.solutions@.drop_last() =~= before);
                    accepted = true;
                }
            },
            None => {},
        }
        let stats = self.quantum_record(
            start,
            end,
            hashes_per_sec(WORK_PER_CALL, start, end),
            PP_ALGORITHM_NAME,
            None,
        );
        shared.stats.set(self.instance, stats);
        accepted
    }

    /// Ends a Cuckoo search round against the job read in `job`. Where the
    /// stored height is still the job's, every cycle the plugin reported
    /// becomes a solution, in order, and the count is returned; otherwise the
    /// cycles are stale and nothing is written. Statistics come from the plugin.
    pub fn finish_cuckoo_round(
        &mut self,
        shared: &mut JobSharedData,
        job: &JobSnapshot,
        sols: &SolverSolutions,
        now: u64,
    ) -> (count: usize)
        ensures
            final(self).instance == old(self).instance,
            final(self).paused == old(self).paused,
            final(self).stopped == old(self).stopped,
            final(self).iterations == old(self).iterations,
            final(shared).solutions@.len() > old(shared).solutions@.len() ==> final(shared).height
                == job.height,
            old(shared).height != job.height ==> *final(shared) == *old(shared) && count == 0
                && final(self).last_solution_time == old(self).last_solution_time,
            old(shared).height == job.height ==> {
                &&& count == if sols.num_sols < MAX_SOLS {
                    sols.num_sols as usize
                } else {
                    MAX_SOLS
                }
                &&& only_slot_written(*old(shared), *final(shared), old(self).instance)
                &&& final(shared).stats == old(shared).stats
                &&& final(shared).solutions@.len() == old(shared).solutions@.len() + count
                &&& forall|k: int|
                    0 <= k < old(shared).solutions@.len() ==> final(shared).solutions@[k] == old(
                        shared,
                    ).solutions@[k]
                &&& forall|k: int|
                    0 <= k < count ==> (#[trigger] final(shared).solutions@[old(
                        shared,
                    ).solutions@.len() + k])@ == (SolutionModel {
                        id: job.job_id as u64,
                        nonce: sols.sols@[k].nonce,
                        params: ParamsModel::Cuckoo(sols.edge_bits, sols.sols@[k].proof@),
                    })
                &&& final(self).last_solution_time == if count > 0 {
                    now
                } else {
                    old(self).last_solution_time
                }
            },
    {
        if shared.height != job.height {
            return 0;
        }
        let count: usize = if (sols.num_sols as usize) < MAX_SOLS {
            sols.num_sols as usize
        } else {
            MAX_SOLS
        };
        let ghost start = shared.solutions@;
        let mut k: usize = 0;
        while k < count
            invariant
                count <= MAX_SOLS,
                k <= count,
                shared.height == old(shared).height,
                shared.job_id == old(shared).job_id,
                shared.pre_nonce == old(shared).pre_nonce,
                shared.post_nonce == old(shared).post_nonce,
                shared.difficulty == old(shared).difficulty,
                shared.stats == old(shared).stats,
                start == old(shared).solutions@,
                shared.solutions@.len() == start.len() + k,
                forall|m: int| 0 <= m < start.len() ==> shared.solutions@[m] == start[m],
                forall|m: int|
                    0 <= m < k ==> (#[trigger] shared.solutions@[start.len() + m])@ == (
                    SolutionModel {
                        id: job.job_id as u64,
                        nonce: sols.sols@[m].nonce,
                        params: ParamsModel::Cuckoo(sols.edge_bits, sols.sols@[m].proof@),
                    }),
            decreases count - k,
        {
            let c = &sols.sols[k];
            let sol = Solution::new(
                job.job_id as u64,
                c.nonce,
                AlgorithmParams::Cuckoo(sols.edge_bits, c.to_u64s()),
            );
            shared.solutions.push(sol);
            k += 1;
        }
        if count > 0 {
            self.last_solution_time = now;
        }
        count
    }

    /// The statistics record of a finished quantum.
    fn quantum_record(
        &self,
        start: u64,
        end: u64,
        rate: u64,
        plugin: &str,
        device: Option<&str>,
    ) -> (r: Stats)
        requires
            fits_name_field(plugin),
            device.is_some() ==> fits_name_field(device.unwrap()),
        ensures
            quantum_stats(
                r,
                start,
                end,
                self.last_solution_time,
                self.iterations,
                rate as nat,
                plugin.spec_bytes(),
                match device {
                    Some(d) => d.spec_bytes(),
                    None => Seq::empty(),
                },
            ),
    {
        let mut s = Stats::default();
        s.last_start_time = start;
        s.last_end_time = end;
        s.last_solution_time = self.last_solution_time;
        s.iterations = self.iterations as u32;
        s.hashes_per_sec = rate;
        s.set_plugin_name(plugin);
        match device {
            Some(d) => s.set_device_name(d),
            None => {
                assert(s.device_name@ =~= name_field(Seq::empty()));
            },
        }
        s
    }
}

/// The epoch index handed to the ProgPow kernel for `height`, truncated to
/// 32 bits as the kernel takes it.
pub fn pp_epoch(height: u64) -> (r: i32)
    ensures
        r == (height / PP_EPOCH_LENGTH) as i32,
{
    (height / PP_EPOCH_LENGTH) as i32
}

proof fn lemma_worker_names_fit()
    ensures
        fits_name_field(RX_ALGORITHM_NAME),
        fits_name_field(RX_DEVICE_NAME),
        fits_name_field(PP_ALGORITHM_NAME),
{
    reveal_strlit("randomx");
    reveal_strlit("cpu");
    reveal_strlit("progpow");
    vstd::string::is_ascii_spec_bytes(RX_ALGORITHM_NAME);
    vstd::string::is_ascii_spec_bytes(RX_DEVICE_NAME);
    vstd::string::is_ascii_spec_bytes(PP_ALGORITHM_NAME);
}

/// A hash exactly equal to the boundary of its job is accepted: it is the
/// first accepted hash of a quantum whose earlier hashes are all above.
pub proof fn lemma_boundary_hash_accepted(hashes: Seq<[u8; 32]>, difficulty: u64, i: int)
    requires
        0 <= i < hashes.len(),
        be_value(hashes[i]@) == boundary_value(difficulty),
        forall|j: int| 0 <= j < i ==> be_value((#[trigger] hashes[j])@) > boundary_value(difficulty),
    ensures
        first_accepted(hashes, difficulty, i),
{
}

/// At difficulty zero every hash is accepted, so the first hash of a
/// quantum is the one that becomes a solution.
pub proof fn lemma_difficulty_zero_accepts_first(hashes: Seq<[u8; 32]>)
    requires
        hashes.len() > 0,
    ensures
        first_accepted(hashes, 0, 0),
{
    assert(hashes[0]@.len() == 32);
    lemma_hash_within_max(hashes[0]@);
}

/// A worker that has not stopped sends exactly one `SolverStopped` report for
/// any sequence of control messages that holds a `Stop`, and none for one
/// that does not.
pub proof fn lemma_stop_reported_once(paused: bool, msgs: Seq<ControlMessage>)
    ensures
        stop_reports(paused, false, msgs) == if exists|i: int|
            0 <= i < msgs.len() && (#[trigger] msgs[i]) is Stop {
            1nat
        } else {
            0nat
        },
    decreases msgs.len(),
{
    if msgs.len() > 0 {
        let next = after_control(paused, false, msgs[0]);
        let rest = msgs.drop_first();
        if msgs[0] is Stop {
            lemma_stopped_reports_nothing(next.0, rest);
        } else {
            lemma_stop_reported_once(next.0, rest);
            if exists|i: int| 0 <= i < msgs.len() && (#[trigger] msgs[i]) is Stop {
                let i = choose|i: int| 0 <= i < msgs.len() && (#[trigger] msgs[i]) is Stop;
                assert(rest[i - 1] is Stop);
            }
            if exists|i: int| 0 <= i < rest.len() && (#[trigger] rest[i]) is Stop {
                let i = choose|i: int| 0 <= i < rest.len() && (#[trigger] rest[i]) is Stop;
                assert(msgs[i + 1] is Stop);
            }
        }
    }
}

/// A stopped worker sends no further report.
pub proof fn lemma_stopped_reports_nothing(paused: bool, msgs: Seq<ControlMessage>)
    ensures
        stop_reports(paused, true, msgs) == 0,
    decreases msgs.len(),
{
    if msgs.len() > 0 {
        lemma_stopped_reports_nothing(paused, msgs.drop_first());
    }
}

} // verus!
