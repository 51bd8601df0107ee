use vstd::prelude::*;

use crate::types::{Solution, Stats};

verus! {

/// Seconds between two statistics reports of the controller.
pub const STAT_OUTPUT_INTERVAL: u64 = 2;

/// Messages the stratum client sends to the controller.
#[derive(Debug, Clone)]
pub enum MinerMessage {
    /// A job: height, job id, difficulty, hex of the header before the nonce.
    ReceivedJob(u64, u64, u64, String),
    /// Epochs to register: start height, end height, seed.
    ReceivedSeed(Vec<(u64, u64, [u8; 32])>),
    /// Stop mining the current job.
    StopJob,
    /// Stop every worker and leave the controller loop.
    Shutdown,
}

/// Messages the controller sends to the stratum client.
#[derive(Debug, Clone)]
pub enum ClientMessage {
    /// A solution, with the height the controller was mining at.
    FoundSolution(u64, Solution),
}

/// What the controller asks of the miner for one message.
#[derive(Debug, Clone)]
pub enum MinerCommand {
    /// Install a job.
    Notify { job_id: u32, height: u64, pre_nonce: String, post_nonce: String, difficulty: u64 },
    /// Register epochs, in order.
    AddEpochs(Vec<(u64, u64, [u8; 32])>),
    /// Pause every worker.
    PauseSolvers,
    /// Stop every worker, wait for all of them, and leave the loop.
    Shutdown,
}

/// The job the controller is mining, as last received.
#[derive(Debug, Clone, Copy, PartialEq, Eq, Structural)]
pub struct ControllerState {
    pub current_height: u64,
    pub current_job_id: u64,
    pub current_target_diff: u64,
}

/// Sum of the rates of all workers, saturating at `u64::MAX`.
pub open spec fn rate_sum(stats: Seq<Stats>) -> nat
    decreases stats.len(),
{
    if stats.len() == 0 {
        0
    } else {
        rate_sum(stats.drop_last()) + stats.last().hashes_per_sec as nat
    }
}

/// Whether `cmd` installs the job with these fields and an empty part after
/// the nonce.
pub open spec fn is_notify(cmd: MinerCommand, job_id: u32, height: u64, pre_nonce: Seq<char>, difficulty: u64) -> bool {
    match cmd {
        MinerCommand::Notify { job_id: j, height: h, pre_nonce: pre, post_nonce: post, difficulty: d } => {
            &&& j == job_id
            &&& h == height
            &&& pre@ == pre_nonce
            &&& post@.len() == 0
            &&& d == difficulty
        },
        _ => false,
    }
}

/// Whether `m` reports solution `s` at height `height`.
pub open spec fn reports(m: ClientMessage, height: u64, s: Solution) -> bool {
    match m {
        ClientMessage::FoundSolution(h, t) => h == height && t == s,
    }
}

impl ControllerState {
    pub fn new() -> (r: ControllerState)
        ensures
            r.current_height == 0,
            r.current_job_id == 0,
            r.current_target_diff == 0,
    {
        ControllerState { current_height: 0, current_job_id: 0, current_target_diff: 0 }
    }

    /// The command for one message from the client. A job updates the current
    /// height, job id and difficulty and is installed with an empty part after
    /// the nonce; seeds are registered; `StopJob` pauses; `Shutdown` stops.
    pub fn handle(&mut self, msg: MinerMessage) -> (cmd: MinerCommand)
        ensures
            match msg {
                MinerMessage::ReceivedJob(height, job_id, diff, pre_pow) => {
                    &&& final(self).current_height == height
                    &&& final(self).current_job_id == job_id
                    &&& final(self).current_target_diff == diff
                    &&& is_notify(cmd, job_id as u32, height, pre_pow@, diff)
                },
                MinerMessage::ReceivedSeed(epochs) => *final(self) == *old(self) && cmd
                    == MinerCommand::AddEpochs(epochs),
                MinerMessage::StopJob => *final(self) == *old(self) && cmd is PauseSolvers,
                MinerMessage::Shutdown => *final(self) == *old(self) && cmd is Shutdown,
            },
    {
        match msg {
            MinerMessage::ReceivedJob(height, job_id, diff, pre_pow) => {
                self.current_height = height;
                self.current_job_id = job_id;
                self.current_target_diff = diff;
                MinerCommand::Notify {
                    job_id: job_id as u32,
                    height,
                    pre_nonce: pre_pow,
                    post_nonce: String::new(),
                    difficulty: diff,
                }
            },
            MinerMessage::ReceivedSeed(epochs) => MinerCommand::AddEpochs(epochs),
            MinerMessage::StopJob => MinerCommand::PauseSolvers,
            MinerMessage::Shutdown => MinerCommand::Shutdown,
        }
    }

    /// The reports for collected solutions, in order, each with the current
    /// height.
    pub fn solution_reports(&self, solutions: Vec<Solution>) -> (r: Vec<ClientMessage>)
        ensures
            r@.len() == solutions@.len(),
            forall|i: int|
                0 <= i < r@.len() ==> reports(#[trigger] r@[i], self.current_height, solutions@[i]),
    {
        let mut r: Vec<ClientMessage> = Vec::new();
        let mut rest = solutions;
        let ghost all = rest@;
        while rest.len() > 0
            invariant
                all == solutions@,
                r@.len() + rest@.len() == all.len(),
                rest@ == all.subrange(r@.len() as int, all.len() as int),
                forall|i: int|
                    0 <= i < r@.len() ==> reports(#[trigger] r@[i], self.current_height, all[i]),
            decreases rest@.len(),
        {
            let ghost k = r@.len() as int;
            let s = rest.remove(0);
            assert(s == all[k]);
            r.push(ClientMessage::FoundSolution(self.current_height, s));
            assert(rest@ =~= all.subrange(r@.len() as int, all.len() as int));
        }
        r
    }
}

/// The combined rate of a hashing back-end: the sum of every worker's rate,
/// saturating at `u64::MAX`.
pub fn total_hashes_per_sec(stats: &Vec<Stats>) -> (r: u64)
    ensures
        r as nat == if rate_sum(stats@) <= u64::MAX {
            rate_sum(stats@)
        } else {
            u64::MAX as nat
        },
{
    let mut total: u64 = 0;
    let mut i: usize = 0;
    while i < stats.len()
        invariant
            i <= stats@.len(),
            total as nat == if rate_sum(stats@.subrange(0, i as int)) <= u64::MAX {
                rate_sum(stats@.subrange(0, i as int))
            } else {
                u64::MAX as nat
            },
        decreases stats@.len() - i,
    {
        assert(stats@.subrange(0, i + 1).drop_last() =~= stats@.subrange(0, i as int));
        total = total.saturating_add(stats[i].hashes_per_sec);
        i += 1;
    }
    assert(stats@.subrange(0, i as int) =~= stats@);
    total
}

} // verus!
