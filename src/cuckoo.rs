use vstd::prelude::*;
use vstd::string::{StrSliceExecFns, StringSliceAdditionalSpecFns};

use crate::types::{fits_name_field, name_string, name_text, name_field, write_name, MAX_NAME_LEN};

verus! {

/// Number of nonces in a Cuckoo cycle.
pub const PROOFSIZE: usize = 42;

/// Most solutions a plugin reports for one round.
pub const MAX_SOLS: usize = 4;

/// Parameters of a Cuckoo solver plugin.
#[derive(Debug, Clone, Copy, PartialEq, Eq, Structural)]
pub struct SolverParams {
    pub nthreads: u32,
    pub ntrims: u32,
    /// Whether to report cycles (needed to get solutions).
    pub showcycle: bool,
    pub allrounds: bool,
    /// Whether the plugin applies the nonce to the header itself.
    pub mutate_nonce: bool,
    pub cpuload: bool,
    pub device: u32,
    pub blocks: u32,
    pub tpb: u32,
    pub expand: u32,
    pub genablocks: u32,
    pub genatpb: u32,
    pub genbtpb: u32,
    pub trimtpb: u32,
    pub tailtpb: u32,
    pub recoverblocks: u32,
    pub recovertpb: u32,
    pub platform: u32,
    pub edge_bits: u32,
}

impl Default for SolverParams {
    fn default() -> (r: SolverParams)
        ensures
            r == default_params(),
    {
        SolverParams {
            nthreads: 0,
            ntrims: 0,
            showcycle: true,
            allrounds: false,
            mutate_nonce: false,
            cpuload: false,
            device: 0,
            blocks: 0,
            tpb: 0,
            expand: 0,
            genablocks: 0,
            genatpb: 0,
            genbtpb: 0,
            trimtpb: 0,
            tailtpb: 0,
            recoverblocks: 0,
            recovertpb: 0,
            platform: 0,
            edge_bits: 0,
        }
    }
}

/// Parameters before any is configured: cycles shown, everything else zero.
pub open spec fn default_params() -> SolverParams {
    SolverParams {
        nthreads: 0,
        ntrims: 0,
        showcycle: true,
        allrounds: false,
        mutate_nonce: false,
        cpuload: false,
        device: 0,
        blocks: 0,
        tpb: 0,
        expand: 0,
        genablocks: 0,
        genatpb: 0,
        genbtpb: 0,
        trimtpb: 0,
        tailtpb: 0,
        recoverblocks: 0,
        recovertpb: 0,
        platform: 0,
        edge_bits: 0,
    }
}

/// The parameters after the configuration key `name` was set to `value`;
/// unchanged for an unknown key. `cpuload` is on exactly for the value 1.
pub open spec fn resolved(p: SolverParams, name: Seq<char>, value: u32) -> SolverParams {
    if name == "nthreads"@ {
        SolverParams { nthreads: value, ..p }
    } else if name == "ntrims"@ {
        SolverParams { ntrims: value, ..p }
    } else if name == "cpuload"@ {
        SolverParams { cpuload: value == 1, ..p }
    } else if name == "device"@ {
        SolverParams { device: value, ..p }
    } else if name == "blocks"@ {
        SolverParams { blocks: value, ..p }
    } else if name == "tpb"@ {
        SolverParams { tpb: value, ..p }
    } else if name == "expand"@ {
        SolverParams { expand: value, ..p }
    } else if name == "genablocks"@ {
        SolverParams { genablocks: value, ..p }
    } else if name == "genatpb"@ {
        SolverParams { genatpb: value, ..p }
    } else if name == "genbtpb"@ {
        SolverParams { genbtpb: value, ..p }
    } else if name == "trimtpb"@ {
        SolverParams { trimtpb: value, ..p }
    } else if name == "tailtpb"@ {
        SolverParams { tailtpb: value, ..p }
    } else if name == "recoverblocks"@ {
        SolverParams { recoverblocks: value, ..p }
    } else if name == "recovertpb"@ {
        SolverParams { recovertpb: value, ..p }
    } else if name == "platform"@ {
        SolverParams { platform: value, ..p }
    } else if name == "edge_bits"@ {
        SolverParams { edge_bits: value, ..p }
    } else {
        p
    }
}

/// Whether `name` is a configuration key of the solver parameters.
pub open spec fn is_known_param(name: Seq<char>) -> bool {
    name == "nthreads"@ || name == "ntrims"@ || name == "cpuload"@ || name == "device"@ || name
        == "blocks"@ || name == "tpb"@ || name == "expand"@ || name == "genablocks"@ || name
        == "genatpb"@ || name == "genbtpb"@ || name == "trimtpb"@ || name == "tailtpb"@ || name
        == "recoverblocks"@ || name == "recovertpb"@ || name == "platform"@ || name
        == "edge_bits"@
}

fn same_text(a: &str, b: &str) -> (r: bool)
    ensures
        r == (a@ == b@),
{
    let n = a.unicode_len();
    if n != b.unicode_len() {
        return false;
    }
    let mut i: usize = 0;
    while i < n
        invariant
            n == a@.len(),
            n == b@.len(),
            i <= n,
            forall|k: int| 0 <= k < i ==> a@[k] == b@[k],
        decreases n - i,
    {
        if a.get_char(i) != b.get_char(i) {
            return false;
        }
        i += 1;
    }
    assert(a@ =~= b@);
    true
}

/// Sets the solver parameter called `name` to `value`. Returns whether the
/// key is known; an unknown key changes nothing.
pub fn resolve_param(config: &mut SolverParams, name: &str, value: u32) -> (known: bool)
    ensures
        *final(config) == resolved(*old(config), name@, value),
        known == is_known_param(name@),
{
    if same_text(name, "nthreads") {
        config.nthreads = value;
    } else if same_text(name, "ntrims") {
        config.ntrims = value;
    } else if same_text(name, "cpuload") {
        config.cpuload = value == 1;
    } else if same_text(name, "device") {
        config.device = value;
    } else if same_text(name, "blocks") {
        config.blocks = value;
    } else if same_text(name, "tpb") {
        config.tpb = value;
    } else if same_text(name, "expand") {
        config.expand = value;
    } else if same_text(name, "genablocks") {
        config.genablocks = value;
    } else if same_text(name, "genatpb") {
        config.genatpb = value;
    } else if same_text(name, "genbtpb") {
        config.genbtpb = value;
    } else if same_text(name, "trimtpb") {
        config.trimtpb = value;
    } else if same_text(name, "tailtpb") {
        config.tailtpb = value;
    } else if same_text(name, "recoverblocks") {
        config.recoverblocks = value;
    } else if same_text(name, "recovertpb") {
        config.recovertpb = value;
    } else if same_text(name, "platform") {
        config.platform = value;
    } else if same_text(name, "edge_bits") {
        config.edge_bits = value;
    } else {
        return false;
    }
    true
}

/// Statistics a Cuckoo plugin reports for one device.
#[derive(Clone, Copy)]
pub struct SolverStats {
    pub device_id: u32,
    /// Graph size.
    pub edge_bits: u32,
    pub plugin_name: [u8; MAX_NAME_LEN],
    pub device_name: [u8; MAX_NAME_LEN],
    pub has_errored: bool,
    /// Searches completed by the device.
    pub iterations: u32,
    pub last_start_time: u64,
    pub last_end_time: u64,
    /// Time the last search took.
    pub last_solution_time: u64,
}

impl Default for SolverStats {
    fn default() -> (r: SolverStats)
        ensures
            r.device_id == 0,
            r.edge_bits == 0,
            forall|i: int| 0 <= i < MAX_NAME_LEN ==> r.plugin_name@[i] == 0,
            forall|i: int| 0 <= i < MAX_NAME_LEN ==> r.device_name@[i] == 0,
            !r.has_errored,
            r.iterations == 0,
            r.last_start_time == 0,
            r.last_end_time == 0,
            r.last_solution_time == 0,
    {
        SolverStats {
            device_id: 0,
            edge_bits: 0,
            plugin_name: [0u8; MAX_NAME_LEN],
            device_name: [0u8; MAX_NAME_LEN],
            has_errored: false,
            iterations: 0,
            last_start_time: 0,
            last_end_time: 0,
            last_solution_time: 0,
        }
    }
}

impl SolverStats {
    /// The device name as a string.
    pub fn get_device_name(&self) -> (r: String)
        ensures
            r@ == name_text(self.device_name@),
    {
        name_string(&self.device_name)
    }

    /// The plugin name as a string.
    pub fn get_plugin_name(&self) -> (r: String)
        ensures
            r@ == name_text(self.plugin_name@),
    {
        name_string(&self.plugin_name)
    }

    /// Sets the plugin name; the rest of the field is zeroed.
    pub fn set_plugin_name(&mut self, name: &str)
        requires
            fits_name_field(name),
        ensures
            final(self).plugin_name@ == name_field(name.spec_bytes()),
            final(self).device_name == old(self).device_name,
            final(self).iterations == old(self).iterations,
            final(self).last_solution_time == old(self).last_solution_time,
    {
        write_name(&mut self.plugin_name, name);
    }
}

/// BLAKE2b with a 32-byte digest and no key.
pub uninterp spec fn blake2b_256(data: Seq<u8>) -> Seq<u8>;

/// Relies on blake2_rfc::blake2b::blake2b: the unkeyed BLAKE2b digest of
/// `data`, 32 bytes long, which depends on `data` alone.
#[verifier::external_body]
fn blake2b_256_of(data: &[u8]) -> (r: [u8; 32])
    ensures
        r@ == blake2b_256(data@),
{
    let h = blake2_rfc::blake2b::blake2b(32, &[], data);
    let mut out = [0u8; 32];
    out.copy_from_slice(h.as_bytes());
    out
}

/// The four bytes of `n`, most significant first.
pub open spec fn be_u32_bytes(n: u32) -> Seq<u8> {
    seq![(n >> 24u32) as u8, (n >> 16u32) as u8, (n >> 8u32) as u8, n as u8]
}

/// The bytes a Cuckoo proof is hashed over: the low 32 bits of each nonce,
/// big-endian, in order.
pub open spec fn proof_bytes(proof: Seq<u64>) -> Seq<u8>
    decreases proof.len(),
{
    if proof.len() == 0 {
        Seq::empty()
    } else {
        proof_bytes(proof.drop_last()) + be_u32_bytes(proof.last() as u32)
    }
}

/// A Cuckoo cycle found by a plugin.
#[derive(Clone, Copy, Debug)]
pub struct Solution {
    pub nonce: u64,
    pub proof: [u64; PROOFSIZE],
}

impl Default for Solution {
    fn default() -> (r: Solution)
        ensures
            r.nonce == 0,
            forall|i: int| 0 <= i < PROOFSIZE ==> r.proof@[i] == 0,
    {
        Solution { nonce: 0, proof: [0u64; PROOFSIZE] }
    }
}

impl PartialEq for Solution {
    /// Two solutions are equal when their proofs are; the nonce is not compared.
    fn eq(&self, other: &Solution) -> (r: bool)
        ensures
            r == (self.proof@ == other.proof@),
    {
        let mut i: usize = 0;
        while i < PROOFSIZE
            invariant
                i <= PROOFSIZE,
                forall|k: int| 0 <= k < i ==> self.proof@[k] == other.proof@[k],
            decreases PROOFSIZE - i,
        {
            if self.proof[i] != other.proof[i] {
                return false;
            }
            i += 1;
        }
        assert(self.proof@ =~= other.proof@);
        true
    }
}

impl vstd::std_specs::cmp::PartialEqSpecImpl for Solution {
    open spec fn obeys_eq_spec() -> bool {
        true
    }

    open spec fn eq_spec(&self, other: &Solution) -> bool {
        self.proof@ == other.proof@
    }
}

impl Solution {
    /// The nonces of the proof, in order.
    pub fn to_u64s(&self) -> (r: Vec<u64>)
        ensures
            r@ == self.proof@,
    {
        let mut nonces: Vec<u64> = Vec::new();
        let mut i: usize = 0;
        while i < PROOFSIZE
            invariant
                i <= PROOFSIZE,
                nonces@ == self.proof@.subrange(0, i as int),
            decreases PROOFSIZE - i,
        {
            nonces.push(self.proof[i]);
            i += 1;
            assert(nonces@ =~= self.proof@.subrange(0, i as int));
        }
        assert(nonces@ =~= self.proof@);
        nonces
    }

    /// The hash of the solution: BLAKE2b-256 over the low 32 bits of each
    /// nonce of the proof, big-endian.
    pub fn hash(&self) -> (r: [u8; 32])
        ensures
            r@ == blake2b_256(proof_bytes(self.proof@)),
    {
        let mut bytes: Vec<u8> = Vec::new();
        let mut i: usize = 0;
        while i < PROOFSIZE
            invariant
                i <= PROOFSIZE,
                bytes@ == proof_bytes(self.proof@.subrange(0, i as int)),
            decreases PROOFSIZE - i,
        {
            let n = self.proof[i] as u32;
            bytes.push((n >> 24u32) as u8);
            bytes.push((n >> 16u32) as u8);
            bytes.push((n >> 8u32) as u8);
            bytes.push(n as u8);
            assert(self.proof@.subrange(0, i + 1).drop_last() =~= self.proof@.subrange(0, i as int));
            i += 1;
            assert(bytes@ =~= proof_bytes(self.proof@.subrange(0, i as int)));
        }
        assert(self.proof@.subrange(0, PROOFSIZE as int) =~= self.proof@);
        blake2b_256_of(bytes.as_slice())
    }
}

/// The solutions a plugin reports for one round.
#[derive(Clone, Copy)]
pub struct SolverSolutions {
    /// Graph size.
    pub edge_bits: u32,
    /// Number of valid entries in `sols`.
    pub num_sols: u32,
    pub sols: [Solution; MAX_SOLS],
}

impl Default for SolverSolutions {
    fn default() -> (r: SolverSolutions)
        ensures
            r.edge_bits == 0,
            r.num_sols == 0,
    {
        SolverSolutions { edge_bits: 0, num_sols: 0, sols: [Solution::default();MAX_SOLS] }
    }
}

} // verus!
