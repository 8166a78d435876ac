//! One device: its two-phase lifecycle and the commands that each step of it
//! puts on the device's queue.
//!
//! A unit never touches a device. Each step returns what is to be enqueued,
//! in order; the caller enqueues it and comes back when the device has
//! answered.

use secp256k1::rand::rngs::OsRng;
use secp256k1::rand::RngCore;
use vstd::prelude::*;
use vstd::string::StringExecFns;

use crate::config::{Config, HashTarget, ModeError, PROFANITY_MAX_SCORE};
use crate::speed_meter::{SpeedMeter, SpeedMeterView};
use crate::text::{decimal_text, push_decimal};
use crate::types::{HashResult, ScoreData};

verus! {

/// Into how many batches the initialization of a device is cut. A rest that
/// the division leaves makes one batch more.
pub const INIT_BATCHES: usize = 50;

/// The name of the kernel that initializes the candidates.
pub const KERNEL_INIT: &'static str = "profanity_init";

/// The name of the kernel that inverts a batch of field elements.
pub const KERNEL_INVERSE: &'static str = "profanity_inverse";

/// The name of the kernel that advances every candidate by one step.
pub const KERNEL_ITERATE: &'static str = "profanity_iterate";

/// The name of the kernel that turns addresses into contract addresses.
pub const KERNEL_TRANSFORM_CONTRACT: &'static str = "profanity_transform_contract";

/// Where a device stands in its lifecycle.
#[derive(Debug, Clone, Copy, PartialEq, Eq, Structural)]
pub enum Phase {
    /// Registered; nothing was enqueued yet.
    Created,
    /// The candidates are being initialized, batch by batch.
    Initializing,
    /// Every candidate is initialized; no round was started yet.
    Ready,
    /// Search rounds are running.
    Computing,
}

/// What a step of the initialization puts on the queue.
#[derive(Debug, Clone, Copy, PartialEq, Eq, Structural)]
pub enum InitCommand {
    /// Launch the init kernel over `count` candidates that begin at
    /// `offset`, flush the queue, and come back when the batch is done.
    Launch { offset: usize, count: usize },
    /// Every candidate is initialized: release the precompute table and
    /// signal that this device is ready.
    Finish,
}

/// The kernels of a device: the one that initializes the candidates, and
/// those of a search round.
#[derive(Debug, Clone, Copy, PartialEq, Eq, Structural)]
pub enum KernelKind {
    Init,
    Inverse,
    Iterate,
    TransformContract,
    Score,
}

/// The buffers of a device.
#[derive(Debug, Clone, Copy, PartialEq, Eq, Structural)]
pub enum BufferKind {
    /// The table of multiples of the generator, loaded once.
    Precomp,
    /// The delta-X of every candidate.
    PointsDeltaX,
    /// The inverse of every candidate, and what the round makes of it.
    InversedNegativeDoubleGy,
    /// The lambda of every candidate in the step before.
    PrevLambda,
    /// The result slots, one for each score.
    Result,
    /// The first parameter block of the scoring kernel.
    Data1,
    /// The second parameter block of the scoring kernel.
    Data2,
}

/// Who may do what with a buffer.
#[derive(Debug, Clone, Copy, PartialEq, Eq, Structural)]
pub enum BufferAccess {
    /// The device reads and writes; the host only reads.
    HostReads,
    /// The device reads and writes; the host stays out.
    DeviceOnly,
    /// The device only reads, from memory that the host keeps.
    HostMemory,
    /// The device only reads, from a copy of what the host hands over.
    HostCopy,
}

/// What a kernel is handed.
#[derive(Debug, Clone, Copy, PartialEq, Eq, Structural)]
pub enum KernelArgument {
    Buffer(BufferKind),
    /// The random seed of the device, as four limbs.
    Seed,
    /// X of the base public key, as four limbs.
    SeedX,
    /// Y of the base public key, as four limbs.
    SeedY,
    /// The score below which the scoring kernel records nothing.
    ScoreMax,
}

/// How a kernel of the round is built.
#[derive(Debug, Clone, Copy, PartialEq, Eq, Structural)]
pub struct KernelSetup {
    pub kind: KernelKind,
    pub global_work_size: usize,
    pub local_work_size: usize,
}

/// What a search round puts on the queue, one command after the other.
#[derive(Debug, Clone, Copy, PartialEq, Eq, Structural)]
pub enum RoundCommand {
    /// Read the `slots` result slots back to the host, without waiting.
    ReadResults { slots: usize },
    /// Launch a kernel of the round.
    Launch(KernelKind),
    /// Hand the scoring kernel the score below which it records nothing.
    SetScoreThreshold(u64),
    /// Flush the queue.
    Flush,
    /// Come back with the slots when the read of this round's first command
    /// is done.
    NotifyOnRead,
}

/// How the launch of a kernel ended.
#[derive(Debug, Clone, Copy, PartialEq, Eq, Structural)]
pub enum LaunchStatus {
    Success,
    InvalidWorkGroupSize,
    InvalidWorkItemSize,
    OtherError,
}

/// What follows the launch of a kernel.
#[derive(Debug, Clone, Copy, PartialEq, Eq, Structural)]
pub enum LaunchDecision {
    /// The kernel is on the queue.
    Done,
    /// Give up the local work size, let the driver pick one, and launch the
    /// same kernel once more.
    RetryWithDefaultSize,
    /// The run cannot go on.
    Fatal,
}

/// What the first round of a device starts with.
pub struct ComputePlan {
    /// The kernels to build, in the order in which a round launches them.
    pub kernels: Vec<KernelSetup>,
    /// The first parameter block of the scoring kernel; zeros where the mode
    /// has none.
    pub data1: ScoreData,
    /// The second parameter block of the scoring kernel; zeros where the
    /// mode has none.
    pub data2: ScoreData,
    /// The commands of the first round.
    pub round: Vec<RoundCommand>,
}

/// What a unit holds.
pub struct ComputeUnitView {
    pub config: Config,
    pub device_index: usize,
    /// How many candidates the device works on.
    pub size: usize,
    /// The random seed, least significant limb first.
    pub seed: [u64; 4],
    /// X of the base public key, least significant limb first.
    pub seed_x: [u64; 4],
    /// Y of the base public key, least significant limb first.
    pub seed_y: [u64; 4],
    /// The best score that this device has reported.
    pub max_score: u64,
    /// How many rounds are completed.
    pub round: usize,
    /// How many candidates are initialized.
    pub size_initialized: usize,
    /// The size of the batch that was launched last.
    pub last_init_size: usize,
    /// The result slots of the last completed round.
    pub last_result: Seq<HashResult>,
    pub speed_meter: SpeedMeterView,
    pub phase: Phase,
}

pub struct ComputeUnit<'a> {
    config: &'a Config,
    device_index: usize,
    size: usize,
    seed: [u64; 4],
    seed_x: [u64; 4],
    seed_y: [u64; 4],
    max_score: u64,
    round: usize,
    size_initialized: usize,
    last_init_size: usize,
    last_result: Vec<HashResult>,
    speed_meter: SpeedMeter,
    phase: Phase,
}

/// The number that eight bytes of `bytes` from `at` on stand for, the most
/// significant byte first.
pub open spec fn be_u64(bytes: Seq<u8>, at: int) -> u64
    recommends
        0 <= at,
        at + 8 <= bytes.len(),
{
    (bytes[at] * 0x0100_0000_0000_0000 + bytes[at + 1] * 0x0001_0000_0000_0000 + bytes[at + 2]
        * 0x0000_0100_0000_0000 + bytes[at + 3] * 0x0000_0001_0000_0000 + bytes[at + 4]
        * 0x0000_0000_0100_0000 + bytes[at + 5] * 0x0000_0000_0001_0000 + bytes[at + 6]
        * 0x0000_0000_0000_0100 + bytes[at + 7]) as u64
}

/// The number that eight bytes of `bytes` from `at` on stand for, the least
/// significant byte first.
pub open spec fn le_u64(bytes: Seq<u8>, at: int) -> u64
    recommends
        0 <= at,
        at + 8 <= bytes.len(),
{
    (bytes[at + 7] * 0x0100_0000_0000_0000 + bytes[at + 6] * 0x0001_0000_0000_0000 + bytes[at
        + 5] * 0x0000_0100_0000_0000 + bytes[at + 4] * 0x0000_0001_0000_0000 + bytes[at + 3]
        * 0x0000_0000_0100_0000 + bytes[at + 2] * 0x0000_0000_0001_0000 + bytes[at + 1]
        * 0x0000_0000_0000_0100 + bytes[at]) as u64
}

/// The four limbs of the 256-bit big-endian number that begins at `at`, the
/// least significant limb first.
pub open spec fn coordinate_limbs(bytes: Seq<u8>, at: int) -> Seq<u64>
    recommends
        0 <= at,
        at + 32 <= bytes.len(),
{
    seq![be_u64(bytes, at + 24), be_u64(bytes, at + 16), be_u64(bytes, at + 8), be_u64(bytes, at)]
}

/// The seed that 32 random bytes make: limb `i` is the little-endian number
/// of the bytes `8i` to `8i + 7`.
pub open spec fn seed_limbs(bytes: Seq<u8>) -> Seq<u64>
    recommends
        bytes.len() == 32,
{
    seq![le_u64(bytes, 0), le_u64(bytes, 8), le_u64(bytes, 16), le_u64(bytes, 24)]
}

/// The size of an initialization batch of a device that works on `size`
/// candidates.
pub open spec fn init_batch_size(size: usize) -> usize {
    size / INIT_BATCHES
}

/// The kernels of a round under `config`, in the order of their launch. Only
/// the inverse kernel runs over the inverse multiplier; the others run over
/// every candidate. The transform kernel is there for contracts only.
pub open spec fn kernel_setups(config: Config) -> Seq<KernelSetup> {
    let local_work_size = config.local_work_size;
    let inverse = KernelSetup {
        kind: KernelKind::Inverse,
        global_work_size: config.inverse_multiplier,
        local_work_size,
    };
    let iterate = KernelSetup {
        kind: KernelKind::Iterate,
        global_work_size: config.max_work_size,
        local_work_size,
    };
    let transform = KernelSetup {
        kind: KernelKind::TransformContract,
        global_work_size: config.max_work_size,
        local_work_size,
    };
    let score = KernelSetup {
        kind: KernelKind::Score,
        global_work_size: config.max_work_size,
        local_work_size,
    };
    if config.target == HashTarget::Contract {
        seq![inverse, iterate, transform, score]
    } else {
        seq![inverse, iterate, score]
    }
}

/// The commands of one round. The read of the slots that the round before
/// has filled comes first, and the kernels of this round follow it on the
/// queue at once: nothing between them waits for the host.
pub open spec fn round_commands(target: HashTarget, threshold: u64) -> Seq<RoundCommand> {
    let read = RoundCommand::ReadResults { slots: (PROFANITY_MAX_SCORE + 1) as usize };
    let tail = seq![
        RoundCommand::SetScoreThreshold(threshold),
        RoundCommand::Launch(KernelKind::Score),
        RoundCommand::Flush,
        RoundCommand::NotifyOnRead,
    ];
    if target == HashTarget::Contract {
        seq![
            read,
            RoundCommand::Launch(KernelKind::Inverse),
            RoundCommand::Launch(KernelKind::Iterate),
            RoundCommand::Launch(KernelKind::TransformContract),
        ] + tail
    } else {
        seq![
            read,
            RoundCommand::Launch(KernelKind::Inverse),
            RoundCommand::Launch(KernelKind::Iterate),
        ] + tail
    }
}

/// What the kernel `kind` is handed, in the order of its parameters.
pub open spec fn kernel_arguments(kind: KernelKind) -> Seq<KernelArgument> {
    let delta_x = KernelArgument::Buffer(BufferKind::PointsDeltaX);
    let inverse = KernelArgument::Buffer(BufferKind::InversedNegativeDoubleGy);
    let prev_lambda = KernelArgument::Buffer(BufferKind::PrevLambda);
    let result = KernelArgument::Buffer(BufferKind::Result);
    match kind {
        KernelKind::Init => seq![
            KernelArgument::Buffer(BufferKind::Precomp),
            delta_x,
            prev_lambda,
            result,
            KernelArgument::Seed,
            KernelArgument::SeedX,
            KernelArgument::SeedY,
        ],
        KernelKind::Inverse => seq![delta_x, inverse],
        KernelKind::Iterate => seq![delta_x, inverse, prev_lambda],
        KernelKind::TransformContract => seq![inverse],
        KernelKind::Score => seq![
            inverse,
            result,
            KernelArgument::Buffer(BufferKind::Data1),
            KernelArgument::Buffer(BufferKind::Data2),
            KernelArgument::ScoreMax,
        ],
    }
}

/// A parameter block as the scoring kernel gets it: zeros where the mode has
/// no such block.
pub open spec fn block_or_zeros(block: Option<Seq<u8>>) -> Seq<u8> {
    match block {
        Some(data) => data,
        None => Seq::new(20, |i: int| 0u8),
    }
}

/// `count` empty result slots.
pub open spec fn empty_slots(count: nat) -> Seq<HashResult> {
    Seq::new(count, |i: int| HashResult::empty())
}

/// What follows a launch that ended with `status` on a kernel whose local
/// work size is `local_work_size` (0: the driver picks). Only a size that the
/// device refuses, and that is not the driver's own, is given up.
pub open spec fn launch_decision(local_work_size: usize, status: LaunchStatus) -> LaunchDecision {
    match status {
        LaunchStatus::Success => LaunchDecision::Done,
        LaunchStatus::InvalidWorkGroupSize | LaunchStatus::InvalidWorkItemSize =>
            if local_work_size != 0 {
                LaunchDecision::RetryWithDefaultSize
            } else {
                LaunchDecision::Fatal
            },
        LaunchStatus::OtherError => LaunchDecision::Fatal,
    }
}

/// The line that says that a local work size was given up.
pub open spec fn abandon_warning_text(local_work_size: usize, device_index: usize) -> Seq<char> {
    "  Warning: local work size "@ + decimal_text(local_work_size as nat) + " abandoned on GPU "@
        + decimal_text(device_index as nat)
}

/// `try_fill_bytes` of `OsRng` in rand_core, as secp256k1 hands it on: 32
/// bytes from the operating system's random source, or `None` where the
/// source fails. Nothing is known of the bytes.
#[verifier::external_body]
fn os_random_bytes() -> Option<[u8; 32]> {
    let mut bytes = [0u8; 32];
    match OsRng.try_fill_bytes(&mut bytes) {
        Ok(()) => Some(bytes),
        Err(_) => None,
    }
}

/// Reads eight bytes as a number, the most significant byte first.
fn read_be_u64(bytes: &[u8; 64], at: usize) -> (value: u64)
    requires
        at + 8 <= 64,
    ensures
        value == be_u64(bytes@, at as int),
{
    (bytes[at] as u64) * 0x0100_0000_0000_0000 + (bytes[at + 1] as u64) * 0x0001_0000_0000_0000
        + (bytes[at + 2] as u64) * 0x0000_0100_0000_0000 + (bytes[at + 3] as u64)
        * 0x0000_0001_0000_0000 + (bytes[at + 4] as u64) * 0x0000_0000_0100_0000 + (bytes[at
        + 5] as u64) * 0x0000_0000_0001_0000 + (bytes[at + 6] as u64) * 0x0000_0000_0000_0100
        + (bytes[at + 7] as u64)
}

/// Reads eight bytes as a number, the least significant byte first.
fn read_le_u64(bytes: &[u8; 32], at: usize) -> (value: u64)
    requires
        at + 8 <= 32,
    ensures
        value == le_u64(bytes@, at as int),
{
    (bytes[at + 7] as u64) * 0x0100_0000_0000_0000 + (bytes[at + 6] as u64)
        * 0x0001_0000_0000_0000 + (bytes[at + 5] as u64) * 0x0000_0100_0000_0000 + (bytes[at
        + 4] as u64) * 0x0000_0001_0000_0000 + (bytes[at + 3] as u64) * 0x0000_0000_0100_0000
        + (bytes[at + 2] as u64) * 0x0000_0000_0001_0000 + (bytes[at + 1] as u64)
        * 0x0000_0000_0000_0100 + (bytes[at] as u64)
}

/// The limbs of one coordinate of the base public key: the 32 bytes from
/// `at` on, read as a big-endian number, least significant limb first.
pub fn public_key_limbs(public_key: &[u8; 64], at: usize) -> (limbs: [u64; 4])
    requires
        at + 32 <= 64,
    ensures
        limbs@ == coordinate_limbs(public_key@, at as int),
{
    let limbs = [
        read_be_u64(public_key, at + 24),
        read_be_u64(public_key, at + 16),
        read_be_u64(public_key, at + 8),
        read_be_u64(public_key, at),
    ];
    proof {
        assert(limbs@ =~= coordinate_limbs(public_key@, at as int));
    }
    limbs
}

/// The seed that 32 random bytes make.
pub fn seed_from_bytes(bytes: &[u8; 32]) -> (seed: [u64; 4])
    ensures
        seed@ == seed_limbs(bytes@),
{
    let seed = [
        read_le_u64(bytes, 0),
        read_le_u64(bytes, 8),
        read_le_u64(bytes, 16),
        read_le_u64(bytes, 24),
    ];
    proof {
        assert(seed@ =~= seed_limbs(bytes@));
    }
    seed
}

/// A fresh random seed from the operating system, or `None` where its
/// random source fails.
pub fn create_seed() -> (seed: Option<[u64; 4]>) {
    match os_random_bytes() {
        Some(bytes) => Some(seed_from_bytes(&bytes)),
        None => None,
    }
}

/// Decides what follows the launch of a kernel. A size that the device
/// refuses is given up once, for the driver's own; after that, and on every
/// other error, the run cannot go on.
pub fn enqueue_kernel(local_work_size: usize, status: LaunchStatus) -> (decision: LaunchDecision)
    ensures
        decision == launch_decision(local_work_size, status),
        decision == LaunchDecision::Done <==> status == LaunchStatus::Success,
        decision == LaunchDecision::RetryWithDefaultSize ==> local_work_size != 0,
{
    match status {
        LaunchStatus::Success => LaunchDecision::Done,
        LaunchStatus::InvalidWorkGroupSize | LaunchStatus::InvalidWorkItemSize => {
            if local_work_size != 0 {
                LaunchDecision::RetryWithDefaultSize
            } else {
                LaunchDecision::Fatal
            }
        },
        LaunchStatus::OtherError => LaunchDecision::Fatal,
    }
}

/// The line that says that `local_work_size` was given up on a device.
pub fn abandon_warning(local_work_size: usize, device_index: usize) -> (text: String)
    ensures
        text@ == abandon_warning_text(local_work_size, device_index),
{
    let mut text = String::from_str("  Warning: local work size ");
    push_decimal(&mut text, local_work_size as u128);
    text.append(" abandoned on GPU ");
    push_decimal(&mut text, device_index as u128);
    text
}

/// `count` empty result slots.
fn make_empty_slots(count: usize) -> (slots: Vec<HashResult>)
    ensures
        slots@ == empty_slots(count as nat),
{
    let mut slots: Vec<HashResult> = Vec::new();
    let mut i: usize = 0;
    while i < count
        invariant
            i <= count,
            slots@ == empty_slots(i as nat),
        decreases count - i,
    {
        slots.push(HashResult::new());
        proof {
            assert(slots@ =~= empty_slots((i + 1) as nat));
        }
        i += 1;
    }
    slots
}

/// A parameter block as the scoring kernel gets it.
fn block_or_default(block: Option<ScoreData>) -> (data: ScoreData)
    ensures
        data@ == block_or_zeros(crate::config::block_view(block)),
{
    match block {
        Some(data) => data,
        None => {
            let data: ScoreData = [0u8; 20];
            proof {
                assert(data@ =~= Seq::new(20, |i: int| 0u8));
            }
            data
        },
    }
}

impl BufferKind {
    /// Who may do what with the buffer.
    pub open spec fn spec_access(self) -> BufferAccess {
        match self {
            BufferKind::Precomp => BufferAccess::HostMemory,
            BufferKind::Result => BufferAccess::HostReads,
            BufferKind::PointsDeltaX | BufferKind::InversedNegativeDoubleGy | BufferKind::PrevLambda =>
                BufferAccess::DeviceOnly,
            BufferKind::Data1 | BufferKind::Data2 => BufferAccess::HostCopy,
        }
    }

    /// How many elements the buffer holds under `config`: one for each
    /// candidate in the working arrays, one for each score in the result
    /// slots, one for each byte in a parameter block. The table is as long
    /// as what the host keeps, which `config` does not say.
    pub open spec fn spec_len(self, config: Config) -> Option<usize> {
        match self {
            BufferKind::Precomp => None,
            BufferKind::Result => Some((PROFANITY_MAX_SCORE + 1) as usize),
            BufferKind::PointsDeltaX | BufferKind::InversedNegativeDoubleGy | BufferKind::PrevLambda =>
                Some(config.max_work_size),
            BufferKind::Data1 | BufferKind::Data2 => Some(crate::types::SCORE_DATA_SIZE),
        }
    }

    /// Who may do what with the buffer.
    pub fn access(&self) -> (access: BufferAccess)
        ensures
            access == self.spec_access(),
    {
        match self {
            BufferKind::Precomp => BufferAccess::HostMemory,
            BufferKind::Result => BufferAccess::HostReads,
            BufferKind::PointsDeltaX => BufferAccess::DeviceOnly,
            BufferKind::InversedNegativeDoubleGy => BufferAccess::DeviceOnly,
            BufferKind::PrevLambda => BufferAccess::DeviceOnly,
            BufferKind::Data1 => BufferAccess::HostCopy,
            BufferKind::Data2 => BufferAccess::HostCopy,
        }
    }

    /// How many elements the buffer holds under `config`; `None` for the
    /// table, which is as long as what the host keeps.
    pub fn len(&self, config: &Config) -> (len: Option<usize>)
        ensures
            len == self.spec_len(*config),
    {
        match self {
            BufferKind::Precomp => None,
            BufferKind::Result => Some(PROFANITY_MAX_SCORE + 1),
            BufferKind::PointsDeltaX => Some(config.max_work_size),
            BufferKind::InversedNegativeDoubleGy => Some(config.max_work_size),
            BufferKind::PrevLambda => Some(config.max_work_size),
            BufferKind::Data1 => Some(crate::types::SCORE_DATA_SIZE),
            BufferKind::Data2 => Some(crate::types::SCORE_DATA_SIZE),
        }
    }
}

impl KernelArgument {
    /// The name of the kernel's parameter that takes the argument.
    pub open spec fn spec_name(self) -> Seq<char> {
        match self {
            KernelArgument::Buffer(BufferKind::Precomp) => "precomp"@,
            KernelArgument::Buffer(BufferKind::PointsDeltaX) => "pDeltaX"@,
            KernelArgument::Buffer(BufferKind::InversedNegativeDoubleGy) => "pInverse"@,
            KernelArgument::Buffer(BufferKind::PrevLambda) => "pPrevLambda"@,
            KernelArgument::Buffer(BufferKind::Result) => "pResult"@,
            KernelArgument::Buffer(BufferKind::Data1) => "data1"@,
            KernelArgument::Buffer(BufferKind::Data2) => "data2"@,
            KernelArgument::Seed => "seed"@,
            KernelArgument::SeedX => "seedX"@,
            KernelArgument::SeedY => "seedY"@,
            KernelArgument::ScoreMax => "scoreMax"@,
        }
    }

    /// The name of the kernel's parameter that takes the argument.
    pub fn name(&self) -> (name: &'static str)
        ensures
            name@ == self.spec_name(),
    {
        match self {
            KernelArgument::Buffer(BufferKind::Precomp) => "precomp",
            KernelArgument::Buffer(BufferKind::PointsDeltaX) => "pDeltaX",
            KernelArgument::Buffer(BufferKind::InversedNegativeDoubleGy) => "pInverse",
            KernelArgument::Buffer(BufferKind::PrevLambda) => "pPrevLambda",
            KernelArgument::Buffer(BufferKind::Result) => "pResult",
            KernelArgument::Buffer(BufferKind::Data1) => "data1",
            KernelArgument::Buffer(BufferKind::Data2) => "data2",
            KernelArgument::Seed => "seed",
            KernelArgument::SeedX => "seedX",
            KernelArgument::SeedY => "seedY",
            KernelArgument::ScoreMax => "scoreMax",
        }
    }
}

impl KernelKind {
    /// The name of the kernel under `config`: the scoring kernel is the one
    /// that the mode selects.
    pub open spec fn spec_name(self, config: Config) -> Seq<char> {
        match self {
            KernelKind::Init => KERNEL_INIT@,
            KernelKind::Inverse => KERNEL_INVERSE@,
            KernelKind::Iterate => KERNEL_ITERATE@,
            KernelKind::TransformContract => KERNEL_TRANSFORM_CONTRACT@,
            KernelKind::Score => config.mode.spec_kernel_name(),
        }
    }

    /// The name of the kernel under `config`.
    pub fn name(&self, config: &Config) -> (name: &'static str)
        ensures
            name@ == self.spec_name(*config),
    {
        match self {
            KernelKind::Init => KERNEL_INIT,
            KernelKind::Inverse => KERNEL_INVERSE,
            KernelKind::Iterate => KERNEL_ITERATE,
            KernelKind::TransformContract => KERNEL_TRANSFORM_CONTRACT,
            KernelKind::Score => config.mode.get_kernel_name(),
        }
    }

    /// What the kernel is handed, in the order of its parameters.
    pub fn arguments(&self) -> (arguments: Vec<KernelArgument>)
        ensures
            arguments@ == kernel_arguments(*self),
    {
        let delta_x = KernelArgument::Buffer(BufferKind::PointsDeltaX);
        let inverse = KernelArgument::Buffer(BufferKind::InversedNegativeDoubleGy);
        let prev_lambda = KernelArgument::Buffer(BufferKind::PrevLambda);
        let result = KernelArgument::Buffer(BufferKind::Result);
        let mut arguments: Vec<KernelArgument> = Vec::new();
        match self {
            KernelKind::Init => {
                arguments.push(KernelArgument::Buffer(BufferKind::Precomp));
                arguments.push(delta_x);
                arguments.push(prev_lambda);
                arguments.push(result);
                arguments.push(KernelArgument::Seed);
                arguments.push(KernelArgument::SeedX);
                arguments.push(KernelArgument::SeedY);
            },
            KernelKind::Inverse => {
                arguments.push(delta_x);
                arguments.push(inverse);
            },
            KernelKind::Iterate => {
                arguments.push(delta_x);
                arguments.push(inverse);
                arguments.push(prev_lambda);
            },
            KernelKind::TransformContract => {
                arguments.push(inverse);
            },
            KernelKind::Score => {
                arguments.push(inverse);
                arguments.push(result);
                arguments.push(KernelArgument::Buffer(BufferKind::Data1));
                arguments.push(KernelArgument::Buffer(BufferKind::Data2));
                arguments.push(KernelArgument::ScoreMax);
            },
        }
        proof {
            assert(arguments@ =~= kernel_arguments(*self));
        }
        arguments
    }
}

impl ComputeUnitView {
    /// The counters agree with the phase: nothing is initialized before the
    /// initialization begins, no more than the device's size ever is, and
    /// all of it is before the first round.
    pub open spec fn wf(self) -> bool {
        &&& self.size == self.config.max_work_size
        &&& self.speed_meter.wf()
        &&& self.seed_x@ == coordinate_limbs(self.config.public_key@, 0)
        &&& self.seed_y@ == coordinate_limbs(self.config.public_key@, 32)
        &&& match self.phase {
            Phase::Created => self.size_initialized == 0 && self.last_init_size == 0,
            Phase::Initializing => self.size_initialized + self.last_init_size <= self.size,
            Phase::Ready | Phase::Computing => self.size_initialized == self.size,
        }
    }

    /// What a freshly registered unit holds.
    pub open spec fn created(self, config: Config, device_index: usize, seed: [u64; 4], now_ms: u128) -> bool {
        &&& self.config == config
        &&& self.device_index == device_index
        &&& self.size == config.max_work_size
        &&& self.seed == seed
        &&& self.seed_x@ == coordinate_limbs(config.public_key@, 0)
        &&& self.seed_y@ == coordinate_limbs(config.public_key@, 32)
        &&& self.max_score == 0
        &&& self.round == 0
        &&& self.size_initialized == 0
        &&& self.last_init_size == 0
        &&& self.last_result == Seq::<HashResult>::empty()
        &&& self.speed_meter == (SpeedMeterView {
            sample_count: crate::config::SPEED_METER_SAMPLE_COUNT,
            last_sample_ms: now_ms,
            samples: Seq::empty(),
        })
        &&& self.phase == Phase::Created
    }

    /// The unit after its initialization has begun.
    pub open spec fn start_init(self) -> ComputeUnitView {
        ComputeUnitView { last_init_size: 0, round: 0, phase: Phase::Initializing, ..self }
    }

    /// The unit after the search has begun at `now_ms`.
    pub open spec fn compute(self, now_ms: u128) -> ComputeUnitView {
        ComputeUnitView {
            speed_meter: self.speed_meter.reset(now_ms),
            last_result: empty_slots((PROFANITY_MAX_SCORE + 1) as nat),
            phase: Phase::Computing,
            ..self
        }
    }

    /// The unit after the step of the initialization that follows a
    /// completed batch.
    pub open spec fn init_continue(self) -> ComputeUnitView {
        let done = (self.size_initialized + self.last_init_size) as usize;
        if done >= self.size {
            ComputeUnitView { size_initialized: done, phase: Phase::Ready, ..self }
        } else {
            ComputeUnitView {
                size_initialized: done,
                last_init_size: self.next_batch(),
                ..self
            }
        }
    }

    /// The size of the batch that the next step launches: what is left, but
    /// no more than a batch.
    pub open spec fn next_batch(self) -> usize {
        let done = self.size_initialized + self.last_init_size;
        let left = self.size - done;
        if left < init_batch_size(self.size) {
            left as usize
        } else {
            init_batch_size(self.size)
        }
    }

    /// The command of the step of the initialization that follows a
    /// completed batch.
    pub open spec fn init_command(self) -> InitCommand {
        let done = (self.size_initialized + self.last_init_size) as usize;
        if done >= self.size {
            InitCommand::Finish
        } else {
            InitCommand::Launch { offset: done, count: self.next_batch() }
        }
    }

    /// The unit after the commands of a round were handed out at `now_ms`;
    /// `from_completion` says whether a round was completed just before.
    pub open spec fn compute_continue(self, from_completion: bool, now_ms: u128) -> ComputeUnitView {
        ComputeUnitView {
            speed_meter: if from_completion {
                self.speed_meter.log(self.size, now_ms)
            } else {
                self.speed_meter
            },
            last_result: empty_slots((PROFANITY_MAX_SCORE + 1) as nat),
            ..self
        }
    }
}

impl<'a> View for ComputeUnit<'a> {
    type V = ComputeUnitView;

    closed spec fn view(&self) -> ComputeUnitView {
        ComputeUnitView {
            config: *self.config,
            device_index: self.device_index,
            size: self.size,
            seed: self.seed,
            seed_x: self.seed_x,
            seed_y: self.seed_y,
            max_score: self.max_score,
            round: self.round,
            size_initialized: self.size_initialized,
            last_init_size: self.last_init_size,
            last_result: self.last_result@,
            speed_meter: self.speed_meter@,
            phase: self.phase,
        }
    }
}

impl<'a> ComputeUnit<'a> {
    /// A unit for the device `device_index` with the random seed `seed`. The
    /// limbs of the base public key come from `config`; nothing is
    /// initialized and no round has run.
    pub fn new(device_index: usize, config: &'a Config, seed: [u64; 4], now_ms: u128) -> (unit:
        Self)
        ensures
            unit@.created(*config, device_index, seed, now_ms),
            unit@.wf(),
    {
        ComputeUnit {
            config,
            device_index,
            size: config.max_work_size,
            seed,
            seed_x: public_key_limbs(&config.public_key, 0),
            seed_y: public_key_limbs(&config.public_key, 32),
            max_score: 0,
            round: 0,
            size_initialized: 0,
            last_init_size: 0,
            last_result: Vec::new(),
            speed_meter: SpeedMeter::new(config.get_speed_meter_sample_count(), now_ms),
            phase: Phase::Created,
        }
    }

    /// Begins the initialization. The caller loads the precompute table onto
    /// the device and then asks for the first batch.
    pub fn start_init(&mut self)
        requires
            old(self)@.wf(),
            old(self)@.phase == Phase::Created,
        ensures
            final(self)@ == old(self)@.start_init(),
            final(self)@.wf(),
    {
        self.last_init_size = 0;
        self.round = 0;
        self.phase = Phase::Initializing;
    }

    /// The next step of the initialization, to be taken when the batch that
    /// was launched last is done (and once at the start, when none was). The
    /// batch counts as initialized. Where that covers the device's size the
    /// initialization is over; else the next batch is launched behind it.
    pub fn init_continue(&mut self) -> (command: InitCommand)
        requires
            old(self)@.wf(),
            old(self)@.phase == Phase::Initializing,
        ensures
            final(self)@ == old(self)@.init_continue(),
            command == old(self)@.init_command(),
            final(self)@.wf(),
            command == InitCommand::Finish <==> final(self)@.phase == Phase::Ready,
            command == InitCommand::Finish <==> final(self)@.size_initialized == final(self)@.size,
            command matches InitCommand::Launch { offset, count } ==> {
                &&& offset + count <= final(self)@.size
                &&& count <= init_batch_size(final(self)@.size)
            },
    {
        let init_batch_size = self.size / INIT_BATCHES;
        self.size_initialized = self.size_initialized + self.last_init_size;
        let finished = self.size_initialized >= self.size;
        if !finished {
            let left = self.size - self.size_initialized;
            let size_to_work = if left < init_batch_size {
                left
            } else {
                init_batch_size
            };
            self.last_init_size = size_to_work;
            InitCommand::Launch { offset: self.size_initialized, count: size_to_work }
        } else {
            self.phase = Phase::Ready;
            InitCommand::Finish
        }
    }

    /// Begins the search: says how the kernels of a round are built and
    /// hands out the commands of the first round. A mode that cannot be
    /// encoded is rejected, and the unit stays as it was.
    pub fn compute(&mut self, now_ms: u128) -> (r: Result<ComputePlan, ModeError>)
        requires
            old(self)@.wf(),
            old(self)@.phase == Phase::Ready,
        ensures
            old(self)@.size_initialized == old(self)@.size,
            r is Err <==> old(self)@.config.mode.too_long(),
            r matches Err(e) ==> e == ModeError::MatchingTooLong && final(self)@ == old(self)@,
            r matches Ok(plan) ==> {
                &&& plan.kernels@ == kernel_setups(old(self)@.config)
                &&& plan.data1@ == block_or_zeros(old(self)@.config.mode.spec_data1())
                &&& plan.data2@ == block_or_zeros(old(self)@.config.mode.spec_data2())
                &&& plan.round@ == round_commands(old(self)@.config.target, old(self)@.max_score)
                &&& final(self)@ == old(self)@.compute(now_ms)
            },
            final(self)@.wf(),
    {
        let (data1, data2) = match self.config.mode.get_data() {
            Ok(blocks) => blocks,
            Err(e) => {
                return Err(e);
            },
        };
        let local_work_size = self.config.local_work_size;
        let mut kernels: Vec<KernelSetup> = Vec::new();
        kernels.push(
            KernelSetup {
                kind: KernelKind::Inverse,
                global_work_size: self.config.inverse_multiplier,
                local_work_size,
            },
        );
        kernels.push(
            KernelSetup { kind: KernelKind::Iterate, global_work_size: self.size, local_work_size },
        );
        if let HashTarget::Contract = self.config.target {
            kernels.push(
                KernelSetup {
                    kind: KernelKind::TransformContract,
                    global_work_size: self.size,
                    local_work_size,
                },
            );
        }
        kernels.push(
            KernelSetup { kind: KernelKind::Score, global_work_size: self.size, local_work_size },
        );
        proof {
            assert(kernels@ =~= kernel_setups(old(self)@.config));
        }
        self.speed_meter.reset(now_ms);
        self.phase = Phase::Computing;
        let round = self.compute_continue(false, now_ms);
        Ok(
            ComputePlan {
                kernels,
                data1: block_or_default(data1),
                data2: block_or_default(data2),
                round,
            },
        )
    }

    /// Hands out the commands of the next round. After a completed round
    /// (`from_completion`) the meter takes a sample first. The slots on the
    /// host are emptied; the read of the device's slots is the first command,
    /// and the kernels of the new round follow it without a wait.
    pub fn compute_continue(&mut self, from_completion: bool, now_ms: u128) -> (commands: Vec<
        RoundCommand,
    >)
        requires
            old(self)@.wf(),
            old(self)@.phase == Phase::Computing,
        ensures
            old(self)@.size_initialized == old(self)@.size,
            commands@ == round_commands(old(self)@.config.target, old(self)@.max_score),
            final(self)@ == old(self)@.compute_continue(from_completion, now_ms),
            final(self)@.wf(),
    {
        if from_completion {
            self.speed_meter.log(self.size, now_ms);
        }
        self.last_result = make_empty_slots(PROFANITY_MAX_SCORE + 1);
        let mut commands: Vec<RoundCommand> = Vec::new();
        commands.push(RoundCommand::ReadResults { slots: PROFANITY_MAX_SCORE + 1 });
        commands.push(RoundCommand::Launch(KernelKind::Inverse));
        commands.push(RoundCommand::Launch(KernelKind::Iterate));
        if let HashTarget::Contract = self.config.target {
            commands.push(RoundCommand::Launch(KernelKind::TransformContract));
        }
        commands.push(RoundCommand::SetScoreThreshold(self.max_score));
        commands.push(RoundCommand::Launch(KernelKind::Score));
        commands.push(RoundCommand::Flush);
        commands.push(RoundCommand::NotifyOnRead);
        proof {
            assert(commands@ =~= round_commands(old(self)@.config.target, old(self)@.max_score));
        }
        commands
    }

    /// Takes in the slots that the device has filled in the round that was
    /// just completed.
    pub fn set_last_result(&mut self, result: Vec<HashResult>)
        ensures
            final(self)@ == (ComputeUnitView { last_result: result@, ..old(self)@ }),
    {
        self.last_result = result;
    }

    pub fn get_last_init_size(&self) -> (size: usize)
        ensures
            size == self@.last_init_size,
    {
        self.last_init_size
    }

    pub fn get_last_result(&self) -> (result: &Vec<HashResult>)
        ensures
            result@ == self@.last_result,
    {
        &self.last_result
    }

    pub fn set_max_score(&mut self, max_score: u64)
        ensures
            final(self)@ == (ComputeUnitView { max_score, ..old(self)@ }),
    {
        self.max_score = max_score;
    }

    pub fn get_max_score(&self) -> (max_score: u64)
        ensures
            max_score == self@.max_score,
    {
        self.max_score
    }

    pub fn get_seed(&self) -> (seed: [u64; 4])
        ensures
            seed == self@.seed,
    {
        self.seed
    }

    /// X of the base public key, least significant limb first.
    pub fn get_seed_x(&self) -> (limbs: [u64; 4])
        ensures
            limbs == self@.seed_x,
    {
        self.seed_x
    }

    /// Y of the base public key, least significant limb first.
    pub fn get_seed_y(&self) -> (limbs: [u64; 4])
        ensures
            limbs == self@.seed_y,
    {
        self.seed_y
    }

    /// Counts one more completed round.
    pub fn increase_round(&mut self)
        requires
            old(self)@.round < usize::MAX,
        ensures
            final(self)@ == (ComputeUnitView { round: (old(self)@.round + 1) as usize, ..old(self)@ }),
    {
        self.round = self.round + 1;
    }

    pub fn get_round(&self) -> (round: usize)
        ensures
            round == self@.round,
    {
        self.round
    }

    pub fn get_device_index(&self) -> (index: usize)
        ensures
            index == self@.device_index,
    {
        self.device_index
    }

    /// How many candidates the device works on.
    pub fn get_size(&self) -> (size: usize)
        ensures
            size == self@.size,
    {
        self.size
    }

    /// How many candidates are initialized.
    pub fn get_size_initialized(&self) -> (size: usize)
        ensures
            size == self@.size_initialized,
    {
        self.size_initialized
    }

    pub fn get_phase(&self) -> (phase: Phase)
        ensures
            phase == self@.phase,
    {
        self.phase
    }

    /// The throughput meter of the device.
    pub fn get_speed_meter(&self) -> (meter: &SpeedMeter)
        ensures
            meter@ == self@.speed_meter,
    {
        &self.speed_meter
    }
}

/// A device whose search has begun, or may begin, is initialized in full.
pub proof fn lemma_search_needs_full_init(unit: ComputeUnitView)
    requires
        unit.wf(),
        unit.phase == Phase::Ready || unit.phase == Phase::Computing,
    ensures
        unit.size_initialized == unit.size,
{
}

/// The batches of the initialization follow each other without gap or
/// overlap: a batch begins where the one before it ends, and the last one
/// ends where the device's size does. A batch holds at least one candidate
/// exactly where the device works on at least as many as there are batches.
pub proof fn lemma_batches_are_contiguous(unit: ComputeUnitView)
    requires
        unit.wf(),
        unit.phase == Phase::Initializing,
        unit.init_command() is Launch,
    ensures
        ({
            let offset = unit.init_command()->offset;
            let count = unit.init_command()->count;
            &&& offset == unit.size_initialized + unit.last_init_size
            &&& offset + count <= unit.size
            &&& count > 0 <==> unit.size >= INIT_BATCHES
            &&& match unit.init_continue().init_command() {
                InitCommand::Launch { offset: next, count: _ } => next == offset + count,
                InitCommand::Finish => offset + count == unit.size,
            }
        }),
{
}

/// Whatever the target and the threshold, a round begins with the read of
/// the slots and ends with the flush and the notice; all that lies between
/// them launches a kernel or sets the threshold, so that nothing on the
/// queue waits for the host. The scoring kernel is launched last, with the
/// threshold set just before it.
pub proof fn lemma_read_back_leads_the_round(target: HashTarget, threshold: u64)
    ensures
        ({
            let commands = round_commands(target, threshold);
            let n = commands.len() as int;
            &&& n == if target == HashTarget::Contract {
                8int
            } else {
                7int
            }
            &&& commands[0] == (RoundCommand::ReadResults { slots: (PROFANITY_MAX_SCORE + 1) as usize })
            &&& commands[1] == RoundCommand::Launch(KernelKind::Inverse)
            &&& commands[2] == RoundCommand::Launch(KernelKind::Iterate)
            &&& commands[n - 4] == RoundCommand::SetScoreThreshold(threshold)
            &&& commands[n - 3] == RoundCommand::Launch(KernelKind::Score)
            &&& commands[n - 2] == RoundCommand::Flush
            &&& commands[n - 1] == RoundCommand::NotifyOnRead
            &&& forall|i: int|
                0 < i < n - 2 ==> (#[trigger] commands[i]) is Launch || commands[i] is SetScoreThreshold
        }),
{
}

} // verus!
