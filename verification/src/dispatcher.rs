//! The coordinator: it owns the units of all devices, adds up their
//! initialization progress, keeps the best score over all of them, and
//! recovers and reports the key of every discovery.

use vstd::prelude::*;
use vstd::string::StringExecFns;

use crate::compute_unit::{
    create_seed, ComputePlan, ComputeUnit, ComputeUnitView, InitCommand, Phase, RoundCommand,
};
use crate::config::{Config, HashTarget, ModeError, PROFANITY_MAX_SCORE};
use crate::speed_meter::elapsed_between;
use crate::text::{
    decimal_text, hex16_text, pad_field, pad_right, push_decimal, push_hex16,
};
use crate::types::HashResult;
use crate::utils::{checksum_text, keccak256, lower_hex_ascii, to_checksum_address};

verus! {

/// A candidate that reached a score no device had reached before.
pub struct Discovery {
    /// The score, which is the index of the slot that held the candidate.
    pub score: usize,
    /// The device that found it.
    pub device_index: usize,
    /// The rounds that the device had completed when it was found.
    pub round: usize,
    /// The private key, least significant limb first.
    pub key: [u64; 4],
    /// The report of the discovery.
    pub line: String,
}

/// What the coordinator says after a batch of the initialization.
pub struct InitReport {
    /// How many candidates are initialized, over all devices.
    pub total_initialized: usize,
    /// How many candidates there are, over all devices.
    pub total_size: usize,
    /// What the device does next.
    pub command: InitCommand,
}

/// What the coordinator says after a round.
pub struct RoundReport {
    /// The discovery of the round, if it made one.
    pub discovery: Option<Discovery>,
    /// The commands of the device's next round.
    pub commands: Vec<RoundCommand>,
}

/// The slots that a device read back after a round.
pub struct Observation {
    pub device: int,
    pub slots: Seq<HashResult>,
}

/// What a coordinator holds.
pub struct DispatcherView {
    pub config: Config,
    /// The best score over all devices.
    pub max_score: usize,
    /// How many candidates there are, over all devices.
    pub total_size: usize,
    /// How many candidates are initialized, over all devices.
    pub total_initialized: usize,
    /// When the search began.
    pub time_start_ms: u128,
    pub units: Seq<ComputeUnitView>,
}

pub struct Dispatcher<'a> {
    config: &'a Config,
    max_score: usize,
    total_size: usize,
    total_initialized: usize,
    time_start_ms: u128,
    compute_units: Vec<ComputeUnit<'a>>,
}

/// The sum of `f` over `units`.
pub open spec fn total_of(units: Seq<ComputeUnitView>, f: spec_fn(ComputeUnitView) -> nat) -> nat
    decreases units.len(),
{
    if units.len() == 0 {
        0
    } else {
        total_of(units.drop_last(), f) + f(units.last())
    }
}

/// How many candidates the devices of `units` work on, all together.
pub open spec fn size_total(units: Seq<ComputeUnitView>) -> nat {
    total_of(units, |u: ComputeUnitView| u.size as nat)
}

/// How many candidates of `units` are initialized, all together.
pub open spec fn initialized_total(units: Seq<ComputeUnitView>) -> nat {
    total_of(units, |u: ComputeUnitView| u.size_initialized as nat)
}

/// Whether slot `i` is the one that a scan above `floor` reports: it lies
/// above `floor`, holds a candidate, and no slot above it holds one.
pub open spec fn is_top_find(slots: Seq<HashResult>, floor: int, i: int) -> bool {
    &&& floor < i < slots.len()
    &&& slots[i].found > 0
    &&& forall|j: int| i < j < slots.len() ==> (#[trigger] slots[j]).found == 0
}

/// The slot that a scan above `floor` reports, if there is one.
pub open spec fn top_find(slots: Seq<HashResult>, floor: int) -> Option<int> {
    if exists|i: int| is_top_find(slots, floor, i) {
        Some(choose|i: int| is_top_find(slots, floor, i))
    } else {
        None
    }
}

/// `v` reduced to 64 bits.
pub open spec fn wrap64(v: int) -> u64 {
    (v % 0x1_0000_0000_0000_0000) as u64
}

/// The private key of the candidate `found_id` of round `round` on a device
/// with the seed `seed`, least significant limb first. The round goes into
/// the lowest limb and the candidate's position into the highest; a limb
/// takes a carry from the one below where that one has wrapped, which for
/// the two limbs in the middle is read off their being zero.
pub open spec fn private_key(seed: Seq<u64>, round: u64, found_id: u32) -> Seq<u64> {
    let k0 = wrap64(seed[0] + round);
    let c0: int = if k0 < round { 1 } else { 0 };
    let k1 = wrap64(seed[1] + c0);
    let c1: int = if k1 == 0 { 1 } else { 0 };
    let k2 = wrap64(seed[2] + c1);
    let c2: int = if k2 == 0 { 1 } else { 0 };
    let k3 = wrap64(seed[3] + c2 + found_id);
    seq![k0, k1, k2, k3]
}

/// The time since the search began as a report shows it: milliseconds below
/// one second, whole seconds from there on.
pub open spec fn time_text(elapsed_ms: nat) -> Seq<char> {
    if elapsed_ms < 1000 {
        decimal_text(elapsed_ms) + "ms"@
    } else {
        decimal_text(elapsed_ms / 1000) + "s"@
    }
}

/// The report of a discovery: the score, the time, the kind of target with
/// the identifier that was found, and the key as 64 hexadecimal digits, most
/// significant limb first.
pub open spec fn result_line_text(
    score: nat,
    elapsed_ms: nat,
    target: HashTarget,
    address: Seq<char>,
    key: Seq<u64>,
) -> Seq<char> {
    "  Score: "@ + pad_right(decimal_text(score), 2) + " Time: "@ + pad_right(
        time_text(elapsed_ms),
        7,
    ) + " "@ + target.spec_text() + ": 0x"@ + address + " Key: "@ + hex16_text(key[3])
        + hex16_text(key[2]) + hex16_text(key[1]) + hex16_text(key[0])
}

/// The line that says that a device is initialized.
pub open spec fn initialized_line_text(device_index: usize) -> Seq<char> {
    "  GPU"@ + decimal_text(device_index as nat) + " initialized"@
}

/// The identifier of a found hash as reports show it.
pub open spec fn address_text(found_hash: Seq<u8>) -> Seq<char> {
    checksum_text(found_hash, keccak256(lower_hex_ascii(found_hash)))
}

/// At most one slot is the one that a scan reports.
pub proof fn lemma_top_find_unique(slots: Seq<HashResult>, floor: int, i: int)
    requires
        is_top_find(slots, floor, i),
    ensures
        top_find(slots, floor) == Some(i),
{
    let c = choose|c: int| is_top_find(slots, floor, c);
    if c < i {
        assert(slots[i].found == 0);
    } else if i < c {
        assert(slots[c].found == 0);
    }
}

/// A scan reports nothing only where no slot above the floor holds a
/// candidate, and what it reports lies above the floor.
pub proof fn lemma_top_find_none(slots: Seq<HashResult>, floor: int)
    ensures
        top_find(slots, floor) is None <==> (forall|j: int|
            floor < j < slots.len() ==> (#[trigger] slots[j]).found == 0),
        top_find(slots, floor) matches Some(i) ==> is_top_find(slots, floor, i),
{
    if exists|j: int| floor < j < slots.len() && (#[trigger] slots[j]).found != 0 {
        let j = choose|j: int| floor < j < slots.len() && (#[trigger] slots[j]).found != 0;
        lemma_highest_find(slots, floor, j, slots.len() as int);
    } else {
        if exists|i: int| is_top_find(slots, floor, i) {
            let i = choose|i: int| is_top_find(slots, floor, i);
            assert(slots[i].found == 0);
        }
    }
}

/// Where a slot above the floor holds a candidate, some slot is the highest
/// that does.
proof fn lemma_highest_find(slots: Seq<HashResult>, floor: int, j: int, top: int)
    requires
        floor < j < top <= slots.len(),
        slots[j].found != 0,
        forall|k: int| top <= k < slots.len() ==> (#[trigger] slots[k]).found == 0,
    ensures
        exists|i: int| is_top_find(slots, floor, i),
    decreases top - j,
{
    if slots[top - 1].found != 0 {
        assert(is_top_find(slots, floor, top - 1));
    } else {
        lemma_highest_find(slots, floor, j, top - 1);
    }
}

/// Replacing one unit changes a sum by what that unit's part changes.
proof fn lemma_total_update(
    units: Seq<ComputeUnitView>,
    f: spec_fn(ComputeUnitView) -> nat,
    d: int,
    unit: ComputeUnitView,
)
    requires
        0 <= d < units.len(),
    ensures
        total_of(units.update(d, unit), f) == total_of(units, f) - f(units[d]) + f(unit),
    decreases units.len(),
{
    let updated = units.update(d, unit);
    if d == units.len() - 1 {
        assert(updated.drop_last() =~= units.drop_last());
    } else {
        assert(updated.drop_last() =~= units.drop_last().update(d, unit));
        lemma_total_update(units.drop_last(), f, d, unit);
    }
}

/// A sum of smaller parts is smaller.
proof fn lemma_total_le(
    units: Seq<ComputeUnitView>,
    f: spec_fn(ComputeUnitView) -> nat,
    g: spec_fn(ComputeUnitView) -> nat,
)
    requires
        forall|d: int| 0 <= d < units.len() ==> f(#[trigger] units[d]) <= g(units[d]),
    ensures
        total_of(units, f) <= total_of(units, g),
    decreases units.len(),
{
    if units.len() > 0 {
        let front = units.drop_last();
        assert forall|d: int| 0 <= d < front.len() implies f(#[trigger] front[d]) <= g(
            front[d],
        ) by {
            assert(front[d] == units[d]);
        }
        lemma_total_le(front, f, g);
    }
}

impl DispatcherView {
    /// The best score of every device is at most the best score over all.
    pub open spec fn scores_ordered(self) -> bool {
        forall|d: int| 0 <= d < self.units.len() ==> (#[trigger] self.units[d]).max_score
            <= self.max_score
    }

    /// The counters are the sums that they stand for, every unit is sound
    /// and shares the coordinator's settings, and no score is out of range
    /// or above the best score over all.
    pub open spec fn wf(self) -> bool {
        &&& forall|d: int|
            0 <= d < self.units.len() ==> (#[trigger] self.units[d]).wf() && self.units[d].config
                == self.config
        &&& self.total_size == size_total(self.units)
        &&& self.total_initialized == initialized_total(self.units)
        &&& self.max_score <= PROFANITY_MAX_SCORE
        &&& self.scores_ordered()
    }

    /// Whether every unit is in `phase`.
    pub open spec fn all_in(self, phase: Phase) -> bool {
        forall|d: int| 0 <= d < self.units.len() ==> (#[trigger] self.units[d]).phase == phase
    }

    /// The coordinator after `unit` was registered.
    pub open spec fn add_device(self, unit: ComputeUnitView) -> DispatcherView {
        DispatcherView {
            total_size: (self.total_size + self.config.max_work_size) as usize,
            units: self.units.push(unit),
            ..self
        }
    }

    /// The coordinator after the initialization of every device has begun.
    pub open spec fn init(self) -> DispatcherView {
        DispatcherView {
            units: Seq::new(self.units.len(), |d: int| self.units[d].start_init().init_continue()),
            ..self
        }
    }

    /// The coordinator after a batch of `device` was completed.
    pub open spec fn init_callback(self, device: int) -> DispatcherView {
        DispatcherView {
            total_initialized: (self.total_initialized + self.units[device].last_init_size) as usize,
            units: self.units.update(device, self.units[device].init_continue()),
            ..self
        }
    }

    /// The coordinator after the search has begun at `now_ms`.
    pub open spec fn run(self, now_ms: u128) -> DispatcherView {
        DispatcherView {
            time_start_ms: now_ms,
            units: Seq::new(self.units.len(), |d: int| self.units[d].compute(now_ms)),
            ..self
        }
    }

    /// The coordinator after it has looked at the slots that `device` read
    /// back: where a slot above the best score over all holds a candidate,
    /// the highest such slot is the new best score of the device and over
    /// all; else nothing changes.
    pub open spec fn observe(self, device: int, slots: Seq<HashResult>) -> DispatcherView {
        match top_find(slots, self.max_score as int) {
            Some(i) => DispatcherView {
                max_score: i as usize,
                units: self.units.update(
                    device,
                    ComputeUnitView { max_score: i as u64, ..self.units[device] },
                ),
                ..self
            },
            None => self,
        }
    }

    /// The coordinator after a round of `device` was completed at `now_ms`
    /// and `slots` were read back.
    pub open spec fn compute_callback(self, device: int, slots: Seq<HashResult>, now_ms: u128) -> DispatcherView {
        let counted = DispatcherView {
            units: self.units.update(
                device,
                ComputeUnitView {
                    round: (self.units[device].round + 1) as usize,
                    ..self.units[device]
                },
            ),
            ..self
        };
        let seen = counted.observe(device, slots);
        DispatcherView {
            units: seen.units.update(
                device,
                (ComputeUnitView { last_result: slots, ..seen.units[device] }).compute_continue(
                    true,
                    now_ms,
                ),
            ),
            ..seen
        }
    }

    /// The discovery that the coordinator reports when it looks at the slots
    /// that `device` read back at `now_ms`, as far as its numbers go.
    pub open spec fn discovery(self, device: int, slots: Seq<HashResult>) -> Option<
        (int, Seq<u64>),
    > {
        match top_find(slots, self.max_score as int) {
            Some(i) => Some(
                (
                    i,
                    private_key(
                        self.units[device].seed@,
                        self.units[device].round as u64,
                        slots[i].found_id,
                    ),
                ),
            ),
            None => None,
        }
    }

    /// The coordinator after it has looked at a series of read-backs, one
    /// after the other.
    pub open spec fn replay(self, events: Seq<Observation>) -> DispatcherView
        decreases events.len(),
    {
        if events.len() == 0 {
            self
        } else {
            self.replay(events.drop_last()).observe(events.last().device, events.last().slots)
        }
    }
}

/// Whether `discovery` is what the coordinator `board` reports of the slots
/// that `device` read back at `now_ms`.
pub open spec fn is_discovery_of(
    discovery: Option<Discovery>,
    board: DispatcherView,
    device: int,
    slots: Seq<HashResult>,
    now_ms: u128,
) -> bool {
    match board.discovery(device, slots) {
        Some((score, key)) => {
            &&& discovery matches Some(found)
            &&& found.score == score
            &&& found.device_index == board.units[device].device_index
            &&& found.round == board.units[device].round
            &&& found.key@ == key
            &&& found.line@ == result_line_text(
                score as nat,
                elapsed_between(board.time_start_ms, now_ms) as nat,
                board.config.target,
                address_text(slots[score].found_hash@),
                key,
            )
        },
        None => discovery is None,
    }
}

/// One look at a device's slots never lowers a best score, and keeps every
/// device's best score at most the best score over all.
pub proof fn lemma_observe_monotone(board: DispatcherView, device: int, slots: Seq<HashResult>)
    requires
        board.scores_ordered(),
        0 <= device < board.units.len(),
        slots.len() <= usize::MAX,
    ensures
        board.observe(device, slots).scores_ordered(),
        board.observe(device, slots).max_score >= board.max_score,
        board.observe(device, slots).units.len() == board.units.len(),
        forall|d: int|
            0 <= d < board.units.len() ==> (#[trigger] board.observe(device, slots).units[d]).max_score
                >= board.units[d].max_score,
{
    lemma_top_find_none(slots, board.max_score as int);
    let after = board.observe(device, slots);
    match top_find(slots, board.max_score as int) {
        Some(i) => {
            assert forall|d: int| 0 <= d < after.units.len() implies (#[trigger] after.units[d]).max_score
                <= after.max_score && after.units[d].max_score >= board.units[d].max_score by {
                if d != device {
                    assert(after.units[d] == board.units[d]);
                }
            }
        },
        None => {},
    }
}

/// Over any series of read-backs from any devices, the best score over all
/// never goes down, and at every point of the series it is at least the best
/// score of every device.
pub proof fn lemma_best_score_monotone(board: DispatcherView, events: Seq<Observation>, k: int)
    requires
        board.scores_ordered(),
        0 <= k <= events.len(),
        forall|e: int|
            0 <= e < events.len() ==> 0 <= (#[trigger] events[e]).device < board.units.len()
                && events[e].slots.len() <= usize::MAX,
    ensures
        board.replay(events).scores_ordered(),
        board.replay(events).units.len() == board.units.len(),
        board.replay(events.take(k)).scores_ordered(),
        board.replay(events.take(k)).max_score <= board.replay(events).max_score,
        board.max_score <= board.replay(events.take(k)).max_score,
        forall|d: int|
            0 <= d < board.units.len() ==> (#[trigger] board.replay(events.take(k)).units[d]).max_score
                <= board.replay(events).units[d].max_score,
    decreases events.len(),
{
    if events.len() == 0 {
        assert(events.take(k) =~= events);
    } else {
        let front = events.drop_last();
        assert forall|e: int| 0 <= e < front.len() implies 0 <= (#[trigger] front[e]).device
            < board.units.len() && front[e].slots.len() <= usize::MAX by {
            assert(front[e] == events[e]);
        }
        let before = board.replay(front);
        if k == events.len() {
            assert(events.take(k) =~= events);
            lemma_best_score_monotone(board, front, front.len() as int);
            assert(front.take(front.len() as int) =~= front);
            lemma_observe_monotone(before, events.last().device, events.last().slots);
        } else {
            assert(events.take(k) =~= front.take(k));
            lemma_best_score_monotone(board, front, k);
            lemma_observe_monotone(before, events.last().device, events.last().slots);
            let after = board.replay(events);
            let early = board.replay(events.take(k));
            assert forall|d: int| 0 <= d < board.units.len() implies (#[trigger] early.units[d]).max_score
                <= after.units[d].max_score by {
                assert(early.units[d].max_score <= before.units[d].max_score);
                assert(before.units[d].max_score <= after.units[d].max_score);
            }
        }
    }
}

/// The private key of a discovery, least significant limb first.
pub fn reconstruct_key(seed: &[u64; 4], round: u64, found_id: u32) -> (key: [u64; 4])
    ensures
        key@ == private_key(seed@, round, found_id),
{
    let k0 = seed[0].wrapping_add(round);
    let k1 = seed[1].wrapping_add(if k0 < round { 1 } else { 0 });
    let k2 = seed[2].wrapping_add(if k1 == 0 { 1 } else { 0 });
    let c2: u64 = if k2 == 0 { 1 } else { 0 };
    let k3 = seed[3].wrapping_add(c2).wrapping_add(found_id as u64);
    let key = [k0, k1, k2, k3];
    proof {
        assert(key@ =~= private_key(seed@, round, found_id));
    }
    key
}

/// Appends the time since the search began and returns how many characters
/// that was.
fn push_time(line: &mut String, elapsed_ms: u128) -> (count: usize)
    ensures
        final(line)@ == old(line)@ + time_text(elapsed_ms as nat),
        count == time_text(elapsed_ms as nat).len(),
{
    if elapsed_ms < 1000 {
        let digits = push_decimal(line, elapsed_ms);
        line.append("ms");
        proof {
            reveal_strlit("ms");
            assert(line@ =~= old(line)@ + (decimal_text(elapsed_ms as nat) + "ms"@));
        }
        digits + 2
    } else {
        let digits = push_decimal(line, elapsed_ms / 1000);
        line.append("s");
        proof {
            reveal_strlit("s");
            assert(line@ =~= old(line)@ + (decimal_text((elapsed_ms / 1000) as nat) + "s"@));
        }
        digits + 1
    }
}

/// The report of a discovery.
pub fn format_result(
    score: usize,
    elapsed_ms: u128,
    target: HashTarget,
    address: &str,
    key: &[u64; 4],
) -> (line: String)
    ensures
        line@ == result_line_text(score as nat, elapsed_ms as nat, target, address@, key@),
{
    let mut line = String::from_str("  Score: ");
    let ghost head = line@;
    let digits = push_decimal(&mut line, score as u128);
    proof {
        let field = decimal_text(score as nat);
        assert(line@.take(line@.len() - digits) =~= head);
        assert(line@.skip(line@.len() - digits) =~= field);
    }
    pad_field(&mut line, digits, 2);
    line.append(" Time: ");
    let ghost head = line@;
    let width = push_time(&mut line, elapsed_ms);
    proof {
        let field = time_text(elapsed_ms as nat);
        assert(line@.take(line@.len() - width) =~= head);
        assert(line@.skip(line@.len() - width) =~= field);
    }
    pad_field(&mut line, width, 7);
    line.append(" ");
    let target_text = target.to_text();
    line.append(target_text.as_str());
    line.append(": 0x");
    line.append(address);
    line.append(" Key: ");
    push_hex16(&mut line, key[3]);
    push_hex16(&mut line, key[2]);
    push_hex16(&mut line, key[1]);
    push_hex16(&mut line, key[0]);
    line
}

/// The line that says that the device `device_index` is initialized.
pub fn initialized_line(device_index: usize) -> (line: String)
    ensures
        line@ == initialized_line_text(device_index),
{
    let mut line = String::from_str("  GPU");
    push_decimal(&mut line, device_index as u128);
    line.append(" initialized");
    line
}

impl<'a> View for Dispatcher<'a> {
    type V = DispatcherView;

    closed spec fn view(&self) -> DispatcherView {
        DispatcherView {
            config: *self.config,
            max_score: self.max_score,
            total_size: self.total_size,
            total_initialized: self.total_initialized,
            time_start_ms: self.time_start_ms,
            units: Seq::new(self.compute_units@.len(), |d: int| self.compute_units@[d]@),
        }
    }
}

impl<'a> Dispatcher<'a> {
    /// A coordinator without devices.
    pub fn new(config: &'a Config, now_ms: u128) -> (dispatcher: Self)
        ensures
            dispatcher@ == (DispatcherView {
                config: *config,
                max_score: 0,
                total_size: 0,
                total_initialized: 0,
                time_start_ms: now_ms,
                units: Seq::empty(),
            }),
            dispatcher@.wf(),
    {
        let dispatcher = Dispatcher {
            config,
            max_score: 0,
            total_size: 0,
            total_initialized: 0,
            time_start_ms: now_ms,
            compute_units: Vec::new(),
        };
        proof {
            assert(dispatcher@.units =~= Seq::empty());
        }
        dispatcher
    }

    /// Registers the device `device_index` with the random seed `seed`.
    pub fn add_device_with_seed(&mut self, device_index: usize, seed: [u64; 4], now_ms: u128)
        requires
            old(self)@.wf(),
            old(self)@.total_size + old(self)@.config.max_work_size <= usize::MAX,
        ensures
            final(self)@.wf(),
            final(self)@.units.len() == old(self)@.units.len() + 1,
            final(self)@.units.last().created(old(self)@.config, device_index, seed, now_ms),
            final(self)@ == old(self)@.add_device(final(self)@.units.last()),
    {
        let unit = ComputeUnit::new(device_index, self.config, seed, now_ms);
        self.total_size = self.total_size + self.config.max_work_size;
        self.compute_units.push(unit);
        proof {
            let before = old(self)@.units;
            let after = self@.units;
            assert(after =~= before.push(unit@));
            assert(after.drop_last() =~= before);
            assert forall|d: int| 0 <= d < after.len() implies (#[trigger] after[d]).wf()
                && after[d].config == self@.config && after[d].max_score <= self@.max_score by {
                if d < before.len() {
                    assert(after[d] == before[d]);
                }
            }
        }
    }

    /// Registers the device `device_index` with a fresh random seed. Where
    /// the operating system has no random bytes to give, no device is
    /// registered and the answer is `false`.
    pub fn add_device(&mut self, device_index: usize, now_ms: u128) -> (added: bool)
        requires
            old(self)@.wf(),
            old(self)@.total_size + old(self)@.config.max_work_size <= usize::MAX,
        ensures
            final(self)@.wf(),
            !added ==> final(self)@ == old(self)@,
            added ==> {
                &&& final(self)@.units.len() == old(self)@.units.len() + 1
                &&& final(self)@.units.last().created(
                    old(self)@.config,
                    device_index,
                    final(self)@.units.last().seed,
                    now_ms,
                )
                &&& final(self)@ == old(self)@.add_device(final(self)@.units.last())
            },
    {
        match create_seed() {
            Some(seed) => {
                self.add_device_with_seed(device_index, seed, now_ms);
                true
            },
            None => false,
        }
    }

    /// Begins the initialization of every device and says, device by device,
    /// what each of them does first.
    pub fn init(&mut self) -> (commands: Vec<InitCommand>)
        requires
            old(self)@.wf(),
            old(self)@.all_in(Phase::Created),
        ensures
            final(self)@ == old(self)@.init(),
            final(self)@.wf(),
            commands@.len() == old(self)@.units.len(),
            forall|d: int|
                0 <= d < commands@.len() ==> #[trigger] commands@[d] == old(
                    self,
                )@.units[d].start_init().init_command(),
    {
        let mut commands: Vec<InitCommand> = Vec::new();
        let mut d: usize = 0;
        let count = self.compute_units.len();
        while d < count
            invariant
                d <= count,
                count == old(self)@.units.len(),
                self@.units.len() == count,
                old(self)@.wf(),
                old(self)@.all_in(Phase::Created),
                self@.config == old(self)@.config,
                self@.max_score == old(self)@.max_score,
                self@.total_size == old(self)@.total_size,
                self@.total_initialized == old(self)@.total_initialized,
                self@.time_start_ms == old(self)@.time_start_ms,
                self.compute_units@.len() == count,
                forall|j: int|
                    0 <= j < d ==> (#[trigger] self.compute_units@[j])@ == old(
                        self,
                    )@.units[j].start_init().init_continue(),
                forall|j: int|
                    d <= j < count ==> (#[trigger] self.compute_units@[j])@ == old(self)@.units[j],
                commands@.len() == d,
                forall|j: int|
                    0 <= j < d ==> #[trigger] commands@[j] == old(
                        self,
                    )@.units[j].start_init().init_command(),
            decreases count - d,
        {
            let ghost prev = self.compute_units@;
            proof {
                assert(prev[d as int]@ == old(self)@.units[d as int]);
                assert(old(self)@.units[d as int].wf());
                assert(old(self)@.units[d as int].phase == Phase::Created);
            }
            self.compute_units[d].start_init();
            let command = self.compute_units[d].init_continue();
            commands.push(command);
            proof {
                assert forall|j: int| 0 <= j < count && j != d implies #[trigger] self.compute_units@[j]
                    == prev[j] by {}
            }
            d += 1;
        }
        proof {
            let before = old(self)@;
            let after = self@;
            assert(after.units =~= before.init().units);
            assert forall|j: int| 0 <= j < after.units.len() implies (#[trigger] after.units[j]).wf()
                && after.units[j].config == after.config && after.units[j].max_score
                <= after.max_score && after.units[j].size_initialized
                == before.units[j].size_initialized && after.units[j].size
                == before.units[j].size by {
                assert(before.units[j].wf());
                assert(before.units[j].phase == Phase::Created);
            }
            lemma_total_same(before.units, after.units);
        }
        commands
    }

    /// Takes note that the batch which `device` had launched last is done:
    /// its size goes into the sum over all devices, and the device takes the
    /// next step of its initialization.
    pub fn init_callback(&mut self, device: usize) -> (report: InitReport)
        requires
            old(self)@.wf(),
            device < old(self)@.units.len(),
            old(self)@.units[device as int].phase == Phase::Initializing,
        ensures
            final(self)@ == old(self)@.init_callback(device as int),
            final(self)@.wf(),
            final(self)@.total_initialized == old(self)@.total_initialized + old(
                self,
            )@.units[device as int].last_init_size,
            final(self)@.total_initialized <= final(self)@.total_size,
            report.total_initialized == final(self)@.total_initialized,
            report.total_size == final(self)@.total_size,
            report.command == old(self)@.units[device as int].init_command(),
    {
        let ghost before = self@;
        let ghost unit_before = self@.units[device as int];
        proof {
            assert(unit_before.wf());
            assert(unit_before == self.compute_units@[device as int]@);
        }
        let batch = self.compute_units[device].get_last_init_size();
        let command = self.compute_units[device].init_continue();
        proof {
            let unit_after = unit_before.init_continue();
            let units_after = before.units.update(device as int, unit_after);
            assert(self@.units =~= units_after);
            lemma_total_update(
                before.units,
                |u: ComputeUnitView| u.size_initialized as nat,
                device as int,
                unit_after,
            );
            lemma_total_update(
                before.units,
                |u: ComputeUnitView| u.size as nat,
                device as int,
                unit_after,
            );
            assert forall|d: int| 0 <= d < units_after.len() implies (#[trigger] units_after[d]).wf()
                && units_after[d].config == before.config && units_after[d].max_score
                <= before.max_score by {
                if d != device {
                    assert(units_after[d] == before.units[d]);
                }
            }
            assert forall|d: int| 0 <= d < units_after.len() implies (|u: ComputeUnitView|
                u.size_initialized as nat)(#[trigger] units_after[d]) <= (|u: ComputeUnitView|
                u.size as nat)(units_after[d]) by {
                assert(units_after[d].wf());
            }
            lemma_total_le(
                units_after,
                |u: ComputeUnitView| u.size_initialized as nat,
                |u: ComputeUnitView| u.size as nat,
            );
        }
        self.total_initialized = self.total_initialized + batch;
        InitReport {
            total_initialized: self.total_initialized,
            total_size: self.total_size,
            command,
        }
    }

    /// Begins the search on every device, which all are initialized in
    /// full, and says, device by device, how its kernels are built and what
    /// its first round enqueues. A mode that cannot be encoded is rejected
    /// before any device has begun.
    pub fn run(&mut self, now_ms: u128) -> (r: Result<Vec<ComputePlan>, ModeError>)
        requires
            old(self)@.wf(),
            old(self)@.all_in(Phase::Ready),
        ensures
            final(self)@.wf(),
            old(self)@.total_initialized == old(self)@.total_size,
            r is Err <==> old(self)@.config.mode.too_long(),
            r matches Err(e) ==> e == ModeError::MatchingTooLong && final(self)@ == old(self)@,
            r matches Ok(plans) ==> {
                &&& final(self)@ == old(self)@.run(now_ms)
                &&& plans@.len() == old(self)@.units.len()
                &&& forall|d: int|
                    0 <= d < plans@.len() ==> (#[trigger] plans@[d]).kernels@
                        == crate::compute_unit::kernel_setups(old(self)@.config) && plans@[d].data1@
                        == crate::compute_unit::block_or_zeros(old(self)@.config.mode.spec_data1())
                        && plans@[d].data2@ == crate::compute_unit::block_or_zeros(
                        old(self)@.config.mode.spec_data2(),
                    ) && plans@[d].round@ == crate::compute_unit::round_commands(
                        old(self)@.config.target,
                        old(self)@.units[d].max_score,
                    )
            },
    {
        proof {
            let units = old(self)@.units;
            assert forall|d: int| 0 <= d < units.len() implies (|u: ComputeUnitView|
                u.size_initialized as nat)(#[trigger] units[d]) == (|u: ComputeUnitView|
                u.size as nat)(units[d]) by {
                assert(units[d].wf());
                assert(units[d].phase == Phase::Ready);
            }
            lemma_total_le(
                units,
                |u: ComputeUnitView| u.size_initialized as nat,
                |u: ComputeUnitView| u.size as nat,
            );
            lemma_total_le(
                units,
                |u: ComputeUnitView| u.size as nat,
                |u: ComputeUnitView| u.size_initialized as nat,
            );
        }
        match self.config.mode.get_data() {
            Ok(_) => {},
            Err(e) => {
                return Err(e);
            },
        }
        self.time_start_ms = now_ms;
        let mut plans: Vec<ComputePlan> = Vec::new();
        let mut d: usize = 0;
        let count = self.compute_units.len();
        while d < count
            invariant
                d <= count,
                count == old(self)@.units.len(),
                self@.units.len() == count,
                old(self)@.wf(),
                old(self)@.all_in(Phase::Ready),
                !old(self)@.config.mode.too_long(),
                self@.config == old(self)@.config,
                self@.max_score == old(self)@.max_score,
                self@.total_size == old(self)@.total_size,
                self@.total_initialized == old(self)@.total_initialized,
                self@.time_start_ms == now_ms,
                self.compute_units@.len() == count,
                forall|j: int|
                    0 <= j < d ==> (#[trigger] self.compute_units@[j])@ == old(self)@.units[j].compute(
                        now_ms,
                    ),
                forall|j: int|
                    d <= j < count ==> (#[trigger] self.compute_units@[j])@ == old(self)@.units[j],
                plans@.len() == d,
                forall|j: int|
                    0 <= j < d ==> (#[trigger] plans@[j]).kernels@
                        == crate::compute_unit::kernel_setups(old(self)@.config) && plans@[j].data1@
                        == crate::compute_unit::block_or_zeros(old(self)@.config.mode.spec_data1())
                        && plans@[j].data2@ == crate::compute_unit::block_or_zeros(
                        old(self)@.config.mode.spec_data2(),
                    ) && plans@[j].round@ == crate::compute_unit::round_commands(
                        old(self)@.config.target,
                        old(self)@.units[j].max_score,
                    ),
            decreases count - d,
        {
            let ghost prev = self.compute_units@;
            proof {
                assert(prev[d as int]@ == old(self)@.units[d as int]);
                assert(old(self)@.units[d as int].wf());
                assert(old(self)@.units[d as int].config == old(self)@.config);
                assert(old(self)@.units[d as int].phase == Phase::Ready);
            }
            match self.compute_units[d].compute(now_ms) {
                Ok(plan) => {
                    plans.push(plan);
                },
                Err(e) => {
                    proof {
                        assert(false);
                    }
                    return Err(e);
                },
            }
            proof {
                assert forall|j: int| 0 <= j < count && j != d implies #[trigger] self.compute_units@[j]
                    == prev[j] by {}
            }
            d += 1;
        }
        proof {
            let before = old(self)@;
            let after = self@;
            assert(after.units =~= before.run(now_ms).units);
            assert forall|j: int| 0 <= j < after.units.len() implies (#[trigger] after.units[j]).wf()
                && after.units[j].config == after.config && after.units[j].max_score
                <= after.max_score && after.units[j].size_initialized
                == before.units[j].size_initialized && after.units[j].size
                == before.units[j].size by {
                assert(before.units[j].wf());
                assert(before.units[j].phase == Phase::Ready);
            }
            lemma_total_same(before.units, after.units);
        }
        Ok(plans)
    }

    /// Looks at the slots that `device` read back, from the highest score
    /// down to the best score over all. The highest slot above that score
    /// which holds a candidate is a discovery: it becomes the best score of
    /// the device and over all, and is reported with its key. Where there is
    /// no such slot nothing changes.
    pub fn handle_result(&mut self, device: usize, result: &Vec<HashResult>, now_ms: u128) -> (found:
        Option<Discovery>)
        requires
            old(self)@.wf(),
            device < old(self)@.units.len(),
            result@.len() == PROFANITY_MAX_SCORE + 1,
        ensures
            final(self)@ == old(self)@.observe(device as int, result@),
            final(self)@.wf(),
            final(self)@.max_score >= old(self)@.max_score,
            is_discovery_of(found, old(self)@, device as int, result@, now_ms),
    {
        let ghost before = self@;
        let floor = self.max_score;
        let mut i: usize = result.len() - 1;
        while i > floor
            invariant
                floor < result@.len(),
                floor <= i < result@.len(),
                forall|j: int| i < j < result@.len() ==> (#[trigger] result@[j]).found == 0,
            ensures
                i >= floor,
                i > floor ==> result@[i as int].found > 0,
                forall|j: int| i < j < result@.len() ==> (#[trigger] result@[j]).found == 0,
            decreases i,
        {
            if result[i].found > 0 {
                break ;
            }
            i -= 1;
        }
        if i <= floor {
            proof {
                lemma_top_find_none(result@, floor as int);
            }
            return None;
        }
        proof {
            assert(is_top_find(result@, floor as int, i as int));
            lemma_top_find_unique(result@, floor as int, i as int);
            assert(before.units[device as int] == self.compute_units@[device as int]@);
        }
        let slot = &result[i];
        self.compute_units[device].set_max_score(i as u64);
        self.max_score = i;
        let unit = &self.compute_units[device];
        let round = unit.get_round();
        let seed = unit.get_seed();
        let key = reconstruct_key(&seed, round as u64, slot.found_id);
        let line = self.print_result(i, round, &key, slot, now_ms);
        proof {
            let after = before.observe(device as int, result@);
            assert(self@.units =~= after.units);
            assert forall|d: int| 0 <= d < after.units.len() implies (#[trigger] after.units[d]).wf()
                && after.units[d].config == before.config && after.units[d].max_score
                <= after.max_score && after.units[d].size_initialized
                == before.units[d].size_initialized && after.units[d].size
                == before.units[d].size by {
                assert(before.units[d].wf());
                assert(before.units[d].max_score <= before.max_score);
            }
            lemma_total_same(before.units, after.units);
        }
        Some(Discovery { score: i, device_index: unit.get_device_index(), round, key, line })
    }

    /// The report of the discovery of `result` in slot `score`, made with
    /// the key `key` in round `round`, at `now_ms`.
    fn print_result(
        &self,
        score: usize,
        round: usize,
        key: &[u64; 4],
        result: &HashResult,
        now_ms: u128,
    ) -> (line: String)
        ensures
            line@ == result_line_text(
                score as nat,
                elapsed_between(self@.time_start_ms, now_ms) as nat,
                self@.config.target,
                address_text(result.found_hash@),
                key@,
            ),
    {
        let time_elapsed: u128 = if now_ms >= self.time_start_ms {
            now_ms - self.time_start_ms
        } else {
            0
        };
        let address = to_checksum_address(&result.found_hash);
        format_result(score, time_elapsed, self.config.target, address.as_str(), key)
    }

    /// Takes note that `device` has completed a round and read back
    /// `result`: the round is counted, the slots are looked at, and the
    /// device's next round is handed out with the score threshold that the
    /// look has left.
    pub fn compute_callback(&mut self, device: usize, result: Vec<HashResult>, now_ms: u128) -> (report:
        RoundReport)
        requires
            old(self)@.wf(),
            device < old(self)@.units.len(),
            old(self)@.units[device as int].phase == Phase::Computing,
            old(self)@.units[device as int].round < usize::MAX,
            result@.len() == PROFANITY_MAX_SCORE + 1,
        ensures
            final(self)@ == old(self)@.compute_callback(device as int, result@, now_ms),
            final(self)@.wf(),
            final(self)@.max_score >= old(self)@.max_score,
            final(self)@.units[device as int].round == old(self)@.units[device as int].round + 1,
            is_discovery_of(
                report.discovery,
                (DispatcherView {
                    units: old(self)@.units.update(
                        device as int,
                        ComputeUnitView {
                            round: (old(self)@.units[device as int].round + 1) as usize,
                            ..old(self)@.units[device as int]
                        },
                    ),
                    ..old(self)@
                }),
                device as int,
                result@,
                now_ms,
            ),
            report.commands@ == crate::compute_unit::round_commands(
                old(self)@.config.target,
                final(self)@.units[device as int].max_score,
            ),
    {
        let ghost before = self@;
        proof {
            assert(before.units[device as int] == self.compute_units@[device as int]@);
            assert(before.units[device as int].wf());
        }
        self.compute_units[device].increase_round();
        proof {
            let counted = DispatcherView {
                units: before.units.update(
                    device as int,
                    ComputeUnitView {
                        round: (before.units[device as int].round + 1) as usize,
                        ..before.units[device as int]
                    },
                ),
                ..before
            };
            assert(self@.units =~= counted.units);
            assert forall|d: int| 0 <= d < counted.units.len() implies (#[trigger] counted.units[d]).wf()
                && counted.units[d].config == before.config && counted.units[d].max_score
                <= counted.max_score && counted.units[d].size_initialized
                == before.units[d].size_initialized && counted.units[d].size
                == before.units[d].size by {
                assert(before.units[d].wf());
                assert(before.units[d].max_score <= before.max_score);
            }
            lemma_total_same(before.units, counted.units);
        }
        let discovery = self.handle_result(device, &result, now_ms);
        let ghost seen = self@;
        proof {
            assert(seen.units[device as int] == self.compute_units@[device as int]@);
            assert(seen.units[device as int].wf());
            lemma_top_find_none(result@, before.max_score as int);
        }
        self.compute_units[device].set_last_result(result);
        let commands = self.compute_units[device].compute_continue(true, now_ms);
        proof {
            let after = before.compute_callback(device as int, result@, now_ms);
            assert(self@.units =~= after.units);
            assert forall|d: int| 0 <= d < after.units.len() implies (#[trigger] after.units[d]).wf()
                && after.units[d].config == seen.config && after.units[d].max_score
                <= after.max_score && after.units[d].size_initialized
                == seen.units[d].size_initialized && after.units[d].size == seen.units[d].size by {
                assert(seen.units[d].wf());
                assert(seen.units[d].max_score <= seen.max_score);
                if d == device {
                    crate::speed_meter::lemma_log_keeps_wf(
                        seen.units[d].speed_meter,
                        seen.units[d].size,
                        now_ms,
                    );
                }
            }
            lemma_total_same(seen.units, after.units);
        }
        RoundReport { discovery, commands }
    }

    pub fn get_config(&self) -> (config: &'a Config)
        ensures
            *config == self@.config,
    {
        self.config
    }

    /// The best score over all devices.
    pub fn get_max_score(&self) -> (max_score: usize)
        ensures
            max_score == self@.max_score,
    {
        self.max_score
    }

    /// How many candidates there are, over all devices.
    pub fn get_total_size(&self) -> (size: usize)
        ensures
            size == self@.total_size,
    {
        self.total_size
    }

    /// How many candidates are initialized, over all devices.
    pub fn get_total_initialized(&self) -> (size: usize)
        ensures
            size == self@.total_initialized,
    {
        self.total_initialized
    }

    /// The units of the devices, in the order in which they were registered.
    pub fn get_compute_units(&self) -> (units: &Vec<ComputeUnit<'a>>)
        ensures
            units@.len() == self@.units.len(),
            forall|d: int| 0 <= d < units@.len() ==> (#[trigger] units@[d])@ == self@.units[d],
    {
        &self.compute_units
    }
}

/// Units that agree in size and progress, one by one, agree in their sums.
proof fn lemma_total_same(before: Seq<ComputeUnitView>, after: Seq<ComputeUnitView>)
    requires
        before.len() == after.len(),
        forall|d: int|
            0 <= d < after.len() ==> (#[trigger] after[d]).size_initialized
                == before[d].size_initialized && after[d].size == before[d].size,
    ensures
        size_total(after) == size_total(before),
        initialized_total(after) == initialized_total(before),
    decreases before.len(),
{
    if before.len() > 0 {
        let b = before.drop_last();
        let a = after.drop_last();
        assert forall|d: int| 0 <= d < a.len() implies (#[trigger] a[d]).size_initialized
            == b[d].size_initialized && a[d].size == b[d].size by {
            assert(a[d] == after[d]);
            assert(b[d] == before[d]);
        }
        lemma_total_same(b, a);
        assert(after[after.len() - 1].size == before[before.len() - 1].size);
    }
}

} // verus!
