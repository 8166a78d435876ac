use profanity::compute_unit::{
    abandon_warning, create_seed, enqueue_kernel, public_key_limbs, seed_from_bytes, BufferAccess,
    BufferKind, ComputeUnit, InitCommand, KernelArgument, KernelKind, KernelSetup, LaunchDecision,
    LaunchStatus, Phase, RoundCommand, INIT_BATCHES, KERNEL_INIT,
};
use profanity::config::{Config, HashTarget, Mode, ModeError};
use profanity::speed_meter::{Sample, SpeedMeter};
use profanity::types::HashResult;

fn config_with(target: HashTarget, mode: Mode, size: usize) -> Config {
    let mut public_key = [0u8; 64];
    for (i, byte) in public_key.iter_mut().enumerate() {
        *byte = i as u8 + 1;
    }
    Config::new(target, mode, public_key, false, 255, 16384, 64, size)
}

fn initialized(unit: &mut ComputeUnit) {
    unit.start_init();
    while unit.init_continue() != InitCommand::Finish {}
}

#[test]
fn speed_meter_starts_empty() {
    let meter = SpeedMeter::new(40, 1000);
    assert!(meter.samples().is_empty());
    assert_eq!(meter.sample_count(), 40);
}

#[test]
fn speed_meter_takes_time_between_readings() {
    let mut meter = SpeedMeter::new(3, 1000);
    meter.log(500, 1250);
    meter.log(700, 1300);
    assert_eq!(
        meter.samples(),
        &vec![Sample { size: 500, elapsed_ms: 250 }, Sample { size: 700, elapsed_ms: 50 }]
    );
}

#[test]
fn speed_meter_window_slides() {
    let mut meter = SpeedMeter::new(3, 0);
    for i in 1..=5u128 {
        meter.log(i as usize, 10 * i);
    }
    assert_eq!(
        meter.samples(),
        &vec![
            Sample { size: 3, elapsed_ms: 10 },
            Sample { size: 4, elapsed_ms: 10 },
            Sample { size: 5, elapsed_ms: 10 },
        ]
    );
}

#[test]
fn speed_meter_skips_a_batch_without_time() {
    let mut meter = SpeedMeter::new(3, 100);
    meter.log(9, 100);
    assert!(meter.samples().is_empty());
    // A clock that went back counts as no time, and is taken as the new
    // reading.
    meter.log(9, 40);
    assert!(meter.samples().is_empty());
    meter.log(9, 45);
    assert_eq!(meter.samples(), &vec![Sample { size: 9, elapsed_ms: 5 }]);
}

#[test]
fn speed_meter_without_room_keeps_nothing() {
    let mut meter = SpeedMeter::new(0, 0);
    meter.log(1, 10);
    meter.log(1, 20);
    assert!(meter.samples().is_empty());
}

#[test]
fn speed_meter_reset_empties_the_window() {
    let mut meter = SpeedMeter::new(2, 0);
    meter.log(1, 10);
    meter.reset(500);
    assert!(meter.samples().is_empty());
    meter.log(8, 520);
    assert_eq!(meter.samples(), &vec![Sample { size: 8, elapsed_ms: 20 }]);
}

#[test]
fn public_key_limbs_are_big_endian_low_limb_first() {
    let mut key = [0u8; 64];
    for (i, byte) in key.iter_mut().enumerate() {
        *byte = i as u8;
    }
    assert_eq!(
        public_key_limbs(&key, 0),
        [0x18191a1b1c1d1e1f, 0x1011121314151617, 0x08090a0b0c0d0e0f, 0x0001020304050607]
    );
    assert_eq!(
        public_key_limbs(&key, 32),
        [0x38393a3b3c3d3e3f, 0x3031323334353637, 0x28292a2b2c2d2e2f, 0x2021222324252627]
    );
    assert_eq!(public_key_limbs(&[0xff; 64], 32), [u64::MAX; 4]);
}

#[test]
fn seed_from_bytes_is_little_endian() {
    let mut bytes = [0u8; 32];
    for (i, byte) in bytes.iter_mut().enumerate() {
        *byte = i as u8;
    }
    assert_eq!(
        seed_from_bytes(&bytes),
        [0x0706050403020100, 0x0f0e0d0c0b0a0908, 0x1716151413121110, 0x1f1e1d1c1b1a1918]
    );
    assert_eq!(seed_from_bytes(&[0xff; 32]), [u64::MAX; 4]);
    assert_eq!(seed_from_bytes(&[0; 32]), [0; 4]);
}

#[test]
fn create_seed_gives_fresh_seeds() {
    let first = create_seed().expect("the system has random bytes");
    let second = create_seed().expect("the system has random bytes");
    assert_ne!(first, second);
    assert_ne!(first, [0u64; 4]);
}

#[test]
fn new_unit_is_created_and_empty() {
    let config = config_with(HashTarget::Address, Mode::Benchmark, 1000);
    let unit = ComputeUnit::new(3, &config, [1, 2, 3, 4], 77);
    assert_eq!(unit.get_phase(), Phase::Created);
    assert_eq!(unit.get_device_index(), 3);
    assert_eq!(unit.get_size(), 1000);
    assert_eq!(unit.get_seed(), [1, 2, 3, 4]);
    assert_eq!(unit.get_seed_x(), public_key_limbs(&config.public_key, 0));
    assert_eq!(unit.get_seed_y(), public_key_limbs(&config.public_key, 32));
    assert_eq!(unit.get_seed_x()[3], 0x0102030405060708);
    assert_eq!(unit.get_seed_y()[0], 0x393a3b3c3d3e3f40);
    assert_eq!(unit.get_max_score(), 0);
    assert_eq!(unit.get_round(), 0);
    assert_eq!(unit.get_size_initialized(), 0);
    assert_eq!(unit.get_last_init_size(), 0);
    assert!(unit.get_last_result().is_empty());
    assert_eq!(unit.get_speed_meter().sample_count(), 40);
    assert!(unit.get_speed_meter().samples().is_empty());
}

#[test]
fn init_covers_the_size_in_fifty_batches() {
    assert_eq!(INIT_BATCHES, 50);
    assert_eq!(KERNEL_INIT, "profanity_init");
    let config = config_with(HashTarget::Address, Mode::Benchmark, 1000);
    let mut unit = ComputeUnit::new(0, &config, [0; 4], 0);
    unit.start_init();
    assert_eq!(unit.get_phase(), Phase::Initializing);
    for batch in 0..50 {
        assert_eq!(unit.init_continue(), InitCommand::Launch { offset: 20 * batch, count: 20 });
        assert_eq!(unit.get_size_initialized(), 20 * batch);
        assert_eq!(unit.get_last_init_size(), 20);
        assert_eq!(unit.get_phase(), Phase::Initializing);
    }
    assert_eq!(unit.init_continue(), InitCommand::Finish);
    assert_eq!(unit.get_size_initialized(), 1000);
    assert_eq!(unit.get_phase(), Phase::Ready);
}

#[test]
fn init_last_batch_is_the_remainder() {
    let config = config_with(HashTarget::Address, Mode::Benchmark, 1234);
    let mut unit = ComputeUnit::new(0, &config, [0; 4], 0);
    unit.start_init();
    let mut launched = Vec::new();
    loop {
        match unit.init_continue() {
            InitCommand::Launch { offset, count } => launched.push((offset, count)),
            InitCommand::Finish => break,
        }
    }
    assert_eq!(launched.len(), 52);
    for (batch, (offset, count)) in launched.iter().take(51).enumerate() {
        assert_eq!((*offset, *count), (24 * batch, 24));
    }
    assert_eq!(launched[51], (1224, 10));
    assert_eq!(unit.get_size_initialized(), 1234);
}

#[test]
fn init_of_nothing_is_over_at_once() {
    let config = Config::new(HashTarget::Address, Mode::Benchmark, [0; 64], false, 0, 5, 64, 0);
    let mut unit = ComputeUnit::new(0, &config, [0; 4], 0);
    unit.start_init();
    assert_eq!(unit.init_continue(), InitCommand::Finish);
    assert_eq!(unit.get_phase(), Phase::Ready);
}

#[test]
fn init_below_fifty_candidates_has_empty_batches() {
    let config = config_with(HashTarget::Address, Mode::Benchmark, 49);
    let mut unit = ComputeUnit::new(0, &config, [0; 4], 0);
    unit.start_init();
    for _ in 0..3 {
        assert_eq!(unit.init_continue(), InitCommand::Launch { offset: 0, count: 0 });
        assert_eq!(unit.get_phase(), Phase::Initializing);
    }
}

#[test]
fn no_round_before_the_device_is_initialized_in_full() {
    let config = config_with(HashTarget::Address, Mode::Benchmark, 500);
    let mut unit = ComputeUnit::new(0, &config, [0; 4], 0);
    unit.start_init();
    loop {
        let command = unit.init_continue();
        let ready = unit.get_phase() == Phase::Ready;
        assert_eq!(ready, unit.get_size_initialized() == unit.get_size());
        assert_eq!(ready, command == InitCommand::Finish);
        if ready {
            break;
        }
    }
    assert!(unit.compute(0).is_ok());
    assert_eq!(unit.get_phase(), Phase::Computing);
}

#[test]
fn compute_plans_the_kernels_of_an_address_search() {
    let config = config_with(HashTarget::Address, Mode::Leading(0xA), 1000);
    let mut unit = ComputeUnit::new(0, &config, [0; 4], 0);
    initialized(&mut unit);
    let plan = unit.compute(5).unwrap();
    assert_eq!(
        plan.kernels,
        vec![
            KernelSetup { kind: KernelKind::Inverse, global_work_size: 16384, local_work_size: 64 },
            KernelSetup { kind: KernelKind::Iterate, global_work_size: 1000, local_work_size: 64 },
            KernelSetup { kind: KernelKind::Score, global_work_size: 1000, local_work_size: 64 },
        ]
    );
    let mut data1 = [0u8; 20];
    data1[0] = 0xA;
    assert_eq!(plan.data1, data1);
    assert_eq!(plan.data2, [0u8; 20]);
    assert_eq!(
        plan.round,
        vec![
            RoundCommand::ReadResults { slots: 41 },
            RoundCommand::Launch(KernelKind::Inverse),
            RoundCommand::Launch(KernelKind::Iterate),
            RoundCommand::SetScoreThreshold(0),
            RoundCommand::Launch(KernelKind::Score),
            RoundCommand::Flush,
            RoundCommand::NotifyOnRead,
        ]
    );
    assert_eq!(unit.get_last_result().len(), 41);
    assert!(unit.get_last_result().iter().all(|slot| slot.found == 0 && slot.found_id == 0
        && slot.found_hash == [0u8; 20]));
}

#[test]
fn compute_plans_the_transform_for_contracts() {
    let config = config_with(HashTarget::Contract, Mode::Matching(vec![0xA, 0xB, 0xC]), 1000);
    let mut unit = ComputeUnit::new(0, &config, [0; 4], 0);
    initialized(&mut unit);
    let plan = unit.compute(5).unwrap();
    let kinds: Vec<KernelKind> = plan.kernels.iter().map(|k| k.kind).collect();
    assert_eq!(
        kinds,
        vec![KernelKind::Inverse, KernelKind::Iterate, KernelKind::TransformContract, KernelKind::Score]
    );
    assert_eq!(plan.kernels[2].global_work_size, 1000);
    assert_eq!(&plan.data1[..3], &[0xAB, 0xC0, 0]);
    assert_eq!(&plan.data2[..3], &[0xFF, 0xF0, 0]);
    assert_eq!(
        plan.round,
        vec![
            RoundCommand::ReadResults { slots: 41 },
            RoundCommand::Launch(KernelKind::Inverse),
            RoundCommand::Launch(KernelKind::Iterate),
            RoundCommand::Launch(KernelKind::TransformContract),
            RoundCommand::SetScoreThreshold(0),
            RoundCommand::Launch(KernelKind::Score),
            RoundCommand::Flush,
            RoundCommand::NotifyOnRead,
        ]
    );
}

#[test]
fn compute_rejects_a_pattern_that_is_too_long() {
    let config = config_with(HashTarget::Address, Mode::Matching(vec![1; 41]), 100);
    let mut unit = ComputeUnit::new(0, &config, [0; 4], 0);
    initialized(&mut unit);
    assert!(matches!(unit.compute(5), Err(ModeError::MatchingTooLong)));
    assert_eq!(unit.get_phase(), Phase::Ready);
    assert!(unit.get_last_result().is_empty());
}

#[test]
fn round_reads_back_before_it_launches() {
    let config = config_with(HashTarget::Address, Mode::Zeros, 100);
    let mut unit = ComputeUnit::new(0, &config, [0; 4], 0);
    initialized(&mut unit);
    unit.compute(0).unwrap();
    for round in 0..3 {
        let commands = unit.compute_continue(true, 10 * (round + 1));
        assert_eq!(commands[0], RoundCommand::ReadResults { slots: 41 });
        assert!(commands[1..commands.len() - 2]
            .iter()
            .all(|c| matches!(c, RoundCommand::Launch(_) | RoundCommand::SetScoreThreshold(_))));
        assert_eq!(commands[commands.len() - 2], RoundCommand::Flush);
        assert_eq!(commands[commands.len() - 1], RoundCommand::NotifyOnRead);
    }
}

#[test]
fn round_hands_the_best_score_to_the_scoring_kernel() {
    let config = config_with(HashTarget::Address, Mode::Zeros, 100);
    let mut unit = ComputeUnit::new(0, &config, [0; 4], 0);
    initialized(&mut unit);
    unit.compute(0).unwrap();
    unit.set_max_score(17);
    let commands = unit.compute_continue(false, 0);
    assert_eq!(commands[3], RoundCommand::SetScoreThreshold(17));
    assert_eq!(commands[4], RoundCommand::Launch(KernelKind::Score));
}

#[test]
fn round_samples_the_meter_only_after_a_completed_round() {
    let config = config_with(HashTarget::Address, Mode::Zeros, 100);
    let mut unit = ComputeUnit::new(0, &config, [0; 4], 0);
    initialized(&mut unit);
    unit.compute(1000).unwrap();
    assert!(unit.get_speed_meter().samples().is_empty());
    unit.compute_continue(false, 1100);
    assert!(unit.get_speed_meter().samples().is_empty());
    unit.compute_continue(true, 1250);
    assert_eq!(unit.get_speed_meter().samples(), &vec![Sample { size: 100, elapsed_ms: 250 }]);
    unit.compute_continue(true, 1300);
    assert_eq!(unit.get_speed_meter().samples().len(), 2);
    assert_eq!(unit.get_speed_meter().samples()[1], Sample { size: 100, elapsed_ms: 50 });
}

#[test]
fn unit_counters_and_slots() {
    let config = config_with(HashTarget::Address, Mode::Zeros, 100);
    let mut unit = ComputeUnit::new(5, &config, [9; 4], 0);
    unit.increase_round();
    unit.increase_round();
    assert_eq!(unit.get_round(), 2);
    unit.set_max_score(4);
    assert_eq!(unit.get_max_score(), 4);
    let mut slots = vec![HashResult::new(); 41];
    slots[7].found = 1;
    unit.set_last_result(slots);
    assert_eq!(unit.get_last_result()[7].found, 1);
    assert_eq!(unit.get_last_result().len(), 41);
}

#[test]
fn kernel_names_of_a_round() {
    let config = config_with(HashTarget::Address, Mode::Numbers, 100);
    assert_eq!(KernelKind::Init.name(&config), "profanity_init");
    assert_eq!(KernelKind::Inverse.name(&config), "profanity_inverse");
    assert_eq!(KernelKind::Iterate.name(&config), "profanity_iterate");
    assert_eq!(KernelKind::TransformContract.name(&config), "profanity_transform_contract");
    assert_eq!(KernelKind::Score.name(&config), "profanity_score_range");
}

#[test]
fn launch_fallback_retries_once() {
    // A refused work-group size with a size of our own: give it up.
    assert_eq!(
        enqueue_kernel(64, LaunchStatus::InvalidWorkGroupSize),
        LaunchDecision::RetryWithDefaultSize
    );
    // The retry runs with the driver's size (0) and succeeds.
    assert_eq!(enqueue_kernel(0, LaunchStatus::Success), LaunchDecision::Done);
}

#[test]
fn launch_fallback_second_failure_is_fatal() {
    assert_eq!(
        enqueue_kernel(64, LaunchStatus::InvalidWorkGroupSize),
        LaunchDecision::RetryWithDefaultSize
    );
    assert_eq!(enqueue_kernel(0, LaunchStatus::InvalidWorkGroupSize), LaunchDecision::Fatal);
    assert_eq!(enqueue_kernel(0, LaunchStatus::InvalidWorkItemSize), LaunchDecision::Fatal);
    assert_eq!(enqueue_kernel(0, LaunchStatus::OtherError), LaunchDecision::Fatal);
}

#[test]
fn launch_decisions_by_status() {
    assert_eq!(enqueue_kernel(64, LaunchStatus::Success), LaunchDecision::Done);
    assert_eq!(
        enqueue_kernel(1, LaunchStatus::InvalidWorkItemSize),
        LaunchDecision::RetryWithDefaultSize
    );
    assert_eq!(enqueue_kernel(64, LaunchStatus::OtherError), LaunchDecision::Fatal);
}

#[test]
fn abandon_warning_names_size_and_device() {
    assert_eq!(abandon_warning(64, 0), "  Warning: local work size 64 abandoned on GPU 0");
    assert_eq!(abandon_warning(1024, 12), "  Warning: local work size 1024 abandoned on GPU 12");
}

#[test]
fn kernel_arguments_by_kernel() {
    let names = |kind: KernelKind| -> Vec<&'static str> {
        kind.arguments().iter().map(|argument| argument.name()).collect()
    };
    assert_eq!(
        names(KernelKind::Init),
        vec!["precomp", "pDeltaX", "pPrevLambda", "pResult", "seed", "seedX", "seedY"]
    );
    assert_eq!(names(KernelKind::Inverse), vec!["pDeltaX", "pInverse"]);
    assert_eq!(names(KernelKind::Iterate), vec!["pDeltaX", "pInverse", "pPrevLambda"]);
    assert_eq!(names(KernelKind::TransformContract), vec!["pInverse"]);
    assert_eq!(
        names(KernelKind::Score),
        vec!["pInverse", "pResult", "data1", "data2", "scoreMax"]
    );
    assert_eq!(
        KernelKind::Score.arguments(),
        vec![
            KernelArgument::Buffer(BufferKind::InversedNegativeDoubleGy),
            KernelArgument::Buffer(BufferKind::Result),
            KernelArgument::Buffer(BufferKind::Data1),
            KernelArgument::Buffer(BufferKind::Data2),
            KernelArgument::ScoreMax,
        ]
    );
}

#[test]
fn buffer_sizes_and_access() {
    let config = config_with(HashTarget::Address, Mode::Numbers, 1234);
    for kind in [BufferKind::PointsDeltaX, BufferKind::InversedNegativeDoubleGy, BufferKind::PrevLambda] {
        assert_eq!(kind.len(&config), Some(1234));
        assert_eq!(kind.access(), BufferAccess::DeviceOnly);
    }
    assert_eq!(BufferKind::Result.len(&config), Some(41));
    assert_eq!(BufferKind::Result.access(), BufferAccess::HostReads);
    assert_eq!(BufferKind::Data1.len(&config), Some(20));
    assert_eq!(BufferKind::Data2.len(&config), Some(20));
    assert_eq!(BufferKind::Data1.access(), BufferAccess::HostCopy);
    assert_eq!(BufferKind::Data2.access(), BufferAccess::HostCopy);
    assert_eq!(BufferKind::Precomp.len(&config), None);
    assert_eq!(BufferKind::Precomp.access(), BufferAccess::HostMemory);
}
