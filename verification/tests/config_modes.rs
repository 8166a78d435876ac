use profanity::config::{
    Config, HashTarget, Mode, ModeError, DEFAULT_PROFANITY_INVERSE_MULTIPLIER,
    DEFAULT_PROFANITY_INVERSE_SIZE, DEFAULT_PROFANITY_LOCAL_WORK_SIZE, MATCHING_MAX_NIBBLES,
    PROFANITY_MAX_SCORE, SPEED_METER_SAMPLE_COUNT,
};
use profanity::types::{HashResult, ScoreData, SCORE_DATA_SIZE};

fn block(head: &[u8]) -> ScoreData {
    let mut data = [0u8; 20];
    data[..head.len()].copy_from_slice(head);
    data
}

#[test]
fn matching_three_nibbles_leaves_a_half_byte() {
    let mode = Mode::Matching(vec![0xA, 0xB, 0xC]);
    let (data1, data2) = mode.get_data().unwrap();
    assert_eq!(data1, Some(block(&[0xAB, 0xC0])));
    assert_eq!(data2, Some(block(&[0xFF, 0xF0])));
}

#[test]
fn matching_four_nibbles_fills_two_bytes() {
    let mode = Mode::Matching(vec![0xA, 0xB, 0xC, 0xD]);
    let (data1, data2) = mode.get_data().unwrap();
    assert_eq!(data1, Some(block(&[0xAB, 0xCD])));
    assert_eq!(data2, Some(block(&[0xFF, 0xFF])));
}

#[test]
fn matching_forty_one_nibbles_is_rejected() {
    let mode = Mode::Matching(vec![1; 41]);
    assert_eq!(mode.get_data(), Err(ModeError::MatchingTooLong));
    let mode = Mode::Matching(vec![0; 1000]);
    assert_eq!(mode.get_data(), Err(ModeError::MatchingTooLong));
}

#[test]
fn matching_forty_nibbles_fills_both_blocks() {
    assert_eq!(MATCHING_MAX_NIBBLES, 40);
    let nibbles: Vec<u8> = (0..40).map(|i| (i % 16) as u8).collect();
    let (data1, data2) = Mode::Matching(nibbles).get_data().unwrap();
    let expected: Vec<u8> = (0..20).map(|i| ((((2 * i) % 16) << 4) | ((2 * i + 1) % 16)) as u8).collect();
    assert_eq!(data1, Some(block(&expected)));
    assert_eq!(data2, Some([0xFF; 20]));
}

#[test]
fn matching_thirty_nine_nibbles_ends_on_a_half_byte() {
    let (data1, data2) = Mode::Matching(vec![0xF; 39]).get_data().unwrap();
    let mut values = [0xFF; 20];
    values[19] = 0xF0;
    assert_eq!(data1, Some(values));
    assert_eq!(data2, Some(values));
}

#[test]
fn matching_empty_and_single() {
    let (data1, data2) = Mode::Matching(vec![]).get_data().unwrap();
    assert_eq!(data1, Some([0u8; 20]));
    assert_eq!(data2, Some([0u8; 20]));
    let (data1, data2) = Mode::Matching(vec![0x7]).get_data().unwrap();
    assert_eq!(data1, Some(block(&[0x70])));
    assert_eq!(data2, Some(block(&[0xF0])));
}

#[test]
fn range_family_encoding() {
    let numbers = Mode::Numbers.get_data().unwrap();
    assert_eq!(numbers, (Mode::Range { min: 0, max: 9 }).get_data().unwrap());
    assert_eq!(numbers, (Some(block(&[0])), Some(block(&[9]))));

    let zeros = Mode::Zeros.get_data().unwrap();
    assert_eq!(zeros, (Mode::Range { min: 0, max: 0 }).get_data().unwrap());
    assert_eq!(zeros, (Some(block(&[0])), Some(block(&[0]))));

    let letters = Mode::Letters.get_data().unwrap();
    assert_eq!(letters, (Mode::Range { min: 10, max: 15 }).get_data().unwrap());
    assert_eq!(letters, (Some(block(&[10])), Some(block(&[15]))));
}

#[test]
fn range_and_leading_range_put_bounds_first() {
    let expected = (Some(block(&[3])), Some(block(&[12])));
    assert_eq!((Mode::Range { min: 3, max: 12 }).get_data().unwrap(), expected);
    assert_eq!((Mode::LeadingRange { min: 3, max: 12 }).get_data().unwrap(), expected);
}

#[test]
fn leading_has_one_block() {
    assert_eq!(Mode::Leading(0xA).get_data().unwrap(), (Some(block(&[0xA])), None));
    assert_eq!(Mode::Leading(0).get_data().unwrap(), (Some([0u8; 20]), None));
}

#[test]
fn modes_without_blocks() {
    assert_eq!(Mode::Benchmark.get_data().unwrap(), (None, None));
    assert_eq!(Mode::Doubles.get_data().unwrap(), (None, None));
    assert_eq!(Mode::Mirror.get_data().unwrap(), (None, None));
}

#[test]
fn kernel_names() {
    assert_eq!(Mode::Benchmark.get_kernel_name(), "profanity_score_benchmark");
    assert_eq!(Mode::Doubles.get_kernel_name(), "profanity_score_doubles");
    assert_eq!(Mode::Leading(1).get_kernel_name(), "profanity_score_leading");
    assert_eq!(
        (Mode::LeadingRange { min: 1, max: 2 }).get_kernel_name(),
        "profanity_score_leadingrange"
    );
    assert_eq!(Mode::Matching(vec![1]).get_kernel_name(), "profanity_score_matching");
    assert_eq!(Mode::Mirror.get_kernel_name(), "profanity_score_mirror");
    for mode in [Mode::Letters, Mode::Numbers, Mode::Range { min: 1, max: 2 }, Mode::Zeros] {
        assert_eq!(mode.get_kernel_name(), "profanity_score_range");
    }
}

#[test]
fn mode_texts() {
    assert_eq!(Mode::Benchmark.to_text(), "Benchmark");
    assert_eq!(Mode::Doubles.to_text(), "Doubles");
    assert_eq!(Mode::Leading(0xA).to_text(), "Leading<A>");
    assert_eq!((Mode::LeadingRange { min: 0, max: 15 }).to_text(), "Leading Range<0-F>");
    assert_eq!(Mode::Letters.to_text(), "Letters");
    assert_eq!(Mode::Matching(vec![0xD, 0xE, 0xA, 0xD, 0, 9]).to_text(), "Matching<DEAD09>");
    assert_eq!(Mode::Matching(vec![]).to_text(), "Matching<>");
    assert_eq!(Mode::Mirror.to_text(), "Mirror");
    assert_eq!(Mode::Numbers.to_text(), "Numbers");
    assert_eq!((Mode::Range { min: 3, max: 0xC }).to_text(), "Range<3-C>");
    assert_eq!(Mode::Zeros.to_text(), "Zeros");
}

#[test]
fn mode_well_formedness() {
    assert!(Mode::Benchmark.is_well_formed());
    assert!(Mode::Leading(15).is_well_formed());
    assert!(!Mode::Leading(16).is_well_formed());
    assert!((Mode::Range { min: 0, max: 15 }).is_well_formed());
    assert!(!(Mode::Range { min: 16, max: 1 }).is_well_formed());
    assert!(!(Mode::LeadingRange { min: 1, max: 200 }).is_well_formed());
    assert!(Mode::Matching(vec![0, 15, 7]).is_well_formed());
    assert!(!Mode::Matching(vec![0, 15, 16]).is_well_formed());
    assert!(Mode::Matching(vec![1; 100]).is_well_formed());
}

#[test]
fn hash_target_texts() {
    assert_eq!(HashTarget::Address.to_text(), "Address");
    assert_eq!(HashTarget::Contract.to_text(), "Contract");
}

#[test]
fn config_new_keeps_a_given_work_size() {
    let config = Config::new(HashTarget::Contract, Mode::Zeros, [7u8; 64], true, 255, 16384, 64, 1000);
    assert_eq!(config.target, HashTarget::Contract);
    assert!(matches!(config.mode, Mode::Zeros));
    assert_eq!(config.public_key, [7u8; 64]);
    assert!(config.compact_speed);
    assert_eq!(config.inverse_size, 255);
    assert_eq!(config.inverse_multiplier, 16384);
    assert_eq!(config.local_work_size, 64);
    assert_eq!(config.max_work_size, 1000);
}

#[test]
fn config_new_defaults_the_work_size_to_the_product() {
    let config = Config::new(
        HashTarget::Address,
        Mode::Benchmark,
        [0u8; 64],
        false,
        DEFAULT_PROFANITY_INVERSE_SIZE,
        DEFAULT_PROFANITY_INVERSE_MULTIPLIER,
        DEFAULT_PROFANITY_LOCAL_WORK_SIZE,
        0,
    );
    assert_eq!(config.max_work_size, 255 * 16384);
    assert_eq!(config.local_work_size, 64);
    let config = Config::new(HashTarget::Address, Mode::Benchmark, [0u8; 64], false, 0, 16384, 64, 0);
    assert_eq!(config.max_work_size, 0);
}

#[test]
fn config_constants() {
    let config = Config::new(HashTarget::Address, Mode::Benchmark, [0u8; 64], false, 1, 1, 1, 1);
    assert_eq!(config.get_max_score(), 40);
    assert_eq!(config.get_speed_meter_sample_count(), 40);
    assert_eq!(PROFANITY_MAX_SCORE, 40);
    assert_eq!(SPEED_METER_SAMPLE_COUNT, 40);
    assert_eq!(SCORE_DATA_SIZE, 20);
}

#[test]
fn hash_result_new_is_empty() {
    let slot = HashResult::new();
    assert_eq!(slot.found, 0);
    assert_eq!(slot.found_id, 0);
    assert_eq!(slot.found_hash, [0u8; 20]);
}
