//! What a run is configured with: the target kind, the scoring mode and its
//! encoding into kernel parameters, and the work sizes.

use vstd::prelude::*;
use vstd::string::StringExecFns;

use crate::text::upper_hex_digit;
use crate::types::ScoreData;
use crate::utils::to_hex_char;

verus! {

pub const DEFAULT_PROFANITY_INVERSE_SIZE: usize = 255;

pub const DEFAULT_PROFANITY_INVERSE_MULTIPLIER: usize = 16384;

pub const DEFAULT_PROFANITY_LOCAL_WORK_SIZE: usize = 64;

/// How many samples the throughput meter of a device keeps.
pub const SPEED_METER_SAMPLE_COUNT: usize = 40;

/// The highest score that a candidate can reach.
pub const PROFANITY_MAX_SCORE: usize = 40;

/// The longest pattern that `Mode::Matching` can encode: two half-bytes for
/// each byte of a parameter block.
pub const MATCHING_MAX_NIBBLES: usize = 40;

/// What kind of identifier the search looks at.
#[derive(Debug, Clone, Copy, PartialEq, Eq, Structural)]
pub enum HashTarget {
    Address,
    Contract,
}

/// The scoring predicate.
#[derive(Debug, Clone)]
pub enum Mode {
    Benchmark,
    Doubles,
    Leading(u8),
    LeadingRange { min: u8, max: u8 },
    Letters,
    Matching(Vec<u8>),
    Mirror,
    Numbers,
    Range { min: u8, max: u8 },
    Zeros,
}

/// Why a mode has no encoding.
#[derive(Debug, Clone, Copy, PartialEq, Eq, Structural)]
pub enum ModeError {
    /// The pattern of `Mode::Matching` has more half-bytes than a parameter
    /// block has room for.
    MatchingTooLong,
}

/// The settings of one run. Nothing changes them once the run has begun.
pub struct Config {
    pub target: HashTarget,
    pub mode: Mode,
    /// The base public key, X then Y, each big-endian.
    pub public_key: [u8; 64],
    pub inverse_size: usize,
    pub inverse_multiplier: usize,
    pub compact_speed: bool,
    pub local_work_size: usize,
    /// How many candidates each device works on.
    pub max_work_size: usize,
}

/// A block whose first byte is `first` and whose other bytes are zero.
pub open spec fn single_byte_block(first: u8) -> Seq<u8> {
    Seq::new(20, |i: int| if i == 0 { first } else { 0u8 })
}

/// The value block of a pattern: byte `i` holds the half-bytes `2i` and
/// `2i + 1` of the pattern, the first of them in its high half. A half-byte
/// that the pattern does not have is zero.
pub open spec fn matching_values(nibbles: Seq<u8>) -> Seq<u8> {
    Seq::new(
        20,
        |i: int|
            if 2 * i + 1 < nibbles.len() {
                (nibbles[2 * i] << 4) | nibbles[2 * i + 1]
            } else if 2 * i < nibbles.len() {
                nibbles[2 * i] << 4
            } else {
                0u8
            },
    )
}

/// The mask block of a pattern: byte `i` has all bits set in each half that
/// the pattern prescribes.
pub open spec fn matching_mask(nibbles: Seq<u8>) -> Seq<u8> {
    Seq::new(
        20,
        |i: int|
            if 2 * i + 1 < nibbles.len() {
                0xFFu8
            } else if 2 * i < nibbles.len() {
                0xF0u8
            } else {
                0u8
            },
    )
}

/// The contents of a parameter block, if there is one.
pub open spec fn block_view(block: Option<ScoreData>) -> Option<Seq<u8>> {
    match block {
        Some(data) => Some(data@),
        None => None,
    }
}

/// Whether every element of `values` is below 16.
fn all_below_16(values: &Vec<u8>) -> (r: bool)
    ensures
        r == forall|i: int| 0 <= i < values@.len() ==> #[trigger] values@[i] < 16,
{
    let mut i: usize = 0;
    while i < values.len()
        invariant
            i <= values.len(),
            forall|j: int| 0 <= j < i ==> #[trigger] values@[j] < 16,
        decreases values.len() - i,
    {
        if values[i] >= 16 {
            return false;
        }
        i += 1;
    }
    true
}

/// The two blocks of a range: the lower bound in the first byte of the
/// first, the upper bound in the first byte of the second.
fn data_for_range_mode(min: u8, max: u8) -> (r: (Option<ScoreData>, Option<ScoreData>))
    ensures
        block_view(r.0) == Some(single_byte_block(min)),
        block_view(r.1) == Some(single_byte_block(max)),
{
    let mut data1: ScoreData = [0u8; 20];
    let mut data2: ScoreData = [0u8; 20];
    data1[0] = min;
    data2[0] = max;
    proof {
        assert(data1@ =~= single_byte_block(min));
        assert(data2@ =~= single_byte_block(max));
    }
    (Some(data1), Some(data2))
}

impl HashTarget {
    /// The name of the target kind as reports show it.
    pub open spec fn spec_text(self) -> Seq<char> {
        match self {
            HashTarget::Address => "Address"@,
            HashTarget::Contract => "Contract"@,
        }
    }

    /// The name of the target kind as reports show it.
    pub fn to_text(&self) -> (text: String)
        ensures
            text@ == self.spec_text(),
    {
        match self {
            HashTarget::Address => String::from_str("Address"),
            HashTarget::Contract => String::from_str("Contract"),
        }
    }
}

impl Mode {
    /// Every half-byte that the mode carries is below 16.
    pub open spec fn wf(self) -> bool {
        match self {
            Mode::Leading(v) => v < 16,
            Mode::LeadingRange { min, max } => min < 16 && max < 16,
            Mode::Range { min, max } => min < 16 && max < 16,
            Mode::Matching(nibbles) => forall|i: int|
                0 <= i < nibbles@.len() ==> #[trigger] nibbles@[i] < 16,
            _ => true,
        }
    }

    /// Whether the mode is a pattern too long to encode.
    pub open spec fn too_long(self) -> bool {
        self matches Mode::Matching(nibbles) && nibbles@.len() > MATCHING_MAX_NIBBLES
    }

    /// The name of the scoring kernel of the mode.
    pub open spec fn spec_kernel_name(self) -> Seq<char> {
        match self {
            Mode::Benchmark => "profanity_score_benchmark"@,
            Mode::Doubles => "profanity_score_doubles"@,
            Mode::Leading(_) => "profanity_score_leading"@,
            Mode::LeadingRange { .. } => "profanity_score_leadingrange"@,
            Mode::Matching(_) => "profanity_score_matching"@,
            Mode::Mirror => "profanity_score_mirror"@,
            Mode::Letters | Mode::Numbers | Mode::Range { .. } | Mode::Zeros =>
                "profanity_score_range"@,
        }
    }

    /// The first parameter block of the mode.
    pub open spec fn spec_data1(self) -> Option<Seq<u8>> {
        match self {
            Mode::Benchmark | Mode::Doubles | Mode::Mirror => None,
            Mode::Leading(v) => Some(single_byte_block(v)),
            Mode::LeadingRange { min, max } => Some(single_byte_block(min)),
            Mode::Range { min, max } => Some(single_byte_block(min)),
            Mode::Letters => Some(single_byte_block(10)),
            Mode::Numbers => Some(single_byte_block(0)),
            Mode::Zeros => Some(single_byte_block(0)),
            Mode::Matching(nibbles) => Some(matching_values(nibbles@)),
        }
    }

    /// The second parameter block of the mode.
    pub open spec fn spec_data2(self) -> Option<Seq<u8>> {
        match self {
            Mode::Benchmark | Mode::Doubles | Mode::Mirror | Mode::Leading(_) => None,
            Mode::LeadingRange { min, max } => Some(single_byte_block(max)),
            Mode::Range { min, max } => Some(single_byte_block(max)),
            Mode::Letters => Some(single_byte_block(15)),
            Mode::Numbers => Some(single_byte_block(9)),
            Mode::Zeros => Some(single_byte_block(0)),
            Mode::Matching(nibbles) => Some(matching_mask(nibbles@)),
        }
    }

    /// The mode as reports show it.
    pub open spec fn spec_text(self) -> Seq<char> {
        match self {
            Mode::Benchmark => "Benchmark"@,
            Mode::Doubles => "Doubles"@,
            Mode::Leading(v) => "Leading<"@.push(upper_hex_digit(v)) + ">"@,
            Mode::LeadingRange { min, max } => ("Leading Range<"@.push(upper_hex_digit(min))
                + "-"@).push(upper_hex_digit(max)) + ">"@,
            Mode::Letters => "Letters"@,
            Mode::Matching(nibbles) => "Matching<"@ + Seq::new(
                nibbles@.len(),
                |i: int| upper_hex_digit(nibbles@[i]),
            ) + ">"@,
            Mode::Mirror => "Mirror"@,
            Mode::Numbers => "Numbers"@,
            Mode::Range { min, max } => ("Range<"@.push(upper_hex_digit(min)) + "-"@).push(
                upper_hex_digit(max),
            ) + ">"@,
            Mode::Zeros => "Zeros"@,
        }
    }

    /// Whether every half-byte that the mode carries is below 16.
    pub fn is_well_formed(&self) -> (r: bool)
        ensures
            r == self.wf(),
    {
        match self {
            Mode::Leading(v) => *v < 16,
            Mode::LeadingRange { min, max } => *min < 16 && *max < 16,
            Mode::Range { min, max } => *min < 16 && *max < 16,
            Mode::Matching(nibbles) => all_below_16(nibbles),
            _ => true,
        }
    }

    /// The name of the kernel that scores candidates under this mode. The
    /// modes that look for characters of a range anywhere share one kernel.
    pub fn get_kernel_name(&self) -> (name: &'static str)
        ensures
            name@ == self.spec_kernel_name(),
    {
        match self {
            Mode::Benchmark => "profanity_score_benchmark",
            Mode::Doubles => "profanity_score_doubles",
            Mode::Leading(_) => "profanity_score_leading",
            Mode::LeadingRange { .. } => "profanity_score_leadingrange",
            Mode::Letters => "profanity_score_range",
            Mode::Matching(_) => "profanity_score_matching",
            Mode::Mirror => "profanity_score_mirror",
            Mode::Numbers => "profanity_score_range",
            Mode::Range { .. } => "profanity_score_range",
            Mode::Zeros => "profanity_score_range",
        }
    }

    /// The parameter blocks of the mode. A pattern of more than 40
    /// half-bytes has none and is rejected; every other mode is encoded.
    pub fn get_data(&self) -> (r: Result<(Option<ScoreData>, Option<ScoreData>), ModeError>)
        ensures
            r is Err <==> self.too_long(),
            r matches Err(e) ==> e == ModeError::MatchingTooLong,
            r matches Ok(blocks) ==> block_view(blocks.0) == self.spec_data1() && block_view(
                blocks.1,
            ) == self.spec_data2(),
    {
        match self {
            Mode::Leading(v) => {
                let mut data1: ScoreData = [0u8; 20];
                data1[0] = *v;
                proof {
                    assert(data1@ =~= single_byte_block(*v));
                }
                Ok((Some(data1), None))
            },
            Mode::Benchmark => Ok((None, None)),
            Mode::Doubles => Ok((None, None)),
            Mode::LeadingRange { min, max } => Ok(data_for_range_mode(*min, *max)),
            Mode::Letters => Ok(data_for_range_mode(10, 15)),
            Mode::Matching(nibbles) => {
                if nibbles.len() > MATCHING_MAX_NIBBLES {
                    return Err(ModeError::MatchingTooLong);
                }
                let mut data1: ScoreData = [0u8; 20];
                let mut data2: ScoreData = [0u8; 20];
                let mut i: usize = 0;
                while 2 * i < nibbles.len()
                    invariant
                        nibbles@.len() <= 40,
                        i <= 20,
                        2 * i <= nibbles@.len() + 1,
                        forall|j: int|
                            0 <= j < i ==> data1@[j] == matching_values(nibbles@)[j] && data2@[j]
                                == matching_mask(nibbles@)[j],
                        forall|j: int| i <= j < 20 ==> data1@[j] == 0 && data2@[j] == 0,
                    decreases 20 - i,
                {
                    let high = nibbles[2 * i];
                    if 2 * i + 1 < nibbles.len() {
                        let low = nibbles[2 * i + 1];
                        data1[i] = (high << 4) | low;
                        data2[i] = 0xFF;
                    } else {
                        data1[i] = high << 4;
                        data2[i] = 0xF0;
                    }
                    i += 1;
                }
                proof {
                    assert(data1@ =~= matching_values(nibbles@));
                    assert(data2@ =~= matching_mask(nibbles@));
                }
                Ok((Some(data1), Some(data2)))
            },
            Mode::Mirror => Ok((None, None)),
            Mode::Numbers => Ok(data_for_range_mode(0, 9)),
            Mode::Range { min, max } => Ok(data_for_range_mode(*min, *max)),
            Mode::Zeros => Ok(data_for_range_mode(0, 0)),
        }
    }

    /// The mode as reports show it: its name and, in angle brackets, the
    /// half-bytes it carries as upper-case hexadecimal digits.
    pub fn to_text(&self) -> (text: String)
        requires
            self.wf(),
        ensures
            text@ == self.spec_text(),
    {
        match self {
            Mode::Benchmark => String::from_str("Benchmark"),
            Mode::Doubles => String::from_str("Doubles"),
            Mode::Leading(v) => {
                let mut text = String::from_str("Leading<");
                text.push(to_hex_char(*v));
                text.append(">");
                text
            },
            Mode::LeadingRange { min, max } => {
                let mut text = String::from_str("Leading Range<");
                text.push(to_hex_char(*min));
                text.append("-");
                text.push(to_hex_char(*max));
                text.append(">");
                text
            },
            Mode::Letters => String::from_str("Letters"),
            Mode::Matching(nibbles) => {
                let mut text = String::from_str("Matching<");
                let ghost digits = Seq::new(nibbles@.len(), |i: int| upper_hex_digit(nibbles@[i]));
                let mut i: usize = 0;
                while i < nibbles.len()
                    invariant
                        i <= nibbles.len(),
                        forall|j: int| 0 <= j < nibbles@.len() ==> #[trigger] nibbles@[j] < 16,
                        digits == Seq::new(nibbles@.len(), |i: int| upper_hex_digit(nibbles@[i])),
                        text@ == "Matching<"@ + digits.take(i as int),
                    decreases nibbles.len() - i,
                {
                    text.push(to_hex_char(nibbles[i]));
                    proof {
                        assert(digits.take(i + 1) =~= digits.take(i as int).push(digits[i as int]));
                    }
                    i += 1;
                }
                proof {
                    assert(digits.take(i as int) =~= digits);
                }
                text.append(">");
                text
            },
            Mode::Mirror => String::from_str("Mirror"),
            Mode::Numbers => String::from_str("Numbers"),
            Mode::Range { min, max } => {
                let mut text = String::from_str("Range<");
                text.push(to_hex_char(*min));
                text.append("-");
                text.push(to_hex_char(*max));
                text.append(">");
                text
            },
            Mode::Zeros => String::from_str("Zeros"),
        }
    }
}

impl Config {
    /// The settings of a run. A `max_work_size` of 0 stands for the product
    /// of `inverse_size` and `inverse_multiplier`.
    pub fn new(
        target: HashTarget,
        mode: Mode,
        public_key: [u8; 64],
        compact_speed: bool,
        inverse_size: usize,
        inverse_multiplier: usize,
        local_work_size: usize,
        max_work_size: usize,
    ) -> (config: Self)
        requires
            max_work_size == 0 ==> inverse_size * inverse_multiplier <= usize::MAX,
        ensures
            config.target == target,
            config.mode == mode,
            config.public_key == public_key,
            config.compact_speed == compact_speed,
            config.inverse_size == inverse_size,
            config.inverse_multiplier == inverse_multiplier,
            config.local_work_size == local_work_size,
            config.max_work_size == if max_work_size == 0 {
                inverse_size * inverse_multiplier
            } else {
                max_work_size as int
            },
    {
        Config {
            target,
            mode,
            public_key,
            compact_speed,
            inverse_size,
            inverse_multiplier,
            local_work_size,
            max_work_size: if max_work_size == 0 {
                inverse_size * inverse_multiplier
            } else {
                max_work_size
            },
        }
    }

    /// How many samples the throughput meter of a device keeps.
    pub fn get_speed_meter_sample_count(&self) -> (count: usize)
        ensures
            count == SPEED_METER_SAMPLE_COUNT,
    {
        SPEED_METER_SAMPLE_COUNT
    }

    /// The highest score that a candidate can reach.
    pub fn get_max_score(&self) -> (score: usize)
        ensures
            score == PROFANITY_MAX_SCORE,
    {
        PROFANITY_MAX_SCORE
    }
}

} // verus!
