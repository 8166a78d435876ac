//! What the command line hands over: the options of a run as plain values,
//! the checks that its arguments must pass, and the settings they make.

use std::collections::HashSet;
use vstd::prelude::*;
use vstd::string::StringExecFns;

use crate::config::{Config, HashTarget, Mode};
use crate::text::to_chars;
use crate::utils::{
    all_hex_digits, decode_hex, decode_hex_chars, hex_char_to_u8, hex_char_to_u8_unchecked,
    hex_digit_value, hex_digit_values, is_hex_char, is_hex_digit,
};

verus! {

/// How many hexadecimal digits a seed has.
pub const SEED_DIGITS: usize = 128;

/// The longest pattern that the matching mode takes, in digits.
pub const MATCHING_MAX_DIGITS: usize = 40;

/// The kind of target as the command line names it.
#[derive(Debug, Clone, Copy, PartialEq, Eq, Structural)]
pub enum Target {
    Address,
    Contract,
}

/// The scoring mode as the command line names it, with its arguments.
#[derive(Debug, Clone)]
pub enum ModeCommands {
    Benchmark,
    Doubles,
    Leading { leading: u8 },
    LeadingRange { min: u8, max: u8 },
    Letters,
    Matching { m: String },
    Mirror,
    Numbers,
    Range { min: u8, max: u8 },
    Zeros,
}

/// The options of a run.
pub struct Cli {
    /// The base public key as 128 hexadecimal digits, with or without `0x`
    /// before them.
    pub seed: String,
    /// The devices to leave out, by index.
    pub skip_devices: Option<Vec<usize>>,
    pub max_work_size: usize,
    pub work_size: usize,
    pub inverse_size: usize,
    pub inverse_multiplier: usize,
    pub compact_speed: bool,
    pub target: Target,
    pub command: ModeCommands,
}

/// The digits of a seed: the text without the `0x` it may begin with.
pub open spec fn seed_digits(s: Seq<char>) -> Seq<char> {
    if s.len() > 2 && s[0] == '0' && s[1] == 'x' {
        s.skip(2)
    } else {
        s
    }
}

/// Whether `s` is a seed: 128 hexadecimal digits, with or without `0x`
/// before them.
pub open spec fn is_valid_seed(s: Seq<char>) -> bool {
    seed_digits(s).len() == SEED_DIGITS && all_hex_digits(seed_digits(s))
}

/// A complaint about the argument `s`: the argument between backticks, then
/// what is wrong with it.
pub open spec fn complaint(s: Seq<char>, what: Seq<char>) -> Seq<char> {
    "`"@ + s + what
}

/// Whether `mode` is the scoring mode that `command` asks for. The digits of
/// a pattern go by their values.
pub open spec fn is_mode_of(mode: Mode, command: ModeCommands) -> bool {
    match command {
        ModeCommands::Benchmark => mode == Mode::Benchmark,
        ModeCommands::Doubles => mode == Mode::Doubles,
        ModeCommands::Leading { leading } => mode == Mode::Leading(leading),
        ModeCommands::LeadingRange { min, max } => mode == (Mode::LeadingRange { min, max }),
        ModeCommands::Letters => mode == Mode::Letters,
        ModeCommands::Matching { m } => mode matches Mode::Matching(nibbles) && nibbles@
            == hex_digit_values(m@),
        ModeCommands::Mirror => mode == Mode::Mirror,
        ModeCommands::Numbers => mode == Mode::Numbers,
        ModeCommands::Range { min, max } => mode == (Mode::Range { min, max }),
        ModeCommands::Zeros => mode == Mode::Zeros,
    }
}

/// The argument `s` between backticks, followed by `what`.
fn complain(s: &str, what: &str) -> (message: String)
    ensures
        message@ == complaint(s@, what@),
{
    let mut message = String::from_str("`");
    message.append(s);
    message.append(what);
    message
}

/// Whether every character of `chars` from `start` on is a hexadecimal
/// digit.
fn all_hex_from(chars: &Vec<char>, start: usize) -> (r: bool)
    requires
        start <= chars@.len(),
    ensures
        r == all_hex_digits(chars@.skip(start as int)),
{
    let mut i: usize = start;
    while i < chars.len()
        invariant
            start <= i <= chars.len(),
            forall|j: int| start <= j < i ==> is_hex_digit(#[trigger] chars@[j]),
        decreases chars.len() - i,
    {
        if !is_hex_char(chars[i]) {
            proof {
                let tail = chars@.skip(start as int);
                assert(tail[i - start] == chars@[i as int]);
            }
            return false;
        }
        i += 1;
    }
    proof {
        let tail = chars@.skip(start as int);
        assert forall|j: int| 0 <= j < tail.len() implies is_hex_digit(#[trigger] tail[j]) by {
            assert(tail[j] == chars@[j + start]);
        }
    }
    true
}

/// Where the digits of a seed begin: behind the `0x` it may begin with.
fn seed_start(chars: &Vec<char>) -> (start: usize)
    ensures
        start <= chars@.len(),
        chars@.skip(start as int) == seed_digits(chars@),
{
    if chars.len() > 2 && chars[0] == '0' && chars[1] == 'x' {
        2
    } else {
        proof {
            assert(chars@.skip(0) =~= chars@);
        }
        0
    }
}

/// Checks a seed. A seed is 128 hexadecimal digits, with or without `0x`
/// before them; it is handed back as it came. Any other text is answered
/// with a complaint: about its length where that is wrong, else about its
/// characters.
pub fn seed_validator(s: &str) -> (r: Result<String, String>)
    ensures
        r is Ok <==> is_valid_seed(s@),
        r matches Ok(seed) ==> seed@ == s@,
        r matches Err(message) ==> message@ == if seed_digits(s@).len() != SEED_DIGITS {
            complaint(s@, "` should be 128 characters long"@)
        } else {
            complaint(s@, "` isn't a valid seed"@)
        },
{
    let chars = to_chars(s);
    let start = seed_start(&chars);
    if chars.len() - start != SEED_DIGITS {
        return Err(complain(s, "` should be 128 characters long"));
    }
    if all_hex_from(&chars, start) {
        Ok(String::from_str(s))
    } else {
        Err(complain(s, "` isn't a valid seed"))
    }
}

/// Reads a hexadecimal digit: the value of the first character of `s`. A
/// text that is empty, or begins with another character, is answered with a
/// complaint.
pub fn hex_char_parser(s: &str) -> (r: Result<u8, String>)
    ensures
        r is Ok <==> s@.len() > 0 && is_hex_digit(s@[0]),
        r matches Ok(value) ==> value == hex_digit_value(s@[0]) && value < 16,
        r matches Err(message) ==> message@ == complaint(s@, "` isn't a valid hex character"@),
{
    let chars = to_chars(s);
    if chars.len() > 0 {
        match hex_char_to_u8(chars[0]) {
            Some(value) => {
                return Ok(value);
            },
            None => {},
        }
    }
    Err(complain(s, "` isn't a valid hex character"))
}

/// Checks a pattern for the matching mode: at most 40 characters, all of
/// them hexadecimal digits. It is handed back as it came. Any other text is
/// answered with a complaint: about its length where that is too great,
/// else about its characters.
pub fn hex_str_validator(s: &str) -> (r: Result<String, String>)
    ensures
        r is Ok <==> s@.len() <= MATCHING_MAX_DIGITS && all_hex_digits(s@),
        r matches Ok(pattern) ==> pattern@ == s@,
        r matches Err(message) ==> message@ == if s@.len() > MATCHING_MAX_DIGITS {
            complaint(s@, "` is too long"@)
        } else {
            complaint(s@, "` isn't a valid hex string"@)
        },
{
    let chars = to_chars(s);
    if chars.len() > MATCHING_MAX_DIGITS {
        return Err(complain(s, "` is too long"));
    }
    proof {
        assert(chars@.skip(0) =~= s@);
    }
    if all_hex_from(&chars, 0) {
        Ok(String::from_str(s))
    } else {
        Err(complain(s, "` isn't a valid hex string"))
    }
}

/// The values of the characters of `s` as hexadecimal digits, 0 for a
/// character that is none.
pub fn hex_char_vec_parser_unchecked(s: &str) -> (values: Vec<u8>)
    ensures
        values@ == hex_digit_values(s@),
        forall|i: int| 0 <= i < values@.len() ==> #[trigger] values@[i] < 16,
{
    let chars = to_chars(s);
    let mut values: Vec<u8> = Vec::new();
    let mut i: usize = 0;
    while i < chars.len()
        invariant
            chars@ == s@,
            i <= chars.len(),
            values@ == hex_digit_values(s@).take(i as int),
            forall|j: int| 0 <= j < values@.len() ==> #[trigger] values@[j] < 16,
        decreases chars.len() - i,
    {
        values.push(hex_char_to_u8_unchecked(chars[i]));
        proof {
            let v = hex_digit_values(s@);
            assert(v.take(i + 1) =~= v.take(i as int).push(v[i as int]));
        }
        i += 1;
    }
    proof {
        let v = hex_digit_values(s@);
        assert(v.take(i as int) =~= v);
    }
    values
}

impl Target {
    /// The kind of target that the search looks at.
    pub fn to_hash_target(&self) -> (target: HashTarget)
        ensures
            target == match *self {
                Target::Address => HashTarget::Address,
                Target::Contract => HashTarget::Contract,
            },
    {
        match self {
            Target::Address => HashTarget::Address,
            Target::Contract => HashTarget::Contract,
        }
    }
}

impl ModeCommands {
    /// The scoring mode that the command asks for. The pattern of the
    /// matching mode is turned into the values of its digits.
    pub fn to_mode(&self) -> (mode: Mode)
        ensures
            is_mode_of(mode, *self),
    {
        match self {
            ModeCommands::Benchmark => Mode::Benchmark,
            ModeCommands::Doubles => Mode::Doubles,
            ModeCommands::Leading { leading } => Mode::Leading(*leading),
            ModeCommands::LeadingRange { min, max } => Mode::LeadingRange { min: *min, max: *max },
            ModeCommands::Letters => Mode::Letters,
            ModeCommands::Matching { m } => Mode::Matching(
                hex_char_vec_parser_unchecked(m.as_str()),
            ),
            ModeCommands::Mirror => Mode::Mirror,
            ModeCommands::Numbers => Mode::Numbers,
            ModeCommands::Range { min, max } => Mode::Range { min: *min, max: *max },
            ModeCommands::Zeros => Mode::Zeros,
        }
    }
}

impl Cli {
    /// The base public key: the 64 bytes that the digits of the seed stand
    /// for.
    pub fn get_seed(&self) -> (key: [u8; 64])
        requires
            is_valid_seed(self.seed@),
        ensures
            key@ == decode_hex(seed_digits(self.seed@)),
    {
        let chars = to_chars(self.seed.as_str());
        let start = seed_start(&chars);
        let bytes = decode_hex_chars(&chars, start);
        let mut key = [0u8; 64];
        let mut i: usize = 0;
        while i < 64
            invariant
                i <= 64,
                bytes@.len() == 64,
                forall|j: int| 0 <= j < i ==> key@[j] == bytes@[j],
            decreases 64 - i,
        {
            key[i] = bytes[i];
            i += 1;
        }
        proof {
            assert(key@ =~= bytes@);
        }
        key
    }

    /// The settings that the options make.
    pub fn to_config(&self) -> (config: Config)
        requires
            is_valid_seed(self.seed@),
            self.max_work_size == 0 ==> self.inverse_size * self.inverse_multiplier <= usize::MAX,
        ensures
            config.target == match self.target {
                Target::Address => HashTarget::Address,
                Target::Contract => HashTarget::Contract,
            },
            is_mode_of(config.mode, self.command),
            config.public_key@ == decode_hex(seed_digits(self.seed@)),
            config.compact_speed == self.compact_speed,
            config.inverse_size == self.inverse_size,
            config.inverse_multiplier == self.inverse_multiplier,
            config.local_work_size == self.work_size,
            config.max_work_size == if self.max_work_size == 0 {
                self.inverse_size * self.inverse_multiplier
            } else {
                self.max_work_size as int
            },
    {
        Config::new(
            self.target.to_hash_target(),
            self.command.to_mode(),
            self.get_seed(),
            self.compact_speed,
            self.inverse_size,
            self.inverse_multiplier,
            self.work_size,
            self.max_work_size,
        )
    }

    /// The devices to leave out, each of them once.
    pub fn get_skip_devices(&self) -> (devices: HashSet<usize>)
        ensures
            devices@ == match self.skip_devices {
                Some(indices) => indices@.to_set(),
                None => Set::empty(),
            },
    {
        let mut devices: HashSet<usize> = HashSet::new();
        match &self.skip_devices {
            Some(indices) => {
                let mut i: usize = 0;
                proof {
                    assert(indices@.take(0).to_set() =~= Set::<usize>::empty());
                }
                while i < indices.len()
                    invariant
                        i <= indices.len(),
                        devices@ == indices@.take(i as int).to_set(),
                    decreases indices.len() - i,
                {
                    devices.insert(indices[i]);
                    proof {
                        let a = indices@.take(i as int);
                        let b = indices@.take(i + 1);
                        let x = indices@[i as int];
                        assert(b =~= a.push(x));
                        assert forall|y: usize| b.to_set().contains(y) <==> a.to_set().insert(
                            x,
                        ).contains(y) by {
                            if b.contains(y) {
                                let j = choose|j: int| 0 <= j < b.len() && b[j] == y;
                                if j < i {
                                    assert(a[j] == y);
                                }
                            }
                            if a.contains(y) {
                                let j = choose|j: int| 0 <= j < a.len() && a[j] == y;
                                assert(b[j] == y);
                            }
                            assert(b[i as int] == x);
                        }
                        assert(b.to_set() =~= a.to_set().insert(x));
                    }
                    i += 1;
                }
                proof {
                    assert(indices@.take(indices@.len() as int) =~= indices@);
                }
            },
            None => {},
        }
        devices
    }
}

} // verus!
