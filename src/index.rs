use vstd::prelude::*;
use crate::bytes::copy_bytes;
use crate::repository::{boolean_value_view, BooleanValue, ObjectHash, Repository};

verus! {

#[verifier::external_type_specification]
#[verifier::external_body]
pub struct ExConfigValueError(git_config::value::parse::Error);

/// The binary multiplier that a configuration integer may carry as suffix.
#[derive(Clone, Copy, Debug, PartialEq, Eq, Structural)]
pub enum IntegerSuffix {
    /// `k`: 1024.
    Kibi,
    /// `m`: 1024 * 1024.
    Mebi,
    /// `g`: 1024 * 1024 * 1024.
    Gibi,
}

/// A configuration integer as written: a value and an optional suffix.
#[derive(Clone, Copy, Debug, PartialEq, Eq, Structural)]
pub struct ConfigInteger {
    pub value: i64,
    pub suffix: Option<IntegerSuffix>,
}

pub open spec fn is_digit(b: u8) -> bool {
    48 <= b <= 57
}

/// The value of a string of ASCII decimal digits.
pub open spec fn digits_value(s: Seq<u8>) -> int
    decreases s.len(),
{
    if s.len() == 0 {
        0
    } else {
        digits_value(s.drop_last()) * 10 + (s.last() - 48)
    }
}

/// At least one byte, all of them ASCII decimal digits.
pub open spec fn all_digits(s: Seq<u8>) -> bool {
    s.len() > 0 && forall|i: int| 0 <= i < s.len() ==> is_digit(#[trigger] s[i])
}

/// A decimal `i64` as written: an optional `-` or `+`, then ASCII digits,
/// with a value in range.
pub open spec fn decimal_i64(s: Seq<u8>) -> Option<i64> {
    let negative = s.len() > 0 && s[0] == 45;
    let digits = if s.len() > 0 && (s[0] == 45 || s[0] == 43) {
        s.drop_first()
    } else {
        s
    };
    let v = if negative {
        -digits_value(digits)
    } else {
        digits_value(digits)
    };
    if all_digits(digits) && i64::MIN <= v <= i64::MAX {
        Some(v as i64)
    } else {
        None
    }
}

/// The suffix that a byte names: `k`, `m` or `g`, in either case.
pub open spec fn suffix_of(b: u8) -> Option<IntegerSuffix> {
    if b == 107 || b == 75 {
        Some(IntegerSuffix::Kibi)
    } else if b == 109 || b == 77 {
        Some(IntegerSuffix::Mebi)
    } else if b == 103 || b == 71 {
        Some(IntegerSuffix::Gibi)
    } else {
        None
    }
}

/// A configuration integer as written in `raw`: a decimal `i64`, or one
/// followed by a single suffix byte.
pub open spec fn config_integer(raw: Seq<u8>) -> Option<ConfigInteger> {
    match decimal_i64(raw) {
        Some(v) => Some(ConfigInteger { value: v, suffix: None }),
        None => if raw.len() >= 2 {
            match (decimal_i64(raw.drop_last()), suffix_of(raw.last())) {
                (Some(v), Some(suffix)) => Some(ConfigInteger { value: v, suffix: Some(suffix) }),
                _ => None,
            }
        } else {
            None
        },
    }
}

/// Text that ends in a byte outside ASCII is no configuration integer.
pub proof fn lemma_non_ascii_end_is_no_integer(raw: Seq<u8>)
    requires
        raw.len() > 0,
        raw.last() >= 128,
    ensures
        config_integer(raw) is None,
{
    let digits = if raw[0] == 45 || raw[0] == 43 {
        raw.drop_first()
    } else {
        raw
    };
    if digits.len() > 0 {
        assert(digits[digits.len() - 1] == raw.last());
    }
}

/// Relies on `git_config::values::Integer::try_from(&[u8])`: it reads the text
/// as UTF-8, then as an `i64` (`str::parse`), else as an `i64` followed by one
/// of `kKmMgG`, and fails otherwise with an error that holds the input. It
/// splits off the last character at the last byte, which panics unless that
/// byte is ASCII: `requires` leaves such text out.
#[verifier::external_body]
fn parse_integer(raw: &Vec<u8>) -> (r: Result<ConfigInteger, git_config::value::parse::Error>)
    requires
        raw@.len() == 0 || raw@.last() < 128,
    ensures
        r is Ok <==> config_integer(raw@) is Some,
        r is Ok ==> config_integer(raw@) == Some(r->Ok_0),
{
    match git_config::values::Integer::try_from(raw.as_slice()) {
        Ok(i) => Ok(ConfigInteger {
            value: i.value,
            suffix: match i.suffix {
                None => None,
                Some(git_config::values::IntegerSuffix::Kibi) => Some(IntegerSuffix::Kibi),
                Some(git_config::values::IntegerSuffix::Mebi) => Some(IntegerSuffix::Mebi),
                Some(git_config::values::IntegerSuffix::Gibi) => Some(IntegerSuffix::Gibi),
            },
        }),
        Err(e) => Err(e),
    }
}

/// The factor that a suffix stands for.
pub open spec fn multiplier(s: Option<IntegerSuffix>) -> int {
    match s {
        None => 1,
        Some(IntegerSuffix::Kibi) => 1024,
        Some(IntegerSuffix::Mebi) => 1048576,
        Some(IntegerSuffix::Gibi) => 1073741824,
    }
}

/// The integer's value with its suffix applied, if that fits in an `i64`.
pub open spec fn decimal_of(i: ConfigInteger) -> Option<int> {
    let v = i.value * multiplier(i.suffix);
    if i64::MIN <= v <= i64::MAX {
        Some(v)
    } else {
        None
    }
}

/// The thread limit that a configured integer stands for: its decimal value
/// where that is a valid `usize`, and 1 otherwise.
pub open spec fn limit_of_integer(i: ConfigInteger) -> usize {
    match decimal_of(i) {
        Some(v) => if 0 <= v <= usize::MAX {
            v as usize
        } else {
            1
        },
        None => 1,
    }
}

impl ConfigInteger {
    /// The value with its suffix applied, or `None` on overflow.
    pub fn to_decimal(&self) -> (r: Option<i64>)
        ensures
            match decimal_of(*self) {
                Some(v) => r == Some(v as i64),
                None => r is None,
            },
    {
        match self.suffix {
            None => Some(self.value),
            Some(IntegerSuffix::Kibi) => self.value.checked_mul(1024),
            Some(IntegerSuffix::Mebi) => self.value.checked_mul(1024 * 1024),
            Some(IntegerSuffix::Gibi) => self.value.checked_mul(1024 * 1024 * 1024),
        }
    }
}

/// Why the index could not be opened.
#[derive(Debug)]
pub enum OpenIndexError {
    /// `index.threads` is neither a boolean nor an integer. `err` is what the
    /// integer parser said, where it was asked.
    ConfigIndexThreads { value: Vec<u8>, err: Option<git_config::value::parse::Error> },
}

/// What the index decoder is handed.
#[derive(Clone, Copy, Debug, PartialEq, Eq, Structural)]
pub struct DecodeOptions {
    pub object_hash: ObjectHash,
    /// `Some(0)` asks for all available parallelism; `None` leaves it to the decoder.
    pub thread_limit: Option<usize>,
    pub min_extension_block_in_bytes_for_threading: usize,
}

/// The thread limit for the raw `index.threads` text `raw`, given what
/// parsing it as an integer gave.
pub fn thread_limit_from_integer(
    raw: &Vec<u8>,
    parsed: Result<ConfigInteger, git_config::value::parse::Error>,
) -> (r: Result<usize, OpenIndexError>)
    ensures
        match parsed {
            Ok(i) => r == Ok::<usize, OpenIndexError>(limit_of_integer(i)),
            Err(e) => r matches Err(OpenIndexError::ConfigIndexThreads { value, err }) && value@
                == raw@ && err == Some(e),
        },
{
    match parsed {
        Ok(i) => match i.to_decimal() {
            Some(v) => if v >= 0 && (v as u64) <= (usize::MAX as u64) {
                Ok(v as usize)
            } else {
                Ok(1)
            },
            None => Ok(1),
        },
        Err(err) => Err(OpenIndexError::ConfigIndexThreads { value: copy_bytes(raw), err: Some(err) }),
    }
}

/// The thread limit that the `index.threads` setting asks for: `true` means
/// all available parallelism (0), `false` one thread, text that is no
/// boolean is read as an integer, and an absent key sets no limit.
pub fn thread_limit(threads: &BooleanValue) -> (r: Result<Option<usize>, OpenIndexError>)
    ensures
        match boolean_value_view(*threads) {
            None => r == Ok::<Option<usize>, OpenIndexError>(None),
            Some(Ok(b)) => r == Ok::<Option<usize>, OpenIndexError>(Some(if b { 0 } else { 1 })),
            Some(Err(raw)) => match config_integer(raw) {
                Some(i) => r == Ok::<Option<usize>, OpenIndexError>(Some(limit_of_integer(i))),
                None => r matches Err(OpenIndexError::ConfigIndexThreads { value, err }) && value@
                    == raw,
            },
        },
{
    match threads {
        None => Ok(None),
        Some(Ok(b)) => Ok(Some(if *b { 0 } else { 1 })),
        Some(Err(raw)) => {
            if raw.len() == 0 || raw[raw.len() - 1] < 128 {
                match thread_limit_from_integer(raw, parse_integer(raw)) {
                    Ok(n) => Ok(Some(n)),
                    Err(e) => Err(e),
                }
            } else {
                proof {
                    lemma_non_ascii_end_is_no_integer(raw@);
                }
                Err(OpenIndexError::ConfigIndexThreads { value: copy_bytes(raw), err: None })
            }
        },
    }
}

impl Repository {
    /// How the index of this repository is to be decoded: with its object
    /// hash, the thread limit from `index.threads`, and threading for
    /// extension blocks of any size.
    pub fn index_decode_options(&self) -> (r: Result<DecodeOptions, OpenIndexError>)
        ensures
            match thread_limit_result(self.config.index_threads) {
                Ok(limit) => r == Ok::<DecodeOptions, OpenIndexError>(
                    DecodeOptions {
                        object_hash: self.object_hash,
                        thread_limit: limit,
                        min_extension_block_in_bytes_for_threading: 0,
                    },
                ),
                Err(raw) => r matches Err(OpenIndexError::ConfigIndexThreads { value, err })
                    && value@ == raw,
            },
    {
        match thread_limit(&self.config.index_threads) {
            Ok(limit) => Ok(
                DecodeOptions {
                    object_hash: self.object_hash,
                    thread_limit: limit,
                    min_extension_block_in_bytes_for_threading: 0,
                },
            ),
            Err(e) => Err(e),
        }
    }
}

/// The thread limit that `index.threads` gives, or the raw text that is
/// neither boolean nor integer.
pub open spec fn thread_limit_result(threads: BooleanValue) -> Result<Option<usize>, Seq<u8>> {
    match boolean_value_view(threads) {
        None => Ok(None),
        Some(Ok(b)) => Ok(Some(if b { 0 } else { 1 })),
        Some(Err(raw)) => match config_integer(raw) {
            Some(i) => Ok(Some(limit_of_integer(i))),
            None => Err(raw),
        },
    }
}

} // verus!
