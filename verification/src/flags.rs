//! The `read_format` flags of a counter.

use vstd::prelude::*;
use vstd::std_specs::ops::{BitOrSpecImpl, SubSpecImpl};

verus! {

/// Which values the kernel delivers when a counter is read.
///
/// A `ReadFormat` is a set of flags. It may hold bits that stand for no flag
/// known here; [`ReadFormat::is_supported`] says whether it does.
#[derive(Clone, Copy, Debug, PartialEq, Eq, Structural)]
pub struct ReadFormat {
    /// The raw bits, as `perf_event_open` takes them.
    pub bits: u64,
}

/// One for a flag that is set, zero for one that is not.
pub open spec fn flag_count(set: bool) -> int {
    if set {
        1
    } else {
        0
    }
}

impl ReadFormat {
    /// Emit the total time for which the counter has been enabled.
    #[verifier::allow_in_spec]
    pub fn total_time_enabled() -> ReadFormat
        returns
            (ReadFormat { bits: 1 }),
    {
        ReadFormat { bits: 1 }
    }

    /// Emit the total time for which the counter was actually counting.
    #[verifier::allow_in_spec]
    pub fn total_time_running() -> ReadFormat
        returns
            (ReadFormat { bits: 2 }),
    {
        ReadFormat { bits: 2 }
    }

    /// Emit the id of the counter.
    #[verifier::allow_in_spec]
    pub fn id() -> ReadFormat
        returns
            (ReadFormat { bits: 4 }),
    {
        ReadFormat { bits: 4 }
    }

    /// Read the whole group of the counter at once.
    #[verifier::allow_in_spec]
    pub fn group() -> ReadFormat
        returns
            (ReadFormat { bits: 8 }),
    {
        ReadFormat { bits: 8 }
    }

    /// Emit the number of lost samples.
    #[verifier::allow_in_spec]
    pub fn lost() -> ReadFormat
        returns
            (ReadFormat { bits: 16 }),
    {
        ReadFormat { bits: 16 }
    }

    /// The number of words that a read without `GROUP` delivers at most.
    pub const MAX_NON_GROUP_SIZE: usize = 5;

    /// Whether every bit of `flags` is set in `self`.
    pub open spec fn has(self, flags: ReadFormat) -> bool {
        self.bits & flags.bits == flags.bits
    }

    /// Whether every bit of `self` stands for a flag known here.
    pub open spec fn is_supported(self) -> bool {
        self.bits & !31u64 == 0
    }

    /// `self` with the bits of `other` set too.
    pub open spec fn plus(self, other: ReadFormat) -> ReadFormat {
        ReadFormat { bits: self.bits | other.bits }
    }

    /// `self` with the bits of `other` cleared.
    pub open spec fn minus(self, other: ReadFormat) -> ReadFormat {
        ReadFormat { bits: self.bits & !other.bits }
    }

    /// The number of time words that the format asks for.
    pub open spec fn time_words(self) -> int {
        flag_count(self.has(ReadFormat::total_time_enabled())) + flag_count(
            self.has(ReadFormat::total_time_running()),
        )
    }

    /// The number of words that stand before the elements of a group.
    pub open spec fn prefix_words(self) -> int {
        1 + self.time_words()
    }

    /// The number of words of each element of a group.
    pub open spec fn element_words(self) -> int {
        1 + flag_count(self.has(ReadFormat::id())) + flag_count(self.has(ReadFormat::lost()))
    }

    /// The number of words of a read without `GROUP`.
    pub open spec fn single_words(self) -> int {
        self.prefix_words() + self.element_words() - 1
    }

    /// The format with exactly the bits given, known or not.
    pub fn from_bits_retain(bits: u64) -> (format: ReadFormat)
        ensures
            format.bits == bits,
    {
        ReadFormat { bits }
    }

    /// The raw bits.
    pub fn bits(&self) -> (bits: u64)
        ensures
            bits == self.bits,
    {
        self.bits
    }

    /// All the flags known here.
    pub fn all() -> (format: ReadFormat)
        ensures
            format.bits == 31,
    {
        ReadFormat { bits: 31 }
    }

    /// Whether no bit is set.
    pub fn is_empty(&self) -> (empty: bool)
        ensures
            empty == (self.bits == 0),
    {
        self.bits == 0
    }

    /// Whether every bit of `other` is set in `self`.
    pub fn contains(&self, other: ReadFormat) -> (contained: bool)
        ensures
            contained == self.has(other),
    {
        self.bits & other.bits == other.bits
    }

    /// The size of the common prefix when reading a group, in words.
    pub fn prefix_len(&self) -> (len: usize)
        ensures
            len == self.prefix_words(),
            1 <= len <= 3,
    {
        let mut len: usize = 1;
        if self.contains(ReadFormat::total_time_enabled()) {
            len = len + 1;
        }
        if self.contains(ReadFormat::total_time_running()) {
            len = len + 1;
        }
        len
    }

    /// The size of each element when reading a group, in words.
    pub fn element_len(&self) -> (len: usize)
        ensures
            len == self.element_words(),
            1 <= len <= 3,
    {
        let mut len: usize = 1;
        if self.contains(ReadFormat::id()) {
            len = len + 1;
        }
        if self.contains(ReadFormat::lost()) {
            len = len + 1;
        }
        len
    }
}

impl core::ops::BitOr for ReadFormat {
    type Output = ReadFormat;

    fn bitor(self, rhs: ReadFormat) -> (format: ReadFormat) {
        ReadFormat { bits: self.bits | rhs.bits }
    }
}

impl BitOrSpecImpl for ReadFormat {
    open spec fn obeys_bitor_spec() -> bool {
        true
    }

    open spec fn bitor_req(self, rhs: ReadFormat) -> bool {
        true
    }

    open spec fn bitor_spec(self, rhs: ReadFormat) -> ReadFormat {
        self.plus(rhs)
    }
}

impl core::ops::Sub for ReadFormat {
    type Output = ReadFormat;

    fn sub(self, rhs: ReadFormat) -> (format: ReadFormat) {
        ReadFormat { bits: self.bits & !rhs.bits }
    }
}

impl SubSpecImpl for ReadFormat {
    open spec fn obeys_sub_spec() -> bool {
        true
    }

    open spec fn sub_req(self, rhs: ReadFormat) -> bool {
        true
    }

    open spec fn sub_spec(self, rhs: ReadFormat) -> ReadFormat {
        self.minus(rhs)
    }
}

/// Clearing `GROUP` clears that flag and no other.
pub proof fn lemma_minus_group(f: ReadFormat)
    ensures
        !f.minus(ReadFormat::group()).has(ReadFormat::group()),
        f.minus(ReadFormat::group()).has(ReadFormat::total_time_enabled()) == f.has(
            ReadFormat::total_time_enabled(),
        ),
        f.minus(ReadFormat::group()).has(ReadFormat::total_time_running()) == f.has(
            ReadFormat::total_time_running(),
        ),
        f.minus(ReadFormat::group()).has(ReadFormat::id()) == f.has(ReadFormat::id()),
        f.minus(ReadFormat::group()).has(ReadFormat::lost()) == f.has(ReadFormat::lost()),
        f.minus(ReadFormat::group()).is_supported() == f.is_supported(),
{
    let b = f.bits;
    assert((b & !8u64) & 8 != 8) by (bit_vector);
    assert((b & !8u64) & 1 == b & 1) by (bit_vector);
    assert((b & !8u64) & 2 == b & 2) by (bit_vector);
    assert((b & !8u64) & 4 == b & 4) by (bit_vector);
    assert((b & !8u64) & 16 == b & 16) by (bit_vector);
    assert((b & !8u64) & !31u64 == b & !31u64) by (bit_vector);
}

/// Setting `GROUP` sets that flag and no other.
pub proof fn lemma_plus_group(f: ReadFormat)
    ensures
        f.plus(ReadFormat::group()).has(ReadFormat::group()),
        f.plus(ReadFormat::group()).has(ReadFormat::total_time_enabled()) == f.has(
            ReadFormat::total_time_enabled(),
        ),
        f.plus(ReadFormat::group()).has(ReadFormat::total_time_running()) == f.has(
            ReadFormat::total_time_running(),
        ),
        f.plus(ReadFormat::group()).has(ReadFormat::id()) == f.has(ReadFormat::id()),
        f.plus(ReadFormat::group()).has(ReadFormat::lost()) == f.has(ReadFormat::lost()),
        f.plus(ReadFormat::group()).is_supported() == f.is_supported(),
{
    let b = f.bits;
    assert((b | 8u64) & 8 == 8) by (bit_vector);
    assert((b | 8u64) & 1 == b & 1) by (bit_vector);
    assert((b | 8u64) & 2 == b & 2) by (bit_vector);
    assert((b | 8u64) & 4 == b & 4) by (bit_vector);
    assert((b | 8u64) & 16 == b & 16) by (bit_vector);
    assert((b | 8u64) & !31u64 == b & !31u64) by (bit_vector);
}

/// Setting and clearing `GROUP` undo each other.
pub proof fn lemma_group_undone(f: ReadFormat)
    ensures
        !f.has(ReadFormat::group()) ==> f.plus(ReadFormat::group()).minus(ReadFormat::group()) == f,
        f.has(ReadFormat::group()) ==> f.minus(ReadFormat::group()).plus(ReadFormat::group()) == f,
{
    let b = f.bits;
    assert(b & 8 != 8 ==> (b | 8u64) & !8u64 == b) by (bit_vector);
    assert(b & 8 == 8 ==> (b & !8u64) | 8u64 == b) by (bit_vector);
}

} // verus!
