//! How a counter is read.
//!
//! A read of a group may find its buffer too small, and is then to be repeated
//! with a larger one. So an operation that reads is a step: it is handed the
//! buffer and the outcome of one read into it, and either is done or asks for
//! another read.

use vstd::prelude::*;

use crate::error::Error;
use crate::flags::ReadFormat;
use crate::read::{
    counter_parse, group_parse, lone_group_model, member_model, position_of_id, CounterModel,
    GroupModel,
};
use crate::sys::no_space_code;

verus! {

/// What is to be done after a read.
pub enum Step<T> {
    /// Read again, into the buffer as it is now.
    Again,
    /// Nothing: the operation is finished.
    Done(Result<T, Error>),
}

impl<T: View> View for Step<T> {
    type V = Step<T::V>;

    open spec fn view(&self) -> Step<T::V> {
        match self {
            Step::Again => Step::Again,
            Step::Done(Ok(t)) => Step::Done(Ok(t@)),
            Step::Done(Err(e)) => Step::Done(Err(*e)),
        }
    }
}

/// What makes it impossible to go on after a read.
#[derive(Clone, Copy, Debug, PartialEq, Eq, Structural)]
pub enum Fault {
    /// The kernel has delivered part of a word.
    PartialWord,
    /// The kernel has delivered more than the buffer holds.
    PastBuffer,
    /// No buffer can be as large as the read asks for.
    BufferTooLarge,
    /// The members of the group cannot be counted in a `u32`.
    TooManyMembers,
    /// The group does not list the counter that was read.
    NoEntry,
}

impl Fault {
    /// The text of the fault.
    pub open spec fn text(self) -> Seq<char> {
        match self {
            Fault::PartialWord => "kernel returned a length that was not a multiple of 8"@,
            Fault::PastBuffer => "kernel returned a length that was larger than the buffer"@,
            Fault::BufferTooLarge => "capacity overflow"@,
            Fault::TooManyMembers => "group had more than u32::MAX elements"@,
            Fault::NoEntry => "group contained no entry for the counter"@,
        }
    }

    /// The text of the fault.
    pub fn message(&self) -> (message: &'static str)
        ensures
            message@ == self.text(),
    {
        match self {
            Fault::PartialWord => "kernel returned a length that was not a multiple of 8",
            Fault::PastBuffer => "kernel returned a length that was larger than the buffer",
            Fault::BufferTooLarge => "capacity overflow",
            Fault::TooManyMembers => "group had more than u32::MAX elements",
            Fault::NoEntry => "group contained no entry for the counter",
        }
    }
}

/// What a [`Counter`](crate::Counter) knows of the counter that the kernel keeps.
#[verifier::ext_equal]
pub struct CounterState {
    /// The file descriptor.
    pub fd: i32,
    /// The id that the kernel has assigned.
    pub id: u64,
    /// The format for reading.
    pub read_format: ReadFormat,
    /// How many members the group has that the counter leads.
    pub member_count: u32,
}

/// What a [`ReadBuffer`] holds.
#[verifier::ext_equal]
pub struct BufferModel {
    /// How many elements of a group the buffer was made for.
    pub elements: int,
    /// The words.
    pub words: Seq<u64>,
}

/// `n` words that are zero.
pub open spec fn zeros(n: int) -> Seq<u64> {
    Seq::new(n as nat, |i: int| 0u64)
}

/// The first `n` of the words, followed by zeros where there are fewer.
pub open spec fn resized(words: Seq<u64>, n: int) -> Seq<u64> {
    if n <= words.len() {
        words.take(n)
    } else {
        words + zeros(n - words.len())
    }
}

/// The number of words of a read of a group with `elements` members.
pub open spec fn group_size(f: ReadFormat, elements: int) -> int {
    f.prefix_words() + elements * f.element_words()
}

/// Whether a buffer can have so many words.
pub open spec fn fits(words: int) -> bool {
    words * 8 <= isize::MAX
}

/// The number of members that a buffer is made for at first.
pub open spec fn expected_members(c: CounterState) -> int {
    if c.member_count == 0 {
        1
    } else {
        c.member_count as int
    }
}

/// The number of words of the first buffer for reading the counter `c`.
pub open spec fn first_size(c: CounterState) -> int {
    if c.read_format.has(ReadFormat::group()) {
        group_size(c.read_format, expected_members(c))
    } else {
        ReadFormat::MAX_NON_GROUP_SIZE as int
    }
}

/// The first buffer for reading the counter `c`.
pub open spec fn first_buffer(c: CounterState) -> BufferModel {
    BufferModel {
        elements: if c.read_format.has(ReadFormat::group()) {
            expected_members(c)
        } else {
            1
        },
        words: zeros(first_size(c)),
    }
}

/// The number of words of a buffer that was made for `elements` members and
/// turned out too small.
pub open spec fn grown_size(f: ReadFormat, elements: int) -> int {
    group_size(f, 2 * elements) * 8
}

/// The buffer `b` after it turned out too small.
pub open spec fn grown(b: BufferModel, f: ReadFormat) -> BufferModel {
    BufferModel {
        elements: 2 * b.elements,
        words: resized(b.words, grown_size(f, b.elements)),
    }
}

/// The buffer `b` with the words alone that a read of `len` bytes has delivered.
pub open spec fn truncated(b: BufferModel, len: usize) -> BufferModel {
    BufferModel {
        elements: b.elements,
        words: if len as int / 8 <= b.words.len() {
            b.words.take(len as int / 8)
        } else {
            b.words
        },
    }
}

/// A counter and a buffer after a read, and what is to be done then.
#[verifier::ext_equal]
pub struct Transition<T> {
    /// The counter.
    pub counter: CounterState,
    /// The buffer.
    pub buffer: BufferModel,
    /// What is to be done.
    pub step: Step<T>,
}

/// What a read of a counter that is read alone comes to.
pub open spec fn single_result(
    c: CounterState,
    b: BufferModel,
    outcome: Result<usize, Error>,
) -> Result<CounterModel, Error> {
    match outcome {
        Err(e) => Err(e),
        Ok(len) => if len == 0 {
            Err(Error::Unscheduled)
        } else {
            match counter_parse(b.words.take(len as int / 8), c.read_format) {
                Ok(v) => Ok(v),
                Err(e) => Err(Error::Parse(e)),
            }
        },
    }
}

/// What a read of a group comes to.
pub open spec fn group_transition(
    c: CounterState,
    b: BufferModel,
    outcome: Result<usize, Error>,
) -> Transition<GroupModel> {
    match outcome {
        Err(e) => if e == Error::Os(no_space_code()) {
            Transition { counter: c, buffer: grown(b, c.read_format), step: Step::Again }
        } else {
            Transition { counter: c, buffer: b, step: Step::Done(Err(e)) }
        },
        Ok(len) => if len == 0 {
            Transition { counter: c, buffer: b, step: Step::Done(Err(Error::Unscheduled)) }
        } else {
            let kept = truncated(b, len);
            match group_parse(kept.words, c.read_format) {
                Ok(g) => Transition {
                    counter: CounterState { member_count: g.entries.len() as u32, ..c },
                    buffer: kept,
                    step: Step::Done(Ok(g)),
                },
                Err(e) => Transition {
                    counter: c,
                    buffer: kept,
                    step: Step::Done(Err(Error::Parse(e))),
                },
            }
        },
    }
}

/// What stands in the way of going on after a read of a counter alone.
pub open spec fn single_fault(b: BufferModel, outcome: Result<usize, Error>) -> Option<Fault> {
    match outcome {
        Err(_) => None,
        Ok(len) => if len % 8 != 0 {
            Some(Fault::PartialWord)
        } else if len as int / 8 > b.words.len() {
            Some(Fault::PastBuffer)
        } else {
            None
        },
    }
}

/// What stands in the way of going on after a read of a group.
pub open spec fn group_fault(
    c: CounterState,
    b: BufferModel,
    outcome: Result<usize, Error>,
) -> Option<Fault> {
    match outcome {
        Err(e) => if e == Error::Os(no_space_code()) && !fits(
            grown_size(c.read_format, b.elements),
        ) {
            Some(Fault::BufferTooLarge)
        } else {
            None
        },
        Ok(len) => match group_parse(truncated(b, len).words, c.read_format) {
            Ok(g) => if g.entries.len() > u32::MAX {
                Some(Fault::TooManyMembers)
            } else {
                None
            },
            Err(_) => None,
        },
    }
}

/// What stands in the way of going on after a read from which all values of the
/// counters in question are wanted.
pub open spec fn read_fault(
    c: CounterState,
    b: BufferModel,
    outcome: Result<usize, Error>,
) -> Option<Fault> {
    if c.read_format.has(ReadFormat::group()) {
        group_fault(c, b, outcome)
    } else {
        single_fault(b, outcome)
    }
}

/// What stands in the way of going on after a read from which the values of the
/// counter `c` are wanted.
pub open spec fn full_fault(
    c: CounterState,
    b: BufferModel,
    outcome: Result<usize, Error>,
) -> Option<Fault> {
    if read_fault(c, b, outcome) is Some {
        read_fault(c, b, outcome)
    } else if !c.read_format.has(ReadFormat::group()) {
        None
    } else {
        match group_transition(c, b, outcome).step {
            Step::Done(Ok(g)) => if position_of_id(g.entries, c.id, 0) is None {
                Some(Fault::NoEntry)
            } else {
                None
            },
            _ => None,
        }
    }
}

/// What a read comes to from which the values of the counter `c` are wanted.
pub open spec fn full_transition(
    c: CounterState,
    b: BufferModel,
    outcome: Result<usize, Error>,
) -> Transition<CounterModel> {
    if c.read_format.has(ReadFormat::group()) {
        let t = group_transition(c, b, outcome);
        Transition {
            counter: t.counter,
            buffer: t.buffer,
            step: match t.step {
                Step::Again => Step::Again,
                Step::Done(Err(e)) => Step::Done(Err(e)),
                Step::Done(Ok(g)) => Step::Done(
                    Ok(member_model(g, g.entries[position_of_id(g.entries, c.id, 0).unwrap()])),
                ),
            },
        }
    } else {
        Transition { counter: c, buffer: b, step: Step::Done(single_result(c, b, outcome)) }
    }
}

/// What a read comes to from which the values of the whole group are wanted.
pub open spec fn whole_transition(
    c: CounterState,
    b: BufferModel,
    outcome: Result<usize, Error>,
) -> Transition<GroupModel> {
    if c.read_format.has(ReadFormat::group()) {
        group_transition(c, b, outcome)
    } else {
        Transition {
            counter: c,
            buffer: b,
            step: Step::Done(
                match single_result(c, b, outcome) {
                    Ok(v) => Ok(lone_group_model(v)),
                    Err(e) => Err(e),
                },
            ),
        }
    }
}

/// The words that a counter is read into.
pub struct ReadBuffer {
    elements: usize,
    data: Vec<u64>,
}

impl View for ReadBuffer {
    type V = BufferModel;

    closed spec fn view(&self) -> BufferModel {
        BufferModel { elements: self.elements as int, words: self.data@ }
    }
}

/// `n` words that are zero.
fn zeroed(n: usize) -> (words: Vec<u64>)
    ensures
        words@ == zeros(n as int),
{
    let mut words: Vec<u64> = Vec::new();
    words.resize(n, 0u64);
    assert(words@ =~= zeros(n as int));
    words
}

/// The number of words of a read of a group with `elements` members, `scale` times
/// over, or `None` if no buffer can be so large.
pub(crate) fn size_if_fits(f: ReadFormat, elements: u128, scale: u128) -> (size: Option<usize>)
    requires
        elements <= 2 * usize::MAX,
        scale == 1 || scale == 8,
    ensures
        match size {
            Some(n) => n == group_size(f, elements as int) * scale && fits(n as int),
            None => !fits(group_size(f, elements as int) * scale),
        },
{
    let prefix_len: usize = f.prefix_len();
    let element_len: usize = f.element_len();
    assert(elements * element_len <= 2 * usize::MAX * 3) by (nonlinear_arith)
        requires
            elements <= 2 * usize::MAX,
            element_len <= 3,
    ;
    let words: u128 = (prefix_len as u128 + elements * element_len as u128) * scale;
    if words <= isize::MAX as u128 / 8 {
        Some(words as usize)
    } else {
        None
    }
}

impl ReadBuffer {
    /// A buffer for reading a counter alone.
    pub(crate) fn single() -> (buffer: Self)
        ensures
            buffer@ == (BufferModel {
                elements: 1,
                words: zeros(ReadFormat::MAX_NON_GROUP_SIZE as int),
            }),
    {
        ReadBuffer { elements: 1, data: zeroed(ReadFormat::MAX_NON_GROUP_SIZE) }
    }

    /// A buffer of `size` words, for reading a group of `elements`.
    pub(crate) fn group(elements: usize, size: usize) -> (buffer: Self)
        ensures
            buffer@ == (BufferModel { elements: elements as int, words: zeros(size as int) }),
    {
        ReadBuffer { elements, data: zeroed(size) }
    }

    /// The words.
    pub fn words(&self) -> (words: &[u64])
        ensures
            words@ == self@.words,
    {
        self.data.as_slice()
    }

    /// The words, to be read into.
    pub fn words_mut(&mut self) -> (words: &mut [u64])
        ensures
            words@ == old(self)@.words,
            final(self)@ == (BufferModel {
                elements: old(self)@.elements,
                words: final(words)@,
            }),
    {
        self.data.as_mut_slice()
    }

    /// Whether the buffer can grow.
    pub(crate) fn can_grow(&self, f: ReadFormat) -> (can: bool)
        ensures
            can == fits(grown_size(f, self@.elements)),
    {
        size_if_fits(f, self.elements as u128 * 2, 8).is_some()
    }

    /// Make the buffer larger after it turned out too small.
    pub(crate) fn grow(&mut self, f: ReadFormat)
        requires
            fits(grown_size(f, old(self)@.elements)),
        ensures
            final(self)@ == grown(old(self)@, f),
    {
        match size_if_fits(f, self.elements as u128 * 2, 8) {
            Some(size) => {
                let ghost before = self.data@;
                proof {
                    let e = self.elements as int;
                    let el = f.element_words();
                    assert(2 * e <= (2 * e) * el) by (nonlinear_arith)
                        requires
                            e >= 0,
                            el >= 1,
                    ;
                }
                self.elements = self.elements * 2;
                self.data.resize(size, 0u64);
                assert(self.data@ =~= resized(before, size as int));
            },
            None => {},
        }
    }

    /// Keep the words alone that a read of `len` bytes has delivered.
    pub(crate) fn truncate(&mut self, len: usize)
        ensures
            final(self)@ == truncated(old(self)@, len),
    {
        self.data.truncate(len / 8);
    }

    /// The words that a read of `len` bytes has delivered.
    pub(crate) fn first_words(&self, len: usize) -> (words: &[u64])
        ensures
            words@ == truncated(self@, len).words,
    {
        let words = self.data.as_slice();
        if len / 8 <= words.len() {
            let (head, _) = words.split_at(len / 8);
            head
        } else {
            words
        }
    }
}

} // verus!
