//! Counters, and what is read from them.

use std::time::Duration;

use vstd::prelude::*;

use crate::error::Error;
use crate::flags::ReadFormat;
use crate::read;
use crate::read::{position_of_id, CounterModel, EntryModel, GroupModel};
use crate::reading::{
    expected_members, first_buffer, first_size, fits, full_fault, full_transition, group_fault,
    group_transition, read_fault, single_fault, single_result, size_if_fits, whole_transition,
    CounterState, Fault, ReadBuffer, Step,
};
use crate::sys::{
    call_outcome, check_errno_syscall, enospc, group_flag, ioc_flag_group, is_system_error, Ioctl,
};
use crate::text::{
    decimal, labelled, labels, optional_decimal, optional_field, push_decimal, push_field,
    push_labelled, push_optional, push_optional_field, push_signed, signed_decimal, Field,
};
use crate::time::{optional_duration, to_duration};

verus! {

/// A counter for one kind of kernel or hardware event.
///
/// A `Counter` is the state of a counter that the kernel keeps, as far as the
/// program knows it. It makes no system call: the calls that an operation needs
/// are handed to it as functions, or are made before it and their outcome is
/// handed to it.
pub struct Counter {
    /// The file descriptor for this counter, returned by `perf_event_open`.
    fd: i32,
    /// The unique id assigned to this counter by the kernel.
    id: u64,
    /// The format info for reading counters.
    read_format: ReadFormat,
    /// If we are a group, then this is the count of how many members we have.
    member_count: u32,
}

impl View for Counter {
    type V = CounterState;

    closed spec fn view(&self) -> CounterState {
        CounterState {
            fd: self.fd,
            id: self.id,
            read_format: self.read_format,
            member_count: self.member_count,
        }
    }
}

impl Counter {
    /// The counter behind the file descriptor `fd`.
    pub fn new(fd: i32, id: u64, read_format: ReadFormat) -> (counter: Self)
        ensures
            counter@ == (CounterState { fd, id, read_format, member_count: 1 }),
    {
        Counter { fd, id, read_format, member_count: 1 }
    }

    /// The counter behind the file descriptor `fd`, with the id that `query_id`
    /// finds out: it is handed the file descriptor, and returns the code of the
    /// system call and the id.
    pub fn new_internal<F>(fd: i32, read_format: ReadFormat, query_id: F) -> (counter: Result<
        Self,
        Error,
    >) where F: FnOnce(i32) -> (i32, u64)
        requires
            call_requires(query_id, (fd,)),
        ensures
            exists|code: i32, id: u64|
                {
                    &&& #[trigger] call_ensures(query_id, (fd,), (code, id))
                    &&& match counter {
                        Ok(c) => code >= 0 && c@ == (CounterState {
                            fd,
                            id,
                            read_format,
                            member_count: 1,
                        }),
                        Err(e) => code < 0 && is_system_error(e),
                    }
                },
    {
        let mut counter = Counter { fd, id: 0, read_format, member_count: 1 };
        let (code, id) = query_id(fd);
        let answer = |_fd: i32| -> (r: i32)
            ensures
                r == code,
            { code };
        counter.ioctl(answer)?;
        counter.id = id;
        Ok(counter)
    }

    /// Whether one more member of the group that this counter leads can be counted.
    pub fn can_add_member(&self) -> (can: bool)
        ensures
            can == (self@.member_count < u32::MAX),
    {
        self.member_count < u32::MAX
    }

    /// Count one more member of the group that this counter leads.
    pub(crate) fn add_member(&mut self)
        requires
            old(self)@.member_count < u32::MAX,
        ensures
            final(self)@ == (CounterState {
                member_count: (old(self)@.member_count + 1) as u32,
                ..old(self)@
            }),
    {
        self.member_count = self.member_count + 1;
    }

    /// Return this counter's kernel-assigned unique id.
    pub fn id(&self) -> (id: u64)
        ensures
            id == self@.id,
    {
        self.id
    }

    /// The file descriptor of the counter.
    pub fn as_raw_fd(&self) -> (fd: i32)
        ensures
            fd == self@.fd,
    {
        self.fd
    }

    /// The file descriptor of the counter, which is given up.
    pub fn into_raw_fd(self) -> (fd: i32)
        ensures
            fd == self@.fd,
    {
        self.fd
    }

    /// The counter in text.
    pub fn debug_string(&self) -> (text: String)
        ensures
            text@ == "Counter { fd: "@ + signed_decimal(self@.fd as int) + ", id: "@ + decimal(
                self@.id as nat,
            ) + " }"@,
    {
        let mut text = String::new();
        text.append("Counter { fd: ");
        push_signed(&mut text, self.fd);
        text.append(", id: ");
        push_decimal(&mut text, self.id);
        text.append(" }");
        assert(Seq::<char>::empty() + "Counter { fd: "@ =~= "Counter { fd: "@);
        text
    }

    /// Helper function for doing ioctls on a counter.
    pub fn ioctl<F>(&self, ioctl: F) -> (result: Result<(), Error>) where F: FnOnce(i32) -> i32
        requires
            call_requires(ioctl, (self@.fd,)),
        ensures
            exists|code: i32|
                {
                    &&& #[trigger] call_ensures(ioctl, (self@.fd,), code)
                    &&& call_outcome(code, result)
                },
    {
        let fd: i32 = self.fd;
        let call = || -> (code: i32)
            requires
                call_requires(ioctl, (fd,)),
            ensures
                call_ensures(ioctl, (fd,), code),
            { ioctl(fd) };
        match check_errno_syscall(call) {
            Ok(_) => Ok(()),
            Err(e) => Err(e),
        }
    }

    /// Allow this `Counter` to begin counting its designated event.
    ///
    /// This does not affect whatever value the `Counter` had previously; new
    /// events add to the current count. To clear a `Counter`, use [`Counter::reset`].
    pub fn enable<F>(&mut self, call: F) -> (result: Result<(), Error>) where
        F: FnOnce(i32, Ioctl) -> i32,

        requires
            call_requires(call, (old(self)@.fd, Ioctl::Enable(0))),
        ensures
            final(self)@ == old(self)@,
            exists|code: i32|
                {
                    &&& #[trigger] call_ensures(call, (old(self)@.fd, Ioctl::Enable(0)), code)
                    &&& call_outcome(code, result)
                },
    {
        self.request(Ioctl::Enable(0), call)
    }

    /// Enable all counters in the same group as this one.
    ///
    /// This does not affect whatever value the `Counter` had previously; new
    /// events add to the current count. To clear a counter group, use
    /// [`Counter::reset_group`].
    pub fn enable_group<F>(&mut self, call: F) -> (result: Result<(), Error>) where
        F: FnOnce(i32, Ioctl) -> i32,

        requires
            call_requires(call, (old(self)@.fd, Ioctl::Enable(group_flag()))),
        ensures
            final(self)@ == old(self)@,
            exists|code: i32|
                {
                    &&& #[trigger] call_ensures(call, (old(self)@.fd, Ioctl::Enable(group_flag())), code)
                    &&& call_outcome(code, result)
                },
    {
        let group = ioc_flag_group();
        self.request(Ioctl::Enable(group), call)
    }

    /// Make this `Counter` stop counting its designated event. Its count is
    /// unaffected.
    pub fn disable<F>(&mut self, call: F) -> (result: Result<(), Error>) where
        F: FnOnce(i32, Ioctl) -> i32,

        requires
            call_requires(call, (old(self)@.fd, Ioctl::Disable(0))),
        ensures
            final(self)@ == old(self)@,
            exists|code: i32|
                {
                    &&& #[trigger] call_ensures(call, (old(self)@.fd, Ioctl::Disable(0)), code)
                    &&& call_outcome(code, result)
                },
    {
        self.request(Ioctl::Disable(0), call)
    }

    /// Disable all counters in the same group as this one.
    ///
    /// This does not affect the counter values.
    pub fn disable_group<F>(&mut self, call: F) -> (result: Result<(), Error>) where
        F: FnOnce(i32, Ioctl) -> i32,

        requires
            call_requires(call, (old(self)@.fd, Ioctl::Disable(group_flag()))),
        ensures
            final(self)@ == old(self)@,
            exists|code: i32|
                {
                    &&& #[trigger] call_ensures(call, (old(self)@.fd, Ioctl::Disable(group_flag())), code)
                    &&& call_outcome(code, result)
                },
    {
        let group = ioc_flag_group();
        self.request(Ioctl::Disable(group), call)
    }

    /// Reset the value of this `Counter` to zero.
    pub fn reset<F>(&mut self, call: F) -> (result: Result<(), Error>) where
        F: FnOnce(i32, Ioctl) -> i32,

        requires
            call_requires(call, (old(self)@.fd, Ioctl::Reset(0))),
        ensures
            final(self)@ == old(self)@,
            exists|code: i32|
                {
                    &&& #[trigger] call_ensures(call, (old(self)@.fd, Ioctl::Reset(0)), code)
                    &&& call_outcome(code, result)
                },
    {
        self.request(Ioctl::Reset(0), call)
    }

    /// Reset the value of all counters in the same group as this one to zero.
    pub fn reset_group<F>(&mut self, call: F) -> (result: Result<(), Error>) where
        F: FnOnce(i32, Ioctl) -> i32,

        requires
            call_requires(call, (old(self)@.fd, Ioctl::Reset(group_flag()))),
        ensures
            final(self)@ == old(self)@,
            exists|code: i32|
                {
                    &&& #[trigger] call_ensures(call, (old(self)@.fd, Ioctl::Reset(group_flag())), code)
                    &&& call_outcome(code, result)
                },
    {
        let group = ioc_flag_group();
        self.request(Ioctl::Reset(group), call)
    }

    /// Attach an eBPF program to this counter.
    ///
    /// This will only work if this counter was created as a kprobe tracepoint
    /// event.
    pub fn set_bpf<F>(&mut self, bpf: i32, call: F) -> (result: Result<(), Error>) where
        F: FnOnce(i32, Ioctl) -> i32,

        requires
            call_requires(call, (old(self)@.fd, Ioctl::SetBpf(bpf as u32))),
        ensures
            final(self)@ == old(self)@,
            exists|code: i32|
                {
                    &&& #[trigger] call_ensures(call, (old(self)@.fd, Ioctl::SetBpf(bpf as u32)), code)
                    &&& call_outcome(code, result)
                },
    {
        self.request(Ioctl::SetBpf(bpf as u32), call)
    }

    /// Make one request on the counter.
    fn request<F>(&self, ioctl: Ioctl, call: F) -> (result: Result<(), Error>) where
        F: FnOnce(i32, Ioctl) -> i32,

        requires
            call_requires(call, (self@.fd, ioctl)),
        ensures
            exists|code: i32|
                {
                    &&& #[trigger] call_ensures(call, (self@.fd, ioctl), code)
                    &&& call_outcome(code, result)
                },
    {
        let on_fd = |fd: i32| -> (code: i32)
            requires
                call_requires(call, (fd, ioctl)),
            ensures
                call_ensures(call, (fd, ioctl), code),
            { call(fd, ioctl) };
        self.ioctl(on_fd)
    }

    /// Whether the counter is read together with its group.
    fn is_group(&self) -> (group: bool)
        ensures
            group == self@.read_format.has(ReadFormat::group()),
    {
        self.read_format.contains(ReadFormat::group())
    }

    /// The number of members that a buffer is made for at first.
    fn elements(&self) -> (elements: usize)
        ensures
            elements == expected_members(self@),
    {
        if self.member_count == 0 {
            1
        } else {
            self.member_count as usize
        }
    }

    /// Whether a buffer for reading the counter can be had.
    pub fn can_read(&self) -> (can: bool)
        ensures
            can == fits(first_size(self@)),
    {
        if self.is_group() {
            size_if_fits(self.read_format, self.elements() as u128, 1).is_some()
        } else {
            true
        }
    }

    /// The buffer that a read of the counter begins with. It holds what the
    /// members that the counter knows of take up.
    pub fn read_buffer(&self) -> (buffer: ReadBuffer)
        requires
            fits(first_size(self@)),
        ensures
            buffer@ == first_buffer(self@),
    {
        if self.is_group() {
            let elements: usize = self.elements();
            match size_if_fits(self.read_format, elements as u128, 1) {
                Some(size) => ReadBuffer::group(elements, size),
                None => ReadBuffer::group(elements, 0),
            }
        } else {
            ReadBuffer::single()
        }
    }

    /// What stands in the way of [`Counter::read_group`] after a read with this
    /// outcome.
    pub fn read_fault(&self, buffer: &ReadBuffer, outcome: &Result<usize, Error>) -> (fault: Option<
        Fault,
    >)
        ensures
            fault == read_fault(self@, buffer@, *outcome),
    {
        if self.is_group() {
            self.group_fault(buffer, outcome)
        } else {
            match outcome {
                Err(_) => None,
                Ok(len) => {
                    if *len % 8 != 0 {
                        Some(Fault::PartialWord)
                    } else if *len / 8 > buffer.words().len() {
                        Some(Fault::PastBuffer)
                    } else {
                        None
                    }
                },
            }
        }
    }

    /// What stands in the way of [`Counter::do_read_group`] after a read with this
    /// outcome.
    pub fn group_fault(&self, buffer: &ReadBuffer, outcome: &Result<usize, Error>) -> (fault:
        Option<Fault>)
        ensures
            fault == group_fault(self@, buffer@, *outcome),
    {
        match outcome {
            Err(e) => {
                if *e == Error::Os(enospc()) && !buffer.can_grow(self.read_format) {
                    Some(Fault::BufferTooLarge)
                } else {
                    None
                }
            },
            Ok(len) => {
                match read::GroupValue::parse(buffer.first_words(*len), self.read_format) {
                    Ok(group) => {
                        if group.len() as u64 > u32::MAX as u64 {
                            Some(Fault::TooManyMembers)
                        } else {
                            None
                        }
                    },
                    Err(_) => None,
                }
            },
        }
    }

    /// What stands in the way of [`Counter::read_full`], and of the operations
    /// that rest on it, after a read with this outcome.
    pub fn full_fault(&self, buffer: &ReadBuffer, outcome: &Result<usize, Error>) -> (fault: Option<
        Fault,
    >)
        ensures
            fault == full_fault(self@, buffer@, *outcome),
    {
        match self.read_fault(buffer, outcome) {
            Some(fault) => {
                return Some(fault);
            },
            None => {},
        }
        if !self.is_group() {
            return None;
        }
        match outcome {
            Err(_) => None,
            Ok(len) => {
                if *len == 0 {
                    return None;
                }
                match read::GroupValue::parse(buffer.first_words(*len), self.read_format) {
                    Ok(group) => match group.get_by_id(self.id) {
                        Some(_) => None,
                        None => Some(Fault::NoEntry),
                    },
                    Err(_) => None,
                }
            },
        }
    }

    /// Take apart a read of this counter alone.
    pub fn do_read_single(&self, buffer: &ReadBuffer, outcome: Result<usize, Error>) -> (result:
        Result<CounterValue, Error>)
        requires
            single_fault(buffer@, outcome) is None,
        ensures
            match result {
                Ok(v) => single_result(self@, buffer@, outcome) == Ok::<_, Error>(v@),
                Err(e) => single_result(self@, buffer@, outcome) == Err::<CounterModel, _>(e),
            },
    {
        let len: usize = match outcome {
            Ok(len) => len,
            Err(e) => {
                return Err(e);
            },
        };
        if len == 0 {
            return Err(Error::Unscheduled);
        }
        let (data, _) = buffer.words().split_at(len / 8);
        assert(data@ =~= buffer@.words.take(len as int / 8));
        match read::CounterValue::parse(data, self.read_format) {
            Ok(value) => Ok(CounterValue(value)),
            Err(e) => Err(Error::Parse(e)),
        }
    }

    /// One step of reading the group of this counter.
    ///
    /// There's no way to know when new counters are added to the current group,
    /// so to make sure reads succeed the buffer is expanded whenever it was too
    /// small until the read completes.
    ///
    /// The next time around the counter knows the correct count of members, and
    /// the first buffer is large enough.
    pub fn do_read_group(
        &mut self,
        buffer: &mut ReadBuffer,
        outcome: Result<usize, Error>,
    ) -> (step: Step<read::GroupValue<'static>>)
        requires
            group_fault(old(self)@, old(buffer)@, outcome) is None,
        ensures
            final(self)@ == group_transition(old(self)@, old(buffer)@, outcome).counter,
            final(buffer)@ == group_transition(old(self)@, old(buffer)@, outcome).buffer,
            step@ == group_transition(old(self)@, old(buffer)@, outcome).step,
    {
        let len: usize = match outcome {
            Ok(len) => len,
            Err(e) => {
                if e == Error::Os(enospc()) {
                    buffer.grow(self.read_format);
                    return Step::Again;
                }
                return Step::Done(Err(e));
            },
        };
        if len == 0 {
            return Step::Done(Err(Error::Unscheduled));
        }
        buffer.truncate(len);
        match read::GroupValue::parse(buffer.words(), self.read_format) {
            Ok(group) => {
                self.member_count = group.len() as u32;
                Step::Done(Ok(group.into_owned()))
            },
            Err(e) => Step::Done(Err(Error::Parse(e))),
        }
    }

    /// One step of reading all data that this `Counter` is configured to provide.
    ///
    /// If the counter is read with its group, then the entire group is read but
    /// only the data for this specific counter is returned.
    ///
    /// # Errors
    /// - The code of the error is `ENOSPC` if the format of the counter does not match
    ///   the data that was read, or if it holds flags that this library does not support.
    /// - If the kernel was unable to schedule the counter or its group, the error is of
    ///   the kind [`UnexpectedEof`](crate::ErrorKind::UnexpectedEof).
    ///
    /// Any other failure of the read is passed on (e.g. `EBADF` if the file descriptor is
    /// closed).
    pub fn read_full(&mut self, buffer: &mut ReadBuffer, outcome: Result<usize, Error>) -> (step:
        Step<CounterValue>)
        requires
            full_fault(old(self)@, old(buffer)@, outcome) is None,
        ensures
            final(self)@ == full_transition(old(self)@, old(buffer)@, outcome).counter,
            final(buffer)@ == full_transition(old(self)@, old(buffer)@, outcome).buffer,
            step@ == full_transition(old(self)@, old(buffer)@, outcome).step,
    {
        if !self.is_group() {
            return Step::Done(self.do_read_single(buffer, outcome));
        }
        match self.do_read_group(buffer, outcome) {
            Step::Again => Step::Again,
            Step::Done(Err(e)) => Step::Done(Err(e)),
            Step::Done(Ok(group)) => {
                let entry = group.get_by_id(self.id).unwrap();
                let value = read::CounterValue::from_group_and_entry(&group, &entry);
                Step::Done(Ok(CounterValue(value)))
            },
        }
    }

    /// One step of reading this `Counter`'s current value as a `u64`.
    ///
    /// Consider using [`Counter::read_full`] or (if the format has the required
    /// flags) [`Counter::read_count_and_time`] instead. There are limitations
    /// around how many hardware counters can be on a single CPU at a time. If more
    /// counters are requested than the hardware can support then the kernel will
    /// timeshare them on the hardware. Looking at just the counter value gives you
    /// no indication that this has happened.
    ///
    /// # Errors
    /// - The code of the error is `ENOSPC` if the format of the counter does not match
    ///   the data that was read, or if it holds flags that this library does not support.
    /// - If the kernel was unable to schedule the counter or its group, the error is of
    ///   the kind [`UnexpectedEof`](crate::ErrorKind::UnexpectedEof).
    ///
    /// Any other failure of the read is passed on (e.g. `EBADF` if the file descriptor is
    /// closed).
    pub fn read(&mut self, buffer: &mut ReadBuffer, outcome: Result<usize, Error>) -> (step: Step<
        u64,
    >)
        requires
            full_fault(old(self)@, old(buffer)@, outcome) is None,
        ensures
            final(self)@ == full_transition(old(self)@, old(buffer)@, outcome).counter,
            final(buffer)@ == full_transition(old(self)@, old(buffer)@, outcome).buffer,
            step == value_step(full_transition(old(self)@, old(buffer)@, outcome).step),
    {
        match self.read_full(buffer, outcome) {
            Step::Again => Step::Again,
            Step::Done(Err(e)) => Step::Done(Err(e)),
            Step::Done(Ok(data)) => Step::Done(Ok(data.value())),
        }
    }

    /// One step of reading this `Counter`'s current value and timesharing data.
    ///
    /// The `time_enabled` and `time_running` fields indicate how long you had
    /// enabled the counter, and how long the counter was actually scheduled on the
    /// processor. This lets you detect whether the counter was timeshared, and
    /// adjust your use accordingly. Times are reported in nanoseconds.
    ///
    /// This fails if the format of the counter does not ask for both times.
    pub fn read_count_and_time(
        &mut self,
        buffer: &mut ReadBuffer,
        outcome: Result<usize, Error>,
    ) -> (step: Step<CountAndTime>)
        requires
            full_fault(old(self)@, old(buffer)@, outcome) is None,
        ensures
            final(self)@ == full_transition(old(self)@, old(buffer)@, outcome).counter,
            final(buffer)@ == full_transition(old(self)@, old(buffer)@, outcome).buffer,
            step == count_and_time_step(full_transition(old(self)@, old(buffer)@, outcome).step),
    {
        match self.read_full(buffer, outcome) {
            Step::Again => Step::Again,
            Step::Done(Err(e)) => Step::Done(Err(e)),
            Step::Done(Ok(data)) => Step::Done(CountAndTime::from_value(&data)),
        }
    }

    /// One step of reading the values of all the counters in the current group.
    ///
    /// Note that unless the counter is read with its group this will only read the
    /// data for the current `Counter`.
    ///
    /// # Errors
    /// - The code of the error is `ENOSPC` if the format of the counter does not match
    ///   the data that was read, or if it holds flags that this library does not support.
    /// - If the kernel was unable to schedule the counter or its group, the error is of
    ///   the kind [`UnexpectedEof`](crate::ErrorKind::UnexpectedEof).
    ///
    /// Any other failure of the read is passed on (e.g. `EBADF` if the file descriptor is
    /// closed).
    pub fn read_group(&mut self, buffer: &mut ReadBuffer, outcome: Result<usize, Error>) -> (step:
        Step<GroupValue>)
        requires
            read_fault(old(self)@, old(buffer)@, outcome) is None,
        ensures
            final(self)@ == whole_transition(old(self)@, old(buffer)@, outcome).counter,
            final(buffer)@ == whole_transition(old(self)@, old(buffer)@, outcome).buffer,
            step@ == reading_step(
                whole_transition(old(self)@, old(buffer)@, outcome).step,
                false,
            ),
    {
        if self.is_group() {
            match self.do_read_group(buffer, outcome) {
                Step::Again => Step::Again,
                Step::Done(Err(e)) => Step::Done(Err(e)),
                Step::Done(Ok(group)) => Step::Done(Ok(GroupValue::new(group))),
            }
        } else {
            match self.do_read_single(buffer, outcome) {
                Ok(value) => Step::Done(Ok(GroupValue::new(read::GroupValue::from(value.0)))),
                Err(e) => Step::Done(Err(e)),
            }
        }
    }
}

/// What is to be done where only the count is wanted.
pub open spec fn value_step(step: Step<CounterModel>) -> Step<u64> {
    match step {
        Step::Again => Step::Again,
        Step::Done(Err(e)) => Step::Done(Err(e)),
        Step::Done(Ok(v)) => Step::Done(Ok(v.value)),
    }
}

/// The count and the times of a value, if it has both times.
pub open spec fn count_and_time(v: CounterModel) -> Result<CountAndTime, Error> {
    match (v.time_enabled, v.time_running) {
        (None, _) => Err(Error::NoTimeEnabled),
        (Some(_), None) => Err(Error::NoTimeRunning),
        (Some(time_enabled), Some(time_running)) => Ok(
            CountAndTime { count: v.value, time_enabled, time_running },
        ),
    }
}

/// What is to be done where the count and the times are wanted.
pub open spec fn count_and_time_step(step: Step<CounterModel>) -> Step<CountAndTime> {
    match step {
        Step::Again => Step::Again,
        Step::Done(Err(e)) => Step::Done(Err(e)),
        Step::Done(Ok(v)) => Step::Done(count_and_time(v)),
    }
}

/// What is to be done where the members of a group are wanted, with or without
/// the first.
pub open spec fn reading_step(step: Step<GroupModel>, skip_first: bool) -> Step<GroupReading> {
    match step {
        Step::Again => Step::Again,
        Step::Done(Err(e)) => Step::Done(Err(e)),
        Step::Done(Ok(group)) => Step::Done(Ok(GroupReading { group, skip_first })),
    }
}

/// The data retrieved by reading from a [`Counter`].
pub struct CounterValue(read::CounterValue);

impl View for CounterValue {
    type V = CounterModel;

    closed spec fn view(&self) -> CounterModel {
        self.0@
    }
}

impl Clone for CounterValue {
    fn clone(&self) -> (value: Self)
        ensures
            value == *self,
    {
        CounterValue(self.0.clone())
    }
}

impl CounterValue {
    /// The counter value.
    ///
    /// The meaning of this field depends on how the counter was configured when
    /// it was built.
    pub fn value(&self) -> (value: u64)
        ensures
            value == self@.value,
    {
        self.0.value()
    }

    /// How long this counter was enabled by the program.
    ///
    /// This will be present if the format of the counter asks for it.
    pub fn time_enabled(&self) -> (time: Option<Duration>)
        ensures
            time == optional_duration(self@.time_enabled),
    {
        to_duration(self.0.time_enabled())
    }

    /// How long the kernel actually ran this counter.
    ///
    /// If `time_enabled == time_running` then the counter ran for the entire
    /// period it was enabled, without interruption. Otherwise, the counter
    /// shared the underlying hardware with others and you should adjust its
    /// value accordingly.
    ///
    /// This will be present if the format of the counter asks for it.
    pub fn time_running(&self) -> (time: Option<Duration>)
        ensures
            time == optional_duration(self@.time_running),
    {
        to_duration(self.0.time_running())
    }

    /// The number of lost samples of this event.
    ///
    /// This will be present if the format of the counter asks for it.
    pub fn lost(&self) -> (lost: Option<u64>)
        ensures
            lost == self@.lost,
    {
        self.0.lost()
    }

    /// What diagnostic output shows of the data.
    pub fn fields(&self) -> (fields: Vec<(&'static str, Field)>)
        ensures
            labels(fields@) == seq![("value"@, Field::Number(self@.value))] + optional_field(
                "time_enabled"@,
                self@.time_enabled,
            ) + optional_field("time_running"@, self@.time_running) + seq![
                ("id"@, Field::Optional(self@.id)),
                ("lost"@, Field::Optional(self@.lost)),
            ],
    {
        let mut fields: Vec<(&'static str, Field)> = Vec::new();
        push_field(&mut fields, "value", Field::Number(self.0.value()));
        push_optional_field(&mut fields, "time_enabled", self.0.time_enabled());
        push_optional_field(&mut fields, "time_running", self.0.time_running());
        push_field(&mut fields, "id", Field::Optional(self.0.id()));
        push_field(&mut fields, "lost", Field::Optional(self.0.lost()));
        fields
    }

    /// The data in text.
    pub fn debug_string(&self) -> (text: String)
        ensures
            text@ == "CounterValue { value: "@ + decimal(self@.value as nat) + labelled(
                ", time_enabled: "@,
                self@.time_enabled,
            ) + labelled(", time_running: "@, self@.time_running) + ", id: "@ + optional_decimal(
                self@.id,
            ) + ", lost: "@ + optional_decimal(self@.lost) + ", .. }"@,
    {
        let mut text = String::new();
        text.append("CounterValue { value: ");
        push_decimal(&mut text, self.0.value());
        push_labelled(&mut text, ", time_enabled: ", self.0.time_enabled());
        push_labelled(&mut text, ", time_running: ", self.0.time_running());
        text.append(", id: ");
        push_optional(&mut text, self.0.id());
        text.append(", lost: ");
        push_optional(&mut text, self.0.lost());
        text.append(", .. }");
        assert(Seq::<char>::empty() + "CounterValue { value: "@ =~= "CounterValue { value: "@);
        text
    }
}

/// The value of a counter, along with timesharing data.
///
/// Some counters are implemented in hardware, and the processor can run only a
/// fixed number of them at a time. If more counters are requested than the
/// hardware can support, the kernel timeshares them on the hardware.
///
/// This struct holds the value of a counter, together with the time it was
/// enabled, and the proportion of that for which it was actually running.
pub struct CountAndTime {
    /// The counter value.
    pub count: u64,
    /// How long this counter was enabled by the program, in nanoseconds.
    pub time_enabled: u64,
    /// How long the kernel actually ran this counter, in nanoseconds.
    ///
    /// If `time_enabled == time_running`, then the counter ran for the entire
    /// period it was enabled, without interruption. Otherwise, the counter
    /// shared the underlying hardware with others, and you should prorate its
    /// value accordingly.
    pub time_running: u64,
}

impl CountAndTime {
    /// The count and the times of a value.
    pub fn from_value(data: &CounterValue) -> (result: Result<Self, Error>)
        ensures
            result == count_and_time(data@),
    {
        let time_enabled: u64 = match data.time_enabled() {
            Some(time) => time.as_nanos() as u64,
            None => {
                return Err(Error::NoTimeEnabled);
            },
        };
        let time_running: u64 = match data.time_running() {
            Some(time) => time.as_nanos() as u64,
            None => {
                return Err(Error::NoTimeRunning);
            },
        };
        Ok(CountAndTime { count: data.value(), time_enabled, time_running })
    }
}

/// The values of a group, and whether the first member is the group itself.
#[verifier::ext_equal]
pub struct GroupReading {
    /// The values.
    pub group: GroupModel,
    /// Whether the first member is passed over when the members are listed.
    pub skip_first: bool,
}

impl GroupReading {
    /// The members that are listed.
    pub open spec fn listed(self) -> Seq<EntryModel> {
        if self.skip_first && self.group.entries.len() > 0 {
            self.group.entries.skip(1)
        } else {
            self.group.entries
        }
    }
}

/// The data retrieved by reading from a group of counters.
pub struct GroupValue {
    data: read::GroupValue<'static>,
    skip_first: bool,
}

impl View for GroupValue {
    type V = GroupReading;

    closed spec fn view(&self) -> GroupReading {
        GroupReading { group: self.data@, skip_first: self.skip_first }
    }
}

impl Clone for GroupValue {
    fn clone(&self) -> (group: Self)
        ensures
            group@ == self@,
    {
        GroupValue { data: self.data.clone(), skip_first: self.skip_first }
    }
}

impl GroupValue {
    /// The values of a group, all of them to be listed.
    pub fn new(data: read::GroupValue<'static>) -> (group: Self)
        ensures
            group@ == (GroupReading { group: data@, skip_first: false }),
    {
        GroupValue { data, skip_first: false }
    }

    /// Return the number of counters this `GroupValue` holds results for.
    pub fn len(&self) -> (len: usize)
        ensures
            len == self@.listed().len(),
    {
        self.iter().len()
    }

    /// Whether this `GroupValue` is empty.
    pub fn is_empty(&self) -> (empty: bool)
        ensures
            empty == (self@.listed().len() == 0),
    {
        self.len() == 0
    }

    /// The duration for which the group was enabled.
    ///
    /// This will only be present if the format of the group asks for it.
    pub fn time_enabled(&self) -> (time: Option<Duration>)
        ensures
            time == optional_duration(self@.group.time_enabled),
    {
        to_duration(self.data.time_enabled())
    }

    /// The duration for which the group was scheduled on the CPU.
    ///
    /// This will only be present if the format of the group asks for it.
    pub fn time_running(&self) -> (time: Option<Duration>)
        ensures
            time == optional_duration(self@.group.time_running),
    {
        to_duration(self.data.time_running())
    }

    /// Get the entry for `member` in `self`, or `None` if `member` is not
    /// present.
    ///
    /// If you know the counter is in the group then you can access the count
    /// via indexing.
    pub fn get(&self, member: &Counter) -> (entry: Option<GroupEntry>)
        ensures
            match entry {
                Some(e) => position_of_id(self@.group.entries, member@.id, 0) matches Some(i) && 0
                    <= i < self@.group.entries.len() && e@ == self@.group.entries[i],
                None => position_of_id(self@.group.entries, member@.id, 0) is None,
            },
    {
        match self.data.get_by_id(member.id()) {
            Some(entry) => Some(GroupEntry(entry)),
            None => None,
        }
    }

    /// Return an iterator over all entries in `self`.
    ///
    /// If this `GroupValue` was returned by reading from a
    /// [`Group`](crate::Group) then the iterator will skip the group counter
    /// itself. Normally this is what you want since the group is usually a dummy
    /// counter. This does not apply if this `GroupValue` was returned from a
    /// [`Counter::read_group`] call on a [`Counter`].
    pub fn iter(&self) -> (iter: GroupIter<'_>)
        ensures
            iter@ == self@.listed(),
    {
        let mut iter = self.iter_with_group();
        if self.skip_first {
            let _ = iter.next();
        }
        iter
    }

    /// An iterator over all entries, the group counter itself among them.
    fn iter_with_group(&self) -> (iter: GroupIter<'_>)
        ensures
            iter@ == self@.group.entries,
    {
        GroupIter(self.data.into_iter())
    }

    /// Whether every entry that is listed has an id.
    pub fn has_ids(&self) -> (has: bool)
        ensures
            has == all_have_ids(self@.listed()),
    {
        let mut iter = self.iter();
        let ghost listed = self@.listed();
        let mut i: usize = 0;
        let count: usize = self.len();
        while i < count
            invariant
                i <= count,
                listed == self@.listed(),
                count == listed.len(),
                iter@ == listed.skip(i as int),
                forall|j: int| 0 <= j < i ==> (#[trigger] listed[j]).id is Some,
            decreases count - i,
        {
            assert(iter@[0] == listed[i as int]);
            match iter.next() {
                Some(entry) => {
                    if entry.checked_id().is_none() {
                        return false;
                    }
                },
                None => {},
            }
            assert(iter@ =~= listed.skip(i + 1));
            i = i + 1;
        }
        true
    }

    /// What diagnostic output shows of the group before the entries that are listed.
    pub fn fields(&self) -> (fields: Vec<(&'static str, Field)>)
        ensures
            labels(fields@) == optional_field("time_enabled"@, self@.group.time_enabled)
                + optional_field("time_running"@, self@.group.time_running),
    {
        let mut fields: Vec<(&'static str, Field)> = Vec::new();
        push_optional_field(&mut fields, "time_enabled", self.data.time_enabled());
        push_optional_field(&mut fields, "time_running", self.data.time_running());
        fields
    }

    /// The group in text, with the entries that are listed.
    pub fn debug_string(&self) -> (text: String)
        requires
            all_have_ids(self@.listed()),
        ensures
            text@ == group_text(self@),
    {
        let mut text = String::new();
        text.append("GroupData { ");
        if let Some(time_enabled) = self.data.time_enabled() {
            text.append("time_enabled: ");
            push_decimal(&mut text, time_enabled);
            text.append(", ");
        }
        if let Some(time_running) = self.data.time_running() {
            text.append("time_running: ");
            push_decimal(&mut text, time_running);
            text.append(", ");
        }
        text.append("entries: [");
        let ghost head = text@;
        let ghost listed = self@.listed();
        let mut iter = self.iter();
        let mut i: usize = 0;
        let count: usize = self.len();
        while i < count
            invariant
                i <= count,
                listed == self@.listed(),
                all_have_ids(listed),
                count == listed.len(),
                iter@ == listed.skip(i as int),
                text@ == head + entries_text(listed.take(i as int)),
            decreases count - i,
        {
            if i > 0 {
                text.append(", ");
            }
            assert(iter@[0] == listed[i as int]);
            match iter.next() {
                Some(entry) => {
                    entry.push_text(&mut text);
                },
                None => {},
            }
            proof {
                let part = listed.take(i + 1);
                assert(part.drop_last() =~= listed.take(i as int));
                assert(part.last() == listed[i as int]);
                assert(iter@ =~= listed.skip(i + 1));
                assert(text@ =~= head + entries_text(part));
            }
            i = i + 1;
        }
        text.append("] }");
        assert(listed.take(count as int) =~= listed);
        assert(text@ =~= group_text(self@));
        text
    }

    /// Mark that the first counter in this group is a group and should not be
    /// included when iterating over this `GroupValue`.
    pub fn skip_group(&mut self)
        ensures
            final(self)@ == (GroupReading { group: old(self)@.group, skip_first: true }),
    {
        self.skip_first = true;
    }
}

impl<'c> std::ops::Index<&'c Counter> for GroupValue {
    type Output = u64;

    /// The count of the counter, which must be a member of the group.
    fn index(&self, ctr: &'c Counter) -> (value: &u64)
        ensures
            *value == self@.group.entries[position_of_id(
                self@.group.entries,
                ctr@.id,
                0,
            ).unwrap()].value,
    {
        self.data.get_value_by_id(ctr.id()).unwrap()
    }
}

impl<'c> vstd::std_specs::core::IndexSpecImpl<&'c Counter> for GroupValue {
    open spec fn index_req(&self, ctr: &&'c Counter) -> bool {
        position_of_id(self@.group.entries, ctr@.id, 0) is Some
    }
}

/// Individual entry for a counter returned by reading a group.
#[derive(Clone, Copy)]
pub struct GroupEntry(read::GroupEntry);

impl View for GroupEntry {
    type V = EntryModel;

    closed spec fn view(&self) -> EntryModel {
        self.0@
    }
}

impl GroupEntry {
    /// The value of the counter.
    pub fn value(&self) -> (value: u64)
        ensures
            value == self@.value,
    {
        self.0.value()
    }

    /// The kernel-assigned unique id of the counter that was read.
    pub fn id(&self) -> (id: u64)
        requires
            self@.id is Some,
        ensures
            self@.id == Some(id),
    {
        self.0.id().unwrap()
    }

    /// The number of lost samples for this event.
    pub fn lost(&self) -> (lost: Option<u64>)
        ensures
            lost == self@.lost,
    {
        self.0.lost()
    }

    /// The kernel-assigned unique id of the counter that was read, or `None` if the
    /// group was read without ids.
    pub fn checked_id(&self) -> (id: Option<u64>)
        ensures
            id == self@.id,
    {
        self.0.id()
    }

    /// What diagnostic output shows of the entry.
    pub fn fields(&self) -> (fields: Vec<(&'static str, Field)>)
        requires
            self@.id is Some,
        ensures
            labels(fields@) == seq![
                ("value"@, Field::Number(self@.value)),
                ("id"@, Field::Number(self@.id.unwrap())),
            ] + optional_field("lost"@, self@.lost),
    {
        let mut fields: Vec<(&'static str, Field)> = Vec::new();
        push_field(&mut fields, "value", Field::Number(self.value()));
        push_field(&mut fields, "id", Field::Number(self.id()));
        push_optional_field(&mut fields, "lost", self.lost());
        fields
    }

    /// Add the entry in text.
    fn push_text(&self, text: &mut String)
        requires
            self@.id is Some,
        ensures
            final(text)@ == old(text)@ + entry_text(self@),
    {
        text.append("GroupEntry { value: ");
        push_decimal(text, self.value());
        text.append(", id: ");
        push_decimal(text, self.id());
        push_labelled(text, ", lost: ", self.lost());
        text.append(", .. }");
        assert(text@ =~= old(text)@ + entry_text(self@));
    }

    /// The entry in text.
    pub fn debug_string(&self) -> (text: String)
        requires
            self@.id is Some,
        ensures
            text@ == entry_text(self@),
    {
        let mut text = String::new();
        self.push_text(&mut text);
        assert(text@ =~= entry_text(self@));
        text
    }
}

/// An entry in text.
pub open spec fn entry_text(entry: EntryModel) -> Seq<char> {
    "GroupEntry { value: "@ + decimal(entry.value as nat) + ", id: "@ + decimal(
        entry.id.unwrap() as nat,
    ) + labelled(", lost: "@, entry.lost) + ", .. }"@
}

/// Entries in text, separated by commas.
pub open spec fn entries_text(entries: Seq<EntryModel>) -> Seq<char>
    decreases entries.len(),
{
    if entries.len() == 0 {
        seq![]
    } else if entries.len() == 1 {
        entry_text(entries[0])
    } else {
        entries_text(entries.drop_last()) + ", "@ + entry_text(entries.last())
    }
}

/// Whether every entry has an id.
pub open spec fn all_have_ids(entries: Seq<EntryModel>) -> bool {
    forall|i: int| 0 <= i < entries.len() ==> (#[trigger] entries[i]).id is Some
}

/// A group in text.
pub open spec fn group_text(reading: GroupReading) -> Seq<char> {
    "GroupData { "@ + (match reading.group.time_enabled {
        Some(n) => "time_enabled: "@ + decimal(n as nat) + ", "@,
        None => seq![],
    }) + (match reading.group.time_running {
        Some(n) => "time_running: "@ + decimal(n as nat) + ", "@,
        None => seq![],
    }) + "entries: ["@ + entries_text(reading.listed()) + "] }"@
}

/// Iterator over the entries contained within [`GroupValue`].
pub struct GroupIter<'a>(read::GroupIter<'a>);

impl<'a> View for GroupIter<'a> {
    type V = Seq<EntryModel>;

    /// The entries that are still to come.
    closed spec fn view(&self) -> Seq<EntryModel> {
        self.0@
    }
}

impl<'a> Clone for GroupIter<'a> {
    fn clone(&self) -> (iter: Self)
        ensures
            iter == *self,
    {
        GroupIter(self.0.clone())
    }
}

/// The entry, if there is one, as an entry for callers.
fn public_entry(entry: Option<read::GroupEntry>) -> (public: Option<GroupEntry>)
    ensures
        match (entry, public) {
            (Some(e), Some(p)) => p@ == e@,
            (None, None) => true,
            _ => false,
        },
{
    match entry {
        Some(e) => Some(GroupEntry(e)),
        None => None,
    }
}

impl<'a> GroupIter<'a> {
    /// The next entry from the front.
    pub fn next(&mut self) -> (entry: Option<GroupEntry>)
        ensures
            match entry {
                Some(e) => {
                    &&& old(self)@.len() > 0
                    &&& e@ == old(self)@[0]
                    &&& final(self)@ == old(self)@.skip(1)
                },
                None => old(self)@.len() == 0 && final(self)@ == old(self)@,
            },
    {
        public_entry(self.0.next())
    }

    /// The number of entries that are still to come, as lower and upper bound.
    pub fn size_hint(&self) -> (hint: (usize, Option<usize>))
        ensures
            hint.0 == self@.len(),
            hint.1 == Some(hint.0),
    {
        self.0.size_hint()
    }

    /// The number of entries that are still to come.
    pub fn count(self) -> (count: usize)
        ensures
            count == self@.len(),
    {
        self.0.count()
    }

    /// The entry after the next `n` from the front. All entries up to it, or all
    /// that there are, are passed by.
    pub fn nth(&mut self, n: usize) -> (entry: Option<GroupEntry>)
        ensures
            match entry {
                Some(e) => {
                    &&& n < old(self)@.len()
                    &&& e@ == old(self)@[n as int]
                    &&& final(self)@ == old(self)@.skip(n + 1)
                },
                None => n >= old(self)@.len() && final(self)@.len() == 0,
            },
    {
        public_entry(self.0.nth(n))
    }

    /// The last of the entries that are still to come.
    pub fn last(self) -> (entry: Option<GroupEntry>)
        ensures
            match entry {
                Some(e) => self@.len() > 0 && e@ == self@.last(),
                None => self@.len() == 0,
            },
    {
        let mut iter = self;
        iter.next_back()
    }

    /// The next entry from the back.
    pub fn next_back(&mut self) -> (entry: Option<GroupEntry>)
        ensures
            match entry {
                Some(e) => {
                    &&& old(self)@.len() > 0
                    &&& e@ == old(self)@.last()
                    &&& final(self)@ == old(self)@.drop_last()
                },
                None => old(self)@.len() == 0 && final(self)@ == old(self)@,
            },
    {
        public_entry(self.0.next_back())
    }

    /// The entry before the next `n` from the back. All entries down to it, or all
    /// that there are, are passed by.
    pub fn nth_back(&mut self, n: usize) -> (entry: Option<GroupEntry>)
        ensures
            match entry {
                Some(e) => {
                    &&& n < old(self)@.len()
                    &&& e@ == old(self)@[old(self)@.len() - 1 - n]
                    &&& final(self)@ == old(self)@.take(old(self)@.len() - 1 - n)
                },
                None => n >= old(self)@.len() && final(self)@.len() == 0,
            },
    {
        public_entry(self.0.nth_back(n))
    }

    /// The number of entries that are still to come.
    pub fn len(&self) -> (len: usize)
        ensures
            len == self@.len(),
    {
        self.0.len()
    }
}

} // verus!
