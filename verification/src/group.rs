//! Groups of counters that are managed as a unit.

use vstd::prelude::*;

use crate::builder::{
    build_outcome, group_state_of, joining, state_of, Builder, Event, OpenRequest,
};
use crate::counter::{reading_step, Counter, GroupValue};
use crate::error::Error;
use crate::flags::ReadFormat;
use crate::reading::{read_fault, whole_transition, CounterState, ReadBuffer, Step};
use crate::sys::{call_outcome, group_flag, Ioctl};

verus! {

/// A group of counters that can be managed as a unit.
///
/// A `Group` represents a group of [`Counter`]s that can be enabled, disabled,
/// reset, or read as a single atomic operation. This is necessary if you want to
/// compare counter values, produce ratios, and so on, since those operations are
/// only meaningful on counters that cover exactly the same period of execution.
pub struct Group(Counter);

impl View for Group {
    type V = CounterState;

    /// The state of the counter that leads the group.
    closed spec fn view(&self) -> CounterState {
        self.0@
    }
}

/// What the kernel is asked for when a group is opened.
pub open spec fn group_request() -> OpenRequest {
    OpenRequest {
        event: Event::dummy(),
        read_format: ReadFormat::group().plus(ReadFormat::total_time_enabled()).plus(
            ReadFormat::total_time_running(),
        ).plus(ReadFormat::id()),
        cpu: None,
        group_fd: None,
    }
}

impl Group {
    /// The group that `counter` leads.
    pub(crate) fn led_by(counter: Counter) -> (group: Group)
        ensures
            group@ == counter@,
    {
        Group(counter)
    }

    /// Construct a new, empty `Group`.
    ///
    /// The resulting `Group` is only suitable for observing the current process
    /// on any CPU. If you need to build a `Group` with different settings you
    /// will need to use [`Builder::build_group`].
    pub fn new<O, I>(open: O, query_id: I) -> (group: Result<Group, Error>) where
        O: FnOnce(OpenRequest) -> i32,
        I: FnOnce(i32) -> (i32, u64),

        requires
            call_requires(open, (group_request(),)),
            forall|fd: i32|
                fd >= 0 && call_ensures(open, (group_request(),), fd) ==> call_requires(
                    query_id,
                    (fd,),
                ),
        ensures
            exists|fd: i32, code: i32, id: u64|
                {
                    &&& call_ensures(open, (group_request(),), fd)
                    &&& fd >= 0 ==> call_ensures(query_id, (fd,), (code, id))
                    &&& #[trigger] build_outcome(
                        group_request().read_format,
                        fd,
                        code,
                        id,
                        group_state_of(group),
                    )
                },
    {
        proof {
            lemma_group_request();
        }
        Self::builder().build_group(open, query_id)
    }

    /// Construct a [Builder] preconfigured for creating a `Group`.
    ///
    /// Specifically, this creates a builder with the dummy event and with the
    /// format set to `GROUP | ID | TOTAL_TIME_ENABLED | TOTAL_TIME_RUNNING`. If you
    /// override the format you will need to ensure that `GROUP` is set, otherwise
    /// [`Builder::build_group`] will return an error.
    pub fn builder() -> (builder: Builder)
        ensures
            builder@ == group_request(),
    {
        Builder::new().kind(Event::dummy()).read_format(
            ReadFormat::group() | ReadFormat::total_time_enabled() | ReadFormat::total_time_running()
                | ReadFormat::id(),
        )
    }

    /// Access the internal counter for this group.
    pub fn as_counter(&self) -> (counter: &Counter)
        ensures
            counter@ == self@,
    {
        &self.0
    }

    /// Mutably access the internal counter for this group.
    pub fn as_counter_mut(&mut self) -> (counter: &mut Counter)
        ensures
            counter@ == old(self)@,
            final(self)@ == final(counter)@,
    {
        &mut self.0
    }

    /// Convert this `Group` into its internal counter.
    pub fn into_counter(self) -> (counter: Counter)
        ensures
            counter@ == self@,
    {
        self.0
    }

    /// Return this group's kernel-assigned unique id.
    pub fn id(&self) -> (id: u64)
        ensures
            id == self@.id,
    {
        self.0.id()
    }

    /// The file descriptor of the counter that leads the group.
    pub fn as_raw_fd(&self) -> (fd: i32)
        ensures
            fd == self@.fd,
    {
        self.0.as_raw_fd()
    }

    /// The file descriptor of the counter that leads the group, which is given up.
    pub fn into_raw_fd(self) -> (fd: i32)
        ensures
            fd == self@.fd,
    {
        self.0.into_raw_fd()
    }

    /// Allow all `Counter`s in this `Group` to begin counting their designated
    /// events, as a single atomic operation.
    ///
    /// This does not affect whatever values the `Counter`s had previously; new
    /// events add to the current counts. To clear the `Counter`s, use
    /// [`Group::reset`].
    pub fn enable<F>(&mut self, call: F) -> (result: Result<(), Error>) where
        F: FnOnce(i32, Ioctl) -> i32,

        requires
            call_requires(call, (old(self)@.fd, Ioctl::Enable(group_flag()))),
        ensures
            final(self)@ == old(self)@,
            exists|code: i32|
                {
                    &&& #[trigger] call_ensures(
                        call,
                        (old(self)@.fd, Ioctl::Enable(group_flag())),
                        code,
                    )
                    &&& call_outcome(code, result)
                },
    {
        self.0.enable_group(call)
    }

    /// Make all `Counter`s in this `Group` stop counting their designated
    /// events, as a single atomic operation. Their counts are unaffected.
    pub fn disable<F>(&mut self, call: F) -> (result: Result<(), Error>) where
        F: FnOnce(i32, Ioctl) -> i32,

        requires
            call_requires(call, (old(self)@.fd, Ioctl::Disable(group_flag()))),
        ensures
            final(self)@ == old(self)@,
            exists|code: i32|
                {
                    &&& #[trigger] call_ensures(
                        call,
                        (old(self)@.fd, Ioctl::Disable(group_flag())),
                        code,
                    )
                    &&& call_outcome(code, result)
                },
    {
        self.0.disable_group(call)
    }

    /// Reset all `Counter`s in this `Group` to zero, as a single atomic operation.
    pub fn reset<F>(&mut self, call: F) -> (result: Result<(), Error>) where
        F: FnOnce(i32, Ioctl) -> i32,

        requires
            call_requires(call, (old(self)@.fd, Ioctl::Reset(group_flag()))),
        ensures
            final(self)@ == old(self)@,
            exists|code: i32|
                {
                    &&& #[trigger] call_ensures(
                        call,
                        (old(self)@.fd, Ioctl::Reset(group_flag())),
                        code,
                    )
                    &&& call_outcome(code, result)
                },
    {
        self.0.reset_group(call)
    }

    /// Construct a new counter as a part of this group.
    pub fn add<O, I>(&mut self, builder: &Builder, open: O, query_id: I) -> (counter: Result<
        Counter,
        Error,
    >) where O: FnOnce(OpenRequest) -> i32, I: FnOnce(i32) -> (i32, u64)
        requires
            old(self)@.member_count < u32::MAX,
            call_requires(open, (joining(builder@, old(self)@.fd),)),
            forall|fd: i32|
                fd >= 0 && call_ensures(open, (joining(builder@, old(self)@.fd),), fd)
                    ==> call_requires(query_id, (fd,)),
        ensures
            exists|fd: i32, code: i32, id: u64|
                {
                    &&& call_ensures(open, (joining(builder@, old(self)@.fd),), fd)
                    &&& fd >= 0 ==> call_ensures(query_id, (fd,), (code, id))
                    &&& #[trigger] build_outcome(
                        builder@.read_format,
                        fd,
                        code,
                        id,
                        state_of(counter),
                    )
                },
            match counter {
                Ok(_) => final(self)@ == (CounterState {
                    member_count: (old(self)@.member_count + 1) as u32,
                    ..old(self)@
                }),
                Err(_) => final(self)@ == old(self)@,
            },
    {
        builder.build_with_group(&mut self.0, open, query_id)
    }

    /// One step of reading the values of all the `Counter`s in this `Group`.
    ///
    /// The result maps specific `Counter`s to their values: you can find a specific
    /// `Counter`'s value by indexing. The counter that leads the group is not listed
    /// among the entries.
    pub fn read(&mut self, buffer: &mut ReadBuffer, outcome: Result<usize, Error>) -> (step: Step<
        GroupValue,
    >)
        requires
            read_fault(old(self)@, old(buffer)@, outcome) is None,
        ensures
            final(self)@ == whole_transition(old(self)@, old(buffer)@, outcome).counter,
            final(buffer)@ == whole_transition(old(self)@, old(buffer)@, outcome).buffer,
            step@ == reading_step(whole_transition(old(self)@, old(buffer)@, outcome).step, true),
    {
        match self.0.read_group(buffer, outcome) {
            Step::Done(Ok(data)) => {
                let mut data = data;
                data.skip_group();
                Step::Done(Ok(data))
            },
            step => step,
        }
    }
}

/// A group is opened in a format that asks for the group, its times and the ids of
/// its members, and not for lost samples.
pub proof fn lemma_group_request()
    ensures
        group_request().read_format.bits == 15,
        group_request().read_format.has(ReadFormat::group()),
        group_request().read_format.has(ReadFormat::total_time_enabled()),
        group_request().read_format.has(ReadFormat::total_time_running()),
        group_request().read_format.has(ReadFormat::id()),
        !group_request().read_format.has(ReadFormat::lost()),
        group_request().read_format.is_supported(),
{
    assert(8u64 | 1 | 2 | 4 == 15) by (bit_vector);
    assert(15u64 & 8 == 8 && 15u64 & 1 == 1 && 15u64 & 2 == 2 && 15u64 & 4 == 4 && 15u64 & 16 != 16
        && 15u64 & !31u64 == 0) by (bit_vector);
}

} // verus!
