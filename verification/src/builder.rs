//! How a counter comes into being.

use vstd::prelude::*;

use crate::counter::Counter;
use crate::error::Error;
use crate::flags::ReadFormat;
use crate::group::Group;
use crate::reading::CounterState;
use crate::sys::{check_errno_syscall, is_system_error};

verus! {

/// An event that can be counted, as `perf_event_open` names it.
#[derive(Clone, Copy, Debug, PartialEq, Eq, Structural)]
pub struct Event {
    /// The sort of event.
    pub kind: u32,
    /// The event among those of its sort.
    pub config: u64,
}

impl Event {
    /// Instructions retired, counted by the processor.
    #[verifier::allow_in_spec]
    pub fn instructions() -> Event
        returns
            (Event { kind: 0, config: 1 }),
    {
        Event { kind: 0, config: 1 }
    }

    /// The clock of the processor, counted by the kernel.
    #[verifier::allow_in_spec]
    pub fn cpu_clock() -> Event
        returns
            (Event { kind: 1, config: 0 }),
    {
        Event { kind: 1, config: 0 }
    }

    /// An event of the kernel that never occurs.
    #[verifier::allow_in_spec]
    pub fn dummy() -> Event
        returns
            (Event { kind: 1, config: 9 }),
    {
        Event { kind: 1, config: 9 }
    }
}

/// What the kernel is asked for when a counter for the current process is opened.
#[derive(Clone, Copy, Debug, PartialEq, Eq)]
pub struct OpenRequest {
    /// The event to be counted.
    pub event: Event,
    /// The format for reading the counter.
    pub read_format: ReadFormat,
    /// The one processor to be observed, or `None` for any.
    pub cpu: Option<usize>,
    /// The file descriptor of the leader of the group that the counter joins.
    pub group_fd: Option<i32>,
}

/// The arguments for opening a counter.
pub struct Builder {
    event: Event,
    read_format: ReadFormat,
    cpu: Option<usize>,
}

impl View for Builder {
    type V = OpenRequest;

    /// What the kernel is asked for when a counter is opened that joins no group.
    closed spec fn view(&self) -> OpenRequest {
        OpenRequest {
            event: self.event,
            read_format: self.read_format,
            cpu: self.cpu,
            group_fd: None,
        }
    }
}

/// What the kernel is asked for unless the builder is told otherwise.
pub open spec fn default_request() -> OpenRequest {
    OpenRequest {
        event: Event::instructions(),
        read_format: ReadFormat::total_time_enabled().plus(ReadFormat::total_time_running()),
        cpu: None,
        group_fd: None,
    }
}

/// What is asked for by `request` when the counter joins the group led by `fd`.
pub open spec fn joining(request: OpenRequest, fd: i32) -> OpenRequest {
    OpenRequest { group_fd: Some(fd), ..request }
}

/// What comes of opening a counter, where the call that opens it returned `fd` and
/// `code` and `id` are what the call that finds out its id came to. That call is
/// made only if the first has not failed.
pub open spec fn build_outcome(
    read_format: ReadFormat,
    fd: i32,
    code: i32,
    id: u64,
    result: Result<CounterState, Error>,
) -> bool {
    match result {
        Ok(state) => {
            &&& fd >= 0
            &&& code >= 0
            &&& state == (CounterState { fd, id, read_format, member_count: 1 })
        },
        Err(e) => is_system_error(e) && (fd < 0 || code < 0),
    }
}

/// The state of a counter, if there is one.
pub open spec fn state_of(counter: Result<Counter, Error>) -> Result<CounterState, Error> {
    match counter {
        Ok(c) => Ok(c@),
        Err(e) => Err(e),
    }
}

/// The state of a group, if there is one.
pub open spec fn group_state_of(group: Result<Group, Error>) -> Result<CounterState, Error> {
    match group {
        Ok(g) => Ok(g@),
        Err(e) => Err(e),
    }
}

impl Builder {
    /// The arguments for a counter of the instructions retired in the current
    /// process, on any processor, that is read with its times.
    pub fn new() -> (builder: Self)
        ensures
            builder@ == default_request(),
    {
        Builder {
            event: Event::instructions(),
            read_format: ReadFormat::total_time_enabled() | ReadFormat::total_time_running(),
            cpu: None,
        }
    }

    /// Count this event.
    pub fn kind(self, event: Event) -> (builder: Self)
        ensures
            builder@ == (OpenRequest { event, ..self@ }),
    {
        Builder { event, read_format: self.read_format, cpu: self.cpu }
    }

    /// Observe only the given processor.
    pub fn one_cpu(self, cpu: usize) -> (builder: Self)
        ensures
            builder@ == (OpenRequest { cpu: Some(cpu), ..self@ }),
    {
        Builder { event: self.event, read_format: self.read_format, cpu: Some(cpu) }
    }

    /// Read the counter in this format.
    pub fn read_format(self, read_format: ReadFormat) -> (builder: Self)
        ensures
            builder@ == (OpenRequest { read_format, ..self@ }),
    {
        Builder { event: self.event, read_format, cpu: self.cpu }
    }

    /// Open a counter that joins the group given, if any.
    fn open<O, I>(&self, group_fd: Option<i32>, open: O, query_id: I) -> (counter: Result<
        Counter,
        Error,
    >) where O: FnOnce(OpenRequest) -> i32, I: FnOnce(i32) -> (i32, u64)
        requires
            call_requires(open, (OpenRequest { group_fd, ..self@ },)),
            forall|fd: i32|
                fd >= 0 && call_ensures(open, (OpenRequest { group_fd, ..self@ },), fd)
                    ==> call_requires(query_id, (fd,)),
        ensures
            exists|fd: i32, code: i32, id: u64|
                {
                    &&& call_ensures(open, (OpenRequest { group_fd, ..self@ },), fd)
                    &&& fd >= 0 ==> call_ensures(query_id, (fd,), (code, id))
                    &&& #[trigger] build_outcome(
                        self@.read_format,
                        fd,
                        code,
                        id,
                        state_of(counter),
                    )
                },
    {
        let request = OpenRequest {
            event: self.event,
            read_format: self.read_format,
            cpu: self.cpu,
            group_fd,
        };
        let call = || -> (fd: i32)
            requires
                call_requires(open, (request,)),
            ensures
                call_ensures(open, (request,), fd),
            { open(request) };
        match check_errno_syscall(call) {
            Ok(fd) => {
                let counter = Counter::new_internal(fd, self.read_format, query_id);
                proof {
                    let (code, id) = choose|code: i32, id: u64|
                        {
                            &&& #[trigger] call_ensures(query_id, (fd,), (code, id))
                            &&& match counter {
                                Ok(c) => code >= 0 && c@ == (CounterState {
                                    fd,
                                    id,
                                    read_format: self@.read_format,
                                    member_count: 1,
                                }),
                                Err(e) => code < 0 && is_system_error(e),
                            }
                        };
                    assert(build_outcome(self@.read_format, fd, code, id, state_of(counter)));
                }
                counter
            },
            Err(e) => {
                proof {
                    let fd = choose|fd: i32| fd < 0 && #[trigger] call_ensures(call, (), fd);
                    assert(build_outcome(self@.read_format, fd, 0, 0, Err(e)));
                }
                Err(e)
            },
        }
    }

    /// Open the counter: `open` makes the system call that the request describes
    /// and returns the file descriptor, and `query_id` finds out the id of the
    /// counter with a file descriptor, and returns the code of the system call and
    /// the id.
    pub fn build<O, I>(&self, open: O, query_id: I) -> (counter: Result<Counter, Error>) where
        O: FnOnce(OpenRequest) -> i32,
        I: FnOnce(i32) -> (i32, u64),

        requires
            call_requires(open, (self@,)),
            forall|fd: i32|
                fd >= 0 && call_ensures(open, (self@,), fd) ==> call_requires(query_id, (fd,)),
        ensures
            exists|fd: i32, code: i32, id: u64|
                {
                    &&& call_ensures(open, (self@,), fd)
                    &&& fd >= 0 ==> call_ensures(query_id, (fd,), (code, id))
                    &&& #[trigger] build_outcome(
                        self@.read_format,
                        fd,
                        code,
                        id,
                        state_of(counter),
                    )
                },
    {
        assert(OpenRequest { group_fd: None, ..self@ } == self@);
        self.open(None, open, query_id)
    }

    /// Open the counter as the leader of a group. The counter must be read with
    /// its group.
    pub fn build_group<O, I>(&self, open: O, query_id: I) -> (group: Result<Group, Error>) where
        O: FnOnce(OpenRequest) -> i32,
        I: FnOnce(i32) -> (i32, u64),

        requires
            call_requires(open, (self@,)),
            forall|fd: i32|
                fd >= 0 && call_ensures(open, (self@,), fd) ==> call_requires(query_id, (fd,)),
        ensures
            if self@.read_format.has(ReadFormat::group()) {
                exists|fd: i32, code: i32, id: u64|
                    {
                        &&& call_ensures(open, (self@,), fd)
                        &&& fd >= 0 ==> call_ensures(query_id, (fd,), (code, id))
                        &&& #[trigger] build_outcome(
                            self@.read_format,
                            fd,
                            code,
                            id,
                            group_state_of(group),
                        )
                    }
            } else {
                group matches Err(e) && e == Error::NoGroupFlag
            },
    {
        if !self.read_format.contains(ReadFormat::group()) {
            return Err(Error::NoGroupFlag);
        }
        match self.build(open, query_id) {
            Ok(counter) => Ok(Group::led_by(counter)),
            Err(e) => Err(e),
        }
    }

    /// Open the counter as a member of the group that `leader` leads.
    pub fn build_with_group<O, I>(&self, leader: &mut Counter, open: O, query_id: I) -> (counter:
        Result<Counter, Error>) where
        O: FnOnce(OpenRequest) -> i32,
        I: FnOnce(i32) -> (i32, u64),

        requires
            old(leader)@.member_count < u32::MAX,
            call_requires(open, (joining(self@, old(leader)@.fd),)),
            forall|fd: i32|
                fd >= 0 && call_ensures(open, (joining(self@, old(leader)@.fd),), fd)
                    ==> call_requires(query_id, (fd,)),
        ensures
            exists|fd: i32, code: i32, id: u64|
                {
                    &&& call_ensures(open, (joining(self@, old(leader)@.fd),), fd)
                    &&& fd >= 0 ==> call_ensures(query_id, (fd,), (code, id))
                    &&& #[trigger] build_outcome(
                        self@.read_format,
                        fd,
                        code,
                        id,
                        state_of(counter),
                    )
                },
            match counter {
                Ok(_) => final(leader)@ == (CounterState {
                    member_count: (old(leader)@.member_count + 1) as u32,
                    ..old(leader)@
                }),
                Err(_) => final(leader)@ == old(leader)@,
            },
    {
        let counter = self.open(Some(leader.as_raw_fd()), open, query_id);
        if counter.is_ok() {
            leader.add_member();
        }
        counter
    }
}

} // verus!
