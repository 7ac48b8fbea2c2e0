use perf_event::{Builder, Error, ErrorKind, Event, Group, OpenRequest, ReadFormat};
use perf_event_open_sys::bindings;

#[test]
fn simple_build() {
    Builder::new()
        .build(|_| 3, |_| (0, 1))
        .expect("Couldn't build default Counter");
}

#[test]
fn test_error_code_is_correct() {
    // This configuration should always result in EINVAL
    let builder = Builder::new()
        .kind(Event::cpu_clock())
        // There should _hopefully_ never be a system with this many CPUs.
        .one_cpu(i32::MAX as usize);

    let refuse = |request: OpenRequest| {
        assert_eq!(request.cpu, Some(i32::MAX as usize));
        // Reading a directory as a link is refused with the same code as a CPU
        // that does not exist.
        assert!(std::path::Path::new("/").read_link().is_err());
        -1
    };

    match builder.build(refuse, |_| (0, 1)) {
        Ok(_) => panic!("counter construction was not supposed to succeed"),
        Err(e) => assert_eq!(e.raw_os_error(), Some(libc::EINVAL)),
    }
}

#[test]
fn flags_are_those_of_the_kernel() {
    assert_eq!(
        ReadFormat::total_time_enabled().bits(),
        bindings::PERF_FORMAT_TOTAL_TIME_ENABLED as u64
    );
    assert_eq!(
        ReadFormat::total_time_running().bits(),
        bindings::PERF_FORMAT_TOTAL_TIME_RUNNING as u64
    );
    assert_eq!(ReadFormat::id().bits(), bindings::PERF_FORMAT_ID as u64);
    assert_eq!(ReadFormat::group().bits(), bindings::PERF_FORMAT_GROUP as u64);
    assert_eq!(ReadFormat::lost().bits(), bindings::PERF_FORMAT_LOST as u64);
    assert_eq!(ReadFormat::all().bits(), 31);
}

#[test]
fn events_are_those_of_the_kernel() {
    assert_eq!(Event::instructions().kind, bindings::PERF_TYPE_HARDWARE);
    assert_eq!(
        Event::instructions().config,
        bindings::PERF_COUNT_HW_INSTRUCTIONS as u64
    );
    assert_eq!(Event::cpu_clock().kind, bindings::PERF_TYPE_SOFTWARE);
    assert_eq!(
        Event::cpu_clock().config,
        bindings::PERF_COUNT_SW_CPU_CLOCK as u64
    );
    assert_eq!(Event::dummy().kind, bindings::PERF_TYPE_SOFTWARE);
    assert_eq!(Event::dummy().config, bindings::PERF_COUNT_SW_DUMMY as u64);
}

#[test]
fn default_request() {
    let mut seen = None;
    let counter = Builder::new()
        .build(
            |request| {
                seen = Some(request);
                7
            },
            |fd| {
                assert_eq!(fd, 7);
                (0, 99)
            },
        )
        .unwrap();
    let request = seen.unwrap();
    assert_eq!(request.event, Event::instructions());
    assert_eq!(request.read_format.bits(), 3);
    assert_eq!(request.cpu, None);
    assert_eq!(request.group_fd, None);
    assert_eq!(counter.id(), 99);
    assert_eq!(counter.as_raw_fd(), 7);
    assert_eq!(counter.into_raw_fd(), 7);
}

#[test]
fn id_is_not_queried_if_opening_fails() {
    let result = Builder::new().build(|_| -1, |_| panic!("there is no file descriptor"));
    assert_eq!(result.err().unwrap().kind(), ErrorKind::Os);
}

#[test]
fn failing_id_query_fails_the_build() {
    let result = Builder::new().build(|_| 3, |_| (-1, 5));
    assert_eq!(result.err().unwrap().kind(), ErrorKind::Os);
}

#[test]
fn group_builder_format() {
    let mut seen = None;
    let group = Group::new(
        |request| {
            seen = Some(request);
            4
        },
        |_| (0, 40),
    )
    .unwrap();
    let request = seen.unwrap();
    assert_eq!(request.event, Event::dummy());
    assert_eq!(
        request.read_format,
        ReadFormat::group()
            | ReadFormat::id()
            | ReadFormat::total_time_enabled()
            | ReadFormat::total_time_running()
    );
    assert_eq!(request.cpu, None);
    assert_eq!(request.group_fd, None);
    assert_eq!(group.id(), 40);
    assert_eq!(group.as_raw_fd(), 4);
    assert_eq!(group.as_counter().id(), 40);
}

#[test]
fn group_needs_the_group_flag() {
    let result = Group::builder()
        .read_format(ReadFormat::id())
        .build_group(|_| panic!("nothing is to be opened"), |_| (0, 1));
    let error = result.err().unwrap();
    assert_eq!(error, Error::NoGroupFlag);
    assert_eq!(error.kind(), ErrorKind::Other);
    assert_eq!(error.raw_os_error(), None);
    assert!(error.message().unwrap().contains("GROUP"));
}

#[test]
fn members_join_the_group_of_their_leader() {
    let mut group = Group::new(|_| 4, |_| (0, 40)).unwrap();
    assert_eq!(group.as_counter().read_buffer().words().len(), 3 + 2);
    assert!(group.as_counter().can_add_member());
    let member = group
        .add(
            &Builder::new(),
            |request| {
                assert_eq!(request.group_fd, Some(4));
                5
            },
            |_| (0, 41),
        )
        .unwrap();
    assert_eq!(member.id(), 41);
    assert_eq!(group.as_counter().read_buffer().words().len(), 3 + 2 * 2);

    // A member that cannot be opened does not count.
    assert!(group.add(&Builder::new(), |_| -1, |_| (0, 42)).is_err());
    assert_eq!(group.as_counter().read_buffer().words().len(), 3 + 2 * 2);
    assert_eq!(group.into_counter().id(), 40);
}
