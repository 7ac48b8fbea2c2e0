use std::time::Duration;

use perf_event::{
    check_errno_syscall, errno_result, Builder, Counter, Counts, Error, ErrorKind, Fault, Field,
    Group, GroupValue, Ioctl, ReadBuffer, ReadFormat, Step,
};

/// Put the words into the buffer as the kernel does, and say how many bytes they are.
fn deliver(buffer: &mut ReadBuffer, words: &[u64]) -> Result<usize, Error> {
    if words.len() > buffer.words().len() {
        return Err(Error::Os(libc::ENOSPC));
    }
    buffer.words_mut()[..words.len()].copy_from_slice(words);
    Ok(words.len() * 8)
}

fn group_format() -> ReadFormat {
    ReadFormat::group()
        | ReadFormat::id()
        | ReadFormat::total_time_enabled()
        | ReadFormat::total_time_running()
}

/// Read the group of a counter from a kernel that delivers the words, and say how
/// often it was asked.
fn read_group(counter: &mut Counter, words: &[u64]) -> (Result<GroupValue, Error>, usize) {
    assert!(counter.can_read());
    let mut buffer = counter.read_buffer();
    let mut reads = 0;
    loop {
        reads += 1;
        let outcome = deliver(&mut buffer, words);
        assert_eq!(counter.read_fault(&buffer, &outcome), None);
        match counter.read_group(&mut buffer, outcome) {
            Step::Again => {}
            Step::Done(result) => return (result, reads),
        }
    }
}

#[test]
fn system_call_results() {
    assert_eq!(check_errno_syscall(|| 5i32), Ok(5));
    assert_eq!(check_errno_syscall(|| 0i64), Ok(0));
    assert!(std::path::Path::new("/").read_link().is_err());
    assert_eq!(check_errno_syscall(|| -1i32), Err(Error::Os(libc::EINVAL)));
    assert_eq!(errno_result(-1i32, libc::EPERM), Err(Error::Os(libc::EPERM)));
    assert_eq!(errno_result(0i32, libc::EPERM), Ok(0));
}

#[test]
fn ioctl_gets_the_file_descriptor() {
    let counter = Counter::new(17, 1, ReadFormat::id());
    assert_eq!(counter.ioctl(|fd| fd), Ok(()));
    assert_eq!(counter.ioctl(|fd| -fd).err().unwrap().kind(), ErrorKind::Os);
}

#[test]
fn requests_on_a_counter() {
    let mut counter = Counter::new(17, 1, ReadFormat::id());
    let mut seen = Vec::new();
    let mut call = |fd: i32, ioctl: Ioctl| {
        seen.push((fd, ioctl));
        0
    };
    counter.enable(&mut call).unwrap();
    counter.enable_group(&mut call).unwrap();
    counter.disable(&mut call).unwrap();
    counter.disable_group(&mut call).unwrap();
    counter.reset(&mut call).unwrap();
    counter.reset_group(&mut call).unwrap();
    counter.set_bpf(-1, &mut call).unwrap();
    let group = perf_event_open_sys::bindings::PERF_IOC_FLAG_GROUP;
    assert_eq!(group, 1);
    assert_eq!(
        seen,
        vec![
            (17, Ioctl::Enable(0)),
            (17, Ioctl::Enable(group)),
            (17, Ioctl::Disable(0)),
            (17, Ioctl::Disable(group)),
            (17, Ioctl::Reset(0)),
            (17, Ioctl::Reset(group)),
            (17, Ioctl::SetBpf(u32::MAX)),
        ]
    );
    assert!(counter.enable(|_, _| -1).is_err());
    assert!(counter.enable_group(|_, _| -1).is_err());
    assert!(counter.disable(|_, _| -1).is_err());
    assert!(counter.disable_group(|_, _| -1).is_err());
    assert!(counter.reset(|_, _| -1).is_err());
    assert!(counter.reset_group(|_, _| -1).is_err());
    assert!(counter.set_bpf(3, |_, _| -1).is_err());
    assert_eq!(counter.id(), 1);
}

#[test]
fn requests_on_a_group() {
    let mut group = Group::new(|_| 4, |_| (0, 40)).unwrap();
    let mut seen = Vec::new();
    let mut call = |fd: i32, ioctl: Ioctl| {
        seen.push((fd, ioctl));
        0
    };
    group.enable(&mut call).unwrap();
    group.disable(&mut call).unwrap();
    group.reset(&mut call).unwrap();
    group.as_counter_mut().enable(&mut call).unwrap();
    assert_eq!(
        seen,
        vec![
            (4, Ioctl::Enable(1)),
            (4, Ioctl::Disable(1)),
            (4, Ioctl::Reset(1)),
            (4, Ioctl::Enable(0)),
        ]
    );
    assert!(group.enable(|_, _| -1).is_err());
    assert_eq!(group.into_raw_fd(), 4);
}

#[test]
fn reading_a_lone_counter() {
    let mut counter = Builder::new().build(|_| 3, |_| (0, 1)).unwrap();
    let mut buffer = counter.read_buffer();
    assert_eq!(buffer.words(), &[0; ReadFormat::MAX_NON_GROUP_SIZE]);
    let outcome = deliver(&mut buffer, &[1000, 50, 25]);
    assert_eq!(counter.full_fault(&buffer, &outcome), None);
    match counter.read(&mut buffer, outcome) {
        Step::Done(Ok(count)) => assert_eq!(count, 1000),
        _ => panic!("the read was complete"),
    }
    match counter.read_count_and_time(&mut buffer, Ok(24)) {
        Step::Done(Ok(both)) => {
            assert_eq!((both.count, both.time_enabled, both.time_running), (1000, 50, 25));
        }
        _ => panic!("the read was complete"),
    }
    match counter.read_full(&mut buffer, Ok(24)) {
        Step::Done(Ok(value)) => {
            assert_eq!(value.value(), 1000);
            assert_eq!(value.time_enabled(), Some(Duration::from_nanos(50)));
            assert_eq!(value.time_running(), Some(Duration::from_nanos(25)));
            assert_eq!(value.lost(), None);
            assert_eq!(value.clone().value(), 1000);
        }
        _ => panic!("the read was complete"),
    }
    // The group of a counter that is read alone is that counter.
    match counter.read_group(&mut buffer, Ok(24)) {
        Step::Done(Ok(group)) => {
            assert_eq!(group.len(), 1);
            assert_eq!(group.time_enabled(), Some(Duration::from_nanos(50)));
            assert_eq!(group.iter().next().unwrap().value(), 1000);
        }
        _ => panic!("the read was complete"),
    }
}

#[test]
fn large_times_survive() {
    let mut counter = Builder::new().build(|_| 3, |_| (0, 1)).unwrap();
    let mut buffer = counter.read_buffer();
    let outcome = deliver(&mut buffer, &[1, u64::MAX, u64::MAX - 1]);
    match counter.read_count_and_time(&mut buffer, outcome) {
        Step::Done(Ok(both)) => {
            assert_eq!((both.time_enabled, both.time_running), (u64::MAX, u64::MAX - 1));
        }
        _ => panic!("the read was complete"),
    }
}

#[test]
fn times_that_were_not_asked_for() {
    let mut buffer = Counter::new(3, 1, ReadFormat::id()).read_buffer();
    let outcome = deliver(&mut buffer, &[1, 2]);
    let mut counter = Counter::new(3, 1, ReadFormat::total_time_running());
    match counter.read_count_and_time(&mut buffer, outcome) {
        Step::Done(Err(e)) => {
            assert_eq!(e, Error::NoTimeEnabled);
            assert_eq!(e.kind(), ErrorKind::Other);
            assert_eq!(
                e.message(),
                Some("time_enabled was not enabled within read_format")
            );
        }
        _ => panic!("there is no such time"),
    }
    let mut counter = Counter::new(3, 1, ReadFormat::total_time_enabled());
    match counter.read_count_and_time(&mut buffer, outcome) {
        Step::Done(Err(e)) => {
            assert_eq!(e, Error::NoTimeRunning);
            assert_eq!(
                e.message(),
                Some("time_running was not enabled within read_format")
            );
        }
        _ => panic!("there is no such time"),
    }
}

#[test]
fn unscheduled_counters() {
    for format in [ReadFormat::id(), group_format()] {
        let mut counter = Counter::new(3, 1, format);
        let mut buffer = counter.read_buffer();
        assert_eq!(counter.full_fault(&buffer, &Ok(0)), None);
        match counter.read(&mut buffer, Ok(0)) {
            Step::Done(Err(e)) => {
                assert_eq!(e.kind(), ErrorKind::UnexpectedEof);
                assert_eq!(
                    e.message(),
                    Some("the kernel was unable to schedule the counter or group")
                );
                assert_eq!(e.raw_os_error(), None);
            }
            _ => panic!("nothing was read"),
        }
    }
}

#[test]
fn failed_reads() {
    for format in [ReadFormat::id(), group_format()] {
        let mut counter = Counter::new(3, 1, format);
        let mut buffer = counter.read_buffer();
        match counter.read_group(&mut buffer, Err(Error::Os(libc::EBADF))) {
            Step::Done(Err(e)) => {
                assert_eq!(e.raw_os_error(), Some(libc::EBADF));
                assert_eq!(e.kind(), ErrorKind::Os);
                assert_eq!(e.message(), None);
            }
            _ => panic!("the read failed"),
        }
    }
    // A lone counter does not try again.
    let mut counter = Counter::new(3, 1, ReadFormat::id());
    let mut buffer = counter.read_buffer();
    match counter.read_full(&mut buffer, Err(Error::Os(libc::ENOSPC))) {
        Step::Done(Err(e)) => assert_eq!(e.raw_os_error(), Some(libc::ENOSPC)),
        _ => panic!("the read failed"),
    }
}

#[test]
fn reads_that_do_not_fit_the_format() {
    let mut counter = Counter::new(3, 1, ReadFormat::id());
    let mut buffer = counter.read_buffer();
    match counter.read(&mut buffer, Ok(8)) {
        Step::Done(Err(e)) => {
            assert_eq!(e.raw_os_error(), Some(libc::ENOSPC));
            assert_eq!(e.kind(), ErrorKind::Other);
            assert_eq!(e.message(), Some("unexpected end-of-message"));
        }
        _ => panic!("a word is missing"),
    }
    let mut counter = Counter::new(3, 1, ReadFormat::from_bits_retain(32 + 8));
    let mut buffer = counter.read_buffer();
    match counter.read_group(&mut buffer, Ok(8)) {
        Step::Done(Err(e)) => {
            assert_eq!(e.raw_os_error(), Some(libc::ENOSPC));
            assert_eq!(e.message(), Some("read_format contains unsupported flags"));
        }
        _ => panic!("the format is unknown"),
    }
    let mut counter = Counter::new(3, 1, ReadFormat::from_bits_retain(32));
    let mut buffer = counter.read_buffer();
    match counter.read_full(&mut buffer, Ok(40)) {
        Step::Done(Err(e)) => assert_eq!(e.raw_os_error(), Some(libc::ENOSPC)),
        _ => panic!("the format is unknown"),
    }
}

#[test]
fn short_reads_of_a_group() {
    // One member is announced, and nothing is delivered for it.
    let mut counter = Counter::new(3, 1, ReadFormat::group());
    let mut buffer = counter.read_buffer();
    let outcome = deliver(&mut buffer, &[1]);
    assert_eq!(counter.read_fault(&buffer, &outcome), None);
    match counter.read_group(&mut buffer, outcome) {
        Step::Done(Err(e)) => {
            assert_eq!(e.raw_os_error(), Some(libc::ENOSPC));
            assert_eq!(e.message(), Some("unexpected end-of-message"));
        }
        _ => panic!("a word is missing"),
    }
    // Only whole words count.
    let mut counter = Counter::new(3, 1, ReadFormat::group());
    let mut buffer = counter.read_buffer();
    buffer.words_mut()[0] = 1;
    assert_eq!(counter.full_fault(&buffer, &Ok(15)), None);
    match counter.read_full(&mut buffer, Ok(15)) {
        Step::Done(Err(e)) => assert_eq!(e.raw_os_error(), Some(libc::ENOSPC)),
        _ => panic!("a word is missing"),
    }
}

#[test]
fn faults() {
    let lone = Counter::new(3, 1, ReadFormat::id());
    let buffer = lone.read_buffer();
    assert_eq!(lone.full_fault(&buffer, &Ok(9)), Some(Fault::PartialWord));
    assert_eq!(lone.read_fault(&buffer, &Ok(48)), Some(Fault::PastBuffer));
    assert_eq!(lone.read_fault(&buffer, &Ok(40)), None);
    assert_eq!(
        Fault::PartialWord.message(),
        "kernel returned a length that was not a multiple of 8"
    );
    assert_eq!(
        Fault::TooManyMembers.message(),
        "group had more than u32::MAX elements"
    );
    assert_eq!(
        Fault::PastBuffer.message(),
        "kernel returned a length that was larger than the buffer"
    );
    assert_eq!(Fault::BufferTooLarge.message(), "capacity overflow");
    assert_eq!(
        Fault::NoEntry.message(),
        "group contained no entry for the counter"
    );

    let leader = Counter::new(3, 1, group_format());
    let mut buffer = leader.read_buffer();
    let outcome = deliver(&mut buffer, &[1, 0, 0, 5, 2]);
    assert_eq!(leader.read_fault(&buffer, &outcome), None);
    assert_eq!(leader.full_fault(&buffer, &outcome), Some(Fault::NoEntry));
}

#[test]
fn buffer_grows_until_the_group_fits() {
    let mut counter = Counter::new(3, 11, group_format());
    let mut buffer = counter.read_buffer();
    assert_eq!(buffer.words().len(), 3 + 2);
    let again = Err(Error::Os(libc::ENOSPC));
    assert_eq!(counter.group_fault(&buffer, &again), None);
    assert!(matches!(counter.do_read_group(&mut buffer, again), Step::Again));
    assert_eq!(buffer.words().len(), (3 + 2 * 2) * 8);
    assert!(matches!(counter.read_full(&mut buffer, again), Step::Again));
    assert_eq!(buffer.words().len(), (3 + 4 * 2) * 8);
    let outcome = deliver(&mut buffer, &[1, 7, 8, 9, 11]);
    match counter.read_full(&mut buffer, outcome) {
        Step::Done(Ok(value)) => assert_eq!(value.value(), 9),
        _ => panic!("the read was complete"),
    }
}

#[test]
fn buffer_grows_with_every_refusal() {
    let mut counter = Counter::new(3, 11, group_format());
    let mut buffer = counter.read_buffer();
    let again = Err(Error::Os(libc::ENOSPC));
    for _ in 0..10 {
        assert_eq!(counter.read_fault(&buffer, &again), None);
        assert!(matches!(counter.read_group(&mut buffer, again), Step::Again));
    }
    assert_eq!(buffer.words().len(), (3 + 1024 * 2) * 8);
}

#[test]
fn reading_a_group() {
    // The leader with id 40 and two members that it does not know of.
    let words = [3, 100, 90, 0, 40, 1000, 41, 500, 42];
    let mut leader = Counter::new(4, 40, group_format());
    let (group, reads) = read_group(&mut leader, &words);
    let group = group.unwrap();
    assert_eq!(reads, 2);
    assert_eq!(group.len(), 3);
    assert_eq!(group.time_enabled(), Some(Duration::from_nanos(100)));
    assert_eq!(group.time_running(), Some(Duration::from_nanos(90)));

    let first = Counter::new(5, 41, ReadFormat::id());
    let stranger = Counter::new(6, 43, ReadFormat::id());
    assert_eq!(group.get(&first).unwrap().value(), 1000);
    assert_eq!(group[&first], 1000);
    assert!(group.get(&stranger).is_none());

    // The next read begins with a buffer of the correct size.
    assert_eq!(leader.read_buffer().words().len(), words.len());
    let (_, reads) = read_group(&mut leader, &words);
    assert_eq!(reads, 1);

    // A member that is read with its group gets its own values.
    let mut member = Counter::new(7, 42, group_format());
    let mut buffer = leader.read_buffer();
    let outcome = deliver(&mut buffer, &words);
    assert_eq!(member.full_fault(&buffer, &outcome), None);
    match member.read_full(&mut buffer, outcome) {
        Step::Done(Ok(value)) => {
            assert_eq!(value.value(), 500);
            assert_eq!(value.time_running(), Some(Duration::from_nanos(90)));
        }
        _ => panic!("the read was complete"),
    }
}

#[test]
fn lost_samples_of_a_member() {
    let format = ReadFormat::group() | ReadFormat::id() | ReadFormat::lost();
    let mut counter = Counter::new(3, 11, format);
    let mut buffer = counter.read_buffer();
    let outcome = deliver(&mut buffer, &[1, 9, 11, 2]);
    match counter.read_full(&mut buffer, outcome) {
        Step::Done(Ok(value)) => assert_eq!(value.lost(), Some(2)),
        _ => panic!("the read was complete"),
    }
}

#[test]
fn group_does_not_list_itself() {
    let mut group = Group::new(|_| 4, |_| (0, 40)).unwrap();
    let mut buffer = group.as_counter().read_buffer();
    let words = [2, 100, 90, 0, 40, 1000, 41];
    let outcome = deliver(&mut buffer, &words);
    assert!(matches!(group.read(&mut buffer, outcome), Step::Again));
    let outcome = deliver(&mut buffer, &words);
    let value = match group.read(&mut buffer, outcome) {
        Step::Done(Ok(value)) => value,
        _ => panic!("the read was complete"),
    };
    assert_eq!(value.len(), 1);
    assert!(!value.is_empty());
    assert_eq!(value.iter().next().unwrap().id(), 41);
    // It is still found.
    assert_eq!(value[group.as_counter()], 0);
    let copy = value.clone();
    assert_eq!(copy.len(), 1);
    assert_eq!(
        copy.debug_string(),
        "GroupData { time_enabled: 100, time_running: 90, \
         entries: [GroupEntry { value: 1000, id: 41, .. }] }"
    );
}

#[test]
fn iterating_over_a_group() {
    let words = [4, 0, 0, 1, 10, 2, 20, 3, 30, 4, 40];
    let mut leader = Counter::new(4, 10, group_format());
    let mut group = read_group(&mut leader, &words).0.unwrap();
    let mut iter = group.iter();
    assert_eq!(iter.size_hint(), (4, Some(4)));
    assert_eq!(iter.next().unwrap().value(), 1);
    assert_eq!(iter.next_back().unwrap().value(), 4);
    assert_eq!(iter.clone().nth(1).unwrap().value(), 3);
    assert_eq!(iter.clone().nth_back(1).unwrap().value(), 2);
    assert_eq!(iter.clone().last().unwrap().value(), 3);
    assert_eq!(iter.clone().count(), 2);
    assert!(iter.nth(2).is_none());
    assert_eq!(iter.len(), 0);
    assert_eq!(group.iter().next().unwrap().checked_id(), Some(10));
    assert_eq!(group.iter().next().unwrap().lost(), None);
    assert!(group.has_ids());
    group.skip_group();
    assert_eq!(group.len(), 3);
    assert_eq!(group.iter().next().unwrap().value(), 2);
}

#[test]
fn group_without_ids() {
    let mut leader = Counter::new(4, 10, ReadFormat::group());
    let mut group = read_group(&mut leader, &[1, 7]).0.unwrap();
    assert!(!group.has_ids());
    assert_eq!(group.iter().next().unwrap().checked_id(), None);
    assert_eq!(group.time_enabled(), None);
    assert_eq!(group.time_running(), None);
    group.skip_group();
    assert!(group.has_ids());
    assert!(group.is_empty());
    assert_eq!(group.debug_string(), "GroupData { entries: [] }");
}

#[test]
fn texts() {
    assert_eq!(
        Counter::new(-1, 42, ReadFormat::id()).debug_string(),
        "Counter { fd: -1, id: 42 }"
    );
    assert_eq!(
        Counter::new(i32::MIN, 0, ReadFormat::id()).debug_string(),
        "Counter { fd: -2147483648, id: 0 }"
    );
    let mut counter = Counter::new(3, 1, ReadFormat::id() | ReadFormat::total_time_enabled());
    let mut buffer = counter.read_buffer();
    let outcome = deliver(&mut buffer, &[10, 200, 3]);
    match counter.read_full(&mut buffer, outcome) {
        Step::Done(Ok(value)) => {
            assert_eq!(
                value.debug_string(),
                "CounterValue { value: 10, time_enabled: 200, id: Some(3), lost: None, .. }"
            );
            assert_eq!(
                value.fields(),
                vec![
                    ("value", Field::Number(10)),
                    ("time_enabled", Field::Number(200)),
                    ("id", Field::Optional(Some(3))),
                    ("lost", Field::Optional(None)),
                ]
            );
        }
        _ => panic!("the read was complete"),
    }
    let format = ReadFormat::group() | ReadFormat::id() | ReadFormat::lost();
    let mut leader = Counter::new(4, 10, format);
    let group = read_group(&mut leader, &[2, 1, 10, 5, 2, 20, 6]).0.unwrap();
    assert_eq!(
        group.debug_string(),
        "GroupData { entries: [GroupEntry { value: 1, id: 10, lost: 5, .. }, \
         GroupEntry { value: 2, id: 20, lost: 6, .. }] }"
    );
    assert_eq!(
        group.iter().next().unwrap().debug_string(),
        "GroupEntry { value: 1, id: 10, lost: 5, .. }"
    );
    assert_eq!(group.fields(), vec![]);
    assert_eq!(
        group.iter().next().unwrap().fields(),
        vec![
            ("value", Field::Number(1)),
            ("id", Field::Number(10)),
            ("lost", Field::Number(5)),
        ]
    );
}

#[test]
fn counts_of_a_group() {
    let words = vec![3, 100, 90, 0, 40, 1000, 41, 500, 42];
    let counts = Counts::new(words.clone()).unwrap();
    assert_eq!(counts.len(), 3);
    assert_eq!(counts.time_enabled(), 100);
    assert_eq!(counts.time_running(), 90);
    assert_eq!(Counts::nth_index(2), 7..9);
    assert_eq!(counts.nth_ref(2), (42, &500));
    let mut iter = counts.iter();
    assert_eq!(iter.next(), Some((41, &1000)));
    assert_eq!(iter.next(), Some((42, &500)));
    assert_eq!(iter.next(), None);
    assert_eq!(iter.next(), None);
    assert_eq!(counts.debug_string(), "{41: 1000, 42: 500}");

    let member = Counter::new(7, 42, ReadFormat::id());
    let leader = Counter::new(4, 40, group_format());
    assert_eq!(counts.get(&member), Some(&500));
    assert_eq!(counts[&member], 500);
    assert_eq!(counts.get(&leader), None);

    // They agree with the values of the group.
    let mut leader = leader;
    let mut group = read_group(&mut leader, &words).0.unwrap();
    group.skip_group();
    assert_eq!(group.len(), counts.len() - 1);
    assert_eq!(group[&member], counts[&member]);
}

#[test]
fn counts_need_all_words() {
    assert!(Counts::new(vec![]).is_none());
    assert!(Counts::new(vec![0, 1]).is_none());
    assert!(Counts::new(vec![1, 1, 1, 1]).is_none());
    assert!(Counts::new(vec![u64::MAX, 1, 1, 1, 1]).is_none());
    let empty = Counts::new(vec![0, 1, 2]).unwrap();
    assert_eq!(empty.len(), 0);
    assert_eq!(empty.iter().next(), None);
    assert_eq!(empty.debug_string(), "{}");
    let lone = Counts::new(vec![1, 1, 2, 3, 4]).unwrap();
    assert_eq!(lone.len(), 1);
    assert_eq!(lone.iter().next(), None);
    assert_eq!(lone.debug_string(), "{}");
}
