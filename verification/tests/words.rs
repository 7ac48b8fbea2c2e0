use perf_event::read::{CounterValue, GroupEntry, GroupValue, ParseError, Parser};
use perf_event::ReadFormat;

fn all_but_group() -> ReadFormat {
    ReadFormat::all() - ReadFormat::group()
}

#[test]
fn flags_combine() {
    let format = ReadFormat::group() | ReadFormat::id();
    assert_eq!(format.bits(), 12);
    assert!(format.contains(ReadFormat::group()));
    assert!(!format.contains(ReadFormat::lost()));
    assert!(!format.contains(ReadFormat::group() | ReadFormat::lost()));
    assert_eq!((format - ReadFormat::group()).bits(), 4);
    assert!((format - format).is_empty());
    assert!(!format.is_empty());
    // Setting and clearing GROUP undo each other.
    assert_eq!(
        (ReadFormat::lost() | ReadFormat::group()) - ReadFormat::group(),
        ReadFormat::lost()
    );
}

#[test]
fn lengths() {
    let none = ReadFormat::from_bits_retain(0);
    assert_eq!(none.prefix_len(), 1);
    assert_eq!(none.element_len(), 1);
    assert_eq!(ReadFormat::all().prefix_len(), 3);
    assert_eq!(ReadFormat::all().element_len(), 3);
    assert_eq!(ReadFormat::total_time_running().prefix_len(), 2);
    assert_eq!(ReadFormat::lost().element_len(), 2);
    assert_eq!(
        ReadFormat::MAX_NON_GROUP_SIZE,
        all_but_group().bits().count_ones() as usize + 1
    );
}

#[test]
fn parser_takes_words_in_order() {
    let words = [1, 2, 3, 4];
    let mut parser = Parser::new(&words);
    assert_eq!(parser.parse_u64(), Ok(1));
    assert_eq!(parser.parse_slice(2), Ok(&words[1..3]));
    assert_eq!(parser.parse_slice(2), Err(ParseError::UnexpectedEnd));
    assert_eq!(parser.parse_slice(0), Ok(&words[4..4]));
    assert_eq!(parser.parse_u64(), Ok(4));
    assert_eq!(parser.parse_u64(), Err(ParseError::UnexpectedEnd));
}

#[test]
fn counter_with_everything() {
    let value = CounterValue::parse(&[10, 20, 30, 40, 50], all_but_group()).unwrap();
    assert_eq!(value.value(), 10);
    assert_eq!(value.time_enabled(), Some(20));
    assert_eq!(value.time_running(), Some(30));
    assert_eq!(value.id(), Some(40));
    assert_eq!(value.lost(), Some(50));
    let copy = value.clone();
    assert_eq!(copy.lost(), Some(50));
}

#[test]
fn counter_with_some() {
    let format = ReadFormat::total_time_running() | ReadFormat::lost();
    let value = CounterValue::parse(&[10, 20, 30], format).unwrap();
    assert_eq!(value.value(), 10);
    assert_eq!(value.time_enabled(), None);
    assert_eq!(value.time_running(), Some(20));
    assert_eq!(value.id(), None);
    assert_eq!(value.lost(), Some(30));
}

#[test]
fn counter_ignores_what_follows() {
    let none = ReadFormat::from_bits_retain(0);
    let value = CounterValue::parse(&[10, 20], none).unwrap();
    assert_eq!(value.value(), 10);
    assert_eq!(value.lost(), None);
}

#[test]
fn counter_errors() {
    assert_eq!(
        CounterValue::parse(&[1], ReadFormat::group()).err(),
        Some(ParseError::GroupSet)
    );
    assert_eq!(
        CounterValue::parse(&[1], ReadFormat::from_bits_retain(32)).err(),
        Some(ParseError::UnsupportedFlags)
    );
    // GROUP is found before the unknown flag.
    assert_eq!(
        CounterValue::parse(&[], ReadFormat::from_bits_retain(32 + 8)).err(),
        Some(ParseError::GroupSet)
    );
    assert_eq!(
        CounterValue::parse(&[], ReadFormat::from_bits_retain(0)).err(),
        Some(ParseError::UnexpectedEnd)
    );
    assert_eq!(
        CounterValue::parse(&[1, 2, 3, 4], all_but_group()).err(),
        Some(ParseError::UnexpectedEnd)
    );
}

#[test]
fn error_messages() {
    assert_eq!(
        ParseError::GroupSet.message(),
        "attempted to parse a CounterValue with a ReadFormat that has GROUP set"
    );
    assert_eq!(
        ParseError::GroupNotSet.message(),
        "attempted to parse a GroupValue with a ReadFormat that does not have GROUP set"
    );
    assert_eq!(
        ParseError::UnsupportedFlags.message(),
        "read_format contains unsupported flags"
    );
    assert_eq!(
        ParseError::TooManyElements.message(),
        "number of elements in group read was too large for the data type"
    );
    assert_eq!(ParseError::UnexpectedEnd.message(), "unexpected end-of-message");
}

#[test]
fn group_with_everything() {
    let words = [2, 100, 90, 1, 11, 5, 2, 22, 6];
    let group = GroupValue::parse(&words, ReadFormat::all()).unwrap();
    assert_eq!(group.len(), 2);
    assert!(!group.is_empty());
    assert_eq!(group.time_enabled(), Some(100));
    assert_eq!(group.time_running(), Some(90));
    let first = group.get(0).unwrap();
    assert_eq!((first.value(), first.id(), first.lost()), (1, Some(11), Some(5)));
    let second = group.get(1).unwrap();
    assert_eq!((second.value(), second.id(), second.lost()), (2, Some(22), Some(6)));
    assert!(group.get(2).is_none());
}

#[test]
fn group_ignores_what_follows() {
    let words = [1, 7, 8, 9];
    let group = GroupValue::parse(&words, ReadFormat::group()).unwrap();
    assert_eq!(group.len(), 1);
    assert_eq!(group.get(0).unwrap().value(), 7);
    assert_eq!(group.time_enabled(), None);
    assert_eq!(group.time_running(), None);
}

#[test]
fn empty_group() {
    let words = [0];
    let group = GroupValue::parse(&words, ReadFormat::group()).unwrap();
    assert!(group.is_empty());
    assert!(group.into_iter().next().is_none());
    assert!(group.into_iter().last().is_none());
}

#[test]
fn group_errors() {
    assert_eq!(
        GroupValue::parse(&[0], ReadFormat::id()).err(),
        Some(ParseError::GroupNotSet)
    );
    assert_eq!(
        GroupValue::parse(&[0], ReadFormat::from_bits_retain(64 + 8)).err(),
        Some(ParseError::UnsupportedFlags)
    );
    assert_eq!(
        GroupValue::parse(&[], ReadFormat::group()).err(),
        Some(ParseError::UnexpectedEnd)
    );
    assert_eq!(
        GroupValue::parse(&[0, 1], ReadFormat::all()).err(),
        Some(ParseError::UnexpectedEnd)
    );
    assert_eq!(
        GroupValue::parse(&[2, 1], ReadFormat::group()).err(),
        Some(ParseError::UnexpectedEnd)
    );
    assert_eq!(
        GroupValue::parse(&[usize::MAX as u64, 0, 0], ReadFormat::all()).err(),
        Some(ParseError::TooManyElements)
    );
}

#[test]
fn lookup_by_id() {
    let words = [3, 1, 11, 2, 22, 3, 22];
    let group = GroupValue::parse(&words, ReadFormat::group() | ReadFormat::id()).unwrap();
    // The first of those with the id is found.
    assert_eq!(group.get_by_id(22).unwrap().value(), 2);
    assert_eq!(group.get_value_by_id(22), Some(&2));
    assert_eq!(group.get_by_id(11).unwrap().value(), 1);
    assert!(group.get_by_id(33).is_none());
    assert_eq!(group.get_value_by_id(33), None);
}

#[test]
fn lookup_without_ids() {
    let words = [1, 0];
    let group = GroupValue::parse(&words, ReadFormat::group()).unwrap();
    assert!(group.get_by_id(0).is_none());
    assert_eq!(group.get_value_by_id(0), None);
}

#[test]
fn iterating_from_both_ends() {
    let words = [5, 10, 11, 12, 13, 14];
    let group = GroupValue::parse(&words, ReadFormat::group()).unwrap();
    let mut iter = group.into_iter();
    assert_eq!(iter.size_hint(), (5, Some(5)));
    assert_eq!(iter.next().unwrap().value(), 10);
    assert_eq!(iter.next_back().unwrap().value(), 14);
    assert_eq!(iter.len(), 3);
    let mut copy = iter.clone();
    assert_eq!(copy.nth(1).unwrap().value(), 12);
    assert_eq!(copy.len(), 1);
    let mut copy = iter.clone();
    assert_eq!(copy.nth_back(1).unwrap().value(), 12);
    assert_eq!(copy.len(), 1);
    assert_eq!(copy.next().unwrap().value(), 11);
    assert_eq!(iter.clone().last().unwrap().value(), 13);
    assert_eq!(iter.clone().count(), 3);
    // Going past the end uses up what there is.
    assert!(iter.clone().nth(3).is_none());
    let mut copy = iter.clone();
    assert!(copy.nth(usize::MAX).is_none());
    assert_eq!(copy.len(), 0);
    assert!(iter.nth_back(3).is_none());
    assert_eq!(iter.len(), 0);
}

#[test]
fn iterating_over_wide_elements() {
    let words = [2, 1, 11, 5, 2, 22, 6];
    let format = ReadFormat::group() | ReadFormat::id() | ReadFormat::lost();
    let group = GroupValue::parse(&words, format).unwrap();
    let mut iter = group.into_iter();
    let last = iter.next_back().unwrap();
    assert_eq!((last.value(), last.id(), last.lost()), (2, Some(22), Some(6)));
    let first = iter.next_back().unwrap();
    assert_eq!((first.value(), first.id(), first.lost()), (1, Some(11), Some(5)));
    assert!(iter.next_back().is_none());
}

#[test]
fn owned_groups_say_the_same() {
    let owned = {
        let words = vec![1, 100, 7, 70];
        let format = ReadFormat::group() | ReadFormat::id() | ReadFormat::total_time_enabled();
        GroupValue::parse(&words, format).unwrap().into_owned()
    };
    let copy = owned.clone().into_owned();
    for group in [owned, copy] {
        assert_eq!(group.time_enabled(), Some(100));
        assert_eq!(group.get_by_id(70).unwrap().value(), 7);
    }
}

#[test]
fn member_of_a_group() {
    let words = [1, 100, 90, 1, 11, 5];
    let group = GroupValue::parse(&words, ReadFormat::all()).unwrap();
    let entry = group.get_by_id(11).unwrap();
    let value = CounterValue::from_group_and_entry(&group, &entry);
    assert_eq!(value.value(), 1);
    assert_eq!(value.time_enabled(), Some(100));
    assert_eq!(value.time_running(), Some(90));
    assert_eq!(value.id(), Some(11));
    assert_eq!(value.lost(), Some(5));
}

#[test]
fn member_without_a_value_that_the_group_has() {
    let words = [0];
    let group = GroupValue::parse(&words, ReadFormat::group() | ReadFormat::lost()).unwrap();
    let entry = GroupEntry::new(ReadFormat::id(), &[7, 8]);
    let value = CounterValue::from_group_and_entry(&group, &entry);
    assert_eq!(value.value(), 7);
    assert_eq!(value.id(), None);
    assert_eq!(value.lost(), Some(0));
}

#[test]
fn lone_counter_as_a_group() {
    let value = CounterValue::parse(&[10, 20, 30, 40, 50], all_but_group()).unwrap();
    let group = GroupValue::from(value);
    assert_eq!(group.len(), 1);
    assert_eq!(group.time_enabled(), Some(20));
    let entry = group.get(0).unwrap();
    let back = CounterValue::from_group_and_entry(&group, &entry);
    assert_eq!(back.value(), 10);
    assert_eq!(back.time_enabled(), Some(20));
    assert_eq!(back.time_running(), Some(30));
    assert_eq!(back.id(), Some(40));
    assert_eq!(back.lost(), Some(50));

    let bare = CounterValue::parse(&[10], ReadFormat::from_bits_retain(0)).unwrap();
    let group = GroupValue::from(bare);
    assert_eq!(group.len(), 1);
    assert_eq!(group.get(0).unwrap().id(), None);
}

#[test]
fn entries_from_words() {
    let entry = GroupEntry::new(ReadFormat::lost(), &[7, 8, 9]);
    assert_eq!((entry.value(), entry.id(), entry.lost()), (7, None, Some(8)));
    let entry = GroupEntry::new(ReadFormat::from_bits_retain(0), &[7]);
    assert_eq!((entry.value(), entry.id(), entry.lost()), (7, None, None));
}

#[test]
fn entry_text() {
    let format = ReadFormat::id() | ReadFormat::lost();
    assert_eq!(
        GroupEntry::new(format, &[0, 18446744073709551615, 10]).debug_string(),
        "GroupEntry { value: 0, id: 18446744073709551615, lost: 10 }"
    );
    assert_eq!(
        GroupEntry::new(ReadFormat::from_bits_retain(0), &[1234567890]).debug_string(),
        "GroupEntry { value: 1234567890 }"
    );
    assert_eq!(
        GroupEntry::new(ReadFormat::lost(), &[9, 99]).debug_string(),
        "GroupEntry { value: 9, lost: 99 }"
    );
}
