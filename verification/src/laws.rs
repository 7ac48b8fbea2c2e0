//! What holds of the operations of this library taken together.

use std::time::Duration;

use vstd::prelude::*;
use vstd::std_specs::ops::{BitOrSpec, SubSpec};

use crate::builder::{
    build_outcome, default_request, group_state_of, joining, state_of, Builder, Event, OpenRequest,
};
use crate::counter::{
    all_have_ids, count_and_time, count_and_time_step, entries_text, entry_text, group_text,
    reading_step, value_step, CountAndTime, Counter, CounterValue, GroupEntry, GroupIter,
    GroupReading, GroupValue,
};
use crate::counts::{counts_model, is_counts, members, pair_text, pairs_text, Counts, CountsIter};
use crate::error::{Error, ErrorKind};
use crate::flags::{lemma_group_undone, lemma_minus_group, lemma_plus_group, ReadFormat};
use crate::group::{group_request, lemma_group_request, Group};
use crate::read;
use crate::read::{
    announced_words, counter_model, counter_parse, element, entries_model, entry_model, group_model,
    group_parse, lemma_element_bounds, lemma_entries_split, lone_group_model, member_model,
    position_of_id, CounterModel, EntryModel, GroupModel, ParseError, Parser,
};
use crate::reading::{
    first_buffer, first_size, fits, full_fault, full_transition, group_fault, group_size,
    group_transition, grown, grown_size, read_fault, single_fault, single_result, truncated,
    whole_transition, BufferModel, CounterState, Fault, ReadBuffer, Step, Transition,
};
use crate::sys::{
    call_outcome, errno_outcome, errno_result, is_last_os_error, no_space_code, Ioctl,
};
use crate::text::{decimal, labelled, labels, optional_decimal, optional_field, signed_decimal, Field};
use crate::time::{duration_of_nanos, optional_duration};

verus! {

/// A word that may be missing, as words.
pub open spec fn optional_words(word: Option<u64>) -> Seq<u64> {
    match word {
        Some(w) => seq![w],
        None => seq![],
    }
}

/// Whether the values of the entry are those that the format asks for.
pub open spec fn entry_in_format(entry: EntryModel, f: ReadFormat) -> bool {
    &&& entry.id is Some == f.has(ReadFormat::id())
    &&& entry.lost is Some == f.has(ReadFormat::lost())
}

/// Whether the values are those that the format asks for.
pub open spec fn counter_in_format(value: CounterModel) -> bool {
    let f = value.read_format;
    &&& value.time_enabled is Some == f.has(ReadFormat::total_time_enabled())
    &&& value.time_running is Some == f.has(ReadFormat::total_time_running())
    &&& value.id is Some == f.has(ReadFormat::id())
    &&& value.lost is Some == f.has(ReadFormat::lost())
}

/// Whether the values of the group and its members are those that the format asks
/// for.
pub open spec fn group_in_format(group: GroupModel) -> bool {
    let f = group.read_format;
    &&& group.time_enabled is Some == f.has(ReadFormat::total_time_enabled())
    &&& group.time_running is Some == f.has(ReadFormat::total_time_running())
    &&& forall|i: int|
        0 <= i < group.entries.len() ==> entry_in_format(#[trigger] group.entries[i], f)
}

/// The words of a counter that is read alone, in the order of the kernel.
pub open spec fn counter_words(value: CounterModel) -> Seq<u64> {
    seq![value.value] + optional_words(value.time_enabled) + optional_words(value.time_running)
        + optional_words(value.id) + optional_words(value.lost)
}

/// The words of a member of a group, in the order of the kernel.
pub open spec fn entry_words(entry: EntryModel) -> Seq<u64> {
    seq![entry.value] + optional_words(entry.id) + optional_words(entry.lost)
}

/// The words of the members of a group, in the order of the kernel.
pub open spec fn entries_words(entries: Seq<EntryModel>) -> Seq<u64>
    decreases entries.len(),
{
    if entries.len() == 0 {
        seq![]
    } else {
        entries_words(entries.drop_last()) + entry_words(entries.last())
    }
}

/// The words of a group, in the order of the kernel.
pub open spec fn group_words(group: GroupModel) -> Seq<u64> {
    seq![group.entries.len() as u64] + optional_words(group.time_enabled) + optional_words(
        group.time_running,
    ) + entries_words(group.entries)
}

/// What the kernel writes for a counter is what is read from it, whatever follows
/// in the buffer.
pub proof fn law_counter_read_back(value: CounterModel, rest: Seq<u64>)
    requires
        counter_in_format(value),
        value.read_format.is_supported(),
        !value.read_format.has(ReadFormat::group()),
    ensures
        counter_words(value).len() == value.read_format.single_words(),
        counter_parse(counter_words(value) + rest, value.read_format) == Ok::<_, ParseError>(value),
{
    assert(counter_model(counter_words(value) + rest, value.read_format) =~= value);
}

/// What is read from a counter determines the words that were read.
pub proof fn law_counter_words_kept(words: Seq<u64>, f: ReadFormat)
    ensures
        counter_parse(words, f) matches Ok(value) ==> {
            &&& counter_in_format(value)
            &&& value.read_format == f
            &&& words.take(f.single_words()) == counter_words(value)
        },
{
    if let Ok(value) = counter_parse(words, f) {
        assert(words.take(f.single_words()) =~= counter_words(value));
    }
}

/// The words of members that fit the format are as many as the format says, and
/// mean those members.
pub proof fn lemma_entries_read_back(entries: Seq<EntryModel>, f: ReadFormat)
    requires
        forall|i: int| 0 <= i < entries.len() ==> entry_in_format(#[trigger] entries[i], f),
    ensures
        entries_words(entries).len() == entries.len() * f.element_words(),
        entries_model(entries_words(entries), f) == entries,
    decreases entries.len(),
{
    let el = f.element_words();
    assert(el == 1 || el == 2 || el == 3);
    let words = entries_words(entries);
    if entries.len() == 0 {
        assert(entries_model(words, f) =~= entries);
    } else {
        let front = entries.drop_last();
        let last = entries.last();
        lemma_entries_read_back(front, f);
        assert(entry_in_format(last, f));
        assert(entry_words(last).len() == el);
        let k = front.len() as int;
        assert(words.len() == (k + 1) * el);
        assert(words.len() as int / el == k + 1);
        lemma_entries_split(words, f, k);
        assert(words.take(k * el) =~= entries_words(front));
        assert(words.skip(k * el) =~= entry_words(last));
        let tail = entry_words(last);
        assert(element(tail, f, 0) =~= tail);
        assert(entry_model(tail, f) =~= last);
        assert(entries_model(tail, f) =~= seq![last]);
        let model = entries_model(words, f);
        assert(model =~= model.take(k) + model.skip(k));
        assert(model =~= entries);
    }
}

/// Whole elements are the words of what they mean.
pub proof fn lemma_entries_words_kept(words: Seq<u64>, f: ReadFormat, n: int)
    requires
        n >= 0,
        words.len() == n * f.element_words(),
    ensures
        entries_model(words, f).len() == n,
        forall|i: int|
            0 <= i < n ==> entry_in_format(#[trigger] entries_model(words, f)[i], f),
        entries_words(entries_model(words, f)) == words,
    decreases n,
{
    let el = f.element_words();
    assert(el == 1 || el == 2 || el == 3);
    assert(words.len() as int / el == n);
    let model = entries_model(words, f);
    if n == 0 {
        assert(entries_words(model) =~= words);
    } else {
        lemma_entries_split(words, f, n - 1);
        let front = words.take((n - 1) * el);
        lemma_entries_words_kept(front, f, n - 1);
        assert(model.drop_last() =~= entries_model(front, f));
        lemma_element_bounds(words, f, n - 1);
        let tail = element(words, f, n - 1);
        assert(tail.len() == el);
        assert(entry_words(entry_model(tail, f)) =~= tail);
        assert(words =~= front + tail);
    }
}

/// What the kernel writes for a group is what is read from it, whatever follows in
/// the buffer.
pub proof fn law_group_read_back(group: GroupModel, rest: Seq<u64>)
    requires
        group_in_format(group),
        group.read_format.is_supported(),
        group.read_format.has(ReadFormat::group()),
        group.entries.len() * group.read_format.element_words() <= usize::MAX,
    ensures
        group_words(group).len() == group_size(group.read_format, group.entries.len() as int),
        group_parse(group_words(group) + rest, group.read_format) == Ok::<_, ParseError>(group),
{
    let f = group.read_format;
    let n = group.entries.len() as int;
    let el = f.element_words();
    assert(el == 1 || el == 2 || el == 3);
    lemma_entries_read_back(group.entries, f);
    let words = group_words(group) + rest;
    assert(words[0] == n);
    assert(words.subrange(f.prefix_words(), f.prefix_words() + n * el) =~= entries_words(
        group.entries,
    ));
    assert(group_model(words, f, n * el) =~= group);
}

/// What is read from a group determines the words that were read.
pub proof fn law_group_words_kept(words: Seq<u64>, f: ReadFormat)
    requires
        words.len() > 0 ==> words[0] <= usize::MAX,
    ensures
        group_parse(words, f) matches Ok(group) ==> {
            &&& group_in_format(group)
            &&& group.read_format == f
            &&& group.entries.len() == words[0]
            &&& words.take(group_size(f, group.entries.len() as int)) == group_words(group)
        },
{
    if let Ok(group) = group_parse(words, f) {
        let n = words[0] as int;
        let el = f.element_words();
        let elements = words.subrange(f.prefix_words(), f.prefix_words() + n * el);
        lemma_entries_words_kept(elements, f, n);
        assert(words.take(group_size(f, n)) =~= group_words(group));
    }
}

/// No words can be read both as a lone counter and as a group in the same format.
pub proof fn law_one_reading(words: Seq<u64>, f: ReadFormat)
    ensures
        counter_parse(words, f) is Err || group_parse(words, f) is Err,
{
}

/// A lone counter taken as a group of one is found in it unchanged.
pub proof fn law_lone_counter_in_group(value: CounterModel)
    requires
        counter_in_format(value),
        !value.read_format.has(ReadFormat::group()),
    ensures
        group_in_format(lone_group_model(value)),
        lone_group_model(value).entries.len() == 1,
        member_model(lone_group_model(value), lone_group_model(value).entries[0]) == value,
{
    lemma_plus_group(value.read_format);
    lemma_group_undone(value.read_format);
    lemma_minus_group(lone_group_model(value).read_format);
    assert(member_model(lone_group_model(value), lone_group_model(value).entries[0]) =~= value);
}

/// The values of a member of a group are those of its entry, with the times of the
/// group: its count, its id and its lost samples are its own.
pub proof fn law_member_keeps_values(group: GroupModel, i: int)
    requires
        group_in_format(group),
        0 <= i < group.entries.len(),
    ensures
        counter_in_format(member_model(group, group.entries[i])),
        member_model(group, group.entries[i]).value == group.entries[i].value,
        member_model(group, group.entries[i]).id == group.entries[i].id,
        member_model(group, group.entries[i]).lost == group.entries[i].lost,
        member_model(group, group.entries[i]).time_enabled == group.time_enabled,
        member_model(group, group.entries[i]).time_running == group.time_running,
        !member_model(group, group.entries[i]).read_format.has(ReadFormat::group()),
{
    lemma_minus_group(group.read_format);
    assert(entry_in_format(group.entries[i], group.read_format));
}

/// A member is found by its id if and only if one has it, and it is the first that
/// does.
pub proof fn law_first_with_id(entries: Seq<EntryModel>, id: u64, from: int)
    requires
        from >= 0,
    ensures
        match position_of_id(entries, id, from) {
            Some(i) => {
                &&& from <= i < entries.len()
                &&& entries[i].id == Some(id)
                &&& forall|j: int| from <= j < i ==> (#[trigger] entries[j]).id != Some(id)
            },
            None => forall|j: int|
                from <= j < entries.len() ==> (#[trigger] entries[j]).id != Some(id),
        },
    decreases entries.len() - from,
{
    if from < entries.len() && entries[from].id != Some(id) {
        law_first_with_id(entries, id, from + 1);
    }
}

/// A group that is read without ids finds no member by its id.
pub proof fn law_no_ids_no_member(words: Seq<u64>, f: ReadFormat, id: u64)
    requires
        !f.has(ReadFormat::id()),
    ensures
        group_parse(words, f) matches Ok(group) ==> position_of_id(group.entries, id, 0) is None,
{
    if let Ok(group) = group_parse(words, f) {
        law_first_with_id(group.entries, id, 0);
    }
}

/// Every member of a group that is read with ids has one.
pub proof fn law_ids_present(words: Seq<u64>, f: ReadFormat)
    requires
        f.has(ReadFormat::id()),
    ensures
        group_parse(words, f) matches Ok(group) ==> all_have_ids(group.entries),
{
}

/// A counter that is read alone in a supported format delivers no more words than
/// its buffer holds, and as many only in the format with all flags but `GROUP`.
pub proof fn law_single_buffer_suffices(f: ReadFormat)
    requires
        f.is_supported(),
        !f.has(ReadFormat::group()),
    ensures
        f.single_words() <= ReadFormat::MAX_NON_GROUP_SIZE,
        f.single_words() == ReadFormat::MAX_NON_GROUP_SIZE <==> f.bits == 31 - 8,
{
    let b = f.bits;
    assert(b & !31u64 == 0 && b & 8 != 8 && b & 1 == 1 && b & 2 == 2 && b & 4 == 4 && b & 16 == 16
        ==> b == 23) by (bit_vector);
    assert(23u64 & 1 == 1 && 23u64 & 2 == 2 && 23u64 & 4 == 4 && 23u64 & 16 == 16) by (bit_vector);
}

/// What the kernel writes for a counter that is read alone is what the read of the
/// counter comes to, whatever it writes after that.
pub proof fn law_single_read_delivers(
    c: CounterState,
    b: BufferModel,
    value: CounterModel,
    len: usize,
)
    requires
        counter_in_format(value),
        value.read_format == c.read_format,
        c.read_format.is_supported(),
        !c.read_format.has(ReadFormat::group()),
        len % 8 == 0,
        counter_words(value).len() <= len as int / 8 <= b.words.len(),
        b.words.take(counter_words(value).len() as int) == counter_words(value),
    ensures
        full_fault(c, b, Ok(len)) is None,
        full_transition(c, b, Ok(len)).step == Step::Done(Ok::<_, Error>(value)),
        whole_transition(c, b, Ok(len)).step == Step::Done(
            Ok::<_, Error>(lone_group_model(value)),
        ),
{
    let written = counter_words(value);
    let delivered = b.words.take(len as int / 8);
    let rest = delivered.skip(written.len() as int);
    assert(delivered =~= written + rest) by {
        assert forall|i: int| 0 <= i < written.len() implies delivered[i] == written[i] by {
            assert(b.words.take(written.len() as int)[i] == b.words[i]);
        }
    }
    law_counter_read_back(value, rest);
}

/// What the kernel writes for a group is what the read of the group comes to, and
/// what the read of a member of it comes to is that member, whatever it writes after
/// that.
pub proof fn law_group_read_delivers(
    c: CounterState,
    b: BufferModel,
    group: GroupModel,
    len: usize,
)
    requires
        group_in_format(group),
        group.read_format == c.read_format,
        c.read_format.is_supported(),
        c.read_format.has(ReadFormat::group()),
        group.entries.len() <= u32::MAX,
        group_words(group).len() <= len as int / 8,
        group_words(group).len() <= b.words.len(),
        b.words.take(group_words(group).len() as int) == group_words(group),
    ensures
        read_fault(c, b, Ok(len)) is None,
        whole_transition(c, b, Ok(len)).step == Step::Done(Ok::<_, Error>(group)),
        whole_transition(c, b, Ok(len)).counter.member_count == group.entries.len(),
        position_of_id(group.entries, c.id, 0) matches Some(i) ==> {
            &&& full_fault(c, b, Ok(len)) is None
            &&& full_transition(c, b, Ok(len)).step == Step::Done(
                Ok::<_, Error>(member_model(group, group.entries[i])),
            )
        },
        position_of_id(group.entries, c.id, 0) is None ==> full_fault(c, b, Ok(len)) == Some(
            Fault::NoEntry,
        ),
{
    let f = c.read_format;
    let written = group_words(group);
    lemma_entries_read_back(group.entries, f);
    assert(written.len() == f.prefix_words() + group.entries.len() * f.element_words());
    let kept = truncated(b, len).words;
    let rest = kept.skip(written.len() as int);
    assert(kept =~= written + rest) by {
        assert forall|i: int| 0 <= i < written.len() implies kept[i] == written[i] by {
            assert(b.words.take(written.len() as int)[i] == b.words[i]);
        }
    }
    law_group_read_back(group, rest);
}

/// The buffer after it turned out too small `k` times.
pub open spec fn grown_times(b: BufferModel, f: ReadFormat, k: nat) -> BufferModel
    decreases k,
{
    if k == 0 {
        b
    } else {
        grown(grown_times(b, f, (k - 1) as nat), f)
    }
}

/// Whether the buffer is of a size that one for reading a group has: it holds a word
/// for each member that it was made for, and is no larger than one that has grown
/// for as many members.
pub open spec fn is_group_buffer(b: BufferModel, f: ReadFormat) -> bool {
    &&& b.elements >= 1
    &&& b.words.len() >= b.elements
    &&& b.words.len() <= group_size(f, b.elements) * 8
}

/// The buffer that a read of a group begins with can grow as a group buffer does.
pub proof fn law_first_buffer(c: CounterState)
    requires
        c.read_format.has(ReadFormat::group()),
    ensures
        is_group_buffer(first_buffer(c), c.read_format),
{
    let el = c.read_format.element_words();
    assert(el == 1 || el == 2 || el == 3);
}

/// A buffer that turned out too small is followed by one that is larger, made for
/// twice the members, and that keeps what it held.
pub proof fn law_buffer_grows(b: BufferModel, f: ReadFormat)
    requires
        is_group_buffer(b, f),
    ensures
        is_group_buffer(grown(b, f), f),
        grown(b, f).words.len() > b.words.len(),
        grown(b, f).words.len() == group_size(f, grown(b, f).elements) * 8,
        grown(b, f).words.take(b.words.len() as int) == b.words,
{
    let el = f.element_words();
    assert(el == 1 || el == 2 || el == 3);
    assert(grown(b, f).words.take(b.words.len() as int) =~= b.words);
}

/// However many words a group takes up, a buffer that is expanded as long as it is
/// too small holds them in the end.
pub proof fn law_buffer_suffices_in_the_end(b: BufferModel, f: ReadFormat, size: nat)
    requires
        is_group_buffer(b, f),
    ensures
        exists|k: nat| (#[trigger] grown_times(b, f, k)).words.len() >= size,
    decreases size,
{
    if size <= b.words.len() {
        assert(grown_times(b, f, 0).words.len() >= size);
    } else {
        law_buffer_suffices_in_the_end(b, f, (size - 1) as nat);
        let k = choose|k: nat| (#[trigger] grown_times(b, f, k)).words.len() >= size - 1;
        lemma_grown_times(b, f, k);
        law_buffer_grows(grown_times(b, f, k), f);
        assert(grown_times(b, f, (k + 1) as nat) == grown(grown_times(b, f, k), f));
        assert(grown_times(b, f, (k + 1) as nat).words.len() >= size);
    }
}

/// Growing keeps a group buffer one.
pub proof fn lemma_grown_times(b: BufferModel, f: ReadFormat, k: nat)
    requires
        is_group_buffer(b, f),
    ensures
        is_group_buffer(grown_times(b, f, k), f),
    decreases k,
{
    if k > 0 {
        lemma_grown_times(b, f, (k - 1) as nat);
        law_buffer_grows(grown_times(b, f, (k - 1) as nat), f);
    }
}

/// What the kernel does when it is asked to read the words `written` into the buffer:
/// it refuses if they do not fit, and otherwise writes them to its front and says how
/// many bytes they are.
pub open spec fn kernel_read(b: BufferModel, written: Seq<u64>) -> (
    BufferModel,
    Result<usize, Error>,
) {
    if written.len() > b.words.len() {
        (b, Err(Error::Os(no_space_code())))
    } else {
        (
            BufferModel {
                elements: b.elements,
                words: written + b.words.skip(written.len() as int),
            },
            Ok((8 * written.len()) as usize),
        )
    }
}

/// What reading a group into the buffer comes to, if the kernel has the words `written`
/// for it and is asked for them at most `tries` times: `None` if that is not enough, or
/// if a fault stands in the way.
pub open spec fn group_run(
    c: CounterState,
    b: BufferModel,
    written: Seq<u64>,
    tries: nat,
) -> Option<Transition<GroupModel>>
    decreases tries,
{
    let (buffer, outcome) = kernel_read(b, written);
    if tries == 0 || read_fault(c, buffer, outcome) is Some {
        None
    } else {
        let t = whole_transition(c, buffer, outcome);
        if t.step is Again {
            group_run(t.counter, t.buffer, written, (tries - 1) as nat)
        } else {
            Some(t)
        }
    }
}

/// Whether the group has been read, and its members have been counted.
pub open spec fn has_read(c: CounterState, t: Transition<GroupModel>, group: GroupModel) -> bool {
    &&& t.step == Step::Done(Ok::<_, Error>(group))
    &&& t.counter == (CounterState { member_count: group.entries.len() as u32, ..c })
}

/// A buffer that holds the group is enough for reading it with one try.
pub proof fn lemma_group_read_at_once(c: CounterState, b: BufferModel, group: GroupModel)
    requires
        group_in_format(group),
        group.read_format == c.read_format,
        c.read_format.is_supported(),
        c.read_format.has(ReadFormat::group()),
        group.entries.len() <= u32::MAX,
        fits(group_words(group).len() as int),
        group_words(group).len() <= b.words.len(),
    ensures
        group_run(c, b, group_words(group), 1) matches Some(t) && has_read(c, t, group),
{
    let written = group_words(group);
    let (buffer, outcome) = kernel_read(b, written);
    assert(buffer.words.take(written.len() as int) =~= written);
    law_group_read_delivers(c, buffer, group, outcome.unwrap());
    reveal_with_fuel(group_run, 2);
}

/// However many members have joined a group since it was last read, reading it gives
/// what the kernel writes for it, and leaves the counter with the count of its members:
/// the buffer is expanded until the read completes.
///
/// The buffer may become up to 16 times as large as what the kernel writes, so that much
/// memory must be addressable.
pub proof fn law_group_read_completes(c: CounterState, group: GroupModel)
    requires
        group_in_format(group),
        group.read_format == c.read_format,
        c.read_format.is_supported(),
        c.read_format.has(ReadFormat::group()),
        group.entries.len() <= u32::MAX,
        fits(16 * group_words(group).len() as int),
    ensures
        exists|tries: nat|
            (#[trigger] group_run(c, first_buffer(c), group_words(group), tries)) matches Some(t)
                && has_read(c, t, group),
{
    law_first_buffer(c);
    let el = c.read_format.element_words();
    assert(el == 1 || el == 2 || el == 3);
    lemma_group_read_completes(c, first_buffer(c), group);
}

/// Reading a group completes from any buffer that is of the size of a group buffer and
/// does not grow too fast.
proof fn lemma_group_read_completes(c: CounterState, b: BufferModel, group: GroupModel)
    requires
        group_in_format(group),
        group.read_format == c.read_format,
        c.read_format.is_supported(),
        c.read_format.has(ReadFormat::group()),
        group.entries.len() <= u32::MAX,
        fits(16 * group_words(group).len() as int),
        is_group_buffer(b, c.read_format),
        grown_size(c.read_format, b.elements) <= 16 * b.words.len(),
    ensures
        exists|tries: nat|
            (#[trigger] group_run(c, b, group_words(group), tries)) matches Some(t) && has_read(
                c,
                t,
                group,
            ),
    decreases 16 * group_words(group).len() - b.words.len(),
{
    let f = c.read_format;
    let written = group_words(group);
    if written.len() <= b.words.len() {
        lemma_group_read_at_once(c, b, group);
    } else {
        let el = f.element_words();
        assert(el == 1 || el == 2 || el == 3);
        law_buffer_grows(b, f);
        let twice = grown(b, f).elements;
        assert((2 * twice) * el == 2 * (twice * el)) by (nonlinear_arith);
        assert(grown_size(f, twice) <= 2 * grown(b, f).words.len());
        lemma_group_read_completes(c, grown(b, f), group);
        let tries = choose|tries: nat|
            (#[trigger] group_run(c, grown(b, f), written, tries)) matches Some(t) && has_read(
                c,
                t,
                group,
            );
        assert(group_run(c, b, written, (tries + 1) as nat) == group_run(
            c,
            grown(b, f),
            written,
            tries,
        ));
    }
}

/// A group whose members the counter knows the correct count of, as it does after it
/// has read them, is read with one try.
pub proof fn law_known_group_read_at_once(c: CounterState, group: GroupModel)
    requires
        group_in_format(group),
        group.read_format == c.read_format,
        c.read_format.is_supported(),
        c.read_format.has(ReadFormat::group()),
        c.member_count == group.entries.len(),
        fits(group_words(group).len() as int),
    ensures
        group_run(c, first_buffer(c), group_words(group), 1) matches Some(t) && has_read(
            c,
            t,
            group,
        ),
{
    let el = c.read_format.element_words();
    assert(el == 1 || el == 2 || el == 3);
    lemma_entries_read_back(group.entries, c.read_format);
    lemma_group_read_at_once(c, first_buffer(c), group);
}

/// A read of a group that completes leaves the counter with the correct count of
/// members: the buffer that the next read begins with holds all of them.
pub proof fn law_next_read_fits(c: CounterState, b: BufferModel, outcome: Result<usize, Error>)
    requires
        c.read_format.has(ReadFormat::group()),
        read_fault(c, b, outcome) is None,
    ensures
        whole_transition(c, b, outcome).step matches Step::Done(Ok(group)) ==> {
            &&& whole_transition(c, b, outcome).counter.member_count == group.entries.len()
            &&& first_size(whole_transition(c, b, outcome).counter) >= group_size(
                c.read_format,
                group.entries.len() as int,
            )
            &&& group.entries.len() > 0 ==> first_size(whole_transition(c, b, outcome).counter)
                == group_size(c.read_format, group.entries.len() as int)
        },
{
    let el = c.read_format.element_words();
    assert(el == 1 || el == 2 || el == 3);
}

/// The buffer that a read of a group begins with after a member was added holds that
/// member too.
pub proof fn law_new_member_has_room(c: CounterState)
    requires
        c.read_format.has(ReadFormat::group()),
        c.member_count < u32::MAX,
    ensures
        first_size(CounterState { member_count: (c.member_count + 1) as u32, ..c }) == group_size(
            c.read_format,
            c.member_count + 1,
        ),
{
}

/// A read leaves a counter as it is, but for the count of members of its group,
/// which only a completed read of the group changes.
pub proof fn law_reading_keeps_counter(
    c: CounterState,
    b: BufferModel,
    outcome: Result<usize, Error>,
)
    ensures
        whole_transition(c, b, outcome).counter == (CounterState {
            member_count: whole_transition(c, b, outcome).counter.member_count,
            ..c
        }),
        full_transition(c, b, outcome).counter == whole_transition(c, b, outcome).counter,
        full_transition(c, b, outcome).buffer == whole_transition(c, b, outcome).buffer,
        !(c.read_format.has(ReadFormat::group()) && whole_transition(
            c,
            b,
            outcome,
        ).step matches Step::Done(Ok(_))) ==> whole_transition(c, b, outcome).counter == c,
{
}

/// What is read of a counter is what a read of its whole group says of it. If the
/// counter is read alone, the group is that counter.
pub proof fn law_counter_agrees_with_group(
    c: CounterState,
    b: BufferModel,
    outcome: Result<usize, Error>,
)
    requires
        full_fault(c, b, outcome) is None,
    ensures
        match full_transition(c, b, outcome).step {
            Step::Again => whole_transition(c, b, outcome).step is Again,
            Step::Done(Err(e)) => whole_transition(c, b, outcome).step == Step::Done(
                Err::<GroupModel, _>(e),
            ),
            Step::Done(Ok(value)) => {
                &&& whole_transition(c, b, outcome).step matches Step::Done(Ok(group))
                &&& exists|i: int|
                    {
                        &&& 0 <= i < group.entries.len()
                        &&& value == member_model(group, #[trigger] group.entries[i])
                        &&& c.read_format.has(ReadFormat::group()) ==> value.id == Some(c.id)
                    }
            },
        },
{
    let whole = whole_transition(c, b, outcome);
    if let Step::Done(Ok(value)) = full_transition(c, b, outcome).step {
        if c.read_format.has(ReadFormat::group()) {
            let group = whole.step->Done_0.unwrap();
            law_first_with_id(group.entries, c.id, 0);
            let i = position_of_id(group.entries, c.id, 0).unwrap();
            lemma_minus_group(group.read_format);
            assert(value == member_model(group, group.entries[i]));
            assert(group.entries[i].id == Some(c.id));
        } else {
            law_lone_counter_in_group(value);
            let group = lone_group_model(value);
            assert(value == member_model(group, group.entries[0]));
        }
    }
}

/// The count that is read by itself, that which is read with the times, and that
/// which is read with everything else are the same.
pub proof fn law_counts_agree(step: Step<CounterModel>)
    ensures
        step matches Step::Done(Ok(value)) ==> {
            &&& value_step(step) == Step::Done(Ok::<_, Error>(value.value))
            &&& count_and_time_step(step) matches Step::Done(Ok(both)) ==> {
                &&& both.count == value.value
                &&& value.time_enabled == Some(both.time_enabled)
                &&& value.time_running == Some(both.time_running)
            }
        },
        step is Again <==> value_step(step) is Again,
        step is Again <==> count_and_time_step(step) is Again,
        step matches Step::Done(Err(e)) ==> value_step(step) == Step::Done(Err::<u64, _>(e))
            && count_and_time_step(step) == Step::Done(Err::<CountAndTime, _>(e)),
{
}

/// The count and the times can be read together if and only if the format asks for
/// both times.
pub proof fn law_times_need_flags(value: CounterModel)
    requires
        counter_in_format(value),
    ensures
        count_and_time(value) is Ok <==> value.read_format.has(ReadFormat::total_time_enabled())
            && value.read_format.has(ReadFormat::total_time_running()),
{
}

/// The count and the times of a counter that was opened with the format that a
/// builder begins with can be read together.
pub proof fn law_default_counter_has_times(words: Seq<u64>)
    ensures
        counter_parse(words, default_request().read_format) matches Ok(value) ==> count_and_time(
            value,
        ) is Ok,
{
    assert(1u64 | 2 == 3 && 3u64 & 1 == 1 && 3u64 & 2 == 2) by (bit_vector);
}

/// A read that delivers nothing fails as one of a counter that could not be
/// scheduled, and any failure of a read is passed on, but for a buffer that is too
/// small for a group.
pub proof fn law_failures_passed_on(c: CounterState, b: BufferModel, e: Error)
    ensures
        full_transition(c, b, Ok(0)).step == Step::Done(
            Err::<CounterModel, _>(Error::Unscheduled),
        ),
        whole_transition(c, b, Ok(0)).step == Step::Done(Err::<GroupModel, _>(Error::Unscheduled)),
        if c.read_format.has(ReadFormat::group()) && e == Error::Os(no_space_code()) {
            &&& full_transition(c, b, Err(e)).step is Again
            &&& whole_transition(c, b, Err(e)).step is Again
            &&& whole_transition(c, b, Err(e)).buffer == grown(b, c.read_format)
        } else {
            &&& full_transition(c, b, Err(e)).step == Step::Done(Err::<CounterModel, _>(e))
            &&& whole_transition(c, b, Err(e)).step == Step::Done(Err::<GroupModel, _>(e))
        },
{
}

/// A read whose words do not fit the format of the counter, or that is made in a format
/// that is not supported, fails with the code `ENOSPC`.
pub proof fn law_mismatch_is_no_space(c: CounterState, b: BufferModel, len: usize)
    requires
        len != 0,
        read_fault(c, b, Ok(len)) is None,
        if c.read_format.has(ReadFormat::group()) {
            group_parse(truncated(b, len).words, c.read_format) is Err
        } else {
            counter_parse(truncated(b, len).words, c.read_format) is Err
        },
    ensures
        full_fault(c, b, Ok(len)) is None,
        full_transition(c, b, Ok(len)).step matches Step::Done(Err(e)) && e.code() == Some(
            no_space_code(),
        ),
        whole_transition(c, b, Ok(len)).step matches Step::Done(Err(e)) && e.code() == Some(
            no_space_code(),
        ),
{
}

/// A counter that is read alone fails with the code `ENOSPC` if its format is not
/// supported, or if fewer words were delivered than its format asks for.
pub proof fn law_short_single_read_is_no_space(c: CounterState, b: BufferModel, len: usize)
    requires
        len != 0,
        !c.read_format.has(ReadFormat::group()),
        read_fault(c, b, Ok(len)) is None,
        !c.read_format.is_supported() || len as int / 8 < c.read_format.single_words(),
    ensures
        full_fault(c, b, Ok(len)) is None,
        full_transition(c, b, Ok(len)).step matches Step::Done(Err(e)) && e.code() == Some(
            no_space_code(),
        ),
{
    law_mismatch_is_no_space(c, b, len);
}

/// A group fails with the code `ENOSPC` if its format is not supported, or if fewer words
/// were delivered than its members take up.
pub proof fn law_short_group_read_is_no_space(c: CounterState, b: BufferModel, len: usize)
    requires
        len != 0,
        c.read_format.has(ReadFormat::group()),
        read_fault(c, b, Ok(len)) is None,
        len as int / 8 <= b.words.len(),
        !c.read_format.is_supported() || len as int / 8 < c.read_format.prefix_words() || (
        b.words[0] <= usize::MAX && len as int / 8 < group_size(
            c.read_format,
            b.words[0] as int,
        )),
    ensures
        full_fault(c, b, Ok(len)) is None,
        full_transition(c, b, Ok(len)).step matches Step::Done(Err(e)) && e.code() == Some(
            no_space_code(),
        ),
        whole_transition(c, b, Ok(len)).step matches Step::Done(Err(e)) && e.code() == Some(
            no_space_code(),
        ),
{
    law_mismatch_is_no_space(c, b, len);
}

/// A group that was read through a `Group` lists all members but that which leads
/// it.
pub proof fn law_group_not_listed(group: GroupModel)
    ensures
        (GroupReading { group, skip_first: false }).listed() == group.entries,
        group.entries.len() > 0 ==> (GroupReading { group, skip_first: true }).listed().len()
            == group.entries.len() - 1,
        forall|i: int|
            0 <= i < group.entries.len() - 1 ==> (#[trigger] (GroupReading {
                group,
                skip_first: true,
            }).listed()[i]) == group.entries[i + 1],
{
}

/// Counts say of a group what the values say that are read from it in the format
/// that a group is opened with, and list the same members.
pub proof fn law_counts_agree_with_group(words: Seq<u64>)
    requires
        is_counts(words),
        words.len() <= usize::MAX,
    ensures
        group_parse(words, group_request().read_format) matches Ok(group) && {
            &&& group.time_enabled == Some(counts_model(words).time_enabled)
            &&& group.time_running == Some(counts_model(words).time_running)
            &&& group.entries == counts_model(words).entries
            &&& (GroupReading { group, skip_first: true }).listed() == members(
                counts_model(words).entries,
            )
        },
{
    lemma_group_request();
    let f = group_request().read_format;
    let n = words[0] as int;
    assert(f.element_words() == 2 && f.prefix_words() == 3);
    let elements = words.subrange(3, 3 + n * 2);
    let model = entries_model(elements, f);
    assert forall|i: int| 0 <= i < n implies model[i] == counts_model(words).entries[i] by {
        assert(element(elements, f, i)[0] == words[3 + 2 * i]);
        assert(element(elements, f, i)[1] == words[4 + 2 * i]);
    }
    assert(model =~= counts_model(words).entries);
}

/// A flag is in a format if the bit is set that the kernel has for it, and a format is
/// supported if no other bits are set.
pub proof fn law_flags_are_bits(f: ReadFormat)
    ensures
        f.has(ReadFormat::total_time_enabled()) <==> f.bits % 2 == 1,
        f.has(ReadFormat::total_time_running()) <==> f.bits / 2 % 2 == 1,
        f.has(ReadFormat::id()) <==> f.bits / 4 % 2 == 1,
        f.has(ReadFormat::group()) <==> f.bits / 8 % 2 == 1,
        f.has(ReadFormat::lost()) <==> f.bits / 16 % 2 == 1,
        f.is_supported() <==> f.bits < 32,
{
    let b = f.bits;
    assert((b & 1 == 1) == (b % 2 == 1)) by (bit_vector);
    assert((b & 2 == 2) == (b / 2 % 2 == 1)) by (bit_vector);
    assert((b & 4 == 4) == (b / 4 % 2 == 1)) by (bit_vector);
    assert((b & 8 == 8) == (b / 8 % 2 == 1)) by (bit_vector);
    assert((b & 16 == 16) == (b / 16 % 2 == 1)) by (bit_vector);
    assert((b & !31u64 == 0) == (b < 32)) by (bit_vector);
}

/// Formats combine as sets of flags do.
pub proof fn law_formats_are_sets(f: ReadFormat, g: ReadFormat, h: ReadFormat)
    ensures
        f.has(g) <==> f.plus(g) == f,
        f.has(g) <==> g.minus(f).bits == 0,
        f.plus(g).has(f),
        f.plus(g).has(g),
        h.has(f) && h.has(g) ==> h.has(f.plus(g)),
        f.has(f.minus(g)),
        f.minus(g).plus(g) == f.plus(g),
        f.minus(g).minus(g) == f.minus(g),
        f.plus(g).minus(g) == f.minus(g),
        h.has(g) && h.minus(g) == h ==> g.bits == 0,
        (ReadFormat { bits: 0 }).plus(f) == f,
        (ReadFormat { bits: 0 }).minus(f).bits == 0,
        f.minus(ReadFormat { bits: 0 }) == f,
{
    let a = f.bits;
    let b = g.bits;
    let c = h.bits;
    assert(((a & b == b) == (a | b == a)) && ((a & b == b) == (b & !a == 0)) && (a | b) & a == a && (
    a | b) & b == b && (c & a == a && c & b == b ==> c & (a | b) == (a | b)) && a & (a & !b) == (a
        & !b) && (a & !b) | b == (a | b) && (a & !b) & !b == (a & !b) && (a | b) & !b == (a & !b)
        && (c & b == b && c & !b == c ==> b == 0) && 0u64 | a == a && 0u64 & !a == 0 && a & !0u64
        == a) by (bit_vector);
}

/// The operators on formats are union and difference.
pub proof fn law_format_operators(f: ReadFormat, g: ReadFormat)
    ensures
        ReadFormat::obeys_bitor_spec() && f.bitor_req(g),
        f.bitor_spec(g).bits == f.bits | g.bits,
        ReadFormat::obeys_sub_spec() && f.sub_req(g),
        f.sub_spec(g).bits == f.bits & !g.bits,
{
}

/// Words cannot be taken apart as those of a lone counter if the format says that they
/// are a group's, if the format is not supported, or if they end before the values do,
/// and the first of these that holds is the error.
pub proof fn law_counter_parse_errors(words: Seq<u64>, value: CounterModel)
    requires
        counter_in_format(value),
    ensures
        value.read_format.has(ReadFormat::group()) ==> counter_parse(words, value.read_format)
            == Err::<CounterModel, _>(ParseError::GroupSet),
        !value.read_format.has(ReadFormat::group()) && !value.read_format.is_supported()
            ==> counter_parse(words, value.read_format) == Err::<CounterModel, _>(
            ParseError::UnsupportedFlags,
        ),
        !value.read_format.has(ReadFormat::group()) && value.read_format.is_supported()
            && words.len() < counter_words(value).len() ==> counter_parse(words, value.read_format)
            == Err::<CounterModel, _>(ParseError::UnexpectedEnd),
{
}

/// Words cannot be taken apart as those of a group if the format says that they are a
/// lone counter's, or if the format is not supported.
pub proof fn law_group_format_errors(words: Seq<u64>, f: ReadFormat)
    ensures
        !f.has(ReadFormat::group()) ==> group_parse(words, f) == Err::<GroupModel, _>(
            ParseError::GroupNotSet,
        ),
        f.has(ReadFormat::group()) && !f.is_supported() ==> group_parse(words, f) == Err::<
            GroupModel,
            _,
        >(ParseError::UnsupportedFlags),
{
}

/// Words that break off before the end of a group cannot be taken apart.
pub proof fn law_short_group_is_an_error(group: GroupModel, n: int)
    requires
        group_in_format(group),
        group.read_format.is_supported(),
        group.read_format.has(ReadFormat::group()),
        group.entries.len() * group.read_format.element_words() <= usize::MAX,
        0 <= n < group_words(group).len(),
    ensures
        group_parse(group_words(group).take(n), group.read_format) == Err::<GroupModel, _>(
            ParseError::UnexpectedEnd,
        ),
{
    let f = group.read_format;
    let el = f.element_words();
    assert(el == 1 || el == 2 || el == 3);
    lemma_entries_read_back(group.entries, f);
    assert(group_words(group)[0] == group.entries.len());
}

/// Members that take up more words than can be counted in a `usize` are an error of their
/// own.
pub proof fn law_too_many_members(words: Seq<u64>, f: ReadFormat)
    requires
        f.is_supported(),
        f.has(ReadFormat::group()),
        words.len() >= group_size(f, 0),
        words[0] <= usize::MAX,
        group_size(f, words[0] as int) - group_size(f, 0) > usize::MAX,
    ensures
        group_parse(words, f) == Err::<GroupModel, _>(ParseError::TooManyElements),
{
}

/// The number of members is that of the first word as far as a `usize` holds it.
pub proof fn law_member_number_is_usize(words: Seq<u64>, f: ReadFormat)
    requires
        words.len() > 0,
    ensures
        group_parse(words, f) == group_parse(words.update(0, (words[0] as usize) as u64), f),
{
    let other = words.update(0, (words[0] as usize) as u64);
    assert(other[0] as usize == words[0] as usize);
    if let Ok(group) = group_parse(words, f) {
        let n = announced_words(words, f);
        let p = f.prefix_words();
        assert(words.subrange(p, p + n) =~= other.subrange(p, p + n));
        assert(group_model(words, f, n) =~= group_model(other, f, n));
    }
}

/// The values of a member are those that the format of its group asks for, with zero for
/// one that its entry does not hold.
pub proof fn law_member_in_format(group: GroupModel, entry: EntryModel)
    ensures
        member_model(group, entry).read_format.plus(ReadFormat::group()) == group.read_format.plus(
            ReadFormat::group(),
        ),
        !member_model(group, entry).read_format.has(ReadFormat::group()),
        member_model(group, entry).value == entry.value,
        member_model(group, entry).time_enabled == group.time_enabled,
        member_model(group, entry).time_running == group.time_running,
        match member_model(group, entry).id {
            Some(id) => group.read_format.has(ReadFormat::id()) && (entry.id == Some(id) || (
            entry.id is None && id == 0)),
            None => !group.read_format.has(ReadFormat::id()),
        },
        match member_model(group, entry).lost {
            Some(lost) => group.read_format.has(ReadFormat::lost()) && (entry.lost == Some(lost) || (
            entry.lost is None && lost == 0)),
            None => !group.read_format.has(ReadFormat::lost()),
        },
{
    lemma_minus_group(group.read_format);
    law_formats_are_sets(group.read_format, ReadFormat::group(), ReadFormat::group());
}

/// A lone counter taken as a group has its values, and its entry is the only one.
pub proof fn law_lone_group_has_values(value: CounterModel)
    ensures
        lone_group_model(value).entries.len() == 1,
        lone_group_model(value).entries[0].value == value.value,
        lone_group_model(value).entries[0].id == value.id,
        lone_group_model(value).entries[0].lost == value.lost,
        lone_group_model(value).time_enabled == value.time_enabled,
        lone_group_model(value).time_running == value.time_running,
        lone_group_model(value).read_format.has(ReadFormat::group()),
        lone_group_model(value).read_format.minus(ReadFormat::group()) == value.read_format.minus(
            ReadFormat::group(),
        ),
{
    lemma_plus_group(value.read_format);
    law_formats_are_sets(value.read_format, ReadFormat::group(), ReadFormat::group());
}

/// What a read of a counter alone comes to: a failure is passed on, nothing at all means
/// that the counter could not be scheduled, and words that were delivered are taken apart.
pub proof fn law_single_read(c: CounterState, b: BufferModel, e: Error, len: usize)
    requires
        len as int / 8 <= b.words.len(),
    ensures
        single_result(c, b, Err(e)) == Err::<CounterModel, _>(e),
        single_result(c, b, Ok(0)) == Err::<CounterModel, _>(Error::Unscheduled),
        len != 0 ==> match counter_parse(b.words.subrange(0, len as int / 8), c.read_format) {
            Ok(value) => single_result(c, b, Ok(len)) == Ok::<_, Error>(value),
            Err(e) => single_result(c, b, Ok(len)) == Err::<CounterModel, _>(Error::Parse(e)),
        },
        !c.read_format.has(ReadFormat::group()) ==> {
            &&& full_transition(c, b, Ok(len)).step == Step::Done(single_result(c, b, Ok(len)))
            &&& full_transition(c, b, Err(e)).step == Step::Done(single_result(c, b, Err(e)))
        },
{
    assert(b.words.subrange(0, len as int / 8) =~= b.words.take(len as int / 8));
}

/// What a read of a group comes to: words that were delivered are taken apart, and no
/// others, and a mismatch is passed on as it is.
pub proof fn law_group_read(c: CounterState, b: BufferModel, e: Error, len: usize)
    requires
        len as int / 8 <= b.words.len(),
    ensures
        group_transition(c, b, Err(e)).step == if e == Error::Os(no_space_code()) {
            Step::Again
        } else {
            Step::Done(Err::<GroupModel, _>(e))
        },
        group_transition(c, b, Ok(0)).step == Step::Done(Err::<GroupModel, _>(Error::Unscheduled)),
        len != 0 ==> match group_parse(b.words.subrange(0, len as int / 8), c.read_format) {
            Ok(group) => group_transition(c, b, Ok(len)).step == Step::Done(Ok::<_, Error>(group)),
            Err(e) => group_transition(c, b, Ok(len)).step == Step::Done(
                Err::<GroupModel, _>(Error::Parse(e)),
            ),
        },
        c.read_format.has(ReadFormat::group()) ==> {
            &&& whole_transition(c, b, Ok(len)) == group_transition(c, b, Ok(len))
            &&& whole_transition(c, b, Err(e)) == group_transition(c, b, Err(e))
        },
{
    assert(b.words.subrange(0, len as int / 8) =~= b.words.take(len as int / 8));
}

/// A read of a group changes nothing of a counter but the count of members, and that only
/// to the number of members that were read.
pub proof fn law_group_read_counts_members(
    c: CounterState,
    b: BufferModel,
    outcome: Result<usize, Error>,
)
    requires
        group_fault(c, b, outcome) is None,
    ensures
        group_transition(c, b, outcome).counter.fd == c.fd,
        group_transition(c, b, outcome).counter.id == c.id,
        group_transition(c, b, outcome).counter.read_format == c.read_format,
        group_transition(c, b, outcome).counter.member_count == match group_transition(
            c,
            b,
            outcome,
        ).step {
            Step::Done(Ok(group)) => group.entries.len() as int,
            _ => c.member_count as int,
        },
{
}

/// A read leaves the buffer of a lone counter as it is. That of a group keeps the words
/// that were delivered, and all of them.
pub proof fn law_buffer_after_read(c: CounterState, b: BufferModel, len: usize, e: Error)
    requires
        len != 0,
        len as int / 8 <= b.words.len(),
    ensures
        group_transition(c, b, Ok(len)).buffer.elements == b.elements,
        group_transition(c, b, Ok(len)).buffer.words == b.words.subrange(0, len as int / 8),
        group_transition(c, b, Ok(0)).buffer == b,
        e != Error::Os(no_space_code()) ==> group_transition(c, b, Err(e)).buffer == b,
        !c.read_format.has(ReadFormat::group()) ==> {
            &&& whole_transition(c, b, Ok(len)).buffer == b
            &&& whole_transition(c, b, Ok(0)).buffer == b
            &&& whole_transition(c, b, Err(e)).buffer == b
        },
{
    assert(b.words.subrange(0, len as int / 8) =~= b.words.take(len as int / 8));
}

/// A read that delivers more than the buffer has room for keeps all words of the buffer.
pub proof fn law_long_read_keeps_buffer(b: BufferModel, len: usize)
    requires
        len as int / 8 > b.words.len(),
    ensures
        truncated(b, len) == b,
{
}

/// Going on after a read of a counter alone is impossible only if part of a word was
/// delivered, or more than the buffer holds.
pub proof fn law_single_faults(c: CounterState, b: BufferModel, len: usize, e: Error)
    ensures
        single_fault(b, Err(e)) is None,
        single_fault(b, Ok(len)) == Some(Fault::PartialWord) <==> len % 8 != 0,
        single_fault(b, Ok(len)) == Some(Fault::PastBuffer) <==> len % 8 == 0 && len > 8
            * b.words.len(),
        single_fault(b, Ok(len)) is None <==> len % 8 == 0 && len <= 8 * b.words.len(),
        !c.read_format.has(ReadFormat::group()) ==> {
            &&& read_fault(c, b, Ok(len)) == single_fault(b, Ok(len))
            &&& full_fault(c, b, Ok(len)) == single_fault(b, Ok(len))
            &&& read_fault(c, b, Err(e)) is None
            &&& full_fault(c, b, Err(e)) is None
        },
{
}

/// Going on after a read of a group is impossible only if the buffer cannot become larger,
/// or if the members cannot be counted, or, where one of them is wanted, if it is missing.
pub proof fn law_group_faults(c: CounterState, b: BufferModel, len: usize, e: Error)
    ensures
        group_fault(c, b, Err(e)) is Some <==> e == Error::Os(no_space_code()) && 8
            * group_size(c.read_format, 2 * b.elements) * 8 > isize::MAX,
        group_fault(c, b, Err(e)) is Some ==> group_fault(c, b, Err(e)) == Some(
            Fault::BufferTooLarge,
        ),
        match group_parse(truncated(b, len).words, c.read_format) {
            Ok(group) => group_fault(c, b, Ok(len)) is Some <==> group.entries.len() > u32::MAX,
            Err(_) => group_fault(c, b, Ok(len)) is None,
        },
        group_fault(c, b, Ok(len)) is Some ==> group_fault(c, b, Ok(len)) == Some(
            Fault::TooManyMembers,
        ),
        c.read_format.has(ReadFormat::group()) ==> {
            &&& read_fault(c, b, Ok(len)) == group_fault(c, b, Ok(len))
            &&& read_fault(c, b, Err(e)) == group_fault(c, b, Err(e))
            &&& full_fault(c, b, Err(e)) == group_fault(c, b, Err(e))
            &&& group_fault(c, b, Ok(len)) is Some ==> full_fault(c, b, Ok(len)) == group_fault(
                c,
                b,
                Ok(len),
            )
            &&& full_fault(c, b, Ok(len)) == Some(Fault::NoEntry) <==> group_fault(
                c,
                b,
                Ok(len),
            ) is None && (match group_transition(c, b, Ok(len)).step {
                Step::Done(Ok(group)) => forall|i: int|
                    0 <= i < group.entries.len() ==> (#[trigger] group.entries[i]).id != Some(c.id),
                _ => false,
            })
            &&& full_fault(c, b, Ok(len)) matches Some(fault) ==> fault == Fault::NoEntry || fault
                == Fault::TooManyMembers
        },
{
    if let Step::Done(Ok(group)) = group_transition(c, b, Ok(len)).step {
        law_first_with_id(group.entries, c.id, 0);
    }
}

/// The first buffer holds nothing yet. That of a group has room for each member that the
/// counter knows of, and for one if it knows of none; that of a lone counter has room for
/// all that a format can ask for.
pub proof fn law_first_buffer_is_empty(c: CounterState)
    ensures
        first_buffer(c).words.len() == first_size(c),
        forall|i: int| 0 <= i < first_size(c) ==> (#[trigger] first_buffer(c).words[i]) == 0,
        c.read_format.has(ReadFormat::group()) ==> {
            &&& first_buffer(c).elements == if c.member_count >= 1 {
                c.member_count as int
            } else {
                1
            }
            &&& first_size(c) == group_size(c.read_format, first_buffer(c).elements)
        },
        !c.read_format.has(ReadFormat::group()) ==> first_size(c) == 5 && first_buffer(c).elements
            == 1,
        fits(first_size(c)) <==> 8 * first_size(c) <= isize::MAX,
{
    let el = c.read_format.element_words();
    assert(el == 1 || el == 2 || el == 3);
}

/// A buffer that is expanded is made for twice the members, keeps what it has room for, and
/// is filled up with zeros.
pub proof fn law_expanded_buffer(b: BufferModel, f: ReadFormat)
    requires
        b.elements >= 0,
    ensures
        grown(b, f).elements == 2 * b.elements,
        grown(b, f).words.len() == 8 * group_size(f, 2 * b.elements),
        forall|i: int|
            0 <= i < grown(b, f).words.len() ==> (#[trigger] grown(b, f).words[i]) == if i
                < b.words.len() {
                b.words[i]
            } else {
                0
            },
{
    let el = f.element_words();
    assert(el == 1 || el == 2 || el == 3);
}

/// A step is seen as it is: what is done is done with the same result, and what is to be
/// done again is.
pub proof fn law_steps_seen_as_they_are<T: View>(step: Step<T>)
    ensures
        step is Again <==> step@ is Again,
        step matches Step::Done(Ok(t)) ==> step@ == Step::Done(Ok::<_, Error>(t@)),
        step matches Step::Done(Err(e)) ==> step@ == Step::Done(Err::<T::V, _>(e)),
{
}

/// Whoever reads the count and the times gets them if the value has both times, and
/// otherwise learns which is missing.
pub proof fn law_count_and_time_of_value(value: CounterModel)
    ensures
        match (value.time_enabled, value.time_running) {
            (Some(enabled), Some(running)) => {
                let both = CountAndTime {
                    count: value.value,
                    time_enabled: enabled,
                    time_running: running,
                };
                &&& count_and_time(value) == Ok::<_, Error>(both)
                &&& count_and_time_step(Step::Done(Ok(value))) == Step::Done(Ok::<_, Error>(both))
            },
            (Some(_), None) => {
                &&& count_and_time(value) == Err::<CountAndTime, _>(Error::NoTimeRunning)
                &&& count_and_time_step(Step::Done(Ok(value))) == Step::Done(
                    Err::<CountAndTime, _>(Error::NoTimeRunning),
                )
            },
            (None, _) => {
                &&& count_and_time(value) == Err::<CountAndTime, _>(Error::NoTimeEnabled)
                &&& count_and_time_step(Step::Done(Ok(value))) == Step::Done(
                    Err::<CountAndTime, _>(Error::NoTimeEnabled),
                )
            },
        },
{
}

/// Whoever reads a group gets the whole of it: every entry and both times are those that
/// were read, whatever they are, and whether the first entry is listed changes none of them.
pub proof fn law_whole_group_handed_out(group: GroupModel, e: Error, skip_first: bool)
    ensures
        reading_step(Step::Done(Ok(group)), skip_first) matches Step::Done(Ok(reading)) && {
            &&& reading.group.entries == group.entries
            &&& reading.group.time_enabled == group.time_enabled
            &&& reading.group.time_running == group.time_running
            &&& reading.group.read_format == group.read_format
            &&& reading.skip_first == skip_first
        },
        reading_step(Step::Done(Err(e)), skip_first) == Step::Done(Err::<GroupReading, _>(e)),
        reading_step(Step::Again, skip_first) is Again,
{
}

/// What the kernel writes for a lone counter is what each way of reading it gives: its
/// count, its count and times if its format asks for both, and a group of it alone.
pub proof fn law_lone_counter_read_in_every_way(
    c: CounterState,
    b: BufferModel,
    value: CounterModel,
    len: usize,
    skip_first: bool,
)
    requires
        counter_in_format(value),
        value.read_format == c.read_format,
        c.read_format.is_supported(),
        !c.read_format.has(ReadFormat::group()),
        len % 8 == 0,
        counter_words(value).len() <= len as int / 8 <= b.words.len(),
        b.words.take(counter_words(value).len() as int) == counter_words(value),
    ensures
        value_step(full_transition(c, b, Ok(len)).step) == Step::Done(Ok::<_, Error>(value.value)),
        value.time_enabled matches Some(enabled) ==> value.time_running matches Some(running) ==> {
            count_and_time_step(full_transition(c, b, Ok(len)).step) == Step::Done(
                Ok::<_, Error>(
                    CountAndTime {
                        count: value.value,
                        time_enabled: enabled,
                        time_running: running,
                    },
                ),
            )
        },
        reading_step(whole_transition(c, b, Ok(len)).step, skip_first) matches Step::Done(
            Ok(reading),
        ) && {
            &&& reading.group.entries.len() == 1
            &&& reading.group.entries[0].value == value.value
            &&& reading.group.entries[0].id == value.id
            &&& reading.group.entries[0].lost == value.lost
            &&& reading.group.time_enabled == value.time_enabled
            &&& reading.group.time_running == value.time_running
            &&& reading.skip_first == skip_first
        },
{
    law_single_read_delivers(c, b, value, len);
}

/// What the kernel writes for a group is what each way of reading it gives: to whoever
/// reads the group, every member with its values, and to whoever reads one member, the
/// values of that member.
pub proof fn law_group_read_in_every_way(
    c: CounterState,
    b: BufferModel,
    group: GroupModel,
    len: usize,
    skip_first: bool,
)
    requires
        group_in_format(group),
        group.read_format == c.read_format,
        c.read_format.is_supported(),
        c.read_format.has(ReadFormat::group()),
        group.entries.len() <= u32::MAX,
        group_words(group).len() <= len as int / 8,
        group_words(group).len() <= b.words.len(),
        b.words.take(group_words(group).len() as int) == group_words(group),
    ensures
        reading_step(whole_transition(c, b, Ok(len)).step, skip_first) == Step::Done(
            Ok::<_, Error>(GroupReading { group, skip_first }),
        ),
        position_of_id(group.entries, c.id, 0) matches Some(i) ==> {
            &&& value_step(full_transition(c, b, Ok(len)).step) == Step::Done(
                Ok::<_, Error>(group.entries[i].value),
            )
            &&& group.time_enabled matches Some(enabled) ==> group.time_running matches Some(
                running,
            ) ==> count_and_time_step(full_transition(c, b, Ok(len)).step) == Step::Done(
                Ok::<_, Error>(
                    CountAndTime {
                        count: group.entries[i].value,
                        time_enabled: enabled,
                        time_running: running,
                    },
                ),
            )
        },
{
    law_group_read_delivers(c, b, group, len);
    law_first_with_id(group.entries, c.id, 0);
}

/// A group that nothing was read from lists nothing, whether or not its first entry is
/// passed over.
pub proof fn law_empty_group_lists_nothing(reading: GroupReading)
    requires
        reading.group.entries.len() == 0,
    ensures
        reading.listed().len() == 0,
{
}

/// Every entry of a group is listed in its place, but for the first if that is passed
/// over.
pub proof fn law_entries_listed_in_order(reading: GroupReading, i: int)
    requires
        0 <= i < reading.listed().len(),
    ensures
        reading.skip_first ==> {
            &&& reading.listed().len() + 1 == reading.group.entries.len()
            &&& reading.listed()[i] == reading.group.entries[i + 1]
        },
        !reading.skip_first ==> {
            &&& reading.listed().len() == reading.group.entries.len()
            &&& reading.listed()[i] == reading.group.entries[i]
        },
{
}

/// The duration that is reported for a time has exactly the nanoseconds that the kernel
/// wrote, and there is one exactly if the kernel wrote one.
pub proof fn law_durations_are_exact(nanos: Option<u64>)
    ensures
        match (nanos, optional_duration(nanos)) {
            (Some(n), Some(duration)) => {
                &&& duration == duration_of_nanos(n)
                &&& forall|m: u128|
                    #![trigger call_ensures(Duration::as_nanos, (&duration,), m)]
                    call_ensures(Duration::as_nanos, (&duration,), m) ==> m == n
            },
            (None, None) => true,
            _ => false,
        },
{
}

/// A counter that was opened has the file descriptor and the id that the kernel gave it,
/// and is read in the very format that the kernel was asked for. One that was not opened
/// failed for a call that failed.
pub proof fn law_opened_as_asked(
    f: ReadFormat,
    fd: i32,
    code: i32,
    id: u64,
    result: Result<CounterState, Error>,
)
    ensures
        match result {
            Ok(state) => build_outcome(f, fd, code, id, result) <==> {
                &&& fd >= 0
                &&& code >= 0
                &&& state.fd == fd
                &&& state.id == id
                &&& state.read_format == f
                &&& state.member_count == 1
            },
            Err(e) => build_outcome(f, fd, code, id, result) <==> (fd < 0 || code < 0) && (
            e matches Error::Os(n) && is_last_os_error(n)),
        },
{
}

/// A counter that was opened in a format gives back what the kernel writes for it in that
/// format.
pub proof fn law_opened_counter_reads_back(
    value: CounterModel,
    fd: i32,
    code: i32,
    id: u64,
    state: CounterState,
    b: BufferModel,
    len: usize,
)
    requires
        build_outcome(value.read_format, fd, code, id, Ok(state)),
        counter_in_format(value),
        value.read_format.is_supported(),
        !value.read_format.has(ReadFormat::group()),
        len % 8 == 0,
        counter_words(value).len() <= len as int / 8 <= b.words.len(),
        b.words.take(counter_words(value).len() as int) == counter_words(value),
    ensures
        full_transition(state, b, Ok(len)).step == Step::Done(Ok::<_, Error>(value)),
{
    law_single_read_delivers(state, b, value, len);
}

/// A group that was opened in a format gives back what the kernel writes for it in that
/// format.
pub proof fn law_opened_group_reads_back(
    group: GroupModel,
    fd: i32,
    code: i32,
    id: u64,
    state: CounterState,
)
    requires
        build_outcome(group.read_format, fd, code, id, Ok(state)),
        group_in_format(group),
        group.read_format.is_supported(),
        group.read_format.has(ReadFormat::group()),
        group.entries.len() <= u32::MAX,
        fits(16 * group_words(group).len() as int),
    ensures
        exists|tries: nat|
            (#[trigger] group_run(state, first_buffer(state), group_words(group), tries)) matches Some(
                t,
            ) && has_read(state, t, group),
{
    law_group_read_completes(state, group);
}

/// What came of opening a counter or a group is what its state says.
pub proof fn law_opened_state(
    counter: Result<Counter, Error>,
    group: Result<Group, Error>,
)
    ensures
        match counter {
            Ok(c) => state_of(counter) == Ok::<_, Error>(c@),
            Err(e) => state_of(counter) == Err::<CounterState, _>(e),
        },
        match group {
            Ok(g) => group_state_of(group) == Ok::<_, Error>(g@),
            Err(e) => group_state_of(group) == Err::<CounterState, _>(e),
        },
{
}

/// A counter that joins a group is asked for with the event, the format and the processor
/// that its builder says, and with the leader that it joins.
pub proof fn law_joining_changes_the_group_alone(request: OpenRequest, fd: i32)
    ensures
        joining(request, fd).event == request.event,
        joining(request, fd).read_format == request.read_format,
        joining(request, fd).cpu == request.cpu,
        joining(request, fd).group_fd == Some(fd),
{
}

/// Unless it is told otherwise, a builder asks for a counter of instructions on any
/// processor that joins no group and is read alone, with both times and nothing else.
/// A group is asked for with an event that never occurs, and with the times and ids.
pub proof fn law_default_requests()
    ensures
        default_request().event == (Event { kind: 0, config: 1 }),
        default_request().read_format.bits == 3,
        default_request().cpu is None,
        default_request().group_fd is None,
        group_request().event == (Event { kind: 1, config: 9 }),
        group_request().read_format.bits == 15,
        group_request().cpu is None,
        group_request().group_fd is None,
{
    lemma_group_request();
    assert(1u64 | 2 == 3) by (bit_vector);
}

/// A system call has failed exactly if what it returned is less than zero. Then the error
/// is the code that the call left, and otherwise the result is what the call returned.
pub proof fn law_calls_fail_below_zero(
    r: i32,
    wide: i64,
    code: i32,
    result: Result<i32, Error>,
    wide_result: Result<i64, Error>,
    done: Result<(), Error>,
)
    ensures
        errno_outcome(r, 0, code, result) <==> result == if r < 0 {
            Err(Error::Os(code))
        } else {
            Ok(r)
        },
        errno_outcome(wide, 0, code, wide_result) <==> wide_result == if wide < 0 {
            Err(Error::Os(code))
        } else {
            Ok(wide)
        },
        call_outcome(r, done) <==> match done {
            Ok(_) => r >= 0,
            Err(Error::Os(n)) => r < 0 && is_last_os_error(n),
            Err(_) => false,
        },
{
}

/// Whatever a system call returns, its result is that or the error that it left.
pub proof fn law_calls_return_their_result<R: PartialOrd>(
    r: R,
    zero: R,
    code: i32,
    result: Result<R, Error>,
)
    requires
        errno_outcome(r, zero, code, result),
    ensures
        result matches Ok(v) ==> v == r,
        result matches Err(e) ==> e == Error::Os(code),
{
}

/// The code of a failed system call is that of the error, that of a mismatch is `ENOSPC`,
/// and no other error has a code.
pub proof fn law_error_codes(e: Error)
    ensures
        match e {
            Error::Os(n) => e.code() == Some(n),
            Error::Parse(_) => e.code() == Some(28i32),
            Error::Unscheduled | Error::NoTimeEnabled | Error::NoTimeRunning
            | Error::NoGroupFlag => e.code() is None,
        },
{
}

/// Counts are had from exactly the words that a group is read from, in the format that a
/// group is opened with.
pub proof fn law_counts_from_group_words(words: Seq<u64>)
    requires
        words.len() <= usize::MAX,
        words.len() > 0 ==> words[0] <= usize::MAX,
    ensures
        is_counts(words) <==> group_parse(words, group_request().read_format) is Ok,
{
    lemma_group_request();
    let f = group_request().read_format;
    assert(f.element_words() == 2 && f.prefix_words() == 3);
}

/// The counts of a group list each member but the first, in order.
pub proof fn law_members_without_leader(entries: Seq<EntryModel>)
    ensures
        entries.len() == 0 ==> members(entries).len() == 0,
        entries.len() > 0 ==> members(entries) == entries.subrange(1, entries.len() as int),
{
    if entries.len() > 0 {
        assert(members(entries) =~= entries.subrange(1, entries.len() as int));
    }
}

/// Some entry has no id exactly if not all have one.
pub proof fn law_all_have_ids(entries: Seq<EntryModel>)
    ensures
        !all_have_ids(entries) <==> exists|i: int|
            0 <= i < entries.len() && (#[trigger] entries[i]).id is None,
{
}

/// A counter can be looked up by indexing exactly if a member of the group has its id. In
/// counts, the leader does not count.
pub proof fn law_members_can_be_indexed(group: GroupValue, counts: Counts, counter: Counter)
    ensures
        vstd::std_specs::core::IndexSpec::index_req(&group, &&counter) <==> exists|i: int|
            0 <= i < group@.group.entries.len() && (#[trigger] group@.group.entries[i]).id == Some(
                counter@.id,
            ),
        vstd::std_specs::core::IndexSpec::index_req(&counts, &&counter) <==> exists|i: int|
            1 <= i < counts@.entries.len() && (#[trigger] counts@.entries[i]).id == Some(
                counter@.id,
            ),
{
    law_first_with_id(group@.group.entries, counter@.id, 0);
    law_first_with_id(counts@.entries, counter@.id, 1);
}

/// The number that a text of decimal digits stands for.
pub open spec fn number_of(text: Seq<char>) -> int
    decreases text.len(),
{
    if text.len() == 0 {
        0
    } else {
        10 * number_of(text.drop_last()) + (text.last() as int - '0' as int)
    }
}

/// A number in text is made of digits, begins with zero only if it is zero, and stands for
/// the number.
pub proof fn law_numbers_read_back(n: nat)
    ensures
        number_of(decimal(n)) == n,
        decimal(n).len() > 0,
        forall|i: int| 0 <= i < decimal(n).len() ==> '0' <= #[trigger] decimal(n)[i] <= '9',
        n > 0 ==> decimal(n)[0] != '0',
        n == 0 ==> decimal(n).len() == 1,
    decreases n,
{
    if n < 10 {
        reveal_with_fuel(number_of, 2);
    } else {
        law_numbers_read_back(n / 10);
        let text = decimal(n);
        assert(text.drop_last() =~= decimal(n / 10));
        assert(text[0] == decimal(n / 10)[0]);
        assert forall|i: int| 0 <= i < text.len() implies '0' <= #[trigger] text[i] <= '9' by {
            if i < text.len() - 1 {
                assert(text[i] == decimal(n / 10)[i]);
            }
        }
    }
}

/// A signed number in text is its amount in text, after a minus sign if it is less than
/// zero.
pub proof fn law_signed_numbers(n: int)
    ensures
        n >= 0 ==> number_of(signed_decimal(n)) == n && signed_decimal(n)[0] != '-',
        n < 0 ==> signed_decimal(n)[0] == '-' && number_of(signed_decimal(n).skip(1)) == -n,
        n < 0 ==> signed_decimal(n).skip(1) == decimal((-n) as nat),
        n >= 0 ==> signed_decimal(n) == decimal(n as nat),
{
    reveal_strlit("-");
    if n < 0 {
        law_numbers_read_back((-n) as nat);
        assert(signed_decimal(n).skip(1) =~= decimal((-n) as nat));
    } else {
        law_numbers_read_back(n as nat);
        assert('0' <= decimal(n as nat)[0] <= '9');
    }
}

/// A number that may be missing is shown as it is, with its label or with the name of its
/// variant.
pub proof fn law_optional_numbers(label: Seq<char>, n: Option<u64>)
    ensures
        match n {
            Some(n) => {
                &&& optional_decimal(Some(n)) == "Some("@ + decimal(n as nat) + ")"@
                &&& labelled(label, Some(n)) == label + decimal(n as nat)
                &&& optional_field(label, Some(n)) == seq![(label, Field::Number(n))]
            },
            None => {
                &&& optional_decimal(n) == "None"@
                &&& labelled(label, n).len() == 0
                &&& optional_field(label, n).len() == 0
            },
        },
{
}

/// Every field is shown under its own label.
pub proof fn law_fields_keep_labels(fields: Seq<(&'static str, Field)>, i: int)
    requires
        0 <= i < fields.len(),
    ensures
        labels(fields).len() == fields.len(),
        labels(fields)[i].0 == fields[i].0@,
        labels(fields)[i].1 == fields[i].1,
{
}

/// An entry in text shows its value, its id, and its lost samples if it has them.
pub proof fn law_entry_text(entry: EntryModel, id: u64)
    requires
        entry.id == Some(id),
    ensures
        entry.lost matches Some(lost) ==> entry_text(entry) == "GroupEntry { value: "@ + decimal(
            entry.value as nat,
        ) + ", id: "@ + decimal(id as nat) + ", lost: "@ + decimal(lost as nat) + ", .. }"@,
        entry.lost is None ==> entry_text(entry) == "GroupEntry { value: "@ + decimal(
            entry.value as nat,
        ) + ", id: "@ + decimal(id as nat) + ", .. }"@,
{
    if let Some(lost) = entry.lost {
        assert(entry_text(entry) =~= "GroupEntry { value: "@ + decimal(entry.value as nat)
            + ", id: "@ + decimal(id as nat) + ", lost: "@ + decimal(lost as nat) + ", .. }"@);
    } else {
        assert(entry_text(entry) =~= "GroupEntry { value: "@ + decimal(entry.value as nat)
            + ", id: "@ + decimal(id as nat) + ", .. }"@);
    }
}

/// Entries in text are the texts of the entries, one after the other, with a comma between
/// any two, and so are counts.
pub proof fn law_lists_in_text(entries: Seq<EntryModel>, last: EntryModel, id: u64)
    requires
        last.id == Some(id),
    ensures
        entries_text(Seq::empty()).len() == 0,
        entries_text(entries.push(last)) == if entries.len() == 0 {
            entry_text(last)
        } else {
            entries_text(entries) + ", "@ + entry_text(last)
        },
        pairs_text(Seq::empty()).len() == 0,
        pair_text(last) == decimal(id as nat) + ": "@ + decimal(last.value as nat),
        pairs_text(entries.push(last)) == if entries.len() == 0 {
            pair_text(last)
        } else {
            pairs_text(entries) + ", "@ + pair_text(last)
        },
{
    assert(entries.push(last).drop_last() =~= entries);
}

/// A group in text shows the times that it has, and then the entries that it lists.
pub proof fn law_group_text(reading: GroupReading)
    ensures
        match (reading.group.time_enabled, reading.group.time_running) {
            (Some(enabled), Some(running)) => group_text(reading) == "GroupData { "@
                + "time_enabled: "@ + decimal(enabled as nat) + ", "@ + "time_running: "@ + decimal(
                running as nat,
            ) + ", "@ + "entries: ["@ + entries_text(reading.listed()) + "] }"@,
            (Some(enabled), None) => group_text(reading) == "GroupData { "@ + "time_enabled: "@
                + decimal(enabled as nat) + ", "@ + "entries: ["@ + entries_text(reading.listed())
                + "] }"@,
            (None, Some(running)) => group_text(reading) == "GroupData { "@ + "time_running: "@
                + decimal(running as nat) + ", "@ + "entries: ["@ + entries_text(reading.listed())
                + "] }"@,
            (None, None) => group_text(reading) == "GroupData { "@ + "entries: ["@ + entries_text(
                reading.listed(),
            ) + "] }"@,
        },
{
    match (reading.group.time_enabled, reading.group.time_running) {
        (Some(enabled), Some(running)) => {
            assert(group_text(reading) =~= "GroupData { "@ + "time_enabled: "@ + decimal(
                enabled as nat,
            ) + ", "@ + "time_running: "@ + decimal(running as nat) + ", "@ + "entries: ["@
                + entries_text(reading.listed()) + "] }"@);
        },
        (Some(enabled), None) => {
            assert(group_text(reading) =~= "GroupData { "@ + "time_enabled: "@ + decimal(
                enabled as nat,
            ) + ", "@ + "entries: ["@ + entries_text(reading.listed()) + "] }"@);
        },
        (None, Some(running)) => {
            assert(group_text(reading) =~= "GroupData { "@ + "time_running: "@ + decimal(
                running as nat,
            ) + ", "@ + "entries: ["@ + entries_text(reading.listed()) + "] }"@);
        },
        (None, None) => {
            assert(group_text(reading) =~= "GroupData { "@ + "entries: ["@ + entries_text(
                reading.listed(),
            ) + "] }"@);
        },
    }
}

/// An error in text says what stood in the way.
pub proof fn law_error_texts(e: Error, parse: ParseError)
    ensures
        match e {
            Error::Os(_) => e.text() is None,
            Error::Unscheduled => e.text() == Some(
                "the kernel was unable to schedule the counter or group"@,
            ),
            Error::Parse(p) => e.text() == Some(p.text()),
            Error::NoTimeEnabled => e.text() == Some(
                "time_enabled was not enabled within read_format"@,
            ),
            Error::NoTimeRunning => e.text() == Some(
                "time_running was not enabled within read_format"@,
            ),
            Error::NoGroupFlag => e.text() is Some,
        },
        parse.text() == match parse {
            ParseError::GroupSet =>
                "attempted to parse a CounterValue with a ReadFormat that has GROUP set"@,
            ParseError::GroupNotSet =>
                "attempted to parse a GroupValue with a ReadFormat that does not have GROUP set"@,
            ParseError::UnsupportedFlags => "read_format contains unsupported flags"@,
            ParseError::TooManyElements =>
                "number of elements in group read was too large for the data type"@,
            ParseError::UnexpectedEnd => "unexpected end-of-message"@,
        },
{
}

/// Whether `words` begin with what the kernel writes for a lone counter in the format `f`,
/// and `len` bytes were delivered, which are all of that and whole words.
pub open spec fn holds_counter(
    words: Seq<u64>,
    len: usize,
    f: ReadFormat,
    value: CounterModel,
) -> bool {
    &&& counter_in_format(value)
    &&& value.read_format == f
    &&& f.is_supported()
    &&& !f.has(ReadFormat::group())
    &&& len % 8 == 0
    &&& counter_words(value).len() <= len as int / 8 <= words.len()
    &&& words.take(counter_words(value).len() as int) == counter_words(value)
}

/// Whether `words` begin with what the kernel writes for a group in the format `f`, and
/// `len` bytes were delivered, which are all of that.
pub open spec fn holds_group(words: Seq<u64>, len: usize, f: ReadFormat, group: GroupModel) -> bool {
    &&& group_in_format(group)
    &&& group.read_format == f
    &&& f.is_supported()
    &&& f.has(ReadFormat::group())
    &&& group.entries.len() <= u32::MAX
    &&& group_words(group).len() <= len as int / 8
    &&& group_words(group).len() <= words.len()
    &&& words.take(group_words(group).len() as int) == group_words(group)
}

/// Whether `i` is the first of the entries with the id.
pub open spec fn is_first_with_id(entries: Seq<EntryModel>, id: u64, i: int) -> bool {
    &&& 0 <= i < entries.len()
    &&& entries[i].id == Some(id)
    &&& forall|j: int| 0 <= j < i ==> (#[trigger] entries[j]).id != Some(id)
}

/// Whether a duration has the nanoseconds given, and there is one exactly if they are.
pub open spec fn lasts(duration: Option<Duration>, nanos: Option<u64>) -> bool {
    match (duration, nanos) {
        (Some(d), Some(n)) => {
            &&& d == duration_of_nanos(n)
            &&& forall|m: u128|
                #![trigger call_ensures(Duration::as_nanos, (&d,), m)]
                call_ensures(Duration::as_nanos, (&d,), m) ==> m == n
        },
        (None, None) => true,
        _ => false,
    }
}

/// What is asked of a value that was taken apart, put together again, is the words that it
/// was taken from.
pub proof fn law_values_are_the_words(
    words: &[u64],
    f: ReadFormat,
    v: read::CounterValue,
    value: u64,
    enabled: Option<u64>,
    running: Option<u64>,
    id: Option<u64>,
    lost: Option<u64>,
)
    requires
        call_ensures(read::CounterValue::parse, (words, f), Ok::<_, ParseError>(v)),
        call_ensures(read::CounterValue::value, (&v,), value),
        call_ensures(read::CounterValue::time_enabled, (&v,), enabled),
        call_ensures(read::CounterValue::time_running, (&v,), running),
        call_ensures(read::CounterValue::id, (&v,), id),
        call_ensures(read::CounterValue::lost, (&v,), lost),
    ensures
        enabled is Some <==> f.has(ReadFormat::total_time_enabled()),
        running is Some <==> f.has(ReadFormat::total_time_running()),
        id is Some <==> f.has(ReadFormat::id()),
        lost is Some <==> f.has(ReadFormat::lost()),
        ({
            let again = seq![value] + optional_words(enabled) + optional_words(running)
                + optional_words(id) + optional_words(lost);
            words@.len() >= again.len() && words@.take(again.len() as int) == again
        }),
{
    law_counter_words_kept(words@, f);
}

/// Words of a lone counter are taken apart if and only if the format allows it and there
/// are enough of them.
pub proof fn law_when_counters_parse(
    words: &[u64],
    value: CounterModel,
    result: Result<read::CounterValue, ParseError>,
)
    requires
        counter_in_format(value),
        call_ensures(read::CounterValue::parse, (words, value.read_format), result),
    ensures
        result is Ok <==> value.read_format.is_supported() && !value.read_format.has(
            ReadFormat::group(),
        ) && words@.len() >= counter_words(value).len(),
{
}

/// What is asked of a group that was taken apart is what the kernel wrote for it.
pub proof fn law_group_values_are_the_words(
    words: &[u64],
    group: GroupModel,
    rest: Seq<u64>,
    result: Result<read::GroupValue<'_>, ParseError>,
    index: usize,
    id: u64,
)
    requires
        group_in_format(group),
        group.read_format.is_supported(),
        group.read_format.has(ReadFormat::group()),
        group.entries.len() * group.read_format.element_words() <= usize::MAX,
        words@ == group_words(group) + rest,
        call_ensures(read::GroupValue::parse, (words, group.read_format), result),
    ensures
        result matches Ok(g) && {
            &&& forall|n: usize|
                #[trigger] call_ensures(read::GroupValue::len, (&g,), n) ==> n
                    == group.entries.len()
            &&& forall|t: Option<u64>|
                #[trigger] call_ensures(read::GroupValue::time_enabled, (&g,), t) ==> t
                    == group.time_enabled
            &&& forall|t: Option<u64>|
                #[trigger] call_ensures(read::GroupValue::time_running, (&g,), t) ==> t
                    == group.time_running
            &&& forall|e: Option<read::GroupEntry>|
                #[trigger] call_ensures(read::GroupValue::get, (&g, index), e) ==> match e {
                    Some(e) => index < group.entries.len() && e@ == group.entries[index as int],
                    None => index >= group.entries.len(),
                }
            &&& forall|e: Option<read::GroupEntry>|
                #[trigger] call_ensures(read::GroupValue::get_by_id, (&g, id), e) ==> match e {
                    Some(e) => exists|i: int|
                        #[trigger] is_first_with_id(group.entries, id, i) && e@ == group.entries[i],
                    None => forall|i: int| !#[trigger] is_first_with_id(group.entries, id, i),
                }
            &&& forall|v: Option<&u64>|
                #[trigger] call_ensures(read::GroupValue::get_value_by_id, (&g, id), v) ==> match v {
                    Some(v) => exists|i: int|
                        #[trigger] is_first_with_id(group.entries, id, i) && *v
                            == group.entries[i].value,
                    None => forall|i: int| !#[trigger] is_first_with_id(group.entries, id, i),
                }
        },
{
    law_group_read_back(group, rest);
    lemma_position_is_first(group.entries, id);
}

/// The position of an id is that of the first entry with it.
pub proof fn lemma_position_is_first(entries: Seq<EntryModel>, id: u64)
    ensures
        match position_of_id(entries, id, 0) {
            Some(i) => is_first_with_id(entries, id, i),
            None => forall|i: int| !#[trigger] is_first_with_id(entries, id, i),
        },
{
    law_first_with_id(entries, id, 0);
}

/// What is asked of an entry is its value, its id and its lost samples, in whichever of the
/// two forms the entry is.
pub proof fn law_entries_say_what_they_are(
    inner: read::GroupEntry,
    entry: GroupEntry,
    n: u64,
    id: Option<u64>,
    lost: Option<u64>,
)
    ensures
        call_ensures(read::GroupEntry::value, (&inner,), n) ==> n == inner@.value,
        call_ensures(read::GroupEntry::id, (&inner,), id) ==> id == inner@.id,
        call_ensures(read::GroupEntry::lost, (&inner,), lost) ==> lost == inner@.lost,
        call_ensures(GroupEntry::value, (&entry,), n) ==> n == entry@.value,
        call_ensures(GroupEntry::id, (&entry,), n) ==> entry@.id == Some(n),
        call_ensures(GroupEntry::checked_id, (&entry,), id) ==> id == entry@.id,
        call_ensures(GroupEntry::lost, (&entry,), lost) ==> lost == entry@.lost,
{
}

/// Reading the count of a lone counter gives the count that the kernel wrote.
pub proof fn law_read_gives_count(
    counter: &mut Counter,
    buffer: &mut ReadBuffer,
    len: usize,
    value: CounterModel,
    step: Step<u64>,
)
    requires
        holds_counter(old(buffer)@.words, len, old(counter)@.read_format, value),
        call_ensures(Counter::read, (counter, buffer, Ok::<usize, Error>(len)), step),
    ensures
        step == Step::Done(Ok::<_, Error>(value.value)),
        final(counter)@ == old(counter)@,
        final(buffer)@ == old(buffer)@,
{
    law_single_read_delivers(old(counter)@, old(buffer)@, value, len);
}

/// Reading the count and the times of a lone counter gives those that the kernel wrote, and
/// fails only if the format does not ask for a time.
pub proof fn law_read_gives_count_and_times(
    counter: &mut Counter,
    buffer: &mut ReadBuffer,
    len: usize,
    value: CounterModel,
    step: Step<CountAndTime>,
)
    requires
        holds_counter(old(buffer)@.words, len, old(counter)@.read_format, value),
        call_ensures(
            Counter::read_count_and_time,
            (counter, buffer, Ok::<usize, Error>(len)),
            step,
        ),
    ensures
        match (value.time_enabled, value.time_running) {
            (Some(enabled), Some(running)) => step matches Step::Done(Ok(both)) && both.count
                == value.value && both.time_enabled == enabled && both.time_running == running,
            (Some(_), None) => step == Step::Done(Err::<CountAndTime, _>(Error::NoTimeRunning)),
            (None, _) => step == Step::Done(Err::<CountAndTime, _>(Error::NoTimeEnabled)),
        },
        final(counter)@ == old(counter)@,
        final(buffer)@ == old(buffer)@,
{
    law_single_read_delivers(old(counter)@, old(buffer)@, value, len);
}

/// Reading everything of a lone counter gives the values that the kernel wrote, with times
/// of exactly the nanoseconds that it wrote.
pub proof fn law_read_gives_values(
    counter: &mut Counter,
    buffer: &mut ReadBuffer,
    len: usize,
    value: CounterModel,
    step: Step<CounterValue>,
)
    requires
        holds_counter(old(buffer)@.words, len, old(counter)@.read_format, value),
        call_ensures(Counter::read_full, (counter, buffer, Ok::<usize, Error>(len)), step),
    ensures
        step matches Step::Done(Ok(v)) && gives_values(v, value),
        final(counter)@ == old(counter)@,
        final(buffer)@ == old(buffer)@,
{
    law_single_read_delivers(old(counter)@, old(buffer)@, value, len);
}

/// Whether `v` answers all that it is asked with the values given.
pub open spec fn gives_values(v: CounterValue, value: CounterModel) -> bool {
    &&& v@ == value
    &&& forall|n: u64|
        #[trigger] call_ensures(CounterValue::value, (&v,), n) ==> n == value.value
    &&& forall|t: Option<Duration>|
        #[trigger] call_ensures(CounterValue::time_enabled, (&v,), t) ==> lasts(
            t,
            value.time_enabled,
        )
    &&& forall|t: Option<Duration>|
        #[trigger] call_ensures(CounterValue::time_running, (&v,), t) ==> lasts(
            t,
            value.time_running,
        )
    &&& forall|n: Option<u64>|
        #[trigger] call_ensures(CounterValue::lost, (&v,), n) ==> n == value.lost
    &&& forall|both: Result<CountAndTime, Error>|
        #[trigger] call_ensures(CountAndTime::from_value, (&v,), both) ==> match (
            value.time_enabled,
            value.time_running,
        ) {
            (Some(enabled), Some(running)) => both == Ok::<_, Error>(
                CountAndTime {
                    count: value.value,
                    time_enabled: enabled,
                    time_running: running,
                },
            ),
            (Some(_), None) => both == Err::<CountAndTime, _>(Error::NoTimeRunning),
            (None, _) => both == Err::<CountAndTime, _>(Error::NoTimeEnabled),
        }
}

/// A lone counter that is read through the step for lone counters gives the same.
pub proof fn law_single_step_gives_values(
    counter: Counter,
    buffer: ReadBuffer,
    len: usize,
    value: CounterModel,
    result: Result<CounterValue, Error>,
)
    requires
        holds_counter(buffer@.words, len, counter@.read_format, value),
        call_ensures(
            Counter::do_read_single,
            (&counter, &buffer, Ok::<usize, Error>(len)),
            result,
        ),
    ensures
        result matches Ok(v) && gives_values(v, value),
{
    law_single_read_delivers(counter@, buffer@, value, len);
    law_single_read(counter@, buffer@, Error::Unscheduled, len);
}

/// Reading a member of a group gives the count of that member, with the times of the group.
pub proof fn law_read_gives_member(
    counter: &mut Counter,
    buffer: &mut ReadBuffer,
    len: usize,
    group: GroupModel,
    i: int,
    count: Step<u64>,
    both: Step<CountAndTime>,
    full: Step<CounterValue>,
)
    requires
        holds_group(old(buffer)@.words, len, old(counter)@.read_format, group),
        is_first_with_id(group.entries, old(counter)@.id, i),
    ensures
        call_ensures(Counter::read, (counter, buffer, Ok::<usize, Error>(len)), count) ==> count
            == Step::Done(Ok::<_, Error>(group.entries[i].value)),
        call_ensures(
            Counter::read_count_and_time,
            (counter, buffer, Ok::<usize, Error>(len)),
            both,
        ) ==> match (group.time_enabled, group.time_running) {
            (Some(enabled), Some(running)) => both == Step::Done(
                Ok::<_, Error>(
                    CountAndTime {
                        count: group.entries[i].value,
                        time_enabled: enabled,
                        time_running: running,
                    },
                ),
            ),
            (Some(_), None) => both == Step::Done(Err::<CountAndTime, _>(Error::NoTimeRunning)),
            (None, _) => both == Step::Done(Err::<CountAndTime, _>(Error::NoTimeEnabled)),
        },
        call_ensures(Counter::read_full, (counter, buffer, Ok::<usize, Error>(len)), full) ==> {
            &&& full matches Step::Done(Ok(v))
            &&& v@.value == group.entries[i].value
            &&& v@.id == group.entries[i].id
            &&& v@.lost == group.entries[i].lost
            &&& v@.time_enabled == group.time_enabled
            &&& v@.time_running == group.time_running
            &&& gives_values(v, v@)
        },
{
    law_group_read_delivers(old(counter)@, old(buffer)@, group, len);
    lemma_position_is_first(group.entries, old(counter)@.id);
    law_first_with_id(group.entries, old(counter)@.id, 0);
    law_member_keeps_values(group, i);
    let p = position_of_id(group.entries, old(counter)@.id, 0).unwrap();
    assert(p == i);
}

/// Whether `g` answers all that it is asked with the group given, of which it lists `listed`
/// entries.
pub open spec fn gives_group(g: GroupValue, group: GroupModel, listed: int) -> bool {
    &&& g@.group == group
    &&& forall|n: usize| #[trigger] call_ensures(GroupValue::len, (&g,), n) ==> n == listed
    &&& forall|empty: bool|
        #[trigger] call_ensures(GroupValue::is_empty, (&g,), empty) ==> empty == (listed == 0)
    &&& forall|t: Option<Duration>|
        #[trigger] call_ensures(GroupValue::time_enabled, (&g,), t) ==> lasts(
            t,
            group.time_enabled,
        )
    &&& forall|t: Option<Duration>|
        #[trigger] call_ensures(GroupValue::time_running, (&g,), t) ==> lasts(
            t,
            group.time_running,
        )
    &&& forall|iter: GroupIter<'_>|
        #[trigger] call_ensures(GroupValue::iter, (&g,), iter) ==> iter@ == group.entries.skip(
            group.entries.len() - listed,
        )
}

/// Reading the group of a counter gives every member that the kernel wrote, and lists every
/// one of them.
pub proof fn law_read_gives_group(
    counter: &mut Counter,
    buffer: &mut ReadBuffer,
    len: usize,
    group: GroupModel,
    step: Step<GroupValue>,
)
    requires
        holds_group(old(buffer)@.words, len, old(counter)@.read_format, group),
        call_ensures(Counter::read_group, (counter, buffer, Ok::<usize, Error>(len)), step),
    ensures
        step matches Step::Done(Ok(g)) && gives_group(g, group, group.entries.len() as int),
        final(counter)@.member_count == group.entries.len(),
        final(counter)@.fd == old(counter)@.fd,
        final(counter)@.id == old(counter)@.id,
        final(counter)@.read_format == old(counter)@.read_format,
{
    law_group_read_delivers(old(counter)@, old(buffer)@, group, len);
    assert(group.entries.skip(0) =~= group.entries);
}

/// Reading the group of a counter that is read alone gives a group of that counter, with the
/// values that the kernel wrote.
pub proof fn law_read_gives_lone_group(
    counter: &mut Counter,
    buffer: &mut ReadBuffer,
    len: usize,
    value: CounterModel,
    step: Step<GroupValue>,
)
    requires
        holds_counter(old(buffer)@.words, len, old(counter)@.read_format, value),
        call_ensures(Counter::read_group, (counter, buffer, Ok::<usize, Error>(len)), step),
    ensures
        step matches Step::Done(Ok(g)) && {
            &&& gives_group(g, g@.group, 1)
            &&& g@.group.entries.len() == 1
            &&& g@.group.entries[0] == (EntryModel {
                value: value.value,
                id: value.id,
                lost: value.lost,
            })
            &&& g@.group.time_enabled == value.time_enabled
            &&& g@.group.time_running == value.time_running
        },
        final(counter)@ == old(counter)@,
        final(buffer)@ == old(buffer)@,
{
    law_single_read_delivers(old(counter)@, old(buffer)@, value, len);
    let lone = lone_group_model(value);
    assert(lone.entries.skip(0) =~= lone.entries);
}

/// Reading a group gives every member that the kernel wrote, and lists every one of them but
/// that which leads the group.
pub proof fn law_group_gives_members(
    leader: &mut Group,
    buffer: &mut ReadBuffer,
    len: usize,
    group: GroupModel,
    step: Step<GroupValue>,
)
    requires
        holds_group(old(buffer)@.words, len, old(leader)@.read_format, group),
        group.entries.len() > 0,
        call_ensures(Group::read, (leader, buffer, Ok::<usize, Error>(len)), step),
    ensures
        step matches Step::Done(Ok(g)) && gives_group(g, group, group.entries.len() - 1),
        final(leader)@.member_count == group.entries.len(),
        final(leader)@.fd == old(leader)@.fd,
        final(leader)@.id == old(leader)@.id,
        final(leader)@.read_format == old(leader)@.read_format,
{
    law_group_read_delivers(old(leader)@, old(buffer)@, group, len);
}

/// A counter is looked up in a group by its id, and so it is by indexing.
pub proof fn law_group_lookup(
    g: GroupValue,
    member: Counter,
    entry: Option<GroupEntry>,
    id: u64,
)
    requires
        call_ensures(Counter::id, (&member,), id),
        call_ensures(GroupValue::get, (&g, &member), entry),
    ensures
        match entry {
            Some(e) => exists|i: int|
                #[trigger] is_first_with_id(g@.group.entries, id, i) && e@ == g@.group.entries[i],
            None => forall|i: int| !#[trigger] is_first_with_id(g@.group.entries, id, i),
        },
{
    lemma_position_is_first(g@.group.entries, id);
}

/// A read that fails fails in every way of reading, with the same error, but for a group
/// whose buffer is too small: that is to be read again, in every way.
pub proof fn law_every_read_fails_alike(
    counter: &mut Counter,
    buffer: &mut ReadBuffer,
    e: Error,
    count: Step<u64>,
    both: Step<CountAndTime>,
    full: Step<CounterValue>,
    group: Step<GroupValue>,
)
    ensures
        ({
            let again = old(counter)@.read_format.has(ReadFormat::group()) && e == Error::Os(
                no_space_code(),
            );
            let failed = Err::<usize, Error>(e);
            &&& call_ensures(Counter::read, (counter, buffer, failed), count) ==> (if again {
                count is Again
            } else {
                count matches Step::Done(Err(error)) && error == e
            })
            &&& call_ensures(Counter::read_count_and_time, (counter, buffer, failed), both) ==> (
            if again {
                both is Again
            } else {
                both matches Step::Done(Err(error)) && error == e
            })
            &&& call_ensures(Counter::read_full, (counter, buffer, failed), full) ==> (if again {
                full is Again
            } else {
                full matches Step::Done(Err(error)) && error == e
            })
            &&& call_ensures(Counter::read_group, (counter, buffer, failed), group) ==> (if again {
                group is Again
            } else {
                group matches Step::Done(Err(error)) && error == e
            })
        }),
{
}

/// A read that delivers nothing fails in every way of reading, as that of a counter that
/// could not be scheduled.
pub proof fn law_empty_reads_fail(
    counter: &mut Counter,
    buffer: &mut ReadBuffer,
    count: Step<u64>,
    both: Step<CountAndTime>,
    full: Step<CounterValue>,
    group: Step<GroupValue>,
)
    ensures
        ({
            let nothing = Ok::<usize, Error>(0);
            &&& call_ensures(Counter::read, (counter, buffer, nothing), count) ==> count
                == Step::Done(Err::<u64, _>(Error::Unscheduled))
            &&& call_ensures(Counter::read_count_and_time, (counter, buffer, nothing), both)
                ==> both == Step::Done(Err::<CountAndTime, _>(Error::Unscheduled))
            &&& call_ensures(Counter::read_full, (counter, buffer, nothing), full) ==> (
            full matches Step::Done(Err(e)) && e == Error::Unscheduled)
            &&& call_ensures(Counter::read_group, (counter, buffer, nothing), group) ==> (
            group matches Step::Done(Err(e)) && e == Error::Unscheduled)
        }),
{
}

/// A counter says of itself what it was made with, and its first buffer is that of its
/// format.
pub proof fn law_counter_is_what_it_was_made(
    fd: i32,
    id: u64,
    f: ReadFormat,
    counter: Counter,
    fd_said: i32,
    id_said: u64,
    buffer: ReadBuffer,
)
    requires
        call_ensures(Counter::new, (fd, id, f), counter),
    ensures
        call_ensures(Counter::as_raw_fd, (&counter,), fd_said) ==> fd_said == fd,
        call_ensures(Counter::into_raw_fd, (counter,), fd_said) ==> fd_said == fd,
        call_ensures(Counter::id, (&counter,), id_said) ==> id_said == id,
        call_ensures(Counter::read_buffer, (&counter,), buffer) ==> {
            &&& f.has(ReadFormat::group()) ==> buffer@.words.len() == group_size(f, 1)
            &&& !f.has(ReadFormat::group()) ==> buffer@.words.len() == 5
        },
        counter@.read_format == f,
        counter@.member_count == 1,
{
}

/// A counter that was built was asked for as its builder says and joins no group. It has the
/// file descriptor and the id that the calls gave, and is read in the format that was asked
/// for.
pub proof fn law_built_as_asked<O, I>(
    builder: Builder,
    open: O,
    query_id: I,
    counter: Counter,
    fd: i32,
    id: u64,
) where O: FnOnce(OpenRequest) -> i32, I: FnOnce(i32) -> (i32, u64)
    requires
        call_ensures(
            Builder::build::<O, I>,
            (&builder, open, query_id),
            Ok::<Counter, Error>(counter),
        ),
        call_ensures(Counter::as_raw_fd, (&counter,), fd),
        call_ensures(Counter::id, (&counter,), id),
    ensures
        fd >= 0,
        call_ensures(open, (builder@,), fd),
        exists|code: i32| code >= 0 && #[trigger] call_ensures(query_id, (fd,), (code, id)),
        counter@.read_format == builder@.read_format,
        counter@.member_count == 1,
{
    let (fd0, code0, id0) = choose|fd0: i32, code0: i32, id0: u64|
        {
            &&& call_ensures(open, (builder@,), fd0)
            &&& fd0 >= 0 ==> call_ensures(query_id, (fd0,), (code0, id0))
            &&& #[trigger] build_outcome(
                builder@.read_format,
                fd0,
                code0,
                id0,
                state_of(Ok::<Counter, Error>(counter)),
            )
        };
    assert(call_ensures(query_id, (fd,), (code0, id)));
}

/// A group that was built was asked for as its builder says, which has the flag for groups,
/// and without that flag nothing is built.
pub proof fn law_group_built_as_asked<O, I>(
    builder: Builder,
    open: O,
    query_id: I,
    result: Result<Group, Error>,
) where O: FnOnce(OpenRequest) -> i32, I: FnOnce(i32) -> (i32, u64)
    requires
        call_ensures(Builder::build_group::<O, I>, (&builder, open, query_id), result),
    ensures
        result == Err::<Group, _>(Error::NoGroupFlag) <==> !builder@.read_format.has(
            ReadFormat::group(),
        ),
        result matches Ok(group) ==> {
            &&& group@.fd >= 0
            &&& call_ensures(open, (builder@,), group@.fd)
            &&& exists|code: i32|
                code >= 0 && #[trigger] call_ensures(query_id, (group@.fd,), (code, group@.id))
            &&& group@.read_format == builder@.read_format
            &&& group@.member_count == 1
        },
{
    if builder@.read_format.has(ReadFormat::group()) {
        let (fd0, code0, id0) = choose|fd0: i32, code0: i32, id0: u64|
            {
                &&& call_ensures(open, (builder@,), fd0)
                &&& fd0 >= 0 ==> call_ensures(query_id, (fd0,), (code0, id0))
                &&& #[trigger] build_outcome(
                    builder@.read_format,
                    fd0,
                    code0,
                    id0,
                    group_state_of(result),
                )
            };
        if let Ok(group) = result {
            assert(call_ensures(query_id, (group@.fd,), (code0, group@.id)));
        }
    }
}

/// A counter that joins a group was asked for with the event, the format and the processor
/// of its builder, and with the leader of the group. The leader then counts one more member,
/// and only then.
pub proof fn law_member_built_as_asked<O, I>(
    builder: Builder,
    leader: &mut Counter,
    open: O,
    query_id: I,
    result: Result<Counter, Error>,
) where O: FnOnce(OpenRequest) -> i32, I: FnOnce(i32) -> (i32, u64)
    requires
        old(leader)@.member_count < u32::MAX,
        call_ensures(
            Builder::build_with_group::<O, I>,
            (&builder, leader, open, query_id),
            result,
        ),
    ensures
        exists|fd: i32|
            #[trigger] call_ensures(
                open,
                (OpenRequest {
                    event: builder@.event,
                    read_format: builder@.read_format,
                    cpu: builder@.cpu,
                    group_fd: Some(old(leader)@.fd),
                },),
                fd,
            ) && (result matches Ok(c) ==> c@.fd == fd),
        result matches Ok(c) ==> {
            &&& c@.read_format == builder@.read_format
            &&& c@.member_count == 1
            &&& exists|code: i32|
                code >= 0 && #[trigger] call_ensures(query_id, (c@.fd,), (code, c@.id))
            &&& final(leader)@.member_count == old(leader)@.member_count + 1
        },
        result is Err ==> final(leader)@.member_count == old(leader)@.member_count,
        final(leader)@.fd == old(leader)@.fd,
        final(leader)@.id == old(leader)@.id,
        final(leader)@.read_format == old(leader)@.read_format,
{
    let request = OpenRequest {
        event: builder@.event,
        read_format: builder@.read_format,
        cpu: builder@.cpu,
        group_fd: Some(old(leader)@.fd),
    };
    assert(joining(builder@, old(leader)@.fd) == request);
    let (fd0, code0, id0) = choose|fd0: i32, code0: i32, id0: u64|
        {
            &&& call_ensures(open, (joining(builder@, old(leader)@.fd),), fd0)
            &&& fd0 >= 0 ==> call_ensures(query_id, (fd0,), (code0, id0))
            &&& #[trigger] build_outcome(
                builder@.read_format,
                fd0,
                code0,
                id0,
                state_of(result),
            )
        };
    assert(call_ensures(open, (request,), fd0));
    if let Ok(c) = result {
        assert(call_ensures(query_id, (c@.fd,), (code0, c@.id)));
    }
}

/// A counter that is added to a group was asked for with the event, the format and the
/// processor of its builder, and with the group. The group then counts one more member, and
/// only then.
pub proof fn law_added_as_asked<O, I>(
    group: &mut Group,
    builder: Builder,
    open: O,
    query_id: I,
    result: Result<Counter, Error>,
) where O: FnOnce(OpenRequest) -> i32, I: FnOnce(i32) -> (i32, u64)
    requires
        old(group)@.member_count < u32::MAX,
        call_ensures(Group::add::<O, I>, (group, &builder, open, query_id), result),
    ensures
        exists|fd: i32|
            #[trigger] call_ensures(
                open,
                (OpenRequest {
                    event: builder@.event,
                    read_format: builder@.read_format,
                    cpu: builder@.cpu,
                    group_fd: Some(old(group)@.fd),
                },),
                fd,
            ) && (result matches Ok(c) ==> c@.fd == fd),
        result matches Ok(c) ==> {
            &&& c@.read_format == builder@.read_format
            &&& c@.member_count == 1
            &&& exists|code: i32|
                code >= 0 && #[trigger] call_ensures(query_id, (c@.fd,), (code, c@.id))
            &&& final(group)@.member_count == old(group)@.member_count + 1
        },
        result is Err ==> final(group)@.member_count == old(group)@.member_count,
        final(group)@.fd == old(group)@.fd,
        final(group)@.id == old(group)@.id,
        final(group)@.read_format == old(group)@.read_format,
{
    let request = OpenRequest {
        event: builder@.event,
        read_format: builder@.read_format,
        cpu: builder@.cpu,
        group_fd: Some(old(group)@.fd),
    };
    assert(joining(builder@, old(group)@.fd) == request);
    let (fd0, code0, id0) = choose|fd0: i32, code0: i32, id0: u64|
        {
            &&& call_ensures(open, (joining(builder@, old(group)@.fd),), fd0)
            &&& fd0 >= 0 ==> call_ensures(query_id, (fd0,), (code0, id0))
            &&& #[trigger] build_outcome(
                builder@.read_format,
                fd0,
                code0,
                id0,
                state_of(result),
            )
        };
    assert(call_ensures(open, (request,), fd0));
    if let Ok(c) = result {
        assert(call_ensures(query_id, (c@.fd,), (code0, c@.id)));
    }
}

/// What a builder is told is what it asks for, and it forgets nothing that it was told
/// before.
pub proof fn law_builder_keeps_what_it_is_told(
    builder: Builder,
    event: Event,
    cpu: usize,
    f: ReadFormat,
    next: Builder,
)
    ensures
        call_ensures(Builder::new, (), next) ==> next@ == default_request(),
        call_ensures(Group::builder, (), next) ==> next@ == group_request(),
        call_ensures(Builder::kind, (builder, event), next) ==> next@.event == event
            && next@.read_format == builder@.read_format && next@.cpu == builder@.cpu,
        call_ensures(Builder::one_cpu, (builder, cpu), next) ==> next@.event == builder@.event
            && next@.read_format == builder@.read_format && next@.cpu == Some(cpu),
        call_ensures(Builder::read_format, (builder, f), next) ==> next@.event == builder@.event
            && next@.read_format == f && next@.cpu == builder@.cpu,
{
}

/// A call that an operation on a counter makes goes to the file descriptor of the counter
/// with the request of that operation, and the operation fails exactly if the call does. The
/// operation leaves the counter as it is.
pub proof fn law_operations_make_their_call<F>(
    counter: &mut Counter,
    call: F,
    bpf: i32,
    result: Result<(), Error>,
) where F: FnOnce(i32, Ioctl) -> i32
    ensures
        call_ensures(Counter::enable::<F>, (counter, call), result) ==> called(
            call,
            old(counter)@.fd,
            Ioctl::Enable(0),
            result,
        ) && final(counter)@ == old(counter)@,
        call_ensures(Counter::enable_group::<F>, (counter, call), result) ==> called(
            call,
            old(counter)@.fd,
            Ioctl::Enable(1),
            result,
        ) && final(counter)@ == old(counter)@,
        call_ensures(Counter::disable::<F>, (counter, call), result) ==> called(
            call,
            old(counter)@.fd,
            Ioctl::Disable(0),
            result,
        ) && final(counter)@ == old(counter)@,
        call_ensures(Counter::disable_group::<F>, (counter, call), result) ==> called(
            call,
            old(counter)@.fd,
            Ioctl::Disable(1),
            result,
        ) && final(counter)@ == old(counter)@,
        call_ensures(Counter::reset::<F>, (counter, call), result) ==> called(
            call,
            old(counter)@.fd,
            Ioctl::Reset(0),
            result,
        ) && final(counter)@ == old(counter)@,
        call_ensures(Counter::reset_group::<F>, (counter, call), result) ==> called(
            call,
            old(counter)@.fd,
            Ioctl::Reset(1),
            result,
        ) && final(counter)@ == old(counter)@,
        call_ensures(Counter::set_bpf::<F>, (counter, bpf, call), result) ==> called(
            call,
            old(counter)@.fd,
            Ioctl::SetBpf(bpf as u32),
            result,
        ) && final(counter)@ == old(counter)@,
{
}

/// Whether `call` was made with the file descriptor and the request, and the result says
/// whether it failed.
pub open spec fn called<F>(call: F, fd: i32, request: Ioctl, result: Result<(), Error>) -> bool
    where F: FnOnce(i32, Ioctl) -> i32
{
    exists|code: i32|
        {
            &&& #[trigger] call_ensures(call, (fd, request), code)
            &&& result is Ok <==> code >= 0
            &&& result matches Err(e) ==> e matches Error::Os(n) && is_last_os_error(n)
        }
}

/// A call that an operation on a group makes goes to the file descriptor of the group with
/// the request of that operation, for all members at once.
pub proof fn law_group_operations_make_their_call<F>(
    group: &mut Group,
    call: F,
    result: Result<(), Error>,
) where F: FnOnce(i32, Ioctl) -> i32
    ensures
        call_ensures(Group::enable::<F>, (group, call), result) ==> called(
            call,
            old(group)@.fd,
            Ioctl::Enable(1),
            result,
        ) && final(group)@ == old(group)@,
        call_ensures(Group::disable::<F>, (group, call), result) ==> called(
            call,
            old(group)@.fd,
            Ioctl::Disable(1),
            result,
        ) && final(group)@ == old(group)@,
        call_ensures(Group::reset::<F>, (group, call), result) ==> called(
            call,
            old(group)@.fd,
            Ioctl::Reset(1),
            result,
        ) && final(group)@ == old(group)@,
{
}

/// A result is made of what a system call returned: the error with the code if that is less
/// than zero, and what it returned otherwise.
pub proof fn law_result_of_call(r: i32, code: i32, result: Result<i32, Error>)
    requires
        call_ensures(errno_result::<i32>, (r, code), result),
    ensures
        r < 0 ==> result == Err::<i32, _>(Error::Os(code)),
        r >= 0 ==> result == Ok::<_, Error>(r),
{
}

/// The code, the kind and the text that an error is asked for are its own.
pub proof fn law_errors_say_what_they_are(
    e: Error,
    code: Option<i32>,
    kind: ErrorKind,
    text: Option<&'static str>,
)
    ensures
        call_ensures(Error::raw_os_error, (&e,), code) ==> match e {
            Error::Os(n) => code == Some(n),
            Error::Parse(_) => code == Some(28i32),
            _ => code is None,
        },
        call_ensures(Error::kind, (&e,), kind) ==> match e {
            Error::Os(_) => kind == ErrorKind::Os,
            Error::Unscheduled => kind == ErrorKind::UnexpectedEof,
            _ => kind == ErrorKind::Other,
        },
        call_ensures(Error::message, (&e,), text) ==> (text is None <==> e is Os),
{
}

/// Counts that were made of words say what the words hold: the number of members, both
/// times, and for each member but the first its count under its id.
pub proof fn law_counts_say_what_the_words_hold(
    words: Vec<u64>,
    counts: Counts,
    len: usize,
    enabled: u64,
    running: u64,
    n: usize,
    pair: (u64, &u64),
    member: Counter,
    value: Option<&u64>,
)
    requires
        call_ensures(Counts::new, (words,), Some(counts)),
    ensures
        words@.len() >= 3 + 2 * words@[0],
        call_ensures(Counts::len, (&counts,), len) ==> len == words@[0],
        call_ensures(Counts::time_enabled, (&counts,), enabled) ==> enabled == words@[1],
        call_ensures(Counts::time_running, (&counts,), running) ==> running == words@[2],
        n < words@[0] && call_ensures(Counts::nth_ref, (&counts, n), pair) ==> pair.0 == words@[4
            + 2 * n] && *pair.1 == words@[3 + 2 * n],
        call_ensures(Counts::get, (&counts, &member), value) ==> match value {
            Some(v) => exists|i: int|
                {
                    &&& 1 <= i < words@[0]
                    &&& #[trigger] words@[4 + 2 * i] == member@.id
                    &&& *v == words@[3 + 2 * i]
                    &&& forall|j: int| 1 <= j < i ==> #[trigger] words@[4 + 2 * j] != member@.id
                },
            None => forall|i: int| 1 <= i < words@[0] ==> #[trigger] words@[4 + 2 * i] != member@.id,
        },
{
    let entries = counts@.entries;
    law_first_with_id(entries, member@.id, 1);
    assert forall|j: int| 0 <= j < words@[0] implies #[trigger] words@[4 + 2 * j]
        == entries[j].id.unwrap() && words@[3 + 2 * j] == entries[j].value by {}
    if let Some(i) = position_of_id(entries, member@.id, 1) {
        assert(words@[4 + 2 * i] == member@.id);
    }
}

/// What came out of an iterator, as a model.
pub open spec fn model_of<T: View>(item: Option<T>) -> Option<T::V> {
    match item {
        Some(t) => Some(t@),
        None => None,
    }
}

/// Whether the item after the first `n` was taken from the front.
pub open spec fn taken_from_front(
    before: Seq<EntryModel>,
    n: int,
    item: Option<EntryModel>,
    after: Seq<EntryModel>,
) -> bool {
    if n < before.len() {
        item == Some(before[n]) && after == before.subrange(n + 1, before.len() as int)
    } else {
        item is None && after.len() == 0
    }
}

/// Whether the item before the last `n` was taken from the back.
pub open spec fn taken_from_back(
    before: Seq<EntryModel>,
    n: int,
    item: Option<EntryModel>,
    after: Seq<EntryModel>,
) -> bool {
    if n < before.len() {
        item == Some(before[before.len() - 1 - n]) && after == before.subrange(
            0,
            before.len() - 1 - n,
        )
    } else {
        item is None && after.len() == 0
    }
}

/// Items are taken from the end that is asked for, each once and in order, until none are
/// left.
pub proof fn law_items_taken_in_order(
    iter: &mut GroupIter<'_>,
    n: usize,
    item: Option<GroupEntry>,
)
    ensures
        call_ensures(GroupIter::next, (iter,), item) ==> taken_from_front(
            old(iter)@,
            0,
            model_of(item),
            final(iter)@,
        ),
        call_ensures(GroupIter::nth, (iter, n), item) ==> taken_from_front(
            old(iter)@,
            n as int,
            model_of(item),
            final(iter)@,
        ),
        call_ensures(GroupIter::next_back, (iter,), item) ==> taken_from_back(
            old(iter)@,
            0,
            model_of(item),
            final(iter)@,
        ),
        call_ensures(GroupIter::nth_back, (iter, n), item) ==> taken_from_back(
            old(iter)@,
            n as int,
            model_of(item),
            final(iter)@,
        ),
{
    let all = old(iter)@;
    if n < all.len() {
        assert(all.skip(n + 1) =~= all.subrange(n + 1, all.len() as int));
        assert(all.take(all.len() - 1 - n) =~= all.subrange(0, all.len() - 1 - n));
    }
    if all.len() > 0 {
        assert(all.skip(1) =~= all.subrange(1, all.len() as int));
        assert(all.drop_last() =~= all.subrange(0, all.len() - 1));
    }
}

/// The same holds of the items of a group that was just taken apart.
pub proof fn law_inner_items_taken_in_order(
    iter: &mut read::GroupIter<'_>,
    n: usize,
    item: Option<read::GroupEntry>,
)
    ensures
        call_ensures(read::GroupIter::next, (iter,), item) ==> taken_from_front(
            old(iter)@,
            0,
            model_of(item),
            final(iter)@,
        ),
        call_ensures(read::GroupIter::nth, (iter, n), item) ==> taken_from_front(
            old(iter)@,
            n as int,
            model_of(item),
            final(iter)@,
        ),
        call_ensures(read::GroupIter::next_back, (iter,), item) ==> taken_from_back(
            old(iter)@,
            0,
            model_of(item),
            final(iter)@,
        ),
        call_ensures(read::GroupIter::nth_back, (iter, n), item) ==> taken_from_back(
            old(iter)@,
            n as int,
            model_of(item),
            final(iter)@,
        ),
{
    let all = old(iter)@;
    if n < all.len() {
        assert(all.skip(n + 1) =~= all.subrange(n + 1, all.len() as int));
        assert(all.take(all.len() - 1 - n) =~= all.subrange(0, all.len() - 1 - n));
    }
    if all.len() > 0 {
        assert(all.skip(1) =~= all.subrange(1, all.len() as int));
        assert(all.drop_last() =~= all.subrange(0, all.len() - 1));
    }
}

/// An iterator says how many items are to come, and which is the last.
pub proof fn law_items_counted(
    iter: GroupIter<'_>,
    inner: read::GroupIter<'_>,
    n: usize,
    hint: (usize, Option<usize>),
    last: Option<GroupEntry>,
    inner_last: Option<read::GroupEntry>,
)
    ensures
        call_ensures(GroupIter::len, (&iter,), n) ==> n == iter@.len(),
        call_ensures(GroupIter::count, (iter,), n) ==> n == iter@.len(),
        call_ensures(GroupIter::size_hint, (&iter,), hint) ==> hint.0 == iter@.len() && hint.1
            == Some(hint.0),
        call_ensures(GroupIter::last, (iter,), last) ==> if iter@.len() > 0 {
            model_of(last) == Some(iter@[iter@.len() - 1])
        } else {
            last is None
        },
        call_ensures(read::GroupIter::len, (&inner,), n) ==> n == inner@.len(),
        call_ensures(read::GroupIter::count, (inner,), n) ==> n == inner@.len(),
        call_ensures(read::GroupIter::size_hint, (&inner,), hint) ==> hint.0 == inner@.len()
            && hint.1 == Some(hint.0),
        call_ensures(read::GroupIter::last, (inner,), inner_last) ==> if inner@.len() > 0 {
            model_of(inner_last) == Some(inner@[inner@.len() - 1])
        } else {
            inner_last is None
        },
{
}

/// Counts are listed from the second member on, each with its id and its count, in order.
pub proof fn law_counts_listed_in_order(
    counts: Counts,
    first: CountsIter<'_>,
    iter: &mut CountsIter<'_>,
    item: Option<(u64, &u64)>,
)
    ensures
        call_ensures(Counts::iter, (&counts,), first) ==> first@ == members(counts@.entries),
        call_ensures(CountsIter::next, (iter,), item) ==> match item {
            Some((id, value)) => old(iter)@.len() > 0 && old(iter)@[0].id == Some(id) && old(iter)@[0].value == *value && final(iter)@ == old(iter)@.subrange(
                1,
                old(iter)@.len() as int,
            ),
            None => old(iter)@.len() == 0 && final(iter)@.len() == 0,
        },
{
    let all = old(iter)@;
    if all.len() > 0 {
        assert(all.skip(1) =~= all.subrange(1, all.len() as int));
    }
}

/// Words are taken one after the other, and none that are not there.
pub proof fn law_words_taken_in_order<'a>(
    parser: &mut Parser<'a>,
    len: usize,
    word: Result<u64, ParseError>,
    slice: Result<&'a [u64], ParseError>,
)
    ensures
        call_ensures(Parser::parse_u64, (parser,), word) ==> match word {
            Ok(w) => old(parser)@ == seq![w] + final(parser)@,
            Err(e) => e == ParseError::UnexpectedEnd && old(parser)@.len() == 0 && final(parser)@.len() == 0,
        },
        call_ensures(Parser::parse_slice, (parser, len), slice) ==> match slice {
            Ok(s) => s@.len() == len && old(parser)@ == s@ + final(parser)@,
            Err(e) => e == ParseError::UnexpectedEnd && old(parser)@.len() < len && final(parser)@
                == old(parser)@,
        },
{
    let all = old(parser)@;
    if all.len() > 0 {
        assert(all =~= seq![all[0]] + all.skip(1));
    }
    if all.len() >= len {
        assert(all =~= all.take(len as int) + all.skip(len as int));
    }
}

/// A format is asked for its flags and lengths as the set of flags that it is.
pub proof fn law_formats_say_what_they_are(
    f: ReadFormat,
    g: ReadFormat,
    bits: u64,
    yes: bool,
    n: usize,
)
    ensures
        call_ensures(ReadFormat::from_bits_retain, (bits,), g) ==> g.bits == bits,
        call_ensures(ReadFormat::bits, (&f,), bits) ==> bits == f.bits,
        call_ensures(ReadFormat::all, (), g) ==> g.bits == 31,
        call_ensures(ReadFormat::is_empty, (&f,), yes) ==> yes == (f.bits == 0),
        call_ensures(ReadFormat::contains, (&f, g), yes) ==> yes == (f.bits & g.bits == g.bits),
        call_ensures(ReadFormat::prefix_len, (&f,), n) ==> n == 1 + f.bits % 2 + f.bits / 2 % 2,
        call_ensures(ReadFormat::element_len, (&f,), n) ==> n == 1 + f.bits / 4 % 2 + f.bits / 16
            % 2,
{
    law_flags_are_bits(f);
}

/// A buffer gives the words that it holds, and holds the words that are written to it.
pub proof fn law_buffers_hold_words(
    buffer: ReadBuffer,
    words: &[u64],
    filled: &mut ReadBuffer,
    room: &mut [u64],
)
    ensures
        call_ensures(ReadBuffer::words, (&buffer,), words) ==> words@ == buffer@.words,
        call_ensures(ReadBuffer::words_mut, (filled,), room) ==> {
            &&& old(room)@ == old(filled)@.words
            &&& final(filled)@.words == final(room)@
            &&& final(filled)@.elements == old(filled)@.elements
        },
{
}

/// Whether a read can be gone on with is what the operations that go on ask for, and whether
/// a buffer can be had is whether its size can be addressed.
pub proof fn law_faults_are_found(
    counter: Counter,
    buffer: ReadBuffer,
    outcome: Result<usize, Error>,
    fault: Option<Fault>,
    can: bool,
    first: ReadBuffer,
)
    ensures
        call_ensures(Counter::read_fault, (&counter, &buffer, &outcome), fault) ==> fault
            == read_fault(counter@, buffer@, outcome),
        call_ensures(Counter::group_fault, (&counter, &buffer, &outcome), fault) ==> fault
            == group_fault(counter@, buffer@, outcome),
        call_ensures(Counter::full_fault, (&counter, &buffer, &outcome), fault) ==> fault
            == full_fault(counter@, buffer@, outcome),
        call_ensures(Counter::can_read, (&counter,), can) ==> can == (8 * first_size(counter@)
            <= isize::MAX),
        call_ensures(Counter::read_buffer, (&counter,), first) ==> first@.words.len()
            == first_size(counter@) && forall|i: int|
            0 <= i < first@.words.len() ==> (#[trigger] first@.words[i]) == 0,
        call_ensures(Counter::can_add_member, (&counter,), can) ==> can == (
        counter@.member_count < u32::MAX),
{
    law_first_buffer_is_empty(counter@);
}

/// A group is the counter that leads it, in whichever way it is asked for.
pub proof fn law_group_is_its_leader(
    group: Group,
    inner: &Counter,
    owned: Counter,
    id: u64,
    fd: i32,
    changed: &mut Group,
    leader: &mut Counter,
)
    ensures
        call_ensures(Group::as_counter, (&group,), inner) ==> inner@ == group@,
        call_ensures(Group::into_counter, (group,), owned) ==> owned@ == group@,
        call_ensures(Group::id, (&group,), id) ==> id == group@.id,
        call_ensures(Group::as_raw_fd, (&group,), fd) ==> fd == group@.fd,
        call_ensures(Group::into_raw_fd, (group,), fd) ==> fd == group@.fd,
        call_ensures(Group::as_counter_mut, (changed,), leader) ==> old(leader)@ == old(changed)@
            && final(changed)@ == final(leader)@,
{
}

/// A new group was asked for as groups are, and is read as it was asked for.
pub proof fn law_new_group_as_asked<O, I>(open: O, query_id: I, group: Group) where
    O: FnOnce(OpenRequest) -> i32,
    I: FnOnce(i32) -> (i32, u64),

    requires
        call_ensures(Group::new::<O, I>, (open, query_id), Ok::<Group, Error>(group)),
    ensures
        group@.fd >= 0,
        group@.read_format.bits == 15,
        group@.member_count == 1,
        call_ensures(
            open,
            (OpenRequest {
                event: Event { kind: 1, config: 9 },
                read_format: ReadFormat { bits: 15 },
                cpu: None,
                group_fd: None,
            },),
            group@.fd,
        ),
        exists|code: i32|
            code >= 0 && #[trigger] call_ensures(query_id, (group@.fd,), (code, group@.id)),
{
    law_default_requests();
    let (fd0, code0, id0) = choose|fd0: i32, code0: i32, id0: u64|
        {
            &&& call_ensures(open, (group_request(),), fd0)
            &&& fd0 >= 0 ==> call_ensures(query_id, (fd0,), (code0, id0))
            &&& #[trigger] build_outcome(
                group_request().read_format,
                fd0,
                code0,
                id0,
                group_state_of(Ok::<Group, Error>(group)),
            )
        };
    assert(group_request() == (OpenRequest {
        event: Event { kind: 1, config: 9 },
        read_format: ReadFormat { bits: 15 },
        cpu: None,
        group_fd: None,
    }));
    assert(call_ensures(query_id, (group@.fd,), (code0, group@.id)));
}

/// A copy of what was read is the same, and so is what was read when it holds its words
/// itself. A group value is what it was made of, and is told only to pass over its first
/// entry.
pub proof fn law_copies_are_the_same<'a>(
    group: read::GroupValue<'a>,
    owned: read::GroupValue<'static>,
    value: CounterValue,
    value_copy: CounterValue,
    g: GroupValue,
    g_copy: GroupValue,
    changed: &mut GroupValue,
)
    ensures
        call_ensures(read::GroupValue::into_owned, (group,), owned) ==> owned@ == group@,
        call_ensures(CounterValue::clone, (&value,), value_copy) ==> value_copy == value,
        call_ensures(GroupValue::clone, (&g,), g_copy) ==> g_copy@ == g@,
        call_ensures(GroupValue::new, (owned,), g) ==> g@.group == owned@ && !g@.skip_first,
        call_ensures(GroupValue::skip_group, (changed,), ()) ==> final(changed)@.group == old(changed)@.group && final(changed)@.skip_first,
{
}

/// What is shown of a counter is its file descriptor and its id, and what is shown of a value
/// are its count, the times that it has, its id and its lost samples.
pub proof fn law_shown_values(
    counter: Counter,
    value: CounterValue,
    text: String,
    fields: Vec<(&'static str, Field)>,
)
    ensures
        call_ensures(Counter::debug_string, (&counter,), text) ==> text@ == "Counter { fd: "@
            + signed_decimal(counter@.fd as int) + ", id: "@ + decimal(counter@.id as nat) + " }"@,
        call_ensures(CounterValue::fields, (&value,), fields) ==> labels(fields@) == seq![
            ("value"@, Field::Number(value@.value)),
        ] + optional_field("time_enabled"@, value@.time_enabled) + optional_field(
            "time_running"@,
            value@.time_running,
        ) + seq![("id"@, Field::Optional(value@.id)), ("lost"@, Field::Optional(value@.lost))],
{
}

/// What is shown of entries, groups and counts are their values, and those that a group
/// lists.
pub proof fn law_shown_groups(
    entry: GroupEntry,
    inner: read::GroupEntry,
    group: GroupValue,
    counts: Counts,
    text: String,
    fields: Vec<(&'static str, Field)>,
    has: bool,
)
    ensures
        call_ensures(GroupEntry::fields, (&entry,), fields) && entry@.id is Some ==> labels(
            fields@,
        ) == seq![
            ("value"@, Field::Number(entry@.value)),
            ("id"@, Field::Number(entry@.id.unwrap())),
        ] + optional_field("lost"@, entry@.lost),
        call_ensures(GroupEntry::debug_string, (&entry,), text) ==> text@ == entry_text(entry@),
        call_ensures(read::GroupEntry::debug_string, (&inner,), text) ==> text@
            == "GroupEntry { value: "@ + decimal(inner@.value as nat) + labelled(
            ", id: "@,
            inner@.id,
        ) + labelled(", lost: "@, inner@.lost) + " }"@,
        call_ensures(GroupValue::fields, (&group,), fields) ==> labels(fields@) == optional_field(
            "time_enabled"@,
            group@.group.time_enabled,
        ) + optional_field("time_running"@, group@.group.time_running),
        call_ensures(GroupValue::debug_string, (&group,), text) ==> text@ == group_text(group@),
        call_ensures(GroupValue::has_ids, (&group,), has) ==> has == all_have_ids(group@.listed()),
        call_ensures(Counts::debug_string, (&counts,), text) ==> text@ == "{"@ + pairs_text(
            members(counts@.entries),
        ) + "}"@,
{
}

/// The step that reads a group gives the group that the kernel wrote, and counts its
/// members.
pub proof fn law_group_step_gives_group(
    counter: &mut Counter,
    buffer: &mut ReadBuffer,
    len: usize,
    group: GroupModel,
    step: Step<read::GroupValue<'static>>,
)
    requires
        holds_group(old(buffer)@.words, len, old(counter)@.read_format, group),
        call_ensures(Counter::do_read_group, (counter, buffer, Ok::<usize, Error>(len)), step),
    ensures
        step matches Step::Done(Ok(g)) && g@ == group,
        final(counter)@.member_count == group.entries.len(),
        final(counter)@.fd == old(counter)@.fd,
        final(counter)@.id == old(counter)@.id,
        final(counter)@.read_format == old(counter)@.read_format,
{
    law_group_read_delivers(old(counter)@, old(buffer)@, group, len);
    law_group_faults(old(counter)@, old(buffer)@, len, Error::Unscheduled);
}

/// A counter fails to be built only if one of the two calls failed, and the id is not asked
/// for if there is no file descriptor to ask with.
pub proof fn law_building_fails_with_its_calls<O, I>(
    builder: Builder,
    open: O,
    query_id: I,
    e: Error,
) where O: FnOnce(OpenRequest) -> i32, I: FnOnce(i32) -> (i32, u64)
    requires
        call_ensures(
            Builder::build::<O, I>,
            (&builder, open, query_id),
            Err::<Counter, Error>(e),
        ),
    ensures
        e matches Error::Os(n) && is_last_os_error(n),
        ({
            ||| exists|fd: i32| fd < 0 && #[trigger] call_ensures(open, (builder@,), fd)
            ||| exists|fd: i32, code: i32, id: u64|
                {
                    &&& fd >= 0
                    &&& call_ensures(open, (builder@,), fd)
                    &&& code < 0
                    &&& #[trigger] call_ensures(query_id, (fd,), (code, id))
                }
        }),
{
    let (fd0, code0, id0) = choose|fd0: i32, code0: i32, id0: u64|
        {
            &&& call_ensures(open, (builder@,), fd0)
            &&& fd0 >= 0 ==> call_ensures(query_id, (fd0,), (code0, id0))
            &&& #[trigger] build_outcome(
                builder@.read_format,
                fd0,
                code0,
                id0,
                state_of(Err::<Counter, Error>(e)),
            )
        };
    if fd0 < 0 {
        assert(call_ensures(open, (builder@,), fd0));
    } else {
        assert(call_ensures(query_id, (fd0,), (code0, id0)));
    }
}

/// The id of a counter is asked for with its file descriptor, and what is asked of a counter
/// at all goes to its file descriptor.
pub proof fn law_calls_go_to_the_counter<Q, F>(
    fd: i32,
    f: ReadFormat,
    query_id: Q,
    made: Result<Counter, Error>,
    counter: Counter,
    ioctl: F,
    result: Result<(), Error>,
) where Q: FnOnce(i32) -> (i32, u64), F: FnOnce(i32) -> i32
    ensures
        call_ensures(Counter::new_internal::<Q>, (fd, f, query_id), made) ==> exists|
            code: i32,
            id: u64,
        |
            {
                &&& #[trigger] call_ensures(query_id, (fd,), (code, id))
                &&& made is Ok <==> code >= 0
                &&& made matches Ok(c) ==> c@.fd == fd && c@.id == id && c@.read_format == f
                    && c@.member_count == 1
                &&& made matches Err(e) ==> e matches Error::Os(n) && is_last_os_error(n)
            },
        call_ensures(Counter::ioctl::<F>, (&counter, ioctl), result) ==> exists|code: i32|
            {
                &&& #[trigger] call_ensures(ioctl, (counter@.fd,), code)
                &&& result is Ok <==> code >= 0
                &&& result matches Err(e) ==> e matches Error::Os(n) && is_last_os_error(n)
            },
{
}

} // verus!
