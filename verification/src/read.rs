//! The words that the kernel delivers when a counter is read, taken apart.

use std::borrow::Cow;

use vstd::prelude::*;
use vstd::slice::{slice_subrange, slice_to_vec};

use crate::flags::{flag_count, lemma_minus_group, lemma_plus_group, ReadFormat};
use crate::text::{decimal, labelled, push_decimal, push_labelled};

verus! {

/// Why a read could not be taken apart.
#[derive(Clone, Copy, Debug, PartialEq, Eq, Structural)]
pub enum ParseError {
    /// A single value was to be read under a format with `GROUP`.
    GroupSet,
    /// A group was to be read under a format without `GROUP`.
    GroupNotSet,
    /// The format holds bits that stand for no known flag.
    UnsupportedFlags,
    /// The elements that the group announces cannot be counted in a `usize`.
    TooManyElements,
    /// The words end before the format is satisfied.
    UnexpectedEnd,
}

impl ParseError {
    /// The text of the error.
    pub open spec fn text(self) -> Seq<char> {
        match self {
            ParseError::GroupSet =>
                "attempted to parse a CounterValue with a ReadFormat that has GROUP set"@,
            ParseError::GroupNotSet =>
                "attempted to parse a GroupValue with a ReadFormat that does not have GROUP set"@,
            ParseError::UnsupportedFlags => "read_format contains unsupported flags"@,
            ParseError::TooManyElements =>
                "number of elements in group read was too large for the data type"@,
            ParseError::UnexpectedEnd => "unexpected end-of-message"@,
        }
    }

    /// The text of the error.
    pub fn message(&self) -> (message: &'static str)
        ensures
            message@ == self.text(),
    {
        match self {
            ParseError::GroupSet =>
                "attempted to parse a CounterValue with a ReadFormat that has GROUP set",
            ParseError::GroupNotSet =>
                "attempted to parse a GroupValue with a ReadFormat that does not have GROUP set",
            ParseError::UnsupportedFlags => "read_format contains unsupported flags",
            ParseError::TooManyElements =>
                "number of elements in group read was too large for the data type",
            ParseError::UnexpectedEnd => "unexpected end-of-message",
        }
    }
}

/// What a read says of one counter. A value that the format leaves out is
/// `None`.
#[verifier::ext_equal]
pub struct CounterModel {
    /// The format that the counter was read under.
    pub read_format: ReadFormat,
    /// The count.
    pub value: u64,
    /// How long the counter was enabled, in nanoseconds.
    pub time_enabled: Option<u64>,
    /// How long the counter was running, in nanoseconds.
    pub time_running: Option<u64>,
    /// The id of the counter.
    pub id: Option<u64>,
    /// The number of lost samples.
    pub lost: Option<u64>,
}

/// What a read of a group says of one member.
#[verifier::ext_equal]
pub struct EntryModel {
    /// The count.
    pub value: u64,
    /// The id of the counter.
    pub id: Option<u64>,
    /// The number of lost samples.
    pub lost: Option<u64>,
}

/// What a read says of a group.
#[verifier::ext_equal]
pub struct GroupModel {
    /// The format that the group was read under.
    pub read_format: ReadFormat,
    /// How long the group was enabled, in nanoseconds.
    pub time_enabled: Option<u64>,
    /// How long the group was running, in nanoseconds.
    pub time_running: Option<u64>,
    /// The members, in the order in which the kernel lists them.
    pub entries: Seq<EntryModel>,
}

/// The word at `at`, if the format asks for it.
pub open spec fn optional_word(present: bool, words: Seq<u64>, at: int) -> Option<u64> {
    if present {
        Some(words[at])
    } else {
        None
    }
}

/// The value, or zero in its place.
pub open spec fn or_zero(word: Option<u64>) -> u64 {
    match word {
        Some(w) => w,
        None => 0,
    }
}

/// What the words of a read without `GROUP` mean under the format `f`:
///
/// ```text
/// struct read_format {
///     u64 value;         /* The value of the event */
///     u64 time_enabled;  /* if TOTAL_TIME_ENABLED */
///     u64 time_running;  /* if TOTAL_TIME_RUNNING */
///     u64 id;            /* if ID */
///     u64 lost;          /* if LOST */
/// };
/// ```
pub open spec fn counter_model(words: Seq<u64>, f: ReadFormat) -> CounterModel {
    let enabled = flag_count(f.has(ReadFormat::total_time_enabled()));
    let id = flag_count(f.has(ReadFormat::id()));
    CounterModel {
        read_format: f,
        value: words[0],
        time_enabled: optional_word(f.has(ReadFormat::total_time_enabled()), words, 1),
        time_running: optional_word(f.has(ReadFormat::total_time_running()), words, 1 + enabled),
        id: optional_word(f.has(ReadFormat::id()), words, f.prefix_words()),
        lost: optional_word(f.has(ReadFormat::lost()), words, f.prefix_words() + id),
    }
}

/// What comes of taking apart a read without `GROUP`.
pub open spec fn counter_parse(words: Seq<u64>, f: ReadFormat) -> Result<CounterModel, ParseError> {
    if f.has(ReadFormat::group()) {
        Err(ParseError::GroupSet)
    } else if !f.is_supported() {
        Err(ParseError::UnsupportedFlags)
    } else if words.len() < f.single_words() {
        Err(ParseError::UnexpectedEnd)
    } else {
        Ok(counter_model(words, f))
    }
}

/// What the words of one element of a group mean under the format `f`.
pub open spec fn entry_model(words: Seq<u64>, f: ReadFormat) -> EntryModel {
    EntryModel {
        value: words[0],
        id: optional_word(f.has(ReadFormat::id()), words, 1),
        lost: optional_word(
            f.has(ReadFormat::lost()),
            words,
            1 + flag_count(f.has(ReadFormat::id())),
        ),
    }
}

/// The words of the element `i`.
pub open spec fn element(words: Seq<u64>, f: ReadFormat, i: int) -> Seq<u64> {
    words.subrange(i * f.element_words(), (i + 1) * f.element_words())
}

/// What the words of the elements of a group mean under the format `f`. Words
/// after the last whole element mean nothing.
pub open spec fn entries_model(words: Seq<u64>, f: ReadFormat) -> Seq<EntryModel> {
    Seq::new(
        (words.len() as int / f.element_words()) as nat,
        |i: int| entry_model(element(words, f, i), f),
    )
}

/// What the words of a read with `GROUP` mean under the format `f`, where the
/// elements take up `elements` words:
///
/// ```text
/// struct read_format {
///     u64 nr;            /* The number of events */
///     u64 time_enabled;  /* if TOTAL_TIME_ENABLED */
///     u64 time_running;  /* if TOTAL_TIME_RUNNING */
///     struct {
///         u64 value;     /* The value of the event */
///         u64 id;        /* if ID */
///         u64 lost;      /* if LOST */
///     } values[nr];
/// };
/// ```
pub open spec fn group_model(words: Seq<u64>, f: ReadFormat, elements: int) -> GroupModel {
    let enabled = flag_count(f.has(ReadFormat::total_time_enabled()));
    GroupModel {
        read_format: f,
        time_enabled: optional_word(f.has(ReadFormat::total_time_enabled()), words, 1),
        time_running: optional_word(f.has(ReadFormat::total_time_running()), words, 1 + enabled),
        entries: entries_model(
            words.subrange(f.prefix_words(), f.prefix_words() + elements),
            f,
        ),
    }
}

/// The number of words that the elements of a group take up, as its first word
/// announces it.
pub open spec fn announced_words(words: Seq<u64>, f: ReadFormat) -> int {
    (words[0] as usize) * f.element_words()
}

/// What comes of taking apart a read with `GROUP`.
pub open spec fn group_parse(words: Seq<u64>, f: ReadFormat) -> Result<GroupModel, ParseError> {
    if !f.has(ReadFormat::group()) {
        Err(ParseError::GroupNotSet)
    } else if !f.is_supported() {
        Err(ParseError::UnsupportedFlags)
    } else if words.len() < f.prefix_words() {
        Err(ParseError::UnexpectedEnd)
    } else if announced_words(words, f) > usize::MAX {
        Err(ParseError::TooManyElements)
    } else if words.len() < f.prefix_words() + announced_words(words, f) {
        Err(ParseError::UnexpectedEnd)
    } else {
        Ok(group_model(words, f, announced_words(words, f)))
    }
}

/// What a read of a group says of one of its members. A value that the format
/// of the group asks for and the entry does not hold counts as zero.
pub open spec fn member_model(group: GroupModel, entry: EntryModel) -> CounterModel {
    let f = group.read_format.minus(ReadFormat::group());
    CounterModel {
        read_format: f,
        value: entry.value,
        time_enabled: group.time_enabled,
        time_running: group.time_running,
        id: if f.has(ReadFormat::id()) {
            Some(or_zero(entry.id))
        } else {
            None
        },
        lost: if f.has(ReadFormat::lost()) {
            Some(or_zero(entry.lost))
        } else {
            None
        },
    }
}

/// What a read of a lone counter says, as that of a group with one member.
pub open spec fn lone_group_model(value: CounterModel) -> GroupModel {
    GroupModel {
        read_format: value.read_format.plus(ReadFormat::group()),
        time_enabled: value.time_enabled,
        time_running: value.time_running,
        entries: seq![EntryModel { value: value.value, id: value.id, lost: value.lost }],
    }
}

/// The first position from `from` on whose entry has the id `id`.
pub open spec fn position_of_id(entries: Seq<EntryModel>, id: u64, from: int) -> Option<int>
    decreases entries.len() - from,
{
    if from >= entries.len() {
        None
    } else if entries[from].id == Some(id) {
        Some(from)
    } else {
        position_of_id(entries, id, from + 1)
    }
}

/// A cursor over the words of a read.
pub struct Parser<'a> {
    data: &'a [u64],
}

impl<'a> View for Parser<'a> {
    type V = Seq<u64>;

    /// The words that are still to be taken.
    closed spec fn view(&self) -> Seq<u64> {
        self.data@
    }
}

impl<'a> Parser<'a> {
    /// A cursor that stands before the first word of `data`.
    pub fn new(data: &'a [u64]) -> (parser: Self)
        ensures
            parser@ == data@,
    {
        Parser { data }
    }

    /// Take one word.
    pub fn parse_u64(&mut self) -> (word: Result<u64, ParseError>)
        ensures
            match word {
                Ok(w) => {
                    &&& old(self)@.len() > 0
                    &&& w == old(self)@[0]
                    &&& final(self)@ == old(self)@.skip(1)
                },
                Err(e) => {
                    &&& old(self)@.len() == 0
                    &&& e == ParseError::UnexpectedEnd
                    &&& final(self)@ == old(self)@
                },
            },
    {
        if self.data.len() == 0 {
            return Err(ParseError::UnexpectedEnd);
        }
        let first = self.data[0];
        let (_, rest) = self.data.split_at(1);
        self.data = rest;
        Ok(first)
    }

    /// Take `len` words.
    pub fn parse_slice(&mut self, len: usize) -> (slice: Result<&'a [u64], ParseError>)
        ensures
            match slice {
                Ok(s) => {
                    &&& old(self)@.len() >= len
                    &&& s@ == old(self)@.take(len as int)
                    &&& final(self)@ == old(self)@.skip(len as int)
                },
                Err(e) => {
                    &&& old(self)@.len() < len
                    &&& e == ParseError::UnexpectedEnd
                    &&& final(self)@ == old(self)@
                },
            },
    {
        if len > self.data.len() {
            return Err(ParseError::UnexpectedEnd);
        }
        let (head, rest) = self.data.split_at(len);
        self.data = rest;
        Ok(head)
    }

    /// Take one word if it is there under the format, or zero in its place.
    fn parse_optional(&mut self, present: bool) -> (word: Result<u64, ParseError>)
        ensures
            match word {
                Ok(w) => if present {
                    &&& old(self)@.len() > 0
                    &&& w == old(self)@[0]
                    &&& final(self)@ == old(self)@.skip(1)
                } else {
                    &&& w == 0
                    &&& final(self)@ == old(self)@
                },
                Err(e) => {
                    &&& present
                    &&& old(self)@.len() == 0
                    &&& e == ParseError::UnexpectedEnd
                    &&& final(self)@ == old(self)@
                },
            },
    {
        if present {
            self.parse_u64()
        } else {
            Ok(0)
        }
    }
}

/// A value read from a single counter.
pub struct CounterValue {
    read_format: ReadFormat,
    value: u64,
    time_enabled: u64,
    time_running: u64,
    id: u64,
    lost: u64,
}

impl Clone for CounterValue {
    fn clone(&self) -> (value: Self)
        ensures
            value == *self,
    {
        CounterValue {
            read_format: self.read_format,
            value: self.value,
            time_enabled: self.time_enabled,
            time_running: self.time_running,
            id: self.id,
            lost: self.lost,
        }
    }
}

impl View for CounterValue {
    type V = CounterModel;

    closed spec fn view(&self) -> CounterModel {
        let f = self.read_format;
        CounterModel {
            read_format: f,
            value: self.value,
            time_enabled: if f.has(ReadFormat::total_time_enabled()) {
                Some(self.time_enabled)
            } else {
                None
            },
            time_running: if f.has(ReadFormat::total_time_running()) {
                Some(self.time_running)
            } else {
                None
            },
            id: if f.has(ReadFormat::id()) {
                Some(self.id)
            } else {
                None
            },
            lost: if f.has(ReadFormat::lost()) {
                Some(self.lost)
            } else {
                None
            },
        }
    }
}

impl CounterValue {
    /// Take apart the words of a read without `GROUP`.
    pub fn parse(data: &[u64], read_format: ReadFormat) -> (value: Result<Self, ParseError>)
        ensures
            match value {
                Ok(v) => counter_parse(data@, read_format) == Ok::<_, ParseError>(v@),
                Err(e) => counter_parse(data@, read_format) == Err::<CounterModel, _>(e),
            },
    {
        if read_format.contains(ReadFormat::group()) {
            return Err(ParseError::GroupSet);
        }
        if !(read_format - ReadFormat::all()).is_empty() {
            return Err(ParseError::UnsupportedFlags);
        }
        let mut p = Parser::new(data);
        let value = p.parse_u64()?;
        let time_enabled = p.parse_optional(
            read_format.contains(ReadFormat::total_time_enabled()),
        )?;
        let time_running = p.parse_optional(
            read_format.contains(ReadFormat::total_time_running()),
        )?;
        let id = p.parse_optional(read_format.contains(ReadFormat::id()))?;
        let lost = p.parse_optional(read_format.contains(ReadFormat::lost()))?;
        Ok(CounterValue { read_format, value, time_enabled, time_running, id, lost })
    }

    /// The value of the member `entry` of `group`, as a value of its own: that of
    /// the entry, with the times of the group.
    pub fn from_group_and_entry(group: &GroupValue<'_>, entry: &GroupEntry) -> (value: Self)
        ensures
            value@ == member_model(group@, entry@),
    {
        proof {
            lemma_minus_group(group.read_format);
        }
        let id: u64 = match entry.id() {
            Some(id) => id,
            None => 0,
        };
        let lost: u64 = match entry.lost() {
            Some(lost) => lost,
            None => 0,
        };
        CounterValue {
            read_format: group.read_format - ReadFormat::group(),
            value: entry.value,
            time_enabled: group.time_enabled,
            time_running: group.time_running,
            id,
            lost,
        }
    }

    /// The value of the counter.
    pub fn value(&self) -> (value: u64)
        ensures
            value == self@.value,
    {
        self.value
    }

    /// How long the counter was enabled, in nanoseconds.
    pub fn time_enabled(&self) -> (time: Option<u64>)
        ensures
            time == self@.time_enabled,
    {
        if self.read_format.contains(ReadFormat::total_time_enabled()) {
            Some(self.time_enabled)
        } else {
            None
        }
    }

    /// How long the counter was running, in nanoseconds.
    pub fn time_running(&self) -> (time: Option<u64>)
        ensures
            time == self@.time_running,
    {
        if self.read_format.contains(ReadFormat::total_time_running()) {
            Some(self.time_running)
        } else {
            None
        }
    }

    /// The kernel-assigned unique id of the counter.
    pub fn id(&self) -> (id: Option<u64>)
        ensures
            id == self@.id,
    {
        if self.read_format.contains(ReadFormat::id()) {
            Some(self.id)
        } else {
            None
        }
    }

    /// The number of lost samples of the event.
    pub fn lost(&self) -> (lost: Option<u64>)
        ensures
            lost == self@.lost,
    {
        if self.read_format.contains(ReadFormat::lost()) {
            Some(self.lost)
        } else {
            None
        }
    }
}

/// One member of a group, with its values.
#[derive(Clone, Copy)]
pub struct GroupEntry {
    read_format: ReadFormat,
    value: u64,
    id: u64,
    lost: u64,
}

impl View for GroupEntry {
    type V = EntryModel;

    closed spec fn view(&self) -> EntryModel {
        EntryModel {
            value: self.value,
            id: if self.read_format.has(ReadFormat::id()) {
                Some(self.id)
            } else {
                None
            },
            lost: if self.read_format.has(ReadFormat::lost()) {
                Some(self.lost)
            } else {
                None
            },
        }
    }
}

impl GroupEntry {
    /// The entry that the words of one element hold.
    pub fn new(config: ReadFormat, slice: &[u64]) -> (entry: Self)
        requires
            slice@.len() >= config.element_words(),
        ensures
            entry@ == entry_model(slice@, config),
    {
        let value = slice[0];
        let mut next: usize = 1;
        let mut id: u64 = 0;
        if config.contains(ReadFormat::id()) {
            id = slice[next];
            next = next + 1;
        }
        let mut lost: u64 = 0;
        if config.contains(ReadFormat::lost()) {
            lost = slice[next];
        }
        GroupEntry { read_format: config, value, id, lost }
    }

    /// The value of the counter.
    pub fn value(&self) -> (value: u64)
        ensures
            value == self@.value,
    {
        self.value
    }

    /// The kernel-assigned unique ID for the counter.
    pub fn id(&self) -> (id: Option<u64>)
        ensures
            id == self@.id,
    {
        if self.read_format.contains(ReadFormat::id()) {
            Some(self.id)
        } else {
            None
        }
    }

    /// The number of lost samples of this event.
    pub fn lost(&self) -> (lost: Option<u64>)
        ensures
            lost == self@.lost,
    {
        if self.read_format.contains(ReadFormat::lost()) {
            Some(self.lost)
        } else {
            None
        }
    }

    /// The entry in text, with those values that it has.
    pub fn debug_string(&self) -> (text: String)
        ensures
            text@ == "GroupEntry { value: "@ + decimal(self@.value as nat) + labelled(
                ", id: "@,
                self@.id,
            ) + labelled(", lost: "@, self@.lost) + " }"@,
    {
        let mut text = String::new();
        text.append("GroupEntry { value: ");
        push_decimal(&mut text, self.value);
        push_labelled(&mut text, ", id: ", self.id());
        push_labelled(&mut text, ", lost: ", self.lost());
        text.append(" }");
        assert(Seq::<char>::empty() + "GroupEntry { value: "@ =~= "GroupEntry { value: "@);
        text
    }
}

/// The first `k` elements, and the others, are those of the words up to the end
/// of the element `k`, and of the others.
pub proof fn lemma_entries_split(words: Seq<u64>, f: ReadFormat, k: int)
    requires
        0 <= k <= words.len() as int / f.element_words(),
    ensures
        0 <= k * f.element_words() <= words.len(),
        entries_model(words, f).take(k) == entries_model(words.take(k * f.element_words()), f),
        entries_model(words, f).skip(k) == entries_model(words.skip(k * f.element_words()), f),
{
    let el = f.element_words();
    assert(el == 1 || el == 2 || el == 3);
    let n = words.len() as int / el;
    assert(n * el <= words.len() < (n + 1) * el);
    assert(k * el <= n * el);
    let front = words.take(k * el);
    let back = words.skip(k * el);
    assert(front.len() as int / el == k);
    assert(back.len() as int / el == n - k);
    assert forall|i: int| 0 <= i < k implies element(front, f, i) == element(words, f, i) by {
        assert(0 <= i * el <= (i + 1) * el <= k * el);
        assert(element(front, f, i) =~= element(words, f, i));
    }
    assert forall|i: int| 0 <= i < n - k implies element(back, f, i) == element(
        words,
        f,
        i + k,
    ) by {
        assert(0 <= i * el <= (i + 1) * el <= back.len());
        assert((i + k) * el == i * el + k * el);
        assert((i + k + 1) * el == (i + 1) * el + k * el);
        assert(element(back, f, i) =~= element(words, f, i + k));
    }
    assert(entries_model(words, f).take(k) =~= entries_model(front, f));
    assert(entries_model(words, f).skip(k) =~= entries_model(back, f));
}

/// The values read from a group of counters.
pub struct GroupValue<'a> {
    read_format: ReadFormat,
    time_enabled: u64,
    time_running: u64,
    data: Cow<'a, [u64]>,
}

impl<'a> Clone for GroupValue<'a> {
    fn clone(&self) -> (group: Self)
        ensures
            group@ == self@,
    {
        GroupValue {
            read_format: self.read_format,
            time_enabled: self.time_enabled,
            time_running: self.time_running,
            data: match &self.data {
                Cow::Borrowed(words) => Cow::Borrowed(*words),
                Cow::Owned(words) => Cow::Owned(slice_to_vec(words.as_slice())),
            },
        }
    }
}

impl<'a> View for GroupValue<'a> {
    type V = GroupModel;

    closed spec fn view(&self) -> GroupModel {
        let f = self.read_format;
        GroupModel {
            read_format: f,
            time_enabled: if f.has(ReadFormat::total_time_enabled()) {
                Some(self.time_enabled)
            } else {
                None
            },
            time_running: if f.has(ReadFormat::total_time_running()) {
                Some(self.time_running)
            } else {
                None
            },
            entries: entries_model(self.data@, f),
        }
    }
}

impl<'a> GroupValue<'a> {
    /// Take apart the words of a read with `GROUP`.
    pub fn parse(data: &'a [u64], read_format: ReadFormat) -> (group: Result<Self, ParseError>)
        ensures
            match group {
                Ok(g) => group_parse(data@, read_format) == Ok::<_, ParseError>(g@),
                Err(e) => group_parse(data@, read_format) == Err::<GroupModel, _>(e),
            },
    {
        if !read_format.contains(ReadFormat::group()) {
            return Err(ParseError::GroupNotSet);
        }
        if !(read_format - ReadFormat::all()).is_empty() {
            return Err(ParseError::UnsupportedFlags);
        }
        let mut p = Parser::new(data);
        let nr: usize = p.parse_u64()? as usize;
        let time_enabled = p.parse_optional(
            read_format.contains(ReadFormat::total_time_enabled()),
        )?;
        let time_running = p.parse_optional(
            read_format.contains(ReadFormat::total_time_running()),
        )?;
        let element_len: usize = read_format.element_len();
        let data_len: usize = match nr.checked_mul(element_len) {
            Some(len) => len,
            None => {
                return Err(ParseError::TooManyElements);
            },
        };
        let elements = p.parse_slice(data_len)?;
        assert(elements@ =~= data@.subrange(
            read_format.prefix_words(),
            read_format.prefix_words() + data_len,
        ));
        Ok(GroupValue { read_format, time_enabled, time_running, data: Cow::Borrowed(elements) })
    }

    /// The words of the elements.
    fn words(&self) -> (words: &[u64])
        ensures
            words@ == self.data@,
    {
        match &self.data {
            Cow::Borrowed(words) => *words,
            Cow::Owned(words) => words.as_slice(),
        }
    }

    /// An iterator over the members.
    pub fn into_iter(&self) -> (iter: GroupIter<'_>)
        ensures
            iter@ == self@.entries,
    {
        GroupIter::new(self)
    }

    /// The number of members.
    pub fn len(&self) -> (len: usize)
        ensures
            len == self@.entries.len(),
    {
        self.into_iter().count()
    }

    /// Whether there are no members.
    pub fn is_empty(&self) -> (empty: bool)
        ensures
            empty == (self@.entries.len() == 0),
    {
        self.len() == 0
    }

    /// How long the group was enabled, in nanoseconds.
    pub fn time_enabled(&self) -> (time: Option<u64>)
        ensures
            time == self@.time_enabled,
    {
        if self.read_format.contains(ReadFormat::total_time_enabled()) {
            Some(self.time_enabled)
        } else {
            None
        }
    }

    /// How long the group was running, in nanoseconds.
    pub fn time_running(&self) -> (time: Option<u64>)
        ensures
            time == self@.time_running,
    {
        if self.read_format.contains(ReadFormat::total_time_running()) {
            Some(self.time_running)
        } else {
            None
        }
    }

    /// The member at `index`.
    pub fn get(&self, index: usize) -> (entry: Option<GroupEntry>)
        ensures
            match entry {
                Some(e) => index < self@.entries.len() && e@ == self@.entries[index as int],
                None => index >= self@.entries.len(),
            },
    {
        self.into_iter().nth(index)
    }

    /// The position of the first member with the id `id`.
    fn position(&self, id: u64) -> (position: Option<usize>)
        ensures
            match position {
                Some(i) => i < self@.entries.len() && position_of_id(self@.entries, id, 0) == Some(
                    i as int,
                ),
                None => position_of_id(self@.entries, id, 0) is None,
            },
    {
        let mut iter = self.into_iter();
        let mut i: usize = 0;
        let count: usize = self.len();
        while i < count
            invariant
                i <= count,
                count == self@.entries.len(),
                iter@ == self@.entries.skip(i as int),
                position_of_id(self@.entries, id, 0) == position_of_id(
                    self@.entries,
                    id,
                    i as int,
                ),
            decreases count - i,
        {
            assert(iter@[0] == self@.entries[i as int]);
            match iter.next() {
                Some(entry) => {
                    if entry.id() == Some(id) {
                        return Some(i);
                    }
                },
                None => {},
            }
            assert(iter@ =~= self@.entries.skip(i + 1));
            i = i + 1;
        }
        None
    }

    /// The first member with the id `id`, or `None` if there is none or the
    /// group was read without ids.
    pub fn get_by_id(&self, id: u64) -> (entry: Option<GroupEntry>)
        ensures
            match entry {
                Some(e) => position_of_id(self@.entries, id, 0) matches Some(i) && 0 <= i
                    < self@.entries.len() && e@ == self@.entries[i],
                None => position_of_id(self@.entries, id, 0) is None,
            },
    {
        match self.position(id) {
            Some(i) => self.get(i),
            None => None,
        }
    }

    /// The count of the first member with the id `id`.
    pub fn get_value_by_id(&self, id: u64) -> (value: Option<&u64>)
        ensures
            match value {
                Some(v) => position_of_id(self@.entries, id, 0) matches Some(i) && 0 <= i
                    < self@.entries.len() && *v == self@.entries[i].value,
                None => position_of_id(self@.entries, id, 0) is None,
            },
    {
        match self.position(id) {
            Some(i) => {
                let words = self.words();
                let element_len: usize = self.read_format.element_len();
                proof {
                    lemma_element_bounds(words@, self.read_format, i as int);
                    assert(words@.len() == words.len());
                }
                Some(&words[i * element_len])
            },
            None => None,
        }
    }

    /// The same group, with its words held by itself.
    pub fn into_owned(self) -> (group: GroupValue<'static>)
        ensures
            group@ == self@,
    {
        GroupValue {
            read_format: self.read_format,
            time_enabled: self.time_enabled,
            time_running: self.time_running,
            data: match self.data {
                Cow::Borrowed(words) => Cow::Owned(slice_to_vec(words)),
                Cow::Owned(words) => Cow::Owned(words),
            },
        }
    }
}

impl From<CounterValue> for GroupValue<'static> {
    /// The value of a lone counter, as a group of one.
    fn from(value: CounterValue) -> (group: Self)
        ensures
            group@ == lone_group_model(value@),
    {
        let mut data: Vec<u64> = Vec::with_capacity(3);
        data.push(value.value);
        if let Some(id) = value.id() {
            data.push(id);
        }
        if let Some(lost) = value.lost() {
            data.push(lost);
        }
        let read_format = value.read_format | ReadFormat::group();
        proof {
            lemma_plus_group(value.read_format);
            let el = read_format.element_words();
            assert(data@.len() == el && (el == 1 || el == 2 || el == 3));
            assert(element(data@, read_format, 0) =~= data@);
            assert(entries_model(data@, read_format) =~= lone_group_model(value@).entries);
        }
        GroupValue {
            read_format,
            time_enabled: value.time_enabled,
            time_running: value.time_running,
            data: Cow::Owned(data),
        }
    }
}

// The postcondition of `from` itself says what it returns: a value with a vector
// in it cannot be written down in a specification.
impl vstd::std_specs::convert::FromSpecImpl<CounterValue> for GroupValue<'static> {
    open spec fn obeys_from_spec() -> bool {
        false
    }

    open spec fn from_spec(value: CounterValue) -> Self {
        arbitrary()
    }
}

/// The element `i` lies within the words.
pub proof fn lemma_element_bounds(words: Seq<u64>, f: ReadFormat, i: int)
    requires
        0 <= i < words.len() as int / f.element_words(),
    ensures
        0 <= i * f.element_words() < (i + 1) * f.element_words() <= words.len(),
        (i + 1) * f.element_words() == i * f.element_words() + f.element_words(),
{
    let el = f.element_words();
    assert(el == 1 || el == 2 || el == 3);
}

/// An iterator over the members of a group, from the front or from the back.
pub struct GroupIter<'a> {
    data: &'a [u64],
    read_format: ReadFormat,
}

impl<'a> Clone for GroupIter<'a> {
    fn clone(&self) -> (iter: Self)
        ensures
            iter == *self,
    {
        GroupIter { data: self.data, read_format: self.read_format }
    }
}

impl<'a> View for GroupIter<'a> {
    type V = Seq<EntryModel>;

    /// The members that are still to come.
    closed spec fn view(&self) -> Seq<EntryModel> {
        entries_model(self.data@, self.read_format)
    }
}

impl<'a> GroupIter<'a> {
    /// An iterator over all members of `group`.
    fn new(group: &'a GroupValue) -> (iter: Self)
        ensures
            iter@ == group@.entries,
    {
        GroupIter { data: group.words(), read_format: group.read_format }
    }

    /// The number of members that are still to come.
    pub fn len(&self) -> (len: usize)
        ensures
            len == self@.len(),
    {
        self.data.len() / self.read_format.element_len()
    }

    /// The number of members that are still to come, as lower and upper bound.
    pub fn size_hint(&self) -> (hint: (usize, Option<usize>))
        ensures
            hint.0 == self@.len(),
            hint.1 == Some(hint.0),
    {
        let len: usize = self.len();
        (len, Some(len))
    }

    /// The number of members that are still to come.
    pub fn count(self) -> (count: usize)
        ensures
            count == self@.len(),
    {
        self.len()
    }

    /// The next member from the front.
    pub fn next(&mut self) -> (entry: Option<GroupEntry>)
        ensures
            match entry {
                Some(e) => {
                    &&& old(self)@.len() > 0
                    &&& e@ == old(self)@[0]
                    &&& final(self)@ == old(self)@.skip(1)
                },
                None => old(self)@.len() == 0 && final(self)@ == old(self)@,
            },
    {
        self.nth(0)
    }

    /// The member after the next `n` from the front. All members up to it, or
    /// all that there are, are passed by.
    pub fn nth(&mut self, n: usize) -> (entry: Option<GroupEntry>)
        ensures
            match entry {
                Some(e) => {
                    &&& n < old(self)@.len()
                    &&& e@ == old(self)@[n as int]
                    &&& final(self)@ == old(self)@.skip(n + 1)
                },
                None => n >= old(self)@.len() && final(self)@.len() == 0,
            },
    {
        let len: usize = self.data.len();
        if n >= self.len() {
            let (_, rest) = self.data.split_at(len);
            self.data = rest;
            return None;
        }
        proof {
            lemma_element_bounds(self.data@, self.read_format, n as int);
            lemma_entries_split(self.data@, self.read_format, n + 1);
        }
        let element_len: usize = self.read_format.element_len();
        let start: usize = n * element_len;
        let end: usize = start + element_len;
        let entry = GroupEntry::new(self.read_format, slice_subrange(self.data, start, end));
        self.data = slice_subrange(self.data, end, len);
        Some(entry)
    }

    /// The last of the members that are still to come.
    pub fn last(self) -> (entry: Option<GroupEntry>)
        ensures
            match entry {
                Some(e) => self@.len() > 0 && e@ == self@.last(),
                None => self@.len() == 0,
            },
    {
        let mut iter = self;
        iter.next_back()
    }

    /// The next member from the back.
    pub fn next_back(&mut self) -> (entry: Option<GroupEntry>)
        ensures
            match entry {
                Some(e) => {
                    &&& old(self)@.len() > 0
                    &&& e@ == old(self)@.last()
                    &&& final(self)@ == old(self)@.drop_last()
                },
                None => old(self)@.len() == 0 && final(self)@ == old(self)@,
            },
    {
        self.nth_back(0)
    }

    /// The member before the next `n` from the back. All members down to it, or
    /// all that there are, are passed by.
    pub fn nth_back(&mut self, n: usize) -> (entry: Option<GroupEntry>)
        ensures
            match entry {
                Some(e) => {
                    &&& n < old(self)@.len()
                    &&& e@ == old(self)@[old(self)@.len() - 1 - n]
                    &&& final(self)@ == old(self)@.take(old(self)@.len() - 1 - n)
                },
                None => n >= old(self)@.len() && final(self)@.len() == 0,
            },
    {
        let count: usize = self.len();
        if n >= count {
            let (rest, _) = self.data.split_at(0);
            self.data = rest;
            return None;
        }
        let k: usize = count - 1 - n;
        proof {
            lemma_element_bounds(self.data@, self.read_format, k as int);
            lemma_entries_split(self.data@, self.read_format, k as int);
            assert(self.data@.len() == self.data.len());
        }
        let element_len: usize = self.read_format.element_len();
        let start: usize = k * element_len;
        let end: usize = start + element_len;
        let entry = GroupEntry::new(self.read_format, slice_subrange(self.data, start, end));
        self.data = slice_subrange(self.data, 0, start);
        Some(entry)
    }
}

} // verus!
