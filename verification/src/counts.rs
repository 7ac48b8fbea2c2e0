//! The counts of a group whose members are read with their ids and with the times
//! of the group.

use std::ops::Range;

use vstd::prelude::*;

use crate::counter::Counter;
use crate::read::{position_of_id, EntryModel};
use crate::text::{decimal, push_decimal};

verus! {

/// What a [`Counts`] says of a group.
#[verifier::ext_equal]
pub struct CountsModel {
    /// How long the group was enabled, in nanoseconds.
    pub time_enabled: u64,
    /// How long the group was running, in nanoseconds.
    pub time_running: u64,
    /// The members, that which leads the group first.
    pub entries: Seq<EntryModel>,
}

/// Whether the words hold the number of members, both times, and a count and an id
/// for each member.
pub open spec fn is_counts(words: Seq<u64>) -> bool {
    words.len() >= 3 && words.len() >= 3 + 2 * words[0]
}

/// What the words mean.
pub open spec fn counts_model(words: Seq<u64>) -> CountsModel {
    CountsModel {
        time_enabled: words[1],
        time_running: words[2],
        entries: Seq::new(
            words[0] as nat,
            |n: int| EntryModel { value: words[3 + 2 * n], id: Some(words[4 + 2 * n]), lost: None },
        ),
    }
}

/// The entries without that of the counter that leads the group.
pub open spec fn members(entries: Seq<EntryModel>) -> Seq<EntryModel> {
    if entries.len() == 0 {
        entries
    } else {
        entries.skip(1)
    }
}

/// A collection of counts from a group of counters.
///
/// You can index it with a reference to a specific `Counter`, or you can iterate
/// over the results it contains. The ids produced by this iteration are internal
/// identifiers assigned by the kernel.
///
/// For some kinds of events, the kernel may use timesharing to give all counters
/// access to scarce hardware registers. You can see how long a group was actually
/// running versus the entire time it was enabled using the `time_enabled` and
/// `time_running` methods.
pub struct Counts {
    /// Raw results from the read.
    data: Vec<u64>,
}

impl View for Counts {
    type V = CountsModel;

    closed spec fn view(&self) -> CountsModel {
        counts_model(self.data@)
    }
}

impl Counts {
    #[verifier::type_invariant]
    spec fn well_formed(self) -> bool {
        is_counts(self.data@)
    }

    /// The counts that the words of a read hold, or `None` if there are too few
    /// words.
    pub fn new(data: Vec<u64>) -> (counts: Option<Counts>)
        ensures
            match counts {
                Some(c) => is_counts(data@) && c@ == counts_model(data@),
                None => !is_counts(data@),
            },
    {
        if data.len() >= 3 && (data.len() as u128) >= 3 + 2 * (data[0] as u128) {
            Some(Counts { data })
        } else {
            None
        }
    }

    /// Return the number of counters this `Counts` holds results for, that which
    /// leads the group included.
    pub fn len(&self) -> (len: usize)
        ensures
            len == self@.entries.len(),
    {
        proof {
            use_type_invariant(self);
        }
        let words: usize = self.data.len();
        assert(self.data@[0] <= words);
        self.data[0] as usize
    }

    /// Return the number of nanoseconds the group was enabled that contributed to
    /// this `Counts`' contents.
    pub fn time_enabled(&self) -> (time: u64)
        ensures
            time == self@.time_enabled,
    {
        proof {
            use_type_invariant(self);
        }
        self.data[1]
    }

    /// Return the number of nanoseconds the group was actually collecting counts
    /// that contributed to this `Counts`' contents.
    pub fn time_running(&self) -> (time: u64)
        ensures
            time == self@.time_running,
    {
        proof {
            use_type_invariant(self);
        }
        self.data[2]
    }

    /// Return a range of indexes covering the count and id of the `n`'th counter.
    pub fn nth_index(n: usize) -> (range: Range<usize>)
        requires
            5 + 2 * n <= usize::MAX,
        ensures
            range.start == 3 + 2 * n,
            range.end == 5 + 2 * n,
    {
        let base: usize = 3 + 2 * n;
        base..base + 2
    }

    /// Return the id and count of the `n`'th counter.
    pub fn nth_ref(&self, n: usize) -> (pair: (u64, &u64))
        requires
            n < self@.entries.len(),
        ensures
            self@.entries[n as int].id == Some(pair.0),
            self@.entries[n as int].value == *pair.1,
    {
        proof {
            use_type_invariant(self);
        }
        let words: usize = self.data.len();
        assert(5 + 2 * n <= words);
        let range = Counts::nth_index(n);
        (self.data[range.start + 1], &self.data[range.start])
    }

    /// Return the value recorded for `member` in `self`, or `None` if `member` is
    /// not present. The counter that leads the group counts as not present.
    pub fn get(&self, member: &Counter) -> (value: Option<&u64>)
        ensures
            match value {
                Some(v) => position_of_id(self@.entries, member@.id, 1) matches Some(i) && 1 <= i
                    < self@.entries.len() && *v == self@.entries[i].value,
                None => position_of_id(self@.entries, member@.id, 1) is None,
            },
    {
        let count: usize = self.len();
        let id: u64 = member.id();
        let mut n: usize = 1;
        while n < count
            invariant
                1 <= n,
                n <= count || (count == 0 && n == 1),
                count == self@.entries.len(),
                id == member@.id,
                position_of_id(self@.entries, id, 1) == position_of_id(
                    self@.entries,
                    id,
                    n as int,
                ),
            decreases count - n,
        {
            let (found, value) = self.nth_ref(n);
            if found == id {
                return Some(value);
            }
            n = n + 1;
        }
        None
    }

    /// Return an iterator over the counts in `self`.
    ///
    /// Each item is a pair `(id, &value)`, where `id` is the number assigned to
    /// the counter by the kernel, and `value` is that counter's value. The counter
    /// that leads the group is skipped, it's just a dummy.
    pub fn iter(&self) -> (iter: CountsIter<'_>)
        ensures
            iter@ == members(self@.entries),
    {
        let iter = CountsIter { counts: self, next: 1 };
        assert(iter@ =~= members(self@.entries));
        iter
    }

    /// The counts in text, by id.
    pub fn debug_string(&self) -> (text: String)
        ensures
            text@ == "{"@ + pairs_text(members(self@.entries)) + "}"@,
    {
        let ghost listed = members(self@.entries);
        let mut text = String::new();
        text.append("{");
        assert(text@ =~= "{"@ + pairs_text(listed.take(0)));
        let count: usize = self.len();
        let mut n: usize = 1;
        while n < count
            invariant
                1 <= n,
                n <= count || (count == 0 && n == 1),
                count == self@.entries.len(),
                listed == members(self@.entries),
                text@ == "{"@ + pairs_text(listed.take(n - 1)),
            decreases count - n,
        {
            if n > 1 {
                text.append(", ");
            }
            let (id, value) = self.nth_ref(n);
            push_decimal(&mut text, id);
            text.append(": ");
            push_decimal(&mut text, *value);
            proof {
                let part = listed.take(n as int);
                assert(part.drop_last() =~= listed.take(n - 1));
                assert(part.last() == self@.entries[n as int]);
                assert(text@ =~= "{"@ + pairs_text(part));
            }
            n = n + 1;
        }
        text.append("}");
        assert(listed.take(n - 1) =~= listed);
        text
    }
}

/// A count in text, by its id.
pub open spec fn pair_text(entry: EntryModel) -> Seq<char> {
    decimal(entry.id.unwrap() as nat) + ": "@ + decimal(entry.value as nat)
}

/// Counts in text, separated by commas.
pub open spec fn pairs_text(entries: Seq<EntryModel>) -> Seq<char>
    decreases entries.len(),
{
    if entries.len() == 0 {
        seq![]
    } else if entries.len() == 1 {
        pair_text(entries[0])
    } else {
        pairs_text(entries.drop_last()) + ", "@ + pair_text(entries.last())
    }
}

impl<'c> std::ops::Index<&'c Counter> for Counts {
    type Output = u64;

    /// The count of the counter, which must be a member of the group other than
    /// that which leads it.
    fn index(&self, index: &'c Counter) -> (value: &u64)
        ensures
            *value == self@.entries[position_of_id(self@.entries, index@.id, 1).unwrap()].value,
    {
        self.get(index).unwrap()
    }
}

impl<'c> vstd::std_specs::core::IndexSpecImpl<&'c Counter> for Counts {
    open spec fn index_req(&self, index: &&'c Counter) -> bool {
        position_of_id(self@.entries, index@.id, 1) is Some
    }
}

/// An iterator over the counter values in a [`Counts`].
///
/// Each item is a pair `(id, &value)`, where `id` is the number assigned to the
/// counter by the kernel (see [`Counter::id`]), and `value` is that counter's
/// value.
pub struct CountsIter<'c> {
    counts: &'c Counts,
    next: usize,
}

impl<'c> View for CountsIter<'c> {
    type V = Seq<EntryModel>;

    /// The entries that are still to come.
    closed spec fn view(&self) -> Seq<EntryModel> {
        if self.next <= self.counts@.entries.len() {
            self.counts@.entries.skip(self.next as int)
        } else {
            Seq::empty()
        }
    }
}

impl<'c> CountsIter<'c> {
    /// The id and the count of the next counter.
    pub fn next(&mut self) -> (item: Option<(u64, &'c u64)>)
        ensures
            match item {
                Some((id, value)) => {
                    &&& old(self)@.len() > 0
                    &&& old(self)@[0].id == Some(id)
                    &&& old(self)@[0].value == *value
                    &&& final(self)@ == old(self)@.skip(1)
                },
                None => old(self)@.len() == 0 && final(self)@ == old(self)@,
            },
    {
        if self.next >= self.counts.len() {
            return None;
        }
        let counts = self.counts;
        let result = counts.nth_ref(self.next);
        self.next = self.next + 1;
        assert(self@ =~= old(self)@.skip(1));
        Some(result)
    }
}

} // verus!
