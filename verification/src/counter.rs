//! The tally of command invocations, kept in order of first use.

use vstd::prelude::*;
use crate::text::{decimal, decimal_string};

verus! {

/// The names of the entries, in order.
pub open spec fn entry_names(entries: Seq<(Seq<char>, u64)>) -> Seq<Seq<char>> {
    entries.map_values(|e: (Seq<char>, u64)| e.0)
}

/// How many times `name` has been recorded: its entry's count, or 0 when it has none.
pub open spec fn count_of(entries: Seq<(Seq<char>, u64)>, name: Seq<char>) -> nat {
    if entry_names(entries).contains(name) {
        entries[entry_names(entries).index_of(name)].1 as nat
    } else {
        0
    }
}

/// The count recorded at position `i` is the count of its name, when names are unique.
pub proof fn lemma_count_at(entries: Seq<(Seq<char>, u64)>, i: int)
    requires
        entry_names(entries).no_duplicates(),
        0 <= i < entries.len(),
    ensures
        count_of(entries, entries[i].0) == entries[i].1,
{
    let name = entries[i].0;
    assert(entries[i].0 == name);
    assert(entry_names(entries)[i] == name);
    let j = entry_names(entries).index_of(name);
    if j != i {
        assert(entry_names(entries)[j] != entry_names(entries)[i]);
    }
}

/// A name without an entry has count 0.
pub proof fn lemma_count_absent(entries: Seq<(Seq<char>, u64)>, name: Seq<char>)
    requires
        forall|k: int| 0 <= k < entries.len() ==> #[trigger] entries[k].0 != name,
    ensures
        count_of(entries, name) == 0,
{
    assert forall|k: int| 0 <= k < entries.len() implies #[trigger] entry_names(entries)[k] != name by {
        assert(entries[k].0 != name);
    }
}

/// Names are unique and every count is at least 1: a name has an entry exactly when it
/// has been recorded.
pub open spec fn well_formed_tally(entries: Seq<(Seq<char>, u64)>) -> bool {
    &&& entry_names(entries).no_duplicates()
    &&& forall|i: int| 0 <= i < entries.len() ==> #[trigger] entries[i].1 >= 1
}

/// The entries after one more invocation of `name`: its entry's count goes up by one in
/// place, or, for a name without an entry, `(name, 1)` is added at the end.
pub open spec fn recorded(entries: Seq<(Seq<char>, u64)>, name: Seq<char>) -> Seq<(Seq<char>, u64)> {
    if entry_names(entries).contains(name) {
        let i = entry_names(entries).index_of(name);
        entries.update(i, (name, (entries[i].1 + 1) as u64))
    } else {
        entries.push((name, 1u64))
    }
}

/// The counts as a map from each recorded name to its count.
pub open spec fn tally(entries: Seq<(Seq<char>, u64)>) -> Map<Seq<char>, nat> {
    Map::new(|k: Seq<char>| entry_names(entries).contains(k), |k: Seq<char>| count_of(entries, k))
}

/// In a well-formed tally a name has an entry exactly when its count is positive.
pub proof fn lemma_keys_are_counted(entries: Seq<(Seq<char>, u64)>, name: Seq<char>)
    requires
        well_formed_tally(entries),
    ensures
        entry_names(entries).contains(name) <==> count_of(entries, name) > 0,
{
    if entry_names(entries).contains(name) {
        let i = entry_names(entries).index_of(name);
        assert(entries[i].1 >= 1);
    }
}

/// One more invocation of `name`: the tally stays well formed, `name`'s count goes up by
/// one, and every other name keeps its entry and count.
pub proof fn lemma_recorded(entries: Seq<(Seq<char>, u64)>, name: Seq<char>)
    requires
        well_formed_tally(entries),
        count_of(entries, name) < u64::MAX,
    ensures
        well_formed_tally(recorded(entries, name)),
        tally(recorded(entries, name)) == tally(entries).insert(name, count_of(entries, name) + 1),
        count_of(recorded(entries, name), name) == count_of(entries, name) + 1,
        forall|other: Seq<char>| other != name
            ==> #[trigger] count_of(recorded(entries, name), other) == count_of(entries, other),
{
    let after = recorded(entries, name);
    if entry_names(entries).contains(name) {
        let i = entry_names(entries).index_of(name);
        assert(entry_names(after) =~= entry_names(entries));
        assert forall|other: Seq<char>| other != name
            implies #[trigger] count_of(after, other) == count_of(entries, other) by {
            if entry_names(entries).contains(other) {
                let j = entry_names(entries).index_of(other);
                assert(entry_names(entries)[j] == other);
                assert(j != i);
            }
        }
    } else {
        assert(entry_names(after) =~= entry_names(entries).push(name));
        assert(entry_names(after).no_duplicates()) by {
            assert forall|a: int, b: int| 0 <= a < after.len() && 0 <= b < after.len() && a != b
                implies entry_names(after)[a] != entry_names(after)[b] by {
                if a < entries.len() && b < entries.len() {
                    assert(entry_names(entries)[a] != entry_names(entries)[b]);
                } else if a < entries.len() {
                    assert(entry_names(entries)[a] == entry_names(after)[a]);
                } else if b < entries.len() {
                    assert(entry_names(entries)[b] == entry_names(after)[b]);
                }
            }
        }
        lemma_count_at(after, entries.len() as int);
        assert forall|other: Seq<char>| other != name
            implies #[trigger] count_of(after, other) == count_of(entries, other) by {
            if entry_names(entries).contains(other) {
                let j = entry_names(entries).index_of(other);
                assert(entry_names(entries)[j] == other);
                lemma_count_at(entries, j);
                assert(after[j] == entries[j]);
                lemma_count_at(after, j);
            } else {
                assert(!entry_names(after).contains(other)) by {
                    if entry_names(after).contains(other) {
                        let j = entry_names(after).index_of(other);
                        assert(entry_names(after)[j] == other);
                        if j < entries.len() {
                            assert(entry_names(entries)[j] == other);
                        }
                    }
                }
            }
        }
    }
    assert(tally(after) =~= tally(entries).insert(name, count_of(entries, name) + 1)) by {
        assert forall|k: Seq<char>| #[trigger] tally(after).contains_key(k)
            == tally(entries).insert(name, count_of(entries, name) + 1).contains_key(k) by {
            lemma_keys_are_counted(entries, k);
            lemma_keys_are_counted(after, k);
        }
    }
}

/// The order of two invocations does not matter to the counts: recording `a` then `b`
/// leaves the same names with the same counts as recording `b` then `a`.
pub proof fn law_record_order_irrelevant(entries: Seq<(Seq<char>, u64)>, a: Seq<char>, b: Seq<char>)
    requires
        well_formed_tally(entries),
        count_of(entries, a) + 2 <= u64::MAX,
        count_of(entries, b) + 2 <= u64::MAX,
    ensures
        tally(recorded(recorded(entries, a), b)) == tally(recorded(recorded(entries, b), a)),
{
    lemma_recorded(entries, a);
    lemma_recorded(recorded(entries, a), b);
    lemma_recorded(entries, b);
    lemma_recorded(recorded(entries, b), a);
    if a == b {
    } else {
        assert(tally(recorded(recorded(entries, a), b)) =~= tally(recorded(recorded(entries, b), a)));
    }
}

/// How many times `name` occurs in `calls`.
pub open spec fn occurrences(calls: Seq<Seq<char>>, name: Seq<char>) -> nat
    decreases calls.len(),
{
    if calls.len() == 0 {
        0
    } else {
        occurrences(calls.drop_last(), name) + if calls.last() == name { 1nat } else { 0nat }
    }
}

/// The entries after recording each name of `calls` in turn, starting from `entries`.
pub open spec fn recorded_all(entries: Seq<(Seq<char>, u64)>, calls: Seq<Seq<char>>) -> Seq<(Seq<char>, u64)>
    decreases calls.len(),
{
    if calls.len() == 0 {
        entries
    } else {
        recorded(recorded_all(entries, calls.drop_last()), calls.last())
    }
}

/// A name occurs at most as many times as there are calls.
pub proof fn lemma_occurrences_bounded(calls: Seq<Seq<char>>, name: Seq<char>)
    ensures
        occurrences(calls, name) <= calls.len(),
    decreases calls.len(),
{
    if calls.len() > 0 {
        lemma_occurrences_bounded(calls.drop_last(), name);
    }
}

/// Starting from an empty counter and recording one name per invoked command, every
/// name's count is the number of times it was invoked, and a name has an entry exactly
/// when it was invoked at least once. (Fewer than `u64::MAX` calls, so no count can
/// overflow.)
pub proof fn law_counts_are_call_counts(calls: Seq<Seq<char>>)
    requires
        calls.len() < u64::MAX,
    ensures
        well_formed_tally(recorded_all(Seq::empty(), calls)),
        forall|c: Seq<char>| #[trigger] count_of(recorded_all(Seq::empty(), calls), c) == occurrences(calls, c),
        forall|c: Seq<char>| #[trigger] entry_names(recorded_all(Seq::empty(), calls)).contains(c)
            <==> occurrences(calls, c) > 0,
    decreases calls.len(),
{
    let all = recorded_all(Seq::<(Seq<char>, u64)>::empty(), calls);
    if calls.len() == 0 {
        assert forall|c: Seq<char>| #[trigger] count_of(all, c) == occurrences(calls, c) by {
            lemma_count_absent(all, c);
        }
    } else {
        let prev = calls.drop_last();
        let last = calls.last();
        let before = recorded_all(Seq::<(Seq<char>, u64)>::empty(), prev);
        law_counts_are_call_counts(prev);
        lemma_occurrences_bounded(prev, last);
        assert(count_of(before, last) == occurrences(prev, last));
        lemma_recorded(before, last);
        assert(all == recorded(before, last));
        assert forall|c: Seq<char>| #[trigger] count_of(all, c) == occurrences(calls, c) by {
            assert(count_of(before, c) == occurrences(prev, c));
        }
    }
    assert forall|c: Seq<char>| #[trigger] entry_names(all).contains(c) <==> occurrences(calls, c) > 0 by {
        lemma_keys_are_counted(all, c);
    }
}

/// The plain values held by a list of entries.
pub open spec fn entries_view(v: Seq<(String, u64)>) -> Seq<(Seq<char>, u64)> {
    Seq::new(v.len(), |i: int| (v[i].0@, v[i].1))
}

/// One line of the report: `- {name}: {count}` and a line break.
pub open spec fn report_line(entry: (Seq<char>, u64)) -> Seq<char> {
    seq!['-', ' '] + entry.0 + seq![':', ' '] + decimal(entry.1 as nat) + seq!['\n']
}

/// The lines of the report for `entries`, in order.
pub open spec fn report_lines(entries: Seq<(Seq<char>, u64)>) -> Seq<char>
    decreases entries.len(),
{
    if entries.len() == 0 {
        Seq::empty()
    } else {
        report_lines(entries.drop_last()) + report_line(entries.last())
    }
}

/// The whole report: a heading line, then one line per entry.
pub open spec fn report_text(entries: Seq<(Seq<char>, u64)>) -> Seq<char> {
    "Commands used:\n"@ + report_lines(entries)
}

/// The text of one report line, spelled out: `- `, the name, `: `, the count in decimal,
/// and a line break.
pub open spec fn spelled_line(entry: (Seq<char>, u64)) -> Seq<char> {
    "- "@ + entry.0 + ": "@ + decimal(entry.1 as nat) + "\n"@
}

/// A report line is the spelled-out line.
pub proof fn lemma_line_spelled(entry: (Seq<char>, u64))
    ensures
        report_line(entry) == spelled_line(entry),
{
    reveal_strlit("- ");
    reveal_strlit(": ");
    reveal_strlit("\n");
    assert(report_line(entry) =~= spelled_line(entry));
}

/// The lines of consecutive runs of entries follow one another.
pub proof fn lemma_report_lines_concat(a: Seq<(Seq<char>, u64)>, b: Seq<(Seq<char>, u64)>)
    ensures
        report_lines(a + b) == report_lines(a) + report_lines(b),
    decreases b.len(),
{
    if b.len() == 0 {
        assert(a + b =~= a);
        assert(report_lines(a) + report_lines(b) =~= report_lines(a));
    } else {
        lemma_report_lines_concat(a, b.drop_last());
        assert((a + b).drop_last() =~= a + b.drop_last());
        assert((a + b).last() == b.last());
        assert(report_lines(a) + report_lines(b) =~= report_lines(a) + report_lines(b.drop_last()) + report_line(b.last()));
    }
}

/// With no entries the report is the heading line alone.
pub proof fn law_report_of_nothing()
    ensures
        report_text(Seq::empty()) == "Commands used:\n"@,
{
    assert(report_text(Seq::empty()) =~= "Commands used:\n"@);
}

/// One more entry adds exactly its line at the end of the report.
pub proof fn law_report_adds_line(entries: Seq<(Seq<char>, u64)>, e: (Seq<char>, u64))
    ensures
        report_text(entries.push(e)) == report_text(entries) + spelled_line(e),
{
    assert(entries.push(e).drop_last() =~= entries);
    lemma_line_spelled(e);
    assert(report_text(entries.push(e)) =~= report_text(entries) + spelled_line(e));
}

/// Every entry has its line in the report, after the lines of the entries before it.
pub proof fn law_report_shows_every_entry(entries: Seq<(Seq<char>, u64)>, i: int)
    requires
        0 <= i < entries.len(),
    ensures
        ({
            let start: int = ("Commands used:\n"@.len() + report_lines(entries.take(i)).len()) as int;
            report_text(entries).subrange(start, start + spelled_line(entries[i]).len()) == spelled_line(entries[i])
        }),
{
    let front = entries.take(i);
    let rest = entries.skip(i + 1);
    assert(entries =~= front.push(entries[i]) + rest);
    lemma_report_lines_concat(front.push(entries[i]), rest);
    assert(front.push(entries[i]).drop_last() =~= front);
    lemma_line_spelled(entries[i]);
    let head = "Commands used:\n"@;
    let line = spelled_line(entries[i]);
    assert(report_text(entries) =~= head + report_lines(front) + line + report_lines(rest));
    let start: int = (head.len() + report_lines(front).len()) as int;
    assert(report_text(entries).subrange(start, start + line.len()) =~= line);
}

/// Counts how often each command has been invoked. Each name has one entry, and the
/// entries stand in the order in which their names were first recorded.
pub struct CommandCounter {
    entries: Vec<(String, u64)>,
}

impl View for CommandCounter {
    type V = Seq<(Seq<char>, u64)>;

    closed spec fn view(&self) -> Seq<(Seq<char>, u64)> {
        entries_view(self.entries@)
    }
}

impl CommandCounter {
    #[verifier::type_invariant]
    closed spec fn names_unique(self) -> bool {
        well_formed_tally(self@)
    }

    /// An empty tally.
    pub fn new() -> (c: Self)
        ensures
            c@ == Seq::<(Seq<char>, u64)>::empty(),
            well_formed_tally(c@),
    {
        let c = CommandCounter { entries: Vec::new() };
        assert(c@ =~= Seq::<(Seq<char>, u64)>::empty());
        c
    }

    /// The number of distinct names recorded.
    pub fn len(&self) -> (r: usize)
        ensures
            r == self@.len(),
            well_formed_tally(self@),
    {
        proof { use_type_invariant(self); }
        self.entries.len()
    }

    /// Where `name` stands among the entries, if it has one.
    fn position(&self, name: &String) -> (r: Option<usize>)
        ensures
            match r {
                Some(i) => i < self@.len() && self@[i as int].0 == name@,
                None => forall|k: int| 0 <= k < self@.len() ==> #[trigger] self@[k].0 != name@,
            },
    {
        let mut i: usize = 0;
        while i < self.entries.len()
            invariant
                i <= self.entries.len(),
                self@.len() == self.entries@.len(),
                forall|k: int| 0 <= k < i ==> #[trigger] self@[k].0 != name@,
            decreases self.entries.len() - i,
        {
            if self.entries[i].0 == *name {
                return Some(i);
            }
            i = i + 1;
        }
        None
    }

    /// How many times `name` has been recorded (0 if never).
    pub fn count(&self, name: &str) -> (r: u64)
        ensures
            r == count_of(self@, name@),
    {
        let n = String::from_str(name);
        match self.position(&n) {
            Some(i) => {
                proof {
                    use_type_invariant(self);
                    lemma_count_at(self@, i as int);
                }
                self.entries[i].1
            },
            None => {
                proof { lemma_count_absent(self@, name@); }
                0
            },
        }
    }

    /// Records one more invocation of `name`: its count goes up by one in place, and a name
    /// seen for the first time gets an entry at the end with count 1; nothing else
    /// changes. A count that has reached `u64::MAX` cannot grow; the caller keeps that case
    /// out.
    pub fn record(&mut self, name: &str)
        requires
            count_of(old(self)@, name@) < u64::MAX,
        ensures
            final(self)@ == recorded(old(self)@, name@),
            well_formed_tally(final(self)@),
            tally(final(self)@) == tally(old(self)@).insert(name@, count_of(old(self)@, name@) + 1),
            count_of(final(self)@, name@) == count_of(old(self)@, name@) + 1,
            forall|other: Seq<char>| other != name@
                ==> #[trigger] count_of(final(self)@, other) == count_of(old(self)@, other),
    {
        proof { use_type_invariant(&*self); }
        let n = String::from_str(name);
        let ghost before = self@;
        proof { lemma_recorded(before, name@); }
        match self.position(&n) {
            Some(i) => {
                proof {
                    assert(entry_names(before)[i as int] == name@);
                    let j = entry_names(before).index_of(name@);
                    if j != i as int {
                        assert(entry_names(before)[j] != entry_names(before)[i as int]);
                    }
                }
                let c = self.entries[i].1;
                let mut entries: Vec<(String, u64)> = Vec::new();
                std::mem::swap(&mut entries, &mut self.entries);
                entries.set(i, (n, c + 1));
                assert(entries_view(entries@) =~= recorded(before, name@));
                self.entries = entries;
            },
            None => {
                proof {
                    if entry_names(before).contains(name@) {
                        let j = entry_names(before).index_of(name@);
                        assert(before[j].0 == name@);
                    }
                }
                let mut entries: Vec<(String, u64)> = Vec::new();
                std::mem::swap(&mut entries, &mut self.entries);
                entries.push((n, 1));
                assert(entries_view(entries@) =~= recorded(before, name@));
                self.entries = entries;
            },
        }
    }

    /// The report of the `commands` command: "Commands used:" and one line
    /// `- {name}: {count}` per recorded name, in order of first use.
    pub fn report(&self) -> (r: String)
        ensures
            r@ == report_text(self@),
    {
        let mut r = String::from_str("Commands used:\n");
        let mut i: usize = 0;
        while i < self.entries.len()
            invariant
                i <= self.entries.len(),
                self@.len() == self.entries@.len(),
                r@ == "Commands used:\n"@ + report_lines(self@.take(i as int)),
            decreases self.entries.len() - i,
        {
            let ghost before = r@;
            r.append("- ");
            r.append(self.entries[i].0.as_str());
            r.append(": ");
            let d = decimal_string(self.entries[i].1);
            r.append(d.as_str());
            r.append("\n");
            proof {
                reveal_strlit("- ");
                reveal_strlit(": ");
                reveal_strlit("\n");
                assert(self@.take(i + 1).drop_last() =~= self@.take(i as int));
                assert(r@ =~= before + report_line(self@[i as int]));
            }
            i = i + 1;
        }
        assert(self@.take(self@.len() as int) =~= self@);
        r
    }
}

} // verus!
