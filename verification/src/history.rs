//! The history store: the ordered log of submitted lines, its navigation
//! cursor, and the format of the optional backing log.
//!
//! The backing log itself is a file owned by the surrounding program; this
//! module fixes its format: one entry per line, newline-terminated. `load`
//! turns the log's bytes into entries, and `encode_entry` gives the bytes
//! that recording one more entry appends.

use vstd::prelude::*;

verus! {

/// The byte that terminates each entry in the backing log.
pub const NL: u8 = 10;

/// The bytes that recording `line` appends to the backing log.
pub open spec fn encode_entry_spec(line: Seq<u8>) -> Seq<u8> {
    line + seq![NL]
}

/// Walks the log from the front, growing the current entry `cur` and the
/// finished entries `acc`; a newline finishes the current entry, and empty
/// entries are skipped.
pub open spec fn parse_acc(log: Seq<u8>, cur: Seq<u8>, acc: Seq<Seq<u8>>) -> Seq<Seq<u8>>
    decreases log.len(),
{
    if log.len() == 0 {
        if cur.len() == 0 {
            acc
        } else {
            acc.push(cur)
        }
    } else if log[0] == NL {
        parse_acc(
            log.drop_first(),
            Seq::empty(),
            if cur.len() == 0 {
                acc
            } else {
                acc.push(cur)
            },
        )
    } else {
        parse_acc(log.drop_first(), cur.push(log[0]), acc)
    }
}

/// The entries that a backing log's bytes hold: the maximal runs of bytes
/// between newlines, empty runs skipped.
pub open spec fn parse_log(log: Seq<u8>) -> Seq<Seq<u8>> {
    parse_acc(log, Seq::empty(), Seq::empty())
}

/// A newline-terminated prefix of the log is parsed on its own: what follows
/// it starts a fresh entry and only adds to the finished ones.
proof fn lemma_parse_acc_split(log: Seq<u8>, rest: Seq<u8>, cur: Seq<u8>, acc: Seq<Seq<u8>>)
    requires
        log.len() > 0,
        log.last() == NL,
    ensures
        parse_acc(log + rest, cur, acc) == parse_acc(rest, Seq::empty(), parse_acc(log, cur, acc)),
    decreases log.len(),
{
    let full = log + rest;
    let tail = log.drop_first();
    assert(full[0] == log[0]);
    assert(full.drop_first() =~= tail + rest);
    if log[0] == NL {
        let acc2 = if cur.len() == 0 {
            acc
        } else {
            acc.push(cur)
        };
        assert(parse_acc(full, cur, acc) == parse_acc(tail + rest, Seq::empty(), acc2));
        assert(parse_acc(log, cur, acc) == parse_acc(tail, Seq::empty(), acc2));
        if tail.len() == 0 {
            assert(tail + rest =~= rest);
            assert(parse_acc(tail, Seq::empty(), acc2) == acc2);
        } else {
            assert(tail.last() == log.last());
            lemma_parse_acc_split(tail, rest, Seq::empty(), acc2);
        }
    } else {
        assert(tail.len() > 0);
        assert(tail.last() == log.last());
        assert(parse_acc(full, cur, acc) == parse_acc(tail + rest, cur.push(log[0]), acc));
        assert(parse_acc(log, cur, acc) == parse_acc(tail, cur.push(log[0]), acc));
        lemma_parse_acc_split(tail, rest, cur.push(log[0]), acc);
    }
}

/// One newline-free, newline-terminated line parses to exactly one finished
/// entry: the current entry extended by that line.
proof fn lemma_parse_acc_line(line: Seq<u8>, cur: Seq<u8>, acc: Seq<Seq<u8>>)
    requires
        cur.len() + line.len() > 0,
        forall|i: int| 0 <= i < line.len() ==> line[i] != NL,
    ensures
        parse_acc(line + seq![NL], cur, acc) == acc.push(cur + line),
    decreases line.len(),
{
    let full = line + seq![NL];
    if line.len() == 0 {
        assert(full =~= seq![NL]);
        assert(full[0] == NL);
        assert(full.drop_first() =~= Seq::<u8>::empty());
        assert(cur.len() > 0);
        assert(parse_acc(full, cur, acc) == parse_acc(Seq::<u8>::empty(), Seq::empty(), acc.push(cur)));
        assert(parse_acc(Seq::<u8>::empty(), Seq::<u8>::empty(), acc.push(cur)) == acc.push(cur));
        assert(cur + line =~= cur);
    } else {
        assert(full[0] == line[0]);
        assert(full.drop_first() =~= line.drop_first() + seq![NL]);
        assert(parse_acc(full, cur, acc) == parse_acc(
            line.drop_first() + seq![NL],
            cur.push(line[0]),
            acc,
        ));
        lemma_parse_acc_line(line.drop_first(), cur.push(line[0]), acc);
        assert(cur.push(line[0]) + line.drop_first() =~= cur + line);
    }
}

/// Law: recording a line in the backing log and loading that log again
/// reproduces the old entries with the recorded line as the last one.
///
/// The line must be non-empty (empty submissions are never recorded) and hold
/// no newline, and the log must be well formed: empty or newline-terminated,
/// as every log this store writes is.
pub proof fn lemma_push_then_reload(log: Seq<u8>, line: Seq<u8>)
    requires
        line.len() > 0,
        forall|i: int| 0 <= i < line.len() ==> line[i] != NL,
        log.len() == 0 || log.last() == NL,
    ensures
        parse_log(log + encode_entry_spec(line)) == parse_log(log).push(line),
{
    if log.len() == 0 {
        assert(log + encode_entry_spec(line) =~= line + seq![NL]);
        lemma_parse_acc_line(line, Seq::empty(), Seq::empty());
        assert(Seq::<u8>::empty() + line =~= line);
    } else {
        lemma_parse_acc_split(log, encode_entry_spec(line), Seq::empty(), Seq::empty());
        lemma_parse_acc_line(line, Seq::empty(), parse_log(log));
        assert(Seq::<u8>::empty() + line =~= line);
    }
}

/// A byte vector's deep view is its view.
proof fn lemma_bytes_deep_view(v: Vec<u8>)
    ensures
        v.deep_view() == v@,
{
    assert(v.deep_view() =~= v@);
}

/// Pushing one entry pushes its view onto the deep view.
proof fn lemma_entries_push_deep_view(v1: Vec<Vec<u8>>, x: Vec<u8>, v2: Vec<Vec<u8>>)
    requires
        v2@ == v1@.push(x),
    ensures
        v2.deep_view() == v1.deep_view().push(x@),
{
    lemma_bytes_deep_view(x);
    assert forall|i: int| 0 <= i < v2.deep_view().len() implies v2.deep_view()[i] == v1.deep_view().push(
        x@,
    )[i] by {
        if i < v1@.len() {
        }
    }
    assert(v2.deep_view() =~= v1.deep_view().push(x@));
}

/// One entry of the deep view is that entry's view.
proof fn lemma_entries_deep_view_index(v: Vec<Vec<u8>>, i: int)
    requires
        0 <= i < v@.len(),
    ensures
        v.deep_view()[i] == v@[i]@,
{
    lemma_bytes_deep_view(v@[i]);
}

/// Navigation position and recalled entry after one ArrowUp: one entry
/// older, or a no-op when already at the oldest.
pub open spec fn navigate_up_spec(entries: Seq<Seq<u8>>, nav: int) -> (int, Option<Seq<u8>>) {
    if nav > 0 {
        (nav - 1, Some(entries[nav - 1]))
    } else {
        (nav, None)
    }
}

/// Navigation position and recalled text after one ArrowDown: one entry
/// newer, handing back the blank live line past the newest entry, or a no-op
/// when already live.
pub open spec fn navigate_down_spec(entries: Seq<Seq<u8>>, nav: int) -> (int, Option<Seq<u8>>) {
    if nav < entries.len() {
        (
            nav + 1,
            if nav + 1 < entries.len() {
                Some(entries[nav + 1])
            } else {
                Some(Seq::empty())
            },
        )
    } else {
        (nav, None)
    }
}

/// The view of an optional recalled line.
pub open spec fn opt_bytes_view(o: Option<Vec<u8>>) -> Option<Seq<u8>> {
    match o {
        Some(v) => Some(v@),
        None => None,
    }
}

/// The ordered log of submitted lines and the navigation cursor into it.
///
/// `nav_pos == entries.len()` means navigation is at the live, not yet
/// submitted line.
pub struct HistoryStore {
    pub entries: Vec<Vec<u8>>,
    pub nav_pos: usize,
}

impl HistoryStore {
    /// The entries as mathematical sequences of bytes.
    pub open spec fn entries_view(&self) -> Seq<Seq<u8>> {
        self.entries.deep_view()
    }

    /// The navigation cursor stays within `[0, entries.len()]` and no entry
    /// is empty.
    pub open spec fn wf(&self) -> bool {
        &&& self.nav_pos <= self.entries@.len()
        &&& forall|i: int| 0 <= i < self.entries_view().len() ==> self.entries_view()[i].len() > 0
    }

    /// An empty store, navigation at the live line.
    pub fn new() -> (r: HistoryStore)
        ensures
            r.wf(),
            r.entries_view() == Seq::<Seq<u8>>::empty(),
            r.nav_pos == 0,
    {
        let r = HistoryStore { entries: Vec::new(), nav_pos: 0 };
        proof {
            assert(r.entries_view() =~= Seq::<Seq<u8>>::empty());
        }
        r
    }

    /// Builds the store from the backing log's bytes, read once at session
    /// start; navigation starts at the live line.
    pub fn load(log: &Vec<u8>) -> (r: HistoryStore)
        ensures
            r.wf(),
            r.entries_view() == parse_log(log@),
            r.nav_pos == r.entries@.len(),
    {
        let mut entries: Vec<Vec<u8>> = Vec::new();
        let mut cur: Vec<u8> = Vec::new();
        let mut i: usize = 0;
        proof {
            assert(entries.deep_view() =~= Seq::<Seq<u8>>::empty());
            assert(log@.subrange(0, log@.len() as int) =~= log@);
        }
        while i < log.len()
            invariant
                i <= log@.len(),
                parse_log(log@) == parse_acc(
                    log@.subrange(i as int, log@.len() as int),
                    cur@,
                    entries.deep_view(),
                ),
                forall|j: int|
                    0 <= j < entries.deep_view().len() ==> entries.deep_view()[j].len() > 0,
            decreases log@.len() - i,
        {
            let b = log[i];
            let ghost rem = log@.subrange(i as int, log@.len() as int);
            proof {
                assert(rem[0] == log@[i as int]);
                assert(rem.drop_first() =~= log@.subrange(i + 1, log@.len() as int));
            }
            if b == NL {
                if cur.len() > 0 {
                    let ghost entries0 = entries;
                    let ghost cur0 = cur;
                    proof {
                        assert(parse_acc(rem, cur0@, entries0.deep_view()) == parse_acc(
                            rem.drop_first(),
                            Seq::<u8>::empty(),
                            entries0.deep_view().push(cur0@),
                        ));
                    }
                    entries.push(cur);
                    cur = Vec::new();
                    proof {
                        lemma_entries_push_deep_view(entries0, cur0, entries);
                    }
                } else {
                    proof {
                        assert(parse_acc(rem, cur@, entries.deep_view()) == parse_acc(
                            rem.drop_first(),
                            Seq::<u8>::empty(),
                            entries.deep_view(),
                        ));
                        assert(cur@ =~= Seq::<u8>::empty());
                    }
                }
            } else {
                proof {
                    assert(parse_acc(rem, cur@, entries.deep_view()) == parse_acc(
                        rem.drop_first(),
                        cur@.push(b),
                        entries.deep_view(),
                    ));
                }
                cur.push(b);
            }
            i = i + 1;
        }
        proof {
            assert(log@.subrange(log@.len() as int, log@.len() as int) =~= Seq::<u8>::empty());
        }
        if cur.len() > 0 {
            let ghost entries0 = entries;
            let ghost cur0 = cur;
            entries.push(cur);
            proof {
                lemma_entries_push_deep_view(entries0, cur0, entries);
            }
        }
        let nav_pos = entries.len();
        HistoryStore { entries, nav_pos }
    }

    /// Records a submitted line: appended only if non-empty; navigation
    /// returns to the live line either way.
    pub fn push(&mut self, line: Vec<u8>)
        requires
            old(self).wf(),
        ensures
            final(self).wf(),
            line@.len() > 0 ==> final(self).entries_view() == old(self).entries_view().push(line@),
            line@.len() == 0 ==> final(self).entries_view() == old(self).entries_view(),
            final(self).nav_pos == final(self).entries@.len(),
    {
        if line.len() > 0 {
            let ghost entries0 = self.entries;
            let ghost line0 = line;
            self.entries.push(line);
            proof {
                lemma_entries_push_deep_view(entries0, line0, self.entries);
                assert(self.entries_view() == old(self).entries_view().push(line0@));
                assert forall|i: int|
                    0 <= i < self.entries_view().len() implies self.entries_view()[i].len() > 0 by {
                    if i < old(self).entries_view().len() {
                        assert(self.entries_view()[i] == old(self).entries_view()[i]);
                        assert(old(self).entries_view()[i].len() > 0);
                    } else {
                        assert(self.entries_view()[i] == line0@);
                    }
                }
            }
        }
        self.nav_pos = self.entries.len();
    }

    /// The bytes that `push` hands the backing log for one recorded line.
    pub fn encode_entry(line: &Vec<u8>) -> (r: Vec<u8>)
        ensures
            r@ == encode_entry_spec(line@),
    {
        let mut r = crate::bytes::clone_bytes(line);
        r.push(NL);
        proof {
            assert(r@ =~= encode_entry_spec(line@));
        }
        r
    }

    /// One ArrowUp: steps to the next older entry and hands it back, or does
    /// nothing when already at the oldest.
    pub fn navigate_up(&mut self) -> (r: Option<Vec<u8>>)
        requires
            old(self).wf(),
        ensures
            final(self).wf(),
            final(self).entries == old(self).entries,
            ({
                let (nav2, out) = navigate_up_spec(old(self).entries_view(), old(self).nav_pos as int);
                &&& final(self).nav_pos as int == nav2
                &&& opt_bytes_view(r) == out
            }),
    {
        if self.nav_pos > 0 {
            self.nav_pos = self.nav_pos - 1;
            let e = crate::bytes::clone_bytes(&self.entries[self.nav_pos]);
            proof {
                lemma_entries_deep_view_index(self.entries, self.nav_pos as int);
            }
            Some(e)
        } else {
            None
        }
    }

    /// One ArrowDown: steps to the next newer entry and hands it back, hands
    /// back the blank live line when stepping past the newest, or does
    /// nothing when already live.
    pub fn navigate_down(&mut self) -> (r: Option<Vec<u8>>)
        requires
            old(self).wf(),
        ensures
            final(self).wf(),
            final(self).entries == old(self).entries,
            ({
                let (nav2, out) = navigate_down_spec(
                    old(self).entries_view(),
                    old(self).nav_pos as int,
                );
                &&& final(self).nav_pos as int == nav2
                &&& opt_bytes_view(r) == out
            }),
    {
        if self.nav_pos < self.entries.len() {
            self.nav_pos = self.nav_pos + 1;
            if self.nav_pos < self.entries.len() {
                let e = crate::bytes::clone_bytes(&self.entries[self.nav_pos]);
                proof {
                    lemma_entries_deep_view_index(self.entries, self.nav_pos as int);
                }
                Some(e)
            } else {
                Some(Vec::new())
            }
        } else {
            None
        }
    }
}

/// Repeated ArrowUp presses at the model level, tracking what is shown:
/// a press that recalls nothing leaves the shown text alone.
pub open spec fn apply_ups(entries: Seq<Seq<u8>>, nav: int, shown: Option<Seq<u8>>, k: nat) -> (
    int,
    Option<Seq<u8>>,
)
    decreases k,
{
    if k == 0 {
        (nav, shown)
    } else {
        let (n2, out) = navigate_up_spec(entries, nav);
        apply_ups(
            entries,
            n2,
            if out is Some {
                out
            } else {
                shown
            },
            (k - 1) as nat,
        )
    }
}

/// Law: ArrowUp past the oldest entry is idempotent: at navigation position
/// 0, any number of further presses changes nothing and keeps showing the
/// same text.
pub proof fn lemma_up_at_oldest_idempotent(entries: Seq<Seq<u8>>, shown: Option<Seq<u8>>, k: nat)
    ensures
        apply_ups(entries, 0, shown, k) == (0int, shown),
    decreases k,
{
    if k > 0 {
        lemma_up_at_oldest_idempotent(entries, shown, (k - 1) as nat);
    }
}

/// Law: pressing ArrowUp at least as often as there are older entries lands
/// on the oldest entry and keeps showing it, however often it is repeated.
pub proof fn lemma_up_clamps_at_oldest(entries: Seq<Seq<u8>>, nav: int, shown: Option<Seq<u8>>, k: nat)
    requires
        1 <= nav <= entries.len(),
        k >= nav,
    ensures
        apply_ups(entries, nav, shown, k) == (0int, Some(entries[0])),
    decreases k,
{
    assert(apply_ups(entries, nav, shown, k) == apply_ups(
        entries,
        nav - 1,
        Some(entries[nav - 1]),
        (k - 1) as nat,
    ));
    if nav == 1 {
        lemma_up_at_oldest_idempotent(entries, Some(entries[0]), (k - 1) as nat);
    } else {
        lemma_up_clamps_at_oldest(entries, nav - 1, Some(entries[nav - 2]), (k - 1) as nat);
        assert(entries[nav - 1 - 1] == entries[nav - 2]);
    }
}

/// Law: ArrowDown from the newest entry hands back the blank live line and
/// sets navigation to live; once live, a further ArrowDown does nothing.
pub proof fn lemma_down_past_newest(entries: Seq<Seq<u8>>)
    requires
        entries.len() > 0,
    ensures
        navigate_down_spec(entries, entries.len() - 1) == (
            entries.len() as int,
            Some(Seq::<u8>::empty()),
        ),
        navigate_down_spec(entries, entries.len() as int) == (
            entries.len() as int,
            None::<Seq<u8>>,
        ),
{
}

} // verus!
