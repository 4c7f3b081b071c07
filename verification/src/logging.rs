//! Choosing log files by age and cutting the tail of the newest one.
use vstd::prelude::*;

use crate::text::{
    chars_of, ends_with, join, join_strings, lemma_join_concat, lines, split_lines, string_of_range,
    views,
};

verus! {

/// A file of the log directory and when it was last written (nanoseconds
/// from the Unix epoch, negative before it).
#[derive(Debug, PartialEq, Eq)]
pub struct LogEntry {
    pub path: String,
    pub modified: i128,
}

/// The first index at or after `from` whose entry is older than `key`, or
/// the length.
pub open spec fn older_index(s: Seq<LogEntry>, key: i128, from: int) -> int
    decreases s.len() - from,
{
    if from >= s.len() || from < 0 {
        s.len() as int
    } else if s[from].modified < key {
        from
    } else {
        older_index(s, key, from + 1)
    }
}

/// `e` put into the newest-first sequence `sorted` after every entry that is
/// not older than it.
pub open spec fn insert_newest_first(sorted: Seq<LogEntry>, e: LogEntry) -> Seq<LogEntry> {
    sorted.insert(older_index(sorted, e.modified, 0), e)
}

/// The entries ordered newest first; entries of equal age keep their order,
/// as a stable sort by descending modification time gives them.
pub open spec fn newest_first(s: Seq<LogEntry>) -> Seq<LogEntry>
    decreases s.len(),
{
    if s.len() == 0 {
        seq![]
    } else {
        insert_newest_first(newest_first(s.drop_last()), s.last())
    }
}

/// No entry is newer than the one before it.
pub open spec fn is_newest_first(s: Seq<LogEntry>) -> bool {
    forall|i: int, j: int| 0 <= i <= j < s.len() ==> s[j].modified <= s[i].modified
}

/// The paths of the entries.
pub open spec fn entry_paths(s: Seq<LogEntry>) -> Seq<Seq<char>> {
    s.map_values(|e: LogEntry| e.path@)
}

/// The paths of the newest `limit` files (all of them without a limit),
/// newest first.
pub open spec fn collect_spec(entries: Seq<LogEntry>, limit: Option<usize>) -> Seq<Seq<char>> {
    let sorted = newest_first(entries);
    let n = match limit {
        Some(l) => if l < sorted.len() {
            l as int
        } else {
            sorted.len() as int
        },
        None => sorted.len() as int,
    };
    entry_paths(sorted.take(n))
}

proof fn lemma_older_index_bounds(s: Seq<LogEntry>, key: i128, from: int)
    requires
        0 <= from <= s.len(),
    ensures
        from <= older_index(s, key, from) <= s.len(),
        forall|k: int| from <= k < older_index(s, key, from) ==> s[k].modified >= key,
        older_index(s, key, from) < s.len() ==> s[older_index(s, key, from)].modified < key,
    decreases s.len() - from,
{
    if from < s.len() && s[from].modified >= key {
        lemma_older_index_bounds(s, key, from + 1);
    }
}

proof fn lemma_older_index_at(s: Seq<LogEntry>, key: i128, from: int, i: int)
    requires
        0 <= from <= i <= s.len(),
        forall|k: int| from <= k < i ==> s[k].modified >= key,
        i == s.len() || s[i].modified < key,
    ensures
        older_index(s, key, from) == i,
    decreases i - from,
{
    if from < i {
        lemma_older_index_at(s, key, from + 1, i);
    }
}

/// The entries ordered newest first, entries of equal age in their given
/// order.
pub fn sort_newest_first(entries: Vec<LogEntry>) -> (r: Vec<LogEntry>)
    ensures
        r@ == newest_first(entries@),
{
    let ghost all = entries@;
    assert(all.take(all.len() as int) =~= all);
    let mut sorted: Vec<LogEntry> = Vec::new();
    let mut source = entries;
    let n = source.len();
    let mut rest: Vec<LogEntry> = Vec::new();
    while source.len() > 0
        invariant
            n == all.len(),
            source@ == all.take(source@.len() as int),
            rest@.len() == n - source@.len(),
            forall|k: int| 0 <= k < rest@.len() ==> #[trigger] rest@[k] == all[n - 1 - k],
        decreases source.len(),
    {
        let e = source.pop().unwrap();
        rest.push(e);
        assert(source@ =~= all.take(source@.len() as int));
    }
    assert(source@.len() == 0);
    let mut i: usize = 0;
    proof {
        assert(all.take(0) =~= Seq::<LogEntry>::empty());
    }
    while i < n
        invariant
            n == all.len(),
            i <= n,
            rest@.len() == n - i,
            forall|k: int| 0 <= k < rest@.len() ==> #[trigger] rest@[k] == all[n - 1 - k],
            sorted@ == newest_first(all.take(i as int)),
        decreases n - i,
    {
        let e = rest.pop().unwrap();
        assert(e == all[i as int]);
        let mut p: usize = 0;
        while p < sorted.len() && sorted[p].modified >= e.modified
            invariant
                p <= sorted@.len(),
                forall|k: int| 0 <= k < p ==> sorted@[k].modified >= e.modified,
            decreases sorted.len() - p,
        {
            p = p + 1;
        }
        proof {
            lemma_older_index_at(sorted@, e.modified, 0, p as int);
            assert(all.take(i + 1).drop_last() =~= all.take(i as int));
            assert(all.take(i + 1).last() == e);
        }
        sorted.insert(p, e);
        i = i + 1;
    }
    assert(all.take(n as int) =~= all);
    sorted
}

/// The paths of the newest `limit` log files (all without a limit), newest
/// first; files of equal age keep the order in which they were listed.
pub fn collect_log_files(entries: Vec<LogEntry>, limit: Option<usize>) -> (r: Vec<String>)
    ensures
        views(r@) == collect_spec(entries@, limit),
{
    let ghost all = entries@;
    let sorted = sort_newest_first(entries);
    let n = match limit {
        Some(l) => if l < sorted.len() {
            l
        } else {
            sorted.len()
        },
        None => sorted.len(),
    };
    let mut out: Vec<String> = Vec::new();
    let mut i: usize = 0;
    while i < n
        invariant
            n <= sorted@.len(),
            i <= n,
            views(out@) == entry_paths(sorted@.take(i as int)),
        decreases n - i,
    {
        let ghost before = out@;
        let p = sorted[i].path.clone();
        out.push(p);
        proof {
            assert(out@ == before.push(p));
            assert(views(out@) =~= views(before).push(p@));
            assert(entry_paths(sorted@.take(i + 1)) =~= entry_paths(sorted@.take(i as int)).push(
                sorted@[i as int].path@,
            ));
        }
        i = i + 1;
    }
    out
}

proof fn lemma_insert_keeps_order(sorted: Seq<LogEntry>, e: LogEntry)
    requires
        is_newest_first(sorted),
    ensures
        is_newest_first(insert_newest_first(sorted, e)),
{
    let p = older_index(sorted, e.modified, 0);
    lemma_older_index_bounds(sorted, e.modified, 0);
    let r = sorted.insert(p, e);
    assert forall|i: int, j: int| 0 <= i <= j < r.len() implies r[j].modified <= r[i].modified by {
        if j < p {
        } else if j == p {
            if i < p {
                assert(r[i] == sorted[i]);
            }
        } else {
            assert(r[j] == sorted[j - 1]);
            if i < p {
                assert(r[i] == sorted[i]);
            } else if i == p {
                assert(sorted[j - 1].modified <= sorted[p].modified);
            } else {
                assert(r[i] == sorted[i - 1]);
            }
        }
    }
}

/// The newest-first order is sorted: no entry is newer than one before it.
pub proof fn law_newest_first_is_sorted(s: Seq<LogEntry>)
    ensures
        is_newest_first(newest_first(s)),
    decreases s.len(),
{
    if s.len() > 0 {
        law_newest_first_is_sorted(s.drop_last());
        lemma_insert_keeps_order(newest_first(s.drop_last()), s.last());
    }
}

/// Ordering the entries newest first neither drops nor adds an entry.
pub proof fn law_newest_first_is_permutation(s: Seq<LogEntry>)
    ensures
        newest_first(s).to_multiset() == s.to_multiset(),
        newest_first(s).len() == s.len(),
    decreases s.len(),
{
    broadcast use vstd::seq_lib::to_multiset_insert, vstd::seq_lib::to_multiset_build;

    if s.len() == 0 {
        assert(s =~= Seq::<LogEntry>::empty());
        assert(newest_first(s) =~= Seq::<LogEntry>::empty());
    } else {
        law_newest_first_is_permutation(s.drop_last());
        let sorted = newest_first(s.drop_last());
        let p = older_index(sorted, s.last().modified, 0);
        lemma_older_index_bounds(sorted, s.last().modified, 0);
        vstd::seq_lib::to_multiset_insert(sorted, p, s.last());
        vstd::seq_lib::to_multiset_build(s.drop_last(), s.last());
        assert(s.drop_last().push(s.last()) =~= s);
        assert(newest_first(s) == sorted.insert(p, s.last()));
    }
}

/// The number of files that `/logs` packs: the limit, or all of them.
pub open spec fn collect_count(len: nat, limit: Option<usize>) -> int {
    match limit {
        Some(l) => if l < len {
            l as int
        } else {
            len as int
        },
        None => len as int,
    }
}

/// Collecting with a limit keeps the newest files: the kept and the left-out
/// entries together are all the entries, at most `limit` are kept, and no
/// left-out entry is newer than a kept one.
pub proof fn law_collected_logs_are_the_newest(entries: Seq<LogEntry>, limit: Option<usize>)
    ensures
        ({
            let sorted = newest_first(entries);
            let n = collect_count(entries.len(), limit);
            &&& collect_spec(entries, limit) == entry_paths(sorted.take(n))
            &&& sorted.take(n).len() == n
            &&& (limit matches Some(l) ==> n <= l)
            &&& sorted.take(n).to_multiset().add(sorted.skip(n).to_multiset())
                == entries.to_multiset()
            &&& forall|i: int, j: int|
                0 <= i < n && 0 <= j < sorted.skip(n).len() ==> (#[trigger] sorted.skip(
                    n,
                )[j]).modified <= (#[trigger] sorted.take(n)[i]).modified
        }),
{
    let sorted = newest_first(entries);
    law_newest_first_is_sorted(entries);
    law_newest_first_is_permutation(entries);
    let n = collect_count(entries.len(), limit);
    assert(sorted.take(n) + sorted.skip(n) =~= sorted);
    vstd::seq_lib::lemma_multiset_commutative(sorted.take(n), sorted.skip(n));
    assert forall|i: int, j: int|
        0 <= i < n && 0 <= j < sorted.skip(n).len() implies (#[trigger] sorted.skip(
        n,
    )[j]).modified <= (#[trigger] sorted.take(n)[i]).modified by {
        assert(sorted.skip(n)[j] == sorted[n + j]);
        assert(sorted.take(n)[i] == sorted[i]);
    }
}

/// The index of the newest entry, the last of equally new ones, as
/// `Iterator::max_by` picks it; `None` for no entries.
pub open spec fn newest_index(s: Seq<LogEntry>) -> Option<int>
    decreases s.len(),
{
    if s.len() == 0 {
        None
    } else {
        match newest_index(s.drop_last()) {
            None => Some(s.len() - 1),
            Some(p) => if s.last().modified >= s[p].modified {
                Some(s.len() - 1)
            } else {
                Some(p)
            },
        }
    }
}

/// The path of the newest log file.
pub fn newest_log_file(entries: &Vec<LogEntry>) -> (r: Option<String>)
    ensures
        match newest_index(entries@) {
            None => r is None,
            Some(i) => r matches Some(p) && p@ == entries@[i].path@,
        },
{
    if entries.len() == 0 {
        return None;
    }
    let mut best: usize = 0;
    let mut i: usize = 1;
    proof {
        assert(entries@.take(1).drop_last() =~= Seq::<LogEntry>::empty());
        assert(newest_index(entries@.take(1).drop_last()) is None);
        assert(newest_index(entries@.take(1)) == Some(0int));
    }
    while i < entries.len()
        invariant
            1 <= i <= entries@.len(),
            best < i,
            newest_index(entries@.take(i as int)) == Some(best as int),
        decreases entries.len() - i,
    {
        proof {
            assert(entries@.take(i + 1).drop_last() =~= entries@.take(i as int));
            assert(entries@.take(i + 1).last() == entries@[i as int]);
            assert(entries@.take(i + 1)[best as int] == entries@[best as int]);
        }
        if entries[i].modified >= entries[best].modified {
            best = i;
        }
        i = i + 1;
    }
    assert(entries@.take(entries@.len() as int) =~= entries@);
    Some(entries[best].path.clone())
}

/// The last `line_limit` lines of `contents` (at least one), joined with
/// `\n`, cut to their last `max_chars` characters.
pub open spec fn tail_spec(contents: Seq<char>, line_limit: usize, max_chars: usize) -> Seq<char> {
    let ls = lines(contents);
    let n = if line_limit < 1 {
        1
    } else {
        line_limit as int
    };
    let kept = if ls.len() <= n {
        ls
    } else {
        ls.skip(ls.len() - n)
    };
    let tail = join(kept, "\n"@);
    if tail.len() <= max_chars {
        tail
    } else {
        tail.skip(tail.len() - max_chars)
    }
}

/// The tail never holds more than `max_chars` characters, however long the
/// log is.
pub proof fn law_tail_fits(contents: Seq<char>, line_limit: usize, max_chars: usize)
    ensures
        tail_spec(contents, line_limit, max_chars).len() <= max_chars,
{
}

/// The tail is the last lines of the log, as many as asked for (at least
/// one) or all of them when there are fewer, joined with `\n`; when that
/// text is longer than `max_chars`, its last `max_chars` characters. Either
/// way the tail is the end of the log's lines joined with `\n`.
pub proof fn law_tail_is_the_last_lines(contents: Seq<char>, line_limit: usize, max_chars: usize)
    ensures
        ({
            let ls = lines(contents);
            let want: int = if line_limit == 0 {
                1
            } else {
                line_limit as int
            };
            let k: int = if want <= ls.len() {
                want
            } else {
                ls.len() as int
            };
            let kept = ls.subrange(ls.len() - k, ls.len() as int);
            let joined = join(kept, "\n"@);
            let tail = tail_spec(contents, line_limit, max_chars);
            &&& kept.len() == k
            &&& (forall|i: int| 0 <= i < k ==> #[trigger] kept[i] == ls[ls.len() - k + i])
            &&& joined.len() <= max_chars ==> tail == joined
            &&& joined.len() > max_chars ==> tail == joined.subrange(
                joined.len() - max_chars,
                joined.len() as int,
            )
            &&& ends_with(join(ls, "\n"@), tail)
        }),
{
    let ls = lines(contents);
    let want: int = if line_limit == 0 {
        1
    } else {
        line_limit as int
    };
    let k: int = if want <= ls.len() {
        want
    } else {
        ls.len() as int
    };
    let kept = ls.subrange(ls.len() - k, ls.len() as int);
    if ls.len() <= want {
        assert(kept =~= ls);
    } else {
        assert(kept =~= ls.skip(ls.len() - want));
    }
    let joined = join(kept, "\n"@);
    let tail = tail_spec(contents, line_limit, max_chars);
    let full = join(ls, "\n"@);
    assert(tail == joined || tail == joined.skip(joined.len() - max_chars));
    if joined.len() > max_chars {
        assert(joined.skip(joined.len() - max_chars) =~= joined.subrange(
            joined.len() - max_chars,
            joined.len() as int,
        ));
    }
    // `tail` ends `joined`
    assert(joined.subrange(joined.len() - tail.len(), joined.len() as int) =~= tail);
    if k < ls.len() {
        let front = ls.subrange(0, ls.len() - k);
        assert(front + kept =~= ls);
        lemma_join_concat(front, kept, "\n"@);
        assert(full == join(front, "\n"@) + "\n"@ + joined);
        assert(full.subrange(full.len() - tail.len(), full.len() as int) =~= joined.subrange(
            joined.len() - tail.len(),
            joined.len() as int,
        ));
    } else {
        assert(kept =~= ls);
    }
}

/// The newest entry is as new as every entry, and no entry after it is as
/// new: among equally new files the last one listed is taken.
pub proof fn law_newest_is_the_latest(s: Seq<LogEntry>)
    ensures
        s.len() == 0 ==> newest_index(s) is None,
        s.len() > 0 ==> (newest_index(s) matches Some(i) && 0 <= i < s.len() && (forall|j: int|
            0 <= j < s.len() ==> #[trigger] s[j].modified <= s[i].modified) && (forall|j: int|
            i < j < s.len() ==> #[trigger] s[j].modified < s[i].modified)),
    decreases s.len(),
{
    if s.len() > 0 {
        let t = s.drop_last();
        law_newest_is_the_latest(t);
        assert forall|j: int| 0 <= j < t.len() implies t[j] == s[j] by {}
        match newest_index(t) {
            None => {
                assert(t.len() == 0);
            },
            Some(p) => {
                assert(t[p] == s[p]);
                if s.last().modified >= s[p].modified {
                    assert forall|j: int| 0 <= j < s.len() implies #[trigger] s[j].modified
                        <= s[s.len() - 1].modified by {
                        if j < t.len() {
                            assert(t[j].modified <= t[p].modified);
                        }
                    }
                } else {
                    assert forall|j: int| 0 <= j < s.len() implies #[trigger] s[j].modified
                        <= s[p].modified by {
                        if j < t.len() {
                            assert(t[j].modified <= t[p].modified);
                        }
                    }
                    assert forall|j: int| p < j < s.len() implies #[trigger] s[j].modified
                        < s[p].modified by {
                        if j < t.len() {
                            assert(t[j].modified < t[p].modified);
                        }
                    }
                }
            },
        }
    }
}

/// The tail of a log text.
pub fn tail_text(contents: &str, line_limit: usize, max_chars: usize) -> (r: String)
    ensures
        r@ == tail_spec(contents@, line_limit, max_chars),
{
    let ls = split_lines(contents);
    let n: usize = if line_limit < 1 {
        1
    } else {
        line_limit
    };
    let start: usize = if ls.len() <= n {
        0
    } else {
        ls.len() - n
    };
    let mut kept: Vec<String> = Vec::new();
    let mut i = start;
    while i < ls.len()
        invariant
            start <= i <= ls@.len(),
            views(kept@) == views(ls@).subrange(start as int, i as int),
        decreases ls.len() - i,
    {
        let ghost before = kept@;
        let l = ls[i].clone();
        kept.push(l);
        proof {
            assert(kept@ == before.push(l));
            assert(views(kept@) =~= views(before).push(l@));
            assert(views(ls@).subrange(start as int, i + 1) =~= views(ls@).subrange(
                start as int,
                i as int,
            ).push(ls@[i as int]@));
        }
        i = i + 1;
    }
    proof {
        let lv = lines(contents@);
        assert(views(ls@) == lv);
        if lv.len() <= n {
            assert(views(ls@).subrange(0, ls@.len() as int) =~= lv);
        } else {
            assert(views(ls@).subrange(start as int, ls@.len() as int) =~= lv.skip(lv.len() - n));
        }
    }
    let tail = join_strings(&kept, "\n");
    let chars = chars_of(tail.as_str());
    if chars.len() <= max_chars {
        tail
    } else {
        let r = string_of_range(&chars, chars.len() - max_chars, chars.len());
        assert(chars@.subrange(chars.len() - max_chars, chars.len() as int) =~= chars@.skip(
            chars.len() - max_chars,
        ));
        r
    }
}

} // verus!
