use vstd::prelude::*;

verus! {

/// A salt that was seen, and when (in seconds on the caller's clock).
struct SaltEntry {
    salt: Vec<u8>,
    seen_at: u64,
}

/// Records the connection salts seen within a trailing window of time, so that
/// a salt presented again within the window is refused. The clock is the
/// caller's: each check names the current time in seconds.
pub struct TimedSaltChecker {
    window_secs: u64,
    entries: Vec<SaltEntry>,
}

/// A salt seen at `seen_at` still counts at `now`.
pub open spec fn live(seen_at: u64, now: u64, window: u64) -> bool {
    (now as int) < seen_at as int + window as int
}

pub open spec fn live_at(now: u64, window: u64) -> spec_fn((Seq<u8>, u64)) -> bool {
    |e: (Seq<u8>, u64)| live(e.1, now, window)
}

/// `salt` was recorded at a time that still counts at `now`.
pub open spec fn seen_within(entries: Seq<(Seq<u8>, u64)>, salt: Seq<u8>, now: u64, window: u64) -> bool {
    exists|i: int| 0 <= i < entries.len() && (#[trigger] entries[i]).0 == salt && live(entries[i].1, now, window)
}

/// The records after a check of `salt` at `now`: those that still count, and
/// `salt` itself unless it was refused.
pub open spec fn after_check(
    entries: Seq<(Seq<u8>, u64)>,
    salt: Seq<u8>,
    now: u64,
    window: u64,
) -> Seq<(Seq<u8>, u64)> {
    let kept = entries.filter(live_at(now, window));
    if seen_within(entries, salt, now, window) {
        kept
    } else {
        kept.push((salt, now))
    }
}

spec fn entry_views(v: Seq<SaltEntry>) -> Seq<(Seq<u8>, u64)> {
    v.map_values(|e: SaltEntry| (e.salt@, e.seen_at))
}

fn bytes_equal(a: &[u8], b: &[u8]) -> (r: bool)
    ensures
        r == (a@ == b@),
{
    if a.len() != b.len() {
        return false;
    }
    let mut i: usize = 0;
    while i < a.len()
        invariant
            a@.len() == b@.len(),
            i <= a@.len(),
            forall|j: int| 0 <= j < i ==> a@[j] == b@[j],
        decreases a@.len() - i,
    {
        if a[i] != b[i] {
            return false;
        }
        i = i + 1;
    }
    assert(a@ =~= b@);
    true
}

fn copy_bytes(a: &[u8]) -> (r: Vec<u8>)
    ensures
        r@ == a@,
{
    let mut out: Vec<u8> = Vec::new();
    let mut i: usize = 0;
    while i < a.len()
        invariant
            i <= a@.len(),
            out@ == a@.subrange(0, i as int),
        decreases a@.len() - i,
    {
        out.push(a[i]);
        i = i + 1;
        assert(out@ =~= a@.subrange(0, i as int));
    }
    assert(out@ =~= a@);
    out
}

impl TimedSaltChecker {
    pub closed spec fn window(&self) -> u64 {
        self.window_secs
    }

    /// The salts on record, each with the time it was seen.
    pub closed spec fn records(&self) -> Seq<(Seq<u8>, u64)> {
        entry_views(self.entries@)
    }

    pub fn new(window_secs: u64) -> (r: TimedSaltChecker)
        ensures
            r.window() == window_secs,
            r.records() == Seq::<(Seq<u8>, u64)>::empty(),
    {
        let r = TimedSaltChecker { window_secs, entries: Vec::new() };
        assert(r.records() =~= Seq::<(Seq<u8>, u64)>::empty());
        r
    }

    pub fn window_secs(&self) -> (r: u64)
        ensures
            r == self.window(),
    {
        self.window_secs
    }

    /// Checks `salt` at time `now`: refuses it (`false`) where it was seen within
    /// the window, else records it and accepts it. Records that no longer count
    /// are dropped on the way.
    pub fn check_and_insert(&mut self, salt: &[u8], now: u64) -> (r: bool)
        ensures
            final(self).window() == old(self).window(),
            r == !seen_within(old(self).records(), salt@, now, old(self).window()),
            final(self).records() == after_check(old(self).records(), salt@, now, old(self).window()),
    {
        let ghost old_views = self.records();
        let ghost p = live_at(now, self.window_secs);
        let mut kept: Vec<SaltEntry> = Vec::new();
        let mut found = false;
        let mut i: usize = 0;
        while i < self.entries.len()
            invariant
                i <= self.entries@.len(),
                old_views == entry_views(self.entries@),
                p == live_at(now, self.window_secs),
                entry_views(kept@) == old_views.take(i as int).filter(p),
                found == exists|j: int|
                    0 <= j < i && (#[trigger] old_views[j]).0 == salt@ && live(
                        old_views[j].1,
                        now,
                        self.window_secs,
                    ),
            decreases self.entries@.len() - i,
        {
            let e = &self.entries[i];
            let is_live = now < e.seen_at || now - e.seen_at < self.window_secs;
            proof {
                reveal(Seq::filter);
                assert(old_views.take(i + 1).drop_last() =~= old_views.take(i as int));
                assert(old_views[i as int] == (e.salt@, e.seen_at));
            }
            if is_live {
                if bytes_equal(e.salt.as_slice(), salt) {
                    found = true;
                }
                let copy = SaltEntry { salt: copy_bytes(e.salt.as_slice()), seen_at: e.seen_at };
                kept.push(copy);
                assert(entry_views(kept@) =~= old_views.take(i + 1).filter(p));
            } else {
                assert(entry_views(kept@) =~= old_views.take(i + 1).filter(p));
            }
            i = i + 1;
        }
        assert(old_views.take(i as int) =~= old_views);
        if !found {
            let entry = SaltEntry { salt: copy_bytes(salt), seen_at: now };
            kept.push(entry);
            assert(entry_views(kept@) =~= old_views.filter(p).push((salt@, now)));
        }
        self.entries = kept;
        !found
    }
}

/// Once a salt is accepted at `t1`, presenting it again at any `t2` from `t1`
/// on is refused exactly while `t2` lies within the window after `t1`.
pub proof fn lemma_replay_window(
    records: Seq<(Seq<u8>, u64)>,
    window: u64,
    salt: Seq<u8>,
    t1: u64,
    t2: u64,
)
    requires
        !seen_within(records, salt, t1, window),
        t1 <= t2,
    ensures
        seen_within(after_check(records, salt, t1, window), salt, t2, window) <==> (t2 as int)
            < t1 as int + window as int,
{
    broadcast use Seq::lemma_filter_pred, Seq::lemma_filter_contains_rev;

    let p = live_at(t1, window);
    let kept = records.filter(p);
    let after = kept.push((salt, t1));
    if (t2 as int) < t1 as int + window as int {
        assert(after[kept.len() as int] == (salt, t1));
        assert(live(after[kept.len() as int].1, t2, window));
    } else if seen_within(after, salt, t2, window) {
        let i = choose|i: int|
            0 <= i < after.len() && (#[trigger] after[i]).0 == salt && live(after[i].1, t2, window);
        if i < kept.len() {
            assert(p(kept[i]));
            assert(kept.contains(kept[i]));
            let j = choose|j: int| 0 <= j < records.len() && records[j] == kept[i];
            assert(records[j].0 == salt);
        }
    }
}

} // verus!
