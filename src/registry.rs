//! The table of active supervisors, one per archive path.
use vstd::prelude::*;
use crate::text::str_eq;

verus! {

/// A supervisor as the table drives it; its thread lives outside the table.
pub trait Supervisor {
    /// Starts watching; whether it started.
    fn start(&mut self) -> bool;
    /// Starts waiting for the path to be created; whether it started.
    fn watch_for_creation(&mut self) -> Result<bool, String>;
    /// Whether its thread is still running.
    fn is_running(&self) -> bool;
    /// Stops it and waits for its thread.
    fn stop(&mut self) -> Result<(), String>;
    /// Swallows the next event it would report.
    fn suppress_next_event(&mut self);
}

/// Supervisors keyed by path: at most one per path (`wf`). A `Vec` holds
/// them because `String`-keyed maps have no specification to prove against;
/// the unique-key invariant stands in for the map. Ghost logs record the
/// paths whose supervisor the table stopped, told to suppress, and asked to
/// start.
pub struct WatcherManager<W> {
    watchers: Vec<(String, W)>,
    stopped: Ghost<Seq<Seq<char>>>,
    suppressed: Ghost<Seq<Seq<char>>>,
    started: Ghost<Seq<Seq<char>>>,
}

/// The paths of `paths` whose supervisor answered `true` (still running), in
/// order.
pub open spec fn kept_by(paths: Seq<Seq<char>>, answers: Seq<bool>) -> Seq<Seq<char>>
    decreases paths.len(),
{
    if paths.len() == 0 || answers.len() == 0 {
        Seq::empty()
    } else {
        let rest = kept_by(paths.drop_last(), answers.drop_last());
        if answers.last() {
            rest.push(paths.last())
        } else {
            rest
        }
    }
}

proof fn lemma_kept_by_subset(paths: Seq<Seq<char>>, answers: Seq<bool>)
    requires
        answers.len() == paths.len(),
    ensures
        forall|x: Seq<char>| kept_by(paths, answers).contains(x) ==> paths.contains(x),
        paths.no_duplicates() ==> kept_by(paths, answers).no_duplicates(),
        kept_by(paths, answers).len() <= paths.len(),
    decreases paths.len(),
{
    if paths.len() > 0 {
        let d = paths.drop_last();
        lemma_kept_by_subset(d, answers.drop_last());
        let r = kept_by(d, answers.drop_last());
        assert forall|x: Seq<char>| kept_by(paths, answers).contains(x) implies paths.contains(x) by {
            if r.contains(x) {
                assert(d.contains(x));
                let k = choose|k: int| 0 <= k < d.len() && d[k] == x;
                assert(d[k] == paths[k]);
                assert(paths[k] == x);
            } else {
                assert(paths[paths.len() - 1] == x);
            }
        }
        if paths.no_duplicates() {
            assert(d.no_duplicates()) by {
                assert forall|a: int, b: int| 0 <= a < b < d.len() implies d[a] != d[b] by {
                    assert(paths[a] != paths[b]);
                }
            }
            if answers.last() {
                assert(!r.contains(paths.last())) by {
                    if r.contains(paths.last()) {
                        assert(d.contains(paths.last()));
                        let k = choose|k: int| 0 <= k < d.len() && d[k] == paths.last();
                        assert(d[k] == paths[k]);
                        assert(paths[k] != paths[paths.len() - 1]);
                    }
                }
                let t = r.push(paths.last());
                assert forall|a: int, b: int| 0 <= a < b < t.len() implies t[a] != t[b] by {
                    if b == t.len() - 1 {
                        assert(r.contains(t[a]));
                    } else {
                        assert(r[a] != r[b]);
                    }
                }
            }
        }
    }
}

pub open spec fn key_views<W>(v: Seq<(String, W)>) -> Seq<Seq<char>> {
    v.map_values(|e: (String, W)| e.0@)
}

impl<W: Supervisor> WatcherManager<W> {
    /// The watched paths.
    pub closed spec fn paths(&self) -> Seq<Seq<char>> {
        key_views(self.watchers@)
    }

    /// The paths whose supervisor the table stopped, in order.
    pub closed spec fn stops(&self) -> Seq<Seq<char>> {
        self.stopped@
    }

    /// The paths whose supervisor the table told to suppress, in order.
    pub closed spec fn suppressions(&self) -> Seq<Seq<char>> {
        self.suppressed@
    }

    /// The paths whose new supervisor the table asked to start, in order.
    pub closed spec fn starts(&self) -> Seq<Seq<char>> {
        self.started@
    }

    /// Each path appears once.
    pub open spec fn wf(&self) -> bool {
        self.paths().no_duplicates()
    }

    /// Restart on reattach, given the supervisors' answers to `is_running`:
    /// apart from `path`, the table keeps exactly the supervisors that
    /// answered that they still run; a kept supervisor of `path` was stopped.
    pub open spec fn reattached(self, after: Self, path: Seq<char>, answers: Seq<bool>) -> bool {
        &&& answers.len() == self.paths().len()
        &&& forall|q: Seq<char>| q != path ==> (after.paths().contains(q) <==> kept_by(self.paths(), answers).contains(q))
        &&& after.stops() == if kept_by(self.paths(), answers).contains(path) {
            self.stops().push(path)
        } else {
            self.stops()
        }
        &&& after.suppressions() == self.suppressions()
    }

    /// An empty table.
    pub fn new() -> (r: Self)
        ensures
            r.wf(),
            r.paths().len() == 0,
    {
        let r = WatcherManager { watchers: Vec::new(), stopped: Ghost(Seq::empty()), suppressed: Ghost(Seq::empty()), started: Ghost(Seq::empty()) };
        assert(r.paths() =~= Seq::<Seq<char>>::empty());
        r
    }

    /// The number of supervisors.
    pub fn len(&self) -> (r: usize)
        ensures
            r == self.paths().len(),
    {
        self.watchers.len()
    }

    /// Whether the table is empty.
    pub fn is_empty(&self) -> (r: bool)
        ensures
            r == (self.paths().len() == 0),
    {
        self.watchers.len() == 0
    }

    fn find(&self, path: &str) -> (r: Option<usize>)
        ensures
            r is None <==> !self.paths().contains(path@),
            r matches Some(i) ==> i < self.paths().len() && self.paths()[i as int] == path@,
    {
        let mut i: usize = 0;
        while i < self.watchers.len()
            invariant
                i <= self.watchers@.len(),
                self.paths() == key_views(self.watchers@),
                forall|j: int| 0 <= j < i ==> self.paths()[j] != path@,
            decreases self.watchers@.len() - i,
        {
            if str_eq(self.watchers[i].0.as_str(), path) {
                assert(self.paths()[i as int] == path@);
                return Some(i);
            }
            i = i + 1;
        }
        None
    }

    /// Whether `path` has a supervisor.
    pub fn is_watching(&self, path: &str) -> (r: bool)
        ensures
            r == self.paths().contains(path@),
    {
        self.find(path).is_some()
    }

    fn remove_at(&mut self, i: usize) -> (r: W)
        requires
            i < old(self).paths().len(),
        ensures
            final(self).paths() == old(self).paths().remove(i as int),
            final(self).stops() == old(self).stops(),
            final(self).suppressions() == old(self).suppressions(),
            final(self).starts() == old(self).starts(),
    {
        let (_, w) = self.watchers.remove(i);
        assert(key_views(self.watchers@) =~= key_views(old(self).watchers@).remove(i as int));
        w
    }

    /// Removes and stops the supervisor of `path`, if there is one.
    fn remove_path(&mut self, path: &str)
        requires
            old(self).wf(),
        ensures
            final(self).wf(),
            !final(self).paths().contains(path@),
            forall|q: Seq<char>| q != path@ ==> (final(self).paths().contains(q) <==> old(self).paths().contains(q)),
            final(self).stops() == if old(self).paths().contains(path@) {
                old(self).stops().push(path@)
            } else {
                old(self).stops()
            },
            final(self).suppressions() == old(self).suppressions(),
            final(self).starts() == old(self).starts(),
    {
        match self.find(path) {
            Some(i) => {
                let mut w = self.remove_at(i);
                let _ = w.stop();
                self.stopped = Ghost(self.stopped@.push(path@));
                let ghost old_paths = old(self).paths();
                assert forall|q: Seq<char>| q != path@ implies (self.paths().contains(q) <==> old_paths.contains(q)) by {
                    if old_paths.contains(q) {
                        let k = choose|k: int| 0 <= k < old_paths.len() && old_paths[k] == q;
                        if k < i {
                            assert(self.paths()[k] == q);
                        } else {
                            assert(self.paths()[k - 1] == q);
                        }
                    }
                }
                assert forall|k: int| 0 <= k < self.paths().len() implies self.paths()[k] != path@ by {
                    if k < i {
                        assert(old_paths[k] == self.paths()[k]);
                    } else {
                        assert(old_paths[k + 1] == self.paths()[k]);
                    }
                }
            },
            None => {},
        }
    }

    /// Keeps the supervisors whose answer is `true`, in order, and drops
    /// the others.
    fn retain_reported(&mut self, answers: &Vec<bool>)
        requires
            old(self).wf(),
            answers@.len() == old(self).paths().len(),
        ensures
            final(self).wf(),
            final(self).paths() == kept_by(old(self).paths(), answers@),
            final(self).stops() == old(self).stops(),
            final(self).suppressions() == old(self).suppressions(),
            final(self).starts() == old(self).starts(),
    {
        let ghost p0 = self.paths();
        let n = answers.len();
        let mut i: usize = 0;
        let mut j: usize = 0;
        assert(p0.subrange(0, 0) =~= Seq::<Seq<char>>::empty());
        assert(self.paths() =~= kept_by(p0.subrange(0, 0), answers@.subrange(0, 0)) + p0.subrange(0, p0.len() as int));
        while j < n
            invariant
                n == answers@.len(),
                n == p0.len(),
                i <= j,
                j <= n,
                self.paths() == kept_by(p0.subrange(0, j as int), answers@.subrange(0, j as int)) + p0.subrange(j as int, n as int),
                i == kept_by(p0.subrange(0, j as int), answers@.subrange(0, j as int)).len(),
                self.stops() == old(self).stops(),
                self.suppressions() == old(self).suppressions(),
                self.starts() == old(self).starts(),
            decreases n - j,
        {
            let ghost k = kept_by(p0.subrange(0, j as int), answers@.subrange(0, j as int));
            proof { lemma_kept_by_subset(p0.subrange(0, j + 1), answers@.subrange(0, j + 1)); }
            assert(p0.subrange(0, j + 1).drop_last() =~= p0.subrange(0, j as int));
            assert(answers@.subrange(0, j + 1).drop_last() =~= answers@.subrange(0, j as int));
            assert(p0.subrange(0, j + 1).last() == p0[j as int]);
            assert(answers@.subrange(0, j + 1).last() == answers@[j as int]);
            if answers[j] {
                assert(k.push(p0[j as int]) + p0.subrange(j + 1, n as int) =~= k + p0.subrange(j as int, n as int));
                i = i + 1;
            } else {
                let _w = self.remove_at(i);
                assert((k + p0.subrange(j as int, n as int)).remove(i as int) =~= k + p0.subrange(j + 1, n as int));
            }
            j = j + 1;
        }
        assert(p0.subrange(0, n as int) =~= p0);
        assert(answers@.subrange(0, n as int) =~= answers@);
        assert(self.paths() =~= kept_by(p0, answers@));
        proof { lemma_kept_by_subset(p0, answers@); }
    }

    /// Drops every supervisor whose thread has finished: those that answer
    /// `false` to `is_running`; the others are kept, in order.
    pub fn cleanup_dead_watchers(&mut self)
        requires
            old(self).wf(),
        ensures
            final(self).wf(),
            exists|answers: Seq<bool>| answers.len() == old(self).paths().len()
                && #[trigger] kept_by(old(self).paths(), answers) == final(self).paths(),
            final(self).stops() == old(self).stops(),
            final(self).suppressions() == old(self).suppressions(),
            final(self).starts() == old(self).starts(),
    {
        let mut answers: Vec<bool> = Vec::new();
        let mut i: usize = 0;
        while i < self.watchers.len()
            invariant
                i <= self.watchers@.len(),
                answers@.len() == i,
            decreases self.watchers@.len() - i,
        {
            answers.push(self.watchers[i].1.is_running());
            i = i + 1;
        }
        self.retain_reported(&answers);
    }

    fn insert(&mut self, path: String, watcher: W)
        requires
            old(self).wf(),
            !old(self).paths().contains(path@),
        ensures
            final(self).wf(),
            final(self).paths() == old(self).paths().push(path@),
            final(self).stops() == old(self).stops(),
            final(self).suppressions() == old(self).suppressions(),
            final(self).starts() == old(self).starts(),
    {
        let ghost p = path@;
        self.watchers.push((path, watcher));
        assert(key_views(self.watchers@) =~= key_views(old(self).watchers@).push(p));
    }

    /// Records that a new supervisor for `path` is asked to start.
    fn note_start(&mut self, path: &str)
        ensures
            final(self).paths() == old(self).paths(),
            final(self).stops() == old(self).stops(),
            final(self).suppressions() == old(self).suppressions(),
            final(self).starts() == old(self).starts().push(path@),
    {
        self.started = Ghost(self.started@.push(path@));
    }

    /// Drops finished supervisors, then stops and removes any for `path`.
    fn clear_for(&mut self, path: &str)
        requires
            old(self).wf(),
        ensures
            final(self).wf(),
            !final(self).paths().contains(path@),
            exists|answers: Seq<bool>| #[trigger] old(self).reattached(*final(self), path@, answers),
            final(self).starts() == old(self).starts(),
    {
        self.cleanup_dead_watchers();
        let ghost answers = choose|a: Seq<bool>| a.len() == old(self).paths().len()
            && #[trigger] kept_by(old(self).paths(), a) == self.paths();
        self.remove_path(path);
        assert(old(self).reattached(*self, path@, answers));
    }

    /// Adds a started supervisor for `path`, which has none.
    fn add_started(&mut self, path: String, watcher: W, answers: Ghost<Seq<bool>>, before: Ghost<Self>)
        requires
            old(self).wf(),
            !old(self).paths().contains(path@),
            before@.reattached(*old(self), path@, answers@),
        ensures
            final(self).wf(),
            final(self).paths().contains(path@),
            before@.reattached(*final(self), path@, answers@),
            final(self).starts() == old(self).starts(),
    {
        let ghost p = path@;
        let ghost mid = self.paths();
        self.insert(path, watcher);
        assert(self.paths()[self.paths().len() - 1] == p);
        assert forall|q: Seq<char>| q != p implies (self.paths().contains(q) <==> kept_by(before@.paths(), answers@).contains(q)) by {
            assert(mid.contains(q) <==> kept_by(before@.paths(), answers@).contains(q));
            if self.paths().contains(q) {
                let k = choose|k: int| 0 <= k < self.paths().len() && self.paths()[k] == q;
                assert(mid[k] == q);
            }
            if mid.contains(q) {
                let k = choose|k: int| 0 <= k < mid.len() && mid[k] == q;
                assert(self.paths()[k] == q);
            }
        }
    }

    /// Starts a supervisor for `path`, stopping and replacing any it had
    /// (restart on reattach); finished supervisors are dropped first, and
    /// running ones for other paths kept. Whether it started; only a started
    /// supervisor is kept.
    pub fn start_watching(&mut self, path: String, watcher: W) -> (r: bool)
        requires
            old(self).wf(),
        ensures
            final(self).wf(),
            final(self).paths().contains(path@) == r,
            exists|answers: Seq<bool>| #[trigger] old(self).reattached(*final(self), path@, answers),
            final(self).starts() == old(self).starts().push(path@),
    {
        let ghost before = *self;
        self.clear_for(path.as_str());
        let ghost answers = choose|a: Seq<bool>| #[trigger] before.reattached(*self, path@, a);
        let mut watcher = watcher;
        let ghost cleared = *self;
        self.note_start(path.as_str());
        assert(before.reattached(cleared, path@, answers));
        assert(before.reattached(*self, path@, answers));
        if watcher.start() {
            self.add_started(path, watcher, Ghost(answers), Ghost(before));
            true
        } else {
            false
        }
    }

    /// As `start_watching`, for a supervisor that waits for the path to be
    /// created.
    pub fn start_watching_for_creation(&mut self, path: String, watcher: W) -> (r: bool)
        requires
            old(self).wf(),
        ensures
            final(self).wf(),
            final(self).paths().contains(path@) == r,
            exists|answers: Seq<bool>| #[trigger] old(self).reattached(*final(self), path@, answers),
            final(self).starts() == old(self).starts().push(path@),
    {
        let ghost before = *self;
        self.clear_for(path.as_str());
        let ghost answers = choose|a: Seq<bool>| #[trigger] before.reattached(*self, path@, a);
        let mut watcher = watcher;
        let ghost cleared = *self;
        self.note_start(path.as_str());
        assert(before.reattached(cleared, path@, answers));
        assert(before.reattached(*self, path@, answers));
        match watcher.watch_for_creation() {
            Ok(true) => {
                self.add_started(path, watcher, Ghost(answers), Ghost(before));
                true
            },
            _ => false,
        }
    }

    /// Stops and removes the supervisor of `path`; no supervisor is no error.
    pub fn stop_watching(&mut self, path: &str) -> (r: Result<(), String>)
        requires
            old(self).wf(),
        ensures
            final(self).wf(),
            !final(self).paths().contains(path@),
            forall|q: Seq<char>| q != path@ ==> (final(self).paths().contains(q) <==> old(self).paths().contains(q)),
            !old(self).paths().contains(path@) ==> r is Ok,
            final(self).stops() == if old(self).paths().contains(path@) {
                old(self).stops().push(path@)
            } else {
                old(self).stops()
            },
            final(self).suppressions() == old(self).suppressions(),
            final(self).starts() == old(self).starts(),
    {
        match self.find(path) {
            Some(i) => {
                let mut w = self.remove_at(i);
                self.stopped = Ghost(self.stopped@.push(path@));
                let ghost old_paths = old(self).paths();
                assert forall|q: Seq<char>| q != path@ implies (self.paths().contains(q) <==> old_paths.contains(q)) by {
                    if old_paths.contains(q) {
                        let k = choose|k: int| 0 <= k < old_paths.len() && old_paths[k] == q;
                        if k < i {
                            assert(self.paths()[k] == q);
                        } else {
                            assert(self.paths()[k - 1] == q);
                        }
                    }
                }
                assert forall|k: int| 0 <= k < self.paths().len() implies self.paths()[k] != path@ by {
                    if k < i {
                        assert(old_paths[k] == self.paths()[k]);
                    } else {
                        assert(old_paths[k + 1] == self.paths()[k]);
                    }
                }
                w.stop()
            },
            None => Ok(()),
        }
    }

    /// Forwards a suppression to the supervisor of `path`; ignored where
    /// there is none.
    pub fn suppress_next_event(&mut self, path: &str)
        requires
            old(self).wf(),
        ensures
            final(self).paths() == old(self).paths(),
            final(self).wf(),
            final(self).suppressions() == if old(self).paths().contains(path@) {
                old(self).suppressions().push(path@)
            } else {
                old(self).suppressions()
            },
            final(self).stops() == old(self).stops(),
            final(self).starts() == old(self).starts(),
    {
        match self.find(path) {
            Some(i) => {
                let (p, mut w) = self.watchers.remove(i);
                w.suppress_next_event();
                self.watchers.insert(i, (p, w));
                self.suppressed = Ghost(self.suppressed@.push(path@));
                assert(key_views(self.watchers@) =~= key_views(old(self).watchers@));
            },
            None => {},
        }
    }
}

/// Stops the watch of `path` in `manager`; no watch is no error.
pub fn stop_archive_watcher<W: Supervisor>(manager: &mut WatcherManager<W>, path: &str) -> (r: Result<(), String>)
    requires
        old(manager).wf(),
    ensures
        final(manager).wf(),
        !final(manager).paths().contains(path@),
        forall|q: Seq<char>| q != path@ ==> (final(manager).paths().contains(q) <==> old(manager).paths().contains(q)),
        !old(manager).paths().contains(path@) ==> r is Ok,
        final(manager).stops() == if old(manager).paths().contains(path@) {
            old(manager).stops().push(path@)
        } else {
            old(manager).stops()
        },
{
    manager.stop_watching(path)
}

/// Swallows the next event of the watch of `path` in `manager`, if there is
/// one; to be called before the write that is to be hidden.
pub fn suppress_next_archive_event<W: Supervisor>(manager: &mut WatcherManager<W>, path: &str)
    requires
        old(manager).wf(),
    ensures
        final(manager).wf(),
        final(manager).paths() == old(manager).paths(),
        final(manager).suppressions() == if old(manager).paths().contains(path@) {
            old(manager).suppressions().push(path@)
        } else {
            old(manager).suppressions()
        },
{
    manager.suppress_next_event(path)
}

} // verus!
