//! The registry of background downloads: which items are being fetched, and
//! which of them have finished since the registry was last polled.

use vstd::prelude::*;
use tokio::task::{JoinError, JoinHandle};

verus! {

/// tokio's `JoinHandle`, the handle of a spawned task; the registry holds it
/// without looking inside.
#[verifier::external_type_specification]
#[verifier::external_body]
#[verifier::reject_recursive_types(T)]
pub struct ExJoinHandle<T>(JoinHandle<T>);

/// tokio's `JoinError`, named by the `Future` impl of `JoinHandle`; nothing
/// here reads it.
#[verifier::external_type_specification]
#[verifier::external_body]
pub struct ExJoinError(JoinError);

/// Relies on tokio's `JoinHandle::is_finished`, which reads whether the task
/// has stopped running. That depends on timing, so nothing is promised of
/// the answer.
pub assume_specification<T>[ JoinHandle::<T>::is_finished ](handle: &JoinHandle<T>) -> bool;

/// A running download: the item it fetches and the handle of its task.
#[verifier::reject_recursive_types(T)]
pub struct DownloadTask<T> {
    pub identifier: String,
    pub handle: JoinHandle<T>,
}

/// The identifier and handle of a task, as the registry's view holds them.
pub open spec fn task_view<T>(t: DownloadTask<T>) -> (Seq<char>, JoinHandle<T>) {
    (t.identifier@, t.handle)
}

/// The views of a sequence of tasks.
pub open spec fn task_views<T>(s: Seq<DownloadTask<T>>) -> Seq<(Seq<char>, JoinHandle<T>)> {
    s.map_values(|t: DownloadTask<T>| task_view(t))
}

/// The identifiers of a sequence of entries.
pub open spec fn ids_of<T>(s: Seq<(Seq<char>, JoinHandle<T>)>) -> Seq<Seq<char>> {
    s.map_values(|e: (Seq<char>, JoinHandle<T>)| e.0)
}

/// No identifier occurs twice.
pub open spec fn unique_ids<T>(s: Seq<(Seq<char>, JoinHandle<T>)>) -> bool {
    forall|i: int, j: int| 0 <= i < s.len() && 0 <= j < s.len() && i != j ==> #[trigger] s[i].0 != #[trigger] s[j].0
}

/// What one poll did: the entries of `before` are split between those still
/// running (`after`) and those reported as finished (`reported`); each keeps
/// its handle, none is lost, and none is in both.
pub open spec fn polled<T>(
    before: Seq<(Seq<char>, JoinHandle<T>)>,
    after: Seq<(Seq<char>, JoinHandle<T>)>,
    reported: Seq<(Seq<char>, JoinHandle<T>)>,
) -> bool {
    &&& after.len() + reported.len() == before.len()
    &&& forall|i: int| 0 <= i < after.len() ==> before.contains(#[trigger] after[i])
    &&& forall|i: int| 0 <= i < reported.len() ==> before.contains(#[trigger] reported[i])
    &&& forall|i: int|
        0 <= i < before.len() ==> after.contains(#[trigger] before[i]) || reported.contains(
            before[i],
        )
    &&& forall|i: int, j: int|
        0 <= i < after.len() && 0 <= j < reported.len() ==> #[trigger] after[i].0
            != #[trigger] reported[j].0
}

/// The entries whose flag equals `want`, in order.
pub open spec fn select_flagged<T>(
    entries: Seq<(Seq<char>, JoinHandle<T>)>,
    flags: Seq<bool>,
    want: bool,
) -> Seq<(Seq<char>, JoinHandle<T>)>
    decreases entries.len(),
{
    if entries.len() == 0 || flags.len() == 0 {
        Seq::empty()
    } else if flags.last() == want {
        select_flagged(entries.drop_last(), flags.drop_last(), want).push(entries.last())
    } else {
        select_flagged(entries.drop_last(), flags.drop_last(), want)
    }
}

/// Splits `tasks` by their flags in `finished`: the first vector holds, in
/// order, the tasks whose flag is false, the second those whose flag is true.
pub fn split_finished<T>(tasks: Vec<DownloadTask<T>>, finished: &Vec<bool>) -> (r: (
    Vec<DownloadTask<T>>,
    Vec<DownloadTask<T>>,
))
    requires
        finished@.len() == tasks@.len(),
    ensures
        task_views(r.0@) == select_flagged(task_views(tasks@), finished@, false),
        task_views(r.1@) == select_flagged(task_views(tasks@), finished@, true),
        unique_ids(task_views(tasks@)) ==> polled(
            task_views(tasks@),
            task_views(r.0@),
            task_views(r.1@),
        ),
        unique_ids(task_views(tasks@)) ==> unique_ids(task_views(r.0@)),
{
    let ghost before = task_views(tasks@);
        let mut kept: Vec<DownloadTask<T>> = Vec::new();
        let mut done: Vec<DownloadTask<T>> = Vec::new();
        let mut i: usize = 0;
        for task in it: tasks
            invariant
                task_views(it.seq()) == before,
                finished@.len() == before.len(),
                i == it.index(),
                unique_ids(before) ==> polled(
                    before.take(it.index() as int),
                    task_views(kept@),
                    task_views(done@),
                ),
                unique_ids(before) ==> unique_ids(task_views(kept@)),
                task_views(kept@) == select_flagged(
                    before.take(it.index() as int),
                    finished@.take(it.index() as int),
                    false,
                ),
                task_views(done@) == select_flagged(
                    before.take(it.index() as int),
                    finished@.take(it.index() as int),
                    true,
                ),
        {
            let ghost k = it.index() as int;
            let ghost prefix = before.take(k);
            let ghost next = before.take(k + 1);
            let ghost e = before[k];
            assert(task_view(task) == e);
            assert(next == prefix.push(e));
            assert(next.drop_last() =~= prefix);
            assert(finished@.take(k + 1).drop_last() =~= finished@.take(k));
            assert(finished@.take(k + 1).last() == finished@[k]);
            let flag = finished[i];
            let len = finished.len();
            assert(i < len);
            i = i + 1;
            let ghost run_before = task_views(kept@);
            let ghost fin_before = task_views(done@);
            proof { if unique_ids(before) {
                assert forall|i: int| 0 <= i < prefix.len() implies #[trigger] prefix[i].0 != e.0 by {
                    assert(prefix[i] == before[i]);
                }
                assert forall|i: int| 0 <= i < run_before.len() implies #[trigger] run_before[i].0
                    != e.0 by {
                    assert(prefix.contains(run_before[i]));
                }
                assert forall|i: int| 0 <= i < fin_before.len() implies #[trigger] fin_before[i].0
                    != e.0 by {
                    assert(prefix.contains(fin_before[i]));
                }
            } }
            if flag {
                done.push(task);
                let ghost fin = task_views(done@);
                assert(fin =~= fin_before.push(e));
                proof { if unique_ids(before) {
                assert forall|i: int| 0 <= i < fin.len() implies next.contains(#[trigger] fin[i]) by {
                    if i < fin_before.len() {
                        assert(prefix.contains(fin_before[i]));
                        let m = choose|m: int| 0 <= m < prefix.len() && prefix[m] == fin_before[i];
                        assert(next[m] == fin[i]);
                    } else {
                        assert(next[k] == fin[i]);
                    }
                }
                assert forall|i: int| 0 <= i < run_before.len() implies next.contains(
                    #[trigger] run_before[i],
                ) by {
                    assert(prefix.contains(run_before[i]));
                    let m = choose|m: int| 0 <= m < prefix.len() && prefix[m] == run_before[i];
                    assert(next[m] == run_before[i]);
                }
                assert forall|i: int| 0 <= i < next.len() implies run_before.contains(
                    #[trigger] next[i],
                ) || fin.contains(next[i]) by {
                    if i < k {
                        assert(next[i] == prefix[i]);
                        if !run_before.contains(prefix[i]) {
                            assert(fin_before.contains(prefix[i]));
                            let m = choose|m: int|
                                0 <= m < fin_before.len() && fin_before[m] == prefix[i];
                            assert(fin[m] == next[i]);
                        }
                    } else {
                        assert(fin[fin.len() - 1] == next[i]);
                    }
                }
                } }
            } else {
                kept.push(task);
                let ghost run = task_views(kept@);
                assert(run =~= run_before.push(e));
                proof { if unique_ids(before) {
                assert forall|i: int| 0 <= i < run.len() implies next.contains(#[trigger] run[i]) by {
                    if i < run_before.len() {
                        assert(prefix.contains(run_before[i]));
                        let m = choose|m: int| 0 <= m < prefix.len() && prefix[m] == run_before[i];
                        assert(next[m] == run[i]);
                    } else {
                        assert(next[k] == run[i]);
                    }
                }
                assert forall|i: int| 0 <= i < fin_before.len() implies next.contains(
                    #[trigger] fin_before[i],
                ) by {
                    assert(prefix.contains(fin_before[i]));
                    let m = choose|m: int| 0 <= m < prefix.len() && prefix[m] == fin_before[i];
                    assert(next[m] == fin_before[i]);
                }
                assert forall|i: int| 0 <= i < next.len() implies run.contains(#[trigger] next[i])
                    || fin_before.contains(next[i]) by {
                    if i < k {
                        assert(next[i] == prefix[i]);
                        if !fin_before.contains(prefix[i]) {
                            assert(run_before.contains(prefix[i]));
                            let m = choose|m: int|
                                0 <= m < run_before.len() && run_before[m] == prefix[i];
                            assert(run[m] == next[i]);
                        }
                    } else {
                        assert(run[run.len() - 1] == next[i]);
                    }
                }
                } }
            }
        }
        assert(before.take(before.len() as int) =~= before);
        assert(finished@.take(before.len() as int) =~= finished@);
        (kept, done)
}

/// Why a download was not registered; the handle of its task comes back.
#[verifier::reject_recursive_types(T)]
pub enum StartError<T> {
    /// A download of the same item is still registered.
    AlreadyRunning(JoinHandle<T>),
    /// As many downloads as the registry admits are running.
    Full(JoinHandle<T>),
}

/// The downloads that are running, keyed by item identifier, up to a limit.
#[verifier::reject_recursive_types(T)]
pub struct DownloadRegistry<T> {
    tasks: Vec<DownloadTask<T>>,
    limit: usize,
}

impl<T> View for DownloadRegistry<T> {
    type V = Seq<(Seq<char>, JoinHandle<T>)>;

    closed spec fn view(&self) -> Self::V {
        task_views(self.tasks@)
    }
}

impl<T> DownloadRegistry<T> {
    /// Each identifier is registered at most once.
    pub open spec fn wf(&self) -> bool {
        unique_ids(self@)
    }

    /// The most downloads that the registry admits at once.
    pub closed spec fn capacity(&self) -> usize {
        self.limit
    }

    /// An empty registry without a practical limit.
    pub fn new() -> (r: Self)
        ensures
            r.wf(),
            r@ == Seq::<(Seq<char>, JoinHandle<T>)>::empty(),
            r.capacity() == usize::MAX,
    {
        Self::with_limit(usize::MAX)
    }

    /// An empty registry that admits at most `limit` downloads at once.
    pub fn with_limit(limit: usize) -> (r: Self)
        ensures
            r.wf(),
            r@ == Seq::<(Seq<char>, JoinHandle<T>)>::empty(),
            r.capacity() == limit,
    {
        let r = DownloadRegistry { tasks: Vec::new(), limit };
        assert(r@ =~= Seq::<(Seq<char>, JoinHandle<T>)>::empty());
        r
    }

    /// Whether a download of `identifier` is registered.
    pub fn is_active(&self, identifier: &str) -> (r: bool)
        ensures
            r == ids_of(self@).contains(identifier@),
    {
        let key = identifier.to_string();
        let mut i: usize = 0;
        while i < self.tasks.len()
            invariant
                i <= self.tasks.len(),
                key@ == identifier@,
                forall|k: int| 0 <= k < i ==> #[trigger] ids_of(self@)[k] != identifier@,
            decreases self.tasks.len() - i,
        {
            if self.tasks[i].identifier == key {
                assert(ids_of(self@)[i as int] == identifier@);
                return true;
            }
            i = i + 1;
        }
        false
    }

    /// Registers the download of `identifier`. A second download of an
    /// identifier that is still registered is refused, and so is any
    /// download while the registry is full; the refused handle is given back.
    pub fn add_download(&mut self, identifier: String, handle: JoinHandle<T>) -> (r: Result<
        (),
        StartError<T>,
    >)
        requires
            old(self).wf(),
        ensures
            final(self).wf(),
            final(self).capacity() == old(self).capacity(),
            ids_of(old(self)@).contains(identifier@) ==> r == Err::<(), StartError<T>>(
                StartError::AlreadyRunning(handle),
            ) && final(self)@ == old(self)@,
            !ids_of(old(self)@).contains(identifier@) && old(self)@.len() >= old(self).capacity()
                ==> r == Err::<(), StartError<T>>(StartError::Full(handle)) && final(self)@ == old(
                self,
            )@,
            !ids_of(old(self)@).contains(identifier@) && old(self)@.len() < old(self).capacity()
                ==> r is Ok && final(self)@ == old(self)@.push((identifier@, handle)),
    {
        if self.is_active(identifier.as_str()) {
            return Err(StartError::AlreadyRunning(handle));
        }
        if self.tasks.len() >= self.limit {
            return Err(StartError::Full(handle));
        }
        let ghost before = self@;
        self.tasks.push(DownloadTask { identifier, handle });
        assert(self@ =~= before.push((identifier@, handle)));
        assert forall|i: int, j: int|
            0 <= i < self@.len() && 0 <= j < self@.len() && i != j implies #[trigger] self@[i].0
            != #[trigger] self@[j].0 by {
            if i == before.len() as int {
                assert(ids_of(before)[j] == before[j].0);
            } else if j == before.len() as int {
                assert(ids_of(before)[i] == before[i].0);
            }
        }
        Ok(())
    }

    /// Removes every download whose task has finished and hands them back,
    /// so that each is reported once; the others stay registered. Which
    /// tasks have finished is read from tokio at the call; whatever it
    /// answers, the registry is split as `split_finished` splits it.
    pub fn check_downloads(&mut self) -> (r: Vec<DownloadTask<T>>)
        requires
            old(self).wf(),
        ensures
            final(self).wf(),
            final(self).capacity() == old(self).capacity(),
            polled(old(self)@, final(self)@, task_views(r@)),
            exists|flags: Seq<bool>|
                flags.len() == old(self)@.len() && #[trigger] select_flagged(old(self)@, flags, false)
                    == final(self)@ && select_flagged(old(self)@, flags, true) == task_views(r@),
    {
        let ghost before = self@;
        let mut flags: Vec<bool> = Vec::new();
        let mut i: usize = 0;
        while i < self.tasks.len()
            invariant
                i <= self.tasks.len(),
                flags@.len() == i,
            decreases self.tasks.len() - i,
        {
            flags.push(self.tasks[i].handle.is_finished());
            i = i + 1;
        }
        let mut tasks: Vec<DownloadTask<T>> = Vec::new();
        std::mem::swap(&mut tasks, &mut self.tasks);
        assert(task_views(tasks@) == before);
        let (running, done) = split_finished(tasks, &flags);
        self.tasks = running;
        assert(select_flagged(before, flags@, false) == self@);
        done
    }

    /// Whether any download is registered.
    pub fn has_active_downloads(&self) -> (r: bool)
        ensures
            r == (self@.len() > 0),
    {
        self.tasks.len() > 0
    }

    /// The number of registered downloads.
    pub fn active_download_count(&self) -> (r: usize)
        ensures
            r == self@.len(),
    {
        self.tasks.len()
    }

    /// The identifiers of the registered downloads, in the order they were
    /// registered.
    pub fn active_identifiers(&self) -> (r: Vec<String>)
        ensures
            crate::category::views(r@) == ids_of(self@),
    {
        let mut out: Vec<String> = Vec::new();
        let mut i: usize = 0;
        while i < self.tasks.len()
            invariant
                i <= self.tasks.len(),
                out@.len() == i,
                forall|k: int| 0 <= k < i ==> (#[trigger] out@[k])@ == ids_of(self@)[k],
            decreases self.tasks.len() - i,
        {
            out.push(self.tasks[i].identifier.clone());
            i = i + 1;
        }
        assert(crate::category::views(out@) =~= ids_of(self@));
        out
    }
}

/// Across two successive polls, no download is reported twice: what the
/// first reports is no longer registered, so the second cannot report it.
/// Each poll lowers the number of registered downloads by the number it
/// reported.
pub proof fn lemma_no_double_report<T>(
    r0: Seq<(Seq<char>, JoinHandle<T>)>,
    r1: Seq<(Seq<char>, JoinHandle<T>)>,
    rep1: Seq<(Seq<char>, JoinHandle<T>)>,
    r2: Seq<(Seq<char>, JoinHandle<T>)>,
    rep2: Seq<(Seq<char>, JoinHandle<T>)>,
)
    requires
        unique_ids(r0),
        polled(r0, r1, rep1),
        polled(r1, r2, rep2),
    ensures
        r1.len() == r0.len() - rep1.len(),
        r2.len() == r1.len() - rep2.len(),
        forall|i: int| 0 <= i < rep1.len() ==> !ids_of(r1).contains(#[trigger] rep1[i].0),
        forall|i: int, j: int|
            0 <= i < rep1.len() && 0 <= j < rep2.len() ==> #[trigger] rep1[i].0 != #[trigger] rep2[j].0,
{
    assert forall|i: int| 0 <= i < rep1.len() implies !ids_of(r1).contains(#[trigger] rep1[i].0) by {
        if ids_of(r1).contains(rep1[i].0) {
            let m = choose|m: int| 0 <= m < ids_of(r1).len() && ids_of(r1)[m] == rep1[i].0;
            assert(r1[m].0 == rep1[i].0);
        }
    }
    assert forall|i: int, j: int|
        0 <= i < rep1.len() && 0 <= j < rep2.len() implies #[trigger] rep1[i].0
        != #[trigger] rep2[j].0 by {
        assert(r1.contains(rep2[j]));
        let m = choose|m: int| 0 <= m < r1.len() && r1[m] == rep2[j];
        assert(r1[m].0 != rep1[i].0);
    }
}

/// The number of true flags.
pub open spec fn count_true(flags: Seq<bool>) -> nat
    decreases flags.len(),
{
    if flags.len() == 0 {
        0
    } else {
        count_true(flags.drop_last()) + if flags.last() {
            1nat
        } else {
            0nat
        }
    }
}

proof fn lemma_select_sizes<T>(e: Seq<(Seq<char>, JoinHandle<T>)>, f: Seq<bool>)
    requires
        e.len() == f.len(),
    ensures
        select_flagged(e, f, true).len() == count_true(f),
        select_flagged(e, f, false).len() + count_true(f) == e.len(),
        count_true(f) == 0 ==> select_flagged(e, f, false) == e,
    decreases e.len(),
{
    if e.len() > 0 {
        lemma_select_sizes(e.drop_last(), f.drop_last());
        if count_true(f) == 0 {
            assert(e.drop_last().push(e.last()) =~= e);
        }
    }
}

proof fn lemma_select_keeps<T>(e: Seq<(Seq<char>, JoinHandle<T>)>, f: Seq<bool>, i: int)
    requires
        e.len() == f.len(),
        0 <= i < e.len(),
    ensures
        select_flagged(e, f, f[i]).contains(e[i]),
    decreases e.len(),
{
    if i == e.len() - 1 {
        let s = select_flagged(e, f, f[i]);
        assert(s[s.len() - 1] == e[i]);
    } else {
        lemma_select_keeps(e.drop_last(), f.drop_last(), i);
        let p = select_flagged(e.drop_last(), f.drop_last(), f[i]);
        let m = choose|m: int| 0 <= m < p.len() && p[m] == e[i];
        assert(select_flagged(e, f, f[i])[m] == e[i]);
    }
}

proof fn lemma_select_origin<T>(e: Seq<(Seq<char>, JoinHandle<T>)>, f: Seq<bool>, w: bool, j: int)
    requires
        e.len() == f.len(),
        0 <= j < select_flagged(e, f, w).len(),
    ensures
        exists|m: int| 0 <= m < e.len() && f[m] == w && #[trigger] e[m] == select_flagged(e, f, w)[j],
    decreases e.len(),
{
    let p = select_flagged(e.drop_last(), f.drop_last(), w);
    if j < p.len() {
        lemma_select_origin(e.drop_last(), f.drop_last(), w, j);
        let m = choose|m: int|
            0 <= m < e.drop_last().len() && f.drop_last()[m] == w && #[trigger] e.drop_last()[m]
                == p[j];
        assert(e[m] == select_flagged(e, f, w)[j]);
    } else {
        assert(e[e.len() - 1] == select_flagged(e, f, w)[j]);
    }
}

/// A poll that sees the flags `finished` reports exactly the entries whose
/// flag is true, each of which leaves the registry, and keeps the others;
/// the number of registered downloads falls by the number of true flags, so
/// by one when one task finished, and nothing changes when none did.
pub proof fn lemma_poll_reports_finished<T>(e: Seq<(Seq<char>, JoinHandle<T>)>, finished: Seq<bool>)
    requires
        e.len() == finished.len(),
        unique_ids(e),
    ensures
        select_flagged(e, finished, true).len() == count_true(finished),
        select_flagged(e, finished, false).len() == e.len() - count_true(finished),
        forall|i: int|
            0 <= i < e.len() && #[trigger] finished[i] ==> select_flagged(e, finished, true).contains(
                e[i],
            ) && !ids_of(select_flagged(e, finished, false)).contains(e[i].0),
        forall|i: int|
            0 <= i < e.len() && !#[trigger] finished[i] ==> select_flagged(e, finished, false).contains(
                e[i],
            ),
        count_true(finished) == 0 ==> select_flagged(e, finished, false) == e && select_flagged(
            e,
            finished,
            true,
        ).len() == 0,
{
    lemma_select_sizes(e, finished);
    let kept = select_flagged(e, finished, false);
    assert forall|i: int| 0 <= i < e.len() && #[trigger] finished[i] implies select_flagged(
        e,
        finished,
        true,
    ).contains(e[i]) && !ids_of(kept).contains(e[i].0) by {
        lemma_select_keeps(e, finished, i);
        if ids_of(kept).contains(e[i].0) {
            let j = choose|j: int| 0 <= j < ids_of(kept).len() && ids_of(kept)[j] == e[i].0;
            lemma_select_origin(e, finished, false, j);
            let m = choose|m: int|
                0 <= m < e.len() && finished[m] == false && #[trigger] e[m] == kept[j];
            assert(e[m].0 == e[i].0);
        }
    }
    assert forall|i: int| 0 <= i < e.len() && !#[trigger] finished[i] implies kept.contains(e[i]) by {
        lemma_select_keeps(e, finished, i);
    }
}

} // verus!
