//! A model of the disk around one stager, and the laws that every run of
//! the stager obeys in it.
//!
//! The disk maps paths to contents. A run is a sequence of events; event `i`
//! answers the action pending after the first `i` events, and it fits when it
//! is something that the disk could have answered (a reported digest is the
//! digest of the staged file, a probe tells the truth). Production writes
//! `produced`, the content that the server or the decompressor delivers; a
//! failed production leaves a truncated staged file behind.

use vstd::prelude::*;
use crate::digest::{digest_hex, digest_accepts};
use crate::error::PoleshiftError;
use crate::orchestrator::{active_of, task_outcome, task_pending, task_transition};
use crate::stager::{Action, ArtifactKind, Event, StagerState, pending, transition};

verus! {

/// Paths to contents.
pub type Disk = Map<Seq<char>, Seq<u8>>;

/// Everything about one artifact that stays fixed during a run.
pub struct Site {
    pub kind: ArtifactKind,
    /// Expected digest, lowercase hex; empty to skip verification.
    pub expected: String,
    /// The committed path.
    pub committed: Seq<char>,
    /// The staged path.
    pub staged: Seq<char>,
    /// Whether the compressed artifact is committed (for decompression).
    pub precursor: bool,
    /// What a successful production writes.
    pub produced: Seq<u8>,
}

impl Site {
    pub open spec fn valid(&self) -> bool {
        self.committed != self.staged
    }
}

/// Whether `ev` is an answer that the disk could give to action `a`.
pub open spec fn fits(site: Site, disk: Disk, a: Action, ev: Event) -> bool {
    match a {
        Action::Probe => match ev {
            Event::Probed { committed, staged, precursor } => committed == disk.dom().contains(
                site.committed,
            ) && staged == disk.dom().contains(site.staged) && precursor == site.precursor,
            _ => false,
        },
        Action::Hash => match ev {
            Event::Hashed(h) => disk.dom().contains(site.staged) && h@ == digest_hex(
                disk[site.staged],
            ),
            Event::HashFailed(_) => true,
            _ => false,
        },
        Action::Produce => ev is Produced || ev is ProduceFailed,
        Action::Remove => ev is Removed,
        Action::Commit => match ev {
            Event::Renamed => disk.dom().contains(site.staged),
            Event::RenameFailed(_) => true,
            _ => false,
        },
        Action::Finish => true,
    }
}

/// The disk after action `a` was performed and answered by `ev`.
pub open spec fn disk_after(site: Site, disk: Disk, a: Action, ev: Event) -> Disk {
    match a {
        Action::Produce => if ev is Produced {
            disk.insert(site.staged, site.produced)
        } else {
            disk.insert(site.staged, Seq::empty())
        },
        Action::Remove => disk.remove(site.staged),
        Action::Commit => if ev is Renamed {
            disk.remove(site.staged).insert(site.committed, disk[site.staged])
        } else {
            disk
        },
        _ => disk,
    }
}

/// The state after one event.
pub open spec fn state_after(site: Site, st: StagerState, ev: Event) -> StagerState {
    transition(site.kind, site.expected, st, ev)
}

/// Final state and disk of a run.
pub open spec fn run(site: Site, st: StagerState, disk: Disk, evs: Seq<Event>) -> (
    StagerState,
    Disk,
)
    decreases evs.len(),
{
    if evs.len() == 0 {
        (st, disk)
    } else {
        run(
            site,
            state_after(site, st, evs[0]),
            disk_after(site, disk, pending(st), evs[0]),
            evs.drop_first(),
        )
    }
}

/// Whether every event of a run fits.
pub open spec fn all_fit(site: Site, st: StagerState, disk: Disk, evs: Seq<Event>) -> bool
    decreases evs.len(),
{
    evs.len() == 0 || (fits(site, disk, pending(st), evs[0]) && all_fit(
        site,
        state_after(site, st, evs[0]),
        disk_after(site, disk, pending(st), evs[0]),
        evs.drop_first(),
    ))
}

/// Whether action `a` is requested at some step of a run.
pub open spec fn performs(site: Site, st: StagerState, disk: Disk, evs: Seq<Event>, a: Action) -> bool
    decreases evs.len(),
{
    evs.len() > 0 && (pending(st) == a || performs(
        site,
        state_after(site, st, evs[0]),
        disk_after(site, disk, pending(st), evs[0]),
        evs.drop_first(),
        a,
    ))
}

/// An event that reports a failure of the disk or the network.
pub open spec fn is_fault(ev: Event) -> bool {
    ev is HashFailed || ev is ProduceFailed || ev is RenameFailed
}

pub open spec fn fault_free(evs: Seq<Event>) -> bool {
    forall|i: int| 0 <= i < evs.len() ==> !is_fault(#[trigger] evs[i])
}

proof fn lemma_done_stays(site: Site, st: StagerState, disk: Disk, evs: Seq<Event>)
    requires
        st is Done,
    ensures
        run(site, st, disk, evs) == (st, disk),
        forall|a: Action| a != Action::Finish ==> !performs(site, st, disk, evs, a),
    decreases evs.len(),
{
    if evs.len() > 0 {
        assert(state_after(site, st, evs[0]) == st);
        assert(disk_after(site, disk, pending(st), evs[0]) == disk);
        lemma_done_stays(site, st, disk, evs.drop_first());
        assert forall|a: Action| a != Action::Finish implies !performs(
            site,
            st,
            disk,
            evs,
            a,
        ) by {
            assert(!performs(site, st, disk, evs.drop_first(), a));
        }
    }
}

proof fn lemma_fault_free_rest(evs: Seq<Event>)
    requires
        fault_free(evs),
        evs.len() > 0,
    ensures
        fault_free(evs.drop_first()),
        !is_fault(evs[0]),
{
    assert forall|i: int| 0 <= i < evs.drop_first().len() implies !is_fault(
        #[trigger] evs.drop_first()[i],
    ) by {
        assert(evs.drop_first()[i] == evs[i + 1]);
    }
}

/// A committed artifact with no staged file beside it is trusted as it is:
/// the run ends at once in success, neither hashes nor produces anything, and
/// leaves the disk untouched.
pub proof fn committed_artifact_is_kept(site: Site, disk: Disk, evs: Seq<Event>)
    requires
        disk.dom().contains(site.committed),
        !disk.dom().contains(site.staged),
        evs.len() >= 1,
        all_fit(site, StagerState::Start, disk, evs),
    ensures
        run(site, StagerState::Start, disk, evs) == (StagerState::Done(Ok(())), disk),
        !performs(site, StagerState::Start, disk, evs, Action::Produce),
        !performs(site, StagerState::Start, disk, evs, Action::Hash),
{
    let st1 = state_after(site, StagerState::Start, evs[0]);
    let d1 = disk_after(site, disk, Action::Probe, evs[0]);
    assert(st1 == StagerState::Done(Ok(())));
    assert(d1 == disk);
    lemma_done_stays(site, st1, d1, evs.drop_first());
    assert(run(site, StagerState::Start, disk, evs) == run(site, st1, d1, evs.drop_first()));
    assert(!performs(site, st1, d1, evs.drop_first(), Action::Produce));
    assert(!performs(site, st1, d1, evs.drop_first(), Action::Hash));
}

/// A staged file whose digest is the expected one, with nothing committed
/// yet, is renamed over the committed path without producing anything anew.
pub proof fn verified_staged_file_is_promoted(site: Site, disk: Disk, evs: Seq<Event>)
    requires
        site.valid(),
        disk.dom().contains(site.staged),
        !disk.dom().contains(site.committed),
        digest_hex(disk[site.staged]) == site.expected@,
        evs.len() >= 3,
        fault_free(evs),
        all_fit(site, StagerState::Start, disk, evs),
    ensures
        run(site, StagerState::Start, disk, evs) == (
            StagerState::Done(Ok(())),
            disk.remove(site.staged).insert(site.committed, disk[site.staged]),
        ),
        !performs(site, StagerState::Start, disk, evs, Action::Produce),
{
    let e1 = evs.drop_first();
    let st1 = state_after(site, StagerState::Start, evs[0]);
    let d1 = disk_after(site, disk, Action::Probe, evs[0]);
    assert(d1 == disk);
    lemma_fault_free_rest(evs);
    lemma_fault_free_rest(e1);
    assert(all_fit(site, st1, d1, e1));
    if site.expected@.len() == 0 {
        assert(st1 == StagerState::Committing);
        let st2 = state_after(site, st1, e1[0]);
        let d2 = disk_after(site, d1, Action::Commit, e1[0]);
        assert(e1[0] is Renamed);
        assert(st2 == StagerState::Done(Ok(())));
        lemma_done_stays(site, st2, d2, e1.drop_first());
        assert(run(site, st1, d1, e1) == run(site, st2, d2, e1.drop_first()));
        assert(!performs(site, st2, d2, e1.drop_first(), Action::Produce));
        assert(!performs(site, st1, d1, e1, Action::Produce));
    } else {
        let p = site.precursor;
        assert(st1 == StagerState::VerifyStaged(p));
        let e2 = e1.drop_first();
        let st2 = state_after(site, st1, e1[0]);
        let d2 = disk_after(site, d1, Action::Hash, e1[0]);
        assert(e1[0] is Hashed);
        assert(st2 == StagerState::Committing);
        assert(d2 == disk);
        assert(all_fit(site, st2, d2, e2));
        lemma_fault_free_rest(e2);
        let st3 = state_after(site, st2, e2[0]);
        let d3 = disk_after(site, d2, Action::Commit, e2[0]);
        assert(e2[0] is Renamed);
        assert(st3 == StagerState::Done(Ok(())));
        lemma_done_stays(site, st3, d3, e2.drop_first());
        assert(run(site, st2, d2, e2) == run(site, st3, d3, e2.drop_first()));
        assert(run(site, st1, d1, e1) == run(site, st2, d2, e2));
        assert(!performs(site, st3, d3, e2.drop_first(), Action::Produce));
        assert(!performs(site, st2, d2, e2, Action::Produce));
        assert(!performs(site, st1, d1, e1, Action::Produce));
    }
}

proof fn lemma_step(site: Site, st: StagerState, disk: Disk, evs: Seq<Event>)
    requires
        evs.len() > 0,
    ensures
        run(site, st, disk, evs) == run(
            site,
            state_after(site, st, evs[0]),
            disk_after(site, disk, pending(st), evs[0]),
            evs.drop_first(),
        ),
        all_fit(site, st, disk, evs) == (fits(site, disk, pending(st), evs[0]) && all_fit(
            site,
            state_after(site, st, evs[0]),
            disk_after(site, disk, pending(st), evs[0]),
            evs.drop_first(),
        )),
        forall|a: Action|
            #![trigger performs(site, st, disk, evs, a)]
            performs(site, st, disk, evs, a) == (pending(st) == a || performs(
                site,
                state_after(site, st, evs[0]),
                disk_after(site, disk, pending(st), evs[0]),
                evs.drop_first(),
                a,
            )),
{
}

/// A staged file with the wrong content is deleted and the artifact produced
/// anew; once the fresh content checks out it is committed, so the committed
/// file then hashes to the expected digest.
pub proof fn corrupt_staged_file_is_replaced(site: Site, disk: Disk, evs: Seq<Event>)
    requires
        site.valid(),
        site.expected@.len() > 0,
        site.kind == ArtifactKind::Compressed || site.precursor,
        disk.dom().contains(site.staged),
        digest_hex(disk[site.staged]) != site.expected@,
        digest_hex(site.produced) == site.expected@,
        evs.len() >= 6,
        fault_free(evs),
        all_fit(site, StagerState::Start, disk, evs),
    ensures
        run(site, StagerState::Start, disk, evs) == (
            StagerState::Done(Ok(())),
            disk.remove(site.staged).insert(site.committed, site.produced),
        ),
        digest_hex(run(site, StagerState::Start, disk, evs).1[site.committed]) == site.expected@,
{
    let p = site.precursor;
    let e0 = evs;
    lemma_step(site, StagerState::Start, disk, e0);
    lemma_fault_free_rest(e0);
    let st1 = StagerState::VerifyStaged(p);
    assert(state_after(site, StagerState::Start, e0[0]) == st1);
    let e1 = e0.drop_first();
    lemma_step(site, st1, disk, e1);
    lemma_fault_free_rest(e1);
    assert(e1[0] is Hashed);
    let st2 = StagerState::DropStaged(p);
    assert(state_after(site, st1, e1[0]) == st2);
    let e2 = e1.drop_first();
    lemma_step(site, st2, disk, e2);
    lemma_fault_free_rest(e2);
    let st3 = StagerState::Producing;
    let d3 = disk.remove(site.staged);
    assert(state_after(site, st2, e2[0]) == st3);
    let e3 = e2.drop_first();
    lemma_step(site, st3, d3, e3);
    lemma_fault_free_rest(e3);
    assert(e3[0] is Produced);
    let st4 = StagerState::VerifyProduced;
    let d4 = d3.insert(site.staged, site.produced);
    assert(state_after(site, st3, e3[0]) == st4);
    let e4 = e3.drop_first();
    lemma_step(site, st4, d4, e4);
    lemma_fault_free_rest(e4);
    assert(e4[0] is Hashed);
    let st5 = StagerState::Committing;
    assert(state_after(site, st4, e4[0]) == st5);
    let e5 = e4.drop_first();
    lemma_step(site, st5, d4, e5);
    lemma_fault_free_rest(e5);
    assert(e5[0] is Renamed);
    let st6 = StagerState::Done(Ok(()));
    let d6 = d4.remove(site.staged).insert(site.committed, site.produced);
    assert(state_after(site, st5, e5[0]) == st6);
    assert(disk_after(site, d4, Action::Commit, e5[0]) == d6);
    lemma_done_stays(site, st6, d6, e5.drop_first());
    assert(d6 =~= disk.remove(site.staged).insert(site.committed, site.produced));
}

/// Whether content found at the committed path is allowed there: it is what
/// was there before the run, or it passed the digest check.
pub open spec fn committed_content_ok(site: Site, before: Disk, v: Seq<u8>) -> bool {
    (before.dom().contains(site.committed) && v == before[site.committed]) || digest_accepts(
        site.expected@,
        digest_hex(v),
    )
}

pub open spec fn commit_safe(site: Site, before: Disk, st: StagerState, disk: Disk) -> bool {
    &&& disk.dom().contains(site.committed) ==> committed_content_ok(
        site,
        before,
        disk[site.committed],
    )
    &&& st is Committing ==> disk.dom().contains(site.staged) && digest_accepts(
        site.expected@,
        digest_hex(disk[site.staged]),
    )
}

proof fn lemma_commit_safe(
    site: Site,
    before: Disk,
    st: StagerState,
    disk: Disk,
    evs: Seq<Event>,
)
    requires
        site.valid(),
        commit_safe(site, before, st, disk),
        all_fit(site, st, disk, evs),
    ensures
        commit_safe(site, before, run(site, st, disk, evs).0, run(site, st, disk, evs).1),
    decreases evs.len(),
{
    if evs.len() > 0 {
        let ev = evs[0];
        let st1 = state_after(site, st, ev);
        let d1 = disk_after(site, disk, pending(st), ev);
        if d1.dom().contains(site.committed) {
            if pending(st) == Action::Commit && ev is Renamed {
                assert(d1[site.committed] == disk[site.staged]);
            } else {
                assert(d1[site.committed] == disk[site.committed]);
            }
        }
        assert(commit_safe(site, before, st1, d1));
        lemma_commit_safe(site, before, st1, d1, evs.drop_first());
    }
}

/// Commits are atomic: at any moment of any run, whatever the disk and the
/// network answered, the committed path holds either what it held before the
/// run or content that passed the digest check. Fresh content is only ever
/// written to the staged path.
pub proof fn committed_path_never_holds_unchecked_content(
    site: Site,
    disk: Disk,
    evs: Seq<Event>,
)
    requires
        site.valid(),
        all_fit(site, StagerState::Start, disk, evs),
    ensures
        run(site, StagerState::Start, disk, evs).1.dom().contains(site.committed) ==> committed_content_ok(
            site,
            disk,
            run(site, StagerState::Start, disk, evs).1[site.committed],
        ),
{
    lemma_commit_safe(site, disk, StagerState::Start, disk, evs);
}

proof fn lemma_never_hashes(site: Site, st: StagerState, disk: Disk, evs: Seq<Event>)
    requires
        site.expected@.len() == 0,
        !(st is VerifyStaged),
        !(st is VerifyProduced),
    ensures
        !performs(site, st, disk, evs, Action::Hash),
    decreases evs.len(),
{
    if evs.len() > 0 {
        let st1 = state_after(site, st, evs[0]);
        let d1 = disk_after(site, disk, pending(st), evs[0]);
        lemma_never_hashes(site, st1, d1, evs.drop_first());
    }
}

/// With no expected digest, nothing is ever hashed: content is committed as
/// it was staged.
pub proof fn empty_digest_skips_hashing(site: Site, disk: Disk, evs: Seq<Event>)
    requires
        site.expected@.len() == 0,
    ensures
        !performs(site, StagerState::Start, disk, evs, Action::Hash),
{
    lemma_never_hashes(site, StagerState::Start, disk, evs);
}

/// Decompression asked for before the compressed artifact is committed fails
/// at once with `MissingPrecursor`, writes nothing and leaves the disk as it
/// was.
pub proof fn decompression_needs_committed_archive(site: Site, disk: Disk, evs: Seq<Event>)
    requires
        site.kind == ArtifactKind::Decompressed,
        !site.precursor,
        !disk.dom().contains(site.committed),
        !disk.dom().contains(site.staged),
        evs.len() >= 1,
        all_fit(site, StagerState::Start, disk, evs),
    ensures
        run(site, StagerState::Start, disk, evs) == (
            StagerState::Done(Err(PoleshiftError::MissingPrecursor)),
            disk,
        ),
        !performs(site, StagerState::Start, disk, evs, Action::Produce),
{
    lemma_step(site, StagerState::Start, disk, evs);
    let st1 = StagerState::Done(Err(PoleshiftError::MissingPrecursor));
    assert(state_after(site, StagerState::Start, evs[0]) == st1);
    lemma_done_stays(site, st1, disk, evs.drop_first());
}

/// Everything about a resource that stays fixed during a run: its
/// compressed artifact, its decompressed artifact, and whether the latter is
/// wanted. The decompressed artifact's precursor is read off the disk.
pub struct ResourceSite {
    pub archive: Site,
    pub unpacked: Site,
    pub decompress: bool,
}

impl ResourceSite {
    pub open spec fn valid(&self) -> bool {
        &&& self.archive.kind == ArtifactKind::Compressed
        &&& self.unpacked.kind == ArtifactKind::Decompressed
        &&& self.archive.valid()
        &&& self.unpacked.valid()
        &&& self.archive.committed != self.unpacked.committed
        &&& self.archive.committed != self.unpacked.staged
        &&& self.archive.staged != self.unpacked.committed
        &&& self.archive.staged != self.unpacked.staged
    }

    /// The site of one artifact, as seen on `disk`.
    pub open spec fn site(&self, k: ArtifactKind, disk: Disk) -> Site {
        match k {
            ArtifactKind::Compressed => self.archive,
            ArtifactKind::Decompressed => Site {
                precursor: disk.dom().contains(self.archive.committed),
                ..self.unpacked
            },
        }
    }
}

/// The stager states of a resource: compressed, and decompressed if wanted.
pub type TaskView = (StagerState, Option<StagerState>);

/// The states of a resource that has not yet looked at the disk.
pub open spec fn task_start(rs: ResourceSite) -> TaskView {
    (StagerState::Start, if rs.decompress { Some(StagerState::Start) } else { None })
}

pub open spec fn task_after(rs: ResourceSite, t: TaskView, ev: Event) -> TaskView {
    task_transition(rs.archive.expected, rs.unpacked.expected, t.0, t.1, ev)
}

pub open spec fn task_disk_after(rs: ResourceSite, t: TaskView, disk: Disk, ev: Event) -> Disk {
    match active_of(t.0, t.1) {
        Some(k) => disk_after(rs.site(k, disk), disk, task_pending(t.0, t.1), ev),
        None => disk,
    }
}

pub open spec fn task_fits(rs: ResourceSite, t: TaskView, disk: Disk, ev: Event) -> bool {
    match active_of(t.0, t.1) {
        Some(k) => fits(rs.site(k, disk), disk, task_pending(t.0, t.1), ev),
        None => true,
    }
}

/// Final states and disk of a run of a resource.
pub open spec fn task_run(rs: ResourceSite, t: TaskView, disk: Disk, evs: Seq<Event>) -> (
    TaskView,
    Disk,
)
    decreases evs.len(),
{
    if evs.len() == 0 {
        (t, disk)
    } else {
        task_run(
            rs,
            task_after(rs, t, evs[0]),
            task_disk_after(rs, t, disk, evs[0]),
            evs.drop_first(),
        )
    }
}

pub open spec fn task_all_fit(rs: ResourceSite, t: TaskView, disk: Disk, evs: Seq<Event>) -> bool
    decreases evs.len(),
{
    evs.len() == 0 || (task_fits(rs, t, disk, evs[0]) && task_all_fit(
        rs,
        task_after(rs, t, evs[0]),
        task_disk_after(rs, t, disk, evs[0]),
        evs.drop_first(),
    ))
}

/// Whether action `a` is requested, on either artifact, at some step.
pub open spec fn task_performs(
    rs: ResourceSite,
    t: TaskView,
    disk: Disk,
    evs: Seq<Event>,
    a: Action,
) -> bool
    decreases evs.len(),
{
    evs.len() > 0 && ((active_of(t.0, t.1) is Some && task_pending(t.0, t.1) == a)
        || task_performs(
        rs,
        task_after(rs, t, evs[0]),
        task_disk_after(rs, t, disk, evs[0]),
        evs.drop_first(),
        a,
    ))
}

/// Whether a resource finished in success.
pub open spec fn finished_ok(t: TaskView) -> bool {
    active_of(t.0, t.1) is None && task_outcome(t.0, t.1) == Ok::<(), PoleshiftError>(())
}

proof fn lemma_task_step(rs: ResourceSite, t: TaskView, disk: Disk, evs: Seq<Event>)
    requires
        evs.len() > 0,
    ensures
        task_run(rs, t, disk, evs) == task_run(
            rs,
            task_after(rs, t, evs[0]),
            task_disk_after(rs, t, disk, evs[0]),
            evs.drop_first(),
        ),
        task_all_fit(rs, t, disk, evs) == (task_fits(rs, t, disk, evs[0]) && task_all_fit(
            rs,
            task_after(rs, t, evs[0]),
            task_disk_after(rs, t, disk, evs[0]),
            evs.drop_first(),
        )),
        forall|a: Action|
            #![trigger task_performs(rs, t, disk, evs, a)]
            task_performs(rs, t, disk, evs, a) == ((active_of(t.0, t.1) is Some && task_pending(
                t.0,
                t.1,
            ) == a) || task_performs(
                rs,
                task_after(rs, t, evs[0]),
                task_disk_after(rs, t, disk, evs[0]),
                evs.drop_first(),
                a,
            )),
{
}

proof fn lemma_task_idle(rs: ResourceSite, t: TaskView, disk: Disk, evs: Seq<Event>)
    requires
        active_of(t.0, t.1) is None,
    ensures
        task_run(rs, t, disk, evs) == (t, disk),
        forall|a: Action| !task_performs(rs, t, disk, evs, a),
    decreases evs.len(),
{
    if evs.len() > 0 {
        lemma_task_step(rs, t, disk, evs);
        assert(task_after(rs, t, evs[0]) == t);
        assert(task_disk_after(rs, t, disk, evs[0]) == disk);
        lemma_task_idle(rs, t, disk, evs.drop_first());
    }
}

/// A resource whose artifacts are all committed, with nothing staged, needs
/// no work: the run ends in success after probing, downloads, decompresses
/// and hashes nothing, and leaves the disk as it was.
pub proof fn committed_resource_needs_no_work(rs: ResourceSite, disk: Disk, evs: Seq<Event>)
    requires
        rs.valid(),
        disk.dom().contains(rs.archive.committed),
        !disk.dom().contains(rs.archive.staged),
        rs.decompress ==> disk.dom().contains(rs.unpacked.committed) && !disk.dom().contains(
            rs.unpacked.staged,
        ),
        evs.len() >= 2,
        task_all_fit(rs, task_start(rs), disk, evs),
    ensures
        finished_ok(task_run(rs, task_start(rs), disk, evs).0),
        task_run(rs, task_start(rs), disk, evs).1 == disk,
        !task_performs(rs, task_start(rs), disk, evs, Action::Produce),
        !task_performs(rs, task_start(rs), disk, evs, Action::Hash),
{
    let t0 = task_start(rs);
    lemma_task_step(rs, t0, disk, evs);
    let t1 = task_after(rs, t0, evs[0]);
    assert(t1.0 == StagerState::Done(Ok::<(), PoleshiftError>(())));
    assert(task_disk_after(rs, t0, disk, evs[0]) == disk);
    let e1 = evs.drop_first();
    if rs.decompress {
        lemma_task_step(rs, t1, disk, e1);
        let t2 = task_after(rs, t1, e1[0]);
        assert(t2 == (
            StagerState::Done(Ok::<(), PoleshiftError>(())),
            Some(StagerState::Done(Ok::<(), PoleshiftError>(()))),
        ));
        assert(task_disk_after(rs, t1, disk, e1[0]) == disk);
        lemma_task_idle(rs, t2, disk, e1.drop_first());
    } else {
        lemma_task_idle(rs, t1, disk, e1);
    }
}

/// From nothing on disk to both artifacts committed, and back to no work:
/// a first fault-free run downloads the archive, checks it, commits it,
/// decompresses it, checks the result and commits that; a second run on the
/// disk thus left downloads and decompresses nothing and succeeds.
pub proof fn fresh_resource_end_to_end(
    rs: ResourceSite,
    disk: Disk,
    evs: Seq<Event>,
    again: Seq<Event>,
)
    requires
        rs.valid(),
        rs.decompress,
        !disk.dom().contains(rs.archive.committed),
        !disk.dom().contains(rs.archive.staged),
        !disk.dom().contains(rs.unpacked.committed),
        !disk.dom().contains(rs.unpacked.staged),
        rs.archive.expected@.len() > 0,
        rs.unpacked.expected@.len() > 0,
        digest_hex(rs.archive.produced) == rs.archive.expected@,
        digest_hex(rs.unpacked.produced) == rs.unpacked.expected@,
        evs.len() >= 8,
        fault_free(evs),
        task_all_fit(rs, task_start(rs), disk, evs),
        again.len() >= 2,
        task_all_fit(
            rs,
            task_start(rs),
            disk.insert(rs.archive.committed, rs.archive.produced).insert(
                rs.unpacked.committed,
                rs.unpacked.produced,
            ),
            again,
        ),
    ensures
        finished_ok(task_run(rs, task_start(rs), disk, evs).0),
        task_run(rs, task_start(rs), disk, evs).1 == disk.insert(
            rs.archive.committed,
            rs.archive.produced,
        ).insert(rs.unpacked.committed, rs.unpacked.produced),
        !task_performs(
            rs,
            task_start(rs),
            task_run(rs, task_start(rs), disk, evs).1,
            again,
            Action::Produce,
        ),
        finished_ok(
            task_run(rs, task_start(rs), task_run(rs, task_start(rs), disk, evs).1, again).0,
        ),
{
    let a = rs.archive;
    let u = rs.unpacked;
    let ok = StagerState::Done(Ok::<(), PoleshiftError>(()));
    let t0 = task_start(rs);
    let e0 = evs;
    lemma_task_step(rs, t0, disk, e0);
    lemma_fault_free_rest(e0);
    let t1 = (StagerState::Producing, Some(StagerState::Start));
    assert(task_after(rs, t0, e0[0]) == t1);
    assert(task_disk_after(rs, t0, disk, e0[0]) == disk);
    let e1 = e0.drop_first();
    lemma_task_step(rs, t1, disk, e1);
    lemma_fault_free_rest(e1);
    assert(e1[0] is Produced);
    let t2 = (StagerState::VerifyProduced, Some(StagerState::Start));
    let d2 = disk.insert(a.staged, a.produced);
    assert(task_after(rs, t1, e1[0]) == t2);
    assert(task_disk_after(rs, t1, disk, e1[0]) == d2);
    let e2 = e1.drop_first();
    lemma_task_step(rs, t2, d2, e2);
    lemma_fault_free_rest(e2);
    assert(e2[0] is Hashed);
    let t3 = (StagerState::Committing, Some(StagerState::Start));
    assert(task_after(rs, t2, e2[0]) == t3);
    assert(task_disk_after(rs, t2, d2, e2[0]) == d2);
    let e3 = e2.drop_first();
    lemma_task_step(rs, t3, d2, e3);
    lemma_fault_free_rest(e3);
    assert(e3[0] is Renamed);
    let t4 = (ok, Some(StagerState::Start));
    let d4 = d2.remove(a.staged).insert(a.committed, a.produced);
    assert(task_after(rs, t3, e3[0]) == t4);
    assert(task_disk_after(rs, t3, d2, e3[0]) == d4);
    let e4 = e3.drop_first();
    lemma_task_step(rs, t4, d4, e4);
    lemma_fault_free_rest(e4);
    assert(d4.dom().contains(a.committed));
    let t5 = (ok, Some(StagerState::Producing));
    assert(task_after(rs, t4, e4[0]) == t5);
    assert(task_disk_after(rs, t4, d4, e4[0]) == d4);
    let e5 = e4.drop_first();
    lemma_task_step(rs, t5, d4, e5);
    lemma_fault_free_rest(e5);
    assert(e5[0] is Produced);
    let t6 = (ok, Some(StagerState::VerifyProduced));
    let d6 = d4.insert(u.staged, u.produced);
    assert(task_after(rs, t5, e5[0]) == t6);
    assert(task_disk_after(rs, t5, d4, e5[0]) == d6);
    let e6 = e5.drop_first();
    lemma_task_step(rs, t6, d6, e6);
    lemma_fault_free_rest(e6);
    assert(e6[0] is Hashed);
    let t7 = (ok, Some(StagerState::Committing));
    assert(task_after(rs, t6, e6[0]) == t7);
    assert(task_disk_after(rs, t6, d6, e6[0]) == d6);
    let e7 = e6.drop_first();
    lemma_task_step(rs, t7, d6, e7);
    lemma_fault_free_rest(e7);
    assert(e7[0] is Renamed);
    let t8 = (ok, Some(ok));
    let d8 = d6.remove(u.staged).insert(u.committed, u.produced);
    assert(task_after(rs, t7, e7[0]) == t8);
    assert(task_disk_after(rs, t7, d6, e7[0]) == d8);
    lemma_task_idle(rs, t8, d8, e7.drop_first());
    let end = disk.insert(a.committed, a.produced).insert(u.committed, u.produced);
    assert(d8 =~= end);
    committed_resource_needs_no_work(rs, end, again);
}

} // verus!
