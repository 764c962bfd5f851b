//! Per-resource pipelines and how their results are combined.
//!
//! A resource runs its compressed artifact through a stager and then, when it
//! is to be decompressed, its decompressed artifact. Resources run
//! concurrently; the run fails if any of them fails, reporting the first
//! failure in catalog order.

use vstd::prelude::*;
use crate::catalog::{ResourceFiles, compressed_path, compressed_path_of, staged_of, staged_path};
use crate::error::PoleshiftError;
use crate::stager::{Action, ArtifactKind, Event, Stager, StagerState, failed, pending, transition};

verus! {

/// The four files of a resource.
pub struct ResourcePaths {
    /// Committed compressed artifact.
    pub compressed: String,
    /// Staged compressed artifact.
    pub compressed_staged: String,
    /// Committed decompressed artifact.
    pub final_path: String,
    /// Staged decompressed artifact.
    pub final_staged: String,
}

/// The files of a resource whose compressed artifact lives in `resource_dir`.
pub fn paths_of(resource_dir: &str, res: &ResourceFiles) -> (p: ResourcePaths)
    ensures
        p.compressed@ == compressed_path_of(resource_dir@, *res),
        p.compressed_staged@ == staged_of(compressed_path_of(resource_dir@, *res)),
        p.final_path@ == res.file_path@,
        p.final_staged@ == staged_of(res.file_path@),
{
    let compressed = compressed_path(resource_dir, res);
    let compressed_staged = staged_path(compressed.as_str());
    ResourcePaths {
        compressed,
        compressed_staged,
        final_path: res.file_path.clone(),
        final_staged: staged_path(res.file_path.as_str()),
    }
}

/// The artifact whose stager waits for an event, if any: the compressed one
/// until it is done, then, unless it failed, the decompressed one until that
/// is done.
pub open spec fn active_of(first: StagerState, second: Option<StagerState>) -> Option<ArtifactKind> {
    if !(first is Done) {
        Some(ArtifactKind::Compressed)
    } else if failed(first) {
        None
    } else {
        match second {
            Some(d) => if d is Done {
                None
            } else {
                Some(ArtifactKind::Decompressed)
            },
            None => None,
        }
    }
}

/// The action a resource waits for.
pub open spec fn task_pending(first: StagerState, second: Option<StagerState>) -> Action {
    match active_of(first, second) {
        Some(ArtifactKind::Compressed) => pending(first),
        Some(ArtifactKind::Decompressed) => pending(second.unwrap()),
        None => Action::Finish,
    }
}

/// The stager states of a resource after an event, which goes to the active
/// stager; with none active it is ignored.
pub open spec fn task_transition(
    first_expected: String,
    second_expected: String,
    first: StagerState,
    second: Option<StagerState>,
    ev: Event,
) -> (StagerState, Option<StagerState>) {
    match active_of(first, second) {
        Some(ArtifactKind::Compressed) => (
            transition(ArtifactKind::Compressed, first_expected, first, ev),
            second,
        ),
        Some(ArtifactKind::Decompressed) => (
            first,
            Some(transition(ArtifactKind::Decompressed, second_expected, second.unwrap(), ev)),
        ),
        None => (first, second),
    }
}

/// The outcome of a resource whose stagers are all at rest: the compressed
/// stager's failure, else the decompressed stager's outcome, else success.
pub open spec fn task_outcome(first: StagerState, second: Option<StagerState>) -> Result<
    (),
    PoleshiftError,
> {
    match first {
        StagerState::Done(Err(e)) => Err(e),
        _ => match second {
            Some(StagerState::Done(res)) => res,
            _ => Ok(()),
        },
    }
}

/// The pipeline of one resource: its compressed artifact, then, if asked
/// for, its decompressed artifact.
pub struct ResourceTask {
    compressed: Stager,
    decompressed: Option<Stager>,
}

impl ResourceTask {
    pub closed spec fn first(&self) -> StagerState {
        self.compressed.state()
    }

    pub closed spec fn second(&self) -> Option<StagerState> {
        match self.decompressed {
            Some(d) => Some(d.state()),
            None => None,
        }
    }

    /// Expected digest of the compressed artifact.
    pub closed spec fn first_expected(&self) -> String {
        self.compressed.expected()
    }

    /// Expected digest of the decompressed artifact, when there is one.
    pub closed spec fn second_expected(&self) -> String {
        match self.decompressed {
            Some(d) => d.expected(),
            None => arbitrary(),
        }
    }

    pub closed spec fn wf(&self) -> bool {
        &&& self.compressed.kind() == ArtifactKind::Compressed
        &&& self.decompressed matches Some(d) ==> d.kind() == ArtifactKind::Decompressed
    }

    pub open spec fn active(&self) -> Option<ArtifactKind> {
        active_of(self.first(), self.second())
    }

    /// A task that has not yet looked at the disk.
    pub fn new(res: &ResourceFiles) -> (t: Self)
        ensures
            t.wf(),
            t.first() is Start,
            t.first_expected() == res.checksum_compressed,
            res.compressed ==> t.second() == Some(StagerState::Start) && t.second_expected()
                == res.checksum_decompressed,
            !res.compressed ==> t.second() is None,
    {
        let decompressed = if res.compressed {
            Some(Stager::new(ArtifactKind::Decompressed, res.checksum_decompressed.clone()))
        } else {
            None
        };
        ResourceTask {
            compressed: Stager::new(ArtifactKind::Compressed, res.checksum_compressed.clone()),
            decompressed,
        }
    }

    /// The artifact and action the task waits for; `None` once finished.
    pub fn next_request(&self) -> (r: Option<(ArtifactKind, Action)>)
        ensures
            match self.active() {
                Some(k) => r == Some((k, task_pending(self.first(), self.second()))),
                None => r is None,
            },
    {
        if !self.compressed.is_done() {
            return Some((ArtifactKind::Compressed, self.compressed.next_action()));
        }
        if self.compressed.has_failed() {
            return None;
        }
        match &self.decompressed {
            Some(d) => if d.is_done() {
                None
            } else {
                Some((ArtifactKind::Decompressed, d.next_action()))
            },
            None => None,
        }
    }

    /// Hands an event to the active stager; with none active it is ignored.
    pub fn advance(&mut self, ev: Event)
        requires
            old(self).wf(),
        ensures
            final(self).wf(),
            final(self).first_expected() == old(self).first_expected(),
            final(self).second_expected() == old(self).second_expected(),
            (final(self).first(), final(self).second()) == task_transition(
                old(self).first_expected(),
                old(self).second_expected(),
                old(self).first(),
                old(self).second(),
                ev,
            ),
    {
        if !self.compressed.is_done() {
            self.compressed.advance(ev);
            return;
        }
        if self.compressed.has_failed() {
            return;
        }
        match &mut self.decompressed {
            Some(d) => {
                if !d.is_done() {
                    d.advance(ev);
                }
            },
            None => {},
        }
    }

    /// The task's outcome once it has finished.
    pub fn into_outcome(self) -> (r: Option<Result<(), PoleshiftError>>)
        ensures
            self.active() is Some ==> r is None,
            self.active() is None ==> r == Some(task_outcome(self.first(), self.second())),
    {
        if !self.compressed.is_done() {
            return None;
        }
        if self.compressed.has_failed() {
            return self.compressed.into_outcome();
        }
        match self.decompressed {
            Some(d) => {
                if d.is_done() {
                    d.into_outcome()
                } else {
                    None
                }
            },
            None => Some(Ok(())),
        }
    }
}

/// The combined result of a run: success when every resource succeeded, else
/// the first failure in catalog order.
pub fn first_error(results: Vec<Result<(), PoleshiftError>>) -> (r: Result<(), PoleshiftError>)
    ensures
        r is Ok <==> (forall|i: int| 0 <= i < results@.len() ==> #[trigger] results@[i] is Ok),
        r is Err ==> exists|i: int|
            0 <= i < results@.len() && results@[i] == r && forall|k: int|
                0 <= k < i ==> #[trigger] results@[k] is Ok,
{
    let ghost all = results@;
    let mut rest = results;
    let mut found: Result<(), PoleshiftError> = Ok(());
    while rest.len() > 0
        invariant
            rest@ == all.take(rest@.len() as int),
            rest@.len() <= all.len(),
            found is Ok <==> (forall|i: int| rest@.len() <= i < all.len() ==> #[trigger] all[i] is Ok),
            found is Err ==> exists|i: int|
                rest@.len() <= i < all.len() && all[i] == found && forall|k: int|
                    rest@.len() <= k < i ==> #[trigger] all[k] is Ok,
        decreases rest@.len(),
    {
        let ghost n = rest@.len();
        let item = rest.pop().unwrap();
        assert(item == all[n - 1]);
        if item.is_err() {
            found = item;
        }
        assert(rest@ =~= all.take(rest@.len() as int));
    }
    found
}

} // verus!
