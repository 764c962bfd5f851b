//! The stage-then-commit state machine shared by the download phase and the
//! decompression phase of a resource.
//!
//! An artifact lives at a committed path; new content is first written to a
//! staged path beside it, checked against the expected digest, and only then
//! renamed over the committed path. The machine decides; the caller performs
//! each requested action on the disk or the network and reports back what
//! happened as an event.

use vstd::prelude::*;
use crate::error::PoleshiftError;

verus! {

/// Which artifact of a resource a stager handles.
#[derive(Clone, Copy, Debug, PartialEq, Eq, Structural)]
pub enum ArtifactKind {
    /// The compressed artifact, produced by downloading it.
    Compressed,
    /// The decompressed artifact, produced from the committed compressed one.
    Decompressed,
}

/// What the disk holds for one artifact when a phase begins.
#[derive(Clone, Copy, Debug, PartialEq, Eq, Structural)]
pub enum PipelinePhase {
    /// The committed path exists and no staged file does.
    Committed,
    /// A staged file exists.
    Staged,
    /// Neither exists.
    Absent,
}

pub open spec fn phase_of(committed_exists: bool, staged_exists: bool) -> PipelinePhase {
    if staged_exists {
        PipelinePhase::Staged
    } else if committed_exists {
        PipelinePhase::Committed
    } else {
        PipelinePhase::Absent
    }
}

/// Classifies an artifact from whether its committed and staged paths exist.
pub fn probe_phase(committed_exists: bool, staged_exists: bool) -> (r: PipelinePhase)
    ensures
        r == phase_of(committed_exists, staged_exists),
{
    if staged_exists {
        PipelinePhase::Staged
    } else if committed_exists {
        PipelinePhase::Committed
    } else {
        PipelinePhase::Absent
    }
}

/// The next thing the caller must do for a stager.
#[derive(Clone, Copy, Debug, PartialEq, Eq, Structural)]
pub enum Action {
    /// Report whether the committed and staged paths exist and, for the
    /// decompressed artifact, whether the compressed one is committed.
    Probe,
    /// Compute the digest of the staged file.
    Hash,
    /// Write fresh content (download, or decompress) to the staged path.
    Produce,
    /// Delete the staged file.
    Remove,
    /// Rename the staged file over the committed path.
    Commit,
    /// Nothing more: the outcome is known.
    Finish,
}

/// What the caller observed while performing an action.
#[derive(Debug)]
pub enum Event {
    Probed { committed: bool, staged: bool, precursor: bool },
    Hashed(String),
    HashFailed(String),
    Produced,
    ProduceFailed(PoleshiftError),
    Removed,
    Renamed,
    RenameFailed(String),
}

/// Where a stager stands. The flag carried by the states of a leftover
/// staged file records whether the compressed artifact was committed.
#[derive(Debug)]
pub enum StagerState {
    Start,
    VerifyStaged(bool),
    DropStaged(bool),
    Producing,
    VerifyProduced,
    DropProduced(PoleshiftError),
    Committing,
    Done(Result<(), PoleshiftError>),
}

/// The action that a state waits for.
pub open spec fn pending(st: StagerState) -> Action {
    match st {
        StagerState::Start => Action::Probe,
        StagerState::VerifyStaged(_) => Action::Hash,
        StagerState::DropStaged(_) => Action::Remove,
        StagerState::Producing => Action::Produce,
        StagerState::VerifyProduced => Action::Hash,
        StagerState::DropProduced(_) => Action::Remove,
        StagerState::Committing => Action::Commit,
        StagerState::Done(_) => Action::Finish,
    }
}

/// Whether a state is a known failure.
pub open spec fn failed(st: StagerState) -> bool {
    match st {
        StagerState::Done(Err(_)) => true,
        _ => false,
    }
}

/// Where an artifact with nothing on disk goes: decompression needs the
/// compressed artifact committed first.
pub open spec fn start_producing(kind: ArtifactKind, precursor: bool) -> StagerState {
    if kind == ArtifactKind::Decompressed && !precursor {
        StagerState::Done(Err(PoleshiftError::MissingPrecursor))
    } else {
        StagerState::Producing
    }
}

/// Where content that is ready to be checked goes: straight to the commit
/// when no digest is expected, else to the given check.
pub open spec fn check_or_commit(expected: Seq<char>, check: StagerState) -> StagerState {
    if expected.len() == 0 {
        StagerState::Committing
    } else {
        check
    }
}

/// The state after an event. An event that does not answer the pending
/// action leaves the state as it is, so the action is asked for again.
pub open spec fn transition(
    kind: ArtifactKind,
    expected: String,
    st: StagerState,
    ev: Event,
) -> StagerState {
    match (st, ev) {
        (StagerState::Start, Event::Probed { committed, staged, precursor }) => {
            match phase_of(committed, staged) {
                PipelinePhase::Staged => check_or_commit(
                    expected@,
                    StagerState::VerifyStaged(precursor),
                ),
                PipelinePhase::Committed => StagerState::Done(Ok(())),
                PipelinePhase::Absent => start_producing(kind, precursor),
            }
        },
        (StagerState::VerifyStaged(p), Event::Hashed(h)) => {
            if h@ == expected@ {
                StagerState::Committing
            } else {
                StagerState::DropStaged(p)
            }
        },
        (StagerState::VerifyStaged(p), Event::HashFailed(_)) => StagerState::DropStaged(p),
        (StagerState::DropStaged(p), Event::Removed) => start_producing(kind, p),
        (StagerState::Producing, Event::Produced) => check_or_commit(
            expected@,
            StagerState::VerifyProduced,
        ),
        (StagerState::Producing, Event::ProduceFailed(e)) => StagerState::DropProduced(e),
        (StagerState::VerifyProduced, Event::Hashed(h)) => {
            if h@ == expected@ {
                StagerState::Committing
            } else {
                StagerState::DropProduced(mismatch_error(expected, h))
            }
        },
        (StagerState::VerifyProduced, Event::HashFailed(m)) => StagerState::DropProduced(
            PoleshiftError::Filesystem(m),
        ),
        (StagerState::DropProduced(e), Event::Removed) => StagerState::Done(Err(e)),
        (StagerState::Committing, Event::Renamed) => StagerState::Done(Ok(())),
        (StagerState::Committing, Event::RenameFailed(m)) => StagerState::Done(
            Err(PoleshiftError::Filesystem(m)),
        ),
        (st, _) => st,
    }
}

/// The error for content whose digest `found` differs from `expected`.
pub open spec fn mismatch_error(expected: String, found: String) -> PoleshiftError {
    PoleshiftError::DigestMismatch { expected, found }
}

/// The stage-then-commit machine for one artifact of one resource.
pub struct Stager {
    kind: ArtifactKind,
    expected: String,
    state: StagerState,
}

impl Stager {
    pub closed spec fn kind(&self) -> ArtifactKind {
        self.kind
    }

    /// The expected digest, lowercase hex; empty to skip verification.
    pub closed spec fn expected(&self) -> String {
        self.expected
    }

    pub closed spec fn state(&self) -> StagerState {
        self.state
    }

    /// A stager that has not yet looked at the disk.
    pub fn new(kind: ArtifactKind, expected: String) -> (r: Self)
        ensures
            r.kind() == kind,
            r.expected() == expected,
            r.state() is Start,
    {
        Stager { kind, expected, state: StagerState::Start }
    }

    /// The action the stager waits for.
    pub fn next_action(&self) -> (a: Action)
        ensures
            a == pending(self.state()),
    {
        match &self.state {
            StagerState::Start => Action::Probe,
            StagerState::VerifyStaged(_) => Action::Hash,
            StagerState::DropStaged(_) => Action::Remove,
            StagerState::Producing => Action::Produce,
            StagerState::VerifyProduced => Action::Hash,
            StagerState::DropProduced(_) => Action::Remove,
            StagerState::Committing => Action::Commit,
            StagerState::Done(_) => Action::Finish,
        }
    }

    /// Whether the outcome is known.
    pub fn is_done(&self) -> (r: bool)
        ensures
            r == (self.state() is Done),
    {
        matches!(self.state, StagerState::Done(_))
    }

    /// Whether the outcome is known and is a failure.
    pub fn has_failed(&self) -> (r: bool)
        ensures
            r == failed(self.state()),
    {
        matches!(self.state, StagerState::Done(Err(_)))
    }

    /// The outcome, once known.
    pub fn into_outcome(self) -> (r: Option<Result<(), PoleshiftError>>)
        ensures
            match self.state() {
                StagerState::Done(res) => r == Some(res),
                _ => r is None,
            },
    {
        match self.state {
            StagerState::Done(res) => Some(res),
            _ => None,
        }
    }

    /// Takes in what happened while performing the pending action.
    pub fn advance(&mut self, ev: Event)
        ensures
            final(self).kind() == old(self).kind(),
            final(self).expected() == old(self).expected(),
            final(self).state() == transition(
                old(self).kind(),
                old(self).expected(),
                old(self).state(),
                ev,
            ),
    {
        let mut st = StagerState::Start;
        std::mem::swap(&mut st, &mut self.state);
        let next = match (st, ev) {
            (StagerState::Start, Event::Probed { committed, staged, precursor }) => {
                match probe_phase(committed, staged) {
                    PipelinePhase::Staged => {
                        if self.expected.as_str().is_empty() {
                            StagerState::Committing
                        } else {
                            StagerState::VerifyStaged(precursor)
                        }
                    },
                    PipelinePhase::Committed => StagerState::Done(Ok(())),
                    PipelinePhase::Absent => self.producing(precursor),
                }
            },
            (StagerState::VerifyStaged(p), Event::Hashed(h)) => {
                if h == self.expected {
                    StagerState::Committing
                } else {
                    StagerState::DropStaged(p)
                }
            },
            (StagerState::VerifyStaged(p), Event::HashFailed(_)) => StagerState::DropStaged(p),
            (StagerState::DropStaged(p), Event::Removed) => self.producing(p),
            (StagerState::Producing, Event::Produced) => {
                if self.expected.as_str().is_empty() {
                    StagerState::Committing
                } else {
                    StagerState::VerifyProduced
                }
            },
            (StagerState::Producing, Event::ProduceFailed(e)) => StagerState::DropProduced(e),
            (StagerState::VerifyProduced, Event::Hashed(h)) => {
                if h == self.expected {
                    StagerState::Committing
                } else {
                    StagerState::DropProduced(
                        PoleshiftError::DigestMismatch { expected: self.expected.clone(), found: h },
                    )
                }
            },
            (StagerState::VerifyProduced, Event::HashFailed(m)) => StagerState::DropProduced(
                PoleshiftError::Filesystem(m),
            ),
            (StagerState::DropProduced(e), Event::Removed) => StagerState::Done(Err(e)),
            (StagerState::Committing, Event::Renamed) => StagerState::Done(Ok(())),
            (StagerState::Committing, Event::RenameFailed(m)) => StagerState::Done(
                Err(PoleshiftError::Filesystem(m)),
            ),
            (st, _) => st,
        };
        self.state = next;
    }

    fn producing(&self, precursor: bool) -> (r: StagerState)
        ensures
            r == start_producing(self.kind, precursor),
    {
        if self.kind == ArtifactKind::Decompressed && !precursor {
            StagerState::Done(Err(PoleshiftError::MissingPrecursor))
        } else {
            StagerState::Producing
        }
    }
}

} // verus!
