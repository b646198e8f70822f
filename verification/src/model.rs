//! The duplicate filter as a state machine over mathematical values.
//!
//! A [`Model`] is the state of a run. [`Model::request`] is the action that
//! the run waits on in that state, and [`Model::next`] is the state that
//! follows when an event arrives.

use crate::config::PolicyView;
use crate::digest::{hex_lower, sha256};
use crate::error::FilterError;
use crate::path::{is_absolute, joined, resolved};
use crate::registry::with_digest;
use crate::text::{
    choice_of, choice_prompt, deleted_notice, destination_prompt, moved_notice, repeated_notice,
    trimmed, without_line_end, Choice,
};
use crate::traits::{ActionView, EventView};
use vstd::prelude::*;

verus! {

/// What a run is busy with. Where a phase concerns a file, it holds the
/// file's name.
pub enum PhaseView {
    /// Waiting for the listing of the folder.
    Listing,
    /// Waiting for the content of a file.
    Reading { name: Seq<char> },
    /// Waiting for the removal of a duplicate.
    Deleting { name: Seq<char> },
    /// Waiting for the move of a duplicate to the path `to`.
    Moving { name: Seq<char>, to: Seq<char> },
    /// Waiting for a notice to be shown; the file it is about is done with.
    Reporting { notice: Seq<char> },
    /// Waiting for the operator's choice for a duplicate.
    Choosing { name: Seq<char> },
    /// Waiting for the operator to name the folder to move a duplicate to.
    Destination { name: Seq<char> },
    /// Waiting for the canonical form of the folder that the operator named.
    Resolving { name: Seq<char>, input: Seq<char> },
    /// The run is over.
    Done { result: Result<(), FilterError> },
}

/// The state of a run.
pub struct Model {
    /// The folder that is scanned.
    pub folder: Seq<char>,
    /// The policy for duplicates.
    pub policy: PolicyView,
    /// The digests registered so far, in ascending order.
    pub registry: Seq<Seq<u8>>,
    /// The names of the candidate files, in the order of the listing.
    pub files: Seq<Seq<char>>,
    /// How many of the candidates the run has turned to.
    pub cursor: nat,
    /// What the run is busy with.
    pub phase: PhaseView,
}

impl Model {
    /// The state in which a run starts.
    pub open spec fn initial(folder: Seq<char>, policy: PolicyView) -> Model {
        Model {
            folder,
            policy,
            registry: Seq::empty(),
            files: Seq::empty(),
            cursor: 0,
            phase: PhaseView::Listing,
        }
    }

    /// The path of the candidate called `name`.
    pub open spec fn path_of(self, name: Seq<char>) -> Seq<char> {
        joined(self.folder, name)
    }

    /// This state in another phase.
    pub open spec fn at(self, phase: PhaseView) -> Model {
        Model { phase, ..self }
    }

    /// The run ends with `error`.
    pub open spec fn fail(self, error: FilterError) -> Model {
        self.at(PhaseView::Done { result: Err(error) })
    }

    /// The run is done with the current file: it turns to the next candidate,
    /// or ends with success when there is none left.
    pub open spec fn advance(self) -> Model {
        if self.cursor < self.files.len() {
            Model {
                cursor: self.cursor + 1,
                phase: PhaseView::Reading { name: self.files[self.cursor as int] },
                ..self
            }
        } else {
            self.at(PhaseView::Done { result: Ok(()) })
        }
    }

    /// The run has the listing of the folder and turns to the first candidate.
    pub open spec fn begin(self, names: Seq<Seq<char>>) -> Model {
        Model { files: names, cursor: 0, ..self }.advance()
    }

    /// The policy is applied to the duplicate called `name`, whose content has
    /// the digest `digest`.
    pub open spec fn resolve_conflict(self, name: Seq<char>, digest: Seq<u8>) -> Model {
        match self.policy {
            PolicyView::Delete => self.delete_file(name),
            PolicyView::Ask => self.at(PhaseView::Choosing { name }),
            PolicyView::Inform => self.at(
                PhaseView::Reporting {
                    notice: repeated_notice(self.path_of(name), hex_lower(digest)),
                },
            ),
            PolicyView::Move(folder) => self.move_file(name, folder),
        }
    }

    /// The content of the file called `name` has the digest `digest`. If the
    /// digest is registered, the file is a duplicate and the policy applies;
    /// else the digest is registered and the run turns to the next file.
    pub open spec fn classify(self, name: Seq<char>, digest: Seq<u8>) -> Model {
        if self.registry.contains(digest) {
            self.resolve_conflict(name, digest)
        } else {
            Model { registry: with_digest(self.registry, digest), ..self }.advance()
        }
    }

    /// The operator answered `line` to the question what to do with the
    /// duplicate called `name`.
    pub open spec fn ask_for_conflict_file(self, name: Seq<char>, line: Seq<char>) -> Model {
        match choice_of(trimmed(line)) {
            Ok(Choice::Delete) => self.delete_file(name),
            Ok(Choice::Move) => self.at(PhaseView::Destination { name }),
            Ok(Choice::Ignore) => self.advance(),
            Err(error) => self.fail(error),
        }
    }

    /// The duplicate called `name` is to be removed.
    pub open spec fn delete_file(self, name: Seq<char>) -> Model {
        self.at(PhaseView::Deleting { name })
    }

    /// The duplicate called `name` is to be moved to `folder`.
    pub open spec fn move_file(self, name: Seq<char>, folder: Seq<char>) -> Model {
        self.at(PhaseView::Moving { name, to: joined(folder, name) })
    }

    /// The removal of the duplicate called `name` succeeded, which is
    /// reported, or failed, which ends the run.
    pub open spec fn deleted(self, name: Seq<char>, done: bool) -> Model {
        if done {
            self.at(PhaseView::Reporting { notice: deleted_notice(self.path_of(name)) })
        } else {
            self.fail(FilterError::DeleteFailed)
        }
    }

    /// The move of the duplicate called `name` to the path `to` succeeded,
    /// which is reported, or failed, which ends the run.
    pub open spec fn moved(self, name: Seq<char>, to: Seq<char>, done: bool) -> Model {
        if done {
            self.at(PhaseView::Reporting { notice: moved_notice(self.path_of(name), to) })
        } else {
            self.fail(FilterError::MoveFailed)
        }
    }

    /// The operator answered `line` to the question where to move the
    /// duplicate called `name`. The line without its end of line names the
    /// folder. An absolute folder is the destination as it is; any other is
    /// resolved on disk first.
    pub open spec fn name_destination(self, name: Seq<char>, line: Seq<char>) -> Model {
        let folder = without_line_end(line);
        if is_absolute(folder) {
            self.move_file(name, folder)
        } else {
            self.at(PhaseView::Resolving { name, input: folder })
        }
    }

    /// The state that follows this one when `event` arrives. An event that
    /// does not answer the pending action leaves the state as it is.
    pub open spec fn next(self, event: EventView) -> Model {
        match (self.phase, event) {
            (PhaseView::Listing, EventView::Listing(Some(names))) => self.begin(names),
            (PhaseView::Listing, EventView::Listing(None)) => self.fail(
                FilterError::FolderUnreadable,
            ),
            (PhaseView::Reading { name }, EventView::Content(Some(content))) => self.classify(
                name,
                sha256(content),
            ),
            (PhaseView::Reading { name }, EventView::Content(None)) => self.advance(),
            (PhaseView::Deleting { name }, EventView::Outcome(done)) => self.deleted(name, done),
            (PhaseView::Moving { name, to }, EventView::Outcome(done)) => self.moved(
                name,
                to,
                done,
            ),
            (PhaseView::Reporting { notice }, EventView::Reported) => self.advance(),
            (PhaseView::Choosing { name }, EventView::Line(Some(line))) =>
                self.ask_for_conflict_file(name, line),
            (PhaseView::Choosing { name }, EventView::Line(None)) => self.fail(
                FilterError::InputReadFailed,
            ),
            (PhaseView::Destination { name }, EventView::Line(Some(line))) =>
                self.name_destination(name, line),
            (PhaseView::Destination { name }, EventView::Line(None)) => self.fail(
                FilterError::InputReadFailed,
            ),
            (PhaseView::Resolving { name, input }, EventView::Resolved(canonical)) =>
                match resolved(input, canonical) {
                    Ok(folder) => self.move_file(name, folder),
                    Err(error) => self.fail(error),
                },
            _ => self,
        }
    }

    /// The action that the run waits on in this state.
    pub open spec fn request(self) -> ActionView {
        match self.phase {
            PhaseView::Listing => ActionView::ListFolder(self.folder),
            PhaseView::Reading { name } => ActionView::ReadFile(self.path_of(name)),
            PhaseView::Deleting { name } => ActionView::Remove(self.path_of(name)),
            PhaseView::Moving { name, to } => ActionView::Rename { from: self.path_of(name), to },
            PhaseView::Reporting { notice } => ActionView::Report(notice),
            PhaseView::Choosing { name } => ActionView::Prompt(choice_prompt(self.path_of(name))),
            PhaseView::Destination { name } => ActionView::Prompt(destination_prompt()),
            PhaseView::Resolving { name, input } => ActionView::Canonicalize(input),
            PhaseView::Done { result } => ActionView::Finish(result),
        }
    }

    /// The state reached from this one when the events of `events` arrive in
    /// their order.
    pub open spec fn after(self, events: Seq<EventView>) -> Model
        decreases events.len(),
    {
        if events.len() == 0 {
            self
        } else {
            self.after(events.drop_last()).next(events.last())
        }
    }

    /// The content that the run takes in when `event` arrives in this state:
    /// that of the file it is waiting for, if the event brings it.
    pub open spec fn content_taken(self, event: EventView) -> Option<Seq<u8>> {
        match (self.phase, event) {
            (PhaseView::Reading { name }, EventView::Content(Some(content))) => Some(content),
            _ => None,
        }
    }

    /// The digests of the contents that the run takes in while the events of
    /// `events` arrive, in their order.
    pub open spec fn digests_seen(self, events: Seq<EventView>) -> Seq<Seq<u8>>
        decreases events.len(),
    {
        if events.len() == 0 {
            Seq::empty()
        } else {
            let earlier = self.digests_seen(events.drop_last());
            match self.after(events.drop_last()).content_taken(events.last()) {
                Some(content) => earlier.push(sha256(content)),
                None => earlier,
            }
        }
    }
}

} // verus!
