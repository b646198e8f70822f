//! The duplicate filter: the handler that classifies the files of a folder by
//! the digest of their content and applies the policy to duplicates.

use crate::config::{Config, InConflictDo};
use crate::digest::Digest;
use crate::error::FilterError;
use crate::model::{Model, PhaseView};
use crate::path::{check_absolute_path, join, path_is_absolute};
use crate::registry::HashRegistry;
use crate::text::{
    read_choice, strip_line_end, write_choice_prompt, write_deleted_notice, write_destination_prompt,
    write_moved_notice, write_repeated_notice, Choice,
};
use crate::traits::{Action, ActionView, Event, OperationHandler};
use vstd::prelude::*;

verus! {

/// What a handler is busy with. Where a phase concerns a file, it holds the
/// file's name.
#[derive(Debug, PartialEq, Eq)]
pub enum Phase {
    /// Waiting for the listing of the folder.
    Listing,
    /// Waiting for the content of a file.
    Reading { name: String },
    /// Waiting for the removal of a duplicate.
    Deleting { name: String },
    /// Waiting for the move of a duplicate to the path `to`.
    Moving { name: String, to: String },
    /// Waiting for a notice to be shown; the file it is about is done with.
    Reporting { notice: String },
    /// Waiting for the operator's choice for a duplicate.
    Choosing { name: String },
    /// Waiting for the operator to name the folder to move a duplicate to.
    Destination { name: String },
    /// Waiting for the canonical form of the folder that the operator named.
    Resolving { name: String, input: String },
    /// The run is over.
    Done { result: Result<(), FilterError> },
}

impl View for Phase {
    type V = PhaseView;

    open spec fn view(&self) -> PhaseView {
        match self {
            Phase::Listing => PhaseView::Listing,
            Phase::Reading { name } => PhaseView::Reading { name: name@ },
            Phase::Deleting { name } => PhaseView::Deleting { name: name@ },
            Phase::Moving { name, to } => PhaseView::Moving { name: name@, to: to@ },
            Phase::Reporting { notice } => PhaseView::Reporting { notice: notice@ },
            Phase::Choosing { name } => PhaseView::Choosing { name: name@ },
            Phase::Destination { name } => PhaseView::Destination { name: name@ },
            Phase::Resolving { name, input } => PhaseView::Resolving {
                name: name@,
                input: input@,
            },
            Phase::Done { result } => PhaseView::Done { result: *result },
        }
    }
}

/// A run of the duplicate filter over one folder.
///
/// The handler keeps the registry of the digests seen so far. It asks for the
/// listing of the folder and then for the content of one file after the
/// other, in the order of the listing. A file whose digest is new is
/// registered; a file whose digest is registered is a duplicate and is dealt
/// with as the policy says. The first failure of a removal, of a move or of
/// the dialogue with the operator ends the run.
#[derive(Debug)]
pub struct FilterByHash {
    /// The folder that is scanned.
    pub folder: String,
    /// The policy for duplicates.
    pub in_conflict_do: InConflictDo,
    /// The digests registered so far.
    pub hash_list: HashRegistry,
    /// The names of the candidate files, in the order of the listing.
    pub files: Vec<String>,
    /// How many of the candidates the run has turned to.
    pub cursor: usize,
    /// What the run is busy with.
    pub phase: Phase,
}

impl View for FilterByHash {
    type V = Model;

    open spec fn view(&self) -> Model {
        Model {
            folder: self.folder@,
            policy: self.in_conflict_do@,
            registry: self.hash_list@,
            files: self.files.deep_view(),
            cursor: self.cursor as nat,
            phase: self.phase@,
        }
    }
}

impl FilterByHash {
    /// A handler at the start of its run, with an empty registry.
    pub fn new(config: Config) -> (handler: FilterByHash)
        ensures
            handler@ == Model::initial(config.folder@, config.in_conflict_do@),
    {
        let handler = FilterByHash {
            folder: config.folder,
            in_conflict_do: config.in_conflict_do,
            hash_list: HashRegistry::new(),
            files: Vec::new(),
            cursor: 0,
            phase: Phase::Listing,
        };
        assert(handler.files.deep_view() =~= Seq::<Seq<char>>::empty());
        handler
    }

    /// The result of the run, once it is over.
    pub fn result(&self) -> (result: Option<Result<(), FilterError>>)
        ensures
            result == match self@.phase {
                PhaseView::Done { result } => Some(result),
                _ => None,
            },
    {
        match &self.phase {
            Phase::Done { result } => Some(*result),
            _ => None,
        }
    }

    /// Ends the run with `error`.
    pub fn fail(&mut self, error: FilterError)
        ensures
            final(self)@ == old(self)@.fail(error),
    {
        self.phase = Phase::Done { result: Err(error) };
    }

    /// Turns to the next candidate, or ends the run with success when there
    /// is none left.
    pub fn advance(&mut self)
        ensures
            final(self)@ == old(self)@.advance(),
    {
        if self.cursor < self.files.len() {
            let name = self.files[self.cursor].clone();
            assert(name@ == self.files.deep_view()[self.cursor as int]);
            self.cursor = self.cursor + 1;
            self.phase = Phase::Reading { name };
        } else {
            self.phase = Phase::Done { result: Ok(()) };
        }
    }

    /// Asks for the removal of the duplicate called `name`.
    pub fn delete_file(&mut self, name: String)
        ensures
            final(self)@ == old(self)@.delete_file(name@),
    {
        self.phase = Phase::Deleting { name };
    }

    /// Takes the outcome of the removal of the duplicate called `name`: a
    /// removal that was done is reported, one that failed ends the run.
    pub fn deleted(&mut self, name: String, done: bool)
        ensures
            final(self)@ == old(self)@.deleted(name@, done),
    {
        if done {
            let path = join(self.folder.as_str(), name.as_str());
            self.phase = Phase::Reporting { notice: write_deleted_notice(path.as_str()) };
        } else {
            self.fail(FilterError::DeleteFailed);
        }
    }

    /// Takes the outcome of the move of the duplicate called `name` to the
    /// path `to`: a move that was done is reported, one that failed ends the
    /// run.
    pub fn moved(&mut self, name: String, to: String, done: bool)
        ensures
            final(self)@ == old(self)@.moved(name@, to@, done),
    {
        if done {
            let path = join(self.folder.as_str(), name.as_str());
            self.phase = Phase::Reporting {
                notice: write_moved_notice(path.as_str(), to.as_str()),
            };
        } else {
            self.fail(FilterError::MoveFailed);
        }
    }

    /// Asks for the move of the duplicate called `name` to `folder`.
    pub fn move_file(&mut self, name: String, folder: &str)
        ensures
            final(self)@ == old(self)@.move_file(name@, folder@),
    {
        let to = join(folder, name.as_str());
        self.phase = Phase::Moving { name, to };
    }

    /// Applies the policy to the duplicate called `name`, whose content has
    /// the digest `digest`.
    pub fn resolve_conflict(&mut self, name: String, digest: &Digest)
        ensures
            final(self)@ == old(self)@.resolve_conflict(name@, digest@),
    {
        match &self.in_conflict_do {
            InConflictDo::Delete => {
                self.delete_file(name);
            },
            InConflictDo::Ask => {
                self.phase = Phase::Choosing { name };
            },
            InConflictDo::Inform => {
                let path = join(self.folder.as_str(), name.as_str());
                let hex = digest.to_hex();
                let notice = write_repeated_notice(path.as_str(), hex.as_str());
                self.phase = Phase::Reporting { notice };
            },
            InConflictDo::Move(folder) => {
                let folder = folder.clone();
                self.move_file(name, folder.as_str());
            },
        }
    }

    /// Classifies the file called `name` by the digest of its content: a
    /// duplicate if the digest is registered, else first-seen, in which case
    /// the digest is registered.
    pub fn classify(&mut self, name: String, digest: Digest)
        ensures
            final(self)@ == old(self)@.classify(name@, digest@),
    {
        if self.hash_list.insert(digest) {
            self.advance();
        } else {
            self.resolve_conflict(name, &digest);
        }
    }

    /// Takes the operator's answer to the question what to do with the
    /// duplicate called `name`.
    pub fn ask_for_conflict_file(&mut self, name: String, line: &str)
        ensures
            final(self)@ == old(self)@.ask_for_conflict_file(name@, line@),
    {
        match read_choice(line) {
            Ok(Choice::Delete) => self.delete_file(name),
            Ok(Choice::Move) => {
                self.phase = Phase::Destination { name };
            },
            Ok(Choice::Ignore) => self.advance(),
            Err(error) => self.fail(error),
        }
    }

    /// Takes the operator's answer to the question where to move the
    /// duplicate called `name`: the line without its end of line names the
    /// folder, which is the destination if it is absolute and is resolved on
    /// disk first if it is not.
    pub fn name_destination(&mut self, name: String, line: &str)
        ensures
            final(self)@ == old(self)@.name_destination(name@, line@),
    {
        let folder = strip_line_end(line);
        if path_is_absolute(folder) {
            self.move_file(name, folder);
        } else {
            self.phase = Phase::Resolving { name, input: folder.to_owned() };
        }
    }
}

impl OperationHandler for FilterByHash {
    open spec fn request(&self) -> ActionView {
        self@.request()
    }

    fn pending(&self) -> (action: Action) {
        match &self.phase {
            Phase::Listing => Action::ListFolder(self.folder.clone()),
            Phase::Reading { name } => Action::ReadFile(join(self.folder.as_str(), name.as_str())),
            Phase::Deleting { name } => Action::Remove(join(self.folder.as_str(), name.as_str())),
            Phase::Moving { name, to } => Action::Rename {
                from: join(self.folder.as_str(), name.as_str()),
                to: to.clone(),
            },
            Phase::Reporting { notice } => Action::Report(notice.clone()),
            Phase::Choosing { name } => {
                let path = join(self.folder.as_str(), name.as_str());
                Action::Prompt(write_choice_prompt(path.as_str()))
            },
            Phase::Destination { name } => Action::Prompt(write_destination_prompt()),
            Phase::Resolving { name, input } => Action::Canonicalize(input.clone()),
            Phase::Done { result } => Action::Finish(*result),
        }
    }

    fn run(&mut self, event: Event) -> (action: Action)
        ensures
            final(self)@ == old(self)@.next(event@),
    {
        let mut phase = Phase::Listing;
        std::mem::swap(&mut phase, &mut self.phase);
        match (phase, event) {
            (Phase::Listing, Event::Listing(Some(names))) => {
                self.files = names;
                self.cursor = 0;
                self.advance();
            },
            (Phase::Listing, Event::Listing(None)) => {
                self.fail(FilterError::FolderUnreadable);
            },
            (Phase::Reading { name }, Event::Content(Some(bytes))) => {
                let digest = Digest::of(bytes.as_slice());
                self.classify(name, digest);
            },
            (Phase::Reading { name }, Event::Content(None)) => {
                self.advance();
            },
            (Phase::Deleting { name }, Event::Outcome(done)) => {
                self.deleted(name, done);
            },
            (Phase::Moving { name, to }, Event::Outcome(done)) => {
                self.moved(name, to, done);
            },
            (Phase::Reporting { notice }, Event::Reported) => {
                self.advance();
            },
            (Phase::Choosing { name }, Event::Line(Some(line))) => {
                self.ask_for_conflict_file(name, line.as_str());
            },
            (Phase::Choosing { name }, Event::Line(None)) => {
                self.fail(FilterError::InputReadFailed);
            },
            (Phase::Destination { name }, Event::Line(Some(line))) => {
                self.name_destination(name, line.as_str());
            },
            (Phase::Destination { name }, Event::Line(None)) => {
                self.fail(FilterError::InputReadFailed);
            },
            (Phase::Resolving { name, input }, Event::Resolved(canonical)) => {
                match check_absolute_path(input, canonical) {
                    Ok(folder) => self.move_file(name, folder.as_str()),
                    Err(error) => self.fail(error),
                }
            },
            (phase, _) => {
                self.phase = phase;
            },
        }
        self.pending()
    }
}

} // verus!
