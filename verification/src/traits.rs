//! The interface between a handler and the program that drives it.

use crate::digest::MAX_CONTENT_LEN;
use crate::error::FilterError;
use vstd::prelude::*;

verus! {

/// What a handler asks the outside to do. Each action is answered by one
/// [`Event`], except `Finish`, which ends the run.
#[derive(Debug, PartialEq, Eq)]
pub enum Action {
    /// List the names of the regular files that lie directly in this folder.
    /// Answered by [`Event::Listing`].
    ListFolder(String),
    /// Read the whole content of the file at this path. Answered by
    /// [`Event::Content`].
    ReadFile(String),
    /// Remove the file at this path. Answered by [`Event::Outcome`].
    Remove(String),
    /// Move the file at `from` to the path `to`. Answered by
    /// [`Event::Outcome`].
    Rename { from: String, to: String },
    /// Show this notice to the operator. Answered by [`Event::Reported`].
    Report(String),
    /// Show this question to the operator and read one line of input.
    /// Answered by [`Event::Line`].
    Prompt(String),
    /// Resolve this path on disk to its canonical form. Answered by
    /// [`Event::Resolved`].
    Canonicalize(String),
    /// The run is over, with this result.
    Finish(Result<(), FilterError>),
}

/// An action as a mathematical value.
pub enum ActionView {
    ListFolder(Seq<char>),
    ReadFile(Seq<char>),
    Remove(Seq<char>),
    Rename { from: Seq<char>, to: Seq<char> },
    Report(Seq<char>),
    Prompt(Seq<char>),
    Canonicalize(Seq<char>),
    Finish(Result<(), FilterError>),
}

impl View for Action {
    type V = ActionView;

    open spec fn view(&self) -> ActionView {
        match self {
            Action::ListFolder(folder) => ActionView::ListFolder(folder@),
            Action::ReadFile(path) => ActionView::ReadFile(path@),
            Action::Remove(path) => ActionView::Remove(path@),
            Action::Rename { from, to } => ActionView::Rename { from: from@, to: to@ },
            Action::Report(notice) => ActionView::Report(notice@),
            Action::Prompt(question) => ActionView::Prompt(question@),
            Action::Canonicalize(path) => ActionView::Canonicalize(path@),
            Action::Finish(result) => ActionView::Finish(*result),
        }
    }
}

impl ActionView {
    /// Whether the action changes what is on disk.
    pub open spec fn mutates(self) -> bool {
        self is Remove || self is Rename
    }
}

/// What the outside reports back to a handler.
#[derive(Debug, PartialEq, Eq)]
pub enum Event {
    /// The names of the regular files in the folder, in the order in which
    /// the file system gave them; `None` if the folder could not be read.
    Listing(Option<Vec<String>>),
    /// The content of the file; `None` if it could not be opened or read.
    Content(Option<Vec<u8>>),
    /// Whether the removal or the move succeeded.
    Outcome(bool),
    /// The notice was shown.
    Reported,
    /// The line that the operator typed, with or without its end of line;
    /// `None` if none could be read. The handler trims an answer to the
    /// question what to do, and leaves the end of line off the name of a
    /// folder.
    Line(Option<String>),
    /// The canonical form of the path; `None` if it has none.
    Resolved(Option<String>),
}

/// An event as a mathematical value.
pub enum EventView {
    Listing(Option<Seq<Seq<char>>>),
    Content(Option<Seq<u8>>),
    Outcome(bool),
    Reported,
    Line(Option<Seq<char>>),
    Resolved(Option<Seq<char>>),
}

impl View for Event {
    type V = EventView;

    open spec fn view(&self) -> EventView {
        match self {
            Event::Listing(Some(names)) => EventView::Listing(Some(names.deep_view())),
            Event::Listing(None) => EventView::Listing(None),
            Event::Content(Some(bytes)) => EventView::Content(Some(bytes@)),
            Event::Content(None) => EventView::Content(None),
            Event::Outcome(done) => EventView::Outcome(*done),
            Event::Reported => EventView::Reported,
            Event::Line(Some(line)) => EventView::Line(Some(line@)),
            Event::Line(None) => EventView::Line(None),
            Event::Resolved(Some(path)) => EventView::Resolved(Some(path@)),
            Event::Resolved(None) => EventView::Resolved(None),
        }
    }
}

impl EventView {
    /// Whether a handler can take the event: content has to be short enough
    /// for its digest to be defined.
    pub open spec fn admissible(self) -> bool {
        self matches EventView::Content(Some(bytes)) ==> bytes.len() < MAX_CONTENT_LEN
    }
}

impl Event {
    /// Whether a handler can take the event.
    pub fn is_admissible(&self) -> (admissible: bool)
        ensures
            admissible == self@.admissible(),
    {
        match self {
            Event::Content(Some(bytes)) => (bytes.len() as u64) < MAX_CONTENT_LEN,
            _ => true,
        }
    }
}

/// An operation that is driven from outside: it states what it needs as an
/// [`Action`] and goes on when it is given the [`Event`] that answers it.
pub trait OperationHandler {
    /// The action that the handler is waiting on.
    spec fn request(&self) -> ActionView;

    /// The action that the handler is waiting on.
    fn pending(&self) -> (action: Action)
        ensures
            action@ == self.request(),
    ;

    /// Takes the answer to the pending action, runs the operation on to the
    /// point where it needs the outside again, and returns what it needs.
    fn run(&mut self, event: Event) -> (action: Action)
        requires
            event@.admissible(),
        ensures
            action@ == final(self).request(),
    ;
}

} // verus!
