//! What a run is configured with: the folder to scan and the policy for
//! duplicates.

use crate::error::FilterError;
use crate::filterbyhash::FilterByHash;
use crate::model::Model;
use crate::path::{check_absolute_path, option_view, resolved};
use vstd::prelude::*;

verus! {

/// What is done with a file whose content was seen before.
#[derive(Debug, PartialEq, Eq)]
pub enum InConflictDo {
    /// The file is removed.
    Delete,
    /// The operator is asked what to do.
    Ask,
    /// The file is reported and left alone.
    Inform,
    /// The file is moved to this folder.
    Move(String),
}

/// A policy as a mathematical value.
pub enum PolicyView {
    Delete,
    Ask,
    Inform,
    Move(Seq<char>),
}

impl View for InConflictDo {
    type V = PolicyView;

    open spec fn view(&self) -> PolicyView {
        match self {
            InConflictDo::Delete => PolicyView::Delete,
            InConflictDo::Ask => PolicyView::Ask,
            InConflictDo::Inform => PolicyView::Inform,
            InConflictDo::Move(folder) => PolicyView::Move(folder@),
        }
    }
}

/// The configuration of a run.
#[derive(Debug, PartialEq, Eq)]
pub struct Config {
    /// The folder whose files are compared, as an absolute path.
    pub folder: String,
    /// The policy for duplicates.
    pub in_conflict_do: InConflictDo,
}

/// A configuration as a mathematical value.
pub struct ConfigView {
    pub folder: Seq<char>,
    pub policy: PolicyView,
}

impl View for Config {
    type V = ConfigView;

    open spec fn view(&self) -> ConfigView {
        ConfigView { folder: self.folder@, policy: self.in_conflict_do@ }
    }
}

/// An argument of the command line, together with what the file system says
/// of it when it is read as a path.
#[derive(Debug, PartialEq, Eq)]
pub struct Argument {
    /// The argument as it was given.
    pub text: String,
    /// The canonical form of the argument as a path; `None` if it has none.
    pub canonical: Option<String>,
}

/// An argument as a mathematical value.
pub struct ArgumentView {
    pub text: Seq<char>,
    pub canonical: Option<Seq<char>>,
}

impl View for Argument {
    type V = ArgumentView;

    open spec fn view(&self) -> ArgumentView {
        ArgumentView { text: self.text@, canonical: option_view(self.canonical) }
    }
}

/// The arguments of `args` as mathematical values.
pub open spec fn argument_views(args: Seq<Argument>) -> Seq<ArgumentView> {
    Seq::new(args.len(), |i: int| args[i]@)
}

/// What an argument asks for.
#[derive(Clone, Copy, Debug, PartialEq, Eq, Structural)]
pub enum Flag {
    /// `-f` or `--folder`: the next argument is the folder to scan.
    Folder,
    /// `-d` or `--delete`: duplicates are removed.
    Delete,
    /// `-a` or `--ask`: the operator is asked about each duplicate.
    Ask,
    /// `-i` or `--inform`: duplicates are reported.
    Inform,
    /// `-m` or `--move`: duplicates are moved to the folder that is the next
    /// argument.
    Move,
    /// Any other argument that starts with `-`.
    Unknown,
    /// An argument that does not start with `-`; it is passed over.
    Plain,
}

/// The flag that the text of an argument stands for.
pub open spec fn flag_of(text: Seq<char>) -> Flag {
    if text == "-f"@ || text == "--folder"@ {
        Flag::Folder
    } else if text == "-d"@ || text == "--delete"@ {
        Flag::Delete
    } else if text == "-a"@ || text == "--ask"@ {
        Flag::Ask
    } else if text == "-i"@ || text == "--inform"@ {
        Flag::Inform
    } else if text == "-m"@ || text == "--move"@ {
        Flag::Move
    } else if text.len() > 0 && text[0] == '-' {
        Flag::Unknown
    } else {
        Flag::Plain
    }
}

/// The configuration when all arguments are read: the folder that was named
/// last, resolved to an absolute path, or the current directory if none was
/// named.
pub open spec fn concluded(
    folder: Option<ArgumentView>,
    policy: PolicyView,
    current_dir: Option<Seq<char>>,
) -> Result<ConfigView, FilterError> {
    match folder {
        Some(named) => match resolved(named.text, named.canonical) {
            Ok(absolute) => Ok(ConfigView { folder: absolute, policy }),
            Err(error) => Err(error),
        },
        None => match current_dir {
            Some(here) => Ok(ConfigView { folder: here, policy }),
            None => Err(FilterError::CurrentDirUnavailable),
        },
    }
}

/// The configuration that the arguments from position `i` on lead to, when
/// the arguments before `i` have named the folder `folder`, if any, and set
/// the policy `policy`. The arguments are read from left to right and the
/// first error ends the reading; where options contradict each other, the
/// last one counts.
pub open spec fn configured_from(
    args: Seq<ArgumentView>,
    i: int,
    folder: Option<ArgumentView>,
    policy: PolicyView,
    current_dir: Option<Seq<char>>,
) -> Result<ConfigView, FilterError>
    decreases args.len() - i,
{
    if i < 0 || i >= args.len() {
        concluded(folder, policy, current_dir)
    } else {
        match flag_of(args[i].text) {
            Flag::Plain => configured_from(args, i + 1, folder, policy, current_dir),
            Flag::Delete => configured_from(args, i + 1, folder, PolicyView::Delete, current_dir),
            Flag::Ask => configured_from(args, i + 1, folder, PolicyView::Ask, current_dir),
            Flag::Inform => configured_from(args, i + 1, folder, PolicyView::Inform, current_dir),
            Flag::Folder => if i + 1 < args.len() {
                configured_from(args, i + 2, Some(args[i + 1]), policy, current_dir)
            } else {
                Err(FilterError::NoFolderSpecified)
            },
            Flag::Move => if i + 1 < args.len() {
                match resolved(args[i + 1].text, args[i + 1].canonical) {
                    Ok(absolute) => configured_from(
                        args,
                        i + 2,
                        folder,
                        PolicyView::Move(absolute),
                        current_dir,
                    ),
                    Err(error) => Err(error),
                }
            } else {
                Err(FilterError::NoFolderSpecified)
            },
            Flag::Unknown => Err(FilterError::InvalidArgument),
        }
    }
}

/// The configuration that a command line leads to. Without an option for the
/// policy, duplicates are removed.
pub open spec fn configured(args: Seq<ArgumentView>, current_dir: Option<Seq<char>>) -> Result<
    ConfigView,
    FilterError,
> {
    configured_from(args, 0, None, PolicyView::Delete, current_dir)
}

/// Whether `text` is the text `expected`.
fn text_is(text: &str, expected: &str) -> (same: bool)
    ensures
        same == (text@ == expected@),
{
    text.to_owned() == expected.to_owned()
}

/// The flag that `text` stands for.
pub fn read_flag(text: &str) -> (flag: Flag)
    ensures
        flag == flag_of(text@),
{
    if text_is(text, "-f") || text_is(text, "--folder") {
        Flag::Folder
    } else if text_is(text, "-d") || text_is(text, "--delete") {
        Flag::Delete
    } else if text_is(text, "-a") || text_is(text, "--ask") {
        Flag::Ask
    } else if text_is(text, "-i") || text_is(text, "--inform") {
        Flag::Inform
    } else if text_is(text, "-m") || text_is(text, "--move") {
        Flag::Move
    } else if !text.is_empty() && text.get_char(0) == '-' {
        Flag::Unknown
    } else {
        Flag::Plain
    }
}

/// A copy of an optional text.
fn copy_of(text: &Option<String>) -> (copy: Option<String>)
    ensures
        option_view(copy) == option_view(*text),
{
    match text {
        Some(t) => Some(t.clone()),
        None => None,
    }
}

/// Reads the configuration of a run from the arguments of the command line.
///
/// `current_dir` is the current directory, if it is known; it is the folder
/// to scan when the arguments name none.
pub fn get_config(args: &Vec<Argument>, current_dir: Option<String>) -> (result: Result<
    Config,
    FilterError,
>)
    ensures
        match result {
            Ok(config) => configured(argument_views(args@), option_view(current_dir)) == Ok::<
                ConfigView,
                FilterError,
            >(config@),
            Err(error) => configured(argument_views(args@), option_view(current_dir)) == Err::<
                ConfigView,
                FilterError,
            >(error),
        },
{
    let ghost views = argument_views(args@);
    let ghost here = option_view(current_dir);
    let mut folder: Option<usize> = None;
    let mut in_conflict_do = InConflictDo::Delete;
    let mut i: usize = 0;
    while i < args.len()
        invariant
            i <= args.len(),
            views == argument_views(args@),
            here == option_view(current_dir),
            folder matches Some(at) ==> at < args.len(),
            configured(views, here) == configured_from(
                views,
                i as int,
                match folder {
                    Some(at) => Some(views[at as int]),
                    None => None,
                },
                in_conflict_do@,
                here,
            ),
        decreases args.len() - i,
    {
        assert(views[i as int] == args@[i as int]@);
        match read_flag(args[i].text.as_str()) {
            Flag::Plain => {
                i += 1;
            },
            Flag::Delete => {
                in_conflict_do = InConflictDo::Delete;
                i += 1;
            },
            Flag::Ask => {
                in_conflict_do = InConflictDo::Ask;
                i += 1;
            },
            Flag::Inform => {
                in_conflict_do = InConflictDo::Inform;
                i += 1;
            },
            Flag::Folder => {
                if i + 1 < args.len() {
                    folder = Some(i + 1);
                    i += 2;
                } else {
                    return Err(FilterError::NoFolderSpecified);
                }
            },
            Flag::Move => {
                if i + 1 < args.len() {
                    assert(views[i + 1] == args@[i + 1]@);
                    let named = &args[i + 1];
                    match check_absolute_path(named.text.clone(), copy_of(&named.canonical)) {
                        Ok(absolute) => {
                            in_conflict_do = InConflictDo::Move(absolute);
                        },
                        Err(error) => {
                            return Err(error);
                        },
                    }
                    i += 2;
                } else {
                    return Err(FilterError::NoFolderSpecified);
                }
            },
            Flag::Unknown => {
                return Err(FilterError::InvalidArgument);
            },
        }
    }
    let folder = match folder {
        Some(at) => {
            assert(views[at as int] == args@[at as int]@);
            let named = &args[at];
            match check_absolute_path(named.text.clone(), copy_of(&named.canonical)) {
                Ok(absolute) => absolute,
                Err(error) => {
                    return Err(error);
                },
            }
        },
        None => match current_dir {
            Some(here) => here,
            None => {
                return Err(FilterError::CurrentDirUnavailable);
            },
        },
    };
    Ok(Config { folder, in_conflict_do })
}

/// Makes the handler of the run that the command line asks for.
pub fn get_operation_handler(args: &Vec<Argument>, current_dir: Option<String>) -> (result: Result<
    FilterByHash,
    FilterError,
>)
    ensures
        match result {
            Ok(handler) => configured(argument_views(args@), option_view(current_dir)) matches Ok(
                config,
            ) && handler@ == Model::initial(config.folder, config.policy),
            Err(error) => configured(argument_views(args@), option_view(current_dir)) == Err::<
                ConfigView,
                FilterError,
            >(error),
        },
{
    match get_config(args, current_dir) {
        Ok(config) => Ok(FilterByHash::new(config)),
        Err(error) => Err(error),
    }
}

} // verus!
