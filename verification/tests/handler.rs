use rust_file_filter::config::{Config, InConflictDo};
use rust_file_filter::digest::Digest;
use rust_file_filter::error::FilterError;
use rust_file_filter::filterbyhash::{FilterByHash, Phase};
use rust_file_filter::registry::Location;
use rust_file_filter::traits::{Action, Event, OperationHandler};

/// A file system and an operator, held in memory.
struct World {
    folder: String,
    folder_readable: bool,
    listing: Vec<String>,
    disk: Vec<(String, Vec<u8>)>,
    unreadable: Vec<String>,
    undeletable: Vec<String>,
    folders: Vec<String>,
    canonical: Vec<(String, String)>,
    input: Vec<Option<String>>,
    shown: Vec<String>,
    read: Vec<String>,
    asked: Vec<Action>,
}

impl World {
    fn new(folder: &str, files: &[(&str, &str)]) -> World {
        let mut world = World {
            folder: folder.to_string(),
            folder_readable: true,
            listing: Vec::new(),
            disk: Vec::new(),
            unreadable: Vec::new(),
            undeletable: Vec::new(),
            folders: vec![folder.to_string()],
            canonical: Vec::new(),
            input: Vec::new(),
            shown: Vec::new(),
            read: Vec::new(),
            asked: Vec::new(),
        };
        for (name, content) in files {
            world.listing.push(name.to_string());
            world.disk.push((format!("{}/{}", folder, name), content.as_bytes().to_vec()));
        }
        world
    }

    fn content(&self, path: &str) -> Option<Vec<u8>> {
        self.disk.iter().find(|(p, _)| p == path).map(|(_, c)| c.clone())
    }

    fn holds(&self, path: &str) -> bool {
        self.content(path).is_some()
    }

    fn parent(path: &str) -> String {
        match path.rfind('/') {
            Some(0) => "/".to_string(),
            Some(at) => path[..at].to_string(),
            None => String::new(),
        }
    }

    fn remove(&mut self, path: &str) -> bool {
        if self.undeletable.iter().any(|p| p == path) {
            return false;
        }
        match self.disk.iter().position(|(p, _)| p == path) {
            Some(at) => {
                self.disk.remove(at);
                true
            }
            None => false,
        }
    }

    fn rename(&mut self, from: &str, to: &str) -> bool {
        if !self.folders.contains(&World::parent(to)) || self.holds(to) {
            return false;
        }
        match self.disk.iter().position(|(p, _)| p == from) {
            Some(at) => {
                self.disk[at].0 = to.to_string();
                true
            }
            None => false,
        }
    }

    fn answer(&mut self, action: &Action) -> Event {
        match action {
            Action::ListFolder(folder) => {
                if self.folder_readable && *folder == self.folder {
                    Event::Listing(Some(self.listing.clone()))
                } else {
                    Event::Listing(None)
                }
            }
            Action::ReadFile(path) => {
                self.read.push(path.clone());
                if self.unreadable.contains(path) {
                    Event::Content(None)
                } else {
                    Event::Content(self.content(path))
                }
            }
            Action::Remove(path) => Event::Outcome(self.remove(path)),
            Action::Rename { from, to } => Event::Outcome(self.rename(from, to)),
            Action::Report(notice) => {
                self.shown.push(notice.clone());
                Event::Reported
            }
            Action::Prompt(question) => {
                self.shown.push(question.clone());
                if self.input.is_empty() {
                    Event::Line(Some(String::new()))
                } else {
                    Event::Line(self.input.remove(0))
                }
            }
            Action::Canonicalize(path) => Event::Resolved(
                self.canonical.iter().find(|(p, _)| p == path).map(|(_, c)| c.clone()),
            ),
            Action::Finish(_) => unreachable!(),
        }
    }
}

fn handler(folder: &str, policy: InConflictDo) -> FilterByHash {
    FilterByHash::new(Config { folder: folder.to_string(), in_conflict_do: policy })
}

fn drive(handler: &mut FilterByHash, world: &mut World) -> Result<(), FilterError> {
    let mut action = handler.pending();
    loop {
        if let Action::Finish(result) = action {
            return result;
        }
        let event = world.answer(&action);
        world.asked.push(action);
        assert!(event.is_admissible());
        action = handler.run(event);
    }
}

fn mutations(world: &World) -> usize {
    world
        .asked
        .iter()
        .filter(|a| matches!(a, Action::Remove(_) | Action::Rename { .. }))
        .count()
}

fn hex_of(content: &str) -> String {
    Digest::of(content.as_bytes()).to_hex()
}

#[test]
fn distinct_files_are_all_registered_and_none_resolved() {
    let files = [("a", "one"), ("b", "two"), ("c", "three"), ("d", "four"), ("e", "five")];
    for policy in [
        InConflictDo::Delete,
        InConflictDo::Ask,
        InConflictDo::Inform,
        InConflictDo::Move("/x".to_string()),
    ] {
        let mut world = World::new("/d", &files);
        let mut filter = handler("/d", policy);
        assert_eq!(drive(&mut filter, &mut world), Ok(()));
        assert_eq!(filter.hash_list.len(), 5);
        assert_eq!(world.asked.len(), 6);
        assert_eq!(world.asked[0], Action::ListFolder("/d".to_string()));
        for (i, (name, _)) in files.iter().enumerate() {
            assert_eq!(world.asked[i + 1], Action::ReadFile(format!("/d/{}", name)));
        }
        assert!(world.shown.is_empty());
        assert_eq!(world.disk.len(), 5);
    }
}

#[test]
fn empty_folder_succeeds_at_once() {
    let mut world = World::new("/d", &[]);
    let mut filter = handler("/d", InConflictDo::Delete);
    assert_eq!(drive(&mut filter, &mut world), Ok(()));
    assert_eq!(world.asked, vec![Action::ListFolder("/d".to_string())]);
    assert_eq!(filter.hash_list.len(), 0);
    assert_eq!(filter.result(), Some(Ok(())));
}

#[test]
fn unreadable_folder_is_fatal() {
    let mut world = World::new("/d", &[("a", "one")]);
    world.folder_readable = false;
    let mut filter = handler("/d", InConflictDo::Delete);
    assert_eq!(drive(&mut filter, &mut world), Err(FilterError::FolderUnreadable));
    assert!(world.read.is_empty());
    assert_eq!(filter.result(), Some(Err(FilterError::FolderUnreadable)));
}

#[test]
fn second_of_two_equal_files_is_the_duplicate() {
    let orders: [[(&str, &str); 3]; 6] = [
        [("A", "same"), ("B", "same"), ("C", "other")],
        [("A", "same"), ("C", "other"), ("B", "same")],
        [("B", "same"), ("A", "same"), ("C", "other")],
        [("B", "same"), ("C", "other"), ("A", "same")],
        [("C", "other"), ("A", "same"), ("B", "same")],
        [("C", "other"), ("B", "same"), ("A", "same")],
    ];
    for order in orders {
        let second = if order.iter().position(|f| f.0 == "A") < order.iter().position(|f| f.0 == "B")
        {
            "B"
        } else {
            "A"
        };
        let mut world = World::new("/d", &order);
        let mut filter = handler("/d", InConflictDo::Inform);
        assert_eq!(drive(&mut filter, &mut world), Ok(()));
        assert_eq!(
            world.shown,
            vec![format!("File /d/{} is repeated, hash: {}", second, hex_of("same"))]
        );
        assert_eq!(filter.hash_list.len(), 2);
    }
}

#[test]
fn every_later_copy_is_a_duplicate() {
    let mut world =
        World::new("/d", &[("a", "same"), ("b", "same"), ("c", "other"), ("d", "same")]);
    let mut filter = handler("/d", InConflictDo::Delete);
    assert_eq!(drive(&mut filter, &mut world), Ok(()));
    assert!(world.holds("/d/a"));
    assert!(!world.holds("/d/b"));
    assert!(world.holds("/d/c"));
    assert!(!world.holds("/d/d"));
    assert_eq!(filter.hash_list.len(), 2);
}

#[test]
fn inform_leaves_the_duplicate_on_disk() {
    let mut world = World::new("/d", &[("a.txt", "hi"), ("b.txt", "hi"), ("c.txt", "bye")]);
    let mut filter = handler("/d", InConflictDo::Inform);
    assert_eq!(drive(&mut filter, &mut world), Ok(()));
    assert_eq!(mutations(&world), 0);
    assert_eq!(world.content("/d/a.txt"), Some(b"hi".to_vec()));
    assert_eq!(world.content("/d/b.txt"), Some(b"hi".to_vec()));
    assert_eq!(world.content("/d/c.txt"), Some(b"bye".to_vec()));
    assert_eq!(
        world.shown,
        vec![
            "File /d/b.txt is repeated, hash: 8f434346648f6b96df89dda901c5176b10a6d83961dd3c1ac88b59b2dc327aa4"
                .to_string()
        ]
    );
}

#[test]
fn delete_removes_the_duplicate() {
    let mut world = World::new("/d", &[("a", "same"), ("b", "same")]);
    let mut filter = handler("/d", InConflictDo::Delete);
    assert_eq!(drive(&mut filter, &mut world), Ok(()));
    assert!(world.holds("/d/a"));
    assert!(!world.holds("/d/b"));
    assert_eq!(world.shown, vec!["File /d/b deleted".to_string()]);
    assert_eq!(
        world.asked,
        vec![
            Action::ListFolder("/d".to_string()),
            Action::ReadFile("/d/a".to_string()),
            Action::ReadFile("/d/b".to_string()),
            Action::Remove("/d/b".to_string()),
            Action::Report("File /d/b deleted".to_string()),
        ]
    );
}

#[test]
fn move_puts_the_duplicate_in_the_destination() {
    let mut world = World::new("/d", &[("a.txt", "same"), ("b.txt", "same"), ("c.txt", "other")]);
    world.folders.push("/X".to_string());
    let mut filter = handler("/d", InConflictDo::Move("/X".to_string()));
    assert_eq!(drive(&mut filter, &mut world), Ok(()));
    assert!(!world.holds("/d/b.txt"));
    assert_eq!(world.content("/X/b.txt"), Some(b"same".to_vec()));
    assert!(world.holds("/d/a.txt"));
    assert!(world.holds("/d/c.txt"));
    assert_eq!(world.shown, vec!["File /d/b.txt moved to /X/b.txt".to_string()]);
    assert!(world.asked.contains(&Action::Rename {
        from: "/d/b.txt".to_string(),
        to: "/X/b.txt".to_string()
    }));
}

#[test]
fn move_to_a_missing_destination_is_fatal() {
    let mut world = World::new("/d", &[("a", "same"), ("b", "same"), ("c", "other")]);
    let mut filter = handler("/d", InConflictDo::Move("/nowhere".to_string()));
    assert_eq!(drive(&mut filter, &mut world), Err(FilterError::MoveFailed));
    assert!(world.holds("/d/b"));
    assert_eq!(world.read, vec!["/d/a".to_string(), "/d/b".to_string()]);
    assert!(world.shown.is_empty());
}

#[test]
fn move_onto_an_existing_name_is_fatal() {
    let mut world = World::new("/d", &[("a", "same"), ("b", "same")]);
    world.folders.push("/X".to_string());
    world.disk.push(("/X/b".to_string(), b"older".to_vec()));
    let mut filter = handler("/d", InConflictDo::Move("/X".to_string()));
    assert_eq!(drive(&mut filter, &mut world), Err(FilterError::MoveFailed));
    assert_eq!(world.content("/X/b"), Some(b"older".to_vec()));
    assert!(world.holds("/d/b"));
}

#[test]
fn ask_delete_removes_the_duplicate() {
    let mut world = World::new("/d", &[("a", "same"), ("b", "same"), ("c", "other")]);
    world.input.push(Some("delete\n".to_string()));
    let mut filter = handler("/d", InConflictDo::Ask);
    assert_eq!(drive(&mut filter, &mut world), Ok(()));
    assert!(!world.holds("/d/b"));
    assert!(world.holds("/d/a"));
    assert!(world.holds("/d/c"));
    assert_eq!(
        world.shown,
        vec![
            "File /d/b is repeated, what to do with it? (delete/move/ignore)".to_string(),
            "File /d/b deleted".to_string(),
        ]
    );
}

#[test]
fn ask_move_moves_to_the_named_folder() {
    let mut world = World::new("/d", &[("a", "same"), ("b", "same"), ("c", "other")]);
    world.folders.push("/valid".to_string());
    world.input.push(Some("move".to_string()));
    world.input.push(Some("/valid".to_string()));
    let mut filter = handler("/d", InConflictDo::Ask);
    assert_eq!(drive(&mut filter, &mut world), Ok(()));
    assert!(!world.holds("/d/b"));
    assert_eq!(world.content("/valid/b"), Some(b"same".to_vec()));
    assert_eq!(
        world.shown,
        vec![
            "File /d/b is repeated, what to do with it? (delete/move/ignore)".to_string(),
            "Enter destination folder:".to_string(),
            "File /d/b moved to /valid/b".to_string(),
        ]
    );
    assert!(!world.asked.iter().any(|a| matches!(a, Action::Canonicalize(_))));
}

#[test]
fn ask_move_resolves_a_relative_folder() {
    let mut world = World::new("/d", &[("a", "same"), ("b", "same")]);
    world.folders.push("/home/user/dupes".to_string());
    world.canonical.push(("dupes".to_string(), "/home/user/dupes".to_string()));
    world.input.push(Some(" move \n".to_string()));
    world.input.push(Some("dupes".to_string()));
    let mut filter = handler("/d", InConflictDo::Ask);
    assert_eq!(drive(&mut filter, &mut world), Ok(()));
    assert_eq!(world.content("/home/user/dupes/b"), Some(b"same".to_vec()));
    assert!(world.asked.contains(&Action::Canonicalize("dupes".to_string())));
}

#[test]
fn ask_move_leaves_the_line_end_off_the_folder() {
    for typed in ["/hold\n", "/hold\r\n", "/hold"] {
        let mut world = World::new("/d", &[("a", "same"), ("n", "same"), ("c", "other")]);
        world.folders.push("/hold".to_string());
        world.input.push(Some("move\n".to_string()));
        world.input.push(Some(typed.to_string()));
        let mut filter = handler("/d", InConflictDo::Ask);
        assert_eq!(drive(&mut filter, &mut world), Ok(()));
        assert!(world.asked.contains(&Action::Rename {
            from: "/d/n".to_string(),
            to: "/hold/n".to_string()
        }));
        assert!(!world.holds("/d/n"));
        assert_eq!(world.content("/hold/n"), Some(b"same".to_vec()));
        assert!(world.input.is_empty());
        assert_eq!(
            world.shown,
            vec![
                "File /d/n is repeated, what to do with it? (delete/move/ignore)".to_string(),
                "Enter destination folder:".to_string(),
                "File /d/n moved to /hold/n".to_string(),
            ]
        );
    }
}

#[test]
fn ask_move_resolves_a_relative_folder_without_its_line_end() {
    let mut world = World::new("/d", &[("a", "same"), ("b", "same")]);
    world.folders.push("/home/user/dupes".to_string());
    world.canonical.push(("dupes".to_string(), "/home/user/dupes".to_string()));
    world.input.push(Some("move\n".to_string()));
    world.input.push(Some("dupes\n".to_string()));
    let mut filter = handler("/d", InConflictDo::Ask);
    assert_eq!(drive(&mut filter, &mut world), Ok(()));
    assert!(world.asked.contains(&Action::Canonicalize("dupes".to_string())));
    assert_eq!(world.content("/home/user/dupes/b"), Some(b"same".to_vec()));
}

#[test]
fn ask_move_keeps_white_space_that_was_typed() {
    let mut world = World::new("/d", &[("a", "same"), ("b", "same")]);
    world.folders.push("/my folder ".to_string());
    world.input.push(Some("move\n".to_string()));
    world.input.push(Some("/my folder \n".to_string()));
    let mut filter = handler("/d", InConflictDo::Ask);
    assert_eq!(drive(&mut filter, &mut world), Ok(()));
    assert_eq!(world.content("/my folder /b"), Some(b"same".to_vec()));
}

#[test]
fn name_destination_decides_between_move_and_resolution() {
    let mut filter = handler("/d", InConflictDo::Ask);
    filter.name_destination("n".to_string(), "/hold\n");
    assert_eq!(
        filter.pending(),
        Action::Rename { from: "/d/n".to_string(), to: "/hold/n".to_string() }
    );
    let mut filter = handler("/d", InConflictDo::Ask);
    filter.name_destination("n".to_string(), "hold\n");
    assert_eq!(
        filter.phase,
        Phase::Resolving { name: "n".to_string(), input: "hold".to_string() }
    );
    assert_eq!(filter.pending(), Action::Canonicalize("hold".to_string()));
    let mut filter = handler("/d", InConflictDo::Ask);
    filter.name_destination("n".to_string(), "\n");
    assert_eq!(filter.pending(), Action::Canonicalize(String::new()));
}

#[test]
fn ask_move_fails_when_the_folder_cannot_be_resolved() {
    let mut world = World::new("/d", &[("a", "same"), ("b", "same"), ("c", "other")]);
    world.input.push(Some("move\n".to_string()));
    world.input.push(Some("missing".to_string()));
    let mut filter = handler("/d", InConflictDo::Ask);
    assert_eq!(drive(&mut filter, &mut world), Err(FilterError::PathResolutionFailed));
    assert!(world.holds("/d/b"));
    assert_eq!(mutations(&world), 0);
    assert_eq!(world.read, vec!["/d/a".to_string(), "/d/b".to_string()]);
}

#[test]
fn ask_ignore_leaves_the_file_and_goes_on() {
    let mut world =
        World::new("/d", &[("a", "same"), ("b", "same"), ("c", "other"), ("d", "other")]);
    world.input.push(Some("ignore\n".to_string()));
    world.input.push(Some("ignore\n".to_string()));
    let mut filter = handler("/d", InConflictDo::Ask);
    assert_eq!(drive(&mut filter, &mut world), Ok(()));
    assert_eq!(world.disk.len(), 4);
    assert_eq!(mutations(&world), 0);
    assert_eq!(world.read.len(), 4);
    assert_eq!(
        world.shown,
        vec![
            "File /d/b is repeated, what to do with it? (delete/move/ignore)".to_string(),
            "File /d/d is repeated, what to do with it? (delete/move/ignore)".to_string(),
        ]
    );
}

#[test]
fn ask_other_input_aborts_the_run() {
    for typed in ["remove\n", "Delete\n", "\n", "delete it\n", "y\n"] {
        let mut world = World::new("/d", &[("a", "same"), ("b", "same"), ("c", "other")]);
        world.input.push(Some(typed.to_string()));
        let mut filter = handler("/d", InConflictDo::Ask);
        assert_eq!(drive(&mut filter, &mut world), Err(FilterError::InvalidInput));
        assert_eq!(world.disk.len(), 3);
        assert_eq!(world.read, vec!["/d/a".to_string(), "/d/b".to_string()]);
    }
}

#[test]
fn ask_end_of_input_is_invalid_input() {
    let mut world = World::new("/d", &[("a", "same"), ("b", "same")]);
    let mut filter = handler("/d", InConflictDo::Ask);
    assert_eq!(drive(&mut filter, &mut world), Err(FilterError::InvalidInput));
}

#[test]
fn ask_unreadable_choice_is_fatal() {
    let mut world = World::new("/d", &[("a", "same"), ("b", "same"), ("c", "other")]);
    world.input.push(None);
    let mut filter = handler("/d", InConflictDo::Ask);
    assert_eq!(drive(&mut filter, &mut world), Err(FilterError::InputReadFailed));
    assert_eq!(world.read.len(), 2);
}

#[test]
fn ask_unreadable_destination_is_fatal() {
    let mut world = World::new("/d", &[("a", "same"), ("b", "same"), ("c", "other")]);
    world.input.push(Some("move\n".to_string()));
    world.input.push(None);
    let mut filter = handler("/d", InConflictDo::Ask);
    assert_eq!(drive(&mut filter, &mut world), Err(FilterError::InputReadFailed));
    assert!(world.holds("/d/b"));
    assert_eq!(world.read.len(), 2);
}

#[test]
fn failed_removal_stops_the_run_at_that_file() {
    let files = [("a", "1"), ("b", "1"), ("c", "2"), ("d", "2"), ("e", "3"), ("f", "3"), ("g", "4")];
    let mut world = World::new("/d", &files);
    world.undeletable.push("/d/d".to_string());
    let mut filter = handler("/d", InConflictDo::Delete);
    assert_eq!(drive(&mut filter, &mut world), Err(FilterError::DeleteFailed));
    assert_eq!(
        world.read,
        vec!["/d/a".to_string(), "/d/b".to_string(), "/d/c".to_string(), "/d/d".to_string()]
    );
    assert!(!world.holds("/d/b"));
    assert!(world.holds("/d/d"));
    assert!(world.holds("/d/f"));
    assert_eq!(filter.hash_list.len(), 2);
    assert_eq!(world.shown, vec!["File /d/b deleted".to_string()]);
}

#[test]
fn failed_move_stops_the_run_at_that_file() {
    let files = [("a", "1"), ("b", "1"), ("c", "2"), ("d", "2"), ("e", "3")];
    let mut world = World::new("/d", &files);
    world.folders.push("/X".to_string());
    world.disk.push(("/X/d".to_string(), b"in the way".to_vec()));
    let mut filter = handler("/d", InConflictDo::Move("/X".to_string()));
    assert_eq!(drive(&mut filter, &mut world), Err(FilterError::MoveFailed));
    assert_eq!(world.read.len(), 4);
    assert!(world.holds("/X/b"));
    assert!(world.holds("/d/d"));
    assert_eq!(filter.hash_list.len(), 2);
}

#[test]
fn finished_run_takes_no_more_events() {
    let mut world = World::new("/d", &[("a", "1"), ("b", "1"), ("c", "2")]);
    world.undeletable.push("/d/b".to_string());
    let mut filter = handler("/d", InConflictDo::Delete);
    assert_eq!(drive(&mut filter, &mut world), Err(FilterError::DeleteFailed));
    let events = vec![
        Event::Listing(Some(vec!["z".to_string()])),
        Event::Content(Some(b"9".to_vec())),
        Event::Content(None),
        Event::Outcome(true),
        Event::Reported,
        Event::Line(Some("ignore".to_string())),
        Event::Resolved(None),
    ];
    for event in events {
        assert_eq!(filter.run(event), Action::Finish(Err(FilterError::DeleteFailed)));
    }
    assert_eq!(filter.hash_list.len(), 1);
    assert_eq!(filter.cursor, 2);
}

#[test]
fn scenario_hi_hi_bye_under_delete() {
    let mut world = World::new("/d", &[("a.txt", "hi"), ("b.txt", "hi"), ("c.txt", "bye")]);
    let mut filter = handler("/d", InConflictDo::Delete);
    assert_eq!(drive(&mut filter, &mut world), Ok(()));
    assert!(!world.holds("/d/b.txt"));
    assert_eq!(world.content("/d/a.txt"), Some(b"hi".to_vec()));
    assert_eq!(world.content("/d/c.txt"), Some(b"bye".to_vec()));
    assert_eq!(filter.hash_list.len(), 2);
    assert!(matches!(filter.hash_list.locate(&Digest::of(b"hi")), Location::Found(_)));
    assert!(matches!(filter.hash_list.locate(&Digest::of(b"bye")), Location::Found(_)));
}

#[test]
fn unreadable_file_is_skipped_silently() {
    let mut world = World::new("/d", &[("a", "same"), ("locked", "same"), ("c", "same")]);
    world.unreadable.push("/d/locked".to_string());
    let mut filter = handler("/d", InConflictDo::Delete);
    assert_eq!(drive(&mut filter, &mut world), Ok(()));
    assert!(world.holds("/d/locked"));
    assert!(!world.holds("/d/c"));
    assert_eq!(world.read.len(), 3);
    assert_eq!(world.shown, vec!["File /d/c deleted".to_string()]);
}

#[test]
fn vanished_file_is_skipped_silently() {
    let mut world = World::new("/d", &[("a", "one"), ("b", "two")]);
    world.listing.push("gone".to_string());
    let mut filter = handler("/d", InConflictDo::Delete);
    assert_eq!(drive(&mut filter, &mut world), Ok(()));
    assert_eq!(filter.hash_list.len(), 2);
}

#[test]
fn event_that_answers_nothing_changes_nothing() {
    let mut filter = handler("/d", InConflictDo::Delete);
    assert_eq!(filter.run(Event::Reported), Action::ListFolder("/d".to_string()));
    assert_eq!(
        filter.run(Event::Content(Some(b"x".to_vec()))),
        Action::ListFolder("/d".to_string())
    );
    assert_eq!(filter.phase, Phase::Listing);
    assert_eq!(filter.hash_list.len(), 0);
    assert_eq!(
        filter.run(Event::Listing(Some(vec!["a".to_string(), "b".to_string()]))),
        Action::ReadFile("/d/a".to_string())
    );
    assert_eq!(filter.run(Event::Outcome(true)), Action::ReadFile("/d/a".to_string()));
    assert_eq!(
        filter.run(Event::Line(Some("delete".to_string()))),
        Action::ReadFile("/d/a".to_string())
    );
    assert_eq!(filter.cursor, 1);
    assert_eq!(filter.phase, Phase::Reading { name: "a".to_string() });
}

#[test]
fn pending_repeats_the_last_request() {
    let mut filter = handler("/d/", InConflictDo::Ask);
    assert_eq!(filter.pending(), Action::ListFolder("/d/".to_string()));
    let asked = filter.run(Event::Listing(Some(vec!["a".to_string(), "b".to_string()])));
    assert_eq!(asked, Action::ReadFile("/d/a".to_string()));
    assert_eq!(filter.pending(), asked);
    let asked = filter.run(Event::Content(Some(b"x".to_vec())));
    assert_eq!(asked, Action::ReadFile("/d/b".to_string()));
    let asked = filter.run(Event::Content(Some(b"x".to_vec())));
    assert_eq!(
        asked,
        Action::Prompt("File /d/b is repeated, what to do with it? (delete/move/ignore)".to_string())
    );
    assert_eq!(filter.pending(), asked);
    assert_eq!(filter.pending(), asked);
    assert_eq!(filter.result(), None);
}

#[test]
fn registry_is_sorted_after_a_run() {
    let files = [("a", "q"), ("b", "w"), ("c", "e"), ("d", "r"), ("e", "w"), ("f", "t"), ("g", "q")];
    let mut world = World::new("/d", &files);
    let mut filter = handler("/d", InConflictDo::Inform);
    assert_eq!(drive(&mut filter, &mut world), Ok(()));
    assert_eq!(filter.hash_list.len(), 5);
    let mut i = 1;
    while i < filter.hash_list.len() {
        let earlier = filter.hash_list.get(i - 1).unwrap();
        assert!(earlier.precedes(&filter.hash_list.get(i).unwrap()));
        i += 1;
    }
    assert_eq!(world.shown.len(), 2);
}

#[test]
fn content_of_any_real_size_is_admissible() {
    assert!(Event::Content(Some(Vec::new())).is_admissible());
    assert!(Event::Content(Some(vec![0u8; 1 << 20])).is_admissible());
    assert!(Event::Content(None).is_admissible());
    assert!(Event::Reported.is_admissible());
}

fn listed(folder: &str, policy: InConflictDo, names: &[&str]) -> FilterByHash {
    let mut filter = handler(folder, policy);
    let names: Vec<String> = names.iter().map(|n| n.to_string()).collect();
    filter.run(Event::Listing(Some(names)));
    filter
}

#[test]
fn classify_registers_a_new_digest_and_goes_on() {
    let mut filter = listed("/d", InConflictDo::Delete, &["a", "b"]);
    filter.classify("a".to_string(), Digest::new([7u8; 32]));
    assert_eq!(filter.hash_list.len(), 1);
    assert_eq!(filter.hash_list.get(0), Some(Digest::new([7u8; 32])));
    assert_eq!(filter.phase, Phase::Reading { name: "b".to_string() });
    assert_eq!(filter.cursor, 2);
}

#[test]
fn classify_hands_a_known_digest_to_the_policy() {
    let mut filter = listed("/d", InConflictDo::Delete, &["a", "b", "c"]);
    filter.classify("a".to_string(), Digest::new([7u8; 32]));
    filter.classify("b".to_string(), Digest::new([7u8; 32]));
    assert_eq!(filter.hash_list.len(), 1);
    assert_eq!(filter.phase, Phase::Deleting { name: "b".to_string() });
    assert_eq!(filter.cursor, 2);
    assert_eq!(filter.pending(), Action::Remove("/d/b".to_string()));
}

#[test]
fn resolve_conflict_follows_the_policy() {
    let digest = Digest::new([0xabu8; 32]);
    let mut filter = handler("/d", InConflictDo::Delete);
    filter.resolve_conflict("x".to_string(), &digest);
    assert_eq!(filter.pending(), Action::Remove("/d/x".to_string()));

    let mut filter = handler("/d", InConflictDo::Ask);
    filter.resolve_conflict("x".to_string(), &digest);
    assert_eq!(
        filter.pending(),
        Action::Prompt("File /d/x is repeated, what to do with it? (delete/move/ignore)".to_string())
    );

    let mut filter = handler("/d", InConflictDo::Inform);
    filter.resolve_conflict("x".to_string(), &digest);
    assert_eq!(
        filter.pending(),
        Action::Report(format!("File /d/x is repeated, hash: {}", "ab".repeat(32)))
    );

    let mut filter = handler("/d", InConflictDo::Move("/X/".to_string()));
    filter.resolve_conflict("x".to_string(), &digest);
    assert_eq!(
        filter.pending(),
        Action::Rename { from: "/d/x".to_string(), to: "/X/x".to_string() }
    );
}

#[test]
fn answer_to_the_choice_decides_the_next_request() {
    let mut filter = listed("/d", InConflictDo::Ask, &["a", "b"]);
    filter.ask_for_conflict_file("a".to_string(), " delete\n");
    assert_eq!(filter.pending(), Action::Remove("/d/a".to_string()));

    let mut filter = listed("/d", InConflictDo::Ask, &["a", "b"]);
    filter.ask_for_conflict_file("a".to_string(), "move\n");
    assert_eq!(filter.phase, Phase::Destination { name: "a".to_string() });
    assert_eq!(filter.pending(), Action::Prompt("Enter destination folder:".to_string()));

    let mut filter = listed("/d", InConflictDo::Ask, &["a", "b"]);
    filter.ask_for_conflict_file("a".to_string(), "ignore\n");
    assert_eq!(filter.pending(), Action::ReadFile("/d/b".to_string()));

    let mut filter = listed("/d", InConflictDo::Ask, &["a", "b"]);
    filter.ask_for_conflict_file("a".to_string(), "what\n");
    assert_eq!(filter.pending(), Action::Finish(Err(FilterError::InvalidInput)));
}

#[test]
fn outcome_of_a_removal_is_reported_or_fatal() {
    let mut filter = listed("/d", InConflictDo::Delete, &["a", "b"]);
    filter.delete_file("a".to_string());
    assert_eq!(filter.pending(), Action::Remove("/d/a".to_string()));
    filter.deleted("a".to_string(), true);
    assert_eq!(filter.pending(), Action::Report("File /d/a deleted".to_string()));
    assert_eq!(filter.run(Event::Reported), Action::ReadFile("/d/b".to_string()));

    let mut filter = listed("/d", InConflictDo::Delete, &["a", "b"]);
    filter.deleted("a".to_string(), false);
    assert_eq!(filter.pending(), Action::Finish(Err(FilterError::DeleteFailed)));
}

#[test]
fn outcome_of_a_move_is_reported_or_fatal() {
    let mut filter = listed("/d", InConflictDo::Ask, &["a", "b"]);
    filter.move_file("a".to_string(), "/else/where");
    assert_eq!(
        filter.pending(),
        Action::Rename { from: "/d/a".to_string(), to: "/else/where/a".to_string() }
    );
    filter.moved("a".to_string(), "/else/where/a".to_string(), true);
    assert_eq!(
        filter.pending(),
        Action::Report("File /d/a moved to /else/where/a".to_string())
    );

    let mut filter = listed("/d", InConflictDo::Ask, &["a", "b"]);
    filter.moved("a".to_string(), "/else/where/a".to_string(), false);
    assert_eq!(filter.pending(), Action::Finish(Err(FilterError::MoveFailed)));
}

#[test]
fn advance_takes_the_candidates_in_listing_order() {
    let mut filter = listed("/d", InConflictDo::Inform, &["c", "a", "b"]);
    assert_eq!(filter.pending(), Action::ReadFile("/d/c".to_string()));
    filter.advance();
    assert_eq!(filter.pending(), Action::ReadFile("/d/a".to_string()));
    filter.advance();
    assert_eq!(filter.pending(), Action::ReadFile("/d/b".to_string()));
    filter.advance();
    assert_eq!(filter.pending(), Action::Finish(Ok(())));
    filter.advance();
    assert_eq!(filter.pending(), Action::Finish(Ok(())));
    assert_eq!(filter.cursor, 3);
}

#[test]
fn fail_ends_the_run_with_the_error() {
    let mut filter = listed("/d", InConflictDo::Inform, &["a"]);
    filter.fail(FilterError::InputReadFailed);
    assert_eq!(filter.result(), Some(Err(FilterError::InputReadFailed)));
    assert_eq!(filter.pending(), Action::Finish(Err(FilterError::InputReadFailed)));
}
