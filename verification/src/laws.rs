//! What holds of every run of the duplicate filter.

use crate::config::PolicyView;
use crate::digest::{hex_lower, sha256};
use crate::error::FilterError;
use crate::model::{Model, PhaseView};
use crate::path::{is_absolute, joined};
use crate::registry::{
    lemma_registered_counts_distinct, lemma_registered_is_ordered, pairwise_distinct, registered,
    strictly_ascending, with_digest,
};
use crate::text::{
    choice_prompt, deleted_notice, destination_prompt, lemma_line_end_is_left_off,
    lemma_tokens_differ, moved_notice, repeated_notice, trimmed, without_line_end,
};
use crate::traits::{ActionView, EventView};
use vstd::prelude::*;

verus! {

/// The events that bring the contents of `contents`, one after the other.
pub open spec fn contents_read(contents: Seq<Seq<u8>>) -> Seq<EventView> {
    Seq::new(contents.len(), |i: int| EventView::Content(Some(contents[i])))
}

/// The digests of the contents of `contents`.
pub open spec fn digests_of(contents: Seq<Seq<u8>>) -> Seq<Seq<u8>> {
    Seq::new(contents.len(), |i: int| sha256(contents[i]))
}

/// The state of a run that has the listing `names` and has read the first
/// `k` files, none of which repeated an earlier one.
pub open spec fn scanned(
    folder: Seq<char>,
    policy: PolicyView,
    names: Seq<Seq<char>>,
    digests: Seq<Seq<u8>>,
    k: int,
) -> Model {
    Model {
        folder,
        policy,
        registry: registered(digests.take(k)),
        files: names,
        cursor: if k < names.len() {
            (k + 1) as nat
        } else {
            names.len()
        },
        phase: if k < names.len() {
            PhaseView::Reading { name: names[k] }
        } else {
            PhaseView::Done { result: Ok(()) }
        },
    }
}

/// A run over files whose digests all differ reads one file after the
/// other and registers each: after `k` files the registry holds the first `k`
/// digests and the run waits for the next file, or is over with success.
pub proof fn lemma_scan_of_distinct_files(
    folder: Seq<char>,
    policy: PolicyView,
    names: Seq<Seq<char>>,
    contents: Seq<Seq<u8>>,
    k: int,
)
    requires
        names.len() == contents.len(),
        pairwise_distinct(digests_of(contents)),
        0 <= k <= contents.len(),
    ensures
        Model::initial(folder, policy).next(EventView::Listing(Some(names))).after(
            contents_read(contents).take(k),
        ) == scanned(folder, policy, names, digests_of(contents), k),
        registered(digests_of(contents).take(k)).len() == k,
    decreases k,
{
    let start = Model::initial(folder, policy).next(EventView::Listing(Some(names)));
    let events = contents_read(contents);
    let digests = digests_of(contents);
    assert(pairwise_distinct(digests.take(k))) by {
        assert forall|i: int, j: int| 0 <= i < j < digests.take(k).len() implies #[trigger] digests.take(
            k,
        )[i] != #[trigger] digests.take(k)[j] by {
            assert(digests.take(k)[i] == digests[i] && digests.take(k)[j] == digests[j]);
        }
    }
    lemma_registered_counts_distinct(digests.take(k));
    if k == 0 {
        assert(digests.take(0) =~= Seq::<Seq<u8>>::empty());
        assert(events.take(0) =~= Seq::<EventView>::empty());
        assert(start.after(events.take(0)) == start);
        assert(start =~= scanned(folder, policy, names, digests, 0));
    } else {
        lemma_scan_of_distinct_files(folder, policy, names, contents, k - 1);
        let before = scanned(folder, policy, names, digests, k - 1);
        assert(events.take(k).drop_last() =~= events.take(k - 1));
        assert(events.take(k).last() == EventView::Content(Some(contents[k - 1])));
        assert(digests.take(k).drop_last() =~= digests.take(k - 1));
        assert(digests.take(k).last() == sha256(contents[k - 1]));
        lemma_registered_is_ordered(digests.take(k - 1));
        let earlier = digests.take(k - 1);
        assert(!earlier.contains(digests[k - 1])) by {
            if earlier.contains(digests[k - 1]) {
                let j = choose|j: int| 0 <= j < earlier.len() && earlier[j] == digests[k - 1];
                assert(digests[j] == digests[k - 1]);
            }
        }
        assert(start.after(events.take(k)) == before.next(events.take(k).last()));
        assert(before.next(events.take(k).last()) =~= scanned(folder, policy, names, digests, k));
    }
}

/// In a run over `n` files whose digests all differ, the registry holds
/// exactly `n` digests at the end, in order and each digest of a file once,
/// the run ends with success, and it never asks for anything but the content
/// of a file: no duplicate is dealt with, so that nothing is removed, moved,
/// reported or asked of the operator, whatever the policy. Of the state only
/// the registry grows; the folder, the policy and the listing stay.
pub proof fn lemma_distinct_files_are_all_registered(
    folder: Seq<char>,
    policy: PolicyView,
    names: Seq<Seq<char>>,
    contents: Seq<Seq<u8>>,
)
    requires
        names.len() == contents.len(),
        pairwise_distinct(digests_of(contents)),
    ensures
        ({
            let start = Model::initial(folder, policy).next(EventView::Listing(Some(names)));
            let end = start.after(contents_read(contents));
            &&& end.registry == registered(digests_of(contents))
            &&& end.registry.len() == contents.len()
            &&& strictly_ascending(end.registry)
            &&& forall|i: int|
                0 <= i < contents.len() ==> end.registry.contains(#[trigger] sha256(contents[i]))
            &&& end.folder == folder && end.policy == policy && end.files == names
            &&& end.request() == ActionView::Finish(Ok(()))
            &&& forall|k: int|
                0 <= k < contents.len() ==> #[trigger] start.after(
                    contents_read(contents).take(k),
                ).request() == ActionView::ReadFile(joined(folder, names[k]))
        }),
{
    let start = Model::initial(folder, policy).next(EventView::Listing(Some(names)));
    let n = contents.len() as int;
    lemma_scan_of_distinct_files(folder, policy, names, contents, n);
    assert(contents_read(contents).take(n) =~= contents_read(contents));
    assert(digests_of(contents).take(n) =~= digests_of(contents));
    lemma_registered_is_ordered(digests_of(contents));
    assert forall|i: int| 0 <= i < contents.len() implies registered(
        digests_of(contents),
    ).contains(#[trigger] sha256(contents[i])) by {
        assert(digests_of(contents)[i] == sha256(contents[i]));
        assert(digests_of(contents).contains(sha256(contents[i])));
    }
    assert forall|k: int| 0 <= k < contents.len() implies #[trigger] start.after(
        contents_read(contents).take(k),
    ).request() == ActionView::ReadFile(joined(folder, names[k])) by {
        lemma_scan_of_distinct_files(folder, policy, names, contents, k);
    }
}

/// No event changes the folder or the policy of a run, and the registry
/// changes only when content is taken in, by the digest of that content.
pub proof fn lemma_next_registers_content(m: Model, event: EventView)
    ensures
        m.next(event).folder == m.folder,
        m.next(event).policy == m.policy,
        m.next(event).registry == match m.content_taken(event) {
            Some(content) => with_digest(m.registry, sha256(content)),
            None => m.registry,
        },
{
}

/// At every point of a run the registry is what comes of offering to an
/// empty registry the digests of the contents taken in so far: it is in
/// strictly ascending order and holds each of those digests once.
pub proof fn lemma_registry_holds_what_was_seen(
    folder: Seq<char>,
    policy: PolicyView,
    events: Seq<EventView>,
)
    ensures
        ({
            let start = Model::initial(folder, policy);
            &&& start.after(events).registry == registered(start.digests_seen(events))
            &&& strictly_ascending(start.after(events).registry)
            &&& forall|d: Seq<u8>|
                start.after(events).registry.contains(d) <==> start.digests_seen(events).contains(
                    d,
                )
        }),
    decreases events.len(),
{
    let start = Model::initial(folder, policy);
    if events.len() == 0 {
    } else {
        let earlier = events.drop_last();
        lemma_registry_holds_what_was_seen(folder, policy, earlier);
        let m = start.after(earlier);
        lemma_next_registers_content(m, events.last());
        match m.content_taken(events.last()) {
            Some(content) => {
                let seen = start.digests_seen(earlier);
                assert(seen.push(sha256(content)).drop_last() =~= seen);
                assert(seen.push(sha256(content)).last() == sha256(content));
            },
            None => {},
        }
    }
    lemma_registered_is_ordered(start.digests_seen(events));
}

/// A file is dealt with as a duplicate exactly if the digest of its content
/// is that of a content which the run took in before. Otherwise its digest
/// is registered and the run turns to the next file.
pub proof fn lemma_duplicate_exactly_if_seen(
    folder: Seq<char>,
    policy: PolicyView,
    events: Seq<EventView>,
    name: Seq<char>,
    content: Seq<u8>,
)
    requires
        Model::initial(folder, policy).after(events).phase == (PhaseView::Reading { name }),
    ensures
        ({
            let start = Model::initial(folder, policy);
            let m = start.after(events);
            let digest = sha256(content);
            m.next(EventView::Content(Some(content))) == if start.digests_seen(events).contains(
                digest,
            ) {
                m.resolve_conflict(name, digest)
            } else {
                Model { registry: with_digest(m.registry, digest), ..m }.advance()
            }
        }),
{
    lemma_registry_holds_what_was_seen(folder, policy, events);
}

/// Of two files with the same content the one that is read second is dealt
/// with as a duplicate, whatever was read between them.
pub proof fn lemma_second_of_two_is_duplicate(
    folder: Seq<char>,
    policy: PolicyView,
    events: Seq<EventView>,
    name: Seq<char>,
    content: Seq<u8>,
    i: int,
)
    requires
        0 <= i < events.len(),
        Model::initial(folder, policy).after(events.take(i)).content_taken(events[i]) == Some(
            content,
        ),
        Model::initial(folder, policy).after(events).phase == (PhaseView::Reading { name }),
    ensures
        ({
            let m = Model::initial(folder, policy).after(events);
            m.next(EventView::Content(Some(content))) == m.resolve_conflict(name, sha256(content))
        }),
{
    let start = Model::initial(folder, policy);
    lemma_seen_keeps_digests(start, events, i);
    lemma_duplicate_exactly_if_seen(folder, policy, events, name, content);
}

/// The digest of content that was taken in stays among the digests seen.
proof fn lemma_seen_keeps_digests(start: Model, events: Seq<EventView>, i: int)
    requires
        0 <= i < events.len(),
        start.after(events.take(i)).content_taken(events[i]) is Some,
    ensures
        start.digests_seen(events).contains(
            sha256(start.after(events.take(i)).content_taken(events[i])->0),
        ),
    decreases events.len(),
{
    let earlier = events.drop_last();
    let digest = sha256(start.after(events.take(i)).content_taken(events[i])->0);
    if i == events.len() - 1 {
        assert(events.take(i) =~= earlier);
        let seen = start.digests_seen(earlier);
        assert(seen.push(digest)[seen.len() as int] == digest);
    } else {
        assert(earlier.take(i) =~= events.take(i));
        lemma_seen_keeps_digests(start, earlier, i);
        let seen = start.digests_seen(earlier);
        let j = choose|j: int| 0 <= j < seen.len() && seen[j] == digest;
        match start.after(earlier).content_taken(events.last()) {
            Some(content) => {
                assert(seen.push(sha256(content))[j] == digest);
            },
            None => {},
        }
    }
}

/// The name of the file that a run is busy with, where the phase names one.
pub open spec fn current_name(m: Model) -> Option<Seq<char>> {
    match m.phase {
        PhaseView::Reading { name } => Some(name),
        PhaseView::Deleting { name } => Some(name),
        PhaseView::Moving { name, to } => Some(name),
        PhaseView::Choosing { name } => Some(name),
        PhaseView::Destination { name } => Some(name),
        PhaseView::Resolving { name, input } => Some(name),
        _ => None,
    }
}

/// The run has turned to no more candidates than the listing holds, and the
/// file it is busy with is the candidate it turned to last.
pub open spec fn in_step(m: Model) -> bool {
    &&& m.cursor <= m.files.len()
    &&& current_name(m) matches Some(name) ==> m.cursor >= 1 && m.files[m.cursor - 1] == name
}

/// A run takes the candidates one at a time and in the order of the listing:
/// at every point it is busy with the candidate it turned to last, and an
/// event makes it turn to at most the one candidate that comes next.
pub proof fn lemma_one_file_at_a_time(
    folder: Seq<char>,
    policy: PolicyView,
    events: Seq<EventView>,
    event: EventView,
)
    ensures
        in_step(Model::initial(folder, policy).after(events)),
        ({
            let m = Model::initial(folder, policy).after(events);
            m.phase !is Listing ==> m.next(event).files == m.files && m.cursor <= m.next(
                event,
            ).cursor <= m.cursor + 1
        }),
    decreases events.len(),
{
    if events.len() > 0 {
        lemma_one_file_at_a_time(folder, policy, events.drop_last(), events.last());
    }
}

/// The run is busy with a file that was found to be a duplicate and that the
/// policy alone does not settle: it asks for a removal or a move, or is in
/// dialogue with the operator.
pub open spec fn acting_on_duplicate(m: Model) -> bool {
    m.phase is Deleting || m.phase is Moving || m.phase is Choosing || m.phase is Destination
        || m.phase is Resolving
}

/// Under the policy `Inform` a run never asks for a removal or a move, nor
/// does it ask the operator anything, whatever events arrive.
pub proof fn lemma_inform_never_mutates(folder: Seq<char>, events: Seq<EventView>)
    ensures
        !acting_on_duplicate(Model::initial(folder, PolicyView::Inform).after(events)),
        Model::initial(folder, PolicyView::Inform).after(events).policy == PolicyView::Inform,
        !Model::initial(folder, PolicyView::Inform).after(events).request().mutates(),
    decreases events.len(),
{
    if events.len() > 0 {
        lemma_inform_never_mutates(folder, events.drop_last());
    }
}

/// Under the policy `Inform` a duplicate is reported, with its path and the
/// digest of its content in hexadecimal, and the run then turns to the next
/// file.
pub proof fn lemma_inform_reports_duplicate(m: Model, name: Seq<char>, content: Seq<u8>)
    requires
        m.policy == PolicyView::Inform,
        m.phase == (PhaseView::Reading { name }),
        m.registry.contains(sha256(content)),
    ensures
        ({
            let told = m.next(EventView::Content(Some(content)));
            &&& told.request() == ActionView::Report(
                repeated_notice(joined(m.folder, name), hex_lower(sha256(content))),
            )
            &&& told.registry == m.registry
            &&& told.next(EventView::Reported) == m.advance()
        }),
{
}

/// Under the policy `Delete` the run asks for the removal of a duplicate.
/// If the removal succeeds, that is reported and the run turns to the next
/// file; if it fails, the run ends with `DeleteFailed`.
pub proof fn lemma_delete_removes_duplicate(m: Model, name: Seq<char>, content: Seq<u8>)
    requires
        m.policy == PolicyView::Delete,
        m.phase == (PhaseView::Reading { name }),
        m.registry.contains(sha256(content)),
    ensures
        ({
            let asked = m.next(EventView::Content(Some(content)));
            let path = joined(m.folder, name);
            &&& asked.request() == ActionView::Remove(path)
            &&& asked.next(EventView::Outcome(true)).request() == ActionView::Report(
                deleted_notice(path),
            )
            &&& asked.next(EventView::Outcome(true)).next(EventView::Reported) == m.advance()
            &&& asked.next(EventView::Outcome(false)).request() == ActionView::Finish(
                Err(FilterError::DeleteFailed),
            )
        }),
{
}

/// Under the policy `Move` the run asks for a duplicate to be moved to the
/// path of its name inside the destination folder. If the move succeeds,
/// that is reported and the run turns to the next file; if it fails, the run
/// ends with `MoveFailed`.
pub proof fn lemma_move_moves_duplicate(
    m: Model,
    destination: Seq<char>,
    name: Seq<char>,
    content: Seq<u8>,
)
    requires
        m.policy == PolicyView::Move(destination),
        m.phase == (PhaseView::Reading { name }),
        m.registry.contains(sha256(content)),
    ensures
        ({
            let asked = m.next(EventView::Content(Some(content)));
            let from = joined(m.folder, name);
            let to = joined(destination, name);
            &&& asked.request() == ActionView::Rename { from, to }
            &&& asked.next(EventView::Outcome(true)).request() == ActionView::Report(
                moved_notice(from, to),
            )
            &&& asked.next(EventView::Outcome(true)).next(EventView::Reported) == m.advance()
            &&& asked.next(EventView::Outcome(false)).request() == ActionView::Finish(
                Err(FilterError::MoveFailed),
            )
        }),
{
}

/// Under the policy `Ask` the run asks the operator what to do with a
/// duplicate. The answer is trimmed. `delete` makes the run ask for the
/// removal of the file, `move` makes it ask for a destination folder,
/// after `ignore` it turns to the next file, and any other answer ends it
/// with `InvalidInput`. If no answer can be read, the run ends with
/// `InputReadFailed`.
pub proof fn lemma_ask_follows_choice(
    m: Model,
    name: Seq<char>,
    content: Seq<u8>,
    line: Seq<char>,
)
    requires
        m.policy == PolicyView::Ask,
        m.phase == (PhaseView::Reading { name }),
        m.registry.contains(sha256(content)),
    ensures
        ({
            let asked = m.next(EventView::Content(Some(content)));
            let path = joined(m.folder, name);
            let answered = asked.next(EventView::Line(Some(line)));
            let token = trimmed(line);
            &&& asked.request() == ActionView::Prompt(choice_prompt(path))
            &&& token == "delete"@ ==> answered.request() == ActionView::Remove(path)
            &&& token == "move"@ ==> answered == asked.at(PhaseView::Destination { name })
                && answered.request() == ActionView::Prompt(destination_prompt())
            &&& token == "ignore"@ ==> answered == m.advance()
            &&& token != "delete"@ && token != "move"@ && token != "ignore"@
                ==> answered.request() == ActionView::Finish(Err(FilterError::InvalidInput))
            &&& asked.next(EventView::Line(None)).request() == ActionView::Finish(
                Err(FilterError::InputReadFailed),
            )
        }),
{
    lemma_tokens_differ();
}

/// After the operator chose `move`, the line that is read next names the
/// destination folder: it is that line without its end of line. An absolute
/// folder is taken as it is; any other is resolved on disk first, and the
/// run ends with `PathResolutionFailed` if that fails. The run then asks for
/// the file to be moved to the path of its name inside that folder. If no
/// line can be read, the run ends with `InputReadFailed`.
pub proof fn lemma_ask_moves_to_named_folder(
    m: Model,
    name: Seq<char>,
    line: Seq<char>,
    canonical: Seq<char>,
)
    requires
        m.phase == (PhaseView::Destination { name }),
    ensures
        ({
            let from = joined(m.folder, name);
            let folder = without_line_end(line);
            let named = m.next(EventView::Line(Some(line)));
            &&& is_absolute(folder) ==> named.request() == ActionView::Rename {
                from,
                to: joined(folder, name),
            }
            &&& !is_absolute(folder) ==> {
                &&& named.request() == ActionView::Canonicalize(folder)
                &&& named.next(EventView::Resolved(Some(canonical))).request()
                    == ActionView::Rename { from, to: joined(canonical, name) }
                &&& named.next(EventView::Resolved(None)).request() == ActionView::Finish(
                    Err(FilterError::PathResolutionFailed),
                )
            }
            &&& m.next(EventView::Line(None)).request() == ActionView::Finish(
                Err(FilterError::InputReadFailed),
            )
        }),
{
}

/// A folder that the operator types and ends with a line feed, or with a
/// carriage return and a line feed, is the folder that the file is moved to:
/// an absolute folder at once, any other once it is resolved. The same holds
/// of a folder that arrives without an end of line.
pub proof fn lemma_ask_moves_to_typed_folder(
    m: Model,
    name: Seq<char>,
    typed: Seq<char>,
    canonical: Seq<char>,
)
    requires
        m.phase == (PhaseView::Destination { name }),
        typed.len() > 0 ==> typed.last() != '\r' && typed.last() != '\n',
    ensures
        ({
            let from = joined(m.folder, name);
            let fed = m.next(EventView::Line(Some(typed.push('\n'))));
            let returned = m.next(EventView::Line(Some(typed.push('\r').push('\n'))));
            &&& fed == m.next(EventView::Line(Some(typed)))
            &&& returned == fed
            &&& is_absolute(typed) ==> fed.request() == ActionView::Rename {
                from,
                to: joined(typed, name),
            }
            &&& !is_absolute(typed) ==> {
                &&& fed.request() == ActionView::Canonicalize(typed)
                &&& fed.next(EventView::Resolved(Some(canonical))).request()
                    == ActionView::Rename { from, to: joined(canonical, name) }
            }
        }),
{
    lemma_line_end_is_left_off(typed);
}

/// Whatever the policy, a removal that was asked for and succeeds is
/// reported, after which the run turns to the next file, and one that fails
/// ends the run with `DeleteFailed`. The same holds of a move, with
/// `MoveFailed`.
pub proof fn lemma_outcome_decides(m: Model, name: Seq<char>, to: Seq<char>)
    ensures
        m.phase == (PhaseView::Deleting { name }) ==> {
            &&& m.request() == ActionView::Remove(joined(m.folder, name))
            &&& m.next(EventView::Outcome(true)).next(EventView::Reported) == m.advance()
            &&& m.next(EventView::Outcome(false)).request() == ActionView::Finish(
                Err(FilterError::DeleteFailed),
            )
        },
        m.phase == (PhaseView::Moving { name, to }) ==> {
            &&& m.request() == ActionView::Rename { from: joined(m.folder, name), to }
            &&& m.next(EventView::Outcome(true)).next(EventView::Reported) == m.advance()
            &&& m.next(EventView::Outcome(false)).request() == ActionView::Finish(
                Err(FilterError::MoveFailed),
            )
        },
{
}

/// A run that is over stays over: whatever events arrive, its state does not
/// change, so that it turns to no further file, registers nothing and keeps
/// reporting the result with which it ended.
pub proof fn lemma_finished_run_stays_finished(
    m: Model,
    result: Result<(), FilterError>,
    events: Seq<EventView>,
)
    requires
        m.phase == (PhaseView::Done { result }),
    ensures
        m.after(events) == m,
        m.after(events).request() == ActionView::Finish(result),
    decreases events.len(),
{
    if events.len() > 0 {
        lemma_finished_run_stays_finished(m, result, events.drop_last());
    }
}

/// The first failure ends the run: if an event leads to a failure, the run
/// asks for nothing more, whatever events follow. No file after the one that
/// failed is read, and the run reports the error of that failure.
pub proof fn lemma_failure_ends_run(
    m: Model,
    event: EventView,
    error: FilterError,
    later: Seq<EventView>,
)
    requires
        m.next(event).phase == (PhaseView::Done { result: Err::<(), FilterError>(error) }),
    ensures
        m.next(event).after(later).request() == ActionView::Finish(Err(error)),
        m.next(event).after(later).cursor == m.next(event).cursor,
        m.next(event).after(later).registry == m.next(event).registry,
{
    lemma_finished_run_stays_finished(m.next(event), Err(error), later);
}

} // verus!
