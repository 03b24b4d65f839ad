//! What uploads leave in the storage directory.
//!
//! Nothing here runs. The directory is taken as a map from paths to the
//! bytes of the files, the effect of each action of a writer on it is
//! written down, and the laws say what the files hold in the end.

use crate::storage::{entry_path, lemma_paths_tell_names_apart};
use crate::writer::{
    lemma_write_fidelity, run, step, stored, transfer, WriterActionView, WriterEventView,
    WriterPhase, WriterView,
};
use vstd::prelude::*;

verus! {

/// The directory after `action` of the writer whose file is at `path`
/// is carried out: a created file is empty, stored bytes go to the end
/// of the writer's file, and nothing else touches the directory.
pub open spec fn carry_out(
    shelf: Map<Seq<char>, Seq<u8>>,
    path: Seq<char>,
    action: WriterActionView,
) -> Map<Seq<char>, Seq<u8>> {
    match action {
        WriterActionView::CreateFile(at) => shelf.insert(at, Seq::empty()),
        WriterActionView::Store(bytes) => shelf.insert(path, shelf[path] + bytes),
        _ => shelf,
    }
}

/// The directory after a sequence of actions of one writer.
pub open spec fn shelf_after(
    shelf: Map<Seq<char>, Seq<u8>>,
    path: Seq<char>,
    actions: Seq<WriterActionView>,
) -> Map<Seq<char>, Seq<u8>>
    decreases actions.len(),
{
    if actions.len() == 0 {
        shelf
    } else {
        carry_out(shelf_after(shelf, path, actions.drop_last()), path, actions.last())
    }
}

/// One report in the course of two uploads: which of the two it is for,
/// and what it says.
pub ghost struct Turn {
    pub for_first: bool,
    pub event: WriterEventView,
}

/// Two uploads under one root, and the directory they write to.
pub ghost struct SideBySide {
    pub first: WriterView,
    pub second: WriterView,
    pub shelf: Map<Seq<char>, Seq<u8>>,
}

/// The reports that one of two uploads gets to see, in their order.
pub open spec fn share(schedule: Seq<Turn>, of_first: bool) -> Seq<WriterEventView>
    decreases schedule.len(),
{
    if schedule.len() == 0 {
        Seq::empty()
    } else if schedule.last().for_first == of_first {
        share(schedule.drop_last(), of_first).push(schedule.last().event)
    } else {
        share(schedule.drop_last(), of_first)
    }
}

/// Two uploads taken through reports that come in any order: each
/// report moves the writer it is for, and that writer's action is
/// carried out on its own file.
pub open spec fn run_side_by_side(root: Seq<char>, start: SideBySide, schedule: Seq<Turn>) -> SideBySide
    decreases schedule.len(),
{
    if schedule.len() == 0 {
        start
    } else {
        let before = run_side_by_side(root, start, schedule.drop_last());
        let turn = schedule.last();
        if turn.for_first {
            let (writer, action) = step(before.first, turn.event);
            SideBySide {
                first: writer,
                shelf: carry_out(before.shelf, entry_path(root, writer.name), action),
                ..before
            }
        } else {
            let (writer, action) = step(before.second, turn.event);
            SideBySide {
                second: writer,
                shelf: carry_out(before.shelf, entry_path(root, writer.name), action),
                ..before
            }
        }
    }
}

proof fn lemma_steps_keep_to_the_file(w: WriterView, events: Seq<WriterEventView>)
    ensures
        run(w, events).0.name == w.name,
        run(w, events).1.len() == events.len(),
        forall|i: int| 0 <= i < events.len() ==> !(#[trigger] run(w, events).1[i] is CreateFile),
    decreases events.len(),
{
    if events.len() > 0 {
        lemma_steps_keep_to_the_file(w, events.drop_last());
    }
}

/// A file holds what its writer sent. Actions that create no file leave
/// in the writer's file what was there, followed by the bytes they
/// store, and leave every other path as it was.
pub proof fn lemma_file_holds_what_was_sent(
    shelf: Map<Seq<char>, Seq<u8>>,
    path: Seq<char>,
    actions: Seq<WriterActionView>,
)
    requires
        forall|i: int| 0 <= i < actions.len() ==> !(#[trigger] actions[i] is CreateFile),
    ensures
        shelf_after(shelf, path, actions)[path] == shelf[path] + stored(actions),
        forall|other: Seq<char>|
            other != path ==> shelf_after(shelf, path, actions)[other] == shelf[other],
        forall|other: Seq<char>|
            other != path ==> (shelf_after(shelf, path, actions).dom().contains(other)
                <==> shelf.dom().contains(other)),
    decreases actions.len(),
{
    if actions.len() > 0 {
        lemma_file_holds_what_was_sent(shelf, path, actions.drop_last());
    }
}

/// Write fidelity, on the directory. A writer that begins under `root`
/// has its file created; when nothing goes wrong, the file then holds
/// the field's chunks joined in the order of arrival and nothing else,
/// whatever the directory held before, and no other path is touched.
pub proof fn lemma_stored_file_is_the_field(
    root: Seq<char>,
    shelf: Map<Seq<char>, Seq<u8>>,
    w: WriterView,
    chunks: Seq<Seq<u8>>,
)
    requires
        w.phase == WriterPhase::Opening,
        w.pending == 0,
    ensures
        shelf_after(
            shelf,
            entry_path(root, w.name),
            seq![WriterActionView::CreateFile(entry_path(root, w.name))] + run(
                w,
                transfer(chunks),
            ).1,
        )[entry_path(root, w.name)] == chunks.flatten(),
        forall|other: Seq<char>|
            other != entry_path(root, w.name) ==> shelf_after(
                shelf,
                entry_path(root, w.name),
                seq![WriterActionView::CreateFile(entry_path(root, w.name))] + run(
                    w,
                    transfer(chunks),
                ).1,
            )[other] == shelf[other],
{
    let path = entry_path(root, w.name);
    let create = seq![WriterActionView::CreateFile(path)];
    let actions = run(w, transfer(chunks)).1;
    lemma_write_fidelity(w, chunks);
    lemma_steps_keep_to_the_file(w, transfer(chunks));
    lemma_shelf_after_append(shelf, path, create, actions);
    let created = shelf_after(shelf, path, create);
    assert(shelf_after(shelf, path, create.drop_last()) == shelf);
    lemma_file_holds_what_was_sent(created, path, actions);
    assert forall|other: Seq<char>| other != path implies shelf_after(
        shelf,
        path,
        create + actions,
    )[other] == shelf[other] by {
        assert(shelf_after(created, path, actions)[other] == created[other]);
    }
}

proof fn lemma_shelf_after_append(
    shelf: Map<Seq<char>, Seq<u8>>,
    path: Seq<char>,
    first: Seq<WriterActionView>,
    then: Seq<WriterActionView>,
)
    ensures
        shelf_after(shelf, path, first + then) == shelf_after(
            shelf_after(shelf, path, first),
            path,
            then,
        ),
    decreases then.len(),
{
    if then.len() > 0 {
        assert((first + then).drop_last() == first + then.drop_last());
        lemma_shelf_after_append(shelf, path, first, then.drop_last());
    }
}

/// Concurrent independence. Two uploads under one root whose names
/// differ never meet: in whatever order their reports come, each writer
/// ends where it would have ended alone, each file holds what was there
/// followed by the bytes of its own writer in their order, and no byte
/// of one upload reaches the file of the other.
pub proof fn lemma_uploads_do_not_meet(root: Seq<char>, start: SideBySide, schedule: Seq<Turn>)
    requires
        start.first.name != start.second.name,
    ensures
        entry_path(root, start.first.name) != entry_path(root, start.second.name),
        run_side_by_side(root, start, schedule).first == run(
            start.first,
            share(schedule, true),
        ).0,
        run_side_by_side(root, start, schedule).second == run(
            start.second,
            share(schedule, false),
        ).0,
        run_side_by_side(root, start, schedule).shelf[entry_path(root, start.first.name)]
            == start.shelf[entry_path(root, start.first.name)] + stored(
            run(start.first, share(schedule, true)).1,
        ),
        run_side_by_side(root, start, schedule).shelf[entry_path(root, start.second.name)]
            == start.shelf[entry_path(root, start.second.name)] + stored(
            run(start.second, share(schedule, false)).1,
        ),
    decreases schedule.len(),
{
    let path_first = entry_path(root, start.first.name);
    let path_second = entry_path(root, start.second.name);
    if path_first == path_second {
        lemma_paths_tell_names_apart(root, start.first.name, start.second.name);
    }
    if schedule.len() > 0 {
        let earlier = schedule.drop_last();
        let turn = schedule.last();
        lemma_uploads_do_not_meet(root, start, earlier);
        let before = run_side_by_side(root, start, earlier);
        lemma_steps_keep_to_the_file(start.first, share(earlier, true));
        lemma_steps_keep_to_the_file(start.second, share(earlier, false));
        if turn.for_first {
            let seen = share(earlier, true);
            let sent = run(start.first, seen).1;
            assert(share(schedule, true).drop_last() == seen);
            assert(sent.push(step(before.first, turn.event).1).drop_last() == sent);
        } else {
            let seen = share(earlier, false);
            let sent = run(start.second, seen).1;
            assert(share(schedule, false).drop_last() == seen);
            assert(sent.push(step(before.second, turn.event).1).drop_last() == sent);
        }
    }
}

} // verus!
