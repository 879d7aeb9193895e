//! How the two sides of the bridge stay in step.
//!
//! The directory on the consumer thread and the session on the protocol
//! thread share no state: the directory only sends commands. What is
//! proved here is that the commands suffice for the session to hold a
//! stream for exactly the sources that some texture wants.

use vstd::prelude::*;
use crate::channels::PipewireResourceNotify;
use crate::client::{SessionAction, SessionView, creations, lemma_actions_follow_commands};
use crate::resource::{
    DirectoryOp, Registration, after_ops, commands_of, interested, lemma_interest_after_connect,
    lemma_interest_after_disconnect, lemma_ops_keep_wf, wanted,
};

verus! {

/// The session runs and holds a stream for exactly the sources that some
/// texture is registered for.
pub open spec fn in_step(entries: Seq<Registration>, session: SessionView) -> bool {
    &&& session.running
    &&& forall|source_id: u32| #[trigger]
        session.has_stream(source_id) == interested(entries, source_id)
}

/// A session that is in step with the directory, and that applies the
/// commands that the directory sends in the order in which it sends them,
/// is in step again after any run of connections and disconnections. None
/// of those commands is in vain: each command to create a stream makes the
/// session connect one, and each command to delete a stream makes it
/// disconnect one.
pub proof fn lemma_session_follows_directory(
    start: Seq<Registration>,
    session: SessionView,
    ops: Seq<DirectoryOp>,
)
    requires
        start.no_duplicates(),
        in_step(start, session),
    ensures
        in_step(after_ops(start, ops), session.after_all(commands_of(start, ops))),
        forall|i: int|
            0 <= i < commands_of(start, ops).len() ==> (#[trigger] session.actions_for(
                commands_of(start, ops),
            )[i]) == match commands_of(start, ops)[i].source_id {
                Some(source_id) => if commands_of(start, ops)[i].creates(source_id) {
                    SessionAction::Connect { source_id }
                } else {
                    SessionAction::Disconnect { source_id }
                },
                None => SessionAction::Idle,
            },
        forall|i: int|
            0 <= i < commands_of(start, ops).len() ==> (#[trigger] commands_of(
                start,
                ops,
            )[i]).source_id is Some,
    decreases ops.len(),
{
    if ops.len() > 0 {
        let earlier = ops.drop_last();
        let entries = after_ops(start, earlier);
        let sent = commands_of(start, earlier);
        let reached = session.after_all(sent);
        lemma_session_follows_directory(start, session, earlier);
        lemma_ops_keep_wf(start, earlier);
        match ops.last() {
            DirectoryOp::Connect(entry) => {
                lemma_connect_keeps_step(entries, reached, entry);
            },
            DirectoryOp::Disconnect(entry) => {
                lemma_disconnect_keeps_step(entries, reached, entry);
            },
        }
        match ops.last().command(entries) {
            Some(command) => {
                let all = sent.push(command);
                assert(all.drop_last() == sent);
                lemma_actions_follow_commands(session, all);
                lemma_actions_follow_commands(session, sent);
                assert forall|i: int| 0 <= i < all.len() implies (#[trigger] session.actions_for(
                    all,
                )[i]) == match all[i].source_id {
                    Some(source_id) => if all[i].creates(source_id) {
                        SessionAction::Connect { source_id }
                    } else {
                        SessionAction::Disconnect { source_id }
                    },
                    None => SessionAction::Idle,
                } by {
                    if i < sent.len() {
                        assert(all.take(i) == sent.take(i));
                        assert(session.actions_for(sent)[i] == session.actions_for(all)[i]);
                    } else {
                        assert(all.take(i) == sent);
                    }
                }
            },
            None => {},
        }
    }
}

/// A connection, with the command that it sends applied, keeps the
/// session in step.
proof fn lemma_connect_keeps_step(
    entries: Seq<Registration>,
    session: SessionView,
    entry: Registration,
)
    requires
        in_step(entries, session),
    ensures
        match DirectoryOp::Connect(entry).command(entries) {
            Some(command) => command == PipewireResourceNotify::spec_create_stream(
                entry.source_id,
            ) && session.action_for(command) == (SessionAction::Connect {
                source_id: entry.source_id,
            }) && in_step(DirectoryOp::Connect(entry).apply(entries), session.after(command)),
            None => in_step(DirectoryOp::Connect(entry).apply(entries), session),
        },
{
    let next = DirectoryOp::Connect(entry).apply(entries);
    let after = match DirectoryOp::Connect(entry).command(entries) {
        Some(command) => session.after(command),
        None => session,
    };
    assert(session.has_stream(entry.source_id) == interested(entries, entry.source_id));
    assert forall|source_id: u32| #[trigger]
        after.has_stream(source_id) == interested(next, source_id) by {
        lemma_interest_after_connect(entries, entry, source_id);
        assert(session.has_stream(source_id) == interested(entries, source_id));
    }
}

/// A disconnection, with the command that it sends applied, keeps the
/// session in step.
proof fn lemma_disconnect_keeps_step(
    entries: Seq<Registration>,
    session: SessionView,
    entry: Registration,
)
    requires
        in_step(entries, session),
    ensures
        match DirectoryOp::Disconnect(entry).command(entries) {
            Some(command) => command == PipewireResourceNotify::spec_delete_stream(
                entry.source_id,
            ) && session.action_for(command) == (SessionAction::Disconnect {
                source_id: entry.source_id,
            }) && in_step(DirectoryOp::Disconnect(entry).apply(entries), session.after(command)),
            None => in_step(DirectoryOp::Disconnect(entry).apply(entries), session),
        },
{
    let next = DirectoryOp::Disconnect(entry).apply(entries);
    let after = match DirectoryOp::Disconnect(entry).command(entries) {
        Some(command) => session.after(command),
        None => session,
    };
    assert(session.has_stream(entry.source_id) == interested(entries, entry.source_id));
    lemma_interest_after_disconnect(entries, entry, entry.source_id);
    assert forall|source_id: u32| #[trigger]
        after.has_stream(source_id) == interested(next, source_id) by {
        lemma_interest_after_disconnect(entries, entry, source_id);
        assert(session.has_stream(source_id) == interested(entries, source_id));
    }
}

/// A session that starts by creating a stream for the source of every
/// registration, as they stand in the directory, is in step with it: a
/// source that several textures want still gets one stream.
pub proof fn lemma_start_is_in_step(entries: Seq<Registration>)
    ensures
        in_step(entries, SessionView::started().after_all(creations(wanted(entries)))),
{
    lemma_start_covers_prefix(entries, entries.len() as int);
    assert(entries.take(entries.len() as int) == entries);
}

/// Creating a stream for the source of each of the first `count`
/// registrations leaves a running session with a stream for exactly the
/// sources that those registrations name.
proof fn lemma_start_covers_prefix(entries: Seq<Registration>, count: int)
    requires
        0 <= count <= entries.len(),
    ensures
        in_step(
            entries.take(count),
            SessionView::started().after_all(creations(wanted(entries.take(count)))),
        ),
    decreases count,
{
    let commands = creations(wanted(entries.take(count)));
    if count == 0 {
        assert(commands.len() == 0);
    } else {
        let shorter = entries.take(count - 1);
        let earlier = creations(wanted(shorter));
        let reached = SessionView::started().after_all(earlier);
        let last = entries[count - 1];
        lemma_start_covers_prefix(entries, count - 1);
        assert(commands.drop_last() == earlier);
        assert(commands.last() == PipewireResourceNotify::spec_create_stream(last.source_id));
        assert(entries.take(count) == shorter.push(last));
        assert(reached.has_stream(last.source_id) == interested(shorter, last.source_id));
        let after = reached.after(commands.last());
        assert forall|source_id: u32| #[trigger]
            after.has_stream(source_id) == interested(entries.take(count), source_id) by {
            assert(reached.has_stream(source_id) == interested(shorter, source_id));
            if interested(shorter, source_id) {
                let i = choose|i: int|
                    0 <= i < shorter.len() && (#[trigger] shorter[i]).source_id == source_id;
                assert(entries.take(count)[i].source_id == source_id);
            }
            if source_id == last.source_id {
                assert(entries.take(count)[count - 1].source_id == source_id);
            }
            if interested(entries.take(count), source_id) && source_id != last.source_id {
                let i = choose|i: int|
                    0 <= i < count && (#[trigger] entries.take(count)[i]).source_id == source_id;
                assert(shorter[i].source_id == source_id);
            }
        }
    }
}

} // verus!
