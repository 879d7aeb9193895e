//! The session: the sources seen on the bus and the streams that are open.
//!
//! The session belongs to the protocol thread. It learns of sources from
//! the registry, opens and closes streams as the consumer commands, and
//! hands every callback of the peer to the stream that it belongs to. All
//! of it is decided here from plain values; the caller runs the event loop
//! and carries out the actions that the session names.

use vstd::prelude::*;
use std::collections::HashMap;
use crate::channels::{PipewireResourceNotify, PipewireResourceNotifyAction, PipewireUpdateNotify, UpdateEvent};
use crate::registry::SourceSet;
use crate::stream::{FormatParam, ParamType, PipewireStream, Plane, StreamState, planes_of};

verus! {

broadcast use vstd::std_specs::hash::group_hash_axioms;

/// The longest that the consumer thread may drive the event loop in one
/// frame, in milliseconds.
pub const LOOP_BUDGET_MILLIS: u64 = 5;

/// What the event loop has to carry out after a command.
#[derive(Clone, Copy, Debug, PartialEq, Eq, Structural)]
pub enum SessionAction {
    /// Nothing.
    Idle,
    /// Connect a stream to the source and send it the offer of streams.
    Connect { source_id: u32 },
    /// Release the listener of the source's stream.
    Disconnect { source_id: u32 },
    /// Release every listener and leave the event loop.
    Quit,
}

/// The session as the contracts speak of it.
pub struct SessionView {
    /// The event loop is running.
    pub running: bool,
    /// The sources that the registry has announced.
    pub sources: Set<u32>,
    /// The open streams, by source.
    pub streams: Map<u32, StreamState>,
}

impl SessionView {
    /// A stream is open for the source.
    pub open spec fn has_stream(self, source_id: u32) -> bool {
        self.streams.contains_key(source_id)
    }

    /// The action that a command calls for. A stopped session does nothing;
    /// a running one quits on a close, connects a source that has no stream
    /// yet, and disconnects one that has. A command to create a stream that
    /// exists, to delete one that does not, or one that names no source,
    /// calls for nothing.
    pub open spec fn action_for(self, command: PipewireResourceNotify) -> SessionAction {
        if !self.running {
            SessionAction::Idle
        } else {
            match (command.action, command.source_id) {
                (PipewireResourceNotifyAction::CLOSE, _) => SessionAction::Quit,
                (PipewireResourceNotifyAction::CREATED, Some(source_id)) => if self.has_stream(
                    source_id,
                ) {
                    SessionAction::Idle
                } else {
                    SessionAction::Connect { source_id }
                },
                (PipewireResourceNotifyAction::DELETED, Some(source_id)) => if self.has_stream(
                    source_id,
                ) {
                    SessionAction::Disconnect { source_id }
                } else {
                    SessionAction::Idle
                },
                _ => SessionAction::Idle,
            }
        }
    }

    /// The session once an action is carried out.
    pub open spec fn apply(self, action: SessionAction) -> SessionView {
        match action {
            SessionAction::Idle => self,
            SessionAction::Connect { source_id } => SessionView {
                streams: self.streams.insert(source_id, StreamState::AwaitingFormat),
                ..self
            },
            SessionAction::Disconnect { source_id } => SessionView {
                streams: self.streams.remove(source_id),
                ..self
            },
            SessionAction::Quit => SessionView { running: false, streams: Map::empty(), ..self },
        }
    }

    /// The session after one command.
    pub open spec fn after(self, command: PipewireResourceNotify) -> SessionView {
        self.apply(self.action_for(command))
    }

    /// The session after a batch of commands, applied in the order given.
    pub open spec fn after_all(self, commands: Seq<PipewireResourceNotify>) -> SessionView
        decreases commands.len(),
    {
        if commands.len() == 0 {
            self
        } else {
            self.after_all(commands.drop_last()).after(commands.last())
        }
    }

    /// The actions that a batch of commands calls for, one for each command.
    pub open spec fn actions_for(self, commands: Seq<PipewireResourceNotify>) -> Seq<SessionAction>
        decreases commands.len(),
    {
        if commands.len() == 0 {
            Seq::empty()
        } else {
            self.actions_for(commands.drop_last()).push(
                self.after_all(commands.drop_last()).action_for(commands.last()),
            )
        }
    }

    /// The stream of a source, as the session holds it.
    pub open spec fn stream(self, source_id: u32) -> PipewireStream
        recommends
            self.has_stream(source_id),
    {
        PipewireStream { source_id, state: self.streams[source_id] }
    }

    /// The update that a changed parameter of a source leads to.
    pub open spec fn format_event(
        self,
        source_id: u32,
        id: ParamType,
        param: Option<FormatParam>,
    ) -> Option<UpdateEvent> {
        if self.has_stream(source_id) {
            self.stream(source_id).format_event(id, param)
        } else {
            None
        }
    }

    /// The session after a changed parameter of a source: the stream of
    /// the source has taken note of it, and nothing else has changed.
    pub open spec fn after_param_changed(
        self,
        source_id: u32,
        id: ParamType,
        param: Option<FormatParam>,
    ) -> SessionView {
        if self.has_stream(source_id) {
            SessionView {
                streams: self.streams.insert(
                    source_id,
                    self.stream(source_id).after_param_changed(id, param).state,
                ),
                ..self
            }
        } else {
            self
        }
    }

    /// The update that a frame of a source leads to.
    pub open spec fn frame_event(self, source_id: u32, buffer: Option<Seq<Plane<'_>>>) -> Option<
        UpdateEvent,
    > {
        if self.has_stream(source_id) {
            self.stream(source_id).frame_event(buffer)
        } else {
            None
        }
    }

    /// The session once started: running, with no source known and no
    /// stream open.
    pub open spec fn started() -> SessionView {
        SessionView { running: true, sources: Set::empty(), streams: Map::empty() }
    }
}

/// The state of the protocol thread.
pub struct PipewireClient {
    running: bool,
    available_sources: SourceSet,
    streams: HashMap<u32, PipewireStream>,
}

impl View for PipewireClient {
    type V = SessionView;

    closed spec fn view(&self) -> SessionView {
        SessionView {
            running: self.running,
            sources: self.available_sources@,
            streams: self.streams@.map_values(|stream: PipewireStream| stream.state),
        }
    }
}

impl PipewireClient {
    /// Every stream is filed under its own source and listens to its peer,
    /// and a session that is not running holds no stream.
    pub closed spec fn wf(&self) -> bool {
        &&& forall|source_id: u32| #[trigger]
            self.streams@.contains_key(source_id) ==> self.streams@[source_id].source_id
                == source_id && self.streams@[source_id].accepts_callbacks()
        &&& !self.running ==> self.streams@ == Map::<u32, PipewireStream>::empty()
    }

    /// Every stream that a session holds is listening to its peer, and a
    /// session that is not running holds none.
    pub proof fn lemma_streams_listen(&self)
        requires
            self.wf(),
        ensures
            forall|source_id: u32| #[trigger]
                self@.has_stream(source_id) ==> self@.stream(source_id).accepts_callbacks(),
            !self@.running ==> self@.streams == Map::<u32, StreamState>::empty(),
    {
        assert(!self@.running ==> self@.streams =~= Map::<u32, StreamState>::empty());
    }

    /// A session that has not been started: it knows no source and holds no
    /// stream.
    pub fn init() -> (client: PipewireClient)
        ensures
            client.wf(),
            client@ == (SessionView {
                running: false,
                sources: Set::empty(),
                streams: Map::empty(),
            }),
    {
        let client = PipewireClient {
            running: false,
            available_sources: SourceSet::new(),
            streams: HashMap::new(),
        };
        assert(client@.streams =~= Map::empty());
        client
    }

    /// Tells whether the event loop is running.
    pub fn is_running(&self) -> (running: bool)
        ensures
            running == self@.running,
    {
        self.running
    }

    /// Tells whether a stream is open for the source.
    pub fn has_stream(&self, source_id: u32) -> (open: bool)
        ensures
            open == self@.has_stream(source_id),
    {
        self.streams.contains_key(&source_id)
    }

    /// The state of the source's stream, if one is open.
    pub fn stream_state(&self, source_id: u32) -> (state: Option<StreamState>)
        ensures
            state == if self@.has_stream(source_id) {
                Some(self@.streams[source_id])
            } else {
                None::<StreamState>
            },
    {
        match self.streams.get(&source_id) {
            Some(stream) => Some(stream.state),
            None => None,
        }
    }

    /// A stream for the source that waits for the format of its peer.
    pub fn create_stream(source_id: u32) -> (stream: PipewireStream)
        ensures
            stream == (PipewireStream { source_id, state: StreamState::AwaitingFormat }),
    {
        let mut stream = PipewireStream::new(source_id);
        let _ = stream.enter_tree();
        stream
    }

    /// Opens a stream for the source unless one is open already: the
    /// effect of a command to create it.
    pub fn connect_source(&mut self, source_id: u32) -> (action: SessionAction)
        requires
            old(self).wf(),
        ensures
            final(self).wf(),
            action == old(self)@.action_for(PipewireResourceNotify::spec_create_stream(source_id)),
            final(self)@ == old(self)@.after(PipewireResourceNotify::spec_create_stream(source_id)),
    {
        if !self.running || self.streams.contains_key(&source_id) {
            return SessionAction::Idle;
        }
        let ghost before = self@;
        self.streams.insert(source_id, Self::create_stream(source_id));
        assert(self@.streams =~= before.streams.insert(source_id, StreamState::AwaitingFormat));
        SessionAction::Connect { source_id }
    }

    /// Closes the stream of the source if one is open: the effect of a
    /// command to delete it.
    pub fn disconnect_source(&mut self, source_id: u32) -> (action: SessionAction)
        requires
            old(self).wf(),
        ensures
            final(self).wf(),
            action == old(self)@.action_for(PipewireResourceNotify::spec_delete_stream(source_id)),
            final(self)@ == old(self)@.after(PipewireResourceNotify::spec_delete_stream(source_id)),
    {
        if !self.running || !self.streams.contains_key(&source_id) {
            return SessionAction::Idle;
        }
        let ghost before = self@;
        if let Some(mut stream) = self.streams.remove(&source_id) {
            stream.exit_tree();
        }
        assert(self@.streams =~= before.streams.remove(source_id));
        SessionAction::Disconnect { source_id }
    }

    /// Stops the session: every stream is closed and the event loop is
    /// told to quit. A session that is not running stays as it is.
    pub fn exit_tree(&mut self) -> (action: SessionAction)
        requires
            old(self).wf(),
        ensures
            final(self).wf(),
            action == old(self)@.action_for(PipewireResourceNotify::spec_terminate()),
            final(self)@ == old(self)@.after(PipewireResourceNotify::spec_terminate()),
    {
        if !self.running {
            return SessionAction::Idle;
        }
        self.streams.clear();
        self.running = false;
        assert(self@.streams =~= Map::empty());
        SessionAction::Quit
    }

    /// Applies one command of the consumer and names the action that the
    /// event loop has to carry out for it.
    pub fn handle_command(&mut self, command: PipewireResourceNotify) -> (action: SessionAction)
        requires
            old(self).wf(),
        ensures
            final(self).wf(),
            action == old(self)@.action_for(command),
            final(self)@ == old(self)@.after(command),
    {
        match command.action {
            PipewireResourceNotifyAction::CLOSE => {
                assert(old(self)@.action_for(command) == old(self)@.action_for(
                    PipewireResourceNotify::spec_terminate(),
                ));
                self.exit_tree()
            },
            PipewireResourceNotifyAction::CREATED => match command.source_id {
                Some(source_id) => self.connect_source(source_id),
                None => SessionAction::Idle,
            },
            PipewireResourceNotifyAction::DELETED => match command.source_id {
                Some(source_id) => self.disconnect_source(source_id),
                None => SessionAction::Idle,
            },
        }
    }

    /// Runs the commands that were queued when the event loop came round,
    /// in the order in which they were sent, and names the action for each.
    pub fn process(&mut self, commands: &Vec<PipewireResourceNotify>) -> (actions: Vec<
        SessionAction,
    >)
        requires
            old(self).wf(),
        ensures
            final(self).wf(),
            actions@ == old(self)@.actions_for(commands@),
            final(self)@ == old(self)@.after_all(commands@),
    {
        let ghost start = self@;
        let mut actions: Vec<SessionAction> = Vec::with_capacity(commands.len());
        let mut i: usize = 0;
        while i < commands.len()
            invariant
                i <= commands.len(),
                self.wf(),
                self@ == start.after_all(commands@.take(i as int)),
                actions@ == start.actions_for(commands@.take(i as int)),
            decreases commands.len() - i,
        {
            assert(commands@.take(i + 1).drop_last() == commands@.take(i as int));
            let action = self.handle_command(commands[i]);
            actions.push(action);
            i = i + 1;
        }
        assert(commands@.take(i as int) == commands@);
        actions
    }

    /// Starts the session: it runs, knows no source yet, and opens a stream
    /// for every source that a texture is already waiting for, once for
    /// each. A session that is running already stays as it is.
    pub fn enter_tree(&mut self, wanted: &Vec<u32>) -> (actions: Vec<SessionAction>)
        requires
            old(self).wf(),
        ensures
            final(self).wf(),
            old(self)@.running ==> final(self)@ == old(self)@ && actions@.len() == 0,
            !old(self)@.running ==> final(self)@ == SessionView::started().after_all(
                creations(wanted@),
            ) && actions@ == SessionView::started().actions_for(creations(wanted@)),
    {
        if self.running {
            return Vec::new();
        }
        self.available_sources.clear();
        self.streams.clear();
        self.running = true;
        assert(self@.streams =~= Map::empty());
        assert(self@ == SessionView::started());
        let mut actions: Vec<SessionAction> = Vec::with_capacity(wanted.len());
        let mut i: usize = 0;
        while i < wanted.len()
            invariant
                i <= wanted.len(),
                self.wf(),
                self@ == SessionView::started().after_all(creations(wanted@.take(i as int))),
                actions@ == SessionView::started().actions_for(creations(wanted@.take(i as int))),
            decreases wanted.len() - i,
        {
            assert(creations(wanted@.take(i + 1)).drop_last() == creations(
                wanted@.take(i as int),
            ));
            let action = self.connect_source(wanted[i]);
            actions.push(action);
            i = i + 1;
        }
        assert(wanted@.take(i as int) == wanted@);
        actions
    }

    /// Takes note of a source that the registry announces, and makes the
    /// update that tells the consumer of it.
    pub fn handle_source_change(&mut self, source_id: u32) -> (update: PipewireUpdateNotify)
        requires
            old(self).wf(),
        ensures
            final(self).wf(),
            final(self)@ == (SessionView {
                sources: old(self)@.sources.insert(source_id),
                ..old(self)@
            }),
            update.wf(),
            update@ == (UpdateEvent { source_id, image: None, buffer: None }),
    {
        self.available_sources.insert(source_id);
        PipewireUpdateNotify::source_appeared(source_id)
    }

    /// Forgets a source that the registry reports as gone. Its stream, if
    /// one is open, stays until the consumer deletes it.
    pub fn handle_source_removed(&mut self, source_id: u32)
        requires
            old(self).wf(),
        ensures
            final(self).wf(),
            final(self)@ == (SessionView {
                sources: old(self)@.sources.remove(source_id),
                ..old(self)@
            }),
    {
        self.available_sources.remove(source_id);
    }

    /// The sources that the registry has announced, each once, in no
    /// particular order.
    pub fn enumerate(&self) -> (sources: Vec<u32>)
        ensures
            sources@.to_set() == self@.sources,
            sources@.no_duplicates(),
    {
        self.available_sources.enumerate()
    }

    /// Tells whether the registry has announced the source.
    pub fn knows_source(&self, source_id: u32) -> (known: bool)
        ensures
            known == self@.sources.contains(source_id),
    {
        self.available_sources.contains(source_id)
    }

    /// Hands a changed parameter to the stream of the source. Where no
    /// stream is open for it, the notice is dropped.
    pub fn on_param_changed(
        &mut self,
        source_id: u32,
        id: ParamType,
        param: Option<FormatParam>,
    ) -> (update: Option<PipewireUpdateNotify>)
        requires
            old(self).wf(),
        ensures
            final(self).wf(),
            final(self)@ == old(self)@.after_param_changed(source_id, id, param),
            update is Some <==> old(self)@.format_event(source_id, id, param) is Some,
            update is Some ==> update->0.wf() && update->0@ == old(self)@.format_event(
                source_id,
                id,
                param,
            )->0,
    {
        let mut stream: PipewireStream = match self.streams.get(&source_id) {
            Some(stream) => *stream,
            None => {
                return None;
            },
        };
        let ghost before = self@;
        let update = stream.param_changed(id, param);
        self.streams.insert(source_id, stream);
        assert(self@.streams =~= before.streams.insert(source_id, stream.state));
        assert(before.streams.insert(source_id, before.streams[source_id]) =~= before.streams);
        update
    }

    /// Hands a frame that the peer has ready to the stream of the source.
    /// Where no stream is open for it, the frame is dropped.
    pub fn on_process(&self, source_id: u32, buffer: Option<Vec<Plane<'_>>>) -> (update: Option<
        PipewireUpdateNotify,
    >)
        requires
            self.wf(),
        ensures
            update is Some <==> self@.frame_event(source_id, planes_of(buffer)) is Some,
            update is Some ==> update->0.wf() && update->0@ == self@.frame_event(
                source_id,
                planes_of(buffer),
            )->0,
    {
        match self.streams.get(&source_id) {
            Some(stream) => stream.process(buffer),
            None => None,
        }
    }
}

/// The commands that create a stream for each of the sources, in order.
pub open spec fn creations(sources: Seq<u32>) -> Seq<PipewireResourceNotify> {
    Seq::new(sources.len(), |i: int| PipewireResourceNotify::spec_create_stream(sources[i]))
}

/// A batch calls for one action for each of its commands: the action that
/// the command calls for in the session as the commands before it left it.
pub proof fn lemma_actions_follow_commands(
    session: SessionView,
    commands: Seq<PipewireResourceNotify>,
)
    ensures
        session.actions_for(commands).len() == commands.len(),
        forall|i: int|
            0 <= i < commands.len() ==> (#[trigger] session.actions_for(commands)[i])
                == session.after_all(commands.take(i)).action_for(commands[i]),
    decreases commands.len(),
{
    if commands.len() > 0 {
        let earlier = commands.drop_last();
        lemma_actions_follow_commands(session, earlier);
        assert forall|i: int| 0 <= i < commands.len() implies (#[trigger] session.actions_for(
            commands,
        )[i]) == session.after_all(commands.take(i)).action_for(commands[i]) by {
            if i < commands.len() - 1 {
                assert(earlier.take(i) == commands.take(i));
            } else {
                assert(commands.take(i) == earlier);
            }
        }
    }
}

/// A session that is not running ignores every command: it stays as it is
/// and no command calls for an action.
pub proof fn lemma_stopped_session_ignores_commands(
    session: SessionView,
    commands: Seq<PipewireResourceNotify>,
)
    requires
        !session.running,
    ensures
        session.after_all(commands) == session,
        forall|i: int|
            0 <= i < commands.len() ==> (#[trigger] session.actions_for(commands)[i])
                == SessionAction::Idle,
    decreases commands.len(),
{
    lemma_actions_follow_commands(session, commands);
    if commands.len() > 0 {
        lemma_stopped_session_ignores_commands(session, commands.drop_last());
        assert forall|i: int| 0 <= i < commands.len() implies (#[trigger] session.actions_for(
            commands,
        )[i]) == SessionAction::Idle by {
            lemma_stopped_session_ignores_commands(session, commands.take(i));
        }
    }
}

/// A session never starts to run by a command: one that has stopped in
/// the course of a batch is stopped at its end.
proof fn lemma_stopped_for_good(
    session: SessionView,
    commands: Seq<PipewireResourceNotify>,
    count: int,
)
    requires
        0 <= count <= commands.len(),
        !session.after_all(commands.take(count)).running,
    ensures
        session.after_all(commands) == session.after_all(commands.take(count)),
    decreases commands.len() - count,
{
    if count < commands.len() {
        assert(commands.take(count + 1).drop_last() == commands.take(count));
        lemma_stopped_for_good(session, commands, count + 1);
    } else {
        assert(commands.take(count) == commands);
    }
}

/// A command to terminate takes effect in the batch that holds it: the
/// session has stopped once that command is applied and stays stopped to
/// the end of the batch, a session that was running until then is told to
/// quit by that very command and is left without streams, and no later
/// command of the batch calls for anything.
pub proof fn lemma_terminate_stops_session(
    session: SessionView,
    commands: Seq<PipewireResourceNotify>,
    place: int,
)
    requires
        0 <= place < commands.len(),
        commands[place].terminates(),
    ensures
        !session.after_all(commands.take(place + 1)).running,
        !session.after_all(commands).running,
        session.after_all(commands.take(place)).running ==> session.actions_for(commands)[place]
            == SessionAction::Quit && session.after_all(commands).streams == Map::<
            u32,
            StreamState,
        >::empty(),
        forall|i: int|
            place < i < commands.len() ==> (#[trigger] session.actions_for(commands)[i])
                == SessionAction::Idle,
{
    lemma_actions_follow_commands(session, commands);
    assert(commands.take(place + 1).drop_last() == commands.take(place));
    lemma_stopped_for_good(session, commands, place + 1);
    assert forall|i: int| place < i < commands.len() implies (#[trigger] session.actions_for(
        commands,
    )[i]) == SessionAction::Idle by {
        assert(commands.take(i).take(place + 1) == commands.take(place + 1));
        lemma_stopped_for_good(session, commands.take(i), place + 1);
    }
}

/// A command to create a stream that is followed at once by the command
/// to delete it is not elided: the stream is connected and then
/// disconnected, and the session ends up with the streams it had.
pub proof fn lemma_create_then_delete(session: SessionView, source_id: u32)
    requires
        session.running,
        !session.has_stream(source_id),
    ensures
        session.action_for(PipewireResourceNotify::spec_create_stream(source_id))
            == (SessionAction::Connect { source_id }),
        session.after(PipewireResourceNotify::spec_create_stream(source_id)).action_for(
            PipewireResourceNotify::spec_delete_stream(source_id),
        ) == (SessionAction::Disconnect { source_id }),
        session.after(PipewireResourceNotify::spec_create_stream(source_id)).after(
            PipewireResourceNotify::spec_delete_stream(source_id),
        ) == session,
{
    assert(session.streams.insert(source_id, StreamState::AwaitingFormat).remove(source_id)
        =~= session.streams);
}

} // verus!
