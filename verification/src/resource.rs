//! The consumer side: textures, and the directory that ties them to sources.
//!
//! A texture shows the frames of one source. The directory records which
//! texture wants which source, tells the session when the stream of a
//! source is first needed and when it is no longer needed, and routes every
//! update that arrives to the textures of its source.

use vstd::prelude::*;
use crate::channels::{ImageParameters, PipewireResourceNotify, PipewireUpdateNotify, UpdateEvent};
use crate::registry::SourceSet;

verus! {

/// What a texture holds, as the contracts speak of it.
pub struct TextureView {
    pub rid: u64,
    pub source_id: u32,
    pub image: Option<ImageParameters>,
    pub data: Seq<u8>,
}

impl TextureView {
    /// The texture once told of new image parameters for a source. Those
    /// of its own source replace what it had and leave it without a frame;
    /// those of another source change nothing.
    pub open spec fn with_image(self, source_id: u32, image: ImageParameters) -> TextureView {
        if source_id == self.source_id {
            TextureView { image: Some(image), data: Seq::empty(), ..self }
        } else {
            self
        }
    }

    /// The texture once handed a frame of a source. A frame of its own
    /// source becomes its data if image parameters are set; any other
    /// changes nothing.
    pub open spec fn with_data(self, source_id: u32, data: Seq<u8>) -> TextureView {
        if source_id == self.source_id && self.image is Some {
            TextureView { data, ..self }
        } else {
            self
        }
    }

    /// The texture once it has taken in an update: the image parameters
    /// first, then the frame, as far as the update carries them.
    pub open spec fn with_update(self, update: UpdateEvent) -> TextureView {
        let shaped = match update.image {
            Some(image) => self.with_image(update.source_id, image),
            None => self,
        };
        match update.buffer {
            Some(data) => shaped.with_data(update.source_id, data),
            None => shaped,
        }
    }
}

/// The consumer's image of one source.
#[derive(Clone, Debug, PartialEq, Eq)]
pub struct PipewireTexture {
    /// The handle by which the host knows the texture.
    pub rid: u64,
    /// The source whose frames the texture shows.
    pub source_id: u32,
    /// The image parameters last negotiated, if any.
    pub image: Option<ImageParameters>,
    /// The bytes of the frame last received.
    pub data: Vec<u8>,
}

impl View for PipewireTexture {
    type V = TextureView;

    open spec fn view(&self) -> TextureView {
        TextureView {
            rid: self.rid,
            source_id: self.source_id,
            image: self.image,
            data: self.data@,
        }
    }
}

impl PipewireTexture {
    /// A texture for `source_id` that has received nothing yet.
    pub fn init(rid: u64, source_id: u32) -> (texture: PipewireTexture)
        ensures
            texture@ == (TextureView { rid, source_id, image: None, data: Seq::empty() }),
    {
        PipewireTexture { rid, source_id, image: None, data: Vec::new() }
    }

    /// Takes new image parameters if they are those of the texture's
    /// source, and tells whether it did.
    pub fn update_from_stream(&mut self, source_id: u32, img: ImageParameters) -> (taken: bool)
        ensures
            final(self)@ == old(self)@.with_image(source_id, img),
            taken == (source_id == old(self).source_id),
    {
        if source_id != self.source_id {
            return false;
        }
        self.image = Some(img);
        self.data = Vec::new();
        true
    }

    /// Takes a frame if it is one of the texture's source and image
    /// parameters are set, and tells whether it did. The parameters stay
    /// as they are.
    pub fn update_data_from_stream(&mut self, source_id: u32, data: Vec<u8>) -> (taken: bool)
        ensures
            final(self)@ == old(self)@.with_data(source_id, data@),
            taken == (source_id == old(self).source_id && old(self).image is Some),
    {
        if source_id != self.source_id || self.image.is_none() {
            return false;
        }
        self.data = data;
        true
    }

    /// Takes in one update: its image parameters first, then its frame.
    pub fn receive(&mut self, update: PipewireUpdateNotify)
        ensures
            final(self)@ == old(self)@.with_update(update@),
    {
        let source_id: u32 = update.source_id;
        match update.image {
            Some(image) => {
                self.update_from_stream(source_id, image);
            },
            None => {},
        }
        match update.buffer {
            Some(buffer) => {
                self.update_data_from_stream(source_id, buffer.samples);
            },
            None => {},
        }
    }
}

/// One texture's interest in one source.
#[derive(Clone, Copy, Debug, PartialEq, Eq, Structural)]
pub struct Registration {
    pub rid: u64,
    pub source_id: u32,
}

/// One update on its way to one texture.
#[derive(Clone, Copy, Debug, PartialEq, Eq, Structural)]
pub struct Delivery {
    /// The texture that is to take the update.
    pub rid: u64,
    /// The source that the update concerns.
    pub source_id: u32,
    /// The place of the update in the batch that was drained.
    pub update: usize,
}

/// Some texture is registered for the source.
pub open spec fn interested(entries: Seq<Registration>, source_id: u32) -> bool {
    exists|i: int| 0 <= i < entries.len() && (#[trigger] entries[i]).source_id == source_id
}

/// The registrations once a texture has connected to a source: the new one
/// comes last, and one that is there already is not added again.
pub open spec fn connected(entries: Seq<Registration>, entry: Registration) -> Seq<Registration> {
    if entries.contains(entry) {
        entries
    } else {
        entries.push(entry)
    }
}

/// The command that a connection sends to the session: the stream of the
/// source is to be created if no texture was registered for it before.
pub open spec fn connect_command(entries: Seq<Registration>, entry: Registration) -> Option<
    PipewireResourceNotify,
> {
    if interested(entries, entry.source_id) {
        None
    } else {
        Some(PipewireResourceNotify::spec_create_stream(entry.source_id))
    }
}

/// The registrations once a texture has disconnected from a source: the
/// others, in the order they had.
pub open spec fn disconnected(entries: Seq<Registration>, entry: Registration) -> Seq<
    Registration,
> {
    if entries.contains(entry) {
        entries.remove(entries.index_of(entry))
    } else {
        entries
    }
}

/// The command that a disconnection sends to the session: the stream of
/// the source is to be deleted if the texture was registered for it and no
/// texture is any more.
pub open spec fn disconnect_command(entries: Seq<Registration>, entry: Registration) -> Option<
    PipewireResourceNotify,
> {
    if entries.contains(entry) && !interested(disconnected(entries, entry), entry.source_id) {
        Some(PipewireResourceNotify::spec_delete_stream(entry.source_id))
    } else {
        None
    }
}

/// The source of every registration, in order.
pub open spec fn wanted(entries: Seq<Registration>) -> Seq<u32> {
    entries.map_values(|entry: Registration| entry.source_id)
}

/// The textures registered for a source, in the order they connected.
pub open spec fn targets(entries: Seq<Registration>, source_id: u32) -> Seq<u64> {
    entries.filter(|entry: Registration| entry.source_id == source_id).map_values(
        |entry: Registration| entry.rid,
    )
}

/// The deliveries that one update leads to: one to each texture of its
/// source, in the order the textures connected.
pub open spec fn deliveries_of(entries: Seq<Registration>, update: int, source_id: u32) -> Seq<
    Delivery,
> {
    targets(entries, source_id).map_values(
        |rid: u64| Delivery { rid, source_id, update: update as usize },
    )
}

/// The deliveries that a batch of updates leads to, given the source of
/// each update: those of the first update first.
pub open spec fn deliveries(entries: Seq<Registration>, sources: Seq<u32>) -> Seq<Delivery>
    decreases sources.len(),
{
    if sources.len() == 0 {
        Seq::empty()
    } else {
        deliveries(entries, sources.drop_last()) + deliveries_of(
            entries,
            sources.len() - 1,
            sources.last(),
        )
    }
}

/// The source of each update of a batch.
pub open spec fn sources_of(updates: Seq<PipewireUpdateNotify>) -> Seq<u32> {
    updates.map_values(|update: PipewireUpdateNotify| update.source_id)
}

/// The updates of a batch, as the consumer sees them.
pub open spec fn events_of(updates: Seq<PipewireUpdateNotify>) -> Seq<UpdateEvent> {
    updates.map_values(|update: PipewireUpdateNotify| update@)
}

/// The sources that a batch of updates announces.
pub open spec fn announced(events: Seq<UpdateEvent>) -> Set<u32> {
    Set::new(
        |source_id: u32|
            exists|i: int|
                0 <= i < events.len() && (#[trigger] events[i]).source_id == source_id
                    && events[i].is_source_appeared(),
    )
}

/// The record of which sources the consumer has been told of and which
/// texture wants the frames of which source.
pub struct ResourceDirectory {
    entries: Vec<Registration>,
    known: SourceSet,
}

impl View for ResourceDirectory {
    type V = Seq<Registration>;

    /// The registrations, in the order in which they were made.
    closed spec fn view(&self) -> Seq<Registration> {
        self.entries@
    }
}

impl ResourceDirectory {
    /// The sources that the consumer has been told of.
    pub closed spec fn known_sources(&self) -> Set<u32> {
        self.known@
    }

    /// No registration is held twice.
    pub open spec fn wf(&self) -> bool {
        self@.no_duplicates()
    }

    /// A directory without registrations that knows no source.
    pub fn new() -> (directory: ResourceDirectory)
        ensures
            directory.wf(),
            directory@ == Seq::<Registration>::empty(),
            directory.known_sources() == Set::<u32>::empty(),
    {
        ResourceDirectory { entries: Vec::new(), known: SourceSet::new() }
    }

    /// The sources that the consumer has been told of, each once, in no
    /// particular order.
    pub fn enumerate(&self) -> (sources: Vec<u32>)
        ensures
            sources@.to_set() == self.known_sources(),
            sources@.no_duplicates(),
    {
        self.known.enumerate()
    }

    /// Forgets the sources that the consumer was told of. The
    /// registrations stay.
    pub fn forget_sources(&mut self)
        ensures
            final(self)@ == old(self)@,
            final(self).known_sources() == Set::<u32>::empty(),
    {
        self.known.clear();
    }

    /// The place of a registration, if it is held.
    fn position(&self, entry: Registration) -> (place: Option<usize>)
        ensures
            place is Some <==> self@.contains(entry),
            place is Some ==> place->0 < self@.len() && self@[place->0 as int] == entry,
    {
        let mut i: usize = 0;
        while i < self.entries.len()
            invariant
                i <= self.entries.len(),
                forall|j: int| 0 <= j < i ==> self@[j] != entry,
            decreases self.entries.len() - i,
        {
            if self.entries[i].rid == entry.rid && self.entries[i].source_id == entry.source_id {
                return Some(i);
            }
            i = i + 1;
        }
        None
    }

    /// Tells whether the texture is registered for the source.
    pub fn is_connected(&self, rid: u64, source_id: u32) -> (held: bool)
        ensures
            held == self@.contains(Registration { rid, source_id }),
    {
        self.position(Registration { rid, source_id }).is_some()
    }

    /// Tells whether any texture is registered for the source.
    pub fn has_interest(&self, source_id: u32) -> (any: bool)
        ensures
            any == interested(self@, source_id),
    {
        let mut i: usize = 0;
        while i < self.entries.len()
            invariant
                i <= self.entries.len(),
                forall|j: int| 0 <= j < i ==> (#[trigger] self@[j]).source_id != source_id,
            decreases self.entries.len() - i,
        {
            if self.entries[i].source_id == source_id {
                return true;
            }
            i = i + 1;
        }
        false
    }

    /// Registers a texture for a source and returns the command to send to
    /// the session, if any: the stream of the source is to be created when
    /// this is the first texture that wants it. Registering a texture that
    /// is registered already changes nothing.
    pub fn connect(&mut self, rid: u64, source_id: u32) -> (command: Option<PipewireResourceNotify>)
        requires
            old(self).wf(),
        ensures
            final(self).wf(),
            final(self).known_sources() == old(self).known_sources(),
            final(self)@ == connected(old(self)@, Registration { rid, source_id }),
            command == connect_command(old(self)@, Registration { rid, source_id }),
    {
        let entry = Registration { rid, source_id };
        let wanted: bool = self.has_interest(source_id);
        if self.position(entry).is_none() {
            self.entries.push(entry);
        }
        if wanted {
            None
        } else {
            Some(PipewireResourceNotify::create_stream(source_id))
        }
    }

    /// Removes the registration of a texture for a source and returns the
    /// command to send to the session, if any: the stream of the source is
    /// to be deleted when no texture wants it any more. Removing a
    /// registration that is not held changes nothing.
    pub fn disconnect(&mut self, rid: u64, source_id: u32) -> (command: Option<
        PipewireResourceNotify,
    >)
        requires
            old(self).wf(),
        ensures
            final(self).wf(),
            final(self).known_sources() == old(self).known_sources(),
            final(self)@ == disconnected(old(self)@, Registration { rid, source_id }),
            command == disconnect_command(old(self)@, Registration { rid, source_id }),
    {
        let entry = Registration { rid, source_id };
        match self.position(entry) {
            None => None,
            Some(place) => {
                assert(old(self)@.index_of(entry) == place);
                self.entries.remove(place);
                if self.has_interest(source_id) {
                    None
                } else {
                    Some(PipewireResourceNotify::delete_stream(source_id))
                }
            },
        }
    }

    /// The source of every registration, in the order in which the
    /// registrations were made. A source that several textures want is
    /// named once for each.
    pub fn wanted_sources(&self) -> (sources: Vec<u32>)
        ensures
            sources@ == wanted(self@),
    {
        let mut sources: Vec<u32> = Vec::with_capacity(self.entries.len());
        let mut i: usize = 0;
        while i < self.entries.len()
            invariant
                i <= self.entries.len(),
                sources@ == wanted(self@.take(i as int)),
            decreases self.entries.len() - i,
        {
            assert(wanted(self@.take(i + 1)) == wanted(self@.take(i as int)).push(
                self@[i as int].source_id,
            ));
            sources.push(self.entries[i].source_id);
            i = i + 1;
        }
        assert(self@.take(i as int) == self@);
        sources
    }

    /// The textures registered for a source, in the order they connected.
    pub fn targets(&self, source_id: u32) -> (rids: Vec<u64>)
        ensures
            rids@ == targets(self@, source_id),
    {
        let mut rids: Vec<u64> = Vec::new();
        let mut i: usize = 0;
        while i < self.entries.len()
            invariant
                i <= self.entries.len(),
                rids@ == targets(self@.take(i as int), source_id),
            decreases self.entries.len() - i,
        {
            proof {
                lemma_targets_step(self@, i as int, source_id);
            }
            if self.entries[i].source_id == source_id {
                rids.push(self.entries[i].rid);
            }
            i = i + 1;
        }
        assert(self@.take(i as int) == self@);
        rids
    }

    /// Takes in a batch of updates, drained from the channel in the order
    /// in which they were sent. The sources that the batch announces become
    /// known. Every update is routed to each texture registered for its
    /// source, and an update for a source that no texture wants is dropped.
    pub fn dispatch(&mut self, updates: &Vec<PipewireUpdateNotify>) -> (routed: Vec<Delivery>)
        ensures
            final(self)@ == old(self)@,
            final(self).known_sources() == old(self).known_sources().union(
                announced(events_of(updates@)),
            ),
            routed@ == deliveries(old(self)@, sources_of(updates@)),
    {
        let ghost sources = sources_of(updates@);
        let ghost events = events_of(updates@);
        let mut routed: Vec<Delivery> = Vec::new();
        let mut i: usize = 0;
        assert(old(self).known_sources().union(announced(events.take(0))) =~= old(
            self,
        ).known_sources());
        while i < updates.len()
            invariant
                i <= updates.len(),
                sources == sources_of(updates@),
                events == events_of(updates@),
                self@ == old(self)@,
                self.known_sources() == old(self).known_sources().union(
                    announced(events.take(i as int)),
                ),
                routed@ == deliveries(self@, sources.take(i as int)),
            decreases updates.len() - i,
        {
            let source_id: u32 = updates[i].source_id;
            proof {
                lemma_announced_step(events, i as int);
            }
            if updates[i].is_source_appeared() {
                self.known.insert(source_id);
            }
            assert(self.known_sources() =~= old(self).known_sources().union(
                announced(events.take(i + 1)),
            ));
            let rids = self.targets(source_id);
            let ghost before = routed@;
            let ghost step = deliveries_of(self@, i as int, source_id);
            let mut j: usize = 0;
            while j < rids.len()
                invariant
                    j <= rids.len(),
                    rids@ == targets(self@, source_id),
                    step == deliveries_of(self@, i as int, source_id),
                    routed@ == before + step.take(j as int),
                decreases rids.len() - j,
            {
                assert(step.take(j + 1) == step.take(j as int).push(step[j as int]));
                routed.push(Delivery { rid: rids[j], source_id, update: i });
                j = j + 1;
            }
            assert(step.take(j as int) == step);
            assert(sources.take(i + 1).drop_last() == sources.take(i as int));
            i = i + 1;
        }
        assert(sources.take(i as int) == sources);
        assert(events.take(i as int) == events);
        routed
    }
}

/// The sources announced by the first `i + 1` updates are those announced
/// by the first `i`, and the source of the next one if it is an announcement.
proof fn lemma_announced_step(events: Seq<UpdateEvent>, i: int)
    requires
        0 <= i < events.len(),
    ensures
        announced(events.take(i + 1)) == if events[i].is_source_appeared() {
            announced(events.take(i)).insert(events[i].source_id)
        } else {
            announced(events.take(i))
        },
{
    let shorter = events.take(i);
    let longer = events.take(i + 1);
    let expected = if events[i].is_source_appeared() {
        announced(shorter).insert(events[i].source_id)
    } else {
        announced(shorter)
    };
    assert forall|source_id: u32| announced(longer).contains(source_id) implies expected.contains(
        source_id,
    ) by {
        let k = choose|k: int|
            0 <= k < longer.len() && (#[trigger] longer[k]).source_id == source_id
                && longer[k].is_source_appeared();
        if k < i {
            assert(shorter[k].source_id == source_id);
        }
    }
    assert forall|source_id: u32| expected.contains(source_id) implies announced(longer).contains(
        source_id,
    ) by {
        if announced(shorter).contains(source_id) {
            let k = choose|k: int|
                0 <= k < shorter.len() && (#[trigger] shorter[k]).source_id == source_id
                    && shorter[k].is_source_appeared();
            assert(longer[k].source_id == source_id);
        } else {
            assert(longer[i].source_id == source_id);
        }
    }
    assert(announced(longer) =~= expected);
}

/// The targets among the first `i + 1` registrations are those among the
/// first `i`, followed by the texture of the next one if it is for the source.
proof fn lemma_targets_step(entries: Seq<Registration>, i: int, source_id: u32)
    requires
        0 <= i < entries.len(),
    ensures
        targets(entries.take(i + 1), source_id) == if entries[i].source_id == source_id {
            targets(entries.take(i), source_id).push(entries[i].rid)
        } else {
            targets(entries.take(i), source_id)
        },
{
    reveal(Seq::filter);
    assert(entries.take(i + 1).drop_last() == entries.take(i));
}

/// One step in the life of a directory.
#[derive(Clone, Copy, Debug, PartialEq, Eq, Structural)]
pub enum DirectoryOp {
    /// A texture connects to a source.
    Connect(Registration),
    /// A texture disconnects from a source.
    Disconnect(Registration),
}

impl DirectoryOp {
    /// The registrations after the step.
    pub open spec fn apply(self, entries: Seq<Registration>) -> Seq<Registration> {
        match self {
            DirectoryOp::Connect(entry) => connected(entries, entry),
            DirectoryOp::Disconnect(entry) => disconnected(entries, entry),
        }
    }

    /// The command that the step sends to the session, if any.
    pub open spec fn command(self, entries: Seq<Registration>) -> Option<PipewireResourceNotify> {
        match self {
            DirectoryOp::Connect(entry) => connect_command(entries, entry),
            DirectoryOp::Disconnect(entry) => disconnect_command(entries, entry),
        }
    }
}

/// The registrations after a run of steps.
pub open spec fn after_ops(start: Seq<Registration>, ops: Seq<DirectoryOp>) -> Seq<Registration>
    decreases ops.len(),
{
    if ops.len() == 0 {
        start
    } else {
        ops.last().apply(after_ops(start, ops.drop_last()))
    }
}

/// The commands that a run of steps sends to the session, in order.
pub open spec fn commands_of(start: Seq<Registration>, ops: Seq<DirectoryOp>) -> Seq<
    PipewireResourceNotify,
>
    decreases ops.len(),
{
    if ops.len() == 0 {
        Seq::empty()
    } else {
        let sent = commands_of(start, ops.drop_last());
        match ops.last().command(after_ops(start, ops.drop_last())) {
            Some(command) => sent.push(command),
            None => sent,
        }
    }
}

/// How many of the commands ask for the stream of the source to be created.
pub open spec fn created(commands: Seq<PipewireResourceNotify>, source_id: u32) -> nat {
    commands.filter(|command: PipewireResourceNotify| command.creates(source_id)).len()
}

/// How many of the commands ask for the stream of the source to be deleted.
pub open spec fn deleted(commands: Seq<PipewireResourceNotify>, source_id: u32) -> nat {
    commands.filter(|command: PipewireResourceNotify| command.deletes(source_id)).len()
}

/// One if some texture is registered for the source, zero if none is.
pub open spec fn streams_wanted(entries: Seq<Registration>, source_id: u32) -> nat {
    if interested(entries, source_id) {
        1
    } else {
        0
    }
}

/// Connecting a texture to a source a second time sends no command and
/// leaves the directory as the first connection left it. So the two
/// connections together send the command to create the stream once if no
/// texture wanted the source before, and never otherwise.
pub proof fn lemma_connect_is_idempotent(entries: Seq<Registration>, entry: Registration)
    ensures
        connected(connected(entries, entry), entry) == connected(entries, entry),
        connect_command(connected(entries, entry), entry) is None,
        connect_command(entries, entry) == if interested(entries, entry.source_id) {
            None
        } else {
            Some(PipewireResourceNotify::spec_create_stream(entry.source_id))
        },
{
    let once = connected(entries, entry);
    if entries.contains(entry) {
        let i = entries.index_of(entry);
        assert(once[i].source_id == entry.source_id);
    } else {
        assert(once[entries.len() as int] == entry);
    }
    assert(once.contains(entry));
}

/// Connecting and disconnecting keep the registrations free of duplicates.
pub proof fn lemma_ops_keep_wf(start: Seq<Registration>, ops: Seq<DirectoryOp>)
    requires
        start.no_duplicates(),
    ensures
        after_ops(start, ops).no_duplicates(),
    decreases ops.len(),
{
    if ops.len() > 0 {
        lemma_ops_keep_wf(start, ops.drop_last());
    }
}

/// A connection makes its own source wanted and changes no other.
pub proof fn lemma_interest_after_connect(entries: Seq<Registration>, entry: Registration, source_id: u32)
    ensures
        interested(connected(entries, entry), source_id) == (interested(entries, source_id)
            || entry.source_id == source_id),
{
    let next = connected(entries, entry);
    if entries.contains(entry) {
        let i = entries.index_of(entry);
        assert(entries[i].source_id == entry.source_id);
    } else {
        assert(next[entries.len() as int] == entry);
        if interested(entries, source_id) {
            let i = choose|i: int|
                0 <= i < entries.len() && (#[trigger] entries[i]).source_id == source_id;
            assert(next[i].source_id == source_id);
        }
    }
}

/// A disconnection changes the interest in no source but its own, and a
/// source that it leaves wanted was wanted before.
pub proof fn lemma_interest_after_disconnect(
    entries: Seq<Registration>,
    entry: Registration,
    source_id: u32,
)
    ensures
        interested(disconnected(entries, entry), source_id) ==> interested(entries, source_id),
        entry.source_id != source_id ==> interested(disconnected(entries, entry), source_id)
            == interested(entries, source_id),
        entries.contains(entry) ==> interested(entries, entry.source_id),
{
    let next = disconnected(entries, entry);
    if entries.contains(entry) {
        let place = entries.index_of(entry);
        assert(entries[place].source_id == entry.source_id);
        if interested(next, source_id) {
            let i = choose|i: int|
                0 <= i < next.len() && (#[trigger] next[i]).source_id == source_id;
            if i < place {
                assert(entries[i].source_id == source_id);
            } else {
                assert(entries[i + 1].source_id == source_id);
            }
        }
        if entry.source_id != source_id && interested(entries, source_id) {
            let i = choose|i: int|
                0 <= i < entries.len() && (#[trigger] entries[i]).source_id == source_id;
            if i < place {
                assert(next[i].source_id == source_id);
            } else {
                assert(next[i - 1].source_id == source_id);
            }
        }
    }
}

/// Adding a command to those sent adds one to the count of its kind for
/// its source and leaves every other count as it was.
proof fn lemma_counts_after_push(
    commands: Seq<PipewireResourceNotify>,
    command: PipewireResourceNotify,
    source_id: u32,
)
    ensures
        created(commands.push(command), source_id) == created(commands, source_id) + if command.creates(
            source_id,
        ) {
            1nat
        } else {
            0nat
        },
        deleted(commands.push(command), source_id) == deleted(commands, source_id) + if command.deletes(
            source_id,
        ) {
            1nat
        } else {
            0nat
        },
{
    reveal(Seq::filter);
    assert(commands.push(command).drop_last() == commands);
}

/// Streams are accounted for: over any run of connections and
/// disconnections, and for every source, the streams that the directory
/// asked to create, less those that it asked to delete, are the one stream
/// that is wanted at the end if any texture is registered for the source,
/// and none otherwise (counting a stream that was wanted at the start as
/// created). So whenever the last texture of a source has gone, every
/// stream created for it has been deleted, once.
pub proof fn lemma_streams_accounted(
    start: Seq<Registration>,
    ops: Seq<DirectoryOp>,
    source_id: u32,
)
    requires
        start.no_duplicates(),
    ensures
        streams_wanted(start, source_id) + created(commands_of(start, ops), source_id) == deleted(
            commands_of(start, ops),
            source_id,
        ) + streams_wanted(after_ops(start, ops), source_id),
    decreases ops.len(),
{
    if ops.len() > 0 {
        let before = after_ops(start, ops.drop_last());
        let sent = commands_of(start, ops.drop_last());
        lemma_streams_accounted(start, ops.drop_last(), source_id);
        match ops.last() {
            DirectoryOp::Connect(entry) => {
                lemma_interest_after_connect(before, entry, source_id);
                lemma_interest_after_connect(before, entry, entry.source_id);
            },
            DirectoryOp::Disconnect(entry) => {
                lemma_interest_after_disconnect(before, entry, source_id);
                lemma_interest_after_disconnect(before, entry, entry.source_id);
            },
        }
        match ops.last().command(before) {
            Some(command) => {
                lemma_counts_after_push(sent, command, source_id);
            },
            None => {},
        }
    }
}

/// What one texture is handed out of a batch for one source: the places
/// in the batch of the updates delivered to it, in the order of delivery.
pub open spec fn received(routed: Seq<Delivery>, entry: Registration) -> Seq<int> {
    routed.filter(
        |delivery: Delivery| delivery.rid == entry.rid && delivery.source_id == entry.source_id,
    ).map_values(|delivery: Delivery| delivery.update as int)
}

/// The places in a batch of the updates that concern a source, ascending.
pub open spec fn places(sources: Seq<u32>, source_id: u32) -> Seq<int>
    decreases sources.len(),
{
    if sources.len() == 0 {
        Seq::empty()
    } else if sources.last() == source_id {
        places(sources.drop_last(), source_id).push(sources.len() - 1)
    } else {
        places(sources.drop_last(), source_id)
    }
}

/// The places of a source name updates of that source, each update of the
/// source has its place among them, and they ascend.
pub proof fn lemma_places(sources: Seq<u32>, source_id: u32)
    ensures
        forall|k: int|
            0 <= k < places(sources, source_id).len() ==> 0 <= (#[trigger] places(
                sources,
                source_id,
            )[k]) < sources.len() && sources[places(sources, source_id)[k]] == source_id,
        forall|i: int|
            0 <= i < sources.len() && sources[i] == source_id ==> places(
                sources,
                source_id,
            ).contains(i),
        forall|k: int, l: int|
            0 <= k < l < places(sources, source_id).len() ==> places(sources, source_id)[k]
                < places(sources, source_id)[l],
    decreases sources.len(),
{
    if sources.len() > 0 {
        let shorter = places(sources.drop_last(), source_id);
        let all = places(sources, source_id);
        lemma_places(sources.drop_last(), source_id);
        assert forall|i: int| 0 <= i < sources.len() && sources[i] == source_id implies all.contains(
            i,
        ) by {
            if i < sources.len() - 1 {
                assert(sources.drop_last()[i] == source_id);
                let k = choose|k: int| 0 <= k < shorter.len() && shorter[k] == i;
                assert(all[k] == i);
            } else {
                assert(all[all.len() - 1] == i);
            }
        }
    }
}

/// One more delivery adds its place to what a texture receives if it is
/// addressed to that texture for that source, and nothing otherwise.
proof fn lemma_received_after_push(routed: Seq<Delivery>, delivery: Delivery, entry: Registration)
    ensures
        received(routed.push(delivery), entry) == if delivery.rid == entry.rid
            && delivery.source_id == entry.source_id {
            received(routed, entry).push(delivery.update as int)
        } else {
            received(routed, entry)
        },
{
    reveal(Seq::filter);
    assert(routed.push(delivery).drop_last() == routed);
}

/// What a texture receives from two runs of deliveries is what it receives
/// from the first, followed by what it receives from the second.
proof fn lemma_received_concat(first: Seq<Delivery>, second: Seq<Delivery>, entry: Registration)
    ensures
        received(first + second, entry) == received(first, entry) + received(second, entry),
    decreases second.len(),
{
    if second.len() == 0 {
        reveal(Seq::filter);
        assert(first + second == first);
    } else {
        lemma_received_concat(first, second.drop_last(), entry);
        lemma_received_after_push(first + second.drop_last(), second.last(), entry);
        lemma_received_after_push(second.drop_last(), second.last(), entry);
        assert((first + second.drop_last()).push(second.last()) == first + second);
        assert(second.drop_last().push(second.last()) == second);
    }
}

/// Of one update, a texture receives exactly that update if it is
/// registered for the update's source, and nothing otherwise.
proof fn lemma_received_of_update(
    entries: Seq<Registration>,
    count: int,
    update: int,
    source_id: u32,
    entry: Registration,
)
    requires
        entries.no_duplicates(),
        0 <= count <= entries.len(),
        0 <= update <= usize::MAX,
    ensures
        received(deliveries_of(entries.take(count), update, source_id), entry) == if source_id
            == entry.source_id && entries.take(count).contains(entry) {
            seq![update]
        } else {
            Seq::<int>::empty()
        },
    decreases count,
{
    reveal(Seq::filter);
    if count > 0 {
        let shorter = entries.take(count - 1);
        let last = entries[count - 1];
        lemma_received_of_update(entries, count - 1, update, source_id, entry);
        lemma_targets_step(entries, count - 1, source_id);
        let routed = deliveries_of(shorter, update, source_id);
        if last.source_id == source_id {
            let delivery = Delivery { rid: last.rid, source_id, update: update as usize };
            assert(deliveries_of(entries.take(count), update, source_id) == routed.push(delivery));
            lemma_received_after_push(routed, delivery, entry);
        }
        if entries.take(count).contains(entry) {
            let i = entries.take(count).index_of(entry);
            if i < count - 1 {
                assert(shorter[i] == entry);
            }
        }
        if shorter.contains(entry) {
            let i = shorter.index_of(entry);
            assert(entries.take(count)[i] == entry);
            assert(entries[i] == entry);
        }
        if last == entry {
            assert(entries.take(count)[count - 1] == entry);
        }
    }
}

/// Updates reach a texture in the order in which they were queued: out of
/// any batch, a texture registered for a source is delivered exactly the
/// updates that concern that source, each once and in the order of the
/// batch, however they are interleaved with the updates of other sources.
/// A texture that is not registered for the source is delivered none.
pub proof fn lemma_delivery_keeps_order(
    entries: Seq<Registration>,
    sources: Seq<u32>,
    entry: Registration,
)
    requires
        entries.no_duplicates(),
        sources.len() <= usize::MAX,
    ensures
        received(deliveries(entries, sources), entry) == if entries.contains(entry) {
            places(sources, entry.source_id)
        } else {
            Seq::<int>::empty()
        },
    decreases sources.len(),
{
    if sources.len() == 0 {
        reveal(Seq::filter);
    } else {
        let earlier = deliveries(entries, sources.drop_last());
        let latest = deliveries_of(entries, sources.len() - 1, sources.last());
        lemma_delivery_keeps_order(entries, sources.drop_last(), entry);
        lemma_received_concat(earlier, latest, entry);
        lemma_received_of_update(
            entries,
            entries.len() as int,
            sources.len() - 1,
            sources.last(),
            entry,
        );
        assert(entries.take(entries.len() as int) == entries);
    }
}

/// An update for a source that no texture is registered for is delivered
/// to nobody.
pub proof fn lemma_unwanted_update_is_dropped(
    entries: Seq<Registration>,
    update: int,
    source_id: u32,
)
    requires
        !interested(entries, source_id),
    ensures
        deliveries_of(entries, update, source_id) == Seq::<Delivery>::empty(),
{
    let wanted = entries.filter(|entry: Registration| entry.source_id == source_id);
    if wanted.len() > 0 {
        entries.lemma_filter_pred(|entry: Registration| entry.source_id == source_id, 0);
        entries.lemma_filter_contains_rev(|entry: Registration| entry.source_id == source_id, wanted[0]);
    }
}

} // verus!
