//! Messages exchanged between the protocol thread and the consumer thread.
//!
//! Updates travel from the protocol thread to the consumer; resource
//! notifications travel the other way and drive the lifetime of streams.
//! Every message is a plain value that is moved across the channel, so the
//! sender keeps no reference to what it has sent.

use vstd::prelude::*;

verus! {

/// What the consumer asks the session to do with the stream of a source.
#[allow(non_camel_case_types)]
#[derive(Clone, Copy, Debug, PartialEq, Eq, Structural)]
pub enum PipewireResourceNotifyAction {
    /// A consumer took first interest in a source: create its stream.
    CREATED,
    /// The last consumer of a source went away: delete its stream.
    DELETED,
    /// The session is to terminate.
    CLOSE,
}

/// Pixel layout of the image that a consumer texture holds.
#[derive(Clone, Copy, Debug, PartialEq, Eq, Structural)]
pub enum ImageFormat {
    L8,
    LA8,
    R8,
    RG8,
    RGB8,
    RGBA8,
}

/// The shape of the images of one source, fixed until the next negotiation.
#[derive(Clone, Copy, Debug, PartialEq, Eq, Structural)]
pub struct ImageParameters {
    pub width: i32,
    pub height: i32,
    pub has_mipmaps: bool,
    pub format: ImageFormat,
}

/// The pixel payload of one frame, owned by whoever holds the value.
#[derive(Clone, Debug, PartialEq, Eq)]
pub struct ImageBuffer {
    pub samples: Vec<u8>,
    pub size: usize,
}

impl View for ImageBuffer {
    type V = Seq<u8>;

    /// The bytes of the frame.
    open spec fn view(&self) -> Seq<u8> {
        self.samples@
    }
}

impl ImageBuffer {
    /// The recorded size is the number of bytes held.
    pub open spec fn wf(&self) -> bool {
        self.size == self.samples@.len()
    }

    /// Wraps the bytes of a frame, recording their number.
    pub fn new(samples: Vec<u8>) -> (buffer: ImageBuffer)
        ensures
            buffer.wf(),
            buffer@ == samples@,
            buffer.samples == samples,
    {
        let size: usize = samples.len();
        ImageBuffer { samples, size }
    }
}

/// An update as the consumer sees it: the source it concerns, and what is new.
pub struct UpdateEvent {
    pub source_id: u32,
    pub image: Option<ImageParameters>,
    pub buffer: Option<Seq<u8>>,
}

impl UpdateEvent {
    /// The update only announces that the source exists.
    pub open spec fn is_source_appeared(self) -> bool {
        self.image is None && self.buffer is None
    }

    /// The update carries newly negotiated image parameters and no frame.
    pub open spec fn is_format_changed(self) -> bool {
        self.image is Some && self.buffer is None
    }

    /// The update carries the bytes of a frame and no parameters.
    pub open spec fn is_frame_ready(self) -> bool {
        self.image is None && self.buffer is Some
    }
}

/// One update from the protocol thread: a source appeared (neither field
/// set), its format changed (`image` set) or a frame is ready (`buffer` set).
#[derive(Clone, Debug, PartialEq, Eq)]
pub struct PipewireUpdateNotify {
    pub source_id: u32,
    pub image: Option<ImageParameters>,
    pub buffer: Option<ImageBuffer>,
}

impl View for PipewireUpdateNotify {
    type V = UpdateEvent;

    open spec fn view(&self) -> UpdateEvent {
        UpdateEvent {
            source_id: self.source_id,
            image: self.image,
            buffer: match self.buffer {
                Some(b) => Some(b@),
                None => None,
            },
        }
    }
}

impl PipewireUpdateNotify {
    /// Every buffer carried records its own size.
    pub open spec fn wf(&self) -> bool {
        self.buffer is Some ==> self.buffer->0.wf()
    }

    /// Tells whether the update only announces that its source exists.
    pub fn is_source_appeared(&self) -> (announces: bool)
        ensures
            announces == self@.is_source_appeared(),
    {
        self.image.is_none() && self.buffer.is_none()
    }

    /// Announces a source that appeared on the bus.
    pub fn source_appeared(source_id: u32) -> (update: PipewireUpdateNotify)
        ensures
            update.wf(),
            update@ == (UpdateEvent { source_id, image: None, buffer: None }),
    {
        PipewireUpdateNotify { source_id, image: None, buffer: None }
    }

    /// Announces the image parameters that a source's stream negotiated.
    pub fn format_changed(source_id: u32, image: ImageParameters) -> (update: PipewireUpdateNotify)
        ensures
            update.wf(),
            update@ == (UpdateEvent { source_id, image: Some(image), buffer: None }),
    {
        PipewireUpdateNotify { source_id, image: Some(image), buffer: None }
    }

    /// Hands over one frame of a source.
    pub fn frame_ready(source_id: u32, buffer: ImageBuffer) -> (update: PipewireUpdateNotify)
        ensures
            update.wf() == buffer.wf(),
            update@ == (UpdateEvent { source_id, image: None, buffer: Some(buffer@) }),
    {
        PipewireUpdateNotify { source_id, image: None, buffer: Some(buffer) }
    }
}

/// One command from the consumer thread to the session.
#[derive(Clone, Copy, Debug, PartialEq, Eq, Structural)]
pub struct PipewireResourceNotify {
    pub action: PipewireResourceNotifyAction,
    pub source_id: Option<u32>,
}

impl PipewireResourceNotify {
    /// The command that creates the stream of `source_id`.
    pub fn create_stream(source_id: u32) -> (command: PipewireResourceNotify)
        ensures
            command == Self::spec_create_stream(source_id),
    {
        PipewireResourceNotify {
            action: PipewireResourceNotifyAction::CREATED,
            source_id: Some(source_id),
        }
    }

    /// The command that deletes the stream of `source_id`.
    pub fn delete_stream(source_id: u32) -> (command: PipewireResourceNotify)
        ensures
            command == Self::spec_delete_stream(source_id),
    {
        PipewireResourceNotify {
            action: PipewireResourceNotifyAction::DELETED,
            source_id: Some(source_id),
        }
    }

    /// The command that ends the session.
    pub fn terminate() -> (command: PipewireResourceNotify)
        ensures
            command == Self::spec_terminate(),
    {
        PipewireResourceNotify { action: PipewireResourceNotifyAction::CLOSE, source_id: None }
    }

    pub open spec fn spec_create_stream(source_id: u32) -> PipewireResourceNotify {
        PipewireResourceNotify {
            action: PipewireResourceNotifyAction::CREATED,
            source_id: Some(source_id),
        }
    }

    pub open spec fn spec_delete_stream(source_id: u32) -> PipewireResourceNotify {
        PipewireResourceNotify {
            action: PipewireResourceNotifyAction::DELETED,
            source_id: Some(source_id),
        }
    }

    pub open spec fn spec_terminate() -> PipewireResourceNotify {
        PipewireResourceNotify { action: PipewireResourceNotifyAction::CLOSE, source_id: None }
    }

    /// The command asks for a stream of `source_id` to be created.
    pub open spec fn creates(self, source_id: u32) -> bool {
        self.action == PipewireResourceNotifyAction::CREATED && self.source_id == Some(source_id)
    }

    /// The command asks for the stream of `source_id` to be deleted.
    pub open spec fn deletes(self, source_id: u32) -> bool {
        self.action == PipewireResourceNotifyAction::DELETED && self.source_id == Some(source_id)
    }

    /// The command asks the session to terminate.
    pub open spec fn terminates(self) -> bool {
        self.action == PipewireResourceNotifyAction::CLOSE
    }
}

} // verus!
