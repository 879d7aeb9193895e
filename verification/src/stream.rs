//! The stream of one source: format negotiation and frame relay.
//!
//! A stream offers the peer a choice of raw video formats, waits for the
//! peer to settle on one, and from then on relays the first plane of every
//! frame. It reads the peer's answers as plain values and answers with
//! updates for the consumer; it never touches consumer state.

use vstd::prelude::*;
use crate::channels::{ImageBuffer, ImageFormat, ImageParameters, PipewireUpdateNotify, UpdateEvent};

verus! {

/// Media category of a format descriptor.
#[derive(Clone, Copy, Debug, PartialEq, Eq, Structural)]
pub enum MediaType {
    Unknown,
    Audio,
    Video,
    Image,
    Binary,
    Stream,
    Application,
}

/// Media sub-category of a format descriptor.
#[derive(Clone, Copy, Debug, PartialEq, Eq, Structural)]
pub enum MediaSubtype {
    Unknown,
    Raw,
    /// Any encoded or processed sub-category.
    Other,
}

/// Pixel formats that a stream can name to its peer.
#[allow(non_camel_case_types)]
#[derive(Clone, Copy, Debug, PartialEq, Eq, Structural)]
pub enum VideoFormat {
    /// A format that the stream never offers.
    Unknown,
    RGB,
    RGBA,
    RGBx,
    BGRx,
    YUY2,
    I420,
}

/// Kind of parameter that the peer reports as changed.
#[derive(Clone, Copy, Debug, PartialEq, Eq, Structural)]
pub enum ParamType {
    Invalid,
    PropInfo,
    Props,
    EnumFormat,
    Format,
    Buffers,
    Meta,
    IO,
    EnumProfile,
    Profile,
    EnumPortConfig,
    PortConfig,
    EnumRoute,
    Route,
    Control,
    Latency,
    ProcessLatency,
}

/// Width and height of a frame, in pixels.
#[derive(Clone, Copy, Debug, PartialEq, Eq, Structural)]
pub struct Rectangle {
    pub width: u32,
    pub height: u32,
}

/// A frame rate, in frames per `denom` seconds.
#[derive(Clone, Copy, Debug, PartialEq, Eq, Structural)]
pub struct Fraction {
    pub num: u32,
    pub denom: u32,
}

/// Smallest width or height that a stream offers to accept.
pub const MIN_DIMENSION: u32 = 1;

/// Largest width or height that a stream offers to accept.
pub const MAX_DIMENSION: u32 = 4096;

/// Width that a stream suggests to its peer.
pub const DEFAULT_WIDTH: u32 = 320;

/// Height that a stream suggests to its peer.
pub const DEFAULT_HEIGHT: u32 = 240;

/// Frame rate that a stream suggests to its peer, in frames per second.
pub const DEFAULT_FRAMERATE: u32 = 25;

/// Highest frame rate that a stream offers to accept, in frames per second.
pub const MAX_FRAMERATE: u32 = 1000;

/// The pixel formats that a stream offers, most preferred first.
pub open spec fn candidate_formats() -> Seq<VideoFormat> {
    seq![
        VideoFormat::RGB,
        VideoFormat::RGBA,
        VideoFormat::RGBx,
        VideoFormat::BGRx,
        VideoFormat::YUY2,
        VideoFormat::I420,
    ]
}

/// The offer that opens a negotiation: a media category, a list of
/// pixel formats to pick from, and ranges for frame size and frame rate,
/// each with the value suggested to the peer.
#[derive(Clone, Debug, PartialEq, Eq)]
pub struct FormatProposal {
    pub media_type: MediaType,
    pub media_subtype: MediaSubtype,
    pub default_format: VideoFormat,
    pub formats: Vec<VideoFormat>,
    pub default_size: Rectangle,
    pub min_size: Rectangle,
    pub max_size: Rectangle,
    pub default_framerate: Fraction,
    pub min_framerate: Fraction,
    pub max_framerate: Fraction,
}

impl FormatProposal {
    /// The proposal is the one that every stream makes.
    pub open spec fn is_stream_offer(&self) -> bool {
        &&& self.media_type == MediaType::Video
        &&& self.media_subtype == MediaSubtype::Raw
        &&& self.default_format == VideoFormat::RGB
        &&& self.formats@ == candidate_formats()
        &&& self.default_size == (Rectangle { width: DEFAULT_WIDTH, height: DEFAULT_HEIGHT })
        &&& self.min_size == (Rectangle { width: MIN_DIMENSION, height: MIN_DIMENSION })
        &&& self.max_size == (Rectangle { width: MAX_DIMENSION, height: MAX_DIMENSION })
        &&& self.default_framerate == (Fraction { num: DEFAULT_FRAMERATE, denom: 1 })
        &&& self.min_framerate == (Fraction { num: 0, denom: 1 })
        &&& self.max_framerate == (Fraction { num: MAX_FRAMERATE, denom: 1 })
    }

    /// The frame size lies between the smallest and the largest size offered.
    pub open spec fn admits_size(&self, size: Rectangle) -> bool {
        &&& self.min_size.width <= size.width <= self.max_size.width
        &&& self.min_size.height <= size.height <= self.max_size.height
    }
}

/// The video details of a format that the peer settled on.
#[derive(Clone, Copy, Debug, PartialEq, Eq, Structural)]
pub struct VideoInfo {
    pub format: VideoFormat,
    pub size: Rectangle,
}

/// The media category that a format descriptor names.
#[derive(Clone, Copy, Debug, PartialEq, Eq, Structural)]
pub struct MediaKind {
    pub media_type: MediaType,
    pub media_subtype: MediaSubtype,
}

/// What could be read from a format descriptor of the peer. A part that
/// could not be read is absent.
#[derive(Clone, Copy, Debug, PartialEq, Eq, Structural)]
pub struct FormatParam {
    pub media: Option<MediaKind>,
    pub video: Option<VideoInfo>,
}

/// One memory region of a frame handed over by the peer.
#[derive(Clone, Copy, Debug)]
pub struct Plane<'a> {
    /// The mapped bytes, if the region is mapped.
    pub data: Option<&'a [u8]>,
    /// The number of bytes that the peer declares valid.
    pub chunk_size: u32,
}

/// Where a stream stands in its life.
#[derive(Clone, Copy, Debug, PartialEq, Eq, Structural)]
pub enum StreamState {
    /// Made, not yet offered to the peer.
    Created,
    /// Offered; the peer has not yet settled on a format.
    AwaitingFormat,
    /// A format is settled and frames are relayed.
    Streaming,
    /// Torn down; nothing is accepted any more.
    Closed,
}

impl StreamState {
    /// How far along its life a stream in this state is. No stream ever
    /// goes back to a state of lower rank.
    pub open spec fn rank(self) -> nat {
        match self {
            StreamState::Created => 0,
            StreamState::AwaitingFormat => 1,
            StreamState::Streaming => 2,
            StreamState::Closed => 3,
        }
    }
}

/// True when both sides of the frame lie in the range that streams offer.
pub open spec fn size_in_range(size: Rectangle) -> bool {
    &&& MIN_DIMENSION <= size.width <= MAX_DIMENSION
    &&& MIN_DIMENSION <= size.height <= MAX_DIMENSION
}

/// True for the one media category that streams relay: raw video.
pub open spec fn spec_is_raw_video(media_type: MediaType, media_subtype: MediaSubtype) -> bool {
    media_type == MediaType::Video && media_subtype == MediaSubtype::Raw
}

/// The image parameters that the consumer is given for frames of `size`.
pub open spec fn parameters_for(size: Rectangle) -> ImageParameters {
    ImageParameters {
        width: size.width as i32,
        height: size.height as i32,
        has_mipmaps: false,
        format: ImageFormat::RGBA8,
    }
}

/// What a changed parameter settles: the image parameters of the format
/// that the peer chose, or nothing where the notice is no usable format.
pub open spec fn negotiated(id: ParamType, param: Option<FormatParam>) -> Option<ImageParameters> {
    match (id, param) {
        (ParamType::Format, Some(FormatParam { media: Some(kind), video: Some(info) })) => {
            if spec_is_raw_video(kind.media_type, kind.media_subtype) && size_in_range(info.size) {
                Some(parameters_for(info.size))
            } else {
                None
            }
        },
        _ => None,
    }
}

/// The bytes that a frame relays: the valid part of its first plane, or
/// nothing where the peer had no frame, the frame has no plane, the plane is
/// not mapped, or it declares more bytes valid than it holds.
pub open spec fn relayed(buffer: Option<Seq<Plane<'_>>>) -> Option<Seq<u8>> {
    if buffer is Some && buffer->0.len() > 0 && buffer->0[0].data is Some
        && buffer->0[0].chunk_size <= buffer->0[0].data->0@.len() {
        Some(buffer->0[0].data->0@.subrange(0, buffer->0[0].chunk_size as int))
    } else {
        None
    }
}

/// Tests whether a media category is raw video.
pub fn is_raw_video(media_type: MediaType, media_subtype: MediaSubtype) -> (raw: bool)
    ensures
        raw == spec_is_raw_video(media_type, media_subtype),
{
    media_type == MediaType::Video && media_subtype == MediaSubtype::Raw
}

/// The image parameters for frames of `size`, if the size is one that
/// streams offer to accept.
pub fn image_parameters(size: Rectangle) -> (image: Option<ImageParameters>)
    ensures
        image == if size_in_range(size) {
            Some(parameters_for(size))
        } else {
            None::<ImageParameters>
        },
        image is Some ==> image->0.width == size.width && image->0.height == size.height,
{
    if MIN_DIMENSION <= size.width && size.width <= MAX_DIMENSION && MIN_DIMENSION <= size.height
        && size.height <= MAX_DIMENSION {
        Some(
            ImageParameters {
                width: size.width as i32,
                height: size.height as i32,
                has_mipmaps: false,
                format: ImageFormat::RGBA8,
            },
        )
    } else {
        None
    }
}

/// Copies the first `size` bytes of `samples` into a vector of their own.
pub fn copy_prefix(samples: &[u8], size: usize) -> (copy: Vec<u8>)
    requires
        size <= samples@.len(),
    ensures
        copy@ == samples@.subrange(0, size as int),
{
    let mut copy: Vec<u8> = Vec::with_capacity(size);
    let mut i: usize = 0;
    while i < size
        invariant
            i <= size <= samples@.len(),
            copy@ == samples@.subrange(0, i as int),
        decreases size - i,
    {
        copy.push(samples[i]);
        i = i + 1;
    }
    copy
}

/// Copies the valid bytes of a frame's first plane into a buffer of their
/// own, if the frame has any to relay.
pub fn relay_frame(buffer: Option<Vec<Plane<'_>>>) -> (frame: Option<ImageBuffer>)
    ensures
        frame is Some <==> relayed(planes_of(buffer)) is Some,
        frame is Some ==> frame->0.wf() && frame->0@ == relayed(planes_of(buffer))->0,
{
    match buffer {
        None => None,
        Some(planes) => {
            if planes.len() == 0 {
                return None;
            }
            let plane: Plane<'_> = planes[0];
            match plane.data {
                None => None,
                Some(samples) => {
                    let size: usize = plane.chunk_size as usize;
                    if size > samples.len() {
                        return None;
                    }
                    Some(ImageBuffer::new(copy_prefix(samples, size)))
                },
            }
        },
    }
}

/// The planes of a dequeued frame, as a sequence.
pub open spec fn planes_of(buffer: Option<Vec<Plane<'_>>>) -> Option<Seq<Plane<'_>>> {
    match buffer {
        Some(planes) => Some(planes@),
        None => None,
    }
}

/// The negotiation and relay state of one source.
#[derive(Clone, Copy, Debug, PartialEq, Eq, Structural)]
pub struct PipewireStream {
    pub source_id: u32,
    pub state: StreamState,
}

impl PipewireStream {
    /// The stream still listens to its peer.
    pub open spec fn accepts_callbacks(self) -> bool {
        self.state == StreamState::AwaitingFormat || self.state == StreamState::Streaming
    }

    /// The update that a changed parameter makes the stream emit: the new
    /// image parameters where a listening stream is told of a usable format,
    /// nothing otherwise.
    pub open spec fn format_event(self, id: ParamType, param: Option<FormatParam>) -> Option<
        UpdateEvent,
    > {
        if self.accepts_callbacks() && negotiated(id, param) is Some {
            Some(
                UpdateEvent {
                    source_id: self.source_id,
                    image: negotiated(id, param),
                    buffer: None,
                },
            )
        } else {
            None
        }
    }

    /// The stream after a changed parameter: streaming where it emits new
    /// image parameters, as it was otherwise.
    pub open spec fn after_param_changed(
        self,
        id: ParamType,
        param: Option<FormatParam>,
    ) -> PipewireStream {
        if self.format_event(id, param) is Some {
            PipewireStream { source_id: self.source_id, state: StreamState::Streaming }
        } else {
            self
        }
    }

    /// The update that a frame makes the stream emit: the relayed bytes
    /// where the stream is streaming and the frame has any, nothing otherwise.
    pub open spec fn frame_event(self, buffer: Option<Seq<Plane<'_>>>) -> Option<UpdateEvent> {
        if self.state == StreamState::Streaming && relayed(buffer) is Some {
            Some(UpdateEvent { source_id: self.source_id, image: None, buffer: relayed(buffer) })
        } else {
            None
        }
    }

    /// A stream for `source_id` that has not yet been offered to the peer.
    pub fn new(source_id: u32) -> (stream: PipewireStream)
        ensures
            stream == (PipewireStream { source_id, state: StreamState::Created }),
    {
        PipewireStream { source_id, state: StreamState::Created }
    }

    /// The offer that opens the negotiation of every stream.
    pub fn format_proposal() -> (proposal: FormatProposal)
        ensures
            proposal.is_stream_offer(),
    {
        let mut formats: Vec<VideoFormat> = Vec::with_capacity(6);
        formats.push(VideoFormat::RGB);
        formats.push(VideoFormat::RGBA);
        formats.push(VideoFormat::RGBx);
        formats.push(VideoFormat::BGRx);
        formats.push(VideoFormat::YUY2);
        formats.push(VideoFormat::I420);
        assert(formats@ =~= candidate_formats());
        FormatProposal {
            media_type: MediaType::Video,
            media_subtype: MediaSubtype::Raw,
            default_format: VideoFormat::RGB,
            formats,
            default_size: Rectangle { width: DEFAULT_WIDTH, height: DEFAULT_HEIGHT },
            min_size: Rectangle { width: MIN_DIMENSION, height: MIN_DIMENSION },
            max_size: Rectangle { width: MAX_DIMENSION, height: MAX_DIMENSION },
            default_framerate: Fraction { num: DEFAULT_FRAMERATE, denom: 1 },
            min_framerate: Fraction { num: 0, denom: 1 },
            max_framerate: Fraction { num: MAX_FRAMERATE, denom: 1 },
        }
    }

    /// Opens the negotiation: a stream that was just made starts to wait
    /// for the peer's format and hands out the offer to send. Any other
    /// stream stays as it is and has nothing to send.
    pub fn enter_tree(&mut self) -> (proposal: Option<FormatProposal>)
        ensures
            final(self).source_id == old(self).source_id,
            old(self).state.rank() <= final(self).state.rank(),
            old(self).state == StreamState::Created ==> final(self).state
                == StreamState::AwaitingFormat && proposal is Some
                && proposal->0.is_stream_offer(),
            old(self).state != StreamState::Created ==> final(self).state == old(self).state
                && proposal is None,
    {
        if self.state == StreamState::Created {
            self.state = StreamState::AwaitingFormat;
            Some(Self::format_proposal())
        } else {
            None
        }
    }

    /// Takes note of a parameter that the peer reports as changed.
    ///
    /// A listening stream that is told of a raw video format whose frame
    /// size lies in the offered range starts (or goes on) streaming and
    /// emits the image parameters for that size. Every other notice is
    /// ignored: the stream stays as it is and nothing is emitted.
    pub fn param_changed(&mut self, id: ParamType, param: Option<FormatParam>) -> (update: Option<
        PipewireUpdateNotify,
    >)
        ensures
            *final(self) == old(self).after_param_changed(id, param),
            old(self).state.rank() <= final(self).state.rank(),
            update is Some <==> old(self).format_event(id, param) is Some,
            update is Some ==> update->0.wf() && update->0@ == old(self).format_event(id, param)->0,
    {
        if self.state != StreamState::AwaitingFormat && self.state != StreamState::Streaming {
            return None;
        }
        if id != ParamType::Format {
            return None;
        }
        let Some(param) = param else {
            return None;
        };
        let Some(kind) = param.media else {
            return None;
        };
        if !is_raw_video(kind.media_type, kind.media_subtype) {
            return None;
        }
        let Some(info) = param.video else {
            return None;
        };
        let Some(image) = image_parameters(info.size) else {
            return None;
        };
        self.state = StreamState::Streaming;
        Some(PipewireUpdateNotify::format_changed(self.source_id, image))
    }

    /// Relays one frame that the peer has ready.
    ///
    /// A streaming stream emits the valid bytes of the frame's first plane,
    /// copied into a buffer of their own. Where the stream is not streaming
    /// or the frame has nothing to relay, nothing is emitted.
    pub fn process(&self, buffer: Option<Vec<Plane<'_>>>) -> (update: Option<PipewireUpdateNotify>)
        ensures
            update is Some <==> self.frame_event(planes_of(buffer)) is Some,
            update is Some ==> update->0.wf() && update->0@ == self.frame_event(
                planes_of(buffer),
            )->0,
    {
        if self.state != StreamState::Streaming {
            return None;
        }
        match relay_frame(buffer) {
            Some(frame) => Some(PipewireUpdateNotify::frame_ready(self.source_id, frame)),
            None => None,
        }
    }

    /// Tears the stream down: from now on it accepts nothing.
    pub fn exit_tree(&mut self)
        ensures
            old(self).state.rank() <= final(self).state.rank(),
            *final(self) == (PipewireStream {
                source_id: old(self).source_id,
                state: StreamState::Closed,
            }),
    {
        self.state = StreamState::Closed;
    }
}

/// A frame size is accepted exactly when the offer of a stream admits it.
pub proof fn lemma_accepted_sizes_are_offered(proposal: FormatProposal, size: Rectangle)
    requires
        proposal.is_stream_offer(),
    ensures
        size_in_range(size) <==> proposal.admits_size(size),
{
}

/// A format whose frame size lies outside the offered range is rejected:
/// the stream emits nothing and stays in the state it was in.
pub proof fn lemma_out_of_range_rejected(
    stream: PipewireStream,
    id: ParamType,
    media: Option<MediaKind>,
    info: VideoInfo,
)
    requires
        !size_in_range(info.size),
    ensures
        stream.format_event(id, Some(FormatParam { media, video: Some(info) })) is None,
        stream.after_param_changed(id, Some(FormatParam { media, video: Some(info) })) == stream,
{
}

/// A closed stream emits nothing, whatever the peer reports.
pub proof fn lemma_closed_is_silent(
    stream: PipewireStream,
    id: ParamType,
    param: Option<FormatParam>,
    buffer: Option<Seq<Plane<'_>>>,
)
    requires
        stream.state == StreamState::Closed,
    ensures
        stream.format_event(id, param) is None,
        stream.after_param_changed(id, param) == stream,
        stream.frame_event(buffer) is None,
{
}

} // verus!
