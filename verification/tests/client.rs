use godot_pipewire::channels::{
    ImageBuffer, ImageFormat, ImageParameters, PipewireResourceNotify,
    PipewireResourceNotifyAction, PipewireUpdateNotify,
};
use godot_pipewire::client::{PipewireClient, SessionAction, LOOP_BUDGET_MILLIS};
use godot_pipewire::registry::SourceSet;
use godot_pipewire::stream::{
    FormatParam, MediaKind, MediaSubtype, MediaType, ParamType, PipewireStream, Plane, Rectangle,
    StreamState, VideoFormat, VideoInfo,
};

fn running() -> PipewireClient {
    let mut client = PipewireClient::init();
    assert_eq!(client.enter_tree(&Vec::new()), Vec::new());
    client
}

fn format_of(width: u32, height: u32) -> Option<FormatParam> {
    Some(FormatParam {
        media: Some(MediaKind { media_type: MediaType::Video, media_subtype: MediaSubtype::Raw }),
        video: Some(VideoInfo { format: VideoFormat::RGBA, size: Rectangle { width, height } }),
    })
}

#[test]
fn new_session_is_idle_and_empty() {
    let client = PipewireClient::init();
    assert!(!client.is_running());
    assert_eq!(client.enumerate(), Vec::<u32>::new());
    assert!(!client.has_stream(0));
    assert_eq!(client.stream_state(0), None);
}

#[test]
fn session_that_is_not_started_ignores_commands() {
    let mut client = PipewireClient::init();
    assert_eq!(client.handle_command(PipewireResourceNotify::create_stream(1)), SessionAction::Idle);
    assert_eq!(client.connect_source(1), SessionAction::Idle);
    assert_eq!(client.handle_command(PipewireResourceNotify::terminate()), SessionAction::Idle);
    assert!(!client.has_stream(1));
    assert!(!client.is_running());
}

#[test]
fn enter_tree_starts_the_session() {
    let mut client = PipewireClient::init();
    let actions = client.enter_tree(&vec![3, 3, 5]);
    assert_eq!(
        actions,
        vec![
            SessionAction::Connect { source_id: 3 },
            SessionAction::Idle,
            SessionAction::Connect { source_id: 5 }
        ]
    );
    assert!(client.is_running());
    assert_eq!(client.stream_state(3), Some(StreamState::AwaitingFormat));
    assert_eq!(client.stream_state(5), Some(StreamState::AwaitingFormat));
    assert_eq!(client.stream_state(4), None);
}

#[test]
fn enter_tree_forgets_the_sources_of_an_earlier_run() {
    let mut client = running();
    client.handle_source_change(17);
    assert_eq!(client.exit_tree(), SessionAction::Quit);
    assert!(client.knows_source(17));
    client.enter_tree(&Vec::new());
    assert!(!client.knows_source(17));
    assert_eq!(client.enumerate(), Vec::<u32>::new());
}

#[test]
fn enter_tree_on_a_running_session_changes_nothing() {
    let mut client = running();
    assert_eq!(client.connect_source(8), SessionAction::Connect { source_id: 8 });
    client.handle_source_change(8);
    assert_eq!(client.enter_tree(&vec![9]), Vec::new());
    assert!(client.has_stream(8));
    assert!(!client.has_stream(9));
    assert!(client.knows_source(8));
}

#[test]
fn create_stream_waits_for_the_format() {
    assert_eq!(
        PipewireClient::create_stream(77),
        PipewireStream { source_id: 77, state: StreamState::AwaitingFormat }
    );
}

#[test]
fn creating_a_stream_twice_connects_once() {
    let mut client = running();
    let create = PipewireResourceNotify::create_stream(4);
    assert_eq!(client.handle_command(create), SessionAction::Connect { source_id: 4 });
    assert_eq!(client.handle_command(create), SessionAction::Idle);
    assert!(client.has_stream(4));
}

#[test]
fn deleting_a_stream_that_is_not_open_does_nothing() {
    let mut client = running();
    assert_eq!(client.handle_command(PipewireResourceNotify::delete_stream(4)), SessionAction::Idle);
    assert_eq!(client.disconnect_source(4), SessionAction::Idle);
    assert!(client.is_running());
}

#[test]
fn deleting_a_stream_disconnects_it() {
    let mut client = running();
    client.connect_source(4);
    client.connect_source(5);
    assert_eq!(
        client.handle_command(PipewireResourceNotify::delete_stream(4)),
        SessionAction::Disconnect { source_id: 4 }
    );
    assert!(!client.has_stream(4));
    assert!(client.has_stream(5));
}

#[test]
fn command_without_a_source_does_nothing() {
    let mut client = running();
    client.connect_source(1);
    let create = PipewireResourceNotify {
        action: PipewireResourceNotifyAction::CREATED,
        source_id: None,
    };
    let delete = PipewireResourceNotify {
        action: PipewireResourceNotifyAction::DELETED,
        source_id: None,
    };
    assert_eq!(client.handle_command(create), SessionAction::Idle);
    assert_eq!(client.handle_command(delete), SessionAction::Idle);
    assert!(client.has_stream(1));
}

#[test]
fn create_followed_by_delete_is_not_elided() {
    let mut client = running();
    let actions = client.process(&vec![
        PipewireResourceNotify::create_stream(6),
        PipewireResourceNotify::delete_stream(6),
    ]);
    assert_eq!(
        actions,
        vec![SessionAction::Connect { source_id: 6 }, SessionAction::Disconnect { source_id: 6 }]
    );
    assert!(!client.has_stream(6));
}

#[test]
fn terminate_stops_the_session_within_the_batch() {
    let mut client = running();
    client.connect_source(1);
    let actions = client.process(&vec![
        PipewireResourceNotify::create_stream(2),
        PipewireResourceNotify::terminate(),
        PipewireResourceNotify::create_stream(3),
        PipewireResourceNotify::delete_stream(1),
        PipewireResourceNotify::terminate(),
    ]);
    assert_eq!(
        actions,
        vec![
            SessionAction::Connect { source_id: 2 },
            SessionAction::Quit,
            SessionAction::Idle,
            SessionAction::Idle,
            SessionAction::Idle
        ]
    );
    assert!(!client.is_running());
    assert!(!client.has_stream(1));
    assert!(!client.has_stream(2));
    assert!(!client.has_stream(3));
}

#[test]
fn close_command_that_names_a_source_still_terminates() {
    let mut client = running();
    let close = PipewireResourceNotify {
        action: PipewireResourceNotifyAction::CLOSE,
        source_id: Some(3),
    };
    assert_eq!(client.handle_command(close), SessionAction::Quit);
    assert!(!client.is_running());
}

#[test]
fn empty_batch_does_nothing() {
    let mut client = running();
    assert_eq!(client.process(&Vec::new()), Vec::new());
    assert!(client.is_running());
}

#[test]
fn exit_tree_quits_once() {
    let mut client = running();
    client.connect_source(1);
    assert_eq!(client.exit_tree(), SessionAction::Quit);
    assert!(!client.is_running());
    assert!(!client.has_stream(1));
    assert_eq!(client.exit_tree(), SessionAction::Idle);
}

#[test]
fn sources_are_enumerated_once_each() {
    let mut client = running();
    assert_eq!(client.handle_source_change(30), PipewireUpdateNotify::source_appeared(30));
    assert_eq!(client.handle_source_change(10), PipewireUpdateNotify::source_appeared(10));
    assert_eq!(client.handle_source_change(30), PipewireUpdateNotify::source_appeared(30));
    assert_eq!(client.handle_source_change(20), PipewireUpdateNotify::source_appeared(20));
    let mut sources = client.enumerate();
    sources.sort();
    assert_eq!(sources, vec![10, 20, 30]);
    assert!(client.knows_source(10));
    assert!(!client.knows_source(11));
}

#[test]
fn removed_source_is_forgotten_but_its_stream_stays() {
    let mut client = running();
    client.handle_source_change(10);
    client.handle_source_change(20);
    client.connect_source(10);
    client.handle_source_removed(10);
    client.handle_source_removed(99);
    assert_eq!(client.enumerate(), vec![20]);
    assert!(client.has_stream(10));
}

#[test]
fn format_goes_to_the_stream_of_its_source() {
    let mut client = running();
    client.connect_source(1);
    client.connect_source(2);
    let update = client.on_param_changed(2, ParamType::Format, format_of(1280, 720));
    let image = ImageParameters {
        width: 1280,
        height: 720,
        has_mipmaps: false,
        format: ImageFormat::RGBA8,
    };
    assert_eq!(update, Some(PipewireUpdateNotify::format_changed(2, image)));
    assert_eq!(client.stream_state(2), Some(StreamState::Streaming));
    assert_eq!(client.stream_state(1), Some(StreamState::AwaitingFormat));
}

#[test]
fn rejected_format_leaves_the_stream_waiting() {
    let mut client = running();
    client.connect_source(2);
    assert_eq!(client.on_param_changed(2, ParamType::Format, format_of(8192, 720)), None);
    assert_eq!(client.on_param_changed(2, ParamType::Props, format_of(1280, 720)), None);
    assert_eq!(client.stream_state(2), Some(StreamState::AwaitingFormat));
}

#[test]
fn callbacks_for_a_source_without_stream_are_dropped() {
    let mut client = running();
    let samples = [1u8, 2, 3];
    assert_eq!(client.on_param_changed(5, ParamType::Format, format_of(640, 480)), None);
    assert_eq!(client.on_process(5, Some(vec![Plane { data: Some(&samples), chunk_size: 3 }])), None);
    assert!(!client.has_stream(5));
}

#[test]
fn frame_goes_out_under_the_source_of_its_stream() {
    let mut client = running();
    client.connect_source(1);
    client.connect_source(2);
    client.on_param_changed(2, ParamType::Format, format_of(2, 1));
    let samples = [1u8, 2, 3, 4, 5, 6, 7, 8, 0, 0];
    let update = client.on_process(2, Some(vec![Plane { data: Some(&samples), chunk_size: 8 }]));
    assert_eq!(
        update,
        Some(PipewireUpdateNotify::frame_ready(2, ImageBuffer::new(vec![1, 2, 3, 4, 5, 6, 7, 8])))
    );
    let update = client.on_process(1, Some(vec![Plane { data: Some(&samples), chunk_size: 8 }]));
    assert_eq!(update, None);
}

#[test]
fn deleted_stream_takes_no_more_callbacks() {
    let mut client = running();
    client.connect_source(2);
    client.on_param_changed(2, ParamType::Format, format_of(2, 1));
    client.disconnect_source(2);
    let samples = [1u8, 2, 3];
    assert_eq!(client.on_process(2, Some(vec![Plane { data: Some(&samples), chunk_size: 3 }])), None);
    assert_eq!(client.on_param_changed(2, ParamType::Format, format_of(2, 1)), None);
}

#[test]
fn recreated_stream_negotiates_anew() {
    let mut client = running();
    client.connect_source(2);
    client.on_param_changed(2, ParamType::Format, format_of(2, 1));
    client.disconnect_source(2);
    assert_eq!(client.connect_source(2), SessionAction::Connect { source_id: 2 });
    assert_eq!(client.stream_state(2), Some(StreamState::AwaitingFormat));
}

#[test]
fn loop_budget_is_five_milliseconds() {
    assert_eq!(LOOP_BUDGET_MILLIS, 5);
}

#[test]
fn source_set_holds_each_source_once() {
    let mut sources = SourceSet::new();
    assert!(sources.insert(4));
    assert!(!sources.insert(4));
    assert!(sources.insert(9));
    assert!(sources.contains(4));
    assert!(!sources.contains(5));
    let mut all = sources.enumerate();
    all.sort();
    assert_eq!(all, vec![4, 9]);
    assert!(sources.remove(4));
    assert!(!sources.remove(4));
    assert_eq!(sources.enumerate(), vec![9]);
    sources.clear();
    assert_eq!(sources.enumerate(), Vec::<u32>::new());
}
