use godot_pipewire::channels::{
    ImageBuffer, ImageFormat, ImageParameters, PipewireResourceNotify, PipewireUpdateNotify,
};
use godot_pipewire::client::{PipewireClient, SessionAction};
use godot_pipewire::resource::{Delivery, PipewireTexture, ResourceDirectory};

fn rgba(width: i32, height: i32) -> ImageParameters {
    ImageParameters { width, height, has_mipmaps: false, format: ImageFormat::RGBA8 }
}

fn frame(source_id: u32, samples: Vec<u8>) -> PipewireUpdateNotify {
    PipewireUpdateNotify::frame_ready(source_id, ImageBuffer::new(samples))
}

#[test]
fn new_texture_has_received_nothing() {
    let texture = PipewireTexture::init(100, 7);
    assert_eq!(texture, PipewireTexture { rid: 100, source_id: 7, image: None, data: Vec::new() });
}

#[test]
fn texture_takes_the_parameters_of_its_source() {
    let mut texture = PipewireTexture::init(100, 7);
    assert!(texture.update_from_stream(7, rgba(2, 2)));
    assert_eq!(texture.image, Some(rgba(2, 2)));
    assert!(!texture.update_from_stream(8, rgba(4, 4)));
    assert_eq!(texture.image, Some(rgba(2, 2)));
}

#[test]
fn texture_takes_the_frames_of_its_source() {
    let mut texture = PipewireTexture::init(100, 7);
    texture.update_from_stream(7, rgba(1, 1));
    assert!(texture.update_data_from_stream(7, vec![1, 2, 3, 4]));
    assert_eq!(texture.data, vec![1, 2, 3, 4]);
    assert!(!texture.update_data_from_stream(8, vec![9, 9, 9, 9]));
    assert_eq!(texture.data, vec![1, 2, 3, 4]);
    assert_eq!(texture.image, Some(rgba(1, 1)));
}

#[test]
fn texture_without_parameters_takes_no_frame() {
    let mut texture = PipewireTexture::init(100, 7);
    assert!(!texture.update_data_from_stream(7, vec![1, 2, 3, 4]));
    assert!(texture.data.is_empty());
}

#[test]
fn new_parameters_clear_the_frame() {
    let mut texture = PipewireTexture::init(100, 7);
    texture.update_from_stream(7, rgba(1, 1));
    texture.update_data_from_stream(7, vec![1, 2, 3, 4]);
    texture.update_from_stream(7, rgba(2, 1));
    assert_eq!(texture.image, Some(rgba(2, 1)));
    assert!(texture.data.is_empty());
}

#[test]
fn notification_applies_parameters_then_frame() {
    let mut texture = PipewireTexture::init(100, 7);
    texture.receive(PipewireUpdateNotify::source_appeared(7));
    assert_eq!(texture, PipewireTexture::init(100, 7));
    texture.receive(PipewireUpdateNotify::format_changed(7, rgba(1, 1)));
    texture.receive(frame(7, vec![5, 6, 7, 8]));
    texture.receive(frame(9, vec![0, 0, 0, 0]));
    assert_eq!(
        texture,
        PipewireTexture { rid: 100, source_id: 7, image: Some(rgba(1, 1)), data: vec![5, 6, 7, 8] }
    );
    let both = PipewireUpdateNotify {
        source_id: 7,
        image: Some(rgba(1, 2)),
        buffer: Some(ImageBuffer::new(vec![1, 1, 1, 1, 2, 2, 2, 2])),
    };
    texture.receive(both);
    assert_eq!(texture.image, Some(rgba(1, 2)));
    assert_eq!(texture.data, vec![1, 1, 1, 1, 2, 2, 2, 2]);
}

#[test]
fn connecting_twice_sends_one_create() {
    let mut directory = ResourceDirectory::new();
    assert_eq!(directory.connect(100, 7), Some(PipewireResourceNotify::create_stream(7)));
    assert_eq!(directory.connect(100, 7), None);
    assert!(directory.is_connected(100, 7));
    assert_eq!(directory.targets(7), vec![100]);
}

#[test]
fn second_texture_of_a_source_sends_no_create() {
    let mut directory = ResourceDirectory::new();
    assert_eq!(directory.connect(100, 7), Some(PipewireResourceNotify::create_stream(7)));
    assert_eq!(directory.connect(101, 7), None);
    assert_eq!(directory.connect(101, 8), Some(PipewireResourceNotify::create_stream(8)));
    assert_eq!(directory.targets(7), vec![100, 101]);
    assert_eq!(directory.targets(8), vec![101]);
}

#[test]
fn delete_is_sent_once_when_the_last_texture_leaves() {
    let mut directory = ResourceDirectory::new();
    directory.connect(100, 7);
    directory.connect(101, 7);
    directory.connect(102, 7);
    assert_eq!(directory.disconnect(101, 7), None);
    assert_eq!(directory.disconnect(100, 7), None);
    assert!(directory.has_interest(7));
    assert_eq!(directory.disconnect(102, 7), Some(PipewireResourceNotify::delete_stream(7)));
    assert!(!directory.has_interest(7));
    assert_eq!(directory.disconnect(102, 7), None);
    assert_eq!(directory.disconnect(100, 7), None);
}

#[test]
fn disconnecting_what_is_not_connected_sends_nothing() {
    let mut directory = ResourceDirectory::new();
    assert_eq!(directory.disconnect(100, 7), None);
    directory.connect(100, 7);
    assert_eq!(directory.disconnect(100, 8), None);
    assert_eq!(directory.disconnect(101, 7), None);
    assert!(directory.is_connected(100, 7));
}

#[test]
fn reconnecting_after_the_last_disconnect_creates_again() {
    let mut directory = ResourceDirectory::new();
    directory.connect(100, 7);
    directory.disconnect(100, 7);
    assert_eq!(directory.connect(100, 7), Some(PipewireResourceNotify::create_stream(7)));
}

#[test]
fn disconnecting_keeps_the_order_of_the_others() {
    let mut directory = ResourceDirectory::new();
    directory.connect(1, 7);
    directory.connect(2, 7);
    directory.connect(3, 7);
    directory.disconnect(2, 7);
    directory.connect(2, 7);
    assert_eq!(directory.targets(7), vec![1, 3, 2]);
}

#[test]
fn updates_reach_a_texture_in_the_order_queued() {
    let mut directory = ResourceDirectory::new();
    directory.connect(100, 1);
    directory.connect(200, 2);
    let batch = vec![frame(1, vec![1]), frame(2, vec![2]), frame(1, vec![3])];
    let routed = directory.dispatch(&batch);
    let to_first: Vec<usize> =
        routed.iter().filter(|d| d.rid == 100).map(|d| d.update).collect();
    let to_second: Vec<usize> =
        routed.iter().filter(|d| d.rid == 200).map(|d| d.update).collect();
    assert_eq!(to_first, vec![0, 2]);
    assert_eq!(to_second, vec![1]);
    assert_eq!(
        routed,
        vec![
            Delivery { rid: 100, source_id: 1, update: 0 },
            Delivery { rid: 200, source_id: 2, update: 1 },
            Delivery { rid: 100, source_id: 1, update: 2 }
        ]
    );
}

#[test]
fn updates_for_unregistered_sources_are_dropped() {
    let mut directory = ResourceDirectory::new();
    directory.connect(100, 1);
    let batch = vec![frame(9, vec![1]), PipewireUpdateNotify::source_appeared(9), frame(1, vec![3])];
    assert_eq!(directory.dispatch(&batch), vec![Delivery { rid: 100, source_id: 1, update: 2 }]);
    directory.disconnect(100, 1);
    assert_eq!(directory.dispatch(&batch), Vec::new());
    assert_eq!(directory.targets(1), Vec::<u64>::new());
}

#[test]
fn every_texture_of_a_source_gets_each_update() {
    let mut directory = ResourceDirectory::new();
    directory.connect(100, 1);
    directory.connect(101, 1);
    let batch = vec![PipewireUpdateNotify::format_changed(1, rgba(2, 2)), frame(1, vec![0; 16])];
    assert_eq!(
        directory.dispatch(&batch),
        vec![
            Delivery { rid: 100, source_id: 1, update: 0 },
            Delivery { rid: 101, source_id: 1, update: 0 },
            Delivery { rid: 100, source_id: 1, update: 1 },
            Delivery { rid: 101, source_id: 1, update: 1 }
        ]
    );
}

#[test]
fn announced_sources_become_known() {
    let mut directory = ResourceDirectory::new();
    directory.connect(100, 1);
    assert_eq!(directory.enumerate(), Vec::<u32>::new());
    let batch = vec![
        PipewireUpdateNotify::source_appeared(30),
        frame(40, vec![1]),
        PipewireUpdateNotify::source_appeared(10),
        PipewireUpdateNotify::format_changed(50, rgba(1, 1)),
        PipewireUpdateNotify::source_appeared(30),
    ];
    directory.dispatch(&batch);
    let mut sources = directory.enumerate();
    sources.sort();
    assert_eq!(sources, vec![10, 30]);
    directory.dispatch(&vec![PipewireUpdateNotify::source_appeared(20)]);
    let mut sources = directory.enumerate();
    sources.sort();
    assert_eq!(sources, vec![10, 20, 30]);
    directory.forget_sources();
    assert_eq!(directory.enumerate(), Vec::<u32>::new());
    assert!(directory.is_connected(100, 1));
}

#[test]
fn wanted_sources_name_every_registration() {
    let mut directory = ResourceDirectory::new();
    assert_eq!(directory.wanted_sources(), Vec::<u32>::new());
    directory.connect(100, 7);
    directory.connect(101, 3);
    directory.connect(102, 7);
    assert_eq!(directory.wanted_sources(), vec![7, 3, 7]);
}

#[test]
fn session_started_with_the_wanted_sources_is_in_step() {
    let mut directory = ResourceDirectory::new();
    directory.connect(100, 7);
    directory.connect(101, 3);
    directory.connect(102, 7);
    let mut client = PipewireClient::init();
    let actions = client.enter_tree(&directory.wanted_sources());
    assert_eq!(
        actions,
        vec![
            SessionAction::Connect { source_id: 7 },
            SessionAction::Connect { source_id: 3 },
            SessionAction::Idle
        ]
    );
    for source_id in 0..10 {
        assert_eq!(client.has_stream(source_id), directory.has_interest(source_id));
    }
}

#[test]
fn empty_batch_leads_to_no_delivery() {
    let mut directory = ResourceDirectory::new();
    directory.connect(100, 1);
    assert_eq!(directory.dispatch(&Vec::new()), Vec::new());
}

#[test]
fn session_holds_the_streams_that_textures_want() {
    let mut directory = ResourceDirectory::new();
    let mut client = PipewireClient::init();
    client.enter_tree(&Vec::new());
    let mut actions = Vec::new();
    let steps = [
        directory.connect(100, 1),
        directory.connect(101, 1),
        directory.connect(102, 2),
        directory.disconnect(100, 1),
        directory.disconnect(102, 2),
        directory.disconnect(101, 1),
        directory.connect(103, 3),
    ];
    for command in steps.into_iter().flatten() {
        actions.push(client.handle_command(command));
    }
    assert_eq!(
        actions,
        vec![
            SessionAction::Connect { source_id: 1 },
            SessionAction::Connect { source_id: 2 },
            SessionAction::Disconnect { source_id: 2 },
            SessionAction::Disconnect { source_id: 1 },
            SessionAction::Connect { source_id: 3 }
        ]
    );
    for source_id in 0..5 {
        assert_eq!(client.has_stream(source_id), directory.has_interest(source_id));
    }
}

#[test]
fn routed_updates_fill_the_textures() {
    let mut directory = ResourceDirectory::new();
    let mut textures = vec![PipewireTexture::init(100, 1), PipewireTexture::init(200, 2)];
    for texture in &textures {
        directory.connect(texture.rid, texture.source_id);
    }
    let batch = vec![
        PipewireUpdateNotify::format_changed(1, rgba(1, 1)),
        frame(1, vec![1, 1, 1, 1]),
        frame(2, vec![2, 2, 2, 2]),
        frame(1, vec![3, 3, 3, 3]),
    ];
    for delivery in directory.dispatch(&batch) {
        for texture in textures.iter_mut().filter(|t| t.rid == delivery.rid) {
            texture.receive(batch[delivery.update].clone());
        }
    }
    assert_eq!(textures[0].image, Some(rgba(1, 1)));
    assert_eq!(textures[0].data, vec![3, 3, 3, 3]);
    assert_eq!(textures[1].image, None);
    assert!(textures[1].data.is_empty());
}
