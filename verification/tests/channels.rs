use godot_pipewire::channels::{
    ImageBuffer, ImageFormat, ImageParameters, PipewireResourceNotify,
    PipewireResourceNotifyAction, PipewireUpdateNotify,
};

#[test]
fn image_buffer_records_its_size() {
    let buffer = ImageBuffer::new(vec![1, 2, 3, 4, 5]);
    assert_eq!(buffer.size, 5);
    assert_eq!(buffer.samples, vec![1, 2, 3, 4, 5]);
}

#[test]
fn empty_image_buffer_has_size_zero() {
    let buffer = ImageBuffer::new(Vec::new());
    assert_eq!(buffer.size, 0);
    assert!(buffer.samples.is_empty());
}

#[test]
fn source_appeared_carries_only_the_source() {
    let update = PipewireUpdateNotify::source_appeared(42);
    assert!(update.is_source_appeared());
    assert_eq!(update.source_id, 42);
    assert_eq!(update.image, None);
    assert_eq!(update.buffer, None);
}

#[test]
fn format_changed_carries_the_parameters() {
    let image = ImageParameters {
        width: 640,
        height: 480,
        has_mipmaps: false,
        format: ImageFormat::RGBA8,
    };
    let update = PipewireUpdateNotify::format_changed(7, image);
    assert!(!update.is_source_appeared());
    assert_eq!(update.source_id, 7);
    assert_eq!(update.image, Some(image));
    assert_eq!(update.buffer, None);
}

#[test]
fn frame_ready_carries_the_buffer() {
    let update = PipewireUpdateNotify::frame_ready(9, ImageBuffer::new(vec![10, 20, 30]));
    assert!(!update.is_source_appeared());
    assert_eq!(update.source_id, 9);
    assert_eq!(update.image, None);
    assert_eq!(update.buffer, Some(ImageBuffer { samples: vec![10, 20, 30], size: 3 }));
}

#[test]
fn commands_name_their_action_and_source() {
    assert_eq!(
        PipewireResourceNotify::create_stream(5),
        PipewireResourceNotify {
            action: PipewireResourceNotifyAction::CREATED,
            source_id: Some(5)
        }
    );
    assert_eq!(
        PipewireResourceNotify::delete_stream(5),
        PipewireResourceNotify {
            action: PipewireResourceNotifyAction::DELETED,
            source_id: Some(5)
        }
    );
    assert_eq!(
        PipewireResourceNotify::terminate(),
        PipewireResourceNotify { action: PipewireResourceNotifyAction::CLOSE, source_id: None }
    );
}
