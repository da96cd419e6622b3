use splatoon3_ghost_drawer::canvas::{ArtworkMetadata, Canvas, Dot};
use splatoon3_ghost_drawer::event_stream::{DomainEvent, EventMetadata};
use splatoon3_ghost_drawer::events::{ArtworkEvent, EventCategory, EventSeverity};
use splatoon3_ghost_drawer::ids::ArtworkId;
use splatoon3_ghost_drawer::shared::{Color, Coordinates};

#[test]
fn test_artwork_event_creation() {
    let artwork_id = ArtworkId::generate();
    let metadata = ArtworkMetadata::new("Test Artwork".to_string());
    let canvas = Canvas::new(10, 10);
    let event_metadata = EventMetadata::new("test".to_string());

    let event = ArtworkEvent::artwork_created(artwork_id, metadata.clone(), "png".to_string(), &canvas, 1, event_metadata);

    assert_eq!(event.event_type(), "ArtworkCreated");
    assert_eq!(event.aggregate_id(), artwork_id.as_str());
    assert_eq!(event.version(), 1);
    assert_eq!(event.category(), EventCategory::Artwork);
    assert_eq!(event.severity(), EventSeverity::Info);
    assert!(event.should_notify_user());
}

#[test]
fn test_dot_painted_event() {
    let artwork_id = ArtworkId::generate();
    let coordinates = Coordinates::new(5, 5);
    let color = Color::red();
    let event_metadata = EventMetadata::new("test".to_string());

    let event = ArtworkEvent::dot_painted(artwork_id, coordinates, color, 1, 2, event_metadata);

    assert_eq!(event.event_type(), "DotPainted");
    assert_eq!(event.coordinates(), Some(coordinates));
    assert_eq!(event.category(), EventCategory::Painting);
    assert_eq!(event.severity(), EventSeverity::Debug);
    assert!(!event.should_notify_user());
}

#[test]
fn test_painting_error_event() {
    let artwork_id = ArtworkId::generate();
    let coordinates = Some(Coordinates::new(10, 10));
    let event_metadata = EventMetadata::new("test".to_string());

    let event = ArtworkEvent::painting_error_occurred(
        artwork_id,
        coordinates,
        "Connection lost".to_string(),
        3,
        5,
        event_metadata,
    );

    assert_eq!(event.event_type(), "PaintingErrorOccurred");
    assert_eq!(event.coordinates(), coordinates);
    assert_eq!(event.severity(), EventSeverity::Error);
    assert!(event.should_notify_user());

    let summary = event.summary("");
    assert!(summary.contains("描画エラーが発生しました"));
    assert!(summary.contains("リトライ: 3回"));
}

#[test]
fn event_summaries_are_exact() {
    let id = ArtworkId::generate();
    let m = || EventMetadata::new("t".to_string());
    let e = ArtworkEvent::dot_painted(id, Coordinates::new(3, 4), Color::red(), 7, 1, m());
    assert_eq!(e.summary(""), "ドット #7 を座標 (3, 4) に描画しました");
    let e = ArtworkEvent::painting_completed(id, 100, 300, 10, m());
    assert_eq!(e.summary(""), "描画が完了しました（100個のドット、300秒）");
    assert_eq!(e.event_type(), "PaintingCompleted");
    assert!(e.should_notify_user());
    let e = ArtworkEvent::painting_paused(id, 5, 5, 0.5f64.to_bits(), 2, m());
    assert_eq!(e.summary("50.0"), "描画を一時停止しました（進捗: 50.0%）");
    assert_eq!(e.severity(), EventSeverity::Info);
    assert!(!e.should_notify_user());
    let e = ArtworkEvent::painting_cancelled(id, 2, 0.25f64.to_bits(), "user".to_string(), 3, m());
    assert_eq!(e.summary("25.0"), "描画がキャンセルされました（進捗: 25.0%、理由: user）");
    assert_eq!(e.severity(), EventSeverity::Warning);
    let e = ArtworkEvent::artwork_deleted(id, "Old".to_string(), 4, m());
    assert_eq!(e.summary(""), "アートワーク「Old」が削除されました");
    assert_eq!(e.category(), EventCategory::Artwork);
    assert!(e.should_notify_user());
}

#[test]
fn canvas_updated_counts_dots() {
    let mut canvas = Canvas::new(4, 4);
    canvas.set_dot(Coordinates::new(0, 0), Dot::black()).unwrap();
    canvas.set_dot(Coordinates::new(1, 0), Dot::transparent()).unwrap();
    let e = ArtworkEvent::canvas_updated(ArtworkId::generate(), &canvas, 2, EventMetadata::default());
    match &e {
        ArtworkEvent::ArtworkCanvasUpdated { total_dots, drawable_dots, canvas_width, .. } => {
            assert_eq!(*total_dots, 2);
            assert_eq!(*drawable_dots, 1);
            assert_eq!(*canvas_width, 4);
        }
        _ => panic!("wrong event"),
    }
    assert_eq!(e.summary(""), "キャンバスが更新されました（描画可能ドット: 1個）");
    assert_eq!(e.metadata().source, "unknown");
}
