use splatoon3_ghost_drawer::events::{EventCategory, EventSeverity};

#[test]
fn test_event_severity_comparison() {
    assert!(EventSeverity::Error > EventSeverity::Warning);
    assert!(EventSeverity::Warning > EventSeverity::Info);
    assert!(EventSeverity::Info > EventSeverity::Debug);

    assert!(EventSeverity::Error.is_at_least(EventSeverity::Warning));
    assert!(!EventSeverity::Debug.is_at_least(EventSeverity::Info));
}

#[test]
fn severity_and_category_names() {
    assert_eq!(EventSeverity::Debug.as_str(), "DEBUG");
    assert_eq!(EventSeverity::Warning.as_str(), "WARNING");
    assert!(EventSeverity::Info.is_at_least(EventSeverity::Info));
    assert_eq!(EventCategory::Artwork.as_str(), "ARTWORK");
    assert_eq!(EventCategory::Painting.as_str(), "PAINTING");
}
