use std::str::FromStr;
use splatoon3_ghost_drawer::artwork::Artwork;
use splatoon3_ghost_drawer::canvas::{ArtworkMetadata, Canvas, Dot};
use splatoon3_ghost_drawer::ids::{ArtworkId, EventId};
use splatoon3_ghost_drawer::shared::{Color, Coordinates};
use uuid::Uuid;

#[test]
fn test_artwork_id() {
    let id1 = ArtworkId::generate();
    let id2 = ArtworkId::generate();
    assert_ne!(id1, id2);

    let uuid = Uuid::new_v4();
    let id_from_uuid = ArtworkId::from_uuid(uuid);
    assert_eq!(id_from_uuid.as_uuid(), uuid);

    let id_str = id1.as_str();
    let id_from_str = ArtworkId::from_str(&id_str).unwrap();
    assert_eq!(id1, id_from_str);
}

#[test]
fn test_event_id() {
    let id1 = EventId::generate();
    let id2 = EventId::generate();
    assert_ne!(id1, id2);

    let uuid = Uuid::new_v4();
    let id_from_uuid = EventId::from_uuid(uuid);
    assert_eq!(id_from_uuid.as_uuid(), uuid);

    let id_str = id1.as_str();
    let id_from_str = EventId::from_str(&id_str).unwrap();
    assert_eq!(id1, id_from_str);
}

#[test]
fn uuid_text_is_lower_hex_hyphenated() {
    let uuid = Uuid::parse_str("67E55044-10B1-426F-9247-BB680E5FE0C8").unwrap();
    let id = ArtworkId::from_uuid(uuid);
    assert_eq!(id.as_str(), "67e55044-10b1-426f-9247-bb680e5fe0c8");
    let err = ArtworkId::parse("not-a-uuid").unwrap_err();
    assert!(err.starts_with("Invalid UUID format: "));
}

#[test]
fn uuid_value_carried_both_ways() {
    let v: u128 = 0x0123_4567_89ab_cdef_0011_2233_4455_6677;
    let id = EventId::from_uuid(Uuid::from_u128(v));
    assert_eq!(id.as_str(), "01234567-89ab-cdef-0011-223344556677");
    assert_eq!(id.as_uuid().as_u128(), v);
    let art = ArtworkId::from_uuid(Uuid::from_u128(v));
    assert_eq!(ArtworkId::from_uuid(art.as_uuid()), art);
}

#[test]
fn test_artwork_creation() {
    let metadata = ArtworkMetadata::new("Test Artwork".to_string())
        .with_description("A test artwork".to_string())
        .with_tags(vec!["test".to_string(), "sample".to_string()]);

    let canvas = Canvas::splatoon3_standard();
    let artwork = Artwork::new(metadata, "png".to_string(), canvas);

    assert_eq!(artwork.metadata.name, "Test Artwork");
    assert_eq!(artwork.original_format, "png");
    assert_eq!(artwork.canvas.width, 320);
    assert_eq!(artwork.canvas.height, 120);
    assert_eq!(artwork.version, 1);
}

#[test]
fn artwork_counts_dots_and_colours() {
    let metadata = ArtworkMetadata::new("Test".to_string());
    let mut canvas = Canvas::new(5, 5);
    canvas.set_dot(Coordinates::new(0, 0), Dot::black()).unwrap();
    canvas.set_dot(Coordinates::new(1, 1), Dot::white()).unwrap();
    canvas.set_dot(Coordinates::new(2, 2), Dot::new(Color::red(), 255)).unwrap();
    canvas.set_dot(Coordinates::new(3, 3), Dot::black()).unwrap();
    let mut artwork = Artwork::new(metadata, "png".to_string(), canvas);
    assert_eq!(artwork.total_dots(), 4);
    assert_eq!(artwork.drawable_dots(), 4);
    assert_eq!(artwork.painted_dot_count(), 0);
    assert_eq!(artwork.unique_color_count(), 3);
    artwork.canvas.get_dot_mut(&Coordinates::new(0, 0)).unwrap().mark_as_painted();
    assert_eq!(artwork.painted_dot_count(), 1);
    assert_eq!(artwork.drawable_dots(), 3);
    assert!(artwork.validate().is_ok());
}
