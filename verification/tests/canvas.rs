use splatoon3_ghost_drawer::canvas::{ArtworkMetadata, Canvas, CanvasError, Dot};
use splatoon3_ghost_drawer::shared::{Color, Coordinates};

#[test]
fn test_canvas_operations() {
    let mut canvas = Canvas::new(10, 10);
    let coord = Coordinates::new(5, 5);
    let dot = Dot::black();

    assert!(canvas.set_dot(coord, dot).is_ok());
    assert!(canvas.get_dot(&coord).is_some());

    let invalid_coord = Coordinates::new(15, 15);
    let invalid_dot = Dot::white();
    assert!(canvas.set_dot(invalid_coord, invalid_dot).is_err());

    assert_eq!(canvas.dots.len(), 1);
    assert_eq!(canvas.drawable_dots().len(), 1);
    assert_eq!(canvas.painted_dots().len(), 0);
}

#[test]
fn test_dot_properties() {
    let mut dot = Dot::black();
    assert!(dot.is_drawable());
    assert!(dot.is_visible());
    assert!(!dot.is_painted);

    dot.mark_as_painted();
    assert!(!dot.is_drawable());
    assert!(dot.is_painted);
    assert!(dot.painted_at.is_some());

    dot.reset_paint_status();
    assert!(dot.is_drawable());
    assert!(!dot.is_painted);
    assert!(dot.painted_at.is_none());
}

#[test]
fn test_canvas_merge() {
    let mut canvas1 = Canvas::new(10, 10);
    let mut canvas2 = Canvas::new(5, 5);

    canvas1.set_dot(Coordinates::new(0, 0), Dot::black()).unwrap();
    canvas2.set_dot(Coordinates::new(0, 0), Dot::new(Color::red(), 255)).unwrap();

    let offset = Coordinates::new(2, 2);
    canvas1.merge(&canvas2, offset).unwrap();

    assert_eq!(canvas1.dots.len(), 2);
    assert!(canvas1.get_dot(&Coordinates::new(2, 2)).is_some());
}

#[test]
fn canvas_read_after_write_and_remove() {
    let mut canvas = Canvas::new(4, 4);
    let c = Coordinates::new(1, 2);
    canvas.set_dot(c, Dot::black()).unwrap();
    canvas.set_dot(c, Dot::new(Color::red(), 200)).unwrap();
    assert_eq!(canvas.dots.len(), 1);
    let d = canvas.get_dot(&c).unwrap();
    assert_eq!(d.color, Color::red());
    assert_eq!(d.opacity, 200);
    let removed = canvas.remove_dot(&c).unwrap();
    assert_eq!(removed.color, Color::red());
    assert!(canvas.get_dot(&c).is_none());
    assert!(canvas.remove_dot(&c).is_none());
    assert_eq!(
        canvas.set_dot(Coordinates::new(4, 0), Dot::black()),
        Err(CanvasError::OutOfBounds(Coordinates::new(4, 0)))
    );
}

#[test]
fn canvas_resize_drops_outside_dots() {
    let mut canvas = Canvas::new(10, 10);
    canvas.set_dot(Coordinates::new(1, 1), Dot::black()).unwrap();
    canvas.set_dot(Coordinates::new(8, 2), Dot::black()).unwrap();
    canvas.set_dot(Coordinates::new(2, 9), Dot::black()).unwrap();
    assert_eq!(canvas.resize(0, 5), Err(CanvasError::InvalidSize));
    assert_eq!(canvas.dots.len(), 3);
    assert!(canvas.resize(5, 5).is_ok());
    assert_eq!(canvas.width, 5);
    assert_eq!(canvas.dots.len(), 1);
    assert!(canvas.get_dot(&Coordinates::new(1, 1)).is_some());
    assert!(canvas.get_dot(&Coordinates::new(8, 2)).is_none());
}

#[test]
fn canvas_merge_skips_outside_and_stops_on_overflow() {
    let mut target = Canvas::new(5, 5);
    let mut source = Canvas::new(5, 5);
    source.set_dot(Coordinates::new(0, 0), Dot::black()).unwrap();
    source.set_dot(Coordinates::new(4, 4), Dot::white()).unwrap();
    // (4, 4) moved by (3, 3) leaves the 5x5 canvas and is skipped.
    target.merge(&source, Coordinates::new(3, 3)).unwrap();
    assert_eq!(target.dots.len(), 1);
    assert!(target.get_dot(&Coordinates::new(3, 3)).is_some());

    // An offset of 0xFFFF is -1 as i16: (0, 0) would move to (-1, -1).
    let mut other = Canvas::new(5, 5);
    let r = other.merge(&source, Coordinates::new(0xFFFF, 0xFFFF));
    assert_eq!(r, Err(CanvasError::OutOfBounds(Coordinates::new(0, 0))));
    assert_eq!(other.dots.len(), 0);
}

#[test]
fn canvas_queries() {
    let mut canvas = Canvas::splatoon3_standard();
    assert_eq!((canvas.width, canvas.height), (320, 120));
    let mut painted = Dot::black();
    painted.mark_as_painted();
    canvas.set_dot(Coordinates::new(0, 0), painted).unwrap();
    canvas.set_dot(Coordinates::new(1, 0), Dot::black()).unwrap();
    canvas.set_dot(Coordinates::new(2, 0), Dot::transparent()).unwrap();
    assert_eq!(canvas.drawable_dots().len(), 1);
    assert_eq!(canvas.painted_dots().len(), 1);
    assert_eq!(canvas.unpainted_dots().len(), 1);
    assert_eq!(canvas.get_region(Coordinates::new(1, 0), Coordinates::new(5, 5)).len(), 2);
    assert!(canvas.is_valid_coordinate(&Coordinates::new(319, 119)));
    assert!(!canvas.is_valid_coordinate(&Coordinates::new(320, 0)));
    canvas.clear();
    assert_eq!(canvas.dots.len(), 0);
}

#[test]
fn metadata_tags() {
    let mut m = ArtworkMetadata::new("Art".to_string())
        .with_tags(vec!["a".to_string(), "b".to_string()])
        .with_author("me".to_string());
    assert!(m.has_tag("a"));
    m.add_tag("c".to_string());
    m.add_tag("a".to_string());
    assert_eq!(m.tags.len(), 3);
    m.remove_tag("a");
    assert!(!m.has_tag("a"));
    assert!(m.has_tag("c"));
    assert_eq!(m.author, Some("me".to_string()));
}
