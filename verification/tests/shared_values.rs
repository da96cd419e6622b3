use splatoon3_ghost_drawer::shared::{Color, Coordinates, Timestamp};

#[test]
fn test_coordinates() {
    let coord = Coordinates::new(10, 20);
    assert_eq!(coord.x, 10);
    assert_eq!(coord.y, 20);
    assert!(coord.is_within_bounds(100, 100));
    assert!(!coord.is_within_bounds(5, 5));

    let other = Coordinates::new(13, 24);
    assert_eq!(coord.manhattan_distance_to(&other), 7);

    assert_eq!(coord.display_string(), "(10, 20)");
    assert_eq!("(10, 20)".parse::<Coordinates>().unwrap(), coord);
}

#[test]
fn coordinates_parse_variants() {
    assert_eq!("((3,4))".parse::<Coordinates>().unwrap(), Coordinates::new(3, 4));
    assert_eq!(" 7 , +8 ".parse::<Coordinates>().unwrap(), Coordinates::new(7, 8));
    assert_eq!("(1, 2, 3)".parse::<Coordinates>(), Err("Invalid format. Expected (x, y)".to_string()));
    assert_eq!("(a, 2)".parse::<Coordinates>(), Err("Invalid x coordinate".to_string()));
    assert_eq!("(1, 70000)".parse::<Coordinates>(), Err("Invalid y coordinate".to_string()));
}

#[test]
fn coordinates_move_and_box() {
    let c = Coordinates::new(5, 5);
    assert_eq!(c.move_by(-5, 3), Some(Coordinates::new(0, 8)));
    assert_eq!(c.move_by(-6, 0), None);
    assert_eq!(Coordinates::new(65535, 0).move_by(1, 0), None);
    assert_eq!(Coordinates::bounding_box(&[]), None);
    let pts = [Coordinates::new(3, 9), Coordinates::new(1, 4), Coordinates::new(7, 2)];
    assert_eq!(
        Coordinates::bounding_box(&pts),
        Some((Coordinates::new(1, 2), Coordinates::new(7, 9)))
    );
    assert_eq!(Coordinates::origin(), Coordinates::new(0, 0));
}

#[test]
fn color_hex_and_text() {
    assert_eq!(Color::red().to_hex(), "#FF0000");
    assert_eq!(Color::new(1, 2, 3, 4).to_hex(), "#01020304");
    assert_eq!(Color::from_rgb(10, 20, 30).display_string(), "rgb(10, 20, 30)");
    assert_eq!(Color::new(10, 20, 30, 40).display_string(), "rgba(10, 20, 30, 40)");
    assert_eq!(Color::new(0, 100, 255, 7).invert(), Color::new(255, 155, 0, 7));
    assert_eq!(Color::transparent().a, 0);
}

#[test]
fn timestamp_arithmetic_and_text() {
    let ts = Timestamp::from_secs(1609459200);
    assert_eq!(ts.as_secs(), 1609459200);
    assert_eq!(ts.add_secs(3600).epoch_millis, 1609459200000 + 3600000);
    assert_eq!(Timestamp::from_millis(u64::MAX - 1).add_millis(10).epoch_millis, u64::MAX);
    assert_eq!(Timestamp::from_millis(12005).to_iso8601(), "1970-01-01T00:00:12.005Z");
    assert_eq!(Timestamp::from_millis(0).to_iso8601(), "1970-01-01T00:00:00.000Z");
    assert_eq!(Timestamp::from_millis(1609459200123).to_iso8601(), "2021-01-01T00:00:00.123Z");
    assert_eq!(Timestamp::from_millis(951868799999).to_iso8601(), "2000-02-29T23:59:59.999Z");
    assert_eq!(Timestamp::from_millis(4102444799999).to_iso8601(), "2099-12-31T23:59:59.999Z");
    assert_eq!(Timestamp::from_millis(253402300800000).to_iso8601(), "10000-01-01T00:00:00.000Z");
    assert!(!Timestamp::now().to_human_readable().is_empty());
    assert_eq!(Timestamp::from_millis(100).millis_until(50), 0);
    assert_eq!(Timestamp::from_millis(100).millis_until(350), 250);
    assert_eq!("42".parse::<Timestamp>().unwrap(), Timestamp::from_millis(42));
    assert!("-1".parse::<Timestamp>().is_err());
    assert_eq!(Timestamp::from_millis(42).display_string(), "42");
    assert_eq!(splatoon3_ghost_drawer::shared::human_elapsed(59), "59秒前");
    assert_eq!(splatoon3_ghost_drawer::shared::human_elapsed(120), "2分前");
    assert_eq!(splatoon3_ghost_drawer::shared::human_elapsed(7200), "2時間前");
    assert_eq!(splatoon3_ghost_drawer::shared::human_elapsed(172800), "2日前");
}

#[test]
fn color_from_hex_round_trip_and_errors() {
    let hex_color = Color::from_hex("#FF0000").unwrap();
    assert_eq!(hex_color, Color::red());
    assert_eq!(hex_color.to_hex(), "#FF0000");
    for c in [Color::new(1, 2, 3, 4), Color::from_rgb(171, 205, 239), Color::transparent()] {
        assert_eq!(Color::from_hex(&c.to_hex()).unwrap(), c);
    }
    assert_eq!(Color::from_hex("##abcdef").unwrap(), Color::from_rgb(0xab, 0xcd, 0xef));
    assert_eq!(Color::from_hex("+1+2+3").unwrap(), Color::from_rgb(1, 2, 3));
    assert_eq!(Color::from_hex("#12345"), Err("Invalid hex color format".to_string()));
    assert_eq!(Color::from_hex("#GG0000"), Err("Invalid red component".to_string()));
    assert_eq!(Color::from_hex("#00GG00"), Err("Invalid green component".to_string()));
    assert_eq!(Color::from_hex("#0000GG"), Err("Invalid blue component".to_string()));
    assert_eq!(Color::from_hex("#000000GG"), Err("Invalid alpha component".to_string()));
    // "é" takes two bytes: the red component is cut at a character boundary and refused.
    assert_eq!(Color::from_hex("é0000"), Err("Invalid red component".to_string()));
}

#[test]
fn text_round_trips() {
    for c in [Coordinates::new(0, 0), Coordinates::new(65535, 7), Coordinates::new(10, 20)] {
        assert_eq!(c.display_string().parse::<Coordinates>().unwrap(), c);
    }
    for t in [0u64, 42, u64::MAX] {
        let ts = Timestamp::from_millis(t);
        assert_eq!(ts.display_string().parse::<Timestamp>().unwrap(), ts);
    }
}
