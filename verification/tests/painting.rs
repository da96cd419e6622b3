use splatoon3_ghost_drawer::canvas::{Canvas, Dot};
use splatoon3_ghost_drawer::controller_values::{ActionType, Button, ControllerAction, DPad};
use splatoon3_ghost_drawer::converter::ArtworkToCommandConverter;
use splatoon3_ghost_drawer::nearest::nearest_neighbor_order;
use splatoon3_ghost_drawer::painting::{
    CursorDirection, DrawingCanvasConfig, DrawingMode, DrawingPath, DrawingStrategy,
};
use splatoon3_ghost_drawer::shared::Coordinates;

fn path_distance(path: &[Coordinates]) -> u32 {
    path.windows(2).map(|w| w[0].manhattan_distance_to(&w[1])).sum()
}

#[test]
fn test_two_opt_optimize_removes_crossing() {
    let config = DrawingCanvasConfig {
        width: 100,
        height: 100,
        cursor_speed_ms: 10,
        dot_draw_delay_ms: 10,
        line_wrap_delay_ms: 10,
        drawing_mode: DrawingMode::PixelPen,
    };
    let strategy = DrawingStrategy::GreedyTwoOpt;
    let converter = ArtworkToCommandConverter::new(config, strategy);

    let path = vec![
        Coordinates::new(0, 0),
        Coordinates::new(10, 10),
        Coordinates::new(0, 10),
        Coordinates::new(10, 0),
    ];

    let optimized = converter.two_opt_optimize(path.clone());

    let original_dist = path_distance(&path);
    let optimized_dist = path_distance(&optimized);
    println!("Original distance: {}", original_dist);
    println!("Optimized distance: {}", optimized_dist);

    assert!(optimized_dist < original_dist, "Optimized path should be shorter");
    assert_eq!(optimized.len(), path.len(), "Path length should be preserved");
    assert_eq!(optimized[0], path[0], "Start point should be preserved");
}

#[test]
fn two_opt_exact_result_and_short_paths() {
    let converter = ArtworkToCommandConverter::new(DrawingCanvasConfig::default(), DrawingStrategy::GreedyTwoOpt);
    let path = vec![
        Coordinates::new(0, 0),
        Coordinates::new(10, 10),
        Coordinates::new(0, 10),
        Coordinates::new(10, 0),
    ];
    let optimized = converter.two_opt_optimize(path);
    assert_eq!(
        optimized,
        vec![Coordinates::new(0, 0), Coordinates::new(0, 10), Coordinates::new(10, 10), Coordinates::new(10, 0)]
    );
    assert_eq!(path_distance(&optimized), 30);
    let short = vec![Coordinates::new(5, 5), Coordinates::new(0, 0), Coordinates::new(9, 9)];
    assert_eq!(converter.two_opt_optimize(short.clone()), short);
    // An already optimal path comes back unchanged.
    let straight: Vec<Coordinates> = (0..6).map(|x| Coordinates::new(x, 0)).collect();
    assert_eq!(converter.two_opt_optimize(straight.clone()), straight);
}

#[test]
fn nearest_neighbor_order_example() {
    let points = vec![
        Coordinates::new(5, 5),
        Coordinates::new(0, 0),
        Coordinates::new(400, 5),
        Coordinates::new(20, 20),
        Coordinates::new(1, 0),
    ];
    let order = nearest_neighbor_order(&points);
    assert_eq!(
        order,
        vec![Coordinates::new(0, 0), Coordinates::new(1, 0), Coordinates::new(5, 5), Coordinates::new(20, 20)]
    );
    assert!(nearest_neighbor_order(&Vec::new()).is_empty());
}

#[test]
fn nearest_neighbor_prefers_nearer_ring() {
    // (9, 9) shares the bucket of (0, 0) and comes before (12, 0), which is nearer but in the next bucket.
    let points = vec![Coordinates::new(9, 9), Coordinates::new(0, 0), Coordinates::new(12, 0)];
    let order = nearest_neighbor_order(&points);
    assert_eq!(order, vec![Coordinates::new(0, 0), Coordinates::new(9, 9), Coordinates::new(12, 0)]);
}

#[test]
fn nearest_neighbor_ties_go_to_the_first_position() {
    // Equal x + y in one bucket: the first of them in the input opens the path.
    let points = vec![Coordinates::new(3, 1), Coordinates::new(1, 3), Coordinates::new(2, 2)];
    let order = nearest_neighbor_order(&points);
    assert_eq!(order, vec![Coordinates::new(3, 1), Coordinates::new(2, 2), Coordinates::new(1, 3)]);
    // Taking (0, 0) out moves (0, 1) to the front of the bucket, so it wins the
    // tie with (1, 0) at distance 1.
    let points = vec![
        Coordinates::new(0, 0),
        Coordinates::new(1, 0),
        Coordinates::new(2, 5),
        Coordinates::new(0, 1),
    ];
    let order = nearest_neighbor_order(&points);
    assert_eq!(
        order,
        vec![Coordinates::new(0, 0), Coordinates::new(0, 1), Coordinates::new(1, 0), Coordinates::new(2, 5)]
    );
    // Ties between buckets of one ring go to the earlier bucket in row-major order.
    let points = vec![Coordinates::new(20, 10), Coordinates::new(15, 15), Coordinates::new(15, 9)];
    let order = nearest_neighbor_order(&points);
    assert_eq!(order, vec![Coordinates::new(15, 9), Coordinates::new(15, 15), Coordinates::new(20, 10)]);
}

fn canvas_with(points: &[(u16, u16)]) -> Canvas {
    let mut canvas = Canvas::new(320, 120);
    for &(x, y) in points {
        canvas.set_dot(Coordinates::new(x, y), Dot::black()).unwrap();
    }
    canvas
}

#[test]
fn drawing_path_raster_and_zigzag() {
    let canvas = canvas_with(&[(1, 1), (0, 0), (2, 1), (1, 0), (0, 1)]);
    let raster = ArtworkToCommandConverter::new(DrawingCanvasConfig::default(), DrawingStrategy::RasterScan)
        .create_drawing_path(&canvas);
    assert_eq!(
        raster.coordinates,
        vec![
            Coordinates::new(0, 0),
            Coordinates::new(1, 0),
            Coordinates::new(0, 1),
            Coordinates::new(1, 1),
            Coordinates::new(2, 1)
        ]
    );
    assert_eq!(raster.total_distance, 1 + 2 + 1 + 1);
    let zigzag = ArtworkToCommandConverter::new(DrawingCanvasConfig::default(), DrawingStrategy::ZigZag)
        .create_drawing_path(&canvas);
    assert_eq!(
        zigzag.coordinates,
        vec![
            Coordinates::new(0, 0),
            Coordinates::new(1, 0),
            Coordinates::new(2, 1),
            Coordinates::new(1, 1),
            Coordinates::new(0, 1)
        ]
    );
    let spiral = ArtworkToCommandConverter::new(DrawingCanvasConfig::default(), DrawingStrategy::Spiral)
        .create_drawing_path(&canvas);
    assert_eq!(spiral.coordinates, raster.coordinates);
}

#[test]
fn drawing_path_estimated_time() {
    let canvas = canvas_with(&[(0, 0), (1, 0), (0, 1)]);
    let path = ArtworkToCommandConverter::new(DrawingCanvasConfig::default(), DrawingStrategy::RasterScan)
        .create_drawing_path(&canvas);
    assert_eq!(path.total_distance, 3);
    // 100 for the first dot, then 1*50 + 100, then 2*50 + 200 (new row) + 100.
    assert_eq!(path.estimated_time_ms, 650);
    let nn = ArtworkToCommandConverter::new(DrawingCanvasConfig::default(), DrawingStrategy::NearestNeighbor)
        .create_drawing_path(&canvas);
    assert_eq!(nn.coordinates.len(), 3);
    assert_eq!(nn.coordinates[0], Coordinates::new(0, 0));
    let empty = DrawingPath::new(Vec::new());
    assert_eq!((empty.total_distance, empty.estimated_time_ms), (0, 0));
}

#[test]
fn drawing_path_skips_painted_dots() {
    let mut canvas = canvas_with(&[(3, 3), (4, 4)]);
    let mut painted = Dot::black();
    painted.mark_as_painted();
    canvas.set_dot(Coordinates::new(3, 3), painted).unwrap();
    let path = ArtworkToCommandConverter::new(DrawingCanvasConfig::default(), DrawingStrategy::GreedyTwoOpt)
        .create_drawing_path(&canvas);
    assert_eq!(path.coordinates, vec![Coordinates::new(4, 4)]);
}

fn hat(d: DPad, ms: u32) -> ControllerAction {
    ControllerAction { action_type: ActionType::SetDPad(d), duration_ms: ms }
}

#[test]
fn move_actions_step_per_pixel() {
    let converter = ArtworkToCommandConverter::new(DrawingCanvasConfig::default(), DrawingStrategy::RasterScan);
    let actions = converter.create_move_actions(&Coordinates::new(3, 5), &Coordinates::new(1, 6));
    assert_eq!(
        actions,
        vec![hat(DPad::LEFT(), 50), hat(DPad::LEFT(), 50), hat(DPad::DOWN(), 50), hat(DPad::NEUTRAL(), 50)]
    );
    assert!(converter.create_move_actions(&Coordinates::new(3, 5), &Coordinates::new(3, 5)).is_empty());
    assert_eq!(CursorDirection::Right.to_dpad(), DPad::RIGHT());
    assert_eq!(
        CursorDirection::from_coordinates(&Coordinates::new(0, 0), &Coordinates::new(1, 1)),
        Some(CursorDirection::DownRight)
    );
    assert_eq!(CursorDirection::from_coordinates(&Coordinates::new(1, 1), &Coordinates::new(1, 1)), None);
}

#[test]
fn drawing_commands_in_batches() {
    let converter = ArtworkToCommandConverter::new(DrawingCanvasConfig::default(), DrawingStrategy::RasterScan);
    let coords: Vec<Coordinates> = (0..150).map(|i| Coordinates::new(i % 100, i / 100)).collect();
    let path = DrawingPath::new(coords);
    let commands = converter.create_drawing_commands(&path);
    assert_eq!(commands.len(), 2);
    assert_eq!(commands[0].name, "Draw Batch 1");
    assert_eq!(commands[1].name, "Draw Batch 2");
    assert_eq!(commands[0].description.as_deref(), Some("100個のドットを描画"));
    assert_eq!(commands[1].description.as_deref(), Some("50個のドットを描画"));
    // The first dot is at the origin: no move, then press and release A.
    assert_eq!(commands[0].sequence[0].action_type, ActionType::PressButton(Button::A()));
    assert_eq!(commands[0].sequence[0].duration_ms, 100);
    assert_eq!(commands[0].sequence[1].action_type, ActionType::ReleaseButton(Button::A()));
    let presses: usize = commands
        .iter()
        .map(|c| c.sequence.iter().filter(|a| a.action_type == ActionType::PressButton(Button::A())).count())
        .sum();
    assert_eq!(presses, 150);
}

#[test]
fn drawing_batches_concatenate_to_the_whole_drawing() {
    let converter = ArtworkToCommandConverter::new(DrawingCanvasConfig::default(), DrawingStrategy::RasterScan);
    let coords: Vec<Coordinates> = (0..230u16).map(|i| Coordinates::new((i * 7) % 50, i / 10)).collect();
    let path = DrawingPath::new(coords.clone());
    let commands = converter.create_drawing_commands(&path);
    assert_eq!(commands.len(), 3);
    let joined: Vec<ControllerAction> = commands.iter().flat_map(|c| c.sequence.iter().copied()).collect();
    let mut expected: Vec<ControllerAction> = Vec::new();
    let mut prev = Coordinates::new(0, 0);
    for target in &coords {
        expected.extend(converter.create_move_actions(&prev, target));
        expected.push(ControllerAction::press_button(Button::A(), DrawingCanvasConfig::default().dot_draw_delay_ms));
        expected.push(ControllerAction::release_button(Button::A(), 50));
        prev = *target;
    }
    assert_eq!(joined, expected);
}

#[test]
fn fixed_commands() {
    let converter = ArtworkToCommandConverter::new(DrawingCanvasConfig::default(), DrawingStrategy::RasterScan);
    let init = converter.create_initialization_command();
    assert_eq!(init.name, "Initialize");
    assert_eq!(init.sequence.len(), 303);
    assert_eq!(init.sequence[2], hat(DPad::UP_LEFT(), 50));
    let select = converter.create_select_drawing_mode_command();
    assert_eq!(select.name, "Select Drawing Mode");
    // The pixel pen is selected with L, pressed twice.
    assert_eq!(select.sequence.len(), 7);
    assert_eq!(select.sequence[1].action_type, ActionType::PressButton(Button::L()));
    let complete = converter.create_completion_command();
    assert_eq!(complete.name, "Complete");
    assert_eq!(complete.sequence[1].action_type, ActionType::PressButton(Button::HOME()));
    assert_eq!(complete.total_duration_ms(), 1600);
}
