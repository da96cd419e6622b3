//! Turns a canvas into controller commands that draw it.

use vstd::prelude::*;
use crate::controller_values;
use crate::controller_values::{ActionType, Button, ControllerAction, ControllerCommand, DPad};
use crate::painting;
use crate::painting::{CursorDirection, DrawingCanvasConfig, DrawingPath, DrawingStrategy};
use crate::shared::Coordinates;
use crate::text;
use crate::canvas::{Canvas, Dot, DotSelector};
use crate::canvas;
use crate::nearest;
use crate::ordering;
use crate::two_opt;
use crate::artwork::Artwork;

verus! {

/// Holds the hat at `hat` for `ms` milliseconds.
pub open spec fn hat_action(hat: u8, ms: u32) -> ControllerAction {
    ControllerAction { action_type: ActionType::SetDPad(DPad::from_bits_spec(hat)), duration_ms: ms }
}

/// Presses the button with bits `bits` for `ms` milliseconds.
pub open spec fn press_action(bits: u16, ms: u32) -> ControllerAction {
    ControllerAction { action_type: ActionType::PressButton(Button::new_spec(bits)), duration_ms: ms }
}

/// Releases the button with bits `bits`, then waits `ms` milliseconds.
pub open spec fn release_action(bits: u16, ms: u32) -> ControllerAction {
    ControllerAction { action_type: ActionType::ReleaseButton(Button::new_spec(bits)), duration_ms: ms }
}

pub open spec fn wait_action(ms: u32) -> ControllerAction {
    ControllerAction { action_type: ActionType::Wait, duration_ms: ms }
}

/// The cursor moves from `from` to `to`: first one hat step per pixel along x
/// (right 2, left 6), then along y (down 4, up 0), each held `speed` ms, and a
/// 50 ms return to neutral when there was any step.
pub open spec fn move_actions(from: Coordinates, to: Coordinates, speed: u32) -> Seq<ControllerAction> {
    let xs = Seq::new(
        crate::shared::abs_diff(from.x as int, to.x as int),
        |i: int| hat_action(if to.x > from.x { 2u8 } else { 6u8 }, speed),
    );
    let ys = Seq::new(
        crate::shared::abs_diff(from.y as int, to.y as int),
        |i: int| hat_action(if to.y > from.y { 4u8 } else { 0u8 }, speed),
    );
    if xs.len() + ys.len() == 0 { Seq::empty() } else { xs + ys + seq![hat_action(8, 50)] }
}

/// The initial command: wait 2 s, neutral, 150 up-left pulses to reach the
/// top-left corner, then a long neutral.
pub open spec fn initialization_actions() -> Seq<ControllerAction> {
    seq![wait_action(2000), hat_action(8, 100)]
        + Seq::new(300, |i: int| if i % 2 == 0 { hat_action(7, 50) } else { hat_action(8, 50) })
        + seq![hat_action(8, 500)]
}

/// The pen selection: wait, press the pen button (twice for the pixel pen),
/// then wait.
pub open spec fn select_mode_actions(bits: u16) -> Seq<ControllerAction> {
    if bits == 0x0010 {
        seq![wait_action(500), press_action(0x0010, 200), release_action(0x0010, 300), wait_action(500),
            press_action(0x0010, 200), release_action(0x0010, 300), wait_action(1000)]
    } else {
        seq![wait_action(500), press_action(bits, 200), release_action(bits, 300), wait_action(1000)]
    }
}

/// What the pen selection does: it only waits and presses and releases the
/// pen's own button (L for the pixel pen, R for the normal pen, ZL for the
/// thick pen, ZR for the eraser), each press released right after it; the
/// pixel pen is pressed twice, every other pen once.
pub proof fn lemma_pen_selection(c: ControllerCommand, m: painting::DrawingMode)
    requires
        c.sequence@ == select_mode_actions(painting::mode_button_bits(m)),
    ensures
        ({
            let acts = c.sequence@;
            let pen: u16 = match m {
                painting::DrawingMode::PixelPen => 0x0010u16,
                painting::DrawingMode::NormalPen => 0x0020u16,
                painting::DrawingMode::ThickPen => 0x0040u16,
                painting::DrawingMode::Eraser => 0x0080u16,
            };
            &&& forall|i: int| 0 <= i < acts.len() ==> (#[trigger] acts[i]).action_type is Wait
                || acts[i].action_type is PressButton || acts[i].action_type is ReleaseButton
            &&& forall|i: int| 0 <= i < acts.len() ==> ((#[trigger] acts[i]).action_type matches ActionType::PressButton(b)
                ==> b.bits() == pen && i + 1 < acts.len()
                    && acts[i + 1].action_type == ActionType::ReleaseButton(b))
            &&& forall|i: int| 0 <= i < acts.len() ==> ((#[trigger] acts[i]).action_type matches ActionType::ReleaseButton(b)
                ==> b.bits() == pen)
            &&& exists|i: int| 0 <= i < acts.len() && (#[trigger] acts[i]).action_type is PressButton
            &&& m == painting::DrawingMode::PixelPen ==> exists|i: int, j: int| 0 <= i < j < acts.len()
                && (#[trigger] acts[i]).action_type is PressButton && (#[trigger] acts[j]).action_type is PressButton
            &&& m != painting::DrawingMode::PixelPen ==> forall|i: int, j: int| 0 <= i < acts.len() && 0 <= j < acts.len()
                && (#[trigger] acts[i]).action_type is PressButton && (#[trigger] acts[j]).action_type is PressButton
                ==> i == j
        }),
{
    let acts = c.sequence@;
    let bits = painting::mode_button_bits(m);
    Button::lemma_new(bits);
    assert(acts[1].action_type is PressButton);
    if m == painting::DrawingMode::PixelPen {
        assert(acts[4].action_type is PressButton);
    }
}

/// The final command: wait, then press and release HOME.
pub open spec fn completion_actions() -> Seq<ControllerAction> {
    seq![wait_action(1000), press_action(0x1000, 100), release_action(0x1000, 500)]
}

/// Moves from `start` through `targets`, painting each with the A button.
pub open spec fn draw_actions(start: Coordinates, targets: Seq<Coordinates>, cfg: DrawingCanvasConfig) -> Seq<ControllerAction>
    decreases targets.len(),
{
    if targets.len() == 0 {
        Seq::empty()
    } else {
        let prev = if targets.len() > 1 { targets[targets.len() - 2] } else { start };
        draw_actions(start, targets.drop_last(), cfg) + move_actions(prev, targets.last(), cfg.cursor_speed_ms)
            + seq![press_action(0x0004, cfg.dot_draw_delay_ms), release_action(0x0004, 50)]
    }
}

/// Number of drawing commands for `n` dots.
pub open spec fn batch_count(n: nat) -> nat {
    (n + 99) / 100
}

/// The dots of batch `k`.
pub open spec fn batch(path: Seq<Coordinates>, k: nat) -> Seq<Coordinates> {
    let lo = k * 100;
    let hi: int = if lo + 100 <= path.len() { (lo + 100) as int } else { path.len() as int };
    path.subrange(lo as int, hi)
}

/// Where the cursor is when batch `k` starts.
pub open spec fn batch_start(path: Seq<Coordinates>, k: nat) -> Coordinates {
    if k == 0 { Coordinates { x: 0, y: 0 } } else { path[k * 100 - 1] }
}

/// Whether `cmd` is the drawing command for batch `k` of `path`.
pub open spec fn is_batch_command(cmd: ControllerCommand, path: Seq<Coordinates>, k: nat, cfg: DrawingCanvasConfig) -> bool {
    &&& cmd.name@ == "Draw Batch "@ + text::decimal(k + 1)
    &&& cmd.description matches Some(d) && d@ == text::decimal(batch(path, k).len()) + "個のドットを描画"@
    &&& cmd.sequence@ == draw_actions(batch_start(path, k), batch(path, k), cfg)
}

/// Converts artworks into controller commands.
pub struct ArtworkToCommandConverter {
    config: DrawingCanvasConfig,
    strategy: DrawingStrategy,
}

impl ArtworkToCommandConverter {
    pub closed spec fn config_spec(&self) -> DrawingCanvasConfig {
        self.config
    }

    pub closed spec fn strategy_spec(&self) -> DrawingStrategy {
        self.strategy
    }

    pub fn new(config: DrawingCanvasConfig, strategy: DrawingStrategy) -> (c: Self)
        ensures
            c.config_spec() == config,
            c.strategy_spec() == strategy,
    {
        ArtworkToCommandConverter { config, strategy }
    }

    /// The command that brings the cursor to the top-left corner.
    pub fn create_initialization_command(&self) -> (c: ControllerCommand)
        ensures
            c.name@ == "Initialize"@,
            c.description matches Some(d) && d@ == "コントローラーを初期化"@,
            c.sequence@ == initialization_actions(),
    {
        let mut command = ControllerCommand::new("Initialize").with_description("コントローラーを初期化");
        command = command.add_action(ControllerAction::wait(2000)).add_action(
            ControllerAction::set_dpad(DPad::NEUTRAL(), 100),
        );
        proof {
            DPad::lemma_from_bits(8);
            DPad::lemma_from_bits(7);
        }
        let ghost head = command.sequence@;
        assert(head =~= seq![wait_action(2000), hat_action(8, 100)]);
        let mut i: usize = 0;
        while i < 150
            invariant
                i <= 150,
                command.sequence@ == head + Seq::new(2 * i as nat, |k: int| if k % 2 == 0 { hat_action(7, 50) } else { hat_action(8, 50) }),
                head == seq![wait_action(2000), hat_action(8, 100)],
                command.name@ == "Initialize"@,
                command.description matches Some(d) && d@ == "コントローラーを初期化"@,
            decreases 150 - i,
        {
            let ghost before = command.sequence@;
            command = command.add_action(ControllerAction::set_dpad(DPad::UP_LEFT(), 50)).add_action(
                ControllerAction::set_dpad(DPad::NEUTRAL(), 50),
            );
            proof {
                DPad::lemma_from_bits(8);
                DPad::lemma_from_bits(7);
            }
            assert(command.sequence@ =~= head + Seq::new(2 * (i + 1) as nat, |k: int| if k % 2 == 0 { hat_action(7, 50) } else { hat_action(8, 50) }));
            i = i + 1;
        }
        command = command.add_action(ControllerAction::set_dpad(DPad::NEUTRAL(), 500));
        assert(command.sequence@ =~= initialization_actions());
        command
    }

    /// The command that selects the configured pen.
    pub fn create_select_drawing_mode_command(&self) -> (c: ControllerCommand)
        ensures
            c.name@ == "Select Drawing Mode"@,
            c.description matches Some(d) && d@ == "描画モードを選択"@,
            c.sequence@ == select_mode_actions(painting::mode_button_bits(self.config_spec().drawing_mode)),
    {
        let mut command = ControllerCommand::new("Select Drawing Mode").with_description("描画モードを選択");
        let mode_button = self.config.drawing_mode.select_button();
        let bits = mode_button.value();
        proof {
            Button::lemma_new(bits);
            Button::lemma_new(0x0010);
        }
        command = command.add_action(ControllerAction::wait(500));
        if bits == 0x0010 {
            command = command.add_action(ControllerAction::press_button(Button::L(), 200)).add_action(
                ControllerAction::release_button(Button::L(), 300),
            );
            command = command.add_action(ControllerAction::wait(500));
            command = command.add_action(ControllerAction::press_button(Button::L(), 200)).add_action(
                ControllerAction::release_button(Button::L(), 300),
            );
        } else {
            command = command.add_action(ControllerAction::press_button(mode_button, 200)).add_action(
                ControllerAction::release_button(mode_button, 300),
            );
        }
        command = command.add_action(ControllerAction::wait(1000));
        assert(command.sequence@ =~= select_mode_actions(painting::mode_button_bits(self.config.drawing_mode)));
        command
    }

    /// The command that ends the drawing.
    pub fn create_completion_command(&self) -> (c: ControllerCommand)
        ensures
            c.name@ == "Complete"@,
            c.description matches Some(d) && d@ == "描画完了"@,
            c.sequence@ == completion_actions(),
    {
        proof {
            Button::lemma_new(0x1000);
        }
        let c = ControllerCommand::new("Complete")
            .with_description("描画完了")
            .add_action(ControllerAction::wait(1000))
            .add_action(ControllerAction::press_button(Button::HOME(), 100))
            .add_action(ControllerAction::release_button(Button::HOME(), 500));
        assert(c.sequence@ =~= completion_actions());
        c
    }

    /// The cursor moves from `from` to `to`; see `move_actions`.
    pub fn create_move_actions(&self, from: &Coordinates, to: &Coordinates) -> (r: Vec<ControllerAction>)
        ensures
            r@ == move_actions(*from, *to, self.config_spec().cursor_speed_ms),
    {
        let speed = self.config.cursor_speed_ms;
        let mut actions: Vec<ControllerAction> = Vec::new();
        let mut current = *from;
        let xhat: u8 = if to.x > from.x { 2 } else { 6 };
        let yhat: u8 = if to.y > from.y { 4 } else { 0 };
        proof {
            DPad::lemma_from_bits(2);
            DPad::lemma_from_bits(6);
            DPad::lemma_from_bits(4);
            DPad::lemma_from_bits(0);
            DPad::lemma_from_bits(8);
        }
        while current.x != to.x
            invariant
                current.y == from.y,
                from.x <= to.x ==> from.x <= current.x <= to.x,
                from.x > to.x ==> to.x <= current.x <= from.x,
                actions@ == Seq::new(crate::shared::abs_diff(from.x as int, current.x as int), |i: int| hat_action(xhat, speed)),
                xhat == (if to.x > from.x { 2u8 } else { 6u8 }),
            decreases crate::shared::abs_diff(current.x as int, to.x as int),
        {
            proof {
                DPad::lemma_from_bits(2);
                DPad::lemma_from_bits(6);
            }
            let direction = if to.x > current.x { CursorDirection::Right } else { CursorDirection::Left };
            actions.push(ControllerAction::set_dpad(direction.to_dpad(), speed));
            if to.x > current.x {
                current.x = current.x + 1;
            } else {
                current.x = current.x - 1;
            }
            assert(actions@ =~= Seq::new(crate::shared::abs_diff(from.x as int, current.x as int), |i: int| hat_action(xhat, speed)));
        }
        let ghost xs = actions@;
        while current.y != to.y
            invariant
                current.x == to.x,
                from.y <= to.y ==> from.y <= current.y <= to.y,
                from.y > to.y ==> to.y <= current.y <= from.y,
                actions@ == xs + Seq::new(crate::shared::abs_diff(from.y as int, current.y as int), |i: int| hat_action(yhat, speed)),
                yhat == (if to.y > from.y { 4u8 } else { 0u8 }),
            decreases crate::shared::abs_diff(current.y as int, to.y as int),
        {
            proof {
                DPad::lemma_from_bits(4);
                DPad::lemma_from_bits(0);
            }
            let direction = if to.y > current.y { CursorDirection::Down } else { CursorDirection::Up };
            actions.push(ControllerAction::set_dpad(direction.to_dpad(), speed));
            if to.y > current.y {
                current.y = current.y + 1;
            } else {
                current.y = current.y - 1;
            }
            assert(actions@ =~= xs + Seq::new(crate::shared::abs_diff(from.y as int, current.y as int), |i: int| hat_action(yhat, speed)));
        }
        if actions.len() > 0 {
            actions.push(ControllerAction::set_dpad(DPad::NEUTRAL(), 50));
        }
        assert(actions@ =~= move_actions(*from, *to, speed));
        actions
    }
}

impl ArtworkToCommandConverter {
    /// The drawing commands for a path: batches of 100 dots, each moving the
    /// cursor from the previous dot (the first from the origin) and pressing A.
    pub fn create_drawing_commands(&self, path: &DrawingPath) -> (r: Vec<ControllerCommand>)
        ensures
            r@.len() == batch_count(path.coordinates@.len()),
            forall|k: int| 0 <= k < r@.len() ==> is_batch_command(#[trigger] r@[k], path.coordinates@, k as nat, self.config_spec()),
    {
        let coords = &path.coordinates;
        let n = coords.len();
        let cfg = self.config;
        let mut commands: Vec<ControllerCommand> = Vec::new();
        let mut current_pos = Coordinates::new(0, 0);
        let mut start: usize = 0;
        let mut batch_idx: usize = 0;
        proof { Button::lemma_new(0x0004); }
        while start < n
            invariant
                n == coords@.len(),
                cfg == self.config_spec(),
                start <= n,
                start == batch_idx * 100 || start == n,
                start < n ==> start == batch_idx * 100,
                start == n ==> batch_idx == batch_count(n as nat),
                commands@.len() == batch_idx,
                start < n ==> current_pos == batch_start(coords@, batch_idx as nat),
                forall|k: int| 0 <= k < commands@.len() ==> is_batch_command(#[trigger] commands@[k], coords@, k as nat, cfg),
            decreases n - start,
        {
            let end = if n - start > 100 { start + 100 } else { n };
            assert(coords@.subrange(start as int, end as int) == batch(coords@, batch_idx as nat));
            let mut name = text::owned("Draw Batch ");
            text::push_decimal(&mut name, (batch_idx as u64) + 1);
            let mut desc = String::new();
            text::push_decimal(&mut desc, (end - start) as u64);
            text::push_str(&mut desc, "個のドットを描画");
            let mut sequence: Vec<ControllerAction> = Vec::new();
            let ghost bstart = current_pos;
            let mut j = start;
            while j < end
                invariant
                    start <= j <= end <= n,
                    n == coords@.len(),
                    cfg == self.config_spec(),
                    sequence@ == draw_actions(bstart, coords@.subrange(start as int, j as int), cfg),
                    current_pos == (if j > start { coords@[j - 1] } else { bstart }),
                decreases end - j,
            {
                let target = coords[j];
                let mut moves = self.create_move_actions(&current_pos, &target);
                sequence.append(&mut moves);
                sequence.push(ControllerAction::press_button(Button::A(), cfg.dot_draw_delay_ms));
                sequence.push(ControllerAction::release_button(Button::A(), 50));
                proof {
                    Button::lemma_new(0x0004);
                    let t = coords@.subrange(start as int, j + 1);
                    assert(t.drop_last() =~= coords@.subrange(start as int, j as int));
                    assert(t.last() == target);
                    if j > start {
                        assert(t[t.len() - 2] == coords@[j - 1]);
                    }
                    assert(sequence@ =~= draw_actions(bstart, t, cfg));
                }
                current_pos = target;
                j = j + 1;
            }
            commands.push(ControllerCommand { sequence, name, description: Some(desc) });
            proof {
                let k = batch_idx as nat;
                assert(is_batch_command(commands@[batch_idx as int], coords@, k, cfg));
                if end < n {
                    assert(current_pos == batch_start(coords@, k + 1));
                } else {
                    assert(batch_count(n as nat) == k + 1);
                }
            }
            start = end;
            batch_idx = batch_idx + 1;
        }
        commands
    }
}

/// The coordinates of the dots of a canvas that still have to be painted, in canvas order.
pub open spec fn drawable_coordinates(dots: Seq<(Coordinates, Dot)>) -> Seq<Coordinates> {
    canvas::select_entries(dots, DotSelector::Drawable).map_values(|e: (Coordinates, Dot)| e.0)
}

/// The coordinates of a sequence of dot references.
pub open spec fn pair_coordinates(pairs: Seq<(&Coordinates, &Dot)>) -> Seq<Coordinates> {
    canvas::deref_pairs(pairs).map_values(|e: (Coordinates, Dot)| e.0)
}

/// Whether `strategy` may visit `points` in the order `path`: row-major for a
/// raster scan (and for the spiral, drawn as one), zigzag order, a
/// nearest-neighbour order, or the 2-opt improvement of one.
pub open spec fn strategy_order(strategy: DrawingStrategy, points: Seq<Coordinates>, path: Seq<Coordinates>) -> bool {
    match strategy {
        DrawingStrategy::RasterScan => path == ordering::row_major_sorted(points),
        DrawingStrategy::Spiral => path == ordering::row_major_sorted(points),
        DrawingStrategy::ZigZag => path == ordering::zigzag_sorted(points),
        DrawingStrategy::NearestNeighbor => nearest::is_nearest_neighbor_order(points, path),
        DrawingStrategy::GreedyTwoOpt => exists|nn: Seq<Coordinates>|
            nearest::is_nearest_neighbor_order(points, nn) && path == two_opt::two_opt(nn),
    }
}

/// Whether the length and the estimated time of `path` fit in 32 bits.
pub open spec fn path_fits(path: Seq<Coordinates>, cfg: DrawingCanvasConfig) -> bool {
    painting::path_length(path) <= u32::MAX && painting::estimated_time(path, cfg) <= u32::MAX
}

/// The coordinates of dot references, in order.
fn coordinates_of(pairs: &Vec<(&Coordinates, &Dot)>) -> (r: Vec<Coordinates>)
    ensures
        r@ == pair_coordinates(pairs@),
{
    let mut out: Vec<Coordinates> = Vec::new();
    let mut i: usize = 0;
    while i < pairs.len()
        invariant
            i <= pairs@.len(),
            out@ == pair_coordinates(pairs@.take(i as int)),
        decreases pairs@.len() - i,
    {
        let c = *pairs[i].0;
        out.push(c);
        assert(pair_coordinates(pairs@.take(i + 1)) =~= pair_coordinates(pairs@.take(i as int)).push(c));
        i = i + 1;
    }
    assert(pairs@.take(i as int) =~= pairs@);
    out
}

impl ArtworkToCommandConverter {
    /// The dots in nearest-neighbour order; see `nearest::nearest_neighbor_order`.
    pub fn nearest_neighbor_path(&self, drawable_dots: Vec<(&Coordinates, &Dot)>) -> (r: Vec<Coordinates>)
        ensures
            nearest::is_nearest_neighbor_order(pair_coordinates(drawable_dots@), r@),
    {
        let points = coordinates_of(&drawable_dots);
        nearest::nearest_neighbor_order(&points)
    }

    /// The path through the dots still to paint, in the order of the strategy,
    /// with its length and estimated drawing time.
    pub fn create_drawing_path(&self, canvas: &Canvas) -> (p: DrawingPath)
        requires
            forall|path: Seq<Coordinates>| #[trigger] strategy_order(self.strategy_spec(), drawable_coordinates(canvas.dots@), path)
                ==> path_fits(path, self.config_spec()),
        ensures
            strategy_order(self.strategy_spec(), drawable_coordinates(canvas.dots@), p.coordinates@),
            p.total_distance == painting::path_length(p.coordinates@),
            p.estimated_time_ms == painting::estimated_time(p.coordinates@, self.config_spec()),
    {
        let drawable_dots = canvas.drawable_dots();
        let ghost points = drawable_coordinates(canvas.dots@);
        assert(pair_coordinates(drawable_dots@) == points);
        let coordinates: Vec<Coordinates> = match self.strategy {
            DrawingStrategy::RasterScan => {
                let coords = coordinates_of(&drawable_dots);
                ordering::sort_row_major(&coords)
            },
            DrawingStrategy::ZigZag => {
                let coords = coordinates_of(&drawable_dots);
                let sorted = ordering::sort_row_major(&coords);
                proof {
                    let leq = |a: Coordinates, b: Coordinates| ordering::row_major_le(a, b);
                    ordering::lemma_row_major_total();
                    coords@.lemma_sort_by_ensures(leq);
                    assert forall|i: int, j: int| #![trigger sorted@[i], sorted@[j]] 0 <= i < j < sorted@.len()
                        implies ordering::row_major_le(sorted@[i], sorted@[j]) by {
                        assert(leq(sorted@[i], sorted@[j]));
                    }
                }
                let r = ordering::zigzag_rows(&sorted);
                proof {
                    ordering::lemma_zigzag_sorted_unique(coords@, r@);
                }
                r
            },
            DrawingStrategy::NearestNeighbor => self.nearest_neighbor_path(drawable_dots),
            DrawingStrategy::GreedyTwoOpt => {
                let path = self.nearest_neighbor_path(drawable_dots);
                let ghost nn = path@;
                let r = self.two_opt_optimize(path);
                assert(nearest::is_nearest_neighbor_order(points, nn) && r@ == two_opt::two_opt(nn));
                r
            },
            DrawingStrategy::Spiral => {
                let coords = coordinates_of(&drawable_dots);
                ordering::sort_row_major(&coords)
            },
        };
        assert(strategy_order(self.strategy_spec(), points, coordinates@));
        let mut path = DrawingPath::new(coordinates);
        path.calculate_estimated_time(&self.config);
        path
    }
}

/// Every strategy visits each dot still to paint exactly once: the raster,
/// zigzag and spiral orders are orders of all of them, the nearest-neighbour
/// orders (and their 2-opt improvements) of those within the 330x130 area the
/// search covers.
pub proof fn lemma_strategy_visits_each_dot(strategy: DrawingStrategy, points: Seq<Coordinates>, path: Seq<Coordinates>)
    requires
        strategy_order(strategy, points, path),
    ensures
        forall|q: Coordinates| #[trigger] path.to_multiset().count(q) == (match strategy {
            DrawingStrategy::NearestNeighbor => nearest::kept_count(points, q),
            DrawingStrategy::GreedyTwoOpt => nearest::kept_count(points, q),
            _ => points.to_multiset().count(q),
        }),
{
    match strategy {
        DrawingStrategy::RasterScan | DrawingStrategy::Spiral => {
            ordering::lemma_row_major_total();
            points.lemma_sort_by_ensures(|a: Coordinates, b: Coordinates| ordering::row_major_le(a, b));
        },
        DrawingStrategy::ZigZag => {
            ordering::lemma_zigzag_total();
            points.lemma_sort_by_ensures(|a: Coordinates, b: Coordinates| ordering::zigzag_le(a, b));
        },
        DrawingStrategy::NearestNeighbor => {},
        DrawingStrategy::GreedyTwoOpt => {
            let nn = choose|nn: Seq<Coordinates>| nearest::is_nearest_neighbor_order(points, nn) && path == two_opt::two_opt(nn);
            two_opt::lemma_two_opt(nn);
        },
    }
}

proof fn lemma_select_contains(s: Seq<(Coordinates, Dot)>, sel: DotSelector, e: (Coordinates, Dot))
    ensures
        canvas::select_entries(s, sel).contains(e) <==> (s.contains(e) && canvas::selects(sel, e)),
    decreases s.len(),
{
    if s.len() > 0 {
        let d = s.drop_last();
        let x = s.last();
        lemma_select_contains(d, sel, e);
        let r = canvas::select_entries(d, sel);
        assert(s =~= d.push(x));
        assert(s.contains(e) <==> (d.contains(e) || x == e)) by {
            if s.contains(e) && !d.contains(e) {
                let k = choose|k: int| 0 <= k < s.len() && s[k] == e;
                if k < d.len() {
                    assert(d[k] == e);
                }
            }
            if d.contains(e) {
                let k = choose|k: int| 0 <= k < d.len() && d[k] == e;
                assert(s[k] == e);
            }
            if x == e {
                assert(s[s.len() - 1] == e);
            }
        }
        if canvas::selects(sel, x) {
            let t = r.push(x);
            assert(canvas::select_entries(s, sel) == t);
            assert(t.contains(e) <==> (r.contains(e) || x == e)) by {
                if t.contains(e) && !r.contains(e) {
                    let k = choose|k: int| 0 <= k < t.len() && t[k] == e;
                    if k < r.len() {
                        assert(r[k] == e);
                    }
                }
                if r.contains(e) {
                    let k = choose|k: int| 0 <= k < r.len() && r[k] == e;
                    assert(t[k] == e);
                }
                if x == e {
                    assert(t[t.len() - 1] == e);
                }
            }
        } else {
            assert(canvas::select_entries(s, sel) == r);
        }
    } else {
        assert(canvas::select_entries(s, sel) == s);
    }
}

/// A raster scan paints every dot still to paint exactly once, rows top to
/// bottom and each row left to right: its path rises strictly in `(y, x)` and
/// holds exactly the coordinates of the dots that are drawable.
pub proof fn lemma_raster_scan_path(canvas: Canvas, path: Seq<Coordinates>)
    requires
        canvas.wf(),
        strategy_order(DrawingStrategy::RasterScan, drawable_coordinates(canvas.dots@), path),
    ensures
        forall|i: int, j: int| 0 <= i < j < path.len()
            ==> (#[trigger] path[i]).y < (#[trigger] path[j]).y || (path[i].y == path[j].y && path[i].x < path[j].x),
        forall|c: Coordinates| path.contains(c) <==> (canvas.dot_map().contains_key(c) && canvas::drawable(canvas.dot_map()[c])),
{
    broadcast use vstd::seq_lib::group_to_multiset_ensures;
    let dots = canvas.dots@;
    let points = drawable_coordinates(dots);
    let sel = canvas::select_entries(dots, DotSelector::Drawable);
    canvas::lemma_select_unique(dots, DotSelector::Drawable);
    assert(points.no_duplicates()) by {
        assert forall|i: int, j: int| 0 <= i < points.len() && 0 <= j < points.len() && i != j implies points[i] != points[j] by {
            assert(points[i] == sel[i].0 && points[j] == sel[j].0);
        }
    }
    points.lemma_multiset_has_no_duplicates();
    lemma_strategy_visits_each_dot(DrawingStrategy::RasterScan, points, path);
    assert forall|x: Coordinates| path.to_multiset().contains(x) implies path.to_multiset().count(x) == 1 by {
        assert(path.to_multiset().count(x) == points.to_multiset().count(x));
    }
    path.lemma_multiset_has_no_duplicates_conv();
    let leq = |a: Coordinates, b: Coordinates| ordering::row_major_le(a, b);
    ordering::lemma_row_major_total();
    points.lemma_sort_by_ensures(leq);
    assert forall|i: int, j: int| 0 <= i < j < path.len()
        implies (#[trigger] path[i]).y < (#[trigger] path[j]).y || (path[i].y == path[j].y && path[i].x < path[j].x) by {
        assert(leq(path[i], path[j]));
        assert(path[i] != path[j]);
    }
    assert forall|c: Coordinates| path.contains(c) <==> (canvas.dot_map().contains_key(c) && canvas::drawable(canvas.dot_map()[c])) by {
        assert(path.contains(c) <==> points.contains(c)) by {
            assert(path.to_multiset().count(c) == points.to_multiset().count(c));
        }
        if points.contains(c) {
            let i = choose|i: int| 0 <= i < points.len() && points[i] == c;
            assert(sel[i].0 == c);
            assert(sel.contains(sel[i]));
            lemma_select_contains(dots, DotSelector::Drawable, sel[i]);
            let k = choose|k: int| 0 <= k < dots.len() && dots[k] == sel[i];
            canvas::lemma_key_index(dots, k);
        }
        if canvas.dot_map().contains_key(c) && canvas::drawable(canvas.dot_map()[c]) {
            assert(canvas::has_key(dots, c));
            let k = canvas::key_index(dots, c);
            canvas::lemma_key_index(dots, k);
            assert(dots.contains(dots[k]));
            lemma_select_contains(dots, DotSelector::Drawable, dots[k]);
            let i = choose|i: int| 0 <= i < sel.len() && sel[i] == dots[k];
            assert(points[i] == c);
        }
    }
}

/// Whether `c` is the command that brings the cursor to the top-left corner.
pub open spec fn is_initialization_command(c: ControllerCommand) -> bool {
    &&& c.name@ == "Initialize"@
    &&& c.description matches Some(d) && d@ == "コントローラーを初期化"@
    &&& c.sequence@ == initialization_actions()
}

/// Whether `c` is the command that selects the pen of `cfg`.
pub open spec fn is_select_mode_command(c: ControllerCommand, cfg: DrawingCanvasConfig) -> bool {
    &&& c.name@ == "Select Drawing Mode"@
    &&& c.description matches Some(d) && d@ == "描画モードを選択"@
    &&& c.sequence@ == select_mode_actions(painting::mode_button_bits(cfg.drawing_mode))
}

/// Whether `c` is the command that ends the drawing.
pub open spec fn is_completion_command(c: ControllerCommand) -> bool {
    &&& c.name@ == "Complete"@
    &&& c.description matches Some(d) && d@ == "描画完了"@
    &&& c.sequence@ == completion_actions()
}

/// Whether `cmds` draws `path` with `cfg`: the initial command, the pen
/// selection, the drawing commands of the path in batches, and the completion.
pub open spec fn draws_path(cmds: Seq<ControllerCommand>, path: Seq<Coordinates>, cfg: DrawingCanvasConfig) -> bool {
    &&& cmds.len() == batch_count(path.len()) + 3
    &&& is_initialization_command(cmds[0])
    &&& is_select_mode_command(cmds[1], cfg)
    &&& forall|k: int| 0 <= k < batch_count(path.len()) ==> is_batch_command(#[trigger] cmds[k + 2], path, k as nat, cfg)
    &&& is_completion_command(cmds.last())
}

impl ArtworkToCommandConverter {
    /// The commands that draw an artwork: initialise the cursor, select the
    /// pen, draw the dots still to paint in the order of the strategy, and
    /// finish.
    pub fn convert(&self, artwork: &Artwork) -> (r: Vec<ControllerCommand>)
        requires
            forall|path: Seq<Coordinates>| #[trigger] strategy_order(self.strategy_spec(), drawable_coordinates(artwork.canvas.dots@), path)
                ==> path_fits(path, self.config_spec()),
        ensures
            exists|path: Seq<Coordinates>| strategy_order(self.strategy_spec(), drawable_coordinates(artwork.canvas.dots@), path)
                && draws_path(r@, path, self.config_spec()),
    {
        let mut commands: Vec<ControllerCommand> = Vec::new();
        commands.push(self.create_initialization_command());
        commands.push(self.create_select_drawing_mode_command());
        let drawing_path = self.create_drawing_path(&artwork.canvas);
        let mut drawing = self.create_drawing_commands(&drawing_path);
        let ghost dv = drawing@;
        commands.append(&mut drawing);
        commands.push(self.create_completion_command());
        proof {
            let path = drawing_path.coordinates@;
            assert forall|k: int| 0 <= k < batch_count(path.len()) implies is_batch_command(#[trigger] commands@[k + 2], path, k as nat, self.config_spec()) by {
                assert(commands@[k + 2] == dv[k]);
            }
            assert(draws_path(commands@, path, self.config_spec()));
        }
        commands
    }
}

/// The commands made for a path paint exactly its dots, in order, from the
/// cursor at the origin: the drawing commands between the pen selection and
/// the completion command.
pub proof fn lemma_converted_commands_paint_path(cmds: Seq<ControllerCommand>, path: Seq<Coordinates>, cfg: DrawingCanvasConfig)
    requires
        draws_path(cmds, path, cfg),
    ensures
        crate::cursor::painted((0, 0), crate::controller_values::all_actions(cmds.subrange(2, cmds.len() - 1)))
            == crate::cursor::positions(path),
{
    let draw = cmds.subrange(2, cmds.len() - 1);
    assert forall|k: int| 0 <= k < draw.len() implies is_batch_command(#[trigger] draw[k], path, k as nat, cfg) by {
        assert(draw[k] == cmds[k + 2]);
    }
    crate::cursor::lemma_drawing_commands_paint_path(path, draw, cfg);
}

/// Whether every point lies in the box from the origin to `(mx, my)`.
pub open spec fn within_box(s: Seq<Coordinates>, mx: int, my: int) -> bool {
    forall|i: int| 0 <= i < s.len() ==> s[i].x <= mx && s[i].y <= my
}

/// A path whose points a multiset of points bounds has no more points than
/// they, and each of its points is one of them.
proof fn lemma_sub_multiset(path: Seq<Coordinates>, points: Seq<Coordinates>)
    requires
        forall|q: Coordinates| path.to_multiset().count(q) <= points.to_multiset().count(q),
    ensures
        path.len() <= points.len(),
        forall|i: int| 0 <= i < path.len() ==> points.contains(path[i]),
    decreases path.len(),
{
    path.to_multiset_ensures();
    points.to_multiset_ensures();
    assert forall|i: int| 0 <= i < path.len() implies points.contains(path[i]) by {
        assert(path.contains(path[i]));
        assert(path.to_multiset().count(path[i]) > 0);
        assert(points.to_multiset().count(path[i]) > 0);
    }
    if path.len() > 0 {
        let x = path.last();
        let rest = path.drop_last();
        rest.to_multiset_ensures();
        assert(rest.push(x) =~= path);
        assert(points.contains(x));
        let i = choose|i: int| 0 <= i < points.len() && points[i] == x;
        let p2 = points.remove(i);
        p2.to_multiset_ensures();
        assert forall|q: Coordinates| rest.to_multiset().count(q) <= p2.to_multiset().count(q) by {
            assert(path.to_multiset() =~= rest.to_multiset().insert(x));
            assert(p2.to_multiset() =~= points.to_multiset().remove(x));
        }
        lemma_sub_multiset(rest, p2);
    }
}

proof fn lemma_step_bound(a: Coordinates, b: Coordinates, mx: int, my: int, c: DrawingCanvasConfig)
    requires
        a.x <= mx && a.y <= my && b.x <= mx && b.y <= my,
    ensures
        crate::shared::manhattan(a, b) <= mx + my,
        crate::shared::manhattan(a, b) * (c.cursor_speed_ms as nat) <= (mx + my) * c.cursor_speed_ms,
{
    let d = crate::shared::manhattan(a, b) as int;
    let sp = c.cursor_speed_ms as int;
    assert(d * sp <= (mx + my) * sp) by (nonlinear_arith)
        requires
            0 <= d <= mx + my,
            0 <= sp,
    ;
}

/// The length and drawing time of a path in the box are at most those of
/// as many steps of the box's largest size.
proof fn lemma_path_bounds(s: Seq<Coordinates>, mx: int, my: int, c: DrawingCanvasConfig)
    requires
        within_box(s, mx, my),
        0 <= mx,
        0 <= my,
    ensures
        painting::path_length(s) <= s.len() * (mx + my),
        painting::estimated_time(s, c) <= s.len() * ((mx + my) * c.cursor_speed_ms + c.line_wrap_delay_ms + c.dot_draw_delay_ms),
    decreases s.len(),
{
    let step = (mx + my) * c.cursor_speed_ms + c.line_wrap_delay_ms + c.dot_draw_delay_ms;
    assert(0 <= (mx + my) * c.cursor_speed_ms) by (nonlinear_arith)
        requires
            0 <= mx + my,
    ;
    if s.len() >= 1 {
        let t = s.drop_last();
        assert(within_box(t, mx, my)) by {
            assert forall|i: int| 0 <= i < t.len() implies t[i].x <= mx && t[i].y <= my by {
                assert(t[i] == s[i]);
            }
        }
        lemma_path_bounds(t, mx, my, c);
        if s.len() >= 2 {
            lemma_step_bound(s[s.len() - 2], s.last(), mx, my, c);
        }
        assert(t.len() * (mx + my) + (mx + my) == s.len() * (mx + my)) by (nonlinear_arith)
            requires
                t.len() + 1 == s.len(),
        ;
        assert(t.len() * step + step == s.len() * step) by (nonlinear_arith)
            requires
                t.len() + 1 == s.len(),
        ;
    }
}

/// Whether `n` points in the box from the origin to `(mx, my)` give, in any
/// order, a length and a drawing time that fit in 32 bits for `c`.
pub open spec fn fits_bound(n: int, mx: int, my: int, c: DrawingCanvasConfig) -> bool {
    n * (mx + my) <= u32::MAX
        && n * ((mx + my) * c.cursor_speed_ms + c.line_wrap_delay_ms + c.dot_draw_delay_ms) <= u32::MAX
}

/// Under the bound, every order a strategy can give fits.
pub proof fn lemma_bound_fits(strategy: DrawingStrategy, points: Seq<Coordinates>, mx: int, my: int, c: DrawingCanvasConfig)
    requires
        within_box(points, mx, my),
        0 <= mx,
        0 <= my,
        fits_bound(points.len() as int, mx, my, c),
    ensures
        forall|path: Seq<Coordinates>| #[trigger] strategy_order(strategy, points, path) ==> path_fits(path, c),
{
    assert forall|path: Seq<Coordinates>| #[trigger] strategy_order(strategy, points, path) implies path_fits(path, c) by {
        lemma_strategy_visits_each_dot(strategy, points, path);
        assert forall|q: Coordinates| path.to_multiset().count(q) <= points.to_multiset().count(q) by {
            assert(path.to_multiset().count(q) == (match strategy {
                DrawingStrategy::NearestNeighbor => nearest::kept_count(points, q),
                DrawingStrategy::GreedyTwoOpt => nearest::kept_count(points, q),
                _ => points.to_multiset().count(q),
            }));
        }
        lemma_sub_multiset(path, points);
        assert(within_box(path, mx, my)) by {
            assert forall|i: int| 0 <= i < path.len() implies path[i].x <= mx && path[i].y <= my by {
                let j = choose|j: int| 0 <= j < points.len() && points[j] == path[i];
                assert(points[j].x <= mx && points[j].y <= my);
            }
        }
        lemma_path_bounds(path, mx, my, c);
        let step = (mx + my) * c.cursor_speed_ms + c.line_wrap_delay_ms + c.dot_draw_delay_ms;
        assert(0 <= (mx + my) * c.cursor_speed_ms) by (nonlinear_arith)
            requires
                0 <= mx + my,
        ;
        assert(path.len() * (mx + my) <= points.len() * (mx + my)) by (nonlinear_arith)
            requires
                path.len() <= points.len(),
                0 <= mx + my,
        ;
        assert(path.len() * step <= points.len() * step) by (nonlinear_arith)
            requires
                path.len() <= points.len(),
                0 <= step,
        ;
    }
}

/// The largest `x` among the points (0 for none).
pub open spec fn max_x(s: Seq<Coordinates>) -> int
    decreases s.len(),
{
    if s.len() == 0 { 0 } else if s.last().x > max_x(s.drop_last()) { s.last().x as int } else { max_x(s.drop_last()) }
}

/// The largest `y` among the points (0 for none).
pub open spec fn max_y(s: Seq<Coordinates>) -> int
    decreases s.len(),
{
    if s.len() == 0 { 0 } else if s.last().y > max_y(s.drop_last()) { s.last().y as int } else { max_y(s.drop_last()) }
}

proof fn lemma_max_bounds(s: Seq<Coordinates>)
    ensures
        within_box(s, max_x(s), max_y(s)),
        0 <= max_x(s) <= u16::MAX,
        0 <= max_y(s) <= u16::MAX,
    decreases s.len(),
{
    if s.len() > 0 {
        let t = s.drop_last();
        lemma_max_bounds(t);
        assert forall|i: int| 0 <= i < s.len() implies s[i].x <= max_x(s) && s[i].y <= max_y(s) by {
            if i < t.len() {
                assert(s[i] == t[i]);
            }
        }
    }
}

impl ArtworkToCommandConverter {
    /// How many dots are still to paint, and the largest `x` and `y` among them.
    fn drawable_extent(canvas: &Canvas) -> (r: (u64, u16, u16))
        ensures
            r.0 == drawable_coordinates(canvas.dots@).len(),
            r.1 == max_x(drawable_coordinates(canvas.dots@)),
            r.2 == max_y(drawable_coordinates(canvas.dots@)),
    {
        let mut n: u64 = 0;
        let mut mx: u16 = 0;
        let mut my: u16 = 0;
        let mut i: usize = 0;
        while i < canvas.dots.len()
            invariant
                i <= canvas.dots@.len(),
                n == drawable_coordinates(canvas.dots@.take(i as int)).len(),
                n <= i,
                mx == max_x(drawable_coordinates(canvas.dots@.take(i as int))),
                my == max_y(drawable_coordinates(canvas.dots@.take(i as int))),
            decreases canvas.dots@.len() - i,
        {
            let ghost before = drawable_coordinates(canvas.dots@.take(i as int));
            proof {
                assert(canvas.dots@.take(i + 1).drop_last() =~= canvas.dots@.take(i as int));
            }
            if canvas.dots[i].1.is_drawable() {
                let c = canvas.dots[i].0;
                proof {
                    let now = drawable_coordinates(canvas.dots@.take(i + 1));
                    assert(now =~= before.push(c));
                    assert(now.drop_last() =~= before);
                }
                if c.x > mx {
                    mx = c.x;
                }
                if c.y > my {
                    my = c.y;
                }
                n = n + 1;
            } else {
                proof {
                    assert(drawable_coordinates(canvas.dots@.take(i + 1)) =~= before);
                }
            }
            i = i + 1;
        }
        assert(canvas.dots@.take(i as int) =~= canvas.dots@);
        (n, mx, my)
    }

    /// The commands of `convert`, when the dots still to paint are few and
    /// close enough to the origin that no order of them can make the path's
    /// length or drawing time overflow 32 bits (`fits_bound` for their number
    /// and their largest `x` and `y`); none when that bound fails.
    pub fn convert_checked(&self, artwork: &Artwork) -> (r: Option<Vec<ControllerCommand>>)
        ensures
            ({
                let points = drawable_coordinates(artwork.canvas.dots@);
                match r {
                    Some(commands) => fits_bound(points.len() as int, max_x(points), max_y(points), self.config_spec())
                        && exists|path: Seq<Coordinates>| strategy_order(self.strategy_spec(), points, path)
                        && draws_path(commands@, path, self.config_spec()),
                    None => !fits_bound(points.len() as int, max_x(points), max_y(points), self.config_spec()),
                }
            }),
    {
        let ghost points = drawable_coordinates(artwork.canvas.dots@);
        let (n, mx, my) = Self::drawable_extent(&artwork.canvas);
        proof {
            lemma_max_bounds(points);
        }
        let span: u64 = mx as u64 + my as u64;
        let speed: u64 = self.config.cursor_speed_ms as u64;
        let wrap: u64 = self.config.line_wrap_delay_ms as u64;
        let dot: u64 = self.config.dot_draw_delay_ms as u64;
        assert(span * speed <= 0x2_0000u64 * 0xFFFF_FFFFu64) by (nonlinear_arith)
            requires
                span <= 0x2_0000,
                speed <= 0xFFFF_FFFF,
        ;
        let step: u64 = span * speed + wrap + dot;
        assert(n as u128 * span as u128 <= 0x1_0000_0000_0000_0000u128 * 0x2_0000u128) by (nonlinear_arith)
            requires
                n <= 0xFFFF_FFFF_FFFF_FFFFu64,
                span <= 0x2_0000,
        ;
        assert(n as u128 * step as u128 <= 0x1_0000_0000_0000_0000u128 * 0x4_0000_0000_0000u128) by (nonlinear_arith)
            requires
                n <= 0xFFFF_FFFF_FFFF_FFFFu64,
                step <= 0x4_0000_0000_0000u128,
        ;
        let len_total: u128 = n as u128 * span as u128;
        let time_total: u128 = n as u128 * step as u128;
        if len_total > 0xFFFF_FFFF || time_total > 0xFFFF_FFFF {
            return None;
        }
        proof {
            lemma_bound_fits(self.strategy_spec(), points, mx as int, my as int, self.config_spec());
        }
        Some(self.convert(artwork))
    }
}

} // verus!
