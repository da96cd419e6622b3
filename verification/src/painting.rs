//! How an artwork is drawn: drawing modes, cursor moves, drawing paths and the
//! controller commands that paint them.

use vstd::prelude::*;
use crate::controller_values::{Button, DPad};
use crate::shared;
use crate::shared::Coordinates;

verus! {

/// The pen used to draw.
#[derive(Debug, Clone, Copy, PartialEq, Eq, Hash, Structural)]
pub enum DrawingMode {
    PixelPen,
    NormalPen,
    ThickPen,
    Eraser,
}

/// The bit of the button that selects a pen.
pub open spec fn mode_button_bits(m: DrawingMode) -> u16 {
    match m {
        DrawingMode::PixelPen => 0x0010,
        DrawingMode::NormalPen => 0x0020,
        DrawingMode::ThickPen => 0x0040,
        DrawingMode::Eraser => 0x0080,
    }
}

impl DrawingMode {
    /// The button that selects the pen: L, R, ZL or ZR.
    pub fn select_button(&self) -> (b: Button)
        ensures
            b.bits() == mode_button_bits(*self),
    {
        match self {
            DrawingMode::PixelPen => Button::L(),
            DrawingMode::NormalPen => Button::R(),
            DrawingMode::ThickPen => Button::ZL(),
            DrawingMode::Eraser => Button::ZR(),
        }
    }
}

/// Timing and size of the drawing surface.
#[derive(Debug, Clone, Copy, PartialEq, Eq, Structural)]
pub struct DrawingCanvasConfig {
    pub width: u16,
    pub height: u16,
    /// Milliseconds per pixel of cursor travel.
    pub cursor_speed_ms: u32,
    /// Milliseconds to paint one dot.
    pub dot_draw_delay_ms: u32,
    /// Extra milliseconds when the row changes.
    pub line_wrap_delay_ms: u32,
    pub drawing_mode: DrawingMode,
}

impl Default for DrawingCanvasConfig {
    fn default() -> (c: Self)
        ensures
            c == (DrawingCanvasConfig {
                width: 320,
                height: 120,
                cursor_speed_ms: 50,
                dot_draw_delay_ms: 100,
                line_wrap_delay_ms: 200,
                drawing_mode: DrawingMode::PixelPen,
            }),
    {
        DrawingCanvasConfig {
            width: 320,
            height: 120,
            cursor_speed_ms: 50,
            dot_draw_delay_ms: 100,
            line_wrap_delay_ms: 200,
            drawing_mode: DrawingMode::PixelPen,
        }
    }
}

/// A direction the cursor can move in.
#[derive(Debug, Clone, Copy, PartialEq, Eq, Hash, Structural)]
pub enum CursorDirection {
    Up,
    Down,
    Left,
    Right,
    UpLeft,
    UpRight,
    DownLeft,
    DownRight,
}

/// The hat value for a direction.
pub open spec fn direction_hat(d: CursorDirection) -> u8 {
    match d {
        CursorDirection::Up => 0,
        CursorDirection::UpRight => 1,
        CursorDirection::Right => 2,
        CursorDirection::DownRight => 3,
        CursorDirection::Down => 4,
        CursorDirection::DownLeft => 5,
        CursorDirection::Left => 6,
        CursorDirection::UpLeft => 7,
    }
}

pub open spec fn sign(v: int) -> int {
    if v > 0 { 1 } else if v < 0 { -1 } else { 0 }
}

/// The direction from one point to another, by the signs of the differences
/// (y grows downwards); `None` for the same point.
pub open spec fn direction_between(from: Coordinates, to: Coordinates) -> Option<CursorDirection> {
    let sx = sign(to.x - from.x);
    let sy = sign(to.y - from.y);
    if sx == 0 && sy == -1 { Some(CursorDirection::Up) }
    else if sx == 0 && sy == 1 { Some(CursorDirection::Down) }
    else if sx == -1 && sy == 0 { Some(CursorDirection::Left) }
    else if sx == 1 && sy == 0 { Some(CursorDirection::Right) }
    else if sx == -1 && sy == -1 { Some(CursorDirection::UpLeft) }
    else if sx == 1 && sy == -1 { Some(CursorDirection::UpRight) }
    else if sx == -1 && sy == 1 { Some(CursorDirection::DownLeft) }
    else if sx == 1 && sy == 1 { Some(CursorDirection::DownRight) }
    else { None }
}

impl CursorDirection {
    /// The directional-pad position for the direction.
    pub fn to_dpad(&self) -> (d: DPad)
        ensures
            d.bits() == direction_hat(*self),
    {
        match self {
            CursorDirection::Up => DPad::UP(),
            CursorDirection::Down => DPad::DOWN(),
            CursorDirection::Left => DPad::LEFT(),
            CursorDirection::Right => DPad::RIGHT(),
            CursorDirection::UpLeft => DPad::UP_LEFT(),
            CursorDirection::UpRight => DPad::UP_RIGHT(),
            CursorDirection::DownLeft => DPad::DOWN_LEFT(),
            CursorDirection::DownRight => DPad::DOWN_RIGHT(),
        }
    }

    /// The direction from `from` to `to`; see `direction_between`.
    pub fn from_coordinates(from: &Coordinates, to: &Coordinates) -> (r: Option<Self>)
        ensures
            r == direction_between(*from, *to),
    {
        let dx: i32 = to.x as i32 - from.x as i32;
        let dy: i32 = to.y as i32 - from.y as i32;
        let sx: i32 = if dx > 0 { 1 } else if dx < 0 { -1 } else { 0 };
        let sy: i32 = if dy > 0 { 1 } else if dy < 0 { -1 } else { 0 };
        if sx == 0 && sy == -1 { Some(CursorDirection::Up) }
        else if sx == 0 && sy == 1 { Some(CursorDirection::Down) }
        else if sx == -1 && sy == 0 { Some(CursorDirection::Left) }
        else if sx == 1 && sy == 0 { Some(CursorDirection::Right) }
        else if sx == -1 && sy == -1 { Some(CursorDirection::UpLeft) }
        else if sx == 1 && sy == -1 { Some(CursorDirection::UpRight) }
        else if sx == -1 && sy == 1 { Some(CursorDirection::DownLeft) }
        else if sx == 1 && sy == 1 { Some(CursorDirection::DownRight) }
        else { None }
    }
}

/// Total Manhattan length of a path through the points in order.
pub open spec fn path_length(s: Seq<Coordinates>) -> nat
    decreases s.len(),
{
    if s.len() < 2 {
        0
    } else {
        path_length(s.drop_last()) + shared::manhattan(s[s.len() - 2], s.last())
    }
}

/// Estimated milliseconds to draw the points in order: cursor travel, an extra
/// delay for each change of row, and the drawing of every dot.
pub open spec fn estimated_time(s: Seq<Coordinates>, c: DrawingCanvasConfig) -> nat
    decreases s.len(),
{
    if s.len() == 0 {
        0
    } else if s.len() == 1 {
        c.dot_draw_delay_ms as nat
    } else {
        let a = s[s.len() - 2];
        let b = s.last();
        estimated_time(s.drop_last(), c) + shared::manhattan(a, b) * (c.cursor_speed_ms as nat)
            + (if a.y != b.y { c.line_wrap_delay_ms as nat } else { 0nat }) + c.dot_draw_delay_ms as nat
    }
}

/// The order in which dots are drawn, with its length and estimated time.
#[derive(Debug, Clone, PartialEq, Eq)]
pub struct DrawingPath {
    pub coordinates: Vec<Coordinates>,
    pub total_distance: u32,
    pub estimated_time_ms: u32,
}

pub proof fn lemma_path_length_prefix(s: Seq<Coordinates>, i: int)
    requires
        0 <= i <= s.len(),
    ensures
        path_length(s.take(i)) <= path_length(s),
    decreases s.len() - i,
{
    if i < s.len() {
        lemma_path_length_prefix(s, i + 1);
        assert(s.take(i + 1).drop_last() =~= s.take(i));
    } else {
        assert(s.take(i) =~= s);
    }
}

pub proof fn lemma_estimated_time_prefix(s: Seq<Coordinates>, c: DrawingCanvasConfig, i: int)
    requires
        0 <= i <= s.len(),
    ensures
        estimated_time(s.take(i), c) <= estimated_time(s, c),
    decreases s.len() - i,
{
    if i < s.len() {
        lemma_estimated_time_prefix(s, c, i + 1);
        assert(s.take(i + 1).drop_last() =~= s.take(i));
    } else {
        assert(s.take(i) =~= s);
    }
}

impl DrawingPath {
    /// A path through `coordinates` with its length; the time is not estimated yet.
    pub fn new(coordinates: Vec<Coordinates>) -> (p: Self)
        requires
            path_length(coordinates@) <= u32::MAX,
        ensures
            p.coordinates@ == coordinates@,
            p.total_distance == path_length(coordinates@),
            p.estimated_time_ms == 0,
    {
        let total_distance = Self::calculate_total_distance(&coordinates);
        DrawingPath { coordinates, total_distance, estimated_time_ms: 0 }
    }

    /// Total Manhattan length of the path.
    pub fn calculate_total_distance(coordinates: &Vec<Coordinates>) -> (r: u32)
        requires
            path_length(coordinates@) <= u32::MAX,
        ensures
            r == path_length(coordinates@),
    {
        if coordinates.len() < 2 {
            return 0;
        }
        let mut total: u32 = 0;
        let mut i: usize = 1;
        while i < coordinates.len()
            invariant
                1 <= i <= coordinates@.len(),
                total == path_length(coordinates@.take(i as int)),
                path_length(coordinates@) <= u32::MAX,
            decreases coordinates@.len() - i,
        {
            proof {
                assert(coordinates@.take(i + 1).drop_last() =~= coordinates@.take(i as int));
                lemma_path_length_prefix(coordinates@, i + 1);
            }
            total = total + coordinates[i - 1].manhattan_distance_to(&coordinates[i]);
            i = i + 1;
        }
        assert(coordinates@.take(i as int) =~= coordinates@);
        total
    }

    /// Sets the estimated drawing time for `config`.
    pub fn calculate_estimated_time(&mut self, config: &DrawingCanvasConfig)
        requires
            estimated_time(old(self).coordinates@, *config) <= u32::MAX,
        ensures
            final(self).estimated_time_ms == estimated_time(old(self).coordinates@, *config),
            final(self).coordinates@ == old(self).coordinates@,
            final(self).total_distance == old(self).total_distance,
    {
        let n = self.coordinates.len();
        if n == 0 {
            self.estimated_time_ms = 0;
            return;
        }
        let mut time_ms: u32 = config.dot_draw_delay_ms;
        assert(self.coordinates@.take(1).drop_last().len() == 0);
        proof { lemma_estimated_time_prefix(self.coordinates@, *config, 1); }
        let mut i: usize = 1;
        while i < n
            invariant
                1 <= i <= n,
                n == self.coordinates@.len(),
                time_ms == estimated_time(self.coordinates@.take(i as int), *config),
                estimated_time(self.coordinates@, *config) <= u32::MAX,
            decreases n - i,
        {
            proof {
                assert(self.coordinates@.take(i + 1).drop_last() =~= self.coordinates@.take(i as int));
                lemma_estimated_time_prefix(self.coordinates@, *config, i + 1);
            }
            let prev = self.coordinates[i - 1];
            let cur = self.coordinates[i];
            let distance = prev.manhattan_distance_to(&cur);
            proof {
                let t = self.coordinates@.take(i + 1);
                assert(t[t.len() - 2] == prev && t.last() == cur);
                assert(distance * config.cursor_speed_ms <= estimated_time(t, *config)) by (nonlinear_arith)
                    requires estimated_time(t, *config) >= estimated_time(t.drop_last(), *config) + distance * config.cursor_speed_ms;
            }
            time_ms = time_ms + distance * config.cursor_speed_ms;
            if prev.y != cur.y {
                time_ms = time_ms + config.line_wrap_delay_ms;
            }
            time_ms = time_ms + config.dot_draw_delay_ms;
            i = i + 1;
        }
        assert(self.coordinates@.take(n as int) =~= self.coordinates@);
        self.estimated_time_ms = time_ms;
    }
}

/// The order in which dots are visited.
#[derive(Debug, Clone, Copy, PartialEq, Eq, Hash, Structural)]
pub enum DrawingStrategy {
    /// Row by row, left to right.
    RasterScan,
    /// Row by row, odd rows right to left.
    ZigZag,
    /// Always the nearest remaining dot next.
    NearestNeighbor,
    /// Nearest neighbour, then improved by 2-opt exchanges.
    GreedyTwoOpt,
    /// Drawn as a raster scan.
    Spiral,
}

} // verus!
