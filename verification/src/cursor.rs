//! What the generated commands do to the drawing cursor: each hat action
//! moves it one pixel in the pressed direction, and each press of A paints
//! the pixel under it. The drawing commands paint exactly the dots of the
//! path, in order.

use vstd::prelude::*;
use crate::controller_values::{ActionType, Button, ControllerAction, ControllerCommand, DPad, all_actions};
use crate::converter;
use crate::converter::{draw_actions, move_actions};
use crate::painting::DrawingCanvasConfig;
use crate::shared;
use crate::shared::Coordinates;

verus! {

/// The step of the cursor for a hat value: up 0, up-right 1, right 2,
/// down-right 3, down 4, down-left 5, left 6, up-left 7; neutral does not move.
pub open spec fn hat_delta(h: u8) -> (int, int) {
    if h == 0 {
        (0, -1)
    } else if h == 1 {
        (1, -1)
    } else if h == 2 {
        (1, 0)
    } else if h == 3 {
        (1, 1)
    } else if h == 4 {
        (0, 1)
    } else if h == 5 {
        (-1, 1)
    } else if h == 6 {
        (-1, 0)
    } else if h == 7 {
        (-1, -1)
    } else {
        (0, 0)
    }
}

/// Where the cursor at `p` is after one action.
pub open spec fn cursor_step(p: (int, int), a: ControllerAction) -> (int, int) {
    match a.action_type {
        ActionType::SetDPad(d) => (p.0 + hat_delta(d.bits()).0, p.1 + hat_delta(d.bits()).1),
        _ => p,
    }
}

/// Whether an action paints the pixel under the cursor: a press of A.
pub open spec fn paints(a: ControllerAction) -> bool {
    a.action_type matches ActionType::PressButton(b) && b.bits() == 0x0004
}

/// Where the cursor at `start` is after the actions.
pub open spec fn cursor_after(start: (int, int), acts: Seq<ControllerAction>) -> (int, int)
    decreases acts.len(),
{
    if acts.len() == 0 {
        start
    } else {
        cursor_step(cursor_after(start, acts.drop_last()), acts.last())
    }
}

/// The pixels painted by the actions, in order, from a cursor at `start`.
pub open spec fn painted(start: (int, int), acts: Seq<ControllerAction>) -> Seq<(int, int)>
    decreases acts.len(),
{
    if acts.len() == 0 {
        Seq::empty()
    } else if paints(acts.last()) {
        painted(start, acts.drop_last()).push(cursor_after(start, acts.drop_last()))
    } else {
        painted(start, acts.drop_last())
    }
}

/// A point as a cursor position.
pub open spec fn pos(c: Coordinates) -> (int, int) {
    (c.x as int, c.y as int)
}

/// The points as cursor positions.
pub open spec fn positions(s: Seq<Coordinates>) -> Seq<(int, int)> {
    s.map_values(|c: Coordinates| pos(c))
}

proof fn lemma_cursor_append(start: (int, int), a: Seq<ControllerAction>, b: Seq<ControllerAction>)
    ensures
        cursor_after(start, a + b) == cursor_after(cursor_after(start, a), b),
        painted(start, a + b) == painted(start, a) + painted(cursor_after(start, a), b),
    decreases b.len(),
{
    if b.len() == 0 {
        assert(a + b =~= a);
    } else {
        lemma_cursor_append(start, a, b.drop_last());
        assert((a + b).drop_last() =~= a + b.drop_last());
        assert((a + b).last() == b.last());
    }
}

/// `n` hat actions with value `h` move the cursor `n` steps and paint nothing.
proof fn lemma_hat_run(start: (int, int), h: u8, speed: u32, n: nat)
    ensures
        cursor_after(start, Seq::new(n, |i: int| converter::hat_action(h, speed)))
            == (start.0 + n * hat_delta(h).0, start.1 + n * hat_delta(h).1),
        painted(start, Seq::new(n, |i: int| converter::hat_action(h, speed))) == Seq::<(int, int)>::empty(),
    decreases n,
{
    DPad::lemma_from_bits(h);
    if n > 0 {
        let s = Seq::new(n, |i: int| converter::hat_action(h, speed));
        lemma_hat_run(start, h, speed, (n - 1) as nat);
        assert(s.drop_last() =~= Seq::new((n - 1) as nat, |i: int| converter::hat_action(h, speed)));
        assert(start.0 + (n - 1) * hat_delta(h).0 + hat_delta(h).0 == start.0 + n * hat_delta(h).0) by (nonlinear_arith);
        assert(start.1 + (n - 1) * hat_delta(h).1 + hat_delta(h).1 == start.1 + n * hat_delta(h).1) by (nonlinear_arith);
    }
}

/// The moves from `from` to `to` bring the cursor there and paint nothing.
pub proof fn lemma_move_actions(from: Coordinates, to: Coordinates, speed: u32)
    ensures
        cursor_after(pos(from), move_actions(from, to, speed)) == pos(to),
        painted(pos(from), move_actions(from, to, speed)) == Seq::<(int, int)>::empty(),
{
    let hx: u8 = if to.x > from.x { 2u8 } else { 6u8 };
    let hy: u8 = if to.y > from.y { 4u8 } else { 0u8 };
    let nx = shared::abs_diff(from.x as int, to.x as int);
    let ny = shared::abs_diff(from.y as int, to.y as int);
    let xs = Seq::new(nx, |i: int| converter::hat_action(hx, speed));
    let ys = Seq::new(ny, |i: int| converter::hat_action(hy, speed));
    lemma_hat_run(pos(from), hx, speed, nx);
    let mid = cursor_after(pos(from), xs);
    lemma_hat_run(mid, hy, speed, ny);
    let dx = hat_delta(hx);
    let dy = hat_delta(hy);
    assert(dx.1 == 0 && dy.0 == 0);
    assert(nx * dx.1 == 0 && ny * dy.0 == 0) by (nonlinear_arith)
        requires dx.1 == 0, dy.0 == 0;
    if to.x > from.x {
        assert(dx.0 == 1);
        assert(nx * dx.0 == nx) by (nonlinear_arith) requires dx.0 == 1;
    } else {
        assert(dx.0 == -1);
        assert(nx * dx.0 == -nx) by (nonlinear_arith) requires dx.0 == -1;
    }
    if to.y > from.y {
        assert(dy.1 == 1);
        assert(ny * dy.1 == ny) by (nonlinear_arith) requires dy.1 == 1;
    } else {
        assert(dy.1 == -1);
        assert(ny * dy.1 == -ny) by (nonlinear_arith) requires dy.1 == -1;
    }
    assert(mid == (to.x as int, from.y as int));
    assert(cursor_after(mid, ys) == pos(to));
    if nx + ny > 0 {
        DPad::lemma_from_bits(8);
        lemma_cursor_append(pos(from), xs, ys);
        let n = seq![converter::hat_action(8, 50)];
        lemma_cursor_append(pos(from), xs + ys, n);
        assert(n.drop_last() =~= Seq::<ControllerAction>::empty());
        assert(cursor_after(pos(from), xs + ys) == pos(to));
        assert(painted(pos(from), xs + ys) =~= Seq::<(int, int)>::empty());
        assert(cursor_after(pos(to), n.drop_last()) == pos(to));
        assert(painted(pos(to), n.drop_last()) =~= Seq::<(int, int)>::empty());
        assert(hat_delta(8) == (0int, 0int));
        assert(cursor_after(pos(to), n) == pos(to));
        assert(painted(pos(to), n) =~= Seq::<(int, int)>::empty());
        assert(move_actions(from, to, speed) == xs + ys + n);
    } else {
        assert(move_actions(from, to, speed) =~= Seq::<ControllerAction>::empty());
    }
}

/// Drawing `targets` from `start` leaves the cursor on the last target and
/// paints exactly the targets, in order.
pub proof fn lemma_draw_actions(start: Coordinates, targets: Seq<Coordinates>, cfg: DrawingCanvasConfig)
    ensures
        cursor_after(pos(start), draw_actions(start, targets, cfg))
            == (if targets.len() == 0 { pos(start) } else { pos(targets.last()) }),
        painted(pos(start), draw_actions(start, targets, cfg)) == positions(targets),
    decreases targets.len(),
{
    if targets.len() > 0 {
        let prev = if targets.len() > 1 { targets[targets.len() - 2] } else { start };
        let head = draw_actions(start, targets.drop_last(), cfg);
        let mv = move_actions(prev, targets.last(), cfg.cursor_speed_ms);
        let press = seq![converter::press_action(0x0004, cfg.dot_draw_delay_ms), converter::release_action(0x0004, 50)];
        lemma_draw_actions(start, targets.drop_last(), cfg);
        lemma_move_actions(prev, targets.last(), cfg.cursor_speed_ms);
        Button::lemma_new(0x0004);
        lemma_cursor_append(pos(start), head, mv);
        lemma_cursor_append(pos(start), head + mv, press);
        let p1 = press.drop_last();
        assert(p1 =~= seq![converter::press_action(0x0004, cfg.dot_draw_delay_ms)]);
        assert(p1.drop_last() =~= Seq::<ControllerAction>::empty());
        let here = pos(targets.last());
        if targets.len() > 1 {
            assert(targets.drop_last().last() == prev);
        }
        assert(cursor_after(pos(start), head) == pos(prev));
        assert(cursor_after(pos(start), head + mv) == here);
        assert(painted(pos(start), head + mv) == positions(targets.drop_last()));
        assert(paints(p1.last()));
        assert(cursor_after(here, p1.drop_last()) == here);
        assert(painted(here, p1.drop_last()) =~= Seq::<(int, int)>::empty());
        assert(cursor_after(here, p1) == here);
        assert(painted(here, p1) =~= seq![here]);
        assert(!paints(press.last()));
        assert(cursor_after(here, press) == here);
        assert(painted(here, press) =~= seq![here]);
        assert(draw_actions(start, targets, cfg) == head + mv + press);
        assert(positions(targets) =~= positions(targets.drop_last()).push(pos(targets.last())));
    } else {
        assert(positions(targets) =~= Seq::<(int, int)>::empty());
    }
}

/// Drawing `a` then `b` is drawing `a + b`.
proof fn lemma_draw_actions_append(start: Coordinates, a: Seq<Coordinates>, b: Seq<Coordinates>, cfg: DrawingCanvasConfig)
    requires
        a.len() > 0,
    ensures
        draw_actions(start, a + b, cfg) == draw_actions(start, a, cfg) + draw_actions(a.last(), b, cfg),
    decreases b.len(),
{
    if b.len() == 0 {
        assert(a + b =~= a);
        assert(draw_actions(a.last(), b, cfg) =~= Seq::<ControllerAction>::empty());
    } else {
        lemma_draw_actions_append(start, a, b.drop_last(), cfg);
        assert((a + b).drop_last() =~= a + b.drop_last());
        let ab = a + b;
        let prev_ab = if ab.len() > 1 { ab[ab.len() - 2] } else { start };
        let prev_b = if b.len() > 1 { b[b.len() - 2] } else { a.last() };
        assert(prev_ab == prev_b);
    }
}

/// The commands a drawing path is split into paint exactly the dots of the
/// path, in order, with the cursor starting at the origin: whatever
/// `create_drawing_commands` returns for `path` meets the requirements here.
/// Their actions, one batch after the other, are those of drawing the whole
/// path in one go: for each dot in order, the moves from the dot before it
/// (the first from the origin), then pressing and releasing A.
pub proof fn lemma_drawing_commands_paint_path(path: Seq<Coordinates>, cmds: Seq<ControllerCommand>, cfg: DrawingCanvasConfig)
    requires
        cmds.len() == converter::batch_count(path.len()),
        forall|k: int| 0 <= k < cmds.len() ==> converter::is_batch_command(#[trigger] cmds[k], path, k as nat, cfg),
    ensures
        all_actions(cmds) == draw_actions(Coordinates { x: 0, y: 0 }, path, cfg),
        painted((0, 0), all_actions(cmds)) == positions(path),
{
    let origin = Coordinates { x: 0, y: 0 };
    lemma_batches(path, cmds, cfg, cmds.len());
    let n = cmds.len();
    let covered = if n * 100 <= path.len() { (n * 100) as int } else { path.len() as int };
    assert(covered == path.len()) by (nonlinear_arith)
        requires n == (path.len() + 99) / 100, covered == (if n * 100 <= path.len() { (n * 100) as int } else { path.len() as int });
    assert(path.take(covered) =~= path);
    assert(cmds.take(n as int) =~= cmds);
    lemma_draw_actions(origin, path, cfg);
    assert(pos(origin) == (0int, 0int));
}

/// The first `k` commands are the drawing of the first `min(100 k, n)` dots.
proof fn lemma_batches(path: Seq<Coordinates>, cmds: Seq<ControllerCommand>, cfg: DrawingCanvasConfig, k: nat)
    requires
        cmds.len() == converter::batch_count(path.len()),
        forall|j: int| 0 <= j < cmds.len() ==> converter::is_batch_command(#[trigger] cmds[j], path, j as nat, cfg),
        k <= cmds.len(),
    ensures
        all_actions(cmds.take(k as int)) == draw_actions(
            Coordinates { x: 0, y: 0 },
            path.take(if k * 100 <= path.len() { (k * 100) as int } else { path.len() as int }),
            cfg,
        ),
    decreases k,
{
    let origin = Coordinates { x: 0, y: 0 };
    if k == 0 {
        assert(cmds.take(0) =~= Seq::<ControllerCommand>::empty());
        assert(path.take(0) =~= Seq::<Coordinates>::empty());
    } else {
        let j = (k - 1) as nat;
        lemma_batches(path, cmds, cfg, j);
        assert(cmds.take(k as int).drop_last() =~= cmds.take(j as int));
        assert(cmds.take(k as int).last() == cmds[j as int]);
        assert(converter::is_batch_command(cmds[j as int], path, j, cfg));
        assert(j * 100 < path.len()) by (nonlinear_arith)
            requires j < (path.len() + 99) / 100;
        let lo = (j * 100) as int;
        let hi = if k * 100 <= path.len() { (k * 100) as int } else { path.len() as int };
        assert(k * 100 == j * 100 + 100);
        assert(path.take(hi) =~= path.take(lo) + path.subrange(lo, hi));
        assert(converter::batch(path, j) == path.subrange(lo, hi));
        if j == 0 {
            assert(path.take(lo) =~= Seq::<Coordinates>::empty());
            assert(path.take(hi) =~= path.subrange(lo, hi));
            assert(draw_actions(origin, path.take(lo), cfg) =~= Seq::<ControllerAction>::empty());
            assert(all_actions(cmds.take(k as int)) =~= cmds[0].sequence@);
        } else {
            assert(converter::batch_start(path, j) == path.take(lo).last());
            lemma_draw_actions_append(origin, path.take(lo), path.subrange(lo, hi), cfg);
        }
    }
}

} // verus!
