//! Setting up the swarm: the three attractors and newly spawned fireflies.
use vstd::prelude::*;
use crate::geometry::{center_spec, field_center, HalfCell, Screen};

verus! {

/// Which of the three palette colours something takes.
#[derive(Clone, Copy, Debug, PartialEq, Eq)]
pub enum ColorSlot {
    Accent,
    /// The accent's hue turned a third of the way round the colour wheel.
    Plus,
    /// The accent's hue turned a third of the way back.
    Minus,
}

/// The accent colour and its two triadic partners.
#[derive(Clone, Copy, Debug, PartialEq, Eq)]
pub struct Triad {
    pub accent: (u8, u8, u8),
    pub plus: (u8, u8, u8),
    pub minus: (u8, u8, u8),
}

impl Triad {
    pub open spec fn pick_spec(self, slot: ColorSlot) -> (u8, u8, u8) {
        match slot {
            ColorSlot::Accent => self.accent,
            ColorSlot::Plus => self.plus,
            ColorSlot::Minus => self.minus,
        }
    }

    /// The colour in `slot`.
    pub fn pick(&self, slot: ColorSlot) -> (c: (u8, u8, u8))
        ensures
            c == self.pick_spec(slot),
    {
        match slot {
            ColorSlot::Accent => self.accent,
            ColorSlot::Plus => self.plus,
            ColorSlot::Minus => self.minus,
        }
    }
}

/// An attractor as it is created: its position on the half-cell lattice, its
/// colour, the phase offset of its orbit (whole radians) and its angular speed
/// in thousandths of a radian per second.
#[derive(Clone, Copy, Debug, PartialEq, Eq)]
pub struct Attractor {
    pub x: HalfCell,
    pub y: HalfCell,
    pub color: (u8, u8, u8),
    pub phase: u32,
    pub speed_milli: u32,
}

/// The three attractors of a field, all at its centre: the accent one (phase
/// 0, speed 0.6), the turned-forward one (phase 2, speed 0.45) and the
/// turned-back one (phase 4, speed 0.75).
pub open spec fn attractor_set(center: (HalfCell, HalfCell), palette: Triad) -> Seq<Attractor> {
    seq![
        Attractor { x: center.0, y: center.1, color: palette.accent, phase: 0, speed_milli: 600 },
        Attractor { x: center.0, y: center.1, color: palette.plus, phase: 2, speed_milli: 450 },
        Attractor { x: center.0, y: center.1, color: palette.minus, phase: 4, speed_milli: 750 },
    ]
}

/// Replaces the attractors with the three of a fresh field of `cols` by
/// `rows` cells on `screen`.
pub fn create_attractors(
    attractors: &mut Vec<Attractor>,
    screen: &Screen,
    cols: usize,
    rows: usize,
    palette: &Triad,
)
    requires
        screen.wf(),
    ensures
        final(attractors)@ == attractor_set(center_spec(*screen, cols, rows), *palette),
{
    attractors.clear();
    let (cx, cy) = field_center(screen, cols, rows);
    attractors.push(Attractor { x: cx, y: cy, color: palette.accent, phase: 0, speed_milli: 600 });
    attractors.push(Attractor { x: cx, y: cy, color: palette.plus, phase: 2, speed_milli: 450 });
    attractors.push(Attractor { x: cx, y: cy, color: palette.minus, phase: 4, speed_milli: 750 });
    assert(attractors@ =~= attractor_set(center_spec(*screen, cols, rows), *palette));
}

/// Sparks thrown out by a dying firefly.
pub const SPARKS_PER_KILL: usize = 12;

/// An edge of the field.
#[derive(Clone, Copy, Debug, PartialEq, Eq)]
pub enum Edge {
    Top,
    Right,
    Bottom,
    Left,
}

/// Where a firefly enters the field: the edge, the coordinate pinned by that
/// edge (the row for top and bottom, the column for left and right) and the
/// extent over which the other coordinate is drawn.
#[derive(Clone, Copy, Debug, PartialEq, Eq)]
pub struct Entry {
    pub edge: Edge,
    pub pinned: usize,
    pub span: usize,
}

/// The entry for the drawn border number: 0 the top edge, 1 the right, 2 the
/// bottom, anything else the left.
pub open spec fn entry_spec(border: u32, cols: usize, rows: usize) -> Entry {
    if border == 0 {
        Entry { edge: Edge::Top, pinned: 0, span: cols }
    } else if border == 1 {
        Entry { edge: Edge::Right, pinned: cols, span: rows }
    } else if border == 2 {
        Entry { edge: Edge::Bottom, pinned: rows, span: cols }
    } else {
        Entry { edge: Edge::Left, pinned: 0, span: rows }
    }
}

/// Where on the border of a `cols` by `rows` field a firefly enters, for the
/// drawn border number.
pub fn spawn_entry(border: u32, cols: usize, rows: usize) -> (e: Entry)
    ensures
        e == entry_spec(border, cols, rows),
{
    match border {
        0 => Entry { edge: Edge::Top, pinned: 0, span: cols },
        1 => Entry { edge: Edge::Right, pinned: cols, span: rows },
        2 => Entry { edge: Edge::Bottom, pinned: rows, span: cols },
        _ => Entry { edge: Edge::Left, pinned: 0, span: rows },
    }
}

/// A firefly: its motion `body` (kept by the caller), its colour, its size
/// class and the cells of its trail, oldest first.
pub struct Firefly<B> {
    pub body: B,
    pub color: (u8, u8, u8),
    pub size: u8,
    pub history: Vec<(i32, i32)>,
}

impl<B> Firefly<B> {
    /// A firefly that has not moved yet: no trail.
    pub fn new(body: B, color: (u8, u8, u8), size: u8) -> (f: Firefly<B>)
        ensures
            f.body == body,
            f.color == color,
            f.size == size,
            f.history@ == Seq::<(i32, i32)>::empty(),
    {
        Firefly { body, color, size, history: Vec::new() }
    }
}

/// Adds a firefly entering from the border, coloured from the palette slot it
/// drew, with the given size class and no trail.
pub fn spawn_firefly<B>(
    fireflies: &mut Vec<Firefly<B>>,
    body: B,
    slot: ColorSlot,
    size: u8,
    palette: &Triad,
)
    ensures
        final(fireflies)@.len() == old(fireflies)@.len() + 1,
        final(fireflies)@.take(old(fireflies)@.len() as int) == old(fireflies)@,
        final(fireflies)@.last().body == body,
        final(fireflies)@.last().color == palette.pick_spec(slot),
        final(fireflies)@.last().size == size,
        final(fireflies)@.last().history@ == Seq::<(i32, i32)>::empty(),
{
    let color = palette.pick(slot);
    fireflies.push(Firefly::new(body, color, size));
    assert(fireflies@.take(old(fireflies)@.len() as int) =~= old(fireflies)@);
}

/// Each palette slot gives its own colour.
pub proof fn lemma_pick_slots(p: Triad)
    ensures
        p.pick_spec(ColorSlot::Accent) == p.accent,
        p.pick_spec(ColorSlot::Plus) == p.plus,
        p.pick_spec(ColorSlot::Minus) == p.minus,
{
}

/// A fresh field has three attractors, all at its centre, in the accent
/// colour and its two triadic partners, with phases 0, 2 and 4 and speeds
/// 0.6, 0.45 and 0.75.
pub proof fn lemma_attractor_set(center: (HalfCell, HalfCell), palette: Triad)
    ensures
        attractor_set(center, palette).len() == 3,
        forall|i: int|
            0 <= i < 3 ==> (#[trigger] attractor_set(center, palette)[i]).x == center.0
                && attractor_set(center, palette)[i].y == center.1,
        attractor_set(center, palette)[0].color == palette.accent,
        attractor_set(center, palette)[1].color == palette.plus,
        attractor_set(center, palette)[2].color == palette.minus,
        attractor_set(center, palette)[0].phase == 0,
        attractor_set(center, palette)[1].phase == 2,
        attractor_set(center, palette)[2].phase == 4,
        attractor_set(center, palette)[0].speed_milli == 600,
        attractor_set(center, palette)[1].speed_milli == 450,
        attractor_set(center, palette)[2].speed_milli == 750,
{
}

/// A firefly enters on the edge its border number names (0 top, 1 right,
/// 2 bottom, any other left), pinned to that edge's row or column, and its
/// free coordinate ranges over the full length of that edge.
pub proof fn lemma_entry_edges(border: u32, cols: usize, rows: usize)
    ensures
        border == 0 ==> entry_spec(border, cols, rows).edge == Edge::Top && entry_spec(
            border,
            cols,
            rows,
        ).pinned == 0 && entry_spec(border, cols, rows).span == cols,
        border == 1 ==> entry_spec(border, cols, rows).edge == Edge::Right && entry_spec(
            border,
            cols,
            rows,
        ).pinned == cols && entry_spec(border, cols, rows).span == rows,
        border == 2 ==> entry_spec(border, cols, rows).edge == Edge::Bottom && entry_spec(
            border,
            cols,
            rows,
        ).pinned == rows && entry_spec(border, cols, rows).span == cols,
        border >= 3 ==> entry_spec(border, cols, rows).edge == Edge::Left && entry_spec(
            border,
            cols,
            rows,
        ).pinned == 0 && entry_spec(border, cols, rows).span == rows,
{
}

} // verus!
