//! How many fireflies and stars the field holds, and how the populations are
//! brought to their targets.
use vstd::prelude::*;

verus! {

/// `v` held between `lo` and `hi`.
pub open spec fn clamp_int(v: int, lo: int, hi: int) -> int {
    if v < lo {
        lo
    } else if v > hi {
        hi
    } else {
        v
    }
}

fn clamp_usize(v: usize, lo: usize, hi: usize) -> (c: usize)
    requires
        lo <= hi,
    ensures
        c == clamp_int(v as int, lo as int, hi as int),
{
    if v < lo {
        lo
    } else if v > hi {
        hi
    } else {
        v
    }
}

/// Fireflies for a `cols` by `rows` grid before quality and battery scaling:
/// one per 45 cells, held between 30 and 60.
pub fn firefly_base_target(cols: usize, rows: usize) -> (n: usize)
    requires
        cols * rows <= usize::MAX,
    ensures
        n == clamp_int((cols * rows) / 45, 30, 60),
        30 <= n <= 60,
{
    clamp_usize((cols * rows) / 45, 30, 60)
}

/// Backdrop stars for a `cols` by `rows` grid before quality and battery
/// scaling: one per 25 cells, held between 30 and 120.
pub fn star_base_target(cols: usize, rows: usize) -> (n: usize)
    requires
        cols * rows <= usize::MAX,
    ensures
        n == clamp_int((cols * rows) / 25, 30, 120),
        30 <= n <= 120,
{
    clamp_usize((cols * rows) / 25, 30, 120)
}

/// Brings a population to `target`: a population that is too large loses its
/// newest members; for one that is too small, returns how many new members the
/// caller must add (and leaves it as it is).
pub fn resize_population<T>(items: &mut Vec<T>, target: usize) -> (missing: usize)
    ensures
        old(items)@.len() > target ==> final(items)@ == old(items)@.take(target as int)
            && missing == 0,
        old(items)@.len() <= target ==> final(items)@ == old(items)@ && missing == target
            - old(items)@.len(),
        final(items)@.len() + missing == target,
{
    if items.len() > target {
        items.truncate(target);
        0
    } else if items.len() < target && target > 0 {
        target - items.len()
    } else {
        0
    }
}

/// The glyph of the backdrop star created at position `index`.
pub open spec fn star_glyph_spec(index: int) -> char {
    if index % 8 == 0 {
        '✦'
    } else if index % 3 == 0 {
        '+'
    } else {
        '.'
    }
}

/// Glyph of the star that takes position `index`: a four-pointed star at every
/// eighth position, a plus at other multiples of three, a dot elsewhere.
pub fn star_glyph(index: usize) -> (ch: char)
    ensures
        ch == star_glyph_spec(index as int),
        index % 8 == 0 ==> ch == '✦',
        index % 8 != 0 && index % 3 == 0 ==> ch == '+',
        index % 8 != 0 && index % 3 != 0 ==> ch == '.',
{
    if index % 8 == 0 {
        '✦'
    } else if index % 3 == 0 {
        '+'
    } else {
        '.'
    }
}

/// The star glyphs repeat every 24 positions.
pub proof fn lemma_star_glyph_period(index: int)
    requires
        0 <= index,
    ensures
        star_glyph_spec(index + 24) == star_glyph_spec(index),
{
    assert((index + 24) % 8 == index % 8);
    assert((index + 24) % 3 == index % 3);
}

/// Every eighth star (positions 0, 8, 16, ...) is a four-pointed star; of the
/// others, every multiple of three is a plus and the rest are dots.
pub proof fn lemma_star_glyph_values(index: int)
    requires
        0 <= index,
    ensures
        index % 8 == 0 ==> star_glyph_spec(index) == '✦',
        index % 8 != 0 && index % 3 == 0 ==> star_glyph_spec(index) == '+',
        index % 8 != 0 && index % 3 != 0 ==> star_glyph_spec(index) == '.',
        star_glyph_spec(8 * index) == '✦',
{
    assert((8 * index) % 8 == 0);
}

/// The targets are a fixed share of the grid, held within their bounds: a
/// grid whose share lies within the bounds gets exactly that share.
pub proof fn lemma_targets_follow_area(area: int)
    requires
        0 <= area,
    ensures
        30 <= clamp_int(area / 45, 30, 60) <= 60,
        30 * 45 <= area < 61 * 45 ==> clamp_int(area / 45, 30, 60) == area / 45,
        area < 30 * 45 ==> clamp_int(area / 45, 30, 60) == 30,
        area >= 61 * 45 ==> clamp_int(area / 45, 30, 60) == 60,
        30 <= clamp_int(area / 25, 30, 120) <= 120,
        30 * 25 <= area < 121 * 25 ==> clamp_int(area / 25, 30, 120) == area / 25,
        area < 30 * 25 ==> clamp_int(area / 25, 30, 120) == 30,
        area >= 121 * 25 ==> clamp_int(area / 25, 30, 120) == 120,
{
}

} // verus!
