use saver_gnats::cull::remove_dead;
use saver_gnats::field::SizeWatch;
use saver_gnats::geometry::{HalfCell, MonitorCellBounds, Screen};
use saver_gnats::population::{firefly_base_target, resize_population, star_base_target, star_glyph};
use saver_gnats::swarm::{
    create_attractors, spawn_entry, spawn_firefly, Attractor, ColorSlot, Edge, Entry, Firefly, Triad,
};

fn palette() -> Triad {
    Triad { accent: (200, 50, 50), plus: (50, 200, 50), minus: (50, 50, 200) }
}

#[test]
fn firefly_targets() {
    assert_eq!(firefly_base_target(80, 24), 42);
    assert_eq!(firefly_base_target(10, 10), 30);
    assert_eq!(firefly_base_target(0, 0), 30);
    assert_eq!(firefly_base_target(200, 60), 60);
    assert_eq!(firefly_base_target(45, 61), 60);
}

#[test]
fn star_targets() {
    assert_eq!(star_base_target(80, 24), 76);
    assert_eq!(star_base_target(10, 10), 30);
    assert_eq!(star_base_target(200, 60), 120);
}

#[test]
fn resize_population_truncates_or_reports_missing() {
    let mut v = vec![1, 2, 3, 4, 5];
    assert_eq!(resize_population(&mut v, 3), 0);
    assert_eq!(v, vec![1, 2, 3]);
    assert_eq!(resize_population(&mut v, 7), 4);
    assert_eq!(v, vec![1, 2, 3]);
    assert_eq!(resize_population(&mut v, 3), 0);
    assert_eq!(v, vec![1, 2, 3]);
    let mut e: Vec<u8> = Vec::new();
    assert_eq!(resize_population(&mut e, 0), 0);
}

#[test]
fn star_glyph_pattern() {
    let glyphs: Vec<char> = (0..10).map(star_glyph).collect();
    assert_eq!(glyphs, vec!['✦', '.', '.', '+', '.', '.', '+', '.', '✦', '+']);
    for i in 0..100 {
        assert_eq!(star_glyph(i), star_glyph(i + 24));
    }
}

#[test]
fn remove_dead_keeps_order_and_reports_casualties_high_first() {
    let mut v = vec!['a', 'b', 'c', 'd', 'e', 'f'];
    let removed = remove_dead(&mut v, &[4, 1, 4, 9, 0]);
    assert_eq!(v, vec!['c', 'd', 'f']);
    assert_eq!(removed, vec!['e', 'b', 'a']);
}

#[test]
fn remove_dead_without_deaths() {
    let mut v = vec![1, 2, 3];
    let removed = remove_dead(&mut v, &[]);
    assert_eq!(v, vec![1, 2, 3]);
    assert!(removed.is_empty());
    let removed = remove_dead(&mut v, &[3, 7]);
    assert_eq!(v, vec![1, 2, 3]);
    assert!(removed.is_empty());
}

#[test]
fn remove_dead_everything() {
    let mut v = vec![1, 2, 3];
    let removed = remove_dead(&mut v, &[0, 1, 2]);
    assert!(v.is_empty());
    assert_eq!(removed, vec![3, 2, 1]);
}

#[test]
fn attractors_start_at_the_centre() {
    let mut attractors = vec![Attractor {
        x: HalfCell { cell: 1, half: false },
        y: HalfCell { cell: 1, half: false },
        color: (0, 0, 0),
        phase: 9,
        speed_milli: 9,
    }];
    create_attractors(&mut attractors, &Screen::Secondary, 80, 25, &palette());
    let cx = HalfCell { cell: 40, half: false };
    let cy = HalfCell { cell: 12, half: true };
    assert_eq!(
        attractors,
        vec![
            Attractor { x: cx, y: cy, color: (200, 50, 50), phase: 0, speed_milli: 600 },
            Attractor { x: cx, y: cy, color: (50, 200, 50), phase: 2, speed_milli: 450 },
            Attractor { x: cx, y: cy, color: (50, 50, 200), phase: 4, speed_milli: 750 },
        ]
    );
}

#[test]
fn attractors_on_the_primary_monitor() {
    let b = MonitorCellBounds { start_col: 0, end_col: 41, start_row: 0, end_row: 24, is_primary: true };
    let mut attractors = Vec::new();
    create_attractors(&mut attractors, &Screen::Primary(b), 120, 24, &palette());
    assert_eq!(attractors.len(), 3);
    for a in &attractors {
        assert_eq!(a.x, HalfCell { cell: 20, half: false });
        assert_eq!(a.y, HalfCell { cell: 12, half: false });
    }
}

#[test]
fn spawn_entries_by_border() {
    assert_eq!(spawn_entry(0, 80, 24), Entry { edge: Edge::Top, pinned: 0, span: 80 });
    assert_eq!(spawn_entry(1, 80, 24), Entry { edge: Edge::Right, pinned: 80, span: 24 });
    assert_eq!(spawn_entry(2, 80, 24), Entry { edge: Edge::Bottom, pinned: 24, span: 80 });
    assert_eq!(spawn_entry(3, 80, 24), Entry { edge: Edge::Left, pinned: 0, span: 24 });
    assert_eq!(spawn_entry(4, 80, 24), Entry { edge: Edge::Left, pinned: 0, span: 24 });
}

#[test]
fn spawn_firefly_appends_with_palette_colour() {
    let mut flies: Vec<Firefly<u32>> = vec![Firefly::new(7, (1, 1, 1), 0)];
    spawn_firefly(&mut flies, 42, ColorSlot::Minus, 3, &palette());
    assert_eq!(flies.len(), 2);
    assert_eq!(flies[0].body, 7);
    assert_eq!(flies[1].body, 42);
    assert_eq!(flies[1].color, (50, 50, 200));
    assert_eq!(flies[1].size, 3);
    assert!(flies[1].history.is_empty());
    assert_eq!(palette().pick(ColorSlot::Plus), (50, 200, 50));
    assert_eq!(palette().pick(ColorSlot::Accent), (200, 50, 50));
}

#[test]
fn size_watch_reports_each_change_once() {
    let mut w = SizeWatch::new();
    assert!(w.observe(80, 24));
    assert!(!w.observe(80, 24));
    assert!(w.observe(81, 24));
    assert!(w.observe(81, 25));
    assert!(!w.observe(81, 25));
    assert_eq!(w, SizeWatch { last_cols: 81, last_rows: 25 });
    let mut z = SizeWatch::new();
    assert!(!z.observe(0, 0));
}

#[test]
fn resize_then_fill_reaches_target() {
    for target in [0usize, 2, 5, 9] {
        let mut v = vec![0u8; 5];
        let missing = resize_population(&mut v, target);
        assert_eq!(v.len() + missing, target);
    }
}

#[test]
fn a_dying_firefly_throws_twelve_sparks() {
    assert_eq!(saver_gnats::swarm::SPARKS_PER_KILL, 12);
}
