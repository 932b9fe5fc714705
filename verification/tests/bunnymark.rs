use bunnymark::count::BunnyCount;
use bunnymark::geom::isqrt;
use bunnymark::geom::normalize;
use bunnymark::geom::Vec2;
use bunnymark::label::bunny_label;
use bunnymark::label::decimal_string;
use bunnymark::mover::move_bunny;
use bunnymark::spawner::run_spawner;
use bunnymark::spawner::Bunny;
use bunnymark::tiler::new_tiles;
use bunnymark::tiler::tile_half_extent;
use bunnymark::tiler::TileCoord;

#[test]
fn counter_starts_empty() {
    let c = BunnyCount::new(128);
    assert_eq!(c.current, 0);
    assert_eq!(c.desired, 128);
}

#[test]
fn pending_counts_shortfall() {
    let c = BunnyCount { current: 2, desired: 10 };
    assert_eq!(c.pending(), 8);
}

#[test]
fn spawner_reaches_target() {
    let mut c = BunnyCount::new(5);
    let spawned = run_spawner(&mut c);
    assert_eq!(spawned.len(), 5);
    assert_eq!(c.current, 5);
    assert_eq!(c.desired, 5);
    assert!(c.current <= c.desired);
    for b in &spawned {
        assert_eq!(b.pos.x, 0);
        assert_eq!(b.pos.y, 0);
        assert!(b.dir.x >= -1000 && b.dir.x <= 1000);
        assert!(b.dir.y >= -1000 && b.dir.y <= 1000);
        assert!(b.speed_factor >= 1000 && b.speed_factor < 4000);
    }
}

#[test]
fn spawner_is_noop_when_saturated() {
    let mut c = BunnyCount { current: 7, desired: 7 };
    let spawned = run_spawner(&mut c);
    assert_eq!(spawned.len(), 0);
    assert_eq!(c.current, 7);
    assert_eq!(c.desired, 7);
}

#[test]
fn trigger_doubles_when_saturated() {
    let mut c = BunnyCount { current: 128, desired: 128 };
    c.handle_trigger(true);
    assert_eq!(c.current, 128);
    assert_eq!(c.desired, 256);
}

#[test]
fn trigger_ignored_while_growing() {
    let mut c = BunnyCount { current: 3, desired: 10 };
    c.handle_trigger(true);
    assert_eq!(c.current, 3);
    assert_eq!(c.desired, 10);
}

#[test]
fn trigger_needs_press() {
    let mut c = BunnyCount { current: 10, desired: 10 };
    c.handle_trigger(false);
    assert_eq!(c.desired, 10);
}

#[test]
fn scenario_double_to_256() {
    let mut c = BunnyCount::new(128);
    let first = run_spawner(&mut c);
    assert_eq!(first.len(), 128);
    assert_eq!(c.current, 128);
    c.handle_trigger(true);
    assert_eq!(c.desired, 256);
    let second = run_spawner(&mut c);
    assert_eq!(second.len(), 128);
    assert_eq!(c.current, 256);
    assert_eq!(first.len() + second.len(), 256);
}

#[test]
fn mover_reflects_at_right_edge() {
    // Window of 100 pixels: roaming half width is 50000 - 13000 milli.
    let mut b = Bunny {
        pos: Vec2 { x: 37000, y: 0 },
        dir: Vec2 { x: 1000, y: 0 },
        speed_factor: 1000,
    };
    move_bunny(&mut b, 0, 100_000, 100_000);
    assert_eq!(b.dir.x, -1000);
    assert_eq!(b.dir.y, 0);
    assert_eq!(b.pos.x, 37000);
}

#[test]
fn mover_reflects_at_left_and_bottom_edges() {
    let mut b = Bunny {
        pos: Vec2 { x: -37000, y: -31500 },
        dir: Vec2 { x: -800, y: -600 },
        speed_factor: 1500,
    };
    move_bunny(&mut b, 0, 100_000, 100_000);
    assert_eq!(b.dir.x, 800);
    assert_eq!(b.dir.y, 600);
}

#[test]
fn mover_advances_by_scaled_velocity() {
    let mut b = Bunny {
        pos: Vec2 { x: 0, y: 0 },
        dir: Vec2 { x: 1000, y: -500 },
        speed_factor: 2000,
    };
    // 0.5 s at 200 px/s times factor 2.0: 200 pixels along x, -100 along y.
    move_bunny(&mut b, 500, 1_000_000_000, 1_000_000_000);
    assert_eq!(b.pos.x, 200_000);
    assert_eq!(b.pos.y, -100_000);
    assert_eq!(b.dir.x, 1000);
    assert_eq!(b.dir.y, -500);
}

#[test]
fn mover_recycles_far_out_bunny() {
    let mut b = Bunny {
        pos: Vec2 { x: 300_000, y: 0 },
        dir: Vec2 { x: 1000, y: 0 },
        speed_factor: 1000,
    };
    // 300000 milli lies past twice the window width of 100000 milli.
    move_bunny(&mut b, 0, 100_000, 100_000);
    assert_eq!(b.pos.x, 0);
    assert_eq!(b.pos.y, 0);
}

#[test]
fn half_extent_matches_grid_formula() {
    assert_eq!(tile_half_extent(0), 1);
    assert_eq!(tile_half_extent(32), 1);
    assert_eq!(tile_half_extent(33), 2);
    assert_eq!(tile_half_extent(640), 11);
    assert_eq!(tile_half_extent(1280), 21);
}

#[test]
fn tiles_cover_smallest_window() {
    let existing: Vec<TileCoord> = Vec::new();
    let tiles = new_tiles(1, 1, &existing);
    let want = vec![
        TileCoord { x: -1, y: -1 },
        TileCoord { x: -1, y: 0 },
        TileCoord { x: 0, y: -1 },
        TileCoord { x: 0, y: 0 },
    ];
    assert_eq!(tiles, want);
}

#[test]
fn tiles_skip_covered_cells() {
    let existing = vec![TileCoord { x: 0, y: 0 }, TileCoord { x: -1, y: 0 }];
    let tiles = new_tiles(1, 1, &existing);
    let want = vec![TileCoord { x: -1, y: -1 }, TileCoord { x: 0, y: -1 }];
    assert_eq!(tiles, want);
}

#[test]
fn tiles_are_unique() {
    let existing: Vec<TileCoord> = Vec::new();
    let tiles = new_tiles(64, 64, &existing);
    assert_eq!(tiles.len(), 16);
    for p in 0..tiles.len() {
        for q in (p + 1)..tiles.len() {
            assert_ne!(tiles[p], tiles[q]);
        }
    }
}

#[test]
fn tiles_are_deterministic() {
    let existing = vec![TileCoord { x: 1, y: 1 }];
    let first = new_tiles(200, 100, &existing);
    let second = new_tiles(200, 100, &existing);
    assert_eq!(first, second);
}

#[test]
fn isqrt_exact_and_floor_values() {
    assert_eq!(isqrt(0), 0);
    assert_eq!(isqrt(1), 1);
    assert_eq!(isqrt(2), 1);
    assert_eq!(isqrt(999_999), 999);
    assert_eq!(isqrt(1_000_000), 1000);
    assert_eq!(isqrt(2_000_000), 1414);
}

#[test]
fn normalize_scales_to_unit_length() {
    assert_eq!(normalize(600, 800), Vec2 { x: 600, y: 800 });
    assert_eq!(normalize(-3, 4), Vec2 { x: -600, y: 800 });
    assert_eq!(normalize(1000, 0), Vec2 { x: 1000, y: 0 });
    assert_eq!(normalize(0, -1), Vec2 { x: 0, y: -1000 });
}

#[test]
fn label_formats_count() {
    assert_eq!(bunny_label(0), "Num. Bunnies: 0");
    assert_eq!(bunny_label(128), "Num. Bunnies: 128");
    assert_eq!(bunny_label(1_000_000), "Num. Bunnies: 1000000");
}

#[test]
fn decimal_renders_all_digits() {
    assert_eq!(decimal_string(0), "0");
    assert_eq!(decimal_string(10), "10");
    assert_eq!(decimal_string(9_876_543_210), "9876543210");
    assert_eq!(decimal_string(u64::MAX), "18446744073709551615");
}
