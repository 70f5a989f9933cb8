use falling_sand::element::Element;
use falling_sand::element::SubstanceKind;
use falling_sand::world::World;

fn kind_at(w: &World, x: usize, y: usize) -> SubstanceKind {
    w.cell(y * w.width + x).kind
}

#[test]
fn substance_registry_properties() {
    let air = Element::air();
    assert_eq!(air.kind, SubstanceKind::Air);
    assert!(!air.is_stationary);
    assert!(!air.is_updatable);
    assert_eq!(air.density, 0);
    assert_eq!(
        (air.color.r, air.color.g, air.color.b, air.color.a),
        (0x00, 0x00, 0x00, 0xff)
    );

    let stone = Element::stone();
    assert_eq!(stone.kind, SubstanceKind::Stone);
    assert!(stone.is_stationary);
    assert!(!stone.is_updatable);
    assert_eq!(stone.density, 2);
    assert_eq!(
        (stone.color.r, stone.color.g, stone.color.b, stone.color.a),
        (0x7f, 0x7f, 0x7f, 0xff)
    );

    let sand = Element::sand();
    assert_eq!(sand.kind, SubstanceKind::Sand);
    assert!(sand.is_stationary);
    assert!(sand.is_updatable);
    assert_eq!(sand.density, 2);
    assert_eq!(
        (sand.color.r, sand.color.g, sand.color.b, sand.color.a),
        (0x5e, 0x48, 0x00, 0xff)
    );

    let water = Element::water();
    assert_eq!(water.kind, SubstanceKind::Water);
    assert!(water.is_stationary);
    assert!(water.is_updatable);
    assert_eq!(water.density, 1);
    assert_eq!(
        (water.color.r, water.color.g, water.color.b, water.color.a),
        (0x5e, 0x48, 0xe8, 0xff)
    );

    assert!(sand.density > water.density);
    assert!(water.density > air.density);
}

#[test]
fn of_kind_matches_constructors() {
    assert_eq!(Element::of_kind(SubstanceKind::Air), Element::air());
    assert_eq!(Element::of_kind(SubstanceKind::Stone), Element::stone());
    assert_eq!(Element::of_kind(SubstanceKind::Sand), Element::sand());
    assert_eq!(Element::of_kind(SubstanceKind::Water), Element::water());
}

#[test]
fn new_grid_is_all_air() {
    let w = World::new(3, 4);
    assert_eq!(w.width, 3);
    assert_eq!(w.height, 4);
    for i in 0..12 {
        assert_eq!(w.cell(i), Element::air());
        assert_eq!(*w.element(i), Element::air());
    }
}

#[test]
fn setup_builds_stone_floor() {
    let mut w = World::new(4, 3);
    w.setup();
    for x in 0..4 {
        for y in 0..3 {
            let expected = if y == 2 {
                SubstanceKind::Stone
            } else {
                SubstanceKind::Air
            };
            assert_eq!(kind_at(&w, x, y), expected);
            // The scratch buffer is synchronized with the current one.
            assert_eq!(w.element(y * 4 + x).kind, expected);
        }
    }
}

#[test]
fn index_and_within_bounds() {
    let w = World::new(5, 7);
    assert_eq!(w.index(0, 0), 0);
    assert_eq!(w.index(3, 2), 13);
    assert_eq!(w.index(4, 6), 34);
    assert!(w.within_bounds(0));
    assert!(w.within_bounds(4));
    assert!(!w.within_bounds(5));
    assert!(!w.within_bounds(-1));
}

#[test]
fn add_writes_both_buffers() {
    let mut w = World::new(2, 2);
    w.add(Element::sand(), 3);
    assert_eq!(w.cell(3), Element::sand());
    assert_eq!(*w.element(3), Element::sand());
}

#[test]
fn switch_swaps_scratch_cells() {
    let mut w = World::new(2, 1);
    w.add(Element::sand(), 0);
    w.switch(0, 1);
    assert_eq!(w.element(0).kind, SubstanceKind::Air);
    assert_eq!(w.element(1).kind, SubstanceKind::Sand);
    // The current buffer is untouched by a switch.
    assert_eq!(w.cell(0).kind, SubstanceKind::Sand);
}

#[test]
fn drop_substance_in_bounds() {
    let mut w = World::new(3, 3);
    w.drop_substance(SubstanceKind::Water, 1, 2);
    assert_eq!(kind_at(&w, 1, 2), SubstanceKind::Water);
    assert_eq!(w.element(2 * 3 + 1).kind, SubstanceKind::Water);
}

#[test]
fn drop_substance_out_of_bounds_is_a_no_op() {
    let mut w = World::new(3, 3);
    w.setup();
    w.drop_substance(SubstanceKind::Sand, 3, 0);
    w.drop_substance(SubstanceKind::Sand, 0, 3);
    w.drop_substance(SubstanceKind::Sand, 100, 100);
    for x in 0..3 {
        for y in 0..3 {
            let expected = if y == 2 {
                SubstanceKind::Stone
            } else {
                SubstanceKind::Air
            };
            assert_eq!(kind_at(&w, x, y), expected);
        }
    }
}

#[test]
fn water_above_air_swaps_in_one_frame() {
    // Density displacement, concretely: water directly above air falls; the
    // air ends up where the water was.
    let mut w = World::new(1, 3);
    w.setup();
    w.drop_substance(SubstanceKind::Water, 0, 0);
    let biases = vec![false, false, false];
    w.update_with_biases(&biases);
    assert_eq!(kind_at(&w, 0, 0), SubstanceKind::Air);
    assert_eq!(kind_at(&w, 0, 1), SubstanceKind::Water);
    assert_eq!(kind_at(&w, 0, 2), SubstanceKind::Stone);
}

#[test]
fn sand_sinks_through_water() {
    // Sand is denser than settled water, so it displaces it downward.
    let mut w = World::new(1, 3);
    w.setup();
    w.drop_substance(SubstanceKind::Water, 0, 1);
    w.drop_substance(SubstanceKind::Sand, 0, 0);
    let biases = vec![true, true, true];
    w.update_with_biases(&biases);
    assert_eq!(kind_at(&w, 0, 0), SubstanceKind::Water);
    assert_eq!(kind_at(&w, 0, 1), SubstanceKind::Sand);
    assert_eq!(kind_at(&w, 0, 2), SubstanceKind::Stone);
}

#[test]
fn stone_never_moves() {
    // A grid of all stone plus one grain of sand: however many frames run,
    // every stone cell keeps its position.
    let mut w = World::new(3, 4);
    for x in 0..3 {
        for y in 0..4 {
            w.drop_substance(SubstanceKind::Stone, x, y);
        }
    }
    w.drop_substance(SubstanceKind::Sand, 1, 1);
    for _ in 0..10 {
        w.update();
        for x in 0..3 {
            for y in 0..4 {
                if x == 1 && y == 1 {
                    assert_eq!(kind_at(&w, x, y), SubstanceKind::Sand);
                } else {
                    assert_eq!(kind_at(&w, x, y), SubstanceKind::Stone);
                }
            }
        }
    }
}

#[test]
fn sand_settles_one_row_per_frame() {
    // A single grain above an all-air column of height 5: it falls one row
    // per frame, rests adjacent to the floor after three frames, and stays
    // there afterwards.
    let mut w = World::new(1, 5);
    w.setup();
    w.drop_substance(SubstanceKind::Sand, 0, 0);
    for frame_no in 0..6 {
        let sand_row = if frame_no < 3 { frame_no } else { 3 };
        for y in 0..5 {
            let expected = if y == sand_row {
                SubstanceKind::Sand
            } else if y == 4 {
                SubstanceKind::Stone
            } else {
                SubstanceKind::Air
            };
            assert_eq!(kind_at(&w, 0, y), expected);
        }
        w.update();
    }
}

#[test]
fn water_spreads_laterally() {
    // Water with stone below and on the biased diagonal, but air directly
    // beside on the biased side, takes the lateral tier.
    let mut w = World::new(3, 2);
    w.setup();
    w.drop_substance(SubstanceKind::Water, 0, 0);
    // Bias false means right: the diagonal (1, 1) is stone, (1, 0) is air.
    let biases = vec![false; 6];
    w.update_with_biases(&biases);
    assert_eq!(kind_at(&w, 0, 0), SubstanceKind::Air);
    assert_eq!(kind_at(&w, 1, 0), SubstanceKind::Water);
    assert_eq!(kind_at(&w, 2, 0), SubstanceKind::Air);
}

#[test]
fn water_stays_put_when_bias_points_at_the_edge() {
    // The same configuration with the bias toward the grid edge: the clamped
    // diagonal and lateral targets are blocked, so the cell does not move.
    let mut w = World::new(3, 2);
    w.setup();
    w.drop_substance(SubstanceKind::Water, 0, 0);
    let biases = vec![true; 6];
    w.update_with_biases(&biases);
    assert_eq!(kind_at(&w, 0, 0), SubstanceKind::Water);
    assert_eq!(kind_at(&w, 1, 0), SubstanceKind::Air);
}

#[test]
fn edge_cell_never_wraps() {
    // A movable cell at column 0 with a left bias: every target clamps to
    // column 0, nothing wraps to the opposite edge, and no access leaves the
    // grid. Boxed in by stone below and a water neighbour beside, the cell
    // stays put and the whole grid is unchanged.
    let mut w = World::new(2, 3);
    w.setup();
    w.drop_substance(SubstanceKind::Stone, 0, 1);
    w.drop_substance(SubstanceKind::Stone, 1, 1);
    w.drop_substance(SubstanceKind::Water, 0, 0);
    w.drop_substance(SubstanceKind::Water, 1, 0);
    let biases = vec![true; 6];
    w.update_with_biases(&biases);
    assert_eq!(kind_at(&w, 0, 0), SubstanceKind::Water);
    assert_eq!(kind_at(&w, 1, 0), SubstanceKind::Water);
    assert_eq!(kind_at(&w, 0, 1), SubstanceKind::Stone);
    assert_eq!(kind_at(&w, 1, 1), SubstanceKind::Stone);
    assert_eq!(kind_at(&w, 0, 2), SubstanceKind::Stone);
    assert_eq!(kind_at(&w, 1, 2), SubstanceKind::Stone);
}

#[test]
fn draw_round_trip_all_stone() {
    let mut w = World::new(2, 2);
    for x in 0..2 {
        for y in 0..2 {
            w.drop_substance(SubstanceKind::Stone, x, y);
        }
    }
    let mut frame = vec![0u8; 16];
    w.draw(&mut frame);
    assert_eq!(frame.len(), 16);
    for i in 0..4 {
        assert_eq!(
            &frame[4 * i..4 * i + 4],
            &[0x7f, 0x7f, 0x7f, 0xff],
            "cell {} has the wrong color",
            i
        );
    }
}

#[test]
fn draw_writes_each_substance_color() {
    let mut w = World::new(2, 2);
    w.drop_substance(SubstanceKind::Sand, 1, 0);
    w.drop_substance(SubstanceKind::Water, 0, 1);
    w.drop_substance(SubstanceKind::Stone, 1, 1);
    let mut frame = vec![0u8; 16];
    w.draw(&mut frame);
    assert_eq!(&frame[0..4], &[0x00, 0x00, 0x00, 0xff]);
    assert_eq!(&frame[4..8], &[0x5e, 0x48, 0x00, 0xff]);
    assert_eq!(&frame[8..12], &[0x5e, 0x48, 0xe8, 0xff]);
    assert_eq!(&frame[12..16], &[0x7f, 0x7f, 0x7f, 0xff]);
}

#[test]
fn frame_atomicity_stacked_column() {
    // Two stacked water cells over one air cell: within a frame the upper
    // cell's decision reads the pre-frame snapshot, so only the lower cell
    // falls; the upper one follows a frame later.
    let mut w = World::new(1, 4);
    w.setup();
    w.drop_substance(SubstanceKind::Water, 0, 0);
    w.drop_substance(SubstanceKind::Water, 0, 1);
    w.update();
    assert_eq!(kind_at(&w, 0, 0), SubstanceKind::Water);
    assert_eq!(kind_at(&w, 0, 1), SubstanceKind::Air);
    assert_eq!(kind_at(&w, 0, 2), SubstanceKind::Water);
    assert_eq!(kind_at(&w, 0, 3), SubstanceKind::Stone);
    w.update();
    assert_eq!(kind_at(&w, 0, 0), SubstanceKind::Air);
    assert_eq!(kind_at(&w, 0, 1), SubstanceKind::Water);
    assert_eq!(kind_at(&w, 0, 2), SubstanceKind::Water);
    assert_eq!(kind_at(&w, 0, 3), SubstanceKind::Stone);
}

#[test]
fn substance_symbols() {
    assert_eq!(Element::air().symbol(), ".");
    assert_eq!(Element::stone().symbol(), "#");
    assert_eq!(Element::sand().symbol(), "*");
    assert_eq!(Element::water().symbol(), "~");
}

#[test]
fn description_renders_rows() {
    let mut w = World::new(2, 2);
    w.setup();
    w.drop_substance(SubstanceKind::Sand, 1, 0);
    assert_eq!(w.description(), "\n.*\n##");
}

#[test]
fn update_preserves_substance_counts() {
    // Frames only swap cells, so the number of cells of each kind is
    // invariant under any number of random updates.
    let mut w = World::new(4, 4);
    w.setup();
    w.drop_substance(SubstanceKind::Sand, 0, 0);
    w.drop_substance(SubstanceKind::Water, 2, 0);
    w.drop_substance(SubstanceKind::Water, 3, 1);
    let count = |w: &World, kind: SubstanceKind| {
        let mut n = 0;
        for i in 0..16 {
            if w.cell(i).kind == kind {
                n += 1;
            }
        }
        n
    };
    let sand0 = count(&w, SubstanceKind::Sand);
    let water0 = count(&w, SubstanceKind::Water);
    let stone0 = count(&w, SubstanceKind::Stone);
    let air0 = count(&w, SubstanceKind::Air);
    for _ in 0..8 {
        w.update();
        assert_eq!(count(&w, SubstanceKind::Sand), sand0);
        assert_eq!(count(&w, SubstanceKind::Water), water0);
        assert_eq!(count(&w, SubstanceKind::Stone), stone0);
        assert_eq!(count(&w, SubstanceKind::Air), air0);
    }
}
