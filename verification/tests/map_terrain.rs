use don_sim::map_terrain::land;
use don_sim::map_terrain::space;
use don_sim::map_terrain::tflag;
use don_sim::map_terrain::wflag;
use don_sim::map_terrain::{
    div_3, floor_div, Adler32, ByteSink, Coord, DataWalk, FCoord, RCoord, TCoord, UCoord, WCoord,
    WData, World, WorldSection, COORD_PER_FCELL, COORD_PER_RCELL, COORD_PER_TILE,
    COORD_PER_UCELL, COORD_PER_WCELL, FCELLS_PER_WCELL, NEIGHBOUR4_DX, NEIGHBOUR4_DY,
    NEIGHBOUR_DX, NEIGHBOUR_DY, SPACE_APPROACH_GROUPS, SPACE_PROBE_DX, SPACE_PROBE_DY,
    TILES_IN_WCELL, TILES_PER_WCELL, WCELLS_PER_RCELL,
};

/// `div_3_table[i] == floor(i/3)` on both sides of zero, as
/// `init_coord_lookup_array` builds it.
#[test]
fn div_3_matches_floor() {
    for i in -400..400 {
        let expect = (i as f64 / 3.0).floor() as i32;
        assert_eq!(div_3(i), expect, "div_3({i})");
    }
}

/// The engine's shift-then-div-3 composition equals plain floor division by the cell
/// size, for negative coordinates too.
#[test]
fn coord_conversions_are_floor_division() {
    for c in (-20_000..20_000).step_by(7) {
        let c = Coord(c);
        assert_eq!(UCoord::from_coord(c).0, floor_div(c.0, COORD_PER_UCELL));
        assert_eq!(TCoord::from_coord(c).0, floor_div(c.0, COORD_PER_TILE));
        assert_eq!(FCoord::from_coord(c).0, floor_div(c.0, COORD_PER_FCELL));
        assert_eq!(WCoord::from_coord(c).0, floor_div(c.0, COORD_PER_WCELL));
        assert_eq!(RCoord::from_coord(c).0, floor_div(c.0, COORD_PER_RCELL));
    }
}

/// The ladder is internally consistent: T→W by `>>2` agrees with Coord→W directly.
#[test]
fn ladder_is_consistent() {
    assert_eq!(COORD_PER_TILE, COORD_PER_UCELL * 4);
    assert_eq!(COORD_PER_WCELL, COORD_PER_TILE * TILES_PER_WCELL);
    assert_eq!(COORD_PER_FCELL * FCELLS_PER_WCELL, COORD_PER_WCELL);
    assert_eq!(COORD_PER_RCELL, COORD_PER_WCELL * WCELLS_PER_RCELL);
    for c in (-30_000..30_000).step_by(13) {
        let c = Coord(c);
        assert_eq!(TCoord::from_coord(c).to_wcoord(), WCoord::from_coord(c));
    }
}

/// `WCoord::operator TCoord` returns the *centre* tile, `get_tcorner` the corner, and
/// `traverse_x/y` enumerate the cell's 4x4 tiles exactly once each.
#[test]
fn wcell_traversal_covers_sixteen_tiles() {
    let w = WCoord(3);
    assert_eq!(w.tcorner().0, 12);
    assert_eq!(w.to_tcoord_centre().0, 14);
    let mut seen = std::collections::HashSet::new();
    for i in 0..TILES_IN_WCELL {
        seen.insert((w.traverse_x(i).0, w.traverse_y(i).0));
    }
    assert_eq!(seen.len(), 16);
    for (x, y) in seen {
        assert!((12..16).contains(&x) && (12..16).contains(&y));
    }
}

/// `World::init` derived dimensions, exactly as the instruction stream computes them.
#[test]
fn world_init_dimensions() {
    let w = World::init_default_rules(80, 60);
    assert_eq!((w.xs, w.ys, w.size), (80, 60, 4800));
    assert_eq!((w.tile_xs, w.tile_ys, w.tile_size), (320, 240, 76800));
    assert_eq!((w.fog_xs, w.fog_ys, w.fog_size), (160, 120, 19200));
    assert_eq!((w.reg_xs, w.reg_ys, w.reg_size), (40, 30, 1200));
    assert_eq!(w.sea_map, -1);
    assert_eq!(w.player_territory_limit, 44);
    assert_eq!(w.colonized_territory_limit, 44);
    assert_eq!(w.player_territory_limit_civic, 4);
    assert_eq!(w.player_territory_limit_city, 4);
    assert_eq!(w.wdata.len(), 4800);
    assert_eq!(w.tdata.len(), 76800);
    assert_eq!(w.seen.len(), 19200);
    assert_eq!(w.wcoord_seen.len(), 4800);
    assert_eq!(w.danger[7].len(), 1200);
    // The whole map, measured in raw Coord units.
    assert_eq!(w.tile_xs * COORD_PER_TILE, w.xs * COORD_PER_WCELL);
}

#[test]
fn start_city_bits_are_row_major_and_lsb_first() {
    let mut w = World::init_default_rules(9, 2);
    w.start_city_locs = vec![0; 3];
    // width=9, (8,1) => bit 17 => byte 2, mask 0x02.
    w.start_city_locs[2] = 0x02;
    assert!(w.start_city_wcoord(WCoord(8), WCoord(1)));
    assert!(!w.start_city_wcoord(WCoord(7), WCoord(1)));
}

/// `World::wipe` leaves every cell in the state the disassembly writes.
#[test]
fn wipe_defaults_match_the_disassembly() {
    let d = WData::default();
    assert_eq!(d.flags, 0);
    assert_eq!(d.land, 2);
    assert_eq!(d.land_sub, 0);
    assert_eq!(d.region, 64);
    assert_eq!(d.region2, 0);
    assert_eq!(d.down, -1);
    assert_eq!(d.down_who, 0);
    assert_eq!((d.who, d.who2), (-1, -1));
    assert_eq!((d.blocked, d.bad, d.solid, d.was_seen), (0, 0, 0, 0));
    // 21 checksummed bytes: 02 at land, 40 00 at region, ff ff at down, ff ff at who/who2.
    let b = d.checksum_bytes();
    assert_eq!(&b[0..8], &[0, 0, 2, 0, 0x40, 0, 0, 0]);
    assert_eq!(&b[8..12], &[0xff, 0xff, 0, 0]);
    assert_eq!(&b[15..17], &[0xff, 0xff]);
}

/// `offmap_world`'s 28 bytes, byte-for-byte from `0x00c899a0`.
#[test]
fn offmap_world_bytes() {
    let raw: [u8; 21] = [
        0x00, 0x00, 0x02, 0x00, 0x00, 0x00, 0x00, 0x00, 0xff, 0xff, 0x00, 0x00, 0x00, 0x00,
        0x00, 0xff, 0xff, 0x00, 0x00, 0x00, 0x00,
    ];
    assert_eq!(WData::offmap().checksum_bytes(), raw);
}

/// The blocker field is a 2-bit enum, not three independent bits.
#[test]
fn blocker_field_is_exclusive() {
    let mut w = World::init_default_rules(8, 8);
    w.set_cliff_at(4, 4);
    assert!(w.is_cliff_at(4, 4));
    assert!(!w.is_mountain_at(4, 4));
    assert!(w.is_blocked_at(4, 4, false));
    w.set_mountain_at(4, 4, true);
    assert!(w.is_mountain_at(4, 4));
    assert!(!w.is_cliff_at(4, 4));
    w.set_building_at(4, 4, true);
    assert!(w.is_built_at(4, 4));
    assert!(!w.is_mountain_at(4, 4));
    // Clearing a building only clears the field when the field *is* BUILDING.
    w.set_building_at(4, 4, false);
    assert_eq!(w.tmask(4, 4) & tflag::BLOCKER_MASK, 0);
}

/// The surface field is likewise exclusive: road, water and trees share bits 4-5.
#[test]
fn surface_field_is_exclusive() {
    let mut w = World::init_default_rules(8, 8);
    w.set_road_at(5, 5, true, 0, true);
    assert_eq!(w.tmask(5, 5) & tflag::SURFACE_MASK, tflag::SURFACE_ROAD);
    assert!(w.wdata(1, 1).flags & wflag::HAS_ROAD != 0);
    w.set_tocean(5, 5);
    assert!(w.is_tocean(5, 5));
    w.set_tree_at(5, 5, true);
    assert!(w.is_tree_at(5, 5));
    assert!(!w.is_tocean(5, 5));
    // Removing the last road tile clears the cell-level flag.
    w.set_road_at(5, 5, false, 0, true);
    assert!(w.wdata(1, 1).flags & wflag::HAS_ROAD == 0);
}

/// Blocking a tile paints BAD_PATH on the 8-ring and keeps `WData::bad` in step.
#[test]
fn blocked_propagates_bad_path_to_the_eight_ring() {
    let mut w = World::init_default_rules(8, 8);
    w.set_blocked_at(10, 10, true);
    for i in 0..8 {
        let (nx, ny) = (10 + NEIGHBOUR_DX[i], 10 + NEIGHBOUR_DY[i]);
        assert!(w.tmask(nx, ny) & tflag::BAD_PATH != 0, "neighbour {i}");
    }
    assert_eq!(w.tmask(10, 10) & tflag::BAD_PATH, 0);
    assert_eq!(w.wdata(2, 2).blocked, 1);
    // 8 neighbours of (10,10) all land in W cell (2,2) except none — (9..11, 9..11)
    // spans W cells (2,2) only for x,y in 8..11 -> (2,2) covers tiles 8..11.
    assert_eq!(w.wdata(2, 2).bad, 8);
    w.set_blocked_at(10, 10, false);
    assert_eq!(w.wdata(2, 2).blocked, 0);
    assert_eq!(w.wdata(2, 2).bad, 0);
}

/// River bits maintain the owning cell's HAS_RIVER exactly like the engine's rescan.
#[test]
fn river_cell_flag_tracks_its_sixteen_tiles() {
    let mut w = World::init_default_rules(8, 8);
    w.set_river_at(8, 8, true);
    w.set_river_at(9, 8, true);
    assert!(w.wdata(2, 2).flags & wflag::HAS_RIVER != 0);
    w.set_river_at(8, 8, false);
    assert!(
        w.wdata(2, 2).flags & wflag::HAS_RIVER != 0,
        "one river tile left"
    );
    w.set_river_at(9, 8, false);
    assert!(w.wdata(2, 2).flags & wflag::HAS_RIVER == 0);
}

/// `get_tregion` reads `region2` only for water tiles of a WATERHALF cell.
#[test]
fn tregion_splits_waterhalf_cells() {
    let mut w = World::init_default_rules(8, 8);
    w.wdata_mut(1, 1).region = 7;
    w.wdata_mut(1, 1).region2 = 9;
    assert_eq!(w.get_tregion(4, 4), 7);
    w.set_waterhalf(4, 4, true);
    assert_eq!(w.get_tregion(4, 4), 9);
    assert_eq!(w.get_tregion(5, 4), 7);
    assert_eq!(w.num_waterhalf(1, 1), 1);
}

/// `set_oil_at` reports the Coord the engine spawns the oil `Good` at.
#[test]
fn oil_good_lands_at_the_world_cell_centre() {
    let mut w = World::init_default_rules(8, 8);
    assert_eq!(w.set_oil_at(3, 5, true), (3 * 768 + 384, 5 * 768 + 384));
    assert!(w.is_oil_at(3, 5));
}

/// adler-32 against the zlib definition on a known vector.
#[test]
fn adler32_known_vector() {
    let mut a = Adler32::new();
    a.walk(b"Wikipedia");
    assert_eq!(a.finish(), 0x11E60398);
}

/// The world channel is order- and content-sensitive, and stable.
#[test]
fn world_checksum_is_deterministic_and_sensitive() {
    let a = World::init_default_rules(24, 24);
    let b = World::init_default_rules(24, 24);
    assert_eq!(a.checksum(), b.checksum());

    let mut c = World::init_default_rules(24, 24);
    c.set_cliff_at(10, 10);
    assert_ne!(a.checksum(), c.checksum());

    // A change confined to the 3 padding bytes / the CollBlock pointer must not move
    // the checksum, but allocating the block itself must (section 9 walks a presence
    // flag per cell).
    let mut d = World::init_default_rules(24, 24);
    d.new_coll_block(0, 0);
    assert_ne!(a.checksum(), d.checksum());
}

/// Byte accounting for the walk, so a regression in section order is caught by size
/// as well as by hash.
#[test]
fn world_channel_byte_count() {
    let w = World::init_default_rules(16, 16);
    let mut a = Adler32::new();
    w.walk(&mut a);
    let size = 16 * 16i64; // 256 W cells
    let tile_size = 64 * 64i64;
    let fog_size = 32 * 32i64;
    let reg_size = 8 * 8i64;
    let expect = 8                    // §1 xs, ys
        + 6 * 4                       // §2/§3 six empty SimpleArrays, length word only
        + 120                         // §4
        + size * 21                   // §5
        + tile_size * 2               // §6 tdata
        + fog_size * 3                // §6 seen/seen2/seen3
        + size                        // §7 wcoord_seen
        + reg_size * 4 * 8            // §8 danger
        + size * 4                    // §9 presence flags, no blocks allocated
        + 4 * 4; // §10-13 four empty arrays
    assert_eq!(a.bytes as i64, expect);
}

/// The section-parameterised walk must be the *same* traversal as the whole-channel
/// walk: concatenating sections 1..=13 in order has to give byte-for-byte the stream
/// `walk_data(w, -1)` produces. This is what makes the per-section digest evidence
/// about the real channel rather than a second, drifting transcription.
#[test]
fn the_thirteen_sections_concatenate_to_the_whole_channel() {
    let mut w = World::init_default_rules(12, 12);
    // Give every section something to say, so no section is vacuously equal.
    w.start_x.items.push(3);
    w.oil_y.items.push(7);
    w.wdata[5].who = 2;
    w.tdata[9] = 0x1234;
    w.seen[3] = 0b101;
    w.wcoord_seen[4] = 1;
    w.danger[6][2] = -9;
    w.new_coll_block(1, 1);
    w.terrain_sync.halfland_locs.items.push((4, 5));
    w.terrain_sync.nuke_hits.items.push(11);

    let whole = w.checksum_image();
    let mut pieces = ByteSink::new();
    let mut counted = 0u64;
    for s in WorldSection::all() {
        let mut one = ByteSink::new();
        w.walk_section(&mut one, s.number());
        counted += one.0.len() as u64;
        pieces.walk(&one.0);
    }
    assert_eq!(
        whole.first_difference(&pieces),
        None,
        "section walk diverges from the whole-channel walk"
    );
    assert_eq!(counted, whole.0.len() as u64);

    // …and the digest agrees with the walk it claims to summarise.
    let sec = w.checksum_sections();
    assert_eq!(sec.full, w.checksum());
    assert_eq!(sec.full, whole.checksum());
    assert_eq!(sec.bytes, whole.0.len() as u64);
    for s in WorldSection::all() {
        let mut one = ByteSink::new();
        w.walk_section(&mut one, s.number());
        assert_eq!(sec.section(s).adler, one.checksum(), "{s:?}");
        assert_eq!(sec.section(s).bytes, one.0.len() as u64, "{s:?}");
    }
}

/// Each section must be non-empty for a populated world — a section that silently walks
/// nothing would make its digest a constant and hide every divergence inside it.
#[test]
fn no_section_is_silently_empty() {
    let mut w = World::init_default_rules(8, 8);
    w.start_x.items.push(1);
    w.start_y.items.push(1);
    w.start_city_x.items.push(1);
    w.start_city_y.items.push(1);
    w.oil_x.items.push(1);
    w.oil_y.items.push(1);
    w.new_coll_block(0, 0);
    w.terrain_sync.halfland_locs.items.push((1, 1));
    w.terrain_sync.halfland_types.items.push(1);
    w.terrain_sync.halfland_subtypes.items.push(1);
    w.terrain_sync.nuke_hits.items.push(1);
    let sec = w.checksum_sections();
    for s in WorldSection::all() {
        assert!(sec.section(s).bytes > 0, "section {s:?} walks nothing");
    }
}

/// `World::clear_seen` `0x006b2250` ends in **two** memsets — `wcoord_seen` (section 7)
/// and `seen` (section 6) — and leaves `seen2` alone. Getting that wrong desyncs on the
/// second frame of any game, which is why it is pinned here.
#[test]
fn clear_seen_clears_both_planes_and_spares_the_explored_one() {
    let mut w = World::init_default_rules(8, 8);
    w.seen[3] = 0xFF;
    w.seen2[3] = 0xFF;
    w.seen3[3] = 0xFF;
    w.wcoord_seen[1] = 0xFF;
    w.clear_seen();
    assert_eq!(w.seen[3], 0);
    assert_eq!(w.wcoord_seen[1], 0);
    assert_eq!(w.seen2[3], 0xFF, "explored accumulates forever");
    assert_eq!(w.seen3[3], 0xFF, "detected is cleared by update_all_seen");
}

/// Seeding: a negative seed is ignored, a non-negative seed is installed.
#[test]
fn map_seed_install() {
    let mut w = World::init_default_rules(8, 8);
    assert_eq!(w.seed_map_generation(-1), None);
    assert_eq!(w.seed, 0);
    assert_eq!(w.seed_map_generation(0x1234_5678), Some(0x1234_5678));
    assert_eq!(w.seed, 0x1234_5678);
}

/// Passability predicates use the exact masks the engine uses.
#[test]
fn passability_masks() {
    let mut w = World::init_default_rules(8, 8);
    w.wdata_mut(2, 2).land = land::FERTILE;
    assert!(w.is_passable(2, 2));
    assert!(w.buildings_allowed(2, 2));
    assert!(w.is_flat(2, 2));
    w.wdata_mut(2, 2).flags |= wflag::ROCKS;
    assert!(
        w.is_passable(2, 2),
        "rocks are passable (0x08 is outside 0x70)"
    );
    assert!(
        !w.buildings_allowed(2, 2),
        "but not buildable (0x08 is inside 0x78)"
    );
    assert!(!w.is_flat(2, 2));
    w.wdata_mut(2, 2).flags |= wflag::MOUNTAINS;
    assert!(!w.is_passable(2, 2));
    assert_eq!(
        w.get_land(2, 2, 1),
        5,
        "mountains outrank rocks in get_land"
    );
}

/// The 16 `space_at_corner` probes tile a 4x4 block exactly, with 0-3 as the core.
#[test]
fn space_probes_tile_a_4x4_block() {
    let mut seen = std::collections::HashSet::new();
    for i in 0..16 {
        seen.insert((SPACE_PROBE_DX[i], SPACE_PROBE_DY[i]));
    }
    assert_eq!(seen.len(), 16);
    for i in 0..4 {
        assert!((1..=2).contains(&SPACE_PROBE_DX[i]), "core probe {i} dx");
        assert!((1..=2).contains(&SPACE_PROBE_DY[i]), "core probe {i} dy");
    }
    // Every approach group is 5 distinct ring probes (never a core probe).
    for g in SPACE_APPROACH_GROUPS.iter() {
        let s: std::collections::HashSet<_> = g.iter().collect();
        assert_eq!(s.len(), 5);
        assert!(g.iter().all(|&i| i >= 4));
    }
}

/// The placement grade the production lane consumes, over the whole range.
#[test]
fn space_at_corner_grades() {
    let mut w = World::init_default_rules(8, 8);
    // Empty world, well inside bounds: everything clear.
    assert_eq!(w.space_at_corner(10, 10, 0, false), space::FULLY_CLEAR);

    // Block one ring tile -> no longer fully clear, but an approach L survives.
    let mut w2 = World::init_default_rules(8, 8);
    w2.set_blocked_at(10 + SPACE_PROBE_DX[7], 10 + SPACE_PROBE_DY[7], true);
    let g = w2.space_at_corner(10, 10, 0, false);
    assert!(g == space::APPROACH_CLEAR || g == space::PARTIAL);
    assert_ne!(g, space::FULLY_CLEAR);

    // Block a core tile -> immediate reject regardless of the ring.
    w.set_blocked_at(10 + SPACE_PROBE_DX[0], 10 + SPACE_PROBE_DY[0], true);
    assert_eq!(w.space_at_corner(10, 10, 0, false), space::CORE_BLOCKED);

    // Foreign territory rejects the same way.
    let mut w3 = World::init_default_rules(8, 8);
    w3.wdata_mut(2, 2).who = 3;
    assert_eq!(w3.space_at_corner(10, 10, 0, false), space::CORE_BLOCKED);
    assert_eq!(w3.space_at_corner(10, 10, 3, false), space::FULLY_CLEAR);

    // Out of bounds counts as blocked: anchoring at the map edge rejects.
    assert_eq!(w3.space_at_corner(31, 31, 3, false), space::CORE_BLOCKED);
}

/// `check_building_wcoord`'s three early rejects.
#[test]
fn check_building_wcoord_gates() {
    let mut w = World::init_default_rules(8, 8);
    assert_eq!(
        w.check_building_wcoord(3, 3, 0, 1, 1, 2, false),
        space::FULLY_CLEAR
    );
    w.wdata_mut(3, 3).flags |= wflag::MOUNTAINS;
    assert_eq!(
        w.check_building_wcoord(3, 3, 0, 1, 1, 2, false),
        space::CORE_BLOCKED
    );
    w.wdata_mut(3, 3).flags &= !wflag::MOUNTAINS;
    w.wdata_mut(3, 3).blocked = 16;
    assert_eq!(
        w.check_building_wcoord(3, 3, 0, 1, 1, 2, false),
        space::CORE_BLOCKED
    );
    w.wdata_mut(3, 3).blocked = 0;
    w.wdata_mut(3, 3).who = 5;
    assert_eq!(
        w.check_building_wcoord(3, 3, 0, 1, 1, 2, false),
        space::CORE_BLOCKED
    );
}

/// Gather access needs a harvestable tile and a dry, unblocked orthogonal neighbour.
#[test]
fn gather_access_needs_a_dry_neighbour() {
    let mut w = World::init_default_rules(8, 8);
    assert!(
        !w.has_gather_access(10, 10),
        "plain ground is not harvestable"
    );
    w.set_tree_at(10, 10, true);
    assert!(w.has_gather_access(10, 10));
    for i in 0..4 {
        w.set_tocean(10 + NEIGHBOUR4_DX[i], 10 + NEIGHBOUR4_DY[i]);
    }
    assert!(!w.has_gather_access(10, 10), "ringed by water");
    w.set_blocked_at(10 + NEIGHBOUR4_DX[0], 10 + NEIGHBOUR4_DY[0], true);
    assert!(!w.has_gather_access(10, 10));
}

/// `is_ocean` is false on a WATERHALF cell even when `land` says water.
#[test]
fn waterhalf_is_not_ocean() {
    let mut w = World::init_default_rules(8, 8);
    w.wdata_mut(1, 1).land = land::OCEAN;
    assert!(w.is_ocean(1, 1));
    w.wdata_mut(1, 1).flags |= wflag::WATERHALF;
    assert!(!w.is_ocean(1, 1));
    assert!(w.is_pass_land(1, 1));
}
