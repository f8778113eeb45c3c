use galileo_maplibre::tiles::{DisplayedTile, TileIndex, TileUpdateFacts, TilesContainer};

const ONE: u32 = 0x3f80_0000;

fn idx(x: i32, y: i32, z: u32) -> TileIndex {
    TileIndex { x, y, z, display_x: x }
}

fn facts(
    opaque: Vec<bool>,
    faded: Vec<u32>,
    fetched: Vec<Option<u64>>,
    overlaps: Vec<Vec<bool>>,
    now: u64,
) -> TileUpdateFacts {
    TileUpdateFacts { opaque, faded, fetched, overlaps, now }
}

#[test]
fn new_tiles_are_fetched_and_fade_in() {
    let mut c = TilesContainer::new();
    assert!(c.requires_animation());
    let needed = vec![idx(0, 0, 1), idx(1, 0, 1)];
    assert_eq!(c.fetch_plan(&needed, 7), vec![true, true]);
    let f = facts(vec![], vec![], vec![Some(10), Some(11)], vec![vec![], vec![]], 1000);
    assert!(c.update_displayed_tiles(&needed, 7, &f));
    let shown = c.displayed_tiles();
    assert_eq!(shown.len(), 2);
    assert_eq!(
        shown[0],
        DisplayedTile { index: idx(0, 0, 1), bundle: 10, style_id: 7, opacity: 0, displayed_at: 1000 }
    );
    assert_eq!(shown[1].bundle, 11);
    assert_eq!(c.displayed_keys(), vec![(idx(0, 0, 1), 7), (idx(1, 0, 1), 7)]);
}

#[test]
fn without_fade_new_tiles_are_opaque() {
    let mut c = TilesContainer::new();
    c.set_fade_in_duration(0);
    assert!(!c.requires_animation());
    let needed = vec![idx(2, 3, 4)];
    let f = facts(vec![], vec![], vec![Some(1)], vec![vec![]], 5);
    assert!(c.update_displayed_tiles(&needed, 0, &f));
    assert_eq!(c.displayed_tiles()[0].opacity, ONE);
}

#[test]
fn opaque_tiles_stay_without_redraw() {
    let mut c = TilesContainer::new();
    c.set_fade_in_duration(0);
    let needed = vec![idx(0, 0, 1)];
    c.update_displayed_tiles(&needed, 0, &facts(vec![], vec![], vec![Some(1)], vec![vec![]], 0));
    assert_eq!(c.fetch_plan(&needed, 0), vec![false]);
    let f = facts(vec![true], vec![ONE], vec![None], vec![vec![false]], 50);
    assert!(!c.update_displayed_tiles(&needed, 0, &f));
    assert_eq!(c.displayed_tiles().len(), 1);
    assert_eq!(c.displayed_tiles()[0].displayed_at, 0);
}

#[test]
fn fading_tiles_advance_and_redraw() {
    let mut c = TilesContainer::new();
    let needed = vec![idx(0, 0, 1)];
    c.update_displayed_tiles(&needed, 0, &facts(vec![], vec![], vec![Some(1)], vec![vec![]], 0));
    let half = 0.5f32.to_bits();
    let f = facts(vec![false], vec![half], vec![None], vec![vec![true]], 150);
    assert!(c.update_displayed_tiles(&needed, 0, &f));
    assert_eq!(c.displayed_tiles()[0].opacity, half);
}

#[test]
fn old_tiles_cover_ground_until_new_ones_are_shown() {
    let mut c = TilesContainer::new();
    c.set_fade_in_duration(0);
    let parent = vec![idx(0, 0, 0), idx(5, 5, 0)];
    c.update_displayed_tiles(
        &parent,
        0,
        &facts(vec![], vec![], vec![Some(1), Some(2)], vec![vec![], vec![]], 0),
    );
    c.set_fade_in_duration(300);
    // The child overlaps the first parent tile only and is not available yet.
    let child = vec![idx(0, 0, 1)];
    let f = facts(vec![true, true], vec![ONE, ONE], vec![None], vec![vec![true, false]], 10);
    assert!(!c.update_displayed_tiles(&child, 0, &f));
    assert_eq!(c.displayed_keys(), vec![(idx(0, 0, 0), 0)]);
    // Once the child arrives, the parent still covers its ground while it fades in.
    let f = facts(vec![true], vec![ONE], vec![Some(3)], vec![vec![true]], 20);
    assert!(c.update_displayed_tiles(&child, 0, &f));
    assert_eq!(c.displayed_keys(), vec![(idx(0, 0, 0), 0), (idx(0, 0, 1), 0)]);
    // When it is opaque, the parent goes.
    let f = facts(vec![true, true], vec![ONE, ONE], vec![None], vec![vec![true, false]], 400);
    assert!(!c.update_displayed_tiles(&child, 0, &f));
    assert_eq!(c.displayed_keys(), vec![(idx(0, 0, 1), 0)]);
}

#[test]
fn repeated_needed_tiles_are_fetched_again_and_shown_once() {
    let mut c = TilesContainer::new();
    c.set_fade_in_duration(0);
    let needed = vec![idx(1, 1, 1)];
    c.update_displayed_tiles(&needed, 0, &facts(vec![], vec![], vec![Some(1)], vec![vec![]], 0));
    let twice = vec![idx(1, 1, 1), idx(1, 1, 1)];
    assert_eq!(c.fetch_plan(&twice, 0), vec![false, true]);
    let f = facts(vec![true], vec![ONE], vec![None, Some(9)], vec![vec![true], vec![true]], 5);
    assert!(c.update_displayed_tiles(&twice, 0, &f));
    let shown = c.displayed_tiles();
    assert_eq!(shown.len(), 1);
    assert_eq!(shown[0].bundle, 9);
}

#[test]
fn styles_are_kept_apart() {
    let mut c = TilesContainer::new();
    let needed = vec![idx(0, 0, 1)];
    c.update_displayed_tiles(&needed, 1, &facts(vec![], vec![], vec![Some(1)], vec![vec![]], 0));
    assert_eq!(c.fetch_plan(&needed, 2), vec![true]);
    assert_eq!(c.fetch_plan(&needed, 1), vec![false]);
    assert_eq!(c.fade_in_duration(), 300);
}

#[test]
fn steady_display_follows_needed_order() {
    let mut c = TilesContainer::new();
    c.set_fade_in_duration(0);
    let a = idx(0, 0, 2);
    let b = idx(1, 0, 2);
    c.update_displayed_tiles(&vec![a, b], 0, &facts(vec![], vec![], vec![Some(1), Some(2)], vec![vec![], vec![]], 0));
    let f = facts(vec![true, true], vec![ONE, ONE], vec![None, None], vec![vec![true, true], vec![true, true]], 9);
    assert!(!c.update_displayed_tiles(&vec![b, a], 0, &f));
    assert_eq!(c.displayed_keys(), vec![(b, 0), (a, 0)]);
    assert_eq!(c.displayed_tiles()[0].bundle, 2);
}

#[test]
fn needed_tile_present_exactly_when_displayed_or_given() {
    let mut c = TilesContainer::new();
    c.set_fade_in_duration(0);
    let a = idx(0, 0, 3);
    let b = idx(1, 0, 3);
    let e = idx(2, 0, 3);
    c.update_displayed_tiles(&vec![a], 0, &facts(vec![], vec![], vec![Some(1)], vec![vec![]], 0));
    // `a` is displayed, `b` is given by the provider, `e` is not.
    let f = facts(vec![true], vec![ONE], vec![None, Some(2), None], vec![vec![false], vec![false], vec![false]], 1);
    c.update_displayed_tiles(&vec![a, b, e], 0, &f);
    let keys = c.displayed_keys();
    assert!(keys.contains(&(a, 0)));
    assert!(keys.contains(&(b, 0)));
    assert!(!keys.contains(&(e, 0)));
}

#[test]
fn redraw_only_for_new_or_fading_tiles() {
    let mut c = TilesContainer::new();
    c.set_fade_in_duration(0);
    let a = idx(0, 0, 3);
    let e = idx(2, 0, 3);
    c.update_displayed_tiles(&vec![a], 0, &facts(vec![], vec![], vec![Some(1)], vec![vec![]], 0));
    // An opaque displayed tile and a missing tile the provider does not give: nothing to draw.
    let f = facts(vec![true], vec![ONE], vec![None, None], vec![vec![false], vec![false]], 1);
    assert!(!c.update_displayed_tiles(&vec![a, e], 0, &f));
    // The provider gives the missing tile: draw again.
    let f = facts(vec![true], vec![ONE], vec![None, Some(4)], vec![vec![false], vec![false]], 2);
    assert!(c.update_displayed_tiles(&vec![a, e], 0, &f));
    // A displayed tile that is not yet opaque: draw again.
    let half = 0.5f32.to_bits();
    let f = facts(vec![false, true], vec![half, ONE], vec![None, None], vec![vec![false, false], vec![false, false]], 3);
    assert!(c.update_displayed_tiles(&vec![a, e], 0, &f));
}

#[test]
fn other_tiles_stay_only_over_uncovered_ground() {
    let mut c = TilesContainer::new();
    c.set_fade_in_duration(0);
    let p = idx(0, 0, 0);
    let q = idx(7, 7, 0);
    c.update_displayed_tiles(&vec![p, q], 0, &facts(vec![], vec![], vec![Some(1), Some(2)], vec![vec![], vec![]], 0));
    let before = c.displayed_tiles();
    // The needed child is missing; it overlaps `p` but not `q`.
    let child = idx(0, 0, 1);
    let f = facts(vec![true, true], vec![ONE, ONE], vec![None], vec![vec![true, false]], 5);
    c.update_displayed_tiles(&vec![child], 0, &f);
    assert_eq!(c.displayed_keys(), vec![(p, 0)]);
    assert_eq!(c.displayed_tiles()[0], before[0]);
}

#[test]
fn shown_tiles_keep_fade_or_start_fresh() {
    let mut c = TilesContainer::new();
    c.set_fade_in_duration(0);
    let a = idx(0, 0, 4);
    let b = idx(1, 0, 4);
    c.update_displayed_tiles(&vec![a, b], 0, &facts(vec![], vec![], vec![Some(1), Some(2)], vec![vec![], vec![]], 0));
    c.set_fade_in_duration(300);
    let n = idx(2, 0, 4);
    let half = 0.5f32.to_bits();
    // `a` is opaque, `b` fades in, `n` is new.
    let f = facts(
        vec![true, false],
        vec![ONE, half],
        vec![None, None, Some(7)],
        vec![vec![false, false], vec![false, false], vec![false, false]],
        40,
    );
    assert!(c.update_displayed_tiles(&vec![a, b, n], 0, &f));
    let shown = c.displayed_tiles();
    assert_eq!(shown[0], DisplayedTile { index: a, bundle: 1, style_id: 0, opacity: ONE, displayed_at: 0 });
    assert_eq!(shown[1], DisplayedTile { index: b, bundle: 2, style_id: 0, opacity: half, displayed_at: 0 });
    assert_eq!(shown[2], DisplayedTile { index: n, bundle: 7, style_id: 0, opacity: 0, displayed_at: 40 });
}
