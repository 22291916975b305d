use planets::collision::{interaction, CollisionPass, Interaction};
use planets::counting::{node_count, square_cells};
use planets::input::{Key, MouseButton, MouseInfo};
use planets::state::MainState;

fn run_pass(keys: Vec<usize>, outcome: impl Fn(usize, usize) -> (bool, bool)) -> (Vec<(usize, usize, Interaction)>, Vec<usize>) {
    let mut pass = CollisionPass::new(keys);
    let mut seen = Vec::new();
    while let Some((a, b)) = pass.next_pair() {
        let (c, p) = outcome(a, b);
        let r = pass.resolve(c, p).unwrap();
        seen.push((a, b, r));
    }
    (seen, pass.removed().clone())
}

#[test]
fn interaction_follows_the_table() {
    assert_eq!(interaction(true, false), Interaction::Merge);
    assert_eq!(interaction(true, true), Interaction::Skip);
    assert_eq!(interaction(false, false), Interaction::Attract);
    assert_eq!(interaction(false, true), Interaction::Attract);
}

#[test]
fn pass_visits_every_pair_once_in_order() {
    let (seen, removed) = run_pass(vec![10, 11, 12], |_, _| (false, false));
    assert_eq!(
        seen,
        vec![
            (10, 11, Interaction::Attract),
            (10, 12, Interaction::Attract),
            (11, 12, Interaction::Attract)
        ]
    );
    assert!(removed.is_empty());
}

#[test]
fn pass_over_one_or_no_body_is_empty() {
    let (seen, _) = run_pass(vec![], |_, _| (false, false));
    assert!(seen.is_empty());
    let (seen, _) = run_pass(vec![7], |_, _| (false, false));
    assert!(seen.is_empty());
}

#[test]
fn merge_removes_second_body_and_skips_by_index() {
    // Ids 20 and 21 are far above the indices, so the check against the
    // collided list never matches an index: every pair is still seen.
    let (seen, removed) = run_pass(vec![20, 21, 22], |a, b| ((a, b) == (20, 21), false));
    assert_eq!(
        seen,
        vec![
            (20, 21, Interaction::Merge),
            (20, 22, Interaction::Attract),
            (21, 22, Interaction::Attract)
        ]
    );
    assert_eq!(removed, vec![21]);
}

#[test]
fn collided_list_is_checked_against_indices() {
    // Ids 1 and 0 merge; the collided list then holds 1 and 0, so row 1
    // (index 1) is skipped, while column 2 is still looked at.
    let (seen, removed) = run_pass(vec![1, 0, 2], |a, b| ((a, b) == (1, 0), false));
    assert_eq!(seen, vec![(1, 0, Interaction::Merge), (1, 2, Interaction::Attract)]);
    assert_eq!(removed, vec![0]);
}

#[test]
fn protected_pair_is_skipped() {
    let (seen, removed) = run_pass(vec![5, 6], |_, _| (true, true));
    assert_eq!(seen, vec![(5, 6, Interaction::Skip)]);
    assert!(removed.is_empty());
}

#[test]
fn pending_pair_is_handed_out_again() {
    let mut pass = CollisionPass::new(vec![3, 4, 5]);
    assert_eq!(pass.resolve(true, false), None);
    assert_eq!(pass.next_pair(), Some((3, 4)));
    assert_eq!(pass.next_pair(), Some((3, 4)));
    assert_eq!(pass.resolve(false, false), Some(Interaction::Attract));
    assert_eq!(pass.next_pair(), Some((3, 5)));
}

#[test]
fn added_bodies_get_successive_ids() {
    let mut s: MainState<&str, u32> = MainState::new();
    assert_eq!(s.add_planet_raw("sun", 1), 0);
    assert_eq!(s.add_planet_raw("moon", 2), 1);
    assert_eq!(s.planet_id_count(), 2);
    assert_eq!(s.planet(0), Some(&"sun"));
    assert_eq!(s.planet(1), Some(&"moon"));
    assert_eq!(s.planet_trail(1), Some(&2));
    assert_eq!(s.planet(2), None);
}

#[test]
fn ids_are_not_reused_after_removal_or_clear() {
    let mut s: MainState<u8, u8> = MainState::new();
    s.add_planet_raw(1, 1);
    assert!(s.remove_planet(0));
    assert!(!s.remove_planet(0));
    assert_eq!(s.add_planet_raw(2, 2), 1);
    s.clear();
    assert_eq!(s.add_planet_raw(3, 3), 2);
}

#[test]
fn clear_keeps_trails() {
    let mut s: MainState<u8, u8> = MainState::new();
    s.add_planet_raw(1, 10);
    s.add_planet_raw(2, 20);
    s.clear();
    assert!(s.planets().is_empty());
    assert_eq!(s.planet_trails().len(), 2);
    assert_eq!(s.planet_id_count(), 2);
}

#[test]
fn remove_planet_keeps_trail() {
    let mut s: MainState<u8, u8> = MainState::new();
    s.add_planet_raw(1, 10);
    assert!(s.remove_planet(0));
    assert_eq!(s.planet(0), None);
    assert_eq!(s.planet_trail(0), Some(&10));
    assert!(!s.remove_planet(7));
}

#[test]
fn planet_keys_lists_every_body_once() {
    let mut s: MainState<u8, u8> = MainState::new();
    for k in 0..5u8 {
        s.add_planet_raw(k, k);
    }
    s.remove_planet(2);
    let mut keys = s.planet_keys();
    keys.sort();
    assert_eq!(keys, vec![0, 1, 3, 4]);
}

#[test]
fn remove_planets_and_trails_by_list() {
    let mut s: MainState<u8, u8> = MainState::new();
    for k in 0..4u8 {
        s.add_planet_raw(k, k);
    }
    s.remove_planets(&vec![1, 3, 9, 1]);
    let mut keys = s.planet_keys();
    keys.sort();
    assert_eq!(keys, vec![0, 2]);
    assert_eq!(s.planet_trails().len(), 4);
    s.remove_trails(&vec![0]);
    assert_eq!(s.planet_trail(0), None);
    assert_eq!(s.planet_trails().len(), 3);
}

#[test]
fn mutable_access_changes_the_body() {
    let mut s: MainState<u32, u32> = MainState::new();
    s.add_planet_raw(5, 6);
    *s.planet_mut(0).unwrap() += 10;
    *s.planet_trail_mut(0).unwrap() += 1;
    assert_eq!(s.planet(0), Some(&15));
    assert_eq!(s.planet_trail(0), Some(&7));
    assert!(s.planet_mut(3).is_none());
    assert!(s.planet_trail_mut(3).is_none());
}

#[test]
fn keys_switch_and_clear() {
    let mut s: MainState<u8, u8> = MainState::new();
    s.add_planet_raw(1, 1);
    assert!(!s.key_down_event(Key::D));
    assert!(s.show_vector_debug());
    assert!(!s.key_down_event(Key::D));
    assert!(!s.show_vector_debug());
    assert!(!s.key_down_event(Key::I));
    assert!(s.show_planet_info_debug());
    assert!(!s.key_down_event(Key::Other));
    assert_eq!(s.planets().len(), 1);
    assert!(!s.key_down_event(Key::C));
    assert!(s.planets().is_empty());
    s.add_planet_raw(2, 2);
    assert!(s.key_down_event(Key::R));
    assert!(s.planets().is_empty());
    assert!(s.show_planet_info_debug());
}

#[test]
fn mouse_release_of_left_button_spawns() {
    let mut s: MainState<u8, u8> = MainState::new();
    assert_eq!(s.mouse_info(), MouseInfo::default());
    assert!(!s.mouse_info().left_drag());
    s.mouse_button_down_event(MouseButton::Left);
    assert!(s.mouse_info().left_drag());
    assert!(s.mouse_button_up_event(MouseButton::Left));
    assert!(!s.mouse_info().down);
    s.mouse_button_down_event(MouseButton::Right);
    assert!(!s.mouse_info().left_drag());
    assert!(!s.mouse_button_up_event(MouseButton::Right));
    assert_eq!(s.mouse_info().button_down, MouseButton::Right);
}

#[test]
fn mouse_default_is_left_and_up() {
    let m = MouseInfo::default();
    assert!(!m.down);
    assert_eq!(m.button_down, MouseButton::Left);
}

#[test]
fn node_count_sums_or_overflows() {
    assert_eq!(node_count(&vec![]), Some(0));
    assert_eq!(node_count(&vec![3, 4, 5]), Some(12));
    assert_eq!(node_count(&vec![usize::MAX, 0]), Some(usize::MAX));
    assert_eq!(node_count(&vec![usize::MAX, 1]), None);
}

#[test]
fn square_cells_go_column_by_column() {
    assert_eq!(
        square_cells(2, 3),
        vec![(0, 0), (0, 1), (0, 2), (1, 0), (1, 1), (1, 2)]
    );
    assert!(square_cells(0, 4).is_empty());
    assert!(square_cells(4, 0).is_empty());
}

#[test]
fn frame_pass_over_registry_removes_absorbed_bodies() {
    let mut s: MainState<u32, u32> = MainState::new();
    for k in 0..3u32 {
        s.add_planet_raw(k, k);
    }
    let mut pass = s.collision_pass();
    let mut pairs = Vec::new();
    let mut merged = false;
    while let Some((a, b)) = pass.next_pair() {
        assert_ne!(a, b);
        pairs.push((a.min(b), a.max(b)));
        // The first pair looked at merges, every other one attracts.
        let r = pass.resolve(!merged, false).unwrap();
        if !merged {
            assert_eq!(r, Interaction::Merge);
            merged = true;
        }
    }
    assert_eq!(pass.removed().len(), 1);
    let absorbed = pass.removed()[0];
    s.remove_planets(pass.removed());
    assert_eq!(s.planet(absorbed), None);
    assert_eq!(s.planets().len(), 2);
    assert_eq!(s.planet_trails().len(), 3);
    let n = pairs.len();
    pairs.sort();
    pairs.dedup();
    assert_eq!(pairs.len(), n);
    assert!(n >= 1 && n <= 3);
}

#[test]
fn remove_after_add_gives_back_the_bodies() {
    let mut s: MainState<u8, u8> = MainState::new();
    s.add_planet_raw(4, 4);
    let id = s.add_planet_raw(5, 5);
    assert!(s.remove_planet(id));
    assert_eq!(s.planet_keys(), vec![0]);
    assert_eq!(s.planet_trail(id), Some(&5));
}
