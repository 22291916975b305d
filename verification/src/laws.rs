use vstd::prelude::*;

use crate::collision::{
    eligible_pair, law_next_candidate_is_first_eligible, next_candidate, pair_before,
    spec_interaction, Interaction, PassState,
};
use crate::counting::sum;
use crate::input::Key;
use crate::state::{added, cleared, ids_below_count, key_effect, without_planet, StateView};

verus! {

/// A body that was just added is found under the id it got, with its trail,
/// and that id was not in use before.
pub proof fn law_added_body_is_found<P, T>(s: StateView<P, T>, planet: P, trail: T)
    requires
        ids_below_count(s),
        s.planet_id_count < usize::MAX,
    ensures
        ({
            let id = s.planet_id_count as usize;
            let t = added(s, planet, trail);
            &&& !s.planets.contains_key(id)
            &&& !s.planet_trails.contains_key(id)
            &&& t.planets.contains_key(id)
            &&& t.planets[id] == planet
            &&& t.planet_trails.contains_key(id)
            &&& t.planet_trails[id] == trail
        }),
{
}

/// Every operation keeps every id in use below the counter, and the counter
/// never goes down; so an id, once handed out, is never handed out again.
pub proof fn law_ids_stay_below_count<P, T>(s: StateView<P, T>, planet: P, trail: T, id: usize, key: Key)
    requires
        ids_below_count(s),
    ensures
        ids_below_count(added(s, planet, trail)),
        added(s, planet, trail).planet_id_count == s.planet_id_count + 1,
        ids_below_count(without_planet(s, id)),
        without_planet(s, id).planet_id_count == s.planet_id_count,
        ids_below_count(cleared(s)),
        cleared(s).planet_id_count == s.planet_id_count,
        ids_below_count(key_effect(s, key)),
        key_effect(s, key).planet_id_count == s.planet_id_count,
{
    let a = added(s, planet, trail);
    assert forall|k: usize| #[trigger] a.planets.contains_key(k) implies k < a.planet_id_count by {
        if k != s.planet_id_count as usize {
            assert(s.planets.contains_key(k));
        }
    }
    assert forall|k: usize| #[trigger] a.planet_trails.contains_key(k) implies k
        < a.planet_id_count by {
        if k != s.planet_id_count as usize {
            assert(s.planet_trails.contains_key(k));
        }
    }
    let w = without_planet(s, id);
    assert forall|k: usize| #[trigger] w.planets.contains_key(k) implies k < w.planet_id_count by {
        assert(s.planets.contains_key(k));
    }
}

/// Two bodies added one after the other get different ids.
pub proof fn law_successive_ids_differ<P, T>(
    s: StateView<P, T>,
    p1: P,
    t1: T,
    p2: P,
    t2: T,
)
    ensures
        added(s, p1, t1).planet_id_count != s.planet_id_count,
        added(added(s, p1, t1), p2, t2).planet_id_count > added(s, p1, t1).planet_id_count,
{
}

/// Removing a body that was just added gives back the bodies as they were;
/// its trail stays, and so does the advanced counter.
pub proof fn law_remove_undoes_add<P, T>(s: StateView<P, T>, planet: P, trail: T)
    requires
        ids_below_count(s),
        s.planet_id_count < usize::MAX,
    ensures
        without_planet(added(s, planet, trail), s.planet_id_count as usize).planets == s.planets,
        without_planet(added(s, planet, trail), s.planet_id_count as usize).planet_trails
            == added(s, planet, trail).planet_trails,
{
    let id = s.planet_id_count as usize;
    assert(!s.planets.contains_key(id));
    assert(s.planets.insert(id, planet).remove(id) =~= s.planets);
}

/// Removing the same body twice is the same as removing it once; the second
/// removal finds nothing.
pub proof fn law_remove_is_idempotent<P, T>(s: StateView<P, T>, id: usize)
    ensures
        without_planet(without_planet(s, id), id) == without_planet(s, id),
        !without_planet(s, id).planets.contains_key(id),
{
    assert(s.planets.remove(id).remove(id) =~= s.planets.remove(id));
}

/// Removing one body leaves every other body as it was.
pub proof fn law_remove_touches_only_its_body<P, T>(s: StateView<P, T>, id: usize, other: usize)
    requires
        other != id,
    ensures
        without_planet(s, id).planets.contains_key(other) == s.planets.contains_key(other),
        s.planets.contains_key(other) ==> without_planet(s, id).planets[other]
            == s.planets[other],
{
}

/// After clearing, no body is left, and removing any id finds nothing; the
/// trails and the counter are as before.
pub proof fn law_clear_empties_bodies<P, T>(s: StateView<P, T>, id: usize)
    ensures
        cleared(s).planets.is_empty(),
        !cleared(s).planets.contains_key(id),
        cleared(s).planet_trails == s.planet_trails,
        cleared(s).planet_id_count == s.planet_id_count,
        without_planet(cleared(s), id) == cleared(s),
{
    assert(Map::<usize, P>::empty().remove(id) =~= Map::<usize, P>::empty());
}

/// Pressing `D` twice, or `I` twice, gives back the state as it was.
pub proof fn law_switch_keys_undo_themselves<P, T>(s: StateView<P, T>)
    ensures
        key_effect(key_effect(s, Key::D), Key::D) == s,
        key_effect(key_effect(s, Key::I), Key::I) == s,
{
}

/// `R` and `C` do the same to the state, and only `R` asks for a respawn;
/// keys other than `D`, `I`, `R` and `C` change nothing.
pub proof fn law_restart_and_clear_agree<P, T>(s: StateView<P, T>)
    ensures
        key_effect(s, Key::R) == key_effect(s, Key::C),
        key_effect(s, Key::R) == cleared(s),
        key_effect(s, Key::Other) == s,
{
}

/// A pair merges exactly when its bodies touch and neither is protected,
/// attracts exactly when they do not touch, and is skipped otherwise.
pub proof fn law_interaction_table(colliding: bool, protected: bool)
    ensures
        (spec_interaction(colliding, protected) == Interaction::Merge) == (colliding && !protected),
        (spec_interaction(colliding, protected) == Interaction::Attract) == !colliding,
        (spec_interaction(colliding, protected) == Interaction::Skip) == (colliding && protected),
{
}

/// A pair of indices that a pass hands out lies within the list, its first
/// index is below its second, and it comes at or after the cursor (for a
/// cursor whose column, once its row is entered, lies past the row).
pub proof fn law_candidate_in_range(
    len: int,
    collided: Seq<usize>,
    row: int,
    col: int,
    entered: bool,
)
    requires
        entered ==> row < col,
    ensures
        match next_candidate(len, collided, row, col, entered) {
            Some(p) => {
                &&& 0 <= p.0 < p.1 < len
                &&& row <= p.0
                &&& (p.0 == row && entered) ==> col <= p.1
                &&& !collided.contains(p.1 as usize)
            },
            None => true,
        },
    decreases len - row, (if entered { 0int } else { 1int }), len - col,
{
    if row < 0 || row + 1 >= len {
    } else if !entered {
        if collided.contains(row as usize) {
            law_candidate_in_range(len, collided, row + 1, 0, false);
        } else {
            law_candidate_in_range(len, collided, row, row + 1, true);
        }
    } else if col >= len {
        law_candidate_in_range(len, collided, row + 1, 0, false);
    } else if col >= 0 && collided.contains(col as usize) {
        law_candidate_in_range(len, collided, row, col + 1, true);
    } else {
    }
}

/// After a pair is resolved, the next pair the pass hands out comes strictly
/// after it, row by row and column by column; so no pair is handed out
/// twice and the pass never pairs a body with itself.
pub proof fn law_pairs_strictly_increase(
    s: PassState,
    colliding: bool,
    protected: bool,
)
    requires
        s.pending matches Some(p) && 0 <= p.0 < p.1 < s.keys.len(),
    ensures
        ({
            let p = s.pending->0;
            let t = s.resolved(p.0, p.1, spec_interaction(colliding, protected));
            match t.upcoming() {
                Some(q) => p.0 < q.0 || (p.0 == q.0 && p.1 < q.1),
                None => true,
            }
        }),
{
    let p = s.pending->0;
    let t = s.resolved(p.0, p.1, spec_interaction(colliding, protected));
    law_candidate_in_range(t.keys.len() as int, t.collided, t.row, t.col, t.entered);
}

/// The two ids of a pair are different bodies when the ids the pass runs
/// over are distinct.
pub proof fn law_pair_ids_distinct(s: PassState)
    requires
        s.keys.no_duplicates(),
        s.entered ==> s.row < s.col,
    ensures
        match s.upcoming() {
            Some(p) => s.ids_of(p).0 != s.ids_of(p).1,
            None => true,
        },
{
    law_candidate_in_range(s.keys.len() as int, s.collided, s.row, s.col, s.entered);
}

/// Each merge records exactly one absorbed body, the second of the pair, and
/// both bodies of the pair among the collided ids; other interactions record
/// nothing.
pub proof fn law_merge_records_absorbed_body(s: PassState, i: int, j: int, r: Interaction)
    ensures
        r == Interaction::Merge ==> {
            &&& s.resolved(i, j, r).removed == s.removed.push(s.keys[j])
            &&& s.resolved(i, j, r).collided == s.collided.push(s.keys[i]).push(s.keys[j])
        },
        r != Interaction::Merge ==> {
            &&& s.resolved(i, j, r).removed == s.removed
            &&& s.resolved(i, j, r).collided == s.collided
        },
{
}

/// A pass over fewer than two bodies hands out no pair.
pub proof fn law_small_pass_is_empty(s: PassState)
    requires
        s.keys.len() < 2,
        0 <= s.row,
    ensures
        s.upcoming() is None,
{
}

/// The total of no counts is zero, and adding one more count adds it to the
/// total.
pub proof fn law_node_count_adds_up(s: Seq<usize>, n: usize)
    ensures
        sum(Seq::<usize>::empty()) == 0,
        sum(s.push(n)) == sum(s) + n,
{
    assert(s.push(n).drop_last() =~= s);
}

/// Two cursors from which the same pairs may still be handed out hand out
/// the same next pair.
proof fn lemma_same_eligible_same_next(
    len: int,
    collided: Seq<usize>,
    row1: int,
    col1: int,
    entered1: bool,
    row2: int,
    col2: int,
    entered2: bool,
)
    requires
        0 <= row1,
        entered1 ==> row1 < col1,
        0 <= row2,
        entered2 ==> row2 < col2,
        forall|q: (int, int)|
            eligible_pair(len, collided, row1, col1, entered1, q) == eligible_pair(
                len,
                collided,
                row2,
                col2,
                entered2,
                q,
            ),
    ensures
        next_candidate(len, collided, row1, col1, entered1) == next_candidate(
            len,
            collided,
            row2,
            col2,
            entered2,
        ),
{
    law_next_candidate_is_first_eligible(len, collided, row1, col1, entered1);
    law_next_candidate_is_first_eligible(len, collided, row2, col2, entered2);
    let a = next_candidate(len, collided, row1, col1, entered1);
    let b = next_candidate(len, collided, row2, col2, entered2);
    match a {
        Some(p) => {
            assert(eligible_pair(len, collided, row2, col2, entered2, p));
            match b {
                Some(q) => {
                    assert(eligible_pair(len, collided, row1, col1, entered1, q));
                    assert(!pair_before(q, p));
                    assert(!pair_before(p, q));
                },
                None => {},
            }
        },
        None => {
            match b {
                Some(q) => {
                    assert(eligible_pair(len, collided, row1, col1, entered1, q));
                },
                None => {},
            }
        },
    }
}

/// A row whose index is among the collided ids when it is entered is
/// skipped, and only that row: the pass goes on with the next row exactly
/// as if it had started there.
pub proof fn law_collided_row_skips_only_itself(
    len: int,
    collided: Seq<usize>,
    row: int,
    col: int,
    next_col: int,
)
    requires
        0 <= row,
        row + 1 < len,
        collided.contains(row as usize),
    ensures
        next_candidate(len, collided, row, col, false) == next_candidate(
            len,
            collided,
            row + 1,
            next_col,
            false,
        ),
        match next_candidate(len, collided, row, col, false) {
            Some(p) => p.0 != row,
            None => true,
        },
{
    assert forall|q: (int, int)|
        eligible_pair(len, collided, row, col, false, q) == eligible_pair(
            len,
            collided,
            row + 1,
            next_col,
            false,
            q,
        ) by {}
    lemma_same_eligible_same_next(len, collided, row, col, false, row + 1, next_col, false);
    law_next_candidate_is_first_eligible(len, collided, row + 1, next_col, false);
}

/// Within an entered row, a column whose index is among the collided ids is
/// passed over, and only that column: the row goes on with the next column.
pub proof fn law_collided_column_skips_only_itself(
    len: int,
    collided: Seq<usize>,
    row: int,
    col: int,
)
    requires
        0 <= row < col < len,
        collided.contains(col as usize),
    ensures
        next_candidate(len, collided, row, col, true) == next_candidate(
            len,
            collided,
            row,
            col + 1,
            true,
        ),
{
    assert forall|q: (int, int)|
        eligible_pair(len, collided, row, col, true, q) == eligible_pair(
            len,
            collided,
            row,
            col + 1,
            true,
            q,
        ) by {
        if q.0 == row && q.1 == col {
            assert(collided.contains(q.1 as usize));
        }
    }
    lemma_same_eligible_same_next(len, collided, row, col, true, row, col + 1, true);
}

/// Every pair that may still be handed out, that is, at or after the
/// cursor, with a column that is not collided and a row that is not
/// collided when it is entered, is handed out unless an earlier pair comes
/// first; in particular, when nothing is handed out no such pair is left.
pub proof fn law_every_eligible_pair_is_reached(s: PassState, q: (int, int))
    requires
        0 <= s.row,
        s.entered ==> s.row < s.col,
        s.eligible(q),
    ensures
        s.upcoming() matches Some(p) && (p == q || pair_before(p, q)),
{
    law_next_candidate_is_first_eligible(
        s.keys.len() as int,
        s.collided,
        s.row,
        s.col,
        s.entered,
    );
}

/// Resolving the pending pair `(i, j)` with any interaction leaves the
/// cursor in row `i` at column `j + 1`, so the row goes on with its next
/// columns; a skipped pair moves the cursor exactly as an attracting one,
/// and only a merge changes which pairs come next.
pub proof fn law_resolve_moves_to_next_column(s: PassState, i: int, j: int, r: Interaction)
    ensures
        s.resolved(i, j, r).row == i,
        s.resolved(i, j, r).col == j + 1,
        s.resolved(i, j, r).entered,
        s.resolved(i, j, r).pending is None,
        s.resolved(i, j, r).keys == s.keys,
        r != Interaction::Merge ==> s.resolved(i, j, r).collided == s.collided,
        s.resolved(i, j, Interaction::Skip).upcoming() == s.resolved(
            i,
            j,
            Interaction::Attract,
        ).upcoming(),
        s.resolved(i, j, Interaction::Skip).upcoming() == next_candidate(
            s.keys.len() as int,
            s.collided,
            i,
            j + 1,
            true,
        ),
{
}

/// `D` flips the drawing of force vectors, whatever the other switch, and
/// leaves everything else as it was.
pub proof fn law_key_d_flips_vectors_only<P, T>(s: StateView<P, T>)
    ensures
        key_effect(s, Key::D).show_vector_debug == !s.show_vector_debug,
        key_effect(s, Key::D).show_planet_info_debug == s.show_planet_info_debug,
        key_effect(s, Key::D).planets == s.planets,
        key_effect(s, Key::D).planet_trails == s.planet_trails,
        key_effect(s, Key::D).planet_id_count == s.planet_id_count,
        key_effect(s, Key::D).mouse_info == s.mouse_info,
{
}

/// `I` flips the drawing of body information, whatever the other switch,
/// and leaves everything else as it was.
pub proof fn law_key_i_flips_info_only<P, T>(s: StateView<P, T>)
    ensures
        key_effect(s, Key::I).show_planet_info_debug == !s.show_planet_info_debug,
        key_effect(s, Key::I).show_vector_debug == s.show_vector_debug,
        key_effect(s, Key::I).planets == s.planets,
        key_effect(s, Key::I).planet_trails == s.planet_trails,
        key_effect(s, Key::I).planet_id_count == s.planet_id_count,
        key_effect(s, Key::I).mouse_info == s.mouse_info,
{
}

/// Adding a body touches no other body or trail and neither switch nor the
/// mouse; removing a body touches nothing but that body.
pub proof fn law_add_and_remove_touch_nothing_else<P, T>(
    s: StateView<P, T>,
    planet: P,
    trail: T,
    id: usize,
    other: usize,
)
    requires
        s.planet_id_count <= usize::MAX,
        other != s.planet_id_count,
    ensures
        ({
            let a = added(s, planet, trail);
            &&& a.planets.contains_key(other) == s.planets.contains_key(other)
            &&& s.planets.contains_key(other) ==> a.planets[other] == s.planets[other]
            &&& a.planet_trails.contains_key(other) == s.planet_trails.contains_key(other)
            &&& s.planet_trails.contains_key(other) ==> a.planet_trails[other]
                == s.planet_trails[other]
            &&& a.show_vector_debug == s.show_vector_debug
            &&& a.show_planet_info_debug == s.show_planet_info_debug
            &&& a.mouse_info == s.mouse_info
        }),
        ({
            let w = without_planet(s, id);
            &&& !w.planets.contains_key(id)
            &&& w.planet_trails == s.planet_trails
            &&& w.planet_id_count == s.planet_id_count
            &&& w.show_vector_debug == s.show_vector_debug
            &&& w.show_planet_info_debug == s.show_planet_info_debug
            &&& w.mouse_info == s.mouse_info
        }),
{
}

} // verus!
