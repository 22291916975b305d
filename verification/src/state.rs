use std::collections::HashMap;
use vstd::prelude::*;
use vstd::std_specs::hash::spec_keys_iter;
use vstd::std_specs::iter::IteratorSpec;

use crate::collision::{started, CollisionPass};
use crate::input::{Key, MouseButton, MouseInfo};

verus! {

broadcast use vstd::std_specs::hash::group_hash_axioms;

/// The abstract state of the sandbox.
pub struct StateView<P, T> {
    /// The id that the next body will get.
    pub planet_id_count: nat,
    /// The bodies, by id.
    pub planets: Map<usize, P>,
    /// The trails that bodies leave behind, by the id of their body.
    pub planet_trails: Map<usize, T>,
    /// Whether information on each body is drawn.
    pub show_planet_info_debug: bool,
    /// Whether force vectors are drawn.
    pub show_vector_debug: bool,
    /// The state of the mouse buttons.
    pub mouse_info: MouseInfo,
}

/// The bodies of the sandbox and their trails, each under the id that the
/// body got when it was added, with the display switches.
///
/// Ids are handed out from a counter that only grows, so no id is ever
/// given out twice, not even after the body is gone.
pub struct MainState<P, T> {
    planet_id_count: usize,
    planets: HashMap<usize, P>,
    planet_trails: HashMap<usize, T>,
    show_planet_info_debug: bool,
    show_vector_debug: bool,
    mouse_info: MouseInfo,
}

impl<P, T> View for MainState<P, T> {
    type V = StateView<P, T>;

    closed spec fn view(&self) -> StateView<P, T> {
        StateView {
            planet_id_count: self.planet_id_count as nat,
            planets: self.planets@,
            planet_trails: self.planet_trails@,
            show_planet_info_debug: self.show_planet_info_debug,
            show_vector_debug: self.show_vector_debug,
            mouse_info: self.mouse_info,
        }
    }
}

/// Every id in use is below the counter.
pub open spec fn ids_below_count<P, T>(s: StateView<P, T>) -> bool {
    &&& forall|id: usize| #[trigger] s.planets.contains_key(id) ==> id < s.planet_id_count
    &&& forall|id: usize| #[trigger] s.planet_trails.contains_key(id) ==> id < s.planet_id_count
}

/// Writing a new value under an id that is in use keeps every id below the
/// counter.
proof fn lemma_insert_present_keeps_ids<V>(m: Map<usize, V>, id: usize, count: nat)
    requires
        m.contains_key(id),
        forall|k: usize| #[trigger] m.contains_key(k) ==> k < count,
    ensures
        forall|v: V, k: usize| #[trigger] m.insert(id, v).contains_key(k) ==> k < count,
{
}

/// The state after a body and its trail were added under the next id.
pub open spec fn added<P, T>(s: StateView<P, T>, planet: P, trail: T) -> StateView<P, T> {
    StateView {
        planet_id_count: s.planet_id_count + 1,
        planets: s.planets.insert(s.planet_id_count as usize, planet),
        planet_trails: s.planet_trails.insert(s.planet_id_count as usize, trail),
        ..s
    }
}

/// The state after the body with the given id, if any, was removed.
pub open spec fn without_planet<P, T>(s: StateView<P, T>, id: usize) -> StateView<P, T> {
    StateView { planets: s.planets.remove(id), ..s }
}

/// The state after every body was removed.
pub open spec fn cleared<P, T>(s: StateView<P, T>) -> StateView<P, T> {
    StateView { planets: Map::empty(), ..s }
}

impl<P, T> MainState<P, T> {
    /// The invariant: every id in use was handed out by the counter.
    pub open spec fn wf(&self) -> bool {
        &&& ids_below_count(self@)
        &&& self@.planet_id_count <= usize::MAX
    }

    /// An empty sandbox with both display switches off.
    pub fn new() -> (s: Self)
        ensures
            s.wf(),
            s@ == (StateView::<P, T> {
                planet_id_count: 0,
                planets: Map::empty(),
                planet_trails: Map::empty(),
                show_planet_info_debug: false,
                show_vector_debug: false,
                mouse_info: MouseInfo { down: false, button_down: MouseButton::Left },
            }),
    {
        MainState {
            planet_id_count: 0,
            planets: HashMap::new(),
            planet_trails: HashMap::new(),
            show_planet_info_debug: false,
            show_vector_debug: false,
            mouse_info: MouseInfo::default(),
        }
    }

    /// The id that the next body will get.
    pub fn planet_id_count(&self) -> (r: usize)
        ensures
            r == self@.planet_id_count,
    {
        self.planet_id_count
    }

    /// Adds a body and its trail under the next id, and returns that id.
    pub fn add_planet_raw(&mut self, planet: P, trail: T) -> (id: usize)
        requires
            old(self).wf(),
            old(self)@.planet_id_count < usize::MAX,
        ensures
            final(self).wf(),
            id == old(self)@.planet_id_count,
            !old(self)@.planets.contains_key(id),
            !old(self)@.planet_trails.contains_key(id),
            final(self)@ == added(old(self)@, planet, trail),
    {
        let id = self.planet_id_count;
        self.planet_trails.insert(id, trail);
        self.planets.insert(id, planet);
        self.planet_id_count = id + 1;
        assert forall|k: usize| #[trigger] self@.planets.contains_key(k) implies k
            < self@.planet_id_count by {
            if k != id {
                assert(old(self)@.planets.contains_key(k));
            }
        }
        assert forall|k: usize| #[trigger] self@.planet_trails.contains_key(k) implies k
            < self@.planet_id_count by {
            if k != id {
                assert(old(self)@.planet_trails.contains_key(k));
            }
        }
        id
    }

    /// Removes the body with the given id, and tells whether there was one.
    /// Its trail stays.
    pub fn remove_planet(&mut self, id: usize) -> (was_present: bool)
        requires
            old(self).wf(),
        ensures
            final(self).wf(),
            was_present == old(self)@.planets.contains_key(id),
            final(self)@ == without_planet(old(self)@, id),
    {
        let removed = self.planets.remove(&id);
        assert forall|k: usize| #[trigger] self@.planets.contains_key(k) implies k
            < self@.planet_id_count by {
            assert(old(self)@.planets.contains_key(k));
        }
        removed.is_some()
    }

    /// Removes every body. The trails, the id counter and the display
    /// switches stay as they are.
    pub fn clear(&mut self)
        requires
            old(self).wf(),
        ensures
            final(self).wf(),
            final(self)@ == cleared(old(self)@),
    {
        self.planets = HashMap::new();
    }

    /// The body with the given id, if there is one.
    pub fn planet(&self, id: usize) -> (r: Option<&P>)
        ensures
            match r {
                Some(p) => self@.planets.contains_key(id) && *p == self@.planets[id],
                None => !self@.planets.contains_key(id),
            },
    {
        self.planets.get(&id)
    }

    /// The trail of the body with the given id, if there is one.
    pub fn planet_trail(&self, id: usize) -> (r: Option<&T>)
        ensures
            match r {
                Some(t) => self@.planet_trails.contains_key(id) && *t == self@.planet_trails[id],
                None => !self@.planet_trails.contains_key(id),
            },
    {
        self.planet_trails.get(&id)
    }

    /// All bodies, by id.
    pub fn planets(&self) -> (r: &HashMap<usize, P>)
        ensures
            r@ == self@.planets,
    {
        &self.planets
    }

    /// All trails, by the id of their body.
    pub fn planet_trails(&self) -> (r: &HashMap<usize, T>)
        ensures
            r@ == self@.planet_trails,
    {
        &self.planet_trails
    }

    /// Whether information on each body is drawn.
    pub fn show_planet_info_debug(&self) -> (r: bool)
        ensures
            r == self@.show_planet_info_debug,
    {
        self.show_planet_info_debug
    }

    /// Whether force vectors are drawn.
    pub fn show_vector_debug(&self) -> (r: bool)
        ensures
            r == self@.show_vector_debug,
    {
        self.show_vector_debug
    }

    /// Mutable access to the body with the given id, if there is one.
    pub fn planet_mut(&mut self, id: usize) -> (r: Option<&mut P>)
        requires
            old(self).wf(),
        ensures
            final(self).wf(),
            match r {
                Some(p) => {
                    &&& old(self)@.planets.contains_key(id)
                    &&& *p == old(self)@.planets[id]
                    &&& final(self)@ == (StateView {
                        planets: old(self)@.planets.insert(id, *final(p)),
                        ..old(self)@
                    })
                },
                None => !old(self)@.planets.contains_key(id) && final(self)@ == old(self)@,
            },
    {
        match self.planets.entry(id) {
            std::collections::hash_map::Entry::Occupied(e) => {
                proof {
                    lemma_insert_present_keeps_ids(
                        old(self)@.planets,
                        id,
                        old(self)@.planet_id_count,
                    );
                }
                Some(e.into_mut())
            },
            std::collections::hash_map::Entry::Vacant(_) => {
                assert(old(self)@.planets.remove(id) =~= old(self)@.planets);
                None
            },
        }
    }

    /// Mutable access to the trail of the body with the given id, if there
    /// is one.
    pub fn planet_trail_mut(&mut self, id: usize) -> (r: Option<&mut T>)
        requires
            old(self).wf(),
        ensures
            final(self).wf(),
            match r {
                Some(t) => {
                    &&& old(self)@.planet_trails.contains_key(id)
                    &&& *t == old(self)@.planet_trails[id]
                    &&& final(self)@ == (StateView {
                        planet_trails: old(self)@.planet_trails.insert(id, *final(t)),
                        ..old(self)@
                    })
                },
                None => !old(self)@.planet_trails.contains_key(id) && final(self)@ == old(self)@,
            },
    {
        match self.planet_trails.entry(id) {
            std::collections::hash_map::Entry::Occupied(e) => {
                proof {
                    lemma_insert_present_keeps_ids(
                        old(self)@.planet_trails,
                        id,
                        old(self)@.planet_id_count,
                    );
                }
                Some(e.into_mut())
            },
            std::collections::hash_map::Entry::Vacant(_) => {
                assert(old(self)@.planet_trails.remove(id) =~= old(self)@.planet_trails);
                None
            },
        }
    }

    /// The ids of all bodies, each once, in the order in which the map of
    /// bodies is walked. That order is not specified.
    pub fn planet_keys(&self) -> (keys: Vec<usize>)
        ensures
            keys@.no_duplicates(),
            keys@.to_set() == self@.planets.dom(),
            keys@.len() == self@.planets.dom().len(),
    {
        let mut keys: Vec<usize> = Vec::new();
        let ghost walk = spec_keys_iter(&self.planets).remaining();
        for k in it: self.planets.keys()
            invariant
                it.seq() == walk,
                keys@ == it.seq().take(it.index() as int).unref(),
        {
            keys.push(*k);
        }
        assert(keys@ =~= walk.unref());
        keys
    }

    /// Starts the collision pass of a frame over every body, in the order in
    /// which the map of bodies is walked (which is not specified).
    pub fn collision_pass(&self) -> (pass: CollisionPass)
        ensures
            pass.wf(),
            pass@ == started(pass@.keys),
            pass@.keys.no_duplicates(),
            pass@.keys.to_set() == self@.planets.dom(),
            pass@.keys.len() == self@.planets.dom().len(),
    {
        CollisionPass::new(self.planet_keys())
    }

    /// Removes every body whose id is in `ids`; ids without a body are
    /// passed over. The trails stay.
    pub fn remove_planets(&mut self, ids: &Vec<usize>)
        requires
            old(self).wf(),
        ensures
            final(self).wf(),
            final(self)@ == (StateView {
                planets: old(self)@.planets.remove_keys(ids@.to_set()),
                ..old(self)@
            }),
    {
        let mut k: usize = 0;
        assert(ids@.take(0).to_set() =~= Set::<usize>::empty());
        assert(old(self)@.planets.remove_keys(Set::<usize>::empty()) =~= old(self)@.planets);
        while k < ids.len()
            invariant
                k <= ids.len(),
                old(self).wf(),
                self.wf(),
                self@ == (StateView {
                    planets: old(self)@.planets.remove_keys(ids@.take(k as int).to_set()),
                    ..old(self)@
                }),
            decreases ids.len() - k,
        {
            let id = ids[k];
            self.planets.remove(&id);
            proof {
                lemma_take_one_more_to_set(ids@, k as int);
            }
            assert(self@.planets =~= old(self)@.planets.remove_keys(
                ids@.take(k + 1).to_set(),
            ));
            assert forall|x: usize| #[trigger] self@.planets.contains_key(x) implies x
                < self@.planet_id_count by {
                assert(old(self)@.planets.contains_key(x));
            }
            k = k + 1;
        }
        assert(ids@.take(ids@.len() as int) =~= ids@);
    }

    /// Removes every trail whose id is in `ids`; ids without a trail are
    /// passed over. The bodies stay.
    pub fn remove_trails(&mut self, ids: &Vec<usize>)
        requires
            old(self).wf(),
        ensures
            final(self).wf(),
            final(self)@ == (StateView {
                planet_trails: old(self)@.planet_trails.remove_keys(ids@.to_set()),
                ..old(self)@
            }),
    {
        let mut k: usize = 0;
        assert(ids@.take(0).to_set() =~= Set::<usize>::empty());
        assert(old(self)@.planet_trails.remove_keys(Set::<usize>::empty())
            =~= old(self)@.planet_trails);
        while k < ids.len()
            invariant
                k <= ids.len(),
                old(self).wf(),
                self.wf(),
                self@ == (StateView {
                    planet_trails: old(self)@.planet_trails.remove_keys(
                        ids@.take(k as int).to_set(),
                    ),
                    ..old(self)@
                }),
            decreases ids.len() - k,
        {
            let id = ids[k];
            self.planet_trails.remove(&id);
            proof {
                lemma_take_one_more_to_set(ids@, k as int);
            }
            assert(self@.planet_trails =~= old(self)@.planet_trails.remove_keys(
                ids@.take(k + 1).to_set(),
            ));
            assert forall|x: usize| #[trigger] self@.planet_trails.contains_key(x) implies x
                < self@.planet_id_count by {
                assert(old(self)@.planet_trails.contains_key(x));
            }
            k = k + 1;
        }
        assert(ids@.take(ids@.len() as int) =~= ids@);
    }
}

/// The set of the first `k + 1` elements is that of the first `k` with the
/// element at `k` added.
proof fn lemma_take_one_more_to_set(s: Seq<usize>, k: int)
    requires
        0 <= k < s.len(),
    ensures
        s.take(k + 1).to_set() == s.take(k).to_set().insert(s[k]),
{
    let t = s.take(k + 1);
    assert(t.drop_last() =~= s.take(k));
    assert(t.last() == s[k]);
    assert(t.drop_last().to_set().insert(t.last()) =~= t.to_set());
}

impl<P, T> MainState<P, T> {
    /// Reacts to a key: `D` and `I` switch the drawing of force vectors and
    /// of body information, `C` removes every body, `R` removes every body
    /// and returns `true`, telling the caller to spawn the starting system.
    /// Other keys change nothing.
    pub fn key_down_event(&mut self, key: Key) -> (restart: bool)
        requires
            old(self).wf(),
        ensures
            final(self).wf(),
            restart == (key == Key::R),
            final(self)@ == key_effect(old(self)@, key),
            final(self)@.planet_trails == old(self)@.planet_trails,
            final(self)@.planet_id_count == old(self)@.planet_id_count,
            final(self)@.mouse_info == old(self)@.mouse_info,
            key == Key::D ==> {
                &&& final(self)@.show_vector_debug == !old(self)@.show_vector_debug
                &&& final(self)@.show_planet_info_debug == old(self)@.show_planet_info_debug
                &&& final(self)@.planets == old(self)@.planets
            },
            key == Key::I ==> {
                &&& final(self)@.show_planet_info_debug == !old(self)@.show_planet_info_debug
                &&& final(self)@.show_vector_debug == old(self)@.show_vector_debug
                &&& final(self)@.planets == old(self)@.planets
            },
            (key == Key::R || key == Key::C) ==> {
                &&& final(self)@.planets.is_empty()
                &&& final(self)@.show_vector_debug == old(self)@.show_vector_debug
                &&& final(self)@.show_planet_info_debug == old(self)@.show_planet_info_debug
            },
            key == Key::Other ==> final(self)@ == old(self)@,
    {
        match key {
            Key::D => {
                self.show_vector_debug = !self.show_vector_debug;
                false
            },
            Key::I => {
                self.show_planet_info_debug = !self.show_planet_info_debug;
                false
            },
            Key::R => {
                self.clear();
                true
            },
            Key::C => {
                self.clear();
                false
            },
            Key::Other => false,
        }
    }

    /// A mouse button went down.
    pub fn mouse_button_down_event(&mut self, button: MouseButton)
        requires
            old(self).wf(),
        ensures
            final(self).wf(),
            final(self)@ == (StateView {
                mouse_info: MouseInfo { down: true, button_down: button },
                ..old(self)@
            }),
    {
        self.mouse_info.down = true;
        self.mouse_info.button_down = button;
    }

    /// A mouse button went up. Returns whether a body is to be spawned where
    /// the button went down, which is when the left button was released.
    pub fn mouse_button_up_event(&mut self, button: MouseButton) -> (spawn: bool)
        requires
            old(self).wf(),
        ensures
            final(self).wf(),
            spawn == (button == MouseButton::Left),
            final(self)@ == (StateView {
                mouse_info: MouseInfo { down: false, ..old(self)@.mouse_info },
                ..old(self)@
            }),
    {
        self.mouse_info.down = false;
        button == MouseButton::Left
    }

    /// The state of the mouse buttons.
    pub fn mouse_info(&self) -> (m: MouseInfo)
        ensures
            m == self@.mouse_info,
    {
        self.mouse_info
    }
}

/// What a key press does to the state.
pub open spec fn key_effect<P, T>(s: StateView<P, T>, key: Key) -> StateView<P, T> {
    match key {
        Key::D => StateView { show_vector_debug: !s.show_vector_debug, ..s },
        Key::I => StateView { show_planet_info_debug: !s.show_planet_info_debug, ..s },
        Key::R => cleared(s),
        Key::C => cleared(s),
        Key::Other => s,
    }
}

} // verus!
