use vstd::prelude::*;

verus! {

/// What happens to a pair of bodies that a collision pass looks at.
#[derive(Debug, Clone, Copy, PartialEq, Eq, Structural)]
pub enum Interaction {
    /// The bodies touch and neither is protected: the first absorbs the second.
    Merge,
    /// The bodies do not touch: they pull on each other.
    Attract,
    /// The bodies touch but one of them is still protected: nothing happens.
    Skip,
}

/// The interaction that a pair gets, given whether the bodies touch and
/// whether either of them is protected.
pub open spec fn spec_interaction(colliding: bool, protected: bool) -> Interaction {
    if colliding && !protected {
        Interaction::Merge
    } else if !colliding {
        Interaction::Attract
    } else {
        Interaction::Skip
    }
}

/// Decides what a pair of bodies does this frame.
pub fn interaction(colliding: bool, protected: bool) -> (r: Interaction)
    ensures
        r == spec_interaction(colliding, protected),
{
    if colliding && !protected {
        Interaction::Merge
    } else if !colliding {
        Interaction::Attract
    } else {
        Interaction::Skip
    }
}

/// Whether `v` holds `x`.
fn vec_contains(v: &Vec<usize>, x: usize) -> (r: bool)
    ensures
        r == v@.contains(x),
{
    let mut k: usize = 0;
    while k < v.len()
        invariant
            k <= v.len(),
            forall|m: int| 0 <= m < k ==> v@[m] != x,
        decreases v.len() - k,
    {
        if v[k] == x {
            return true;
        }
        k = k + 1;
    }
    false
}

/// The next pair of positions `(i, j)` that a collision pass hands out,
/// starting from the cursor `(row, col)`.
///
/// Positions are indices into the list of body ids. The outer loop runs
/// `row` over `0 .. len - 1`; a row whose index is among `collided` when the
/// row is entered is skipped. The inner loop runs `col` over `row + 1 .. len`
/// and skips a column whose index is among `collided`. `entered` tells
/// whether the check on `row` has been made already.
pub open spec fn next_candidate(
    len: int,
    collided: Seq<usize>,
    row: int,
    col: int,
    entered: bool,
) -> Option<(int, int)>
    decreases len - row, (if entered { 0int } else { 1int }), len - col,
{
    if row < 0 || row + 1 >= len {
        None
    } else if !entered {
        if collided.contains(row as usize) {
            next_candidate(len, collided, row + 1, 0, false)
        } else {
            next_candidate(len, collided, row, row + 1, true)
        }
    } else if col >= len {
        next_candidate(len, collided, row + 1, 0, false)
    } else if col >= 0 && collided.contains(col as usize) {
        next_candidate(len, collided, row, col + 1, true)
    } else {
        Some((row, col))
    }
}

/// Whether pair `a` of indices comes before pair `b`: by row, then by column.
pub open spec fn pair_before(a: (int, int), b: (int, int)) -> bool {
    a.0 < b.0 || (a.0 == b.0 && a.1 < b.1)
}

/// Whether the pair of indices `q` may still be handed out from the cursor
/// `(row, col, entered)`: it lies at or after the cursor, its first index is
/// below its second, which is below `len`; its column index is not among
/// `collided`; and its row index is not among `collided` either, unless the
/// row is the cursor's row and was entered already (a row is checked once,
/// when it is entered), in which case the column is at least `col`.
pub open spec fn eligible_pair(
    len: int,
    collided: Seq<usize>,
    row: int,
    col: int,
    entered: bool,
    q: (int, int),
) -> bool {
    &&& row <= q.0
    &&& q.0 < q.1 < len
    &&& !collided.contains(q.1 as usize)
    &&& if q.0 == row && entered {
        col <= q.1
    } else {
        !collided.contains(q.0 as usize)
    }
}

/// The pair that a pass hands out from a cursor is the first pair, by row
/// and then by column, that may still be handed out; and when it hands out
/// none, no pair may still be handed out.
pub proof fn law_next_candidate_is_first_eligible(
    len: int,
    collided: Seq<usize>,
    row: int,
    col: int,
    entered: bool,
)
    requires
        0 <= row,
        entered ==> row < col,
    ensures
        match next_candidate(len, collided, row, col, entered) {
            Some(p) => {
                &&& eligible_pair(len, collided, row, col, entered, p)
                &&& forall|q: (int, int)|
                    #[trigger] eligible_pair(len, collided, row, col, entered, q) ==> !pair_before(
                        q,
                        p,
                    )
            },
            None => forall|q: (int, int)| !#[trigger] eligible_pair(len, collided, row, col, entered, q),
        },
    decreases len - row, (if entered { 0int } else { 1int }), len - col,
{
    if row + 1 >= len {
    } else if !entered {
        if collided.contains(row as usize) {
            law_next_candidate_is_first_eligible(len, collided, row + 1, 0, false);
            assert forall|q: (int, int)|
                eligible_pair(len, collided, row, col, entered, q) == eligible_pair(
                    len,
                    collided,
                    row + 1,
                    0,
                    false,
                    q,
                ) by {}
        } else {
            law_next_candidate_is_first_eligible(len, collided, row, row + 1, true);
            assert forall|q: (int, int)|
                eligible_pair(len, collided, row, col, entered, q) == eligible_pair(
                    len,
                    collided,
                    row,
                    row + 1,
                    true,
                    q,
                ) by {}
        }
    } else if col >= len {
        law_next_candidate_is_first_eligible(len, collided, row + 1, 0, false);
        assert forall|q: (int, int)|
            eligible_pair(len, collided, row, col, entered, q) == eligible_pair(
                len,
                collided,
                row + 1,
                0,
                false,
                q,
            ) by {}
    } else if col >= 0 && collided.contains(col as usize) {
        law_next_candidate_is_first_eligible(len, collided, row, col + 1, true);
        assert forall|q: (int, int)|
            eligible_pair(len, collided, row, col, entered, q) == eligible_pair(
                len,
                collided,
                row,
                col + 1,
                true,
                q,
            ) by {
            if q.0 == row && q.1 == col {
                assert(collided.contains(q.1 as usize));
            }
        }
    } else {
    }
}

/// The abstract state of a collision pass.
pub struct PassState {
    /// The ids of the bodies, in the order in which the pass visits them.
    pub keys: Seq<usize>,
    /// Index of the current row.
    pub row: int,
    /// Index of the next column to look at in the current row.
    pub col: int,
    /// Whether the current row has been entered.
    pub entered: bool,
    /// The list the pass checks indices against; every merge appends the
    /// ids of both bodies.
    pub collided: Seq<usize>,
    /// The ids of the bodies that were absorbed, in order.
    pub removed: Seq<usize>,
    /// The pair of indices handed out and not yet resolved.
    pub pending: Option<(int, int)>,
}

impl PassState {
    /// The next pair of indices the pass will hand out.
    pub open spec fn upcoming(self) -> Option<(int, int)> {
        next_candidate(self.keys.len() as int, self.collided, self.row, self.col, self.entered)
    }

    /// The state after the pending pair `(i, j)` got interaction `r`.
    pub open spec fn resolved(self, i: int, j: int, r: Interaction) -> PassState {
        PassState {
            keys: self.keys,
            row: i,
            col: j + 1,
            entered: true,
            collided: if r == Interaction::Merge {
                self.collided.push(self.keys[i]).push(self.keys[j])
            } else {
                self.collided
            },
            removed: if r == Interaction::Merge {
                self.removed.push(self.keys[j])
            } else {
                self.removed
            },
            pending: None,
        }
    }

    /// Whether the pair of indices `q` may still be handed out.
    pub open spec fn eligible(self, q: (int, int)) -> bool {
        eligible_pair(self.keys.len() as int, self.collided, self.row, self.col, self.entered, q)
    }

    /// The ids of the bodies at the pair of indices `p`.
    pub open spec fn ids_of(self, p: (int, int)) -> (usize, usize) {
        (self.keys[p.0], self.keys[p.1])
    }
}

/// The state of a pass over the given ids that has not looked at any pair.
pub open spec fn started(keys: Seq<usize>) -> PassState {
    PassState {
        keys,
        row: 0,
        col: 0,
        entered: false,
        collided: Seq::empty(),
        removed: Seq::empty(),
        pending: None,
    }
}

/// One pass over all pairs of bodies, in which each pair either merges,
/// attracts or is skipped. The caller computes, for each pair handed out by
/// [`CollisionPass::next_pair`], whether the bodies touch and whether one of
/// them is protected, and reports it with [`CollisionPass::resolve`].
pub struct CollisionPass {
    keys: Vec<usize>,
    row: usize,
    col: usize,
    entered: bool,
    collided: Vec<usize>,
    removed: Vec<usize>,
    pending: Option<(usize, usize)>,
}

impl View for CollisionPass {
    type V = PassState;

    closed spec fn view(&self) -> PassState {
        PassState {
            keys: self.keys@,
            row: self.row as int,
            col: self.col as int,
            entered: self.entered,
            collided: self.collided@,
            removed: self.removed@,
            pending: match self.pending {
                Some(p) => Some((p.0 as int, p.1 as int)),
                None => None,
            },
        }
    }
}

impl CollisionPass {
    /// The invariant of a pass: the cursor stays within the list of ids, a
    /// pending pair is the pair under the cursor, and every absorbed body is
    /// one of the bodies the pass runs over.
    pub open spec fn wf(&self) -> bool {
        let s = self@;
        &&& 0 <= s.row <= s.keys.len()
        &&& forall|k: int| 0 <= k < s.removed.len() ==> s.keys.contains(#[trigger] s.removed[k])
        &&& s.entered ==> s.row < s.col <= s.keys.len()
        &&& match s.pending {
            Some(p) => p.0 == s.row && p.1 == s.col && s.entered && p.1 < s.keys.len(),
            None => true,
        }
    }

    /// Starts a pass over the bodies with the given ids, in that order.
    pub fn new(keys: Vec<usize>) -> (pass: CollisionPass)
        ensures
            pass.wf(),
            pass@ == started(keys@),
    {
        CollisionPass {
            keys,
            row: 0,
            col: 0,
            entered: false,
            collided: Vec::new(),
            removed: Vec::new(),
            pending: None,
        }
    }

    /// Hands out the ids of the next pair of bodies to look at, or `None`
    /// once every pair has been seen. While a pair is pending, the same pair
    /// is handed out again.
    pub fn next_pair(&mut self) -> (r: Option<(usize, usize)>)
        requires
            old(self).wf(),
        ensures
            final(self).wf(),
            final(self)@.keys == old(self)@.keys,
            final(self)@.collided == old(self)@.collided,
            final(self)@.removed == old(self)@.removed,
            match old(self)@.pending {
                Some(p) => r == Some(old(self)@.ids_of(p)) && final(self)@ == old(self)@,
                None => match old(self)@.upcoming() {
                    Some(p) => {
                        &&& r == Some(old(self)@.ids_of(p))
                        &&& old(self)@.eligible(p)
                        &&& forall|q: (int, int)| #[trigger]
                            old(self)@.eligible(q) ==> !pair_before(q, p)
                        &&& final(self)@.pending == Some(p)
                        &&& final(self)@.row == p.0
                        &&& final(self)@.col == p.1
                        &&& final(self)@.entered
                    },
                    None => {
                        &&& r is None
                        &&& forall|q: (int, int)| !#[trigger] old(self)@.eligible(q)
                        &&& final(self)@.pending is None
                        &&& final(self)@.upcoming() is None
                    },
                },
            },
    {
        if let Some((i, j)) = self.pending {
            return Some((self.keys[i], self.keys[j]));
        }
        let len = self.keys.len();
        let ghost target = old(self)@.upcoming();
        loop
            invariant
                self.wf(),
                self.keys.len() == len,
                self.pending is None,
                old(self).wf(),
                old(self)@.pending is None,
                self@.keys == old(self)@.keys,
                self@.collided == old(self)@.collided,
                self@.removed == old(self)@.removed,
                self@.upcoming() == target,
                target == old(self)@.upcoming(),
            decreases len - self.row, (if self.entered { 0int } else { 1int }), len - self.col,
        {
            if self.row >= len || len - self.row < 2 {
                proof {
                    law_next_candidate_is_first_eligible(
                        len as int,
                        old(self)@.collided,
                        old(self)@.row,
                        old(self)@.col,
                        old(self)@.entered,
                    );
                }
                return None;
            }
            if !self.entered {
                if vec_contains(&self.collided, self.row) {
                    self.row = self.row + 1;
                    self.col = 0;
                } else {
                    self.col = self.row + 1;
                    self.entered = true;
                }
            } else if self.col >= len {
                self.row = self.row + 1;
                self.col = 0;
                self.entered = false;
            } else if vec_contains(&self.collided, self.col) {
                self.col = self.col + 1;
            } else {
                self.pending = Some((self.row, self.col));
                proof {
                    law_next_candidate_is_first_eligible(
                        len as int,
                        old(self)@.collided,
                        old(self)@.row,
                        old(self)@.col,
                        old(self)@.entered,
                    );
                }
                return Some((self.keys[self.row], self.keys[self.col]));
            }
        }
    }

    /// Records whether the pending pair touches and whether one of its
    /// bodies is protected, and returns what the pair does. Returns `None`,
    /// changing nothing, when no pair is pending.
    pub fn resolve(&mut self, colliding: bool, protected: bool) -> (r: Option<Interaction>)
        requires
            old(self).wf(),
        ensures
            final(self).wf(),
            match old(self)@.pending {
                None => r is None && final(self)@ == old(self)@,
                Some(p) => {
                    &&& r == Some(spec_interaction(colliding, protected))
                    &&& final(self)@.row == p.0
                    &&& final(self)@.col == p.1 + 1
                    &&& final(self)@.entered
                    &&& final(self)@.pending is None
                    &&& final(self)@.keys == old(self)@.keys
                    &&& (colliding && !protected) ==> {
                        &&& final(self)@.removed == old(self)@.removed.push(old(self)@.keys[p.1])
                        &&& final(self)@.collided == old(self)@.collided.push(
                            old(self)@.keys[p.0],
                        ).push(old(self)@.keys[p.1])
                    }
                    &&& !(colliding && !protected) ==> {
                        &&& final(self)@.removed == old(self)@.removed
                        &&& final(self)@.collided == old(self)@.collided
                    }
                    &&& final(self)@ == old(self)@.resolved(
                        p.0,
                        p.1,
                        spec_interaction(colliding, protected),
                    )
                },
            },
    {
        match self.pending {
            None => None,
            Some((i, j)) => {
                assert(j < self.keys.len());
                let action = interaction(colliding, protected);
                if action == Interaction::Merge {
                    let a = self.keys[i];
                    let b = self.keys[j];
                    self.collided.push(a);
                    self.collided.push(b);
                    self.removed.push(b);
                }
                self.row = i;
                self.col = j + 1;
                self.entered = true;
                self.pending = None;
                Some(action)
            },
        }
    }

    /// The ids of the bodies absorbed so far, in the order of the merges.
    pub fn removed(&self) -> (r: &Vec<usize>)
        ensures
            r@ == self@.removed,
    {
        &self.removed
    }
}

} // verus!
