//! A workspace: a named, ordered group of clients with its own layout state.

use vstd::prelude::*;
use crate::layout::{LayoutKind, RATIO_MIN, RATIO_MAX, RATIO_STEP};

verus! {

/// Which way a cycling or dragging operation walks an ordered list.
#[derive(Clone, Copy, PartialEq, Eq, Structural, Debug)]
pub enum Direction {
    Forward,
    Backward,
}

/// Whether a bounded parameter adjustment raises or lowers the value.
#[derive(Clone, Copy, PartialEq, Eq, Structural, Debug)]
pub enum Change {
    More,
    Less,
}

/// The position reached by one cycling step from position `f` over `n`
/// entries, wrapping at either end.
pub open spec fn spec_cycle_index(f: int, n: int, dir: Direction) -> int
    recommends
        0 <= f < n,
{
    match dir {
        Direction::Forward => if f + 1 == n {
            0
        } else {
            f + 1
        },
        Direction::Backward => if f == 0 {
            n - 1
        } else {
            f - 1
        },
    }
}

/// The client order after one drag step: the entry at `f` trades places with
/// its cyclic neighbour in direction `dir`.
pub open spec fn spec_drag_order(s: Seq<u32>, f: int, dir: Direction) -> Seq<u32>
    recommends
        0 <= f < s.len(),
{
    let j = spec_cycle_index(f, s.len() as int, dir);
    s.update(f, s[j]).update(j, s[f])
}

/// The clamped main-area ratio after one adjustment step.
pub open spec fn spec_update_ratio(ratio: u32, change: Change) -> int {
    match change {
        Change::More => if ratio + RATIO_STEP > RATIO_MAX {
            RATIO_MAX as int
        } else {
            ratio + RATIO_STEP
        },
        Change::Less => if ratio < RATIO_MIN + RATIO_STEP {
            RATIO_MIN as int
        } else {
            ratio - RATIO_STEP
        },
    }
}

/// The clamped main-area client count after one adjustment step; the count
/// never leaves `[0, n]` where `n` is the number of clients present.
pub open spec fn spec_update_max_main(mm: int, n: int, change: Change) -> int {
    match change {
        Change::More => if mm + 1 <= n {
            mm + 1
        } else {
            n
        },
        Change::Less => if mm == 0 {
            0
        } else {
            mm - 1
        },
    }
}

/// The position of `id` in `v`, or `None` when it is absent.
fn position_of(v: &Vec<u32>, id: u32) -> (r: Option<usize>)
    ensures
        r is None ==> !v@.contains(id),
        r matches Some(p) ==> 0 <= p < v.len() && v[p as int] == id,
{
    let n = v.len();
    let mut p: usize = 0;
    while p < n
        invariant
            n == v.len(),
            0 <= p <= n,
            forall|k: int| 0 <= k < p ==> v[k] != id,
        decreases n - p,
    {
        if v[p] == id {
            return Some(p);
        }
        p = p + 1;
    }
    proof {
        assert(!v@.contains(id));
    }
    None
}

/// A named, ordered sequence of client identifiers plus the workspace-local
/// layout state: the active layout, the main-area ratio and the main-area
/// client count.
pub struct Workspace {
    pub name: String,
    pub clients: Vec<u32>,
    /// Position of the focused client in `clients`; 0 when the workspace is empty.
    pub focused: usize,
    /// The ordered, cyclable list of layouts registered at startup.
    pub layouts: Vec<LayoutKind>,
    pub active_layout: usize,
    /// Main-area ratio in thousandths of the screen width.
    pub ratio: u32,
    /// How many clients the main area may hold.
    pub max_main: usize,
}

impl Workspace {
    /// Internal consistency: the focus points at a client whenever one exists,
    /// no client appears twice, there is at least one layout to cycle over,
    /// and the ratio sits inside its configured bounds.
    pub open spec fn wf(self) -> bool {
        &&& (self.clients.len() == 0 ==> self.focused == 0)
        &&& (self.clients.len() > 0 ==> self.focused < self.clients.len())
        &&& self.clients@.no_duplicates()
        &&& 1 <= self.layouts.len()
        &&& self.active_layout < self.layouts.len()
        &&& RATIO_MIN <= self.ratio <= RATIO_MAX
    }

    /// The identifier the workspace's focus rests on, if any client is present.
    pub open spec fn spec_focused_client(self) -> Option<u32> {
        if self.clients.len() == 0 {
            None
        } else {
            Some(self.clients[self.focused as int])
        }
    }

    pub fn new(name: String, layouts: Vec<LayoutKind>, ratio: u32, max_main: usize) -> (w:
        Workspace)
        requires
            1 <= layouts.len(),
            RATIO_MIN <= ratio <= RATIO_MAX,
        ensures
            w == (Workspace {
                name: w.name,
                clients: w.clients,
                focused: 0,
                layouts: w.layouts,
                active_layout: 0,
                ratio,
                max_main,
            }),
            w.name == name,
            w.clients@ == Seq::<u32>::empty(),
            w.layouts == layouts,
            w.wf(),
    {
        Workspace {
            name,
            clients: Vec::new(),
            focused: 0,
            layouts,
            active_layout: 0,
            ratio,
            max_main,
        }
    }

    pub fn focused_client(&self) -> (r: Option<u32>)
        requires
            self.wf(),
        ensures
            r == self.spec_focused_client(),
    {
        if self.clients.len() == 0 {
            None
        } else {
            Some(self.clients[self.focused])
        }
    }

    /// Move focus to the next or previous client in order, wrapping; a no-op
    /// when fewer than two clients are present. The order itself is untouched.
    pub fn cycle_focus(&mut self, dir: Direction)
        requires
            old(self).wf(),
        ensures
            final(self).wf(),
            *final(self) == (Workspace { focused: final(self).focused, ..*old(self) }),
            old(self).clients.len() == 0 ==> final(self).focused == 0,
            old(self).clients.len() > 0 ==> final(self).focused as int == spec_cycle_index(
                old(self).focused as int,
                old(self).clients.len() as int,
                dir,
            ),
    {
        let n = self.clients.len();
        if n > 0 {
            self.focused = match dir {
                Direction::Forward => if self.focused + 1 == n {
                    0
                } else {
                    self.focused + 1
                },
                Direction::Backward => if self.focused == 0 {
                    n - 1
                } else {
                    self.focused - 1
                },
            };
        }
    }

    /// Swap the focused client with its cyclic neighbour in direction `dir`,
    /// keeping focus on the same client identifier. A no-op when fewer than
    /// two clients are present.
    pub fn drag_client(&mut self, dir: Direction)
        requires
            old(self).wf(),
        ensures
            final(self).wf(),
            *final(self) == (Workspace {
                clients: final(self).clients,
                focused: final(self).focused,
                ..*old(self)
            }),
            old(self).clients.len() <= 1 ==> *final(self) == *old(self),
            old(self).clients.len() >= 2 ==> {
                &&& final(self).clients@ == spec_drag_order(
                    old(self).clients@,
                    old(self).focused as int,
                    dir,
                )
                &&& final(self).focused as int == spec_cycle_index(
                    old(self).focused as int,
                    old(self).clients.len() as int,
                    dir,
                )
                &&& final(self).spec_focused_client() == old(self).spec_focused_client()
            },
            forall|x: u32|
                #[trigger] final(self).clients@.contains(x) == old(self).clients@.contains(x),
    {
        let n = self.clients.len();
        if n >= 2 {
            let f = self.focused;
            let j = match dir {
                Direction::Forward => if f + 1 == n {
                    0
                } else {
                    f + 1
                },
                Direction::Backward => if f == 0 {
                    n - 1
                } else {
                    f - 1
                },
            };
            let a = self.clients[f];
            let b = self.clients[j];
            let slot_f = &mut self.clients[f];
            *slot_f = b;
            let slot_j = &mut self.clients[j];
            *slot_j = a;
            self.focused = j;
            proof {
                let oldc = old(self).clients@;
                let newc = self.clients@;
                assert(newc =~= spec_drag_order(oldc, old(self).focused as int, dir));
                assert(newc.no_duplicates());
                assert forall|x: u32| #[trigger] newc.contains(x) == oldc.contains(x) by {
                    if newc.contains(x) {
                        let k = choose|k: int| 0 <= k < newc.len() && newc[k] == x;
                        if k == j as int {
                            assert(oldc[f as int] == x);
                        } else if k == f as int {
                            assert(oldc[j as int] == x);
                        } else {
                            assert(oldc[k] == x);
                        }
                        assert(oldc.contains(x));
                    }
                    if oldc.contains(x) {
                        let k = choose|k: int| 0 <= k < oldc.len() && oldc[k] == x;
                        if k == f as int {
                            assert(newc[j as int] == x);
                        } else if k == j as int {
                            assert(newc[f as int] == x);
                        } else {
                            assert(newc[k] == x);
                        }
                        assert(newc.contains(x));
                    }
                }
            }
        } else {
            proof {
                assert(*self =~= *old(self));
            }
        }
    }

    /// Select the next or previous registered layout, wrapping.
    pub fn cycle_layout(&mut self, dir: Direction)
        requires
            old(self).wf(),
        ensures
            final(self).wf(),
            *final(self) == (Workspace { active_layout: final(self).active_layout, ..*old(self) }),
            final(self).active_layout as int == spec_cycle_index(
                old(self).active_layout as int,
                old(self).layouts.len() as int,
                dir,
            ),
    {
        let n = self.layouts.len();
        self.active_layout = match dir {
            Direction::Forward => if self.active_layout + 1 == n {
                0
            } else {
                self.active_layout + 1
            },
            Direction::Backward => if self.active_layout == 0 {
                n - 1
            } else {
                self.active_layout - 1
            },
        };
    }

    /// The layout currently selected for this workspace.
    pub fn active_layout_kind(&self) -> (k: LayoutKind)
        requires
            self.wf(),
        ensures
            k == self.layouts[self.active_layout as int],
    {
        self.layouts[self.active_layout]
    }

    /// Grow or shrink the main-area ratio by one step, clamped to
    /// `[RATIO_MIN, RATIO_MAX]`: no sequence of adjustments can leave the bounds.
    pub fn update_main_ratio(&mut self, change: Change)
        requires
            old(self).wf(),
        ensures
            final(self).wf(),
            *final(self) == (Workspace { ratio: final(self).ratio, ..*old(self) }),
            final(self).ratio as int == spec_update_ratio(old(self).ratio, change),
            RATIO_MIN <= final(self).ratio <= RATIO_MAX,
    {
        self.ratio = match change {
            Change::More => if self.ratio + RATIO_STEP > RATIO_MAX {
                RATIO_MAX
            } else {
                self.ratio + RATIO_STEP
            },
            Change::Less => if self.ratio < RATIO_MIN + RATIO_STEP {
                RATIO_MIN
            } else {
                self.ratio - RATIO_STEP
            },
        };
    }

    /// Raise or lower the number of main-area clients by one, clamped to
    /// `[0, clients.len()]`: no sequence of adjustments can leave the bounds.
    pub fn update_max_main(&mut self, change: Change)
        requires
            old(self).wf(),
        ensures
            final(self).wf(),
            *final(self) == (Workspace { max_main: final(self).max_main, ..*old(self) }),
            final(self).max_main as int == spec_update_max_main(
                old(self).max_main as int,
                old(self).clients.len() as int,
                change,
            ),
            final(self).max_main <= final(self).clients.len() || change == Change::Less,
    {
        self.max_main = match change {
            Change::More => if self.max_main < self.clients.len() {
                self.max_main + 1
            } else {
                self.clients.len()
            },
            Change::Less => if self.max_main == 0 {
                0
            } else {
                self.max_main - 1
            },
        };
    }

    /// Insert a new client just after the focused one (or as the only client),
    /// leaving focus where it was. Returns the position the client was given.
    pub fn insert_after_focus(&mut self, id: u32) -> (pos: usize)
        requires
            old(self).wf(),
            !old(self).clients@.contains(id),
        ensures
            final(self).wf(),
            *final(self) == (Workspace { clients: final(self).clients, ..*old(self) }),
            pos == if old(self).clients.len() == 0 { 0int } else { old(self).focused + 1 },
            final(self).clients@ == old(self).clients@.insert(pos as int, id),
            final(self).clients[pos as int] == id,
            final(self).clients.len() == old(self).clients.len() + 1,
            final(self).focused == old(self).focused,
            forall|x: u32|
                #[trigger] final(self).clients@.contains(x) == (old(self).clients@.contains(x) || x
                    == id),
    {
        let pos: usize = if self.clients.len() == 0 {
            0
        } else {
            self.focused + 1
        };
        self.clients.insert(pos, id);
        proof {
            let oldc = old(self).clients@;
            let newc = self.clients@;
            assert(newc == oldc.insert(pos as int, id));
            assert forall|i: int, j: int| 0 <= i < j < newc.len() implies newc[i] != newc[j] by {
                assert(forall|k: int|
                    0 <= k < newc.len() && k != pos ==> newc[k] == oldc[
                        if k < pos as int { k } else { k - 1 }
                    ]);
                if i != pos && j != pos {
                    assert(oldc.no_duplicates());
                } else {
                    assert(forall|k: int| 0 <= k < oldc.len() ==> oldc[k] != id);
                }
            }
            assert forall|x: u32| #[trigger] newc.contains(x) == (oldc.contains(x) || x == id) by {
                if newc.contains(x) && x != id {
                    let k = choose|k: int| 0 <= k < newc.len() && newc[k] == x;
                    let kk = if k < pos as int { k } else { k - 1 };
                    assert(oldc[kk] == x);
                    assert(oldc.contains(x));
                }
                if oldc.contains(x) {
                    let k = choose|k: int| 0 <= k < oldc.len() && oldc[k] == x;
                    let kk = if k < pos as int { k } else { k + 1 };
                    assert(newc[kk] == x);
                    assert(newc.contains(x));
                }
                if x == id {
                    assert(newc[pos as int] == id);
                    assert(newc.contains(x));
                }
            }
        }
        pos
    }

    /// Point the focus at position `pos` of the order.
    pub fn set_focus_position(&mut self, pos: usize)
        requires
            old(self).wf(),
            pos < old(self).clients.len(),
        ensures
            final(self).wf(),
            *final(self) == (Workspace { focused: pos, ..*old(self) }),
    {
        self.focused = pos;
    }

    /// Point the focus at the client with identifier `id`, leaving the order
    /// untouched; `false` (and no change) when the client is not here.
    pub fn focus_on(&mut self, id: u32) -> (found: bool)
        requires
            old(self).wf(),
        ensures
            final(self).wf(),
            *final(self) == (Workspace { focused: final(self).focused, ..*old(self) }),
            found == old(self).clients@.contains(id),
            found ==> final(self).spec_focused_client() == Some(id),
            !found ==> *final(self) == *old(self),
    {
        match position_of(&self.clients, id) {
            Option::Some(p) => {
                self.focused = p;
                proof {
                    assert(self.clients@.contains(id));
                }
                true
            }
            Option::None => false,
        }
    }

    /// Remove a client by identifier, returning the position it held, or
    /// `None` (and changing nothing) when it is not here. If the removed
    /// client was focused, focus moves to the top of the order; otherwise it
    /// stays on the client it was on.
    pub fn remove_client(&mut self, id: u32) -> (r: Option<usize>)
        requires
            old(self).wf(),
        ensures
            final(self).wf(),
            *final(self) == (Workspace {
                clients: final(self).clients,
                focused: final(self).focused,
                ..*old(self)
            }),
            r is None ==> *final(self) == *old(self) && !old(self).clients@.contains(id),
            r matches Some(p) ==> {
                &&& 0 <= p < old(self).clients.len()
                &&& old(self).clients[p as int] == id
                &&& final(self).clients@ == old(self).clients@.remove(p as int)
                &&& !final(self).clients@.contains(id)
                &&& (old(self).focused == p ==> final(self).focused == 0)
                &&& (old(self).focused != p && old(self).clients.len() > 1
                    ==> final(self).spec_focused_client() == old(self).spec_focused_client())
                &&& forall|x: u32|
                    #[trigger] final(self).clients@.contains(x) == (old(self).clients@.contains(x)
                        && x != id)
            },
    {
        let found = position_of(&self.clients, id);
        let p = match found {
            Option::None => {
                return None;
            }
            Option::Some(p) => p,
        };
        self.clients.remove(p);
        proof {
            let oldc = old(self).clients@;
            let newc = self.clients@;
            assert(newc == oldc.remove(p as int));
            assert(forall|k: int|
                0 <= k < newc.len() ==> newc[k] == oldc[if k < p as int { k } else { k + 1 }]);
            assert(oldc.no_duplicates());
            assert forall|i: int, j: int| 0 <= i < j < newc.len() implies newc[i] != newc[j] by {
                let ii = if i < p as int { i } else { i + 1 };
                let jj = if j < p as int { j } else { j + 1 };
                assert(oldc[ii] != oldc[jj]);
            }
            assert forall|k: int| 0 <= k < newc.len() implies newc[k] != id by {
                let kk = if k < p as int { k } else { k + 1 };
                assert(oldc[kk] != oldc[p as int]);
            }
            assert forall|x: u32| #[trigger] newc.contains(x) == (oldc.contains(x) && x != id) by {
                if newc.contains(x) {
                    let k = choose|k: int| 0 <= k < newc.len() && newc[k] == x;
                    let kk = if k < p as int { k } else { k + 1 };
                    assert(oldc[kk] == x);
                    assert(oldc.contains(x));
                }
                if oldc.contains(x) && x != id {
                    let k = choose|k: int| 0 <= k < oldc.len() && oldc[k] == x;
                    let kk = if k < p as int { k } else { k - 1 };
                    assert(newc[kk] == x);
                    assert(newc.contains(x));
                }
            }
        }
        if self.focused == p {
            self.focused = 0;
        } else if self.focused > p {
            self.focused = self.focused - 1;
        }
        if self.clients.len() == 0 {
            self.focused = 0;
        }
        Some(p)
    }
}

/// One focus cycle forward and one backward (or the other way around) on an
/// unchanged client list land focus back on the client it started on, for any
/// list with at least one client.
pub proof fn lemma_cycle_focus_round_trip(f: int, n: int, dir: Direction)
    requires
        1 <= n,
        0 <= f < n,
    ensures
        spec_cycle_index(
            spec_cycle_index(f, n, dir),
            n,
            match dir {
                Direction::Forward => Direction::Backward,
                Direction::Backward => Direction::Forward,
            },
        ) == f,
{
}

/// Dragging the focused client one step in a direction and one step back
/// restores the original client order, and the same position (hence the same
/// client) holds the focus again.
pub proof fn lemma_drag_round_trip(s: Seq<u32>, f: int, dir: Direction)
    requires
        1 <= s.len(),
        0 <= f < s.len(),
    ensures
        ({
            let back = match dir {
                Direction::Forward => Direction::Backward,
                Direction::Backward => Direction::Forward,
            };
            let n = s.len() as int;
            let s1 = spec_drag_order(s, f, dir);
            let f1 = spec_cycle_index(f, n, dir);
            &&& spec_drag_order(s1, f1, back) =~= s
            &&& spec_cycle_index(f1, n, back) == f
        }),
{
    let back = match dir {
        Direction::Forward => Direction::Backward,
        Direction::Backward => Direction::Forward,
    };
    let n = s.len() as int;
    let s1 = spec_drag_order(s, f, dir);
    let f1 = spec_cycle_index(f, n, dir);
    lemma_cycle_focus_round_trip(f, n, dir);
    assert(spec_drag_order(s1, f1, back) =~= s);
}

} // verus!
