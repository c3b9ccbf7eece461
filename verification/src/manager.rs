//! The workspace/screen model: one owned state object tracking all clients,
//! workspaces and screens, with every operation a total function that keeps
//! the model's invariants intact.

use vstd::prelude::*;
use crate::clients::{Client, ClientRegistry};
use crate::geometry::Rect;
use crate::layout::{LayoutKind, RATIO_MIN, RATIO_MAX};
use crate::workspace::{Workspace, Direction, Change, spec_cycle_index, spec_drag_order,
    spec_update_ratio, spec_update_max_main};

verus! {

/// A physical display region currently showing exactly one workspace.
#[derive(Clone, Copy, PartialEq, Eq, Structural, Debug)]
pub struct Screen {
    pub rect: Rect,
    /// Index of the workspace this screen shows.
    pub wix: usize,
}

/// The recoverable error kinds an operation of the core can report. Transport
/// and spawn failures belong to the surrounding program, and an internal
/// invariant breach cannot arise: every operation here proves it keeps the
/// model well-formed.
#[derive(Clone, Copy, PartialEq, Eq, Structural, Debug)]
pub enum WmError {
    /// An index supplied by configuration or input is out of range.
    Configuration,
    /// The operation targets an identifier that is no longer valid.
    StaleReference,
}

/// The whole mutable state of the manager: the client registry, the fixed set
/// of workspaces, the screens currently attached, which screen is active, and
/// the workspace most recently displaced from the active screen (the 2-slot
/// history behind `toggle_workspace`).
pub struct WindowManager {
    pub registry: ClientRegistry,
    pub workspaces: Vec<Workspace>,
    pub screens: Vec<Screen>,
    pub active_screen: usize,
    pub previous_workspace: usize,
}

/// A fresh copy of a registered layout list.
fn copy_layouts(v: &Vec<LayoutKind>) -> (r: Vec<LayoutKind>)
    ensures
        r@ == v@,
{
    let mut r: Vec<LayoutKind> = Vec::new();
    let mut i: usize = 0;
    while i < v.len()
        invariant
            i <= v.len(),
            r.len() == i,
            forall|j: int| 0 <= j < i ==> r[j] == v[j],
        decreases v.len() - i,
    {
        r.push(v[i]);
        i = i + 1;
    }
    proof {
        assert(r@ =~= v@);
    }
    r
}

impl WindowManager {
    /// Screen invariants: at least one screen, the active index is real, every
    /// screen shows a real workspace inside a well-formed rectangle, and no
    /// workspace is shown on two screens.
    pub open spec fn screens_wf(self) -> bool {
        &&& 1 <= self.screens.len()
        &&& self.active_screen < self.screens.len()
        &&& forall|s: int|
            0 <= s < self.screens.len() ==> (#[trigger] self.screens[s]).wix
                < self.workspaces.len() && self.screens[s].rect.wf()
        &&& forall|s: int, t: int|
            0 <= s < self.screens.len() && 0 <= t < self.screens.len() && s != t
                ==> (#[trigger] self.screens[s]).wix != (#[trigger] self.screens[t]).wix
    }

    /// Registry/workspace agreement: every registered client names a real
    /// workspace whose order contains it, and every identifier in a workspace
    /// order is registered as belonging to exactly that workspace.
    pub open spec fn clients_wf(self) -> bool {
        &&& forall|id: u32| #[trigger]
            self.registry@.contains_key(id) ==> self.registry@[id].workspace
                < self.workspaces.len() && self.workspaces[
                self.registry@[id].workspace as int
            ].clients@.contains(id)
        &&& forall|w: int, i: int|
            0 <= w < self.workspaces.len() && 0 <= i < self.workspaces[w].clients.len()
                ==> self.registry@.contains_key(#[trigger] self.workspaces[w].clients[i])
                && self.registry@[self.workspaces[w].clients[i]].workspace == w
    }

    /// The model invariant every operation preserves.
    pub open spec fn wf(self) -> bool {
        &&& 1 <= self.workspaces.len()
        &&& forall|w: int| 0 <= w < self.workspaces.len() ==> (#[trigger] self.workspaces[w]).wf()
        &&& self.previous_workspace < self.workspaces.len()
        &&& self.screens_wf()
        &&& self.clients_wf()
    }

    /// Whether workspace `w` is currently shown on some screen.
    pub open spec fn spec_workspace_visible(self, w: int) -> bool {
        exists|s: int| 0 <= s < self.screens.len() && (#[trigger] self.screens[s]).wix == w
    }

    /// The workspace shown on the active screen.
    pub open spec fn spec_active_wix(self) -> int {
        self.screens[self.active_screen as int].wix as int
    }

    /// The globally focused client: the focus of the active screen's
    /// workspace, or nothing when that workspace is empty.
    pub open spec fn spec_focused_client(self) -> Option<u32> {
        self.workspaces[self.spec_active_wix()].spec_focused_client()
    }

    /// Build the starting state: one empty workspace per name, the given
    /// screens showing workspaces `0, 1, ...` in order, the first screen
    /// active.
    pub fn new(
        names: Vec<String>,
        layouts: Vec<LayoutKind>,
        ratio: u32,
        max_main: usize,
        screen_rects: Vec<Rect>,
    ) -> (m: WindowManager)
        requires
            1 <= names.len(),
            1 <= layouts.len(),
            RATIO_MIN <= ratio <= RATIO_MAX,
            1 <= screen_rects.len() <= names.len(),
            forall|s: int| 0 <= s < screen_rects.len() ==> (#[trigger] screen_rects[s]).wf(),
        ensures
            m.wf(),
            m.registry@ == Map::<u32, Client>::empty(),
            m.workspaces.len() == names.len(),
            forall|w: int|
                0 <= w < names.len() ==> (#[trigger] m.workspaces[w]).name == names[w]
                    && m.workspaces[w].clients@ == Seq::<u32>::empty()
                    && m.workspaces[w].layouts@ == layouts@ && m.workspaces[w].active_layout == 0
                    && m.workspaces[w].ratio == ratio && m.workspaces[w].max_main == max_main,
            m.screens.len() == screen_rects.len(),
            forall|s: int|
                0 <= s < screen_rects.len() ==> (#[trigger] m.screens[s]).rect == screen_rects[s]
                    && m.screens[s].wix == s,
            m.active_screen == 0,
            m.previous_workspace == 0,
    {
        let mut workspaces: Vec<Workspace> = Vec::new();
        let mut i: usize = 0;
        let n = names.len();
        let mut names = names;
        let ghost names0 = names@;
        while i < n
            invariant
                workspaces.len() == i,
                i <= n,
                names.len() == n - i,
                names0.len() == n,
                1 <= layouts.len(),
                RATIO_MIN <= ratio <= RATIO_MAX,
                forall|k: int| 0 <= k < names.len() ==> names[k] == names0[i + k],
                forall|w: int|
                    0 <= w < i ==> (#[trigger] workspaces[w]).name == names0[w]
                        && workspaces[w].clients@ == Seq::<u32>::empty() && workspaces[w].layouts@
                        == layouts@ && workspaces[w].active_layout == 0 && workspaces[w].ratio
                        == ratio && workspaces[w].max_main == max_main && workspaces[w].wf(),
            decreases n - i,
        {
            let name = names.remove(0);
            let ws = Workspace::new(name, copy_layouts(&layouts), ratio, max_main);
            workspaces.push(ws);
            i = i + 1;
        }
        let mut screens: Vec<Screen> = Vec::new();
        let mut s: usize = 0;
        let k = screen_rects.len();
        while s < k
            invariant
                s == screens.len(),
                s <= k,
                k == screen_rects.len(),
                forall|j: int| 0 <= j < k ==> (#[trigger] screen_rects[j]).wf(),
                forall|j: int|
                    0 <= j < s ==> (#[trigger] screens[j]).rect == screen_rects[j]
                        && screens[j].wix == j,
            decreases k - s,
        {
            screens.push(Screen { rect: screen_rects[s], wix: s });
            s = s + 1;
        }
        WindowManager {
            registry: ClientRegistry::new(),
            workspaces,
            screens,
            active_screen: 0,
            previous_workspace: 0,
        }
    }

    /// Index of the workspace shown on the active screen.
    pub fn active_workspace_index(&self) -> (w: usize)
        requires
            self.wf(),
        ensures
            w as int == self.spec_active_wix(),
            w < self.workspaces.len(),
    {
        self.screens[self.active_screen].wix
    }

    /// The currently focused client, if any client is visible on the active
    /// screen's workspace.
    pub fn focused_client(&self) -> (r: Option<u32>)
        requires
            self.wf(),
        ensures
            r == self.spec_focused_client(),
    {
        let wix = self.active_workspace_index();
        self.workspaces[wix].focused_client()
    }

    /// Make the next or previous screen in order the active one, wrapping.
    pub fn cycle_screen(&mut self, dir: Direction)
        requires
            old(self).wf(),
        ensures
            final(self).wf(),
            *final(self) == (WindowManager {
                active_screen: final(self).active_screen,
                ..*old(self)
            }),
            final(self).active_screen as int == spec_cycle_index(
                old(self).active_screen as int,
                old(self).screens.len() as int,
                dir,
            ),
    {
        let n = self.screens.len();
        self.active_screen = match dir {
            Direction::Forward => if self.active_screen + 1 == n {
                0
            } else {
                self.active_screen + 1
            },
            Direction::Backward => if self.active_screen == 0 {
                n - 1
            } else {
                self.active_screen - 1
            },
        };
    }

    /// Move focus to the next or previous client of the active workspace,
    /// wrapping; a no-op when it has fewer than two clients.
    pub fn cycle_focus(&mut self, dir: Direction)
        requires
            old(self).wf(),
        ensures
            final(self).wf(),
            *final(self) == (WindowManager { workspaces: final(self).workspaces, ..*old(self) }),
            final(self).workspaces@ == old(self).workspaces@.update(
                old(self).spec_active_wix(),
                final(self).workspaces[old(self).spec_active_wix()],
            ),
            ({
                let w0 = old(self).workspaces[old(self).spec_active_wix()];
                let w1 = final(self).workspaces[old(self).spec_active_wix()];
                &&& w1 == (Workspace { focused: w1.focused, ..w0 })
                &&& (w0.clients.len() == 0 ==> w1.focused == 0)
                &&& (w0.clients.len() > 0 ==> w1.focused as int == spec_cycle_index(
                    w0.focused as int,
                    w0.clients.len() as int,
                    dir,
                ))
            }),
    {
        let wix = self.active_workspace_index();
        let ws = &mut self.workspaces[wix];
        ws.cycle_focus(dir);
        proof {
            lemma_clients_wf_after_workspace_update(*old(self), *self, wix as int);
        }
    }

    /// Swap the focused client of the active workspace with its neighbour in
    /// order, keeping focus on the same client identifier.
    pub fn drag_client(&mut self, dir: Direction)
        requires
            old(self).wf(),
        ensures
            final(self).wf(),
            *final(self) == (WindowManager { workspaces: final(self).workspaces, ..*old(self) }),
            final(self).workspaces@ == old(self).workspaces@.update(
                old(self).spec_active_wix(),
                final(self).workspaces[old(self).spec_active_wix()],
            ),
            ({
                let w0 = old(self).workspaces[old(self).spec_active_wix()];
                let w1 = final(self).workspaces[old(self).spec_active_wix()];
                &&& w1 == (Workspace { clients: w1.clients, focused: w1.focused, ..w0 })
                &&& (w0.clients.len() <= 1 ==> w1 == w0)
                &&& (w0.clients.len() >= 2 ==> w1.clients@ == spec_drag_order(
                    w0.clients@,
                    w0.focused as int,
                    dir,
                ) && w1.focused as int == spec_cycle_index(
                    w0.focused as int,
                    w0.clients.len() as int,
                    dir,
                ) && w1.spec_focused_client() == w0.spec_focused_client())
            }),
            final(self).spec_focused_client() == old(self).spec_focused_client(),
    {
        let wix = self.active_workspace_index();
        let ws = &mut self.workspaces[wix];
        ws.drag_client(dir);
        proof {
            lemma_clients_wf_after_workspace_update(*old(self), *self, wix as int);
        }
    }

    /// Select the next or previous layout of the active workspace, wrapping.
    pub fn cycle_layout(&mut self, dir: Direction)
        requires
            old(self).wf(),
        ensures
            final(self).wf(),
            *final(self) == (WindowManager { workspaces: final(self).workspaces, ..*old(self) }),
            final(self).workspaces@ == old(self).workspaces@.update(
                old(self).spec_active_wix(),
                final(self).workspaces[old(self).spec_active_wix()],
            ),
            ({
                let w0 = old(self).workspaces[old(self).spec_active_wix()];
                let w1 = final(self).workspaces[old(self).spec_active_wix()];
                &&& w1 == (Workspace { active_layout: w1.active_layout, ..w0 })
                &&& w1.active_layout as int == spec_cycle_index(
                    w0.active_layout as int,
                    w0.layouts.len() as int,
                    dir,
                )
            }),
    {
        let wix = self.active_workspace_index();
        let ws = &mut self.workspaces[wix];
        ws.cycle_layout(dir);
        proof {
            lemma_clients_wf_after_workspace_update(*old(self), *self, wix as int);
        }
    }

    /// Adjust the active workspace's main-area ratio by one clamped step.
    pub fn update_main_ratio(&mut self, change: Change)
        requires
            old(self).wf(),
        ensures
            final(self).wf(),
            *final(self) == (WindowManager { workspaces: final(self).workspaces, ..*old(self) }),
            final(self).workspaces@ == old(self).workspaces@.update(
                old(self).spec_active_wix(),
                final(self).workspaces[old(self).spec_active_wix()],
            ),
            ({
                let w0 = old(self).workspaces[old(self).spec_active_wix()];
                let w1 = final(self).workspaces[old(self).spec_active_wix()];
                &&& w1 == (Workspace { ratio: w1.ratio, ..w0 })
                &&& w1.ratio as int == spec_update_ratio(w0.ratio, change)
                &&& RATIO_MIN <= w1.ratio <= RATIO_MAX
            }),
    {
        let wix = self.active_workspace_index();
        let ws = &mut self.workspaces[wix];
        ws.update_main_ratio(change);
        proof {
            lemma_clients_wf_after_workspace_update(*old(self), *self, wix as int);
        }
    }

    /// Adjust how many clients the active workspace's main area holds, by one
    /// clamped step.
    pub fn update_max_main(&mut self, change: Change)
        requires
            old(self).wf(),
        ensures
            final(self).wf(),
            *final(self) == (WindowManager { workspaces: final(self).workspaces, ..*old(self) }),
            final(self).workspaces@ == old(self).workspaces@.update(
                old(self).spec_active_wix(),
                final(self).workspaces[old(self).spec_active_wix()],
            ),
            ({
                let w0 = old(self).workspaces[old(self).spec_active_wix()];
                let w1 = final(self).workspaces[old(self).spec_active_wix()];
                &&& w1 == (Workspace { max_main: w1.max_main, ..w0 })
                &&& w1.max_main as int == spec_update_max_main(
                    w0.max_main as int,
                    w0.clients.len() as int,
                    change,
                )
            }),
    {
        let wix = self.active_workspace_index();
        let ws = &mut self.workspaces[wix];
        ws.update_max_main(change);
        proof {
            lemma_clients_wf_after_workspace_update(*old(self), *self, wix as int);
        }
    }
    /// Exchange the workspace shown on the active screen with the one shown on
    /// the next or previous screen, atomically: both workspaces end up shown
    /// on exactly one screen each. A no-op with a single screen.
    pub fn drag_workspace(&mut self, dir: Direction)
        requires
            old(self).wf(),
        ensures
            final(self).wf(),
            *final(self) == (WindowManager { screens: final(self).screens, ..*old(self) }),
            old(self).screens.len() == 1 ==> final(self).screens == old(self).screens,
            old(self).screens.len() >= 2 ==> ({
                let a = old(self).active_screen as int;
                let b = spec_cycle_index(a, old(self).screens.len() as int, dir);
                &&& final(self).screens.len() == old(self).screens.len()
                &&& final(self).screens[a] == (Screen {
                    wix: old(self).screens[b].wix,
                    ..old(self).screens[a]
                })
                &&& final(self).screens[b] == (Screen {
                    wix: old(self).screens[a].wix,
                    ..old(self).screens[b]
                })
                &&& forall|s: int|
                    0 <= s < old(self).screens.len() && s != a && s != b
                        ==> #[trigger] final(self).screens[s] == old(self).screens[s]
            }),
    {
        let n = self.screens.len();
        if n >= 2 {
            let a = self.active_screen;
            let b = match dir {
                Direction::Forward => if a + 1 == n {
                    0
                } else {
                    a + 1
                },
                Direction::Backward => if a == 0 {
                    n - 1
                } else {
                    a - 1
                },
            };
            let sa = self.screens[a];
            let sb = self.screens[b];
            let slot_a = &mut self.screens[a];
            *slot_a = Screen { wix: sb.wix, ..sa };
            let slot_b = &mut self.screens[b];
            *slot_b = Screen { wix: sa.wix, ..sb };
        }
    }

    /// Show workspace `ix` on the active screen. If `ix` is already visible on
    /// another screen the two screens exchange workspaces atomically;
    /// otherwise the displaced workspace simply becomes hidden. The displaced
    /// workspace is remembered for `toggle_workspace`. An out-of-range index
    /// is rejected as a configuration error and changes nothing.
    pub fn focus_workspace(&mut self, ix: usize) -> (r: Result<(), WmError>)
        requires
            old(self).wf(),
        ensures
            final(self).wf(),
            ix >= old(self).workspaces.len() ==> r == Err::<(), WmError>(WmError::Configuration)
                && *final(self) == *old(self),
            ix < old(self).workspaces.len() ==> r == Ok::<(), WmError>(()),
            ix < old(self).workspaces.len() && ix == old(self).spec_active_wix() ==> *final(self)
                == *old(self),
            ix < old(self).workspaces.len() && ix != old(self).spec_active_wix() ==> ({
                let a = old(self).active_screen as int;
                let cur = old(self).spec_active_wix();
                &&& *final(self) == (WindowManager {
                    screens: final(self).screens,
                    previous_workspace: final(self).previous_workspace,
                    ..*old(self)
                })
                &&& final(self).previous_workspace as int == cur
                &&& final(self).screens.len() == old(self).screens.len()
                &&& final(self).screens[a] == (Screen { wix: ix, ..old(self).screens[a] })
                &&& forall|s: int|
                    0 <= s < old(self).screens.len() && s != a ==> (#[trigger] final(self).screens[s]) == (Screen {
                        wix: if old(self).screens[s].wix == ix {
                            cur as usize
                        } else {
                            old(self).screens[s].wix
                        },
                        ..old(self).screens[s]
                    })
            }),
    {
        if ix >= self.workspaces.len() {
            return Err(WmError::Configuration);
        }
        let cur = self.screens[self.active_screen].wix;
        if ix == cur {
            return Ok(());
        }
        let n = self.screens.len();
        let mut s: usize = 0;
        while s < n
            invariant
                n == self.screens.len(),
                0 <= s <= n,
                cur as int == old(self).spec_active_wix(),
                *self == (WindowManager { screens: self.screens, ..*old(self) }),
                forall|j: int|
                    0 <= j < s ==> #[trigger] self.screens[j] == (Screen {
                        wix: if old(self).screens[j].wix == ix {
                            cur
                        } else {
                            old(self).screens[j].wix
                        },
                        ..old(self).screens[j]
                    }),
                forall|j: int| s <= j < n ==> #[trigger] self.screens[j] == old(self).screens[j],
            decreases n - s,
        {
            let scr = self.screens[s];
            if scr.wix == ix {
                let slot = &mut self.screens[s];
                *slot = Screen { wix: cur, ..scr };
            }
            s = s + 1;
        }
        let a = self.active_screen;
        let sa = self.screens[a];
        let slot = &mut self.screens[a];
        *slot = Screen { wix: ix, ..sa };
        self.previous_workspace = cur;
        proof {
            assert forall|s1: int, t1: int|
                0 <= s1 < self.screens.len() && 0 <= t1 < self.screens.len() && s1 != t1 implies (
            #[trigger] self.screens[s1]).wix != (#[trigger] self.screens[t1]).wix by {
                assert(old(self).screens[s1].wix != old(self).screens[t1].wix);
            }
        }
        Ok(())
    }

    /// A hot-plugged screen: it is given the lowest-numbered workspace not
    /// shown anywhere, keeping every workspace on at most one screen. When
    /// every workspace is already visible the new screen is left unmanaged
    /// (the policy this engine adopts, so that the one-workspace-per-screen
    /// invariant is never broken) and `false` comes back.
    pub fn add_screen(&mut self, rect: Rect) -> (added: bool)
        requires
            old(self).wf(),
            rect.wf(),
        ensures
            final(self).wf(),
            !added ==> *final(self) == *old(self) && (forall|w: int|
                0 <= w < old(self).workspaces.len() ==> #[trigger] old(
                    self,
                ).spec_workspace_visible(w)),
            added ==> ({
                let wix = final(self).screens[old(self).screens.len() as int].wix;
                &&& *final(self) == (WindowManager { screens: final(self).screens, ..*old(self) })
                &&& final(self).screens@ == old(self).screens@.push(Screen { rect, wix })
                &&& wix < old(self).workspaces.len()
                &&& forall|s: int|
                    0 <= s < old(self).screens.len() ==> (#[trigger] old(self).screens[s]).wix
                        != wix
            }),
    {
        let nw = self.workspaces.len();
        let mut w: usize = 0;
        while w < nw
            invariant
                self == old(self),
                old(self).wf(),
                rect.wf(),
                nw == self.workspaces.len(),
                0 <= w <= nw,
                forall|w2: int| 0 <= w2 < w ==> #[trigger] self.spec_workspace_visible(w2),
            decreases nw - w,
        {
            match self.screen_showing(w) {
                Option::None => {
                    self.screens.push(Screen { rect, wix: w });
                    return true;
                }
                Option::Some(_) => {}
            }
            w = w + 1;
        }
        false
    }

    /// A screen was unplugged: it leaves the list, and the workspace it was
    /// showing replaces whatever the first remaining screen shows — the
    /// displaced workspace becomes hidden with its clients and layout state
    /// unchanged. The active screen follows the removal by position.
    pub fn remove_screen(&mut self, s_ix: usize) -> (r: Result<(), WmError>)
        requires
            old(self).wf(),
        ensures
            final(self).wf(),
            s_ix >= old(self).screens.len() || old(self).screens.len() < 2 ==> r == Err::<
                (),
                WmError,
            >(WmError::StaleReference) && *final(self) == *old(self),
            s_ix < old(self).screens.len() && old(self).screens.len() >= 2 ==> ({
                let rem = old(self).screens@.remove(s_ix as int);
                &&& r == Ok::<(), WmError>(())
                &&& *final(self) == (WindowManager {
                    screens: final(self).screens,
                    active_screen: final(self).active_screen,
                    ..*old(self)
                })
                &&& final(self).screens.len() == old(self).screens.len() - 1
                &&& final(self).screens[0] == (Screen {
                    wix: old(self).screens[s_ix as int].wix,
                    ..rem[0]
                })
                &&& forall|s: int|
                    1 <= s < rem.len() ==> #[trigger] final(self).screens[s] == rem[s]
                &&& final(self).active_screen as int == (if old(self).active_screen == s_ix {
                    0int
                } else if old(self).active_screen > s_ix {
                    old(self).active_screen - 1
                } else {
                    old(self).active_screen as int
                })
            }),
    {
        if s_ix >= self.screens.len() || self.screens.len() < 2 {
            return Err(WmError::StaleReference);
        }
        let w = self.screens[s_ix].wix;
        self.screens.remove(s_ix);
        if self.active_screen == s_ix {
            self.active_screen = 0;
        } else if self.active_screen > s_ix {
            self.active_screen = self.active_screen - 1;
        }
        let s0 = self.screens[0];
        let slot = &mut self.screens[0];
        *slot = Screen { wix: w, ..s0 };
        proof {
            let a = *old(self);
            let b = *self;
            let rem = a.screens@.remove(s_ix as int);
            assert(forall|s: int|
                0 <= s < rem.len() ==> rem[s] == a.screens@[
                    if s < s_ix as int { s } else { s + 1 }
                ]);
            assert forall|s1: int, t1: int|
                0 <= s1 < b.screens.len() && 0 <= t1 < b.screens.len() && s1 != t1 implies (
            #[trigger] b.screens[s1]).wix != (#[trigger] b.screens[t1]).wix by {
                let m1 = if s1 == 0 { s_ix as int } else if s1 < s_ix as int { s1 } else { s1 + 1 };
                let m2 = if t1 == 0 { s_ix as int } else if t1 < s_ix as int { t1 } else { t1 + 1 };
                assert(b.screens[s1].wix == a.screens[m1].wix);
                assert(b.screens[t1].wix == a.screens[m2].wix);
                assert(a.screens[m1].wix != a.screens[m2].wix);
            }
        }
        Ok(())
    }

    /// Record a screen's new physical geometry.
    pub fn set_screen_rect(&mut self, s_ix: usize, rect: Rect) -> (r: Result<(), WmError>)
        requires
            old(self).wf(),
            rect.wf(),
        ensures
            final(self).wf(),
            s_ix >= old(self).screens.len() ==> r == Err::<(), WmError>(WmError::StaleReference)
                && *final(self) == *old(self),
            s_ix < old(self).screens.len() ==> ({
                &&& r == Ok::<(), WmError>(())
                &&& *final(self) == (WindowManager { screens: final(self).screens, ..*old(self) })
                &&& final(self).screens@ == old(self).screens@.update(
                    s_ix as int,
                    Screen { rect, ..old(self).screens[s_ix as int] },
                )
            }),
    {
        if s_ix >= self.screens.len() {
            return Err(WmError::StaleReference);
        }
        let s0 = self.screens[s_ix];
        let slot = &mut self.screens[s_ix];
        *slot = Screen { rect, ..s0 };
        Ok(())
    }

    /// Reconcile with a hot-plug notification listing the screens now
    /// attached: surplus screens are removed from the end (each one's
    /// workspace reassigned as `remove_screen` does), surviving screens take
    /// the new rectangles in order, and extra rectangles become new screens
    /// as long as an unshown workspace is left. An empty list is ignored (a
    /// display always keeps one screen). Returns whether a re-render is due.
    pub fn handle_screen_change(&mut self, rects: &Vec<Rect>) -> (changed: bool)
        requires
            old(self).wf(),
            forall|i: int| 0 <= i < rects.len() ==> (#[trigger] rects[i]).wf(),
        ensures
            final(self).wf(),
            changed == (rects.len() >= 1),
            !changed ==> *final(self) == *old(self),
            changed ==> ({
                &&& *final(self) == (WindowManager {
                    screens: final(self).screens,
                    active_screen: final(self).active_screen,
                    ..*old(self)
                })
                &&& 1 <= final(self).screens.len() <= rects.len()
                &&& forall|s: int|
                    0 <= s < final(self).screens.len() ==> (#[trigger] final(self).screens[s]).rect
                        == rects[s]
            }),
    {
        if rects.len() == 0 {
            return false;
        }
        while self.screens.len() > rects.len()
            invariant
                self.wf(),
                1 <= rects.len(),
                *self == (WindowManager {
                    screens: self.screens,
                    active_screen: self.active_screen,
                    ..*old(self)
                }),
            decreases self.screens.len(),
        {
            let last = self.screens.len() - 1;
            let r = self.remove_screen(last);
            proof {
                assert(r is Ok);
            }
        }
        let ns = self.screens.len();
        let mut s: usize = 0;
        while s < ns
            invariant
                self.wf(),
                ns == self.screens.len() <= rects.len(),
                0 <= s <= ns,
                forall|i: int| 0 <= i < rects.len() ==> (#[trigger] rects[i]).wf(),
                *self == (WindowManager {
                    screens: self.screens,
                    active_screen: self.active_screen,
                    ..*old(self)
                }),
                forall|j: int|
                    0 <= j < s ==> (#[trigger] self.screens[j]).rect == rects[j],
            decreases ns - s,
        {
            let r = self.set_screen_rect(s, rects[s]);
            proof {
                assert(r is Ok);
            }
            s = s + 1;
        }
        let mut t = self.screens.len();
        while t < rects.len()
            invariant
                self.wf(),
                t == self.screens.len(),
                1 <= t <= rects.len(),
                forall|i: int| 0 <= i < rects.len() ==> (#[trigger] rects[i]).wf(),
                *self == (WindowManager {
                    screens: self.screens,
                    active_screen: self.active_screen,
                    ..*old(self)
                }),
                forall|j: int|
                    0 <= j < t ==> (#[trigger] self.screens[j]).rect == rects[j],
            decreases rects.len() - t,
        {
            let added = self.add_screen(rects[t]);
            if !added {
                return true;
            }
            t = t + 1;
        }
        true
    }

    /// Move the focused client into workspace `ix`, removing it from its
    /// current workspace; focus there falls back to the top of the order, and
    /// the client is inserted after `ix`'s own focused client. Moving to the
    /// workspace it is already on, or with no client focused, is a no-op. An
    /// out-of-range index is rejected as a configuration error.
    pub fn client_to_workspace(&mut self, ix: usize) -> (r: Result<(), WmError>)
        requires
            old(self).wf(),
        ensures
            final(self).wf(),
            ix >= old(self).workspaces.len() ==> r == Err::<(), WmError>(WmError::Configuration)
                && *final(self) == *old(self),
            ix < old(self).workspaces.len() ==> r == Ok::<(), WmError>(()),
            ix < old(self).workspaces.len() && (old(self).spec_focused_client() is None
                || ix == old(self).spec_active_wix()) ==> *final(self) == *old(self),
            ix < old(self).workspaces.len() && old(self).spec_focused_client() is Some && ix != old(
                self,
            ).spec_active_wix() ==> ({
                let id = old(self).spec_focused_client()->Some_0;
                let cur = old(self).spec_active_wix();
                let w0 = old(self).workspaces[cur];
                let w1 = final(self).workspaces[cur];
                let d0 = old(self).workspaces[ix as int];
                let d1 = final(self).workspaces[ix as int];
                let pos = if d0.clients.len() == 0 { 0int } else { d0.focused + 1 };
                &&& *final(self) == (WindowManager {
                    registry: final(self).registry,
                    workspaces: final(self).workspaces,
                    ..*old(self)
                })
                &&& final(self).registry@ == old(self).registry@.insert(
                    id,
                    Client { workspace: ix, ..old(self).registry@[id] },
                )
                &&& w1 == (Workspace { clients: w1.clients, focused: 0, ..w0 })
                &&& w1.clients@ == w0.clients@.remove(w0.focused as int)
                &&& d1 == (Workspace { clients: d1.clients, ..d0 })
                &&& d1.clients@ == d0.clients@.insert(pos, id)
                &&& forall|w: int|
                    0 <= w < old(self).workspaces.len() && w != cur && w != ix
                        ==> #[trigger] final(self).workspaces[w] == old(self).workspaces[w]
            }),
    {
        if ix >= self.workspaces.len() {
            return Err(WmError::Configuration);
        }
        let cur = self.active_workspace_index();
        if ix == cur {
            return Ok(());
        }
        let wref = &self.workspaces[cur];
        let id = match wref.focused_client() {
            Option::None => {
                return Ok(());
            }
            Option::Some(id) => id,
        };
        proof {
            let a = *old(self);
            let curi = cur as int;
            let w0 = a.workspaces[curi];
            assert(w0.clients@.contains(id));
            assert(a.registry@.contains_key(a.workspaces[curi].clients[w0.focused as int]));
            assert(a.registry@[id].workspace == cur);
            if a.workspaces[ix as int].clients@.contains(id) {
                let k = choose|k: int|
                    0 <= k < a.workspaces[ix as int].clients.len() && a.workspaces[
                        ix as int
                    ].clients[k] == id;
                assert(a.registry@[a.workspaces[ix as int].clients[k]].workspace == ix);
            }
        }
        let slot = &mut self.workspaces[cur];
        let popt = slot.remove_client(id);
        proof {
            let w0 = old(self).workspaces[cur as int];
            let p = popt->Some_0 as int;
            assert(w0.clients@[p] == id && w0.clients@[w0.focused as int] == id);
            assert(p == w0.focused as int);
        }
        self.registry.set_workspace(id, ix);
        let slot2 = &mut self.workspaces[ix];
        let pos = slot2.insert_after_focus(id);
        proof {
            let a = *old(self);
            let b = *self;
            let curi = cur as int;
            let ixi = ix as int;
            let w0 = a.workspaces[curi];
            let w1 = b.workspaces[curi];
            let d0 = a.workspaces[ixi];
            let d1 = b.workspaces[ixi];
            assert forall|id2: u32| #[trigger] b.registry@.contains_key(id2) implies b.registry@[
                id2
            ].workspace < b.workspaces.len() && b.workspaces[
                b.registry@[id2].workspace as int
            ].clients@.contains(id2) by {
                if id2 == id {
                    assert(d1.clients@.contains(id));
                } else {
                    assert(a.registry@.contains_key(id2));
                    let ww = a.registry@[id2].workspace as int;
                    assert(a.workspaces[ww].clients@.contains(id2));
                    if ww == curi {
                        assert(w1.clients@.contains(id2));
                    } else if ww == ixi {
                        assert(d1.clients@.contains(id2));
                    }
                }
            }
            assert forall|w: int, i: int|
                0 <= w < b.workspaces.len() && 0 <= i < b.workspaces[w].clients.len() implies b.registry@.contains_key(
                #[trigger] b.workspaces[w].clients[i],
            ) && b.registry@[b.workspaces[w].clients[i]].workspace == w by {
                let id2 = b.workspaces[w].clients[i];
                if w == ixi {
                    assert(d1.clients@.contains(id2));
                    if id2 != id {
                        assert(d0.clients@.contains(id2));
                        let k = choose|k: int| 0 <= k < d0.clients.len() && d0.clients[k] == id2;
                        assert(a.registry@.contains_key(a.workspaces[ixi].clients[k]));
                    }
                } else if w == curi {
                    assert(w1.clients@.contains(id2));
                    assert(id2 != id);
                    assert(w0.clients@.contains(id2));
                    let k = choose|k: int| 0 <= k < w0.clients.len() && w0.clients[k] == id2;
                    assert(a.registry@.contains_key(a.workspaces[curi].clients[k]));
                } else {
                    assert(b.workspaces[w] == a.workspaces[w]);
                    assert(a.registry@.contains_key(a.workspaces[w].clients[i]));
                    let id3 = a.workspaces[w].clients[i];
                    assert(a.registry@[id3].workspace == w);
                    assert(id3 != id);
                }
            }
        }
        Ok(())
    }

    /// A client's own geometry request: honored (recorded) only for floating
    /// clients; tiled clients' geometry belongs to the layout engine, so the
    /// request changes nothing. Unknown identifiers are stale and ignored.
    pub fn handle_configure(&mut self, id: u32, rect: Rect) -> (honored: bool)
        requires
            old(self).wf(),
        ensures
            final(self).wf(),
            honored == (old(self).registry@.contains_key(id) && old(self).registry@[id].floating),
            !honored ==> *final(self) == *old(self),
            honored ==> *final(self) == (WindowManager {
                registry: final(self).registry,
                ..*old(self)
            }) && final(self).registry@ == old(self).registry@.insert(
                id,
                Client { geometry: rect, ..old(self).registry@[id] },
            ),
    {
        let c = match self.registry.get(id) {
            Option::None => {
                return false;
            }
            Option::Some(c) => c,
        };
        if !c.floating {
            return false;
        }
        self.registry.set_geometry(id, rect);
        proof {
            let a = *old(self);
            let b = *self;
            assert forall|id2: u32| #[trigger] b.registry@.contains_key(id2) implies b.registry@[
                id2
            ].workspace < b.workspaces.len() && b.workspaces[
                b.registry@[id2].workspace as int
            ].clients@.contains(id2) by {
                assert(a.registry@.contains_key(id2));
            }
            assert forall|w: int, i: int|
                0 <= w < b.workspaces.len() && 0 <= i < b.workspaces[w].clients.len() implies b.registry@.contains_key(
                #[trigger] b.workspaces[w].clients[i],
            ) && b.registry@[b.workspaces[w].clients[i]].workspace == w by {
                assert(a.registry@.contains_key(a.workspaces[w].clients[i]));
            }
        }
        true
    }

    /// The first screen currently showing workspace `w`, if any.
    pub fn screen_showing(&self, w: usize) -> (r: Option<usize>)
        requires
            self.wf(),
        ensures
            r matches Some(s) ==> s < self.screens.len() && self.screens[s as int].wix == w,
            r is None ==> forall|s: int|
                0 <= s < self.screens.len() ==> (#[trigger] self.screens[s]).wix != w,
    {
        let n = self.screens.len();
        let mut s: usize = 0;
        while s < n
            invariant
                n == self.screens.len(),
                0 <= s <= n,
                forall|j: int| 0 <= j < s ==> (#[trigger] self.screens[j]).wix != w,
            decreases n - s,
        {
            if self.screens[s].wix == w {
                return Some(s);
            }
            s = s + 1;
        }
        None
    }

    /// A focus notification from the display server: if the window is managed
    /// and its workspace is visible on some screen, that screen becomes the
    /// active one and the workspace's focus moves to the window, leaving
    /// every order untouched. Otherwise (stale or hidden) nothing changes.
    pub fn handle_focus(&mut self, id: u32) -> (followed: bool)
        requires
            old(self).wf(),
        ensures
            final(self).wf(),
            followed == (old(self).registry@.contains_key(id) && old(self).spec_workspace_visible(
                old(self).registry@[id].workspace as int,
            )),
            !followed ==> *final(self) == *old(self),
            followed ==> ({
                let w = old(self).registry@[id].workspace as int;
                let w0 = old(self).workspaces[w];
                let w1 = final(self).workspaces[w];
                &&& old(self).registry@.contains_key(id)
                &&& *final(self) == (WindowManager {
                    workspaces: final(self).workspaces,
                    active_screen: final(self).active_screen,
                    ..*old(self)
                })
                &&& final(self).screens[final(self).active_screen as int].wix as int == w
                &&& final(self).workspaces@ == old(self).workspaces@.update(w, w1)
                &&& w1 == (Workspace { focused: w1.focused, ..w0 })
                &&& final(self).spec_focused_client() == Some(id)
            }),
    {
        let c = match self.registry.get(id) {
            Option::None => {
                return false;
            }
            Option::Some(c) => c,
        };
        let s = match self.screen_showing(c.workspace) {
            Option::None => {
                return false;
            }
            Option::Some(s) => s,
        };
        self.active_screen = s;
        let slot = &mut self.workspaces[c.workspace];
        let found = slot.focus_on(id);
        proof {
            assert(found);
            lemma_clients_wf_after_workspace_update(*old(self), *self, c.workspace as int);
        }
        true
    }

    /// Register a newly mapped window: record it in the registry, insert it
    /// into the active workspace just after the focused client, and — the
    /// policy this engine adopts — give it the focus. Mapping an identifier
    /// that is already managed is a stale notification and changes nothing.
    pub fn handle_map(&mut self, id: u32, floating: bool, geometry: Rect, border_width: u32) -> (mapped: bool)
        requires
            old(self).wf(),
        ensures
            final(self).wf(),
            mapped == !old(self).registry@.contains_key(id),
            !mapped ==> *final(self) == *old(self),
            mapped ==> ({
                let cur = old(self).spec_active_wix();
                let w0 = old(self).workspaces[cur];
                let w1 = final(self).workspaces[cur];
                let pos = if w0.clients.len() == 0 { 0int } else { w0.focused + 1 };
                &&& *final(self) == (WindowManager {
                    registry: final(self).registry,
                    workspaces: final(self).workspaces,
                    ..*old(self)
                })
                &&& final(self).registry@ == old(self).registry@.insert(
                    id,
                    Client { geometry, floating, workspace: cur as usize, border_width },
                )
                &&& final(self).workspaces@ == old(self).workspaces@.update(cur, w1)
                &&& w1 == (Workspace { clients: w1.clients, focused: w1.focused, ..w0 })
                &&& w1.clients@ == w0.clients@.insert(pos, id)
                &&& w1.focused as int == pos
                &&& final(self).spec_focused_client() == Some(id)
            }),
    {
        if self.registry.contains(id) {
            return false;
        }
        let cur = self.active_workspace_index();
        proof {
            if self.workspaces[cur as int].clients@.contains(id) {
                let i = choose|i: int|
                    0 <= i < self.workspaces[cur as int].clients.len()
                        && self.workspaces[cur as int].clients[i] == id;
                assert(self.registry@.contains_key(self.workspaces[cur as int].clients[i]));
            }
        }
        let slot = &mut self.workspaces[cur];
        let pos = slot.insert_after_focus(id);
        let slot2 = &mut self.workspaces[cur];
        slot2.set_focus_position(pos);
        self.registry.insert(
            id,
            Client { geometry, floating, workspace: cur, border_width },
        );
        proof {
            let a = *old(self);
            let b = *self;
            let curi = cur as int;
            let w0 = a.workspaces[curi];
            let w1 = b.workspaces[curi];
            assert(b.workspaces@ =~= a.workspaces@.update(curi, w1));
            assert forall|id2: u32| #[trigger] b.registry@.contains_key(id2) implies b.registry@[
                id2
            ].workspace < b.workspaces.len() && b.workspaces[
                b.registry@[id2].workspace as int
            ].clients@.contains(id2) by {
                if id2 == id {
                    assert(w1.clients@.contains(id));
                } else {
                    assert(a.registry@.contains_key(id2));
                    let ww = a.registry@[id2].workspace as int;
                    assert(a.workspaces[ww].clients@.contains(id2));
                    if ww == curi {
                        assert(w1.clients@.contains(id2));
                    }
                }
            }
            assert forall|w: int, i: int|
                0 <= w < b.workspaces.len() && 0 <= i < b.workspaces[w].clients.len() implies b.registry@.contains_key(
                #[trigger] b.workspaces[w].clients[i],
            ) && b.registry@[b.workspaces[w].clients[i]].workspace == w by {
                let id2 = b.workspaces[w].clients[i];
                if w == curi {
                    assert(w1.clients@.contains(id2));
                    if id2 != id {
                        assert(w0.clients@.contains(id2));
                        let k = choose|k: int|
                            0 <= k < w0.clients.len() && w0.clients[k] == id2;
                        assert(a.registry@.contains_key(a.workspaces[curi].clients[k]));
                    }
                } else {
                    assert(a.registry@.contains_key(a.workspaces[w].clients[i]));
                    let id3 = a.workspaces[w].clients[i];
                    assert(id3 != id);
                }
            }
        }
        true
    }

    /// Unregister a window that has been unmapped or destroyed: drop it from
    /// the registry and from its workspace's order. If it was that
    /// workspace's focus, focus moves to the top of the remaining order.
    /// Removing an identifier that is already gone changes nothing — the
    /// unmap-after-removal race is expected.
    pub fn handle_unmap(&mut self, id: u32) -> (removed: bool)
        requires
            old(self).wf(),
        ensures
            final(self).wf(),
            removed == old(self).registry@.contains_key(id),
            !removed ==> *final(self) == *old(self),
            removed ==> ({
                let w = old(self).registry@[id].workspace as int;
                let w0 = old(self).workspaces[w];
                let w1 = final(self).workspaces[w];
                let p = w0.clients@.index_of(id);
                &&& *final(self) == (WindowManager {
                    registry: final(self).registry,
                    workspaces: final(self).workspaces,
                    ..*old(self)
                })
                &&& final(self).registry@ == old(self).registry@.remove(id)
                &&& final(self).workspaces@ == old(self).workspaces@.update(w, w1)
                &&& w1 == (Workspace { clients: w1.clients, focused: w1.focused, ..w0 })
                &&& 0 <= p < w0.clients.len() && w0.clients[p] == id
                &&& w1.clients@ == w0.clients@.remove(p)
                &&& !w1.clients@.contains(id)
                &&& (w0.focused == p ==> w1.focused == 0)
                &&& (w0.focused != p && w0.clients.len() > 1 ==> w1.spec_focused_client()
                    == w0.spec_focused_client())
            }),
    {
        let c = match self.registry.get(id) {
            Option::None => {
                return false;
            }
            Option::Some(c) => c,
        };
        let w = c.workspace;
        let slot = &mut self.workspaces[w];
        let popt = slot.remove_client(id);
        let ghost p = popt->Some_0 as int;
        self.registry.remove(id);
        proof {
            let a = *old(self);
            let b = *self;
            let wi = w as int;
            let w0 = a.workspaces[wi];
            let w1 = b.workspaces[wi];
            assert(a.workspaces[wi].clients@.contains(id));
            assert(popt is Some);
            let idx = w0.clients@.index_of(id);
            assert(w0.clients@[p] == id);
            assert(exists|i: int| 0 <= i < w0.clients@.len() && w0.clients@[i] == id);
            assert(0 <= idx < w0.clients@.len() && w0.clients@[idx] == id);
            assert(idx == p);
            assert forall|id2: u32| #[trigger] b.registry@.contains_key(id2) implies b.registry@[
                id2
            ].workspace < b.workspaces.len() && b.workspaces[
                b.registry@[id2].workspace as int
            ].clients@.contains(id2) by {
                assert(id2 != id);
                assert(a.registry@.contains_key(id2));
                let ww = a.registry@[id2].workspace as int;
                assert(a.workspaces[ww].clients@.contains(id2));
                if ww == wi {
                    assert(w1.clients@.contains(id2));
                }
            }
            assert forall|ww: int, i: int|
                0 <= ww < b.workspaces.len() && 0 <= i < b.workspaces[ww].clients.len() implies b.registry@.contains_key(
                #[trigger] b.workspaces[ww].clients[i],
            ) && b.registry@[b.workspaces[ww].clients[i]].workspace == ww by {
                let id2 = b.workspaces[ww].clients[i];
                if ww == wi {
                    assert(w1.clients@.contains(id2));
                    assert(id2 != id);
                    assert(w0.clients@.contains(id2));
                    let k = choose|k: int| 0 <= k < w0.clients.len() && w0.clients[k] == id2;
                    assert(a.registry@.contains_key(a.workspaces[wi].clients[k]));
                } else {
                    assert(a.registry@.contains_key(a.workspaces[ww].clients[i]));
                    assert(a.workspaces[ww].clients[i] != id);
                }
            }
        }
        true
    }

    /// Switch the active screen back to the workspace it showed before the
    /// most recent workspace change (a 2-slot history).
    pub fn toggle_workspace(&mut self) -> (r: Result<(), WmError>)
        requires
            old(self).wf(),
        ensures
            final(self).wf(),
            r == Ok::<(), WmError>(()),
            old(self).previous_workspace as int == old(self).spec_active_wix() ==> *final(self)
                == *old(self),
            old(self).previous_workspace as int != old(self).spec_active_wix() ==> ({
                let ix = old(self).previous_workspace;
                let a = old(self).active_screen as int;
                let cur = old(self).spec_active_wix();
                &&& *final(self) == (WindowManager {
                    screens: final(self).screens,
                    previous_workspace: final(self).previous_workspace,
                    ..*old(self)
                })
                &&& final(self).previous_workspace as int == cur
                &&& final(self).screens.len() == old(self).screens.len()
                &&& final(self).screens[a] == (Screen { wix: ix, ..old(self).screens[a] })
                &&& forall|s: int|
                    0 <= s < old(self).screens.len() && s != a ==> (#[trigger] final(self).screens[s]) == (Screen {
                        wix: if old(self).screens[s].wix == ix {
                            cur as usize
                        } else {
                            old(self).screens[s].wix
                        },
                        ..old(self).screens[s]
                    })
            }),
    {
        let prev = self.previous_workspace;
        self.focus_workspace(prev)
    }
}

/// When one workspace changes but keeps the same set of clients (its order or
/// focus may differ), the registry/workspace agreement carries over.
proof fn lemma_clients_wf_after_workspace_update(a: WindowManager, b: WindowManager, w: int)
    requires
        a.clients_wf(),
        b.registry@ == a.registry@,
        b.workspaces@.len() == a.workspaces@.len(),
        0 <= w < a.workspaces@.len(),
        b.workspaces@ == a.workspaces@.update(w, b.workspaces@[w]),
        forall|x: u32|
            #[trigger] b.workspaces[w].clients@.contains(x) == a.workspaces[
                w
            ].clients@.contains(x),
    ensures
        b.clients_wf(),
{
    assert forall|id: u32| #[trigger] b.registry@.contains_key(id) implies b.registry@[id].workspace
        < b.workspaces.len() && b.workspaces[
        b.registry@[id].workspace as int
    ].clients@.contains(id) by {
        let ww = a.registry@[id].workspace as int;
        assert(a.workspaces[ww].clients@.contains(id));
        if ww != w {
            assert(b.workspaces[ww] == a.workspaces[ww]);
        }
    }
    assert forall|ww: int, i: int|
        0 <= ww < b.workspaces.len() && 0 <= i < b.workspaces[ww].clients.len() implies b.registry@.contains_key(
        #[trigger] b.workspaces[ww].clients[i],
    ) && b.registry@[b.workspaces[ww].clients[i]].workspace == ww by {
        let id = b.workspaces[ww].clients[i];
        if ww == w {
            assert(b.workspaces[w].clients@.contains(id));
            assert(a.workspaces[w].clients@.contains(id));
            let k = choose|k: int|
                0 <= k < a.workspaces[w].clients.len() && a.workspaces[w].clients[k] == id;
            assert(a.registry@.contains_key(a.workspaces[w].clients[k]));
        } else {
            assert(b.workspaces[ww] == a.workspaces[ww]);
            assert(a.registry@.contains_key(a.workspaces[ww].clients[i]));
        }
    }
}

/// Every registered client identifier belongs to exactly one workspace, and
/// every workspace order holds only registered identifiers (no dangling
/// references) — for any state the operations of this module can reach.
pub proof fn lemma_client_in_exactly_one_workspace(m: WindowManager, id: u32)
    requires
        m.wf(),
        m.registry@.contains_key(id),
    ensures
        exists|w: int|
            0 <= w < m.workspaces.len() && (#[trigger] m.workspaces[w]).clients@.contains(id),
        forall|w1: int, w2: int|
            0 <= w1 < m.workspaces.len() && 0 <= w2 < m.workspaces.len() && (
            #[trigger] m.workspaces[w1]).clients@.contains(id) && (
            #[trigger] m.workspaces[w2]).clients@.contains(id) ==> w1 == w2,
{
    let w = m.registry@[id].workspace as int;
    assert(0 <= w < m.workspaces.len() && m.workspaces[w].clients@.contains(id));
    assert forall|w1: int, w2: int|
        0 <= w1 < m.workspaces.len() && 0 <= w2 < m.workspaces.len() && (
        #[trigger] m.workspaces[w1]).clients@.contains(id) && (
        #[trigger] m.workspaces[w2]).clients@.contains(id) implies w1 == w2 by {
        let i1 = choose|i: int|
            0 <= i < m.workspaces[w1].clients.len() && m.workspaces[w1].clients[i] == id;
        let i2 = choose|i: int|
            0 <= i < m.workspaces[w2].clients.len() && m.workspaces[w2].clients[i] == id;
        assert(m.registry@[m.workspaces[w1].clients[i1]].workspace == w1);
        assert(m.registry@[m.workspaces[w2].clients[i2]].workspace == w2);
    }
}

/// Every workspace is shown on at most one screen, and every screen shows
/// exactly one (real) workspace.
pub proof fn lemma_workspace_on_at_most_one_screen(m: WindowManager, s: int, t: int)
    requires
        m.wf(),
        0 <= s < m.screens.len(),
        0 <= t < m.screens.len(),
        s != t,
    ensures
        m.screens[s].wix != m.screens[t].wix,
        m.screens[s].wix < m.workspaces.len(),
{
}

} // verus!
