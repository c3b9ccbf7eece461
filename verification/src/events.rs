//! Display-server notifications in, display commands out: the reconciling
//! step between the model and the server, including the idempotent
//! "apply layout to every visible screen" pass.

use vstd::prelude::*;
use crate::clients::Client;
use crate::config::Config;
use crate::geometry::Rect;
use crate::layout::{apply_layout, layout_rect};
use crate::manager::WindowManager;

verus! {

/// A notification delivered by the display server.
pub enum Notification {
    /// A new window appeared; `class` is its window-class name.
    MapRequest { id: u32, class: String, geometry: Rect },
    /// A window disappeared.
    UnmapNotify { id: u32 },
    /// A window was destroyed.
    DestroyNotify { id: u32 },
    /// A window asked for new geometry of its own.
    ConfigureRequest { id: u32, geometry: Rect },
    /// The server moved input focus.
    FocusIn { id: u32 },
    /// The set of physical screens changed.
    ScreenChange { rects: Vec<Rect> },
}

/// A command for the surrounding program to send to the display server (or to
/// run): the engine never performs I/O itself.
#[derive(Clone, PartialEq, Eq, Debug)]
pub enum Effect {
    /// Move/resize a window.
    SetGeometry { id: u32, rect: Rect },
    /// Raise a window to the top of the stacking order.
    Raise { id: u32 },
    /// Give a window the input focus.
    SetFocus { id: u32 },
    /// Ask the window to close.
    KillRequest { id: u32 },
    /// Start an external program.
    Spawn { command: String },
    /// Leave the event loop and exit cleanly.
    Exit,
    /// Tell the hook layer a new client arrived.
    HookNewClient { id: u32 },
}

/// The clients of workspace `w` whose floating flag equals `want`, in
/// workspace order.
pub open spec fn spec_by_floating(m: WindowManager, w: int, want: bool) -> Seq<u32> {
    m.workspaces[w].clients@.filter(|id: u32| m.registry@[id].floating == want)
}

/// The tiled (non-floating) clients of workspace `w`, in workspace order.
pub open spec fn spec_tiled(m: WindowManager, w: int) -> Seq<u32> {
    spec_by_floating(m, w, false)
}

/// The floating clients of workspace `w`, in workspace order.
pub open spec fn spec_floats(m: WindowManager, w: int) -> Seq<u32> {
    spec_by_floating(m, w, true)
}

/// `r` shrunk by a border of `b` pixels on every side (as far as it fits).
pub open spec fn spec_inset(r: Rect, b: u32) -> Rect {
    Rect {
        x: r.x,
        y: r.y,
        w: if 2 * b <= r.w {
            (r.w - 2 * b) as u32
        } else {
            0
        },
        h: if 2 * b <= r.h {
            (r.h - 2 * b) as u32
        } else {
            0
        },
    }
}

/// The display commands screen `s` needs: one geometry per tiled client of
/// its workspace, exactly where the active layout puts it (inset by the
/// border), followed by one raise per floating client, which always stack
/// above the tiled ones.
pub open spec fn spec_screen_effects(m: WindowManager, s: int, border: u32) -> Seq<Effect> {
    let w = m.screens[s].wix as int;
    let ws = m.workspaces[w];
    let tiled = spec_tiled(m, w);
    let floats = spec_floats(m, w);
    Seq::new(
        tiled.len(),
        |i: int|
            Effect::SetGeometry {
                id: tiled[i],
                rect: spec_inset(
                    layout_rect(
                        ws.layouts[ws.active_layout as int],
                        m.screens[s].rect,
                        ws.ratio,
                        tiled.len() as int,
                        ws.max_main as int,
                        i,
                    ),
                    border,
                ),
            },
    ) + Seq::new(floats.len(), |i: int| Effect::Raise { id: floats[i] })
}

/// The commands for the first `s` screens, in screen order.
pub open spec fn spec_screens_prefix(m: WindowManager, s: int, border: u32) -> Seq<Effect>
    decreases s,
{
    if s <= 0 {
        Seq::empty()
    } else {
        spec_screens_prefix(m, s - 1, border) + spec_screen_effects(m, s - 1, border)
    }
}

/// Everything one full layout pass sends: geometry and stacking for every
/// screen, then the input focus (when any client is focused).
pub open spec fn spec_render(m: WindowManager, border: u32) -> Seq<Effect> {
    spec_screens_prefix(m, m.screens.len() as int, border) + (
    match m.spec_focused_client() {
        Some(id) => seq![Effect::SetFocus { id }],
        None => Seq::empty(),
    })
}

/// The tiled clients of workspace `w`, in order.
fn tiled_clients(m: &WindowManager, w: usize) -> (t: Vec<u32>)
    requires
        m.wf(),
        w < m.workspaces.len(),
    ensures
        t@ == spec_tiled(*m, w as int),
{
    collect_by_floating(m, w, false)
}

/// The floating clients of workspace `w`, in order.
fn floating_clients(m: &WindowManager, w: usize) -> (t: Vec<u32>)
    requires
        m.wf(),
        w < m.workspaces.len(),
    ensures
        t@ == spec_floats(*m, w as int),
{
    collect_by_floating(m, w, true)
}

/// The clients of workspace `w` whose floating flag equals `want`, in order.
fn collect_by_floating(m: &WindowManager, w: usize, want: bool) -> (t: Vec<u32>)
    requires
        m.wf(),
        w < m.workspaces.len(),
    ensures
        t@ == m.workspaces[w as int].clients@.filter(
            |id: u32| m.registry@[id].floating == want,
        ),
        want ==> t@ == spec_floats(*m, w as int),
        !want ==> t@ == spec_tiled(*m, w as int),
{
    let ghost pred = |id: u32| m.registry@[id].floating == want;
    let ws = &m.workspaces[w];
    let n = ws.clients.len();
    let mut t: Vec<u32> = Vec::new();
    let mut i: usize = 0;
    while i < n
        invariant
            m.wf(),
            w < m.workspaces.len(),
            ws == &m.workspaces[w as int],
            n == ws.clients.len(),
            0 <= i <= n,
            pred == (|id: u32| m.registry@[id].floating == want),
            t@ == ws.clients@.subrange(0, i as int).filter(pred),
        decreases n - i,
    {
        let id = ws.clients[i];
        proof {
            assert(m.registry@.contains_key(m.workspaces[w as int].clients[i as int]));
        }
        let c = m.registry.get(id);
        let floating = match c {
            Option::Some(c) => c.floating,
            Option::None => false,
        };
        proof {
            reveal(Seq::filter);
            let pre = ws.clients@.subrange(0, i + 1);
            assert(pre.drop_last() =~= ws.clients@.subrange(0, i as int));
            assert(pre.last() == id);
        }
        if floating == want {
            t.push(id);
        }
        i = i + 1;
    }
    proof {
        reveal(Seq::filter);
        assert(ws.clients@.subrange(0, n as int) =~= ws.clients@);
        if want {
            assert(m.workspaces[w as int].clients@.filter(pred) =~= spec_floats(*m, w as int));
        } else {
            assert(m.workspaces[w as int].clients@.filter(pred) =~= spec_tiled(*m, w as int));
        }
    }
    t
}

/// Shrink a rectangle by the configured border on every side.
fn inset(r: Rect, b: u32) -> (out: Rect)
    requires
        r.wf(),
        b <= 0x7FFFFFFF,
    ensures
        out == spec_inset(r, b),
        out.wf(),
{
    let d: u32 = 2 * b;
    Rect {
        x: r.x,
        y: r.y,
        w: if d <= r.w {
            r.w - d
        } else {
            0
        },
        h: if d <= r.h {
            r.h - d
        } else {
            0
        },
    }
}

/// Reconcile one display-server notification with the model and produce the
/// display commands it calls for. Exactly one notification is processed at a
/// time; stale identifiers are absorbed as no-ops with no commands.
pub fn handle_event(m: &mut WindowManager, config: &Config, note: Notification) -> (effects: Vec<
    Effect,
>)
    requires
        old(m).wf(),
        config.valid(),
        config.border_px <= 0x7FFFFFFF,
    ensures
        final(m).wf(),
        note matches Notification::MapRequest { id, class, geometry } ==> ({
            let floating = exists|i: int|
                0 <= i < config.floating_classes.len() && (#[trigger] config.floating_classes[i])@
                    == class@;
            &&& (old(m).registry@.contains_key(id) ==> *final(m) == *old(m) && effects@
                == Seq::<Effect>::empty())
            &&& (!old(m).registry@.contains_key(id) ==> {
                &&& final(m).registry@ == old(m).registry@.insert(
                    id,
                    Client {
                        geometry,
                        floating,
                        workspace: old(m).spec_active_wix() as usize,
                        border_width: config.border_px,
                    },
                )
                &&& final(m).spec_focused_client() == Some(id)
                &&& effects@ == seq![Effect::HookNewClient { id }] + spec_render(
                    *final(m),
                    config.border_px,
                )
            })
        }),
        note matches Notification::UnmapNotify { id } ==> ({
            &&& (!old(m).registry@.contains_key(id) ==> *final(m) == *old(m) && effects@
                == Seq::<Effect>::empty())
            &&& (old(m).registry@.contains_key(id) ==> final(m).registry@ == old(
                m,
            ).registry@.remove(id) && effects@ == spec_render(*final(m), config.border_px))
        }),
        note matches Notification::DestroyNotify { id } ==> ({
            &&& (!old(m).registry@.contains_key(id) ==> *final(m) == *old(m) && effects@
                == Seq::<Effect>::empty())
            &&& (old(m).registry@.contains_key(id) ==> final(m).registry@ == old(
                m,
            ).registry@.remove(id) && effects@ == spec_render(*final(m), config.border_px))
        }),
        note matches Notification::ConfigureRequest { id, geometry } ==> ({
            let known = old(m).registry@.contains_key(id);
            &&& (known && old(m).registry@[id].floating ==> final(m).registry@ == old(
                m,
            ).registry@.insert(id, Client { geometry, ..old(m).registry@[id] }) && effects@
                == seq![Effect::SetGeometry { id, rect: geometry }])
            &&& (known && !old(m).registry@[id].floating ==> *final(m) == *old(m) && effects@
                == spec_render(*old(m), config.border_px))
            &&& (!known ==> *final(m) == *old(m) && effects@ == Seq::<Effect>::empty())
        }),
        note matches Notification::FocusIn { id } ==> ({
            let followed = old(m).registry@.contains_key(id) && old(m).spec_workspace_visible(
                old(m).registry@[id].workspace as int,
            );
            &&& (followed ==> final(m).spec_focused_client() == Some(id) && effects@
                == seq![Effect::SetFocus { id }])
            &&& (!followed ==> *final(m) == *old(m) && effects@ == Seq::<Effect>::empty())
        }),
        note matches Notification::ScreenChange { rects } ==> ({
            &&& (rects.len() == 0 ==> *final(m) == *old(m) && effects@ == Seq::<Effect>::empty())
            &&& ((exists|i: int| 0 <= i < rects.len() && !(#[trigger] rects[i]).wf()) ==> *final(m)
                == *old(m) && effects@ == Seq::<Effect>::empty())
            &&& ((rects.len() >= 1 && (forall|i: int|
                0 <= i < rects.len() ==> (#[trigger] rects[i]).wf())) ==> (forall|s: int|
                0 <= s < final(m).screens.len() ==> (#[trigger] final(m).screens[s]).rect
                    == rects[s]) && effects@ == spec_render(*final(m), config.border_px))
        }),
{
    match note {
        Notification::MapRequest { id, class, geometry } => {
            let floating = config.is_floating_class(&class);
            let mapped = m.handle_map(id, floating, geometry, config.border_px);
            if mapped {
                let mut effects: Vec<Effect> = Vec::new();
                effects.push(Effect::HookNewClient { id });
                let mut rendered = render(m, config.border_px);
                effects.append(&mut rendered);
                proof {
                    assert(effects@ =~= seq![Effect::HookNewClient { id }] + spec_render(
                        *m,
                        config.border_px,
                    ));
                }
                effects
            } else {
                Vec::new()
            }
        }
        Notification::UnmapNotify { id } => {
            if m.handle_unmap(id) {
                render(m, config.border_px)
            } else {
                Vec::new()
            }
        }
        Notification::DestroyNotify { id } => {
            if m.handle_unmap(id) {
                render(m, config.border_px)
            } else {
                Vec::new()
            }
        }
        Notification::ConfigureRequest { id, geometry } => {
            if m.handle_configure(id, geometry) {
                let mut effects: Vec<Effect> = Vec::new();
                effects.push(Effect::SetGeometry { id, rect: geometry });
                proof {
                    assert(effects@ =~= seq![Effect::SetGeometry { id, rect: geometry }]);
                }
                effects
            } else if m.registry.contains(id) {
                render(m, config.border_px)
            } else {
                Vec::new()
            }
        }
        Notification::FocusIn { id } => {
            if m.handle_focus(id) {
                let mut effects: Vec<Effect> = Vec::new();
                effects.push(Effect::SetFocus { id });
                proof {
                    assert(effects@ =~= seq![Effect::SetFocus { id }]);
                }
                effects
            } else {
                Vec::new()
            }
        }
        Notification::ScreenChange { rects } => {
            let mut ok = true;
            let mut i: usize = 0;
            while i < rects.len()
                invariant
                    0 <= i <= rects.len(),
                    ok <==> (forall|j: int| 0 <= j < i ==> (#[trigger] rects[j]).wf()),
                decreases rects.len() - i,
            {
                let r = rects[i];
                if !(r.x as u64 + r.w as u64 <= u32::MAX as u64 && r.y as u64 + r.h as u64
                    <= u32::MAX as u64) {
                    ok = false;
                }
                i = i + 1;
            }
            if !ok || rects.len() == 0 {
                return Vec::new();
            }
            if m.handle_screen_change(&rects) {
                render(m, config.border_px)
            } else {
                Vec::new()
            }
        }
    }
}

/// One idempotent layout pass: compute and emit geometry for every tiled
/// client of every screen, raise every floating client above them, and
/// re-assert the focus. Pure: the model is read, never changed.
pub fn render(m: &WindowManager, border: u32) -> (effects: Vec<Effect>)
    requires
        m.wf(),
        border <= 0x7FFFFFFF,
    ensures
        effects@ == spec_render(*m, border),
{
    let mut effects: Vec<Effect> = Vec::new();
    let ns = m.screens.len();
    let mut s: usize = 0;
    while s < ns
        invariant
            m.wf(),
            border <= 0x7FFFFFFF,
            ns == m.screens.len(),
            0 <= s <= ns,
            effects@ == spec_screens_prefix(*m, s as int, border),
        decreases ns - s,
    {
        let w = m.screens[s].wix;
        let scr_rect = m.screens[s].rect;
        let ws = &m.workspaces[w];
        let tiled = tiled_clients(m, w);
        let kind = ws.active_layout_kind();
        let placed = apply_layout(kind, &tiled, scr_rect, ws.ratio, ws.max_main);
        let ghost effects_before = effects@;
        let np = placed.len();
        let mut i: usize = 0;
        while i < np
            invariant
                m.wf(),
                border <= 0x7FFFFFFF,
                s < ns == m.screens.len(),
                w == m.screens[s as int].wix,
                scr_rect == m.screens[s as int].rect,
                ws == &m.workspaces[w as int],
                kind == ws.layouts[ws.active_layout as int],
                np == placed.len(),
                tiled@ == spec_tiled(*m, w as int),
                placed.len() == tiled.len(),
                forall|j: int| 0 <= j < np ==> (#[trigger] placed[j]).id == tiled[j],
                forall|j: int|
                    0 <= j < np ==> (#[trigger] placed[j]).rect == layout_rect(
                        kind,
                        scr_rect,
                        ws.ratio,
                        np as int,
                        ws.max_main as int,
                        j,
                    ),
                forall|j: int| 0 <= j < np ==> (#[trigger] placed[j]).rect.wf(),
                0 <= i <= np,
                effects_before == spec_screens_prefix(*m, s as int, border),
                effects@.len() == effects_before.len() + i,
                effects@ == effects_before + Seq::new(
                    i as nat,
                    |j: int|
                        Effect::SetGeometry {
                            id: tiled[j],
                            rect: spec_inset(
                                layout_rect(
                                    kind,
                                    scr_rect,
                                    ws.ratio,
                                    np as int,
                                    ws.max_main as int,
                                    j,
                                ),
                                border,
                            ),
                        },
                ),
            decreases np - i,
        {
            let p = placed[i];
            effects.push(Effect::SetGeometry { id: p.id, rect: inset(p.rect, border) });
            proof {
                assert(effects@ =~= effects_before + Seq::new(
                    (i + 1) as nat,
                    |j: int|
                        Effect::SetGeometry {
                            id: tiled@[j],
                            rect: spec_inset(
                                layout_rect(
                                    kind,
                                    scr_rect,
                                    ws.ratio,
                                    np as int,
                                    ws.max_main as int,
                                    j,
                                ),
                                border,
                            ),
                        },
                ));
            }
            i = i + 1;
        }
        let floats = floating_clients(m, w);
        let ghost effects_mid = effects@;
        let nf = floats.len();
        let mut f: usize = 0;
        while f < nf
            invariant
                nf == floats.len(),
                0 <= f <= nf,
                effects@ == effects_mid + Seq::new(
                    f as nat,
                    |j: int| Effect::Raise { id: floats@[j] },
                ),
            decreases nf - f,
        {
            effects.push(Effect::Raise { id: floats[f] });
            proof {
                assert(effects@ =~= effects_mid + Seq::new(
                    (f + 1) as nat,
                    |j: int| Effect::Raise { id: floats@[j] },
                ));
            }
            f = f + 1;
        }
        proof {
            assert(effects@ =~= spec_screens_prefix(*m, s + 1, border));
        }
        s = s + 1;
    }
    match m.focused_client() {
        Option::Some(id) => {
            effects.push(Effect::SetFocus { id });
        }
        Option::None => {}
    }
    proof {
        assert(effects@ =~= spec_render(*m, border));
    }
    effects
}

} // verus!
