//! The action dispatcher: a static chord-to-action table built at startup,
//! exact-match lookup at input time, and the switch that applies an action to
//! the model and triggers a re-render.

use vstd::prelude::*;
use crate::config::Config;
use crate::events::{render, spec_render, Effect};
use crate::manager::WindowManager;
use crate::workspace::{spec_cycle_index, spec_update_max_main, spec_update_ratio, Change,
    Direction};

verus! {

/// Shift modifier bit, as the display server reports it.
pub const MOD_SHIFT: u32 = 1;

/// Control modifier bit.
pub const MOD_CONTROL: u32 = 4;

/// Alt modifier bit.
pub const MOD_ALT: u32 = 8;

/// Super ("meta") modifier bit, the usual window-manager modifier.
pub const MOD_SUPER: u32 = 64;

/// A key chord: a set of held modifiers plus one key symbol.
#[derive(Clone, Copy, PartialEq, Eq, Structural, Debug)]
pub struct Chord {
    pub mods: u32,
    pub key: u32,
}

/// Everything a chord can be bound to: an internal operation with its
/// direction or amount, a request to start an external program, or exit.
#[derive(Clone, PartialEq, Eq, Debug)]
pub enum Action {
    CycleClient(Direction),
    DragClient(Direction),
    KillClient,
    ToggleWorkspace,
    CycleLayout(Direction),
    UpdateMaxMain(Change),
    UpdateMainRatio(Change),
    CycleScreen(Direction),
    DragWorkspace(Direction),
    FocusWorkspace(usize),
    ClientToWorkspace(usize),
    Spawn(String),
    Exit,
}

/// One entry of the binding table.
#[derive(Clone, PartialEq, Eq, Debug)]
pub struct Binding {
    pub chord: Chord,
    pub action: Action,
}

/// Exact-match lookup: the first binding whose chord equals `chord`, or
/// `None` for an unbound chord (which the caller silently ignores).
pub fn lookup(bindings: &Vec<Binding>, chord: Chord) -> (r: Option<usize>)
    ensures
        r matches Some(i) ==> i < bindings.len() && bindings[i as int].chord == chord && (forall|
            j: int,
        |
            0 <= j < i ==> (#[trigger] bindings[j]).chord != chord),
        r is None ==> forall|j: int|
            0 <= j < bindings.len() ==> (#[trigger] bindings[j]).chord != chord,
{
    let n = bindings.len();
    let mut i: usize = 0;
    while i < n
        invariant
            n == bindings.len(),
            0 <= i <= n,
            forall|j: int| 0 <= j < i ==> (#[trigger] bindings[j]).chord != chord,
        decreases n - i,
    {
        if bindings[i].chord.mods == chord.mods && bindings[i].chord.key == chord.key {
            return Some(i);
        }
        i = i + 1;
    }
    None
}

/// The numeric-index bindings: for each workspace `i` of the first `count`,
/// `mods` + digit `i+1` focuses workspace `i` and `shift_mods` + the same
/// digit sends the focused client there.
pub fn workspace_bindings(mods: u32, shift_mods: u32, count: usize) -> (bs: Vec<Binding>)
    requires
        count <= 9,
    ensures
        bs.len() == 2 * count,
        forall|i: int|
            0 <= i < count ==> #[trigger] bs[2 * i] == (Binding {
                chord: Chord { mods, key: (0x31 + i) as u32 },
                action: Action::FocusWorkspace(i as usize),
            }),
        forall|i: int|
            0 <= i < count ==> #[trigger] bs[2 * i + 1] == (Binding {
                chord: Chord { mods: shift_mods, key: (0x31 + i) as u32 },
                action: Action::ClientToWorkspace(i as usize),
            }),
{
    let mut bs: Vec<Binding> = Vec::new();
    let mut i: usize = 0;
    while i < count
        invariant
            count <= 9,
            0 <= i <= count,
            bs.len() == 2 * i,
            forall|j: int|
                0 <= j < i ==> #[trigger] bs[2 * j] == (Binding {
                    chord: Chord { mods, key: (0x31 + j) as u32 },
                    action: Action::FocusWorkspace(j as usize),
                }),
            forall|j: int|
                0 <= j < i ==> #[trigger] bs[2 * j + 1] == (Binding {
                    chord: Chord { mods: shift_mods, key: (0x31 + j) as u32 },
                    action: Action::ClientToWorkspace(j as usize),
                }),
        decreases count - i,
    {
        let key: u32 = 0x31 + (i as u32);
        bs.push(Binding { chord: Chord { mods, key }, action: Action::FocusWorkspace(i) });
        bs.push(
            Binding { chord: Chord { mods: shift_mods, key }, action: Action::ClientToWorkspace(i) },
        );
        i = i + 1;
    }
    bs
}

/// Apply one action to the model and return the display commands it calls
/// for. Internal operations that change visible geometry or focus end with a
/// full layout pass over the new state; out-of-range workspace indices are
/// absorbed (reported by the model as configuration errors, never applied).
pub fn dispatch(m: &mut WindowManager, config: &Config, action: &Action) -> (effects: Vec<Effect>)
    requires
        old(m).wf(),
        config.valid(),
        config.border_px <= 0x7FFFFFFF,
    ensures
        final(m).wf(),
        action is Exit ==> *final(m) == *old(m) && effects@ == seq![Effect::Exit],
        action matches Action::Spawn(cmd) ==> *final(m) == *old(m) && effects@ == seq![
            Effect::Spawn { command: *cmd },
        ],
        action is KillClient ==> *final(m) == *old(m) && effects@ == (
        match old(m).spec_focused_client() {
            Some(id) => seq![Effect::KillRequest { id }],
            None => Seq::<Effect>::empty(),
        }),
        action matches Action::CycleClient(d) ==> ({
            let w0 = old(m).workspaces[old(m).spec_active_wix()];
            let w1 = final(m).workspaces[old(m).spec_active_wix()];
            &&& (w0.clients.len() > 0 ==> w1.focused as int == spec_cycle_index(
                w0.focused as int,
                w0.clients.len() as int,
                *d,
            ))
            &&& w1.clients == w0.clients
            &&& effects@ == spec_render(*final(m), config.border_px)
        }),
        action matches Action::DragClient(d) ==> final(m).spec_focused_client() == old(
            m,
        ).spec_focused_client() && effects@ == spec_render(*final(m), config.border_px),
        action matches Action::CycleLayout(d) ==> ({
            let w0 = old(m).workspaces[old(m).spec_active_wix()];
            let w1 = final(m).workspaces[old(m).spec_active_wix()];
            &&& w1.active_layout as int == spec_cycle_index(
                w0.active_layout as int,
                w0.layouts.len() as int,
                *d,
            )
            &&& effects@ == spec_render(*final(m), config.border_px)
        }),
        action matches Action::UpdateMainRatio(c) ==> ({
            let w0 = old(m).workspaces[old(m).spec_active_wix()];
            let w1 = final(m).workspaces[old(m).spec_active_wix()];
            &&& w1.ratio as int == spec_update_ratio(w0.ratio, *c)
            &&& effects@ == spec_render(*final(m), config.border_px)
        }),
        action matches Action::UpdateMaxMain(c) ==> ({
            let w0 = old(m).workspaces[old(m).spec_active_wix()];
            let w1 = final(m).workspaces[old(m).spec_active_wix()];
            &&& w1.max_main as int == spec_update_max_main(
                w0.max_main as int,
                w0.clients.len() as int,
                *c,
            )
            &&& effects@ == spec_render(*final(m), config.border_px)
        }),
        action matches Action::CycleScreen(d) ==> final(m).active_screen as int == spec_cycle_index(
            old(m).active_screen as int,
            old(m).screens.len() as int,
            *d,
        ) && effects@ == spec_render(*final(m), config.border_px),
        action matches Action::DragWorkspace(d) ==> ({
            let a = old(m).active_screen as int;
            let b = spec_cycle_index(a, old(m).screens.len() as int, *d);
            &&& (old(m).screens.len() >= 2 ==> final(m).screens[a].wix == old(m).screens[b].wix
                && final(m).screens[b].wix == old(m).screens[a].wix)
            &&& (old(m).screens.len() == 1 ==> final(m).screens == old(m).screens)
            &&& effects@ == spec_render(*final(m), config.border_px)
        }),
        action is ToggleWorkspace ==> final(m).spec_active_wix() == old(m).previous_workspace
            as int && effects@ == spec_render(*final(m), config.border_px),
        action matches Action::FocusWorkspace(ix) ==> ({
            &&& (*ix >= old(m).workspaces.len() ==> *final(m) == *old(m) && effects@
                == Seq::<Effect>::empty())
            &&& (*ix < old(m).workspaces.len() ==> final(m).spec_active_wix() == *ix as int
                && effects@ == spec_render(*final(m), config.border_px))
        }),
        action matches Action::ClientToWorkspace(ix) ==> ({
            &&& (*ix >= old(m).workspaces.len() ==> *final(m) == *old(m) && effects@
                == Seq::<Effect>::empty())
            &&& (*ix < old(m).workspaces.len() ==> effects@ == spec_render(
                *final(m),
                config.border_px,
            ))
        }),
{
    match action {
        Action::CycleClient(d) => {
            m.cycle_focus(*d);
            render(m, config.border_px)
        }
        Action::DragClient(d) => {
            m.drag_client(*d);
            render(m, config.border_px)
        }
        Action::KillClient => {
            let mut effects: Vec<Effect> = Vec::new();
            match m.focused_client() {
                Option::Some(id) => {
                    effects.push(Effect::KillRequest { id });
                    proof {
                        assert(effects@ =~= seq![Effect::KillRequest { id }]);
                    }
                }
                Option::None => {}
            }
            effects
        }
        Action::ToggleWorkspace => {
            let r = m.toggle_workspace();
            proof {
                assert(r is Ok);
            }
            render(m, config.border_px)
        }
        Action::CycleLayout(d) => {
            m.cycle_layout(*d);
            render(m, config.border_px)
        }
        Action::UpdateMaxMain(c) => {
            m.update_max_main(*c);
            render(m, config.border_px)
        }
        Action::UpdateMainRatio(c) => {
            m.update_main_ratio(*c);
            render(m, config.border_px)
        }
        Action::CycleScreen(d) => {
            m.cycle_screen(*d);
            render(m, config.border_px)
        }
        Action::DragWorkspace(d) => {
            m.drag_workspace(*d);
            render(m, config.border_px)
        }
        Action::FocusWorkspace(ix) => {
            match m.focus_workspace(*ix) {
                Result::Ok(_) => render(m, config.border_px),
                Result::Err(_) => Vec::new(),
            }
        }
        Action::ClientToWorkspace(ix) => {
            match m.client_to_workspace(*ix) {
                Result::Ok(_) => render(m, config.border_px),
                Result::Err(_) => Vec::new(),
            }
        }
        Action::Spawn(cmd) => {
            let mut effects: Vec<Effect> = Vec::new();
            effects.push(Effect::Spawn { command: cmd.clone() });
            proof {
                assert(effects@ =~= seq![Effect::Spawn { command: *cmd }]);
            }
            effects
        }
        Action::Exit => {
            let mut effects: Vec<Effect> = Vec::new();
            effects.push(Effect::Exit);
            proof {
                assert(effects@ =~= seq![Effect::Exit]);
            }
            effects
        }
    }
}

} // verus!
