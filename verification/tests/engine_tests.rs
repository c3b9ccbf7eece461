use tilewm::actions::{dispatch, lookup, workspace_bindings, Action, Binding, Chord, MOD_SHIFT,
    MOD_SUPER};
use tilewm::config::Config;
use tilewm::events::{handle_event, Effect, Notification};
use tilewm::geometry::Rect;
use tilewm::layout::LayoutKind;
use tilewm::manager::WindowManager;
use tilewm::workspace::{Change, Direction, Workspace};
use tilewm::StartupScript;

fn rect(x: u32, y: u32, w: u32, h: u32) -> Rect {
    Rect { x, y, w, h }
}

fn names(list: &[&str]) -> Vec<String> {
    list.iter().map(|s| s.to_string()).collect()
}

fn test_config() -> Config {
    Config::build(
        names(&["1", "2", "3", "4", "5", "6", "7", "8", "9"]),
        vec![LayoutKind::StackedMain, LayoutKind::Monocle],
        550,
        1,
        2,
        0,
        16,
        "#005577",
        "#222222",
        names(&["dmenu", "dunst", "polybar"]),
    )
    .unwrap()
}

fn manager_with_screens(screens: &[Rect]) -> WindowManager {
    WindowManager::new(
        names(&["1", "2", "3", "4", "5", "6", "7", "8", "9"]),
        vec![LayoutKind::StackedMain, LayoutKind::Monocle],
        550,
        1,
        screens.to_vec(),
    )
}

fn map_tiled(m: &mut WindowManager, id: u32) {
    assert!(m.handle_map(id, false, rect(0, 0, 100, 100), 2));
}

fn active_clients(m: &WindowManager) -> Vec<u32> {
    let w = m.active_workspace_index();
    m.workspaces[w].clients.clone()
}

#[test]
fn startup_script_keeps_its_path() {
    let s = StartupScript::new("/tmp/launch.sh".to_string());
    assert_eq!(s.path(), &"/tmp/launch.sh".to_string());
}

#[test]
fn mapped_clients_join_the_active_workspace_in_order() {
    let mut m = manager_with_screens(&[rect(0, 0, 1000, 600)]);
    map_tiled(&mut m, 1);
    map_tiled(&mut m, 2);
    map_tiled(&mut m, 3);
    // Each new client lands after the focused one and takes the focus.
    assert_eq!(active_clients(&m), vec![1, 2, 3]);
    assert_eq!(m.focused_client(), Some(3));
    // A duplicate map notification is a stale no-op.
    assert!(!m.handle_map(2, false, rect(0, 0, 10, 10), 2));
    assert_eq!(active_clients(&m), vec![1, 2, 3]);
}

#[test]
fn cycle_focus_wraps_both_ways() {
    let mut m = manager_with_screens(&[rect(0, 0, 1000, 600)]);
    map_tiled(&mut m, 1);
    map_tiled(&mut m, 2);
    map_tiled(&mut m, 3);
    assert_eq!(m.focused_client(), Some(3));
    m.cycle_focus(Direction::Forward);
    assert_eq!(m.focused_client(), Some(1));
    m.cycle_focus(Direction::Backward);
    assert_eq!(m.focused_client(), Some(3));
}

#[test]
fn cycle_focus_round_trip_returns_to_start() {
    let mut m = manager_with_screens(&[rect(0, 0, 1000, 600)]);
    for id in 1..=4 {
        map_tiled(&mut m, id);
    }
    m.handle_focus(2);
    let before = m.focused_client();
    m.cycle_focus(Direction::Forward);
    m.cycle_focus(Direction::Backward);
    assert_eq!(m.focused_client(), before);
}

#[test]
fn drag_client_round_trip_restores_order_and_focus() {
    let mut m = manager_with_screens(&[rect(0, 0, 1000, 600)]);
    for id in 1..=3 {
        map_tiled(&mut m, id);
    }
    m.handle_focus(2);
    let order_before = active_clients(&m);
    m.drag_client(Direction::Forward);
    assert_eq!(active_clients(&m), vec![1, 3, 2]);
    assert_eq!(m.focused_client(), Some(2));
    m.drag_client(Direction::Backward);
    assert_eq!(active_clients(&m), order_before);
    assert_eq!(m.focused_client(), Some(2));
}

#[test]
fn three_clients_cycle_then_drag_scenario() {
    // Workspace "1": A=1, B=2, C=3 under stacked-main (ratio 0.55, one main
    // client); focus on A; cycling forward focuses B; dragging B forward
    // swaps it with C while focus stays on B.
    let mut m = manager_with_screens(&[rect(0, 0, 1000, 600)]);
    map_tiled(&mut m, 1);
    map_tiled(&mut m, 2);
    map_tiled(&mut m, 3);
    m.handle_focus(1);
    assert_eq!(m.focused_client(), Some(1));
    m.cycle_focus(Direction::Forward);
    assert_eq!(m.focused_client(), Some(2));
    m.drag_client(Direction::Forward);
    assert_eq!(active_clients(&m), vec![1, 3, 2]);
    assert_eq!(m.focused_client(), Some(2));
    // B now sits in the second secondary slot.
    let config = test_config();
    let effects = dispatch(&mut m, &config, &Action::CycleClient(Direction::Forward));
    let geo_of_2: Vec<&Effect> = effects
        .iter()
        .filter(|e| matches!(e, Effect::SetGeometry { id: 2, .. }))
        .collect();
    assert_eq!(geo_of_2.len(), 1);
    match geo_of_2[0] {
        Effect::SetGeometry { rect: r, .. } => {
            // Second stack row of the 1000x600 screen, inset by the border.
            assert_eq!((r.x, r.y), (550, 300));
            assert_eq!((r.w, r.h), (450 - 4, 300 - 4));
        }
        _ => unreachable!(),
    }
}

#[test]
fn new_window_scenario_focus_follows_and_floating_classes_float() {
    // Policy under test: a newly mapped window always receives the focus.
    let mut m = manager_with_screens(&[rect(0, 0, 1000, 600)]);
    let config = test_config();
    let effects = handle_event(
        &mut m,
        &config,
        Notification::MapRequest { id: 7, class: "alacritty".to_string(), geometry: rect(0, 0, 1, 1) },
    );
    assert_eq!(m.focused_client(), Some(7));
    assert!(effects.iter().any(|e| matches!(e, Effect::HookNewClient { id: 7 })));
    // Tiled: it is placed by the layout pass.
    assert!(effects.iter().any(|e| matches!(e, Effect::SetGeometry { id: 7, .. })));
    // Mapping again while focused inserts after the focused client.
    let _ = handle_event(
        &mut m,
        &config,
        Notification::MapRequest { id: 8, class: "emacs".to_string(), geometry: rect(0, 0, 1, 1) },
    );
    assert_eq!(active_clients(&m), vec![7, 8]);
    assert_eq!(m.focused_client(), Some(8));
    // A floating-class window keeps its own geometry and is raised instead.
    let effects = handle_event(
        &mut m,
        &config,
        Notification::MapRequest { id: 9, class: "dmenu".to_string(), geometry: rect(5, 5, 50, 50) },
    );
    assert!(effects.iter().any(|e| matches!(e, Effect::Raise { id: 9 })));
    assert!(!effects.iter().any(|e| matches!(e, Effect::SetGeometry { id: 9, .. })));
}

#[test]
fn unmapping_the_focused_client_moves_focus_to_top() {
    let mut m = manager_with_screens(&[rect(0, 0, 1000, 600)]);
    for id in 1..=3 {
        map_tiled(&mut m, id);
    }
    assert_eq!(m.focused_client(), Some(3));
    assert!(m.handle_unmap(3));
    assert_eq!(active_clients(&m), vec![1, 2]);
    assert_eq!(m.focused_client(), Some(1));
    // An unmap for a window that is already gone is absorbed.
    assert!(!m.handle_unmap(3));
    assert_eq!(active_clients(&m), vec![1, 2]);
}

#[test]
fn unmapping_an_unfocused_client_keeps_focus() {
    let mut m = manager_with_screens(&[rect(0, 0, 1000, 600)]);
    for id in 1..=3 {
        map_tiled(&mut m, id);
    }
    m.handle_focus(2);
    assert!(m.handle_unmap(1));
    assert_eq!(m.focused_client(), Some(2));
}

#[test]
fn configure_requests_honored_only_for_floating_clients() {
    let mut m = manager_with_screens(&[rect(0, 0, 1000, 600)]);
    assert!(m.handle_map(1, false, rect(0, 0, 100, 100), 2));
    assert!(m.handle_map(2, true, rect(10, 10, 100, 100), 2));
    // Floating: the request is honored and recorded.
    assert!(m.handle_configure(2, rect(20, 20, 200, 150)));
    assert_eq!(m.registry.get(2).unwrap().geometry, rect(20, 20, 200, 150));
    // Tiled: acknowledged but overridden; nothing recorded.
    assert!(!m.handle_configure(1, rect(1, 2, 3, 4)));
    assert_eq!(m.registry.get(1).unwrap().geometry, rect(0, 0, 100, 100));
    // Unknown: stale, ignored.
    assert!(!m.handle_configure(99, rect(1, 2, 3, 4)));
}

#[test]
fn every_client_belongs_to_exactly_one_workspace() {
    let mut m = manager_with_screens(&[rect(0, 0, 1000, 600)]);
    for id in 1..=4 {
        map_tiled(&mut m, id);
    }
    m.client_to_workspace(4).unwrap();
    m.handle_unmap(2);
    for id in [1u32, 3, 4] {
        let owner = m.registry.get(id).unwrap().workspace;
        let mut seen = 0;
        for (w, ws) in m.workspaces.iter().enumerate() {
            let here = ws.clients.iter().filter(|c| **c == id).count();
            if here > 0 {
                assert_eq!(w, owner);
            }
            seen += here;
        }
        assert_eq!(seen, 1);
    }
}

#[test]
fn screens_always_show_distinct_workspaces() {
    let two = [rect(0, 0, 1000, 600), rect(1000, 0, 800, 600)];
    let mut m = manager_with_screens(&two);
    let check = |m: &WindowManager| {
        for (i, a) in m.screens.iter().enumerate() {
            for (j, b) in m.screens.iter().enumerate() {
                if i != j {
                    assert_ne!(a.wix, b.wix);
                }
            }
        }
    };
    check(&m);
    m.drag_workspace(Direction::Forward);
    check(&m);
    m.focus_workspace(5).unwrap();
    check(&m);
    m.focus_workspace(1).unwrap();
    check(&m);
    assert!(m.add_screen(rect(0, 600, 640, 480)));
    check(&m);
    m.remove_screen(1).unwrap();
    check(&m);
}

#[test]
fn drag_workspace_swaps_what_two_screens_show() {
    let two = [rect(0, 0, 1000, 600), rect(1000, 0, 800, 600)];
    let mut m = manager_with_screens(&two);
    assert_eq!((m.screens[0].wix, m.screens[1].wix), (0, 1));
    m.drag_workspace(Direction::Forward);
    assert_eq!((m.screens[0].wix, m.screens[1].wix), (1, 0));
    m.drag_workspace(Direction::Forward);
    assert_eq!((m.screens[0].wix, m.screens[1].wix), (0, 1));
}

#[test]
fn focus_workspace_exchanges_with_a_visible_workspace() {
    let two = [rect(0, 0, 1000, 600), rect(1000, 0, 800, 600)];
    let mut m = manager_with_screens(&two);
    // Workspace 1 is on screen 1; focusing it from screen 0 swaps atomically.
    m.focus_workspace(1).unwrap();
    assert_eq!((m.screens[0].wix, m.screens[1].wix), (1, 0));
    // An out-of-range index is rejected and changes nothing.
    assert!(m.focus_workspace(9).is_err());
    assert_eq!((m.screens[0].wix, m.screens[1].wix), (1, 0));
}

#[test]
fn toggle_workspace_flips_between_two_most_recent() {
    let mut m = manager_with_screens(&[rect(0, 0, 1000, 600)]);
    m.focus_workspace(4).unwrap();
    assert_eq!(m.active_workspace_index(), 4);
    m.toggle_workspace().unwrap();
    assert_eq!(m.active_workspace_index(), 0);
    m.toggle_workspace().unwrap();
    assert_eq!(m.active_workspace_index(), 4);
}

#[test]
fn client_to_workspace_moves_focused_client() {
    let mut m = manager_with_screens(&[rect(0, 0, 1000, 600)]);
    for id in 1..=3 {
        map_tiled(&mut m, id);
    }
    assert_eq!(m.focused_client(), Some(3));
    m.client_to_workspace(2).unwrap();
    assert_eq!(active_clients(&m), vec![1, 2]);
    assert_eq!(m.workspaces[2].clients, vec![3]);
    assert_eq!(m.registry.get(3).unwrap().workspace, 2);
    // Moving to the current workspace is a no-op.
    m.client_to_workspace(0).unwrap();
    assert_eq!(active_clients(&m), vec![1, 2]);
}

#[test]
fn removing_the_last_screen_reassigns_its_workspace() {
    // Two screens show workspaces 0 and 1; a client lives on each.
    let two = [rect(0, 0, 1000, 600), rect(1000, 0, 800, 600)];
    let mut m = manager_with_screens(&two);
    map_tiled(&mut m, 1);
    m.cycle_screen(Direction::Forward);
    map_tiled(&mut m, 2);
    m.cycle_screen(Direction::Backward);
    let hidden_before = m.workspaces[0].clients.clone();
    // The display drops to one screen: the removed screen's workspace (1)
    // replaces workspace 0 on the surviving screen.
    assert!(m.handle_screen_change(&vec![rect(0, 0, 1000, 600)]));
    assert_eq!(m.screens.len(), 1);
    assert_eq!(m.screens[0].wix, 1);
    // The displaced workspace is hidden, not merged: its state is untouched.
    assert_eq!(m.workspaces[0].clients, hidden_before);
    assert_eq!(m.workspaces[0].clients, vec![1]);
    assert_eq!(m.workspaces[1].clients, vec![2]);
}

#[test]
fn screen_change_updates_geometry_and_adds_screens() {
    let mut m = manager_with_screens(&[rect(0, 0, 1000, 600)]);
    let rects = vec![rect(0, 0, 1920, 1080), rect(1920, 0, 1280, 1024)];
    assert!(m.handle_screen_change(&rects));
    assert_eq!(m.screens.len(), 2);
    assert_eq!(m.screens[0].rect, rects[0]);
    assert_eq!(m.screens[1].rect, rects[1]);
    assert_ne!(m.screens[0].wix, m.screens[1].wix);
    // An empty screen list is a stale notification and is ignored.
    assert!(!m.handle_screen_change(&Vec::new()));
    assert_eq!(m.screens.len(), 2);
}

#[test]
fn update_main_ratio_stays_clamped_forever() {
    let mut ws = Workspace::new("1".to_string(), vec![LayoutKind::StackedMain], 550, 1);
    for _ in 0..30 {
        ws.update_main_ratio(Change::More);
        assert!(ws.ratio <= 950);
    }
    assert_eq!(ws.ratio, 950);
    for _ in 0..30 {
        ws.update_main_ratio(Change::Less);
        assert!(ws.ratio >= 50);
    }
    assert_eq!(ws.ratio, 50);
}

#[test]
fn update_max_main_stays_clamped_forever() {
    let mut m = manager_with_screens(&[rect(0, 0, 1000, 600)]);
    map_tiled(&mut m, 1);
    map_tiled(&mut m, 2);
    for _ in 0..5 {
        m.update_max_main(Change::More);
        let w = m.active_workspace_index();
        assert!(m.workspaces[w].max_main <= m.workspaces[w].clients.len());
    }
    for _ in 0..5 {
        m.update_max_main(Change::Less);
    }
    let w = m.active_workspace_index();
    assert_eq!(m.workspaces[w].max_main, 0);
}

#[test]
fn cycle_layout_wraps_over_registered_layouts() {
    let mut m = manager_with_screens(&[rect(0, 0, 1000, 600)]);
    let w = m.active_workspace_index();
    assert_eq!(m.workspaces[w].active_layout, 0);
    m.cycle_layout(Direction::Forward);
    assert_eq!(m.workspaces[w].active_layout, 1);
    m.cycle_layout(Direction::Forward);
    assert_eq!(m.workspaces[w].active_layout, 0);
    m.cycle_layout(Direction::Backward);
    assert_eq!(m.workspaces[w].active_layout, 1);
}

#[test]
fn cycle_screen_wraps_over_screens() {
    let two = [rect(0, 0, 1000, 600), rect(1000, 0, 800, 600)];
    let mut m = manager_with_screens(&two);
    assert_eq!(m.active_screen, 0);
    m.cycle_screen(Direction::Forward);
    assert_eq!(m.active_screen, 1);
    m.cycle_screen(Direction::Forward);
    assert_eq!(m.active_screen, 0);
    m.cycle_screen(Direction::Backward);
    assert_eq!(m.active_screen, 1);
}

#[test]
fn focus_notification_follows_to_the_visible_workspace() {
    let two = [rect(0, 0, 1000, 600), rect(1000, 0, 800, 600)];
    let mut m = manager_with_screens(&two);
    map_tiled(&mut m, 1);
    m.cycle_screen(Direction::Forward);
    map_tiled(&mut m, 2);
    // Pointer focus moves back to the window on screen 0.
    assert!(m.handle_focus(1));
    assert_eq!(m.active_screen, 0);
    assert_eq!(m.focused_client(), Some(1));
    // A stale identifier is ignored.
    assert!(!m.handle_focus(42));
    assert_eq!(m.focused_client(), Some(1));
}

#[test]
fn monocle_render_sends_full_screen_geometry() {
    let mut m = manager_with_screens(&[rect(0, 0, 1000, 600)]);
    let config = test_config();
    map_tiled(&mut m, 1);
    map_tiled(&mut m, 2);
    let effects = dispatch(&mut m, &config, &Action::CycleLayout(Direction::Forward));
    let mut geometry_count = 0;
    for e in &effects {
        if let Effect::SetGeometry { rect: r, .. } = e {
            // Full screen, inset by the 2-pixel border on each side.
            assert_eq!((r.x, r.y, r.w, r.h), (0, 0, 996, 596));
            geometry_count += 1;
        }
    }
    assert_eq!(geometry_count, 2);
}

#[test]
fn kill_exit_and_spawn_actions_emit_their_effects() {
    let mut m = manager_with_screens(&[rect(0, 0, 1000, 600)]);
    let config = test_config();
    assert_eq!(dispatch(&mut m, &config, &Action::KillClient), vec![]);
    map_tiled(&mut m, 5);
    assert_eq!(
        dispatch(&mut m, &config, &Action::KillClient),
        vec![Effect::KillRequest { id: 5 }]
    );
    assert_eq!(dispatch(&mut m, &config, &Action::Exit), vec![Effect::Exit]);
    assert_eq!(
        dispatch(&mut m, &config, &Action::Spawn("dmenu_run".to_string())),
        vec![Effect::Spawn { command: "dmenu_run".to_string() }]
    );
}

#[test]
fn lookup_finds_the_first_exact_match_only() {
    let bindings = vec![
        Binding {
            chord: Chord { mods: MOD_SUPER, key: 0x6a },
            action: Action::CycleClient(Direction::Forward),
        },
        Binding {
            chord: Chord { mods: MOD_SUPER | MOD_SHIFT, key: 0x6a },
            action: Action::DragClient(Direction::Forward),
        },
    ];
    assert_eq!(lookup(&bindings, Chord { mods: MOD_SUPER, key: 0x6a }), Some(0));
    assert_eq!(
        lookup(&bindings, Chord { mods: MOD_SUPER | MOD_SHIFT, key: 0x6a }),
        Some(1)
    );
    // An unbound chord matches nothing and is silently ignored.
    assert_eq!(lookup(&bindings, Chord { mods: MOD_SUPER, key: 0x6b }), None);
}

#[test]
fn workspace_bindings_cover_every_index() {
    let bs = workspace_bindings(MOD_SUPER, MOD_SUPER | MOD_SHIFT, 9);
    assert_eq!(bs.len(), 18);
    for i in 0..9usize {
        let key = 0x31 + i as u32;
        assert_eq!(bs[2 * i].chord, Chord { mods: MOD_SUPER, key });
        assert_eq!(bs[2 * i].action, Action::FocusWorkspace(i));
        assert_eq!(bs[2 * i + 1].chord, Chord { mods: MOD_SUPER | MOD_SHIFT, key });
        assert_eq!(bs[2 * i + 1].action, Action::ClientToWorkspace(i));
    }
}

#[test]
fn add_screen_refused_when_every_workspace_is_visible() {
    let mut m = WindowManager::new(
        names(&["1", "2"]),
        vec![LayoutKind::StackedMain],
        550,
        1,
        vec![rect(0, 0, 1000, 600), rect(1000, 0, 800, 600)],
    );
    // Both workspaces are on screen: a third screen would need a duplicate,
    // so it is left unmanaged.
    assert!(!m.add_screen(rect(0, 600, 640, 480)));
    assert_eq!(m.screens.len(), 2);
}
