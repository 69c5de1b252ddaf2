use nightbar::workspace::{
    apply_update, collect_updates, hyprland_socket_path, workspace_dispatch_command,
    workspace_label, workspace_snapshot, ButtonState, WorkspaceEvent, WorkspaceTracker,
};

fn sorted(mut v: Vec<i32>) -> Vec<i32> {
    v.sort();
    v
}

fn occupied_of(e: &Option<WorkspaceEvent>) -> Option<Vec<i32>> {
    match e {
        Some(WorkspaceEvent::Occupied(v)) => Some(sorted(v.clone())),
        _ => None,
    }
}

fn active_of(e: &Option<WorkspaceEvent>) -> Option<i32> {
    match e {
        Some(WorkspaceEvent::Active(id)) => Some(*id),
        _ => None,
    }
}

#[test]
fn focus_events() {
    let mut t = WorkspaceTracker::new(&vec![1]);
    assert_eq!(active_of(&t.handle_line("workspace>>3")), Some(3));
    assert_eq!(active_of(&t.handle_line("workspace>> 4 ")), Some(4));
    assert_eq!(active_of(&t.handle_line("focusedmon>>DP-1,2")), Some(2));
    assert!(t.handle_line("focusedmon>>DP-1").is_none());
    assert!(t.handle_line("workspace>>special").is_none());
    assert!(t.handle_line("activewindow>>kitty,~").is_none());
    assert!(t.handle_line("no separator").is_none());
    assert_eq!(sorted(t.occupied_ids()), vec![1]);
}

#[test]
fn windows_open_and_close() {
    let mut t = WorkspaceTracker::new(&vec![1, 1]);
    assert_eq!(sorted(t.occupied_ids()), vec![1]);
    let e = t.handle_line("openwindow>>5a1b,3,kitty,Terminal");
    assert_eq!(occupied_of(&e), Some(vec![1, 3]));
    let e = t.handle_line("openwindow>>5a1c,3,firefox,Browser, with, commas");
    assert_eq!(occupied_of(&e), Some(vec![1, 3]));
    // One window left on workspace 3: it stays occupied, nothing reported.
    assert!(t.handle_line("closewindow>>5a1b").is_none());
    assert_eq!(sorted(t.occupied_ids()), vec![1, 3]);
    let e = t.handle_line("closewindow>>5a1c\n");
    assert_eq!(occupied_of(&e), Some(vec![1]));
    // Unknown window: nothing changes.
    assert!(t.handle_line("closewindow>>dead").is_none());
    assert_eq!(sorted(t.occupied_ids()), vec![1]);
}

#[test]
fn unparsable_workspace_means_one() {
    let mut t = WorkspaceTracker::new(&vec![]);
    let e = t.handle_line("openwindow>>aa,name,class,title");
    assert_eq!(occupied_of(&e), Some(vec![1]));
    assert!(t.handle_line("openwindow>>lonely").is_none());
}

#[test]
fn destroyed_workspaces_are_dropped() {
    let mut t = WorkspaceTracker::new(&vec![1, 2, 4]);
    assert_eq!(occupied_of(&t.handle_line("destroyworkspace>>2")), Some(vec![1, 4]));
    assert_eq!(occupied_of(&t.handle_line("destroyworkspace>>9")), Some(vec![1, 4]));
    assert!(t.handle_line("destroyworkspace>>x").is_none());
}

#[test]
fn moving_a_window_keeps_the_old_workspace() {
    let mut t = WorkspaceTracker::new(&vec![]);
    t.handle_line("openwindow>>w,2,a,b");
    let e = t.handle_line("openwindow>>w,5,a,b");
    assert_eq!(occupied_of(&e), Some(vec![2, 5]));
    let e = t.handle_line("closewindow>>w");
    assert_eq!(occupied_of(&e), Some(vec![2]));
}

#[test]
fn close_undoes_open() {
    let mut t = WorkspaceTracker::new(&vec![1]);
    t.handle_line("openwindow>>fresh,2,a,b");
    t.handle_line("closewindow>>fresh");
    assert_eq!(sorted(t.occupied_ids()), vec![1]);
}

#[test]
fn batch_keeps_the_newest_reports() {
    let events = vec![
        WorkspaceEvent::Initial { active: 1, occupied: vec![1, 2] },
        WorkspaceEvent::Active(3),
        WorkspaceEvent::Occupied(vec![3]),
        WorkspaceEvent::Active(4),
    ];
    let u = collect_updates(&events);
    assert_eq!(u.active, Some(4));
    assert_eq!(u.occupied, Some(vec![3]));
    let empty = collect_updates(&vec![]);
    assert_eq!(empty.active, None);
    assert_eq!(empty.occupied, None);
    let only_focus = collect_updates(&vec![WorkspaceEvent::Active(2)]);
    assert_eq!(only_focus.active, Some(2));
    assert_eq!(only_focus.occupied, None);
}

#[test]
fn buttons_follow_updates() {
    let mut buttons = vec![ButtonState { active: false, occupied: false }; 5];
    let u = collect_updates(&vec![WorkspaceEvent::Initial { active: 2, occupied: vec![1, 2, 5] }]);
    apply_update(&mut buttons, &u);
    let looks: Vec<(bool, bool)> = buttons.iter().map(|b| (b.active, b.occupied)).collect();
    assert_eq!(
        looks,
        vec![(false, true), (true, false), (false, false), (false, false), (false, true)]
    );
    // A report of occupancy alone leaves the focus and may mark the focused one.
    let u = collect_updates(&vec![WorkspaceEvent::Occupied(vec![2, 3])]);
    apply_update(&mut buttons, &u);
    let looks: Vec<(bool, bool)> = buttons.iter().map(|b| (b.active, b.occupied)).collect();
    assert_eq!(
        looks,
        vec![(false, false), (true, true), (false, true), (false, false), (false, false)]
    );
    // A focus report alone leaves the occupancy.
    let u = collect_updates(&vec![WorkspaceEvent::Active(4)]);
    apply_update(&mut buttons, &u);
    let looks: Vec<(bool, bool)> = buttons.iter().map(|b| (b.active, b.occupied)).collect();
    assert_eq!(
        looks,
        vec![(false, false), (false, true), (false, true), (true, false), (false, false)]
    );
}

#[test]
fn snapshot_from_hyprctl() {
    let active = br#"{"id": 3, "name": "3", "monitor": "DP-1", "windows": 2}"#;
    let list = br#"[{"id": 1, "windows": 2}, {"id": 3, "windows": 0}, {"id": 4, "windows": 1}, {"id": 4, "windows": 5}, {"id": "x", "windows": 1}, {"windows": 1}, {"id": 7, "windows": 1.5}]"#;
    let (a, occ) = workspace_snapshot(Some(active), Some(list));
    assert_eq!(a, 3);
    assert_eq!(sorted(occ), vec![1, 4]);
    let (a, occ) = workspace_snapshot(None, None);
    assert_eq!(a, 1);
    assert!(occ.is_empty());
    let (a, occ) = workspace_snapshot(Some(b"not json"), Some(b"{\"id\": 2}"));
    assert_eq!(a, 1);
    assert!(occ.is_empty());
    let (a, _) = workspace_snapshot(Some(br#"{"id": 4294967298}"#), None);
    assert_eq!(a, 2);
    let (a, _) = workspace_snapshot(Some(br#"[{"id": 5}]"#), None);
    assert_eq!(a, 1);
}

#[test]
fn socket_path_and_commands() {
    assert_eq!(
        hyprland_socket_path("/run/user/1000", "abc_123"),
        "/run/user/1000/hypr/abc_123/.socket2.sock"
    );
    assert_eq!(workspace_label(3), "3");
    assert_eq!(workspace_dispatch_command(5), "hyprctl dispatch workspace 5");
    assert_eq!(workspace_dispatch_command(10), "hyprctl dispatch workspace 10");
}

#[test]
fn occupied_reports_list_each_workspace_once() {
    let mut t = WorkspaceTracker::new(&vec![2, 2, 3]);
    let e = t.handle_line("openwindow>>a,2,x,y");
    assert_eq!(occupied_of(&e).map(sorted), Some(vec![2, 3]));
    let e = t.handle_line("openwindow>>b,3,x,y");
    assert_eq!(occupied_of(&e).map(sorted), Some(vec![2, 3]));
    let e = t.handle_line("destroyworkspace>>7");
    assert_eq!(occupied_of(&e).map(sorted), Some(vec![2, 3]));
}
