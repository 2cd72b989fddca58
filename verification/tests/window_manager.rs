use justshow::ids::{WindowId, XId};
use justshow::layout::{VerticalMasterSplit, VerticalStack};
use justshow::window_manager::WindowManagerState;

fn window(raw: u32) -> WindowId {
    WindowId::unchecked_from(raw)
}

fn raws(windows: &[WindowId]) -> Vec<u32> {
    windows.iter().map(|w| w.raw()).collect()
}

#[test]
fn manage_keeps_arrival_order_and_ignores_repeats() {
    let mut wm = WindowManagerState::new(800, 600);
    assert!(wm.manage_window(window(10)));
    assert!(wm.manage_window(window(20)));
    assert!(!wm.manage_window(window(10)));
    assert!(wm.manage_window(window(30)));
    assert_eq!(raws(wm.managed_windows()), vec![10, 20, 30]);
    assert_eq!(wm.find_managed_window(window(20)), Some(1));
    assert_eq!(wm.find_managed_window(window(40)), None);
    assert!(wm.is_client(window(30)));
    assert!(!wm.is_client(window(40)));
}

#[test]
fn unmanage_removes_only_that_window() {
    let mut wm = WindowManagerState::new(800, 600);
    wm.manage_window(window(1));
    wm.manage_window(window(2));
    wm.manage_window(window(3));
    assert!(wm.unmanage_window(window(2)));
    assert_eq!(raws(wm.managed_windows()), vec![1, 3]);
    assert!(!wm.unmanage_window(window(2)));
    assert_eq!(raws(wm.managed_windows()), vec![1, 3]);
}

#[test]
fn unmanage_undoes_manage() {
    let mut wm = WindowManagerState::new(800, 600);
    wm.manage_window(window(5));
    wm.manage_window(window(6));
    let before = raws(wm.managed_windows());
    wm.manage_window(window(7));
    wm.unmanage_window(window(7));
    assert_eq!(raws(wm.managed_windows()), before);
}

#[test]
fn arrangement_is_newest_first() {
    let mut wm = WindowManagerState::new(800, 600);
    wm.manage_window(window(1));
    wm.manage_window(window(2));
    wm.manage_window(window(3));
    assert_eq!(raws(&wm.arrangement_order()), vec![3, 2, 1]);
}

#[test]
fn pointer_entering_root_keeps_active_window() {
    let mut wm = WindowManagerState::new(800, 600);
    let root = window(100);
    assert!(wm.pointer_entered(window(1), root));
    assert_eq!(wm.active_window.map(|w| w.raw()), Some(1));
    assert!(!wm.pointer_entered(root, root));
    assert_eq!(wm.active_window.map(|w| w.raw()), Some(1));
}

#[test]
fn kill_active_unmanages_it() {
    let mut wm = WindowManagerState::new(800, 600);
    wm.manage_window(window(1));
    wm.manage_window(window(2));
    assert_eq!(wm.kill_active(), None);
    wm.pointer_entered(window(1), window(100));
    let killed = wm.kill_active();
    assert_eq!(killed.map(|w| w.raw()), Some(1));
    assert!(wm.active_window.is_none());
    assert_eq!(raws(wm.managed_windows()), vec![2]);
}

#[test]
fn arrange_places_newest_as_master() {
    let mut wm = WindowManagerState::new(800, 600);
    wm.manage_window(window(1));
    wm.manage_window(window(2));
    wm.pointer_entered(window(2), window(100));
    let layout = VerticalMasterSplit {
        border_width: 3,
        window_pad: 10,
        inactive_border: 0xd0d0d0,
        active_border: 0x4eb4fa,
        right: VerticalStack {
            border_width: 3,
            window_pad: 10,
            inactive_border: 0xd0d0d0,
            active_border: 0x4eb4fa,
        },
    };
    let placed = wm.arrange_windows(&layout);
    assert_eq!(placed.len(), 2);
    assert_eq!(placed[0].window.raw(), 2);
    assert_eq!(placed[0].border_color, 0x4eb4fa);
    assert_eq!(placed[0].position.x, 10);
    assert_eq!(placed[1].window.raw(), 1);
    assert_eq!(placed[1].border_color, 0xd0d0d0);
    assert!(placed[1].position.x > placed[0].position.x);
}
