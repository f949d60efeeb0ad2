use wlral::events::ButtonState;
use wlral::geometry::{Point, Rectangle, Size, TDisplacement};
use wlral::notice::Notice;
use wlral::output::{Output, OutputManager};
use wlral::policy::{
    move_request, resize_extents, resize_request, ActivateRequest, CloseRequest, FloatingPolicy,
    FullscreenRequest, Gesture,
    MaximizeRequest, MoveRequest, RequestOriginator, WindowEdge, EDGE_BOTTOM, EDGE_LEFT,
    EDGE_RIGHT, EDGE_TOP,
};
use wlral::surface::{Surface, SurfaceState, XdgRole, XdgSurface};
use wlral::window_manager::{WindowLayer, WindowManager};

fn rect(x: i32, y: i32, width: i32, height: i32) -> Rectangle {
    Rectangle { top_left: Point { x, y }, size: Size { width, height } }
}

fn toplevel(id: u64, geometry: Rectangle) -> Surface {
    Surface::Xdg(XdgSurface {
        state: SurfaceState {
            id,
            geometry,
            buffer: Rectangle { top_left: Point { x: 0, y: 0 }, size: geometry.size },
            activated: false,
            maximized: false,
            fullscreen: false,
            resizing: false,
            close_requested: false,
            requested_size: None,
        },
        role: XdgRole::Toplevel,
        parent: None,
        popup_offset: TDisplacement { dx: 0, dy: 0 },
        next_serial: 1,
    })
}

fn screen() -> OutputManager {
    let mut om = OutputManager::new();
    assert!(om.add_output(Output { id: 9, top_left: Point { x: 0, y: 0 }, size: Size { width: 1920, height: 1080 } }));
    om
}

/// A focused, mapped window with extents `{(0,0),(200,150)}`.
fn focused_window(wm: &mut WindowManager, om: &OutputManager) {
    assert!(wm.new_window(WindowLayer::Normal, toplevel(1, rect(0, 0, 200, 150))));
    wm.map_window(1, om);
    assert!(wm.focus_window(1));
}

#[test]
fn new_window_is_centered_and_focused() {
    let mut wm = WindowManager::new();
    let om = screen();
    let mut policy = FloatingPolicy::new();
    assert!(wm.new_window(WindowLayer::Normal, toplevel(1, rect(0, 0, 200, 150))));
    let ready = wm.map_window(1, &om);
    assert_eq!(ready.last(), Some(&Notice::WindowReady { window: 1 }));
    policy.handle_window_ready(&mut wm, &om, 1);
    assert_eq!(wm.extents(1), rect(860, 465, 200, 150));
    assert_eq!(wm.focused_window(), Some(1));
}

#[test]
fn move_gesture_follows_the_pointer() {
    let mut wm = WindowManager::new();
    let om = screen();
    let mut policy = FloatingPolicy::new();
    focused_window(&mut wm, &om);
    let request = MoveRequest { window: 1, drag_point: Point { x: 10, y: 10 } };
    policy.handle_request_move(&mut wm, request);
    assert_eq!(policy.gesture(), Some(Gesture::Move(request)));
    assert!(policy.handle_pointer_motion(&mut wm, &om, Point { x: 110, y: 60 }).is_some());
    assert_eq!(wm.window(1).unwrap().top_left(), Point { x: 100, y: 50 });
    assert_eq!(wm.extents(1).top_left(), Point { x: 100, y: 50 });
    assert!(policy.handle_pointer_button(&mut wm, ButtonState::Released));
    assert_eq!(policy.gesture(), None);
    assert!(policy.handle_pointer_motion(&mut wm, &om, Point { x: 0, y: 0 }).is_none());
    assert_eq!(wm.window(1).unwrap().top_left(), Point { x: 100, y: 50 });
}

#[test]
fn move_request_records_the_drag_point() {
    let mut wm = WindowManager::new();
    let om = screen();
    focused_window(&mut wm, &om);
    wm.move_to(1, Point { x: 100, y: 40 }, &om);
    let request = move_request(&wm, 1, Point { x: 110, y: 60 }).unwrap();
    assert_eq!(request, MoveRequest { window: 1, drag_point: Point { x: 10, y: 20 } });
    assert!(move_request(&wm, 2, Point { x: 0, y: 0 }).is_none());
}

#[test]
fn unfocused_windows_cannot_start_gestures() {
    let mut wm = WindowManager::new();
    let mut policy = FloatingPolicy::new();
    assert!(wm.new_window(WindowLayer::Normal, toplevel(1, rect(0, 0, 200, 150))));
    policy.handle_request_move(&mut wm, MoveRequest { window: 1, drag_point: Point { x: 0, y: 0 } });
    assert_eq!(policy.gesture(), None);
    policy.handle_request_resize(&mut wm, resize_request(1, Point { x: 0, y: 0 }, EDGE_RIGHT));
    assert_eq!(policy.gesture(), None);
    assert!(!wm.window(1).unwrap().surface().resizing());
}

#[test]
fn resize_gesture_drags_the_right_and_bottom_edges() {
    let mut wm = WindowManager::new();
    let om = screen();
    let mut policy = FloatingPolicy::new();
    focused_window(&mut wm, &om);
    let request = resize_request(1, Point { x: 200, y: 150 }, EDGE_RIGHT | EDGE_BOTTOM);
    policy.handle_request_resize(&mut wm, request);
    assert!(wm.window(1).unwrap().surface().resizing());
    assert_eq!(policy.gesture(), Some(Gesture::Resize(request, rect(0, 0, 200, 150))));
    let acked = match wm.window(1).unwrap().surface() {
        Surface::Xdg(x) => x.next_serial,
        _ => 0,
    };
    policy.handle_pointer_motion(&mut wm, &om, Point { x: 250, y: 180 });
    let w = wm.window(1).unwrap();
    assert_eq!(w.surface().state().requested_size, Some(Size { width: 250, height: 180 }));
    // the client acknowledges the configure and commits the new size
    assert_eq!(w.pending_update(acked), Some(Point { x: 0, y: 0 }));
    assert!(wm.apply_client_state(1, rect(0, 0, 250, 180), rect(0, 0, 250, 180)));
    wm.commit(1, acked, &om);
    assert_eq!(wm.extents(1), rect(0, 0, 250, 180));
    assert!(policy.handle_pointer_button(&mut wm, ButtonState::Released));
    assert!(!wm.window(1).unwrap().surface().resizing());
    assert_eq!(policy.gesture(), None);
}

#[test]
fn release_without_gesture_is_ignored() {
    let mut wm = WindowManager::new();
    let om = screen();
    let mut policy = FloatingPolicy::new();
    focused_window(&mut wm, &om);
    let before = wm.extents(1);
    assert!(!policy.handle_pointer_button(&mut wm, ButtonState::Released));
    assert!(!policy.handle_pointer_button(&mut wm, ButtonState::Pressed));
    assert_eq!(wm.extents(1), before);
    assert_eq!(policy.gesture(), None);
}

#[test]
fn pressing_a_button_does_not_end_a_gesture() {
    let mut wm = WindowManager::new();
    let om = screen();
    let mut policy = FloatingPolicy::new();
    focused_window(&mut wm, &om);
    let request = MoveRequest { window: 1, drag_point: Point { x: 1, y: 1 } };
    policy.handle_request_move(&mut wm, request);
    assert!(!policy.handle_pointer_button(&mut wm, ButtonState::Pressed));
    assert_eq!(policy.gesture(), Some(Gesture::Move(request)));
}

#[test]
fn resize_edges_pick_top_and_left_over_bottom_and_right() {
    let orig = rect(10, 20, 100, 50);
    let both = WindowEdge::from_bits_truncate(EDGE_TOP | EDGE_BOTTOM | EDGE_LEFT | EDGE_RIGHT);
    assert_eq!(resize_extents(&orig, both, 5, 7), Some(rect(15, 27, 95, 43)));
    let br = WindowEdge::from_bits_truncate(EDGE_BOTTOM | EDGE_RIGHT);
    assert_eq!(resize_extents(&orig, br, 5, 7), Some(rect(10, 20, 105, 57)));
    let none = WindowEdge::from_bits_truncate(0b1_0000);
    assert_eq!(none, WindowEdge { top: false, bottom: false, left: false, right: false });
    assert_eq!(resize_extents(&orig, none, 5, 7), Some(orig));
    assert_eq!(resize_extents(&rect(0, 0, i32::MAX, 1), br, 1, 0), None);
}

#[test]
fn maximize_then_restore_asks_for_the_captured_extents() {
    let mut wm = WindowManager::new();
    let om = screen();
    let mut policy = FloatingPolicy::new();
    focused_window(&mut wm, &om);
    wm.move_to(1, Point { x: 30, y: 40 }, &om);
    let captured = wm.extents(1);
    let max = MaximizeRequest { window: 1, maximize: true, originator: RequestOriginator::Application };
    let s1 = policy.handle_request_maximize(&mut wm, &om, max).unwrap();
    assert!(wm.window(1).unwrap().surface().maximized());
    assert_eq!(policy.restore_extents(1), Some(captured));
    assert_eq!(wm.window(1).unwrap().pending_update(s1), Some(Point { x: 0, y: 0 }));
    assert!(wm.apply_client_state(1, rect(0, 0, 1920, 1080), rect(0, 0, 1920, 1080)));
    wm.commit(1, s1, &om);
    assert_eq!(wm.extents(1), rect(0, 0, 1920, 1080));
    let restore = MaximizeRequest { window: 1, maximize: false, originator: RequestOriginator::Foreign(5) };
    let s2 = policy.handle_request_maximize(&mut wm, &om, restore).unwrap();
    assert!(!wm.window(1).unwrap().surface().maximized());
    assert_eq!(wm.window(1).unwrap().surface().state().requested_size, Some(captured.size));
    assert!(wm.apply_client_state(1, rect(0, 0, 200, 150), rect(0, 0, 200, 150)));
    wm.commit(1, s2, &om);
    assert_eq!(wm.extents(1), captured);
}

#[test]
fn fullscreen_covers_the_named_output() {
    let mut wm = WindowManager::new();
    let mut om = screen();
    assert!(om.add_output(Output { id: 10, top_left: Point { x: 1920, y: 0 }, size: Size { width: 1280, height: 1024 } }));
    let mut policy = FloatingPolicy::new();
    focused_window(&mut wm, &om);
    let req = FullscreenRequest { window: 1, fullscreen: true, output: Some(10), originator: RequestOriginator::Application };
    let s = policy.handle_request_fullscreen(&mut wm, &om, req).unwrap();
    assert!(wm.window(1).unwrap().surface().fullscreen());
    assert_eq!(wm.window(1).unwrap().pending_update(s), Some(Point { x: 1920, y: 0 }));
    assert_eq!(wm.window(1).unwrap().surface().state().requested_size, Some(Size { width: 1280, height: 1024 }));
    let back = FullscreenRequest { window: 1, fullscreen: false, output: None, originator: RequestOriginator::Application };
    let s2 = policy.handle_request_fullscreen(&mut wm, &om, back).unwrap();
    assert!(!wm.window(1).unwrap().surface().fullscreen());
    assert_eq!(wm.window(1).unwrap().pending_update(s2), Some(Point { x: 0, y: 0 }));
}

#[test]
fn requests_without_output_or_window_do_nothing() {
    let mut wm = WindowManager::new();
    let om = OutputManager::new();
    let mut policy = FloatingPolicy::new();
    assert!(wm.new_window(WindowLayer::Normal, toplevel(1, rect(0, 0, 200, 150))));
    let max = MaximizeRequest { window: 1, maximize: true, originator: RequestOriginator::Application };
    assert_eq!(policy.handle_request_maximize(&mut wm, &om, max), None);
    assert!(!wm.window(1).unwrap().surface().maximized());
    let other = MaximizeRequest { window: 2, maximize: true, originator: RequestOriginator::Application };
    assert_eq!(policy.handle_request_maximize(&mut wm, &screen(), other), None);
    assert_eq!(policy.restore_extents(1), None);
}

#[test]
fn activate_and_close_requests() {
    let mut wm = WindowManager::new();
    let om = screen();
    let mut policy = FloatingPolicy::new();
    assert!(wm.new_window(WindowLayer::Normal, toplevel(1, rect(0, 0, 200, 150))));
    assert_eq!(FloatingPolicy::output_for_window(&wm, &om, 1).map(|o| o.id), Some(9));
    let activate = ActivateRequest { window: 1, originator: RequestOriginator::Foreign(3) };
    assert!(policy.handle_request_activate(&mut wm, activate));
    assert_eq!(wm.focused_window(), Some(1));
    policy.handle_request_close(&mut wm, CloseRequest { window: 1, originator: RequestOriginator::Foreign(3) });
    assert!(wm.window(1).unwrap().surface().state().close_requested);
}

#[test]
fn a_new_resize_restarts_the_resizing_state() {
    let mut wm = WindowManager::new();
    let om = screen();
    let mut policy = FloatingPolicy::new();
    focused_window(&mut wm, &om);
    let before = match wm.window(1).unwrap().surface() {
        Surface::Xdg(x) => x.next_serial,
        _ => 0,
    };
    policy.handle_request_resize(&mut wm, resize_request(1, Point { x: 0, y: 0 }, EDGE_LEFT));
    policy.handle_request_resize(&mut wm, resize_request(1, Point { x: 0, y: 0 }, EDGE_TOP));
    assert!(wm.window(1).unwrap().surface().resizing());
    // set, then cleared and set again: three configures
    let after = match wm.window(1).unwrap().surface() {
        Surface::Xdg(x) => x.next_serial,
        _ => 0,
    };
    assert_eq!(after, before + 3);
    assert_eq!(wm.extents(1), rect(0, 0, 200, 150));
}
