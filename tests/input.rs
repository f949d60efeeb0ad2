use wlral::geometry::{Point, Rectangle, Size, TDisplacement};
use wlral::keyboard::{
    key_binding, KeyAction, RepeatDelay, RepeatRate, VtSwitchEventFilter, KEY_A, KEY_C, KEY_D,
    KEY_ESCAPE, KEY_SWITCH_VT_1, KEY_SWITCH_VT_12,
};
use wlral::notice::Notice;
use wlral::output::{Output, OutputManager};
use wlral::surface::{Surface, SurfaceState, XdgRole, XdgSurface};
use wlral::window::MinimizeTarget;
use wlral::window_manager::{WindowLayer, WindowManager};

fn rect(x: i32, y: i32, width: i32, height: i32) -> Rectangle {
    Rectangle { top_left: Point { x, y }, size: Size { width, height } }
}

fn xdg(id: u64, role: XdgRole, parent: Option<u64>, geometry: Rectangle) -> Surface {
    Surface::Xdg(XdgSurface {
        state: SurfaceState {
            id,
            geometry,
            buffer: Rectangle { top_left: Point { x: 0, y: 0 }, size: geometry.size },
            activated: false,
            maximized: false,
            fullscreen: false,
            resizing: false,
            close_requested: false,
            requested_size: None,
        },
        role,
        parent,
        popup_offset: TDisplacement { dx: 0, dy: 0 },
        next_serial: 1,
    })
}

#[test]
fn key_bindings_of_the_floating_policy() {
    assert_eq!(key_binding(KEY_ESCAPE, true, true, false, false), Some(KeyAction::CloseFocused));
    assert_eq!(key_binding(KEY_ESCAPE, false, true, false, false), None);
    assert_eq!(key_binding(KEY_ESCAPE, true, false, false, false), None);
    assert_eq!(key_binding(KEY_A, true, true, false, true), Some(KeyAction::ApplyPendingTest));
    assert_eq!(key_binding(KEY_A, true, true, false, false), None);
    assert_eq!(key_binding(KEY_C, true, true, false, true), Some(KeyAction::CancelPendingTest));
    assert_eq!(key_binding(KEY_D, true, true, true, false), Some(KeyAction::ListWindows));
    assert_eq!(key_binding(KEY_D, true, true, false, false), None);
}

#[test]
fn vt_switch_keys() {
    let f = VtSwitchEventFilter::new(true);
    assert_eq!(f.handle_keyboard_event(KEY_SWITCH_VT_1), Some(Some(1)));
    assert_eq!(f.handle_keyboard_event(KEY_SWITCH_VT_12), Some(Some(12)));
    assert_eq!(f.handle_keyboard_event(KEY_SWITCH_VT_12 + 1), None);
    assert_eq!(f.handle_keyboard_event(KEY_A), None);
    assert_eq!(VtSwitchEventFilter::new(false).handle_keyboard_event(KEY_SWITCH_VT_1 + 2), Some(None));
}

#[test]
fn keyboard_repeat_defaults() {
    assert_eq!(RepeatRate::default(), RepeatRate(33));
    assert_eq!(RepeatDelay::default(), RepeatDelay(500));
}

#[test]
fn pointer_goes_to_the_frontmost_buffer() {
    let mut wm = WindowManager::new();
    let om = OutputManager::new();
    assert!(wm.new_window(WindowLayer::Normal, xdg(1, XdgRole::Toplevel, None, rect(0, 0, 100, 100))));
    assert!(wm.new_window(WindowLayer::Normal, xdg(2, XdgRole::Toplevel, None, rect(0, 0, 100, 100))));
    wm.move_to(2, Point { x: 50, y: 50 }, &om);
    assert!(wm.focus_window(2));
    assert_eq!(wm.pointer_target(&Point { x: 60, y: 70 }), Some((2, Point { x: 10, y: 20 })));
    assert_eq!(wm.pointer_target(&Point { x: 10, y: 10 }), Some((1, Point { x: 10, y: 10 })));
    assert_eq!(wm.pointer_target(&Point { x: 500, y: 500 }), None);
    assert_eq!(wm.window_buffer_at(&Point { x: 60, y: 70 }), Some(2));
    assert_eq!(wm.try_buffer_extents(2), Some(rect(50, 50, 100, 100)));
}

#[test]
fn popups_join_their_parent_layer() {
    let mut wm = WindowManager::new();
    assert!(wm.new_window(WindowLayer::Top, xdg(1, XdgRole::Toplevel, None, rect(0, 0, 10, 10))));
    let p = xdg(2, XdgRole::Popup, Some(1), rect(0, 0, 5, 5));
    assert_eq!(wm.layer_for_new_surface(&p), WindowLayer::Top);
    let orphan = xdg(3, XdgRole::Popup, Some(77), rect(0, 0, 5, 5));
    assert_eq!(wm.layer_for_new_surface(&orphan), WindowLayer::Normal);
    let top = xdg(4, XdgRole::Toplevel, None, rect(0, 0, 5, 5));
    assert_eq!(wm.layer_for_new_surface(&top), WindowLayer::Normal);
}

#[test]
fn minimize_targets_are_replaced_per_surface() {
    let mut wm = WindowManager::new();
    assert!(wm.new_window(WindowLayer::Normal, xdg(1, XdgRole::Toplevel, None, rect(0, 0, 10, 10))));
    wm.set_minimize_target(1, 50, rect(0, 0, 32, 32));
    wm.set_minimize_target(1, 51, rect(40, 0, 32, 32));
    wm.set_minimize_target(1, 50, rect(80, 0, 32, 32));
    assert_eq!(
        wm.window(1).unwrap().minimize_targets(),
        &vec![
            MinimizeTarget { surface: 50, rectangle: rect(80, 0, 32, 32) },
            MinimizeTarget { surface: 51, rectangle: rect(40, 0, 32, 32) },
        ]
    );
    wm.set_minimize_target(1, 50, rect(0, 0, 0, 0));
    assert_eq!(
        wm.window(1).unwrap().minimize_targets(),
        &vec![MinimizeTarget { surface: 51, rectangle: rect(40, 0, 32, 32) }]
    );
}

#[test]
fn layout_change_recomputes_every_window() {
    let mut wm = WindowManager::new();
    let mut om = OutputManager::new();
    assert!(wm.new_window(WindowLayer::Normal, xdg(1, XdgRole::Toplevel, None, rect(0, 0, 10, 10))));
    assert!(wm.new_window(WindowLayer::Top, xdg(2, XdgRole::Toplevel, None, rect(0, 0, 10, 10))));
    wm.move_to(2, Point { x: 500, y: 0 }, &om);
    assert!(om.add_output(Output { id: 9, top_left: Point { x: 0, y: 0 }, size: Size { width: 100, height: 100 } }));
    assert!(om.add_output(Output { id: 10, top_left: Point { x: 400, y: 0 }, size: Size { width: 200, height: 100 } }));
    let notices = wm.output_layout_changed(&om);
    assert_eq!(
        notices,
        vec![
            Notice::EnteredOutput { window: 1, output: 9 },
            Notice::EnteredOutput { window: 2, output: 10 },
        ]
    );
    assert_eq!(wm.output_layout_changed(&om), Vec::<Notice>::new());
}

#[test]
fn connecting_an_output_advises_then_recomputes() {
    let mut wm = WindowManager::new();
    let mut om = OutputManager::new();
    assert!(wm.new_window(WindowLayer::Normal, xdg(1, XdgRole::Toplevel, None, rect(0, 0, 10, 10))));
    let out = Output { id: 9, top_left: Point { x: 0, y: 0 }, size: Size { width: 100, height: 100 } };
    assert_eq!(
        wm.add_output(&mut om, out),
        vec![Notice::OutputCreate { output: 9 }, Notice::EnteredOutput { window: 1, output: 9 }]
    );
    assert_eq!(wm.add_output(&mut om, out), Vec::<Notice>::new());
    assert_eq!(om.outputs().len(), 1);
}
