use wlral::geometry::{Point, Rectangle, Size, TDisplacement};
use wlral::layer_shell::{LayerSurfaceState, Margins, LAYER_TOP};
use wlral::notice::Notice;
use wlral::output::{Output, OutputManager};
use wlral::surface::{LayerSurface, Surface, SurfaceFlag, SurfaceState, XdgRole, XdgSurface, XwaylandSurface};
use wlral::window_manager::{WindowLayer, WindowManager};

fn rect(x: i32, y: i32, width: i32, height: i32) -> Rectangle {
    Rectangle { top_left: Point { x, y }, size: Size { width, height } }
}

fn state(id: u64, geometry: Rectangle) -> SurfaceState {
    SurfaceState {
        id,
        geometry,
        buffer: Rectangle { top_left: Point { x: 0, y: 0 }, size: geometry.size },
        activated: false,
        maximized: false,
        fullscreen: false,
        resizing: false,
        close_requested: false,
        requested_size: None,
    }
}

fn toplevel(id: u64, geometry: Rectangle) -> Surface {
    Surface::Xdg(XdgSurface {
        state: state(id, geometry),
        role: XdgRole::Toplevel,
        parent: None,
        popup_offset: TDisplacement { dx: 0, dy: 0 },
        next_serial: 1,
    })
}

fn popup(id: u64, parent: u64, dx: i32, dy: i32, geometry: Rectangle) -> Surface {
    Surface::Xdg(XdgSurface {
        state: state(id, geometry),
        role: XdgRole::Popup,
        parent: Some(parent),
        popup_offset: TDisplacement { dx, dy },
        next_serial: 1,
    })
}

fn panel(id: u64, size: Size, interactive: bool) -> Surface {
    Surface::Layer(LayerSurface {
        state: state(id, Rectangle { top_left: Point { x: 0, y: 0 }, size }),
        keyboard_interactive: interactive,
        output: None,
        client_pending: LayerSurfaceState {
            anchor: 0,
            layer: LAYER_TOP,
            margin: Margins { top: 0, right: 0, bottom: 0, left: 0 },
            keyboard_interactive: interactive,
            desired_width: size.width as u32,
            desired_height: size.height as u32,
        },
    })
}

fn one_output(id: u64, extents: Rectangle) -> OutputManager {
    let mut om = OutputManager::new();
    assert!(om.add_output(Output { id, top_left: extents.top_left, size: extents.size }));
    om
}

#[test]
fn focusable_windows_go_to_the_back_of_their_layer() {
    let mut wm = WindowManager::new();
    assert!(wm.new_window(WindowLayer::Normal, toplevel(1, rect(0, 0, 10, 10))));
    assert!(wm.new_window(WindowLayer::Normal, toplevel(2, rect(0, 0, 10, 10))));
    assert!(wm.new_window(WindowLayer::Normal, popup(3, 1, 0, 0, rect(0, 0, 5, 5))));
    assert!(wm.new_window(WindowLayer::Top, panel(4, Size { width: 100, height: 20 }, false)));
    assert!(wm.new_window(WindowLayer::Background, panel(5, Size { width: 100, height: 100 }, false)));
    assert_eq!(wm.windows(), vec![5, 2, 1, 3, 4]);
    let w = wm.window(1).unwrap();
    assert_eq!(w.layer(), WindowLayer::Normal);
    assert!(!w.mapped());
    assert_eq!(w.top_left(), Point { x: 0, y: 0 });
    assert!(w.outputs().is_empty());
    assert!(w.minimize_targets().is_empty());
}

#[test]
fn duplicate_surface_is_refused() {
    let mut wm = WindowManager::new();
    assert!(wm.new_window(WindowLayer::Normal, toplevel(1, rect(0, 0, 10, 10))));
    assert!(!wm.new_window(WindowLayer::Top, toplevel(1, rect(0, 0, 10, 10))));
    assert_eq!(wm.windows(), vec![1]);
}

#[test]
fn extents_compose_parent_popup_and_shadow_offsets() {
    let mut wm = WindowManager::new();
    let om = OutputManager::new();
    assert!(wm.new_window(WindowLayer::Normal, toplevel(1, rect(5, 6, 200, 100))));
    assert!(wm.new_window(WindowLayer::Normal, popup(2, 1, 30, 40, rect(0, 0, 50, 60))));
    wm.move_to(1, Point { x: 100, y: 100 }, &om);
    // the parent draws a shadow: its visible geometry starts at (5, 6) in
    // its buffer, so the buffer reaches beyond the window
    assert!(wm.apply_client_state(1, rect(5, 6, 200, 100), rect(0, 0, 210, 112)));
    assert_eq!(wm.extents(1), rect(100, 100, 200, 100));
    assert_eq!(wm.buffer_extents(1), rect(95, 94, 210, 112));
    // popup: parent's buffer top-left and geometry offset, plus the popup
    // offset
    assert_eq!(wm.extents(2), rect(130, 140, 50, 60));
    assert_eq!(wm.try_extents(2), Some(rect(130, 140, 50, 60)));
}

#[test]
fn move_to_places_a_plain_window_at_the_point() {
    let mut wm = WindowManager::new();
    let om = one_output(9, rect(0, 0, 1920, 1080));
    assert!(wm.new_window(WindowLayer::Normal, toplevel(1, rect(0, 0, 200, 150))));
    let notices = wm.move_to(1, Point { x: 300, y: 200 }, &om);
    assert_eq!(wm.extents(1).top_left(), Point { x: 300, y: 200 });
    assert_eq!(notices, vec![Notice::EnteredOutput { window: 1, output: 9 }]);
    assert_eq!(wm.window(1).unwrap().outputs(), &vec![9]);
    let notices = wm.move_to(1, Point { x: 5000, y: 200 }, &om);
    assert_eq!(notices, vec![Notice::LeftOutput { window: 1, output: 9 }]);
    assert!(wm.window(1).unwrap().outputs().is_empty());
}

#[test]
fn xwayland_windows_are_told_their_position() {
    let mut wm = WindowManager::new();
    let om = OutputManager::new();
    let s = Surface::Xwayland(XwaylandSurface { state: state(7, rect(0, 0, 40, 30)) });
    assert!(wm.new_window(WindowLayer::Normal, s));
    wm.move_to(7, Point { x: 11, y: 12 }, &om);
    assert_eq!(wm.window(7).unwrap().surface().extents(), rect(11, 12, 40, 30));
    // the reported position is not counted twice
    assert_eq!(wm.extents(7), rect(11, 12, 40, 30));
    wm.move_to(7, Point { x: 30, y: 40 }, &om);
    assert_eq!(wm.extents(7), rect(30, 40, 40, 30));
}

#[test]
fn commit_applies_the_pending_update_of_its_serial() {
    let mut wm = WindowManager::new();
    let om = one_output(9, rect(0, 0, 1920, 1080));
    assert!(wm.new_window(WindowLayer::Normal, toplevel(1, rect(0, 0, 200, 150))));
    let serial = wm.set_extents(1, &rect(50, 60, 300, 200)).unwrap();
    assert_eq!(serial, 1);
    assert_eq!(wm.window(1).unwrap().pending_update(serial), Some(Point { x: 50, y: 60 }));
    assert_eq!(wm.window(1).unwrap().surface().state().requested_size, Some(Size { width: 300, height: 200 }));
    // nothing moves before the client answers
    assert_eq!(wm.extents(1).top_left(), Point { x: 0, y: 0 });
    let notices = wm.commit(1, serial, &om);
    assert_eq!(wm.extents(1).top_left(), Point { x: 50, y: 60 });
    assert_eq!(wm.window(1).unwrap().pending_update(serial), None);
    assert_eq!(
        notices,
        vec![Notice::EnteredOutput { window: 1, output: 9 }, Notice::ConfiguredWindow { window: 1 }]
    );
}

#[test]
fn commit_with_unknown_serial_keeps_position() {
    let mut wm = WindowManager::new();
    let om = OutputManager::new();
    assert!(wm.new_window(WindowLayer::Normal, toplevel(1, rect(0, 0, 20, 20))));
    wm.move_to(1, Point { x: 3, y: 4 }, &om);
    let notices = wm.commit(1, 77, &om);
    assert_eq!(wm.window(1).unwrap().top_left(), Point { x: 3, y: 4 });
    assert_eq!(notices, vec![Notice::ConfiguredWindow { window: 1 }]);
    assert_eq!(wm.commit(42, 1, &om), Vec::<Notice>::new());
}

#[test]
fn focus_brings_to_front_within_the_layer_only() {
    let mut wm = WindowManager::new();
    assert!(wm.new_window(WindowLayer::Normal, toplevel(1, rect(0, 0, 10, 10))));
    assert!(wm.new_window(WindowLayer::Normal, toplevel(2, rect(0, 0, 10, 10))));
    assert!(wm.new_window(WindowLayer::Top, toplevel(3, rect(0, 0, 10, 10))));
    assert_eq!(wm.windows(), vec![2, 1, 3]);
    assert!(wm.focus_window(2));
    assert_eq!(wm.windows(), vec![1, 2, 3]);
    assert_eq!(wm.window(2).unwrap().layer(), WindowLayer::Normal);
    assert!(wm.window(2).unwrap().surface().activated());
    assert!(wm.window_has_focus(2));
    assert!(wm.focus_window(1));
    assert_eq!(wm.windows(), vec![2, 1, 3]);
    assert!(!wm.window(2).unwrap().surface().activated());
    assert_eq!(wm.focused_window(), Some(1));
    assert!(wm.focus_window(3));
    assert_eq!(wm.windows(), vec![2, 1, 3]);
    assert_eq!(wm.window(3).unwrap().layer(), WindowLayer::Top);
}

#[test]
fn unfocusable_windows_are_refused_focus() {
    let mut wm = WindowManager::new();
    assert!(wm.new_window(WindowLayer::Top, panel(3, Size { width: 10, height: 10 }, false)));
    assert!(wm.new_window(WindowLayer::Normal, popup(4, 3, 0, 0, rect(0, 0, 5, 5))));
    assert!(!wm.focus_window(3));
    assert!(!wm.focus_window(4));
    assert!(!wm.focus_window(99));
    assert_eq!(wm.focused_window(), None);
}

#[test]
fn commit_keeps_focus_of_a_window_that_can_take_it() {
    let mut wm = WindowManager::new();
    let om = OutputManager::new();
    // layer surfaces never take focus, even when they ask for keyboard input
    assert!(wm.new_window(WindowLayer::Top, panel(4, Size { width: 10, height: 10 }, true)));
    assert!(!wm.focus_window(4));
    assert!(wm.new_window(WindowLayer::Top, toplevel(3, rect(0, 0, 10, 10))));
    assert!(wm.focus_window(3));
    wm.commit(3, 0, &om);
    assert_eq!(wm.focused_window(), Some(3));
    wm.blur();
    assert_eq!(wm.focused_window(), None);
}

#[test]
fn destroy_removes_the_window_before_the_advice() {
    let mut wm = WindowManager::new();
    assert!(wm.new_window(WindowLayer::Normal, toplevel(1, rect(0, 0, 10, 10))));
    assert!(wm.new_window(WindowLayer::Normal, toplevel(2, rect(0, 0, 10, 10))));
    assert!(wm.focus_window(1));
    assert_eq!(wm.destroy_window(1), vec![Notice::DeleteWindow { window: 1 }]);
    assert_eq!(wm.windows(), vec![2]);
    assert!(wm.window(1).is_none());
    assert_eq!(wm.focused_window(), None);
    assert_eq!(wm.destroy_window(1), Vec::<Notice>::new());
}

#[test]
fn window_at_finds_the_frontmost_window() {
    let mut wm = WindowManager::new();
    let om = OutputManager::new();
    assert!(wm.new_window(WindowLayer::Normal, toplevel(1, rect(0, 0, 100, 100))));
    assert!(wm.new_window(WindowLayer::Normal, toplevel(2, rect(0, 0, 50, 50))));
    assert!(wm.new_window(WindowLayer::Background, panel(3, Size { width: 1000, height: 1000 }, false)));
    assert!(wm.focus_window(2));
    assert_eq!(wm.window_at(&Point { x: 10, y: 10 }), Some(2));
    assert_eq!(wm.window_at(&Point { x: 60, y: 60 }), Some(1));
    assert_eq!(wm.window_at(&Point { x: 500, y: 500 }), Some(3));
    assert_eq!(wm.window_at(&Point { x: 5000, y: 5000 }), None);
    wm.move_to(2, Point { x: 200, y: 200 }, &om);
    assert_eq!(wm.window_at(&Point { x: 10, y: 10 }), Some(1));
}

#[test]
fn removing_an_output_leaves_it_before_the_deletion_advice() {
    let mut wm = WindowManager::new();
    let mut om = one_output(9, rect(0, 0, 1920, 1080));
    assert!(om.add_output(Output { id: 10, top_left: Point { x: 1920, y: 0 }, size: Size { width: 1920, height: 1080 } }));
    assert!(wm.new_window(WindowLayer::Normal, toplevel(1, rect(0, 0, 200, 150))));
    assert!(wm.new_window(WindowLayer::Normal, toplevel(2, rect(0, 0, 200, 150))));
    wm.move_to(1, Point { x: 10, y: 10 }, &om);
    wm.move_to(2, Point { x: 2000, y: 10 }, &om);
    assert_eq!(wm.window(1).unwrap().outputs(), &vec![9]);
    let notices = wm.remove_output(&mut om, 9);
    assert_eq!(
        notices,
        vec![Notice::LeftOutput { window: 1, output: 9 }, Notice::OutputDelete { output: 9 }]
    );
    assert!(wm.window(1).unwrap().outputs().is_empty());
    assert_eq!(wm.window(2).unwrap().outputs(), &vec![10]);
    assert_eq!(om.outputs().len(), 1);
    assert_eq!(wm.remove_output(&mut om, 9), Vec::<Notice>::new());
}

#[test]
fn map_and_unmap() {
    let mut wm = WindowManager::new();
    let om = one_output(9, rect(0, 0, 100, 100));
    assert!(wm.new_window(WindowLayer::Normal, toplevel(1, rect(0, 0, 10, 10))));
    let notices = wm.map_window(1, &om);
    assert_eq!(
        notices,
        vec![Notice::EnteredOutput { window: 1, output: 9 }, Notice::WindowReady { window: 1 }]
    );
    assert!(wm.window(1).unwrap().mapped());
    wm.unmap_window(1);
    assert!(!wm.window(1).unwrap().mapped());
}

#[test]
fn flags_close_and_client_state() {
    let mut wm = WindowManager::new();
    assert!(wm.new_window(WindowLayer::Normal, toplevel(1, rect(0, 0, 10, 10))));
    wm.set_window_flag(1, SurfaceFlag::Maximized, true);
    assert!(wm.window(1).unwrap().surface().maximized());
    wm.set_window_flag(1, SurfaceFlag::Fullscreen, true);
    assert!(wm.window(1).unwrap().surface().fullscreen());
    wm.set_window_flag(1, SurfaceFlag::Resizing, true);
    assert!(wm.window(1).unwrap().surface().resizing());
    wm.ask_client_to_close(1);
    assert!(wm.window(1).unwrap().surface().state().close_requested);
    assert!(!wm.apply_client_state(2, rect(0, 0, 1, 1), rect(0, 0, 1, 1)));
    assert!(wm.new_window(WindowLayer::Top, panel(5, Size { width: 10, height: 10 }, false)));
    assert!(!wm.apply_client_state(5, rect(0, 0, 1, 1), rect(i32::MIN, 0, 1, 1)));
    // a layer surface's shadow correction is the opposite of its buffer offset
    assert!(wm.apply_client_state(5, rect(0, 0, 10, 10), rect(2, 3, 14, 16)));
    assert_eq!(wm.extents(5), rect(2, 3, 10, 10));
    assert_eq!(wm.buffer_extents(5), rect(4, 6, 14, 16));
}

#[test]
fn output_registry_refuses_duplicates() {
    let mut om = one_output(1, rect(0, 0, 10, 10));
    assert!(!om.add_output(Output { id: 1, top_left: Point { x: 5, y: 5 }, size: Size { width: 1, height: 1 } }));
    assert!(!om.add_output(Output { id: 2, top_left: Point { x: i32::MAX, y: 0 }, size: Size { width: 10, height: 1 } }));
    assert_eq!(om.position_of(1), Some(0));
    assert_eq!(om.remove_output(1).map(|o| o.id()), Some(1));
    assert!(om.remove_output(1).is_none());
    let o = Output { id: 3, top_left: Point { x: 1, y: 2 }, size: Size { width: 3, height: 4 } };
    assert_eq!(o.extents(), rect(1, 2, 3, 4));
    assert_eq!(o.top_left(), Point { x: 1, y: 2 });
    assert_eq!(o.size(), Size { width: 3, height: 4 });
}

#[test]
fn window_manager_it_drops_and_cleans_up_on_destroy() {
    let mut wm = WindowManager::new();
    assert!(wm.new_window(WindowLayer::Normal, toplevel(1, rect(0, 0, 10, 10))));

    assert!(wm.windows().len() == 1);
    assert!(wm.window(1).is_some());

    wm.destroy_window(1);

    assert!(wm.windows().len() == 0);
    assert!(wm.window(1).is_none());
}

#[test]
fn output_manager_it_drops_and_cleans_up_on_destroy() {
    let mut wm = WindowManager::new();
    let mut om = OutputManager::new();
    wm.add_output(&mut om, Output { id: 1, top_left: Point { x: 0, y: 0 }, size: Size { width: 0, height: 0 } });
    let output = om.outputs()[0].id();

    wm.remove_output(&mut om, output);

    assert!(om.outputs().len() == 0);
    assert!(om.position_of(output).is_none());
}
