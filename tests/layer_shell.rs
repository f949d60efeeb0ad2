use wlral::geometry::{Point, Rectangle, Size};
use wlral::layer_shell::{
    anchored_extents, new_layer_surface, update_anchor_edges, LayerRefusal, LayerSurfaceState,
    Margins, LAYER_BOTTOM, LAYER_OVERLAY,
};
use wlral::output::{Output, OutputManager};
use wlral::policy::{WindowEdge, EDGE_BOTTOM, EDGE_LEFT, EDGE_RIGHT, EDGE_TOP};
use wlral::surface::{LayerSurface, Surface, SurfaceState};
use wlral::window_manager::{WindowLayer, WindowManager};

fn rect(x: i32, y: i32, width: i32, height: i32) -> Rectangle {
    Rectangle { top_left: Point { x, y }, size: Size { width, height } }
}

fn output() -> Output {
    Output { id: 9, top_left: Point { x: 100, y: 0 }, size: Size { width: 1000, height: 800 } }
}

fn no_margins() -> Margins {
    Margins { top: 0, right: 0, bottom: 0, left: 0 }
}

fn layer_surface(id: u64, anchor: u32, layer: u32, size: Size, output: Option<u64>) -> LayerSurface {
    LayerSurface {
        state: SurfaceState {
            id,
            geometry: Rectangle { top_left: Point { x: 0, y: 0 }, size },
            buffer: Rectangle { top_left: Point { x: 0, y: 0 }, size },
            activated: false,
            maximized: false,
            fullscreen: false,
            resizing: false,
            close_requested: false,
            requested_size: None,
        },
        keyboard_interactive: false,
        output,
        client_pending: LayerSurfaceState {
            anchor,
            layer,
            margin: Margins { top: 5, right: 0, bottom: 0, left: 10 },
            keyboard_interactive: false,
            desired_width: size.width as u32,
            desired_height: size.height as u32,
        },
    }
}

#[test]
fn panel_anchored_to_top_left_and_right_stretches() {
    let edges = WindowEdge::from_bits_truncate(EDGE_TOP | EDGE_LEFT | EDGE_RIGHT);
    let m = Margins { top: 5, right: 20, bottom: 0, left: 10 };
    let r = anchored_extents(&output(), Size { width: 0, height: 30 }, edges, m);
    assert_eq!(r, Some(rect(110, 5, 970, 30)));
}

#[test]
fn unanchored_surface_is_centered() {
    let edges = WindowEdge::from_bits_truncate(0);
    let r = anchored_extents(&output(), Size { width: 201, height: 100 }, edges, no_margins());
    // 100 + 1000 / 2 - 201 / 2, 0 + 800 / 2 - 100 / 2
    assert_eq!(r, Some(rect(500, 350, 201, 100)));
}

#[test]
fn bottom_right_anchor_keeps_margins() {
    let edges = WindowEdge::from_bits_truncate(EDGE_BOTTOM | EDGE_RIGHT);
    let m = Margins { top: 0, right: 7, bottom: 3, left: 0 };
    let r = anchored_extents(&output(), Size { width: 50, height: 40 }, edges, m);
    assert_eq!(r, Some(rect(1043, 757, 50, 40)));
    let full = WindowEdge::from_bits_truncate(EDGE_TOP | EDGE_BOTTOM | EDGE_LEFT | EDGE_RIGHT);
    assert_eq!(anchored_extents(&output(), Size { width: 1, height: 1 }, full, no_margins()), Some(rect(100, 0, 1000, 800)));
}

#[test]
fn layer_values_and_edges() {
    let mut st = LayerSurfaceState {
        anchor: EDGE_TOP | EDGE_RIGHT,
        layer: LAYER_OVERLAY,
        margin: no_margins(),
        keyboard_interactive: false,
        desired_width: 0,
        desired_height: 0,
    };
    assert_eq!(st.layer(), Ok(WindowLayer::Overlay));
    assert_eq!(st.attached_edges(), WindowEdge { top: true, bottom: false, left: false, right: true });
    st.set_attached_edges(WindowEdge { top: false, bottom: true, left: true, right: false });
    assert_eq!(st.anchor, EDGE_BOTTOM | EDGE_LEFT);
    st.layer = 17;
    assert_eq!(st.layer(), Err(()));
}

#[test]
fn new_layer_surface_gets_an_output_and_is_placed() {
    let mut wm = WindowManager::new();
    let mut om = OutputManager::new();
    assert!(om.add_output(output()));
    let s = layer_surface(4, EDGE_TOP | EDGE_LEFT, LAYER_BOTTOM, Size { width: 300, height: 30 }, None);
    assert!(new_layer_surface(&mut wm, &om, s).is_ok());
    let w = wm.window(4).unwrap();
    assert_eq!(w.layer(), WindowLayer::Bottom);
    match w.surface() {
        Surface::Layer(l) => {
            assert_eq!(l.output, Some(9));
            assert_eq!(l.state.requested_size, Some(Size { width: 300, height: 30 }));
        }
        _ => panic!("not a layer surface"),
    }
    assert_eq!(wm.extents(4), rect(110, 5, 300, 30));
}

#[test]
fn new_layer_surface_refusals() {
    let mut wm = WindowManager::new();
    let empty = OutputManager::new();
    let s = layer_surface(4, 0, LAYER_BOTTOM, Size { width: 3, height: 3 }, None);
    assert_eq!(new_layer_surface(&mut wm, &empty, s), Err(LayerRefusal::NoOutput));
    let mut om = OutputManager::new();
    assert!(om.add_output(output()));
    let s = layer_surface(4, 0, LAYER_BOTTOM, Size { width: 3, height: 3 }, Some(1));
    assert_eq!(new_layer_surface(&mut wm, &om, s), Err(LayerRefusal::UnknownOutput));
    let s = layer_surface(4, 0, 9, Size { width: 3, height: 3 }, Some(9));
    assert_eq!(new_layer_surface(&mut wm, &om, s), Err(LayerRefusal::UnknownLayer));
    assert!(wm.windows().is_empty());
}

#[test]
fn layer_surface_whose_output_is_gone_is_asked_to_close() {
    let mut wm = WindowManager::new();
    let mut om = OutputManager::new();
    assert!(om.add_output(output()));
    let s = layer_surface(4, EDGE_TOP, LAYER_BOTTOM, Size { width: 3, height: 3 }, Some(9));
    assert!(new_layer_surface(&mut wm, &om, s).is_ok());
    wm.remove_output(&mut om, 9);
    update_anchor_edges(&mut wm, &om, 4);
    assert!(wm.window(4).unwrap().surface().state().close_requested);
}
