use crate::geometry::{half_toward_zero, in_i32, Point, Rectangle, Size, TPoint};
use crate::output::Output;
use crate::policy::{WindowEdge, EDGE_BOTTOM, EDGE_LEFT, EDGE_RIGHT, EDGE_TOP};
use crate::notice::Notice;
use crate::output::{has_output, OutputManager};
use crate::surface::{LayerSurface, Surface};
use crate::window_manager::{ids_of, WindowLayer, WindowManager};
use vstd::prelude::*;

verus! {

/// The protocol value of the background layer.
pub const LAYER_BACKGROUND: u32 = 0;

/// The protocol value of the bottom layer.
pub const LAYER_BOTTOM: u32 = 1;

/// The protocol value of the top layer.
pub const LAYER_TOP: u32 = 2;

/// The protocol value of the overlay layer.
pub const LAYER_OVERLAY: u32 = 3;

/// Distances that a layer surface keeps from the edges it is attached to.
#[derive(Debug, Clone, Copy, PartialEq, Eq)]
pub struct Margins {
    pub top: u32,
    pub right: u32,
    pub bottom: u32,
    pub left: u32,
}

/// What a layer-shell client asks for: the edges it is anchored to, its
/// layer, its margins and its size.
#[derive(Debug, Clone, Copy, PartialEq, Eq)]
pub struct LayerSurfaceState {
    /// Raw edge bits.
    pub anchor: u32,
    /// Raw layer value.
    pub layer: u32,
    pub margin: Margins,
    pub keyboard_interactive: bool,
    pub desired_width: u32,
    pub desired_height: u32,
}

/// The stacking layer a raw protocol value names.
pub open spec fn layer_of(raw: u32) -> Option<WindowLayer> {
    if raw == LAYER_BACKGROUND {
        Some(WindowLayer::Background)
    } else if raw == LAYER_BOTTOM {
        Some(WindowLayer::Bottom)
    } else if raw == LAYER_TOP {
        Some(WindowLayer::Top)
    } else if raw == LAYER_OVERLAY {
        Some(WindowLayer::Overlay)
    } else {
        None
    }
}

impl LayerSurfaceState {
    pub open spec fn attached_edges_spec(&self) -> WindowEdge {
        WindowEdge {
            top: self.anchor & EDGE_TOP != 0,
            bottom: self.anchor & EDGE_BOTTOM != 0,
            left: self.anchor & EDGE_LEFT != 0,
            right: self.anchor & EDGE_RIGHT != 0,
        }
    }

    /// The edges the surface is anchored to.
    pub fn attached_edges(&self) -> (r: WindowEdge)
        ensures
            r == self.attached_edges_spec(),
    {
        WindowEdge::from_bits_truncate(self.anchor)
    }

    /// Anchors the surface to the given edges.
    pub fn set_attached_edges(&mut self, edges: WindowEdge)
        ensures
            final(self).anchor == (if edges.top { EDGE_TOP } else { 0 }) + (if edges.bottom {
                EDGE_BOTTOM
            } else {
                0
            }) + (if edges.left { EDGE_LEFT } else { 0 }) + (if edges.right { EDGE_RIGHT } else { 0 }),
            final(self).layer == old(self).layer,
            final(self).margin == old(self).margin,
    {
        let mut bits: u32 = 0;
        if edges.top {
            bits = bits + EDGE_TOP;
        }
        if edges.bottom {
            bits = bits + EDGE_BOTTOM;
        }
        if edges.left {
            bits = bits + EDGE_LEFT;
        }
        if edges.right {
            bits = bits + EDGE_RIGHT;
        }
        self.anchor = bits;
    }

    /// The stacking layer asked for; an unknown value is an error.
    pub fn layer(&self) -> (r: Result<WindowLayer, ()>)
        ensures
            r == (match layer_of(self.layer) {
                Some(l) => Ok(l),
                None => Err(()),
            }),
    {
        if self.layer == LAYER_BACKGROUND {
            Ok(WindowLayer::Background)
        } else if self.layer == LAYER_BOTTOM {
            Ok(WindowLayer::Bottom)
        } else if self.layer == LAYER_TOP {
            Ok(WindowLayer::Top)
        } else if self.layer == LAYER_OVERLAY {
            Ok(WindowLayer::Overlay)
        } else {
            Err(())
        }
    }
}

/// Where a layer surface of size `size` goes on output `o`: anchored to
/// both edges of an axis it stretches between the margins; anchored to one
/// edge it keeps the margin from it; anchored to neither it is centered.
/// The result is `(x, y, width, height)`.
pub open spec fn anchored(o: Output, size: Size, edges: WindowEdge, m: Margins) -> (int, int, int, int) {
    let h = if edges.top && edges.bottom {
        o.size.height - (m.top + m.bottom)
    } else {
        size.height as int
    };
    let w = if edges.left && edges.right {
        o.size.width - (m.left + m.right)
    } else {
        size.width as int
    };
    let y = if edges.top {
        o.top_left.y + m.top
    } else if edges.bottom {
        o.top_left.y + o.size.height - h - m.bottom
    } else {
        o.top_left.y + half_toward_zero(o.size.height as int) - half_toward_zero(h)
    };
    let x = if edges.left {
        o.top_left.x + m.left
    } else if edges.right {
        o.top_left.x + o.size.width - w - m.right
    } else {
        o.top_left.x + half_toward_zero(o.size.width as int) - half_toward_zero(w)
    };
    (x, y, w, h)
}

fn half_i64(v: i64) -> (r: i64)
    requires
        i64::MIN < v,
    ensures
        r == half_toward_zero(v as int),
{
    v / 2
}

/// The extents of an anchored layer surface, when they can be represented.
pub fn anchored_extents(o: &Output, size: Size, edges: WindowEdge, m: Margins) -> (r: Option<Rectangle>)
    ensures
        ({
            let v = anchored(*o, size, edges, m);
            r == (if in_i32(v.0) && in_i32(v.1) && in_i32(v.2) && in_i32(v.3) {
                Some(Rectangle {
                    top_left: TPoint { x: v.0 as i32, y: v.1 as i32 },
                    size: Size { width: v.2 as i32, height: v.3 as i32 },
                })
            } else {
                None
            })
        }),
{
    let oh = o.size.height as i64;
    let ow = o.size.width as i64;
    let h: i64 = if edges.top && edges.bottom {
        oh - (m.top as i64 + m.bottom as i64)
    } else {
        size.height as i64
    };
    let w: i64 = if edges.left && edges.right {
        ow - (m.left as i64 + m.right as i64)
    } else {
        size.width as i64
    };
    let y: i64 = if edges.top {
        o.top_left.y as i64 + m.top as i64
    } else if edges.bottom {
        o.top_left.y as i64 + oh - h - m.bottom as i64
    } else {
        o.top_left.y as i64 + half_i64(oh) - half_i64(h)
    };
    let x: i64 = if edges.left {
        o.top_left.x as i64 + m.left as i64
    } else if edges.right {
        o.top_left.x as i64 + ow - w - m.right as i64
    } else {
        o.top_left.x as i64 + half_i64(ow) - half_i64(w)
    };
    let lo = i32::MIN as i64;
    let hi = i32::MAX as i64;
    if lo <= x && x <= hi && lo <= y && y <= hi && lo <= w && w <= hi && lo <= h && h <= hi {
        Some(
            Rectangle {
                top_left: TPoint { x: x as i32, y: y as i32 },
                size: Size { width: w as i32, height: h as i32 },
            },
        )
    } else {
        None
    }
}

/// Why a new layer surface was turned away; its client is to be asked to
/// close it.
#[derive(Debug, Clone, Copy, PartialEq, Eq, Structural)]
pub enum LayerRefusal {
    /// The surface named no output and there is none to give it.
    NoOutput,
    /// The surface named an output that is not connected.
    UnknownOutput,
    /// The surface asked for a layer that does not exist.
    UnknownLayer,
    /// The surface is already known, or its buffer cannot be placed.
    Refused,
}

/// The window's layer surface, if it is one.
pub open spec fn layer_surface_of(s: Surface) -> Option<LayerSurface> {
    match s {
        Surface::Layer(l) => Some(l),
        _ => None,
    }
}

/// Places a layer surface on its output as its anchors and margins say:
/// the client is asked for the new size when it was never configured or
/// the size changes, and the window moves to the anchored position. A
/// layer surface whose output is gone is asked to close. Other windows,
/// and placements that cannot be represented, are left alone.
pub fn update_anchor_edges(wm: &mut WindowManager, outputs: &OutputManager, window: u64) -> (notices: Vec<Notice>)
    requires
        old(wm).wf(),
        outputs.wf(),
    ensures
        final(wm).wf(),
        forall|l: WindowLayer| ids_of(#[trigger] final(wm).layer_view(l)) == ids_of(old(wm).layer_view(l)),
        ({
            let w = old(wm).window_spec(window);
            let closed = final(wm).contains_id(window)
                && final(wm).window_spec(window).surface_spec().state_spec().close_requested
                && final(wm).window_spec(window).top_left_spec() == w.top_left_spec()
                && final(wm).window_spec(window).pending_spec() == w.pending_spec()
                && final(wm).only_changed(old(wm), window);
            old(wm).contains_id(window) ==> match layer_surface_of(w.surface_spec()) {
                Some(ls) => match ls.output {
                    Some(oid) => if has_output(outputs.outputs_spec(), oid) {
                        let o = outputs.outputs_spec()[choose|k: int| 0 <= k < outputs.outputs_spec().len() && (#[trigger] outputs.outputs_spec()[k]).id == oid];
                        let e = old(wm).extents_spec(window);
                        let v = anchored(o, e.size, ls.client_pending.attached_edges_spec(), ls.client_pending.margin);
                        old(wm).extents_fit(window) && in_i32(v.0) && in_i32(v.1) && in_i32(v.2) && in_i32(v.3) ==> {
                            &&& final(wm).contains_id(window)
                            &&& final(wm).window_spec(window).top_left_spec() == TPoint { x: v.0 as i32, y: v.1 as i32 }
                            &&& (ls.state.requested_size.is_none() || v.2 != e.size.width || v.3 != e.size.height)
                                ==> final(wm).window_spec(window).surface_spec().state_spec().requested_size
                                == Some(Size { width: v.2 as i32, height: v.3 as i32 })
                        }
                    } else {
                        closed
                    },
                    None => closed,
                },
                None => true,
            }
        }),
{
    let (out_id, pending, configured) = match wm.window(window) {
        Some(w) => match w.surface() {
            Surface::Layer(s) => (s.output, s.client_pending, s.state.requested_size.is_some()),
            _ => return Vec::new(),
        },
        None => return Vec::new(),
    };
    proof {
        wm.lemma_window_spec_valid(window);
    }
    let k = match out_id {
        Some(oid) => outputs.position_of(oid),
        None => None,
    };
    let o = match k {
        Some(k) => outputs.outputs()[k],
        None => {
            let ghost prev = *wm;
            wm.ask_client_to_close(window);
            proof {
                wm.lemma_same_shape(&prev);
            }
            return Vec::new();
        },
    };
    proof {
        let oid = out_id.unwrap();
        let c = choose|c: int| 0 <= c < outputs.outputs_spec().len() && (#[trigger] outputs.outputs_spec()[c]).id == oid;
        assert(c == k.unwrap() as int) by {
            if c != k.unwrap() as int {
                assert(outputs.outputs_spec()[c].id != outputs.outputs_spec()[k.unwrap() as int].id);
            }
        }
    }
    let e = match wm.try_extents(window) {
        Some(e) => e,
        None => return Vec::new(),
    };
    let target = match anchored_extents(&o, e.size, pending.attached_edges(), pending.margin) {
        Some(t) => t,
        None => return Vec::new(),
    };
    let ghost before = wm.window_spec(window);
    let ghost start = *wm;
    if !configured || target.size.width != e.size.width || target.size.height != e.size.height {
        wm.resize_window(window, target.size);
        proof {
            wm.lemma_same_shape(&start);
            let a = wm.window_spec(window).surface_spec();
            let serial = choose|serial: u32| #[trigger] before.surface_spec().resize_spec(target.size, a, serial);
            before.surface_spec().lemma_resize_spec(target.size, a, serial);
        }
    }
    let ghost mid = wm.window_spec(window);
    let ghost mid_wm = *wm;
    let notices = wm.move_to(window, target.top_left, outputs);
    proof {
        wm.lemma_same_shape(&mid_wm);
        mid.surface_spec().lemma_move_to_spec(target.top_left, wm.window_spec(window).surface_spec());
    }
    notices
}

/// Whether a layer surface naming `named` can be given an output.
pub open spec fn output_admits(outs: Seq<Output>, named: Option<u64>) -> bool {
    match named {
        None => outs.len() > 0,
        Some(oid) => has_output(outs, oid),
    }
}

/// The output a new layer surface is placed on: the one it names, or the
/// first output.
pub open spec fn assigned_output(outs: Seq<Output>, named: Option<u64>) -> Output {
    let oid = match named {
        Some(oid) => oid,
        None => outs[0].id,
    };
    outs[choose|c: int| 0 <= c < outs.len() && (#[trigger] outs[c]).id == oid]
}

/// Admits a new layer surface: one that names no output gets the first
/// output; then the surface becomes a window in the layer it asked for and
/// is placed by its anchors. A surface is refused when there is no output
/// to give it, when it names an unknown output or layer, or when the
/// window manager refuses it.
pub fn new_layer_surface(wm: &mut WindowManager, outputs: &OutputManager, surface: LayerSurface) -> (r: Result<Vec<Notice>, LayerRefusal>)
    requires
        old(wm).wf(),
        outputs.wf(),
    ensures
        final(wm).wf(),
        (surface.output is None && outputs.outputs_spec().len() == 0) <==> r == Err::<Vec<Notice>, LayerRefusal>(LayerRefusal::NoOutput),
        (surface.output matches Some(oid) && !has_output(outputs.outputs_spec(), oid)) <==> r == Err::<Vec<Notice>, LayerRefusal>(LayerRefusal::UnknownOutput),
        r is Err ==> final(wm).same_state(old(wm)),
        ({
            let output_ok = match surface.output {
                None => outputs.outputs_spec().len() > 0,
                Some(oid) => has_output(outputs.outputs_spec(), oid),
            };
            output_ok ==> ((layer_of(surface.client_pending.layer) is None) <==> r == Err::<Vec<Notice>, LayerRefusal>(LayerRefusal::UnknownLayer))
        }),
        r is Ok <==> (output_admits(outputs.outputs_spec(), surface.output) && layer_of(
            surface.client_pending.layer,
        ) is Some && !old(wm).contains_id(surface.state.id) && Surface::Layer(surface).wf()),
        r is Ok ==> final(wm).contains_id(surface.state.id)
            && final(wm).window_spec(surface.state.id).layer_spec() == layer_of(surface.client_pending.layer).unwrap(),
        r is Ok ==> ({
            let o = assigned_output(outputs.outputs_spec(), surface.output);
            let v = anchored(
                o,
                surface.state.geometry.size,
                surface.client_pending.attached_edges_spec(),
                surface.client_pending.margin,
            );
            (Rectangle { top_left: surface.state.buffer.top_left, size: surface.state.geometry.size }).wf()
                && in_i32(v.0) && in_i32(v.1) && in_i32(v.2) && in_i32(v.3)
                ==> final(wm).window_spec(surface.state.id).top_left_spec() == TPoint { x: v.0 as i32, y: v.1 as i32 }
        }),
{
    let mut s = surface;
    match s.output {
        None => {
            if outputs.outputs().len() == 0 {
                proof { assert(wm.same_state(old(wm))); }
                return Err(LayerRefusal::NoOutput);
            }
            s.output = Some(outputs.outputs()[0].id);
        },
        Some(oid) => {
            if outputs.position_of(oid).is_none() {
                proof { assert(wm.same_state(old(wm))); }
                return Err(LayerRefusal::UnknownOutput);
            }
        },
    }
    let layer = match s.client_pending.layer() {
        Ok(l) => l,
        Err(_) => {
            proof { assert(wm.same_state(old(wm))); }
            return Err(LayerRefusal::UnknownLayer);
        },
    };
    let id = s.state.id;
    if !wm.new_window(layer, Surface::Layer(s)) {
        proof { assert(wm.same_state(old(wm))); }
        return Err(LayerRefusal::Refused);
    }
    let ghost placed = *wm;
    proof {
        let (l, i) = choose|l: WindowLayer, i: int|
            0 <= i < placed.layer_view(l).len() && (#[trigger] placed.layer_view(l)[i]).id_spec() == id;
        placed.lemma_window_spec(l, i);
        let outs = outputs.outputs_spec();
        if surface.output is None {
            assert(outs[0].id == outs[0].id);
            assert(has_output(outs, outs[0].id));
        }
        let w = placed.window_spec(id);
        assert(w.surface_spec() == Surface::Layer(s));
        let d = placed.position_displacement_spec(w, placed.chain_fuel());
        assert(placed.parent_window(w).is_none());
        assert(d == (s.state.buffer.top_left.x as int, s.state.buffer.top_left.y as int));
    }
    let notices = update_anchor_edges(wm, outputs, id);
    proof {
        wm.lemma_ids_kept(&placed, id);
    }
    Ok(notices)
}

} // verus!
