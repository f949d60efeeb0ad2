use crate::events::ButtonState;
use crate::geometry::{half_toward_zero, in_i32, Point, Rectangle, Size, TPoint};
use crate::membership::membership_after;
use crate::notice::Notice;
use crate::output::{has_output, Output, OutputManager};
use crate::surface::{configured_serial, configured_surface, with_flag, xwayland_keeps, SurfaceFlag};
use crate::surface::Surface;
use crate::window::Window;
use crate::window_manager::WindowManager;
use std::collections::BTreeMap;
use vstd::prelude::*;

verus! {

broadcast use vstd::laws_cmp::group_laws_cmp, vstd::std_specs::btree::group_btree_axioms;

/// The raw bit of the top edge.
pub const EDGE_TOP: u32 = 1;

/// The raw bit of the bottom edge.
pub const EDGE_BOTTOM: u32 = 2;

/// The raw bit of the left edge.
pub const EDGE_LEFT: u32 = 4;

/// The raw bit of the right edge.
pub const EDGE_RIGHT: u32 = 8;

/// The edges of a window that an interactive resize drags.
#[derive(Debug, Clone, Copy, PartialEq, Eq, Structural)]
pub struct WindowEdge {
    pub top: bool,
    pub bottom: bool,
    pub left: bool,
    pub right: bool,
}

impl WindowEdge {
    /// The edges named by the known bits; other bits are dropped.
    pub fn from_bits_truncate(bits: u32) -> (r: WindowEdge)
        ensures
            r.top == (bits & EDGE_TOP != 0),
            r.bottom == (bits & EDGE_BOTTOM != 0),
            r.left == (bits & EDGE_LEFT != 0),
            r.right == (bits & EDGE_RIGHT != 0),
    {
        WindowEdge {
            top: bits & EDGE_TOP != 0,
            bottom: bits & EDGE_BOTTOM != 0,
            left: bits & EDGE_LEFT != 0,
            right: bits & EDGE_RIGHT != 0,
        }
    }
}

/// Who asked for a change: the application itself, or another client
/// through a foreign toplevel handle.
#[derive(Debug, Clone, Copy, PartialEq, Eq, Structural)]
pub enum RequestOriginator {
    Application,
    Foreign(u64),
}

/// A client's request to move its window interactively.
#[derive(Debug, Clone, Copy, PartialEq, Eq)]
pub struct MoveRequest {
    pub window: u64,
    /// Where on the window the drag started, in window coordinates.
    pub drag_point: Point,
}

/// A client's request to resize its window interactively.
#[derive(Debug, Clone, Copy, PartialEq, Eq)]
pub struct ResizeRequest {
    pub window: u64,
    /// Where the cursor was when the resize started.
    pub cursor_position: Point,
    pub edges: WindowEdge,
}

/// A request from another client to activate a window.
#[derive(Debug, Clone, Copy, PartialEq, Eq)]
pub struct ActivateRequest {
    pub window: u64,
    pub originator: RequestOriginator,
}

/// A request from another client to close a window.
#[derive(Debug, Clone, Copy, PartialEq, Eq)]
pub struct CloseRequest {
    pub window: u64,
    pub originator: RequestOriginator,
}

/// A request to minimize a window or bring it back.
#[derive(Debug, Clone, Copy, PartialEq, Eq)]
pub struct MinimizeRequest {
    pub window: u64,
    pub minimize: bool,
    pub originator: RequestOriginator,
}

/// A request to maximize or restore a window.
#[derive(Debug, Clone, Copy, PartialEq, Eq)]
pub struct MaximizeRequest {
    pub window: u64,
    pub maximize: bool,
    pub originator: RequestOriginator,
}

/// A request to make a window fullscreen, on a given output or not, or to
/// restore it.
#[derive(Debug, Clone, Copy, PartialEq, Eq)]
pub struct FullscreenRequest {
    pub window: u64,
    pub fullscreen: bool,
    pub output: Option<u64>,
    pub originator: RequestOriginator,
}

/// An interactive move or resize, from its request to the next button
/// release.
#[derive(Debug, Clone, Copy, PartialEq, Eq)]
pub enum Gesture {
    Move(MoveRequest),
    /// The request and the window's extents when it came.
    Resize(ResizeRequest, Rectangle),
}

/// Extents after a resize drag by `(dx, dy)`: a dragged top edge moves the
/// top and shrinks the height, a dragged bottom edge grows the height, and
/// the same on the other axis. When both edges of an axis are set, the top
/// or left one wins.
pub open spec fn resized(orig: Rectangle, edges: WindowEdge, dx: int, dy: int) -> (
    int,
    int,
    int,
    int,
) {
    let (y, h) = if edges.top {
        (orig.top_left.y + dy, orig.size.height - dy)
    } else if edges.bottom {
        (orig.top_left.y as int, orig.size.height + dy)
    } else {
        (orig.top_left.y as int, orig.size.height as int)
    };
    let (x, w) = if edges.left {
        (orig.top_left.x + dx, orig.size.width - dx)
    } else if edges.right {
        (orig.top_left.x as int, orig.size.width + dx)
    } else {
        (orig.top_left.x as int, orig.size.width as int)
    };
    (x, y, w, h)
}

/// The rectangle given by four integers that fit.
pub open spec fn rect_of(v: (int, int, int, int)) -> Rectangle {
    Rectangle {
        top_left: TPoint { x: v.0 as i32, y: v.1 as i32 },
        size: Size { width: v.2 as i32, height: v.3 as i32 },
    }
}

pub open spec fn fits4(v: (int, int, int, int)) -> bool {
    in_i32(v.0) && in_i32(v.1) && in_i32(v.2) && in_i32(v.3)
}

/// Extents after a resize drag, when they can be represented.
pub fn resize_extents(orig: &Rectangle, edges: WindowEdge, dx: i32, dy: i32) -> (r: Option<
    Rectangle,
>)
    ensures
        r == (if fits4(resized(*orig, edges, dx as int, dy as int)) {
            Some(rect_of(resized(*orig, edges, dx as int, dy as int)))
        } else {
            None
        }),
{
    let mut y: i64 = orig.top_left.y as i64;
    let mut h: i64 = orig.size.height as i64;
    if edges.top {
        y = y + dy as i64;
        h = h - dy as i64;
    } else if edges.bottom {
        h = h + dy as i64;
    }
    let mut x: i64 = orig.top_left.x as i64;
    let mut w: i64 = orig.size.width as i64;
    if edges.left {
        x = x + dx as i64;
        w = w - dx as i64;
    } else if edges.right {
        w = w + dx as i64;
    }
    let lo = i32::MIN as i64;
    let hi = i32::MAX as i64;
    if lo <= x && x <= hi && lo <= y && y <= hi && lo <= w && w <= hi && lo <= h && h <= hi {
        Some(
            Rectangle {
                top_left: TPoint { x: x as i32, y: y as i32 },
                size: Size { width: w as i32, height: h as i32 },
            },
        )
    } else {
        None
    }
}

/// The top-left corner that centers a window of the given size on the
/// output, rounding toward zero.
pub open spec fn centered(o: Output, size: Size) -> (int, int) {
    (
        o.top_left.x + half_toward_zero(o.size.width - size.width),
        o.top_left.y + half_toward_zero(o.size.height - size.height),
    )
}

/// The corner that centers a window on an output, when it can be
/// represented.
pub fn center_on(o: &Output, size: Size) -> (r: Option<Point>)
    ensures
        r == (if in_i32(centered(*o, size).0) && in_i32(centered(*o, size).1) {
            Some(TPoint { x: centered(*o, size).0 as i32, y: centered(*o, size).1 as i32 })
        } else {
            None
        }),
{
    let dw = o.size.width as i64 - size.width as i64;
    let dh = o.size.height as i64 - size.height as i64;
    let x = o.top_left.x as i64 + dw / 2;
    let y = o.top_left.y as i64 + dh / 2;
    if i32::MIN as i64 <= x && x <= i32::MAX as i64 && i32::MIN as i64 <= y && y <= i32::MAX as i64 {
        Some(TPoint { x: x as i32, y: y as i32 })
    } else {
        None
    }
}

/// The output a window belongs to: the first that its extents overlap,
/// or else the first output.
pub open spec fn output_for(outs: Seq<Output>, ext: Rectangle) -> Option<Output> {
    if exists|k: int| 0 <= k < outs.len() && (#[trigger] outs[k]).extents_spec().overlaps_spec(&ext) {
        let k = choose|k: int|
            0 <= k < outs.len() && (#[trigger] outs[k]).extents_spec().overlaps_spec(&ext) && forall|
                j: int,
            |
                0 <= j < k ==> !(#[trigger] outs[j]).extents_spec().overlaps_spec(&ext);
        Some(outs[k])
    } else if outs.len() > 0 {
        Some(outs[0])
    } else {
        None
    }
}

/// A floating window-management policy: new windows are centered and
/// focused, clients may move and resize their windows interactively while
/// they hold focus, and maximized or fullscreen windows remember the
/// extents to restore.
pub struct FloatingPolicy {
    gesture: Option<Gesture>,
    restore_size: BTreeMap<u64, Rectangle>,
}

impl FloatingPolicy {
    pub closed spec fn gesture_spec(&self) -> Option<Gesture> {
        self.gesture
    }

    /// Window id to the extents it had before it was maximized or made
    /// fullscreen.
    pub closed spec fn restore_spec(&self) -> Map<u64, Rectangle> {
        self.restore_size@
    }

    pub fn new() -> (r: FloatingPolicy)
        ensures
            r.gesture_spec().is_none(),
            r.restore_spec() == Map::<u64, Rectangle>::empty(),
    {
        FloatingPolicy { gesture: None, restore_size: BTreeMap::new() }
    }

    pub fn gesture(&self) -> (r: Option<Gesture>)
        ensures
            r == self.gesture_spec(),
    {
        self.gesture
    }

    /// The extents a window will be restored to, if any.
    pub fn restore_extents(&self, window: u64) -> (r: Option<Rectangle>)
        ensures
            r == (if self.restore_spec().contains_key(window) {
                Some(self.restore_spec()[window])
            } else {
                None
            }),
    {
        match self.restore_size.get(&window) {
            Some(r) => Some(*r),
            None => None,
        }
    }

    /// The output a window belongs to.
    pub fn output_for_window(wm: &WindowManager, outputs: &OutputManager, window: u64) -> (r:
        Option<Output>)
        requires
            wm.wf(),
            outputs.wf(),
            wm.contains_id(window),
        ensures
            r == output_for(outputs.outputs_spec(), wm.membership_extents(window)),
    {
        let ext = match wm.try_extents(window) {
            Some(e) => e,
            None => Rectangle::zero(),
        };
        let ghost e = wm.membership_extents(window);
        let outs = outputs.outputs();
        let mut k: usize = 0;
        while k < outs.len()
            invariant
                0 <= k <= outs@.len(),
                outs@ == outputs.outputs_spec(),
                outputs.wf(),
                ext == e,
                e == wm.membership_extents(window),
                ext.wf(),
                forall|j: int| 0 <= j < k ==> !(#[trigger] outs@[j]).extents_spec().overlaps_spec(&e),
            decreases outs@.len() - k,
        {
            proof {
                assert(outputs.outputs_spec()[k as int].wf());
            }
            if outs[k].extents().overlaps(&ext) {
                proof {
                    let ks = k as int;
                    assert(0 <= ks < outs@.len() && outs@[ks].extents_spec().overlaps_spec(&e)
                        && forall|j: int| 0 <= j < ks ==> !(#[trigger] outs@[j]).extents_spec().overlaps_spec(&e));
                    let c = choose|c: int|
                        0 <= c < outs@.len() && (#[trigger] outs@[c]).extents_spec().overlaps_spec(&e)
                            && forall|j: int|
                            0 <= j < c ==> !(#[trigger] outs@[j]).extents_spec().overlaps_spec(&e);
                    assert(c == ks) by {
                        if c < ks {
                            assert(!outs@[c].extents_spec().overlaps_spec(&e));
                        } else if c > ks {
                            assert(!outs@[ks].extents_spec().overlaps_spec(&e));
                        }
                    }
                    assert(output_for(outs@, e) == Some(outs@[ks]));
                }
                let found = outs[k];
                assert(found == outs@[k as int]);
                return Some(found);
            }
            k = k + 1;
        }
        if outs.len() > 0 {
            Some(outs[0])
        } else {
            None
        }
    }

    /// Places a window that became ready: a window that can take focus is
    /// centered on its output, when that position can be represented, and
    /// focused; any other window is left alone.
    pub fn handle_window_ready(&mut self, wm: &mut WindowManager, outputs: &OutputManager, window: u64) -> (notices: Vec<Notice>)
        requires
            old(wm).wf(),
            outputs.wf(),
        ensures
            final(wm).wf(),
            final(self).gesture_spec() == old(self).gesture_spec(),
            final(self).restore_spec() == old(self).restore_spec(),
            !(old(wm).contains_id(window) && old(wm).window_spec(window).surface_spec().can_receive_focus_spec()) ==> final(wm).same_state(old(wm)) && notices@.len() == 0,
            old(wm).contains_id(window) && old(wm).window_spec(window).surface_spec().can_receive_focus_spec() ==> {
                &&& final(wm).contains_id(window)
                &&& final(wm).focused_spec() == Some(window)
                &&& match output_for(outputs.outputs_spec(), old(wm).membership_extents(window)) {
                    Some(o) => {
                        let c = centered(o, old(wm).extents_spec(window).size);
                        old(wm).extents_fit(window) && in_i32(c.0) && in_i32(c.1)
                            ==> final(wm).window_spec(window).top_left_spec()
                            == TPoint { x: c.0 as i32, y: c.1 as i32 }
                    },
                    None => true,
                }
            },
    {
        if wm.find(window).is_none() {
            proof { assert(wm.same_state(old(wm))); }
            return Vec::new();
        }
        proof {
            wm.lemma_window_spec_valid(window);
        }
        if !wm.window(window).unwrap().surface().can_receive_focus() {
            proof { assert(wm.same_state(old(wm))); }
            return Vec::new();
        }
        let mut notices: Vec<Notice> = Vec::new();
        let output = Self::output_for_window(wm, outputs, window);
        if let Some(o) = output {
            if let Some(ext) = wm.try_extents(window) {
                if let Some(target) = center_on(&o, ext.size) {
                    notices = wm.move_to(window, target, outputs);
                }
            }
        }
        let ghost before_focus = *wm;
        proof {
            let b = old(wm).window_spec(window).surface_spec();
            let a = wm.window_spec(window).surface_spec();
            if a != b {
                let tl = wm.window_spec(window).top_left_spec();
                b.lemma_move_to_spec(tl, a);
            }
        }
        let _focused = wm.focus_window(window);
        proof {
            if before_focus.focused_spec() == Some(window) {
                assert(wm.same_geometry(&before_focus));
            }
        }
        notices
    }

    /// Starts an interactive move for the window that holds focus; a
    /// request from any other window is denied. A maximized or fullscreen
    /// window is restored first.
    pub fn handle_request_move(&mut self, wm: &mut WindowManager, request: MoveRequest)
        requires
            old(wm).wf(),
        ensures
            final(wm).wf(),
            final(self).restore_spec() == old(self).restore_spec(),
            old(wm).focused_spec() != Some(request.window) ==> final(self).gesture_spec()
                == old(self).gesture_spec() && final(wm).same_state(old(wm)),
            old(wm).focused_spec() == Some(request.window) ==> {
                &&& final(self).gesture_spec() == Some(Gesture::Move(request))
                &&& final(wm).contains_id(request.window)
                &&& final(wm).only_changed(old(wm), request.window)
                &&& !final(wm).window_spec(request.window).surface_spec().maximized_spec()
                &&& !final(wm).window_spec(request.window).surface_spec().fullscreen_spec()
                &&& only_surface_changed(
                    old(wm).window_spec(request.window),
                    final(wm).window_spec(request.window),
                    restored_for_move(old(wm).window_spec(request.window).surface_spec()),
                )
            },
    {
        if !wm.window_has_focus(request.window) {
            proof {
                assert(wm.same_state(old(wm)));
            }
            return;
        }
        let id = request.window;
        proof {
            wm.lemma_window_spec_valid(id);
        }
        if wm.window(id).unwrap().surface().maximized() {
            wm.set_window_flag(id, SurfaceFlag::Maximized, false);
        }
        proof {
            wm.lemma_window_spec_valid(id);
            lemma_unset_flag(old(wm).window_spec(id).surface_spec(), SurfaceFlag::Maximized);
            assert(wm.only_changed(old(wm), id));
        }
        let ghost mid_wm = *wm;
        let ghost mid = wm.window_spec(id);
        if wm.window(id).unwrap().surface().fullscreen() {
            wm.set_window_flag(id, SurfaceFlag::Fullscreen, false);
        }
        proof {
            lemma_unset_flag(mid.surface_spec(), SurfaceFlag::Fullscreen);
            wm.lemma_only_changed_trans(&mid_wm, old(wm), id);
        }
        self.gesture = Some(Gesture::Move(request));
    }

    /// Starts an interactive resize for the window that holds focus; a
    /// request from any other window, or for a window whose extents
    /// cannot be represented, is denied. The window's extents at this
    /// moment are kept, and the client is told that a resize is going on.
    pub fn handle_request_resize(&mut self, wm: &mut WindowManager, request: ResizeRequest)
        requires
            old(wm).wf(),
        ensures
            final(wm).wf(),
            final(self).restore_spec() == old(self).restore_spec(),
            !(old(wm).focused_spec() == Some(request.window) && old(wm).extents_fit(request.window))
                ==> final(self).gesture_spec() == old(self).gesture_spec() && final(wm).same_state(
                old(wm),
            ),
            old(wm).focused_spec() == Some(request.window) && old(wm).extents_fit(request.window)
                ==> {
                &&& final(self).gesture_spec() == Some(
                    Gesture::Resize(request, old(wm).extents_spec(request.window)),
                )
                &&& final(wm).only_changed(old(wm), request.window)
                &&& final(wm).contains_id(request.window)
                &&& only_surface_changed(
                    old(wm).window_spec(request.window),
                    final(wm).window_spec(request.window),
                    resizing_restarted(old(wm).window_spec(request.window).surface_spec()),
                )
                &&& final(wm).window_spec(request.window).surface_spec().is_xdg_toplevel()
                    ==> final(wm).window_spec(request.window).surface_spec().resizing_spec()
            },
    {
        if !wm.window_has_focus(request.window) {
            proof {
                assert(wm.same_state(old(wm)));
            }
            return;
        }
        let id = request.window;
        proof {
            wm.lemma_window_spec_valid(id);
        }
        let snapshot = match wm.try_extents(id) {
            Some(e) => e,
            None => {
                proof {
                    assert(wm.same_state(old(wm)));
                }
                return;
            },
        };
        if wm.window(id).unwrap().surface().resizing() {
            wm.set_window_flag(id, SurfaceFlag::Resizing, false);
        }
        proof {
            assert(wm.only_changed(old(wm), id));
            wm.lemma_window_spec_valid(id);
        }
        let ghost mid_wm = *wm;
        wm.set_window_flag(id, SurfaceFlag::Resizing, true);
        proof {
            wm.lemma_only_changed_trans(&mid_wm, old(wm), id);
            let b = mid_wm.window_spec(id).surface_spec();
            b.lemma_flag_set(SurfaceFlag::Resizing, true);
        }
        self.gesture = Some(Gesture::Resize(request, snapshot));
    }

    /// Follows the pointer while a gesture is active: a move places the
    /// window so that the drag point stays under the cursor, a resize asks
    /// for the extents that the drag implies. Returns whether the motion
    /// was consumed, with the notices of any move; positions that cannot
    /// be represented are consumed without effect.
    pub fn handle_pointer_motion(
        &mut self,
        wm: &mut WindowManager,
        outputs: &OutputManager,
        position: Point,
    ) -> (r: Option<Vec<Notice>>)
        requires
            old(wm).wf(),
            outputs.wf(),
        ensures
            final(wm).wf(),
            final(self).gesture_spec() == old(self).gesture_spec(),
            final(self).restore_spec() == old(self).restore_spec(),
            r.is_some() == old(self).gesture_spec().is_some(),
            old(self).gesture_spec().is_none() ==> final(wm).same_state(old(wm)),
            old(self).gesture_spec() matches Some(Gesture::Move(req)) ==> {
                let tx = position.x - req.drag_point.x;
                let ty = position.y - req.drag_point.y;
                old(wm).contains_id(req.window) && in_i32(tx) && in_i32(ty) ==> {
                    &&& final(wm).contains_id(req.window)
                    &&& final(wm).window_spec(req.window).top_left_spec() == TPoint {
                        x: tx as i32,
                        y: ty as i32,
                    }
                    &&& final(wm).window_spec(req.window).outputs_spec() == membership_after(
                        outputs.outputs_spec(),
                        old(wm).window_spec(req.window).outputs_spec(),
                        final(wm).membership_extents(req.window),
                    )
                }
            },
            old(self).gesture_spec() matches Some(Gesture::Resize(req, orig)) ==> {
                let dx = position.x - req.cursor_position.x;
                let dy = position.y - req.cursor_position.y;
                let v = resized(orig, req.edges, dx, dy);
                let before = old(wm).window_spec(req.window);
                let after = final(wm).window_spec(req.window);
                &&& final(wm).only_changed(old(wm), req.window)
                &&& (old(wm).contains_id(req.window) && in_i32(dx) && in_i32(dy) && fits4(v) ==> {
                    &&& final(wm).contains_id(req.window)
                    &&& after.pending_spec() == before.pending_spec().insert(
                        configured_serial(before.surface_spec()),
                        rect_of(v).top_left,
                    )
                    &&& before.surface_spec().takes_size() ==> after.surface_spec().state_spec().requested_size
                        == Some(rect_of(v).size)
                    &&& after.top_left_spec() == before.top_left_spec()
                })
            },
    {
        match self.gesture {
            None => {
                proof {
                    assert(wm.same_state(old(wm)));
                }
                None
            },
            Some(Gesture::Move(req)) => {
                let tx = position.x as i64 - req.drag_point.x as i64;
                let ty = position.y as i64 - req.drag_point.y as i64;
                if i32::MIN as i64 <= tx && tx <= i32::MAX as i64 && i32::MIN as i64 <= ty && ty
                    <= i32::MAX as i64 {
                    Some(wm.move_to(req.window, TPoint { x: tx as i32, y: ty as i32 }, outputs))
                } else {
                    Some(Vec::new())
                }
            },
            Some(Gesture::Resize(req, orig)) => {
                let dx = position.x as i64 - req.cursor_position.x as i64;
                let dy = position.y as i64 - req.cursor_position.y as i64;
                if i32::MIN as i64 <= dx && dx <= i32::MAX as i64 && i32::MIN as i64 <= dy && dy
                    <= i32::MAX as i64 {
                    proof {
                        assert((dx as i32) as int == position.x - req.cursor_position.x);
                        assert((dy as i32) as int == position.y - req.cursor_position.y);
                    }
                    if let Some(ext) = resize_extents(&orig, req.edges, dx as i32, dy as i32) {
                        let serial = wm.set_extents(req.window, &ext);
                        proof {
                            if old(wm).contains_id(req.window) {
                                let before = old(wm).window_spec(req.window);
                                let after = wm.window_spec(req.window);
                                before.surface_spec().lemma_resize_spec(
                                    ext.size,
                                    after.surface_spec(),
                                    serial.unwrap(),
                                );
                                let v = resized(orig, req.edges, position.x - req.cursor_position.x, position.y - req.cursor_position.y);
                                assert(ext == rect_of(v));
                                assert(wm.contains_id(req.window));
                                assert(after.pending_spec() == before.pending_spec().insert(
                                    configured_serial(before.surface_spec()),
                                    rect_of(v).top_left,
                                ));
                                assert(after.top_left_spec() == before.top_left_spec());
                            }
                        }
                    } else {
                        proof {
                            assert(wm.only_changed(old(wm), req.window));
                        }
                    }
                } else {
                    proof {
                        assert(wm.only_changed(old(wm), req.window));
                    }
                }
                Some(Vec::new())
            },
        }
    }

    /// Ends the active gesture on any button release; a resize also tells
    /// the client that resizing stopped. Returns whether the event was
    /// consumed: with no gesture active, nothing happens.
    pub fn handle_pointer_button(&mut self, wm: &mut WindowManager, state: ButtonState) -> (consumed: bool)
        requires
            old(wm).wf(),
        ensures
            final(wm).wf(),
            final(self).restore_spec() == old(self).restore_spec(),
            consumed == (old(self).gesture_spec().is_some() && state == ButtonState::Released),
            consumed ==> final(self).gesture_spec().is_none(),
            !consumed ==> final(self).gesture_spec() == old(self).gesture_spec() && final(wm).same_state(old(wm)),
            consumed && !(old(self).gesture_spec() is Some && old(self).gesture_spec().unwrap() is Resize)
                ==> final(wm).same_state(old(wm)),
            old(self).gesture_spec() matches Some(Gesture::Resize(req, _)) ==> state == ButtonState::Released
                && old(wm).contains_id(req.window) ==> {
                &&& final(wm).only_changed(old(wm), req.window)
                &&& final(wm).contains_id(req.window)
                &&& !final(wm).window_spec(req.window).surface_spec().resizing_spec()
                &&& only_surface_changed(
                    old(wm).window_spec(req.window),
                    final(wm).window_spec(req.window),
                    resizing_ended(old(wm).window_spec(req.window).surface_spec()),
                )
            },
    {
        if self.gesture.is_none() || state != ButtonState::Released {
            proof {
                assert(wm.same_state(old(wm)));
            }
            return false;
        }
        if let Some(Gesture::Resize(req, _)) = self.gesture {
            if let Some(w) = wm.window(req.window) {
                if w.surface().resizing() {
                    wm.set_window_flag(req.window, SurfaceFlag::Resizing, false);
                }
            }
            proof {
                if old(wm).contains_id(req.window) {
                    old(wm).lemma_window_spec_valid(req.window);
                    lemma_unset_flag(old(wm).window_spec(req.window).surface_spec(), SurfaceFlag::Resizing);
                }
            }
        } else {
            proof {
                assert(wm.same_state(old(wm)));
            }
        }
        self.gesture = None;
        true
    }

    /// Whether the policy remembers `e` as the extents to restore `window`
    /// to.
    pub open spec fn remembers(&self, window: u64, e: Rectangle) -> bool {
        self.restore_spec().contains_key(window) && self.restore_spec()[window] == e
    }

    /// Puts a window into or out of a state that covers an output. Going
    /// in, the window's current extents are remembered, when they can be
    /// represented, and the window asks for the output's extents; going
    /// out, it asks for the remembered extents, if any. Returns the serial
    /// of the extents request, if one was made.
    fn cover_output(
        &mut self,
        wm: &mut WindowManager,
        window: u64,
        output: Output,
        flag: SurfaceFlag,
        cover: bool,
    ) -> (serial: Option<u32>)
        requires
            old(wm).wf(),
            old(wm).contains_id(window),
        ensures
            final(wm).wf(),
            final(wm).contains_id(window),
            final(self).gesture_spec() == old(self).gesture_spec(),
            cover ==> final(self).restore_spec() == (if old(wm).extents_fit(window) {
                old(self).restore_spec().insert(window, old(wm).extents_spec(window))
            } else {
                old(self).restore_spec()
            }),
            !cover ==> final(self).restore_spec() == old(self).restore_spec(),
            cover ==> serial is Some && asked_for(*final(wm), window, serial.unwrap(), output.extents_spec()),
            !cover ==> (serial is Some <==> old(self).restore_spec().contains_key(window)),
            !cover && old(self).restore_spec().contains_key(window) ==> asked_for(
                *final(wm),
                window,
                serial.unwrap(),
                old(self).restore_spec()[window],
            ),
            flag == SurfaceFlag::Maximized ==> final(wm).window_spec(window).surface_spec().maximized_spec()
                == (cover && old(wm).window_spec(window).surface_spec().takes_flags()),
            flag == SurfaceFlag::Fullscreen ==> final(wm).window_spec(window).surface_spec().fullscreen_spec()
                == (cover && old(wm).window_spec(window).surface_spec().takes_flags()),
    {
        proof {
            old(wm).window_spec(window).surface_spec().lemma_flag_set(flag, cover);
        }
        if cover {
            if let Some(e) = wm.try_extents(window) {
                self.restore_size.insert(window, e);
            }
            wm.set_window_flag(window, flag, cover);
            let ghost mid = *wm;
            let serial = wm.set_extents(window, &output.extents());
            proof {
                mid.window_spec(window).surface_spec().lemma_resize_spec(
                    output.extents_spec().size,
                    wm.window_spec(window).surface_spec(),
                    serial.unwrap(),
                );
            }
            serial
        } else {
            wm.set_window_flag(window, flag, cover);
            let r = match self.restore_size.get(&window) {
                Some(r) => Some(*r),
                None => None,
            };
            let ghost mid = *wm;
            proof {
                old(wm).window_spec(window).surface_spec().lemma_flag_set(flag, cover);
            }
            match r {
                Some(r) => {
                    let serial = wm.set_extents(window, &r);
                    proof {
                        mid.window_spec(window).surface_spec().lemma_resize_spec(
                            r.size,
                            wm.window_spec(window).surface_spec(),
                            serial.unwrap(),
                        );
                    }
                    serial
                },
                None => None,
            }
        }
    }

    /// Maximizes a window on its output, or restores it.
    pub fn handle_request_maximize(
        &mut self,
        wm: &mut WindowManager,
        outputs: &OutputManager,
        request: MaximizeRequest,
    ) -> (serial: Option<u32>)
        requires
            old(wm).wf(),
            outputs.wf(),
        ensures
            final(wm).wf(),
            final(self).gesture_spec() == old(self).gesture_spec(),
            !old(wm).contains_id(request.window) || outputs.outputs_spec().len() == 0 ==> serial is None
                && final(wm).same_state(old(wm)) && final(self).restore_spec() == old(self).restore_spec(),
            old(wm).contains_id(request.window) && outputs.outputs_spec().len() > 0 ==> {
                let o = output_for(outputs.outputs_spec(), old(wm).membership_extents(request.window)).unwrap();
                &&& request.maximize && old(wm).extents_fit(request.window) ==> final(self).remembers(
                    request.window,
                    old(wm).extents_spec(request.window),
                )
                &&& request.maximize ==> serial is Some && asked_for(*final(wm), request.window, serial.unwrap(), o.extents_spec())
                &&& final(wm).window_spec(request.window).surface_spec().maximized_spec()
                    == (request.maximize && old(wm).window_spec(request.window).surface_spec().takes_flags())
                &&& !request.maximize ==> final(self).restore_spec() == old(self).restore_spec()
                &&& !request.maximize && old(self).restore_spec().contains_key(request.window) ==> serial is Some
                    && asked_for(*final(wm), request.window, serial.unwrap(), old(self).restore_spec()[request.window])
            },
    {
        if wm.find(request.window).is_none() {
            proof { assert(wm.same_state(old(wm))); }
            return None;
        }
        match Self::output_for_window(wm, outputs, request.window) {
            None => {
                proof { assert(wm.same_state(old(wm))); }
                None
            },
            Some(o) => self.cover_output(wm, request.window, o, SurfaceFlag::Maximized, request.maximize),
        }
    }

    /// Makes a window fullscreen on the requested output, or on its own
    /// output when none is named or the named one is unknown, or restores
    /// it.
    pub fn handle_request_fullscreen(
        &mut self,
        wm: &mut WindowManager,
        outputs: &OutputManager,
        request: FullscreenRequest,
    ) -> (serial: Option<u32>)
        requires
            old(wm).wf(),
            outputs.wf(),
        ensures
            final(wm).wf(),
            final(self).gesture_spec() == old(self).gesture_spec(),
            !old(wm).contains_id(request.window) || outputs.outputs_spec().len() == 0 ==> serial is None
                && final(wm).same_state(old(wm)) && final(self).restore_spec() == old(self).restore_spec(),
            old(wm).contains_id(request.window) && outputs.outputs_spec().len() > 0 ==> {
                &&& request.fullscreen && old(wm).extents_fit(request.window) ==> final(self).remembers(
                    request.window,
                    old(wm).extents_spec(request.window),
                )
                &&& request.fullscreen ==> serial is Some && asked_for(
                    *final(wm),
                    request.window,
                    serial.unwrap(),
                    fullscreen_output(outputs.outputs_spec(), request.output, old(wm).membership_extents(request.window)).extents_spec(),
                )
                &&& final(wm).window_spec(request.window).surface_spec().fullscreen_spec()
                    == (request.fullscreen && old(wm).window_spec(request.window).surface_spec().takes_flags())
                &&& !request.fullscreen ==> final(self).restore_spec() == old(self).restore_spec()
                &&& !request.fullscreen && old(self).restore_spec().contains_key(request.window) ==> serial is Some
                    && asked_for(*final(wm), request.window, serial.unwrap(), old(self).restore_spec()[request.window])
            },
    {
        if wm.find(request.window).is_none() {
            proof { assert(wm.same_state(old(wm))); }
            return None;
        }
        let named = match request.output {
            Some(id) => match outputs.position_of(id) {
                Some(k) => {
                    proof {
                        let c = choose|c: int|
                            0 <= c < outputs.outputs_spec().len() && (#[trigger] outputs.outputs_spec()[c]).id == id;
                        assert(c == k as int) by {
                            if c != k as int {
                                assert(outputs.outputs_spec()[c].id != outputs.outputs_spec()[k as int].id);
                            }
                        }
                    }
                    Some(outputs.outputs()[k])
                },
                None => None,
            },
            None => None,
        };
        let chosen = match named {
            Some(o) => Some(o),
            None => Self::output_for_window(wm, outputs, request.window),
        };
        match chosen {
            None => {
                proof { assert(wm.same_state(old(wm))); }
                None
            },
            Some(o) => self.cover_output(wm, request.window, o, SurfaceFlag::Fullscreen, request.fullscreen),
        }
    }

    /// Focuses the window whose activation was requested.
    pub fn handle_request_activate(&mut self, wm: &mut WindowManager, request: ActivateRequest) -> (focused: bool)
        requires
            old(wm).wf(),
        ensures
            final(wm).wf(),
            focused == (old(wm).contains_id(request.window) && old(wm).window_spec(
                request.window,
            ).surface_spec().can_receive_focus_spec()),
            focused ==> final(wm).focused_spec() == Some(request.window),
    {
        wm.focus_window(request.window)
    }

    /// Asks the client of the window whose closing was requested to close it.
    pub fn handle_request_close(&mut self, wm: &mut WindowManager, request: CloseRequest)
        requires
            old(wm).wf(),
        ensures
            final(wm).wf(),
            final(wm).only_changed(old(wm), request.window),
            old(wm).contains_id(request.window) ==> final(wm).window_spec(request.window).surface_spec().state_spec().close_requested,
    {
        wm.ask_client_to_close(request.window)
    }
}

/// The output a window goes fullscreen on: the named one when it is
/// connected, or else the window's own output.
pub open spec fn fullscreen_output(outs: Seq<Output>, named: Option<u64>, ext: Rectangle) -> Output {
    match named {
        Some(id) => if has_output(outs, id) {
            outs[choose|c: int| 0 <= c < outs.len() && (#[trigger] outs[c]).id == id]
        } else {
            output_for(outs, ext).unwrap()
        },
        None => output_for(outs, ext).unwrap(),
    }
}

/// A surface after it was asked to take one flag.
pub open spec fn flagged(s: Surface, flag: SurfaceFlag, value: bool) -> Surface {
    configured_surface(s, with_flag(s.state_spec(), flag, value), xwayland_keeps(flag))
}

/// A surface about to be moved: no longer maximized, then no longer
/// fullscreen, each asked only when set.
pub open spec fn restored_for_move(s0: Surface) -> Surface {
    let s1 = if s0.maximized_spec() {
        flagged(s0, SurfaceFlag::Maximized, false)
    } else {
        s0
    };
    if s1.fullscreen_spec() {
        flagged(s1, SurfaceFlag::Fullscreen, false)
    } else {
        s1
    }
}

/// A surface at the end of a resize: told that resizing stopped, when it
/// was resizing.
pub open spec fn resizing_ended(s0: Surface) -> Surface {
    if s0.resizing_spec() {
        flagged(s0, SurfaceFlag::Resizing, false)
    } else {
        s0
    }
}

/// A surface about to be resized: a resize in progress is ended first,
/// then a new one begins.
pub open spec fn resizing_restarted(s0: Surface) -> Surface {
    let s1 = if s0.resizing_spec() {
        flagged(s0, SurfaceFlag::Resizing, false)
    } else {
        s0
    };
    flagged(s1, SurfaceFlag::Resizing, true)
}

/// Whether `after` is `before` with only its surface changed, to `surface`.
pub open spec fn only_surface_changed(before: Window, after: Window, surface: Surface) -> bool {
    &&& after.surface_spec() == surface
    &&& after.top_left_spec() == before.top_left_spec()
    &&& after.pending_spec() == before.pending_spec()
    &&& after.outputs_spec() == before.outputs_spec()
    &&& after.same_identity(&before)
}

/// Whether the window asked its client for the extents `r` under the
/// configure serial `serial`.
pub open spec fn asked_for(wm: WindowManager, window: u64, serial: u32, r: Rectangle) -> bool {
    let w = wm.window_spec(window);
    &&& wm.contains_id(window)
    &&& w.pending_spec().contains_key(serial)
    &&& w.pending_spec()[serial] == r.top_left
    &&& w.surface_spec().takes_size() ==> w.surface_spec().state_spec().requested_size == Some(r.size)
}

/// Maximizing and then restoring a window, with no other maximize or
/// fullscreen request in between, asks for the extents the window had
/// before it was maximized.
pub proof fn lemma_maximize_restore_round_trip(
    maximized: FloatingPolicy,
    before: WindowManager,
    after: WindowManager,
    window: u64,
    serial: u32,
)
    requires
        maximized.remembers(window, before.extents_spec(window)),
        asked_for(after, window, serial, maximized.restore_spec()[window]),
    ensures
        asked_for(after, window, serial, before.extents_spec(window)),
{
}

/// The request a client makes when it starts a move with the cursor at
/// `cursor`: the drag point is the cursor relative to the window's
/// top-left corner. Nothing is made for an unknown window or one whose
/// extents or drag point cannot be represented.
pub fn move_request(wm: &WindowManager, window: u64, cursor: Point) -> (r: Option<MoveRequest>)
    requires
        wm.wf(),
    ensures
        r is Some <==> wm.contains_id(window) && wm.extents_fit(window) && in_i32(
            cursor.x - wm.extents_spec(window).top_left.x,
        ) && in_i32(cursor.y - wm.extents_spec(window).top_left.y),
        r matches Some(req) ==> req.window == window && req.drag_point.x == cursor.x
            - wm.extents_spec(window).top_left.x && req.drag_point.y == cursor.y - wm.extents_spec(
            window,
        ).top_left.y,
{
    if wm.find(window).is_none() {
        return None;
    }
    let e = match wm.try_extents(window) {
        Some(e) => e,
        None => return None,
    };
    let dx = cursor.x as i64 - e.top_left.x as i64;
    let dy = cursor.y as i64 - e.top_left.y as i64;
    if i32::MIN as i64 <= dx && dx <= i32::MAX as i64 && i32::MIN as i64 <= dy && dy <= i32::MAX as i64 {
        Some(MoveRequest { window, drag_point: TPoint { x: dx as i32, y: dy as i32 } })
    } else {
        None
    }
}

/// The request a client makes when it starts a resize with the cursor at
/// `cursor`, dragging the edges named by `edges`.
pub fn resize_request(window: u64, cursor: Point, edges: u32) -> (r: ResizeRequest)
    ensures
        r.window == window,
        r.cursor_position == cursor,
        r.edges.top == (edges & EDGE_TOP != 0),
        r.edges.bottom == (edges & EDGE_BOTTOM != 0),
        r.edges.left == (edges & EDGE_LEFT != 0),
        r.edges.right == (edges & EDGE_RIGHT != 0),
{
    ResizeRequest { window, cursor_position: cursor, edges: WindowEdge::from_bits_truncate(edges) }
}

/// Asking a surface to drop a flag leaves the flag unset.
proof fn lemma_unset_flag(b: crate::surface::Surface, flag: SurfaceFlag)
    ensures
        ({
            let a = configured_surface(b, with_flag(b.state_spec(), flag, false), xwayland_keeps(flag));
            &&& flag == SurfaceFlag::Maximized ==> !a.maximized_spec()
            &&& flag == SurfaceFlag::Fullscreen ==> !a.fullscreen_spec()
            &&& flag == SurfaceFlag::Resizing ==> !a.resizing_spec()
            &&& flag == SurfaceFlag::Maximized ==> a.fullscreen_spec() == b.fullscreen_spec()
        }),
{
}

} // verus!
