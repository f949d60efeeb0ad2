use crate::geometry::{in_i32, Displacement, Point, Rectangle, TDisplacement, TPoint};
use crate::membership::{membership_after, membership_notices};
use crate::notice::Notice;
use crate::output::{has_output, OutputManager};
use crate::surface::{configured_surface, with_flag, xwayland_keeps, Surface, SurfaceFlag};
use crate::window::Window;
use vstd::prelude::*;

verus! {

/// The five stacking layers, composited bottom-up.
#[derive(Debug, Clone, Copy, PartialEq, Eq, Structural)]
pub enum WindowLayer {
    Background,
    Bottom,
    Normal,
    Top,
    Overlay,
}

/// Owns every window, each in the back-to-front sequence of its layer, and
/// tracks which window holds keyboard focus.
#[derive(Debug)]
pub struct WindowManager {
    background: Vec<Window>,
    bottom: Vec<Window>,
    normal: Vec<Window>,
    top: Vec<Window>,
    overlay: Vec<Window>,
    focused: Option<u64>,
}

/// Whether some window of the sequence has the given id.
pub open spec fn seq_has_id(s: Seq<Window>, id: u64) -> bool {
    exists|i: int| 0 <= i < s.len() && (#[trigger] s[i]).id_spec() == id
}

/// The ids of a sequence of windows, in order.
pub open spec fn ids_of(s: Seq<Window>) -> Seq<u64> {
    s.map_values(|w: Window| w.id_spec())
}

impl WindowManager {
    /// The windows of one layer, back to front.
    pub closed spec fn layer_view(&self, l: WindowLayer) -> Seq<Window> {
        match l {
            WindowLayer::Background => self.background@,
            WindowLayer::Bottom => self.bottom@,
            WindowLayer::Normal => self.normal@,
            WindowLayer::Top => self.top@,
            WindowLayer::Overlay => self.overlay@,
        }
    }

    /// The id of the window that holds keyboard focus.
    pub closed spec fn focused_spec(&self) -> Option<u64> {
        self.focused
    }

    /// Every window, back to front: the layers bottom-up, each back to front.
    pub open spec fn all_windows(&self) -> Seq<Window> {
        self.layer_view(WindowLayer::Background) + self.layer_view(WindowLayer::Bottom)
            + self.layer_view(WindowLayer::Normal) + self.layer_view(WindowLayer::Top)
            + self.layer_view(WindowLayer::Overlay)
    }

    pub open spec fn contains_id(&self, id: u64) -> bool {
        exists|l: WindowLayer, i: int|
            0 <= i < self.layer_view(l).len() && (#[trigger] self.layer_view(l)[i]).id_spec() == id
    }

    /// The window with the given id.
    pub open spec fn window_spec(&self, id: u64) -> Window {
        let (l, i) = choose|l: WindowLayer, i: int|
            0 <= i < self.layer_view(l).len() && (#[trigger] self.layer_view(l)[i]).id_spec() == id;
        self.layer_view(l)[i]
    }

    /// Every window sits in the layer it was created for, ids are unique,
    /// surfaces are well formed and focus names a window.
    pub open spec fn wf(&self) -> bool {
        &&& forall|l: WindowLayer, i: int|
            0 <= i < self.layer_view(l).len() ==> (#[trigger] self.layer_view(l)[i]).layer_spec()
                == l
        &&& forall|l: WindowLayer, i: int|
            0 <= i < self.layer_view(l).len() ==> (
            #[trigger] self.layer_view(l)[i]).surface_spec().wf()
        &&& forall|l1: WindowLayer, i: int, l2: WindowLayer, j: int|
            0 <= i < self.layer_view(l1).len() && 0 <= j < self.layer_view(l2).len() && (l1 != l2
                || i != j) ==> (#[trigger] self.layer_view(l1)[i]).id_spec() != (
            #[trigger] self.layer_view(l2)[j]).id_spec()
        &&& match self.focused_spec() {
            Some(f) => self.contains_id(f),
            None => true,
        }
    }

    pub proof fn lemma_window_spec(&self, l: WindowLayer, i: int)
        requires
            self.wf(),
            0 <= i < self.layer_view(l).len(),
        ensures
            self.contains_id(self.layer_view(l)[i].id_spec()),
            self.window_spec(self.layer_view(l)[i].id_spec()) == self.layer_view(l)[i],
    {
        let id = self.layer_view(l)[i].id_spec();
        assert(self.layer_view(l)[i].id_spec() == id);
        let (l2, i2) = choose|l2: WindowLayer, i2: int|
            0 <= i2 < self.layer_view(l2).len() && (#[trigger] self.layer_view(l2)[i2]).id_spec()
                == id;
        assert(l2 == l && i2 == i);
    }

    /// The window with a known id sits in its own layer and is well formed.
    pub proof fn lemma_window_spec_valid(&self, id: u64)
        requires
            self.wf(),
            self.contains_id(id),
        ensures
            self.window_spec(id).id_spec() == id,
            self.window_spec(id).surface_spec().wf(),
            exists|i: int|
                0 <= i < self.layer_view(self.window_spec(id).layer_spec()).len() && self.layer_view(
                    self.window_spec(id).layer_spec(),
                )[i] == self.window_spec(id),
    {
        let (l, i) = choose|l: WindowLayer, i: int|
            0 <= i < self.layer_view(l).len() && (#[trigger] self.layer_view(l)[i]).id_spec() == id;
        assert(self.layer_view(l)[i].layer_spec() == l);
    }

    pub fn new() -> (r: WindowManager)
        ensures
            r.wf(),
            forall|l: WindowLayer| r.layer_view(l).len() == 0,
            r.focused_spec().is_none(),
    {
        WindowManager {
            background: Vec::new(),
            bottom: Vec::new(),
            normal: Vec::new(),
            top: Vec::new(),
            overlay: Vec::new(),
            focused: None,
        }
    }

    fn layer_ref(&self, l: WindowLayer) -> (r: &Vec<Window>)
        ensures
            r@ == self.layer_view(l),
    {
        match l {
            WindowLayer::Background => &self.background,
            WindowLayer::Bottom => &self.bottom,
            WindowLayer::Normal => &self.normal,
            WindowLayer::Top => &self.top,
            WindowLayer::Overlay => &self.overlay,
        }
    }

    fn layer_mut(&mut self, l: WindowLayer) -> (r: &mut Vec<Window>)
        ensures
            r@ == old(self).layer_view(l),
            final(self).layer_view(l) == final(r)@,
            forall|l2: WindowLayer| l2 != l ==> final(self).layer_view(l2) == old(self).layer_view(l2),
            final(self).focused_spec() == old(self).focused_spec(),
    {
        match l {
            WindowLayer::Background => &mut self.background,
            WindowLayer::Bottom => &mut self.bottom,
            WindowLayer::Normal => &mut self.normal,
            WindowLayer::Top => &mut self.top,
            WindowLayer::Overlay => &mut self.overlay,
        }
    }

    /// The layer and position of the window with the given id.
    pub fn find(&self, id: u64) -> (r: Option<(WindowLayer, usize)>)
        ensures
            r.is_none() <==> !self.contains_id(id),
            r matches Some(p) ==> p.1 < self.layer_view(p.0).len() && self.layer_view(
                p.0,
            )[p.1 as int].id_spec() == id,
    {
        let layers = [
            WindowLayer::Background,
            WindowLayer::Bottom,
            WindowLayer::Normal,
            WindowLayer::Top,
            WindowLayer::Overlay,
        ];
        let mut k: usize = 0;
        while k < 5
            invariant
                0 <= k <= 5,
                layers@ == seq![
                    WindowLayer::Background,
                    WindowLayer::Bottom,
                    WindowLayer::Normal,
                    WindowLayer::Top,
                    WindowLayer::Overlay,
                ],
                forall|kk: int, i: int|
                    0 <= kk < k && 0 <= i < self.layer_view(layers@[kk]).len() ==> (
                    #[trigger] self.layer_view(layers@[kk])[i]).id_spec() != id,
            decreases 5 - k,
        {
            let l = layers[k];
            let v = self.layer_ref(l);
            let mut i: usize = 0;
            while i < v.len()
                invariant
                    0 <= i <= v@.len(),
                    v@ == self.layer_view(l),
                    forall|j: int| 0 <= j < i ==> (#[trigger] v@[j]).id_spec() != id,
                decreases v@.len() - i,
            {
                if v[i].id() == id {
                    return Some((l, i));
                }
                i = i + 1;
            }
            k = k + 1;
        }
        proof {
            assert forall|l: WindowLayer, i: int|
                0 <= i < self.layer_view(l).len() implies (
            #[trigger] self.layer_view(l)[i]).id_spec() != id by {
                let kk: int = match l {
                    WindowLayer::Background => 0,
                    WindowLayer::Bottom => 1,
                    WindowLayer::Normal => 2,
                    WindowLayer::Top => 3,
                    WindowLayer::Overlay => 4,
                };
                assert(layers@[kk] == l);
            }
        }
        None
    }

    /// The window with the given id.
    pub fn window(&self, id: u64) -> (r: Option<&Window>)
        requires
            self.wf(),
        ensures
            r.is_none() <==> !self.contains_id(id),
            r.is_some() ==> *r.unwrap() == self.window_spec(id),
    {
        match self.find(id) {
            Some((l, i)) => {
                proof {
                    self.lemma_window_spec(l, i as int);
                }
                Some(&self.layer_ref(l)[i])
            },
            None => None,
        }
    }

    /// The ids of all windows, back to front.
    pub fn windows(&self) -> (r: Vec<u64>)
        ensures
            r@ == ids_of(self.all_windows()),
    {
        let mut r: Vec<u64> = Vec::new();
        let ghost all = self.all_windows();
        let layers = [
            WindowLayer::Background,
            WindowLayer::Bottom,
            WindowLayer::Normal,
            WindowLayer::Top,
            WindowLayer::Overlay,
        ];
        let ghost prefix: Seq<Window> = Seq::empty();
        let mut k: usize = 0;
        while k < 5
            invariant
                0 <= k <= 5,
                layers@ == seq![
                    WindowLayer::Background,
                    WindowLayer::Bottom,
                    WindowLayer::Normal,
                    WindowLayer::Top,
                    WindowLayer::Overlay,
                ],
                prefix == (if k == 0 {
                    Seq::<Window>::empty()
                } else if k == 1 {
                    self.layer_view(WindowLayer::Background)
                } else if k == 2 {
                    self.layer_view(WindowLayer::Background) + self.layer_view(WindowLayer::Bottom)
                } else if k == 3 {
                    self.layer_view(WindowLayer::Background) + self.layer_view(WindowLayer::Bottom)
                        + self.layer_view(WindowLayer::Normal)
                } else if k == 4 {
                    self.layer_view(WindowLayer::Background) + self.layer_view(WindowLayer::Bottom)
                        + self.layer_view(WindowLayer::Normal) + self.layer_view(WindowLayer::Top)
                } else {
                    self.all_windows()
                }),
                r@ == ids_of(prefix),
            decreases 5 - k,
        {
            let l = layers[k];
            let v = self.layer_ref(l);
            let mut i: usize = 0;
            while i < v.len()
                invariant
                    0 <= i <= v@.len(),
                    v@ == self.layer_view(l),
                    r@ == ids_of(prefix + v@.subrange(0, i as int)),
                decreases v@.len() - i,
            {
                r.push(v[i].id());
                proof {
                    assert(prefix + v@.subrange(0, i + 1) =~= (prefix + v@.subrange(0, i as int)).push(
                        v@[i as int],
                    ));
                }
                i = i + 1;
            }
            proof {
                assert(v@.subrange(0, i as int) =~= v@);
                prefix = prefix + v@;
            }
            k = k + 1;
        }
        r
    }

    /// The ids of the mapped windows, back to front: what is drawn, in
    /// drawing order.
    pub fn windows_to_render(&self) -> (r: Vec<u64>)
        ensures
            r@ == ids_of(self.all_windows().filter(|w: Window| w.mapped_spec())),
    {
        let mut r: Vec<u64> = Vec::new();
        let layers = [
            WindowLayer::Background,
            WindowLayer::Bottom,
            WindowLayer::Normal,
            WindowLayer::Top,
            WindowLayer::Overlay,
        ];
        let ghost prefix: Seq<Window> = Seq::empty();
        let mut k: usize = 0;
        while k < 5
            invariant
                0 <= k <= 5,
                layers@ == seq![
                    WindowLayer::Background,
                    WindowLayer::Bottom,
                    WindowLayer::Normal,
                    WindowLayer::Top,
                    WindowLayer::Overlay,
                ],
                prefix == (if k == 0 {
                    Seq::<Window>::empty()
                } else if k == 1 {
                    self.layer_view(WindowLayer::Background)
                } else if k == 2 {
                    self.layer_view(WindowLayer::Background) + self.layer_view(WindowLayer::Bottom)
                } else if k == 3 {
                    self.layer_view(WindowLayer::Background) + self.layer_view(WindowLayer::Bottom)
                        + self.layer_view(WindowLayer::Normal)
                } else if k == 4 {
                    self.layer_view(WindowLayer::Background) + self.layer_view(WindowLayer::Bottom)
                        + self.layer_view(WindowLayer::Normal) + self.layer_view(WindowLayer::Top)
                } else {
                    self.all_windows()
                }),
                r@ == ids_of(prefix.filter(|w: Window| w.mapped_spec())),
            decreases 5 - k,
        {
            let l = layers[k];
            let v = self.layer_ref(l);
            let mut i: usize = 0;
            while i < v.len()
                invariant
                    0 <= i <= v@.len(),
                    v@ == self.layer_view(l),
                    r@ == ids_of((prefix + v@.subrange(0, i as int)).filter(|w: Window| w.mapped_spec())),
                decreases v@.len() - i,
            {
                let ghost before = prefix + v@.subrange(0, i as int);
                let ghost after = prefix + v@.subrange(0, i + 1);
                proof {
                    assert(after =~= before.push(v@[i as int]));
                    assert(after.drop_last() == before);
                    reveal(Seq::filter);
                }
                if v[i].mapped() {
                    r.push(v[i].id());
                    proof {
                        assert(after.filter(|w: Window| w.mapped_spec()) == before.filter(|w: Window| w.mapped_spec()).push(v@[i as int]));
                        assert(r@ =~= ids_of(after.filter(|w: Window| w.mapped_spec())));
                    }
                } else {
                    proof {
                        assert(after.filter(|w: Window| w.mapped_spec()) == before.filter(|w: Window| w.mapped_spec()));
                    }
                }
                i = i + 1;
            }
            proof {
                assert(v@.subrange(0, i as int) =~= v@);
                prefix = prefix + v@;
            }
            k = k + 1;
        }
        r
    }

    /// Adds a window for a new client surface, unmapped and at the origin.
    /// A window that can take focus goes to the back of its layer, so that
    /// it stays behind until it is focused; any other goes to the front.
    /// A surface whose id is already known, or that is malformed, is refused.
    pub fn new_window(&mut self, layer: WindowLayer, surface: Surface) -> (added: bool)
        requires
            old(self).wf(),
        ensures
            final(self).wf(),
            added == (!old(self).contains_id(surface.id_spec()) && surface.wf()),
            !added ==> final(self).layer_view(layer) == old(self).layer_view(layer),
            added ==> final(self).layer_view(layer).len() == old(self).layer_view(layer).len() + 1,
            added && surface.can_receive_focus_spec() ==> final(self).layer_view(layer).subrange(
                1,
                final(self).layer_view(layer).len() as int,
            ) == old(self).layer_view(layer),
            added && !surface.can_receive_focus_spec() ==> final(self).layer_view(layer).subrange(
                0,
                old(self).layer_view(layer).len() as int,
            ) == old(self).layer_view(layer),
            added ==> final(self).contains_id(surface.id_spec()) && final(self).window_spec(
                surface.id_spec(),
            ).is_new(layer, surface),
            forall|l: WindowLayer| l != layer ==> final(self).layer_view(l) == old(self).layer_view(l),
            final(self).focused_spec() == old(self).focused_spec(),
    {
        if self.find(surface.id()).is_some() || !surface.is_wf() {
            return false;
        }
        let focusable = surface.can_receive_focus();
        let w = Window::new(layer, surface);
        let ghost old_self = *old(self);
        let ghost wv = w;
        let v = self.layer_mut(layer);
        if focusable {
            v.insert(0, w);
        } else {
            v.push(w);
        }
        proof {
            let n = old_self.layer_view(layer).len();
            let pos: int = if focusable { 0 } else { n as int };
            let nv = self.layer_view(layer);
            assert(nv[pos] == wv);
            assert forall|i: int| 0 <= i < nv.len() && i != pos implies nv[i]
                == old_self.layer_view(layer)[if i < pos { i } else { i - 1 }] by {}
            if focusable {
                assert(nv.subrange(1, nv.len() as int) =~= old_self.layer_view(layer));
            } else {
                assert(nv.subrange(0, n as int) =~= old_self.layer_view(layer));
            }
            assert forall|l1: WindowLayer, i: int, l2: WindowLayer, j: int|
                0 <= i < self.layer_view(l1).len() && 0 <= j < self.layer_view(l2).len() && (l1
                    != l2 || i != j) implies (#[trigger] self.layer_view(l1)[i]).id_spec() != (
            #[trigger] self.layer_view(l2)[j]).id_spec() by {
                let i0 = if l1 == layer && i > pos { i - 1 } else { i };
                let j0 = if l2 == layer && j > pos { j - 1 } else { j };
                if l1 == layer && i == pos {
                    if !(l2 == layer && j == pos) {
                        assert(old_self.layer_view(l2)[j0] == self.layer_view(l2)[j]);
                    }
                } else if l2 == layer && j == pos {
                    assert(old_self.layer_view(l1)[i0] == self.layer_view(l1)[i]);
                } else {
                    assert(old_self.layer_view(l1)[i0] == self.layer_view(l1)[i]);
                    assert(old_self.layer_view(l2)[j0] == self.layer_view(l2)[j]);
                }
            }
            assert forall|l: WindowLayer, i: int|
                0 <= i < self.layer_view(l).len() implies (#[trigger] self.layer_view(l)[i]).layer_spec()
                == l && self.layer_view(l)[i].surface_spec().wf() by {
                if l == layer && i != pos {
                    assert(self.layer_view(l)[i] == old_self.layer_view(l)[if i < pos { i } else { i - 1 }]);
                } else if l != layer {
                    assert(self.layer_view(l)[i] == old_self.layer_view(l)[i]);
                }
            }
            if let Some(f) = self.focused_spec() {
                assert(old_self.contains_id(f));
                let (ql, qj) = choose|ql: WindowLayer, qj: int|
                    0 <= qj < old_self.layer_view(ql).len() && (#[trigger] old_self.layer_view(
                        ql,
                    )[qj]).id_spec() == f;
                let qi = if ql == layer && qj >= pos { qj + 1 } else { qj };
                assert(self.layer_view(ql)[qi] == old_self.layer_view(ql)[qj]);
            }
            assert(self.layer_view(layer)[pos].id_spec() == wv.id_spec());
            self.lemma_window_spec(layer, pos);
        }
        true
    }

    /// The number of windows, which bounds any chain of parents.
    pub open spec fn chain_fuel(&self) -> nat {
        let n = self.layer_view(WindowLayer::Background).len() + self.layer_view(
            WindowLayer::Bottom,
        ).len() + self.layer_view(WindowLayer::Normal).len() + self.layer_view(WindowLayer::Top).len()
            + self.layer_view(WindowLayer::Overlay).len();
        if n > usize::MAX {
            usize::MAX as nat
        } else {
            n as nat
        }
    }

    /// The window that `w` is attached to, if it is known.
    pub open spec fn parent_window(&self, w: Window) -> Option<Window> {
        match w.surface_spec().parent_spec() {
            Some(p) => if self.contains_id(p) {
                Some(self.window_spec(p))
            } else {
                None
            },
            None => None,
        }
    }

    /// The offset that takes surface coordinates of `w` to the shared
    /// layout: the stored position, plus the parent's buffer position and
    /// the parent's XDG geometry offset, plus the popup offset, minus the
    /// client-side shadow. At most `fuel`
    /// parents are followed.
    pub open spec fn position_displacement_spec(&self, w: Window, fuel: nat) -> (int, int)
        decreases fuel,
    {
        let par: (int, int) = if fuel > 0 {
            match self.parent_window(w) {
                Some(p) => {
                    let d = self.position_displacement_spec(p, (fuel - 1) as nat);
                    let b = p.surface_spec().state_spec().buffer.top_left;
                    let g = p.surface_spec().popup_origin_spec();
                    (b.x + d.0 + g.0, b.y + d.1 + g.1)
                },
                None => (0, 0),
            }
        } else {
            (0, 0)
        };
        let pd = w.surface_spec().parent_displacement_spec();
        let bd = w.surface_spec().buffer_displacement_spec();
        (
            w.top_left_spec().x + par.0 + pd.0 - bd.0,
            w.top_left_spec().y + par.1 + pd.1 - bd.1,
        )
    }

    /// Every step of the offset computation stays representable.
    pub open spec fn displacement_fits(&self, w: Window, fuel: nat) -> bool
        decreases fuel,
    {
        let par: (int, int) = if fuel > 0 {
            match self.parent_window(w) {
                Some(p) => {
                    let d = self.position_displacement_spec(p, (fuel - 1) as nat);
                    let b = p.surface_spec().state_spec().buffer.top_left;
                    let g = p.surface_spec().popup_origin_spec();
                    (b.x + d.0 + g.0, b.y + d.1 + g.1)
                },
                None => (0, 0),
            }
        } else {
            (0, 0)
        };
        let pd = w.surface_spec().parent_displacement_spec();
        let bd = w.surface_spec().buffer_displacement_spec();
        &&& fuel > 0 ==> match self.parent_window(w) {
            Some(p) => {
                let d = self.position_displacement_spec(p, (fuel - 1) as nat);
                let b = p.surface_spec().state_spec().buffer.top_left;
                &&& self.displacement_fits(p, (fuel - 1) as nat)
                &&& in_i32(b.x + d.0) && in_i32(b.y + d.1)
            },
            None => true,
        }
        &&& in_i32(par.0) && in_i32(par.1)
        &&& in_i32(w.top_left_spec().x + par.0) && in_i32(w.top_left_spec().y + par.1)
        &&& in_i32(w.top_left_spec().x + par.0 + pd.0) && in_i32(w.top_left_spec().y + par.1 + pd.1)
        &&& in_i32(w.top_left_spec().x + par.0 + pd.0 - bd.0)
        &&& in_i32(w.top_left_spec().y + par.1 + pd.1 - bd.1)
    }

    /// `r` moved by the offset of `w`, when that is representable.
    pub open spec fn placed(&self, w: Window, r: Rectangle) -> Rectangle {
        let d = self.position_displacement_spec(w, self.chain_fuel());
        Rectangle {
            top_left: TPoint { x: (r.top_left.x + d.0) as i32, y: (r.top_left.y + d.1) as i32 },
            size: r.size,
        }
    }

    pub open spec fn placed_fits(&self, w: Window, r: Rectangle) -> bool {
        let d = self.position_displacement_spec(w, self.chain_fuel());
        &&& self.displacement_fits(w, self.chain_fuel())
        &&& in_i32(r.top_left.x + d.0)
        &&& in_i32(r.top_left.y + d.1)
        &&& self.placed(w, r).wf()
    }

    /// Where the window with the given id is on screen.
    pub open spec fn extents_spec(&self, id: u64) -> Rectangle {
        let w = self.window_spec(id);
        self.placed(w, w.surface_spec().extents_spec())
    }

    /// Where the buffer of the window with the given id is on screen.
    pub open spec fn buffer_extents_spec(&self, id: u64) -> Rectangle {
        let w = self.window_spec(id);
        self.placed(w, w.surface_spec().state_spec().buffer)
    }

    pub open spec fn extents_fit(&self, id: u64) -> bool {
        let w = self.window_spec(id);
        self.placed_fits(w, w.surface_spec().extents_spec())
    }

    pub open spec fn buffer_extents_fit(&self, id: u64) -> bool {
        let w = self.window_spec(id);
        self.placed_fits(w, w.surface_spec().state_spec().buffer)
    }

    fn chain_fuel_exec(&self) -> (r: usize)
        ensures
            r == self.chain_fuel(),
    {
        let n = self.background.len().saturating_add(self.bottom.len()).saturating_add(
            self.normal.len(),
        ).saturating_add(self.top.len()).saturating_add(self.overlay.len());
        n
    }

    fn position_displacement(&self, w: &Window, fuel: usize) -> (r: Displacement)
        requires
            self.wf(),
            w.surface_spec().wf(),
            self.displacement_fits(*w, fuel as nat),
        ensures
            r.dx == self.position_displacement_spec(*w, fuel as nat).0,
            r.dy == self.position_displacement_spec(*w, fuel as nat).1,
        decreases fuel,
    {
        let mut d = w.top_left().as_displacement();
        if fuel > 0 {
            if let Some(pid) = w.surface().parent() {
                if let Some(p) = self.window(pid) {
                    proof {
                        self.lemma_window_spec_valid(pid);
                    }
                    let pd = self.position_displacement(p, fuel - 1);
                    let b = p.surface().buffer_rect().top_left;
                    let g = p.surface().popup_origin();
                    let pt = TDisplacement { dx: b.x + pd.dx + g.dx, dy: b.y + pd.dy + g.dy };
                    d = d.add(&pt);
                }
            }
        }
        d = d.add(&w.surface().parent_displacement());
        d = d.sub(&w.surface().buffer_displacement());
        d
    }

    fn placed_exec(&self, w: &Window, r: &Rectangle) -> (out: Rectangle)
        requires
            self.wf(),
            w.surface_spec().wf(),
            self.placed_fits(*w, *r),
        ensures
            out == self.placed(*w, *r),
    {
        let d = self.position_displacement(w, self.chain_fuel_exec());
        r.translate(&d)
    }

    /// The position and size of a window.
    pub fn extents(&self, id: u64) -> (r: Rectangle)
        requires
            self.wf(),
            self.contains_id(id),
            self.extents_fit(id),
        ensures
            r == self.extents_spec(id),
            r.wf(),
    {
        proof {
            self.lemma_window_spec_valid(id);
        }
        let w = self.window(id).unwrap();
        self.placed_exec(w, &w.surface().extents())
    }

    /// The position and size of a window's buffer, which is larger than its
    /// extents when the client draws its own shadows.
    pub fn buffer_extents(&self, id: u64) -> (r: Rectangle)
        requires
            self.wf(),
            self.contains_id(id),
            self.buffer_extents_fit(id),
        ensures
            r == self.buffer_extents_spec(id),
            r.wf(),
    {
        proof {
            self.lemma_window_spec_valid(id);
        }
        let w = self.window(id).unwrap();
        self.placed_exec(w, &w.surface().buffer_rect())
    }

    /// `self` holds windows of the same ids and layers as `o`, at the same
    /// places, with well-formed surfaces, and the same focus.
    pub open spec fn same_shape(&self, o: &WindowManager) -> bool {
        &&& forall|l: WindowLayer| self.layer_view(l).len() == o.layer_view(l).len()
        &&& forall|l: WindowLayer, i: int|
            0 <= i < self.layer_view(l).len() ==> {
                &&& (#[trigger] self.layer_view(l)[i]).id_spec() == o.layer_view(l)[i].id_spec()
                &&& self.layer_view(l)[i].layer_spec() == o.layer_view(l)[i].layer_spec()
                &&& self.layer_view(l)[i].surface_spec().wf()
            }
        &&& self.focused_spec() == o.focused_spec()
    }

    /// `self` holds exactly what `o` holds.
    pub open spec fn same_state(&self, o: &WindowManager) -> bool {
        &&& forall|l: WindowLayer| #[trigger] self.layer_view(l) == o.layer_view(l)
        &&& self.focused_spec() == o.focused_spec()
    }

    /// `self` is `o` with at most the window `id` changed in place.
    pub open spec fn only_changed(&self, o: &WindowManager, id: u64) -> bool {
        &&& self.same_shape(o)
        &&& forall|l: WindowLayer, i: int|
            0 <= i < self.layer_view(l).len() && o.layer_view(l)[i].id_spec() != id ==> (
            #[trigger] self.layer_view(l)[i]) == o.layer_view(l)[i]
    }

    pub proof fn lemma_same_shape(&self, o: &WindowManager)
        requires
            o.wf(),
            self.same_shape(o),
        ensures
            self.wf(),
            forall|id: u64| #[trigger] self.contains_id(id) == o.contains_id(id),
            forall|l: WindowLayer| ids_of(#[trigger] self.layer_view(l)) == ids_of(o.layer_view(l)),
    {
        assert forall|l1: WindowLayer, i: int, l2: WindowLayer, j: int|
            0 <= i < self.layer_view(l1).len() && 0 <= j < self.layer_view(l2).len() && (l1 != l2
                || i != j) implies (#[trigger] self.layer_view(l1)[i]).id_spec() != (
        #[trigger] self.layer_view(l2)[j]).id_spec() by {
            assert(o.layer_view(l1)[i].id_spec() != o.layer_view(l2)[j].id_spec());
        }
        assert forall|id: u64| #[trigger] self.contains_id(id) == o.contains_id(id) by {
            if self.contains_id(id) {
                let (l, i) = choose|l: WindowLayer, i: int|
                    0 <= i < self.layer_view(l).len() && (#[trigger] self.layer_view(l)[i]).id_spec()
                        == id;
                assert(o.layer_view(l)[i].id_spec() == id);
            }
            if o.contains_id(id) {
                let (l, i) = choose|l: WindowLayer, i: int|
                    0 <= i < o.layer_view(l).len() && (#[trigger] o.layer_view(l)[i]).id_spec() == id;
                assert(self.layer_view(l)[i].id_spec() == id);
            }
        }
        assert forall|l: WindowLayer| ids_of(#[trigger] self.layer_view(l)) == ids_of(o.layer_view(l)) by {
            assert(ids_of(self.layer_view(l)) =~= ids_of(o.layer_view(l)));
        }
        if let Some(f) = self.focused_spec() {
            assert(o.contains_id(f));
        }
    }

    /// Whether every step of the offset computation stays representable,
    /// checked with wide arithmetic.
    fn displacement_fits_exec(&self, w: &Window, fuel: usize) -> (r: bool)
        requires
            self.wf(),
            w.surface_spec().wf(),
        ensures
            r == self.displacement_fits(*w, fuel as nat),
        decreases fuel,
    {
        let mut par_x: i64 = 0;
        let mut par_y: i64 = 0;
        if fuel > 0 {
            if let Some(pid) = w.surface().parent() {
                if let Some(p) = self.window(pid) {
                    proof {
                        self.lemma_window_spec_valid(pid);
                    }
                    if !self.displacement_fits_exec(p, fuel - 1) {
                        return false;
                    }
                    let pd = self.position_displacement(p, fuel - 1);
                    let b = p.surface().buffer_rect().top_left;
                    let g = p.surface().popup_origin();
                    let bx = b.x as i64 + pd.dx as i64;
                    let by = b.y as i64 + pd.dy as i64;
                    if !(i32::MIN as i64 <= bx && bx <= i32::MAX as i64 && i32::MIN as i64 <= by
                        && by <= i32::MAX as i64) {
                        return false;
                    }
                    par_x = bx + g.dx as i64;
                    par_y = by + g.dy as i64;
                }
            }
        }
        let lo = i32::MIN as i64;
        let hi = i32::MAX as i64;
        if !(lo <= par_x && par_x <= hi && lo <= par_y && par_y <= hi) {
            return false;
        }
        let tl = w.top_left();
        let pd = w.surface().parent_displacement();
        let bd = w.surface().buffer_displacement();
        let x1 = tl.x as i64 + par_x;
        let y1 = tl.y as i64 + par_y;
        let x2 = x1 + pd.dx as i64;
        let y2 = y1 + pd.dy as i64;
        let x3 = x2 - bd.dx as i64;
        let y3 = y2 - bd.dy as i64;
        lo <= x1 && x1 <= hi && lo <= y1 && y1 <= hi && lo <= x2 && x2 <= hi && lo <= y2 && y2 <= hi
            && lo <= x3 && x3 <= hi && lo <= y3 && y3 <= hi
    }

    fn placed_fits_exec(&self, w: &Window, r: &Rectangle) -> (ok: bool)
        requires
            self.wf(),
            w.surface_spec().wf(),
        ensures
            ok == self.placed_fits(*w, *r),
    {
        let fuel = self.chain_fuel_exec();
        if !self.displacement_fits_exec(w, fuel) {
            return false;
        }
        let d = self.position_displacement(w, fuel);
        let x = r.top_left.x as i64 + d.dx as i64;
        let y = r.top_left.y as i64 + d.dy as i64;
        let lo = i32::MIN as i64;
        let hi = i32::MAX as i64;
        if !(lo <= x && x <= hi && lo <= y && y <= hi) {
            return false;
        }
        let moved = r.translate(&d);
        moved.is_representable()
    }

    /// The extents of a window, or nothing when they cannot be represented.
    pub fn try_extents(&self, id: u64) -> (r: Option<Rectangle>)
        requires
            self.wf(),
            self.contains_id(id),
        ensures
            r == (if self.extents_fit(id) {
                Some(self.extents_spec(id))
            } else {
                None
            }),
    {
        proof {
            self.lemma_window_spec_valid(id);
        }
        let w = self.window(id).unwrap();
        let e = w.surface().extents();
        if self.placed_fits_exec(w, &e) {
            Some(self.placed_exec(w, &e))
        } else {
            None
        }
    }

    /// The extents against which output membership is decided: a window
    /// whose extents cannot be represented appears on no output.
    pub open spec fn membership_extents(&self, id: u64) -> Rectangle {
        if self.extents_fit(id) {
            self.extents_spec(id)
        } else {
            Rectangle { top_left: TPoint { x: 0, y: 0 }, size: crate::geometry::Size { width: 0, height: 0 } }
        }
    }

    /// Recomputes the outputs a window appears on against the live
    /// outputs, in their order, and returns an enter notice for each output
    /// newly overlapped and a leave notice for each output no longer
    /// overlapped. Outputs that are not live are left as they were.
    pub fn update_outputs(&mut self, id: u64, outputs: &OutputManager) -> (notices: Vec<Notice>)
        requires
            old(self).wf(),
            outputs.wf(),
            old(self).contains_id(id),
        ensures
            final(self).wf(),
            final(self).only_changed(old(self), id),
            final(self).same_geometry(old(self)),
            final(self).contains_id(id),
            final(self).window_spec(id).outputs_spec() == membership_after(
                outputs.outputs_spec(),
                old(self).window_spec(id).outputs_spec(),
                old(self).membership_extents(id),
            ),
            notices@ == membership_notices(
                outputs.outputs_spec(),
                old(self).window_spec(id).outputs_spec(),
                old(self).membership_extents(id),
                id,
            ),
            final(self).window_spec(id).surface_spec() == old(self).window_spec(id).surface_spec(),
            final(self).window_spec(id).top_left_spec() == old(self).window_spec(id).top_left_spec(),
            final(self).window_spec(id).pending_spec() == old(self).window_spec(id).pending_spec(),
            final(self).window_spec(id).same_identity(&old(self).window_spec(id)),
    {
        let (l, i) = self.find(id).unwrap();
        proof {
            self.lemma_window_spec(l, i as int);
        }
        let ext = match self.try_extents(id) {
            Some(e) => e,
            None => Rectangle::zero(),
        };
        let outs = outputs.outputs();
        let ghost prev = self.window_spec(id).outputs_spec();
        let mut cur: Vec<u64> = copy_ids(self.layer_ref(l)[i].outputs());
        let mut notices: Vec<Notice> = Vec::new();
        let mut k: usize = 0;
        while k < outs.len()
            invariant
                0 <= k <= outs@.len(),
                outs@ == outputs.outputs_spec(),
                outputs.wf(),
                ext.wf(),
                cur@ == membership_after(outs@.subrange(0, k as int), prev, ext),
                notices@ == membership_notices(outs@.subrange(0, k as int), prev, ext, id),
            decreases outs@.len() - k,
        {
            let o = outs[k];
            proof {
                assert(outs@.subrange(0, k + 1).drop_last() =~= outs@.subrange(0, k as int));
                assert(outs@.subrange(0, k + 1).last() == o);
                assert(outputs.outputs_spec()[k as int].wf());
            }
            let now = o.extents().overlaps(&ext);
            let was = contains_id(&cur, o.id);
            if now && !was {
                cur.push(o.id);
                notices.push(Notice::EnteredOutput { window: id, output: o.id });
            } else if !now && was {
                cur = without_id(&cur, o.id);
                notices.push(Notice::LeftOutput { window: id, output: o.id });
            }
            proof {
                assert(notices@ =~= membership_notices(outs@.subrange(0, k + 1), prev, ext, id));
            }
            k = k + 1;
        }
        proof {
            assert(outs@.subrange(0, k as int) =~= outs@);
        }
        let ghost before = *self;
        self.layer_mut(l)[i].set_outputs(cur);
        proof {
            self.lemma_same_shape(&before);
            self.lemma_window_spec(l, i as int);
        }
        notices
    }
    /// `self` is `o` with the same windows at the same places, each with
    /// the same surface and position.
    pub open spec fn same_geometry(&self, o: &WindowManager) -> bool {
        &&& self.same_shape(o)
        &&& forall|l: WindowLayer, i: int|
            0 <= i < self.layer_view(l).len() ==> (#[trigger] self.layer_view(l)[i]).surface_spec()
                == o.layer_view(l)[i].surface_spec() && self.layer_view(l)[i].top_left_spec()
                == o.layer_view(l)[i].top_left_spec()
    }

    proof fn lemma_same_geometry_window(&self, o: &WindowManager, id: u64)
        requires
            o.wf(),
            self.same_geometry(o),
            o.contains_id(id),
        ensures
            self.contains_id(id),
            self.window_spec(id).surface_spec() == o.window_spec(id).surface_spec(),
            self.window_spec(id).top_left_spec() == o.window_spec(id).top_left_spec(),
    {
        self.lemma_same_shape(o);
        let (l, i) = choose|l: WindowLayer, i: int|
            0 <= i < o.layer_view(l).len() && (#[trigger] o.layer_view(l)[i]).id_spec() == id;
        o.lemma_window_spec(l, i);
        self.lemma_window_spec(l, i);
    }

    proof fn lemma_same_geometry_displacement(
        &self,
        o: &WindowManager,
        w1: Window,
        w2: Window,
        fuel: nat,
    )
        requires
            o.wf(),
            self.same_geometry(o),
            w1.surface_spec() == w2.surface_spec(),
            w1.top_left_spec() == w2.top_left_spec(),
        ensures
            self.position_displacement_spec(w1, fuel) == o.position_displacement_spec(w2, fuel),
            self.displacement_fits(w1, fuel) == o.displacement_fits(w2, fuel),
        decreases fuel,
    {
        self.lemma_same_shape(o);
        if fuel > 0 {
            match w2.surface_spec().parent_spec() {
                Some(pid) => {
                    if o.contains_id(pid) {
                        self.lemma_same_geometry_window(o, pid);
                        self.lemma_same_geometry_displacement(
                            o,
                            self.window_spec(pid),
                            o.window_spec(pid),
                            (fuel - 1) as nat,
                        );
                    }
                },
                None => {},
            }
        }
    }

    /// Extents depend only on the surfaces and positions of the windows.
    pub proof fn lemma_same_geometry(&self, o: &WindowManager, id: u64)
        requires
            o.wf(),
            self.same_geometry(o),
            o.contains_id(id),
        ensures
            self.extents_fit(id) == o.extents_fit(id),
            self.extents_spec(id) == o.extents_spec(id),
            self.buffer_extents_fit(id) == o.buffer_extents_fit(id),
            self.buffer_extents_spec(id) == o.buffer_extents_spec(id),
            self.membership_extents(id) == o.membership_extents(id),
    {
        self.lemma_same_geometry_window(o, id);
        assert(self.chain_fuel() == o.chain_fuel());
        self.lemma_same_geometry_displacement(
            o,
            self.window_spec(id),
            o.window_spec(id),
            self.chain_fuel(),
        );
    }

    /// Moves a window: stores the position, tells the surface, and then
    /// recomputes the outputs the window appears on. An unknown id is
    /// ignored.
    pub fn move_to(&mut self, id: u64, top_left: Point, outputs: &OutputManager) -> (notices: Vec<
        Notice,
    >)
        requires
            old(self).wf(),
            outputs.wf(),
        ensures
            final(self).wf(),
            !old(self).contains_id(id) ==> notices@.len() == 0 && final(self).same_geometry(old(self))
                && final(self).only_changed(old(self), id),
            old(self).contains_id(id) ==> {
                let before = old(self).window_spec(id);
                let after = final(self).window_spec(id);
                &&& final(self).only_changed(old(self), id)
                &&& final(self).contains_id(id)
                &&& after.top_left_spec() == top_left
                &&& before.surface_spec().move_to_spec(top_left, after.surface_spec())
                &&& surface_placed_as_stored(after.surface_spec()) == surface_placed_as_stored(
                    before.surface_spec(),
                )
                &&& final(self).extents_spec(id).size == old(self).extents_spec(id).size
                &&& final(self).placed_as_stored(id) && final(self).extents_fit(id)
                    ==> final(self).extents_spec(id).top_left == top_left
                &&& after.pending_spec() == before.pending_spec()
                &&& after.same_identity(&before)
                &&& after.outputs_spec() == membership_after(
                    outputs.outputs_spec(),
                    before.outputs_spec(),
                    final(self).membership_extents(id),
                )
                &&& notices@ == membership_notices(
                    outputs.outputs_spec(),
                    before.outputs_spec(),
                    final(self).membership_extents(id),
                    id,
                )
            },
    {
        match self.find(id) {
            None => {
                proof {
                    assert(self.same_geometry(old(self)));
                }
                Vec::new()
            },
            Some((l, i)) => {
                proof {
                    self.lemma_window_spec(l, i as int);
                }
                let ghost before = *self;
                self.layer_mut(l)[i].place_at(top_left);
                proof {
                    self.lemma_same_shape(&before);
                    self.lemma_window_spec(l, i as int);
                }
                let ghost mid = *self;
                let notices = self.update_outputs(id, outputs);
                proof {
                    self.lemma_same_geometry(&mid, id);
                    if self.placed_as_stored(id) && self.extents_fit(id) {
                        self.lemma_placed_as_stored(id);
                    }
                }
                notices
            },
        }
    }

    /// Asks a window's client for new extents; the position follows once
    /// the client commits with the returned serial. An unknown id is
    /// ignored.
    pub fn set_extents(&mut self, id: u64, extents: &Rectangle) -> (serial: Option<u32>)
        requires
            old(self).wf(),
        ensures
            final(self).wf(),
            final(self).only_changed(old(self), id),
            serial.is_none() <==> !old(self).contains_id(id),
            serial matches Some(s) ==> {
                let before = old(self).window_spec(id);
                let after = final(self).window_spec(id);
                &&& final(self).contains_id(id)
                &&& before.surface_spec().resize_spec(extents.size, after.surface_spec(), s)
                &&& after.pending_spec() == before.pending_spec().insert(s, extents.top_left)
                &&& after.top_left_spec() == before.top_left_spec()
                &&& after.same_identity(&before)
                &&& after.outputs_spec() == before.outputs_spec()
            },
    {
        match self.find(id) {
            None => None,
            Some((l, i)) => {
                proof {
                    self.lemma_window_spec(l, i as int);
                }
                let ghost before = *self;
                let serial = self.layer_mut(l)[i].set_extents(extents);
                proof {
                    self.lemma_same_shape(&before);
                    self.lemma_window_spec(l, i as int);
                }
                Some(serial)
            },
        }
    }

    /// Asks a window's client for a new size, with no position to follow.
    /// An unknown id is ignored.
    pub fn resize_window(&mut self, id: u64, size: crate::geometry::Size)
        requires
            old(self).wf(),
        ensures
            final(self).wf(),
            final(self).only_changed(old(self), id),
            old(self).contains_id(id) ==> {
                let before = old(self).window_spec(id);
                let after = final(self).window_spec(id);
                &&& final(self).contains_id(id)
                &&& exists|serial: u32| #[trigger] before.surface_spec().resize_spec(size, after.surface_spec(), serial)
                &&& after.pending_spec() == before.pending_spec()
                &&& after.top_left_spec() == before.top_left_spec()
                &&& after.same_identity(&before)
                &&& after.outputs_spec() == before.outputs_spec()
            },
    {
        match self.find(id) {
            None => {},
            Some((l, i)) => {
                proof {
                    self.lemma_window_spec(l, i as int);
                }
                let ghost before = *self;
                self.layer_mut(l)[i].resize(size);
                proof {
                    let b = before.layer_view(l)[i as int].surface_spec();
                    let a = self.layer_view(l)[i as int].surface_spec();
                    let serial = choose|serial: u32| #[trigger] b.resize_spec(size, a, serial);
                    b.lemma_resize_spec(size, a, serial);
                    self.lemma_same_shape(&before);
                    self.lemma_window_spec(l, i as int);
                }
            },
        }
    }

    /// The window that holds keyboard focus.
    pub fn focused_window(&self) -> (r: Option<u64>)
        ensures
            r == self.focused_spec(),
    {
        self.focused
    }

    /// Whether the window holds keyboard focus.
    pub fn window_has_focus(&self, id: u64) -> (r: bool)
        ensures
            r == (self.focused_spec() == Some(id)),
    {
        match self.focused {
            Some(f) => f == id,
            None => false,
        }
    }

    /// Asks a window's surface to take one flag. An unknown id is ignored.
    pub fn set_window_flag(&mut self, id: u64, flag: SurfaceFlag, value: bool)
        requires
            old(self).wf(),
        ensures
            final(self).wf(),
            final(self).only_changed(old(self), id),
            old(self).contains_id(id) ==> {
                let before = old(self).window_spec(id);
                let after = final(self).window_spec(id);
                &&& final(self).contains_id(id)
                &&& after.surface_spec() == configured_surface(
                    before.surface_spec(),
                    with_flag(before.surface_spec().state_spec(), flag, value),
                    xwayland_keeps(flag),
                )
                &&& after.top_left_spec() == before.top_left_spec()
                &&& after.pending_spec() == before.pending_spec()
                &&& after.outputs_spec() == before.outputs_spec()
                &&& after.same_identity(&before)
            },
    {
        match self.find(id) {
            None => {},
            Some((l, i)) => {
                proof {
                    self.lemma_window_spec(l, i as int);
                }
                let ghost before = *self;
                let _serial = self.layer_mut(l)[i].set_flag(flag, value);
                proof {
                    self.lemma_same_shape(&before);
                    self.lemma_window_spec(l, i as int);
                }
            },
        }
    }

    /// Takes the geometry and buffer that a window's client committed. A
    /// buffer offset that cannot be corrected for, or an unknown id, is
    /// refused with nothing changed.
    pub fn apply_client_state(&mut self, id: u64, geometry: Rectangle, buffer: Rectangle) -> (applied: bool)
        requires
            old(self).wf(),
        ensures
            final(self).wf(),
            final(self).only_changed(old(self), id),
            applied == (old(self).contains_id(id) && old(self).window_spec(id).surface_spec().with_state(
                crate::surface::SurfaceState { geometry, buffer, ..old(self).window_spec(id).surface_spec().state_spec() },
            ).wf()),
            !applied ==> final(self).same_state(old(self)),
            applied ==> {
                let before = old(self).window_spec(id);
                let after = final(self).window_spec(id);
                &&& final(self).contains_id(id)
                &&& after.surface_spec() == before.surface_spec().with_state(
                    crate::surface::SurfaceState { geometry, buffer, ..before.surface_spec().state_spec() },
                )
                &&& after.top_left_spec() == before.top_left_spec()
                &&& after.pending_spec() == before.pending_spec()
                &&& after.outputs_spec() == before.outputs_spec()
                &&& after.same_identity(&before)
            },
    {
        match self.find(id) {
            None => {
                proof {
                    assert(self.same_state(old(self)));
                }
                false
            },
            Some((l, i)) => {
                proof {
                    self.lemma_window_spec(l, i as int);
                }
                let mut probe = *self.layer_ref(l)[i].surface();
                probe.apply_client_state(geometry, buffer);
                if !probe.is_wf() {
                    proof {
                        assert(self.same_state(old(self)));
                    }
                    return false;
                }
                let ghost before = *self;
                self.layer_mut(l)[i].apply_client_state(geometry, buffer);
                proof {
                    self.lemma_same_shape(&before);
                    self.lemma_window_spec(l, i as int);
                }
                true
            },
        }
    }

    /// Records where a dock shows the window, as reported through the
    /// surface `surface`; an empty rectangle removes that surface's
    /// target. An unknown id is ignored.
    pub fn set_minimize_target(&mut self, id: u64, surface: u64, rectangle: Rectangle)
        requires
            old(self).wf(),
        ensures
            final(self).wf(),
            final(self).same_geometry(old(self)),
            forall|l: WindowLayer, i: int|
                0 <= i < final(self).layer_view(l).len() && old(self).layer_view(l)[i].id_spec() != id
                    ==> (#[trigger] final(self).layer_view(l)[i]) == old(self).layer_view(l)[i],
            old(self).contains_id(id) ==> {
                let before = old(self).window_spec(id);
                let after = final(self).window_spec(id);
                &&& final(self).contains_id(id)
                &&& after.minimize_targets_spec() == crate::window::targets_after(
                    before.minimize_targets_spec(),
                    surface,
                    rectangle,
                )
                &&& after.pending_spec() == before.pending_spec()
                &&& after.outputs_spec() == before.outputs_spec()
                &&& after.mapped_spec() == before.mapped_spec()
            },
    {
        match self.find(id) {
            None => {
                proof {
                    assert(self.same_geometry(old(self)));
                }
            },
            Some((l, i)) => {
                proof {
                    self.lemma_window_spec(l, i as int);
                }
                let ghost before = *self;
                self.layer_mut(l)[i].set_minimize_target(surface, rectangle);
                proof {
                    self.lemma_same_shape(&before);
                    self.lemma_window_spec(l, i as int);
                }
            },
        }
    }

    /// Asks a window's client to close it. An unknown id is ignored.
    pub fn ask_client_to_close(&mut self, id: u64)
        requires
            old(self).wf(),
        ensures
            final(self).wf(),
            final(self).only_changed(old(self), id),
            old(self).contains_id(id) ==> {
                let before = old(self).window_spec(id);
                let after = final(self).window_spec(id);
                &&& final(self).contains_id(id)
                &&& after.surface_spec().state_spec().close_requested
                &&& after.surface_spec() == before.surface_spec().with_state(
                    crate::surface::SurfaceState { close_requested: true, ..before.surface_spec().state_spec() },
                )
                &&& after.top_left_spec() == before.top_left_spec()
                &&& after.pending_spec() == before.pending_spec()
                &&& after.outputs_spec() == before.outputs_spec()
                &&& after.same_identity(&before)
            },
    {
        match self.find(id) {
            None => {},
            Some((l, i)) => {
                proof {
                    self.lemma_window_spec(l, i as int);
                }
                let ghost before = *self;
                self.layer_mut(l)[i].ask_client_to_close();
                proof {
                    self.lemma_same_shape(&before);
                    self.lemma_window_spec(l, i as int);
                }
            },
        }
    }

    /// Takes keyboard focus away without giving it to another window; the
    /// window that had it is deactivated.
    pub fn blur(&mut self)
        requires
            old(self).wf(),
        ensures
            final(self).wf(),
            final(self).focused_spec().is_none(),
            forall|l: WindowLayer| ids_of(#[trigger] final(self).layer_view(l)) == ids_of(old(self).layer_view(l)),
            forall|l: WindowLayer| #[trigger] final(self).layer_view(l).len() == old(self).layer_view(l).len(),
            old(self).focused_spec() matches Some(f) ==> {
                let before = old(self).window_spec(f);
                let after = final(self).window_spec(f);
                &&& final(self).contains_id(f)
                &&& after.surface_spec() == deactivated(before.surface_spec())
                &&& !after.surface_spec().activated_spec()
                &&& after.surface_spec().can_receive_focus_spec() == before.surface_spec().can_receive_focus_spec()
                &&& after.top_left_spec() == before.top_left_spec()
                &&& after.pending_spec() == before.pending_spec()
                &&& after.outputs_spec() == before.outputs_spec()
                &&& after.same_identity(&before)
            },
            forall|l: WindowLayer, i: int|
                0 <= i < final(self).layer_view(l).len() && Some(
                    old(self).layer_view(l)[i].id_spec(),
                ) != old(self).focused_spec() ==> (#[trigger] final(self).layer_view(l)[i])
                    == old(self).layer_view(l)[i],
    {
        let ghost mid = *self;
        if let Some(f) = self.focused {
            self.set_window_flag(f, SurfaceFlag::Activated, false);
            proof {
                self.lemma_same_shape(old(self));
                mid = *self;
                let b = old(self).window_spec(f).surface_spec();
                let a = self.window_spec(f).surface_spec();
                assert(!a.activated_spec() && a.can_receive_focus_spec() == b.can_receive_focus_spec()) by {
                    if b.is_xdg_toplevel() {
                        assert(a == b.with_state(
                            crate::surface::SurfaceState { activated: false, ..b.state_spec() },
                        ).bump_serial());
                    }
                }
            }
        }
        self.focused = None;
        proof {
            assert forall|l: WindowLayer| #[trigger] self.layer_view(l) == mid.layer_view(l) by {}
            assert(self.wf());
            if let Some(f) = old(self).focused_spec() {
                let (l, i) = choose|l: WindowLayer, i: int|
                    0 <= i < mid.layer_view(l).len() && (#[trigger] mid.layer_view(l)[i]).id_spec()
                        == f;
                mid.lemma_window_spec(l, i);
                self.lemma_window_spec(l, i);
            }
            let before = *old(self);
            assert forall|l: WindowLayer| ids_of(#[trigger] self.layer_view(l)) == ids_of(before.layer_view(l)) by {
                assert(ids_of(self.layer_view(l)) =~= ids_of(before.layer_view(l)));
            }
        }
    }
    /// Handles a commit of the window's client. A window that can no
    /// longer take focus loses it. The update that awaited the commit's
    /// serial, if any, is taken out and the window moves to its position;
    /// either way the outputs are recomputed, and the policy is told that
    /// the window was configured. An unknown id is ignored.
    pub fn commit(&mut self, id: u64, serial: u32, outputs: &OutputManager) -> (notices: Vec<Notice>)
        requires
            old(self).wf(),
            outputs.wf(),
        ensures
            final(self).wf(),
            !old(self).contains_id(id) ==> notices@.len() == 0 && final(self).only_changed(
                old(self),
                id,
            ),
            old(self).contains_id(id) ==> {
                let before = old(self).window_spec(id);
                let after = final(self).window_spec(id);
                &&& final(self).contains_id(id)
                &&& forall|l: WindowLayer| ids_of(#[trigger] final(self).layer_view(l)) == ids_of(old(self).layer_view(l))
                &&& after.top_left_spec() == (if before.pending_spec().contains_key(serial) {
                    before.pending_spec()[serial]
                } else {
                    before.top_left_spec()
                })
                &&& after.pending_spec() == before.pending_spec().remove(serial)
                &&& after.outputs_spec() == membership_after(
                    outputs.outputs_spec(),
                    before.outputs_spec(),
                    final(self).membership_extents(id),
                )
                &&& after.same_identity(&before)
                &&& final(self).focused_spec() == (if !before.surface_spec().can_receive_focus_spec()
                    && old(self).focused_spec() == Some(id) {
                    None
                } else {
                    old(self).focused_spec()
                })
                &&& after.surface_spec() == ({
                    let blurred = !before.surface_spec().can_receive_focus_spec()
                        && old(self).focused_spec() == Some(id);
                    let s1 = if blurred {
                        deactivated(before.surface_spec())
                    } else {
                        before.surface_spec()
                    };
                    if before.pending_spec().contains_key(serial) {
                        s1.moved(before.pending_spec()[serial])
                    } else {
                        s1
                    }
                })
                &&& forall|l: WindowLayer, i: int|
                    0 <= i < final(self).layer_view(l).len() && old(self).layer_view(l)[i].id_spec() != id
                        ==> (#[trigger] final(self).layer_view(l)[i]) == old(self).layer_view(l)[i]
                &&& notices@ == membership_notices(
                    outputs.outputs_spec(),
                    before.outputs_spec(),
                    final(self).membership_extents(id),
                    id,
                ).push(Notice::ConfiguredWindow { window: id })
            },
    {
        if self.find(id).is_none() {
            return Vec::new();
        }
        let ghost w0 = self.window_spec(id);
        proof {
            self.lemma_window_spec_valid(id);
        }
        let can_focus = self.window(id).unwrap().surface().can_receive_focus();
        if !can_focus && self.window_has_focus(id) {
            self.blur();
        }
        let ghost s1 = *self;
        proof {
            assert(s1.window_spec(id).top_left_spec() == w0.top_left_spec());
            assert(s1.window_spec(id).pending_spec() == w0.pending_spec());
            assert(s1.window_spec(id).outputs_spec() == w0.outputs_spec());
            assert(s1.window_spec(id).same_identity(&w0));
        }
        let (l, i) = self.find(id).unwrap();
        proof {
            self.lemma_window_spec(l, i as int);
        }
        let taken = self.layer_mut(l)[i].take_pending_update(serial);
        proof {
            self.lemma_same_shape(&s1);
            self.lemma_window_spec(l, i as int);
        }
        let ghost s2 = *self;
        let mut notices = match taken {
            Some(p) => self.move_to(id, p, outputs),
            None => {
                let n = self.update_outputs(id, outputs);
                proof {
                    self.lemma_same_geometry(&s2, id);
                }
                n
            },
        };
        proof {
            self.lemma_same_shape(&s2);
        }
        let ghost body = notices@;
        notices.push(Notice::ConfiguredWindow { window: id });
        proof {
            assert forall|l: WindowLayer, i: int|
                0 <= i < self.layer_view(l).len() && old(self).layer_view(l)[i].id_spec() != id
                    implies (#[trigger] self.layer_view(l)[i]) == old(self).layer_view(l)[i] by {
                assert(ids_of(s1.layer_view(l)) == ids_of(old(self).layer_view(l)));
                assert(ids_of(s1.layer_view(l))[i] == ids_of(old(self).layer_view(l))[i]);
                assert(s1.layer_view(l)[i] == old(self).layer_view(l)[i]);
                assert(s2.layer_view(l)[i] == s1.layer_view(l)[i]);
            }
            assert forall|l: WindowLayer| ids_of(#[trigger] self.layer_view(l)) == ids_of(old(self).layer_view(l)) by {
                assert(ids_of(self.layer_view(l)) == ids_of(s2.layer_view(l)));
                assert(ids_of(s2.layer_view(l)) == ids_of(s1.layer_view(l)));
            }
        }
        notices
    }

    /// Moves the window at a place of its layer to the front of that layer.
    fn raise(&mut self, l: WindowLayer, i: usize)
        requires
            old(self).wf(),
            i < old(self).layer_view(l).len(),
        ensures
            final(self).wf(),
            final(self).layer_view(l) == old(self).layer_view(l).remove(i as int).push(
                old(self).layer_view(l)[i as int],
            ),
            forall|l2: WindowLayer| l2 != l ==> final(self).layer_view(l2) == old(self).layer_view(l2),
            final(self).focused_spec() == old(self).focused_spec(),
            forall|x: u64|
                old(self).contains_id(x) ==> (final(self).contains_id(x) && final(self).window_spec(x)
                    == old(self).window_spec(x)),
    {
        let ghost o = *old(self);
        let v = self.layer_mut(l);
        let w = v.remove(i);
        v.push(w);
        proof {
            let n = o.layer_view(l).len();
            let nv = self.layer_view(l);
            // position in the old layer of each new position
            assert forall|j: int| 0 <= j < nv.len() implies nv[j] == o.layer_view(l)[if j == n - 1 {
                i as int
            } else if j < i {
                j
            } else {
                j + 1
            }] by {}
            assert forall|l1: WindowLayer, a: int, l2: WindowLayer, b: int|
                0 <= a < self.layer_view(l1).len() && 0 <= b < self.layer_view(l2).len() && (l1 != l2
                    || a != b) implies (#[trigger] self.layer_view(l1)[a]).id_spec() != (
            #[trigger] self.layer_view(l2)[b]).id_spec() by {
                let a0 = if l1 != l { a } else if a == n - 1 { i as int } else if a < i { a } else { a + 1 };
                let b0 = if l2 != l { b } else if b == n - 1 { i as int } else if b < i { b } else { b + 1 };
                assert(self.layer_view(l1)[a] == o.layer_view(l1)[a0]);
                assert(self.layer_view(l2)[b] == o.layer_view(l2)[b0]);
            }
            assert forall|l1: WindowLayer, a: int|
                0 <= a < self.layer_view(l1).len() implies (#[trigger] self.layer_view(l1)[a]).layer_spec()
                == l1 && self.layer_view(l1)[a].surface_spec().wf() by {
                let a0 = if l1 != l { a } else if a == n - 1 { i as int } else if a < i { a } else { a + 1 };
                assert(self.layer_view(l1)[a] == o.layer_view(l1)[a0]);
            }
            if let Some(f) = self.focused_spec() {
                assert(o.contains_id(f));
                let (ql, qj) = choose|ql: WindowLayer, qj: int|
                    0 <= qj < o.layer_view(ql).len() && (#[trigger] o.layer_view(ql)[qj]).id_spec() == f;
                let q2 = if ql != l { qj } else if qj == i { n - 1 } else if qj < i { qj } else { qj - 1 };
                assert(self.layer_view(ql)[q2] == o.layer_view(ql)[qj]);
            }
            assert(self.wf());
            self.lemma_raise_keeps(&o, l, i as int);
        }
    }

    /// Gives keyboard focus to a window: the window that had focus is
    /// deactivated, the new one goes to the front of its own layer and is
    /// activated. A window that cannot take focus, or an unknown id, is
    /// refused with nothing changed; focusing the focused window changes
    /// nothing. Returns whether the window holds focus afterwards.
    pub fn focus_window(&mut self, id: u64) -> (focused: bool)
        requires
            old(self).wf(),
        ensures
            final(self).wf(),
            focused == (old(self).contains_id(id) && old(self).window_spec(
                id,
            ).surface_spec().can_receive_focus_spec()),
            !focused ==> final(self).only_changed(old(self), id) && final(self).same_geometry(old(self)),
            focused && old(self).focused_spec() == Some(id) ==> final(self).only_changed(old(self), id)
                && final(self).same_geometry(old(self)),
            focused ==> final(self).focused_spec() == Some(id),
            focused && old(self).focused_spec() != Some(id) ==> {
                let l = old(self).window_spec(id).layer_spec();
                &&& exists|i: int|
                    0 <= i < old(self).layer_view(l).len() && old(self).layer_view(l)[i].id_spec()
                        == id && ids_of(final(self).layer_view(l)) == ids_of(
                        old(self).layer_view(l),
                    ).remove(i).push(id)
                &&& forall|l2: WindowLayer|
                    l2 != l ==> ids_of(#[trigger] final(self).layer_view(l2)) == ids_of(
                        old(self).layer_view(l2),
                    )
                &&& final(self).window_spec(id).layer_spec() == l
                &&& final(self).window_spec(id).top_left_spec() == old(self).window_spec(id).top_left_spec()
                &&& final(self).window_spec(id).pending_spec() == old(self).window_spec(id).pending_spec()
                &&& final(self).window_spec(id).outputs_spec() == old(self).window_spec(id).outputs_spec()
                &&& (old(self).focused_spec() matches Some(f) ==> {
                    &&& final(self).contains_id(f)
                    &&& final(self).window_spec(f).surface_spec() == deactivated(old(self).window_spec(f).surface_spec())
                    &&& final(self).window_spec(f).top_left_spec() == old(self).window_spec(f).top_left_spec()
                    &&& final(self).window_spec(f).pending_spec() == old(self).window_spec(f).pending_spec()
                    &&& final(self).window_spec(f).outputs_spec() == old(self).window_spec(f).outputs_spec()
                })
                &&& forall|x: u64|
                    old(self).contains_id(x) && x != id && Some(x) != old(self).focused_spec()
                        ==> (final(self).contains_id(x)
                        && final(self).window_spec(x) == old(self).window_spec(x))
                &&& final(self).window_spec(id).surface_spec() == configured_surface(
                    old(self).window_spec(id).surface_spec(),
                    crate::surface::SurfaceState {
                        activated: true,
                        ..old(self).window_spec(id).surface_spec().state_spec()
                    },
                    true,
                )
            },
    {
        if self.find(id).is_none() {
            return false;
        }
        proof {
            self.lemma_window_spec_valid(id);
        }
        if !self.window(id).unwrap().surface().can_receive_focus() {
            return false;
        }
        if self.window_has_focus(id) {
            return true;
        }
        let ghost w0 = self.window_spec(id);
        self.blur();
        let ghost s1 = *self;
        proof {
            let (l0, i0) = choose|l0: WindowLayer, i0: int|
                0 <= i0 < old(self).layer_view(l0).len() && (#[trigger] old(self).layer_view(
                    l0,
                )[i0]).id_spec() == id;
            assert(ids_of(s1.layer_view(l0)) == ids_of(old(self).layer_view(l0)));
            assert(ids_of(s1.layer_view(l0))[i0] == id);
            assert(s1.layer_view(l0)[i0].id_spec() == id);
        }
        let (l, i) = self.find(id).unwrap();
        proof {
            self.lemma_window_spec(l, i as int);
            assert(w0.layer_spec() == l);
            assert(ids_of(s1.layer_view(l)) == ids_of(old(self).layer_view(l)));
            assert(ids_of(s1.layer_view(l))[i as int] == id);
            assert(old(self).layer_view(l)[i as int].id_spec() == id) by {
                assert(ids_of(old(self).layer_view(l))[i as int] == id);
            }
        }
        self.raise(l, i);
        let ghost s2 = *self;
        let n = self.layer_ref(l).len();
        proof {
            assert(self.layer_view(l)[n - 1].id_spec() == id);
            self.lemma_window_spec(l, (n - 1) as int);
            old(self).lemma_window_spec(l, i as int);
        }
        self.set_window_flag(id, SurfaceFlag::Activated, true);
        proof {
            self.lemma_same_shape(&s2);
            self.lemma_window_spec(l, (n - 1) as int);
        }
        let ghost s3 = *self;
        self.focused = Some(id);
        proof {
            assert forall|l2: WindowLayer| #[trigger] self.layer_view(l2) == s3.layer_view(l2) by {}
            assert(self.layer_view(l)[n - 1].id_spec() == id);
            assert(self.wf());
            self.lemma_window_spec(l, (n - 1) as int);
            assert(ids_of(s2.layer_view(l)) =~= ids_of(old(self).layer_view(l)).remove(i as int).push(id));
            assert forall|l2: WindowLayer| l2 != l implies ids_of(#[trigger] self.layer_view(l2)) == ids_of(
                old(self).layer_view(l2),
            ) by {
                assert(ids_of(s2.layer_view(l2)) == ids_of(s1.layer_view(l2)));
            }
            assert(self.window_spec(id).surface_spec().can_receive_focus_spec()
                == w0.surface_spec().can_receive_focus_spec());
            assert forall|l2: WindowLayer| ids_of(#[trigger] self.layer_view(l2)) == ids_of(s3.layer_view(l2)) by {}
            assert forall|x: u64|
                old(self).contains_id(x) && x != id && Some(x) != old(self).focused_spec()
                    implies (self.contains_id(x) && self.window_spec(x)
                    == old(self).window_spec(x)) by {
                s1.lemma_window_kept(old(self), x);
                s3.lemma_window_kept(&s2, x);
                self.lemma_window_kept(&s3, x);
            }
            if let Some(f) = old(self).focused_spec() {
                assert(s1.contains_id(f));
                s3.lemma_window_kept(&s2, f);
                self.lemma_window_kept(&s3, f);
            }
        }
        true
    }
    /// Removes a destroyed window from its layer, and from focus if it
    /// held it, and only then advises the policy of the deletion. An
    /// unknown id is ignored.
    pub fn destroy_window(&mut self, id: u64) -> (notices: Vec<Notice>)
        requires
            old(self).wf(),
        ensures
            final(self).wf(),
            !final(self).contains_id(id),
            !old(self).contains_id(id) ==> notices@.len() == 0 && final(self).only_changed(old(self), id),
            old(self).contains_id(id) ==> {
                let l = old(self).window_spec(id).layer_spec();
                &&& notices@ == seq![Notice::DeleteWindow { window: id }]
                &&& exists|i: int|
                    0 <= i < old(self).layer_view(l).len() && old(self).layer_view(l)[i].id_spec()
                        == id && final(self).layer_view(l) == old(self).layer_view(l).remove(i)
                &&& forall|l2: WindowLayer|
                    l2 != l ==> #[trigger] final(self).layer_view(l2) == old(self).layer_view(l2)
                &&& final(self).focused_spec() == (if old(self).focused_spec() == Some(id) {
                    None
                } else {
                    old(self).focused_spec()
                })
            },
    {
        match self.find(id) {
            None => Vec::new(),
            Some((l, i)) => {
                proof {
                    self.lemma_window_spec(l, i as int);
                }
                let ghost o = *self;
                let v = self.layer_mut(l);
                let _w = v.remove(i);
                if self.window_has_focus(id) {
                    self.focused = None;
                }
                proof {
                    let nv = self.layer_view(l);
                    assert forall|j: int| 0 <= j < nv.len() implies nv[j] == o.layer_view(l)[if j < i {
                        j
                    } else {
                        j + 1
                    }] by {}
                    assert forall|l1: WindowLayer, a: int, l2: WindowLayer, b: int|
                        0 <= a < self.layer_view(l1).len() && 0 <= b < self.layer_view(l2).len() && (l1
                            != l2 || a != b) implies (#[trigger] self.layer_view(l1)[a]).id_spec() != (
                    #[trigger] self.layer_view(l2)[b]).id_spec() by {
                        let a0 = if l1 == l && a >= i { a + 1 } else { a };
                        let b0 = if l2 == l && b >= i { b + 1 } else { b };
                        assert(self.layer_view(l1)[a] == o.layer_view(l1)[a0]);
                        assert(self.layer_view(l2)[b] == o.layer_view(l2)[b0]);
                    }
                    assert forall|l1: WindowLayer, a: int|
                        0 <= a < self.layer_view(l1).len() implies (
                    #[trigger] self.layer_view(l1)[a]).layer_spec() == l1 && self.layer_view(
                        l1,
                    )[a].surface_spec().wf() by {
                        let a0 = if l1 == l && a >= i { a + 1 } else { a };
                        assert(self.layer_view(l1)[a] == o.layer_view(l1)[a0]);
                    }
                    assert forall|l1: WindowLayer, a: int|
                        0 <= a < self.layer_view(l1).len() implies (#[trigger] self.layer_view(
                        l1,
                    )[a]).id_spec() != id by {
                        let a0 = if l1 == l && a >= i { a + 1 } else { a };
                        assert(self.layer_view(l1)[a] == o.layer_view(l1)[a0]);
                    }
                    if let Some(f) = self.focused_spec() {
                        assert(o.contains_id(f));
                        let (ql, qj) = choose|ql: WindowLayer, qj: int|
                            0 <= qj < o.layer_view(ql).len() && (#[trigger] o.layer_view(ql)[qj]).id_spec()
                                == f;
                        let q2 = if ql == l && qj > i { qj - 1 } else { qj };
                        assert(self.layer_view(ql)[q2] == o.layer_view(ql)[qj]);
                    }
                }
                let mut notices: Vec<Notice> = Vec::new();
                notices.push(Notice::DeleteWindow { window: id });
                notices
            },
        }
    }

    /// Marks a window mapped once its client commits a first buffer,
    /// computes the outputs it appears on, and tells the policy that it is
    /// ready for placement. An unknown id is ignored.
    pub fn map_window(&mut self, id: u64, outputs: &OutputManager) -> (notices: Vec<Notice>)
        requires
            old(self).wf(),
            outputs.wf(),
        ensures
            final(self).wf(),
            final(self).same_geometry(old(self)),
            !old(self).contains_id(id) ==> notices@.len() == 0 && final(self).only_changed(old(self), id),
            old(self).contains_id(id) ==> {
                let before = old(self).window_spec(id);
                let after = final(self).window_spec(id);
                &&& final(self).contains_id(id)
                &&& after.mapped_spec()
                &&& after.outputs_spec() == membership_after(
                    outputs.outputs_spec(),
                    before.outputs_spec(),
                    old(self).membership_extents(id),
                )
                &&& notices@ == membership_notices(
                    outputs.outputs_spec(),
                    before.outputs_spec(),
                    old(self).membership_extents(id),
                    id,
                ).push(Notice::WindowReady { window: id })
            },
    {
        if self.find(id).is_none() {
            proof {
                assert(self.same_geometry(old(self)));
            }
            return Vec::new();
        }
        let mut notices = self.update_outputs(id, outputs);
        let ghost s1 = *self;
        let (l, i) = self.find(id).unwrap();
        proof {
            self.lemma_window_spec(l, i as int);
        }
        self.layer_mut(l)[i].set_mapped(true);
        proof {
            self.lemma_same_shape(&s1);
            self.lemma_window_spec(l, i as int);
        }
        notices.push(Notice::WindowReady { window: id });
        notices
    }

    /// Marks a window unmapped: it stays known but is not drawn. An unknown
    /// id is ignored.
    pub fn unmap_window(&mut self, id: u64)
        requires
            old(self).wf(),
        ensures
            final(self).wf(),
            final(self).same_geometry(old(self)),
            old(self).contains_id(id) ==> final(self).contains_id(id) && !final(self).window_spec(
                id,
            ).mapped_spec(),
            forall|l: WindowLayer, i: int|
                0 <= i < final(self).layer_view(l).len() && old(self).layer_view(l)[i].id_spec() != id
                    ==> (#[trigger] final(self).layer_view(l)[i]) == old(self).layer_view(l)[i],
    {
        if let Some((l, i)) = self.find(id) {
            proof {
                self.lemma_window_spec(l, i as int);
            }
            let ghost s0 = *self;
            self.layer_mut(l)[i].set_mapped(false);
            proof {
                self.lemma_same_shape(&s0);
                self.lemma_window_spec(l, i as int);
            }
        } else {
            proof {
                assert(self.same_geometry(old(self)));
            }
        }
    }

    /// The stacking rank of a layer, bottom-up.
    pub open spec fn rank(l: WindowLayer) -> int {
        match l {
            WindowLayer::Background => 0,
            WindowLayer::Bottom => 1,
            WindowLayer::Normal => 2,
            WindowLayer::Top => 3,
            WindowLayer::Overlay => 4,
        }
    }

    /// Whether the window at a place of a layer has representable extents
    /// that contain the point.
    pub open spec fn hit(&self, l: WindowLayer, i: int, p: Point) -> bool {
        self.hit_in(l, i, p, false)
    }

    /// Whether the window at a place of a layer has representable extents,
    /// or buffer extents when `buffer`, that contain the point.
    pub open spec fn hit_in(&self, l: WindowLayer, i: int, p: Point, buffer: bool) -> bool {
        let id = self.layer_view(l)[i].id_spec();
        if buffer {
            self.buffer_extents_fit(id) && self.buffer_extents_spec(id).contains_spec(p)
        } else {
            self.extents_fit(id) && self.extents_spec(id).contains_spec(p)
        }
    }

    /// Whether place `(l1, i1)` is in front of place `(l2, i2)`.
    pub open spec fn in_front_of(l1: WindowLayer, i1: int, l2: WindowLayer, i2: int) -> bool {
        Self::rank(l1) > Self::rank(l2) || (l1 == l2 && i1 > i2)
    }

    /// The frontmost window whose extents, or buffer extents when
    /// `buffer`, contain the point.
    fn frontmost(&self, point: &Point, buffer: bool) -> (r: Option<u64>)
        requires
            self.wf(),
        ensures
            r.is_none() ==> forall|l: WindowLayer, i: int|
                0 <= i < self.layer_view(l).len() ==> !#[trigger] self.hit_in(l, i, *point, buffer),
            r matches Some(id) ==> exists|l: WindowLayer, i: int|
                0 <= i < self.layer_view(l).len() && self.layer_view(l)[i].id_spec() == id
                    && #[trigger] self.hit_in(l, i, *point, buffer) && forall|l2: WindowLayer, j: int|
                    0 <= j < self.layer_view(l2).len() && Self::in_front_of(l2, j, l, i) ==> !self.hit_in(
                        l2,
                        j,
                        *point,
                        buffer,
                    ),
    {
        let layers = [
            WindowLayer::Overlay,
            WindowLayer::Top,
            WindowLayer::Normal,
            WindowLayer::Bottom,
            WindowLayer::Background,
        ];
        let mut k: usize = 0;
        while k < 5
            invariant
                0 <= k <= 5,
                self.wf(),
                layers@ == seq![
                    WindowLayer::Overlay,
                    WindowLayer::Top,
                    WindowLayer::Normal,
                    WindowLayer::Bottom,
                    WindowLayer::Background,
                ],
                forall|l2: WindowLayer, j: int|
                    0 <= j < self.layer_view(l2).len() && Self::rank(l2) > 4 - k ==> !#[trigger] self.hit_in(
                        l2,
                        j,
                        *point,
                        buffer,
                    ),
            decreases 5 - k,
        {
            let l = layers[k];
            proof {
                assert(Self::rank(l) == 4 - k);
            }
            let v = self.layer_ref(l);
            let mut j: usize = v.len();
            while j > 0
                invariant
                    0 <= j <= v@.len(),
                    v@ == self.layer_view(l),
                    self.wf(),
                    Self::rank(l) == 4 - k,
                    forall|l2: WindowLayer, j2: int|
                        0 <= j2 < self.layer_view(l2).len() && Self::rank(l2) > 4 - k ==> !#[trigger] self.hit_in(
                            l2,
                            j2,
                            *point,
                            buffer,
                        ),
                    forall|j2: int| j <= j2 < v@.len() ==> !#[trigger] self.hit_in(l, j2, *point, buffer),
                decreases j,
            {
                j = j - 1;
                let id = v[j].id();
                proof {
                    self.lemma_window_spec(l, j as int);
                }
                let found = if buffer {
                    self.try_buffer_extents(id)
                } else {
                    self.try_extents(id)
                };
                if let Some(e) = found {
                    if e.contains(point) {
                        proof {
                            assert(self.hit_in(l, j as int, *point, buffer));
                            assert forall|l2: WindowLayer, j2: int|
                                0 <= j2 < self.layer_view(l2).len() && Self::in_front_of(
                                    l2,
                                    j2,
                                    l,
                                    j as int,
                                ) implies !self.hit_in(l2, j2, *point, buffer) by {
                                if l2 == l {
                                    assert(j2 > j);
                                }
                            }
                        }
                        return Some(id);
                    }
                }
            }
            proof {
                assert forall|l2: WindowLayer, j2: int|
                    0 <= j2 < self.layer_view(l2).len() && Self::rank(l2) > 4 - (k + 1) implies !#[trigger] self.hit_in(
                        l2,
                        j2,
                        *point,
                        buffer,
                    ) by {
                    if Self::rank(l2) == 4 - k {
                        assert(l2 == l);
                    }
                }
            }
            k = k + 1;
        }
        None
    }
    /// The frontmost window whose extents contain the point.
    pub fn window_at(&self, point: &Point) -> (r: Option<u64>)
        requires
            self.wf(),
        ensures
            r.is_none() ==> forall|l: WindowLayer, i: int|
                0 <= i < self.layer_view(l).len() ==> !#[trigger] self.hit(l, i, *point),
            r matches Some(id) ==> exists|l: WindowLayer, i: int|
                0 <= i < self.layer_view(l).len() && self.layer_view(l)[i].id_spec() == id
                    && #[trigger] self.hit(l, i, *point) && forall|l2: WindowLayer, j: int|
                    0 <= j < self.layer_view(l2).len() && Self::in_front_of(l2, j, l, i) ==> !self.hit(
                        l2,
                        j,
                        *point,
                    ),
    {
        let r = self.frontmost(point, false);
        proof {
            if let Some(id) = r {
                let (l, i) = choose|l: WindowLayer, i: int|
                    0 <= i < self.layer_view(l).len() && self.layer_view(l)[i].id_spec() == id
                        && #[trigger] self.hit_in(l, i, *point, false) && forall|l2: WindowLayer, j: int|
                        0 <= j < self.layer_view(l2).len() && Self::in_front_of(l2, j, l, i)
                            ==> !self.hit_in(l2, j, *point, false);
                assert(self.hit(l, i, *point));
            }
        }
        r
    }

    /// The frontmost window whose buffer extents contain the point.
    pub fn window_buffer_at(&self, point: &Point) -> (r: Option<u64>)
        requires
            self.wf(),
        ensures
            r.is_none() ==> forall|l: WindowLayer, i: int|
                0 <= i < self.layer_view(l).len() ==> !#[trigger] self.hit_in(l, i, *point, true),
            r matches Some(id) ==> exists|l: WindowLayer, i: int|
                0 <= i < self.layer_view(l).len() && self.layer_view(l)[i].id_spec() == id
                    && #[trigger] self.hit_in(l, i, *point, true) && forall|l2: WindowLayer, j: int|
                    0 <= j < self.layer_view(l2).len() && Self::in_front_of(l2, j, l, i) ==> !self.hit_in(
                        l2,
                        j,
                        *point,
                        true,
                    ),
    {
        self.frontmost(point, true)
    }

    /// The buffer extents of a window, or nothing when they cannot be
    /// represented.
    pub fn try_buffer_extents(&self, id: u64) -> (r: Option<Rectangle>)
        requires
            self.wf(),
            self.contains_id(id),
        ensures
            r == (if self.buffer_extents_fit(id) {
                Some(self.buffer_extents_spec(id))
            } else {
                None
            }),
    {
        proof {
            self.lemma_window_spec_valid(id);
        }
        let w = self.window(id).unwrap();
        let b = w.surface().buffer_rect();
        if self.placed_fits_exec(w, &b) {
            Some(self.placed_exec(w, &b))
        } else {
            None
        }
    }

    /// Where pointer input at `position` goes: the frontmost window whose
    /// buffer contains the position, with the position relative to that
    /// buffer's top-left corner. Nothing when no buffer contains it.
    pub fn pointer_target(&self, position: &Point) -> (r: Option<(u64, Point)>)
        requires
            self.wf(),
        ensures
            r is None ==> forall|l: WindowLayer, i: int|
                0 <= i < self.layer_view(l).len() ==> !#[trigger] self.hit_in(l, i, *position, true),
            r matches Some(t) ==> {
                &&& self.contains_id(t.0)
                &&& self.buffer_extents_fit(t.0)
                &&& self.buffer_extents_spec(t.0).contains_spec(*position)
                &&& t.1.x == position.x - self.buffer_extents_spec(t.0).top_left.x
                &&& t.1.y == position.y - self.buffer_extents_spec(t.0).top_left.y
                &&& exists|l: WindowLayer, i: int|
                    0 <= i < self.layer_view(l).len() && self.layer_view(l)[i].id_spec() == t.0
                        && forall|l2: WindowLayer, j: int|
                        0 <= j < self.layer_view(l2).len() && Self::in_front_of(l2, j, l, i)
                            ==> !#[trigger] self.hit_in(l2, j, *position, true)
            },
    {
        match self.window_buffer_at(position) {
            None => None,
            Some(id) => {
                proof {
                    let (l, i) = choose|l: WindowLayer, i: int|
                        0 <= i < self.layer_view(l).len() && self.layer_view(l)[i].id_spec() == id
                            && #[trigger] self.hit_in(l, i, *position, true) && forall|
                            l2: WindowLayer,
                            j: int,
                        |
                            0 <= j < self.layer_view(l2).len() && Self::in_front_of(l2, j, l, i)
                                ==> !self.hit_in(l2, j, *position, true);
                    self.lemma_window_spec(l, i);
                }
                let b = self.try_buffer_extents(id).unwrap();
                // the position lies inside the buffer, so the offset fits
                let x = position.x as i64 - b.top_left.x as i64;
                let y = position.y as i64 - b.top_left.y as i64;
                Some((id, TPoint { x: x as i32, y: y as i32 }))
            },
        }
    }

    /// The layer for a new XDG surface: a popup joins the layer of the
    /// window it is attached to, when that window is known; anything else
    /// goes to the normal layer.
    pub fn layer_for_new_surface(&self, surface: &Surface) -> (r: WindowLayer)
        requires
            self.wf(),
        ensures
            r == (match surface.parent_spec() {
                Some(p) => if self.contains_id(p) {
                    self.window_spec(p).layer_spec()
                } else {
                    WindowLayer::Normal
                },
                None => WindowLayer::Normal,
            }),
    {
        match surface.parent() {
            Some(p) => match self.window(p) {
                Some(w) => w.layer(),
                None => WindowLayer::Normal,
            },
            None => WindowLayer::Normal,
        }
    }

    /// Recomputes the outputs of every window, back to front, after the
    /// output layout changed, and returns the enter and leave notices in
    /// that order.
    #[verifier::rlimit(80)]
    #[verifier::spinoff_prover]
    pub fn output_layout_changed(&mut self, outputs: &OutputManager) -> (notices: Vec<Notice>)
        requires
            old(self).wf(),
            outputs.wf(),
        ensures
            final(self).wf(),
            final(self).same_geometry(old(self)),
            notices@ == layout_notices(*old(self), old(self).all_windows(), outputs.outputs_spec()),
            forall|l: WindowLayer, i: int|
                0 <= i < final(self).layer_view(l).len() ==> {
                    let a = #[trigger] final(self).layer_view(l)[i];
                    let b = old(self).layer_view(l)[i];
                    &&& a.outputs_spec() == membership_after(
                        outputs.outputs_spec(),
                        b.outputs_spec(),
                        old(self).membership_extents(b.id_spec()),
                    )
                    &&& a.pending_spec() == b.pending_spec()
                    &&& a.same_identity(&b)
                },
    {
        let mut notices: Vec<Notice> = Vec::new();
        let layers = [
            WindowLayer::Background,
            WindowLayer::Bottom,
            WindowLayer::Normal,
            WindowLayer::Top,
            WindowLayer::Overlay,
        ];
        let ghost o = *old(self);
        let ghost prefix: Seq<Window> = Seq::empty();
        let mut k: usize = 0;
        while k < 5
            invariant
                0 <= k <= 5,
                o == *old(self),
                o.wf(),
                self.wf(),
                outputs.wf(),
                self.same_geometry(&o),
                layers@ == seq![
                    WindowLayer::Background,
                    WindowLayer::Bottom,
                    WindowLayer::Normal,
                    WindowLayer::Top,
                    WindowLayer::Overlay,
                ],
                prefix == (if k == 0 {
                    Seq::<Window>::empty()
                } else if k == 1 {
                    o.layer_view(WindowLayer::Background)
                } else if k == 2 {
                    o.layer_view(WindowLayer::Background) + o.layer_view(WindowLayer::Bottom)
                } else if k == 3 {
                    o.layer_view(WindowLayer::Background) + o.layer_view(WindowLayer::Bottom)
                        + o.layer_view(WindowLayer::Normal)
                } else if k == 4 {
                    o.layer_view(WindowLayer::Background) + o.layer_view(WindowLayer::Bottom)
                        + o.layer_view(WindowLayer::Normal) + o.layer_view(WindowLayer::Top)
                } else {
                    o.all_windows()
                }),
                notices@ == layout_notices(o, prefix, outputs.outputs_spec()),
                forall|l: WindowLayer, i: int|
                    0 <= i < self.layer_view(l).len() ==> {
                        let a = #[trigger] self.layer_view(l)[i];
                        let b = o.layer_view(l)[i];
                        &&& a.pending_spec() == b.pending_spec()
                        &&& a.same_identity(&b)
                        &&& a.outputs_spec() == (if Self::rank(l) < k {
                            membership_after(outputs.outputs_spec(), b.outputs_spec(), o.membership_extents(b.id_spec()))
                        } else {
                            b.outputs_spec()
                        })
                    },
            decreases 5 - k,
        {
            let l = layers[k];
            proof {
                assert(Self::rank(l) == k);
            }
            let n = self.layer_ref(l).len();
            let mut j: usize = 0;
            while j < n
                invariant
                    0 <= j <= n,
                    n == self.layer_view(l).len(),
                    Self::rank(l) == k,
                    o.wf(),
                    self.wf(),
                    outputs.wf(),
                    self.same_geometry(&o),
                    notices@ == layout_notices(o, prefix + o.layer_view(l).subrange(0, j as int), outputs.outputs_spec()),
                    forall|l2: WindowLayer, i: int|
                        0 <= i < self.layer_view(l2).len() ==> {
                            let a = #[trigger] self.layer_view(l2)[i];
                            let b = o.layer_view(l2)[i];
                            &&& a.pending_spec() == b.pending_spec()
                            &&& a.same_identity(&b)
                            &&& a.outputs_spec() == (if Self::rank(l2) < k || (l2 == l && i < j) {
                                membership_after(outputs.outputs_spec(), b.outputs_spec(), o.membership_extents(b.id_spec()))
                            } else {
                                b.outputs_spec()
                            })
                        },
                decreases n - j,
            {
                let ghost before = *self;
                let id = self.layer_ref(l)[j].id();
                proof {
                    self.lemma_window_spec(l, j as int);
                    o.lemma_window_spec(l, j as int);
                    self.lemma_same_shape(&o);
                    self.lemma_same_geometry(&o, id);
                }
                let mut step = self.update_outputs(id, outputs);
                proof {
                    self.lemma_same_shape(&before);
                    self.lemma_window_spec(l, j as int);
                    assert forall|l2: WindowLayer, i: int|
                        0 <= i < self.layer_view(l2).len() implies #[trigger] self.layer_view(l2)[i].surface_spec()
                            == o.layer_view(l2)[i].surface_spec() && self.layer_view(l2)[i].top_left_spec()
                            == o.layer_view(l2)[i].top_left_spec() by {
                        assert(before.layer_view(l2)[i].surface_spec() == o.layer_view(l2)[i].surface_spec());
                    }
                    let s = prefix + o.layer_view(l).subrange(0, j + 1);
                    assert(s.drop_last() =~= prefix + o.layer_view(l).subrange(0, j as int));
                    assert(s.last() == o.layer_view(l)[j as int]);
                    assert forall|l2: WindowLayer, i: int|
                        0 <= i < self.layer_view(l2).len() && o.layer_view(l2)[i].id_spec() != id implies
                        #[trigger] self.layer_view(l2)[i] == before.layer_view(l2)[i] by {}
                }
                notices.append(&mut step);
                j = j + 1;
            }
            proof {
                assert(o.layer_view(l).subrange(0, n as int) =~= o.layer_view(l));
                prefix = prefix + o.layer_view(l);
            }
            k = k + 1;
        }
        notices
    }

    /// Connects an output: it joins the end of the layout, the policy is
    /// advised of it, and then every window's outputs are recomputed. An
    /// output whose id is known, or whose extents cannot be represented,
    /// is refused with nothing changed.
    pub fn add_output(&mut self, outputs: &mut OutputManager, output: crate::output::Output) -> (notices: Vec<Notice>)
        requires
            old(self).wf(),
            old(outputs).wf(),
        ensures
            final(self).wf(),
            final(outputs).wf(),
            final(self).same_geometry(old(self)),
            (!has_output(old(outputs).outputs_spec(), output.id) && output.wf()) ==> {
                &&& final(outputs).outputs_spec() == old(outputs).outputs_spec().push(output)
                &&& notices@ == seq![Notice::OutputCreate { output: output.id }] + layout_notices(
                    *old(self),
                    old(self).all_windows(),
                    final(outputs).outputs_spec(),
                )
            },
            !(!has_output(old(outputs).outputs_spec(), output.id) && output.wf()) ==> {
                &&& final(outputs).outputs_spec() == old(outputs).outputs_spec()
                &&& notices@.len() == 0
                &&& final(self).same_state(old(self))
            },
    {
        if !outputs.add_output(output) {
            proof {
                assert(self.same_geometry(old(self)));
                assert(self.same_state(old(self)));
            }
            return Vec::new();
        }
        let mut notices: Vec<Notice> = Vec::new();
        notices.push(Notice::OutputCreate { output: output.id });
        let mut changes = self.output_layout_changed(outputs);
        notices.append(&mut changes);
        proof {
            assert(notices@ =~= seq![Notice::OutputCreate { output: output.id }] + layout_notices(
                *old(self),
                old(self).all_windows(),
                outputs.outputs_spec(),
            ));
        }
        notices
    }

    /// Disconnects an output. Every window that appeared on it first
    /// leaves it, with a leave notice each, back to front; only then is the
    /// policy advised of the deletion. An unknown output changes nothing.
    pub fn remove_output(&mut self, outputs: &mut OutputManager, output: u64) -> (notices: Vec<
        Notice,
    >)
        requires
            old(self).wf(),
            old(outputs).wf(),
        ensures
            final(self).wf(),
            final(outputs).wf(),
            final(self).same_geometry(old(self)),
            !has_output(old(outputs).outputs_spec(), output) ==> notices@.len() == 0
                && final(outputs).outputs_spec() == old(outputs).outputs_spec() && forall|l: WindowLayer, i: int|
                0 <= i < final(self).layer_view(l).len() ==> #[trigger] final(self).layer_view(l)[i]
                    == old(self).layer_view(l)[i],
            has_output(old(outputs).outputs_spec(), output) ==> {
                &&& !has_output(final(outputs).outputs_spec(), output)
                &&& exists|k: int|
                    0 <= k < old(outputs).outputs_spec().len() && old(outputs).outputs_spec()[k].id == output
                        && final(outputs).outputs_spec() == old(outputs).outputs_spec().remove(k)
                &&& notices@ == departures(old(self).all_windows(), output).push(
                    Notice::OutputDelete { output },
                )
                &&& forall|l: WindowLayer, i: int|
                    0 <= i < final(self).layer_view(l).len() ==> {
                        let a = #[trigger] final(self).layer_view(l)[i];
                        let b = old(self).layer_view(l)[i];
                        &&& a.outputs_spec() == b.outputs_spec().filter(|x: u64| x != output)
                        &&& a.pending_spec() == b.pending_spec()
                        &&& a.same_identity(&b)
                    }
            },
    {
        let removed = outputs.remove_output(output);
        if removed.is_none() {
            proof {
                assert(self.same_geometry(old(self)));
                assert(!has_output(old(outputs).outputs_spec(), output));
            }
            return Vec::new();
        }
        proof {
            let k = choose|k: int|
                0 <= k < old(outputs).outputs_spec().len() && old(outputs).outputs_spec()[k]
                    == removed.unwrap() && removed.unwrap().id == output && outputs.outputs_spec()
                    == old(outputs).outputs_spec().remove(k);
            assert(old(outputs).outputs_spec()[k].id == output);
            assert forall|j: int| 0 <= j < outputs.outputs_spec().len() implies #[trigger] outputs.outputs_spec()[j].id != output by {
                let j0 = if j < k { j } else { j + 1 };
                assert(outputs.outputs_spec()[j] == old(outputs).outputs_spec()[j0]);
            }
        }
        let mut notices: Vec<Notice> = Vec::new();
        let layers = [
            WindowLayer::Background,
            WindowLayer::Bottom,
            WindowLayer::Normal,
            WindowLayer::Top,
            WindowLayer::Overlay,
        ];
        let ghost o = *old(self);
        let ghost prefix: Seq<Window> = Seq::empty();
        let mut k: usize = 0;
        while k < 5
            invariant
                0 <= k <= 5,
                o == *old(self),
                o.wf(),
                self.wf(),
                self.same_geometry(&o),
                layers@ == seq![
                    WindowLayer::Background,
                    WindowLayer::Bottom,
                    WindowLayer::Normal,
                    WindowLayer::Top,
                    WindowLayer::Overlay,
                ],
                prefix == (if k == 0 {
                    Seq::<Window>::empty()
                } else if k == 1 {
                    o.layer_view(WindowLayer::Background)
                } else if k == 2 {
                    o.layer_view(WindowLayer::Background) + o.layer_view(WindowLayer::Bottom)
                } else if k == 3 {
                    o.layer_view(WindowLayer::Background) + o.layer_view(WindowLayer::Bottom)
                        + o.layer_view(WindowLayer::Normal)
                } else if k == 4 {
                    o.layer_view(WindowLayer::Background) + o.layer_view(WindowLayer::Bottom)
                        + o.layer_view(WindowLayer::Normal) + o.layer_view(WindowLayer::Top)
                } else {
                    o.all_windows()
                }),
                notices@ == departures(prefix, output),
                forall|l: WindowLayer, i: int|
                    0 <= i < self.layer_view(l).len() ==> {
                        let a = #[trigger] self.layer_view(l)[i];
                        let b = o.layer_view(l)[i];
                        &&& a.pending_spec() == b.pending_spec()
                        &&& a.same_identity(&b)
                        &&& a.outputs_spec() == (if Self::rank(l) < k {
                            b.outputs_spec().filter(|x: u64| x != output)
                        } else {
                            b.outputs_spec()
                        })
                    },
            decreases 5 - k,
        {
            let l = layers[k];
            proof {
                assert(Self::rank(l) == k);
            }
            let n = self.layer_ref(l).len();
            let mut j: usize = 0;
            while j < n
                invariant
                    0 <= j <= n,
                    n == self.layer_view(l).len(),
                    Self::rank(l) == k,
                    o.wf(),
                    self.wf(),
                    self.same_geometry(&o),
                    notices@ == departures(prefix + o.layer_view(l).subrange(0, j as int), output),
                    forall|l2: WindowLayer, i: int|
                        0 <= i < self.layer_view(l2).len() ==> {
                            let a = #[trigger] self.layer_view(l2)[i];
                            let b = o.layer_view(l2)[i];
                            &&& a.pending_spec() == b.pending_spec()
                            &&& a.same_identity(&b)
                            &&& a.outputs_spec() == (if Self::rank(l2) < k || (l2 == l && i < j) {
                                b.outputs_spec().filter(|x: u64| x != output)
                            } else {
                                b.outputs_spec()
                            })
                        },
                decreases n - j,
            {
                let ghost before = *self;
                let had = contains_id(self.layer_ref(l)[j].outputs(), output);
                let id = self.layer_ref(l)[j].id();
                if had {
                    let kept = without_id(self.layer_ref(l)[j].outputs(), output);
                    self.layer_mut(l)[j].set_outputs(kept);
                    notices.push(Notice::LeftOutput { window: id, output });
                } else {
                    proof {
                        let ws = self.layer_view(l)[j as int].outputs_spec();
                        assert(ws.filter(|x: u64| x != output) == ws) by {
                            lemma_filter_absent(ws, output);
                        }
                    }
                }
                proof {
                    if had {
                        self.lemma_same_shape(&before);
                    }
                    let s = prefix + o.layer_view(l).subrange(0, j + 1);
                    assert(s.drop_last() =~= prefix + o.layer_view(l).subrange(0, j as int));
                    assert(s.last() == o.layer_view(l)[j as int]);
                    assert(o.layer_view(l)[j as int].outputs_spec() == before.layer_view(l)[j as int].outputs_spec());
                    assert(o.layer_view(l)[j as int].id_spec() == id);
                    assert forall|l2: WindowLayer, i: int|
                        0 <= i < self.layer_view(l2).len() implies #[trigger] self.layer_view(l2)[i].surface_spec()
                            == o.layer_view(l2)[i].surface_spec() && self.layer_view(l2)[i].top_left_spec()
                            == o.layer_view(l2)[i].top_left_spec() by {
                        assert(before.layer_view(l2)[i].surface_spec() == o.layer_view(l2)[i].surface_spec());
                    }
                }
                j = j + 1;
            }
            proof {
                assert(o.layer_view(l).subrange(0, n as int) =~= o.layer_view(l));
                prefix = prefix + o.layer_view(l);
            }
            k = k + 1;
        }
        notices.push(Notice::OutputDelete { output });
        notices
    }

    /// Two changes to one window in place are one such change.
    pub proof fn lemma_only_changed_trans(&self, mid: &WindowManager, o: &WindowManager, id: u64)
        requires
            o.wf(),
            mid.wf(),
            mid.only_changed(o, id),
            self.only_changed(mid, id),
        ensures
            self.only_changed(o, id),
    {
        assert forall|l: WindowLayer, i: int|
            0 <= i < self.layer_view(l).len() && o.layer_view(l)[i].id_spec() != id implies (
            #[trigger] self.layer_view(l)[i]) == o.layer_view(l)[i] by {
            assert(mid.layer_view(l)[i] == o.layer_view(l)[i]);
        }
    }

    /// Moving a window to the front of its layer changes no window.
    proof fn lemma_raise_keeps(&self, o: &WindowManager, l: WindowLayer, i: int)
        requires
            o.wf(),
            self.wf(),
            0 <= i < o.layer_view(l).len(),
            self.layer_view(l) == o.layer_view(l).remove(i).push(o.layer_view(l)[i]),
            forall|l2: WindowLayer| l2 != l ==> self.layer_view(l2) == o.layer_view(l2),
        ensures
            forall|x: u64| o.contains_id(x) ==> (self.contains_id(x) && self.window_spec(x) == o.window_spec(x)),
    {
        let n = o.layer_view(l).len() as int;
        assert forall|x: u64| o.contains_id(x) implies (self.contains_id(x) && self.window_spec(x) == o.window_spec(x)) by {
            let (ql, qj) = choose|ql: WindowLayer, qj: int|
                0 <= qj < o.layer_view(ql).len() && (#[trigger] o.layer_view(ql)[qj]).id_spec() == x;
            let q2 = if ql != l { qj } else if qj == i { n - 1 } else if qj < i { qj } else { qj - 1 };
            assert(0 <= q2 < self.layer_view(ql).len());
            assert(self.layer_view(ql)[q2] == o.layer_view(ql)[qj]);
            o.lemma_window_spec(ql, qj);
            self.lemma_window_spec(ql, q2);
            assert(self.layer_view(ql)[q2].id_spec() == x);
            assert(self.contains_id(x));
            assert(self.window_spec(x) == o.window_spec(x));
        }
    }

    /// A window left at its place, with the ids of every layer kept, is
    /// the same window.
    pub proof fn lemma_window_kept(&self, o: &WindowManager, x: u64)
        requires
            o.wf(),
            self.wf(),
            o.contains_id(x),
            forall|l: WindowLayer| ids_of(#[trigger] self.layer_view(l)) == ids_of(o.layer_view(l)),
            forall|l: WindowLayer, i: int|
                0 <= i < o.layer_view(l).len() && o.layer_view(l)[i].id_spec() == x ==> (
                #[trigger] self.layer_view(l)[i]) == o.layer_view(l)[i],
        ensures
            self.contains_id(x),
            self.window_spec(x) == o.window_spec(x),
    {
        let (l, i) = choose|l: WindowLayer, i: int|
            0 <= i < o.layer_view(l).len() && (#[trigger] o.layer_view(l)[i]).id_spec() == x;
        assert(ids_of(self.layer_view(l)).len() == self.layer_view(l).len());
        assert(ids_of(o.layer_view(l)).len() == o.layer_view(l).len());
        assert(self.layer_view(l)[i] == o.layer_view(l)[i]);
        o.lemma_window_spec(l, i);
        self.lemma_window_spec(l, i);
    }

    /// With the ids of every layer kept, a window keeps its layer.
    pub proof fn lemma_ids_kept(&self, o: &WindowManager, id: u64)
        requires
            o.wf(),
            self.wf(),
            o.contains_id(id),
            forall|l: WindowLayer| ids_of(#[trigger] self.layer_view(l)) == ids_of(o.layer_view(l)),
        ensures
            self.contains_id(id),
            self.window_spec(id).layer_spec() == o.window_spec(id).layer_spec(),
    {
        let (l, i) = choose|l: WindowLayer, i: int|
            0 <= i < o.layer_view(l).len() && (#[trigger] o.layer_view(l)[i]).id_spec() == id;
        assert(ids_of(self.layer_view(l)) == ids_of(o.layer_view(l)));
        assert(ids_of(self.layer_view(l)).len() == self.layer_view(l).len());
        assert(ids_of(o.layer_view(l)).len() == o.layer_view(l).len());
        assert(ids_of(o.layer_view(l))[i] == id);
        assert(ids_of(self.layer_view(l))[i] == id);
        assert(self.layer_view(l)[i].id_spec() == id);
        o.lemma_window_spec(l, i);
        self.lemma_window_spec(l, i);
    }

    /// Whether a window is placed exactly where it is stored: it has no
    /// parent and no popup offset, and its surface-local extents start
    /// where its shadow correction says, so no shadow offset is left over.
    pub open spec fn placed_as_stored(&self, id: u64) -> bool {
        let s = self.window_spec(id).surface_spec();
        surface_placed_as_stored(s)
    }

    /// A window placed as stored has its extents at its stored position.
    pub proof fn lemma_placed_as_stored(&self, id: u64)
        requires
            self.wf(),
            self.contains_id(id),
            self.placed_as_stored(id),
            self.extents_fit(id),
        ensures
            self.extents_spec(id).top_left == self.window_spec(id).top_left_spec(),
    {
        let w = self.window_spec(id);
        let d = self.position_displacement_spec(w, self.chain_fuel());
        let bd = w.surface_spec().buffer_displacement_spec();
        assert(d == (w.top_left_spec().x - bd.0, w.top_left_spec().y - bd.1));
    }
}

/// A surface after it was told that it lost keyboard focus.
pub open spec fn deactivated(s: Surface) -> Surface {
    configured_surface(s, with_flag(s.state_spec(), SurfaceFlag::Activated, false), true)
}

/// Whether a surface's extents sit at its window's stored position: no
/// parent, no popup offset, and surface-local extents that start where its
/// shadow correction says.
pub open spec fn surface_placed_as_stored(s: Surface) -> bool {
    &&& s.parent_spec().is_none()
    &&& s.parent_displacement_spec() == (0int, 0int)
    &&& s.extents_spec().top_left.x == s.buffer_displacement_spec().0
    &&& s.extents_spec().top_left.y == s.buffer_displacement_spec().1
}

/// The enter and leave notices of recomputing the outputs of each window
/// of `s`, in order, with the extents the windows have in `wm`.
pub open spec fn layout_notices(wm: WindowManager, s: Seq<Window>, outs: Seq<crate::output::Output>) -> Seq<Notice>
    decreases s.len(),
{
    if s.len() == 0 {
        Seq::empty()
    } else {
        layout_notices(wm, s.drop_last(), outs) + membership_notices(
            outs,
            s.last().outputs_spec(),
            wm.membership_extents(s.last().id_spec()),
            s.last().id_spec(),
        )
    }
}

/// The leave notices that disconnecting an output gives, back to front.
pub open spec fn departures(s: Seq<Window>, output: u64) -> Seq<Notice>
    decreases s.len(),
{
    if s.len() == 0 {
        Seq::empty()
    } else {
        departures(s.drop_last(), output) + (if s.last().outputs_spec().contains(output) {
            seq![Notice::LeftOutput { window: s.last().id_spec(), output }]
        } else {
            Seq::empty()
        })
    }
}

proof fn lemma_filter_absent(s: Seq<u64>, x: u64)
    requires
        !s.contains(x),
    ensures
        s.filter(|y: u64| y != x) == s,
    decreases s.len(),
{
    reveal(Seq::filter);
    if s.len() > 0 {
        assert(!s.drop_last().contains(x)) by {
            if s.drop_last().contains(x) {
                let k = choose|k: int| 0 <= k < s.drop_last().len() && s.drop_last()[k] == x;
                assert(s[k] == x);
            }
        }
        lemma_filter_absent(s.drop_last(), x);
        assert(s.last() != x) by {
            assert(s[s.len() - 1] == s.last());
        }
        assert(s.drop_last().push(s.last()) == s);
    }
}

/// A copy of a list of ids.
fn copy_ids(v: &Vec<u64>) -> (r: Vec<u64>)
    ensures
        r@ == v@,
{
    let mut r: Vec<u64> = Vec::new();
    let mut i: usize = 0;
    while i < v.len()
        invariant
            0 <= i <= v@.len(),
            r@ == v@.subrange(0, i as int),
        decreases v@.len() - i,
    {
        r.push(v[i]);
        proof {
            assert(v@.subrange(0, i + 1) =~= v@.subrange(0, i as int).push(v@[i as int]));
        }
        i = i + 1;
    }
    proof {
        assert(v@.subrange(0, i as int) =~= v@);
    }
    r
}

/// Whether the list holds the id.
fn contains_id(v: &Vec<u64>, x: u64) -> (r: bool)
    ensures
        r == v@.contains(x),
{
    let mut i: usize = 0;
    while i < v.len()
        invariant
            0 <= i <= v@.len(),
            forall|j: int| 0 <= j < i ==> v@[j] != x,
        decreases v@.len() - i,
    {
        if v[i] == x {
            assert(v@[i as int] == x);
            return true;
        }
        i = i + 1;
    }
    false
}

/// The list without the id.
fn without_id(v: &Vec<u64>, x: u64) -> (r: Vec<u64>)
    ensures
        r@ == v@.filter(|y: u64| y != x),
{
    let mut r: Vec<u64> = Vec::new();
    let mut i: usize = 0;
    while i < v.len()
        invariant
            0 <= i <= v@.len(),
            r@ == v@.subrange(0, i as int).filter(|y: u64| y != x),
        decreases v@.len() - i,
    {
        proof {
            let s = v@.subrange(0, i + 1);
            assert(s.drop_last() =~= v@.subrange(0, i as int));
            reveal(Seq::filter);
        }
        if v[i] != x {
            r.push(v[i]);
        }
        i = i + 1;
    }
    proof {
        assert(v@.subrange(0, i as int) =~= v@);
    }
    r
}

} // verus!
