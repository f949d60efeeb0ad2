use crate::geometry::{Point, Rectangle, Size};
use crate::surface::{configured, with_flag, xwayland_keeps, Surface, SurfaceFlag, SurfaceState};
use crate::window_manager::WindowLayer;
use std::collections::BTreeMap;
use vstd::prelude::*;

verus! {

broadcast use vstd::laws_cmp::group_laws_cmp, vstd::std_specs::btree::group_btree_axioms;

/// Where a window goes once the client acknowledges a size change.
#[derive(Debug, Clone, Copy, PartialEq, Eq)]
pub struct PendingUpdate {
    pub top_left: Point,
}

/// A place on screen, such as a dock icon, that stands for the window as
/// the target of a minimize animation.
#[derive(Debug, Clone, Copy, PartialEq, Eq)]
pub struct MinimizeTarget {
    /// The surface that showed the target.
    pub surface: u64,
    pub rectangle: Rectangle,
}

/// A client surface as the compositor places it: its layer, its position,
/// the outputs it appears on and the size changes it awaits.
#[derive(Debug)]
pub struct Window {
    surface: Surface,
    layer: WindowLayer,
    mapped: bool,
    top_left: Point,
    outputs: Vec<u64>,
    minimize_targets: Vec<MinimizeTarget>,
    pending_updates: BTreeMap<u32, PendingUpdate>,
}

/// Whether some target was reported through the surface.
pub open spec fn has_target(s: Seq<MinimizeTarget>, surface: u64) -> bool
    decreases s.len(),
{
    if s.len() == 0 {
        false
    } else {
        has_target(s.drop_last(), surface) || s.last().surface == surface
    }
}

/// The targets with the first one of the new target's surface replaced by
/// it.
pub open spec fn replace_first(s: Seq<MinimizeTarget>, target: MinimizeTarget) -> Seq<MinimizeTarget>
    decreases s.len(),
{
    if s.len() == 0 {
        s
    } else if s.last().surface == target.surface && !has_target(s.drop_last(), target.surface) {
        replace_first(s.drop_last(), target).push(target)
    } else {
        replace_first(s.drop_last(), target).push(s.last())
    }
}

proof fn lemma_replace_first_absent(s: Seq<MinimizeTarget>, target: MinimizeTarget)
    requires
        !has_target(s, target.surface),
    ensures
        replace_first(s, target) == s,
    decreases s.len(),
{
    if s.len() > 0 {
        lemma_replace_first_absent(s.drop_last(), target);
        assert(s.drop_last().push(s.last()) == s);
    }
}

/// The targets after a report through `surface`: a non-empty rectangle
/// replaces that surface's first target, or is added when there is none;
/// an empty one removes every target of that surface.
pub open spec fn targets_after(s: Seq<MinimizeTarget>, surface: u64, rectangle: Rectangle) -> Seq<MinimizeTarget> {
    let target = MinimizeTarget { surface, rectangle };
    if rectangle.size.width > 0 || rectangle.size.height > 0 {
        if has_target(s, surface) {
            replace_first(s, target)
        } else {
            s.push(target)
        }
    } else {
        s.filter(|t: MinimizeTarget| t.surface != surface)
    }
}

impl Window {
    pub closed spec fn surface_spec(&self) -> Surface {
        self.surface
    }

    pub closed spec fn layer_spec(&self) -> WindowLayer {
        self.layer
    }

    pub closed spec fn mapped_spec(&self) -> bool {
        self.mapped
    }

    pub closed spec fn top_left_spec(&self) -> Point {
        self.top_left
    }

    pub closed spec fn outputs_spec(&self) -> Seq<u64> {
        self.outputs@
    }

    pub closed spec fn minimize_targets_spec(&self) -> Seq<MinimizeTarget> {
        self.minimize_targets@
    }

    /// Configure serial to the position that its commit brings.
    pub closed spec fn pending_spec(&self) -> Map<u32, Point> {
        self.pending_updates@.map_values(|u: PendingUpdate| u.top_left)
    }

    pub open spec fn id_spec(&self) -> u64 {
        self.surface_spec().id_spec()
    }

    /// Everything but the position, the pending updates and the outputs.
    pub open spec fn same_identity(&self, o: &Window) -> bool {
        &&& self.layer_spec() == o.layer_spec()
        &&& self.id_spec() == o.id_spec()
        &&& self.mapped_spec() == o.mapped_spec()
        &&& self.minimize_targets_spec() == o.minimize_targets_spec()
    }

    /// Whether `self` is a new, unmapped window at the origin.
    pub open spec fn is_new(&self, layer: WindowLayer, surface: Surface) -> bool {
        &&& self.surface_spec() == surface
        &&& self.layer_spec() == layer
        &&& !self.mapped_spec()
        &&& self.top_left_spec() == Point::zero_spec()
        &&& self.outputs_spec().len() == 0
        &&& self.minimize_targets_spec().len() == 0
        &&& self.pending_spec() == Map::<u32, Point>::empty()
    }

    /// A new, unmapped window at the origin.
    pub fn new(layer: WindowLayer, surface: Surface) -> (w: Window)
        ensures
            w.is_new(layer, surface),
    {
        let w = Window {
            surface,
            layer,
            mapped: false,
            top_left: Point::zero(),
            outputs: Vec::new(),
            minimize_targets: Vec::new(),
            pending_updates: BTreeMap::new(),
        };
        proof {
            assert(w.pending_spec() =~= Map::<u32, Point>::empty());
        }
        w
    }

    pub fn id(&self) -> (r: u64)
        ensures
            r == self.id_spec(),
    {
        self.surface.id()
    }

    pub fn surface(&self) -> (r: &Surface)
        ensures
            *r == self.surface_spec(),
    {
        &self.surface
    }

    pub fn layer(&self) -> (r: WindowLayer)
        ensures
            r == self.layer_spec(),
    {
        self.layer
    }

    pub fn mapped(&self) -> (r: bool)
        ensures
            r == self.mapped_spec(),
    {
        self.mapped
    }

    pub fn top_left(&self) -> (r: Point)
        ensures
            r == self.top_left_spec(),
    {
        self.top_left
    }

    /// Outputs that the window currently appears on.
    pub fn outputs(&self) -> (r: &Vec<u64>)
        ensures
            r@ == self.outputs_spec(),
    {
        &self.outputs
    }

    /// Targets for a minimize animation.
    pub fn minimize_targets(&self) -> (r: &Vec<MinimizeTarget>)
        ensures
            r@ == self.minimize_targets_spec(),
    {
        &self.minimize_targets
    }

    /// The position awaiting the commit with the given serial, if any.
    pub fn pending_update(&self, serial: u32) -> (r: Option<Point>)
        ensures
            r == (if self.pending_spec().contains_key(serial) {
                Some(self.pending_spec()[serial])
            } else {
                None
            }),
    {
        match self.pending_updates.get(&serial) {
            Some(u) => Some(u.top_left),
            None => None,
        }
    }

    pub(crate) fn set_mapped(&mut self, mapped: bool)
        ensures
            final(self).mapped_spec() == mapped,
            final(self).surface_spec() == old(self).surface_spec(),
            final(self).layer_spec() == old(self).layer_spec(),
            final(self).top_left_spec() == old(self).top_left_spec(),
            final(self).outputs_spec() == old(self).outputs_spec(),
            final(self).minimize_targets_spec() == old(self).minimize_targets_spec(),
            final(self).pending_spec() == old(self).pending_spec(),
    {
        self.mapped = mapped;
    }

    /// Stores the authoritative position and tells the surface; the
    /// outputs are not recomputed here.
    pub(crate) fn place_at(&mut self, top_left: Point)
        ensures
            final(self).top_left_spec() == top_left,
            old(self).surface_spec().move_to_spec(top_left, final(self).surface_spec()),
            final(self).same_identity(old(self)),
            final(self).outputs_spec() == old(self).outputs_spec(),
            final(self).pending_spec() == old(self).pending_spec(),
    {
        self.top_left = top_left;
        self.surface.move_to(top_left);
    }

    /// Asks the client for new extents. The size goes to the client at
    /// once; the position is kept under the returned configure serial until
    /// the client's commit with that serial.
    pub fn set_extents(&mut self, extents: &Rectangle) -> (serial: u32)
        ensures
            old(self).surface_spec().resize_spec(extents.size, final(self).surface_spec(), serial),
            final(self).pending_spec() == old(self).pending_spec().insert(serial, extents.top_left),
            final(self).top_left_spec() == old(self).top_left_spec(),
            final(self).same_identity(old(self)),
            final(self).outputs_spec() == old(self).outputs_spec(),
    {
        let serial = self.surface.resize(extents.size);
        self.pending_updates.insert(serial, PendingUpdate { top_left: extents.top_left });
        proof {
            assert(self.pending_spec() =~= old(self).pending_spec().insert(serial, extents.top_left));
        }
        serial
    }

    /// Asks the client for a new size without waiting for its answer.
    pub(crate) fn resize(&mut self, size: Size)
        ensures
            exists|serial: u32| #[trigger] old(self).surface_spec().resize_spec(size, final(self).surface_spec(), serial),
            final(self).top_left_spec() == old(self).top_left_spec(),
            final(self).same_identity(old(self)),
            final(self).outputs_spec() == old(self).outputs_spec(),
            final(self).pending_spec() == old(self).pending_spec(),
    {
        let _serial = self.surface.resize(size);
    }

    /// Takes out the update that awaited the given serial.
    pub(crate) fn take_pending_update(&mut self, serial: u32) -> (r: Option<Point>)
        ensures
            r == (if old(self).pending_spec().contains_key(serial) {
                Some(old(self).pending_spec()[serial])
            } else {
                None
            }),
            final(self).pending_spec() == old(self).pending_spec().remove(serial),
            final(self).surface_spec() == old(self).surface_spec(),
            final(self).top_left_spec() == old(self).top_left_spec(),
            final(self).same_identity(old(self)),
            final(self).outputs_spec() == old(self).outputs_spec(),
    {
        let r = self.pending_updates.remove(&serial);
        proof {
            assert(self.pending_spec() =~= old(self).pending_spec().remove(serial));
        }
        match r {
            Some(u) => Some(u.top_left),
            None => None,
        }
    }

    /// Asks the surface to take one flag.
    pub(crate) fn set_flag(&mut self, flag: SurfaceFlag, value: bool) -> (serial: u32)
        ensures
            configured(
                old(self).surface_spec(),
                with_flag(old(self).surface_spec().state_spec(), flag, value),
                xwayland_keeps(flag),
                final(self).surface_spec(),
                serial,
            ),
            final(self).top_left_spec() == old(self).top_left_spec(),
            final(self).same_identity(old(self)),
            final(self).outputs_spec() == old(self).outputs_spec(),
            final(self).pending_spec() == old(self).pending_spec(),
    {
        self.surface.set_flag(flag, value)
    }

    /// Takes the geometry and buffer that the client committed.
    pub(crate) fn apply_client_state(&mut self, geometry: Rectangle, buffer: Rectangle)
        ensures
            final(self).surface_spec() == old(self).surface_spec().with_state(
                SurfaceState { geometry, buffer, ..old(self).surface_spec().state_spec() },
            ),
            final(self).top_left_spec() == old(self).top_left_spec(),
            final(self).same_identity(old(self)),
            final(self).outputs_spec() == old(self).outputs_spec(),
            final(self).pending_spec() == old(self).pending_spec(),
    {
        self.surface.apply_client_state(geometry, buffer)
    }

    /// Asks the client to close the window.
    pub(crate) fn ask_client_to_close(&mut self)
        ensures
            final(self).surface_spec() == old(self).surface_spec().with_state(
                SurfaceState { close_requested: true, ..old(self).surface_spec().state_spec() },
            ),
            final(self).top_left_spec() == old(self).top_left_spec(),
            final(self).same_identity(old(self)),
            final(self).outputs_spec() == old(self).outputs_spec(),
            final(self).pending_spec() == old(self).pending_spec(),
    {
        self.surface.ask_client_to_close()
    }

    /// Records where a dock shows the window, as reported through the
    /// surface `surface`; an empty rectangle removes that surface's target.
    pub(crate) fn set_minimize_target(&mut self, surface: u64, rectangle: Rectangle)
        ensures
            final(self).minimize_targets_spec() == targets_after(
                old(self).minimize_targets_spec(),
                surface,
                rectangle,
            ),
            final(self).surface_spec() == old(self).surface_spec(),
            final(self).top_left_spec() == old(self).top_left_spec(),
            final(self).layer_spec() == old(self).layer_spec(),
            final(self).mapped_spec() == old(self).mapped_spec(),
            final(self).outputs_spec() == old(self).outputs_spec(),
            final(self).pending_spec() == old(self).pending_spec(),
    {
        let target = MinimizeTarget { surface, rectangle };
        let mut kept: Vec<MinimizeTarget> = Vec::new();
        let mut replaced = false;
        let ghost old_targets = self.minimize_targets@;
        let mut i: usize = 0;
        while i < self.minimize_targets.len()
            invariant
                0 <= i <= self.minimize_targets@.len(),
                self.minimize_targets@ == old_targets,
                target == (MinimizeTarget { surface, rectangle }),
                kept@ == (if rectangle.size.width > 0 || rectangle.size.height > 0 {
                    replace_first(old_targets.subrange(0, i as int), target)
                } else {
                    old_targets.subrange(0, i as int).filter(|t: MinimizeTarget| t.surface != surface)
                }),
                rectangle.size.width > 0 || rectangle.size.height > 0 ==> replaced == has_target(
                    old_targets.subrange(0, i as int),
                    surface,
                ),
            decreases self.minimize_targets@.len() - i,
        {
            let t = self.minimize_targets[i];
            proof {
                let s = old_targets.subrange(0, i + 1);
                assert(s.drop_last() =~= old_targets.subrange(0, i as int));
                assert(s.last() == t);
                reveal(Seq::filter);
                assert(has_target(s, surface) == (has_target(s.drop_last(), surface) || t.surface == surface));
                assert(replace_first(s, target) == (if t.surface == surface && !has_target(s.drop_last(), surface) {
                    replace_first(s.drop_last(), target).push(target)
                } else {
                    replace_first(s.drop_last(), target).push(t)
                }));
            }
            if rectangle.size.width > 0 || rectangle.size.height > 0 {
                if t.surface == surface && !replaced {
                    kept.push(target);
                    replaced = true;
                } else {
                    kept.push(t);
                }
            } else if t.surface != surface {
                kept.push(t);
            }
            i = i + 1;
        }
        proof {
            assert(old_targets.subrange(0, i as int) =~= old_targets);
            if !has_target(old_targets, surface) {
                lemma_replace_first_absent(old_targets, target);
            }
        }
        if (rectangle.size.width > 0 || rectangle.size.height > 0) && !replaced {
            kept.push(target);
        }
        self.minimize_targets = kept;
    }

    /// Replaces the list of outputs the window appears on.
    pub(crate) fn set_outputs(&mut self, outputs: Vec<u64>)
        ensures
            final(self).outputs_spec() == outputs@,
            final(self).surface_spec() == old(self).surface_spec(),
            final(self).top_left_spec() == old(self).top_left_spec(),
            final(self).same_identity(old(self)),
            final(self).pending_spec() == old(self).pending_spec(),
    {
        self.outputs = outputs;
    }
}

} // verus!
