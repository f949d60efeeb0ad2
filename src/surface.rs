use crate::geometry::{in_i32, Displacement, Point, Rectangle, Size, TDisplacement, TPoint};
use crate::layer_shell::LayerSurfaceState;
use vstd::prelude::*;

verus! {

/// The serial that X11 surfaces report for every configure: X11 has no
/// configure serials.
pub const XWAYLAND_CONFIGURE_SERIAL: u32 = 1;

/// State that every kind of surface carries, as last reported by its client
/// or last requested of it.
#[derive(Debug, Clone, Copy, PartialEq, Eq)]
pub struct SurfaceState {
    /// Identity of the native surface handle.
    pub id: u64,
    /// Client-declared geometry, in the surface's own coordinates.
    pub geometry: Rectangle,
    /// The committed buffer: its offset and its size.
    pub buffer: Rectangle,
    pub activated: bool,
    pub maximized: bool,
    pub fullscreen: bool,
    pub resizing: bool,
    /// Whether the client was asked to close.
    pub close_requested: bool,
    /// The size last asked of the client, if any.
    pub requested_size: Option<Size>,
}

/// The role of an XDG surface.
#[derive(Debug, Clone, Copy, PartialEq, Eq, Structural)]
pub enum XdgRole {
    Toplevel,
    Popup,
    Unassigned,
}

/// An XDG shell surface: an application window or a popup.
#[derive(Debug, Clone, Copy, PartialEq, Eq)]
pub struct XdgSurface {
    pub state: SurfaceState,
    pub role: XdgRole,
    /// The surface a popup is attached to.
    pub parent: Option<u64>,
    /// A popup's offset from its parent's geometry.
    pub popup_offset: Displacement,
    /// The serial the next configure will carry.
    pub next_serial: u32,
}

/// A layer-shell surface: a panel, a dock, a background.
#[derive(Debug, Clone, Copy, PartialEq, Eq)]
pub struct LayerSurface {
    pub state: SurfaceState,
    /// Whether the client wants keyboard input; layer surfaces never take
    /// keyboard focus, whatever they ask.
    pub keyboard_interactive: bool,
    /// The output the surface is placed on, once one is assigned.
    pub output: Option<u64>,
    /// What the client asked for and has not yet had applied.
    pub client_pending: LayerSurfaceState,
}

/// An X11 window shown through XWayland.
#[derive(Debug, Clone, Copy, PartialEq, Eq)]
pub struct XwaylandSurface {
    pub state: SurfaceState,
}

/// A client surface of one of the supported roles.
#[derive(Debug, Clone, Copy, PartialEq, Eq)]
pub enum Surface {
    Layer(LayerSurface),
    Xdg(XdgSurface),
    Xwayland(XwaylandSurface),
}

/// A piece of boolean state that the compositor can ask a surface to take.
#[derive(Debug, Clone, Copy, PartialEq, Eq, Structural)]
pub enum SurfaceFlag {
    Activated,
    Maximized,
    Fullscreen,
    Resizing,
}

/// `st` with one flag set.
pub open spec fn with_flag(st: SurfaceState, flag: SurfaceFlag, value: bool) -> SurfaceState {
    match flag {
        SurfaceFlag::Activated => SurfaceState { activated: value, ..st },
        SurfaceFlag::Maximized => SurfaceState { maximized: value, ..st },
        SurfaceFlag::Fullscreen => SurfaceState { fullscreen: value, ..st },
        SurfaceFlag::Resizing => SurfaceState { resizing: value, ..st },
    }
}

/// X11 windows keep every flag but the resizing one.
pub open spec fn xwayland_keeps(flag: SurfaceFlag) -> bool {
    flag != SurfaceFlag::Resizing
}

/// The serial after `s`, wrapping at the top of the range.
pub open spec fn next_serial_after(s: u32) -> u32 {
    if s == u32::MAX {
        0
    } else {
        (s + 1) as u32
    }
}

impl Surface {
    pub open spec fn state_spec(&self) -> SurfaceState {
        match self {
            Surface::Layer(s) => s.state,
            Surface::Xdg(s) => s.state,
            Surface::Xwayland(s) => s.state,
        }
    }

    pub open spec fn is_xdg_toplevel(&self) -> bool {
        match self {
            Surface::Xdg(s) => s.role == XdgRole::Toplevel,
            _ => false,
        }
    }

    pub open spec fn id_spec(&self) -> u64 {
        self.state_spec().id
    }

    pub open spec fn parent_spec(&self) -> Option<u64> {
        match self {
            Surface::Xdg(s) => if s.role == XdgRole::Popup {
                s.parent
            } else {
                None
            },
            _ => None,
        }
    }

    /// Surface-local extents: the XDG geometry hint, the X11 window's
    /// position and size, or a layer surface's desired size at the origin.
    pub open spec fn extents_spec(&self) -> Rectangle {
        match self {
            Surface::Layer(s) => Rectangle {
                top_left: TPoint { x: 0, y: 0 },
                size: s.state.geometry.size,
            },
            Surface::Xdg(s) => s.state.geometry,
            Surface::Xwayland(s) => s.state.geometry,
        }
    }

    /// The correction for client-side shadows: how far the surface-local
    /// extents start from the buffer. An X11 window reports its position in
    /// the layout, which the window's stored position already carries, so
    /// its correction takes that position out again.
    pub open spec fn buffer_displacement_spec(&self) -> (int, int) {
        match self {
            Surface::Layer(s) => (0 - s.state.buffer.top_left.x, 0 - s.state.buffer.top_left.y),
            Surface::Xdg(s) => (
                s.state.geometry.top_left.x - s.state.buffer.top_left.x,
                s.state.geometry.top_left.y - s.state.buffer.top_left.y,
            ),
            Surface::Xwayland(s) => (s.state.geometry.top_left.x as int, s.state.geometry.top_left.y as int),
        }
    }

    /// The geometry offset that popups of this surface are placed from:
    /// an XDG surface's geometry top-left, nothing for other surfaces.
    pub open spec fn popup_origin_spec(&self) -> (int, int) {
        match self {
            Surface::Xdg(s) => (s.state.geometry.top_left.x as int, s.state.geometry.top_left.y as int),
            _ => (0, 0),
        }
    }

    /// The offset of a popup from its parent.
    pub open spec fn parent_displacement_spec(&self) -> (int, int) {
        match self {
            Surface::Xdg(s) => if s.role == XdgRole::Popup {
                (s.popup_offset.dx as int, s.popup_offset.dy as int)
            } else {
                (0, 0)
            },
            _ => (0, 0),
        }
    }

    pub open spec fn wf(&self) -> bool {
        let b = self.buffer_displacement_spec();
        in_i32(b.0) && in_i32(b.1)
    }

    pub open spec fn can_receive_focus_spec(&self) -> bool {
        match self {
            Surface::Layer(_) => false,
            Surface::Xdg(s) => s.role == XdgRole::Toplevel,
            Surface::Xwayland(_) => true,
        }
    }

    pub open spec fn activated_spec(&self) -> bool {
        self.is_xdg_toplevel() && self.state_spec().activated
    }

    pub open spec fn maximized_spec(&self) -> bool {
        match self {
            Surface::Layer(_) => false,
            Surface::Xdg(s) => s.role == XdgRole::Toplevel && s.state.maximized,
            Surface::Xwayland(s) => s.state.maximized,
        }
    }

    pub open spec fn fullscreen_spec(&self) -> bool {
        match self {
            Surface::Layer(_) => false,
            Surface::Xdg(s) => s.role == XdgRole::Toplevel && s.state.fullscreen,
            Surface::Xwayland(s) => s.state.fullscreen,
        }
    }

    pub open spec fn resizing_spec(&self) -> bool {
        self.is_xdg_toplevel() && self.state_spec().resizing
    }

    /// The configure serial a toplevel's next request will carry.
    pub open spec fn pending_serial(&self) -> u32 {
        match self {
            Surface::Xdg(s) => s.next_serial,
            _ => 0,
        }
    }

    /// What a configure request does to an XDG toplevel: a new serial.
    pub open spec fn bump_serial(&self) -> Surface {
        match self {
            Surface::Xdg(s) => Surface::Xdg(XdgSurface { next_serial: next_serial_after(s.next_serial), ..*s }),
            _ => *self,
        }
    }

    /// This surface with its common state replaced.
    pub open spec fn with_state(&self, st: SurfaceState) -> Surface {
        match self {
            Surface::Layer(s) => Surface::Layer(LayerSurface { state: st, ..*s }),
            Surface::Xdg(s) => Surface::Xdg(XdgSurface { state: st, ..*s }),
            Surface::Xwayland(_) => Surface::Xwayland(XwaylandSurface { state: st }),
        }
    }

    /// The surface after it was asked to take a position: an X11 window
    /// takes it, other surfaces stay as they are.
    pub open spec fn moved(&self, top_left: Point) -> Surface {
        match *self {
            Surface::Xwayland(s) => Surface::Xwayland(
                XwaylandSurface {
                    state: SurfaceState {
                        geometry: Rectangle { top_left, size: s.state.geometry.size },
                        ..s.state
                    },
                },
            ),
            _ => *self,
        }
    }

    /// What asking for a position does to the surface.
    pub open spec fn move_to_spec(&self, top_left: Point, after: Surface) -> bool {
        after == self.moved(top_left)
    }

    /// What asking for a size does to the surface, and the serial it answers.
    pub open spec fn resize_spec(&self, size: Size, after: Surface, serial: u32) -> bool {
            match *self {
                Surface::Xdg(s) => if s.role == XdgRole::Toplevel {
                    serial == s.next_serial && after == Surface::Xdg(
                        XdgSurface {
                            state: SurfaceState { requested_size: Some(size), ..s.state },
                            next_serial: next_serial_after(s.next_serial),
                            ..s
                        },
                    )
                } else {
                    serial == 0 && after == *self
                },
                Surface::Layer(s) => serial == 0 && after == Surface::Layer(
                    LayerSurface {
                        state: SurfaceState { requested_size: Some(size), ..s.state },
                        ..s
                    },
                ),
                Surface::Xwayland(s) => serial == XWAYLAND_CONFIGURE_SERIAL && after
                    == Surface::Xwayland(
                    XwaylandSurface {
                        state: SurfaceState {
                            geometry: Rectangle { top_left: s.state.geometry.top_left, size },
                            requested_size: Some(size),
                            ..s.state
                        },
                    },
                ),
            }
    }

    /// Whether the buffer correction can be represented.
    pub fn is_wf(&self) -> (r: bool)
        ensures
            r == self.wf(),
    {
        match self {
            Surface::Layer(s) => s.state.buffer.top_left.x != i32::MIN && s.state.buffer.top_left.y
                != i32::MIN,
            Surface::Xdg(s) => {
                let dx = s.state.geometry.top_left.x as i64 - s.state.buffer.top_left.x as i64;
                let dy = s.state.geometry.top_left.y as i64 - s.state.buffer.top_left.y as i64;
                i32::MIN as i64 <= dx && dx <= i32::MAX as i64 && i32::MIN as i64 <= dy && dy
                    <= i32::MAX as i64
            },
            Surface::Xwayland(_) => true,
        }
    }

    /// Whether the surface records the sizes asked of it: every surface
    /// but an XDG popup or a role-less XDG surface.
    pub open spec fn takes_size(&self) -> bool {
        match self {
            Surface::Xdg(s) => s.role == XdgRole::Toplevel,
            _ => true,
        }
    }

    /// A position request keeps what the surface is and may take.
    pub proof fn lemma_move_to_spec(&self, top_left: Point, after: Surface)
        requires
            self.move_to_spec(top_left, after),
        ensures
            after.id_spec() == self.id_spec(),
            after.wf() == self.wf(),
            after.parent_spec() == self.parent_spec(),
            after.can_receive_focus_spec() == self.can_receive_focus_spec(),
    {
    }

    /// A size request answers with the serial of the surface's role, keeps
    /// the surface's identity and buffer, and is recorded where the surface
    /// takes sizes.
    pub proof fn lemma_resize_spec(&self, size: Size, after: Surface, serial: u32)
        requires
            self.resize_spec(size, after, serial),
        ensures
            serial == configured_serial(*self),
            self.takes_size() ==> after.state_spec().requested_size == Some(size),
            after.takes_size() == self.takes_size(),
            after.id_spec() == self.id_spec(),
            after.wf() == self.wf(),
            after.parent_spec() == self.parent_spec(),
            after.can_receive_focus_spec() == self.can_receive_focus_spec(),
            after.maximized_spec() == self.maximized_spec(),
            after.fullscreen_spec() == self.fullscreen_spec(),
            after.resizing_spec() == self.resizing_spec(),
            after.takes_flags() == self.takes_flags(),
    {
    }

    /// Whether the surface keeps the maximized and fullscreen flags asked
    /// of it: XDG toplevels and X11 windows.
    pub open spec fn takes_flags(&self) -> bool {
        self.is_xdg_toplevel() || self is Xwayland
    }

    /// Asking for one flag sets it where the surface keeps it, and leaves
    /// the others.
    pub proof fn lemma_flag_set(&self, flag: SurfaceFlag, value: bool)
        ensures
            ({
                let a = configured_surface(*self, with_flag(self.state_spec(), flag, value), xwayland_keeps(flag));
                &&& flag == SurfaceFlag::Maximized ==> a.maximized_spec() == (value && self.takes_flags())
                    && a.fullscreen_spec() == self.fullscreen_spec()
                &&& flag == SurfaceFlag::Fullscreen ==> a.fullscreen_spec() == (value && self.takes_flags())
                    && a.maximized_spec() == self.maximized_spec()
                &&& flag == SurfaceFlag::Resizing ==> a.resizing_spec() == (value && self.is_xdg_toplevel())
                    && a.maximized_spec() == self.maximized_spec() && a.fullscreen_spec() == self.fullscreen_spec()
                &&& a.takes_flags() == self.takes_flags()
                &&& a.can_receive_focus_spec() == self.can_receive_focus_spec()
                &&& a.extents_spec() == self.extents_spec()
                &&& a.wf() == self.wf()
                &&& a.id_spec() == self.id_spec()
            }),
    {
    }

    pub fn id(&self) -> (r: u64)
        ensures
            r == self.id_spec(),
    {
        self.state().id
    }

    pub fn state(&self) -> (r: SurfaceState)
        ensures
            r == self.state_spec(),
    {
        match self {
            Surface::Layer(s) => s.state,
            Surface::Xdg(s) => s.state,
            Surface::Xwayland(s) => s.state,
        }
    }

    /// The surface this one is attached to, for popups.
    pub fn parent(&self) -> (r: Option<u64>)
        ensures
            r == self.parent_spec(),
    {
        match self {
            Surface::Xdg(s) => if s.role == XdgRole::Popup {
                s.parent
            } else {
                None
            },
            _ => None,
        }
    }

    pub fn extents(&self) -> (r: Rectangle)
        ensures
            r == self.extents_spec(),
    {
        match self {
            Surface::Layer(s) => Rectangle { top_left: Point::zero(), size: s.state.geometry.size },
            Surface::Xdg(s) => s.state.geometry,
            Surface::Xwayland(s) => s.state.geometry,
        }
    }

    /// The committed buffer's offset and size, in surface coordinates.
    pub fn buffer_rect(&self) -> (r: Rectangle)
        ensures
            r == self.state_spec().buffer,
    {
        self.state().buffer
    }

    pub fn buffer_displacement(&self) -> (r: Displacement)
        requires
            self.wf(),
        ensures
            r.dx == self.buffer_displacement_spec().0,
            r.dy == self.buffer_displacement_spec().1,
    {
        match self {
            Surface::Layer(s) => TDisplacement {
                dx: 0 - s.state.buffer.top_left.x,
                dy: 0 - s.state.buffer.top_left.y,
            },
            Surface::Xdg(s) => TDisplacement {
                dx: s.state.geometry.top_left.x - s.state.buffer.top_left.x,
                dy: s.state.geometry.top_left.y - s.state.buffer.top_left.y,
            },
            Surface::Xwayland(s) => s.state.geometry.top_left.as_displacement(),
        }
    }

    pub fn popup_origin(&self) -> (r: Displacement)
        ensures
            r.dx == self.popup_origin_spec().0,
            r.dy == self.popup_origin_spec().1,
    {
        match self {
            Surface::Xdg(s) => s.state.geometry.top_left.as_displacement(),
            _ => Displacement::zero(),
        }
    }

    pub fn parent_displacement(&self) -> (r: Displacement)
        ensures
            r.dx == self.parent_displacement_spec().0,
            r.dy == self.parent_displacement_spec().1,
    {
        match self {
            Surface::Xdg(s) => if s.role == XdgRole::Popup {
                s.popup_offset
            } else {
                Displacement::zero()
            },
            _ => Displacement::zero(),
        }
    }

    /// Asks the surface to take a position. Only X11 clients are told:
    /// other protocols leave positions to the compositor.
    pub fn move_to(&mut self, top_left: Point)
        ensures
            old(self).move_to_spec(top_left, *final(self)),
    {
        match self {
            Surface::Xwayland(s) => {
                s.state.geometry.top_left = top_left;
            },
            _ => {},
        }
    }

    /// Asks the client for a new size and returns the configure serial that
    /// the client's answering commit will carry.
    pub fn resize(&mut self, size: Size) -> (serial: u32)
        ensures
            old(self).resize_spec(size, *final(self), serial),
    {
        match self {
            Surface::Xdg(s) => {
                if s.role == XdgRole::Toplevel {
                    let serial = s.next_serial;
                    s.state.requested_size = Some(size);
                    s.next_serial = s.next_serial.wrapping_add(1);
                    serial
                } else {
                    0
                }
            },
            Surface::Layer(s) => {
                s.state.requested_size = Some(size);
                0
            },
            Surface::Xwayland(s) => {
                s.state.geometry.size = size;
                s.state.requested_size = Some(size);
                XWAYLAND_CONFIGURE_SERIAL
            },
        }
    }

    pub fn can_receive_focus(&self) -> (r: bool)
        ensures
            r == self.can_receive_focus_spec(),
    {
        match self {
            Surface::Layer(_) => false,
            Surface::Xdg(s) => s.role == XdgRole::Toplevel,
            Surface::Xwayland(_) => true,
        }
    }

    pub fn activated(&self) -> (r: bool)
        ensures
            r == self.activated_spec(),
    {
        match self {
            Surface::Xdg(s) => s.role == XdgRole::Toplevel && s.state.activated,
            _ => false,
        }
    }

    pub fn maximized(&self) -> (r: bool)
        ensures
            r == self.maximized_spec(),
    {
        match self {
            Surface::Layer(_) => false,
            Surface::Xdg(s) => s.role == XdgRole::Toplevel && s.state.maximized,
            Surface::Xwayland(s) => s.state.maximized,
        }
    }

    pub fn fullscreen(&self) -> (r: bool)
        ensures
            r == self.fullscreen_spec(),
    {
        match self {
            Surface::Layer(_) => false,
            Surface::Xdg(s) => s.role == XdgRole::Toplevel && s.state.fullscreen,
            Surface::Xwayland(s) => s.state.fullscreen,
        }
    }

    pub fn resizing(&self) -> (r: bool)
        ensures
            r == self.resizing_spec(),
    {
        match self {
            Surface::Xdg(s) => s.role == XdgRole::Toplevel && s.state.resizing,
            _ => false,
        }
    }

    /// Sets the activated flag of a toplevel or an X11 window; layer surfaces
    /// and popups ignore it.
    pub fn set_activated(&mut self, activated: bool) -> (serial: u32)
        ensures
            configured(*old(self), SurfaceState { activated, ..old(self).state_spec() }, true, *final(self), serial),
    {
        match self {
            Surface::Xdg(s) => {
                if s.role == XdgRole::Toplevel {
                    let serial = s.next_serial;
                    s.state.activated = activated;
                    s.next_serial = s.next_serial.wrapping_add(1);
                    serial
                } else {
                    0
                }
            },
            Surface::Layer(_) => 0,
            Surface::Xwayland(s) => {
                s.state.activated = activated;
                XWAYLAND_CONFIGURE_SERIAL
            },
        }
    }

    /// Asks a toplevel or an X11 window to be maximized or restored.
    pub fn set_maximized(&mut self, maximized: bool) -> (serial: u32)
        ensures
            configured(*old(self), SurfaceState { maximized, ..old(self).state_spec() }, true, *final(self), serial),
    {
        match self {
            Surface::Xdg(s) => {
                if s.role == XdgRole::Toplevel {
                    let serial = s.next_serial;
                    s.state.maximized = maximized;
                    s.next_serial = s.next_serial.wrapping_add(1);
                    serial
                } else {
                    0
                }
            },
            Surface::Layer(_) => 0,
            Surface::Xwayland(s) => {
                s.state.maximized = maximized;
                XWAYLAND_CONFIGURE_SERIAL
            },
        }
    }

    /// Asks a toplevel or an X11 window to enter or leave fullscreen.
    pub fn set_fullscreen(&mut self, fullscreen: bool) -> (serial: u32)
        ensures
            configured(*old(self), SurfaceState { fullscreen, ..old(self).state_spec() }, true, *final(self), serial),
    {
        match self {
            Surface::Xdg(s) => {
                if s.role == XdgRole::Toplevel {
                    let serial = s.next_serial;
                    s.state.fullscreen = fullscreen;
                    s.next_serial = s.next_serial.wrapping_add(1);
                    serial
                } else {
                    0
                }
            },
            Surface::Layer(_) => 0,
            Surface::Xwayland(s) => {
                s.state.fullscreen = fullscreen;
                XWAYLAND_CONFIGURE_SERIAL
            },
        }
    }

    /// Tells a toplevel whether an interactive resize is going on; X11 has
    /// no such state.
    pub fn set_resizing(&mut self, resizing: bool) -> (serial: u32)
        ensures
            configured(*old(self), SurfaceState { resizing, ..old(self).state_spec() }, false, *final(self), serial),
    {
        match self {
            Surface::Xdg(s) => {
                if s.role == XdgRole::Toplevel {
                    let serial = s.next_serial;
                    s.state.resizing = resizing;
                    s.next_serial = s.next_serial.wrapping_add(1);
                    serial
                } else {
                    0
                }
            },
            Surface::Layer(_) => 0,
            Surface::Xwayland(_) => XWAYLAND_CONFIGURE_SERIAL,
        }
    }

    /// Asks the surface to take one flag.
    pub fn set_flag(&mut self, flag: SurfaceFlag, value: bool) -> (serial: u32)
        ensures
            configured(*old(self), with_flag(old(self).state_spec(), flag, value), xwayland_keeps(flag), *final(self), serial),
    {
        match flag {
            SurfaceFlag::Activated => self.set_activated(value),
            SurfaceFlag::Maximized => self.set_maximized(value),
            SurfaceFlag::Fullscreen => self.set_fullscreen(value),
            SurfaceFlag::Resizing => self.set_resizing(value),
        }
    }

    /// Takes the geometry and buffer that the client committed.
    pub fn apply_client_state(&mut self, geometry: Rectangle, buffer: Rectangle)
        ensures
            *final(self) == old(self).with_state(
                SurfaceState { geometry, buffer, ..old(self).state_spec() },
            ),
    {
        match self {
            Surface::Layer(s) => {
                s.state.geometry = geometry;
                s.state.buffer = buffer;
            },
            Surface::Xdg(s) => {
                s.state.geometry = geometry;
                s.state.buffer = buffer;
            },
            Surface::Xwayland(s) => {
                s.state.geometry = geometry;
                s.state.buffer = buffer;
            },
        }
    }

    /// Asks the client to close the surface.
    pub fn ask_client_to_close(&mut self)
        ensures
            *final(self) == old(self).with_state(
                SurfaceState { close_requested: true, ..old(self).state_spec() },
            ),
    {
        match self {
            Surface::Layer(s) => {
                s.state.close_requested = true;
            },
            Surface::Xdg(s) => {
                s.state.close_requested = true;
            },
            Surface::Xwayland(s) => {
                s.state.close_requested = true;
            },
        }
    }
}

/// What a request that changes one piece of state does: an XDG toplevel
/// takes the state and answers with a fresh configure serial; an X11 window
/// takes it when `xwayland_applies` and answers with the fixed serial; other
/// surfaces ignore the request and answer with serial zero.
pub open spec fn configured(
    before: Surface,
    new_state: SurfaceState,
    xwayland_applies: bool,
    after: Surface,
    serial: u32,
) -> bool {
    after == configured_surface(before, new_state, xwayland_applies) && serial == configured_serial(
        before,
    )
}

/// The surface after such a request.
pub open spec fn configured_surface(
    before: Surface,
    new_state: SurfaceState,
    xwayland_applies: bool,
) -> Surface {
    if before.is_xdg_toplevel() {
        before.with_state(new_state).bump_serial()
    } else if before is Xwayland && xwayland_applies {
        before.with_state(new_state)
    } else {
        before
    }
}

/// The serial that answers such a request.
pub open spec fn configured_serial(before: Surface) -> u32 {
    if before.is_xdg_toplevel() {
        before.pending_serial()
    } else if before is Xwayland {
        XWAYLAND_CONFIGURE_SERIAL
    } else {
        0
    }
}

} // verus!
