//! Surfaces: named, displayable units of content.

use vstd::prelude::*;

verus! {

/// How a surface is backed. An `OwnedWindow` may be destroyed and later
/// recreated; a `ChildSurface` is kept alive across hides so that the content
/// it has loaded (a session, a login) survives.
#[derive(Clone, Copy, PartialEq, Eq, Structural, Debug)]
pub enum SurfaceKind {
    OwnedWindow,
    ChildSurface,
}

/// A named, displayable unit of content. A surface is *foreground* when it is
/// visible, fullscreen, topmost and focused; a foreground surface is always
/// visible.
pub struct Surface {
    pub name: String,
    pub kind: SurfaceKind,
    pub visible: bool,
    pub foreground: bool,
}

impl Surface {
    /// A surface may only claim foreground status while it is visible.
    pub open spec fn wf(self) -> bool {
        self.foreground ==> self.visible
    }

    /// The surface with every foreground attribute cleared.
    pub open spec fn lowered(self) -> Surface {
        Surface { visible: false, foreground: false, ..self }
    }

    /// The surface holding every foreground attribute.
    pub open spec fn raised(self) -> Surface {
        Surface { visible: true, foreground: true, ..self }
    }

    /// A fresh, hidden surface.
    pub fn new_hidden(name: String, kind: SurfaceKind) -> (s: Surface)
        ensures
            s.name == name,
            s.kind == kind,
            !s.visible,
            !s.foreground,
            s.wf(),
    {
        Surface { name, kind, visible: false, foreground: false }
    }
}

} // verus!
