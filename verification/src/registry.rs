//! The surface registry: logical name to live surface record.
//!
//! The registry owns every surface record for the process lifetime. It keeps
//! two invariants: names are unique, and at most one surface holds the
//! foreground at any instant.

use vstd::prelude::*;
use crate::surface::Surface;
use crate::surface::SurfaceKind;

verus! {

/// Why a surface could not be created.
#[derive(Clone, Copy, PartialEq, Eq, Structural, Debug)]
pub enum CreateError {
    /// A live surface of that name already exists.
    AlreadyExists,
    /// The underlying platform surface could not be instantiated.
    BackingFailure,
}

/// Maps a logical surface name to a live surface record.
pub struct Registry {
    pub surfaces: Vec<Surface>,
}

impl Registry {
    /// Is a surface of this name present (created and not destroyed)?
    pub open spec fn contains_name(self, name: Seq<char>) -> bool {
        exists|i: int| 0 <= i < self.surfaces@.len() && self.surfaces@[i].name@ == name
    }

    /// The index of the surface of this name, when one is present.
    pub open spec fn index_of(self, name: Seq<char>) -> int {
        choose|i: int| 0 <= i < self.surfaces@.len() && self.surfaces@[i].name@ == name
    }

    /// The surface of this name, when one is present.
    pub open spec fn surface_named(self, name: Seq<char>) -> Surface {
        self.surfaces@[self.index_of(name)]
    }

    /// No two records share a name.
    pub open spec fn names_unique(self) -> bool {
        forall|i: int, j: int|
            0 <= i < self.surfaces@.len() && 0 <= j < self.surfaces@.len()
                && #[trigger] self.surfaces@[i].name@ == #[trigger] self.surfaces@[j].name@
                ==> i == j
    }

    /// At most one surface reports the foreground.
    pub open spec fn at_most_one_foreground(self) -> bool {
        forall|i: int, j: int|
            0 <= i < self.surfaces@.len() && 0 <= j < self.surfaces@.len()
                && (#[trigger] self.surfaces@[i].foreground)
                && (#[trigger] self.surfaces@[j].foreground) ==> i == j
    }

    /// Registry invariant: unique names, each record well formed, and a
    /// single foreground holder at most.
    pub open spec fn wf(self) -> bool {
        &&& self.names_unique()
        &&& self.at_most_one_foreground()
        &&& forall|i: int| 0 <= i < self.surfaces@.len() ==> (#[trigger] self.surfaces@[i]).wf()
    }

    /// Every foreground holder, if any, is the surface named `name`.
    pub open spec fn foreground_only(self, name: Seq<char>) -> bool {
        forall|i: int|
            0 <= i < self.surfaces@.len() && (#[trigger] self.surfaces@[i]).foreground
                ==> self.surfaces@[i].name@ == name
    }

    /// An empty registry.
    pub fn new() -> (r: Registry)
        ensures
            r.wf(),
            r.surfaces@.len() == 0,
    {
        Registry { surfaces: Vec::new() }
    }

    /// Look a name up; `None` when the surface is absent or was destroyed.
    pub fn find(&self, name: &str) -> (r: Option<usize>)
        ensures
            match r {
                Some(i) => i < self.surfaces@.len() && self.surfaces@[i as int].name@ == name@
                    && self.contains_name(name@),
                None => !self.contains_name(name@),
            },
    {
        let key: String = name.to_owned();
        let n = self.surfaces.len();
        let mut i: usize = 0;
        while i < n
            invariant
                n == self.surfaces@.len(),
                i <= n,
                key@ == name@,
                forall|k: int| 0 <= k < i ==> self.surfaces@[k].name@ != name@,
            decreases n - i,
        {
            if self.surfaces[i].name == key {
                return Some(i);
            }
            i += 1;
        }
        None
    }

    /// Create a hidden surface of this name, failing when one already exists.
    pub fn create(&mut self, name: &str, kind: SurfaceKind) -> (r: Result<(), CreateError>)
        requires
            old(self).wf(),
        ensures
            final(self).wf(),
            old(self).contains_name(name@) ==> r == Result::<(), CreateError>::Err(
                CreateError::AlreadyExists,
            ) && *final(self) == *old(self),
            !old(self).contains_name(name@) ==> r == Result::<(), CreateError>::Ok(())
                && final(self).surfaces@.len() == old(self).surfaces@.len() + 1
                && final(self).surfaces@.last().name@ == name@
                && final(self).surfaces@.last().kind == kind
                && !final(self).surfaces@.last().visible
                && !final(self).surfaces@.last().foreground
                && final(self).surfaces@.drop_last() == old(self).surfaces@,
            final(self).contains_name(name@),
    {
        if self.find(name).is_some() {
            return Err(CreateError::AlreadyExists);
        }
        let s = Surface::new_hidden(name.to_owned(), kind);
        self.surfaces.push(s);
        proof {
            assert(self.surfaces@.drop_last() =~= old(self).surfaces@);
            assert(self.surfaces@.last().name@ == name@);
            assert forall|i: int, j: int|
                0 <= i < self.surfaces@.len() && 0 <= j < self.surfaces@.len()
                    && #[trigger] self.surfaces@[i].name@ == #[trigger] self.surfaces@[j].name@
                    implies i == j by {
                if i != j {
                    let k = if i == self.surfaces@.len() - 1 { j } else { i };
                    assert(self.surfaces@[k] == old(self).surfaces@[k]);
                }
            }
        }
        Ok(())
    }

    /// Record that every foreground attribute of the surface of this name was
    /// cleared and the surface hidden; a no-op when the name is absent.
    pub fn lower(&mut self, name: &str)
        requires
            old(self).wf(),
        ensures
            final(self).wf(),
            !old(self).contains_name(name@) ==> *final(self) == *old(self),
            old(self).contains_name(name@) ==> final(self).surfaces@ == old(
                self,
            ).surfaces@.update(old(self).index_of(name@), old(self).surface_named(name@).lowered()),
    {
        match self.find(name) {
            None => {
            },
            Some(i) => {
                proof {
                    assert(i == old(self).index_of(name@));
                }
                self.surfaces[i].visible = false;
                self.surfaces[i].foreground = false;
                proof {
                    assert(self.surfaces@ =~= old(self).surfaces@.update(
                        i as int,
                        old(self).surface_named(name@).lowered(),
                    ));
                }
            },
        }
    }

    /// Record that the surface of this name was shown and granted every
    /// foreground attribute; a no-op when the name is absent. Any prior
    /// foreground holder must be this surface itself, so that a single
    /// surface reports the foreground afterwards.
    pub fn raise(&mut self, name: &str)
        requires
            old(self).wf(),
            old(self).foreground_only(name@),
        ensures
            final(self).wf(),
            !old(self).contains_name(name@) ==> *final(self) == *old(self),
            old(self).contains_name(name@) ==> final(self).surfaces@ == old(
                self,
            ).surfaces@.update(old(self).index_of(name@), old(self).surface_named(name@).raised()),
            final(self).foreground_only(name@),
    {
        match self.find(name) {
            None => {
            },
            Some(i) => {
                proof {
                    assert(i == old(self).index_of(name@));
                }
                self.surfaces[i].visible = true;
                self.surfaces[i].foreground = true;
                proof {
                    assert(self.surfaces@ =~= old(self).surfaces@.update(
                        i as int,
                        old(self).surface_named(name@).raised(),
                    ));
                }
            },
        }
    }

    /// Destroy the surface of this name, releasing its record; destroying an
    /// absent surface is a no-op, not an error.
    pub fn destroy(&mut self, name: &str)
        requires
            old(self).wf(),
        ensures
            final(self).wf(),
            !old(self).contains_name(name@) ==> *final(self) == *old(self),
            old(self).contains_name(name@) ==> final(self).surfaces@ == old(
                self,
            ).surfaces@.remove(old(self).index_of(name@)),
            !final(self).contains_name(name@),
    {
        match self.find(name) {
            None => {
            },
            Some(i) => {
                self.surfaces.remove(i);
                proof {
                    assert(i == old(self).index_of(name@));
                    assert forall|k: int|
                        0 <= k < self.surfaces@.len() implies #[trigger] self.surfaces@[k].name@
                        != name@ by {
                        if k < i {
                            assert(self.surfaces@[k] == old(self).surfaces@[k]);
                        } else {
                            assert(self.surfaces@[k] == old(self).surfaces@[k + 1]);
                        }
                    }
                }
            },
        }
    }
}

/// When names are unique, an index whose record carries `name` is the one
/// `index_of` picks.
pub proof fn lemma_named_at(r: Registry, name: Seq<char>, i: int)
    requires
        r.names_unique(),
        0 <= i < r.surfaces@.len(),
        r.surfaces@[i].name@ == name,
    ensures
        r.contains_name(name),
        r.index_of(name) == i,
        r.surface_named(name) == r.surfaces@[i],
{
    assert(r.contains_name(name));
    let j = r.index_of(name);
    assert(0 <= j < r.surfaces@.len() && r.surfaces@[j].name@ == name);
}

/// Single-foreground law: a well-formed registry never lets two surface
/// records report the foreground at the same instant.
pub proof fn lemma_single_foreground(r: Registry, i: int, j: int)
    requires
        r.wf(),
        0 <= i < r.surfaces@.len(),
        0 <= j < r.surfaces@.len(),
        r.surfaces@[i].foreground,
        r.surfaces@[j].foreground,
    ensures
        i == j,
{
}

} // verus!
