//! The in-app organ controller and the main-surface toggle.
//!
//! A [`Shell`] arbitrates between a main surface and an in-app organ surface
//! held in the surface registry. Each command updates the recorded surface
//! states and returns the plan of window actions that realises the change;
//! the surrounding application performs the plan in order.

use vstd::prelude::*;
use crate::registry::CreateError;
use crate::registry::Registry;
use crate::registry::lemma_named_at;
use crate::surface::Surface;
use crate::surface::SurfaceKind;
use crate::switcher::Action;
use crate::switcher::SurfaceId;
use crate::switcher::lower_actions;
use crate::switcher::lower_plan;
use crate::switcher::raise_actions;
use crate::switcher::raise_plan;
use crate::switcher::switch_actions;
use crate::switcher::switch_plan;

verus! {

/// What closing the organ does: hide it so its loaded content survives, or
/// destroy its backing window. A product decision, made explicit here rather
/// than hardcoded.
#[derive(Clone, Copy, PartialEq, Eq, Structural, Debug)]
pub enum CloseMode {
    HideOnly,
    Destroy,
}

/// The observable state of the organ.
#[derive(Clone, Copy, PartialEq, Eq, Structural, Debug)]
pub enum OrganState {
    /// Never created, destroyed, or confirmed terminated.
    Closed,
    /// Currently on screen.
    Visible,
    /// Created but hidden.
    Background,
}

impl OrganState {
    /// The wire label of this state, as reported to the presentation layer.
    pub fn as_label(&self) -> (r: &'static str)
        ensures
            *self == OrganState::Closed ==> r@ == "closed"@,
            *self == OrganState::Visible ==> r@ == "visible"@,
            *self == OrganState::Background ==> r@ == "background"@,
    {
        match self {
            OrganState::Closed => "closed",
            OrganState::Visible => "visible",
            OrganState::Background => "background",
        }
    }
}

/// What an open request decided.
#[derive(Clone, Copy, PartialEq, Eq, Structural, Debug)]
pub enum OpenStep {
    /// The organ already existed and was brought to the foreground.
    Raised,
    /// The organ is absent; its backing window must be built first, after
    /// which the outcome is reported through `organ_built`.
    NeedsBuild,
}

/// The in-app shell: a main surface and an organ surface, arbitrated so that
/// at most one of them is foreground at any instant.
pub struct Shell {
    pub registry: Registry,
    pub main_name: String,
    pub organ_name: String,
    pub organ_kind: SurfaceKind,
    pub settle_ms: u64,
    pub close_mode: CloseMode,
}

impl Shell {
    /// Is the main surface present?
    pub open spec fn has_main(self) -> bool {
        self.registry.contains_name(self.main_name@)
    }

    /// Is the organ surface present?
    pub open spec fn has_organ(self) -> bool {
        self.registry.contains_name(self.organ_name@)
    }

    /// The main surface record, when present.
    pub open spec fn main_surface(self) -> Surface {
        self.registry.surface_named(self.main_name@)
    }

    /// The organ surface record, when present.
    pub open spec fn organ_surface(self) -> Surface {
        self.registry.surface_named(self.organ_name@)
    }

    /// Is the organ present and on screen?
    pub open spec fn organ_visible(self) -> bool {
        self.has_organ() && self.organ_surface().visible
    }

    /// The configuration of `other` matches this one.
    pub open spec fn same_config(self, other: Shell) -> bool {
        &&& self.main_name == other.main_name
        &&& self.organ_name == other.organ_name
        &&& self.organ_kind == other.organ_kind
        &&& self.settle_ms == other.settle_ms
        &&& self.close_mode == other.close_mode
    }

    /// Frame condition of the visibility commands: every record keeps its
    /// name and kind, and any record that is neither the main nor the organ
    /// surface is untouched entirely.
    pub open spec fn others_untouched(pre: Shell, post: Shell) -> bool {
        &&& post.registry.surfaces@.len() == pre.registry.surfaces@.len()
        &&& forall|k: int|
            0 <= k < pre.registry.surfaces@.len() ==> {
                &&& (#[trigger] post.registry.surfaces@[k]).name@
                    == pre.registry.surfaces@[k].name@
                &&& post.registry.surfaces@[k].kind == pre.registry.surfaces@[k].kind
                &&& pre.registry.surfaces@[k].name@ != pre.main_name@
                    && pre.registry.surfaces@[k].name@ != pre.organ_name@
                    ==> post.registry.surfaces@[k] == pre.registry.surfaces@[k]
            }
    }

    /// Shell invariant: the registry is well formed, the two names differ,
    /// and only the two arbitrated surfaces ever hold the foreground.
    pub open spec fn wf(self) -> bool {
        &&& self.registry.wf()
        &&& self.main_name@ != self.organ_name@
        &&& forall|i: int|
            0 <= i < self.registry.surfaces@.len()
                && (#[trigger] self.registry.surfaces@[i]).foreground
                ==> self.registry.surfaces@[i].name@ == self.main_name@
                || self.registry.surfaces@[i].name@ == self.organ_name@
    }

    /// A fresh shell: the main surface exists and is hidden, the organ does
    /// not exist yet.
    pub fn new(
        main_name: String,
        organ_name: String,
        organ_kind: SurfaceKind,
        settle_ms: u64,
        close_mode: CloseMode,
    ) -> (s: Shell)
        requires
            main_name@ != organ_name@,
        ensures
            s.wf(),
            s.main_name == main_name,
            s.organ_name == organ_name,
            s.organ_kind == organ_kind,
            s.settle_ms == settle_ms,
            s.close_mode == close_mode,
            s.has_main(),
            !s.has_organ(),
            !s.main_surface().visible,
            !s.main_surface().foreground,
    {
        let mut registry = Registry::new();
        let created = registry.create(main_name.as_str(), SurfaceKind::OwnedWindow);
        proof {
            assert(created == Result::<(), CreateError>::Ok(()));
            lemma_named_at(registry, main_name@, registry.surfaces@.len() - 1);
        }
        let s = Shell { registry, main_name, organ_name, organ_kind, settle_ms, close_mode };
        s
    }

    /// The observable organ state: `Closed` when absent, `Visible` when on
    /// screen, `Background` when present but hidden.
    pub open spec fn spec_organ_status(self) -> OrganState {
        if !self.has_organ() {
            OrganState::Closed
        } else if self.organ_surface().visible {
            OrganState::Visible
        } else {
            OrganState::Background
        }
    }

    /// Report the observable organ state.
    pub fn organ_status(&self) -> (r: OrganState)
        requires
            self.wf(),
        ensures
            r == self.spec_organ_status(),
    {
        match self.registry.find(self.organ_name.as_str()) {
            None => OrganState::Closed,
            Some(i) => {
                proof {
                    lemma_named_at(self.registry, self.organ_name@, i as int);
                }
                if self.registry.surfaces[i].visible {
                    OrganState::Visible
                } else {
                    OrganState::Background
                }
            },
        }
    }

    /// Toggle the main surface. When the organ is on screen the request is
    /// routed through the switcher instead: the organ is hidden and the main
    /// surface restored to the foreground, never both left hidden. Only when
    /// no organ is on screen does the main surface flip between hidden and
    /// foreground.
    pub fn toggle(&mut self) -> (acts: Vec<Action>)
        requires
            old(self).wf(),
        ensures
            final(self).wf(),
            old(self).same_config(*final(self)),
            Shell::others_untouched(*old(self), *final(self)),
            old(self).organ_visible() && old(self).has_main() ==> {
                &&& acts@ == switch_plan(SurfaceId::Organ, SurfaceId::Main, old(self).settle_ms)
                &&& final(self).has_main() && final(self).has_organ()
                &&& final(self).main_surface() == old(self).main_surface().raised()
                &&& final(self).organ_surface() == old(self).organ_surface().lowered()
            },
            old(self).organ_visible() && !old(self).has_main() ==> *final(self) == *old(self)
                && acts@ == Seq::<Action>::empty(),
            !old(self).organ_visible() && old(self).has_main() && old(self).main_surface().visible
                ==> {
                &&& acts@ == lower_plan(SurfaceId::Main)
                &&& final(self).has_main()
                &&& final(self).main_surface() == old(self).main_surface().lowered()
                &&& final(self).has_organ() == old(self).has_organ()
                &&& old(self).has_organ() ==> final(self).organ_surface() == old(
                    self,
                ).organ_surface()
            },
            !old(self).organ_visible() && old(self).has_main() && !old(self).main_surface().visible
                ==> {
                &&& acts@ == raise_plan(SurfaceId::Main)
                &&& final(self).has_main()
                &&& final(self).main_surface() == old(self).main_surface().raised()
                &&& final(self).has_organ() == old(self).has_organ()
                &&& old(self).has_organ() ==> final(self).organ_surface() == old(
                    self,
                ).organ_surface()
            },
            !old(self).organ_visible() && !old(self).has_main() ==> *final(self) == *old(self)
                && acts@ == Seq::<Action>::empty(),
            // Toggle correctness: an organ on the foreground over a hidden
            // main surface always yields main foreground and organ hidden.
            old(self).has_main() && old(self).has_organ() && old(self).organ_surface().foreground
                && !old(self).main_surface().visible ==> final(self).main_surface().foreground
                && !final(self).organ_surface().visible,
    {
        let ghost pre = *self;
        let organ_on_screen: bool = match self.registry.find(self.organ_name.as_str()) {
            Some(i) => {
                proof {
                    lemma_named_at(self.registry, self.organ_name@, i as int);
                }
                self.registry.surfaces[i].visible
            },
            None => false,
        };
        if organ_on_screen {
            if self.registry.find(self.main_name.as_str()).is_some() {
                let ghost mi = pre.registry.index_of(pre.main_name@);
                let ghost oi = pre.registry.index_of(pre.organ_name@);
                self.registry.lower(self.organ_name.as_str());
                proof {
                    lemma_named_at(self.registry, pre.main_name@, mi);
                }
                self.registry.raise(self.main_name.as_str());
                proof {
                    lemma_named_at(self.registry, pre.main_name@, mi);
                    lemma_named_at(self.registry, pre.organ_name@, oi);
                }
                switch_actions(SurfaceId::Organ, SurfaceId::Main, self.settle_ms)
            } else {
                Vec::new()
            }
        } else {
            match self.registry.find(self.main_name.as_str()) {
                None => Vec::new(),
                Some(i) => {
                    proof {
                        lemma_named_at(self.registry, pre.main_name@, i as int);
                    }
                    let ghost mi = i as int;
                    if self.registry.surfaces[i].visible {
                        self.registry.lower(self.main_name.as_str());
                        proof {
                            lemma_named_at(self.registry, pre.main_name@, mi);
                            if pre.has_organ() {
                                lemma_named_at(
                                    self.registry,
                                    pre.organ_name@,
                                    pre.registry.index_of(pre.organ_name@),
                                );
                            }
                        }
                        lower_actions(SurfaceId::Main)
                    } else {
                        self.registry.raise(self.main_name.as_str());
                        proof {
                            lemma_named_at(self.registry, pre.main_name@, mi);
                            if pre.has_organ() {
                                lemma_named_at(
                                    self.registry,
                                    pre.organ_name@,
                                    pre.registry.index_of(pre.organ_name@),
                                );
                            }
                        }
                        raise_actions(SurfaceId::Main)
                    }
                },
            }
        }
    }

    /// Open the organ. When it already exists it is brought to the
    /// foreground through the switcher; when it is absent the caller must
    /// build its backing window and report the outcome through
    /// `organ_built`.
    pub fn open_organ(&mut self) -> (r: (OpenStep, Vec<Action>))
        requires
            old(self).wf(),
        ensures
            final(self).wf(),
            old(self).same_config(*final(self)),
            Shell::others_untouched(*old(self), *final(self)),
            old(self).has_organ() && old(self).has_main() ==> {
                &&& r.0 == OpenStep::Raised
                &&& r.1@ == switch_plan(SurfaceId::Main, SurfaceId::Organ, old(self).settle_ms)
                &&& final(self).has_main() && final(self).has_organ()
                &&& final(self).organ_surface() == old(self).organ_surface().raised()
                &&& final(self).main_surface() == old(self).main_surface().lowered()
            },
            old(self).has_organ() && !old(self).has_main() ==> {
                &&& r.0 == OpenStep::Raised
                &&& r.1@ == raise_plan(SurfaceId::Organ)
                &&& final(self).has_organ() && !final(self).has_main()
                &&& final(self).organ_surface() == old(self).organ_surface().raised()
            },
            !old(self).has_organ() ==> r.0 == OpenStep::NeedsBuild && r.1@ == seq![
                Action::BuildOrgan,
            ] && *final(self) == *old(self),
            old(self).has_organ() ==> final(self).spec_organ_status() == OrganState::Visible,
    {
        let ghost pre = *self;
        match self.registry.find(self.organ_name.as_str()) {
            None => {
                let mut acts: Vec<Action> = Vec::new();
                acts.push(Action::BuildOrgan);
                proof {
                    assert(acts@ =~= seq![Action::BuildOrgan]);
                }
                (OpenStep::NeedsBuild, acts)
            },
            Some(o) => {
                proof {
                    lemma_named_at(self.registry, pre.organ_name@, o as int);
                }
                let ghost oi = o as int;
                if self.registry.find(self.main_name.as_str()).is_some() {
                    let ghost mi = pre.registry.index_of(pre.main_name@);
                    self.registry.lower(self.main_name.as_str());
                    proof {
                        lemma_named_at(self.registry, pre.organ_name@, oi);
                    }
                    self.registry.raise(self.organ_name.as_str());
                    proof {
                        lemma_named_at(self.registry, pre.main_name@, mi);
                        lemma_named_at(self.registry, pre.organ_name@, oi);
                    }
                    (OpenStep::Raised, switch_actions(
                        SurfaceId::Main,
                        SurfaceId::Organ,
                        self.settle_ms,
                    ))
                } else {
                    self.registry.raise(self.organ_name.as_str());
                    proof {
                        lemma_named_at(self.registry, pre.organ_name@, oi);
                    }
                    (OpenStep::Raised, raise_actions(SurfaceId::Organ))
                }
            },
        }
    }

    /// Record the outcome of building the organ's backing window. On success
    /// the organ is registered and brought to the foreground over the main
    /// surface; on failure nothing changes and the failure is reported to the
    /// caller of the open request.
    pub fn organ_built(&mut self, ok: bool) -> (r: (Result<OrganState, CreateError>, Vec<Action>))
        requires
            old(self).wf(),
            !old(self).has_organ(),
        ensures
            final(self).wf(),
            old(self).same_config(*final(self)),
            !ok ==> r.0 == Result::<OrganState, CreateError>::Err(CreateError::BackingFailure)
                && *final(self) == *old(self) && r.1@ == Seq::<Action>::empty(),
            ok ==> {
                &&& r.0 == Result::<OrganState, CreateError>::Ok(OrganState::Visible)
                &&& final(self).has_organ()
                &&& final(self).organ_surface().foreground
                &&& final(self).organ_surface().kind == old(self).organ_kind
                &&& final(self).spec_organ_status() == OrganState::Visible
                &&& final(self).has_main() == old(self).has_main()
            },
            ok && old(self).has_main() ==> r.1@ == switch_plan(
                SurfaceId::Main,
                SurfaceId::Organ,
                old(self).settle_ms,
            ) && final(self).main_surface() == old(self).main_surface().lowered(),
            ok && !old(self).has_main() ==> r.1@ == raise_plan(SurfaceId::Organ),
    {
        let ghost pre = *self;
        if !ok {
            return (Err(CreateError::BackingFailure), Vec::new());
        }
        let created = self.registry.create(self.organ_name.as_str(), self.organ_kind);
        proof {
            assert(created == Result::<(), CreateError>::Ok(()));
            lemma_named_at(self.registry, pre.organ_name@, self.registry.surfaces@.len() - 1);
        }
        let ghost oi = self.registry.surfaces@.len() - 1;
        if let Some(m) = self.registry.find(self.main_name.as_str()) {
            let ghost mi = m as int;
            proof {
                assert(mi != oi);
                assert(self.registry.surfaces@[mi] == self.registry.surfaces@.drop_last()[mi]);
                lemma_named_at(pre.registry, pre.main_name@, mi);
                lemma_named_at(self.registry, pre.main_name@, mi);
            }
            self.registry.lower(self.main_name.as_str());
            proof {
                lemma_named_at(self.registry, pre.organ_name@, oi);
                assert forall|i: int|
                    0 <= i < self.registry.surfaces@.len() && (#[trigger] self.registry.surfaces@[i]).foreground implies self.registry.surfaces@[i].name@ == pre.organ_name@ by {
                    if i != mi && i != oi {
                        assert(self.registry.surfaces@[i] == pre.registry.surfaces@[i]);
                        if pre.registry.surfaces@[i].name@ == pre.organ_name@ {
                            assert(pre.registry.contains_name(pre.organ_name@));
                        }
                        assert(pre.registry.surfaces@[i].name@ == pre.main_name@);
                        assert(pre.registry.surfaces@[mi].name@ == pre.main_name@);
                        assert(false);
                    }
                }
            }
            self.registry.raise(self.organ_name.as_str());
            proof {
                lemma_named_at(self.registry, pre.main_name@, mi);
                lemma_named_at(self.registry, pre.organ_name@, oi);
            }
            (Ok(OrganState::Visible), switch_actions(
                SurfaceId::Main,
                SurfaceId::Organ,
                self.settle_ms,
            ))
        } else {
            proof {
                assert forall|i: int|
                    0 <= i < self.registry.surfaces@.len() && (#[trigger] self.registry.surfaces@[i]).foreground implies self.registry.surfaces@[i].name@ == pre.organ_name@ by {
                    if i != oi {
                        assert(self.registry.surfaces@[i] == self.registry.surfaces@.drop_last()[i]);
                        if pre.registry.surfaces@[i].name@ == pre.organ_name@ {
                            assert(pre.registry.contains_name(pre.organ_name@));
                        }
                        assert(self.registry.surfaces@[i].name@ == pre.main_name@);
                        assert(self.registry.contains_name(pre.main_name@));
                        assert(false);
                    }
                }
            }
            self.registry.raise(self.organ_name.as_str());
            proof {
                lemma_named_at(self.registry, pre.organ_name@, oi);
            }
            (Ok(OrganState::Visible), raise_actions(SurfaceId::Organ))
        }
    }

    /// Show the organ (foreground it over the main surface) or hide it
    /// (restore the main surface). Hiding an organ that is already hidden,
    /// or addressing an absent organ, is a no-op.
    pub fn show_organ(&mut self, visible: bool) -> (acts: Vec<Action>)
        requires
            old(self).wf(),
        ensures
            final(self).wf(),
            old(self).same_config(*final(self)),
            Shell::others_untouched(*old(self), *final(self)),
            !old(self).has_organ() ==> *final(self) == *old(self) && acts@ == Seq::<
                Action,
            >::empty(),
            visible && old(self).has_organ() && old(self).has_main() ==> {
                &&& acts@ == switch_plan(SurfaceId::Main, SurfaceId::Organ, old(self).settle_ms)
                &&& final(self).organ_surface() == old(self).organ_surface().raised()
                &&& final(self).main_surface() == old(self).main_surface().lowered()
                &&& final(self).has_main() && final(self).has_organ()
            },
            visible && old(self).has_organ() && !old(self).has_main() ==> {
                &&& acts@ == raise_plan(SurfaceId::Organ)
                &&& final(self).organ_surface() == old(self).organ_surface().raised()
                &&& final(self).has_organ() && !final(self).has_main()
            },
            !visible && old(self).organ_visible() && old(self).has_main() ==> {
                &&& acts@ == switch_plan(SurfaceId::Organ, SurfaceId::Main, old(self).settle_ms)
                &&& final(self).organ_surface() == old(self).organ_surface().lowered()
                &&& final(self).main_surface() == old(self).main_surface().raised()
                &&& final(self).has_main() && final(self).has_organ()
            },
            !visible && old(self).organ_visible() && !old(self).has_main() ==> {
                &&& acts@ == lower_plan(SurfaceId::Organ)
                &&& final(self).organ_surface() == old(self).organ_surface().lowered()
                &&& final(self).has_organ() && !final(self).has_main()
            },
            !visible && old(self).has_organ() && !old(self).organ_surface().visible ==> *final(self) == *old(self) && acts@ == Seq::<Action>::empty(),
    {
        let ghost pre = *self;
        match self.registry.find(self.organ_name.as_str()) {
            None => Vec::new(),
            Some(o) => {
                proof {
                    lemma_named_at(self.registry, pre.organ_name@, o as int);
                }
                let ghost oi = o as int;
                if visible {
                    if self.registry.find(self.main_name.as_str()).is_some() {
                        let ghost mi = pre.registry.index_of(pre.main_name@);
                        self.registry.lower(self.main_name.as_str());
                        proof {
                            lemma_named_at(self.registry, pre.organ_name@, oi);
                        }
                        self.registry.raise(self.organ_name.as_str());
                        proof {
                            lemma_named_at(self.registry, pre.main_name@, mi);
                            lemma_named_at(self.registry, pre.organ_name@, oi);
                        }
                        switch_actions(SurfaceId::Main, SurfaceId::Organ, self.settle_ms)
                    } else {
                        self.registry.raise(self.organ_name.as_str());
                        proof {
                            lemma_named_at(self.registry, pre.organ_name@, oi);
                        }
                        raise_actions(SurfaceId::Organ)
                    }
                } else {
                    if !self.registry.surfaces[o].visible {
                        Vec::new()
                    } else if self.registry.find(self.main_name.as_str()).is_some() {
                        let ghost mi = pre.registry.index_of(pre.main_name@);
                        self.registry.lower(self.organ_name.as_str());
                        proof {
                            lemma_named_at(self.registry, pre.main_name@, mi);
                        }
                        self.registry.raise(self.main_name.as_str());
                        proof {
                            lemma_named_at(self.registry, pre.main_name@, mi);
                            lemma_named_at(self.registry, pre.organ_name@, oi);
                        }
                        switch_actions(SurfaceId::Organ, SurfaceId::Main, self.settle_ms)
                    } else {
                        self.registry.lower(self.organ_name.as_str());
                        proof {
                            lemma_named_at(self.registry, pre.organ_name@, oi);
                        }
                        lower_actions(SurfaceId::Organ)
                    }
                }
            },
        }
    }

    /// Close the organ. Under `CloseMode::HideOnly` this hides it exactly as
    /// `show_organ(false)` does, so its loaded content survives; under
    /// `CloseMode::Destroy` the backing window is released and the main
    /// surface restored to the foreground. Closing an absent organ is a
    /// no-op, not an error.
    pub fn close_organ(&mut self) -> (acts: Vec<Action>)
        requires
            old(self).wf(),
        ensures
            final(self).wf(),
            old(self).same_config(*final(self)),
            !old(self).has_organ() ==> *final(self) == *old(self) && acts@ == Seq::<
                Action,
            >::empty(),
            old(self).close_mode == CloseMode::HideOnly && old(self).organ_visible() && old(
                self,
            ).has_main() ==> {
                &&& acts@ == switch_plan(SurfaceId::Organ, SurfaceId::Main, old(self).settle_ms)
                &&& final(self).organ_surface() == old(self).organ_surface().lowered()
                &&& final(self).main_surface() == old(self).main_surface().raised()
                &&& final(self).has_main() && final(self).has_organ()
            },
            old(self).close_mode == CloseMode::HideOnly && old(self).organ_visible() && !old(
                self,
            ).has_main() ==> {
                &&& acts@ == lower_plan(SurfaceId::Organ)
                &&& final(self).organ_surface() == old(self).organ_surface().lowered()
                &&& final(self).has_organ()
            },
            old(self).close_mode == CloseMode::HideOnly && old(self).has_organ() && !old(
                self,
            ).organ_surface().visible ==> *final(self) == *old(self) && acts@ == Seq::<
                Action,
            >::empty(),
            old(self).close_mode == CloseMode::Destroy && old(self).has_organ() ==> {
                &&& !final(self).has_organ()
                &&& final(self).spec_organ_status() == OrganState::Closed
                &&& final(self).registry.surfaces@.len() == old(self).registry.surfaces@.len() - 1
                &&& final(self).has_main() == old(self).has_main()
            },
            old(self).close_mode == CloseMode::Destroy && old(self).has_organ() && old(
                self,
            ).has_main() ==> acts@ == lower_plan(SurfaceId::Organ) + seq![
                Action::Settle(old(self).settle_ms),
                Action::DestroySurface(SurfaceId::Organ),
            ] + raise_plan(SurfaceId::Main) && final(self).main_surface() == old(
                self,
            ).main_surface().raised(),
            old(self).close_mode == CloseMode::Destroy && old(self).has_organ() && !old(
                self,
            ).has_main() ==> acts@ == lower_plan(SurfaceId::Organ) + seq![
                Action::Settle(old(self).settle_ms),
                Action::DestroySurface(SurfaceId::Organ),
            ],
    {
        let ghost pre = *self;
        let hide_only = match self.close_mode {
            CloseMode::HideOnly => true,
            CloseMode::Destroy => false,
        };
        if hide_only {
            return self.show_organ(false);
        }
        match self.registry.find(self.organ_name.as_str()) {
            None => Vec::new(),
            Some(o) => {
                proof {
                    lemma_named_at(self.registry, pre.organ_name@, o as int);
                }
                let ghost oi = o as int;
                self.registry.lower(self.organ_name.as_str());
                proof {
                    lemma_named_at(self.registry, pre.organ_name@, oi);
                }
                let ghost pre_lowered = self.registry.surfaces@;
                self.registry.destroy(self.organ_name.as_str());
                let ghost mid = *self;
                proof {
                    pre_lowered.remove_ensures(oi);
                }
                let mut acts = lower_actions(SurfaceId::Organ);
                acts.push(Action::Settle(self.settle_ms));
                acts.push(Action::DestroySurface(SurfaceId::Organ));
                if let Some(m) = self.registry.find(self.main_name.as_str()) {
                    let ghost m2 = m as int;
                    proof {
                        if m2 < oi {
                            assert(mid.registry.surfaces@[m2] == pre.registry.surfaces@[m2]);
                            lemma_named_at(pre.registry, pre.main_name@, m2);
                        } else {
                            assert(mid.registry.surfaces@[m2] == pre.registry.surfaces@[m2 + 1]);
                            lemma_named_at(pre.registry, pre.main_name@, m2 + 1);
                        }
                    }
                    self.registry.raise(self.main_name.as_str());
                    proof {
                        lemma_named_at(mid.registry, pre.main_name@, m2);
                        lemma_named_at(self.registry, pre.main_name@, m2);
                    }
                    let mut tail = raise_actions(SurfaceId::Main);
                    acts.append(&mut tail);
                    proof {
                        assert(acts@ =~= lower_plan(SurfaceId::Organ) + seq![
                            Action::Settle(pre.settle_ms),
                            Action::DestroySurface(SurfaceId::Organ),
                        ] + raise_plan(SurfaceId::Main));
                    }
                    acts
                } else {
                    proof {
                        if pre.has_main() {
                            let k = pre.registry.index_of(pre.main_name@);
                            assert(pre.registry.surfaces@[k].name@ == pre.main_name@);
                            if k < oi {
                                assert(mid.registry.surfaces@[k].name@ == pre.main_name@);
                            } else {
                                assert(mid.registry.surfaces@[k - 1].name@ == pre.main_name@);
                            }
                            assert(mid.registry.contains_name(pre.main_name@));
                            assert(false);
                        }
                        assert(acts@ =~= lower_plan(SurfaceId::Organ) + seq![
                            Action::Settle(pre.settle_ms),
                            Action::DestroySurface(SurfaceId::Organ),
                        ]);
                    }
                    acts
                }
            },
        }
    }
}

} // verus!
