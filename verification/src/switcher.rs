//! Planned surface and process actions, and the ordered foreground switch.
//!
//! The shell never touches a window directly: each command computes a plan, a
//! sequence of [`Action`] values, which the surrounding application performs
//! in order on the windowing layer, the organ process and the network. Every
//! action is best effort there; a failing attribute mutation is logged and the
//! rest of the plan still runs.

use vstd::prelude::*;

verus! {

/// The two logical surfaces the shell arbitrates between.
#[derive(Clone, Copy, PartialEq, Eq, Structural, Debug)]
pub enum SurfaceId {
    Main,
    Organ,
}

/// One step of a plan, performed by the surrounding application.
#[derive(Clone, Copy, PartialEq, Eq, Structural, Debug)]
pub enum Action {
    /// Set or clear the always-on-top attribute of a surface.
    SetAlwaysOnTop(SurfaceId, bool),
    /// Set or clear the fullscreen attribute of a surface.
    SetFullscreen(SurfaceId, bool),
    /// Make a surface visible.
    ShowSurface(SurfaceId),
    /// Hide a surface.
    HideSurface(SurfaceId),
    /// Give a surface the input focus.
    FocusSurface(SurfaceId),
    /// Wait the given number of milliseconds so the compositor releases an
    /// exclusive fullscreen surface before another one claims it.
    Settle(u64),
    /// Build the backing window of the in-app organ surface.
    BuildOrgan,
    /// Release every backing resource of a surface.
    DestroySurface(SurfaceId),
    /// Spawn the external organ process and detach it.
    SpawnOrgan,
    /// One-way "bring to front" notification to the process with this id.
    NotifyFront(u32),
    /// One-way "send to back" notification to the process with this id.
    NotifyBack(u32),
    /// One-way termination request to the process with this id.
    NotifyTerminate(u32),
    /// Remove the persisted process-identifier file.
    RemovePidFile,
}

/// Does this action clear a foreground attribute of surface `s` (one of the
/// steps that take `s` off the screen)?
pub open spec fn clears_surface(a: Action, s: SurfaceId) -> bool {
    ||| a == Action::SetAlwaysOnTop(s, false)
    ||| a == Action::SetFullscreen(s, false)
    ||| a == Action::HideSurface(s)
}

/// Does this action grant a foreground attribute to surface `s` (one of the
/// steps that put `s` on the screen)?
pub open spec fn raises_surface(a: Action, s: SurfaceId) -> bool {
    ||| a == Action::ShowSurface(s)
    ||| a == Action::SetAlwaysOnTop(s, true)
    ||| a == Action::SetFullscreen(s, true)
    ||| a == Action::FocusSurface(s)
}

/// The steps that clear every foreground attribute of `s`: drop always-on-top
/// and fullscreen, then hide.
pub open spec fn lower_plan(s: SurfaceId) -> Seq<Action> {
    seq![
        Action::SetAlwaysOnTop(s, false),
        Action::SetFullscreen(s, false),
        Action::HideSurface(s),
    ]
}

/// The steps that grant every foreground attribute to `s`: show, then
/// always-on-top, fullscreen and focus.
pub open spec fn raise_plan(s: SurfaceId) -> Seq<Action> {
    seq![
        Action::ShowSurface(s),
        Action::SetAlwaysOnTop(s, true),
        Action::SetFullscreen(s, true),
        Action::FocusSurface(s),
    ]
}

/// The full switch: clear `from`, wait `settle_ms` for the compositor to
/// release the exclusive fullscreen surface, then raise `to`.
pub open spec fn switch_plan(from: SurfaceId, to: SurfaceId, settle_ms: u64) -> Seq<Action> {
    lower_plan(from) + seq![Action::Settle(settle_ms)] + raise_plan(to)
}

/// Build the lowering steps for `s`.
pub fn lower_actions(s: SurfaceId) -> (v: Vec<Action>)
    ensures
        v@ == lower_plan(s),
{
    let mut v: Vec<Action> = Vec::new();
    v.push(Action::SetAlwaysOnTop(s, false));
    v.push(Action::SetFullscreen(s, false));
    v.push(Action::HideSurface(s));
    proof {
        assert(v@ =~= lower_plan(s));
    }
    v
}

/// Build the raising steps for `s`.
pub fn raise_actions(s: SurfaceId) -> (v: Vec<Action>)
    ensures
        v@ == raise_plan(s),
{
    let mut v: Vec<Action> = Vec::new();
    v.push(Action::ShowSurface(s));
    v.push(Action::SetAlwaysOnTop(s, true));
    v.push(Action::SetFullscreen(s, true));
    v.push(Action::FocusSurface(s));
    proof {
        assert(v@ =~= raise_plan(s));
    }
    v
}

/// Build the ordered switch from `from` to `to` with the configured settle
/// interval between the two halves.
pub fn switch_actions(from: SurfaceId, to: SurfaceId, settle_ms: u64) -> (v: Vec<Action>)
    ensures
        v@ == switch_plan(from, to, settle_ms),
{
    let mut v = lower_actions(from);
    v.push(Action::Settle(settle_ms));
    let mut tail = raise_actions(to);
    v.append(&mut tail);
    proof {
        assert(v@ =~= switch_plan(from, to, settle_ms));
    }
    v
}

/// Switch ordering law: in a switch plan, every step that clears a foreground
/// attribute of the outgoing surface stands strictly before every step that
/// grants a foreground attribute to the incoming surface. The outgoing
/// surface is therefore fully off the screen before the incoming one claims
/// it.
pub proof fn lemma_switch_clears_before_raises(from: SurfaceId, to: SurfaceId, settle_ms: u64)
    ensures
        forall|i: int, j: int|
            0 <= i < switch_plan(from, to, settle_ms).len()
                && 0 <= j < switch_plan(from, to, settle_ms).len()
                && clears_surface(#[trigger] switch_plan(from, to, settle_ms)[i], from)
                && raises_surface(#[trigger] switch_plan(from, to, settle_ms)[j], to) ==> i < j,
{
    let p = switch_plan(from, to, settle_ms);
    assert forall|i: int, j: int|
        0 <= i < p.len() && 0 <= j < p.len() && clears_surface(#[trigger] p[i], from)
            && raises_surface(#[trigger] p[j], to) implies i < j by {
        assert(p.len() == 8);
        assert(!clears_surface(p[3], from));
        assert(forall|k: int| 4 <= k < 8 ==> !clears_surface(#[trigger] p[k], from));
        assert(forall|k: int| 0 <= k < 4 ==> !raises_surface(#[trigger] p[k], to));
    }
}

/// The on-screen attribute state of one surface, as the windowing layer
/// would report it while a plan runs step by step.
#[derive(Clone, Copy, PartialEq, Eq, Structural, Debug)]
pub struct AttrState {
    pub visible: bool,
    pub on_top: bool,
    pub fullscreen: bool,
    pub focused: bool,
}

impl AttrState {
    /// A surface reports the foreground while it is visible, always on top,
    /// fullscreen and focused.
    pub open spec fn is_foreground(self) -> bool {
        self.visible && self.on_top && self.fullscreen && self.focused
    }
}

/// How one performed action changes the attributes of surface `s`. Actions
/// addressed to another surface, the settle wait and the process actions
/// leave them unchanged; destroying `s` takes everything off.
pub open spec fn apply_action(st: AttrState, s: SurfaceId, a: Action) -> AttrState {
    match a {
        Action::SetAlwaysOnTop(t, on) => if t == s {
            AttrState { on_top: on, ..st }
        } else {
            st
        },
        Action::SetFullscreen(t, on) => if t == s {
            AttrState { fullscreen: on, ..st }
        } else {
            st
        },
        Action::ShowSurface(t) => if t == s {
            AttrState { visible: true, ..st }
        } else {
            st
        },
        Action::HideSurface(t) => if t == s {
            AttrState { visible: false, ..st }
        } else {
            st
        },
        Action::FocusSurface(t) => if t == s {
            AttrState { focused: true, ..st }
        } else {
            st
        },
        Action::DestroySurface(t) => if t == s {
            AttrState { visible: false, on_top: false, fullscreen: false, focused: false }
        } else {
            st
        },
        _ => st,
    }
}

/// The attribute state of surface `s` after the actions have run in order.
pub open spec fn run_plan(st: AttrState, s: SurfaceId, acts: Seq<Action>) -> AttrState
    decreases acts.len(),
{
    if acts.len() == 0 {
        st
    } else {
        run_plan(apply_action(st, s, acts.first()), s, acts.drop_first())
    }
}

/// Once a surface's always-on-top attribute is off, a plan that never turns
/// it on for that surface keeps it off.
proof fn lemma_on_top_stays_false(st: AttrState, s: SurfaceId, acts: Seq<Action>)
    requires
        !st.on_top,
        forall|i: int|
            0 <= i < acts.len() ==> #[trigger] acts[i] != Action::SetAlwaysOnTop(s, true),
    ensures
        !run_plan(st, s, acts).on_top,
    decreases acts.len(),
{
    if acts.len() > 0 {
        assert(acts[0] != Action::SetAlwaysOnTop(s, true));
        let st1 = apply_action(st, s, acts.first());
        assert(!st1.on_top);
        assert(forall|i: int|
            0 <= i < acts.drop_first().len() ==> #[trigger] acts.drop_first()[i] == acts[i + 1]);
        lemma_on_top_stays_false(st1, s, acts.drop_first());
    }
}

/// Single-foreground law over the switch itself: starting from attribute
/// states in which the outgoing and incoming surfaces do not both report the
/// foreground, no prefix of a switch plan — no observable instant while it
/// runs — has both reporting it. The outgoing surface's always-on-top
/// attribute falls with the very first step and nothing in the rest of the
/// plan gives it back.
pub proof fn lemma_switch_single_foreground_throughout(
    from: SurfaceId,
    to: SurfaceId,
    settle_ms: u64,
    from_start: AttrState,
    to_start: AttrState,
    k: int,
)
    requires
        from != to,
        !(from_start.is_foreground() && to_start.is_foreground()),
        0 <= k <= switch_plan(from, to, settle_ms).len(),
    ensures
        !(run_plan(from_start, from, switch_plan(from, to, settle_ms).take(k)).is_foreground()
            && run_plan(to_start, to, switch_plan(from, to, settle_ms).take(k)).is_foreground()),
{
    let p = switch_plan(from, to, settle_ms);
    let pre = p.take(k);
    if k == 0 {
        assert(pre =~= Seq::<Action>::empty());
    } else {
        assert(pre.first() == Action::SetAlwaysOnTop(from, false));
        let st1 = apply_action(from_start, from, pre.first());
        assert(!st1.on_top);
        assert forall|i: int|
            0 <= i < pre.drop_first().len() implies #[trigger] pre.drop_first()[i]
            != Action::SetAlwaysOnTop(from, true) by {
            assert(pre.drop_first()[i] == p[i + 1]);
        }
        lemma_on_top_stays_false(st1, from, pre.drop_first());
    }
}

} // verus!
