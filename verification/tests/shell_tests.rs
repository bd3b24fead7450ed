use organ_shell::registry::CreateError;
use organ_shell::registry::Registry;
use organ_shell::shell::CloseMode;
use organ_shell::shell::OpenStep;
use organ_shell::shell::OrganState;
use organ_shell::shell::Shell;
use organ_shell::surface::SurfaceKind;
use organ_shell::switcher::Action;
use organ_shell::switcher::SurfaceId;
use organ_shell::switcher::lower_actions;
use organ_shell::switcher::raise_actions;
use organ_shell::switcher::switch_actions;

fn fresh_shell(close_mode: CloseMode) -> Shell {
    Shell::new(
        String::from("main"),
        String::from("whatsapp-organ"),
        SurfaceKind::ChildSurface,
        80,
        close_mode,
    )
}

fn foreground_count(shell: &Shell) -> usize {
    shell.registry.surfaces.iter().filter(|s| s.foreground).count()
}

fn open_built_organ(shell: &mut Shell) {
    let (step, _acts) = shell.open_organ();
    assert_eq!(step, OpenStep::NeedsBuild);
    let (result, _acts) = shell.organ_built(true);
    assert_eq!(result, Ok(OrganState::Visible));
}

#[test]
fn fresh_shell_starts_hidden_and_closed() {
    let shell = fresh_shell(CloseMode::Destroy);
    assert_eq!(shell.organ_status(), OrganState::Closed);
    assert_eq!(shell.organ_status().as_label(), "closed");
    assert_eq!(foreground_count(&shell), 0);
}

#[test]
fn single_foreground_invariant_holds_throughout() {
    let mut shell = fresh_shell(CloseMode::Destroy);
    assert!(foreground_count(&shell) <= 1);
    shell.toggle();
    assert!(foreground_count(&shell) <= 1);
    open_built_organ(&mut shell);
    assert!(foreground_count(&shell) <= 1);
    shell.toggle();
    assert!(foreground_count(&shell) <= 1);
    shell.show_organ(true);
    assert!(foreground_count(&shell) <= 1);
    shell.close_organ();
    assert!(foreground_count(&shell) <= 1);
    shell.toggle();
    assert!(foreground_count(&shell) <= 1);
}

#[test]
fn toggle_shows_hidden_main() {
    let mut shell = fresh_shell(CloseMode::Destroy);
    let acts = shell.toggle();
    assert_eq!(acts, raise_actions(SurfaceId::Main));
    let main = &shell.registry.surfaces[0];
    assert!(main.visible);
    assert!(main.foreground);
}

#[test]
fn toggle_hides_visible_main() {
    let mut shell = fresh_shell(CloseMode::Destroy);
    shell.toggle();
    let acts = shell.toggle();
    assert_eq!(acts, lower_actions(SurfaceId::Main));
    let main = &shell.registry.surfaces[0];
    assert!(!main.visible);
    assert!(!main.foreground);
}

#[test]
fn toggle_restores_main_when_organ_foreground() {
    let mut shell = fresh_shell(CloseMode::Destroy);
    open_built_organ(&mut shell);
    assert_eq!(shell.organ_status(), OrganState::Visible);

    let acts = shell.toggle();
    assert_eq!(acts, switch_actions(SurfaceId::Organ, SurfaceId::Main, 80));
    assert_eq!(shell.organ_status(), OrganState::Background);
    let main = &shell.registry.surfaces[0];
    let organ = &shell.registry.surfaces[1];
    assert!(main.foreground);
    assert!(main.visible);
    assert!(!organ.foreground);
    assert!(!organ.visible);
}

#[test]
fn open_organ_twice_switches_without_rebuild() {
    let mut shell = fresh_shell(CloseMode::Destroy);
    open_built_organ(&mut shell);
    shell.toggle();

    let (step, acts) = shell.open_organ();
    assert_eq!(step, OpenStep::Raised);
    assert_eq!(acts, switch_actions(SurfaceId::Main, SurfaceId::Organ, 80));
    assert!(!acts.contains(&Action::BuildOrgan));
    assert_eq!(shell.organ_status(), OrganState::Visible);
}

#[test]
fn organ_built_failure_reports_backing_failure() {
    let mut shell = fresh_shell(CloseMode::Destroy);
    let (step, _acts) = shell.open_organ();
    assert_eq!(step, OpenStep::NeedsBuild);
    let (result, acts) = shell.organ_built(false);
    assert_eq!(result, Err(CreateError::BackingFailure));
    assert!(acts.is_empty());
    assert_eq!(shell.organ_status(), OrganState::Closed);
}

#[test]
fn show_organ_false_restores_main() {
    let mut shell = fresh_shell(CloseMode::Destroy);
    open_built_organ(&mut shell);
    let acts = shell.show_organ(false);
    assert_eq!(acts, switch_actions(SurfaceId::Organ, SurfaceId::Main, 80));
    assert_eq!(shell.organ_status(), OrganState::Background);
    assert!(shell.registry.surfaces[0].foreground);
}

#[test]
fn show_organ_false_on_hidden_organ_is_noop() {
    let mut shell = fresh_shell(CloseMode::Destroy);
    open_built_organ(&mut shell);
    shell.show_organ(false);
    let before_statuses: Vec<(bool, bool)> = shell
        .registry
        .surfaces
        .iter()
        .map(|s| (s.visible, s.foreground))
        .collect();

    let acts = shell.show_organ(false);
    assert!(acts.is_empty());
    let after_statuses: Vec<(bool, bool)> = shell
        .registry
        .surfaces
        .iter()
        .map(|s| (s.visible, s.foreground))
        .collect();
    assert_eq!(before_statuses, after_statuses);
}

#[test]
fn show_organ_on_absent_organ_is_noop() {
    let mut shell = fresh_shell(CloseMode::Destroy);
    let acts = shell.show_organ(true);
    assert!(acts.is_empty());
    assert_eq!(shell.organ_status(), OrganState::Closed);
}

#[test]
fn close_organ_destroys_and_restores_main() {
    let mut shell = fresh_shell(CloseMode::Destroy);
    open_built_organ(&mut shell);
    let acts = shell.close_organ();
    let expected: Vec<Action> = vec![
        Action::SetAlwaysOnTop(SurfaceId::Organ, false),
        Action::SetFullscreen(SurfaceId::Organ, false),
        Action::HideSurface(SurfaceId::Organ),
        Action::Settle(80),
        Action::DestroySurface(SurfaceId::Organ),
        Action::ShowSurface(SurfaceId::Main),
        Action::SetAlwaysOnTop(SurfaceId::Main, true),
        Action::SetFullscreen(SurfaceId::Main, true),
        Action::FocusSurface(SurfaceId::Main),
    ];
    assert_eq!(acts, expected);
    assert_eq!(shell.organ_status(), OrganState::Closed);
    assert!(shell.registry.surfaces[0].foreground);
    assert_eq!(shell.registry.surfaces.len(), 1);
}

#[test]
fn close_organ_on_closed_organ_is_noop() {
    let mut shell = fresh_shell(CloseMode::Destroy);
    let acts = shell.close_organ();
    assert!(acts.is_empty());
    assert_eq!(shell.organ_status(), OrganState::Closed);

    open_built_organ(&mut shell);
    shell.close_organ();
    let second = shell.close_organ();
    assert!(second.is_empty());
    assert_eq!(shell.organ_status(), OrganState::Closed);
}

#[test]
fn close_organ_hide_only_keeps_surface() {
    let mut shell = fresh_shell(CloseMode::HideOnly);
    open_built_organ(&mut shell);
    let acts = shell.close_organ();
    assert_eq!(acts, switch_actions(SurfaceId::Organ, SurfaceId::Main, 80));
    assert_eq!(shell.organ_status(), OrganState::Background);
    assert_eq!(shell.registry.surfaces.len(), 2);

    let second = shell.close_organ();
    assert!(second.is_empty());
    assert_eq!(shell.organ_status(), OrganState::Background);
}

#[test]
fn organ_status_labels() {
    let mut shell = fresh_shell(CloseMode::Destroy);
    assert_eq!(shell.organ_status().as_label(), "closed");
    open_built_organ(&mut shell);
    assert_eq!(shell.organ_status().as_label(), "visible");
    shell.toggle();
    assert_eq!(shell.organ_status().as_label(), "background");
}

#[test]
fn registry_create_rejects_duplicate() {
    let mut registry = Registry::new();
    assert_eq!(registry.create("main", SurfaceKind::OwnedWindow), Ok(()));
    assert_eq!(
        registry.create("main", SurfaceKind::OwnedWindow),
        Err(CreateError::AlreadyExists)
    );
    assert_eq!(registry.surfaces.len(), 1);
}

#[test]
fn registry_find_and_destroy() {
    let mut registry = Registry::new();
    registry.create("main", SurfaceKind::OwnedWindow).unwrap();
    registry.create("organ", SurfaceKind::ChildSurface).unwrap();
    assert_eq!(registry.find("organ"), Some(1));
    assert_eq!(registry.find("absent"), None);

    registry.destroy("organ");
    assert_eq!(registry.find("organ"), None);
    assert_eq!(registry.surfaces.len(), 1);

    // Destroying an absent surface is a no-op, not an error.
    registry.destroy("organ");
    assert_eq!(registry.surfaces.len(), 1);
}

#[test]
fn switch_never_overlaps_foreground_midway() {
    // Replay a switch step by step, as the windowing layer would see it:
    // (visible, on_top, fullscreen, focused) per surface, organ starting as
    // the foreground holder. At no step do both surfaces report foreground.
    let mut organ = (true, true, true, true);
    let mut main = (false, false, false, false);
    let fg = |s: (bool, bool, bool, bool)| s.0 && s.1 && s.2 && s.3;
    assert!(!(fg(organ) && fg(main)));
    for action in switch_actions(SurfaceId::Organ, SurfaceId::Main, 80) {
        match action {
            Action::SetAlwaysOnTop(id, on) => match id {
                SurfaceId::Main => main.1 = on,
                SurfaceId::Organ => organ.1 = on,
            },
            Action::SetFullscreen(id, on) => match id {
                SurfaceId::Main => main.2 = on,
                SurfaceId::Organ => organ.2 = on,
            },
            Action::ShowSurface(id) => match id {
                SurfaceId::Main => main.0 = true,
                SurfaceId::Organ => organ.0 = true,
            },
            Action::HideSurface(id) => match id {
                SurfaceId::Main => main.0 = false,
                SurfaceId::Organ => organ.0 = false,
            },
            Action::FocusSurface(id) => match id {
                SurfaceId::Main => main.3 = true,
                SurfaceId::Organ => organ.3 = true,
            },
            _ => {}
        }
        assert!(!(fg(organ) && fg(main)));
    }
    assert!(fg(main));
    assert!(!fg(organ));
}

#[test]
fn switch_clears_outgoing_before_raising_incoming() {
    let acts = switch_actions(SurfaceId::Organ, SurfaceId::Main, 120);
    let clears: Vec<usize> = acts
        .iter()
        .enumerate()
        .filter(|(_, a)| {
            matches!(
                a,
                Action::SetAlwaysOnTop(SurfaceId::Organ, false)
                    | Action::SetFullscreen(SurfaceId::Organ, false)
                    | Action::HideSurface(SurfaceId::Organ)
            )
        })
        .map(|(i, _)| i)
        .collect();
    let raises: Vec<usize> = acts
        .iter()
        .enumerate()
        .filter(|(_, a)| {
            matches!(
                a,
                Action::ShowSurface(SurfaceId::Main)
                    | Action::SetAlwaysOnTop(SurfaceId::Main, true)
                    | Action::SetFullscreen(SurfaceId::Main, true)
                    | Action::FocusSurface(SurfaceId::Main)
            )
        })
        .map(|(i, _)| i)
        .collect();
    assert_eq!(clears.len(), 3);
    assert_eq!(raises.len(), 4);
    for c in &clears {
        for r in &raises {
            assert!(c < r);
        }
    }
    // The settle wait sits between the two halves.
    assert_eq!(acts[3], Action::Settle(120));
}
