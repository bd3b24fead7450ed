use organ_shell::external::ExternalOrgan;
use organ_shell::external::OpenDecision;
use organ_shell::external::SpawnError;
use organ_shell::shell::OrganState;
use organ_shell::switcher::Action;
use organ_shell::tracker::Tracker;
use organ_shell::tracker::parse_pid;

#[test]
fn parse_pid_plain_number() {
    assert_eq!(parse_pid("1234"), Some(1234));
}

#[test]
fn parse_pid_trailing_newline() {
    assert_eq!(parse_pid("1234\n"), Some(1234));
}

#[test]
fn parse_pid_surrounding_whitespace() {
    assert_eq!(parse_pid("  42 \r\n"), Some(42));
}

#[test]
fn parse_pid_leading_zeroes() {
    assert_eq!(parse_pid("007"), Some(7));
}

#[test]
fn parse_pid_empty_and_blank() {
    assert_eq!(parse_pid(""), None);
    assert_eq!(parse_pid("\n"), None);
    assert_eq!(parse_pid("   "), None);
}

#[test]
fn parse_pid_rejects_non_digits() {
    assert_eq!(parse_pid("abc"), None);
    assert_eq!(parse_pid("12a"), None);
    assert_eq!(parse_pid("-5"), None);
    assert_eq!(parse_pid("1 2"), None);
}

#[test]
fn parse_pid_range_limits() {
    assert_eq!(parse_pid("4294967295"), Some(u32::MAX));
    assert_eq!(parse_pid("4294967296"), None);
    assert_eq!(parse_pid("99999999999999999999"), None);
}

#[test]
fn reconcile_prefers_live_persisted_on_disagreement() {
    // The cached and persisted identifiers disagree and only the persisted
    // one is alive: the live one wins and the cache is updated to match.
    let mut tracker = Tracker { cached: Some(10) };
    let live = tracker.reconcile(Some(20), false, true);
    assert_eq!(live, Some(20));
    assert_eq!(tracker.cached, Some(20));
}

#[test]
fn reconcile_trusts_probe_not_sources() {
    // An identifier is only believed when its probe found it alive.
    let mut tracker = Tracker { cached: Some(10) };
    assert_eq!(tracker.reconcile(Some(10), false, false), None);
    assert_eq!(tracker.cached, None);

    let mut tracker = Tracker { cached: Some(10) };
    assert_eq!(tracker.reconcile(None, true, false), Some(10));

    let mut tracker = Tracker { cached: None };
    assert_eq!(tracker.reconcile(Some(33), false, true), Some(33));

    let mut tracker = Tracker { cached: None };
    assert_eq!(tracker.reconcile(None, false, false), None);
}

#[test]
fn external_fresh_open_spawns_once() {
    let mut organ = ExternalOrgan::new();
    assert_eq!(organ.status(None, false, false), OrganState::Closed);

    let (decision, acts) = organ.open(None, false, false);
    assert_eq!(decision, OpenDecision::NeedsSpawn);
    assert_eq!(acts, vec![Action::SpawnOrgan]);

    let result = organ.spawn_recorded(Some(4242));
    assert_eq!(result, Ok(OrganState::Visible));
    assert_eq!(organ.status(Some(4242), true, true), OrganState::Visible);
}

#[test]
fn external_open_alive_signals_without_respawn() {
    let mut organ = ExternalOrgan::new();
    organ.open(None, false, false);
    organ.spawn_recorded(Some(4242)).unwrap();

    // Second open with the process alive: one bring-to-front signal, no
    // second spawn.
    let (decision, acts) = organ.open(Some(4242), true, true);
    assert_eq!(decision, OpenDecision::Signalled);
    assert_eq!(acts, vec![Action::NotifyFront(4242)]);
    assert!(!acts.contains(&Action::SpawnOrgan));
}

#[test]
fn external_spawn_failure_is_surfaced() {
    let mut organ = ExternalOrgan::new();
    organ.open(None, false, false);
    let result = organ.spawn_recorded(None);
    assert_eq!(result, Err(SpawnError::SpawnFailed));
    assert_eq!(organ.status(None, false, false), OrganState::Closed);
}

#[test]
fn external_show_signals_alive_process() {
    let mut organ = ExternalOrgan::new();
    organ.open(None, false, false);
    organ.spawn_recorded(Some(7)).unwrap();

    let acts = organ.show(false, Some(7), true, true);
    assert_eq!(acts, vec![Action::NotifyBack(7)]);
    assert_eq!(organ.status(Some(7), true, true), OrganState::Background);

    let acts = organ.show(true, Some(7), true, true);
    assert_eq!(acts, vec![Action::NotifyFront(7)]);
    assert_eq!(organ.status(Some(7), true, true), OrganState::Visible);
}

#[test]
fn external_show_dead_process_is_noop() {
    let mut organ = ExternalOrgan::new();
    organ.open(None, false, false);
    organ.spawn_recorded(Some(7)).unwrap();

    // The process died: signalling is silently skipped and the next status
    // query reports the organ closed.
    let acts = organ.show(true, None, false, false);
    assert!(acts.is_empty());
    assert_eq!(organ.status(None, false, false), OrganState::Closed);
}

#[test]
fn external_close_terminates_and_clears() {
    let mut organ = ExternalOrgan::new();
    organ.open(None, false, false);
    organ.spawn_recorded(Some(4242)).unwrap();

    let acts = organ.close();
    assert_eq!(
        acts,
        vec![Action::NotifyTerminate(4242), Action::RemovePidFile]
    );
    assert_eq!(organ.tracker.cached, None);
    assert_eq!(organ.status(None, false, false), OrganState::Closed);

    // Closing an already-closed organ is a no-op, not an error.
    let again = organ.close();
    assert!(again.is_empty());
}

#[test]
fn external_status_follows_live_identifier() {
    // The cache said 10, the file says 20, and only 20 is alive: the status
    // report follows the live identifier and the cache now matches it.
    let mut organ = ExternalOrgan::new();
    organ.open(None, false, false);
    organ.spawn_recorded(Some(10)).unwrap();

    let state = organ.status(Some(20), false, true);
    assert_eq!(state, OrganState::Visible);
    assert_eq!(organ.tracker.cached, Some(20));
}
