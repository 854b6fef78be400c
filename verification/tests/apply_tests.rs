use fnr::apply::{
    confirm_step, decision_for_key, dry_run_pairs, highlight_parts, validate_batch, BatchAction,
    ConfirmResult, Key, PromptState,
};
use fnr::collect::Match;
use fnr::paths::destination_path;
use fnr::Error;

fn mk(path: &str, new_name: &str, is_dir: bool) -> Match {
    Match {
        path: String::from(path),
        new_name: String::from(new_name),
        is_dir,
        pattern: String::from("a"),
        replacement: String::from("b"),
    }
}

#[test]
fn destination_joins_parent_and_new_name() {
    assert_eq!(destination_path("./x/a.txt", "b.txt"), "./x/b.txt");
    assert_eq!(destination_path("plain", "new"), "new");
    assert_eq!(destination_path("a/b/c", "d"), "a/b/d");
}

#[test]
fn dry_run_lists_every_match_once_in_order() {
    let ms = vec![mk("./x/a", "b", false), mk("./y/c", "d", true)];
    let plans = dry_run_pairs(&ms);
    assert_eq!(plans.len(), 2);
    assert_eq!(plans[0].from, "./x/a");
    assert_eq!(plans[0].to, "b");
    assert_eq!(plans[1].from, "./y/c");
    assert_eq!(plans[1].to, "d");
}

#[test]
fn valid_batch_accepted() {
    let ms = vec![mk("./x/a", "b", false), mk("./x/c", "d", false)];
    assert!(validate_batch(&ms).is_ok());
}

#[test]
fn new_name_with_separator_rejected() {
    let ms = vec![mk("./x/a", "evil/name", false)];
    assert_eq!(validate_batch(&ms), Err(Error::InvalidNewName));
}

#[test]
fn colliding_destinations_rejected() {
    let ms = vec![mk("./x/a", "c", false), mk("./x/b", "c", false)];
    assert_eq!(validate_batch(&ms), Err(Error::DestinationCollision));
}

#[test]
fn same_new_name_in_different_directories_accepted() {
    let ms = vec![mk("./x/a", "c", false), mk("./y/b", "c", false)];
    assert!(validate_batch(&ms).is_ok());
}

#[test]
fn keystroke_decisions() {
    assert_eq!(decision_for_key(Key::Char('y')), Some(ConfirmResult::Yes));
    assert_eq!(decision_for_key(Key::Char('Y')), Some(ConfirmResult::Yes));
    assert_eq!(decision_for_key(Key::Enter), Some(ConfirmResult::Yes));
    assert_eq!(decision_for_key(Key::Char('n')), Some(ConfirmResult::No));
    assert_eq!(decision_for_key(Key::Char('N')), Some(ConfirmResult::No));
    assert_eq!(decision_for_key(Key::Char('a')), Some(ConfirmResult::All));
    assert_eq!(decision_for_key(Key::Char('A')), Some(ConfirmResult::All));
    assert_eq!(decision_for_key(Key::Char('q')), Some(ConfirmResult::Quit));
    assert_eq!(decision_for_key(Key::Char('Q')), Some(ConfirmResult::Quit));
    assert_eq!(decision_for_key(Key::Esc), Some(ConfirmResult::Quit));
    assert_eq!(decision_for_key(Key::CtrlC), Some(ConfirmResult::Quit));
    assert_eq!(decision_for_key(Key::Char('x')), None);
    assert_eq!(decision_for_key(Key::Other), None);
}

#[test]
fn confirmation_state_machine() {
    let p = PromptState::Prompting;
    assert_eq!(confirm_step(p, ConfirmResult::Yes), (PromptState::Prompting, BatchAction::Apply));
    assert_eq!(confirm_step(p, ConfirmResult::No), (PromptState::Prompting, BatchAction::Skip));
    assert_eq!(
        confirm_step(p, ConfirmResult::All),
        (PromptState::ApplyRemaining, BatchAction::Apply)
    );
    assert_eq!(confirm_step(p, ConfirmResult::Quit), (PromptState::Prompting, BatchAction::Stop));
    let all = PromptState::ApplyRemaining;
    // Once applying to the remainder, every decision is ignored.
    assert_eq!(
        confirm_step(all, ConfirmResult::Quit),
        (PromptState::ApplyRemaining, BatchAction::Apply)
    );
    assert_eq!(
        confirm_step(all, ConfirmResult::No),
        (PromptState::ApplyRemaining, BatchAction::Apply)
    );
}

#[test]
fn highlight_splits_at_case_folded_occurrence() {
    let parts = highlight_parts("MyFooBar.txt", "foo").unwrap();
    assert_eq!(parts.0, "My");
    assert_eq!(parts.1, "Foo");
    assert_eq!(parts.2, "Bar.txt");
    assert!(highlight_parts("MyFooBar.txt", "zzz").is_none());
}
