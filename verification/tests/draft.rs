use fieldcad_desktop::draft::{AuthorityDraft, SubmissionState};

#[test]
fn clean_draft_follows_authority() {
    let mut draft = AuthorityDraft::new("one".to_owned(), "a");
    draft.reconcile("two".to_owned(), "b");
    assert_eq!(draft.edited(), "two");
    assert!(!draft.dirty());
    assert!(!draft.authority_changed());
}

#[test]
fn dirty_draft_survives_authority_and_reset_uses_latest_value() {
    let mut draft = AuthorityDraft::new("one".to_owned(), "a");
    *draft.edited_mut() = "local".to_owned();
    draft.mark_submitted();
    draft.reconcile("remote".to_owned(), "b");
    assert_eq!(draft.edited(), "local");
    assert!(draft.authority_changed());
    assert_eq!(draft.submission(), SubmissionState::Idle);
    draft.reset();
    assert_eq!(draft.edited(), "remote");
}

#[test]
fn matching_accepted_update_acknowledges_submission() {
    let mut draft = AuthorityDraft::new("one".to_owned(), "a");
    *draft.edited_mut() = "local".to_owned();
    draft.mark_submitted();
    draft.reconcile("local".to_owned(), "b");
    assert!(!draft.dirty());
    assert_eq!(draft.submission(), SubmissionState::Idle);
    assert!(!draft.authority_changed());
}
