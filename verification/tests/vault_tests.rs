use lifecrypt::cmdline::Opts;
use lifecrypt::crypt::{decrypt_under, encrypt_under, Encrypted};
use lifecrypt::editor::Outcome;
use lifecrypt::error::Error;
use lifecrypt::kdf::KdfParams;
use lifecrypt::vault::{
    get_decrypted_contents, Action, Completion, Event, Prompt, Stage, Vault,
};

fn cheap() -> KdfParams {
    KdfParams { log_n: 4, r: 8, p: 1 }
}

fn edit() -> Opts {
    Opts::Edit { file: "vault.json".to_string() }
}

fn view() -> Opts {
    Opts::View { file: "vault.json".to_string() }
}

fn change() -> Opts {
    Opts::ChangePassword { file: "vault.json".to_string() }
}

fn vault_bytes(plaintext: &[u8], password: &str) -> Vec<u8> {
    encrypt_under(plaintext, password, &cheap()).unwrap().to_text().into_bytes()
}

fn password(text: &str) -> Event {
    Event::Password(text.to_string())
}

#[test]
fn opts_know_their_file() {
    assert_eq!(edit().file(), "vault.json");
    assert_eq!(view().file(), "vault.json");
    assert_eq!(change().file(), "vault.json");
    assert_eq!(Opts::View { file: "/a/b".to_string() }.file(), "/a/b");
}

#[test]
fn prompts_have_their_texts() {
    assert_eq!(Prompt::FilePassword.text(), "file password: ");
    assert_eq!(Prompt::ConfirmNewVault.text(), "confirm password: ");
    assert_eq!(Prompt::CurrentPassword.text(), "current password: ");
    assert_eq!(Prompt::NewPassword.text(), "new password: ");
    assert_eq!(Prompt::ConfirmNewPassword.text(), "confirm password: ");
    assert!(Prompt::ConfirmNewVault.announces_creation());
    assert!(!Prompt::FilePassword.announces_creation());
    assert!(!Prompt::ConfirmNewPassword.announces_creation());
}

#[test]
fn only_failures_exit_non_zero() {
    assert_eq!(Completion::Done.exit_code(), 0);
    assert_eq!(Completion::Unchanged.exit_code(), 0);
    assert_eq!(Completion::Failed(Error::AuthenticationFailed).exit_code(), 1);
    assert_eq!(Completion::Failed(Error::PasswordMismatch).exit_code(), 1);
    assert_eq!(Completion::Failed(Error::Io).exit_code(), 1);
}

#[test]
fn errors_have_messages() {
    let all = [
        Error::MalformedContainer,
        Error::AuthenticationFailed,
        Error::PasswordMismatch,
        Error::StagingUnavailable,
        Error::KeyDerivation,
        Error::TooLong,
        Error::Io,
    ];
    for (i, a) in all.iter().enumerate() {
        assert!(!a.message().is_empty());
        for b in all.iter().skip(i + 1) {
            assert_ne!(a.message(), b.message());
        }
    }
    assert_eq!(Error::PasswordMismatch.message(), "passwords don't match");
}

#[test]
fn get_decrypted_contents_of_a_missing_file_is_empty() {
    assert_eq!(get_decrypted_contents(None, "anything", &cheap()), Ok(Vec::new()));
}

#[test]
fn get_decrypted_contents_decrypts_an_existing_file() {
    let bytes = vault_bytes(b"the contents", "secret");
    assert_eq!(
        get_decrypted_contents(Some(bytes.clone()), "secret", &cheap()),
        Ok(b"the contents".to_vec())
    );
    assert_eq!(
        get_decrypted_contents(Some(bytes), "wrong", &cheap()),
        Err(Error::AuthenticationFailed)
    );
    assert_eq!(
        get_decrypted_contents(Some(b"not a vault".to_vec()), "secret", &cheap()),
        Err(Error::MalformedContainer)
    );
    assert_eq!(
        get_decrypted_contents(Some(vec![0xff, 0xfe]), "secret", &cheap()),
        Err(Error::MalformedContainer)
    );
    assert_eq!(
        get_decrypted_contents(Some(Vec::new()), "secret", &cheap()),
        Err(Error::MalformedContainer)
    );
}

#[test]
fn view_prints_the_plaintext() {
    let (vault, action) = Vault::start(&view(), cheap());
    assert_eq!(action, Action::Load);
    let (vault, action) = vault.step(Event::Loaded(Some(vault_bytes(b"hello\n", "secret"))));
    assert_eq!(action, Action::Prompt(Prompt::FilePassword));
    let (vault, action) = vault.step(password("secret"));
    assert_eq!(action, Action::Print(b"hello\n".to_vec()));
    let (vault, action) = vault.step(Event::Printed);
    assert_eq!(action, Action::Finish(Completion::Done));
    assert_eq!(vault.stage, Stage::Finished);
    assert_eq!(vault.params, cheap());
}

#[test]
fn view_with_a_wrong_password_fails_and_asks_for_nothing_more() {
    let (vault, _) = Vault::start(&view(), cheap());
    let (vault, _) = vault.step(Event::Loaded(Some(vault_bytes(b"hello\n", "secret"))));
    let (vault, action) = vault.step(password("Secret"));
    assert_eq!(action, Action::Finish(Completion::Failed(Error::AuthenticationFailed)));
    assert_eq!(vault.stage, Stage::Finished);
}

#[test]
fn view_of_a_missing_or_malformed_file_fails() {
    let (vault, _) = Vault::start(&view(), cheap());
    let (_, action) = vault.step(Event::Loaded(None));
    assert_eq!(action, Action::Finish(Completion::Failed(Error::Io)));
    let (vault, _) = Vault::start(&view(), cheap());
    let (_, action) = vault.step(Event::Loaded(Some(b"{\"salt\":\"AA\"}".to_vec())));
    assert_eq!(action, Action::Finish(Completion::Failed(Error::MalformedContainer)));
    let (vault, _) = Vault::start(&view(), cheap());
    let (_, action) = vault.step(Event::Failed);
    assert_eq!(action, Action::Finish(Completion::Failed(Error::Io)));
}

#[test]
fn creating_a_vault_with_mismatched_confirmation_fails_and_stores_nothing() {
    let (vault, action) = Vault::start(&edit(), cheap());
    assert_eq!(action, Action::Prompt(Prompt::FilePassword));
    let (vault, action) = vault.step(password("secret1"));
    assert_eq!(action, Action::Load);
    let (vault, action) = vault.step(Event::Loaded(None));
    assert_eq!(action, Action::Prompt(Prompt::ConfirmNewVault));
    let (vault, action) = vault.step(password("secret2"));
    assert_eq!(action, Action::Finish(Completion::Failed(Error::PasswordMismatch)));
    assert_eq!(vault.stage, Stage::Finished);
    // Nothing more is asked for, in particular no storing.
    let (_, action) = vault.step(Event::Stored);
    assert_eq!(action, Action::Finish(Completion::Failed(Error::Io)));
}

#[test]
fn creating_a_vault_stores_what_the_user_wrote() {
    let (vault, _) = Vault::start(&edit(), cheap());
    let (vault, _) = vault.step(password("secret"));
    let (vault, _) = vault.step(Event::Loaded(None));
    let (vault, action) = vault.step(password("secret"));
    assert_eq!(action, Action::Edit(Vec::new()));
    let (vault, action) = vault.step(Event::Edited(Outcome::Saved(b"first words".to_vec())));
    let text = match action {
        Action::Store(text) => text,
        other => panic!("expected a store, got {:?}", other),
    };
    let container = Encrypted::from_text(&text).unwrap();
    assert_eq!(container.salt.len(), 32);
    assert_eq!(container.nonce.len(), 8);
    assert_eq!(container.tag.len(), 16);
    assert_eq!(decrypt_under(&container, "secret", &cheap()), Ok(b"first words".to_vec()));
    let (vault, action) = vault.step(Event::Stored);
    assert_eq!(action, Action::Finish(Completion::Done));
    assert_eq!(vault.stage, Stage::Finished);
}

#[test]
fn editing_an_existing_vault_asks_once_and_re_encrypts_with_fresh_salt_and_nonce() {
    let before = encrypt_under(b"old text", "secret", &cheap()).unwrap();
    let (vault, _) = Vault::start(&edit(), cheap());
    let (vault, _) = vault.step(password("secret"));
    let (vault, action) = vault.step(Event::Loaded(Some(before.to_text().into_bytes())));
    assert_eq!(action, Action::Edit(b"old text".to_vec()));
    let (_, action) = vault.step(Event::Edited(Outcome::Saved(b"old text".to_vec())));
    let text = match action {
        Action::Store(text) => text,
        other => panic!("expected a store, got {:?}", other),
    };
    let after = Encrypted::from_text(&text).unwrap();
    assert_ne!(after.salt, before.salt);
    assert_ne!(after.nonce, before.nonce);
    assert_ne!(after.ciphertext, before.ciphertext);
    assert_eq!(decrypt_under(&after, "secret", &cheap()), Ok(b"old text".to_vec()));
}

#[test]
fn editor_exit_one_leaves_the_vault_unchanged() {
    let on_disk = vault_bytes(b"old text", "secret");
    let (vault, _) = Vault::start(&edit(), cheap());
    let (vault, _) = vault.step(password("secret"));
    let (vault, action) = vault.step(Event::Loaded(Some(on_disk.clone())));
    assert_eq!(action, Action::Edit(b"old text".to_vec()));
    // The editing session reports an editor that exited with status 1.
    let (session, _) = lifecrypt::editor::spawn(lifecrypt::editor::Platform::Other, b"old text".to_vec());
    let (session, _) = session.advance(lifecrypt::editor::Reply::Created("/dev/shm/t".to_string()));
    let (session, _) = session.advance(lifecrypt::editor::Reply::Done);
    let (session, _) = session
        .advance(lifecrypt::editor::Reply::Exited(lifecrypt::command::ExitStatus::Exited(1)));
    let (_, request) = session.advance(lifecrypt::editor::Reply::Done);
    let outcome = match request {
        lifecrypt::editor::Request::Finish(outcome) => outcome,
        other => panic!("expected the end of the session, got {:?}", other),
    };
    assert_eq!(outcome, Outcome::Aborted);
    let (vault, action) = vault.step(Event::Edited(outcome));
    // No storing was asked for, so the bytes on disk are the ones loaded.
    assert_eq!(action, Action::Finish(Completion::Unchanged));
    assert_eq!(Completion::Unchanged.exit_code(), 0);
    assert_eq!(vault.stage, Stage::Finished);
    assert_eq!(get_decrypted_contents(Some(on_disk), "secret", &cheap()), Ok(b"old text".to_vec()));
}

#[test]
fn editing_with_a_wrong_password_fails_before_the_editor() {
    let (vault, _) = Vault::start(&edit(), cheap());
    let (vault, _) = vault.step(password("wrong"));
    let (_, action) = vault.step(Event::Loaded(Some(vault_bytes(b"old text", "secret"))));
    assert_eq!(action, Action::Finish(Completion::Failed(Error::AuthenticationFailed)));
}

#[test]
fn editing_session_failures_are_passed_on() {
    for e in [Error::StagingUnavailable, Error::Io] {
        let (vault, _) = Vault::start(&edit(), cheap());
        let (vault, _) = vault.step(password("secret"));
        let (vault, _) = vault.step(Event::Loaded(Some(vault_bytes(b"old", "secret"))));
        let (_, action) = vault.step(Event::Edited(Outcome::Failed(e)));
        assert_eq!(action, Action::Finish(Completion::Failed(e)));
    }
}

#[test]
fn change_password_re_encrypts_under_the_new_password() {
    let (vault, action) = Vault::start(&change(), cheap());
    assert_eq!(action, Action::Prompt(Prompt::CurrentPassword));
    let (vault, action) = vault.step(password("old"));
    assert_eq!(action, Action::Load);
    let (vault, action) = vault.step(Event::Loaded(Some(vault_bytes(b"my life", "old"))));
    assert_eq!(action, Action::Prompt(Prompt::NewPassword));
    let (vault, action) = vault.step(password("new"));
    assert_eq!(action, Action::Prompt(Prompt::ConfirmNewPassword));
    let (vault, action) = vault.step(password("new"));
    let text = match action {
        Action::Store(text) => text,
        other => panic!("expected a store, got {:?}", other),
    };
    let container = Encrypted::from_text(&text).unwrap();
    assert_eq!(decrypt_under(&container, "old", &cheap()), Err(Error::AuthenticationFailed));
    assert_eq!(decrypt_under(&container, "new", &cheap()), Ok(b"my life".to_vec()));
    let (_, action) = vault.step(Event::Stored);
    assert_eq!(action, Action::Finish(Completion::Done));
}

#[test]
fn change_password_with_mismatched_confirmation_stores_nothing() {
    let (vault, _) = Vault::start(&change(), cheap());
    let (vault, _) = vault.step(password("old"));
    let (vault, _) = vault.step(Event::Loaded(Some(vault_bytes(b"my life", "old"))));
    let (vault, _) = vault.step(password("new"));
    let (vault, action) = vault.step(password("neW"));
    assert_eq!(action, Action::Finish(Completion::Failed(Error::PasswordMismatch)));
    assert_eq!(vault.stage, Stage::Finished);
}

#[test]
fn change_password_with_a_wrong_current_password_fails_early() {
    let (vault, _) = Vault::start(&change(), cheap());
    let (vault, _) = vault.step(password("not old"));
    let (_, action) = vault.step(Event::Loaded(Some(vault_bytes(b"my life", "old"))));
    assert_eq!(action, Action::Finish(Completion::Failed(Error::AuthenticationFailed)));
}

#[test]
fn change_password_of_a_missing_vault_fails_and_makes_no_file() {
    let (vault, _) = Vault::start(&change(), cheap());
    let (vault, _) = vault.step(password("old"));
    let (vault, action) = vault.step(Event::Loaded(None));
    assert_eq!(action, Action::Finish(Completion::Failed(Error::Io)));
    assert_eq!(vault.stage, Stage::Finished);
    assert_eq!(Completion::Failed(Error::Io).exit_code(), 1);
    // Nothing more is asked for: no new password, no storing.
    let (_, action) = vault.step(password("new"));
    assert_eq!(action, Action::Finish(Completion::Failed(Error::Io)));
    // Run to its end against a disk without the file, nothing is stored.
    let mut disk: Option<Vec<u8>> = None;
    let (end, printed, stores) = run(&change(), &mut disk, vec!["old", "new", "new"], None);
    assert_eq!(end, Completion::Failed(Error::Io));
    assert_eq!(stores, 0);
    assert!(printed.is_empty());
    assert_eq!(disk, None);
}

#[test]
fn only_edit_makes_a_vault() {
    for op in [view(), change()] {
        let mut disk: Option<Vec<u8>> = None;
        let (end, _, stores) = run(&op, &mut disk, vec!["pw", "pw", "pw"], None);
        assert_eq!(end, Completion::Failed(Error::Io));
        assert_eq!(stores, 0);
        assert_eq!(disk, None);
    }
    let mut disk: Option<Vec<u8>> = None;
    let saved = Some(Outcome::Saved(b"x".to_vec()));
    let (end, _, stores) = run(&edit(), &mut disk, vec!["pw", "pw"], saved);
    assert_eq!((end, stores), (Completion::Done, 1));
    assert!(disk.is_some());
}

fn stored_text(action: Action) -> String {
    match action {
        Action::Store(text) => text,
        other => panic!("expected a store, got {:?}", other),
    }
}

#[test]
fn what_is_stored_is_the_text_of_the_container_and_nothing_else() {
    // After an edit.
    let (vault, _) = Vault::start(&edit(), cheap());
    let (vault, _) = vault.step(password("secret"));
    let (vault, _) = vault.step(Event::Loaded(Some(vault_bytes(b"old text", "secret"))));
    let (_, action) = vault.step(Event::Edited(Outcome::Saved(b"new text!".to_vec())));
    let after_edit = stored_text(action);
    // After a change of password.
    let (vault, _) = Vault::start(&change(), cheap());
    let (vault, _) = vault.step(password("old"));
    let (vault, _) = vault.step(Event::Loaded(Some(vault_bytes(b"new text!", "old"))));
    let (vault, _) = vault.step(password("new"));
    let (_, action) = vault.step(password("new"));
    let after_change = stored_text(action);
    for (text, pw) in [(after_edit, "secret"), (after_change, "new")] {
        let container = Encrypted::from_text(&text).unwrap();
        assert_eq!(text, container.to_text());
        assert_eq!(container.salt.len(), 32);
        assert_eq!(container.nonce.len(), 8);
        assert_eq!(container.tag.len(), 16);
        assert_eq!(container.ciphertext.len(), 9);
        assert_eq!(decrypt_under(&container, pw, &cheap()), Ok(b"new text!".to_vec()));
        // Four fields in their order, unpadded base64, no white space.
        let salt = text.find("{\"salt\":\"").unwrap();
        let nonce = text.find("\",\"nonce\":\"").unwrap();
        let ciphertext = text.find("\",\"ciphertext\":\"").unwrap();
        let tag = text.find("\",\"tag\":\"").unwrap();
        assert_eq!(salt, 0);
        assert!(nonce < ciphertext && ciphertext < tag);
        assert!(text.ends_with("\"}"));
        assert_eq!(text.matches('"').count(), 16);
        assert!(!text.contains('=') && !text.contains(' ') && !text.contains('\n'));
        // 47 characters of frame, and the four fields of 32, 8, 9 and 16 bytes.
        assert_eq!(text.len(), 47 + 43 + 11 + 12 + 22);
    }
}

#[test]
fn a_failed_store_is_an_io_error() {
    let (vault, _) = Vault::start(&edit(), cheap());
    let (vault, _) = vault.step(password("secret"));
    let (vault, _) = vault.step(Event::Loaded(None));
    let (vault, _) = vault.step(password("secret"));
    let (vault, _) = vault.step(Event::Edited(Outcome::Saved(b"x".to_vec())));
    assert_eq!(vault.stage, Stage::Storing);
    let (_, action) = vault.step(Event::Failed);
    assert_eq!(action, Action::Finish(Completion::Failed(Error::Io)));
}

#[test]
fn events_out_of_turn_end_the_operation() {
    let (vault, _) = Vault::start(&edit(), cheap());
    let (vault, action) = vault.step(Event::Stored);
    assert_eq!(action, Action::Finish(Completion::Failed(Error::Io)));
    let (_, action) = vault.step(password("secret"));
    assert_eq!(action, Action::Finish(Completion::Failed(Error::Io)));
    let (vault, _) = Vault::start(&view(), cheap());
    let (_, action) = vault.step(Event::Edited(Outcome::Saved(b"x".to_vec())));
    assert_eq!(action, Action::Finish(Completion::Failed(Error::Io)));
}

#[test]
fn an_invalid_work_factor_is_reported_when_a_key_is_needed() {
    let invalid = KdfParams { log_n: 4, r: 0, p: 1 };
    let (vault, _) = Vault::start(&edit(), invalid);
    let (vault, _) = vault.step(password("secret"));
    let (vault, _) = vault.step(Event::Loaded(None));
    let (vault, _) = vault.step(password("secret"));
    let (_, action) = vault.step(Event::Edited(Outcome::Saved(b"x".to_vec())));
    assert_eq!(action, Action::Finish(Completion::Failed(Error::KeyDerivation)));
    let (vault, _) = Vault::start(&view(), invalid);
    let (vault, _) = vault.step(Event::Loaded(Some(vault_bytes(b"x", "secret"))));
    let (_, action) = vault.step(password("secret"));
    assert_eq!(action, Action::Finish(Completion::Failed(Error::KeyDerivation)));
}

/// Runs an operation against a pretend disk and a scripted user, and
/// returns how it ended and what was printed.
fn run(
    op: &Opts,
    disk: &mut Option<Vec<u8>>,
    mut passwords: Vec<&str>,
    edit: Option<Outcome>,
) -> (Completion, Vec<u8>, usize) {
    passwords.reverse();
    let mut printed = Vec::new();
    let mut stores = 0;
    let (mut vault, mut action) = Vault::start(op, cheap());
    for _ in 0..20 {
        let event = match action {
            Action::Prompt(_) => password(passwords.pop().unwrap()),
            Action::Load => Event::Loaded(disk.clone()),
            Action::Edit(_) => Event::Edited(edit.clone().unwrap()),
            Action::Store(text) => {
                *disk = Some(text.into_bytes());
                stores += 1;
                Event::Stored
            }
            Action::Print(bytes) => {
                printed = bytes;
                Event::Printed
            }
            Action::Finish(completion) => return (completion, printed, stores),
        };
        let next = vault.step(event);
        vault = next.0;
        action = next.1;
    }
    panic!("the operation did not end");
}

#[test]
fn a_vault_is_made_edited_re_keyed_and_viewed() {
    let mut disk: Option<Vec<u8>> = None;
    // Mismatched confirmation: no file is created.
    let (end, _, stores) = run(&edit(), &mut disk, vec!["secret1", "secret2"], None);
    assert_eq!(end, Completion::Failed(Error::PasswordMismatch));
    assert_eq!(stores, 0);
    assert_eq!(disk, None);
    // The vault is created.
    let saved = Some(Outcome::Saved(b"line 1\n".to_vec()));
    let (end, _, stores) = run(&edit(), &mut disk, vec!["old", "old"], saved);
    assert_eq!((end, stores), (Completion::Done, 1));
    let created = disk.clone().unwrap();
    // An aborted edit leaves it byte for byte as it was.
    let (end, _, stores) = run(&edit(), &mut disk, vec!["old"], Some(Outcome::Aborted));
    assert_eq!((end, stores), (Completion::Unchanged, 0));
    assert_eq!(disk, Some(created.clone()));
    // So does a wrong password.
    let (end, _, stores) = run(&edit(), &mut disk, vec!["bad"], Some(Outcome::Aborted));
    assert_eq!((end, stores), (Completion::Failed(Error::AuthenticationFailed), 0));
    assert_eq!(disk, Some(created.clone()));
    // The password is changed.
    let (end, _, stores) = run(&change(), &mut disk, vec!["old", "new", "new"], None);
    assert_eq!((end, stores), (Completion::Done, 1));
    assert_ne!(disk, Some(created));
    // The old password no longer opens it, the new one does.
    let (end, printed, _) = run(&view(), &mut disk, vec!["old"], None);
    assert_eq!(end, Completion::Failed(Error::AuthenticationFailed));
    assert!(printed.is_empty());
    let (end, printed, stores) = run(&view(), &mut disk, vec!["new"], None);
    assert_eq!((end, stores), (Completion::Done, 0));
    assert_eq!(printed, b"line 1\n".to_vec());
}
