use enm::codec::{decrypt_note, seal_note};
use enm::crypto::SALT_LEN;
use enm::note::Note;
use enm::persist::StorageError;
use enm::secret::{wipe_bytes, wipe_text};
use enm::storage::EnmStorage;
use enm::ui::{
    create_outcome, decrypt_pressed, delete_outcome, encrypt_pressed, go_create, go_home,
    list_failed, open_pressed, Message, TextBuffers, UiState,
};

fn buffers(name: &str, password: &str, content: &str) -> TextBuffers {
    TextBuffers {
        name: name.to_string(),
        password: password.to_string(),
        content: content.to_string(),
    }
}

fn sealed_note(password: &[u8], content: &[u8]) -> Note {
    seal_note(password, content, b"abcdefghijklmnopqrstuv".to_vec(), [4u8; 12]).unwrap()
}

#[test]
fn default_message_is_neutral() {
    let message = Message::default();
    assert!(matches!(message, Message::Neutral("No new notifications")));
    assert_eq!(message.text(), "No new notifications");
}

#[test]
fn message_text_of_each_variant() {
    assert_eq!(Message::Success("done").text(), "done");
    assert_eq!(Message::Pending("wait").text(), "wait");
    assert_eq!(Message::Error("bad".to_string()).text(), "bad");
}

#[test]
fn default_buffers_are_empty() {
    let b = TextBuffers::default();
    assert!(b.name.is_empty() && b.password.is_empty() && b.content.is_empty());
}

#[test]
fn zeroize_empties_all_buffers() {
    let mut b = buffers("diary", "p@ss1", "hello world");
    b.zeroize();
    assert!(b.name.is_empty() && b.password.is_empty() && b.content.is_empty());
}

#[test]
fn wipe_leaves_buffers_empty() {
    let mut text = "secret".to_string();
    wipe_text(&mut text);
    assert_eq!(text, "");
    let mut bytes = vec![1u8, 2, 3];
    wipe_bytes(&mut bytes);
    assert!(bytes.is_empty());
}

#[test]
fn navigation_resets_message() {
    let mut state = UiState::Read("text".to_string());
    let mut message = Message::Error("old".to_string());
    go_create(&mut state, &mut message);
    assert!(matches!(state, UiState::Create));
    assert!(matches!(message, Message::Neutral("No new notifications")));
    let mut message = Message::Success("old");
    go_home(&mut state, &mut message);
    assert!(matches!(state, UiState::List));
    assert!(matches!(message, Message::Neutral("No new notifications")));
}

#[test]
fn encrypt_pressed_clears_secrets_and_seals() {
    let mut b = buffers("diary", "p@ss1", "hello world");
    let (name, note) = encrypt_pressed(&mut b).unwrap();
    assert_eq!(name, "diary");
    assert_eq!(b.name, "diary");
    assert_eq!(b.password, "");
    assert_eq!(b.content, "");
    assert_eq!(note.salt.len(), SALT_LEN);
    assert_eq!(decrypt_note(&note, b"p@ss1"), Ok("hello world".to_string()));
}

#[test]
fn create_outcome_messages() {
    assert!(matches!(create_outcome(true, true), Message::Success("Note encrypted")));
    assert_eq!(create_outcome(true, false).text(), "Could not write note");
    assert!(matches!(create_outcome(true, false), Message::Error(_)));
    assert_eq!(create_outcome(false, false).text(), "Could not encrypt note");
    assert_eq!(create_outcome(false, true).text(), "Could not encrypt note");
}

#[test]
fn decrypt_pressed_shows_text_and_clears_buffers() {
    let note = sealed_note(b"p@ss1", b"hello world");
    let mut state = UiState::Decrypt(note.clone());
    let mut b = buffers("diary", "p@ss1", "draft");
    let mut message = Message::default();
    decrypt_pressed(&mut state, &note, &mut b, &mut message);
    assert!(matches!(&state, UiState::Read(text) if text == "hello world"));
    assert!(b.name.is_empty() && b.password.is_empty() && b.content.is_empty());
    assert!(matches!(message, Message::Neutral("No new notifications")));
}

#[test]
fn decrypt_pressed_with_wrong_password_stays_and_reports() {
    let note = sealed_note(b"p@ss1", b"hello world");
    let mut state = UiState::Decrypt(note.clone());
    let mut b = buffers("diary", "wrongpass", "draft");
    let mut message = Message::default();
    decrypt_pressed(&mut state, &note, &mut b, &mut message);
    assert!(matches!(state, UiState::Decrypt(_)));
    assert_eq!(b.password, "");
    assert_eq!(b.name, "diary");
    assert_eq!(b.content, "draft");
    assert!(matches!(&message, Message::Error(text) if text == "Could not decrypt note"));
}

#[test]
fn decrypt_pressed_with_non_text_content_reports_it() {
    let note = sealed_note(b"p@ss1", &[0xff, 0xff]);
    let mut state = UiState::Decrypt(note.clone());
    let mut b = buffers("", "p@ss1", "");
    let mut message = Message::default();
    decrypt_pressed(&mut state, &note, &mut b, &mut message);
    assert!(matches!(state, UiState::Decrypt(_)));
    assert_eq!(b.password, "");
    assert_eq!(message.text(), "Could not convert decrypted note to UTF-8");
}

#[test]
fn open_pressed_moves_to_the_password_prompt() {
    let mut storage = EnmStorage::new();
    let note = Note { nonce: vec![1; 12], salt: vec![2; 22], cipher: vec![3; 17] };
    storage.insert("diary".to_string(), note);
    let mut state = UiState::List;
    let mut message = Message::Error("old".to_string());
    open_pressed(&storage, "diary", &mut state, &mut message);
    assert!(matches!(&state, UiState::Decrypt(n) if n.cipher == vec![3u8; 17]
        && n.nonce == vec![1u8; 12] && n.salt == vec![2u8; 22]));
    assert!(matches!(message, Message::Neutral("No new notifications")));
}

#[test]
fn open_pressed_on_unknown_name_reports_it() {
    let storage = EnmStorage::new();
    let mut state = UiState::List;
    let mut message = Message::default();
    open_pressed(&storage, "diary", &mut state, &mut message);
    assert!(matches!(state, UiState::List));
    assert!(matches!(&message, Message::Error(text) if text == "Could not read note diary"));
}

#[test]
fn delete_outcome_reports_failure_only() {
    let mut message = Message::Success("kept");
    delete_outcome(Ok(()), &mut message);
    assert!(matches!(message, Message::Success("kept")));
    delete_outcome(Err(StorageError::StorageUnavailable), &mut message);
    assert_eq!(message.text(), "Could not delete note: storage unavailable");
    delete_outcome(Err(StorageError::SerializationFailed), &mut message);
    assert_eq!(message.text(), "Could not delete note: stored notes are not readable");
}

#[test]
fn list_failed_message_and_error_words() {
    assert_eq!(
        list_failed(StorageError::StorageUnavailable).text(),
        "Could not read notes: storage unavailable"
    );
    assert_eq!(StorageError::SerializationFailed.describe(), "stored notes are not readable");
    assert_eq!(StorageError::StorageUnavailable.describe(), "storage unavailable");
}

#[test]
fn clones_keep_what_they_hold() {
    let b = buffers("diary", "p@ss1", "hello").clone();
    assert_eq!(b.name, "diary");
    assert_eq!(b.password, "p@ss1");
    assert_eq!(b.content, "hello");
    assert!(matches!(UiState::Read("text".to_string()).clone(), UiState::Read(text) if text == "text"));
    assert!(matches!(UiState::List.clone(), UiState::List));
    assert!(matches!(UiState::Create.clone(), UiState::Create));
    let note = Note { nonce: vec![1], salt: vec![2], cipher: vec![3] };
    assert!(matches!(UiState::Decrypt(note).clone(), UiState::Decrypt(n) if n.cipher == vec![3u8]));
}
