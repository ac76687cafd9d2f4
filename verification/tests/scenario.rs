use enm::codec::{decrypt_note, encrypt_note};
use enm::crypto::NoteError;
use enm::persist::{delete_note, list_notes, write_note, Loaded};

#[test]
fn end_to_end_scenario() {
    let note = encrypt_note("diary", b"p@ss1", b"hello world").unwrap();
    assert!(!note.salt.is_empty());
    assert!(!note.nonce.is_empty());
    assert!(!note.cipher.is_empty());

    let stored = write_note(Loaded::Missing, "diary".to_string(), note).unwrap();
    let record = stored.get("diary").unwrap().clone();
    assert_eq!(decrypt_note(&record, b"p@ss1"), Ok("hello world".to_string()));
    assert_eq!(decrypt_note(&record, b"wrongpass"), Err(NoteError::AuthenticationFailed));

    let after = delete_note(Loaded::Collection(stored), "diary".to_string()).unwrap();
    let listed = list_notes(Loaded::Collection(after)).unwrap();
    assert!(listed.iter().all(|entry| entry.0 != "diary"));
    assert!(listed.is_empty());
}
