//! What the front end decides: which screen comes next, which notification is
//! shown, and which buffers are cleared. Drawing is the front end's own work.

use crate::codec::{decrypt_note, decrypt_note_spec, encrypt_note, sealed};
use crate::crypto::{is_fresh_salt, sealable, NoteError};
use crate::note::{Note, NoteView};
use crate::persist::StorageError;
use crate::secret::wipe_text;
use crate::storage::EnmStorage;
use vstd::prelude::*;
use vstd::string::StringExecFns;
use vstd::utf8::encode_utf8;

verus! {

/// The screen the front end shows.
pub enum UiState {
    /// All notes, encrypted.
    List,
    /// The form for a new note.
    Create,
    /// The password prompt for one note.
    Decrypt(Note),
    /// A decrypted note's text.
    Read(String),
}

/// A screen with what it carries, as plain values.
pub enum UiStateView {
    List,
    Create,
    Decrypt(NoteView),
    Read(Seq<char>),
}

impl View for UiState {
    type V = UiStateView;

    open spec fn view(&self) -> UiStateView {
        match *self {
            UiState::List => UiStateView::List,
            UiState::Create => UiStateView::Create,
            UiState::Decrypt(note) => UiStateView::Decrypt(note@),
            UiState::Read(text) => UiStateView::Read(text@),
        }
    }
}

/// A notification to the user.
pub enum Message {
    Neutral(&'static str),
    Success(&'static str),
    Pending(&'static str),
    Error(String),
}

/// A notification with its text as a plain value.
pub enum MessageView {
    Neutral(Seq<char>),
    Success(Seq<char>),
    Pending(Seq<char>),
    Error(Seq<char>),
}

impl View for Message {
    type V = MessageView;

    open spec fn view(&self) -> MessageView {
        match *self {
            Message::Neutral(text) => MessageView::Neutral(text@),
            Message::Success(text) => MessageView::Success(text@),
            Message::Pending(text) => MessageView::Pending(text@),
            Message::Error(text) => MessageView::Error(text@),
        }
    }
}

impl Clone for UiState {
    fn clone(&self) -> (r: Self)
        ensures
            r@ == self@,
    {
        match self {
            UiState::List => UiState::List,
            UiState::Create => UiState::Create,
            UiState::Decrypt(note) => UiState::Decrypt(note.clone()),
            UiState::Read(text) => UiState::Read(text.clone()),
        }
    }
}

/// The notification shown when there is nothing to say.
pub open spec fn no_news() -> MessageView {
    MessageView::Neutral("No new notifications"@)
}

impl Default for Message {
    fn default() -> (r: Self)
        ensures
            r@ == no_news(),
    {
        Message::Neutral("No new notifications")
    }
}

impl Message {
    /// The notification's text.
    pub fn text(&self) -> (r: String)
        ensures
            r@ == match self@ {
                MessageView::Neutral(text) => text,
                MessageView::Success(text) => text,
                MessageView::Pending(text) => text,
                MessageView::Error(text) => text,
            },
    {
        match self {
            Message::Neutral(text) => (*text).to_owned(),
            Message::Success(text) => (*text).to_owned(),
            Message::Pending(text) => (*text).to_owned(),
            Message::Error(text) => text.clone(),
        }
    }
}

/// The text fields of the forms: a note's name, a password, a note's content.
pub struct TextBuffers {
    pub name: String,
    pub password: String,
    pub content: String,
}

impl Default for TextBuffers {
    fn default() -> (r: Self)
        ensures
            r.is_clear(),
    {
        TextBuffers { name: String::new(), password: String::new(), content: String::new() }
    }
}

impl Clone for TextBuffers {
    fn clone(&self) -> (r: Self)
        ensures
            r.name@ == self.name@,
            r.password@ == self.password@,
            r.content@ == self.content@,
    {
        TextBuffers {
            name: self.name.clone(),
            password: self.password.clone(),
            content: self.content.clone(),
        }
    }
}

impl TextBuffers {
    /// All three buffers are empty.
    pub open spec fn is_clear(&self) -> bool {
        &&& self.name@ == Seq::<char>::empty()
        &&& self.password@ == Seq::<char>::empty()
        &&& self.content@ == Seq::<char>::empty()
    }

    /// Overwrites all three buffers with zeros and leaves them empty.
    pub fn zeroize(&mut self)
        ensures
            final(self).is_clear(),
    {
        wipe_text(&mut self.name);
        wipe_text(&mut self.password);
        wipe_text(&mut self.content);
    }
}

/// What the user is told when a note could not be decrypted. A failed
/// authentication is reported in general words: nothing is said of the password.
pub open spec fn decrypt_failure_text(e: NoteError) -> Seq<char> {
    match e {
        NoteError::NotUtf8 => "Could not convert decrypted note to UTF-8"@,
        _ => "Could not decrypt note"@,
    }
}

/// Words for a failure of the storage.
pub open spec fn storage_error_text(e: StorageError) -> Seq<char> {
    match e {
        StorageError::StorageUnavailable => "storage unavailable"@,
        StorageError::SerializationFailed => "stored notes are not readable"@,
    }
}

impl StorageError {
    /// Words for the failure.
    pub fn describe(&self) -> (r: String)
        ensures
            r@ == storage_error_text(*self),
    {
        match self {
            StorageError::StorageUnavailable => "storage unavailable".to_owned(),
            StorageError::SerializationFailed => "stored notes are not readable".to_owned(),
        }
    }
}

/// The user asked for the list of notes: any notification is withdrawn.
pub fn go_home(ui_state: &mut UiState, message: &mut Message)
    ensures
        final(ui_state)@ == UiStateView::List,
        final(message)@ == no_news(),
{
    *message = Message::default();
    *ui_state = UiState::List;
}

/// The user asked for the form for a new note: any notification is withdrawn.
pub fn go_create(ui_state: &mut UiState, message: &mut Message)
    ensures
        final(ui_state)@ == UiStateView::Create,
        final(message)@ == no_news(),
{
    *message = Message::default();
    *ui_state = UiState::Create;
}

/// The user asked to encrypt what the form holds. The password and the content
/// are taken from the buffers, which are cleared whether or not the encryption
/// succeeds; the name stays. The result is the record to store and the name to
/// store it under.
pub fn encrypt_pressed(buffers: &mut TextBuffers) -> (r: Result<(String, Note), NoteError>)
    ensures
        final(buffers).name@ == old(buffers).name@,
        final(buffers).password@ == Seq::<char>::empty(),
        final(buffers).content@ == Seq::<char>::empty(),
        r is Ok <==> sealable(encode_utf8(old(buffers).content@).len()),
        r matches Ok(named) ==> named.0@ == old(buffers).name@ && is_fresh_salt(named.1@.salt)
            && sealed(
            named.1@,
            encode_utf8(old(buffers).password@),
            encode_utf8(old(buffers).content@),
        ),
        r matches Err(e) ==> e == NoteError::EncryptionFailed,
{
    let r = encrypt_note(
        buffers.name.as_str(),
        buffers.password.as_str().as_bytes(),
        buffers.content.as_str().as_bytes(),
    );
    wipe_text(&mut buffers.password);
    wipe_text(&mut buffers.content);
    match r {
        Ok(note) => Ok((buffers.name.clone(), note)),
        Err(e) => Err(e),
    }
}

/// The notification after an attempt to create a note: what became of the
/// encryption, and then of storing the record.
pub fn create_outcome(encrypted: bool, stored: bool) -> (r: Message)
    ensures
        r@ == if !encrypted {
            MessageView::Error("Could not encrypt note"@)
        } else if !stored {
            MessageView::Error("Could not write note"@)
        } else {
            MessageView::Success("Note encrypted"@)
        },
{
    if !encrypted {
        Message::Error("Could not encrypt note".to_owned())
    } else if !stored {
        Message::Error("Could not write note".to_owned())
    } else {
        Message::Success("Note encrypted")
    }
}

/// The user gave a password for the note on the screen. The password buffer is
/// cleared in every case. Where the note decrypts, all buffers are cleared and
/// the text is shown; where it does not, the screen stays and the user is told
/// so.
pub fn decrypt_pressed(
    ui_state: &mut UiState,
    note: &Note,
    buffers: &mut TextBuffers,
    message: &mut Message,
)
    ensures
        final(buffers).password@ == Seq::<char>::empty(),
        match decrypt_note_spec(note@, encode_utf8(old(buffers).password@)) {
            Ok(text) => {
                &&& final(ui_state)@ == UiStateView::Read(text)
                &&& final(message)@ == old(message)@
                &&& final(buffers).is_clear()
            },
            Err(e) => {
                &&& final(ui_state)@ == old(ui_state)@
                &&& final(message)@ == MessageView::Error(decrypt_failure_text(e))
                &&& final(buffers).name@ == old(buffers).name@
                &&& final(buffers).content@ == old(buffers).content@
            },
        },
{
    let r = decrypt_note(note, buffers.password.as_str().as_bytes());
    wipe_text(&mut buffers.password);
    match r {
        Ok(text) => {
            buffers.zeroize();
            *ui_state = UiState::Read(text);
        },
        Err(NoteError::NotUtf8) => {
            *message = Message::Error("Could not convert decrypted note to UTF-8".to_owned());
        },
        Err(_) => {
            *message = Message::Error("Could not decrypt note".to_owned());
        },
    }
}

/// The user picked a note from the list to decrypt. Any notification is
/// withdrawn. Where the collection holds the note, its password prompt comes
/// next; where it does not, the list stays and the user is told so.
pub fn open_pressed(
    storage: &EnmStorage,
    key: &str,
    ui_state: &mut UiState,
    message: &mut Message,
)
    ensures
        if storage@.contains_key(key@) {
            &&& final(ui_state)@ == UiStateView::Decrypt(storage@[key@])
            &&& final(message)@ == no_news()
        } else {
            &&& final(ui_state)@ == old(ui_state)@
            &&& final(message)@ == MessageView::Error("Could not read note "@ + key@)
        },
{
    match storage.get(key) {
        Some(note) => {
            *message = Message::default();
            *ui_state = UiState::Decrypt(note.clone());
        },
        None => {
            *message = Message::Error("Could not read note ".to_owned().concat(key));
        },
    }
}

/// The notification after a confirmed delete: none where it succeeded.
pub fn delete_outcome(result: Result<(), StorageError>, message: &mut Message)
    ensures
        final(message)@ == match result {
            Ok(_) => old(message)@,
            Err(e) => MessageView::Error("Could not delete note: "@ + storage_error_text(e)),
        },
{
    match result {
        Ok(_) => {},
        Err(e) => {
            let words = e.describe();
            *message = Message::Error("Could not delete note: ".to_owned().concat(words.as_str()));
        },
    }
}

/// The notification when the notes could not be listed.
pub fn list_failed(e: StorageError) -> (r: Message)
    ensures
        r@ == MessageView::Error("Could not read notes: "@ + storage_error_text(e)),
{
    let words = e.describe();
    Message::Error("Could not read notes: ".to_owned().concat(words.as_str()))
}

} // verus!
