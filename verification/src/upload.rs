//! The form that an upload fills in, field by field, and the song that it
//! makes once the audio is stored.

use crate::error::ServiceError;
use crate::ids::{id_text, uuid_text};
use crate::models::{Song, SongView};
use crate::text::{occurs_at, optional_text, parse_i32, parse_i32_text, same_text};
use vstd::prelude::*;
use vstd::string::StringExecFns;
use vstd::utf8::{decode_utf8, valid_utf8};

verus! {

/// The fields that an upload may carry.
#[derive(Clone, Copy, Debug, PartialEq, Eq, Structural)]
pub enum UploadField {
    Title,
    Artist,
    Album,
    Duration,
    Audio,
    /// Any other field; it is passed over.
    Other,
}

/// The field that a name stands for.
pub open spec fn field_named(name: Seq<char>) -> UploadField {
    if name == "title"@ {
        UploadField::Title
    } else if name == "artist"@ {
        UploadField::Artist
    } else if name == "album"@ {
        UploadField::Album
    } else if name == "duration"@ {
        UploadField::Duration
    } else if name == "audio"@ {
        UploadField::Audio
    } else {
        UploadField::Other
    }
}

/// Tells the fields of an upload apart by their names.
pub fn upload_field(name: &str) -> (field: UploadField)
    ensures
        field == field_named(name@),
{
    if same_text(name, "title") {
        UploadField::Title
    } else if same_text(name, "artist") {
        UploadField::Artist
    } else if same_text(name, "album") {
        UploadField::Album
    } else if same_text(name, "duration") {
        UploadField::Duration
    } else if same_text(name, "audio") {
        UploadField::Audio
    } else {
        UploadField::Other
    }
}

/// Decodes bytes as UTF-8 with `String::from_utf8`: the text that the bytes
/// encode, or nothing where they are not valid UTF-8.
#[verifier::external_body]
fn decode_text(data: Vec<u8>) -> (r: Option<String>)
    ensures
        match r {
            Some(text) => valid_utf8(data@) && text@ == decode_utf8(data@),
            None => !valid_utf8(data@),
        },
{
    String::from_utf8(data).ok()
}

/// The place of the last dot of a name; negative where it has none.
pub open spec fn last_dot(name: Seq<char>) -> int
    decreases name.len(),
{
    if name.len() == 0 {
        -1
    } else if name.last() == '.' {
        name.len() - 1
    } else {
        last_dot(name.drop_last())
    }
}

/// Whether a name is a single file name wherever it is read: it holds no
/// slash, no backslash and no colon.
pub open spec fn bare_name(name: Seq<char>) -> bool {
    forall|i: int|
        0 <= i < name.len() ==> #[trigger] name[i] != '/' && name[i] != '\\' && name[i] != ':'
}

/// The extension of a single file name: what follows its last dot. There is
/// none where the name has no dot, where its only dot is its first
/// character, and for the name `..`.
pub open spec fn bare_extension(name: Seq<char>) -> Option<Seq<char>> {
    if last_dot(name) > 0 && name != seq!['.', '.'] {
        Some(name.skip(last_dot(name) + 1))
    } else {
        None
    }
}

/// Whether `extension` can be the extension of `name`: it holds neither a
/// dot nor a slash, and it stands in the name directly behind a dot.
pub open spec fn extension_in(name: Seq<char>, extension: Seq<char>) -> bool {
    &&& !extension.contains('.')
    &&& !extension.contains('/')
    &&& exists|i: int| 0 < i && name[i - 1] == '.' && #[trigger] occurs_at(name, extension, i)
}

/// The extension of a file name, from `Path::extension`: the part of the
/// final component behind its last dot, if it has one. An extension holds
/// neither a dot nor a slash and stands in the name directly behind a dot; a
/// name without a dot has none. Of a name that is a single file name
/// wherever it is read, the extension is what follows the last dot, as
/// `bare_extension` says.
#[verifier::external_body]
fn extension_of(filename: &str) -> (r: Option<String>)
    ensures
        r matches Some(extension) ==> extension_in(filename@, extension@),
        last_dot(filename@) < 0 ==> r is None,
        bare_name(filename@) ==> optional_text(r) == bare_extension(filename@),
{
    std::path::Path::new(filename).extension().and_then(|e| e.to_str()).map(|e| e.to_string())
}

/// The text of a field: what its bytes encode, or the empty text where they
/// encode none.
pub open spec fn field_text(data: Seq<u8>) -> Seq<char> {
    if valid_utf8(data) {
        decode_utf8(data)
    } else {
        Seq::empty()
    }
}

/// The length in seconds that a text gives: the number it writes, or 0
/// where it writes none or a negative one.
pub open spec fn duration_from(text: Seq<char>) -> i32 {
    match parse_i32_text(text) {
        Some(seconds) => if seconds >= 0 {
            seconds
        } else {
            0
        },
        None => 0,
    }
}

/// Where the audio of an upload is kept, relative to the upload directory:
/// under `songs/`, named by the identifier of the file and the extension.
pub open spec fn stored_path_text(file_id: u128, extension: Seq<char>) -> Seq<char> {
    "songs/"@ + uuid_text(file_id) + "."@ + extension
}

/// The extension under which a file is kept: its own, or `mp3`.
pub open spec fn extension_or_default(extension: Option<Seq<char>>) -> Seq<char> {
    match extension {
        Some(e) => e,
        None => "mp3"@,
    }
}

/// The place of a file below the upload directory.
pub open spec fn full_path_text(upload_dir: Seq<char>, file_path: Seq<char>) -> Seq<char> {
    upload_dir + "/"@ + file_path
}

/// Decodes the bytes of a text field.
pub fn text_of(data: Vec<u8>) -> (text: String)
    ensures
        text@ == field_text(data@),
{
    match decode_text(data) {
        Some(text) => text,
        None => String::new(),
    }
}

/// Reads the length of a song from the text of the duration field.
pub fn duration_of(text: &str) -> (seconds: i32)
    ensures
        seconds == duration_from(text@),
        seconds >= 0,
{
    match parse_i32(text) {
        Some(seconds) => if seconds >= 0 {
            seconds
        } else {
            0
        },
        None => 0,
    }
}

/// The path under which the audio of an upload is kept, for the extension
/// of the uploaded file, if it has one.
pub fn stored_path(file_id: u128, extension: Option<String>) -> (path: String)
    ensures
        path@ == stored_path_text(
            file_id,
            extension_or_default(optional_text(extension)),
        ),
{
    let mut path = String::from_str("songs/");
    let id = id_text(file_id);
    path.append(id.as_str());
    path.append(".");
    match extension {
        Some(e) => {
            path.append(e.as_str());
        },
        None => {
            path.append("mp3");
        },
    }
    path
}

/// The name under which an upload's file counts: its own, or `unknown.mp3`
/// where it has none.
pub open spec fn upload_name(filename: Option<Seq<char>>) -> Seq<char> {
    match filename {
        Some(name) => name,
        None => "unknown.mp3"@,
    }
}

/// The characters of an optional file name.
pub open spec fn filename_text(filename: Option<&str>) -> Option<Seq<char>> {
    match filename {
        Some(name) => Some(name@),
        None => None,
    }
}

/// The path under which the audio of an upload is kept, for the name that
/// the upload gave the file; a file without a name counts as `unknown.mp3`.
/// The path is `songs/`, the identifier, a dot and the extension of the
/// name, or `mp3` where the name has none. Of a name that is a single file
/// name, the extension is what follows its last dot; of any name, it stands
/// in the name directly behind a dot and holds neither a dot nor a slash.
pub fn audio_path(file_id: u128, filename: Option<&str>) -> (path: String)
    ensures
        exists|extension: Seq<char>|
            path@ == #[trigger] stored_path_text(file_id, extension) && (extension == "mp3"@
                || extension_in(upload_name(filename_text(filename)), extension)),
        last_dot(upload_name(filename_text(filename))) < 0 ==> path@ == stored_path_text(
            file_id,
            "mp3"@,
        ),
        bare_name(upload_name(filename_text(filename))) ==> path@ == stored_path_text(
            file_id,
            extension_or_default(bare_extension(upload_name(filename_text(filename)))),
        ),
        filename is None ==> path@ == stored_path_text(file_id, "mp3"@),
{
    let name: &str = match filename {
        Some(n) => n,
        None => "unknown.mp3",
    };
    let extension = extension_of(name);
    proof {
        let chosen = extension_or_default(optional_text(extension));
        assert(stored_path_text(file_id, chosen) == stored_path_text(file_id, chosen));
        if filename is None {
            lemma_unknown_name();
        }
    }
    stored_path(file_id, extension)
}

/// The name `unknown.mp3` is a single file name with the extension `mp3`.
proof fn lemma_unknown_name()
    ensures
        bare_name("unknown.mp3"@),
        bare_extension("unknown.mp3"@) == Some("mp3"@),
{
    reveal_strlit("unknown.mp3");
    reveal_strlit("mp3");
    reveal_with_fuel(last_dot, 12);
    let name = "unknown.mp3"@;
    assert(name.len() == 11);
    assert(name.last() == '3');
    assert(name.drop_last().last() == 'p');
    assert(name.drop_last().drop_last().last() == 'm');
    assert(name.drop_last().drop_last().drop_last().last() == '.');
    assert(last_dot(name) == 7);
    assert(name.skip(8) =~= "mp3"@);
    assert(name[0] != '.');
}

/// The place of a stored file below the upload directory.
pub fn full_path(upload_dir: &str, file_path: &str) -> (path: String)
    ensures
        path@ == full_path_text(upload_dir@, file_path@),
{
    let mut path = String::from_str(upload_dir);
    path.append("/");
    path.append(file_path);
    path
}

/// What an upload has given so far.
#[derive(Debug)]
pub struct UploadForm {
    pub title: String,
    pub artist: String,
    pub album: String,
    pub duration: i32,
    /// Where the audio was stored; empty until it is.
    pub file_path: String,
}

pub struct UploadFormView {
    pub title: Seq<char>,
    pub artist: Seq<char>,
    pub album: Seq<char>,
    pub duration: i32,
    pub file_path: Seq<char>,
}

impl View for UploadForm {
    type V = UploadFormView;

    open spec fn view(&self) -> UploadFormView {
        UploadFormView {
            title: self.title@,
            artist: self.artist@,
            album: self.album@,
            duration: self.duration,
            file_path: self.file_path@,
        }
    }
}

/// The form after a text field was read.
pub open spec fn with_text(form: UploadFormView, field: UploadField, data: Seq<u8>)
    -> UploadFormView {
    match field {
        UploadField::Title => UploadFormView { title: field_text(data), ..form },
        UploadField::Artist => UploadFormView { artist: field_text(data), ..form },
        UploadField::Album => UploadFormView { album: field_text(data), ..form },
        UploadField::Duration => UploadFormView {
            duration: duration_from(field_text(data)),
            ..form
        },
        UploadField::Audio => form,
        UploadField::Other => form,
    }
}

/// Whether the form has what a song needs: a title, an artist and stored
/// audio.
pub open spec fn complete(form: UploadFormView) -> bool {
    form.title.len() > 0 && form.artist.len() > 0 && form.file_path.len() > 0
}

/// The song that a complete form makes.
pub open spec fn song_from(form: UploadFormView, id: u128, now: i64) -> SongView {
    SongView {
        id,
        title: form.title,
        artist: form.artist,
        album: form.album,
        duration: form.duration,
        file_path: form.file_path,
        cover_art: None,
        created_at: now,
    }
}

impl UploadForm {
    /// An empty form: no text, no audio, a length of 0 seconds.
    pub fn new() -> (form: UploadForm)
        ensures
            form@ == (UploadFormView {
                title: Seq::empty(),
                artist: Seq::empty(),
                album: Seq::empty(),
                duration: 0,
                file_path: Seq::empty(),
            }),
    {
        UploadForm {
            title: String::new(),
            artist: String::new(),
            album: String::new(),
            duration: 0,
            file_path: String::new(),
        }
    }

    /// Takes in the bytes of a text field. A later field of the same name
    /// replaces an earlier one; the audio field and unknown fields leave the
    /// form as it is.
    pub fn accept_text(&mut self, field: UploadField, data: Vec<u8>)
        ensures
            final(self)@ == with_text(old(self)@, field, data@),
    {
        match field {
            UploadField::Title => {
                self.title = text_of(data);
            },
            UploadField::Artist => {
                self.artist = text_of(data);
            },
            UploadField::Album => {
                self.album = text_of(data);
            },
            UploadField::Duration => {
                let text = text_of(data);
                self.duration = duration_of(text.as_str());
            },
            UploadField::Audio => {},
            UploadField::Other => {},
        }
    }

    /// Notes where the audio was stored.
    pub fn accept_audio(&mut self, file_path: String)
        ensures
            final(self)@ == (UploadFormView { file_path: file_path@, ..old(self)@ }),
    {
        self.file_path = file_path;
    }

    /// The song of the form, with the given identifier and instant of
    /// creation and without cover art; `MissingFields` where the title, the
    /// artist or the audio is missing.
    pub fn into_song(self, id: u128, now: i64) -> (r: Result<Song, ServiceError>)
        ensures
            match r {
                Ok(song) => complete(self@) && song@ == song_from(self@, id, now),
                Err(e) => !complete(self@) && e == ServiceError::MissingFields,
            },
    {
        if self.title.as_str().is_empty() || self.artist.as_str().is_empty()
            || self.file_path.as_str().is_empty() {
            return Err(ServiceError::MissingFields);
        }
        Ok(
            Song {
                id,
                title: self.title,
                artist: self.artist,
                album: self.album,
                duration: self.duration,
                file_path: self.file_path,
                cover_art: None,
                created_at: now,
            },
        )
    }
}

} // verus!
