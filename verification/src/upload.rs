//! Song uploads from the web form: collecting the form's fields as they
//! arrive, checking that a complete song came in, and the answer page.

use vstd::prelude::*;
use crate::decimal::{parse_i32, spec_parse_i32};
use crate::text::{push_str, str_equal, text_from_bytes_lossy, utf8_lossy};

verus! {

/// A song as it was uploaded: what it is, and the audio file.
pub struct SongUpload {
    pub title: String,
    pub artist: String,
    pub year: i32,
    pub song: Vec<u8>,
}

/// Why an upload was refused.
#[derive(Debug, PartialEq, Eq, Structural)]
pub enum UploadError {
    /// A form field came without a name.
    UnnamedField,
    MissingTitle,
    MissingArtist,
    MissingYear,
    /// The year is not a decimal `i32`.
    InvalidYear,
    MissingSongFile,
}

/// The name of the form field that carries the audio file.
pub const SONG_FIELD: &'static str = "song";

/// The text fields received so far, by name: a field received later replaces
/// an earlier one of the same name.
pub open spec fn field_map(fields: Seq<(String, String)>) -> Map<Seq<char>, Seq<char>>
    decreases fields.len(),
{
    if fields.len() == 0 {
        Map::empty()
    } else {
        field_map(fields.drop_last()).insert(fields.last().0@, fields.last().1@)
    }
}

/// What an upload form holds after one more field came in: the audio file
/// when the field is named `song`, otherwise a text field whose bytes are read
/// as UTF-8, invalid sequences replaced.
pub open spec fn with_field(v: UploadFormView, name: Seq<char>, data: Seq<u8>) -> UploadFormView {
    if name == SONG_FIELD@ {
        UploadFormView { song: Some(data), ..v }
    } else {
        UploadFormView { fields: v.fields.insert(name, utf8_lossy(data)), ..v }
    }
}

/// What an upload form holds after the named fields `received` came in, in
/// that order.
pub open spec fn form_after(received: Seq<(Seq<char>, Seq<u8>)>) -> UploadFormView
    decreases received.len(),
{
    if received.len() == 0 {
        UploadFormView { fields: Map::empty(), song: None }
    } else {
        with_field(form_after(received.drop_last()), received.last().0, received.last().1)
    }
}

/// A field named `song` makes its bytes, all of them and unchanged, the
/// form's audio file; any other field stores its text under its name. Either
/// way nothing else in the form changes.
pub proof fn law_one_field(v: UploadFormView, name: Seq<char>, data: Seq<u8>)
    ensures
        name == "song"@ ==> with_field(v, name, data).song == Some(data)
            && with_field(v, name, data).fields == v.fields,
        name != "song"@ ==> with_field(v, name, data).song == v.song
            && with_field(v, name, data).fields == v.fields.insert(name, utf8_lossy(data)),
{
    assert(SONG_FIELD@ == "song"@);
}

/// The audio file of a form is the bytes of the last field named `song` that
/// came in, exactly.
pub proof fn law_song_is_last_song_field(received: Seq<(Seq<char>, Seq<u8>)>, i: int)
    requires
        0 <= i < received.len(),
        received[i].0 == "song"@,
        forall|j: int| i < j < received.len() ==> #[trigger] received[j].0 != "song"@,
    ensures
        form_after(received).song == Some(received[i].1),
    decreases received.len(),
{
    assert(SONG_FIELD@ == "song"@);
    if i < received.len() - 1 {
        let rest = received.drop_last();
        assert(received[received.len() - 1].0 != "song"@);
        assert forall|j: int| i < j < rest.len() implies #[trigger] rest[j].0 != "song"@ by {
            assert(rest[j] == received[j]);
        }
        law_song_is_last_song_field(rest, i);
    }
}

/// A text field of a form holds the text of the last field with its name
/// that came in, read as UTF-8 with invalid bytes replaced.
pub proof fn law_field_is_last_field_of_its_name(received: Seq<(Seq<char>, Seq<u8>)>, i: int)
    requires
        0 <= i < received.len(),
        received[i].0 != "song"@,
        forall|j: int| i < j < received.len() ==> #[trigger] received[j].0 != received[i].0,
    ensures
        form_after(received).fields.contains_key(received[i].0),
        form_after(received).fields[received[i].0] == utf8_lossy(received[i].1),
    decreases received.len(),
{
    assert(SONG_FIELD@ == "song"@);
    if i < received.len() - 1 {
        let rest = received.drop_last();
        assert(received[received.len() - 1].0 != received[i].0);
        assert forall|j: int| i < j < rest.len() implies #[trigger] rest[j].0 != rest[i].0 by {
            assert(rest[j] == received[j]);
        }
        law_field_is_last_field_of_its_name(rest, i);
    }
}

/// What a complete upload form gives: the title, artist, year and audio file,
/// or the first of them that is missing or wrong.
pub open spec fn upload_outcome(v: UploadFormView) -> Result<(Seq<char>, Seq<char>, i32, Seq<u8>), UploadError> {
    if !v.fields.contains_key("title"@) {
        Err(UploadError::MissingTitle)
    } else if !v.fields.contains_key("artist"@) {
        Err(UploadError::MissingArtist)
    } else if !v.fields.contains_key("year"@) {
        Err(UploadError::MissingYear)
    } else if spec_parse_i32(v.fields["year"@]) is None {
        Err(UploadError::InvalidYear)
    } else {
        match v.song {
            None => Err(UploadError::MissingSongFile),
            Some(song) => Ok((v.fields["title"@], v.fields["artist"@],
                spec_parse_i32(v.fields["year"@]).unwrap(), song)),
        }
    }
}

/// Whether a field of this name is one that an upload reads: the title, the
/// artist, the year, or the audio file.
pub open spec fn is_read_field(name: Seq<char>) -> bool {
    name == "title"@ || name == "artist"@ || name == "year"@ || name == SONG_FIELD@
}

/// Picks out the received fields that an upload reads.
pub open spec fn read_fields() -> spec_fn((Seq<char>, Seq<u8>)) -> bool {
    |f: (Seq<char>, Seq<u8>)| is_read_field(f.0)
}

/// Whether two forms agree on the text field `k`: both lack it, or both hold
/// the same text there.
pub open spec fn same_field(a: UploadFormView, b: UploadFormView, k: Seq<char>) -> bool {
    &&& a.fields.contains_key(k) == b.fields.contains_key(k)
    &&& a.fields.contains_key(k) ==> a.fields[k] == b.fields[k]
}

/// Whether two forms hold the same audio file and the same title, artist and
/// year fields.
pub open spec fn same_read_fields(a: UploadFormView, b: UploadFormView) -> bool {
    &&& a.song == b.song
    &&& same_field(a, b, "title"@)
    &&& same_field(a, b, "artist"@)
    &&& same_field(a, b, "year"@)
}

/// What an upload gives depends only on its audio file and its title, artist
/// and year fields.
pub proof fn law_outcome_reads_only_named_fields(a: UploadFormView, b: UploadFormView)
    requires
        same_read_fields(a, b),
    ensures
        upload_outcome(a) == upload_outcome(b),
{
}

/// A form and the same form with only the read fields received agree on the
/// read fields.
proof fn lemma_form_after_read_fields(received: Seq<(Seq<char>, Seq<u8>)>)
    ensures
        same_read_fields(form_after(received), form_after(received.filter(read_fields()))),
    decreases received.len(),
{
    reveal_with_fuel(Seq::filter, 1);
    if received.len() > 0 {
        let rest = received.drop_last();
        let last = received.last();
        lemma_form_after_read_fields(rest);
        let sub = rest.filter(read_fields());
        if is_read_field(last.0) {
            assert(received.filter(read_fields()) == sub.push(last));
            assert(sub.push(last).drop_last() =~= sub);
        } else {
            assert(received.filter(read_fields()) == sub);
        }
    }
}

/// Fields with other names than title, artist, year and song never change
/// what an upload gives: two uploads whose read fields came in the same order
/// give the same result, whatever other fields came between them.
pub proof fn law_other_fields_ignored(received: Seq<(Seq<char>, Seq<u8>)>, other: Seq<(Seq<char>, Seq<u8>)>)
    requires
        received.filter(read_fields()) == other.filter(read_fields()),
    ensures
        upload_outcome(form_after(received)) == upload_outcome(form_after(other)),
{
    lemma_form_after_read_fields(received);
    lemma_form_after_read_fields(other);
    law_outcome_reads_only_named_fields(form_after(received), form_after(other));
}

/// A form being received, field by field.
pub struct UploadForm {
    fields: Vec<(String, String)>,
    song: Option<Vec<u8>>,
}

/// What an upload form holds: its text fields by name, and the audio file
/// if one came.
pub struct UploadFormView {
    pub fields: Map<Seq<char>, Seq<char>>,
    pub song: Option<Seq<u8>>,
}

impl View for UploadForm {
    type V = UploadFormView;

    closed spec fn view(&self) -> UploadFormView {
        UploadFormView {
            fields: field_map(self.fields@),
            song: match self.song {
                Some(s) => Some(s@),
                None => None,
            },
        }
    }
}

/// The value of the field `name` among `fields`, the last one received.
fn find_field(fields: &Vec<(String, String)>, name: &str) -> (r: Option<String>)
    ensures
        match r {
            Some(v) => field_map(fields@).contains_key(name@) && v@ == field_map(fields@)[name@],
            None => !field_map(fields@).contains_key(name@),
        },
{
    let mut i: usize = fields.len();
    assert(fields@.take(i as int) =~= fields@);
    while i > 0
        invariant
            i <= fields@.len(),
            forall|j: int| i <= j < fields@.len() ==> (#[trigger] fields@[j]).0@ != name@,
            field_map(fields@).contains_key(name@) == field_map(fields@.take(i as int)).contains_key(name@),
            field_map(fields@).contains_key(name@) ==>
                field_map(fields@)[name@] == field_map(fields@.take(i as int))[name@],
        decreases i,
    {
        let ghost before = fields@.take(i as int);
        assert(before.drop_last() =~= fields@.take(i - 1));
        let entry = &fields[i - 1];
        if str_equal(entry.0.as_str(), name) {
            return Some(entry.1.clone());
        }
        i = i - 1;
    }
    assert(fields@.take(0) =~= Seq::<(String, String)>::empty());
    None
}

impl UploadForm {
    /// A form with nothing received yet.
    pub fn new() -> (f: UploadForm)
        ensures
            f@.fields == Map::<Seq<char>, Seq<char>>::empty(),
            f@.song is None,
            f@ == form_after(Seq::empty()),
    {
        let f = UploadForm { fields: Vec::new(), song: None };
        assert(f@.fields =~= Map::<Seq<char>, Seq<char>>::empty());
        f
    }

    /// Takes in one form field: the audio file when the field is named
    /// `song` (a later one replaces an earlier one), otherwise a text field
    /// whose bytes are read as UTF-8, invalid sequences replaced. A field
    /// without a name refuses the whole upload.
    pub fn add_field(&mut self, name: Option<&str>, data: Vec<u8>) -> (r: Result<(), UploadError>)
        ensures
            match name {
                None => r == Err::<(), UploadError>(UploadError::UnnamedField) && final(self)@ == old(self)@,
                Some(n) => r is Ok && final(self)@ == with_field(old(self)@, n@, data@),
            },
    {
        match name {
            None => Err(UploadError::UnnamedField),
            Some(n) => {
                if str_equal(n, SONG_FIELD) {
                    self.song = Some(data);
                } else {
                    let value = text_from_bytes_lossy(data.as_slice());
                    let mut key = String::new();
                    push_str(&mut key, n);
                    let ghost old_fields = self.fields@;
                    self.fields.push((key, value));
                    assert(self.fields@.drop_last() =~= old_fields);
                }
                Ok(())
            },
        }
    }

    /// The uploaded song, once the whole form has come in: it needs a title,
    /// an artist, a year that is a decimal `i32`, and an audio file, and is
    /// refused for the first of these that is missing or wrong, in that
    /// order.
    pub fn finish(self) -> (r: Result<SongUpload, UploadError>)
        ensures
            !self@.fields.contains_key("title"@) ==> r == Err::<SongUpload, UploadError>(UploadError::MissingTitle),
            self@.fields.contains_key("title"@) && !self@.fields.contains_key("artist"@)
                ==> r == Err::<SongUpload, UploadError>(UploadError::MissingArtist),
            self@.fields.contains_key("title"@) && self@.fields.contains_key("artist"@)
                && !self@.fields.contains_key("year"@)
                ==> r == Err::<SongUpload, UploadError>(UploadError::MissingYear),
            self@.fields.contains_key("title"@) && self@.fields.contains_key("artist"@)
                && self@.fields.contains_key("year"@)
                && spec_parse_i32(self@.fields["year"@]) is None
                ==> r == Err::<SongUpload, UploadError>(UploadError::InvalidYear),
            self@.fields.contains_key("title"@) && self@.fields.contains_key("artist"@)
                && self@.fields.contains_key("year"@)
                && spec_parse_i32(self@.fields["year"@]) is Some
                && self@.song is None
                ==> r == Err::<SongUpload, UploadError>(UploadError::MissingSongFile),
            self@.fields.contains_key("title"@) && self@.fields.contains_key("artist"@)
                && self@.fields.contains_key("year"@)
                && spec_parse_i32(self@.fields["year"@]) is Some
                && self@.song is Some
                ==> r is Ok,
            match r {
                Ok(u) => upload_outcome(self@) == Ok::<_, UploadError>((u.title@, u.artist@, u.year, u.song@)),
                Err(e) => upload_outcome(self@) == Err::<(Seq<char>, Seq<char>, i32, Seq<u8>), UploadError>(e),
            },
            r matches Ok(u) ==> {
                &&& self@.fields.contains_key("title"@) && u.title@ == self@.fields["title"@]
                &&& self@.fields.contains_key("artist"@) && u.artist@ == self@.fields["artist"@]
                &&& self@.fields.contains_key("year"@)
                    && spec_parse_i32(self@.fields["year"@]) == Some(u.year)
                &&& self@.song == Some(u.song@)
            },
    {
        let title = match find_field(&self.fields, "title") {
            Some(t) => t,
            None => return Err(UploadError::MissingTitle),
        };
        let artist = match find_field(&self.fields, "artist") {
            Some(a) => a,
            None => return Err(UploadError::MissingArtist),
        };
        let year_text = match find_field(&self.fields, "year") {
            Some(y) => y,
            None => return Err(UploadError::MissingYear),
        };
        let year = match parse_i32(year_text.as_str()) {
            Some(y) => y,
            None => return Err(UploadError::InvalidYear),
        };
        match self.song {
            Some(song) => Ok(SongUpload { title, artist, year, song }),
            None => Err(UploadError::MissingSongFile),
        }
    }
}

/// The page that answers a successful upload of the song with id `song_id`.
pub open spec fn spec_upload_answer(song_id: Seq<char>) -> Seq<char> {
    "Upload successful! Your song ID is: "@ + song_id + ". <br>QR Code: <img src='/static/qr/"@
        + song_id + ".png'>"@
}

/// The page that answers a successful upload of the song with id `song_id`.
pub fn upload_answer(song_id: &str) -> (page: String)
    ensures
        page@ == spec_upload_answer(song_id@),
{
    let mut page = String::new();
    push_str(&mut page, "Upload successful! Your song ID is: ");
    push_str(&mut page, song_id);
    push_str(&mut page, ". <br>QR Code: <img src='/static/qr/");
    push_str(&mut page, song_id);
    push_str(&mut page, ".png'>");
    page
}

} // verus!
