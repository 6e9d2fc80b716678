//! Where the player page of a song finds the song's audio file.

use vstd::prelude::*;
use crate::cards::spec_player_link;
use crate::decimal::{decimal_digits, spells_nat, lemma_decimal_digits_spell, lemma_parse_u32_of_decimal, parse_u32, spec_parse_u32, write_decimal};
use crate::ids::{lemma_parse_uuid_text, spec_parse_uuid, uuid_display, uuid_parse, uuid_text};
use crate::store::Store;
use crate::text::push_str;

verus! {

/// Why a player page cannot be shown.
#[derive(Debug, PartialEq, Eq, Structural)]
pub enum PlayerError {
    /// The song id in the request is not a song id at all.
    BadRequest,
    /// No song has that id.
    NotFound,
}

/// The audio URL of song `id` under `endpoint`: `{endpoint}/{id}.mp3`.
pub open spec fn spec_song_audio_url(endpoint: Seq<char>, id: u32) -> Seq<char> {
    endpoint + "/"@ + decimal_digits(id as nat) + ".mp3"@
}

/// The audio URL for the player page of the song whose id is spelled
/// `song_id`: a bad request when `song_id` is not a decimal `u32`, not found
/// when the store holds no song with that id.
pub fn song_audio_url(store: &Store, endpoint: &str, song_id: &str) -> (r: Result<String, PlayerError>)
    ensures
        match spec_parse_u32(song_id@) {
            None => r == Err::<String, PlayerError>(PlayerError::BadRequest),
            Some(id) => if store@.contains_key(id) {
                r matches Ok(url) && url@ == spec_song_audio_url(endpoint@, id)
            } else {
                r == Err::<String, PlayerError>(PlayerError::NotFound)
            },
        },
{
    let id = match parse_u32(song_id) {
        Some(id) => id,
        None => return Err(PlayerError::BadRequest),
    };
    if !store.contains(id) {
        return Err(PlayerError::NotFound);
    }
    let mut url = String::new();
    push_str(&mut url, endpoint);
    push_str(&mut url, "/");
    write_decimal(&mut url, id as u64);
    push_str(&mut url, ".mp3");
    Ok(url)
}

/// The host that serves uploaded songs.
pub const CDN_BASE: &'static str = "http://cdn.hitrelease.nl/";

/// The audio URL of the uploaded song with UUID `u`.
pub open spec fn spec_uploaded_audio_url(u: u128) -> Seq<char> {
    CDN_BASE@ + uuid_text(u) + ".mp3"@
}

/// The audio URL for the player page of the uploaded song whose id is spelled
/// `song_id`: a bad request when `song_id` is not a UUID.
pub fn uploaded_audio_url(song_id: &str) -> (r: Result<String, PlayerError>)
    ensures
        match spec_parse_uuid(song_id@) {
            None => r == Err::<String, PlayerError>(PlayerError::BadRequest),
            Some(u) => r matches Ok(url) && url@ == spec_uploaded_audio_url(u),
        },
{
    let u = match uuid_parse(song_id) {
        Some(u) => u,
        None => return Err(PlayerError::BadRequest),
    };
    let mut url = String::new();
    push_str(&mut url, CDN_BASE);
    let text = uuid_display(u);
    push_str(&mut url, text.as_str());
    push_str(&mut url, ".mp3");
    Ok(url)
}


/// A song's audio file is looked up as `{endpoint}/{id}.mp3`, with the id
/// as its plain unsigned decimal spelling, the name it was downloaded under;
/// and the link on its card ends in that same spelling.
pub proof fn law_links_name_the_song(endpoint: Seq<char>, base_url: Seq<char>, id: u32)
    ensures
        exists|t: Seq<char>| spec_song_audio_url(endpoint, id) == endpoint + "/"@ + t + ".mp3"@
            && spells_nat(t, id as nat)
            && spec_player_link(base_url, id) == base_url + "/song/"@ + t,
{
    lemma_decimal_digits_spell(id as nat);
    let t = decimal_digits(id as nat);
    assert(spec_song_audio_url(endpoint, id) == endpoint + "/"@ + t + ".mp3"@);
}

/// The QR link on a song's card ends in a path segment that the player page
/// reads back as the song's id.
pub proof fn law_card_link_names_its_song(base_url: Seq<char>, id: u32)
    ensures
        spec_player_link(base_url, id) == base_url + "/song/"@ + decimal_digits(id as nat),
        spec_parse_u32(decimal_digits(id as nat)) == Some(id),
{
    lemma_parse_u32_of_decimal(id);
}

/// The text of an uploaded song's UUID is read back by its player page as
/// the same UUID, so the page plays that song's file.
pub proof fn law_uploaded_id_names_its_song(u: u128)
    ensures
        spec_parse_uuid(uuid_text(u)) == Some(u),
        spec_uploaded_audio_url(u) == CDN_BASE@ + uuid_text(u) + ".mp3"@,
{
    lemma_parse_uuid_text(u);
}

} // verus!
