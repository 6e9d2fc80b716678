//! Game cards: for every song of a catalogue, a QR code that links to the
//! song's player page, and the card text filled into a Typst template.

use vstd::prelude::*;
use vstd::utf8::encode_utf8;
use crate::decimal::{decimal_digits, signed_decimal, u64_to_decimal, i32_to_decimal, write_decimal,
    spells_nat, spells_int, lemma_decimal_digits_spell, lemma_signed_decimal_spells};
use crate::models::{Song, SongView, Songs};
use crate::text::push_str;

verus! {

/// What `qrcode` renders as SVG for some data: the SVG text, or nothing when
/// `QrCode::new` refuses the data (too long to encode).
pub uninterp spec fn qr_svg(data: Seq<u8>) -> Option<Seq<char>>;

/// `qrcode::QrCode::new` followed by rendering with `render::svg::Color`:
/// the contract claims that the result is what those calls give for `data`,
/// a function of the data alone.
#[verifier::external_body]
fn qr_code_svg(data: &[u8]) -> (r: Option<String>)
    ensures
        match r {
            Some(svg) => qr_svg(data@) == Some(svg@),
            None => qr_svg(data@) is None,
        },
{
    match qrcode::QrCode::new(data) {
        Ok(code) => Some(code.render::<qrcode::render::svg::Color>().build()),
        Err(_) => None,
    }
}

/// What `new_string_template` makes of a template and its values: the
/// filled-in text, or nothing when a placeholder has no value.
pub uninterp spec fn rendered_template(template: Seq<char>, vars: Seq<(Seq<char>, Seq<char>)>) -> Option<Seq<char>>;

/// `new_string_template::template::Template::new` followed by `render`, with
/// the values handed over in a `HashMap`: the contract claims that the result
/// is what those calls give for the template and the values.
#[verifier::external_body]
fn render_template(template: &str, vars: &Vec<(String, String)>) -> (r: Option<String>)
    ensures
        match r {
            Some(text) => rendered_template(template@, vars.deep_view()) == Some(text@),
            None => rendered_template(template@, vars.deep_view()) is None,
        },
{
    let mut values: std::collections::HashMap<&str, &str> = std::collections::HashMap::new();
    for (k, v) in vars.iter() {
        values.insert(k.as_str(), v.as_str());
    }
    match new_string_template::template::Template::new(template).render(&values) {
        Ok(text) => Some(text),
        Err(_) => None,
    }
}

/// What one game card shows, ready to be filled into the card template.
pub struct SongDataTypst {
    pub artist: String,
    pub year: i32,
    pub title: String,
    pub color_degree: usize,
    pub card_deck: String,
    pub card_nr: usize,
    pub qr_path: String,
}

/// The template values of a card: each placeholder name with its text.
pub open spec fn spec_template_vars(d: SongDataTypst) -> Seq<(Seq<char>, Seq<char>)> {
    seq![
        ("artist"@, d.artist@),
        ("year"@, signed_decimal(d.year as int)),
        ("title"@, d.title@),
        ("color_degree"@, decimal_digits(d.color_degree as nat)),
        ("color_degree_2"@, decimal_digits(d.color_degree as nat + 90)),
        ("card_deck"@, d.card_deck@),
        ("card_nr"@, decimal_digits(d.card_nr as nat)),
        ("qr_path"@, d.qr_path@),
    ]
}

fn text_of(s: &str) -> (r: String)
    ensures
        r@ == s@,
{
    let mut r = String::new();
    push_str(&mut r, s);
    r
}

impl SongDataTypst {
    /// The template values of this card.
    pub fn template_vars(&self) -> (vars: Vec<(String, String)>)
        requires
            self.color_degree + 90 <= usize::MAX,
        ensures
            vars.deep_view() == spec_template_vars(*self),
    {
        let mut vars: Vec<(String, String)> = Vec::new();
        vars.push((text_of("artist"), self.artist.clone()));
        vars.push((text_of("year"), i32_to_decimal(self.year)));
        vars.push((text_of("title"), self.title.clone()));
        vars.push((text_of("color_degree"), u64_to_decimal(self.color_degree as u64)));
        vars.push((text_of("color_degree_2"), u64_to_decimal((self.color_degree + 90) as u64)));
        vars.push((text_of("card_deck"), self.card_deck.clone()));
        vars.push((text_of("card_nr"), u64_to_decimal(self.card_nr as u64)));
        vars.push((text_of("qr_path"), self.qr_path.clone()));
        assert(vars.deep_view() =~= spec_template_vars(*self));
        vars
    }
}

/// The value that a template sees for the placeholder `key` when the values
/// are handed over as these pairs: that of the last pair with that name, as a
/// map filled from the pairs in order keeps it.
pub open spec fn var_value(vars: Seq<(Seq<char>, Seq<char>)>, key: Seq<char>) -> Option<Seq<char>>
    decreases vars.len(),
{
    if vars.len() == 0 {
        None
    } else if vars.last().0 == key {
        Some(vars.last().1)
    } else {
        var_value(vars.drop_last(), key)
    }
}

proof fn lemma_placeholder_names_differ()
    ensures
        "artist"@ != "year"@, "artist"@ != "title"@, "artist"@ != "color_degree"@,
        "artist"@ != "color_degree_2"@, "artist"@ != "card_deck"@, "artist"@ != "card_nr"@,
        "artist"@ != "qr_path"@,
        "year"@ != "title"@, "year"@ != "color_degree"@, "year"@ != "color_degree_2"@,
        "year"@ != "card_deck"@, "year"@ != "card_nr"@, "year"@ != "qr_path"@,
        "title"@ != "color_degree"@, "title"@ != "color_degree_2"@, "title"@ != "card_deck"@,
        "title"@ != "card_nr"@, "title"@ != "qr_path"@,
        "color_degree"@ != "color_degree_2"@, "color_degree"@ != "card_deck"@,
        "color_degree"@ != "card_nr"@, "color_degree"@ != "qr_path"@,
        "color_degree_2"@ != "card_deck"@, "color_degree_2"@ != "card_nr"@,
        "color_degree_2"@ != "qr_path"@,
        "card_deck"@ != "card_nr"@, "card_deck"@ != "qr_path"@,
        "card_nr"@ != "qr_path"@,
{
    reveal_strlit("artist");
    reveal_strlit("year");
    reveal_strlit("title");
    reveal_strlit("color_degree");
    reveal_strlit("color_degree_2");
    reveal_strlit("card_deck");
    reveal_strlit("card_nr");
    reveal_strlit("qr_path");
    assert("artist"@[0] != "year"@[0]);
    assert("artist"@[0] != "title"@[0]);
    assert("card_deck"@[5] != "card_nr"@[5]);
    assert("card_nr"@[0] != "qr_path"@[0]);
    assert("color_degree"@.len() != "color_degree_2"@.len());
}

/// Each placeholder of a card's template values shows the card's data
/// unchanged: the artist, title, deck and QR file as they are, the year,
/// colours and card number as their plain decimal spelling.
pub proof fn law_template_vars_show_the_card(d: SongDataTypst)
    ensures
        var_value(spec_template_vars(d), "artist"@) == Some(d.artist@),
        var_value(spec_template_vars(d), "title"@) == Some(d.title@),
        var_value(spec_template_vars(d), "card_deck"@) == Some(d.card_deck@),
        var_value(spec_template_vars(d), "qr_path"@) == Some(d.qr_path@),
        var_value(spec_template_vars(d), "year"@) matches Some(t) && spells_int(t, d.year as int),
        var_value(spec_template_vars(d), "color_degree"@) matches Some(t)
            && spells_nat(t, d.color_degree as nat),
        var_value(spec_template_vars(d), "color_degree_2"@) matches Some(t)
            && spells_nat(t, d.color_degree as nat + 90),
        var_value(spec_template_vars(d), "card_nr"@) matches Some(t) && spells_nat(t, d.card_nr as nat),
{
    lemma_placeholder_names_differ();
    reveal_with_fuel(var_value, 9);
    lemma_signed_decimal_spells(d.year as int);
    lemma_decimal_digits_spell(d.color_degree as nat);
    lemma_decimal_digits_spell(d.color_degree as nat + 90);
    lemma_decimal_digits_spell(d.card_nr as nat);
}

/// The card of the song at position `i` shows the song's artist, title and
/// deck unchanged, its year, its number `i + 1` and its colours `2i mod 360`
/// and 90 degrees on as plain decimals, and the QR file named after its id.
pub proof fn law_card_shows_its_song(i: nat, song: SongView, qr_dir: Seq<char>)
    ensures
        var_value(card_vars(i, song, qr_dir), "artist"@) == Some(song.artist),
        var_value(card_vars(i, song, qr_dir), "title"@) == Some(song.title),
        var_value(card_vars(i, song, qr_dir), "card_deck"@) == Some(song.deck),
        var_value(card_vars(i, song, qr_dir), "year"@) matches Some(t) && spells_int(t, song.year as int),
        var_value(card_vars(i, song, qr_dir), "card_nr"@) matches Some(t) && spells_nat(t, i + 1),
        var_value(card_vars(i, song, qr_dir), "color_degree"@) matches Some(t)
            && spells_nat(t, (2 * i) % 360),
        var_value(card_vars(i, song, qr_dir), "color_degree_2"@) matches Some(t)
            && spells_nat(t, (2 * i) % 360 + 90),
        var_value(card_vars(i, song, qr_dir), "qr_path"@) matches Some(p)
            && exists|t: Seq<char>| p == qr_dir + "/"@ + t + ".svg"@ && spells_nat(t, song.id as nat),
{
    lemma_placeholder_names_differ();
    reveal_with_fuel(var_value, 9);
    lemma_signed_decimal_spells(song.year as int);
    lemma_decimal_digits_spell((2 * i) % 360);
    lemma_decimal_digits_spell((2 * i) % 360 + 90);
    lemma_decimal_digits_spell(i + 1);
    lemma_decimal_digits_spell(song.id as nat);
    let t = decimal_digits(song.id as nat);
    assert(spec_qr_file(qr_dir, song.id) == qr_dir + "/"@ + t + ".svg"@);
}

/// The link that the QR code of song `id` holds: its player page.
pub open spec fn spec_player_link(base_url: Seq<char>, id: u32) -> Seq<char> {
    base_url + "/song/"@ + decimal_digits(id as nat)
}

/// The file that the QR code of song `id` is written to.
pub open spec fn spec_qr_file(qr_dir: Seq<char>, id: u32) -> Seq<char> {
    qr_dir + "/"@ + decimal_digits(id as nat) + ".svg"@
}

/// The link that the QR code of song `id` holds.
pub fn player_link(base_url: &str, id: u32) -> (r: String)
    ensures
        r@ == spec_player_link(base_url@, id),
{
    let mut r = String::new();
    push_str(&mut r, base_url);
    push_str(&mut r, "/song/");
    write_decimal(&mut r, id as u64);
    r
}

/// The file that the QR code of song `id` is written to.
pub fn qr_file(qr_dir: &str, id: u32) -> (r: String)
    ensures
        r@ == spec_qr_file(qr_dir@, id),
{
    let mut r = String::new();
    push_str(&mut r, qr_dir);
    push_str(&mut r, "/");
    write_decimal(&mut r, id as u64);
    push_str(&mut r, ".svg");
    r
}

/// The template values of the card of the song at position `i` of the
/// catalogue: its colour turns 2 degrees per card, its number counts from 1.
pub open spec fn card_vars(i: nat, song: SongView, qr_dir: Seq<char>) -> Seq<(Seq<char>, Seq<char>)> {
    seq![
        ("artist"@, song.artist),
        ("year"@, signed_decimal(song.year as int)),
        ("title"@, song.title),
        ("color_degree"@, decimal_digits((2 * i) % 360)),
        ("color_degree_2"@, decimal_digits((2 * i) % 360 + 90)),
        ("card_deck"@, song.deck),
        ("card_nr"@, decimal_digits(i + 1)),
        ("qr_path"@, spec_qr_file(qr_dir, song.id)),
    ]
}

/// The card of the song at position `i` of the catalogue.
pub fn card_data(i: usize, song: &Song, qr_dir: &str) -> (d: SongDataTypst)
    requires
        i < usize::MAX / 2,
    ensures
        d.artist@ == song.artist@,
        d.year == song.year,
        d.title@ == song.title@,
        d.color_degree == (2 * i) % 360,
        d.card_deck@ == song.deck@,
        d.card_nr == i + 1,
        d.qr_path@ == spec_qr_file(qr_dir@, song.id),
        spec_template_vars(d) == card_vars(i as nat, song@, qr_dir@),
{
    SongDataTypst {
        artist: song.artist.clone(),
        year: song.year,
        title: song.title.clone(),
        color_degree: (i * 2) % 360,
        card_deck: song.deck.clone(),
        card_nr: i + 1,
        qr_path: qr_file(qr_dir, song.id),
    }
}

/// Why the cards could not be made.
#[derive(Debug, PartialEq, Eq, Structural)]
pub enum CardError {
    /// The player link of the song at this position is too long for a QR code.
    QrCode { index: usize },
    /// The template has a placeholder without a value, found while filling in
    /// the card of the song at this position.
    Template { index: usize },
}

/// The QR code (as SVG) and the filled-in text of each card, all cards'
/// texts joined in catalogue order.
pub struct CardSet {
    pub qr_codes: Vec<(String, String)>,
    pub rendered: String,
}

/// Whether the QR code of a song's card can be made.
pub open spec fn qr_ok(base_url: Seq<char>, song: SongView) -> bool {
    qr_svg(encode_utf8(spec_player_link(base_url, song.id))) is Some
}

/// Whether the text of the card of `song`, at position `i`, can be filled in.
pub open spec fn text_ok(template: Seq<char>, i: nat, song: SongView, qr_dir: Seq<char>) -> bool {
    rendered_template(template, card_vars(i, song, qr_dir)) is Some
}

/// The texts of the first `k` cards, joined.
pub open spec fn cards_text(
    template: Seq<char>,
    songs: Seq<SongView>,
    qr_dir: Seq<char>,
    k: nat,
) -> Seq<char>
    decreases k,
{
    if k == 0 || k > songs.len() {
        Seq::empty()
    } else {
        cards_text(template, songs, qr_dir, (k - 1) as nat)
            + rendered_template(template, card_vars((k - 1) as nat, songs[k - 1], qr_dir)).unwrap()
    }
}

/// The cards of a catalogue: for the song at position `i`, its QR code file
/// and SVG, and its card text filled into `template`; the card texts joined
/// in catalogue order. The first song whose QR code or card text cannot be
/// made stops the work, and its position is reported.
pub fn build_cards(songs: &Songs, base_url: &str, qr_dir: &str, template: &str) -> (r: Result<CardSet, CardError>)
    requires
        songs.songs@.len() < usize::MAX / 2,
    ensures
        match r {
            Ok(cards) => {
                &&& forall|i: int| 0 <= i < songs@.len() ==> qr_ok(base_url@, #[trigger] songs@[i])
                    && text_ok(template@, i as nat, songs@[i], qr_dir@)
                &&& cards.qr_codes@.len() == songs@.len()
                &&& forall|i: int| 0 <= i < songs@.len() ==> {
                    &&& (#[trigger] cards.qr_codes@[i]).0@ == spec_qr_file(qr_dir@, songs@[i].id)
                    &&& Some(cards.qr_codes@[i].1@) == qr_svg(
                        encode_utf8(spec_player_link(base_url@, songs@[i].id)))
                }
                &&& cards.rendered@ == cards_text(template@, songs@, qr_dir@, songs@.len())
            },
            Err(CardError::QrCode { index }) => {
                &&& index < songs@.len()
                &&& forall|i: int| 0 <= i < index ==> qr_ok(base_url@, #[trigger] songs@[i])
                    && text_ok(template@, i as nat, songs@[i], qr_dir@)
                &&& !qr_ok(base_url@, songs@[index as int])
            },
            Err(CardError::Template { index }) => {
                &&& index < songs@.len()
                &&& forall|i: int| 0 <= i < index ==> qr_ok(base_url@, #[trigger] songs@[i])
                    && text_ok(template@, i as nat, songs@[i], qr_dir@)
                &&& qr_ok(base_url@, songs@[index as int])
                &&& !text_ok(template@, index as nat, songs@[index as int], qr_dir@)
            },
        },
{
    let mut qr_codes: Vec<(String, String)> = Vec::new();
    let mut rendered = String::new();
    let mut i: usize = 0;
    while i < songs.songs.len()
        invariant
            songs.songs@.len() < usize::MAX / 2,
            i <= songs@.len(),
            songs@.len() == songs.songs@.len(),
            qr_codes@.len() == i,
            forall|j: int| 0 <= j < i ==> qr_ok(base_url@, #[trigger] songs@[j])
                && text_ok(template@, j as nat, songs@[j], qr_dir@),
            forall|j: int| 0 <= j < i ==> {
                &&& (#[trigger] qr_codes@[j]).0@ == spec_qr_file(qr_dir@, songs@[j].id)
                &&& Some(qr_codes@[j].1@) == qr_svg(
                    encode_utf8(spec_player_link(base_url@, songs@[j].id)))
            },
            rendered@ == cards_text(template@, songs@, qr_dir@, i as nat),
        decreases songs@.len() - i,
    {
        let song = &songs.songs[i];
        assert(song@ == songs@[i as int]);
        let link = player_link(base_url, song.id);
        let svg = match qr_code_svg(link.as_str().as_bytes()) {
            Some(svg) => svg,
            None => return Err(CardError::QrCode { index: i }),
        };
        let card = card_data(i, song, qr_dir);
        let vars = card.template_vars();
        let text = match render_template(template, &vars) {
            Some(text) => text,
            None => return Err(CardError::Template { index: i }),
        };
        push_str(&mut rendered, text.as_str());
        qr_codes.push((card.qr_path, svg));
        i = i + 1;
    }
    Ok(CardSet { qr_codes, rendered })
}

} // verus!
