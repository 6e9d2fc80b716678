use hitrelease::cards::{build_cards, card_data, player_link, qr_file, CardError, SongDataTypst};
use hitrelease::decimal::{i32_to_decimal, parse_i32, parse_u32, u64_to_decimal};
use hitrelease::ids::new_song_id;
use hitrelease::models::{Song, Songs};
use hitrelease::player::{song_audio_url, uploaded_audio_url, PlayerError};
use hitrelease::prepare::{
    download_args, download_report, download_target, into_catalogue, song_id, songs_from_records,
    summarize_downloads, DownloadOutcome, DownloadSummary, SongRecord,
};
use hitrelease::store::Store;
use hitrelease::text::{contains_text, str_equal};
use hitrelease::upload::{upload_answer, UploadError, UploadForm};

fn song(id: u32, title: &str, deck: &str) -> Song {
    Song {
        id,
        title: title.to_string(),
        artist: format!("artist of {title}"),
        year: 1990 + (id % 30) as i32,
        deck: deck.to_string(),
    }
}

#[test]
fn decimal_text_matches_to_string() {
    for n in [0u64, 7, 9, 10, 11, 99, 100, 12345, u32::MAX as u64, u64::MAX] {
        assert_eq!(u64_to_decimal(n), n.to_string());
    }
    for n in [0i32, 5, -5, 1999, -2024, i32::MAX, i32::MIN] {
        assert_eq!(i32_to_decimal(n), n.to_string());
    }
}

#[test]
fn decimal_parsing_matches_std() {
    let inputs = [
        "", "+", "-", "0", "+0", "-0", "42", "+42", "-42", "007", "4294967295", "4294967296",
        "2147483647", "2147483648", "-2147483648", "-2147483649", "12a", " 1", "1 ", "++1",
        "99999999999999999999", "٣", "1_000",
    ];
    for s in inputs {
        assert_eq!(parse_u32(s), s.parse::<u32>().ok(), "u32 {s:?}");
        assert_eq!(parse_i32(s), s.parse::<i32>().ok(), "i32 {s:?}");
    }
}

#[test]
fn decimal_round_trip() {
    for n in [0u32, 1, 17, 3_000_000_000, u32::MAX] {
        assert_eq!(parse_u32(&u64_to_decimal(n as u64)), Some(n));
    }
    for n in [0i32, -1, 2024, i32::MIN, i32::MAX] {
        assert_eq!(parse_i32(&i32_to_decimal(n)), Some(n));
    }
}

#[test]
fn text_helpers() {
    assert!(contains_text("foo has already been downloaded", "has already been downloaded"));
    assert!(!contains_text("has already been download", "has already been downloaded"));
    assert!(contains_text("abc", ""));
    assert!(!contains_text("", "a"));
    assert!(str_equal("héllo", "héllo"));
    assert!(!str_equal("hello", "hell"));
}

#[test]
fn store_insert_get_contains() {
    let mut store = Store::new();
    assert!(!store.contains(1));
    assert!(store.get(1).is_none());
    store.insert(song(1, "One", "A"));
    store.insert(song(2, "Two", "A"));
    store.insert(song(1, "Uno", "B"));
    assert!(store.contains(1));
    assert!(store.contains(2));
    assert!(!store.contains(3));
    let s = store.get(1).unwrap();
    assert_eq!(s.id, 1);
    assert_eq!(s.title, "Uno");
    assert_eq!(s.deck, "B");
    let mut entries = store.iter();
    entries.sort_by_key(|e| e.0);
    assert_eq!(entries.len(), 2);
    assert_eq!(entries[0].0, 1);
    assert_eq!(entries[1].1.title, "Two");
}

#[test]
fn store_default_is_empty() {
    let store = Store::default();
    assert!(store.iter().is_empty());
}

#[test]
fn store_from_songs_later_wins() {
    let songs = Songs { songs: vec![song(5, "a", "x"), song(6, "b", "x"), song(5, "c", "y")] };
    let store = Store::from(songs);
    assert_eq!(store.iter().len(), 2);
    assert_eq!(store.get(5).unwrap().title, "c");
    assert_eq!(store.get(6).unwrap().title, "b");
    assert!(store.get(7).is_none());
}

#[test]
fn song_ids_are_xxhash32_of_url() {
    let url = "https://www.youtube.com/watch?v=dQw4w9WgXcQ";
    assert_eq!(song_id(url), twox_hash::XxHash32::oneshot(17, url.as_bytes()));
    assert_ne!(song_id(url), song_id("https://example.org/other"));
    let records = vec![
        SongRecord { title: "T1".into(), artist: "A1".into(), year: 1984, url: "u1".into() },
        SongRecord { title: "T2".into(), artist: "A2".into(), year: -3, url: "u2".into() },
    ];
    let pairs = songs_from_records(&records);
    assert_eq!(pairs.len(), 2);
    assert_eq!(pairs[0].0.id, twox_hash::XxHash32::oneshot(17, b"u1"));
    assert_eq!(pairs[1].0.title, "T2");
    assert_eq!(pairs[1].0.year, -3);
    assert_eq!(pairs[1].1, "u2");
    let catalogue = into_catalogue(pairs);
    assert_eq!(catalogue.songs.len(), 2);
    assert_eq!(catalogue.songs[0].artist, "A1");
    assert_eq!(catalogue.songs[1].deck, "");
}

#[test]
fn download_command() {
    assert_eq!(download_target("songs", 42), "songs/42.%(ext)s");
    let s = song(7, "x", "d");
    let args = download_args("out", &s, "http://u");
    assert_eq!(args, vec!["--extract-audio", "--audio-format", "mp3", "--output", "out/7.%(ext)s", "http://u"]);
}

#[test]
fn download_tally() {
    let outcomes = vec![
        DownloadOutcome { success: true, stdout: b"[download] x has already been downloaded".to_vec() },
        DownloadOutcome { success: false, stdout: b"has already been downloaded".to_vec() },
        DownloadOutcome { success: true, stdout: b"done".to_vec() },
        DownloadOutcome { success: false, stdout: vec![] },
        DownloadOutcome { success: true, stdout: b"\xffhas already been downloaded\xfe".to_vec() },
    ];
    let s = summarize_downloads(&outcomes);
    assert_eq!((s.failed, s.skipped, s.downloaded), (2, 2, 1));
    let lines = download_report(&s, "songs");
    assert_eq!(lines, vec![
        "downloaded 1 songs to songs/",
        "skipped 2 songs because they were already downloaded",
        "failed to download 2 songs",
    ]);
    let quiet = DownloadSummary { failed: 0, skipped: 0, downloaded: 3 };
    assert_eq!(download_report(&quiet, "d"), vec!["downloaded 3 songs to d/"]);
    let empty = summarize_downloads(&vec![]);
    assert_eq!((empty.failed, empty.skipped, empty.downloaded), (0, 0, 0));
    assert!(download_report(&empty, "d").is_empty());
}

#[test]
fn player_for_numbered_songs() {
    let mut store = Store::new();
    store.insert(song(12, "x", "d"));
    assert_eq!(song_audio_url(&store, "https://cdn", "12").unwrap(), "https://cdn/12.mp3");
    assert_eq!(song_audio_url(&store, "https://cdn", "+012").unwrap(), "https://cdn/12.mp3");
    assert_eq!(song_audio_url(&store, "https://cdn", "13"), Err(PlayerError::NotFound));
    assert_eq!(song_audio_url(&store, "https://cdn", "twelve"), Err(PlayerError::BadRequest));
    assert_eq!(song_audio_url(&store, "https://cdn", "-12"), Err(PlayerError::BadRequest));
}

#[test]
fn player_for_uploaded_songs() {
    let expected = "http://cdn.hitrelease.nl/550e8400-e29b-41d4-a716-446655440000.mp3";
    assert_eq!(uploaded_audio_url("550e8400-e29b-41d4-a716-446655440000").unwrap(), expected);
    assert_eq!(uploaded_audio_url("550E8400E29B41D4A716446655440000").unwrap(), expected);
    assert_eq!(uploaded_audio_url("{550e8400-e29b-41d4-a716-446655440000}").unwrap(), expected);
    assert_eq!(uploaded_audio_url("URN:uuid:550e8400-e29b-41d4-a716-446655440000").unwrap(), expected);
    assert_eq!(uploaded_audio_url("550e8400-e29b-41d4-a716-44665544000g"), Err(PlayerError::BadRequest));
    assert_eq!(uploaded_audio_url("550e8400e29b-41d4-a716-4466554400000"), Err(PlayerError::BadRequest));
    assert_eq!(uploaded_audio_url(""), Err(PlayerError::BadRequest));
}

#[test]
fn fresh_song_ids() {
    let a = new_song_id();
    let b = new_song_id();
    assert_ne!(a, b);
    let u = uuid::Uuid::parse_str(&a).unwrap();
    assert_eq!(u.get_version_num(), 4);
    assert_eq!(u.to_string(), a);
    assert_eq!(uploaded_audio_url(&a).unwrap(), format!("http://cdn.hitrelease.nl/{a}.mp3"));
}

#[test]
fn card_template_values() {
    let d = SongDataTypst {
        artist: "ABBA".into(),
        year: 1974,
        title: "Waterloo".into(),
        color_degree: 358,
        card_deck: "gold".into(),
        card_nr: 180,
        qr_path: "qr/9.svg".into(),
    };
    let vars = d.template_vars();
    let expected = [
        ("artist", "ABBA"), ("year", "1974"), ("title", "Waterloo"), ("color_degree", "358"),
        ("color_degree_2", "448"), ("card_deck", "gold"), ("card_nr", "180"), ("qr_path", "qr/9.svg"),
    ];
    assert_eq!(vars.len(), expected.len());
    for (got, want) in vars.iter().zip(expected.iter()) {
        assert_eq!((got.0.as_str(), got.1.as_str()), *want);
    }
}

#[test]
fn card_positions() {
    let s = song(9, "t", "deck");
    let d = card_data(0, &s, "qr");
    assert_eq!((d.color_degree, d.card_nr), (0, 1));
    let d = card_data(179, &s, "qr");
    assert_eq!((d.color_degree, d.card_nr), (358, 180));
    let d = card_data(180, &s, "qr");
    assert_eq!((d.color_degree, d.card_nr), (0, 181));
    assert_eq!(d.qr_path, "qr/9.svg");
    assert_eq!(player_link("https://x.nl", 9), "https://x.nl/song/9");
    assert_eq!(qr_file("qr-codes", 9), "qr-codes/9.svg");
}

#[test]
fn cards_for_a_catalogue() {
    let songs = Songs { songs: vec![song(3, "First", "red"), song(4, "Second", "blue")] };
    let template = "[{card_nr}:{title}/{year}/{color_degree}-{color_degree_2}/{card_deck}/{qr_path}]";
    let cards = build_cards(&songs, "https://h.nl", "qrs", template).unwrap();
    assert_eq!(cards.rendered, "[1:First/1993/0-90/red/qrs/3.svg][2:Second/1994/2-92/blue/qrs/4.svg]");
    assert_eq!(cards.qr_codes.len(), 2);
    assert_eq!(cards.qr_codes[1].0, "qrs/4.svg");
    let direct = qrcode::QrCode::new("https://h.nl/song/4").unwrap();
    assert_eq!(cards.qr_codes[1].1, direct.render::<qrcode::render::svg::Color>().build());
}

#[test]
fn cards_stop_at_missing_value() {
    let songs = Songs { songs: vec![song(3, "First", "red")] };
    assert_eq!(build_cards(&songs, "b", "q", "{nope}").err(), Some(CardError::Template { index: 0 }));
    let long = "x".repeat(5000);
    assert_eq!(build_cards(&songs, &long, "q", "{title}").err(), Some(CardError::QrCode { index: 0 }));
    let none = Songs { songs: vec![] };
    let cards = build_cards(&none, "b", "q", "{nope}").unwrap();
    assert_eq!(cards.rendered, "");
}

#[test]
fn upload_form_complete() {
    let mut form = UploadForm::new();
    form.add_field(Some("title"), b"Old".to_vec()).unwrap();
    form.add_field(Some("artist"), b"Queen".to_vec()).unwrap();
    form.add_field(Some("song"), vec![1, 2, 3]).unwrap();
    form.add_field(Some("year"), b"1975".to_vec()).unwrap();
    form.add_field(Some("title"), b"Bohemian Rhapsody".to_vec()).unwrap();
    let up = form.finish().unwrap();
    assert_eq!(up.title, "Bohemian Rhapsody");
    assert_eq!(up.artist, "Queen");
    assert_eq!(up.year, 1975);
    assert_eq!(up.song, vec![1, 2, 3]);
}

#[test]
fn upload_form_errors() {
    let mut form = UploadForm::new();
    assert_eq!(form.add_field(None, vec![]), Err(UploadError::UnnamedField));
    assert_eq!(UploadForm::new().finish().err(), Some(UploadError::MissingTitle));
    let mut form = UploadForm::new();
    form.add_field(Some("title"), b"t".to_vec()).unwrap();
    assert_eq!(form.finish().err(), Some(UploadError::MissingArtist));
    let mut form = UploadForm::new();
    form.add_field(Some("title"), b"t".to_vec()).unwrap();
    form.add_field(Some("artist"), b"a".to_vec()).unwrap();
    assert_eq!(form.finish().err(), Some(UploadError::MissingYear));
    let mut form = UploadForm::new();
    form.add_field(Some("title"), b"t".to_vec()).unwrap();
    form.add_field(Some("artist"), b"a".to_vec()).unwrap();
    form.add_field(Some("year"), b"nineteen".to_vec()).unwrap();
    assert_eq!(form.finish().err(), Some(UploadError::InvalidYear));
    let mut form = UploadForm::new();
    form.add_field(Some("title"), b"t".to_vec()).unwrap();
    form.add_field(Some("artist"), b"a".to_vec()).unwrap();
    form.add_field(Some("year"), b"-44".to_vec()).unwrap();
    assert_eq!(form.finish().err(), Some(UploadError::MissingSongFile));
}

#[test]
fn upload_answer_page() {
    assert_eq!(
        upload_answer("abc"),
        "Upload successful! Your song ID is: abc. <br>QR Code: <img src='/static/qr/abc.png'>"
    );
}

#[test]
fn card_link_leads_to_its_song() {
    let mut store = Store::new();
    store.insert(song(4_000_000_000, "big", "d"));
    let link = player_link("https://game.nl", 4_000_000_000);
    let id_text = link.rsplit('/').next().unwrap();
    assert_eq!(song_audio_url(&store, "https://cdn", id_text).unwrap(), "https://cdn/4000000000.mp3");
}

#[test]
fn upload_other_fields_change_nothing() {
    let fields: Vec<(&str, &[u8])> = vec![("title", b"T"), ("artist", b"A"), ("year", b"2001"), ("song", b"mp3")];
    let mut plain = UploadForm::new();
    let mut noisy = UploadForm::new();
    for (i, (name, data)) in fields.iter().enumerate() {
        plain.add_field(Some(name), data.to_vec()).unwrap();
        noisy.add_field(Some("comment"), format!("noise {i}").into_bytes()).unwrap();
        noisy.add_field(Some(name), data.to_vec()).unwrap();
    }
    noisy.add_field(Some("submit"), b"Upload".to_vec()).unwrap();
    let a = plain.finish().unwrap();
    let b = noisy.finish().unwrap();
    assert_eq!((a.title, a.artist, a.year, a.song), (b.title, b.artist, b.year, b.song));
}

#[test]
fn store_from_equals_inserts_in_order() {
    let list = vec![song(1, "a", "x"), song(2, "b", "x"), song(1, "c", "y"), song(3, "d", "z")];
    let from = Store::from(Songs { songs: list.clone() });
    let mut inserted = Store::new();
    for s in list {
        inserted.insert(s);
    }
    for k in 0..5 {
        assert_eq!(from.get(k).map(|s| s.title), inserted.get(k).map(|s| s.title));
    }
}

#[test]
fn same_url_same_id() {
    let records = vec![
        SongRecord { title: "A".into(), artist: "X".into(), year: 1, url: "same".into() },
        SongRecord { title: "B".into(), artist: "Y".into(), year: 2, url: "same".into() },
        SongRecord { title: "A".into(), artist: "X".into(), year: 1, url: "other".into() },
    ];
    let out = songs_from_records(&records);
    assert_eq!(out[0].0.id, out[1].0.id);
    assert_ne!(out[0].0.id, out[2].0.id);
}
