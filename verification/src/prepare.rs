//! Preparing a song catalogue from a list of song records: each song gets
//! an id hashed from its download URL, and the outcome of downloading the
//! songs is summed up.

use vstd::prelude::*;
use vstd::utf8::encode_utf8;
use crate::decimal::{decimal_digits, write_decimal, spells_nat, lemma_decimal_digits_spell};
use crate::models::{Song, Songs};
use crate::text::{push_str, text_contains, text_from_bytes_lossy, contains_text, utf8_lossy};

verus! {

/// One row of the song list that a catalogue is prepared from.
pub struct SongRecord {
    pub title: String,
    pub artist: String,
    pub year: i32,
    pub url: String,
}

/// The seed of the hash that turns a song's URL into its id.
pub const ID_SEED: u32 = 17;

/// What `twox_hash::XxHash32::oneshot` gives for a seed and some bytes.
pub uninterp spec fn xxhash32(seed: u32, data: Seq<u8>) -> u32;

/// `twox_hash::XxHash32::oneshot`: the contract claims that the result is
/// the 32-bit xxHash of `data` with `seed`, a function of the two alone.
#[verifier::external_body]
fn xxh32_oneshot(seed: u32, data: &[u8]) -> (h: u32)
    ensures
        h == xxhash32(seed, data@),
{
    twox_hash::XxHash32::oneshot(seed, data)
}

/// The id of the song downloaded from `url`: the xxHash32 of the URL's UTF-8
/// bytes with seed 17.
pub open spec fn spec_song_id(url: Seq<char>) -> u32 {
    xxhash32(17, encode_utf8(url))
}

/// The id of the song downloaded from `url`.
pub fn song_id(url: &str) -> (id: u32)
    ensures
        id == spec_song_id(url@),
{
    xxh32_oneshot(ID_SEED, url.as_bytes())
}

/// The song that a record describes, with its id hashed from its URL and no
/// deck.
pub fn song_from_record(record: &SongRecord) -> (s: Song)
    ensures
        s.id == spec_song_id(record.url@),
        s.title@ == record.title@,
        s.artist@ == record.artist@,
        s.year == record.year,
        s.deck@ == Seq::<char>::empty(),
{
    Song {
        id: song_id(record.url.as_str()),
        title: record.title.clone(),
        artist: record.artist.clone(),
        year: record.year,
        deck: String::new(),
    }
}

/// Whether `out` holds, for each record in order, the record's song (its id
/// hashed from its URL, no deck) paired with the record's URL.
pub open spec fn prepared_from(records: Seq<SongRecord>, out: Seq<(Song, String)>) -> bool {
    &&& out.len() == records.len()
    &&& forall|i: int| 0 <= i < out.len() ==> {
        let r = #[trigger] records[i];
        &&& out[i].0.id == spec_song_id(r.url@)
        &&& out[i].0.title@ == r.title@
        &&& out[i].0.artist@ == r.artist@
        &&& out[i].0.year == r.year
        &&& out[i].0.deck@ == Seq::<char>::empty()
        &&& out[i].1@ == r.url@
    }
}

/// Among the songs prepared from a list of records, two whose records have
/// the same URL get the same id, whatever else their records say.
pub proof fn law_same_url_same_id(records: Seq<SongRecord>, out: Seq<(Song, String)>, i: int, j: int)
    requires
        prepared_from(records, out),
        0 <= i < records.len(),
        0 <= j < records.len(),
        records[i].url@ == records[j].url@,
    ensures
        out[i].0.id == out[j].0.id,
{
    assert(out[i].0.id == spec_song_id(records[i].url@));
    assert(out[j].0.id == spec_song_id(records[j].url@));
}

/// Each prepared song is its own record's song: the record's title, artist
/// and year, no deck, an id that is the xxHash32 (seed 17) of the record's
/// URL, paired with that URL.
pub proof fn law_each_song_from_its_record(records: Seq<SongRecord>, out: Seq<(Song, String)>, i: int)
    requires
        prepared_from(records, out),
        0 <= i < records.len(),
    ensures
        out.len() == records.len(),
        out[i].0.title@ == records[i].title@,
        out[i].0.artist@ == records[i].artist@,
        out[i].0.year == records[i].year,
        out[i].0.deck@.len() == 0,
        out[i].0.id == xxhash32(17, encode_utf8(records[i].url@)),
        out[i].1@ == records[i].url@,
{
    assert(records[i] == records[i]);
}

/// Each record's song paired with the URL it is downloaded from, in the
/// order of the records.
pub fn songs_from_records(records: &Vec<SongRecord>) -> (out: Vec<(Song, String)>)
    ensures
        prepared_from(records@, out@),
{
    let mut out: Vec<(Song, String)> = Vec::new();
    let mut i: usize = 0;
    while i < records.len()
        invariant
            i <= records@.len(),
            out@.len() == i,
            forall|j: int| 0 <= j < i ==> {
                let r = #[trigger] records@[j];
                &&& out@[j].0.id == spec_song_id(r.url@)
                &&& out@[j].0.title@ == r.title@
                &&& out@[j].0.artist@ == r.artist@
                &&& out@[j].0.year == r.year
                &&& out@[j].0.deck@ == Seq::<char>::empty()
                &&& out@[j].1@ == r.url@
            },
        decreases records@.len() - i,
    {
        let record = &records[i];
        let song = song_from_record(record);
        out.push((song, record.url.clone()));
        i = i + 1;
    }
    out
}

/// The catalogue of the prepared songs, without their URLs, in the same
/// order.
pub fn into_catalogue(pairs: Vec<(Song, String)>) -> (c: Songs)
    ensures
        c@ == pairs@.map_values(|p: (Song, String)| p.0@),
{
    let ghost all = pairs@;
    let total = pairs.len();
    let mut pairs = pairs;
    let mut reversed: Vec<Song> = Vec::new();
    while pairs.len() > 0
        invariant
            pairs@.len() + reversed@.len() == total,
            total == all.len(),
            forall|j: int| 0 <= j < pairs@.len() ==> #[trigger] pairs@[j] == all[j],
            forall|j: int| 0 <= j < reversed@.len() ==>
                #[trigger] reversed@[j]@ == all[total - 1 - j].0@,
        decreases pairs@.len(),
    {
        let (s, _url) = pairs.pop().unwrap();
        reversed.push(s);
    }
    let mut songs: Vec<Song> = Vec::new();
    while reversed.len() > 0
        invariant
            reversed@.len() + songs@.len() == total,
            total == all.len(),
            forall|j: int| 0 <= j < reversed@.len() ==>
                #[trigger] reversed@[j]@ == all[total - 1 - j].0@,
            forall|j: int| 0 <= j < songs@.len() ==> #[trigger] songs@[j]@ == all[j].0@,
        decreases reversed@.len(),
    {
        let s = reversed.pop().unwrap();
        songs.push(s);
    }
    let c = Songs { songs };
    assert(c@ =~= all.map_values(|p: (Song, String)| p.0@));
    c
}

/// The `--output` template that the downloader is given for a song: the
/// song's file is named after its id, with the extension the downloader
/// picks.
pub open spec fn spec_download_target(output_dir: Seq<char>, id: u32) -> Seq<char> {
    output_dir + "/"@ + decimal_digits(id as nat) + ".%(ext)s"@
}

/// The `--output` template that the downloader is given for a song.
pub fn download_target(output_dir: &str, id: u32) -> (t: String)
    ensures
        t@ == spec_download_target(output_dir@, id),
{
    let mut t = String::new();
    push_str(&mut t, output_dir);
    push_str(&mut t, "/");
    write_decimal(&mut t, id as u64);
    push_str(&mut t, ".%(ext)s");
    t
}

/// The downloader stores a song as `{output_dir}/{id}.{ext}`, with the id
/// written as its plain unsigned decimal spelling, so the file is found again
/// under the song's id.
pub proof fn law_download_target_names_the_song(output_dir: Seq<char>, id: u32)
    ensures
        exists|t: Seq<char>| spec_download_target(output_dir, id) == output_dir + "/"@ + t + ".%(ext)s"@
            && spells_nat(t, id as nat),
{
    lemma_decimal_digits_spell(id as nat);
    let t = decimal_digits(id as nat);
    assert(spec_download_target(output_dir, id) == output_dir + "/"@ + t + ".%(ext)s"@);
}

/// The arguments that the downloader is run with to fetch one song as mp3.
pub fn download_args(output_dir: &str, song: &Song, url: &str) -> (args: Vec<String>)
    ensures
        args@.len() == 6,
        args@[0]@ == "--extract-audio"@,
        args@[1]@ == "--audio-format"@,
        args@[2]@ == "mp3"@,
        args@[3]@ == "--output"@,
        args@[4]@ == spec_download_target(output_dir@, song.id),
        args@[5]@ == url@,
{
    let mut args: Vec<String> = Vec::new();
    let mut a = String::new();
    push_str(&mut a, "--extract-audio");
    args.push(a);
    let mut b = String::new();
    push_str(&mut b, "--audio-format");
    args.push(b);
    let mut c = String::new();
    push_str(&mut c, "mp3");
    args.push(c);
    let mut d = String::new();
    push_str(&mut d, "--output");
    args.push(d);
    args.push(download_target(output_dir, song.id));
    let mut e = String::new();
    push_str(&mut e, url);
    args.push(e);
    args
}

/// What one run of the downloader ended with: whether it succeeded, and what
/// it wrote to its standard output.
pub struct DownloadOutcome {
    pub success: bool,
    pub stdout: Vec<u8>,
}

/// What the downloader prints when it finds a song already on disk.
pub const ALREADY_DOWNLOADED: &'static str = "has already been downloaded";

/// Whether the downloader reported that it found the song already on disk.
pub open spec fn reports_already_downloaded(o: DownloadOutcome) -> bool {
    text_contains(utf8_lossy(o.stdout@), ALREADY_DOWNLOADED@)
}

/// How many of the runs failed.
pub open spec fn count_failed(outcomes: Seq<DownloadOutcome>) -> nat
    decreases outcomes.len(),
{
    if outcomes.len() == 0 {
        0
    } else {
        count_failed(outcomes.drop_last()) + if outcomes.last().success { 0nat } else { 1nat }
    }
}

/// How many of the runs succeeded because the song was already on disk.
pub open spec fn count_skipped(outcomes: Seq<DownloadOutcome>) -> nat
    decreases outcomes.len(),
{
    if outcomes.len() == 0 {
        0
    } else {
        count_skipped(outcomes.drop_last()) + if outcomes.last().success
            && reports_already_downloaded(outcomes.last()) { 1nat } else { 0nat }
    }
}

/// The tally of a batch of downloads.
pub struct DownloadSummary {
    pub failed: usize,
    pub skipped: usize,
    pub downloaded: usize,
}

/// A run counts as failed exactly when it did not succeed, and a successful
/// run counts as skipped exactly when the text of its output (read as UTF-8,
/// invalid bytes replaced) holds "has already been downloaded" somewhere,
/// whatever else it holds.
pub proof fn law_tally_of_one_more_run(outcomes: Seq<DownloadOutcome>, o: DownloadOutcome)
    ensures
        count_failed(outcomes.push(o)) == count_failed(outcomes) + if o.success { 0int } else { 1int },
        count_skipped(outcomes.push(o)) == count_skipped(outcomes) + if o.success && exists|k: int|
            0 <= k && k + "has already been downloaded"@.len() <= utf8_lossy(o.stdout@).len()
                && #[trigger] utf8_lossy(o.stdout@).subrange(k, k + "has already been downloaded"@.len())
                    == "has already been downloaded"@ { 1int } else { 0int },
{
    assert(outcomes.push(o).drop_last() =~= outcomes);
    assert(ALREADY_DOWNLOADED@ == "has already been downloaded"@);
}

/// Failed and skipped runs never overlap, so together they are at most all
/// runs.
pub proof fn lemma_failed_and_skipped_bounded(outcomes: Seq<DownloadOutcome>)
    ensures
        count_failed(outcomes) + count_skipped(outcomes) <= outcomes.len(),
    decreases outcomes.len(),
{
    if outcomes.len() > 0 {
        lemma_failed_and_skipped_bounded(outcomes.drop_last());
    }
}

/// Tallies a batch of downloads: the runs that failed, the successful runs
/// whose output says the song was already on disk, and the rest, which
/// downloaded their song.
pub fn summarize_downloads(outcomes: &Vec<DownloadOutcome>) -> (s: DownloadSummary)
    ensures
        s.failed == count_failed(outcomes@),
        s.skipped == count_skipped(outcomes@),
        s.failed + s.skipped + s.downloaded == outcomes@.len(),
{
    let mut failed: usize = 0;
    let mut skipped: usize = 0;
    let mut i: usize = 0;
    while i < outcomes.len()
        invariant
            i <= outcomes@.len(),
            failed == count_failed(outcomes@.take(i as int)),
            skipped == count_skipped(outcomes@.take(i as int)),
            failed + skipped <= i,
        decreases outcomes@.len() - i,
    {
        let o = &outcomes[i];
        proof {
            assert(outcomes@.take(i + 1).drop_last() =~= outcomes@.take(i as int));
        }
        if !o.success {
            failed = failed + 1;
        } else {
            let text = text_from_bytes_lossy(o.stdout.as_slice());
            if contains_text(text.as_str(), ALREADY_DOWNLOADED) {
                skipped = skipped + 1;
            }
        }
        i = i + 1;
    }
    proof {
        assert(outcomes@.take(i as int) =~= outcomes@);
    }
    DownloadSummary { failed, skipped, downloaded: outcomes.len() - failed - skipped }
}

/// The lines that report a batch of downloads into `output_dir`: how many
/// songs were downloaded, skipped, and failed, each line only when its count
/// is not zero.
pub open spec fn spec_download_report(s: DownloadSummary, output_dir: Seq<char>) -> Seq<Seq<char>> {
    let downloaded = if s.downloaded > 0 {
        seq!["downloaded "@ + decimal_digits(s.downloaded as nat) + " songs to "@ + output_dir + "/"@]
    } else {
        Seq::empty()
    };
    let skipped = if s.skipped > 0 {
        seq!["skipped "@ + decimal_digits(s.skipped as nat)
            + " songs because they were already downloaded"@]
    } else {
        Seq::empty()
    };
    let failed = if s.failed > 0 {
        seq!["failed to download "@ + decimal_digits(s.failed as nat) + " songs"@]
    } else {
        Seq::empty()
    };
    downloaded + skipped + failed
}

/// The lines that report a batch of downloads into `output_dir`.
pub fn download_report(s: &DownloadSummary, output_dir: &str) -> (lines: Vec<String>)
    ensures
        lines@.map_values(|l: String| l@) == spec_download_report(*s, output_dir@),
{
    let mut lines: Vec<String> = Vec::new();
    if s.downloaded > 0 {
        let mut l = String::new();
        push_str(&mut l, "downloaded ");
        write_decimal(&mut l, s.downloaded as u64);
        push_str(&mut l, " songs to ");
        push_str(&mut l, output_dir);
        push_str(&mut l, "/");
        lines.push(l);
    }
    let ghost after_downloaded = lines@;
    if s.skipped > 0 {
        let mut l = String::new();
        push_str(&mut l, "skipped ");
        write_decimal(&mut l, s.skipped as u64);
        push_str(&mut l, " songs because they were already downloaded");
        lines.push(l);
    }
    if s.failed > 0 {
        let mut l = String::new();
        push_str(&mut l, "failed to download ");
        write_decimal(&mut l, s.failed as u64);
        push_str(&mut l, " songs");
        lines.push(l);
    }
    assert(lines@.map_values(|l: String| l@) =~= spec_download_report(*s, output_dir@));
    lines
}

} // verus!
