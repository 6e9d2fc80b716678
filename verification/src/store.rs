//! An in-memory table of songs keyed by song id, for concurrent readers.
//! It keeps its songs in a `dashmap::DashMap`.

use vstd::prelude::*;
use dashmap::DashMap;
use crate::models::{Song, SongView, Songs};

verus! {

#[verifier::external_type_specification]
#[verifier::external_body]
#[verifier::reject_recursive_types(K)]
#[verifier::reject_recursive_types(V)]
#[verifier::reject_recursive_types(S)]
pub struct ExDashMap<K, V, S>(DashMap<K, V, S>);

/// The map type that holds a store's songs.
pub type SongTable = DashMap<u32, Song>;

/// The songs that a `DashMap` of songs holds, keyed by id.
pub uninterp spec fn song_table(m: DashMap<u32, Song>) -> Map<u32, SongView>;

/// `DashMap::new`: the contract claims that a new map holds nothing.
#[verifier::external_body]
fn table_new() -> (table: SongTable)
    ensures
        song_table(table).is_empty(),
{
    DashMap::new()
}

/// `DashMap::insert`: the contract claims that afterwards `key` maps to
/// `song` and every other key keeps what it had.
#[verifier::external_body]
fn table_insert(m: &mut DashMap<u32, Song>, key: u32, song: Song)
    ensures
        song_table(*final(m)) == song_table(*old(m)).insert(key, song@),
{
    m.insert(key, song);
}

/// `DashMap::get`, with the song copied out: the contract claims that the
/// result is the song stored under `key`, or `None` when there is none.
#[verifier::external_body]
fn table_get(m: &DashMap<u32, Song>, key: u32) -> (r: Option<Song>)
    ensures
        match r {
            Some(s) => song_table(*m).contains_key(key) && s@ == song_table(*m)[key],
            None => !song_table(*m).contains_key(key),
        },
{
    match m.get(&key) {
        Some(entry) => Some(entry.value().clone()),
        None => None,
    }
}

/// `DashMap::contains_key`: the contract claims that the result says whether
/// a song is stored under `key`.
#[verifier::external_body]
fn table_contains(m: &DashMap<u32, Song>, key: u32) -> (r: bool)
    ensures
        r == song_table(*m).contains_key(key),
{
    m.contains_key(&key)
}

/// `DashMap::iter`, with each entry copied out: the contract claims that the
/// result lists every stored key once, each with its song. The order, which
/// depends on the map's random hashing, is left unsaid.
#[verifier::external_body]
fn table_entries(m: &DashMap<u32, Song>) -> (r: Vec<(u32, Song)>)
    ensures
        forall|i: int| 0 <= i < r@.len() ==>
            song_table(*m).contains_key(#[trigger] r@[i].0) && song_table(*m)[r@[i].0] == r@[i].1@,
        forall|k: u32| song_table(*m).contains_key(k) ==>
            exists|i: int| 0 <= i < r@.len() && #[trigger] r@[i].0 == k,
        forall|i: int, j: int| 0 <= i < j < r@.len() ==> r@[i].0 != r@[j].0,
{
    let mut out = Vec::new();
    for entry in m.iter() {
        out.push((*entry.key(), entry.value().clone()));
    }
    out
}

/// The table that a list of songs gives when they are stored one after the
/// other: each song under its id, a later song replacing an earlier one with
/// the same id.
pub open spec fn catalogue(songs: Seq<SongView>) -> Map<u32, SongView>
    decreases songs.len(),
{
    if songs.len() == 0 {
        Map::empty()
    } else {
        catalogue(songs.drop_last()).insert(songs.last().id, songs.last())
    }
}

/// A catalogue stores a song under an id exactly when some song of the list
/// has that id, and the song stored there is the last of them.
pub proof fn lemma_catalogue_lookup(songs: Seq<SongView>, id: u32)
    ensures
        catalogue(songs).contains_key(id) <==> exists|i: int| 0 <= i < songs.len() && #[trigger] songs[i].id == id,
        catalogue(songs).contains_key(id) ==> exists|i: int| {
            &&& 0 <= i < songs.len()
            &&& #[trigger] songs[i].id == id
            &&& catalogue(songs)[id] == songs[i]
            &&& forall|j: int| i < j < songs.len() ==> #[trigger] songs[j].id != id
        },
    decreases songs.len(),
{
    if songs.len() > 0 {
        let rest = songs.drop_last();
        lemma_catalogue_lookup(rest, id);
        let n = songs.len() - 1;
        if songs[n].id == id {
            assert(catalogue(songs)[id] == songs[n]);
            assert(songs[n].id == id && catalogue(songs)[id] == songs[n]
                && forall|j: int| n < j < songs.len() ==> #[trigger] songs[j].id != id);
        } else {
            if catalogue(rest).contains_key(id) {
                let i = choose|i: int| {
                    &&& 0 <= i < rest.len()
                    &&& #[trigger] rest[i].id == id
                    &&& catalogue(rest)[id] == rest[i]
                    &&& forall|j: int| i < j < rest.len() ==> #[trigger] rest[j].id != id
                };
                assert(songs[i].id == id);
                assert(catalogue(songs)[id] == songs[i]);
                assert forall|j: int| i < j < songs.len() implies #[trigger] songs[j].id != id by {
                    if j < n {
                        assert(rest[j] == songs[j]);
                    }
                }
            }
            if exists|i: int| 0 <= i < songs.len() && #[trigger] songs[i].id == id {
                let i = choose|i: int| 0 <= i < songs.len() && #[trigger] songs[i].id == id;
                assert(rest[i].id == id);
            }
        }
    }
}

/// After `k` steps of storing the songs one by one, the store holds the
/// catalogue of the first `k` songs.
proof fn lemma_catalogue_prefix_states(songs: Seq<SongView>, states: Seq<Map<u32, SongView>>, k: int)
    requires
        0 <= k <= songs.len(),
        states.len() == songs.len() + 1,
        states[0] == Map::<u32, SongView>::empty(),
        forall|i: int| 0 <= i < songs.len() ==>
            #[trigger] states[i + 1] == states[i].insert(songs[i].id, songs[i]),
    ensures
        catalogue(songs.take(k)) == states[k],
    decreases k,
{
    if k == 0 {
        assert(songs.take(0) =~= Seq::<SongView>::empty());
    } else {
        lemma_catalogue_prefix_states(songs, states, k - 1);
        assert(songs.take(k).drop_last() =~= songs.take(k - 1));
        assert(states[(k - 1) + 1] == states[k - 1].insert(songs[k - 1].id, songs[k - 1]));
    }
}

/// Making a store from a catalogue gives what an empty store gives when the
/// catalogue's songs are stored into it one by one, in order: `states` are
/// the store's contents after each step, as `Store::new` and `Store::insert`
/// promise them.
pub proof fn law_from_songs_is_inserts_in_order(songs: Seq<SongView>, states: Seq<Map<u32, SongView>>)
    requires
        states.len() == songs.len() + 1,
        states[0] == Map::<u32, SongView>::empty(),
        forall|i: int| 0 <= i < songs.len() ==>
            #[trigger] states[i + 1] == states[i].insert(songs[i].id, songs[i]),
    ensures
        catalogue(songs) == states[songs.len() as int],
{
    let n = songs.len() as int;
    lemma_catalogue_prefix_states(songs, states, n);
    assert(songs.take(n) =~= songs);
}

/// What a store holds after a song is stored: that song under its id, and
/// under every other id what was there before.
pub proof fn law_read_after_insert(before: Map<u32, SongView>, after: Map<u32, SongView>, song: SongView, id: u32)
    requires
        after == before.insert(song.id, song),
    ensures
        after.contains_key(song.id) && after[song.id] == song,
        id != song.id ==> (after.contains_key(id) == before.contains_key(id)),
        id != song.id && before.contains_key(id) ==> after[id] == before[id],
{
}

/// Data structure to store song info for concurrent access: a thin wrapper
/// around a `DashMap` from song id to song.
pub struct Store {
    inner: DashMap<u32, Song>,
}

impl View for Store {
    type V = Map<u32, SongView>;

    closed spec fn view(&self) -> Map<u32, SongView> {
        song_table(self.inner)
    }
}

impl Store {
    /// Every song is stored under its own id, and there are finitely many.
    /// Every store that this module makes is so, and storing keeps it so.
    pub closed spec fn wf(&self) -> bool {
        &&& song_table(self.inner).dom().finite()
        &&& forall|k: u32| #[trigger] song_table(self.inner).contains_key(k)
            ==> song_table(self.inner)[k].id == k
    }

    /// What `wf` says: every song is stored under its own id, and a store
    /// holds finitely many songs.
    pub proof fn lemma_wf(&self)
        requires
            self.wf(),
        ensures
            self@.dom().finite(),
            forall|k: u32| #[trigger] self@.contains_key(k) ==> self@[k].id == k,
    {
    }

    /// An empty store.
    pub fn new() -> (s: Store)
        ensures
            s@ == Map::<u32, SongView>::empty(),
            s.wf(),
    {
        Store { inner: table_new() }
    }

    /// Stores `s` under its id, replacing any song stored there before.
    pub fn insert(&mut self, s: Song)
        ensures
            final(self)@ == old(self)@.insert(s.id, s@),
            old(self).wf() ==> final(self).wf(),
    {
        let key = s.id;
        table_insert(&mut self.inner, key, s);
    }

    /// The song stored under `id`, if any.
    pub fn get(&self, id: u32) -> (r: Option<Song>)
        ensures
            match r {
                Some(s) => self@.contains_key(id) && s@ == self@[id],
                None => !self@.contains_key(id),
            },
            self.wf() ==> (r matches Some(s) ==> s.id == id),
    {
        table_get(&self.inner, id)
    }

    /// Whether a song is stored under `id`.
    pub fn contains(&self, id: u32) -> (r: bool)
        ensures
            r == self@.contains_key(id),
    {
        table_contains(&self.inner, id)
    }

    /// Every stored song with its id, each once, in no particular order.
    pub fn iter(&self) -> (r: Vec<(u32, Song)>)
        ensures
            forall|i: int| 0 <= i < r@.len() ==>
                self@.contains_key(#[trigger] r@[i].0) && self@[r@[i].0] == r@[i].1@,
            forall|k: u32| self@.contains_key(k) ==>
                exists|i: int| 0 <= i < r@.len() && #[trigger] r@[i].0 == k,
            forall|i: int, j: int| 0 <= i < j < r@.len() ==> r@[i].0 != r@[j].0,
            self.wf() ==> r@.len() == self@.len(),
            self.wf() ==> forall|i: int| 0 <= i < r@.len() ==> (#[trigger] r@[i]).1.id == r@[i].0,
    {
        let r = table_entries(&self.inner);
        proof {
            if self.wf() {
                let keys = r@.map_values(|e: (u32, Song)| e.0);
                assert(keys.no_duplicates());
                assert(keys.to_set() =~= self@.dom()) by {
                    assert forall|k: u32| keys.to_set().contains(k) implies self@.dom().contains(k) by {
                        let i = choose|i: int| 0 <= i < keys.len() && keys[i] == k;
                        assert(r@[i].0 == k);
                    }
                    assert forall|k: u32| self@.dom().contains(k) implies keys.to_set().contains(k) by {
                        let i = choose|i: int| 0 <= i < r@.len() && #[trigger] r@[i].0 == k;
                        assert(keys[i] == k);
                    }
                }
                keys.unique_seq_to_set();
            }
        }
        r
    }

    /// A store holding the songs of a catalogue, each under its id; of two
    /// songs with the same id the later one stays.
    pub fn from_songs(value: Songs) -> (s: Store)
        ensures
            s@ == catalogue(value@),
            s.wf(),
    {
        let ghost all = value@;
        let total = value.songs.len();
        assert(all.len() == total);
        let mut store = Store::new();
        let mut songs = value.songs;
        let mut rest: Vec<Song> = Vec::new();
        // Songs are taken from the back, so the order is restored first.
        while songs.len() > 0
            invariant
                songs@.len() + rest@.len() == all.len(),
                all.len() <= usize::MAX,
                forall|j: int| 0 <= j < songs@.len() ==> #[trigger] songs@[j]@ == all[j],
                forall|j: int| 0 <= j < rest@.len() ==>
                    #[trigger] rest@[j]@ == all[all.len() - 1 - j],
            decreases songs@.len(),
        {
            let s = songs.pop().unwrap();
            rest.push(s);
        }
        let mut i: usize = 0;
        while rest.len() > 0
            invariant
                rest@.len() + i == all.len(),
                all.len() <= usize::MAX,
                forall|j: int| 0 <= j < rest@.len() ==>
                    #[trigger] rest@[j]@ == all[all.len() - 1 - j],
                store@ == catalogue(all.take(i as int)),
                store.wf(),
            decreases rest@.len(),
        {
            let s = rest.pop().unwrap();
            proof {
                assert(s@ == all[i as int]);
                assert(all.take(i + 1).drop_last() =~= all.take(i as int));
            }
            store.insert(s);
            i = i + 1;
        }
        assert(all.take(i as int) =~= all);
        store
    }
}

impl Default for Store {
    /// An empty store.
    fn default() -> (s: Store)
        ensures
            s@ == Map::<u32, SongView>::empty(),
            s.wf(),
    {
        Store::new()
    }
}

impl From<Songs> for Store {
    /// A store holding the songs of a catalogue (see `Store::from_songs`).
    fn from(value: Songs) -> (s: Store)
        ensures
            s@ == catalogue(value@),
            s.wf(),
    {
        Store::from_songs(value)
    }
}

impl vstd::std_specs::convert::FromSpecImpl<Songs> for Store {
    /// A store is not a plain value that one spec function could give, so
    /// `from` promises its contents through its own `ensures` instead.
    open spec fn obeys_from_spec() -> bool {
        false
    }

    open spec fn from_spec(v: Songs) -> Store {
        vstd::pervasive::arbitrary()
    }
}

} // verus!
