//! The song records that the game works with.

use vstd::prelude::*;

verus! {

/// One song of the game: the id printed on its card (in a QR code), what the
/// card shows, and the deck the card belongs to.
#[derive(Clone, Debug)]
pub struct Song {
    pub id: u32,
    pub title: String,
    pub artist: String,
    pub year: i32,
    pub deck: String,
}

/// A whole song catalogue, as it is stored on disk.
#[derive(Debug)]
pub struct Songs {
    pub songs: Vec<Song>,
}

/// What a `Song` holds, with its texts as character sequences.
pub struct SongView {
    pub id: u32,
    pub title: Seq<char>,
    pub artist: Seq<char>,
    pub year: i32,
    pub deck: Seq<char>,
}

impl View for Song {
    type V = SongView;

    open spec fn view(&self) -> SongView {
        SongView {
            id: self.id,
            title: self.title@,
            artist: self.artist@,
            year: self.year,
            deck: self.deck@,
        }
    }
}

impl View for Songs {
    type V = Seq<SongView>;

    open spec fn view(&self) -> Seq<SongView> {
        self.songs@.map_values(|s: Song| s@)
    }
}

impl Song {
    /// A copy of this song.
    pub fn duplicate(&self) -> (r: Song)
        ensures
            r@ == self@,
    {
        Song {
            id: self.id,
            title: self.title.clone(),
            artist: self.artist.clone(),
            year: self.year,
            deck: self.deck.clone(),
        }
    }
}

impl Songs {
    /// A copy of this catalogue.
    pub fn duplicate(&self) -> (r: Songs)
        ensures
            r@ == self@,
    {
        let mut out: Vec<Song> = Vec::new();
        let mut i: usize = 0;
        while i < self.songs.len()
            invariant
                i <= self.songs.len(),
                out@.len() == i,
                forall|j: int| 0 <= j < i ==> #[trigger] out@[j]@ == self.songs@[j]@,
            decreases self.songs.len() - i,
        {
            out.push(self.songs[i].duplicate());
            i = i + 1;
        }
        let r = Songs { songs: out };
        assert(r@ =~= self@);
        r
    }
}

} // verus!
