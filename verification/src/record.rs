//! The data a record (an album) carries in a collection: its catalog
//! facts, its tracklist, and its cover art as a textel grid.
use vstd::prelude::*;

use crate::art::AsciiArt;

verus! {

/// One track of a record.
#[derive(Clone, Debug, PartialEq, Eq)]
pub struct Track {
    pub title: String,
    pub duration: String,
    pub position: String,
}

/// One record of a collection. A collection indexes records by the
/// pair of the first artist and the title.
#[derive(Debug, PartialEq, Eq)]
pub struct Record {
    pub title: String,
    pub artists: Vec<String>,
    pub year: u16,
    pub genre: Vec<String>,
    pub style: Vec<String>,
    pub country: String,
    pub format: String,
    pub image: AsciiArt,
    pub tracklist: Vec<Track>,
}

impl Record {
    /// The pair a collection indexes this record by: its first artist
    /// and its title.
    pub fn key(&self) -> (k: (String, String))
        requires
            self.artists@.len() > 0,
        ensures
            k.0@ == self.artists@[0]@,
            k.1@ == self.title@,
    {
        (self.artists[0].clone(), self.title.clone())
    }
}

} // verus!
