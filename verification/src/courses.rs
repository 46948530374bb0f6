//! Courses: named, ordered selections of songs out of the canonical catalog,
//! assembled from a stored description plus the tempo each fetch collaborator
//! reports.

use crate::ddr_song::Bpm;
use crate::ddr_song::DDRSong;
use crate::ddr_song::SongId;
use crate::text::lower_of;
use crate::text::lowercase;
use crate::text::views_of;
use vstd::prelude::*;

verus! {

/// The stored description of a course: its name, optional extra search
/// names, and the ids of its songs in order.
#[derive(Debug, Clone)]
pub struct CourseSerializeInfo {
    pub name: String,
    pub search_names: Vec<String>,
    pub songs: Vec<SongId>,
}

/// A course resolved against the catalog: each described song either found,
/// paired with its fetched tempo, or absent from the catalog.
#[derive(Debug, Clone)]
pub struct Course {
    pub name: String,
    pub search_names: Vec<String>,
    pub songs: Vec<Option<(DDRSong, Option<Bpm>)>>,
}

/// The first catalog song carrying the given id, if any.
pub fn find_song_by_id<'a>(songs: &'a Vec<DDRSong>, id: &SongId) -> (r: Option<&'a DDRSong>)
    ensures
        match r {
            Some(song) => exists|i: int|
                {
                    &&& 0 <= i < songs@.len()
                    &&& #[trigger] songs@[i].song_id == *id
                    &&& *song == songs@[i]
                    &&& forall|j: int| 0 <= j < i ==> songs@[j].song_id != *id
                },
            None => forall|i: int| 0 <= i < songs@.len() ==> songs@[i].song_id != *id,
        },
{
    let mut i: usize = 0;
    while i < songs.len()
        invariant
            i <= songs@.len(),
            forall|j: int| 0 <= j < i ==> songs@[j].song_id != *id,
        decreases songs@.len() - i,
    {
        if songs[i].song_id.packed() == id.packed() {
            return Some(&songs[i]);
        }
        i = i + 1;
    }
    None
}

impl Course {
    /// Assembles a course from its stored description and the resolved songs:
    /// the description's search names gain the lowercased course name, and
    /// the resolved songs are taken in order as the caller looked them up.
    pub fn assemble(
        info: CourseSerializeInfo,
        resolved: Vec<Option<(DDRSong, Option<Bpm>)>>,
    ) -> (r: Course)
        ensures
            r.name == info.name,
            views_of(r.search_names@) =~= views_of(info.search_names@) + seq![
                lower_of(info.name@)
            ],
            r.songs == resolved,
    {
        let mut search_names = info.search_names;
        search_names.push(lowercase(info.name.as_str()));
        Course { name: info.name, search_names, songs: resolved }
    }
}

} // verus!
