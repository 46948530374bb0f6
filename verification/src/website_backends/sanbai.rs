//! Typed records of the Sanbai (primary) service: the authoritative song
//! catalog with stable ids, and per-play score entries.

use crate::ddr_song::SongId;
use crate::ddr_song::id_chars;
use crate::error::Error;
use crate::scores::LampType;
use vstd::prelude::*;

verus! {

/// The game release a song first appeared in, as Sanbai encodes it.
#[derive(Debug, Copy, Clone, PartialEq, Eq, Structural)]
pub enum DDRVersion {
    UnknownVersion,
    DDRA20Plus,
    DDRA20,
    DDRA,
    DDR2014,
    DDR2013,
    DDRX3,
    DDRX2,
    DDRX,
    DDRSuperNOVA2,
    DDRSuperNOVA,
    DDREXTREME,
    DDRMAX2,
    DDRMAX,
    DDR5thMIX,
    DDR4thMIX,
    DDR3rdMIX,
    DDR2ndMIX,
    DDR1stMIX,
}

impl DDRVersion {
    /// The integer code Sanbai uses for the version.
    pub open spec fn spec_code(self) -> u8 {
        match self {
            DDRVersion::UnknownVersion => 0,
            DDRVersion::DDR1stMIX => 1,
            DDRVersion::DDR2ndMIX => 2,
            DDRVersion::DDR3rdMIX => 3,
            DDRVersion::DDR4thMIX => 4,
            DDRVersion::DDR5thMIX => 5,
            DDRVersion::DDRMAX => 6,
            DDRVersion::DDRMAX2 => 7,
            DDRVersion::DDREXTREME => 8,
            DDRVersion::DDRSuperNOVA => 9,
            DDRVersion::DDRSuperNOVA2 => 10,
            DDRVersion::DDRX => 11,
            DDRVersion::DDRX2 => 12,
            DDRVersion::DDRX3 => 13,
            DDRVersion::DDR2013 => 14,
            DDRVersion::DDR2014 => 15,
            DDRVersion::DDRA => 16,
            DDRVersion::DDRA20 => 17,
            DDRVersion::DDRA20Plus => 18,
        }
    }

    /// The integer code Sanbai uses for the version.
    pub fn code(&self) -> (r: u8)
        ensures
            r == self.spec_code(),
    {
        match *self {
            DDRVersion::UnknownVersion => 0,
            DDRVersion::DDR1stMIX => 1,
            DDRVersion::DDR2ndMIX => 2,
            DDRVersion::DDR3rdMIX => 3,
            DDRVersion::DDR4thMIX => 4,
            DDRVersion::DDR5thMIX => 5,
            DDRVersion::DDRMAX => 6,
            DDRVersion::DDRMAX2 => 7,
            DDRVersion::DDREXTREME => 8,
            DDRVersion::DDRSuperNOVA => 9,
            DDRVersion::DDRSuperNOVA2 => 10,
            DDRVersion::DDRX => 11,
            DDRVersion::DDRX2 => 12,
            DDRVersion::DDRX3 => 13,
            DDRVersion::DDR2013 => 14,
            DDRVersion::DDR2014 => 15,
            DDRVersion::DDRA => 16,
            DDRVersion::DDRA20 => 17,
            DDRVersion::DDRA20Plus => 18,
        }
    }

    /// The version a Sanbai code stands for; any unassigned code reads as the
    /// unknown version, as the payload format reserves it.
    pub fn from_code(code: u8) -> (r: DDRVersion)
        ensures
            1 <= code <= 18 ==> r.spec_code() == code,
            !(1 <= code <= 18) ==> r == DDRVersion::UnknownVersion,
    {
        match code {
            1 => DDRVersion::DDR1stMIX,
            2 => DDRVersion::DDR2ndMIX,
            3 => DDRVersion::DDR3rdMIX,
            4 => DDRVersion::DDR4thMIX,
            5 => DDRVersion::DDR5thMIX,
            6 => DDRVersion::DDRMAX,
            7 => DDRVersion::DDRMAX2,
            8 => DDRVersion::DDREXTREME,
            9 => DDRVersion::DDRSuperNOVA,
            10 => DDRVersion::DDRSuperNOVA2,
            11 => DDRVersion::DDRX,
            12 => DDRVersion::DDRX2,
            13 => DDRVersion::DDRX3,
            14 => DDRVersion::DDR2013,
            15 => DDRVersion::DDR2014,
            16 => DDRVersion::DDRA,
            17 => DDRVersion::DDRA20,
            18 => DDRVersion::DDRA20Plus,
            _ => DDRVersion::UnknownVersion,
        }
    }
}

/// The nine per-difficulty ratings of a song, singles then doubles; 0 marks a
/// chart the song does not have.
#[derive(Debug, Copy, Clone, PartialEq)]
pub struct Difficulties(pub [u8; 9]);

impl Difficulties {
    /// Whether some singles chart has exactly this rating.
    pub fn contains_single(&self, difficulty: u8) -> (r: bool)
        ensures
            r == exists|i: int| 0 <= i < 5 && self.0@[i] == difficulty,
    {
        let mut i: usize = 0;
        while i < 5
            invariant
                i <= 5,
                forall|j: int| 0 <= j < i ==> self.0@[j] != difficulty,
            decreases 5 - i,
        {
            if self.0[i] == difficulty {
                return true;
            }
            i = i + 1;
        }
        false
    }

    /// Whether some doubles chart has exactly this rating.
    pub fn contains_doubles(&self, difficulty: u8) -> (r: bool)
        ensures
            r == exists|i: int| 5 <= i < 9 && self.0@[i] == difficulty,
    {
        let mut i: usize = 5;
        while i < 9
            invariant
                5 <= i <= 9,
                forall|j: int| 5 <= j < i ==> self.0@[j] != difficulty,
            decreases 9 - i,
        {
            if self.0[i] == difficulty {
                return true;
            }
            i = i + 1;
        }
        false
    }

    /// Returns true if the song has a challenge chart.
    pub fn has_challenge_chart(&self) -> (r: bool)
        ensures
            r == (self.0@[4] > 0),
    {
        self.0[4] > 0
    }

    /// Returns true if the song has charts that aren't challenge charts.
    pub fn has_non_challenge_charts(&self) -> (r: bool)
        ensures
            r == (self.0@[0] > 0),
    {
        self.0[0] > 0
    }

    /// The five singles ratings.
    pub fn single_difficulties(&self) -> (r: [u8; 5])
        ensures
            forall|i: int| 0 <= i < 5 ==> r@[i] == self.0@[i],
    {
        [self.0[0], self.0[1], self.0[2], self.0[3], self.0[4]]
    }

    /// The four doubles ratings.
    pub fn doubles_difficulties(&self) -> (r: [u8; 4])
        ensures
            forall|i: int| 0 <= i < 4 ==> r@[i] == self.0@[i + 5],
    {
        [self.0[5], self.0[6], self.0[7], self.0[8]]
    }
}

/// The per-difficulty lock conditions of a song (unlock events, leagues, and
/// the like), as Sanbai encodes them.
#[derive(Debug, Copy, Clone, PartialEq)]
pub struct LockTypes(pub [i32; 9]);

/// One song of the Sanbai catalog.
#[derive(Debug, Clone)]
pub struct SanbaiSong {
    pub song_id: SongId,
    pub song_name: String,
    pub alternate_name: Option<String>,
    pub romanized_name: Option<String>,
    pub searchable_name: Option<String>,
    pub version_num: DDRVersion,
    pub deleted: bool,
    pub ratings: Difficulties,
    pub lock_types: Option<LockTypes>,
}

impl SanbaiSong {
    /// The address of the song's 256x256 jacket image.
    pub fn get_jacket_url(&self) -> (r: String)
        ensures
            r@ == "https://3icecream.com/img/banners/f/"@ + id_chars(self.song_id.bytes)
                + ".jpg"@,
    {
        let mut url = String::from_str("https://3icecream.com/img/banners/f/");
        let id = self.song_id.to_string();
        url.append(id.as_str());
        url.append(".jpg");
        url
    }

    /// The address of the song's 120x120 jacket image.
    pub fn get_small_jacket_url(&self) -> (r: String)
        ensures
            r@ == "https://3icecream.com/img/banners/"@ + id_chars(self.song_id.bytes) + ".jpg"@,
    {
        let mut url = String::from_str("https://3icecream.com/img/banners/");
        let id = self.song_id.to_string();
        url.append(id.as_str());
        url.append(".jpg");
        url
    }

    /// Whether some singles chart has exactly this rating.
    pub fn has_sp_level(&self, level: u8) -> (r: bool)
        ensures
            r == exists|i: int| 0 <= i < 5 && self.ratings.0@[i] == level,
    {
        self.ratings.contains_single(level)
    }

    /// Whether some doubles chart has exactly this rating.
    pub fn has_dp_level(&self, level: u8) -> (r: bool)
        ensures
            r == exists|i: int| 5 <= i < 9 && self.ratings.0@[i] == level,
    {
        self.ratings.contains_doubles(level)
    }
}

/// One per-play score entry of the Sanbai score feed: a single difficulty of
/// a single song.
#[derive(Debug, Clone)]
pub struct SanbaiScoreEntry {
    pub song_id: SongId,
    pub difficulty: u8,
    pub score: u32,
    pub lamp: LampType,
    /// Observation time in seconds of the Unix epoch.
    pub time_played: u64,
}

/// Strips the fixed envelope of the Sanbai catalog payload: the script
/// prefix naming the data and the closing semicolon. What remains is the
/// catalog body, handed to the payload decoder.
pub fn strip_song_data_envelope<'a>(s: &'a str) -> (r: Result<&'a str, Error>)
    ensures
        match r {
            Ok(body) => s@.len() >= "var ALL_SONG_DATA="@.len() + 1 && s@ == "var ALL_SONG_DATA="@
                + body@ + ";"@,
            Err(e) => e matches Error::OtherParseError(_) && !(s@.len() >= "var ALL_SONG_DATA="@.len()
                + 1 && s@.take("var ALL_SONG_DATA="@.len() as int) =~= "var ALL_SONG_DATA="@
                && s@.last() == ';'),
        },
{
    let prefix = "var ALL_SONG_DATA=";
    let prefix_len = prefix.unicode_len();
    let len = s.unicode_len();
    if len <= prefix_len {
        return Err(Error::OtherParseError("missing `ALL_SONG_DATA` prefix"));
    }
    if !crate::text::match_at(s, prefix, 0, len, prefix_len) {
        proof {
            assert(s@.subrange(0, prefix@.len() as int) =~= s@.take(prefix@.len() as int));
        }
        return Err(Error::OtherParseError("missing `ALL_SONG_DATA` prefix"));
    }
    if s.get_char(len - 1) != ';' {
        return Err(Error::OtherParseError("missing `;` suffix"));
    }
    let body = s.substring_char(prefix_len, len - 1);
    proof {
        reveal_strlit(";");
        assert(s@.subrange(0, prefix@.len() as int) =~= s@.take(prefix@.len() as int));
        assert(";"@ =~= seq![s@.last()]);
        assert(s@ =~= s@.take(prefix@.len() as int) + body@ + ";"@);
    }
    Ok(body)
}

} // verus!

verus! {

/// The mathematical shape of a Sanbai record: every text field as its
/// character sequence.
pub struct SanbaiSongView {
    pub song_id: u128,
    pub song_name: Seq<char>,
    pub alternate_name: Option<Seq<char>>,
    pub romanized_name: Option<Seq<char>>,
    pub searchable_name: Option<Seq<char>>,
    pub version_num: DDRVersion,
    pub deleted: bool,
    pub ratings: Difficulties,
    pub lock_types: Option<LockTypes>,
}

impl View for SanbaiSong {
    type V = SanbaiSongView;

    open spec fn view(&self) -> SanbaiSongView {
        SanbaiSongView {
            song_id: self.song_id.bytes,
            song_name: self.song_name@,
            alternate_name: match self.alternate_name {
                Some(a) => Some(a@),
                None => None,
            },
            romanized_name: match self.romanized_name {
                Some(r) => Some(r@),
                None => None,
            },
            searchable_name: match self.searchable_name {
                Some(x) => Some(x@),
                None => None,
            },
            version_num: self.version_num,
            deleted: self.deleted,
            ratings: self.ratings,
            lock_types: self.lock_types,
        }
    }
}

} // verus!
