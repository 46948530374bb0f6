//! The canonical song representation: one entry per song of the reconciled
//! catalog, carrying the stable id, display and search names, an optional
//! link to the legacy service's local index, and the per-difficulty ratings.

mod song_id;

pub use song_id::SongId;
pub use song_id::SongIdParseError;
pub use song_id::id_chars;

use vstd::prelude::*;

verus! {

/// A song's tempo: either constant, or a range with a dominant value.
#[derive(Debug, Clone, Copy, PartialEq, Eq, Structural)]
pub enum Bpm {
    Constant(u16),
    Range { lower: u16, upper: u16, main: u16 },
}

impl Bpm {
    /// The dominant tempo of the song.
    pub fn get_main_bpm(&self) -> (r: u16)
        ensures
            r == match *self {
                Bpm::Constant(m) => m,
                Bpm::Range { main, .. } => main,
            },
    {
        match *self {
            Bpm::Constant(m) => m,
            Bpm::Range { main, .. } => main,
        }
    }
}

/// One chart of a song: five singles difficulties followed by four doubles
/// difficulties, in the order of the rating table's slots.
#[derive(Debug, Copy, Clone, PartialEq, Eq, Structural)]
pub enum Chart {
    GSP,
    BSP,
    DSP,
    ESP,
    CSP,
    BDP,
    DDP,
    EDP,
    CDP,
}

impl Chart {
    /// The chart's position in the rating table's slot order.
    pub open spec fn slot(self) -> int {
        match self {
            Chart::GSP => 0,
            Chart::BSP => 1,
            Chart::DSP => 2,
            Chart::ESP => 3,
            Chart::CSP => 4,
            Chart::BDP => 5,
            Chart::DDP => 6,
            Chart::EDP => 7,
            Chart::CDP => 8,
        }
    }

    /// Whether this is a challenge chart.
    pub fn is_challenge(&self) -> (r: bool)
        ensures
            r == (*self == Chart::CSP),
    {
        matches!(self, Chart::CSP)
    }

    /// Whether this is a doubles chart.
    pub fn is_doubles(&self) -> (r: bool)
        ensures
            r == (self.slot() > 4),
    {
        matches!(self, Chart::BDP | Chart::DDP | Chart::EDP | Chart::CDP)
    }

    /// The chart of the given slot index, if any.
    pub fn from_index(index: usize) -> (r: Option<Self>)
        ensures
            match r {
                Some(c) => c.slot() == index as int,
                None => index >= 9,
            },
    {
        Some(
            match index {
                0 => Self::GSP,
                1 => Self::BSP,
                2 => Self::DSP,
                3 => Self::ESP,
                4 => Self::CSP,
                5 => Self::BDP,
                6 => Self::DDP,
                7 => Self::EDP,
                8 => Self::CDP,
                _ => {
                    return None;
                },
            },
        )
    }
}

} // verus!

use crate::text::lower_of;
use crate::text::lowercase;
use crate::text::seq_le;
use crate::text::spec_normalize;
use crate::text::spec_split;
use crate::text::split_on;
use crate::text::str_le;
use crate::text::views_of;
use crate::website_backends::sanbai::SanbaiSong;
use crate::website_backends::sanbai::SanbaiSongView;
use crate::website_backends::sanbai::DDRVersion;
use crate::website_backends::sanbai::Difficulties;
use crate::website_backends::sanbai::LockTypes;
use crate::website_backends::skill_attack::SkillAttackIndex;
use crate::website_backends::skill_attack::SkillAttackSong;
use std::collections::HashMap;

verus! {

broadcast use vstd::std_specs::hash::group_hash_axioms;

/// One song of the reconciled canonical catalog.
#[derive(Debug, Clone)]
pub struct DDRSong {
    pub song_id: SongId,
    pub skill_attack_index: Option<SkillAttackIndex>,
    pub song_name: String,
    pub romanized_name: Option<String>,
    /// A list of all variations of the song name, all lowercase
    pub search_names: Vec<String>,
    pub version_num: DDRVersion,
    pub deleted: bool,
    pub ratings: Difficulties,
    /// Lock condition, i.e. Extra Savior, Golden League, Unlock Event, etc.
    pub lock_types: Option<LockTypes>,
}

/// The mathematical shape of a canonical song: every text field as its
/// character sequence.
pub struct DDRSongView {
    pub song_id: u128,
    pub skill_attack_index: Option<SkillAttackIndex>,
    pub song_name: Seq<char>,
    pub romanized_name: Option<Seq<char>>,
    pub search_names: Seq<Seq<char>>,
    pub version_num: DDRVersion,
    pub deleted: bool,
    pub ratings: Difficulties,
    pub lock_types: Option<LockTypes>,
}

impl View for DDRSong {
    type V = DDRSongView;

    open spec fn view(&self) -> DDRSongView {
        DDRSongView {
            song_id: self.song_id.bytes,
            skill_attack_index: self.skill_attack_index,
            song_name: self.song_name@,
            romanized_name: match self.romanized_name {
                Some(r) => Some(r@),
                None => None,
            },
            search_names: views_of(self.search_names@),
            version_num: self.version_num,
            deleted: self.deleted,
            ratings: self.ratings,
            lock_types: self.lock_types,
        }
    }
}

/// The lowercased search names a canonical song gets from its Sanbai record:
/// the display name, the romanized name when there is one, and every
/// slash-separated alternate and searchable name, in that order.
pub open spec fn spec_search_names(s: SanbaiSongView) -> Seq<Seq<char>> {
    seq![lower_of(s.song_name)] + (match s.romanized_name {
        Some(r) => seq![lower_of(r)],
        None => Seq::<Seq<char>>::empty(),
    }) + (match s.alternate_name {
        Some(a) => spec_split(a, '/').map_values(|p: Seq<char>| lower_of(p)),
        None => Seq::<Seq<char>>::empty(),
    }) + (match s.searchable_name {
        Some(x) => spec_split(x, '/').map_values(|p: Seq<char>| lower_of(p)),
        None => Seq::<Seq<char>>::empty(),
    })
}

/// The canonical song a Sanbai record turns into, when the reconciler links
/// it to the given secondary-service index.
pub open spec fn song_view_of(s: SanbaiSongView, idx: Option<SkillAttackIndex>) -> DDRSongView {
    DDRSongView {
        song_id: s.song_id,
        skill_attack_index: idx,
        song_name: s.song_name,
        romanized_name: s.romanized_name,
        search_names: spec_search_names(s),
        version_num: s.version_num,
        deleted: s.deleted,
        ratings: s.ratings,
        lock_types: s.lock_types,
    }
}

impl DDRSong {
    /// Builds the canonical song of one Sanbai record, linked to the given
    /// Skill Attack row when one matched.
    pub fn new_from_sanbai_and_skillattack(
        sanbai: &SanbaiSong,
        skill_attack: Option<&SkillAttackSong>,
    ) -> (r: Self)
        ensures
            r@ == song_view_of(
                sanbai@,
                match skill_attack {
                    Some(s) => Some(s.skill_attack_index),
                    None => None,
                },
            ),
    {
        let mut search_names: Vec<String> = Vec::new();
        search_names.push(lowercase(sanbai.song_name.as_str()));
        match &sanbai.romanized_name {
            Some(r) => {
                search_names.push(lowercase(r.as_str()));
            },
            None => {},
        }
        let ghost base = views_of(search_names@);
        proof {
            assert(base =~= seq![lower_of(sanbai@.song_name)] + (match sanbai@.romanized_name {
                Some(r) => seq![lower_of(r)],
                None => Seq::<Seq<char>>::empty(),
            }));
        }
        match &sanbai.alternate_name {
            Some(a) => {
                push_lowered_parts(&mut search_names, a.as_str());
            },
            None => {},
        }
        let ghost base2 = views_of(search_names@);
        proof {
            assert(base2 =~= base + (match sanbai@.alternate_name {
                Some(a) => spec_split(a, '/').map_values(|p: Seq<char>| lower_of(p)),
                None => Seq::<Seq<char>>::empty(),
            }));
        }
        match &sanbai.searchable_name {
            Some(x) => {
                push_lowered_parts(&mut search_names, x.as_str());
            },
            None => {},
        }
        proof {
            assert(views_of(search_names@) =~= spec_search_names(sanbai@));
        }
        let r = Self {
            song_id: sanbai.song_id,
            skill_attack_index: match skill_attack {
                Some(s) => Some(s.skill_attack_index),
                None => None,
            },
            song_name: sanbai.song_name.clone(),
            romanized_name: match &sanbai.romanized_name {
                Some(r) => Some(r.clone()),
                None => None,
            },
            search_names,
            version_num: sanbai.version_num,
            deleted: sanbai.deleted,
            ratings: sanbai.ratings,
            lock_types: sanbai.lock_types,
        };
        r
    }
}

/// Appends the lowercased slash-separated parts of a name list.
fn push_lowered_parts(out: &mut Vec<String>, names: &str)
    ensures
        views_of(final(out)@) =~= views_of(old(out)@) + spec_split(names@, '/').map_values(
            |p: Seq<char>| lower_of(p),
        ),
{
    let parts = split_on(names, '/');
    let mut k: usize = 0;
    while k < parts.len()
        invariant
            k <= parts@.len(),
            views_of(parts@) == spec_split(names@, '/'),
            views_of(out@) =~= views_of(old(out)@) + spec_split(names@, '/').map_values(
                |p: Seq<char>| lower_of(p),
            ).take(k as int),
        decreases parts@.len() - k,
    {
        let low = lowercase(parts[k].as_str());
        let ghost prev = out@;
        out.push(low);
        proof {
            assert(views_of(out@) =~= views_of(prev) + seq![low@]);
            assert(spec_split(names@, '/').map_values(|p: Seq<char>| lower_of(p)).take(
                k as int + 1,
            ) =~= spec_split(names@, '/').map_values(|p: Seq<char>| lower_of(p)).take(k as int)
                + seq![lower_of(parts@[k as int]@)]);
        }
        k = k + 1;
    }
    proof {
        let full = spec_split(names@, '/').map_values(|p: Seq<char>| lower_of(p));
        assert(full.take(parts@.len() as int) =~= full);
    }
}

} // verus!

verus! {

/// The secondary-service index attached to a song id by the id join: the
/// index of the last Skill Attack row carrying that id, or `None` when no row
/// does.
pub open spec fn sa_index_for(id: u128, sa: Seq<SkillAttackSong>) -> Option<SkillAttackIndex>
    decreases sa.len(),
{
    if sa.len() == 0 {
        None
    } else if sa.last().song_id.bytes == id {
        Some(sa.last().skill_attack_index)
    } else {
        sa_index_for(id, sa.drop_last())
    }
}

/// The catalog entries in the order of the Sanbai list, each linked by the id
/// join against the Skill Attack list.
pub open spec fn combined_views(sanbai: Seq<SanbaiSong>, sa: Seq<SkillAttackSong>) -> Seq<
    DDRSongView,
> {
    sanbai.map_values(|s: SanbaiSong| song_view_of(s@, sa_index_for(s.song_id.bytes, sa)))
}

/// Whether the songs stand in lexicographic order of their display names.
pub open spec fn sorted_by_name(s: Seq<DDRSong>) -> bool {
    forall|i: int, j: int| 0 <= i < j < s.len() ==> seq_le(s[i].song_name@, s[j].song_name@)
}

/// The views of a sequence of songs.
pub open spec fn song_views(s: Seq<DDRSong>) -> Seq<DDRSongView> {
    s.map_values(|d: DDRSong| d@)
}

/// Removing an element commutes with taking views.
proof fn lemma_song_views_remove(s: Seq<DDRSong>, i: int)
    requires
        0 <= i < s.len(),
    ensures
        song_views(s.remove(i)) =~= song_views(s).remove(i),
{
}

/// Moving one element to another position keeps the multiset of views.
proof fn lemma_move_preserves_multiset(s: Seq<DDRSong>, i: int, j: int)
    requires
        0 <= i < s.len(),
        0 <= j <= s.len() - 1,
    ensures
        song_views(s.remove(i).insert(j, s[i])).to_multiset() == song_views(s).to_multiset(),
{
    broadcast use vstd::seq_lib::group_to_multiset_ensures;
    broadcast use vstd::multiset::group_multiset_axioms;

    lemma_song_views_remove(s, i);
    let r = s.remove(i);
    lemma_song_views_insert(r, j, s[i]);
    let vs = song_views(s);
    assert(vs.remove(i).to_multiset() =~= vs.to_multiset().remove(vs[i]));
    let t = vs.remove(i).insert(j, vs[i]);
    assert(song_views(s.remove(i).insert(j, s[i])) =~= t);
    assert(t.remove(j).to_multiset() =~= t.to_multiset().remove(t[j]));
    assert(t.remove(j) =~= vs.remove(i));
    assert(t[j] == vs[i]);
    assert(t.contains(vs[i])) by {
        assert(t[j] == vs[i]);
    }
    assert(t.to_multiset().count(vs[i]) > 0);
    assert(vs.contains(vs[i])) by {
        assert(vs[i] == vs[i]);
    }
    assert(vs.to_multiset().count(vs[i]) > 0);
    assert(t.to_multiset() =~= vs.to_multiset()) by {
        assert forall|y: DDRSongView| t.to_multiset().count(y) == vs.to_multiset().count(y) by {
            if y == vs[i] {
                assert(t.to_multiset().remove(t[j]).count(y) + 1 == t.to_multiset().count(y));
                assert(vs.to_multiset().remove(vs[i]).count(y) + 1 == vs.to_multiset().count(y));
            } else {
                assert(t.to_multiset().remove(t[j]).count(y) == t.to_multiset().count(y));
                assert(vs.to_multiset().remove(vs[i]).count(y) == vs.to_multiset().count(y));
            }
        }
    }
}

/// Inserting an element commutes with taking views.
proof fn lemma_song_views_insert(s: Seq<DDRSong>, i: int, x: DDRSong)
    requires
        0 <= i <= s.len(),
    ensures
        song_views(s.insert(i, x)) =~= song_views(s).insert(i, x@),
{
    assert forall|j: int| 0 <= j < s.len() + 1 implies song_views(s.insert(i, x))[j] == song_views(
        s,
    ).insert(i, x@)[j] by {
        if j < i {
            assert(s.insert(i, x)[j] == s[j]);
        } else if j == i {
            assert(s.insert(i, x)[j] == x);
        } else {
            assert(s.insert(i, x)[j] == s[j - 1]);
        }
    }
}

/// Sorts the songs by display name, keeping exactly the same entries.
fn sort_songs_by_name(v: &mut Vec<DDRSong>)
    ensures
        final(v)@.len() == old(v)@.len(),
        sorted_by_name(final(v)@),
        song_views(final(v)@).to_multiset() == song_views(old(v)@).to_multiset(),
{
    broadcast use vstd::seq_lib::group_to_multiset_ensures;

    let ghost orig = song_views(old(v)@).to_multiset();
    let mut i: usize = 1;
    while i < v.len()
        invariant
            1 <= i || v@.len() == 0,
            i <= v@.len() || v@.len() == 0,
            v@.len() == old(v)@.len(),
            song_views(v@).to_multiset() == orig,
            forall|a: int, b: int| 0 <= a < b < i ==> seq_le(v@[a].song_name@, v@[b].song_name@),
        decreases v@.len() - i,
    {
        let ghost before = v@;
        let x = v.remove(i);
        let mut j: usize = 0;
        while j < i && str_le(v[j].song_name.as_str(), x.song_name.as_str())
            invariant
                j <= i,
                i < before.len(),
                v@ == before.remove(i as int),
                forall|k: int| 0 <= k < j ==> seq_le(v@[k].song_name@, x.song_name@),
            decreases i - j,
        {
            j = j + 1;
        }
        let ghost removed = v@;
        v.insert(j, x);
        proof {
            assert(v@ =~= before.remove(i as int).insert(j as int, before[i as int]));
            lemma_move_preserves_multiset(before, i as int, j as int);
            assert(song_views(v@).to_multiset() == orig);
            let n = v@;
            assert forall|a: int, b: int| 0 <= a < b < i + 1 implies seq_le(
                n[a].song_name@,
                n[b].song_name@,
            ) by {
                crate::text::lemma_seq_le_total(x.song_name@, removed[j as int].song_name@);
                if j < i {
                    assert(!seq_le(removed[j as int].song_name@, x.song_name@));
                }
                assert forall|k: int| j <= k < i implies seq_le(
                    x.song_name@,
                    removed[k].song_name@,
                ) by {
                    if j < i {
                        crate::text::lemma_seq_le_trans(
                            x.song_name@,
                            removed[j as int].song_name@,
                            removed[k].song_name@,
                        );
                    }
                }
                if b < j {
                    assert(n[a] == removed[a] && n[b] == removed[b]);
                } else if b == j {
                    assert(n[b] == x);
                    assert(n[a] == removed[a]);
                } else {
                    assert(n[b] == removed[b - 1]);
                    if a < j {
                        assert(n[a] == removed[a]);
                        if b - 1 < j {
                            assert(seq_le(n[a].song_name@, n[b].song_name@));
                        } else {
                            crate::text::lemma_seq_le_trans(
                                removed[a].song_name@,
                                x.song_name@,
                                removed[b - 1].song_name@,
                            );
                        }
                    } else if a == j {
                        assert(n[a] == x);
                    } else {
                        assert(n[a] == removed[a - 1]);
                    }
                }
            }
        }
        i = i + 1;
    }
}

impl DDRSong {
    /// Builds the canonical catalog by the id join: one entry per Sanbai
    /// song, linked to the Skill Attack row with the same stable id where one
    /// exists, and sorted by display name for determinism. Skill Attack rows
    /// without a Sanbai counterpart are dropped: they are entries retired so
    /// long ago that the authoritative catalog no longer lists them.
    pub fn from_combining_song_lists(
        sanbai_songs: &Vec<SanbaiSong>,
        skill_attack_songs: &Vec<SkillAttackSong>,
    ) -> (out: Vec<DDRSong>)
        ensures
            out@.len() == sanbai_songs@.len(),
            sorted_by_name(out@),
            song_views(out@).to_multiset() == combined_views(
                sanbai_songs@,
                skill_attack_songs@,
            ).to_multiset(),
    {
        let mut index: HashMap<u128, SkillAttackIndex> = HashMap::new();
        let mut i: usize = 0;
        proof {
            assert(skill_attack_songs@.take(0).len() == 0);
        }
        while i < skill_attack_songs.len()
            invariant
                i <= skill_attack_songs@.len(),
                forall|id: u128| #[trigger]
                    index@.contains_key(id) <==> sa_index_for(
                        id,
                        skill_attack_songs@.take(i as int),
                    ) is Some,
                forall|id: u128| #[trigger]
                    index@.contains_key(id) ==> Some(index@[id]) == sa_index_for(
                        id,
                        skill_attack_songs@.take(i as int),
                    ),
            decreases skill_attack_songs@.len() - i,
        {
            let song = &skill_attack_songs[i];
            index.insert(song.song_id.packed(), song.skill_attack_index);
            proof {
                let pre = skill_attack_songs@.take(i as int);
                let post = skill_attack_songs@.take(i as int + 1);
                assert(post.drop_last() =~= pre);
                assert(post.last() == skill_attack_songs@[i as int]);
            }
            i = i + 1;
        }
        proof {
            assert(skill_attack_songs@.take(skill_attack_songs@.len() as int)
                =~= skill_attack_songs@);
        }
        let mut out: Vec<DDRSong> = Vec::new();
        let mut k: usize = 0;
        while k < sanbai_songs.len()
            invariant
                k <= sanbai_songs@.len(),
                forall|id: u128| #[trigger]
                    index@.contains_key(id) <==> sa_index_for(id, skill_attack_songs@) is Some,
                forall|id: u128| #[trigger]
                    index@.contains_key(id) ==> Some(index@[id]) == sa_index_for(
                        id,
                        skill_attack_songs@,
                    ),
                song_views(out@) =~= combined_views(sanbai_songs@, skill_attack_songs@).take(
                    k as int,
                ),
            decreases sanbai_songs@.len() - k,
        {
            let s = &sanbai_songs[k];
            let idx: Option<SkillAttackIndex> = match index.get(&s.song_id.packed()) {
                Some(v) => Some(*v),
                None => None,
            };
            proof {
                assert(idx == sa_index_for(s.song_id.bytes, skill_attack_songs@));
            }
            let mut song = DDRSong::new_from_sanbai_and_skillattack(s, None);
            song.skill_attack_index = idx;
            let ghost prev = out@;
            out.push(song);
            proof {
                assert(song_views(out@) =~= song_views(prev) + seq![song@]);
                assert(combined_views(sanbai_songs@, skill_attack_songs@).take(k as int + 1)
                    =~= combined_views(sanbai_songs@, skill_attack_songs@).take(k as int) + seq![
                    combined_views(sanbai_songs@, skill_attack_songs@)[k as int]
                ]);
            }
            k = k + 1;
        }
        proof {
            assert(combined_views(sanbai_songs@, skill_attack_songs@).take(
                sanbai_songs@.len() as int,
            ) =~= combined_views(sanbai_songs@, skill_attack_songs@));
        }
        sort_songs_by_name(&mut out);
        out
    }
}

} // verus!

use crate::score_websites::skill_attack::SkillAttackSong as TitleOnlySong;
use crate::text::normalize_title;

verus! {

/// The join key of a title: its normalization under the fixed fold,
/// case-folded, so that the two services' small spelling differences are
/// ignored.
pub open spec fn spec_title_key(title: Seq<char>) -> Seq<char> {
    lower_of(spec_normalize(title))
}

/// The join key of a title.
pub fn title_key(title: &str) -> (r: String)
    ensures
        r@ == spec_title_key(title@),
{
    let normalized = normalize_title(title);
    lowercase(normalized.as_str())
}

/// The secondary index the title join attaches to a key: the index of the
/// first secondary row whose normalized title equals it, or `None` when no
/// row matches. On duplicate normalized titles the first row wins.
pub open spec fn title_index_for(key: Seq<char>, legacy: Seq<TitleOnlySong>) -> Option<
    SkillAttackIndex,
>
    decreases legacy.len(),
{
    if legacy.len() == 0 {
        None
    } else if spec_title_key(legacy[0].song_name@) == key {
        Some(legacy[0].skill_attack_index)
    } else {
        title_index_for(key, legacy.drop_first())
    }
}

/// The title join's result is pinned by the keys: no earlier row matches, and
/// the row found, if any, does.
proof fn lemma_title_index_is(legacy: Seq<TitleOnlySong>, key: Seq<char>, k: int)
    requires
        0 <= k <= legacy.len(),
        forall|j: int| 0 <= j < k ==> spec_title_key(legacy[j].song_name@) != key,
        k < legacy.len() ==> spec_title_key(legacy[k].song_name@) == key,
    ensures
        k < legacy.len() ==> title_index_for(key, legacy) == Some(
            legacy[k].skill_attack_index,
        ),
        k == legacy.len() ==> title_index_for(key, legacy) is None,
    decreases k, legacy.len(),
{
    if k == 0 {
    } else {
        assert(spec_title_key(legacy[0].song_name@) != key);
        lemma_title_index_is(legacy.drop_first(), key, k - 1);
    }
}

/// The catalog entries in the order of the Sanbai list, each linked by the
/// normalized-title join against the title-keyed secondary list.
pub open spec fn reconciled_views(sanbai: Seq<SanbaiSong>, legacy: Seq<TitleOnlySong>) -> Seq<
    DDRSongView,
> {
    sanbai.map_values(
        |s: SanbaiSong|
            song_view_of(s@, title_index_for(spec_title_key(s.song_name@), legacy)),
    )
}

impl DDRSong {
    /// Reconciles the primary catalog against a secondary list that carries
    /// only local indices and free-text titles, by normalized-title equality:
    /// every primary record becomes exactly one canonical song; a secondary
    /// row whose normalized title equals a primary title lends that song its
    /// local index; secondary-only rows are dropped. On duplicate normalized
    /// titles the first secondary row wins. The result is sorted by display
    /// name for determinism.
    pub fn from_reconciling_by_title(
        sanbai_songs: &Vec<SanbaiSong>,
        legacy_songs: &Vec<TitleOnlySong>,
    ) -> (out: Vec<DDRSong>)
        ensures
            out@.len() == sanbai_songs@.len(),
            sorted_by_name(out@),
            song_views(out@).to_multiset() == reconciled_views(
                sanbai_songs@,
                legacy_songs@,
            ).to_multiset(),
    {
        let mut keys: Vec<String> = Vec::new();
        let mut i: usize = 0;
        while i < legacy_songs.len()
            invariant
                i <= legacy_songs@.len(),
                keys@.len() == i,
                forall|j: int|
                    0 <= j < i ==> keys@[j]@ == spec_title_key(legacy_songs@[j].song_name@),
            decreases legacy_songs@.len() - i,
        {
            keys.push(title_key(legacy_songs[i].song_name.as_str()));
            i = i + 1;
        }
        let mut out: Vec<DDRSong> = Vec::new();
        let mut k: usize = 0;
        while k < sanbai_songs.len()
            invariant
                k <= sanbai_songs@.len(),
                keys@.len() == legacy_songs@.len(),
                forall|j: int|
                    0 <= j < keys@.len() ==> keys@[j]@ == spec_title_key(
                        legacy_songs@[j].song_name@,
                    ),
                song_views(out@) =~= reconciled_views(sanbai_songs@, legacy_songs@).take(k as int),
            decreases sanbai_songs@.len() - k,
        {
            let s = &sanbai_songs[k];
            let skey = title_key(s.song_name.as_str());
            let mut idx: Option<SkillAttackIndex> = None;
            let mut m: usize = 0;
            while m < legacy_songs.len()
                invariant_except_break
                    idx is None,
                invariant
                    m <= legacy_songs@.len(),
                    keys@.len() == legacy_songs@.len(),
                    skey@ == spec_title_key(s.song_name@),
                    forall|j: int|
                        0 <= j < keys@.len() ==> keys@[j]@ == spec_title_key(
                            legacy_songs@[j].song_name@,
                        ),
                    forall|j: int|
                        0 <= j < m ==> spec_title_key(legacy_songs@[j].song_name@) != skey@,
                ensures
                    match idx {
                        Some(v) => m < legacy_songs@.len() && spec_title_key(
                            legacy_songs@[m as int].song_name@,
                        ) == skey@ && v == legacy_songs@[m as int].skill_attack_index && forall|
                            j: int,
                        |
                            0 <= j < m ==> spec_title_key(legacy_songs@[j].song_name@) != skey@,
                        None => m == legacy_songs@.len() && forall|j: int|
                            0 <= j < m ==> spec_title_key(legacy_songs@[j].song_name@) != skey@,
                    },
                decreases legacy_songs@.len() - m,
            {
                if skey == keys[m] {
                    idx = Some(legacy_songs[m].skill_attack_index);
                    break;
                }
                m = m + 1;
            }
            proof {
                match idx {
                    Some(v) => {
                        lemma_title_index_is(legacy_songs@, skey@, m as int);
                    },
                    None => {
                        lemma_title_index_is(legacy_songs@, skey@, legacy_songs@.len() as int);
                    },
                }
                assert(idx == title_index_for(spec_title_key(s.song_name@), legacy_songs@));
            }
            let mut song = DDRSong::new_from_sanbai_and_skillattack(s, None);
            song.skill_attack_index = idx;
            let ghost prev = out@;
            out.push(song);
            proof {
                assert(song_views(out@) =~= song_views(prev) + seq![song@]);
                assert(reconciled_views(sanbai_songs@, legacy_songs@).take(k as int + 1)
                    =~= reconciled_views(sanbai_songs@, legacy_songs@).take(k as int) + seq![
                    reconciled_views(sanbai_songs@, legacy_songs@)[k as int]
                ]);
            }
            k = k + 1;
        }
        proof {
            assert(reconciled_views(sanbai_songs@, legacy_songs@).take(sanbai_songs@.len() as int)
                =~= reconciled_views(sanbai_songs@, legacy_songs@));
        }
        sort_songs_by_name(&mut out);
        out
    }
}

} // verus!
