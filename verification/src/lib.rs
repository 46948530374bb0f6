//! Aggregates player performance records for a rhythm game from two
//! score-tracking services and exposes a single reconciled view: a canonical
//! song catalog and, per player, a merged score table keyed to that catalog.
//!
//! The fetch collaborators live with the caller; this library holds the
//! catalog reconciliation, the monotonic score merge, the attribution of
//! secondary-service scores to canonical ids, and the decision logic of one
//! update run.

/// Things related to a course in DDR
pub mod courses;
/// DDR song representation and the canonical catalog built from both services
pub mod ddr_song;
/// Error enum
pub mod error;
/// Title-keyed records of the secondary service, as the title join sees them
pub mod score_websites;
/// Structures and methods related to storing the scores of players
pub mod scores;
/// Utilities to search the song list for a specific song
pub mod search;
/// Character-level text helpers shared by the catalog and search logic
pub mod text;
/// The typed records of the two score services
pub mod website_backends;

use crate::ddr_song::DDRSong;
use crate::ddr_song::combined_views;
use crate::ddr_song::song_view_of;
use crate::ddr_song::song_views;
use crate::ddr_song::sorted_by_name;
use crate::scores::Player;
use crate::scores::Scores;
use crate::scores::spec_merge_table;
use crate::scores::spec_sanbai_slot_update;
use crate::scores::spec_table_with_slot;
use crate::scores::spec_update_count;
use crate::website_backends::sanbai::SanbaiScoreEntry;
use crate::website_backends::sanbai::SanbaiSong;
use crate::website_backends::skill_attack::SkillAttackIndex;
use crate::website_backends::skill_attack::SkillAttackScores;
use crate::website_backends::skill_attack::SkillAttackSong;
use vstd::prelude::*;

verus! {

broadcast use vstd::std_specs::hash::group_hash_axioms;

/// The table stored for a song, or the empty table when none is stored yet.
pub open spec fn scores_or_empty(m: Map<u128, Scores>, id: u128) -> Scores {
    if m.contains_key(id) {
        m[id]
    } else {
        Scores::spec_empty()
    }
}

/// One step of score attribution: if the song is linked to a secondary index
/// and the batch has a table for that index, the table is merged into the
/// player's entry for the song's canonical id; otherwise nothing changes.
pub open spec fn apply_sa_step(
    m: Map<u128, Scores>,
    song: ddr_song::DDRSong,
    sa: Map<SkillAttackIndex, Scores>,
) -> Map<u128, Scores> {
    match song.skill_attack_index {
        Some(idx) => if sa.contains_key(idx) {
            m.insert(
                song.song_id.bytes,
                spec_merge_table(scores_or_empty(m, song.song_id.bytes), sa[idx]),
            )
        } else {
            m
        },
        None => m,
    }
}

/// How many slots one attribution step changes.
pub open spec fn apply_sa_step_count(
    m: Map<u128, Scores>,
    song: ddr_song::DDRSong,
    sa: Map<SkillAttackIndex, Scores>,
) -> int {
    match song.skill_attack_index {
        Some(idx) => if sa.contains_key(idx) {
            spec_update_count(
                scores_or_empty(m, song.song_id.bytes).slots(),
                sa[idx].slots(),
                9,
            )
        } else {
            0
        },
        None => 0,
    }
}

/// Score attribution of one batch over the whole catalog, song by song in
/// catalog order. Observations whose secondary index no catalog song carries
/// are dropped without effect.
pub open spec fn apply_sa_map(
    m: Map<u128, Scores>,
    songs: Seq<ddr_song::DDRSong>,
    sa: Map<SkillAttackIndex, Scores>,
) -> Map<u128, Scores>
    decreases songs.len(),
{
    if songs.len() == 0 {
        m
    } else {
        apply_sa_step(apply_sa_map(m, songs.drop_last(), sa), songs.last(), sa)
    }
}

/// The total number of slots the attribution of one batch changes.
pub open spec fn apply_sa_count(
    m: Map<u128, Scores>,
    songs: Seq<ddr_song::DDRSong>,
    sa: Map<SkillAttackIndex, Scores>,
) -> int
    decreases songs.len(),
{
    if songs.len() == 0 {
        0
    } else {
        apply_sa_count(m, songs.drop_last(), sa) + apply_sa_step_count(
            apply_sa_map(m, songs.drop_last(), sa),
            songs.last(),
            sa,
        )
    }
}

/// Law: attributing a batch whose local indices no catalog song carries
/// leaves the player's score map untouched and changes no slot.
pub proof fn lemma_attribution_drops_unknown(
    m: Map<u128, Scores>,
    songs: Seq<ddr_song::DDRSong>,
    sa: Map<SkillAttackIndex, Scores>,
)
    requires
        forall|i: int|
            0 <= i < songs.len() ==> match (#[trigger] songs[i]).skill_attack_index {
                Some(idx) => !sa.contains_key(idx),
                None => true,
            },
    ensures
        apply_sa_map(m, songs, sa) == m,
        apply_sa_count(m, songs, sa) == 0,
    decreases songs.len(),
{
    if songs.len() == 0 {
    } else {
        assert forall|i: int|
            0 <= i < songs.drop_last().len() implies match (#[trigger] songs.drop_last()[
        i]).skill_attack_index {
            Some(idx) => !sa.contains_key(idx),
            None => true,
        } by {
            assert(songs.drop_last()[i] == songs[i]);
        }
        lemma_attribution_drops_unknown(m, songs.drop_last(), sa);
        assert(songs.last() == songs[songs.len() - 1]);
    }
}

/// Attributes one batch of secondary-service scores to a player: for every
/// catalog song linked to a secondary index with a table in the batch, merges
/// that table into the player's entry for the song's canonical id. A table
/// keyed to an index no catalog song carries is dropped, without error and
/// without touching the player. Returns the number of changed slots.
pub fn process_skill_attack_score(
    player: &mut Player,
    sa_scores: &SkillAttackScores,
    songs: &Vec<DDRSong>,
) -> (num_new_scores: usize)
    requires
        songs@.len() * 9 <= usize::MAX,
    ensures
        final(player).name == old(player).name,
        final(player).ddr_code == old(player).ddr_code,
        final(player).sanbai_username == old(player).sanbai_username,
        final(player).scores@ == apply_sa_map(old(player).scores@, songs@, sa_scores@),
        num_new_scores as int == apply_sa_count(old(player).scores@, songs@, sa_scores@),
{
    let mut num_new_scores: usize = 0;
    let mut i: usize = 0;
    proof {
        assert(songs@.take(0).len() == 0);
    }
    while i < songs.len()
        invariant
            i <= songs@.len(),
            songs@.len() * 9 <= usize::MAX,
            num_new_scores <= i * 9,
            player.name == old(player).name,
            player.ddr_code == old(player).ddr_code,
            player.sanbai_username == old(player).sanbai_username,
            player.scores@ == apply_sa_map(old(player).scores@, songs@.take(i as int), sa_scores@),
            num_new_scores as int == apply_sa_count(
                old(player).scores@,
                songs@.take(i as int),
                sa_scores@,
            ),
        decreases songs@.len() - i,
    {
        let song = &songs[i];
        proof {
            assert(songs@.take(i as int + 1).drop_last() =~= songs@.take(i as int));
            assert(songs@.take(i as int + 1).last() == songs@[i as int]);
            assert(i * 9 + 9 <= songs@.len() * 9) by (nonlinear_arith)
                requires
                    i < songs@.len(),
            ;
        }
        match song.skill_attack_index {
            Some(idx) => {
                match sa_scores.get(&idx) {
                    Some(new_score) => {
                        let id = song.song_id.packed();
                        let mut table: Scores = match player.scores.get(&id) {
                            Some(t) => *t,
                            None => Scores::empty(),
                        };
                        let n = table.update(new_score);
                        player.scores.insert(id, table);
                        num_new_scores = num_new_scores + n;
                    },
                    None => {},
                }
            },
            None => {},
        }
        i = i + 1;
    }
    proof {
        assert(songs@.take(songs@.len() as int) =~= songs@);
    }
    num_new_scores
}

/// One Sanbai score entry landing in a player's map: the slot of its
/// difficulty is updated in the table of its song, a missing table starting
/// empty.
pub open spec fn apply_sanbai_entry(m: Map<u128, Scores>, e: SanbaiScoreEntry) -> Map<
    u128,
    Scores,
> {
    let cur = scores_or_empty(m, e.song_id.bytes);
    m.insert(
        e.song_id.bytes,
        spec_table_with_slot(
            cur,
            e.difficulty as int,
            spec_sanbai_slot_update(
                cur.slots()[e.difficulty as int],
                e.score,
                e.lamp,
                e.time_played,
            ),
        ),
    )
}

/// Whether one Sanbai score entry changes the stored slot.
pub open spec fn sanbai_entry_changes(m: Map<u128, Scores>, e: SanbaiScoreEntry) -> bool {
    let cur = scores_or_empty(m, e.song_id.bytes);
    spec_sanbai_slot_update(cur.slots()[e.difficulty as int], e.score, e.lamp, e.time_played)
        != cur.slots()[e.difficulty as int]
}

/// A whole batch of Sanbai score entries landing in a player's map, in order.
pub open spec fn apply_sanbai_entries(m: Map<u128, Scores>, es: Seq<SanbaiScoreEntry>) -> Map<
    u128,
    Scores,
>
    decreases es.len(),
{
    if es.len() == 0 {
        m
    } else {
        apply_sanbai_entry(apply_sanbai_entries(m, es.drop_last()), es.last())
    }
}

/// How many of the batch's entries change their stored slot.
pub open spec fn apply_sanbai_count(m: Map<u128, Scores>, es: Seq<SanbaiScoreEntry>) -> int
    decreases es.len(),
{
    if es.len() == 0 {
        0
    } else {
        apply_sanbai_count(m, es.drop_last()) + if sanbai_entry_changes(
            apply_sanbai_entries(m, es.drop_last()),
            es.last(),
        ) {
            1int
        } else {
            0int
        }
    }
}

/// Merges one batch of Sanbai score entries into a player, entry by entry,
/// taking the max of score and lamp per difficulty. Returns how many entries
/// changed their stored slot.
pub fn apply_sanbai_scores(player: &mut Player, entries: &Vec<SanbaiScoreEntry>) -> (num_new:
    usize)
    requires
        forall|i: int| 0 <= i < entries@.len() ==> (#[trigger] entries@[i]).difficulty < 9,
    ensures
        final(player).name == old(player).name,
        final(player).ddr_code == old(player).ddr_code,
        final(player).sanbai_username == old(player).sanbai_username,
        final(player).scores@ == apply_sanbai_entries(old(player).scores@, entries@),
        num_new as int == apply_sanbai_count(old(player).scores@, entries@),
        num_new <= entries@.len(),
{
    let mut num_new: usize = 0;
    let mut i: usize = 0;
    proof {
        assert(entries@.take(0).len() == 0);
    }
    while i < entries.len()
        invariant
            i <= entries@.len(),
            num_new <= i,
            forall|j: int| 0 <= j < entries@.len() ==> (#[trigger] entries@[j]).difficulty < 9,
            player.name == old(player).name,
            player.ddr_code == old(player).ddr_code,
            player.sanbai_username == old(player).sanbai_username,
            player.scores@ == apply_sanbai_entries(old(player).scores@, entries@.take(i as int)),
            num_new as int == apply_sanbai_count(old(player).scores@, entries@.take(i as int)),
        decreases entries@.len() - i,
    {
        let e = &entries[i];
        proof {
            assert(entries@.take(i as int + 1).drop_last() =~= entries@.take(i as int));
            assert(entries@.take(i as int + 1).last() == entries@[i as int]);
        }
        let id = e.song_id.packed();
        let mut table: Scores = match player.scores.get(&id) {
            Some(t) => *t,
            None => Scores::empty(),
        };
        let changed = table.update_from_sanbai_score_entry(e);
        player.scores.insert(id, table);
        if changed {
            num_new = num_new + 1;
        }
        i = i + 1;
    }
    proof {
        assert(entries@.take(entries@.len() as int) =~= entries@);
    }
    num_new
}

/// Addition clipped at the top of `usize`, for the run's telemetry counters.
pub open spec fn sat_add_spec(a: int, b: int) -> int {
    if a + b > usize::MAX {
        usize::MAX as int
    } else {
        a + b
    }
}

/// Adds two counters, clipping at the top of `usize`.
pub fn sat_add(a: usize, b: usize) -> (r: usize)
    ensures
        r as int == sat_add_spec(a as int, b as int),
{
    if b > usize::MAX - a {
        usize::MAX
    } else {
        a + b
    }
}

/// The main struct of this crate: the reconciled song catalog and the players
/// with their merged score tables.
#[derive(Debug)]
pub struct DDRDatabase {
    pub songs: Vec<DDRSong>,
    pub players: Vec<Player>,
}

/// The catalog entries a primary-only build produces: one per Sanbai song, in
/// Sanbai order, all without a secondary link.
pub open spec fn sanbai_only_views(sanbai: Seq<SanbaiSong>) -> Seq<ddr_song::DDRSongView> {
    sanbai.map_values(|s: SanbaiSong| song_view_of(s@, None))
}

impl DDRDatabase {
    /// Creates a database with an empty catalog for the given roster; catalog
    /// and scores arrive through an update run.
    pub fn new(players: Vec<Player>) -> (db: Self)
        ensures
            db.songs@.len() == 0,
            db.players@ == players@,
    {
        DDRDatabase { songs: Vec::new(), players }
    }

    /// A list of all the songs.
    pub fn song_list(&self) -> (r: &[DDRSong])
        ensures
            r@ == self.songs@,
    {
        self.songs.as_slice()
    }

    /// A list of the users.
    pub fn players(&self) -> (r: &[Player])
        ensures
            r@ == self.players@,
    {
        self.players.as_slice()
    }
}

} // verus!

verus! {

/// The score maps of a roster, one per player.
pub open spec fn player_maps(ps: Seq<Player>) -> Seq<Map<u128, Scores>> {
    ps.map_values(|p: Player| p.scores@)
}

/// The buffered secondary-score batches, as player index and table map.
pub open spec fn batch_views(bs: Seq<(usize, SkillAttackScores)>) -> Seq<
    (usize, Map<SkillAttackIndex, Scores>),
> {
    bs.map_values(|b: (usize, SkillAttackScores)| (b.0, b.1@))
}

/// Draining buffered batches into the roster's score maps, last buffered
/// first, as the run drains its queue.
pub open spec fn drain_maps(
    ms: Seq<Map<u128, Scores>>,
    bs: Seq<(usize, Map<SkillAttackIndex, Scores>)>,
    songs: Seq<DDRSong>,
) -> Seq<Map<u128, Scores>>
    decreases bs.len(),
{
    if bs.len() == 0 {
        ms
    } else {
        let b = bs.last();
        let after = if (b.0 as int) < ms.len() {
            ms.update(b.0 as int, apply_sa_map(ms[b.0 as int], songs, b.1))
        } else {
            ms
        };
        drain_maps(after, bs.drop_last(), songs)
    }
}

/// The changed-slot counter after draining the buffered batches, clipped at
/// the top of `usize` as the run's telemetry is.
pub open spec fn drain_counter(
    c: int,
    ms: Seq<Map<u128, Scores>>,
    bs: Seq<(usize, Map<SkillAttackIndex, Scores>)>,
    songs: Seq<DDRSong>,
) -> int
    decreases bs.len(),
{
    if bs.len() == 0 {
        c
    } else {
        let b = bs.last();
        if (b.0 as int) < ms.len() {
            let c2 = sat_add_spec(c, apply_sa_count(ms[b.0 as int], songs, b.1));
            let after = ms.update(b.0 as int, apply_sa_map(ms[b.0 as int], songs, b.1));
            drain_counter(c2, after, bs.drop_last(), songs)
        } else {
            drain_counter(c, ms, bs.drop_last(), songs)
        }
    }
}

/// One update run over a database: the primary catalog fetched at the start,
/// the flags of the one load-bearing dependency (secondary scores wait for
/// the reconciled catalog), the buffer of early secondary-score batches, and
/// the run's telemetry counters.
#[derive(Debug)]
pub struct UpdateRun {
    sanbai_songs: Vec<SanbaiSong>,
    catalog_combined: bool,
    skill_attack_skipped: bool,
    pending: Vec<(usize, SkillAttackScores)>,
    num_new_songs: usize,
    num_new_scores: usize,
}

impl UpdateRun {
    /// Every buffered batch points at a player of the database.
    pub closed spec fn wf(self, db: DDRDatabase) -> bool {
        forall|i: int|
            0 <= i < self.pending@.len() ==> (#[trigger] self.pending@[i]).0 < db.players@.len()
    }

    /// The primary catalog of this run.
    pub closed spec fn spec_sanbai_songs(self) -> Seq<SanbaiSong> {
        self.sanbai_songs@
    }

    /// Whether the reconciled catalog is in place.
    pub closed spec fn spec_catalog_combined(self) -> bool {
        self.catalog_combined
    }

    /// Whether the secondary service was given up for this run.
    pub closed spec fn spec_skill_attack_skipped(self) -> bool {
        self.skill_attack_skipped
    }

    /// The buffered secondary-score batches.
    pub closed spec fn spec_pending(self) -> Seq<(usize, SkillAttackScores)> {
        self.pending@
    }

    /// The run's telemetry counters.
    pub closed spec fn spec_counts(self) -> (int, int) {
        (self.num_new_songs as int, self.num_new_scores as int)
    }

    /// Starts a run from the fetched primary catalog. A run only exists once
    /// the primary catalog is in hand: a failed primary fetch is fatal to the
    /// run and never reaches this type.
    pub fn new(sanbai_songs: Vec<SanbaiSong>) -> (r: Self)
        ensures
            r.spec_sanbai_songs() == sanbai_songs@,
            !r.spec_catalog_combined(),
            !r.spec_skill_attack_skipped(),
            r.spec_pending().len() == 0,
            r.spec_counts() == (0int, 0int),
    {
        UpdateRun {
            sanbai_songs,
            catalog_combined: false,
            skill_attack_skipped: false,
            pending: Vec::new(),
            num_new_songs: 0,
            num_new_scores: 0,
        }
    }

    /// The run's telemetry: how many catalog entries the run added, and how
    /// many score slots it changed (clipped at the top of `usize`). Both are
    /// a function of arrival order: best-effort telemetry, not stable under
    /// retries.
    pub fn counts(&self) -> (r: (usize, usize))
        ensures
            (r.0 as int, r.1 as int) == self.spec_counts(),
    {
        (self.num_new_songs, self.num_new_scores)
    }

    /// Whether the secondary service was given up for this run; once set, no
    /// more secondary fetches need be awaited.
    pub fn gave_up_skill_attack(&self) -> (r: bool)
        ensures
            r == self.spec_skill_attack_skipped(),
    {
        self.skill_attack_skipped
    }

    /// The secondary catalog fetch finished. On success the catalog is
    /// reconciled with the primary list by the id join, the new-song counter
    /// is set, and every buffered secondary-score batch is attributed and
    /// merged. On failure the run degrades instead of failing: the catalog is
    /// rebuilt from the primary list alone, every buffered batch is
    /// discarded, later secondary batches will be too, and the run still
    /// completes with a valid database.
    pub fn secondary_catalog_arrived(
        &mut self,
        db: &mut DDRDatabase,
        fetched: Option<Vec<SkillAttackSong>>,
    )
        requires
            old(self).wf(*old(db)),
            old(self).spec_sanbai_songs().len() * 9 <= usize::MAX,
            !old(self).spec_catalog_combined(),
            !old(self).spec_skill_attack_skipped(),
        ensures
            final(db).players@.len() == old(db).players@.len(),
            forall|p: int|
                0 <= p < old(db).players@.len() ==> {
                    &&& (#[trigger] final(db).players@[p]).name == old(db).players@[p].name
                    &&& final(db).players@[p].ddr_code == old(db).players@[p].ddr_code
                    &&& final(db).players@[p].sanbai_username == old(
                        db,
                    ).players@[p].sanbai_username
                },
            final(self).spec_sanbai_songs() == old(self).spec_sanbai_songs(),
            final(self).spec_pending().len() == 0,
            sorted_by_name(final(db).songs@),
            final(db).songs@.len() == old(self).spec_sanbai_songs().len(),
            match fetched {
                None => {
                    &&& final(db).players@ == old(db).players@
                    &&& song_views(final(db).songs@).to_multiset() == sanbai_only_views(
                        old(self).spec_sanbai_songs(),
                    ).to_multiset()
                    &&& forall|i: int|
                        0 <= i < final(db).songs@.len()
                            ==> (#[trigger] final(db).songs@[i]).skill_attack_index is None
                    &&& final(self).spec_skill_attack_skipped()
                    &&& !final(self).spec_catalog_combined()
                    &&& final(self).spec_counts() == old(self).spec_counts()
                },
                Some(sa) => {
                    &&& song_views(final(db).songs@).to_multiset() == combined_views(
                        old(self).spec_sanbai_songs(),
                        sa@,
                    ).to_multiset()
                    &&& final(self).spec_catalog_combined()
                    &&& !final(self).spec_skill_attack_skipped()
                    &&& final(self).spec_counts().0 == (if old(self).spec_sanbai_songs().len()
                        >= old(db).songs@.len() {
                        old(self).spec_sanbai_songs().len() - old(db).songs@.len()
                    } else {
                        0int
                    })
                    &&& player_maps(final(db).players@) == drain_maps(
                        player_maps(old(db).players@),
                        batch_views(old(self).spec_pending()),
                        final(db).songs@,
                    )
                    &&& final(self).spec_counts().1 == drain_counter(
                        old(self).spec_counts().1,
                        player_maps(old(db).players@),
                        batch_views(old(self).spec_pending()),
                        final(db).songs@,
                    )
                },
            },
    {
        match fetched {
            None => {
                let empty_sa: Vec<SkillAttackSong> = Vec::new();
                let new_list = DDRSong::from_combining_song_lists(&self.sanbai_songs, &empty_sa);
                proof {
                    broadcast use vstd::seq_lib::group_to_multiset_ensures;

                    assert(combined_views(self.sanbai_songs@, empty_sa@) =~= sanbai_only_views(
                        self.sanbai_songs@,
                    ));
                    let nv = song_views(new_list@);
                    assert forall|i: int|
                        0 <= i < new_list@.len() implies (#[trigger] new_list@[
                        i]).skill_attack_index is None by {
                        assert(nv[i] == new_list@[i]@);
                        assert(nv.contains(nv[i]));
                        assert(nv.to_multiset().count(nv[i]) > 0);
                        let cv = sanbai_only_views(self.sanbai_songs@);
                        assert(cv.to_multiset().count(nv[i]) > 0);
                        assert(cv.contains(nv[i]));
                        let j = choose|j: int| 0 <= j < cv.len() && cv[j] == nv[i];
                        assert(cv[j].skill_attack_index is None);
                    }
                }
                db.songs = new_list;
                self.skill_attack_skipped = true;
                self.pending = Vec::new();
            },
            Some(sa) => {
                let new_list = DDRSong::from_combining_song_lists(&self.sanbai_songs, &sa);
                let n = if new_list.len() >= db.songs.len() {
                    new_list.len() - db.songs.len()
                } else {
                    0
                };
                self.num_new_songs = n;
                db.songs = new_list;
                self.catalog_combined = true;
                let ghost target_maps = drain_maps(
                    player_maps(db.players@),
                    batch_views(self.pending@),
                    db.songs@,
                );
                let ghost target_count = drain_counter(
                    self.num_new_scores as int,
                    player_maps(db.players@),
                    batch_views(self.pending@),
                    db.songs@,
                );
                let ghost new_song_count = self.num_new_songs;
                while self.pending.len() > 0
                    invariant
                        db.songs@ == new_list@,
                        self.sanbai_songs@ == old(self).spec_sanbai_songs(),
                        self.catalog_combined,
                        !self.skill_attack_skipped,
                        self.num_new_songs == new_song_count,
                        db.songs@.len() * 9 <= usize::MAX,
                        forall|i: int|
                            0 <= i < self.pending@.len() ==> (#[trigger] self.pending@[i]).0 < db.players@.len(),
                        db.players@.len() == old(db).players@.len(),
                        forall|p: int|
                            0 <= p < old(db).players@.len() ==> {
                                &&& (#[trigger] db.players@[p]).name == old(db).players@[p].name
                                &&& db.players@[p].ddr_code == old(db).players@[p].ddr_code
                                &&& db.players@[p].sanbai_username == old(
                                    db,
                                ).players@[p].sanbai_username
                            },
                        drain_maps(
                            player_maps(db.players@),
                            batch_views(self.pending@),
                            db.songs@,
                        ) == target_maps,
                        drain_counter(
                            self.num_new_scores as int,
                            player_maps(db.players@),
                            batch_views(self.pending@),
                            db.songs@,
                        ) == target_count,
                    decreases self.pending@.len(),
                {
                    let ghost pending_before = self.pending@;
                    let ghost players_before = db.players@;
                    let ghost maps_before = player_maps(db.players@);
                    let popped = self.pending.pop();
                    let (p, batch) = match popped {
                        Some(x) => x,
                        None => {
                            proof {
                                assert(false);
                            }
                            (0, std::collections::HashMap::new())
                        },
                    };
                    let mut player = db.players.remove(p);
                    let n2 = process_skill_attack_score(&mut player, &batch, &db.songs);
                    db.players.insert(p, player);
                    self.num_new_scores = sat_add(self.num_new_scores, n2);
                    proof {
                        assert(batch_views(pending_before).drop_last() =~= batch_views(
                            self.pending@,
                        ));
                        assert(batch_views(pending_before).last() == (p, batch@));
                        assert(db.players@ =~= players_before.update(
                            p as int,
                            db.players@[p as int],
                        ));
                        assert(player_maps(db.players@) =~= maps_before.update(
                            p as int,
                            apply_sa_map(maps_before[p as int], db.songs@, batch@),
                        ));
                    }
                }
            },
        }
    }

    /// A batch of primary-service score entries for one player arrived. They
    /// are canonically keyed already and merge immediately, with no ordering
    /// dependency on anything else.
    pub fn primary_scores_arrived(
        &mut self,
        db: &mut DDRDatabase,
        player_index: usize,
        entries: &Vec<SanbaiScoreEntry>,
    )
        requires
            player_index < old(db).players@.len(),
            forall|i: int| 0 <= i < entries@.len() ==> (#[trigger] entries@[i]).difficulty < 9,
        ensures
            final(db).songs@ == old(db).songs@,
            final(db).players@.len() == old(db).players@.len(),
            player_maps(final(db).players@) == player_maps(old(db).players@).update(
                player_index as int,
                apply_sanbai_entries(old(db).players@[player_index as int].scores@, entries@),
            ),
            forall|p: int|
                0 <= p < old(db).players@.len() ==> {
                    &&& (#[trigger] final(db).players@[p]).name == old(db).players@[p].name
                    &&& final(db).players@[p].ddr_code == old(db).players@[p].ddr_code
                    &&& final(db).players@[p].sanbai_username == old(
                        db,
                    ).players@[p].sanbai_username
                },
            final(self).spec_sanbai_songs() == old(self).spec_sanbai_songs(),
            final(self).spec_catalog_combined() == old(self).spec_catalog_combined(),
            final(self).spec_skill_attack_skipped() == old(self).spec_skill_attack_skipped(),
            final(self).spec_pending() == old(self).spec_pending(),
            final(self).spec_counts().0 == old(self).spec_counts().0,
            final(self).spec_counts().1 == sat_add_spec(
                old(self).spec_counts().1,
                apply_sanbai_count(old(db).players@[player_index as int].scores@, entries@),
            ),
    {
        let mut player = db.players.remove(player_index);
        let n = apply_sanbai_scores(&mut player, entries);
        db.players.insert(player_index, player);
        self.num_new_scores = sat_add(self.num_new_scores, n);
        proof {
            assert(final(db).players@ =~= old(db).players@.update(
                player_index as int,
                final(db).players@[player_index as int],
            ));
            assert(player_maps(final(db).players@) =~= player_maps(old(db).players@).update(
                player_index as int,
                apply_sanbai_entries(old(db).players@[player_index as int].scores@, entries@),
            ));
        }
    }

    /// A batch of secondary-service scores for one player arrived. After the
    /// degradation rule fired it is discarded; before the catalog is
    /// reconciled it is buffered; otherwise it is attributed and merged at
    /// once.
    pub fn secondary_scores_arrived(
        &mut self,
        db: &mut DDRDatabase,
        player_index: usize,
        scores: SkillAttackScores,
    )
        requires
            player_index < old(db).players@.len(),
            old(db).songs@.len() * 9 <= usize::MAX,
        ensures
            final(db).songs@ == old(db).songs@,
            final(db).players@.len() == old(db).players@.len(),
            final(self).spec_sanbai_songs() == old(self).spec_sanbai_songs(),
            final(self).spec_catalog_combined() == old(self).spec_catalog_combined(),
            final(self).spec_skill_attack_skipped() == old(self).spec_skill_attack_skipped(),
            final(self).spec_counts().0 == old(self).spec_counts().0,
            forall|p: int|
                0 <= p < old(db).players@.len() ==> {
                    &&& (#[trigger] final(db).players@[p]).name == old(db).players@[p].name
                    &&& final(db).players@[p].ddr_code == old(db).players@[p].ddr_code
                    &&& final(db).players@[p].sanbai_username == old(
                        db,
                    ).players@[p].sanbai_username
                },
            old(self).spec_skill_attack_skipped() ==> {
                &&& final(db).players@ == old(db).players@
                &&& final(self).spec_pending() == old(self).spec_pending()
                &&& final(self).spec_counts() == old(self).spec_counts()
            },
            !old(self).spec_skill_attack_skipped() && !old(self).spec_catalog_combined() ==> {
                &&& final(db).players@ == old(db).players@
                &&& final(self).spec_pending() == old(self).spec_pending().push(
                    (player_index, scores),
                )
                &&& final(self).spec_counts() == old(self).spec_counts()
            },
            !old(self).spec_skill_attack_skipped() && old(self).spec_catalog_combined() ==> {
                &&& player_maps(final(db).players@) == player_maps(old(db).players@).update(
                    player_index as int,
                    apply_sa_map(
                        old(db).players@[player_index as int].scores@,
                        old(db).songs@,
                        scores@,
                    ),
                )
                &&& final(self).spec_pending() == old(self).spec_pending()
                &&& final(self).spec_counts().1 == sat_add_spec(
                    old(self).spec_counts().1,
                    apply_sa_count(
                        old(db).players@[player_index as int].scores@,
                        old(db).songs@,
                        scores@,
                    ),
                )
            },
    {
        if self.skill_attack_skipped {
            return;
        }
        if !self.catalog_combined {
            self.pending.push((player_index, scores));
            return;
        }
        let mut player = db.players.remove(player_index);
        let n = process_skill_attack_score(&mut player, &scores, &db.songs);
        db.players.insert(player_index, player);
        self.num_new_scores = sat_add(self.num_new_scores, n);
        proof {
            assert(final(db).players@ =~= old(db).players@.update(
                player_index as int,
                final(db).players@[player_index as int],
            ));
            assert(player_maps(final(db).players@) =~= player_maps(old(db).players@).update(
                player_index as int,
                apply_sa_map(
                    old(db).players@[player_index as int].scores@,
                    old(db).songs@,
                    scores@,
                ),
            ));
        }
    }
}

} // verus!
