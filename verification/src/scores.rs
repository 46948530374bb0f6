//! Per-song, per-difficulty score records and the monotonic ("best known
//! result so far") merge operation, plus the player roster entry that owns a
//! score table per song.

use std::collections::HashMap;
use vstd::prelude::*;

verus! {

broadcast use vstd::std_specs::hash::group_hash_axioms;

/// Ordered classification of play quality ("lamp"), a single total order
/// shared by both score services even though each encodes it with its own
/// incompatible integer codes and granularity.
#[derive(Debug, Clone, Copy, PartialEq, Eq, PartialOrd, Ord, Structural)]
pub enum LampType {
    /// Skill Attack does not differentiate between fail and pass
    Unknown,
    Fail,
    NoCombo,
    Life4Combo,
    /// Skill Attack does not differentiate between good and great combo
    GoodGreatCombo,
    GoodCombo,
    GreatCombo,
    PerfectCombo,
    MarvelousCombo,
}

impl LampType {
    /// Position of the lamp in the shared total order.
    pub open spec fn rank(self) -> nat {
        match self {
            LampType::Unknown => 0,
            LampType::Fail => 1,
            LampType::NoCombo => 2,
            LampType::Life4Combo => 3,
            LampType::GoodGreatCombo => 4,
            LampType::GoodCombo => 5,
            LampType::GreatCombo => 6,
            LampType::PerfectCombo => 7,
            LampType::MarvelousCombo => 8,
        }
    }

    /// The rank as an executable integer.
    pub fn rank_index(&self) -> (r: u8)
        ensures
            r as nat == self.rank(),
    {
        match self {
            LampType::Unknown => 0,
            LampType::Fail => 1,
            LampType::NoCombo => 2,
            LampType::Life4Combo => 3,
            LampType::GoodGreatCombo => 4,
            LampType::GoodCombo => 5,
            LampType::GreatCombo => 6,
            LampType::PerfectCombo => 7,
            LampType::MarvelousCombo => 8,
        }
    }

    pub open spec fn spec_from_skill_attack_index(index: u8) -> Option<LampType> {
        if index == 0 {
            Some(LampType::Unknown)
        } else if index == 1 {
            Some(LampType::GoodGreatCombo)
        } else if index == 2 {
            Some(LampType::PerfectCombo)
        } else if index == 3 {
            Some(LampType::MarvelousCombo)
        } else {
            None
        }
    }

    /// Converts the integer Skill Attack uses to represent their combo type
    /// into `LampType`. An unrecognized code is a parse error for the caller,
    /// never a silent default.
    pub fn from_skill_attack_index(index: u8) -> (r: Option<Self>)
        ensures
            r == Self::spec_from_skill_attack_index(index),
    {
        match index {
            0 => Some(Self::Unknown),
            1 => Some(Self::GoodGreatCombo),
            2 => Some(Self::PerfectCombo),
            3 => Some(Self::MarvelousCombo),
            _ => None,
        }
    }

    pub open spec fn spec_from_sanbai_lamp_index(index: u8) -> Option<LampType> {
        if index == 0 {
            Some(LampType::Fail)
        } else if index == 1 {
            Some(LampType::NoCombo)
        } else if index == 2 {
            Some(LampType::Life4Combo)
        } else if index == 3 {
            Some(LampType::GoodCombo)
        } else if index == 4 {
            Some(LampType::GreatCombo)
        } else if index == 5 {
            Some(LampType::PerfectCombo)
        } else if index == 6 {
            Some(LampType::MarvelousCombo)
        } else {
            None
        }
    }

    /// Converts the integer Sanbai uses to represent their combo type into
    /// `LampType`. An unrecognized code is a parse error for the caller,
    /// never a silent default.
    pub fn from_sanbai_lamp_index(index: u8) -> (r: Option<Self>)
        ensures
            r == Self::spec_from_sanbai_lamp_index(index),
    {
        match index {
            0 => Some(Self::Fail),
            1 => Some(Self::NoCombo),
            2 => Some(Self::Life4Combo),
            3 => Some(Self::GoodCombo),
            4 => Some(Self::GreatCombo),
            5 => Some(Self::PerfectCombo),
            6 => Some(Self::MarvelousCombo),
            _ => None,
        }
    }

    /// Two lamps with the same rank are the same lamp.
    pub proof fn lemma_rank_injective(a: Self, b: Self)
        ensures
            a.rank() == b.rank() ==> a == b,
    {
    }
}

/// The lamp whose rank is not smaller; the left one on ties.
pub open spec fn spec_lamp_max(a: LampType, b: LampType) -> LampType {
    if b.rank() > a.rank() {
        b
    } else {
        a
    }
}

/// Executable maximum of two lamps in the shared order.
pub fn lamp_max(a: LampType, b: LampType) -> (r: LampType)
    ensures
        r == spec_lamp_max(a, b),
{
    if b.rank_index() > a.rank_index() {
        b
    } else {
        a
    }
}

/// Maximum of two optional observation timestamps; an absent timestamp is
/// smaller than any present one.
pub open spec fn spec_time_max(a: Option<u64>, b: Option<u64>) -> Option<u64> {
    match (a, b) {
        (None, t) => t,
        (Some(x), None) => Some(x),
        (Some(x), Some(y)) => if y > x {
            Some(y)
        } else {
            Some(x)
        },
    }
}

/// Executable maximum of two optional timestamps.
pub fn time_max(a: Option<u64>, b: Option<u64>) -> (r: Option<u64>)
    ensures
        r == spec_time_max(a, b),
{
    match (a, b) {
        (None, t) => t,
        (Some(x), None) => Some(x),
        (Some(x), Some(y)) => if y > x {
            Some(y)
        } else {
            Some(x)
        },
    }
}

/// A "row" of a score: the score, lamp and optional observation time of one
/// specific difficulty of a song.
#[derive(Debug, Clone, Copy, PartialEq, Eq, Structural)]
pub struct ScoreRow {
    pub score: u32,
    pub lamp: LampType,
    /// Observation time in seconds of the Unix epoch, when known.
    pub time_played: Option<u64>,
}

/// The merge of two observed rows: score, lamp and timestamp are each
/// maximized independently, so the result reports every metric's personal
/// best even if no single play achieved all of them at once.
pub open spec fn spec_maximize(a: ScoreRow, b: ScoreRow) -> ScoreRow {
    ScoreRow {
        score: if b.score > a.score {
            b.score
        } else {
            a.score
        },
        lamp: spec_lamp_max(a.lamp, b.lamp),
        time_played: spec_time_max(a.time_played, b.time_played),
    }
}

impl ScoreRow {
    /// Creates a new `ScoreRow` by taking the max of `score`, the max of
    /// `lamp` and the max of `time_played` of `self` and `other`.
    pub fn maximize(self, other: Self) -> (r: Self)
        ensures
            r == spec_maximize(self, other),
    {
        ScoreRow {
            score: if other.score > self.score {
                other.score
            } else {
                self.score
            },
            lamp: lamp_max(self.lamp, other.lamp),
            time_played: time_max(self.time_played, other.time_played),
        }
    }
}

/// Merge of two optional rows: an absent observation is the identity, two
/// present observations are maximized field by field.
pub open spec fn spec_merge_slot(a: Option<ScoreRow>, b: Option<ScoreRow>) -> Option<ScoreRow> {
    match (a, b) {
        (None, None) => None,
        (Some(x), None) => Some(x),
        (None, Some(y)) => Some(y),
        (Some(x), Some(y)) => Some(spec_maximize(x, y)),
    }
}

/// Executable merge of two optional rows.
pub fn merge_slot(a: Option<ScoreRow>, b: Option<ScoreRow>) -> (r: Option<ScoreRow>)
    ensures
        r == spec_merge_slot(a, b),
{
    match (a, b) {
        (None, None) => None,
        (Some(x), None) => Some(x),
        (None, Some(y)) => Some(y),
        (Some(x), Some(y)) => Some(x.maximize(y)),
    }
}

/// Law: the merge of two optional rows does not depend on the order of its
/// two arguments.
pub proof fn lemma_merge_commutative(a: Option<ScoreRow>, b: Option<ScoreRow>)
    ensures
        spec_merge_slot(a, b) == spec_merge_slot(b, a),
{
    match (a, b) {
        (Some(x), Some(y)) => {
            LampType::lemma_rank_injective(x.lamp, y.lamp);
        },
        _ => {},
    }
}

/// Law: merging in an observation that was already merged changes nothing.
pub proof fn lemma_merge_idempotent(a: Option<ScoreRow>, b: Option<ScoreRow>)
    ensures
        spec_merge_slot(spec_merge_slot(a, b), b) == spec_merge_slot(a, b),
        spec_merge_slot(a, a) == a,
{
}

/// Law: the merged score and the merged lamp rank are at least the maxima of
/// the corresponding inputs; merging never regresses either metric.
pub proof fn lemma_merge_monotone(a: Option<ScoreRow>, b: Option<ScoreRow>)
    ensures
        match (a, spec_merge_slot(a, b)) {
            (Some(x), Some(m)) => m.score >= x.score && m.lamp.rank() >= x.lamp.rank(),
            (Some(x), None) => false,
            _ => true,
        },
        match (b, spec_merge_slot(a, b)) {
            (Some(y), Some(m)) => m.score >= y.score && m.lamp.rank() >= y.lamp.rank(),
            (Some(y), None) => false,
            _ => true,
        },
{
}

/// Law: the merge of optional rows is associative.
pub proof fn lemma_merge_associative(
    a: Option<ScoreRow>,
    b: Option<ScoreRow>,
    c: Option<ScoreRow>,
)
    ensures
        spec_merge_slot(spec_merge_slot(a, b), c) == spec_merge_slot(a, spec_merge_slot(b, c)),
{
}

/// The scores and lamp for every difficulty of a specific song: one slot per
/// difficulty, five singles charts then four doubles charts.
#[derive(Debug, Clone, Copy, PartialEq, Eq, Structural)]
pub struct Scores {
    pub beg_score: Option<ScoreRow>,
    pub basic_score: Option<ScoreRow>,
    pub diff_score: Option<ScoreRow>,
    pub expert_score: Option<ScoreRow>,
    pub chal_score: Option<ScoreRow>,
    pub doubles_basic_score: Option<ScoreRow>,
    pub doubles_diff_score: Option<ScoreRow>,
    pub doubles_expert_score: Option<ScoreRow>,
    pub doubles_chal_score: Option<ScoreRow>,
}

impl Scores {
    /// The nine slots as a sequence, indexed as the difficulty indices are.
    pub open spec fn slots(self) -> Seq<Option<ScoreRow>> {
        seq![
            self.beg_score,
            self.basic_score,
            self.diff_score,
            self.expert_score,
            self.chal_score,
            self.doubles_basic_score,
            self.doubles_diff_score,
            self.doubles_expert_score,
            self.doubles_chal_score,
        ]
    }

    /// The table with every slot empty.
    pub open spec fn spec_empty() -> Scores {
        Scores {
            beg_score: None,
            basic_score: None,
            diff_score: None,
            expert_score: None,
            chal_score: None,
            doubles_basic_score: None,
            doubles_diff_score: None,
            doubles_expert_score: None,
            doubles_chal_score: None,
        }
    }

    /// An empty score table.
    pub fn empty() -> (r: Scores)
        ensures
            r == Scores::spec_empty(),
    {
        Scores {
            beg_score: None,
            basic_score: None,
            diff_score: None,
            expert_score: None,
            chal_score: None,
            doubles_basic_score: None,
            doubles_diff_score: None,
            doubles_expert_score: None,
            doubles_chal_score: None,
        }
    }

    /// The slot of the given difficulty index.
    pub fn get_slot(&self, index: usize) -> (r: Option<ScoreRow>)
        requires
            index < 9,
        ensures
            r == self.slots()[index as int],
    {
        match index {
            0 => self.beg_score,
            1 => self.basic_score,
            2 => self.diff_score,
            3 => self.expert_score,
            4 => self.chal_score,
            5 => self.doubles_basic_score,
            6 => self.doubles_diff_score,
            7 => self.doubles_expert_score,
            _ => self.doubles_chal_score,
        }
    }

    /// Replaces the slot of the given difficulty index.
    pub fn set_slot(&mut self, index: usize, value: Option<ScoreRow>)
        requires
            index < 9,
        ensures
            final(self).slots() =~= old(self).slots().update(index as int, value),
            *final(self) == spec_table_with_slot(*old(self), index as int, value),
    {
        match index {
            0 => self.beg_score = value,
            1 => self.basic_score = value,
            2 => self.diff_score = value,
            3 => self.expert_score = value,
            4 => self.chal_score = value,
            5 => self.doubles_basic_score = value,
            6 => self.doubles_diff_score = value,
            7 => self.doubles_expert_score = value,
            _ => self.doubles_chal_score = value,
        }
    }
}

/// How many of the first `k` slots change value when `b` is merged into `a`,
/// comparing the merged slot in its entirety against the prior slot.
pub open spec fn spec_update_count(
    a: Seq<Option<ScoreRow>>,
    b: Seq<Option<ScoreRow>>,
    k: int,
) -> int
    decreases k,
{
    if k <= 0 {
        0
    } else {
        spec_update_count(a, b, k - 1) + if spec_merge_slot(a[k - 1], b[k - 1]) != a[k - 1] {
            1int
        } else {
            0int
        }
    }
}

impl Scores {
    /// Updates the table by merging in `other` slot by slot, keeping the best
    /// score and lamp of both. Returns the number of slots whose stored value
    /// changed.
    pub fn update(&mut self, other: &Scores) -> (n: usize)
        ensures
            final(self).slots() =~= Seq::new(
                9,
                |i: int| spec_merge_slot(old(self).slots()[i], other.slots()[i]),
            ),
            *final(self) == spec_merge_table(*old(self), *other),
            n as int == spec_update_count(old(self).slots(), other.slots(), 9),
            n <= 9,
    {
        let mut n: usize = 0;
        let mut level_index: usize = 0;
        while level_index < 9
            invariant
                level_index <= 9,
                n <= level_index,
                n as int == spec_update_count(old(self).slots(), other.slots(), level_index as int),
                forall|j: int|
                    0 <= j < level_index ==> self.slots()[j] == spec_merge_slot(
                        old(self).slots()[j],
                        other.slots()[j],
                    ),
                forall|j: int| level_index <= j < 9 ==> self.slots()[j] == old(self).slots()[j],
            decreases 9 - level_index,
        {
            let ours = self.get_slot(level_index);
            let theirs = other.get_slot(level_index);
            let merged = merge_slot(ours, theirs);
            if !slot_eq(&merged, &ours) {
                n = n + 1;
            }
            self.set_slot(level_index, merged);
            level_index = level_index + 1;
        }
        proof {
            let m = spec_merge_table(*old(self), *other);
            assert(self.slots()[0] == m.beg_score);
            assert(self.slots()[1] == m.basic_score);
            assert(self.slots()[2] == m.diff_score);
            assert(self.slots()[3] == m.expert_score);
            assert(self.slots()[4] == m.chal_score);
            assert(self.slots()[5] == m.doubles_basic_score);
            assert(self.slots()[6] == m.doubles_diff_score);
            assert(self.slots()[7] == m.doubles_expert_score);
            assert(self.slots()[8] == m.doubles_chal_score);
        }
        n
    }
}

/// Executable equality of two optional rows; agrees with mathematical
/// equality of the values.
pub fn slot_eq(a: &Option<ScoreRow>, b: &Option<ScoreRow>) -> (r: bool)
    ensures
        r == (*a == *b),
{
    match (a, b) {
        (None, None) => true,
        (Some(x), Some(y)) => row_eq(x, y),
        _ => false,
    }
}

/// Executable equality of two rows; agrees with mathematical equality.
pub fn row_eq(a: &ScoreRow, b: &ScoreRow) -> (r: bool)
    ensures
        r == (*a == *b),
{
    let time_same: bool = match (a.time_played, b.time_played) {
        (None, None) => true,
        (Some(x), Some(y)) => x == y,
        _ => false,
    };
    a.score == b.score && a.lamp == b.lamp && time_same
}

impl Default for Scores {
    /// The default table has every slot empty.
    fn default() -> (r: Self)
        ensures
            r == Scores::spec_empty(),
    {
        Scores::empty()
    }
}

/// The table with the slot of the given difficulty index replaced.
pub open spec fn spec_table_with_slot(t: Scores, d: int, v: Option<ScoreRow>) -> Scores {
    if d == 0 {
        Scores { beg_score: v, ..t }
    } else if d == 1 {
        Scores { basic_score: v, ..t }
    } else if d == 2 {
        Scores { diff_score: v, ..t }
    } else if d == 3 {
        Scores { expert_score: v, ..t }
    } else if d == 4 {
        Scores { chal_score: v, ..t }
    } else if d == 5 {
        Scores { doubles_basic_score: v, ..t }
    } else if d == 6 {
        Scores { doubles_diff_score: v, ..t }
    } else if d == 7 {
        Scores { doubles_expert_score: v, ..t }
    } else {
        Scores { doubles_chal_score: v, ..t }
    }
}

/// The slot-by-slot merge of two whole tables.
pub open spec fn spec_merge_table(a: Scores, b: Scores) -> Scores {
    Scores {
        beg_score: spec_merge_slot(a.beg_score, b.beg_score),
        basic_score: spec_merge_slot(a.basic_score, b.basic_score),
        diff_score: spec_merge_slot(a.diff_score, b.diff_score),
        expert_score: spec_merge_slot(a.expert_score, b.expert_score),
        chal_score: spec_merge_slot(a.chal_score, b.chal_score),
        doubles_basic_score: spec_merge_slot(a.doubles_basic_score, b.doubles_basic_score),
        doubles_diff_score: spec_merge_slot(a.doubles_diff_score, b.doubles_diff_score),
        doubles_expert_score: spec_merge_slot(a.doubles_expert_score, b.doubles_expert_score),
        doubles_chal_score: spec_merge_slot(a.doubles_chal_score, b.doubles_chal_score),
    }
}

/// How one slot changes when a Sanbai score entry lands on it: an occupied
/// slot keeps its observation time and maximizes score and lamp; an empty
/// slot takes the entry whole, observation time included.
pub open spec fn spec_sanbai_slot_update(
    slot: Option<ScoreRow>,
    score: u32,
    lamp: LampType,
    time_played: u64,
) -> Option<ScoreRow> {
    match slot {
        Some(row) => Some(
            ScoreRow {
                score: if score > row.score {
                    score
                } else {
                    row.score
                },
                lamp: spec_lamp_max(row.lamp, lamp),
                time_played: row.time_played,
            },
        ),
        None => Some(ScoreRow { score, lamp, time_played: Some(time_played) }),
    }
}

impl Scores {
    /// Updates the score and lamp of the single difficulty named by the
    /// Sanbai entry, taking the max. Returns `true` if the stored slot
    /// changed.
    pub fn update_from_sanbai_score_entry(
        &mut self,
        sanbai_entry: &crate::website_backends::sanbai::SanbaiScoreEntry,
    ) -> (changed: bool)
        requires
            sanbai_entry.difficulty < 9,
        ensures
            *final(self) == spec_table_with_slot(
                *old(self),
                sanbai_entry.difficulty as int,
                spec_sanbai_slot_update(
                    old(self).slots()[sanbai_entry.difficulty as int],
                    sanbai_entry.score,
                    sanbai_entry.lamp,
                    sanbai_entry.time_played,
                ),
            ),
            changed == (final(self).slots()[sanbai_entry.difficulty as int] != old(
                self,
            ).slots()[sanbai_entry.difficulty as int]),
    {
        let d = sanbai_entry.difficulty as usize;
        let old_slot = self.get_slot(d);
        let new_slot: Option<ScoreRow> = match old_slot {
            Some(row) => Some(
                ScoreRow {
                    score: if sanbai_entry.score > row.score {
                        sanbai_entry.score
                    } else {
                        row.score
                    },
                    lamp: lamp_max(row.lamp, sanbai_entry.lamp),
                    time_played: row.time_played,
                },
            ),
            None => Some(
                ScoreRow {
                    score: sanbai_entry.score,
                    lamp: sanbai_entry.lamp,
                    time_played: Some(sanbai_entry.time_played),
                },
            ),
        };
        self.set_slot(d, new_slot);
        !slot_eq(&new_slot, &old_slot)
    }
}

/// Represents a specific DDR player, including their scores, keyed by the
/// packed value of the canonical song id.
#[derive(Debug, Clone)]
pub struct Player {
    pub name: String,
    pub ddr_code: u32,
    pub sanbai_username: Option<String>,
    pub scores: HashMap<u128, Scores>,
}

impl Player {
    /// Creates a new player with no scores initialized.
    pub fn new(name: String, ddr_code: u32, sanbai_username: Option<String>) -> (p: Self)
        ensures
            p.name == name,
            p.ddr_code == ddr_code,
            p.sanbai_username == sanbai_username,
            p.scores@ == Map::<u128, Scores>::empty(),
    {
        Player { name, ddr_code, sanbai_username, scores: HashMap::new() }
    }
}

} // verus!
