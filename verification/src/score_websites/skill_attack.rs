//! Title-keyed Skill Attack records: the secondary service seen without its
//! stable-id column, as the reconciler's title join consumes it.

use std::collections::HashMap;
use vstd::prelude::*;

verus! {

/// The local song index of the Skill Attack service.
pub type SkillAttackIndex = u16;

/// One song as the secondary service lists it: a local index and a free-text
/// title, nothing else.
#[derive(Debug, Clone)]
pub struct SkillAttackSong {
    pub skill_attack_index: SkillAttackIndex,
    pub song_name: String,
}

/// A singles-only score row of the secondary service.
#[derive(Debug, Clone, Copy, PartialEq, Eq, Structural)]
pub struct SkillAttackScore {
    pub beg_score: Option<u32>,
    pub basic_score: Option<u32>,
    pub diff_score: Option<u32>,
    pub expert_score: Option<u32>,
    pub chal_score: Option<u32>,
}

/// A player's scores as the secondary service reports them, keyed by its
/// local song indices.
#[derive(Debug, Clone)]
pub struct UserScores {
    pub user_id: u32,
    pub user_name: String,
    pub song_score: HashMap<SkillAttackIndex, SkillAttackScore>,
}

} // verus!
