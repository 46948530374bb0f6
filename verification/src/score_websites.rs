//! The older, title-keyed shape of the Skill Attack data: song rows that
//! carry only the local index and a free-text title, and singles-only score
//! tables. The catalog reconciler joins these title-keyed rows against the
//! primary catalog by normalized title.

/// Title-keyed records of <http://skillattack.com/sa4>
pub mod skill_attack;
