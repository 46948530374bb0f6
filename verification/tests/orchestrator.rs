//! One update run end to end: attribution of secondary scores, the
//! drop-unknown rule, the degradation rule, and the full scenario with both
//! services contributing.

use std::collections::HashMap;

use score_websites::DDRDatabase;
use score_websites::UpdateRun;
use score_websites::process_skill_attack_score;
use score_websites::ddr_song::SongId;
use score_websites::scores::LampType;
use score_websites::scores::Player;
use score_websites::scores::ScoreRow;
use score_websites::scores::Scores;
use score_websites::website_backends::sanbai::DDRVersion;
use score_websites::website_backends::sanbai::Difficulties;
use score_websites::website_backends::sanbai::SanbaiScoreEntry;
use score_websites::website_backends::sanbai::SanbaiSong;
use score_websites::website_backends::skill_attack::SkillAttackSong;

const ID_A: &str = "6P18lOliIQqIO6Di0PP8iDlDQ01b0o0q";
const ID_B: &str = "0bq9qI9PoPIlQl89bDO60o9q8I1iIP66";

fn sanbai_song(id: &str, name: &str) -> SanbaiSong {
    SanbaiSong {
        song_id: id.parse::<SongId>().unwrap(),
        song_name: name.to_string(),
        alternate_name: None,
        romanized_name: None,
        searchable_name: None,
        version_num: DDRVersion::DDRA20Plus,
        deleted: false,
        ratings: Difficulties([1, 2, 3, 4, 0, 2, 3, 4, 0]),
        lock_types: None,
    }
}

fn sa_song(index: u16, id: &str, name: &str) -> SkillAttackSong {
    SkillAttackSong {
        skill_attack_index: index,
        song_id: id.parse::<SongId>().unwrap(),
        gsp: Some(1),
        bsp: Some(2),
        dsp: Some(3),
        esp: Some(4),
        csp: None,
        bdp: Some(2),
        ddp: Some(3),
        edp: Some(4),
        cdp: None,
        song_name: name.to_string(),
        artist_name: "artist".to_string(),
    }
}

fn expert_table(score: u32, lamp: LampType) -> Scores {
    let mut t = Scores::default();
    t.expert_score = Some(ScoreRow { score, lamp, time_played: None });
    t
}

#[test]
fn attribution_drops_unknown_local_ids() {
    let primary = vec![sanbai_song(ID_A, "Apple")];
    let secondary = vec![sa_song(42, ID_A, "Apple")];
    let songs = score_websites::ddr_song::DDRSong::from_combining_song_lists(
        &primary, &secondary,
    );
    let mut player = Player::new("P".to_string(), 10_000_000, None);
    // keyed to a local id absent from the catalog: dropped, player untouched
    let mut batch: HashMap<u16, Scores> = HashMap::new();
    batch.insert(999, expert_table(800_000, LampType::PerfectCombo));
    let n = process_skill_attack_score(&mut player, &batch, &songs);
    assert_eq!(n, 0);
    assert!(player.scores.is_empty());
    // the known local id lands on the song's canonical id
    let mut batch2: HashMap<u16, Scores> = HashMap::new();
    batch2.insert(42, expert_table(800_000, LampType::PerfectCombo));
    let n2 = process_skill_attack_score(&mut player, &batch2, &songs);
    assert_eq!(n2, 1);
    let id_a = ID_A.parse::<SongId>().unwrap();
    let table = player.scores.get(&id_a.packed()).unwrap();
    assert_eq!(
        table.expert_score,
        Some(ScoreRow { score: 800_000, lamp: LampType::PerfectCombo, time_played: None })
    );
}

#[test]
fn degradation_keeps_a_valid_primary_only_catalog() {
    let players = vec![Player::new("P".to_string(), 10_000_000, None)];
    let mut db = DDRDatabase::new(players);
    let mut run = UpdateRun::new(vec![
        sanbai_song(ID_A, "Apple"),
        sanbai_song(ID_B, "Zebra"),
    ]);
    // a buffered secondary batch that the degradation rule must discard
    let mut batch: HashMap<u16, Scores> = HashMap::new();
    batch.insert(42, expert_table(800_000, LampType::PerfectCombo));
    run.secondary_scores_arrived(&mut db, 0, batch);
    // the secondary catalog fetch fails
    run.secondary_catalog_arrived(&mut db, None);
    assert!(run.gave_up_skill_attack());
    let songs = db.song_list();
    assert_eq!(songs.len(), 2);
    assert!(songs.iter().all(|s| s.skill_attack_index.is_none()));
    assert!(db.players()[0].scores.is_empty());
    // further secondary batches are ignored
    let mut batch2: HashMap<u16, Scores> = HashMap::new();
    batch2.insert(42, expert_table(900_000, LampType::PerfectCombo));
    run.secondary_scores_arrived(&mut db, 0, batch2);
    assert!(db.players()[0].scores.is_empty());
    assert_eq!(run.counts(), (0, 0));
}

#[test]
fn end_to_end_run_merges_both_services() {
    let id_a = ID_A.parse::<SongId>().unwrap();
    let id_b = ID_B.parse::<SongId>().unwrap();
    // one player with a stale previously-stored primary score for song A
    let mut player = Player::new("P".to_string(), 10_000_000, Some("user".to_string()));
    player
        .scores
        .insert(id_a.packed(), expert_table(700_000, LampType::GoodCombo));
    let mut db = DDRDatabase::new(vec![player]);

    // primary catalog with two songs; secondary catalog links only song A
    let mut run = UpdateRun::new(vec![
        sanbai_song(ID_A, "Apple"),
        sanbai_song(ID_B, "Banana"),
    ]);

    // a secondary score for song A arrives before the catalog: it is buffered
    let mut sa_batch: HashMap<u16, Scores> = HashMap::new();
    sa_batch.insert(100, expert_table(800_000, LampType::PerfectCombo));
    run.secondary_scores_arrived(&mut db, 0, sa_batch);
    assert!(db.players()[0].scores.get(&id_b.packed()).is_none());

    // the secondary catalog arrives: reconciliation runs, the buffer drains
    run.secondary_catalog_arrived(&mut db, Some(vec![sa_song(100, ID_A, "Apple")]));

    // a primary score for song B arrives and merges immediately
    let entries = vec![SanbaiScoreEntry {
        song_id: id_b,
        difficulty: 3,
        score: 900_000,
        lamp: LampType::GreatCombo,
        time_played: 1_620_500_291,
    }];
    run.primary_scores_arrived(&mut db, 0, &entries);

    let player = &db.players()[0];
    let table_a = player.scores.get(&id_a.packed()).unwrap();
    assert_eq!(table_a.expert_score.unwrap().score, 800_000);
    assert_eq!(table_a.expert_score.unwrap().lamp, LampType::PerfectCombo);
    let table_b = player.scores.get(&id_b.packed()).unwrap();
    assert_eq!(table_b.expert_score.unwrap().score, 900_000);
    assert_eq!(table_b.expert_score.unwrap().lamp, LampType::GreatCombo);

    // two new catalog entries; one changed slot per service
    assert_eq!(run.counts(), (2, 2));
}
