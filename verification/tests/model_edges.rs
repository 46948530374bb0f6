//! Edge cases of the score model, the query parser's quirks, and the
//! resolution of constraints against rating tables.

use score_websites::ddr_song::Chart;
use score_websites::ddr_song::DDRSong;
use score_websites::ddr_song::SongId;
use score_websites::scores::LampType;
use score_websites::scores::ScoreRow;
use score_websites::scores::Scores;
use score_websites::search::ChartAndLevel;
use score_websites::search::SearchQuery;
use score_websites::text::normalize_title;
use score_websites::website_backends::sanbai::DDRVersion;
use score_websites::website_backends::sanbai::Difficulties;
use score_websites::website_backends::sanbai::SanbaiScoreEntry;
use score_websites::website_backends::sanbai::SanbaiSong;

const ID_A: &str = "6P18lOliIQqIO6Di0PP8iDlDQ01b0o0q";

fn catalog_song(id: &str, name: &str, ratings: [u8; 9]) -> DDRSong {
    let sanbai = SanbaiSong {
        song_id: id.parse::<SongId>().unwrap(),
        song_name: name.to_string(),
        alternate_name: None,
        romanized_name: None,
        searchable_name: None,
        version_num: DDRVersion::DDRA20Plus,
        deleted: false,
        ratings: Difficulties(ratings),
        lock_types: None,
    };
    DDRSong::new_from_sanbai_and_skillattack(&sanbai, None)
}

#[test]
fn sanbai_entry_updates_one_slot() {
    let id = ID_A.parse::<SongId>().unwrap();
    let mut table = Scores::default();
    let entry = SanbaiScoreEntry {
        song_id: id,
        difficulty: 2,
        score: 650_000,
        lamp: LampType::NoCombo,
        time_played: 77,
    };
    // a fresh slot takes the entry whole, observation time included
    assert!(table.update_from_sanbai_score_entry(&entry));
    assert_eq!(
        table.diff_score,
        Some(ScoreRow { score: 650_000, lamp: LampType::NoCombo, time_played: Some(77) })
    );
    // an occupied slot maximizes score and lamp but keeps its own time
    let better = SanbaiScoreEntry {
        song_id: id,
        difficulty: 2,
        score: 700_000,
        lamp: LampType::Fail,
        time_played: 99,
    };
    assert!(table.update_from_sanbai_score_entry(&better));
    assert_eq!(
        table.diff_score,
        Some(ScoreRow { score: 700_000, lamp: LampType::NoCombo, time_played: Some(77) })
    );
    // replaying the same observation changes nothing
    assert!(!table.update_from_sanbai_score_entry(&better));
}

#[test]
fn bsp_misspelling_reads_as_beginner() {
    // the accepted spellings include the historical quirk: "bSP" names the
    // beginner chart, not the basic one
    let q = SearchQuery::parse_query("song bSP", false).unwrap();
    match q {
        SearchQuery::ByTitle { chart_and_level, .. } => {
            assert_eq!(chart_and_level, ChartAndLevel::Chart(Chart::GSP));
        }
        _ => panic!("expected a title query"),
    }
}

#[test]
fn constraint_unresolvable_on_chosen_song_yields_nothing() {
    // the song matches by name but has no challenge chart to resolve to
    let songs = vec![catalog_song(ID_A, "apple", [1, 2, 3, 4, 0, 2, 3, 4, 0])];
    let q = SearchQuery::parse_query("apple csp", false).unwrap();
    assert!(q.search(&songs).is_none());
}

#[test]
fn chart_constraint_skips_missing_charts() {
    // ESP exists: chart lookups demand a non-zero rating
    let songs = vec![catalog_song(ID_A, "apple", [1, 2, 3, 9, 0, 2, 3, 4, 0])];
    let q = SearchQuery::parse_query("apple esp", false).unwrap();
    let found = q.search(&songs).unwrap();
    assert_eq!(found.chart, Chart::ESP);
    assert_eq!(found.level, 9);
}

#[test]
fn normalization_folds_fullwidth_punctuation() {
    assert_eq!(normalize_title("\u{ff08}x\u{ff09}"), "(x)");
    assert_eq!(normalize_title("a\u{ff0b}b"), "a+b");
    assert_eq!(
        normalize_title("over the \u{201c}period\u{201d}"),
        "overthe\"period\""
    );
}

#[test]
fn chart_index_round_trip() {
    for i in 0..9usize {
        let c = Chart::from_index(i).unwrap();
        assert_eq!(c.is_doubles(), i > 4);
        assert_eq!(c.is_challenge(), i == 4);
    }
    assert!(Chart::from_index(9).is_none());
}
