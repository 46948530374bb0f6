//! Query parsing and catalog lookup on concrete values.

use score_websites::ddr_song::Chart;
use score_websites::ddr_song::DDRSong;
use score_websites::ddr_song::SongId;
use score_websites::error::Error;
use score_websites::search::ChartAndLevel;
use score_websites::search::SearchQuery;
use score_websites::website_backends::sanbai::DDRVersion;
use score_websites::website_backends::sanbai::Difficulties;
use score_websites::website_backends::sanbai::SanbaiSong;
use score_websites::website_backends::sanbai::strip_song_data_envelope;
use score_websites::website_backends::skill_attack::cut_webpage;

const ID_A: &str = "6P18lOliIQqIO6Di0PP8iDlDQ01b0o0q";
const ID_B: &str = "0bq9qI9PoPIlQl89bDO60o9q8I1iIP66";

fn catalog_song(id: &str, name: &str, ratings: [u8; 9]) -> DDRSong {
    let sanbai = SanbaiSong {
        song_id: id.parse::<SongId>().unwrap(),
        song_name: name.to_string(),
        alternate_name: None,
        romanized_name: None,
        searchable_name: None,
        version_num: DDRVersion::DDRA20Plus,
        deleted: false,
        ratings: Difficulties(ratings),
        lock_types: None,
    };
    DDRSong::new_from_sanbai_and_skillattack(&sanbai, None)
}

#[test]
fn parse_query_splits_title_and_constraint() {
    let q = SearchQuery::parse_query("healing vision esp", false).unwrap();
    match q {
        SearchQuery::ByTitle { song_title, chart_and_level, force_doubles } => {
            assert_eq!(song_title, "healing vision");
            assert_eq!(chart_and_level, ChartAndLevel::Chart(Chart::ESP));
            assert!(!force_doubles);
        }
        _ => panic!("expected a title query"),
    }
}

#[test]
fn parse_query_reads_levels_and_indices() {
    let q = SearchQuery::parse_query("123 17", false).unwrap();
    match q {
        SearchQuery::BySkillAttackIndex { sa_index, chart_and_level, .. } => {
            assert_eq!(sa_index, 123);
            assert_eq!(chart_and_level, ChartAndLevel::Level(17));
        }
        _ => panic!("expected an index query"),
    }
}

#[test]
fn parse_query_rejects_short_or_unreadable_queries() {
    assert!(SearchQuery::parse_query("", false).is_err());
    assert!(SearchQuery::parse_query("   ", false).is_err());
    assert!(SearchQuery::parse_query("only", false).is_err());
    assert!(SearchQuery::parse_query("song name 25", false).is_err());
}

#[test]
fn parse_query_forces_doubles() {
    let q = SearchQuery::parse_query("song esp", true).unwrap();
    match q {
        SearchQuery::ByTitle { chart_and_level, force_doubles, .. } => {
            assert_eq!(chart_and_level, ChartAndLevel::Chart(Chart::EDP));
            assert!(force_doubles);
        }
        _ => panic!("expected a title query"),
    }
}

#[test]
fn search_prefers_exact_name_match() {
    let songs = vec![
        catalog_song(ID_B, "bag of tricks", [1, 4, 7, 11, 0, 5, 8, 12, 0]),
        catalog_song(ID_A, "bag", [1, 4, 7, 11, 0, 5, 8, 12, 0]),
    ];
    let q = SearchQuery::parse_query("bag 7", false).unwrap();
    let found = q.search(&songs).unwrap();
    assert_eq!(found.song.song_name, "bag");
    assert_eq!(found.chart, Chart::DSP);
    assert_eq!(found.level, 7);
}

#[test]
fn search_matches_words_disjointly() {
    let songs = vec![catalog_song(ID_A, "Healing Vision Angelic mix", [
        1, 4, 7, 11, 0, 5, 8, 12, 0,
    ])];
    let hit = SearchQuery::parse_query("healing mix 11", false).unwrap();
    assert!(hit.search(&songs).is_some());
    // one occurrence of "mix" cannot satisfy the word twice
    let miss = SearchQuery::parse_query("mix mix 11", false).unwrap();
    assert!(miss.search(&songs).is_none());
}

#[test]
fn search_by_secondary_index() {
    let mut song = catalog_song(ID_A, "Apple", [1, 4, 7, 11, 0, 5, 8, 12, 0]);
    song.skill_attack_index = Some(246);
    let songs = vec![song];
    let q = SearchQuery::parse_query("246 esp", false).unwrap();
    let found = q.search(&songs).unwrap();
    assert_eq!(found.song.song_name, "Apple");
    assert_eq!(found.chart, Chart::ESP);
    assert_eq!(found.level, 11);
    let none = SearchQuery::parse_query("247 esp", false).unwrap();
    assert!(none.search(&songs).is_none());
}

#[test]
fn search_filters_by_level_side() {
    // level 5 exists only on the doubles side
    let songs = vec![catalog_song(ID_A, "Apple", [1, 2, 3, 4, 0, 5, 6, 7, 0])];
    let singles = SearchQuery::parse_query("apple 5", false).unwrap();
    assert!(singles.search(&songs).is_none());
    let doubles = SearchQuery::parse_query("apple 5", true).unwrap();
    let found = doubles.search(&songs).unwrap();
    assert_eq!(found.chart, Chart::BDP);
    assert_eq!(found.level, 5);
}

#[test]
fn cut_webpage_finds_the_marker() {
    let page = "prefix junk sName = new Array('x');";
    let rest = cut_webpage(page).unwrap();
    assert!(rest.starts_with("sName"));
    let err = cut_webpage("no marker here").unwrap_err();
    assert!(matches!(err, Error::OtherParseError(_)));
}

#[test]
fn song_data_envelope_is_checked() {
    let body = strip_song_data_envelope("var ALL_SONG_DATA=[1,2];").unwrap();
    assert_eq!(body, "[1,2]");
    assert!(matches!(
        strip_song_data_envelope("ALL_SONG_DATA=[1,2];"),
        Err(Error::OtherParseError(_))
    ));
    assert!(matches!(
        strip_song_data_envelope("var ALL_SONG_DATA=[1,2]"),
        Err(Error::OtherParseError(_))
    ));
}
