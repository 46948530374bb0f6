//! Catalog reconciliation on concrete values: the normalization fold, the
//! title join and its non-match case, the id join, and the sorted order.

use score_websites::ddr_song::DDRSong;
use score_websites::ddr_song::SongId;
use score_websites::score_websites::skill_attack::SkillAttackSong as TitleOnlySong;
use score_websites::text::normalize_title;
use score_websites::website_backends::sanbai::DDRVersion;
use score_websites::website_backends::sanbai::Difficulties;
use score_websites::website_backends::sanbai::SanbaiSong;
use score_websites::website_backends::skill_attack::SkillAttackSong;

fn sanbai_song(id: &str, name: &str) -> SanbaiSong {
    SanbaiSong {
        song_id: id.parse::<SongId>().unwrap(),
        song_name: name.to_string(),
        alternate_name: None,
        romanized_name: None,
        searchable_name: None,
        version_num: DDRVersion::DDRA20Plus,
        deleted: false,
        ratings: Difficulties([1, 2, 3, 4, 0, 2, 3, 4, 0]),
        lock_types: None,
    }
}

const ID_A: &str = "6P18lOliIQqIO6Di0PP8iDlDQ01b0o0q";
const ID_B: &str = "0bq9qI9PoPIlQl89bDO60o9q8I1iIP66";

#[test]
fn normalization_fold() {
    assert_eq!(normalize_title("I\u{ff01}O"), normalize_title("I!O"));
    assert_eq!(normalize_title("\u{ff21}\u{2026}\u{ff22}"), "A...B");
    assert_eq!(normalize_title("a  b\tc"), "abc");
    assert_eq!(normalize_title("Qipch\u{0101}q"), normalize_title("Qipch\u{00e3}q"));
    assert_eq!(normalize_title("dreamin\u{2019}"), "dreamin'");
}

#[test]
fn reconciliation_join_matches_case_insensitively() {
    let primary = vec![sanbai_song(ID_A, "Foo")];
    let secondary = vec![TitleOnlySong { skill_attack_index: 7, song_name: "foo".to_string() }];
    let catalog = DDRSong::from_reconciling_by_title(&primary, &secondary);
    assert_eq!(catalog.len(), 1);
    assert_eq!(catalog[0].song_id, ID_A.parse::<SongId>().unwrap());
    assert_eq!(catalog[0].skill_attack_index, Some(7));
}

#[test]
fn reconciliation_non_match_drops_secondary() {
    let primary = vec![sanbai_song(ID_A, "Bar")];
    let secondary = vec![TitleOnlySong { skill_attack_index: 9, song_name: "Baz".to_string() }];
    let catalog = DDRSong::from_reconciling_by_title(&primary, &secondary);
    assert_eq!(catalog.len(), 1);
    assert_eq!(catalog[0].song_id, ID_A.parse::<SongId>().unwrap());
    assert_eq!(catalog[0].skill_attack_index, None);
}

fn sa_song(index: u16, id: &str, name: &str) -> SkillAttackSong {
    SkillAttackSong {
        skill_attack_index: index,
        song_id: id.parse::<SongId>().unwrap(),
        gsp: Some(1),
        bsp: Some(2),
        dsp: Some(3),
        esp: Some(4),
        csp: None,
        bdp: Some(2),
        ddp: Some(3),
        edp: Some(4),
        cdp: None,
        song_name: name.to_string(),
        artist_name: "artist".to_string(),
    }
}

#[test]
fn id_join_links_and_sorts() {
    let primary = vec![sanbai_song(ID_B, "Zebra"), sanbai_song(ID_A, "Apple")];
    let secondary = vec![sa_song(42, ID_B, "Zebra")];
    let catalog = DDRSong::from_combining_song_lists(&primary, &secondary);
    assert_eq!(catalog.len(), 2);
    // sorted by display name
    assert_eq!(catalog[0].song_name, "Apple");
    assert_eq!(catalog[1].song_name, "Zebra");
    assert_eq!(catalog[0].skill_attack_index, None);
    assert_eq!(catalog[1].skill_attack_index, Some(42));
}

#[test]
fn search_names_are_lowercased_and_split() {
    let mut song = sanbai_song(ID_A, "Foo Bar");
    song.romanized_name = Some("RoMaji".to_string());
    song.alternate_name = Some("One/Two".to_string());
    let ddr = DDRSong::new_from_sanbai_and_skillattack(&song, None);
    assert_eq!(
        ddr.search_names,
        vec![
            "foo bar".to_string(),
            "romaji".to_string(),
            "one".to_string(),
            "two".to_string()
        ]
    );
    assert_eq!(ddr.song_name, "Foo Bar");
    assert_eq!(ddr.romanized_name, Some("RoMaji".to_string()));
}

#[test]
fn jacket_urls_name_the_song_id() {
    let song = sanbai_song(ID_A, "Foo");
    assert_eq!(
        song.get_jacket_url(),
        format!("https://3icecream.com/img/banners/f/{}.jpg", ID_A)
    );
    assert_eq!(
        song.get_small_jacket_url(),
        format!("https://3icecream.com/img/banners/{}.jpg", ID_A)
    );
}

#[test]
fn version_codes_round_trip() {
    for code in 1..=18u8 {
        let v = DDRVersion::from_code(code);
        assert_eq!(v.code(), code);
    }
    assert_eq!(DDRVersion::from_code(0), DDRVersion::UnknownVersion);
    assert_eq!(DDRVersion::from_code(99), DDRVersion::UnknownVersion);
}

#[test]
fn difficulties_queries() {
    let d = Difficulties([1, 4, 7, 11, 0, 5, 8, 12, 0]);
    assert!(d.contains_single(7));
    assert!(!d.contains_single(5));
    assert!(d.contains_doubles(5));
    assert!(!d.contains_doubles(7));
    assert!(!d.has_challenge_chart());
    assert!(d.has_non_challenge_charts());
    assert_eq!(d.single_difficulties(), [1, 4, 7, 11, 0]);
    assert_eq!(d.doubles_difficulties(), [5, 8, 12, 0]);
}
