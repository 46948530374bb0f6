//! The library's own basic tests: chart classification, song id parsing and
//! printing, and score-cell number parsing.

use score_websites::ddr_song::Chart;
use score_websites::ddr_song::SongId;
use score_websites::website_backends::skill_attack::parse_number_with_commas;

#[test]
fn it_works() {
    assert_eq!(2 + 2, 4);
}

#[test]
fn chart_is_doubles() {
    assert!(!Chart::GSP.is_doubles());
    assert!(!Chart::BSP.is_doubles());
    assert!(!Chart::DSP.is_doubles());
    assert!(!Chart::ESP.is_doubles());
    assert!(!Chart::CSP.is_doubles());
    assert!(Chart::BDP.is_doubles());
    assert!(Chart::DDP.is_doubles());
    assert!(Chart::EDP.is_doubles());
    assert!(Chart::CDP.is_doubles());
}

#[test]
fn song_id_serialize_deserialize() {
    let input = [
        "6P18lOliIQqIO6Di0PP8iDlDQ01b0o0q",
        "0bq9qI9PoPIlQl89bDO60o9q8I1iIP66",
        "ld6P1lbb0bPO9doqbbPOoPb8qoDo8id0",
        "qOlDPoiqibIOqod69dPilbiqD6qdO1qQ",
    ];
    for id in input {
        let song_id: SongId = id.parse().unwrap();
        assert_eq!(song_id.to_string(), id);
    }
}

#[test]
fn song_id_comparison() {
    let input = [
        "6P18lOliIQqIO6Di0PP8iDlDQ01b0o0q",
        "0bq9qI9PoPIlQl89bDO60o9q8I1iIP66",
        "ld6P1lbb0bPO9doqbbPOoPb8qoDo8id0",
        "qOlDPoiqibIOqod69dPilbiqD6qdO1qQ",
    ]
    .map(|s| s.parse::<SongId>().unwrap());

    for (x, id) in input.iter().enumerate() {
        for (y, other) in input.iter().enumerate() {
            if x == y {
                assert_eq!(id, other);
            } else {
                assert_ne!(id, other);
            }
        }
    }
}

#[test]
fn invalid_ids() {
    let input = [
        // invalid bytes in various positions
        "6P18lOliIQqIO6Di0AP8iDlDQ01b0o0q",
        "6P18lOliIQqIO6Di0PP8iDlDQ01b0o0W",
        "ZP18lOliIQqIO6Di0PP8iDlDQ01b0o0q",
        // invalid lengths
        "6P18lOliIQqIO6Di0PP8iDlDQ01b0o0qq",
        "6P18lOliIQqIO6Di0PP8iDlDQ01b0o0",
        "",
        "6",
    ];

    for id in input {
        id.parse::<SongId>().unwrap_err();
    }
}

#[test]
fn parse_numbers() {
    let numbers = ["994,480", "82,010", "1,000,000", "-", "", "3,400", "0"];
    let expected = [
        Some(994_480),
        Some(82_010),
        Some(1_000_000),
        None,
        None,
        Some(3_400),
        Some(0),
    ];
    let output = numbers
        .iter()
        .map(|n| parse_number_with_commas(n))
        .collect::<Vec<_>>();
    assert_eq!(&expected[..], &output[..]);
}

#[test]
fn skill_attack_parse_numbers() {
    let numbers = ["994,480", "82,010", "1,000,000", "-", "", "3,400", "0"];
    let expected = [
        Some(994_480),
        Some(82_010),
        Some(1_000_000),
        None,
        None,
        Some(3_400),
        Some(0),
    ];
    let output = numbers
        .iter()
        .map(|n| parse_number_with_commas(n))
        .collect::<Vec<_>>();
    assert_eq!(&expected[..], &output[..]);
}
