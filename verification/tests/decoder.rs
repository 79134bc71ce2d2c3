use rwr_players::coerce::{DecodeError, Distance};
use rwr_players::decoder::{decode_page, decode_rows};
use rwr_players::dom::MARKUP_LIMIT;
use rwr_players::page::{read_rows, Row, TableSelectors};
use rwr_players::player::{Field, Player};

fn texts(items: &[&str]) -> Vec<Option<String>> {
    items.iter().map(|item| Some(item.to_string())).collect()
}

fn full_header() -> Row {
    Row::Header(texts(&[
        "username",
        "kills",
        "deaths",
        "score",
        "time_played",
        "longest_kill_streak",
        "targets_destroyed",
        "soldiers_healed",
        "teamkills",
        "distance_moved",
        "shots_fired",
        "throwables_thrown",
        "rank_progression",
        "rank_name",
    ]))
}

fn header_markup(markers: &[&str]) -> String {
    let mut row = String::from("<tr>");
    for marker in markers {
        row.push_str("<th><div class=\"");
        row.push_str(marker);
        row.push_str("\">");
        row.push_str(marker);
        row.push_str("</div></th>");
    }
    row.push_str("</tr>");
    row
}

fn data_markup(cells: &[&str]) -> String {
    let mut row = String::from("<tr>");
    for cell in cells {
        row.push_str("<td>");
        row.push_str(cell);
        row.push_str("</td>");
    }
    row.push_str("</tr>");
    row
}

fn table_markup(rows: &[String]) -> String {
    let mut table = String::from("<table><tbody>");
    for row in rows {
        table.push_str(row);
    }
    table.push_str("</tbody></table>");
    table
}

#[test]
fn row_fills_every_field() {
    let rows = vec![
        full_header(),
        Row::Data(texts(&[
            " MR. BANG ",
            "195873",
            "21400",
            "3510664",
            "1718h 48min",
            "954",
            "1645",
            "320",
            "1800",
            "2134.3km",
            "5587413",
            "65743",
            "18293782",
            "General of the Army",
        ])),
    ];
    let players = decode_rows(&rows).unwrap();
    assert_eq!(
        players,
        vec![Player {
            username: "MR. BANG".to_string(),
            kills: 195873,
            deaths: 21400,
            score: 3510664,
            time_played: 103128,
            longest_kill_streak: 954,
            targets_destroyed: 1645,
            soldiers_healed: 320,
            teamkills: 1800,
            distance_moved: rwr_players::coerce::parse_distance("2134.3km").unwrap(),
            shots_fired: 5587413,
            throwables_thrown: 65743,
            rank_progression: 18293782,
            rank_name: "General of the Army".to_string(),
        }]
    );
    assert_eq!(players[0].distance_moved.numeral().parse::<f64>().unwrap(), 2134.3);
}

#[test]
fn absent_cells_leave_the_defaults() {
    let rows = vec![full_header(), Row::Data(texts(&["alice", "3"]))];
    let players = decode_rows(&rows).unwrap();
    let mut expected = Player::default();
    expected.username = "alice".to_string();
    expected.kills = 3;
    assert_eq!(players, vec![expected]);
}

#[test]
fn default_player_is_blank() {
    let player = Player::default();
    assert_eq!(player.username, "");
    assert_eq!(player.kills, 0);
    assert_eq!(player.deaths, 0);
    assert_eq!(player.score, 0);
    assert_eq!(player.time_played, 0);
    assert_eq!(player.longest_kill_streak, 0);
    assert_eq!(player.targets_destroyed, 0);
    assert_eq!(player.soldiers_healed, 0);
    assert_eq!(player.teamkills, 0);
    assert_eq!(player.distance_moved, Distance::zero());
    assert_eq!(player.distance_moved.numeral().parse::<f64>().unwrap(), 0.0);
    assert_eq!(player.shots_fired, 0);
    assert_eq!(player.throwables_thrown, 0);
    assert_eq!(player.rank_progression, 0);
    assert_eq!(player.rank_name, "");
    assert_eq!(player.clone(), player);
}

#[test]
fn page_with_only_a_header_is_the_terminal_page() {
    assert_eq!(decode_rows(&vec![full_header()]), Ok(vec![]));
    assert_eq!(decode_rows(&vec![]), Ok(vec![]));
}

#[test]
fn one_player_for_each_data_row() {
    for k in [0usize, 1, 2, 50, 99, 100] {
        let mut rows = vec![full_header()];
        for i in 0..k {
            rows.push(Row::Data(texts(&[&format!("p{}", i), &i.to_string()])));
        }
        let players = decode_rows(&rows).unwrap();
        assert_eq!(players.len(), k);
        for (i, player) in players.iter().enumerate() {
            assert_eq!(player.username, format!("p{}", i));
            assert_eq!(player.kills, i as i128);
        }
    }
}

#[test]
fn cell_without_text_takes_up_no_marker() {
    let rows = vec![
        Row::Header(texts(&["username", "kills", "deaths"])),
        Row::Data(vec![
            None,
            Some("bob".to_string()),
            None,
            Some("4".to_string()),
            Some("5".to_string()),
            None,
        ]),
    ];
    let players = decode_rows(&rows).unwrap();
    assert_eq!(players[0].username, "bob");
    assert_eq!(players[0].kills, 4);
    assert_eq!(players[0].deaths, 5);
}

#[test]
fn cells_beyond_the_markers_are_ignored() {
    let rows = vec![
        Row::Header(texts(&["username", "kills"])),
        Row::Data(texts(&["carol", "9", "not a number", "abcmin"])),
    ];
    let players = decode_rows(&rows).unwrap();
    assert_eq!(players[0].username, "carol");
    assert_eq!(players[0].kills, 9);
    assert_eq!(players[0].deaths, 0);
}

#[test]
fn data_row_before_any_header_is_blank() {
    let rows = vec![Row::Data(texts(&["dave", "1"]))];
    assert_eq!(decode_rows(&rows), Ok(vec![Player::default()]));
}

#[test]
fn unknown_markers_are_ignored_but_keep_their_position() {
    let rows = vec![
        Row::Header(texts(&["position", "username", "kd", "kills"])),
        Row::Data(texts(&["1", "erin", "not a number", "12"])),
    ];
    let players = decode_rows(&rows).unwrap();
    assert_eq!(players[0].username, "erin");
    assert_eq!(players[0].kills, 12);
}

#[test]
fn markers_accumulate_over_header_rows() {
    let rows = vec![
        Row::Header(texts(&["username"])),
        Row::Header(texts(&["kills"])),
        Row::Data(texts(&["frank", "2"])),
    ];
    let players = decode_rows(&rows).unwrap();
    assert_eq!(players[0].username, "frank");
    assert_eq!(players[0].kills, 2);
}

#[test]
fn later_cell_overwrites_an_earlier_one_for_the_same_field() {
    let rows = vec![
        Row::Header(texts(&["kills", "kills"])),
        Row::Data(texts(&["1", "2"])),
    ];
    assert_eq!(decode_rows(&rows).unwrap()[0].kills, 2);
}

#[test]
fn marker_element_without_class_is_unexpected_markup() {
    let rows = vec![
        Row::Header(vec![Some("username".to_string()), None]),
        Row::Data(texts(&["gina"])),
    ];
    assert_eq!(decode_rows(&rows), Err(DecodeError::UnexpectedMarkup));
}

#[test]
fn each_malformed_field_has_its_error() {
    let header = || Row::Header(texts(&["kills", "time_played", "distance_moved"]));
    assert_eq!(
        decode_rows(&vec![header(), Row::Data(texts(&["x", "1min", "1km"]))]),
        Err(DecodeError::MalformedCount)
    );
    assert_eq!(
        decode_rows(&vec![header(), Row::Data(texts(&["1", "abcmin", "1km"]))]),
        Err(DecodeError::MalformedDuration)
    );
    assert_eq!(
        decode_rows(&vec![header(), Row::Data(texts(&["1", "1min", "fast"]))]),
        Err(DecodeError::MalformedDistance)
    );
}

#[test]
fn first_malformed_cell_decides_the_error() {
    let rows = vec![
        Row::Header(texts(&["kills", "time_played", "distance_moved"])),
        Row::Data(texts(&["1", "1min", "1km"])),
        Row::Data(texts(&["2", "1min", "far"])),
        Row::Data(texts(&["x", "abcmin", "1km"])),
    ];
    assert_eq!(decode_rows(&rows), Err(DecodeError::MalformedDistance));
    let rows = vec![
        Row::Header(texts(&["kills", "time_played"])),
        Row::Data(texts(&["1", "abcmin"])),
        Row::Header(vec![None]),
    ];
    assert_eq!(decode_rows(&rows), Err(DecodeError::MalformedDuration));
}

#[test]
fn malformed_duration_fails_the_whole_page() {
    let selectors = TableSelectors::new().unwrap();
    let markup = table_markup(&[
        header_markup(&["username", "time_played"]),
        data_markup(&["good", "1h 1min"]),
        data_markup(&["bad", "abcmin"]),
        data_markup(&["never", "2min"]),
    ]);
    assert_eq!(decode_page(&markup, &selectors), Err(DecodeError::MalformedDuration));
}

#[test]
fn markers_name_their_fields() {
    assert_eq!(Field::from_marker("username"), Some(Field::Username));
    assert_eq!(Field::from_marker("kills"), Some(Field::Kills));
    assert_eq!(Field::from_marker("deaths"), Some(Field::Deaths));
    assert_eq!(Field::from_marker("score"), Some(Field::Score));
    assert_eq!(Field::from_marker("time_played"), Some(Field::TimePlayed));
    assert_eq!(Field::from_marker("longest_kill_streak"), Some(Field::LongestKillStreak));
    assert_eq!(Field::from_marker("targets_destroyed"), Some(Field::TargetsDestroyed));
    assert_eq!(Field::from_marker("soldiers_healed"), Some(Field::SoldiersHealed));
    assert_eq!(Field::from_marker("teamkills"), Some(Field::Teamkills));
    assert_eq!(Field::from_marker("distance_moved"), Some(Field::DistanceMoved));
    assert_eq!(Field::from_marker("shots_fired"), Some(Field::ShotsFired));
    assert_eq!(Field::from_marker("throwables_thrown"), Some(Field::ThrowablesThrown));
    assert_eq!(Field::from_marker("rank_progression"), Some(Field::RankProgression));
    assert_eq!(Field::from_marker("rank_name"), Some(Field::RankName));
    assert_eq!(Field::from_marker("Kills"), None);
    assert_eq!(Field::from_marker("kills "), None);
    assert_eq!(Field::from_marker(""), None);
    assert_eq!(Field::from_marker("kd"), None);
}

#[test]
fn set_field_leaves_the_player_alone_on_error() {
    let mut player = Player::default();
    assert_eq!(player.set_field(Field::Kills, "12"), Ok(()));
    assert_eq!(player.set_field(Field::Kills, "x"), Err(DecodeError::MalformedCount));
    assert_eq!(player.set_field(Field::TimePlayed, "x"), Err(DecodeError::MalformedDuration));
    assert_eq!(player.set_field(Field::DistanceMoved, "x"), Err(DecodeError::MalformedDistance));
    let mut expected = Player::default();
    expected.kills = 12;
    assert_eq!(player, expected);
}

#[test]
fn page_markup_is_read_into_rows() {
    let selectors = TableSelectors::new().unwrap();
    let markup = "<table><tbody>\
        <tr><th><div class=\"username\">Name</div></th><th>no marker</th>\
        <th><div class=\"kills\"><div>nested</div></div></th></tr>\
        <tr><td>alice</td><td><img src=\"rank.png\"></td><td><b>12</b> kills</td></tr>\
        <tr></tr>\
        </tbody></table>";
    assert_eq!(
        read_rows(markup, &selectors),
        Ok(vec![
            Row::Header(vec![Some("username".to_string()), Some("kills".to_string()), None]),
            Row::Data(vec![Some("alice".to_string()), None, Some("12".to_string())]),
            Row::Data(vec![]),
        ])
    );
}

#[test]
fn markup_without_a_table_has_no_rows() {
    let selectors = TableSelectors::new().unwrap();
    assert_eq!(read_rows("", &selectors), Ok(vec![]));
    assert_eq!(read_rows("<p>nothing here</p>", &selectors), Ok(vec![]));
    assert_eq!(decode_page("<p>nothing here</p>", &selectors), Ok(vec![]));
}

#[test]
fn rows_outside_a_table_body_are_not_selected() {
    let selectors = TableSelectors::new().unwrap();
    let markup = "<table><thead><tr><th><div class=\"kills\"></div></th></tr></thead>\
        <tbody><tr><td>5</td></tr></tbody></table>";
    assert_eq!(read_rows(markup, &selectors), Ok(vec![Row::Data(vec![Some("5".to_string())])]));
    assert_eq!(decode_page(markup, &selectors), Ok(vec![Player::default()]));
}

#[test]
fn page_is_decoded_from_markup() {
    let selectors = TableSelectors::new().unwrap();
    let markup = table_markup(&[
        header_markup(&["username", "kills", "time_played", "distance_moved", "rank_name"]),
        data_markup(&["alice", "10", "1h 1min", "1.5km", "Private"]),
        data_markup(&["bob", "20", "59min", "20km", "<i>Corporal</i>"]),
    ]);
    let players = decode_page(&markup, &selectors).unwrap();
    assert_eq!(players.len(), 2);
    assert_eq!(players[0].username, "alice");
    assert_eq!(players[0].kills, 10);
    assert_eq!(players[0].time_played, 61);
    assert_eq!(players[0].distance_moved.numeral(), "1.5");
    assert_eq!(players[0].rank_name, "Private");
    assert_eq!(players[1].username, "bob");
    assert_eq!(players[1].kills, 20);
    assert_eq!(players[1].time_played, 59);
    assert_eq!(players[1].distance_moved.numeral(), "20");
    assert_eq!(players[1].rank_name, "Corporal");
}

#[test]
fn header_only_page_decodes_to_no_players() {
    let selectors = TableSelectors::new().unwrap();
    let markup = table_markup(&[header_markup(&["username", "kills"])]);
    assert_eq!(decode_page(&markup, &selectors), Ok(vec![]));
}

#[test]
fn columns_are_bound_again_on_every_page() {
    let selectors = TableSelectors::new().unwrap();
    let first = table_markup(&[
        header_markup(&["username", "kills", "deaths"]),
        data_markup(&["alice", "1", "2"]),
    ]);
    let second = table_markup(&[
        header_markup(&["deaths", "username", "kills"]),
        data_markup(&["7", "bob", "8"]),
    ]);
    let a = decode_page(&first, &selectors).unwrap();
    let b = decode_page(&second, &selectors).unwrap();
    assert_eq!((a[0].username.as_str(), a[0].kills, a[0].deaths), ("alice", 1, 2));
    assert_eq!((b[0].username.as_str(), b[0].kills, b[0].deaths), ("bob", 8, 7));
}

#[test]
fn icon_only_cell_is_skipped_in_markup() {
    let selectors = TableSelectors::new().unwrap();
    let markup = table_markup(&[
        header_markup(&["username", "kills"]),
        data_markup(&["<img src=\"flag.png\">", "carol", "3", "<img src=\"rank.png\">"]),
    ]);
    let players = decode_page(&markup, &selectors).unwrap();
    assert_eq!(players[0].username, "carol");
    assert_eq!(players[0].kills, 3);
}

#[test]
fn marker_without_class_fails_the_page() {
    let selectors = TableSelectors::new().unwrap();
    let markup = "<table><tbody><tr><th><div>Name</div></th></tr>\
        <tr><td>alice</td></tr></tbody></table>";
    assert_eq!(decode_page(markup, &selectors), Err(DecodeError::UnexpectedMarkup));
}

#[test]
fn full_page_of_markup_gives_a_full_page_of_players() {
    let selectors = TableSelectors::new().unwrap();
    let mut rows = vec![header_markup(&["username", "rank_progression"])];
    for i in 0..100 {
        rows.push(data_markup(&[&format!("player{}", i), &(i * 10).to_string()]));
    }
    let players = decode_page(&table_markup(&rows), &selectors).unwrap();
    assert_eq!(players.len(), 100);
    assert_eq!(players[99].username, "player99");
    assert_eq!(players[99].rank_progression, 990);
}

#[test]
fn markup_over_the_limit_is_refused_unread() {
    let selectors = TableSelectors::new().unwrap();
    assert_eq!(MARKUP_LIMIT, 268_435_456);
    let markup = " ".repeat(MARKUP_LIMIT + 1);
    assert_eq!(read_rows(&markup, &selectors), Err(DecodeError::OversizedMarkup));
    assert_eq!(decode_page(&markup, &selectors), Err(DecodeError::OversizedMarkup));
}

#[test]
fn markup_limit_counts_characters() {
    let selectors = TableSelectors::new().unwrap();
    let markup = "<table><tbody><tr><td>\u{1F600}\u{e9}</td></tr></tbody></table>";
    assert_eq!(
        read_rows(markup, &selectors),
        Ok(vec![Row::Data(vec![Some("\u{1F600}\u{e9}".to_string())])])
    );
}
