use rwr_players::coerce::parse_distance;
use rwr_players::player::Player;
use rwr_players::store::{
    get_create_table_sql, get_drop_table_sql, insert_player_sql, DB_NAME, TABLE_NAME,
};

#[test]
fn drop_statement_names_the_table() {
    assert_eq!(get_drop_table_sql(TABLE_NAME), "DROP TABLE IF EXISTS rwr_players");
}

#[test]
fn create_statement_lists_every_column() {
    let expected = "CREATE TABLE \"rwr_players\" (
	\"id\" INTEGER NOT NULL,
	\"username\" TEXT NOT NULL,
	\"kills\" BIGINT NOT NULL,
	\"deaths\" BIGINT NOT NULL,
	\"score\" BIGINT NOT NULL,
	\"time_played\" BIGINT NOT NULL,
	\"longest_kill_streak\" BIGINT NOT NULL,
	\"targets_destroyed\" BIGINT NOT NULL,
	\"soldiers_healed\" BIGINT NOT NULL,
	\"teamkills\" BIGINT NOT NULL,
	\"distance_moved\" REAL NOT NULL,
	\"shots_fired\" BIGINT NOT NULL,
	\"throwables_thrown\" BIGINT NOT NULL,
	\"rank_progression\" BIGINT NOT NULL,
	\"rank_name\" TEXT NOT NULL,
	PRIMARY KEY (\"id\")
);";
    assert_eq!(get_create_table_sql(TABLE_NAME), expected);
}

#[test]
fn statements_take_any_table_name() {
    assert_eq!(get_drop_table_sql("t"), "DROP TABLE IF EXISTS t");
    assert_eq!(get_drop_table_sql(""), "DROP TABLE IF EXISTS ");
    assert!(get_create_table_sql("other").starts_with("CREATE TABLE \"other\" (\n\t\"id\" INTEGER NOT NULL,"));
    assert_eq!(DB_NAME, "rwr_players.db");
}

fn sample_player() -> Player {
    Player {
        username: "MR. BANG".to_string(),
        kills: 195873,
        deaths: 21400,
        score: 3510664,
        time_played: 103128,
        longest_kill_streak: 954,
        targets_destroyed: 1645,
        soldiers_healed: 320,
        teamkills: 1800,
        distance_moved: parse_distance("2134.3km").unwrap(),
        shots_fired: 5587413,
        throwables_thrown: 65743,
        rank_progression: 18293782,
        rank_name: "General of the Army".to_string(),
    }
}

#[test]
fn insert_statement_lists_every_value() {
    assert_eq!(
        insert_player_sql(&sample_player()),
        "INSERT INTO rwr_players (username, kills, deaths, score,time_played,longest_kill_streak,targets_destroyed,soldiers_healed,teamkills,distance_moved,shots_fired,throwables_thrown,rank_progression,rank_name)
VALUES('MR. BANG',195873,21400,3510664,103128,954,1645,320,1800,2134.3,5587413,65743,18293782,'General of the Army')"
    );
}

#[test]
fn insert_statement_of_the_blank_player() {
    assert_eq!(
        insert_player_sql(&Player::default()),
        "INSERT INTO rwr_players (username, kills, deaths, score,time_played,longest_kill_streak,targets_destroyed,soldiers_healed,teamkills,distance_moved,shots_fired,throwables_thrown,rank_progression,rank_name)
VALUES('',0,0,0,0,0,0,0,0,0,0,0,0,'')"
    );
}

#[test]
fn statements_run_against_a_database() {
    let connection = rusqlite::Connection::open_in_memory().unwrap();
    connection.execute(&get_drop_table_sql(TABLE_NAME), ()).unwrap();
    connection.execute(&get_create_table_sql(TABLE_NAME), ()).unwrap();
    assert_eq!(connection.execute(&insert_player_sql(&sample_player()), ()).unwrap(), 1);
    assert_eq!(connection.execute(&insert_player_sql(&Player::default()), ()).unwrap(), 1);
    let row: (i64, String, i64, i64, f64, String) = connection
        .query_row(
            "SELECT id, username, kills, time_played, distance_moved, rank_name FROM rwr_players WHERE id = 1",
            (),
            |row| Ok((row.get(0)?, row.get(1)?, row.get(2)?, row.get(3)?, row.get(4)?, row.get(5)?)),
        )
        .unwrap();
    assert_eq!(
        row,
        (1, "MR. BANG".to_string(), 195873, 103128, 2134.3, "General of the Army".to_string())
    );
    let blank: (i64, String, f64) = connection
        .query_row(
            "SELECT id, username, distance_moved FROM rwr_players WHERE id = 2",
            (),
            |row| Ok((row.get(0)?, row.get(1)?, row.get(2)?)),
        )
        .unwrap();
    assert_eq!(blank, (2, String::new(), 0.0));
    connection.execute(&get_drop_table_sql(TABLE_NAME), ()).unwrap();
    assert!(connection.execute(&insert_player_sql(&Player::default()), ()).is_err());
}

#[test]
fn quote_in_a_text_is_doubled() {
    let mut player = Player::default();
    player.username = "O'Brien".to_string();
    player.rank_name = "'".to_string();
    assert_eq!(
        insert_player_sql(&player),
        "INSERT INTO rwr_players (username, kills, deaths, score,time_played,longest_kill_streak,targets_destroyed,soldiers_healed,teamkills,distance_moved,shots_fired,throwables_thrown,rank_progression,rank_name)
VALUES('O''Brien',0,0,0,0,0,0,0,0,0,0,0,0,'''')"
    );
}

#[test]
fn texts_are_stored_as_they_are_and_never_read_as_statements() {
    let names = [
        "O'Brien",
        "'",
        "''",
        "'''a''b'",
        "x'); DROP TABLE rwr_players; --",
        "a','b",
        "\\'; DELETE FROM rwr_players; --",
        "\"double\" -- and ; /* marks */",
        "plain",
        "",
    ];
    let connection = rusqlite::Connection::open_in_memory().unwrap();
    connection.execute(&get_create_table_sql(TABLE_NAME), ()).unwrap();
    for (i, name) in names.iter().enumerate() {
        let mut player = Player::default();
        player.username = name.to_string();
        player.rank_name = name.chars().rev().collect();
        player.kills = i as i128;
        assert_eq!(connection.execute(&insert_player_sql(&player), ()).unwrap(), 1);
    }
    let rows: i64 = connection
        .query_row("SELECT COUNT(*) FROM rwr_players", (), |row| row.get(0))
        .unwrap();
    assert_eq!(rows, names.len() as i64);
    for (i, name) in names.iter().enumerate() {
        let stored: (String, String, i64) = connection
            .query_row(
                &format!("SELECT username, rank_name, kills FROM rwr_players WHERE id = {}", i + 1),
                (),
                |row| Ok((row.get(0)?, row.get(1)?, row.get(2)?)),
            )
            .unwrap();
        assert_eq!(stored, (name.to_string(), name.chars().rev().collect(), i as i64));
    }
}

#[test]
fn table_name_is_copied_as_it_is() {
    assert_eq!(get_drop_table_sql("a \"b\" c"), "DROP TABLE IF EXISTS a \"b\" c");
    let create = get_create_table_sql("a \"b\" c");
    assert!(create.starts_with("CREATE TABLE \"a \"b\" c\" (\n\t\"id\" INTEGER NOT NULL,"));
    let plain = get_create_table_sql("t");
    assert_eq!(create.len(), plain.len() + "a \"b\" c".len() - 1);
    assert_eq!(create[22..], plain[16..]);
}
