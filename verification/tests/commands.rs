use maui::{
    events_enabled_words, list_players_words, login_words, parse_players_reply, server_info_words,
    ErrorKind, PlayerInfo, PlayerKind, Subset,
};

fn mk_words(words: &[&str]) -> Vec<String> {
    words.iter().map(|w| (*w).to_string()).collect()
}

#[test]
fn command_builders_assemble_the_documented_words() {
    assert_eq!(login_words("secret".to_string()), mk_words(&["login.plainText", "secret"]));
    assert_eq!(events_enabled_words(true), mk_words(&["admin.eventsEnabled", "true"]));
    assert_eq!(events_enabled_words(false), mk_words(&["admin.eventsEnabled", "false"]));
    assert_eq!(server_info_words(), mk_words(&["serverInfo"]));
    assert_eq!(list_players_words(), mk_words(&["admin.listPlayers", "all"]));
}

#[test]
fn subset_words_follow_the_tag_grammar() {
    assert_eq!(Subset::All.into_words(), mk_words(&["all"]));
    assert_eq!(
        Subset::Squad { team_id: 1, squad_id: 3 }.into_words(),
        mk_words(&["squad", "1", "3"])
    );
    assert_eq!(Subset::Team { team_id: 2 }.into_words(), mk_words(&["team", "2"]));
    assert_eq!(
        Subset::Player { name: "Alice".to_string() }.into_words(),
        mk_words(&["player", "Alice"])
    );
}

#[test]
fn player_table_reply_parses_each_row() {
    let players = parse_players_reply(&mk_words(&[
        "2",
        "name",
        "guid",
        "2",
        "Alice",
        "G1",
        "1",
        "0",
        "10",
        "2",
        "900",
        "12",
        "30",
        "0",
        "Bob",
        "G2",
        "2",
        "1",
        "-3",
        "8",
        "100",
        "3",
        "250",
        "3",
    ]))
    .unwrap();
    assert_eq!(players.len(), 2);
    assert_eq!(players[0].name, "Alice");
    assert_eq!(players[0].guid, "G1");
    assert_eq!(players[0].team_id, 1);
    assert_eq!(players[0].squad_id, 0);
    assert_eq!(players[0].kills, 10);
    assert_eq!(players[0].deaths, 2);
    assert_eq!(players[0].score, 900);
    assert_eq!(players[0].rank, 12);
    assert_eq!(players[0].ping, 30);
    assert_eq!(players[0].kind, PlayerKind::Player);
    assert_eq!(players[1].name, "Bob");
    assert_eq!(players[1].kills, -3);
    assert_eq!(players[1].kind, PlayerKind::MobileCommander);
}

#[test]
fn player_table_reply_rejects_bad_shapes() {
    // Empty payload, a zero column count, and a truncated row all fail.
    assert_eq!(parse_players_reply(&Vec::new()).unwrap_err().kind(), ErrorKind::Parse);
    assert_eq!(
        parse_players_reply(&mk_words(&["0", "1"])).unwrap_err().kind(),
        ErrorKind::Parse
    );
    assert_eq!(
        parse_players_reply(&mk_words(&["1", "name", "1", "Alice", "G1"]))
            .unwrap_err()
            .kind(),
        ErrorKind::Parse
    );
}

#[test]
fn new_player_info_has_documented_defaults() {
    let p = PlayerInfo::new("Alice".to_string(), "GUID123".to_string());
    assert_eq!(p.name, "Alice");
    assert_eq!(p.guid, "GUID123");
    assert_eq!(p.team_id, 0);
    assert_eq!(p.squad_id, 0);
    assert_eq!(p.kills, 0);
    assert_eq!(p.deaths, 0);
    assert_eq!(p.score, 0);
    assert_eq!(p.rank, 0);
    assert_eq!(p.ping, 0);
    assert_eq!(p.kind, PlayerKind::Player);
}
