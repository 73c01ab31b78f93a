use maui::{ErrorKind, Event, PlayerKind, ServerInfo, Subset};

fn mk_words(words: &[&str]) -> Vec<String> {
    words.iter().map(|w| (*w).to_string()).collect()
}

#[test]
fn join_event_carries_name_and_guid() {
    let e = Event::from_words(mk_words(&["player.onJoin", "Alice", "GUID123"])).unwrap();
    match e {
        Event::PlayerOnJoin { name, guid } => {
            assert_eq!(name, "Alice");
            assert_eq!(guid, "GUID123");
        },
        other => panic!("expected a join event, got {:?}", other),
    }
}

#[test]
fn kill_event_parses_headshot_flag() {
    let e = Event::from_words(mk_words(&["player.onKill", "Alice", "Bob", "knife", "true"]))
        .unwrap();
    match e {
        Event::PlayerOnKill { killer, victim, weapon, headshot } => {
            assert_eq!(killer, "Alice");
            assert_eq!(victim, "Bob");
            assert_eq!(weapon, "knife");
            assert!(headshot);
        },
        other => panic!("expected a kill event, got {:?}", other),
    }
}

#[test]
fn chat_event_parses_squad_subset() {
    let e = Event::from_words(mk_words(&["player.onChat", "Alice", "push B", "squad", "1", "3"]))
        .unwrap();
    match e {
        Event::PlayerOnChat { source, message, subset } => {
            assert_eq!(source, "Alice");
            assert_eq!(message, "push B");
            match subset {
                Subset::Squad { team_id, squad_id } => {
                    assert_eq!(team_id, 1);
                    assert_eq!(squad_id, 3);
                },
                other => panic!("expected a squad subset, got {:?}", other),
            }
        },
        other => panic!("expected a chat event, got {:?}", other),
    }
}

#[test]
fn chat_event_rejects_unknown_subset() {
    let err = Event::from_words(mk_words(&["player.onChat", "Alice", "hi", "everyone"]))
        .unwrap_err();
    assert_eq!(err.kind(), ErrorKind::Parse);
}

#[test]
fn leave_event_skips_column_names() {
    // One ignored word, a column count of 2, two column names and one
    // further skipped word, then the ten-field player block.
    let e = Event::from_words(mk_words(&[
        "player.onLeave",
        "Alice",
        "2",
        "name",
        "guid",
        "1",
        "Alice",
        "GUID123",
        "1",
        "2",
        "17",
        "3",
        "4200",
        "45",
        "23",
        "0",
    ]))
    .unwrap();
    match e {
        Event::PlayerOnLeave(p) => {
            assert_eq!(p.name, "Alice");
            assert_eq!(p.guid, "GUID123");
            assert_eq!(p.team_id, 1);
            assert_eq!(p.squad_id, 2);
            assert_eq!(p.kills, 17);
            assert_eq!(p.deaths, 3);
            assert_eq!(p.score, 4200);
            assert_eq!(p.rank, 45);
            assert_eq!(p.ping, 23);
            assert_eq!(p.kind, PlayerKind::Player);
        },
        other => panic!("expected a leave event, got {:?}", other),
    }
}

#[test]
fn round_over_players_parses_each_row() {
    let e = Event::from_words(mk_words(&[
        "server.onRoundOverPlayers",
        "1",
        "name",
        "2",
        "Alice",
        "G1",
        "1",
        "0",
        "10",
        "2",
        "900",
        "12",
        "30",
        "0",
        "Bob",
        "G2",
        "2",
        "1",
        "-3",
        "8",
        "100",
        "3",
        "250",
        "1",
    ]))
    .unwrap();
    match e {
        Event::ServerOnRoundOverPlayers(players) => {
            assert_eq!(players.len(), 2);
            assert_eq!(players[0].name, "Alice");
            assert_eq!(players[0].kills, 10);
            assert_eq!(players[1].name, "Bob");
            assert_eq!(players[1].kills, -3);
            assert_eq!(players[1].kind, PlayerKind::Spectator);
        },
        other => panic!("expected a round-over-players event, got {:?}", other),
    }
}

#[test]
fn team_scores_event_keeps_scores_verbatim() {
    let e = Event::from_words(mk_words(&[
        "server.onRoundOverTeamScores",
        "2",
        "12.5",
        "30.0",
        "50",
    ]))
    .unwrap();
    match e {
        Event::ServerOnRoundOverTeamScores { num_of_teams, team_scores, target_score } => {
            assert_eq!(num_of_teams, 2);
            assert_eq!(team_scores, vec!["12.5".to_string(), "30.0".to_string()]);
            assert_eq!(target_score, 50);
        },
        other => panic!("expected a team-scores event, got {:?}", other),
    }
}

#[test]
fn level_loaded_event() {
    let e = Event::from_words(mk_words(&["server.onLevelLoaded", "MP_Prison", "conquest", "1", "2"]))
        .unwrap();
    match e {
        Event::ServerOnLevelLoaded { map, gamemode, rounds_played, rounds_total } => {
            assert_eq!(map, "MP_Prison");
            assert_eq!(gamemode, "conquest");
            assert_eq!(rounds_played, 1);
            assert_eq!(rounds_total, 2);
        },
        other => panic!("expected a level-loaded event, got {:?}", other),
    }
}

#[test]
fn unknown_event_name_is_a_parse_error() {
    let err = Event::from_words(mk_words(&["server.onSomethingNew", "x"])).unwrap_err();
    assert_eq!(err.kind(), ErrorKind::Parse);
    let err = Event::from_words(Vec::new()).unwrap_err();
    assert_eq!(err.kind(), ErrorKind::Parse);
}

#[test]
fn missing_event_field_is_a_parse_error() {
    let err = Event::from_words(mk_words(&["player.onJoin", "Alice"])).unwrap_err();
    assert_eq!(err.kind(), ErrorKind::Parse);
    let err = Event::from_words(mk_words(&["server.onRoundOver", "not-a-number"])).unwrap_err();
    assert_eq!(err.kind(), ErrorKind::Parse);
}

#[test]
fn server_info_parses_in_protocol_order() {
    let info = ServerInfo::from_words(mk_words(&[
        "My Server",
        "12",
        "64",
        "ConquestLarge0",
        "MP_Prison",
        "1",
        "2",
        "2",
        "100.5",
        "250.0",
        "800",
        "AVAILABLE",
        "true",
        "false",
        "true",
        "3600",
        "120",
        "1.2.3.4:25200",
        "v1.832",
        "false",
        "EU",
        "ams",
        "NL",
        "10",
        "IN_GAME",
    ]))
    .unwrap();
    assert_eq!(info.name, "My Server");
    assert_eq!(info.player_count, 12);
    assert_eq!(info.max_player_count, 64);
    assert_eq!(info.game_mode, "ConquestLarge0");
    assert_eq!(info.map, "MP_Prison");
    assert_eq!(info.rounds_played, 1);
    assert_eq!(info.rounds_total, 2);
    assert_eq!(info.num_of_teams, 2);
    assert_eq!(info.team_scores, vec!["100.5".to_string(), "250.0".to_string()]);
    assert_eq!(info.target_score, 800);
    assert_eq!(info.online_state, "AVAILABLE");
    assert!(info.ranked);
    assert!(!info.punkbuster);
    assert!(info.game_password);
    assert_eq!(info.uptime, 3600);
    assert_eq!(info.round_time, 120);
    assert_eq!(info.addr, "1.2.3.4:25200");
    assert_eq!(info.punkbuster_version, "v1.832");
    assert!(!info.join_queue);
    assert_eq!(info.region, "EU");
    assert_eq!(info.ping_site, "ams");
    assert_eq!(info.country, "NL");
    assert_eq!(info.blaze_player_count, 10);
    assert_eq!(info.blaze_game_state, "IN_GAME");
}

#[test]
fn server_info_with_missing_tail_is_a_parse_error() {
    let err = ServerInfo::from_words(mk_words(&["My Server", "12", "64"])).unwrap_err();
    assert_eq!(err.kind(), ErrorKind::Parse);
}
