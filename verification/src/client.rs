use vstd::prelude::*;

use crate::error::{Error, ErrorKind};
use crate::models::{
    parse_player, players_view, prepend_players, spec_parse_player, spec_parse_players, PlayerInfo,
    PlayerInfoView,
};
use crate::packet::words_view;
use crate::words::{parse_usize, spec_parse_usize, str_eq};

verus! {

/// What a caller's `send` observes, given what came back on its completion
/// slot: `None` when the slot was dropped without a reply (the engine or
/// the connection is gone), `Some` when the engine delivered a status word
/// and payload words.
///
/// A dropped slot is a `ConnectionLost` error; a delivered reply is the
/// payload when the status is `OK`, and a `Status` error carrying the
/// status string otherwise.
pub fn interpret_response(reply: Option<(String, Vec<String>)>) -> (r: Result<Vec<String>, Error>)
    ensures
        match reply {
            None => r matches Err(e) && e.spec_kind() == ErrorKind::ConnectionLost && e.wf(),
            Some((status, payload)) => {
                if status@ == "OK"@ {
                    r matches Ok(p) && words_view(p@) == words_view(payload@)
                } else {
                    r matches Err(e) && e.spec_kind() == ErrorKind::Status && e.spec_status()
                        == Some(status@) && e.wf()
                }
            },
        },
{
    match reply {
        Some((status, payload)) => {
            if str_eq(status.as_str(), "OK") {
                Ok(payload)
            } else {
                Err(Error::new_status(status))
            }
        },
        None => Err(Error::new_connection_lost()),
    }
}

/// The word sequence of the plain-text login command.
pub fn login_words(password: String) -> (r: Vec<String>)
    ensures
        words_view(r@) == seq!["login.plainText"@, password@],
{
    let ghost p = password@;
    let mut r: Vec<String> = Vec::new();
    r.push("login.plainText".to_owned());
    r.push(password);
    proof {
        assert(words_view(r@) =~= seq!["login.plainText"@, p]);
    }
    r
}

/// The word sequence that turns server-push events on or off.
pub fn events_enabled_words(enabled: bool) -> (r: Vec<String>)
    ensures
        words_view(r@) == seq![
            "admin.eventsEnabled"@,
            if enabled {
                "true"@
            } else {
                "false"@
            },
        ],
{
    let mut r: Vec<String> = Vec::new();
    r.push("admin.eventsEnabled".to_owned());
    if enabled {
        r.push("true".to_owned());
        proof {
            assert(words_view(r@) =~= seq!["admin.eventsEnabled"@, "true"@]);
        }
    } else {
        r.push("false".to_owned());
        proof {
            assert(words_view(r@) =~= seq!["admin.eventsEnabled"@, "false"@]);
        }
    }
    r
}

/// The word sequence of the server-status query.
pub fn server_info_words() -> (r: Vec<String>)
    ensures
        words_view(r@) == seq!["serverInfo"@],
{
    let mut r: Vec<String> = Vec::new();
    r.push("serverInfo".to_owned());
    proof {
        assert(words_view(r@) =~= seq!["serverInfo"@]);
    }
    r
}

/// The word sequence that asks for the full player table.
pub fn list_players_words() -> (r: Vec<String>)
    ensures
        words_view(r@) == seq!["admin.listPlayers"@, "all"@],
{
    let mut r: Vec<String> = Vec::new();
    r.push("admin.listPlayers".to_owned());
    r.push("all".to_owned());
    proof {
        assert(words_view(r@) =~= seq!["admin.listPlayers"@, "all"@]);
    }
    r
}

/// What decoding a player-table reply payload yields: a column count, that
/// many column-name words, a row count, then one ten-word block per row.
/// A column count of zero, missing words or a bad typed field fail the
/// decode.
pub open spec fn spec_parse_players_reply(ws: Seq<Seq<char>>) -> Option<Seq<PlayerInfoView>> {
    if ws.len() < 1 {
        None
    } else {
        match spec_parse_usize(ws[0]) {
            Some(offset) => {
                if offset >= 1 && ws.len() > offset + 1 {
                    match spec_parse_usize(ws[offset + 1]) {
                        Some(count) => spec_parse_players(ws, offset + 2, count as int),
                        None => None,
                    }
                } else {
                    None
                }
            },
            None => None,
        }
    }
}

/// Decodes a player-table reply payload, following
/// [`spec_parse_players_reply`] exactly.
pub fn parse_players_reply(words: &Vec<String>) -> (r: Result<Vec<PlayerInfo>, Error>)
    ensures
        match r {
            Ok(ps) => spec_parse_players_reply(words_view(words@)) == Some(players_view(ps@)),
            Err(e) => spec_parse_players_reply(words_view(words@)) is None && e.spec_kind()
                == ErrorKind::Parse && e.wf(),
        },
{
    let ghost ws = words_view(words@);
    if words.len() < 1 {
        return Err(Error::new_parse("invalid player list".to_owned()));
    }
    let offset = match parse_usize(words[0].as_str()) {
        Some(v) => v,
        None => return Err(Error::new_parse("invalid player list".to_owned())),
    };
    if words.len() < 2 || offset < 1 || offset > words.len() - 2 {
        return Err(Error::new_parse("invalid player list".to_owned()));
    }
    let count = match parse_usize(words[offset + 1].as_str()) {
        Some(v) => v,
        None => return Err(Error::new_parse("invalid player list".to_owned())),
    };
    let mut players: Vec<PlayerInfo> = Vec::new();
    let mut cur: usize = offset + 2;
    let mut k: usize = 0;
    while k < count
        invariant
            ws == words_view(words@),
            ws.len() == words@.len() <= usize::MAX,
            k <= count,
            players@.len() == k as int,
            cur == offset + 2 + 10 * k,
            spec_parse_players(ws, offset as int + 2, count as int) == prepend_players(
                players_view(players@),
                spec_parse_players(ws, cur as int, count as int - k as int),
            ),
            spec_parse_players_reply(ws) == spec_parse_players(
                ws,
                offset as int + 2,
                count as int,
            ),
        decreases count - k,
    {
        let ghost pre = players_view(players@);
        if cur > usize::MAX - 10 {
            proof {
                assert(spec_parse_player(ws, cur as int) is None);
            }
            return Err(Error::new_parse("invalid player list".to_owned()));
        }
        let p = match parse_player(words, cur) {
            Some(p) => p,
            None => return Err(Error::new_parse("invalid player list".to_owned())),
        };
        let ghost pv = p@;
        players.push(p);
        proof {
            assert(players_view(players@) =~= pre.push(pv));
            match spec_parse_players(ws, cur as int + 10, count as int - k as int - 1) {
                None => {},
                Some(rest) => {
                    assert(pre + (seq![pv] + rest) =~= pre.push(pv) + rest);
                },
            }
        }
        cur = cur + 10;
        k = k + 1;
    }
    proof {
        assert(players_view(players@) + Seq::<PlayerInfoView>::empty() =~= players_view(players@));
    }
    Ok(players)
}

} // verus!
