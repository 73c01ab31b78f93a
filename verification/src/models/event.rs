use vstd::prelude::*;

use crate::error::{Error, ErrorKind};
use crate::models::player::{
    parse_player, players_view, prepend_players, spec_parse_player, spec_parse_players, PlayerInfo,
    PlayerInfoView,
};
use crate::models::{Subset, SubsetView};
use crate::packet::words_view;
use crate::words::{
    parse_bool, parse_u32, parse_usize, spec_parse_bool, spec_parse_u32, spec_parse_usize, str_eq,
};

verus! {

/// A server-initiated notification, decoded from a push frame's words.
/// One variant per event schema; the set is fixed by the protocol.
///
/// Team scores arrive as decimal words that may carry a fractional part;
/// they are kept verbatim, for the caller to interpret.
#[derive(Clone, Debug)]
pub enum Event {
    PlayerOnJoin { name: String, guid: String },
    PlayerOnAuthenticated { name: String },
    PlayerOnDisconnect { name: String, reason: String },
    PlayerOnLeave(PlayerInfo),
    PlayerOnSpawn { name: String, team_id: usize },
    PlayerOnKill { killer: String, victim: String, weapon: String, headshot: bool },
    PlayerOnChat { source: String, message: String, subset: Subset },
    PlayerOnSquadChange { name: String, team_id: usize, squad_id: usize },
    PlayerOnTeamChange { name: String, team_id: usize, squad_id: usize },
    PunkBusterOnMessage { message: String },
    ServerOnRoundOver { team_id: usize },
    ServerOnRoundOverPlayers(Vec<PlayerInfo>),
    ServerOnRoundOverTeamScores {
        num_of_teams: usize,
        team_scores: Vec<String>,
        target_score: u32,
    },
    ServerOnLevelLoaded { map: String, gamemode: String, rounds_played: usize, rounds_total: usize },
    ServerOnMaxPlayerCountChange { count: usize },
}

/// The mathematical content of an [`Event`].
pub enum EventView {
    PlayerOnJoin { name: Seq<char>, guid: Seq<char> },
    PlayerOnAuthenticated { name: Seq<char> },
    PlayerOnDisconnect { name: Seq<char>, reason: Seq<char> },
    PlayerOnLeave(PlayerInfoView),
    PlayerOnSpawn { name: Seq<char>, team_id: usize },
    PlayerOnKill { killer: Seq<char>, victim: Seq<char>, weapon: Seq<char>, headshot: bool },
    PlayerOnChat { source: Seq<char>, message: Seq<char>, subset: SubsetView },
    PlayerOnSquadChange { name: Seq<char>, team_id: usize, squad_id: usize },
    PlayerOnTeamChange { name: Seq<char>, team_id: usize, squad_id: usize },
    PunkBusterOnMessage { message: Seq<char> },
    ServerOnRoundOver { team_id: usize },
    ServerOnRoundOverPlayers(Seq<PlayerInfoView>),
    ServerOnRoundOverTeamScores {
        num_of_teams: usize,
        team_scores: Seq<Seq<char>>,
        target_score: u32,
    },
    ServerOnLevelLoaded {
        map: Seq<char>,
        gamemode: Seq<char>,
        rounds_played: usize,
        rounds_total: usize,
    },
    ServerOnMaxPlayerCountChange { count: usize },
}

impl View for Event {
    type V = EventView;

    open spec fn view(&self) -> EventView {
        match self {
            Event::PlayerOnJoin { name, guid } => EventView::PlayerOnJoin {
                name: name@,
                guid: guid@,
            },
            Event::PlayerOnAuthenticated { name } => EventView::PlayerOnAuthenticated {
                name: name@,
            },
            Event::PlayerOnDisconnect { name, reason } => EventView::PlayerOnDisconnect {
                name: name@,
                reason: reason@,
            },
            Event::PlayerOnLeave(p) => EventView::PlayerOnLeave(p@),
            Event::PlayerOnSpawn { name, team_id } => EventView::PlayerOnSpawn {
                name: name@,
                team_id: *team_id,
            },
            Event::PlayerOnKill { killer, victim, weapon, headshot } => EventView::PlayerOnKill {
                killer: killer@,
                victim: victim@,
                weapon: weapon@,
                headshot: *headshot,
            },
            Event::PlayerOnChat { source, message, subset } => EventView::PlayerOnChat {
                source: source@,
                message: message@,
                subset: subset@,
            },
            Event::PlayerOnSquadChange { name, team_id, squad_id } => {
                EventView::PlayerOnSquadChange {
                    name: name@,
                    team_id: *team_id,
                    squad_id: *squad_id,
                }
            },
            Event::PlayerOnTeamChange { name, team_id, squad_id } => EventView::PlayerOnTeamChange {
                name: name@,
                team_id: *team_id,
                squad_id: *squad_id,
            },
            Event::PunkBusterOnMessage { message } => EventView::PunkBusterOnMessage {
                message: message@,
            },
            Event::ServerOnRoundOver { team_id } => EventView::ServerOnRoundOver {
                team_id: *team_id,
            },
            Event::ServerOnRoundOverPlayers(ps) => EventView::ServerOnRoundOverPlayers(
                players_view(ps@),
            ),
            Event::ServerOnRoundOverTeamScores { num_of_teams, team_scores, target_score } => {
                EventView::ServerOnRoundOverTeamScores {
                    num_of_teams: *num_of_teams,
                    team_scores: words_view(team_scores@),
                    target_score: *target_score,
                }
            },
            Event::ServerOnLevelLoaded { map, gamemode, rounds_played, rounds_total } => {
                EventView::ServerOnLevelLoaded {
                    map: map@,
                    gamemode: gamemode@,
                    rounds_played: *rounds_played,
                    rounds_total: *rounds_total,
                }
            },
            Event::ServerOnMaxPlayerCountChange { count } => {
                EventView::ServerOnMaxPlayerCountChange { count: *count }
            },
        }
    }
}

/// What decoding a chat-subset suffix starting at word `i` yields.
pub open spec fn spec_parse_subset(ws: Seq<Seq<char>>, i: int) -> Option<SubsetView> {
    if !(0 <= i && i < ws.len()) {
        None
    } else if ws[i] == "all"@ {
        Some(SubsetView::All)
    } else if ws[i] == "team"@ {
        if i + 2 <= ws.len() {
            match spec_parse_usize(ws[i + 1]) {
                Some(team_id) => Some(SubsetView::Team { team_id }),
                None => None,
            }
        } else {
            None
        }
    } else if ws[i] == "squad"@ {
        if i + 3 <= ws.len() {
            match (spec_parse_usize(ws[i + 1]), spec_parse_usize(ws[i + 2])) {
                (Some(team_id), Some(squad_id)) => Some(SubsetView::Squad { team_id, squad_id }),
                _ => None,
            }
        } else {
            None
        }
    } else if ws[i] == "player"@ {
        if i + 2 <= ws.len() {
            Some(SubsetView::Player { name: ws[i + 1] })
        } else {
            None
        }
    } else {
        None
    }
}

/// What decoding a push frame's words into a notification yields: the first
/// word names the event's schema and the remaining words carry its fields in
/// a fixed order. A missing word, a bad typed field or an unknown event name
/// fails the decode.
pub open spec fn spec_parse_event(ws: Seq<Seq<char>>) -> Option<EventView> {
    if ws.len() == 0 {
        None
    } else if ws[0] == "player.onJoin"@ {
        if ws.len() >= 3 {
            Some(EventView::PlayerOnJoin { name: ws[1], guid: ws[2] })
        } else {
            None
        }
    } else if ws[0] == "player.onAuthenticated"@ {
        if ws.len() >= 2 {
            Some(EventView::PlayerOnAuthenticated { name: ws[1] })
        } else {
            None
        }
    } else if ws[0] == "player.onDisconnect"@ {
        if ws.len() >= 3 {
            Some(EventView::PlayerOnDisconnect { name: ws[1], reason: ws[2] })
        } else {
            None
        }
    } else if ws[0] == "player.onLeave"@ {
        if ws.len() >= 3 {
            match spec_parse_usize(ws[2]) {
                Some(offset) => match spec_parse_player(ws, offset + 4) {
                    Some(p) => Some(EventView::PlayerOnLeave(p)),
                    None => None,
                },
                None => None,
            }
        } else {
            None
        }
    } else if ws[0] == "player.onSpawn"@ {
        if ws.len() >= 3 {
            match spec_parse_usize(ws[2]) {
                Some(team_id) => Some(EventView::PlayerOnSpawn { name: ws[1], team_id }),
                None => None,
            }
        } else {
            None
        }
    } else if ws[0] == "player.onKill"@ {
        if ws.len() >= 5 {
            match spec_parse_bool(ws[4]) {
                Some(headshot) => Some(
                    EventView::PlayerOnKill {
                        killer: ws[1],
                        victim: ws[2],
                        weapon: ws[3],
                        headshot,
                    },
                ),
                None => None,
            }
        } else {
            None
        }
    } else if ws[0] == "player.onChat"@ {
        if ws.len() >= 4 {
            match spec_parse_subset(ws, 3) {
                Some(subset) => Some(
                    EventView::PlayerOnChat { source: ws[1], message: ws[2], subset },
                ),
                None => None,
            }
        } else {
            None
        }
    } else if ws[0] == "player.onSquadChange"@ {
        if ws.len() >= 4 {
            match (spec_parse_usize(ws[2]), spec_parse_usize(ws[3])) {
                (Some(team_id), Some(squad_id)) => Some(
                    EventView::PlayerOnSquadChange { name: ws[1], team_id, squad_id },
                ),
                _ => None,
            }
        } else {
            None
        }
    } else if ws[0] == "player.onTeamChange"@ {
        if ws.len() >= 4 {
            match (spec_parse_usize(ws[2]), spec_parse_usize(ws[3])) {
                (Some(team_id), Some(squad_id)) => Some(
                    EventView::PlayerOnTeamChange { name: ws[1], team_id, squad_id },
                ),
                _ => None,
            }
        } else {
            None
        }
    } else if ws[0] == "punkBuster.onMessage"@ {
        if ws.len() >= 2 {
            Some(EventView::PunkBusterOnMessage { message: ws[1] })
        } else {
            None
        }
    } else if ws[0] == "server.onRoundOver"@ {
        if ws.len() >= 2 {
            match spec_parse_usize(ws[1]) {
                Some(team_id) => Some(EventView::ServerOnRoundOver { team_id }),
                None => None,
            }
        } else {
            None
        }
    } else if ws[0] == "server.onRoundOverPlayers"@ {
        if ws.len() >= 2 {
            match spec_parse_usize(ws[1]) {
                Some(offset) => {
                    if offset >= 1 && ws.len() > offset + 2 {
                        match spec_parse_usize(ws[offset + 2]) {
                            Some(count) => match spec_parse_players(
                                ws,
                                offset + 3,
                                count as int,
                            ) {
                                Some(ps) => Some(EventView::ServerOnRoundOverPlayers(ps)),
                                None => None,
                            },
                            None => None,
                        }
                    } else {
                        None
                    }
                },
                None => None,
            }
        } else {
            None
        }
    } else if ws[0] == "server.onRoundOverTeamScores"@ {
        if ws.len() >= 2 {
            match spec_parse_usize(ws[1]) {
                Some(num_of_teams) => {
                    if ws.len() > num_of_teams + 2 {
                        match spec_parse_u32(ws[num_of_teams + 2]) {
                            Some(target_score) => Some(
                                EventView::ServerOnRoundOverTeamScores {
                                    num_of_teams,
                                    team_scores: ws.subrange(2, num_of_teams + 2),
                                    target_score,
                                },
                            ),
                            None => None,
                        }
                    } else {
                        None
                    }
                },
                None => None,
            }
        } else {
            None
        }
    } else if ws[0] == "server.onLevelLoaded"@ {
        if ws.len() >= 5 {
            match (spec_parse_usize(ws[3]), spec_parse_usize(ws[4])) {
                (Some(rounds_played), Some(rounds_total)) => Some(
                    EventView::ServerOnLevelLoaded {
                        map: ws[1],
                        gamemode: ws[2],
                        rounds_played,
                        rounds_total,
                    },
                ),
                _ => None,
            }
        } else {
            None
        }
    } else if ws[0] == "server.onMaxPlayerCountChange"@ {
        if ws.len() >= 2 {
            match spec_parse_usize(ws[1]) {
                Some(count) => Some(EventView::ServerOnMaxPlayerCountChange { count }),
                None => None,
            }
        } else {
            None
        }
    } else {
        None
    }
}

fn parse_error() -> (e: Error)
    ensures
        e.spec_kind() == ErrorKind::Parse,
        e.wf(),
{
    Error::new_parse("invalid event".to_owned())
}

impl Event {
    /// Decodes a push frame's words into the notification they carry,
    /// following [`spec_parse_event`] exactly.
    pub fn from_words(words: Vec<String>) -> (r: Result<Event, Error>)
        ensures
            match r {
                Ok(e) => spec_parse_event(words_view(words@)) == Some(e@),
                Err(e) => spec_parse_event(words_view(words@)) is None && e.spec_kind()
                    == ErrorKind::Parse && e.wf(),
            },
    {
        let ghost ws = words_view(words@);
        if words.len() == 0 {
            return Err(parse_error());
        }
        if str_eq(words[0].as_str(), "player.onJoin") {
            if words.len() < 3 {
                return Err(parse_error());
            }
            Ok(Event::PlayerOnJoin { name: words[1].clone(), guid: words[2].clone() })
        } else if str_eq(words[0].as_str(), "player.onAuthenticated") {
            if words.len() < 2 {
                return Err(parse_error());
            }
            Ok(Event::PlayerOnAuthenticated { name: words[1].clone() })
        } else if str_eq(words[0].as_str(), "player.onDisconnect") {
            if words.len() < 3 {
                return Err(parse_error());
            }
            Ok(Event::PlayerOnDisconnect { name: words[1].clone(), reason: words[2].clone() })
        } else if str_eq(words[0].as_str(), "player.onLeave") {
            if words.len() < 3 {
                return Err(parse_error());
            }
            let offset = match parse_usize(words[2].as_str()) {
                Some(v) => v,
                None => return Err(parse_error()),
            };
            if offset > usize::MAX - 4 {
                proof {
                    assert(spec_parse_player(ws, offset as int + 4) is None);
                }
                return Err(parse_error());
            }
            match parse_player(&words, offset + 4) {
                Some(p) => Ok(Event::PlayerOnLeave(p)),
                None => Err(parse_error()),
            }
        } else if str_eq(words[0].as_str(), "player.onSpawn") {
            if words.len() < 3 {
                return Err(parse_error());
            }
            match parse_usize(words[2].as_str()) {
                Some(team_id) => Ok(Event::PlayerOnSpawn { name: words[1].clone(), team_id }),
                None => Err(parse_error()),
            }
        } else if str_eq(words[0].as_str(), "player.onKill") {
            if words.len() < 5 {
                return Err(parse_error());
            }
            match parse_bool(words[4].as_str()) {
                Some(headshot) => Ok(
                    Event::PlayerOnKill {
                        killer: words[1].clone(),
                        victim: words[2].clone(),
                        weapon: words[3].clone(),
                        headshot,
                    },
                ),
                None => Err(parse_error()),
            }
        } else if str_eq(words[0].as_str(), "player.onChat") {
            if words.len() < 4 {
                return Err(parse_error());
            }
            let subset: Subset = if str_eq(words[3].as_str(), "all") {
                Subset::All
            } else if str_eq(words[3].as_str(), "team") {
                if words.len() < 5 {
                    return Err(parse_error());
                }
                match parse_usize(words[4].as_str()) {
                    Some(team_id) => Subset::Team { team_id },
                    None => return Err(parse_error()),
                }
            } else if str_eq(words[3].as_str(), "squad") {
                if words.len() < 6 {
                    return Err(parse_error());
                }
                match (parse_usize(words[4].as_str()), parse_usize(words[5].as_str())) {
                    (Some(team_id), Some(squad_id)) => Subset::Squad { team_id, squad_id },
                    _ => return Err(parse_error()),
                }
            } else if str_eq(words[3].as_str(), "player") {
                if words.len() < 5 {
                    return Err(parse_error());
                }
                Subset::Player { name: words[4].clone() }
            } else {
                return Err(parse_error());
            };
            Ok(
                Event::PlayerOnChat {
                    source: words[1].clone(),
                    message: words[2].clone(),
                    subset,
                },
            )
        } else if str_eq(words[0].as_str(), "player.onSquadChange") {
            if words.len() < 4 {
                return Err(parse_error());
            }
            match (parse_usize(words[2].as_str()), parse_usize(words[3].as_str())) {
                (Some(team_id), Some(squad_id)) => Ok(
                    Event::PlayerOnSquadChange { name: words[1].clone(), team_id, squad_id },
                ),
                _ => Err(parse_error()),
            }
        } else if str_eq(words[0].as_str(), "player.onTeamChange") {
            if words.len() < 4 {
                return Err(parse_error());
            }
            match (parse_usize(words[2].as_str()), parse_usize(words[3].as_str())) {
                (Some(team_id), Some(squad_id)) => Ok(
                    Event::PlayerOnTeamChange { name: words[1].clone(), team_id, squad_id },
                ),
                _ => Err(parse_error()),
            }
        } else if str_eq(words[0].as_str(), "punkBuster.onMessage") {
            if words.len() < 2 {
                return Err(parse_error());
            }
            Ok(Event::PunkBusterOnMessage { message: words[1].clone() })
        } else if str_eq(words[0].as_str(), "server.onRoundOver") {
            if words.len() < 2 {
                return Err(parse_error());
            }
            match parse_usize(words[1].as_str()) {
                Some(team_id) => Ok(Event::ServerOnRoundOver { team_id }),
                None => Err(parse_error()),
            }
        } else if str_eq(words[0].as_str(), "server.onRoundOverPlayers") {
            if words.len() < 2 {
                return Err(parse_error());
            }
            let offset = match parse_usize(words[1].as_str()) {
                Some(v) => v,
                None => return Err(parse_error()),
            };
            if words.len() < 3 || offset < 1 || offset > words.len() - 3 {
                return Err(parse_error());
            }
            let count = match parse_usize(words[offset + 2].as_str()) {
                Some(v) => v,
                None => return Err(parse_error()),
            };
            let mut players: Vec<PlayerInfo> = Vec::new();
            let mut cur: usize = offset + 3;
            let mut k: usize = 0;
            while k < count
                invariant
                    ws == words_view(words@),
                    ws.len() == words@.len() <= usize::MAX,
                    k <= count,
                    players@.len() == k as int,
                    cur == offset + 3 + 10 * k,
                    spec_parse_players(ws, offset as int + 3, count as int) == prepend_players(
                        players_view(players@),
                        spec_parse_players(ws, cur as int, count as int - k as int),
                    ),
                    spec_parse_event(ws) == (match spec_parse_players(
                        ws,
                        offset as int + 3,
                        count as int,
                    ) {
                        Some(ps) => Some(EventView::ServerOnRoundOverPlayers(ps)),
                        None => None,
                    }),
                decreases count - k,
            {
                let ghost pre = players_view(players@);
                if cur > usize::MAX - 10 {
                    proof {
                        assert(spec_parse_player(ws, cur as int) is None);
                    }
                    return Err(parse_error());
                }
                let p = match parse_player(&words, cur) {
                    Some(p) => p,
                    None => return Err(parse_error()),
                };
                let ghost pv = p@;
                players.push(p);
                proof {
                    assert(players_view(players@) =~= pre.push(pv));
                    match spec_parse_players(ws, cur as int + 10, count as int - k as int - 1) {
                        None => {},
                        Some(rest) => {
                            assert(pre + (seq![pv] + rest) =~= pre.push(pv) + rest);
                        },
                    }
                }
                cur = cur + 10;
                k = k + 1;
            }
            proof {
                assert(players_view(players@) + Seq::<PlayerInfoView>::empty() =~= players_view(
                    players@,
                ));
            }
            Ok(Event::ServerOnRoundOverPlayers(players))
        } else if str_eq(words[0].as_str(), "server.onRoundOverTeamScores") {
            if words.len() < 2 {
                return Err(parse_error());
            }
            let num_of_teams = match parse_usize(words[1].as_str()) {
                Some(v) => v,
                None => return Err(parse_error()),
            };
            if words.len() < 3 || num_of_teams > words.len() - 3 {
                return Err(parse_error());
            }
            let mut team_scores: Vec<String> = Vec::new();
            let mut j: usize = 0;
            while j < num_of_teams
                invariant
                    ws == words_view(words@),
                    ws.len() == words@.len() <= usize::MAX,
                    j <= num_of_teams,
                    num_of_teams + 3 <= words@.len(),
                    team_scores@.len() == j as int,
                    words_view(team_scores@) == ws.subrange(2, 2 + j as int),
                decreases num_of_teams - j,
            {
                let ghost pre = words_view(team_scores@);
                let w = words[2 + j].clone();
                let ghost wv = w@;
                team_scores.push(w);
                proof {
                    assert(words_view(team_scores@) =~= pre.push(wv));
                    assert(pre.push(wv) =~= ws.subrange(2, 2 + j as int + 1));
                }
                j = j + 1;
            }
            match parse_u32(words[num_of_teams + 2].as_str()) {
                Some(target_score) => Ok(
                    Event::ServerOnRoundOverTeamScores {
                        num_of_teams,
                        team_scores,
                        target_score,
                    },
                ),
                None => Err(parse_error()),
            }
        } else if str_eq(words[0].as_str(), "server.onLevelLoaded") {
            if words.len() < 5 {
                return Err(parse_error());
            }
            match (parse_usize(words[3].as_str()), parse_usize(words[4].as_str())) {
                (Some(rounds_played), Some(rounds_total)) => Ok(
                    Event::ServerOnLevelLoaded {
                        map: words[1].clone(),
                        gamemode: words[2].clone(),
                        rounds_played,
                        rounds_total,
                    },
                ),
                _ => Err(parse_error()),
            }
        } else if str_eq(words[0].as_str(), "server.onMaxPlayerCountChange") {
            if words.len() < 2 {
                return Err(parse_error());
            }
            match parse_usize(words[1].as_str()) {
                Some(count) => Ok(Event::ServerOnMaxPlayerCountChange { count }),
                None => Err(parse_error()),
            }
        } else {
            Err(parse_error())
        }
    }
}

} // verus!
