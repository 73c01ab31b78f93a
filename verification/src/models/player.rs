use vstd::prelude::*;

use crate::packet::words_view;
use crate::words::{
    parse_i16, parse_i32, parse_u16, parse_u32, parse_usize, spec_parse_i16, spec_parse_i32,
    spec_parse_u16, spec_parse_u32, spec_parse_usize, str_eq,
};

verus! {

/// The role a player occupies on the server, as the protocol's one-digit
/// player-kind field encodes it.
#[derive(Clone, Copy, Debug, PartialEq, Eq, Structural)]
pub enum PlayerKind {
    Player,
    Spectator,
    Commander,
    MobileCommander,
}

/// What decoding a player-kind field yields: the digits `0` to `3` name the
/// four kinds, anything else is a bad parse.
pub open spec fn spec_parse_player_kind(s: Seq<char>) -> Option<PlayerKind> {
    if s == "0"@ {
        Some(PlayerKind::Player)
    } else if s == "1"@ {
        Some(PlayerKind::Spectator)
    } else if s == "2"@ {
        Some(PlayerKind::Commander)
    } else if s == "3"@ {
        Some(PlayerKind::MobileCommander)
    } else {
        None
    }
}

/// Decodes a player-kind field.
pub fn parse_player_kind(s: &str) -> (r: Option<PlayerKind>)
    ensures
        r == spec_parse_player_kind(s@),
{
    if str_eq(s, "0") {
        Some(PlayerKind::Player)
    } else if str_eq(s, "1") {
        Some(PlayerKind::Spectator)
    } else if str_eq(s, "2") {
        Some(PlayerKind::Commander)
    } else if str_eq(s, "3") {
        Some(PlayerKind::MobileCommander)
    } else {
        None
    }
}

/// One row of the server's player table.
#[derive(Clone, Debug)]
pub struct PlayerInfo {
    pub name: String,
    pub guid: String,
    pub team_id: usize,
    pub squad_id: usize,
    pub kills: i32,
    pub deaths: i32,
    pub score: u32,
    pub rank: i16,
    pub ping: u16,
    pub kind: PlayerKind,
}

/// The mathematical content of a [`PlayerInfo`].
pub struct PlayerInfoView {
    pub name: Seq<char>,
    pub guid: Seq<char>,
    pub team_id: usize,
    pub squad_id: usize,
    pub kills: i32,
    pub deaths: i32,
    pub score: u32,
    pub rank: i16,
    pub ping: u16,
    pub kind: PlayerKind,
}

impl View for PlayerInfo {
    type V = PlayerInfoView;

    open spec fn view(&self) -> PlayerInfoView {
        PlayerInfoView {
            name: self.name@,
            guid: self.guid@,
            team_id: self.team_id,
            squad_id: self.squad_id,
            kills: self.kills,
            deaths: self.deaths,
            score: self.score,
            rank: self.rank,
            ping: self.ping,
            kind: self.kind,
        }
    }
}

/// The views of a sequence of player rows.
pub open spec fn players_view(ps: Seq<PlayerInfo>) -> Seq<PlayerInfoView> {
    ps.map_values(|p: PlayerInfo| p@)
}

impl PlayerInfo {
    pub fn new(name: String, guid: String) -> (p: PlayerInfo)
        ensures
            p@ == (PlayerInfoView {
                name: name@,
                guid: guid@,
                team_id: 0,
                squad_id: 0,
                kills: 0,
                deaths: 0,
                score: 0,
                rank: 0,
                ping: 0,
                kind: PlayerKind::Player,
            }),
    {
        PlayerInfo {
            name,
            guid,
            team_id: 0,
            squad_id: 0,
            kills: 0,
            deaths: 0,
            score: 0,
            rank: 0,
            ping: 0,
            kind: PlayerKind::Player,
        }
    }
}

/// What decoding the ten-word player block that starts at word `i` yields:
/// name, guid, then the eight typed fields in protocol order. Missing words
/// or a bad typed field fail the decode.
pub open spec fn spec_parse_player(ws: Seq<Seq<char>>, i: int) -> Option<PlayerInfoView> {
    if !(0 <= i && i + 10 <= ws.len()) {
        None
    } else {
        match (spec_parse_usize(ws[i + 2]), spec_parse_usize(ws[i + 3]), spec_parse_i32(ws[i + 4]),
        spec_parse_i32(ws[i + 5]), spec_parse_u32(ws[i + 6]), spec_parse_i16(ws[i + 7]),
        spec_parse_u16(ws[i + 8]), spec_parse_player_kind(ws[i + 9])) {
            (
                Some(team_id),
                Some(squad_id),
                Some(kills),
                Some(deaths),
                Some(score),
                Some(rank),
                Some(ping),
                Some(kind),
            ) => Some(
                PlayerInfoView {
                    name: ws[i],
                    guid: ws[i + 1],
                    team_id,
                    squad_id,
                    kills,
                    deaths,
                    score,
                    rank,
                    ping,
                    kind,
                },
            ),
            _ => None,
        }
    }
}

/// Sequences of player blocks: `count` consecutive ten-word blocks starting
/// at word `i`.
pub open spec fn spec_parse_players(ws: Seq<Seq<char>>, i: int, count: int) -> Option<
    Seq<PlayerInfoView>,
>
    decreases count,
{
    if count <= 0 {
        Some(Seq::empty())
    } else {
        match spec_parse_player(ws, i) {
            None => None,
            Some(p) => match spec_parse_players(ws, i + 10, count - 1) {
                None => None,
                Some(rest) => Some(seq![p] + rest),
            },
        }
    }
}

/// Prepends already-decoded players to the outcome of decoding the rest.
pub open spec fn prepend_players(
    pre: Seq<PlayerInfoView>,
    rest: Option<Seq<PlayerInfoView>>,
) -> Option<Seq<PlayerInfoView>> {
    match rest {
        None => None,
        Some(r) => Some(pre + r),
    }
}

/// Decodes the ten-word player block starting at word `i`.
pub fn parse_player(words: &Vec<String>, i: usize) -> (r: Option<PlayerInfo>)
    ensures
        match r {
            Some(p) => spec_parse_player(words_view(words@), i as int) == Some(p@),
            None => spec_parse_player(words_view(words@), i as int) is None,
        },
{
    let ghost ws = words_view(words@);
    if words.len() < 10 || i > words.len() - 10 {
        return None;
    }
    let team_id = match parse_usize(words[i + 2].as_str()) {
        Some(v) => v,
        None => return None,
    };
    let squad_id = match parse_usize(words[i + 3].as_str()) {
        Some(v) => v,
        None => return None,
    };
    let kills = match parse_i32(words[i + 4].as_str()) {
        Some(v) => v,
        None => return None,
    };
    let deaths = match parse_i32(words[i + 5].as_str()) {
        Some(v) => v,
        None => return None,
    };
    let score = match parse_u32(words[i + 6].as_str()) {
        Some(v) => v,
        None => return None,
    };
    let rank = match parse_i16(words[i + 7].as_str()) {
        Some(v) => v,
        None => return None,
    };
    let ping = match parse_u16(words[i + 8].as_str()) {
        Some(v) => v,
        None => return None,
    };
    let kind = match parse_player_kind(words[i + 9].as_str()) {
        Some(v) => v,
        None => return None,
    };
    Some(
        PlayerInfo {
            name: words[i].clone(),
            guid: words[i + 1].clone(),
            team_id,
            squad_id,
            kills,
            deaths,
            score,
            rank,
            ping,
            kind,
        },
    )
}

} // verus!
