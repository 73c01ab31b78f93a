use vstd::prelude::*;

use crate::error::{Error, ErrorKind};
use crate::packet::words_view;
use crate::words::{
    parse_bool, parse_u32, parse_u64, parse_usize, spec_parse_bool, spec_parse_u32, spec_parse_u64,
    spec_parse_usize,
};

verus! {

/// The server-status record the `serverInfo` command returns.
///
/// Team scores arrive as decimal words that may carry a fractional part and
/// the server address as a `host:port` word; both are kept verbatim, for the
/// caller to interpret.
#[derive(Clone, Debug)]
pub struct ServerInfo {
    pub name: String,
    pub player_count: usize,
    pub max_player_count: usize,
    pub game_mode: String,
    pub map: String,
    pub rounds_played: usize,
    pub rounds_total: usize,
    pub num_of_teams: usize,
    pub team_scores: Vec<String>,
    pub target_score: u32,
    pub online_state: String,
    pub ranked: bool,
    pub punkbuster: bool,
    pub game_password: bool,
    pub uptime: u64,
    pub round_time: u64,
    pub addr: String,
    pub punkbuster_version: String,
    pub join_queue: bool,
    pub region: String,
    pub ping_site: String,
    pub country: String,
    pub blaze_player_count: usize,
    pub blaze_game_state: String,
}

/// The mathematical content of a [`ServerInfo`].
pub struct ServerInfoView {
    pub name: Seq<char>,
    pub player_count: usize,
    pub max_player_count: usize,
    pub game_mode: Seq<char>,
    pub map: Seq<char>,
    pub rounds_played: usize,
    pub rounds_total: usize,
    pub num_of_teams: usize,
    pub team_scores: Seq<Seq<char>>,
    pub target_score: u32,
    pub online_state: Seq<char>,
    pub ranked: bool,
    pub punkbuster: bool,
    pub game_password: bool,
    pub uptime: u64,
    pub round_time: u64,
    pub addr: Seq<char>,
    pub punkbuster_version: Seq<char>,
    pub join_queue: bool,
    pub region: Seq<char>,
    pub ping_site: Seq<char>,
    pub country: Seq<char>,
    pub blaze_player_count: usize,
    pub blaze_game_state: Seq<char>,
}

impl View for ServerInfo {
    type V = ServerInfoView;

    open spec fn view(&self) -> ServerInfoView {
        ServerInfoView {
            name: self.name@,
            player_count: self.player_count,
            max_player_count: self.max_player_count,
            game_mode: self.game_mode@,
            map: self.map@,
            rounds_played: self.rounds_played,
            rounds_total: self.rounds_total,
            num_of_teams: self.num_of_teams,
            team_scores: words_view(self.team_scores@),
            target_score: self.target_score,
            online_state: self.online_state@,
            ranked: self.ranked,
            punkbuster: self.punkbuster,
            game_password: self.game_password,
            uptime: self.uptime,
            round_time: self.round_time,
            addr: self.addr@,
            punkbuster_version: self.punkbuster_version@,
            join_queue: self.join_queue,
            region: self.region@,
            ping_site: self.ping_site@,
            country: self.country@,
            blaze_player_count: self.blaze_player_count,
            blaze_game_state: self.blaze_game_state@,
        }
    }
}

/// What decoding a `serverInfo` reply payload yields: eight fixed fields,
/// then one score word per team, then fifteen more fixed fields, all in
/// protocol order. Missing words or a bad typed field fail the decode.
pub open spec fn spec_parse_server_info(ws: Seq<Seq<char>>) -> Option<ServerInfoView> {
    if ws.len() < 8 {
        None
    } else {
        match (spec_parse_usize(ws[1]), spec_parse_usize(ws[2]), spec_parse_usize(ws[5]),
        spec_parse_usize(ws[6]), spec_parse_usize(ws[7])) {
            (
                Some(player_count),
                Some(max_player_count),
                Some(rounds_played),
                Some(rounds_total),
                Some(num_of_teams),
            ) => {
                let b = num_of_teams + 8;
                if ws.len() < b + 15 {
                    None
                } else {
                    match (spec_parse_u32(ws[b]), spec_parse_bool(ws[b + 2]), spec_parse_bool(
                        ws[b + 3],
                    ), spec_parse_bool(ws[b + 4]), spec_parse_u64(ws[b + 5]), spec_parse_u64(
                        ws[b + 6],
                    ), spec_parse_bool(ws[b + 9]), spec_parse_usize(ws[b + 13])) {
                        (
                            Some(target_score),
                            Some(ranked),
                            Some(punkbuster),
                            Some(game_password),
                            Some(uptime),
                            Some(round_time),
                            Some(join_queue),
                            Some(blaze_player_count),
                        ) => Some(
                            ServerInfoView {
                                name: ws[0],
                                player_count,
                                max_player_count,
                                game_mode: ws[3],
                                map: ws[4],
                                rounds_played,
                                rounds_total,
                                num_of_teams,
                                team_scores: ws.subrange(8, b as int),
                                target_score,
                                online_state: ws[b + 1],
                                ranked,
                                punkbuster,
                                game_password,
                                uptime,
                                round_time,
                                addr: ws[b + 7],
                                punkbuster_version: ws[b + 8],
                                join_queue,
                                region: ws[b + 10],
                                ping_site: ws[b + 11],
                                country: ws[b + 12],
                                blaze_player_count,
                                blaze_game_state: ws[b + 14],
                            },
                        ),
                        _ => None,
                    }
                }
            },
            _ => None,
        }
    }
}

fn parse_error() -> (e: Error)
    ensures
        e.spec_kind() == ErrorKind::Parse,
        e.wf(),
{
    Error::new_parse("invalid server info".to_owned())
}

impl ServerInfo {
    /// Decodes a `serverInfo` reply payload, following
    /// [`spec_parse_server_info`] exactly.
    pub fn from_words(words: Vec<String>) -> (r: Result<ServerInfo, Error>)
        ensures
            match r {
                Ok(info) => spec_parse_server_info(words_view(words@)) == Some(info@),
                Err(e) => spec_parse_server_info(words_view(words@)) is None && e.spec_kind()
                    == ErrorKind::Parse && e.wf(),
            },
    {
        let ghost ws = words_view(words@);
        if words.len() < 8 {
            return Err(parse_error());
        }
        let player_count = match parse_usize(words[1].as_str()) {
            Some(v) => v,
            None => return Err(parse_error()),
        };
        let max_player_count = match parse_usize(words[2].as_str()) {
            Some(v) => v,
            None => return Err(parse_error()),
        };
        let rounds_played = match parse_usize(words[5].as_str()) {
            Some(v) => v,
            None => return Err(parse_error()),
        };
        let rounds_total = match parse_usize(words[6].as_str()) {
            Some(v) => v,
            None => return Err(parse_error()),
        };
        let num_of_teams = match parse_usize(words[7].as_str()) {
            Some(v) => v,
            None => return Err(parse_error()),
        };
        if num_of_teams > words.len() || words.len() - num_of_teams < 23 {
            proof {
                assert(ws.len() < num_of_teams + 8 + 15);
            }
            return Err(parse_error());
        }
        let b = num_of_teams + 8;
        let mut team_scores: Vec<String> = Vec::new();
        let mut j: usize = 0;
        while j < num_of_teams
            invariant
                ws == words_view(words@),
                ws.len() == words@.len() <= usize::MAX,
                j <= num_of_teams,
                num_of_teams + 23 <= words@.len(),
                team_scores@.len() == j as int,
                words_view(team_scores@) == ws.subrange(8, 8 + j as int),
            decreases num_of_teams - j,
        {
            let ghost pre = words_view(team_scores@);
            let w = words[8 + j].clone();
            let ghost wv = w@;
            team_scores.push(w);
            proof {
                assert(words_view(team_scores@) =~= pre.push(wv));
                assert(pre.push(wv) =~= ws.subrange(8, 8 + j as int + 1));
            }
            j = j + 1;
        }
        let target_score = match parse_u32(words[b].as_str()) {
            Some(v) => v,
            None => return Err(parse_error()),
        };
        let ranked = match parse_bool(words[b + 2].as_str()) {
            Some(v) => v,
            None => return Err(parse_error()),
        };
        let punkbuster = match parse_bool(words[b + 3].as_str()) {
            Some(v) => v,
            None => return Err(parse_error()),
        };
        let game_password = match parse_bool(words[b + 4].as_str()) {
            Some(v) => v,
            None => return Err(parse_error()),
        };
        let uptime = match parse_u64(words[b + 5].as_str()) {
            Some(v) => v,
            None => return Err(parse_error()),
        };
        let round_time = match parse_u64(words[b + 6].as_str()) {
            Some(v) => v,
            None => return Err(parse_error()),
        };
        let join_queue = match parse_bool(words[b + 9].as_str()) {
            Some(v) => v,
            None => return Err(parse_error()),
        };
        let blaze_player_count = match parse_usize(words[b + 13].as_str()) {
            Some(v) => v,
            None => return Err(parse_error()),
        };
        Ok(
            ServerInfo {
                name: words[0].clone(),
                player_count,
                max_player_count,
                game_mode: words[3].clone(),
                map: words[4].clone(),
                rounds_played,
                rounds_total,
                num_of_teams,
                team_scores,
                target_score,
                online_state: words[b + 1].clone(),
                ranked,
                punkbuster,
                game_password,
                uptime,
                round_time,
                addr: words[b + 7].clone(),
                punkbuster_version: words[b + 8].clone(),
                join_queue,
                region: words[b + 10].clone(),
                ping_site: words[b + 11].clone(),
                country: words[b + 12].clone(),
                blaze_player_count,
                blaze_game_state: words[b + 14].clone(),
            },
        )
    }
}

} // verus!
