use vstd::prelude::*;

mod event;
mod player;
mod server;

pub use event::{spec_parse_event, Event, EventView};
pub use player::{
    parse_player, parse_player_kind, players_view, prepend_players, spec_parse_player,
    spec_parse_player_kind, spec_parse_players, PlayerInfo, PlayerInfoView, PlayerKind,
};
pub use server::{spec_parse_server_info, ServerInfo, ServerInfoView};

use crate::packet::words_view;
use crate::words::{dec_word, format_u64};

verus! {

/// The audience of a chat message: the whole server, one squad, one team,
/// or a single player.
#[derive(Clone, Debug)]
pub enum Subset {
    All,
    Squad { team_id: usize, squad_id: usize },
    Team { team_id: usize },
    Player { name: String },
}

/// The mathematical content of a [`Subset`].
pub enum SubsetView {
    All,
    Squad { team_id: usize, squad_id: usize },
    Team { team_id: usize },
    Player { name: Seq<char> },
}

impl View for Subset {
    type V = SubsetView;

    open spec fn view(&self) -> SubsetView {
        match self {
            Subset::All => SubsetView::All,
            Subset::Squad { team_id, squad_id } => SubsetView::Squad {
                team_id: *team_id,
                squad_id: *squad_id,
            },
            Subset::Team { team_id } => SubsetView::Team { team_id: *team_id },
            Subset::Player { name } => SubsetView::Player { name: name@ },
        }
    }
}

impl Subset {
    /// Renders the subset as the word sequence the command protocol wants:
    /// a tag word, then the subset's fields as decimal or verbatim words.
    pub fn into_words(self) -> (r: Vec<String>)
        ensures
            ({
                let ws = words_view(r@);
                match self@ {
                    SubsetView::All => ws == seq!["all"@],
                    SubsetView::Squad { team_id, squad_id } => ws == seq![
                        "squad"@,
                        dec_word(team_id as int),
                        dec_word(squad_id as int),
                    ],
                    SubsetView::Team { team_id } => ws == seq!["team"@, dec_word(team_id as int)],
                    SubsetView::Player { name } => ws == seq!["player"@, name],
                }
            }),
    {
        let mut r: Vec<String> = Vec::new();
        match self {
            Subset::All => {
                r.push("all".to_owned());
                proof {
                    assert(words_view(r@) =~= seq!["all"@]);
                }
            },
            Subset::Squad { team_id, squad_id } => {
                r.push("squad".to_owned());
                r.push(format_u64(team_id as u64));
                r.push(format_u64(squad_id as u64));
                proof {
                    assert(words_view(r@) =~= seq![
                        "squad"@,
                        dec_word(team_id as int),
                        dec_word(squad_id as int),
                    ]);
                }
            },
            Subset::Team { team_id } => {
                r.push("team".to_owned());
                r.push(format_u64(team_id as u64));
                proof {
                    assert(words_view(r@) =~= seq!["team"@, dec_word(team_id as int)]);
                }
            },
            Subset::Player { name } => {
                let ghost n = name@;
                r.push("player".to_owned());
                r.push(name);
                proof {
                    assert(words_view(r@) =~= seq!["player"@, n]);
                }
            },
        }
        r
    }
}

} // verus!
