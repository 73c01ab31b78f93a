//! Client library for a length-prefixed, word-based remote-console protocol.
//!
//! The verified core is a binary packet codec (a packed-bitfield header
//! followed by length-prefixed, null-terminated UTF-8 words) and the
//! decision logic of a connection engine that correlates out-of-order
//! replies with in-flight requests and classifies server-initiated pushes.

mod bytebuf;
mod client;
mod connection;
mod error;
mod packet;
mod models;
mod words;

pub use bytebuf::bytes_view;
pub use client::{events_enabled_words, interpret_response, list_players_words, login_words, parse_players_reply, server_info_words, spec_parse_players_reply};
pub use connection::{lemma_request_bytes_decode, request_frame, Action, Connection};
pub use models::{parse_player, parse_player_kind, players_view, spec_parse_event, spec_parse_player, spec_parse_player_kind, spec_parse_players, spec_parse_server_info, Event, EventView, PlayerInfo, PlayerInfoView, PlayerKind, ServerInfo, ServerInfoView, Subset, SubsetView};
pub use error::{Error, ErrorKind};
pub use words::{all_digits, dec_val, dec_word, digit_char, digit_val, format_u64, is_canonical_dec, lemma_dec_word_canonical, is_digit, is_signed_dec, is_unsigned_dec, parse_bool, parse_i16, parse_i32, parse_u16, parse_u32, parse_u64, parse_usize, signed_dec_val, spec_parse_bool, spec_parse_i16, spec_parse_i32, spec_parse_u16, spec_parse_u32, spec_parse_u64, spec_parse_usize, str_eq};
pub use packet::{lemma_decode_encode, lemma_decode_prefix, lemma_encode_zero_terminators, lemma_nonzero_terminator_malformed, lemma_parse_encoded_words, spec_body_len, spec_decode, spec_encode, spec_encode_term, spec_frame_len, spec_parse_words, spec_sequence_field, spec_word_bytes, spec_word_bytes_term, spec_words_bytes, spec_words_bytes_term, words_view, FrameView, Packet, SpecDecoded, HEADER_SIZE, ID_SPACE, MAX_SIZE, WORD_OVERHEAD};
