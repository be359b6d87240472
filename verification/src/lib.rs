//! Rule engine for a five-player, round-based trick-prediction card game.
//!
//! Each round the five players privately predict their own finishing rank,
//! play one card each, and the round's start player may guess the whole
//! finishing order before it is revealed.  The engine is a command/event
//! state machine: commands are validated against the current phase and turn,
//! applied to the single authoritative game state, and answered with events.
//! Settlement ranks the five played cards with a contextual comparator (an
//! Ace/King override) and applies all score deltas at once.

mod card;
mod codec;
mod command;
mod dispatch;
mod event;
mod laws;
mod rules;
mod state;

pub use card::Card;
pub use card::Rank;
pub use card::Suit;
pub use card::ak_override;
pub use card::card_key;
pub use card::has_rank;
pub use card::key_of;
pub use card::suit_cmp;
pub use card::table_has_override;
pub use codec::CommandV;
pub use codec::EventV;
pub use codec::NetMessage;
pub use codec::NetMessageV;
pub use codec::cmd_view;
pub use codec::dec_message;
pub use codec::decode_message;
pub use codec::enc_message;
pub use codec::encode_message;
pub use codec::event_view;
pub use codec::lemma_codec_round_trip;
pub use codec::lemma_message_round_trip;
pub use codec::msg_bounded;
pub use codec::msg_view;
pub use command::Command;
pub use dispatch::Route;
pub use dispatch::route;
pub use dispatch::route_spec;
pub use event::Event;
pub use laws::lemma_end_is_terminal;
pub use laws::lemma_fifth_settlement_ends;
pub use laws::lemma_five_rounds_end;
pub use laws::lemma_ranking_strictly_descends;
pub use laws::lemma_round_scoring;
pub use laws::lemma_posterior_bonus_extremes;
pub use laws::lemma_ranking_unique;
pub use laws::lemma_settlement_deterministic;
pub use laws::lemma_settlement_ranking_unique;
pub use laws::lemma_table_lists_every_player_once;
pub use laws::lemma_wrong_actor_is_not_your_turn;
pub use laws::ranked_desc;
pub use rules::ErrorKind;
pub use rules::apply_err;
pub use rules::apply_ok;
pub use rules::base_score;
pub use rules::deltas_final;
pub use rules::guess_extra;
pub use rules::guess_view;
pub use rules::init_game;
pub use rules::match_count;
pub use rules::playcard_ok;
pub use rules::played_card;
pub use rules::posterior_view;
pub use rules::predict_ok;
pub use rules::posterior_bonus;
pub use rules::pred_value;
pub use rules::prediction_bonus;
pub use rules::settlement_ok;
pub use rules::table_cards;
pub use state::GameState;
pub use state::Phase;
pub use state::PlayerState;
pub use state::big_tier;
pub use state::is_id_permutation;
pub use state::player_wf;
pub use state::seat;
pub use state::small_tier;
pub use state::spade_tier;
