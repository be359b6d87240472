use vstd::prelude::*;

use crate::card::Card;
use crate::card::Rank;
use crate::card::Suit;
use crate::command::Command;
use crate::event::Event;
use crate::rules::ErrorKind;
use crate::state::rank_from_value;

verus! {

/// The wire envelope: a line of the protocol carries either a client
/// command or a server event.  A command arriving at a client, or an event
/// arriving at a server, is a protocol violation for the receiver to refuse.
#[derive(Debug, Clone, PartialEq, Eq)]
pub enum NetMessage {
    Command(Command),
    Event(Event),
}

/// Ghost mirror of [`Command`], with sequences for the vectors.
pub enum CommandV {
    Predict { player_id: usize, rank: Option<usize> },
    PlayCard { player_id: usize, card_index: usize },
    PosteriorPredict { player_id: usize, rank_list: Option<Seq<usize>> },
    Restart { player_id: usize, yes: bool },
}

/// Ghost mirror of [`Event`], with sequences for the vectors.
pub enum EventV {
    PredictionAccepted { player_id: usize },
    CardPlayed { player_id: usize },
    PosteriorPredictionAccepted { player_id: usize },
    RoundResult {
        cards: Seq<Card>,
        ranking: Seq<usize>,
        prediction: Seq<usize>,
        posterior_prediction: Seq<usize>,
        score_delta: Seq<i32>,
    },
    GameStarted,
    PhaseChanged,
    GameEnded,
    PlayerAssigned { player_id: usize },
    CardsDealt { player_id: usize, cards: Seq<Card> },
}

/// Ghost mirror of [`NetMessage`].
pub enum NetMessageV {
    Command(CommandV),
    Event(EventV),
}

pub open spec fn cmd_view(c: Command) -> CommandV {
    match c {
        Command::Predict { player_id, rank } => CommandV::Predict { player_id, rank },
        Command::PlayCard { player_id, card_index } => CommandV::PlayCard {
            player_id,
            card_index,
        },
        Command::PosteriorPredict { player_id, rank_list } => CommandV::PosteriorPredict {
            player_id,
            rank_list: match rank_list {
                Some(v) => Some(v@),
                None => None,
            },
        },
        Command::Restart { player_id, yes } => CommandV::Restart { player_id, yes },
    }
}

pub open spec fn event_view(e: Event) -> EventV {
    match e {
        Event::PredictionAccepted { player_id } => EventV::PredictionAccepted { player_id },
        Event::CardPlayed { player_id } => EventV::CardPlayed { player_id },
        Event::PosteriorPredictionAccepted { player_id } => EventV::PosteriorPredictionAccepted {
            player_id,
        },
        Event::RoundResult { cards, ranking, prediction, posterior_prediction, score_delta } => {
            EventV::RoundResult {
                cards: cards@,
                ranking: ranking@,
                prediction: prediction@,
                posterior_prediction: posterior_prediction@,
                score_delta: score_delta@,
            }
        },
        Event::GameStarted => EventV::GameStarted,
        Event::PhaseChanged => EventV::PhaseChanged,
        Event::GameEnded => EventV::GameEnded,
        Event::PlayerAssigned { player_id } => EventV::PlayerAssigned { player_id },
        Event::CardsDealt { player_id, cards } => EventV::CardsDealt {
            player_id,
            cards: cards@,
        },
    }
}

pub open spec fn msg_view(m: NetMessage) -> NetMessageV {
    match m {
        NetMessage::Command(c) => NetMessageV::Command(cmd_view(c)),
        NetMessage::Event(e) => NetMessageV::Event(event_view(e)),
    }
}

// ---------------------------------------------------------------------
// Encoding: every message becomes a sequence of 64-bit words.
// ---------------------------------------------------------------------

/// A signed score shifted into the non-negative range.
pub open spec fn enc_i32(x: i32) -> u64 {
    (x as int + 0x8000_0000) as u64
}

pub open spec fn suit_code(s: Suit) -> u64 {
    match s {
        Suit::Spade => 0,
        Suit::Heart => 1,
        Suit::Diamond => 2,
        Suit::Club => 3,
    }
}

pub open spec fn suit_of_code(w: u64) -> Suit {
    if w == 0 {
        Suit::Spade
    } else if w == 1 {
        Suit::Heart
    } else if w == 2 {
        Suit::Diamond
    } else {
        Suit::Club
    }
}

pub open spec fn rank_of_value(w: u64) -> Rank {
    if w == 1 {
        Rank::A
    } else if w == 2 {
        Rank::Two
    } else if w == 3 {
        Rank::Three
    } else if w == 4 {
        Rank::Four
    } else if w == 5 {
        Rank::Five
    } else if w == 6 {
        Rank::Six
    } else if w == 7 {
        Rank::Seven
    } else if w == 8 {
        Rank::Eight
    } else if w == 9 {
        Rank::Nine
    } else if w == 10 {
        Rank::Ten
    } else if w == 11 {
        Rank::J
    } else if w == 12 {
        Rank::Q
    } else {
        Rank::K
    }
}

/// A card is its rank value followed by its suit code.
pub open spec fn enc_card(c: Card) -> Seq<u64> {
    seq![c.rank.spec_value() as u64, suit_code(c.suit)]
}

pub open spec fn enc_opt_usize(x: Option<usize>) -> Seq<u64> {
    match x {
        None => seq![0u64],
        Some(v) => seq![1u64, v as u64],
    }
}

pub open spec fn enc_usizes(s: Seq<usize>) -> Seq<u64>
    decreases s.len(),
{
    if s.len() == 0 {
        Seq::empty()
    } else {
        seq![s[0] as u64] + enc_usizes(s.drop_first())
    }
}

/// A list is its length followed by its items.
pub open spec fn enc_usize_list(s: Seq<usize>) -> Seq<u64> {
    seq![s.len() as u64] + enc_usizes(s)
}

pub open spec fn enc_i32s(s: Seq<i32>) -> Seq<u64>
    decreases s.len(),
{
    if s.len() == 0 {
        Seq::empty()
    } else {
        seq![enc_i32(s[0])] + enc_i32s(s.drop_first())
    }
}

pub open spec fn enc_i32_list(s: Seq<i32>) -> Seq<u64> {
    seq![s.len() as u64] + enc_i32s(s)
}

pub open spec fn enc_cards(s: Seq<Card>) -> Seq<u64>
    decreases s.len(),
{
    if s.len() == 0 {
        Seq::empty()
    } else {
        enc_card(s[0]) + enc_cards(s.drop_first())
    }
}

pub open spec fn enc_card_list(s: Seq<Card>) -> Seq<u64> {
    seq![s.len() as u64] + enc_cards(s)
}

pub open spec fn enc_opt_usize_list(x: Option<Seq<usize>>) -> Seq<u64> {
    match x {
        None => seq![0u64],
        Some(s) => seq![1u64] + enc_usize_list(s),
    }
}

pub open spec fn enc_command(c: CommandV) -> Seq<u64> {
    match c {
        CommandV::Predict { player_id, rank } => seq![0u64, player_id as u64] + enc_opt_usize(
            rank,
        ),
        CommandV::PlayCard { player_id, card_index } => seq![
            1u64,
            player_id as u64,
            card_index as u64,
        ],
        CommandV::PosteriorPredict { player_id, rank_list } => seq![2u64, player_id as u64]
            + enc_opt_usize_list(rank_list),
        CommandV::Restart { player_id, yes } => seq![
            3u64,
            player_id as u64,
            if yes {
                1u64
            } else {
                0u64
            },
        ],
    }
}

pub open spec fn enc_event(e: EventV) -> Seq<u64> {
    match e {
        EventV::PredictionAccepted { player_id } => seq![0u64, player_id as u64],
        EventV::CardPlayed { player_id } => seq![1u64, player_id as u64],
        EventV::PosteriorPredictionAccepted { player_id } => seq![2u64, player_id as u64],
        EventV::RoundResult { cards, ranking, prediction, posterior_prediction, score_delta } => {
            seq![3u64] + (enc_card_list(cards) + (enc_usize_list(ranking) + (enc_usize_list(
                prediction,
            ) + (enc_usize_list(posterior_prediction) + enc_i32_list(score_delta)))))
        },
        EventV::GameStarted => seq![4u64],
        EventV::PhaseChanged => seq![5u64],
        EventV::GameEnded => seq![6u64],
        EventV::PlayerAssigned { player_id } => seq![7u64, player_id as u64],
        EventV::CardsDealt { player_id, cards } => seq![8u64, player_id as u64] + enc_card_list(
            cards,
        ),
    }
}

/// The whole envelope: a tag word, then the command or event.
pub open spec fn enc_message(m: NetMessageV) -> Seq<u64> {
    match m {
        NetMessageV::Command(c) => seq![0u64] + enc_command(c),
        NetMessageV::Event(e) => seq![1u64] + enc_event(e),
    }
}

// ---------------------------------------------------------------------
// Parsing: each parser consumes a prefix and returns the rest.
// ---------------------------------------------------------------------

pub open spec fn parse_u(s: Seq<u64>) -> Option<(u64, Seq<u64>)> {
    if s.len() >= 1 {
        Some((s[0], s.skip(1)))
    } else {
        None
    }
}

pub open spec fn parse_usize(s: Seq<u64>) -> Option<(usize, Seq<u64>)> {
    match parse_u(s) {
        Some((w, r)) => if w <= usize::MAX as u64 {
            Some((w as usize, r))
        } else {
            None
        },
        None => None,
    }
}

pub open spec fn parse_i32(s: Seq<u64>) -> Option<(i32, Seq<u64>)> {
    match parse_u(s) {
        Some((w, r)) => if w < 0x1_0000_0000 {
            Some(((w as int - 0x8000_0000) as i32, r))
        } else {
            None
        },
        None => None,
    }
}

pub open spec fn parse_card(s: Seq<u64>) -> Option<(Card, Seq<u64>)> {
    match parse_u(s) {
        Some((v, r)) => if 1 <= v <= 13 {
            match parse_u(r) {
                Some((w, r2)) => if w <= 3 {
                    Some((Card { rank: rank_of_value(v), suit: suit_of_code(w) }, r2))
                } else {
                    None
                },
                None => None,
            }
        } else {
            None
        },
        None => None,
    }
}

pub open spec fn parse_opt_usize(s: Seq<u64>) -> Option<(Option<usize>, Seq<u64>)> {
    match parse_u(s) {
        Some((tag, r)) => if tag == 0 {
            Some((None, r))
        } else if tag == 1 {
            match parse_usize(r) {
                Some((v, r2)) => Some((Some(v), r2)),
                None => None,
            }
        } else {
            None
        },
        None => None,
    }
}

pub open spec fn parse_usizes(s: Seq<u64>, n: nat) -> Option<(Seq<usize>, Seq<u64>)>
    decreases n,
{
    if n == 0 {
        Some((Seq::empty(), s))
    } else {
        match parse_usize(s) {
            Some((v, r)) => match parse_usizes(r, (n - 1) as nat) {
                Some((vs, r2)) => Some((seq![v] + vs, r2)),
                None => None,
            },
            None => None,
        }
    }
}

pub open spec fn parse_usize_list(s: Seq<u64>) -> Option<(Seq<usize>, Seq<u64>)> {
    match parse_usize(s) {
        Some((n, r)) => parse_usizes(r, n as nat),
        None => None,
    }
}

pub open spec fn parse_i32s(s: Seq<u64>, n: nat) -> Option<(Seq<i32>, Seq<u64>)>
    decreases n,
{
    if n == 0 {
        Some((Seq::empty(), s))
    } else {
        match parse_i32(s) {
            Some((v, r)) => match parse_i32s(r, (n - 1) as nat) {
                Some((vs, r2)) => Some((seq![v] + vs, r2)),
                None => None,
            },
            None => None,
        }
    }
}

pub open spec fn parse_i32_list(s: Seq<u64>) -> Option<(Seq<i32>, Seq<u64>)> {
    match parse_usize(s) {
        Some((n, r)) => parse_i32s(r, n as nat),
        None => None,
    }
}

pub open spec fn parse_cards(s: Seq<u64>, n: nat) -> Option<(Seq<Card>, Seq<u64>)>
    decreases n,
{
    if n == 0 {
        Some((Seq::empty(), s))
    } else {
        match parse_card(s) {
            Some((c, r)) => match parse_cards(r, (n - 1) as nat) {
                Some((cs, r2)) => Some((seq![c] + cs, r2)),
                None => None,
            },
            None => None,
        }
    }
}

pub open spec fn parse_card_list(s: Seq<u64>) -> Option<(Seq<Card>, Seq<u64>)> {
    match parse_usize(s) {
        Some((n, r)) => parse_cards(r, n as nat),
        None => None,
    }
}

pub open spec fn parse_opt_usize_list(s: Seq<u64>) -> Option<(Option<Seq<usize>>, Seq<u64>)> {
    match parse_u(s) {
        Some((tag, r)) => if tag == 0 {
            Some((None, r))
        } else if tag == 1 {
            match parse_usize_list(r) {
                Some((vs, r2)) => Some((Some(vs), r2)),
                None => None,
            }
        } else {
            None
        },
        None => None,
    }
}

pub open spec fn parse_command(s: Seq<u64>) -> Option<(CommandV, Seq<u64>)> {
    match parse_u(s) {
        Some((tag, r)) => if tag == 0 {
            match parse_usize(r) {
                Some((player_id, r2)) => match parse_opt_usize(r2) {
                    Some((rank, r3)) => Some((CommandV::Predict { player_id, rank }, r3)),
                    None => None,
                },
                None => None,
            }
        } else if tag == 1 {
            match parse_usize(r) {
                Some((player_id, r2)) => match parse_usize(r2) {
                    Some((card_index, r3)) => Some(
                        (CommandV::PlayCard { player_id, card_index }, r3),
                    ),
                    None => None,
                },
                None => None,
            }
        } else if tag == 2 {
            match parse_usize(r) {
                Some((player_id, r2)) => match parse_opt_usize_list(r2) {
                    Some((rank_list, r3)) => Some(
                        (CommandV::PosteriorPredict { player_id, rank_list }, r3),
                    ),
                    None => None,
                },
                None => None,
            }
        } else if tag == 3 {
            match parse_usize(r) {
                Some((player_id, r2)) => match parse_u(r2) {
                    Some((w, r3)) => if w <= 1 {
                        Some((CommandV::Restart { player_id, yes: w == 1 }, r3))
                    } else {
                        None
                    },
                    None => None,
                },
                None => None,
            }
        } else {
            None
        },
        None => None,
    }
}

pub open spec fn parse_event(s: Seq<u64>) -> Option<(EventV, Seq<u64>)> {
    match parse_u(s) {
        Some((tag, r)) => if tag == 0 {
            match parse_usize(r) {
                Some((player_id, r2)) => Some((EventV::PredictionAccepted { player_id }, r2)),
                None => None,
            }
        } else if tag == 1 {
            match parse_usize(r) {
                Some((player_id, r2)) => Some((EventV::CardPlayed { player_id }, r2)),
                None => None,
            }
        } else if tag == 2 {
            match parse_usize(r) {
                Some((player_id, r2)) => Some(
                    (EventV::PosteriorPredictionAccepted { player_id }, r2),
                ),
                None => None,
            }
        } else if tag == 3 {
            match parse_card_list(r) {
                Some((cards, r2)) => match parse_usize_list(r2) {
                    Some((ranking, r3)) => match parse_usize_list(r3) {
                        Some((prediction, r4)) => match parse_usize_list(r4) {
                            Some((posterior_prediction, r5)) => match parse_i32_list(r5) {
                                Some((score_delta, r6)) => Some(
                                    (
                                        EventV::RoundResult {
                                            cards,
                                            ranking,
                                            prediction,
                                            posterior_prediction,
                                            score_delta,
                                        },
                                        r6,
                                    ),
                                ),
                                None => None,
                            },
                            None => None,
                        },
                        None => None,
                    },
                    None => None,
                },
                None => None,
            }
        } else if tag == 4 {
            Some((EventV::GameStarted, r))
        } else if tag == 5 {
            Some((EventV::PhaseChanged, r))
        } else if tag == 6 {
            Some((EventV::GameEnded, r))
        } else if tag == 7 {
            match parse_usize(r) {
                Some((player_id, r2)) => Some((EventV::PlayerAssigned { player_id }, r2)),
                None => None,
            }
        } else if tag == 8 {
            match parse_usize(r) {
                Some((player_id, r2)) => match parse_card_list(r2) {
                    Some((cards, r3)) => Some((EventV::CardsDealt { player_id, cards }, r3)),
                    None => None,
                },
                None => None,
            }
        } else {
            None
        },
        None => None,
    }
}

/// What a word sequence means: a whole message with nothing left over, or
/// nothing.
pub open spec fn dec_message(s: Seq<u64>) -> Option<NetMessageV> {
    match parse_u(s) {
        Some((tag, r)) => if tag == 0 {
            match parse_command(r) {
                Some((c, r2)) => if r2.len() == 0 {
                    Some(NetMessageV::Command(c))
                } else {
                    None
                },
                None => None,
            }
        } else if tag == 1 {
            match parse_event(r) {
                Some((e, r2)) => if r2.len() == 0 {
                    Some(NetMessageV::Event(e))
                } else {
                    None
                },
                None => None,
            }
        } else {
            None
        },
        None => None,
    }
}

// ---------------------------------------------------------------------
// Parsing inverts encoding.
// ---------------------------------------------------------------------

proof fn lemma_parse_u(x: u64, rest: Seq<u64>)
    ensures
        parse_u(seq![x] + rest) == Some((x, rest)),
{
    assert((seq![x] + rest).skip(1) =~= rest);
}

proof fn lemma_parse_usize(v: usize, rest: Seq<u64>)
    ensures
        parse_usize(seq![v as u64] + rest) == Some((v, rest)),
{
    lemma_parse_u(v as u64, rest);
}

proof fn lemma_parse_i32(v: i32, rest: Seq<u64>)
    ensures
        parse_i32(seq![enc_i32(v)] + rest) == Some((v, rest)),
{
    lemma_parse_u(enc_i32(v), rest);
}

proof fn lemma_parse_card(c: Card, rest: Seq<u64>)
    ensures
        parse_card(enc_card(c) + rest) == Some((c, rest)),
{
    let v = c.rank.spec_value() as u64;
    let w = suit_code(c.suit);
    assert(enc_card(c) + rest =~= seq![v] + (seq![w] + rest));
    lemma_parse_u(v, seq![w] + rest);
    lemma_parse_u(w, rest);
    assert(rank_of_value(v) == c.rank);
    assert(suit_of_code(w) == c.suit);
}

proof fn lemma_parse_opt_usize(x: Option<usize>, rest: Seq<u64>)
    ensures
        parse_opt_usize(enc_opt_usize(x) + rest) == Some((x, rest)),
{
    match x {
        None => {
            lemma_parse_u(0, rest);
            assert(enc_opt_usize(x) + rest =~= seq![0u64] + rest);
        },
        Some(v) => {
            assert(enc_opt_usize(x) + rest =~= seq![1u64] + (seq![v as u64] + rest));
            lemma_parse_u(1, seq![v as u64] + rest);
            lemma_parse_usize(v, rest);
        },
    }
}

proof fn lemma_parse_usizes(s: Seq<usize>, rest: Seq<u64>)
    ensures
        parse_usizes(enc_usizes(s) + rest, s.len()) == Some((s, rest)),
    decreases s.len(),
{
    if s.len() == 0 {
        assert(enc_usizes(s) + rest =~= rest);
        assert(parse_usizes(rest, 0) == Some((Seq::<usize>::empty(), rest)));
        assert(s =~= Seq::<usize>::empty());
    } else {
        let tail = s.drop_first();
        assert(enc_usizes(s) + rest =~= seq![s[0] as u64] + (enc_usizes(tail) + rest));
        lemma_parse_usize(s[0], enc_usizes(tail) + rest);
        lemma_parse_usizes(tail, rest);
        assert(seq![s[0]] + tail =~= s);
    }
}

proof fn lemma_parse_usize_list(s: Seq<usize>, rest: Seq<u64>)
    requires
        s.len() <= usize::MAX,
    ensures
        parse_usize_list(enc_usize_list(s) + rest) == Some((s, rest)),
{
    let n = s.len() as usize;
    assert(enc_usize_list(s) + rest =~= seq![n as u64] + (enc_usizes(s) + rest));
    lemma_parse_usize(n, enc_usizes(s) + rest);
    lemma_parse_usizes(s, rest);
}

proof fn lemma_parse_i32s(s: Seq<i32>, rest: Seq<u64>)
    ensures
        parse_i32s(enc_i32s(s) + rest, s.len()) == Some((s, rest)),
    decreases s.len(),
{
    if s.len() == 0 {
        assert(enc_i32s(s) + rest =~= rest);
        assert(s =~= Seq::<i32>::empty());
    } else {
        let tail = s.drop_first();
        assert(enc_i32s(s) + rest =~= seq![enc_i32(s[0])] + (enc_i32s(tail) + rest));
        lemma_parse_i32(s[0], enc_i32s(tail) + rest);
        lemma_parse_i32s(tail, rest);
        assert(seq![s[0]] + tail =~= s);
    }
}

proof fn lemma_parse_i32_list(s: Seq<i32>, rest: Seq<u64>)
    requires
        s.len() <= usize::MAX,
    ensures
        parse_i32_list(enc_i32_list(s) + rest) == Some((s, rest)),
{
    let n = s.len() as usize;
    assert(enc_i32_list(s) + rest =~= seq![n as u64] + (enc_i32s(s) + rest));
    lemma_parse_usize(n, enc_i32s(s) + rest);
    lemma_parse_i32s(s, rest);
}

proof fn lemma_parse_cards(s: Seq<Card>, rest: Seq<u64>)
    ensures
        parse_cards(enc_cards(s) + rest, s.len()) == Some((s, rest)),
    decreases s.len(),
{
    if s.len() == 0 {
        assert(enc_cards(s) + rest =~= rest);
        assert(s =~= Seq::<Card>::empty());
    } else {
        let tail = s.drop_first();
        assert(enc_cards(s) + rest =~= enc_card(s[0]) + (enc_cards(tail) + rest));
        lemma_parse_card(s[0], enc_cards(tail) + rest);
        lemma_parse_cards(tail, rest);
        assert(seq![s[0]] + tail =~= s);
    }
}

proof fn lemma_parse_card_list(s: Seq<Card>, rest: Seq<u64>)
    requires
        s.len() <= usize::MAX,
    ensures
        parse_card_list(enc_card_list(s) + rest) == Some((s, rest)),
{
    let n = s.len() as usize;
    assert(enc_card_list(s) + rest =~= seq![n as u64] + (enc_cards(s) + rest));
    lemma_parse_usize(n, enc_cards(s) + rest);
    lemma_parse_cards(s, rest);
}

proof fn lemma_parse_opt_usize_list(x: Option<Seq<usize>>, rest: Seq<u64>)
    requires
        x matches Some(s) ==> s.len() <= usize::MAX,
    ensures
        parse_opt_usize_list(enc_opt_usize_list(x) + rest) == Some((x, rest)),
{
    match x {
        None => {
            assert(enc_opt_usize_list(x) + rest =~= seq![0u64] + rest);
            lemma_parse_u(0, rest);
        },
        Some(s) => {
            assert(enc_opt_usize_list(x) + rest =~= seq![1u64] + (enc_usize_list(s) + rest));
            lemma_parse_u(1, enc_usize_list(s) + rest);
            lemma_parse_usize_list(s, rest);
        },
    }
}

/// Every list a command can carry fits in memory.
pub open spec fn cmd_bounded(c: CommandV) -> bool {
    match c {
        CommandV::PosteriorPredict { rank_list: Some(s), .. } => s.len() <= usize::MAX,
        _ => true,
    }
}

/// Every list an event can carry fits in memory.
pub open spec fn event_bounded(e: EventV) -> bool {
    match e {
        EventV::RoundResult { cards, ranking, prediction, posterior_prediction, score_delta } => {
            &&& cards.len() <= usize::MAX
            &&& ranking.len() <= usize::MAX
            &&& prediction.len() <= usize::MAX
            &&& posterior_prediction.len() <= usize::MAX
            &&& score_delta.len() <= usize::MAX
        },
        EventV::CardsDealt { cards, .. } => cards.len() <= usize::MAX,
        _ => true,
    }
}

pub open spec fn msg_bounded(m: NetMessageV) -> bool {
    match m {
        NetMessageV::Command(c) => cmd_bounded(c),
        NetMessageV::Event(e) => event_bounded(e),
    }
}

proof fn lemma_parse_command(c: CommandV, rest: Seq<u64>)
    requires
        cmd_bounded(c),
    ensures
        parse_command(enc_command(c) + rest) == Some((c, rest)),
{
    match c {
        CommandV::Predict { player_id, rank } => {
            assert(enc_command(c) + rest =~= seq![0u64] + (seq![player_id as u64]
                + (enc_opt_usize(rank) + rest)));
            lemma_parse_u(0, seq![player_id as u64] + (enc_opt_usize(rank) + rest));
            lemma_parse_usize(player_id, enc_opt_usize(rank) + rest);
            lemma_parse_opt_usize(rank, rest);
        },
        CommandV::PlayCard { player_id, card_index } => {
            assert(enc_command(c) + rest =~= seq![1u64] + (seq![player_id as u64]
                + (seq![card_index as u64] + rest)));
            lemma_parse_u(1, seq![player_id as u64] + (seq![card_index as u64] + rest));
            lemma_parse_usize(player_id, seq![card_index as u64] + rest);
            lemma_parse_usize(card_index, rest);
        },
        CommandV::PosteriorPredict { player_id, rank_list } => {
            assert(enc_command(c) + rest =~= seq![2u64] + (seq![player_id as u64]
                + (enc_opt_usize_list(rank_list) + rest)));
            lemma_parse_u(2, seq![player_id as u64] + (enc_opt_usize_list(rank_list) + rest));
            lemma_parse_usize(player_id, enc_opt_usize_list(rank_list) + rest);
            lemma_parse_opt_usize_list(rank_list, rest);
        },
        CommandV::Restart { player_id, yes } => {
            let w: u64 = if yes {
                1
            } else {
                0
            };
            assert(enc_command(c) + rest =~= seq![3u64] + (seq![player_id as u64] + (seq![w]
                + rest)));
            lemma_parse_u(3, seq![player_id as u64] + (seq![w] + rest));
            lemma_parse_usize(player_id, seq![w] + rest);
            lemma_parse_u(w, rest);
        },
    }
}

#[verifier::rlimit(100)]
proof fn lemma_parse_event(e: EventV, rest: Seq<u64>)
    requires
        event_bounded(e),
    ensures
        parse_event(enc_event(e) + rest) == Some((e, rest)),
{
    match e {
        EventV::PredictionAccepted { player_id } => {
            assert(enc_event(e) + rest =~= seq![0u64] + (seq![player_id as u64] + rest));
            lemma_parse_u(0, seq![player_id as u64] + rest);
            lemma_parse_usize(player_id, rest);
        },
        EventV::CardPlayed { player_id } => {
            assert(enc_event(e) + rest =~= seq![1u64] + (seq![player_id as u64] + rest));
            lemma_parse_u(1, seq![player_id as u64] + rest);
            lemma_parse_usize(player_id, rest);
        },
        EventV::PosteriorPredictionAccepted { player_id } => {
            assert(enc_event(e) + rest =~= seq![2u64] + (seq![player_id as u64] + rest));
            lemma_parse_u(2, seq![player_id as u64] + rest);
            lemma_parse_usize(player_id, rest);
        },
        EventV::RoundResult { cards, ranking, prediction, posterior_prediction, score_delta } => {
            let t5 = enc_i32_list(score_delta) + rest;
            let t4 = enc_usize_list(posterior_prediction) + t5;
            let t3 = enc_usize_list(prediction) + t4;
            let t2 = enc_usize_list(ranking) + t3;
            let t1 = enc_card_list(cards) + t2;
            assert(enc_event(e) + rest =~= seq![3u64] + t1);
            lemma_parse_u(3, t1);
            lemma_parse_card_list(cards, t2);
            lemma_parse_usize_list(ranking, t3);
            lemma_parse_usize_list(prediction, t4);
            lemma_parse_usize_list(posterior_prediction, t5);
            lemma_parse_i32_list(score_delta, rest);
        },
        EventV::GameStarted => {
            assert(enc_event(e) + rest =~= seq![4u64] + rest);
            lemma_parse_u(4, rest);
        },
        EventV::PhaseChanged => {
            assert(enc_event(e) + rest =~= seq![5u64] + rest);
            lemma_parse_u(5, rest);
        },
        EventV::GameEnded => {
            assert(enc_event(e) + rest =~= seq![6u64] + rest);
            lemma_parse_u(6, rest);
        },
        EventV::PlayerAssigned { player_id } => {
            assert(enc_event(e) + rest =~= seq![7u64] + (seq![player_id as u64] + rest));
            lemma_parse_u(7, seq![player_id as u64] + rest);
            lemma_parse_usize(player_id, rest);
        },
        EventV::CardsDealt { player_id, cards } => {
            assert(enc_event(e) + rest =~= seq![8u64] + (seq![player_id as u64] + (enc_card_list(
                cards,
            ) + rest)));
            lemma_parse_u(8, seq![player_id as u64] + (enc_card_list(cards) + rest));
            lemma_parse_usize(player_id, enc_card_list(cards) + rest);
            lemma_parse_card_list(cards, rest);
        },
    }
}

/// Law: decoding inverts encoding.  Every well-formed message value comes
/// back from its own wire words, so the envelope loses nothing.
pub proof fn lemma_codec_round_trip(mv: NetMessageV)
    requires
        msg_bounded(mv),
    ensures
        dec_message(enc_message(mv)) == Some(mv),
{
    match mv {
        NetMessageV::Command(c) => {
            assert(enc_message(mv) =~= seq![0u64] + enc_command(c));
            lemma_parse_u(0, enc_command(c));
            lemma_parse_command(c, Seq::empty());
            assert(enc_command(c) + Seq::<u64>::empty() =~= enc_command(c));
        },
        NetMessageV::Event(e) => {
            assert(enc_message(mv) =~= seq![1u64] + enc_event(e));
            lemma_parse_u(1, enc_event(e));
            lemma_parse_event(e, Seq::empty());
            assert(enc_event(e) + Seq::<u64>::empty() =~= enc_event(e));
        },
    }
}

/// Law: the round trip over real message values: a message's view is
/// bounded, and decoding its encoding yields that view back.
pub proof fn lemma_message_round_trip(m: NetMessage)
    ensures
        msg_bounded(msg_view(m)),
        dec_message(enc_message(msg_view(m))) == Some(msg_view(m)),
{
    broadcast use vstd::std_specs::vec::axiom_spec_len;

    assert(msg_bounded(msg_view(m))) by {
        match m {
            NetMessage::Command(c) => {
                match c {
                    Command::PosteriorPredict { rank_list, .. } => {
                        match rank_list {
                            Some(v) => {
                                assert(vstd::std_specs::vec::spec_vec_len(&v) == v@.len());
                            },
                            None => {},
                        }
                    },
                    _ => {},
                }
            },
            NetMessage::Event(e) => {
                match e {
                    Event::RoundResult {
                        cards,
                        ranking,
                        prediction,
                        posterior_prediction,
                        score_delta,
                    } => {
                        assert(vstd::std_specs::vec::spec_vec_len(&cards) == cards@.len());
                        assert(vstd::std_specs::vec::spec_vec_len(&ranking) == ranking@.len());
                        assert(vstd::std_specs::vec::spec_vec_len(&prediction) == prediction@.len());
                        assert(vstd::std_specs::vec::spec_vec_len(&posterior_prediction)
                            == posterior_prediction@.len());
                        assert(vstd::std_specs::vec::spec_vec_len(&score_delta)
                            == score_delta@.len());
                    },
                    Event::CardsDealt { cards, .. } => {
                        assert(vstd::std_specs::vec::spec_vec_len(&cards) == cards@.len());
                    },
                    _ => {},
                }
            },
        }
    }
    lemma_codec_round_trip(msg_view(m));
}


// ---------------------------------------------------------------------
// Executable encoder.
// ---------------------------------------------------------------------

fn push_card(out: &mut Vec<u64>, c: &Card)
    ensures
        final(out)@ == old(out)@ + enc_card(*c),
{
    let v = c.rank.value();
    out.push(v as u64);
    let w: u64 = match c.suit {
        Suit::Spade => 0,
        Suit::Heart => 1,
        Suit::Diamond => 2,
        Suit::Club => 3,
    };
    out.push(w);
    proof {
        assert(out@ =~= old(out)@ + enc_card(*c));
    }
}

fn push_opt_usize(out: &mut Vec<u64>, x: &Option<usize>)
    ensures
        final(out)@ == old(out)@ + enc_opt_usize(*x),
{
    match x {
        None => {
            out.push(0);
            proof {
                assert(out@ =~= old(out)@ + enc_opt_usize(*x));
            }
        },
        Some(v) => {
            out.push(1);
            out.push(*v as u64);
            proof {
                assert(out@ =~= old(out)@ + enc_opt_usize(*x));
            }
        },
    }
}

proof fn lemma_enc_usizes_push(s: Seq<usize>, x: usize)
    ensures
        enc_usizes(s.push(x)) == enc_usizes(s) + seq![x as u64],
    decreases s.len(),
{
    assert(s.push(x)[0] == if s.len() == 0 { x } else { s[0] });
    if s.len() == 0 {
        assert(s.push(x).drop_first() =~= Seq::<usize>::empty());
        assert(enc_usizes(Seq::<usize>::empty()) == Seq::<u64>::empty());
        assert(enc_usizes(s.push(x)) =~= enc_usizes(s) + seq![x as u64]);
    } else {
        assert(s.push(x).drop_first() =~= s.drop_first().push(x));
        lemma_enc_usizes_push(s.drop_first(), x);
        assert(enc_usizes(s.push(x)) =~= enc_usizes(s) + seq![x as u64]);
    }
}

proof fn lemma_enc_i32s_push(s: Seq<i32>, x: i32)
    ensures
        enc_i32s(s.push(x)) == enc_i32s(s) + seq![enc_i32(x)],
    decreases s.len(),
{
    assert(s.push(x)[0] == if s.len() == 0 { x } else { s[0] });
    if s.len() == 0 {
        assert(s.push(x).drop_first() =~= Seq::<i32>::empty());
        assert(enc_i32s(Seq::<i32>::empty()) == Seq::<u64>::empty());
        assert(enc_i32s(s.push(x)) =~= enc_i32s(s) + seq![enc_i32(x)]);
    } else {
        assert(s.push(x).drop_first() =~= s.drop_first().push(x));
        lemma_enc_i32s_push(s.drop_first(), x);
        assert(enc_i32s(s.push(x)) =~= enc_i32s(s) + seq![enc_i32(x)]);
    }
}

proof fn lemma_enc_cards_push(s: Seq<Card>, x: Card)
    ensures
        enc_cards(s.push(x)) == enc_cards(s) + enc_card(x),
    decreases s.len(),
{
    assert(s.push(x)[0] == if s.len() == 0 { x } else { s[0] });
    if s.len() == 0 {
        assert(s.push(x).drop_first() =~= Seq::<Card>::empty());
        assert(enc_cards(Seq::<Card>::empty()) == Seq::<u64>::empty());
        assert(enc_cards(s.push(x)) =~= enc_cards(s) + enc_card(x));
    } else {
        assert(s.push(x).drop_first() =~= s.drop_first().push(x));
        lemma_enc_cards_push(s.drop_first(), x);
        assert(enc_cards(s.push(x)) =~= enc_cards(s) + enc_card(x));
    }
}

fn push_usize_list(out: &mut Vec<u64>, v: &Vec<usize>)
    ensures
        final(out)@ == old(out)@ + enc_usize_list(v@),
{
    out.push(v.len() as u64);
    let mut i: usize = 0;
    while i < v.len()
        invariant
            0 <= i <= v@.len(),
            out@ == old(out)@ + seq![v@.len() as u64] + enc_usizes(v@.take(i as int)),
        decreases v@.len() - i,
    {
        out.push(v[i] as u64);
        proof {
            assert(v@.take(i + 1) =~= v@.take(i as int).push(v@[i as int]));
            lemma_enc_usizes_push(v@.take(i as int), v@[i as int]);
            assert(out@ =~= old(out)@ + seq![v@.len() as u64] + enc_usizes(v@.take(i + 1)));
        }
        i += 1;
    }
    proof {
        assert(v@.take(v@.len() as int) =~= v@);
        assert(out@ =~= old(out)@ + enc_usize_list(v@));
    }
}

fn push_i32_list(out: &mut Vec<u64>, v: &Vec<i32>)
    ensures
        final(out)@ == old(out)@ + enc_i32_list(v@),
{
    out.push(v.len() as u64);
    let mut i: usize = 0;
    while i < v.len()
        invariant
            0 <= i <= v@.len(),
            out@ == old(out)@ + seq![v@.len() as u64] + enc_i32s(v@.take(i as int)),
        decreases v@.len() - i,
    {
        let x = v[i];
        let w: u64 = ((x as i64) + 0x8000_0000) as u64;
        out.push(w);
        proof {
            assert(w == enc_i32(v@[i as int]));
            assert(v@.take(i + 1) =~= v@.take(i as int).push(v@[i as int]));
            lemma_enc_i32s_push(v@.take(i as int), v@[i as int]);
            assert(out@ =~= old(out)@ + seq![v@.len() as u64] + enc_i32s(v@.take(i + 1)));
        }
        i += 1;
    }
    proof {
        assert(v@.take(v@.len() as int) =~= v@);
        assert(out@ =~= old(out)@ + enc_i32_list(v@));
    }
}

fn push_card_list(out: &mut Vec<u64>, v: &Vec<Card>)
    ensures
        final(out)@ == old(out)@ + enc_card_list(v@),
{
    out.push(v.len() as u64);
    let mut i: usize = 0;
    while i < v.len()
        invariant
            0 <= i <= v@.len(),
            out@ == old(out)@ + seq![v@.len() as u64] + enc_cards(v@.take(i as int)),
        decreases v@.len() - i,
    {
        push_card(out, &v[i]);
        proof {
            assert(v@.take(i + 1) =~= v@.take(i as int).push(v@[i as int]));
            lemma_enc_cards_push(v@.take(i as int), v@[i as int]);
            assert(out@ =~= old(out)@ + seq![v@.len() as u64] + enc_cards(v@.take(i + 1)));
        }
        i += 1;
    }
    proof {
        assert(v@.take(v@.len() as int) =~= v@);
        assert(out@ =~= old(out)@ + enc_card_list(v@));
    }
}

fn encode_command_words(c: &Command, out: &mut Vec<u64>)
    ensures
        final(out)@ == old(out)@ + enc_command(cmd_view(*c)),
{
    match c {
        Command::Predict { player_id, rank } => {
            out.push(0);
            out.push(*player_id as u64);
            push_opt_usize(out, rank);
            proof {
                assert(out@ =~= old(out)@ + enc_command(cmd_view(*c)));
            }
        },
        Command::PlayCard { player_id, card_index } => {
            out.push(1);
            out.push(*player_id as u64);
            out.push(*card_index as u64);
            proof {
                assert(out@ =~= old(out)@ + enc_command(cmd_view(*c)));
            }
        },
        Command::PosteriorPredict { player_id, rank_list } => {
            out.push(2);
            out.push(*player_id as u64);
            match rank_list {
                None => {
                    out.push(0);
                },
                Some(v) => {
                    out.push(1);
                    push_usize_list(out, v);
                },
            }
            proof {
                assert(out@ =~= old(out)@ + enc_command(cmd_view(*c)));
            }
        },
        Command::Restart { player_id, yes } => {
            out.push(3);
            out.push(*player_id as u64);
            out.push(if *yes {
                1
            } else {
                0
            });
            proof {
                assert(out@ =~= old(out)@ + enc_command(cmd_view(*c)));
            }
        },
    }
}

fn encode_event_words(e: &Event, out: &mut Vec<u64>)
    ensures
        final(out)@ == old(out)@ + enc_event(event_view(*e)),
{
    match e {
        Event::PredictionAccepted { player_id } => {
            out.push(0);
            out.push(*player_id as u64);
            proof {
                assert(out@ =~= old(out)@ + enc_event(event_view(*e)));
            }
        },
        Event::CardPlayed { player_id } => {
            out.push(1);
            out.push(*player_id as u64);
            proof {
                assert(out@ =~= old(out)@ + enc_event(event_view(*e)));
            }
        },
        Event::PosteriorPredictionAccepted { player_id } => {
            out.push(2);
            out.push(*player_id as u64);
            proof {
                assert(out@ =~= old(out)@ + enc_event(event_view(*e)));
            }
        },
        Event::RoundResult { cards, ranking, prediction, posterior_prediction, score_delta } => {
            out.push(3);
            push_card_list(out, cards);
            push_usize_list(out, ranking);
            push_usize_list(out, prediction);
            push_usize_list(out, posterior_prediction);
            push_i32_list(out, score_delta);
            proof {
                assert(out@ =~= old(out)@ + enc_event(event_view(*e)));
            }
        },
        Event::GameStarted => {
            out.push(4);
            proof {
                assert(out@ =~= old(out)@ + enc_event(event_view(*e)));
            }
        },
        Event::PhaseChanged => {
            out.push(5);
            proof {
                assert(out@ =~= old(out)@ + enc_event(event_view(*e)));
            }
        },
        Event::GameEnded => {
            out.push(6);
            proof {
                assert(out@ =~= old(out)@ + enc_event(event_view(*e)));
            }
        },
        Event::PlayerAssigned { player_id } => {
            out.push(7);
            out.push(*player_id as u64);
            proof {
                assert(out@ =~= old(out)@ + enc_event(event_view(*e)));
            }
        },
        Event::CardsDealt { player_id, cards } => {
            out.push(8);
            out.push(*player_id as u64);
            push_card_list(out, cards);
            proof {
                assert(out@ =~= old(out)@ + enc_event(event_view(*e)));
            }
        },
    }
}

/// Encodes one envelope as wire words.  Decoding the result yields the same
/// message back (`lemma_message_round_trip`).
pub fn encode_message(m: &NetMessage) -> (out: Vec<u64>)
    ensures
        out@ == enc_message(msg_view(*m)),
{
    let mut out: Vec<u64> = Vec::new();
    match m {
        NetMessage::Command(c) => {
            out.push(0);
            encode_command_words(c, &mut out);
        },
        NetMessage::Event(e) => {
            out.push(1);
            encode_event_words(e, &mut out);
        },
    }
    proof {
        assert(out@ =~= enc_message(msg_view(*m)));
    }
    out
}

// ---------------------------------------------------------------------
// Executable decoder: a cursor over the wire words, each step mirroring
// one parser.
// ---------------------------------------------------------------------

fn rd_u(data: &Vec<u64>, pos: &mut usize) -> (r: Option<u64>)
    requires
        *old(pos) <= data@.len(),
    ensures
        match r {
            Some(w) => {
                &&& *final(pos) == *old(pos) + 1
                &&& *final(pos) <= data@.len()
                &&& parse_u(data@.skip(*old(pos) as int)) == Some(
                    (w, data@.skip(*final(pos) as int)),
                )
            },
            None => parse_u(data@.skip(*old(pos) as int)) is None,
        },
{
    if *pos < data.len() {
        let w = data[*pos];
        let ghost p0 = *pos;
        *pos = *pos + 1;
        proof {
            assert(data@.skip(p0 as int)[0] == data@[p0 as int]);
            assert(data@.skip(p0 as int).skip(1) =~= data@.skip(p0 + 1));
        }
        Some(w)
    } else {
        proof {
            assert(data@.skip(*pos as int).len() == 0);
        }
        None
    }
}

fn rd_usize(data: &Vec<u64>, pos: &mut usize) -> (r: Option<usize>)
    requires
        *old(pos) <= data@.len(),
    ensures
        match r {
            Some(v) => {
                &&& *old(pos) <= *final(pos) <= data@.len()
                &&& parse_usize(data@.skip(*old(pos) as int)) == Some(
                    (v, data@.skip(*final(pos) as int)),
                )
            },
            None => parse_usize(data@.skip(*old(pos) as int)) is None,
        },
{
    match rd_u(data, pos) {
        Some(w) => if w <= usize::MAX as u64 {
            Some(w as usize)
        } else {
            None
        },
        None => None,
    }
}

fn rd_i32(data: &Vec<u64>, pos: &mut usize) -> (r: Option<i32>)
    requires
        *old(pos) <= data@.len(),
    ensures
        match r {
            Some(v) => {
                &&& *old(pos) <= *final(pos) <= data@.len()
                &&& parse_i32(data@.skip(*old(pos) as int)) == Some(
                    (v, data@.skip(*final(pos) as int)),
                )
            },
            None => parse_i32(data@.skip(*old(pos) as int)) is None,
        },
{
    match rd_u(data, pos) {
        Some(w) => if w < 0x1_0000_0000 {
            let x: i32 = ((w as i64) - 0x8000_0000) as i32;
            Some(x)
        } else {
            None
        },
        None => None,
    }
}

fn suit_from_code(w: u64) -> (s: Suit)
    requires
        w <= 3,
    ensures
        s == suit_of_code(w),
{
    if w == 0 {
        Suit::Spade
    } else if w == 1 {
        Suit::Heart
    } else if w == 2 {
        Suit::Diamond
    } else {
        Suit::Club
    }
}

fn rd_card(data: &Vec<u64>, pos: &mut usize) -> (r: Option<Card>)
    requires
        *old(pos) <= data@.len(),
    ensures
        match r {
            Some(c) => {
                &&& *old(pos) <= *final(pos) <= data@.len()
                &&& parse_card(data@.skip(*old(pos) as int)) == Some(
                    (c, data@.skip(*final(pos) as int)),
                )
            },
            None => parse_card(data@.skip(*old(pos) as int)) is None,
        },
{
    let v = match rd_u(data, pos) {
        Some(v) => v,
        None => {
            return None;
        },
    };
    if v < 1 || v > 13 {
        return None;
    }
    let w = match rd_u(data, pos) {
        Some(w) => w,
        None => {
            return None;
        },
    };
    if w > 3 {
        return None;
    }
    let rank = rank_from_value(v as u8);
    let suit = suit_from_code(w);
    proof {
        assert(rank == rank_of_value(v));
    }
    Some(Card { rank, suit })
}

fn rd_opt_usize(data: &Vec<u64>, pos: &mut usize) -> (r: Option<Option<usize>>)
    requires
        *old(pos) <= data@.len(),
    ensures
        match r {
            Some(x) => {
                &&& *old(pos) <= *final(pos) <= data@.len()
                &&& parse_opt_usize(data@.skip(*old(pos) as int)) == Some(
                    (x, data@.skip(*final(pos) as int)),
                )
            },
            None => parse_opt_usize(data@.skip(*old(pos) as int)) is None,
        },
{
    let tag = match rd_u(data, pos) {
        Some(t) => t,
        None => {
            return None;
        },
    };
    if tag == 0 {
        Some(None)
    } else if tag == 1 {
        match rd_usize(data, pos) {
            Some(v) => Some(Some(v)),
            None => None,
        }
    } else {
        None
    }
}

fn rd_usize_list(data: &Vec<u64>, pos: &mut usize) -> (r: Option<Vec<usize>>)
    requires
        *old(pos) <= data@.len(),
    ensures
        match r {
            Some(v) => {
                &&& *old(pos) <= *final(pos) <= data@.len()
                &&& parse_usize_list(data@.skip(*old(pos) as int)) == Some(
                    (v@, data@.skip(*final(pos) as int)),
                )
            },
            None => parse_usize_list(data@.skip(*old(pos) as int)) is None,
        },
{
    let n = match rd_usize(data, pos) {
        Some(n) => n,
        None => {
            return None;
        },
    };
    let ghost start = data@.skip(*pos as int);
    proof {
        match parse_usizes(start, n as nat) {
            Some((tail, rr)) => {
                assert(Seq::<usize>::empty() + tail =~= tail);
            },
            None => {},
        }
    }
    let mut out: Vec<usize> = Vec::new();
    let mut i: usize = 0;
    while i < n
        invariant
            0 <= i <= n,
            *old(pos) <= *pos <= data@.len(),
            out@.len() == i,
            parse_usize(data@.skip(*old(pos) as int)) == Some((n, start)),
            parse_usizes(start, n as nat) == (match parse_usizes(
                data@.skip(*pos as int),
                (n - i) as nat,
            ) {
                Some((tail, rr)) => Some((out@ + tail, rr)),
                None => None::<(Seq<usize>, Seq<u64>)>,
            }),
        decreases n - i,
    {
        let ghost p_head = *pos;
        let ghost out0 = out@;
        let v = match rd_usize(data, pos) {
            Some(v) => v,
            None => {
                proof {
                    assert(parse_usizes(data@.skip(p_head as int), (n - i) as nat) is None);
                    assert(parse_usizes(start, n as nat) is None);
                    assert(parse_usize(data@.skip(*old(pos) as int)) == Some((n, start)));
                    assert(parse_usize_list(data@.skip(*old(pos) as int)) is None);
                }
                return None;
            },
        };
        out.push(v);
        proof {
            assert(parse_usizes(data@.skip(p_head as int), (n - i) as nat) == (
            match parse_usizes(data@.skip(*pos as int), (n - i - 1) as nat) {
                Some((tail, rr)) => Some((seq![v] + tail, rr)),
                None => None::<(Seq<usize>, Seq<u64>)>,
            }));
            match parse_usizes(data@.skip(*pos as int), (n - i - 1) as nat) {
                Some((tail, rr)) => {
                    assert(out0 + (seq![v] + tail) =~= out@ + tail);
                },
                None => {},
            }
        }
        i += 1;
    }
    proof {
        assert(parse_usizes(data@.skip(*pos as int), 0) == Some(
            (Seq::<usize>::empty(), data@.skip(*pos as int)),
        ));
        assert(out@ + Seq::<usize>::empty() =~= out@);
    }
    Some(out)
}

fn rd_i32_list(data: &Vec<u64>, pos: &mut usize) -> (r: Option<Vec<i32>>)
    requires
        *old(pos) <= data@.len(),
    ensures
        match r {
            Some(v) => {
                &&& *old(pos) <= *final(pos) <= data@.len()
                &&& parse_i32_list(data@.skip(*old(pos) as int)) == Some(
                    (v@, data@.skip(*final(pos) as int)),
                )
            },
            None => parse_i32_list(data@.skip(*old(pos) as int)) is None,
        },
{
    let n = match rd_usize(data, pos) {
        Some(n) => n,
        None => {
            return None;
        },
    };
    let ghost start = data@.skip(*pos as int);
    proof {
        match parse_i32s(start, n as nat) {
            Some((tail, rr)) => {
                assert(Seq::<i32>::empty() + tail =~= tail);
            },
            None => {},
        }
    }
    let mut out: Vec<i32> = Vec::new();
    let mut i: usize = 0;
    while i < n
        invariant
            0 <= i <= n,
            *old(pos) <= *pos <= data@.len(),
            out@.len() == i,
            parse_usize(data@.skip(*old(pos) as int)) == Some((n, start)),
            parse_i32s(start, n as nat) == (match parse_i32s(
                data@.skip(*pos as int),
                (n - i) as nat,
            ) {
                Some((tail, rr)) => Some((out@ + tail, rr)),
                None => None::<(Seq<i32>, Seq<u64>)>,
            }),
        decreases n - i,
    {
        let ghost p_head = *pos;
        let ghost out0 = out@;
        let v = match rd_i32(data, pos) {
            Some(v) => v,
            None => {
                proof {
                    assert(parse_i32s(data@.skip(p_head as int), (n - i) as nat) is None);
                    assert(parse_i32s(start, n as nat) is None);
                    assert(parse_usize(data@.skip(*old(pos) as int)) == Some((n, start)));
                    assert(parse_i32_list(data@.skip(*old(pos) as int)) is None);
                }
                return None;
            },
        };
        out.push(v);
        proof {
            assert(parse_i32s(data@.skip(p_head as int), (n - i) as nat) == (
            match parse_i32s(data@.skip(*pos as int), (n - i - 1) as nat) {
                Some((tail, rr)) => Some((seq![v] + tail, rr)),
                None => None::<(Seq<i32>, Seq<u64>)>,
            }));
            match parse_i32s(data@.skip(*pos as int), (n - i - 1) as nat) {
                Some((tail, rr)) => {
                    assert(out0 + (seq![v] + tail) =~= out@ + tail);
                },
                None => {},
            }
        }
        i += 1;
    }
    proof {
        assert(parse_i32s(data@.skip(*pos as int), 0) == Some(
            (Seq::<i32>::empty(), data@.skip(*pos as int)),
        ));
        assert(out@ + Seq::<i32>::empty() =~= out@);
    }
    Some(out)
}

fn rd_card_list(data: &Vec<u64>, pos: &mut usize) -> (r: Option<Vec<Card>>)
    requires
        *old(pos) <= data@.len(),
    ensures
        match r {
            Some(v) => {
                &&& *old(pos) <= *final(pos) <= data@.len()
                &&& parse_card_list(data@.skip(*old(pos) as int)) == Some(
                    (v@, data@.skip(*final(pos) as int)),
                )
            },
            None => parse_card_list(data@.skip(*old(pos) as int)) is None,
        },
{
    let n = match rd_usize(data, pos) {
        Some(n) => n,
        None => {
            return None;
        },
    };
    let ghost start = data@.skip(*pos as int);
    proof {
        match parse_cards(start, n as nat) {
            Some((tail, rr)) => {
                assert(Seq::<Card>::empty() + tail =~= tail);
            },
            None => {},
        }
    }
    let mut out: Vec<Card> = Vec::new();
    let mut i: usize = 0;
    while i < n
        invariant
            0 <= i <= n,
            *old(pos) <= *pos <= data@.len(),
            out@.len() == i,
            parse_usize(data@.skip(*old(pos) as int)) == Some((n, start)),
            parse_cards(start, n as nat) == (match parse_cards(
                data@.skip(*pos as int),
                (n - i) as nat,
            ) {
                Some((tail, rr)) => Some((out@ + tail, rr)),
                None => None::<(Seq<Card>, Seq<u64>)>,
            }),
        decreases n - i,
    {
        let ghost p_head = *pos;
        let ghost out0 = out@;
        let c = match rd_card(data, pos) {
            Some(c) => c,
            None => {
                proof {
                    assert(parse_cards(data@.skip(p_head as int), (n - i) as nat) is None);
                    assert(parse_cards(start, n as nat) is None);
                    assert(parse_usize(data@.skip(*old(pos) as int)) == Some((n, start)));
                    assert(parse_card_list(data@.skip(*old(pos) as int)) is None);
                }
                return None;
            },
        };
        out.push(c);
        proof {
            assert(parse_cards(data@.skip(p_head as int), (n - i) as nat) == (
            match parse_cards(data@.skip(*pos as int), (n - i - 1) as nat) {
                Some((tail, rr)) => Some((seq![c] + tail, rr)),
                None => None::<(Seq<Card>, Seq<u64>)>,
            }));
            match parse_cards(data@.skip(*pos as int), (n - i - 1) as nat) {
                Some((tail, rr)) => {
                    assert(out0 + (seq![c] + tail) =~= out@ + tail);
                },
                None => {},
            }
        }
        i += 1;
    }
    proof {
        assert(parse_cards(data@.skip(*pos as int), 0) == Some(
            (Seq::<Card>::empty(), data@.skip(*pos as int)),
        ));
        assert(out@ + Seq::<Card>::empty() =~= out@);
    }
    Some(out)
}

fn decode_command_words(data: &Vec<u64>, pos: &mut usize) -> (r: Option<Command>)
    requires
        *old(pos) <= data@.len(),
    ensures
        match r {
            Some(c) => {
                &&& *old(pos) <= *final(pos) <= data@.len()
                &&& parse_command(data@.skip(*old(pos) as int)) == Some(
                    (cmd_view(c), data@.skip(*final(pos) as int)),
                )
            },
            None => parse_command(data@.skip(*old(pos) as int)) is None,
        },
{
    let tag = match rd_u(data, pos) {
        Some(t) => t,
        None => {
            return None;
        },
    };
    if tag == 0 {
        let player_id = match rd_usize(data, pos) {
            Some(v) => v,
            None => {
                return None;
            },
        };
        let rank = match rd_opt_usize(data, pos) {
            Some(x) => x,
            None => {
                return None;
            },
        };
        Some(Command::Predict { player_id, rank })
    } else if tag == 1 {
        let player_id = match rd_usize(data, pos) {
            Some(v) => v,
            None => {
                return None;
            },
        };
        let card_index = match rd_usize(data, pos) {
            Some(v) => v,
            None => {
                return None;
            },
        };
        Some(Command::PlayCard { player_id, card_index })
    } else if tag == 2 {
        let player_id = match rd_usize(data, pos) {
            Some(v) => v,
            None => {
                return None;
            },
        };
        let inner = match rd_u(data, pos) {
            Some(t) => t,
            None => {
                return None;
            },
        };
        if inner == 0 {
            Some(Command::PosteriorPredict { player_id, rank_list: None })
        } else if inner == 1 {
            let v = match rd_usize_list(data, pos) {
                Some(v) => v,
                None => {
                    return None;
                },
            };
            Some(Command::PosteriorPredict { player_id, rank_list: Some(v) })
        } else {
            None
        }
    } else if tag == 3 {
        let player_id = match rd_usize(data, pos) {
            Some(v) => v,
            None => {
                return None;
            },
        };
        let w = match rd_u(data, pos) {
            Some(w) => w,
            None => {
                return None;
            },
        };
        if w <= 1 {
            Some(Command::Restart { player_id, yes: w == 1 })
        } else {
            None
        }
    } else {
        None
    }
}

fn decode_event_words(data: &Vec<u64>, pos: &mut usize) -> (r: Option<Event>)
    requires
        *old(pos) <= data@.len(),
    ensures
        match r {
            Some(e) => {
                &&& *old(pos) <= *final(pos) <= data@.len()
                &&& parse_event(data@.skip(*old(pos) as int)) == Some(
                    (event_view(e), data@.skip(*final(pos) as int)),
                )
            },
            None => parse_event(data@.skip(*old(pos) as int)) is None,
        },
{
    let tag = match rd_u(data, pos) {
        Some(t) => t,
        None => {
            return None;
        },
    };
    if tag == 0 {
        match rd_usize(data, pos) {
            Some(player_id) => Some(Event::PredictionAccepted { player_id }),
            None => None,
        }
    } else if tag == 1 {
        match rd_usize(data, pos) {
            Some(player_id) => Some(Event::CardPlayed { player_id }),
            None => None,
        }
    } else if tag == 2 {
        match rd_usize(data, pos) {
            Some(player_id) => Some(Event::PosteriorPredictionAccepted { player_id }),
            None => None,
        }
    } else if tag == 3 {
        let cards = match rd_card_list(data, pos) {
            Some(v) => v,
            None => {
                return None;
            },
        };
        let ranking = match rd_usize_list(data, pos) {
            Some(v) => v,
            None => {
                return None;
            },
        };
        let prediction = match rd_usize_list(data, pos) {
            Some(v) => v,
            None => {
                return None;
            },
        };
        let posterior_prediction = match rd_usize_list(data, pos) {
            Some(v) => v,
            None => {
                return None;
            },
        };
        let score_delta = match rd_i32_list(data, pos) {
            Some(v) => v,
            None => {
                return None;
            },
        };
        Some(
            Event::RoundResult { cards, ranking, prediction, posterior_prediction, score_delta },
        )
    } else if tag == 4 {
        Some(Event::GameStarted)
    } else if tag == 5 {
        Some(Event::PhaseChanged)
    } else if tag == 6 {
        Some(Event::GameEnded)
    } else if tag == 7 {
        match rd_usize(data, pos) {
            Some(player_id) => Some(Event::PlayerAssigned { player_id }),
            None => None,
        }
    } else if tag == 8 {
        let player_id = match rd_usize(data, pos) {
            Some(v) => v,
            None => {
                return None;
            },
        };
        let cards = match rd_card_list(data, pos) {
            Some(v) => v,
            None => {
                return None;
            },
        };
        Some(Event::CardsDealt { player_id, cards })
    } else {
        None
    }
}

/// Decodes one envelope from wire words.  An input that is not exactly the
/// encoding of a message is refused as `MalformedMessage`: a transport-layer
/// error the connection handler logs without applying anything.
pub fn decode_message(data: &Vec<u64>) -> (r: Result<NetMessage, ErrorKind>)
    ensures
        (r matches Ok(m) ==> dec_message(data@) == Some(msg_view(m))),
        (r matches Err(e) ==> e == ErrorKind::MalformedMessage && dec_message(data@) is None),
{
    let mut pos: usize = 0;
    proof {
        assert(data@.skip(0) =~= data@);
    }
    let tag = match rd_u(data, &mut pos) {
        Some(t) => t,
        None => {
            return Err(ErrorKind::MalformedMessage);
        },
    };
    if tag == 0 {
        let c = match decode_command_words(data, &mut pos) {
            Some(c) => c,
            None => {
                return Err(ErrorKind::MalformedMessage);
            },
        };
        if pos == data.len() {
            proof {
                assert(data@.skip(pos as int).len() == 0);
            }
            Ok(NetMessage::Command(c))
        } else {
            proof {
                assert(data@.skip(pos as int).len() > 0);
            }
            Err(ErrorKind::MalformedMessage)
        }
    } else if tag == 1 {
        let e = match decode_event_words(data, &mut pos) {
            Some(e) => e,
            None => {
                return Err(ErrorKind::MalformedMessage);
            },
        };
        if pos == data.len() {
            proof {
                assert(data@.skip(pos as int).len() == 0);
            }
            Ok(NetMessage::Event(e))
        } else {
            proof {
                assert(data@.skip(pos as int).len() > 0);
            }
            Err(ErrorKind::MalformedMessage)
        }
    } else {
        Err(ErrorKind::MalformedMessage)
    }
}

} // verus!
