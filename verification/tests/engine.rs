use game_core::Card;
use game_core::Command;
use game_core::ErrorKind;
use game_core::Event;
use game_core::GameState;
use game_core::Phase;
use game_core::Rank;
use game_core::Suit;
use game_core::init_game;

fn card(rank: Rank, suit: Suit) -> Card {
    Card { rank, suit }
}

/// A fresh game where each player holds exactly the one card given, so a
/// whole round can be driven deterministically.
fn game_with_single_cards(cards: [Card; 5]) -> GameState {
    let mut g = init_game();
    for (i, c) in cards.iter().enumerate() {
        g.players[i].hand = vec![*c];
    }
    g
}

/// Drives one full round: every player predicts (in counter-clockwise turn
/// order from the start player), every player plays their only card, and the
/// start player makes the given posterior guess.  Returns the RoundResult.
fn play_round(g: &mut GameState, preds: [Option<usize>; 5], guess: Option<Vec<usize>>) -> Event {
    for _ in 0..5 {
        let p = g.current_player;
        let evs = g
            .apply(Command::Predict { player_id: p, rank: preds[p] })
            .expect("prediction in turn must be accepted");
        assert_eq!(evs, vec![Event::PredictionAccepted { player_id: p }]);
    }
    assert_eq!(g.phase, Phase::Play);
    for _ in 0..5 {
        let p = g.current_player;
        let evs = g
            .apply(Command::PlayCard { player_id: p, card_index: 0 })
            .expect("play in turn must be accepted");
        assert_eq!(evs, vec![Event::CardPlayed { player_id: p }]);
    }
    assert_eq!(g.phase, Phase::PosteriorPrediction);
    let sp = g.start_player;
    let mut evs = g
        .apply(Command::PosteriorPredict { player_id: sp, rank_list: guess })
        .expect("posterior prediction from the start player must be accepted");
    assert_eq!(evs.len(), 2);
    assert_eq!(evs[0], Event::PosteriorPredictionAccepted { player_id: sp });
    evs.pop().unwrap()
}

#[test]
fn turn_order_is_counter_clockwise() {
    let mut g = game_with_single_cards([
        card(Rank::Two, Suit::Heart),
        card(Rank::Three, Suit::Heart),
        card(Rank::Four, Suit::Heart),
        card(Rank::Five, Suit::Heart),
        card(Rank::Six, Suit::Heart),
    ]);
    let mut order = vec![];
    for _ in 0..5 {
        order.push(g.current_player);
        g.apply(Command::Predict { player_id: g.current_player, rank: None }).unwrap();
    }
    assert_eq!(order, vec![0, 4, 3, 2, 1]);
    assert_eq!(g.phase, Phase::Play);
    assert_eq!(g.current_player, 0);
}

#[test]
fn table_after_five_plays_holds_each_player_once() {
    let mut g = game_with_single_cards([
        card(Rank::Two, Suit::Heart),
        card(Rank::Three, Suit::Heart),
        card(Rank::Four, Suit::Heart),
        card(Rank::Five, Suit::Heart),
        card(Rank::Six, Suit::Heart),
    ]);
    for _ in 0..5 {
        let p = g.current_player;
        g.apply(Command::Predict { player_id: p, rank: None }).unwrap();
    }
    for _ in 0..5 {
        let p = g.current_player;
        g.apply(Command::PlayCard { player_id: p, card_index: 0 }).unwrap();
    }
    assert_eq!(g.table.len(), 5);
    let mut ids: Vec<usize> = g.table.iter().map(|e| e.0).collect();
    ids.sort();
    assert_eq!(ids, vec![0, 1, 2, 3, 4]);
}

#[test]
fn wrong_actor_fails_with_not_your_turn_and_state_is_unchanged() {
    let g0 = game_with_single_cards([
        card(Rank::Two, Suit::Heart),
        card(Rank::Three, Suit::Heart),
        card(Rank::Four, Suit::Heart),
        card(Rank::Five, Suit::Heart),
        card(Rank::Six, Suit::Heart),
    ]);
    let mut g = g0.clone();
    // Seat 0 acts first; any other actor is out of turn.
    let r = g.apply(Command::Predict { player_id: 2, rank: Some(1) });
    assert_eq!(r, Err(ErrorKind::NotYourTurn));
    assert_eq!(g, g0);

    // Same for a play attempted out of turn once the play phase is reached.
    for _ in 0..5 {
        let p = g.current_player;
        g.apply(Command::Predict { player_id: p, rank: None }).unwrap();
    }
    let snapshot = g.clone();
    let r = g.apply(Command::PlayCard { player_id: 3, card_index: 0 });
    assert_eq!(r, Err(ErrorKind::NotYourTurn));
    assert_eq!(g, snapshot);
}

#[test]
fn wrong_phase_is_rejected() {
    let mut g = game_with_single_cards([
        card(Rank::Two, Suit::Heart),
        card(Rank::Three, Suit::Heart),
        card(Rank::Four, Suit::Heart),
        card(Rank::Five, Suit::Heart),
        card(Rank::Six, Suit::Heart),
    ]);
    let r = g.apply(Command::PlayCard { player_id: 0, card_index: 0 });
    assert_eq!(r, Err(ErrorKind::WrongPhase));
    let r = g.apply(Command::PosteriorPredict { player_id: 0, rank_list: None });
    assert_eq!(r, Err(ErrorKind::WrongPhase));
}

#[test]
fn invalid_card_index_is_rejected() {
    let mut g = game_with_single_cards([
        card(Rank::Two, Suit::Heart),
        card(Rank::Three, Suit::Heart),
        card(Rank::Four, Suit::Heart),
        card(Rank::Five, Suit::Heart),
        card(Rank::Six, Suit::Heart),
    ]);
    for _ in 0..5 {
        let p = g.current_player;
        g.apply(Command::Predict { player_id: p, rank: None }).unwrap();
    }
    let r = g.apply(Command::PlayCard { player_id: 0, card_index: 7 });
    assert_eq!(r, Err(ErrorKind::InvalidCardIndex));
}

#[test]
fn out_of_range_prediction_is_rejected() {
    let mut g = game_with_single_cards([
        card(Rank::Two, Suit::Heart),
        card(Rank::Three, Suit::Heart),
        card(Rank::Four, Suit::Heart),
        card(Rank::Five, Suit::Heart),
        card(Rank::Six, Suit::Heart),
    ]);
    assert_eq!(
        g.apply(Command::Predict { player_id: 0, rank: Some(0) }),
        Err(ErrorKind::MalformedMessage)
    );
    assert_eq!(
        g.apply(Command::Predict { player_id: 0, rank: Some(6) }),
        Err(ErrorKind::MalformedMessage)
    );
}

#[test]
fn non_permutation_posterior_guess_is_rejected() {
    let mut g = game_with_single_cards([
        card(Rank::Two, Suit::Heart),
        card(Rank::Three, Suit::Heart),
        card(Rank::Four, Suit::Heart),
        card(Rank::Five, Suit::Heart),
        card(Rank::Six, Suit::Heart),
    ]);
    for _ in 0..5 {
        let p = g.current_player;
        g.apply(Command::Predict { player_id: p, rank: None }).unwrap();
    }
    for _ in 0..5 {
        let p = g.current_player;
        g.apply(Command::PlayCard { player_id: p, card_index: 0 }).unwrap();
    }
    let r = g.apply(Command::PosteriorPredict { player_id: 0, rank_list: Some(vec![0, 0, 1, 2, 3]) });
    assert_eq!(r, Err(ErrorKind::MalformedMessage));
    let r = g.apply(Command::PosteriorPredict { player_id: 0, rank_list: Some(vec![0, 1, 2, 3, 9]) });
    assert_eq!(r, Err(ErrorKind::MalformedMessage));
}

#[test]
fn ace_king_override_ranks_ace_then_king() {
    // Played set {A spade, K heart, 7 club, ...}: the override is active, so
    // the Ace ranks first and the King second whatever the numeric order.
    let mut g = game_with_single_cards([
        card(Rank::A, Suit::Spade),    // player 0, plays first
        card(Rank::Three, Suit::Diamond), // player 1, plays last
        card(Rank::Two, Suit::Diamond),   // player 2
        card(Rank::Seven, Suit::Club),    // player 3
        card(Rank::K, Suit::Heart),       // player 4
    ]);
    let rr = play_round(&mut g, [None; 5], None);
    match rr {
        Event::RoundResult { cards, ranking, prediction, posterior_prediction, score_delta } => {
            // Play order is 0, 4, 3, 2, 1.
            assert_eq!(
                cards,
                vec![
                    card(Rank::A, Suit::Spade),
                    card(Rank::K, Suit::Heart),
                    card(Rank::Seven, Suit::Club),
                    card(Rank::Two, Suit::Diamond),
                    card(Rank::Three, Suit::Diamond),
                ]
            );
            assert_eq!(ranking, vec![0, 4, 3, 1, 2]);
            // Base scores [2,1,0,-1,-2] by position, and -2 each for the
            // missing prior prediction, indexed by player id.
            assert_eq!(score_delta, vec![0, -3, -4, -2, -1]);
            assert_eq!(prediction, vec![0, 0, 0, 0, 0]);
            assert_eq!(posterior_prediction, Vec::<usize>::new());
        },
        other => panic!("expected a RoundResult, got {:?}", other),
    }
    assert_eq!(g.round, 1);
    assert_eq!(g.phase, Phase::PriorPrediction);
    assert_eq!(g.start_player, 4);
    assert_eq!(g.current_player, 4);
}

#[test]
fn plain_numeric_order_without_the_override() {
    // {K heart, Q spade, 2 club, ...}: no Ace, so plain rank order with suit
    // tie-breaks applies.
    let mut g = game_with_single_cards([
        card(Rank::K, Suit::Heart),
        card(Rank::Q, Suit::Spade),
        card(Rank::Two, Suit::Club),
        card(Rank::Five, Suit::Diamond),
        card(Rank::Five, Suit::Spade),
    ]);
    let rr = play_round(&mut g, [None; 5], None);
    match rr {
        Event::RoundResult { ranking, .. } => {
            // K > Q > 5 spade > 5 diamond > 2.
            assert_eq!(ranking, vec![0, 1, 4, 3, 2]);
        },
        other => panic!("expected a RoundResult, got {:?}", other),
    }
}

#[test]
fn comparator_applies_override_only_with_ace_and_king_present() {
    let a_spade = card(Rank::A, Suit::Spade);
    let k_heart = card(Rank::K, Suit::Heart);
    let seven_club = card(Rank::Seven, Suit::Club);
    let with_override = vec![a_spade, k_heart, seven_club];
    assert_eq!(
        Card::compare(&a_spade, &k_heart, &with_override),
        std::cmp::Ordering::Greater
    );
    assert_eq!(
        Card::compare(&seven_club, &k_heart, &with_override),
        std::cmp::Ordering::Less
    );
    // Without a King on the table, the Ace is just the lowest rank.
    let no_override = vec![a_spade, seven_club];
    assert_eq!(
        Card::compare(&a_spade, &seven_club, &no_override),
        std::cmp::Ordering::Less
    );
    // Equal ranks fall back to the suit order.
    let k_spade = card(Rank::K, Suit::Spade);
    let pair = vec![k_spade, k_heart];
    assert_eq!(Card::compare(&k_spade, &k_heart, &pair), std::cmp::Ordering::Greater);
}

#[test]
fn ranking_rederives_from_revealed_cards() {
    // Settlement reproducibility: re-sorting the revealed cards with the
    // comparator yields the reported ranking again.
    let mut g = game_with_single_cards([
        card(Rank::A, Suit::Spade),
        card(Rank::Three, Suit::Diamond),
        card(Rank::Two, Suit::Diamond),
        card(Rank::Seven, Suit::Club),
        card(Rank::K, Suit::Heart),
    ]);
    let rr = play_round(&mut g, [None; 5], None);
    let (cards, ranking) = match rr {
        Event::RoundResult { cards, ranking, .. } => (cards, ranking),
        other => panic!("expected a RoundResult, got {:?}", other),
    };
    // Play order was 0, 4, 3, 2, 1: pair each revealed card with its player.
    let players = [0usize, 4, 3, 2, 1];
    let mut pairs: Vec<(usize, Card)> =
        players.iter().copied().zip(cards.iter().copied()).collect();
    pairs.sort_by(|a, b| Card::compare(&b.1, &a.1, &cards));
    let rederived: Vec<usize> = pairs.iter().map(|e| e.0).collect();
    assert_eq!(rederived, ranking);
}

#[test]
fn exact_prior_prediction_gains_two_wrong_loses_two() {
    // Player 3 finishes third and predicted rank 3: +2 on top of the base
    // score.  Player 4 predicted rank 5 but finishes second: -2.
    let mut g = game_with_single_cards([
        card(Rank::A, Suit::Spade),
        card(Rank::Three, Suit::Diamond),
        card(Rank::Two, Suit::Diamond),
        card(Rank::Seven, Suit::Club),
        card(Rank::K, Suit::Heart),
    ]);
    let preds = [None, None, None, Some(3), Some(5)];
    let rr = play_round(&mut g, preds, None);
    match rr {
        Event::RoundResult { ranking, prediction, score_delta, .. } => {
            assert_eq!(ranking, vec![0, 4, 3, 1, 2]);
            assert_eq!(prediction, vec![0, 0, 0, 3, 5]);
            // Player 3: base 0, exact guess +2.  Player 4: base 1, wrong -2.
            assert_eq!(score_delta[3], 2);
            assert_eq!(score_delta[4], -1);
        },
        other => panic!("expected a RoundResult, got {:?}", other),
    }
    assert_eq!(g.players[3].score, 2);
    assert_eq!(g.players[4].score, -1);
}

#[test]
fn perfect_posterior_guess_earns_best_position_bonus() {
    let mut g = game_with_single_cards([
        card(Rank::A, Suit::Spade),
        card(Rank::Three, Suit::Diamond),
        card(Rank::Two, Suit::Diamond),
        card(Rank::Seven, Suit::Club),
        card(Rank::K, Suit::Heart),
    ]);
    // The actual ranking will be [0, 4, 3, 1, 2]; the start player guesses
    // it exactly: five matches, so +2 beyond their own rank score.
    let rr = play_round(&mut g, [None; 5], Some(vec![0, 4, 3, 1, 2]));
    match rr {
        Event::RoundResult { posterior_prediction, score_delta, .. } => {
            assert_eq!(posterior_prediction, vec![0, 4, 3, 1, 2]);
            // Player 0: base 2, no prior prediction -2, perfect guess +2.
            assert_eq!(score_delta[0], 2);
        },
        other => panic!("expected a RoundResult, got {:?}", other),
    }
}

#[test]
fn posterior_guess_with_no_match_takes_worst_position_bonus() {
    let mut g = game_with_single_cards([
        card(Rank::A, Suit::Spade),
        card(Rank::Three, Suit::Diamond),
        card(Rank::Two, Suit::Diamond),
        card(Rank::Seven, Suit::Club),
        card(Rank::K, Suit::Heart),
    ]);
    // Actual ranking [0, 4, 3, 1, 2]; this guess matches no position.
    let rr = play_round(&mut g, [None; 5], Some(vec![1, 2, 4, 3, 0]));
    match rr {
        Event::RoundResult { score_delta, .. } => {
            // Player 0: base 2, no prior prediction -2, zero matches -2.
            assert_eq!(score_delta[0], -2);
        },
        other => panic!("expected a RoundResult, got {:?}", other),
    }
}

#[test]
fn equal_cards_rank_in_play_order() {
    // Two players hold the very same card; the earlier play ranks above the
    // later one, so the settlement stays deterministic.
    let mut g = game_with_single_cards([
        card(Rank::Five, Suit::Heart),  // player 0, plays first
        card(Rank::Three, Suit::Diamond), // player 1, plays last
        card(Rank::Two, Suit::Diamond), // player 2
        card(Rank::Nine, Suit::Club),   // player 3
        card(Rank::Five, Suit::Heart),  // player 4, plays second
    ]);
    let rr = play_round(&mut g, [None; 5], None);
    match rr {
        Event::RoundResult { ranking, .. } => {
            // 9 club first, then the two equal fives in play order (player 0
            // played before player 4), then the diamonds.
            assert_eq!(ranking, vec![3, 0, 4, 1, 2]);
        },
        other => panic!("expected a RoundResult, got {:?}", other),
    }
}

#[test]
fn scores_accumulate_across_rounds() {
    let mut g = game_with_single_cards([
        card(Rank::A, Suit::Spade),
        card(Rank::Three, Suit::Diamond),
        card(Rank::Two, Suit::Diamond),
        card(Rank::Seven, Suit::Club),
        card(Rank::K, Suit::Heart),
    ]);
    // Every player needs one card per round; hand a second round's card out.
    for (i, c) in [
        card(Rank::Nine, Suit::Heart),
        card(Rank::Eight, Suit::Club),
        card(Rank::Ten, Suit::Diamond),
        card(Rank::J, Suit::Spade),
        card(Rank::Q, Suit::Club),
    ]
    .iter()
    .enumerate()
    {
        g.players[i].hand.push(*c);
    }
    // Round 1: ranking [0, 4, 3, 1, 2], no predictions: deltas by id are
    // [0, -3, -4, -2, -1].
    play_round(&mut g, [None; 5], None);
    assert_eq!(
        g.players.iter().map(|p| p.score).collect::<Vec<i32>>(),
        vec![0, -3, -4, -2, -1]
    );
    // Predictions are cleared between rounds.
    for p in &g.players {
        assert_eq!(p.prediction, None);
        assert_eq!(p.posterior_prediction, None);
    }
    // Round 2 starts at seat 4: play order 4, 3, 2, 1, 0 and cards
    // Q club (p4), J spade (p3), 10 diamond (p2), 8 club (p1), 9 heart (p0):
    // no Ace, so plain order Q > J > 10 > 9 > 8 gives ranking [4, 3, 2, 0, 1].
    assert_eq!(g.start_player, 4);
    let rr = play_round(&mut g, [None; 5], None);
    match rr {
        Event::RoundResult { ranking, score_delta, .. } => {
            assert_eq!(ranking, vec![4, 3, 2, 0, 1]);
            assert_eq!(score_delta, vec![-3, -4, -2, -1, 0]);
        },
        other => panic!("expected a RoundResult, got {:?}", other),
    }
    assert_eq!(
        g.players.iter().map(|p| p.score).collect::<Vec<i32>>(),
        vec![0 - 3, -3 - 4, -4 - 2, -2 - 1, -1 + 0]
    );
}

#[test]
fn game_ends_after_exactly_five_rounds() {
    let mut g = init_game();
    let evs = g.deal_cards();
    assert_eq!(evs.len(), 5);
    for round in 0..5u8 {
        assert_eq!(g.round, round);
        assert_eq!(g.phase, Phase::PriorPrediction);
        for _ in 0..5 {
            let p = g.current_player;
            g.apply(Command::Predict { player_id: p, rank: None }).unwrap();
        }
        for _ in 0..5 {
            let p = g.current_player;
            g.apply(Command::PlayCard { player_id: p, card_index: 0 }).unwrap();
        }
        let sp = g.start_player;
        g.apply(Command::PosteriorPredict { player_id: sp, rank_list: None }).unwrap();
    }
    assert_eq!(g.round, 5);
    assert_eq!(g.phase, Phase::End);
    // No game command is accepted any more.
    assert_eq!(
        g.apply(Command::Predict { player_id: g.current_player, rank: None }),
        Err(ErrorKind::WrongPhase)
    );
    assert_eq!(
        g.apply(Command::PlayCard { player_id: g.current_player, card_index: 0 }),
        Err(ErrorKind::WrongPhase)
    );
    assert_eq!(
        g.apply(Command::PosteriorPredict { player_id: g.start_player, rank_list: None }),
        Err(ErrorKind::WrongPhase)
    );
}

#[test]
fn start_player_rotates_counter_clockwise_each_round() {
    let mut g = init_game();
    g.deal_cards();
    let mut starts = vec![];
    for _ in 0..5 {
        starts.push(g.start_player);
        for _ in 0..5 {
            let p = g.current_player;
            g.apply(Command::Predict { player_id: p, rank: None }).unwrap();
        }
        for _ in 0..5 {
            let p = g.current_player;
            g.apply(Command::PlayCard { player_id: p, card_index: 0 }).unwrap();
        }
        let sp = g.start_player;
        g.apply(Command::PosteriorPredict { player_id: sp, rank_list: None }).unwrap();
    }
    assert_eq!(starts, vec![0, 4, 3, 2, 1]);
}

#[test]
fn dealing_gives_five_cards_from_the_three_tiers() {
    let mut g = init_game();
    let evs = g.deal_cards();
    assert_eq!(evs.len(), 5);
    for (i, p) in g.players.iter().enumerate() {
        assert_eq!(p.hand.len(), 5);
        for c in &p.hand[0..2] {
            assert_ne!(c.suit, Suit::Spade);
            assert!((1..=7).contains(&c.rank.value()));
        }
        for c in &p.hand[2..4] {
            assert_ne!(c.suit, Suit::Spade);
            assert!((8..=13).contains(&c.rank.value()));
        }
        assert_eq!(p.hand[4].suit, Suit::Spade);
        match &evs[i] {
            Event::CardsDealt { player_id, cards } => {
                assert_eq!(*player_id, i);
                assert_eq!(*cards, p.hand);
            },
            other => panic!("expected CardsDealt, got {:?}", other),
        }
    }
    // All 25 dealt cards are distinct.
    let mut all: Vec<Card> = g.players.iter().flat_map(|p| p.hand.iter().copied()).collect();
    let before = all.len();
    all.sort_by_key(|c| (c.rank.value(), match c.suit {
        Suit::Spade => 0u8,
        Suit::Heart => 1,
        Suit::Diamond => 2,
        Suit::Club => 3,
    }));
    all.dedup();
    assert_eq!(all.len(), before);
}

#[test]
fn restart_votes_resolve_only_when_unanimous() {
    let mut g = init_game();
    assert_eq!(
        g.apply(Command::Restart { player_id: 9, yes: true }),
        Err(ErrorKind::InvalidPlayer)
    );
    for p in 0..4 {
        assert_eq!(g.apply(Command::Restart { player_id: p, yes: true }), Ok(vec![]));
        assert!(!g.restart_approved());
    }
    assert_eq!(g.apply(Command::Restart { player_id: 4, yes: true }), Ok(vec![]));
    assert!(g.restart_approved());
    // A retracted vote withdraws approval.
    g.apply(Command::Restart { player_id: 2, yes: false }).unwrap();
    assert!(!g.restart_approved());
}

#[test]
fn card_text_is_suit_glyph_then_rank() {
    assert_eq!(card(Rank::A, Suit::Spade).to_string(), "\u{2660}A");
    assert_eq!(card(Rank::Ten, Suit::Diamond).to_string(), "\u{2666}10");
    assert_eq!(card(Rank::Q, Suit::Heart).to_string(), "\u{2665}Q");
    assert_eq!(Suit::Spade.to_string(), "\u{2660}");
    assert_eq!(Suit::Heart.to_string(), "\u{2665}");
    assert_eq!(Suit::Diamond.to_string(), "\u{2666}");
    assert_eq!(Suit::Club.to_string(), "\u{2663}");
    assert_eq!(Rank::K.value(), 13);
    assert_eq!(Rank::A.value(), 1);
}

#[test]
fn error_messages_name_the_error() {
    assert_eq!(ErrorKind::WrongPhase.message(), "wrong phase");
    assert_eq!(ErrorKind::NotYourTurn.message(), "not your turn");
    assert_eq!(ErrorKind::InvalidPlayer.message(), "invalid player");
    assert_eq!(ErrorKind::InvalidCardIndex.message(), "invalid card index");
    assert_eq!(ErrorKind::MalformedMessage.message(), "malformed message");
}
