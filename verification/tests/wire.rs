use game_core::Card;
use game_core::Command;
use game_core::ErrorKind;
use game_core::Event;
use game_core::NetMessage;
use game_core::Rank;
use game_core::Route;
use game_core::Suit;
use game_core::decode_message;
use game_core::encode_message;
use game_core::route;

fn round_trips(m: NetMessage) {
    let words = encode_message(&m);
    let back = decode_message(&words).expect("an encoded message must decode");
    assert_eq!(back, m);
}

#[test]
fn commands_round_trip_through_the_envelope() {
    round_trips(NetMessage::Command(Command::Predict { player_id: 3, rank: Some(2) }));
    round_trips(NetMessage::Command(Command::Predict { player_id: 0, rank: None }));
    round_trips(NetMessage::Command(Command::PlayCard { player_id: 4, card_index: 1 }));
    round_trips(NetMessage::Command(Command::PosteriorPredict {
        player_id: 2,
        rank_list: Some(vec![4, 3, 2, 1, 0]),
    }));
    round_trips(NetMessage::Command(Command::PosteriorPredict { player_id: 2, rank_list: None }));
    round_trips(NetMessage::Command(Command::Restart { player_id: 1, yes: true }));
    round_trips(NetMessage::Command(Command::Restart { player_id: 1, yes: false }));
}

#[test]
fn events_round_trip_through_the_envelope() {
    round_trips(NetMessage::Event(Event::PredictionAccepted { player_id: 0 }));
    round_trips(NetMessage::Event(Event::CardPlayed { player_id: 4 }));
    round_trips(NetMessage::Event(Event::PosteriorPredictionAccepted { player_id: 1 }));
    round_trips(NetMessage::Event(Event::GameStarted));
    round_trips(NetMessage::Event(Event::PhaseChanged));
    round_trips(NetMessage::Event(Event::GameEnded));
    round_trips(NetMessage::Event(Event::PlayerAssigned { player_id: 2 }));
    round_trips(NetMessage::Event(Event::CardsDealt {
        player_id: 3,
        cards: vec![
            Card { rank: Rank::A, suit: Suit::Spade },
            Card { rank: Rank::Ten, suit: Suit::Club },
        ],
    }));
    round_trips(NetMessage::Event(Event::RoundResult {
        cards: vec![
            Card { rank: Rank::A, suit: Suit::Spade },
            Card { rank: Rank::K, suit: Suit::Heart },
            Card { rank: Rank::Seven, suit: Suit::Club },
            Card { rank: Rank::Two, suit: Suit::Diamond },
            Card { rank: Rank::Three, suit: Suit::Diamond },
        ],
        ranking: vec![0, 4, 3, 1, 2],
        prediction: vec![0, 0, 0, 3, 5],
        posterior_prediction: vec![0, 4, 3, 1, 2],
        score_delta: vec![2, -3, -4, 2, -1],
    }));
}

#[test]
fn garbage_is_refused_as_malformed() {
    assert_eq!(decode_message(&vec![]), Err(ErrorKind::MalformedMessage));
    assert_eq!(decode_message(&vec![9]), Err(ErrorKind::MalformedMessage));
    // A valid prefix with trailing junk is refused whole.
    let mut words = encode_message(&NetMessage::Event(Event::GameStarted));
    words.push(0);
    assert_eq!(decode_message(&words), Err(ErrorKind::MalformedMessage));
    // A truncated message is refused.
    let words = encode_message(&NetMessage::Command(Command::PlayCard {
        player_id: 4,
        card_index: 1,
    }));
    let truncated: Vec<u64> = words[..words.len() - 1].to_vec();
    assert_eq!(decode_message(&truncated), Err(ErrorKind::MalformedMessage));
    // An out-of-range card rank inside an event is refused.
    assert_eq!(
        decode_message(&vec![1, 8, 0, 1, 14, 0]),
        Err(ErrorKind::MalformedMessage)
    );
}

#[test]
fn events_are_routed_publicly_except_private_deliveries() {
    assert_eq!(route(&Event::PredictionAccepted { player_id: 1 }), Route::Broadcast);
    assert_eq!(route(&Event::CardPlayed { player_id: 1 }), Route::Broadcast);
    assert_eq!(route(&Event::PosteriorPredictionAccepted { player_id: 1 }), Route::Broadcast);
    assert_eq!(
        route(&Event::RoundResult {
            cards: vec![],
            ranking: vec![],
            prediction: vec![],
            posterior_prediction: vec![],
            score_delta: vec![],
        }),
        Route::Broadcast
    );
    assert_eq!(route(&Event::GameStarted), Route::Broadcast);
    assert_eq!(route(&Event::PhaseChanged), Route::Broadcast);
    assert_eq!(route(&Event::GameEnded), Route::Broadcast);
    assert_eq!(route(&Event::PlayerAssigned { player_id: 2 }), Route::Unicast(2));
    assert_eq!(
        route(&Event::CardsDealt { player_id: 4, cards: vec![] }),
        Route::Unicast(4)
    );
}

#[test]
fn card_played_event_withholds_the_card() {
    // The hiding property at the wire level: the words of a CardPlayed event
    // name the player and nothing else.
    let words = encode_message(&NetMessage::Event(Event::CardPlayed { player_id: 3 }));
    assert_eq!(words, vec![1, 1, 3]);
}
