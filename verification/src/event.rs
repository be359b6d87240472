use vstd::prelude::*;

use crate::card::Card;

verus! {

/// A fact announced by the engine in answer to a command.
///
/// `CardPlayed` deliberately withholds the card itself: what a player played
/// stays hidden from the others until settlement reveals the whole table in
/// `RoundResult`.
#[derive(Debug, Clone, PartialEq, Eq)]
pub enum Event {
    /// The player's prior prediction was recorded.
    PredictionAccepted { player_id: usize },
    /// The player put a card on the table; which card is not told.
    CardPlayed { player_id: usize },
    /// The start player's posterior prediction was recorded.
    PosteriorPredictionAccepted { player_id: usize },
    /// The round's settlement.  `cards` lists the played cards in play
    /// order; `ranking` the player ids best to worst; `prediction` each
    /// player's prior guess by player id (0 for none); `posterior_prediction`
    /// the start player's guessed order (empty for none); `score_delta` the
    /// score change of each player by player id.
    RoundResult {
        cards: Vec<Card>,
        ranking: Vec<usize>,
        prediction: Vec<usize>,
        posterior_prediction: Vec<usize>,
        score_delta: Vec<i32>,
    },
    /// All five seats are taken.
    GameStarted,
    /// The game moved to another phase.
    PhaseChanged,
    /// The whole game is over.
    GameEnded,
    /// Tells a newly connected player its seat; sent to that player only.
    PlayerAssigned { player_id: usize },
    /// A player's hand for this game; sent to that player only.
    CardsDealt { player_id: usize, cards: Vec<Card> },
}

} // verus!
