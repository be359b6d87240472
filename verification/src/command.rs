use vstd::prelude::*;

verus! {

/// A player-issued request, the only way the game state is ever mutated.
///
/// Every command names the acting player; the engine checks phase, turn and
/// payload legality before touching any state.
#[derive(Debug, Clone, PartialEq, Eq)]
pub enum Command {
    /// Record the player's private guess of their own finishing rank for
    /// this round (1 is best, 5 is worst), or `None` to abstain.
    Predict { player_id: usize, rank: Option<usize> },
    /// Play the card at `card_index` of the player's hand.
    PlayCard { player_id: usize, card_index: usize },
    /// The round's start player guesses the whole finishing order, best
    /// first, or `None` to skip.
    PosteriorPredict { player_id: usize, rank_list: Option<Vec<usize>> },
    /// A replay vote; the hub resets the game once every seat voted yes.
    Restart { player_id: usize, yes: bool },
}

} // verus!
