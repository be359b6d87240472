use vstd::prelude::*;

use crate::event::Event;

verus! {

/// Where an event goes: to every registered connection, or to exactly one
/// player.
#[derive(Debug, Clone, Copy, PartialEq, Eq, Structural)]
pub enum Route {
    Broadcast,
    Unicast(usize),
}

/// The routing policy: acceptance and settlement events are public;
/// the seat assignment and a player's hand are private to their player.
pub open spec fn route_spec(e: Event) -> Route {
    match e {
        Event::PredictionAccepted { .. } => Route::Broadcast,
        Event::CardPlayed { .. } => Route::Broadcast,
        Event::PosteriorPredictionAccepted { .. } => Route::Broadcast,
        Event::RoundResult { .. } => Route::Broadcast,
        Event::GameStarted => Route::Broadcast,
        Event::PhaseChanged => Route::Broadcast,
        Event::GameEnded => Route::Broadcast,
        Event::PlayerAssigned { player_id } => Route::Unicast(player_id),
        Event::CardsDealt { player_id, .. } => Route::Unicast(player_id),
    }
}

/// Classifies one event for delivery.  Keeping the policy in one function,
/// rather than at each call site, makes the hiding rule checkable: the only
/// unicast events are the seat assignment and the dealt hand.
pub fn route(e: &Event) -> (r: Route)
    ensures
        r == route_spec(*e),
{
    match e {
        Event::PredictionAccepted { .. } => Route::Broadcast,
        Event::CardPlayed { .. } => Route::Broadcast,
        Event::PosteriorPredictionAccepted { .. } => Route::Broadcast,
        Event::RoundResult { .. } => Route::Broadcast,
        Event::GameStarted => Route::Broadcast,
        Event::PhaseChanged => Route::Broadcast,
        Event::GameEnded => Route::Broadcast,
        Event::PlayerAssigned { player_id } => Route::Unicast(*player_id),
        Event::CardsDealt { player_id, .. } => Route::Unicast(*player_id),
    }
}

} // verus!
