use vstd::prelude::*;

use crate::card::Card;
use crate::card::ak_override;
use crate::card::card_key;
use crate::command::Command;
use crate::event::Event;
use crate::rules::ErrorKind;
use crate::rules::apply_err;
use crate::rules::apply_ok;
use crate::rules::base_score;
use crate::rules::played_card;
use crate::rules::posterior_bonus;
use crate::rules::pred_value;
use crate::rules::settlement_ok;
use crate::rules::table_cards;
use crate::state::GameState;
use crate::state::Phase;
use crate::state::is_id_permutation;
use crate::state::seat;

verus! {

/// Law: once all five cards are played, the table names each of the five
/// player ids exactly once.
pub proof fn lemma_table_lists_every_player_once(s: GameState)
    requires
        s.wf(),
        s.phase == Phase::PosteriorPrediction,
    ensures
        s.table@.len() == 5,
        forall|j1: int, j2: int|
            0 <= j1 < 5 && 0 <= j2 < 5 && j1 != j2 ==> (#[trigger] s.table@[j1]).0 != (
            #[trigger] s.table@[j2]).0,
        forall|p: int|
            0 <= p < 5 ==> (#[trigger] s.table@[seat(s.start_player as int, p)]).0 == p,
{
    let sp = s.start_player as int;
    assert forall|p: int| 0 <= p < 5 implies (#[trigger] s.table@[seat(sp, p)]).0 == p by {
        let j = seat(sp, p);
        assert(s.table@[j].0 as int == seat(sp, j));
    }
}

/// Law: in the phase a `Predict` or `PlayCard` command belongs to, any
/// actor other than the current player earns exactly `NotYourTurn`; by
/// `apply`'s contract a refused command also leaves the state unchanged.
pub proof fn lemma_wrong_actor_is_not_your_turn(pre: GameState, cmd: Command, e: ErrorKind)
    requires
        apply_err(pre, cmd, e),
        match cmd {
            Command::Predict { player_id, .. } => pre.phase == Phase::PriorPrediction && player_id
                != pre.current_player,
            Command::PlayCard { player_id, .. } => pre.phase == Phase::Play && player_id
                != pre.current_player,
            _ => false,
        },
    ensures
        e == ErrorKind::NotYourTurn,
{
}

/// Law: the game ends exactly after the fifth completed round.
pub proof fn lemma_five_rounds_end(s: GameState)
    requires
        s.wf(),
    ensures
        s.phase == Phase::End <==> s.round == 5,
{
}

/// Law: in the `End` phase no game command can succeed any more: whatever
/// `apply` accepted there was a `Restart` vote, never a `Predict`,
/// `PlayCard` or `PosteriorPredict`.
pub proof fn lemma_end_is_terminal(pre: GameState, post: GameState, cmd: Command, evs: Seq<Event>)
    requires
        pre.wf(),
        pre.phase == Phase::End,
        apply_ok(pre, post, cmd, evs),
    ensures
        cmd matches Command::Restart { .. },
{
}

/// Law: a perfect posterior guess earns the best-position bonus and a guess
/// with no exact match the worst-position bonus.
pub proof fn lemma_posterior_bonus_extremes()
    ensures
        posterior_bonus(5) == base_score(0) == 2,
        posterior_bonus(0) == base_score(4) == -2,
{
}

/// Every id below five appears somewhere in an id permutation.
proof fn lemma_permutation_complete(s: Seq<usize>, p: usize)
    requires
        is_id_permutation(s),
        p < 5,
    ensures
        exists|j: int| 0 <= j < 5 && s[j] == p,
{
    if !(exists|j: int| 0 <= j < 5 && s[j] == p) {
        assert(s[0] != p && s[1] != p && s[2] != p && s[3] != p && s[4] != p);
        assert(s[0] < 5 && s[1] < 5 && s[2] < 5 && s[3] < 5 && s[4] < 5);
        assert(s[0] != s[1] && s[0] != s[2] && s[0] != s[3] && s[0] != s[4]);
        assert(s[1] != s[2] && s[1] != s[3] && s[1] != s[4]);
        assert(s[2] != s[3] && s[2] != s[4]);
        assert(s[3] != s[4]);
        assert(false);
    }
}

/// Distinct cards have distinct contextual keys: the key splits into the
/// strength class and the suit weight, and each determines its component.
proof fn lemma_key_injective(c1: Card, c2: Card, ovr: bool)
    requires
        card_key(c1, ovr) == card_key(c2, ovr),
    ensures
        c1 == c2,
{
    assert(c1.suit.spec_weight() == c2.suit.spec_weight());
    assert(c1.suit == c2.suit);
    assert(c1.rank == c2.rank);
}

/// A ranking ordered best to worst by the contextual card key.
pub open spec fn ranked_desc(pre: GameState, r: Seq<usize>) -> bool {
    let ovr = ak_override(table_cards(pre.table@));
    forall|t1: int, t2: int|
        0 <= t1 < t2 < 5 ==> card_key(played_card(pre, (#[trigger] r[t1]) as int), ovr) >= card_key(
            played_card(pre, (#[trigger] r[t2]) as int),
            ovr,
        )
}

/// The position `t` of two rankings of the same table agree, once every
/// earlier position does.
proof fn lemma_ranking_step(pre: GameState, r1: Seq<usize>, r2: Seq<usize>, t: int)
    requires
        pre.wf(),
        pre.phase == Phase::PosteriorPrediction,
        forall|p1: int, p2: int|
            0 <= p1 < 5 && 0 <= p2 < 5 && p1 != p2 ==> played_card(pre, p1) != played_card(
                pre,
                p2,
            ),
        is_id_permutation(r1),
        is_id_permutation(r2),
        ranked_desc(pre, r1),
        ranked_desc(pre, r2),
        0 <= t < 5,
        forall|u: int| 0 <= u < t ==> r1[u] == r2[u],
    ensures
        r1[t] == r2[t],
{
    let ovr = ak_override(table_cards(pre.table@));
    lemma_permutation_complete(r2, r1[t]);
    let j = choose|j: int| 0 <= j < 5 && r2[j] == r1[t];
    if j < t {
        assert(r2[j] == r1[j]);
        assert(false);
    }
    lemma_permutation_complete(r1, r2[t]);
    let i = choose|i: int| 0 <= i < 5 && r1[i] == r2[t];
    if i < t {
        assert(r1[i] == r2[i]);
        assert(false);
    }
    if j == t {
        assert(r1[t] == r2[t]);
    } else {
        assert(i != t);
        assert(card_key(played_card(pre, r2[t] as int), ovr) >= card_key(
            played_card(pre, r2[j] as int),
            ovr,
        ));
        assert(card_key(played_card(pre, r1[t] as int), ovr) >= card_key(
            played_card(pre, r1[i] as int),
            ovr,
        ));
        lemma_key_injective(
            played_card(pre, r1[t] as int),
            played_card(pre, r2[t] as int),
            ovr,
        );
        assert(r1[t] == r2[t]);
    }
}

/// Law: settlement's ranking can be re-derived: when no two players played
/// the same card, there is exactly one way to rank a full table best to
/// worst by the contextual comparator, so recomputing the order from a
/// round's revealed cards reproduces the reported ranking.
pub proof fn lemma_ranking_unique(pre: GameState, r1: Seq<usize>, r2: Seq<usize>)
    requires
        pre.wf(),
        pre.phase == Phase::PosteriorPrediction,
        forall|p1: int, p2: int|
            0 <= p1 < 5 && 0 <= p2 < 5 && p1 != p2 ==> played_card(pre, p1) != played_card(
                pre,
                p2,
            ),
        is_id_permutation(r1),
        is_id_permutation(r2),
        ranked_desc(pre, r1),
        ranked_desc(pre, r2),
    ensures
        r1 == r2,
{
    lemma_ranking_step(pre, r1, r2, 0);
    lemma_ranking_step(pre, r1, r2, 1);
    lemma_ranking_step(pre, r1, r2, 2);
    lemma_ranking_step(pre, r1, r2, 3);
    lemma_ranking_step(pre, r1, r2, 4);
    assert(r1 =~= r2);
}

/// Law: the ranking a settlement reports is reproducible from the cards it
/// reveals: any ordering of the five ids that is a permutation and descends
/// by the contextual comparator equals the reported one.
pub proof fn lemma_settlement_ranking_unique(
    pre: GameState,
    guess: Option<Seq<usize>>,
    post: GameState,
    ev: Event,
    r2: Seq<usize>,
)
    requires
        pre.wf(),
        pre.phase == Phase::PosteriorPrediction,
        forall|p1: int, p2: int|
            0 <= p1 < 5 && 0 <= p2 < 5 && p1 != p2 ==> played_card(pre, p1) != played_card(
                pre,
                p2,
            ),
        crate::rules::settlement_ok(pre, guess, post, ev),
        is_id_permutation(r2),
        ranked_desc(pre, r2),
    ensures
        ev matches Event::RoundResult { ranking, .. } && ranking@ == r2,
{
    match ev {
        Event::RoundResult { ranking, .. } => {
            assert(ranked_desc(pre, ranking@));
            lemma_ranking_unique(pre, ranking@, r2);
        },
        _ => {},
    }
}

/// Law: with no duplicate card on the table, a settled ranking descends
/// strictly: every earlier-ranked player's card beats every later one under
/// the contextual comparator.
pub proof fn lemma_ranking_strictly_descends(
    pre: GameState,
    guess: Option<Seq<usize>>,
    post: GameState,
    ev: Event,
)
    requires
        pre.wf(),
        pre.phase == Phase::PosteriorPrediction,
        forall|p1: int, p2: int|
            0 <= p1 < 5 && 0 <= p2 < 5 && p1 != p2 ==> played_card(pre, p1) != played_card(
                pre,
                p2,
            ),
        settlement_ok(pre, guess, post, ev),
    ensures
        ev matches Event::RoundResult { ranking, .. } && (forall|r1: int, r2: int|
            0 <= r1 < r2 < 5 ==> card_key(
                played_card(pre, (#[trigger] ranking@[r1]) as int),
                ak_override(table_cards(pre.table@)),
            ) > card_key(
                played_card(pre, (#[trigger] ranking@[r2]) as int),
                ak_override(table_cards(pre.table@)),
            )),
{
    let ovr = ak_override(table_cards(pre.table@));
    match ev {
        Event::RoundResult { ranking, .. } => {
            assert forall|r1: int, r2: int| 0 <= r1 < r2 < 5 implies card_key(
                played_card(pre, (#[trigger] ranking@[r1]) as int),
                ovr,
            ) > card_key(played_card(pre, (#[trigger] ranking@[r2]) as int), ovr) by {
                if card_key(played_card(pre, ranking@[r1] as int), ovr) == card_key(
                    played_card(pre, ranking@[r2] as int),
                    ovr,
                ) {
                    lemma_key_injective(
                        played_card(pre, ranking@[r1] as int),
                        played_card(pre, ranking@[r2] as int),
                        ovr,
                    );
                    assert(ranking@[r1] != ranking@[r2]);
                    assert(false);
                }
            }
        },
        _ => {},
    }
}

/// Law: each player's round delta, read off a settlement: the base score of
/// the finishing position, +2 for an exact prior prediction of that 1-indexed
/// rank and -2 otherwise (a missing prediction never matches), and, for the
/// start player only, the posterior bonus for the number of exact position
/// matches of the guess.
pub proof fn lemma_round_scoring(
    pre: GameState,
    guess: Option<Seq<usize>>,
    post: GameState,
    ev: Event,
    t: int,
)
    requires
        pre.wf(),
        pre.phase == Phase::PosteriorPrediction,
        settlement_ok(pre, guess, post, ev),
        0 <= t < 5,
    ensures
        ev matches Event::RoundResult { ranking, score_delta, .. } && {
            let p = ranking@[t] as int;
            score_delta@[p] as int == base_score(t) + (if pred_value(pre.players@[p].prediction)
                == t + 1 {
                2int
            } else {
                -2int
            }) + (if p == pre.start_player as int {
                match guess {
                    Some(g) => posterior_bonus(crate::rules::match_count(g, ranking@, 5)),
                    None => 0int,
                }
            } else {
                0int
            })
        },
{
}

/// Law: settling the fifth round ends the game.
pub proof fn lemma_fifth_settlement_ends(
    pre: GameState,
    guess: Option<Seq<usize>>,
    post: GameState,
    ev: Event,
)
    requires
        pre.wf(),
        pre.phase == Phase::PosteriorPrediction,
        pre.round == 4,
        settlement_ok(pre, guess, post, ev),
    ensures
        post.round == 5,
        post.phase == Phase::End,
{
}

/// The strictly total measure a settled ranking descends by: the contextual
/// card key, with earlier play breaking ties among equal cards.
spec fn rank_measure(pre: GameState, p: int) -> int {
    let ovr = ak_override(table_cards(pre.table@));
    card_key(played_card(pre, p), ovr) * 8 + 7 - seat(pre.start_player as int, p)
}

/// A ranking strictly descending in the measure.
spec fn strictly_ranked(pre: GameState, r: Seq<usize>) -> bool {
    forall|t1: int, t2: int|
        0 <= t1 < t2 < 5 ==> rank_measure(pre, (#[trigger] r[t1]) as int) > rank_measure(
            pre,
            (#[trigger] r[t2]) as int,
        )
}

/// A settled ranking descends strictly in the measure: the card-key order
/// with the play-order tie-break leaves no two positions level.
proof fn lemma_settled_is_strictly_ranked(
    pre: GameState,
    guess: Option<Seq<usize>>,
    post: GameState,
    ev: Event,
    r: Seq<usize>,
)
    requires
        pre.wf(),
        pre.phase == Phase::PosteriorPrediction,
        settlement_ok(pre, guess, post, ev),
        ev matches Event::RoundResult { ranking, .. } && ranking@ == r,
    ensures
        strictly_ranked(pre, r),
{
    let sp = pre.start_player as int;
    let ovr = ak_override(table_cards(pre.table@));
    assert forall|t1: int, t2: int|
        0 <= t1 < t2 < 5 implies rank_measure(pre, (#[trigger] r[t1]) as int) > rank_measure(
        pre,
        (#[trigger] r[t2]) as int,
    ) by {
        let k1 = card_key(played_card(pre, r[t1] as int), ovr);
        let k2 = card_key(played_card(pre, r[t2] as int), ovr);
        assert(r[t1] < 5 && r[t2] < 5);
        assert(0 <= seat(sp, r[t1] as int) < 5);
        assert(0 <= seat(sp, r[t2] as int) < 5);
        assert(k1 >= k2);
        if k1 == k2 {
            assert(seat(sp, r[t1] as int) < seat(sp, r[t2] as int));
        }
    }
}

/// The position `t` of two strictly descending rankings agree, once every
/// earlier position does.
proof fn lemma_strict_ranking_step(pre: GameState, r1: Seq<usize>, r2: Seq<usize>, t: int)
    requires
        pre.wf(),
        pre.phase == Phase::PosteriorPrediction,
        is_id_permutation(r1),
        is_id_permutation(r2),
        strictly_ranked(pre, r1),
        strictly_ranked(pre, r2),
        0 <= t < 5,
        forall|u: int| 0 <= u < t ==> r1[u] == r2[u],
    ensures
        r1[t] == r2[t],
{
    lemma_permutation_complete(r2, r1[t]);
    let j = choose|j: int| 0 <= j < 5 && r2[j] == r1[t];
    if j < t {
        assert(r2[j] == r1[j]);
        assert(false);
    }
    lemma_permutation_complete(r1, r2[t]);
    let i = choose|i: int| 0 <= i < 5 && r1[i] == r2[t];
    if i < t {
        assert(r1[i] == r2[i]);
        assert(false);
    }
    if j != t && i != t {
        assert(rank_measure(pre, r2[t] as int) > rank_measure(pre, r2[j] as int));
        assert(rank_measure(pre, r1[t] as int) > rank_measure(pre, r1[i] as int));
        assert(false);
    }
}

/// Law: settlement is deterministic.  The reducer reads no clock and draws
/// no randomness, so two settlements of the same state with the same
/// posterior guess report the same revealed cards, ranking, predictions and
/// score deltas, and agree on every resulting score and control field:
/// `apply` is a function of the state and the command.
pub proof fn lemma_settlement_deterministic(
    pre: GameState,
    guess: Option<Seq<usize>>,
    post1: GameState,
    ev1: Event,
    post2: GameState,
    ev2: Event,
)
    requires
        pre.wf(),
        pre.phase == Phase::PosteriorPrediction,
        settlement_ok(pre, guess, post1, ev1),
        settlement_ok(pre, guess, post2, ev2),
    ensures
        match (ev1, ev2) {
            (
                Event::RoundResult {
                    cards: c1,
                    ranking: k1,
                    prediction: p1,
                    posterior_prediction: q1,
                    score_delta: d1,
                },
                Event::RoundResult {
                    cards: c2,
                    ranking: k2,
                    prediction: p2,
                    posterior_prediction: q2,
                    score_delta: d2,
                },
            ) => c1@ == c2@ && k1@ == k2@ && p1@ == p2@ && q1@ == q2@ && d1@ == d2@,
            _ => false,
        },
        forall|i: int|
            0 <= i < 5 ==> #[trigger] post1.players@[i].score == post2.players@[i].score,
        post1.round == post2.round,
        post1.phase == post2.phase,
        post1.start_player == post2.start_player,
        post1.current_player == post2.current_player,
{
    lemma_settled_is_strictly_ranked(pre, guess, post1, ev1, rr_ranking(ev1));
    lemma_settled_is_strictly_ranked(pre, guess, post2, ev2, rr_ranking(ev2));
    let k1 = rr_ranking(ev1);
    let k2 = rr_ranking(ev2);
    lemma_strict_ranking_step(pre, k1, k2, 0);
    lemma_strict_ranking_step(pre, k1, k2, 1);
    lemma_strict_ranking_step(pre, k1, k2, 2);
    lemma_strict_ranking_step(pre, k1, k2, 3);
    lemma_strict_ranking_step(pre, k1, k2, 4);
    assert(k1 =~= k2);
    match (ev1, ev2) {
        (
            Event::RoundResult { prediction: p1, score_delta: d1, .. },
            Event::RoundResult { prediction: p2, score_delta: d2, .. },
        ) => {
            assert(p1@ =~= p2@);
            assert forall|i: int| 0 <= i < 5 implies #[trigger] d1@[i] == d2@[i] by {
                lemma_permutation_complete(k1, i as usize);
                let u = choose|u: int| 0 <= u < 5 && k1[u] == i as usize;
                assert(d1@[k1[u] as int] == d2@[k2[u] as int]);
            }
            assert(d1@ =~= d2@);
        },
        _ => {},
    }
}

/// The ranking inside a RoundResult event; arbitrary for other events.
spec fn rr_ranking(ev: Event) -> Seq<usize> {
    match ev {
        Event::RoundResult { ranking, .. } => ranking@,
        _ => Seq::empty(),
    }
}

} // verus!
