use vstd::prelude::*;

use crate::card::Card;
use crate::card::ak_override;
use crate::card::card_key;
use crate::card::key_of;
use crate::card::table_has_override;
use crate::command::Command;
use crate::event::Event;
use crate::state::GameState;
use crate::state::Phase;
use crate::state::PlayerState;
use crate::state::is_id_permutation;
use crate::state::player_wf;
use crate::state::seat;

verus! {

/// Why a command was refused.  A refused command never changes the state and
/// is reported to the offending player only.
#[derive(Debug, Clone, Copy, PartialEq, Eq, Structural)]
pub enum ErrorKind {
    /// The command is not valid in the current phase.
    WrongPhase,
    /// The acting player is not the player required to act.
    NotYourTurn,
    /// The command names an unknown player id.
    InvalidPlayer,
    /// The played hand index is out of range.
    InvalidCardIndex,
    /// The payload itself is ill-formed: an undecodable envelope, a
    /// prediction rank outside 1 to 5, or a posterior guess that is not a
    /// permutation of the five ids.
    MalformedMessage,
}

impl ErrorKind {
    pub open spec fn spec_message(self) -> Seq<char> {
        match self {
            ErrorKind::WrongPhase => "wrong phase"@,
            ErrorKind::NotYourTurn => "not your turn"@,
            ErrorKind::InvalidPlayer => "invalid player"@,
            ErrorKind::InvalidCardIndex => "invalid card index"@,
            ErrorKind::MalformedMessage => "malformed message"@,
        }
    }

    /// Short text for reporting the error to the offending connection.
    pub fn message(&self) -> (r: String)
        ensures
            r@ == self.spec_message(),
    {
        match self {
            ErrorKind::WrongPhase => "wrong phase".to_string(),
            ErrorKind::NotYourTurn => "not your turn".to_string(),
            ErrorKind::InvalidPlayer => "invalid player".to_string(),
            ErrorKind::InvalidCardIndex => "invalid card index".to_string(),
            ErrorKind::MalformedMessage => "malformed message".to_string(),
        }
    }
}

/// Base score of the 0-indexed finishing position, best to worst.
pub open spec fn base_score(pos: int) -> int {
    if pos == 0 {
        2
    } else if pos == 1 {
        1
    } else if pos == 2 {
        0
    } else if pos == 3 {
        -1
    } else {
        -2
    }
}

/// A missing prior prediction counts as rank 0, which never matches a real
/// finishing rank: abstaining is always scored as a wrong guess.
pub open spec fn pred_value(p: Option<usize>) -> int {
    match p {
        Some(r) => r as int,
        None => 0,
    }
}

/// Score adjustment for the prior prediction of a player finishing at
/// 0-indexed position `pos`: +2 when the guessed rank is exact, -2 otherwise.
pub open spec fn prediction_bonus(pred: Option<usize>, pos: int) -> int {
    if pred_value(pred) == pos + 1 {
        2
    } else {
        -2
    }
}

/// How many of the first `n` positions of `guess` name the same player as
/// the actual ranking.
pub open spec fn match_count(guess: Seq<usize>, actual: Seq<usize>, n: int) -> int
    decreases n,
{
    if n <= 0 {
        0
    } else {
        match_count(guess, actual, n - 1) + (if guess[n - 1] == actual[n - 1] {
            1int
        } else {
            0int
        })
    }
}

/// Bonus for a posterior prediction with `k` exact position matches: the
/// base score of position `5 - k`, so a perfect guess earns the best-position
/// score and zero matches the worst-position score.
pub open spec fn posterior_bonus(k: int) -> int {
    if k >= 1 {
        base_score(5 - k)
    } else {
        -2
    }
}

/// The cards of the table in play order, without the player ids.
pub open spec fn table_cards(t: Seq<(usize, Card)>) -> Seq<Card> {
    Seq::new(t.len(), |j: int| t[j].1)
}

/// The card player `p` put on the table this round.  Because play proceeds
/// counter-clockwise from the start player, player `p`'s card sits at table
/// index `seat(start_player, p)`.
pub open spec fn played_card(pre: GameState, p: int) -> Card {
    pre.table@[seat(pre.start_player as int, p)].1
}

/// The posterior guess a player holds, as a sequence.
pub open spec fn posterior_view(p: PlayerState) -> Option<Seq<usize>> {
    match p.posterior_prediction {
        Some(v) => Some(v@),
        None => None,
    }
}

/// Extra score delta of the start player for their posterior guess.
pub open spec fn guess_extra(guess: Option<Seq<usize>>, ranking: Seq<usize>) -> int {
    match guess {
        Some(g) => posterior_bonus(match_count(g, ranking, 5)),
        None => 0,
    }
}

/// The finished per-player score deltas: for every finishing position the
/// base score plus the prior-prediction bonus, plus the posterior bonus for
/// the start player; every delta stays within one round's largest swing.
pub open spec fn deltas_final(
    pre: GameState,
    ranking: Seq<usize>,
    guess: Option<Seq<usize>>,
    ds: Seq<i32>,
) -> bool {
    let sp = pre.start_player as int;
    &&& ds.len() == 5
    &&& (forall|t: int|
        0 <= t < 5 ==> (#[trigger] ds[ranking[t] as int]) as int == base_score(t)
            + prediction_bonus(pre.players@[ranking[t] as int].prediction, t) + (
        if ranking[t] as int == sp {
            guess_extra(guess, ranking)
        } else {
            0
        }))
    &&& (forall|p: int| 0 <= p < 5 ==> -6 <= (#[trigger] ds[p]) as int <= 6)
}

/// What settlement does: `post` and the `RoundResult` event `ev` are related
/// to the pre-settlement state `pre` and the posterior guess in effect.
///
/// The ranking is a permutation of the five ids ordered by descending
/// contextual card key, equal cards ranking in play order (earlier play
/// first), which makes the reported order a function of the table; every
/// score delta is the base score of the finishing position, plus the
/// prior-prediction bonus, plus, for the start player only, the posterior
/// bonus.  Settlement clears the table and all per-round player fields,
/// advances the round, rotates the start player one seat counter-clockwise,
/// and ends the game after the fifth round.
pub open spec fn settlement_ok(
    pre: GameState,
    guess: Option<Seq<usize>>,
    post: GameState,
    ev: Event,
) -> bool {
    let sp = pre.start_player as int;
    let ovr = ak_override(table_cards(pre.table@));
    ev matches Event::RoundResult { cards, ranking, prediction, posterior_prediction, score_delta }
        && {
        &&& cards@ == table_cards(pre.table@)
        &&& is_id_permutation(ranking@)
        &&& (forall|r1: int, r2: int|
            0 <= r1 < r2 < 5 ==> card_key(played_card(pre, ranking@[r1] as int), ovr) >= card_key(
                played_card(pre, ranking@[r2] as int),
                ovr,
            ))
        &&& (forall|r1: int, r2: int|
            0 <= r1 < r2 < 5 && card_key(played_card(pre, ranking@[r1] as int), ovr) == card_key(
                played_card(pre, ranking@[r2] as int),
                ovr,
            ) ==> seat(sp, ranking@[r1] as int) < seat(sp, ranking@[r2] as int))
        &&& prediction@.len() == 5
        &&& (forall|i: int|
            0 <= i < 5 ==> (#[trigger] prediction@[i]) as int == pred_value(
                pre.players@[i].prediction,
            ))
        &&& posterior_prediction@ == (match guess {
            Some(g) => g,
            None => Seq::<usize>::empty(),
        })
        &&& deltas_final(pre, ranking@, guess, score_delta@)
        &&& post.players@.len() == 5
        &&& (forall|i: int|
            0 <= i < 5 ==> {
                let p = #[trigger] post.players@[i];
                let q = pre.players@[i];
                &&& p.id == q.id
                &&& p.is_first == q.is_first
                &&& p.hand@ == q.hand@
                &&& p.score == q.score + score_delta@[i]
                &&& p.prediction is None
                &&& p.has_predicted == false
                &&& p.has_played == false
                &&& p.posterior_prediction is None
            })
        &&& post.table@.len() == 0
        &&& post.round == pre.round + 1
        &&& post.phase == (if pre.round + 1 == 5 {
            Phase::End
        } else {
            Phase::PriorPrediction
        })
        &&& post.start_player as int == seat(sp, 1)
        &&& post.current_player == post.start_player
        &&& post.is_card == pre.is_card
        &&& post.votes == pre.votes
    }
}

/// Which error a command earns, checked in order: phase, then actor, then
/// payload.  `false` means no error applies and success is owed.
pub open spec fn apply_err(pre: GameState, cmd: Command, e: ErrorKind) -> bool {
    match cmd {
        Command::Predict { player_id, rank } => {
            if pre.phase != Phase::PriorPrediction {
                e == ErrorKind::WrongPhase
            } else if player_id != pre.current_player {
                e == ErrorKind::NotYourTurn
            } else if (rank matches Some(v) && !(1 <= v <= 5)) {
                e == ErrorKind::MalformedMessage
            } else {
                false
            }
        },
        Command::PlayCard { player_id, card_index } => {
            if pre.phase != Phase::Play {
                e == ErrorKind::WrongPhase
            } else if player_id != pre.current_player {
                e == ErrorKind::NotYourTurn
            } else if card_index >= pre.players@[player_id as int].hand@.len() {
                e == ErrorKind::InvalidCardIndex
            } else {
                false
            }
        },
        Command::PosteriorPredict { player_id, rank_list } => {
            if pre.phase != Phase::PosteriorPrediction {
                e == ErrorKind::WrongPhase
            } else if player_id != pre.start_player {
                e == ErrorKind::NotYourTurn
            } else if (rank_list matches Some(v) && !is_id_permutation(v@)) {
                e == ErrorKind::MalformedMessage
            } else {
                false
            }
        },
        Command::Restart { player_id, yes } => {
            if player_id >= 5 {
                e == ErrorKind::InvalidPlayer
            } else {
                false
            }
        },
    }
}

/// A successful `Predict`: the rank is recorded, the turn moves one seat
/// counter-clockwise, and once the turn would come back to the start player
/// the phase advances to `Play` with the start player to act first.
pub open spec fn predict_ok(
    pre: GameState,
    post: GameState,
    player_id: usize,
    rank: Option<usize>,
    evs: Seq<Event>,
) -> bool {
    let pid = player_id as int;
    &&& evs == seq![Event::PredictionAccepted { player_id }]
    &&& post.players@.len() == 5
    &&& (forall|i: int| 0 <= i < 5 && i != pid ==> post.players@[i] == pre.players@[i])
    &&& {
        let p = post.players@[pid];
        let q = pre.players@[pid];
        &&& p.id == q.id
        &&& p.is_first == q.is_first
        &&& p.hand@ == q.hand@
        &&& p.score == q.score
        &&& p.prediction == rank
        &&& p.has_predicted == true
        &&& p.has_played == q.has_played
        &&& p.posterior_prediction == q.posterior_prediction
    }
    &&& if seat(pre.current_player as int, 1) == pre.start_player as int {
        post.phase == Phase::Play && post.current_player == pre.start_player
    } else {
        post.phase == Phase::PriorPrediction && post.current_player as int == seat(
            pre.current_player as int,
            1,
        )
    }
    &&& post.round == pre.round
    &&& post.start_player == pre.start_player
    &&& post.table == pre.table
    &&& post.is_card == pre.is_card
    &&& post.votes == pre.votes
}

/// A successful `PlayCard`: the indexed card leaves the hand and lands on
/// the table with its player id; the `CardPlayed` event withholds the card.
/// The fifth play advances the phase to the posterior prediction; earlier
/// plays pass the turn one seat counter-clockwise.
pub open spec fn playcard_ok(
    pre: GameState,
    post: GameState,
    player_id: usize,
    card_index: usize,
    evs: Seq<Event>,
) -> bool {
    let pid = player_id as int;
    &&& evs == seq![Event::CardPlayed { player_id }]
    &&& post.players@.len() == 5
    &&& (forall|i: int| 0 <= i < 5 && i != pid ==> post.players@[i] == pre.players@[i])
    &&& {
        let p = post.players@[pid];
        let q = pre.players@[pid];
        &&& p.id == q.id
        &&& p.is_first == q.is_first
        &&& p.hand@ == q.hand@.remove(card_index as int)
        &&& p.score == q.score
        &&& p.prediction == q.prediction
        &&& p.has_predicted == q.has_predicted
        &&& p.has_played == true
        &&& p.posterior_prediction == q.posterior_prediction
    }
    &&& post.table@ == pre.table@.push(
        (player_id, pre.players@[pid].hand@[card_index as int]),
    )
    &&& if pre.table@.len() + 1 == 5 {
        post.phase == Phase::PosteriorPrediction && post.current_player == pre.current_player
    } else {
        post.phase == Phase::Play && post.current_player as int == seat(
            pre.current_player as int,
            1,
        )
    }
    &&& post.round == pre.round
    &&& post.start_player == pre.start_player
    &&& post.is_card == pre.is_card
    &&& post.votes == pre.votes
}

/// The guess carried by a `PosteriorPredict` command, as a sequence.
pub open spec fn guess_view(rank_list: Option<Vec<usize>>) -> Option<Seq<usize>> {
    match rank_list {
        Some(v) => Some(v@),
        None => None,
    }
}

/// What a successful command does.  Success also certifies that every check
/// passed: the phase matched, the required actor acted, and the payload was
/// legal.
pub open spec fn apply_ok(pre: GameState, post: GameState, cmd: Command, evs: Seq<Event>) -> bool {
    match cmd {
        Command::Predict { player_id, rank } => {
            &&& pre.phase == Phase::PriorPrediction
            &&& player_id == pre.current_player
            &&& (rank matches Some(v) ==> 1 <= v <= 5)
            &&& predict_ok(pre, post, player_id, rank, evs)
        },
        Command::PlayCard { player_id, card_index } => {
            &&& pre.phase == Phase::Play
            &&& player_id == pre.current_player
            &&& (card_index as int) < pre.players@[player_id as int].hand@.len()
            &&& playcard_ok(pre, post, player_id, card_index, evs)
        },
        Command::PosteriorPredict { player_id, rank_list } => {
            &&& pre.phase == Phase::PosteriorPrediction
            &&& player_id == pre.start_player
            &&& (rank_list matches Some(v) ==> is_id_permutation(v@))
            &&& evs.len() == 2
            &&& evs[0] == Event::PosteriorPredictionAccepted { player_id }
            &&& settlement_ok(pre, guess_view(rank_list), post, evs[1])
        },
        Command::Restart { player_id, yes } => {
            &&& player_id < 5
            &&& evs.len() == 0
            &&& post.players == pre.players
            &&& post.round == pre.round
            &&& post.start_player == pre.start_player
            &&& post.phase == pre.phase
            &&& post.current_player == pre.current_player
            &&& post.table == pre.table
            &&& post.is_card == pre.is_card
            &&& post.votes@ == pre.votes@.update(player_id as int, yes)
        },
    }
}

/// The seat acting right after `cur` in counter-clockwise order.
fn next_seat(cur: usize) -> (r: usize)
    requires
        cur < 5,
    ensures
        r < 5,
        r as int == seat(cur as int, 1),
{
    if cur == 0 {
        4
    } else {
        cur - 1
    }
}

/// Executable form of [`base_score`].
fn base_score_at(pos: usize) -> (s: i32)
    requires
        pos < 5,
    ensures
        s as int == base_score(pos as int),
{
    if pos == 0 {
        2
    } else if pos == 1 {
        1
    } else if pos == 2 {
        0
    } else if pos == 3 {
        -1
    } else {
        -2
    }
}

/// Whether `v` lists each of the five player ids exactly once.
fn is_permutation_vec(v: &Vec<usize>) -> (r: bool)
    ensures
        r == is_id_permutation(v@),
{
    if v.len() != 5 {
        return false;
    }
    let mut seen: Vec<bool> = vec![false, false, false, false, false];
    let mut j: usize = 0;
    while j < 5
        invariant
            0 <= j <= 5,
            v@.len() == 5,
            seen@.len() == 5,
            forall|p: int| 0 <= p < 5 ==> ((#[trigger] seen@[p]) <==> exists|t: int| 0 <= t < j && v@[t] == p),
            forall|t1: int, t2: int| 0 <= t1 < t2 < j ==> v@[t1] != v@[t2],
            forall|t: int| 0 <= t < j ==> (#[trigger] v@[t]) < 5,
        decreases 5 - j,
    {
        let x = v[j];
        if x >= 5 {
            assert(!is_id_permutation(v@));
            return false;
        }
        if seen[x] {
            proof {
                let t = choose|t: int| 0 <= t < j && v@[t] == x as int;
                assert(v@[t] == v@[j as int]);
            }
            return false;
        }
        seen[x] = true;
        j += 1;
    }
    proof {
        assert(v@.no_duplicates()) by {
            assert(forall|t1: int, t2: int|
                0 <= t1 < v@.len() && 0 <= t2 < v@.len() && t1 != t2 ==> v@[t1] != v@[t2]);
        }
    }
    true
}

/// Settlement's total order over table entries: the contextual card key,
/// shifted to leave room for a tie-break, minus the entry's play index
/// (`seat(start, id)`).  Equal cards thus rank by play order, earlier first,
/// and no two entries of one round share a key.
pub open spec fn entry_key(e: (usize, Card), start: int, ovr: bool) -> int {
    card_key(e.1, ovr) * 8 + 7 - seat(start, e.0 as int)
}

/// Executable form of [`entry_key`].
fn entry_key_of(e: &(usize, Card), start: usize, ovr: bool) -> (k: u16)
    requires
        start < 5,
        e.0 < 5,
    ensures
        k as int == entry_key(*e, start as int, ovr),
{
    let j: usize = if start >= e.0 {
        start - e.0
    } else {
        start + 5 - e.0
    };
    (key_of(&e.1, ovr) as u16) * 8 + 7 - (j as u16)
}

/// Sorts a copy of the table by descending entry key, best card first and
/// equal cards in play order: the result holds the same entries, pairwise
/// ordered.
fn sort_table_desc(table: &Vec<(usize, Card)>, start: usize, ovr: bool) -> (out: Vec<
    (usize, Card),
>)
    requires
        start < 5,
        forall|j: int| 0 <= j < table@.len() ==> (#[trigger] table@[j]).0 < 5,
    ensures
        out@.len() == table@.len(),
        out@.to_multiset() == table@.to_multiset(),
        forall|r1: int, r2: int|
            0 <= r1 < r2 < out@.len() ==> entry_key(#[trigger] out@[r1], start as int, ovr)
                >= entry_key(#[trigger] out@[r2], start as int, ovr),
{
    let mut rest: Vec<(usize, Card)> = Vec::new();
    let mut t: usize = 0;
    while t < table.len()
        invariant
            0 <= t <= table@.len(),
            rest@ == table@.take(t as int),
        decreases table@.len() - t,
    {
        rest.push(table[t]);
        proof {
            assert(table@.take(t + 1) =~= table@.take(t as int).push(table@[t as int]));
        }
        t += 1;
    }
    let mut out: Vec<(usize, Card)> = Vec::new();
    proof {
        broadcast use vstd::seq_lib::group_to_multiset_ensures;
        broadcast use vstd::multiset::group_multiset_axioms;

        assert(table@.take(table@.len() as int) =~= table@);
        assert(out@.to_multiset().add(rest@.to_multiset()) =~= table@.to_multiset());
    }
    while rest.len() > 0
        invariant
            start < 5,
            out@.len() + rest@.len() == table@.len(),
            out@.to_multiset().add(rest@.to_multiset()) == table@.to_multiset(),
            forall|j: int| 0 <= j < rest@.len() ==> (#[trigger] rest@[j]).0 < 5,
            forall|r1: int, r2: int|
                0 <= r1 < r2 < out@.len() ==> entry_key(#[trigger] out@[r1], start as int, ovr)
                    >= entry_key(#[trigger] out@[r2], start as int, ovr),
            forall|r1: int, j: int|
                0 <= r1 < out@.len() && 0 <= j < rest@.len() ==> entry_key(
                    #[trigger] out@[r1],
                    start as int,
                    ovr,
                ) >= entry_key(#[trigger] rest@[j], start as int, ovr),
        decreases rest@.len(),
    {
        let mut best: usize = 0;
        let mut m: usize = 1;
        while m < rest.len()
            invariant
                start < 5,
                rest@.len() > 0,
                best < rest@.len(),
                1 <= m <= rest@.len(),
                forall|j: int| 0 <= j < rest@.len() ==> (#[trigger] rest@[j]).0 < 5,
                forall|j: int|
                    0 <= j < m ==> entry_key(rest@[best as int], start as int, ovr) >= entry_key(
                        #[trigger] rest@[j],
                        start as int,
                        ovr,
                    ),
            decreases rest@.len() - m,
        {
            if entry_key_of(&rest[m], start, ovr) > entry_key_of(&rest[best], start, ovr) {
                best = m;
            }
            m += 1;
        }
        let ghost old_out = out@;
        let ghost old_rest = rest@;
        let e = rest.remove(best);
        out.push(e);
        proof {
            broadcast use vstd::seq_lib::group_to_multiset_ensures;
            broadcast use vstd::multiset::group_multiset_axioms;

            assert(old_rest[best as int] == e);
            assert(old_rest.contains(e));
            assert(old_rest.to_multiset().count(e) > 0);
            assert(out@ == old_out.push(e));
            assert(old_out.push(e).to_multiset() =~= old_out.to_multiset().insert(e));
            assert(rest@ == old_rest.remove(best as int));
            assert(old_rest.remove(best as int).to_multiset() == old_rest.to_multiset().remove(
                old_rest[best as int],
            ));
            assert(out@.to_multiset().add(rest@.to_multiset()) =~= table@.to_multiset());
        }
    }
    out
}

/// The table of a well-formed state holds no entry twice, and in the play
/// and posterior phases every entry's id is a seat number below five.
proof fn lemma_table_entries(pre: GameState)
    requires
        pre.wf(),
        pre.phase == Phase::Play || pre.phase == Phase::PosteriorPrediction,
    ensures
        pre.table@.no_duplicates(),
        forall|j: int| 0 <= j < pre.table@.len() ==> (#[trigger] pre.table@[j]).0 < 5,
{
    let t = pre.table@;
    let sp = pre.start_player as int;
    assert forall|j: int| 0 <= j < t.len() implies (#[trigger] t[j]).0 < 5 by {
        assert(t[j].0 as int == seat(sp, j));
    }
    assert forall|j1: int, j2: int|
        0 <= j1 < t.len() && 0 <= j2 < t.len() && j1 != j2 implies t[j1] != t[j2] by {
        assert(t[j1].0 as int == seat(sp, j1));
        assert(t[j2].0 as int == seat(sp, j2));
    }
}

/// Every entry of a sorted table copy is a table entry; its id is below
/// five, the table holds its card at the seat-determined index, and no two
/// sorted entries share an id.
proof fn lemma_sorted_entries(pre: GameState, sorted: Seq<(usize, Card)>)
    requires
        pre.wf(),
        pre.phase == Phase::PosteriorPrediction,
        sorted.len() == 5,
        sorted.to_multiset() == pre.table@.to_multiset(),
    ensures
        forall|r: int| 0 <= r < 5 ==> (#[trigger] sorted[r]).0 < 5,
        forall|r: int|
            0 <= r < 5 ==> pre.table@[seat(pre.start_player as int, (#[trigger] sorted[r]).0 as int)]
                == sorted[r],
        forall|r1: int, r2: int|
            0 <= r1 < 5 && 0 <= r2 < 5 && r1 != r2 ==> (#[trigger] sorted[r1]).0 != (
            #[trigger] sorted[r2]).0,
{
    broadcast use vstd::seq_lib::group_to_multiset_ensures;

    let t = pre.table@;
    let sp = pre.start_player as int;
    lemma_table_entries(pre);
    assert forall|r: int| 0 <= r < 5 implies (#[trigger] sorted[r]).0 < 5 && t[seat(
        sp,
        sorted[r].0 as int,
    )] == sorted[r] by {
        assert(sorted.contains(sorted[r]));
        assert(sorted.to_multiset().count(sorted[r]) > 0);
        assert(t.to_multiset().count(sorted[r]) > 0);
        assert(t.contains(sorted[r]));
        let j = choose|j: int| 0 <= j < t.len() && t[j] == sorted[r];
        assert(t[j].0 as int == seat(sp, j));
        assert(seat(sp, seat(sp, j)) == j);
    }
    t.lemma_multiset_has_no_duplicates();
    sorted.lemma_multiset_has_no_duplicates_conv();
    assert forall|r1: int, r2: int|
        0 <= r1 < 5 && 0 <= r2 < 5 && r1 != r2 implies (#[trigger] sorted[r1]).0 != (
    #[trigger] sorted[r2]).0 by {
        if sorted[r1].0 == sorted[r2].0 {
            assert(t[seat(sp, sorted[r1].0 as int)] == sorted[r1]);
            assert(t[seat(sp, sorted[r2].0 as int)] == sorted[r2]);
            assert(sorted[r1] == sorted[r2]);
        }
    }
}

impl GameState {
    /// A fresh game over the given five players, seated by their ids: round
    /// zero, the prior-prediction phase, seat 0 opening and acting first.
    pub fn new(players: Vec<PlayerState>) -> (s: GameState)
        requires
            players@.len() == 5,
            forall|i: int|
                0 <= i < 5 ==> {
                    let p = #[trigger] players@[i];
                    &&& p.id == i
                    &&& p.score == 0
                    &&& p.prediction is None
                    &&& p.posterior_prediction is None
                },
        ensures
            s.wf(),
            s.players == players,
            s.round == 0,
            s.start_player == 0,
            s.phase == Phase::PriorPrediction,
            s.current_player == 0,
            s.table@.len() == 0,
            s.is_card == false,
            s.votes@ =~= seq![false, false, false, false, false],
    {
        let cp = players[0].id;
        GameState {
            players,
            round: 0,
            start_player: 0,
            phase: Phase::PriorPrediction,
            current_player: cp,
            table: Vec::new(),
            is_card: false,
            votes: vec![false, false, false, false, false],
        }
    }

    /// Phase check: the first validation of every turn-scoped command.
    fn check_phase(&self, expected_phase: Phase) -> (r: Result<(), ErrorKind>)
        ensures
            r is Ok <==> self.phase == expected_phase,
            r matches Err(e) ==> e == ErrorKind::WrongPhase,
    {
        if self.phase != expected_phase {
            Err(ErrorKind::WrongPhase)
        } else {
            Ok(())
        }
    }

    /// Turn check for turn-scoped commands.
    fn check_current_player(&self, player_id: usize) -> (r: Result<(), ErrorKind>)
        ensures
            r is Ok <==> player_id == self.current_player,
            r matches Err(e) ==> e == ErrorKind::NotYourTurn,
    {
        if player_id != self.current_player {
            return Err(ErrorKind::NotYourTurn);
        }
        Ok(())
    }

    /// Actor check for the posterior prediction, owed to the start player.
    fn check_first_player(&self, player_id: usize) -> (r: Result<(), ErrorKind>)
        ensures
            r is Ok <==> player_id == self.start_player,
            r matches Err(e) ==> e == ErrorKind::NotYourTurn,
    {
        if player_id != self.start_player {
            return Err(ErrorKind::NotYourTurn);
        }
        Ok(())
    }

    /// Validates and applies one command, returning the events it produced
    /// or the error that refused it.  A refused command leaves the state
    /// exactly as it was.
    pub fn apply(&mut self, cmd: Command) -> (r: Result<Vec<Event>, ErrorKind>)
        requires
            old(self).wf(),
        ensures
            final(self).wf(),
            (r matches Err(e) ==> *final(self) == *old(self) && apply_err(*old(self), cmd, e)),
            (r matches Ok(evs) ==> apply_ok(*old(self), *final(self), cmd, evs@)),
    {
        match cmd {
            Command::Predict { player_id, rank } => {
                match self.check_phase(Phase::PriorPrediction) {
                    Err(e) => {
                        return Err(e);
                    },
                    Ok(()) => {},
                }
                match self.check_current_player(player_id) {
                    Err(e) => {
                        return Err(e);
                    },
                    Ok(()) => {},
                }
                if let Some(v) = rank {
                    if v < 1 || v > 5 {
                        return Err(ErrorKind::MalformedMessage);
                    }
                }
                {
                    let p = &mut self.players[player_id];
                    p.prediction = rank;
                    p.has_predicted = true;
                }
                let nxt = next_seat(self.current_player);
                if nxt == self.start_player {
                    self.phase = Phase::Play;
                    self.current_player = self.start_player;
                } else {
                    self.current_player = nxt;
                }
                proof {
                    assert(predict_ok(
                        *old(self),
                        *self,
                        player_id,
                        rank,
                        seq![Event::PredictionAccepted { player_id }],
                    ));
                    assert(self.wf());
                }
                let mut events: Vec<Event> = Vec::new();
                events.push(Event::PredictionAccepted { player_id });
                Ok(events)
            },
            Command::PlayCard { player_id, card_index } => {
                match self.check_phase(Phase::Play) {
                    Err(e) => {
                        return Err(e);
                    },
                    Ok(()) => {},
                }
                match self.check_current_player(player_id) {
                    Err(e) => {
                        return Err(e);
                    },
                    Ok(()) => {},
                }
                if card_index >= self.players[player_id].hand.len() {
                    return Err(ErrorKind::InvalidCardIndex);
                }
                let card = {
                    let p = &mut self.players[player_id];
                    let c = p.hand.remove(card_index);
                    p.has_played = true;
                    c
                };
                self.table.push((player_id, card));
                if self.table.len() == 5 {
                    self.phase = Phase::PosteriorPrediction;
                } else {
                    self.current_player = next_seat(self.current_player);
                }
                proof {
                    let pre0 = *old(self);
                    assert(self.table@ == pre0.table@.push(
                        (player_id, pre0.players@[player_id as int].hand@[card_index as int]),
                    ));
                    assert(playcard_ok(
                        pre0,
                        *self,
                        player_id,
                        card_index,
                        seq![Event::CardPlayed { player_id }],
                    ));
                    assert forall|j: int|
                        0 <= j < self.table@.len() implies (#[trigger] self.table@[j]).0 as int
                        == seat(self.start_player as int, j) by {
                        if j < pre0.table@.len() {
                            assert(self.table@[j] == pre0.table@[j]);
                        } else {
                            assert(self.table@[j].0 == player_id);
                        }
                    }
                    assert(self.wf());
                }
                let mut events: Vec<Event> = Vec::new();
                events.push(Event::CardPlayed { player_id });
                Ok(events)
            },
            Command::PosteriorPredict { player_id, rank_list } => {
                match self.check_phase(Phase::PosteriorPrediction) {
                    Err(e) => {
                        return Err(e);
                    },
                    Ok(()) => {},
                }
                match self.check_first_player(player_id) {
                    Err(e) => {
                        return Err(e);
                    },
                    Ok(()) => {},
                }
                if let Some(list) = &rank_list {
                    if !is_permutation_vec(list) {
                        return Err(ErrorKind::MalformedMessage);
                    }
                }
                let ghost guess = guess_view(rank_list);
                {
                    let p = &mut self.players[player_id];
                    p.posterior_prediction = rank_list;
                }
                let ghost mid = *self;
                proof {
                    assert(mid.wf());
                    assert(posterior_view(mid.players@[mid.start_player as int]) == guess);
                }
                let mut events: Vec<Event> = Vec::new();
                events.push(Event::PosteriorPredictionAccepted { player_id });
                let mut rr = self.finish_round();
                let ev = rr.pop().unwrap();
                events.push(ev);
                proof {
                    let pre0 = *old(self);
                    assert(settlement_ok(mid, guess, *self, ev));
                    assert forall|i: int|
                        0 <= i < 5 implies #[trigger] mid.players@[i].prediction
                        == pre0.players@[i].prediction && mid.players@[i].id == pre0.players@[i].id
                        && mid.players@[i].is_first == pre0.players@[i].is_first
                        && mid.players@[i].hand@ == pre0.players@[i].hand@ && mid.players@[i].score
                        == pre0.players@[i].score by {
                        if i != player_id as int {
                            assert(mid.players@[i] == pre0.players@[i]);
                        }
                    }
                    assert(settlement_ok(pre0, guess, *self, ev));
                    assert(events@ == seq![Event::PosteriorPredictionAccepted { player_id }, ev]);
                }
                Ok(events)
            },
            Command::Restart { player_id, yes } => {
                if player_id >= 5 {
                    return Err(ErrorKind::InvalidPlayer);
                }
                self.votes[player_id] = yes;
                Ok(Vec::new())
            },
        }
    }

    /// Whether every seat has voted yes for a restart.
    pub fn restart_approved(&self) -> (r: bool)
        requires
            self.wf(),
        ensures
            r <==> (forall|i: int| 0 <= i < 5 ==> self.votes@[i]),
    {
        let mut i: usize = 0;
        while i < 5
            invariant
                0 <= i <= 5,
                self.votes@.len() == 5,
                forall|t: int| 0 <= t < i ==> self.votes@[t],
            decreases 5 - i,
        {
            if !self.votes[i] {
                return false;
            }
            i += 1;
        }
        true
    }

    /// Settles the round once all five cards are on the table and the
    /// posterior prediction was taken: ranks the table, applies every score
    /// delta, clears the per-round state, and advances round, phase and
    /// start player.
    fn finish_round(&mut self) -> (events: Vec<Event>)
        requires
            old(self).wf(),
            old(self).phase == Phase::PosteriorPrediction,
        ensures
            final(self).wf(),
            events@.len() == 1,
            settlement_ok(
                *old(self),
                posterior_view(old(self).players@[old(self).start_player as int]),
                *final(self),
                events@[0],
            ),
    {
        let ghost pre = *old(self);
        let ghost sp_int = pre.start_player as int;
        let ghost guess = posterior_view(pre.players@[sp_int]);

        // The played cards in play order, for the event and for the
        // override context.
        let mut cards: Vec<Card> = Vec::new();
        let mut j: usize = 0;
        while j < 5
            invariant
                0 <= j <= 5,
                *self == pre,
                pre.wf(),
                pre.phase == Phase::PosteriorPrediction,
                cards@.len() == j,
                forall|t: int| 0 <= t < j ==> cards@[t] == pre.table@[t].1,
            decreases 5 - j,
        {
            let entry = self.table[j];
            cards.push(entry.1);
            j += 1;
        }
        proof {
            assert(cards@ =~= table_cards(pre.table@));
        }
        let ovr = table_has_override(cards.as_slice());

        proof {
            lemma_table_entries(pre);
        }
        let sorted = sort_table_desc(&self.table, self.start_player, ovr);
        proof {
            lemma_sorted_entries(pre, sorted@);
        }

        // Ranking and per-player deltas from the finishing positions.
        let mut ranking: Vec<usize> = Vec::new();
        let mut delta: Vec<i32> = vec![0, 0, 0, 0, 0];
        let mut r: usize = 0;
        while r < 5
            invariant
                0 <= r <= 5,
                *self == pre,
                pre.wf(),
                pre.phase == Phase::PosteriorPrediction,
                sorted@.len() == 5,
                forall|t: int| 0 <= t < 5 ==> (#[trigger] sorted@[t]).0 < 5,
                forall|t: int|
                    0 <= t < 5 ==> pre.table@[seat(sp_int, (#[trigger] sorted@[t]).0 as int)]
                        == sorted@[t],
                forall|t1: int, t2: int|
                    0 <= t1 < 5 && 0 <= t2 < 5 && t1 != t2 ==> (#[trigger] sorted@[t1]).0 != (
                    #[trigger] sorted@[t2]).0,
                ranking@.len() == r,
                forall|t: int| 0 <= t < r ==> ranking@[t] == (#[trigger] sorted@[t]).0,
                delta@.len() == 5,
                forall|t: int|
                    0 <= t < r ==> (#[trigger] delta@[ranking@[t] as int]) as int == base_score(t)
                        + prediction_bonus(pre.players@[ranking@[t] as int].prediction, t),
                forall|p: int| 0 <= p < 5 && !ranking@.contains(p as usize) ==> delta@[p] == 0,
                forall|p: int| 0 <= p < 5 ==> -4 <= (#[trigger] delta@[p]) as int <= 4,
            decreases 5 - r,
        {
            let ghost old_ranking = ranking@;
            let ghost old_delta = delta@;
            let pid = sorted[r].0;
            ranking.push(pid);
            let base = base_score_at(r);
            let bonus: i32 = match self.players[pid].prediction {
                Some(g) => if g == r + 1 {
                    2
                } else {
                    -2
                },
                None => -2,
            };
            delta[pid] = base + bonus;
            proof {
                assert(ranking@ == old_ranking.push(pid));
                assert(delta@ == old_delta.update(pid as int, (base + bonus) as i32));
                assert(ranking@[r as int] == pid);
                assert((base + bonus) as int == base_score(r as int) + prediction_bonus(
                    pre.players@[pid as int].prediction,
                    r as int,
                ));
                assert forall|t: int|
                    0 <= t < r + 1 implies (#[trigger] delta@[ranking@[t] as int]) as int
                    == base_score(t) + prediction_bonus(
                    pre.players@[ranking@[t] as int].prediction,
                    t,
                ) by {
                    if t < r {
                        assert(ranking@[t] == old_ranking[t]);
                        assert(ranking@[t] == sorted@[t].0);
                        assert(pid == sorted@[r as int].0);
                        assert(sorted@[t].0 != sorted@[r as int].0);
                        assert(delta@[ranking@[t] as int] == old_delta[ranking@[t] as int]);
                    }
                }
                assert forall|p: int|
                    0 <= p < 5 && !ranking@.contains(p as usize) implies delta@[p] == 0 by {
                    assert(!old_ranking.contains(p as usize)) by {
                        if old_ranking.contains(p as usize) {
                            let t = choose|t: int|
                                0 <= t < old_ranking.len() && old_ranking[t] == p as usize;
                            assert(ranking@[t] == p as usize);
                        }
                    }
                    assert(p != pid as int) by {
                        assert(ranking@[r as int] == pid);
                    }
                }
            }
            r += 1;
        }
        proof {
            assert(ranking@.len() == 5);
            assert forall|t: int| 0 <= t < 5 implies (#[trigger] ranking@[t]) < 5 by {
                assert(ranking@[t] == sorted@[t].0);
            }
            assert forall|t1: int, t2: int|
                0 <= t1 < ranking@.len() && 0 <= t2 < ranking@.len() && t1 != t2 implies ranking@[t1]
                != ranking@[t2] by {
                assert(ranking@[t1] == sorted@[t1].0);
                assert(ranking@[t2] == sorted@[t2].0);
            }
            assert(ranking@.no_duplicates());
            assert(is_id_permutation(ranking@));
        }

        // The posterior guess of this round's start player, and its bonus.
        let sp = self.start_player;
        let ghost d0 = delta@;
        let mut post_guess: Vec<usize> = Vec::new();
        match &self.players[sp].posterior_prediction {
            Some(g) => {
                let mut m: usize = 0;
                let mut k: usize = 0;
                while m < 5
                    invariant
                        0 <= m <= 5,
                        g@.len() == 5,
                        ranking@.len() == 5,
                        0 <= k <= m,
                        k as int == match_count(g@, ranking@, m as int),
                        post_guess@ == g@.take(m as int),
                    decreases 5 - m,
                {
                    post_guess.push(g[m]);
                    if g[m] == ranking[m] {
                        k = k + 1;
                    }
                    proof {
                        assert(g@.take(m + 1) =~= g@.take(m as int).push(g@[m as int]));
                    }
                    m += 1;
                }
                proof {
                    assert(post_guess@ =~= g@);
                }
                let pb: i32 = if k >= 1 {
                    base_score_at(5 - k)
                } else {
                    -2
                };
                let d = delta[sp];
                delta[sp] = d + pb;
                proof {
                    assert(guess == Some(g@));
                    assert(pb as int == posterior_bonus(k as int));
                    assert(guess_extra(guess, ranking@) == pb as int);
                    assert(delta@ == d0.update(sp as int, (d + pb) as i32));
                    assert forall|t: int|
                        0 <= t < 5 implies (#[trigger] delta@[ranking@[t] as int]) as int
                        == base_score(t) + prediction_bonus(
                        pre.players@[ranking@[t] as int].prediction,
                        t,
                    ) + (if ranking@[t] as int == sp_int {
                        guess_extra(guess, ranking@)
                    } else {
                        0
                    }) by {
                        assert(d0[ranking@[t] as int] as int == base_score(t) + prediction_bonus(
                            pre.players@[ranking@[t] as int].prediction,
                            t,
                        ));
                        if ranking@[t] as int == sp_int {
                            assert(delta@[ranking@[t] as int] as int == d + pb);
                        } else {
                            assert(delta@[ranking@[t] as int] == d0[ranking@[t] as int]);
                        }
                    }
                    assert(deltas_final(pre, ranking@, guess, delta@));
                }
            },
            None => {
                proof {
                    assert(guess is None);
                    assert(deltas_final(pre, ranking@, guess, delta@));
                }
            },
        }

        // Build the prior-prediction report, apply all deltas, and clear the
        // per-round player state.
        let mut prediction: Vec<usize> = Vec::new();
        let mut i: usize = 0;
        while i < 5
            invariant
                0 <= i <= 5,
                self.players@.len() == 5,
                self.round == pre.round,
                self.start_player == pre.start_player,
                self.phase == pre.phase,
                self.current_player == pre.current_player,
                self.table == pre.table,
                self.is_card == pre.is_card,
                self.votes == pre.votes,
                pre.wf(),
                pre.phase == Phase::PosteriorPrediction,
                delta@.len() == 5,
                forall|p: int| 0 <= p < 5 ==> -6 <= (#[trigger] delta@[p]) as int <= 6,
                forall|t: int| i <= t < 5 ==> self.players@[t] == pre.players@[t],
                prediction@.len() == i,
                forall|t: int|
                    0 <= t < i ==> (#[trigger] prediction@[t]) as int == pred_value(
                        pre.players@[t].prediction,
                    ),
                forall|t: int|
                    0 <= t < i ==> {
                        let p = #[trigger] self.players@[t];
                        let q = pre.players@[t];
                        &&& p.id == q.id
                        &&& p.is_first == q.is_first
                        &&& p.hand@ == q.hand@
                        &&& p.score == q.score + delta@[t]
                        &&& p.prediction is None
                        &&& p.has_predicted == false
                        &&& p.has_played == false
                        &&& p.posterior_prediction is None
                    },
            decreases 5 - i,
        {
            let pv: usize = match self.players[i].prediction {
                Some(g) => g,
                None => 0,
            };
            prediction.push(pv);
            let d = delta[i];
            let p = &mut self.players[i];
            p.score = p.score + d;
            p.prediction = None;
            p.posterior_prediction = None;
            p.has_predicted = false;
            p.has_played = false;
            i += 1;
        }

        self.table.clear();
        self.round = self.round + 1;
        self.phase = if self.round >= 5 {
            Phase::End
        } else {
            Phase::PriorPrediction
        };
        let new_start = next_seat(self.start_player);
        self.start_player = new_start;
        self.current_player = new_start;

        let mut events: Vec<Event> = Vec::new();
        events.push(
            Event::RoundResult {
                cards,
                ranking,
                prediction,
                posterior_prediction: post_guess,
                score_delta: delta,
            },
        );
        proof {
            let post = *self;
            assert forall|r1: int, r2: int| 0 <= r1 < r2 < 5 implies card_key(
                played_card(pre, ranking@[r1] as int),
                ak_override(table_cards(pre.table@)),
            ) >= card_key(played_card(pre, ranking@[r2] as int), ak_override(table_cards(pre.table@)))
                by {
                assert(ranking@[r1] == sorted@[r1].0);
                assert(ranking@[r2] == sorted@[r2].0);
                assert(pre.table@[seat(sp_int, sorted@[r1].0 as int)] == sorted@[r1]);
                assert(pre.table@[seat(sp_int, sorted@[r2].0 as int)] == sorted@[r2]);
                assert(played_card(pre, ranking@[r1] as int) == sorted@[r1].1);
                assert(played_card(pre, ranking@[r2] as int) == sorted@[r2].1);
                assert(entry_key(sorted@[r1], sp_int, ovr) >= entry_key(sorted@[r2], sp_int, ovr));
                assert(0 <= seat(sp_int, sorted@[r1].0 as int) < 5);
                assert(0 <= seat(sp_int, sorted@[r2].0 as int) < 5);
                assert(card_key(sorted@[r1].1, ovr) >= card_key(sorted@[r2].1, ovr));
            }
            assert forall|r1: int, r2: int|
                0 <= r1 < r2 < 5 && card_key(
                    played_card(pre, ranking@[r1] as int),
                    ak_override(table_cards(pre.table@)),
                ) == card_key(
                    played_card(pre, ranking@[r2] as int),
                    ak_override(table_cards(pre.table@)),
                ) implies seat(sp_int, ranking@[r1] as int) < seat(sp_int, ranking@[r2] as int) by {
                assert(ranking@[r1] == sorted@[r1].0);
                assert(ranking@[r2] == sorted@[r2].0);
                assert(pre.table@[seat(sp_int, sorted@[r1].0 as int)] == sorted@[r1]);
                assert(pre.table@[seat(sp_int, sorted@[r2].0 as int)] == sorted@[r2]);
                assert(played_card(pre, ranking@[r1] as int) == sorted@[r1].1);
                assert(played_card(pre, ranking@[r2] as int) == sorted@[r2].1);
                assert(entry_key(sorted@[r1], sp_int, ovr) >= entry_key(sorted@[r2], sp_int, ovr));
                assert(0 <= seat(sp_int, sorted@[r1].0 as int) < 5);
                assert(0 <= seat(sp_int, sorted@[r2].0 as int) < 5);
                assert(sorted@[r1].0 != sorted@[r2].0);
                assert(seat(sp_int, sorted@[r1].0 as int) != seat(sp_int, sorted@[r2].0 as int));
            }
            assert(post_guess@ == (match guess {
                Some(g) => g,
                None => Seq::<usize>::empty(),
            }));
            assert(settlement_ok(pre, guess, post, events@[0]));
            assert(post.wf());
        }
        events
    }
}

/// A fresh five-player game: empty hands, zero scores, no predictions, no
/// votes, seat 0 opening the first round.
pub fn init_game() -> (s: GameState)
    ensures
        s.wf(),
        s.round == 0,
        s.start_player == 0,
        s.phase == Phase::PriorPrediction,
        s.current_player == 0,
        s.table@.len() == 0,
        s.is_card == false,
        s.players@.len() == 5,
        forall|i: int|
            0 <= i < 5 ==> {
                let p = #[trigger] s.players@[i];
                &&& p.id == i
                &&& p.is_first == false
                &&& p.hand@.len() == 0
                &&& p.score == 0
                &&& p.prediction is None
                &&& p.has_predicted == false
                &&& p.has_played == false
                &&& p.posterior_prediction is None
            },
        forall|i: int| 0 <= i < 5 ==> !(#[trigger] s.votes@[i]),
{
    let mut players: Vec<PlayerState> = Vec::new();
    let mut id: usize = 0;
    while id < 5
        invariant
            0 <= id <= 5,
            players@.len() == id,
            forall|i: int|
                0 <= i < id ==> {
                    let p = #[trigger] players@[i];
                    &&& p.id == i
                    &&& p.is_first == false
                    &&& p.hand@.len() == 0
                    &&& p.score == 0
                    &&& p.prediction is None
                    &&& p.has_predicted == false
                    &&& p.has_played == false
                    &&& p.posterior_prediction is None
                },
        decreases 5 - id,
    {
        players.push(
            PlayerState {
                id,
                is_first: false,
                hand: Vec::new(),
                score: 0,
                prediction: None,
                has_predicted: false,
                has_played: false,
                posterior_prediction: None,
            },
        );
        id += 1;
    }
    GameState::new(players)
}

} // verus!
