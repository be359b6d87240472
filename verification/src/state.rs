use vstd::prelude::*;

use crate::card::Card;
use crate::card::Rank;
use crate::card::Suit;
use crate::event::Event;
use rand::seq::SliceRandom;

verus! {

/// Per-player data, owned by the single authoritative [`GameState`].
#[derive(Debug, Clone, PartialEq)]
pub struct PlayerState {
    /// Stable seat number, 0 to 4.
    pub id: usize,
    /// Whether this player opens the current round.
    pub is_first: bool,
    /// The cards still held; shrinks by one per successful play.
    pub hand: Vec<Card>,
    /// Cumulative score, mutated only at settlement.
    pub score: i32,
    /// Prior prediction: the player's guess of their own finishing rank
    /// (1 best, 5 worst) for this round, `None` while not given.
    pub prediction: Option<usize>,
    /// Whether the player predicted this round.
    pub has_predicted: bool,
    /// Whether the player played a card this round.
    pub has_played: bool,
    /// Posterior prediction: the guessed finishing order, best first, held
    /// only by the round's start player.
    pub posterior_prediction: Option<Vec<usize>>,
}

/// The game's phases.  Each round runs the first three in order; `End` is
/// terminal after five completed rounds.
#[derive(Debug, Clone, Copy, PartialEq, Eq, Structural)]
pub enum Phase {
    PriorPrediction,
    Play,
    PosteriorPrediction,
    End,
}

/// The single authoritative game state, mutated only through
/// `GameState::apply`.
#[derive(Debug, Clone, PartialEq)]
pub struct GameState {
    /// The five players, indexed by their id.
    pub players: Vec<PlayerState>,
    /// Completed rounds, 0 to 5.
    pub round: u8,
    /// Seat that opens the current round; rotates counter-clockwise.
    pub start_player: usize,
    /// Current phase.
    pub phase: Phase,
    /// Seat whose turn it is.
    pub current_player: usize,
    /// The cards played this round, in play order, with their player.
    pub table: Vec<(usize, Card)>,
    /// Whether hands have been dealt.
    pub is_card: bool,
    /// Replay votes, one per seat.
    pub votes: Vec<bool>,
}

/// The seat acting `k`-th in a round opened by `start`: play proceeds
/// counter-clockwise, that is seat numbers decrease and wrap at zero.
/// Meaningful for `0 <= start < 5` and `0 <= k < 5`.
pub open spec fn seat(start: int, k: int) -> int {
    if start - k >= 0 {
        start - k
    } else {
        start - k + 5
    }
}

/// A sequence that lists each of the five player ids exactly once.
pub open spec fn is_id_permutation(s: Seq<usize>) -> bool {
    &&& s.len() == 5
    &&& forall|j: int| 0 <= j < 5 ==> (#[trigger] s[j]) < 5
    &&& s.no_duplicates()
}

/// Well-formedness of one player: the seat number matches the index, a
/// recorded prior prediction is a rank 1 to 5, a recorded posterior
/// prediction is a permutation of the five ids, and the score is bounded by
/// the largest swing a round can produce.
pub open spec fn player_wf(p: PlayerState, i: int, round: int) -> bool {
    &&& p.id == i
    &&& (p.prediction matches Some(r) ==> 1 <= r <= 5)
    &&& (p.posterior_prediction matches Some(v) ==> is_id_permutation(v@))
    &&& -6 * round <= p.score <= 6 * round
}

impl GameState {
    /// The ids on the table, in play order, are exactly the seats in
    /// counter-clockwise order from the start player.
    pub open spec fn table_ids_ok(self) -> bool {
        forall|j: int|
            0 <= j < self.table@.len() ==> (#[trigger] self.table@[j]).0 as int == seat(
                self.start_player as int,
                j,
            )
    }

    /// The state invariant: established by `init_game` and preserved by
    /// every `apply`.
    pub open spec fn wf(self) -> bool {
        &&& self.players@.len() == 5
        &&& self.votes@.len() == 5
        &&& self.start_player < 5
        &&& self.current_player < 5
        &&& self.round <= 5
        &&& (self.phase == Phase::End <==> self.round == 5)
        &&& forall|i: int|
            0 <= i < 5 ==> player_wf(#[trigger] self.players@[i], i, self.round as int)
        &&& forall|i: int|
            0 <= i < 5 && i != self.start_player as int ==> (#[trigger] self.players@[i]).posterior_prediction is None
        &&& match self.phase {
            Phase::PriorPrediction => self.table@.len() == 0,
            Phase::Play => {
                &&& self.table@.len() < 5
                &&& self.current_player as int == seat(
                    self.start_player as int,
                    self.table@.len() as int,
                )
                &&& self.table_ids_ok()
            },
            Phase::PosteriorPrediction => self.table@.len() == 5 && self.table_ids_ok(),
            Phase::End => self.table@.len() == 0,
        }
    }
}

/// The low tier of the deck: ranks A to 7 of the three non-spade suits.
pub open spec fn small_tier(c: Card) -> bool {
    c.suit != Suit::Spade && 1 <= c.rank.spec_value() <= 7
}

/// The high tier of the deck: ranks 8 to K of the three non-spade suits.
pub open spec fn big_tier(c: Card) -> bool {
    c.suit != Suit::Spade && 8 <= c.rank.spec_value() <= 13
}

/// The spade tier: all thirteen spades.
pub open spec fn spade_tier(c: Card) -> bool {
    c.suit == Suit::Spade
}

#[verifier::external_type_specification]
#[verifier::external_body]
pub struct ExThreadRng(rand::rngs::ThreadRng);

/// Relies on rand::rng to hand out the thread-local random generator.
#[verifier::external_body]
fn new_rng() -> rand::rngs::ThreadRng {
    rand::rng()
}

/// Relies on rand::seq::SliceRandom::shuffle, which permutes the slice in
/// place.  Nothing is assumed of the randomly chosen order: only that the
/// same cards, with the same multiplicities, remain.
#[verifier::external_body]
fn shuffle_cards(deck: &mut Vec<Card>, rng: &mut rand::rngs::ThreadRng)
    ensures
        final(deck)@.to_multiset() == old(deck)@.to_multiset(),
{
    deck.shuffle(rng);
}

/// The rank with the given numeric value.
pub(crate) fn rank_from_value(v: u8) -> (r: Rank)
    requires
        1 <= v <= 13,
    ensures
        r.spec_value() == v as int,
{
    match v {
        1 => Rank::A,
        2 => Rank::Two,
        3 => Rank::Three,
        4 => Rank::Four,
        5 => Rank::Five,
        6 => Rank::Six,
        7 => Rank::Seven,
        8 => Rank::Eight,
        9 => Rank::Nine,
        10 => Rank::Ten,
        11 => Rank::J,
        12 => Rank::Q,
        _ => Rank::K,
    }
}

/// Appends to `deck` one card of `suit` for every rank value `lo` to `hi`.
fn push_suit_run(deck: &mut Vec<Card>, suit: Suit, lo: u8, hi: u8)
    requires
        1 <= lo,
        lo <= hi,
        hi <= 13,
        old(deck)@.len() + (hi - lo + 1) <= 100,
    ensures
        final(deck)@.len() == old(deck)@.len() + (hi - lo + 1),
        forall|j: int| 0 <= j < old(deck)@.len() ==> final(deck)@[j] == old(deck)@[j],
        forall|j: int|
            old(deck)@.len() <= j < final(deck)@.len() ==> (#[trigger] final(deck)@[j]).suit
                == suit && final(deck)@[j].rank.spec_value() == lo + (j - old(deck)@.len()),
{
    let mut v: u8 = lo;
    while v <= hi
        invariant
            1 <= lo <= v <= hi + 1,
            hi <= 13,
            deck@.len() == old(deck)@.len() + (v - lo),
            forall|j: int| 0 <= j < old(deck)@.len() ==> deck@[j] == old(deck)@[j],
            forall|j: int|
                old(deck)@.len() <= j < deck@.len() ==> (#[trigger] deck@[j]).suit == suit
                    && deck@[j].rank.spec_value() == lo + (j - old(deck)@.len()),
        decreases hi + 1 - v,
    {
        let rank = rank_from_value(v);
        deck.push(Card { rank, suit });
        v += 1;
    }
}

/// Every card of the deck satisfies `tier`; stated over an arbitrary spec
/// predicate so the three tiers share one proof after shuffling.
proof fn lemma_shuffle_keeps_tier(pre: Seq<Card>, post: Seq<Card>, tier: spec_fn(Card) -> bool)
    requires
        pre.to_multiset() == post.to_multiset(),
        forall|j: int| 0 <= j < pre.len() ==> tier(#[trigger] pre[j]),
    ensures
        post.len() == pre.len(),
        forall|j: int| 0 <= j < post.len() ==> tier(#[trigger] post[j]),
{
    broadcast use vstd::seq_lib::group_to_multiset_ensures;

    assert(pre.len() == pre.to_multiset().len());
    assert(post.len() == post.to_multiset().len());

    assert forall|j: int| 0 <= j < post.len() implies tier(#[trigger] post[j]) by {
        assert(post.contains(post[j]));
        assert(post.to_multiset().count(post[j]) > 0);
        assert(pre.to_multiset().count(post[j]) > 0);
        assert(pre.contains(post[j]));
        let j0 = choose|j0: int| 0 <= j0 < pre.len() && pre[j0] == post[j];
        assert(tier(pre[j0]));
    }
}

/// A duplicate-free deck stays duplicate-free under any permutation.
proof fn lemma_shuffle_keeps_no_duplicates(pre: Seq<Card>, post: Seq<Card>)
    requires
        pre.to_multiset() == post.to_multiset(),
        pre.no_duplicates(),
    ensures
        post.no_duplicates(),
{
    pre.lemma_multiset_has_no_duplicates();
    post.lemma_multiset_has_no_duplicates_conv();
}

impl GameState {
    /// Deals every player a fresh five-card hand: two cards of the low
    /// tier, two of the high tier and one spade, drawn from three
    /// independently shuffled tier decks.  Returns one private `CardsDealt`
    /// event per player.
    pub fn deal_cards(&mut self) -> (events: Vec<Event>)
        requires
            old(self).wf(),
        ensures
            final(self).wf(),
            final(self).round == old(self).round,
            final(self).start_player == old(self).start_player,
            final(self).phase == old(self).phase,
            final(self).current_player == old(self).current_player,
            final(self).table == old(self).table,
            final(self).is_card == old(self).is_card,
            final(self).votes == old(self).votes,
            final(self).players@.len() == 5,
            forall|i: int|
                0 <= i < 5 ==> {
                    let p = #[trigger] final(self).players@[i];
                    let q = old(self).players@[i];
                    &&& p.id == q.id
                    &&& p.is_first == q.is_first
                    &&& p.score == q.score
                    &&& p.prediction == q.prediction
                    &&& p.has_predicted == q.has_predicted
                    &&& p.has_played == q.has_played
                    &&& p.posterior_prediction == q.posterior_prediction
                    &&& p.hand@.len() == 5
                    &&& small_tier(p.hand@[0])
                    &&& small_tier(p.hand@[1])
                    &&& big_tier(p.hand@[2])
                    &&& big_tier(p.hand@[3])
                    &&& spade_tier(p.hand@[4])
                },
            forall|i1: int, j1: int, i2: int, j2: int|
                0 <= i1 < 5 && 0 <= j1 < 5 && 0 <= i2 < 5 && 0 <= j2 < 5 && (i1 != i2 || j1
                    != j2) ==> #[trigger] final(self).players@[i1].hand@[j1]
                    != #[trigger] final(self).players@[i2].hand@[j2],
            events@.len() == 5,
            forall|i: int|
                0 <= i < 5 ==> ((#[trigger] events@[i]) matches Event::CardsDealt {
                    player_id,
                    cards,
                } && player_id == i && cards@ == final(self).players@[i].hand@),
    {
        let mut rng = new_rng();

        let mut small: Vec<Card> = Vec::new();
        push_suit_run(&mut small, Suit::Heart, 1, 7);
        push_suit_run(&mut small, Suit::Club, 1, 7);
        push_suit_run(&mut small, Suit::Diamond, 1, 7);

        let mut big: Vec<Card> = Vec::new();
        push_suit_run(&mut big, Suit::Heart, 8, 13);
        push_suit_run(&mut big, Suit::Club, 8, 13);
        push_suit_run(&mut big, Suit::Diamond, 8, 13);

        let mut spades: Vec<Card> = Vec::new();
        push_suit_run(&mut spades, Suit::Spade, 1, 13);

        assert(forall|j: int| 0 <= j < small@.len() ==> small_tier(#[trigger] small@[j]));
        assert(forall|j: int| 0 <= j < big@.len() ==> big_tier(#[trigger] big@[j]));
        assert(forall|j: int| 0 <= j < spades@.len() ==> spade_tier(#[trigger] spades@[j]));

        let ghost pre_small = small@;
        let ghost pre_big = big@;
        let ghost pre_spades = spades@;
        proof {
            assert forall|j1: int, j2: int|
                0 <= j1 < pre_small.len() && 0 <= j2 < pre_small.len() && j1 != j2 implies
                pre_small[j1] != pre_small[j2] by {
                assert(pre_small[j1].rank.spec_value() != pre_small[j2].rank.spec_value()
                    || pre_small[j1].suit != pre_small[j2].suit);
            }
            assert(pre_small.no_duplicates());
            assert forall|j1: int, j2: int|
                0 <= j1 < pre_big.len() && 0 <= j2 < pre_big.len() && j1 != j2 implies
                pre_big[j1] != pre_big[j2] by {
                assert(pre_big[j1].rank.spec_value() != pre_big[j2].rank.spec_value()
                    || pre_big[j1].suit != pre_big[j2].suit);
            }
            assert(pre_big.no_duplicates());
            assert forall|j1: int, j2: int|
                0 <= j1 < pre_spades.len() && 0 <= j2 < pre_spades.len() && j1 != j2 implies
                pre_spades[j1] != pre_spades[j2] by {
                assert(pre_spades[j1].rank.spec_value() != pre_spades[j2].rank.spec_value());
            }
            assert(pre_spades.no_duplicates());
        }
        shuffle_cards(&mut small, &mut rng);
        shuffle_cards(&mut big, &mut rng);
        shuffle_cards(&mut spades, &mut rng);
        let ghost sh_small = small@;
        let ghost sh_big = big@;
        let ghost sh_spades = spades@;
        proof {
            broadcast use vstd::seq_lib::group_to_multiset_ensures;

            lemma_shuffle_keeps_tier(pre_small, small@, |c: Card| small_tier(c));
            lemma_shuffle_keeps_tier(pre_big, big@, |c: Card| big_tier(c));
            lemma_shuffle_keeps_tier(pre_spades, spades@, |c: Card| spade_tier(c));
            lemma_shuffle_keeps_no_duplicates(pre_small, sh_small);
            lemma_shuffle_keeps_no_duplicates(pre_big, sh_big);
            lemma_shuffle_keeps_no_duplicates(pre_spades, sh_spades);
            assert(small@ =~= sh_small.take(21 - 2 * 0));
            assert(big@ =~= sh_big.take(18 - 2 * 0));
            assert(spades@ =~= sh_spades.take(13 - 0));
        }

        let mut events: Vec<Event> = Vec::new();
        let mut i: usize = 0;
        while i < 5
            invariant
                0 <= i <= 5,
                sh_small.len() == 21 && sh_big.len() == 18 && sh_spades.len() == 13,
                small@ == sh_small.take(21 - 2 * i),
                big@ == sh_big.take(18 - 2 * i),
                spades@ == sh_spades.take(13 - i),
                small@.len() == 21 - 2 * i,
                big@.len() == 18 - 2 * i,
                spades@.len() == 13 - i,
                forall|t: int|
                    0 <= t < i ==> {
                        let h = (#[trigger] self.players@[t]).hand@;
                        &&& h[0] == sh_small[20 - 2 * t]
                        &&& h[1] == sh_small[19 - 2 * t]
                        &&& h[2] == sh_big[17 - 2 * t]
                        &&& h[3] == sh_big[16 - 2 * t]
                        &&& h[4] == sh_spades[12 - t]
                    },
                forall|j: int| 0 <= j < small@.len() ==> small_tier(#[trigger] small@[j]),
                forall|j: int| 0 <= j < big@.len() ==> big_tier(#[trigger] big@[j]),
                forall|j: int| 0 <= j < spades@.len() ==> spade_tier(#[trigger] spades@[j]),
                self.players@.len() == 5,
                self.round == old(self).round,
                self.start_player == old(self).start_player,
                self.phase == old(self).phase,
                self.current_player == old(self).current_player,
                self.table == old(self).table,
                self.is_card == old(self).is_card,
                self.votes == old(self).votes,
                forall|t: int| i <= t < 5 ==> self.players@[t] == old(self).players@[t],
                forall|t: int|
                    0 <= t < i ==> {
                        let p = #[trigger] self.players@[t];
                        let q = old(self).players@[t];
                        &&& p.id == q.id
                        &&& p.is_first == q.is_first
                        &&& p.score == q.score
                        &&& p.prediction == q.prediction
                        &&& p.has_predicted == q.has_predicted
                        &&& p.has_played == q.has_played
                        &&& p.posterior_prediction == q.posterior_prediction
                        &&& p.hand@.len() == 5
                        &&& small_tier(p.hand@[0])
                        &&& small_tier(p.hand@[1])
                        &&& big_tier(p.hand@[2])
                        &&& big_tier(p.hand@[3])
                        &&& spade_tier(p.hand@[4])
                    },
                events@.len() == i,
                forall|t: int|
                    0 <= t < i ==> ((#[trigger] events@[t]) matches Event::CardsDealt {
                        player_id,
                        cards,
                    } && player_id == t && cards@ == self.players@[t].hand@),
            decreases 5 - i,
        {
            let c1 = small.pop().unwrap();
            let c2 = small.pop().unwrap();
            let b1 = big.pop().unwrap();
            let b2 = big.pop().unwrap();
            let s1 = spades.pop().unwrap();
            proof {
                assert(small@ =~= sh_small.take(21 - 2 * (i + 1)));
                assert(big@ =~= sh_big.take(18 - 2 * (i + 1)));
                assert(spades@ =~= sh_spades.take(13 - (i + 1)));
                assert(c1 == sh_small[20 - 2 * i as int]);
                assert(c2 == sh_small[19 - 2 * i as int]);
                assert(b1 == sh_big[17 - 2 * i as int]);
                assert(b2 == sh_big[16 - 2 * i as int]);
                assert(s1 == sh_spades[12 - i as int]);
            }

            let mut hand: Vec<Card> = Vec::new();
            hand.push(c1);
            hand.push(c2);
            hand.push(b1);
            hand.push(b2);
            hand.push(s1);

            let mut cards: Vec<Card> = Vec::new();
            cards.push(c1);
            cards.push(c2);
            cards.push(b1);
            cards.push(b2);
            cards.push(s1);

            let p = &mut self.players[i];
            p.hand = hand;

            events.push(Event::CardsDealt { player_id: i, cards });
            i += 1;
        }
        proof {
            assert forall|i1: int, j1: int, i2: int, j2: int|
                0 <= i1 < 5 && 0 <= j1 < 5 && 0 <= i2 < 5 && 0 <= j2 < 5 && (i1 != i2 || j1
                    != j2) implies #[trigger] self.players@[i1].hand@[j1] != #[trigger] self.players@[i2].hand@[j2] by {
                let a = self.players@[i1].hand@[j1];
                let b = self.players@[i2].hand@[j2];
                if j1 < 2 && j2 < 2 {
                    assert(a == sh_small[20 - 2 * i1 - j1]);
                    assert(b == sh_small[20 - 2 * i2 - j2]);
                } else if 2 <= j1 < 4 && 2 <= j2 < 4 {
                    assert(a == sh_big[19 - 2 * i1 - j1]);
                    assert(b == sh_big[19 - 2 * i2 - j2]);
                } else if j1 == 4 && j2 == 4 {
                    assert(a == sh_spades[12 - i1]);
                    assert(b == sh_spades[12 - i2]);
                } else {
                    assert(j1 < 2 ==> small_tier(a));
                    assert(2 <= j1 < 4 ==> big_tier(a));
                    assert(j1 == 4 ==> spade_tier(a));
                    assert(j2 < 2 ==> small_tier(b));
                    assert(2 <= j2 < 4 ==> big_tier(b));
                    assert(j2 == 4 ==> spade_tier(b));
                }
            }
        }
        events
    }
}

} // verus!
