//! Chance and Community Chest: the two decks, what each card does, and applying
//! a drawn card to the current player.

use vstd::prelude::*;

use std::collections::VecDeque;

use super::{billed, bills_paid, bills_payable, pending_ran, credit, deck_ok, index_list_ok, jailed, landing_result, lemma_wf_kept, moved, player_ok, space_ok,
    Game, InfoBox, Modal, Pending, BOARD_LEN, GO_SALARY, ROOM};
use super::debt::{credit_each, settled, Payee};
use super::rent::{is_kind, Kind, RentRule};
use super::tally::{active_count, lemma_active_update, lemma_total_ge, lemma_total_update, total_money};
use crate::player::Player;
use crate::space::{Space, HOTEL};
use crate::random::random_range_inclusive;
use crate::ui::dice::Clip;
use super::note::Note;

verus! {

/// What drawing a card does to the current player.
#[derive(Debug, Clone, Copy, PartialEq, Eq, Structural)]
pub enum CardEffect {
    /// Receive money from the bank.
    Collect(u32),
    /// Pay money to the bank.
    Pay(u32),
    /// Collect this much from every other player still in the game.
    CollectEach(u32),
    /// Pay this much to every other player still in the game.
    PayEach(u32),
    /// Advance forward to an absolute board index, collecting GO if wrapping.
    AdvanceTo(usize),
    /// Advance to the next railroad and pay twice its usual rent.
    NearestRailroad,
    /// Advance to the next utility and pay ten times a fresh roll.
    NearestUtility,
    /// Move back this many spaces (never collects GO).
    Back(usize),
    /// Go directly to Jail.
    GoToJail,
    /// Keep a Get Out of Jail Free card.
    GetOutFree,
    /// Pay the bank per house and per hotel you own.
    Repairs { per_house: u32, per_hotel: u32 },
}

/// Amounts and targets small enough for the rules to apply them.
pub open spec fn effect_ok(e: CardEffect) -> bool {
    match e {
        CardEffect::Collect(n) => n <= 200,
        CardEffect::CollectEach(n) => n <= 1000,
        CardEffect::PayEach(n) => n <= 1000,
        CardEffect::AdvanceTo(d) => d < BOARD_LEN,
        CardEffect::Back(n) => n < BOARD_LEN,
        CardEffect::Repairs { per_house, per_hotel } => per_house <= 1000 && per_hotel <= 1000,
        _ => true,
    }
}

/// One card: which deck title to show, its flavor text, and its effect.
#[derive(Debug, Clone, Copy)]
pub struct Card {
    pub title: &'static str,
    pub text: &'static str,
    pub effect: CardEffect,
}

/// Which deck to draw from.
#[derive(Debug, Clone, Copy, PartialEq, Eq, Structural)]
pub enum Deck {
    Chance,
    Chest,
}

/// A drawn card's animation playing in the center; its effect runs once the
/// animation settles (or is skipped).
#[derive(Debug, Clone, Copy)]
pub struct CardDraw {
    pub clip: Clip,
    pub card: Card,
}

pub const CHANCE_TITLE: &'static str = " Chance ";
pub const CHEST_TITLE: &'static str = " Community Chest ";

} // verus!

verus! {

/// A pile after its top card is drawn and recycled to the bottom.
pub open spec fn cycled(d: Seq<Card>) -> Seq<Card> {
    if d.len() == 0 {
        d
    } else {
        d.subrange(1, d.len() as int).push(d[0])
    }
}

/// Draw the top card and recycle it to the bottom; `None` for an empty pile.
pub fn cycle_top(pile: &mut VecDeque<Card>) -> (c: Option<Card>)
    ensures
        final(pile)@ == cycled(old(pile)@),
        old(pile)@.len() == 0 ==> c is None,
        old(pile)@.len() > 0 ==> c == Some(old(pile)@[0]),
{
    let card = pile.pop_front();
    match card {
        Some(c) => {
            pile.push_back(c);
            Some(c)
        },
        None => None,
    }
}

/// The top card of `deck` drawn and recycled to the bottom, its animation
/// started, between the game `o` before and `f` after.
pub open spec fn card_drawn(o: Game, f: Game, deck: Deck) -> bool {
    &&& f.stock_kept(&o)
    &&& f.players@ == o.players@
    &&& f.board@ == o.board@
    &&& f.pending@ == o.pending@
    &&& f.same_rest_but_decks_and_modal(&o)
    &&& deck == Deck::Chance ==> f.chance@ == cycled(o.chance@) && f.chest@
        == o.chest@
    &&& deck == Deck::Chest ==> f.chest@ == cycled(o.chest@) && f.chance@
        == o.chance@
    &&& ({
        let pile = if deck == Deck::Chance {
            o.chance@
        } else {
            o.chest@
        };
        &&& pile.len() == 0 ==> f.modal == o.modal && f.notes@ == o.notes@
        &&& pile.len() > 0 ==> f.modal == Modal::Card(
            CardDraw { clip: Clip::new_spec(), card: pile[0] },
        ) && f.notes@ == o.notes@.push(Note::DrewCard { who: o.current })
    })
}

impl Game {
    /// Draw the top card of a deck (recycling it to the bottom) and start its
    /// animation. The effect is applied once the animation settles.
    pub fn draw_card(&mut self, deck: Deck)
        requires
            old(self).wf(),
        ensures
            final(self).wf(),
            card_drawn(*old(self), *final(self), deck),
    {
        let drawn = match deck {
            Deck::Chance => cycle_top(&mut self.chance),
            Deck::Chest => cycle_top(&mut self.chest),
        };
        if let Some(card) = drawn {
            proof {
                let pile = if deck == Deck::Chance {
                    old(self).chance@
                } else {
                    old(self).chest@
                };
                assert(effect_ok(pile[0].effect));
                assert(deck_ok(self.chance@)) by {
                    assert forall|i: int| 0 <= i < self.chance@.len() implies effect_ok(#[trigger] self.chance@[i].effect) by {
                        if deck == Deck::Chance && i < self.chance@.len() - 1 {
                            assert(self.chance@[i] == old(self).chance@[i + 1]);
                        }
                    }
                }
                assert(deck_ok(self.chest@)) by {
                    assert forall|i: int| 0 <= i < self.chest@.len() implies effect_ok(#[trigger] self.chest@[i].effect) by {
                        if deck == Deck::Chest && i < self.chest@.len() - 1 {
                            assert(self.chest@[i] == old(self).chest@[i + 1]);
                        }
                    }
                }
            }
            self.modal = Modal::Card(CardDraw { clip: Clip::new(), card });
            self.note(Note::DrewCard { who: self.current });
        }
    }
}

} // verus!

verus! {

/// `c` is a card of the deck titled `title`, reading `text`, doing `effect`.
pub open spec fn is_card(c: Card, title: Seq<char>, text: Seq<char>, effect: CardEffect) -> bool {
    c.title@ == title && c.text@ == text && c.effect == effect
}

/// The Chance deck in printed order.
pub open spec fn is_chance_deck(d: Seq<Card>) -> bool {
    let t = CHANCE_TITLE@;
    &&& d.len() == 16
    &&& is_card(d[0], t, "Advance to GO (collect $200)"@, CardEffect::AdvanceTo(0))
    &&& is_card(d[1], t, "Advance to Illinois Ave"@, CardEffect::AdvanceTo(24))
    &&& is_card(d[2], t, "Advance to St. Charles Place"@, CardEffect::AdvanceTo(11))
    &&& is_card(d[3], t, "Advance to Reading Railroad"@, CardEffect::AdvanceTo(5))
    &&& is_card(d[4], t, "Take a walk on the Boardwalk"@, CardEffect::AdvanceTo(39))
    &&& is_card(d[5], t, "Advance to the nearest Railroad \u{2014} pay double rent"@, CardEffect::NearestRailroad)
    &&& is_card(d[6], t, "Advance to the nearest Railroad \u{2014} pay double rent"@, CardEffect::NearestRailroad)
    &&& is_card(d[7], t, "Advance to the nearest Utility \u{2014} pay 10x your roll"@, CardEffect::NearestUtility)
    &&& is_card(d[8], t, "Bank pays you a dividend of $50"@, CardEffect::Collect(50))
    &&& is_card(d[9], t, "Get Out of Jail Free"@, CardEffect::GetOutFree)
    &&& is_card(d[10], t, "Go back 3 spaces"@, CardEffect::Back(3))
    &&& is_card(d[11], t, "Go directly to Jail"@, CardEffect::GoToJail)
    &&& is_card(d[12], t, "Make general repairs: $25/house, $100/hotel"@, CardEffect::Repairs { per_house: 25, per_hotel: 100 })
    &&& is_card(d[13], t, "Speeding fine \u{2014} pay $15"@, CardEffect::Pay(15))
    &&& is_card(d[14], t, "Chairman of the Board \u{2014} pay each player $50"@, CardEffect::PayEach(50))
    &&& is_card(d[15], t, "Your building loan matures \u{2014} collect $150"@, CardEffect::Collect(150))
}

/// The Community Chest deck in printed order.
pub open spec fn is_chest_deck(d: Seq<Card>) -> bool {
    let t = CHEST_TITLE@;
    &&& d.len() == 17
    &&& is_card(d[0], t, "Advance to GO (collect $200)"@, CardEffect::AdvanceTo(0))
    &&& is_card(d[1], t, "Bank error in your favor \u{2014} collect $200"@, CardEffect::Collect(200))
    &&& is_card(d[2], t, "Doctor's fee \u{2014} pay $50"@, CardEffect::Pay(50))
    &&& is_card(d[3], t, "From sale of stock you get $50"@, CardEffect::Collect(50))
    &&& is_card(d[4], t, "Get Out of Jail Free"@, CardEffect::GetOutFree)
    &&& is_card(d[5], t, "Go directly to Jail"@, CardEffect::GoToJail)
    &&& is_card(d[6], t, "Grand Opera Night \u{2014} collect $50 from every player"@, CardEffect::CollectEach(50))
    &&& is_card(d[7], t, "Holiday fund matures \u{2014} collect $100"@, CardEffect::Collect(100))
    &&& is_card(d[8], t, "Income tax refund \u{2014} collect $20"@, CardEffect::Collect(20))
    &&& is_card(d[9], t, "It's your birthday \u{2014} collect $10 from each player"@, CardEffect::CollectEach(10))
    &&& is_card(d[10], t, "Life insurance matures \u{2014} collect $100"@, CardEffect::Collect(100))
    &&& is_card(d[11], t, "Pay hospital fees of $100"@, CardEffect::Pay(100))
    &&& is_card(d[12], t, "Pay school fees of $50"@, CardEffect::Pay(50))
    &&& is_card(d[13], t, "Receive $25 consultancy fee"@, CardEffect::Collect(25))
    &&& is_card(d[14], t, "Street repairs: $40/house, $115/hotel"@, CardEffect::Repairs { per_house: 40, per_hotel: 115 })
    &&& is_card(d[15], t, "Second prize in a beauty contest \u{2014} collect $10"@, CardEffect::Collect(10))
    &&& is_card(d[16], t, "You inherit $100"@, CardEffect::Collect(100))
}

/// The Chance deck, in printed order (the game shuffles it).
pub fn chance_deck() -> (v: Vec<Card>)
    ensures
        is_chance_deck(v@),
        deck_ok(v@),
{
    let t = CHANCE_TITLE;
    let v = vec![
        Card { title: t, text: "Advance to GO (collect $200)", effect: CardEffect::AdvanceTo(0) },
        Card { title: t, text: "Advance to Illinois Ave", effect: CardEffect::AdvanceTo(24) },
        Card { title: t, text: "Advance to St. Charles Place", effect: CardEffect::AdvanceTo(11) },
        Card { title: t, text: "Advance to Reading Railroad", effect: CardEffect::AdvanceTo(5) },
        Card { title: t, text: "Take a walk on the Boardwalk", effect: CardEffect::AdvanceTo(39) },
        Card { title: t, text: "Advance to the nearest Railroad \u{2014} pay double rent", effect: CardEffect::NearestRailroad },
        Card { title: t, text: "Advance to the nearest Railroad \u{2014} pay double rent", effect: CardEffect::NearestRailroad },
        Card { title: t, text: "Advance to the nearest Utility \u{2014} pay 10x your roll", effect: CardEffect::NearestUtility },
        Card { title: t, text: "Bank pays you a dividend of $50", effect: CardEffect::Collect(50) },
        Card { title: t, text: "Get Out of Jail Free", effect: CardEffect::GetOutFree },
        Card { title: t, text: "Go back 3 spaces", effect: CardEffect::Back(3) },
        Card { title: t, text: "Go directly to Jail", effect: CardEffect::GoToJail },
        Card {
            title: t,
            text: "Make general repairs: $25/house, $100/hotel",
            effect: CardEffect::Repairs { per_house: 25, per_hotel: 100 },
        },
        Card { title: t, text: "Speeding fine \u{2014} pay $15", effect: CardEffect::Pay(15) },
        Card { title: t, text: "Chairman of the Board \u{2014} pay each player $50", effect: CardEffect::PayEach(50) },
        Card { title: t, text: "Your building loan matures \u{2014} collect $150", effect: CardEffect::Collect(150) },
    ];
    v
}

/// The Community Chest deck, in printed order (the game shuffles it).
pub fn chest_deck() -> (v: Vec<Card>)
    ensures
        is_chest_deck(v@),
        deck_ok(v@),
{
    let t = CHEST_TITLE;
    let v = vec![
        Card { title: t, text: "Advance to GO (collect $200)", effect: CardEffect::AdvanceTo(0) },
        Card { title: t, text: "Bank error in your favor \u{2014} collect $200", effect: CardEffect::Collect(200) },
        Card { title: t, text: "Doctor's fee \u{2014} pay $50", effect: CardEffect::Pay(50) },
        Card { title: t, text: "From sale of stock you get $50", effect: CardEffect::Collect(50) },
        Card { title: t, text: "Get Out of Jail Free", effect: CardEffect::GetOutFree },
        Card { title: t, text: "Go directly to Jail", effect: CardEffect::GoToJail },
        Card { title: t, text: "Grand Opera Night \u{2014} collect $50 from every player", effect: CardEffect::CollectEach(50) },
        Card { title: t, text: "Holiday fund matures \u{2014} collect $100", effect: CardEffect::Collect(100) },
        Card { title: t, text: "Income tax refund \u{2014} collect $20", effect: CardEffect::Collect(20) },
        Card { title: t, text: "It's your birthday \u{2014} collect $10 from each player", effect: CardEffect::CollectEach(10) },
        Card { title: t, text: "Life insurance matures \u{2014} collect $100", effect: CardEffect::Collect(100) },
        Card { title: t, text: "Pay hospital fees of $100", effect: CardEffect::Pay(100) },
        Card { title: t, text: "Pay school fees of $50", effect: CardEffect::Pay(50) },
        Card { title: t, text: "Receive $25 consultancy fee", effect: CardEffect::Collect(25) },
        Card {
            title: t,
            text: "Street repairs: $40/house, $115/hotel",
            effect: CardEffect::Repairs { per_house: 40, per_hotel: 115 },
        },
        Card { title: t, text: "Second prize in a beauty contest \u{2014} collect $10", effect: CardEffect::Collect(10) },
        Card { title: t, text: "You inherit $100", effect: CardEffect::Collect(100) },
    ];
    v
}

} // verus!

verus! {

proof fn lemma_swap_multiset(s: Seq<Card>, i: int, j: int)
    requires
        0 <= i < s.len(),
        0 <= j < s.len(),
    ensures
        s.update(i, s[j]).update(j, s[i]).to_multiset() == s.to_multiset(),
        s.update(i, s[j]).update(j, s[i]).len() == s.len(),
{
    broadcast use vstd::seq_lib::to_multiset_update, vstd::multiset::group_multiset_axioms;

    let t = s.update(i, s[j]);
    assert(t.to_multiset() == s.to_multiset().insert(s[j]).remove(s[i]));
    assert(t.update(j, s[i]).to_multiset() == t.to_multiset().insert(s[i]).remove(t[j]));
    if i == j {
        assert(s.update(i, s[j]).update(j, s[i]) =~= s);
    } else {
        assert(t[j] == s[j]);
        let m = s.to_multiset();
        vstd::seq_lib::to_multiset_contains(s, s[i]);
        assert(s.contains(s[i]));
        assert(m.count(s[i]) > 0);
        let r = m.insert(s[j]).remove(s[i]).insert(s[i]).remove(s[j]);
        assert forall|v: Card| #[trigger] r.count(v) == m.count(v) by {}
        assert(r =~= m);
    }
}

/// Shuffle a deck into a draw pile (Fisher-Yates with the thread-local
/// generator): the pile holds exactly the cards it was given.
pub fn shuffled(cards: Vec<Card>) -> (pile: VecDeque<Card>)
    ensures
        pile@.to_multiset() == cards@.to_multiset(),
        pile@.len() == cards@.len(),
{
    let mut cards = cards;
    let ghost orig = cards@;
    let mut i: usize = cards.len();
    while i > 1
        invariant
            i <= cards@.len(),
            cards@.len() == orig.len(),
            cards@.to_multiset() == orig.to_multiset(),
        decreases i,
    {
        i = i - 1;
        let j = random_range_inclusive(0, i);
        let a = cards[i];
        let b = cards[j];
        proof {
            lemma_swap_multiset(cards@, i as int, j as int);
        }
        cards.set(i, b);
        cards.set(j, a);
    }
    let mut pile: VecDeque<Card> = VecDeque::new();
    let mut k: usize = 0;
    while k < cards.len()
        invariant
            k <= cards@.len(),
            pile@ == cards@.take(k as int),
        decreases cards@.len() - k,
    {
        pile.push_back(cards[k]);
        proof {
            assert(cards@.take(k + 1) =~= cards@.take(k as int).push(cards@[k as int]));
        }
        k = k + 1;
    }
    proof {
        assert(cards@.take(cards@.len() as int) =~= cards@);
    }
    pile
}

/// Two freshly shuffled draw piles: the whole Chance deck and the whole
/// Community Chest deck.
pub fn fresh_decks() -> (decks: (VecDeque<Card>, VecDeque<Card>))
    ensures
        exists|d: Seq<Card>| is_chance_deck(d) && decks.0@.to_multiset() == #[trigger] d.to_multiset(),
        exists|d: Seq<Card>| is_chest_deck(d) && decks.1@.to_multiset() == #[trigger] d.to_multiset(),
        decks.0@.len() == 16,
        decks.1@.len() == 17,
        deck_ok(decks.0@),
        deck_ok(decks.1@),
{
    let chance = chance_deck();
    let chest = chest_deck();
    let ghost c0 = chance@;
    let ghost c1 = chest@;
    let a = shuffled(chance);
    let b = shuffled(chest);
    proof {
        lemma_multiset_deck_ok(c0, a@);
        lemma_multiset_deck_ok(c1, b@);
    }
    (a, b)
}

/// A pile holding the same cards as a sound deck is sound.
proof fn lemma_multiset_deck_ok(d: Seq<Card>, p: Seq<Card>)
    requires
        deck_ok(d),
        p.to_multiset() == d.to_multiset(),
    ensures
        deck_ok(p),
{
    broadcast use vstd::seq_lib::group_to_multiset_ensures;

    assert forall|i: int| 0 <= i < p.len() implies effect_ok(#[trigger] p[i].effect) by {
        assert(p.to_multiset().count(p[i]) > 0);
        assert(d.contains(p[i]));
    }
}

} // verus!

verus! {

/// Squares forward from `pos` to the first space of `kind`, searching from `n`
/// squares ahead up to one lap; 0 when there is none.
pub open spec fn steps_from(b: Seq<Space>, pos: int, kind: Kind, n: int) -> int
    decreases BOARD_LEN + 1 - n,
{
    if n < 1 || n > BOARD_LEN {
        0
    } else if is_kind(b[(pos + n) % (BOARD_LEN as int)], kind) {
        n
    } else {
        steps_from(b, pos, kind, n + 1)
    }
}

/// The seats among the first `n` still in the game, other than `me`, in seating order.
pub open spec fn rivals_upto(s: Seq<Player>, me: usize, n: int) -> Seq<usize>
    decreases n,
{
    if n <= 0 {
        Seq::empty()
    } else if !s[n - 1].bankrupt && n - 1 != me {
        rivals_upto(s, me, n - 1).push((n - 1) as usize)
    } else {
        rivals_upto(s, me, n - 1)
    }
}

/// A bill of `amount` from each listed seat, payable to `me`.
pub open spec fn collections(v: Seq<usize>, me: usize, amount: u32) -> Seq<Pending> {
    Seq::new(v.len(), |i: int| Pending::Charge { who: v[i], amount, payee: Payee::Player(me) })
}

/// Houses (not hotels) on the streets among the first `n` squares that `who` holds.
pub open spec fn houses_held(b: Seq<Space>, who: usize, n: int) -> int
    decreases n,
{
    if n <= 0 {
        0
    } else {
        houses_held(b, who, n - 1) + if b[n - 1].owner_spec() == Some(who) && b[n - 1].houses_spec() != HOTEL {
            b[n - 1].houses_spec() as int
        } else {
            0
        }
    }
}

/// Hotels on the streets among the first `n` squares that `who` holds.
pub open spec fn hotels_held(b: Seq<Space>, who: usize, n: int) -> int
    decreases n,
{
    if n <= 0 {
        0
    } else {
        hotels_held(b, who, n - 1) + if b[n - 1].owner_spec() == Some(who) && b[n - 1].houses_spec() == HOTEL {
            1int
        } else {
            0
        }
    }
}

/// Every rival listed is a seat other than `me` below `n`.
pub proof fn lemma_rivals(s: Seq<Player>, me: usize, n: int)
    requires
        0 <= n <= s.len(),
        n <= usize::MAX,
    ensures
        index_list_ok(rivals_upto(s, me, n), n),
        rivals_upto(s, me, n).len() <= n,
        forall|k: int| 0 <= k < rivals_upto(s, me, n).len() ==> #[trigger] rivals_upto(s, me, n)[k] != me,
        forall|k: int| 0 <= k < rivals_upto(s, me, n).len() ==> !s[#[trigger] rivals_upto(s, me, n)[k] as int].bankrupt,
        forall|a: int, c: int|
            0 <= a < c < rivals_upto(s, me, n).len() ==> #[trigger] rivals_upto(s, me, n)[a]
                < #[trigger] rivals_upto(s, me, n)[c],
        forall|i: int| 0 <= i < n && !s[i].bankrupt && i != me ==> rivals_upto(s, me, n).contains(i as usize),
    decreases n,
{
    if n > 0 {
        lemma_rivals(s, me, n - 1);
        let prev = rivals_upto(s, me, n - 1);
        if !s[n - 1].bankrupt && n - 1 != me {
            let cur = rivals_upto(s, me, n);
            assert forall|a: int, c: int| 0 <= a < c < cur.len() implies #[trigger] cur[a] < #[trigger] cur[c] by {
                if c == prev.len() {
                    assert(prev[a] < n - 1);
                } else {
                    assert(prev[a] < prev[c]);
                }
            }
            assert forall|i: int| 0 <= i < n && !s[i].bankrupt && i != me implies cur.contains(i as usize) by {
                if i < n - 1 {
                    let k = choose|k: int| 0 <= k < prev.len() && prev[k] == i as usize;
                    assert(cur[k] == i as usize);
                } else {
                    assert(cur[prev.len() as int] == i as usize);
                }
            }
        }
    }
}

proof fn lemma_held_bounds(b: Seq<Space>, who: usize, n: int)
    requires
        0 <= n <= b.len(),
        forall|i: int| 0 <= i < b.len() ==> space_ok(#[trigger] b[i]),
    ensures
        0 <= houses_held(b, who, n) <= 4 * n,
        0 <= hotels_held(b, who, n) <= n,
    decreases n,
{
    if n > 0 {
        lemma_held_bounds(b, who, n - 1);
        assert(space_ok(b[n - 1]));
    }
}

/// A player whose own squares carry no building holds no house and no hotel,
/// so a repairs card bills them nothing, whatever stands on other players'
/// streets.
pub proof fn lemma_no_buildings_of_ones_own_no_repairs(b: Seq<Space>, who: usize, n: int)
    requires
        0 <= n <= b.len(),
        forall|i: int| 0 <= i < b.len() && #[trigger] b[i].owner_spec() == Some(who) ==> b[i].houses_spec() == 0,
    ensures
        houses_held(b, who, n) == 0,
        hotels_held(b, who, n) == 0,
    decreases n,
{
    if n > 0 {
        lemma_no_buildings_of_ones_own_no_repairs(b, who, n - 1);
        assert(b[n - 1].owner_spec() == Some(who) ==> b[n - 1].houses_spec() == 0);
    }
}

/// Buildings on a square `who` does not own never count toward their repairs:
/// changing one such square (its buildings, or which other player holds it)
/// leaves their house and hotel counts as they were.
pub proof fn lemma_others_buildings_do_not_count(b: Seq<Space>, b2: Seq<Space>, who: usize, j: int, n: int)
    requires
        0 <= n <= b.len(),
        b2.len() == b.len(),
        0 <= j < b.len(),
        forall|i: int| 0 <= i < b.len() && i != j ==> b2[i] == b[i],
        b[j].owner_spec() != Some(who),
        b2[j].owner_spec() != Some(who),
    ensures
        houses_held(b2, who, n) == houses_held(b, who, n),
        hotels_held(b2, who, n) == hotels_held(b, who, n),
    decreases n,
{
    if n > 0 {
        lemma_others_buildings_do_not_count(b, b2, who, j, n - 1);
    }
}

/// One more house on a street `who` holds (short of a hotel) adds exactly one
/// to their house count and leaves their hotel count alone.
pub proof fn lemma_own_buildings_count(b: Seq<Space>, b2: Seq<Space>, who: usize, j: int, n: int)
    requires
        0 <= n <= b.len(),
        b2.len() == b.len(),
        0 <= j < n,
        forall|i: int| 0 <= i < b.len() && i != j ==> b2[i] == b[i],
        b[j].owner_spec() == Some(who),
        b2[j].owner_spec() == Some(who),
        b[j].houses_spec() < 4,
        b2[j].houses_spec() == b[j].houses_spec() + 1,
    ensures
        houses_held(b2, who, n) == houses_held(b, who, n) + 1,
        hotels_held(b2, who, n) == hotels_held(b, who, n),
    decreases n,
{
    if n > j + 1 {
        lemma_own_buildings_count(b, b2, who, j, n - 1);
    } else {
        lemma_others_eq_prefix(b, b2, who, j);
    }
}

/// The first `j` squares are the same on both boards, so are the counts there.
proof fn lemma_others_eq_prefix(b: Seq<Space>, b2: Seq<Space>, who: usize, j: int)
    requires
        0 <= j < b.len(),
        b2.len() == b.len(),
        forall|i: int| 0 <= i < j ==> b2[i] == b[i],
    ensures
        houses_held(b2, who, j) == houses_held(b, who, j),
        hotels_held(b2, who, j) == hotels_held(b, who, j),
    decreases j,
{
    if j > 0 {
        lemma_others_eq_prefix(b, b2, who, j - 1);
    }
}

impl Game {
    /// Squares forward from `who`'s square to the next space of `kind`. Counts
    /// from the next square, so "nearest" never means "stay put".
    pub fn steps_to(&self, who: usize, kind: Kind) -> (n: usize)
        requires
            self.board@.len() == BOARD_LEN,
            who < self.players@.len(),
            player_ok(self.players@[who as int]),
        ensures
            n == steps_from(self.board@, self.players@[who as int].position as int, kind, 1),
            n <= BOARD_LEN,
    {
        let pos = self.players[who].position;
        let mut n: usize = 1;
        while n <= BOARD_LEN
            invariant
                1 <= n <= BOARD_LEN + 1,
                pos < BOARD_LEN,
                pos == self.players@[who as int].position,
                self.board@.len() == BOARD_LEN,
                steps_from(self.board@, pos as int, kind, 1) == steps_from(self.board@, pos as int, kind, n as int),
            decreases BOARD_LEN + 1 - n,
        {
            let hit = match (kind, &self.board[(pos + n) % BOARD_LEN]) {
                (Kind::Railroad, Space::Railroad(_)) => true,
                (Kind::Utility, Space::Utility(_)) => true,
                _ => false,
            };
            if hit {
                return n;
            }
            n = n + 1;
        }
        0
    }

    /// The seats still in the game other than `me`, in seating order.
    pub fn rivals(&self, me: usize) -> (v: Vec<usize>)
        ensures
            v@ == rivals_upto(self.players@, me, self.players@.len() as int),
    {
        let mut v: Vec<usize> = Vec::new();
        let mut i: usize = 0;
        while i < self.players.len()
            invariant
                i <= self.players@.len(),
                v@ == rivals_upto(self.players@, me, i as int),
            decreases self.players@.len() - i,
        {
            if !self.players[i].bankrupt && i != me {
                v.push(i);
            }
            i = i + 1;
        }
        v
    }

    /// The houses and the hotels on the streets `who` holds.
    pub fn buildings_of(&self, who: usize) -> (c: (u32, u32))
        requires
            self.board_ok(),
        ensures
            c.0 == houses_held(self.board@, who, BOARD_LEN as int),
            c.1 == hotels_held(self.board@, who, BOARD_LEN as int),
    {
        let mut houses: u32 = 0;
        let mut hotels: u32 = 0;
        let mut i: usize = 0;
        while i < self.board.len()
            invariant
                i <= BOARD_LEN,
                self.board_ok(),
                houses == houses_held(self.board@, who, i as int),
                hotels == hotels_held(self.board@, who, i as int),
            decreases BOARD_LEN - i,
        {
            proof {
                lemma_held_bounds(self.board@, who, i + 1);
            }
            let s = &self.board[i];
            if s.owner() == Some(who) {
                let h = s.houses();
                if h == HOTEL {
                    hotels = hotels + 1;
                } else {
                    houses = houses + h as u32;
                }
            }
            i = i + 1;
        }
        (houses, hotels)
    }
}

} // verus!

verus! {

/// What a card effect does to the current player, between the game `o`
/// before it and `f` after it.
pub open spec fn card_applied(o: Game, f: Game, effect: CardEffect) -> bool {
    let me = o.current as int;
    let s = o.players@;
    let b = o.board@;
    let pos = s[me].position as int;
    match effect {
        CardEffect::Collect(n) => f.players@ == s.update(
            me,
            Player { money: (s[me].money + n) as u32, ..s[me] },
        ) && f.board@ == b && f.modal == o.modal && f.notes@ == o.notes@.push(
            Note::Collected { who: me as usize, amount: n },
        ),
        CardEffect::Pay(n) => billed(o, f, me as usize, n, Payee::Bank),
        CardEffect::CollectEach(n) => {
            let bills = collections(rivals_upto(s, me as usize, s.len() as int), me as usize, n);
            &&& exists|g: Game|
                #[trigger] pending_ran(g, f) && g.pending@ == o.pending@ + bills && g.players@ == s && g.board@ == b
                    && g.notes@ == o.notes@.push(Note::CollectsEach { who: me as usize, amount: n })
                    && g.modal == o.modal && g.houses_left == o.houses_left && g.hotels_left == o.hotels_left
                    && g.same_rest_but_modal_and_stock(&o)
            &&& o.modal is Clear && o.pending@.len() == 0 && bills_payable(s, bills)
                ==> f.players@ == bills_paid(s, bills) && f.board@ == b
                && f.modal is Clear
        },
        CardEffect::PayEach(n) => {
            let r = rivals_upto(s, me as usize, s.len() as int);
            let owed = n * r.len();
            &&& owed > 0 && s[me].money >= owed ==> f.players@ == credit_each(
                s.update(me, Player { money: (s[me].money - owed) as u32, ..s[me] }),
                r,
                n as int,
                0,
            ) && f.board@ == b && f.modal == o.modal
            &&& 0 <= owed <= u32::MAX && exists|v: Vec<usize>|
                v@ == r && #[trigger] billed(o, f, me as usize, owed as u32, Payee::Split(v))
        },
        CardEffect::AdvanceTo(d) => {
            let steps = (d + BOARD_LEN - pos) % (BOARD_LEN as int);
            landing_result(
                o,
                moved(s, me, steps),
                me,
                (pos + steps) % (BOARD_LEN as int),
                steps,
                RentRule::Normal,
                f,
            )
        },
        CardEffect::NearestRailroad => {
            let steps = steps_from(b, pos, Kind::Railroad, 1);
            landing_result(
                o,
                moved(s, me, steps),
                me,
                (pos + steps) % (BOARD_LEN as int),
                steps,
                RentRule::DoubleRailroad,
                f,
            )
        },
        CardEffect::NearestUtility => {
            let steps = steps_from(b, pos, Kind::Utility, 1);
            exists|roll: usize|
                2 <= roll <= 12 && #[trigger] landing_result(
                    o,
                    moved(s, me, steps),
                    me,
                    (pos + steps) % (BOARD_LEN as int),
                    steps,
                    RentRule::TenTimesUtility(roll),
                    f,
                )
        },
        CardEffect::Back(n) => {
            let dest = (pos + BOARD_LEN - n) % (BOARD_LEN as int);
            landing_result(
                o,
                s.update(me, Player { position: dest as usize, ..s[me] }),
                me,
                dest,
                n as int,
                RentRule::Normal,
                f,
            )
        },
        CardEffect::GoToJail => f.players@ == jailed(s, me) && f.doubles == 0
            && f.board@ == b && f.modal == o.modal,
        CardEffect::GetOutFree => f.players@ == s.update(
            me,
            Player { get_out_free: (s[me].get_out_free + 1) as u8, ..s[me] },
        ) && f.board@ == b && f.modal == o.modal && f.notes@ == o.notes@.push(Note::KeptCard { who: me as usize }),
        CardEffect::Repairs { per_house, per_hotel } => {
            let bill = houses_held(b, me as usize, BOARD_LEN as int) * per_house + hotels_held(
                b,
                me as usize,
                BOARD_LEN as int,
            ) * per_hotel;
            &&& bill == 0 ==> f.players@ == s && f.board@ == b
                && f.modal == o.modal
            &&& bill > 0 ==> 0 < bill <= u32::MAX && billed(o, f, me as usize, bill as u32, Payee::Bank)
        },
    }
}

impl Game {
    /// Carry out a single card effect for the current player.
    #[verifier::rlimit(60)]
    pub fn apply_card(&mut self, effect: CardEffect)
        requires
            old(self).wf(),
            old(self).has_room(),
            old(self).modal_independent(),
            effect_ok(effect),
        ensures
            final(self).stock_kept(old(self)),
            final(self).done == old(self).done,
            final(self).wf(),
            total_money(final(self).players@) <= total_money(old(self).players@) + GO_SALARY,
            final(self).players@.len() == old(self).players@.len(),
            final(self).current == old(self).current,
            final(self).can_roll == old(self).can_roll,
            final(self).has_rolled == old(self).has_rolled,
            final(self).move_ready(),
            card_applied(*old(self), *final(self), effect),
    {
        let who = self.current;
        let ghost g0 = *self;
        proof {
            lemma_total_ge(self.players@, who as int);
        }
        match effect {
            CardEffect::Collect(n) => {
                credit(&mut self.players, who, n);
                proof {
                    lemma_wf_kept(&g0, self);
                }
                self.note(Note::Collected { who, amount: n });
            },
            CardEffect::Pay(n) => self.pay_bank(n),
            CardEffect::CollectEach(n) => {
                self.note(Note::CollectsEach { who, amount: n });
                let others = self.rivals(who);
                proof {
                    lemma_rivals(self.players@, who, self.players@.len() as int);
                }
                let mut k: usize = 0;
                while k < others.len()
                    invariant
                        k <= others@.len(),
                        others@ == rivals_upto(g0.players@, who, g0.players@.len() as int),
                        index_list_ok(others@, g0.players@.len() as int),
                        self.pending@ == g0.pending@ + collections(others@.take(k as int), who, n),
                        self.notes@ == g0.notes@.push(Note::CollectsEach { who, amount: n }),
                        self.players@ == g0.players@,
                        self.board@ == g0.board@,
                        self.modal == g0.modal,
                        self.houses_left == g0.houses_left,
                        self.hotels_left == g0.hotels_left,
                        self.chance@ == g0.chance@,
                        self.chest@ == g0.chest@,
                        self.current == g0.current,
                        self.doubles == g0.doubles,
                        self.can_roll == g0.can_roll,
                        self.has_rolled == g0.has_rolled,
                        self.clock == g0.clock,
                        self.done == g0.done,
                        who == g0.current,
                        g0.wf(),
                    decreases others@.len() - k,
                {
                    self.queue(Pending::Charge { who: others[k], amount: n, payee: Payee::Player(who) });
                    proof {
                        assert(collections(others@.take(k + 1), who, n) =~= collections(others@.take(k as int), who, n).push(
                            Pending::Charge { who: others@[k as int], amount: n, payee: Payee::Player(who) },
                        ));
                    }
                    k = k + 1;
                }
                proof {
                    assert(others@.take(others@.len() as int) =~= others@);
                    if g0.pending@.len() == 0 {
                        assert(self.pending@ =~= collections(others@, who, n));
                    }
                    assert(self.pending_ok()) by {
                        assert forall|i: int| 0 <= i < self.pending@.len() implies match #[trigger] self.pending@[i] {
                            Pending::Auction(pos) => pos < BOARD_LEN,
                            Pending::Charge { who, amount, payee } => who < self.players@.len() && payee.valid(
                                self.players@.len() as int,
                            ),
                        } by {
                            if i >= g0.pending@.len() {
                                let j = i - g0.pending@.len();
                                assert(self.pending@[i] == collections(others@.take(k as int), who, n)[j]);
                            } else {
                                assert(self.pending@[i] == g0.pending@[i]);
                            }
                        }
                    }
                }
                let ghost g = *self;
                self.run_pending();
                proof {
                    assert(pending_ran(g, *self));
                }
            },
            CardEffect::PayEach(n) => {
                let others = self.rivals(who);
                proof {
                    lemma_rivals(self.players@, who, self.players@.len() as int);
                }
                let count = others.len() as u32;
                proof {
                    assert(n * count <= 1000 * 4_000_000) by (nonlinear_arith)
                        requires
                            n <= 1000,
                            count <= 4_000_000,
                    ;
                }
                let owed = n * count;
                proof {
                    let r = others@;
                    if r.len() > 0 {
                        assert((n * r.len()) / (r.len() as int) == n) by {
                            vstd::arithmetic::div_mod::lemma_div_multiples_vanish(n as int, r.len() as int);
                            vstd::arithmetic::mul::lemma_mul_is_commutative(n as int, r.len() as int);
                        }
                        assert((n * r.len()) % (r.len() as int) == 0) by {
                            vstd::arithmetic::div_mod::lemma_mod_multiples_basic(n as int, r.len() as int);
                        }
                    }
                }
                self.charge(who, owed, Payee::Split(others));
            },
            CardEffect::AdvanceTo(dest) => {
                let pos = self.players[who].position;
                self.advance(who, (dest + BOARD_LEN - pos) % BOARD_LEN);
            },
            CardEffect::NearestRailroad => {
                let steps = self.steps_to(who, Kind::Railroad);
                self.advance_under(who, steps, RentRule::DoubleRailroad);
            },
            CardEffect::NearestUtility => {
                let steps = self.steps_to(who, Kind::Utility);
                let roll = random_range_inclusive(1, 6) + random_range_inclusive(1, 6);
                self.note(Note::UtilityThrow { who, roll });
                self.advance_under(who, steps, RentRule::TenTimesUtility(roll));
                proof {
                    let me = who as int;
                    let s0 = old(self).players@;
                    let pos = s0[me].position as int;
                    assert(landing_result(
                        *old(self),
                        moved(s0, me, steps as int),
                        me,
                        (pos + steps) % (BOARD_LEN as int),
                        steps as int,
                        RentRule::TenTimesUtility(roll),
                        *self,
                    ));
                }
            },
            CardEffect::Back(n) => {
                let new = (self.players[who].position + BOARD_LEN - n) % BOARD_LEN;
                let mut p = self.players[who];
                p.position = new;
                proof {
                    lemma_total_update(self.players@, who as int, p);
                    lemma_active_update(self.players@, who as int, p);
                }
                self.players.set(who, p);
                proof {
                    lemma_wf_kept(&g0, self);
                }
                self.note(Note::MovedBack { who, pos: new });
                self.resolve_landing(new, n, RentRule::Normal);
            },
            CardEffect::GoToJail => self.send_to_jail(),
            CardEffect::GetOutFree => {
                let mut p = self.players[who];
                p.get_out_free = p.get_out_free + 1;
                proof {
                    lemma_total_update(self.players@, who as int, p);
                    lemma_active_update(self.players@, who as int, p);
                }
                self.players.set(who, p);
                proof {
                    lemma_wf_kept(&g0, self);
                }
                self.note(Note::KeptCard { who });
            },
            CardEffect::Repairs { per_house, per_hotel } => {
                let (houses, hotels) = self.buildings_of(who);
                proof {
                    lemma_held_bounds(self.board@, who, BOARD_LEN as int);
                    assert(houses * per_house <= 160 * 1000) by (nonlinear_arith)
                        requires
                            houses <= 160,
                            per_house <= 1000,
                    ;
                    assert(hotels * per_hotel <= 40 * 1000) by (nonlinear_arith)
                        requires
                            hotels <= 40,
                            per_hotel <= 1000,
                    ;
                }
                let bill = houses * per_house + hotels * per_hotel;
                if bill > 0 {
                    self.pay_bank(bill);
                }
            },
        }
    }
}

/// A repairs card bills only for the drawer's own buildings: a drawer whose
/// own squares carry none keeps every dollar, the board and the screen as they
/// were, whatever stands on other players' streets.
pub proof fn lemma_repairs_spare_a_player_with_no_buildings(o: Game, f: Game, per_house: u32, per_hotel: u32)
    requires
        o.board@.len() == BOARD_LEN,
        forall|i: int|
            0 <= i < o.board@.len() && #[trigger] o.board@[i].owner_spec() == Some(o.current) ==> o.board@[i].houses_spec()
                == 0,
        card_applied(o, f, CardEffect::Repairs { per_house, per_hotel }),
    ensures
        f.players@ == o.players@,
        f.board@ == o.board@,
        f.modal == o.modal,
{
    lemma_no_buildings_of_ones_own_no_repairs(o.board@, o.current, BOARD_LEN as int);
}

} // verus!

verus! {

/// A drawn card resolved, between the game `o` before and `f` after: its effect
/// applied (see [`card_applied`]), then its text shown if nothing else came up
/// and the player is still in the game and not in jail.
pub open spec fn card_resolved(o: Game, f: Game, card: Card) -> bool {
    exists|g: Game|
        #[trigger] card_applied(o, g, card.effect) && f.players@ == g.players@ && f.board@ == g.board@
            && f.pending@ == g.pending@ && f.modal == (if !g.players@[o.current as int].bankrupt
            && !g.players@[o.current as int].in_jail && g.modal is Clear {
            Modal::Info(InfoBox::CardText(card))
        } else {
            g.modal
        })
}

impl Game {
    /// Apply a drawn card's effect, then show its text, unless the effect ended
    /// the turn in jail or bankruptcy, or chained into another popup. A card
    /// that jails the player ends their rolling for the turn.
    #[verifier::rlimit(40)]
    pub fn finish_card(&mut self, card: Card)
        requires
            old(self).wf(),
            old(self).has_room(),
            old(self).modal_independent(),
            effect_ok(card.effect),
        ensures
            final(self).stock_kept(old(self)),
            final(self).done == old(self).done,
            final(self).wf(),
            total_money(final(self).players@) <= total_money(old(self).players@) + GO_SALARY,
            final(self).players@.len() == old(self).players@.len(),
            final(self).move_ready(),
            card_resolved(*old(self), *final(self), card),
            ({
                let me = old(self).current as int;
                &&& !final(self).players@[me].bankrupt ==> final(self).current == old(self).current
                    && final(self).has_rolled == old(self).has_rolled
                &&& !final(self).players@[me].bankrupt && final(self).players@[me].in_jail ==> !final(self).can_roll
                &&& !final(self).players@[me].bankrupt && !final(self).players@[me].in_jail ==> final(self).can_roll
                    == old(self).can_roll
                &&& card.effect is GoToJail && !old(self).players@[me].bankrupt ==> final(self).players@[me].in_jail && !final(self).can_roll
                    && final(self).modal == old(self).modal
                &&& !final(self).players@[me].bankrupt && !final(self).players@[me].in_jail
                    && (old(self).modal is Clear) ==> (final(self).modal == Modal::Info(InfoBox::CardText(card))
                    || !(final(self).modal is Clear))
            }),
    {
        let who = self.current;
        self.apply_card(card.effect);
        let ghost g = *self;
        proof {
            assert(card_applied(*old(self), g, card.effect));
        }
        if self.players[who].in_jail {
            self.can_roll = false;
        }
        if self.settle_if_bankrupt(who) {
            return;
        }
        if self.players[who].in_jail {
            return;
        }
        if self.screen_clear() {
            self.modal = Modal::Info(InfoBox::CardText(card));
        }
    }
}

} // verus!

verus! {

/// A pile after `k` draws, each recycling its top card to the bottom.
pub open spec fn cycled_times(d: Seq<Card>, k: nat) -> Seq<Card>
    decreases k,
{
    if k == 0 {
        d
    } else {
        cycled(cycled_times(d, (k - 1) as nat))
    }
}

/// Drawing never changes which cards a pile holds, only their order.
pub proof fn lemma_draw_keeps_the_cards(d: Seq<Card>)
    ensures
        cycled(d).len() == d.len(),
        cycled(d).to_multiset() == d.to_multiset(),
{
    broadcast use vstd::seq_lib::group_to_multiset_ensures, vstd::multiset::group_multiset_axioms;

    if d.len() > 0 {
        let rest = d.subrange(1, d.len() as int);
        assert(d =~= seq![d[0]] + rest);
        vstd::seq_lib::lemma_multiset_commutative(seq![d[0]], rest);
        assert(rest.push(d[0]) =~= rest + seq![d[0]]);
        vstd::seq_lib::lemma_multiset_commutative(rest, seq![d[0]]);
    }
}

/// Drawing as many times as a pile holds cards goes through the whole pile
/// once and leaves it as it was: no card repeats before every card has come up.
pub proof fn lemma_draws_cycle_the_pile(d: Seq<Card>)
    ensures
        cycled_times(d, d.len()) == d,
        forall|k: nat| k <= d.len() ==> #[trigger] cycled_times(d, k) == d.subrange(k as int, d.len() as int) + d.subrange(
            0,
            k as int,
        ),
{
    assert forall|k: nat| k <= d.len() implies #[trigger] cycled_times(d, k) == d.subrange(k as int, d.len() as int)
        + d.subrange(0, k as int) by {
        lemma_cycled_prefix(d, k);
    }
    lemma_cycled_prefix(d, d.len());
    assert(d.subrange(d.len() as int, d.len() as int) + d.subrange(0, d.len() as int) =~= d);
}

proof fn lemma_cycled_prefix(d: Seq<Card>, k: nat)
    requires
        k <= d.len(),
    ensures
        cycled_times(d, k) == d.subrange(k as int, d.len() as int) + d.subrange(0, k as int),
    decreases k,
{
    if k == 0 {
        assert(d.subrange(0, d.len() as int) + d.subrange(0, 0) =~= d);
    } else {
        lemma_cycled_prefix(d, (k - 1) as nat);
        let prev = cycled_times(d, (k - 1) as nat);
        assert(prev.len() == d.len());
        assert(prev[0] == d[k - 1]);
        assert(prev.subrange(1, prev.len() as int).push(prev[0]) =~= d.subrange(k as int, d.len() as int)
            + d.subrange(0, k as int));
    }
}

} // verus!

verus! {

/// The players after each listed seat pays `n` to `me`, when all can.
pub open spec fn collected_from(s: Seq<Player>, v: Seq<usize>, me: usize, n: int) -> Seq<Player> {
    Seq::new(
        s.len(),
        |i: int|
            if i == me {
                Player { money: (s[i].money + n * v.len()) as u32, ..s[i] }
            } else if v.contains(i as usize) {
                Player { money: (s[i].money - n) as u32, ..s[i] }
            } else {
                s[i]
            },
    )
}

proof fn lemma_collections(s: Seq<Player>, v: Seq<usize>, me: usize, n: u32)
    requires
        me < s.len() <= usize::MAX,
        n > 0,
        forall|k: int| 0 <= k < v.len() ==> #[trigger] v[k] < s.len() && v[k] != me && !s[v[k] as int].bankrupt
            && s[v[k] as int].money >= n,
        forall|a: int, c: int| 0 <= a < c < v.len() ==> #[trigger] v[a] < #[trigger] v[c],
        s[me as int].money + n * v.len() <= u32::MAX,
    ensures
        bills_payable(s, collections(v, me, n)),
        bills_paid(s, collections(v, me, n)) == collected_from(s, v, me, n as int),
    decreases v.len(),
{
    if v.len() == 0 {
        assert(collected_from(s, v, me, n as int) =~= s);
    } else {
        let w = v[0];
        let rest = v.drop_first();
        let a = n as int;
        let d = s.update(w as int, Player { money: (s[w as int].money - a) as u32, ..s[w as int] });
        let t = d.update(me as int, Player { money: (d[me as int].money + a) as u32, ..d[me as int] });
        assert(settled(s, w as int, a, Payee::Player(me)) == t);
        assert(collections(v, me, n).drop_first() =~= collections(rest, me, n));
        assert(n * rest.len() + n == n * v.len()) by (nonlinear_arith)
            requires
                rest.len() + 1 == v.len(),
        ;
        assert forall|k: int| 0 <= k < rest.len() implies #[trigger] rest[k] < t.len() && rest[k] != me
            && !t[rest[k] as int].bankrupt && t[rest[k] as int].money >= n by {
            assert(rest[k] == v[k + 1]);
            assert(v[0] < v[k + 1]);
        }
        assert forall|x: int, y: int| 0 <= x < y < rest.len() implies #[trigger] rest[x] < #[trigger] rest[y] by {
            assert(rest[x] == v[x + 1] && rest[y] == v[y + 1]);
        }
        lemma_collections(t, rest, me, n);
        assert forall|i: int| 0 <= i < s.len() implies #[trigger] collected_from(t, rest, me, a)[i]
            == collected_from(s, v, me, a)[i] by {
            if i != me as int && i != w as int {
                assert(rest.contains(i as usize) == v.contains(i as usize)) by {
                    if v.contains(i as usize) {
                        let k = choose|k: int| 0 <= k < v.len() && v[k] == i as usize;
                        assert(v[k] as int == i);
                        assert(k != 0);
                        assert(rest[k - 1] == i as usize);
                    }
                    if rest.contains(i as usize) {
                        let k = choose|k: int| 0 <= k < rest.len() && rest[k] == i as usize;
                        assert(v[k + 1] == i as usize);
                    }
                }
            } else if i == w as int {
                assert(v.contains(w));
                assert(!rest.contains(w)) by {
                    if rest.contains(w) {
                        let k = choose|k: int| 0 <= k < rest.len() && rest[k] == w;
                        assert(v[k + 1] == w);
                        assert(v[0] < v[k + 1]);
                    }
                }
            }
        }
        assert(collected_from(t, rest, me, a) =~= collected_from(s, v, me, a));
    }
}

/// "Collect from each player": when every other player still in the game
/// has the cash, each pays the amount once and the drawer receives it from
/// every one of them; nobody else's cash moves.
pub proof fn lemma_collect_each_pays_in_full(s: Seq<Player>, me: usize, n: u32)
    requires
        me < s.len() <= usize::MAX,
        n > 0,
        forall|i: int| 0 <= i < s.len() && i != me && !s[i].bankrupt ==> #[trigger] s[i].money >= n,
        s[me as int].money + n * rivals_upto(s, me, s.len() as int).len() <= u32::MAX,
    ensures
        bills_payable(s, collections(rivals_upto(s, me, s.len() as int), me, n)),
        bills_paid(s, collections(rivals_upto(s, me, s.len() as int), me, n)) == collected_from(
            s,
            rivals_upto(s, me, s.len() as int),
            me,
            n as int,
        ),
{
    let v = rivals_upto(s, me, s.len() as int);
    lemma_rivals(s, me, s.len() as int);
    assert forall|k: int| 0 <= k < v.len() implies #[trigger] v[k] < s.len() && v[k] != me && !s[v[k] as int].bankrupt
        && s[v[k] as int].money >= n by {
        assert(!s[v[k] as int].bankrupt);
    }
    lemma_collections(s, v, me, n);
}

} // verus!
