//! What each computer player remembers of where the cards are.
use vstd::prelude::*;
use crate::models::{
    fish_card, fish_card_spec, get_rank, get_rank_spec, Basket, Card, CpuId, Hand, HandId,
    NetPredicate, Predicate, Rank, Suit, DECK_SIZE,
};

verus! {

/// How many times a player has asked for cards like one; more than four times
/// counts as five.
#[derive(Clone, Copy, Debug, PartialEq, Eq, Structural)]
pub enum AskCount {
    One,
    Two,
    Three,
    Four,
    FivePlus,
}

impl AskCount {
    pub open spec fn level(self) -> int {
        match self {
            AskCount::One => 1,
            AskCount::Two => 2,
            AskCount::Three => 3,
            AskCount::Four => 4,
            AskCount::FivePlus => 5,
        }
    }

    pub fn to_u8(self) -> (res: u8)
        ensures
            res == self.level(),
    {
        match self {
            AskCount::One => 1,
            AskCount::Two => 2,
            AskCount::Three => 3,
            AskCount::Four => 4,
            AskCount::FivePlus => 5,
        }
    }

    pub open spec fn inc_spec(self) -> AskCount {
        match self {
            AskCount::One => AskCount::Two,
            AskCount::Two => AskCount::Three,
            AskCount::Three => AskCount::Four,
            AskCount::Four | AskCount::FivePlus => AskCount::FivePlus,
        }
    }

    /// One more ask, staying at five or more.
    pub fn saturating_inc(self) -> (res: Self)
        ensures
            res == self.inc_spec(),
    {
        match self {
            AskCount::One => AskCount::Two,
            AskCount::Two => AskCount::Three,
            AskCount::Three => AskCount::Four,
            AskCount::Four | AskCount::FivePlus => AskCount::FivePlus,
        }
    }
}

/// What is known of whether a player holds a card.
#[derive(Clone, Copy, Debug, PartialEq, Eq, Structural)]
pub enum Evidence {
    Unknown,
    AskedForSimilar(AskCount),
    DidNotHave,
}

impl Evidence {
    /// The evidence after the player asked for a card like this one again.
    pub open spec fn bumped(self) -> Evidence {
        match self {
            Evidence::Unknown | Evidence::DidNotHave => Evidence::AskedForSimilar(AskCount::One),
            Evidence::AskedForSimilar(count) => Evidence::AskedForSimilar(count.inc_spec()),
        }
    }

    fn bump(self) -> (res: Evidence)
        ensures
            res == self.bumped(),
    {
        match self {
            Evidence::Unknown | Evidence::DidNotHave => Evidence::AskedForSimilar(AskCount::One),
            Evidence::AskedForSimilar(count) => Evidence::AskedForSimilar(count.saturating_inc()),
        }
    }
}

/// The evidence about each player holding a card, indexed by `HandId`.
pub type Incomplete = [Evidence; 4];

/// Where a card is, as far as is known.
#[derive(Clone, Copy, Debug)]
pub enum Location {
    Incomplete(Incomplete),
    Known(HandId),
    /// In the discard pile or in a full basket.
    KnownGone,
}

impl Location {
    pub fn unknown() -> (res: Location)
        ensures
            (res matches Location::Incomplete(inc) && forall|h: int| 0 <= h < 4 ==> inc@[h]
                == Evidence::Unknown),
    {
        Location::Incomplete([Evidence::Unknown; 4])
    }

    /// The location after player `h` asked for a card like this one.
    pub open spec fn asked_by(self, h: int) -> Location {
        match self {
            Location::Incomplete(inc) => Location::Incomplete(bump_at(inc, h)),
            other => other,
        }
    }
}

/// The evidence with that about player `h` bumped.
pub open spec fn bump_at(inc: Incomplete, h: int) -> Incomplete {
    [
        if h == 0 { inc@[0].bumped() } else { inc@[0] },
        if h == 1 { inc@[1].bumped() } else { inc@[1] },
        if h == 2 { inc@[2].bumped() } else { inc@[2] },
        if h == 3 { inc@[3].bumped() } else { inc@[3] },
    ]
}

/// What one computer player remembers.
pub struct Memory {
    locations: [Location; 73],
    did_not_have: Vec<(HandId, Predicate)>,
}

impl Clone for Memory {
    fn clone(&self) -> (res: Self)
        ensures
            res.locations_spec() == self.locations_spec(),
            res.did_not_have_spec() == self.did_not_have_spec(),
    {
        let mut did_not_have: Vec<(HandId, Predicate)> = Vec::new();
        let mut i: usize = 0;
        while i < self.did_not_have.len()
            invariant
                i <= self.did_not_have@.len(),
                did_not_have@ == self.did_not_have@.take(i as int),
            decreases self.did_not_have@.len() - i,
        {
            did_not_have.push(self.did_not_have[i]);
            i = i + 1;
            assert(did_not_have@ =~= self.did_not_have@.take(i as int));
        }
        assert(self.did_not_have@.take(i as int) =~= self.did_not_have@);
        Memory { locations: self.locations, did_not_have }
    }
}

impl Default for Memory {
    fn default() -> (res: Self)
        ensures
            forall|c: int|
                0 <= c < DECK_SIZE ==> (#[trigger] res.locations_spec()[c] matches Location::Incomplete(
                    inc,
                ) && forall|h: int| 0 <= h < 4 ==> inc@[h] == Evidence::Unknown),
            res.did_not_have_spec().len() == 0,
    {
        Memory { locations: [Location::unknown(); 73], did_not_have: Vec::new() }
    }
}

/// The suits among `suits` whose card of `rank` `hand` holds (`held`) or does
/// not hold (`!held`), in order.
pub open spec fn suits_where(suits: Seq<Suit>, rank: Rank, hand: Seq<Card>, held: bool) -> Seq<Suit>
    decreases suits.len(),
{
    if suits.len() == 0 {
        Seq::empty()
    } else {
        let rest = suits_where(suits.drop_last(), rank, hand, held);
        if hand.contains(fish_card_spec(rank, suits.last()) as u8) == held {
            rest.push(suits.last())
        } else {
            rest
        }
    }
}

pub open spec fn all_suits() -> Seq<Suit> {
    seq![Suit::Red, Suit::Green, Suit::Blue, Suit::Yellow, Suit::Purple]
}

/// The suits, those whose card of `rank` `hand` does not hold first, each group
/// in the order of `Suit::ALL`.
pub open spec fn prioritized_suits_spec(rank: Rank, hand: Seq<Card>) -> Seq<Suit> {
    suits_where(all_suits(), rank, hand, false) + suits_where(all_suits(), rank, hand, true)
}

/// Each suit that `suits_where` keeps is one of `suits` whose card of `rank`
/// the hand holds exactly when `held`, and each such suit is kept.
proof fn lemma_suits_where_members(suits: Seq<Suit>, rank: Rank, hand: Seq<Card>, held: bool)
    ensures
        forall|k: int|
            0 <= k < suits_where(suits, rank, hand, held).len() ==> hand.contains(
                fish_card_spec(rank, #[trigger] suits_where(suits, rank, hand, held)[k]) as u8,
            ) == held && suits.contains(suits_where(suits, rank, hand, held)[k]),
        forall|s: Suit|
            #[trigger] suits.contains(s) && hand.contains(fish_card_spec(rank, s) as u8) == held ==> suits_where(
                suits,
                rank,
                hand,
                held,
            ).contains(s),
    decreases suits.len(),
{
    if suits.len() > 0 {
        let init = suits.drop_last();
        lemma_suits_where_members(init, rank, hand, held);
        let rest = suits_where(init, rank, hand, held);
        assert forall|k: int|
            0 <= k < suits_where(suits, rank, hand, held).len() implies hand.contains(
                fish_card_spec(rank, #[trigger] suits_where(suits, rank, hand, held)[k]) as u8,
            ) == held && suits.contains(suits_where(suits, rank, hand, held)[k]) by {
            if k < rest.len() {
                assert(suits_where(suits, rank, hand, held)[k] == rest[k]);
                assert(init.contains(rest[k]));
                let j = choose|j: int| 0 <= j < init.len() && init[j] == rest[k];
                assert(suits[j] == rest[k]);
            } else {
                assert(suits[suits.len() - 1] == suits.last());
            }
        }
        assert forall|s: Suit|
            #[trigger] suits.contains(s) && hand.contains(fish_card_spec(rank, s) as u8) == held implies suits_where(
                suits,
                rank,
                hand,
                held,
            ).contains(s) by {
            let j = choose|j: int| 0 <= j < suits.len() && suits[j] == s;
            if j < suits.len() - 1 {
                assert(init[j] == s);
                assert(init.contains(s));
                let m = choose|m: int| 0 <= m < rest.len() && rest[m] == s;
                let out = suits_where(suits, rank, hand, held);
                assert(out[m] == s);
            } else {
                let out = suits_where(suits, rank, hand, held);
                assert(out[out.len() - 1] == s);
            }
        }
    }
}

/// The order of suits in which a computer player asks for a card of `rank`
/// holds every suit once, and puts every suit whose card it lacks before any
/// suit whose card it holds: it asks for what it is missing first.
pub proof fn lemma_prioritized_suits_missing_first(rank: Rank, hand: Seq<Card>)
    ensures
        prioritized_suits_spec(rank, hand).len() == 5,
        forall|s: Suit| #[trigger] prioritized_suits_spec(rank, hand).contains(s),
        forall|i: int, j: int|
            0 <= i < j < 5 && hand.contains(fish_card_spec(rank, prioritized_suits_spec(rank, hand)[i]) as u8)
                ==> hand.contains(fish_card_spec(rank, #[trigger] prioritized_suits_spec(rank, hand)[j]) as u8)
                && #[trigger] prioritized_suits_spec(rank, hand)[i] != prioritized_suits_spec(rank, hand)[j],
{
    let all = all_suits();
    let missing = suits_where(all, rank, hand, false);
    let held = suits_where(all, rank, hand, true);
    let res = prioritized_suits_spec(rank, hand);
    lemma_suits_where_len(all, rank, hand);
    lemma_suits_where_members(all, rank, hand, false);
    lemma_suits_where_members(all, rank, hand, true);
    assert(res.len() == 5);
    assert forall|s: Suit| #[trigger] res.contains(s) by {
        assert(all.contains(s)) by {
            match s {
                Suit::Red => assert(all[0] == s),
                Suit::Green => assert(all[1] == s),
                Suit::Blue => assert(all[2] == s),
                Suit::Yellow => assert(all[3] == s),
                Suit::Purple => assert(all[4] == s),
            }
        }
        if hand.contains(fish_card_spec(rank, s) as u8) {
            let m = choose|m: int| 0 <= m < held.len() && held[m] == s;
            assert(res[missing.len() + m] == s);
        } else {
            let m = choose|m: int| 0 <= m < missing.len() && missing[m] == s;
            assert(res[m] == s);
        }
    }
    assert forall|i: int, j: int|
        0 <= i < j < 5 && hand.contains(fish_card_spec(rank, res[i]) as u8) implies hand.contains(
        fish_card_spec(rank, #[trigger] res[j]) as u8,
    ) && #[trigger] res[i] != res[j] by {
        if i < missing.len() {
            assert(res[i] == missing[i]);
        }
        assert(i >= missing.len());
        assert(res[j] == held[j - missing.len()]);
        assert(res[i] == held[i - missing.len()]);
        lemma_suits_where_distinct(all, rank, hand, true);
    }
}

/// `suits_where` keeps no suit twice, out of a list without repeats.
proof fn lemma_suits_where_distinct(suits: Seq<Suit>, rank: Rank, hand: Seq<Card>, held: bool)
    requires
        suits == all_suits(),
    ensures
        forall|a: int, b: int|
            0 <= a < b < suits_where(suits, rank, hand, held).len() ==> suits_where(suits, rank, hand, held)[a]
                != suits_where(suits, rank, hand, held)[b],
{
    reveal_with_fuel(suits_where, 6);
}

proof fn lemma_suits_where_len(suits: Seq<Suit>, rank: Rank, hand: Seq<Card>)
    ensures
        suits_where(suits, rank, hand, false).len() + suits_where(suits, rank, hand, true).len()
            == suits.len(),
    decreases suits.len(),
{
    if suits.len() > 0 {
        lemma_suits_where_len(suits.drop_last(), rank, hand);
    }
}

impl Memory {
    pub closed spec fn locations_spec(self) -> Seq<Location> {
        self.locations@
    }

    pub closed spec fn did_not_have_spec(self) -> Seq<(HandId, Predicate)> {
        self.did_not_have@
    }

    /// Whether it was seen that player `h` did not have a card that `card` matches.
    pub open spec fn excluded(self, h: HandId, card: Card) -> bool {
        exists|i: int|
            0 <= i < self.did_not_have_spec().len() && (#[trigger] self.did_not_have_spec()[i]).0
                == h && self.did_not_have_spec()[i].1.matches_spec(card)
    }

    /// Where the fish card of `rank` and `suit` is, as far as is known.
    pub open spec fn location_of(self, rank: Rank, suit: Suit) -> Location {
        self.locations_spec()[fish_card_spec(rank, suit)]
    }

    fn location(&self, card: Card) -> (res: Location)
        requires
            card < DECK_SIZE,
        ensures
            res == self.locations_spec()[card as int],
    {
        self.locations[card as usize]
    }

    /// The suits, those whose card of `rank` `hand` does not hold first.
    pub fn prioritized_suits(rank: Rank, my_hand: &Hand) -> (res: [Suit; 5])
        ensures
            res@ == prioritized_suits_spec(rank, my_hand@),
            forall|s: Suit| #[trigger] res@.contains(s),
            forall|i: int, j: int|
                0 <= i < j < 5 && my_hand@.contains(fish_card_spec(rank, res@[i]) as u8) ==> my_hand@.contains(
                    fish_card_spec(rank, #[trigger] res@[j]) as u8,
                ) && #[trigger] res@[i] != res@[j],
    {
        let mut first: Vec<Suit> = Vec::new();
        let mut second: Vec<Suit> = Vec::new();
        let ghost all = all_suits();
        let mut i: usize = 0;
        while i < 5
            invariant
                i <= 5,
                all == all_suits(),
                first@ == suits_where(all.take(i as int), rank, my_hand@, false),
                second@ == suits_where(all.take(i as int), rank, my_hand@, true),
            decreases 5 - i,
        {
            let suit = Suit::ALL[i];
            assert(all.take(i + 1).drop_last() =~= all.take(i as int));
            assert(all.take(i + 1).last() == suit);
            if my_hand.contains(fish_card(rank, suit)) {
                second.push(suit);
            } else {
                first.push(suit);
            }
            i = i + 1;
        }
        assert(all.take(5) =~= all);
        proof {
            lemma_suits_where_len(all, rank, my_hand@);
        }
        let mut j: usize = 0;
        while j < second.len()
            invariant
                j <= second@.len(),
                first@.len() == suits_where(all, rank, my_hand@, false).len() + j,
                suits_where(all, rank, my_hand@, false).len() + second@.len() == 5,
                first@ == suits_where(all, rank, my_hand@, false) + second@.take(j as int),
                all == all_suits(),
                second@ == suits_where(all, rank, my_hand@, true),
            decreases second@.len() - j,
        {
            first.push(second[j]);
            j = j + 1;
            assert(first@ =~= suits_where(all, rank, my_hand@, false) + second@.take(j as int));
        }
        assert(second@.take(j as int) =~= second@);
        let res = [first[0], first[1], first[2], first[3], first[4]];
        proof {
            let order = prioritized_suits_spec(rank, my_hand@);
            assert(res@ =~= order);
            lemma_prioritized_suits_missing_first(rank, my_hand@);
            assert forall|s: Suit| #[trigger] res@.contains(s) by {
                assert(order.contains(s));
            }
        }
        res
    }
}

impl Memory {
    /// The first suit, from position `i` of `prio` on, whose card of `rank` is known
    /// to be in a hand other than `my_id`, with that hand.
    pub open spec fn known_from(self, prio: Seq<Suit>, rank: Rank, my_id: HandId, i: int) -> Option<(Suit, HandId)>
        decreases prio.len() - i,
    {
        if i < 0 || i >= prio.len() {
            None
        } else {
            match self.location_of(rank, prio[i]) {
                Location::Known(id) => if id != my_id {
                    Some((prio[i], id))
                } else {
                    self.known_from(prio, rank, my_id, i + 1)
                },
                _ => self.known_from(prio, rank, my_id, i + 1),
            }
        }
    }

    /// A card of `rank` known to be in another hand, and that hand, preferring the
    /// suits that `my_hand` lacks.
    pub open spec fn known_question_spec(self, rank: Rank, my_hand: Seq<Card>, my_id: HandId) -> Option<(Suit, HandId)> {
        self.known_from(prioritized_suits_spec(rank, my_hand), rank, my_id, 0)
    }

    pub fn question_for_known_card_with_rank(&self, rank: Rank, my_hand: &Hand, my_id: HandId) -> (res: Option<(Suit, HandId)>)
        ensures
            res == self.known_question_spec(rank, my_hand@, my_id),
    {
        proof {
            self.lemma_locations_len();
        }
        let prio = Memory::prioritized_suits(rank, my_hand);
        let mut i: usize = 0;
        while i < 5
            invariant
                i <= 5,
                prio@ == prioritized_suits_spec(rank, my_hand@),
                prio@.len() == 5,
                self.locations_spec().len() == DECK_SIZE,
                self.known_from(prio@, rank, my_id, 0) == self.known_from(prio@, rank, my_id, i as int),
            decreases 5 - i,
        {
            let suit = prio[i];
            match self.location(fish_card(rank, suit)) {
                Location::Known(id) => {
                    if id != my_id {
                        return Some((suit, id));
                    }
                },
                _ => {},
            }
            i = i + 1;
        }
        None
    }

    /// Whether it was seen that player `h` did not have a card that `card` matches.
    fn excludes(&self, h: HandId, card: Card) -> (res: bool)
        ensures
            res == self.excluded(h, card),
    {
        let mut i: usize = 0;
        while i < self.did_not_have.len()
            invariant
                i <= self.did_not_have@.len(),
                forall|j: int|
                    0 <= j < i ==> !((#[trigger] self.did_not_have_spec()[j]).0 == h
                        && self.did_not_have_spec()[j].1.matches_spec(card)),
            decreases self.did_not_have@.len() - i,
        {
            let (id, predicate) = self.did_not_have[i];
            if id == h && predicate.matches(card) {
                return true;
            }
            i = i + 1;
        }
        false
    }

    /// One step of the search for the player most often seen asking for cards like
    /// one of `rank`: step `t` looks at the `t / 4`th suit of `prio` and player
    /// `t % 4`. With `filter`, players seen lacking the card are passed over.
    pub open spec fn likely_step(self, prio: Seq<Suit>, rank: Rank, my_id: HandId, filter: bool, t: int, best: Option<(int, (Suit, HandId))>) -> Option<(int, (Suit, HandId))> {
        let suit = prio[t / 4];
        let h = t % 4;
        let card = fish_card_spec(rank, suit);
        match self.locations_spec()[card] {
            Location::Incomplete(inc) => if h != my_id.index() && !(filter && self.excluded(
                HandId::from_index(h),
                card as u8,
            )) {
                match inc@[h] {
                    Evidence::AskedForSimilar(count) => if (match best {
                        Some((prev, _)) => count.level() > prev,
                        None => true,
                    }) {
                        Some((count.level(), (suit, HandId::from_index(h))))
                    } else {
                        best
                    },
                    _ => best,
                }
            } else {
                best
            },
            _ => best,
        }
    }

    /// The search above after `t` steps.
    pub open spec fn likely_upto(self, prio: Seq<Suit>, rank: Rank, my_id: HandId, filter: bool, t: int) -> Option<(int, (Suit, HandId))>
        decreases t,
    {
        if t <= 0 {
            None
        } else {
            self.likely_step(prio, rank, my_id, filter, t - 1, self.likely_upto(prio, rank, my_id, filter, t - 1))
        }
    }

    /// The card of `rank` that another player has most often asked for cards like,
    /// and that player, first passing over players seen lacking the card, then, if
    /// that finds none, not.
    pub open spec fn likely_question_spec(self, rank: Rank, my_hand: Seq<Card>, my_id: HandId) -> Option<(Suit, HandId)> {
        let prio = prioritized_suits_spec(rank, my_hand);
        let first = self.likely_upto(prio, rank, my_id, true, 20);
        let found = if first is None {
            self.likely_upto(prio, rank, my_id, false, 20)
        } else {
            first
        };
        match found {
            Some((_, question)) => Some(question),
            None => None,
        }
    }

    fn likely_search(&self, prio: &[Suit; 5], rank: Rank, my_id: HandId, filter: bool) -> (res: Option<(u8, (Suit, HandId))>)
        requires
            self.locations_spec().len() == DECK_SIZE,
        ensures
            match res {
                None => self.likely_upto(prio@, rank, my_id, filter, 20) is None,
                Some((c, q)) => self.likely_upto(prio@, rank, my_id, filter, 20) == Some((c as int, q)),
            },
    {
        let mut best: Option<(u8, (Suit, HandId))> = None;
        let mut t: usize = 0;
        while t < 20
            invariant
                t <= 20,
                self.locations_spec().len() == DECK_SIZE,
                match best {
                    None => self.likely_upto(prio@, rank, my_id, filter, t as int) is None,
                    Some((c, q)) => self.likely_upto(prio@, rank, my_id, filter, t as int) == Some((c as int, q)),
                },
            decreases 20 - t,
        {
            let suit = prio[t / 4];
            let h = t % 4;
            let hand_id = HandId::from_u8(h as u8);
            let card = fish_card(rank, suit);
            match self.location(card) {
                Location::Incomplete(inc) => {
                    if h as u8 != my_id.to_u8() && !(filter && self.excludes(hand_id, card)) {
                        match inc[h] {
                            Evidence::AskedForSimilar(count) => {
                                let level = count.to_u8();
                                match best {
                                    None => {
                                        best = Some((level, (suit, hand_id)));
                                    },
                                    Some((prev, _)) => {
                                        if level > prev {
                                            best = Some((level, (suit, hand_id)));
                                        }
                                    },
                                }
                            },
                            _ => {},
                        }
                    }
                },
                _ => {},
            }
            t = t + 1;
        }
        best
    }

    pub fn question_for_likely_card_with_rank(&self, rank: Rank, my_hand: &Hand, my_id: HandId) -> (res: Option<(Suit, HandId)>)
        ensures
            res == self.likely_question_spec(rank, my_hand@, my_id),
    {
        proof {
            self.lemma_locations_len();
        }
        let prio = Memory::prioritized_suits(rank, my_hand);
        let mut best = self.likely_search(&prio, rank, my_id, true);
        if best.is_none() {
            best = self.likely_search(&prio, rank, my_id, false);
        }
        match best {
            Some((_, question)) => Some(question),
            None => None,
        }
    }
}

/// The rank whose cards a question asks about where it names one.
pub open spec fn asked_rank(predicate: Predicate) -> Option<Rank> {
    match predicate {
        Predicate::RankSuit(rank, _) => Some(rank),
        Predicate::Net(NetPredicate::Rank(rank)) => Some(rank),
        Predicate::Net(NetPredicate::Suit(_)) => None,
    }
}

impl Memory {
    pub proof fn lemma_locations_len(self)
        ensures
            self.locations_spec().len() == DECK_SIZE,
    {
    }

    /// The locations after `hand_id` asked the question `predicate`: every card of
    /// the rank asked about is marked as asked for by that player.
    pub open spec fn after_asked(self, hand_id: HandId, predicate: Predicate) -> Seq<Location> {
        Seq::new(
            73,
            |c: int|
                if asked_rank(predicate) is Some && get_rank_spec(c as u8) == asked_rank(predicate) {
                    self.locations_spec()[c].asked_by(hand_id.index())
                } else {
                    self.locations_spec()[c]
                },
        )
    }

    fn bump_location(&mut self, card: Card, h: HandId)
        requires
            card < DECK_SIZE,
        ensures
            final(self).locations_spec() == old(self).locations_spec().update(
                card as int,
                old(self).locations_spec()[card as int].asked_by(h.index()),
            ),
            final(self).did_not_have_spec() == old(self).did_not_have_spec(),
    {
        let i = h.to_u8() as usize;
        match self.locations[card as usize] {
            Location::Incomplete(inc) => {
                let mut bumped = inc;
                bumped[i] = inc[i].bump();
                assert(bumped == bump_at(inc, i as int)) by {
                    assert(bumped@ =~= bump_at(inc, i as int)@);
                }
                self.locations[card as usize] = Location::Incomplete(bumped);
            },
            _ => {},
        }
        assert(self.locations@ =~= old(self).locations@.update(
            card as int,
            old(self).locations@[card as int].asked_by(h.index()),
        ));
    }

    /// Notes that `hand_id` asked for cards that `predicate` matches.
    pub fn asked_for(&mut self, hand_id: HandId, predicate: Predicate)
        ensures
            final(self).locations_spec() == old(self).after_asked(hand_id, predicate),
            final(self).did_not_have_spec() == old(self).did_not_have_spec(),
    {
        let rank_opt = match predicate {
            Predicate::RankSuit(rank, _) => Some(rank),
            Predicate::Net(NetPredicate::Rank(rank)) => Some(rank),
            Predicate::Net(NetPredicate::Suit(_)) => None,
        };
        let ghost start = *self;
        match rank_opt {
            Some(rank) => {
                let mut s: usize = 0;
                while s < 5
                    invariant
                        s <= 5,
                        rank_opt == Some(rank),
                        rank_opt == asked_rank(predicate),
                        self.did_not_have_spec() == start.did_not_have_spec(),
                        self.locations_spec().len() == DECK_SIZE,
                        forall|c: int|
                            0 <= c < DECK_SIZE ==> #[trigger] self.locations_spec()[c] == if get_rank_spec(c as u8) == Some(rank) && (c as u8) / 13 < s {
                                start.locations_spec()[c].asked_by(hand_id.index())
                            } else {
                                start.locations_spec()[c]
                            },
                    decreases 5 - s,
                {
                    let suit = Suit::ALL[s];
                    let card = fish_card(rank, suit);
                    proof {
                        rank.lemma_index();
                    }
                    self.bump_location(card, hand_id);
                    s = s + 1;
                }
                assert(self.locations_spec() =~= start.after_asked(hand_id, predicate));
            },
            None => {
                assert(self.locations_spec() =~= start.after_asked(hand_id, predicate));
            },
        }
    }

    /// Notes that `hand_id` was seen not to have any card that `predicate` matches.
    pub fn did_not_have(&mut self, hand_id: HandId, predicate: Predicate)
        ensures
            final(self).locations_spec() == old(self).locations_spec(),
            forall|x: (HandId, Predicate)|
                #[trigger] final(self).did_not_have_spec().contains(x) <==> (old(
                    self,
                ).did_not_have_spec().contains(x) || x == (hand_id, predicate)),
    {
        let mut i: usize = 0;
        while i < self.did_not_have.len()
            invariant
                i <= self.did_not_have@.len(),
                forall|j: int| 0 <= j < i ==> self.did_not_have@[j] != (hand_id, predicate),
            decreases self.did_not_have@.len() - i,
        {
            let (id, p) = self.did_not_have[i];
            if id == hand_id && p == predicate {
                return;
            }
            i = i + 1;
        }
        self.did_not_have.push((hand_id, predicate));
        assert forall|x: (HandId, Predicate)|
            #[trigger] self.did_not_have_spec().contains(x) <==> (old(self).did_not_have_spec().contains(x)
                || x == (hand_id, predicate)) by {
            if old(self).did_not_have_spec().contains(x) {
                let j = choose|j: int| 0 <= j < old(self).did_not_have_spec().len() && #[trigger] old(self).did_not_have_spec()[j] == x;
                assert(self.did_not_have_spec()[j] == x);
            }
            if x == (hand_id, predicate) {
                assert(self.did_not_have_spec()[old(self).did_not_have_spec().len() as int] == x);
            }
        }
    }

    /// Notes that `hand_id` drew a card that nobody else saw; nothing is learned.
    pub fn drew_card(&mut self, hand_id: HandId)
        ensures
            *final(self) == *old(self),
    {
    }

    /// Notes that `card` is in the hand of `hand_id`.
    pub fn known(&mut self, hand_id: HandId, card: Card)
        requires
            card < DECK_SIZE,
        ensures
            final(self).locations_spec() == old(self).locations_spec().update(
                card as int,
                Location::Known(hand_id),
            ),
            final(self).did_not_have_spec() == old(self).did_not_have_spec(),
    {
        self.locations[card as usize] = Location::Known(hand_id);
        assert(self.locations@ =~= old(self).locations@.update(card as int, Location::Known(hand_id)));
    }

    /// Notes that the cards of `basket` left play.
    pub fn basket_removed(&mut self, basket: Basket)
        requires
            forall|i: int| 0 <= i < 5 ==> #[trigger] basket@[i] < DECK_SIZE,
        ensures
            forall|c: int|
                0 <= c < DECK_SIZE ==> #[trigger] final(self).locations_spec()[c] == if basket@.contains(c as u8) {
                    Location::KnownGone
                } else {
                    old(self).locations_spec()[c]
                },
            final(self).locations_spec().len() == DECK_SIZE,
            final(self).did_not_have_spec() == old(self).did_not_have_spec(),
    {
        let mut i: usize = 0;
        while i < 5
            invariant
                i <= 5,
                forall|i: int| 0 <= i < 5 ==> #[trigger] basket@[i] < DECK_SIZE,
                self.did_not_have_spec() == old(self).did_not_have_spec(),
                self.locations_spec().len() == DECK_SIZE,
                forall|c: int|
                    0 <= c < DECK_SIZE ==> #[trigger] self.locations_spec()[c] == if basket@.take(i as int).contains(c as u8) {
                        Location::KnownGone
                    } else {
                        old(self).locations_spec()[c]
                    },
            decreases 5 - i,
        {
            let card = basket[i];
            self.locations[card as usize] = Location::KnownGone;
            i = i + 1;
            assert forall|c: int| 0 <= c < DECK_SIZE implies #[trigger] basket@.take(i as int).contains(c as u8) == (basket@.take(i - 1).contains(c as u8) || c == card) by {
                assert(basket@.take(i as int) =~= basket@.take(i - 1).push(card));
                if basket@.take(i - 1).contains(c as u8) {
                    let j = choose|j: int| 0 <= j < i - 1 && #[trigger] basket@.take(i - 1)[j] == c as u8;
                    assert(basket@.take(i as int)[j] == c as u8);
                }
                if c == card {
                    assert(basket@.take(i as int)[i - 1] == c as u8);
                }
            }
        }
        assert(basket@.take(5) =~= basket@);
    }

    /// How strongly what is known suggests that `target` holds cards of `rank`,
    /// counting the suits from position `i` on: three for a card known to be there,
    /// one or two for a card they asked for cards like, stopping at a card that
    /// left play.
    pub open spec fn score_from(self, target: HandId, rank: Rank, i: int) -> int
        decreases 5 - i,
    {
        if i < 0 || i >= 5 {
            0
        } else {
            match self.location_of(rank, Suit::from_index(i)) {
                Location::Incomplete(inc) => (match inc@[target.index()] {
                    Evidence::AskedForSimilar(count) => if count.level() <= 2 { 1int } else { 2int },
                    _ => 0int,
                }) + self.score_from(target, rank, i + 1),
                Location::Known(id) => (if id == target { 3int } else { 0int }) + self.score_from(target, rank, i + 1),
                Location::KnownGone => 0,
            }
        }
    }

    pub open spec fn likely_to_fill_rank_spec(self, target: HandId, rank: Rank) -> bool {
        self.score_from(target, rank, 0) >= 9
    }

    /// Whether `target` seems likely to complete a basket of `rank` soon.
    pub fn is_likely_to_fill_rank_soon(&self, target_id: HandId, rank: Rank) -> (res: bool)
        ensures
            res == self.likely_to_fill_rank_spec(target_id, rank),
    {
        proof {
            self.lemma_locations_len();
        }
        let t = target_id.to_u8() as usize;
        let mut score: u32 = 0;
        let mut s: usize = 0;
        while s < 5
            invariant
                s <= 5,
                t == target_id.index(),
                self.locations_spec().len() == DECK_SIZE,
                score <= 3 * s,
                score + self.score_from(target_id, rank, s as int) == self.score_from(target_id, rank, 0),
            ensures
                score == self.score_from(target_id, rank, 0),
            decreases 5 - s,
        {
            let suit = Suit::ALL[s];
            match self.location(fish_card(rank, suit)) {
                Location::Incomplete(inc) => {
                    match inc[t] {
                        Evidence::AskedForSimilar(count) => {
                            if count.to_u8() <= 2 {
                                score = score + 1;
                            } else {
                                score = score + 2;
                            }
                        },
                        _ => {},
                    }
                },
                Location::Known(id) => {
                    if id == target_id {
                        score = score + 3;
                    }
                },
                Location::KnownGone => {
                    break;
                },
            }
            s = s + 1;
        }
        score >= 9
    }

    /// The highest rank, from `Rank::ALL[i]` down, that `target` seems likely to
    /// complete soon.
    pub open spec fn likely_rank_from(self, target: HandId, i: int) -> Option<Rank>
        decreases i + 1,
    {
        if i < 0 {
            None
        } else if self.likely_to_fill_rank_spec(target, Rank::from_index(i)) {
            Some(Rank::from_index(i))
        } else {
            self.likely_rank_from(target, i - 1)
        }
    }

    /// The highest rank that `target_id` seems likely to complete soon.
    pub fn likely_to_fill_basket_soon(&self, target_id: HandId) -> (res: Option<Rank>)
        ensures
            res == self.likely_rank_from(target_id, 12),
    {
        let mut i: usize = 13;
        while i > 0
            invariant
                i <= 13,
                self.likely_rank_from(target_id, 12) == self.likely_rank_from(target_id, i - 1),
            decreases i,
        {
            let rank = Rank::ALL[i - 1];
            if self.is_likely_to_fill_rank_soon(target_id, rank) {
                return Some(rank);
            }
            i = i - 1;
        }
        None
    }

    /// Whether nothing at all is known of the card of `rank` and `suit`.
    pub open spec fn unknown_spec(self, rank: Rank, suit: Suit) -> bool {
        match self.location_of(rank, suit) {
            Location::Incomplete(inc) => forall|h: int| 0 <= h < 4 ==> #[trigger] inc@[h] == Evidence::Unknown,
            _ => false,
        }
    }

    pub fn is_unknown(&self, rank: Rank, suit: Suit) -> (res: bool)
        ensures
            res == self.unknown_spec(rank, suit),
    {
        proof {
            self.lemma_locations_len();
        }
        let card = fish_card(rank, suit);
        let loc = self.location(card);
        assert(loc == self.location_of(rank, suit));
        match loc {
            Location::Incomplete(inc) => {
                let mut h: usize = 0;
                while h < 4
                    invariant
                        h <= 4,
                        self.location_of(rank, suit) == Location::Incomplete(inc),
                        forall|k: int| 0 <= k < h ==> inc@[k] == Evidence::Unknown,
                    decreases 4 - h,
                {
                    if inc[h] != Evidence::Unknown {
                        assert(inc@[h as int] != Evidence::Unknown);
                        return false;
                    }
                    h = h + 1;
                }
                true
            },
            _ => false,
        }
    }

    /// The question to ask, from position `i` of `hand` on: for the first card
    /// whose rank has a card known to be elsewhere, that rank, suit and holder.
    pub open spec fn informed_known_from(self, hand: Seq<Card>, my_id: HandId, i: int) -> Option<(Rank, Suit, HandId)>
        decreases hand.len() - i,
    {
        if i < 0 || i >= hand.len() {
            None
        } else {
            match get_rank_spec(hand[i]) {
                Some(rank) => match self.known_question_spec(rank, hand, my_id) {
                    Some((suit, id)) => Some((rank, suit, id)),
                    None => self.informed_known_from(hand, my_id, i + 1),
                },
                None => self.informed_known_from(hand, my_id, i + 1),
            }
        }
    }

    /// The question to ask, from position `i` of `hand` on: for the first card
    /// whose rank others have asked for cards like, that rank, suit and player.
    pub open spec fn informed_likely_from(self, hand: Seq<Card>, my_id: HandId, i: int) -> Option<(Rank, Suit, HandId)>
        decreases hand.len() - i,
    {
        if i < 0 || i >= hand.len() {
            None
        } else {
            match get_rank_spec(hand[i]) {
                Some(rank) => match self.likely_question_spec(rank, hand, my_id) {
                    Some((suit, id)) => Some((rank, suit, id)),
                    None => self.informed_likely_from(hand, my_id, i + 1),
                },
                None => self.informed_likely_from(hand, my_id, i + 1),
            }
        }
    }

    /// The question that memory suggests: a card known to be elsewhere if there is
    /// one of a rank in `my_hand`, else one that others seem to be collecting.
    pub open spec fn informed_question_spec(self, hand: Seq<Card>, my_id: HandId) -> Option<(Rank, Suit, HandId)> {
        match self.informed_known_from(hand, my_id, 0) {
            Some(q) => Some(q),
            None => self.informed_likely_from(hand, my_id, 0),
        }
    }

    pub fn informed_question(&self, my_hand: &Hand, my_hand_id: HandId) -> (res: Option<(Rank, Suit, HandId)>)
        ensures
            res == self.informed_question_spec(my_hand@, my_hand_id),
    {
        proof {
            self.lemma_locations_len();
        }
        let cards = my_hand.iter();
        let mut i: usize = 0;
        while i < cards.len()
            invariant
                i <= cards@.len(),
                cards@ == my_hand@,
                self.locations_spec().len() == DECK_SIZE,
                self.informed_known_from(my_hand@, my_hand_id, 0) == self.informed_known_from(my_hand@, my_hand_id, i as int),
            decreases cards.len() - i,
        {
            match get_rank(cards[i]) {
                Some(rank) => {
                    match self.question_for_known_card_with_rank(rank, my_hand, my_hand_id) {
                        Some((suit, id)) => {
                            return Some((rank, suit, id));
                        },
                        None => {},
                    }
                },
                None => {},
            }
            i = i + 1;
        }
        i = 0;
        while i < cards.len()
            invariant
                i <= cards@.len(),
                cards@ == my_hand@,
                self.locations_spec().len() == DECK_SIZE,
                self.informed_known_from(my_hand@, my_hand_id, 0) is None,
                self.informed_likely_from(my_hand@, my_hand_id, 0) == self.informed_likely_from(my_hand@, my_hand_id, i as int),
            decreases cards.len() - i,
        {
            match get_rank(cards[i]) {
                Some(rank) => {
                    match self.question_for_likely_card_with_rank(rank, my_hand, my_hand_id) {
                        Some((suit, id)) => {
                            return Some((rank, suit, id));
                        },
                        None => {},
                    }
                },
                None => {},
            }
            i = i + 1;
        }
        None
    }
}

/// What each computer player remembers.
pub struct Memories {
    pub cpu1: Memory,
    pub cpu2: Memory,
    pub cpu3: Memory,
}

impl Default for Memories {
    fn default() -> (res: Self)
        ensures
            res.cpu1.did_not_have_spec().len() == 0,
            res.cpu2.did_not_have_spec().len() == 0,
            res.cpu3.did_not_have_spec().len() == 0,
    {
        Memories { cpu1: Memory::default(), cpu2: Memory::default(), cpu3: Memory::default() }
    }
}

impl Memories {
    pub open spec fn memory_spec(self, id: CpuId) -> Memory {
        match id {
            CpuId::One => self.cpu1,
            CpuId::Two => self.cpu2,
            CpuId::Three => self.cpu3,
        }
    }

    pub fn memory(&self, id: CpuId) -> (res: &Memory)
        ensures
            *res == self.memory_spec(id),
    {
        match id {
            CpuId::One => &self.cpu1,
            CpuId::Two => &self.cpu2,
            CpuId::Three => &self.cpu3,
        }
    }

    pub fn memory_mut(&mut self, id: CpuId) -> (res: &mut Memory)
        ensures
            *res == old(self).memory_spec(id),
            final(self).memory_spec(id) == *final(res),
            forall|other: CpuId| other != id ==> #[trigger] final(self).memory_spec(other) == old(self).memory_spec(other),
    {
        match id {
            CpuId::One => &mut self.cpu1,
            CpuId::Two => &mut self.cpu2,
            CpuId::Three => &mut self.cpu3,
        }
    }

    /// A player asked for cards that `predicate` matches, in front of everyone.
    pub fn asked_for(&mut self, hand_id: HandId, predicate: Predicate)
        ensures
            forall|id: CpuId| #[trigger] final(self).memory_spec(id).locations_spec() == old(self).memory_spec(id).after_asked(hand_id, predicate),
            forall|id: CpuId| #[trigger] final(self).memory_spec(id).did_not_have_spec() == old(self).memory_spec(id).did_not_have_spec(),
    {
        self.cpu1.asked_for(hand_id, predicate);
        self.cpu2.asked_for(hand_id, predicate);
        self.cpu3.asked_for(hand_id, predicate);
    }

    /// A player drew a card that nobody else saw.
    pub fn drew_card(&mut self, hand_id: HandId)
        ensures
            *final(self) == *old(self),
    {
        self.cpu1.drew_card(hand_id);
        self.cpu2.drew_card(hand_id);
        self.cpu3.drew_card(hand_id);
    }

    /// A player got `card` by asking, in front of everyone.
    pub fn found(&mut self, hand_id: HandId, card: Card)
        requires
            card < DECK_SIZE,
        ensures
            forall|id: CpuId| #[trigger] final(self).memory_spec(id).locations_spec() == old(self).memory_spec(id).locations_spec().update(card as int, Location::Known(hand_id)),
            forall|id: CpuId| #[trigger] final(self).memory_spec(id).did_not_have_spec() == old(self).memory_spec(id).did_not_have_spec(),
    {
        self.cpu1.known(hand_id, card);
        self.cpu2.known(hand_id, card);
        self.cpu3.known(hand_id, card);
    }

    /// A player was asked for cards that `predicate` matches and had none, in front
    /// of everyone.
    pub fn did_not_have(&mut self, hand_id: HandId, predicate: Predicate)
        ensures
            forall|id: CpuId| #[trigger] final(self).memory_spec(id).locations_spec() == old(self).memory_spec(id).locations_spec(),
            forall|id: CpuId, x: (HandId, Predicate)| #[trigger] final(self).memory_spec(id).did_not_have_spec().contains(x) <==> (old(self).memory_spec(id).did_not_have_spec().contains(x) || x == (hand_id, predicate)),
    {
        self.cpu1.did_not_have(hand_id, predicate);
        self.cpu2.did_not_have(hand_id, predicate);
        self.cpu3.did_not_have(hand_id, predicate);
    }

    /// A basket left play.
    pub fn basket_removed(&mut self, basket: Basket)
        requires
            forall|i: int| 0 <= i < 5 ==> #[trigger] basket@[i] < DECK_SIZE,
        ensures
            forall|id: CpuId, c: int| 0 <= c < DECK_SIZE ==> #[trigger] final(self).memory_spec(id).locations_spec()[c] == if basket@.contains(c as u8) {
                Location::KnownGone
            } else {
                old(self).memory_spec(id).locations_spec()[c]
            },
            forall|id: CpuId| #[trigger] final(self).memory_spec(id).did_not_have_spec() == old(self).memory_spec(id).did_not_have_spec(),
    {
        self.cpu1.basket_removed(basket);
        self.cpu2.basket_removed(basket);
        self.cpu3.basket_removed(basket);
    }
}

} // verus!
