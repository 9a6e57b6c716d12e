//! Ordered collections of cards.
use vstd::prelude::*;

use super::{Card, CardInner, CardIndex, DECK_SIZE};

verus! {

/// A card or no card, stored in one byte: zero for none, the card plus one otherwise.
#[derive(Clone, Copy, Debug, Default, PartialEq, Eq, Structural)]
pub struct CardOption(CardInner);

impl View for CardOption {
    type V = Option<Card>;

    closed spec fn view(&self) -> Option<Card> {
        if self.0 == 0 {
            None
        } else {
            Some((self.0 - 1) as u8)
        }
    }
}

impl CardOption {
    pub fn option(self) -> (res: Option<Card>)
        ensures
            res == self@,
    {
        if self.0 == 0 {
            None
        } else {
            Some(self.0 - 1)
        }
    }

    /// Holds `card`, which must leave room for the offset by one.
    pub fn some(card: Card) -> (res: Self)
        requires
            card < CardInner::MAX,
        ensures
            res@ == Some(card),
    {
        Self(card + 1)
    }

    pub fn none() -> (res: Self)
        ensures
            res@ == None::<Card>,
    {
        Self(0)
    }

    pub fn is_none(self) -> (res: bool)
        ensures
            res == self@ is None,
    {
        self == Self::none()
    }

    pub fn is_some(self) -> (res: bool)
        ensures
            res == self@ is Some,
    {
        self != Self::none()
    }
}

/// Whether the first `n` slots hold cards and the rest hold none.
pub closed spec fn is_len(s: Seq<CardOption>, n: int) -> bool {
    &&& s.len() == DECK_SIZE
    &&& 0 <= n <= DECK_SIZE
    &&& forall|i: int| 0 <= i < n ==> (#[trigger] s[i]).0 != 0
    &&& forall|i: int| n <= i < DECK_SIZE ==> (#[trigger] s[i]).0 == 0
}

/// Whether the slots hold a run of cards followed by a run of empty slots.
pub closed spec fn has_len(s: Seq<CardOption>) -> bool {
    exists|n: int| is_len(s, n)
}

proof fn lemma_is_len_unique(s: Seq<CardOption>, n: int, m: int)
    requires
        is_len(s, n),
        is_len(s, m),
    ensures
        n == m,
{
    if n < m {
        assert(s[n].0 == 0);
    }
    if m < n {
        assert(s[m].0 == 0);
    }
}

/// An ordered collection of cards that can hold at least one copy of each card.
/// The cards fill the slots from the start; the remaining slots are empty.
#[derive(Debug)]
pub struct Hand([CardOption; 73]);

impl Clone for Hand {
    fn clone(&self) -> (res: Self)
        ensures
            res@ == self@,
    {
        proof {
            use_type_invariant(self);
        }
        Hand(self.0)
    }
}

impl Hand {
    #[verifier::type_invariant]
    closed spec fn inv(self) -> bool {
        has_len(self.0@)
    }

    closed spec fn len_spec(self) -> int {
        choose|n: int| is_len(self.0@, n)
    }

    proof fn lemma_len(self)
        requires
            self.inv(),
        ensures
            is_len(self.0@, self.len_spec()),
            0 <= self.len_spec() <= DECK_SIZE,
    {
    }
}

impl View for Hand {
    type V = Seq<Card>;

    closed spec fn view(&self) -> Seq<Card> {
        Seq::new(self.len_spec() as nat, |i: int| (self.0@[i].0 - 1) as u8)
    }
}

/// Whether `order` lists each of `0..m` exactly once.
pub open spec fn is_permutation(order: Seq<CardIndex>, m: int) -> bool {
    &&& order.len() == m
    &&& forall|j: int| 0 <= j < m ==> (#[trigger] order[j]) < m
    &&& forall|j: int, k: int| 0 <= j < k < m ==> #[trigger] order[j] != #[trigger] order[k]
}

/// The cards that `ordering` lists for a hand holding `cards`: the cards at the
/// listed indices, up to the first listed index past the end of the hand.
pub open spec fn is_ordered_prefix(cards: Seq<Card>, ordering: Seq<CardIndex>, res: Seq<Card>) -> bool {
    &&& res.len() <= ordering.len()
    &&& forall|j: int|
        0 <= j < res.len() ==> (#[trigger] ordering[j]) < cards.len() && res[j]
            == cards[ordering[j] as int]
    &&& (res.len() == ordering.len() || ordering[res.len() as int] >= cards.len())
}

impl Default for Hand {
    fn default() -> (res: Hand)
        ensures
            res@ == Seq::<Card>::empty(),
    {
        let arr = [CardOption::none(); 73];
        assert(has_len(arr@)) by {
            assert(is_len(arr@, 0));
        }
        let res = Hand(arr);
        assert(is_len(res.0@, 0));
        proof {
            lemma_is_len_unique(res.0@, 0, res.len_spec());
        }
        assert(res@ =~= Seq::<Card>::empty());
        res
    }
}

impl Hand {
    /// A full deck in the given order, which is meant to be a shuffle of all the
    /// cards.
    pub fn fresh_deck(shuffled: [Card; 73]) -> (res: Hand)
        requires
            forall|i: int| 0 <= i < DECK_SIZE ==> shuffled@[i] < CardInner::MAX,
        ensures
            res@ == shuffled@,
    {
        let mut output = [CardOption::none(); 73];
        let mut i: usize = 0;
        while i < 73
            invariant
                i <= 73,
                forall|i: int| 0 <= i < DECK_SIZE ==> shuffled@[i] < CardInner::MAX,
                forall|j: int| 0 <= j < i ==> output@[j]@ == Some(shuffled@[j]) && output@[j].0 != 0,
            decreases 73 - i,
        {
            output[i] = CardOption::some(shuffled[i]);
            i = i + 1;
        }
        assert(has_len(output@)) by {
            assert(is_len(output@, 73));
        }
        let res = Hand(output);
        assert(is_len(res.0@, 73));
        proof {
            lemma_is_len_unique(res.0@, 73, res.len_spec());
        }
        assert(res@ =~= shuffled@);
        res
    }

    /// The number of cards.
    pub fn len(&self) -> (res: u8)
        ensures
            res == self@.len(),
            res <= DECK_SIZE,
    {
        proof {
            use_type_invariant(self);
            self.lemma_len();
        }
        let ghost n = self.len_spec();
        let mut i: u8 = 0;
        while i < DECK_SIZE
            invariant
                i <= DECK_SIZE,
                is_len(self.0@, n),
                n == self.len_spec(),
                i <= n,
            decreases DECK_SIZE - i,
        {
            if self.0[i as usize].is_none() {
                return i;
            }
            i = i + 1;
        }
        DECK_SIZE
    }

    pub fn is_empty(&self) -> (res: bool)
        ensures
            res == (self@.len() == 0),
    {
        self.len() == 0
    }

    /// The index of the last card; zero for an empty hand.
    pub fn last_index(&self) -> (res: CardIndex)
        ensures
            res == if self@.len() == 0 { 0 } else { self@.len() - 1 },
    {
        self.len().saturating_sub(1)
    }

    /// The last card, if any.
    pub fn last(&self) -> (res: Option<Card>)
        ensures
            res == if self@.len() == 0 { None } else { Some(self@.last()) },
    {
        let len = self.len();
        if len == 0 {
            None
        } else {
            proof {
                use_type_invariant(self);
                self.lemma_len();
            }
            self.0[(len - 1) as usize].option()
        }
    }

    /// Puts `card` after the last card.
    pub fn push(&mut self, card: Card)
        requires
            card < CardInner::MAX,
            old(self)@.len() < DECK_SIZE,
        ensures
            final(self)@ == old(self)@.push(card),
    {
        let n = self.len();
        proof {
            use_type_invariant(&*self);
            self.lemma_len();
        }
        let ghost old_self = *self;
        let mut arr = self.0;
        arr[n as usize] = CardOption::some(card);
        assert(has_len(arr@)) by {
            assert(is_len(arr@, n + 1));
        }
        self.0 = arr;
        proof {
            assert(is_len(self.0@, n + 1));
            lemma_is_len_unique(self.0@, n + 1, self.len_spec());
            assert(self@ =~= old_self@.push(card));
        }
    }

    /// Puts `card` first, moving the old first card, if any, to the end.
    pub fn swap_insert_top(&mut self, card: Card)
        requires
            card < CardInner::MAX,
            old(self)@.len() < DECK_SIZE,
        ensures
            final(self)@ == if old(self)@.len() == 0 {
                seq![card]
            } else {
                seq![card] + old(self)@.subrange(1, old(self)@.len() as int) + seq![old(self)@[0]]
            },
    {
        let n = self.len();
        proof {
            use_type_invariant(&*self);
            self.lemma_len();
        }
        let ghost old_self = *self;
        let old_first = self.0[0];
        let mut arr = self.0;
        arr[0] = CardOption::some(card);
        let ghost m = if n == 0 { 1int } else { n as int };
        assert(has_len(arr@)) by {
            assert(is_len(arr@, m));
        }
        self.0 = arr;
        proof {
            assert(is_len(self.0@, m));
            lemma_is_len_unique(self.0@, m, self.len_spec());
            if n == 0 {
                assert(self@ =~= seq![card]);
            } else {
                assert(self@ =~= seq![card] + old_self@.subrange(1, n as int));
            }
        }
        if let Some(old_first_card) = old_first.option() {
            self.push(old_first_card);
        }
    }

    /// Takes away the last card, if any.
    pub fn draw(&mut self) -> (res: Option<Card>)
        ensures
            old(self)@.len() == 0 ==> res is None && final(self)@ == old(self)@,
            old(self)@.len() > 0 ==> res == Some(old(self)@.last()) && final(self)@ == old(
                self,
            )@.drop_last(),
    {
        let n = self.len();
        if n == 0 {
            return None;
        }
        proof {
            use_type_invariant(&*self);
            self.lemma_len();
        }
        let ghost old_self = *self;
        let output = self.0[(n - 1) as usize].option();
        let mut arr = self.0;
        arr[(n - 1) as usize] = CardOption::none();
        assert(has_len(arr@)) by {
            assert(is_len(arr@, n - 1));
        }
        self.0 = arr;
        proof {
            assert(is_len(self.0@, n - 1));
            lemma_is_len_unique(self.0@, n - 1, self.len_spec());
            assert(self@ =~= old_self@.drop_last());
        }
        output
    }

    /// The cards, in order.
    pub fn iter(&self) -> (res: Vec<Card>)
        ensures
            res@ == self@,
            res@.len() <= DECK_SIZE,
            forall|i: int| 0 <= i < res@.len() ==> #[trigger] res@[i] < CardInner::MAX,
    {
        let n = self.len();
        proof {
            use_type_invariant(self);
            self.lemma_len();
        }
        let mut out: Vec<Card> = Vec::new();
        let mut i: u8 = 0;
        while i < n
            invariant
                i <= n,
                n == self@.len(),
                is_len(self.0@, n as int),
                n == self.len_spec(),
                out@ == self@.take(i as int),
            decreases n - i,
        {
            let card = self.0[i as usize].option();
            match card {
                Some(c) => {
                    out.push(c);
                },
                None => {},
            }
            i = i + 1;
            assert(out@ =~= self@.take(i as int));
        }
        assert(self@.take(n as int) =~= self@);
        out
    }

    /// Rearranges every card but the last: the card at position `j` becomes the
    /// one that was at position `order[j]`. `order` is meant to be a random
    /// permutation of the positions before the last.
    pub fn shuffle(&mut self, order: &[CardIndex])
        requires
            old(self)@.len() == 0 ==> order@.len() == 0,
            old(self)@.len() > 0 ==> is_permutation(order@, old(self)@.len() - 1),
        ensures
            final(self)@.len() == old(self)@.len(),
            forall|j: int|
                0 <= j < order@.len() ==> final(self)@[j] == old(self)@[order@[j] as int],
            old(self)@.len() > 0 ==> final(self)@.last() == old(self)@.last(),
    {
        let n = self.len();
        if n == 0 {
            return;
        }
        proof {
            use_type_invariant(&*self);
            self.lemma_len();
        }
        let ghost old_self = *self;
        let m = n - 1;
        let mut arr = self.0;
        let mut j: u8 = 0;
        while j < m
            invariant
                j <= m,
                m + 1 == n,
                n == old_self@.len(),
                n == old_self.len_spec(),
                is_len(old_self.0@, n as int),
                self.0 == old_self.0,
                is_permutation(order@, m as int),
                forall|k: int| 0 <= k < j ==> arr@[k] == old_self.0@[order@[k] as int],
                forall|k: int| j <= k < DECK_SIZE ==> arr@[k] == old_self.0@[k],
            decreases m - j,
        {
            let from = order[j as usize];
            arr[j as usize] = self.0[from as usize];
            j = j + 1;
        }
        assert(has_len(arr@)) by {
            assert(is_len(arr@, n as int));
        }
        self.0 = arr;
        proof {
            lemma_is_len_unique(self.0@, n as int, self.len_spec());
        }
    }

    /// Whether `needle` is one of the cards.
    pub fn contains(&self, needle: Card) -> (res: bool)
        ensures
            res == self@.contains(needle),
    {
        let cards = self.iter();
        let mut i: usize = 0;
        while i < cards.len()
            invariant
                i <= cards@.len(),
                cards@ == self@,
                forall|j: int| 0 <= j < i ==> cards@[j] != needle,
            decreases cards.len() - i,
        {
            if cards[i] == needle {
                return true;
            }
            i = i + 1;
        }
        false
    }

    /// The cards with their indices, in order.
    pub fn enumerated_iter(&self) -> (res: Vec<(CardIndex, Card)>)
        ensures
            res@.len() == self@.len(),
            forall|j: int| 0 <= j < res@.len() ==> #[trigger] res@[j] == (j as u8, self@[j]),
    {
        let cards = self.iter();
        let mut out: Vec<(CardIndex, Card)> = Vec::new();
        let mut i: usize = 0;
        while i < cards.len()
            invariant
                i <= cards@.len(),
                cards@ == self@,
                cards@.len() <= DECK_SIZE,
                out@.len() == i,
                forall|j: int| 0 <= j < i ==> #[trigger] out@[j] == (j as u8, self@[j]),
            decreases cards.len() - i,
        {
            out.push((i as u8, cards[i]));
            i = i + 1;
        }
        out
    }

    /// The card at `i`, if there is one.
    pub fn get(&self, i: CardIndex) -> (res: Option<Card>)
        ensures
            res == if i < self@.len() { Some(self@[i as int]) } else { None },
    {
        proof {
            use_type_invariant(self);
            self.lemma_len();
        }
        if (i as usize) < 73 {
            self.0[i as usize].option()
        } else {
            None
        }
    }

    /// Takes away the card at `index`, if there is one, moving the later cards down.
    pub fn remove(&mut self, index: CardIndex) -> (res: Option<Card>)
        requires
            index < DECK_SIZE,
        ensures
            index < old(self)@.len() ==> res == Some(old(self)@[index as int]) && final(self)@
                == old(self)@.remove(index as int),
            index >= old(self)@.len() ==> res is None && final(self)@ == old(self)@,
            res matches Some(card) ==> card < CardInner::MAX,
    {
        let output = self.get(index);
        proof {
            use_type_invariant(&*self);
            self.lemma_len();
        }
        let ghost old_self = *self;
        let ghost n = self.len_spec();
        let mut arr = self.0;
        let mut i: usize = index as usize;
        while i < 72
            invariant
                index <= i <= 72,
                self.0 == old_self.0,
                is_len(old_self.0@, n),
                forall|k: int| 0 <= k < index ==> arr@[k] == old_self.0@[k],
                forall|k: int| index <= k < i ==> arr@[k] == old_self.0@[k + 1],
                forall|k: int| i <= k < DECK_SIZE ==> arr@[k] == old_self.0@[k],
            decreases 72 - i,
        {
            arr[i] = arr[i + 1];
            i = i + 1;
        }
        arr[72] = CardOption::none();
        assert(has_len(arr@)) by {
            if index < n {
                assert(is_len(arr@, n - 1));
            } else {
                assert(arr@ =~= old_self.0@);
                assert(is_len(arr@, n));
            }
        }
        self.0 = arr;
        proof {
            if index < n {
                lemma_is_len_unique(self.0@, n - 1, self.len_spec());
                assert(self@ =~= old_self@.remove(index as int));
            } else {
                lemma_is_len_unique(self.0@, n, self.len_spec());
                assert(self@ =~= old_self@);
            }
        }
        output
    }

    /// The cards in the order that `ordering` gives, up to the first index it
    /// lists that is past the last card.
    pub fn ordering_iter(&self, ordering: &HandOrdering) -> (res: Vec<Card>)
        ensures
            is_ordered_prefix(self@, ordering@, res@),
    {
        let mut out: Vec<Card> = Vec::new();
        let mut k: usize = 0;
        proof {
            use_type_invariant(ordering);
        }
        while k < 73
            invariant
                k <= 73,
                out@.len() == k,
                ordering@.len() == 73,
                forall|j: int|
                    0 <= j < k ==> (#[trigger] ordering@[j]) < self@.len() && out@[j]
                        == self@[ordering@[j] as int],
            decreases 73 - k,
        {
            let i = ordering.index(k);
            match self.get(i) {
                Some(card) => {
                    out.push(card);
                },
                None => {
                    return out;
                },
            }
            k = k + 1;
        }
        out
    }
}

/// An order of the indices into a hand: each index appears exactly once.
#[derive(Debug)]
pub struct HandOrdering([CardIndex; 73]);

impl Clone for HandOrdering {
    fn clone(&self) -> (res: Self)
        ensures
            res@ == self@,
    {
        proof {
            use_type_invariant(self);
        }
        HandOrdering(self.0)
    }
}

impl View for HandOrdering {
    type V = Seq<CardIndex>;

    closed spec fn view(&self) -> Seq<CardIndex> {
        self.0@
    }
}

/// Whether `s` lists each of `0..DECK_SIZE` exactly once.
pub open spec fn is_full_permutation(s: Seq<CardIndex>) -> bool {
    &&& is_permutation(s, DECK_SIZE as int)
    &&& forall|v: CardIndex| v < DECK_SIZE ==> #[trigger] s.contains(v)
}

/// `s` with the element at `p` moved to the front and the others kept in order.
pub open spec fn moved_to_front(s: Seq<CardIndex>, p: int) -> Seq<CardIndex> {
    seq![s[p]] + s.subrange(0, p) + s.subrange(p + 1, s.len() as int)
}

impl HandOrdering {
    #[verifier::type_invariant]
    closed spec fn inv(self) -> bool {
        is_full_permutation(self.0@)
    }

    /// The index at position `k`.
    pub fn index(&self, k: usize) -> (res: CardIndex)
        requires
            k < DECK_SIZE,
        ensures
            res == self@[k as int],
            res < DECK_SIZE,
    {
        proof {
            use_type_invariant(self);
        }
        self.0[k]
    }

    /// Moves the index `to_move` to the front, keeping the others in order.
    pub fn move_to_first(&mut self, to_move: CardIndex)
        ensures
            is_full_permutation(final(self)@),
            to_move < DECK_SIZE ==> exists|p: int|
                0 <= p < DECK_SIZE && old(self)@[p] == to_move && final(self)@ == moved_to_front(
                    old(self)@,
                    p,
                ),
            to_move >= DECK_SIZE ==> final(self)@ == old(self)@,
    {
        proof {
            use_type_invariant(&*self);
        }
        let ghost old_s = self.0@;
        let mut currently_at: usize = 0;
        let mut found = false;
        let mut i: usize = 0;
        while i < 73 && !found
            invariant
                i <= 73,
                self.0@ == old_s,
                !found ==> currently_at == 0 && forall|j: int| 0 <= j < i ==> old_s[j] != to_move,
                found ==> currently_at < 73 && old_s[currently_at as int] == to_move,
            decreases 73 - i,
        {
            if self.0[i] == to_move {
                currently_at = i;
                found = true;
            }
            i = i + 1;
        }
        // `currently_at` is the position of `to_move`, or zero if it is absent.
        let mut arr = self.0;
        let temp = arr[currently_at];
        let mut k: usize = currently_at;
        while k > 0
            invariant
                k <= currently_at < 73,
                self.0@ == old_s,
                forall|j: int| 0 <= j <= k ==> arr@[j] == old_s[j],
                forall|j: int| k < j <= currently_at ==> arr@[j] == old_s[j - 1],
                forall|j: int| currently_at < j < 73 ==> arr@[j] == old_s[j],
            decreases k,
        {
            arr[k] = arr[k - 1];
            k = k - 1;
        }
        arr[0] = temp;
        proof {
            let p = currently_at as int;
            assert(arr@ =~= moved_to_front(old_s, p));
            if !found && to_move < DECK_SIZE {
                assert(old_s.contains(to_move));
                let w = choose|w: int| 0 <= w < old_s.len() && old_s[w] == to_move;
                assert(old_s[w] != to_move);
            }
            if found {
                assert(0 <= p < DECK_SIZE && old_s[p] == to_move && arr@ == moved_to_front(
                    old_s,
                    p,
                ));
            }
            if !found {
                assert(arr@ =~= old_s);
            }
            assert forall|j: int, k: int| 0 <= j < k < 73 implies #[trigger] arr@[j]
                != #[trigger] arr@[k] by {
                let fj = if j == 0 { p } else if j <= p { j - 1 } else { j };
                let fk = if k == 0 { p } else if k <= p { k - 1 } else { k };
                assert(arr@[j] == old_s[fj]);
                assert(arr@[k] == old_s[fk]);
                assert(fj != fk);
                if fj < fk {
                    assert(old_s[fj] != old_s[fk]);
                } else {
                    assert(old_s[fk] != old_s[fj]);
                }
            }
            assert forall|v: CardIndex| v < DECK_SIZE implies #[trigger] arr@.contains(v) by {
                assert(old_s.contains(v));
                let w = choose|w: int| 0 <= w < old_s.len() && old_s[w] == v;
                let g = if w == p { 0 } else if w < p { w + 1 } else { w };
                assert(arr@[g] == v);
            }
        }
        self.0 = arr;
        proof {
            if to_move < DECK_SIZE {
                if !found {
                    assert(old_s.contains(to_move));
                    let w = choose|w: int| 0 <= w < old_s.len() && old_s[w] == to_move;
                    assert(old_s[w] != to_move);
                }
                assert(self@ == moved_to_front(old_s, currently_at as int));
                assert(old_s[currently_at as int] == to_move);
                assert(old(self)@ == old_s);
            }
        }
    }
}

impl Default for HandOrdering {
    fn default() -> (res: HandOrdering)
        ensures
            forall|i: int| 0 <= i < DECK_SIZE ==> res@[i] == i,
    {
        let mut indexes = [0u8; 73];
        let mut i: u8 = 1;
        while i < DECK_SIZE
            invariant
                1 <= i <= DECK_SIZE,
                forall|j: int| 0 <= j < i ==> indexes@[j] == j,
            decreases DECK_SIZE - i,
        {
            indexes[i as usize] = i;
            i = i + 1;
        }
        proof {
            assert forall|j: int, k: int| 0 <= j < k < 73 implies #[trigger] indexes@[j]
                != #[trigger] indexes@[k] by {
                assert(indexes@[j] == j);
                assert(indexes@[k] == k);
            }
            assert forall|v: CardIndex| v < DECK_SIZE implies #[trigger] indexes@.contains(v) by {
                assert(indexes@[v as int] == v);
            }
        }
        HandOrdering(indexes)
    }
}

} // verus!
