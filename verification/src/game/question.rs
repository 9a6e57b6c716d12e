//! A question one player asks another, and its descriptions.
use vstd::prelude::*;
use vstd::string::{is_ascii, is_ascii_spec_bytes, StringSliceAdditionalSpecFns};
use crate::game::text::{append_bytes, bytes_reflow_in_place, reflow};
use crate::models::{Card, HandId, NetPredicate, Predicate, Rank, Suit, Targeting};
use crate::platform_types::unscaled::W;

verus! {

/// The width in pixels that a character of text takes up, spacing included.
pub const CHAR_ADVANCE_WIDTH: u16 = 7;

/// How a predicate is described: "the Red Barnacle", "a Red card" or "a Barnacle
/// card".
pub open spec fn predicate_text(predicate: Predicate) -> Seq<u8> {
    match predicate {
        Predicate::RankSuit(rank, suit) => "the ".spec_bytes() + suit.name().spec_bytes() + seq![32u8]
            + rank.name().spec_bytes(),
        Predicate::Net(NetPredicate::Suit(suit)) => "a ".spec_bytes() + suit.name().spec_bytes()
            + " card".spec_bytes(),
        Predicate::Net(NetPredicate::Rank(rank)) => "a ".spec_bytes() + rank.name().spec_bytes()
            + " card".spec_bytes(),
    }
}

/// How the player asks: "Cpu 1, do you have the Red Barnacle?".
pub open spec fn ask_text(targeting: Targeting, predicate: Predicate) -> Seq<u8> {
    targeting.target.name().spec_bytes() + ", do you have ".spec_bytes() + predicate_text(
        predicate,
    ) + seq![63u8]
}

/// How a computer player's question is reported, before reflowing.
pub open spec fn cpu_ask_text(targeting: Targeting, predicate: Predicate) -> Seq<u8> {
    targeting.source.name().spec_bytes() + " asks \"".spec_bytes()
        + targeting.target.name().spec_bytes() + ", do you have ".spec_bytes() + predicate_text(
        predicate,
    ) + seq![63u8, 34u8]
}

/// How the result of fishing is reported to the player, before reflowing.
pub open spec fn fished_text(predicate: Predicate, drew: Option<Card>) -> Seq<u8> {
    "You asked for ".spec_bytes() + predicate_text(predicate) + match drew {
        Some(card) => if predicate.matches_spec(card) {
            " and you got what you asked for!".spec_bytes()
        } else {
            " but you didn't get it.".spec_bytes()
        },
        None => " but the fish pond was empty!".spec_bytes(),
    }
}

/// The number of characters that fit in `width` pixels.
pub open spec fn width_in_chars(width: W) -> int {
    width.0 as int / CHAR_ADVANCE_WIDTH as int
}

proof fn lemma_rank_name_short(rank: Rank)
    ensures
        rank.name().spec_bytes().len() <= 16,
{
    reveal_strlit("Barnacle");
    reveal_strlit("Crab");
    reveal_strlit("Dogfish");
    reveal_strlit("Eel");
    reveal_strlit("Flying Fish");
    reveal_strlit("Hammerhead");
    reveal_strlit("Jellyfish");
    reveal_strlit("Shrimp");
    reveal_strlit("Blowfish");
    reveal_strlit("Clownfish");
    reveal_strlit("Starfish");
    reveal_strlit("Whale");
    reveal_strlit("Card Shark");
    let s = rank.name();
    assert(is_ascii(s));
    is_ascii_spec_bytes(s);
}

proof fn lemma_suit_name_short(suit: Suit)
    ensures
        suit.name().spec_bytes().len() <= 16,
{
    reveal_strlit("Red");
    reveal_strlit("Green");
    reveal_strlit("Blue");
    reveal_strlit("Yellow");
    reveal_strlit("Purple");
    let s = suit.name();
    assert(is_ascii(s));
    is_ascii_spec_bytes(s);
}

proof fn lemma_hand_name_short(id: HandId)
    ensures
        id.name().spec_bytes().len() <= 16,
{
    reveal_strlit("Player");
    reveal_strlit("Cpu 1");
    reveal_strlit("Cpu 2");
    reveal_strlit("Cpu 3");
    let s = id.name();
    assert(is_ascii(s));
    is_ascii_spec_bytes(s);
}

proof fn lemma_literals_short()
    ensures
        "the ".spec_bytes().len() <= 40,
        "a ".spec_bytes().len() <= 40,
        " card".spec_bytes().len() <= 40,
        ", do you have ".spec_bytes().len() <= 40,
        " asks \"".spec_bytes().len() <= 40,
        "You asked for ".spec_bytes().len() <= 40,
        " and you got what you asked for!".spec_bytes().len() <= 40,
        " but you didn't get it.".spec_bytes().len() <= 40,
        " but the fish pond was empty!".spec_bytes().len() <= 40,
{
    reveal_strlit("the ");
    assert(is_ascii("the "));
    is_ascii_spec_bytes("the ");
    reveal_strlit("a ");
    assert(is_ascii("a "));
    is_ascii_spec_bytes("a ");
    reveal_strlit(" card");
    assert(is_ascii(" card"));
    is_ascii_spec_bytes(" card");
    reveal_strlit(", do you have ");
    assert(is_ascii(", do you have "));
    is_ascii_spec_bytes(", do you have ");
    reveal_strlit(" asks \"");
    assert(is_ascii(" asks \""));
    is_ascii_spec_bytes(" asks \"");
    reveal_strlit("You asked for ");
    assert(is_ascii("You asked for "));
    is_ascii_spec_bytes("You asked for ");
    reveal_strlit(" and you got what you asked for!");
    assert(is_ascii(" and you got what you asked for!"));
    is_ascii_spec_bytes(" and you got what you asked for!");
    reveal_strlit(" but you didn't get it.");
    assert(is_ascii(" but you didn't get it."));
    is_ascii_spec_bytes(" but you didn't get it.");
    reveal_strlit(" but the fish pond was empty!");
    assert(is_ascii(" but the fish pond was empty!"));
    is_ascii_spec_bytes(" but the fish pond was empty!");
}

proof fn lemma_predicate_text_short(predicate: Predicate)
    ensures
        predicate_text(predicate).len() <= 120,
{
    lemma_literals_short();
    match predicate {
        Predicate::RankSuit(rank, suit) => {
            lemma_rank_name_short(rank);
            lemma_suit_name_short(suit);
        },
        Predicate::Net(NetPredicate::Suit(suit)) => {
            lemma_suit_name_short(suit);
        },
        Predicate::Net(NetPredicate::Rank(rank)) => {
            lemma_rank_name_short(rank);
        },
    }
}

/// A question: who asks whom, for what.
pub struct Question {
    pub targeting: Targeting,
    pub predicate: Predicate,
    /// The last description made.
    pub description: Vec<u8>,
}

impl Clone for Question {
    fn clone(&self) -> (res: Self)
        ensures
            res.targeting == self.targeting,
            res.predicate == self.predicate,
            res.description_spec() == self.description_spec(),
    {
        let mut description: Vec<u8> = Vec::new();
        append_bytes(&mut description, self.description.as_slice());
        assert(description@ =~= self.description@);
        Question { targeting: self.targeting, predicate: self.predicate, description }
    }
}

impl Question {
    /// The last description made.
    pub open spec fn description_spec(self) -> Seq<u8> {
        self.description@
    }

    pub fn new(targeting: Targeting, predicate: Predicate) -> (res: Self)
        ensures
            res.targeting == targeting,
            res.predicate == predicate,
            res.description_spec().len() == 0,
    {
        Question { targeting, predicate, description: Vec::new() }
    }

    /// Who is asked.
    pub fn target(&self) -> (res: HandId)
        ensures
            res == self.targeting.target,
    {
        self.targeting.target
    }

    fn append_predicate_description(&mut self)
        ensures
            final(self).targeting == old(self).targeting,
            final(self).predicate == old(self).predicate,
            final(self).description_spec() == old(self).description_spec() + predicate_text(
                old(self).predicate,
            ),
    {
        match self.predicate {
            Predicate::RankSuit(rank, suit) => {
                append_bytes(&mut self.description, "the ".as_bytes());
                append_bytes(&mut self.description, suit.text());
                self.description.push(32u8);
                append_bytes(&mut self.description, rank.text());
            },
            Predicate::Net(NetPredicate::Suit(suit)) => {
                append_bytes(&mut self.description, "a ".as_bytes());
                append_bytes(&mut self.description, suit.text());
                append_bytes(&mut self.description, " card".as_bytes());
            },
            Predicate::Net(NetPredicate::Rank(rank)) => {
                append_bytes(&mut self.description, "a ".as_bytes());
                append_bytes(&mut self.description, rank.text());
                append_bytes(&mut self.description, " card".as_bytes());
            },
        }
        assert(self.description@ =~= old(self).description@ + predicate_text(old(self).predicate));
    }

    /// Describes the question as the player asks it.
    pub fn fresh_ask_description(&mut self) -> (res: &[u8])
        ensures
            final(self).targeting == old(self).targeting,
            final(self).predicate == old(self).predicate,
            res@ == ask_text(old(self).targeting, old(self).predicate),
    {
        self.description.clear();
        append_bytes(&mut self.description, self.targeting.target.text());
        append_bytes(&mut self.description, ", do you have ".as_bytes());
        self.append_predicate_description();
        self.description.push(63u8);
        assert(self.description@ =~= ask_text(self.targeting, self.predicate));
        self.description.as_slice()
    }

    /// Describes the question as a computer player asks it, reflowed to `width`.
    pub fn fresh_cpu_ask_description(&mut self, width: W) -> (res: &[u8])
        ensures
            final(self).targeting == old(self).targeting,
            final(self).predicate == old(self).predicate,
            res@ == reflow(cpu_ask_text(old(self).targeting, old(self).predicate), width_in_chars(width)),
    {
        self.description.clear();
        append_bytes(&mut self.description, self.targeting.source.text());
        append_bytes(&mut self.description, " asks \"".as_bytes());
        append_bytes(&mut self.description, self.targeting.target.text());
        append_bytes(&mut self.description, ", do you have ".as_bytes());
        self.append_predicate_description();
        self.description.push(63u8);
        self.description.push(34u8);
        assert(self.description@ =~= cpu_ask_text(self.targeting, self.predicate));
        proof {
            lemma_literals_short();
            lemma_hand_name_short(self.targeting.source);
            lemma_hand_name_short(self.targeting.target);
            lemma_predicate_text_short(self.predicate);
        }
        let chars = (width.0 / CHAR_ADVANCE_WIDTH) as usize;
        bytes_reflow_in_place(&mut self.description, chars);
        self.description.as_slice()
    }

    /// Describes what the player got by fishing, reflowed to `width`.
    pub fn fresh_fished_description(&mut self, drew: Option<Card>, width: W) -> (res: &[u8])
        ensures
            final(self).targeting == old(self).targeting,
            final(self).predicate == old(self).predicate,
            res@ == reflow(fished_text(old(self).predicate, drew), width_in_chars(width)),
    {
        self.description.clear();
        append_bytes(&mut self.description, "You asked for ".as_bytes());
        self.append_predicate_description();
        match drew {
            Some(card) => {
                if self.predicate.matches(card) {
                    append_bytes(&mut self.description, " and you got what you asked for!".as_bytes());
                } else {
                    append_bytes(&mut self.description, " but you didn't get it.".as_bytes());
                }
            },
            None => {
                append_bytes(&mut self.description, " but the fish pond was empty!".as_bytes());
            },
        }
        assert(self.description@ =~= fished_text(self.predicate, drew));
        proof {
            lemma_literals_short();
            lemma_predicate_text_short(self.predicate);
        }
        let chars = (width.0 / CHAR_ADVANCE_WIDTH) as usize;
        bytes_reflow_in_place(&mut self.description, chars);
        self.description.as_slice()
    }
}

} // verus!
