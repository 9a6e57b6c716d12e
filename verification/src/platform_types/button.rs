//! Sets of gamepad buttons. The bit values match the NES input registers.
use vstd::prelude::*;

verus! {

/// A set of buttons, one bit each.
#[derive(Copy, Clone, Default, Debug, PartialEq, Eq, Structural)]
pub struct Button(u8);

impl View for Button {
    type V = u8;

    closed spec fn view(&self) -> u8 {
        self.0
    }
}

#[allow(non_snake_case)]
impl Button {
    pub open spec fn a_spec() -> Button {
        Button::from_bits_spec(1)
    }

    pub open spec fn up_spec() -> Button {
        Button::from_bits_spec(16)
    }

    pub open spec fn down_spec() -> Button {
        Button::from_bits_spec(32)
    }

    pub open spec fn left_spec() -> Button {
        Button::from_bits_spec(64)
    }

    pub open spec fn right_spec() -> Button {
        Button::from_bits_spec(128)
    }

    /// The set with exactly the given bits.
    pub closed spec fn from_bits_spec(bits: u8) -> Button {
        Button(bits)
    }

    pub proof fn lemma_from_bits_view(bits: u8)
        ensures
            Button::from_bits_spec(bits)@ == bits,
    {
    }

    pub fn A() -> (res: Self)
        ensures
            res@ == 1,
            res == Button::a_spec(),
    {
        Button(1)
    }

    pub fn B() -> (res: Self)
        ensures
            res@ == 2,
    {
        Button(2)
    }

    pub fn SELECT() -> (res: Self)
        ensures
            res@ == 4,
    {
        Button(4)
    }

    pub fn START() -> (res: Self)
        ensures
            res@ == 8,
    {
        Button(8)
    }

    pub fn UP() -> (res: Self)
        ensures
            res == Button::up_spec(),
            res@ == 16,
    {
        Button(16)
    }

    pub fn DOWN() -> (res: Self)
        ensures
            res == Button::down_spec(),
            res@ == 32,
    {
        Button(32)
    }

    pub fn LEFT() -> (res: Self)
        ensures
            res == Button::left_spec(),
            res@ == 64,
    {
        Button(64)
    }

    pub fn RIGHT() -> (res: Self)
        ensures
            res == Button::right_spec(),
            res@ == 128,
    {
        Button(128)
    }

    /// The help button, which is the select button.
    pub fn HELP() -> (res: Self)
        ensures
            res@ == 4,
    {
        Button::SELECT()
    }

    pub open spec fn spec_contains(&self, other: Self) -> bool {
        self@ & other@ == other@
    }

    /// Whether every button of `other` is in this set.
    pub fn contains(&self, other: Self) -> (res: bool)
        ensures
            res == self.spec_contains(other),
    {
        self.0 & other.0 == other.0
    }

    /// Adds the buttons of `other`.
    pub fn insert(&mut self, other: Self)
        ensures
            final(self)@ == old(self)@ | other@,
    {
        self.0 = self.0 | other.0;
    }

    /// Takes away the buttons of `other`.
    pub fn remove(&mut self, other: Self)
        ensures
            final(self)@ == old(self)@ & !other@,
    {
        self.0 = self.0 & !other.0;
    }
}

/// After inserting a set of buttons, all of them are contained.
pub proof fn lemma_insert_then_contains(set: u8, other: u8)
    ensures
        (set | other) & other == other,
{
    assert((set | other) & other == other) by (bit_vector);
}

/// After removing a non-empty set of buttons, that set is no longer contained,
/// and every button that was not removed stays as it was.
pub proof fn lemma_remove_then_not_contains(set: u8, other: u8)
    requires
        other != 0,
    ensures
        (set & !other) & other != other,
        forall|b: u8| #![auto] b & other == 0 ==> ((set & !other) & b == b <==> set & b == b),
{
    assert((set & !other) & other != other) by (bit_vector)
        requires
            other != 0u8,
    ;
    assert forall|b: u8| #![auto] b & other == 0 implies ((set & !other) & b == b <==> set & b
        == b) by {
        assert(b & other == 0 ==> ((set & !other) & b == b <==> set & b == b)) by (bit_vector);
    }
}

/// Removing a set of buttons that were just inserted into a set that held none of
/// them gives back the set.
pub proof fn lemma_remove_undoes_insert(set: u8, other: u8)
    requires
        set & other == 0,
    ensures
        (set | other) & !other == set,
{
    assert((set | other) & !other == set) by (bit_vector)
        requires
            set & other == 0u8,
    ;
}

} // verus!
