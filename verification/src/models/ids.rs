//! Who holds a hand.
use vstd::prelude::*;
use vstd::string::StringSliceAdditionalSpecFns;

verus! {

#[derive(Clone, Copy, Debug, Default, PartialEq, Eq, Structural)]
pub enum HandId {
    #[default]
    Player,
    Cpu1,
    Cpu2,
    Cpu3,
}

pub type TurnId = HandId;

#[derive(Clone, Copy, Debug, Default, PartialEq, Eq, Structural)]
pub enum CpuId {
    #[default]
    One,
    Two,
    Three,
}

impl HandId {
    /// The hand of a computer player.
    pub open spec fn from_cpu_spec(cpu_id: CpuId) -> HandId {
        match cpu_id {
            CpuId::One => HandId::Cpu1,
            CpuId::Two => HandId::Cpu2,
            CpuId::Three => HandId::Cpu3,
        }
    }
}

impl From<CpuId> for HandId {
    fn from(cpu_id: CpuId) -> (res: Self) {
        match cpu_id {
            CpuId::One => Self::Cpu1,
            CpuId::Two => Self::Cpu2,
            CpuId::Three => Self::Cpu3,
        }
    }
}

impl vstd::std_specs::convert::FromSpecImpl<CpuId> for HandId {
    open spec fn obeys_from_spec() -> bool {
        true
    }

    open spec fn from_spec(cpu_id: CpuId) -> HandId {
        HandId::from_cpu_spec(cpu_id)
    }
}

impl HandId {
    pub const COUNT: u8 = 4;

    pub const ALL: [HandId; 4] = [HandId::Player, HandId::Cpu1, HandId::Cpu2, HandId::Cpu3];

    pub const CPUS: [HandId; 3] = [HandId::Cpu1, HandId::Cpu2, HandId::Cpu3];

    /// The position of the hand in `HandId::ALL`.
    pub open spec fn index(self) -> int {
        match self {
            HandId::Player => 0,
            HandId::Cpu1 => 1,
            HandId::Cpu2 => 2,
            HandId::Cpu3 => 3,
        }
    }

    pub open spec fn from_index(i: int) -> HandId {
        if i == 0 {
            HandId::Player
        } else if i == 1 {
            HandId::Cpu1
        } else if i == 2 {
            HandId::Cpu2
        } else {
            HandId::Cpu3
        }
    }

    pub fn to_u8(self) -> (res: u8)
        ensures
            res == self.index(),
    {
        self as u8
    }

    /// The hand at position `i` of `HandId::ALL`.
    pub fn from_u8(i: u8) -> (res: HandId)
        requires
            i < 4,
        ensures
            res == HandId::from_index(i as int),
            res.index() == i,
    {
        HandId::ALL[i as usize]
    }

    /// The name of the holder of the hand.
    pub open spec fn name(self) -> &'static str {
        match self {
            HandId::Player => "Player",
            HandId::Cpu1 => "Cpu 1",
            HandId::Cpu2 => "Cpu 2",
            HandId::Cpu3 => "Cpu 3",
        }
    }

    /// The name of the holder of the hand, as bytes.
    pub fn text(self) -> (res: &'static [u8])
        ensures
            res@ == self.name().spec_bytes(),
    {
        match self {
            HandId::Player => "Player".as_bytes(),
            HandId::Cpu1 => "Cpu 1".as_bytes(),
            HandId::Cpu2 => "Cpu 2".as_bytes(),
            HandId::Cpu3 => "Cpu 3".as_bytes(),
        }
    }

    /// The other hands, in turn order starting after this one.
    pub open spec fn besides_spec(self) -> Seq<HandId> {
        seq![
            HandId::from_index((self.index() + 1) % 4),
            HandId::from_index((self.index() + 2) % 4),
            HandId::from_index((self.index() + 3) % 4),
        ]
    }

    /// The other hands, in turn order starting after this one.
    pub fn besides(self) -> (res: [HandId; 3])
        ensures
            res@ == self.besides_spec(),
    {
        match self {
            HandId::Player => Self::CPUS,
            HandId::Cpu1 => [HandId::Cpu2, HandId::Cpu3, HandId::Player],
            HandId::Cpu2 => [HandId::Cpu3, HandId::Player, HandId::Cpu1],
            HandId::Cpu3 => [HandId::Player, HandId::Cpu1, HandId::Cpu2],
        }
    }

    /// Every hand, in turn order starting after this one, so this one comes last.
    pub fn next_to_current(self) -> (res: [HandId; 4])
        ensures
            res@ == self.besides_spec().push(self),
    {
        let others = self.besides();
        let res = [others[0], others[1], others[2], self];
        assert(res@ =~= self.besides_spec().push(self));
        res
    }

    /// The hand whose turn comes after this one's.
    pub fn next_looping(self) -> (res: Self)
        ensures
            res == HandId::from_index((self.index() + 1) % 4),
    {
        let mut i: usize = 0;
        loop
            invariant
                i < 4,
                forall|j: int| 0 <= j < i ==> HandId::from_index(j) != self,
            decreases 4 - i,
        {
            if Self::ALL[i] == self {
                return Self::ALL[(i + 1) % 4];
            }
            i = i + 1;
            assert(i < 4) by {
                assert(HandId::from_index(self.index()) == self);
            }
        }
    }

    /// This hand acting on `target`.
    pub fn with_target(self, target: HandId) -> (res: Targeting)
        ensures
            res.source == self,
            res.target == target,
    {
        Targeting { source: self, target }
    }
}

/// One hand acting on another.
#[derive(Clone, Copy, Debug, PartialEq, Eq, Structural)]
pub struct Targeting {
    pub source: HandId,
    pub target: HandId,
}

impl CpuId {
    pub const COUNT: u8 = 3;

    pub const ALL: [CpuId; 3] = [CpuId::One, CpuId::Two, CpuId::Three];

    pub open spec fn index(self) -> int {
        match self {
            CpuId::One => 0,
            CpuId::Two => 1,
            CpuId::Three => 2,
        }
    }

    /// The computer player that holds a hand, if a computer player holds it.
    pub open spec fn try_from_hand_spec(hand_id: HandId) -> Option<CpuId> {
        match hand_id {
            HandId::Player => None,
            HandId::Cpu1 => Some(CpuId::One),
            HandId::Cpu2 => Some(CpuId::Two),
            HandId::Cpu3 => Some(CpuId::Three),
        }
    }

    /// The computer player that holds a hand; `Err(())` for the player's hand.
    pub fn try_from_hand(hand_id: HandId) -> (res: Result<CpuId, ()>)
        ensures
            res matches Ok(c) ==> CpuId::try_from_hand_spec(hand_id) == Some(c),
            res is Err ==> CpuId::try_from_hand_spec(hand_id) is None,
    {
        match hand_id {
            HandId::Player => Err(()),
            HandId::Cpu1 => Ok(CpuId::One),
            HandId::Cpu2 => Ok(CpuId::Two),
            HandId::Cpu3 => Ok(CpuId::Three),
        }
    }

    /// The name of the computer player.
    pub open spec fn name(self) -> &'static str {
        HandId::from_cpu_spec(self).name()
    }

    /// The name of the computer player, as bytes.
    pub fn text(self) -> (res: &'static [u8])
        ensures
            res@ == self.name().spec_bytes(),
    {
        HandId::from(self).text()
    }

    /// What a computer player says when it has something.
    pub open spec fn has_name(self) -> &'static str {
        match self {
            CpuId::One => "Cpu 1 has",
            CpuId::Two => "Cpu 2 has",
            CpuId::Three => "Cpu 3 has",
        }
    }

    /// What a computer player says when it has something, as bytes.
    pub fn has_text(self) -> (res: &'static [u8])
        ensures
            res@ == self.has_name().spec_bytes(),
    {
        match self {
            CpuId::One => "Cpu 1 has".as_bytes(),
            CpuId::Two => "Cpu 2 has".as_bytes(),
            CpuId::Three => "Cpu 3 has".as_bytes(),
        }
    }

    /// The computer player after this one, the last being followed by the first.
    pub open spec fn next(self) -> CpuId {
        match self {
            CpuId::One => CpuId::Two,
            CpuId::Two => CpuId::Three,
            CpuId::Three => CpuId::One,
        }
    }

    /// The computer player before this one, the first being preceded by the last.
    pub open spec fn prev(self) -> CpuId {
        match self {
            CpuId::One => CpuId::Three,
            CpuId::Two => CpuId::One,
            CpuId::Three => CpuId::Two,
        }
    }

    pub fn wrapping_inc(self) -> (res: Self)
        ensures
            res == self.next(),
    {
        match self {
            CpuId::One => CpuId::Two,
            CpuId::Two => CpuId::Three,
            CpuId::Three => CpuId::One,
        }
    }

    pub fn wrapping_dec(self) -> (res: Self)
        ensures
            res == self.prev(),
    {
        match self {
            CpuId::One => CpuId::Three,
            CpuId::Two => CpuId::One,
            CpuId::Three => CpuId::Two,
        }
    }

    /// Steps through the computer players in order, stopping after the last one:
    /// moves to the next one and returns it, or returns `None` at the last one.
    pub fn next_in_order(&mut self) -> (res: Option<CpuId>)
        ensures
            *old(self) == CpuId::Three ==> res is None && *final(self) == *old(self),
            *old(self) != CpuId::Three ==> res == Some(old(self).next()) && *final(self) == old(
                self,
            ).next(),
    {
        match *self {
            CpuId::One => {
                *self = CpuId::Two;
                Some(*self)
            },
            CpuId::Two => {
                *self = CpuId::Three;
                Some(*self)
            },
            CpuId::Three => None,
        }
    }
}

/// No hand is among the hands besides it, and every other hand is, each once.
pub proof fn lemma_besides_is_the_others(id: HandId, other: HandId)
    ensures
        !id.besides_spec().contains(id),
        other != id ==> id.besides_spec().contains(other),
        id.besides_spec()[0] != id.besides_spec()[1],
        id.besides_spec()[0] != id.besides_spec()[2],
        id.besides_spec()[1] != id.besides_spec()[2],
{
    let b = id.besides_spec();
    if other != id {
        if other.index() == (id.index() + 1) % 4 {
            assert(b[0] == other);
        } else if other.index() == (id.index() + 2) % 4 {
            assert(b[1] == other);
        } else {
            assert(b[2] == other);
        }
    }
    if b.contains(id) {
        let i = choose|i: int| 0 <= i < b.len() && b[i] == id;
        assert(b[i] != id);
    }
}

/// Four turns bring the turn back to the same hand.
pub proof fn lemma_next_looping_cycles(id: HandId)
    ensures
        ({
            let next = |h: HandId| HandId::from_index((h.index() + 1) % 4);
            next(next(next(next(id)))) == id
        }),
{
}

/// Stepping a computer player forward then back, or back then forward, gives it back.
pub proof fn lemma_cpu_inc_dec_inverse(cpu: CpuId)
    ensures
        cpu.next().prev() == cpu,
        cpu.prev().next() == cpu,
{
}

} // verus!
