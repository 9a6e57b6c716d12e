//! Plays that wait on the stack for the other players to respond to.
use vstd::prelude::*;
use crate::game::anytime::{
    DivineTarget, DivineTargets, DT_NO_FISHING, DT_THE_LURE, DT_THE_NET,
    DT_TWO_FISTED_FISHERMAN,
};
use crate::game::question::Question;
use crate::models::{Card, CpuId, HandId, LurePredicate, NetPredicate, Targeting};

verus! {

/// Who was targeted, and for the player the card they used to go fishing with.
#[derive(Clone, Copy, Debug, PartialEq, Eq, Structural)]
pub enum TargetWithUsed {
    Player(Card),
    Cpu(CpuId),
}

impl TargetWithUsed {
    pub fn target(&self) -> (res: HandId)
        ensures
            res == match *self {
                TargetWithUsed::Player(_) => HandId::Player,
                TargetWithUsed::Cpu(cpu_id) => HandId::from_cpu_spec(cpu_id),
            },
    {
        match self {
            TargetWithUsed::Player(_) => HandId::Player,
            TargetWithUsed::Cpu(cpu_id) => HandId::from(*cpu_id),
        }
    }
}

/// What a play on the stack does.
#[allow(inconsistent_fields)]
pub enum PlayKind {
    FishedUnsuccessfully { source: HandId },
    NoFishing { question: Question },
    TwoFistedFisherman { source: HandId, cancelled: bool },
    TheNet { targeting: Targeting, predicate: NetPredicate },
    TheLure { targeting: Targeting, predicate: LurePredicate },
}

/// Whether two questions ask the same thing and hold the same description.
pub open spec fn same_question(a: Question, b: Question) -> bool {
    a.targeting == b.targeting && a.predicate == b.predicate && a.description@ == b.description@
}

impl PlayKind {
    /// Whether two plays are the same, comparing questions by what they hold.
    pub open spec fn same(self, other: PlayKind) -> bool {
        match (self, other) {
            (PlayKind::NoFishing { question: a }, PlayKind::NoFishing { question: b }) => same_question(a, b),
            (PlayKind::NoFishing { .. }, _) => false,
            (_, PlayKind::NoFishing { .. }) => false,
            _ => self == other,
        }
    }

    /// Whether the play was made with a zinger.
    pub open spec fn is_zinger_spec(self) -> bool {
        !(self is FishedUnsuccessfully)
    }

    pub fn is_zinger(&self) -> (res: bool)
        ensures
            res == self.is_zinger_spec(),
    {
        match self {
            PlayKind::FishedUnsuccessfully { .. } => false,
            PlayKind::NoFishing { .. } | PlayKind::TwoFistedFisherman { .. } | PlayKind::TheNet {
                ..
            } | PlayKind::TheLure { .. } => true,
        }
    }

    /// The target divine intervention would have in cancelling this play.
    pub open spec fn divine_target_spec(self) -> Option<DivineTarget> {
        match self {
            PlayKind::NoFishing { .. } => Some(DivineTarget::NoFishing),
            PlayKind::TwoFistedFisherman { .. } => Some(DivineTarget::TwoFistedFisherman),
            PlayKind::TheNet { .. } => Some(DivineTarget::TheNet),
            PlayKind::TheLure { .. } => Some(DivineTarget::TheLure),
            PlayKind::FishedUnsuccessfully { .. } => None,
        }
    }

    pub fn divine_target(&self) -> (res: Result<DivineTarget, ()>)
        ensures
            match self.divine_target_spec() {
                Some(t) => res == Ok::<DivineTarget, ()>(t),
                None => res is Err,
            },
    {
        match self {
            PlayKind::NoFishing { .. } => Ok(DivineTarget::NoFishing),
            PlayKind::TwoFistedFisherman { .. } => Ok(DivineTarget::TwoFistedFisherman),
            PlayKind::TheNet { .. } => Ok(DivineTarget::TheNet),
            PlayKind::TheLure { .. } => Ok(DivineTarget::TheLure),
            PlayKind::FishedUnsuccessfully { .. } => Err(()),
        }
    }

    /// The flag of the target divine intervention would have in cancelling this
    /// play.
    pub open spec fn divine_targets_spec(self) -> Option<DivineTargets> {
        match self {
            PlayKind::NoFishing { .. } => Some(DT_NO_FISHING),
            PlayKind::TwoFistedFisherman { .. } => Some(DT_TWO_FISTED_FISHERMAN),
            PlayKind::TheNet { .. } => Some(DT_THE_NET),
            PlayKind::TheLure { .. } => Some(DT_THE_LURE),
            PlayKind::FishedUnsuccessfully { .. } => None,
        }
    }

    pub fn divine_targets(&self) -> (res: Result<DivineTargets, ()>)
        ensures
            match self.divine_targets_spec() {
                Some(t) => res == Ok::<DivineTargets, ()>(t),
                None => res is Err,
            },
    {
        match self {
            PlayKind::NoFishing { .. } => Ok(DT_NO_FISHING),
            PlayKind::TwoFistedFisherman { .. } => Ok(DT_TWO_FISTED_FISHERMAN),
            PlayKind::TheNet { .. } => Ok(DT_THE_NET),
            PlayKind::TheLure { .. } => Ok(DT_THE_LURE),
            PlayKind::FishedUnsuccessfully { .. } => Err(()),
        }
    }
}

impl Clone for PlayKind {
    fn clone(&self) -> (res: Self)
        ensures
            res.same(*self),
    {
        match self {
            PlayKind::FishedUnsuccessfully { source } => PlayKind::FishedUnsuccessfully {
                source: *source,
            },
            PlayKind::NoFishing { question } => PlayKind::NoFishing { question: question.clone() },
            PlayKind::TwoFistedFisherman { source, cancelled } => PlayKind::TwoFistedFisherman {
                source: *source,
                cancelled: *cancelled,
            },
            PlayKind::TheNet { targeting, predicate } => PlayKind::TheNet {
                targeting: *targeting,
                predicate: *predicate,
            },
            PlayKind::TheLure { targeting, predicate } => PlayKind::TheLure {
                targeting: *targeting,
                predicate: *predicate,
            },
        }
    }
}

/// A play waiting for responses: the order in which the players get to respond,
/// how far that has got, and the play itself.
pub struct Play {
    pub sub_turn_ids: [HandId; 4],
    pub sub_turn_index: u8,
    pub kind: PlayKind,
}

impl Play {
    /// Whether two plays are the same, comparing questions by what they hold.
    pub open spec fn same(self, other: Play) -> bool {
        self.sub_turn_ids == other.sub_turn_ids && self.sub_turn_index == other.sub_turn_index
            && self.kind.same(other.kind)
    }

    pub fn is_zinger(&self) -> (res: bool)
        ensures
            res == self.kind.is_zinger_spec(),
    {
        self.kind.is_zinger()
    }
}

impl Clone for Play {
    fn clone(&self) -> (res: Self)
        ensures
            res.same(*self),
    {
        Play {
            sub_turn_ids: self.sub_turn_ids,
            sub_turn_index: self.sub_turn_index,
            kind: self.kind.clone(),
        }
    }
}

} // verus!
