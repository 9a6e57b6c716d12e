//! Which step of the game runs in a frame: who acts, and in which of the
//! player's windows.
use vstd::prelude::*;
use crate::game::resolve::responder_spec;
use crate::game::state::{PlayerAskingSubMenu, PlayerMenu, PlayerSelectingSubMenu, State};
use crate::models::HandId;

verus! {

/// What happens in a frame once the cards have stopped moving.
#[derive(Clone, Copy, Debug, PartialEq, Eq, Structural)]
pub enum Step {
    /// The hand may respond to the play on top of the stack, or to the turn.
    Respond(HandId),
    /// Everyone has had the chance to respond: the play on top of the stack
    /// takes effect.
    Resolve,
    /// The hand whose turn it is acts.
    Turn(HandId),
}

/// The step that runs: a responder while anyone in the current order has yet
/// to respond, then the play on top of the stack, then the turn.
pub open spec fn step_spec(state: State) -> Step {
    match responder_spec(state) {
        Some(id) => Step::Respond(id),
        None => if state.stack@.len() > 0 {
            Step::Resolve
        } else {
            Step::Turn(state.turn_id)
        },
    }
}

/// Which window of the player's turn takes the frame.
#[derive(Clone, Copy, Debug, PartialEq, Eq, Structural)]
pub enum PlayerStep {
    /// No card is at the selection, as when the hand is empty.
    DeadInTheWater,
    Select,
    Anytime,
    Message,
    DiscardDivine,
    Asking,
    TwoFistedFisherman,
    Fished,
    Net,
    Lure,
}

/// The window of the player's turn: with no card at the selection the hand is
/// dead in the water; otherwise the open menu.
pub open spec fn player_step_spec(state: State) -> PlayerStep {
    if state.selection.card_index >= state.cards.player@.len() {
        PlayerStep::DeadInTheWater
    } else {
        match state.selection.player_menu {
            PlayerMenu::Selecting { sub_menu } => match sub_menu {
                PlayerSelectingSubMenu::Root => PlayerStep::Select,
                PlayerSelectingSubMenu::Anytime(..) => PlayerStep::Anytime,
                PlayerSelectingSubMenu::Message(_) => PlayerStep::Message,
                PlayerSelectingSubMenu::DiscardDivineIntervention => PlayerStep::DiscardDivine,
            },
            PlayerMenu::Asking { sub_menu, .. } => match sub_menu {
                PlayerAskingSubMenu::Root => PlayerStep::Asking,
                PlayerAskingSubMenu::TwoFistedFisherman => PlayerStep::TwoFistedFisherman,
            },
            PlayerMenu::Fished { .. } => PlayerStep::Fished,
            PlayerMenu::Net { .. } => PlayerStep::Net,
            PlayerMenu::Lure { .. } => PlayerStep::Lure,
        }
    }
}

impl State {
    /// The step that runs this frame, as `step_spec` says; `None` while cards
    /// are still moving.
    pub fn next_step(&self) -> (res: Option<Step>)
        ensures
            res == if forall|i: int|
                0 <= i < self.animations.slots().len() ==> (#[trigger] self.animations.slots()[i]).is_done_spec() {
                Some(step_spec(*self))
            } else {
                None
            },
    {
        if !self.animations.all_done() {
            return None;
        }
        match self.responder() {
            Some(id) => Some(Step::Respond(id)),
            None => if self.stack.len() > 0 {
                Some(Step::Resolve)
            } else {
                Some(Step::Turn(self.turn_id))
            },
        }
    }

    /// The window of the player's turn, as `player_step_spec` says.
    pub fn player_step(&self) -> (res: PlayerStep)
        ensures
            res == player_step_spec(*self),
    {
        if self.selection.card_index >= self.cards.player.len() {
            return PlayerStep::DeadInTheWater;
        }
        match &self.selection.player_menu {
            PlayerMenu::Selecting { sub_menu } => match sub_menu {
                PlayerSelectingSubMenu::Root => PlayerStep::Select,
                PlayerSelectingSubMenu::Anytime(..) => PlayerStep::Anytime,
                PlayerSelectingSubMenu::Message(_) => PlayerStep::Message,
                PlayerSelectingSubMenu::DiscardDivineIntervention => PlayerStep::DiscardDivine,
            },
            PlayerMenu::Asking { sub_menu, .. } => match sub_menu {
                PlayerAskingSubMenu::Root => PlayerStep::Asking,
                PlayerAskingSubMenu::TwoFistedFisherman => PlayerStep::TwoFistedFisherman,
            },
            PlayerMenu::Fished { .. } => PlayerStep::Fished,
            PlayerMenu::Net { .. } => PlayerStep::Net,
            PlayerMenu::Lure { .. } => PlayerStep::Lure,
        }
    }
}

} // verus!
