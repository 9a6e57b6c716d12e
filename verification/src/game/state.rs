//! The state of a whole game, the menus the player moves through, and what
//! happens to the cards from one frame to the next.
use vstd::prelude::*;
use crate::game::animation::{lemma_first_free_in_range, idle_animation, Animation, AnimationAction, Animations};
use crate::game::layout::deck_xy;
use crate::game::zingers::push_spec;
use crate::game::anytime::{AnytimeCard, DivineTarget};
use crate::game::anytime_play::AvailablePlayAnytime;
use crate::game::cards::Cards;
use crate::models::Hand;
use crate::game::layout::{card_position_spec, get_card_insert_position, spread, spread_spec};
use crate::game::play::Play;
use crate::game::question::Question;
use crate::game::ui::{Context, Id};
use crate::memories::Memories;
use crate::models::{Card, CardIndex, CardInner, CpuId, HandId, LurePredicate, NetPredicate, Rank, DECK_SIZE};
use crate::platform_types::Input;
use crate::platform_types::unscaled::{X, Y, XY};

verus! {

/// What the pause screen shows.
#[derive(Copy, Clone, Debug, PartialEq, Eq, Structural)]
pub enum PausedKind {
    Baskets,
    Memories,
}

impl Default for PausedKind {
    fn default() -> (res: Self)
        ensures
            res == PausedKind::Baskets,
    {
        PausedKind::Baskets
    }
}

impl PausedKind {
    pub open spec fn other(self) -> PausedKind {
        match self {
            PausedKind::Baskets => PausedKind::Memories,
            PausedKind::Memories => PausedKind::Baskets,
        }
    }

    /// The screen before this one; with two screens, the other one.
    pub fn wrapping_dec(self) -> (res: Self)
        ensures
            res == self.other(),
    {
        match self {
            Self::Baskets => Self::Memories,
            Self::Memories => Self::Baskets,
        }
    }

    /// The screen after this one; with two screens, the other one.
    pub fn wrapping_inc(self) -> (res: Self)
        ensures
            res == self.other(),
    {
        match self {
            Self::Baskets => Self::Memories,
            Self::Memories => Self::Baskets,
        }
    }
}

/// Whether the game is paused, and if so on which screen.
#[derive(Copy, Clone, Debug, PartialEq, Eq, Structural)]
pub enum PausedStateKind {
    Un,
    Paused(PausedKind),
}

impl Default for PausedStateKind {
    fn default() -> (res: Self)
        ensures
            res == PausedStateKind::Un,
    {
        PausedStateKind::Un
    }
}

impl PausedStateKind {
    /// The screen to show on switching from playing to paused.
    pub fn paused_default() -> (res: Self)
        ensures
            res == PausedStateKind::Paused(PausedKind::Baskets),
    {
        PausedStateKind::Paused(PausedKind::Baskets)
    }
}

/// How far down a pause screen's text has been scrolled.
#[derive(Copy, Clone, Debug, PartialEq, Eq, Structural)]
pub struct ScrollState {
    pub top_index_with_offset: usize,
}

/// The pause screens' state.
#[derive(Copy, Clone, Debug, PartialEq, Eq, Structural)]
pub struct Paused {
    pub kind: PausedStateKind,
    pub baskets: ScrollState,
    pub memories: ScrollState,
}

impl Default for Paused {
    fn default() -> (res: Self)
        ensures
            res.kind == PausedStateKind::Un,
            res.baskets.top_index_with_offset == 0,
            res.memories.top_index_with_offset == 0,
    {
        Paused {
            kind: PausedStateKind::Un,
            baskets: ScrollState { top_index_with_offset: 0 },
            memories: ScrollState { top_index_with_offset: 0 },
        }
    }
}

/// Whether the buttons with the given bits are all held this frame.
pub open spec fn held(input: Input, bits: u8) -> bool {
    input.gamepad@ & bits == bits
}

/// Whether the buttons with the given bits were pressed this frame.
pub open spec fn pressed(input: Input, bits: u8) -> bool {
    !(input.previous_gamepad@ & bits == bits) && input.gamepad@ & bits == bits
}

pub const B_BITS: u8 = 2;
pub const A_BITS: u8 = 1;
pub const START_BITS: u8 = 8;
pub const UP_BITS: u8 = 16;
pub const DOWN_BITS: u8 = 32;

/// The scroll state of `kind`'s screen after a frame in which the screens are
/// browsed: one line down while down is held, one line up (stopping at the top)
/// while up is held.
pub open spec fn scrolled(scroll: ScrollState, input: Input) -> ScrollState {
    if held(input, DOWN_BITS) {
        ScrollState { top_index_with_offset: (scroll.top_index_with_offset + 1) as usize }
    } else if held(input, UP_BITS) && scroll.top_index_with_offset > 0 {
        ScrollState { top_index_with_offset: (scroll.top_index_with_offset - 1) as usize }
    } else {
        scroll
    }
}

impl Paused {
    /// A frame of input on the pause screen showing `paused_kind`. Where the
    /// screens can be browsed (`browsable`), B and A switch screens, and down
    /// and up scroll the current one. Start unpauses.
    pub fn update(&mut self, paused_kind: PausedKind, input: Input, browsable: bool)
        requires
            held(input, DOWN_BITS) ==> (match paused_kind {
                PausedKind::Baskets => old(self).baskets.top_index_with_offset < usize::MAX,
                PausedKind::Memories => old(self).memories.top_index_with_offset < usize::MAX,
            }),
        ensures
            pressed(input, START_BITS) ==> final(self).kind == PausedStateKind::Un,
            !pressed(input, START_BITS) && browsable && pressed(input, B_BITS) ==> final(self).kind
                == PausedStateKind::Paused(paused_kind.other()),
            !pressed(input, START_BITS) && browsable && !pressed(input, B_BITS) && pressed(
                input,
                A_BITS,
            ) ==> final(self).kind == PausedStateKind::Paused(paused_kind.other()),
            !pressed(input, START_BITS) && !(browsable && (pressed(input, B_BITS) || pressed(
                input,
                A_BITS,
            ))) ==> final(self).kind == old(self).kind,
            browsable && !pressed(input, B_BITS) && !pressed(input, A_BITS) ==> (match paused_kind {
                PausedKind::Baskets => final(self).baskets == scrolled(old(self).baskets, input)
                    && final(self).memories == old(self).memories,
                PausedKind::Memories => final(self).memories == scrolled(old(self).memories, input)
                    && final(self).baskets == old(self).baskets,
            }),
            !(browsable && !pressed(input, B_BITS) && !pressed(input, A_BITS)) ==> final(self).baskets
                == old(self).baskets && final(self).memories == old(self).memories,
    {
        if browsable {
            if input.pressed_this_frame(crate::platform_types::Button::B()) {
                self.kind = PausedStateKind::Paused(paused_kind.wrapping_dec());
            } else if input.pressed_this_frame(crate::platform_types::Button::A()) {
                self.kind = PausedStateKind::Paused(paused_kind.wrapping_inc());
            } else {
                let scroll = match paused_kind {
                    PausedKind::Baskets => &mut self.baskets,
                    PausedKind::Memories => &mut self.memories,
                };
                if input.gamepad.contains(crate::platform_types::Button::DOWN()) {
                    scroll.top_index_with_offset = scroll.top_index_with_offset + 1;
                } else if input.gamepad.contains(crate::platform_types::Button::UP()) {
                    scroll.top_index_with_offset = scroll.top_index_with_offset.saturating_sub(1);
                }
            }
        }
        if input.pressed_this_frame(crate::platform_types::Button::START()) {
            self.kind = PausedStateKind::Un;
        }
    }
}

/// The choices a player makes during a turn, including those that only matter
/// with a particular card.
#[derive(Copy, Clone, Debug)]
pub struct PlayerSelection {
    pub target: CpuId,
    pub card: AnytimeCard,
    pub declined: bool,
    pub viewing: Option<Card>,
    pub rank: Rank,
    pub divine_target: DivineTarget,
}

impl Default for PlayerSelection {
    fn default() -> (res: Self)
        ensures
            res.target == CpuId::One,
            res.card == AnytimeCard::GameWarden,
            !res.declined,
            res.viewing is None,
            res.rank == Rank::Barnacle,
            res.divine_target == DivineTarget::NoFishing,
    {
        PlayerSelection {
            target: CpuId::One,
            card: AnytimeCard::GameWarden,
            declined: false,
            viewing: None,
            rank: Rank::Barnacle,
            divine_target: DivineTarget::NoFishing,
        }
    }
}

/// What the player's "selecting" menu shows.
pub enum PlayerSelectingSubMenu {
    Root,
    Anytime(PlayerSelection, AvailablePlayAnytime),
    Message(Vec<u8>),
    DiscardDivineIntervention,
}

/// What the player's "asking" menu shows.
#[derive(Copy, Clone, Debug, PartialEq, Eq, Structural)]
pub enum PlayerAskingSubMenu {
    Root,
    TwoFistedFisherman,
}

impl Default for PlayerAskingSubMenu {
    fn default() -> (res: Self)
        ensures
            res == PlayerAskingSubMenu::Root,
    {
        PlayerAskingSubMenu::Root
    }
}

/// Where the player is in their turn.
#[allow(inconsistent_fields)]
pub enum PlayerMenu {
    Selecting { sub_menu: PlayerSelectingSubMenu },
    Asking { used: Card, question: Question, sub_menu: PlayerAskingSubMenu },
    Fished { question: Question, drew: Option<Card> },
    Net { target: CpuId, predicate: NetPredicate },
    Lure { target: CpuId, predicate: LurePredicate },
}

impl Default for PlayerMenu {
    fn default() -> (res: Self)
        ensures
            res matches PlayerMenu::Selecting { sub_menu: PlayerSelectingSubMenu::Root },
    {
        PlayerMenu::Selecting { sub_menu: PlayerSelectingSubMenu::Root }
    }
}

/// Whose turn it is, and where that turn is.
#[allow(inconsistent_fields)]
pub enum Menu {
    PlayerTurn { selected: CardIndex, menu: PlayerMenu },
    CpuTurn { id: CpuId, menu: CpuMenu },
    BetweenTurns { next_id: HandId, player_selection: PlayerSelection },
}

impl Menu {
    /// The start of the player's turn, with the card at `selected` selected.
    pub fn player(selected: CardIndex) -> (res: Self)
        ensures
            res matches Menu::PlayerTurn { selected: s, menu: PlayerMenu::Selecting {
                sub_menu: PlayerSelectingSubMenu::Root,
            } } && s == selected,
    {
        Menu::PlayerTurn { selected, menu: PlayerMenu::default() }
    }
}

impl Default for Menu {
    fn default() -> (res: Self)
        ensures
            res matches Menu::PlayerTurn { selected: s, menu: PlayerMenu::Selecting {
                sub_menu: PlayerSelectingSubMenu::Root,
            } } && s == 0,
    {
        Menu::player(0)
    }
}

/// Where a computer player is in their turn.
pub enum CpuMenu {
    Selecting,
    Asking(Question),
    DeadInTheWater,
    WaitingForSuccesfulAsk,
    WaitingWhenGotWhatWasFishingFor,
    WaitingWhenPlayedTwoFistedFisherman,
    WaitingWhenPlayedGlassBottomBoat,
}

impl Default for CpuMenu {
    fn default() -> (res: Self)
        ensures
            res is Selecting,
    {
        CpuMenu::Selecting
    }
}

impl CpuMenu {
    /// Whether the computer player is waiting for cards to arrive before it
    /// carries on with its turn.
    pub open spec fn is_waiting(self) -> bool {
        ||| self is WaitingForSuccesfulAsk
        ||| self is WaitingWhenGotWhatWasFishingFor
        ||| self is WaitingWhenPlayedTwoFistedFisherman
        ||| self is WaitingWhenPlayedGlassBottomBoat
    }
}

/// All the choices a player can make in a turn. Upon reaching a point where
/// the player chooses, it is reset to a sensible default for that point.
pub struct Selection {
    pub card_index: CardIndex,
    pub player_selection: PlayerSelection,
    pub player_menu: PlayerMenu,
}

impl Default for Selection {
    fn default() -> (res: Self)
        ensures
            res.card_index == 0,
            res.player_menu matches PlayerMenu::Selecting { sub_menu: PlayerSelectingSubMenu::Root },
    {
        Selection {
            card_index: 0,
            player_selection: PlayerSelection::default(),
            player_menu: PlayerMenu::default(),
        }
    }
}

/// Everything about a game in progress but the source of random numbers,
/// which the caller keeps.
pub struct State {
    pub cards: Cards,
    pub animations: Animations,
    pub ctx: Context,
    pub memories: Memories,
    pub has_started: bool,
    pub selection: Selection,
    pub turn_id: HandId,
    pub sub_turn_ids: [HandId; 4],
    pub sub_turn_index: u8,
    pub stack: Vec<Play>,
    pub cpu_menu: CpuMenu,
    pub done_something_this_turn: bool,
    pub paused: Paused,
}

/// Nobody is in a sub turn: the index is past every hand.
pub const NO_SUB_TURN: u8 = 5;

/// How many cards each hand is dealt at the start of a game.
pub const INITIAL_HAND_SIZE: u8 = 8;

/// The animation that deals the `k`th card of a new game, counting from zero:
/// the cards come off the end of the deck and go round the table one at a
/// time, each a frame after the one before.
pub open spec fn deal_animation(shuffled: Seq<Card>, k: int) -> Animation {
    let id = HandId::from_index(k % 4);
    let card_i = k / 4;
    Animation {
        delay: k as u8,
        card: shuffled[72 - k],
        at: XY { x: X(203), y: Y(107) },
        target: card_position_spec(spread_spec(id), card_i + 2, card_i + 1),
        action: AnimationAction::AddToHand(id),
        shown: false,
    }
}

/// The animation slots once the first `k` cards have been dealt.
pub open spec fn dealt(shuffled: Seq<Card>, k: int) -> Seq<Animation>
    decreases k,
{
    if k <= 0 {
        Seq::new(73, |i: int| idle_animation())
    } else {
        push_spec(dealt(shuffled, k - 1), deal_animation(shuffled, k - 1))
    }
}

proof fn lemma_dealt_len(shuffled: Seq<Card>, k: int)
    ensures
        dealt(shuffled, k).len() == 73,
    decreases k,
{
    if k > 0 {
        lemma_dealt_len(shuffled, k - 1);
        lemma_first_free_in_range(dealt(shuffled, k - 1), 0);
    }
}

impl State {
    /// A new game with the deck in the order `shuffled`, meant to be a random
    /// order of all the cards, its last card on top. The first eight cards for
    /// each hand are on their way from the deck; the player has the first turn.
    pub fn new(shuffled: [Card; 73]) -> (res: State)
        requires
            forall|i: int| 0 <= i < DECK_SIZE ==> shuffled@[i] < CardInner::MAX,
        ensures
            res.well_formed(),
            res.cards.deck@ == shuffled@.take(73 - 32),
            res.cards.total() == 73 - 32,
            res.animations.slots() == dealt(shuffled@, 32),
            res.turn_id == HandId::Player,
            res.sub_turn_ids@ == seq![HandId::Player, HandId::Cpu1, HandId::Cpu2, HandId::Cpu3],
            res.sub_turn_index == NO_SUB_TURN,
            res.stack@.len() == 0,
            res.cpu_menu is Selecting,
            !res.has_started,
            !res.done_something_this_turn,
            res.paused.kind == PausedStateKind::Un,
    {
        let mut cards = Cards::default();
        cards.deck = Hand::fresh_deck(shuffled);
        let mut state = State {
            cards,
            animations: Animations::default(),
            ctx: Context { active: Id::Zero, hot: Id::Zero, next_hot: Id::Zero },
            memories: Memories::default(),
            has_started: false,
            selection: Selection::default(),
            turn_id: HandId::Player,
            sub_turn_ids: HandId::ALL,
            sub_turn_index: NO_SUB_TURN,
            stack: Vec::new(),
            cpu_menu: CpuMenu::default(),
            done_something_this_turn: false,
            paused: Paused::default(),
        };
        assert(state.sub_turn_ids@ =~= seq![HandId::Player, HandId::Cpu1, HandId::Cpu2, HandId::Cpu3]);
        let mut card_i: u8 = 0;
        while card_i < INITIAL_HAND_SIZE
            invariant
                card_i <= INITIAL_HAND_SIZE,
                state.cards.deck@ == shuffled@.take(73 - 4 * card_i),
                state.cards.total() == 73 - 4 * card_i,
                state.animations.slots() == dealt(shuffled@, 4 * card_i),
                state.turn_id == HandId::Player,
                state.sub_turn_ids@ == seq![HandId::Player, HandId::Cpu1, HandId::Cpu2, HandId::Cpu3],
                state.sub_turn_index == NO_SUB_TURN,
                state.stack@.len() == 0,
                state.cpu_menu is Selecting,
                !state.has_started,
                !state.done_something_this_turn,
                state.paused.kind == PausedStateKind::Un,
            decreases INITIAL_HAND_SIZE - card_i,
        {
            let mut id_i: u8 = 0;
            while id_i < 4
                invariant
                    card_i < INITIAL_HAND_SIZE,
                    id_i <= 4,
                    state.cards.deck@ == shuffled@.take(73 - 4 * card_i - id_i),
                    state.cards.total() == 73 - 4 * card_i - id_i,
                    state.animations.slots() == dealt(shuffled@, 4 * card_i + id_i),
                    state.turn_id == HandId::Player,
                    state.sub_turn_ids@ == seq![HandId::Player, HandId::Cpu1, HandId::Cpu2, HandId::Cpu3],
                    state.sub_turn_index == NO_SUB_TURN,
                    state.stack@.len() == 0,
                    state.cpu_menu is Selecting,
                    !state.has_started,
                    !state.done_something_this_turn,
                    state.paused.kind == PausedStateKind::Un,
                decreases 4 - id_i,
            {
                let id = HandId::ALL[id_i as usize];
                let ghost k = 4 * card_i + id_i;
                let ghost deck_before = state.cards.deck@;
                let card = match state.cards.deck.draw() {
                    Some(card) => card,
                    None => {
                        assert(false);
                        0
                    },
                };
                assert(card == shuffled@[72 - k]);
                assert(state.cards.deck@ =~= shuffled@.take(73 - k - 1));
                let target = get_card_insert_position(spread(id), card_i + 1);
                let at = deck_xy();
                let anim = Animation {
                    card,
                    at,
                    target,
                    action: AnimationAction::AddToHand(id),
                    delay: card_i * 4 + id_i,
                    shown: false,
                };
                assert(id == HandId::from_index(k % 4));
                assert(anim == deal_animation(shuffled@, k));
                state.animations.push(anim);
                id_i = id_i + 1;
            }
            card_i = card_i + 1;
        }
        proof {
            lemma_dealt_len(shuffled@, 32);
        }
        state
    }

    pub open spec fn well_formed(self) -> bool {
        self.animations.well_formed()
    }

    /// Lets the other players respond, in turn order, to what the current
    /// player just did.
    pub fn allow_to_respond(&mut self)
        ensures
            final(self).sub_turn_ids@ == old(self).turn_id.besides_spec().push(old(self).turn_id),
            final(self).sub_turn_index == 0,
            final(self).done_something_this_turn,
            final(self).turn_id == old(self).turn_id,
            final(self).cards == old(self).cards,
            final(self).animations == old(self).animations,
            final(self).stack == old(self).stack,
            final(self).ctx == old(self).ctx,
            final(self).memories == old(self).memories,
            final(self).has_started == old(self).has_started,
            final(self).selection == old(self).selection,
            final(self).cpu_menu == old(self).cpu_menu,
            final(self).paused == old(self).paused,
    {
        self.sub_turn_ids = self.turn_id.next_to_current();
        self.sub_turn_index = 0;
        self.done_something_this_turn = true;
    }

    /// Passes the turn to the next player, and resets the menus for it.
    pub fn to_next_turn(&mut self)
        ensures
            final(self).turn_id == HandId::from_index((old(self).turn_id.index() + 1) % 4),
            final(self).sub_turn_index == NO_SUB_TURN,
            final(self).selection.card_index == (if old(self).cards.player@.len() > 0 {
                old(self).cards.player@.len() - 1
            } else {
                0
            }),
            final(self).selection.player_menu matches PlayerMenu::Selecting {
                sub_menu: PlayerSelectingSubMenu::Root,
            },
            final(self).cpu_menu is Selecting,
            !final(self).done_something_this_turn,
            final(self).cards == old(self).cards,
            final(self).animations == old(self).animations,
            final(self).stack == old(self).stack,
            final(self).ctx == old(self).ctx,
            final(self).memories == old(self).memories,
            final(self).has_started == old(self).has_started,
            final(self).paused == old(self).paused,
            final(self).selection.player_selection == old(self).selection.player_selection,
            final(self).sub_turn_ids == old(self).sub_turn_ids,
    {
        self.turn_id = self.turn_id.next_looping();
        self.sub_turn_index = NO_SUB_TURN;
        self.selection.card_index = self.cards.player.len().saturating_sub(1);
        self.selection.player_menu = PlayerMenu::default();
        self.cpu_menu = CpuMenu::default();
        self.done_something_this_turn = false;
    }
}

} // verus!
