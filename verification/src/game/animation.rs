//! Cards moving across the table.
use vstd::prelude::*;
use crate::game::play::Play;
use crate::models::{Card, HandId};
use crate::platform_types::unscaled::{X, Y, XY, W, H, Inner};

verus! {

/// What to do once a card has reached the discard pile.
pub enum AfterDiscard {
    Nothing,
    BackToSelecting(HandId),
    PushPlay(Play),
}

impl AfterDiscard {
    pub open spec fn same(self, other: AfterDiscard) -> bool {
        match (self, other) {
            (AfterDiscard::PushPlay(a), AfterDiscard::PushPlay(b)) => a.same(b),
            (AfterDiscard::PushPlay(_), _) => false,
            (_, AfterDiscard::PushPlay(_)) => false,
            _ => self == other,
        }
    }
}

impl Clone for AfterDiscard {
    fn clone(&self) -> (res: Self)
        ensures
            res.same(*self),
    {
        match self {
            AfterDiscard::Nothing => AfterDiscard::Nothing,
            AfterDiscard::BackToSelecting(id) => AfterDiscard::BackToSelecting(*id),
            AfterDiscard::PushPlay(play) => AfterDiscard::PushPlay(play.clone()),
        }
    }
}

/// What to do once a card has reached its target.
pub enum AnimationAction {
    DoNothing,
    AddToHand(HandId),
    PerformGameWarden,
    AddToDiscard(AfterDiscard),
    AnimateBackToHand(HandId),
}

impl AnimationAction {
    pub open spec fn same(self, other: AnimationAction) -> bool {
        match (self, other) {
            (AnimationAction::AddToDiscard(a), AnimationAction::AddToDiscard(b)) => a.same(b),
            (AnimationAction::AddToDiscard(_), _) => false,
            (_, AnimationAction::AddToDiscard(_)) => false,
            _ => self == other,
        }
    }
}

impl Clone for AnimationAction {
    fn clone(&self) -> (res: Self)
        ensures
            res.same(*self),
    {
        match self {
            AnimationAction::DoNothing => AnimationAction::DoNothing,
            AnimationAction::AddToHand(id) => AnimationAction::AddToHand(*id),
            AnimationAction::PerformGameWarden => AnimationAction::PerformGameWarden,
            AnimationAction::AddToDiscard(after) => AnimationAction::AddToDiscard(after.clone()),
            AnimationAction::AnimateBackToHand(id) => AnimationAction::AnimateBackToHand(*id),
        }
    }
}

pub type Frames = u8;

/// A card on its way from one point to another, after a delay.
pub struct Animation {
    pub delay: Frames,
    pub card: Card,
    pub at: XY,
    pub target: XY,
    pub action: AnimationAction,
    pub shown: bool,
}

/// An animation with nothing to do: the default value.
pub open spec fn idle_animation() -> Animation {
    Animation {
        delay: 0,
        card: 0,
        at: XY::default_spec(),
        target: XY::default_spec(),
        action: AnimationAction::DoNothing,
        shown: false,
    }
}

impl Default for Animation {
    fn default() -> (res: Self)
        ensures
            res == idle_animation(),
    {
        Animation {
            delay: 0,
            card: 0,
            at: XY { x: X(0), y: Y(0) },
            target: XY { x: X(0), y: Y(0) },
            action: AnimationAction::DoNothing,
            shown: false,
        }
    }
}

impl XY {
    /// The origin.
    pub open spec fn default_spec() -> XY {
        XY { x: X(0), y: Y(0) }
    }
}

/// How far a card moves along each axis per frame.
pub const RATE: Inner = 3;

/// One frame's move from `at` towards `target`: at most `RATE`, never past it.
pub open spec fn step_toward(at: int, target: int) -> int {
    if at < target {
        if target - at < RATE { target } else { at + RATE }
    } else if at > target {
        if at - target < RATE { target } else { at - RATE }
    } else {
        at
    }
}

fn step_x(at: X, target: X) -> (res: X)
    ensures
        res.0 == step_toward(at.0 as int, target.0 as int),
{
    if at.0 < target.0 {
        let diff = target.0 - at.0;
        at.saturating_add(W(if diff < RATE { diff } else { RATE }))
    } else if at.0 > target.0 {
        let diff = at.0 - target.0;
        at.saturating_sub(W(if diff < RATE { diff } else { RATE }))
    } else {
        at
    }
}

fn step_y(at: Y, target: Y) -> (res: Y)
    ensures
        res.0 == step_toward(at.0 as int, target.0 as int),
{
    if at.0 < target.0 {
        let diff = target.0 - at.0;
        at.saturating_add(H(if diff < RATE { diff } else { RATE }))
    } else if at.0 > target.0 {
        let diff = at.0 - target.0;
        at.saturating_sub(H(if diff < RATE { diff } else { RATE }))
    } else {
        at
    }
}

/// One frame of `anim`, and whether the card reached its target in it: a
/// finished animation stays as it is, a delayed one waits a frame less, and an
/// active one moves towards its target.
pub open spec fn advance_spec(anim: Animation) -> (Animation, bool) {
    if anim.is_done_spec() {
        (anim, false)
    } else if anim.delay > 0 {
        (Animation { delay: (anim.delay - 1) as u8, ..anim }, false)
    } else {
        let at = XY {
            x: X(step_toward(anim.at.x.0 as int, anim.target.x.0 as int) as u16),
            y: Y(step_toward(anim.at.y.0 as int, anim.target.y.0 as int) as u16),
        };
        (Animation { at, ..anim }, at == anim.target)
    }
}

impl Animation {
    pub open spec fn is_done_spec(self) -> bool {
        self.at == self.target
    }

    /// Whether the card has reached its target.
    pub fn is_done(&self) -> (res: bool)
        ensures
            res == self.is_done_spec(),
    {
        self.at == self.target
    }

    /// Whether the delay is over, so that the card moves.
    pub fn is_active(&self) -> (res: bool)
        ensures
            res == (self.delay == 0),
    {
        self.delay == 0
    }

    /// One frame of the animation: a finished one stays as it is, a delayed one
    /// waits a frame less, and an active one moves towards its target. Returns
    /// whether the card reached its target in this frame.
    pub fn advance(&mut self) -> (arrived: bool)
        ensures
            (*final(self), arrived) == advance_spec(*old(self)),
    {
        if self.is_done() {
            return false;
        }
        if self.delay > 0 {
            self.delay = self.delay - 1;
            return false;
        }
        self.at = XY { x: step_x(self.at.x, self.target.x), y: step_y(self.at.y, self.target.y) };
        self.is_done()
    }
}

/// An animation's moves always end at its target: the distance left along each
/// axis shrinks every frame until it is zero.
pub proof fn lemma_step_approaches(at: int, target: int)
    ensures
        step_toward(at, target) == target || (if at < target {
            target - step_toward(at, target) == target - at - RATE
        } else {
            step_toward(at, target) - target == at - target - RATE
        }),
        at != target ==> (if step_toward(at, target) <= target {
            target - step_toward(at, target)
        } else {
            step_toward(at, target) - target
        }) < (if at <= target { target - at } else { at - target }),
{
}

/// A fixed number of slots for animations, one per card; a finished animation's
/// slot is free.
pub struct Animations(Vec<Animation>);

impl Animations {
    pub closed spec fn slots(self) -> Seq<Animation> {
        self.0@
    }

    /// Whether there is one slot per card.
    pub open spec fn well_formed(self) -> bool {
        self.slots().len() == 73
    }
}

impl Default for Animations {
    fn default() -> (res: Self)
        ensures
            res.slots() == Seq::new(73, |i: int| idle_animation()),
    {
        let mut v: Vec<Animation> = Vec::new();
        let mut i: usize = 0;
        while i < 73
            invariant
                i <= 73,
                v@ == Seq::new(i as nat, |j: int| idle_animation()),
            decreases 73 - i,
        {
            v.push(Animation::default());
            i = i + 1;
            assert(v@ =~= Seq::new(i as nat, |j: int| idle_animation()));
        }
        Animations(v)
    }
}

/// The position of the first finished animation from `i` on, if any.
pub open spec fn first_free_from(slots: Seq<Animation>, i: int) -> Option<int>
    decreases slots.len() - i,
{
    if i < 0 || i >= slots.len() {
        None
    } else if slots[i].is_done_spec() {
        Some(i)
    } else {
        first_free_from(slots, i + 1)
    }
}

/// A free slot that `first_free_from` finds is a slot from `i` on.
pub proof fn lemma_first_free_in_range(slots: Seq<Animation>, i: int)
    ensures
        first_free_from(slots, i) matches Some(k) ==> i <= k < slots.len() && slots[k].is_done_spec(),
    decreases slots.len() - i,
{
    if 0 <= i < slots.len() && !slots[i].is_done_spec() {
        lemma_first_free_in_range(slots, i + 1);
    }
}

impl Animations {
    /// Starts `anim` in the first free slot; does nothing if every slot is busy.
    pub fn push(&mut self, anim: Animation)
        ensures
            match first_free_from(old(self).slots(), 0) {
                Some(i) => final(self).slots() == old(self).slots().update(i, anim),
                None => final(self).slots() == old(self).slots(),
            },
    {
        let mut i: usize = 0;
        while i < self.0.len()
            invariant
                i <= self.0@.len(),
                self.0@ == old(self).0@,
                first_free_from(old(self).slots(), 0) == first_free_from(old(self).slots(), i as int),
            decreases self.0@.len() - i,
        {
            if self.0[i].is_done() {
                self.0.set(i, anim);
                return;
            }
            i = i + 1;
        }
    }

    /// The animations that are still running, in slot order.
    pub fn iter(&self) -> (res: Vec<&Animation>)
        ensures
            res@.len() == self.slots().filter(|a: Animation| !a.is_done_spec()).len(),
            forall|j: int|
                0 <= j < res@.len() ==> *(#[trigger] res@[j]) == self.slots().filter(
                    |a: Animation| !a.is_done_spec(),
                )[j],
    {
        let mut out: Vec<&Animation> = Vec::new();
        let mut i: usize = 0;
        while i < self.0.len()
            invariant
                i <= self.0@.len(),
                out@.len() == self.0@.take(i as int).filter(|a: Animation| !a.is_done_spec()).len(),
                forall|j: int|
                    0 <= j < out@.len() ==> *(#[trigger] out@[j]) == self.0@.take(i as int).filter(
                        |a: Animation| !a.is_done_spec(),
                    )[j],
            decreases self.0@.len() - i,
        {
            let anim = &self.0[i];
            proof {
                self.0@.take(i as int).lemma_filter_push(self.0@[i as int], |a: Animation| !a.is_done_spec());
                assert(self.0@.take(i + 1) =~= self.0@.take(i as int).push(self.0@[i as int]));
            }
            if !anim.is_done() {
                out.push(anim);
            }
            i = i + 1;
        }
        assert(self.0@.take(i as int) =~= self.0@);
        out
    }

    /// Whether every animation has finished.
    pub fn all_done(&self) -> (res: bool)
        ensures
            res == forall|i: int| 0 <= i < self.slots().len() ==> (#[trigger] self.slots()[i]).is_done_spec(),
    {
        let mut i: usize = 0;
        while i < self.0.len()
            invariant
                i <= self.0@.len(),
                forall|j: int| 0 <= j < i ==> (#[trigger] self.0@[j]).is_done_spec(),
            decreases self.0@.len() - i,
        {
            if !self.0[i].is_done() {
                assert(!self.slots()[i as int].is_done_spec());
                return false;
            }
            i = i + 1;
        }
        true
    }

    /// The animation in slot `i`.
    pub fn get(&self, i: usize) -> (res: &Animation)
        requires
            i < self.slots().len(),
        ensures
            *res == self.slots()[i as int],
    {
        &self.0[i]
    }

    /// Runs `advance` on the animation in slot `i`, returning whether it arrived.
    pub fn advance_slot(&mut self, i: usize) -> (arrived: bool)
        requires
            i < old(self).slots().len(),
        ensures
            final(self).slots() == old(self).slots().update(i as int, advance_spec(old(self).slots()[i as int]).0),
            arrived == advance_spec(old(self).slots()[i as int]).1,
    {
        let mut anim = self.0.remove(i);
        let arrived = anim.advance();
        self.0.insert(i, anim);
        assert(self.0@ =~= old(self).0@.update(i as int, advance_spec(old(self).0@[i as int]).0));
        arrived
    }
}

} // verus!
