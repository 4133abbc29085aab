use vstd::prelude::*;

verus! {

/// The grappling hook: the point it holds on to, and whether its rope is
/// drawn. `P` is the type of a point in the world.
#[derive(Clone, Copy, Debug)]
pub struct GrapplePoint<P> {
    pub point: P,
    pub should_draw: bool,
}

/// A mouse button event, with what the pointer hit for a press: the first
/// fixed collider that contains the pointer's world position, by its entity
/// bits, and that position.
#[derive(Clone, Copy, Debug)]
pub enum ButtonEvent<P> {
    Pressed { hit: Option<u64>, cursor: P },
    Released,
}

/// What the game does with the player's physics on a button event.
#[derive(Clone, Copy, Debug, PartialEq, Eq, Structural)]
pub enum GrappleAction {
    /// Tie a rope from the collider to the player, switch the player's
    /// gravity off and pull it towards the pointer.
    Attach { collider: u64 },
    /// Remove the rope, stop pulling, switch the player's gravity back on.
    Detach,
    /// Leave everything as it is.
    Nothing,
}

/// The hook and the action after the event `ev` on hook `g`.
pub open spec fn spec_on_button<P>(g: GrapplePoint<P>, ev: ButtonEvent<P>) -> (GrapplePoint<P>, GrappleAction) {
    match ev {
        ButtonEvent::Pressed { hit, cursor } => match hit {
            Some(c) => (GrapplePoint { point: cursor, should_draw: true }, GrappleAction::Attach { collider: c }),
            None => (g, GrappleAction::Nothing),
        },
        ButtonEvent::Released => (GrapplePoint { point: g.point, should_draw: false }, GrappleAction::Detach),
    }
}

impl<P: Copy> GrapplePoint<P> {
    /// A hook that holds nothing, at `origin`.
    pub fn new(origin: P) -> (g: Self)
        ensures
            g.point == origin,
            !g.should_draw,
    {
        GrapplePoint { point: origin, should_draw: false }
    }

    /// A press that hits a collider hooks the pointer's position and draws
    /// the rope; a press that hits nothing does nothing; a release lets go.
    pub fn on_button(&mut self, ev: ButtonEvent<P>) -> (act: GrappleAction)
        ensures
            (*final(self), act) == spec_on_button(*old(self), ev),
            ev matches ButtonEvent::Pressed { hit: Some(c), cursor } ==> act == (GrappleAction::Attach { collider: c })
                && final(self).point == cursor && final(self).should_draw,
            ev matches ButtonEvent::Pressed { hit: None, .. } ==> act == GrappleAction::Nothing && *final(self) == *old(self),
            ev is Released ==> act == GrappleAction::Detach && final(self).point == old(self).point && !final(self).should_draw,
    {
        proof {
            lemma_button_actions(*self, ev);
        }
        match ev {
            ButtonEvent::Pressed { hit, cursor } => match hit {
                Some(c) => {
                    self.point = cursor;
                    self.should_draw = true;
                    GrappleAction::Attach { collider: c }
                },
                None => GrappleAction::Nothing,
            },
            ButtonEvent::Released => {
                self.should_draw = false;
                GrappleAction::Detach
            },
        }
    }
}

/// The position of the last entry of `transforms` whose entity is `entity`,
/// or `fallback` where there is none.
pub open spec fn spec_anchor<P>(transforms: Seq<(u64, P)>, entity: u64, fallback: P) -> P
    decreases transforms.len(),
{
    if transforms.len() == 0 {
        fallback
    } else if transforms.last().0 == entity {
        transforms.last().1
    } else {
        spec_anchor(transforms.drop_last(), entity, fallback)
    }
}

/// The anchor of the rope on the hit collider: that collider's position among
/// the `(entity, position)` pairs of the cave's colliders, or `fallback`.
pub fn anchor_for<P: Copy>(transforms: &[(u64, P)], entity: u64, fallback: P) -> (a: P)
    ensures
        a == spec_anchor(transforms@, entity, fallback),
{
    let mut anchor = fallback;
    let mut i: usize = 0;
    while i < transforms.len()
        invariant
            0 <= i <= transforms.len(),
            anchor == spec_anchor(transforms@.take(i as int), entity, fallback),
        decreases transforms.len() - i,
    {
        assert(transforms@.take(i as int + 1).drop_last() =~= transforms@.take(i as int));
        let (e, p) = transforms[i];
        if e == entity {
            anchor = p;
        }
        i = i + 1;
    }
    assert(transforms@.take(i as int) =~= transforms@);
    anchor
}

/// The anchor is the position of some entry of that entity, and no later
/// entry belongs to it; with no entry of the entity it is the fallback.
pub proof fn lemma_anchor_is_last_match<P>(transforms: Seq<(u64, P)>, entity: u64, fallback: P)
    ensures
        (forall|i: int| 0 <= i < transforms.len() ==> (#[trigger] transforms[i]).0 != entity)
            ==> spec_anchor(transforms, entity, fallback) == fallback,
        (exists|i: int| 0 <= i < transforms.len() && (#[trigger] transforms[i]).0 == entity) ==> exists|i: int|
            0 <= i < transforms.len() && transforms[i].0 == entity && spec_anchor(transforms, entity, fallback)
                == #[trigger] transforms[i].1 && forall|j: int| i < j < transforms.len() ==> (#[trigger] transforms[j]).0
                != entity,
    decreases transforms.len(),
{
    if transforms.len() > 0 {
        let rest = transforms.drop_last();
        lemma_anchor_is_last_match(rest, entity, fallback);
        let n = transforms.len() - 1;
        if transforms.last().0 == entity {
            assert(transforms[n].0 == entity);
        } else {
            assert forall|i: int| 0 <= i < rest.len() implies (#[trigger] rest[i]) == transforms[i] by {}
            if exists|i: int| 0 <= i < transforms.len() && (#[trigger] transforms[i]).0 == entity {
                let i = choose|i: int| 0 <= i < transforms.len() && (#[trigger] transforms[i]).0 == entity;
                assert(rest[i].0 == entity);
                let k = choose|k: int|
                    0 <= k < rest.len() && rest[k].0 == entity && spec_anchor(rest, entity, fallback) == #[trigger] rest[k].1
                        && forall|j: int| k < j < rest.len() ==> (#[trigger] rest[j]).0 != entity;
                assert(transforms[k].1 == rest[k].1);
                assert forall|j: int| k < j < transforms.len() implies (#[trigger] transforms[j]).0 != entity by {
                    if j < n {
                        assert(rest[j] == transforms[j]);
                    }
                }
            } else {
                assert forall|i: int| 0 <= i < rest.len() implies (#[trigger] rest[i]).0 != entity by {
                    assert(transforms[i] == rest[i]);
                }
            }
        }
    }
}

/// A release always stops drawing the rope and keeps the hooked point; a
/// press that hits nothing changes nothing; after a press that hits and a
/// release, the rope is gone and the hook still holds the pressed position.
pub proof fn lemma_press_release<P>(g: GrapplePoint<P>, hit: Option<u64>, cursor: P)
    ensures
        !spec_on_button(g, ButtonEvent::Released).0.should_draw,
        spec_on_button(g, ButtonEvent::Released).0.point == g.point,
        hit is None ==> spec_on_button(g, ButtonEvent::Pressed { hit, cursor }) == (g, GrappleAction::Nothing),
        ({
            let pressed = spec_on_button(g, ButtonEvent::Pressed { hit, cursor }).0;
            let released = spec_on_button(pressed, ButtonEvent::Released).0;
            hit is Some ==> !released.should_draw && released.point == cursor
        }),
{
}


/// A press that hits collider `c` ties the rope to `c` itself, hooks the
/// cursor and draws the rope; a press that hits nothing changes nothing; a
/// release detaches, keeps the hooked point and stops drawing.
pub proof fn lemma_button_actions<P>(g: GrapplePoint<P>, ev: ButtonEvent<P>)
    ensures
        ev matches ButtonEvent::Pressed { hit: Some(c), cursor } ==> spec_on_button(g, ev).1 == (GrappleAction::Attach { collider: c })
            && spec_on_button(g, ev).0.point == cursor && spec_on_button(g, ev).0.should_draw,
        ev matches ButtonEvent::Pressed { hit: None, .. } ==> spec_on_button(g, ev) == (g, GrappleAction::Nothing),
        ev is Released ==> spec_on_button(g, ev).1 == GrappleAction::Detach && spec_on_button(g, ev).0.point == g.point
            && !spec_on_button(g, ev).0.should_draw,
{
}

} // verus!
