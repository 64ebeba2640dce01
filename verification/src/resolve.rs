//! The geometry resolver: from a frame's rectangles to the rectangles that
//! an entity exposes this tick.

use vstd::prelude::*;
use crate::action::ActionFrame;
use crate::geometry::{Direction, Rectbox};

verus! {

/// The rectangles that an entity exposes during one tick, around its own
/// anchor and mirrored to the side it faces. A rectangle that is absent
/// means no exposure of that kind.
#[derive(Clone, Copy, Debug, PartialEq, Eq)]
pub struct Exposure {
    /// Where the entity can be hit.
    pub hurtbox: Rectbox,
    /// Where the entity hits.
    pub hitbox: Option<Rectbox>,
    /// Where the entity blocks.
    pub blockbox: Option<Rectbox>,
}

/// A rectangle that may be absent, mirrored where it is there.
pub open spec fn mirrored_box(r: Option<Rectbox>, direction: Direction) -> Option<Rectbox> {
    match r {
        Some(b) => Some(b.spec_mirror(direction)),
        None => None,
    }
}

/// What an entity that faces `direction` exposes while `frame` is on show.
pub open spec fn spec_expose(frame: ActionFrame, direction: Direction) -> Exposure {
    Exposure {
        hurtbox: frame.hurtbox.spec_mirror(direction),
        hitbox: mirrored_box(frame.hitbox, direction),
        blockbox: mirrored_box(frame.blockbox, direction),
    }
}

/// Mirrors a rectangle that may be absent.
pub fn mirror_box(r: Option<Rectbox>, direction: Direction) -> (m: Option<Rectbox>)
    requires
        r matches Some(b) ==> b.is_finite(),
    ensures
        m == mirrored_box(r, direction),
        m matches Some(b) ==> b.is_finite(),
{
    match r {
        Some(b) => Some(b.mirror(direction)),
        None => None,
    }
}

/// Resolves the rectangles of `frame` for an entity that faces
/// `direction`.
pub fn expose(frame: &ActionFrame, direction: Direction) -> (e: Exposure)
    requires
        frame.is_finite(),
    ensures
        e == spec_expose(*frame, direction),
{
    Exposure {
        hurtbox: frame.hurtbox.mirror(direction),
        hitbox: mirror_box(frame.hitbox, direction),
        blockbox: mirror_box(frame.blockbox, direction),
    }
}

/// Resolving towards the left what was resolved towards the left gives the
/// frame's own rectangles back, and resolving towards the right changes
/// nothing.
pub proof fn lemma_expose_mirrors(frame: ActionFrame)
    requires
        frame.is_finite(),
    ensures
        spec_expose(frame, Direction::Right) == (Exposure {
            hurtbox: frame.hurtbox,
            hitbox: frame.hitbox,
            blockbox: frame.blockbox,
        }),
        ({
            let left = spec_expose(frame, Direction::Left);
            let back = ActionFrame {
                id: frame.id,
                stage: frame.stage,
                hurtbox: left.hurtbox,
                hitbox: left.hitbox,
                blockbox: left.blockbox,
            };
            spec_expose(back, Direction::Left) == spec_expose(frame, Direction::Right)
        }),
{
}

} // verus!
