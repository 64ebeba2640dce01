//! Authored frame data: the frames of an action and the action itself.

use vstd::prelude::*;
use crate::geometry::{Rectbox, Vec2};

verus! {

/// What a frame means for cancelling: only `Recovery` lets a new attack in.
#[derive(Clone, Copy, Debug, PartialEq, Eq, Structural)]
pub enum ActionStage {
    Startup,
    Active,
    Recovery,
}

/// One frame of an action, with the rectangles it exposes.
#[derive(Clone, Copy, Debug, PartialEq, Eq)]
pub struct ActionFrame {
    pub id: usize,
    pub stage: ActionStage,
    pub hurtbox: Rectbox,
    pub hitbox: Option<Rectbox>,
    pub blockbox: Option<Rectbox>,
}

/// Why authored data was turned down when it was loaded.
#[derive(Clone, Debug, PartialEq, Eq)]
pub enum LoadError {
    /// The action has no frame.
    EmptyFrames { action: String },
    /// A rectangle of this frame has a coordinate out of range.
    NonFiniteFrame { action: String, frame: usize },
    /// An impulse of the action has a coordinate out of range.
    NonFiniteImpulse { action: String },
    /// The character names this action twice.
    DuplicateAction { character: String, action: String },
}

pub enum LoadErrorView {
    EmptyFrames { action: Seq<char> },
    NonFiniteFrame { action: Seq<char>, frame: int },
    NonFiniteImpulse { action: Seq<char> },
    DuplicateAction { character: Seq<char>, action: Seq<char> },
}

impl View for LoadError {
    type V = LoadErrorView;

    open spec fn view(&self) -> LoadErrorView {
        match *self {
            LoadError::EmptyFrames { action } => LoadErrorView::EmptyFrames { action: action@ },
            LoadError::NonFiniteFrame { action, frame } => LoadErrorView::NonFiniteFrame {
                action: action@,
                frame: frame as int,
            },
            LoadError::NonFiniteImpulse { action } => LoadErrorView::NonFiniteImpulse {
                action: action@,
            },
            LoadError::DuplicateAction { character, action } => LoadErrorView::DuplicateAction {
                character: character@,
                action: action@,
            },
        }
    }
}

/// A rectangle that may be absent is in range when it is absent or finite.
pub open spec fn rect_in_range(r: Option<Rectbox>) -> bool {
    r matches Some(b) ==> b.is_finite()
}

/// An impulse that may be absent is in range when it is absent or finite.
pub open spec fn impulse_in_range(v: Option<Vec2>) -> bool {
    v matches Some(p) ==> p.is_finite()
}

/// The name behind an optional string.
pub open spec fn name_of(s: Option<String>) -> Option<Seq<char>> {
    match s {
        Some(n) => Some(n@),
        None => None,
    }
}

impl ActionFrame {
    /// Every rectangle of the frame is within the authored range.
    pub open spec fn is_finite(self) -> bool {
        &&& self.hurtbox.is_finite()
        &&& rect_in_range(self.hitbox)
        &&& rect_in_range(self.blockbox)
    }

    pub fn finite(&self) -> (b: bool)
        ensures
            b == self.is_finite(),
    {
        let hit_ok: bool = match self.hitbox {
            Some(r) => r.finite(),
            None => true,
        };
        let block_ok: bool = match self.blockbox {
            Some(r) => r.finite(),
            None => true,
        };
        self.hurtbox.finite() && hit_ok && block_ok
    }
}

/// What an action is, as plain data.
pub struct ActionView {
    pub name: Seq<char>,
    pub duration: u64,
    pub repeat: bool,
    pub frames: Seq<ActionFrame>,
    pub next_action: Option<Seq<char>>,
    pub hit_action: Option<Seq<char>>,
    pub external_impulse: Option<Vec2>,
    pub internal_impulse: Option<Vec2>,
}

impl ActionView {
    /// `i` is the first frame with a rectangle out of range.
    pub open spec fn first_bad_frame(self, i: int) -> bool {
        &&& 0 <= i < self.frames.len()
        &&& !self.frames[i].is_finite()
        &&& forall|j: int| 0 <= j < i ==> (#[trigger] self.frames[j]).is_finite()
    }

    /// Every frame is within the authored range.
    pub open spec fn frames_finite(self) -> bool {
        forall|i: int| 0 <= i < self.frames.len() ==> (#[trigger] self.frames[i]).is_finite()
    }

    /// Both impulses are within the authored range.
    pub open spec fn impulses_finite(self) -> bool {
        impulse_in_range(self.external_impulse) && impulse_in_range(self.internal_impulse)
    }

    /// The data may be played: there is a frame, and nothing is out of range.
    pub open spec fn wf(self) -> bool {
        &&& self.frames.len() > 0
        &&& self.frames_finite()
        &&& self.impulses_finite()
    }

    /// The first rule that the data breaks, if any: frames are looked at
    /// before impulses, and among frames the earliest one is named.
    pub open spec fn defect(self) -> Option<LoadErrorView> {
        if self.frames.len() == 0 {
            Some(LoadErrorView::EmptyFrames { action: self.name })
        } else if !self.frames_finite() {
            Some(
                LoadErrorView::NonFiniteFrame {
                    action: self.name,
                    frame: choose|i: int| self.first_bad_frame(i),
                },
            )
        } else if !self.impulses_finite() {
            Some(LoadErrorView::NonFiniteImpulse { action: self.name })
        } else {
            None
        }
    }

    /// How long one frame stays on show, in nanoseconds.
    pub open spec fn frame_duration(self) -> int {
        self.duration as int / self.frames.len() as int
    }
}

/// A named move: its frames, how it plays and what it leads to.
#[derive(Debug)]
pub struct Action {
    name: String,
    duration: u64,
    repeat: bool,
    frames: Vec<ActionFrame>,
    next_action: Option<String>,
    hit_action: Option<String>,
    external_impulse: Option<Vec2>,
    internal_impulse: Option<Vec2>,
}

impl View for Action {
    type V = ActionView;

    closed spec fn view(&self) -> ActionView {
        ActionView {
            name: self.name@,
            duration: self.duration,
            repeat: self.repeat,
            frames: self.frames@,
            next_action: name_of(self.next_action),
            hit_action: name_of(self.hit_action),
            external_impulse: self.external_impulse,
            internal_impulse: self.internal_impulse,
        }
    }
}

/// Two indices that both are the first bad frame are the same index.
proof fn lemma_first_bad_frame_unique(a: ActionView, i: int, k: int)
    requires
        a.first_bad_frame(i),
        a.first_bad_frame(k),
    ensures
        i == k,
{
    if i < k {
        assert(a.frames[i].is_finite());
    } else if k < i {
        assert(a.frames[k].is_finite());
    }
}

impl Action {
    #[verifier::type_invariant]
    pub(crate) open spec fn inv(self) -> bool {
        self@.wf()
    }

    /// Checks authored data and makes an action of it. Data that breaks a
    /// rule is turned down with the first rule it breaks.
    pub fn new(
        name: String,
        duration: u64,
        repeat: bool,
        frames: Vec<ActionFrame>,
        next_action: Option<String>,
        hit_action: Option<String>,
        external_impulse: Option<Vec2>,
        internal_impulse: Option<Vec2>,
    ) -> (r: Result<Action, LoadError>)
        ensures
            ({
                let data = ActionView {
                    name: name@,
                    duration: duration,
                    repeat: repeat,
                    frames: frames@,
                    next_action: name_of(next_action),
                    hit_action: name_of(hit_action),
                    external_impulse: external_impulse,
                    internal_impulse: internal_impulse,
                };
                match r {
                    Ok(a) => data.wf() && a@ == data,
                    Err(e) => data.defect() == Some(e@),
                }
            }),
    {
        let ghost data = ActionView {
            name: name@,
            duration: duration,
            repeat: repeat,
            frames: frames@,
            next_action: name_of(next_action),
            hit_action: name_of(hit_action),
            external_impulse: external_impulse,
            internal_impulse: internal_impulse,
        };
        if frames.len() == 0 {
            return Err(LoadError::EmptyFrames { action: name });
        }
        let mut i: usize = 0;
        while i < frames.len()
            invariant
                0 < frames.len(),
                i <= frames.len(),
                data == (ActionView {
                    name: name@,
                    duration: duration,
                    repeat: repeat,
                    frames: frames@,
                    next_action: name_of(next_action),
                    hit_action: name_of(hit_action),
                    external_impulse: external_impulse,
                    internal_impulse: internal_impulse,
                }),
                forall|j: int| 0 <= j < i ==> (#[trigger] frames@[j]).is_finite(),
            decreases frames.len() - i,
        {
            if !frames[i].finite() {
                proof {
                    assert(data.first_bad_frame(i as int));
                    let k = choose|k: int| data.first_bad_frame(k);
                    lemma_first_bad_frame_unique(data, i as int, k);
                }
                return Err(LoadError::NonFiniteFrame { action: name, frame: i });
            }
            i += 1;
        }
        let external_ok: bool = match external_impulse {
            Some(v) => v.finite(),
            None => true,
        };
        let internal_ok: bool = match internal_impulse {
            Some(v) => v.finite(),
            None => true,
        };
        if !(external_ok && internal_ok) {
            return Err(LoadError::NonFiniteImpulse { action: name });
        }
        Ok(
            Action {
                name,
                duration,
                repeat,
                frames,
                next_action,
                hit_action,
                external_impulse,
                internal_impulse,
            },
        )
    }

    pub fn name(&self) -> (r: &String)
        ensures
            r@ == self@.name,
    {
        &self.name
    }

    /// Nanoseconds that one pass through all frames takes.
    pub fn duration(&self) -> (r: u64)
        ensures
            r == self@.duration,
    {
        self.duration
    }

    pub fn repeat(&self) -> (r: bool)
        ensures
            r == self@.repeat,
    {
        self.repeat
    }

    pub fn frames(&self) -> (r: &Vec<ActionFrame>)
        ensures
            r@ == self@.frames,
            self@.wf(),
    {
        proof {
            use_type_invariant(self);
        }
        &self.frames
    }

    /// The number of frames, which is never zero.
    pub fn frame_count(&self) -> (r: usize)
        ensures
            r == self@.frames.len(),
            r > 0,
    {
        proof {
            use_type_invariant(self);
        }
        self.frames.len()
    }

    /// The frame at `index`, or nothing where the action is shorter.
    pub fn frame(&self, index: usize) -> (r: Option<ActionFrame>)
        ensures
            index < self@.frames.len() ==> r == Some(self@.frames[index as int]),
            index >= self@.frames.len() ==> r is None,
            r matches Some(f) ==> f.is_finite(),
    {
        proof {
            use_type_invariant(self);
        }
        if index < self.frames.len() {
            Some(self.frames[index])
        } else {
            None
        }
    }

    /// Nanoseconds that one frame stays on show: the duration shared out
    /// evenly, rounded down.
    pub fn frame_duration(&self) -> (r: u64)
        ensures
            r == self@.frame_duration(),
            self@.frames.len() > 0,
    {
        proof {
            use_type_invariant(self);
        }
        self.duration / (self.frames.len() as u64)
    }

    /// The action that a repeated input chains into.
    pub fn next_action(&self) -> (r: Option<&String>)
        ensures
            match r {
                Some(n) => self@.next_action == Some(n@),
                None => self@.next_action is None,
            },
    {
        self.next_action.as_ref()
    }

    /// The action that a victim of this action plays.
    pub fn hit_action(&self) -> (r: Option<&String>)
        ensures
            match r {
                Some(n) => self@.hit_action == Some(n@),
                None => self@.hit_action is None,
            },
    {
        self.hit_action.as_ref()
    }

    /// The impulse handed to a victim of this action.
    pub fn external_impulse(&self) -> (r: Option<Vec2>)
        ensures
            r == self@.external_impulse,
            impulse_in_range(r),
    {
        proof {
            use_type_invariant(self);
        }
        self.external_impulse
    }

    /// The impulse that moves the entity when it enters this action.
    pub fn internal_impulse(&self) -> (r: Option<Vec2>)
        ensures
            r == self@.internal_impulse,
            impulse_in_range(r),
    {
        proof {
            use_type_invariant(self);
        }
        self.internal_impulse
    }
}

} // verus!
