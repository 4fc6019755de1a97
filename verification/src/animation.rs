//! Keyframe animation components and the per-tick stepping rule.
//!
//! An animation is a list of keyframes, each a sprite number and how many
//! elapsed animation frames it holds for. A controller owns the named
//! animations of one entity and which one currently plays. The driver
//! applies the returned sprite number to the entity's render material and
//! publishes a Delete event when a finishing one-shot animation asks for
//! it.

use vstd::prelude::*;
use crate::timer::{Timer, spec_ticked};

verus! {

/// Bound on keyframe hold counts and the elapsed-frame counter.
pub const FRAME_BOUND: usize = 1_000_000_000;

/// One animation over one spritesheet.
#[derive(Debug, Clone)]
pub struct Animation {
    /// Keyframes: sprite number, and elapsed frames to hold it for.
    pub keyframes: Vec<(usize, usize)>,
    pub current_index: usize,
    pub elapsed_frame: usize,
    /// Real time per animation frame.
    pub frame_duration: Timer,
}

/// Bounds under which an animation can be stepped.
pub open spec fn wf_animation(a: Animation) -> bool {
    &&& a.keyframes@.len() >= 1
    &&& a.current_index < a.keyframes@.len()
    &&& a.elapsed_frame <= FRAME_BOUND
    &&& forall|i: int|
        0 <= i < a.keyframes@.len() ==> (#[trigger] a.keyframes@[i]).0 <= u32::MAX
            && a.keyframes@[i].1 <= FRAME_BOUND
    &&& a.frame_duration.wf()
}

/// One tick of an animation: the frame timer accumulates `dt`; a finished
/// timer resets and counts one elapsed frame; once the current keyframe's
/// hold is exceeded the animation moves to the next keyframe, wrapping
/// around. The second component reports whether this tick stepped past the
/// last keyframe of a delete-on-finish animation.
pub open spec fn spec_anim_step(a: Animation, dt: u64, delete_on_finished: bool) -> (
    Animation,
    bool,
) {
    let t1 = Timer {
        duration_ms: a.frame_duration.duration_ms,
        elapsed_ms: spec_ticked(a.frame_duration.elapsed_ms, dt, a.frame_duration.duration_ms),
    };
    let fin = t1.elapsed_ms >= t1.duration_ms;
    let t2 = if fin {
        Timer { duration_ms: t1.duration_ms, elapsed_ms: 0u64 }
    } else {
        t1
    };
    let e2 = if fin {
        a.elapsed_frame + 1
    } else {
        a.elapsed_frame as int
    };
    if e2 > a.keyframes@[a.current_index as int].1 {
        (
            Animation {
                current_index: ((a.current_index + 1) % a.keyframes@.len() as int) as usize,
                elapsed_frame: 0,
                frame_duration: t2,
                ..a
            },
            a.current_index + 1 == a.keyframes@.len() && delete_on_finished,
        )
    } else {
        (Animation { elapsed_frame: e2 as usize, frame_duration: t2, ..a }, false)
    }
}

impl Animation {
    pub fn new(keyframes: Vec<(usize, usize)>, frame_duration: Timer) -> (a: Animation)
        ensures
            a.keyframes@ == keyframes@,
            a.current_index == 0,
            a.elapsed_frame == 0,
            a.frame_duration == frame_duration,
    {
        Animation { keyframes, current_index: 0, elapsed_frame: 0, frame_duration }
    }

    /// True while the current keyframe is the last one.
    pub fn last_frame(&self) -> (r: bool)
        requires
            self.current_index < usize::MAX,
        ensures
            r == (self.keyframes@.len() == self.current_index + 1),
    {
        self.keyframes.len() == self.current_index + 1
    }
}

impl Default for Animation {
    /// No keyframes yet, at roughly sixty animation frames per second.
    fn default() -> (a: Animation)
        ensures
            a.keyframes@.len() == 0,
            a.current_index == 0,
            a.elapsed_frame == 0,
            a.frame_duration == (Timer { duration_ms: 16u64, elapsed_ms: 0u64 }),
    {
        Animation {
            keyframes: Vec::new(),
            current_index: 0,
            elapsed_frame: 0,
            frame_duration: Timer::of_millis(16),
        }
    }
}

/// All animations of one entity, and which one currently plays.
#[derive(Debug, Clone)]
pub struct AnimationController {
    /// Animations by name; names are unique by convention, and lookup
    /// takes the first match.
    pub animations: Vec<(String, Animation)>,
    /// When set, the named animation advances each tick.
    pub current_animation: Option<String>,
    /// Request the entity's deletion once the animation has played through.
    pub delete_on_finished: bool,
}

pub open spec fn wf_controller(c: AnimationController) -> bool {
    forall|i: int|
        0 <= i < c.animations@.len() ==> wf_animation((#[trigger] c.animations@[i]).1)
}

impl Default for AnimationController {
    fn default() -> (c: AnimationController)
        ensures
            c.animations@.len() == 0,
            c.current_animation is None,
            !c.delete_on_finished,
            wf_controller(c),
    {
        AnimationController {
            animations: Vec::new(),
            current_animation: None,
            delete_on_finished: false,
        }
    }
}

/// The first index whose name matches, from `i` on; -1 when none does.
pub open spec fn spec_find_anim(s: Seq<(String, Animation)>, name: Seq<char>, i: int) -> int
    decreases s.len() - i,
{
    if i < 0 || i >= s.len() {
        -1
    } else if s[i].0@ == name {
        i
    } else {
        spec_find_anim(s, name, i + 1)
    }
}

/// What one controller step reports to the driver.
#[derive(Debug, Clone, Copy, PartialEq, Eq, Structural)]
pub struct AnimationTick {
    /// The sprite number to show, when an animation is playing and found.
    pub sprite_nb: Option<u32>,
    /// True when a finishing animation asks for its entity's deletion.
    pub request_delete: bool,
}

/// The index of a controller's playing animation: negative when none
/// plays or the name is unknown.
pub open spec fn spec_anim_lookup(c: AnimationController) -> int {
    match c.current_animation {
        Some(name) => spec_find_anim(c.animations@, name@, 0),
        None => -1,
    }
}

/// Advances the playing animation of each entity once per tick.
#[derive(Debug, Clone, Copy, PartialEq, Eq, Structural)]
pub struct AnimationSystem;

impl AnimationSystem {
    /// One tick of one entity's controller: look up the playing animation
    /// by name — an unknown name is skipped, not an error — report the
    /// sprite to show, advance the animation, and report whether a
    /// finishing one-shot animation requests the entity's deletion.
    pub fn step_controller(&self, controller: &mut AnimationController, dt: u64) -> (r:
        AnimationTick)
        requires
            wf_controller(*old(controller)),
        ensures
            wf_controller(*final(controller)),
            final(controller).current_animation == old(controller).current_animation,
            final(controller).delete_on_finished == old(controller).delete_on_finished,
            old(controller).current_animation is None ==> r == (AnimationTick {
                sprite_nb: None,
                request_delete: false,
            }) && *final(controller) == *old(controller),
            old(controller).current_animation is Some && spec_anim_lookup(*old(controller)) < 0
                ==> r == (AnimationTick { sprite_nb: None, request_delete: false })
                && *final(controller) == *old(controller),
            old(controller).current_animation is Some && spec_anim_lookup(*old(controller)) >= 0
                ==> {
                let j = spec_anim_lookup(*old(controller));
                let a0 = old(controller).animations@[j].1;
                let stepped = spec_anim_step(a0, dt, old(controller).delete_on_finished);
                &&& r.sprite_nb == Some(a0.keyframes@[a0.current_index as int].0 as u32)
                &&& r.request_delete == stepped.1
                &&& final(controller).animations@ == old(controller).animations@.update(
                    j,
                    (old(controller).animations@[j].0, stepped.0),
                )
            },
    {
        let ghost c0 = *controller;
        let name = match &controller.current_animation {
            Some(n) => n.clone(),
            None => {
                return AnimationTick { sprite_nb: None, request_delete: false };
            },
        };
        proof {
            assert(name@ == c0.current_animation->Some_0@);
        }
        let found = find_animation(&controller.animations, &name);
        match found {
            None => {
                proof {
                    assert(spec_find_anim(c0.animations@, name@, 0) < 0);
                    assert(c0.current_animation is Some);
                    assert(spec_anim_lookup(c0) < 0);
                }
                AnimationTick { sprite_nb: None, request_delete: false }
            },
            Some(j) => {
                let ghost a0 = controller.animations@[j as int].1;
                proof {
                    assert(wf_animation(a0));
                    assert((a0.keyframes@[a0.current_index as int]).0 <= u32::MAX);
                    assert(j as int == spec_anim_lookup(c0));
                }
                let pair = &mut controller.animations[j];
                let sprite = pair.1.keyframes[pair.1.current_index].0 as u32;
                pair.1.frame_duration.tick(dt);
                if pair.1.frame_duration.finished() {
                    pair.1.frame_duration.reset();
                    pair.1.elapsed_frame = pair.1.elapsed_frame + 1;
                }
                let frames = pair.1.keyframes[pair.1.current_index].1;
                let mut request_delete = false;
                if pair.1.elapsed_frame > frames {
                    pair.1.elapsed_frame = 0;
                    if pair.1.keyframes.len() == pair.1.current_index + 1
                        && controller.delete_on_finished {
                        request_delete = true;
                    }
                    pair.1.current_index = (pair.1.current_index + 1) % pair.1.keyframes.len();
                }
                proof {
                    let stepped = spec_anim_step(a0, dt, c0.delete_on_finished);
                    assert(controller.animations@[j as int].1 == stepped.0);
                    assert(request_delete == stepped.1);
                    assert(controller.animations@ =~= c0.animations@.update(
                        j as int,
                        (c0.animations@[j as int].0, stepped.0),
                    ));
                    assert(wf_animation(stepped.0));
                    assert forall|k: int|
                        0 <= k < controller.animations@.len() implies wf_animation(
                        (#[trigger] controller.animations@[k]).1,
                    ) by {
                        if k != j {
                            assert(controller.animations@[k] == c0.animations@[k]);
                        }
                    }
                }
                AnimationTick { sprite_nb: Some(sprite), request_delete }
            },
        }
    }
}

/// The first animation with this name, by linear scan.
fn find_animation(v: &Vec<(String, Animation)>, name: &String) -> (r: Option<usize>)
    ensures
        spec_find_anim(v@, name@, 0) < 0 ==> r is None,
        spec_find_anim(v@, name@, 0) >= 0 ==> r is Some && r->Some_0 == spec_find_anim(
            v@,
            name@,
            0,
        ) && spec_find_anim(v@, name@, 0) < v@.len(),
{
    let n = v.len();
    let mut j: usize = 0;
    while j < n
        invariant
            0 <= j <= n,
            n == v@.len(),
            spec_find_anim(v@, name@, 0) == spec_find_anim(v@, name@, j as int),
        decreases n - j,
    {
        if v[j].0 == *name {
            return Some(j);
        }
        j = j + 1;
    }
    None
}

} // verus!
