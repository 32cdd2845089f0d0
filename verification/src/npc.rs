//! NPC animation: speed bands with hysteresis, so an NPC moving near a
//! threshold does not flicker between animations.

use vstd::prelude::*;

verus! {

/// The movement animations of an NPC.
#[derive(Clone, Copy, Debug, PartialEq, Eq, Structural)]
pub enum NpcMovementAnim {
    Idle,
    Walk,
    Run,
    WalkBack,
    StrafeLeft,
    StrafeRight,
}

/// How an NPC's smoothed speed compares with the animation thresholds.
#[derive(Clone, Copy, Debug, PartialEq, Eq, Structural)]
pub struct SpeedBands {
    /// Above 4.8: fast enough to start running.
    pub run_start: bool,
    /// Below 4.2: slow enough to stop running.
    pub run_stop: bool,
    /// Above 0.2: fast enough to start walking.
    pub walk_start: bool,
    /// Above 0.15: fast enough to keep walking after a run.
    pub walk_keep: bool,
    /// Below 0.1: slow enough to stop walking.
    pub walk_stop: bool,
}

/// The bands one speed can give: the thresholds are ordered
/// 0.1 < 0.15 < 0.2 < 4.2 < 4.8.
pub open spec fn bands_consistent(b: SpeedBands) -> bool {
    &&& b.run_start ==> !b.run_stop
    &&& !b.run_stop ==> b.walk_start
    &&& b.walk_start ==> b.walk_keep
    &&& b.walk_keep ==> !b.walk_stop
}

/// The next target animation with hysteresis: a running NPC keeps running
/// until it drops below 4.2; a walking one starts running above 4.8 and
/// stops below 0.1; an idle one starts running above 4.8 or walking above 0.2.
pub open spec fn npc_target_spec(b: SpeedBands, current: NpcMovementAnim) -> NpcMovementAnim {
    match current {
        NpcMovementAnim::Run => if b.run_stop {
            if b.walk_keep { NpcMovementAnim::Walk } else { NpcMovementAnim::Idle }
        } else {
            NpcMovementAnim::Run
        },
        NpcMovementAnim::Walk => if b.run_start {
            NpcMovementAnim::Run
        } else if b.walk_stop {
            NpcMovementAnim::Idle
        } else {
            NpcMovementAnim::Walk
        },
        _ => if b.run_start {
            NpcMovementAnim::Run
        } else if b.walk_start {
            NpcMovementAnim::Walk
        } else {
            NpcMovementAnim::Idle
        },
    }
}

/// Chooses an NPC's target animation from its speed bands and its current target.
pub fn determine_npc_target_anim(b: &SpeedBands, current: NpcMovementAnim) -> (a: NpcMovementAnim)
    ensures
        a == npc_target_spec(*b, current),
{
    match current {
        NpcMovementAnim::Run => {
            if b.run_stop {
                if b.walk_keep { NpcMovementAnim::Walk } else { NpcMovementAnim::Idle }
            } else {
                NpcMovementAnim::Run
            }
        },
        NpcMovementAnim::Walk => {
            if b.run_start {
                NpcMovementAnim::Run
            } else if b.walk_stop {
                NpcMovementAnim::Idle
            } else {
                NpcMovementAnim::Walk
            }
        },
        _ => {
            if b.run_start {
                NpcMovementAnim::Run
            } else if b.walk_start {
                NpcMovementAnim::Walk
            } else {
                NpcMovementAnim::Idle
            }
        },
    }
}

/// At a steady speed the choice settles after one step: choosing again with
/// the same speed keeps the animation (no flip-flopping at a threshold).
pub proof fn lemma_npc_target_settles(b: SpeedBands, current: NpcMovementAnim)
    requires
        bands_consistent(b),
    ensures
        npc_target_spec(b, npc_target_spec(b, current)) == npc_target_spec(b, current),
{
}

/// Only idle, walk and run are ever chosen; a clearly fast NPC runs and a
/// stopped one idles, whatever it did before.
pub proof fn lemma_npc_target_extremes(b: SpeedBands, current: NpcMovementAnim)
    requires
        bands_consistent(b),
    ensures
        ({
            let a = npc_target_spec(b, current);
            a == NpcMovementAnim::Idle || a == NpcMovementAnim::Walk || a == NpcMovementAnim::Run
        }),
        b.run_start ==> npc_target_spec(b, current) == NpcMovementAnim::Run,
        b.walk_stop ==> npc_target_spec(b, current) == NpcMovementAnim::Idle,
{
}

/// Hysteresis: a running NPC keeps running until it is slower than 4.2,
/// then walks if still above 0.15 and idles otherwise; a walking NPC runs
/// above 4.8, idles below 0.1 and otherwise keeps walking; an idle NPC runs
/// above 4.8, walks above 0.2, and otherwise stays idle.
pub proof fn lemma_npc_hysteresis(b: SpeedBands)
    ensures
        !b.run_stop ==> npc_target_spec(b, NpcMovementAnim::Run) == NpcMovementAnim::Run,
        b.run_stop && b.walk_keep ==> npc_target_spec(b, NpcMovementAnim::Run) == NpcMovementAnim::Walk,
        b.run_stop && !b.walk_keep ==> npc_target_spec(b, NpcMovementAnim::Run) == NpcMovementAnim::Idle,
        b.run_start ==> npc_target_spec(b, NpcMovementAnim::Walk) == NpcMovementAnim::Run,
        !b.run_start && b.walk_stop ==> npc_target_spec(b, NpcMovementAnim::Walk) == NpcMovementAnim::Idle,
        !b.run_start && !b.walk_stop ==> npc_target_spec(b, NpcMovementAnim::Walk) == NpcMovementAnim::Walk,
        b.run_start ==> npc_target_spec(b, NpcMovementAnim::Idle) == NpcMovementAnim::Run,
        !b.run_start && b.walk_start ==> npc_target_spec(b, NpcMovementAnim::Idle) == NpcMovementAnim::Walk,
        !b.run_start && !b.walk_start ==> npc_target_spec(b, NpcMovementAnim::Idle) == NpcMovementAnim::Idle,
{
}

/// The animation slots an NPC blends between.
#[derive(Clone, Copy, Debug, PartialEq, Eq, Structural)]
pub struct NpcAnimSlots {
    pub current_anim: NpcMovementAnim,
    pub target_anim: NpcMovementAnim,
}

/// What to do on the animation player when an NPC's target changes.
#[derive(Clone, Copy, Debug, PartialEq, Eq, Structural)]
pub struct NpcTransitionPlan {
    /// Stop this animation (an unfinished blend snaps to its target).
    pub stop: Option<NpcMovementAnim>,
    /// Start this animation looping at weight 0 and restart the blend.
    pub start: Option<NpcMovementAnim>,
}

/// The slots and plan when the target becomes `new_target`.
pub open spec fn npc_transition_spec(s: NpcAnimSlots, new_target: NpcMovementAnim, blending: bool) -> (NpcAnimSlots, NpcTransitionPlan) {
    if new_target == s.target_anim {
        (s, NpcTransitionPlan { stop: None, start: None })
    } else {
        (NpcAnimSlots { current_anim: if blending { s.target_anim } else { s.current_anim }, target_anim: new_target },
         NpcTransitionPlan { stop: if blending { Some(s.current_anim) } else { None }, start: Some(new_target) })
    }
}

/// Starts a blend toward `new_target` when it differs from the current target.
pub fn begin_npc_transition(slots: &mut NpcAnimSlots, new_target: NpcMovementAnim, blending: bool) -> (p: NpcTransitionPlan)
    ensures
        (*final(slots), p) == npc_transition_spec(*old(slots), new_target, blending),
{
    if new_target == slots.target_anim {
        return NpcTransitionPlan { stop: None, start: None };
    }
    let mut stop: Option<NpcMovementAnim> = None;
    if blending {
        stop = Some(slots.current_anim);
        slots.current_anim = slots.target_anim;
    }
    slots.target_anim = new_target;
    NpcTransitionPlan { stop, start: Some(new_target) }
}

/// A new target starts blending in, after an unfinished blend snaps (its
/// source animation stops); the same target changes nothing.
pub proof fn lemma_npc_new_target_starts_blend(s: NpcAnimSlots, new_target: NpcMovementAnim, blending: bool)
    ensures
        ({
            let (s1, p) = npc_transition_spec(s, new_target, blending);
            &&& new_target == s.target_anim ==> s1 == s && p.start is None && p.stop is None
            &&& new_target != s.target_anim ==> {
                &&& s1.target_anim == new_target
                &&& p.start == Some(new_target)
                &&& blending ==> p.stop == Some(s.current_anim) && s1.current_anim == s.target_anim
                &&& !blending ==> p.stop is None && s1.current_anim == s.current_anim
            }
        }),
{
}

} // verus!
