//! Player characters: which replicated player is ours, the movement and jump
//! animation state machine, and when the local model is hidden.

use vstd::prelude::*;
use crate::input::{InputFlags, CameraMode, PeerId};

verus! {

broadcast use vstd::seq_lib::group_seq_properties;

/// The movement animations of a character.
#[derive(Clone, Copy, Debug, PartialEq, Eq, Structural)]
pub enum MovementAnim {
    Idle,
    Walk,
    Run,
    WalkBack,
    StrafeLeft,
    StrafeRight,
    JumpStart,
    JumpAir,
    JumpLand,
}

/// Whether an animation belongs to the jump sequence.
pub open spec fn is_jump_anim_spec(a: MovementAnim) -> bool {
    a == MovementAnim::JumpStart || a == MovementAnim::JumpAir || a == MovementAnim::JumpLand
}

/// Whether an animation belongs to the jump sequence (which plays in order
/// rather than looping).
pub fn is_jump_anim(a: MovementAnim) -> (r: bool)
    ensures
        r == is_jump_anim_spec(a),
{
    match a {
        MovementAnim::JumpStart | MovementAnim::JumpAir | MovementAnim::JumpLand => true,
        _ => false,
    }
}

/// The ground animation the local player's keys ask for: idle in a vehicle;
/// forward walks (runs with shift); backward walks back; a pure strafe
/// strafes; anything else idles.
pub open spec fn local_target_spec(f: InputFlags) -> MovementAnim {
    if f.in_vehicle {
        MovementAnim::Idle
    } else if f.forward && !f.backward {
        if f.shift { MovementAnim::Run } else { MovementAnim::Walk }
    } else if !f.forward && f.backward {
        MovementAnim::WalkBack
    } else if !f.forward && !f.backward && f.left && !f.right {
        MovementAnim::StrafeLeft
    } else if !f.forward && !f.backward && !f.left && f.right {
        MovementAnim::StrafeRight
    } else {
        MovementAnim::Idle
    }
}

/// The ground animation for the local player's input.
pub fn determine_local_target_anim(f: &InputFlags) -> (a: MovementAnim)
    ensures
        a == local_target_spec(*f),
{
    if f.in_vehicle {
        return MovementAnim::Idle;
    }
    match (f.forward, f.backward, f.left, f.right) {
        (true, false, _, _) => if f.shift { MovementAnim::Run } else { MovementAnim::Walk },
        (false, true, _, _) => MovementAnim::WalkBack,
        (false, false, true, false) => MovementAnim::StrafeLeft,
        (false, false, false, true) => MovementAnim::StrafeRight,
        _ => MovementAnim::Idle,
    }
}

/// On foot, the keys pick the animation: forward alone (or with strafe keys)
/// walks, or runs with shift; backward alone walks back; the right key
/// alone strafes right and the left key alone strafes left; no key, or
/// opposing keys, idle. In a vehicle the character idles.
pub proof fn lemma_keys_pick_the_animation(f: InputFlags)
    ensures
        f.in_vehicle ==> local_target_spec(f) == MovementAnim::Idle,
        !f.in_vehicle && f.forward && !f.backward && !f.shift ==> local_target_spec(f) == MovementAnim::Walk,
        !f.in_vehicle && f.forward && !f.backward && f.shift ==> local_target_spec(f) == MovementAnim::Run,
        !f.in_vehicle && !f.forward && f.backward ==> local_target_spec(f) == MovementAnim::WalkBack,
        !f.in_vehicle && !f.forward && !f.backward && !f.left && f.right ==> local_target_spec(f) == MovementAnim::StrafeRight,
        !f.in_vehicle && !f.forward && !f.backward && f.left && !f.right ==> local_target_spec(f) == MovementAnim::StrafeLeft,
        !f.in_vehicle && (f.forward == f.backward) && (f.left == f.right) ==> local_target_spec(f) == MovementAnim::Idle,
        !f.in_vehicle && f.forward && f.backward ==> local_target_spec(f) == MovementAnim::Idle,
{
}

/// The ground animation a remote player's smoothed speed asks for, given
/// whether it exceeds the run speed (4.5) and the walk speed (0.15).
pub open spec fn remote_target_spec(above_run: bool, above_walk: bool) -> MovementAnim {
    if above_run { MovementAnim::Run } else if above_walk { MovementAnim::Walk } else { MovementAnim::Idle }
}

/// The ground animation for a remote player's speed.
pub fn determine_remote_target_anim(above_run: bool, above_walk: bool) -> (a: MovementAnim)
    ensures
        a == remote_target_spec(above_run, above_walk),
{
    if above_run {
        MovementAnim::Run
    } else if above_walk {
        MovementAnim::Walk
    } else {
        MovementAnim::Idle
    }
}

/// The part of a character's animation state that the jump sequence reads.
#[derive(Clone, Copy, Debug, PartialEq, Eq, Structural)]
pub struct JumpAnimState {
    /// The animation being blended to (the character's real state).
    pub target_anim: MovementAnim,
    pub airborne: bool,
}

/// What the caller measured this frame, as the jump sequence compares it.
#[derive(Clone, Copy, Debug, PartialEq, Eq, Structural)]
pub struct JumpObservation {
    /// The jump-start animation has played for its 0.25 s.
    pub start_done: bool,
    /// The character has been airborne for the minimum 0.15 s.
    pub min_air_time_done: bool,
    /// The landing animation has played for its 0.2 s.
    pub land_done: bool,
    /// The vertical speed is below 0.5 units/s either way.
    pub vertical_still: bool,
    /// The character rises faster than 2 units/s.
    pub rising: bool,
    /// The ground animation a remote character's speed asks for.
    pub remote_ground: MovementAnim,
}

/// The target animation and state after one frame of the jump sequence:
/// JumpStart, then JumpAir until the character lands, then JumpLand, then
/// ground movement. The local player jumps on the key; a remote player is
/// seen airborne when it rises.
pub open spec fn jump_step_spec(s: JumpAnimState, is_local: bool, f: InputFlags, o: JumpObservation, jump_just_pressed: bool) -> (JumpAnimState, MovementAnim) {
    let ground = if is_local { local_target_spec(f) } else { o.remote_ground };
    if is_local && f.in_vehicle {
        (JumpAnimState { airborne: false, ..s }, MovementAnim::Idle)
    } else {
        match s.target_anim {
            MovementAnim::JumpStart => if o.start_done {
                (JumpAnimState { airborne: true, ..s }, MovementAnim::JumpAir)
            } else {
                (s, MovementAnim::JumpStart)
            },
            MovementAnim::JumpAir => if o.min_air_time_done && o.vertical_still {
                (s, MovementAnim::JumpLand)
            } else {
                (s, MovementAnim::JumpAir)
            },
            MovementAnim::JumpLand => if o.land_done {
                (JumpAnimState { airborne: false, ..s }, ground)
            } else {
                (s, MovementAnim::JumpLand)
            },
            _ => if is_local && jump_just_pressed {
                (s, MovementAnim::JumpStart)
            } else if !is_local && o.rising {
                (JumpAnimState { airborne: true, ..s }, MovementAnim::JumpAir)
            } else if !is_local && s.airborne && o.vertical_still {
                (JumpAnimState { airborne: false, ..s }, ground)
            } else {
                (s, ground)
            },
        }
    }
}

/// Chooses a character's target animation, stepping the jump sequence.
pub fn determine_target_anim_with_jump(state: &mut JumpAnimState, is_local: bool, f: &InputFlags, o: &JumpObservation, jump_just_pressed: bool) -> (a: MovementAnim)
    ensures
        (*final(state), a) == jump_step_spec(*old(state), is_local, *f, *o, jump_just_pressed),
{
    if is_local && f.in_vehicle {
        state.airborne = false;
        return MovementAnim::Idle;
    }
    match state.target_anim {
        MovementAnim::JumpStart => {
            if o.start_done {
                state.airborne = true;
                return MovementAnim::JumpAir;
            }
            return MovementAnim::JumpStart;
        },
        MovementAnim::JumpAir => {
            if o.min_air_time_done && o.vertical_still {
                return MovementAnim::JumpLand;
            }
            return MovementAnim::JumpAir;
        },
        MovementAnim::JumpLand => {
            if o.land_done {
                state.airborne = false;
            } else {
                return MovementAnim::JumpLand;
            }
        },
        _ => {
            if is_local && jump_just_pressed {
                return MovementAnim::JumpStart;
            }
            if !is_local {
                if o.rising {
                    state.airborne = true;
                    return MovementAnim::JumpAir;
                }
                if state.airborne && o.vertical_still {
                    state.airborne = false;
                }
            }
        },
    }
    if is_local {
        determine_local_target_anim(f)
    } else {
        o.remote_ground
    }
}

/// A jump runs its phases in order: from the ground it can only enter
/// JumpStart (local) or JumpAir (remote); JumpStart leads only to JumpAir,
/// JumpAir only to JumpLand, and JumpLand only back to the ground.
pub proof fn lemma_jump_phases_in_order(s: JumpAnimState, is_local: bool, f: InputFlags, o: JumpObservation, jump_just_pressed: bool)
    requires
        !is_jump_anim_spec(o.remote_ground),
    ensures
        ({
            let (_, a) = jump_step_spec(s, is_local, f, o, jump_just_pressed);
            let on_foot = !(is_local && f.in_vehicle);
            &&& on_foot && s.target_anim == MovementAnim::JumpStart ==> a == MovementAnim::JumpStart || a == MovementAnim::JumpAir
            &&& on_foot && s.target_anim == MovementAnim::JumpAir ==> a == MovementAnim::JumpAir || a == MovementAnim::JumpLand
            &&& on_foot && s.target_anim == MovementAnim::JumpLand ==> a == MovementAnim::JumpLand || !is_jump_anim_spec(a)
            &&& !is_jump_anim_spec(s.target_anim) && is_local ==> a != MovementAnim::JumpAir && a != MovementAnim::JumpLand
            &&& !is_jump_anim_spec(s.target_anim) && !is_local ==> a != MovementAnim::JumpStart && a != MovementAnim::JumpLand
        }),
{
}

/// A remote player runs above the run speed, walks above the walk speed,
/// and otherwise idles.
pub proof fn lemma_remote_speed_picks_the_animation(above_run: bool, above_walk: bool)
    ensures
        above_run ==> remote_target_spec(above_run, above_walk) == MovementAnim::Run,
        !above_run && above_walk ==> remote_target_spec(above_run, above_walk) == MovementAnim::Walk,
        !above_run && !above_walk ==> remote_target_spec(above_run, above_walk) == MovementAnim::Idle,
{
}

/// The jump sequence moves forward on its cues: on foot and on the ground,
/// the local player's jump key starts JumpStart; a rising remote player goes
/// airborne in JumpAir; JumpStart becomes JumpAir (airborne) once played;
/// JumpAir becomes JumpLand after the minimum air time once the vertical
/// speed settles; JumpLand returns to the ground animation (no longer
/// airborne) once played. Without its cue each phase holds. A local player
/// in a vehicle idles and is not airborne.
pub proof fn lemma_jump_sequence_advances_on_cues(s: JumpAnimState, is_local: bool, f: InputFlags, o: JumpObservation, jump_just_pressed: bool)
    ensures
        ({
            let (s1, a) = jump_step_spec(s, is_local, f, o, jump_just_pressed);
            let on_foot = !(is_local && f.in_vehicle);
            let ground = if is_local { local_target_spec(f) } else { o.remote_ground };
            &&& !on_foot ==> a == MovementAnim::Idle && !s1.airborne
            &&& on_foot && !is_jump_anim_spec(s.target_anim) && is_local && jump_just_pressed ==> a == MovementAnim::JumpStart
            &&& on_foot && !is_jump_anim_spec(s.target_anim) && !is_local && o.rising ==> a == MovementAnim::JumpAir && s1.airborne
            &&& on_foot && !is_jump_anim_spec(s.target_anim) && !(is_local && jump_just_pressed) && !(!is_local && o.rising) ==> a == ground
            &&& on_foot && s.target_anim == MovementAnim::JumpStart ==> (a == MovementAnim::JumpAir) == o.start_done
            &&& on_foot && s.target_anim == MovementAnim::JumpStart && o.start_done ==> s1.airborne
            &&& on_foot && s.target_anim == MovementAnim::JumpAir ==> (a == MovementAnim::JumpLand) == (o.min_air_time_done && o.vertical_still)
            &&& on_foot && s.target_anim == MovementAnim::JumpAir && !(o.min_air_time_done && o.vertical_still) ==> a == MovementAnim::JumpAir
            &&& on_foot && s.target_anim == MovementAnim::JumpLand && o.land_done ==> a == ground && !s1.airborne
            &&& on_foot && s.target_anim == MovementAnim::JumpLand && !o.land_done ==> a == MovementAnim::JumpLand
            &&& s1.target_anim == s.target_anim
        }),
{
}

/// The animation slots a character blends between.
#[derive(Clone, Copy, Debug, PartialEq, Eq, Structural)]
pub struct AnimSlots {
    pub current_anim: MovementAnim,
    pub target_anim: MovementAnim,
}

/// What to do on the animation player when the target changes.
#[derive(Clone, Copy, Debug, PartialEq, Eq, Structural)]
pub struct TransitionPlan {
    /// Stop this animation (an unfinished blend snaps to its target).
    pub stop: Option<MovementAnim>,
    /// Start the new target at weight 0 (looping unless it is JumpStart or JumpLand).
    pub start: Option<MovementAnim>,
    pub looped: bool,
    /// Restart the jump timer (the new target is a jump phase).
    pub reset_jump_timer: bool,
    /// Restart the blend from 0.
    pub restart_blend: bool,
}

/// The slots and plan when the target becomes `new_target`, given whether a
/// blend is still running.
pub open spec fn transition_spec(s: AnimSlots, new_target: MovementAnim, blending: bool) -> (AnimSlots, TransitionPlan) {
    if new_target == s.target_anim {
        (s, TransitionPlan { stop: None, start: None, looped: false, reset_jump_timer: false, restart_blend: false })
    } else {
        let current = if blending { s.target_anim } else { s.current_anim };
        (AnimSlots { current_anim: current, target_anim: new_target }, TransitionPlan {
            stop: if blending { Some(s.current_anim) } else { None },
            start: Some(new_target),
            looped: !(new_target == MovementAnim::JumpStart || new_target == MovementAnim::JumpLand),
            reset_jump_timer: is_jump_anim_spec(new_target),
            restart_blend: true,
        })
    }
}

/// Starts a blend toward `new_target` when it differs from the current target.
pub fn begin_transition(slots: &mut AnimSlots, new_target: MovementAnim, blending: bool) -> (p: TransitionPlan)
    ensures
        (*final(slots), p) == transition_spec(*old(slots), new_target, blending),
{
    if new_target == slots.target_anim {
        return TransitionPlan { stop: None, start: None, looped: false, reset_jump_timer: false, restart_blend: false };
    }
    let mut stop: Option<MovementAnim> = None;
    if blending {
        stop = Some(slots.current_anim);
        slots.current_anim = slots.target_anim;
    }
    slots.target_anim = new_target;
    let looped = !(new_target == MovementAnim::JumpStart || new_target == MovementAnim::JumpLand);
    TransitionPlan { stop, start: Some(new_target), looped, reset_jump_timer: is_jump_anim(new_target), restart_blend: true }
}

/// A new target starts blending in: it becomes the target and starts at the
/// beginning (looping, except the one-shot JumpStart and JumpLand, and
/// restarting the jump timer for a jump phase); an unfinished blend first
/// snaps, stopping the animation it blended from. The same target changes
/// nothing.
pub proof fn lemma_new_target_starts_blend(s: AnimSlots, new_target: MovementAnim, blending: bool)
    ensures
        ({
            let (s1, p) = transition_spec(s, new_target, blending);
            &&& new_target == s.target_anim ==> s1 == s && p.start is None && p.stop is None && !p.restart_blend
            &&& new_target != s.target_anim ==> {
                &&& s1.target_anim == new_target
                &&& p.start == Some(new_target)
                &&& p.restart_blend
                &&& p.looped == (new_target != MovementAnim::JumpStart && new_target != MovementAnim::JumpLand)
                &&& p.reset_jump_timer == (new_target == MovementAnim::JumpStart || new_target == MovementAnim::JumpAir || new_target == MovementAnim::JumpLand)
                &&& blending ==> p.stop == Some(s.current_anim) && s1.current_anim == s.target_anim
                &&& !blending ==> p.stop is None && s1.current_anim == s.current_anim
            }
        }),
{
}

/// What a character's health does to its animation.
#[derive(Clone, Copy, Debug, PartialEq, Eq, Structural)]
pub enum DeathStep {
    /// It just died: play the death animation.
    StartDeath,
    /// It came back: restart the idle loop.
    Revive,
    /// Still dead: keep the death animation.
    StayDead,
    /// Alive: animate movement.
    Alive,
}

/// Follows a character's death and respawn; on death and revival the slots
/// reset to Idle and the airborne flag clears.
pub fn death_step(dead_shown: &mut bool, airborne: &mut bool, slots: &mut AnimSlots, is_dead: bool) -> (step: DeathStep)
    ensures
        step == (if is_dead && !*old(dead_shown) { DeathStep::StartDeath } else if *old(dead_shown) && !is_dead { DeathStep::Revive } else if *old(dead_shown) { DeathStep::StayDead } else { DeathStep::Alive }),
        *final(dead_shown) == is_dead,
        (step == DeathStep::StartDeath || step == DeathStep::Revive) ==> !*final(airborne) && *final(slots) == (AnimSlots { current_anim: MovementAnim::Idle, target_anim: MovementAnim::Idle }),
        (step == DeathStep::StayDead || step == DeathStep::Alive) ==> *final(airborne) == *old(airborne) && *final(slots) == *old(slots),
{
    if is_dead && !*dead_shown {
        *dead_shown = true;
        *airborne = false;
        *slots = AnimSlots { current_anim: MovementAnim::Idle, target_anim: MovementAnim::Idle };
        return DeathStep::StartDeath;
    }
    if *dead_shown {
        if !is_dead {
            *dead_shown = false;
            *airborne = false;
            *slots = AnimSlots { current_anim: MovementAnim::Idle, target_anim: MovementAnim::Idle };
            return DeathStep::Revive;
        }
        return DeathStep::StayDead;
    }
    DeathStep::Alive
}

/// The id a player's peer is recorded under: the peer's own number (a raw
/// address peer by the hash of its address), 0 for the server.
pub open spec fn player_peer_u64(p: PeerId) -> u64 {
    match p {
        PeerId::Netcode(id) => id,
        PeerId::Steam(id) => id,
        PeerId::Local(id) => id,
        PeerId::Entity(id) => id,
        PeerId::Raw(h) => h,
        PeerId::Server => 0,
    }
}

/// Converts a player's peer id to the u64 that vehicles record drivers by.
pub fn peer_id_to_u64(peer_id: PeerId) -> (r: u64)
    ensures
        r == player_peer_u64(peer_id),
{
    match peer_id {
        PeerId::Netcode(id) => id,
        PeerId::Steam(id) => id,
        PeerId::Local(id) => id,
        PeerId::Entity(id) => id,
        PeerId::Raw(h) => h,
        PeerId::Server => 0,
    }
}

/// The vehicle a player rides: the last of `vehicles` (entity, driver)
/// whose driver is the player's id.
pub open spec fn ridden_vehicle(vehicles: Seq<(u64, Option<u64>)>, player_id: u64) -> Option<u64>
    decreases vehicles.len(),
{
    if vehicles.len() == 0 {
        None
    } else if vehicles.last().1 == Some(player_id) {
        Some(vehicles.last().0)
    } else {
        ridden_vehicle(vehicles.drop_last(), player_id)
    }
}

/// For each player (by peer id), the vehicle whose seat its model snaps to,
/// or `None` when it walks and its model eases toward its position. A
/// driver id recorded on several vehicles counts for the last of them.
pub fn sync_player_transforms(vehicles: &Vec<(u64, Option<u64>)>, players: &Vec<PeerId>) -> (r: Vec<Option<u64>>)
    ensures
        r@.len() == players@.len(),
        forall|k: int| 0 <= k < players@.len() ==> #[trigger] r@[k] == ridden_vehicle(vehicles@, player_peer_u64(players@[k])),
{
    let mut r: Vec<Option<u64>> = Vec::new();
    let mut k: usize = 0;
    while k < players.len()
        invariant
            0 <= k <= players.len(),
            r@.len() == k,
            forall|j: int| 0 <= j < k ==> #[trigger] r@[j] == ridden_vehicle(vehicles@, player_peer_u64(players@[j])),
        decreases players.len() - k,
    {
        let id = peer_id_to_u64(players[k]);
        let mut found: Option<u64> = None;
        let mut i: usize = 0;
        while i < vehicles.len()
            invariant
                0 <= i <= vehicles.len(),
                found == ridden_vehicle(vehicles@.take(i as int), id),
            decreases vehicles.len() - i,
        {
            proof {
                assert(vehicles@.take(i + 1).drop_last() =~= vehicles@.take(i as int));
            }
            let (v, d) = vehicles[i];
            if let Some(did) = d {
                if did == id {
                    found = Some(v);
                }
            }
            i += 1;
        }
        assert(vehicles@.take(vehicles.len() as int) =~= vehicles@);
        r.push(found);
        k += 1;
    }
    r
}

/// The camera mode the model's visibility was last set for.
#[derive(Clone, Copy, Debug, PartialEq, Eq, Structural)]
pub struct LastCameraMode(pub Option<CameraMode>);

/// Hides the local model in first person and shows it in third person, only
/// when the camera mode changed. Returns whether the model is now visible,
/// when it is set.
pub fn update_local_player_visibility(last: &mut LastCameraMode, mode: CameraMode) -> (visible: Option<bool>)
    ensures
        final(last).0 == Some(mode),
        old(last).0 == Some(mode) ==> visible is None,
        old(last).0 != Some(mode) ==> visible == Some(mode == CameraMode::ThirdPerson),
{
    let unchanged = match last.0 {
        Some(m) => m == mode,
        None => false,
    };
    if unchanged {
        return None;
    }
    last.0 = Some(mode);
    match mode {
        CameraMode::FirstPerson => Some(false),
        CameraMode::ThirdPerson => Some(true),
    }
}

/// Which entities carry the local-player tag after retagging.
#[derive(Debug)]
pub struct LocalTagPlan {
    /// The entity to tag as ours.
    pub local: u64,
    /// Tagged entities to untag.
    pub untag: Vec<u64>,
    /// More than one player matched our peer id.
    pub duplicates: bool,
}

/// The index of the first player whose peer is ours.
pub open spec fn first_match(players: Seq<(u64, PeerId)>, ours: PeerId, k: int) -> Option<int>
    decreases players.len() - k,
{
    if k < 0 || k >= players.len() {
        None
    } else if players[k].1 == ours {
        Some(k)
    } else {
        first_match(players, ours, k + 1)
    }
}

/// Whether a player (entity, peer) is `ours`.
pub open spec fn peer_is(ours: PeerId) -> spec_fn((u64, PeerId)) -> bool {
    |p: (u64, PeerId)| p.1 == ours
}

/// Whether an entity is other than `keep`.
pub open spec fn entity_other_than(keep: u64) -> spec_fn(u64) -> bool {
    |e: u64| e != keep
}

/// The number of players whose peer is ours.
pub open spec fn match_count(players: Seq<(u64, PeerId)>, ours: PeerId) -> nat {
    players.filter(peer_is(ours)).len()
}

/// The entities in `tagged` other than `keep`.
pub fn others(tagged: &Vec<u64>, keep: u64) -> (r: Vec<u64>)
    ensures
        r@ == tagged@.filter(entity_other_than(keep)),
{
    let mut r: Vec<u64> = Vec::new();
    let ghost pred = entity_other_than(keep);
    let mut i: usize = 0;
    while i < tagged.len()
        invariant
            0 <= i <= tagged.len(),
            pred == entity_other_than(keep),
            r@ == tagged@.take(i as int).filter(pred),
        decreases tagged.len() - i,
    {
        proof {
            tagged@.take(i as int).lemma_filter_push(tagged@[i as int], pred);
            assert(tagged@.take(i + 1) =~= tagged@.take(i as int).push(tagged@[i as int]));
        }
        if tagged[i] != keep {
            r.push(tagged[i]);
        }
        i += 1;
    }
    assert(tagged@.take(tagged.len() as int) =~= tagged@);
    r
}

/// Makes exactly one player ours: the first whose peer id is ours; every
/// other entity tagged as ours loses the tag. `None` when no player is ours
/// yet. `players` pairs each player entity with its peer id.
pub fn ensure_local_player_tag(players: &Vec<(u64, PeerId)>, our_peer: PeerId, tagged: &Vec<u64>) -> (plan: Option<LocalTagPlan>)
    ensures
        first_match(players@, our_peer, 0) is None ==> plan is None,
        first_match(players@, our_peer, 0) matches Some(k) ==> (plan matches Some(p) && {
            &&& p.local == players@[k].0
            &&& p.untag@ == tagged@.filter(entity_other_than(players@[k].0))
            &&& p.duplicates == (match_count(players@, our_peer) > 1)
        }),
{
    let mut first: Option<usize> = None;
    let mut count: usize = 0;
    let ghost pred = peer_is(our_peer);
    let mut i: usize = 0;
    while i < players.len()
        invariant
            0 <= i <= players.len(),
            count <= i,
            pred == peer_is(our_peer),
            count == players@.take(i as int).filter(pred).len(),
            match first {
                None => first_match(players@, our_peer, 0) == first_match(players@, our_peer, i as int) && count == 0,
                Some(k) => first_match(players@, our_peer, 0) == Some(k as int) && k < i && count >= 1,
            },
        decreases players.len() - i,
    {
        proof {
            players@.take(i as int).lemma_filter_push(players@[i as int], pred);
            assert(players@.take(i + 1) =~= players@.take(i as int).push(players@[i as int]));
        }
        if players[i].1 == our_peer {
            if first.is_none() {
                first = Some(i);
            }
            count += 1;
        }
        i += 1;
    }
    assert(players@.take(players.len() as int) =~= players@);
    assert(first_match(players@, our_peer, players.len() as int) is None);
    match first {
        None => None,
        Some(k) => {
            let local = players[k].0;
            Some(LocalTagPlan { local, untag: others(tagged, local), duplicates: count > 1 })
        },
    }
}

/// A player rides a vehicle that names it as driver (the last such one),
/// and walks when no vehicle names it.
pub proof fn lemma_rider_snaps_to_a_vehicle_it_drives(vehicles: Seq<(u64, Option<u64>)>, player_id: u64)
    ensures
        ridden_vehicle(vehicles, player_id) matches Some(v) ==> exists|k: int| 0 <= k < vehicles.len()
            && #[trigger] vehicles[k] == (v, Some(player_id))
            && forall|j: int| k < j < vehicles.len() ==> (#[trigger] vehicles[j]).1 != Some(player_id),
        ridden_vehicle(vehicles, player_id) is None ==> forall|k: int| 0 <= k < vehicles.len() ==> (#[trigger] vehicles[k]).1 != Some(player_id),
    decreases vehicles.len(),
{
    if vehicles.len() > 0 {
        let t = vehicles.drop_last();
        lemma_rider_snaps_to_a_vehicle_it_drives(t, player_id);
        if vehicles.last().1 == Some(player_id) {
            let k = vehicles.len() - 1;
            assert(vehicles[k] == (vehicles.last().0, Some(player_id)));
        } else {
            if let Some(v) = ridden_vehicle(t, player_id) {
                let k = choose|k: int| 0 <= k < t.len() && #[trigger] t[k] == (v, Some(player_id))
                    && forall|j: int| k < j < t.len() ==> (#[trigger] t[j]).1 != Some(player_id);
                assert(vehicles[k] == t[k]);
                assert forall|j: int| k < j < vehicles.len() implies (#[trigger] vehicles[j]).1 != Some(player_id) by {
                    if j < t.len() {
                        assert(vehicles[j] == t[j]);
                    }
                }
            } else {
                assert forall|k: int| 0 <= k < vehicles.len() implies (#[trigger] vehicles[k]).1 != Some(player_id) by {
                    if k < t.len() {
                        assert(vehicles[k] == t[k]);
                    }
                }
            }
        }
    }
}

/// The first player found with our peer id is ours: no earlier player has
/// it; when none is found, no player from `k` on has it.
pub proof fn lemma_first_match_is_ours(players: Seq<(u64, PeerId)>, ours: PeerId, k: int)
    requires
        0 <= k,
    ensures
        first_match(players, ours, k) matches Some(i) ==> k <= i < players.len() && players[i].1 == ours
            && forall|j: int| k <= j < i ==> (#[trigger] players[j]).1 != ours,
        first_match(players, ours, k) is None ==> forall|j: int| k <= j < players.len() ==> (#[trigger] players[j]).1 != ours,
    decreases players.len() - k,
{
    if k < players.len() && players[k].1 != ours {
        lemma_first_match_is_ours(players, ours, k + 1);
    }
}

/// A player's peer is recorded by its own number (a raw peer by its address
/// hash); only the server maps to 0.
pub proof fn lemma_player_peer_numbers(id: u64)
    ensures
        player_peer_u64(PeerId::Netcode(id)) == id,
        player_peer_u64(PeerId::Steam(id)) == id,
        player_peer_u64(PeerId::Local(id)) == id,
        player_peer_u64(PeerId::Entity(id)) == id,
        player_peer_u64(PeerId::Raw(id)) == id,
        player_peer_u64(PeerId::Server) == 0,
{
}

} // verus!
