//! Audio decisions: limits on concurrent sounds, vehicle loop management,
//! asset readiness and the remote footstep and engine emitters.

use vstd::prelude::*;
use vstd::multiset::Multiset;

verus! {

broadcast use vstd::seq_lib::group_seq_properties;

/// Audio priorities, lowest first: lower priority sounds are dropped first.
#[derive(Clone, Copy, Debug, PartialEq, Eq, Structural)]
pub enum AudioPriority {
    /// Remote footsteps.
    Ambient,
    /// Remote vehicle engines.
    VehicleRemote,
    /// Remote gunshots.
    CombatRemote,
    /// NPC dialogue.
    Dialogue,
    /// Local vehicle sounds.
    VehicleLocal,
    /// Local weapon sounds: never dropped.
    CombatLocal,
}

/// The rank of a priority, 0 (dropped first) to 5.
pub open spec fn priority_rank(p: AudioPriority) -> nat {
    match p {
        AudioPriority::Ambient => 0,
        AudioPriority::VehicleRemote => 1,
        AudioPriority::CombatRemote => 2,
        AudioPriority::Dialogue => 3,
        AudioPriority::VehicleLocal => 4,
        AudioPriority::CombatLocal => 5,
    }
}

/// The number of priority levels.
pub const PRIORITY_LEVELS: usize = 6;

/// The rank of a priority.
pub fn rank(p: AudioPriority) -> (r: usize)
    ensures
        r == priority_rank(p),
        r < PRIORITY_LEVELS,
{
    match p {
        AudioPriority::Ambient => 0,
        AudioPriority::VehicleRemote => 1,
        AudioPriority::CombatRemote => 2,
        AudioPriority::Dialogue => 3,
        AudioPriority::VehicleLocal => 4,
        AudioPriority::CombatLocal => 5,
    }
}

/// Limits on concurrent managed sounds.
#[derive(Clone, Copy, Debug, PartialEq, Eq, Structural)]
pub struct AudioManager {
    /// Hard cap on all managed audio entities.
    pub max_total: usize,
    /// Max concurrent dialogue sounds.
    pub max_dialogue: usize,
    /// Max remote gunshot sounds.
    pub max_remote_combat: usize,
    /// Max remote footstep emitters.
    pub max_remote_footsteps: usize,
    /// Max remote vehicle audio pairs.
    pub max_remote_vehicles: usize,
}

impl AudioManager {
    /// The default limits: 32 sounds in all, 4 dialogue, 8 remote gunshots,
    /// 12 remote footstep emitters, 6 remote vehicles.
    pub fn default() -> (r: AudioManager)
        ensures
            r.max_total == 32,
            r.max_dialogue == 4,
            r.max_remote_combat == 8,
            r.max_remote_footsteps == 12,
            r.max_remote_vehicles == 6,
    {
        AudioManager {
            max_total: 32,
            max_dialogue: 4,
            max_remote_combat: 8,
            max_remote_footsteps: 12,
            max_remote_vehicles: 6,
        }
    }
}

/// A managed sound: its entity and priority. Callers list sounds of equal
/// priority farthest first, then oldest first.
#[derive(Clone, Copy, Debug, PartialEq, Eq, Structural)]
pub struct ManagedSound {
    pub entity: u64,
    pub priority: AudioPriority,
}

/// The sounds of one priority rank, in the order given.
pub open spec fn with_rank(s: Seq<ManagedSound>, r: nat) -> Seq<ManagedSound> {
    s.filter(|m: ManagedSound| priority_rank(m.priority) == r)
}

/// The sounds of the ranks below `upto`, lowest rank first, each rank in the order given.
pub open spec fn ranks_below(s: Seq<ManagedSound>, upto: nat) -> Seq<ManagedSound>
    decreases upto,
{
    if upto == 0 {
        Seq::empty()
    } else {
        ranks_below(s, (upto - 1) as nat) + with_rank(s, (upto - 1) as nat)
    }
}

/// All sounds, stably ordered by priority, lowest first.
pub open spec fn lowest_priority_first(s: Seq<ManagedSound>) -> Seq<ManagedSound> {
    ranks_below(s, PRIORITY_LEVELS as nat)
}

/// The rank of local weapon sounds, which are never dropped.
pub const COMBAT_LOCAL_RANK: usize = 5;

/// The sounds that may be dropped (all but local weapon sounds), lowest
/// priority first.
pub open spec fn droppable(s: Seq<ManagedSound>) -> Seq<ManagedSound> {
    ranks_below(s, COMBAT_LOCAL_RANK as nat)
}

/// How many sounds are dropped: the excess over `max_total`, as far as
/// there are sounds that may be dropped.
pub open spec fn drop_count(s: Seq<ManagedSound>, max_total: nat) -> nat {
    if s.len() <= max_total {
        0
    } else if droppable(s).len() < s.len() - max_total {
        droppable(s).len()
    } else {
        (s.len() - max_total) as nat
    }
}

/// The sounds to drop so that at most `max_total` remain, lowest priority
/// first; local weapon sounds are never among them.
pub open spec fn sounds_to_drop(s: Seq<ManagedSound>, max_total: nat) -> Seq<ManagedSound> {
    droppable(s).take(drop_count(s, max_total) as int)
}

/// Enforces the global cap on managed sounds: returns the entities to
/// despawn, lowest priority first (and, within a priority, in the order
/// given: farthest, then oldest). Local weapon sounds are never despawned,
/// so the cap holds only as far as other sounds can make room.
pub fn enforce_audio_limits(sounds: &Vec<ManagedSound>, audio_manager: &AudioManager) -> (despawn: Vec<u64>)
    ensures
        despawn@ == sounds_to_drop(sounds@, audio_manager.max_total as nat).map_values(|m: ManagedSound| m.entity),
{
    let mut despawn: Vec<u64> = Vec::new();
    if sounds.len() <= audio_manager.max_total {
        return despawn;
    }
    let excess = sounds.len() - audio_manager.max_total;
    let ghost full = lowest_priority_first(sounds@);
    let mut r: usize = 0;
    while r < COMBAT_LOCAL_RANK
        invariant
            0 <= r <= COMBAT_LOCAL_RANK,
            excess == sounds.len() - audio_manager.max_total,
            despawn@ == ranks_below(sounds@, r as nat).take(despawn.len() as int).map_values(|m: ManagedSound| m.entity),
            despawn.len() == (if ranks_below(sounds@, r as nat).len() < excess { ranks_below(sounds@, r as nat).len() } else { excess as nat }),
        decreases COMBAT_LOCAL_RANK - r,
    {
        let ghost pred = |m: ManagedSound| priority_rank(m.priority) == r as nat;
        let ghost prefix = ranks_below(sounds@, r as nat);
        proof {
            assert(sounds@.take(0) =~= Seq::<ManagedSound>::empty());
            assert(prefix + sounds@.take(0).filter(pred) =~= prefix);
        }
        let mut i: usize = 0;
        while i < sounds.len()
            invariant
                0 <= i <= sounds.len(),
                r < COMBAT_LOCAL_RANK,
                excess == sounds.len() - audio_manager.max_total,
                prefix == ranks_below(sounds@, r as nat),
                pred == (|m: ManagedSound| priority_rank(m.priority) == r as nat),
                despawn.len() == (if (prefix + sounds@.take(i as int).filter(pred)).len() < excess {
                    (prefix + sounds@.take(i as int).filter(pred)).len()
                } else {
                    excess as nat
                }),
                despawn@ == (prefix + sounds@.take(i as int).filter(pred)).take(despawn.len() as int).map_values(|m: ManagedSound| m.entity),
            decreases sounds.len() - i,
        {
            let m = sounds[i];
            let ghost before = prefix + sounds@.take(i as int).filter(pred);
            proof {
                assert(sounds@.take(i + 1) =~= sounds@.take(i as int).push(m));
                sounds@.take(i as int).lemma_filter_push(m, pred);
                assert(pred(m) == (priority_rank(m.priority) == r as nat));
            }
            if rank(m.priority) == r && despawn.len() < excess {
                despawn.push(m.entity);
                proof {
                    let after = before.push(m);
                    assert(prefix + sounds@.take(i + 1).filter(pred) =~= after);
                    assert(after.take(despawn.len() as int) =~= before.take(despawn.len() - 1).push(m));
                    assert(after.take(despawn.len() as int).map_values(|m: ManagedSound| m.entity)
                        =~= before.take(despawn.len() - 1).map_values(|m: ManagedSound| m.entity).push(m.entity));
                }
            } else {
                proof {
                    let after = prefix + sounds@.take(i + 1).filter(pred);
                    if pred(m) {
                        assert(after =~= before.push(m));
                        assert(after.take(despawn.len() as int) =~= before.take(despawn.len() as int));
                    } else {
                        assert(after =~= before);
                    }
                }
            }
            i += 1;
        }
        proof {
            assert(sounds@.take(sounds.len() as int) =~= sounds@);
            assert(ranks_below(sounds@, (r + 1) as nat) == prefix + with_rank(sounds@, r as nat));
            assert(with_rank(sounds@, r as nat) == sounds@.filter(pred));
            let all = ranks_below(sounds@, (r + 1) as nat);
            if all.len() < excess {
                assert(all.take(despawn.len() as int) =~= all);
            }
        }
        r += 1;
    }
    despawn
}

proof fn lemma_ranks_below_push(s: Seq<ManagedSound>, x: ManagedSound, n: nat)
    ensures
        ranks_below(s.push(x), n).to_multiset() == (if priority_rank(x.priority) < n {
            ranks_below(s, n).to_multiset().insert(x)
        } else {
            ranks_below(s, n).to_multiset()
        }),
    decreases n,
{
    broadcast use vstd::multiset::group_multiset_axioms;
    if n > 0 {
        let k = (n - 1) as nat;
        lemma_ranks_below_push(s, x, k);
        let pred = |m: ManagedSound| priority_rank(m.priority) == k;
        s.lemma_filter_push(x, pred);
        vstd::seq_lib::lemma_multiset_commutative(ranks_below(s.push(x), k), with_rank(s.push(x), k));
        vstd::seq_lib::lemma_multiset_commutative(ranks_below(s, k), with_rank(s, k));
        with_rank(s, k).to_multiset_ensures();
        if priority_rank(x.priority) == k {
            assert(with_rank(s.push(x), k) == with_rank(s, k).push(x));
            assert(ranks_below(s.push(x), n).to_multiset() =~= ranks_below(s, n).to_multiset().insert(x));
        } else {
            assert(with_rank(s.push(x), k) == with_rank(s, k));
            if priority_rank(x.priority) < k {
                assert(ranks_below(s.push(x), n).to_multiset() =~= ranks_below(s, n).to_multiset().insert(x));
            } else {
                assert(ranks_below(s.push(x), n).to_multiset() =~= ranks_below(s, n).to_multiset());
            }
        }
    } else {
        assert(ranks_below(s.push(x), n) == ranks_below(s, n));
    }
}

/// Arranging sounds by priority neither loses nor adds a sound.
pub proof fn lemma_lowest_priority_first_perm(s: Seq<ManagedSound>)
    ensures
        lowest_priority_first(s).to_multiset() == s.to_multiset(),
        lowest_priority_first(s).len() == s.len(),
    decreases s.len(),
{
    broadcast use vstd::multiset::group_multiset_axioms;
    if s.len() == 0 {
        lemma_ranks_below_empty(s, PRIORITY_LEVELS as nat);
        assert(lowest_priority_first(s) =~= Seq::<ManagedSound>::empty());
        assert(s.to_multiset() =~= Multiset::empty()) by { s.to_multiset_ensures(); }
        assert(lowest_priority_first(s).to_multiset() =~= Multiset::empty()) by {
            lowest_priority_first(s).to_multiset_ensures();
        }
    } else {
        let t = s.drop_last();
        lemma_lowest_priority_first_perm(t);
        assert(t.push(s.last()) =~= s);
        lemma_ranks_below_push(t, s.last(), PRIORITY_LEVELS as nat);
        t.to_multiset_ensures();
    }
    lowest_priority_first(s).to_multiset_ensures();
    s.to_multiset_ensures();
}

proof fn lemma_ranks_below_empty(s: Seq<ManagedSound>, n: nat)
    requires
        s.len() == 0,
    ensures
        ranks_below(s, n).len() == 0,
    decreases n,
{
    if n > 0 {
        lemma_ranks_below_empty(s, (n - 1) as nat);
        let pred = |m: ManagedSound| priority_rank(m.priority) == (n - 1) as nat;
        assert(s.filter(pred).len() <= s.len()) by {
            broadcast use vstd::seq_lib::group_filter_ensures;
        }
    }
}

/// Every sound in the ranks below `n` has a rank below `n`, and they come
/// lowest rank first.
pub proof fn lemma_ranks_below_sorted(s: Seq<ManagedSound>, n: nat)
    ensures
        forall|i: int| 0 <= i < ranks_below(s, n).len() ==> priority_rank(#[trigger] ranks_below(s, n)[i].priority) < n,
        forall|i: int, j: int| 0 <= i <= j < ranks_below(s, n).len()
            ==> priority_rank(ranks_below(s, n)[i].priority) <= priority_rank(ranks_below(s, n)[j].priority),
    decreases n,
{
    broadcast use vstd::seq_lib::group_filter_ensures;
    if n > 0 {
        let k = (n - 1) as nat;
        lemma_ranks_below_sorted(s, k);
        let a = ranks_below(s, k);
        let w = with_rank(s, k);
        let b = a + w;
        assert(b == ranks_below(s, n));
        assert forall|i: int| 0 <= i < w.len() implies priority_rank(#[trigger] w[i].priority) == k by {
            let pred = |m: ManagedSound| priority_rank(m.priority) == k;
            assert(pred(s.filter(pred)[i]));
        }
        assert forall|i: int| 0 <= i < b.len() implies priority_rank(#[trigger] b[i].priority) < n by {
            if i < a.len() {
                assert(b[i] == a[i]);
            } else {
                assert(b[i] == w[i - a.len()]);
            }
        }
        assert forall|i: int, j: int| 0 <= i <= j < b.len()
            implies priority_rank(b[i].priority) <= priority_rank(b[j].priority) by {
            if j < a.len() {
                assert(b[i] == a[i] && b[j] == a[j]);
            } else if i >= a.len() {
                assert(b[i] == w[i - a.len()] && b[j] == w[j - a.len()]);
            } else {
                assert(b[i] == a[i] && b[j] == w[j - a.len()]);
            }
        }
    }
}

/// Local weapon sounds are never dropped; the global cap holds after
/// enforcement whenever the other sounds can make room; and no sound is
/// dropped while a sound of lower priority stays: the dropped sounds are the
/// first of all sounds ordered lowest priority first, and each has a
/// priority at most that of every remaining sound.
pub proof fn lemma_audio_limit_drops_lowest(s: Seq<ManagedSound>, max_total: nat)
    ensures
        forall|i: int| 0 <= i < sounds_to_drop(s, max_total).len()
            ==> #[trigger] sounds_to_drop(s, max_total)[i].priority != AudioPriority::CombatLocal,
        s.len() > max_total && droppable(s).len() >= s.len() - max_total
            ==> sounds_to_drop(s, max_total).len() == s.len() - max_total,
        sounds_to_drop(s, max_total) == lowest_priority_first(s).take(sounds_to_drop(s, max_total).len() as int),
        forall|i: int, j: int| 0 <= i < sounds_to_drop(s, max_total).len() <= j < s.len()
            ==> priority_rank(lowest_priority_first(s)[i].priority) <= priority_rank(lowest_priority_first(s)[j].priority),
        lowest_priority_first(s).to_multiset() == s.to_multiset(),
        lowest_priority_first(s).len() == s.len(),
{
    lemma_lowest_priority_first_perm(s);
    lemma_ranks_below_sorted(s, PRIORITY_LEVELS as nat);
    lemma_ranks_below_sorted(s, COMBAT_LOCAL_RANK as nat);
    let d = droppable(s);
    let k = drop_count(s, max_total);
    let l = lowest_priority_first(s);
    assert(l == d + with_rank(s, 5));
    assert(sounds_to_drop(s, max_total).len() == k);
    assert(sounds_to_drop(s, max_total) =~= l.take(k as int));
    assert forall|i: int| 0 <= i < k implies #[trigger] sounds_to_drop(s, max_total)[i].priority != AudioPriority::CombatLocal by {
        assert(sounds_to_drop(s, max_total)[i] == d[i]);
        assert(priority_rank(d[i].priority) < 5);
    }
}

/// Whether the local vehicle loops exist, and whether we drove last frame.
#[derive(Clone, Copy, Debug, PartialEq, Eq, Structural)]
pub struct VehicleAudioState {
    pub sounds_spawned: bool,
    pub was_in_vehicle: bool,
}

/// What to do with the local vehicle loops this frame.
#[derive(Clone, Copy, Debug, PartialEq, Eq, Structural)]
pub enum VehicleLoopAction {
    /// Spawn the idle loop (playing) and the cruise loop (silent).
    Spawn,
    /// Despawn both loops.
    Despawn,
    Nothing,
}

/// The vehicle loop step, once assets are ready.
pub open spec fn in_vehicle_step(s: VehicleAudioState, in_vehicle: bool) -> (VehicleAudioState, VehicleLoopAction) {
    if in_vehicle && !s.was_in_vehicle {
        (VehicleAudioState { sounds_spawned: true, was_in_vehicle: in_vehicle }, VehicleLoopAction::Spawn)
    } else if !in_vehicle && s.was_in_vehicle {
        (VehicleAudioState { sounds_spawned: false, was_in_vehicle: in_vehicle }, VehicleLoopAction::Despawn)
    } else {
        (VehicleAudioState { sounds_spawned: s.sounds_spawned, was_in_vehicle: in_vehicle }, VehicleLoopAction::Nothing)
    }
}

/// Spawns the bike loops when we get into a vehicle and despawns them when we
/// get out. Nothing happens until the audio assets are ready.
pub fn manage_vehicle_audio(state: &mut VehicleAudioState, assets_ready: bool, in_vehicle: bool) -> (action: VehicleLoopAction)
    ensures
        !assets_ready ==> *final(state) == *old(state) && action == VehicleLoopAction::Nothing,
        assets_ready ==> (*final(state), action) == in_vehicle_step(*old(state), in_vehicle),
{
    if !assets_ready {
        return VehicleLoopAction::Nothing;
    }
    let mut action = VehicleLoopAction::Nothing;
    if in_vehicle && !state.was_in_vehicle {
        state.sounds_spawned = true;
        action = VehicleLoopAction::Spawn;
    }
    if !in_vehicle && state.was_in_vehicle {
        state.sounds_spawned = false;
        action = VehicleLoopAction::Despawn;
    }
    state.was_in_vehicle = in_vehicle;
    action
}

/// Getting into a vehicle spawns the loops once; getting out despawns them,
/// leaving no loops; staying in or out does nothing.
pub proof fn lemma_vehicle_loops_follow_driving(s: VehicleAudioState, in_vehicle: bool)
    requires
        s.sounds_spawned == s.was_in_vehicle,
    ensures
        in_vehicle_step(s, in_vehicle).0.sounds_spawned == in_vehicle,
        in_vehicle_step(s, in_vehicle).0.was_in_vehicle == in_vehicle,
        (in_vehicle_step(s, in_vehicle).1 == VehicleLoopAction::Nothing) == (in_vehicle == s.was_in_vehicle),
{
}

/// Leaving gameplay forgets the local vehicle loops.
pub fn stop_vehicle_sounds(state: &mut VehicleAudioState)
    ensures
        !final(state).sounds_spawned && !final(state).was_in_vehicle,
{
    state.sounds_spawned = false;
    state.was_in_vehicle = false;
}

/// The load state of an audio asset.
#[derive(Clone, Copy, Debug, PartialEq, Eq, Structural)]
pub enum AssetLoad {
    Loaded,
    Failed,
    /// Still loading, or not known yet.
    Pending,
}

/// Which audio asset failed to load.
#[derive(Clone, Copy, Debug, PartialEq, Eq, Structural)]
pub enum AudioLoadError {
    GunShot,
    DesertAmbient,
}

/// The audio flags the sound systems share.
#[derive(Clone, Copy, Debug, PartialEq, Eq, Structural)]
pub struct AudioFlags {
    pub ambient_spawned: bool,
    pub assets_ready: bool,
}

/// Marks the audio ready once both the gunshot and the ambient loop are
/// loaded; reports a failure of either (the gunshot first).
pub fn check_audio_assets_loaded(flags: &mut AudioFlags, gun_shot: AssetLoad, desert_ambient: AssetLoad) -> (err: Option<AudioLoadError>)
    ensures
        old(flags).assets_ready ==> *final(flags) == *old(flags) && err is None,
        !old(flags).assets_ready ==> {
            &&& final(flags).ambient_spawned == old(flags).ambient_spawned
            &&& final(flags).assets_ready == (gun_shot == AssetLoad::Loaded && desert_ambient == AssetLoad::Loaded)
            &&& err == (if gun_shot == AssetLoad::Loaded && desert_ambient == AssetLoad::Loaded {
                None
            } else if gun_shot == AssetLoad::Failed {
                Some(AudioLoadError::GunShot)
            } else if desert_ambient == AssetLoad::Failed {
                Some(AudioLoadError::DesertAmbient)
            } else {
                None
            })
        },
{
    if flags.assets_ready {
        return None;
    }
    match (gun_shot, desert_ambient) {
        (AssetLoad::Loaded, AssetLoad::Loaded) => {
            flags.assets_ready = true;
            None
        },
        (AssetLoad::Failed, _) => Some(AudioLoadError::GunShot),
        (_, AssetLoad::Failed) => Some(AudioLoadError::DesertAmbient),
        _ => None,
    }
}

/// Spawns the (paused) desert ambient loop once, when the assets are ready
/// and no ambient entity exists. Returns whether to spawn it now.
pub fn ensure_ambient_entity(flags: &mut AudioFlags, ambient_exists: bool) -> (spawn: bool)
    ensures
        spawn == (old(flags).assets_ready && !old(flags).ambient_spawned && !ambient_exists),
        final(flags).assets_ready == old(flags).assets_ready,
        final(flags).ambient_spawned == (old(flags).ambient_spawned || spawn),
{
    if !flags.assets_ready {
        return false;
    }
    if flags.ambient_spawned || ambient_exists {
        return false;
    }
    flags.ambient_spawned = true;
    true
}

/// Leaving gameplay despawns the ambient loop and allows a new one.
pub fn stop_ambient_sounds(flags: &mut AudioFlags)
    ensures
        !final(flags).ambient_spawned,
        final(flags).assets_ready == old(flags).assets_ready,
{
    flags.ambient_spawned = false;
}

/// Whether to play the local gunshot: a shot was fired this frame, the
/// assets are ready, we are on foot, and the previous gunshot played more
/// than 50 ms ago (`past_min_interval`). The frame's shot flag is consumed.
pub fn play_gunshot_sfx(assets_ready: bool, in_vehicle: bool, shot_fired_this_frame: &mut bool, past_min_interval: bool) -> (play: bool)
    ensures
        play == (assets_ready && !in_vehicle && *old(shot_fired_this_frame) && past_min_interval),
        !*final(shot_fired_this_frame),
{
    let play = assets_ready && !in_vehicle && *shot_fired_this_frame && past_min_interval;
    *shot_fired_this_frame = false;
    play
}

/// What to do with a looping sink.
#[derive(Clone, Copy, Debug, PartialEq, Eq, Structural)]
pub enum SinkAction {
    Play,
    Pause,
    Keep,
}

/// Plays a paused sink that should play, pauses a playing sink that should not.
pub open spec fn sink_action_spec(should_play: bool, paused: bool) -> SinkAction {
    if should_play && paused {
        SinkAction::Play
    } else if !should_play && !paused {
        SinkAction::Pause
    } else {
        SinkAction::Keep
    }
}

fn sink_action(should_play: bool, paused: bool) -> (r: SinkAction)
    ensures
        r == sink_action_spec(should_play, paused),
{
    if should_play && paused {
        SinkAction::Play
    } else if !should_play && !paused {
        SinkAction::Pause
    } else {
        SinkAction::Keep
    }
}

/// The desert walking loop plays while we walk on foot in the desert.
pub fn update_desert_walking_ambient(flags: &crate::input::InputFlags, in_desert: bool, sink_paused: bool) -> (action: SinkAction)
    ensures
        action == sink_action_spec(
            (flags.forward || flags.backward || flags.left || flags.right) && !flags.in_vehicle && in_desert,
            sink_paused,
        ),
{
    let walking = (flags.forward || flags.backward || flags.left || flags.right) && !flags.in_vehicle;
    sink_action(walking && in_desert, sink_paused)
}

/// A footstep emitter follows a remote walker.
#[derive(Clone, Copy, Debug, PartialEq, Eq, Structural)]
pub struct FootstepState {
    pub playing: bool,
}

/// Hysteresis on footsteps: a playing loop keeps playing above the stop speed,
/// a silent one starts above the (higher) start speed. Returns the sink action.
pub fn update_remote_footstep_emitter(state: &mut FootstepState, above_start_speed: bool, above_stop_speed: bool, sink_paused: bool) -> (action: SinkAction)
    ensures
        ({
            let should_play = if old(state).playing { above_stop_speed } else { above_start_speed };
            &&& action == sink_action_spec(should_play, sink_paused)
            &&& final(state).playing == (match action {
                SinkAction::Play => true,
                SinkAction::Pause => false,
                SinkAction::Keep => old(state).playing,
            })
        }),
{
    let should_play = if state.playing { above_stop_speed } else { above_start_speed };
    let action = sink_action(should_play, sink_paused);
    match action {
        SinkAction::Play => { state.playing = true; },
        SinkAction::Pause => { state.playing = false; },
        SinkAction::Keep => {},
    }
    action
}

/// A remote player or NPC that might get a footstep emitter.
#[derive(Clone, Copy, Debug, PartialEq, Eq, Structural)]
pub struct FootstepCandidate {
    pub entity: u64,
    /// The player's driver id; `None` for NPCs.
    pub player_id: Option<u64>,
    /// Within the spawn distance of the listener.
    pub in_range: bool,
    /// Orders candidates by distance from the listener: a nearer candidate
    /// has a smaller key.
    pub distance_key: u64,
}

/// The candidates that may get an emitter: in range, not driving, without one yet.
pub open spec fn footstep_eligible(c: FootstepCandidate, drivers: Seq<Option<u64>>, existing: Seq<u64>) -> bool {
    &&& c.in_range
    &&& !existing.contains(c.entity)
    &&& match c.player_id {
        Some(id) => !crate::input::drives_some(drivers, id),
        None => true,
    }
}

/// The emitter budget: how many more emitters may spawn.
pub open spec fn footstep_budget(existing: nat, max: nat) -> nat {
    if existing >= max { 0 } else { (max - existing) as nat }
}

/// Inserts `c` after every candidate of `sorted` at most as far as `c`
/// (scanning from the back), so equal keys keep their arrival order.
pub open spec fn insert_by_key(sorted: Seq<FootstepCandidate>, c: FootstepCandidate) -> Seq<FootstepCandidate>
    decreases sorted.len(),
{
    if sorted.len() == 0 || sorted.last().distance_key <= c.distance_key {
        sorted.push(c)
    } else {
        insert_by_key(sorted.drop_last(), c).push(sorted.last())
    }
}

/// Candidates stably sorted nearest first.
pub open spec fn sort_by_key(s: Seq<FootstepCandidate>) -> Seq<FootstepCandidate>
    decreases s.len(),
{
    if s.len() == 0 {
        s
    } else {
        insert_by_key(sort_by_key(s.drop_last()), s.last())
    }
}

/// Candidates ordered nearest first.
pub open spec fn keys_ascending(s: Seq<FootstepCandidate>) -> bool {
    forall|i: int, j: int| 0 <= i <= j < s.len() ==> s[i].distance_key <= s[j].distance_key
}

/// The eligible candidates, nearest first.
pub open spec fn eligible_nearest_first(candidates: Seq<FootstepCandidate>, drivers: Seq<Option<u64>>, existing: Seq<u64>) -> Seq<FootstepCandidate> {
    sort_by_key(candidates.filter(|c: FootstepCandidate| footstep_eligible(c, drivers, existing)))
}

/// The candidates that get an emitter: the nearest eligible ones, as many
/// as the budget allows.
pub open spec fn footstep_spawns(candidates: Seq<FootstepCandidate>, drivers: Seq<Option<u64>>, existing: Seq<u64>, max: nat) -> Seq<FootstepCandidate> {
    let e = eligible_nearest_first(candidates, drivers, existing);
    let b = footstep_budget(existing.len(), max);
    e.take(if e.len() < b { e.len() as int } else { b as int })
}

proof fn lemma_insert_key_at(s: Seq<FootstepCandidate>, c: FootstepCandidate, p: int)
    requires
        0 <= p <= s.len(),
        forall|j: int| p <= j < s.len() ==> s[j].distance_key > c.distance_key,
        p == 0 || s[p - 1].distance_key <= c.distance_key,
    ensures
        insert_by_key(s, c) == s.insert(p, c),
    decreases s.len(),
{
    if s.len() == 0 || p == s.len() {
        assert(s.insert(p, c) =~= s.push(c));
    } else {
        let t = s.drop_last();
        lemma_insert_key_at(t, c, p);
        assert(s.insert(p, c) =~= t.insert(p, c).push(s.last()));
    }
}

proof fn lemma_insert_key_sorted(s: Seq<FootstepCandidate>, c: FootstepCandidate)
    requires
        keys_ascending(s),
    ensures
        keys_ascending(insert_by_key(s, c)),
        insert_by_key(s, c).to_multiset() == s.to_multiset().insert(c),
        insert_by_key(s, c).len() == s.len() + 1,
        forall|i: int| 0 <= i < s.len() + 1 ==> #[trigger] insert_by_key(s, c)[i] == c
            || s.contains(insert_by_key(s, c)[i]),
    decreases s.len(),
{
    broadcast use vstd::multiset::group_multiset_axioms;
    s.to_multiset_ensures();
    if s.len() == 0 || s.last().distance_key <= c.distance_key {
        let r = s.push(c);
        assert forall|i: int, j: int| 0 <= i <= j < r.len() implies r[i].distance_key <= r[j].distance_key by {
            if j == s.len() && i < s.len() {
                assert(s[i].distance_key <= s.last().distance_key);
            }
        }
        assert forall|i: int| 0 <= i < s.len() + 1 implies #[trigger] r[i] == c || s.contains(r[i]) by {
            if i < s.len() { assert(s.contains(s[i])); }
        }
    } else {
        let t = s.drop_last();
        assert(keys_ascending(t));
        lemma_insert_key_sorted(t, c);
        let u = insert_by_key(t, c);
        let r = u.push(s.last());
        assert(t.push(s.last()) =~= s);
        t.to_multiset_ensures();
        u.to_multiset_ensures();
        assert forall|i: int| 0 <= i < u.len() implies (#[trigger] u[i]).distance_key <= s.last().distance_key by {
            if u[i] != c {
                assert(t.contains(u[i]));
                let k = choose|k: int| 0 <= k < t.len() && t[k] == u[i];
                assert(s[k].distance_key <= s[s.len() - 1].distance_key);
            }
        }
        assert forall|i: int, j: int| 0 <= i <= j < r.len() implies r[i].distance_key <= r[j].distance_key by {
            if j == u.len() && i < u.len() {
                assert(u[i].distance_key <= s.last().distance_key);
            }
        }
        assert forall|i: int| 0 <= i < s.len() + 1 implies #[trigger] r[i] == c || s.contains(r[i]) by {
            if i < u.len() {
                if u[i] != c {
                    assert(t.contains(u[i]));
                    let k = choose|k: int| 0 <= k < t.len() && t[k] == u[i];
                    assert(s[k] == u[i]);
                }
            } else {
                assert(s.contains(s[s.len() - 1]));
            }
        }
        assert(r.to_multiset() =~= s.to_multiset().insert(c));
    }
}

/// The stable sort by distance key orders candidates nearest first and
/// neither loses nor adds one.
pub proof fn lemma_sort_by_key(s: Seq<FootstepCandidate>)
    ensures
        keys_ascending(sort_by_key(s)),
        sort_by_key(s).to_multiset() == s.to_multiset(),
        sort_by_key(s).len() == s.len(),
    decreases s.len(),
{
    broadcast use vstd::multiset::group_multiset_axioms;
    if s.len() > 0 {
        let t = s.drop_last();
        lemma_sort_by_key(t);
        lemma_insert_key_sorted(sort_by_key(t), s.last());
        assert(t.push(s.last()) =~= s);
        t.to_multiset_ensures();
    } else {
        assert(s.to_multiset() =~= Multiset::empty()) by {
            s.to_multiset_ensures();
        }
    }
}

/// The emitters go to the nearest eligible candidates: as many as the
/// budget allows (or all of them, if fewer), drawn from the eligible
/// candidates nearest first, so no eligible candidate left out is nearer
/// than one that got an emitter.
pub proof fn lemma_footsteps_go_to_nearest(candidates: Seq<FootstepCandidate>, drivers: Seq<Option<u64>>, existing: Seq<u64>, max: nat)
    ensures
        ({
            let e = candidates.filter(|c: FootstepCandidate| footstep_eligible(c, drivers, existing));
            let b = footstep_budget(existing.len(), max);
            let sorted = eligible_nearest_first(candidates, drivers, existing);
            let chosen = footstep_spawns(candidates, drivers, existing, max);
            &&& chosen.len() == (if e.len() < b { e.len() } else { b })
            &&& sorted.to_multiset() == e.to_multiset()
            &&& chosen == sorted.take(chosen.len() as int)
            &&& forall|i: int, j: int| 0 <= i < chosen.len() <= j < sorted.len()
                ==> chosen[i].distance_key <= sorted[j].distance_key
            &&& forall|i: int| 0 <= i < chosen.len() ==> footstep_eligible(#[trigger] chosen[i], drivers, existing)
        }),
{
    let pred = |c: FootstepCandidate| footstep_eligible(c, drivers, existing);
    let e = candidates.filter(pred);
    let sorted = sort_by_key(e);
    lemma_sort_by_key(e);
    let chosen = footstep_spawns(candidates, drivers, existing, max);
    assert forall|i: int| 0 <= i < chosen.len() implies footstep_eligible(#[trigger] chosen[i], drivers, existing) by {
        broadcast use vstd::seq_lib::group_filter_ensures;
        e.to_multiset_ensures();
        sorted.to_multiset_ensures();
        assert(sorted.contains(sorted[i]));
        assert(sorted.to_multiset().count(sorted[i]) > 0);
        assert(e.contains(sorted[i]));
        let k = choose|k: int| 0 <= k < e.len() && e[k] == sorted[i];
        assert(pred(e[k]));
    }
}

/// The footstep emitters to spawn this frame: the nearest eligible
/// candidates (in range, not driving, without an emitter yet), nearest
/// first, as many as the emitter limit leaves room for.
pub fn ensure_remote_footstep_emitters(
    candidates: &Vec<FootstepCandidate>,
    drivers: &Vec<Option<u64>>,
    existing_targets: &Vec<u64>,
    audio_manager: &AudioManager,
) -> (spawn: Vec<u64>)
    ensures
        spawn@ == footstep_spawns(candidates@, drivers@, existing_targets@, audio_manager.max_remote_footsteps as nat)
            .map_values(|c: FootstepCandidate| c.entity),
{
    let ghost pred = |c: FootstepCandidate| footstep_eligible(c, drivers@, existing_targets@);
    let budget: usize = if existing_targets.len() >= audio_manager.max_remote_footsteps {
        0
    } else {
        audio_manager.max_remote_footsteps - existing_targets.len()
    };
    let mut sorted: Vec<FootstepCandidate> = Vec::new();
    let mut i: usize = 0;
    while i < candidates.len()
        invariant
            0 <= i <= candidates.len(),
            pred == (|c: FootstepCandidate| footstep_eligible(c, drivers@, existing_targets@)),
            sorted@ == sort_by_key(candidates@.take(i as int).filter(pred)),
        decreases candidates.len() - i,
    {
        let c = candidates[i];
        proof {
            assert(candidates@.take(i + 1) =~= candidates@.take(i as int).push(c));
            candidates@.take(i as int).lemma_filter_push(c, pred);
        }
        let mut ok = c.in_range && !contains_u64(existing_targets, c.entity);
        if ok {
            if let Some(id) = c.player_id {
                if is_driver(drivers, id) {
                    ok = false;
                }
            }
        }
        assert(ok == pred(c));
        if ok {
            let ghost f = candidates@.take(i as int).filter(pred);
            let mut p: usize = sorted.len();
            while p > 0 && sorted[p - 1].distance_key > c.distance_key
                invariant
                    0 <= p <= sorted.len(),
                    forall|j: int| p <= j < sorted.len() ==> sorted@[j].distance_key > c.distance_key,
                decreases p,
            {
                p -= 1;
            }
            proof {
                lemma_insert_key_at(sorted@, c, p as int);
                assert(f.push(c).drop_last() =~= f);
            }
            sorted.insert(p, c);
        }
        i += 1;
    }
    assert(candidates@.take(candidates.len() as int) =~= candidates@);
    let n: usize = if sorted.len() < budget { sorted.len() } else { budget };
    let mut spawn: Vec<u64> = Vec::new();
    let mut k: usize = 0;
    while k < n
        invariant
            0 <= k <= n <= sorted.len(),
            spawn@ == sorted@.take(k as int).map_values(|c: FootstepCandidate| c.entity),
        decreases n - k,
    {
        spawn.push(sorted[k].entity);
        proof {
            assert(sorted@.take(k + 1) =~= sorted@.take(k as int).push(sorted@[k as int]));
            assert(sorted@.take(k + 1).map_values(|c: FootstepCandidate| c.entity)
                =~= sorted@.take(k as int).map_values(|c: FootstepCandidate| c.entity).push(sorted@[k as int].entity));
        }
        k += 1;
    }
    spawn
}

pub(crate) fn contains_u64(v: &Vec<u64>, x: u64) -> (r: bool)
    ensures
        r == v@.contains(x),
{
    let mut i: usize = 0;
    while i < v.len()
        invariant
            0 <= i <= v.len(),
            forall|j: int| 0 <= j < i ==> v@[j] != x,
        decreases v.len() - i,
    {
        if v[i] == x {
            assert(v@[i as int] == x);
            return true;
        }
        i += 1;
    }
    false
}

fn is_driver(drivers: &Vec<Option<u64>>, id: u64) -> (r: bool)
    ensures
        r == crate::input::drives_some(drivers@, id),
{
    let mut i: usize = 0;
    while i < drivers.len()
        invariant
            0 <= i <= drivers.len(),
            forall|j: int| 0 <= j < i ==> drivers@[j] != Some(id),
        decreases drivers.len() - i,
    {
        if let Some(d) = drivers[i] {
            if d == id {
                assert(drivers@[i as int] == Some(id));
                return true;
            }
        }
        i += 1;
    }
    false
}

/// A remote gunshot sound: one that was playing when the batch began (its
/// entity), or the one this batch spawned for the event at that index.
#[derive(Clone, Copy, Debug, PartialEq, Eq, Structural)]
pub enum ShotSound {
    Playing(u64),
    Spawned(usize),
}

/// What to do for one remote gunshot event.
#[derive(Clone, Copy, Debug, PartialEq, Eq, Structural)]
pub struct RemoteShotAction {
    /// The sound to despawn first, to stay within the limit.
    pub despawn: Option<ShotSound>,
    /// Play the shot at the shooter's position.
    pub play: bool,
}

/// The actions for the events from index `i` on, and the remote gunshots
/// left playing after them. `live` holds the sounds playing, the one to drop
/// first at the front (those playing when the batch began come first, in the
/// order given: older, then farther; then the batch's own, oldest first).
/// Our own shots are skipped (they already played locally); with no room at
/// all (a limit of 0) a shot is skipped too; at the limit, the front sound
/// makes room for each new one.
pub open spec fn remote_shots_from(shooters: Seq<u64>, our_id: Option<u64>, i: int, live: Seq<ShotSound>, max: nat) -> (Seq<RemoteShotAction>, Seq<ShotSound>)
    decreases shooters.len() - i,
{
    if i < 0 || i >= shooters.len() {
        (Seq::empty(), live)
    } else if our_id == Some(shooters[i]) || max == 0 {
        let rest = remote_shots_from(shooters, our_id, i + 1, live, max);
        (seq![RemoteShotAction { despawn: None, play: false }] + rest.0, rest.1)
    } else {
        let make_room = live.len() >= max;
        let kept = if make_room { live.drop_first() } else { live };
        let rest = remote_shots_from(shooters, our_id, i + 1, kept.push(ShotSound::Spawned(i as usize)), max);
        (seq![RemoteShotAction { despawn: if make_room { Some(live[0]) } else { None }, play: true }] + rest.0, rest.1)
    }
}

/// The sounds playing when a batch begins, in the order given.
pub open spec fn playing_sounds(playing: Seq<u64>) -> Seq<ShotSound> {
    playing.map_values(|e: u64| ShotSound::Playing(e))
}

/// The actions for a batch of remote gunshot events (by shooter id).
pub open spec fn remote_shot_actions(shooters: Seq<u64>, our_id: Option<u64>, playing: Seq<u64>, max: nat) -> Seq<RemoteShotAction> {
    remote_shots_from(shooters, our_id, 0, playing_sounds(playing), max).0
}

/// The remote gunshots left playing after a batch.
pub open spec fn remote_shots_left(shooters: Seq<u64>, our_id: Option<u64>, playing: Seq<u64>, max: nat) -> Seq<ShotSound> {
    remote_shots_from(shooters, our_id, 0, playing_sounds(playing), max).1
}

/// Decides, for each remote gunshot event (by shooter id), which sound to
/// despawn to make room and whether to play it. `playing` lists the remote
/// gunshots playing, the one to drop first at the front (the caller orders
/// them older, then farther, first).
pub fn handle_remote_audio_events(shooters: &Vec<u64>, our_id: Option<u64>, playing: &Vec<u64>, audio_manager: &AudioManager) -> (actions: Vec<RemoteShotAction>)
    ensures
        actions@ == remote_shot_actions(shooters@, our_id, playing@, audio_manager.max_remote_combat as nat),
{
    let max = audio_manager.max_remote_combat;
    let mut queue: Vec<ShotSound> = Vec::new();
    let mut j: usize = 0;
    while j < playing.len()
        invariant
            0 <= j <= playing.len(),
            queue@ == playing_sounds(playing@.take(j as int)),
        decreases playing.len() - j,
    {
        queue.push(ShotSound::Playing(playing[j]));
        proof {
            assert(playing@.take(j + 1) =~= playing@.take(j as int).push(playing@[j as int]));
            assert(queue@ =~= playing_sounds(playing@.take(j + 1)));
        }
        j += 1;
    }
    assert(playing@.take(playing.len() as int) =~= playing@);
    let mut head: usize = 0;
    let mut actions: Vec<RemoteShotAction> = Vec::new();
    let mut i: usize = 0;
    assert(queue@.skip(0) =~= queue@);
    while i < shooters.len()
        invariant
            0 <= i <= shooters.len(),
            head <= queue.len(),
            max == audio_manager.max_remote_combat,
            actions@ + remote_shots_from(shooters@, our_id, i as int, queue@.skip(head as int), max as nat).0
                == remote_shot_actions(shooters@, our_id, playing@, max as nat),
        decreases shooters.len() - i,
    {
        let id = shooters[i];
        let ghost live = queue@.skip(head as int);
        let ghost before = actions@;
        let own = match our_id { Some(o) => o == id, None => false };
        if own || max == 0 {
            actions.push(RemoteShotAction { despawn: None, play: false });
            proof {
                let rest = remote_shots_from(shooters@, our_id, i + 1, live, max as nat);
                assert(actions@ + rest.0 =~= before + (seq![RemoteShotAction { despawn: None, play: false }] + rest.0));
            }
        } else {
            let mut despawn: Option<ShotSound> = None;
            if queue.len() - head >= max {
                despawn = Some(queue[head]);
                head = head + 1;
                assert(queue@.skip(head as int) =~= live.drop_first());
            }
            let ghost kept = queue@.skip(head as int);
            queue.push(ShotSound::Spawned(i));
            assert(queue@.skip(head as int) =~= kept.push(ShotSound::Spawned(i)));
            let a = RemoteShotAction { despawn, play: true };
            actions.push(a);
            proof {
                let rest = remote_shots_from(shooters@, our_id, i + 1, kept.push(ShotSound::Spawned(i)), max as nat);
                assert(actions@ + rest.0 =~= before + (seq![a] + rest.0));
            }
        }
        i += 1;
    }
    assert(actions@ + Seq::<RemoteShotAction>::empty() =~= actions@);
    actions
}

/// The remote gunshot limit holds over a whole batch: when at most `max`
/// remote gunshots were playing, at most `max` are left; one action comes
/// per event, and every shot but our own plays (given any room at all).
pub proof fn lemma_remote_shots_keep_limit(shooters: Seq<u64>, our_id: Option<u64>, i: int, live: Seq<ShotSound>, max: nat)
    requires
        0 <= i <= shooters.len(),
    ensures
        live.len() <= max ==> remote_shots_from(shooters, our_id, i, live, max).1.len() <= max,
        remote_shots_from(shooters, our_id, i, live, max).0.len() == shooters.len() - i,
        forall|k: int| 0 <= k < shooters.len() - i ==> (#[trigger] remote_shots_from(shooters, our_id, i, live, max).0[k]).play
            == (our_id != Some(shooters[i + k]) && max > 0),
    decreases shooters.len() - i,
{
    if i < shooters.len() {
        if our_id == Some(shooters[i]) || max == 0 {
            lemma_remote_shots_keep_limit(shooters, our_id, i + 1, live, max);
            let rest = remote_shots_from(shooters, our_id, i + 1, live, max);
            assert forall|k: int| 0 <= k < shooters.len() - i implies (#[trigger] remote_shots_from(shooters, our_id, i, live, max).0[k]).play
                == (our_id != Some(shooters[i + k]) && max > 0) by {
                if k > 0 {
                    assert(remote_shots_from(shooters, our_id, i, live, max).0[k] == rest.0[k - 1]);
                }
            }
        } else {
            let make_room = live.len() >= max;
            let kept = if make_room { live.drop_first() } else { live };
            let next = kept.push(ShotSound::Spawned(i as usize));
            lemma_remote_shots_keep_limit(shooters, our_id, i + 1, next, max);
            let rest = remote_shots_from(shooters, our_id, i + 1, next, max);
            assert forall|k: int| 0 <= k < shooters.len() - i implies (#[trigger] remote_shots_from(shooters, our_id, i, live, max).0[k]).play
                == (our_id != Some(shooters[i + k]) && max > 0) by {
                if k > 0 {
                    assert(remote_shots_from(shooters, our_id, i, live, max).0[k] == rest.0[k - 1]);
                }
            }
        }
    }
}

/// A remote vehicle that might get engine emitters.
#[derive(Clone, Copy, Debug, PartialEq, Eq, Structural)]
pub struct RemoteVehicle {
    pub entity: u64,
    pub driver_id: Option<u64>,
    /// Within the spawn distance of the listener.
    pub in_range: bool,
    pub has_idle_emitter: bool,
    pub has_cruise_emitter: bool,
}

/// Emitters to spawn for one vehicle.
#[derive(Clone, Copy, Debug, PartialEq, Eq, Structural)]
pub struct EngineEmitterSpawn {
    pub vehicle: u64,
    pub idle: bool,
    pub cruise: bool,
}

/// Whether a vehicle gets emitter spawns: not the one we drive, within range,
/// and missing at least one emitter.
pub open spec fn engine_needs_emitters(v: RemoteVehicle, our_id: Option<u64>) -> bool {
    &&& !(our_id is Some && v.driver_id is Some && v.driver_id == our_id)
    &&& v.in_range
    &&& (!v.has_idle_emitter || !v.has_cruise_emitter)
}

/// Chooses the idle/cruise engine emitters to spawn for nearby remote vehicles.
pub fn ensure_remote_vehicle_audio_emitters(vehicles: &Vec<RemoteVehicle>, our_id: Option<u64>) -> (spawns: Vec<EngineEmitterSpawn>)
    ensures
        spawns@ == vehicles@.filter(|v: RemoteVehicle| engine_needs_emitters(v, our_id)).map_values(
            |v: RemoteVehicle| EngineEmitterSpawn { vehicle: v.entity, idle: !v.has_idle_emitter, cruise: !v.has_cruise_emitter },
        ),
{
    let ghost pred = |v: RemoteVehicle| engine_needs_emitters(v, our_id);
    let ghost f = |v: RemoteVehicle| EngineEmitterSpawn { vehicle: v.entity, idle: !v.has_idle_emitter, cruise: !v.has_cruise_emitter };
    let mut spawns: Vec<EngineEmitterSpawn> = Vec::new();
    let mut i: usize = 0;
    while i < vehicles.len()
        invariant
            0 <= i <= vehicles.len(),
            pred == (|v: RemoteVehicle| engine_needs_emitters(v, our_id)),
            f == (|v: RemoteVehicle| EngineEmitterSpawn { vehicle: v.entity, idle: !v.has_idle_emitter, cruise: !v.has_cruise_emitter }),
            spawns@ == vehicles@.take(i as int).filter(pred).map_values(f),
        decreases vehicles.len() - i,
    {
        let v = vehicles[i];
        proof {
            assert(vehicles@.take(i + 1) =~= vehicles@.take(i as int).push(v));
            vehicles@.take(i as int).lemma_filter_push(v, pred);
        }
        let ours = match (our_id, v.driver_id) {
            (Some(o), Some(d)) => o == d,
            _ => false,
        };
        if !ours && v.in_range && (!v.has_idle_emitter || !v.has_cruise_emitter) {
            assert(pred(v));
            spawns.push(EngineEmitterSpawn { vehicle: v.entity, idle: !v.has_idle_emitter, cruise: !v.has_cruise_emitter });
            proof {
                let g = vehicles@.take(i as int).filter(pred);
                assert(g.push(v).map_values(f) =~= g.map_values(f).push(f(v)));
            }
        } else {
            assert(!pred(v));
        }
        i += 1;
    }
    assert(vehicles@.take(vehicles.len() as int) =~= vehicles@);
    spawns
}


/// A remote vehicle's engine emitter as the update sees it.
#[derive(Clone, Copy, Debug, PartialEq, Eq, Structural)]
pub struct EngineEmitterView {
    pub emitter: u64,
    /// The emitter's vehicle still exists.
    pub vehicle_found: bool,
    /// Who drives that vehicle.
    pub driver_id: Option<u64>,
    /// The vehicle is farther than 220 m from the listener.
    pub beyond_range: bool,
}

/// Whether an engine emitter goes away: its vehicle is gone, we now drive
/// it, or it is out of earshot.
pub open spec fn engine_emitter_dropped(e: EngineEmitterView, our_id: Option<u64>) -> bool {
    ||| !e.vehicle_found
    ||| (our_id is Some && e.driver_id == our_id)
    ||| e.beyond_range
}

/// Whether an engine emitter goes away.
pub open spec fn dropped_by(our_id: Option<u64>) -> spec_fn(EngineEmitterView) -> bool {
    |e: EngineEmitterView| engine_emitter_dropped(e, our_id)
}

/// The entity of an engine emitter.
pub open spec fn emitter_entity() -> spec_fn(EngineEmitterView) -> u64 {
    |e: EngineEmitterView| e.emitter
}

/// The remote engine emitters (idle or cruise loops) to despawn this frame;
/// the others follow their vehicle, with volume and pitch from its speed.
pub fn update_remote_vehicle_audio_emitters(emitters: &Vec<EngineEmitterView>, our_id: Option<u64>) -> (despawn: Vec<u64>)
    ensures
        despawn@ == emitters@.filter(dropped_by(our_id)).map_values(emitter_entity()),
{
    let ghost pred = dropped_by(our_id);
    let ghost f = emitter_entity();
    let mut despawn: Vec<u64> = Vec::new();
    let mut i: usize = 0;
    while i < emitters.len()
        invariant
            0 <= i <= emitters.len(),
            pred == dropped_by(our_id),
            f == emitter_entity(),
            despawn@ == emitters@.take(i as int).filter(pred).map_values(f),
        decreases emitters.len() - i,
    {
        let e = emitters[i];
        proof {
            emitters@.take(i as int).lemma_filter_push(e, pred);
            assert(emitters@.take(i + 1) =~= emitters@.take(i as int).push(e));
        }
        let ours_driving = match (our_id, e.driver_id) {
            (Some(o), Some(d)) => o == d,
            _ => false,
        };
        if !e.vehicle_found || ours_driving || e.beyond_range {
            despawn.push(e.emitter);
            proof {
                let g = emitters@.take(i as int).filter(pred);
                assert(g.push(e).map_values(f) =~= g.map_values(f).push(e.emitter));
            }
        }
        i += 1;
    }
    assert(emitters@.take(emitters.len() as int) =~= emitters@);
    despawn
}

/// After its action a looping sink plays exactly when it should: a paused
/// sink that should play is played, a playing one that should not is
/// paused, and otherwise it is left alone.
pub proof fn lemma_sink_ends_as_it_should(should_play: bool, paused: bool)
    ensures
        ({
            let a = sink_action_spec(should_play, paused);
            let playing_after = match a { SinkAction::Play => true, SinkAction::Pause => false, SinkAction::Keep => !paused };
            &&& playing_after == should_play
            &&& (a == SinkAction::Play) == (should_play && paused)
            &&& (a == SinkAction::Pause) == (!should_play && !paused)
        }),
{
}

/// A candidate gets a footstep emitter only when it is in range, has none
/// yet, and is not driving; an NPC in range without an emitter qualifies.
pub proof fn lemma_footstep_eligibility(c: FootstepCandidate, drivers: Seq<Option<u64>>, existing: Seq<u64>, k: int)
    ensures
        !c.in_range ==> !footstep_eligible(c, drivers, existing),
        existing.contains(c.entity) ==> !footstep_eligible(c, drivers, existing),
        (c.player_id matches Some(id) && 0 <= k < drivers.len() && drivers[k] == Some(id)) ==> !footstep_eligible(c, drivers, existing),
        c.player_id is None && c.in_range && !existing.contains(c.entity) ==> footstep_eligible(c, drivers, existing),
{
}

/// The emitter budget is what the limit leaves: none at or over the limit.
pub proof fn lemma_footstep_budget(existing: nat, max: nat)
    ensures
        existing >= max ==> footstep_budget(existing, max) == 0,
        existing < max ==> footstep_budget(existing, max) + existing == max,
{
}

/// The vehicle we drive never gets engine emitters, nor one out of range;
/// any other vehicle in range gets the emitters it lacks.
pub proof fn lemma_engine_emitters_for_others(v: RemoteVehicle, our_id: Option<u64>)
    ensures
        our_id is Some && v.driver_id == our_id ==> !engine_needs_emitters(v, our_id),
        !v.in_range ==> !engine_needs_emitters(v, our_id),
        v.in_range && v.driver_id != our_id && (!v.has_idle_emitter || !v.has_cruise_emitter) ==> engine_needs_emitters(v, our_id),
        v.has_idle_emitter && v.has_cruise_emitter ==> !engine_needs_emitters(v, our_id),
{
}

/// An engine emitter goes away when its vehicle is gone, when we drive that
/// vehicle, or when it is out of earshot; otherwise it stays.
pub proof fn lemma_engine_emitter_drops(e: EngineEmitterView, our_id: Option<u64>)
    ensures
        !e.vehicle_found ==> engine_emitter_dropped(e, our_id),
        our_id is Some && e.driver_id == our_id ==> engine_emitter_dropped(e, our_id),
        e.beyond_range ==> engine_emitter_dropped(e, our_id),
        e.vehicle_found && !e.beyond_range && e.driver_id != our_id ==> !engine_emitter_dropped(e, our_id),
{
}

} // verus!
