//! Firing, reloading and weapon sounds: when a shot or a reload request goes
//! out, and what the burst counter and sound cues record. The recoil angles
//! and clocks stay with the caller, which hands in what it compared.

use vstd::prelude::*;
use crate::input::InputFlags;
use crate::items::WeaponType;
use crate::text::chars_of;

verus! {

broadcast use vstd::seq_lib::group_seq_properties;

/// The shooting state that decides shots and sounds.
#[derive(Clone, Copy, Debug, PartialEq, Eq, Structural)]
pub struct ShootingState {
    pub fire_held: bool,
    /// A shot went out this frame (for the sound).
    pub shot_fired_this_frame: bool,
    /// The trigger was pulled on an empty magazine this frame.
    pub out_of_ammo_this_frame: bool,
    /// The weapon of this frame's shot.
    pub weapon_fired: Option<WeaponType>,
    /// Shots in the current burst (recoil grows with it).
    pub shots_in_burst: u32,
}

impl ShootingState {
    /// Nothing held, fired or counted.
    pub fn default() -> (s: ShootingState)
        ensures
            !s.fire_held && !s.shot_fired_this_frame && !s.out_of_ammo_this_frame,
            s.weapon_fired is None,
            s.shots_in_burst == 0,
    {
        ShootingState {
            fire_held: false,
            shot_fired_this_frame: false,
            out_of_ammo_this_frame: false,
            weapon_fired: None,
            shots_in_burst: 0,
        }
    }
}

/// What the caller observed this frame for the shooting decision.
#[derive(Clone, Copy, Debug, PartialEq, Eq, Structural)]
pub struct ShotInput {
    /// The game is in the `Playing` state.
    pub playing: bool,
    /// The local player and the camera exist.
    pub player_ready: bool,
    pub fire_pressed: bool,
    pub weapon: WeaponType,
    pub ammo_in_mag: u32,
    /// The weapon's fire cooldown has passed since the last shot.
    pub cooldown_passed: bool,
    /// More than 0.3 s passed since the last empty-magazine click.
    pub click_interval_passed: bool,
}

/// What the caller does after the decision.
#[derive(Clone, Copy, Debug, PartialEq, Eq, Structural)]
pub struct ShotDecision {
    /// Send a shot, apply recoil and restart the cooldown.
    pub fire: bool,
    /// Play the empty click and restart its interval.
    pub out_of_ammo_click: bool,
}

/// Whether the player may shoot at all: playing, alive, inventory closed,
/// on foot, with a player and a camera.
pub open spec fn may_shoot(flags: InputFlags, input: ShotInput) -> bool {
    input.playing && !flags.is_dead && !flags.inventory_open && !flags.in_vehicle && input.player_ready
}

/// Whether a shot goes out.
pub open spec fn shot_fires(flags: InputFlags, input: ShotInput) -> bool {
    may_shoot(flags, input) && input.fire_pressed && input.ammo_in_mag > 0 && input.cooldown_passed
}

/// Whether the empty click plays.
pub open spec fn empty_click(flags: InputFlags, input: ShotInput) -> bool {
    may_shoot(flags, input) && input.fire_pressed && input.ammo_in_mag == 0 && input.cooldown_passed && input.click_interval_passed
}

/// The shooting state after the frame.
pub open spec fn shoot_state_spec(s: ShootingState, flags: InputFlags, input: ShotInput) -> ShootingState {
    let cleared = ShootingState { shot_fired_this_frame: false, out_of_ammo_this_frame: false, weapon_fired: None, ..s };
    if !may_shoot(flags, input) {
        cleared
    } else {
        ShootingState {
            fire_held: input.fire_pressed,
            shot_fired_this_frame: shot_fires(flags, input),
            out_of_ammo_this_frame: empty_click(flags, input),
            weapon_fired: if shot_fires(flags, input) { Some(input.weapon) } else { None },
            shots_in_burst: if shot_fires(flags, input) { (s.shots_in_burst + 1) as u32 } else { s.shots_in_burst },
        }
    }
}

/// Decides this frame's shooting: the frame flags are cleared, then, when the
/// player may shoot, a held trigger fires if the magazine holds ammo and the
/// cooldown passed (counting the shot in the burst), or clicks empty at most
/// every 0.3 s.
pub fn handle_shoot_input(state: &mut ShootingState, flags: &InputFlags, input: &ShotInput) -> (d: ShotDecision)
    requires
        shot_fires(*flags, *input) ==> old(state).shots_in_burst < u32::MAX,
    ensures
        *final(state) == shoot_state_spec(*old(state), *flags, *input),
        d.fire == shot_fires(*flags, *input),
        d.out_of_ammo_click == empty_click(*flags, *input),
{
    state.shot_fired_this_frame = false;
    state.out_of_ammo_this_frame = false;
    state.weapon_fired = None;
    if !input.playing || flags.is_dead || flags.inventory_open || flags.in_vehicle || !input.player_ready {
        return ShotDecision { fire: false, out_of_ammo_click: false };
    }
    let has_ammo = input.ammo_in_mag > 0;
    let mut click = false;
    if input.fire_pressed && !has_ammo && input.cooldown_passed && input.click_interval_passed {
        state.out_of_ammo_this_frame = true;
        click = true;
    }
    let fire = input.fire_pressed && has_ammo && input.cooldown_passed;
    if fire {
        state.shots_in_burst = state.shots_in_burst + 1;
        state.shot_fired_this_frame = true;
        state.weapon_fired = Some(input.weapon);
    }
    state.fire_held = input.fire_pressed;
    ShotDecision { fire, out_of_ammo_click: click }
}

/// A shot goes out exactly when the player may shoot (playing, alive, with
/// the inventory closed, on foot, with a player and a camera) and holds the
/// fire button with ammo in the magazine and the cooldown passed; a shot
/// counts one more in the burst and records the weapon. Without the fire
/// button pressed nothing fires, nothing clicks and the burst is unchanged.
pub proof fn lemma_shot_needs_the_trigger(s: ShootingState, flags: InputFlags, input: ShotInput)
    requires
        s.shots_in_burst < u32::MAX,
    ensures
        shot_fires(flags, input) == (input.playing && !flags.is_dead && !flags.inventory_open && !flags.in_vehicle
            && input.player_ready && input.fire_pressed && input.ammo_in_mag > 0 && input.cooldown_passed),
        !input.fire_pressed ==> {
            &&& !shot_fires(flags, input)
            &&& !empty_click(flags, input)
            &&& shoot_state_spec(s, flags, input).shots_in_burst == s.shots_in_burst
            &&& !shoot_state_spec(s, flags, input).shot_fired_this_frame
            &&& shoot_state_spec(s, flags, input).weapon_fired is None
        },
        shot_fires(flags, input) ==> {
            &&& shoot_state_spec(s, flags, input).shots_in_burst == s.shots_in_burst + 1
            &&& shoot_state_spec(s, flags, input).shot_fired_this_frame
            &&& shoot_state_spec(s, flags, input).weapon_fired == Some(input.weapon)
        },
        !shot_fires(flags, input) ==> shoot_state_spec(s, flags, input).shots_in_burst == s.shots_in_burst,
{
}

/// Ends the burst once no shot went out for a while (`burst_timed_out`); the
/// recoil's return toward the aim is the caller's.
pub fn recover_recoil(state: &mut ShootingState, burst_timed_out: bool)
    ensures
        *final(state) == (if burst_timed_out { ShootingState { shots_in_burst: 0, ..*old(state) } } else { *old(state) }),
{
    if burst_timed_out {
        state.shots_in_burst = 0;
    }
}

/// Whether R asks the server to reload: alive, on foot, a player present,
/// the magazine not full and reserve ammo in the inventory.
pub open spec fn reload_spec(flags: InputFlags, r_just_pressed: bool, player_ready: bool, ammo_in_mag: u32, magazine_size: u32, reserve: u32) -> bool {
    !flags.is_dead && !flags.in_vehicle && r_just_pressed && player_ready && ammo_in_mag < magazine_size && reserve > 0
}

/// Handles the reload key. Returns whether a reload was requested this frame
/// (the caller sends the request and plays the reload sound).
pub fn handle_reload_input(flags: &InputFlags, r_just_pressed: bool, player_ready: bool, ammo_in_mag: u32, magazine_size: u32, reserve: u32) -> (requested: bool)
    ensures
        requested == reload_spec(*flags, r_just_pressed, player_ready, ammo_in_mag, magazine_size, reserve),
{
    if flags.is_dead {
        return false;
    }
    if flags.in_vehicle {
        return false;
    }
    if r_just_pressed && player_ready {
        if ammo_in_mag < magazine_size && reserve > 0 {
            return true;
        }
    }
    false
}

/// A weapon sound to play.
#[derive(Clone, Copy, Debug, PartialEq, Eq, Structural)]
pub enum WeaponSound {
    GunShot,
    ShotgunShot,
    OutOfAmmo,
    Reload,
}

/// The sounds of a frame, in order: the shot (the shotgun's own for a
/// shotgun), the empty click, the reload.
pub open spec fn weapon_sounds_spec(s: ShootingState, reload_requested: bool) -> Seq<WeaponSound> {
    let shot: Seq<WeaponSound> = if s.shot_fired_this_frame {
        seq![if s.weapon_fired == Some(WeaponType::Shotgun) { WeaponSound::ShotgunShot } else { WeaponSound::GunShot }]
    } else {
        Seq::empty()
    };
    let click: Seq<WeaponSound> = if s.out_of_ammo_this_frame { seq![WeaponSound::OutOfAmmo] } else { Seq::empty() };
    let reload: Seq<WeaponSound> = if reload_requested { seq![WeaponSound::Reload] } else { Seq::empty() };
    shot + click + reload
}

/// The weapon sounds to play this frame; none until the sounds are loaded.
pub fn play_weapon_sounds(audio_loaded: bool, state: &ShootingState, reload_requested: bool) -> (sounds: Vec<WeaponSound>)
    ensures
        !audio_loaded ==> sounds@.len() == 0,
        audio_loaded ==> sounds@ == weapon_sounds_spec(*state, reload_requested),
{
    let mut sounds: Vec<WeaponSound> = Vec::new();
    if !audio_loaded {
        return sounds;
    }
    if state.shot_fired_this_frame {
        let shotgun = match state.weapon_fired {
            Some(w) => w == WeaponType::Shotgun,
            None => false,
        };
        if shotgun {
            sounds.push(WeaponSound::ShotgunShot);
        } else {
            sounds.push(WeaponSound::GunShot);
        }
    }
    if state.out_of_ammo_this_frame {
        sounds.push(WeaponSound::OutOfAmmo);
    }
    if reload_requested {
        sounds.push(WeaponSound::Reload);
    }
    assert(sounds@ =~= weapon_sounds_spec(*state, reload_requested));
    sounds
}

/// The debug view after a frame: F3 switches it.
pub open spec fn debug_after(debug_mode: bool, f3_just_pressed: bool) -> bool {
    if f3_just_pressed { !debug_mode } else { debug_mode }
}

/// F3 switches the weapon debug view.
pub fn toggle_debug_mode(f3_just_pressed: bool, debug_mode: &mut bool)
    ensures
        *final(debug_mode) == debug_after(*old(debug_mode), f3_just_pressed),
{
    if f3_just_pressed {
        *debug_mode = !*debug_mode;
    }
}

/// The span name of a render pass's CPU-time diagnostic: for a path
/// `render/…/elapsed_cpu`, the part between; `None` for other paths. A path
/// too short to hold both ends apart (`render/elapsed_cpu`) names itself.
pub open spec fn render_pass_name_spec(path: Seq<char>) -> Option<Seq<char>> {
    let prefix = "render/"@;
    let suffix = "/elapsed_cpu"@;
    if !(prefix.is_prefix_of(path) && suffix.is_suffix_of(path)) {
        None
    } else {
        let rest = path.skip(prefix.len() as int);
        if suffix.is_suffix_of(rest) {
            Some(rest.take(rest.len() - suffix.len()))
        } else {
            Some(path)
        }
    }
}

fn starts_with_chars(s: &Vec<char>, p: &Vec<char>) -> (r: bool)
    ensures
        r == p@.is_prefix_of(s@),
{
    if p.len() > s.len() {
        return false;
    }
    let mut i: usize = 0;
    while i < p.len()
        invariant
            p.len() <= s.len(),
            0 <= i <= p.len(),
            forall|k: int| 0 <= k < i ==> p@[k] == s@[k],
        decreases p.len() - i,
    {
        if p[i] != s[i] {
            return false;
        }
        i += 1;
    }
    assert(p@ =~= s@.take(p.len() as int));
    true
}

fn ends_with_chars(s: &Vec<char>, p: &Vec<char>, from: usize) -> (r: bool)
    requires
        from <= s.len(),
    ensures
        r == p@.is_suffix_of(s@.skip(from as int)),
{
    let n = s.len() - from;
    if p.len() > n {
        return false;
    }
    let off = s.len() - p.len();
    let mut i: usize = 0;
    while i < p.len()
        invariant
            p.len() <= n,
            n == s.len() - from,
            off == s.len() - p.len(),
            0 <= i <= p.len(),
            forall|k: int| 0 <= k < i ==> p@[k] == s@[off + k],
        decreases p.len() - i,
    {
        if p[i] != s[off + i] {
            assert(s@.skip(from as int)[(n - p.len()) + i] == s@[off + i]);
            return false;
        }
        i += 1;
    }
    assert(p@ =~= s@.skip(from as int).skip(n - p.len()));
    true
}

/// The span name of a render pass's CPU-time diagnostic path, if it is one.
pub fn render_pass_name(path: &str) -> (r: Option<String>)
    ensures
        match render_pass_name_spec(path@) {
            None => r is None,
            Some(n) => r matches Some(s) && s@ == n,
        },
{
    proof {
        reveal_strlit("render/");
        reveal_strlit("/elapsed_cpu");
    }
    let s = chars_of(path);
    let prefix = chars_of("render/");
    let suffix = chars_of("/elapsed_cpu");
    if !(starts_with_chars(&s, &prefix) && ends_with_chars(&s, &suffix, 0)) {
        assert(s@.skip(0) =~= s@);
        return None;
    }
    assert(s@.skip(0) =~= s@);
    let plen = prefix.len();
    let mut out = String::new();
    if ends_with_chars(&s, &suffix, plen) {
        let end = s.len() - suffix.len();
        let mut k: usize = plen;
        while k < end
            invariant
                plen <= k <= end,
                end == s.len() - suffix.len(),
                out@ == s@.subrange(plen as int, k as int),
            decreases end - k,
        {
            crate::text::string_push(&mut out, s[k]);
            proof {
                assert(s@.subrange(plen as int, k + 1) =~= s@.subrange(plen as int, k as int).push(s@[k as int]));
            }
            k += 1;
        }
        assert(out@ =~= s@.skip(plen as int).take(s@.skip(plen as int).len() - suffix@.len()));
    } else {
        out = String::from_str(path);
    }
    Some(out)
}


/// What a bullet hit, as the server reports it.
#[derive(Clone, Copy, Debug, PartialEq, Eq, Structural)]
pub enum BulletImpactSurface {
    Terrain,
    PracticeWall,
    Player,
    Npc,
}

/// The feedback an impact gets.
#[derive(Clone, Copy, Debug, PartialEq, Eq, Structural)]
pub enum ImpactEffect {
    /// A scorch disk: orange on terrain, red on the practice wall.
    Marker { on_wall: bool },
    /// A blood splatter on a character.
    Blood,
}

/// The feedback for an impact on `surface`: a marker on terrain and walls,
/// blood on players and NPCs. With the debug view on, the caller also
/// records the bullet's path.
pub fn impact_effect(surface: BulletImpactSurface) -> (e: ImpactEffect)
    ensures
        e == (match surface {
            BulletImpactSurface::Terrain => ImpactEffect::Marker { on_wall: false },
            BulletImpactSurface::PracticeWall => ImpactEffect::Marker { on_wall: true },
            _ => ImpactEffect::Blood,
        }),
{
    match surface {
        BulletImpactSurface::Terrain => ImpactEffect::Marker { on_wall: false },
        BulletImpactSurface::PracticeWall => ImpactEffect::Marker { on_wall: true },
        BulletImpactSurface::Player | BulletImpactSurface::Npc => ImpactEffect::Blood,
    }
}


/// R asks for a reload exactly when the player is alive, on foot, present,
/// the magazine is not full and the inventory holds reserve ammo.
pub proof fn lemma_reload_needs_room_and_reserve(flags: InputFlags, r_just_pressed: bool, player_ready: bool, ammo_in_mag: u32, magazine_size: u32, reserve: u32)
    ensures
        reload_spec(flags, r_just_pressed, player_ready, ammo_in_mag, magazine_size, reserve)
            == (!flags.is_dead && !flags.in_vehicle && r_just_pressed && player_ready && ammo_in_mag < magazine_size && reserve > 0),
{
}

/// The empty click plays exactly when the player may shoot, pulls the
/// trigger on an empty magazine after the cooldown, and the last click was
/// more than 0.3 s ago; it never plays with ammo in the magazine.
pub proof fn lemma_empty_click_needs_an_empty_magazine(flags: InputFlags, input: ShotInput)
    ensures
        empty_click(flags, input) == (input.playing && !flags.is_dead && !flags.inventory_open && !flags.in_vehicle
            && input.player_ready && input.fire_pressed && input.ammo_in_mag == 0 && input.cooldown_passed
            && input.click_interval_passed),
        input.ammo_in_mag > 0 ==> !empty_click(flags, input),
{
}

/// The frame's sounds: a shotgun shot sounds as a shotgun, any other shot as
/// the gun; the shot comes first, the reload last; each cue plays once.
pub proof fn lemma_weapon_sounds(s: ShootingState, reload_requested: bool)
    ensures
        ({
            let v = weapon_sounds_spec(s, reload_requested);
            &&& v.len() == (if s.shot_fired_this_frame { 1int } else { 0int }) + (if s.out_of_ammo_this_frame { 1int } else { 0int })
                + (if reload_requested { 1int } else { 0int })
            &&& s.shot_fired_this_frame && s.weapon_fired == Some(WeaponType::Shotgun) ==> v[0] == WeaponSound::ShotgunShot
            &&& s.shot_fired_this_frame && s.weapon_fired != Some(WeaponType::Shotgun) ==> v[0] == WeaponSound::GunShot
            &&& reload_requested ==> v.last() == WeaponSound::Reload
            &&& !s.shot_fired_this_frame && s.out_of_ammo_this_frame ==> v[0] == WeaponSound::OutOfAmmo
            &&& s.shot_fired_this_frame && s.out_of_ammo_this_frame ==> v[1] == WeaponSound::OutOfAmmo
        }),
{
}

/// F3 switches the debug view; without it the view stays.
pub proof fn lemma_f3_switches_debug(debug_mode: bool, f3_just_pressed: bool)
    ensures
        f3_just_pressed ==> debug_after(debug_mode, f3_just_pressed) != debug_mode,
        !f3_just_pressed ==> debug_after(debug_mode, f3_just_pressed) == debug_mode,
{
}

/// No shot goes out and no empty click plays while the game is not running,
/// the player is dead, the inventory is open or the player drives; a shot
/// always needs ammo and a passed cooldown, and counts once in the burst.
pub proof fn lemma_shots_need_a_free_hand(s: ShootingState, flags: InputFlags, input: ShotInput)
    ensures
        (!input.playing || flags.is_dead || flags.inventory_open || flags.in_vehicle) ==> {
            &&& !shot_fires(flags, input)
            &&& !empty_click(flags, input)
            &&& shoot_state_spec(s, flags, input).shots_in_burst == s.shots_in_burst
            &&& shoot_state_spec(s, flags, input).fire_held == s.fire_held
        },
        shot_fires(flags, input) ==> input.ammo_in_mag > 0 && input.cooldown_passed,
        shot_fires(flags, input) && s.shots_in_burst < u32::MAX ==> shoot_state_spec(s, flags, input).shots_in_burst == s.shots_in_burst + 1,
        !(shot_fires(flags, input) && empty_click(flags, input)),
{
}

/// Pressing F3 twice leaves the debug view as it was.
pub proof fn lemma_debug_toggle_twice(d: bool)
    ensures
        debug_after(debug_after(d, true), true) == d,
        debug_after(d, false) == d,
{
}

} // verus!
