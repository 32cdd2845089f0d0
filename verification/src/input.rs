//! Player input: movement keys, camera mode, vehicle detection and the
//! input message sent to the server each tick.

use vstd::prelude::*;

verus! {

/// Camera view mode (toggled with P).
#[derive(Clone, Copy, Debug, PartialEq, Eq, Structural)]
pub enum CameraMode {
    FirstPerson,
    ThirdPerson,
}

/// How the window should hold the mouse cursor.
#[derive(Clone, Copy, Debug, PartialEq, Eq, Structural)]
pub enum CursorGrab {
    /// Locked to the window and hidden (mouse look).
    Locked,
    /// Free and visible (menus).
    Free,
}

/// The boolean part of the client's input state (the look angles stay with the caller).
#[derive(Clone, Copy, Debug, PartialEq, Eq, Structural)]
pub struct InputFlags {
    pub forward: bool,
    pub backward: bool,
    pub left: bool,
    pub right: bool,
    pub jump: bool,
    pub interact: bool,
    pub interact_just_pressed: bool,
    /// Shift: sprint on foot, air tricks in a vehicle.
    pub shift: bool,
    pub camera_mode: CameraMode,
    /// We are driving a vehicle.
    pub in_vehicle: bool,
    /// Aiming down sights (right mouse button).
    pub aiming: bool,
    pub inventory_open: bool,
    pub build_mode_active: bool,
    pub is_dead: bool,
}

impl InputFlags {
    /// Nothing pressed, first-person camera, on foot.
    pub fn new() -> (r: InputFlags)
        ensures
            !r.forward && !r.backward && !r.left && !r.right && !r.jump,
            !r.interact && !r.interact_just_pressed && !r.shift,
            r.camera_mode == CameraMode::FirstPerson,
            !r.in_vehicle && !r.aiming,
            !r.inventory_open && !r.build_mode_active && !r.is_dead,
    {
        InputFlags {
            forward: false,
            backward: false,
            left: false,
            right: false,
            jump: false,
            interact: false,
            interact_just_pressed: false,
            shift: false,
            camera_mode: CameraMode::FirstPerson,
            in_vehicle: false,
            aiming: false,
            inventory_open: false,
            build_mode_active: false,
            is_dead: false,
        }
    }
}

/// The keys that movement input reads in one frame.
#[derive(Clone, Copy, Debug, PartialEq, Eq, Structural)]
pub struct MovementKeys {
    pub w_pressed: bool,
    pub s_pressed: bool,
    pub a_pressed: bool,
    pub d_pressed: bool,
    pub space_pressed: bool,
    pub shift_left_pressed: bool,
    pub shift_right_pressed: bool,
    pub e_just_pressed: bool,
    pub p_just_pressed: bool,
}

/// The other camera mode.
pub open spec fn toggled_camera(m: CameraMode) -> CameraMode {
    match m {
        CameraMode::FirstPerson => CameraMode::ThirdPerson,
        CameraMode::ThirdPerson => CameraMode::FirstPerson,
    }
}

/// Reads movement keys into the input flags; P toggles the camera mode.
pub fn handle_keyboard_input(flags: &mut InputFlags, keys: &MovementKeys)
    ensures
        final(flags).forward == keys.w_pressed,
        final(flags).backward == keys.s_pressed,
        final(flags).left == keys.a_pressed,
        final(flags).right == keys.d_pressed,
        final(flags).jump == keys.space_pressed,
        final(flags).shift == (keys.shift_left_pressed || keys.shift_right_pressed),
        final(flags).interact_just_pressed == keys.e_just_pressed,
        final(flags).interact == keys.e_just_pressed,
        final(flags).camera_mode == (if keys.p_just_pressed {
            toggled_camera(old(flags).camera_mode)
        } else {
            old(flags).camera_mode
        }),
        final(flags).in_vehicle == old(flags).in_vehicle,
        final(flags).aiming == old(flags).aiming,
        final(flags).inventory_open == old(flags).inventory_open,
        final(flags).build_mode_active == old(flags).build_mode_active,
        final(flags).is_dead == old(flags).is_dead,
{
    let camera_mode = if keys.p_just_pressed {
        match flags.camera_mode {
            CameraMode::FirstPerson => CameraMode::ThirdPerson,
            CameraMode::ThirdPerson => CameraMode::FirstPerson,
        }
    } else {
        flags.camera_mode
    };
    *flags = InputFlags {
        forward: keys.w_pressed,
        backward: keys.s_pressed,
        left: keys.a_pressed,
        right: keys.d_pressed,
        jump: keys.space_pressed,
        shift: keys.shift_left_pressed || keys.shift_right_pressed,
        interact_just_pressed: keys.e_just_pressed,
        interact: keys.e_just_pressed,
        camera_mode,
        ..*flags
    };
}

/// Pressing P twice brings the camera back to the mode it started in.
pub proof fn lemma_camera_toggle_twice(m: CameraMode)
    ensures
        toggled_camera(toggled_camera(m)) == m,
        toggled_camera(m) != m,
{
}

/// Whether the player aims down sights after a frame: a right click toggles
/// aiming; driving ends it.
pub open spec fn aiming_after(aiming: bool, in_vehicle: bool, right_just_pressed: bool) -> bool {
    if in_vehicle { false } else if right_just_pressed { !aiming } else { aiming }
}

/// The right mouse button toggles aiming down sights, which is off while
/// driving (the mouse look itself is the caller's).
pub fn handle_mouse_input(flags: &mut InputFlags, right_just_pressed: bool)
    ensures
        final(flags).aiming == aiming_after(old(flags).aiming, old(flags).in_vehicle, right_just_pressed),
        *final(flags) == (InputFlags { aiming: final(flags).aiming, ..*old(flags) }),
{
    if flags.in_vehicle {
        flags.aiming = false;
    } else if right_just_pressed {
        flags.aiming = !flags.aiming;
    }
}

/// Two right clicks on foot leave aiming as it was.
pub proof fn lemma_aim_toggle_twice(aiming: bool)
    ensures
        aiming_after(aiming_after(aiming, false, true), false, true) == aiming,
{
}

/// A network peer, as the networking layer identifies it.
#[derive(Clone, Copy, Debug, PartialEq, Eq, Structural)]
pub enum PeerId {
    Netcode(u64),
    Steam(u64),
    Local(u64),
    Entity(u64),
    /// A raw socket address peer, carried as the hash of its address.
    Raw(u64),
    Server,
}

/// The driver id that vehicle drivers are recorded under, as input handling reads it.
pub open spec fn input_driver_id(p: PeerId) -> u64 {
    match p {
        PeerId::Netcode(id) => id,
        PeerId::Steam(id) => id,
        PeerId::Local(id) => id,
        _ => 0,
    }
}

/// Converts a peer id to the u64 used for driver tracking; entity, raw and
/// server peers map to 0.
pub fn peer_id_to_u64(peer_id: PeerId) -> (r: u64)
    ensures
        r == input_driver_id(peer_id),
{
    match peer_id {
        PeerId::Netcode(id) => id,
        PeerId::Steam(id) => id,
        PeerId::Local(id) => id,
        _ => 0,
    }
}

/// Some vehicle in `drivers` is driven by `id`.
pub open spec fn drives_some(drivers: Seq<Option<u64>>, id: u64) -> bool {
    exists|i: int| 0 <= i < drivers.len() && drivers[i] == Some(id)
}

/// Whether any of the vehicles' drivers is us.
pub fn is_driving(drivers: &Vec<Option<u64>>, our_peer_id: PeerId) -> (r: bool)
    ensures
        r == drives_some(drivers@, input_driver_id(our_peer_id)),
{
    let id = peer_id_to_u64(our_peer_id);
    let mut i: usize = 0;
    while i < drivers.len()
        invariant
            0 <= i <= drivers.len(),
            id == input_driver_id(our_peer_id),
            forall|j: int| 0 <= j < i ==> drivers@[j] != Some(id),
        decreases drivers.len() - i,
    {
        if let Some(d) = drivers[i] {
            if d == id {
                assert(drivers@[i as int] == Some(id));
                return true;
            }
        }
        i += 1;
    }
    false
}

/// Records whether we are driving. Returns true when we just got out of a
/// vehicle, so the caller resets the vehicle look offsets. With no connected
/// client nothing changes.
pub fn update_vehicle_state(flags: &mut InputFlags, drivers: &Vec<Option<u64>>, our_peer_id: Option<PeerId>) -> (reset_look: bool)
    ensures
        match our_peer_id {
            None => *final(flags) == *old(flags) && !reset_look,
            Some(p) => {
                let driving = drives_some(drivers@, input_driver_id(p));
                &&& *final(flags) == (InputFlags { in_vehicle: driving, ..*old(flags) })
                &&& reset_look == (old(flags).in_vehicle && !driving)
            },
        },
{
    let p = match our_peer_id {
        Some(p) => p,
        None => return false,
    };
    let driving = is_driving(drivers, p);
    let reset = flags.in_vehicle && !driving;
    flags.in_vehicle = driving;
    reset
}

/// Vehicle controls: throttle and brake are 0 or 1, steer is -1, 0 or 1 (left is +1).
#[derive(Clone, Copy, Debug, PartialEq, Eq, Structural)]
pub struct VehicleControls {
    pub throttle: u8,
    pub brake: u8,
    pub steer: i8,
    pub air_control: bool,
}

/// The movement part of the input message sent to the server each tick (the
/// yaw travels beside it).
#[derive(Clone, Copy, Debug, PartialEq, Eq, Structural)]
pub struct PlayerInputCommand {
    pub forward: bool,
    pub backward: bool,
    pub left: bool,
    pub right: bool,
    pub jump: bool,
    pub interact: bool,
    pub vehicle_input: Option<VehicleControls>,
}

/// The input to send: paused clients send no movement, drivers send vehicle
/// controls instead of foot movement.
pub open spec fn player_input_spec(flags: InputFlags, paused: bool, in_vehicle: bool) -> PlayerInputCommand {
    if paused {
        PlayerInputCommand {
            forward: false, backward: false, left: false, right: false, jump: false, interact: false,
            vehicle_input: None,
        }
    } else if in_vehicle {
        PlayerInputCommand {
            forward: false, backward: false, left: false, right: false, jump: false,
            interact: flags.interact_just_pressed,
            vehicle_input: Some(VehicleControls {
                throttle: if flags.forward { 1u8 } else { 0u8 },
                brake: if flags.backward { 1u8 } else { 0u8 },
                steer: if flags.left { 1i8 } else if flags.right { -1i8 } else { 0i8 },
                air_control: flags.shift,
            }),
        }
    } else {
        PlayerInputCommand {
            forward: flags.forward,
            backward: flags.backward,
            left: flags.left,
            right: flags.right,
            jump: flags.jump,
            interact: flags.interact_just_pressed,
            vehicle_input: None,
        }
    }
}

/// Builds the input message for this tick. `in_vehicle` is whether some
/// vehicle's driver is our peer id.
pub fn send_input_to_server(flags: &InputFlags, paused: bool, drivers: &Vec<Option<u64>>, our_peer_id: PeerId) -> (cmd: PlayerInputCommand)
    ensures
        cmd == player_input_spec(*flags, paused, drives_some(drivers@, input_driver_id(our_peer_id))),
{
    let in_vehicle = is_driving(drivers, our_peer_id);
    let mut input = PlayerInputCommand {
        forward: flags.forward,
        backward: flags.backward,
        left: flags.left,
        right: flags.right,
        jump: flags.jump,
        interact: flags.interact_just_pressed,
        vehicle_input: None,
    };
    if paused {
        input.forward = false;
        input.backward = false;
        input.left = false;
        input.right = false;
        input.jump = false;
        input.interact = false;
    }
    if in_vehicle && !paused {
        input.vehicle_input = Some(VehicleControls {
            throttle: if flags.forward { 1 } else { 0 },
            brake: if flags.backward { 1 } else { 0 },
            steer: if flags.left { 1 } else if flags.right { -1 } else { 0 },
            air_control: flags.shift,
        });
        input.forward = false;
        input.backward = false;
        input.left = false;
        input.right = false;
        input.jump = false;
    }
    input
}

/// A paused client never asks to move, jump or drive.
pub proof fn lemma_paused_input_is_still(flags: InputFlags, in_vehicle: bool)
    ensures
        ({
            let c = player_input_spec(flags, true, in_vehicle);
            !c.forward && !c.backward && !c.left && !c.right && !c.jump && !c.interact
                && c.vehicle_input is None
        }),
{
}

/// A driver never sends foot movement or jumps.
pub proof fn lemma_driver_sends_no_foot_movement(flags: InputFlags, paused: bool)
    ensures
        ({
            let c = player_input_spec(flags, paused, true);
            !c.forward && !c.backward && !c.left && !c.right && !c.jump
        }),
{
}

/// A right click on foot switches aiming on or off; without a click aiming
/// stays as it was; in a vehicle the player never aims.
pub proof fn lemma_right_click_switches_aim(aiming: bool, in_vehicle: bool, right_just_pressed: bool)
    ensures
        in_vehicle ==> !aiming_after(aiming, in_vehicle, right_just_pressed),
        !in_vehicle && right_just_pressed ==> aiming_after(aiming, in_vehicle, right_just_pressed) != aiming,
        !in_vehicle && !right_just_pressed ==> aiming_after(aiming, in_vehicle, right_just_pressed) == aiming,
{
}

/// On foot and unpaused, the message carries each key as held (W forward,
/// S backward, A left, D right, Space jump, E interact) and no vehicle
/// controls. Driving, W is the throttle, S the brake, A steers left (+1)
/// and D right (-1) when A is not held, Shift is air control, and E still
/// interacts.
pub proof fn lemma_input_message_follows_keys(flags: InputFlags)
    ensures
        ({
            let c = player_input_spec(flags, false, false);
            &&& c.forward == flags.forward
            &&& c.backward == flags.backward
            &&& c.left == flags.left
            &&& c.right == flags.right
            &&& c.jump == flags.jump
            &&& c.interact == flags.interact_just_pressed
            &&& c.vehicle_input is None
        }),
        ({
            let c = player_input_spec(flags, false, true);
            &&& c.interact == flags.interact_just_pressed
            &&& c.vehicle_input matches Some(v) && {
                &&& (v.throttle == 1) == flags.forward
                &&& (v.throttle == 0) == !flags.forward
                &&& (v.brake == 1) == flags.backward
                &&& (v.brake == 0) == !flags.backward
                &&& (flags.left ==> v.steer == 1)
                &&& (!flags.left && flags.right ==> v.steer == -1)
                &&& (!flags.left && !flags.right ==> v.steer == 0)
                &&& v.air_control == flags.shift
            }
        }),
{
}

/// We drive exactly when one of the vehicles' drivers is our peer's id.
pub proof fn lemma_driving_means_a_vehicle_names_us(drivers: Seq<Option<u64>>, id: u64, k: int)
    requires
        0 <= k < drivers.len(),
        drivers[k] == Some(id),
    ensures
        drives_some(drivers, id),
{
}

/// Input handling records netcode, Steam and local peers by their number;
/// entity, raw and server peers map to 0.
pub proof fn lemma_input_peer_numbers(id: u64)
    ensures
        input_driver_id(PeerId::Netcode(id)) == id,
        input_driver_id(PeerId::Steam(id)) == id,
        input_driver_id(PeerId::Local(id)) == id,
        input_driver_id(PeerId::Entity(id)) == 0,
        input_driver_id(PeerId::Raw(id)) == 0,
        input_driver_id(PeerId::Server) == 0,
{
}

} // verus!
