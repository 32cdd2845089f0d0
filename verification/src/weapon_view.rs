//! The weapon HUD, hotbar switching, and which weapon model is shown.

use vstd::prelude::*;
use crate::input::CameraMode;
use crate::items::{WeaponType, ItemStack, weapon_name, weapon_name_spec, hotbar_item_name, hotbar_item_name_spec};
use crate::text::{decimal_chars, push_decimal};

verus! {

broadcast use vstd::seq_lib::group_seq_properties;

/// The number of hotbar slots that the number keys select (keys 1 to 4).
pub const SWITCH_KEYS: usize = 4;

/// The slot the number keys select: the first of keys 1 to 4 pressed this frame.
pub open spec fn first_pressed(digits: Seq<bool>, k: int) -> Option<u8>
    decreases SWITCH_KEYS - k,
{
    if k >= SWITCH_KEYS || k >= digits.len() || k < 0 {
        None
    } else if digits[k] {
        Some(k as u8)
    } else {
        first_pressed(digits, k + 1)
    }
}

/// Handles the number keys that switch the hotbar slot (`digits[k]` for key
/// `k + 1`). Returns the slot to select, which the app applies locally and
/// sends to the server; nothing while driving.
pub fn handle_weapon_switch(in_vehicle: bool, digits: &Vec<bool>) -> (index: Option<u8>)
    ensures
        in_vehicle ==> index is None,
        !in_vehicle ==> index == first_pressed(digits@, 0),
{
    if in_vehicle {
        return None;
    }
    let mut k: usize = 0;
    while k < SWITCH_KEYS && k < digits.len()
        invariant
            0 <= k <= SWITCH_KEYS,
            !in_vehicle,
            first_pressed(digits@, 0) == first_pressed(digits@, k as int),
        decreases SWITCH_KEYS - k,
    {
        if digits[k] {
            return Some(k as u8);
        }
        k += 1;
    }
    None
}

/// The number keys select the slot of the first key pressed among keys 1 to
/// 4, so the selected slot is one of the first four.
pub proof fn lemma_switch_picks_first_pressed(digits: Seq<bool>, k: int)
    requires
        0 <= k,
    ensures
        first_pressed(digits, k) matches Some(i) ==> {
            &&& k <= i < SWITCH_KEYS && i < digits.len()
            &&& digits[i as int]
            &&& forall|j: int| k <= j < i ==> !#[trigger] digits[j]
        },
        first_pressed(digits, k) is None ==> forall|j: int| k <= j < SWITCH_KEYS && j < digits.len() ==> !#[trigger] digits[j],
    decreases SWITCH_KEYS - k,
{
    if k < SWITCH_KEYS && k < digits.len() && !digits[k] {
        lemma_switch_picks_first_pressed(digits, k + 1);
    }
}

/// The text of the weapon HUD.
#[derive(Debug)]
pub struct WeaponHudText {
    pub weapon_name: String,
    pub hotbar: String,
    pub ammo: String,
}

/// The label of a hotbar slot.
pub open spec fn slot_name_spec(slot: Option<ItemStack>) -> Seq<char> {
    match slot {
        Some(stack) => hotbar_item_name_spec(stack.item_type),
        None => "-"@,
    }
}

/// One slot of the hotbar line: `[n] name`, or `>[n] name<` for the selected slot.
pub open spec fn slot_label_spec(i: nat, slot: Option<ItemStack>, selected: bool) -> Seq<char> {
    let body = "["@ + decimal_chars(i + 1) + "] "@ + slot_name_spec(slot);
    if selected { ">"@ + body + "<"@ } else { body }
}

/// The hotbar line: the slot labels joined by two spaces.
pub open spec fn hotbar_line_spec(slots: Seq<Option<ItemStack>>, selected: nat) -> Seq<char>
    decreases slots.len(),
{
    if slots.len() == 0 {
        Seq::empty()
    } else {
        let i = (slots.len() - 1) as nat;
        let label = slot_label_spec(i, slots.last(), i == selected);
        if slots.len() == 1 { label } else { hotbar_line_spec(slots.drop_last(), selected) + "  "@ + label }
    }
}

/// The ammo counter: `magazine / reserve`, empty when unarmed.
pub open spec fn ammo_text_spec(weapon: WeaponType, ammo_in_mag: u32, reserve: u32) -> Seq<char> {
    if weapon == WeaponType::Unarmed {
        Seq::empty()
    } else {
        decimal_chars(ammo_in_mag as nat) + " / "@ + decimal_chars(reserve as nat)
    }
}

fn slot_label(i: usize, slot: &Option<ItemStack>, selected: bool) -> (r: String)
    requires
        i < u64::MAX,
    ensures
        r@ == slot_label_spec(i as nat, *slot, selected),
{
    let mut r = if selected { String::from_str(">[") } else { String::from_str("[") };
    push_decimal(&mut r, i as u64 + 1);
    r.append("] ");
    let name = match slot {
        Some(stack) => hotbar_item_name(&stack.item_type),
        None => String::from_str("-"),
    };
    r.append(name.as_str());
    if selected {
        r.append("<");
    }
    proof {
        let body = "["@ + decimal_chars((i + 1) as nat) + "] "@ + slot_name_spec(*slot);
        if selected {
            assert(">["@ =~= ">"@ + "["@) by {
                reveal_strlit(">[");
                reveal_strlit(">");
                reveal_strlit("[");
            }
            assert(r@ =~= ">"@ + body + "<"@);
        } else {
            assert(r@ =~= body);
        }
    }
    r
}

/// Whether the weapon HUD shows: it is hidden exactly while in a vehicle
/// (whether or not the local player has spawned).
pub fn weapon_hud_visible(in_vehicle: bool) -> (visible: bool)
    ensures
        visible == !in_vehicle,
{
    !in_vehicle
}

/// The weapon HUD's text: the weapon's name, the hotbar line over `hotbar`
/// (the contents of the hotbar slots, `selected` highlighted), and the ammo
/// counter with the reserve the inventory holds for this weapon.
pub fn update_weapon_hud(weapon: WeaponType, ammo_in_mag: u32, reserve: u32, hotbar: &Vec<Option<ItemStack>>, selected: u8) -> (r: WeaponHudText)
    requires
        hotbar@.len() < u64::MAX,
    ensures
        r.weapon_name@ == weapon_name_spec(weapon),
        r.hotbar@ == hotbar_line_spec(hotbar@, selected as nat),
        r.ammo@ == ammo_text_spec(weapon, ammo_in_mag, reserve),
{
    let name = weapon_name(weapon);
    let mut line = String::new();
    let mut i: usize = 0;
    while i < hotbar.len()
        invariant
            0 <= i <= hotbar.len(),
            hotbar@.len() < u64::MAX,
            line@ == hotbar_line_spec(hotbar@.take(i as int), selected as nat),
        decreases hotbar.len() - i,
    {
        proof {
            assert(hotbar@.take(i + 1).drop_last() =~= hotbar@.take(i as int));
        }
        let label = slot_label(i, &hotbar[i], i == selected as usize);
        if i > 0 {
            line.append("  ");
        }
        line.append(label.as_str());
        proof {
            if i == 0 {
                assert(line@ =~= label@);
            }
        }
        i += 1;
    }
    assert(hotbar@.take(hotbar.len() as int) =~= hotbar@);
    let ammo = if weapon == WeaponType::Unarmed {
        String::new()
    } else {
        let mut a = String::new();
        push_decimal(&mut a, ammo_in_mag as u64);
        a.append(" / ");
        push_decimal(&mut a, reserve as u64);
        assert(a@ =~= decimal_chars(ammo_in_mag as nat) + " / "@ + decimal_chars(reserve as nat));
        a
    };
    WeaponHudText { weapon_name: name, hotbar: line, ammo }
}

/// Which weapon model the first-person view shows.
#[derive(Clone, Copy, Debug, PartialEq, Eq, Structural)]
pub struct CurrentWeaponView {
    pub weapon_type: Option<WeaponType>,
}

/// Which weapon model hangs on the player's body in third person.
#[derive(Clone, Copy, Debug, PartialEq, Eq, Structural)]
pub struct CurrentThirdPersonWeapon {
    pub weapon_type: Option<WeaponType>,
}

/// What to do with a weapon model this frame.
#[derive(Clone, Copy, Debug, PartialEq, Eq, Structural)]
pub struct WeaponModelPlan {
    /// Remove the model now shown.
    pub despawn: bool,
    /// Spawn a model of this weapon.
    pub spawn: Option<WeaponType>,
}

/// Whether a weapon model shows in `mode`: the camera is in `mode`, the
/// player is on foot and holds a weapon.
pub open spec fn model_shown(camera: CameraMode, mode: CameraMode, in_vehicle: bool, weapon: WeaponType) -> bool {
    camera == mode && !in_vehicle && weapon != WeaponType::Unarmed
}

/// The plan for a weapon model shown in `mode` when the view holds `current`.
pub open spec fn model_plan_spec(current: Option<WeaponType>, camera: CameraMode, mode: CameraMode, in_vehicle: bool, weapon: WeaponType) -> (Option<WeaponType>, WeaponModelPlan) {
    let show = model_shown(camera, mode, in_vehicle, weapon);
    let changed = current != Some(weapon);
    if !show {
        (None, WeaponModelPlan { despawn: true, spawn: None })
    } else if changed {
        (Some(weapon), WeaponModelPlan { despawn: true, spawn: Some(weapon) })
    } else {
        (current, WeaponModelPlan { despawn: false, spawn: None })
    }
}

fn weapon_model_plan(current: &mut Option<WeaponType>, camera: CameraMode, mode: CameraMode, in_vehicle: bool, weapon: WeaponType) -> (p: WeaponModelPlan)
    ensures
        (*final(current), p) == model_plan_spec(*old(current), camera, mode, in_vehicle, weapon),
{
    let show = camera == mode && !in_vehicle && weapon != WeaponType::Unarmed;
    let changed = match *current {
        Some(w) => w != weapon,
        None => true,
    };
    if !show {
        *current = None;
        WeaponModelPlan { despawn: true, spawn: None }
    } else if changed {
        *current = Some(weapon);
        WeaponModelPlan { despawn: true, spawn: Some(weapon) }
    } else {
        WeaponModelPlan { despawn: false, spawn: None }
    }
}

/// Keeps the first-person weapon model in step with the held weapon: shown
/// only in first person, on foot and armed; replaced when the weapon changes.
pub fn update_first_person_weapon(view: &mut CurrentWeaponView, camera: CameraMode, in_vehicle: bool, weapon: WeaponType) -> (p: WeaponModelPlan)
    ensures
        (final(view).weapon_type, p) == model_plan_spec(old(view).weapon_type, camera, CameraMode::FirstPerson, in_vehicle, weapon),
{
    weapon_model_plan(&mut view.weapon_type, camera, CameraMode::FirstPerson, in_vehicle, weapon)
}

/// Keeps the third-person weapon model in step with the held weapon: shown
/// only in third person, on foot and armed; replaced when the weapon changes.
pub fn update_third_person_weapon(view: &mut CurrentThirdPersonWeapon, camera: CameraMode, in_vehicle: bool, weapon: WeaponType) -> (p: WeaponModelPlan)
    ensures
        (final(view).weapon_type, p) == model_plan_spec(old(view).weapon_type, camera, CameraMode::ThirdPerson, in_vehicle, weapon),
{
    weapon_model_plan(&mut view.weapon_type, camera, CameraMode::ThirdPerson, in_vehicle, weapon)
}

/// After an update the view records exactly the model that is shown: the held
/// weapon when it shows, nothing otherwise; and at most one of the two views
/// shows a model.
pub proof fn lemma_view_tracks_shown_model(c1: Option<WeaponType>, c2: Option<WeaponType>, camera: CameraMode, in_vehicle: bool, weapon: WeaponType)
    ensures
        ({
            let (v1, _) = model_plan_spec(c1, camera, CameraMode::FirstPerson, in_vehicle, weapon);
            let (v2, _) = model_plan_spec(c2, camera, CameraMode::ThirdPerson, in_vehicle, weapon);
            &&& v1 == (if model_shown(camera, CameraMode::FirstPerson, in_vehicle, weapon) { Some(weapon) } else { None })
            &&& v2 == (if model_shown(camera, CameraMode::ThirdPerson, in_vehicle, weapon) { Some(weapon) } else { None })
            &&& (v1 is None || v2 is None)
        }),
{
}

/// An update that finds the held weapon already shown changes nothing.
pub proof fn lemma_model_update_idempotent(current: Option<WeaponType>, camera: CameraMode, mode: CameraMode, in_vehicle: bool, weapon: WeaponType)
    ensures
        ({
            let (v1, _) = model_plan_spec(current, camera, mode, in_vehicle, weapon);
            let (v2, p2) = model_plan_spec(v1, camera, mode, in_vehicle, weapon);
            v2 == v1 && p2.spawn is None
        }),
{
}

/// The first-person model shows exactly in first person, on foot, with a
/// weapon in hand: then a different (or no) model is replaced by the held
/// weapon's, and the same one is kept; in third person, in a vehicle or
/// unarmed it is removed. The third-person model is the mirror image.
pub proof fn lemma_weapon_model_follows_view(current: Option<WeaponType>, camera: CameraMode, in_vehicle: bool, weapon: WeaponType)
    ensures
        ({
            let (v, p) = model_plan_spec(current, camera, CameraMode::FirstPerson, in_vehicle, weapon);
            let shown = camera == CameraMode::FirstPerson && !in_vehicle && weapon != WeaponType::Unarmed;
            &&& shown && current != Some(weapon) ==> v == Some(weapon) && p.despawn && p.spawn == Some(weapon)
            &&& shown && current == Some(weapon) ==> v == current && !p.despawn && p.spawn is None
            &&& !shown ==> v is None && p.despawn && p.spawn is None
        }),
        ({
            let (v, p) = model_plan_spec(current, camera, CameraMode::ThirdPerson, in_vehicle, weapon);
            let shown = camera == CameraMode::ThirdPerson && !in_vehicle && weapon != WeaponType::Unarmed;
            &&& shown && current != Some(weapon) ==> v == Some(weapon) && p.despawn && p.spawn == Some(weapon)
            &&& shown && current == Some(weapon) ==> v == current && !p.despawn && p.spawn is None
            &&& !shown ==> v is None && p.despawn && p.spawn is None
        }),
{
}

/// Pressing number key `k + 1` (one of keys 1 to 4) with no lower number key
/// pressed selects hotbar slot `k`.
pub proof fn lemma_number_key_selects_its_slot(digits: Seq<bool>, k: int)
    requires
        0 <= k < SWITCH_KEYS,
        k < digits.len(),
        digits[k],
        forall|j: int| 0 <= j < k ==> !#[trigger] digits[j],
    ensures
        first_pressed(digits, 0) == Some(k as u8),
{
    lemma_switch_picks_first_pressed(digits, 0);
}

} // verus!
