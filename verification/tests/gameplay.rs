use fistforce::build_mode::{
    update_placement_preview, PreviewPlan,
    build_panel_action, building_costs, building_label, cleanup_build_mode, handle_building_selection,
    handle_place_building, handle_rotation_input, invalid_reason_text, toggle_build_mode, BuildModeState, BuildingType,
    CostItem, PanelAction, PlaceRequest,
};
use fistforce::crosshair::{update_crosshair_ads, update_crosshair_visibility};
use fistforce::input::{handle_mouse_input, CameraMode, CursorGrab, InputFlags, PeerId};
use fistforce::inventory::{toggle_inventory, InventoryOpen};
use fistforce::items::{ItemStack, ItemType, WeaponType};
use fistforce::main_menu::Interaction;
use fistforce::npc::{begin_npc_transition, determine_npc_target_anim, NpcAnimSlots, NpcMovementAnim, SpeedBands};
use fistforce::pickup::{
    detect_nearby_items, handle_pickup_input, show_pickup_prompt, GroundItemCandidate, NearbyItem, PromptAction,
};
use fistforce::player::{
    begin_transition, death_step, determine_local_target_anim, determine_remote_target_anim,
    determine_target_anim_with_jump, ensure_local_player_tag, is_jump_anim, peer_id_to_u64,
    update_local_player_visibility, AnimSlots, DeathStep, JumpAnimState, JumpObservation, LastCameraMode, MovementAnim,
};
use fistforce::weapon_view::{
    handle_weapon_switch, update_first_person_weapon, update_third_person_weapon, update_weapon_hud, weapon_hud_visible,
    CurrentThirdPersonWeapon, CurrentWeaponView,
};
use fistforce::weapons::{
    impact_effect, BulletImpactSurface, ImpactEffect, handle_reload_input, handle_shoot_input, play_weapon_sounds, recover_recoil, render_pass_name, toggle_debug_mode,
    ShootingState, ShotInput, WeaponSound,
};

fn on_foot() -> InputFlags {
    InputFlags::new()
}

fn shot(fire: bool, ammo: u32, cooldown: bool, click: bool) -> ShotInput {
    ShotInput {
        playing: true,
        player_ready: true,
        fire_pressed: fire,
        weapon: WeaponType::Shotgun,
        ammo_in_mag: ammo,
        cooldown_passed: cooldown,
        click_interval_passed: click,
    }
}

#[test]
fn right_click_toggles_aiming() {
    let mut f = on_foot();
    handle_mouse_input(&mut f, true);
    assert!(f.aiming);
    handle_mouse_input(&mut f, false);
    assert!(f.aiming);
    handle_mouse_input(&mut f, true);
    assert!(!f.aiming);
    f.aiming = true;
    f.in_vehicle = true;
    handle_mouse_input(&mut f, true);
    assert!(!f.aiming);
}

#[test]
fn number_keys_switch_slots() {
    assert_eq!(handle_weapon_switch(false, &vec![false, false, true, true]), Some(2));
    assert_eq!(handle_weapon_switch(false, &vec![false, false, false, false, true, true]), None);
    assert_eq!(handle_weapon_switch(true, &vec![true]), None);
    assert_eq!(handle_weapon_switch(false, &vec![]), None);
}

#[test]
fn weapon_hud_text() {
    let hotbar = vec![
        Some(ItemStack { item_type: ItemType::Weapon(WeaponType::AssaultRifle), quantity: 1 }),
        None,
        Some(ItemStack { item_type: ItemType::RifleAmmo, quantity: 60 }),
    ];
    let hud = update_weapon_hud(WeaponType::AssaultRifle, 30, 90, &hotbar, 0);
    assert_eq!(hud.weapon_name, "Assault Rifle");
    assert_eq!(hud.hotbar, ">[1] AR<  [2] -  [3] 5.56");
    assert_eq!(hud.ammo, "30 / 90");
    let unarmed = update_weapon_hud(WeaponType::Unarmed, 0, 5, &hotbar, 2);
    assert_eq!(unarmed.ammo, "");
    assert_eq!(unarmed.hotbar, "[1] AR  [2] -  >[3] 5.56<");
}

#[test]
fn weapon_models_follow_camera() {
    let mut fp = CurrentWeaponView { weapon_type: None };
    let p = update_first_person_weapon(&mut fp, CameraMode::FirstPerson, false, WeaponType::Pistol);
    assert_eq!(p.spawn, Some(WeaponType::Pistol));
    assert_eq!(fp.weapon_type, Some(WeaponType::Pistol));
    let p = update_first_person_weapon(&mut fp, CameraMode::FirstPerson, false, WeaponType::Pistol);
    assert_eq!(p.spawn, None);
    assert!(!p.despawn);
    let p = update_first_person_weapon(&mut fp, CameraMode::ThirdPerson, false, WeaponType::Pistol);
    assert!(p.despawn);
    assert_eq!(fp.weapon_type, None);
    let mut tp = CurrentThirdPersonWeapon { weapon_type: None };
    let p = update_third_person_weapon(&mut tp, CameraMode::ThirdPerson, false, WeaponType::Sniper);
    assert_eq!(p.spawn, Some(WeaponType::Sniper));
    let p = update_third_person_weapon(&mut tp, CameraMode::ThirdPerson, false, WeaponType::Unarmed);
    assert_eq!(p.spawn, None);
    assert_eq!(tp.weapon_type, None);
}

#[test]
fn shooting_decisions() {
    let mut s = ShootingState::default();
    let f = on_foot();
    let d = handle_shoot_input(&mut s, &f, &shot(true, 5, true, true));
    assert!(d.fire);
    assert!(s.shot_fired_this_frame);
    assert_eq!(s.weapon_fired, Some(WeaponType::Shotgun));
    assert_eq!(s.shots_in_burst, 1);
    let d = handle_shoot_input(&mut s, &f, &shot(true, 5, false, true));
    assert!(!d.fire);
    assert!(!s.shot_fired_this_frame);
    assert_eq!(s.shots_in_burst, 1);
    let d = handle_shoot_input(&mut s, &f, &shot(true, 0, true, true));
    assert!(d.out_of_ammo_click);
    assert!(s.out_of_ammo_this_frame);
    let d = handle_shoot_input(&mut s, &f, &shot(true, 0, true, false));
    assert!(!d.out_of_ammo_click);
    recover_recoil(&mut s, true);
    assert_eq!(s.shots_in_burst, 0);
}

#[test]
fn no_shooting_with_inventory_open() {
    let mut s = ShootingState::default();
    let mut f = on_foot();
    f.inventory_open = true;
    let d = handle_shoot_input(&mut s, &f, &shot(true, 5, true, true));
    assert!(!d.fire);
    assert!(!s.fire_held);
}

#[test]
fn reload_rules() {
    let f = on_foot();
    assert!(handle_reload_input(&f, true, true, 10, 30, 5));
    assert!(!handle_reload_input(&f, true, true, 30, 30, 5));
    assert!(!handle_reload_input(&f, true, true, 10, 30, 0));
    let mut dead = on_foot();
    dead.is_dead = true;
    assert!(!handle_reload_input(&dead, true, true, 10, 30, 5));
}

#[test]
fn weapon_sounds() {
    let s = ShootingState {
        fire_held: true,
        shot_fired_this_frame: true,
        out_of_ammo_this_frame: false,
        weapon_fired: Some(WeaponType::Shotgun),
        shots_in_burst: 1,
    };
    assert_eq!(play_weapon_sounds(true, &s, true), vec![WeaponSound::ShotgunShot, WeaponSound::Reload]);
    assert_eq!(play_weapon_sounds(false, &s, true), vec![]);
    let pistol = ShootingState { weapon_fired: Some(WeaponType::Pistol), ..s };
    assert_eq!(play_weapon_sounds(true, &pistol, false), vec![WeaponSound::GunShot]);
}

#[test]
fn debug_toggle_and_pass_names() {
    let mut d = false;
    toggle_debug_mode(true, &mut d);
    assert!(d);
    toggle_debug_mode(false, &mut d);
    assert!(d);
    assert_eq!(render_pass_name("render/shadow_pass/elapsed_cpu"), Some("shadow_pass".to_string()));
    assert_eq!(render_pass_name("render/elapsed_cpu"), Some("render/elapsed_cpu".to_string()));
    assert_eq!(render_pass_name("render/main/elapsed_gpu"), None);
    assert_eq!(render_pass_name("fps"), None);
}

#[test]
fn local_animation_from_keys() {
    let mut f = on_foot();
    f.forward = true;
    f.left = true;
    assert_eq!(determine_local_target_anim(&f), MovementAnim::Walk);
    f.shift = true;
    assert_eq!(determine_local_target_anim(&f), MovementAnim::Run);
    let mut b = on_foot();
    b.backward = true;
    b.right = true;
    assert_eq!(determine_local_target_anim(&b), MovementAnim::WalkBack);
    let mut l = on_foot();
    l.left = true;
    assert_eq!(determine_local_target_anim(&l), MovementAnim::StrafeLeft);
    l.right = true;
    assert_eq!(determine_local_target_anim(&l), MovementAnim::Idle);
    assert_eq!(determine_remote_target_anim(true, true), MovementAnim::Run);
    assert_eq!(determine_remote_target_anim(false, true), MovementAnim::Walk);
    assert!(is_jump_anim(MovementAnim::JumpAir));
    assert!(!is_jump_anim(MovementAnim::Run));
}

#[test]
fn jump_sequence_runs_in_order() {
    let f = on_foot();
    let mut obs = JumpObservation {
        start_done: false,
        min_air_time_done: false,
        land_done: false,
        vertical_still: false,
        rising: false,
        remote_ground: MovementAnim::Idle,
    };
    let mut s = JumpAnimState { target_anim: MovementAnim::Idle, airborne: false };
    let a = determine_target_anim_with_jump(&mut s, true, &f, &obs, true);
    assert_eq!(a, MovementAnim::JumpStart);
    s.target_anim = a;
    obs.start_done = true;
    let a = determine_target_anim_with_jump(&mut s, true, &f, &obs, false);
    assert_eq!(a, MovementAnim::JumpAir);
    assert!(s.airborne);
    s.target_anim = a;
    obs.min_air_time_done = true;
    obs.vertical_still = true;
    let a = determine_target_anim_with_jump(&mut s, true, &f, &obs, false);
    assert_eq!(a, MovementAnim::JumpLand);
    s.target_anim = a;
    obs.land_done = true;
    let a = determine_target_anim_with_jump(&mut s, true, &f, &obs, false);
    assert_eq!(a, MovementAnim::Idle);
    assert!(!s.airborne);
}

#[test]
fn animation_transitions() {
    let mut slots = AnimSlots { current_anim: MovementAnim::Idle, target_anim: MovementAnim::Walk };
    let p = begin_transition(&mut slots, MovementAnim::JumpStart, true);
    assert_eq!(p.stop, Some(MovementAnim::Idle));
    assert_eq!(p.start, Some(MovementAnim::JumpStart));
    assert!(!p.looped);
    assert!(p.reset_jump_timer);
    assert_eq!(slots, AnimSlots { current_anim: MovementAnim::Walk, target_anim: MovementAnim::JumpStart });
    let p = begin_transition(&mut slots, MovementAnim::JumpStart, false);
    assert_eq!(p.start, None);
    let mut dead = false;
    let mut airborne = true;
    assert_eq!(death_step(&mut dead, &mut airborne, &mut slots, true), DeathStep::StartDeath);
    assert!(!airborne);
    assert_eq!(death_step(&mut dead, &mut airborne, &mut slots, true), DeathStep::StayDead);
    assert_eq!(death_step(&mut dead, &mut airborne, &mut slots, false), DeathStep::Revive);
    assert_eq!(death_step(&mut dead, &mut airborne, &mut slots, false), DeathStep::Alive);
}

#[test]
fn peer_ids_and_local_tag() {
    assert_eq!(peer_id_to_u64(PeerId::Entity(9)), 9);
    assert_eq!(peer_id_to_u64(PeerId::Raw(77)), 77);
    assert_eq!(peer_id_to_u64(PeerId::Server), 0);
    let players = vec![(100, PeerId::Netcode(1)), (101, PeerId::Netcode(2)), (102, PeerId::Netcode(2))];
    let plan = ensure_local_player_tag(&players, PeerId::Netcode(2), &vec![100, 101, 103]).unwrap();
    assert_eq!(plan.local, 101);
    assert_eq!(plan.untag, vec![100, 103]);
    assert!(plan.duplicates);
    assert!(ensure_local_player_tag(&players, PeerId::Netcode(9), &vec![]).is_none());
}

#[test]
fn model_visibility_follows_camera_changes() {
    let mut last = LastCameraMode(None);
    assert_eq!(update_local_player_visibility(&mut last, CameraMode::FirstPerson), Some(false));
    assert_eq!(update_local_player_visibility(&mut last, CameraMode::FirstPerson), None);
    assert_eq!(update_local_player_visibility(&mut last, CameraMode::ThirdPerson), Some(true));
}

fn bands(speed_tenths: u32) -> SpeedBands {
    SpeedBands {
        run_start: speed_tenths > 48,
        run_stop: speed_tenths < 42,
        walk_start: speed_tenths > 2,
        walk_keep: speed_tenths > 1,
        walk_stop: speed_tenths < 1,
    }
}

#[test]
fn npc_hysteresis() {
    assert_eq!(determine_npc_target_anim(&bands(45), NpcMovementAnim::Run), NpcMovementAnim::Run);
    assert_eq!(determine_npc_target_anim(&bands(45), NpcMovementAnim::Walk), NpcMovementAnim::Walk);
    assert_eq!(determine_npc_target_anim(&bands(45), NpcMovementAnim::Idle), NpcMovementAnim::Walk);
    assert_eq!(determine_npc_target_anim(&bands(50), NpcMovementAnim::Idle), NpcMovementAnim::Run);
    assert_eq!(determine_npc_target_anim(&bands(0), NpcMovementAnim::Run), NpcMovementAnim::Idle);
    let once = determine_npc_target_anim(&bands(2), NpcMovementAnim::Run);
    assert_eq!(once, NpcMovementAnim::Walk);
    assert_eq!(determine_npc_target_anim(&bands(2), once), once);
    let mut slots = NpcAnimSlots { current_anim: NpcMovementAnim::Idle, target_anim: NpcMovementAnim::Idle };
    let p = begin_npc_transition(&mut slots, NpcMovementAnim::Walk, false);
    assert_eq!(p.start, Some(NpcMovementAnim::Walk));
    assert_eq!(p.stop, None);
}

#[test]
fn build_mode_toggle_and_escape() {
    let mut s = BuildModeState::default();
    let mut f = on_foot();
    let cleanup = toggle_build_mode(&mut s, &mut f, true, false, BuildingType(0));
    assert!(!cleanup);
    assert!(s.active && f.build_mode_active);
    assert_eq!(s.selected_building, Some(BuildingType(0)));
    let cleanup = toggle_build_mode(&mut s, &mut f, false, true, BuildingType(0));
    assert!(cleanup);
    assert!(!s.active && !f.build_mode_active);
    f.inventory_open = true;
    assert!(!toggle_build_mode(&mut s, &mut f, true, false, BuildingType(0)));
    assert!(!s.active);
}

#[test]
fn building_selection_rotation_and_placement() {
    let mut s = BuildModeState { active: true, selected_building: None, rotation_quarters: 3, can_place: true, previewed_building_type: None };
    let list = vec![BuildingType(10), BuildingType(11), BuildingType(12)];
    handle_building_selection(&mut s, &list, &vec![false, true], &vec![]);
    assert_eq!(s.selected_building, Some(BuildingType(11)));
    handle_building_selection(&mut s, &list, &vec![], &vec![(Interaction::Pressed, BuildingType(12))]);
    assert_eq!(s.selected_building, Some(BuildingType(12)));
    handle_rotation_input(&mut s, true);
    assert_eq!(s.rotation_quarters, 0);
    assert_eq!(
        handle_place_building(&s, true, true),
        Some(PlaceRequest { building: BuildingType(12), rotation_quarters: 0 })
    );
    assert_eq!(handle_place_building(&s, true, false), None);
    cleanup_build_mode(&mut s);
    assert_eq!(handle_place_building(&s, true, true), None);
    assert_eq!(build_panel_action(false, 1), PanelAction::Despawn);
    assert_eq!(build_panel_action(true, 0), PanelAction::Spawn);
    assert_eq!(build_panel_action(true, 1), PanelAction::Keep);
}

#[test]
fn build_panel_text() {
    assert_eq!(building_label(0, "Train Station"), "[1] Train Station");
    let costs = vec![
        CostItem { item_name: "Wood".to_string(), have: 12, required: 10 },
        CostItem { item_name: "Stone".to_string(), have: 3, required: 5 },
    ];
    let (line, ok) = building_costs(&costs, true);
    assert_eq!(line, "Wood: 12/10, Stone: 3/5");
    assert!(!ok);
    let (_, ok) = building_costs(&vec![CostItem { item_name: "Wood".to_string(), have: 12, required: 10 }], true);
    assert!(ok);
    let (_, ok) = building_costs(&vec![], false);
    assert!(!ok);
    assert_eq!(invalid_reason_text("Too steep"), "⚠ Too steep");
}

#[test]
fn nearest_item_in_range() {
    let f = on_foot();
    let items = vec![
        GroundItemCandidate { entity: 1, item_type: ItemType::Wood, quantity: 3, in_range: true, distance_key: 500 },
        GroundItemCandidate { entity: 2, item_type: ItemType::Stone, quantity: 1, in_range: false, distance_key: 10 },
        GroundItemCandidate { entity: 3, item_type: ItemType::PistolAmmo, quantity: 12, in_range: true, distance_key: 200 },
        GroundItemCandidate { entity: 4, item_type: ItemType::Wood, quantity: 9, in_range: true, distance_key: 200 },
    ];
    let n = detect_nearby_items(&f, true, &items);
    assert_eq!(n, NearbyItem { entity: Some(3), item_type: Some(ItemType::PistolAmmo), quantity: Some(12) });
    assert!(handle_pickup_input(true, &n));
    assert!(!handle_pickup_input(false, &n));
    match show_pickup_prompt(&n, "9mm Ammo") {
        PromptAction::Show(t) => assert_eq!(t, "Press E to pick up 12x 9mm Ammo"),
        PromptAction::Remove => panic!("expected a prompt"),
    }
    let none = detect_nearby_items(&f, false, &items);
    assert_eq!(none.entity, None);
    assert!(matches!(show_pickup_prompt(&none, "x"), PromptAction::Remove));
}

#[test]
fn crosshair_layouts() {
    assert!(update_crosshair_visibility(CameraMode::FirstPerson));
    assert!(!update_crosshair_visibility(CameraMode::ThirdPerson));
    let ads = update_crosshair_ads(true);
    let hip = update_crosshair_ads(false);
    assert_eq!((ads.dot_size, ads.line_offset, ads.line_length), (3, 6, 6));
    assert_eq!((hip.dot_size, hip.line_offset, hip.line_length), (4, 14, 8));
}

#[test]
fn impact_feedback_by_surface() {
    assert_eq!(impact_effect(BulletImpactSurface::Terrain), ImpactEffect::Marker { on_wall: false });
    assert_eq!(impact_effect(BulletImpactSurface::PracticeWall), ImpactEffect::Marker { on_wall: true });
    assert_eq!(impact_effect(BulletImpactSurface::Npc), ImpactEffect::Blood);
    assert_eq!(impact_effect(BulletImpactSurface::Player), ImpactEffect::Blood);
}

#[test]
fn placement_preview_reasons() {
    let mut s = BuildModeState { active: true, selected_building: Some(BuildingType(1)), rotation_quarters: 0, can_place: true, previewed_building_type: None };
    match update_placement_preview(&mut s, false, true, true, false) {
        PreviewPlan::OutOfReach { reason } => assert_eq!(reason, "Too far away"),
        other => panic!("unexpected {:?}", other),
    }
    assert!(!s.can_place);
    match update_placement_preview(&mut s, true, false, true, false) {
        PreviewPlan::OnGround { invalid_reason, despawn_old_model, spawn_model, ghost_visible } => {
            assert_eq!(invalid_reason.as_deref(), Some("Not enough resources"));
            assert!(despawn_old_model && spawn_model && !ghost_visible);
        }
        other => panic!("unexpected {:?}", other),
    }
    assert_eq!(s.previewed_building_type, Some(BuildingType(1)));
    match update_placement_preview(&mut s, true, true, false, false) {
        PreviewPlan::OnGround { invalid_reason, despawn_old_model, spawn_model, ghost_visible } => {
            assert_eq!(invalid_reason, None);
            assert!(!despawn_old_model && !spawn_model && ghost_visible);
        }
        other => panic!("unexpected {:?}", other),
    }
    assert!(s.can_place);
    s.active = false;
    assert!(matches!(update_placement_preview(&mut s, true, true, true, true), PreviewPlan::Hide));
}

#[test]
fn weapon_hud_hides_in_vehicle() {
    assert!(!weapon_hud_visible(true));
    assert!(weapon_hud_visible(false));
}

#[test]
fn input_state_follows_inventory_toggle() {
    let mut open = InventoryOpen(false);
    let mut flags = InputFlags::new();
    assert_eq!(toggle_inventory(&mut open, &mut flags, true, true, false), Some(CursorGrab::Free));
    assert!(open.0 && flags.inventory_open);
    assert_eq!(toggle_inventory(&mut open, &mut flags, false, true, true), None);
    assert!(open.0 && flags.inventory_open);
    assert_eq!(toggle_inventory(&mut open, &mut flags, true, false, true), Some(CursorGrab::Locked));
    assert!(!open.0 && !flags.inventory_open);
    assert_eq!(toggle_inventory(&mut open, &mut flags, true, false, true), None);
    assert!(!flags.inventory_open);
}
