use fistforce::audio::{
    check_audio_assets_loaded, enforce_audio_limits, ensure_ambient_entity, ensure_remote_footstep_emitters,
    ensure_remote_vehicle_audio_emitters, handle_remote_audio_events, manage_vehicle_audio, play_gunshot_sfx, rank,
    stop_ambient_sounds, stop_vehicle_sounds, update_desert_walking_ambient, update_remote_footstep_emitter,
    update_remote_vehicle_audio_emitters, AssetLoad, AudioFlags, AudioLoadError, AudioManager, AudioPriority,
    EngineEmitterView, FootstepCandidate, FootstepState, ManagedSound, RemoteShotAction, RemoteVehicle, ShotSound, SinkAction,
    VehicleAudioState, VehicleLoopAction,
};
use fistforce::chunks::{
    cleanup_chunk_props, collider_chunk_count, order_by_distance, spawn_chunk_props, spawn_terrain_chunks,
    update_terrain_chunks, ChunkCoord, ChunkSet, LoadedChunks, LoadedPropChunks, TerrainStreamingState,
};
use fistforce::input::InputFlags;
use fistforce::mesh::{generate_building_mesh_indices, generate_terrain_preview_indices, push_grid, GridWinding};
use fistforce::pickup::{despawn_ground_item_visuals, spawn_ground_item_visuals};
use fistforce::build_mode::{cleanup_building_visuals, spawn_building_visuals};
use fistforce::text::{decimal_string, trim_white_space};
use fistforce::visuals::apply_prop_render_tuning;
use fistforce::player::sync_player_transforms;
use fistforce::input::PeerId;

fn c(x: i32, z: i32) -> ChunkCoord {
    ChunkCoord { x, z }
}

fn set_of(cs: &[ChunkCoord]) -> ChunkSet {
    let mut s = ChunkSet::new();
    for &x in cs {
        s.insert(x);
    }
    s
}

#[test]
fn chunk_set_keeps_one_of_each() {
    let mut s = set_of(&[c(0, 0), c(1, 0), c(0, 0)]);
    assert_eq!(s.len(), 2);
    assert!(s.contains(c(1, 0)));
    s.remove(c(1, 0));
    assert!(!s.contains(c(1, 0)));
    assert_eq!(s.to_vec(), vec![c(0, 0)]);
}

#[test]
fn props_follow_loaded_chunks() {
    let loaded = LoadedChunks { chunks: set_of(&[c(0, 0), c(1, 0)]) };
    let mut props = LoadedPropChunks { chunks: set_of(&[c(0, 0), c(5, 5)]) };
    assert_eq!(spawn_chunk_props(&loaded, &mut props), vec![c(1, 0)]);
    assert_eq!(spawn_chunk_props(&loaded, &mut props), vec![]);
    let despawn = cleanup_chunk_props(&loaded, &mut props, &vec![(10, c(0, 0)), (11, c(5, 5)), (12, c(9, 9))]);
    assert_eq!(despawn, vec![11]);
    assert!(!props.chunks.contains(c(5, 5)));
    assert_eq!(props.chunks.len(), 2);
}

#[test]
fn chunks_ordered_nearest_first() {
    let order = order_by_distance(&vec![c(3, 0), c(0, 0), c(-1, 1), c(0, 2)], c(0, 0));
    assert_eq!(order, vec![c(0, 0), c(-1, 1), c(0, 2), c(3, 0)]);
}

#[test]
fn terrain_streaming_unloads_and_spawns() {
    let mut streaming = TerrainStreamingState { center: None, desired_order: vec![] };
    let mut loaded = LoadedChunks { chunks: set_of(&[c(0, 0), c(5, 0)]) };
    let in_radius = vec![c(1, 1), c(0, 0), c(1, 0)];
    let despawn = update_terrain_chunks(c(1, 0), &in_radius, 1, &mut streaming, &mut loaded, &vec![(7, c(0, 0)), (8, c(5, 0))]);
    assert_eq!(despawn, vec![8]);
    assert_eq!(streaming.center, Some(c(1, 0)));
    assert_eq!(streaming.desired_order, vec![c(1, 0), c(1, 1), c(0, 0)]);
    assert!(!loaded.chunks.contains(c(5, 0)));
    let again = update_terrain_chunks(c(1, 0), &in_radius, 1, &mut streaming, &mut loaded, &vec![(7, c(0, 0))]);
    assert!(again.is_empty());
    let spawned = spawn_terrain_chunks(c(1, 0), &in_radius, &streaming, &mut loaded);
    assert_eq!(spawned, vec![c(1, 0), c(1, 1)]);
    let spawned = spawn_terrain_chunks(c(1, 0), &in_radius, &streaming, &mut loaded);
    assert_eq!(spawned, vec![]);
}

#[test]
fn collider_chunks_are_counted_once() {
    let lists = vec![vec![c(0, 0), c(1, 0)], vec![c(1, 0), c(2, 0)], vec![]];
    assert_eq!(collider_chunk_count(&lists), 3);
}

#[test]
fn audio_limit_drops_lowest_priority() {
    let m = AudioManager { max_total: 3, ..AudioManager::default() };
    let sounds = vec![
        ManagedSound { entity: 1, priority: AudioPriority::CombatLocal },
        ManagedSound { entity: 2, priority: AudioPriority::Ambient },
        ManagedSound { entity: 3, priority: AudioPriority::VehicleRemote },
        ManagedSound { entity: 4, priority: AudioPriority::Ambient },
        ManagedSound { entity: 5, priority: AudioPriority::Dialogue },
    ];
    assert_eq!(enforce_audio_limits(&sounds, &m), vec![2, 4]);
    assert_eq!(enforce_audio_limits(&sounds[..3].to_vec(), &m), vec![]);
    let one = AudioManager { max_total: 1, ..AudioManager::default() };
    let local = vec![
        ManagedSound { entity: 8, priority: AudioPriority::CombatLocal },
        ManagedSound { entity: 9, priority: AudioPriority::CombatLocal },
    ];
    assert_eq!(enforce_audio_limits(&local, &one), vec![]);
    let mixed = vec![local[0], ManagedSound { entity: 7, priority: AudioPriority::VehicleLocal }, local[1]];
    assert_eq!(enforce_audio_limits(&mixed, &one), vec![7]);
    assert_eq!(rank(AudioPriority::CombatLocal), 5);
    let d = AudioManager::default();
    assert_eq!((d.max_total, d.max_dialogue, d.max_remote_combat, d.max_remote_footsteps, d.max_remote_vehicles), (32, 4, 8, 12, 6));
}

#[test]
fn vehicle_loops_follow_driving() {
    let mut s = VehicleAudioState { sounds_spawned: false, was_in_vehicle: false };
    assert_eq!(manage_vehicle_audio(&mut s, false, true), VehicleLoopAction::Nothing);
    assert_eq!(manage_vehicle_audio(&mut s, true, true), VehicleLoopAction::Spawn);
    assert_eq!(manage_vehicle_audio(&mut s, true, true), VehicleLoopAction::Nothing);
    assert_eq!(manage_vehicle_audio(&mut s, true, false), VehicleLoopAction::Despawn);
    assert!(!s.sounds_spawned);
    s.sounds_spawned = true;
    stop_vehicle_sounds(&mut s);
    assert!(!s.sounds_spawned && !s.was_in_vehicle);
}

#[test]
fn audio_asset_checks() {
    let mut f = AudioFlags { ambient_spawned: false, assets_ready: false };
    assert_eq!(check_audio_assets_loaded(&mut f, AssetLoad::Failed, AssetLoad::Loaded), Some(AudioLoadError::GunShot));
    assert!(!f.assets_ready);
    assert_eq!(check_audio_assets_loaded(&mut f, AssetLoad::Loaded, AssetLoad::Failed), Some(AudioLoadError::DesertAmbient));
    assert_eq!(check_audio_assets_loaded(&mut f, AssetLoad::Loaded, AssetLoad::Loaded), None);
    assert!(f.assets_ready);
    assert!(ensure_ambient_entity(&mut f, false));
    assert!(!ensure_ambient_entity(&mut f, false));
    stop_ambient_sounds(&mut f);
    assert!(!f.ambient_spawned);
    let mut fired = true;
    assert!(play_gunshot_sfx(true, false, &mut fired, true));
    assert!(!fired);
    assert!(!play_gunshot_sfx(true, false, &mut fired, true));
    let mut fired = true;
    assert!(!play_gunshot_sfx(true, true, &mut fired, true));
    assert!(!fired);
}

#[test]
fn ambient_and_footstep_sinks() {
    let mut walking = InputFlags::new();
    walking.forward = true;
    assert_eq!(update_desert_walking_ambient(&walking, true, true), SinkAction::Play);
    assert_eq!(update_desert_walking_ambient(&walking, false, false), SinkAction::Pause);
    assert_eq!(update_desert_walking_ambient(&InputFlags::new(), true, true), SinkAction::Keep);
    let mut fs = FootstepState { playing: false };
    assert_eq!(update_remote_footstep_emitter(&mut fs, true, true, true), SinkAction::Play);
    assert!(fs.playing);
    assert_eq!(update_remote_footstep_emitter(&mut fs, false, true, false), SinkAction::Keep);
    assert_eq!(update_remote_footstep_emitter(&mut fs, false, false, false), SinkAction::Pause);
    assert!(!fs.playing);
}

#[test]
fn remote_emitters() {
    let m = AudioManager { max_remote_footsteps: 3, ..AudioManager::default() };
    let cands = vec![
        FootstepCandidate { entity: 1, player_id: Some(10), in_range: true, distance_key: 50 },
        FootstepCandidate { entity: 2, player_id: Some(20), in_range: true, distance_key: 1 },
        FootstepCandidate { entity: 3, player_id: None, in_range: false, distance_key: 2 },
        FootstepCandidate { entity: 4, player_id: None, in_range: true, distance_key: 3 },
        FootstepCandidate { entity: 5, player_id: None, in_range: true, distance_key: 10 },
        FootstepCandidate { entity: 6, player_id: Some(30), in_range: true, distance_key: 10 },
    ];
    // 4 already has an emitter, 2 drives, 3 is out of range: the two nearest of 1, 5, 6 get one.
    assert_eq!(ensure_remote_footstep_emitters(&cands, &vec![Some(20)], &vec![4], &m), vec![5, 6]);
    assert_eq!(ensure_remote_footstep_emitters(&cands, &vec![Some(20)], &vec![], &m), vec![4, 5, 6]);
    assert_eq!(ensure_remote_footstep_emitters(&cands, &vec![], &vec![7, 8, 9], &m), vec![]);
    let vehicles = vec![
        RemoteVehicle { entity: 5, driver_id: Some(99), in_range: true, has_idle_emitter: true, has_cruise_emitter: false },
        RemoteVehicle { entity: 6, driver_id: Some(1), in_range: true, has_idle_emitter: false, has_cruise_emitter: false },
        RemoteVehicle { entity: 7, driver_id: None, in_range: true, has_idle_emitter: true, has_cruise_emitter: true },
    ];
    let spawns = ensure_remote_vehicle_audio_emitters(&vehicles, Some(1));
    assert_eq!(spawns.len(), 1);
    assert_eq!((spawns[0].vehicle, spawns[0].idle, spawns[0].cruise), (5, false, true));
    let views = vec![
        EngineEmitterView { emitter: 30, vehicle_found: true, driver_id: Some(1), beyond_range: false },
        EngineEmitterView { emitter: 31, vehicle_found: false, driver_id: None, beyond_range: false },
        EngineEmitterView { emitter: 32, vehicle_found: true, driver_id: Some(2), beyond_range: false },
        EngineEmitterView { emitter: 33, vehicle_found: true, driver_id: None, beyond_range: true },
    ];
    assert_eq!(update_remote_vehicle_audio_emitters(&views, Some(1)), vec![30, 31, 33]);
    assert_eq!(update_remote_vehicle_audio_emitters(&views, None), vec![31, 33]);
}

#[test]
fn remote_gunshots_respect_the_cap() {
    let m = AudioManager { max_remote_combat: 2, ..AudioManager::default() };
    let actions = handle_remote_audio_events(&vec![7, 1, 8], Some(1), &vec![40, 41], &m);
    assert_eq!(
        actions,
        vec![
            RemoteShotAction { despawn: Some(ShotSound::Playing(40)), play: true },
            RemoteShotAction { despawn: None, play: false },
            RemoteShotAction { despawn: Some(ShotSound::Playing(41)), play: true },
        ]
    );
    // None playing, three shots, a limit of 2: the third replaces the first.
    let batch = handle_remote_audio_events(&vec![7, 8, 9], None, &vec![], &m);
    assert_eq!(
        batch,
        vec![
            RemoteShotAction { despawn: None, play: true },
            RemoteShotAction { despawn: None, play: true },
            RemoteShotAction { despawn: Some(ShotSound::Spawned(0)), play: true },
        ]
    );
    let one = AudioManager { max_remote_combat: 1, ..AudioManager::default() };
    let two = handle_remote_audio_events(&vec![7, 8], None, &vec![], &one);
    assert_eq!(two[1], RemoteShotAction { despawn: Some(ShotSound::Spawned(0)), play: true });
    let none = AudioManager { max_remote_combat: 0, ..AudioManager::default() };
    assert_eq!(handle_remote_audio_events(&vec![7], None, &vec![], &none), vec![RemoteShotAction { despawn: None, play: false }]);
}

#[test]
fn mesh_index_buffers() {
    let b = generate_building_mesh_indices();
    assert_eq!(b.len(), 36);
    assert_eq!(&b[..6], &[0, 1, 2, 0, 2, 3]);
    assert!(b.iter().all(|&i| i < 24));
    let t = generate_terrain_preview_indices(2, 1);
    assert_eq!(t, vec![0, 3, 1, 1, 3, 4, 1, 4, 2, 2, 4, 5]);
    let mut g = Vec::new();
    push_grid(&mut g, 10, 1, 1, 2, GridWinding::Forward);
    assert_eq!(g, vec![10, 11, 12, 11, 13, 12]);
}

#[test]
fn visual_bookkeeping() {
    assert_eq!(spawn_building_visuals(&vec![1, 2, 3], &vec![2]), vec![1, 3]);
    assert_eq!(cleanup_building_visuals(&vec![(100, 1), (101, 9)], &vec![1, 2]), vec![101]);
    assert_eq!(spawn_ground_item_visuals(&vec![5], &vec![5]), vec![]);
    assert_eq!(despawn_ground_item_visuals(&vec![(200, 5), (201, 6)], &vec![6]), vec![200]);
}

#[test]
fn text_helpers() {
    assert_eq!(decimal_string(0), "0");
    assert_eq!(decimal_string(1234567), "1234567");
    assert_eq!(decimal_string(u64::MAX), "18446744073709551615");
    assert_eq!(trim_white_space("\u{3000} a b \n"), "a b");
    assert_eq!(trim_white_space("   "), "");
    assert_eq!(trim_white_space("x"), "x");
}

#[test]
fn render_tuning_comes_from_nearest_tuned_ancestor() {
    // 10 -> 11 -> 12 (tuned), 20 -> 21 (no tuning), 30 tuned itself
    let parents = vec![(10, 11), (11, 12), (20, 21)];
    let tuned = vec![12, 30, 11];
    let r = apply_prop_render_tuning(&vec![10, 20, 30, 40], &parents, &tuned);
    assert_eq!(r, vec![Some(11), None, Some(30), None]);
}

#[test]
fn riders_snap_to_their_vehicle() {
    let vehicles = vec![(100, Some(5)), (101, None), (102, Some(5)), (103, Some(7))];
    let r = sync_player_transforms(&vehicles, &vec![PeerId::Netcode(5), PeerId::Netcode(7), PeerId::Netcode(8), PeerId::Server]);
    assert_eq!(r, vec![Some(102), Some(103), None, None]);
}
