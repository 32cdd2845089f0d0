//! Build mode: entering and leaving it, choosing and rotating a building,
//! asking the server to place it, the build panel's text, and the visuals
//! of placed buildings.

use vstd::prelude::*;
use crate::input::InputFlags;
use crate::main_menu::Interaction;
use crate::visuals::{missing_visuals, missing_visuals_spec, orphaned_visuals, orphaned_visuals_spec};
use crate::text::{decimal_chars, push_decimal};

verus! {

broadcast use vstd::seq_lib::group_seq_properties;

/// A kind of building, by its place in the game's list of buildings.
#[derive(Clone, Copy, Debug, PartialEq, Eq, Structural)]
pub struct BuildingType(pub u32);

/// The build mode state that the logic reads (the preview's position and
/// meshes are the caller's).
#[derive(Clone, Copy, Debug, PartialEq, Eq, Structural)]
pub struct BuildModeState {
    pub active: bool,
    pub selected_building: Option<BuildingType>,
    /// The preview's rotation in quarter turns about the vertical axis (0 to 3).
    pub rotation_quarters: u8,
    /// The preview stands where a building may go.
    pub can_place: bool,
    /// The building the model preview shows.
    pub previewed_building_type: Option<BuildingType>,
}

impl BuildModeState {
    /// Build mode off, nothing selected, unrotated.
    pub fn default() -> (s: BuildModeState)
        ensures
            !s.active && s.selected_building is None && s.rotation_quarters == 0 && !s.can_place,
            s.previewed_building_type is None,
    {
        BuildModeState { active: false, selected_building: None, rotation_quarters: 0, can_place: false, previewed_building_type: None }
    }
}

/// B and Escape in build mode: B flips build mode (choosing
/// `default_building` when nothing is selected yet), Escape leaves it;
/// nothing while the inventory is open. Gives the new state, the value the
/// input flags' build-mode flag is set to (if it is set), and whether the
/// preview visuals are cleaned up.
pub open spec fn toggle_build_spec(s: BuildModeState, inventory_open: bool, b_pressed: bool, escape_pressed: bool, default_building: BuildingType) -> (BuildModeState, Option<bool>, bool) {
    if inventory_open {
        (s, None, false)
    } else {
        let active1 = if b_pressed { !s.active } else { s.active };
        let s1 = BuildModeState {
            active: active1,
            selected_building: if b_pressed && active1 && s.selected_building is None { Some(default_building) } else { s.selected_building },
            ..s
        };
        if active1 && escape_pressed {
            (BuildModeState { active: false, ..s1 }, Some(false), true)
        } else {
            (s1, if b_pressed { Some(active1) } else { None }, b_pressed && !active1)
        }
    }
}

/// Handles B (toggle build mode) and Escape (leave it); the input flags
/// follow. Returns whether the preview visuals are to be cleaned up.
pub fn toggle_build_mode(state: &mut BuildModeState, flags: &mut InputFlags, b_pressed: bool, escape_pressed: bool, default_building: BuildingType) -> (cleanup: bool)
    ensures
        ({
            let (s, flag, c) = toggle_build_spec(*old(state), old(flags).inventory_open, b_pressed, escape_pressed, default_building);
            &&& *final(state) == s
            &&& cleanup == c
            &&& final(flags).build_mode_active == (match flag { Some(v) => v, None => old(flags).build_mode_active })
        }),
        *final(flags) == (InputFlags { build_mode_active: final(flags).build_mode_active, ..*old(flags) }),
{
    if flags.inventory_open {
        return false;
    }
    let mut s: BuildModeState = *state;
    let mut flag: Option<bool> = None;
    let mut cleanup = false;
    if b_pressed {
        s.active = !s.active;
        flag = Some(s.active);
        if s.active {
            if s.selected_building.is_none() {
                s.selected_building = Some(default_building);
            }
        } else {
            cleanup = true;
        }
    }
    if s.active && escape_pressed {
        s.active = false;
        flag = Some(false);
        cleanup = true;
    }
    *state = s;
    if let Some(v) = flag {
        flags.build_mode_active = v;
    }
    cleanup
}

/// The selection after the number keys (key `i + 1` picks the `i`-th
/// building, for the first nine) and then the pressed buttons, each later
/// choice overriding an earlier one.
pub open spec fn selection_spec(selected: Option<BuildingType>, buildings: Seq<BuildingType>, digits: Seq<bool>, buttons: Seq<(Interaction, BuildingType)>) -> Option<BuildingType> {
    let by_keys = keys_selection(selected, buildings, digits, buildings.len() as int);
    buttons_selection(by_keys, buttons)
}

/// The selection after the number keys for the first `n` buildings.
pub open spec fn keys_selection(selected: Option<BuildingType>, buildings: Seq<BuildingType>, digits: Seq<bool>, n: int) -> Option<BuildingType>
    decreases n,
{
    if n <= 0 {
        selected
    } else {
        let prev = keys_selection(selected, buildings, digits, n - 1);
        let i = n - 1;
        if i < 9 && i < digits.len() && digits[i] { Some(buildings[i]) } else { prev }
    }
}

/// The selection after the pressed buttons.
pub open spec fn buttons_selection(selected: Option<BuildingType>, buttons: Seq<(Interaction, BuildingType)>) -> Option<BuildingType>
    decreases buttons.len(),
{
    if buttons.len() == 0 {
        selected
    } else {
        let prev = buttons_selection(selected, buttons.drop_last());
        let (interaction, b) = buttons.last();
        if interaction == Interaction::Pressed { Some(b) } else { prev }
    }
}

/// Handles choosing a building with the number keys (`digits[k]` for key
/// `k + 1`) or the panel's buttons; only in build mode.
pub fn handle_building_selection(state: &mut BuildModeState, buildings: &Vec<BuildingType>, digits: &Vec<bool>, buttons: &Vec<(Interaction, BuildingType)>)
    ensures
        !old(state).active ==> *final(state) == *old(state),
        old(state).active ==> *final(state) == (BuildModeState {
            selected_building: selection_spec(old(state).selected_building, buildings@, digits@, buttons@),
            ..*old(state)
        }),
{
    if !state.active {
        return;
    }
    let mut i: usize = 0;
    while i < buildings.len()
        invariant
            0 <= i <= buildings.len(),
            *state == (BuildModeState { selected_building: keys_selection(old(state).selected_building, buildings@, digits@, i as int), ..*old(state) }),
        decreases buildings.len() - i,
    {
        if i < 9 && i < digits.len() && digits[i] {
            state.selected_building = Some(buildings[i]);
        }
        i += 1;
    }
    let ghost by_keys = state.selected_building;
    let mut j: usize = 0;
    while j < buttons.len()
        invariant
            0 <= j <= buttons.len(),
            *state == (BuildModeState { selected_building: buttons_selection(by_keys, buttons@.take(j as int)), ..*old(state) }),
        decreases buttons.len() - j,
    {
        proof {
            assert(buttons@.take(j + 1).drop_last() =~= buttons@.take(j as int));
        }
        let (interaction, b) = buttons[j];
        if interaction == Interaction::Pressed {
            state.selected_building = Some(b);
        }
        j += 1;
    }
    assert(buttons@.take(buttons.len() as int) =~= buttons@);
}

/// With the inventory closed: B enters build mode when it is off (choosing
/// the default building if none is selected yet, keeping a selection
/// otherwise) and leaves it when it is on, cleaning up the previews; Escape
/// leaves build mode; the input flag follows. With the inventory open
/// nothing changes.
pub proof fn lemma_b_and_escape_switch_build_mode(s: BuildModeState, inventory_open: bool, b_pressed: bool, escape_pressed: bool, default_building: BuildingType)
    ensures
        ({
            let (s1, flag, cleanup) = toggle_build_spec(s, inventory_open, b_pressed, escape_pressed, default_building);
            &&& inventory_open ==> s1 == s && flag is None && !cleanup
            &&& !inventory_open && b_pressed && !s.active && !escape_pressed ==> {
                &&& s1.active
                &&& flag == Some(true)
                &&& !cleanup
                &&& s1.selected_building == (if s.selected_building is None { Some(default_building) } else { s.selected_building })
            }
            &&& !inventory_open && b_pressed && s.active ==> !s1.active && flag == Some(false) && cleanup
            &&& !inventory_open && escape_pressed ==> !s1.active
            &&& !inventory_open && escape_pressed && s.active && !b_pressed ==> flag == Some(false) && cleanup
            &&& !inventory_open && !b_pressed && !escape_pressed ==> s1 == s && flag is None && !cleanup
            &&& s1.rotation_quarters == s.rotation_quarters
        }),
{
}

proof fn lemma_later_keys_unpressed(selected: Option<BuildingType>, buildings: Seq<BuildingType>, digits: Seq<bool>, k: int, n: int)
    requires
        0 <= k < n,
        k < 9,
        k < digits.len(),
        k < buildings.len(),
        digits[k],
        forall|j: int| k < j < n && j < 9 && j < digits.len() ==> !digits[j],
    ensures
        keys_selection(selected, buildings, digits, n) == Some(buildings[k]),
    decreases n,
{
    if n - 1 > k {
        lemma_later_keys_unpressed(selected, buildings, digits, k, n - 1);
    }
}

/// In build mode, number key `k + 1` (one of the first nine) chooses the
/// `k`-th building when no later number key is pressed and no panel button
/// is pressed; a pressed panel button chooses its building over any key, the
/// last one pressed winning; with nothing pressed the selection stays.
pub proof fn lemma_keys_and_buttons_choose_building(selected: Option<BuildingType>, buildings: Seq<BuildingType>, digits: Seq<bool>, buttons: Seq<(Interaction, BuildingType)>, k: int)
    ensures
        0 <= k < 9 && k < digits.len() && k < buildings.len() && digits[k]
            && (forall|j: int| k < j < 9 && j < digits.len() ==> !digits[j])
            && (forall|i: int| 0 <= i < buttons.len() ==> (#[trigger] buttons[i]).0 != Interaction::Pressed)
            ==> selection_spec(selected, buildings, digits, buttons) == Some(buildings[k]),
        buttons.len() > 0 && buttons.last().0 == Interaction::Pressed
            ==> selection_spec(selected, buildings, digits, buttons) == Some(buttons.last().1),
        (forall|j: int| 0 <= j < digits.len() ==> !(#[trigger] digits[j]))
            && (forall|i: int| 0 <= i < buttons.len() ==> (#[trigger] buttons[i]).0 != Interaction::Pressed)
            ==> selection_spec(selected, buildings, digits, buttons) == selected,
{
    lemma_no_button_keeps(keys_selection(selected, buildings, digits, buildings.len() as int), buttons);
    if 0 <= k < 9 && k < digits.len() && k < buildings.len() && digits[k]
        && (forall|j: int| k < j < 9 && j < digits.len() ==> !digits[j]) {
        lemma_later_keys_unpressed(selected, buildings, digits, k, buildings.len() as int);
    }
    if forall|j: int| 0 <= j < digits.len() ==> !(#[trigger] digits[j]) {
        lemma_no_key_keeps(selected, buildings, digits, buildings.len() as int);
    }
}

proof fn lemma_no_button_keeps(selected: Option<BuildingType>, buttons: Seq<(Interaction, BuildingType)>)
    ensures
        (forall|i: int| 0 <= i < buttons.len() ==> (#[trigger] buttons[i]).0 != Interaction::Pressed)
            ==> buttons_selection(selected, buttons) == selected,
    decreases buttons.len(),
{
    if buttons.len() > 0 {
        lemma_no_button_keeps(selected, buttons.drop_last());
        if forall|i: int| 0 <= i < buttons.len() ==> (#[trigger] buttons[i]).0 != Interaction::Pressed {
            assert forall|i: int| 0 <= i < buttons.drop_last().len() implies (#[trigger] buttons.drop_last()[i]).0 != Interaction::Pressed by {
                assert(buttons.drop_last()[i] == buttons[i]);
            }
            assert(buttons.last() == buttons[buttons.len() - 1]);
        }
    }
}

proof fn lemma_no_key_keeps(selected: Option<BuildingType>, buildings: Seq<BuildingType>, digits: Seq<bool>, n: int)
    requires
        forall|j: int| 0 <= j < digits.len() ==> !(#[trigger] digits[j]),
    ensures
        keys_selection(selected, buildings, digits, n) == selected,
    decreases n,
{
    if n > 0 {
        lemma_no_key_keeps(selected, buildings, digits, n - 1);
    }
}

/// The rotation a quarter turn further, wrapping after a full turn.
pub open spec fn quarter_turn(q: u8) -> u8 {
    ((q + 1) % 4) as u8
}

/// R turns the preview a quarter turn (in build mode).
pub fn handle_rotation_input(state: &mut BuildModeState, r_pressed: bool)
    requires
        old(state).rotation_quarters < 4,
    ensures
        final(state).rotation_quarters < 4,
        *final(state) == (if old(state).active && r_pressed {
            BuildModeState { rotation_quarters: quarter_turn(old(state).rotation_quarters), ..*old(state) }
        } else {
            *old(state)
        }),
{
    if !state.active {
        return;
    }
    if r_pressed {
        state.rotation_quarters = (state.rotation_quarters + 1) % 4;
    }
}

/// A quarter turn goes one step forward: 0 to 1, 1 to 2, 2 to 3, and 3
/// back to 0.
pub proof fn lemma_quarter_turn_steps_forward(q: u8)
    requires
        q < 4,
    ensures
        q < 3 ==> quarter_turn(q) == q + 1,
        q == 3 ==> quarter_turn(q) == 0,
{
}

/// Four quarter turns bring the preview back to where it started.
pub proof fn lemma_four_turns_restore(q: u8)
    requires
        q < 4,
    ensures
        quarter_turn(quarter_turn(quarter_turn(quarter_turn(q)))) == q,
{
}

/// What the placement preview does this frame.
#[derive(Debug)]
pub enum PreviewPlan {
    /// Build mode is off: hide the previews.
    Hide,
    /// No building is selected: leave everything.
    Unchanged,
    /// The view hits no ground within reach.
    OutOfReach { reason: String },
    /// The preview stands on the ground.
    OnGround {
        invalid_reason: Option<String>,
        /// The selected building changed: remove the old model preview.
        despawn_old_model: bool,
        /// Spawn a model preview (the building has a model and none stands for it).
        spawn_model: bool,
        /// Show the footprint box (only for buildings without a model).
        ghost_visible: bool,
    },
}

/// Updates the placement preview from what the caller found: whether the
/// view ray hits the ground within 50 m, whether the player can afford the
/// selected building, whether it has a model, and whether a model preview
/// exists. A spot may take the building when it is reached and affordable.
pub fn update_placement_preview(state: &mut BuildModeState, ground_hit: bool, can_afford: bool, has_model: bool, model_preview_exists: bool) -> (plan: PreviewPlan)
    ensures
        !old(state).active ==> *final(state) == *old(state) && plan is Hide,
        old(state).active && old(state).selected_building is None ==> *final(state) == *old(state) && plan is Unchanged,
        old(state).active && old(state).selected_building is Some && !ground_hit ==> {
            &&& *final(state) == (BuildModeState { can_place: false, ..*old(state) })
            &&& plan matches PreviewPlan::OutOfReach { reason } && reason@ == "Too far away"@
        },
        old(state).active && old(state).selected_building is Some && ground_hit ==> {
            let b = old(state).selected_building->0;
            let changed = old(state).previewed_building_type != Some(b);
            &&& *final(state) == (BuildModeState { can_place: can_afford, previewed_building_type: Some(b), ..*old(state) })
            &&& plan matches PreviewPlan::OnGround { invalid_reason, despawn_old_model, spawn_model, ghost_visible } && {
                &&& (can_afford ==> invalid_reason is None)
                &&& (!can_afford ==> (invalid_reason matches Some(r) && r@ == "Not enough resources"@))
                &&& despawn_old_model == changed
                &&& spawn_model == (has_model && (!model_preview_exists || changed))
                &&& ghost_visible == !has_model
            }
        },
{
    if !state.active {
        return PreviewPlan::Hide;
    }
    let b = match state.selected_building {
        Some(b) => b,
        None => return PreviewPlan::Unchanged,
    };
    if !ground_hit {
        state.can_place = false;
        return PreviewPlan::OutOfReach { reason: String::from_str("Too far away") };
    }
    let invalid_reason = if can_afford { None } else { Some(String::from_str("Not enough resources")) };
    state.can_place = can_afford;
    let changed = match state.previewed_building_type {
        Some(p) => p != b,
        None => true,
    };
    if changed {
        state.previewed_building_type = Some(b);
    }
    PreviewPlan::OnGround {
        invalid_reason,
        despawn_old_model: changed,
        spawn_model: has_model && (!model_preview_exists || changed),
        ghost_visible: !has_model,
    }
}

/// A request to place a building (the caller adds the preview's position).
#[derive(Clone, Copy, Debug, PartialEq, Eq, Structural)]
pub struct PlaceRequest {
    pub building: BuildingType,
    pub rotation_quarters: u8,
}

/// A click places the selected building where the preview stands, when build
/// mode is on, the spot is valid and a preview position exists.
pub fn handle_place_building(state: &BuildModeState, left_just_pressed: bool, has_preview_position: bool) -> (r: Option<PlaceRequest>)
    ensures
        r == (if state.active && state.can_place && left_just_pressed && has_preview_position && state.selected_building is Some {
            Some(PlaceRequest { building: state.selected_building->0, rotation_quarters: state.rotation_quarters })
        } else {
            None::<PlaceRequest>
        }),
{
    if !state.active || !state.can_place {
        return None;
    }
    if !left_just_pressed {
        return None;
    }
    match state.selected_building {
        None => None,
        Some(b) => {
            if !has_preview_position {
                return None;
            }
            Some(PlaceRequest { building: b, rotation_quarters: state.rotation_quarters })
        },
    }
}

/// Leaving the game turns build mode off and forgets the selection and the
/// previewed building.
pub fn cleanup_build_mode(state: &mut BuildModeState)
    ensures
        !final(state).active && final(state).selected_building is None,
        final(state).previewed_building_type is None,
        final(state).rotation_quarters == old(state).rotation_quarters,
        final(state).can_place == old(state).can_place,
{
    state.active = false;
    state.selected_building = None;
    state.previewed_building_type = None;
}

/// What to do with the build panel this frame.
#[derive(Clone, Copy, Debug, PartialEq, Eq, Structural)]
pub enum PanelAction {
    Despawn,
    Spawn,
    Keep,
}

/// The panel shows only in build mode, and is built once.
pub fn build_panel_action(active: bool, panels: usize) -> (a: PanelAction)
    ensures
        a == (if !active { PanelAction::Despawn } else if panels > 0 { PanelAction::Keep } else { PanelAction::Spawn }),
{
    if !active {
        PanelAction::Despawn
    } else if panels > 0 {
        PanelAction::Keep
    } else {
        PanelAction::Spawn
    }
}

/// One cost of a building: the item's name, how many the player has, how many it takes.
#[derive(Debug)]
pub struct CostItem {
    pub item_name: String,
    pub have: u32,
    pub required: u32,
}

/// The building's label: `[n] name`.
pub open spec fn building_label_spec(index: nat, name: Seq<char>) -> Seq<char> {
    "["@ + decimal_chars(index + 1) + "] "@ + name
}

/// A cost as `name: have/required`.
pub open spec fn cost_text_spec(c: CostItem) -> Seq<char> {
    c.item_name@ + ": "@ + decimal_chars(c.have as nat) + "/"@ + decimal_chars(c.required as nat)
}

/// The costs joined by `, `.
pub open spec fn cost_line_spec(costs: Seq<CostItem>) -> Seq<char>
    decreases costs.len(),
{
    if costs.len() == 0 {
        Seq::empty()
    } else if costs.len() == 1 {
        cost_text_spec(costs[0])
    } else {
        cost_line_spec(costs.drop_last()) + ", "@ + cost_text_spec(costs.last())
    }
}

/// Whether the player has every item the building takes.
pub open spec fn affordable(costs: Seq<CostItem>) -> bool {
    forall|k: int| 0 <= k < costs.len() ==> costs[k].have >= costs[k].required
}

/// The label of the `index`-th building of the panel.
pub fn building_label(index: usize, name: &str) -> (r: String)
    requires
        index < u64::MAX,
    ensures
        r@ == building_label_spec(index as nat, name@),
{
    let mut r = String::from_str("[");
    push_decimal(&mut r, index as u64 + 1);
    r.append("] ");
    r.append(name);
    r
}

/// A building's cost line and whether the player can afford it; without an
/// inventory (`have_inventory` false) nothing is affordable.
pub fn building_costs(costs: &Vec<CostItem>, have_inventory: bool) -> (r: (String, bool))
    ensures
        r.0@ == cost_line_spec(costs@),
        r.1 == (have_inventory && affordable(costs@)),
{
    let mut line = String::new();
    let mut ok = true;
    let mut i: usize = 0;
    while i < costs.len()
        invariant
            0 <= i <= costs.len(),
            line@ == cost_line_spec(costs@.take(i as int)),
            ok == affordable(costs@.take(i as int)),
        decreases costs.len() - i,
    {
        proof {
            assert(costs@.take(i + 1).drop_last() =~= costs@.take(i as int));
        }
        let c = &costs[i];
        if i > 0 {
            line.append(", ");
        }
        let start = line.clone();
        line.append(c.item_name.as_str());
        line.append(": ");
        push_decimal(&mut line, c.have as u64);
        line.append("/");
        push_decimal(&mut line, c.required as u64);
        proof {
            assert(line@ =~= start@ + cost_text_spec(costs@[i as int]));
            if i == 0 {
                assert(costs@.take(1) =~= seq![costs@[0]]);
            }
            if !(c.have >= c.required) {
                assert(costs@.take(i + 1)[i as int] == costs@[i as int]);
            }
            if ok && c.have >= c.required {
                assert forall|k: int| 0 <= k < i + 1 implies #[trigger] costs@.take(i + 1)[k].have >= costs@.take(i + 1)[k].required by {
                    if k < i {
                        assert(costs@.take(i + 1)[k] == costs@.take(i as int)[k]);
                    }
                }
            }
            if !ok {
                let w = choose|k: int| 0 <= k < i && !(costs@.take(i as int)[k].have >= costs@.take(i as int)[k].required);
                assert(costs@.take(i + 1)[w] == costs@.take(i as int)[w]);
            }
        }
        if c.have < c.required {
            ok = false;
        }
        i += 1;
    }
    assert(costs@.take(costs.len() as int) =~= costs@);
    (line, have_inventory && ok)
}

/// The warning shown when the spot is invalid: `⚠ reason`.
pub fn invalid_reason_text(reason: &str) -> (r: String)
    ensures
        r@ == "⚠ "@ + reason@,
{
    let mut r = String::from_str("⚠ ");
    r.append(reason);
    r
}

/// The placed buildings that have no visual yet (`visual_targets` are the
/// building entities that visuals show).
pub fn spawn_building_visuals(buildings: &Vec<u64>, visual_targets: &Vec<u64>) -> (fresh: Vec<u64>)
    ensures
        fresh@ == missing_visuals_spec(buildings@, visual_targets@),
{
    missing_visuals(buildings, visual_targets)
}

/// The visuals whose building is gone: `visuals` pairs each visual entity
/// with the building entity it shows.
pub fn cleanup_building_visuals(visuals: &Vec<(u64, u64)>, buildings: &Vec<u64>) -> (stale: Vec<u64>)
    ensures
        stale@ == orphaned_visuals_spec(visuals@, buildings@),
{
    orphaned_visuals(visuals, buildings)
}


/// Escape always leaves build mode (unless the inventory holds the keys),
/// and B pressed twice restores whether build mode is on.
pub proof fn lemma_build_mode_toggles(s: BuildModeState, d: BuildingType)
    ensures
        !toggle_build_spec(s, false, false, true, d).0.active,
        !toggle_build_spec(s, false, true, true, d).0.active,
        toggle_build_spec(toggle_build_spec(s, false, true, false, d).0, false, true, false, d).0.active == s.active,
        toggle_build_spec(s, true, true, true, d).0 == s,
{
}

} // verus!
