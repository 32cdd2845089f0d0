//! The in-game pause menu: its buttons and the graphics settings panel.

use vstd::prelude::*;
use crate::game_state::GameState;
use crate::main_menu::Interaction;

verus! {

broadcast use vstd::seq_lib::group_seq_properties;

/// The graphics features the player can switch on and off.
#[derive(Clone, Copy, Debug, PartialEq, Eq, Structural)]
pub struct GraphicsSettings {
    pub bloom_enabled: bool,
    pub shadows_enabled: bool,
    pub atmosphere_enabled: bool,
    pub moonlight_enabled: bool,
}

/// A toggle of the graphics panel.
#[derive(Clone, Copy, Debug, PartialEq, Eq, Structural)]
pub enum GraphicsToggle {
    Bloom,
    Shadows,
    Atmosphere,
    Moonlight,
}

/// A button of the pause menu.
#[derive(Clone, Copy, Debug, PartialEq, Eq, Structural)]
pub enum PauseButton {
    Resume,
    Graphics,
    Disconnect,
    Exit,
}

/// Whether the graphics panel is open (its slide animation is the app's).
#[derive(Clone, Copy, Debug, PartialEq, Eq, Structural)]
pub struct PauseMenuState {
    pub graphics_open: bool,
}

/// What the pause menu buttons ask for this frame.
#[derive(Clone, Copy, Debug, PartialEq, Eq, Structural)]
pub struct PauseOutcome {
    pub next_state: Option<GameState>,
    /// The client should disconnect from the server.
    pub disconnect: bool,
    pub exit: bool,
}

/// Whether a toggle's feature is on.
pub open spec fn setting_enabled_spec(s: GraphicsSettings, t: GraphicsToggle) -> bool {
    match t {
        GraphicsToggle::Bloom => s.bloom_enabled,
        GraphicsToggle::Shadows => s.shadows_enabled,
        GraphicsToggle::Atmosphere => s.atmosphere_enabled,
        GraphicsToggle::Moonlight => s.moonlight_enabled,
    }
}

/// Whether a toggle's feature is on (it colours the toggle green or red).
pub fn setting_enabled(s: &GraphicsSettings, t: GraphicsToggle) -> (r: bool)
    ensures
        r == setting_enabled_spec(*s, t),
{
    match t {
        GraphicsToggle::Bloom => s.bloom_enabled,
        GraphicsToggle::Shadows => s.shadows_enabled,
        GraphicsToggle::Atmosphere => s.atmosphere_enabled,
        GraphicsToggle::Moonlight => s.moonlight_enabled,
    }
}

/// The settings with one feature switched.
pub open spec fn flip_setting(s: GraphicsSettings, t: GraphicsToggle) -> GraphicsSettings {
    match t {
        GraphicsToggle::Bloom => GraphicsSettings { bloom_enabled: !s.bloom_enabled, ..s },
        GraphicsToggle::Shadows => GraphicsSettings { shadows_enabled: !s.shadows_enabled, ..s },
        GraphicsToggle::Atmosphere => GraphicsSettings { atmosphere_enabled: !s.atmosphere_enabled, ..s },
        GraphicsToggle::Moonlight => GraphicsSettings { moonlight_enabled: !s.moonlight_enabled, ..s },
    }
}

/// The settings after the pressed toggles, in order.
pub open spec fn toggles_spec(s: GraphicsSettings, changed: Seq<(Interaction, GraphicsToggle)>) -> GraphicsSettings
    decreases changed.len(),
{
    if changed.len() == 0 {
        s
    } else {
        let s1 = toggles_spec(s, changed.drop_last());
        let (interaction, t) = changed.last();
        if interaction == Interaction::Pressed { flip_setting(s1, t) } else { s1 }
    }
}

/// The label a toggle shows.
pub open spec fn toggle_label_spec(enabled: bool) -> Seq<char> {
    if enabled { "ON"@ } else { "OFF"@ }
}

/// The label a toggle shows.
pub fn toggle_label(enabled: bool) -> (r: String)
    ensures
        r@ == toggle_label_spec(enabled),
{
    if enabled { String::from_str("ON") } else { String::from_str("OFF") }
}

/// The new value of each pressed toggle, in the order of the presses.
pub open spec fn toggle_updates_spec(s: GraphicsSettings, changed: Seq<(Interaction, GraphicsToggle)>) -> Seq<(GraphicsToggle, bool)>
    decreases changed.len(),
{
    if changed.len() == 0 {
        Seq::empty()
    } else {
        let u = toggle_updates_spec(s, changed.drop_last());
        let s1 = toggles_spec(s, changed.drop_last());
        let (interaction, t) = changed.last();
        if interaction == Interaction::Pressed {
            u.push((t, setting_enabled_spec(flip_setting(s1, t), t)))
        } else {
            u
        }
    }
}

/// Handles presses of the graphics toggles: each press switches its feature.
/// Returns, for each press in order, the toggle and its new value (the app
/// updates that toggle's label and colour).
pub fn handle_graphics_toggles(changed: &Vec<(Interaction, GraphicsToggle)>, settings: &mut GraphicsSettings) -> (updates: Vec<(GraphicsToggle, bool)>)
    ensures
        *final(settings) == toggles_spec(*old(settings), changed@),
        updates@ == toggle_updates_spec(*old(settings), changed@),
{
    let mut updates: Vec<(GraphicsToggle, bool)> = Vec::new();
    let mut i: usize = 0;
    while i < changed.len()
        invariant
            0 <= i <= changed.len(),
            *settings == toggles_spec(*old(settings), changed@.take(i as int)),
            updates@ == toggle_updates_spec(*old(settings), changed@.take(i as int)),
        decreases changed.len() - i,
    {
        proof {
            assert(changed@.take(i + 1).drop_last() =~= changed@.take(i as int));
        }
        let (interaction, t) = changed[i];
        if interaction == Interaction::Pressed {
            match t {
                GraphicsToggle::Bloom => { settings.bloom_enabled = !settings.bloom_enabled; },
                GraphicsToggle::Shadows => { settings.shadows_enabled = !settings.shadows_enabled; },
                GraphicsToggle::Atmosphere => { settings.atmosphere_enabled = !settings.atmosphere_enabled; },
                GraphicsToggle::Moonlight => { settings.moonlight_enabled = !settings.moonlight_enabled; },
            }
            let v = setting_enabled(settings, t);
            updates.push((t, v));
        }
        i += 1;
    }
    assert(changed@.take(changed.len() as int) =~= changed@);
    updates
}

/// The outcome of the pause menu buttons pressed in order: Resume returns to
/// play, Graphics opens or closes the panel, Disconnect leaves for the main
/// menu, Exit quits.
pub open spec fn pause_actions_spec(graphics_open: bool, changed: Seq<(Interaction, PauseButton)>) -> (PauseOutcome, bool)
    decreases changed.len(),
{
    if changed.len() == 0 {
        (PauseOutcome { next_state: None, disconnect: false, exit: false }, graphics_open)
    } else {
        let (o, g) = pause_actions_spec(graphics_open, changed.drop_last());
        let (interaction, button) = changed.last();
        if interaction == Interaction::Pressed {
            match button {
                PauseButton::Resume => (PauseOutcome { next_state: Some(GameState::Playing), ..o }, g),
                PauseButton::Graphics => (o, !g),
                PauseButton::Disconnect => (PauseOutcome { next_state: Some(GameState::MainMenu), disconnect: true, ..o }, g),
                PauseButton::Exit => (PauseOutcome { exit: true, ..o }, g),
            }
        } else {
            (o, g)
        }
    }
}

/// Handles presses of the pause menu buttons.
pub fn handle_pause_actions(changed: &Vec<(Interaction, PauseButton)>, menu: &mut PauseMenuState) -> (o: PauseOutcome)
    ensures
        (o, final(menu).graphics_open) == pause_actions_spec(old(menu).graphics_open, changed@),
{
    let mut o = PauseOutcome { next_state: None, disconnect: false, exit: false };
    let mut i: usize = 0;
    while i < changed.len()
        invariant
            0 <= i <= changed.len(),
            (o, menu.graphics_open) == pause_actions_spec(old(menu).graphics_open, changed@.take(i as int)),
        decreases changed.len() - i,
    {
        proof {
            assert(changed@.take(i + 1).drop_last() =~= changed@.take(i as int));
        }
        let (interaction, button) = changed[i];
        if interaction == Interaction::Pressed {
            match button {
                PauseButton::Resume => {
                    o = PauseOutcome { next_state: Some(GameState::Playing), ..o };
                },
                PauseButton::Graphics => {
                    menu.graphics_open = !menu.graphics_open;
                },
                PauseButton::Disconnect => {
                    o = PauseOutcome { next_state: Some(GameState::MainMenu), disconnect: true, ..o };
                },
                PauseButton::Exit => {
                    o = PauseOutcome { exit: true, ..o };
                },
            }
        }
        i += 1;
    }
    assert(changed@.take(changed.len() as int) =~= changed@);
    o
}

/// Leaving the pause menu closes the graphics panel.
pub fn reset_menu_state(menu: &mut PauseMenuState)
    ensures
        !final(menu).graphics_open,
{
    menu.graphics_open = false;
}

/// Pressing the same graphics toggle twice restores every setting.
pub proof fn lemma_toggle_twice_restores(s: GraphicsSettings, t: GraphicsToggle)
    ensures
        toggles_spec(s, seq![(Interaction::Pressed, t), (Interaction::Pressed, t)]) == s,
        flip_setting(flip_setting(s, t), t) == s,
{
    let c = seq![(Interaction::Pressed, t), (Interaction::Pressed, t)];
    let c1 = seq![(Interaction::Pressed, t)];
    assert(c.drop_last() =~= c1);
    assert(c1.drop_last() =~= Seq::<(Interaction, GraphicsToggle)>::empty());
    assert(toggles_spec(s, c1.drop_last()) == s);
    assert(toggles_spec(s, c1) == flip_setting(s, t));
    assert(toggles_spec(s, c) == flip_setting(flip_setting(s, t), t));
}

/// A toggle switches its own feature and no other.
pub proof fn lemma_toggle_switches_only_its_feature(s: GraphicsSettings, t: GraphicsToggle, u: GraphicsToggle)
    ensures
        setting_enabled_spec(flip_setting(s, t), u) == (if u == t { !setting_enabled_spec(s, u) } else { setting_enabled_spec(s, u) }),
{
}

/// Each toggle switches its own feature: Bloom the bloom, Shadows the
/// shadows, Atmosphere the atmosphere, Moonlight the moonlight; pressing
/// one reports the feature's new value; a toggle that is only hovered
/// changes nothing. The label reads ON for an enabled feature, OFF otherwise.
pub proof fn lemma_each_toggle_switches_its_feature(s: GraphicsSettings, t: GraphicsToggle)
    ensures
        setting_enabled_spec(s, GraphicsToggle::Bloom) == s.bloom_enabled,
        setting_enabled_spec(s, GraphicsToggle::Shadows) == s.shadows_enabled,
        setting_enabled_spec(s, GraphicsToggle::Atmosphere) == s.atmosphere_enabled,
        setting_enabled_spec(s, GraphicsToggle::Moonlight) == s.moonlight_enabled,
        toggles_spec(s, seq![(Interaction::Pressed, GraphicsToggle::Bloom)]) == (GraphicsSettings { bloom_enabled: !s.bloom_enabled, ..s }),
        toggles_spec(s, seq![(Interaction::Pressed, GraphicsToggle::Shadows)]) == (GraphicsSettings { shadows_enabled: !s.shadows_enabled, ..s }),
        toggles_spec(s, seq![(Interaction::Pressed, GraphicsToggle::Atmosphere)]) == (GraphicsSettings { atmosphere_enabled: !s.atmosphere_enabled, ..s }),
        toggles_spec(s, seq![(Interaction::Pressed, GraphicsToggle::Moonlight)]) == (GraphicsSettings { moonlight_enabled: !s.moonlight_enabled, ..s }),
        toggle_updates_spec(s, seq![(Interaction::Pressed, t)]) == seq![(t, !setting_enabled_spec(s, t))],
        toggles_spec(s, seq![(Interaction::Hovered, t)]) == s,
        toggle_updates_spec(s, seq![(Interaction::Hovered, t)]).len() == 0,
        toggle_label_spec(true) == "ON"@,
        toggle_label_spec(false) == "OFF"@,
{
    let e = Seq::<(Interaction, GraphicsToggle)>::empty();
    assert(seq![(Interaction::Pressed, t)].drop_last() =~= e);
    assert(seq![(Interaction::Hovered, t)].drop_last() =~= e);
    assert(seq![(Interaction::Pressed, GraphicsToggle::Bloom)].drop_last() =~= e);
    assert(seq![(Interaction::Pressed, GraphicsToggle::Shadows)].drop_last() =~= e);
    assert(seq![(Interaction::Pressed, GraphicsToggle::Atmosphere)].drop_last() =~= e);
    assert(seq![(Interaction::Pressed, GraphicsToggle::Moonlight)].drop_last() =~= e);
    let k = seq![(Interaction::Pressed, t)];
    assert(k.last() == (Interaction::Pressed, t));
    assert(toggle_updates_spec(s, e).len() == 0);
    assert(toggles_spec(s, e) == s);
    lemma_toggle_switches_only_its_feature(s, t, t);
    assert(toggle_updates_spec(s, k) == toggle_updates_spec(s, e).push((t, setting_enabled_spec(flip_setting(s, t), t))));
    assert(toggle_updates_spec(s, k) =~= seq![(t, !setting_enabled_spec(s, t))]);
}

/// One press of a pause button: Resume returns to play, Disconnect
/// disconnects and returns to the main menu, Exit quits, and Graphics opens
/// or closes the panel without leaving the menu.
pub proof fn lemma_pause_buttons(graphics_open: bool)
    ensures
        ({
            let (o, g) = pause_actions_spec(graphics_open, seq![(Interaction::Pressed, PauseButton::Resume)]);
            o.next_state == Some(GameState::Playing) && !o.disconnect && !o.exit && g == graphics_open
        }),
        ({
            let (o, g) = pause_actions_spec(graphics_open, seq![(Interaction::Pressed, PauseButton::Disconnect)]);
            o.next_state == Some(GameState::MainMenu) && o.disconnect && !o.exit && g == graphics_open
        }),
        ({
            let (o, g) = pause_actions_spec(graphics_open, seq![(Interaction::Pressed, PauseButton::Exit)]);
            o.next_state is None && !o.disconnect && o.exit && g == graphics_open
        }),
        ({
            let (o, g) = pause_actions_spec(graphics_open, seq![(Interaction::Pressed, PauseButton::Graphics)]);
            o.next_state is None && !o.disconnect && !o.exit && g == !graphics_open
        }),
        forall|b: PauseButton| #[trigger] pause_actions_spec(graphics_open, seq![(Interaction::Hovered, b)])
            == ((PauseOutcome { next_state: None, disconnect: false, exit: false }), graphics_open),
{
    let e = Seq::<(Interaction, PauseButton)>::empty();
    let none = PauseOutcome { next_state: None, disconnect: false, exit: false };
    assert(pause_actions_spec(graphics_open, e) == (none, graphics_open));
    assert forall|i: Interaction, b: PauseButton| #[trigger] pause_actions_spec(graphics_open, seq![(i, b)])
        == (if i == Interaction::Pressed {
            match b {
                PauseButton::Resume => (PauseOutcome { next_state: Some(GameState::Playing), ..none }, graphics_open),
                PauseButton::Graphics => (none, !graphics_open),
                PauseButton::Disconnect => (PauseOutcome { next_state: Some(GameState::MainMenu), disconnect: true, ..none }, graphics_open),
                PauseButton::Exit => (PauseOutcome { exit: true, ..none }, graphics_open),
            }
        } else {
            (none, graphics_open)
        }) by {
        let k = seq![(i, b)];
        assert(k.drop_last() =~= e);
        assert(k.last() == (i, b));
    }
    assert(pause_actions_spec(graphics_open, seq![(Interaction::Pressed, PauseButton::Resume)]).0.next_state == Some(GameState::Playing));
    assert(pause_actions_spec(graphics_open, seq![(Interaction::Pressed, PauseButton::Disconnect)]).0.disconnect);
    assert(pause_actions_spec(graphics_open, seq![(Interaction::Pressed, PauseButton::Exit)]).0.exit);
    assert(pause_actions_spec(graphics_open, seq![(Interaction::Pressed, PauseButton::Graphics)]).1 == !graphics_open);
}

} // verus!
