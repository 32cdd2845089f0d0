//! The main menu: server presets, the editable server address, the preset
//! dropdown and the Connect / Exit buttons.

use vstd::prelude::*;
use crate::game_state::GameState;
use crate::text::{string_push, string_pop, utf8_len, lemma_encode_utf8_push, chars_of, decimal_chars, push_decimal};

verus! {

broadcast use vstd::seq_lib::group_seq_properties;

/// How the pointer relates to a button this frame.
#[derive(Clone, Copy, Debug, PartialEq, Eq, Structural)]
pub enum Interaction {
    Pressed,
    Hovered,
    /// Neither pressed nor hovered.
    Idle,
}

/// A server preset from the configuration file.
#[derive(Debug)]
pub struct ServerEntry {
    pub name: String,
    pub ip: String,
}

/// The configuration file: the presets and which one is chosen at start.
#[derive(Debug)]
pub struct ServerConfig {
    pub servers: Vec<ServerEntry>,
    pub default_index: usize,
}

/// The loaded presets and the one currently selected (`None` when the
/// address was edited by hand).
#[derive(Debug)]
pub struct ServerPresets {
    pub entries: Vec<ServerEntry>,
    pub selected_index: Option<usize>,
}

/// The address the client connects to.
#[derive(Debug)]
pub struct ServerAddress {
    pub ip: String,
    pub port: u16,
}

/// Whether the preset dropdown is open.
#[derive(Clone, Copy, Debug, PartialEq, Eq, Structural)]
pub struct DropdownState {
    pub expanded: bool,
}

/// The address used when no preset applies.
pub open spec fn loopback_ip() -> Seq<char> {
    "127.0.0.1"@
}

impl ServerPresets {
    /// No presets and nothing selected.
    pub fn default() -> (p: ServerPresets)
        ensures
            p.entries@.len() == 0,
            p.selected_index is None,
    {
        ServerPresets { entries: Vec::new(), selected_index: None }
    }
}

impl ServerAddress {
    /// The loopback address on the game's port.
    pub fn default(port: u16) -> (a: ServerAddress)
        ensures
            a.ip@ == loopback_ip(),
            a.port == port,
    {
        ServerAddress { ip: String::from_str("127.0.0.1"), port }
    }
}

/// Builds the presets and the starting address from the parsed configuration
/// file (`None` when it could not be read or parsed): the configured default
/// preset is selected and its address used; an out-of-range default still
/// counts as selected but falls back to the loopback address.
pub fn load_server_presets(config: Option<ServerConfig>, port: u16) -> (r: (ServerPresets, ServerAddress))
    ensures
        r.1.port == port,
        match config {
            None => r.0.entries@.len() == 0 && r.0.selected_index is None && r.1.ip@ == loopback_ip(),
            Some(c) => {
                &&& r.0.entries@ == c.servers@
                &&& r.0.selected_index == Some(c.default_index)
                &&& r.1.ip@ == (if c.default_index < c.servers@.len() {
                    c.servers@[c.default_index as int].ip@
                } else {
                    loopback_ip()
                })
            },
        },
{
    match config {
        None => (ServerPresets::default(), ServerAddress::default(port)),
        Some(c) => {
            let ip = if c.default_index < c.servers.len() {
                c.servers[c.default_index].ip.clone()
            } else {
                String::from_str("127.0.0.1")
            };
            let presets = ServerPresets { entries: c.servers, selected_index: Some(c.default_index) };
            (presets, ServerAddress { ip, port })
        },
    }
}

/// A button of the main menu.
#[derive(Clone, Copy, Debug, PartialEq, Eq, Structural)]
pub enum MenuButton {
    Connect,
    Exit,
}

/// What the main menu buttons ask for this frame.
#[derive(Clone, Copy, Debug, PartialEq, Eq, Structural)]
pub struct MenuOutcome {
    pub next_state: Option<GameState>,
    pub exit: bool,
}

/// The outcome of the buttons whose interaction changed, in order: Connect
/// moves to `Connecting`, Exit quits.
pub open spec fn menu_actions_spec(changed: Seq<(Interaction, MenuButton)>) -> MenuOutcome
    decreases changed.len(),
{
    if changed.len() == 0 {
        MenuOutcome { next_state: None, exit: false }
    } else {
        let o = menu_actions_spec(changed.drop_last());
        let (interaction, button) = changed.last();
        if interaction == Interaction::Pressed {
            match button {
                MenuButton::Connect => MenuOutcome { next_state: Some(GameState::Connecting), ..o },
                MenuButton::Exit => MenuOutcome { exit: true, ..o },
            }
        } else {
            o
        }
    }
}

/// Handles presses of the main menu buttons.
pub fn handle_menu_actions(changed: &Vec<(Interaction, MenuButton)>) -> (o: MenuOutcome)
    ensures
        o == menu_actions_spec(changed@),
{
    let mut o = MenuOutcome { next_state: None, exit: false };
    let mut i: usize = 0;
    while i < changed.len()
        invariant
            0 <= i <= changed.len(),
            o == menu_actions_spec(changed@.take(i as int)),
        decreases changed.len() - i,
    {
        proof {
            assert(changed@.take(i + 1).drop_last() =~= changed@.take(i as int));
        }
        let (interaction, button) = changed[i];
        if interaction == Interaction::Pressed {
            match button {
                MenuButton::Connect => {
                    o = MenuOutcome { next_state: Some(GameState::Connecting), ..o };
                },
                MenuButton::Exit => {
                    o = MenuOutcome { exit: true, ..o };
                },
            }
        }
        i += 1;
    }
    assert(changed@.take(changed.len() as int) =~= changed@);
    o
}

/// Clicking the address field focuses it and drops the preset selection;
/// a left click elsewhere unfocuses it. Returns the field's new border
/// highlight when it changes (`true` for the accent border).
pub fn handle_ip_input_focus(field_pressed: bool, left_just_pressed: bool, focused: &mut bool, presets: &mut ServerPresets) -> (highlight: Option<bool>)
    ensures
        field_pressed ==> *final(focused) && final(presets).selected_index is None && highlight == Some(true),
        !field_pressed && left_just_pressed && *old(focused) ==> !*final(focused) && highlight == Some(false),
        !field_pressed && !(left_just_pressed && *old(focused)) ==> *final(focused) == *old(focused) && highlight is None,
        !field_pressed ==> final(presets).selected_index == old(presets).selected_index,
        final(presets).entries@ == old(presets).entries@,
{
    if field_pressed {
        *focused = true;
        presets.selected_index = None;
        return Some(true);
    }
    if left_just_pressed && *focused {
        *focused = false;
        return Some(false);
    }
    None
}

/// A key press seen by the address field.
#[derive(Debug)]
pub enum IpKey {
    Backspace,
    Escape,
    Enter,
    /// The text a key produced.
    Character(String),
    Other,
}

/// The characters an address may hold: ASCII letters and digits, dots and dashes.
pub open spec fn ip_char_allowed(c: char) -> bool {
    ||| ('a' <= c && c <= 'z')
    ||| ('A' <= c && c <= 'Z')
    ||| ('0' <= c && c <= '9')
    ||| c == '.'
    ||| c == '-'
}

/// The longest address, in bytes, that typing extends.
pub const MAX_IP_LEN: usize = 63;

/// The address and focus after one key press. A key's text is typed only when
/// it is one character (one byte, as every allowed character is ASCII).
pub open spec fn ip_key_step(ip: Seq<char>, focused: bool, key: IpKey) -> (Seq<char>, bool) {
    match key {
        IpKey::Backspace => (if ip.len() > 0 { ip.drop_last() } else { ip }, focused),
        IpKey::Escape => (ip, false),
        IpKey::Enter => (ip, false),
        IpKey::Character(s) => {
            if s@.len() == 1 && ip_char_allowed(s@[0]) && utf8_len(ip) < MAX_IP_LEN {
                (ip.push(s@[0]), focused)
            } else {
                (ip, focused)
            }
        },
        IpKey::Other => (ip, focused),
    }
}

/// The address and focus after the key presses in order.
pub open spec fn ip_keys_spec(ip: Seq<char>, focused: bool, keys: Seq<IpKey>) -> (Seq<char>, bool)
    decreases keys.len(),
{
    if keys.len() == 0 {
        (ip, focused)
    } else {
        let (ip1, f1) = ip_keys_spec(ip, focused, keys.drop_last());
        ip_key_step(ip1, f1, keys.last())
    }
}

fn ip_char_allowed_exec(c: char) -> (r: bool)
    ensures
        r == ip_char_allowed(c),
{
    ('a' <= c && c <= 'z') || ('A' <= c && c <= 'Z') || ('0' <= c && c <= '9') || c == '.' || c == '-'
}

/// Handles typing into the address field while it is focused: Backspace
/// deletes, Escape and Enter unfocus, and a single allowed character is
/// appended while the address is under 63 bytes. Nothing happens when the
/// field is not focused.
pub fn handle_ip_keyboard_input(focused: &mut bool, address: &mut ServerAddress, keys: &Vec<IpKey>)
    requires
        utf8_len(old(address).ip@) <= usize::MAX,
    ensures
        !*old(focused) ==> *final(focused) == *old(focused) && final(address).ip@ == old(address).ip@,
        *old(focused) ==> (final(address).ip@, *final(focused)) == ip_keys_spec(old(address).ip@, true, keys@),
        final(address).port == old(address).port,
{
    if !*focused {
        return;
    }
    let mut i: usize = 0;
    while i < keys.len()
        invariant
            0 <= i <= keys.len(),
            (address.ip@, *focused) == ip_keys_spec(old(address).ip@, true, keys@.take(i as int)),
            address.port == old(address).port,
            utf8_len(address.ip@) <= usize::MAX,
        decreases keys.len() - i,
    {
        proof {
            assert(keys@.take(i + 1).drop_last() =~= keys@.take(i as int));
            assert(keys@.take(i + 1).last() == keys@[i as int]);
        }
        match &keys[i] {
            IpKey::Backspace => {
                if !address.ip.as_str().is_empty() {
                    proof {
                        let s = address.ip@;
                        lemma_encode_utf8_push(s.drop_last(), s.last());
                        assert(s.drop_last().push(s.last()) =~= s);
                    }
                    let _ = string_pop(&mut address.ip);
                }
            },
            IpKey::Escape => {
                *focused = false;
            },
            IpKey::Enter => {
                *focused = false;
            },
            IpKey::Character(s) => {
                let v = chars_of(s.as_str());
                if v.len() == 1 {
                    let ch = v[0];
                    if ip_char_allowed_exec(ch) && address.ip.as_str().len() < MAX_IP_LEN {
                        proof {
                            lemma_encode_utf8_push(address.ip@, ch);
                            assert(vstd::utf8::encode_scalar(ch as u32).len() == 1);
                        }
                        string_push(&mut address.ip, ch);
                    }
                }
            },
            IpKey::Other => {},
        }
        i += 1;
    }
    assert(keys@.take(keys.len() as int) =~= keys@);
}

/// The text of the address field: the address (or `_` when empty), a colon,
/// the port, and the cursor bar when it shows.
pub open spec fn ip_display_spec(ip: Seq<char>, port: u16, show_cursor: bool) -> Seq<char> {
    (if ip.len() == 0 { "_"@ } else { ip }) + ":"@ + decimal_chars(port as nat) + (if show_cursor { "│"@ } else { Seq::empty() })
}

/// The address field's text.
pub fn ip_display_text(address: &ServerAddress, show_cursor: bool) -> (r: String)
    ensures
        r@ == ip_display_spec(address.ip@, address.port, show_cursor),
{
    let mut r = if address.ip.as_str().is_empty() {
        String::from_str("_")
    } else {
        address.ip.clone()
    };
    r.append(":");
    push_decimal(&mut r, address.port as u64);
    if show_cursor {
        r.append("│");
    }
    proof {
        if !show_cursor {
            let base = (if address.ip@.len() == 0 { "_"@ } else { address.ip@ }) + ":"@ + decimal_chars(address.port as nat);
            assert(base + Seq::<char>::empty() =~= base);
        }
    }
    r
}

/// Opens or closes the preset dropdown: a press on its toggle flips it; a
/// left click on neither an option nor the toggle closes it. Returns whether
/// the options show.
pub fn handle_dropdown_toggle(toggle_pressed: bool, left_just_pressed: bool, clicking_option: bool, clicking_toggle: bool, state: &mut DropdownState) -> (shown: bool)
    ensures
        ({
            let flipped = if toggle_pressed { !old(state).expanded } else { old(state).expanded };
            final(state).expanded == (flipped && !(left_just_pressed && !clicking_option && !clicking_toggle))
        }),
        shown == final(state).expanded,
{
    if toggle_pressed {
        state.expanded = !state.expanded;
    }
    if left_just_pressed {
        if state.expanded && !clicking_option && !clicking_toggle {
            state.expanded = false;
        }
    }
    state.expanded
}

/// Selecting a preset: each pressed option that names a preset sets the
/// address to its ip, selects it and closes the dropdown.
pub open spec fn dropdown_selection_spec(entries: Seq<ServerEntry>, ip: Seq<char>, selected: Option<usize>, expanded: bool, pressed: Seq<usize>) -> (Seq<char>, Option<usize>, bool)
    decreases pressed.len(),
{
    if pressed.len() == 0 {
        (ip, selected, expanded)
    } else {
        let (ip1, sel1, exp1) = dropdown_selection_spec(entries, ip, selected, expanded, pressed.drop_last());
        let idx = pressed.last();
        if idx < entries.len() {
            (entries[idx as int].ip@, Some(idx), false)
        } else {
            (ip1, sel1, exp1)
        }
    }
}

/// Handles presses on the dropdown's options (the indices of the options pressed this frame).
pub fn handle_dropdown_selection(pressed: &Vec<usize>, address: &mut ServerAddress, presets: &mut ServerPresets, state: &mut DropdownState)
    ensures
        (final(address).ip@, final(presets).selected_index, final(state).expanded)
            == dropdown_selection_spec(old(presets).entries@, old(address).ip@, old(presets).selected_index, old(state).expanded, pressed@),
        final(presets).entries@ == old(presets).entries@,
        final(address).port == old(address).port,
{
    let mut i: usize = 0;
    while i < pressed.len()
        invariant
            0 <= i <= pressed.len(),
            presets.entries@ == old(presets).entries@,
            address.port == old(address).port,
            (address.ip@, presets.selected_index, state.expanded)
                == dropdown_selection_spec(old(presets).entries@, old(address).ip@, old(presets).selected_index, old(state).expanded, pressed@.take(i as int)),
        decreases pressed.len() - i,
    {
        proof {
            assert(pressed@.take(i + 1).drop_last() =~= pressed@.take(i as int));
        }
        let idx = pressed[i];
        if idx < presets.entries.len() {
            address.ip = presets.entries[idx].ip.clone();
            presets.selected_index = Some(idx);
            state.expanded = false;
        }
        i += 1;
    }
    assert(pressed@.take(pressed.len() as int) =~= pressed@);
}

/// The name the dropdown shows: the selected preset's, or "Custom".
pub open spec fn selected_preset_name_spec(entries: Seq<ServerEntry>, selected: Option<usize>) -> Seq<char> {
    match selected {
        Some(i) => if i < entries.len() { entries[i as int].name@ } else { "Custom"@ },
        None => "Custom"@,
    }
}

/// The name the dropdown shows, and for each option index whether it is the
/// selected one (to highlight it).
pub fn update_dropdown_display(presets: &ServerPresets, option_indices: &Vec<usize>) -> (r: (String, Vec<bool>))
    ensures
        r.0@ == selected_preset_name_spec(presets.entries@, presets.selected_index),
        r.1@.len() == option_indices@.len(),
        forall|k: int| 0 <= k < option_indices@.len() ==> r.1@[k] == (presets.selected_index == Some(#[trigger] option_indices@[k])),
{
    let name = match presets.selected_index {
        Some(i) => if i < presets.entries.len() { presets.entries[i].name.clone() } else { String::from_str("Custom") },
        None => String::from_str("Custom"),
    };
    let mut marks: Vec<bool> = Vec::new();
    let mut k: usize = 0;
    while k < option_indices.len()
        invariant
            0 <= k <= option_indices.len(),
            marks@.len() == k,
            forall|j: int| 0 <= j < k ==> marks@[j] == (presets.selected_index == Some(#[trigger] option_indices@[j])),
        decreases option_indices.len() - k,
    {
        let selected = match presets.selected_index {
            Some(s) => s == option_indices[k],
            None => false,
        };
        marks.push(selected);
        k += 1;
    }
    (name, marks)
}


/// Typing never grows an address past 63 bytes, and every character typed
/// into it is allowed.
pub proof fn lemma_ip_typing_bounded(ip: Seq<char>, focused: bool, keys: Seq<IpKey>)
    requires
        utf8_len(ip) <= MAX_IP_LEN,
    ensures
        utf8_len(ip_keys_spec(ip, focused, keys).0) <= MAX_IP_LEN,
    decreases keys.len(),
{
    if keys.len() > 0 {
        lemma_ip_typing_bounded(ip, focused, keys.drop_last());
        let (ip1, f1) = ip_keys_spec(ip, focused, keys.drop_last());
        match keys.last() {
            IpKey::Backspace => {
                if ip1.len() > 0 {
                    lemma_encode_utf8_push(ip1.drop_last(), ip1.last());
                    assert(ip1.drop_last().push(ip1.last()) =~= ip1);
                }
            },
            IpKey::Character(s) => {
                if s@.len() == 1 && ip_char_allowed(s@[0]) && utf8_len(ip1) < MAX_IP_LEN {
                    lemma_encode_utf8_push(ip1, s@[0]);
                    assert(vstd::utf8::encode_scalar(s@[0] as u32).len() == 1);
                }
            },
            _ => {},
        }
    }
}

/// Typing one character into a focused address under 63 bytes appends it
/// exactly when it is an ASCII letter or digit, a dot or a dash (so dotted
/// addresses and host names can be typed); any other character leaves the
/// address as it was. The field stays focused.
pub proof fn lemma_typing_appends_address_characters(ip: Seq<char>, s: String, c: char)
    requires
        s@ == seq![c],
        utf8_len(ip) < MAX_IP_LEN,
    ensures
        ip_keys_spec(ip, true, seq![IpKey::Character(s)]).1,
        ip_keys_spec(ip, true, seq![IpKey::Character(s)]).0 == (if ('a' <= c && c <= 'z') || ('A' <= c && c <= 'Z')
            || ('0' <= c && c <= '9') || c == '.' || c == '-' {
            ip.push(c)
        } else {
            ip
        }),
        c == '.' ==> ip_keys_spec(ip, true, seq![IpKey::Character(s)]).0 == ip.push('.'),
        c == '-' ==> ip_keys_spec(ip, true, seq![IpKey::Character(s)]).0 == ip.push('-'),
{
    let k = seq![IpKey::Character(s)];
    assert(k.drop_last() =~= Seq::<IpKey>::empty());
    assert(ip_keys_spec(ip, true, k.drop_last()) == (ip, true));
    assert(k.last() == IpKey::Character(s));
    assert(ip_keys_spec(ip, true, k) == ip_key_step(ip, true, IpKey::Character(s)));
    assert(s@[0] == c);
}

/// One press of a main menu button: Connect starts connecting, Exit quits;
/// a hovered button does nothing.
pub proof fn lemma_menu_buttons(b: MenuButton, i: Interaction)
    ensures
        menu_actions_spec(seq![(Interaction::Pressed, MenuButton::Connect)]).next_state == Some(GameState::Connecting),
        !menu_actions_spec(seq![(Interaction::Pressed, MenuButton::Connect)]).exit,
        menu_actions_spec(seq![(Interaction::Pressed, MenuButton::Exit)]).exit,
        menu_actions_spec(seq![(Interaction::Pressed, MenuButton::Exit)]).next_state is None,
        i != Interaction::Pressed ==> menu_actions_spec(seq![(i, b)]) == (MenuOutcome { next_state: None, exit: false }),
{
    let e = Seq::<(Interaction, MenuButton)>::empty();
    assert(menu_actions_spec(e) == (MenuOutcome { next_state: None, exit: false }));
    assert(seq![(Interaction::Pressed, MenuButton::Connect)].drop_last() =~= e);
    assert(seq![(Interaction::Pressed, MenuButton::Exit)].drop_last() =~= e);
    assert(seq![(i, b)].drop_last() =~= e);
}

/// In a focused field, Backspace deletes the last character (an empty
/// address stays empty), Escape and Enter unfocus the field keeping the
/// address, and any other key changes nothing.
pub proof fn lemma_editing_keys(ip: Seq<char>)
    ensures
        ip_keys_spec(ip, true, seq![IpKey::Backspace]) == (if ip.len() > 0 { ip.drop_last() } else { ip }, true),
        ip_keys_spec(ip, true, seq![IpKey::Escape]) == (ip, false),
        ip_keys_spec(ip, true, seq![IpKey::Enter]) == (ip, false),
        ip_keys_spec(ip, true, seq![IpKey::Other]) == (ip, true),
{
    let e = Seq::<IpKey>::empty();
    assert(ip_keys_spec(ip, true, e) == (ip, true));
    assert(seq![IpKey::Backspace].drop_last() =~= e);
    assert(seq![IpKey::Escape].drop_last() =~= e);
    assert(seq![IpKey::Enter].drop_last() =~= e);
    assert(seq![IpKey::Other].drop_last() =~= e);
}

/// The address field shows the address (or `_` when empty), a colon and the
/// port.
pub proof fn lemma_address_display(ip: Seq<char>, port: u16)
    ensures
        ip.len() > 0 ==> ip_display_spec(ip, port, false) == ip + ":"@ + decimal_chars(port as nat),
        ip.len() == 0 ==> ip_display_spec(ip, port, false) == "_"@ + ":"@ + decimal_chars(port as nat),
{
    let t = (if ip.len() == 0 { "_"@ } else { ip }) + ":"@ + decimal_chars(port as nat);
    assert(t + Seq::<char>::empty() =~= t);
}

/// Choosing an existing preset from the dropdown connects to its address,
/// shows its name and closes the dropdown.
pub proof fn lemma_selection_shows_preset(entries: Seq<ServerEntry>, ip: Seq<char>, selected: Option<usize>, expanded: bool, i: usize)
    requires
        i < entries.len(),
    ensures
        ({
            let (ip1, sel1, exp1) = dropdown_selection_spec(entries, ip, selected, expanded, seq![i]);
            &&& ip1 == entries[i as int].ip@
            &&& sel1 == Some(i)
            &&& !exp1
            &&& selected_preset_name_spec(entries, sel1) == entries[i as int].name@
        }),
{
    assert(seq![i].drop_last() =~= Seq::<usize>::empty());
}

/// Clicking the address field drops the preset selection, so the dropdown
/// then shows "Custom".
pub proof fn lemma_editing_address_shows_custom(entries: Seq<ServerEntry>)
    ensures
        selected_preset_name_spec(entries, None) == "Custom"@,
{
}

} // verus!
