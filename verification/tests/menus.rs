use fistforce::game_state::{check_connection, handle_escape_key, handle_resume_key, GameState};
use fistforce::main_menu::{
    handle_dropdown_selection, handle_dropdown_toggle, handle_ip_input_focus, handle_ip_keyboard_input,
    handle_menu_actions, ip_display_text, load_server_presets, update_dropdown_display, DropdownState, Interaction,
    IpKey, MenuButton, MenuOutcome, ServerAddress, ServerConfig, ServerEntry, ServerPresets,
};
use fistforce::name_entry::{
    handle_name_submission_result, handle_text_input, name_display_text, name_key_char, rejection_message,
    submit_name, NameKey, NameRejectionReason, NameSubmissionFeedback, NameSubmissionResult, PlayerNameInput,
};
use fistforce::pause_menu::{
    handle_graphics_toggles, handle_pause_actions, reset_menu_state, setting_enabled, toggle_label, GraphicsSettings,
    GraphicsToggle, PauseButton, PauseMenuState,
};
use fistforce::connection::start_connection;

fn entry(name: &str, ip: &str) -> ServerEntry {
    ServerEntry { name: name.to_string(), ip: ip.to_string() }
}

fn presets() -> ServerPresets {
    ServerPresets { entries: vec![entry("Local", "127.0.0.1"), entry("EU", "eu.example.net")], selected_index: Some(1) }
}

#[test]
fn escape_pauses_and_resumes() {
    assert_eq!(handle_escape_key(true), Some(GameState::Paused));
    assert_eq!(handle_resume_key(true), Some(GameState::Playing));
    assert_eq!(handle_escape_key(false), None);
    assert_eq!(handle_resume_key(false), None);
}

#[test]
fn connection_events_choose_state() {
    assert_eq!(check_connection(1, 0), Some(GameState::Playing));
    assert_eq!(check_connection(0, 1), Some(GameState::MainMenu));
    assert_eq!(check_connection(2, 1), Some(GameState::MainMenu));
    assert_eq!(check_connection(0, 0), None);
}

#[test]
fn presets_from_config_select_default() {
    let config = ServerConfig { servers: vec![entry("Local", "127.0.0.1"), entry("EU", "10.0.0.7")], default_index: 1 };
    let (p, a) = load_server_presets(Some(config), 5000);
    assert_eq!(p.entries.len(), 2);
    assert_eq!(p.selected_index, Some(1));
    assert_eq!(a.ip, "10.0.0.7");
    assert_eq!(a.port, 5000);
}

#[test]
fn presets_out_of_range_default_falls_back_to_loopback() {
    let config = ServerConfig { servers: vec![entry("Local", "192.168.1.2")], default_index: 3 };
    let (p, a) = load_server_presets(Some(config), 7777);
    assert_eq!(p.selected_index, Some(3));
    assert_eq!(a.ip, "127.0.0.1");
}

#[test]
fn missing_config_uses_defaults() {
    let (p, a) = load_server_presets(None, 4242);
    assert!(p.entries.is_empty());
    assert_eq!(p.selected_index, None);
    assert_eq!(a.ip, "127.0.0.1");
    assert_eq!(a.port, 4242);
}

#[test]
fn menu_buttons_connect_and_exit() {
    let o = handle_menu_actions(&vec![(Interaction::Pressed, MenuButton::Connect), (Interaction::Hovered, MenuButton::Exit)]);
    assert_eq!(o, MenuOutcome { next_state: Some(GameState::Connecting), exit: false });
    let o = handle_menu_actions(&vec![(Interaction::Pressed, MenuButton::Exit)]);
    assert_eq!(o, MenuOutcome { next_state: None, exit: true });
}

#[test]
fn clicking_ip_field_focuses_and_deselects_preset() {
    let mut focused = false;
    let mut p = presets();
    assert_eq!(handle_ip_input_focus(true, true, &mut focused, &mut p), Some(true));
    assert!(focused);
    assert_eq!(p.selected_index, None);
    assert_eq!(handle_ip_input_focus(false, true, &mut focused, &mut p), Some(false));
    assert!(!focused);
    assert_eq!(handle_ip_input_focus(false, true, &mut focused, &mut p), None);
}

#[test]
fn typing_into_ip_field() {
    let mut focused = true;
    let mut a = ServerAddress { ip: "10.0.0".to_string(), port: 5000 };
    let keys = vec![
        IpKey::Backspace,
        IpKey::Character("7".to_string()),
        IpKey::Character("!".to_string()),
        IpKey::Character("ab".to_string()),
        IpKey::Character("é".to_string()),
        IpKey::Character("-".to_string()),
        IpKey::Other,
    ];
    handle_ip_keyboard_input(&mut focused, &mut a, &keys);
    assert_eq!(a.ip, "10.0.7-");
    assert!(focused);
    handle_ip_keyboard_input(&mut focused, &mut a, &vec![IpKey::Enter, IpKey::Character("x".to_string())]);
    assert!(!focused);
    assert_eq!(a.ip, "10.0.7-x");
}

#[test]
fn unfocused_ip_field_ignores_keys() {
    let mut focused = false;
    let mut a = ServerAddress { ip: "1.2.3.4".to_string(), port: 1 };
    handle_ip_keyboard_input(&mut focused, &mut a, &vec![IpKey::Backspace, IpKey::Character("9".to_string())]);
    assert_eq!(a.ip, "1.2.3.4");
}

#[test]
fn ip_field_stops_at_63_bytes() {
    let mut focused = true;
    let mut a = ServerAddress { ip: "a".repeat(62), port: 1 };
    handle_ip_keyboard_input(&mut focused, &mut a, &vec![IpKey::Character("b".to_string()), IpKey::Character("c".to_string())]);
    assert_eq!(a.ip.len(), 63);
    assert!(a.ip.ends_with('b'));
}

#[test]
fn ip_display_formats() {
    let a = ServerAddress { ip: "192.168.0.5".to_string(), port: 5000 };
    assert_eq!(ip_display_text(&a, false), "192.168.0.5:5000");
    assert_eq!(ip_display_text(&a, true), "192.168.0.5:5000│");
    let empty = ServerAddress { ip: String::new(), port: 80 };
    assert_eq!(ip_display_text(&empty, false), "_:80");
}

#[test]
fn dropdown_toggle_and_outside_click() {
    let mut s = DropdownState { expanded: false };
    assert!(handle_dropdown_toggle(true, true, false, true, &mut s));
    assert!(!handle_dropdown_toggle(false, true, false, false, &mut s));
    assert!(!s.expanded);
    s.expanded = true;
    assert!(handle_dropdown_toggle(false, true, true, false, &mut s));
}

#[test]
fn dropdown_selection_picks_preset() {
    let mut a = ServerAddress { ip: "1.1.1.1".to_string(), port: 9 };
    let mut p = presets();
    p.selected_index = None;
    let mut s = DropdownState { expanded: true };
    handle_dropdown_selection(&vec![0, 7], &mut a, &mut p, &mut s);
    assert_eq!(a.ip, "127.0.0.1");
    assert_eq!(p.selected_index, Some(0));
    assert!(!s.expanded);
}

#[test]
fn dropdown_display_names_selection() {
    let p = presets();
    let (name, marks) = update_dropdown_display(&p, &vec![0, 1]);
    assert_eq!(name, "EU");
    assert_eq!(marks, vec![false, true]);
    let custom = ServerPresets { entries: vec![], selected_index: None };
    assert_eq!(update_dropdown_display(&custom, &vec![]).0, "Custom");
    let stale = ServerPresets { entries: vec![entry("A", "1")], selected_index: Some(5) };
    assert_eq!(update_dropdown_display(&stale, &vec![]).0, "Custom");
}

#[test]
fn connection_request_address() {
    let a = ServerAddress { ip: "10.1.2.3".to_string(), port: 5888 };
    let r = start_connection(&a);
    assert_eq!(r.address_text, "10.1.2.3:5888");
}

#[test]
fn pause_buttons() {
    let mut m = PauseMenuState { graphics_open: false };
    let o = handle_pause_actions(&vec![(Interaction::Pressed, PauseButton::Graphics)], &mut m);
    assert!(m.graphics_open);
    assert_eq!(o.next_state, None);
    let o = handle_pause_actions(&vec![(Interaction::Pressed, PauseButton::Disconnect)], &mut m);
    assert_eq!(o.next_state, Some(GameState::MainMenu));
    assert!(o.disconnect);
    let o = handle_pause_actions(&vec![(Interaction::Pressed, PauseButton::Resume), (Interaction::Pressed, PauseButton::Exit)], &mut m);
    assert_eq!(o.next_state, Some(GameState::Playing));
    assert!(o.exit);
    reset_menu_state(&mut m);
    assert!(!m.graphics_open);
}

#[test]
fn graphics_toggle_twice_restores() {
    let start = GraphicsSettings { bloom_enabled: true, shadows_enabled: false, atmosphere_enabled: true, moonlight_enabled: false };
    let mut s = start;
    let updates = handle_graphics_toggles(
        &vec![(Interaction::Pressed, GraphicsToggle::Shadows), (Interaction::Hovered, GraphicsToggle::Bloom)],
        &mut s,
    );
    assert_eq!(updates, vec![(GraphicsToggle::Shadows, true)]);
    assert!(setting_enabled(&s, GraphicsToggle::Shadows));
    assert!(s.bloom_enabled);
    handle_graphics_toggles(&vec![(Interaction::Pressed, GraphicsToggle::Shadows)], &mut s);
    assert_eq!(s, start);
    assert_eq!(toggle_label(true), "ON");
    assert_eq!(toggle_label(false), "OFF");
}

#[test]
fn typing_a_name() {
    let mut input = PlayerNameInput { name: "ab".to_string(), submitted: false };
    let keys = vec![NameKey::Letter(2), NameKey::Digit(7), NameKey::Minus, NameKey::Other, NameKey::Letter(30)];
    let display = handle_text_input(&mut input, true, &keys);
    assert_eq!(input.name, "ac7");
    assert_eq!(display, Some("ac7_".to_string()));
    assert_eq!(name_key_char(NameKey::Minus), None);
    assert_eq!(name_key_char(NameKey::Letter(25)), Some('z'));
    assert_eq!(name_key_char(NameKey::Digit(10)), None);
}

#[test]
fn typed_name_stops_at_16() {
    let mut input = PlayerNameInput { name: "abcdefghijklmno".to_string(), submitted: false };
    handle_text_input(&mut input, false, &vec![NameKey::Letter(0), NameKey::Letter(1)]);
    assert_eq!(input.name, "abcdefghijklmnoa");
}

#[test]
fn submitted_name_ignores_typing() {
    let mut input = PlayerNameInput { name: "abc".to_string(), submitted: true };
    assert_eq!(handle_text_input(&mut input, true, &vec![NameKey::Letter(0)]), None);
    assert_eq!(input.name, "abc");
    assert_eq!(name_display_text(&String::new()), "_");
}

#[test]
fn submit_validates_trimmed_length() {
    let mut fb = NameSubmissionFeedback { error_message: None };
    let mut awaiting = false;
    let short = PlayerNameInput { name: "  ab \t".to_string(), submitted: false };
    assert_eq!(submit_name(&short, &mut awaiting, &mut fb, true), None);
    assert_eq!(fb.error_message.as_deref(), Some("Name must be at least 3 characters"));
    let long = PlayerNameInput { name: "abcdefghijklmnopq".to_string(), submitted: false };
    assert_eq!(submit_name(&long, &mut awaiting, &mut fb, true), None);
    assert!(!awaiting);
    assert_eq!(fb.error_message.as_deref(), Some("Name must be at most 16 characters"));
    let ok = PlayerNameInput { name: " ranger7 ".to_string(), submitted: false };
    assert_eq!(submit_name(&ok, &mut awaiting, &mut fb, true), Some("ranger7".to_string()));
    assert_eq!(fb.error_message, None);
    assert!(awaiting);
}

#[test]
fn name_goes_out_once_until_answered() {
    let mut fb = NameSubmissionFeedback { error_message: None };
    let mut awaiting = false;
    let ok = PlayerNameInput { name: "ranger".to_string(), submitted: false };
    assert_eq!(submit_name(&ok, &mut awaiting, &mut fb, true), Some("ranger".to_string()));
    assert_eq!(submit_name(&ok, &mut awaiting, &mut fb, true), None);
    let next = handle_name_submission_result(
        &vec![NameSubmissionResult::Rejected { reason: NameRejectionReason::AlreadyOnline }],
        &mut awaiting,
        &mut fb,
    );
    assert_eq!(next, None);
    assert!(!awaiting);
    assert_eq!(submit_name(&ok, &mut awaiting, &mut fb, true), Some("ranger".to_string()));
}

#[test]
fn submit_without_client_changes_nothing() {
    let mut fb = NameSubmissionFeedback { error_message: Some("old".to_string()) };
    let ok = PlayerNameInput { name: "ranger".to_string(), submitted: false };
    let mut awaiting = false;
    assert_eq!(submit_name(&ok, &mut awaiting, &mut fb, false), None);
    assert!(!awaiting);
    assert_eq!(fb.error_message.as_deref(), Some("old"));
}

#[test]
fn server_answers_to_name() {
    let mut fb = NameSubmissionFeedback { error_message: None };
    let mut awaiting = false;
    let ignored = handle_name_submission_result(&vec![NameSubmissionResult::Accepted { profile_loaded: true }], &mut awaiting, &mut fb);
    assert_eq!(ignored, None);
    awaiting = true;
    let next = handle_name_submission_result(
        &vec![NameSubmissionResult::Rejected { reason: NameRejectionReason::Reserved }],
        &mut awaiting,
        &mut fb,
    );
    assert_eq!(next, None);
    assert_eq!(fb.error_message.as_deref(), Some("This name is reserved"));
    assert!(!awaiting);
    awaiting = true;
    let next = handle_name_submission_result(&vec![NameSubmissionResult::Accepted { profile_loaded: true }], &mut awaiting, &mut fb);
    assert_eq!(next, Some(GameState::Playing));
    assert_eq!(fb.error_message.as_deref(), Some("This name is reserved"));
}

#[test]
fn rejection_messages() {
    assert_eq!(rejection_message(NameRejectionReason::InvalidCharacters), "Name contains invalid characters");
    assert_eq!(rejection_message(NameRejectionReason::TooShort), "Name is too short (min 3 characters)");
    assert_eq!(rejection_message(NameRejectionReason::TooLong), "Name is too long (max 16 characters)");
    assert_eq!(rejection_message(NameRejectionReason::AlreadyOnline), "This name is already in use");
}
