use physics_sandbox::game_state::main_state::{
    Action, Border, Effect, GuiEvent, MainButton, MainState, Menu, Screen,
};
use physics_sandbox::physics::shape::Color;

fn command(name: &str) -> GuiEvent {
    GuiEvent::Custom(name.to_string())
}

fn is_custom(event: &GuiEvent, name: &str) -> bool {
    matches!(event, GuiEvent::Custom(given) if given == name)
}

#[test]
fn menu_starts_with_the_main_menu() {
    let state = MainState::new();
    assert!(!state.settings_open());
    assert_eq!(state.active_menu(), Menu::Main);
}

#[test]
fn menu_settings_command_opens_the_settings() {
    let mut state = MainState::new();
    assert_eq!(state.handle_event(Menu::Main, &command("open_settings")), Action::Stay);
    assert!(state.settings_open());
    assert_eq!(state.active_menu(), Menu::Settings);
}

#[test]
fn menu_back_command_closes_the_settings() {
    let mut state = MainState::new();
    state.handle_event(Menu::Main, &command("open_settings"));
    assert_eq!(state.handle_event(Menu::Settings, &command("back")), Action::Stay);
    assert!(!state.settings_open());
}

#[test]
fn menu_commands_belong_to_their_menu() {
    let mut state = MainState::new();
    assert_eq!(state.handle_event(Menu::Main, &command("back")), Action::Stay);
    assert!(!state.settings_open());
    assert_eq!(state.handle_event(Menu::Settings, &command("open_settings")), Action::Stay);
    assert!(!state.settings_open());
    assert_eq!(state.handle_event(Menu::Main, &command("Open_settings")), Action::Stay);
    assert_eq!(state.handle_event(Menu::Main, &command("")), Action::Stay);
    assert_eq!(state.handle_event(Menu::Main, &command("open_settings ")), Action::Stay);
    assert!(!state.settings_open());
}

#[test]
fn menu_main_menu_hands_over_and_quits() {
    let mut state = MainState::new();
    assert_eq!(
        state.handle_event(Menu::Main, &GuiEvent::StateChange(Screen::Playing)),
        Action::ChangeState(Screen::Playing)
    );
    assert_eq!(state.handle_event(Menu::Main, &GuiEvent::Quit), Action::Quit);
    assert!(!state.settings_open());
}

#[test]
fn menu_settings_menu_ignores_everything_but_back() {
    let mut state = MainState::new();
    state.handle_event(Menu::Main, &command("open_settings"));
    for event in [
        GuiEvent::Click,
        GuiEvent::Hover,
        GuiEvent::UnHover,
        GuiEvent::Idle,
        GuiEvent::Quit,
        GuiEvent::StateChange(Screen::Playing),
    ] {
        assert_eq!(state.handle_event(Menu::Settings, &event), Action::Stay);
        assert!(state.settings_open());
    }
}

#[test]
fn menu_pointer_events_change_nothing() {
    let mut state = MainState::new();
    for event in [GuiEvent::Click, GuiEvent::Hover, GuiEvent::UnHover, GuiEvent::Idle] {
        assert_eq!(state.handle_event(Menu::Main, &event), Action::Stay);
        assert!(!state.settings_open());
    }
}

#[test]
fn menu_escape_closes_settings_or_quits() {
    let mut state = MainState::new();
    state.handle_event(Menu::Main, &command("open_settings"));
    assert_eq!(state.handle_escape(), Action::Stay);
    assert!(!state.settings_open());
    assert_eq!(state.handle_escape(), Action::Quit);
    assert!(!state.settings_open());
}

#[test]
fn menu_frame_without_events() {
    let mut state = MainState::new();
    assert_eq!(state.update(&vec![], false), Action::Stay);
    assert!(!state.settings_open());
    assert_eq!(state.update(&vec![GuiEvent::Idle, GuiEvent::Hover], false), Action::Stay);
    assert!(!state.settings_open());
}

#[test]
fn menu_frame_last_change_of_screen_wins() {
    let mut state = MainState::new();
    let events = vec![
        GuiEvent::StateChange(Screen::Playing),
        GuiEvent::Idle,
        GuiEvent::StateChange(Screen::Playing),
        GuiEvent::Hover,
    ];
    assert_eq!(state.update(&events, false), Action::ChangeState(Screen::Playing));
}

#[test]
fn menu_frame_quit_ends_the_frame() {
    let mut state = MainState::new();
    let events = vec![GuiEvent::Quit, command("open_settings")];
    assert_eq!(state.update(&events, false), Action::Quit);
    assert!(!state.settings_open());
    let events = vec![command("open_settings"), GuiEvent::Quit];
    assert_eq!(state.update(&events, true), Action::Quit);
    assert!(state.settings_open());
}

#[test]
fn menu_frame_keeps_its_menu_to_the_end() {
    // The settings menu opens in the middle of a frame of the main menu:
    // the rest of the frame still belongs to the main menu.
    let mut state = MainState::new();
    let events =
        vec![command("open_settings"), command("back"), GuiEvent::StateChange(Screen::Playing)];
    assert_eq!(state.update(&events, false), Action::ChangeState(Screen::Playing));
    assert!(state.settings_open());
    // And the next frame belongs to the settings menu.
    let events = vec![GuiEvent::Quit, command("back"), command("open_settings")];
    assert_eq!(state.update(&events, false), Action::Stay);
    assert!(!state.settings_open());
}

#[test]
fn menu_frame_escape_comes_after_the_widgets() {
    let mut state = MainState::new();
    assert_eq!(state.update(&vec![command("open_settings")], true), Action::Stay);
    assert!(!state.settings_open());
    assert_eq!(state.update(&vec![GuiEvent::StateChange(Screen::Playing)], true), Action::Quit);
    let mut state = MainState::new();
    state.handle_event(Menu::Main, &command("open_settings"));
    assert_eq!(state.update(&vec![GuiEvent::Idle], true), Action::Stay);
    assert!(!state.settings_open());
    assert_eq!(state.update(&vec![], true), Action::Quit);
}

#[test]
fn button_click_answers() {
    let sandbox = MainButton::Sandbox.respond(GuiEvent::Click);
    assert!(matches!(sandbox.event, GuiEvent::StateChange(Screen::Playing)));
    assert_eq!(sandbox.effect, Effect::Nothing);
    let multiplayer = MainButton::Multiplayer.respond(GuiEvent::Click);
    assert!(matches!(multiplayer.event, GuiEvent::Click));
    assert_eq!(multiplayer.effect, Effect::Announce);
    let settings = MainButton::Settings.respond(GuiEvent::Click);
    assert!(is_custom(&settings.event, "open_settings"));
    assert_eq!(settings.effect, Effect::Nothing);
    let quit = MainButton::Quit.respond(GuiEvent::Click);
    assert!(matches!(quit.event, GuiEvent::Quit));
    assert_eq!(quit.effect, Effect::Nothing);
}

#[test]
fn button_hover_changes_the_border() {
    for button in
        [MainButton::Sandbox, MainButton::Multiplayer, MainButton::Settings, MainButton::Quit]
    {
        let over = button.respond(GuiEvent::Hover);
        assert!(matches!(over.event, GuiEvent::Hover));
        assert_eq!(over.effect, Effect::SetBorder(Border::Thick));
        let away = button.respond(GuiEvent::UnHover);
        assert!(matches!(away.event, GuiEvent::UnHover));
        assert_eq!(away.effect, Effect::SetBorder(Border::Thin));
    }
}

#[test]
fn button_passes_other_events_on() {
    for button in
        [MainButton::Sandbox, MainButton::Multiplayer, MainButton::Settings, MainButton::Quit]
    {
        let idle = button.respond(GuiEvent::Idle);
        assert!(matches!(idle.event, GuiEvent::Idle));
        assert_eq!(idle.effect, Effect::Nothing);
        let quit = button.respond(GuiEvent::Quit);
        assert!(matches!(quit.event, GuiEvent::Quit));
        let change = button.respond(GuiEvent::StateChange(Screen::Playing));
        assert!(matches!(change.event, GuiEvent::StateChange(Screen::Playing)));
        let custom = button.respond(command("back"));
        assert!(is_custom(&custom.event, "back"));
        assert_eq!(custom.effect, Effect::Nothing);
    }
}

#[test]
fn button_clicks_drive_the_menu() {
    let mut state = MainState::new();
    let answer = MainButton::Settings.respond(GuiEvent::Click);
    assert_eq!(state.handle_event(Menu::Main, &answer.event), Action::Stay);
    assert!(state.settings_open());
    let mut state = MainState::new();
    let answer = MainButton::Quit.respond(GuiEvent::Click);
    assert_eq!(state.handle_event(Menu::Main, &answer.event), Action::Quit);
    let answer = MainButton::Sandbox.respond(GuiEvent::Click);
    assert_eq!(state.handle_event(Menu::Main, &answer.event), Action::ChangeState(Screen::Playing));
    let answer = MainButton::Multiplayer.respond(GuiEvent::Click);
    assert_eq!(state.handle_event(Menu::Main, &answer.event), Action::Stay);
    assert!(!state.settings_open());
}

#[test]
fn button_layout() {
    assert_eq!(MainButton::Sandbox.slot(), 0);
    assert_eq!(MainButton::Quit.slot(), 3);
    assert_eq!(MainButton::Sandbox.position(), (540, 100));
    assert_eq!(MainButton::Multiplayer.position(), (540, 175));
    assert_eq!(MainButton::Settings.position(), (540, 250));
    assert_eq!(MainButton::Quit.position(), (540, 325));
    assert_eq!(MainButton::Settings.size(), (200, 50));
}

#[test]
fn button_labels_and_fills() {
    assert_eq!(MainButton::Sandbox.label(), "Sandbox");
    assert_eq!(MainButton::Multiplayer.label(), "Multiplayer");
    assert_eq!(MainButton::Settings.label(), "Settings");
    assert_eq!(MainButton::Quit.label(), "Quit");
    let cyan = Color { red: 0, green: 255, blue: 255, alpha: 255 };
    let red = Color { red: 255, green: 0, blue: 0, alpha: 255 };
    assert_eq!(MainButton::Sandbox.fill(), cyan);
    assert_eq!(MainButton::Multiplayer.fill(), cyan);
    assert_eq!(MainButton::Settings.fill(), cyan);
    assert_eq!(MainButton::Quit.fill(), red);
}
