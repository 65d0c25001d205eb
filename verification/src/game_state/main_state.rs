//! The main menu: what its buttons answer, and how the menu state moves
//! from one event to the next.
//!
//! The caller draws the buttons, finds out what the pointer did to each of
//! them, and hands every event to this module; what comes back is the next
//! state of the menu and what the caller has to do.

use vstd::prelude::*;
use crate::physics::shape::Color;

verus! {

/// A screen that the menu can hand over to.
#[derive(Clone, Copy, Debug, PartialEq, Eq, Structural)]
pub enum Screen {
    /// The running simulation.
    Playing,
}

/// What a widget reports, and what a button answers.
#[derive(Clone, Debug)]
pub enum GuiEvent {
    /// The pointer was pressed on the widget.
    Click,
    /// The pointer came to rest on the widget.
    Hover,
    /// The pointer left the widget.
    UnHover,
    /// Another screen takes over.
    StateChange(Screen),
    /// A named command for the menu that holds the widget.
    Custom(String),
    /// The program ends.
    Quit,
    /// Nothing happened.
    Idle,
}

/// One of the two menus of the main screen.
#[derive(Clone, Copy, Debug, PartialEq, Eq, Structural)]
pub enum Menu {
    Main,
    Settings,
}

/// What the caller has to do after an event.
#[derive(Clone, Copy, Debug, PartialEq, Eq, Structural)]
pub enum Action {
    /// Go on with this screen.
    Stay,
    /// Hand over to the given screen once the frame is done.
    ChangeState(Screen),
    /// End the program at once.
    Quit,
}

/// The weight of a button's border.
#[derive(Clone, Copy, Debug, PartialEq, Eq, Structural)]
pub enum Border {
    Thin,
    Thick,
}

/// What a button does to itself when it answers an event.
#[derive(Clone, Copy, Debug, PartialEq, Eq, Structural)]
pub enum Effect {
    /// Nothing.
    Nothing,
    /// It redraws its border with the given weight.
    SetBorder(Border),
    /// It tells the user that it has no function yet.
    Announce,
}

/// A button's answer to an event: the event that it passes on to its menu,
/// and what it does to itself.
#[derive(Clone, Debug)]
pub struct Response {
    pub event: GuiEvent,
    pub effect: Effect,
}

/// The buttons of the main menu, from top to bottom.
#[derive(Clone, Copy, Debug, PartialEq, Eq, Structural)]
pub enum MainButton {
    Sandbox,
    Multiplayer,
    Settings,
    Quit,
}

/// The name of the command that opens the settings menu.
pub open spec fn open_settings_command() -> Seq<char> {
    "open_settings"@
}

/// The name of the command that leaves the settings menu.
pub open spec fn back_command() -> Seq<char> {
    "back"@
}

/// `event` is the command called `name`.
pub open spec fn is_command(event: GuiEvent, name: Seq<char>) -> bool {
    event matches GuiEvent::Custom(given) && given@ == name
}

impl MainButton {
    /// The place of the button in its column, counted from 0 at the top.
    pub open spec fn spec_slot(self) -> int {
        match self {
            MainButton::Sandbox => 0,
            MainButton::Multiplayer => 1,
            MainButton::Settings => 2,
            MainButton::Quit => 3,
        }
    }

    /// The place of the button in its column, counted from 0 at the top.
    pub fn slot(self) -> (s: u32)
        ensures
            s == self.spec_slot(),
    {
        match self {
            MainButton::Sandbox => 0,
            MainButton::Multiplayer => 1,
            MainButton::Settings => 2,
            MainButton::Quit => 3,
        }
    }

    /// The left edge and the top edge of the button, in pixels: the column
    /// starts at (540, 100) and each button lies 75 below the one before.
    pub fn position(self) -> (at: (u32, u32))
        ensures
            at.0 == 540,
            at.1 == 100 + 75 * self.spec_slot(),
    {
        (540, 100 + 75 * self.slot())
    }

    /// The width and the height of every button, in pixels.
    pub fn size(self) -> (extent: (u32, u32))
        ensures
            extent == (200u32, 50u32),
    {
        (200, 50)
    }

    /// The text on the button.
    pub fn label(self) -> (text: &'static str)
        ensures
            text@ == match self {
                MainButton::Sandbox => "Sandbox"@,
                MainButton::Multiplayer => "Multiplayer"@,
                MainButton::Settings => "Settings"@,
                MainButton::Quit => "Quit"@,
            },
    {
        match self {
            MainButton::Sandbox => "Sandbox",
            MainButton::Multiplayer => "Multiplayer",
            MainButton::Settings => "Settings",
            MainButton::Quit => "Quit",
        }
    }

    /// The fill of the button: red for `Quit`, cyan for the others.
    pub fn fill(self) -> (c: Color)
        ensures
            c == if self == MainButton::Quit {
                (Color { red: 255, green: 0, blue: 0, alpha: 255 })
            } else {
                (Color { red: 0, green: 255, blue: 255, alpha: 255 })
            },
    {
        match self {
            MainButton::Quit => Color { red: 255, green: 0, blue: 0, alpha: 255 },
            _ => Color { red: 0, green: 255, blue: 255, alpha: 255 },
        }
    }

    /// What the button passes on for `event`. A click becomes the button's
    /// own message; every other event is passed on as it came.
    pub open spec fn passes_on(self, event: GuiEvent, answer: GuiEvent) -> bool {
        match event {
            GuiEvent::Click => match self {
                MainButton::Sandbox => answer == GuiEvent::StateChange(Screen::Playing),
                MainButton::Multiplayer => answer == GuiEvent::Click,
                MainButton::Settings => is_command(answer, open_settings_command()),
                MainButton::Quit => answer == GuiEvent::Quit,
            },
            _ => answer == event,
        }
    }

    /// What the button does to itself for `event`: a thick border while
    /// the pointer rests on it, a thin one when the pointer leaves, and a
    /// notice when `Multiplayer` is clicked.
    pub open spec fn spec_effect(self, event: GuiEvent) -> Effect {
        match event {
            GuiEvent::Hover => Effect::SetBorder(Border::Thick),
            GuiEvent::UnHover => Effect::SetBorder(Border::Thin),
            GuiEvent::Click => if self == MainButton::Multiplayer {
                Effect::Announce
            } else {
                Effect::Nothing
            },
            _ => Effect::Nothing,
        }
    }

    /// The button's answer to `event`.
    pub fn respond(self, event: GuiEvent) -> (answer: Response)
        ensures
            self.passes_on(event, answer.event),
            answer.effect == self.spec_effect(event),
    {
        match event {
            GuiEvent::Click => match self {
                MainButton::Sandbox => Response {
                    event: GuiEvent::StateChange(Screen::Playing),
                    effect: Effect::Nothing,
                },
                MainButton::Multiplayer => Response {
                    event: GuiEvent::Click,
                    effect: Effect::Announce,
                },
                MainButton::Settings => Response {
                    event: GuiEvent::Custom("open_settings".to_owned()),
                    effect: Effect::Nothing,
                },
                MainButton::Quit => Response { event: GuiEvent::Quit, effect: Effect::Nothing },
            },
            GuiEvent::Hover => Response {
                event: GuiEvent::Hover,
                effect: Effect::SetBorder(Border::Thick),
            },
            GuiEvent::UnHover => Response {
                event: GuiEvent::UnHover,
                effect: Effect::SetBorder(Border::Thin),
            },
            other => Response { event: other, effect: Effect::Nothing },
        }
    }
}

/// The menu state after `event` came from a widget of `menu`, and what the
/// caller has to do. `open` says whether the settings menu is showing.
pub open spec fn step(open: bool, menu: Menu, event: GuiEvent) -> (bool, Action) {
    match menu {
        Menu::Settings => if is_command(event, back_command()) {
            (false, Action::Stay)
        } else {
            (open, Action::Stay)
        },
        Menu::Main => match event {
            GuiEvent::StateChange(screen) => (open, Action::ChangeState(screen)),
            GuiEvent::Quit => (open, Action::Quit),
            _ => if is_command(event, open_settings_command()) {
                (true, Action::Stay)
            } else {
                (open, Action::Stay)
            },
        },
    }
}

/// The menu state after the escape key, and what the caller has to do: the
/// key closes the settings menu, and ends the program from the main menu.
pub open spec fn escape(open: bool) -> (bool, Action) {
    if open {
        (false, Action::Stay)
    } else {
        (false, Action::Quit)
    }
}

/// The menu state and the pending action after the first `count` events
/// of a frame, all from widgets of `menu`. A later change of screen
/// replaces an earlier one; after `Quit` nothing more is looked at.
pub open spec fn run(open: bool, menu: Menu, events: Seq<GuiEvent>, count: nat) -> (bool, Action)
    decreases count,
{
    if count == 0 {
        (open, Action::Stay)
    } else {
        let (before, pending) = run(open, menu, events, (count - 1) as nat);
        if pending == Action::Quit {
            (before, pending)
        } else {
            let (after, action) = step(before, menu, events[count - 1]);
            (after, if action == Action::Stay { pending } else { action })
        }
    }
}

/// The menu state and the action after a whole frame: the events of the
/// widgets of the menu that was showing when the frame began, then the
/// escape key if it was pressed.
pub open spec fn frame(open: bool, events: Seq<GuiEvent>, escape_pressed: bool) -> (bool, Action) {
    let menu = if open { Menu::Settings } else { Menu::Main };
    let (after, pending) = run(open, menu, events, events.len());
    if pending == Action::Quit || !escape_pressed {
        (after, pending)
    } else if after {
        (false, pending)
    } else {
        (false, Action::Quit)
    }
}

/// The main screen: the main menu, or the settings menu in front of it.
#[derive(Clone, Copy, Debug)]
pub struct MainState {
    open_settings: bool,
}

impl View for MainState {
    type V = bool;

    /// Whether the settings menu is showing.
    closed spec fn view(&self) -> bool {
        self.open_settings
    }
}

impl MainState {
    /// The main screen with the main menu showing.
    pub fn new() -> (state: MainState)
        ensures
            !state@,
    {
        MainState { open_settings: false }
    }

    /// Whether the settings menu is showing.
    pub fn settings_open(&self) -> (open: bool)
        ensures
            open == self@,
    {
        self.open_settings
    }

    /// The menu to draw, and whose widgets get the events of this frame.
    pub fn active_menu(&self) -> (menu: Menu)
        ensures
            menu == if self@ { Menu::Settings } else { Menu::Main },
    {
        if self.open_settings {
            Menu::Settings
        } else {
            Menu::Main
        }
    }

    /// Takes one event of a widget of `menu`.
    pub fn handle_event(&mut self, menu: Menu, event: &GuiEvent) -> (action: Action)
        ensures
            (final(self)@, action) == step(old(self)@, menu, *event),
    {
        match menu {
            Menu::Settings => {
                if names(event, "back") {
                    self.open_settings = false;
                }
                Action::Stay
            },
            Menu::Main => match event {
                GuiEvent::StateChange(screen) => Action::ChangeState(*screen),
                GuiEvent::Quit => Action::Quit,
                _ => {
                    if names(event, "open_settings") {
                        self.open_settings = true;
                    }
                    Action::Stay
                },
            },
        }
    }

    /// Takes a press of the escape key.
    pub fn handle_escape(&mut self) -> (action: Action)
        ensures
            (final(self)@, action) == escape(old(self)@),
    {
        if self.open_settings {
            self.open_settings = false;
            Action::Stay
        } else {
            Action::Quit
        }
    }

    /// Takes a whole frame: the events of the widgets of the active menu,
    /// in the order of the widgets, then the escape key if it was pressed.
    pub fn update(&mut self, events: &Vec<GuiEvent>, escape_pressed: bool) -> (action: Action)
        ensures
            (final(self)@, action) == frame(old(self)@, events@, escape_pressed),
    {
        let menu = self.active_menu();
        let mut pending = Action::Stay;
        let mut i: usize = 0;
        while i < events.len()
            invariant
                i <= events.len(),
                menu == if old(self)@ { Menu::Settings } else { Menu::Main },
                (self@, pending) == run(old(self)@, menu, events@, i as nat),
                pending != Action::Quit,
            decreases events.len() - i,
        {
            let action = self.handle_event(menu, &events[i]);
            match action {
                Action::Stay => {},
                Action::ChangeState(_) => {
                    pending = action;
                },
                Action::Quit => {
                    proof {
                        lemma_quit_ends_the_frame(
                            old(self)@,
                            menu,
                            events@,
                            (i + 1) as nat,
                            events@.len(),
                        );
                    }
                    return Action::Quit;
                },
            }
            i += 1;
        }
        if escape_pressed {
            match self.handle_escape() {
                Action::Quit => Action::Quit,
                _ => pending,
            }
        } else {
            pending
        }
    }
}

/// Whether `event` is the command called `name`.
fn names(event: &GuiEvent, name: &str) -> (same: bool)
    ensures
        same == is_command(*event, name@),
{
    match event {
        GuiEvent::Custom(given) => {
            let wanted: String = name.to_owned();
            *given == wanted
        },
        _ => false,
    }
}

/// What a click on a button of the main menu does to the main screen: the
/// button's answer, handed to the main menu, starts the sandbox, changes
/// nothing, opens the settings menu, or ends the program.
pub proof fn lemma_clicks_drive_the_menu(button: MainButton, answer: GuiEvent, open: bool)
    requires
        button.passes_on(GuiEvent::Click, answer),
    ensures
        step(open, Menu::Main, answer) == match button {
            MainButton::Sandbox => (open, Action::ChangeState(Screen::Playing)),
            MainButton::Multiplayer => (open, Action::Stay),
            MainButton::Settings => (true, Action::Stay),
            MainButton::Quit => (open, Action::Quit),
        },
{
}

/// No widget of the settings menu ends the program or hands over to
/// another screen: the settings menu is left by its way back or by the
/// escape key, and both lead to the main menu.
pub proof fn lemma_settings_menu_only_leads_back(events: Seq<GuiEvent>, count: nat)
    ensures
        run(true, Menu::Settings, events, count).1 == Action::Stay,
    decreases count,
{
    if count > 0 {
        lemma_settings_menu_only_leads_back(events, (count - 1) as nat);
    }
}

/// The escape key, pressed twice, ends the program from either menu.
pub proof fn lemma_escape_twice_quits(open: bool)
    ensures
        escape(escape(open).0).1 == Action::Quit,
{
}

/// Once a frame has met `Quit`, the events after it change nothing.
pub proof fn lemma_quit_ends_the_frame(
    open: bool,
    menu: Menu,
    events: Seq<GuiEvent>,
    count: nat,
    later: nat,
)
    requires
        count <= later,
        run(open, menu, events, count).1 == Action::Quit,
    ensures
        run(open, menu, events, later) == run(open, menu, events, count),
    decreases later,
{
    if count < later {
        lemma_quit_ends_the_frame(open, menu, events, count, (later - 1) as nat);
    }
}

} // verus!
