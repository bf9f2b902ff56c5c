use vstd::prelude::*;

verus! {

/// The top-level screens of the game.
#[derive(Clone, Copy, PartialEq, Eq, Structural, Debug, Hash)]
pub enum GameState {
    Loading,
    MainMenu,
    HeroSelection,
    SpellSelection,
    Playing,
    GameOver,
}

/// The parts of a wave while playing.
#[derive(Clone, Copy, PartialEq, Eq, Structural, Debug, Hash)]
pub enum WavePhase {
    Combat,
    ShopDelay,
    Shop,
}

/// The states of combat.
#[derive(Clone, Copy, PartialEq, Eq, Structural, Debug, Hash)]
pub enum CombatPhase {
    Running,
    Paused,
    DevMenu,
}

/// What a screen transition switches to once the screen is covered.
#[derive(Clone, Copy, PartialEq, Eq, Structural, Debug)]
pub enum TransitionAction {
    Game(GameState),
    Wave(WavePhase),
}

/// The screen transition: covering the screen, then uncovering it.
#[derive(Clone, Copy, PartialEq, Eq, Structural, Debug)]
pub enum Transition {
    Idle,
    Closing { action: TransitionAction },
    Opening,
}

impl Transition {
    /// The transition after a request for `action`: only an idle one starts.
    pub open spec fn after_request(self, action: TransitionAction) -> Transition {
        if self is Idle { Transition::Closing { action } } else { self }
    }

    /// The transition after one step, and the action that fired on it.
    pub open spec fn after_step(self, half_done: bool) -> (Transition, Option<TransitionAction>) {
        if !half_done {
            (self, None)
        } else {
            match self {
                Transition::Idle => (Transition::Idle, None),
                Transition::Closing { action } => (Transition::Opening, Some(action)),
                Transition::Opening => (Transition::Idle, None),
            }
        }
    }

    /// Starts a transition to `action`, unless one is already running.
    pub fn request(&mut self, action: TransitionAction)
        ensures
            *final(self) == old(self).after_request(action),
    {
        if let Transition::Idle = self {
            *self = Transition::Closing { action };
        }
    }

    /// One step, given whether the current half has run its full time: a
    /// finished close fires its action and starts opening; a finished open
    /// ends the transition. Returns the action to carry out, if one fired.
    pub fn advance(&mut self, half_done: bool) -> (fired: Option<TransitionAction>)
        ensures
            (*final(self), fired) == old(self).after_step(half_done),
    {
        if !half_done {
            return None;
        }
        match *self {
            Transition::Idle => None,
            Transition::Closing { action } => {
                *self = Transition::Opening;
                Some(action)
            },
            Transition::Opening => {
                *self = Transition::Idle;
                None
            },
        }
    }
}

/// A transition requested from rest fires the requested action exactly once,
/// when the screen is covered, and is back at rest once the screen is
/// uncovered; a second request made while it runs changes nothing.
pub proof fn lemma_transition_cycle(action: TransitionAction, other: TransitionAction)
    ensures
        ({
            let started = Transition::Idle.after_request(action);
            let (covered, first) = started.after_step(true);
            let (done, second) = covered.after_step(true);
            &&& started.after_request(other) == started
            &&& covered.after_request(other) == covered
            &&& started.after_step(false) == (started, None::<TransitionAction>)
            &&& first == Some(action)
            &&& second is None
            &&& done == Transition::Idle
        }),
{
}

/// A step whose half has not run its full time changes nothing and fires
/// nothing, whatever the transition is doing.
pub proof fn lemma_unfinished_step_waits(t: Transition)
    ensures
        t.after_step(false) == (t, None::<TransitionAction>),
{
}

/// Opening ends only when its half has run: the transition is at rest after
/// a step from opening exactly when that step finished the half.
pub proof fn lemma_opening_ends_when_done(half_done: bool)
    ensures
        Transition::Opening.after_step(half_done).0 == (if half_done { Transition::Idle } else { Transition::Opening }),
        Transition::Opening.after_step(half_done).1 is None,
{
}

/// Stepping never fires an action unless the transition was covering the
/// screen, and a step that fires leaves it uncovering.
pub proof fn lemma_transition_fires_only_on_cover(t: Transition, half_done: bool)
    ensures
        t.after_step(half_done).1 is Some <==> (half_done && t is Closing),
        t.after_step(half_done).1 is Some ==> t.after_step(half_done).0 == Transition::Opening,
{
}

/// A request to the game clock.
#[derive(Clone, Copy, PartialEq, Eq, Structural, Debug)]
pub enum TimeCommand {
    Pause,
    Unpause,
}

/// What a key or button asks of the combat phase and the game clock.
#[derive(Clone, Copy, PartialEq, Eq, Structural, Debug)]
pub struct CombatChange {
    pub next: Option<CombatPhase>,
    pub time: Option<TimeCommand>,
}

/// Escape during combat: pauses a running game, resumes a paused one; the dev menu ignores it.
pub fn toggle_pause(current: CombatPhase, escape: bool) -> (c: CombatChange)
    ensures
        !escape ==> c.next is None && c.time is None,
        escape ==> c == (match current {
            CombatPhase::Running => CombatChange { next: Some(CombatPhase::Paused), time: Some(TimeCommand::Pause) },
            CombatPhase::Paused => CombatChange { next: Some(CombatPhase::Running), time: Some(TimeCommand::Unpause) },
            CombatPhase::DevMenu => CombatChange { next: None, time: None },
        }),
{
    if !escape {
        return CombatChange { next: None, time: None };
    }
    match current {
        CombatPhase::Running => CombatChange { next: Some(CombatPhase::Paused), time: Some(TimeCommand::Pause) },
        CombatPhase::Paused => CombatChange { next: Some(CombatPhase::Running), time: Some(TimeCommand::Unpause) },
        CombatPhase::DevMenu => CombatChange { next: None, time: None },
    }
}

/// The dev-menu keys during combat. The backquote opens the dev menu (pausing
/// a running game) or closes it (resuming); Escape closes an open dev menu.
/// Both keys look at the phase as it was at the start of the frame; a later
/// request overrides an earlier one.
pub fn toggle_dev_menu(current: CombatPhase, backquote: bool, escape: bool) -> (c: CombatChange)
    ensures
        c == (if escape && current == CombatPhase::DevMenu {
            CombatChange { next: Some(CombatPhase::Running), time: Some(TimeCommand::Unpause) }
        } else if backquote {
            match current {
                CombatPhase::Running => CombatChange { next: Some(CombatPhase::DevMenu), time: Some(TimeCommand::Pause) },
                CombatPhase::DevMenu => CombatChange { next: Some(CombatPhase::Running), time: Some(TimeCommand::Unpause) },
                CombatPhase::Paused => CombatChange { next: Some(CombatPhase::DevMenu), time: None },
            }
        } else {
            CombatChange { next: None, time: None }
        }),
{
    let mut c = CombatChange { next: None, time: None };
    if backquote {
        c = match current {
            CombatPhase::Running => CombatChange { next: Some(CombatPhase::DevMenu), time: Some(TimeCommand::Pause) },
            CombatPhase::DevMenu => CombatChange { next: Some(CombatPhase::Running), time: Some(TimeCommand::Unpause) },
            CombatPhase::Paused => CombatChange { next: Some(CombatPhase::DevMenu), time: None },
        };
    }
    if escape && current == CombatPhase::DevMenu {
        c = CombatChange { next: Some(CombatPhase::Running), time: Some(TimeCommand::Unpause) };
    }
    c
}

/// The dev-menu keys in the shop: the backquote flips the menu, Escape closes it.
pub fn toggle_shop_dev_menu(open: bool, backquote: bool, escape: bool) -> (now_open: bool)
    ensures
        now_open == (if backquote { !open } else if escape { false } else { open }),
{
    if backquote {
        !open
    } else if escape && open {
        false
    } else {
        open
    }
}

/// Whether the dev-menu controls are live: the combat dev menu or the shop dev menu is open.
pub fn dev_menu_active(combat: Option<CombatPhase>, shop_open: bool) -> (r: bool)
    ensures
        r == (combat == Some(CombatPhase::DevMenu) || shop_open),
{
    let combat_open = match combat {
        Some(CombatPhase::DevMenu) => true,
        _ => false,
    };
    combat_open || shop_open
}

/// What a double tap on the dev trigger does.
#[derive(Clone, Copy, PartialEq, Eq, Structural, Debug)]
pub enum DevTapAction {
    Nothing,
    Combat(CombatChange),
    FlipShopMenu,
}

/// A double tap on the dev trigger: in combat it opens the dev menu (pausing)
/// or closes it (resuming); in the shop it flips the shop dev menu.
pub fn dev_double_tap(wave: Option<WavePhase>, combat: Option<CombatPhase>) -> (a: DevTapAction)
    ensures
        a == (match wave {
            Some(WavePhase::Combat) => match combat {
                Some(CombatPhase::Running) | Some(CombatPhase::Paused) => DevTapAction::Combat(
                    CombatChange { next: Some(CombatPhase::DevMenu), time: Some(TimeCommand::Pause) },
                ),
                Some(CombatPhase::DevMenu) => DevTapAction::Combat(
                    CombatChange { next: Some(CombatPhase::Running), time: Some(TimeCommand::Unpause) },
                ),
                None => DevTapAction::Nothing,
            },
            Some(WavePhase::Shop) => DevTapAction::FlipShopMenu,
            _ => DevTapAction::Nothing,
        }),
{
    match wave {
        Some(WavePhase::Combat) => match combat {
            Some(CombatPhase::Running) | Some(CombatPhase::Paused) => DevTapAction::Combat(
                CombatChange { next: Some(CombatPhase::DevMenu), time: Some(TimeCommand::Pause) },
            ),
            Some(CombatPhase::DevMenu) => DevTapAction::Combat(
                CombatChange { next: Some(CombatPhase::Running), time: Some(TimeCommand::Unpause) },
            ),
            None => DevTapAction::Nothing,
        },
        Some(WavePhase::Shop) => DevTapAction::FlipShopMenu,
        _ => DevTapAction::Nothing,
    }
}

/// The dev menu's win-wave button: the clock resumes, combat is set running,
/// and a transition to the shop is asked for.
pub fn cheat_win_wave(transition: &mut Transition) -> (r: (CombatPhase, TimeCommand))
    ensures
        r == (CombatPhase::Running, TimeCommand::Unpause),
        *final(transition) == old(transition).after_request(TransitionAction::Wave(WavePhase::Shop)),
{
    transition.request(TransitionAction::Wave(WavePhase::Shop));
    (CombatPhase::Running, TimeCommand::Unpause)
}

/// The buttons of the pause menu.
#[derive(Clone, Copy, PartialEq, Eq, Structural, Debug)]
pub enum PauseButton {
    Continue,
    EndRun,
}

/// A pause-menu button: both resume the clock; Continue returns to combat,
/// End Run to the main menu.
pub fn pause_button(button: PauseButton) -> (r: (Option<CombatPhase>, Option<GameState>, TimeCommand))
    ensures
        r == (match button {
            PauseButton::Continue => (Some(CombatPhase::Running), None::<GameState>, TimeCommand::Unpause),
            PauseButton::EndRun => (None::<CombatPhase>, Some(GameState::MainMenu), TimeCommand::Unpause),
        }),
{
    match button {
        PauseButton::Continue => (Some(CombatPhase::Running), None, TimeCommand::Unpause),
        PauseButton::EndRun => (None, Some(GameState::MainMenu), TimeCommand::Unpause),
    }
}

/// The buttons of the game-over screen.
#[derive(Clone, Copy, PartialEq, Eq, Structural, Debug)]
pub enum GameOverButton {
    NewRun,
    MainMenu,
}

/// A game-over button asks for a transition to a new run or to the main menu.
pub fn game_over_button(button: GameOverButton, transition: &mut Transition)
    ensures
        *final(transition) == (if *old(transition) is Idle {
            Transition::Closing {
                action: TransitionAction::Game(match button {
                    GameOverButton::NewRun => GameState::Playing,
                    GameOverButton::MainMenu => GameState::MainMenu,
                }),
            }
        } else {
            *old(transition)
        }),
{
    let target = match button {
        GameOverButton::NewRun => GameState::Playing,
        GameOverButton::MainMenu => GameState::MainMenu,
    };
    transition.request(TransitionAction::Game(target));
}

/// The buttons of the main menu.
#[derive(Clone, Copy, PartialEq, Eq, Structural, Debug)]
pub enum MenuButton {
    Play,
    Exit,
}

/// A main-menu button: Play asks for a transition into the game; Exit asks
/// to quit, which the function reports by returning `true`.
pub fn menu_button(button: MenuButton, transition: &mut Transition) -> (exit: bool)
    ensures
        exit == (button == MenuButton::Exit),
        *final(transition) == (if button == MenuButton::Play && *old(transition) is Idle {
            Transition::Closing { action: TransitionAction::Game(GameState::Playing) }
        } else {
            *old(transition)
        }),
{
    match button {
        MenuButton::Play => {
            transition.request(TransitionAction::Game(GameState::Playing));
            false
        },
        MenuButton::Exit => true,
    }
}

/// The hero chosen when the hero selection screen opens: the first hero if
/// there is any, else the choice stays as it was.
pub fn default_hero(current: Option<usize>, hero_count: usize) -> (chosen: Option<usize>)
    ensures
        chosen == (if hero_count > 0 { Some(0usize) } else { current }),
{
    if hero_count > 0 { Some(0) } else { current }
}

/// The continue button of hero selection: on to spell selection once a hero is chosen.
pub fn hero_continue(selected_hero: Option<usize>) -> (next: Option<GameState>)
    ensures
        next == (if selected_hero is Some { Some(GameState::SpellSelection) } else { None }),
{
    if selected_hero.is_some() { Some(GameState::SpellSelection) } else { None }
}

/// The start button of spell selection: into the game once every slot has a spell.
pub fn spells_start(all_slots_chosen: bool) -> (next: Option<GameState>)
    ensures
        next == (if all_slots_chosen { Some(GameState::Playing) } else { None }),
{
    if all_slots_chosen { Some(GameState::Playing) } else { None }
}

} // verus!
