//! The phases of the game and the reasons for which a level is lost.
use vstd::prelude::*;

verus! {

/// When a part of the game runs.
#[derive(Clone, Copy, Debug, PartialEq, Eq, Hash, Structural)]
pub enum During {
    Menu,
    Gameplay,
}

/// The phase the game is in.
#[derive(Clone, Copy, Debug, PartialEq, Eq, Hash, Structural)]
pub enum AppState {
    MainMenu,
    PauseMenu,
    LevelSelectMenu,
    LoadLevel,
    Editor,
    Game,
    LevelCompleted,
    GameOver,
}

/// Why the level was lost.
#[derive(Clone, Copy, Debug, PartialEq, Eq, Structural)]
pub enum GameOverReason {
    Unset,
    PlayerFell,
    TilesStillStanding(usize),
}

/// What the menu keys ask for.
#[derive(Clone, Copy, Debug, PartialEq, Eq, Structural)]
pub enum ActionForKbgp {
    Menu,
    RestartLevel,
}

impl AppState {
    /// Whether a menu is on the screen in this phase.
    pub open spec fn spec_is_menu(self) -> bool {
        self == AppState::MainMenu || self == AppState::PauseMenu || self == AppState::LevelSelectMenu
            || self == AppState::GameOver
    }

    /// Whether a menu is on the screen in this phase.
    pub fn is_menu(&self) -> (menu: bool)
        ensures
            menu == self.spec_is_menu(),
    {
        match self {
            AppState::MainMenu => true,
            AppState::PauseMenu => true,
            AppState::LevelSelectMenu => true,
            AppState::LoadLevel => false,
            AppState::Editor => false,
            AppState::Game => false,
            AppState::LevelCompleted => false,
            AppState::GameOver => true,
        }
    }

    /// Whether the physics runs in this phase: only while the game is played.
    pub fn runs_physics(&self) -> (runs: bool)
        ensures
            runs == (*self == AppState::Game),
    {
        matches!(self, AppState::Game)
    }

    /// Whether the camera follows its target in this phase: while the game is
    /// played and after it is lost.
    pub fn camera_follows(&self) -> (follows: bool)
        ensures
            follows == (*self == AppState::Game || *self == AppState::GameOver),
    {
        matches!(self, AppState::Game | AppState::GameOver)
    }
}

impl During {
    /// Whether the parts of the game that belong to `self` run in `state`.
    pub fn includes(&self, state: &AppState) -> (runs: bool)
        ensures
            runs == match *self {
                During::Menu => state.spec_is_menu(),
                During::Gameplay => *state == AppState::Game,
            },
    {
        match self {
            During::Menu => state.is_menu(),
            During::Gameplay => matches!(state, AppState::Game),
        }
    }
}

impl GameOverReason {
    /// Forgets the reason, as a new round begins.
    pub fn reset_when_gameplay_starts(&mut self)
        ensures
            *final(self) == GameOverReason::Unset,
    {
        *self = GameOverReason::Unset;
    }
}


/// How the game is set up.
#[derive(Debug)]
pub struct TimeToTopplePlugin {
    /// Whether the level editor runs in place of the game.
    pub is_editor: bool,
    /// The level to start at, with or without the ending of a level file.
    pub start_at_level: Option<String>,
}

/// Whether `text` ends with `suffix`.
pub open spec fn is_suffix(suffix: Seq<char>, text: Seq<char>) -> bool {
    suffix.len() <= text.len() && text.subrange(text.len() - suffix.len(), text.len() as int) == suffix
}

/// The name of the file of a level: the name itself where it has the ending
/// of a level file, else the name with that ending.
pub open spec fn level_file_of(name: Seq<char>) -> Seq<char> {
    if is_suffix(".yol"@, name) {
        name
    } else {
        name + ".yol"@
    }
}

/// `str::ends_with` with a string as the pattern: whether the text ends with
/// the suffix.
#[verifier::external_body]
fn ends_with(text: &str, suffix: &str) -> (ends: bool)
    ensures
        ends == is_suffix(suffix@, text@),
{
    text.ends_with(suffix)
}

/// `format!` of two strings in a row: the first followed by the second.
#[verifier::external_body]
fn joined(first: &str, second: &str) -> (whole: String)
    ensures
        whole@ == first@ + second@,
{
    format!("{}{}", first, second)
}

/// The name of the file of the level `name`.
pub fn level_file_name(name: &str) -> (file: String)
    ensures
        file@ == level_file_of(name@),
{
    if ends_with(name, ".yol") {
        name.to_owned()
    } else {
        joined(name, ".yol")
    }
}

impl TimeToTopplePlugin {
    /// The file of the level that the game starts at; none in the editor, and
    /// none where no level is named.
    pub fn level_to_start(&self) -> (file: Option<String>)
        ensures
            file is Some <==> !self.is_editor && self.start_at_level is Some,
            file matches Some(name) ==> name@ == level_file_of(self.start_at_level->0@),
    {
        if self.is_editor {
            return None;
        }
        match &self.start_at_level {
            Some(name) => Some(level_file_name(name.as_str())),
            None => None,
        }
    }
}

} // verus!
