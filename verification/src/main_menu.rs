use crate::handle::NodeHandle;
use crate::key::EventKey;
use crate::menu::MenuAssets;
use crate::plugin::{MenuPlugin, MenuPluginView};
use crate::state::GameState;
use vstd::prelude::*;

verus! {

/// The name of the main menu.
pub const MAIN_MENU: &'static str = "Main Menu";

/// Where the start button lies in the scene, seen from its root.
pub const START_BUTTON_PATH: &'static str = "*/Control/Options/StartButton";

/// Where the quit button lies in the scene, seen from its root.
pub const QUIT_BUTTON_PATH: &'static str = "*/Control/Options/QuitButton";

/// The scene of the first level.
pub const FIRST_LEVEL: &'static str = "./scenes/levels/level_01.tscn";

/// The buttons of the main menu, and the commands that they raise.
#[derive(Clone, Copy, Debug, PartialOrd, Ord, PartialEq, Eq, Structural)]
pub enum EMainMenu {
    Start,
    Quit,
}

impl EventKey for EMainMenu {
    open spec fn rank(&self) -> nat {
        match self {
            EMainMenu::Start => 0,
            EMainMenu::Quit => 1,
        }
    }

    proof fn rank_is_injective(a: Self, b: Self) {
    }

    fn ordinal(&self) -> (r: u32) {
        match self {
            EMainMenu::Start => 0,
            EMainMenu::Quit => 1,
        }
    }
}

/// The interactive elements of the main menu, as they were found in the scene.
#[derive(Clone, Copy, Debug)]
pub struct MainMenuTree {
    start_button: NodeHandle,
    quit_button: NodeHandle,
}

impl MainMenuTree {
    /// The node of the start button.
    pub closed spec fn spec_start_button(self) -> NodeHandle {
        self.start_button
    }

    /// The node of the quit button.
    pub closed spec fn spec_quit_button(self) -> NodeHandle {
        self.quit_button
    }

    /// The buttons with their keys, in the order in which they are registered.
    pub open spec fn pairs(self) -> Seq<(EMainMenu, NodeHandle)> {
        seq![
            (EMainMenu::Start, self.spec_start_button()),
            (EMainMenu::Quit, self.spec_quit_button()),
        ]
    }

    /// The outcome of a scene lookup, given what was found at the path of the
    /// start button and at the path of the quit button. The lookup fails as a
    /// whole where one of them was not found.
    pub fn from_nodes(start_button: Option<NodeHandle>, quit_button: Option<NodeHandle>) -> (tree:
        Option<MainMenuTree>)
        ensures
            tree is Some <==> start_button is Some && quit_button is Some,
            tree matches Some(t) ==> Some(t.spec_start_button()) == start_button && Some(
                t.spec_quit_button(),
            ) == quit_button,
    {
        match (start_button, quit_button) {
            (Some(start_button), Some(quit_button)) => Some(
                MainMenuTree { start_button, quit_button },
            ),
            _ => None,
        }
    }

    /// The node of the start button.
    #[verifier::when_used_as_spec(spec_start_button)]
    pub fn start_button(self) -> (node: NodeHandle)
        ensures
            node == self.spec_start_button(),
    {
        self.start_button
    }

    /// The node of the quit button.
    #[verifier::when_used_as_spec(spec_quit_button)]
    pub fn quit_button(self) -> (node: NodeHandle)
        ensures
            node == self.spec_quit_button(),
    {
        self.quit_button
    }
}

/// What the application does when the game is started: it changes to the
/// scene `scene` and enters the state `state`.
#[derive(Clone, Copy, Debug)]
pub struct SceneChange {
    pub scene: &'static str,
    pub state: GameState,
}

/// The plugin of the main menu: a menu named "Main Menu", owned by the state
/// in which the main menu is shown.
pub fn plugin() -> (plugin: MenuPlugin<MenuAssets<EMainMenu>, GameState>)
    ensures
        plugin@ == (MenuPluginView { name: MAIN_MENU@, state: GameState::MainMenu }),
{
    let mut plugin: MenuPlugin<MenuAssets<EMainMenu>, GameState> = MenuPlugin::default();
    plugin.with_state(GameState::MainMenu);
    plugin.with_name(MAIN_MENU);
    plugin
}

/// The discovery phase of the main menu, given the outcome of the scene
/// lookup: it registers the start button and the quit button.
pub fn init(menu_assets: &mut MenuAssets<EMainMenu>, nodes: Option<MainMenuTree>)
    ensures
        final(menu_assets)@ == old(menu_assets)@.discover(
            match nodes {
                Some(tree) => Some(tree.pairs()),
                None => None,
            },
        ),
        final(menu_assets)@.wf(),
{
    match nodes {
        Some(tree) => {
            let mut found: Vec<(EMainMenu, NodeHandle)> = Vec::new();
            found.push((EMainMenu::Start, tree.start_button()));
            found.push((EMainMenu::Quit, tree.quit_button()));
            assert(found@ == tree.pairs());
            menu_assets.discover(Some(found));
        },
        None => {
            menu_assets.discover(None);
        },
    }
}

/// What the command `event` starts: the first level for `Start`, nothing otherwise.
pub fn start_game(event: EMainMenu) -> (change: Option<SceneChange>)
    ensures
        event == EMainMenu::Start ==> change == Some(
            SceneChange { scene: FIRST_LEVEL, state: GameState::InGame },
        ),
        event != EMainMenu::Start ==> change is None,
{
    match event {
        EMainMenu::Start => Some(SceneChange { scene: FIRST_LEVEL, state: GameState::InGame }),
        EMainMenu::Quit => None,
    }
}

/// Whether the command `event` ends the application.
pub fn quit_game(event: EMainMenu) -> (quit: bool)
    ensures
        quit == (event == EMainMenu::Quit),
{
    match event {
        EMainMenu::Quit => true,
        EMainMenu::Start => false,
    }
}

} // verus!
