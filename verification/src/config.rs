//! The user's settings, as stored in `~/.fennec.json`, and the decisions
//! taken from them alone.
use vstd::prelude::*;

verus! {

broadcast use vstd::string::group_string_axioms;

/// Key combinations of the global shortcuts.
#[derive(Debug, Clone)]
pub struct ShortcutConfig {
    /// Correct the selected text.
    pub correct: String,
    /// Select everything, then correct it.
    pub correct_all: String,
    /// Open the action menu on the selection.
    pub menu: String,
    /// Select everything, then open the action menu.
    pub menu_all: String,
    /// Put back the text that the last action replaced.
    pub undo: String,
}

/// An action that the user defined: a prompt of their own.
#[derive(Debug, Clone)]
pub struct CustomAction {
    pub id: String,
    pub label: String,
    pub subtitle: String,
    pub prompt: String,
    /// A global shortcut that runs the action on the selection.
    pub shortcut: Option<String>,
    /// The emoji shown before the label in the action menu.
    pub icon: Option<String>,
}

/// Settings of the tap-to-polish helper.
#[derive(Debug, Clone)]
pub struct TapToPolishConfig {
    pub enabled: bool,
}

/// Everything Fennec remembers between runs.
#[derive(Debug, Clone)]
pub struct FennecConfig {
    /// Key for the AI gateway.
    pub api_key: String,
    /// Chat-completions endpoint of the AI gateway.
    pub endpoint: String,
    pub model: String,
    pub shortcuts: ShortcutConfig,
    pub launch_at_login: bool,
    pub custom_actions: Vec<CustomAction>,
    /// `"openai"` selects the OpenAI key; anything else the gateway key.
    pub provider: String,
    /// Key for OpenAI.
    pub openai_api_key: String,
    pub tap_to_polish: Option<TapToPolishConfig>,
}

/// Default shortcut: correct the selection.
pub const DEFAULT_CORRECT: &'static str = "CmdOrCtrl+Shift+.";

/// Default shortcut: correct everything.
pub const DEFAULT_CORRECT_ALL: &'static str = "CmdOrCtrl+Shift+,";

/// Default shortcut: action menu.
pub const DEFAULT_MENU: &'static str = "CmdOrCtrl+Shift+L";

/// Default shortcut: action menu on everything.
pub const DEFAULT_MENU_ALL: &'static str = "CmdOrCtrl+Shift+'";

/// Default shortcut: undo.
pub const DEFAULT_UNDO: &'static str = "CmdOrCtrl+Shift+Z";

/// The AI gateway that Fennec talks to unless told otherwise.
pub const DEFAULT_ENDPOINT: &'static str = "https://ai-gateway.radicalbit.ai/v1/chat/completions";

impl Default for ShortcutConfig {
    fn default() -> (r: Self)
        ensures
            r.correct@ == DEFAULT_CORRECT@,
            r.correct_all@ == DEFAULT_CORRECT_ALL@,
            r.menu@ == DEFAULT_MENU@,
            r.menu_all@ == DEFAULT_MENU_ALL@,
            r.undo@ == DEFAULT_UNDO@,
    {
        ShortcutConfig {
            correct: String::from_str(DEFAULT_CORRECT),
            correct_all: String::from_str(DEFAULT_CORRECT_ALL),
            menu: String::from_str(DEFAULT_MENU),
            menu_all: String::from_str(DEFAULT_MENU_ALL),
            undo: String::from_str(DEFAULT_UNDO),
        }
    }
}

impl Default for FennecConfig {
    fn default() -> (r: Self)
        ensures
            r.api_key@ == Seq::<char>::empty(),
            r.endpoint@ == DEFAULT_ENDPOINT@,
            r.model@ == Seq::<char>::empty(),
            r.shortcuts.correct@ == DEFAULT_CORRECT@,
            r.shortcuts.correct_all@ == DEFAULT_CORRECT_ALL@,
            r.shortcuts.menu@ == DEFAULT_MENU@,
            r.shortcuts.menu_all@ == DEFAULT_MENU_ALL@,
            r.shortcuts.undo@ == DEFAULT_UNDO@,
            !r.launch_at_login,
            r.custom_actions@.len() == 0,
            r.provider@ == Seq::<char>::empty(),
            r.openai_api_key@ == Seq::<char>::empty(),
            r.tap_to_polish is None,
    {
        FennecConfig {
            api_key: String::new(),
            endpoint: String::from_str(DEFAULT_ENDPOINT),
            model: String::new(),
            shortcuts: ShortcutConfig::default(),
            launch_at_login: false,
            custom_actions: Vec::new(),
            provider: String::new(),
            openai_api_key: String::new(),
            tap_to_polish: None,
        }
    }
}

/// The provider name that selects the OpenAI key.
pub const OPENAI_PROVIDER: &'static str = "openai";

/// The key that the configured provider uses.
pub open spec fn active_key_of(config: FennecConfig) -> Seq<char> {
    if config.provider@ == OPENAI_PROVIDER@ {
        config.openai_api_key@
    } else {
        config.api_key@
    }
}

/// The message when no key is set for the configured provider.
pub const NO_API_KEY: &'static str = "API key not configured";

impl FennecConfig {
    /// The key of the configured provider: the OpenAI key when the provider
    /// is `"openai"`, the gateway key otherwise.
    pub fn active_api_key(&self) -> (r: &String)
        ensures
            r@ == active_key_of(*self),
    {
        if crate::text::str_eq(self.provider.as_str(), OPENAI_PROVIDER) {
            &self.openai_api_key
        } else {
            &self.api_key
        }
    }

    /// Refuses to run an action when the configured provider has no key.
    pub fn require_api_key(&self) -> (r: Result<(), String>)
        ensures
            r is Ok <==> active_key_of(*self).len() > 0,
            r matches Err(e) ==> e@ == NO_API_KEY@,
    {
        let key = self.active_api_key();
        if key.as_str().unicode_len() == 0 {
            Err(String::from_str(NO_API_KEY))
        } else {
            Ok(())
        }
    }

    /// Whether the tap-to-polish helper should be listened to at start-up.
    pub fn tap_to_polish_enabled(&self) -> (r: bool)
        ensures
            r == (self.tap_to_polish matches Some(t) && t.enabled),
    {
        match &self.tap_to_polish {
            Some(t) => t.enabled,
            None => false,
        }
    }
}

} // verus!
