use fennec::config::{CustomAction, FennecConfig, ShortcutConfig, TapToPolishConfig};
use fennec::prompt::{action_for_title, build_prompt, menu_actions};
use fennec::shortcuts::{custom_shortcuts, shortcut_plan, ShortcutTask};

fn custom(id: &str, label: &str, prompt: &str, shortcut: Option<&str>, icon: Option<&str>) -> CustomAction {
    CustomAction {
        id: id.into(),
        label: label.into(),
        subtitle: String::new(),
        prompt: prompt.into(),
        shortcut: shortcut.map(|s| s.into()),
        icon: icon.map(|s| s.into()),
    }
}

#[test]
fn default_config() {
    let s = ShortcutConfig::default();
    assert_eq!(s.correct, "CmdOrCtrl+Shift+.");
    assert_eq!(s.correct_all, "CmdOrCtrl+Shift+,");
    assert_eq!(s.menu, "CmdOrCtrl+Shift+L");
    assert_eq!(s.menu_all, "CmdOrCtrl+Shift+'");
    assert_eq!(s.undo, "CmdOrCtrl+Shift+Z");
    let c = FennecConfig::default();
    assert_eq!(c.api_key, "");
    assert_eq!(c.endpoint, "https://ai-gateway.radicalbit.ai/v1/chat/completions");
    assert_eq!(c.model, "");
    assert!(!c.launch_at_login);
    assert!(c.custom_actions.is_empty());
    assert!(c.tap_to_polish.is_none());
    assert!(!c.tap_to_polish_enabled());
}

#[test]
fn api_key_by_provider() {
    let mut c = FennecConfig::default();
    assert_eq!(c.require_api_key(), Err("API key not configured".to_string()));
    c.api_key = "gw".into();
    assert_eq!(c.active_api_key(), "gw");
    assert_eq!(c.require_api_key(), Ok(()));
    c.provider = "openai".into();
    assert_eq!(c.active_api_key(), "");
    assert_eq!(c.require_api_key(), Err("API key not configured".to_string()));
    c.openai_api_key = "sk".into();
    assert_eq!(c.active_api_key(), "sk");
    c.tap_to_polish = Some(TapToPolishConfig { enabled: true });
    assert!(c.tap_to_polish_enabled());
}

const TAIL: &str = " Auto-detect the language and reply in the same language. Return ONLY the corrected text, nothing else.\n\n";

#[test]
fn builtin_prompts() {
    let c = FennecConfig::default();
    assert_eq!(
        build_prompt(&c, "correct", "helo"),
        format!("Fix any grammar, spelling, and punctuation errors in the following text.{}helo", TAIL)
    );
    assert_eq!(
        build_prompt(&c, "formal", "hey"),
        format!("Rewrite the following text in a formal, professional tone.{}hey", TAIL)
    );
    assert_eq!(
        build_prompt(&c, "informal", "Dear Sir"),
        format!("Rewrite the following text in a casual, friendly tone.{}Dear Sir", TAIL)
    );
    assert_eq!(
        build_prompt(&c, "concise", "long"),
        format!("Make the following text more concise while keeping its meaning.{}long", TAIL)
    );
    assert_eq!(build_prompt(&c, "nonsense", "x"), build_prompt(&c, "correct", "x"));
}

#[test]
fn custom_prompts() {
    let mut c = FennecConfig::default();
    c.custom_actions.push(custom("emoji", "Emojify", "Add emojis.", None, None));
    c.custom_actions.push(custom("emoji", "Second", "Shadowed.", None, None));
    assert_eq!(
        build_prompt(&c, "custom_emoji", "hi"),
        "Add emojis.\n\nAuto-detect the language and reply in the same language. Return ONLY the rewritten text, nothing else.\n\nhi"
    );
    assert_eq!(build_prompt(&c, "custom_other", "hi"), build_prompt(&c, "correct", "hi"));
    assert_eq!(build_prompt(&c, "emoji", "hi"), build_prompt(&c, "correct", "hi"));
}

#[test]
fn action_menu() {
    let mut c = FennecConfig::default();
    c.custom_actions.push(custom("pirate", "Pirate", "Talk like a pirate.", None, Some("\u{1F3F4}")));
    c.custom_actions.push(custom("plain", "Plain", "Simplify.", None, None));
    let menu = menu_actions(&c);
    let expected: Vec<(String, String)> = vec![
        ("\u{2728} Smooth it out".into(), "correct".into()),
        ("\u{1F454} More formal".into(), "formal".into()),
        ("\u{1F60E} More casual".into(), "informal".into()),
        ("\u{2702}\u{FE0F} Make it shorter".into(), "concise".into()),
        ("\u{1F3F4} Pirate".into(), "custom_pirate".into()),
        ("\u{26A1} Plain".into(), "custom_plain".into()),
    ];
    assert_eq!(menu, expected);
    assert_eq!(action_for_title(&menu, "\u{1F454} More formal"), Some("formal".to_string()));
    assert_eq!(action_for_title(&menu, "\u{26A1} Plain"), Some("custom_plain".to_string()));
    assert_eq!(action_for_title(&menu, "Nothing"), None);
}

#[test]
fn custom_action_shortcuts() {
    let mut c = FennecConfig::default();
    c.custom_actions.push(custom("a", "A", "p", Some("CmdOrCtrl+Shift+1"), None));
    c.custom_actions.push(custom("b", "B", "p", None, None));
    c.custom_actions.push(custom("c", "C", "p", Some("CmdOrCtrl+Shift+3"), None));
    assert_eq!(
        custom_shortcuts(&c),
        vec![
            ("CmdOrCtrl+Shift+1".to_string(), "custom_a".to_string()),
            ("CmdOrCtrl+Shift+3".to_string(), "custom_c".to_string()),
        ]
    );
}

#[test]
fn shortcut_registration_plan() {
    let mut c = FennecConfig::default();
    c.custom_actions.push(custom("a", "A", "p", Some("CmdOrCtrl+Shift+1"), None));
    c.custom_actions.push(custom("b", "B", "p", None, None));
    let plan = shortcut_plan(&c);
    assert_eq!(plan.len(), 6);
    assert_eq!(plan[0].shortcut, "CmdOrCtrl+Shift+.");
    assert!(matches!(&plan[0].task, ShortcutTask::Run { action_id, select_all: false } if action_id == "correct"));
    assert_eq!(plan[1].shortcut, "CmdOrCtrl+Shift+,");
    assert!(matches!(&plan[1].task, ShortcutTask::Run { action_id, select_all: true } if action_id == "correct"));
    assert_eq!(plan[2].shortcut, "CmdOrCtrl+Shift+Z");
    assert!(matches!(plan[2].task, ShortcutTask::Undo));
    assert_eq!(plan[3].shortcut, "CmdOrCtrl+Shift+L");
    assert!(matches!(plan[3].task, ShortcutTask::Menu { select_all: false }));
    assert_eq!(plan[4].shortcut, "CmdOrCtrl+Shift+'");
    assert!(matches!(plan[4].task, ShortcutTask::Menu { select_all: true }));
    assert_eq!(plan[5].shortcut, "CmdOrCtrl+Shift+1");
    assert!(matches!(&plan[5].task, ShortcutTask::Run { action_id, select_all: false } if action_id == "custom_a"));
}
