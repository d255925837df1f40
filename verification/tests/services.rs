use fennec::ai::{after_attempt, bearer, reply_text, should_retry, AttemptOutcome};
use fennec::ax::{
    clipboard_read_outcome, describe_script_output, frontmost_pid, retry_focus, selection_from,
    write_took_effect, ReadResult,
};
use fennec::flow::{after_read, after_reply, after_write, begin_action, settle_read, ReadAttempt, Step};
use fennec::config::FennecConfig;
use fennec::log::LogBuffer;
use fennec::models::select_chat_models;
use fennec::session::{check_read, idle_icon, loading_frame, take_undo};

fn strings(list: &[&str]) -> Vec<String> {
    list.iter().map(|s| s.to_string()).collect()
}

#[test]
fn chat_models_filtered_and_sorted() {
    let ids = strings(&["whisper-1", "gpt-4o", "o1-mini", "dall-e-3", "chatgpt-4o-latest", "gpt-3.5-turbo", "o1", "text-embedding-3"]);
    assert_eq!(
        select_chat_models(ids),
        strings(&["chatgpt-4o-latest", "gpt-3.5-turbo", "gpt-4o", "o1", "o1-mini"])
    );
    assert_eq!(select_chat_models(strings(&["b", "a"])), Vec::<String>::new());
    assert_eq!(select_chat_models(strings(&["o3", "o1", "o3"])), strings(&["o1", "o3", "o3"]));
}

#[test]
fn log_keeps_last_200() {
    let mut log = LogBuffer::new();
    let line = log.record("12:00:00", "started");
    assert_eq!(line, "[12:00:00] started");
    for i in 0..250 {
        log.push(format!("line {}", i));
    }
    assert_eq!(log.len(), 200);
    let lines = log.lines();
    assert_eq!(lines.first().map(|s| s.as_str()), Some("line 50"));
    assert_eq!(lines.last().map(|s| s.as_str()), Some("line 249"));
}

#[test]
fn retry_policy() {
    assert!(should_retry("Request failed: timeout"));
    assert!(!should_retry("AI Gateway error: BLOCKED by policy"));
    assert!(!should_retry("guardrail triggered"));
    assert!(matches!(after_attempt(true, Err("Request failed".into())), AttemptOutcome::RetryAfterMs(500)));
    assert!(matches!(after_attempt(false, Err("Request failed".into())), AttemptOutcome::Return(Err(ref e)) if e == "Request failed"));
    assert!(matches!(after_attempt(true, Err("BLOCKED".into())), AttemptOutcome::Return(Err(_))));
    assert!(matches!(after_attempt(true, Ok("fine".into())), AttemptOutcome::Return(Ok(ref t)) if t == "fine"));
}

#[test]
fn reply_and_header() {
    assert_eq!(reply_text(&strings(&["  Hello there.\n", "other"])), "Hello there.");
    assert_eq!(bearer("sk-1"), "Bearer sk-1");
}

#[test]
fn accessibility_decisions() {
    assert!(retry_focus(0, "No focused element (AXError: -25212)"));
    assert!(retry_focus(1, "AXError: -25212"));
    assert!(!retry_focus(2, "AXError: -25212"));
    assert!(!retry_focus(0, "AXError: -25204"));
    assert_eq!(frontmost_pid(42), Some(42));
    assert_eq!(frontmost_pid(0), None);
    assert_eq!(frontmost_pid(-1), None);
    let sel = selection_from(Some("word".into())).unwrap();
    assert_eq!(sel.text, "word");
    assert!(sel.was_selected);
    assert!(selection_from(Some(String::new())).is_none());
    assert!(selection_from(None).is_none());
    assert!(write_took_effect("Hello, fixed text here", "  fixed text \n"));
    assert!(!write_took_effect("Hello", "Bye"));
    assert_eq!(clipboard_read_outcome("  \n".into()), Err("Clipboard fallback: no text read".to_string()));
    assert_eq!(clipboard_read_outcome(" x ".into()), Ok(" x ".to_string()));
    assert_eq!(describe_script_output("  Safari (PID: 1)\n", ""), "Safari (PID: 1)");
    assert_eq!(describe_script_output("", " denied "), "STDERR: denied");
    assert_eq!(describe_script_output(" ", "\n"), "No output");
}

#[test]
fn undo_only_once() {
    let mut slot = Some("original".to_string());
    assert_eq!(take_undo(&mut slot), Ok("original".to_string()));
    assert_eq!(take_undo(&mut slot), Err("Nothing to undo".to_string()));
}

#[test]
fn read_checks_and_tray_frames() {
    let blank = ReadResult { text: " \n".into(), was_selected: true };
    assert_eq!(check_read(blank).err(), Some("No text selected".to_string()));
    let ok = check_read(ReadResult { text: "hi".into(), was_selected: false }).unwrap();
    assert_eq!(ok.text, "hi");
    assert!(!ok.was_selected);
    assert_eq!(loading_frame(0), "icons/tray_anim_0.png");
    assert_eq!(loading_frame(3), "icons/tray_anim_1.png");
    assert_eq!(loading_frame(6), "icons/tray_anim_2.png");
    assert_eq!(idle_icon(true), "icons/tray_dev.png");
    assert_eq!(idle_icon(false), "icons/tray_color.png");
}

#[test]
fn action_flow() {
    let mut config = FennecConfig::default();
    assert!(matches!(begin_action(&config, "correct", false, None), Step::Fail(ref e) if e == "API key not configured"));
    config.api_key = "key".into();
    assert!(matches!(begin_action(&config, "correct", true, None), Step::Read { select_all: true }));
    let pre = ReadResult { text: "teh cat".into(), was_selected: true };
    match begin_action(&config, "formal", false, Some(pre)) {
        Step::Ask { prompt, read } => {
            assert!(prompt.starts_with("Rewrite the following text in a formal"));
            assert!(prompt.ends_with("teh cat"));
            assert_eq!(read.text, "teh cat");
        }
        _ => panic!("expected a request to the model"),
    }
    let read = settle_read(ReadAttempt::All(Ok("all of it".into()))).unwrap();
    assert!(!read.was_selected);
    assert_eq!(settle_read(ReadAttempt::Selection(Ok(None))).err(), Some("No text selected".to_string()));
    assert_eq!(settle_read(ReadAttempt::All(Ok("  ".into()))).err(), Some("No text selected".to_string()));
    assert_eq!(settle_read(ReadAttempt::All(Err("boom".into()))).err(), Some("boom".to_string()));
    assert!(matches!(after_read(&config, "correct", Err("no".into())), Step::Fail(ref e) if e == "no"));
    match after_reply(ReadResult { text: "teh".into(), was_selected: false }, Ok("the".into())) {
        Step::Write { text, was_selected, original } => {
            assert_eq!(text, "the");
            assert!(!was_selected);
            assert_eq!(original, "teh");
        }
        _ => panic!("expected a write"),
    }
    assert!(matches!(after_reply(read, Err("AI down".into())), Step::Fail(ref e) if e == "AI down"));
    assert!(matches!(after_write(Ok(())), Step::Succeed));
    assert!(matches!(after_write(Err("paste".into())), Step::Fail(_)));
}
