use passage::error::PassageError;
use passage::hooks::{
    entries_file, hook_path, hook_report, hook_status, hooks_dir, join_path, running_notice,
    text_lines, Hook, HookEvent,
};
use passage::session::{
    confirms_overwrite, entry_name, info_lines, is_affirmative, passphrase_step, trimmed,
    PassphraseAction, PassphraseEvent,
};

#[test]
fn hook_and_event_names() {
    assert_eq!(Hook::PreLoad.name(), "pre_load");
    assert_eq!(Hook::PostSave.name(), "post_save");
    assert_eq!(HookEvent::NewEntry.name(), "new_entry");
    assert_eq!(HookEvent::ListEntries.name(), "list_entries");
    assert_eq!(HookEvent::ShowEntry.name(), "show_entry");
}

#[test]
fn store_paths() {
    assert_eq!(entries_file("/data/passage"), "/data/passage/entries.toml.age");
    assert_eq!(entries_file("/data/passage/"), "/data/passage/entries.toml.age");
    assert_eq!(hooks_dir("/data/passage"), "/data/passage/hooks");
    assert_eq!(hook_path("/data/passage/hooks", Hook::PostSave), "/data/passage/hooks/post_save");
    assert_eq!(join_path("", "hooks"), "hooks");
}

#[test]
fn hook_output_is_prefixed() {
    let r = hook_report(Hook::PreLoad, b"one\ntwo\n".to_vec(), b"oops\r\n".to_vec()).unwrap();
    assert_eq!(r, vec!["pre_load: one", "pre_load: two", "pre_load: oops"]);
}

#[test]
fn hook_without_output_reports_nothing() {
    let r = hook_report(Hook::PostSave, vec![], vec![]).unwrap();
    assert!(r.is_empty());
}

#[test]
fn hook_output_not_utf8_fails() {
    match hook_report(Hook::PostSave, vec![0xff], vec![]) {
        Err(PassageError::HookOutputInvalid { hook }) => assert_eq!(hook, "post_save"),
        other => panic!("unexpected {:?}", other),
    }
}

#[test]
fn failed_hook_is_an_error() {
    assert!(hook_status(Hook::PreLoad, true).is_ok());
    let e = hook_status(Hook::PostSave, false).unwrap_err();
    assert_eq!(e.message(), "post_save hook failed");
    assert_eq!(running_notice(Hook::PreLoad), "Running pre_load hook");
}

#[test]
fn error_messages_name_what_failed() {
    let e = PassageError::EntryNotFound { name: "404".to_string() };
    assert_eq!(e.message(), "entry not found: 404");
    assert_eq!(
        PassageError::StorageUninitialized.message(),
        "storage not initialized, run `passage init`"
    );
}

#[test]
fn cached_passphrase_is_used_without_prompt() {
    assert!(matches!(passphrase_step(true, PassphraseEvent::Start), PassphraseAction::ReadCache));
    match passphrase_step(true, PassphraseEvent::CacheHit("pw".to_string())) {
        PassphraseAction::Done(p) => assert_eq!(p, "pw"),
        other => panic!("unexpected {:?}", other),
    }
}

#[test]
fn typed_passphrase_is_stored_when_caching() {
    assert!(matches!(passphrase_step(true, PassphraseEvent::CacheMiss), PassphraseAction::Prompt));
    match passphrase_step(true, PassphraseEvent::Entered("pw".to_string())) {
        PassphraseAction::Store(p) => assert_eq!(p, "pw"),
        other => panic!("unexpected {:?}", other),
    }
    match passphrase_step(true, PassphraseEvent::StoreFailed("pw".to_string())) {
        PassphraseAction::Done(p) => assert_eq!(p, "pw"),
        other => panic!("unexpected {:?}", other),
    }
}

#[test]
fn no_cache_mode_only_prompts() {
    assert!(matches!(passphrase_step(false, PassphraseEvent::Start), PassphraseAction::Prompt));
    match passphrase_step(false, PassphraseEvent::Entered("pw".to_string())) {
        PassphraseAction::Done(p) => assert_eq!(p, "pw"),
        other => panic!("unexpected {:?}", other),
    }
}

#[test]
fn overwrite_answers() {
    assert!(confirms_overwrite("y\n"));
    assert!(confirms_overwrite("  Y "));
    assert!(!confirms_overwrite(""));
    assert!(!confirms_overwrite("n"));
    assert!(!confirms_overwrite("yes"));
    assert!(is_affirmative("Y"));
    assert!(!is_affirmative("y"));
}

#[test]
fn entry_name_is_trimmed() {
    assert_eq!(entry_name("  email \n"), "email");
}

#[test]
fn info_report() {
    assert_eq!(
        info_lines("/d/entries.toml.age", true, "/d/hooks", false),
        vec!["Storage file: /d/entries.toml.age", "Hooks directory does not exist yet: /d/hooks"]
    );
    assert_eq!(
        info_lines("/d/entries.toml.age", false, "/d/hooks", true),
        vec![
            "Storage file doesn't exist yet, run `passage init` to create it",
            "Hooks directory: /d/hooks"
        ]
    );
}

#[test]
fn lines_split_like_str_lines() {
    assert_eq!(text_lines("a\r\nb"), vec!["a", "b"]);
    assert_eq!(text_lines("a\n\nb\n"), vec!["a", "", "b"]);
    assert_eq!(text_lines("\n"), vec![""]);
    assert!(text_lines("").is_empty());
    assert_eq!(text_lines("x\ry\n"), vec!["x\ry"]);
    for t in ["a\r", "é\r\nü", "one\ntwo\r\n\r\nthree"] {
        assert_eq!(text_lines(t), t.lines().collect::<Vec<_>>());
    }
}

#[test]
fn trim_drops_unicode_white_space() {
    assert_eq!(trimmed("\u{3000}\u{a0} x y\u{2028}\t"), "x y");
    assert_eq!(trimmed(" \n "), "");
    assert_eq!(trimmed(""), "");
    for t in ["\u{85}a\u{200a}", "\u{200b}b\u{200b}", "\r\n y \u{1680}", "\u{feff}z"] {
        assert_eq!(trimmed(t), t.trim());
    }
}
