use passage::codec::{decrypt, encrypt};
use passage::document::{storage_from_plaintext, storage_from_toml, storage_to_toml};
use passage::nesting::toml_nesting_bounded;
use passage::error::PassageError;
use passage::repository::{load_storage, save_storage};
use passage::session::{show_entry, Exposure};
use passage::store::Storage;

fn sorted_names(s: &Storage) -> Vec<String> {
    let mut n = s.names();
    n.sort();
    n
}

#[test]
fn test_ok() {
    let text = b"this is plain";
    let passphrase = "secret";
    let encrypted = encrypt(text, passphrase).unwrap();
    let decrypted = decrypt(&encrypted, passphrase).unwrap();
    assert_eq!(decrypted, text);
}

#[test]
fn test_entry_serialization() {
    let s = storage_from_toml("[foo] \n password = 'bar'").unwrap();
    assert_eq!(s.show("foo").unwrap(), "bar");
}

#[test]
fn encrypted_blob_differs_from_plaintext_and_is_not_empty() {
    let encrypted = encrypt(b"this is plain", "secret").unwrap();
    assert!(!encrypted.is_empty());
    assert_ne!(encrypted, b"this is plain".to_vec());
}

#[test]
fn decrypt_with_wrong_passphrase_fails() {
    let encrypted = encrypt(b"this is plain", "secret").unwrap();
    let r = decrypt(&encrypted, "not the secret");
    assert!(matches!(r, Err(PassageError::DecryptionFailed)));
}

#[test]
fn decrypt_garbage_fails() {
    let r = decrypt(b"certainly not an age file", "secret");
    assert!(matches!(r, Err(PassageError::DecryptionFailed)));
}

#[test]
fn decrypt_tampered_blob_fails() {
    let mut encrypted = encrypt(b"this is plain", "secret").unwrap();
    let last = encrypted.len() - 1;
    encrypted[last] ^= 1;
    let r = decrypt(&encrypted, "secret");
    assert!(matches!(r, Err(PassageError::DecryptionFailed)));
}

#[test]
fn load_of_empty_file_is_empty_store() {
    let s = load_storage(&[], "whatever").unwrap();
    assert!(s.names().is_empty());
}

#[test]
fn save_then_load_keeps_entries() {
    let mut s = Storage::new();
    s.add("mail".to_string(), "pw1".to_string());
    s.add("bank".to_string(), "pw2".to_string());
    let blob = save_storage(&s, "master").unwrap();
    assert!(!blob.is_empty());
    let back = load_storage(&blob, "master").unwrap();
    assert_eq!(sorted_names(&back), vec!["bank".to_string(), "mail".to_string()]);
    assert_eq!(back.show("mail").unwrap(), "pw1");
    assert_eq!(back.show("bank").unwrap(), "pw2");
}

#[test]
fn load_with_wrong_passphrase_fails() {
    let mut s = Storage::new();
    s.add("mail".to_string(), "pw1".to_string());
    let blob = save_storage(&s, "master").unwrap();
    assert!(matches!(load_storage(&blob, "other"), Err(PassageError::DecryptionFailed)));
}

#[test]
fn empty_store_saves_to_nonempty_blob() {
    let blob = save_storage(&Storage::new(), "secret").unwrap();
    assert!(!blob.is_empty());
    assert!(load_storage(&blob, "secret").unwrap().names().is_empty());
}

#[test]
fn toml_round_trip() {
    let mut s = Storage::new();
    s.add("a b".to_string(), "p'w\"1".to_string());
    s.add("x".to_string(), "".to_string());
    let doc = storage_to_toml(&s).unwrap();
    let text = String::from_utf8(doc.clone()).unwrap();
    assert!(text.contains("password"));
    let back = storage_from_plaintext(doc).unwrap();
    assert_eq!(back.show("a b").unwrap(), "p'w\"1");
    assert_eq!(back.show("x").unwrap(), "");
    assert_eq!(back.names().len(), 2);
}

#[test]
fn toml_of_empty_store_reads_back_empty() {
    let doc = storage_to_toml(&Storage::new()).unwrap();
    assert!(storage_from_plaintext(doc).unwrap().names().is_empty());
}

#[test]
fn plaintext_not_utf8_is_corrupt() {
    let r = storage_from_plaintext(vec![0xff, 0xfe, 0x00]);
    assert!(matches!(r, Err(PassageError::CorruptStorage)));
}

#[test]
fn toml_without_password_field_is_corrupt() {
    let r = storage_from_toml("[foo]\nuser = 'bar'\n");
    assert!(matches!(r, Err(PassageError::CorruptStorage)));
}

#[test]
fn malformed_toml_is_corrupt() {
    let r = storage_from_toml("[foo\npassword = ");
    assert!(matches!(r, Err(PassageError::CorruptStorage)));
}

#[test]
fn crud_cycle() {
    let mut s = Storage::new();
    s.add("x".to_string(), "pw1".to_string());
    assert!(s.names().contains(&"x".to_string()));
    s.edit("x", "pw2".to_string()).unwrap();
    assert_eq!(s.show("x").unwrap(), "pw2");
    s.remove("x").unwrap();
    assert!(!s.names().contains(&"x".to_string()));
    assert!(!s.contains("x"));
}

#[test]
fn remove_missing_is_entry_not_found() {
    let mut s = Storage::new();
    s.add("x".to_string(), "pw1".to_string());
    match s.remove("missing") {
        Err(PassageError::EntryNotFound { name }) => assert_eq!(name, "missing"),
        other => panic!("unexpected {:?}", other),
    }
    assert_eq!(s.show("x").unwrap(), "pw1");
}

#[test]
fn edit_missing_is_entry_not_found() {
    let mut s = Storage::new();
    match s.edit("missing", "pw".to_string()) {
        Err(PassageError::EntryNotFound { name }) => assert_eq!(name, "missing"),
        other => panic!("unexpected {:?}", other),
    }
    assert!(s.names().is_empty());
}

#[test]
fn add_same_name_keeps_one_entry() {
    let mut s = Storage::new();
    s.add("x".to_string(), "pw1".to_string());
    s.add("x".to_string(), "pw2".to_string());
    assert_eq!(s.names(), vec!["x".to_string()]);
    assert_eq!(s.show("x").unwrap(), "pw2");
}

#[test]
fn remove_keeps_other_entries() {
    let mut s = Storage::new();
    s.add("a".to_string(), "1".to_string());
    s.add("b".to_string(), "2".to_string());
    s.add("c".to_string(), "3".to_string());
    s.remove("b").unwrap();
    assert_eq!(sorted_names(&s), vec!["a".to_string(), "c".to_string()]);
    assert_eq!(s.show("a").unwrap(), "1");
    assert_eq!(s.show("c").unwrap(), "3");
}

#[test]
fn declined_overwrite_keeps_password() {
    let mut s = Storage::new();
    s.add("x".to_string(), "pw1".to_string());
    let changed = s.add_confirmed("x".to_string(), "pw2".to_string(), false);
    assert!(!changed);
    assert_eq!(s.show("x").unwrap(), "pw1");
}

#[test]
fn confirmed_overwrite_sets_password() {
    let mut s = Storage::new();
    s.add("x".to_string(), "pw1".to_string());
    assert!(s.add_confirmed("x".to_string(), "pw2".to_string(), true));
    assert_eq!(s.show("x").unwrap(), "pw2");
}

#[test]
fn new_name_needs_no_confirmation() {
    let mut s = Storage::new();
    assert!(s.add_confirmed("y".to_string(), "pw".to_string(), false));
    assert_eq!(s.show("y").unwrap(), "pw");
}

#[test]
fn init_new_show_scenario() {
    let blob = save_storage(&Storage::new(), "secret").unwrap();
    let mut s = load_storage(&blob, "secret").unwrap();
    s.add("email".to_string(), "hunter2".to_string());
    let blob = save_storage(&s, "secret").unwrap();
    let s = load_storage(&blob, "secret").unwrap();
    match show_entry(&s, "email", true).unwrap() {
        Exposure::Print(p) => assert_eq!(p, "hunter2"),
        other => panic!("unexpected {:?}", other),
    }
}

#[test]
fn show_nonexistent_fails_without_change() {
    let mut s = Storage::new();
    s.add("email".to_string(), "hunter2".to_string());
    match show_entry(&s, "nonexistent", true) {
        Err(e @ PassageError::EntryNotFound { .. }) => {
            assert_eq!(e.message(), "entry not found: nonexistent")
        }
        other => panic!("unexpected {:?}", other),
    }
    assert_eq!(s.names(), vec!["email".to_string()]);
    assert_eq!(s.show("email").unwrap(), "hunter2");
}

#[test]
fn show_to_clipboard_clears_after_ten_seconds() {
    let mut s = Storage::new();
    s.add("email".to_string(), "hunter2".to_string());
    match show_entry(&s, "email", false).unwrap() {
        Exposure::Clipboard { secret, clear_after_secs } => {
            assert_eq!(secret, "hunter2");
            assert_eq!(clear_after_secs, 10);
        }
        other => panic!("unexpected {:?}", other),
    }
}

#[test]
fn ciphertext_is_longer_than_plaintext() {
    let empty = encrypt(b"", "secret").unwrap();
    assert!(!empty.is_empty());
    let text = vec![7u8; 1000];
    let c = encrypt(&text, "secret").unwrap();
    assert!(c.len() > text.len());
}

#[test]
fn deeply_nested_arrays_are_corrupt() {
    let text = format!("a = {}", "[".repeat(100000));
    assert!(!toml_nesting_bounded(&text));
    assert!(matches!(storage_from_toml(&text), Err(PassageError::CorruptStorage)));
}

#[test]
fn deeply_nested_inline_tables_are_corrupt() {
    let text = format!("a = {}", "{b = ".repeat(100000));
    assert!(matches!(storage_from_toml(&text), Err(PassageError::CorruptStorage)));
}

#[test]
fn long_dotted_key_is_corrupt() {
    let text = format!("a{} = 'x'", ".a".repeat(100000));
    assert!(!toml_nesting_bounded(&text));
    assert!(matches!(storage_from_toml(&text), Err(PassageError::CorruptStorage)));
}

#[test]
fn nesting_at_the_limit_reaches_the_parser() {
    let text = format!("a = {}", "[".repeat(256));
    assert!(toml_nesting_bounded(&text));
    assert!(!toml_nesting_bounded(&format!("a = {}", "[".repeat(257))));
    assert!(matches!(storage_from_toml(&text), Err(PassageError::CorruptStorage)));
    let dotted = format!("a{} = 'x'", ".a".repeat(256));
    assert!(toml_nesting_bounded(&dotted));
    assert!(matches!(storage_from_toml(&dotted), Err(PassageError::CorruptStorage)));
}

#[test]
fn large_store_with_odd_passwords_survives_save_and_load() {
    let odd = format!("{}{}{}", ".".repeat(300), "[".repeat(300), "{]}\"'#".repeat(50));
    let mut s = Storage::new();
    for i in 0..300 {
        s.add(format!("site{}.example.com", i), format!("pw{}", i));
    }
    s.add("odd.entry".to_string(), odd.clone());
    let doc = storage_to_toml(&s).unwrap();
    assert!(toml_nesting_bounded(&String::from_utf8(doc).unwrap()));
    let blob = save_storage(&s, "master").unwrap();
    let back = load_storage(&blob, "master").unwrap();
    assert_eq!(back.names().len(), 301);
    assert_eq!(back.show("site299.example.com").unwrap(), "pw299");
    assert_eq!(back.show("odd.entry").unwrap(), odd);
}

#[test]
fn brackets_in_strings_and_comments_do_not_count() {
    let deep = "[".repeat(1000);
    assert!(toml_nesting_bounded(&format!("a = \"{}\"", deep)));
    assert!(toml_nesting_bounded(&format!("a = '{}'", deep)));
    assert!(toml_nesting_bounded(&format!("# {}\na = 1", deep)));
    assert!(toml_nesting_bounded(&format!("a = \"\"\"\n{}\n\"\"\"", deep)));
    assert!(toml_nesting_bounded(&format!("a = \'\'\'{}\'\'\'", deep)));
    assert!(toml_nesting_bounded(&format!("a = \"{}\"", ".".repeat(1000))));
}

#[test]
fn closers_in_strings_do_not_lower_the_count() {
    let open = "[".repeat(300);
    assert!(!toml_nesting_bounded(&format!("a = [\"{}\", {}", "]".repeat(300), open)));
    assert!(!toml_nesting_bounded(&format!("a = [\"\\\"{}\", {}", "]".repeat(300), open)));
    assert!(!toml_nesting_bounded(&format!("a = [# {}\n{}", "]".repeat(300), open)));
    assert!(!toml_nesting_bounded(&format!("a = [\"\"\"x\"\"\"\"\", {}", open)));
    assert!(!toml_nesting_bounded(&format!("a = [\'{}\', {}", "]".repeat(300), open)));
}

#[test]
fn headers_close_on_their_own_line() {
    let mut text = String::new();
    for i in 0..1000 {
        text.push_str(&format!("[\"n{}\"]\npassword = 'p'\n", i));
    }
    assert!(toml_nesting_bounded(&text));
    assert_eq!(storage_from_toml(&text).unwrap().names().len(), 1000);
}

#[test]
fn add_allowed_follows_confirmation() {
    let mut s = Storage::new();
    assert!(s.add_allowed("x", false));
    s.add("x".to_string(), "pw".to_string());
    assert!(!s.add_allowed("x", false));
    assert!(s.add_allowed("x", true));
}
