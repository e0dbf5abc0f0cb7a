//! The decisions taken while a command runs: where the passphrase comes
//! from, whether a taken entry name is overwritten, and how a secret is
//! handed to the user.
use vstd::prelude::*;
use crate::error::PassageError;
use crate::store::Storage;

verus! {

/// What the passphrase resolver learns from the outside.
#[derive(Debug)]
pub enum PassphraseEvent {
    /// The command begins.
    Start,
    /// The secret cache held this passphrase.
    CacheHit(String),
    /// The secret cache held no passphrase, or could not be read.
    CacheMiss,
    /// The user typed this passphrase at the prompt.
    Entered(String),
    /// The typed passphrase was written to the cache.
    Stored(String),
    /// Writing the typed passphrase to the cache failed; this is not fatal.
    StoreFailed(String),
}

/// What the passphrase resolver asks the outside to do next.
#[derive(Debug)]
pub enum PassphraseAction {
    /// Read the secret cache.
    ReadCache,
    /// Ask the user, with input echo off.
    Prompt,
    /// Write this passphrase to the secret cache.
    Store(String),
    /// The passphrase is known.
    Done(String),
}

/// The resolver's decision. With the cache in use, a cached passphrase is
/// taken without prompting, and a typed one is stored for later commands;
/// without it, the cache is neither read nor written.
pub open spec fn passphrase_step_spec(use_cache: bool, event: PassphraseEvent) -> PassphraseAction {
    match event {
        PassphraseEvent::Start => if use_cache {
            PassphraseAction::ReadCache
        } else {
            PassphraseAction::Prompt
        },
        PassphraseEvent::CacheHit(p) => PassphraseAction::Done(p),
        PassphraseEvent::CacheMiss => PassphraseAction::Prompt,
        PassphraseEvent::Entered(p) => if use_cache {
            PassphraseAction::Store(p)
        } else {
            PassphraseAction::Done(p)
        },
        PassphraseEvent::Stored(p) => PassphraseAction::Done(p),
        PassphraseEvent::StoreFailed(p) => PassphraseAction::Done(p),
    }
}

/// The next action of the passphrase resolver after `event`.
pub fn passphrase_step(use_cache: bool, event: PassphraseEvent) -> (r: PassphraseAction)
    ensures
        r == passphrase_step_spec(use_cache, event),
{
    match event {
        PassphraseEvent::Start => if use_cache {
            PassphraseAction::ReadCache
        } else {
            PassphraseAction::Prompt
        },
        PassphraseEvent::CacheHit(p) => PassphraseAction::Done(p),
        PassphraseEvent::CacheMiss => PassphraseAction::Prompt,
        PassphraseEvent::Entered(p) => if use_cache {
            PassphraseAction::Store(p)
        } else {
            PassphraseAction::Done(p)
        },
        PassphraseEvent::Stored(p) => PassphraseAction::Done(p),
        PassphraseEvent::StoreFailed(p) => PassphraseAction::Done(p),
    }
}

/// A text in upper case, as str::to_uppercase gives it.
pub uninterp spec fn upper_of(s: Seq<char>) -> Seq<char>;

/// A character with the Unicode White_Space property.
pub open spec fn is_white_space(c: char) -> bool {
    let u = c as u32;
    (0x9 <= u <= 0xd) || u == 0x20 || u == 0x85 || u == 0xa0 || u == 0x1680 || (0x2000 <= u
        <= 0x200a) || u == 0x2028 || u == 0x2029 || u == 0x202f || u == 0x205f || u == 0x3000
}

/// A text without its leading whitespace.
pub open spec fn trim_start(s: Seq<char>) -> Seq<char>
    decreases s.len(),
{
    if s.len() > 0 && is_white_space(s[0]) {
        trim_start(s.drop_first())
    } else {
        s
    }
}

/// A text without its trailing whitespace.
pub open spec fn trim_end(s: Seq<char>) -> Seq<char>
    decreases s.len(),
{
    if s.len() > 0 && is_white_space(s.last()) {
        trim_end(s.drop_last())
    } else {
        s
    }
}

/// A text without its leading and trailing whitespace.
pub open spec fn trim_of(s: Seq<char>) -> Seq<char> {
    trim_end(trim_start(s))
}

/// Whether `c` has the Unicode White_Space property.
fn white_space(c: char) -> (r: bool)
    ensures
        r == is_white_space(c),
{
    let u = c as u32;
    (0x9 <= u && u <= 0xd) || u == 0x20 || u == 0x85 || u == 0xa0 || u == 0x1680 || (0x2000 <= u
        && u <= 0x200a) || u == 0x2028 || u == 0x2029 || u == 0x202f || u == 0x205f || u == 0x3000
}

/// A text without its leading and trailing whitespace.
pub fn trimmed(s: &str) -> (r: &str)
    ensures
        r@ == trim_of(s@),
{
    let n = s.unicode_len();
    let mut i: usize = 0;
    assert(s@.subrange(0, n as int) =~= s@);
    while i < n && white_space(s.get_char(i))
        invariant
            n == s@.len(),
            i <= n,
            trim_start(s@) == trim_start(s@.subrange(i as int, n as int)),
        decreases n - i,
    {
        assert(s@.subrange(i as int, n as int).drop_first() =~= s@.subrange(i + 1, n as int));
        i = i + 1;
    }
    assert(trim_start(s@) == s@.subrange(i as int, n as int));
    let mut j: usize = n;
    while j > i && white_space(s.get_char(j - 1))
        invariant
            n == s@.len(),
            i <= j <= n,
            trim_of(s@) == trim_end(s@.subrange(i as int, j as int)),
        decreases j - i,
    {
        assert(s@.subrange(i as int, j as int).drop_last() =~= s@.subrange(i as int, j - 1));
        j = j - 1;
    }
    s.substring_char(i, j)
}

/// Relies on str::to_uppercase: maps each character to upper case.
#[verifier::external_body]
fn uppercased(s: &str) -> (r: String)
    ensures
        r@ == upper_of(s@),
{
    s.to_uppercase()
}

/// An entry name as typed on a line: without surrounding whitespace.
pub fn entry_name(line: &str) -> (r: String)
    ensures
        r@ == trim_of(line@),
{
    String::from_str(trimmed(line))
}

/// Whether a trimmed, upper-cased answer says yes.
pub fn is_affirmative(answer: &str) -> (r: bool)
    ensures
        r == (answer@ == "Y"@),
{
    proof {
        reveal_strlit("Y");
    }
    if answer.unicode_len() != 1 {
        return false;
    }
    let c = answer.get_char(0);
    assert("Y"@.len() == 1 && "Y"@[0] == 'Y');
    if c == 'Y' {
        assert(answer@ =~= "Y"@);
        true
    } else {
        assert(answer@[0] != "Y"@[0]);
        false
    }
}

/// Whether the answer to "overwrite?" confirms it. Anything but a yes,
/// an empty answer included, declines.
pub fn confirms_overwrite(answer: &str) -> (r: bool)
    ensures
        r == (upper_of(trim_of(answer@)) == "Y"@),
{
    let upper = uppercased(trimmed(answer));
    is_affirmative(upper.as_str())
}

/// Seconds after which a secret put on the clipboard is cleared.
pub const CLIPBOARD_CLEAR_SECS: u64 = 10;

/// How a secret reaches the user.
#[derive(Debug)]
pub enum Exposure {
    /// Printed on standard output.
    Print(String),
    /// Put on the clipboard, and cleared again after the delay.
    Clipboard { secret: String, clear_after_secs: u64 },
}

/// The password of the entry called `name`, to be printed where `on_screen`
/// asks for it, else put on the clipboard for a while.
pub fn show_entry(storage: &Storage, name: &str, on_screen: bool) -> (r: Result<Exposure, PassageError>)
    requires
        storage.wf(),
    ensures
        storage@.contains_key(name@) && on_screen ==> r is Ok && r->Ok_0 is Print
            && r->Ok_0->Print_0@ == storage@[name@],
        storage@.contains_key(name@) && !on_screen ==> r is Ok && r->Ok_0 is Clipboard
            && r->Ok_0->Clipboard_secret@ == storage@[name@] && r->Ok_0->clear_after_secs
            == CLIPBOARD_CLEAR_SECS,
        !storage@.contains_key(name@) ==> r is Err && r->Err_0 is EntryNotFound
            && r->Err_0->EntryNotFound_name@ == name@,
{
    let password = storage.show(name)?;
    if on_screen {
        Ok(Exposure::Print(password))
    } else {
        Ok(Exposure::Clipboard { secret: password, clear_after_secs: CLIPBOARD_CLEAR_SECS })
    }
}

/// The status report on where the store keeps its files.
pub open spec fn info_spec(
    entries_file: Seq<char>,
    file_exists: bool,
    hooks_dir: Seq<char>,
    hooks_exist: bool,
) -> Seq<Seq<char>> {
    seq![
        if file_exists {
            "Storage file: "@ + entries_file
        } else {
            "Storage file doesn't exist yet, run `passage init` to create it"@
        },
        if hooks_exist {
            "Hooks directory: "@ + hooks_dir
        } else {
            "Hooks directory does not exist yet: "@ + hooks_dir
        },
    ]
}

/// The lines of the status report, given the two paths and whether each
/// exists.
pub fn info_lines(entries_file: &str, file_exists: bool, hooks_dir: &str, hooks_exist: bool) -> (r:
    Vec<String>)
    ensures
        r.deep_view() == info_spec(entries_file@, file_exists, hooks_dir@, hooks_exist),
{
    let first = if file_exists {
        String::from_str("Storage file: ").concat(entries_file)
    } else {
        String::from_str("Storage file doesn't exist yet, run `passage init` to create it")
    };
    let second = if hooks_exist {
        String::from_str("Hooks directory: ").concat(hooks_dir)
    } else {
        String::from_str("Hooks directory does not exist yet: ").concat(hooks_dir)
    };
    let r = vec![first, second];
    assert(r.deep_view() =~= info_spec(entries_file@, file_exists, hooks_dir@, hooks_exist));
    r
}

} // verus!
