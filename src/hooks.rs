//! Placement of the store's files, and the hooks that run around loading and
//! saving.
use vstd::prelude::*;
use vstd::utf8::{decode_utf8, valid_utf8};
use crate::document::utf8_text;
use crate::error::PassageError;

verus! {

/// The name of the encrypted entry file inside the storage directory.
pub const ENTRIES_FILE_NAME: &'static str = "entries.toml.age";

/// The name of the hooks directory inside the storage directory.
pub const HOOKS_DIR_NAME: &'static str = "hooks";

/// `dir` joined with the relative path `name`, as a path join does it on a
/// system whose separator is `/`.
pub open spec fn join_spec(dir: Seq<char>, name: Seq<char>) -> Seq<char> {
    if dir.len() == 0 {
        name
    } else if dir.last() == '/' {
        dir + name
    } else {
        dir + seq!['/'] + name
    }
}

/// Joins the relative path `name` onto the directory `dir`.
pub fn join_path(dir: &str, name: &str) -> (r: String)
    ensures
        r@ == join_spec(dir@, name@),
{
    let n = dir.unicode_len();
    if n == 0 {
        String::from_str(name)
    } else if dir.get_char(n - 1) == '/' {
        String::from_str(dir).concat(name)
    } else {
        let r = String::from_str(dir).concat("/").concat(name);
        proof {
            reveal_strlit("/");
        }
        assert(r@ =~= dir@ + seq!['/'] + name@);
        r
    }
}

/// Path of the encrypted entry file of the store kept in `storage_dir`.
pub fn entries_file(storage_dir: &str) -> (r: String)
    ensures
        r@ == join_spec(storage_dir@, ENTRIES_FILE_NAME@),
{
    join_path(storage_dir, ENTRIES_FILE_NAME)
}

/// Path of the hooks directory of the store kept in `storage_dir`.
pub fn hooks_dir(storage_dir: &str) -> (r: String)
    ensures
        r@ == join_spec(storage_dir@, HOOKS_DIR_NAME@),
{
    join_path(storage_dir, HOOKS_DIR_NAME)
}

/// A script that can be run at a fixed point of a command.
#[derive(Debug, Clone, Copy, PartialEq, Eq, Structural)]
pub enum Hook {
    /// Runs before the store file is read.
    PreLoad,
    /// Runs after the store file was written.
    PostSave,
}

/// The command that triggers a hook; handed to the hook as its argument.
#[derive(Debug, Clone, Copy, PartialEq, Eq, Structural)]
pub enum HookEvent {
    NewEntry,
    ListEntries,
    ShowEntry,
}

/// File name of a hook's script inside the hooks directory.
pub open spec fn hook_name_spec(h: Hook) -> Seq<char> {
    match h {
        Hook::PreLoad => "pre_load"@,
        Hook::PostSave => "post_save"@,
    }
}

/// Name of an event, as handed to a hook.
pub open spec fn event_name_spec(e: HookEvent) -> Seq<char> {
    match e {
        HookEvent::NewEntry => "new_entry"@,
        HookEvent::ListEntries => "list_entries"@,
        HookEvent::ShowEntry => "show_entry"@,
    }
}

impl Hook {
    /// File name of the hook's script.
    pub fn name(&self) -> (r: String)
        ensures
            r@ == hook_name_spec(*self),
    {
        match *self {
            Hook::PreLoad => String::from_str("pre_load"),
            Hook::PostSave => String::from_str("post_save"),
        }
    }
}

impl HookEvent {
    /// Name of the event, handed to a hook as its argument.
    pub fn name(&self) -> (r: String)
        ensures
            r@ == event_name_spec(*self),
    {
        match *self {
            HookEvent::NewEntry => String::from_str("new_entry"),
            HookEvent::ListEntries => String::from_str("list_entries"),
            HookEvent::ShowEntry => String::from_str("show_entry"),
        }
    }
}

/// Path of a hook's script inside the hooks directory `hooks_dir`.
pub fn hook_path(hooks_dir: &str, hook: Hook) -> (r: String)
    ensures
        r@ == join_spec(hooks_dir@, hook_name_spec(hook)),
{
    let name = hook.name();
    join_path(hooks_dir, name.as_str())
}

/// A line without the carriage return that ends it, if any.
pub open spec fn strip_cr(line: Seq<char>) -> Seq<char> {
    if line.len() > 0 && line.last() == '\r' {
        line.drop_last()
    } else {
        line
    }
}

/// The finished lines of a text, and the part after its last newline.
pub open spec fn split_state(s: Seq<char>) -> (Seq<Seq<char>>, Seq<char>)
    decreases s.len(),
{
    if s.len() == 0 {
        (seq![], seq![])
    } else {
        let (done, current) = split_state(s.drop_last());
        if s.last() == '\n' {
            (done.push(strip_cr(current)), seq![])
        } else {
            (done, current.push(s.last()))
        }
    }
}

/// The lines of a text: split at each newline, a carriage return before the
/// newline dropped, and no empty line after a final newline.
pub open spec fn lines_of(text: Seq<char>) -> Seq<Seq<char>> {
    let (done, current) = split_state(text);
    if current.len() == 0 {
        done
    } else {
        done.push(current)
    }
}

/// Splits a text into its lines.
pub fn text_lines(text: &str) -> (r: Vec<String>)
    ensures
        r.deep_view() == lines_of(text@),
{
    let n = text.unicode_len();
    let ghost whole = text@;
    let mut lines: Vec<String> = Vec::new();
    let mut start: usize = 0;
    let mut i: usize = 0;
    let mut prev_cr = false;
    for c in it: text.chars()
        invariant
            it.seq() == whole,
            whole == text@,
            n == whole.len(),
            i == it.index(),
            start <= i <= n,
            split_state(whole.take(i as int)) == (lines.deep_view(), whole.subrange(
                start as int,
                i as int,
            )),
            prev_cr == (start < i && whole[i - 1] == '\r'),
    {
        assert(whole.take(i + 1).drop_last() =~= whole.take(i as int));
        assert(whole.take(i + 1).last() == c);
        if c == '\n' {
            let end = if prev_cr {
                i - 1
            } else {
                i
            };
            let line = String::from_str(text.substring_char(start, end));
            let ghost before = lines.deep_view();
            lines.push(line);
            assert(lines.deep_view() =~= before.push(line@));
            assert(line@ =~= strip_cr(whole.subrange(start as int, i as int)));
            start = i + 1;
            prev_cr = false;
        } else {
            prev_cr = c == '\r';
        }
        i = i + 1;
        assert(whole.subrange(start as int, i as int) =~= if c == '\n' {
            Seq::<char>::empty()
        } else {
            whole.subrange(start as int, i - 1).push(c)
        });
    }
    assert(whole.take(n as int) =~= whole);
    if start < n {
        let last = String::from_str(text.substring_char(start, n));
        let ghost before = lines.deep_view();
        lines.push(last);
        assert(lines.deep_view() =~= before.push(last@));
    }
    lines
}

/// Each line with the hook's name in front.
pub open spec fn prefixed(name: Seq<char>, lines: Seq<Seq<char>>) -> Seq<Seq<char>> {
    lines.map_values(|l: Seq<char>| name + ": "@ + l)
}

/// What a hook printed, as the lines that are relayed to the user: those of
/// its standard output, then those of its standard error, each prefixed
/// with the hook's name.
pub open spec fn report_spec(hook: Hook, stdout: Seq<u8>, stderr: Seq<u8>) -> Seq<Seq<char>> {
    prefixed(hook_name_spec(hook), lines_of(decode_utf8(stdout))) + prefixed(
        hook_name_spec(hook),
        lines_of(decode_utf8(stderr)),
    )
}

/// Prefixes each line with `name` and a colon.
pub fn prefix_lines(name: &str, lines: &Vec<String>) -> (r: Vec<String>)
    ensures
        r.deep_view() == prefixed(name@, lines.deep_view()),
{
    let mut r: Vec<String> = Vec::new();
    let mut i: usize = 0;
    while i < lines.len()
        invariant
            i <= lines@.len(),
            r.deep_view() == prefixed(name@, lines.deep_view().take(i as int)),
        decreases lines@.len() - i,
    {
        let line = String::from_str(name).concat(": ").concat(lines[i].as_str());
        let ghost before = r.deep_view();
        r.push(line);
        assert(lines.deep_view().take(i + 1) =~= lines.deep_view().take(i as int).push(
            lines[i as int]@,
        ));
        assert(r.deep_view() =~= before.push(line@));
        i = i + 1;
        assert(r.deep_view() =~= prefixed(name@, lines.deep_view().take(i as int)));
    }
    assert(lines.deep_view().take(i as int) =~= lines.deep_view());
    r
}

/// The lines to relay for what a hook printed; fails where its output is
/// not UTF-8.
pub fn hook_report(hook: Hook, stdout: Vec<u8>, stderr: Vec<u8>) -> (r: Result<
    Vec<String>,
    PassageError,
>)
    ensures
        valid_utf8(stdout@) && valid_utf8(stderr@) ==> r is Ok && r->Ok_0.deep_view()
            == report_spec(hook, stdout@, stderr@),
        !(valid_utf8(stdout@) && valid_utf8(stderr@)) ==> r is Err && r->Err_0 is HookOutputInvalid
            && r->Err_0->HookOutputInvalid_hook@ == hook_name_spec(hook),
{
    let ghost (out_bytes, err_bytes) = (stdout@, stderr@);
    let name = hook.name();
    let out = match utf8_text(stdout) {
        Some(t) => t,
        None => return Err(PassageError::HookOutputInvalid { hook: name }),
    };
    let err = match utf8_text(stderr) {
        Some(t) => t,
        None => return Err(PassageError::HookOutputInvalid { hook: name }),
    };
    let mut r = prefix_lines(name.as_str(), &text_lines(out.as_str()));
    let mut e = prefix_lines(name.as_str(), &text_lines(err.as_str()));
    let ghost (rv, ev) = (r.deep_view(), e.deep_view());
    r.append(&mut e);
    assert(r.deep_view() =~= rv + ev);
    Ok(r)
}

/// The outcome of a hook from its exit status: a failed hook is an error
/// that names it.
pub fn hook_status(hook: Hook, success: bool) -> (r: Result<(), PassageError>)
    ensures
        success ==> r is Ok,
        !success ==> r is Err && r->Err_0 is HookFailed && r->Err_0->HookFailed_hook@
            == hook_name_spec(hook),
{
    if success {
        Ok(())
    } else {
        Err(PassageError::HookFailed { hook: hook.name() })
    }
}

/// The notice printed before a hook runs.
pub fn running_notice(hook: Hook) -> (r: String)
    ensures
        r@ == "Running "@ + hook_name_spec(hook) + " hook"@,
{
    String::from_str("Running ").concat(hook.name().as_str()).concat(" hook")
}

} // verus!
