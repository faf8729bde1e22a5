//! Hooks: scripts of the user that run before the store is opened and
//! after it was saved.

use crate::error::{outcome_view, StoreError, StoreErrorView};
use crate::paths::{inside, spec_inside};
use crate::text::text_of;
use vstd::prelude::*;
use vstd::string::*;
use vstd::utf8::{decode_utf8, valid_utf8};

verus! {

/// A script that can be triggered around a transaction on the store.
#[derive(Clone, Copy, Debug, PartialEq, Eq, Structural)]
pub enum Hook {
    PreLoad,
    PostSave,
}

impl Hook {
    /// The file name of the script inside the hooks directory.
    pub open spec fn spec_name(self) -> Seq<char> {
        match self {
            Hook::PreLoad => "pre_load"@,
            Hook::PostSave => "post_save"@,
        }
    }

    pub fn name(&self) -> (r: String)
        ensures
            r@ == self.spec_name(),
    {
        match *self {
            Hook::PreLoad => String::from_str("pre_load"),
            Hook::PostSave => String::from_str("post_save"),
        }
    }
}

/// What happened to the store when a hook is triggered; handed to the script
/// as its only argument.
#[derive(Clone, Copy, Debug, PartialEq, Eq, Structural)]
pub enum HookEvent {
    NewEntry,
    ListEntries,
    ShowEntry,
    EditEntry,
    RemoveEntry,
}

impl HookEvent {
    pub open spec fn spec_name(self) -> Seq<char> {
        match self {
            HookEvent::NewEntry => "new_entry"@,
            HookEvent::ListEntries => "list_entries"@,
            HookEvent::ShowEntry => "show_entry"@,
            HookEvent::EditEntry => "edit_entry"@,
            HookEvent::RemoveEntry => "remove_entry"@,
        }
    }

    pub fn name(&self) -> (r: String)
        ensures
            r@ == self.spec_name(),
    {
        match *self {
            HookEvent::NewEntry => String::from_str("new_entry"),
            HookEvent::ListEntries => String::from_str("list_entries"),
            HookEvent::ShowEntry => String::from_str("show_entry"),
            HookEvent::EditEntry => String::from_str("edit_entry"),
            HookEvent::RemoveEntry => String::from_str("remove_entry"),
        }
    }
}

/// The path of a hook's script inside the hooks directory.
pub fn hook_file(hooks_dir: &str, hook: Hook) -> (r: String)
    ensures
        r@ == spec_inside(hooks_dir@, hook.spec_name()),
{
    inside(hooks_dir, hook.name().as_str())
}

/// What a hook script left behind when it ended.
#[derive(Debug)]
pub struct HookOutput {
    pub stdout: Vec<u8>,
    pub stderr: Vec<u8>,
    /// Whether the script left with status zero.
    pub success: bool,
}

/// The mathematical value of a [`HookOutput`].
pub struct HookOutputView {
    pub stdout: Seq<u8>,
    pub stderr: Seq<u8>,
    pub success: bool,
}

impl View for HookOutput {
    type V = HookOutputView;

    open spec fn view(&self) -> HookOutputView {
        HookOutputView { stdout: self.stdout@, stderr: self.stderr@, success: self.success }
    }
}

impl DeepView for HookOutput {
    type V = HookOutputView;

    open spec fn deep_view(&self) -> HookOutputView {
        self.view()
    }
}

/// The number of characters before the first line feed of `text`, or all
/// of them if it has none.
pub open spec fn line_end(text: Seq<char>) -> nat
    decreases text.len(),
{
    if text.len() == 0 || text[0] == '\n' {
        0
    } else {
        1 + line_end(text.skip(1))
    }
}

/// A line without the carriage return that stood before its line feed.
pub open spec fn strip_cr(line: Seq<char>) -> Seq<char> {
    if line.len() > 0 && line.last() == '\r' {
        line.drop_last()
    } else {
        line
    }
}

/// The lines of a text. A line ends at a line feed, or at a carriage return
/// directly followed by one; neither belongs to the line. The last line
/// needs no ending, and a text that ends in one has no empty line after it.
pub open spec fn lines_of(text: Seq<char>) -> Seq<Seq<char>>
    decreases text.len(),
{
    if text.len() == 0 {
        Seq::empty()
    } else {
        let end = line_end(text) as int;
        if end >= text.len() {
            seq![text]
        } else {
            seq![strip_cr(text.take(end))] + lines_of(text.skip(end + 1))
        }
    }
}

proof fn lemma_line_end(text: Seq<char>, n: int)
    requires
        0 <= n <= text.len(),
        forall|k: int| 0 <= k < n ==> text[k] != '\n',
        n < text.len() ==> text[n] == '\n',
    ensures
        line_end(text) == n,
    decreases n,
{
    if n > 0 {
        let rest = text.skip(1);
        assert forall|k: int| 0 <= k < n - 1 implies rest[k] != '\n' by {
            assert(rest[k] == text[k + 1]);
        }
        lemma_line_end(rest, n - 1);
    }
}

/// The lines of a text, each as a string of its own.
pub fn lines(text: &str) -> (r: Vec<String>)
    ensures
        r.deep_view() == lines_of(text@),
{
    let len = text.unicode_len();
    let mut found: Vec<String> = Vec::new();
    let mut start: usize = 0;
    let mut after_cr = false;
    let mut at: usize = 0;
    assert(text@.skip(0) =~= text@);
    assert(found.deep_view() =~= Seq::empty());
    for c in it: text.chars()
        invariant
            it.seq() == text@,
            len == text@.len(),
            at == it.index(),
            start <= at <= len,
            forall|k: int| start <= k < at ==> text@[k] != '\n',
            at > start ==> after_cr == (text@[at - 1] == '\r'),
            lines_of(text@) == found.deep_view() + lines_of(text@.skip(start as int)),
    {
        if c == '\n' {
            let stop = if at > start && after_cr {
                at - 1
            } else {
                at
            };
            let line = text.substring_char(start, stop).to_owned();
            proof {
                let rest = text@.skip(start as int);
                lemma_line_end(rest, at - start);
                assert(rest.take(at - start) =~= text@.subrange(start as int, at as int));
                assert(strip_cr(rest.take(at - start)) =~= line@);
                assert(rest.skip(at - start + 1) =~= text@.skip(at + 1));
                assert(found.deep_view().push(line@) + lines_of(text@.skip(at + 1))
                    =~= found.deep_view() + lines_of(rest));
            }
            let ghost before = found.deep_view();
            found.push(line);
            assert(found.deep_view() =~= before.push(line@));
            start = at + 1;
        }
        after_cr = c == '\r';
        at += 1;
    }
    if start < len {
        let line = text.substring_char(start, len).to_owned();
        proof {
            let rest = text@.skip(start as int);
            lemma_line_end(rest, len - start);
            assert(rest =~= line@);
            assert(lines_of(rest) =~= seq![line@]);
        }
        let ghost before = found.deep_view();
        found.push(line);
        assert(found.deep_view() =~= before.push(line@));
    } else {
        assert(lines_of(text@.skip(start as int)) =~= Seq::empty());
        assert(found.deep_view() + Seq::<Seq<char>>::empty() =~= found.deep_view());
    }
    found
}

/// The line that announces a hook before its output.
pub open spec fn spec_banner(hook: Hook) -> Seq<char> {
    "Running "@ + hook.spec_name() + " hook"@
}

/// A line of a hook's output, marked with the hook's name.
pub open spec fn spec_tagged(hook: Hook, line: Seq<char>) -> Seq<char> {
    hook.spec_name() + ": "@ + line
}

/// The lines shown for a hook that ran: the announcement, then every line
/// of its standard output, then every line of its standard error.
pub open spec fn spec_echo(hook: Hook, stdout: Seq<char>, stderr: Seq<char>) -> Seq<Seq<char>> {
    seq![spec_banner(hook)] + lines_of(stdout).map_values(|line: Seq<char>| spec_tagged(hook, line))
        + lines_of(stderr).map_values(|line: Seq<char>| spec_tagged(hook, line))
}

/// What a hook comes to. A script that is not there is passed over in
/// silence. One that ran has its output shown and fails the command exactly
/// if it left with a status other than zero. Output that is not UTF-8 is an
/// error of its own, and none of it is shown.
pub open spec fn spec_run_hook(hook: Hook, output: Option<HookOutputView>) -> (
    Seq<Seq<char>>,
    Result<(), StoreErrorView>,
) {
    match output {
        None => (Seq::empty(), Ok(())),
        Some(output) => if !valid_utf8(output.stdout) || !valid_utf8(output.stderr) {
            (seq![spec_banner(hook)], Err(StoreErrorView::HookOutput(hook)))
        } else {
            (
                spec_echo(hook, decode_utf8(output.stdout), decode_utf8(output.stderr)),
                if output.success {
                    Ok(())
                } else {
                    Err(StoreErrorView::HookFailed(hook))
                },
            )
        },
    }
}

fn banner(hook: Hook) -> (r: String)
    ensures
        r@ == spec_banner(hook),
{
    let mut text = String::from_str("Running ");
    text.append(hook.name().as_str());
    text.append(" hook");
    text
}

/// Adds the lines of `text` to `shown`, each marked with the hook's name.
fn echo(shown: &mut Vec<String>, hook: Hook, text: &str)
    ensures
        final(shown).deep_view() == old(shown).deep_view() + lines_of(text@).map_values(
            |line: Seq<char>| spec_tagged(hook, line),
        ),
{
    let found = lines(text);
    let ghost tag = |line: Seq<char>| spec_tagged(hook, line);
    let mut i: usize = 0;
    assert(old(shown).deep_view() + found.deep_view().take(0).map_values(tag) =~= old(
        shown,
    ).deep_view());
    while i < found.len()
        invariant
            i <= found@.len(),
            tag == |line: Seq<char>| spec_tagged(hook, line),
            shown.deep_view() == old(shown).deep_view() + found.deep_view().take(i as int).map_values(
                tag,
            ),
        decreases found@.len() - i,
    {
        let mut line = hook.name();
        line.append(": ");
        line.append(found[i].as_str());
        let ghost before = shown.deep_view();
        shown.push(line);
        proof {
            assert(shown.deep_view() =~= before.push(line@));
            assert(line@ == tag(found.deep_view()[i as int]));
            assert(found.deep_view().take(i + 1).map_values(tag) =~= found.deep_view().take(
                i as int,
            ).map_values(tag).push(line@));
        }
        i += 1;
    }
    assert(found.deep_view().take(found@.len() as int) =~= found.deep_view());
}

/// Judges a hook by what its script left behind; `None` says that there
/// is no script. Gives the lines to show and the verdict.
pub fn run_hook(hook: Hook, output: Option<HookOutput>) -> (r: (Vec<String>, Result<(), StoreError>))
    ensures
        (r.0.deep_view(), outcome_view(r.1)) == spec_run_hook(hook, output.deep_view()),
{
    let mut shown: Vec<String> = Vec::new();
    assert(shown.deep_view() =~= Seq::empty());
    match output {
        None => (shown, Ok(())),
        Some(HookOutput { stdout, stderr, success }) => {
            shown.push(banner(hook));
            assert(shown.deep_view() =~= seq![spec_banner(hook)]);
            match (text_of(stdout), text_of(stderr)) {
                (Some(out), Some(err)) => {
                    echo(&mut shown, hook, out.as_str());
                    echo(&mut shown, hook, err.as_str());
                    if success {
                        (shown, Ok(()))
                    } else {
                        (shown, Err(StoreError::HookFailed(hook)))
                    }
                },
                _ => (shown, Err(StoreError::HookOutput(hook))),
            }
        },
    }
}

} // verus!
