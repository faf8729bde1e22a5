//! The commands on the store, each as a conversation between the library
//! and its caller.
//!
//! A command on the store fires its `pre_load` hook, has the passphrase
//! resolved, has the store opened, does its work on the opened store, has
//! the result saved and fires its `post_save` hook. The first failure ends
//! it. The functions named after the commands say what each command does
//! with the opened store; [`Transaction`] holds the order of the steps.

use crate::cli::EntryAttribute;
use crate::entries::{Entry, EntryView, Storage};
use crate::error::{outcome_view, StoreError, StoreErrorView};
use crate::hooks::{run_hook, spec_run_hook, Hook, HookEvent, HookOutput, HookOutputView};
use crate::utilities::{read_stdin, spec_trim, VaultRead, VaultReadView};
use vstd::prelude::*;
use vstd::string::*;

verus! {

/// An entry that is decided but for its password.
#[derive(Debug)]
pub struct Draft {
    /// The name under which the entry will be stored.
    pub name: String,
    pub username: Option<String>,
    pub url: Option<String>,
    /// The password, where it is carried over and not asked for.
    pub password: Option<String>,
}

/// The mathematical value of a [`Draft`].
pub struct DraftView {
    pub name: Seq<char>,
    pub username: Option<Seq<char>>,
    pub url: Option<Seq<char>>,
    pub password: Option<Seq<char>>,
}

impl View for Draft {
    type V = DraftView;

    open spec fn view(&self) -> DraftView {
        DraftView {
            name: self.name@,
            username: self.username.deep_view(),
            url: self.url.deep_view(),
            password: self.password.deep_view(),
        }
    }
}

impl DraftView {
    /// The entry that the draft becomes with this password.
    pub open spec fn with_password(self, password: Seq<char>) -> EntryView {
        EntryView { password, username: self.username, url: self.url }
    }
}

/// What the caller has to do next.
#[derive(Debug)]
pub enum Action {
    /// Run the hook script, if it is there, with the event's name as its
    /// only argument and the storage directory as its working directory.
    RunHook(Hook, HookEvent),
    /// Resolve the passphrase; `true` leaves the vault out.
    GetPassphrase(bool),
    /// Create the storage directory and say whether the container exists.
    PrepareStore,
    /// Create the container as an empty file.
    CreateContainer,
    /// Read the container and open it.
    Load,
    /// Ask whether the entry of this name may be overwritten.
    ConfirmOverwrite(String),
    /// Ask, without echo, for the password of the entry of this name.
    AskPassword(String),
    /// Seal the store and write it in place of the container.
    Save(Storage),
    /// Put the text on the clipboard.
    Copy(String),
    /// The command is over.
    Finish(Result<(), StoreError>),
}

/// The mathematical value of an [`Action`].
pub enum ActionView {
    RunHook(Hook, HookEvent),
    GetPassphrase(bool),
    PrepareStore,
    CreateContainer,
    Load,
    ConfirmOverwrite(Seq<char>),
    AskPassword(Seq<char>),
    Save(Map<Seq<char>, EntryView>),
    Copy(Seq<char>),
    Finish(Result<(), StoreErrorView>),
}

impl View for Action {
    type V = ActionView;

    open spec fn view(&self) -> ActionView {
        match *self {
            Action::RunHook(hook, event) => ActionView::RunHook(hook, event),
            Action::GetPassphrase(bypass) => ActionView::GetPassphrase(bypass),
            Action::PrepareStore => ActionView::PrepareStore,
            Action::CreateContainer => ActionView::CreateContainer,
            Action::Load => ActionView::Load,
            Action::ConfirmOverwrite(name) => ActionView::ConfirmOverwrite(name@),
            Action::AskPassword(name) => ActionView::AskPassword(name@),
            Action::Save(storage) => ActionView::Save(storage@),
            Action::Copy(text) => ActionView::Copy(text@),
            Action::Finish(outcome) => ActionView::Finish(outcome_view(outcome)),
        }
    }
}

/// Lines to print, in this order, and then what to do.
#[derive(Debug)]
pub struct Step {
    pub lines: Vec<String>,
    pub action: Action,
}

/// The mathematical value of a [`Step`].
pub struct StepView {
    pub lines: Seq<Seq<char>>,
    pub action: ActionView,
}

impl View for Step {
    type V = StepView;

    open spec fn view(&self) -> StepView {
        StepView { lines: self.lines.deep_view(), action: self.action@ }
    }
}

impl StepView {
    /// Nothing to print, one thing to do.
    pub open spec fn quiet(action: ActionView) -> StepView {
        StepView { lines: Seq::empty(), action }
    }

    /// The command ends without a word.
    pub open spec fn finish(outcome: Result<(), StoreErrorView>) -> StepView {
        StepView::quiet(ActionView::Finish(outcome))
    }
}

impl Step {
    fn quiet(action: Action) -> (r: Step)
        ensures
            r@ == StepView::quiet(action@),
    {
        let r = Step { lines: Vec::new(), action };
        assert(r.lines.deep_view() =~= Seq::empty());
        r
    }

    fn finish(outcome: Result<(), StoreError>) -> (r: Step)
        ensures
            r@ == StepView::finish(outcome_view(outcome)),
    {
        Step::quiet(Action::Finish(outcome))
    }
}

/// How far a command has come; each waiting state names the answer it
/// waits for.
#[derive(Debug)]
pub enum Phase {
    /// Waits for the `pre_load` hook.
    PreHook,
    /// Waits for the passphrase.
    Passphrase,
    /// Waits to hear whether the container exists.
    Preparing,
    /// Waits for the empty container to be created.
    Creating,
    /// Waits for the opened store.
    Loading,
    /// Waits for the answer to the overwrite question.
    Confirm { storage: Storage, draft: Draft },
    /// Waits for the password of the drafted entry.
    Password { storage: Storage, draft: Draft },
    /// Waits for the container to be written.
    Saving,
    /// Waits for the `post_save` hook.
    PostHook,
    /// Waits for the clipboard.
    Copying,
    /// Nothing is pending.
    Done,
}

/// The mathematical value of a [`Phase`].
pub enum PhaseView {
    PreHook,
    Passphrase,
    Preparing,
    Creating,
    Loading,
    Confirm { storage: Map<Seq<char>, EntryView>, draft: DraftView },
    Password { storage: Map<Seq<char>, EntryView>, draft: DraftView },
    Saving,
    PostHook,
    Copying,
    Done,
}

impl View for Phase {
    type V = PhaseView;

    open spec fn view(&self) -> PhaseView {
        match *self {
            Phase::PreHook => PhaseView::PreHook,
            Phase::Passphrase => PhaseView::Passphrase,
            Phase::Preparing => PhaseView::Preparing,
            Phase::Creating => PhaseView::Creating,
            Phase::Loading => PhaseView::Loading,
            Phase::Confirm { storage, draft } => PhaseView::Confirm {
                storage: storage@,
                draft: draft@,
            },
            Phase::Password { storage, draft } => PhaseView::Password {
                storage: storage@,
                draft: draft@,
            },
            Phase::Saving => PhaseView::Saving,
            Phase::PostHook => PhaseView::PostHook,
            Phase::Copying => PhaseView::Copying,
            Phase::Done => PhaseView::Done,
        }
    }
}

/// The question put before an entry is overwritten.
pub open spec fn spec_overwrite_prompt(name: Seq<char>) -> Seq<char> {
    "Entry '"@ + name + "' already exists. Overwrite (y/N)?"@
}

pub fn overwrite_prompt(name: &str) -> (r: String)
    ensures
        r@ == spec_overwrite_prompt(name@),
{
    let mut text = String::from_str("Entry '");
    text.append(name);
    text.append("' already exists. Overwrite (y/N)?");
    text
}

/// The request for an entry's password.
pub open spec fn spec_password_prompt(name: Seq<char>) -> Seq<char> {
    "Password for '"@ + name + "': "@
}

pub fn password_prompt(name: &str) -> (r: String)
    ensures
        r@ == spec_password_prompt(name@),
{
    let mut text = String::from_str("Password for '");
    text.append(name);
    text.append("': ");
    text
}

/// An answer allows the overwrite exactly if, without the white space
/// around it, it is the letter Y in either case; the empty answer and every
/// other one decline.
pub open spec fn spec_accepts(answer: Seq<char>) -> bool {
    spec_trim(answer) == "y"@ || spec_trim(answer) == "Y"@
}

pub fn accepts(answer: &str) -> (r: bool)
    ensures
        r == spec_accepts(answer@),
{
    let given = read_stdin(answer);
    given == String::from_str("y") || given == String::from_str("Y")
}

/// Whether storing under `proposed` would replace an entry other than the
/// one being edited.
pub open spec fn spec_collides(
    storage: Map<Seq<char>, EntryView>,
    current: Option<Seq<char>>,
    proposed: Seq<char>,
) -> bool {
    current != Some(proposed) && storage.dom().contains(proposed)
}

/// Stores the draft if its password is known, asks for the password if not.
pub open spec fn spec_settle(storage: Map<Seq<char>, EntryView>, draft: DraftView) -> (
    PhaseView,
    StepView,
) {
    match draft.password {
        Some(password) => (
            PhaseView::Saving,
            StepView::quiet(
                ActionView::Save(storage.insert(draft.name, draft.with_password(password))),
            ),
        ),
        None => (
            PhaseView::Password { storage, draft },
            StepView::quiet(ActionView::AskPassword(draft.name)),
        ),
    }
}

pub fn settle(storage: Storage, draft: Draft) -> (r: (Phase, Step))
    ensures
        (r.0@, r.1@) == spec_settle(storage@, draft@),
{
    let mut storage = storage;
    let Draft { name, username, url, password } = draft;
    match password {
        Some(password) => {
            storage.insert(name, Entry { password, username, url });
            (Phase::Saving, Step::quiet(Action::Save(storage)))
        },
        None => {
            let asked = name.clone();
            (
                Phase::Password { storage, draft: Draft { name, username, url, password: None } },
                Step::quiet(Action::AskPassword(asked)),
            )
        },
    }
}

/// The entry that an edit leaves behind: what the caller gave replaces
/// what was there, and what the caller left out stays.
pub open spec fn spec_merged(
    existing: EntryView,
    name: Seq<char>,
    username: Option<Seq<char>>,
    url: Option<Seq<char>>,
    no_prompt: bool,
) -> DraftView {
    DraftView {
        name,
        username: if username is Some {
            username
        } else {
            existing.username
        },
        url: if url is Some {
            url
        } else {
            existing.url
        },
        password: if no_prompt {
            Some(existing.password)
        } else {
            None
        },
    }
}

/// The first step of Create on an opened store: a name that is taken
/// needs the user's consent, a free one goes on to its password.
pub open spec fn spec_new_entry(
    storage: Map<Seq<char>, EntryView>,
    entry: Seq<char>,
    username: Option<Seq<char>>,
    url: Option<Seq<char>>,
) -> (PhaseView, StepView) {
    let draft = DraftView { name: entry, username, url, password: None };
    if spec_collides(storage, None, entry) {
        (
            PhaseView::Confirm { storage, draft },
            StepView::quiet(ActionView::ConfirmOverwrite(entry)),
        )
    } else {
        spec_settle(storage, draft)
    }
}

pub fn new_entry(
    storage: Storage,
    entry: String,
    username: Option<String>,
    url: Option<String>,
) -> (r: (Phase, Step))
    ensures
        (r.0@, r.1@) == spec_new_entry(storage@, entry@, username.deep_view(), url.deep_view()),
{
    if storage.contains_key(entry.as_str()) {
        let asked = entry.clone();
        (
            Phase::Confirm { storage, draft: Draft { name: entry, username, url, password: None } },
            Step::quiet(Action::ConfirmOverwrite(asked)),
        )
    } else {
        settle(storage, Draft { name: entry, username, url, password: None })
    }
}

/// The first step of Edit on an opened store. The entry has to be there.
/// It leaves its old name; where the new name belongs to another entry the
/// user is asked, and otherwise the merged entry is settled.
pub open spec fn spec_edit(
    storage: Map<Seq<char>, EntryView>,
    entry: Seq<char>,
    new_name: Option<Seq<char>>,
    username: Option<Seq<char>>,
    url: Option<Seq<char>>,
    no_prompt: bool,
) -> (PhaseView, StepView) {
    if !storage.dom().contains(entry) {
        (PhaseView::Done, StepView::finish(Err(StoreErrorView::NotFound(entry))))
    } else {
        let name = match new_name {
            Some(name) => name,
            None => entry,
        };
        let rest = storage.remove(entry);
        let draft = spec_merged(storage[entry], name, username, url, no_prompt);
        if spec_collides(rest, Some(entry), name) {
            (
                PhaseView::Confirm { storage: rest, draft },
                StepView::quiet(ActionView::ConfirmOverwrite(name)),
            )
        } else {
            spec_settle(rest, draft)
        }
    }
}

pub fn edit(
    storage: Storage,
    entry: String,
    new_name: Option<String>,
    username: Option<String>,
    url: Option<String>,
    no_prompt: bool,
) -> (r: (Phase, Step))
    ensures
        (r.0@, r.1@) == spec_edit(
            storage@,
            entry@,
            new_name.deep_view(),
            username.deep_view(),
            url.deep_view(),
            no_prompt,
        ),
{
    let mut storage = storage;
    let existing = match storage.remove(entry.as_str()) {
        Some(existing) => existing,
        None => {
            return (Phase::Done, Step::finish(Err(StoreError::NotFound(entry))));
        },
    };
    let renamed = match &new_name {
        Some(name) => *name != entry,
        None => false,
    };
    let name = match new_name {
        Some(name) => name,
        None => entry,
    };
    let Entry { password, username: old_username, url: old_url } = existing;
    let draft = Draft {
        name,
        username: match username {
            Some(username) => Some(username),
            None => old_username,
        },
        url: match url {
            Some(url) => Some(url),
            None => old_url,
        },
        password: if no_prompt {
            Some(password)
        } else {
            None
        },
    };
    if renamed && storage.contains_key(draft.name.as_str()) {
        let asked = draft.name.clone();
        (Phase::Confirm { storage, draft }, Step::quiet(Action::ConfirmOverwrite(asked)))
    } else {
        settle(storage, draft)
    }
}

/// Remove on an opened store: the entry has to be there, and the store
/// without it is saved.
pub open spec fn spec_remove(storage: Map<Seq<char>, EntryView>, entry: Seq<char>) -> (
    PhaseView,
    StepView,
) {
    if storage.dom().contains(entry) {
        (PhaseView::Saving, StepView::quiet(ActionView::Save(storage.remove(entry))))
    } else {
        (PhaseView::Done, StepView::finish(Err(StoreErrorView::NotFound(entry))))
    }
}

pub fn remove(storage: Storage, entry: &str) -> (r: (Phase, Step))
    ensures
        (r.0@, r.1@) == spec_remove(storage@, entry@),
{
    let mut storage = storage;
    match storage.remove(entry) {
        Some(_) => (Phase::Saving, Step::quiet(Action::Save(storage))),
        None => (Phase::Done, Step::finish(Err(StoreError::NotFound(entry.to_owned())))),
    }
}

/// Where a text that was asked for goes: on the screen as one line, which
/// ends the command, or to the clipboard.
pub open spec fn spec_reveal_attribute(text: Seq<char>, on_screen: bool) -> (PhaseView, StepView) {
    if on_screen {
        (PhaseView::Done, StepView { lines: seq![text], action: ActionView::Finish(Ok(())) })
    } else {
        (PhaseView::Copying, StepView::quiet(ActionView::Copy(text)))
    }
}

pub fn reveal_attribute(attribute: String, on_screen: bool) -> (r: (Phase, Step))
    ensures
        (r.0@, r.1@) == spec_reveal_attribute(attribute@, on_screen),
{
    if on_screen {
        let ghost text = attribute@;
        let mut lines = Vec::new();
        lines.push(attribute);
        assert(lines.deep_view() =~= seq![text]);
        (Phase::Done, Step { lines, action: Action::Finish(Ok(())) })
    } else {
        (Phase::Copying, Step::quiet(Action::Copy(attribute)))
    }
}

/// Show on an opened store: the entry has to be there. The attribute asked
/// for is printed or goes to the clipboard; an optional one that was never
/// set gives no output and no error.
pub open spec fn spec_show(
    storage: Map<Seq<char>, EntryView>,
    entry: Seq<char>,
    attribute: EntryAttribute,
    on_screen: bool,
) -> (PhaseView, StepView) {
    if !storage.dom().contains(entry) {
        (PhaseView::Done, StepView::finish(Err(StoreErrorView::NotFound(entry))))
    } else {
        match attribute.spec_select(storage[entry]) {
            None => (PhaseView::Done, StepView::finish(Ok(()))),
            Some(text) => spec_reveal_attribute(text, on_screen),
        }
    }
}

pub fn show(storage: &Storage, entry: &str, attribute: EntryAttribute, on_screen: bool) -> (r: (
    Phase,
    Step,
))
    ensures
        (r.0@, r.1@) == spec_show(storage@, entry@, attribute, on_screen),
{
    match storage.get(entry) {
        None => (Phase::Done, Step::finish(Err(StoreError::NotFound(entry.to_owned())))),
        Some(found) => match attribute.select(found) {
            None => (Phase::Done, Step::finish(Ok(()))),
            Some(text) => reveal_attribute(text, on_screen),
        },
    }
}

/// List on an opened store: one line for each name.
pub open spec fn spec_list(names: Seq<Seq<char>>) -> (PhaseView, StepView) {
    (PhaseView::Done, StepView { lines: names, action: ActionView::Finish(Ok(())) })
}

pub fn list(storage: &Storage) -> (r: (Phase, Step))
    ensures
        (r.0@, r.1@) == spec_list(storage.names()),
        r.1@.lines.no_duplicates(),
        r.1@.lines.to_set() == storage@.dom(),
{
    (Phase::Done, Step { lines: storage.keys(), action: Action::Finish(Ok(())) })
}

/// What Init says of a container that is already there.
pub open spec fn spec_exists_line(entries_file: Seq<char>) -> Seq<char> {
    "Entries file "@ + entries_file + " already exists"@
}

/// What Init says of a container that it made.
pub open spec fn spec_created_line(entries_file: Seq<char>) -> Seq<char> {
    "Created entries file "@ + entries_file
}

/// Init, once the storage directory stands: a container that exists is
/// left alone and reported, and one is created only where none exists.
pub open spec fn spec_init(exists: bool, entries_file: Seq<char>) -> (PhaseView, StepView) {
    if exists {
        (
            PhaseView::Done,
            StepView { lines: seq![spec_exists_line(entries_file)], action: ActionView::Finish(Ok(())) },
        )
    } else {
        (PhaseView::Creating, StepView::quiet(ActionView::CreateContainer))
    }
}

pub fn init(exists: bool, entries_file: &str) -> (r: (Phase, Step))
    ensures
        (r.0@, r.1@) == spec_init(exists, entries_file@),
{
    if exists {
        let mut line = String::from_str("Entries file ");
        line.append(entries_file);
        line.append(" already exists");
        let mut lines = Vec::new();
        lines.push(line);
        assert(lines.deep_view() =~= seq![spec_exists_line(entries_file@)]);
        (Phase::Done, Step { lines, action: Action::Finish(Ok(())) })
    } else {
        (Phase::Creating, Step::quiet(Action::CreateContainer))
    }
}

/// A command on the store, with what the user gave for it.
#[derive(Debug)]
pub enum Command {
    /// Create the store; holds the container's path for the report.
    Init { entries_file: String },
    New { entry: String, username: Option<String>, url: Option<String> },
    List,
    Show { entry: String, attribute: EntryAttribute, on_screen: bool },
    Edit {
        entry: String,
        new_name: Option<String>,
        username: Option<String>,
        url: Option<String>,
        no_prompt: bool,
    },
    Remove { entry: String },
}

/// The mathematical value of a [`Command`].
pub enum CommandView {
    Init { entries_file: Seq<char> },
    New { entry: Seq<char>, username: Option<Seq<char>>, url: Option<Seq<char>> },
    List,
    Show { entry: Seq<char>, attribute: EntryAttribute, on_screen: bool },
    Edit {
        entry: Seq<char>,
        new_name: Option<Seq<char>>,
        username: Option<Seq<char>>,
        url: Option<Seq<char>>,
        no_prompt: bool,
    },
    Remove { entry: Seq<char> },
}

impl View for Command {
    type V = CommandView;

    open spec fn view(&self) -> CommandView {
        match *self {
            Command::Init { entries_file } => CommandView::Init { entries_file: entries_file@ },
            Command::New { entry, username, url } => CommandView::New {
                entry: entry@,
                username: username.deep_view(),
                url: url.deep_view(),
            },
            Command::List => CommandView::List,
            Command::Show { entry, attribute, on_screen } => CommandView::Show {
                entry: entry@,
                attribute,
                on_screen,
            },
            Command::Edit { entry, new_name, username, url, no_prompt } => CommandView::Edit {
                entry: entry@,
                new_name: new_name.deep_view(),
                username: username.deep_view(),
                url: url.deep_view(),
                no_prompt,
            },
            Command::Remove { entry } => CommandView::Remove { entry: entry@ },
        }
    }
}

impl CommandView {
    /// The event that the command's hooks are told of. Init fires none.
    pub open spec fn hook_event(self) -> Option<HookEvent> {
        match self {
            CommandView::Init { .. } => None,
            CommandView::New { .. } => Some(HookEvent::NewEntry),
            CommandView::List => Some(HookEvent::ListEntries),
            CommandView::Show { .. } => Some(HookEvent::ShowEntry),
            CommandView::Edit { .. } => Some(HookEvent::EditEntry),
            CommandView::Remove { .. } => Some(HookEvent::RemoveEntry),
        }
    }
}

impl Command {
    pub fn hook_event(&self) -> (r: Option<HookEvent>)
        ensures
            r == self@.hook_event(),
    {
        match self {
            Command::Init { .. } => None,
            Command::New { .. } => Some(HookEvent::NewEntry),
            Command::List => Some(HookEvent::ListEntries),
            Command::Show { .. } => Some(HookEvent::ShowEntry),
            Command::Edit { .. } => Some(HookEvent::EditEntry),
            Command::Remove { .. } => Some(HookEvent::RemoveEntry),
        }
    }
}

/// What the caller reports back after it did what an [`Action`] asked.
#[derive(Debug)]
pub enum Event {
    /// The hook's script was not there (`None`), or it ran; or it was there
    /// and could not be run, and the text says why.
    Hook(Result<Option<HookOutput>, String>),
    /// The passphrase was resolved, or it was not.
    Passphrase(Result<(), StoreError>),
    /// The storage directory stands, and the container exists or not; or
    /// the operation named in the text failed.
    Prepared(Result<bool, String>),
    /// The empty container was created.
    Created(Result<(), String>),
    /// The container was opened.
    Loaded(Result<Storage, StoreError>),
    /// A line was read, or input could not be read.
    Line(Option<String>),
    /// A secret was read, or input could not be read.
    Secret(Option<String>),
    /// The store was sealed and the container was written; or one of the
    /// two failed.
    Saved(Result<(), StoreError>),
    /// The text went to the clipboard.
    Copied(Result<(), String>),
}

/// An opened store: the entries, and the names in the order of listing.
pub struct LoadedView {
    pub entries: Map<Seq<char>, EntryView>,
    pub names: Seq<Seq<char>>,
}

/// The mathematical value of an [`Event`].
pub enum EventView {
    Hook(Result<Option<HookOutputView>, Seq<char>>),
    Passphrase(Result<(), StoreErrorView>),
    Prepared(Result<bool, Seq<char>>),
    Created(Result<(), Seq<char>>),
    Loaded(Result<LoadedView, StoreErrorView>),
    Line(Option<Seq<char>>),
    Secret(Option<Seq<char>>),
    Saved(Result<(), StoreErrorView>),
    Copied(Result<(), Seq<char>>),
}

/// The value of the report on an operation of the caller.
pub open spec fn report_view<T>(report: Result<T, String>) -> Result<T, Seq<char>> {
    match report {
        Ok(done) => Ok(done),
        Err(what) => Err(what@),
    }
}

impl View for Event {
    type V = EventView;

    open spec fn view(&self) -> EventView {
        match *self {
            Event::Hook(ran) => EventView::Hook(
                match ran {
                    Ok(output) => Ok(output.deep_view()),
                    Err(what) => Err(what@),
                },
            ),
            Event::Passphrase(outcome) => EventView::Passphrase(outcome_view(outcome)),
            Event::Prepared(report) => EventView::Prepared(report_view(report)),
            Event::Created(report) => EventView::Created(report_view(report)),
            Event::Loaded(loaded) => EventView::Loaded(
                match loaded {
                    Ok(storage) => Ok(LoadedView { entries: storage@, names: storage.names() }),
                    Err(e) => Err(e@),
                },
            ),
            Event::Line(line) => EventView::Line(line.deep_view()),
            Event::Secret(secret) => EventView::Secret(secret.deep_view()),
            Event::Saved(outcome) => EventView::Saved(outcome_view(outcome)),
            Event::Copied(report) => EventView::Copied(report_view(report)),
        }
    }
}

/// A failed operation of the caller as the error that ends the command.
pub open spec fn spec_settled(report: Result<(), Seq<char>>) -> Result<(), StoreErrorView> {
    match report {
        Ok(()) => Ok(()),
        Err(what) => Err(StoreErrorView::Io(what)),
    }
}

/// What a command does with the opened store.
pub open spec fn spec_opened(command: CommandView, loaded: LoadedView) -> (PhaseView, StepView) {
    match command {
        CommandView::Init { .. } => (PhaseView::Done, StepView::finish(Err(StoreErrorView::OutOfTurn))),
        CommandView::New { entry, username, url } => spec_new_entry(
            loaded.entries,
            entry,
            username,
            url,
        ),
        CommandView::List => spec_list(loaded.names),
        CommandView::Show { entry, attribute, on_screen } => spec_show(
            loaded.entries,
            entry,
            attribute,
            on_screen,
        ),
        CommandView::Edit { entry, new_name, username, url, no_prompt } => spec_edit(
            loaded.entries,
            entry,
            new_name,
            username,
            url,
            no_prompt,
        ),
        CommandView::Remove { entry } => spec_remove(loaded.entries, entry),
    }
}

/// A command under way: what was asked, and how far it has come.
#[derive(Debug)]
pub struct Transaction {
    pub command: Command,
    /// Whether the passphrase is to be resolved without the vault.
    pub no_keyring: bool,
    pub phase: Phase,
}

/// The mathematical value of a [`Transaction`].
pub struct TransactionView {
    pub command: CommandView,
    pub no_keyring: bool,
    pub phase: PhaseView,
}

impl View for Transaction {
    type V = TransactionView;

    open spec fn view(&self) -> TransactionView {
        TransactionView { command: self.command@, no_keyring: self.no_keyring, phase: self.phase@ }
    }
}

impl TransactionView {
    /// The state and the first step of a command. Init starts on the
    /// storage directory; every other command starts with its `pre_load`
    /// hook.
    pub open spec fn begin(command: CommandView, no_keyring: bool) -> (TransactionView, StepView) {
        match command.hook_event() {
            None => (
                TransactionView { command, no_keyring, phase: PhaseView::Preparing },
                StepView::quiet(ActionView::PrepareStore),
            ),
            Some(event) => (
                TransactionView { command, no_keyring, phase: PhaseView::PreHook },
                StepView::quiet(ActionView::RunHook(Hook::PreLoad, event)),
            ),
        }
    }

    /// The phase that follows and the step to take when `event` answers the
    /// pending action. An event that does not answer it ends the command.
    pub open spec fn react(self, event: EventView) -> (PhaseView, StepView) {
        match (self.phase, event) {
            (PhaseView::PreHook, EventView::Hook(Err(what))) => (
                PhaseView::Done,
                StepView::finish(Err(StoreErrorView::Io(what))),
            ),
            (PhaseView::PreHook, EventView::Hook(Ok(output))) => {
                let (lines, verdict) = spec_run_hook(Hook::PreLoad, output);
                match verdict {
                    Ok(()) => (
                        PhaseView::Passphrase,
                        StepView { lines, action: ActionView::GetPassphrase(self.no_keyring) },
                    ),
                    Err(e) => (PhaseView::Done, StepView { lines, action: ActionView::Finish(Err(e)) }),
                }
            },
            (PhaseView::Preparing, EventView::Prepared(report)) => match (report, self.command) {
                (Ok(exists), CommandView::Init { entries_file }) => spec_init(exists, entries_file),
                (Ok(_), _) => (PhaseView::Done, StepView::finish(Err(StoreErrorView::OutOfTurn))),
                (Err(what), _) => (PhaseView::Done, StepView::finish(Err(StoreErrorView::Io(what)))),
            },
            (PhaseView::Creating, EventView::Created(report)) => match (report, self.command) {
                (Ok(()), CommandView::Init { entries_file }) => (
                    PhaseView::Passphrase,
                    StepView {
                        lines: seq![spec_created_line(entries_file)],
                        action: ActionView::GetPassphrase(self.no_keyring),
                    },
                ),
                (Ok(()), _) => (PhaseView::Done, StepView::finish(Err(StoreErrorView::OutOfTurn))),
                (Err(what), _) => (PhaseView::Done, StepView::finish(Err(StoreErrorView::Io(what)))),
            },
            (PhaseView::Passphrase, EventView::Passphrase(outcome)) => match outcome {
                Err(e) => (PhaseView::Done, StepView::finish(Err(e))),
                Ok(()) => if self.command is Init {
                    (PhaseView::Saving, StepView::quiet(ActionView::Save(Map::empty())))
                } else {
                    (PhaseView::Loading, StepView::quiet(ActionView::Load))
                },
            },
            (PhaseView::Loading, EventView::Loaded(loaded)) => match loaded {
                Err(e) => (PhaseView::Done, StepView::finish(Err(e))),
                Ok(loaded) => spec_opened(self.command, loaded),
            },
            (PhaseView::Confirm { storage, draft }, EventView::Line(answer)) => match answer {
                None => (PhaseView::Done, StepView::finish(Err(StoreErrorView::Prompt))),
                Some(answer) => if spec_accepts(answer) {
                    spec_settle(storage, draft)
                } else {
                    (PhaseView::Done, StepView::finish(Ok(())))
                },
            },
            (PhaseView::Password { storage, draft }, EventView::Secret(secret)) => match secret {
                None => (PhaseView::Done, StepView::finish(Err(StoreErrorView::Prompt))),
                Some(password) => (
                    PhaseView::Saving,
                    StepView::quiet(
                        ActionView::Save(storage.insert(draft.name, draft.with_password(password))),
                    ),
                ),
            },
            (PhaseView::Saving, EventView::Saved(outcome)) => match outcome {
                Err(e) => (PhaseView::Done, StepView::finish(Err(e))),
                Ok(()) => match self.command.hook_event() {
                    Some(event) => (
                        PhaseView::PostHook,
                        StepView::quiet(ActionView::RunHook(Hook::PostSave, event)),
                    ),
                    None => (PhaseView::Done, StepView::finish(Ok(()))),
                },
            },
            (PhaseView::PostHook, EventView::Hook(Err(what))) => (
                PhaseView::Done,
                StepView::finish(Err(StoreErrorView::Io(what))),
            ),
            (PhaseView::PostHook, EventView::Hook(Ok(output))) => {
                let (lines, verdict) = spec_run_hook(Hook::PostSave, output);
                (PhaseView::Done, StepView { lines, action: ActionView::Finish(verdict) })
            },
            (PhaseView::Copying, EventView::Copied(report)) => (
                PhaseView::Done,
                StepView::finish(spec_settled(report)),
            ),
            _ => (PhaseView::Done, StepView::finish(Err(StoreErrorView::OutOfTurn))),
        }
    }

    /// The state that follows and the step to take.
    pub open spec fn advance(self, event: EventView) -> (TransactionView, StepView) {
        let (phase, step) = self.react(event);
        (TransactionView { command: self.command, no_keyring: self.no_keyring, phase }, step)
    }
}

fn out_of_turn() -> (r: (Phase, Step))
    ensures
        (r.0@, r.1@) == (PhaseView::Done, StepView::finish(Err(StoreErrorView::OutOfTurn))),
{
    (Phase::Done, Step::finish(Err(StoreError::OutOfTurn)))
}

fn failed(what: String) -> (r: (Phase, Step))
    ensures
        (r.0@, r.1@) == (PhaseView::Done, StepView::finish(Err(StoreErrorView::Io(what@)))),
{
    (Phase::Done, Step::finish(Err(StoreError::Io(what))))
}

/// What a command does with the opened store.
pub fn opened(command: &Command, storage: Storage) -> (r: (Phase, Step))
    ensures
        (r.0@, r.1@) == spec_opened(
            command@,
            LoadedView { entries: storage@, names: storage.names() },
        ),
{
    match command {
        Command::Init { .. } => out_of_turn(),
        Command::New { entry, username, url } => new_entry(
            storage,
            entry.clone(),
            username.clone(),
            url.clone(),
        ),
        Command::List => list(&storage),
        Command::Show { entry, attribute, on_screen } => show(
            &storage,
            entry.as_str(),
            *attribute,
            *on_screen,
        ),
        Command::Edit { entry, new_name, username, url, no_prompt } => edit(
            storage,
            entry.clone(),
            new_name.clone(),
            username.clone(),
            url.clone(),
            *no_prompt,
        ),
        Command::Remove { entry } => remove(storage, entry.as_str()),
    }
}

impl Transaction {
    /// Starts a command and says what to do first.
    pub fn begin(command: Command, no_keyring: bool) -> (r: (Transaction, Step))
        ensures
            (r.0@, r.1@) == TransactionView::begin(command@, no_keyring),
    {
        match command.hook_event() {
            None => (
                Transaction { command, no_keyring, phase: Phase::Preparing },
                Step::quiet(Action::PrepareStore),
            ),
            Some(event) => (
                Transaction { command, no_keyring, phase: Phase::PreHook },
                Step::quiet(Action::RunHook(Hook::PreLoad, event)),
            ),
        }
    }

    /// Whether the command is over.
    pub fn is_done(&self) -> (r: bool)
        ensures
            r == (self@.phase is Done),
    {
        match self.phase {
            Phase::Done => true,
            _ => false,
        }
    }

    /// Takes the answer to the pending action and says what to do next.
    pub fn advance(self, event: Event) -> (r: (Transaction, Step))
        ensures
            (r.0@, r.1@) == self@.advance(event@),
    {
        let Transaction { command, no_keyring, phase } = self;
        let (phase, step) = match (phase, event) {
            (Phase::PreHook, Event::Hook(Err(what))) => failed(what),
            (Phase::PreHook, Event::Hook(Ok(output))) => {
                let (lines, verdict) = run_hook(Hook::PreLoad, output);
                match verdict {
                    Ok(()) => (Phase::Passphrase, Step { lines, action: Action::GetPassphrase(no_keyring) }),
                    Err(e) => (Phase::Done, Step { lines, action: Action::Finish(Err(e)) }),
                }
            },
            (Phase::Preparing, Event::Prepared(report)) => match (report, &command) {
                (Ok(exists), Command::Init { entries_file }) => init(exists, entries_file.as_str()),
                (Ok(_), _) => out_of_turn(),
                (Err(what), _) => failed(what),
            },
            (Phase::Creating, Event::Created(report)) => match (report, &command) {
                (Ok(()), Command::Init { entries_file }) => {
                    let mut line = String::from_str("Created entries file ");
                    line.append(entries_file.as_str());
                    let mut lines = Vec::new();
                    lines.push(line);
                    assert(lines.deep_view() =~= seq![spec_created_line(entries_file@)]);
                    (Phase::Passphrase, Step { lines, action: Action::GetPassphrase(no_keyring) })
                },
                (Ok(()), _) => out_of_turn(),
                (Err(what), _) => failed(what),
            },
            (Phase::Passphrase, Event::Passphrase(outcome)) => match outcome {
                Err(e) => (Phase::Done, Step::finish(Err(e))),
                Ok(()) => match &command {
                    Command::Init { .. } => (Phase::Saving, Step::quiet(Action::Save(Storage::new()))),
                    _ => (Phase::Loading, Step::quiet(Action::Load)),
                },
            },
            (Phase::Loading, Event::Loaded(loaded)) => match loaded {
                Err(e) => (Phase::Done, Step::finish(Err(e))),
                Ok(storage) => opened(&command, storage),
            },
            (Phase::Confirm { storage, draft }, Event::Line(answer)) => match answer {
                None => (Phase::Done, Step::finish(Err(StoreError::Prompt))),
                Some(answer) => if accepts(answer.as_str()) {
                    settle(storage, draft)
                } else {
                    (Phase::Done, Step::finish(Ok(())))
                },
            },
            (Phase::Password { storage, draft }, Event::Secret(secret)) => match secret {
                None => (Phase::Done, Step::finish(Err(StoreError::Prompt))),
                Some(password) => {
                    let Draft { name, username, url, password: _ } = draft;
                    let mut storage = storage;
                    storage.insert(name, Entry { password, username, url });
                    (Phase::Saving, Step::quiet(Action::Save(storage)))
                },
            },
            (Phase::Saving, Event::Saved(outcome)) => match outcome {
                Err(e) => (Phase::Done, Step::finish(Err(e))),
                Ok(()) => match command.hook_event() {
                    Some(event) => (
                        Phase::PostHook,
                        Step::quiet(Action::RunHook(Hook::PostSave, event)),
                    ),
                    None => (Phase::Done, Step::finish(Ok(()))),
                },
            },
            (Phase::PostHook, Event::Hook(Err(what))) => failed(what),
            (Phase::PostHook, Event::Hook(Ok(output))) => {
                let (lines, verdict) = run_hook(Hook::PostSave, output);
                (Phase::Done, Step { lines, action: Action::Finish(verdict) })
            },
            (Phase::Copying, Event::Copied(report)) => match report {
                Ok(()) => (Phase::Done, Step::finish(Ok(()))),
                Err(what) => failed(what),
            },
            _ => out_of_turn(),
        };
        (Transaction { command, no_keyring, phase }, step)
    }
}

/// What Info says of the entries file.
pub open spec fn spec_storage_line(entries_file: Seq<char>, exists: bool) -> Seq<char> {
    if exists {
        "Storage file: "@ + entries_file
    } else {
        "Storage file doesn't exist yet, run `page init` to create it"@
    }
}

/// What Info says of the hooks directory.
pub open spec fn spec_hooks_line(hooks_dir: Seq<char>, exists: bool) -> Seq<char> {
    if exists {
        "Hooks directory: "@ + hooks_dir
    } else {
        "Hooks directory does not exist yet: "@ + hooks_dir
    }
}

/// The lines of Info: where the entries file is, and where the hooks are.
/// The caller says of each whether it exists.
pub fn info(entries_file: &str, file_exists: bool, hooks_dir: &str, hooks_exist: bool) -> (r: Vec<
    String,
>)
    ensures
        r.deep_view() == seq![
            spec_storage_line(entries_file@, file_exists),
            spec_hooks_line(hooks_dir@, hooks_exist),
        ],
{
    let mut lines: Vec<String> = Vec::new();
    if file_exists {
        let mut line = String::from_str("Storage file: ");
        line.append(entries_file);
        lines.push(line);
    } else {
        lines.push(String::from_str("Storage file doesn't exist yet, run `page init` to create it"));
    }
    if hooks_exist {
        let mut line = String::from_str("Hooks directory: ");
        line.append(hooks_dir);
        lines.push(line);
    } else {
        let mut line = String::from_str("Hooks directory does not exist yet: ");
        line.append(hooks_dir);
        lines.push(line);
    }
    assert(lines.deep_view() =~= seq![
        spec_storage_line(entries_file@, file_exists),
        spec_hooks_line(hooks_dir@, hooks_exist),
    ]);
    lines
}

/// The verdict on the vault after a read: it works where it holds a
/// passphrase, and nowhere else.
pub fn keyring_check(read: &VaultRead) -> (r: Result<String, StoreError>)
    ensures
        match r {
            Ok(line) => read@ is Found && line@ == "Keyring integration seems fine"@,
            Err(e) => !(read@ is Found) && e@ == StoreErrorView::Vault,
        },
{
    match read {
        VaultRead::Found(_) => Ok(String::from_str("Keyring integration seems fine")),
        _ => Err(StoreError::Vault),
    }
}

/// The verdict after the vault was told to forget the passphrase.
pub fn keyring_forget(deleted: bool) -> (r: Result<(), StoreError>)
    ensures
        outcome_view(r) == if deleted {
            Ok::<(), StoreErrorView>(())
        } else {
            Err::<(), _>(StoreErrorView::VaultDelete)
        },
{
    if deleted {
        Ok(())
    } else {
        Err(StoreError::VaultDelete)
    }
}

} // verus!
