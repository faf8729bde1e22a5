//! What holds of the store for every input, proved from the contracts of
//! the other modules.

use crate::assoc::{distinct_names, lemma_map_of_at, lemma_map_of_dom, lemma_map_of_push, map_of};
use crate::cli::EntryAttribute;
use crate::commands::{
    spec_accepts, spec_merged, spec_show, ActionView, CommandView, EventView, LoadedView,
    PhaseView, StepView, TransactionView,
};
use crate::entries::{
    spec_decode, spec_deserialize, spec_entry, spec_from_payload, spec_load, spec_record,
    spec_records, spec_serialize, EntryView,
};
use crate::error::StoreErrorView;
use crate::hooks::{spec_run_hook, Hook, HookEvent, HookOutputView};
use crate::text::{toml_document, toml_text, FieldView, SectionView};
use crate::utilities::{
    spec_payload, spec_resolved, spec_sealed, QueryView, ReplyView, ResolvedView, ResolverView,
    VaultReadView,
};
use vstd::prelude::*;
use vstd::utf8::{decode_utf8, encode_utf8, valid_utf8};

verus! {

/// The table that a parser hands out for the strings of a record.
pub open spec fn as_fields(record: Seq<(Seq<char>, Seq<char>)>) -> Seq<(Seq<char>, FieldView)> {
    record.map_values(|field: (Seq<char>, Seq<char>)| (field.0, FieldView::Text(field.1)))
}

/// The document that a parser hands out for records, table by table.
pub open spec fn as_document(records: Seq<(Seq<char>, Seq<(Seq<char>, Seq<char>)>)>) -> Seq<
    (Seq<char>, SectionView),
> {
    records.map_values(
        |record: (Seq<char>, Seq<(Seq<char>, Seq<char>)>)|
            (record.0, SectionView::Record(as_fields(record.1))),
    )
}

/// The three keys of a record are three different strings.
proof fn lemma_keys_differ()
    ensures
        "password"@ != "username"@,
        "password"@ != "url"@,
        "username"@ != "url"@,
{
    reveal_strlit("password");
    reveal_strlit("username");
    reveal_strlit("url");
    assert("password"@[0] == 'p');
    assert("username"@[0] == 'u');
    assert("password"@.len() == 8);
    assert("username"@.len() == 8);
    assert("url"@.len() == 3);
}

/// The strings written for an entry are read back as that entry: keys and
/// all three fields.
pub proof fn law_record_round_trip(entry: EntryView)
    ensures
        spec_entry(as_fields(spec_record(entry))) == Some(entry),
{
    lemma_keys_differ();
    let record = spec_record(entry);
    let fields = as_fields(record);
    let password = ("password"@, FieldView::Text(entry.password));
    assert(fields =~= seq![password] + match entry.username {
        Some(username) => seq![("username"@, FieldView::Text(username))],
        None => Seq::empty(),
    } + match entry.url {
        Some(url) => seq![("url"@, FieldView::Text(url))],
        None => Seq::empty(),
    });
    lemma_map_of_push(Seq::empty(), password);
    assert(Seq::<(Seq<char>, FieldView)>::empty().push(password) =~= seq![password]);
    let first = seq![password];
    assert(map_of(first) =~= Map::<Seq<char>, FieldView>::empty().insert(password.0, password.1));
    match entry.username {
        Some(username) => {
            let second = first.push(("username"@, FieldView::Text(username)));
            lemma_map_of_push(first, ("username"@, FieldView::Text(username)));
            match entry.url {
                Some(url) => {
                    lemma_map_of_push(second, ("url"@, FieldView::Text(url)));
                    assert(fields =~= second.push(("url"@, FieldView::Text(url))));
                },
                None => {
                    assert(fields =~= second);
                },
            }
        },
        None => {
            match entry.url {
                Some(url) => {
                    lemma_map_of_push(first, ("url"@, FieldView::Text(url)));
                    assert(fields =~= first.push(("url"@, FieldView::Text(url))));
                },
                None => {
                    assert(fields =~= first);
                },
            }
        },
    }
}

/// A table stands for the same entry in whatever order its keys come: two
/// tables that hold the same keys with the same values, each key once,
/// read alike.
pub proof fn law_field_order(first: Seq<(Seq<char>, FieldView)>, second: Seq<(Seq<char>, FieldView)>)
    requires
        distinct_names(first),
        distinct_names(second),
        forall|field: (Seq<char>, FieldView)| first.contains(field) <==> second.contains(field),
    ensures
        map_of(first) == map_of(second),
        spec_entry(first) == spec_entry(second),
{
    assert(map_of(first) =~= map_of(second)) by {
        assert forall|key: Seq<char>|
            map_of(first).dom().contains(key) <==> map_of(second).dom().contains(key) by {
            lemma_map_of_dom(first, key);
            lemma_map_of_dom(second, key);
            if map_of(first).dom().contains(key) {
                let i = choose|i: int| 0 <= i < first.len() && #[trigger] first[i].0 == key;
                assert(first.contains(first[i]));
                let j = choose|j: int| 0 <= j < second.len() && second[j] == first[i];
                assert(second[j].0 == key);
            }
            if map_of(second).dom().contains(key) {
                let j = choose|j: int| 0 <= j < second.len() && #[trigger] second[j].0 == key;
                assert(second.contains(second[j]));
                let i = choose|i: int| 0 <= i < first.len() && first[i] == second[j];
                assert(first[i].0 == key);
            }
        }
        assert forall|key: Seq<char>| map_of(first).dom().contains(key) implies map_of(first)[key]
            == map_of(second)[key] by {
            lemma_map_of_dom(first, key);
            let i = choose|i: int| 0 <= i < first.len() && #[trigger] first[i].0 == key;
            assert(first.contains(first[i]));
            let j = choose|j: int| 0 <= j < second.len() && second[j] == first[i];
            lemma_map_of_at(first, i);
            lemma_map_of_at(second, j);
        }
    }
}

/// The records written for named entries are read back as the store of
/// those entries: nothing is lost between a store and its document.
pub proof fn law_document_round_trip(pairs: Seq<(Seq<char>, EntryView)>)
    ensures
        spec_decode(as_document(spec_records(pairs))) == Some(map_of(pairs)),
    decreases pairs.len(),
{
    if pairs.len() > 0 {
        let document = as_document(spec_records(pairs));
        law_document_round_trip(pairs.drop_last());
        law_record_round_trip(pairs.last().1);
        assert(document.drop_last() =~= as_document(spec_records(pairs.drop_last())));
        assert(document.last() == (
            pairs.last().0,
            SectionView::Record(as_fields(spec_record(pairs.last().1))),
        ));
    }
}

/// What was sealed under a passphrase is what the container holds for that
/// passphrase.
pub proof fn law_cipher_round_trip(container: Seq<u8>, passphrase: Seq<char>, payload: Seq<u8>)
    requires
        spec_sealed(container, passphrase, payload),
    ensures
        spec_payload(container, passphrase) == Some(payload),
{
    if payload.len() == 0 {
        assert(payload =~= Seq::empty());
    }
}

/// The container of no bytes is the empty store for every passphrase, and
/// the cipher has no say in it.
pub proof fn law_empty_container(passphrase: Seq<char>)
    ensures
        spec_load(Some(Seq::empty()), passphrase) == Ok::<_, StoreErrorView>(
            Map::<Seq<char>, EntryView>::empty(),
        ),
{
    let payload = Seq::<u8>::empty();
    assert(valid_utf8(payload));
    assert(decode_utf8(payload).len() == 0);
}

/// The empty store is sealed as the container of no bytes and comes back
/// from it, whatever the passphrases.
pub proof fn law_empty_round_trip(container: Seq<u8>, sealed_with: Seq<char>, opened_with: Seq<char>)
    requires
        spec_sealed(container, sealed_with, encode_utf8(spec_serialize(Seq::empty())->0)),
    ensures
        container.len() == 0,
        spec_load(Some(container), opened_with) == Ok::<_, StoreErrorView>(
            Map::<Seq<char>, EntryView>::empty(),
        ),
{
    assert(encode_utf8(Seq::<char>::empty()).len() == 0);
    assert(container =~= Seq::empty());
    law_empty_container(opened_with);
}

/// The `toml` crate reads the text that it writes for the records as the
/// document of these records, and that text is not empty.
pub open spec fn toml_reads_back(records: Seq<(Seq<char>, Seq<(Seq<char>, Seq<char>)>)>) -> bool {
    toml_text(records) matches Some(text) ==> text.len() > 0 && toml_document(text) == Some(
        as_document(records),
    )
}

/// A store that was sealed under a passphrase comes back from its
/// container under that passphrase with every name and all three fields of
/// every entry, provided that the `toml` crate reads back what it wrote
/// for the store. That the crate does so is not known here; the law says
/// what follows where it does. For the empty store nothing is asked of the
/// crate.
pub proof fn law_round_trip(
    pairs: Seq<(Seq<char>, EntryView)>,
    passphrase: Seq<char>,
    text: Seq<char>,
    container: Seq<u8>,
)
    requires
        spec_serialize(pairs) == Some(text),
        spec_sealed(container, passphrase, encode_utf8(text)),
        pairs.len() > 0 ==> toml_reads_back(spec_records(pairs)),
    ensures
        spec_load(Some(container), passphrase) == Ok::<_, StoreErrorView>(map_of(pairs)),
{
    law_cipher_round_trip(container, passphrase, encode_utf8(text));
    vstd::utf8::encode_utf8_valid_utf8(text);
    vstd::utf8::encode_utf8_decode_utf8(text);
    law_document_round_trip(pairs);
}

/// A hook passes if it is not there, or if it ran, printed UTF-8 and left
/// with status zero.
pub open spec fn passes(hook: Hook, output: Option<HookOutputView>) -> bool {
    spec_run_hook(hook, output).1 is Ok
}

/// The state and the step of a command once its `pre_load` hook has run,
/// the passphrase is resolved and the store was opened, or was not.
pub open spec fn after_loading(
    command: CommandView,
    no_keyring: bool,
    hook: Option<HookOutputView>,
    loaded: Result<LoadedView, StoreErrorView>,
) -> (TransactionView, StepView) {
    let (started, _) = TransactionView::begin(command, no_keyring);
    let (hooked, _) = started.advance(EventView::Hook(Ok(hook)));
    let (resolved, _) = hooked.advance(EventView::Passphrase(Ok(())));
    resolved.advance(EventView::Loaded(loaded))
}

/// An opened store lists each of its names once.
pub open spec fn well_listed(loaded: LoadedView) -> bool {
    loaded.names.no_duplicates() && loaded.names.to_set() == loaded.entries.dom()
}

/// Every command on the store begins with its `pre_load` hook, then has the
/// passphrase resolved, then has the store opened; a hook that fails ends
/// the command with its error before the passphrase is asked for, so that
/// nothing is opened.
pub proof fn law_order_of_steps(command: CommandView, no_keyring: bool, hook: Option<HookOutputView>)
    requires
        !(command is Init),
    ensures
        ({
            let (started, first) = TransactionView::begin(command, no_keyring);
            let (hooked, second) = started.advance(EventView::Hook(Ok(hook)));
            let (resolved, third) = hooked.advance(EventView::Passphrase(Ok(())));
            &&& first.action == ActionView::RunHook(Hook::PreLoad, command.hook_event()->0)
            &&& second.lines == spec_run_hook(Hook::PreLoad, hook).0
            &&& passes(Hook::PreLoad, hook) ==> second.action == ActionView::GetPassphrase(
                no_keyring,
            ) && third.action == ActionView::Load
            &&& !passes(Hook::PreLoad, hook) ==> second.action == ActionView::Finish(
                Err(spec_run_hook(Hook::PreLoad, hook).1->Err_0),
            ) && hooked.phase is Done
        }),
{
}

/// A command that is over stays over: whatever arrives, nothing is saved
/// and nothing else is asked for.
pub proof fn law_done_is_final(state: TransactionView, event: EventView)
    requires
        state.phase is Done,
    ensures
        state.advance(event) == (state, StepView::finish(Err(StoreErrorView::OutOfTurn))),
{
}

/// Where the store could not be opened, every command that reads or writes
/// it ends with the error of the opening and saves nothing. So a storage
/// directory without a container, which opens as `NotInitialized`, ends
/// each of them with that error.
pub proof fn law_not_opened(
    command: CommandView,
    no_keyring: bool,
    hook: Option<HookOutputView>,
    error: StoreErrorView,
)
    requires
        !(command is Init),
        passes(Hook::PreLoad, hook),
    ensures
        after_loading(command, no_keyring, hook, Err(error)).1 == StepView::finish(Err(error)),
        after_loading(command, no_keyring, hook, Err(error)).0.phase is Done,
{
}

/// Where there is no container the store is not initialized, whatever the
/// passphrase.
pub proof fn law_not_initialized(passphrase: Seq<char>)
    ensures
        spec_load(None, passphrase) == Err::<Map<Seq<char>, EntryView>, _>(
            StoreErrorView::NotInitialized,
        ),
{
}

/// Create on a name that is taken asks before anything else, and an answer
/// that declines ends the command with success: no password is asked for
/// and nothing is saved, so the container keeps every byte.
pub proof fn law_overwrite_decline(
    loaded: LoadedView,
    entry: Seq<char>,
    username: Option<Seq<char>>,
    url: Option<Seq<char>>,
    no_keyring: bool,
    hook: Option<HookOutputView>,
    answer: Seq<char>,
)
    requires
        passes(Hook::PreLoad, hook),
        loaded.entries.dom().contains(entry),
        !spec_accepts(answer),
    ensures
        ({
            let command = CommandView::New { entry, username, url };
            let (asking, question) = after_loading(command, no_keyring, hook, Ok(loaded));
            let (ended, last) = asking.advance(EventView::Line(Some(answer)));
            &&& question == StepView::quiet(ActionView::ConfirmOverwrite(entry))
            &&& last == StepView::finish(Ok(()))
            &&& ended.phase is Done
        }),
{
}

/// Create on a name that is taken, with an answer that accepts, asks for the
/// password and saves the store with the new entry in place of the old
/// one; Show on the saved store prints the new password.
pub proof fn law_overwrite_accept(
    loaded: LoadedView,
    entry: Seq<char>,
    username: Option<Seq<char>>,
    url: Option<Seq<char>>,
    no_keyring: bool,
    hook: Option<HookOutputView>,
    answer: Seq<char>,
    password: Seq<char>,
)
    requires
        passes(Hook::PreLoad, hook),
        loaded.entries.dom().contains(entry),
        spec_accepts(answer),
    ensures
        ({
            let command = CommandView::New { entry, username, url };
            let (asking, _) = after_loading(command, no_keyring, hook, Ok(loaded));
            let (waiting, request) = asking.advance(EventView::Line(Some(answer)));
            let (saving, save) = waiting.advance(EventView::Secret(Some(password)));
            let saved = loaded.entries.insert(entry, EntryView { password, username, url });
            &&& request == StepView::quiet(ActionView::AskPassword(entry))
            &&& save == StepView::quiet(ActionView::Save(saved))
            &&& saved.dom() == loaded.entries.dom()
            &&& spec_show(saved, entry, EntryAttribute::Password, true).1 == StepView {
                lines: seq![password],
                action: ActionView::Finish(Ok(())),
            }
        }),
{
    let saved = loaded.entries.insert(entry, EntryView { password, username, url });
    assert(saved.dom() =~= loaded.entries.dom());
}

/// Create on a free name asks for the password at once and saves the store
/// with the new entry added.
pub proof fn law_create(
    loaded: LoadedView,
    entry: Seq<char>,
    username: Option<Seq<char>>,
    url: Option<Seq<char>>,
    no_keyring: bool,
    hook: Option<HookOutputView>,
    password: Seq<char>,
)
    requires
        passes(Hook::PreLoad, hook),
        !loaded.entries.dom().contains(entry),
    ensures
        ({
            let command = CommandView::New { entry, username, url };
            let (waiting, request) = after_loading(command, no_keyring, hook, Ok(loaded));
            let (saving, save) = waiting.advance(EventView::Secret(Some(password)));
            let saved = loaded.entries.insert(entry, EntryView { password, username, url });
            &&& request == StepView::quiet(ActionView::AskPassword(entry))
            &&& save == StepView::quiet(ActionView::Save(saved))
            &&& spec_show(saved, entry, EntryAttribute::Password, true).1 == StepView {
                lines: seq![password],
                action: ActionView::Finish(Ok(())),
            }
        }),
{
}

/// Edit that gives a new user name and nothing else, and asks for no
/// password, saves the store with that user name on the entry: password
/// and URL are as they were, no name is added and none is lost.
pub proof fn law_edit_username_only(
    loaded: LoadedView,
    entry: Seq<char>,
    username: Seq<char>,
    no_keyring: bool,
    hook: Option<HookOutputView>,
)
    requires
        passes(Hook::PreLoad, hook),
        loaded.entries.dom().contains(entry),
    ensures
        ({
            let command = CommandView::Edit {
                entry,
                new_name: None,
                username: Some(username),
                url: None,
                no_prompt: true,
            };
            let (saving, save) = after_loading(command, no_keyring, hook, Ok(loaded));
            let before = loaded.entries[entry];
            let saved = loaded.entries.insert(
                entry,
                EntryView { password: before.password, username: Some(username), url: before.url },
            );
            &&& save == StepView::quiet(ActionView::Save(saved))
            &&& saved.dom() == loaded.entries.dom()
            &&& forall|other: Seq<char>|
                other != entry && loaded.entries.dom().contains(other) ==> saved[other]
                    == loaded.entries[other]
        }),
{
    let before = loaded.entries[entry];
    let after = EntryView { password: before.password, username: Some(username), url: before.url };
    let saved = loaded.entries.insert(entry, after);
    assert(saved.dom() =~= loaded.entries.dom());
    assert(loaded.entries.remove(entry).insert(entry, after) =~= saved);
}

/// Edit on a name that the store does not hold ends with `NotFound` and
/// saves nothing.
pub proof fn law_edit_missing(
    loaded: LoadedView,
    entry: Seq<char>,
    new_name: Option<Seq<char>>,
    username: Option<Seq<char>>,
    url: Option<Seq<char>>,
    no_prompt: bool,
    no_keyring: bool,
    hook: Option<HookOutputView>,
)
    requires
        passes(Hook::PreLoad, hook),
        !loaded.entries.dom().contains(entry),
    ensures
        ({
            let command = CommandView::Edit { entry, new_name, username, url, no_prompt };
            let (ended, last) = after_loading(command, no_keyring, hook, Ok(loaded));
            last == StepView::finish(Err(StoreErrorView::NotFound(entry))) && ended.phase is Done
        }),
{
}

/// Edit that moves an entry onto the name of another asks first. An answer
/// that declines ends the command with nothing saved. One that accepts
/// saves the store in which the entry stands under the new name, in place
/// of what was there, and no longer under the old one.
pub proof fn law_rename_onto_another(
    loaded: LoadedView,
    entry: Seq<char>,
    new_name: Seq<char>,
    username: Option<Seq<char>>,
    url: Option<Seq<char>>,
    no_keyring: bool,
    hook: Option<HookOutputView>,
    answer: Seq<char>,
)
    requires
        passes(Hook::PreLoad, hook),
        loaded.entries.dom().contains(entry),
        loaded.entries.dom().contains(new_name),
        new_name != entry,
    ensures
        ({
            let command = CommandView::Edit {
                entry,
                new_name: Some(new_name),
                username,
                url,
                no_prompt: true,
            };
            let (asking, question) = after_loading(command, no_keyring, hook, Ok(loaded));
            let (next, step) = asking.advance(EventView::Line(Some(answer)));
            let moved = spec_merged(loaded.entries[entry], new_name, username, url, true);
            let saved = loaded.entries.remove(entry).insert(
                new_name,
                moved.with_password(loaded.entries[entry].password),
            );
            &&& question == StepView::quiet(ActionView::ConfirmOverwrite(new_name))
            &&& !spec_accepts(answer) ==> step == StepView::finish(Ok(())) && next.phase is Done
            &&& spec_accepts(answer) ==> step == StepView::quiet(ActionView::Save(saved))
            &&& !saved.dom().contains(entry)
            &&& saved.dom() == loaded.entries.dom().remove(entry)
        }),
{
    let moved = spec_merged(loaded.entries[entry], new_name, username, url, true);
    let saved = loaded.entries.remove(entry).insert(
        new_name,
        moved.with_password(loaded.entries[entry].password),
    );
    assert(saved.dom() =~= loaded.entries.dom().remove(entry));
}

/// Edit that moves an entry to a name that is free asks nothing about
/// overwriting: the entry leaves its old name and stands under the new one,
/// and every other entry is as it was.
pub proof fn law_rename_to_a_free_name(
    loaded: LoadedView,
    entry: Seq<char>,
    new_name: Seq<char>,
    no_keyring: bool,
    hook: Option<HookOutputView>,
)
    requires
        passes(Hook::PreLoad, hook),
        loaded.entries.dom().contains(entry),
        !loaded.entries.dom().contains(new_name),
    ensures
        ({
            let command = CommandView::Edit {
                entry,
                new_name: Some(new_name),
                username: None,
                url: None,
                no_prompt: true,
            };
            let (saving, save) = after_loading(command, no_keyring, hook, Ok(loaded));
            let saved = loaded.entries.remove(entry).insert(new_name, loaded.entries[entry]);
            &&& save == StepView::quiet(ActionView::Save(saved))
            &&& saved[new_name] == loaded.entries[entry]
            &&& !saved.dom().contains(entry)
            &&& forall|other: Seq<char>|
                other != entry && loaded.entries.dom().contains(other) ==> saved.dom().contains(
                    other,
                ) && saved[other] == loaded.entries[other]
        }),
{
}

/// A hook fails the command exactly if its script was there, printed
/// UTF-8 and left with a status other than zero; a script that is not
/// there shows nothing and fails nothing.
pub proof fn law_hook_verdict(hook: Hook, output: Option<HookOutputView>)
    ensures
        spec_run_hook(hook, None) == (Seq::<Seq<char>>::empty(), Ok::<(), StoreErrorView>(())),
        spec_run_hook(hook, output).1 == Err::<(), _>(StoreErrorView::HookFailed(hook)) <==> (
        output matches Some(left) && valid_utf8(left.stdout) && valid_utf8(left.stderr)
            && !left.success),
{
}

/// Remove saves the store without the entry, and List on the saved store
/// does not print the entry's name.
pub proof fn law_remove_then_list(
    loaded: LoadedView,
    entry: Seq<char>,
    no_keyring: bool,
    hook: Option<HookOutputView>,
    reopened: LoadedView,
)
    requires
        passes(Hook::PreLoad, hook),
        loaded.entries.dom().contains(entry),
        reopened.entries == loaded.entries.remove(entry),
        well_listed(reopened),
    ensures
        ({
            let (saving, save) = after_loading(
                CommandView::Remove { entry },
                no_keyring,
                hook,
                Ok(loaded),
            );
            let (ended, listing) = after_loading(CommandView::List, no_keyring, hook, Ok(reopened));
            &&& save == StepView::quiet(ActionView::Save(loaded.entries.remove(entry)))
            &&& listing.action == ActionView::Finish(Ok(()))
            &&& !listing.lines.contains(entry)
            &&& forall|other: Seq<char>|
                other != entry && loaded.entries.dom().contains(other) ==> listing.lines.contains(
                    other,
                )
        }),
{
    let (ended, listing) = after_loading(CommandView::List, no_keyring, hook, Ok(reopened));
    assert(listing.lines == reopened.names);
    if listing.lines.contains(entry) {
        assert(reopened.names.to_set().contains(entry));
    }
    assert forall|other: Seq<char>|
        other != entry && loaded.entries.dom().contains(other) implies listing.lines.contains(
        other,
    ) by {
        assert(reopened.entries.dom().contains(other));
        assert(reopened.names.to_set().contains(other));
    }
}

/// Remove on a name that the store does not hold ends with `NotFound` and
/// saves nothing.
pub proof fn law_remove_missing(
    loaded: LoadedView,
    entry: Seq<char>,
    no_keyring: bool,
    hook: Option<HookOutputView>,
)
    requires
        passes(Hook::PreLoad, hook),
        !loaded.entries.dom().contains(entry),
    ensures
        ({
            let (ended, last) = after_loading(
                CommandView::Remove { entry },
                no_keyring,
                hook,
                Ok(loaded),
            );
            last == StepView::finish(Err(StoreErrorView::NotFound(entry))) && ended.phase is Done
        }),
{
}

/// Once the container is written, the `post_save` hook runs, and its
/// verdict ends the command: a failure is reported, and the save stands.
pub proof fn law_post_save(state: TransactionView, hook: Option<HookOutputView>)
    requires
        state.phase is Saving,
        !(state.command is Init),
    ensures
        ({
            let (hooked, run) = state.advance(EventView::Saved(Ok(())));
            let (ended, last) = hooked.advance(EventView::Hook(Ok(hook)));
            &&& run == StepView::quiet(
                ActionView::RunHook(Hook::PostSave, state.command.hook_event()->0),
            )
            &&& last.lines == spec_run_hook(Hook::PostSave, hook).0
            &&& last.action == ActionView::Finish(spec_run_hook(Hook::PostSave, hook).1)
            &&& ended.phase is Done
        }),
{
}

/// Init creates a container only where none exists, and the container it
/// leaves behind is the empty store; where one exists it is reported and
/// nothing is created, asked for or saved.
pub proof fn law_init(entries_file: Seq<char>, no_keyring: bool, exists: bool)
    ensures
        ({
            let command = CommandView::Init { entries_file };
            let (started, first) = TransactionView::begin(command, no_keyring);
            let (prepared, second) = started.advance(EventView::Prepared(Ok(exists)));
            let (created, third) = prepared.advance(EventView::Created(Ok(())));
            let (resolved, fourth) = created.advance(EventView::Passphrase(Ok(())));
            let (ended, last) = resolved.advance(EventView::Saved(Ok(())));
            &&& first.action == ActionView::PrepareStore
            &&& exists ==> second.action == ActionView::Finish(Ok(())) && prepared.phase is Done
            &&& !exists ==> {
                &&& second.action == ActionView::CreateContainer
                &&& third.action == ActionView::GetPassphrase(no_keyring)
                &&& fourth.action == ActionView::Save(Map::empty())
                &&& last == StepView::finish(Ok(()))
            }
        }),
{
}

/// List and Show only read: with the store open they end, or hand a text to
/// the clipboard and end after that, and nothing is saved on the way.
pub proof fn law_read_only(
    command: CommandView,
    loaded: LoadedView,
    no_keyring: bool,
    hook: Option<HookOutputView>,
    event: EventView,
)
    requires
        passes(Hook::PreLoad, hook),
        command is List || command is Show,
    ensures
        ({
            let (reading, step) = after_loading(command, no_keyring, hook, Ok(loaded));
            let (ended, last) = reading.advance(event);
            &&& step.action is Finish || step.action is Copy
            &&& step.action is Finish <==> reading.phase is Done
            &&& last.action is Finish
            &&& ended.phase is Done
        }),
{
}

/// The steps that a command takes from a state when the events arrive in
/// their order.
pub open spec fn steps(state: TransactionView, events: Seq<EventView>) -> Seq<StepView>
    decreases events.len(),
{
    if events.len() == 0 {
        Seq::empty()
    } else {
        let (next, step) = state.advance(events[0]);
        seq![step] + steps(next, events.skip(1))
    }
}

/// How many of the steps save the store.
pub open spec fn saves(taken: Seq<StepView>) -> nat
    decreases taken.len(),
{
    if taken.len() == 0 {
        0
    } else {
        saves(taken.drop_last()) + if taken.last().action is Save {
            1nat
        } else {
            0nat
        }
    }
}

/// The phases that come after the save.
pub open spec fn past_saving(phase: PhaseView) -> bool {
    phase is Saving || phase is PostHook || phase is Copying || phase is Done
}

proof fn lemma_saves_front(first: StepView, rest: Seq<StepView>)
    ensures
        saves(seq![first] + rest) == saves(rest) + if first.action is Save {
            1nat
        } else {
            0nat
        },
    decreases rest.len(),
{
    let all = seq![first] + rest;
    if rest.len() == 0 {
        assert(all.drop_last() =~= Seq::empty());
        assert(saves(all.drop_last()) == 0);
    } else {
        assert(all.drop_last() =~= seq![first] + rest.drop_last());
        assert(all.last() == rest.last());
        lemma_saves_front(first, rest.drop_last());
    }
}

proof fn lemma_no_save_past_saving(state: TransactionView, events: Seq<EventView>)
    requires
        past_saving(state.phase),
    ensures
        saves(steps(state, events)) == 0,
    decreases events.len(),
{
    if events.len() > 0 {
        let (next, step) = state.advance(events[0]);
        lemma_no_save_past_saving(next, events.skip(1));
        lemma_saves_front(step, steps(next, events.skip(1)));
    }
}

/// Whatever the state and whatever arrives, a command saves the store at
/// most once: after the save nothing is left but the `post_save` hook.
pub proof fn law_at_most_one_save(state: TransactionView, events: Seq<EventView>)
    ensures
        saves(steps(state, events)) <= 1,
    decreases events.len(),
{
    if events.len() > 0 {
        let (next, step) = state.advance(events[0]);
        lemma_saves_front(step, steps(next, events.skip(1)));
        if step.action is Save {
            lemma_no_save_past_saving(next, events.skip(1));
        } else {
            law_at_most_one_save(next, events.skip(1));
        }
    }
}

/// A resolution that leaves the vault out asks the user and takes what was
/// typed: the vault is neither read nor written.
pub proof fn law_without_vault(typed: Seq<char>)
    ensures
        ({
            let asking = ResolverView::Prompt { store: false };
            asking.answer(ReplyView::Entered(Some(typed))) == (
                ResolverView::Done,
                spec_resolved(typed),
            )
        }),
{
}

/// A passphrase that the vault holds is the result, and the user is not
/// asked.
pub proof fn law_vault_hit(prompt: Seq<char>, kept: Seq<char>)
    ensures
        ({
            let reading = ResolverView::Vault { prompt };
            reading.answer(ReplyView::Vault(VaultReadView::Found(kept))) == (
                ResolverView::Done,
                spec_resolved(kept),
            )
        }),
{
}

/// After a miss in the vault the user is asked, the vault is handed what
/// was typed, and the result is what was typed whether the vault kept it or
/// not: no other passphrase is ever made up. A vault that did not keep it
/// is reported with the result.
pub proof fn law_vault_miss(prompt: Seq<char>, typed: Seq<char>, kept: bool)
    ensures
        ({
            let reading = ResolverView::Vault { prompt };
            let (asking, first) = reading.answer(ReplyView::Vault(VaultReadView::Missing));
            let (storing, second) = asking.answer(ReplyView::Entered(Some(typed)));
            let (ended, last) = storing.answer(ReplyView::Stored(kept));
            let warning = if kept {
                None
            } else {
                Some(StoreErrorView::VaultWrite)
            };
            let resolved = ResolvedView { passphrase: typed, warning };
            &&& first == QueryView::Prompt(prompt)
            &&& second == QueryView::StoreInVault(typed)
            &&& last == QueryView::Done(Ok(resolved))
            &&& ended is Done
        }),
{
}

} // verus!
