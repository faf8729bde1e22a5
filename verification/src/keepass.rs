//! The import of entries from the tree of groups of a KeePass database.

use crate::entries::{Entry, EntryView, Storage};
use vstd::prelude::*;
use vstd::string::*;

verus! {

/// An entry of a KeePass database, as far as the import reads it.
#[derive(Debug)]
pub struct KeepassEntry {
    /// The entry's identifier, in the form in which it is printed.
    pub uuid: String,
    pub title: Option<String>,
    pub username: Option<String>,
    pub password: Option<String>,
    pub url: Option<String>,
}

/// A child of a group: a group of its own, or an entry.
#[derive(Debug)]
pub enum Node {
    Group(Group),
    Entry(KeepassEntry),
}

/// A group of a KeePass database with its children in their order.
#[derive(Debug)]
pub struct Group {
    pub name: String,
    pub children: Vec<Node>,
}

/// A name below a path: the two with a slash between them, or the name
/// alone where there is no path.
pub open spec fn spec_join(path: Option<Seq<char>>, name: Seq<char>) -> Seq<char> {
    match path {
        Some(path) => path + "/"@ + name,
        None => name,
    }
}

/// The name under which an entry is imported: its title, or its identifier
/// where it has no title, below the path of its group.
pub open spec fn spec_entry_name(path: Option<Seq<char>>, entry: KeepassEntry) -> Seq<char> {
    spec_join(
        path,
        match entry.title {
            Some(title) => title@,
            None => entry.uuid@,
        },
    )
}

/// The store after the import of `nodes`, which stand below `path`. The
/// nodes are taken in their order, a group with all that is below it before
/// the node that follows it. An entry without a password is left out; one
/// that comes later replaces an earlier one of the same name.
pub open spec fn spec_import(
    entries: Map<Seq<char>, EntryView>,
    nodes: Seq<Node>,
    path: Option<Seq<char>>,
) -> Map<Seq<char>, EntryView>
    decreases nodes,
{
    if nodes.len() == 0 {
        entries
    } else {
        let before = spec_import(entries, nodes.drop_last(), path);
        match nodes.last() {
            Node::Group(group) => spec_import(
                before,
                group.children@,
                Some(spec_join(path, group.name@)),
            ),
            Node::Entry(entry) => match entry.password {
                Some(password) => before.insert(
                    spec_entry_name(path, entry),
                    EntryView {
                        password: password@,
                        username: entry.username.deep_view(),
                        url: entry.url.deep_view(),
                    },
                ),
                None => before,
            },
        }
    }
}

fn join(path: Option<&str>, name: &str) -> (r: String)
    ensures
        r@ == spec_join(path.deep_view(), name@),
{
    match path {
        Some(path) => {
            let mut joined = String::from_str(path);
            joined.append("/");
            joined.append(name);
            joined
        },
        None => String::from_str(name),
    }
}

/// Imports all entries below `group` into the store, each under the path
/// of its groups.
pub fn keepass_entries(entries: &mut Storage, group: &Group, group_path: Option<&str>)
    ensures
        final(entries)@ == spec_import(old(entries)@, group.children@, group_path.deep_view()),
    decreases group,
{
    let mut i: usize = 0;
    assert(group.children@.take(0) =~= Seq::empty());
    while i < group.children.len()
        invariant
            i <= group.children@.len(),
            entries@ == spec_import(
                old(entries)@,
                group.children@.take(i as int),
                group_path.deep_view(),
            ),
        decreases group.children@.len() - i,
    {
        proof {
            assert(group.children@.take(i + 1).drop_last() =~= group.children@.take(i as int));
            assert(group.children@.take(i + 1).last() == group.children@[i as int]);
        }
        match &group.children[i] {
            Node::Group(inner) => {
                let path = join(group_path, inner.name.as_str());
                keepass_entries(entries, inner, Some(path.as_str()));
            },
            Node::Entry(node) => {
                let title = match &node.title {
                    Some(title) => title.as_str(),
                    None => node.uuid.as_str(),
                };
                let name = join(group_path, title);
                match &node.password {
                    Some(password) => {
                        entries.insert(
                            name,
                            Entry {
                                password: password.clone(),
                                username: node.username.clone(),
                                url: node.url.clone(),
                            },
                        );
                    },
                    None => {},
                }
            },
        }
        i += 1;
    }
    assert(group.children@.take(group.children@.len() as int) =~= group.children@);
}

impl Storage {
    /// The store that holds the entries of a KeePass database, given by
    /// its root group, each under `prefix` and the path of its groups.
    pub fn from_keepass(root: &Group, prefix: Option<&str>) -> (r: Storage)
        ensures
            r@ == spec_import(Map::empty(), root.children@, prefix.deep_view()),
    {
        let mut entries = Storage::new();
        keepass_entries(&mut entries, root, prefix);
        entries
    }
}

} // verus!
