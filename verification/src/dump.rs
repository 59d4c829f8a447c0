//! Values as they are shown for debugging.
use vstd::prelude::*;
use vstd::string::*;
use crate::outside::debug_text::{debug_text, debug_time, text_debug, time_debug};
use crate::storage::objects::{Object, ObjectView};
use crate::text::{decimal, decimal_text, join_texts, joined};
use crate::traits::{entries_view, EntryView, ObjectMode, TreeEntry};
use crate::types::texts;

verus! {

/// A list of shown items.
pub open spec fn bracketed(parts: Seq<Seq<char>>) -> Seq<char> {
    "["@ + joined(parts, ", "@) + "]"@
}

/// What texts are shown as.
pub open spec fn texts_debug(list: Seq<Seq<char>>) -> Seq<char> {
    bracketed(list.map_values(|t: Seq<char>| text_debug(t)))
}

/// What bytes are shown as.
pub open spec fn bytes_debug(data: Seq<u8>) -> Seq<char> {
    bracketed(data.map_values(|b: u8| decimal(b as nat)))
}

/// What the entries of a tree are shown as.
pub open spec fn entries_debug(entries: Seq<EntryView>) -> Seq<char> {
    bracketed(entries.map_values(|e: EntryView| entry_debug(e)))
}

/// What an entry of a tree is shown as.
pub open spec fn entry_debug(e: EntryView) -> Seq<char> {
    "TreeEntry { name: "@ + text_debug(e.name) + ", hash: "@ + text_debug(e.hash) + ", mode: "@
        + mode_name(e.mode) + " }"@
}

/// The name of a mode.
pub open spec fn mode_name(mode: ObjectMode) -> Seq<char> {
    match mode {
        ObjectMode::Blob => "Blob"@,
        ObjectMode::Tree => "Tree"@,
        ObjectMode::Executable => "Executable"@,
    }
}

/// What a text that may be missing is shown as.
pub open spec fn option_debug(text: Option<Seq<char>>) -> Seq<char> {
    match text {
        Some(t) => "Some("@ + text_debug(t) + ")"@,
        None => "None"@,
    }
}

/// What an object is shown as.
pub open spec fn object_debug(object: ObjectView) -> Seq<char> {
    match object {
        ObjectView::Blob { hash, data } => "Blob(Blob { hash: "@ + text_debug(hash) + ", data: "@
            + bytes_debug(data) + " })"@,
        ObjectView::Tree { hash, entries } => "Tree(Tree { hash: "@ + text_debug(hash)
            + ", entries: "@ + entries_debug(entries) + " })"@,
        ObjectView::Commit { hash, tree_hash, parent_hashes, author, timestamp, message } =>
        "Commit(Commit { hash: "@ + text_debug(hash) + ", tree_hash: "@ + text_debug(tree_hash)
            + ", parent_hashes: "@ + texts_debug(parent_hashes) + ", author: "@ + text_debug(author)
            + ", timestamp: "@ + time_debug(timestamp.secs, timestamp.nanos) + ", message: "@
            + text_debug(message) + " })"@,
        ObjectView::Tag { hash, commit_hash, name, annotation } => "Tag(Tag { hash: "@
            + text_debug(hash) + ", commit_hash: "@ + text_debug(commit_hash) + ", name: "@
            + text_debug(name) + ", message: "@ + option_debug(annotation) + " })"@,
    }
}

fn show_list(parts: &Vec<String>) -> (r: String)
    ensures
        r@ == bracketed(texts(parts@)),
{
    let mut s = String::from_str("[");
    s.append(join_texts(parts, ", ").as_str());
    s.append("]");
    s
}

/// Show texts.
pub fn show_texts(list: &Vec<String>) -> (r: String)
    ensures
        r@ == texts_debug(texts(list@)),
{
    let mut parts: Vec<String> = Vec::new();
    let mut i: usize = 0;
    while i < list.len()
        invariant
            i <= list@.len(),
            parts@.len() == i,
            forall|k: int| 0 <= k < i ==> (#[trigger] parts@[k])@ == text_debug(list@[k]@),
        decreases list@.len() - i,
    {
        parts.push(debug_text(list[i].as_str()));
        i += 1;
    }
    assert(texts(parts@) =~= texts(list@).map_values(|t: Seq<char>| text_debug(t)));
    show_list(&parts)
}

fn show_bytes(data: &Vec<u8>) -> (r: String)
    ensures
        r@ == bytes_debug(data@),
{
    let mut parts: Vec<String> = Vec::new();
    let mut i: usize = 0;
    while i < data.len()
        invariant
            i <= data@.len(),
            parts@.len() == i,
            forall|k: int| 0 <= k < i ==> (#[trigger] parts@[k])@ == decimal(data@[k] as nat),
        decreases data@.len() - i,
    {
        parts.push(decimal_text(data[i] as u64));
        i += 1;
    }
    assert(texts(parts@) =~= data@.map_values(|b: u8| decimal(b as nat)));
    show_list(&parts)
}

fn show_entry(e: &TreeEntry) -> (r: String)
    ensures
        r@ == entry_debug(e@),
{
    let mut s = String::from_str("TreeEntry { name: ");
    s.append(debug_text(e.name.as_str()).as_str());
    s.append(", hash: ");
    s.append(debug_text(e.hash.as_str()).as_str());
    s.append(", mode: ");
    s.append(
        match e.mode {
            ObjectMode::Blob => "Blob",
            ObjectMode::Tree => "Tree",
            ObjectMode::Executable => "Executable",
        },
    );
    s.append(" }");
    s
}

fn show_entries(entries: &Vec<TreeEntry>) -> (r: String)
    ensures
        r@ == entries_debug(entries_view(entries@)),
{
    let mut parts: Vec<String> = Vec::new();
    let mut i: usize = 0;
    while i < entries.len()
        invariant
            i <= entries@.len(),
            parts@.len() == i,
            forall|k: int| 0 <= k < i ==> (#[trigger] parts@[k])@ == entry_debug(entries@[k]@),
        decreases entries@.len() - i,
    {
        parts.push(show_entry(&entries[i]));
        i += 1;
    }
    assert(texts(parts@) =~= entries_view(entries@).map_values(|e: EntryView| entry_debug(e)));
    show_list(&parts)
}

/// Show an object.
pub fn show_object(object: &Object) -> (r: String)
    ensures
        r@ == object_debug(object@),
{
    match object {
        Object::Blob(b) => {
            let mut s = String::from_str("Blob(Blob { hash: ");
            s.append(debug_text(b.hash.as_str()).as_str());
            s.append(", data: ");
            s.append(show_bytes(&b.data).as_str());
            s.append(" })");
            s
        },
        Object::Tree(t) => {
            let mut s = String::from_str("Tree(Tree { hash: ");
            s.append(debug_text(t.hash.as_str()).as_str());
            s.append(", entries: ");
            s.append(show_entries(&t.entries).as_str());
            s.append(" })");
            s
        },
        Object::Commit(c) => {
            let mut s = String::from_str("Commit(Commit { hash: ");
            s.append(debug_text(c.hash.as_str()).as_str());
            s.append(", tree_hash: ");
            s.append(debug_text(c.tree_hash.as_str()).as_str());
            s.append(", parent_hashes: ");
            s.append(show_texts(&c.parent_hashes).as_str());
            s.append(", author: ");
            s.append(debug_text(c.author.as_str()).as_str());
            s.append(", timestamp: ");
            s.append(debug_time(c.timestamp).as_str());
            s.append(", message: ");
            s.append(debug_text(c.message.as_str()).as_str());
            s.append(" })");
            s
        },
        Object::Tag(t) => {
            let mut s = String::from_str("Tag(Tag { hash: ");
            s.append(debug_text(t.hash.as_str()).as_str());
            s.append(", commit_hash: ");
            s.append(debug_text(t.commit_hash.as_str()).as_str());
            s.append(", name: ");
            s.append(debug_text(t.name.as_str()).as_str());
            s.append(", message: ");
            match &t.message {
                Some(m) => {
                    s.append("Some(");
                    s.append(debug_text(m.as_str()).as_str());
                    s.append(")");
                },
                None => {
                    s.append("None");
                },
            }
            s.append(" })");
            s
        },
    }
}

} // verus!
