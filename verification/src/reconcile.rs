//! Keeping a room's `astra.toml` in step with its definition.
//!
//! The file has two writers: this library and the server's `/admin` panel.
//! It is therefore never regenerated once it exists, but reconciled key by
//! key, each key with one owner:
//! - `port`, `web_port`, `data_dir` belong to the orchestration and are
//!   always written (they are tied to the published ports and the data
//!   mount);
//! - the room settings that [`RoomDef`] holds (`room_name`, `bot_name`,
//!   `room_topic`, `owner_password`, `allow_registration`, `roomsearch`) are
//!   shared: the last writer wins, because the definition is refreshed from
//!   the file ([`sync_room_from_toml`]) before it is written back;
//! - every other key belongs to the panel and is left as it is.
//!
//! The file's comments stay too, in order; only a comment that the old value
//! of a managed key held (one at the end of its line) goes with that value.

use vstd::prelude::*;
use crate::generate::astra_toml;
use crate::generate::astra_toml_text;
use crate::model::RoomDef;
use crate::toml_doc::{
    comment_kept, comments_outside, get_entry, lemma_comments_outside_twice, parse_document, render_document, set_entry,
    toml_document_comments, toml_error_message, toml_text_comments, toml_text_entries, scalar_at, TomlComment,
    TomlEntry, TomlScalar,
};

verus! {

/// Why a room's configuration file could not be written.
#[derive(Debug)]
pub enum ConfigError {
    /// The existing file is not valid TOML; `detail` is the parser's account.
    InvalidToml { detail: String },
}

impl ConfigError {
    /// The message shown for the error.
    pub fn message(&self) -> (res: String)
        ensures
            res@ == "el astra.toml existente no es TOML v\u{e1}lido; corr\u{ed}gelo o b\u{f3}rralo para regenerarlo"@,
    {
        String::from_str("el astra.toml existente no es TOML v\u{e1}lido; corr\u{ed}gelo o b\u{f3}rralo para regenerarlo")
    }
}

/// The data directory inside the container.
pub open spec fn container_data_dir() -> Seq<char> {
    "/app/data"@
}

/// The entries of a room's configuration after reconciling it with `room`:
/// the orchestration keys and the room settings set from `room`, everything
/// else as it was.
pub open spec fn reconciled_entries(entries: Map<Seq<char>, TomlEntry>, room: RoomDef) -> Map<Seq<char>, TomlEntry> {
    entries
        .insert("port"@, TomlEntry::Int(room.port as int))
        .insert("web_port"@, TomlEntry::Int(room.port as int))
        .insert("data_dir"@, TomlEntry::Str(container_data_dir()))
        .insert("room_name"@, TomlEntry::Str(room.room_name@))
        .insert("bot_name"@, TomlEntry::Str(room.bot_name@))
        .insert("room_topic"@, TomlEntry::Str(room.topic@))
        .insert("owner_password"@, TomlEntry::Str(room.owner_password@))
        .insert("allow_registration"@, TomlEntry::Bool(room.allow_registration))
        .insert("roomsearch"@, TomlEntry::Bool(room.roomsearch))
}

/// The keys that reconciling writes.
pub open spec fn is_managed_key(k: Seq<char>) -> bool {
    k == "port"@ || k == "web_port"@ || k == "data_dir"@ || k == "room_name"@ || k == "bot_name"@
        || k == "room_topic"@ || k == "owner_password"@ || k == "allow_registration"@ || k == "roomsearch"@
}

/// `after` holds every key that is not one of the managed keys exactly as
/// `before` does: present with the same whole value (tables and arrays with
/// everything in them), or absent.
pub open spec fn unmanaged_kept(before: Map<Seq<char>, TomlEntry>, after: Map<Seq<char>, TomlEntry>) -> bool {
    forall|k: Seq<char>|
        #![trigger after.contains_key(k)]
        #![trigger before.contains_key(k)]
        !is_managed_key(k) ==> (after.contains_key(k) == before.contains_key(k) && (before.contains_key(k) ==> after[k] == before[k]))
}

/// The keys that reconciling writes, as a set.
pub open spec fn managed_keys() -> Set<Seq<char>> {
    set!["port"@, "web_port"@, "data_dir"@, "room_name"@, "bot_name"@, "room_topic"@, "owner_password"@,
        "allow_registration"@, "roomsearch"@]
}

/// The comments that survive reconciling: every comment, in order, except
/// those held by the old values of the managed keys (such as a comment at the
/// end of a `port = ...` line). The comment lines above a managed key, and
/// every comment of the other keys, tables and arrays, are kept.
pub open spec fn kept_comments(cs: Seq<TomlComment>) -> Seq<TomlComment> {
    comments_outside(cs, managed_keys())
}

/// Every comment that no managed key's old value holds survives reconciling:
/// in particular the comment lines above any key and every comment of the
/// tables and arrays the admin panel owns.
pub proof fn lemma_reconcile_keeps_comment(cs: Seq<TomlComment>, i: int)
    requires
        0 <= i < cs.len(),
        cs[i].item is None || !is_managed_key(cs[i].item->0),
    ensures
        kept_comments(cs).contains(cs[i]),
{
    assert(comment_kept(cs[i], managed_keys()));
    cs.lemma_filter_contains(|c: TomlComment| comment_kept(c, managed_keys()), i);
}

/// Applies the keys this library owns onto an `astra.toml` that already
/// exists, keeping everything else. Fails, rather than overwrite it, when the
/// file is not valid TOML.
pub fn reconcile_astra_toml(existing: &str, room: &RoomDef) -> (res: Result<String, ConfigError>)
    ensures
        res is Ok <==> toml_text_entries(existing@) is Some,
        res matches Ok(out) ==> toml_text_entries(out@) == Some(
            reconciled_entries(toml_text_entries(existing@)->0, *room),
        ),
        res matches Ok(out) ==> unmanaged_kept(toml_text_entries(existing@)->0, toml_text_entries(out@)->0),
        res matches Ok(out) ==> toml_text_comments(out@) == Some(kept_comments(toml_text_comments(existing@)->0)),
{
    let mut doc = match parse_document(existing) {
        Ok(doc) => doc,
        Err(e) => {
            return Err(ConfigError::InvalidToml { detail: toml_error_message(&e) });
        },
    };
    let ghost c0 = toml_document_comments(doc);
    // Orchestration: always ours.
    set_entry(&mut doc, "port", TomlScalar::Int(room.port as i64));
    let ghost k1 = set!["port"@];
    proof { assert(toml_document_comments(doc) == comments_outside(c0, k1)); }
    set_entry(&mut doc, "web_port", TomlScalar::Int(room.port as i64));
    let ghost k2 = k1.union(set!["web_port"@]);
    proof { lemma_comments_outside_twice(c0, k1, set!["web_port"@]); }
    set_entry(&mut doc, "data_dir", TomlScalar::Str(String::from_str("/app/data")));
    let ghost k3 = k2.union(set!["data_dir"@]);
    proof { lemma_comments_outside_twice(c0, k2, set!["data_dir"@]); }
    // Room settings: the definition was refreshed from the file, so this only
    // changes what the operator edited.
    set_entry(&mut doc, "room_name", TomlScalar::Str(room.room_name.clone()));
    let ghost k4 = k3.union(set!["room_name"@]);
    proof { lemma_comments_outside_twice(c0, k3, set!["room_name"@]); }
    set_entry(&mut doc, "bot_name", TomlScalar::Str(room.bot_name.clone()));
    let ghost k5 = k4.union(set!["bot_name"@]);
    proof { lemma_comments_outside_twice(c0, k4, set!["bot_name"@]); }
    set_entry(&mut doc, "room_topic", TomlScalar::Str(room.topic.clone()));
    let ghost k6 = k5.union(set!["room_topic"@]);
    proof { lemma_comments_outside_twice(c0, k5, set!["room_topic"@]); }
    set_entry(&mut doc, "owner_password", TomlScalar::Str(room.owner_password.clone()));
    let ghost k7 = k6.union(set!["owner_password"@]);
    proof { lemma_comments_outside_twice(c0, k6, set!["owner_password"@]); }
    set_entry(&mut doc, "allow_registration", TomlScalar::Bool(room.allow_registration));
    let ghost k8 = k7.union(set!["allow_registration"@]);
    proof { lemma_comments_outside_twice(c0, k7, set!["allow_registration"@]); }
    set_entry(&mut doc, "roomsearch", TomlScalar::Bool(room.roomsearch));
    let ghost k9 = k8.union(set!["roomsearch"@]);
    proof {
        lemma_comments_outside_twice(c0, k8, set!["roomsearch"@]);
        assert(k9 =~= managed_keys());
        assert(toml_document_comments(doc) == kept_comments(c0));
    }
    let out = render_document(&doc);
    proof {
        let before = toml_text_entries(existing@)->0;
        let after = reconciled_entries(before, *room);
        assert forall|k: Seq<char>| !is_managed_key(k) implies (after.contains_key(k) == before.contains_key(k)
            && (before.contains_key(k) ==> after[k] == before[k])) by {
            lemma_reconcile_keeps_other_keys(before, *room, k);
        }
    }
    Ok(out)
}


proof fn reveal_managed_keys()
    ensures
        "port"@ != "web_port"@,
        "port"@ != "data_dir"@,
        "port"@ != "room_name"@,
        "port"@ != "bot_name"@,
        "port"@ != "room_topic"@,
        "port"@ != "owner_password"@,
        "port"@ != "allow_registration"@,
        "port"@ != "roomsearch"@,
        "web_port"@ != "data_dir"@,
        "web_port"@ != "room_name"@,
        "web_port"@ != "bot_name"@,
        "web_port"@ != "room_topic"@,
        "web_port"@ != "owner_password"@,
        "web_port"@ != "allow_registration"@,
        "web_port"@ != "roomsearch"@,
        "data_dir"@ != "room_name"@,
        "data_dir"@ != "bot_name"@,
        "data_dir"@ != "room_topic"@,
        "data_dir"@ != "owner_password"@,
        "data_dir"@ != "allow_registration"@,
        "data_dir"@ != "roomsearch"@,
        "room_name"@ != "bot_name"@,
        "room_name"@ != "room_topic"@,
        "room_name"@ != "owner_password"@,
        "room_name"@ != "allow_registration"@,
        "room_name"@ != "roomsearch"@,
        "bot_name"@ != "room_topic"@,
        "bot_name"@ != "owner_password"@,
        "bot_name"@ != "allow_registration"@,
        "bot_name"@ != "roomsearch"@,
        "room_topic"@ != "owner_password"@,
        "room_topic"@ != "allow_registration"@,
        "room_topic"@ != "roomsearch"@,
        "owner_password"@ != "allow_registration"@,
        "owner_password"@ != "roomsearch"@,
        "allow_registration"@ != "roomsearch"@,
{
    reveal_strlit("port");
    reveal_strlit("web_port");
    reveal_strlit("data_dir");
    reveal_strlit("room_name");
    reveal_strlit("bot_name");
    reveal_strlit("room_topic");
    reveal_strlit("owner_password");
    reveal_strlit("allow_registration");
    reveal_strlit("roomsearch");
    assert("port"@.len() != "web_port"@.len());
    assert("port"@.len() != "data_dir"@.len());
    assert("port"@.len() != "room_name"@.len());
    assert("port"@.len() != "bot_name"@.len());
    assert("port"@.len() != "room_topic"@.len());
    assert("port"@.len() != "owner_password"@.len());
    assert("port"@.len() != "allow_registration"@.len());
    assert("port"@.len() != "roomsearch"@.len());
    assert("web_port"@[0] != "data_dir"@[0]);
    assert("web_port"@.len() != "room_name"@.len());
    assert("web_port"@[0] != "bot_name"@[0]);
    assert("web_port"@.len() != "room_topic"@.len());
    assert("web_port"@.len() != "owner_password"@.len());
    assert("web_port"@.len() != "allow_registration"@.len());
    assert("web_port"@.len() != "roomsearch"@.len());
    assert("data_dir"@.len() != "room_name"@.len());
    assert("data_dir"@[0] != "bot_name"@[0]);
    assert("data_dir"@.len() != "room_topic"@.len());
    assert("data_dir"@.len() != "owner_password"@.len());
    assert("data_dir"@.len() != "allow_registration"@.len());
    assert("data_dir"@.len() != "roomsearch"@.len());
    assert("room_name"@.len() != "bot_name"@.len());
    assert("room_name"@.len() != "room_topic"@.len());
    assert("room_name"@.len() != "owner_password"@.len());
    assert("room_name"@.len() != "allow_registration"@.len());
    assert("room_name"@.len() != "roomsearch"@.len());
    assert("bot_name"@.len() != "room_topic"@.len());
    assert("bot_name"@.len() != "owner_password"@.len());
    assert("bot_name"@.len() != "allow_registration"@.len());
    assert("bot_name"@.len() != "roomsearch"@.len());
    assert("room_topic"@.len() != "owner_password"@.len());
    assert("room_topic"@.len() != "allow_registration"@.len());
    assert("room_topic"@[4] != "roomsearch"@[4]);
    assert("owner_password"@.len() != "allow_registration"@.len());
    assert("owner_password"@.len() != "roomsearch"@.len());
    assert("allow_registration"@.len() != "roomsearch"@.len());
}

/// After reconciling, the orchestration keys hold the room's port and
/// the container's data directory, whatever the file said before.
pub proof fn lemma_reconcile_orchestration_wins(entries: Map<Seq<char>, TomlEntry>, room: RoomDef)
    ensures
        reconciled_entries(entries, room)["port"@] == TomlEntry::Int(room.port as int),
        reconciled_entries(entries, room)["web_port"@] == TomlEntry::Int(room.port as int),
        reconciled_entries(entries, room)["data_dir"@] == TomlEntry::Str(container_data_dir()),
{
    reveal_managed_keys();
}

/// Reconciling leaves every key that is not one of its own exactly as
/// it was, present or absent.
pub proof fn lemma_reconcile_keeps_other_keys(entries: Map<Seq<char>, TomlEntry>, room: RoomDef, k: Seq<char>)
    requires
        !is_managed_key(k),
    ensures
        reconciled_entries(entries, room).contains_key(k) == entries.contains_key(k),
        entries.contains_key(k) ==> reconciled_entries(entries, room)[k] == entries[k],
{
}

/// What reconciling writes, refreshing reads back: a room refreshed
/// from a file reconciled with `room` gets exactly `room`'s settings, and
/// keeps its own id, port and domain.
pub proof fn lemma_sync_reads_back_reconcile(
    entries: Map<Seq<char>, TomlEntry>,
    room: RoomDef,
    before: RoomDef,
    after: RoomDef,
)
    requires
        synced_from(after, before, reconciled_entries(entries, room)),
    ensures
        after.room_name@ == room.room_name@,
        after.bot_name@ == room.bot_name@,
        after.topic@ == room.topic@,
        after.owner_password@ == room.owner_password@,
        after.allow_registration == room.allow_registration,
        after.roomsearch == room.roomsearch,
        after.id == before.id,
        after.port == before.port,
        after.domain == before.domain,
{
    reveal_managed_keys();
}

/// Reconciling twice with the same room gives the same entries as
/// reconciling once.
pub proof fn lemma_reconcile_idempotent(entries: Map<Seq<char>, TomlEntry>, room: RoomDef)
    ensures
        reconciled_entries(reconciled_entries(entries, room), room) == reconciled_entries(entries, room),
{
    reveal_managed_keys();
    assert(reconciled_entries(reconciled_entries(entries, room), room) =~= reconciled_entries(entries, room));
}

/// Reconciling the comments a second time drops nothing more.
pub proof fn lemma_reconcile_comments_idempotent(cs: Seq<TomlComment>)
    ensures
        kept_comments(kept_comments(cs)) == kept_comments(cs),
{
    lemma_comments_outside_twice(cs, managed_keys(), managed_keys());
    assert(managed_keys().union(managed_keys()) =~= managed_keys());
}

/// The string at `key` of `entries`, or `current` when there is none.
pub open spec fn str_or(entries: Map<Seq<char>, TomlEntry>, key: Seq<char>, current: Seq<char>) -> Seq<char> {
    match scalar_at(entries, key) {
        Some(TomlEntry::Str(s)) => s,
        _ => current,
    }
}

/// The boolean at `key` of `entries`, or `current` when there is none.
pub open spec fn bool_or(entries: Map<Seq<char>, TomlEntry>, key: Seq<char>, current: bool) -> bool {
    match scalar_at(entries, key) {
        Some(TomlEntry::Bool(b)) => b,
        _ => current,
    }
}

/// `room` has the settings read from `entries` on top of those of `before`,
/// and the same id, port and domain.
pub open spec fn synced_from(room: RoomDef, before: RoomDef, entries: Map<Seq<char>, TomlEntry>) -> bool {
    &&& room.id == before.id
    &&& room.port == before.port
    &&& room.domain == before.domain
    &&& room.room_name@ == str_or(entries, "room_name"@, before.room_name@)
    &&& room.bot_name@ == str_or(entries, "bot_name"@, before.bot_name@)
    &&& room.topic@ == str_or(entries, "room_topic"@, before.topic@)
    &&& room.owner_password@ == str_or(entries, "owner_password"@, before.owner_password@)
    &&& room.allow_registration == bool_or(entries, "allow_registration"@, before.allow_registration)
    &&& room.roomsearch == bool_or(entries, "roomsearch"@, before.roomsearch)
}

fn read_str(doc: &toml_edit::DocumentMut, key: &str, current: &mut String)
    ensures
        final(current)@ == str_or(crate::toml_doc::toml_document_entries(*doc), key@, old(current)@),
{
    match get_entry(doc, key) {
        Some(TomlScalar::Str(v)) => {
            *current = v;
        },
        _ => {},
    }
}

fn read_bool(doc: &toml_edit::DocumentMut, key: &str, current: &mut bool)
    ensures
        *final(current) == bool_or(crate::toml_doc::toml_document_entries(*doc), key@, *old(current)),
{
    match get_entry(doc, key) {
        Some(TomlScalar::Bool(v)) => {
            *current = v;
        },
        _ => {},
    }
}

/// Refreshes in `room` the settings that the admin panel may have changed,
/// reading them from the text of its `astra.toml`. When the text does not
/// parse the room is left as it was. The port and the domain are never read.
pub fn sync_room_from_toml(room: &mut RoomDef, toml_text: &str)
    ensures
        toml_text_entries(toml_text@) is None ==> *final(room) == *old(room),
        toml_text_entries(toml_text@) matches Some(entries) ==> synced_from(*final(room), *old(room), entries),
{
    let doc = match parse_document(toml_text) {
        Ok(doc) => doc,
        Err(_) => {
            return;
        },
    };
    read_str(&doc, "room_name", &mut room.room_name);
    read_str(&doc, "bot_name", &mut room.bot_name);
    read_str(&doc, "room_topic", &mut room.topic);
    read_str(&doc, "owner_password", &mut room.owner_password);
    read_bool(&doc, "allow_registration", &mut room.allow_registration);
    read_bool(&doc, "roomsearch", &mut room.roomsearch);
}

/// The text to write as a room's `astra.toml`: the existing file reconciled
/// when there is one, else the full scaffold.
pub fn room_toml_text(existing: Option<&str>, room: &RoomDef) -> (res: Result<String, ConfigError>)
    ensures
        existing is None ==> res is Ok && res->Ok_0@ == astra_toml_text(*room),
        existing matches Some(t) ==> (res is Ok <==> toml_text_entries(t@) is Some),
        existing matches Some(t) ==> (res matches Ok(out) ==> toml_text_entries(out@) == Some(
            reconciled_entries(toml_text_entries(t@)->0, *room),
        )),
        existing matches Some(t) ==> (res matches Ok(out) ==> toml_text_comments(out@) == Some(
            kept_comments(toml_text_comments(t@)->0),
        )),
{
    match existing {
        Some(t) => reconcile_astra_toml(t, room),
        None => Ok(astra_toml(room)),
    }
}

/// The rooms after refreshing each from the text of its `astra.toml`
/// (`texts[i]` for `rooms[i]`, `None` when it could not be read), except the
/// room `keep`, whose settings in memory are newer than the file's.
pub open spec fn rooms_synced(
    before: Seq<RoomDef>,
    after: Seq<RoomDef>,
    texts: Seq<Option<Seq<char>>>,
    keep: Option<Seq<char>>,
) -> bool {
    &&& after.len() == before.len()
    &&& forall|i: int| 0 <= i < before.len() ==> {
        let skip = (keep matches Some(k) && (#[trigger] before[i]).id@ == k) || texts[i] is None
            || toml_text_entries(texts[i]->0) is None;
        if skip {
            after[i] == before[i]
        } else {
            synced_from(after[i], before[i], toml_text_entries(texts[i]->0)->0)
        }
    }
}

/// Refreshes every room of the project from the texts of the rooms'
/// `astra.toml` files, so that what the admin panel changed is neither shown
/// stale nor written back; the room `keep`, just edited, is left alone.
pub fn sync_rooms_from_texts(project: &mut crate::model::Project, texts: &Vec<Option<String>>, keep: Option<&str>)
    requires
        texts@.len() == old(project).rooms@.len(),
    ensures
        final(project).image == old(project).image,
        rooms_synced(old(project).rooms@, final(project).rooms@, texts@.map_values(|t: Option<String>| crate::json::opt_str_view(t)), crate::model::opt_view(keep)),
{
    let ghost before = project.rooms@;
    let ghost tv = texts@.map_values(|t: Option<String>| crate::json::opt_str_view(t));
    let mut i: usize = 0;
    while i < project.rooms.len()
        invariant
            project.rooms@.len() == before.len(),
            texts@.len() == before.len(),
            project.image == old(project).image,
            before == old(project).rooms@,
            tv == texts@.map_values(|t: Option<String>| crate::json::opt_str_view(t)),
            i <= before.len(),
            forall|j: int| i <= j < before.len() ==> project.rooms@[j] == before[j],
            forall|j: int| 0 <= j < i ==> {
                let skip = (crate::model::opt_view(keep) matches Some(k) && (#[trigger] before[j]).id@ == k) || tv[j] is None
                    || toml_text_entries(tv[j]->0) is None;
                if skip {
                    project.rooms@[j] == before[j]
                } else {
                    synced_from(project.rooms@[j], before[j], toml_text_entries(tv[j]->0)->0)
                }
            },
        decreases before.len() - i,
    {
        let kept = match keep {
            Some(k) => crate::text::str_eq(project.rooms[i].id.as_str(), k),
            None => false,
        };
        if !kept {
            match &texts[i] {
                Some(t) => {
                    let mut room = project.rooms[i].clone();
                    sync_room_from_toml(&mut room, t.as_str());
                    project.rooms.set(i, room);
                },
                None => {},
            }
        }
        proof {
            assert(tv[i as int] == crate::json::opt_str_view(texts@[i as int]));
        }
        i = i + 1;
    }
}

} // verus!
