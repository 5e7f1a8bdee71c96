//! The rooms of a project and the project itself.

use vstd::prelude::*;
use crate::slug::{slug, slugify};
use crate::text::{push_str, str_eq};

verus! {

/// The definition of one chat room, which becomes one container.
pub struct RoomDef {
    /// Unique identifier (a slug), used for service, volume and folder names.
    pub id: String,
    /// Name shown for the room.
    pub room_name: String,
    /// Name of the system bot.
    pub bot_name: String,
    /// Owner password (enables `/login` and the `/admin` panel).
    pub owner_password: String,
    /// Host port (unique among rooms).
    pub port: u16,
    /// Initial topic.
    pub topic: String,
    /// Whether accounts may be registered.
    pub allow_registration: bool,
    /// Whether the room is announced in the UDP room search.
    pub roomsearch: bool,
    /// Domain for HTTPS; empty means no TLS.
    pub domain: String,
}

impl Clone for RoomDef {
    fn clone(&self) -> (res: Self)
        ensures
            res == *self,
    {
        RoomDef {
            id: self.id.clone(),
            room_name: self.room_name.clone(),
            bot_name: self.bot_name.clone(),
            owner_password: self.owner_password.clone(),
            port: self.port,
            topic: self.topic.clone(),
            allow_registration: self.allow_registration,
            roomsearch: self.roomsearch,
            domain: self.domain.clone(),
        }
    }
}

/// Name of the room shown by default: `"Sala "` followed by the id.
pub open spec fn default_room_name(id: Seq<char>) -> Seq<char> {
    "Sala "@ + id
}

/// Name of the compose service of a room: `"astra-"` followed by the id.
pub open spec fn service_name_of(id: Seq<char>) -> Seq<char> {
    "astra-"@ + id
}

impl RoomDef {
    /// A room with reasonable defaults; the id is slugified.
    pub fn new(id: &str, port: u16) -> (r: RoomDef)
        ensures
            r.id@ == slug(id@),
            r.room_name@ == default_room_name(slug(id@)),
            r.bot_name@ == "Astra"@,
            r.owner_password@.len() == 0,
            r.port == port,
            r.topic@ == "Bienvenidos"@,
            r.allow_registration,
            r.roomsearch,
            r.domain@.len() == 0,
    {
        let id = slugify(id);
        let mut room_name = String::from_str("Sala ");
        push_str(&mut room_name, id.as_str());
        RoomDef {
            room_name,
            bot_name: String::from_str("Astra"),
            owner_password: String::new(),
            port,
            topic: String::from_str("Bienvenidos"),
            allow_registration: true,
            roomsearch: true,
            domain: String::new(),
            id,
        }
    }

    /// Name of the Docker Compose service for this room.
    pub fn service_name(&self) -> (res: String)
        ensures
            res@ == service_name_of(self.id@),
    {
        let mut s = String::from_str("astra-");
        push_str(&mut s, self.id.as_str());
        s
    }
}

/// The whole state of a project: its rooms and the image they run.
pub struct Project {
    /// Docker image of Astra that every room runs.
    pub image: String,
    /// The rooms, in the order in which they were defined.
    pub rooms: Vec<RoomDef>,
}

/// The name of the file, in the project's directory, that holds the
/// project's state.
pub open spec fn state_file_name_spec() -> Seq<char> {
    "astra-creator.json"@
}

impl Project {
    /// The name of the project's state file, `astra-creator.json`, which
    /// lives in the project's directory.
    pub fn state_file_name() -> (res: &'static str)
        ensures
            res@ == state_file_name_spec(),
    {
        "astra-creator.json"
    }
}

/// The image a new project runs.
pub open spec fn default_image_name() -> Seq<char> {
    "ghcr.io/bsjaramillo/astra:latest"@
}

pub fn default_image() -> (res: String)
    ensures
        res@ == default_image_name(),
{
    String::from_str("ghcr.io/bsjaramillo/astra:latest")
}

impl Default for Project {
    fn default() -> (p: Self)
        ensures
            p.image@ == default_image_name(),
            p.rooms@.len() == 0,
    {
        Project { image: default_image(), rooms: Vec::new() }
    }
}

/// The first port suggested for a new room.
pub open spec fn first_port() -> int {
    5009
}

/// Some room of `rooms` listens on `port`.
pub open spec fn port_used(rooms: Seq<RoomDef>, port: int) -> bool {
    exists|i: int| 0 <= i < rooms.len() && #[trigger] rooms[i].port == port
}

/// Some room of `rooms` has the id `id`.
pub open spec fn id_used(rooms: Seq<RoomDef>, id: Seq<char>) -> bool {
    exists|i: int| 0 <= i < rooms.len() && #[trigger] rooms[i].id@ == id
}

/// The room `r` is not the one named by `except` (every room counts when
/// `except` is `None`).
pub open spec fn not_excepted(r: RoomDef, except: Option<Seq<char>>) -> bool {
    match except {
        Some(e) => r.id@ != e,
        None => true,
    }
}

/// Some room other than `except` listens on `port`.
pub open spec fn port_taken(rooms: Seq<RoomDef>, port: int, except: Option<Seq<char>>) -> bool {
    exists|i: int|
        0 <= i < rooms.len() && #[trigger] rooms[i].port == port && not_excepted(rooms[i], except)
}

/// `domain` is not empty and some room other than `except` serves it.
pub open spec fn domain_taken(rooms: Seq<RoomDef>, domain: Seq<char>, except: Option<Seq<char>>) -> bool {
    domain.len() > 0 && exists|i: int|
        0 <= i < rooms.len() && (#[trigger] rooms[i]).domain@ == domain && not_excepted(rooms[i], except)
}

/// The rooms that have a domain, in their order: those behind the reverse proxy.
pub open spec fn tls_of(rooms: Seq<RoomDef>) -> Seq<RoomDef>
    decreases rooms.len(),
{
    if rooms.len() == 0 {
        Seq::<RoomDef>::empty()
    } else if rooms.last().domain@.len() > 0 {
        tls_of(rooms.drop_last()).push(rooms.last())
    } else {
        tls_of(rooms.drop_last())
    }
}

/// `i` is the first position of `rooms` whose room has the id `id`.
pub open spec fn first_with_id(rooms: Seq<RoomDef>, id: Seq<char>, i: int) -> bool {
    &&& 0 <= i < rooms.len()
    &&& rooms[i].id@ == id
    &&& forall|j: int| 0 <= j < i ==> #[trigger] rooms[j].id@ != id
}

/// `rooms` without the rooms whose id is `id`, the others kept in order.
pub open spec fn without_id(rooms: Seq<RoomDef>, id: Seq<char>) -> Seq<RoomDef>
    decreases rooms.len(),
{
    if rooms.len() == 0 {
        Seq::<RoomDef>::empty()
    } else if rooms.last().id@ == id {
        without_id(rooms.drop_last(), id)
    } else {
        without_id(rooms.drop_last(), id).push(rooms.last())
    }
}

/// No two rooms share an id.
pub open spec fn ids_unique(rooms: Seq<RoomDef>) -> bool {
    forall|i: int, j: int|
        0 <= i < rooms.len() && 0 <= j < rooms.len() && i != j ==> #[trigger] rooms[i].id@ != #[trigger] rooms[j].id@
}

/// The rooms after inserting `room`, or replacing the first room with its id.
pub open spec fn upserted(rooms: Seq<RoomDef>, room: RoomDef) -> Seq<RoomDef> {
    if id_used(rooms, room.id@) {
        rooms.update(choose|i: int| first_with_id(rooms, room.id@, i), room)
    } else {
        rooms.push(room)
    }
}

pub proof fn lemma_first_with_id_exists(rooms: Seq<RoomDef>, id: Seq<char>)
    requires
        id_used(rooms, id),
    ensures
        exists|i: int| first_with_id(rooms, id, i),
    decreases rooms.len(),
{
    let k = choose|k: int| 0 <= k < rooms.len() && #[trigger] rooms[k].id@ == id;
    if id_used(rooms.drop_last(), id) {
        lemma_first_with_id_exists(rooms.drop_last(), id);
        let i = choose|i: int| first_with_id(rooms.drop_last(), id, i);
        assert(first_with_id(rooms, id, i)) by {
            assert forall|j: int| 0 <= j < i implies #[trigger] rooms[j].id@ != id by {
                assert(rooms[j] == rooms.drop_last()[j]);
            }
        }
    } else {
        assert(k == rooms.len() - 1) by {
            if k < rooms.len() - 1 {
                assert(rooms.drop_last()[k] == rooms[k]);
            }
        }
        assert(first_with_id(rooms, id, k)) by {
            assert forall|j: int| 0 <= j < k implies #[trigger] rooms[j].id@ != id by {
                assert(rooms[j] == rooms.drop_last()[j]);
            }
        }
    }
}

proof fn lemma_first_with_id_unique(rooms: Seq<RoomDef>, id: Seq<char>, i: int, j: int)
    requires
        first_with_id(rooms, id, i),
        first_with_id(rooms, id, j),
    ensures
        i == j,
{
    if i < j {
        assert(rooms[i].id@ != id);
    } else if j < i {
        assert(rooms[j].id@ != id);
    }
}


proof fn lemma_without_id_contents(rooms: Seq<RoomDef>, id: Seq<char>)
    ensures
        forall|k: int| 0 <= k < without_id(rooms, id).len() ==> #[trigger] without_id(rooms, id)[k].id@ != id,
        forall|k: int| 0 <= k < without_id(rooms, id).len() ==> rooms.contains(#[trigger] without_id(rooms, id)[k]),
        forall|k: int| 0 <= k < rooms.len() && rooms[k].id@ != id ==> without_id(rooms, id).contains(#[trigger] rooms[k]),
        without_id(rooms, id).len() <= rooms.len(),
    decreases rooms.len(),
{
    if rooms.len() > 0 {
        let init = rooms.drop_last();
        lemma_without_id_contents(init, id);
        let w = without_id(rooms, id);
        let wi = without_id(init, id);
        assert forall|k: int| 0 <= k < w.len() implies rooms.contains(#[trigger] w[k]) by {
            if k < wi.len() {
                assert(w[k] == wi[k]);
                assert(init.contains(wi[k]));
                let m = choose|m: int| 0 <= m < init.len() && init[m] == wi[k];
                assert(rooms[m] == init[m]);
            } else {
                assert(w[k] == rooms.last());
                assert(rooms[rooms.len() - 1] == rooms.last());
            }
        }
        assert forall|k: int| 0 <= k < rooms.len() && rooms[k].id@ != id implies w.contains(#[trigger] rooms[k]) by {
            if k < rooms.len() - 1 {
                assert(init[k] == rooms[k]);
                assert(wi.contains(init[k]));
                let m = choose|m: int| 0 <= m < wi.len() && wi[m] == init[k];
                assert(w[m] == wi[m]);
            } else {
                assert(w[w.len() - 1] == rooms.last());
            }
        }
        assert forall|k: int| 0 <= k < w.len() implies #[trigger] w[k].id@ != id by {
            if k < wi.len() {
                assert(w[k] == wi[k]);
            }
        }
    }
}

/// Every room left after removing `id` was one of the rooms.
pub proof fn lemma_without_id_contents_pub(rooms: Seq<RoomDef>, id: Seq<char>)
    ensures
        forall|k: int| 0 <= k < without_id(rooms, id).len() ==> rooms.contains(#[trigger] without_id(rooms, id)[k]),
{
    lemma_without_id_contents(rooms, id);
}

/// Once `room` has been upserted, a room with its id is present, and it
/// is `room` itself.
pub proof fn lemma_upsert_then_has_id(rooms: Seq<RoomDef>, room: RoomDef)
    ensures
        id_used(upserted(rooms, room), room.id@),
        upserted(rooms, room).contains(room),
{
    let u = upserted(rooms, room);
    if id_used(rooms, room.id@) {
        lemma_first_with_id_exists(rooms, room.id@);
        let i = choose|i: int| first_with_id(rooms, room.id@, i);
        assert(u[i] == room);
    } else {
        assert(u[rooms.len() as int] == room);
    }
}

/// Upserting adds a room only when its id was absent, and otherwise
/// keeps the number of rooms.
pub proof fn lemma_upsert_len(rooms: Seq<RoomDef>, room: RoomDef)
    ensures
        upserted(rooms, room).len() == rooms.len() + (if id_used(rooms, room.id@) { 0int } else { 1int }),
{
    if id_used(rooms, room.id@) {
        lemma_first_with_id_exists(rooms, room.id@);
    }
}

/// Upserting keeps the ids of the rooms unique.
pub proof fn lemma_upsert_keeps_ids_unique(rooms: Seq<RoomDef>, room: RoomDef)
    requires
        ids_unique(rooms),
    ensures
        ids_unique(upserted(rooms, room)),
{
    let u = upserted(rooms, room);
    if id_used(rooms, room.id@) {
        lemma_first_with_id_exists(rooms, room.id@);
        let i = choose|i: int| first_with_id(rooms, room.id@, i);
        assert forall|a: int, b: int|
            0 <= a < u.len() && 0 <= b < u.len() && a != b implies #[trigger] u[a].id@ != #[trigger] u[b].id@ by {
            if a == i {
                assert(rooms[b].id@ != rooms[i].id@);
            } else if b == i {
                assert(rooms[a].id@ != rooms[i].id@);
            } else {
                assert(rooms[a].id@ != rooms[b].id@);
            }
        }
    } else {
        assert forall|a: int, b: int|
            0 <= a < u.len() && 0 <= b < u.len() && a != b implies #[trigger] u[a].id@ != #[trigger] u[b].id@ by {
            if a < rooms.len() && b < rooms.len() {
                assert(rooms[a].id@ != rooms[b].id@);
            } else if a < rooms.len() {
                assert(rooms[a].id@ != room.id@);
            } else {
                assert(rooms[b].id@ != room.id@);
            }
        }
    }
}

/// After removing an id no room has it, every other room is kept, and
/// removing an id that is absent changes nothing.
pub proof fn lemma_remove_clears_id(rooms: Seq<RoomDef>, id: Seq<char>)
    ensures
        !id_used(without_id(rooms, id), id),
        forall|k: int| 0 <= k < rooms.len() && rooms[k].id@ != id ==> without_id(rooms, id).contains(#[trigger] rooms[k]),
        !id_used(rooms, id) ==> without_id(rooms, id) == rooms,
    decreases rooms.len(),
{
    lemma_without_id_contents(rooms, id);
    if rooms.len() > 0 {
        lemma_remove_clears_id(rooms.drop_last(), id);
        if !id_used(rooms, id) {
            assert(!id_used(rooms.drop_last(), id)) by {
                if id_used(rooms.drop_last(), id) {
                    let k = choose|k: int| 0 <= k < rooms.len() - 1 && #[trigger] rooms.drop_last()[k].id@ == id;
                    assert(rooms[k] == rooms.drop_last()[k]);
                }
            }
            assert(rooms[rooms.len() - 1].id@ != id);
            assert(rooms.drop_last().push(rooms.last()) =~= rooms);
        }
    }
}

/// Upserting a room with a new id and then removing that id gives back
/// the rooms as they were.
pub proof fn lemma_upsert_then_remove_restores(rooms: Seq<RoomDef>, room: RoomDef)
    requires
        !id_used(rooms, room.id@),
    ensures
        without_id(upserted(rooms, room), room.id@) == rooms,
{
    let u = upserted(rooms, room);
    assert(u.drop_last() =~= rooms);
    lemma_remove_clears_id(rooms, room.id@);
}

/// Removing rooms keeps the ids of the others unique.
pub proof fn lemma_remove_keeps_ids_unique(rooms: Seq<RoomDef>, id: Seq<char>)
    requires
        ids_unique(rooms),
    ensures
        ids_unique(without_id(rooms, id)),
    decreases rooms.len(),
{
    if rooms.len() > 0 {
        let init = rooms.drop_last();
        assert(ids_unique(init)) by {
            assert forall|a: int, b: int|
                0 <= a < init.len() && 0 <= b < init.len() && a != b implies #[trigger] init[a].id@ != #[trigger] init[b].id@ by {
                assert(init[a] == rooms[a] && init[b] == rooms[b]);
            }
        }
        lemma_remove_keeps_ids_unique(init, id);
        lemma_without_id_contents(init, id);
        let wi = without_id(init, id);
        if rooms.last().id@ != id {
            let w = without_id(rooms, id);
            assert forall|a: int, b: int|
                0 <= a < w.len() && 0 <= b < w.len() && a != b implies #[trigger] w[a].id@ != #[trigger] w[b].id@ by {
                if a < wi.len() && b < wi.len() {
                    assert(w[a] == wi[a] && w[b] == wi[b]);
                } else {
                    let k = if a < wi.len() { a } else { b };
                    assert(w[k] == wi[k]);
                    assert(init.contains(wi[k]));
                    let m = choose|m: int| 0 <= m < init.len() && init[m] == wi[k];
                    assert(rooms[m] == init[m]);
                    assert(rooms[m].id@ != rooms[rooms.len() - 1].id@);
                }
            }
        }
    }
}

/// A room's own port does not count as taken when the room itself is
/// the one excepted, as long as ids are unique and no other room shares it.
pub proof fn lemma_own_port_not_taken(rooms: Seq<RoomDef>, i: int)
    requires
        ids_unique(rooms),
        0 <= i < rooms.len(),
        forall|j: int| 0 <= j < rooms.len() && j != i ==> #[trigger] rooms[j].port != rooms[i].port,
    ensures
        !port_taken(rooms, rooms[i].port as int, Some(rooms[i].id@)),
{
    if port_taken(rooms, rooms[i].port as int, Some(rooms[i].id@)) {
        let j = choose|j: int| 0 <= j < rooms.len() && #[trigger] rooms[j].port == rooms[i].port as int && not_excepted(rooms[j], Some(rooms[i].id@));
        assert(j != i);
    }
}

/// No two rooms listen on the same port.
pub open spec fn ports_unique(rooms: Seq<RoomDef>) -> bool {
    forall|i: int, j: int|
        0 <= i < rooms.len() && 0 <= j < rooms.len() && i != j ==> #[trigger] rooms[i].port != #[trigger] rooms[j].port
}

/// No two rooms serve the same (non-empty) domain.
pub open spec fn domains_unique(rooms: Seq<RoomDef>) -> bool {
    forall|i: int, j: int|
        0 <= i < rooms.len() && 0 <= j < rooms.len() && i != j && (#[trigger] rooms[i]).domain@.len() > 0
            ==> rooms[i].domain@ != (#[trigger] rooms[j]).domain@
}

/// The rooms can coexist: distinct ids, ports and domains.
pub open spec fn rooms_distinct(rooms: Seq<RoomDef>) -> bool {
    ids_unique(rooms) && ports_unique(rooms) && domains_unique(rooms)
}

/// Removing rooms keeps the remaining ones distinct.
pub proof fn lemma_remove_keeps_rooms_distinct(rooms: Seq<RoomDef>, id: Seq<char>)
    requires
        rooms_distinct(rooms),
    ensures
        rooms_distinct(without_id(rooms, id)),
    decreases rooms.len(),
{
    lemma_remove_keeps_ids_unique(rooms, id);
    if rooms.len() > 0 {
        let init = rooms.drop_last();
        assert(rooms_distinct(init)) by {
            assert forall|a: int, b: int|
                0 <= a < init.len() && 0 <= b < init.len() && a != b implies #[trigger] init[a].id@ != #[trigger] init[b].id@ by {
                assert(init[a] == rooms[a] && init[b] == rooms[b]);
            }
            assert forall|a: int, b: int|
                0 <= a < init.len() && 0 <= b < init.len() && a != b implies #[trigger] init[a].port != #[trigger] init[b].port by {
                assert(init[a] == rooms[a] && init[b] == rooms[b]);
            }
            assert forall|a: int, b: int|
                0 <= a < init.len() && 0 <= b < init.len() && a != b && (#[trigger] init[a]).domain@.len() > 0
                implies init[a].domain@ != (#[trigger] init[b]).domain@ by {
                assert(init[a] == rooms[a] && init[b] == rooms[b]);
            }
        }
        lemma_remove_keeps_rooms_distinct(init, id);
        lemma_without_id_contents(init, id);
        let wi = without_id(init, id);
        if rooms.last().id@ != id {
            let w = without_id(rooms, id);
            let last = rooms.len() - 1;
            assert forall|k: int| 0 <= k < wi.len() implies (#[trigger] wi[k]).port != rooms[last].port
                && (rooms[last].domain@.len() > 0 ==> wi[k].domain@ != rooms[last].domain@)
                && (wi[k].domain@.len() > 0 ==> wi[k].domain@ != rooms[last].domain@) by {
                assert(init.contains(wi[k]));
                let m = choose|m: int| 0 <= m < init.len() && init[m] == wi[k];
                assert(rooms[m] == init[m]);
            }
            assert forall|a: int, b: int|
                0 <= a < w.len() && 0 <= b < w.len() && a != b implies #[trigger] w[a].port != #[trigger] w[b].port by {
                if a < wi.len() && b < wi.len() {
                    assert(w[a] == wi[a] && w[b] == wi[b]);
                } else if a < wi.len() {
                    assert(w[a] == wi[a]);
                } else {
                    assert(w[b] == wi[b]);
                }
            }
            assert forall|a: int, b: int|
                0 <= a < w.len() && 0 <= b < w.len() && a != b && (#[trigger] w[a]).domain@.len() > 0
                implies w[a].domain@ != (#[trigger] w[b]).domain@ by {
                if a < wi.len() && b < wi.len() {
                    assert(w[a] == wi[a] && w[b] == wi[b]);
                } else if a < wi.len() {
                    assert(w[a] == wi[a]);
                } else {
                    assert(w[b] == wi[b]);
                }
            }
        }
    }
}

/// Upserting a room keeps the rooms distinct, provided no other room
/// (one with another id) shares its port or its domain.
pub proof fn lemma_upsert_keeps_rooms_distinct(rooms: Seq<RoomDef>, room: RoomDef)
    requires
        rooms_distinct(rooms),
        forall|k: int| 0 <= k < rooms.len() && (#[trigger] rooms[k]).id@ != room.id@ ==> rooms[k].port != room.port,
        forall|k: int|
            0 <= k < rooms.len() && (#[trigger] rooms[k]).id@ != room.id@ && room.domain@.len() > 0
                ==> rooms[k].domain@ != room.domain@,
    ensures
        rooms_distinct(upserted(rooms, room)),
{
    lemma_upsert_keeps_ids_unique(rooms, room);
    let u = upserted(rooms, room);
    if id_used(rooms, room.id@) {
        lemma_first_with_id_exists(rooms, room.id@);
        let i = choose|i: int| first_with_id(rooms, room.id@, i);
        assert forall|a: int, b: int|
            0 <= a < u.len() && 0 <= b < u.len() && a != b implies #[trigger] u[a].port != #[trigger] u[b].port by {
            if a == i {
                assert(rooms[b].id@ != rooms[i].id@);
            } else if b == i {
                assert(rooms[a].id@ != rooms[i].id@);
            } else {
                assert(rooms[a].port != rooms[b].port);
            }
        }
        assert forall|a: int, b: int|
            0 <= a < u.len() && 0 <= b < u.len() && a != b && (#[trigger] u[a]).domain@.len() > 0
            implies u[a].domain@ != (#[trigger] u[b]).domain@ by {
            if a == i {
                assert(rooms[b].id@ != rooms[i].id@);
            } else if b == i {
                assert(rooms[a].id@ != rooms[i].id@);
            } else {
                assert(u[a] == rooms[a] && u[b] == rooms[b]);
            }
        }
    } else {
        assert forall|a: int, b: int|
            0 <= a < u.len() && 0 <= b < u.len() && a != b implies #[trigger] u[a].port != #[trigger] u[b].port by {
            if a < rooms.len() && b < rooms.len() {
                assert(rooms[a].port != rooms[b].port);
            } else if a < rooms.len() {
                assert(rooms[a].id@ != room.id@);
            } else {
                assert(rooms[b].id@ != room.id@);
            }
        }
        assert forall|a: int, b: int|
            0 <= a < u.len() && 0 <= b < u.len() && a != b && (#[trigger] u[a]).domain@.len() > 0
            implies u[a].domain@ != (#[trigger] u[b]).domain@ by {
            if a < rooms.len() && b < rooms.len() {
                assert(u[a] == rooms[a] && u[b] == rooms[b]);
            } else if a < rooms.len() {
                assert(rooms[a].id@ != room.id@);
            } else {
                assert(rooms[b].id@ != room.id@);
            }
        }
    }
}

/// Removing an id that exactly one room has removes exactly one room.
pub proof fn lemma_remove_present_id_len(rooms: Seq<RoomDef>, id: Seq<char>)
    requires
        ids_unique(rooms),
        id_used(rooms, id),
    ensures
        without_id(rooms, id).len() == rooms.len() - 1,
    decreases rooms.len(),
{
    let init = rooms.drop_last();
    assert(ids_unique(init)) by {
        assert forall|a: int, b: int|
            0 <= a < init.len() && 0 <= b < init.len() && a != b implies #[trigger] init[a].id@ != #[trigger] init[b].id@ by {
            assert(init[a] == rooms[a] && init[b] == rooms[b]);
        }
    }
    if rooms.last().id@ == id {
        lemma_remove_clears_id(init, id);
        assert(!id_used(init, id)) by {
            if id_used(init, id) {
                let k = choose|k: int| 0 <= k < init.len() && #[trigger] init[k].id@ == id;
                assert(rooms[k].id@ != rooms[rooms.len() - 1].id@);
            }
        }
    } else {
        assert(id_used(init, id)) by {
            let k = choose|k: int| 0 <= k < rooms.len() && #[trigger] rooms[k].id@ == id;
            assert(k != rooms.len() - 1);
            assert(init[k] == rooms[k]);
        }
        lemma_remove_present_id_len(init, id);
    }
}

impl Project {
    /// Suggests the next free port: the least port from 5009 up that no
    /// room uses.
    pub fn next_free_port(&self) -> (p: u16)
        requires
            exists|q: u16| q >= first_port() && !port_used(self.rooms@, q as int),
        ensures
            p >= first_port(),
            !port_used(self.rooms@, p as int),
            forall|q: int| first_port() <= q < p ==> port_used(self.rooms@, q),
    {
        let mut p: u16 = 5009;
        loop
            invariant
                p >= first_port(),
                forall|q: int| first_port() <= q < p ==> port_used(self.rooms@, q),
                exists|q: u16| q >= first_port() && !port_used(self.rooms@, q as int),
            decreases 65535 - p,
        {
            if !self.port_taken_by_any(p) {
                return p;
            }
            if p == 65535 {
                proof {
                    let q = choose|q: u16| q >= first_port() && !port_used(self.rooms@, q as int);
                    assert(port_used(self.rooms@, q as int));
                }
            }
            p = p + 1;
        }
    }

    /// Whether some port from 5009 up is free, which [`Project::next_free_port`]
    /// needs.
    pub fn has_free_port(&self) -> (res: bool)
        ensures
            res == exists|q: u16| q >= first_port() && !port_used(self.rooms@, q as int),
    {
        let mut p: u16 = 5009;
        loop
            invariant
                p >= first_port(),
                forall|q: u16| first_port() <= q < p ==> port_used(self.rooms@, q as int),
            decreases 65535 - p,
        {
            if !self.port_taken_by_any(p) {
                return true;
            }
            if p == 65535 {
                return false;
            }
            p = p + 1;
        }
    }

    fn port_taken_by_any(&self, port: u16) -> (res: bool)
        ensures
            res == port_used(self.rooms@, port as int),
    {
        let mut i: usize = 0;
        while i < self.rooms.len()
            invariant
                i <= self.rooms@.len(),
                forall|j: int| 0 <= j < i ==> self.rooms@[j].port != port,
            decreases self.rooms@.len() - i,
        {
            if self.rooms[i].port == port {
                return true;
            }
            i = i + 1;
        }
        false
    }

    /// Whether some room has the id `id`.
    pub fn has_id(&self, id: &str) -> (res: bool)
        ensures
            res == id_used(self.rooms@, id@),
    {
        let mut i: usize = 0;
        while i < self.rooms.len()
            invariant
                i <= self.rooms@.len(),
                forall|j: int| 0 <= j < i ==> self.rooms@[j].id@ != id@,
            decreases self.rooms@.len() - i,
        {
            if str_eq(self.rooms[i].id.as_str(), id) {
                return true;
            }
            i = i + 1;
        }
        false
    }

    /// Whether `port` is used by a room other than `except_id`.
    pub fn port_in_use(&self, port: u16, except_id: Option<&str>) -> (res: bool)
        ensures
            res == port_taken(self.rooms@, port as int, opt_view(except_id)),
    {
        let mut i: usize = 0;
        while i < self.rooms.len()
            invariant
                i <= self.rooms@.len(),
                forall|j: int| 0 <= j < i ==> !(#[trigger] self.rooms@[j].port == port && not_excepted(self.rooms@[j], opt_view(except_id))),
            decreases self.rooms@.len() - i,
        {
            let r = &self.rooms[i];
            if r.port == port && !is_excepted(r, except_id) {
                return true;
            }
            i = i + 1;
        }
        false
    }

    /// Whether `domain` is not empty and served by a room other than `except_id`.
    pub fn domain_in_use(&self, domain: &str, except_id: Option<&str>) -> (res: bool)
        ensures
            res == domain_taken(self.rooms@, domain@, opt_view(except_id)),
    {
        if domain.is_empty() {
            return false;
        }
        let mut i: usize = 0;
        while i < self.rooms.len()
            invariant
                i <= self.rooms@.len(),
                domain@.len() > 0,
                forall|j: int| 0 <= j < i ==> !(#[trigger] self.rooms@[j].domain@ == domain@ && not_excepted(self.rooms@[j], opt_view(except_id))),
            decreases self.rooms@.len() - i,
        {
            let r = &self.rooms[i];
            if str_eq(r.domain.as_str(), domain) && !is_excepted(r, except_id) {
                proof {
                    assert(self.rooms@[i as int].domain@ == domain@);
                    assert(not_excepted(self.rooms@[i as int], opt_view(except_id)));
                    assert(domain@.len() > 0);
                    assert(domain_taken(self.rooms@, domain@, opt_view(except_id)));
                }
                return true;
            }
            i = i + 1;
        }
        false
    }

    /// The rooms with a domain (those that go behind the reverse proxy), in order.
    pub fn tls_rooms(&self) -> (res: Vec<&RoomDef>)
        ensures
            res@.len() == tls_of(self.rooms@).len(),
            forall|k: int| 0 <= k < res@.len() ==> *#[trigger] res@[k] == tls_of(self.rooms@)[k],
    {
        let mut res: Vec<&RoomDef> = Vec::new();
        let mut i: usize = 0;
        while i < self.rooms.len()
            invariant
                i <= self.rooms@.len(),
                res@.len() == tls_of(self.rooms@.take(i as int)).len(),
                forall|k: int| 0 <= k < res@.len() ==> *#[trigger] res@[k] == tls_of(self.rooms@.take(i as int))[k],
            decreases self.rooms@.len() - i,
        {
            proof {
                assert(self.rooms@.take(i + 1).drop_last() =~= self.rooms@.take(i as int));
            }
            let r = &self.rooms[i];
            if !r.domain.as_str().is_empty() {
                res.push(r);
            }
            i = i + 1;
        }
        proof {
            assert(self.rooms@.take(self.rooms@.len() as int) =~= self.rooms@);
        }
        res
    }

    /// Inserts `room`, or replaces the first room with the same id.
    pub fn upsert(&mut self, room: RoomDef)
        ensures
            final(self).image == old(self).image,
            final(self).rooms@ == upserted(old(self).rooms@, room),
    {
        let ghost old_rooms = self.rooms@;
        let mut i: usize = 0;
        while i < self.rooms.len()
            invariant
                i <= self.rooms@.len(),
                self.rooms@ == old_rooms,
                old_rooms == old(self).rooms@,
                self.image == old(self).image,
                forall|j: int| 0 <= j < i ==> #[trigger] self.rooms@[j].id@ != room.id@,
            decreases self.rooms@.len() - i,
        {
            if str_eq(self.rooms[i].id.as_str(), room.id.as_str()) {
                proof {
                    assert(first_with_id(old_rooms, room.id@, i as int));
                    assert(id_used(old_rooms, room.id@));
                    lemma_first_with_id_exists(old_rooms, room.id@);
                    let c = choose|k: int| first_with_id(old_rooms, room.id@, k);
                    lemma_first_with_id_unique(old_rooms, room.id@, i as int, c);
                }
                self.rooms.set(i, room);
                return;
            }
            i = i + 1;
        }
        self.rooms.push(room);
    }

    /// Removes the rooms with id `id`; tells whether there was one.
    pub fn remove(&mut self, id: &str) -> (res: bool)
        ensures
            final(self).image == old(self).image,
            final(self).rooms@ == without_id(old(self).rooms@, id@),
            res == id_used(old(self).rooms@, id@),
    {
        let ghost old_rooms = self.rooms@;
        let mut kept: Vec<RoomDef> = Vec::new();
        let mut found = false;
        let mut i: usize = 0;
        while i < self.rooms.len()
            invariant
                i <= self.rooms@.len(),
                self.rooms@ == old_rooms,
                kept@ == without_id(old_rooms.take(i as int), id@),
                found == id_used(old_rooms.take(i as int), id@),
            decreases self.rooms@.len() - i,
        {
            proof {
                let t = old_rooms.take(i + 1);
                assert(t.drop_last() =~= old_rooms.take(i as int));
                if id_used(old_rooms.take(i as int), id@) {
                    let k = choose|k: int| 0 <= k < i && #[trigger] old_rooms.take(i as int)[k].id@ == id@;
                    assert(t[k] == old_rooms.take(i as int)[k]);
                }
                if id_used(t, id@) && t.last().id@ != id@ {
                    let k = choose|k: int| 0 <= k < i + 1 && #[trigger] t[k].id@ == id@;
                    assert(t.drop_last()[k] == t[k]);
                }
            }
            let r = self.rooms[i].clone();
            if str_eq(r.id.as_str(), id) {
                found = true;
            } else {
                kept.push(r);
            }
            i = i + 1;
        }
        proof {
            assert(old_rooms.take(old_rooms.len() as int) =~= old_rooms);
        }
        self.rooms = kept;
        found
    }
}

/// The view of an optional string slice.
pub open spec fn opt_view(o: Option<&str>) -> Option<Seq<char>> {
    match o {
        Some(s) => Some(s@),
        None => None,
    }
}

fn is_excepted(r: &RoomDef, except_id: Option<&str>) -> (res: bool)
    ensures
        res == !not_excepted(*r, opt_view(except_id)),
{
    match except_id {
        Some(e) => str_eq(r.id.as_str(), e),
        None => false,
    }
}

} // verus!
