use astra_creator::model::{Project, RoomDef};
use astra_creator::slug::slugify;

#[test]
fn slugify_basic() {
    assert_eq!(slugify("Mi Sala Cool!"), "mi-sala-cool");
    assert_eq!(slugify("  Español ñ  "), "espa-ol");
    assert_eq!(slugify("///"), "sala");
    assert_eq!(slugify("A_B-C"), "a-b-c");
}

#[test]
fn next_free_port_skips_used() {
    let mut p = Project::default();
    p.rooms.push(RoomDef::new("a", 5009));
    p.rooms.push(RoomDef::new("b", 5010));
    assert_eq!(p.next_free_port(), 5011);
}

#[test]
fn upsert_and_remove() {
    let mut p = Project::default();
    p.upsert(RoomDef::new("room1", 5009));
    assert!(p.has_id("room1"));
    assert_eq!(p.rooms.len(), 1);
    // upsert with the same id replaces
    let mut r = RoomDef::new("room1", 5009);
    r.room_name = "Cambiada".into();
    p.upsert(r);
    assert_eq!(p.rooms.len(), 1);
    assert_eq!(p.rooms[0].room_name, "Cambiada");
    assert!(p.remove("room1"));
    assert!(!p.remove("room1"));
}

#[test]
fn port_conflict_detection() {
    let mut p = Project::default();
    p.upsert(RoomDef::new("a", 5009));
    assert!(p.port_in_use(5009, None));
    assert!(!p.port_in_use(5009, Some("a"))); // the room itself does not count
    assert!(!p.port_in_use(6000, None));
}

#[test]
fn slugify_is_idempotent_on_examples() {
    for s in ["Mi Sala Cool!", "  Español ñ  ", "///", "A_B-C", "--x--y--", "ÀÉ 12 ab"] {
        let once = slugify(s);
        assert_eq!(slugify(&once), once);
        assert!(!once.is_empty());
        assert!(!once.starts_with('-') && !once.ends_with('-'));
        assert!(!once.contains("--"));
    }
}

#[test]
fn slugify_drops_surrounding_whitespace_and_symbols() {
    assert_eq!(slugify("\t Hola Mundo \n"), "hola-mundo");
    assert_eq!(slugify("¡¡Sala 7!!"), "sala-7");
    assert_eq!(slugify(""), "sala");
}

#[test]
fn new_room_defaults() {
    let r = RoomDef::new("Mi Sala", 6000);
    assert_eq!(r.id, "mi-sala");
    assert_eq!(r.room_name, "Sala mi-sala");
    assert_eq!(r.bot_name, "Astra");
    assert_eq!(r.owner_password, "");
    assert_eq!(r.port, 6000);
    assert_eq!(r.topic, "Bienvenidos");
    assert!(r.allow_registration && r.roomsearch);
    assert_eq!(r.domain, "");
    assert_eq!(r.service_name(), "astra-mi-sala");
}

#[test]
fn default_project_image() {
    let p = Project::default();
    assert_eq!(p.image, "ghcr.io/bsjaramillo/astra:latest");
    assert!(p.rooms.is_empty());
}

#[test]
fn next_free_port_fills_gaps() {
    let mut p = Project::default();
    assert_eq!(p.next_free_port(), 5009);
    p.rooms.push(RoomDef::new("a", 5009));
    p.rooms.push(RoomDef::new("b", 5011));
    assert_eq!(p.next_free_port(), 5010);
    assert!(p.has_free_port());
}

#[test]
fn upsert_new_then_remove_restores() {
    let mut p = Project::default();
    p.upsert(RoomDef::new("a", 5009));
    p.upsert(RoomDef::new("b", 5010));
    p.upsert(RoomDef::new("c", 5011));
    assert_eq!(p.rooms.len(), 3);
    assert!(p.remove("c"));
    let ids: Vec<&str> = p.rooms.iter().map(|r| r.id.as_str()).collect();
    assert_eq!(ids, vec!["a", "b"]);
    assert!(!p.has_id("c"));
}

#[test]
fn remove_keeps_order_of_others() {
    let mut p = Project::default();
    for (id, port) in [("a", 5009), ("b", 5010), ("c", 5011)] {
        p.upsert(RoomDef::new(id, port));
    }
    assert!(p.remove("b"));
    let ids: Vec<&str> = p.rooms.iter().map(|r| r.id.as_str()).collect();
    assert_eq!(ids, vec!["a", "c"]);
}

#[test]
fn domain_conflicts() {
    let mut p = Project::default();
    let mut r = RoomDef::new("a", 5009);
    r.domain = "chat.example.com".into();
    p.upsert(r);
    assert!(p.domain_in_use("chat.example.com", None));
    assert!(!p.domain_in_use("chat.example.com", Some("a")));
    assert!(!p.domain_in_use("", None));
    assert!(!p.domain_in_use("otra.example.com", None));
    let tls = p.tls_rooms();
    assert_eq!(tls.len(), 1);
    assert_eq!(tls[0].id, "a");
}
