use astra_creator::generate::{astra_toml, caddyfile, compose_yaml, host_id, needs_caddyfile, toml_str};
use astra_creator::model::{Project, RoomDef};
use astra_creator::reconcile::{reconcile_astra_toml, room_toml_text, sync_room_from_toml, sync_rooms_from_texts};
use toml_edit::DocumentMut;

/// An `astra.toml` as it is after the operator used the `/admin` panel: with
/// sections this tool does not model, changed values in those it does, and
/// comments of its own.
const PANEL_EDITED: &str = r#"# Generado por astra-creator — sala 'uno'
port = 5009
bot_name = "BotDelPanel"
room_name = "Nombre Cambiado En El Panel"
room_topic = "topic del panel"
owner_password = "pw-cambiada-en-panel"
allow_registration = false
roomsearch = false
language = 3
web_enabled = true
web_port = 5009
data_dir = "/app/data"
# Comentario escrito a mano por el operador.
link_hub_enabled = true
guid = "guid-personalizado-del-panel"
seed_url = ""
update_check = false

[security]
max_new_connections_per_ip = 99
captcha_enabled = true

[[link_trusted_leaves]]
name = "otra-sala"
guid = "guid-del-leaf"
"#;

#[test]
fn reconcile_preserves_everything_the_panel_owns() {
    let room = RoomDef::new("uno", 5009);
    let out = reconcile_astra_toml(PANEL_EDITED, &room).unwrap();
    assert!(out.contains("language = 3"), "{out}");
    assert!(out.contains("link_hub_enabled = true"), "{out}");
    assert!(out.contains("guid = \"guid-personalizado-del-panel\""), "{out}");
    assert!(out.contains("update_check = false"), "{out}");
    assert!(out.contains("max_new_connections_per_ip = 99"), "{out}");
    assert!(out.contains("captcha_enabled = true"), "{out}");
    assert!(out.contains("[[link_trusted_leaves]]"), "{out}");
    assert!(out.contains("guid = \"guid-del-leaf\""), "{out}");
    assert!(out.contains("# Comentario escrito a mano por el operador."), "{out}");
    out.parse::<DocumentMut>().expect("el resultado debe ser TOML válido");
}

#[test]
fn reconcile_always_wins_on_orchestration_fields() {
    let doctored = PANEL_EDITED
        .replace("port = 5009", "port = 9999")
        .replace("data_dir = \"/app/data\"", "data_dir = \"/otro/lado\"");
    let room = RoomDef::new("uno", 5009);
    let out = reconcile_astra_toml(&doctored, &room).unwrap();
    let doc: DocumentMut = out.parse().unwrap();
    assert_eq!(doc["port"].as_integer(), Some(5009));
    assert_eq!(doc["web_port"].as_integer(), Some(5009));
    assert_eq!(doc["data_dir"].as_str(), Some("/app/data"));
}

#[test]
fn reconcile_applies_tui_edits_to_room_fields() {
    let mut room = RoomDef::new("uno", 5009);
    room.room_name = "Nombre Nuevo Desde La TUI".to_string();
    room.owner_password = "pw-de-la-tui".to_string();
    let out = reconcile_astra_toml(PANEL_EDITED, &room).unwrap();
    assert!(out.contains("room_name = \"Nombre Nuevo Desde La TUI\""), "{out}");
    assert!(out.contains("owner_password = \"pw-de-la-tui\""), "{out}");
}

#[test]
fn reconcile_rejects_corrupt_toml_instead_of_clobbering() {
    let room = RoomDef::new("uno", 5009);
    let err = reconcile_astra_toml("esto no { es toml", &room).unwrap_err();
    assert!(err.message().contains("no es TOML válido"), "{}", err.message());
}

#[test]
fn sync_reads_panel_values_back_into_the_room() {
    let mut room = RoomDef::new("uno", 5009);
    room.port = 5009;
    sync_room_from_toml(&mut room, PANEL_EDITED);
    assert_eq!(room.room_name, "Nombre Cambiado En El Panel");
    assert_eq!(room.bot_name, "BotDelPanel");
    assert_eq!(room.topic, "topic del panel");
    assert_eq!(room.owner_password, "pw-cambiada-en-panel");
    assert!(!room.allow_registration);
    assert!(!room.roomsearch);
    // The port is never read back: it belongs to the orchestration.
    assert_eq!(room.port, 5009);
}

#[test]
fn sync_on_corrupt_toml_leaves_the_room_untouched() {
    let mut room = RoomDef::new("uno", 5009);
    let before = room.room_name.clone();
    sync_room_from_toml(&mut room, "roto { {");
    assert_eq!(room.room_name, before);
}

/// The whole cycle, with the files held in memory: new room → scaffold; the
/// panel edits → regenerating does not clobber it; the operator edits in the
/// interface → that edit is applied.
#[test]
fn full_roundtrip_panel_and_tui_coexist() {
    let mut p = Project::default();
    p.rooms.push(RoomDef::new("uno", 5009));

    // 1) First generation: full scaffold.
    let file = room_toml_text(None, &p.rooms[0]).unwrap();
    assert!(file.contains("room_name = \"Sala uno\""));

    // 2) The panel edits the file.
    let panel = file + "\nupdate_check = false\n[security]\nmax_concurrent_per_ip = 42\n";
    let panel = panel.replace(
        &format!("room_name = \"{}\"", p.rooms[0].room_name),
        "room_name = \"Renombrada Por El Panel\"",
    );

    // 3) Regenerating reads the file back first, and preserves it.
    sync_rooms_from_texts(&mut p, &vec![Some(panel.clone())], None);
    let after = room_toml_text(Some(&panel), &p.rooms[0]).unwrap();
    assert!(after.contains("max_concurrent_per_ip = 42"), "{after}");
    assert!(after.contains("update_check = false"), "{after}");
    assert!(after.contains("Renombrada Por El Panel"), "{after}");
    assert_eq!(p.rooms[0].room_name, "Renombrada Por El Panel");

    // 4) The operator renames in the interface: that wins.
    p.rooms[0].room_name = "Renombrada Por La TUI".to_string();
    let after2 = room_toml_text(Some(&after), &p.rooms[0]).unwrap();
    assert!(after2.contains("Renombrada Por La TUI"), "{after2}");
    assert!(after2.contains("max_concurrent_per_ip = 42"), "{after2}");
}

/// The interface's path: the room being saved keeps its edit, the others are
/// refreshed from their files.
#[test]
fn keep_lets_the_tui_edit_win_over_disk() {
    let mut p = Project::default();
    p.rooms.push(RoomDef::new("uno", 5009));
    p.rooms.push(RoomDef::new("dos", 5010));
    let mut files: Vec<String> = p.rooms.iter().map(|r| astra_toml(r)).collect();
    for (i, id) in ["uno", "dos"].iter().enumerate() {
        files[i] = files[i].replace(
            &format!("room_name = \"Sala {id}\""),
            &format!("room_name = \"Panel {id}\""),
        );
    }
    p.rooms[0].room_name = "TUI uno".to_string();
    let texts: Vec<Option<String>> = files.iter().cloned().map(Some).collect();
    sync_rooms_from_texts(&mut p, &texts, Some("uno"));
    let uno = room_toml_text(Some(&files[0]), &p.rooms[0]).unwrap();
    assert!(uno.contains("room_name = \"TUI uno\""), "{uno}");
    let dos = room_toml_text(Some(&files[1]), &p.rooms[1]).unwrap();
    assert!(dos.contains("room_name = \"Panel dos\""), "{dos}");
}

#[test]
fn compose_user_uses_provided_uid_gid() {
    let mut p = Project::default();
    p.rooms.push(RoomDef::new("sala", 5009));
    let y = compose_yaml(&p, "1007", "1007");
    assert!(y.contains("user: \"${PUID:-1007}:${PGID:-1007}\""), "compose:\n{}", y);
}

#[test]
fn astra_toml_has_required_fields() {
    let r = RoomDef::new("mi-sala", 5009);
    let t = astra_toml(&r);
    for field in [
        "port =",
        "bot_name =",
        "room_name =",
        "owner_password =",
        "roomsearch =",
        "guid =",
        "data_dir =",
    ] {
        assert!(t.contains(field), "falta {} en:\n{}", field, t);
    }
    assert!(t.contains("port = 5009"));
}

#[test]
fn scaffold_guid_is_the_placeholder_not_the_room_id() {
    let t = astra_toml(&RoomDef::new("mi-sala", 5009));
    assert!(t.contains("guid = \"astra-default-guid\""), "{t}");
    assert!(!t.contains("astra-mi-sala-guid"), "{t}");
}

#[test]
fn astra_toml_escapes_values() {
    let mut r = RoomDef::new("x", 5009);
    r.room_name = "Sala \"con comillas\"".into();
    let t = astra_toml(&r);
    assert!(t.contains("\\\"con comillas\\\""));
}

#[test]
fn compose_has_service_per_room() {
    let mut p = Project::default();
    p.rooms.push(RoomDef::new("uno", 5009));
    p.rooms.push(RoomDef::new("dos", 5010));
    let y = compose_yaml(&p, "1000", "1000");
    assert!(y.contains("astra-uno:"));
    assert!(y.contains("astra-dos:"));
    assert!(y.contains("\"5009:5009\""));
    assert!(y.contains("\"5010:5010/udp\""));
    assert!(y.contains("- ./rooms/uno/data:/app/data"));
    assert!(y.contains("- ./rooms/dos/data:/app/data"));
    assert!(y.contains("user: \"${PUID:-1000}:${PGID:-1000}\""));
}

#[test]
fn compose_mounts_config_writable() {
    let mut p = Project::default();
    p.rooms.push(RoomDef::new("uno", 5009));
    let y = compose_yaml(&p, "1000", "1000");
    assert!(y.contains("- ./rooms/uno/astra.toml:/app/astra.toml\n"));
    assert!(!y.contains("astra.toml:/app/astra.toml:ro"));
}

#[test]
fn compose_command_has_no_binary_path() {
    let mut p = Project::default();
    p.rooms.push(RoomDef::new("x", 5009));
    let y = compose_yaml(&p, "1000", "1000");
    assert!(y.contains("command: [\"--config\", \"/app/astra.toml\", \"--port\", \"5009\"]"));
    assert!(!y.contains("command: [\"/app/astra\""));
}

#[test]
fn empty_project_compose_has_no_volumes_section() {
    let p = Project::default();
    let y = compose_yaml(&p, "1000", "1000");
    assert!(!y.contains("\nvolumes:"));
}

#[test]
fn compose_without_domains_has_no_caddy() {
    let mut p = Project::default();
    p.rooms.push(RoomDef::new("sala", 5009));
    let y = compose_yaml(&p, "1000", "1000");
    assert!(!y.contains("caddy"));
}

#[test]
fn compose_with_domain_includes_caddy_service() {
    let mut p = Project::default();
    let mut r = RoomDef::new("sala", 5009);
    r.domain = "chat.example.com".into();
    p.rooms.push(r);
    p.rooms.push(RoomDef::new("otra", 5010));
    let y = compose_yaml(&p, "1000", "1000");
    assert!(y.contains("  caddy:"));
    assert!(y.contains("\"80:80\""));
    assert!(y.contains("\"443:443\""));
    assert!(y.contains("- ./Caddyfile:/etc/caddy/Caddyfile:ro"));
    assert!(y.contains("      - astra-sala\n"));
    assert!(!y.contains("      - astra-otra\n"));
    assert!(y.contains("volumes:\n  caddy-data:\n  caddy-config:"));
}

#[test]
fn caddyfile_has_block_per_domain() {
    let mut p = Project::default();
    let mut a = RoomDef::new("a", 5009);
    a.domain = "chat.example.com".into();
    let mut b = RoomDef::new("b", 5010);
    b.domain = "otra.example.com".into();
    p.rooms.push(a);
    p.rooms.push(b);
    p.rooms.push(RoomDef::new("c", 5011));
    let c = caddyfile(&p);
    assert!(c.contains("chat.example.com {"));
    assert!(c.contains("reverse_proxy astra-a:5009"));
    assert!(c.contains("otra.example.com {"));
    assert!(c.contains("reverse_proxy astra-b:5010"));
    assert!(!c.contains("reverse_proxy astra-c:"));
}

#[test]
fn astra_toml_exact_scaffold() {
    let mut r = RoomDef::new("uno", 5009);
    r.owner_password = "s3cr3t".into();
    r.allow_registration = false;
    let t = astra_toml(&r);
    let expected = "# Generado por astra-creator — sala 'uno'\n\
port = 5009\n\
bot_name = \"Astra\"\n\
room_name = \"Sala uno\"\n\
room_topic = \"Bienvenidos\"\n\
owner_password = \"s3cr3t\"\n\
allow_registration = false\n\
roomsearch = true\n\
language = 0\n\
web_enabled = true\n\
web_port = 5009\n\
data_dir = \"/app/data\"\n\
# El link (multi-servidor) entra multiplexado por el puerto principal\n\
# (`port`); no usa un puerto propio. Para enlazar otro servidor a esta\n\
# sala como hub: `--link-client <host>:5009`.\n\
link_hub_enabled = false\n\
# Lo reemplaza el servidor por un secreto aleatorio al primer arranque.\n\
guid = \"astra-default-guid\"\n";
    assert_eq!(t, expected);
    // The scaffold is valid TOML.
    t.parse::<DocumentMut>().unwrap();
}

#[test]
fn toml_str_escapes_quotes_backslashes_and_controls() {
    assert_eq!(toml_str("a\"b\\c\nd\te"), "\"a\\\"b\\\\c\\nd\\te\"");
    assert_eq!(toml_str(""), "\"\"");
    assert_eq!(toml_str("a\rb"), "\"a\\rb\"");
    assert_eq!(toml_str("\u{8}\u{c}"), "\"\\b\\f\"");
    assert_eq!(toml_str("x\u{1}y\u{1f}\u{7f}"), "\"x\\u0001y\\u001F\\u007F\"");
    assert_eq!(toml_str("ñ é"), "\"ñ é\"");
}

#[test]
fn toml_str_reads_back_through_toml_edit() {
    let inputs = ["plain", "q\"uote", "back\\slash", "cr\rlf\n", "nul\u{0}esc\u{1b}del\u{7f}", "tab\tbell\u{7}", "ünïcødé ✓"];
    for s in inputs {
        let text = format!("v = {}\n", toml_str(s));
        let doc: DocumentMut = text.parse().unwrap();
        assert_eq!(doc["v"].as_str(), Some(s));
    }
}

#[test]
fn scaffold_with_control_characters_is_valid_toml() {
    let mut r = RoomDef::new("uno", 5009);
    r.room_name = "linea\rrota".to_string();
    r.topic = "bell\u{7}".to_string();
    let t = astra_toml(&r);
    let doc: DocumentMut = t.parse().unwrap();
    assert_eq!(doc["room_name"].as_str(), Some("linea\rrota"));
    assert_eq!(doc["room_topic"].as_str(), Some("bell\u{7}"));
}

#[test]
fn compose_exact_single_room() {
    let mut p = Project::default();
    p.image = "astra:local".into();
    p.rooms.push(RoomDef::new("uno", 5009));
    let y = compose_yaml(&p, "1000", "1001");
    let expected = [
        "# Generado por astra-creator. No editar a mano: usa la TUI.\n",
        "services:\n",
        "  astra-uno:\n",
        "    image: astra:local\n",
        "    container_name: astra-uno\n",
        "    restart: unless-stopped\n",
        "    user: \"${PUID:-1000}:${PGID:-1001}\"\n",
        "    ports:\n",
        "      - \"5009:5009\"\n",
        "      - \"5009:5009/udp\"\n",
        "    volumes:\n",
        "      - ./rooms/uno/astra.toml:/app/astra.toml\n",
        "      - ./rooms/uno/data:/app/data\n",
        "    command: [\"--config\", \"/app/astra.toml\", \"--port\", \"5009\"]\n",
        "    environment:\n",
        "      RUST_LOG: info\n",
    ]
    .concat();
    assert_eq!(y, expected);
}

#[test]
fn caddyfile_exact_and_needs() {
    let mut p = Project::default();
    p.rooms.push(RoomDef::new("b", 5010));
    assert!(!needs_caddyfile(&p));
    let mut a = RoomDef::new("a", 5009);
    a.domain = "chat.example.com".into();
    p.rooms.push(a);
    assert!(needs_caddyfile(&p));
    let c = caddyfile(&p);
    assert_eq!(
        c,
        "# Generado por astra-creator. No editar a mano: usa la TUI.\n\
# El DNS de cada dominio debe apuntar a este servidor (puertos 80/443).\n\
\nchat.example.com {\n\treverse_proxy astra-a:5009\n\tencode gzip\n}\n"
    );
}

#[test]
fn reconcile_then_sync_reads_back_the_room() {
    let mut room = RoomDef::new("uno", 5009);
    room.room_name = "Otro Nombre".into();
    room.bot_name = "Bot".into();
    room.topic = "tema".into();
    room.owner_password = "pw".into();
    room.allow_registration = false;
    room.roomsearch = true;
    let out = reconcile_astra_toml(PANEL_EDITED, &room).unwrap();
    let mut back = RoomDef::new("dos", 6000);
    sync_room_from_toml(&mut back, &out);
    assert_eq!(back.room_name, "Otro Nombre");
    assert_eq!(back.bot_name, "Bot");
    assert_eq!(back.topic, "tema");
    assert_eq!(back.owner_password, "pw");
    assert!(!back.allow_registration);
    assert!(back.roomsearch);
    assert_eq!(back.id, "dos");
    assert_eq!(back.port, 6000);
    // Reconciling again changes nothing.
    let again = reconcile_astra_toml(&out, &room).unwrap();
    let a: DocumentMut = again.parse().unwrap();
    let b: DocumentMut = out.parse().unwrap();
    assert_eq!(a.to_string(), b.to_string());
}

#[test]
fn room_toml_text_scaffolds_new_rooms() {
    let r = RoomDef::new("nueva", 5012);
    assert_eq!(room_toml_text(None, &r).unwrap(), astra_toml(&r));
    assert!(room_toml_text(Some("x = {"), &r).is_err());
}

#[test]
fn reconciling_its_own_output_again_changes_nothing() {
    let room = RoomDef::new("uno", 5009);
    let once = reconcile_astra_toml(PANEL_EDITED, &room).unwrap();
    let twice = reconcile_astra_toml(&once, &room).unwrap();
    assert_eq!(once, twice);
    let scaffold = astra_toml(&room);
    let again = reconcile_astra_toml(&scaffold, &room).unwrap();
    assert_eq!(reconcile_astra_toml(&again, &room).unwrap(), again);
}

#[test]
fn reconcile_keeps_nested_tables_and_arrays_whole() {
    let room = RoomDef::new("uno", 5009);
    let before: DocumentMut = PANEL_EDITED.parse().unwrap();
    let out: DocumentMut = reconcile_astra_toml(PANEL_EDITED, &room).unwrap().parse().unwrap();
    for key in ["security", "link_trusted_leaves", "language", "guid", "update_check"] {
        assert_eq!(
            out.get(key).map(|i| i.to_string()),
            before.get(key).map(|i| i.to_string()),
            "{key}"
        );
    }
}

#[test]
fn reconcile_keeps_the_operators_comments() {
    let text = "# cabecera\nport = 1 # se pierde con el valor viejo\n# encima de room_name\nroom_name = \"x\"\nlanguage = 3 # idioma del panel\n\n# antes de security\n[security] # en la cabecera\n# dentro de security\ncaptcha_enabled = true # captcha\n# al final\n";
    let room = RoomDef::new("uno", 5009);
    let out = reconcile_astra_toml(text, &room).unwrap();
    for kept in [
        "# cabecera",
        "# encima de room_name",
        "# idioma del panel",
        "# antes de security",
        "# en la cabecera",
        "# dentro de security",
        "# captcha",
        "# al final",
    ] {
        assert!(out.contains(kept), "{kept} in {out}");
    }
    assert!(!out.contains("se pierde"), "{out}");
    let pos = |t: &str| out.find(t).unwrap();
    assert!(pos("# cabecera") < pos("# encima de room_name"));
    assert!(pos("# antes de security") < pos("# dentro de security"));
    assert!(pos("# dentro de security") < pos("# al final"));
}

#[test]
fn host_id_takes_digits_or_falls_back() {
    assert_eq!(host_id(true, "1007\n"), "1007");
    assert_eq!(host_id(true, "  42 "), "42");
    assert_eq!(host_id(false, "1007\n"), "1000");
    assert_eq!(host_id(true, ""), "1000");
    assert_eq!(host_id(true, "12a"), "1000");
    assert_eq!(host_id(true, "１２"), "1000");
}

#[test]
fn state_file_name_is_fixed() {
    assert_eq!(Project::state_file_name(), "astra-creator.json");
}
