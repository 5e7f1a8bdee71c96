use astra_creator::model::{Project, RoomDef};
use astra_creator::tui::{combine_errors, AfterGenerate, App, BusyOp, Effect, Field, FormBuf, Job, Key, Screen, FIELD_COUNT};

fn app_with(ids: &[(&str, u16)]) -> App {
    let mut p = Project::default();
    for (id, port) in ids {
        p.rooms.push(RoomDef::new(id, *port));
    }
    App::new(p, true)
}

fn type_text(app: &mut App, text: &str) {
    for c in text.chars() {
        app.handle_key(Key::Char(c));
    }
}

fn edit(app: &mut App) {
    let eff = app.handle_key(Key::Char('e'));
    assert!(matches!(eff, Effect::ReadConfigs));
    let texts: Vec<Option<String>> = vec![None; app.project.rooms.len()];
    app.configs_read(&texts);
}

fn clear_field(app: &mut App) {
    for _ in 0..64 {
        app.handle_key(Key::Backspace);
    }
}

#[test]
fn labels_and_toggles() {
    assert_eq!(BusyOp::Start("uno".into()).label(), "Iniciando 'uno'…");
    assert_eq!(BusyOp::Destroy("uno".into()).success(), "✓ Sala 'uno' eliminada: contenedor, volumen y datos.");
    assert_eq!(BusyOp::UpdateAll.label(), "Actualizando todas las salas (pull + recreate)…");
    assert_eq!(Field::at(6).label(), "Dominio HTTPS (opcional)");
    assert!(Field::AllowRegistration.is_toggle());
    assert!(!Field::Port.is_toggle());
    assert_eq!(FIELD_COUNT, 9);
}

#[test]
fn list_navigation_wraps() {
    let mut app = app_with(&[("a", 5009), ("b", 5010), ("c", 5011)]);
    app.handle_key(Key::Up);
    assert_eq!(app.selected, 2);
    app.handle_key(Key::Down);
    assert_eq!(app.selected, 0);
    app.handle_key(Key::Char('j'));
    assert_eq!(app.selected, 1);
    assert_eq!(app.selected_room().unwrap().id, "b");
}

#[test]
fn add_room_through_the_form() {
    let mut app = app_with(&[("a", 5009)]);
    assert!(matches!(app.handle_key(Key::Char('a')), Effect::Nothing));
    assert!(app.screen == Screen::Form);
    let f = app.form.as_ref().unwrap();
    assert_eq!(f.port, "5010");
    assert_eq!(f.id, "nueva-sala");
    // Domain field: move to it, type it with scheme and trailing slash.
    for _ in 0..6 {
        app.handle_key(Key::Tab);
    }
    type_text(&mut app, " https://Chat.Example.com/ ");
    let eff = app.handle_key(Key::Enter);
    match eff {
        Effect::Generate(AfterGenerate::RoomSaved(id)) => assert_eq!(id, "nueva-sala"),
        _ => panic!("expected a save"),
    }
    assert!(app.form.is_none());
    assert!(app.screen == Screen::List);
    assert_eq!(app.project.rooms.len(), 2);
    assert_eq!(app.project.rooms[1].domain, "chat.example.com");
    assert_eq!(app.project.rooms[1].port, 5010);
    app.generated(AfterGenerate::RoomSaved("nueva-sala".into()), Ok(()));
    assert_eq!(app.message, "✓ Sala 'nueva-sala' guardada y archivos regenerados.");
}

#[test]
fn form_reports_each_failed_check() {
    let mut app = app_with(&[("a", 5009)]);
    app.handle_key(Key::Char('a'));
    // Port field.
    for _ in 0..4 {
        app.handle_key(Key::Tab);
    }
    clear_field(&mut app);
    type_text(&mut app, "80");
    app.handle_key(Key::Enter);
    assert_eq!(app.form.as_ref().unwrap().error.as_deref(), Some("Puerto inválido (usa 1024–65535)."));
    clear_field(&mut app);
    type_text(&mut app, "5009");
    app.handle_key(Key::Enter);
    assert_eq!(
        app.form.as_ref().unwrap().error.as_deref(),
        Some("El puerto 5009 ya está en uso por otra sala.")
    );
    clear_field(&mut app);
    type_text(&mut app, " +6000 ");
    app.handle_key(Key::Tab);
    app.handle_key(Key::Tab);
    type_text(&mut app, "sin-punto");
    app.handle_key(Key::Enter);
    assert_eq!(
        app.form.as_ref().unwrap().error.as_deref(),
        Some("Dominio inválido (ej: chat.midominio.com).")
    );
    // Back to the id: an existing id is refused for a new room.
    for _ in 0..6 {
        app.handle_key(Key::BackTab);
    }
    assert_eq!(app.form.as_ref().unwrap().focus, 0);
    clear_field(&mut app);
    type_text(&mut app, "A");
    app.handle_key(Key::Enter);
    assert_eq!(app.form.as_ref().unwrap().error.as_deref(), Some("Ya existe una sala con id 'a'."));
    app.handle_key(Key::Esc);
    assert!(app.form.is_none());
    assert_eq!(app.project.rooms.len(), 1);
}

#[test]
fn editing_keeps_own_port_and_toggles() {
    let mut app = app_with(&[("a", 5009)]);
    edit(&mut app);
    let f: &FormBuf = app.form.as_ref().unwrap();
    assert!(f.editing_existing);
    assert_eq!(f.port, "5009");
    for _ in 0..7 {
        app.handle_key(Key::Down);
    }
    app.handle_key(Key::Char(' '));
    app.handle_key(Key::Enter);
    assert!(app.form.is_none());
    assert_eq!(app.project.rooms.len(), 1);
    assert!(!app.project.rooms[0].allow_registration);
}

#[test]
fn renaming_a_room_replaces_it() {
    let mut app = app_with(&[("a", 5009), ("b", 5010)]);
    edit(&mut app);
    clear_field(&mut app);
    type_text(&mut app, "Nuevo Id");
    app.handle_key(Key::Enter);
    let ids: Vec<&str> = app.project.rooms.iter().map(|r| r.id.as_str()).collect();
    assert_eq!(ids, vec!["b", "nuevo-id"]);
}

#[test]
fn delete_confirmation_removes_and_spawns() {
    let mut app = app_with(&[("a", 5009), ("b", 5010)]);
    app.handle_key(Key::Down);
    app.handle_key(Key::Char('d'));
    assert!(app.screen == Screen::ConfirmDelete);
    let eff = app.handle_key(Key::Char('y'));
    assert!(app.screen == Screen::List);
    assert_eq!(app.project.rooms.len(), 1);
    assert_eq!(app.selected, 0);
    let after = match eff {
        Effect::Generate(a) => a,
        _ => panic!("expected writing the files"),
    };
    match app.generated(after, Ok(())) {
        Effect::Spawn(Job::Destroy { service, id, docker_ok }) => {
            assert_eq!(service, "astra-b");
            assert_eq!(id, "b");
            assert!(docker_ok);
        },
        _ => panic!("expected the destroy job"),
    }
    assert_eq!(app.message, "Eliminando 'b' (contenedor + datos)…");
    assert!(app.busy.is_some());
    // While busy, another destroy is refused.
    app.handle_key(Key::Char('d'));
    app.handle_key(Key::Enter);
    assert_eq!(app.message, "✗ Hay una operación en curso; espera a que termine.");
    assert!(matches!(app.job_done(Ok(())), Effect::RefreshStatus));
    assert_eq!(app.message, "✓ Sala 'b' eliminada: contenedor, volumen y datos.");
    assert!(app.busy.is_none());
}

#[test]
fn deploy_needs_docker_and_reports_generation_errors() {
    let mut p = Project::default();
    p.rooms.push(RoomDef::new("a", 5009));
    let mut app = App::new(p, false);
    assert!(matches!(app.handle_key(Key::Char('D')), Effect::Nothing));
    assert_eq!(app.message, "✗ docker no disponible.");
    let mut app = app_with(&[("a", 5009)]);
    let after = match app.handle_key(Key::Char('D')) {
        Effect::Generate(a) => a,
        _ => panic!("expected writing the files"),
    };
    assert!(matches!(app.generated(after, Err("disco lleno".into())), Effect::Nothing));
    assert_eq!(app.message, "✗ Error generando: disco lleno");
    assert!(app.busy.is_none());
    let after = match app.handle_key(Key::Char('D')) {
        Effect::Generate(a) => a,
        _ => panic!("expected writing the files"),
    };
    assert!(matches!(app.generated(after, Ok(())), Effect::Spawn(Job::Deploy(None))));
    assert_eq!(app.message, "Desplegando todas las salas…");
    assert!(matches!(app.job_done(Err("falló".into())), Effect::RefreshStatus));
    assert_eq!(app.message, "✗ falló");
}

#[test]
fn image_edit_logs_and_help() {
    let mut app = app_with(&[("a", 5009)]);
    app.handle_key(Key::Char('i'));
    assert!(app.screen == Screen::EditImage);
    for _ in 0..64 {
        app.handle_key(Key::Backspace);
    }
    app.handle_key(Key::Enter);
    assert_eq!(app.message, "La imagen no puede estar vacía.");
    type_text(&mut app, "  astra:local ");
    assert!(matches!(app.handle_key(Key::Enter), Effect::Generate(AfterGenerate::ImageSaved)));
    assert_eq!(app.project.image, "astra:local");
    app.generated(AfterGenerate::ImageSaved, Ok(()));
    assert_eq!(app.message, "✓ Imagen actualizada: astra:local");

    match app.handle_key(Key::Char('l')) {
        Effect::FetchLogs(svc) => assert_eq!(svc, "astra-a"),
        _ => panic!("expected fetching logs"),
    }
    app.logs_fetched(Err("sin daemon".into()));
    assert_eq!(app.logs, "(sin logs: sin daemon)");
    assert!(app.screen == Screen::Logs);
    app.handle_key(Key::Char('q'));
    assert!(app.screen == Screen::List);
    app.handle_key(Key::Char('?'));
    assert!(app.screen == Screen::Help);
    app.handle_key(Key::Char('z'));
    assert!(app.screen == Screen::List);
    app.handle_key(Key::Char('q'));
    assert!(app.should_quit);
}

#[test]
fn update_all_without_rooms_and_spinner() {
    let mut app = app_with(&[]);
    assert!(matches!(app.handle_key(Key::Char('U')), Effect::Nothing));
    assert_eq!(app.message, "No hay salas para actualizar.");
    app.tick();
    assert_eq!(app.spinner_tick, 0);
    app.busy = Some(BusyOp::UpdateAll);
    app.spinner_tick = 255;
    app.tick();
    assert_eq!(app.spinner_tick, 0);
}

#[test]
fn state_of_and_errors() {
    let mut app = app_with(&[("a", 5009), ("b", 5010)]);
    app.status = astra_creator::docker::status("{\"Service\":\"astra-b\",\"State\":\"exited\"}");
    assert_eq!(app.state_of(&app.project.rooms[0].clone()), "—");
    assert_eq!(app.state_of(&app.project.rooms[1].clone()), "exited");
    assert!(combine_errors(&vec![]).is_ok());
    assert_eq!(combine_errors(&vec!["uno".into(), "dos".into()]), Err("uno · dos".to_string()));
}

#[test]
fn only_the_saved_room_is_kept_from_refreshing() {
    assert_eq!(AfterGenerate::RoomSaved("uno".to_string()).kept_room(), Some("uno"));
    assert_eq!(AfterGenerate::Deploy.kept_room(), None);
    assert_eq!(AfterGenerate::Report.kept_room(), None);
    assert_eq!(AfterGenerate::Start(RoomDef::new("dos", 5010)).kept_room(), None);
}

#[test]
fn editing_shows_what_the_panel_wrote() {
    let mut app = app_with(&[("a", 5009), ("b", 5010)]);
    app.handle_key(Key::Down);
    assert!(matches!(app.handle_key(Key::Char('e')), Effect::ReadConfigs));
    assert!(app.form.is_none());
    let panel = "room_name = \"Desde el panel\"\nowner_password = \"pw-panel\"\nport = 1\n".to_string();
    app.configs_read(&vec![Some("roto { {".to_string()), Some(panel)]);
    assert!(app.screen == Screen::Form);
    let f = app.form.as_ref().unwrap();
    assert_eq!(f.id, "b");
    assert_eq!(f.room_name, "Desde el panel");
    assert_eq!(f.owner_password, "pw-panel");
    assert_eq!(f.port, "5010");
    assert_eq!(app.project.rooms[0].room_name, "Sala a");
    assert_eq!(app.project.rooms[1].room_name, "Desde el panel");
}

#[test]
fn saving_an_unchanged_form_keeps_the_rooms() {
    let mut app = app_with(&[("a", 5009), ("b", 5010)]);
    app.project.rooms[1].domain = "chat.example.com".to_string();
    app.handle_key(Key::Down);
    edit(&mut app);
    let eff = app.handle_key(Key::Enter);
    assert!(matches!(eff, Effect::Generate(AfterGenerate::RoomSaved(ref id)) if id == "b"));
    assert!(app.form.is_none());
    assert!(app.screen == Screen::List);
    let ids: Vec<&str> = app.project.rooms.iter().map(|r| r.id.as_str()).collect();
    assert_eq!(ids, vec!["a", "b"]);
    assert_eq!(app.project.rooms[1].port, 5010);
    assert_eq!(app.project.rooms[1].domain, "chat.example.com");
    assert_eq!(app.project.rooms[1].room_name, "Sala b");
}

#[test]
fn field_labels_are_distinct_and_name_the_switches() {
    let labels: Vec<&str> = Field::ALL.iter().map(|f| f.label()).collect();
    for i in 0..labels.len() {
        for j in 0..labels.len() {
            if i != j {
                assert_ne!(labels[i], labels[j]);
            }
        }
    }
    for f in Field::ALL {
        assert_eq!(f.label().contains("space toggles"), f.is_toggle());
    }
    assert_eq!(Field::ALL.len(), FIELD_COUNT);
    for i in 0..FIELD_COUNT {
        assert!(Field::ALL[i] == Field::at(i));
    }
}
