use astra_creator::docker::{
    compose_outcome, compose_project_name, deploy, destroy_room, docker_outcome, logs, parse_status,
    remove_volume_call, status, status_args, stop, update, update_report,
};

#[test]
fn parse_status_from_compose_json() {
    let s = status(r#"{"Service":"astra-x","State":"running","Name":"astra-x"}"#);
    assert_eq!(s.len(), 1);
    assert_eq!(s[0].service, "astra-x");
    assert_eq!(s[0].state, "running");
}

#[test]
fn parse_status_falls_back_to_name_and_unknown() {
    let s = parse_status(None, Some("astra-y".into()), None).unwrap();
    assert_eq!(s.service, "astra-y");
    assert_eq!(s.state, "unknown");
    assert!(parse_status(None, None, Some("running".into())).is_none());
    let s = parse_status(Some("a".into()), Some("b".into()), Some("exited".into())).unwrap();
    assert_eq!(s.service, "a");
    assert_eq!(s.state, "exited");
}

#[test]
fn status_reads_lines_and_arrays() {
    let out = "\n{\"Service\":\"astra-a\",\"State\":\"running\"}\r\nnot json\n\n{\"Name\":\"astra-b\"}\n[1]\n";
    let s = status(out);
    assert_eq!(s.len(), 2);
    assert_eq!((s[0].service.as_str(), s[0].state.as_str()), ("astra-a", "running"));
    assert_eq!((s[1].service.as_str(), s[1].state.as_str()), ("astra-b", "unknown"));

    let arr = "  [{\"Service\":\"astra-a\",\"State\":\"exited\"}, {\"State\":\"x\"}, {\"Name\":\"astra-c\",\"State\":\"created\"}]  ";
    let s = status(arr);
    assert_eq!(s.len(), 2);
    assert_eq!(s[0].service, "astra-a");
    assert_eq!(s[0].state, "exited");
    assert_eq!(s[1].service, "astra-c");

    assert!(status("[not json").is_empty());
    assert!(status("").is_empty());
}

#[test]
fn compose_project_name_normalizes_basename() {
    assert_eq!(compose_project_name("Mi Proyecto.Astra"), "miproyectoastra");
    assert_eq!(compose_project_name("__-My_Dir-1"), "my_dir-1");
    assert_eq!(compose_project_name("..."), "");
}

#[test]
fn compose_arguments() {
    assert_eq!(deploy(None), vec!["up", "-d", "--remove-orphans"]);
    assert_eq!(deploy(Some("astra-a")), vec!["up", "-d", "astra-a"]);
    assert_eq!(stop(None), vec!["stop"]);
    assert_eq!(stop(Some("astra-a")), vec!["stop", "astra-a"]);
    assert_eq!(logs("astra-a", 200), vec!["logs", "--no-color", "--tail", "200", "astra-a"]);
    assert_eq!(status_args(), vec!["ps", "-a", "--format", "json"]);
    let (pull, up) = update(Some("astra-a"));
    assert_eq!(pull, vec!["pull", "astra-a"]);
    assert_eq!(up, vec!["up", "-d", "--force-recreate", "astra-a"]);
    let (pull, up) = update(None);
    assert_eq!(pull, vec!["pull"]);
    assert_eq!(up, vec!["up", "-d", "--force-recreate", "--remove-orphans"]);
}

#[test]
fn update_without_compose_file_errors() {
    // Without a compose file neither command can run: the recreate's failure
    // is the update's failure, whatever the pull did.
    let missing = "no hay docker-compose.yml (deploy primero)".to_string();
    assert_eq!(update_report(Err(missing.clone()), Err(missing.clone())), Err(missing));
}

#[test]
fn update_report_notes_a_skipped_pull() {
    let r = update_report(Err("sin registry".into()), Ok("recreado\n".into())).unwrap();
    assert_eq!(r, "(pull omitido — imagen local o registry inaccesible: sin registry)\nrecreado\n");
    let r = update_report(Ok("pulled\n".into()), Ok("up\n".into())).unwrap();
    assert_eq!(r, "pulled\nup\n");
}

#[test]
fn compose_outcome_quotes_trimmed_output() {
    assert_eq!(compose_outcome(true, "a", "b"), Ok("ab".to_string()));
    assert_eq!(
        compose_outcome(false, "  boom\n", "\n"),
        Err("docker compose falló: boom".to_string())
    );
}

#[test]
fn destroy_plan_and_tolerated_failures() {
    let plan = destroy_room("miproyecto", "astra-uno", "uno");
    assert_eq!(plan.container.args, vec!["rm", "-f", "astra-uno"]);
    assert_eq!(plan.container.tolerate, vec!["No such container", "not found"]);
    assert_eq!(plan.volumes, vec!["miproyecto_astra-uno-data", "astra-uno-data"]);

    let call = remove_volume_call("astra-uno-data");
    assert_eq!(call.args, vec!["volume", "rm", "astra-uno-data"]);
    // A resource that is already gone counts as removed, whatever the case.
    assert_eq!(
        docker_outcome(&call, false, "", "Error: NO SUCH VOLUME: astra-uno-data\n"),
        Ok("Error: NO SUCH VOLUME: astra-uno-data\n".to_string())
    );
    assert_eq!(
        docker_outcome(&call, false, "", " daemon down \n"),
        Err("docker volume rm astra-uno-data falló: daemon down".to_string())
    );
    assert_eq!(docker_outcome(&plan.container, true, "ok", ""), Ok("ok".to_string()));
}
