//! The decisions behind the container lifecycle: which `docker compose`
//! commands manage the rooms, how their outcome is judged, and which Docker
//! resources belong to a room. Running the commands is left to the caller.

use vstd::prelude::*;
use crate::json::{fields_view, json_string_fields, json_text_fields, opt_str_view, JsonFields, JsonFieldsView};
use vstd::string::StrSliceExecFns;
use crate::text::{
    contains_seq, decimal, is_ascii_alnum, push_char, push_decimal, push_str, str_contains, to_lowercase,
    trim, trimmed, unicode_lowercase,
};

verus! {

/// The state of one service (room) as `docker compose ps` reports it.
#[derive(Debug, Clone)]
pub struct ServiceStatus {
    /// Service name (for example `astra-misala`).
    pub service: String,
    /// State (`running`, `exited`, `created`, ...).
    pub state: String,
}

/// The characters of each string.
pub open spec fn views(v: Seq<String>) -> Seq<Seq<char>> {
    v.map_values(|s: String| s@)
}

fn push_arg(args: &mut Vec<String>, a: &str)
    ensures
        views(final(args)@) == views(old(args)@).push(a@),
{
    args.push(String::from_str(a));
    assert(views(args@) =~= views(old(args)@).push(a@));
}

fn args_of(parts: &[&str]) -> (res: Vec<String>)
    ensures
        views(res@) == parts@.map_values(|p: &str| p@),
{
    let mut res: Vec<String> = Vec::new();
    let mut i: usize = 0;
    while i < parts.len()
        invariant
            i <= parts@.len(),
            views(res@) == parts@.take(i as int).map_values(|p: &str| p@),
        decreases parts@.len() - i,
    {
        push_arg(&mut res, parts[i]);
        i = i + 1;
        proof {
            assert(views(res@) =~= parts@.take(i as int).map_values(|p: &str| p@));
        }
    }
    proof {
        assert(parts@.take(parts@.len() as int) =~= parts@);
    }
    res
}

/// The compose arguments that start every room (`up -d --remove-orphans`),
/// or one service (`up -d <service>`).
pub fn deploy(service: Option<&str>) -> (args: Vec<String>)
    ensures
        views(args@) == match service {
            Some(s) => seq!["up"@, "-d"@, s@],
            None => seq!["up"@, "-d"@, "--remove-orphans"@],
        },
{
    let r = match service {
        Some(s) => args_of(&["up", "-d", s]),
        None => args_of(&["up", "-d", "--remove-orphans"]),
    };
    proof {
        assert(views(r@) =~= match service {
            Some(s) => seq!["up"@, "-d"@, s@],
            None => seq!["up"@, "-d"@, "--remove-orphans"@],
        });
    }
    r
}

/// The compose arguments that stop one service, or every service.
pub fn stop(service: Option<&str>) -> (args: Vec<String>)
    ensures
        views(args@) == match service {
            Some(s) => seq!["stop"@, s@],
            None => seq!["stop"@],
        },
{
    let r = match service {
        Some(s) => args_of(&["stop", s]),
        None => args_of(&["stop"]),
    };
    proof {
        assert(views(r@) =~= match service {
            Some(s) => seq!["stop"@, s@],
            None => seq!["stop"@],
        });
    }
    r
}

/// The compose arguments that fetch the last `tail` lines of a service's logs.
pub fn logs(service: &str, tail: u32) -> (args: Vec<String>)
    ensures
        views(args@) == seq!["logs"@, "--no-color"@, "--tail"@, decimal(tail as nat), service@],
{
    let mut args: Vec<String> = Vec::new();
    push_arg(&mut args, "logs");
    push_arg(&mut args, "--no-color");
    push_arg(&mut args, "--tail");
    let mut n = String::new();
    push_decimal(&mut n, tail);
    push_arg(&mut args, n.as_str());
    push_arg(&mut args, service);
    proof {
        assert(views(args@) =~= seq!["logs"@, "--no-color"@, "--tail"@, decimal(tail as nat), service@]);
    }
    args
}

/// The compose arguments that list every service's state as JSON.
pub fn status_args() -> (args: Vec<String>)
    ensures
        views(args@) == seq!["ps"@, "-a"@, "--format"@, "json"@],
{
    let r = args_of(&["ps", "-a", "--format", "json"]);
    proof {
        assert(views(r@) =~= seq!["ps"@, "-a"@, "--format"@, "json"@]);
    }
    r
}

/// The two compose commands of an update: pull the newest image, then
/// recreate the containers, for one service or for every one.
pub fn update(service: Option<&str>) -> (res: (Vec<String>, Vec<String>))
    ensures
        views(res.0@) == match service {
            Some(s) => seq!["pull"@, s@],
            None => seq!["pull"@],
        },
        views(res.1@) == match service {
            Some(s) => seq!["up"@, "-d"@, "--force-recreate"@, s@],
            None => seq!["up"@, "-d"@, "--force-recreate"@, "--remove-orphans"@],
        },
{
    let r = match service {
        Some(s) => (args_of(&["pull", s]), args_of(&["up", "-d", "--force-recreate", s])),
        None => (args_of(&["pull"]), args_of(&["up", "-d", "--force-recreate", "--remove-orphans"])),
    };
    proof {
        assert(views(r.0@) =~= match service {
            Some(s) => seq!["pull"@, s@],
            None => seq!["pull"@],
        });
        assert(views(r.1@) =~= match service {
            Some(s) => seq!["up"@, "-d"@, "--force-recreate"@, s@],
            None => seq!["up"@, "-d"@, "--force-recreate"@, "--remove-orphans"@],
        });
    }
    r
}

/// The note written in place of the pull's output when the pull failed.
pub open spec fn pull_skipped_note(err: Seq<char>) -> Seq<char> {
    "(pull omitido \u{2014} imagen local o registry inaccesible: "@ + err + ")\n"@
}

/// The report of an update from the outcomes of its two commands: the pull
/// may fail (a local image is not in any registry) and is then noted; the
/// update fails only when recreating fails.
pub fn update_report(pull: Result<String, String>, up: Result<String, String>) -> (res: Result<String, String>)
    ensures
        match up {
            Err(e) => res == Err::<String, String>(e),
            Ok(u) => res is Ok && res->Ok_0@ == match pull {
                Ok(o) => o@,
                Err(e) => pull_skipped_note(e@),
            } + u@,
        },
{
    let mut out = String::new();
    match pull {
        Ok(o) => push_str(&mut out, o.as_str()),
        Err(e) => {
            push_str(&mut out, "(pull omitido \u{2014} imagen local o registry inaccesible: ");
            push_str(&mut out, e.as_str());
            push_str(&mut out, ")\n");
        },
    }
    match up {
        Ok(u) => {
            push_str(&mut out, u.as_str());
            Ok(out)
        },
        Err(e) => Err(e),
    }
}

/// The outcome of a compose command: its standard output followed by its
/// standard error on success, else an error that quotes that output trimmed.
pub fn compose_outcome(success: bool, stdout: &str, stderr: &str) -> (res: Result<String, String>)
    ensures
        success ==> res is Ok && res->Ok_0@ == stdout@ + stderr@,
        !success ==> res is Err && res->Err_0@ == "docker compose fall\u{f3}: "@ + trimmed(stdout@ + stderr@),
{
    let mut out = String::from_str(stdout);
    push_str(&mut out, stderr);
    if success {
        Ok(out)
    } else {
        let mut msg = String::from_str("docker compose fall\u{f3}: ");
        push_str(&mut msg, trim(out.as_str()));
        Err(msg)
    }
}

/// One `docker` command (outside compose), with the phrases whose presence
/// in its output means that the resource is already gone.
pub struct DockerCall {
    pub args: Vec<String>,
    pub tolerate: Vec<String>,
}

/// Some phrase of `tolerate` occurs, ignoring case, in `out`.
pub open spec fn tolerated(out: Seq<char>, tolerate: Seq<Seq<char>>) -> bool {
    exists|i: int| 0 <= i < tolerate.len() && contains_seq(unicode_lowercase(out), unicode_lowercase(#[trigger] tolerate[i]))
}

/// The arguments joined by single spaces.
pub open spec fn joined(args: Seq<Seq<char>>) -> Seq<char>
    decreases args.len(),
{
    if args.len() == 0 {
        Seq::<char>::empty()
    } else if args.len() == 1 {
        args[0]
    } else {
        joined(args.drop_last()) + " "@ + args.last()
    }
}

fn join_args(args: &Vec<String>) -> (res: String)
    ensures
        res@ == joined(views(args@)),
{
    let mut s = String::new();
    let mut i: usize = 0;
    while i < args.len()
        invariant
            i <= args@.len(),
            s@ == joined(views(args@.take(i as int))),
        decreases args@.len() - i,
    {
        proof {
            assert(views(args@.take(i + 1)).drop_last() =~= views(args@.take(i as int)));
        }
        if i > 0 {
            push_str(&mut s, " ");
        }
        push_str(&mut s, args[i].as_str());
        i = i + 1;
        proof {
            if i == 1 {
                assert(s@ =~= joined(views(args@.take(i as int))));
            } else {
                assert(s@ =~= joined(views(args@.take(i as int))));
            }
        }
    }
    proof {
        assert(args@.take(args@.len() as int) =~= args@);
    }
    s
}

/// The outcome of a plain `docker` command: its output on success, or when
/// the output says the resource no longer exists (which is what was wanted);
/// else an error naming the command.
pub fn docker_outcome(call: &DockerCall, success: bool, stdout: &str, stderr: &str) -> (res: Result<String, String>)
    ensures
        (success || tolerated(stdout@ + stderr@, views(call.tolerate@))) ==> res is Ok && res->Ok_0@ == stdout@ + stderr@,
        !(success || tolerated(stdout@ + stderr@, views(call.tolerate@))) ==> res is Err && res->Err_0@
            == "docker "@ + joined(views(call.args@)) + " fall\u{f3}: "@ + trimmed(stdout@ + stderr@),
{
    let mut out = String::from_str(stdout);
    push_str(&mut out, stderr);
    let lower = to_lowercase(out.as_str());
    let mut found = false;
    let mut i: usize = 0;
    while i < call.tolerate.len()
        invariant
            i <= call.tolerate@.len(),
            lower@ == unicode_lowercase(out@),
            found == exists|j: int| 0 <= j < i && contains_seq(unicode_lowercase(out@), unicode_lowercase(#[trigger] views(call.tolerate@)[j])),
        decreases call.tolerate@.len() - i,
    {
        let t = to_lowercase(call.tolerate[i].as_str());
        proof {
            assert(views(call.tolerate@)[i as int] == call.tolerate@[i as int]@);
        }
        if str_contains(lower.as_str(), t.as_str()) {
            found = true;
        }
        i = i + 1;
    }
    if success || found {
        Ok(out)
    } else {
        let mut msg = String::from_str("docker ");
        let j = join_args(&call.args);
        push_str(&mut msg, j.as_str());
        push_str(&mut msg, " fall\u{f3}: ");
        push_str(&mut msg, trim(out.as_str()));
        Err(msg)
    }
}

/// A character Docker Compose keeps in a project name.
pub open spec fn is_project_name_char(c: char) -> bool {
    is_ascii_alnum(c) || c == '-' || c == '_'
}

/// The characters of `s` that Docker Compose keeps in a project name.
pub open spec fn project_name_chars(s: Seq<char>) -> Seq<char>
    decreases s.len(),
{
    if s.len() == 0 {
        Seq::<char>::empty()
    } else if is_project_name_char(s.last()) {
        project_name_chars(s.drop_last()).push(s.last())
    } else {
        project_name_chars(s.drop_last())
    }
}

/// `s` without the characters before its first ASCII letter or digit.
pub open spec fn from_first_alnum(s: Seq<char>) -> Seq<char>
    decreases s.len(),
{
    if s.len() > 0 && !is_ascii_alnum(s[0]) {
        from_first_alnum(s.drop_first())
    } else {
        s
    }
}

/// The project name Docker Compose derives from a directory's base name:
/// lower-cased, reduced to `[a-z0-9_-]`, and starting with a letter or digit.
pub open spec fn project_name_of(base: Seq<char>) -> Seq<char> {
    from_first_alnum(project_name_chars(unicode_lowercase(base)))
}

proof fn lemma_from_first_alnum_skip(s: Seq<char>, k: int)
    requires
        0 <= k <= s.len(),
        forall|j: int| 0 <= j < k ==> !is_ascii_alnum(#[trigger] s[j]),
    ensures
        from_first_alnum(s) == from_first_alnum(s.subrange(k, s.len() as int)),
    decreases k,
{
    if k > 0 {
        assert(s.subrange(1, s.len() as int) =~= s.drop_first());
        let t = s.drop_first();
        assert forall|j: int| 0 <= j < k - 1 implies !is_ascii_alnum(#[trigger] t[j]) by {
            assert(t[j] == s[j + 1]);
        }
        lemma_from_first_alnum_skip(t, k - 1);
        assert(t.subrange(k - 1, t.len() as int) =~= s.subrange(k, s.len() as int));
    } else {
        assert(s.subrange(0, s.len() as int) =~= s);
    }
}

/// The Docker Compose project name of a directory, from its base name.
pub fn compose_project_name(base_name: &str) -> (res: String)
    ensures
        res@ == project_name_of(base_name@),
{
    let lower = to_lowercase(base_name);
    let mut kept: Vec<char> = Vec::new();
    for c in it: lower.chars()
        invariant
            it.seq() == lower@,
            kept@ == project_name_chars(lower@.take(it.index() as int)),
    {
        proof {
            assert(lower@.take(it.index() + 1).drop_last() =~= lower@.take(it.index() as int));
        }
        if crate::text::char_is_ascii_alnum(c) || c == '-' || c == '_' {
            kept.push(c);
        }
    }
    proof {
        assert(lower@.take(lower@.len() as int) =~= lower@);
    }
    let mut start: usize = 0;
    while start < kept.len() && !crate::text::char_is_ascii_alnum(kept[start])
        invariant
            start <= kept@.len(),
            forall|j: int| 0 <= j < start ==> !is_ascii_alnum(#[trigger] kept@[j]),
        decreases kept@.len() - start,
    {
        start = start + 1;
    }
    let mut res = String::new();
    let mut i: usize = start;
    while i < kept.len()
        invariant
            start <= i <= kept@.len(),
            res@ == kept@.subrange(start as int, i as int),
        decreases kept@.len() - i,
    {
        push_char(&mut res, kept[i]);
        i = i + 1;
        proof {
            assert(res@ =~= kept@.subrange(start as int, i as int));
        }
    }
    proof {
        lemma_from_first_alnum_skip(kept@, start as int);
        let rest = kept@.subrange(start as int, kept@.len() as int);
        if rest.len() > 0 {
            assert(rest[0] == kept@[start as int]);
        }
    }
    res
}

/// The named data volume that earlier versions gave a room.
pub open spec fn legacy_volume_of(room_id: Seq<char>) -> Seq<char> {
    "astra-"@ + room_id + "-data"@
}

/// What removing a room's Docker resources takes: forcing its container out,
/// then removing each of `volumes` that exists.
pub struct DestroyPlan {
    pub container: DockerCall,
    pub volumes: Vec<String>,
}

/// The call that removes a volume, tolerating one that no longer exists.
pub fn remove_volume_call(volume: &str) -> (call: DockerCall)
    ensures
        views(call.args@) == seq!["volume"@, "rm"@, volume@],
        views(call.tolerate@) == seq!["no such volume"@, "not found"@],
{
    let mut args: Vec<String> = Vec::new();
    push_arg(&mut args, "volume");
    push_arg(&mut args, "rm");
    push_arg(&mut args, volume);
    let mut tolerate: Vec<String> = Vec::new();
    push_arg(&mut tolerate, "no such volume");
    push_arg(&mut tolerate, "not found");
    proof {
        assert(views(args@) =~= seq!["volume"@, "rm"@, volume@]);
        assert(views(tolerate@) =~= seq!["no such volume"@, "not found"@]);
    }
    DockerCall { args, tolerate }
}

/// The plan that removes a room's Docker resources: its container, and the
/// named volumes of earlier versions (`astra-<id>-data`, with and without the
/// compose project's prefix). It does not need the compose file, so it works
/// for a room no longer listed there.
pub fn destroy_room(project_name: &str, container: &str, room_id: &str) -> (plan: DestroyPlan)
    ensures
        views(plan.container.args@) == seq!["rm"@, "-f"@, container@],
        views(plan.container.tolerate@) == seq!["No such container"@, "not found"@],
        views(plan.volumes@) == seq![project_name@ + "_"@ + legacy_volume_of(room_id@), legacy_volume_of(room_id@)],
{
    let mut args: Vec<String> = Vec::new();
    push_arg(&mut args, "rm");
    push_arg(&mut args, "-f");
    push_arg(&mut args, container);
    let mut tolerate: Vec<String> = Vec::new();
    push_arg(&mut tolerate, "No such container");
    push_arg(&mut tolerate, "not found");
    let mut legacy = String::from_str("astra-");
    push_str(&mut legacy, room_id);
    push_str(&mut legacy, "-data");
    let mut prefixed = String::from_str(project_name);
    push_str(&mut prefixed, "_");
    push_str(&mut prefixed, legacy.as_str());
    let mut volumes: Vec<String> = Vec::new();
    push_arg(&mut volumes, prefixed.as_str());
    push_arg(&mut volumes, legacy.as_str());
    proof {
        assert(views(args@) =~= seq!["rm"@, "-f"@, container@]);
        assert(views(tolerate@) =~= seq!["No such container"@, "not found"@]);
        assert(legacy@ =~= legacy_volume_of(room_id@));
        assert(views(volumes@) =~= seq![project_name@ + "_"@ + legacy_volume_of(room_id@), legacy_volume_of(room_id@)]);
    }
    DestroyPlan { container: DockerCall { args, tolerate }, volumes }
}

/// The status of a service from the `Service`, `Name` and `State` fields of
/// its JSON record: named by `Service`, else by `Name`, else no status; in
/// state `State`, else `unknown`.
pub fn parse_status(service: Option<String>, name: Option<String>, state: Option<String>) -> (res: Option<ServiceStatus>)
    ensures
        (service is None && name is None) <==> res is None,
        res matches Some(st) ==> st.service == match service {
            Some(s) => s,
            None => name->0,
        },
        res matches Some(st) ==> st.state@ == match state {
            Some(s) => s@,
            None => "unknown"@,
        },
{
    let service = match service {
        Some(s) => s,
        None => match name {
            Some(n) => n,
            None => {
                return None;
            },
        },
    };
    let state = match state {
        Some(s) => s,
        None => String::from_str("unknown"),
    };
    Some(ServiceStatus { service, state })
}

/// A status as plain text: the service and its state.
pub open spec fn status_view(st: ServiceStatus) -> (Seq<char>, Seq<char>) {
    (st.service@, st.state@)
}

pub open spec fn statuses_view(v: Seq<ServiceStatus>) -> Seq<(Seq<char>, Seq<char>)> {
    v.map_values(|st: ServiceStatus| status_view(st))
}

/// The JSON fields of a `docker compose ps` record that a status is read from.
pub open spec fn status_keys() -> Seq<Seq<char>> {
    seq!["Service"@, "Name"@, "State"@]
}

/// The status read from the `Service`, `Name` and `State` fields of a record,
/// as [`parse_status`] reads it.
pub open spec fn status_from_fields(f: Seq<Option<Seq<char>>>) -> Option<(Seq<char>, Seq<char>)> {
    let svc = if f[0] is Some { f[0] } else { f[1] };
    match svc {
        None => None,
        Some(name) => Some((name, match f[2] {
            Some(t) => t,
            None => "unknown"@,
        })),
    }
}

/// The statuses read from a sequence of records, skipping those without a name.
pub open spec fn statuses_of_records(rs: Seq<Seq<Option<Seq<char>>>>) -> Seq<(Seq<char>, Seq<char>)>
    decreases rs.len(),
{
    if rs.len() == 0 {
        Seq::<(Seq<char>, Seq<char>)>::empty()
    } else {
        match status_from_fields(rs.last()) {
            Some(st) => statuses_of_records(rs.drop_last()).push(st),
            None => statuses_of_records(rs.drop_last()),
        }
    }
}

/// The pieces of `s` between its `\n` characters (one piece when there is none).
pub open spec fn line_pieces(s: Seq<char>) -> Seq<Seq<char>>
    decreases s.len(),
{
    if s.len() == 0 {
        seq![Seq::<char>::empty()]
    } else {
        let prev = line_pieces(s.drop_last());
        if s.last() == '\n' {
            prev.push(Seq::<char>::empty())
        } else {
            prev.update(prev.len() - 1, prev.last().push(s.last()))
        }
    }
}

proof fn lemma_line_pieces_nonempty(s: Seq<char>)
    ensures
        line_pieces(s).len() >= 1,
    decreases s.len(),
{
    if s.len() > 0 {
        lemma_line_pieces_nonempty(s.drop_last());
    }
}

/// The status on one line of output, when the line, trimmed, is a JSON
/// record with a name.
pub open spec fn status_of_line(line: Seq<char>) -> Option<(Seq<char>, Seq<char>)> {
    let t = trimmed(line);
    if t.len() == 0 {
        None
    } else {
        match json_text_fields(t, status_keys()) {
            Some(JsonFieldsView::Single(f)) => status_from_fields(f),
            _ => None,
        }
    }
}

/// The statuses of a sequence of lines, in order.
pub open spec fn statuses_of_lines(lines: Seq<Seq<char>>) -> Seq<(Seq<char>, Seq<char>)>
    decreases lines.len(),
{
    if lines.len() == 0 {
        Seq::<(Seq<char>, Seq<char>)>::empty()
    } else {
        match status_of_line(lines.last()) {
            Some(st) => statuses_of_lines(lines.drop_last()).push(st),
            None => statuses_of_lines(lines.drop_last()),
        }
    }
}

/// The statuses in the output of `docker compose ps --format json`: one JSON
/// record per line, or a whole JSON array; what does not parse is skipped.
pub open spec fn statuses_of_output(out: Seq<char>) -> Seq<(Seq<char>, Seq<char>)> {
    let t = trimmed(out);
    if t.len() > 0 && t[0] == '[' {
        match json_text_fields(t, status_keys()) {
            Some(JsonFieldsView::Many(rs)) => statuses_of_records(rs),
            _ => Seq::<(Seq<char>, Seq<char>)>::empty(),
        }
    } else {
        statuses_of_lines(line_pieces(t))
    }
}

fn opt_clone(o: &Option<String>) -> (r: Option<String>)
    ensures
        r == *o,
{
    match o {
        Some(s) => Some(s.clone()),
        None => None,
    }
}

fn status_record_keys() -> (keys: Vec<String>)
    ensures
        keys@.map_values(|k: String| k@) == status_keys(),
        keys@.len() == 3,
{
    let mut keys: Vec<String> = Vec::new();
    push_arg(&mut keys, "Service");
    push_arg(&mut keys, "Name");
    push_arg(&mut keys, "State");
    assert(views(keys@) =~= status_keys());
    keys
}

fn status_of_record(f: &Vec<Option<String>>) -> (res: Option<ServiceStatus>)
    requires
        f@.len() == 3,
    ensures
        match res {
            Some(st) => status_from_fields(fields_view(f@)) == Some(status_view(st)),
            None => status_from_fields(fields_view(f@)) is None,
        },
{
    let r = parse_status(opt_clone(&f[0]), opt_clone(&f[1]), opt_clone(&f[2]));
    proof {
        let fv = fields_view(f@);
        assert(fv[0] == opt_str_view(f@[0]));
        assert(fv[1] == opt_str_view(f@[1]));
        assert(fv[2] == opt_str_view(f@[2]));
    }
    r
}

fn push_status_of_line(res: &mut Vec<ServiceStatus>, line: &str, keys: &Vec<String>)
    requires
        keys@.map_values(|k: String| k@) == status_keys(),
        keys@.len() == 3,
    ensures
        statuses_view(final(res)@) == match status_of_line(line@) {
            Some(st) => statuses_view(old(res)@).push(st),
            None => statuses_view(old(res)@),
        },
{
    let t = trim(line);
    if t.is_empty() {
        return;
    }
    match json_string_fields(t, keys) {
        Some(JsonFields::Single(f)) => {
            match status_of_record(&f) {
                Some(st) => {
                    res.push(st);
                    assert(statuses_view(res@) =~= statuses_view(old(res)@).push(status_view(st)));
                },
                None => {},
            }
        },
        _ => {},
    }
}

/// The statuses of every service, from the output of `docker compose ps -a
/// --format json` (one record per line, or a whole array; records that do
/// not parse or carry no name are skipped).
pub fn status(output: &str) -> (res: Vec<ServiceStatus>)
    ensures
        statuses_view(res@) == statuses_of_output(output@),
{
    let keys = status_record_keys();
    let t = trim(output);
    let mut res: Vec<ServiceStatus> = Vec::new();
    if !t.is_empty() && t.get_char(0) == '[' {
        match json_string_fields(t, &keys) {
            Some(JsonFields::Many(rs)) => {
                let ghost rv = rs@.map_values(|r: Vec<Option<String>>| fields_view(r@));
                let mut i: usize = 0;
                while i < rs.len()
                    invariant
                        i <= rs@.len(),
                        rv == rs@.map_values(|r: Vec<Option<String>>| fields_view(r@)),
                        forall|k: int| 0 <= k < rs@.len() ==> (#[trigger] rs@[k])@.len() == 3,
                        statuses_view(res@) == statuses_of_records(rv.take(i as int)),
                    decreases rs@.len() - i,
                {
                    proof {
                        assert(rv.take(i + 1).drop_last() =~= rv.take(i as int));
                        assert(rv.take(i + 1).last() == fields_view(rs@[i as int]@));
                    }
                    match status_of_record(&rs[i]) {
                        Some(st) => {
                            let ghost before = res@;
                            res.push(st);
                            assert(statuses_view(res@) =~= statuses_view(before).push(status_view(st)));
                        },
                        None => {},
                    }
                    i = i + 1;
                }
                proof {
                    assert(rv.take(rv.len() as int) =~= rv);
                }
            },
            _ => {},
        }
        return res;
    }
    let mut current = String::new();
    for c in it: t.chars()
        invariant
            it.seq() == t@,
            keys@.map_values(|k: String| k@) == status_keys(),
            keys@.len() == 3,
            line_pieces(t@.take(it.index() as int)).len() >= 1,
            current@ == line_pieces(t@.take(it.index() as int)).last(),
            statuses_view(res@) == statuses_of_lines(line_pieces(t@.take(it.index() as int)).drop_last()),
    {
        let ghost prefix = t@.take(it.index() as int);
        let ghost next = t@.take(it.index() + 1);
        proof {
            assert(next.drop_last() =~= prefix);
            assert(next.last() == c);
        }
        if c == '\n' {
            push_status_of_line(&mut res, current.as_str(), &keys);
            current = String::new();
            proof {
                let ps = line_pieces(prefix);
                assert(line_pieces(next) == ps.push(Seq::<char>::empty()));
                assert(line_pieces(next).drop_last() =~= ps);
                assert(ps =~= ps.drop_last().push(ps.last()));
            }
        } else {
            push_char(&mut current, c);
            proof {
                let ps = line_pieces(prefix);
                assert(line_pieces(next).drop_last() =~= ps.drop_last());
            }
        }
    }
    proof {
        assert(t@.take(t@.len() as int) =~= t@);
        let ps = line_pieces(t@);
        assert(ps =~= ps.drop_last().push(ps.last()));
    }
    push_status_of_line(&mut res, current.as_str(), &keys);
    res
}

} // verus!
