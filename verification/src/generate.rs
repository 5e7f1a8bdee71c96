//! The files that describe a project: each room's `astra.toml` scaffold, the
//! `docker-compose.yml` that runs every room, and the `Caddyfile` of the
//! HTTPS reverse proxy.

use vstd::prelude::*;
use crate::model::{service_name_of, tls_of, Project, RoomDef};
use crate::text::{all_digits, contains_seq, occurs_at, bool_text, chars_of, decimal, is_digit, push_bool, push_char, push_decimal, push_str, trim, trimmed};

verus! {

/// The upper-case hexadecimal digit of `n`, for `0 <= n < 16`.
pub open spec fn hex_digit(n: int) -> char {
    if n < 10 {
        (48 + n) as char
    } else {
        (55 + n) as char
    }
}

/// A control character that a TOML basic string may not hold as it is:
/// U+0000 to U+001F except tab, and U+007F.
pub open spec fn is_toml_control(c: char) -> bool {
    ((c as u32) < 0x20 && c != '\t') || c == '\u{7f}'
}

/// How one character is written inside a double-quoted TOML string: quote,
/// backslash and the control characters escaped, everything else as it is.
pub open spec fn toml_escape_char(c: char) -> Seq<char> {
    if c == '"' {
        seq!['\\', '"']
    } else if c == '\\' {
        seq!['\\', '\\']
    } else if c == '\n' {
        seq!['\\', 'n']
    } else if c == '\t' {
        seq!['\\', 't']
    } else if c == '\r' {
        seq!['\\', 'r']
    } else if c == '\u{8}' {
        seq!['\\', 'b']
    } else if c == '\u{c}' {
        seq!['\\', 'f']
    } else if is_toml_control(c) {
        seq!['\\', 'u', '0', '0', hex_digit(((c as u32) / 16) as int), hex_digit(((c as u32) % 16) as int)]
    } else {
        seq![c]
    }
}

/// The characters of `s`, each escaped for a double-quoted TOML string.
pub open spec fn toml_escape(s: Seq<char>) -> Seq<char>
    decreases s.len(),
{
    if s.len() == 0 {
        Seq::<char>::empty()
    } else {
        toml_escape(s.drop_last()) + toml_escape_char(s.last())
    }
}

/// `s` as a double-quoted TOML string.
pub open spec fn toml_quoted(s: Seq<char>) -> Seq<char> {
    seq!['"'] + toml_escape(s) + seq!['"']
}

/// The value of a hexadecimal digit, of either case.
pub open spec fn hex_value(c: char) -> Option<int> {
    if '0' <= c && c <= '9' {
        Some(c as int - 48)
    } else if 'A' <= c && c <= 'F' {
        Some(c as int - 55)
    } else if 'a' <= c && c <= 'f' {
        Some(c as int - 87)
    } else {
        None
    }
}

/// The number that the hexadecimal digits `d` write.
pub open spec fn hex_number(d: Seq<char>) -> Option<int>
    decreases d.len(),
{
    if d.len() == 0 {
        Some(0)
    } else {
        match (hex_number(d.drop_last()), hex_value(d.last())) {
            (Some(a), Some(b)) => Some(a * 16 + b),
            _ => None,
        }
    }
}

/// A Unicode scalar value: a code point that is not a surrogate.
pub open spec fn is_scalar_value(n: int) -> bool {
    (0 <= n && n < 0xD800) || (0xE000 <= n && n <= 0x10FFFF)
}

/// The character that the escape `\` followed by `e` stands for, among the
/// two-character escapes of TOML.
pub open spec fn simple_escape(e: char) -> Option<char> {
    if e == 'b' {
        Some('\u{8}')
    } else if e == 't' {
        Some('\t')
    } else if e == 'n' {
        Some('\n')
    } else if e == 'f' {
        Some('\u{c}')
    } else if e == 'r' {
        Some('\r')
    } else if e == '"' {
        Some('"')
    } else if e == '\\' {
        Some('\\')
    } else {
        None
    }
}

/// The character written by the `n` hexadecimal digits of `d`, when they
/// write a Unicode scalar value.
pub open spec fn code_point_char(d: Seq<char>) -> Option<char> {
    match hex_number(d) {
        Some(v) => if is_scalar_value(v) {
            Some((v as u32) as char)
        } else {
            None
        },
        None => None,
    }
}

/// `c` in front of the characters `rest` stands for, if it stands for any.
pub open spec fn prepend_char(c: char, rest: Option<Seq<char>>) -> Option<Seq<char>> {
    match rest {
        Some(r) => Some(seq![c] + r),
        None => None,
    }
}

/// What the text between the quotes of a TOML basic string stands for, or
/// `None` when it is not valid there: any character but quote, backslash and
/// the control characters stands for itself; `\b \t \n \f \r \" \\`,
/// `\uXXXX` and `\UXXXXXXXX` are the escapes.
pub open spec fn toml_basic_value(t: Seq<char>) -> Option<Seq<char>>
    decreases t.len(),
{
    if t.len() == 0 {
        Some(Seq::<char>::empty())
    } else if t[0] == '\\' {
        if t.len() < 2 {
            None
        } else if simple_escape(t[1]) is Some {
            prepend_char(simple_escape(t[1])->0, toml_basic_value(t.skip(2)))
        } else if t[1] == 'u' && t.len() >= 6 {
            match code_point_char(t.subrange(2, 6)) {
                Some(c) => prepend_char(c, toml_basic_value(t.skip(6))),
                None => None,
            }
        } else if t[1] == 'U' && t.len() >= 10 {
            match code_point_char(t.subrange(2, 10)) {
                Some(c) => prepend_char(c, toml_basic_value(t.skip(10))),
                None => None,
            }
        } else {
            None
        }
    } else if t[0] == '"' || is_toml_control(t[0]) {
        None
    } else {
        prepend_char(t[0], toml_basic_value(t.skip(1)))
    }
}

/// What a TOML basic string (the text with its quotes) stands for, or `None`
/// when the text is not one.
pub open spec fn toml_basic_string_value(t: Seq<char>) -> Option<Seq<char>> {
    if t.len() >= 2 && t[0] == '"' && t[t.len() - 1] == '"' {
        toml_basic_value(t.subrange(1, t.len() - 1))
    } else {
        None
    }
}

proof fn lemma_escape_append(a: Seq<char>, b: Seq<char>)
    ensures
        toml_escape(a + b) == toml_escape(a) + toml_escape(b),
    decreases b.len(),
{
    if b.len() == 0 {
        assert(a + b =~= a);
        assert(toml_escape(a) + toml_escape(b) =~= toml_escape(a));
    } else {
        lemma_escape_append(a, b.drop_last());
        assert((a + b).drop_last() =~= a + b.drop_last());
        assert((a + b).last() == b.last());
        assert(toml_escape(a + b) =~= toml_escape(a) + toml_escape(b));
    }
}

proof fn lemma_hex_digit_value(n: int)
    requires
        0 <= n < 16,
    ensures
        hex_value(hex_digit(n)) == Some(n),
{
}

proof fn lemma_escape_char_reads_back(c: char, rest: Seq<char>)
    ensures
        toml_basic_value(toml_escape_char(c) + rest) == prepend_char(c, toml_basic_value(rest)),
{
    let t = toml_escape_char(c) + rest;
    if c == '"' || c == '\\' || c == '\n' || c == '\t' || c == '\r' || c == '\u{8}' || c == '\u{c}' {
        assert(t.skip(2) =~= rest);
    } else if is_toml_control(c) {
        let v = (c as u32) as int;
        assert(('\u{7f}' as u32) == 127);
        let h = v / 16;
        let l = v % 16;
        assert(0 <= v / 16 < 16 && 0 <= v % 16 < 16 && (v / 16) * 16 + v % 16 == v) by (nonlinear_arith)
            requires 0 <= v < 128;
        lemma_hex_digit_value(h);
        lemma_hex_digit_value(l);
        let d = t.subrange(2, 6);
        assert(d =~= seq!['0', '0', hex_digit(h), hex_digit(l)]);
        let d1 = seq!['0'];
        let d2 = seq!['0', '0'];
        let d3 = seq!['0', '0', hex_digit(h)];
        assert(d1.drop_last() =~= Seq::<char>::empty());
        assert(hex_number(Seq::<char>::empty()) == Some(0int));
        assert(hex_number(d1) == Some(0int));
        assert(d2.drop_last() =~= d1);
        assert(hex_number(d2) == Some(0int));
        assert(d3.drop_last() =~= d2);
        assert(hex_number(d3) == Some(h));
        assert(d.drop_last() =~= d3);
        assert(hex_number(d) == Some(v));
        vstd::utf8::char_u32_cast(c, c as u32);
        assert(code_point_char(d) == Some(c));
        assert(t.skip(6) =~= rest);
    } else {
        assert(t.skip(1) =~= rest);
    }
}

/// What `toml_escape` writes, read as the inside of a TOML basic string,
/// stands for the text that was escaped.
pub proof fn lemma_escape_reads_back(s: Seq<char>)
    ensures
        toml_basic_value(toml_escape(s)) == Some(s),
    decreases s.len(),
{
    if s.len() > 0 {
        let rest = s.skip(1);
        lemma_escape_reads_back(rest);
        lemma_escape_append(seq![s[0]], rest);
        assert(seq![s[0]] + rest =~= s);
        let one = seq![s[0]];
        assert(one.drop_last() =~= Seq::<char>::empty());
        assert(one.last() == s[0]);
        assert(toml_escape(one) == toml_escape(one.drop_last()) + toml_escape_char(one.last()));
        assert(toml_escape(one) =~= toml_escape_char(s[0]));
        lemma_escape_char_reads_back(s[0], toml_escape(rest));
        assert(seq![s[0]] + rest =~= s);
    }
}

/// A TOML basic string written by [`toml_quoted`] stands for its input.
pub proof fn lemma_quoted_reads_back(s: Seq<char>)
    ensures
        toml_basic_string_value(toml_quoted(s)) == Some(s),
{
    let q = toml_quoted(s);
    assert(q.subrange(1, q.len() - 1) =~= toml_escape(s));
    lemma_escape_reads_back(s);
}

fn hex_digit_exec(d: u8) -> (res: char)
    requires
        d < 16,
    ensures
        res == hex_digit(d as int),
{
    if d < 10 {
        (d + 48) as char
    } else {
        (d + 55) as char
    }
}

/// Escapes a string for a double-quoted TOML value: the result is a TOML
/// basic string that stands for `s`.
pub fn toml_str(s: &str) -> (res: String)
    ensures
        res@ == toml_quoted(s@),
        toml_basic_string_value(res@) == Some(s@),
{
    let mut out = String::new();
    push_char(&mut out, '"');
    for c in it: s.chars()
        invariant
            it.seq() == s@,
            out@ == seq!['"'] + toml_escape(s@.take(it.index() as int)),
    {
        proof {
            assert(s@.take(it.index() + 1).drop_last() =~= s@.take(it.index() as int));
        }
        if c == '"' {
            push_char(&mut out, '\\');
            push_char(&mut out, '"');
        } else if c == '\\' {
            push_char(&mut out, '\\');
            push_char(&mut out, '\\');
        } else if c == '\n' {
            push_char(&mut out, '\\');
            push_char(&mut out, 'n');
        } else if c == '\t' {
            push_char(&mut out, '\\');
            push_char(&mut out, 't');
        } else if c == '\r' {
            push_char(&mut out, '\\');
            push_char(&mut out, 'r');
        } else if c == '\u{8}' {
            push_char(&mut out, '\\');
            push_char(&mut out, 'b');
        } else if c == '\u{c}' {
            push_char(&mut out, '\\');
            push_char(&mut out, 'f');
        } else if (c as u32) < 0x20 || c == '\u{7f}' {
            let n32: u32 = c as u32;
            let n: u8 = n32 as u8;
            push_char(&mut out, '\\');
            push_char(&mut out, 'u');
            push_char(&mut out, '0');
            push_char(&mut out, '0');
            push_char(&mut out, hex_digit_exec((n / 16) as u8));
            push_char(&mut out, hex_digit_exec((n % 16) as u8));
        } else {
            push_char(&mut out, c);
        }
        proof {
            let t = s@.take(it.index() as int + 1);
            assert(t.last() == c);
            assert(out@ =~= seq!['"'] + toml_escape(t));
        }
    }
    proof {
        assert(s@.take(s@.len() as int) =~= s@);
    }
    push_char(&mut out, '"');
    proof {
        assert(out@ =~= toml_quoted(s@));
        lemma_quoted_reads_back(s@);
    }
    out
}

/// The `guid` the server recognises as "not configured yet" and replaces with
/// a random secret the first time it starts.
pub open spec fn placeholder_guid() -> Seq<char> {
    "astra-default-guid"@
}

/// The first lines of a room's `astra.toml`: header and room settings.
pub open spec fn astra_toml_settings(room: RoomDef) -> Seq<char> {
    "# Generado por astra-creator \u{2014} sala '"@ + room.id@ + "'\nport = "@ + decimal(room.port as nat)
        + "\nbot_name = "@ + toml_quoted(room.bot_name@)
        + "\nroom_name = "@ + toml_quoted(room.room_name@)
        + "\nroom_topic = "@ + toml_quoted(room.topic@)
        + "\nowner_password = "@ + toml_quoted(room.owner_password@)
        + "\nallow_registration = "@ + bool_text(room.allow_registration)
        + "\nroomsearch = "@ + bool_text(room.roomsearch)
}

/// The last lines of a room's `astra.toml`: server, data and link settings.
pub open spec fn astra_toml_server(room: RoomDef) -> Seq<char> {
    "\nlanguage = 0\nweb_enabled = true\nweb_port = "@ + decimal(room.port as nat)
        + "\ndata_dir = \"/app/data\"\n# El link (multi-servidor) entra multiplexado por el puerto principal\n# (`port`); no usa un puerto propio. Para enlazar otro servidor a esta\n# sala como hub: `--link-client <host>:"@
        + decimal(room.port as nat)
        + "`.\nlink_hub_enabled = false\n# Lo reemplaza el servidor por un secreto aleatorio al primer arranque.\nguid = "@
        + toml_quoted(placeholder_guid()) + "\n"@
}

/// The full scaffold of a room's `astra.toml`.
pub open spec fn astra_toml_text(room: RoomDef) -> Seq<char> {
    astra_toml_settings(room) + astra_toml_server(room)
}

fn push_setting_str(s: &mut String, key_line: &str, value: &str)
    ensures
        final(s)@ == old(s)@ + key_line@ + toml_quoted(value@),
{
    push_str(s, key_line);
    let q = toml_str(value);
    push_str(s, q.as_str());
    assert(final(s)@ =~= old(s)@ + key_line@ + toml_quoted(value@));
}

/// The content of `astra.toml` for a new room: every field the server
/// requires; the rest take the server's defaults.
pub fn astra_toml(room: &RoomDef) -> (res: String)
    ensures
        res@ == astra_toml_text(*room),
{
    let mut s = String::from_str("# Generado por astra-creator \u{2014} sala '");
    push_str(&mut s, room.id.as_str());
    push_str(&mut s, "'\nport = ");
    push_decimal(&mut s, room.port as u32);
    push_setting_str(&mut s, "\nbot_name = ", room.bot_name.as_str());
    push_setting_str(&mut s, "\nroom_name = ", room.room_name.as_str());
    push_setting_str(&mut s, "\nroom_topic = ", room.topic.as_str());
    push_setting_str(&mut s, "\nowner_password = ", room.owner_password.as_str());
    push_str(&mut s, "\nallow_registration = ");
    push_bool(&mut s, room.allow_registration);
    push_str(&mut s, "\nroomsearch = ");
    push_bool(&mut s, room.roomsearch);
    let ghost settings = s@;
    assert(settings =~= astra_toml_settings(*room));
    push_str(&mut s, "\nlanguage = 0\nweb_enabled = true\nweb_port = ");
    push_decimal(&mut s, room.port as u32);
    push_str(&mut s, "\ndata_dir = \"/app/data\"\n# El link (multi-servidor) entra multiplexado por el puerto principal\n# (`port`); no usa un puerto propio. Para enlazar otro servidor a esta\n# sala como hub: `--link-client <host>:");
    push_decimal(&mut s, room.port as u32);
    push_setting_str(&mut s, "`.\nlink_hub_enabled = false\n# Lo reemplaza el servidor por un secreto aleatorio al primer arranque.\nguid = ", "astra-default-guid");
    push_str(&mut s, "\n");
    assert(s@ =~= settings + astra_toml_server(*room));
    s
}

/// The id the compose file runs the containers as by default, from what
/// `id -u` (or `id -g`) answered: the output trimmed, when the command
/// succeeded and that is a non-empty run of ASCII digits; else `1000`.
pub open spec fn host_id_of(success: bool, output: Seq<char>) -> Seq<char> {
    let t = trimmed(output);
    if success && t.len() > 0 && all_digits(t) {
        t
    } else {
        "1000"@
    }
}

/// The host user's (or group's) id from the answer of `id -u` (or `id -g`).
pub fn host_id(success: bool, output: &str) -> (res: String)
    ensures
        res@ == host_id_of(success, output@),
{
    let t = trim(output);
    let cs = chars_of(t);
    let mut digits = cs.len() > 0;
    let mut i: usize = 0;
    while i < cs.len()
        invariant
            i <= cs@.len(),
            cs@ == t@,
            digits == (cs@.len() > 0 && forall|j: int| 0 <= j < i ==> is_digit(#[trigger] cs@[j])),
        decreases cs@.len() - i,
    {
        if !('0' <= cs[i] && cs[i] <= '9') {
            digits = false;
        }
        i = i + 1;
    }
    if success && digits {
        String::from_str(t)
    } else {
        String::from_str("1000")
    }
}

/// The first lines of a room's service: name, image, container and restart policy.
pub open spec fn service_head(r: RoomDef, image: Seq<char>) -> Seq<char> {
    "  "@ + service_name_of(r.id@) + ":\n"@
        + "    image: "@ + image + "\n"@
        + "    container_name: "@ + service_name_of(r.id@) + "\n"@
        + "    restart: unless-stopped\n"@
}

/// The user the container runs as: `PUID`/`PGID` when exported, else the given defaults.
pub open spec fn service_user(uid: Seq<char>, gid: Seq<char>) -> Seq<char> {
    "    user: \"${PUID:-"@ + uid + "}:${PGID:-"@ + gid + "}\"\n"@
}

/// The room's port published on the host, over TCP and UDP.
pub open spec fn service_ports(port: u16) -> Seq<char> {
    "    ports:\n"@
        + "      - \""@ + decimal(port as nat) + ":"@ + decimal(port as nat) + "\"\n"@
        + "      - \""@ + decimal(port as nat) + ":"@ + decimal(port as nat) + "/udp\"\n"@
}

/// The room's config file (writable, for the admin panel) and data folder,
/// both bind-mounted from `rooms/<id>`.
pub open spec fn service_volumes(id: Seq<char>) -> Seq<char> {
    "    volumes:\n"@
        + "      - ./rooms/"@ + id + "/astra.toml:/app/astra.toml\n"@
        + "      - ./rooms/"@ + id + "/data:/app/data\n"@
}

/// The server's arguments (the image's entry point is the server itself)
/// and its environment.
pub open spec fn service_command(port: u16) -> Seq<char> {
    "    command: [\"--config\", \"/app/astra.toml\", \"--port\", \""@ + decimal(port as nat) + "\"]\n"@
        + "    environment:\n"@
        + "      RUST_LOG: info\n"@
}

/// The compose service of one room.
pub open spec fn service_block(r: RoomDef, image: Seq<char>, uid: Seq<char>, gid: Seq<char>) -> Seq<char> {
    service_head(r, image) + service_user(uid, gid) + service_ports(r.port) + service_volumes(r.id@)
        + service_command(r.port)
}

/// The compose services of `rooms`, in order.
pub open spec fn service_blocks(rooms: Seq<RoomDef>, image: Seq<char>, uid: Seq<char>, gid: Seq<char>) -> Seq<char>
    decreases rooms.len(),
{
    if rooms.len() == 0 {
        Seq::<char>::empty()
    } else {
        service_blocks(rooms.drop_last(), image, uid, gid) + service_block(rooms.last(), image, uid, gid)
    }
}

/// One `depends_on` entry per room, naming its service.
pub open spec fn depends_lines(rooms: Seq<RoomDef>) -> Seq<char>
    decreases rooms.len(),
{
    if rooms.len() == 0 {
        Seq::<char>::empty()
    } else {
        depends_lines(rooms.drop_last()) + "      - "@ + service_name_of(rooms.last().id@) + "\n"@
    }
}

/// The shared Caddy reverse proxy, depending on the rooms in `tls`, and its
/// named volumes.
pub open spec fn caddy_service(tls: Seq<RoomDef>) -> Seq<char> {
    "  caddy:\n    image: caddy:2-alpine\n    container_name: astra-caddy\n    restart: unless-stopped\n    ports:\n      - \"80:80\"\n      - \"443:443\"\n    volumes:\n      - ./Caddyfile:/etc/caddy/Caddyfile:ro\n      - caddy-data:/data\n      - caddy-config:/config\n    depends_on:\n"@
        + depends_lines(tls)
        + "volumes:\n  caddy-data:\n  caddy-config:\n"@
}

/// The header of every generated orchestration file.
pub open spec fn compose_header() -> Seq<char> {
    "# Generado por astra-creator. No editar a mano: usa la TUI.\n"@ + "services:\n"@
}

/// The whole `docker-compose.yml`: one service per room, then the Caddy
/// service when some room has a domain.
pub open spec fn compose_text(p: Project, uid: Seq<char>, gid: Seq<char>) -> Seq<char> {
    compose_header() + service_blocks(p.rooms@, p.image@, uid, gid) + (if tls_of(p.rooms@).len() > 0 {
        caddy_service(tls_of(p.rooms@))
    } else {
        Seq::<char>::empty()
    })
}

fn push_service_head(s: &mut String, r: &RoomDef, image: &str)
    ensures
        final(s)@ == old(s)@ + service_head(*r, image@),
{
    let svc = r.service_name();
    push_str(s, "  ");
    push_str(s, svc.as_str());
    push_str(s, ":\n");
    push_str(s, "    image: ");
    push_str(s, image);
    push_str(s, "\n");
    push_str(s, "    container_name: ");
    push_str(s, svc.as_str());
    push_str(s, "\n");
    push_str(s, "    restart: unless-stopped\n");
    assert(s@ =~= old(s)@ + service_head(*r, image@));
}

fn push_service_user(s: &mut String, uid: &str, gid: &str)
    ensures
        final(s)@ == old(s)@ + service_user(uid@, gid@),
{
    push_str(s, "    user: \"${PUID:-");
    push_str(s, uid);
    push_str(s, "}:${PGID:-");
    push_str(s, gid);
    push_str(s, "}\"\n");
    assert(s@ =~= old(s)@ + service_user(uid@, gid@));
}

fn push_service_ports(s: &mut String, port: u16)
    ensures
        final(s)@ == old(s)@ + service_ports(port),
{
    push_str(s, "    ports:\n");
    push_str(s, "      - \"");
    push_decimal(s, port as u32);
    push_str(s, ":");
    push_decimal(s, port as u32);
    push_str(s, "\"\n");
    push_str(s, "      - \"");
    push_decimal(s, port as u32);
    push_str(s, ":");
    push_decimal(s, port as u32);
    push_str(s, "/udp\"\n");
    assert(s@ =~= old(s)@ + service_ports(port));
}

fn push_service_volumes(s: &mut String, id: &str)
    ensures
        final(s)@ == old(s)@ + service_volumes(id@),
{
    push_str(s, "    volumes:\n");
    push_str(s, "      - ./rooms/");
    push_str(s, id);
    push_str(s, "/astra.toml:/app/astra.toml\n");
    push_str(s, "      - ./rooms/");
    push_str(s, id);
    push_str(s, "/data:/app/data\n");
    assert(s@ =~= old(s)@ + service_volumes(id@));
}

fn push_service_command(s: &mut String, port: u16)
    ensures
        final(s)@ == old(s)@ + service_command(port),
{
    push_str(s, "    command: [\"--config\", \"/app/astra.toml\", \"--port\", \"");
    push_decimal(s, port as u32);
    push_str(s, "\"]\n");
    push_str(s, "    environment:\n");
    push_str(s, "      RUST_LOG: info\n");
    assert(s@ =~= old(s)@ + service_command(port));
}

fn push_service_block(s: &mut String, r: &RoomDef, image: &str, uid: &str, gid: &str)
    ensures
        final(s)@ == old(s)@ + service_block(*r, image@, uid@, gid@),
{
    push_service_head(s, r, image);
    // Runs as the host user, so the room's files stay accessible from the
    // host and the container can write to its bind mount.
    push_service_user(s, uid, gid);
    push_service_ports(s, r.port);
    // The config is mounted without `:ro`: the admin panel edits it.
    push_service_volumes(s, r.id.as_str());
    // Arguments only: the image's entry point already is the server.
    push_service_command(s, r.port);
    assert(s@ =~= old(s)@ + service_block(*r, image@, uid@, gid@));
}

/// Renders the `docker-compose.yml` with one service per room; `default_uid`
/// and `default_gid` are the container's default user.
pub fn compose_yaml(project: &Project, default_uid: &str, default_gid: &str) -> (res: String)
    ensures
        res@ == compose_text(*project, default_uid@, default_gid@),
{
    let mut s = String::new();
    push_str(&mut s, "# Generado por astra-creator. No editar a mano: usa la TUI.\n");
    push_str(&mut s, "services:\n");
    assert(s@ =~= compose_header());
    let mut i: usize = 0;
    while i < project.rooms.len()
        invariant
            i <= project.rooms@.len(),
            s@ == compose_header() + service_blocks(project.rooms@.take(i as int), project.image@, default_uid@, default_gid@),
        decreases project.rooms@.len() - i,
    {
        proof {
            assert(project.rooms@.take(i + 1).drop_last() =~= project.rooms@.take(i as int));
        }
        push_service_block(&mut s, &project.rooms[i], project.image.as_str(), default_uid, default_gid);
        i = i + 1;
        proof {
            assert(s@ =~= compose_header() + service_blocks(project.rooms@.take(i as int), project.image@, default_uid@, default_gid@));
        }
    }
    proof {
        assert(project.rooms@.take(project.rooms@.len() as int) =~= project.rooms@);
    }
    // With some domain, a shared Caddy gives HTTPS to those rooms' web side.
    let tls = project.tls_rooms();
    let ghost tv = tls_of(project.rooms@);
    if tls.len() > 0 {
        let ghost before = s@;
        push_str(&mut s, "  caddy:\n    image: caddy:2-alpine\n    container_name: astra-caddy\n    restart: unless-stopped\n    ports:\n      - \"80:80\"\n      - \"443:443\"\n    volumes:\n      - ./Caddyfile:/etc/caddy/Caddyfile:ro\n      - caddy-data:/data\n      - caddy-config:/config\n    depends_on:\n");
        let ghost head = s@;
        let mut k: usize = 0;
        while k < tls.len()
            invariant
                k <= tls@.len(),
                tls@.len() == tv.len(),
                forall|m: int| 0 <= m < tls@.len() ==> *#[trigger] tls@[m] == tv[m],
                s@ == head + depends_lines(tv.take(k as int)),
            decreases tls@.len() - k,
        {
            proof {
                assert(tv.take(k + 1).drop_last() =~= tv.take(k as int));
                assert(*tls@[k as int] == tv[k as int]);
            }
            let svc = tls[k].service_name();
            push_str(&mut s, "      - ");
            push_str(&mut s, svc.as_str());
            push_str(&mut s, "\n");
            k = k + 1;
            proof {
                assert(s@ =~= head + depends_lines(tv.take(k as int)));
            }
        }
        proof {
            assert(tv.take(tv.len() as int) =~= tv);
        }
        push_str(&mut s, "volumes:\n  caddy-data:\n  caddy-config:\n");
        assert(s@ =~= before + caddy_service(tv));
    } else {
        assert(s@ =~= compose_text(*project, default_uid@, default_gid@));
    }
    s
}

/// One site block of the `Caddyfile`: the room's domain proxied to its
/// container, compressed.
pub open spec fn caddy_site(r: RoomDef) -> Seq<char> {
    "\n"@ + r.domain@ + " {\n\treverse_proxy "@ + service_name_of(r.id@) + ":"@ + decimal(r.port as nat)
        + "\n\tencode gzip\n}\n"@
}

/// The site blocks of `rooms`, in order.
pub open spec fn caddy_sites(rooms: Seq<RoomDef>) -> Seq<char>
    decreases rooms.len(),
{
    if rooms.len() == 0 {
        Seq::<char>::empty()
    } else {
        caddy_sites(rooms.drop_last()) + caddy_site(rooms.last())
    }
}

/// The header of the `Caddyfile`.
pub open spec fn caddyfile_header() -> Seq<char> {
    "# Generado por astra-creator. No editar a mano: usa la TUI.\n"@
        + "# El DNS de cada dominio debe apuntar a este servidor (puertos 80/443).\n"@
}

/// The whole `Caddyfile`: one site block per room with a domain.
pub open spec fn caddyfile_text(p: Project) -> Seq<char> {
    caddyfile_header() + caddy_sites(tls_of(p.rooms@))
}

/// Renders the `Caddyfile`: a site block per room with a domain, proxying
/// its web client and `/admin` to the room's container.
pub fn caddyfile(project: &Project) -> (res: String)
    ensures
        res@ == caddyfile_text(*project),
{
    let mut s = String::new();
    push_str(&mut s, "# Generado por astra-creator. No editar a mano: usa la TUI.\n");
    push_str(&mut s, "# El DNS de cada dominio debe apuntar a este servidor (puertos 80/443).\n");
    assert(s@ =~= caddyfile_header());
    let tls = project.tls_rooms();
    let ghost tv = tls_of(project.rooms@);
    let mut k: usize = 0;
    while k < tls.len()
        invariant
            k <= tls@.len(),
            tls@.len() == tv.len(),
            forall|m: int| 0 <= m < tls@.len() ==> *#[trigger] tls@[m] == tv[m],
            s@ == caddyfile_header() + caddy_sites(tv.take(k as int)),
        decreases tls@.len() - k,
    {
        proof {
            assert(tv.take(k + 1).drop_last() =~= tv.take(k as int));
            assert(*tls@[k as int] == tv[k as int]);
        }
        let r = tls[k];
        let svc = r.service_name();
        push_str(&mut s, "\n");
        push_str(&mut s, r.domain.as_str());
        push_str(&mut s, " {\n\treverse_proxy ");
        push_str(&mut s, svc.as_str());
        push_str(&mut s, ":");
        push_decimal(&mut s, r.port as u32);
        push_str(&mut s, "\n\tencode gzip\n}\n");
        k = k + 1;
        proof {
            assert(s@ =~= caddyfile_header() + caddy_sites(tv.take(k as int)));
        }
    }
    proof {
        assert(tv.take(tv.len() as int) =~= tv);
    }
    s
}

/// Whether the project needs a `Caddyfile` (and the Caddy service): some room
/// has a domain.
pub fn needs_caddyfile(project: &Project) -> (res: bool)
    ensures
        res == (tls_of(project.rooms@).len() > 0),
{
    let tls = project.tls_rooms();
    tls.len() > 0
}

/// The rooms behind the reverse proxy are exactly the rooms with a
/// domain: each has one and comes from the project, and every room with a
/// domain is among them.
pub proof fn lemma_tls_rooms_are_rooms_with_domain(rooms: Seq<RoomDef>)
    ensures
        forall|k: int| 0 <= k < tls_of(rooms).len() ==> (#[trigger] tls_of(rooms)[k]).domain@.len() > 0,
        forall|k: int| 0 <= k < tls_of(rooms).len() ==> rooms.contains(#[trigger] tls_of(rooms)[k]),
        forall|k: int| 0 <= k < rooms.len() && (#[trigger] rooms[k]).domain@.len() > 0 ==> tls_of(rooms).contains(rooms[k]),
        tls_of(rooms).len() <= rooms.len(),
    decreases rooms.len(),
{
    if rooms.len() > 0 {
        let init = rooms.drop_last();
        lemma_tls_rooms_are_rooms_with_domain(init);
        let t = tls_of(rooms);
        let ti = tls_of(init);
        assert forall|k: int| 0 <= k < t.len() implies rooms.contains(#[trigger] t[k]) by {
            if k < ti.len() {
                assert(t[k] == ti[k]);
                assert(init.contains(ti[k]));
                let m = choose|m: int| 0 <= m < init.len() && init[m] == ti[k];
                assert(rooms[m] == init[m]);
            } else {
                assert(t[k] == rooms[rooms.len() - 1]);
            }
        }
        assert forall|k: int| 0 <= k < t.len() implies (#[trigger] t[k]).domain@.len() > 0 by {
            if k < ti.len() {
                assert(t[k] == ti[k]);
            }
        }
        assert forall|k: int| 0 <= k < rooms.len() && (#[trigger] rooms[k]).domain@.len() > 0 implies t.contains(rooms[k]) by {
            if k < rooms.len() - 1 {
                assert(init[k] == rooms[k]);
                assert(ti.contains(init[k]));
                let m = choose|m: int| 0 <= m < ti.len() && ti[m] == init[k];
                assert(t[m] == ti[m]);
            } else {
                assert(t[t.len() - 1] == rooms.last());
            }
        }
    }
}

/// The compose file holds the rooms' services and then, exactly when some
/// room has a domain, the Caddy service with its named volumes; that service
/// depends on exactly the rooms with a domain, in their order (see
/// [`lemma_tls_rooms_are_rooms_with_domain`]).
pub proof fn lemma_compose_caddy_block(p: Project, uid: Seq<char>, gid: Seq<char>)
    ensures
        (tls_of(p.rooms@).len() > 0) == (exists|k: int| 0 <= k < p.rooms@.len() && (#[trigger] p.rooms@[k]).domain@.len() > 0),
        (exists|k: int| 0 <= k < p.rooms@.len() && (#[trigger] p.rooms@[k]).domain@.len() > 0) ==> compose_text(p, uid, gid)
            == compose_header() + service_blocks(p.rooms@, p.image@, uid, gid) + caddy_service(tls_of(p.rooms@)),
        !(exists|k: int| 0 <= k < p.rooms@.len() && (#[trigger] p.rooms@[k]).domain@.len() > 0) ==> compose_text(p, uid, gid)
            == compose_header() + service_blocks(p.rooms@, p.image@, uid, gid),
{
    let rooms = p.rooms@;
    let t = tls_of(rooms);
    lemma_tls_rooms_are_rooms_with_domain(rooms);
    if t.len() > 0 {
        assert(rooms.contains(t[0]));
        let k = choose|k: int| 0 <= k < rooms.len() && rooms[k] == t[0];
        assert(rooms[k].domain@.len() > 0);
    }
    if exists|k: int| 0 <= k < rooms.len() && (#[trigger] rooms[k]).domain@.len() > 0 {
        let k = choose|k: int| 0 <= k < rooms.len() && (#[trigger] rooms[k]).domain@.len() > 0;
        assert(t.contains(rooms[k]));
    } else {
        assert(compose_text(p, uid, gid) =~= compose_header() + service_blocks(rooms, p.image@, uid, gid));
    }
}

/// The line of the Caddy service's `depends_on` that names the room with id `id`.
pub open spec fn depends_line(id: Seq<char>) -> Seq<char> {
    "      - astra-"@ + id + "\n"@
}

proof fn lemma_contains_in_prefix(s: Seq<char>, x: Seq<char>, t: Seq<char>)
    requires
        contains_seq(s, t),
    ensures
        contains_seq(s + x, t),
{
    let i = choose|i: int| occurs_at(s, t, i);
    assert((s + x).subrange(i, i + t.len()) =~= s.subrange(i, i + t.len()));
    assert(occurs_at(s + x, t, i));
}

proof fn lemma_depends_lines_name_each(rooms: Seq<RoomDef>, m: int)
    requires
        0 <= m < rooms.len(),
    ensures
        contains_seq(depends_lines(rooms), depends_line(rooms[m].id@)),
    decreases rooms.len(),
{
    let init = rooms.drop_last();
    let line = "      - "@ + service_name_of(rooms.last().id@) + "\n"@;
    assert(depends_lines(rooms) == depends_lines(init) + "      - "@ + service_name_of(rooms.last().id@) + "\n"@);
    assert(depends_lines(rooms) =~= depends_lines(init) + line);
    if m == rooms.len() - 1 {
        let d = depends_lines(rooms);
        let i = depends_lines(init).len() as int;
        reveal_strlit("      - ");
        reveal_strlit("astra-");
        reveal_strlit("      - astra-");
        assert(rooms.last() == rooms[m]);
        assert(line =~= depends_line(rooms[m].id@));
        assert(d.subrange(i, i + line.len()) =~= line);
        assert(occurs_at(d, depends_line(rooms[m].id@), i));
    } else {
        lemma_depends_lines_name_each(init, m);
        assert(init[m] == rooms[m]);
        lemma_contains_in_prefix(depends_lines(init), line, depends_line(rooms[m].id@));
    }
}

/// When some room has a domain, the compose file ends with the Caddy
/// service's `depends_on:` list and then its named volumes, and that list
/// names every room with a domain: for each one, the line
/// `      - astra-<id>` lies between `    depends_on:` and the final
/// `volumes:` section.
pub proof fn lemma_caddy_depends_on_every_room_with_domain(p: Project, uid: Seq<char>, gid: Seq<char>)
    requires
        exists|k: int| 0 <= k < p.rooms@.len() && (#[trigger] p.rooms@[k]).domain@.len() > 0,
    ensures
        ({
            let y = compose_text(p, uid, gid);
            let tail = "volumes:\n  caddy-data:\n  caddy-config:\n"@;
            exists|i: int| {
                &&& occurs_at(y, "    depends_on:\n"@, i)
                &&& i + 16 <= y.len() - tail.len()
                &&& y.skip(y.len() - tail.len()) == tail
                &&& forall|k: int| 0 <= k < p.rooms@.len() && (#[trigger] p.rooms@[k]).domain@.len() > 0
                    ==> contains_seq(y.subrange(i + 16, y.len() - tail.len()), depends_line(p.rooms@[k].id@))
            }
        }),
{
    let rooms = p.rooms@;
    let tls = tls_of(rooms);
    lemma_compose_caddy_block(p, uid, gid);
    lemma_tls_rooms_are_rooms_with_domain(rooms);
    let y = compose_text(p, uid, gid);
    let tail = "volumes:\n  caddy-data:\n  caddy-config:\n"@;
    let head = "  caddy:\n    image: caddy:2-alpine\n    container_name: astra-caddy\n    restart: unless-stopped\n    ports:\n      - \"80:80\"\n      - \"443:443\"\n    volumes:\n      - ./Caddyfile:/etc/caddy/Caddyfile:ro\n      - caddy-data:/data\n      - caddy-config:/config\n    depends_on:\n"@;
    let a = compose_header() + service_blocks(rooms, p.image@, uid, gid) + head;
    let d = depends_lines(tls);
    assert(y =~= a + d + tail);
    reveal_strlit("  caddy:\n    image: caddy:2-alpine\n    container_name: astra-caddy\n    restart: unless-stopped\n    ports:\n      - \"80:80\"\n      - \"443:443\"\n    volumes:\n      - ./Caddyfile:/etc/caddy/Caddyfile:ro\n      - caddy-data:/data\n      - caddy-config:/config\n    depends_on:\n");
    reveal_strlit("    depends_on:\n");
    reveal_strlit("volumes:\n  caddy-data:\n  caddy-config:\n");
    let i = a.len() - 16;
    assert(head.subrange(head.len() - 16, head.len() as int) =~= "    depends_on:\n"@);
    assert(y.subrange(i, i + 16) =~= head.subrange(head.len() - 16, head.len() as int));
    assert(occurs_at(y, "    depends_on:\n"@, i));
    assert(y.skip(y.len() - tail.len()) =~= tail);
    assert(y.subrange(i + 16, y.len() - tail.len()) =~= d);
    assert forall|k: int| 0 <= k < rooms.len() && (#[trigger] rooms[k]).domain@.len() > 0
        implies contains_seq(y.subrange(i + 16, y.len() - tail.len()), depends_line(rooms[k].id@)) by {
        assert(tls.contains(rooms[k]));
        let m = choose|m: int| 0 <= m < tls.len() && tls[m] == rooms[k];
        lemma_depends_lines_name_each(tls, m);
    }
}

/// The compose file has a Caddy service exactly when the `Caddyfile`
/// has at least one site block.
pub proof fn lemma_caddy_service_iff_sites(p: Project)
    ensures
        (tls_of(p.rooms@).len() > 0) == (caddy_sites(tls_of(p.rooms@)).len() > 0),
{
    let t = tls_of(p.rooms@);
    if t.len() > 0 {
        assert(caddy_sites(t) == caddy_sites(t.drop_last()) + caddy_site(t.last()));
        reveal_strlit("\n");
        assert(caddy_site(t.last()).len() > 0);
    }
}

} // verus!
