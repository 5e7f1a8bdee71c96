//! The decisions of the terminal interface: which screen is shown, what
//! each key does to the project and the form, and which outside work (writing
//! the files, running Docker, reading logs or states) each decision asks for.
//! The caller performs that work and reports its outcome back.

use vstd::prelude::*;
use crate::docker::ServiceStatus;
use crate::model::{
    ids_unique, lemma_remove_keeps_rooms_distinct, lemma_upsert_keeps_rooms_distinct, not_excepted, rooms_distinct,
    domain_taken, first_port, id_used, port_taken, port_used, service_name_of, upserted, without_id, Project, RoomDef,
};
use crate::slug::slug;
use crate::text::{
    ascii_lowercase, contains_char, decimal, parse_u16, parse_u16_spec, pop_char, push_char, push_decimal, push_str,
    str_eq, strip_prefix_repeated, strip_suffix_char, to_ascii_lowercase, trim, trim_end_matches_char,
    trim_start_matches, trimmed,
};
use crate::slug::slugify;

verus! {

/// The screen the interface shows.
#[derive(PartialEq, Eq, Structural, Clone, Copy)]
pub enum Screen {
    /// The list of rooms (main view).
    List,
    /// The form that adds or edits a room.
    Form,
    /// The logs of a room.
    Logs,
    /// Confirmation before deleting a room.
    ConfirmDelete,
    /// Editing the project's Docker image.
    EditImage,
    /// The help with every key.
    Help,
}

/// The Docker operation running in the background.
pub enum BusyOp {
    /// `up -d` of every room.
    Deploy,
    /// `up -d <service>` of one room.
    Start(String),
    /// `stop <service>`.
    Stop(String),
    /// `pull` and `up --force-recreate` of one room.
    Update(String),
    /// `pull` and `up --force-recreate` of every room.
    UpdateAll,
    /// Removing a room entirely: container, legacy volume and data folder.
    Destroy(String),
}

/// [`BusyOp`] with its room id as plain text.
pub enum BusyOpView {
    Deploy,
    Start(Seq<char>),
    Stop(Seq<char>),
    Update(Seq<char>),
    UpdateAll,
    Destroy(Seq<char>),
}

impl View for BusyOp {
    type V = BusyOpView;

    open spec fn view(&self) -> BusyOpView {
        match self {
            BusyOp::Deploy => BusyOpView::Deploy,
            BusyOp::Start(id) => BusyOpView::Start(id@),
            BusyOp::Stop(id) => BusyOpView::Stop(id@),
            BusyOp::Update(id) => BusyOpView::Update(id@),
            BusyOp::UpdateAll => BusyOpView::UpdateAll,
            BusyOp::Destroy(id) => BusyOpView::Destroy(id@),
        }
    }
}

/// The message shown while an operation runs.
pub open spec fn busy_label(op: BusyOpView) -> Seq<char> {
    match op {
        BusyOpView::Deploy => "Desplegando todas las salas\u{2026}"@,
        BusyOpView::Start(id) => "Iniciando '"@ + id + "'\u{2026}"@,
        BusyOpView::Stop(id) => "Deteniendo '"@ + id + "'\u{2026}"@,
        BusyOpView::Update(id) => "Actualizando '"@ + id + "' (pull + recreate)\u{2026}"@,
        BusyOpView::UpdateAll => "Actualizando todas las salas (pull + recreate)\u{2026}"@,
        BusyOpView::Destroy(id) => "Eliminando '"@ + id + "' (contenedor + datos)\u{2026}"@,
    }
}

/// The message shown once an operation succeeded.
pub open spec fn busy_success(op: BusyOpView) -> Seq<char> {
    match op {
        BusyOpView::Deploy => "\u{2713} Deploy OK: todas las salas levantadas."@,
        BusyOpView::Start(id) => "\u{2713} Sala '"@ + id + "' iniciada."@,
        BusyOpView::Stop(id) => "\u{2713} Sala '"@ + id + "' detenida."@,
        BusyOpView::Update(id) => "\u{2713} Sala '"@ + id + "' actualizada a la \u{fa}ltima imagen."@,
        BusyOpView::UpdateAll => "\u{2713} Todas las salas actualizadas a la \u{fa}ltima imagen."@,
        BusyOpView::Destroy(id) => "\u{2713} Sala '"@ + id + "' eliminada: contenedor, volumen y datos."@,
    }
}

fn quoted_message(prefix: &str, id: &str, suffix: &str) -> (res: String)
    ensures
        res@ == prefix@ + id@ + suffix@,
{
    let mut s = String::from_str(prefix);
    push_str(&mut s, id);
    push_str(&mut s, suffix);
    s
}

impl BusyOp {
    /// The message shown while the operation runs.
    pub fn label(&self) -> (res: String)
        ensures
            res@ == busy_label(self@),
    {
        match self {
            BusyOp::Deploy => String::from_str("Desplegando todas las salas\u{2026}"),
            BusyOp::Start(id) => quoted_message("Iniciando '", id.as_str(), "'\u{2026}"),
            BusyOp::Stop(id) => quoted_message("Deteniendo '", id.as_str(), "'\u{2026}"),
            BusyOp::Update(id) => quoted_message("Actualizando '", id.as_str(), "' (pull + recreate)\u{2026}"),
            BusyOp::UpdateAll => String::from_str("Actualizando todas las salas (pull + recreate)\u{2026}"),
            BusyOp::Destroy(id) => quoted_message("Eliminando '", id.as_str(), "' (contenedor + datos)\u{2026}"),
        }
    }

    /// The message shown once the operation succeeded.
    pub fn success(&self) -> (res: String)
        ensures
            res@ == busy_success(self@),
    {
        match self {
            BusyOp::Deploy => String::from_str("\u{2713} Deploy OK: todas las salas levantadas."),
            BusyOp::Start(id) => quoted_message("\u{2713} Sala '", id.as_str(), "' iniciada."),
            BusyOp::Stop(id) => quoted_message("\u{2713} Sala '", id.as_str(), "' detenida."),
            BusyOp::Update(id) => quoted_message("\u{2713} Sala '", id.as_str(), "' actualizada a la \u{fa}ltima imagen."),
            BusyOp::UpdateAll => String::from_str("\u{2713} Todas las salas actualizadas a la \u{fa}ltima imagen."),
            BusyOp::Destroy(id) => quoted_message("\u{2713} Sala '", id.as_str(), "' eliminada: contenedor, volumen y datos."),
        }
    }
}

/// The fields of the form, in tab order.
#[derive(PartialEq, Eq, Structural, Clone, Copy)]
pub enum Field {
    Id,
    RoomName,
    BotName,
    OwnerPassword,
    Port,
    Topic,
    Domain,
    AllowRegistration,
    RoomSearch,
}

/// The number of fields of the form.
pub const FIELD_COUNT: usize = 9;

/// The field at position `i` of the tab order.
pub open spec fn field_at_spec(i: int) -> Field {
    if i == 0 {
        Field::Id
    } else if i == 1 {
        Field::RoomName
    } else if i == 2 {
        Field::BotName
    } else if i == 3 {
        Field::OwnerPassword
    } else if i == 4 {
        Field::Port
    } else if i == 5 {
        Field::Topic
    } else if i == 6 {
        Field::Domain
    } else if i == 7 {
        Field::AllowRegistration
    } else {
        Field::RoomSearch
    }
}

impl Field {
    /// Every field, in tab order.
    pub const ALL: [Field; 9] = [
        Field::Id,
        Field::RoomName,
        Field::BotName,
        Field::OwnerPassword,
        Field::Port,
        Field::Topic,
        Field::Domain,
        Field::AllowRegistration,
        Field::RoomSearch,
    ];

    /// The field at position `i` of the tab order.
    pub fn at(i: usize) -> (f: Field)
        requires
            i < FIELD_COUNT,
        ensures
            f == field_at_spec(i as int),
    {
        if i == 0 {
            Field::Id
        } else if i == 1 {
            Field::RoomName
        } else if i == 2 {
            Field::BotName
        } else if i == 3 {
            Field::OwnerPassword
        } else if i == 4 {
            Field::Port
        } else if i == 5 {
            Field::Topic
        } else if i == 6 {
            Field::Domain
        } else if i == 7 {
            Field::AllowRegistration
        } else {
            Field::RoomSearch
        }
    }

    /// The label shown for the field.
    pub fn label(&self) -> (res: &'static str)
        ensures
            res@ == field_label(*self),
    {
        match self {
            Field::Id => "ID (slug)",
            Field::RoomName => "Room name",
            Field::BotName => "Bot name",
            Field::OwnerPassword => "Owner password",
            Field::Port => "Port",
            Field::Topic => "Topic",
            Field::Domain => "Dominio HTTPS (opcional)",
            Field::AllowRegistration => "Allow registration (space toggles)",
            Field::RoomSearch => "Room search (space toggles)",
        }
    }

    /// Whether the field is a switch rather than text.
    pub fn is_toggle(&self) -> (res: bool)
        ensures
            res == is_toggle_field(*self),
    {
        match self {
            Field::AllowRegistration | Field::RoomSearch => true,
            _ => false,
        }
    }
}

/// The label of a field.
pub open spec fn field_label(f: Field) -> Seq<char> {
    match f {
        Field::Id => "ID (slug)"@,
        Field::RoomName => "Room name"@,
        Field::BotName => "Bot name"@,
        Field::OwnerPassword => "Owner password"@,
        Field::Port => "Port"@,
        Field::Topic => "Topic"@,
        Field::Domain => "Dominio HTTPS (opcional)"@,
        Field::AllowRegistration => "Allow registration (space toggles)"@,
        Field::RoomSearch => "Room search (space toggles)"@,
    }
}

/// The switches of the form.
pub open spec fn is_toggle_field(f: Field) -> bool {
    f == Field::AllowRegistration || f == Field::RoomSearch
}

/// `s` ends with `t`.
pub open spec fn ends_with_seq(s: Seq<char>, t: Seq<char>) -> bool {
    t.len() <= s.len() && s.skip(s.len() - t.len()) == t
}

/// No two fields share a label, and a label mentions `space toggles`, at
/// its end, exactly when its field is a switch.
pub proof fn lemma_field_labels(a: Field, b: Field)
    ensures
        a != b ==> field_label(a) != field_label(b),
        ends_with_seq(field_label(a), " (space toggles)"@) == is_toggle_field(a),
        crate::text::contains_seq(field_label(a), "space toggles"@) == is_toggle_field(a),
{
    reveal_strlit("ID (slug)");
    reveal_strlit("Room name");
    reveal_strlit("Bot name");
    reveal_strlit("Owner password");
    reveal_strlit("Port");
    reveal_strlit("Topic");
    reveal_strlit("Dominio HTTPS (opcional)");
    reveal_strlit("Allow registration (space toggles)");
    reveal_strlit("Room search (space toggles)");
    reveal_strlit(" (space toggles)");
    reveal_strlit("space toggles");
    let la = field_label(a);
    let lb = field_label(b);
    let t = " (space toggles)"@;
    let w = "space toggles"@;
    if a != b {
        if la.len() == lb.len() {
            assert(la[0] != lb[0] || la[1] != lb[1]);
        }
    }
    if is_toggle_field(a) {
        assert(la.skip(la.len() - t.len()) =~= t);
        let i = la.len() - 14;
        assert(la.subrange(i, i + w.len()) =~= w);
        assert(crate::text::occurs_at(la, w, i));
    } else {
        if a == Field::Domain {
            assert(la.skip(la.len() - t.len())[14] != t[14]);
        }
        if crate::text::contains_seq(la, w) {
            let i = choose|i: int| crate::text::occurs_at(la, w, i);
            assert(la.subrange(i, i + w.len())[0] == w[0]);
            assert(la[i] == 's');
            if a == Field::OwnerPassword {
                assert(i == 0 || i == 1);
                assert(la[0] != 's' && la[1] != 's');
            } else if a == Field::Domain {
                assert(0 <= i <= 11);
                assert(la[0] != 's' && la[1] != 's' && la[2] != 's' && la[3] != 's' && la[4] != 's' && la[5] != 's');
                assert(la[6] != 's' && la[7] != 's' && la[8] != 's' && la[9] != 's' && la[10] != 's' && la[11] != 's');
                assert(i == 0 || i == 1 || i == 2 || i == 3 || i == 4 || i == 5 || i == 6 || i == 7 || i == 8
                    || i == 9 || i == 10 || i == 11);
            }
        }
    }
}

/// The form's buffers while a room is being added or edited.
pub struct FormBuf {
    pub editing_existing: bool,
    pub orig_id: String,
    pub id: String,
    pub room_name: String,
    pub bot_name: String,
    pub owner_password: String,
    pub port: String,
    pub topic: String,
    pub domain: String,
    pub allow_registration: bool,
    pub roomsearch: bool,
    pub focus: usize,
    pub error: Option<String>,
}

/// [`FormBuf`] with its texts as plain characters.
pub struct FormView {
    pub editing_existing: bool,
    pub orig_id: Seq<char>,
    pub id: Seq<char>,
    pub room_name: Seq<char>,
    pub bot_name: Seq<char>,
    pub owner_password: Seq<char>,
    pub port: Seq<char>,
    pub topic: Seq<char>,
    pub domain: Seq<char>,
    pub allow_registration: bool,
    pub roomsearch: bool,
    pub focus: int,
    pub error: Option<Seq<char>>,
}

impl View for FormBuf {
    type V = FormView;

    open spec fn view(&self) -> FormView {
        FormView {
            editing_existing: self.editing_existing,
            orig_id: self.orig_id@,
            id: self.id@,
            room_name: self.room_name@,
            bot_name: self.bot_name@,
            owner_password: self.owner_password@,
            port: self.port@,
            topic: self.topic@,
            domain: self.domain@,
            allow_registration: self.allow_registration,
            roomsearch: self.roomsearch,
            focus: self.focus as int,
            error: match self.error {
                Some(e) => Some(e@),
                None => None,
            },
        }
    }
}

/// The form that edits the room `r`, filled with its settings.
pub open spec fn form_of_room(r: RoomDef) -> FormView {
    FormView {
        editing_existing: true,
        orig_id: r.id@,
        id: r.id@,
        room_name: r.room_name@,
        bot_name: r.bot_name@,
        owner_password: r.owner_password@,
        port: decimal(r.port as nat),
        topic: r.topic@,
        domain: r.domain@,
        allow_registration: r.allow_registration,
        roomsearch: r.roomsearch,
        focus: 0,
        error: None,
    }
}

/// The id proposed for a new room.
pub open spec fn new_room_id() -> Seq<char> {
    slug("nueva-sala"@)
}

/// The form of a new room, proposing `port`.
pub open spec fn new_form(port: u16) -> FormView {
    FormView {
        editing_existing: false,
        orig_id: Seq::<char>::empty(),
        id: new_room_id(),
        room_name: crate::model::default_room_name(new_room_id()),
        bot_name: "Astra"@,
        owner_password: Seq::<char>::empty(),
        port: decimal(port as nat),
        topic: "Bienvenidos"@,
        domain: Seq::<char>::empty(),
        allow_registration: true,
        roomsearch: true,
        focus: 0,
        error: None,
    }
}

impl FormBuf {
    /// The form that edits `r`.
    pub fn from_room(r: &RoomDef) -> (f: FormBuf)
        ensures
            f@ == form_of_room(*r),
    {
        let mut port = String::new();
        push_decimal(&mut port, r.port as u32);
        FormBuf {
            editing_existing: true,
            orig_id: r.id.clone(),
            id: r.id.clone(),
            room_name: r.room_name.clone(),
            bot_name: r.bot_name.clone(),
            owner_password: r.owner_password.clone(),
            port,
            topic: r.topic.clone(),
            domain: r.domain.clone(),
            allow_registration: r.allow_registration,
            roomsearch: r.roomsearch,
            focus: 0,
            error: None,
        }
    }

    /// The form of a new room, proposing `suggested_port`.
    pub fn new(suggested_port: u16) -> (f: FormBuf)
        ensures
            f@ == new_form(suggested_port),
    {
        let r = RoomDef::new("nueva-sala", suggested_port);
        let mut port = String::new();
        push_decimal(&mut port, suggested_port as u32);
        let f = FormBuf {
            editing_existing: false,
            orig_id: String::new(),
            id: r.id,
            room_name: r.room_name,
            bot_name: r.bot_name,
            owner_password: String::new(),
            port,
            topic: r.topic,
            domain: String::new(),
            allow_registration: true,
            roomsearch: true,
            focus: 0,
            error: None,
        };
        assert(f@ =~= new_form(suggested_port));
        f
    }
}

/// A key pressed in the interface.
#[derive(PartialEq, Eq, Structural, Clone, Copy)]
pub enum Key {
    Char(char),
    Esc,
    Enter,
    Tab,
    BackTab,
    Up,
    Down,
    Backspace,
    Other,
}

/// Docker work to run in the background.
pub enum Job {
    /// `up -d`, of one service or of every one.
    Deploy(Option<String>),
    /// `stop` of one service.
    Stop(String),
    /// `pull` then `up -d --force-recreate`, of one service or of every one.
    Update(Option<String>),
    /// Removing a room: its Docker resources (when Docker is available) and
    /// its folder.
    Destroy { service: String, id: String, docker_ok: bool },
}

/// [`Job`] with its texts as plain characters.
pub enum JobView {
    Deploy(Option<Seq<char>>),
    Stop(Seq<char>),
    Update(Option<Seq<char>>),
    Destroy { service: Seq<char>, id: Seq<char>, docker_ok: bool },
}

pub open spec fn opt_string_view(o: Option<String>) -> Option<Seq<char>> {
    match o {
        Some(s) => Some(s@),
        None => None,
    }
}

impl View for Job {
    type V = JobView;

    open spec fn view(&self) -> JobView {
        match self {
            Job::Deploy(s) => JobView::Deploy(opt_string_view(*s)),
            Job::Stop(s) => JobView::Stop(s@),
            Job::Update(s) => JobView::Update(opt_string_view(*s)),
            Job::Destroy { service, id, docker_ok } => JobView::Destroy { service: service@, id: id@, docker_ok: *docker_ok },
        }
    }
}

/// What to do once the project's files have been written.
pub enum AfterGenerate {
    /// Deploy every room, unless writing failed.
    Deploy,
    /// Start this room.
    Start(RoomDef),
    /// Update this room.
    Update(RoomDef),
    /// Update every room.
    UpdateAll,
    /// Report the outcome of writing.
    Report,
    /// Report that the image was changed.
    ImageSaved,
    /// Report that the room with this id was saved.
    RoomSaved(String),
    /// Remove this room's resources.
    Destroy(RoomDef),
}

/// [`AfterGenerate`] with its texts as plain characters.
pub enum AfterGenerateView {
    Deploy,
    Start(RoomDef),
    Update(RoomDef),
    UpdateAll,
    Report,
    ImageSaved,
    RoomSaved(Seq<char>),
    Destroy(RoomDef),
}

impl View for AfterGenerate {
    type V = AfterGenerateView;

    open spec fn view(&self) -> AfterGenerateView {
        match self {
            AfterGenerate::Deploy => AfterGenerateView::Deploy,
            AfterGenerate::Start(r) => AfterGenerateView::Start(*r),
            AfterGenerate::Update(r) => AfterGenerateView::Update(*r),
            AfterGenerate::UpdateAll => AfterGenerateView::UpdateAll,
            AfterGenerate::Report => AfterGenerateView::Report,
            AfterGenerate::ImageSaved => AfterGenerateView::ImageSaved,
            AfterGenerate::RoomSaved(id) => AfterGenerateView::RoomSaved(id@),
            AfterGenerate::Destroy(r) => AfterGenerateView::Destroy(*r),
        }
    }
}

/// The room that refreshing the rooms from their files before writing must
/// leave alone, because its settings in memory are newer: the room just saved
/// from the form.
pub open spec fn kept_room_of(after: AfterGenerateView) -> Option<Seq<char>> {
    match after {
        AfterGenerateView::RoomSaved(id) => Some(id),
        _ => None,
    }
}

impl AfterGenerate {
    /// The id of the room whose settings in memory win over its file's.
    pub fn kept_room(&self) -> (res: Option<&str>)
        ensures
            crate::model::opt_view(res) == kept_room_of(self@),
    {
        match self {
            AfterGenerate::RoomSaved(id) => Some(id.as_str()),
            _ => None,
        }
    }
}

/// The outside work a decision asks for.
pub enum Effect {
    /// Nothing.
    Nothing,
    /// Refresh the rooms from their `astra.toml` files (all but
    /// [`AfterGenerate::kept_room`]), write the project's files, then report
    /// with [`App::generated`].
    Generate(AfterGenerate),
    /// Run a Docker job in the background, then report with [`App::job_done`].
    Spawn(Job),
    /// Read the last lines of this service's logs, then report with
    /// [`App::logs_fetched`].
    FetchLogs(String),
    /// Read the state of every service into [`App::status`].
    RefreshStatus,
    /// Read the text of every room's `astra.toml`, in the order of the rooms
    /// (`None` where it cannot be read), then report with
    /// [`App::configs_read`].
    ReadConfigs,
}

/// [`Effect`] with its texts as plain characters.
pub enum EffectView {
    Nothing,
    Generate(AfterGenerateView),
    Spawn(JobView),
    FetchLogs(Seq<char>),
    RefreshStatus,
    ReadConfigs,
}

impl View for Effect {
    type V = EffectView;

    open spec fn view(&self) -> EffectView {
        match self {
            Effect::Nothing => EffectView::Nothing,
            Effect::Generate(a) => EffectView::Generate(a@),
            Effect::Spawn(j) => EffectView::Spawn(j@),
            Effect::FetchLogs(s) => EffectView::FetchLogs(s@),
            Effect::RefreshStatus => EffectView::RefreshStatus,
            Effect::ReadConfigs => EffectView::ReadConfigs,
        }
    }
}

/// The state of the interface.
pub struct App {
    pub project: Project,
    pub screen: Screen,
    pub selected: usize,
    pub form: Option<FormBuf>,
    pub status: Vec<ServiceStatus>,
    pub docker_ok: bool,
    pub message: String,
    pub logs: String,
    /// The image being typed on the image screen.
    pub image_buf: String,
    pub should_quit: bool,
    /// The Docker operation in progress, if any.
    pub busy: Option<BusyOp>,
    /// Advances while an operation runs, to animate the spinner.
    pub spinner_tick: u8,
}

/// [`App`] with its texts as plain characters.
pub struct AppView {
    pub rooms: Seq<RoomDef>,
    pub image: Seq<char>,
    pub screen: Screen,
    pub selected: int,
    pub form: Option<FormView>,
    pub status: Seq<(Seq<char>, Seq<char>)>,
    pub docker_ok: bool,
    pub message: Seq<char>,
    pub logs: Seq<char>,
    pub image_buf: Seq<char>,
    pub should_quit: bool,
    pub busy: Option<BusyOpView>,
    pub spinner_tick: int,
}

impl View for App {
    type V = AppView;

    open spec fn view(&self) -> AppView {
        AppView {
            rooms: self.project.rooms@,
            image: self.project.image@,
            screen: self.screen,
            selected: self.selected as int,
            form: match self.form {
                Some(f) => Some(f@),
                None => None,
            },
            status: crate::docker::statuses_view(self.status@),
            docker_ok: self.docker_ok,
            message: self.message@,
            logs: self.logs@,
            image_buf: self.image_buf@,
            should_quit: self.should_quit,
            busy: match self.busy {
                Some(b) => Some(b@),
                None => None,
            },
            spinner_tick: self.spinner_tick as int,
        }
    }
}

/// The room under the cursor, if the cursor is on a room.
pub open spec fn selected_of(o: AppView) -> Option<RoomDef> {
    if 0 <= o.selected < o.rooms.len() {
        Some(o.rooms[o.selected])
    } else {
        None
    }
}

/// Refreshing the services' states, which only makes sense with Docker.
pub open spec fn refresh_effect(docker_ok: bool) -> EffectView {
    if docker_ok {
        EffectView::RefreshStatus
    } else {
        EffectView::Nothing
    }
}

/// Starting `op` in the background: its label shown, it marked as running,
/// and `job` asked for.
pub open spec fn started(o: AppView, op: BusyOpView, job: JobView) -> (AppView, EffectView) {
    (AppView { message: busy_label(op), busy: Some(op), ..o }, EffectView::Spawn(job))
}

/// The least port from 5009 up that no room of `rooms` uses.
pub open spec fn least_free_port(rooms: Seq<RoomDef>) -> u16 {
    choose|p: u16|
        p >= first_port() && !port_used(rooms, p as int) && forall|q: int| first_port() <= q < p ==> port_used(rooms, q)
}

pub open spec fn docker_missing_message() -> Seq<char> {
    "\u{2717} docker no disponible."@
}

/// What a key does on the list of rooms.
pub open spec fn list_key_step(o: AppView, key: Key) -> (AppView, EffectView) {
    let len = o.rooms.len();
    let sel = selected_of(o);
    let idle = o.busy is None;
    if key == Key::Char('q') || key == Key::Esc {
        (AppView { should_quit: true, ..o }, EffectView::Nothing)
    } else if (key == Key::Down || key == Key::Char('j')) && len > 0 {
        (AppView { selected: (o.selected + 1) % (len as int), ..o }, EffectView::Nothing)
    } else if (key == Key::Up || key == Key::Char('k')) && len > 0 {
        (AppView { selected: (o.selected + len - 1) % (len as int), ..o }, EffectView::Nothing)
    } else if key == Key::Char('a') {
        (AppView { form: Some(new_form(least_free_port(o.rooms))), screen: Screen::Form, ..o }, EffectView::Nothing)
    } else if key == Key::Char('e') {
        match sel {
            Some(_) => (o, EffectView::ReadConfigs),
            None => (o, EffectView::Nothing),
        }
    } else if key == Key::Char('d') && sel is Some {
        (AppView { screen: Screen::ConfirmDelete, ..o }, EffectView::Nothing)
    } else if key == Key::Char('D') {
        if !idle {
            (o, EffectView::Nothing)
        } else if !o.docker_ok {
            (AppView { message: docker_missing_message(), ..o }, EffectView::Nothing)
        } else {
            (o, EffectView::Generate(AfterGenerateView::Deploy))
        }
    } else if key == Key::Char('s') {
        match sel {
            Some(r) if idle => (o, EffectView::Generate(AfterGenerateView::Start(r))),
            _ => (o, EffectView::Nothing),
        }
    } else if key == Key::Char('x') {
        match sel {
            Some(r) if idle => started(o, BusyOpView::Stop(r.id@), JobView::Stop(service_name_of(r.id@))),
            _ => (o, EffectView::Nothing),
        }
    } else if key == Key::Char('u') {
        if !idle {
            (o, EffectView::Nothing)
        } else if !o.docker_ok {
            (AppView { message: docker_missing_message(), ..o }, EffectView::Nothing)
        } else {
            match sel {
                Some(r) => (o, EffectView::Generate(AfterGenerateView::Update(r))),
                None => (o, EffectView::Nothing),
            }
        }
    } else if key == Key::Char('U') {
        if !idle {
            (o, EffectView::Nothing)
        } else if !o.docker_ok {
            (AppView { message: docker_missing_message(), ..o }, EffectView::Nothing)
        } else if len == 0 {
            (AppView { message: "No hay salas para actualizar."@, ..o }, EffectView::Nothing)
        } else {
            (o, EffectView::Generate(AfterGenerateView::UpdateAll))
        }
    } else if key == Key::Char('?') || key == Key::Char('h') {
        (AppView { screen: Screen::Help, ..o }, EffectView::Nothing)
    } else if key == Key::Char('l') {
        match sel {
            Some(r) => (o, EffectView::FetchLogs(service_name_of(r.id@))),
            None => (o, EffectView::Nothing),
        }
    } else if key == Key::Char('r') {
        (AppView { message: "Estado actualizado."@, ..o }, refresh_effect(o.docker_ok))
    } else if key == Key::Char('g') {
        (o, EffectView::Generate(AfterGenerateView::Report))
    } else if key == Key::Char('i') {
        (AppView { image_buf: o.image, screen: Screen::EditImage, ..o }, EffectView::Nothing)
    } else {
        (o, EffectView::Nothing)
    }
}

/// The text of a text field of the form.
pub open spec fn field_text(f: FormView, field: Field) -> Seq<char> {
    match field {
        Field::Id => f.id,
        Field::RoomName => f.room_name,
        Field::BotName => f.bot_name,
        Field::OwnerPassword => f.owner_password,
        Field::Port => f.port,
        Field::Topic => f.topic,
        Field::Domain => f.domain,
        _ => Seq::<char>::empty(),
    }
}

/// The form with the text of `field` replaced by `t`.
pub open spec fn with_field_text(f: FormView, field: Field, t: Seq<char>) -> FormView {
    match field {
        Field::Id => FormView { id: t, ..f },
        Field::RoomName => FormView { room_name: t, ..f },
        Field::BotName => FormView { bot_name: t, ..f },
        Field::OwnerPassword => FormView { owner_password: t, ..f },
        Field::Port => FormView { port: t, ..f },
        Field::Topic => FormView { topic: t, ..f },
        Field::Domain => FormView { domain: t, ..f },
        _ => f,
    }
}

/// `s` without its last character, if it has one (`String::pop`).
pub open spec fn without_last(s: Seq<char>) -> Seq<char> {
    if s.len() > 0 {
        s.drop_last()
    } else {
        s
    }
}

/// The domain typed in the form as it is stored: trimmed, without any
/// `https://` or `http://` scheme in front nor `/` at the end, in lower case.
pub open spec fn normalized_domain(d: Seq<char>) -> Seq<char> {
    ascii_lowercase(strip_suffix_char(strip_prefix_repeated(strip_prefix_repeated(trimmed(d), "https://"@), "http://"@), '/'))
}

/// A domain the form accepts: none, or one without spaces that has a dot.
pub open spec fn domain_acceptable(d: Seq<char>) -> bool {
    d.len() == 0 || (!d.contains(' ') && d.contains('.'))
}

/// `room` is the room the form `f` describes.
pub open spec fn room_of_form(room: RoomDef, f: FormView) -> bool {
    &&& room.id@ == slug(f.id)
    &&& room.room_name@ == trimmed(f.room_name)
    &&& room.bot_name@ == trimmed(f.bot_name)
    &&& room.owner_password@ == f.owner_password
    &&& Some(room.port) == parse_u16_spec(trimmed(f.port))
    &&& room.topic@ == trimmed(f.topic)
    &&& room.domain@ == normalized_domain(f.domain)
    &&& room.allow_registration == f.allow_registration
    &&& room.roomsearch == f.roomsearch
}

/// The room whose id the form edits, when it edits one.
pub open spec fn form_except(f: FormView) -> Option<Seq<char>> {
    if f.editing_existing {
        Some(f.orig_id)
    } else {
        None
    }
}

/// The form left open with `msg` as its error.
pub open spec fn form_error(o: AppView, f: FormView, msg: Seq<char>) -> (AppView, EffectView) {
    (AppView { form: Some(FormView { error: Some(msg), ..f }), ..o }, EffectView::Nothing)
}

/// Why the form cannot be saved: the message of the first check that fails,
/// or `None` when every check passes.
pub open spec fn submit_error(f: FormView, rooms: Seq<RoomDef>) -> Option<Seq<char>> {
    let id = slug(f.id);
    let port = parse_u16_spec(trimmed(f.port));
    let except = form_except(f);
    let domain = normalized_domain(f.domain);
    if port is None || port->0 < 1024 {
        Some("Puerto inv\u{e1}lido (usa 1024\u{2013}65535)."@)
    } else if !f.editing_existing && id_used(rooms, id) {
        Some("Ya existe una sala con id '"@ + id + "'."@)
    } else if port_taken(rooms, port->0 as int, except) {
        Some("El puerto "@ + decimal(port->0 as nat) + " ya est\u{e1} en uso por otra sala."@)
    } else if !domain_acceptable(domain) {
        Some("Dominio inv\u{e1}lido (ej: chat.midominio.com)."@)
    } else if domain_taken(rooms, domain, except) {
        Some("El dominio '"@ + domain + "' ya est\u{e1} en uso por otra sala."@)
    } else {
        None
    }
}

/// Saving a form that passed every check: `room`, built from the form,
/// replaces the room the form edited (removed first when its id changed) or
/// is added; the form closes, the cursor stays on a room, and the files are
/// written.
pub open spec fn submit_success(o: AppView, room: RoomDef) -> (AppView, EffectView) {
    let f = o.form->0;
    let id = slug(f.id);
    let base = if f.editing_existing && f.orig_id != id { without_id(o.rooms, f.orig_id) } else { o.rooms };
    let rooms = upserted(base, room);
    let selected = if o.selected >= rooms.len() && rooms.len() > 0 { rooms.len() - 1 } else { o.selected };
    (
        AppView { rooms, form: None, screen: Screen::List, selected, ..o },
        EffectView::Generate(AfterGenerateView::RoomSaved(id)),
    )
}

/// What a key other than Enter does on the form.
pub open spec fn form_key_step(o: AppView, key: Key) -> (AppView, EffectView) {
    let f = o.form->0;
    let field = field_at_spec(f.focus);
    if key == Key::Esc {
        (AppView { form: None, screen: Screen::List, ..o }, EffectView::Nothing)
    } else if key == Key::Tab || key == Key::Down {
        (AppView { form: Some(FormView { focus: (f.focus + 1) % (FIELD_COUNT as int), ..f }), ..o }, EffectView::Nothing)
    } else if key == Key::BackTab || key == Key::Up {
        (AppView { form: Some(FormView { focus: (f.focus + FIELD_COUNT - 1) % (FIELD_COUNT as int), ..f }), ..o }, EffectView::Nothing)
    } else if key == Key::Char(' ') && is_toggle_field(field) {
        if field == Field::AllowRegistration {
            (AppView { form: Some(FormView { allow_registration: !f.allow_registration, ..f }), ..o }, EffectView::Nothing)
        } else {
            (AppView { form: Some(FormView { roomsearch: !f.roomsearch, ..f }), ..o }, EffectView::Nothing)
        }
    } else if key is Char && !is_toggle_field(field) {
        (AppView { form: Some(with_field_text(f, field, field_text(f, field).push(key->Char_0))), ..o }, EffectView::Nothing)
    } else if key == Key::Backspace && !is_toggle_field(field) {
        (AppView { form: Some(with_field_text(f, field, without_last(field_text(f, field)))), ..o }, EffectView::Nothing)
    } else {
        (o, EffectView::Nothing)
    }
}

fn edit_field(f: &mut FormBuf, field: Field, c: Option<char>)
    requires
        !is_toggle_field(field),
    ensures
        final(f)@ == with_field_text(old(f)@, field, match c {
            Some(ch) => field_text(old(f)@, field).push(ch),
            None => without_last(field_text(old(f)@, field)),
        }),
{
    let buf: &mut String = match field {
        Field::Id => &mut f.id,
        Field::RoomName => &mut f.room_name,
        Field::BotName => &mut f.bot_name,
        Field::OwnerPassword => &mut f.owner_password,
        Field::Port => &mut f.port,
        Field::Topic => &mut f.topic,
        _ => &mut f.domain,
    };
    match c {
        Some(ch) => push_char(buf, ch),
        None => {
            pop_char(buf);
        },
    }
}

fn prefixed_message(prefix: &str, text: &str) -> (res: String)
    ensures
        res@ == prefix@ + text@,
{
    let mut s = String::from_str(prefix);
    push_str(&mut s, text);
    s
}

fn owned(s: &str) -> (res: String)
    ensures
        res@ == s@,
{
    String::from_str(s)
}

/// What a key does on the image screen.
pub open spec fn image_key_step(o: AppView, key: Key) -> (AppView, EffectView) {
    if key == Key::Esc {
        (AppView { screen: Screen::List, ..o }, EffectView::Nothing)
    } else if key == Key::Enter {
        let img = trimmed(o.image_buf);
        if img.len() == 0 {
            (AppView { message: "La imagen no puede estar vac\u{ed}a."@, ..o }, EffectView::Nothing)
        } else {
            (AppView { image: img, screen: Screen::List, ..o }, EffectView::Generate(AfterGenerateView::ImageSaved))
        }
    } else if key is Char {
        (AppView { image_buf: o.image_buf.push(key->Char_0), ..o }, EffectView::Nothing)
    } else if key == Key::Backspace {
        (AppView { image_buf: without_last(o.image_buf), ..o }, EffectView::Nothing)
    } else {
        (o, EffectView::Nothing)
    }
}

/// What a key does on the delete confirmation: `y` or Enter removes the room
/// under the cursor (unless an operation is running) and then its resources;
/// any other key cancels.
pub open spec fn confirm_key_step(o: AppView, key: Key) -> (AppView, EffectView) {
    let o2 = AppView { screen: Screen::List, ..o };
    if key == Key::Char('y') || key == Key::Enter {
        if o.busy is Some {
            (AppView { message: "\u{2717} Hay una operaci\u{f3}n en curso; espera a que termine."@, ..o2 }, EffectView::Nothing)
        } else {
            match selected_of(o) {
                Some(r) => {
                    let rooms = without_id(o.rooms, r.id@);
                    let selected = if o.selected > 0 && o.selected >= rooms.len() { o.selected - 1 } else { o.selected };
                    (AppView { rooms, selected, ..o2 }, EffectView::Generate(AfterGenerateView::Destroy(r)))
                },
                None => (o2, EffectView::Nothing),
            }
        }
    } else {
        (o2, EffectView::Nothing)
    }
}

/// What a key does, on whichever screen is shown (Enter on the form aside:
/// see [`submit_error`] and [`submit_success`]).
pub open spec fn key_step(o: AppView, key: Key) -> (AppView, EffectView) {
    match o.screen {
        Screen::List => list_key_step(o, key),
        Screen::Form => if o.form is Some { form_key_step(o, key) } else { (o, EffectView::Nothing) },
        Screen::Logs => if key == Key::Esc || key == Key::Char('q') {
            (AppView { screen: Screen::List, ..o }, EffectView::Nothing)
        } else {
            (o, EffectView::Nothing)
        },
        Screen::ConfirmDelete => confirm_key_step(o, key),
        Screen::EditImage => image_key_step(o, key),
        Screen::Help => (AppView { screen: Screen::List, ..o }, EffectView::Nothing),
    }
}

pub open spec fn result_view(r: Result<(), String>) -> Result<(), Seq<char>> {
    match r {
        Ok(_) => Ok(()),
        Err(e) => Err(e@),
    }
}

/// What follows writing the project's files, given how writing went.
pub open spec fn generated_step(o: AppView, after: AfterGenerateView, result: Result<(), Seq<char>>) -> (AppView, EffectView) {
    match after {
        AfterGenerateView::Deploy => match result {
            Err(e) => (AppView { message: "\u{2717} Error generando: "@ + e, ..o }, EffectView::Nothing),
            Ok(_) => started(o, BusyOpView::Deploy, JobView::Deploy(None)),
        },
        AfterGenerateView::Start(r) => started(
            o,
            BusyOpView::Start(r.id@),
            JobView::Deploy(Some(service_name_of(r.id@))),
        ),
        AfterGenerateView::Update(r) => started(
            o,
            BusyOpView::Update(r.id@),
            JobView::Update(Some(service_name_of(r.id@))),
        ),
        AfterGenerateView::UpdateAll => started(o, BusyOpView::UpdateAll, JobView::Update(None)),
        AfterGenerateView::Report => match result {
            Ok(_) => (AppView { message: "\u{2713} Archivos generados (astra.toml + docker-compose.yml)."@, ..o }, EffectView::Nothing),
            Err(e) => (AppView { message: "\u{2717} Error: "@ + e, ..o }, EffectView::Nothing),
        },
        AfterGenerateView::ImageSaved => match result {
            Ok(_) => (AppView { message: "\u{2713} Imagen actualizada: "@ + o.image, ..o }, EffectView::Nothing),
            Err(e) => (AppView { message: "\u{2717} Error: "@ + e, ..o }, EffectView::Nothing),
        },
        AfterGenerateView::RoomSaved(id) => match result {
            Ok(_) => (AppView { message: "\u{2713} Sala '"@ + id + "' guardada y archivos regenerados."@, ..o }, EffectView::Nothing),
            Err(e) => (AppView { message: "\u{2717} Error al escribir archivos: "@ + e, ..o }, EffectView::Nothing),
        },
        AfterGenerateView::Destroy(r) => started(
            o,
            BusyOpView::Destroy(r.id@),
            JobView::Destroy { service: service_name_of(r.id@), id: r.id@, docker_ok: o.docker_ok },
        ),
    }
}

/// What follows the end of the background job: its outcome reported, nothing
/// marked as running, and the services' states read again.
pub open spec fn job_done_step(o: AppView, result: Result<(), Seq<char>>) -> (AppView, EffectView) {
    let message = match result {
        Ok(_) => match o.busy {
            Some(op) => busy_success(op),
            None => Seq::<char>::empty(),
        },
        Err(e) => "\u{2717} "@ + e,
    };
    (AppView { message, busy: None, ..o }, refresh_effect(o.docker_ok))
}

/// The state shown for `room`: that of the first service named after it,
/// else a dash.
pub open spec fn state_of_spec(status: Seq<(Seq<char>, Seq<char>)>, room: RoomDef) -> Seq<char>
    decreases status.len(),
{
    if status.len() == 0 {
        "\u{2014}"@
    } else if status[0].0 == service_name_of(room.id@) {
        status[0].1
    } else {
        state_of_spec(status.drop_first(), room)
    }
}

/// The errors of a job joined by ` \u{b7} `.
pub open spec fn errors_joined(errors: Seq<Seq<char>>) -> Seq<char>
    decreases errors.len(),
{
    if errors.len() <= 1 {
        if errors.len() == 0 { Seq::<char>::empty() } else { errors[0] }
    } else {
        errors_joined(errors.drop_last()) + " \u{b7} "@ + errors.last()
    }
}

/// The outcome of a job that tried several steps: success when none failed,
/// else one error gathering every failure.
pub fn combine_errors(errors: &Vec<String>) -> (res: Result<(), String>)
    ensures
        errors@.len() == 0 ==> res is Ok,
        errors@.len() > 0 ==> res is Err && res->Err_0@ == errors_joined(errors@.map_values(|e: String| e@)),
{
    if errors.len() == 0 {
        return Ok(());
    }
    let ghost ev = errors@.map_values(|e: String| e@);
    let mut s = String::new();
    let mut i: usize = 0;
    while i < errors.len()
        invariant
            i <= errors@.len(),
            ev == errors@.map_values(|e: String| e@),
            s@ == errors_joined(ev.take(i as int)),
        decreases errors@.len() - i,
    {
        proof {
            assert(ev.take(i + 1).drop_last() =~= ev.take(i as int));
            assert(ev[i as int] == errors@[i as int]@);
        }
        if i > 0 {
            push_str(&mut s, " \u{b7} ");
        }
        push_str(&mut s, errors[i].as_str());
        i = i + 1;
        proof {
            assert(s@ =~= errors_joined(ev.take(i as int)));
        }
    }
    proof {
        assert(ev.take(ev.len() as int) =~= ev);
    }
    Err(s)
}

/// The cursor is on a room, or at the top of an empty list.
pub open spec fn cursor_ok(o: AppView) -> bool {
    o.selected < o.rooms.len() || (o.rooms.len() == 0 && o.selected == 0)
}

/// Saving a form that passed its checks keeps the rooms distinct (no
/// two with the same id, port or domain).
pub proof fn lemma_submit_keeps_rooms_distinct(o: AppView, room: RoomDef)
    requires
        o.form is Some,
        submit_error(o.form->0, o.rooms) is None,
        room_of_form(room, o.form->0),
        rooms_distinct(o.rooms),
    ensures
        rooms_distinct(submit_success(o, room).0.rooms),
{
    let f = o.form->0;
    let id = slug(f.id);
    let except = form_except(f);
    assert(!port_taken(o.rooms, room.port as int, except));
    assert(!domain_taken(o.rooms, room.domain@, except));
    if f.editing_existing && f.orig_id != id {
        let base = without_id(o.rooms, f.orig_id);
        lemma_remove_keeps_rooms_distinct(o.rooms, f.orig_id);
        crate::model::lemma_remove_clears_id(o.rooms, f.orig_id);
        assert forall|k: int| 0 <= k < base.len() && (#[trigger] base[k]).id@ != room.id@ implies base[k].port != room.port
            && (room.domain@.len() > 0 ==> base[k].domain@ != room.domain@) by {
            assert(base[k].id@ != f.orig_id) by {
                if base[k].id@ == f.orig_id {
                    assert(id_used(base, f.orig_id));
                }
            }
            lemma_without_id_member(o.rooms, f.orig_id, k);
            let m = choose|m: int| 0 <= m < o.rooms.len() && o.rooms[m] == base[k];
            assert(not_excepted(o.rooms[m], except));
        }
        lemma_upsert_keeps_rooms_distinct(base, room);
    } else {
        assert forall|k: int| 0 <= k < o.rooms.len() && (#[trigger] o.rooms[k]).id@ != room.id@
            implies o.rooms[k].port != room.port && (room.domain@.len() > 0 ==> o.rooms[k].domain@ != room.domain@) by {
            assert(not_excepted(o.rooms[k], except));
        }
        lemma_upsert_keeps_rooms_distinct(o.rooms, room);
    }
}

proof fn lemma_without_id_member(rooms: Seq<RoomDef>, id: Seq<char>, k: int)
    requires
        0 <= k < without_id(rooms, id).len(),
    ensures
        exists|m: int| 0 <= m < rooms.len() && rooms[m] == without_id(rooms, id)[k],
{
    crate::model::lemma_without_id_contents_pub(rooms, id);
    assert(rooms.contains(without_id(rooms, id)[k]));
}

/// No key ever leaves two rooms sharing an id, a port or a domain.
pub proof fn lemma_key_keeps_rooms_distinct(o: AppView, key: Key)
    requires
        rooms_distinct(o.rooms),
    ensures
        rooms_distinct(key_step(o, key).0.rooms),
{
    if o.screen == Screen::ConfirmDelete {
        match selected_of(o) {
            Some(r) => lemma_remove_keeps_rooms_distinct(o.rooms, r.id@),
            None => {},
        }
    }
}

/// The cursor stays on a room (or at the top of an empty list) whatever
/// key is pressed.
pub proof fn lemma_key_keeps_cursor(o: AppView, key: Key)
    requires
        cursor_ok(o),
        ids_unique(o.rooms),
    ensures
        cursor_ok(key_step(o, key).0),
{
    if o.screen == Screen::ConfirmDelete && o.busy is None {
        match selected_of(o) {
            Some(r) => {
                assert(id_used(o.rooms, r.id@));
                crate::model::lemma_remove_present_id_len(o.rooms, r.id@);
            },
            None => {},
        }
    }
}

/// Saving a form leaves the cursor on a room.
pub proof fn lemma_submit_keeps_cursor(o: AppView, room: RoomDef)
    requires
        o.form is Some,
        cursor_ok(o),
    ensures
        cursor_ok(submit_success(o, room).0),
{
    let f = o.form->0;
    let id = slug(f.id);
    let base = if f.editing_existing && f.orig_id != id { without_id(o.rooms, f.orig_id) } else { o.rooms };
    crate::model::lemma_upsert_then_has_id(base, room);
}

/// A room whose settings the form would store as they are: its id a slug,
/// its texts trimmed, its port at least 1024, and its domain, if any,
/// already normalized and acceptable.
pub open spec fn settled_room(r: RoomDef) -> bool {
    &&& slug(r.id@) == r.id@
    &&& trimmed(r.room_name@) == r.room_name@
    &&& trimmed(r.bot_name@) == r.bot_name@
    &&& trimmed(r.topic@) == r.topic@
    &&& r.port >= 1024
    &&& normalized_domain(r.domain@) == r.domain@
    &&& domain_acceptable(r.domain@)
}

/// `a` and `b` hold the same settings.
pub open spec fn same_room(a: RoomDef, b: RoomDef) -> bool {
    &&& a.id@ == b.id@
    &&& a.room_name@ == b.room_name@
    &&& a.bot_name@ == b.bot_name@
    &&& a.owner_password@ == b.owner_password@
    &&& a.port == b.port
    &&& a.topic@ == b.topic@
    &&& a.domain@ == b.domain@
    &&& a.allow_registration == b.allow_registration
    &&& a.roomsearch == b.roomsearch
}

/// The interface once the rooms have been refreshed from their files into
/// `rooms`: the form of the room under the cursor opens, showing what the
/// files hold now.
pub open spec fn configs_read_step(o: AppView, rooms: Seq<RoomDef>) -> AppView {
    let o2 = AppView { rooms, ..o };
    match selected_of(o2) {
        Some(r) => AppView { form: Some(form_of_room(r)), screen: Screen::Form, ..o2 },
        None => o2,
    }
}

/// Refreshing the rooms from their files before editing keeps them distinct
/// and keeps the cursor on a room.
pub proof fn lemma_configs_read_keeps_rooms_distinct(o: AppView, rooms: Seq<RoomDef>, texts: Seq<Option<Seq<char>>>)
    requires
        rooms_distinct(o.rooms),
        cursor_ok(o),
        crate::reconcile::rooms_synced(o.rooms, rooms, texts, None),
    ensures
        rooms_distinct(configs_read_step(o, rooms).rooms),
        cursor_ok(configs_read_step(o, rooms)),
{
    assert forall|i: int| 0 <= i < rooms.len() implies #[trigger] rooms[i].id == o.rooms[i].id
        && rooms[i].port == o.rooms[i].port && rooms[i].domain == o.rooms[i].domain by {
        assert(o.rooms[i] == o.rooms[i]);
    }
    assert(crate::model::ids_unique(rooms)) by {
        assert forall|i: int, j: int| 0 <= i < rooms.len() && 0 <= j < rooms.len() && i != j
            implies #[trigger] rooms[i].id@ != #[trigger] rooms[j].id@ by {
            assert(rooms[i].id == o.rooms[i].id && rooms[j].id == o.rooms[j].id);
            assert(o.rooms[i].id@ != o.rooms[j].id@);
        }
    }
    assert(crate::model::ports_unique(rooms)) by {
        assert forall|i: int, j: int| 0 <= i < rooms.len() && 0 <= j < rooms.len() && i != j
            implies #[trigger] rooms[i].port != #[trigger] rooms[j].port by {
            assert(rooms[i].port == o.rooms[i].port && rooms[j].port == o.rooms[j].port);
            assert(o.rooms[i].port != o.rooms[j].port);
        }
    }
    assert(crate::model::domains_unique(rooms)) by {
        assert forall|i: int, j: int| 0 <= i < rooms.len() && 0 <= j < rooms.len() && i != j
            && (#[trigger] rooms[i]).domain@.len() > 0 implies rooms[i].domain@ != (#[trigger] rooms[j]).domain@ by {
            assert(rooms[i].domain == o.rooms[i].domain && rooms[j].domain == o.rooms[j].domain);
            assert(o.rooms[i].domain@ != o.rooms[j].domain@);
        }
    }
}

/// Opening the form of a settled room and saving it unchanged passes every
/// check, closes the form, and leaves the rooms as they were, in the same
/// order and setting by setting, and the image as it was.
pub proof fn lemma_save_unchanged_form(o: AppView, i: int, room: RoomDef)
    requires
        0 <= i < o.rooms.len(),
        rooms_distinct(o.rooms),
        settled_room(o.rooms[i]),
        o.form == Some(form_of_room(o.rooms[i])),
        room_of_form(room, form_of_room(o.rooms[i])),
    ensures
        submit_error(form_of_room(o.rooms[i]), o.rooms) is None,
        submit_success(o, room).0.rooms.len() == o.rooms.len(),
        forall|j: int| 0 <= j < o.rooms.len() ==> same_room(#[trigger] submit_success(o, room).0.rooms[j], o.rooms[j]),
        submit_success(o, room).0.image == o.image,
        submit_success(o, room).0.form is None,
        submit_success(o, room).0.screen == Screen::List,
{
    let rooms = o.rooms;
    let r = rooms[i];
    let f = form_of_room(r);
    crate::text::lemma_parse_decimal(r.port);
    assert(parse_u16_spec(trimmed(f.port)) == Some(r.port));
    assert(room.port == r.port);
    crate::model::lemma_own_port_not_taken(rooms, i);
    assert(!port_taken(rooms, r.port as int, Some(r.id@)));
    if domain_taken(rooms, r.domain@, Some(r.id@)) {
        let j = choose|j: int| 0 <= j < rooms.len() && (#[trigger] rooms[j]).domain@ == r.domain@ && not_excepted(rooms[j], Some(r.id@));
        assert(j != i);
        assert(rooms[i].domain@.len() > 0);
    }
    assert(submit_error(f, rooms) is None);
    assert(id_used(rooms, room.id@)) by {
        assert(rooms[i].id@ == room.id@);
    }
    assert(crate::model::first_with_id(rooms, room.id@, i));
    let c = choose|c: int| crate::model::first_with_id(rooms, room.id@, c);
    assert(c == i) by {
        if c < i {
            assert(rooms[c].id@ == room.id@);
        } else if c > i {
            assert(rooms[i].id@ != room.id@);
        }
    }
    let n = submit_success(o, room).0;
    assert(upserted(rooms, room) == rooms.update(i, room));
    assert forall|j: int| 0 <= j < rooms.len() implies same_room(#[trigger] n.rooms[j], rooms[j]) by {
        if j == i {
            assert(n.rooms[j] == room);
        } else {
            assert(n.rooms[j] == rooms[j]);
        }
    }
}

/// Pressing `x` on the list, with a room under the cursor and nothing
/// running, stops exactly that room's compose service, `astra-<id>`, and
/// marks the stop as running.
pub proof fn lemma_stop_key_stops_the_rooms_service(o: AppView, r: RoomDef)
    requires
        o.screen == Screen::List,
        o.busy is None,
        0 <= o.selected < o.rooms.len(),
        o.rooms[o.selected] == r,
    ensures
        key_step(o, Key::Char('x')).1 == EffectView::Spawn(JobView::Stop("astra-"@ + r.id@)),
        key_step(o, Key::Char('x')).0.busy == Some(BusyOpView::Stop(r.id@)),
        key_step(o, Key::Char('x')).0.rooms == o.rooms,
{
}

/// Pressing `s` on the list, with a room under the cursor and nothing
/// running, writes the files and then, however writing went, starts exactly
/// that room's compose service, `astra-<id>`, and no other.
pub proof fn lemma_start_key_starts_only_the_room(o: AppView, r: RoomDef, written: Result<(), Seq<char>>)
    requires
        o.screen == Screen::List,
        o.busy is None,
        0 <= o.selected < o.rooms.len(),
        o.rooms[o.selected] == r,
    ensures
        key_step(o, Key::Char('s')).0 == o,
        key_step(o, Key::Char('s')).1 matches EffectView::Generate(after)
            && generated_step(o, after, written).1 == EffectView::Spawn(JobView::Deploy(Some("astra-"@ + r.id@))),
{
}

/// Pressing `u` on the list, with Docker available, a room under the cursor
/// and nothing running, writes the files and then updates exactly that
/// room's compose service, `astra-<id>`, and no other.
pub proof fn lemma_update_key_updates_only_the_room(o: AppView, r: RoomDef, written: Result<(), Seq<char>>)
    requires
        o.screen == Screen::List,
        o.busy is None,
        o.docker_ok,
        0 <= o.selected < o.rooms.len(),
        o.rooms[o.selected] == r,
    ensures
        key_step(o, Key::Char('u')).0 == o,
        key_step(o, Key::Char('u')).1 matches EffectView::Generate(after)
            && generated_step(o, after, written).1 == EffectView::Spawn(JobView::Update(Some("astra-"@ + r.id@))),
{
}

/// Only the deploy of every room (`D`) asks for the deploy without a service,
/// and only the update of every room (`U`) for the update without one: the
/// work that follows writing a room's files names that room's service.
pub proof fn lemma_only_all_rooms_work_touches_every_room(o: AppView, after: AfterGenerateView, written: Result<(), Seq<char>>)
    ensures
        generated_step(o, after, written).1 == EffectView::Spawn(JobView::Deploy(None)) ==> after == AfterGenerateView::Deploy,
        generated_step(o, after, written).1 == EffectView::Spawn(JobView::Update(None)) ==> after == AfterGenerateView::UpdateAll,
        after matches AfterGenerateView::Start(r) ==> generated_step(o, after, written).1
            == EffectView::Spawn(JobView::Deploy(Some("astra-"@ + r.id@))),
        after matches AfterGenerateView::Update(r) ==> generated_step(o, after, written).1
            == EffectView::Spawn(JobView::Update(Some("astra-"@ + r.id@))),
{
}

/// Space on the form's switches: on `Allow registration` (position 7) it
/// flips that flag alone, on `Room search` (position 8) it flips that flag
/// alone; every text of the form stays as it was.
pub proof fn lemma_space_flips_only_its_switch(o: AppView)
    requires
        o.screen == Screen::Form,
        o.form is Some,
        o.form->0.focus == 7 || o.form->0.focus == 8,
    ensures
        key_step(o, Key::Char(' ')).0.form is Some,
        ({
            let before = o.form->0;
            let after = key_step(o, Key::Char(' ')).0.form->0;
            &&& before.focus == 7 ==> after.allow_registration == !before.allow_registration
                && after.roomsearch == before.roomsearch
            &&& before.focus == 8 ==> after.roomsearch == !before.roomsearch
                && after.allow_registration == before.allow_registration
            &&& after.id == before.id && after.room_name == before.room_name && after.bot_name == before.bot_name
            &&& after.owner_password == before.owner_password && after.port == before.port
            &&& after.topic == before.topic && after.domain == before.domain && after.focus == before.focus
        }),
        key_step(o, Key::Char(' ')).0.rooms == o.rooms,
{
}

impl App {
    /// A fresh interface on `project`, telling whether Docker can be used.
    pub fn new(project: Project, docker_ok: bool) -> (app: App)
        ensures
            app.project == project,
            app.screen == Screen::List,
            app.selected == 0,
            app.form is None,
            app.status@.len() == 0,
            app.docker_ok == docker_ok,
            app.message@ == if docker_ok {
                "Listo. a: agregar \u{b7} D: deploy \u{b7} s/x: start/stop \u{b7} u: update \u{b7} l: logs \u{b7} ?: ayuda \u{b7} q: salir"@
            } else {
                "\u{26a0} docker no disponible: puedes crear salas y generar archivos, pero no gestionar contenedores."@
            },
            app.logs@.len() == 0,
            app.image_buf@.len() == 0,
            !app.should_quit,
            app.busy is None,
            app.spinner_tick == 0,
    {
        let message = if docker_ok {
            String::from_str("Listo. a: agregar \u{b7} D: deploy \u{b7} s/x: start/stop \u{b7} u: update \u{b7} l: logs \u{b7} ?: ayuda \u{b7} q: salir")
        } else {
            String::from_str("\u{26a0} docker no disponible: puedes crear salas y generar archivos, pero no gestionar contenedores.")
        };
        App {
            project,
            screen: Screen::List,
            selected: 0,
            form: None,
            status: Vec::new(),
            docker_ok,
            message,
            logs: String::new(),
            image_buf: String::new(),
            should_quit: false,
            busy: None,
            spinner_tick: 0,
        }
    }

    /// Reading the services' states: asked for only when Docker is available.
    pub fn refresh_status(&self) -> (eff: Effect)
        ensures
            eff@ == refresh_effect(self.docker_ok),
    {
        if self.docker_ok {
            Effect::RefreshStatus
        } else {
            Effect::Nothing
        }
    }

    /// The room under the cursor.
    pub fn selected_room(&self) -> (res: Option<RoomDef>)
        ensures
            res == selected_of(self@),
    {
        if self.selected < self.project.rooms.len() {
            Some(self.project.rooms[self.selected].clone())
        } else {
            None
        }
    }

    fn start_job(&mut self, op: BusyOp, job: Job) -> (eff: Effect)
        ensures
            (final(self)@, eff@) == started(old(self)@, op@, job@),
    {
        self.message = op.label();
        self.busy = Some(op);
        Effect::Spawn(job)
    }

    fn handle_list_key(&mut self, key: Key) -> (eff: Effect)
        requires
            old(self).selected + old(self).project.rooms@.len() < usize::MAX,
            key == Key::Char('a') ==> exists|q: u16| q >= first_port() && !port_used(old(self).project.rooms@, q as int),
        ensures
            (final(self)@, eff@) == list_key_step(old(self)@, key),
    {
        let len = self.project.rooms.len();
        let idle = self.busy.is_none();
        if key == Key::Char('q') || key == Key::Esc {
            self.should_quit = true;
            Effect::Nothing
        } else if (key == Key::Down || key == Key::Char('j')) && len > 0 {
            self.selected = (self.selected + 1) % len;
            Effect::Nothing
        } else if (key == Key::Up || key == Key::Char('k')) && len > 0 {
            self.selected = (self.selected + len - 1) % len;
            Effect::Nothing
        } else if key == Key::Char('a') {
            let port = self.project.next_free_port();
            proof {
                let l = least_free_port(old(self).project.rooms@);
                assert(port >= first_port() && !port_used(self.project.rooms@, port as int)
                    && forall|q: int| first_port() <= q < port ==> port_used(self.project.rooms@, q));
                assert(l >= first_port() && !port_used(self.project.rooms@, l as int)
                    && forall|q: int| first_port() <= q < l ==> port_used(self.project.rooms@, q));
                if l < port {
                    assert(port_used(self.project.rooms@, l as int));
                } else if port < l {
                    assert(port_used(self.project.rooms@, port as int));
                }
            }
            self.form = Some(FormBuf::new(port));
            self.screen = Screen::Form;
            Effect::Nothing
        } else if key == Key::Char('e') {
            if self.selected < len {
                Effect::ReadConfigs
            } else {
                Effect::Nothing
            }
        } else if key == Key::Char('d') && self.selected < len {
            self.screen = Screen::ConfirmDelete;
            Effect::Nothing
        } else if key == Key::Char('D') {
            if !idle {
                Effect::Nothing
            } else if !self.docker_ok {
                self.message = String::from_str("\u{2717} docker no disponible.");
                Effect::Nothing
            } else {
                Effect::Generate(AfterGenerate::Deploy)
            }
        } else if key == Key::Char('s') {
            if !idle {
                return Effect::Nothing;
            }
            match self.selected_room() {
                Some(r) => Effect::Generate(AfterGenerate::Start(r)),
                None => Effect::Nothing,
            }
        } else if key == Key::Char('x') {
            if !idle {
                return Effect::Nothing;
            }
            match self.selected_room() {
                Some(r) => {
                    let svc = r.service_name();
                    self.start_job(BusyOp::Stop(r.id), Job::Stop(svc))
                },
                None => Effect::Nothing,
            }
        } else if key == Key::Char('u') {
            if !idle {
                Effect::Nothing
            } else if !self.docker_ok {
                self.message = String::from_str("\u{2717} docker no disponible.");
                Effect::Nothing
            } else {
                match self.selected_room() {
                    Some(r) => Effect::Generate(AfterGenerate::Update(r)),
                    None => Effect::Nothing,
                }
            }
        } else if key == Key::Char('U') {
            if !idle {
                Effect::Nothing
            } else if !self.docker_ok {
                self.message = String::from_str("\u{2717} docker no disponible.");
                Effect::Nothing
            } else if len == 0 {
                self.message = String::from_str("No hay salas para actualizar.");
                Effect::Nothing
            } else {
                Effect::Generate(AfterGenerate::UpdateAll)
            }
        } else if key == Key::Char('?') || key == Key::Char('h') {
            self.screen = Screen::Help;
            Effect::Nothing
        } else if key == Key::Char('l') {
            match self.selected_room() {
                Some(r) => Effect::FetchLogs(r.service_name()),
                None => Effect::Nothing,
            }
        } else if key == Key::Char('r') {
            self.message = String::from_str("Estado actualizado.");
            self.refresh_status()
        } else if key == Key::Char('g') {
            Effect::Generate(AfterGenerate::Report)
        } else if key == Key::Char('i') {
            self.image_buf = self.project.image.clone();
            self.screen = Screen::EditImage;
            Effect::Nothing
        } else {
            Effect::Nothing
        }
    }

    fn handle_form_key(&mut self, key: Key) -> (eff: Effect)
        requires
            old(self).form matches Some(f) ==> f.focus < FIELD_COUNT,
            key != Key::Enter,
        ensures
            old(self).form is None ==> final(self)@ == old(self)@ && eff@ == EffectView::Nothing,
            old(self).form is Some ==> (final(self)@, eff@) == form_key_step(old(self)@, key),
    {
        let mut f = match self.form.take() {
            Some(f) => f,
            None => {
                return Effect::Nothing;
            },
        };
        let field = Field::at(f.focus);
        if key == Key::Esc {
            self.screen = Screen::List;
            return Effect::Nothing;
        } else if key == Key::Tab || key == Key::Down {
            f.focus = (f.focus + 1) % FIELD_COUNT;
        } else if key == Key::BackTab || key == Key::Up {
            f.focus = (f.focus + FIELD_COUNT - 1) % FIELD_COUNT;
        } else if key == Key::Char(' ') && field.is_toggle() {
            if field == Field::AllowRegistration {
                f.allow_registration = !f.allow_registration;
            } else {
                f.roomsearch = !f.roomsearch;
            }
        } else {
            match key {
                Key::Char(c) => {
                    if !field.is_toggle() {
                        edit_field(&mut f, field, Some(c));
                    }
                },
                Key::Backspace => {
                    if !field.is_toggle() {
                        edit_field(&mut f, field, None);
                    }
                },
                _ => {},
            }
        }
        self.form = Some(f);
        Effect::Nothing
    }

    fn reject_form(&mut self, mut f: FormBuf, msg: String) -> (eff: Effect)
        requires
            old(self).form is None,
        ensures
            (final(self)@, eff@) == (AppView { form: Some(FormView { error: Some(msg@), ..f@ }), ..old(self)@ }, EffectView::Nothing),
    {
        f.error = Some(msg);
        self.form = Some(f);
        Effect::Nothing
    }

    fn submit_form(&mut self) -> (eff: Effect)
        requires
            old(self).form is Some,
        ensures
            ({
                let f = old(self)@.form->0;
                match submit_error(f, old(self)@.rooms) {
                    Some(msg) => (final(self)@, eff@) == form_error(old(self)@, f, msg),
                    None => exists|room: RoomDef|
                        room_of_form(room, f) && (final(self)@, eff@) == submit_success(old(self)@, room),
                }
            }),
    {
        let f = match self.form.take() {
            Some(f) => f,
            None => {
                return Effect::Nothing;
            },
        };
        let id = slugify(f.id.as_str());
        let port = match parse_u16(trim(f.port.as_str())) {
            Some(p) => p,
            None => {
                return self.reject_form(f, owned("Puerto inv\u{e1}lido (usa 1024\u{2013}65535)."));
            },
        };
        if port < 1024 {
            return self.reject_form(f, owned("Puerto inv\u{e1}lido (usa 1024\u{2013}65535)."));
        }
        let editing = f.editing_existing;
        if !editing && self.project.has_id(id.as_str()) {
            let msg = quoted_message("Ya existe una sala con id '", id.as_str(), "'.");
            return self.reject_form(f, msg);
        }
        let port_busy = if editing {
            self.project.port_in_use(port, Some(f.orig_id.as_str()))
        } else {
            self.project.port_in_use(port, None)
        };
        if port_busy {
            let mut msg = String::from_str("El puerto ");
            push_decimal(&mut msg, port as u32);
            push_str(&mut msg, " ya est\u{e1} en uso por otra sala.");
            return self.reject_form(f, msg);
        }
        // Optional; normalized, and unique among rooms: each site of the
        // reverse proxy serves a single room.
        let no_scheme = trim_start_matches(trim(f.domain.as_str()), "https://");
        let no_scheme = trim_start_matches(no_scheme.as_str(), "http://");
        let no_slash = trim_end_matches_char(no_scheme.as_str(), '/');
        let domain = to_ascii_lowercase(no_slash.as_str());
        if !domain.as_str().is_empty() && (contains_char(domain.as_str(), ' ') || !contains_char(domain.as_str(), '.')) {
            return self.reject_form(f, owned("Dominio inv\u{e1}lido (ej: chat.midominio.com)."));
        }
        let domain_busy = if editing {
            self.project.domain_in_use(domain.as_str(), Some(f.orig_id.as_str()))
        } else {
            self.project.domain_in_use(domain.as_str(), None)
        };
        if domain_busy {
            let msg = quoted_message("El dominio '", domain.as_str(), "' ya est\u{e1} en uso por otra sala.");
            return self.reject_form(f, msg);
        }
        let room = RoomDef {
            id: id.clone(),
            room_name: owned(trim(f.room_name.as_str())),
            bot_name: owned(trim(f.bot_name.as_str())),
            owner_password: f.owner_password.clone(),
            port,
            topic: owned(trim(f.topic.as_str())),
            domain,
            allow_registration: f.allow_registration,
            roomsearch: f.roomsearch,
        };
        let ghost rv = room;
        proof {
            assert(room_of_form(rv, old(self)@.form->0));
        }
        // A renamed room leaves its old id behind.
        if editing && !str_eq(f.orig_id.as_str(), id.as_str()) {
            self.project.remove(f.orig_id.as_str());
        }
        self.project.upsert(room);
        self.screen = Screen::List;
        let len = self.project.rooms.len();
        if self.selected >= len && len > 0 {
            self.selected = len - 1;
        }
        let eff = Effect::Generate(AfterGenerate::RoomSaved(id));
        proof {
            assert((self@, eff@) == submit_success(old(self)@, rv));
        }
        eff
    }

    fn handle_image_key(&mut self, key: Key) -> (eff: Effect)
        ensures
            (final(self)@, eff@) == image_key_step(old(self)@, key),
    {
        if key == Key::Esc {
            self.screen = Screen::List;
            Effect::Nothing
        } else if key == Key::Enter {
            let img = trim(self.image_buf.as_str());
            if img.is_empty() {
                self.message = owned("La imagen no puede estar vac\u{ed}a.");
                return Effect::Nothing;
            }
            self.project.image = owned(img);
            self.screen = Screen::List;
            Effect::Generate(AfterGenerate::ImageSaved)
        } else {
            match key {
                Key::Char(c) => push_char(&mut self.image_buf, c),
                Key::Backspace => {
                    pop_char(&mut self.image_buf);
                },
                _ => {},
            }
            Effect::Nothing
        }
    }

    fn handle_confirm_key(&mut self, key: Key) -> (eff: Effect)
        ensures
            (final(self)@, eff@) == confirm_key_step(old(self)@, key),
    {
        self.screen = Screen::List;
        if key == Key::Char('y') || key == Key::Enter {
            if self.busy.is_some() {
                self.message = owned("\u{2717} Hay una operaci\u{f3}n en curso; espera a que termine.");
                return Effect::Nothing;
            }
            match self.selected_room() {
                Some(r) => {
                    self.project.remove(r.id.as_str());
                    if self.selected > 0 && self.selected >= self.project.rooms.len() {
                        self.selected = self.selected - 1;
                    }
                    Effect::Generate(AfterGenerate::Destroy(r))
                },
                None => Effect::Nothing,
            }
        } else {
            Effect::Nothing
        }
    }

    /// What a key does, on whichever screen is shown.
    pub fn handle_key(&mut self, key: Key) -> (eff: Effect)
        requires
            old(self).selected + old(self).project.rooms@.len() < usize::MAX,
            old(self).screen == Screen::List && key == Key::Char('a') ==> exists|q: u16|
                q >= first_port() && !port_used(old(self).project.rooms@, q as int),
            old(self).screen == Screen::Form ==> (old(self).form matches Some(f) ==> f.focus < FIELD_COUNT),
        ensures
            !(old(self).screen == Screen::Form && key == Key::Enter && old(self).form is Some)
                ==> (final(self)@, eff@) == key_step(old(self)@, key),
            old(self).screen == Screen::Form && key == Key::Enter && old(self).form is Some ==> ({
                let f = old(self)@.form->0;
                match submit_error(f, old(self)@.rooms) {
                    Some(msg) => (final(self)@, eff@) == form_error(old(self)@, f, msg),
                    None => exists|room: RoomDef|
                        room_of_form(room, f) && (final(self)@, eff@) == submit_success(old(self)@, room),
                }
            }),
    {
        match self.screen {
            Screen::List => self.handle_list_key(key),
            Screen::Form => {
                if key == Key::Enter {
                    if self.form.is_some() {
                        self.submit_form()
                    } else {
                        Effect::Nothing
                    }
                } else {
                    self.handle_form_key(key)
                }
            },
            Screen::Logs => {
                if key == Key::Esc || key == Key::Char('q') {
                    self.screen = Screen::List;
                }
                Effect::Nothing
            },
            Screen::ConfirmDelete => self.handle_confirm_key(key),
            Screen::EditImage => self.handle_image_key(key),
            Screen::Help => {
                // Any key closes the help.
                self.screen = Screen::List;
                Effect::Nothing
            },
        }
    }

    /// Continues once the project's files have been written (`result` tells
    /// how writing went).
    pub fn generated(&mut self, after: AfterGenerate, result: Result<(), String>) -> (eff: Effect)
        ensures
            (final(self)@, eff@) == generated_step(old(self)@, after@, result_view(result)),
    {
        match after {
            AfterGenerate::Deploy => match result {
                Err(e) => {
                    self.message = prefixed_message("\u{2717} Error generando: ", e.as_str());
                    proof {
                        assert(self.message@ =~= "\u{2717} Error generando: "@ + e@);
                    }
                    Effect::Nothing
                },
                Ok(_) => self.start_job(BusyOp::Deploy, Job::Deploy(None)),
            },
            AfterGenerate::Start(r) => {
                let svc = r.service_name();
                self.start_job(BusyOp::Start(r.id), Job::Deploy(Some(svc)))
            },
            AfterGenerate::Update(r) => {
                let svc = r.service_name();
                self.start_job(BusyOp::Update(r.id), Job::Update(Some(svc)))
            },
            AfterGenerate::UpdateAll => self.start_job(BusyOp::UpdateAll, Job::Update(None)),
            AfterGenerate::Report => {
                match result {
                    Ok(_) => {
                        self.message = owned("\u{2713} Archivos generados (astra.toml + docker-compose.yml).");
                    },
                    Err(e) => {
                        self.message = prefixed_message("\u{2717} Error: ", e.as_str());
                        proof {
                            assert(self.message@ =~= "\u{2717} Error: "@ + e@);
                        }
                    },
                }
                Effect::Nothing
            },
            AfterGenerate::ImageSaved => {
                match result {
                    Ok(_) => {
                        self.message = prefixed_message("\u{2713} Imagen actualizada: ", self.project.image.as_str());
                        proof {
                            assert(self.message@ =~= "\u{2713} Imagen actualizada: "@ + self.project.image@);
                        }
                    },
                    Err(e) => {
                        self.message = prefixed_message("\u{2717} Error: ", e.as_str());
                        proof {
                            assert(self.message@ =~= "\u{2717} Error: "@ + e@);
                        }
                    },
                }
                Effect::Nothing
            },
            AfterGenerate::RoomSaved(id) => {
                match result {
                    Ok(_) => {
                        self.message = quoted_message("\u{2713} Sala '", id.as_str(), "' guardada y archivos regenerados.");
                    },
                    Err(e) => {
                        self.message = prefixed_message("\u{2717} Error al escribir archivos: ", e.as_str());
                        proof {
                            assert(self.message@ =~= "\u{2717} Error al escribir archivos: "@ + e@);
                        }
                    },
                }
                Effect::Nothing
            },
            AfterGenerate::Destroy(r) => {
                let svc = r.service_name();
                let docker_ok = self.docker_ok;
                let id = r.id.clone();
                self.start_job(BusyOp::Destroy(r.id), Job::Destroy { service: svc, id, docker_ok })
            },
        }
    }

    /// Continues once the background job has ended with `result`.
    pub fn job_done(&mut self, result: Result<(), String>) -> (eff: Effect)
        ensures
            (final(self)@, eff@) == job_done_step(old(self)@, result_view(result)),
    {
        match result {
            Ok(_) => {
                self.message = match self.busy.take() {
                    Some(op) => op.success(),
                    None => String::new(),
                };
            },
            Err(e) => {
                self.busy = None;
                self.message = prefixed_message("\u{2717} ", e.as_str());
                proof {
                    assert(self.message@ =~= "\u{2717} "@ + e@);
                }
            },
        }
        self.refresh_status()
    }

    /// Shows the logs that were read, or why they could not be.
    pub fn logs_fetched(&mut self, result: Result<String, String>)
        ensures
            final(self)@ == (AppView {
                logs: match result {
                    Ok(l) => l@,
                    Err(e) => "(sin logs: "@ + e@ + ")"@,
                },
                screen: Screen::Logs,
                ..old(self)@
            }),
    {
        self.logs = match result {
            Ok(l) => l,
            Err(e) => quoted_message("(sin logs: ", e.as_str(), ")"),
        };
        self.screen = Screen::Logs;
    }

    /// Continues the edit key once every room's `astra.toml` has been read
    /// (`texts[i]` for room `i`, `None` where it could not be read): the
    /// rooms are refreshed from the files, so that what the admin panel
    /// changed shows, and the form of the room under the cursor opens.
    pub fn configs_read(&mut self, texts: &Vec<Option<String>>)
        requires
            texts@.len() == old(self).project.rooms@.len(),
        ensures
            crate::reconcile::rooms_synced(
                old(self).project.rooms@,
                final(self).project.rooms@,
                texts@.map_values(|t: Option<String>| crate::json::opt_str_view(t)),
                None,
            ),
            final(self)@ == configs_read_step(old(self)@, final(self).project.rooms@),
    {
        crate::reconcile::sync_rooms_from_texts(&mut self.project, texts, None);
        if self.selected < self.project.rooms.len() {
            let r = self.project.rooms[self.selected].clone();
            self.form = Some(FormBuf::from_room(&r));
            self.screen = Screen::Form;
        }
    }

    /// A tick without any key: the spinner advances while an operation runs.
    pub fn tick(&mut self)
        ensures
            final(self)@ == (if old(self).busy is Some {
                (AppView { spinner_tick: (old(self).spinner_tick + 1) % 256, ..old(self)@ })
            } else {
                old(self)@
            }),
    {
        if self.busy.is_some() {
            self.spinner_tick = self.spinner_tick.wrapping_add(1);
        }
    }

    /// The state of `room`'s service as last read, or a dash when unknown.
    pub fn state_of(&self, room: &RoomDef) -> (res: String)
        ensures
            res@ == state_of_spec(self@.status, *room),
    {
        let svc = room.service_name();
        let ghost sv = self@.status;
        proof {
            assert(sv.skip(0) =~= sv);
        }
        let mut i: usize = 0;
        while i < self.status.len()
            invariant
                i <= self.status@.len(),
                sv == crate::docker::statuses_view(self.status@),
                sv.len() == self.status@.len(),
                svc@ == service_name_of(room.id@),
                state_of_spec(sv, *room) == state_of_spec(sv.skip(i as int), *room),
            decreases self.status@.len() - i,
        {
            proof {
                assert(sv.skip(i as int)[0] == sv[i as int]);
                assert(sv[i as int] == crate::docker::status_view(self.status@[i as int]));
                assert(sv.skip(i as int).drop_first() =~= sv.skip(i + 1));
            }
            if str_eq(self.status[i].service.as_str(), svc.as_str()) {
                return self.status[i].state.clone();
            }
            i = i + 1;
        }
        proof {
            assert(sv.skip(i as int).len() == 0);
        }
        owned("\u{2014}")
    }

}

} // verus!
