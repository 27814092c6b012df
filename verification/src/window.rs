//! What the window holds and shows: the log, the status, the connection and the
//! peers found, and what it asks of the network layer.

use crate::net;
use crate::net::{FromNet, Notice, ToNet};
use crate::peers;
use crate::peers::Peers;
use crate::size;
use crate::text;
use std::path::PathBuf;
use vstd::prelude::*;
use vstd::string::*;

verus! {

/// `<PathBuf as Clone>::clone` of the standard library: the copy is equal.
pub assume_specification[ <PathBuf as Clone>::clone ](path: &PathBuf) -> (copy: PathBuf)
    ensures
        copy == *path,
;

/// The kinds of lines in the log.
#[derive(Clone, Copy, PartialEq, Eq, Debug, Structural)]
pub enum Kind {
    Me,
    Peer,
    System,
    Error,
    FileIn,
    FileOut,
}

/// What a line of each kind is marked with.
pub open spec fn tag_text(kind: Kind) -> Seq<char> {
    match kind {
        Kind::Me => "Я"@,
        Kind::Peer => "Собеседник"@,
        Kind::System => "Система"@,
        Kind::Error => "Ошибка"@,
        Kind::FileIn => "Файл ↓"@,
        Kind::FileOut => "Файл ↑"@,
    }
}

impl Kind {
    /// What a line of this kind is marked with.
    pub fn tag(self) -> (s: &'static str)
        ensures
            s@ == tag_text(self),
    {
        match self {
            Kind::Me => "Я",
            Kind::Peer => "Собеседник",
            Kind::System => "Система",
            Kind::Error => "Ошибка",
            Kind::FileIn => "Файл ↓",
            Kind::FileOut => "Файл ↑",
        }
    }

    /// The red, green and blue of the mark; none where it is grey.
    pub fn color(self) -> (rgb: Option<(u8, u8, u8)>)
        ensures
            rgb == (match self {
                Kind::Me => Some((90u8, 170u8, 255u8)),
                Kind::Peer => Some((120u8, 220u8, 120u8)),
                Kind::System => None,
                Kind::Error => Some((240u8, 120u8, 120u8)),
                Kind::FileIn => Some((230u8, 190u8, 90u8)),
                Kind::FileOut => Some((230u8, 190u8, 90u8)),
            }),
    {
        match self {
            Kind::Me => Some((90, 170, 255)),
            Kind::Peer => Some((120, 220, 120)),
            Kind::System => None,
            Kind::Error => Some((240, 120, 120)),
            Kind::FileIn => Some((230, 190, 90)),
            Kind::FileOut => Some((230, 190, 90)),
        }
    }

    /// Whether a line of this kind can be copied: what the two sides wrote.
    pub fn copies(self) -> (b: bool)
        ensures
            b == (self == Kind::Me || self == Kind::Peer),
    {
        match self {
            Kind::Me => true,
            Kind::Peer => true,
            _ => false,
        }
    }
}

/// A line of the log.
pub struct Entry {
    pub kind: Kind,
    pub text: String,
    pub path: Option<PathBuf>,
}

/// `Entry`, with the string as a sequence.
pub struct Line {
    pub kind: Kind,
    pub text: Seq<char>,
    pub path: Option<PathBuf>,
}

impl View for Entry {
    type V = Line;

    open spec fn view(&self) -> Line {
        Line { kind: self.kind, text: self.text@, path: self.path }
    }
}

impl Entry {
    /// The mark of the line, in brackets.
    pub fn heading(&self) -> (s: String)
        ensures
            s@ == "["@ + tag_text(self@.kind) + "]"@,
    {
        let mut s = text::join("[", self.kind.tag());
        s.append("]");
        s
    }

    /// The file that the line offers to open: a received one.
    pub fn opens(&self) -> (path: Option<PathBuf>)
        ensures
            path == (if self@.kind == Kind::FileIn {
                self@.path
            } else {
                None
            }),
    {
        match self.kind {
            Kind::FileIn => match &self.path {
                Some(path) => Some(path.clone()),
                None => None,
            },
            _ => None,
        }
    }
}

/// What the button of a found peer says.
pub fn peer_label(ip: &str, name: &str) -> (s: String)
    ensures
        s@ == "🖧 "@ + name@ + " ("@ + ip@ + ")"@,
{
    let mut s = text::join("🖧 ", name);
    s.append(" (");
    s.append(ip);
    s.append(")");
    s
}

/// The font to try after `tried` others: fonts with Cyrillic letters, as Fedora,
/// Debian and Windows have them.
pub fn font_candidate(tried: usize) -> (path: Option<&'static str>)
    ensures
        match path {
            Some(p) => tried < 6 && p@ == font_path(tried as nat),
            None => tried >= 6,
        },
{
    match tried {
        0 => Some("/usr/share/fonts/dejavu-sans-fonts/DejaVuSans.ttf"),
        1 => Some("/usr/share/fonts/dejavu/DejaVuSans.ttf"),
        2 => Some("/usr/share/fonts/truetype/dejavu/DejaVuSans.ttf"),
        3 => Some("/usr/share/fonts/liberation-sans/LiberationSans-Regular.ttf"),
        4 => Some("C:\\Windows\\Fonts\\segoeui.ttf"),
        5 => Some("C:\\Windows\\Fonts\\arial.ttf"),
        _ => None,
    }
}

/// The fonts in the order in which they are tried.
pub open spec fn font_path(i: nat) -> Seq<char> {
    if i == 0 {
        "/usr/share/fonts/dejavu-sans-fonts/DejaVuSans.ttf"@
    } else if i == 1 {
        "/usr/share/fonts/dejavu/DejaVuSans.ttf"@
    } else if i == 2 {
        "/usr/share/fonts/truetype/dejavu/DejaVuSans.ttf"@
    } else if i == 3 {
        "/usr/share/fonts/liberation-sans/LiberationSans-Regular.ttf"@
    } else if i == 4 {
        "C:\\Windows\\Fonts\\segoeui.ttf"@
    } else {
        "C:\\Windows\\Fonts\\arial.ttf"@
    }
}

/// What the window holds.
pub struct App {
    /// The address that the user types.
    pub peer_ip: String,
    /// The text that the user types.
    pub input: String,
    pub log: Vec<Entry>,
    pub status: String,
    /// The other end of the connection.
    pub connected: Option<String>,
    pub local_ips: Vec<String>,
    /// The passphrase that the user types.
    pub passphrase: String,
    /// The passphrase that was handed on last.
    pub last_psk: String,
    pub peers: Peers,
}

/// `App`, with strings and vectors as sequences and the peers as a map.
#[verifier::ext_equal]
pub struct Model {
    pub peer_ip: Seq<char>,
    pub input: Seq<char>,
    pub log: Seq<Line>,
    pub status: Seq<char>,
    pub connected: Option<Seq<char>>,
    pub local_ips: Seq<Seq<char>>,
    pub passphrase: Seq<char>,
    pub last_psk: Seq<char>,
    pub peers: Map<Seq<char>, peers::Sighting>,
}

/// An optional string as an optional sequence.
pub open spec fn maybe(s: Option<String>) -> Option<Seq<char>> {
    match s {
        Some(t) => Some(t@),
        None => None,
    }
}

/// Entries as lines.
pub open spec fn lines(log: Seq<Entry>) -> Seq<Line> {
    log.map_values(|e: Entry| e@)
}

impl View for App {
    type V = Model;

    open spec fn view(&self) -> Model {
        Model {
            peer_ip: self.peer_ip@,
            input: self.input@,
            log: lines(self.log@),
            status: self.status@,
            connected: maybe(self.connected),
            local_ips: text::views(self.local_ips@),
            passphrase: self.passphrase@,
            last_psk: self.last_psk@,
            peers: self.peers@,
        }
    }
}

/// A model with one more line in the log.
pub open spec fn logged(m: Model, kind: Kind, text: Seq<char>, path: Option<PathBuf>) -> Model {
    Model { log: m.log.push(Line { kind, text, path }), ..m }
}

/// A model in which the absence of a connection has been complained of.
pub open spec fn refused(m: Model) -> Model {
    logged(m, Kind::Error, "Нет соединения — сначала подключитесь"@, None)
}

/// The text that is sent: what was typed, without the line ends at its end.
pub open spec fn typed(m: Model) -> Seq<char> {
    text::without_end(m.input, text::line_end())
}

/// What the window holds once the user has asked to send the text.
pub open spec fn after_send(m: Model) -> Model {
    if typed(m).len() == 0 {
        m
    } else if m.connected is None {
        refused(m)
    } else {
        Model { input: Seq::empty(), ..logged(m, Kind::Me, typed(m), None) }
    }
}

/// What the window holds after an event from the network layer at `now`.
pub open spec fn after_event(m: Model, event: Notice, now: u128) -> Model {
    match event {
        Notice::Status(s) => Model { status: s, ..m },
        Notice::Connected(peer) => Model {
            connected: Some(peer),
            status: "Соединено с "@ + peer,
            ..logged(m, Kind::System, "Соединение установлено: "@ + peer, None)
        },
        Notice::Disconnected => {
            let n = if m.connected is Some {
                logged(m, Kind::System, "Соединение разорвано"@, None)
            } else {
                m
            };
            Model { connected: None, status: net::waiting_text(), ..n }
        },
        Notice::Text(t) => logged(m, Kind::Peer, t, None),
        Notice::File { name, path, size } => logged(
            m,
            Kind::FileIn,
            "Получен файл: "@ + name + " ("@ + size::size_text(size as nat) + ")"@,
            Some(path),
        ),
        Notice::Discovered { name, ip } => Model {
            peers: m.peers.insert(ip, peers::Sighting { name, seen: now }),
            ..m
        },
        Notice::Error(e) => Model { status: e, ..logged(m, Kind::Error, e, None) },
    }
}

impl App {
    /// The window at the start.
    pub fn new(local_ips: Vec<String>) -> (app: Self)
        ensures
            app@ == (Model {
                peer_ip: Seq::empty(),
                input: Seq::empty(),
                log: Seq::empty(),
                status: "Запуск…"@,
                connected: None,
                local_ips: text::views(local_ips@),
                passphrase: Seq::empty(),
                last_psk: Seq::empty(),
                peers: Map::empty(),
            }),
    {
        let app = App {
            peer_ip: String::new(),
            input: String::new(),
            log: Vec::new(),
            status: String::from_str("Запуск…"),
            connected: None,
            local_ips,
            passphrase: String::new(),
            last_psk: String::new(),
            peers: Peers::new(),
        };
        assert(lines(app.log@) =~= Seq::empty());
        app
    }

    /// Adds a line to the log.
    pub fn push(&mut self, kind: Kind, text: String, path: Option<PathBuf>)
        ensures
            final(self)@ == logged(old(self)@, kind, text@, path),
    {
        let ghost before = self.log@;
        let entry = Entry { kind, text, path };
        self.log.push(entry);
        assert(lines(self.log@) =~= lines(before).push(entry@));
    }

    /// Complains of the absence of a connection.
    fn refuse(&mut self)
        ensures
            final(self)@ == refused(old(self)@),
    {
        self.push(Kind::Error, String::from_str("Нет соединения — сначала подключитесь"), None);
    }

    /// The user asks to send the text: what the network layer is to do, where
    /// there is a text and a connection.
    pub fn send_text<S>(&mut self) -> (request: Option<ToNet<S>>)
        ensures
            final(self)@ == after_send(old(self)@),
            match request {
                Some(ToNet::SendText(t)) => t@ == typed(old(self)@) && t@.len() > 0 && old(
                    self,
                )@.connected is Some,
                None => typed(old(self)@).len() == 0 || old(self)@.connected is None,
                _ => false,
            },
    {
        let text = text::trim_line_ends(self.input.as_str());
        if text.as_str().is_empty() {
            return None;
        }
        if self.connected.is_none() {
            self.refuse();
            return None;
        }
        self.push(Kind::Me, text.clone(), None);
        self.input = String::new();
        Some(ToNet::SendText(text))
    }

    /// The user asks to send a file: whether there is a connection to send it
    /// over.
    pub fn ask_for_file(&mut self) -> (ask: bool)
        ensures
            ask == (old(self)@.connected is Some),
            final(self)@ == (if ask {
                old(self)@
            } else {
                refused(old(self)@)
            }),
    {
        if self.connected.is_none() {
            self.refuse();
            false
        } else {
            true
        }
    }

    /// The user has picked a file, with the name in its path where it has one:
    /// what the network layer is to do.
    pub fn send_picked_file<S>(&mut self, path: PathBuf, name: Option<String>) -> (request: ToNet<S>)
        ensures
            request == ToNet::<S>::SendFile(path),
            final(self)@ == logged(
                old(self)@,
                Kind::FileOut,
                "Отправка файла: "@ + (match name {
                    Some(n) => n@,
                    None => Seq::empty(),
                }),
                Some(path),
            ),
    {
        let shown = match name {
            Some(n) => n,
            None => String::new(),
        };
        self.push(Kind::FileOut, text::join("Отправка файла: ", shown.as_str()), Some(path.clone()));
        ToNet::SendFile(path)
    }

    /// Takes in an event from the network layer at `now`, in nanoseconds since
    /// the start.
    pub fn on_event(&mut self, event: FromNet, now: u128)
        ensures
            final(self)@ == after_event(old(self)@, event@, now),
    {
        match event {
            FromNet::Status(s) => {
                self.status = s;
            },
            FromNet::Connected(peer) => {
                self.status = text::join("Соединено с ", peer.as_str());
                self.push(
                    Kind::System,
                    text::join("Соединение установлено: ", peer.as_str()),
                    None,
                );
                self.connected = Some(peer);
            },
            FromNet::Disconnected => {
                if self.connected.is_some() {
                    self.connected = None;
                    self.push(Kind::System, String::from_str("Соединение разорвано"), None);
                }
                self.status = net::waiting();
            },
            FromNet::Text(t) => {
                self.push(Kind::Peer, t, None);
            },
            FromNet::File { name, path, size } => {
                let mut s = text::join("Получен файл: ", name.as_str());
                s.append(" (");
                s.append(size::human_size(size).as_str());
                s.append(")");
                self.push(Kind::FileIn, s, Some(path));
            },
            FromNet::Discovered { name, ip } => {
                self.peers.insert(ip, name, now);
            },
            FromNet::Error(e) => {
                self.push(Kind::Error, e.clone(), None);
                self.status = e;
            },
        }
    }

    /// Forgets the peers that have been silent for too long.
    pub fn expire_peers(&mut self, now: u128)
        ensures
            final(self)@ == (Model { peers: peers::alive(old(self)@.peers, now), ..old(self)@ }),
    {
        self.peers.expire(now);
    }

    /// The passphrase, where it is not the one that was handed on last.
    pub fn changed_passphrase(&mut self) -> (changed: Option<String>)
        ensures
            final(self)@ == (Model { last_psk: old(self)@.passphrase, ..old(self)@ }),
            match changed {
                Some(p) => p@ == old(self)@.passphrase && p@ != old(self)@.last_psk,
                None => old(self)@.passphrase == old(self)@.last_psk,
            },
    {
        if self.passphrase == self.last_psk {
            None
        } else {
            self.last_psk = self.passphrase.clone();
            Some(self.passphrase.clone())
        }
    }

    /// The user asks to connect: what the network layer is to do, where an
    /// address has been typed.
    pub fn connect<S>(&self) -> (request: Option<ToNet<S>>)
        ensures
            match request {
                Some(ToNet::Connect(ip)) => ip@ == text::trimmed(self@.peer_ip) && ip@.len() > 0,
                None => text::trimmed(self@.peer_ip).len() == 0,
                _ => false,
            },
    {
        let ip = text::trim(self.peer_ip.as_str());
        if ip.as_str().is_empty() {
            None
        } else {
            Some(ToNet::Connect(ip))
        }
    }

    /// The status, after a mark that tells whether there is a connection.
    pub fn status_line(&self) -> (s: String)
        ensures
            s@ == (if self@.connected is Some {
                "🟢"@
            } else {
                "⚪"@
            }) + " "@ + self@.status,
    {
        let mut s = text::join(
            if self.connected.is_some() {
                "🟢"
            } else {
                "⚪"
            },
            " ",
        );
        s.append(self.status.as_str());
        s
    }

    /// The addresses of this machine and the port, where any are known.
    pub fn addresses_line(&self) -> (s: Option<String>)
        ensures
            match s {
                Some(t) => self@.local_ips.len() > 0 && t@ == text::joined(self@.local_ips, ", "@)
                    + "  (порт "@ + text::decimal(net::PORT as nat) + ")"@,
                None => self@.local_ips.len() == 0,
            },
    {
        if self.local_ips.is_empty() {
            return None;
        }
        let mut s = text::join_all(&self.local_ips, ", ");
        s.append("  (порт ");
        s.append(text::to_decimal(net::PORT as u64).as_str());
        s.append(")");
        Some(s)
    }
}

/// Nothing leaves the log: an event adds at most one line, at its end.
pub proof fn log_only_grows(m: Model, event: Notice, now: u128)
    ensures
        m.log.is_prefix_of(after_event(m, event, now).log),
        after_event(m, event, now).log.len() <= m.log.len() + 1,
{
}

/// An event changes nothing that the user types, and no address of this machine.
pub proof fn events_leave_what_is_typed(m: Model, event: Notice, now: u128)
    ensures
        ({
            let n = after_event(m, event, now);
            &&& n.peer_ip == m.peer_ip
            &&& n.input == m.input
            &&& n.passphrase == m.passphrase
            &&& n.last_psk == m.last_psk
            &&& n.local_ips == m.local_ips
        }),
{
}

/// Only the events of a connection that comes or goes change who is connected.
pub proof fn connection_follows_the_events(m: Model, event: Notice, now: u128)
    ensures
        after_event(m, event, now).connected == (match event {
            Notice::Connected(peer) => Some(peer),
            Notice::Disconnected => None,
            _ => m.connected,
        }),
{
}

/// The end of a connection is logged once, however often it is reported.
pub proof fn end_is_logged_once(m: Model, now: u128, later: u128)
    ensures
        after_event(after_event(m, Notice::Disconnected, now), Notice::Disconnected, later)
            == after_event(m, Notice::Disconnected, now),
{
}

/// A text that could not be sent stays typed, and one that was sent is in the
/// log as it was sent.
pub proof fn unsent_text_is_kept(m: Model)
    ensures
        m.connected is None ==> after_send(m).input == m.input,
        m.connected is Some && typed(m).len() > 0 ==> after_send(m).input.len() == 0 && after_send(
            m,
        ).log == m.log.push(Line { kind: Kind::Me, text: typed(m), path: None }),
{
}

/// A text that is sent does not end in a line end.
pub proof fn sent_text_has_no_line_end(m: Model)
    requires
        typed(m).len() > 0,
    ensures
        typed(m).last() != '\n' && typed(m).last() != '\r',
        typed(m).is_prefix_of(m.input),
{
    let n = text::without_end_is_prefix(m.input, text::line_end());
}

} // verus!
