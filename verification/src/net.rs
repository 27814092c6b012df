//! The network layer: one active connection to a peer, the commands that the
//! window gives and the events that it is told.
//!
//! `Manager::step` decides; the program performs the actions in their order and
//! hands back what came of them. Streams are of any type `S`.

use crate::frame;
use crate::message::{file_frame, text_frame, Arrival, Received};
use crate::message;
use crate::names;
use crate::size;
use crate::text;
use std::path::PathBuf;
use vstd::prelude::*;
use vstd::string::*;
use vstd::utf8::*;

verus! {

/// `std::path::PathBuf`, which is only carried through.
#[verifier::external_type_specification]
#[verifier::external_body]
pub struct ExPathBuf(PathBuf);

/// The port that both sides listen on.
pub const PORT: u16 = 9009;

/// Commands to the network layer, and the connections that come in.
pub enum ToNet<S> {
    /// A connection that a peer opened.
    Inbound(S),
    /// Connect to an address ("ip" or "ip:port").
    Connect(String),
    SendText(String),
    SendFile(PathBuf),
    Disconnect,
}

/// Events from the network layer to the window.
pub enum FromNet {
    Status(String),
    Connected(String),
    Disconnected,
    Text(String),
    File { name: String, path: PathBuf, size: u64 },
    /// A peer has announced itself on the network.
    Discovered { name: String, ip: String },
    Error(String),
}

/// `FromNet`, with the strings as sequences.
pub enum Notice {
    Status(Seq<char>),
    Connected(Seq<char>),
    Disconnected,
    Text(Seq<char>),
    File { name: Seq<char>, path: PathBuf, size: u64 },
    Discovered { name: Seq<char>, ip: Seq<char> },
    Error(Seq<char>),
}

impl View for FromNet {
    type V = Notice;

    open spec fn view(&self) -> Notice {
        match self {
            FromNet::Status(s) => Notice::Status(s@),
            FromNet::Connected(s) => Notice::Connected(s@),
            FromNet::Disconnected => Notice::Disconnected,
            FromNet::Text(s) => Notice::Text(s@),
            FromNet::File { name, path, size } => Notice::File {
                name: name@,
                path: *path,
                size: *size,
            },
            FromNet::Discovered { name, ip } => Notice::Discovered { name: name@, ip: ip@ },
            FromNet::Error(s) => Notice::Error(s@),
        }
    }
}

/// What a frame was written for.
pub enum Sent {
    Text,
    File { name: String, size: u64 },
}

/// `Sent`, with the string as a sequence.
pub enum Parcel {
    Text,
    File { name: Seq<char>, size: u64 },
}

impl View for Sent {
    type V = Parcel;

    open spec fn view(&self) -> Parcel {
        match self {
            Sent::Text => Parcel::Text,
            Sent::File { name, size } => Parcel::File { name: name@, size: *size },
        }
    }
}

/// What the manager is told: a command, or what came of an action.
pub enum Event<S> {
    Command(ToNet<S>),
    /// What came of `Action::Dial`.
    Dialed(Result<S, String>),
    /// What came of `Action::Prepare`: the stream, the address of its other end
    /// where that is known, and a second handle to read from.
    Prepared { stream: S, peer: Option<String>, read_half: Result<S, String> },
    /// What came of `Action::ReadFile`: the name in the path, where it has one,
    /// and the contents.
    FileRead { name: Option<String>, data: Result<Vec<u8>, String> },
    /// What came of `Action::Write`.
    Written { sent: Sent, result: Result<(), String> },
}

/// What the manager wants done.
pub enum Action<S> {
    /// Hand an event to the window.
    Tell(FromNet),
    /// Shut a connection down, both ways.
    Shutdown(S),
    /// Find out the other end of a stream and make a second handle of it.
    Prepare(S),
    /// Open a connection to an address.
    Dial(String),
    /// Start to read frames from a stream.
    StartReader(S),
    /// Read a file.
    ReadFile(PathBuf),
    /// Write a frame to the active connection.
    Write { frame: Vec<u8>, sent: Sent },
}

/// `Action`, with strings and vectors as sequences.
pub enum Effect<S> {
    Tell(Notice),
    Shutdown(S),
    Prepare(S),
    Dial(Seq<char>),
    StartReader(S),
    ReadFile(PathBuf),
    Write { frame: Seq<u8>, sent: Parcel },
}

impl<S> View for Action<S> {
    type V = Effect<S>;

    open spec fn view(&self) -> Effect<S> {
        match self {
            Action::Tell(event) => Effect::Tell(event@),
            Action::Shutdown(s) => Effect::Shutdown(*s),
            Action::Prepare(s) => Effect::Prepare(*s),
            Action::Dial(addr) => Effect::Dial(addr@),
            Action::StartReader(s) => Effect::StartReader(*s),
            Action::ReadFile(path) => Effect::ReadFile(*path),
            Action::Write { frame, sent } => Effect::Write { frame: frame@, sent: sent@ },
        }
    }
}

/// Actions as effects.
pub open spec fn effects<S>(actions: Seq<Action<S>>) -> Seq<Effect<S>> {
    actions.map_values(|a: Action<S>| a@)
}

/// An address with a port: its own, or the port that every side listens on.
pub open spec fn full_address(addr: Seq<char>) -> Seq<char> {
    if addr.contains(':') {
        addr
    } else {
        addr + ":"@ + text::decimal(PORT as nat)
    }
}

/// The status of one who waits for a connection.
pub open spec fn waiting_text() -> Seq<char> {
    "Ожидаю подключений на порту "@ + text::decimal(PORT as nat)
}

/// Completes an address with the port where it has none.
pub fn complete_address(addr: &str) -> (full: String)
    ensures
        full@ == full_address(addr@),
{
    let v = text::chars_of(addr);
    let mut i: usize = 0;
    while i < v.len()
        invariant
            i <= v@.len(),
            v@ == addr@,
            forall|k: int| 0 <= k < i ==> addr@[k] != ':',
        decreases v.len() - i,
    {
        if v[i] == ':' {
            assert(addr@[i as int] == ':');
            return String::from_str(addr);
        }
        i = i + 1;
    }
    let mut full = text::join(addr, ":");
    full.append(text::to_decimal(PORT as u64).as_str());
    full
}

/// The status of one who waits for a connection.
pub fn waiting() -> (s: String)
    ensures
        s@ == waiting_text(),
{
    text::join("Ожидаю подключений на порту ", text::to_decimal(PORT as u64).as_str())
}

/// What the window is told when the listener has started, or could not.
pub fn listening(bound: Result<(), String>) -> (event: FromNet)
    ensures
        event@ == (match bound {
            Ok(()) => Notice::Status(waiting_text()),
            Err(e) => Notice::Error(
                "Не удалось занять порт "@ + text::decimal(PORT as nat) + ": "@ + e@
                    + ". Возможно, приложение уже запущено."@,
            ),
        }),
{
    match bound {
        Ok(()) => FromNet::Status(waiting()),
        Err(e) => {
            let mut s = text::join("Не удалось занять порт ", text::to_decimal(PORT as u64).as_str());
            s.append(": ");
            s.append(e.as_str());
            s.append(". Возможно, приложение уже запущено.");
            FromNet::Error(s)
        },
    }
}

/// What the window is told of a received file with the contents `data`, once it
/// has been written to `path` or could not be.
pub open spec fn saved_notice(
    name: Seq<char>,
    path: PathBuf,
    data: Seq<u8>,
    written: Result<(), String>,
) -> Notice {
    match written {
        Ok(()) => Notice::File { name, path, size: data.len() as u64 },
        Err(e) => Notice::Error("Не удалось сохранить файл: "@ + e@),
    }
}

/// Tells of a received file once it has been written, or could not be.
pub fn saved(name: String, path: PathBuf, data: &[u8], written: Result<(), String>) -> (event:
    FromNet)
    ensures
        event@ == saved_notice(name@, path, data@, written),
{
    match written {
        Ok(()) => FromNet::File { name, path, size: data.len() as u64 },
        Err(e) => FromNet::Error(text::join("Не удалось сохранить файл: ", e.as_str())),
    }
}

/// What a reader does after it has tried to read a frame.
pub enum ReaderAction {
    /// Hand an event to the window and read on.
    Tell(FromNet),
    /// Save a file under a free variant of the name `safe`, report that with
    /// `saved`, and read on.
    Save { name: String, safe: String, data: Vec<u8> },
    /// Read on.
    Skip,
    /// Hand an event to the window and end.
    Stop(FromNet),
}

/// `ReaderAction`, with strings and vectors as sequences.
pub enum ReaderEffect {
    Tell(Notice),
    Save { name: Seq<char>, safe: Seq<char>, data: Seq<u8> },
    Skip,
    Stop(Notice),
}

impl View for ReaderAction {
    type V = ReaderEffect;

    open spec fn view(&self) -> ReaderEffect {
        match self {
            ReaderAction::Tell(event) => ReaderEffect::Tell(event@),
            ReaderAction::Save { name, safe, data } => ReaderEffect::Save {
                name: name@,
                safe: safe@,
                data: data@,
            },
            ReaderAction::Skip => ReaderEffect::Skip,
            ReaderAction::Stop(event) => ReaderEffect::Stop(event@),
        }
    }
}

/// What a reader does with what has arrived.
pub open spec fn reader_effect(arrived: Arrival) -> ReaderEffect {
    match arrived {
        Arrival::Text(t) => ReaderEffect::Tell(Notice::Text(t)),
        Arrival::File { name, safe, data } => ReaderEffect::Save { name, safe, data },
        Arrival::Nothing => ReaderEffect::Skip,
        Arrival::Closed => ReaderEffect::Stop(Notice::Disconnected),
    }
}

/// Decides what a reader does with what has arrived.
pub fn on_arrival(received: Received) -> (action: ReaderAction)
    ensures
        action@ == reader_effect(received@),
{
    match received {
        Received::Text(t) => ReaderAction::Tell(FromNet::Text(t)),
        Received::File { name, safe, data } => ReaderAction::Save { name, safe, data },
        Received::Nothing => ReaderAction::Skip,
        Received::Closed => ReaderAction::Stop(FromNet::Disconnected),
    }
}

/// Decides what a reader does with the frame that it read; `None` stands for a
/// read that failed.
pub fn reader_step(read: Option<(u8, Vec<u8>)>) -> (action: ReaderAction)
    ensures
        action@ == reader_effect(
            message::arrival(
                match read {
                    Some((kind, payload)) => Some((kind, payload@)),
                    None => None,
                },
            ),
        ),
{
    on_arrival(message::receive(read))
}

/// What came of an attempt to save a file: where, and whether it was written.
pub struct Outcome {
    pub path: PathBuf,
    pub written: Result<(), String>,
}

/// What the window is told at one turn of a reader; `outcome` is what came of
/// the save, where there is one.
pub open spec fn turn_events(effect: ReaderEffect, outcome: Outcome) -> Seq<Notice> {
    match effect {
        ReaderEffect::Tell(event) => seq![event],
        ReaderEffect::Save { name, safe, data } => seq![
            saved_notice(name, outcome.path, data, outcome.written),
        ],
        ReaderEffect::Skip => Seq::empty(),
        ReaderEffect::Stop(event) => seq![event],
    }
}

/// What the window is told of `frames`; `outcomes[i]` is what came of the save
/// of the frame `i`, where it carries a file.
pub open spec fn frame_events(
    frames: Seq<(u8, Seq<u8>)>,
    outcomes: Seq<Outcome>,
) -> Seq<Notice>
    decreases frames.len(),
{
    if frames.len() == 0 {
        Seq::empty()
    } else {
        frame_events(frames.drop_last(), outcomes) + turn_events(
            reader_effect(message::arrival(Some(frames.last()))),
            outcomes[frames.len() - 1],
        )
    }
}

/// What the window is told by a reader from the start of a connection to its
/// end, where `s` is all that comes in: what it is told of the frames that can
/// be read, and then of the read that fails.
pub open spec fn reader_events(s: Seq<u8>, outcomes: Seq<Outcome>) -> Seq<Notice> {
    let told = frame_events(frame::frames_read(s), outcomes);
    match reader_effect(message::arrival(None)) {
        ReaderEffect::Stop(event) => told.push(event),
        _ => told,
    }
}

/// The one active connection.
pub struct Manager<S> {
    pub current: Option<S>,
}

/// What shuts the active connection down.
pub open spec fn closing<S>(current: Option<S>) -> Seq<Effect<S>> {
    match current {
        Some(old) => seq![Effect::Shutdown(old)],
        None => Seq::empty(),
    }
}

/// A new connection takes the place of the active one, which is shut down.
pub open spec fn set_connection<S>(current: Option<S>, s: S) -> (Option<S>, Seq<Effect<S>>) {
    (None, closing(current).push(Effect::Prepare(s)))
}

/// A frame goes to the active connection; without one the window is told so.
pub open spec fn send_frame<S>(current: Option<S>, frame: Seq<u8>, sent: Parcel) -> (
    Option<S>,
    Seq<Effect<S>>,
) {
    match current {
        Some(_) => (current, seq![Effect::Write { frame, sent }]),
        None => (None, seq![Effect::Tell(Notice::Error("Нет активного соединения"@))]),
    }
}

/// What a file is called on the wire, by the name in its path.
pub open spec fn wire_name(name: Option<String>) -> Seq<char> {
    match name {
        Some(n) => n@,
        None => "file.bin"@,
    }
}

/// What becomes of the active connection, and what is done, at a command.
pub open spec fn command<S>(current: Option<S>, msg: ToNet<S>) -> (Option<S>, Seq<Effect<S>>) {
    match msg {
        ToNet::Inbound(s) => set_connection(current, s),
        ToNet::Connect(addr) => (
            current,
            seq![
                Effect::Tell(Notice::Status("Подключаюсь к "@ + full_address(addr@) + "…"@)),
                Effect::Dial(full_address(addr@)),
            ],
        ),
        ToNet::SendText(t) => send_frame(current, message::text_message(t@), Parcel::Text),
        ToNet::SendFile(path) => (current, seq![Effect::ReadFile(path)]),
        ToNet::Disconnect => (None, closing(current).push(Effect::Tell(Notice::Disconnected))),
    }
}

/// What becomes of the active connection, and what is done, at an event.
pub open spec fn step<S>(current: Option<S>, event: Event<S>) -> (Option<S>, Seq<Effect<S>>) {
    match event {
        Event::Command(msg) => command(current, msg),
        Event::Dialed(Ok(s)) => set_connection(current, s),
        Event::Dialed(Err(e)) => (
            current,
            seq![Effect::Tell(Notice::Error("Не удалось подключиться: "@ + e@))],
        ),
        Event::Prepared { stream, peer, read_half: Ok(half) } => (
            Some(stream),
            seq![
                Effect::Tell(
                    Notice::Connected(
                        match peer {
                            Some(p) => p@,
                            None => "неизвестно"@,
                        },
                    ),
                ),
                Effect::StartReader(half),
            ],
        ),
        Event::Prepared { stream, peer, read_half: Err(e) } => (
            current,
            seq![Effect::Tell(Notice::Error("Ошибка соединения: "@ + e@))],
        ),
        Event::FileRead { name, data: Ok(data) } => send_frame(
            current,
            message::file_message(wire_name(name), data@),
            Parcel::File { name: wire_name(name), size: data@.len() as u64 },
        ),
        Event::FileRead { name, data: Err(e) } => (
            current,
            seq![Effect::Tell(Notice::Error("Не удалось прочитать файл: "@ + e@))],
        ),
        Event::Written { sent: Sent::Text, result: Ok(()) } => (current, Seq::empty()),
        Event::Written { sent: Sent::File { name, size }, result: Ok(()) } => (
            current,
            seq![
                Effect::Tell(
                    Notice::Status(
                        "Файл отправлен: "@ + name@ + " ("@ + size::size_text(size as nat) + ")"@,
                    ),
                ),
            ],
        ),
        Event::Written { sent, result: Err(e) } => (
            None,
            seq![
                Effect::Tell(Notice::Error("Ошибка отправки: "@ + e@)),
                Effect::Tell(Notice::Disconnected),
            ],
        ),
    }
}

impl<S> Manager<S> {
    /// Without a connection.
    pub fn new() -> (m: Self)
        ensures
            m.current is None,
    {
        Manager { current: None }
    }

    /// Makes room for a new connection.
    fn set_connection(&mut self, s: S) -> (actions: Vec<Action<S>>)
        ensures
            (final(self).current, effects(actions@)) == set_connection(old(self).current, s),
    {
        let mut actions: Vec<Action<S>> = Vec::new();
        let ghost before = self.current;
        match self.current.take() {
            Some(old) => {
                actions.push(Action::Shutdown(old));
            },
            None => {},
        }
        actions.push(Action::Prepare(s));
        assert(effects(actions@) =~= set_connection(before, s).1);
        actions
    }

    /// Sends a frame, where there is a connection.
    fn send_frame(&self, frame: Vec<u8>, sent: Sent) -> (actions: Vec<Action<S>>)
        ensures
            (self.current, effects(actions@)) == send_frame(self.current, frame@, sent@),
    {
        let mut actions: Vec<Action<S>> = Vec::new();
        if self.current.is_some() {
            actions.push(Action::Write { frame, sent });
        } else {
            actions.push(
                Action::Tell(FromNet::Error(String::from_str("Нет активного соединения"))),
            );
        }
        assert(effects(actions@) =~= send_frame(self.current, frame@, sent@).1);
        actions
    }

    /// Obeys a command.
    fn command(&mut self, msg: ToNet<S>) -> (actions: Vec<Action<S>>)
        ensures
            (final(self).current, effects(actions@)) == command(old(self).current, msg),
    {
        let ghost before = self.current;
        match msg {
            ToNet::Inbound(s) => self.set_connection(s),
            ToNet::Connect(addr) => {
                let full = complete_address(addr.as_str());
                let mut status = text::join("Подключаюсь к ", full.as_str());
                status.append("…");
                let mut actions: Vec<Action<S>> = Vec::new();
                actions.push(Action::Tell(FromNet::Status(status)));
                actions.push(Action::Dial(full));
                assert(effects(actions@) =~= command(before, msg).1);
                actions
            },
            ToNet::SendText(t) => self.send_frame(text_frame(t.as_str()), Sent::Text),
            ToNet::SendFile(path) => {
                let mut actions: Vec<Action<S>> = Vec::new();
                actions.push(Action::ReadFile(path));
                assert(effects(actions@) =~= command(before, msg).1);
                actions
            },
            ToNet::Disconnect => {
                let mut actions: Vec<Action<S>> = Vec::new();
                match self.current.take() {
                    Some(old) => {
                        actions.push(Action::Shutdown(old));
                    },
                    None => {},
                }
                actions.push(Action::Tell(FromNet::Disconnected));
                assert(effects(actions@) =~= command(before, msg).1);
                actions
            },
        }
    }

    /// Decides what is done at an event.
    pub fn step(&mut self, event: Event<S>) -> (actions: Vec<Action<S>>)
        ensures
            (final(self).current, effects(actions@)) == step(old(self).current, event),
    {
        let ghost before = self.current;
        let mut actions: Vec<Action<S>> = Vec::new();
        match event {
            Event::Command(msg) => {
                return self.command(msg);
            },
            Event::Dialed(Ok(s)) => {
                return self.set_connection(s);
            },
            Event::Dialed(Err(e)) => {
                actions.push(
                    Action::Tell(FromNet::Error(text::join("Не удалось подключиться: ", e.as_str()))),
                );
            },
            Event::Prepared { stream, peer, read_half } => match read_half {
                Ok(half) => {
                    self.current = Some(stream);
                    let other = match peer {
                        Some(p) => p,
                        None => String::from_str("неизвестно"),
                    };
                    actions.push(Action::Tell(FromNet::Connected(other)));
                    actions.push(Action::StartReader(half));
                },
                Err(e) => {
                    actions.push(
                        Action::Tell(FromNet::Error(text::join("Ошибка соединения: ", e.as_str()))),
                    );
                },
            },
            Event::FileRead { name, data } => match data {
                Ok(data) => {
                    let shown = match name {
                        Some(n) => n,
                        None => String::from_str("file.bin"),
                    };
                    let frame = file_frame(shown.as_str(), data.as_slice());
                    let size: u64 = data.len() as u64;
                    return self.send_frame(frame, Sent::File { name: shown, size });
                },
                Err(e) => {
                    actions.push(
                        Action::Tell(
                            FromNet::Error(text::join("Не удалось прочитать файл: ", e.as_str())),
                        ),
                    );
                },
            },
            Event::Written { sent, result } => match result {
                Ok(()) => match sent {
                    Sent::Text => {},
                    Sent::File { name, size } => {
                        let mut status = text::join("Файл отправлен: ", name.as_str());
                        status.append(" (");
                        status.append(size::human_size(size).as_str());
                        status.append(")");
                        actions.push(Action::Tell(FromNet::Status(status)));
                    },
                },
                Err(e) => {
                    self.current = None;
                    actions.push(
                        Action::Tell(FromNet::Error(text::join("Ошибка отправки: ", e.as_str()))),
                    );
                    actions.push(Action::Tell(FromNet::Disconnected));
                },
            },
        }
        assert(effects(actions@) =~= step(before, event).1);
        actions
    }
}

/// A completed address is complete.
pub proof fn completing_is_idempotent(addr: Seq<char>)
    ensures
        full_address(full_address(addr)) == full_address(addr),
{
    if !addr.contains(':') {
        reveal_strlit(":");
        assert(full_address(addr)[addr.len() as int] == ':');
    }
}

/// Before another connection takes its place, the active one is shut down; and
/// there is no active one while the new one is being prepared.
pub proof fn replaced_connection_is_shut_down<S>(old: S, s: S)
    ensures
        step(Some(old), Event::Command(ToNet::Inbound(s))) == (
            None::<S>,
            seq![Effect::Shutdown(old), Effect::Prepare(s)],
        ),
        step(Some(old), Event::Dialed(Ok::<S, String>(s))) == (
            None::<S>,
            seq![Effect::Shutdown(old), Effect::Prepare(s)],
        ),
{
    assert(closing(Some(old)).push(Effect::Prepare(s)) =~= seq![
        Effect::Shutdown(old),
        Effect::Prepare(s),
    ]);
}

/// Nothing is written without an active connection, and a write leaves the
/// active connection as it is.
pub proof fn writes_need_a_connection<S>(current: Option<S>, event: Event<S>, i: int)
    requires
        0 <= i < step(current, event).1.len(),
        step(current, event).1[i] is Write,
    ensures
        current is Some,
        step(current, event).0 == current,
        step(current, event).1.len() == 1,
{
}

/// The active connection ends in two ways only: it is shut down, or a write to
/// it has failed. Else it stays, but for a connection that has been prepared,
/// which takes its place.
pub proof fn active_connection_is_kept<S>(c: S, event: Event<S>)
    ensures
        ({
            let (next, done) = step(Some(c), event);
            ||| next == Some(c)
            ||| next is None && done.len() > 0 && done[0] == Effect::Shutdown(c)
            ||| next is None && (event matches Event::Written { sent, result } && result is Err)
            ||| (event matches Event::Prepared { stream, peer, read_half } && next == Some(stream))
        }),
{
}

/// When the last word of a step is that the connection is gone, there is none.
pub proof fn disconnected_means_no_connection<S>(current: Option<S>, event: Event<S>)
    requires
        step(current, event).1.len() > 0,
        step(current, event).1.last() == Effect::<S>::Tell(Notice::Disconnected),
    ensures
        step(current, event).0 is None,
{
}

/// Where a peer is reported as connected, the connection is the active one.
pub proof fn connected_means_a_connection<S>(current: Option<S>, event: Event<S>, i: int)
    requires
        0 <= i < step(current, event).1.len(),
        step(current, event).1[i] matches Effect::Tell(Notice::Connected(_)),
    ensures
        event matches Event::Prepared { stream, peer, read_half } && step(current, event).0 == Some(
            stream,
        ),
{
}

/// Who sends without a connection is told so, and nothing else happens.
pub proof fn sending_without_connection_is_answered<S>(
    text: String,
    name: Option<String>,
    data: Vec<u8>,
)
    ensures
        step(None::<S>, Event::Command(ToNet::SendText(text))) == (
            None::<S>,
            seq![Effect::<S>::Tell(Notice::Error("Нет активного соединения"@))],
        ),
        step(None::<S>, Event::FileRead { name, data: Ok::<Vec<u8>, String>(data) }) == (
            None::<S>,
            seq![Effect::<S>::Tell(Notice::Error("Нет активного соединения"@))],
        ),
{
}

/// Over a connection, the other side receives the text that this side sends,
/// whatever follows it on the wire.
pub proof fn sent_text_arrives<S>(c: S, text: String, rest: Seq<u8>)
    requires
        encode_utf8(text@).len() <= frame::MAX_FRAME,
    ensures
        ({
            let frame = message::text_message(text@);
            &&& step(Some(c), Event::Command(ToNet::SendText(text))) == (
                Some(c),
                seq![Effect::<S>::Write { frame, sent: Parcel::Text }],
            )
            &&& message::arrival(message::parse_ok(frame + rest)) == Arrival::Text(text@)
            &&& frame::after_frame(frame + rest) == rest
        }),
{
    message::text_round_trip(text@, rest);
}

/// Over a connection, the other side receives the file that this side sends,
/// with the name that it has here, whatever follows it on the wire. The length
/// of the name must fit into two bytes.
pub proof fn sent_file_arrives<S>(c: S, name: Option<String>, data: Vec<u8>, rest: Seq<u8>)
    requires
        encode_utf8(wire_name(name)).len() < 0x1_0000,
        2 + encode_utf8(wire_name(name)).len() + data@.len() <= frame::MAX_FRAME,
    ensures
        ({
            let n = wire_name(name);
            let frame = message::file_message(n, data@);
            &&& step(Some(c), Event::FileRead { name, data: Ok::<Vec<u8>, String>(data) }) == (
                Some(c),
                seq![
                    Effect::<S>::Write {
                        frame,
                        sent: Parcel::File { name: n, size: data@.len() as u64 },
                    },
                ],
            )
            &&& message::arrival(message::parse_ok(frame + rest)) == message::file_arrival(
                n,
                data@,
            )
            &&& frame::after_frame(frame + rest) == rest
        }),
{
    message::file_round_trip(wire_name(name), data@, rest);
}

/// Whatever a reader reads, the file that it saves lies directly in its
/// directory, at a name that was free: no file there is overwritten. Its contents
/// are what follows the name in the payload, and the window is told its size.
/// Here `dir` holds the entries of the directory, `taken` tells whether a name is
/// among them, and `free` is what `unique_path` picked.
pub proof fn received_file_is_a_new_entry<F: Fn(&str) -> bool>(
    read: Option<(u8, Seq<u8>)>,
    dir: Map<Seq<char>, Seq<u8>>,
    taken: F,
    free: Seq<char>,
    path: PathBuf,
)
    requires
        forall|s: &str, b: bool| #[trigger]
            call_ensures(taken, (s,), b) ==> b == dir.dom().contains(s@),
        read matches Some((kind, payload)) ==> payload.len() <= u64::MAX,
        reader_effect(message::arrival(read)) matches ReaderEffect::Save { name, safe, data }
            && names::picks(taken, safe, Some(free)),
    ensures
        names::is_entry_name(free),
        !dir.dom().contains(free),
        read matches Some((kind, payload)) && reader_effect(
            message::arrival(read),
        ) matches ReaderEffect::Save { name, safe, data } && ({
            let n = frame::from_big_endian(payload.take(2)) as int;
            &&& kind == frame::KIND_FILE
            &&& 2 + n <= payload.len()
            &&& data == payload.skip(2 + n)
            &&& forall|k: Seq<char>| #[trigger]
                dir.dom().contains(k) ==> dir.insert(free, data).dom().contains(k) && dir.insert(
                    free,
                    data,
                )[k] == dir[k]
            &&& dir.insert(free, data)[free] == payload.skip(2 + n)
            &&& saved_notice(name, path, data, Ok::<(), String>(())) matches Notice::File {
                name: told,
                path: at,
                size,
            } && told == name && at == path && size == payload.len() - 2 - n
        }),
{
    if let ReaderEffect::Save { name, safe, data } = reader_effect(message::arrival(read)) {
        message::arriving_files_have_safe_names(read);
        let i = choose|i: nat|
            {
                &&& i <= u32::MAX
                &&& free == #[trigger] names::candidate(safe, i)
                &&& names::answers(taken, free, false)
            };
        names::candidates_stay_in_directory(safe, i);
    }
}

/// A frame is told of at most once, and never as the end of the connection.
proof fn frame_events_are_few(frames: Seq<(u8, Seq<u8>)>, outcomes: Seq<Outcome>)
    ensures
        frame_events(frames, outcomes).len() <= frames.len(),
        forall|i: int|
            0 <= i < frame_events(frames, outcomes).len() ==> !(#[trigger] frame_events(
                frames,
                outcomes,
            )[i] is Disconnected),
    decreases frames.len(),
{
    if frames.len() > 0 {
        frame_events_are_few(frames.drop_last(), outcomes);
        let init = frame_events(frames.drop_last(), outcomes);
        let all = frame_events(frames, outcomes);
        assert forall|i: int| 0 <= i < all.len() implies !(#[trigger] all[i] is Disconnected) by {
            if i < init.len() {
                assert(all[i] == init[i]);
            }
        }
    }
}

/// Whatever comes in over a connection, the window is told of its end once, as
/// the last thing, and at most once of each frame before it.
pub proof fn reader_ends_with_one_disconnected(s: Seq<u8>, outcomes: Seq<Outcome>)
    ensures
        ({
            let events = reader_events(s, outcomes);
            &&& 1 <= events.len() <= frame::frames_read(s).len() + 1
            &&& events.last() == Notice::Disconnected
            &&& forall|i: int|
                0 <= i < events.len() - 1 ==> !(#[trigger] events[i] is Disconnected)
        }),
{
    frame_events_are_few(frame::frames_read(s), outcomes);
}

/// What the window is told of frames after frames is what it is told of the
/// first ones and then of the others.
pub proof fn frame_events_split(
    a: Seq<(u8, Seq<u8>)>,
    b: Seq<(u8, Seq<u8>)>,
    for_a: Seq<Outcome>,
    for_b: Seq<Outcome>,
)
    requires
        for_a.len() == a.len(),
        for_b.len() >= b.len(),
    ensures
        frame_events(a + b, for_a + for_b) == frame_events(a, for_a) + frame_events(b, for_b),
    decreases b.len(),
{
    if b.len() == 0 {
        assert(a + b =~= a);
        frame_events_need_their_outcomes(a, for_a, for_a + for_b);
        assert(frame_events(a, for_a) + frame_events(b, for_b) =~= frame_events(a, for_a));
    } else {
        frame_events_split(a, b.drop_last(), for_a, for_b);
        assert((a + b).drop_last() =~= a + b.drop_last());
        assert((for_a + for_b)[a.len() + b.len() - 1] == for_b[b.len() - 1]);
        assert(frame_events(a + b, for_a + for_b) =~= frame_events(a, for_a) + frame_events(
            b,
            for_b,
        ));
    }
}

/// Of the outcomes only those of the frames matter.
proof fn frame_events_need_their_outcomes(
    frames: Seq<(u8, Seq<u8>)>,
    x: Seq<Outcome>,
    y: Seq<Outcome>,
)
    requires
        forall|i: int| 0 <= i < frames.len() ==> x[i] == y[i],
    ensures
        frame_events(frames, x) == frame_events(frames, y),
    decreases frames.len(),
{
    if frames.len() > 0 {
        frame_events_need_their_outcomes(frames.drop_last(), x, y);
        assert(x[frames.len() - 1] == y[frames.len() - 1]);
    }
}

/// What the window is told of frames on the wire, whatever follows them: what it
/// is told of each of them in turn, and then of what follows.
pub proof fn reader_events_continue(
    frames: Seq<(u8, Seq<u8>)>,
    rest: Seq<u8>,
    for_frames: Seq<Outcome>,
    for_rest: Seq<Outcome>,
)
    requires
        for_frames.len() == frames.len(),
        for_rest.len() >= frame::frames_read(rest).len(),
        forall|i: int| 0 <= i < frames.len() ==> (#[trigger] frames[i]).1.len() <= frame::MAX_FRAME,
    ensures
        reader_events(frame::wire(frames) + rest, for_frames + for_rest) == frame_events(
            frames,
            for_frames,
        ) + reader_events(rest, for_rest),
{
    let after = frame::frames_read(rest);
    let outcomes = for_frames + for_rest;
    frame::stream_continues(frames, rest);
    frame_events_split(frames, after, for_frames, for_rest);
    assert(reader_events(frame::wire(frames) + rest, outcomes) =~= frame_events(frames, for_frames)
        + reader_events(rest, for_rest));
}

/// Two runs of frames on one connection are told of as the first run without
/// its end, and then as the second.
pub proof fn reader_events_split(
    a: Seq<(u8, Seq<u8>)>,
    b: Seq<(u8, Seq<u8>)>,
    for_a: Seq<Outcome>,
    for_b: Seq<Outcome>,
)
    requires
        for_a.len() == a.len(),
        for_b.len() >= b.len(),
        forall|i: int| 0 <= i < a.len() ==> (#[trigger] a[i]).1.len() <= frame::MAX_FRAME,
        forall|i: int| 0 <= i < b.len() ==> (#[trigger] b[i]).1.len() <= frame::MAX_FRAME,
    ensures
        reader_events(frame::wire(a), for_a) == frame_events(a, for_a).push(Notice::Disconnected),
        reader_events(frame::wire(b), for_b) == frame_events(b, for_b).push(Notice::Disconnected),
        reader_events(frame::wire(a) + frame::wire(b), for_a + for_b) == reader_events(
            frame::wire(a),
            for_a,
        ).drop_last() + reader_events(frame::wire(b), for_b),
        frame::wire(a) + frame::wire(b) == frame::wire(a + b),
{
    frame::stream_round_trip(a);
    frame::stream_round_trip(b);
    frame::wire_splits(a, b);
    reader_events_continue(a, frame::wire(b), for_a, for_b);
    assert(reader_events(frame::wire(a), for_a) =~= frame_events(a, for_a).push(
        Notice::Disconnected,
    ));
    assert(reader_events(frame::wire(b), for_b) =~= frame_events(b, for_b).push(
        Notice::Disconnected,
    ));
    assert(reader_events(frame::wire(a), for_a).drop_last() =~= frame_events(a, for_a));
}

/// The frames that carry texts.
pub open spec fn text_frames(texts: Seq<Seq<char>>) -> Seq<(u8, Seq<u8>)> {
    texts.map_values(|t: Seq<char>| (frame::KIND_TEXT, encode_utf8(t)))
}

/// The texts that one side sends are told to the other side in their order, each
/// once and as it was sent; then comes the end of the connection.
pub proof fn sent_texts_are_told_in_order(texts: Seq<Seq<char>>, outcomes: Seq<Outcome>)
    requires
        forall|i: int|
            0 <= i < texts.len() ==> encode_utf8(#[trigger] texts[i]).len() <= frame::MAX_FRAME,
    ensures
        reader_events(frame::wire(text_frames(texts)), outcomes) == texts.map_values(
            |t: Seq<char>| Notice::Text(t),
        ).push(Notice::Disconnected),
{
    let frames = text_frames(texts);
    assert forall|i: int| 0 <= i < frames.len() implies (#[trigger] frames[i]).1.len()
        <= frame::MAX_FRAME by {
        assert(encode_utf8(texts[i]).len() <= frame::MAX_FRAME);
    }
    frame::stream_round_trip(frames);
    text_events(texts, outcomes);
    assert(reader_events(frame::wire(frames), outcomes) =~= texts.map_values(
        |t: Seq<char>| Notice::Text(t),
    ).push(Notice::Disconnected));
}

/// What the window is told of frames that carry texts.
proof fn text_events(texts: Seq<Seq<char>>, outcomes: Seq<Outcome>)
    ensures
        frame_events(text_frames(texts), outcomes) == texts.map_values(
            |t: Seq<char>| Notice::Text(t),
        ),
    decreases texts.len(),
{
    let told = texts.map_values(|t: Seq<char>| Notice::Text(t));
    if texts.len() == 0 {
        assert(frame_events(text_frames(texts), outcomes) =~= told);
    } else {
        let t = texts.last();
        text_events(texts.drop_last(), outcomes);
        assert(text_frames(texts).drop_last() =~= text_frames(texts.drop_last()));
        assert(text_frames(texts).last() == (frame::KIND_TEXT, encode_utf8(t)));
        encode_utf8_valid_utf8(t);
        encode_utf8_decode_utf8(t);
        assert(frame_events(text_frames(texts), outcomes) =~= told);
    }
}

} // verus!
