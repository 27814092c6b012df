//! Laws of the network layer.

use crate::laws;
use crate::message;
use crate::message::Received;
use crate::net;
use crate::net::{Action, Event, FromNet, Manager, ReaderAction, Sent, ToNet};
use crate::size;
use std::path::PathBuf;
use vstd::prelude::*;

verus! {

/// An address with a colon is complete; another gets the port 9009.
pub proof fn address_without_port_gets_it(addr: &str, full: String)
    requires
        call_ensures(net::complete_address, (addr,), full),
    ensures
        (exists|k: int| 0 <= k < addr@.len() && #[trigger] addr@[k] == ':') ==> full@ == addr@,
        (forall|k: int| 0 <= k < addr@.len() ==> #[trigger] addr@[k] != ':') ==> full@ == addr@
            + seq![':', '9', '0', '0', '9'],
{
    laws::text::numeral_of_the_port();
    reveal_strlit(":");
    assert(":"@ =~= seq![':']);
    if forall|k: int| 0 <= k < addr@.len() ==> #[trigger] addr@[k] != ':' {
        assert(!addr@.contains(':'));
        assert(full@ =~= addr@ + seq![':', '9', '0', '0', '9']);
    }
}

/// One who waits says on which port.
pub proof fn waiting_tells_the_port(s: String)
    requires
        call_ensures(net::waiting, (), s),
    ensures
        s@ == "Ожидаю подключений на порту "@ + seq!['9', '0', '0', '9'],
{
    laws::text::numeral_of_the_port();
}

/// A listener that has started is told as a status, one that could not as an error
/// with its reason.
pub proof fn listener_is_told(bound: Result<(), String>, event: FromNet)
    requires
        call_ensures(net::listening, (bound,), event),
    ensures
        bound is Ok ==> (event matches FromNet::Status(s) && s@ == "Ожидаю подключений на порту "@
            + seq!['9', '0', '0', '9']),
        bound matches Err(e) ==> (event matches FromNet::Error(s) && s@ == "Не удалось занять порт "@
            + seq!['9', '0', '0', '9'] + ": "@ + e@ + ". Возможно, приложение уже запущено."@),
{
    laws::text::numeral_of_the_port();
}

/// A saved file is told with its name, its path and its size; one that could not be
/// saved as an error with its reason.
pub proof fn saved_file_is_told(
    name: String,
    path: PathBuf,
    data: &[u8],
    written: Result<(), String>,
    event: FromNet,
)
    requires
        call_ensures(net::saved, (name, path, data, written), event),
        data@.len() <= u64::MAX,
    ensures
        written is Ok ==> (event matches FromNet::File { name: n, path: p, size } && n@ == name@ && p
            == path && size == data@.len()),
        written matches Err(e) ==> (event matches FromNet::Error(s) && s@
            == "Не удалось сохранить файл: "@ + e@),
{
}

/// A text that arrives is told as it is, a file is saved under its safe name, what
/// makes no sense is passed over, and the end is told last.
pub proof fn arrival_decides(received: Received, action: ReaderAction)
    requires
        call_ensures(net::on_arrival, (received,), action),
    ensures
        received matches Received::Text(t) ==> (action matches ReaderAction::Tell(FromNet::Text(u))
            && u@ == t@),
        received matches Received::File { name, safe, data } ==> (
        action matches ReaderAction::Save { name: n, safe: f, data: d } && n@ == name@ && f@
            == safe@ && d@ == data@),
        received is Nothing ==> action is Skip,
        received is Closed ==> (action matches ReaderAction::Stop(FromNet::Disconnected)),
{
}

/// A reader does with a frame what is decided of what arrives in it.
pub proof fn reader_does_what_arrival_decides(
    read: Option<(u8, Vec<u8>)>,
    received: Received,
    decided: ReaderAction,
    action: ReaderAction,
)
    requires
        call_ensures(message::receive, (read,), received),
        call_ensures(net::on_arrival, (received,), decided),
        call_ensures(net::reader_step, (read,), action),
    ensures
        decided matches ReaderAction::Tell(FromNet::Text(t)) ==> (
        action matches ReaderAction::Tell(FromNet::Text(u)) && u@ == t@),
        decided matches ReaderAction::Save { name, safe, data } ==> (
        action matches ReaderAction::Save { name: n, safe: f, data: d } && n@ == name@ && f@
            == safe@ && d@ == data@),
        decided is Skip <==> action is Skip,
        decided is Stop <==> action is Stop,
        read is None ==> (action matches ReaderAction::Stop(FromNet::Disconnected)),
        read is Some ==> !(action is Stop),
{
}

/// What a step does, by its actions.
proof fn actions_tell<S>(actions: Vec<Action<S>>)
    ensures
        net::effects(actions@).len() == actions@.len(),
        forall|i: int|
            0 <= i < actions@.len() ==> (#[trigger] actions@[i])@ == net::effects(actions@)[i],
{
}

/// At the start there is no connection.
pub proof fn manager_starts_without_connection<S>(m: Manager<S>)
    requires
        call_ensures(Manager::<S>::new, (), m),
    ensures
        m.current is None,
{
}

/// A connection that comes in, or that was dialed, is prepared; the active one is shut
/// down before that, and until the new one is ready there is none.
pub proof fn new_connection_is_prepared<S>(
    m: &mut Manager<S>,
    event: Event<S>,
    s: S,
    actions: Vec<Action<S>>,
)
    requires
        call_ensures(Manager::<S>::step, (m, event), actions),
        event == Event::Command(ToNet::Inbound(s)) || event == Event::<S>::Dialed(Ok(s)),
    ensures
        final(m).current is None,
        old(m).current is None ==> actions@.len() == 1,
        old(m).current matches Some(c) ==> actions@.len() == 2 && actions@[0] == Action::Shutdown(
            c,
        ),
        actions@[actions@.len() - 1] == Action::Prepare(s),
{
    actions_tell(actions);
    assert(actions@[actions@.len() - 1]@ == net::effects(actions@)[actions@.len() - 1]);
    if old(m).current is Some {
        assert(actions@[0]@ == net::effects(actions@)[0]);
    }
}

/// A connection is dialed at the completed address, and the window is told so first.
/// The active one stays meanwhile.
pub proof fn address_is_dialed<S>(
    m: &mut Manager<S>,
    addr: String,
    s: &str,
    full: String,
    actions: Vec<Action<S>>,
)
    requires
        call_ensures(Manager::<S>::step, (m, Event::Command(ToNet::Connect(addr))), actions),
        call_ensures(net::complete_address, (s,), full),
        s@ == addr@,
    ensures
        final(m).current == old(m).current,
        actions@.len() == 2,
        actions@[0] matches Action::Tell(FromNet::Status(t)) && t@ == "Подключаюсь к "@ + full@
            + "…"@,
        actions@[1] matches Action::Dial(a) && a@ == full@,
{
    actions_tell(actions);
    assert(actions@[0]@ == net::effects(actions@)[0]);
    assert(actions@[1]@ == net::effects(actions@)[1]);
}

/// A text goes to the active connection in one frame; without one the window is told
/// so. The connection stays as it is.
pub proof fn text_goes_to_the_connection<S>(
    m: &mut Manager<S>,
    t: String,
    s: &str,
    bytes: Vec<u8>,
    actions: Vec<Action<S>>,
)
    requires
        call_ensures(Manager::<S>::step, (m, Event::Command(ToNet::SendText(t))), actions),
        call_ensures(message::text_frame, (s,), bytes),
        s@ == t@,
    ensures
        final(m).current == old(m).current,
        actions@.len() == 1,
        old(m).current is Some ==> (actions@[0] matches Action::Write { frame, sent } && frame@
            == bytes@ && sent is Text),
        old(m).current is None ==> (actions@[0] matches Action::Tell(FromNet::Error(e)) && e@
            == "Нет активного соединения"@),
{
    actions_tell(actions);
    assert(actions@[0]@ == net::effects(actions@)[0]);
}

/// A file to send is read first. The connection stays as it is.
pub proof fn file_to_send_is_read<S>(m: &mut Manager<S>, path: PathBuf, actions: Vec<Action<S>>)
    requires
        call_ensures(Manager::<S>::step, (m, Event::Command(ToNet::SendFile(path))), actions),
    ensures
        final(m).current == old(m).current,
        actions@.len() == 1,
        actions@[0] matches Action::ReadFile(p) && p == path,
{
    actions_tell(actions);
    assert(actions@[0]@ == net::effects(actions@)[0]);
}

/// A file that was read goes to the active connection in one frame, under the name in
/// its path or as `file.bin`; without a connection the window is told so. The
/// connection stays as it is.
pub proof fn read_file_goes_to_the_connection<S>(
    m: &mut Manager<S>,
    name: Option<String>,
    data: Vec<u8>,
    shown: &str,
    contents: &[u8],
    bytes: Vec<u8>,
    actions: Vec<Action<S>>,
)
    requires
        call_ensures(Manager::<S>::step, (m, Event::FileRead { name, data: Ok(data) }), actions),
        call_ensures(message::file_frame, (shown, contents), bytes),
        contents@ == data@,
        data@.len() <= u64::MAX,
        name matches Some(n) ==> shown@ == n@,
        name is None ==> shown@ == seq!['f', 'i', 'l', 'e', '.', 'b', 'i', 'n'],
    ensures
        final(m).current == old(m).current,
        actions@.len() == 1,
        old(m).current is Some ==> (actions@[0] matches Action::Write {
            frame,
            sent: Sent::File { name: n, size },
        } && frame@ == bytes@ && n@ == shown@ && size == data@.len()),
        old(m).current is None ==> (actions@[0] matches Action::Tell(FromNet::Error(e)) && e@
            == "Нет активного соединения"@),
{
    reveal_strlit("file.bin");
    assert("file.bin"@ =~= seq!['f', 'i', 'l', 'e', '.', 'b', 'i', 'n']);
    actions_tell(actions);
    assert(actions@[0]@ == net::effects(actions@)[0]);
    if old(m).current is Some {
        assert(actions@[0] is Write);
        assert(actions@[0]->sent is File);
    }
}

/// Who disconnects shuts the active connection down, where there is one, and the
/// window is told in any case.
pub proof fn disconnecting_shuts_down<S>(m: &mut Manager<S>, actions: Vec<Action<S>>)
    requires
        call_ensures(Manager::<S>::step, (m, Event::Command(ToNet::Disconnect)), actions),
    ensures
        final(m).current is None,
        old(m).current is None ==> actions@.len() == 1,
        old(m).current matches Some(c) ==> actions@.len() == 2 && actions@[0] == Action::Shutdown(
            c,
        ),
        actions@[actions@.len() - 1] matches Action::Tell(FromNet::Disconnected),
{
    actions_tell(actions);
    assert(actions@[actions@.len() - 1]@ == net::effects(actions@)[actions@.len() - 1]);
    if old(m).current is Some {
        assert(actions@[0]@ == net::effects(actions@)[0]);
    }
}

/// A connection that could not be dialed is told as an error. The active one stays.
pub proof fn failed_dial_is_told<S>(m: &mut Manager<S>, e: String, actions: Vec<Action<S>>)
    requires
        call_ensures(Manager::<S>::step, (m, Event::<S>::Dialed(Err(e))), actions),
    ensures
        final(m).current == old(m).current,
        actions@.len() == 1,
        actions@[0] matches Action::Tell(FromNet::Error(t)) && t@ == "Не удалось подключиться: "@
            + e@,
{
    actions_tell(actions);
    assert(actions@[0]@ == net::effects(actions@)[0]);
}

/// A connection that is ready is the active one; the window is told its other end, and
/// its reader starts.
pub proof fn prepared_connection_is_active<S>(
    m: &mut Manager<S>,
    stream: S,
    peer: Option<String>,
    half: S,
    actions: Vec<Action<S>>,
)
    requires
        call_ensures(
            Manager::<S>::step,
            (m, Event::Prepared { stream, peer, read_half: Ok(half) }),
            actions,
        ),
    ensures
        final(m).current == Some(stream),
        actions@.len() == 2,
        actions@[0] matches Action::Tell(FromNet::Connected(t)) && (peer matches Some(p) ==> t@
            == p@) && (peer is None ==> t@ == "неизвестно"@),
        actions@[1] == Action::StartReader(half),
{
    actions_tell(actions);
    assert(actions@[0]@ == net::effects(actions@)[0]);
    assert(actions@[1]@ == net::effects(actions@)[1]);
}

/// A connection that could not be prepared is told as an error.
pub proof fn failed_preparation_is_told<S>(
    m: &mut Manager<S>,
    stream: S,
    peer: Option<String>,
    e: String,
    actions: Vec<Action<S>>,
)
    requires
        call_ensures(
            Manager::<S>::step,
            (m, Event::Prepared { stream, peer, read_half: Err(e) }),
            actions,
        ),
    ensures
        final(m).current == old(m).current,
        actions@.len() == 1,
        actions@[0] matches Action::Tell(FromNet::Error(t)) && t@ == "Ошибка соединения: "@ + e@,
{
    actions_tell(actions);
    assert(actions@[0]@ == net::effects(actions@)[0]);
}

/// A file that could not be read is told as an error. The connection stays as it is.
pub proof fn unread_file_is_told<S>(
    m: &mut Manager<S>,
    name: Option<String>,
    e: String,
    actions: Vec<Action<S>>,
)
    requires
        call_ensures(Manager::<S>::step, (m, Event::FileRead { name, data: Err(e) }), actions),
    ensures
        final(m).current == old(m).current,
        actions@.len() == 1,
        actions@[0] matches Action::Tell(FromNet::Error(t)) && t@ == "Не удалось прочитать файл: "@
            + e@,
{
    actions_tell(actions);
    assert(actions@[0]@ == net::effects(actions@)[0]);
}

/// Of a text that was written nothing is told; of a file its name and its size. The
/// connection stays as it is.
pub proof fn written_file_is_told<S>(
    m: &mut Manager<S>,
    sent: Sent,
    told: String,
    actions: Vec<Action<S>>,
)
    requires
        call_ensures(Manager::<S>::step, (m, Event::Written { sent, result: Ok(()) }), actions),
        sent matches Sent::File { name, size } ==> call_ensures(size::human_size, (size,), told),
    ensures
        final(m).current == old(m).current,
        sent is Text ==> actions@.len() == 0,
        sent matches Sent::File { name, size } ==> actions@.len() == 1 && (
        actions@[0] matches Action::Tell(FromNet::Status(t)) && t@ == "Файл отправлен: "@ + name@
            + " ("@ + told@ + ")"@),
{
    actions_tell(actions);
    if sent is File {
        assert(actions@[0]@ == net::effects(actions@)[0]);
    }
}

/// A write that failed ends the connection; the window is told why, and then that it
/// is gone.
pub proof fn failed_write_ends_the_connection<S>(
    m: &mut Manager<S>,
    sent: Sent,
    e: String,
    actions: Vec<Action<S>>,
)
    requires
        call_ensures(Manager::<S>::step, (m, Event::Written { sent, result: Err(e) }), actions),
    ensures
        final(m).current is None,
        actions@.len() == 2,
        actions@[0] matches Action::Tell(FromNet::Error(t)) && t@ == "Ошибка отправки: "@ + e@,
        actions@[1] matches Action::Tell(FromNet::Disconnected),
{
    actions_tell(actions);
    assert(actions@[0]@ == net::effects(actions@)[0]);
    assert(actions@[1]@ == net::effects(actions@)[1]);
}

} // verus!
