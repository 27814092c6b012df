//! Laws of the window.

use crate::laws;
use crate::net::{FromNet, ToNet};
use crate::peers::Peers;
use crate::size;
use crate::text;
use crate::window;
use crate::window::{App, Entry, Kind};
use std::path::PathBuf;
use vstd::prelude::*;

verus! {

/// Nothing that the user types, and no address of this machine, differs.
pub open spec fn same_typed(a: App, b: App) -> bool {
    &&& a.peer_ip@ == b.peer_ip@
    &&& a.input@ == b.input@
    &&& a.passphrase@ == b.passphrase@
    &&& a.last_psk@ == b.last_psk@
    &&& same_addresses(a, b)
}

/// No address of this machine differs.
pub open spec fn same_addresses(a: App, b: App) -> bool {
    &&& a.local_ips@.len() == b.local_ips@.len()
    &&& forall|i: int|
        0 <= i < a.local_ips@.len() ==> (#[trigger] a.local_ips@[i])@ == b.local_ips@[i]@
}

/// The same connection, or none in both.
pub open spec fn same_connection(a: App, b: App) -> bool {
    match (a.connected, b.connected) {
        (Some(x), Some(y)) => x@ == y@,
        (None, None) => true,
        _ => false,
    }
}

/// Two lines say the same.
pub open spec fn same_line(a: Entry, b: Entry) -> bool {
    a.kind == b.kind && a.text@ == b.text@ && a.path == b.path
}

/// A line of one kind that says `text` and leads to no file.
pub open spec fn is_line(e: Entry, kind: Kind, text: Seq<char>) -> bool {
    e.kind == kind && e.text@ == text && e.path is None
}

/// The log of `b` is that of `a` with `n` more lines at its end.
pub open spec fn log_grows(a: App, b: App, n: int) -> bool {
    &&& b.log@.len() == a.log@.len() + n
    &&& forall|i: int| 0 <= i < a.log@.len() ==> same_line(a.log@[i], #[trigger] b.log@[i])
}

/// What a window's view says of its fields.
proof fn view_tells(a: App, b: App)
    ensures
        a@.log.len() == a.log@.len(),
        forall|i: int|
            0 <= i < a.log@.len() ==> (#[trigger] a.log@[i])@ == a@.log[i],
        a@.local_ips == b@.local_ips ==> same_addresses(a, b),
        a@.connected == b@.connected ==> same_connection(a, b),
        a@.log == b@.log ==> log_grows(a, b, 0),
        forall|l: window::Line|
            b@.log == #[trigger] a@.log.push(l) ==> log_grows(a, b, 1) && b.log@[a.log@.len()
                as int]@ == l,
{
    assert forall|l: window::Line| b@.log == #[trigger] a@.log.push(l) implies log_grows(a, b, 1)
        && b.log@[a.log@.len() as int]@ == l by {
        assert(b.log@.len() == b@.log.len());
        assert forall|i: int| 0 <= i < a.log@.len() implies same_line(
            a.log@[i],
            #[trigger] b.log@[i],
        ) by {
            assert(a@.log.push(l)[i] == a@.log[i]);
            assert(b@.log[i] == b.log@[i]@);
            assert(a@.log[i] == a.log@[i]@);
        }
        let n = a.log@.len() as int;
        assert(b@.log[n] == b.log@[n]@);
    }
    if a@.log == b@.log {
        assert(b.log@.len() == b@.log.len());
        assert forall|i: int| 0 <= i < a.log@.len() implies same_line(
            a.log@[i],
            #[trigger] b.log@[i],
        ) by {
            assert(b@.log[i] == b.log@[i]@);
            assert(a@.log[i] == a.log@[i]@);
        }
    }
    if a@.local_ips == b@.local_ips {
        assert(a@.local_ips.len() == a.local_ips@.len());
        assert(b@.local_ips.len() == b.local_ips@.len());
        assert forall|i: int| 0 <= i < a.local_ips@.len() implies (#[trigger] a.local_ips@[i])@
            == b.local_ips@[i]@ by {
            assert(a@.local_ips[i] == a.local_ips@[i]@);
            assert(b@.local_ips[i] == b.local_ips@[i]@);
        }
    }
}

/// A text that comes in adds exactly one line to the log, at its end: the text as it
/// is, as what the peer wrote. Nothing else changes.
pub proof fn text_adds_one_line(app: &mut App, t: String, now: u128)
    requires
        call_ensures(App::on_event, (app, FromNet::Text(t), now), ()),
    ensures
        log_grows(*old(app), *final(app), 1),
        ({
            let line = final(app).log@[old(app).log@.len() as int];
            &&& line.kind == Kind::Peer
            &&& line.text@ == t@
            &&& line.path is None
        }),
        final(app).status@ == old(app).status@,
        same_connection(*old(app), *final(app)),
        same_typed(*old(app), *final(app)),
        final(app).peers@ == old(app).peers@,
{
    view_tells(*old(app), *final(app));
}

/// As many texts as come in, as many lines are added to the log, in their order, each
/// as it is. Here `calls` are the windows that the texts come in at, one after the
/// other.
pub proof fn texts_are_logged_in_order(calls: Seq<&mut App>, texts: Seq<String>, times: Seq<u128>)
    requires
        calls.len() == texts.len() == times.len(),
        calls.len() > 0,
        forall|i: int|
            0 <= i < calls.len() ==> call_ensures(
                App::on_event,
                (#[trigger] calls[i], FromNet::Text(texts[i]), times[i]),
                (),
            ),
        forall|i: int, j: int|
            0 <= i < calls.len() && j == i + 1 && j < calls.len() ==> *final(#[trigger] calls[i])
                == *#[trigger] calls[j],
    ensures
        log_grows(*calls[0], *final(calls.last()), texts.len() as int),
        forall|i: int|
            0 <= i < texts.len() ==> is_line(
                final(calls.last()).log@[calls[0].log@.len() + i],
                Kind::Peer,
                (#[trigger] texts[i])@,
            ),
    decreases calls.len(),
{
    let n = calls.len() - 1;
    let a = *calls[n];
    let b = *final(calls[n]);
    view_tells(a, b);
    assert(log_grows(a, b, 1));
    let added = b.log@[a.log@.len() as int];
    assert(added.kind == Kind::Peer && added.text@ == texts[n]@ && added.path is None);
    let start = calls[0].log@.len();
    if n > 0 {
        let before = calls.drop_last();
        texts_are_logged_in_order(before, texts.drop_last(), times.drop_last());
        assert(*final(calls[n - 1]) == *calls[n]);
        assert(before.last() == calls[n - 1]);
        assert(before[0] == calls[0]);
    }
    assert forall|i: int| 0 <= i < texts.len() implies is_line(
        b.log@[start + i],
        Kind::Peer,
        (#[trigger] texts[i])@,
    ) by {
        if i < n {
            assert(texts.drop_last()[i] == texts[i]);
            assert(same_line(a.log@[start + i], b.log@[start + i]));
        }
    }
    assert(calls.last() == calls[n]);
    assert(b == *final(calls.last()));
}

/// A new status replaces the one before. Nothing else changes.
pub proof fn status_replaces_the_one_before(app: &mut App, s: String, now: u128)
    requires
        call_ensures(App::on_event, (app, FromNet::Status(s), now), ()),
    ensures
        final(app).status@ == s@,
        log_grows(*old(app), *final(app), 0),
        same_connection(*old(app), *final(app)),
        same_typed(*old(app), *final(app)),
        final(app).peers@ == old(app).peers@,
{
    view_tells(*old(app), *final(app));
}

/// A connection that comes is noted, told as the status and logged, each with the
/// other end. Nothing else changes.
pub proof fn connection_is_noted_and_logged(app: &mut App, peer: String, now: u128)
    requires
        call_ensures(App::on_event, (app, FromNet::Connected(peer), now), ()),
    ensures
        final(app).connected matches Some(p) && p@ == peer@,
        final(app).status@ == "Соединено с "@ + peer@,
        log_grows(*old(app), *final(app), 1),
        ({
            let line = final(app).log@[old(app).log@.len() as int];
            &&& line.kind == Kind::System
            &&& line.text@ == "Соединение установлено: "@ + peer@
            &&& line.path is None
        }),
        same_typed(*old(app), *final(app)),
        final(app).peers@ == old(app).peers@,
{
    view_tells(*old(app), *final(app));
}

/// A connection that goes is logged where there was one; the window then waits for
/// another. Nothing else changes.
pub proof fn end_of_connection_is_noted_and_logged(app: &mut App, now: u128)
    requires
        call_ensures(App::on_event, (app, FromNet::Disconnected, now), ()),
    ensures
        final(app).connected is None,
        final(app).status@ == "Ожидаю подключений на порту "@ + seq!['9', '0', '0', '9'],
        old(app).connected is None ==> log_grows(*old(app), *final(app), 0),
        old(app).connected is Some ==> log_grows(*old(app), *final(app), 1) && ({
            let line = final(app).log@[old(app).log@.len() as int];
            &&& line.kind == Kind::System
            &&& line.text@ == "Соединение разорвано"@
            &&& line.path is None
        }),
        same_typed(*old(app), *final(app)),
        final(app).peers@ == old(app).peers@,
{
    laws::text::numeral_of_the_port();
    view_tells(*old(app), *final(app));
}

/// A received file is logged with its name, its size and where it lies. Nothing else
/// changes.
pub proof fn received_file_is_logged(
    app: &mut App,
    name: String,
    path: PathBuf,
    size: u64,
    told: String,
    now: u128,
)
    requires
        call_ensures(App::on_event, (app, FromNet::File { name, path, size }, now), ()),
        call_ensures(size::human_size, (size,), told),
    ensures
        log_grows(*old(app), *final(app), 1),
        ({
            let line = final(app).log@[old(app).log@.len() as int];
            &&& line.kind == Kind::FileIn
            &&& line.text@ == "Получен файл: "@ + name@ + " ("@ + told@ + ")"@
            &&& line.path == Some(path)
        }),
        final(app).status@ == old(app).status@,
        same_connection(*old(app), *final(app)),
        same_typed(*old(app), *final(app)),
        final(app).peers@ == old(app).peers@,
{
    view_tells(*old(app), *final(app));
}

/// An error is logged and told as the status. Nothing else changes.
pub proof fn error_is_logged_and_told(app: &mut App, e: String, now: u128)
    requires
        call_ensures(App::on_event, (app, FromNet::Error(e), now), ()),
    ensures
        final(app).status@ == e@,
        log_grows(*old(app), *final(app), 1),
        ({
            let line = final(app).log@[old(app).log@.len() as int];
            &&& line.kind == Kind::Error
            &&& line.text@ == e@
            &&& line.path is None
        }),
        same_connection(*old(app), *final(app)),
        same_typed(*old(app), *final(app)),
        final(app).peers@ == old(app).peers@,
{
    view_tells(*old(app), *final(app));
}

/// An announcement, the first one or another, is noted with the name that it gives
/// and the time at which it comes, whatever was known of the address before. Of
/// every other address the same is known as before, and nothing else changes.
pub proof fn announcement_is_noted(app: &mut App, name: String, ip: String, now: u128)
    requires
        call_ensures(App::on_event, (app, FromNet::Discovered { name, ip }, now), ()),
    ensures
        final(app).peers@.dom().contains(ip@),
        final(app).peers@[ip@].name == name@,
        final(app).peers@[ip@].seen == now,
        forall|k: Seq<char>|
            k != ip@ ==> (#[trigger] final(app).peers@.dom().contains(k) <==> old(
                app,
            ).peers@.dom().contains(k)),
        forall|k: Seq<char>|
            k != ip@ && old(app).peers@.dom().contains(k) ==> #[trigger] final(app).peers@[k]
                == old(app).peers@[k],
        log_grows(*old(app), *final(app), 0),
        final(app).status@ == old(app).status@,
        same_connection(*old(app), *final(app)),
        same_typed(*old(app), *final(app)),
{
    view_tells(*old(app), *final(app));
}

/// What is known of an address changes at its own announcements only.
pub proof fn other_events_leave_a_peer(app: &mut App, event: FromNet, now: u128, ip: Seq<char>)
    requires
        call_ensures(App::on_event, (app, event, now), ()),
        event matches FromNet::Discovered { name, ip: from } ==> from@ != ip,
    ensures
        final(app).peers@.dom().contains(ip) == old(app).peers@.dom().contains(ip),
        old(app).peers@.dom().contains(ip) ==> final(app).peers@[ip] == old(app).peers@[ip],
{
}

/// The window forgets the peers of whom nothing was heard for eight seconds or more,
/// those and no others. Nothing else changes.
pub proof fn silence_of_eight_seconds_is_forgotten(app: &mut App, now: u128, ip: Seq<char>)
    requires
        call_ensures(App::expire_peers, (app, now), ()),
    ensures
        final(app).peers@.dom().contains(ip) <==> old(app).peers@.dom().contains(ip) && (now as int)
            < old(app).peers@[ip].seen + 8_000_000_000,
        final(app).peers@.dom().contains(ip) ==> final(app).peers@[ip] == old(app).peers@[ip],
        log_grows(*old(app), *final(app), 0),
        final(app).status@ == old(app).status@,
        same_connection(*old(app), *final(app)),
        same_typed(*old(app), *final(app)),
{
    view_tells(*old(app), *final(app));
}

/// What is known of an address is the same after any number of events, none of which
/// is an announcement of its own.
proof fn events_leave_a_peer(
    calls: Seq<&mut App>,
    events: Seq<FromNet>,
    times: Seq<u128>,
    ip: Seq<char>,
)
    requires
        calls.len() == events.len() == times.len(),
        calls.len() > 0,
        forall|i: int|
            0 <= i < calls.len() ==> call_ensures(
                App::on_event,
                (#[trigger] calls[i], events[i], times[i]),
                (),
            ),
        forall|i: int, j: int|
            0 <= i < calls.len() && j == i + 1 && j < calls.len() ==> *final(#[trigger] calls[i])
                == *#[trigger] calls[j],
        forall|i: int|
            0 <= i < events.len() ==> (#[trigger] events[i] matches FromNet::Discovered {
                name,
                ip: from,
            } ==> from@ != ip),
    ensures
        final(calls.last()).peers@.dom().contains(ip) == calls[0].peers@.dom().contains(ip),
        calls[0].peers@.dom().contains(ip) ==> final(calls.last()).peers@[ip]
            == calls[0].peers@[ip],
    decreases calls.len(),
{
    let n = calls.len() - 1;
    let event = events[n];
    assert(final(calls[n]).peers@.dom().contains(ip) == calls[n].peers@.dom().contains(ip));
    assert(calls[n].peers@.dom().contains(ip) ==> final(calls[n]).peers@[ip]
        == calls[n].peers@[ip]);
    if n > 0 {
        let before = calls.drop_last();
        events_leave_a_peer(before, events.drop_last(), times.drop_last(), ip);
        assert(*final(calls[n - 1]) == *calls[n]);
        assert(before.last() == calls[n - 1]);
        assert(before[0] == calls[0]);
    }
}

/// A peer is listed under the name of its last announcement until eight seconds
/// after it, and no longer, whatever else has come in since. Here the first of
/// `calls` takes in that announcement and the others what came after it.
pub proof fn peer_is_listed_for_eight_seconds(
    calls: Seq<&mut App>,
    events: Seq<FromNet>,
    times: Seq<u128>,
    name: String,
    ip: String,
    last: &mut App,
    now: u128,
    r: Vec<(String, String)>,
)
    requires
        calls.len() == events.len() == times.len(),
        calls.len() > 0,
        forall|i: int|
            0 <= i < calls.len() ==> call_ensures(
                App::on_event,
                (#[trigger] calls[i], events[i], times[i]),
                (),
            ),
        forall|i: int, j: int|
            0 <= i < calls.len() && j == i + 1 && j < calls.len() ==> *final(#[trigger] calls[i])
                == *#[trigger] calls[j],
        events[0] == (FromNet::Discovered { name, ip }),
        forall|i: int|
            1 <= i < events.len() ==> (#[trigger] events[i] matches FromNet::Discovered {
                name: other,
                ip: from,
            } ==> from@ != ip@),
        *old(last) == *final(calls.last()),
        call_ensures(App::expire_peers, (last, now), ()),
        call_ensures(Peers::found, (&final(last).peers,), r),
    ensures
        (now as int) < times[0] + 8_000_000_000 ==> exists|i: int|
            0 <= i < r@.len() && (#[trigger] r@[i]).0@ == ip@ && r@[i].1@ == name@,
        (now as int) >= times[0] + 8_000_000_000 ==> forall|i: int|
            0 <= i < r@.len() ==> (#[trigger] r@[i]).0@ != ip@,
{
    let first = *final(calls[0]);
    assert(calls[0].peers@ == calls[0].peers@);
    assert(first.peers@.dom().contains(ip@) && first.peers@[ip@].name == name@
        && first.peers@[ip@].seen == times[0]);
    if calls.len() > 1 {
        let rest = calls.drop_first();
        let after = events.drop_first();
        let at = times.drop_first();
        assert forall|i: int| 0 <= i < rest.len() implies call_ensures(
            App::on_event,
            (#[trigger] rest[i], after[i], at[i]),
            (),
        ) by {
            assert(rest[i] == calls[i + 1]);
        }
        assert forall|i: int, j: int|
            0 <= i < rest.len() && j == i + 1 && j < rest.len() implies *final(#[trigger] rest[i])
            == *#[trigger] rest[j] by {
            assert(rest[i] == calls[i + 1] && rest[j] == calls[j + 1]);
        }
        events_leave_a_peer(rest, after, at, ip@);
        assert(*final(calls[0]) == *calls[1]);
        assert(rest[0] == calls[1]);
        assert(rest.last() == calls.last());
    }
    let known = old(last).peers@;
    assert(known.dom().contains(ip@) && known[ip@].name == name@ && known[ip@].seen == times[0]);
    assert(final(last)@.peers == final(last).peers@);
    assert(final(last).peers@.dom().contains(ip@) <==> (now as int) < times[0] + 8_000_000_000);
}

/// What is sent is what was typed without the line ends at its end: a beginning of
/// it, and every character after that beginning is a line feed or a carriage return.
/// It is logged as it is sent, and what was typed is cleared. A text is sent exactly
/// where there is a connection and a character that is no line end.
pub proof fn typed_text_is_sent<S>(app: &mut App, request: Option<ToNet<S>>)
    requires
        call_ensures(App::send_text::<S>, (app,), request),
    ensures
        request is Some <==> old(app).connected is Some && exists|k: int|
            0 <= k < old(app).input@.len() && #[trigger] old(app).input@[k] != '\n' && old(
                app,
            ).input@[k] != '\r',
        request matches Some(r) ==> r is SendText,
        request matches Some(ToNet::SendText(t)) ==> {
            let typed = old(app).input@;
            let line = final(app).log@[old(app).log@.len() as int];
            &&& 0 < t@.len() <= typed.len()
            &&& forall|k: int| 0 <= k < t@.len() ==> #[trigger] t@[k] == typed[k]
            &&& forall|k: int|
                t@.len() <= k < typed.len() ==> #[trigger] typed[k] == '\n' || typed[k] == '\r'
            &&& t@[t@.len() - 1] != '\n' && t@[t@.len() - 1] != '\r'
            &&& log_grows(*old(app), *final(app), 1)
            &&& line.kind == Kind::Me
            &&& line.text@ == t@
            &&& line.path is None
            &&& final(app).input@.len() == 0
        },
        final(app).peer_ip@ == old(app).peer_ip@,
        final(app).passphrase@ == old(app).passphrase@,
        final(app).last_psk@ == old(app).last_psk@,
        same_addresses(*old(app), *final(app)),
        final(app).status@ == old(app).status@,
        same_connection(*old(app), *final(app)),
        final(app).peers@ == old(app).peers@,
{
    view_tells(*old(app), *final(app));
    let typed = old(app).input@;
    let n = text::without_end_is_prefix(typed, text::line_end());
    laws::text::without_end_removes_only(typed, text::line_end());
    assert forall|k: int| n <= k < typed.len() implies #[trigger] typed[k] == '\n' || typed[k]
        == '\r' by {
        assert(text::line_end()(typed[k]));
    }
    assert(typed.take(n).len() == n);
    if n > 0 {
        assert(!text::line_end()(typed[n - 1]));
        assert(typed[n - 1] != '\n' && typed[n - 1] != '\r');
    }
}

/// Where nothing is sent, what was typed stays. Without a connection the user is told
/// so in the log; where there is nothing to send but line ends, nothing happens.
pub proof fn unsent_text_stays<S>(app: &mut App, request: Option<ToNet<S>>)
    requires
        call_ensures(App::send_text::<S>, (app,), request),
        request is None,
    ensures
        final(app).input@ == old(app).input@,
        (forall|k: int|
            0 <= k < old(app).input@.len() ==> #[trigger] old(app).input@[k] == '\n' || old(
                app,
            ).input@[k] == '\r') ==> log_grows(*old(app), *final(app), 0),
        (exists|k: int|
            0 <= k < old(app).input@.len() && #[trigger] old(app).input@[k] != '\n' && old(
                app,
            ).input@[k] != '\r') ==> log_grows(*old(app), *final(app), 1) && ({
            let line = final(app).log@[old(app).log@.len() as int];
            &&& line.kind == Kind::Error
            &&& line.text@ == "Нет соединения — сначала подключитесь"@
            &&& line.path is None
        }),
{
    view_tells(*old(app), *final(app));
    let typed = old(app).input@;
    let n = text::without_end_is_prefix(typed, text::line_end());
    laws::text::without_end_removes_only(typed, text::line_end());
    assert forall|k: int| n <= k < typed.len() implies #[trigger] typed[k] == '\n' || typed[k]
        == '\r' by {
        assert(text::line_end()(typed[k]));
    }
    assert(typed.take(n).len() == n);
    if n > 0 {
        assert(!text::line_end()(typed[n - 1]));
        assert(typed[n - 1] != '\n' && typed[n - 1] != '\r');
    }
}

/// A file is asked for exactly where there is a connection. Without one the user is
/// told so in the log. Nothing else changes.
pub proof fn file_needs_a_connection(app: &mut App, ask: bool)
    requires
        call_ensures(App::ask_for_file, (app,), ask),
    ensures
        ask == old(app).connected is Some,
        ask ==> log_grows(*old(app), *final(app), 0),
        !ask ==> log_grows(*old(app), *final(app), 1) && ({
            let line = final(app).log@[old(app).log@.len() as int];
            &&& line.kind == Kind::Error
            &&& line.text@ == "Нет соединения — сначала подключитесь"@
            &&& line.path is None
        }),
        final(app).status@ == old(app).status@,
        same_connection(*old(app), *final(app)),
        same_typed(*old(app), *final(app)),
        final(app).peers@ == old(app).peers@,
{
    view_tells(*old(app), *final(app));
}

/// The picked file is sent, and logged with its name and its path. Nothing else
/// changes.
pub proof fn picked_file_is_sent<S>(
    app: &mut App,
    path: PathBuf,
    name: Option<String>,
    request: ToNet<S>,
)
    requires
        call_ensures(App::send_picked_file::<S>, (app, path, name), request),
    ensures
        request matches ToNet::SendFile(p) && p == path,
        log_grows(*old(app), *final(app), 1),
        ({
            let line = final(app).log@[old(app).log@.len() as int];
            &&& line.kind == Kind::FileOut
            &&& name matches Some(n) ==> line.text@ == "Отправка файла: "@ + n@
            &&& name is None ==> line.text@ == "Отправка файла: "@
            &&& line.path == Some(path)
        }),
        final(app).status@ == old(app).status@,
        same_connection(*old(app), *final(app)),
        same_typed(*old(app), *final(app)),
        final(app).peers@ == old(app).peers@,
{
    view_tells(*old(app), *final(app));
    assert("Отправка файла: "@ + Seq::<char>::empty() =~= "Отправка файла: "@);
}

/// A line that is added is the last one. Nothing else changes.
pub proof fn pushed_line_is_the_last(app: &mut App, kind: Kind, text: String, path: Option<PathBuf>)
    requires
        call_ensures(App::push, (app, kind, text, path), ()),
    ensures
        log_grows(*old(app), *final(app), 1),
        ({
            let line = final(app).log@[old(app).log@.len() as int];
            line.kind == kind && line.text@ == text@ && line.path == path
        }),
        final(app).status@ == old(app).status@,
        same_connection(*old(app), *final(app)),
        same_typed(*old(app), *final(app)),
        final(app).peers@ == old(app).peers@,
{
    view_tells(*old(app), *final(app));
}

/// At the start there is nothing but the addresses of this machine and a status.
pub proof fn window_starts_empty(local_ips: Vec<String>, app: App)
    requires
        call_ensures(App::new, (local_ips,), app),
    ensures
        app.peer_ip@.len() == 0,
        app.input@.len() == 0,
        app.log@.len() == 0,
        app.status@ == "Запуск…"@,
        app.connected is None,
        app.passphrase@.len() == 0,
        app.last_psk@.len() == 0,
        app.local_ips@.len() == local_ips@.len(),
        forall|i: int|
            0 <= i < local_ips@.len() ==> (#[trigger] app.local_ips@[i])@ == local_ips@[i]@,
        forall|ip: Seq<char>| !#[trigger] app.peers@.dom().contains(ip),
{
    assert(app@.log.len() == app.log@.len());
    assert(app@.local_ips.len() == app.local_ips@.len());
    assert(text::views(local_ips@).len() == local_ips@.len());
    assert forall|i: int| 0 <= i < local_ips@.len() implies (#[trigger] app.local_ips@[i])@
        == local_ips@[i]@ by {
        assert(app@.local_ips[i] == app.local_ips@[i]@);
        assert(text::views(local_ips@)[i] == local_ips@[i]@);
    }
}

/// A passphrase is handed on where it differs from the one that was handed on last,
/// and is then the last one. Nothing else changes.
pub proof fn new_passphrase_is_handed_on(app: &mut App, changed: Option<String>)
    requires
        call_ensures(App::changed_passphrase, (app,), changed),
    ensures
        changed is Some <==> old(app).passphrase@ != old(app).last_psk@,
        changed matches Some(p) ==> p@ == old(app).passphrase@,
        final(app).last_psk@ == old(app).passphrase@,
        final(app).passphrase@ == old(app).passphrase@,
        final(app).peer_ip@ == old(app).peer_ip@,
        final(app).input@ == old(app).input@,
        same_addresses(*old(app), *final(app)),
        log_grows(*old(app), *final(app), 0),
        final(app).status@ == old(app).status@,
        same_connection(*old(app), *final(app)),
        final(app).peers@ == old(app).peers@,
{
    view_tells(*old(app), *final(app));
}

/// A passphrase is handed on once.
pub proof fn passphrase_is_handed_on_once(
    app: &mut App,
    again: &mut App,
    first: Option<String>,
    second: Option<String>,
)
    requires
        call_ensures(App::changed_passphrase, (app,), first),
        *old(again) == *final(app),
        call_ensures(App::changed_passphrase, (again,), second),
    ensures
        second is None,
{
}

/// The address to connect to is what was typed without the white space at both ends;
/// where nothing else was typed, there is none. `r` is where it starts and ends.
pub proof fn typed_address_is_connected_to<S>(app: &App, request: Option<ToNet<S>>) -> (r: (
    int,
    int,
))
    requires
        call_ensures(App::connect::<S>, (app,), request),
    ensures
        0 <= r.0 <= r.1 <= app.peer_ip@.len(),
        request is Some <==> r.0 < r.1,
        request matches Some(q) ==> (q matches ToNet::Connect(ip) && ip@ == app.peer_ip@.subrange(
            r.0,
            r.1,
        )),
        forall|k: int|
            0 <= k < r.0 || r.1 <= k < app.peer_ip@.len() ==> {
                let c = #[trigger] app.peer_ip@[k] as int;
                9 <= c <= 13 || c == 32 || c == 0x85 || c == 0xa0 || c == 0x1680 || 0x2000 <= c
                    <= 0x200a || c == 0x2028 || c == 0x2029 || c == 0x202f || c == 0x205f || c
                    == 0x3000
            },
        forall|k: int|
            (k == r.0 || k == r.1 - 1) && r.0 < r.1 ==> {
                let c = #[trigger] app.peer_ip@[k] as int;
                !(9 <= c <= 13 || c == 32 || c == 0x85 || c == 0xa0 || c == 0x1680 || 0x2000 <= c
                    <= 0x200a || c == 0x2028 || c == 0x2029 || c == 0x202f || c == 0x205f || c
                    == 0x3000)
            },
{
    laws::text::trimmed_between_blanks(app.peer_ip@)
}

/// The status is shown after a mark, which is green where there is a connection and
/// white where there is none.
pub proof fn status_is_shown_after_a_mark(app: &App, s: String)
    requires
        call_ensures(App::status_line, (app,), s),
    ensures
        app.connected is Some ==> s@ == seq!['🟢', ' '] + app.status@,
        app.connected is None ==> s@ == seq!['⚪', ' '] + app.status@,
{
    reveal_strlit("🟢");
    reveal_strlit("⚪");
    reveal_strlit(" ");
    assert("🟢"@ + " "@ =~= seq!['🟢', ' ']);
    assert("⚪"@ + " "@ =~= seq!['⚪', ' ']);
}

/// The addresses of this machine are shown with a comma and a space between them, and
/// with the port; where there are none, nothing is shown.
pub proof fn addresses_are_shown_with_the_port(app: &App, joined: String, s: Option<String>)
    requires
        call_ensures(App::addresses_line, (app,), s),
        call_ensures(text::join_all, (&app.local_ips, ", "), joined),
    ensures
        s is None <==> app.local_ips@.len() == 0,
        s matches Some(t) ==> t@ == joined@ + "  (порт "@ + seq!['9', '0', '0', '9'] + ")"@,
{
    laws::text::numeral_of_the_port();
    assert(app@.local_ips.len() == app.local_ips@.len());
}

/// A found peer is shown with its name and its address.
pub proof fn peer_is_shown_with_name_and_address(ip: &str, name: &str, s: String)
    requires
        call_ensures(window::peer_label, (ip, name), s),
    ensures
        s@ == seq!['🖧', ' '] + name@ + seq![' ', '('] + ip@ + seq![')'],
{
    reveal_strlit("🖧 ");
    reveal_strlit(" (");
    reveal_strlit(")");
    assert("🖧 "@ =~= seq!['🖧', ' ']);
    assert(" ("@ =~= seq![' ', '(']);
    assert(")"@ =~= seq![')']);
}

/// Every line is marked in brackets with its kind.
pub proof fn lines_are_marked(e: &Entry, s: String)
    requires
        call_ensures(Entry::heading, (e,), s),
    ensures
        e.kind is Me ==> s@ == "[Я]"@,
        e.kind is Peer ==> s@ == "[Собеседник]"@,
        e.kind is System ==> s@ == "[Система]"@,
        e.kind is Error ==> s@ == "[Ошибка]"@,
        e.kind is FileIn ==> s@ == "[Файл ↓]"@,
        e.kind is FileOut ==> s@ == "[Файл ↑]"@,
{
    reveal_strlit("[");
    reveal_strlit("]");
    reveal_strlit("Я");
    reveal_strlit("[Я]");
    reveal_strlit("Собеседник");
    reveal_strlit("[Собеседник]");
    reveal_strlit("Система");
    reveal_strlit("[Система]");
    reveal_strlit("Ошибка");
    reveal_strlit("[Ошибка]");
    reveal_strlit("Файл ↓");
    reveal_strlit("[Файл ↓]");
    reveal_strlit("Файл ↑");
    reveal_strlit("[Файл ↑]");
    match e.kind {
        Kind::Me => assert(s@ =~= "[Я]"@),
        Kind::Peer => assert(s@ =~= "[Собеседник]"@),
        Kind::System => assert(s@ =~= "[Система]"@),
        Kind::Error => assert(s@ =~= "[Ошибка]"@),
        Kind::FileIn => assert(s@ =~= "[Файл ↓]"@),
        Kind::FileOut => assert(s@ =~= "[Файл ↑]"@),
    }
}

/// The marks are what stands in the brackets of a line.
pub proof fn marks_stand_in_the_brackets(e: &Entry, heading: String, tag: &'static str)
    requires
        call_ensures(Entry::heading, (e,), heading),
        call_ensures(Kind::tag, (e.kind,), tag),
    ensures
        heading@ == seq!['['] + tag@ + seq![']'],
{
    reveal_strlit("[");
    reveal_strlit("]");
    assert("["@ =~= seq!['[']);
    assert("]"@ =~= seq![']']);
}

/// The mark of each kind has its colour; that of what the system says is grey.
pub proof fn marks_are_coloured(kind: Kind, rgb: Option<(u8, u8, u8)>)
    requires
        call_ensures(Kind::color, (kind,), rgb),
    ensures
        kind is Me ==> rgb == Some((90u8, 170u8, 255u8)),
        kind is Peer ==> rgb == Some((120u8, 220u8, 120u8)),
        kind is System ==> rgb is None,
        kind is Error ==> rgb == Some((240u8, 120u8, 120u8)),
        kind is FileIn || kind is FileOut ==> rgb == Some((230u8, 190u8, 90u8)),
{
}

/// What the two sides wrote can be copied, and nothing else.
pub proof fn written_texts_can_be_copied(kind: Kind, b: bool)
    requires
        call_ensures(Kind::copies, (kind,), b),
    ensures
        b <==> kind is Me || kind is Peer,
{
}

/// A received file can be opened where it lies, and nothing else.
pub proof fn received_files_can_be_opened(e: &Entry, path: Option<PathBuf>)
    requires
        call_ensures(Entry::opens, (e,), path),
    ensures
        e.kind is FileIn ==> path == e.path,
        !(e.kind is FileIn) ==> path is None,
{
}

/// Six fonts are tried in a fixed order.
pub proof fn six_fonts_are_tried(tried: usize, path: Option<&'static str>)
    requires
        call_ensures(window::font_candidate, (tried,), path),
    ensures
        path is Some <==> tried < 6,
        path matches Some(p) ==> p@ == (match tried {
            0usize => "/usr/share/fonts/dejavu-sans-fonts/DejaVuSans.ttf"@,
            1usize => "/usr/share/fonts/dejavu/DejaVuSans.ttf"@,
            2usize => "/usr/share/fonts/truetype/dejavu/DejaVuSans.ttf"@,
            3usize => "/usr/share/fonts/liberation-sans/LiberationSans-Regular.ttf"@,
            4usize => "C:\\Windows\\Fonts\\segoeui.ttf"@,
            _ => "C:\\Windows\\Fonts\\arial.ttf"@,
        }),
{
}

} // verus!
