use lchat::hosts::{list_local_ips, Address};
use lchat::net::{FromNet, ToNet};
use lchat::peers::{Peers, PEER_TTL};
use lchat::window::{font_candidate, peer_label, App, Kind};
use std::path::PathBuf;

fn app() -> App {
    App::new(vec![])
}

fn online() -> App {
    let mut a = app();
    a.on_event(FromNet::Connected("10.0.0.2:9009".to_string()), 0);
    a
}

fn last(a: &App) -> (Kind, String, Option<PathBuf>) {
    let e = &a.log[a.log.len() - 1];
    (e.kind, e.text.clone(), e.path.clone())
}

#[test]
fn the_window_at_the_start() {
    let a = App::new(vec!["10.0.0.1".to_string()]);
    assert_eq!(a.status, "Запуск…");
    assert_eq!(a.status_line(), "⚪ Запуск…");
    assert_eq!(a.connected, None);
    assert!(a.log.is_empty() && a.input.is_empty() && a.peer_ip.is_empty() && a.passphrase.is_empty());
    assert!(a.peers.found().is_empty());
    assert_eq!(a.local_ips, vec!["10.0.0.1"]);
}

#[test]
fn a_text_is_sent() {
    let mut a = online();
    a.input = "да\nнет\r\n\n".to_string();
    match a.send_text::<u8>() {
        Some(ToNet::SendText(t)) => assert_eq!(t, "да\nнет"),
        _ => panic!("nothing sent"),
    }
    assert_eq!(a.input, "");
    assert_eq!(last(&a), (Kind::Me, "да\nнет".to_string(), None));
}

#[test]
fn an_empty_text_is_not_sent() {
    let mut a = online();
    a.input = "\r\n\n".to_string();
    assert!(a.send_text::<u8>().is_none());
    assert_eq!(a.input, "\r\n\n");
    assert_eq!(a.log.len(), 1);
}

#[test]
fn without_a_connection_nothing_is_sent() {
    let mut a = app();
    a.input = "да".to_string();
    assert!(a.send_text::<u8>().is_none());
    assert_eq!(a.input, "да");
    let refused = (Kind::Error, "Нет соединения — сначала подключитесь".to_string(), None);
    assert_eq!(last(&a), refused);
    assert!(!a.ask_for_file());
    assert_eq!(a.log.len(), 2);
    assert_eq!(last(&a), refused);
}

#[test]
fn a_file_is_sent() {
    let mut a = online();
    assert!(a.ask_for_file());
    assert_eq!(a.log.len(), 1);
    let path = PathBuf::from("/tmp/отчёт.pdf");
    match a.send_picked_file::<u8>(path.clone(), Some("отчёт.pdf".to_string())) {
        ToNet::SendFile(p) => assert_eq!(p, path),
        _ => panic!("nothing sent"),
    }
    assert_eq!(last(&a), (Kind::FileOut, "Отправка файла: отчёт.pdf".to_string(), Some(path.clone())));
    let _: ToNet<u8> = a.send_picked_file(path.clone(), None);
    assert_eq!(last(&a), (Kind::FileOut, "Отправка файла: ".to_string(), Some(path)));
}

#[test]
fn events_are_taken_in() {
    let mut a = app();
    a.on_event(FromNet::Status("s".to_string()), 0);
    assert_eq!(a.status, "s");
    assert!(a.log.is_empty());
    a.on_event(FromNet::Connected("p".to_string()), 0);
    assert_eq!(a.connected, Some("p".to_string()));
    assert_eq!(a.status, "Соединено с p");
    assert_eq!(a.status_line(), "🟢 Соединено с p");
    assert_eq!(last(&a), (Kind::System, "Соединение установлено: p".to_string(), None));
    a.on_event(FromNet::Text("t".to_string()), 0);
    assert_eq!(last(&a), (Kind::Peer, "t".to_string(), None));
    let path = PathBuf::from("/d/f");
    a.on_event(FromNet::File { name: "f".to_string(), path: path.clone(), size: 1024 }, 0);
    assert_eq!(last(&a), (Kind::FileIn, "Получен файл: f (1.0 КБ)".to_string(), Some(path)));
    a.on_event(FromNet::Error("e".to_string()), 0);
    assert_eq!(a.status, "e");
    assert_eq!(last(&a), (Kind::Error, "e".to_string(), None));
    assert_eq!(a.connected, Some("p".to_string()));
    a.on_event(FromNet::Disconnected, 0);
    assert_eq!(a.connected, None);
    assert_eq!(a.status, "Ожидаю подключений на порту 9009");
    assert_eq!(last(&a), (Kind::System, "Соединение разорвано".to_string(), None));
    let n = a.log.len();
    a.on_event(FromNet::Disconnected, 0);
    assert_eq!(a.log.len(), n);
}

#[test]
fn peers_are_found_and_forgotten() {
    let mut a = app();
    let hear = |a: &mut App, ip: &str, name: &str, now: u128| {
        a.on_event(FromNet::Discovered { name: name.to_string(), ip: ip.to_string() }, now)
    };
    hear(&mut a, "10.0.0.9", "nine", 0);
    hear(&mut a, "10.0.0.10", "ten", 5);
    hear(&mut a, "10.0.0.2", "two", 5);
    hear(&mut a, "10.0.0.9", "НОВЫЙ", 7);
    let found = a.peers.found();
    let mut sorted = found.clone();
    sorted.sort();
    assert_eq!(found, sorted);
    assert_eq!(found.len(), 3);
    assert_eq!(found[2], ("10.0.0.9".to_string(), "НОВЫЙ".to_string()));
    a.expire_peers(PEER_TTL + 4);
    assert_eq!(a.peers.found().len(), 3);
    a.expire_peers(PEER_TTL + 5);
    assert_eq!(a.peers.found(), vec![("10.0.0.9".to_string(), "НОВЫЙ".to_string())]);
    a.expire_peers(PEER_TTL + 5);
    assert_eq!(a.peers.found().len(), 1);
    a.expire_peers(3);
    assert_eq!(a.peers.found().len(), 1);
    a.expire_peers(PEER_TTL + 7);
    assert!(a.peers.found().is_empty());
    assert!(a.log.is_empty());
    assert_eq!(PEER_TTL, std::time::Duration::from_secs(8).as_nanos());
}

#[test]
fn peers_agree_with_a_sorted_map() {
    let mut map = std::collections::BTreeMap::<String, String>::new();
    let mut peers = Peers::new();
    let mut x: u32 = 7;
    for i in 0..300u32 {
        x = x.wrapping_mul(1664525).wrapping_add(1013904223);
        let ip = format!("10.0.{}.{}", (x >> 9) % 3, (x >> 16) % 40);
        map.insert(ip.clone(), format!("n{i}"));
        peers.insert(ip, format!("n{i}"), 1);
        let want: Vec<(String, String)> = map.iter().map(|(a, b)| (a.clone(), b.clone())).collect();
        assert_eq!(peers.found(), want);
    }
}

#[test]
fn a_changed_passphrase_is_handed_on_once() {
    let mut a = app();
    assert_eq!(a.changed_passphrase(), None);
    a.passphrase = "тайна".to_string();
    assert_eq!(a.changed_passphrase(), Some("тайна".to_string()));
    assert_eq!(a.last_psk, "тайна");
    assert_eq!(a.changed_passphrase(), None);
    a.passphrase = String::new();
    assert_eq!(a.changed_passphrase(), Some(String::new()));
}

#[test]
fn connecting_needs_an_address() {
    let mut a = app();
    a.peer_ip = " \t ".to_string();
    assert!(a.connect::<u8>().is_none());
    a.peer_ip = "  10.0.0.2:80\u{3000}".to_string();
    match a.connect::<u8>() {
        Some(ToNet::Connect(ip)) => assert_eq!(ip, "10.0.0.2:80"),
        _ => panic!("nothing asked"),
    }
}

#[test]
fn the_addresses_are_shown() {
    assert_eq!(app().addresses_line(), None);
    let a = App::new(vec!["10.0.0.1".to_string(), "10.0.0.2".to_string()]);
    assert_eq!(a.addresses_line(), Some("10.0.0.1, 10.0.0.2  (порт 9009)".to_string()));
    let b = App::new(vec!["10.0.0.1".to_string()]);
    assert_eq!(b.addresses_line(), Some("10.0.0.1  (порт 9009)".to_string()));
}

#[test]
fn lines_are_marked() {
    let mut a = app();
    let path = Some(PathBuf::from("/d"));
    let kinds = [
        (Kind::Me, "[Я]", Some((90, 170, 255)), true),
        (Kind::Peer, "[Собеседник]", Some((120, 220, 120)), true),
        (Kind::System, "[Система]", None, false),
        (Kind::Error, "[Ошибка]", Some((240, 120, 120)), false),
        (Kind::FileIn, "[Файл ↓]", Some((230, 190, 90)), false),
        (Kind::FileOut, "[Файл ↑]", Some((230, 190, 90)), false),
    ];
    for (kind, heading, color, copies) in kinds {
        a.push(kind, "x".to_string(), path.clone());
        let e = &a.log[a.log.len() - 1];
        assert_eq!(e.heading(), heading);
        assert_eq!(kind.color(), color);
        assert_eq!(kind.copies(), copies);
        assert_eq!(e.opens(), if kind == Kind::FileIn { path.clone() } else { None });
    }
    a.push(Kind::FileIn, "x".to_string(), None);
    assert_eq!(a.log[a.log.len() - 1].opens(), None);
    assert_eq!(peer_label("10.0.0.2", "два"), "🖧 два (10.0.0.2)");
}

#[test]
fn fonts_are_tried_in_order() {
    let mut all: Vec<&str> = Vec::new();
    while let Some(p) = font_candidate(all.len()) {
        all.push(p);
    }
    assert_eq!(all.len(), 6);
    assert_eq!(all[0], "/usr/share/fonts/dejavu-sans-fonts/DejaVuSans.ttf");
    assert_eq!(all[5], "C:\\Windows\\Fonts\\arial.ttf");
}

#[test]
fn local_addresses_are_listed_once() {
    let addrs = vec![
        Address::V4([127, 0, 0, 1]),
        Address::V4([192, 168, 1, 42]),
        Address::V6,
        Address::V4([169, 254, 3, 4]),
        Address::V4([10, 0, 0, 255]),
        Address::V4([192, 168, 1, 42]),
        Address::V4([169, 253, 3, 4]),
        Address::V4([127, 9, 9, 9]),
    ];
    assert_eq!(list_local_ips(&addrs), vec!["192.168.1.42", "10.0.0.255", "169.253.3.4"]);
    assert!(list_local_ips(&vec![]).is_empty());
}
