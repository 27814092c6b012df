use lchat::frame::{read_frame, write_frame};
use lchat::message::{file_frame, text_frame};
use lchat::net::{
    complete_address, listening, reader_step, saved, waiting, Action, Event, FromNet, Manager, ReaderAction, Sent,
    ToNet, PORT,
};
use std::path::PathBuf;

/// An action in words.
fn show(a: &Action<u32>) -> String {
    match a {
        Action::Tell(e) => format!("tell {}", tell(e)),
        Action::Shutdown(s) => format!("shutdown {s}"),
        Action::Prepare(s) => format!("prepare {s}"),
        Action::Dial(addr) => format!("dial {addr}"),
        Action::StartReader(s) => format!("read {s}"),
        Action::ReadFile(p) => format!("load {}", p.display()),
        Action::Write { frame, sent } => match sent {
            Sent::Text => format!("write {frame:?}"),
            Sent::File { name, size } => format!("write {frame:?} for {name} {size}"),
        },
    }
}

fn tell(e: &FromNet) -> String {
    match e {
        FromNet::Status(s) => format!("status {s}"),
        FromNet::Connected(s) => format!("connected {s}"),
        FromNet::Disconnected => "disconnected".to_string(),
        FromNet::Text(s) => format!("text {s}"),
        FromNet::File { name, path, size } => format!("file {name} {} {size}", path.display()),
        FromNet::Discovered { name, ip } => format!("discovered {name} {ip}"),
        FromNet::Error(s) => format!("error {s}"),
    }
}

fn step(m: &mut Manager<u32>, e: Event<u32>) -> Vec<String> {
    m.step(e).iter().map(show).collect()
}

fn connected() -> Manager<u32> {
    Manager { current: Some(1) }
}

#[test]
fn addresses_are_completed() {
    assert_eq!(PORT, 9009);
    assert_eq!(complete_address("192.168.1.42"), "192.168.1.42:9009");
    assert_eq!(complete_address("192.168.1.42:80"), "192.168.1.42:80");
    assert_eq!(complete_address("::1"), "::1");
    assert_eq!(complete_address(""), ":9009");
    for addr in ["10.0.0.2", "10.0.0.2:80", ""] {
        let full = complete_address(addr);
        assert_eq!(complete_address(&full), full);
    }
}

#[test]
fn the_listener_reports() {
    assert_eq!(waiting(), "Ожидаю подключений на порту 9009");
    assert_eq!(tell(&listening(Ok(()))), "status Ожидаю подключений на порту 9009");
    assert_eq!(
        tell(&listening(Err("занят".to_string()))),
        "error Не удалось занять порт 9009: занят. Возможно, приложение уже запущено."
    );
}

#[test]
fn an_inbound_connection_becomes_active() {
    let mut m: Manager<u32> = Manager::new();
    assert_eq!(step(&mut m, Event::Command(ToNet::Inbound(7))), vec!["prepare 7"]);
    assert_eq!(m.current, None);
    let e = Event::Prepared { stream: 7, peer: Some("10.0.0.2:5000".to_string()), read_half: Ok(8) };
    assert_eq!(step(&mut m, e), vec!["tell connected 10.0.0.2:5000", "read 8"]);
    assert_eq!(m.current, Some(7));
}

#[test]
fn a_new_connection_replaces_the_old_one() {
    let mut m = connected();
    assert_eq!(step(&mut m, Event::Command(ToNet::Inbound(7))), vec!["shutdown 1", "prepare 7"]);
    assert_eq!(m.current, None);
    let e = Event::Prepared { stream: 7, peer: None, read_half: Err("нет".to_string()) };
    assert_eq!(step(&mut m, e), vec!["tell error Ошибка соединения: нет"]);
    assert_eq!(m.current, None);
    let e = Event::Prepared { stream: 9, peer: None, read_half: Ok(10) };
    assert_eq!(step(&mut m, e), vec!["tell connected неизвестно", "read 10"]);
    assert_eq!(m.current, Some(9));
}

#[test]
fn dialing() {
    let mut m = connected();
    assert_eq!(
        step(&mut m, Event::Command(ToNet::Connect("10.0.0.3".to_string()))),
        vec!["tell status Подключаюсь к 10.0.0.3:9009…", "dial 10.0.0.3:9009"]
    );
    assert_eq!(m.current, Some(1));
    assert_eq!(
        step(&mut m, Event::Dialed(Err("отказ".to_string()))),
        vec!["tell error Не удалось подключиться: отказ"]
    );
    assert_eq!(m.current, Some(1));
    assert_eq!(step(&mut m, Event::Dialed(Ok(4))), vec!["shutdown 1", "prepare 4"]);
    assert_eq!(m.current, None);
}

#[test]
fn sending_a_text() {
    let mut m = connected();
    let out = step(&mut m, Event::Command(ToNet::SendText("да".to_string())));
    assert_eq!(out, vec![format!("write {:?}", text_frame("да"))]);
    assert!(step(&mut m, Event::Written { sent: Sent::Text, result: Ok(()) }).is_empty());
    assert_eq!(m.current, Some(1));
    let e = Event::Written { sent: Sent::Text, result: Err("обрыв".to_string()) };
    assert_eq!(step(&mut m, e), vec!["tell error Ошибка отправки: обрыв", "tell disconnected"]);
    assert_eq!(m.current, None);
}

#[test]
fn sending_a_file() {
    let mut m = connected();
    assert_eq!(step(&mut m, Event::Command(ToNet::SendFile(PathBuf::from("/tmp/a")))), vec!["load /tmp/a"]);
    let e = Event::FileRead { name: Some("a".to_string()), data: Ok(vec![1, 2]) };
    assert_eq!(step(&mut m, e), vec![format!("write {:?} for a 2", file_frame("a", &[1, 2]))]);
    let e = Event::FileRead { name: None, data: Ok(vec![]) };
    assert_eq!(step(&mut m, e), vec![format!("write {:?} for file.bin 0", file_frame("file.bin", &[]))]);
    let e = Event::FileRead { name: None, data: Err("нет файла".to_string()) };
    assert_eq!(step(&mut m, e), vec!["tell error Не удалось прочитать файл: нет файла"]);
    let sent = Sent::File { name: "a".to_string(), size: 1536 };
    assert_eq!(
        step(&mut m, Event::Written { sent, result: Ok(()) }),
        vec!["tell status Файл отправлен: a (1.5 КБ)"]
    );
    assert_eq!(m.current, Some(1));
    let sent = Sent::File { name: "a".to_string(), size: 2 };
    let e = Event::Written { sent, result: Err("обрыв".to_string()) };
    assert_eq!(step(&mut m, e), vec!["tell error Ошибка отправки: обрыв", "tell disconnected"]);
    assert_eq!(m.current, None);
}

#[test]
fn sending_without_a_connection() {
    let mut m: Manager<u32> = Manager::new();
    let refused = vec!["tell error Нет активного соединения"];
    assert_eq!(step(&mut m, Event::Command(ToNet::SendText("да".to_string()))), refused);
    assert_eq!(step(&mut m, Event::FileRead { name: None, data: Ok(vec![1]) }), refused);
}

#[test]
fn disconnecting() {
    let mut m = connected();
    assert_eq!(step(&mut m, Event::Command(ToNet::Disconnect)), vec!["shutdown 1", "tell disconnected"]);
    assert_eq!(m.current, None);
    assert_eq!(step(&mut m, Event::Command(ToNet::Disconnect)), vec!["tell disconnected"]);
}

#[test]
fn the_reader_decides() {
    match reader_step(Some((0, "да".as_bytes().to_vec()))) {
        ReaderAction::Tell(e) => assert_eq!(tell(&e), "text да"),
        _ => panic!("no event"),
    }
    match reader_step(Some((1, vec![0, 1, b'/', 4, 5]))) {
        ReaderAction::Save { name, safe, data } => {
            assert_eq!(name, "/");
            assert_eq!(safe, "file.bin");
            assert_eq!(data, vec![4, 5]);
        }
        _ => panic!("no file"),
    }
    assert!(matches!(reader_step(Some((1, vec![0]))), ReaderAction::Skip));
    assert!(matches!(reader_step(Some((3, vec![]))), ReaderAction::Skip));
    match reader_step(None) {
        ReaderAction::Stop(e) => assert_eq!(tell(&e), "disconnected"),
        _ => panic!("no end"),
    }
}

#[test]
fn saved_files_are_reported() {
    let path = PathBuf::from("/d/x (1)");
    assert_eq!(tell(&saved("x".to_string(), path.clone(), &[1, 2, 3], Ok(()))), "file x /d/x (1) 3");
    assert_eq!(
        tell(&saved("x".to_string(), path, &[1, 2, 3], Err("нет места".to_string()))),
        "error Не удалось сохранить файл: нет места"
    );
}

/// What a reader tells of all that comes in; every save succeeds.
fn run(mut input: &[u8]) -> Vec<String> {
    let mut told = Vec::new();
    loop {
        match reader_step(read_frame(&mut input).ok()) {
            ReaderAction::Tell(e) => told.push(tell(&e)),
            ReaderAction::Save { name, safe, data } => {
                told.push(tell(&saved(name, PathBuf::from(safe), &data, Ok(()))));
            }
            ReaderAction::Skip => {}
            ReaderAction::Stop(e) => {
                told.push(tell(&e));
                return told;
            }
        }
    }
}

#[test]
fn a_reader_ends_with_one_disconnected() {
    assert_eq!(run(&[]), vec!["disconnected"]);
    assert_eq!(run(&[0xff; 40]), vec!["disconnected"]);
    let mut a = text_frame("раз");
    write_frame(&mut a, 9, &[1, 2]);
    a.extend_from_slice(&file_frame("../f", &[1, 2, 3]));
    assert_eq!(run(&a), vec!["text раз", "file ../f f 3", "disconnected"]);
    // A frame that breaks off is told of as the end alone.
    assert_eq!(run(&a[..a.len() - 1]), vec!["text раз", "disconnected"]);
}

#[test]
fn runs_of_frames_are_told_of_one_after_the_other() {
    let mut a = text_frame("раз");
    a.extend_from_slice(&file_frame("f", &[]));
    let mut b = text_frame("два");
    b.extend_from_slice(&text_frame("три"));
    let mut both = a.clone();
    both.extend_from_slice(&b);
    let mut want = run(&a);
    assert_eq!(want.pop(), Some("disconnected".to_string()));
    want.extend(run(&b));
    assert_eq!(run(&both), want);
    assert_eq!(run(&b), vec!["text два", "text три", "disconnected"]);
}
