// How the host comes up, played through without a bus.

use rustbus::{ByteOrder, MessageBuilder};
use rustsni::message::{Message, MessageType};
use rustsni::startup::Startup;
use rustsni::tray::{Answer, Request};
use rustsni::watcher::{self, NameVerdict};
use rustsni::wire::Body;
use rustsni::{Error, TrayHost};

fn message(typ: MessageType, response_serial: Option<u32>, body: Body) -> Message {
    Message {
        typ,
        interface: None,
        member: None,
        object: None,
        destination: None,
        sender: None,
        error_name: None,
        serial: None,
        response_serial,
        body,
    }
}

fn number(n: u32) -> Body {
    let mut message =
        MessageBuilder::with_byteorder(ByteOrder::LittleEndian).signal("a.b", "C", "/d").build();
    message.body.push_param(n).unwrap();
    Body {
        signature: "u".to_owned(),
        bytes: message.get_buf().to_vec(),
        big_endian: false,
        fds: 0,
    }
}

fn names(list: &[&str]) -> Body {
    let mut message =
        MessageBuilder::with_byteorder(ByteOrder::LittleEndian).signal("a.b", "C", "/d").build();
    message.body.push_param(list).unwrap();
    Body {
        signature: "as".to_owned(),
        bytes: message.get_buf().to_vec(),
        big_endian: false,
        fds: 0,
    }
}

fn three(name: &str, old: &str, new: &str) -> Body {
    let mut message =
        MessageBuilder::with_byteorder(ByteOrder::LittleEndian).signal("a.b", "C", "/d").build();
    for text in [name, old, new] {
        message.body.push_param(text).unwrap();
    }
    Body {
        signature: "sss".to_owned(),
        bytes: message.get_buf().to_vec(),
        big_endian: false,
        fds: 0,
    }
}

fn granted(serial: u32) -> Message {
    message(MessageType::Reply, Some(serial), number(1))
}

fn sent_text(request: &Request) -> (String, String) {
    match request {
        Request::Send(message) => (
            message.member.clone().unwrap(),
            message.body.read_string().unwrap_or_default(),
        ),
        other => panic!("expected to send, not {:?}", other),
    }
}

/// Brings the host up. `host_wait` and `list_wait` arrive before the awaited answers.
fn come_up(
    host: &mut TrayHost,
    host_wait: Vec<Message>,
    list_wait: Vec<Message>,
    listed: Message,
) -> Vec<(String, String)> {
    let mut sent = Vec::new();
    let mut host_wait = host_wait;
    let mut list_wait = list_wait;
    let mut listed = Some(listed);
    let (mut stage, mut request) = host.start();
    let mut serial = 0;
    loop {
        let answer = match request {
            Request::Send(_) => {
                sent.push(sent_text(&request));
                serial += 1;
                Answer::Sent(serial, 0)
            }
            Request::Receive => Answer::Received(match stage {
                Startup::AwaitingHost(n) => {
                    if host_wait.is_empty() {
                        granted(n)
                    } else {
                        host_wait.remove(0)
                    }
                }
                Startup::AwaitingList(n) => {
                    if list_wait.is_empty() {
                        let mut list = listed.take().unwrap();
                        list.response_serial = Some(n);
                        list
                    } else {
                        list_wait.remove(0)
                    }
                }
                Startup::AwaitingFirst(n) | Startup::AwaitingSecond(n) => granted(n),
                other => panic!("unexpected wait in {:?}", other),
            }),
            Request::Finished(events) => {
                assert!(events.is_empty());
                return sent;
            }
            other => panic!("unexpected request {:?}", other),
        };
        let next = host.start_resume(stage, answer);
        stage = next.0;
        request = next.1;
    }
}

fn probes(host: &mut TrayHost) -> Vec<String> {
    // Refuse every probe, until none is sent.
    let mut names = Vec::new();
    let mut refusal: Option<u32> = None;
    loop {
        let mut turn = host.poll();
        let mut sent = 0;
        loop {
            let answer = match turn.request {
                Request::Proceed => Answer::Proceed,
                Request::Send(message) => {
                    sent += 1;
                    names.push(message.destination.unwrap_or_default());
                    Answer::Sent(names.len() as u32, 0)
                }
                Request::Read => match refusal {
                    Some(_) => Answer::Progress,
                    None => Answer::TimedOut(0),
                },
                Request::Take => match refusal.take() {
                    Some(serial) => {
                        Answer::Received(message(MessageType::Error, Some(serial), Body::new()))
                    }
                    None => Answer::Nothing,
                },
                Request::Finished(_) => break,
                other => panic!("unexpected request {:?}", other),
            };
            turn = host.resume(turn.poll, answer);
        }
        if sent == 0 {
            return names;
        }
        refusal = Some(names.len() as u32);
    }
}

#[test]
fn the_host_comes_up_in_order() {
    let mut host = TrayHost::new(99);
    let list = message(MessageType::Reply, None, names(&["org.freedesktop.DBus", ":1.1", ":1.2"]));
    let sent = come_up(&mut host, vec![], vec![], list);
    let expected: Vec<(&str, &str)> = vec![
        ("RequestName", "org.freedesktop.StatusNotifierWatcher"),
        ("RequestName", "org.kde.StatusNotifierWatcher"),
        (
            "AddMatch",
            "type='signal',interface='org.freedesktop.DBus',member='NameOwnerChanged'",
        ),
        ("AddMatch", "type='signal',interface='com.canonical.dbusmenu'"),
        ("RequestName", "org.freedesktop.StatusNotifierHost-99"),
        ("StatusNotifierHostRegistered", ""),
        ("ListNames", ""),
    ];
    let expected: Vec<(String, String)> =
        expected.iter().map(|(a, b)| (a.to_string(), b.to_string())).collect();
    assert_eq!(sent, expected);
    // the unique names are probed, one after the other
    assert_eq!(probes(&mut host), vec![":1.1", ":1.2"]);
}

#[test]
fn messages_while_coming_up_are_kept() {
    let mut host = TrayHost::new(99);
    let call = |serial: u32| {
        let mut call = message(MessageType::Call, None, Body::new());
        call.sender = Some(format!(":1.{serial}"));
        call.serial = Some(serial);
        call.object = Some("/".to_owned());
        call
    };
    let list = message(MessageType::Reply, None, names(&[]));
    come_up(&mut host, vec![call(1), call(2)], vec![call(3)], list);
    let mut answered = Vec::new();
    let mut turn = host.poll();
    loop {
        let answer = match turn.request {
            Request::Proceed => Answer::Proceed,
            Request::Send(message) => {
                answered.push(message.destination.unwrap());
                Answer::Sent(1, 0)
            }
            Request::Read => Answer::TimedOut(0),
            Request::Finished(_) => break,
            other => panic!("unexpected request {:?}", other),
        };
        turn = host.resume(turn.poll, answer);
    }
    assert_eq!(answered, vec![":1.1", ":1.2", ":1.3"]);
}

#[test]
fn an_unreadable_list_of_names_does_no_harm() {
    let mut host = TrayHost::new(99);
    let list = message(MessageType::Reply, None, number(5));
    come_up(&mut host, vec![], vec![], list);
    assert!(probes(&mut host).is_empty());
    // nor does a connection that fails while the names are asked for
    let mut host = TrayHost::new(99);
    let failed = || Answer::Failed(rustbus::connection::Error::ConnectionClosed);
    let (stage, request) = host.start_resume(Startup::Listing, failed());
    assert_eq!(stage, Startup::Over);
    assert!(matches!(request, Request::Finished(_)));
    let (_, request) = host.start_resume(Startup::AwaitingList(3), failed());
    assert!(matches!(request, Request::Finished(_)));
}

#[test]
fn another_watcher_is_reported() {
    let mut host = TrayHost::new(99);
    for stage in [Startup::AwaitingFirst(8), Startup::AwaitingSecond(8)] {
        for n in [0, 2, 3, 5] {
            let refused = message(MessageType::Reply, Some(8), number(n));
            let (next, request) = host.start_resume(stage, Answer::Received(refused));
            assert_eq!(next, Startup::Over);
            assert!(matches!(request, Request::Failed(Error::WatcherAlreadyRunning)));
        }
    }
}

#[test]
fn a_connection_that_fails_keeps_the_host_from_coming_up() {
    let mut host = TrayHost::new(99);
    for stage in [
        Startup::AskingFirst,
        Startup::AwaitingFirst(1),
        Startup::AskingSecond,
        Startup::AwaitingSecond(1),
        Startup::WatchingOwners,
        Startup::WatchingMenus,
        Startup::AskingHost,
        Startup::AwaitingHost(1),
        Startup::Announcing,
    ] {
        let failed = Answer::Failed(rustbus::connection::Error::ConnectionClosed);
        let (next, request) = host.start_resume(stage, failed);
        assert_eq!(next, Startup::Over);
        assert!(matches!(
            request,
            Request::Failed(Error::Bus(rustbus::connection::Error::ConnectionClosed))
        ));
    }
}

#[test]
fn answers_to_a_name_request_are_judged() {
    let judge = |typ: MessageType, serial: Option<u32>, body: Body| {
        watcher::register(&message(typ, serial, body), 8)
    };
    assert_eq!(judge(MessageType::Reply, Some(8), number(1)), NameVerdict::GoOn);
    assert_eq!(judge(MessageType::Reply, Some(8), number(4)), NameVerdict::GoOn);
    assert_eq!(judge(MessageType::Reply, Some(8), number(2)), NameVerdict::Taken);
    assert_eq!(judge(MessageType::Reply, Some(8), number(3)), NameVerdict::Taken);
    assert_eq!(judge(MessageType::Reply, Some(8), Body::new()), NameVerdict::Taken);
    assert_eq!(judge(MessageType::Error, Some(8), number(1)), NameVerdict::Taken);
    assert_eq!(judge(MessageType::Signal, None, Body::new()), NameVerdict::Wait);
    assert_eq!(judge(MessageType::Signal, Some(9), Body::new()), NameVerdict::Wait);
    // only the answer itself decides
    assert_eq!(judge(MessageType::Reply, Some(9), number(3)), NameVerdict::Wait);
    assert_eq!(judge(MessageType::Error, Some(9), Body::new()), NameVerdict::Wait);
    assert_eq!(judge(MessageType::Call, None, Body::new()), NameVerdict::Wait);
}

#[test]
fn messages_that_arrive_while_the_host_comes_up_are_kept() {
    for stage in [
        Startup::AwaitingFirst(8),
        Startup::AwaitingSecond(8),
        Startup::AwaitingHost(8),
        Startup::AwaitingList(8),
    ] {
        let mut host = TrayHost::new(99);
        let call = message(MessageType::Call, None, Body::new());
        let (next, request) = host.start_resume(stage, Answer::Received(call));
        assert_eq!(next, stage);
        assert!(matches!(request, Request::Receive));
        // the first round answers the call
        let turn = host.poll();
        let turn = host.resume(turn.poll, Answer::Proceed);
        match turn.request {
            Request::Send(answer) => assert_eq!(answer.typ, MessageType::Reply),
            other => panic!("expected a reply, not {:?}", other),
        }
    }
}

#[test]
fn signals_are_skipped_while_a_name_of_the_watcher_is_awaited() {
    for (stage, kept) in [
        (Startup::AwaitingFirst(8), false),
        (Startup::AwaitingSecond(8), false),
        (Startup::AwaitingHost(8), true),
        (Startup::AwaitingList(8), true),
    ] {
        let mut host = TrayHost::new(99);
        let mut changed = message(MessageType::Signal, None, three(":1.50", "", ":1.50"));
        changed.interface = Some("org.freedesktop.DBus".to_owned());
        changed.member = Some("NameOwnerChanged".to_owned());
        let (next, request) = host.start_resume(stage, Answer::Received(changed));
        assert_eq!(next, stage);
        assert!(matches!(request, Request::Receive));
        // a signal that was kept leads to a probe at the end of the first round
        let mut turn = host.poll();
        while matches!(turn.request, Request::Proceed) {
            turn = host.resume(turn.poll, Answer::Proceed);
        }
        assert!(matches!(turn.request, Request::Read));
        let turn = host.resume(turn.poll, Answer::TimedOut(0));
        assert_eq!(matches!(turn.request, Request::Send(_)), kept);
        assert_eq!(matches!(turn.request, Request::Finished(_)), !kept);
    }
}

#[test]
fn only_the_reply_to_the_list_call_is_one() {
    let list = message(MessageType::Reply, Some(8), names(&[":1.5", "x"]));
    assert_eq!(
        watcher::discover_existing_items(&list, 8),
        Some(vec![":1.5".to_owned()])
    );
    assert_eq!(watcher::discover_existing_items(&list, 9), None);
    let error = message(MessageType::Error, Some(8), Body::new());
    assert_eq!(watcher::discover_existing_items(&error, 8), None);
}
