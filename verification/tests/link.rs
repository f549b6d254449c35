use zenoh_wasm::channel::{channel, Sent};
use zenoh_wasm::join::Disconnected;
use zenoh_wasm::ws_link::{
    write_command, EndPoint, LinkAuthId, LinkConfig, LinkManagerUnicastWs, LinkUnicastWs,
    PendingWrite, ReadExactStep, ReadStep,
};
use zenoh_wasm::ws_socket::{
    fail, judge_delivery, judge_frame, reply, tell, Connected, FrameVerdict, OwnerAction,
    OwnerEvent, Signal, SocketCallbacks, SocketOwner, WriteCmd,
};

struct Ends {
    link: LinkUnicastWs,
    frames: flume::Sender<Vec<u8>>,
    writes: flume::Receiver<WriteCmd>,
    close: flume::Receiver<()>,
}

fn config() -> LinkConfig {
    LinkConfig { locator_prefix: "ws".to_owned(), mtu: 1_000, reliable: true }
}

fn link() -> Ends {
    let opening = LinkUnicastWs::new();
    let (frames, recv_rx) = flume::unbounded();
    let told = tell(&opening.result_tx, recv_rx);
    assert!(told.there);
    let report = opening.result_rx.try_recv().map_err(|_| Disconnected);
    let link =
        LinkUnicastWs::opened(report, opening.close_tx, "ws/host:1".to_owned(), config()).unwrap();
    Ends { link, frames, writes: told.write_rx, close: opening.close_rx }
}

fn read(link: &mut LinkUnicastWs, buffer: &mut [u8]) -> usize {
    match link.read(buffer, true, false).0 {
        ReadStep::Done(Ok(n)) => n,
        _ => panic!("there are bytes"),
    }
}

#[test]
fn reads_give_the_bytes_in_order() {
    let mut ends = link();
    ends.frames.send(vec![1, 2, 3, 4, 5]).unwrap();
    ends.frames.send(vec![6]).unwrap();
    let mut buffer = [0u8; 2];
    assert_eq!((read(&mut ends.link, &mut buffer), buffer), (2, [1, 2]));
    assert_eq!((read(&mut ends.link, &mut buffer), buffer), (2, [3, 4]));
    assert_eq!((read(&mut ends.link, &mut buffer), buffer), (1, [5, 4]));
    assert_eq!((read(&mut ends.link, &mut buffer), buffer), (1, [6, 4]));
    assert!(matches!(ends.link.read(&mut buffer, true, false).0, ReadStep::Repoll));
    assert!(matches!(ends.link.read(&mut buffer, true, true).0, ReadStep::AwaitReceiver));
    assert_eq!(ends.link.received(Ok(vec![7, 8, 9]), &mut buffer), Ok(2));
    assert_eq!(buffer, [7, 8]);
    assert_eq!(read(&mut ends.link, &mut []), 0);
    assert_eq!((read(&mut ends.link, &mut buffer), buffer), (1, [9, 8]));
    drop(ends.frames);
    let text = "Read error on WebSocket link wasm-client => ws/host:1: receiving on a closed channel";
    match ends.link.read(&mut buffer, true, false).0 {
        ReadStep::Done(Err(error)) => assert_eq!(error, text),
        _ => panic!("the socket is gone"),
    }
    assert_eq!(ends.link.received(Err(Disconnected), &mut buffer), Err(text.to_owned()));
}

#[test]
fn whole_buffers_are_filled_by_several_frames() {
    let mut ends = link();
    ends.frames.send(vec![1, 2]).unwrap();
    ends.frames.send(vec![3, 4, 5, 6]).unwrap();
    let mut buffer = [0u8; 5];
    let mut filled = 0;
    loop {
        match ends.link.read_exact(&mut buffer, filled, true, false).0 {
            ReadExactStep::More(now) => filled = now,
            ReadExactStep::Done(result) => {
                assert_eq!(result, Ok(()));
                break;
            }
            _ => panic!("there are frames"),
        }
    }
    assert_eq!(buffer, [1, 2, 3, 4, 5]);
    let mut rest = [0u8; 3];
    assert!(matches!(
        ends.link.read_exact(&mut rest, 0, false, false).0,
        ReadExactStep::More(1)
    ));
    assert!(matches!(
        ends.link.read_exact(&mut rest, 1, false, false).0,
        ReadExactStep::AwaitReceiver
    ));
    assert!(matches!(
        ends.link.read_exact(&mut rest, 1, true, false).0,
        ReadExactStep::Repoll
    ));
    assert!(matches!(
        ends.link.received_exact(Ok(vec![7, 8, 9]), &mut rest, 1),
        ReadExactStep::More(3)
    ));
    assert_eq!(rest, [6, 7, 8]);
    let mut last = [0u8; 1];
    assert_eq!((read(&mut ends.link, &mut last), last), (1, [9]));
    assert!(matches!(
        ends.link.received_exact(Err(Disconnected), &mut last, 0),
        ReadExactStep::Done(Err(_))
    ));
}

#[test]
fn writes_are_acknowledged() {
    let ends = link();
    let pending = ends.link.write(&[1, 2, 3]).ok().unwrap();
    let WriteCmd::Send(data, ack) = ends.writes.try_recv().unwrap();
    assert_eq!(data, vec![1, 2, 3]);
    reply(ack, Ok(()));
    let answer = pending.ack_rx.try_recv().map_err(|_| Disconnected);
    assert_eq!(pending.acknowledged(answer), Ok(3));

    let pending = ends.link.write_all(&[4]).ok().unwrap();
    let WriteCmd::Send(_, ack) = ends.writes.try_recv().unwrap();
    reply(ack, Err("WebSocket is not open".to_owned()));
    let answer = pending.ack_rx.try_recv().map_err(|_| Disconnected);
    assert_eq!(pending.acknowledged_all(answer), Err("WebSocket is not open".to_owned()));

    let pending = ends.link.write(&[5]).ok().unwrap();
    drop(ends.writes);
    let answer = pending.ack_rx.try_recv().map_err(|_| Disconnected);
    assert_eq!(
        pending.acknowledged(answer),
        Err("WebSocket writer stopped: receiving on a closed channel".to_owned())
    );
    assert_eq!(
        ends.link.write(&[6]).err().map(|failed| failed.text),
        Some("Write error on WebSocket link wasm-client => ws/host:1: sending on a closed channel".to_owned())
    );
}

#[test]
fn write_commands_carry_the_bytes() {
    let (ack, ack_rx) = channel(Some(1));
    let (command, len) = write_command(&[9, 8], ack);
    let WriteCmd::Send(data, ack) = command;
    assert_eq!((data, len), (vec![9, 8], 2));
    reply(ack, Ok(()));
    assert_eq!(ack_rx.try_recv(), Ok(Ok(())));
    let ends = link();
    let (outlet, inlet) = channel(None);
    let (ack, _) = channel(Some(1));
    let posted = outlet.post(WriteCmd::Send(vec![9, 8], ack));
    let sent = ends.link.write_sent(posted, ack_rx.clone(), 2);
    assert_eq!(sent.ok().map(|pending: PendingWrite| pending.len), Some(2));
    drop(inlet);
    assert!(outlet.is_disconnected().gone());
    let (ack, _) = channel(Some(1));
    let posted = outlet.post(WriteCmd::Send(vec![9, 8], ack));
    match ends.link.write_sent(posted, ack_rx, 2) {
        Err(failed) => assert_eq!(failed.posted.sent(), Sent::Disconnected),
        Ok(_) => panic!("the owner is gone"),
    }
}

#[test]
fn closing_a_link_wakes_its_owner() {
    let ends = link();
    assert!(ends.close.try_recv().is_err());
    assert_eq!(ends.link.close().unwrap().sent(), Sent::Done);
    assert_eq!(ends.link.close().unwrap().sent(), Sent::Full);
    assert_eq!(ends.close.try_recv(), Ok(()));
}

#[test]
fn links_know_themselves() {
    let ends = link();
    assert_eq!(ends.link.get_src(), "ws/wasm-client");
    assert_eq!(ends.link.get_dst(), "ws/host:1");
    assert_eq!(ends.link.get_mtu(), 1_000);
    assert!(ends.link.is_reliable());
    assert!(!ends.link.is_streamed());
    assert!(ends.link.get_interface_names().is_empty());
    assert_eq!(ends.link.get_auth_id(), LinkAuthId::Ws);
    assert_eq!(ends.link.text(), "wasm-client => ws/host:1");
    assert!(ends.link.receiver().is_empty());
}

#[test]
fn failed_openings_are_reported() {
    let opening = LinkUnicastWs::new();
    fail(&opening.result_tx, "WebSocket failed to open".to_owned());
    let report = opening.result_rx.try_recv().map_err(|_| Disconnected);
    let link = LinkUnicastWs::opened(report, opening.close_tx, "ws/a".to_owned(), config());
    assert_eq!(link.err(), Some("WebSocket failed to open".to_owned()));
    let opening = LinkUnicastWs::new();
    let lost: Result<Result<Connected, String>, Disconnected> = Err(Disconnected);
    let link = LinkUnicastWs::opened(lost, opening.close_tx, "ws/a".to_owned(), config());
    assert_eq!(
        link.err(),
        Some("I/O worker channel closed: receiving on a closed channel".to_owned())
    );
    let opening = LinkUnicastWs::new();
    let (_frames, recv_rx) = flume::unbounded();
    drop(opening.result_rx);
    assert!(!tell(&opening.result_tx, recv_rx).there);
}

fn url(protocol: &str) -> String {
    let endpoint = EndPoint {
        protocol: protocol.to_owned(),
        address: "host:8080".to_owned(),
        locator: "locator".to_owned(),
    };
    let new = LinkManagerUnicastWs::new(()).new_link(endpoint);
    assert_eq!(new.dst_locator, "locator");
    new.url
}

#[test]
fn secure_protocols_get_secure_addresses() {
    assert_eq!(url("ws"), "ws://host:8080");
    assert_eq!(url("wss"), "wss://host:8080");
    assert_eq!(url("tls"), "wss://host:8080");
    assert_eq!(url("s"), "ws://host:8080");
    assert_eq!(url(""), "ws://host:8080");
    assert_eq!(url("ssw"), "ws://host:8080");
    assert_eq!(url("\u{e9}ss"), "wss://host:8080");
}

#[test]
fn browsers_do_not_listen() {
    let manager = LinkManagerUnicastWs::new(7);
    let endpoint = EndPoint {
        protocol: "ws".to_owned(),
        address: "a".to_owned(),
        locator: "ws/a".to_owned(),
    };
    let text = "WebSocket listeners are not supported on WASM".to_owned();
    assert_eq!(manager.del_listener(&endpoint), Err(text.clone()));
    assert_eq!(manager.new_listener(endpoint), Err(text));
    assert!(manager.get_listeners().is_empty());
    assert!(manager.get_locators().is_empty());
    assert!(manager.get_locators_noloopback().is_empty());
}

#[test]
fn frames_are_judged_by_their_length() {
    assert_eq!(judge_frame(Some(0), 10), FrameVerdict::Ignore);
    assert_eq!(judge_frame(Some(10), 10), FrameVerdict::Accept);
    assert_eq!(judge_frame(Some(11), 10), FrameVerdict::Reject(Signal::FrameTooLong));
    assert_eq!(judge_frame(None, 10), FrameVerdict::Reject(Signal::NotBinary));
    assert_eq!(judge_delivery(Sent::Done), None);
    assert_eq!(judge_delivery(Sent::Full), Some(Signal::BacklogExceeded));
    assert_eq!(judge_delivery(Sent::Disconnected), Some(Signal::StreamClosed));
}

#[test]
fn callbacks_signal_the_owner() {
    let socket = SocketCallbacks::new(10);
    let ignored = socket.callbacks.on_message(Some(0));
    assert!(!ignored.copy && ignored.signalled.is_none());
    assert!(socket.event_rx.try_recv().is_err());
    let refused = socket.callbacks.on_message(Some(11));
    assert!(!refused.copy && refused.signalled.is_some());
    assert_eq!(socket.event_rx.try_recv(), Ok(Signal::FrameTooLong));
    assert!(!socket.callbacks.on_message(None).copy);
    assert_eq!(socket.event_rx.try_recv(), Ok(Signal::NotBinary));
    assert!(socket.callbacks.on_message(Some(3)).copy);
    assert!(socket.callbacks.deliver(vec![1, 2, 3]).signalled.is_none());
    assert_eq!(socket.recv_rx.try_recv(), Ok(vec![1, 2, 3]));
    socket.callbacks.signal(Signal::Opened);
    assert_eq!(socket.event_rx.try_recv(), Ok(Signal::Opened));
}

#[test]
fn receive_backlogs_are_bounded() {
    let socket = SocketCallbacks::new(10);
    for _ in 0..128 {
        assert!(socket.callbacks.deliver(vec![1]).signalled.is_none());
    }
    assert_eq!(socket.callbacks.deliver(vec![1]).frame.sent(), Sent::Full);
    assert_eq!(socket.event_rx.try_recv(), Ok(Signal::BacklogExceeded));
    drop(socket.recv_rx);
    assert_eq!(socket.callbacks.deliver(vec![1]).frame.sent(), Sent::Disconnected);
    assert_eq!(socket.event_rx.try_recv(), Ok(Signal::StreamClosed));
}

#[test]
fn signals_say_what_happened() {
    assert_eq!(Signal::Opened.text(), None);
    assert_eq!(Signal::Error.text(), Some("WebSocket error"));
    assert_eq!(Signal::Closed.text(), Some("WebSocket closed"));
    assert_eq!(Signal::FrameTooLong.text(), Some("WebSocket frame exceeds link MTU"));
    assert_eq!(Signal::BacklogExceeded.text(), Some("WebSocket receive backlog exceeded"));
    assert_eq!(Signal::StreamClosed.text(), Some("WebSocket receive stream closed"));
    assert_eq!(Signal::NotBinary.text(), Some("WebSocket received a non-binary frame"));
}

fn idle_owner() -> SocketOwner {
    let mut owner = SocketOwner::new();
    assert!(matches!(
        owner.run_socket(OwnerEvent::Created(Ok(()))),
        OwnerAction::AwaitOpen
    ));
    assert!(matches!(
        owner.run_socket(OwnerEvent::Signal(Some(Signal::Opened))),
        OwnerAction::Tell
    ));
    assert!(matches!(owner.run_socket(OwnerEvent::Told(true)), OwnerAction::AwaitCommand));
    owner
}

fn write(byte: u8) -> (OwnerEvent, flume::Receiver<Result<(), String>>) {
    let (ack, ack_rx) = channel(Some(1));
    (OwnerEvent::Command(Some(WriteCmd::Send(vec![byte], ack))), ack_rx)
}

#[test]
fn owners_serve_writes() {
    let mut owner = idle_owner();
    let (command, ack_rx) = write(5);
    assert!(matches!(owner.run_socket(command), OwnerAction::Measure));
    assert!(matches!(
        owner.run_socket(OwnerEvent::Buffered(1_048_577)),
        OwnerAction::Wait(4)
    ));
    assert!(matches!(owner.run_socket(OwnerEvent::Waited), OwnerAction::Measure));
    assert!(matches!(owner.run_socket(OwnerEvent::Buffered(1_048_576)), OwnerAction::Check));
    match owner.run_socket(OwnerEvent::Open(true)) {
        OwnerAction::Send(data) => assert_eq!(data, vec![5]),
        _ => panic!("the bytes are handed to the browser"),
    }
    match owner.run_socket(OwnerEvent::Sent(Ok(()))) {
        OwnerAction::Reply { ack, result, stop } => {
            assert!(!stop);
            reply(ack, result);
        }
        _ => panic!("the write is acknowledged"),
    }
    assert_eq!(ack_rx.try_recv(), Ok(Ok(())));
    let (command, _ack_rx) = write(6);
    assert!(matches!(owner.run_socket(command), OwnerAction::Measure));
}

#[test]
fn failed_writes_end_the_owner() {
    let mut owner = idle_owner();
    let (command, ack_rx) = write(5);
    owner.run_socket(command);
    owner.run_socket(OwnerEvent::Buffered(0));
    match owner.run_socket(OwnerEvent::Open(false)) {
        OwnerAction::Reply { ack, result, stop } => {
            assert!(stop);
            reply(ack, result);
        }
        _ => panic!("the write is refused"),
    }
    assert_eq!(ack_rx.try_recv(), Ok(Err("WebSocket is not open".to_owned())));
    assert!(matches!(owner.run_socket(OwnerEvent::Waited), OwnerAction::Stop));

    let mut owner = idle_owner();
    let (command, _ack_rx) = write(5);
    owner.run_socket(command);
    owner.run_socket(OwnerEvent::Buffered(0));
    owner.run_socket(OwnerEvent::Open(true));
    match owner.run_socket(OwnerEvent::Sent(Err("full".to_owned()))) {
        OwnerAction::Reply { result, stop, .. } => {
            assert!(stop);
            assert_eq!(result, Err("WebSocket send failed: full".to_owned()));
        }
        _ => panic!("the write failed"),
    }
}

#[test]
fn closing_ends_the_owner_while_it_waits() {
    let mut owner = idle_owner();
    let (command, ack_rx) = write(5);
    owner.run_socket(command);
    owner.run_socket(OwnerEvent::Buffered(u32::MAX));
    assert!(matches!(owner.run_socket(OwnerEvent::Close), OwnerAction::Stop));
    assert!(ack_rx.is_disconnected());
    let mut owner = idle_owner();
    assert!(matches!(
        owner.run_socket(OwnerEvent::Signal(Some(Signal::Closed))),
        OwnerAction::Stop
    ));
    let mut owner = idle_owner();
    assert!(matches!(owner.run_socket(OwnerEvent::Command(None)), OwnerAction::Stop));
}

fn failure(action: OwnerAction) -> String {
    match action {
        OwnerAction::Fail(text) => text,
        _ => panic!("the socket is not opened"),
    }
}

#[test]
fn owners_report_why_a_socket_does_not_open() {
    let mut owner = SocketOwner::new();
    assert_eq!(
        failure(owner.run_socket(OwnerEvent::Created(Err("JsValue(x)".to_owned())))),
        "WebSocket creation failed: JsValue(x)"
    );
    for signal in [Signal::Error, Signal::Closed, Signal::NotBinary] {
        let mut owner = SocketOwner::new();
        owner.run_socket(OwnerEvent::Created(Ok(())));
        let event: Result<Result<(), String>, flume::RecvError> =
            Ok(Err(signal.text().unwrap().to_owned()));
        assert_eq!(
            failure(owner.run_socket(OwnerEvent::Signal(Some(signal)))),
            format!("WebSocket failed to open: {event:?}")
        );
    }
    let mut owner = SocketOwner::new();
    owner.run_socket(OwnerEvent::Created(Ok(())));
    let event: Result<Result<(), String>, flume::RecvError> = Err(flume::RecvError::Disconnected);
    assert_eq!(
        failure(owner.run_socket(OwnerEvent::Signal(None))),
        format!("WebSocket failed to open: {event:?}")
    );
    let mut owner = SocketOwner::new();
    owner.run_socket(OwnerEvent::Created(Ok(())));
    assert!(matches!(owner.run_socket(OwnerEvent::Close), OwnerAction::Stop));
    let mut owner = SocketOwner::new();
    owner.run_socket(OwnerEvent::Created(Ok(())));
    owner.run_socket(OwnerEvent::Signal(Some(Signal::Opened)));
    assert!(matches!(owner.run_socket(OwnerEvent::Told(false)), OwnerAction::Stop));
}
