use virsh_usb::descriptor::build_device_descriptor;
use virsh_usb::transfer::{
    build_ret_submit, build_ret_unlink, read_header, text_to_scanner_reports, ReportQueue,
    TransferAction, TransferEvent, Transfers,
};

const SETUP: [u8; 8] = [0x80, 0x06, 0, 1, 0, 0, 64, 0];

/// A command with the given fields.
fn command(
    code: u32,
    seqnum: u32,
    direction: u32,
    ep: u32,
    fifth: u32,
    length: u32,
    setup: [u8; 8],
) -> [u8; 48] {
    let mut h = [0u8; 48];
    for (i, n) in [code, seqnum, 0x10001, direction, ep, fifth, length].iter().enumerate() {
        h[4 * i..4 * i + 4].copy_from_slice(&n.to_be_bytes());
    }
    h[40..].copy_from_slice(&setup);
    h
}

fn step(state: Transfers, event: TransferEvent) -> (Transfers, TransferAction) {
    state.handle(event, 0x0c2e, 0x0b61, "Scan")
}

/// A conversation in which a request for reports waits.
fn waiting() -> Transfers {
    let (state, action) = Transfers::start();
    assert!(matches!(action, TransferAction::ReadCommand));
    let request = command(1, 5, 1, 1, 0, 8, [7; 8]);
    let (state, action) = step(state, TransferEvent::Command(request));
    assert!(matches!(action, TransferAction::TakeReport));
    let (state, action) = step(state, TransferEvent::Report(None));
    assert!(matches!(action, TransferAction::Wait));
    state
}

fn sent(action: TransferAction) -> Vec<u8> {
    match action {
        TransferAction::Send(reply) => reply,
        other => panic!("{:?}", other),
    }
}

#[test]
fn text_is_packed_into_reports_of_eight_bytes() {
    assert!(text_to_scanner_reports("").is_empty());
    assert_eq!(text_to_scanner_reports("abc\r"), [*b"abc\r\0\0\0\0"]);
    assert_eq!(text_to_scanner_reports("12345678"), [*b"12345678"]);
    assert_eq!(text_to_scanner_reports("12345678\r"), [*b"12345678", *b"\r\0\0\0\0\0\0\0"]);
    assert_eq!(text_to_scanner_reports("1234567é"), [*b"1234567\xc3", *b"\xa9\0\0\0\0\0\0\0"]);
}

#[test]
fn reports_leave_the_queue_in_order() {
    let mut queue = ReportQueue::new();
    assert_eq!(queue.take(), None);
    assert!(queue.accept(b"12345678abc\r"));
    assert!(queue.accept(b"x"));
    assert_eq!(queue.take(), Some(*b"12345678"));
    assert_eq!(queue.take(), Some(*b"abc\r\0\0\0\0"));
    assert_eq!(queue.take(), Some(*b"x\0\0\0\0\0\0\0"));
    assert_eq!(queue.take(), None);
}

#[test]
fn what_is_no_text_is_dropped() {
    let mut queue = ReportQueue::new();
    assert!(!queue.accept(&[b'a', 0xff]));
    assert!(!queue.accept(b""));
    assert_eq!(queue.take(), None);
}

#[test]
fn a_command_has_its_fields() {
    let h = read_header(&command(1, 2, 3, 4, 5, 6, [9; 8]));
    assert_eq!((h.command, h.seqnum, h.devid, h.direction, h.ep), (1, 2, 0x10001, 3, 4));
    assert_eq!((h.target, h.length, h.setup), (5, 6, [9; 8]));
}

#[test]
fn replies_have_their_form() {
    let reply = build_ret_submit(1, 2, 1, 1, &[9; 8], b"ab");
    let mut expected = vec![0, 0, 0, 3, 0, 0, 0, 1, 0, 0, 0, 2, 0, 0, 0, 1, 0, 0, 0, 1];
    expected.extend_from_slice(&[0, 0, 0, 0, 0, 0, 0, 2]);
    expected.extend_from_slice(&[0; 12]);
    expected.extend_from_slice(&[9; 8]);
    expected.extend_from_slice(b"ab");
    assert_eq!(reply, expected);
    let reply = build_ret_unlink(1, 2, 3, 4);
    assert_eq!(reply.len(), 48);
    assert_eq!(reply[..20], [0, 0, 0, 4, 0, 0, 0, 1, 0, 0, 0, 2, 0, 0, 0, 3, 0, 0, 0, 4]);
    assert!(reply[20..].iter().all(|b| *b == 0));
}

#[test]
fn a_control_request_is_answered() {
    let (state, _) = Transfers::start();
    let (state, action) = step(state, TransferEvent::Command(command(1, 2, 1, 0, 0, 64, SETUP)));
    assert_eq!(
        sent(action),
        build_ret_submit(2, 0x10001, 1, 0, &SETUP, &build_device_descriptor(0x0c2e, 0x0b61))
    );
    let (_, action) = step(state, TransferEvent::Sent);
    assert!(matches!(action, TransferAction::ReadCommand));
}

#[test]
fn the_data_of_a_command_is_read_first() {
    let (state, _) = Transfers::start();
    let setup = [0x21, 9, 0, 0, 0, 0, 1, 0];
    let (state, action) = step(state, TransferEvent::Command(command(1, 2, 0, 0, 0, 5, setup)));
    assert!(matches!(action, TransferAction::SkipBody(5)));
    let (_, action) = step(state, TransferEvent::BodyRead);
    assert_eq!(sent(action), build_ret_submit(2, 0x10001, 0, 0, &setup, &[]));
}

#[test]
fn a_queued_report_is_sent_at_once() {
    let (state, _) = Transfers::start();
    let request = command(1, 5, 1, 1, 0, 8, [7; 8]);
    let (state, _) = step(state, TransferEvent::Command(request));
    let (_, action) = step(state, TransferEvent::Report(Some(*b"12345678")));
    assert_eq!(sent(action), build_ret_submit(5, 0x10001, 1, 1, &[7; 8], b"12345678"));
}

#[test]
fn a_waiting_request_gets_the_next_report() {
    let (state, action) =
        step(waiting(), TransferEvent::Arrival { notified: true, readable: true });
    assert!(matches!(action, TransferAction::ClearAndTakeReport));
    let (state, action) = step(state, TransferEvent::Report(Some(*b"12345678")));
    assert_eq!(sent(action), build_ret_submit(5, 0x10001, 1, 1, &[7; 8], b"12345678"));
    let (_, action) = step(state, TransferEvent::Sent);
    assert!(matches!(action, TransferAction::ReadCommand));
}

#[test]
fn a_request_waits_on_where_nothing_comes() {
    let (state, action) = step(waiting(), TransferEvent::Interrupted);
    assert!(matches!(action, TransferAction::Wait));
    let (state, action) = step(state, TransferEvent::Arrival { notified: false, readable: false });
    assert!(matches!(action, TransferAction::Wait));
    let (state, _) = step(state, TransferEvent::Arrival { notified: true, readable: false });
    let (_, action) = step(state, TransferEvent::Report(None));
    assert!(matches!(action, TransferAction::Wait));
}

#[test]
fn a_waiting_request_can_be_unlinked() {
    let readable = TransferEvent::Arrival { notified: false, readable: true };
    let (state, action) = step(waiting(), readable);
    assert!(matches!(action, TransferAction::ReadCommand));
    let (state, action) = step(state, TransferEvent::Command(command(2, 6, 0, 0, 5, 0, [0; 8])));
    assert_eq!(sent(action), build_ret_unlink(6, 0x10001, 0, 0));
    let (_, action) = step(state, TransferEvent::Sent);
    assert!(matches!(action, TransferAction::ReadCommand));

    let (state, _) = step(waiting(), readable);
    let (state, action) = step(state, TransferEvent::Command(command(2, 6, 0, 0, 4, 0, [0; 8])));
    assert_eq!(sent(action), build_ret_unlink(6, 0x10001, 0, 0));
    let (_, action) = step(state, TransferEvent::Sent);
    assert!(matches!(action, TransferAction::Wait));
}

#[test]
fn a_second_request_is_ignored_while_one_waits() {
    let readable = TransferEvent::Arrival { notified: false, readable: true };
    let (state, _) = step(waiting(), readable);
    let (state, action) = step(state, TransferEvent::Command(command(1, 7, 1, 1, 0, 8, [0; 8])));
    assert!(matches!(action, TransferAction::Wait));
    let (state, _) = step(state, readable);
    let (_, action) = step(state, TransferEvent::Command(command(1, 8, 1, 0, 0, 64, SETUP)));
    assert_eq!(sent(action)[4..8], [0, 0, 0, 8]);
}

#[test]
fn other_endpoints_get_empty_replies() {
    let (state, _) = Transfers::start();
    let (_, action) = step(state, TransferEvent::Command(command(1, 2, 1, 2, 0, 8, [0; 8])));
    assert_eq!(sent(action), build_ret_submit(2, 0x10001, 1, 2, &[0; 8], &[]));
}

#[test]
fn the_conversation_ends_on_trouble() {
    let (state, _) = Transfers::start();
    let (_, action) = step(state, TransferEvent::Command(command(9, 2, 1, 2, 0, 8, [0; 8])));
    assert!(matches!(action, TransferAction::Stop));
    let (_, action) = step(state, TransferEvent::Broken);
    assert!(matches!(action, TransferAction::Stop));
    let (state, _) = step(waiting(), TransferEvent::Arrival { notified: false, readable: true });
    let (_, action) = step(state, TransferEvent::Broken);
    assert!(matches!(action, TransferAction::Stop));
}

#[test]
fn reports_go_out_in_the_order_in_which_they_came() {
    let mut queue = ReportQueue::new();
    assert!(queue.accept(b"first"));
    // What the host sends, and what is queued before each of its commands.
    let mut script = vec![
        (command(1, 1, 1, 1, 0, 8, [7; 8]), ""),
        (command(1, 2, 1, 0, 0, 18, SETUP), ""),
        (command(1, 3, 1, 1, 0, 8, [7; 8]), "second  third"),
        (command(1, 4, 1, 1, 0, 8, [7; 8]), ""),
        (command(1, 5, 1, 1, 0, 8, [7; 8]), ""),
        (command(1, 6, 1, 1, 0, 8, [7; 8]), ""),
        (command(2, 7, 0, 0, 6, 0, [0; 8]), ""),
        (command(2, 8, 0, 0, 5, 0, [0; 8]), "left"),
    ]
    .into_iter();
    let (mut state, mut action) = Transfers::start();
    let mut reports: Vec<Vec<u8>> = Vec::new();
    loop {
        let event = match action {
            TransferAction::ReadCommand => match script.next() {
                Some((header, text)) => {
                    queue.accept(text.as_bytes());
                    TransferEvent::Command(header)
                }
                None => TransferEvent::Broken,
            },
            TransferAction::Wait => TransferEvent::Arrival { notified: false, readable: true },
            TransferAction::SkipBody(_) => TransferEvent::BodyRead,
            TransferAction::TakeReport | TransferAction::ClearAndTakeReport => {
                TransferEvent::Report(queue.take())
            }
            TransferAction::Send(reply) => {
                if reply[3] == 3 && reply[15] == 1 && reply[19] == 1 {
                    reports.push(reply[48..].to_vec());
                }
                TransferEvent::Sent
            }
            TransferAction::Stop => break,
        };
        (state, action) = step(state, event);
    }
    assert_eq!(reports, [b"first\0\0\0", b"second  ", b"third\0\0\0"]);
    assert_eq!(queue.take(), Some(*b"left\0\0\0\0"));
    assert_eq!(queue.take(), None);
}
