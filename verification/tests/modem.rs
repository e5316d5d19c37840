use hydra_tnc::handshake::{HandshakeAction, Stage};
use hydra_tnc::message::Message;
use hydra_tnc::modem::{ControlEvent, ListenerAction};
use hydra_tnc::wire::{frame, switch, DELIMITER};
use hydra_tnc::{Bandwidth, Modem};
use tokio::io::{AsyncBufReadExt, BufReader};

fn hear(modem: &mut Modem<u8>, bytes: &[u8]) -> Message {
    match modem.mercury_control_listener(ControlEvent::Segment(bytes.to_vec())) {
        ListenerAction::Continue(message) => message,
        ListenerAction::Stop => panic!("stopped"),
    }
}

/// Lets the modem listen to a port that gives `bytes` and is then closed.
fn listen(modem: &mut Modem<u8>, bytes: &[u8]) {
    let rt = tokio::runtime::Builder::new_current_thread().build().unwrap();
    rt.block_on(async {
        let mut messages = BufReader::with_capacity(3, bytes).split(DELIMITER);
        while let Some(segment) = messages.next_segment().await.unwrap() {
            hear(modem, &segment);
        }
    });
    modem.mercury_control_listener(ControlEvent::Closed);
}

#[test]
fn bytes_are_heard_in_parts() {
    let bytes = b"BUFFER 7\r\rCONNECTED A B 500\rPTT ON\rSN 3.5\rBUFFER 9";
    for cut in 0..=bytes.len() {
        if cut > 0 && bytes[cut - 1] != DELIMITER {
            continue;
        }
        let mut modem: Modem<u8> = Modem::default();
        modem.mercury_opened(1);
        listen(&mut modem, &bytes[..cut]);
        listen(&mut modem, &bytes[cut..]);
        assert_eq!(modem.get_tx_buffer_len(), 9);
        assert_eq!(modem.state.snr, "3.5");
        assert!(modem.state.ptt);
        assert!(modem.is_connected());
        assert!(!modem.is_mercury_connected());
    }
}

#[test]
fn nothing_is_known_at_first() {
    let modem: Modem<u8> = Modem::default();
    assert!(!modem.is_mercury_connected());
    assert!(!modem.is_connected());
    assert_eq!(modem.get_tx_buffer_len(), 0);
    assert_eq!(modem.state.snr, "");
    assert_eq!(modem.state.snr.parse().unwrap_or(0.0f32), 0.0f32);
    assert_eq!(modem.state.bitrate, (String::new(), 0));
    assert!(!modem.state.ptt);
}

#[test]
fn nothing_is_sent_without_mercury() {
    let mut modem: Modem<u8> = Modem::default();
    assert_eq!(modem.disconnect(), None);
    assert_eq!(modem.connect("A", "B"), None);
    assert_eq!(modem.abort(), None);
    assert_eq!(modem.set_bandwidth(Bandwidth::BW500), None);
    assert_eq!(modem.set_listen(true), None);
    assert_eq!(modem.set_public(true), None);
    assert_eq!(modem.write_to_control("X".to_string()), None);
}

#[test]
fn commands_end_with_the_delimiter() {
    let mut modem: Modem<u8> = Modem::default();
    modem.mercury_opened(7);
    assert!(modem.is_mercury_connected());
    assert_eq!(modem.disconnect().unwrap(), "DISCONNECT\r");
    assert_eq!(modem.connect("N0CALL", "W1AW").unwrap(), "CONNECT N0CALL W1AW\r");
    assert_eq!(modem.abort().unwrap(), "ABORT\r");
    assert_eq!(modem.set_bandwidth(Bandwidth::BW2300).unwrap(), "BW2300\r");
    assert_eq!(modem.set_listen(true).unwrap(), "LISTEN ON\r");
    assert_eq!(modem.set_listen(false).unwrap(), "LISTEN OFF\r");
    assert_eq!(modem.set_public(true).unwrap(), "PUBLIC ON\r");
    assert_eq!(modem.set_public(false).unwrap(), "PUBLIC OFF\r");
    assert_eq!(modem.write_to_control("X".to_string()).unwrap(), "X\r");
    assert_eq!(modem.state.tcp_connection, Some(7));
    modem.disconnect_mercury();
    assert!(!modem.is_mercury_connected());
    assert_eq!(modem.abort(), None);
}

#[test]
fn a_stream_of_commands_splits_at_the_delimiter() {
    let commands = ["MYCALL N0CALL", "LISTEN ON", "", "CONNECT \u{e9} \u{10d}"];
    let mut stream = String::new();
    for command in commands {
        stream.push_str(&frame(command.to_string()));
    }
    let segments: Vec<&[u8]> = stream.as_bytes().split(|b| *b == DELIMITER).collect();
    assert_eq!(segments.len(), 5);
    for i in 0..4 {
        assert_eq!(segments[i], commands[i].as_bytes());
    }
    assert!(segments[4].is_empty());
}

#[test]
fn switches_are_written() {
    assert_eq!(switch(true), "ON");
    assert_eq!(switch(false), "OFF");
}

#[test]
fn reports_are_kept_track_of() {
    let mut modem: Modem<u8> = Modem::default();
    modem.mercury_opened(1);
    hear(&mut modem, b"BUFFER 17");
    assert_eq!(modem.get_tx_buffer_len(), 17);
    hear(&mut modem, b"SN 4.5 ");
    assert_eq!(modem.state.snr, "4.5");
    hear(&mut modem, b"BITRATE (1) 41 BPS");
    assert_eq!(modem.state.bitrate, ("(1)".to_string(), 41));
    hear(&mut modem, b"PTT ON");
    assert!(modem.state.ptt);
    hear(&mut modem, b"PTT maybe");
    assert!(modem.state.ptt);
    hear(&mut modem, b"PTT OFF");
    assert!(!modem.state.ptt);
    assert_eq!(modem.get_tx_buffer_len(), 17);
    assert!(modem.is_mercury_connected());
}

#[test]
fn the_last_report_of_each_kind_counts() {
    let mut modem: Modem<u8> = Modem::default();
    let reports = [
        &b"BUFFER 1"[..], b"SN 1.0", b"BITRATE a 10", b"PTT ON",
        b"BUFFER 2", b"SN -2.5", b"BITRATE b 20", b"PTT OFF",
        b"OK", b"SN", b"BITRATE c", b"PTT maybe", b"CONNECTED A B 500",
    ];
    for report in reports {
        hear(&mut modem, report);
    }
    assert_eq!(modem.get_tx_buffer_len(), 2);
    assert_eq!(modem.state.snr, "-2.5");
    assert_eq!(modem.state.bitrate, ("b".to_string(), 20));
    assert!(!modem.state.ptt);
    assert!(modem.is_connected());
}

#[test]
fn connections_with_stations_come_and_go() {
    let mut modem: Modem<u8> = Modem::default();
    hear(&mut modem, b"CONNECTED A B 333");
    assert!(!modem.is_connected());
    hear(&mut modem, b"CONNECTED A B 500");
    assert!(modem.is_connected());
    for other in [&b"OK"[..], b"WRONG", b"IAMALIVE", b"BUFFER 3", b"CONNECTED C", b"CONNECTED C D x", b"?"] {
        hear(&mut modem, other);
        let connection = modem.state.connection.as_ref().unwrap();
        assert_eq!(connection.source_call, "A");
        assert_eq!(connection.destination_call, "B");
        assert_eq!(connection.bandwidth, Bandwidth::BW500);
    }
    hear(&mut modem, b"CONNECTED C D BW2750");
    assert_eq!(modem.state.connection.as_ref().unwrap().source_call, "C");
    hear(&mut modem, b"DISCONNECTED");
    assert!(!modem.is_connected());
}

#[test]
fn bytes_are_decoded_with_replacement() {
    let mut modem: Modem<u8> = Modem::default();
    match hear(&mut modem, b"\xffOK") {
        Message::Unknown(text) => assert_eq!(text, "\u{fffd}OK"),
        other => panic!("{:?}", other),
    }
    match hear(&mut modem, "CONNECTED \u{e9}\u{10d} \u{1f4fb} 500".as_bytes()) {
        Message::Connected(connection, _) => {
            assert_eq!(connection.source_call, "\u{e9}\u{10d}");
            assert_eq!(connection.destination_call, "\u{1f4fb}");
        }
        other => panic!("{:?}", other),
    }
    match hear(&mut modem, b"SN 1\xc3") {
        Message::Snr(snr) => assert_eq!(snr, "1\u{fffd}"),
        other => panic!("{:?}", other),
    }
}

#[test]
fn a_text_is_handled_like_its_bytes() {
    let mut a: Modem<u8> = Modem::default();
    let mut b: Modem<u8> = Modem::default();
    a.handle_message("BUFFER 5");
    hear(&mut b, b"BUFFER 5");
    assert_eq!(a.get_tx_buffer_len(), b.get_tx_buffer_len());
    assert_eq!(a.get_tx_buffer_len(), 5);
}

#[test]
fn a_closed_port_closes_the_connection_only() {
    let mut modem: Modem<u8> = Modem::default();
    modem.mercury_opened(1);
    hear(&mut modem, b"CONNECTED A B 500");
    hear(&mut modem, b"BUFFER 9");
    assert!(matches!(modem.mercury_control_listener(ControlEvent::Closed), ListenerAction::Stop));
    assert!(!modem.is_mercury_connected());
    assert!(modem.is_connected());
    assert_eq!(modem.get_tx_buffer_len(), 9);
}

#[test]
fn connecting_to_mercury_follows_the_script() {
    let mut modem: Modem<u8> = Modem::default();
    let mut handshake = modem.connect_mercury("127.0.0.1:8300".to_string(), "N0CALL".to_string(), true, Bandwidth::BW500);
    assert!(!modem.is_mercury_connected());
    match handshake.action() {
        HandshakeAction::Dial(address) => assert_eq!(address, "127.0.0.1:8300"),
        other => panic!("{:?}", other),
    }
    handshake.advance(true);
    assert!(matches!(handshake.action(), HandshakeAction::SetNoDelay));
    handshake.advance(true);
    for expected in ["MYCALL N0CALL\r", "LISTEN ON\r", "BW500\r"] {
        match handshake.action() {
            HandshakeAction::Write(text) => assert_eq!(text, expected),
            other => panic!("{:?}", other),
        }
        handshake.advance(true);
    }
    assert!(matches!(handshake.action(), HandshakeAction::Install));
    handshake.advance(true);
    assert!(matches!(handshake.action(), HandshakeAction::Install));
}

#[test]
fn connecting_to_mercury_gives_up_at_the_first_failure() {
    for failing in 0..5 {
        let mut modem: Modem<u8> = Modem::default();
        let mut handshake = modem.connect_mercury("x".to_string(), "y".to_string(), false, Bandwidth::BW2750);
        for _ in 0..failing {
            handshake.advance(true);
        }
        assert!(!matches!(handshake.action(), HandshakeAction::Install));
        handshake.advance(false);
        assert!(matches!(handshake.action(), HandshakeAction::GiveUp));
        handshake.advance(true);
        assert!(matches!(handshake.action(), HandshakeAction::GiveUp));
        assert_eq!(handshake.stage, Stage::Failed);
    }
}

#[test]
fn mercury_is_connected_from_an_opening_to_an_end() {
    let mut modem: Modem<u8> = Modem::default();
    assert!(!modem.is_mercury_connected());
    modem.mercury_opened(1);
    hear(&mut modem, b"DISCONNECTED");
    let _ = modem.abort();
    modem.mercury_opened(2);
    assert_eq!(modem.state.tcp_connection, Some(2));
    modem.disconnect_mercury();
    hear(&mut modem, b"CONNECTED A B 500");
    assert!(!modem.is_mercury_connected());
    modem.mercury_opened(3);
    assert_eq!(modem.state.tcp_connection, Some(3));
    modem.mercury_control_listener(ControlEvent::Closed);
    assert!(!modem.is_mercury_connected());
}

#[test]
fn what_is_not_reported_stays() {
    let mut modem: Modem<u8> = Modem::default();
    for report in [&b"BUFFER 4"[..], b"SN 2", b"BITRATE m 50", b"PTT ON"] {
        hear(&mut modem, report);
    }
    for report in [&b"OK"[..], b"CONNECTED A B 500", b"DISCONNECTED", b"PTT maybe", b"SN", b"x"] {
        hear(&mut modem, report);
    }
    assert_eq!(modem.get_tx_buffer_len(), 4);
    assert_eq!(modem.state.snr, "2");
    assert_eq!(modem.state.bitrate, ("m".to_string(), 50));
    assert!(modem.state.ptt);
}
