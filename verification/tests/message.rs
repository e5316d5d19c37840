use hydra_tnc::message::{parse_message, Message};
use hydra_tnc::text::format_number;
use hydra_tnc::Bandwidth;

#[test]
fn plain_messages() {
    assert!(matches!(parse_message("OK"), Message::Accepted));
    assert!(matches!(parse_message("WRONG"), Message::Rejected));
    assert!(matches!(parse_message("IAMALIVE"), Message::KeepAlive));
    assert!(matches!(parse_message("DISCONNECTED"), Message::Disconnected));
    assert!(matches!(parse_message("OK and more"), Message::Accepted));
    assert!(matches!(parse_message("DISCONNECTED "), Message::Disconnected));
}

#[test]
fn buffer_is_a_number_or_zero() {
    for (text, expected) in [
        ("BUFFER 0", 0),
        ("BUFFER 12", 12),
        ("BUFFER +12", 12),
        ("BUFFER 12\n", 12),
        ("BUFFER 12 34", 12),
        ("BUFFER x", 0),
        ("BUFFER -3", 0),
        ("BUFFER ", 0),
        ("BUFFER  12", 0),
        ("BUFFER 99999999999999999999999", 0),
    ] {
        match parse_message(text) {
            Message::Buffer(n) => assert_eq!(n, expected, "{}", text),
            other => panic!("{:?}", other),
        }
    }
    let text = format!("BUFFER {}", format_number(usize::MAX));
    assert!(matches!(parse_message(&text), Message::Buffer(usize::MAX)));
}

#[test]
fn snr_is_trimmed() {
    match parse_message("SN \t-3.5\n") {
        Message::Snr(snr) => assert_eq!(snr, "-3.5"),
        other => panic!("{:?}", other),
    }
}

#[test]
fn bitrate_has_mode_and_throughput() {
    match parse_message("BITRATE (3) 1200 BPS") {
        Message::Bitrate(level, bps) => {
            assert_eq!(level, "(3)");
            assert_eq!(bps, 1200);
        }
        other => panic!("{:?}", other),
    }
    match parse_message("BITRATE (3) fast") {
        Message::Bitrate(level, bps) => {
            assert_eq!(level, "(3)");
            assert_eq!(bps, 0);
        }
        other => panic!("{:?}", other),
    }
}

#[test]
fn ptt_is_on_or_off() {
    assert!(matches!(parse_message("PTT ON"), Message::Ptt(true)));
    assert!(matches!(parse_message("PTT OFF"), Message::Ptt(false)));
    match parse_message("PTT ON\n") {
        Message::UnknownPtt(state) => assert_eq!(state, "ON\n"),
        other => panic!("{:?}", other),
    }
    match parse_message("PTT on") {
        Message::UnknownPtt(state) => assert_eq!(state, "on"),
        other => panic!("{:?}", other),
    }
}

#[test]
fn connected_names_stations_and_bandwidth() {
    for (width, bandwidth) in [("500", Bandwidth::BW500), ("BW2300", Bandwidth::BW2300), ("2750", Bandwidth::BW2750)] {
        match parse_message(&format!("CONNECTED N0CALL W1AW {}", width)) {
            Message::Connected(connection, text) => {
                assert_eq!(connection.source_call, "N0CALL");
                assert_eq!(connection.destination_call, "W1AW");
                assert_eq!(connection.bandwidth, bandwidth);
                assert_eq!(text, width);
            }
            other => panic!("{:?}", other),
        }
    }
    match parse_message("CONNECTED N0CALL W1AW 1000") {
        Message::UnknownBandwidth(text) => assert_eq!(text, "1000"),
        other => panic!("{:?}", other),
    }
}

#[test]
fn messages_without_their_fields_are_incomplete() {
    for text in [
        "BUFFER",
        "SN",
        "BITRATE",
        "BITRATE (3)",
        "PTT",
        "CONNECTED",
        "CONNECTED N0CALL",
        "CONNECTED N0CALL W1AW",
    ] {
        assert!(matches!(parse_message(text), Message::Incomplete), "{}", text);
    }
}

#[test]
fn other_messages_are_unknown() {
    for text in ["", " ", "ok", "\nOK", "OKAY", " OK", "PENDING", "BUFFER\t12"] {
        match parse_message(text) {
            Message::Unknown(given) => assert_eq!(given, text),
            other => panic!("{:?}", other),
        }
    }
}
