use hydra_tnc::panel::{buffer_label, panel_event, PanelAction, PanelEvent};
use hydra_tnc::{Bandwidth, HydraConfig, HydraState};

fn config() -> HydraConfig {
    let mut config = HydraConfig::default();
    config.callsign = "N0CALL".to_string();
    config
}

#[test]
fn initial_state() {
    let state = HydraState::default();
    assert!(!state.modem_listen);
    assert!(!state.modem_public);
    assert_eq!(state.destination_callsign, "");
}

#[test]
fn the_mercury_button_connects_and_disconnects() {
    let mut config = config();
    let mut state = HydraState::default();
    let actions = panel_event(&mut config, &mut state, false, false, PanelEvent::MercuryButton);
    assert_eq!(actions.len(), 1);
    match &actions[0] {
        PanelAction::ConnectMercury(destination, mycall, listen, bandwidth) => {
            assert_eq!(destination, "127.0.0.1:8300");
            assert_eq!(mycall, "N0CALL");
            assert!(*listen);
            assert_eq!(*bandwidth, Bandwidth::BW500);
        }
        other => panic!("{:?}", other),
    }
    assert!(state.modem_listen);
    assert!(!state.modem_public);
    let actions = panel_event(&mut config, &mut state, true, false, PanelEvent::MercuryButton);
    assert_eq!(actions.len(), 1);
    assert!(matches!(actions[0], PanelAction::DisconnectMercury));
}

#[test]
fn the_switches_show_what_mercury_is_told() {
    let mut config = config();
    let mut state = HydraState::default();
    for _ in 0..2 {
        let actions = panel_event(&mut config, &mut state, true, false, PanelEvent::ListenSet(false));
        assert!(matches!(actions[0], PanelAction::SetListen(false)));
        assert!(!state.modem_listen);
        let actions = panel_event(&mut config, &mut state, false, false, PanelEvent::MercuryButton);
        assert!(matches!(actions[0], PanelAction::ConnectMercury(_, _, true, _)));
        assert!(state.modem_listen);
    }
}

#[test]
fn a_bandwidth_is_set_and_saved() {
    let mut config = config();
    let mut state = HydraState::default();
    let actions = panel_event(&mut config, &mut state, true, false, PanelEvent::BandwidthPicked(Bandwidth::BW2750));
    assert_eq!(actions.len(), 2);
    assert!(matches!(actions[0], PanelAction::SetBandwidth(Bandwidth::BW2750)));
    assert!(matches!(actions[1], PanelAction::SaveConfig));
    assert_eq!(config.mercury_bandwidth, Bandwidth::BW2750);
    let actions = panel_event(&mut config, &mut state, false, false, PanelEvent::MercuryButton);
    assert!(matches!(actions[0], PanelAction::ConnectMercury(_, _, true, Bandwidth::BW2750)));
}

#[test]
fn checkboxes_are_passed_on() {
    let mut config = config();
    let mut state = HydraState::default();
    let actions = panel_event(&mut config, &mut state, true, false, PanelEvent::ListenSet(true));
    assert_eq!(actions.len(), 1);
    assert!(matches!(actions[0], PanelAction::SetListen(true)));
    assert!(state.modem_listen);
    assert!(!state.modem_public);
    let actions = panel_event(&mut config, &mut state, true, false, PanelEvent::PublicSet(true));
    assert_eq!(actions.len(), 1);
    assert!(matches!(actions[0], PanelAction::SetPublic(true)));
    assert!(state.modem_public);
    let actions = panel_event(&mut config, &mut state, true, false, PanelEvent::ListenSet(false));
    assert!(matches!(actions[0], PanelAction::SetListen(false)));
    assert!(!state.modem_listen);
}

#[test]
fn the_entered_station_is_called() {
    let mut config = config();
    let mut state = HydraState::default();
    let actions = panel_event(&mut config, &mut state, true, false, PanelEvent::DestinationEdited("W1AW".to_string()));
    assert!(actions.is_empty());
    for station_connected in [false, true] {
        let actions = panel_event(&mut config, &mut state, true, station_connected, PanelEvent::StationConnectButton);
        assert_eq!(actions.len(), 1);
        match &actions[0] {
            PanelAction::Connect(source, destination) => {
                assert_eq!(source, "N0CALL");
                assert_eq!(destination, "W1AW");
            }
            other => panic!("{:?}", other),
        }
    }
}

#[test]
fn a_station_is_disconnected_only_while_connected() {
    let mut config = config();
    let mut state = HydraState::default();
    let actions = panel_event(&mut config, &mut state, true, true, PanelEvent::StationDisconnectButton);
    assert_eq!(actions.len(), 1);
    assert!(matches!(actions[0], PanelAction::Disconnect));
    assert!(panel_event(&mut config, &mut state, true, false, PanelEvent::StationDisconnectButton).is_empty());
}

#[test]
fn without_mercury_the_rest_is_disabled() {
    let mut config = config();
    let mut state = HydraState::default();
    for event in vec![
        PanelEvent::BandwidthPicked(Bandwidth::BW2300),
        PanelEvent::ListenSet(true),
        PanelEvent::PublicSet(true),
        PanelEvent::DestinationEdited("W1AW".to_string()),
        PanelEvent::StationDisconnectButton,
        PanelEvent::StationConnectButton,
    ] {
        assert!(panel_event(&mut config, &mut state, false, true, event).is_empty());
    }
    assert_eq!(config.mercury_bandwidth, Bandwidth::BW500);
    assert!(!state.modem_listen);
    assert!(!state.modem_public);
    assert_eq!(state.destination_callsign, "");
}

#[test]
fn the_buffer_label_counts_bytes() {
    assert_eq!(buffer_label(0), "Bytes remaining in buffer: 0");
    assert_eq!(buffer_label(1024), "Bytes remaining in buffer: 1024");
}
