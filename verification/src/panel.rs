//! The modem tab: what the user does there, and what is done about it.

use vstd::prelude::*;
use crate::bandwidth::Bandwidth;
use crate::config::{ConfigView, HydraConfig};
use crate::text::{decimal, format_number};

verus! {

/// What the modem tab shows and the user sets, apart from the config.
#[derive(Debug)]
pub struct HydraState {
    /// Whether listening is enabled
    pub modem_listen: bool,
    /// Whether to accept incoming connections regardless of destination callsign
    pub modem_public: bool,
    /// The destination callsign textbox
    pub destination_callsign: String,
}

/// What a `HydraState` holds.
pub struct HydraStateView {
    pub modem_listen: bool,
    pub modem_public: bool,
    pub destination_callsign: Seq<char>,
}

impl View for HydraState {
    type V = HydraStateView;

    open spec fn view(&self) -> HydraStateView {
        HydraStateView {
            modem_listen: self.modem_listen,
            modem_public: self.modem_public,
            destination_callsign: self.destination_callsign@,
        }
    }
}

impl HydraStateView {
    /// The state that the program starts with.
    pub open spec fn initial() -> HydraStateView {
        HydraStateView {
            modem_listen: false,
            modem_public: false,
            destination_callsign: Seq::empty(),
        }
    }
}

impl Default for HydraState {
    fn default() -> (r: HydraState)
        ensures
            r@ == HydraStateView::initial(),
    {
        HydraState {
            modem_listen: false,
            modem_public: false,
            destination_callsign: String::new(),
        }
    }
}

/// What the user does in the modem tab.
#[derive(Debug)]
pub enum PanelEvent {
    /// Clicks the button that connects to or disconnects from mercury.
    MercuryButton,
    /// Picks a bandwidth.
    BandwidthPicked(Bandwidth),
    /// Sets the listen checkbox.
    ListenSet(bool),
    /// Sets the public checkbox.
    PublicSet(bool),
    /// Edits the destination callsign.
    DestinationEdited(String),
    /// Clicks the button that disconnects from the station.
    StationDisconnectButton,
    /// Clicks the button that connects to the station.
    StationConnectButton,
}

/// What a `PanelEvent` says.
pub enum PanelEventView {
    MercuryButton,
    BandwidthPicked(Bandwidth),
    ListenSet(bool),
    PublicSet(bool),
    DestinationEdited(Seq<char>),
    StationDisconnectButton,
    StationConnectButton,
}

impl View for PanelEvent {
    type V = PanelEventView;

    open spec fn view(&self) -> PanelEventView {
        match self {
            PanelEvent::MercuryButton => PanelEventView::MercuryButton,
            PanelEvent::BandwidthPicked(b) => PanelEventView::BandwidthPicked(*b),
            PanelEvent::ListenSet(on) => PanelEventView::ListenSet(*on),
            PanelEvent::PublicSet(on) => PanelEventView::PublicSet(*on),
            PanelEvent::DestinationEdited(text) => PanelEventView::DestinationEdited(text@),
            PanelEvent::StationDisconnectButton => PanelEventView::StationDisconnectButton,
            PanelEvent::StationConnectButton => PanelEventView::StationConnectButton,
        }
    }
}

/// What is done about it.
#[derive(Debug)]
pub enum PanelAction {
    /// Connect the modem to mercury, with these arguments of `Modem::connect_mercury`.
    ConnectMercury(String, String, bool, Bandwidth),
    /// Disconnect the modem from mercury.
    DisconnectMercury,
    /// Tell mercury the bandwidth.
    SetBandwidth(Bandwidth),
    /// Save the config.
    SaveConfig,
    /// Tell mercury whether to listen.
    SetListen(bool),
    /// Tell mercury whether to accept calls to any callsign.
    SetPublic(bool),
    /// Ask for a connection from the first station to the second one.
    Connect(String, String),
    /// Ask for the end of the connection with the station.
    Disconnect,
}

/// What a `PanelAction` says.
pub enum PanelActionView {
    ConnectMercury(Seq<char>, Seq<char>, bool, Bandwidth),
    DisconnectMercury,
    SetBandwidth(Bandwidth),
    SaveConfig,
    SetListen(bool),
    SetPublic(bool),
    Connect(Seq<char>, Seq<char>),
    Disconnect,
}

impl View for PanelAction {
    type V = PanelActionView;

    open spec fn view(&self) -> PanelActionView {
        match self {
            PanelAction::ConnectMercury(
                destination,
                mycall,
                listen,
                bandwidth,
            ) => PanelActionView::ConnectMercury(destination@, mycall@, *listen, *bandwidth),
            PanelAction::DisconnectMercury => PanelActionView::DisconnectMercury,
            PanelAction::SetBandwidth(b) => PanelActionView::SetBandwidth(*b),
            PanelAction::SaveConfig => PanelActionView::SaveConfig,
            PanelAction::SetListen(on) => PanelActionView::SetListen(*on),
            PanelAction::SetPublic(on) => PanelActionView::SetPublic(*on),
            PanelAction::Connect(source, destination) => PanelActionView::Connect(
                source@,
                destination@,
            ),
            PanelAction::Disconnect => PanelActionView::Disconnect,
        }
    }
}

/// What a list of actions says.
pub open spec fn actions_view(actions: Seq<PanelAction>) -> Seq<PanelActionView> {
    actions.map_values(|action: PanelAction| action@)
}

/// The config, the state and what is to be done.
pub struct PanelOutcome {
    pub config: ConfigView,
    pub state: HydraStateView,
    pub actions: Seq<PanelActionView>,
}

/// What comes of `event`, where it is known whether we're connected to mercury and to a station.
///
/// Without a connection to mercury only the button that makes one is enabled. Mercury is asked to
/// listen when the connection is made, so listening is enabled from then on. The button that
/// disconnects from a station is there only while we're connected to one.
pub open spec fn panel_outcome(
    config: ConfigView,
    state: HydraStateView,
    mercury_connected: bool,
    station_connected: bool,
    event: PanelEventView,
) -> PanelOutcome {
    let same = PanelOutcome { config, state, actions: Seq::empty() };
    if event is MercuryButton {
        if mercury_connected {
            PanelOutcome { actions: seq![PanelActionView::DisconnectMercury], ..same }
        } else {
            PanelOutcome {
                state: HydraStateView { modem_listen: true, ..state },
                actions: seq![
                    PanelActionView::ConnectMercury(
                        config.mercury_address(),
                        config.callsign,
                        true,
                        config.mercury_bandwidth,
                    ),
                ],
                ..same
            }
        }
    } else if !mercury_connected {
        same
    } else {
        match event {
            PanelEventView::MercuryButton => same,
            PanelEventView::BandwidthPicked(b) => PanelOutcome {
                config: ConfigView { mercury_bandwidth: b, ..config },
                actions: seq![PanelActionView::SetBandwidth(b), PanelActionView::SaveConfig],
                ..same
            },
            PanelEventView::ListenSet(on) => PanelOutcome {
                state: HydraStateView { modem_listen: on, ..state },
                actions: seq![PanelActionView::SetListen(on)],
                ..same
            },
            PanelEventView::PublicSet(on) => PanelOutcome {
                state: HydraStateView { modem_public: on, ..state },
                actions: seq![PanelActionView::SetPublic(on)],
                ..same
            },
            PanelEventView::DestinationEdited(text) => PanelOutcome {
                state: HydraStateView { destination_callsign: text, ..state },
                ..same
            },
            PanelEventView::StationDisconnectButton => if station_connected {
                PanelOutcome { actions: seq![PanelActionView::Disconnect], ..same }
            } else {
                same
            },
            PanelEventView::StationConnectButton => PanelOutcome {
                actions: seq![
                    PanelActionView::Connect(config.callsign, state.destination_callsign),
                ],
                ..same
            },
        }
    }
}

/// Handles what the user does in the modem tab, and says what is to be done, in order.
pub fn panel_event(
    config: &mut HydraConfig,
    state: &mut HydraState,
    mercury_connected: bool,
    station_connected: bool,
    event: PanelEvent,
) -> (r: Vec<PanelAction>)
    ensures
        ({
            let outcome = panel_outcome(
                old(config)@,
                old(state)@,
                mercury_connected,
                station_connected,
                event@,
            );
            &&& final(config)@ == outcome.config
            &&& final(state)@ == outcome.state
            &&& actions_view(r@) == outcome.actions
        }),
{
    let mut r: Vec<PanelAction> = Vec::new();
    match event {
        PanelEvent::MercuryButton => {
            if mercury_connected {
                r.push(PanelAction::DisconnectMercury);
            } else {
                // Mercury is asked to listen
                state.modem_listen = true;
                r.push(
                    PanelAction::ConnectMercury(
                        config.mercury_address(),
                        config.callsign.clone(),
                        true,
                        config.mercury_bandwidth,
                    ),
                );
            }
        },
        // Only enable the various configuration widgets if we are connected to the modem
        _ if !mercury_connected => {},
        PanelEvent::BandwidthPicked(b) => {
            // Update bandwidth
            config.mercury_bandwidth = b;
            r.push(PanelAction::SetBandwidth(b));
            r.push(PanelAction::SaveConfig);
        },
        PanelEvent::ListenSet(on) => {
            state.modem_listen = on;
            r.push(PanelAction::SetListen(on));
        },
        PanelEvent::PublicSet(on) => {
            state.modem_public = on;
            r.push(PanelAction::SetPublic(on));
        },
        PanelEvent::DestinationEdited(text) => {
            state.destination_callsign = text;
        },
        PanelEvent::StationDisconnectButton => {
            if station_connected {
                r.push(PanelAction::Disconnect);
            }
        },
        PanelEvent::StationConnectButton => {
            r.push(
                PanelAction::Connect(config.callsign.clone(), state.destination_callsign.clone()),
            );
        },
    }
    proof {
        let outcome = panel_outcome(
            old(config)@,
            old(state)@,
            mercury_connected,
            station_connected,
            event@,
        );
        assert(actions_view(r@) =~= outcome.actions);
    }
    r
}

/// The line that tells how much is left to send.
pub fn buffer_label(buffer_len: usize) -> (r: String)
    ensures
        r@ == "Bytes remaining in buffer: "@ + decimal(buffer_len as nat),
{
    String::from_str("Bytes remaining in buffer: ").concat(format_number(buffer_len).as_str())
}

/// Without a connection to mercury the user can do nothing but ask for one, which enables
/// listening.
pub proof fn disconnected_panel_only_connects(
    config: ConfigView,
    state: HydraStateView,
    station_connected: bool,
    event: PanelEventView,
)
    ensures
        ({
            let outcome = panel_outcome(config, state, false, station_connected, event);
            &&& outcome.config == config
            &&& outcome.state == (if event is MercuryButton {
                HydraStateView { modem_listen: true, ..state }
            } else {
                state
            })
            &&& outcome.actions.len() > 0 <==> event is MercuryButton
            &&& forall|i: int|
                0 <= i < outcome.actions.len() ==> #[trigger] outcome.actions[i] is ConnectMercury
        }),
{
}

/// The listen and the public state that are shown are those that mercury is told, and they change
/// only when mercury is told.
pub proof fn switches_show_what_mercury_is_told(
    config: ConfigView,
    state: HydraStateView,
    mercury_connected: bool,
    station_connected: bool,
    event: PanelEventView,
)
    ensures
        ({
            let outcome = panel_outcome(
                config,
                state,
                mercury_connected,
                station_connected,
                event,
            );
            &&& forall|i: int|
                0 <= i < outcome.actions.len() ==> match #[trigger] outcome.actions[i] {
                    PanelActionView::ConnectMercury(_, _, listen, _) => outcome.state.modem_listen
                        == listen,
                    PanelActionView::SetListen(on) => outcome.state.modem_listen == on,
                    PanelActionView::SetPublic(on) => outcome.state.modem_public == on,
                    _ => true,
                }
            &&& outcome.actions.len() == 0 ==> outcome.state.modem_listen == state.modem_listen
                && outcome.state.modem_public == state.modem_public
        }),
{
}

/// A connection to mercury asks for the bandwidth that was picked last.
pub proof fn picked_bandwidth_is_asked_for(
    config: ConfigView,
    state: HydraStateView,
    station_connected: bool,
    bandwidth: Bandwidth,
)
    ensures
        ({
            let picked = panel_outcome(
                config,
                state,
                true,
                station_connected,
                PanelEventView::BandwidthPicked(bandwidth),
            );
            let connected = panel_outcome(
                picked.config,
                picked.state,
                false,
                station_connected,
                PanelEventView::MercuryButton,
            );
            connected.actions == seq![
                PanelActionView::ConnectMercury(
                    config.mercury_address(),
                    config.callsign,
                    true,
                    bandwidth,
                ),
            ]
        }),
{
}

/// A connection with a station is asked for from the operator's callsign to the callsign that was
/// entered last.
pub proof fn entered_destination_is_called(
    config: ConfigView,
    state: HydraStateView,
    station_connected: bool,
    destination: Seq<char>,
)
    ensures
        ({
            let edited = panel_outcome(
                config,
                state,
                true,
                station_connected,
                PanelEventView::DestinationEdited(destination),
            );
            panel_outcome(
                edited.config,
                edited.state,
                true,
                station_connected,
                PanelEventView::StationConnectButton,
            ).actions == seq![PanelActionView::Connect(config.callsign, destination)]
        }),
{
}

/// What the user does, what is done about it and what is shown is what the views say, field for
/// field.
pub proof fn panels_are_viewed_so(
    state: HydraState,
    text: String,
    other: String,
    on: bool,
    bandwidth: Bandwidth,
)
    ensures
        state@.modem_listen == state.modem_listen,
        state@.modem_public == state.modem_public,
        state@.destination_callsign == state.destination_callsign@,
        PanelEvent::MercuryButton@ is MercuryButton,
        PanelEvent::BandwidthPicked(bandwidth)@ == PanelEventView::BandwidthPicked(bandwidth),
        PanelEvent::ListenSet(on)@ == PanelEventView::ListenSet(on),
        PanelEvent::PublicSet(on)@ == PanelEventView::PublicSet(on),
        PanelEvent::DestinationEdited(text)@ == PanelEventView::DestinationEdited(text@),
        PanelEvent::StationDisconnectButton@ is StationDisconnectButton,
        PanelEvent::StationConnectButton@ is StationConnectButton,
        PanelAction::ConnectMercury(text, other, on, bandwidth)@
            == PanelActionView::ConnectMercury(text@, other@, on, bandwidth),
        PanelAction::DisconnectMercury@ is DisconnectMercury,
        PanelAction::SetBandwidth(bandwidth)@ == PanelActionView::SetBandwidth(bandwidth),
        PanelAction::SaveConfig@ is SaveConfig,
        PanelAction::SetListen(on)@ == PanelActionView::SetListen(on),
        PanelAction::SetPublic(on)@ == PanelActionView::SetPublic(on),
        PanelAction::Connect(text, other)@ == PanelActionView::Connect(text@, other@),
        PanelAction::Disconnect@ is Disconnect,
{
}

/// A list of actions says what its actions say, one for one and in order.
pub proof fn action_lists_are_viewed_so(actions: Seq<PanelAction>)
    ensures
        actions_view(actions).len() == actions.len(),
        forall|i: int|
            0 <= i < actions.len() ==> #[trigger] actions_view(actions)[i] == actions[i]@,
{
}

/// At first neither switch is on, and no destination is entered.
pub proof fn the_panel_starts_so()
    ensures
        !HydraStateView::initial().modem_listen,
        !HydraStateView::initial().modem_public,
        HydraStateView::initial().destination_callsign.len() == 0,
{
}

/// The button for mercury ends the connection if there is one. Else it makes one: to the host and
/// the ARQ port of the config, with its callsign and its bandwidth, and listening. The config stays
/// as it is.
pub proof fn the_mercury_button_does_so(
    config: ConfigView,
    state: HydraStateView,
    station_connected: bool,
)
    ensures
        ({
            let event = PanelEventView::MercuryButton;
            let ended = panel_outcome(config, state, true, station_connected, event);
            let made = panel_outcome(config, state, false, station_connected, event);
            &&& ended.config == config
            &&& ended.state == state
            &&& ended.actions.len() == 1
            &&& ended.actions[0] is DisconnectMercury
            &&& made.config == config
            &&& made.state.modem_listen
            &&& made.state.modem_public == state.modem_public
            &&& made.state.destination_callsign == state.destination_callsign
            &&& made.actions.len() == 1
            &&& made.actions[0] == PanelActionView::ConnectMercury(
                config.mercury_host + ":"@ + decimal(config.mercury_base_port as nat),
                config.callsign,
                true,
                config.mercury_bandwidth,
            )
        }),
{
}

/// A bandwidth that is picked is told to mercury and kept in the config, which is then saved.
/// Nothing else of the config changes, and nothing of what is shown.
pub proof fn the_picked_bandwidth_is_told_and_saved(
    config: ConfigView,
    state: HydraStateView,
    station_connected: bool,
    bandwidth: Bandwidth,
)
    ensures
        ({
            let outcome = panel_outcome(
                config,
                state,
                true,
                station_connected,
                PanelEventView::BandwidthPicked(bandwidth),
            );
            &&& outcome.actions.len() == 2
            &&& outcome.actions[0] == PanelActionView::SetBandwidth(bandwidth)
            &&& outcome.actions[1] is SaveConfig
            &&& outcome.config.mercury_bandwidth == bandwidth
            &&& outcome.config.mercury_host == config.mercury_host
            &&& outcome.config.mercury_base_port == config.mercury_base_port
            &&& outcome.config.mercury_data_port == config.mercury_data_port
            &&& outcome.config.callsign == config.callsign
            &&& outcome.state == state
        }),
{
}

/// Whatever is done, a bandwidth that mercury is told is that of the config then, and the config
/// changes only if it is saved.
pub proof fn the_config_has_the_bandwidth_that_mercury_is_told(
    config: ConfigView,
    state: HydraStateView,
    mercury_connected: bool,
    station_connected: bool,
    event: PanelEventView,
)
    ensures
        ({
            let outcome = panel_outcome(
                config,
                state,
                mercury_connected,
                station_connected,
                event,
            );
            &&& forall|i: int|
                0 <= i < outcome.actions.len() ==> match #[trigger] outcome.actions[i] {
                    PanelActionView::SetBandwidth(bandwidth) => outcome.config.mercury_bandwidth
                        == bandwidth,
                    PanelActionView::ConnectMercury(_, _, _, bandwidth) =>
                        outcome.config.mercury_bandwidth == bandwidth,
                    _ => true,
                }
            &&& outcome.config != config ==> exists|i: int|
                0 <= i < outcome.actions.len() && #[trigger] outcome.actions[i] is SaveConfig
        }),
{
    if mercury_connected && event is BandwidthPicked {
        let outcome = panel_outcome(config, state, mercury_connected, station_connected, event);
        assert(outcome.actions[1] is SaveConfig);
    }
}

/// A switch is shown as the user sets it, on or off, and mercury is told just that. The other switch
/// and the rest stay as they are.
pub proof fn switches_are_as_the_user_sets_them(
    config: ConfigView,
    state: HydraStateView,
    station_connected: bool,
    on: bool,
)
    ensures
        ({
            let listen = panel_outcome(
                config,
                state,
                true,
                station_connected,
                PanelEventView::ListenSet(on),
            );
            let public = panel_outcome(
                config,
                state,
                true,
                station_connected,
                PanelEventView::PublicSet(on),
            );
            &&& listen.config == config
            &&& listen.state.modem_listen == on
            &&& listen.state.modem_public == state.modem_public
            &&& listen.state.destination_callsign == state.destination_callsign
            &&& listen.actions.len() == 1
            &&& listen.actions[0] == PanelActionView::SetListen(on)
            &&& public.config == config
            &&& public.state.modem_public == on
            &&& public.state.modem_listen == state.modem_listen
            &&& public.state.destination_callsign == state.destination_callsign
            &&& public.actions.len() == 1
            &&& public.actions[0] == PanelActionView::SetPublic(on)
        }),
{
}

/// A destination that is entered is kept as it is, and nothing else is done.
pub proof fn the_destination_is_kept_as_entered(
    config: ConfigView,
    state: HydraStateView,
    station_connected: bool,
    destination: Seq<char>,
)
    ensures
        ({
            let outcome = panel_outcome(
                config,
                state,
                true,
                station_connected,
                PanelEventView::DestinationEdited(destination),
            );
            &&& outcome.config == config
            &&& outcome.state.destination_callsign == destination
            &&& outcome.state.modem_listen == state.modem_listen
            &&& outcome.state.modem_public == state.modem_public
            &&& outcome.actions.len() == 0
        }),
{
}

/// The buttons for stations: one asks for a connection from the operator's callsign to the
/// destination, connected to a station or not; the other asks for the end of the connection, if
/// there is one. Neither changes the config or what is shown.
pub proof fn the_station_buttons_do_so(
    config: ConfigView,
    state: HydraStateView,
    station_connected: bool,
)
    ensures
        ({
            let connect = panel_outcome(
                config,
                state,
                true,
                station_connected,
                PanelEventView::StationConnectButton,
            );
            let disconnect = panel_outcome(
                config,
                state,
                true,
                station_connected,
                PanelEventView::StationDisconnectButton,
            );
            &&& connect.config == config
            &&& connect.state == state
            &&& connect.actions.len() == 1
            &&& connect.actions[0] == PanelActionView::Connect(
                config.callsign,
                state.destination_callsign,
            )
            &&& disconnect.config == config
            &&& disconnect.state == state
            &&& disconnect.actions.len() == (if station_connected {
                1nat
            } else {
                0nat
            })
            &&& station_connected ==> disconnect.actions[0] is Disconnect
        }),
{
}

} // verus!
