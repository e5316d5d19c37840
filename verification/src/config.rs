//! The persistent config, and when it is fit for use.

use vstd::prelude::*;
use crate::bandwidth::Bandwidth;
use crate::text::{decimal, format_number};

verus! {

/// The name of the config file, which is stored alongside the executable if possible.
pub const CONFIG_FILE_NAME: &'static str = "hydra-config.json";

/// The persistent config for Hydra
#[derive(Debug, Clone)]
pub struct HydraConfig {
    /// The ip address of the mercury instance, as text
    pub mercury_host: String,
    /// The ARQ port of the mercury instance
    pub mercury_base_port: u16,
    /// The Data port of the mercury instance (usually ARQ/Base port + 1)
    pub mercury_data_port: u16,
    /// The bandwidth setting
    pub mercury_bandwidth: Bandwidth,
    /// The operator callsign
    pub callsign: String,
}

/// What a `HydraConfig` holds.
pub struct ConfigView {
    pub mercury_host: Seq<char>,
    pub mercury_base_port: u16,
    pub mercury_data_port: u16,
    pub mercury_bandwidth: Bandwidth,
    pub callsign: Seq<char>,
}

impl View for HydraConfig {
    type V = ConfigView;

    open spec fn view(&self) -> ConfigView {
        ConfigView {
            mercury_host: self.mercury_host@,
            mercury_base_port: self.mercury_base_port,
            mercury_data_port: self.mercury_data_port,
            mercury_bandwidth: self.mercury_bandwidth,
            callsign: self.callsign@,
        }
    }
}

impl ConfigView {
    /// The config before the user has set anything: mercury on this machine, at its usual ports,
    /// and no callsign.
    pub open spec fn initial() -> ConfigView {
        ConfigView {
            mercury_host: "127.0.0.1"@,
            mercury_base_port: 8300,
            mercury_data_port: 8301,
            mercury_bandwidth: Bandwidth::BW500,
            callsign: Seq::empty(),
        }
    }

    /// Whether a config that was read is fit for use: the operator's callsign is set.
    pub open spec fn usable(self) -> bool {
        self.callsign.len() > 0
    }

    /// The ip:port of mercury's ARQ port.
    pub open spec fn mercury_address(self) -> Seq<char> {
        self.mercury_host + ":"@ + decimal(self.mercury_base_port as nat)
    }
}

/// How the loading of the config has come along. `E` tells what failed.
#[derive(Debug)]
pub enum LoadEvent<E> {
    /// The config file was opened.
    Opened,
    /// There is no config file.
    NotFound,
    /// The config file was read, and holds this.
    Parsed(HydraConfig),
    /// This config was written to a new config file.
    Saved(HydraConfig),
    /// Something else failed: finding, opening, reading, parsing or writing the file.
    Failed(E),
}

/// What a `LoadEvent` says.
pub enum LoadEventView<E> {
    Opened,
    NotFound,
    Parsed(ConfigView),
    Saved(ConfigView),
    Failed(E),
}

impl<E> View for LoadEvent<E> {
    type V = LoadEventView<E>;

    open spec fn view(&self) -> LoadEventView<E> {
        match self {
            LoadEvent::Opened => LoadEventView::Opened,
            LoadEvent::NotFound => LoadEventView::NotFound,
            LoadEvent::Parsed(config) => LoadEventView::Parsed(config@),
            LoadEvent::Saved(config) => LoadEventView::Saved(config@),
            LoadEvent::Failed(e) => LoadEventView::Failed(*e),
        }
    }
}

/// What the loading of the config does next.
#[derive(Debug)]
pub enum LoadAction<E> {
    /// Read the file and parse it.
    Read,
    /// Write this config to a new file.
    Save(HydraConfig),
    /// Go on with this config.
    Use(HydraConfig),
    /// Refuse the config: no callsign was specified in it.
    RefuseWithoutCallsign,
    /// Pass on what failed.
    Fail(E),
}

/// What a `LoadAction` says.
pub enum LoadActionView<E> {
    Read,
    Save(ConfigView),
    Use(ConfigView),
    RefuseWithoutCallsign,
    Fail(E),
}

impl<E> View for LoadAction<E> {
    type V = LoadActionView<E>;

    open spec fn view(&self) -> LoadActionView<E> {
        match self {
            LoadAction::Read => LoadActionView::Read,
            LoadAction::Save(config) => LoadActionView::Save(config@),
            LoadAction::Use(config) => LoadActionView::Use(config@),
            LoadAction::RefuseWithoutCallsign => LoadActionView::RefuseWithoutCallsign,
            LoadAction::Fail(e) => LoadActionView::Fail(*e),
        }
    }
}

/// What follows each step of loading. A file that is there is read, and what it holds is used if
/// it is fit for use. Where there is no file, one is made for the user, and used as it is. What
/// else fails is passed on.
pub open spec fn load_next<E>(event: LoadEventView<E>) -> LoadActionView<E> {
    match event {
        LoadEventView::Opened => LoadActionView::Read,
        LoadEventView::NotFound => LoadActionView::Save(ConfigView::initial()),
        LoadEventView::Parsed(config) => if config.usable() {
            LoadActionView::Use(config)
        } else {
            LoadActionView::RefuseWithoutCallsign
        },
        LoadEventView::Saved(config) => LoadActionView::Use(config),
        LoadEventView::Failed(e) => LoadActionView::Fail(e),
    }
}

impl Default for HydraConfig {
    fn default() -> (r: HydraConfig)
        ensures
            r@ == ConfigView::initial(),
    {
        HydraConfig {
            mercury_host: String::from_str("127.0.0.1"),
            mercury_base_port: 8300,
            mercury_data_port: 8301,
            mercury_bandwidth: Bandwidth::BW500,
            callsign: String::new(),
        }
    }
}

impl HydraConfig {
    /// Load the config from the config file (or create a new one if it doesn't exist)
    pub fn load<E>(event: LoadEvent<E>) -> (r: LoadAction<E>)
        ensures
            r@ == load_next(event@),
    {
        match event {
            LoadEvent::Opened => LoadAction::Read,
            LoadEvent::NotFound => LoadAction::Save(HydraConfig::default()),
            LoadEvent::Parsed(config) => {
                // Perform some sanity checks on the config
                if config.callsign.as_str().is_empty() {
                    LoadAction::RefuseWithoutCallsign
                } else {
                    LoadAction::Use(config)
                }
            },
            LoadEvent::Saved(config) => LoadAction::Use(config),
            LoadEvent::Failed(e) => LoadAction::Fail(e),
        }
    }

    /// The ip:port of mercury's ARQ port.
    pub fn mercury_address(&self) -> (r: String)
        ensures
            r@ == self@.mercury_address(),
    {
        let mut r = self.mercury_host.clone();
        r.append(":");
        r.append(format_number(self.mercury_base_port as usize).as_str());
        r
    }
}

/// A config that was read is used exactly if it names a callsign, and then as it was read.
pub proof fn config_in_use_has_a_callsign<E>(read: ConfigView, used: ConfigView)
    ensures
        load_next(LoadEventView::<E>::Parsed(read)) == LoadActionView::<E>::Use(used) <==> used
            == read && read.callsign.len() > 0,
{
}

/// Where there is no config file, the default config is written and used. It is refused when it
/// is read again, as long as no callsign is written to it.
pub proof fn new_config_waits_for_a_callsign<E>()
    ensures
        load_next(LoadEventView::<E>::NotFound) == LoadActionView::<E>::Save(
            ConfigView::initial(),
        ),
        load_next(LoadEventView::<E>::Saved(ConfigView::initial())) == LoadActionView::<E>::Use(
            ConfigView::initial(),
        ),
        load_next(LoadEventView::<E>::Parsed(ConfigView::initial()))
            == LoadActionView::<E>::RefuseWithoutCallsign,
{
}

/// The default data port follows the ARQ port.
pub proof fn default_data_port_follows_the_base_port()
    ensures
        ConfigView::initial().mercury_data_port == ConfigView::initial().mercury_base_port + 1,
{
}

/// What a config, and what a step of loading it, holds is what its view says, field for field.
pub proof fn configs_are_viewed_so<E>(config: HydraConfig, e: E)
    ensures
        config@.mercury_host == config.mercury_host@,
        config@.mercury_base_port == config.mercury_base_port,
        config@.mercury_data_port == config.mercury_data_port,
        config@.mercury_bandwidth == config.mercury_bandwidth,
        config@.callsign == config.callsign@,
        LoadEvent::<E>::Opened@ is Opened,
        LoadEvent::<E>::NotFound@ is NotFound,
        LoadEvent::<E>::Parsed(config)@ == LoadEventView::<E>::Parsed(config@),
        LoadEvent::<E>::Saved(config)@ == LoadEventView::<E>::Saved(config@),
        LoadEvent::<E>::Failed(e)@ == LoadEventView::<E>::Failed(e),
        LoadAction::<E>::Read@ is Read,
        LoadAction::<E>::Save(config)@ == LoadActionView::<E>::Save(config@),
        LoadAction::<E>::Use(config)@ == LoadActionView::<E>::Use(config@),
        LoadAction::<E>::RefuseWithoutCallsign@ is RefuseWithoutCallsign,
        LoadAction::<E>::Fail(e)@ == LoadActionView::<E>::Fail(e),
{
}

/// The default config: mercury on this machine, the ports 8300 and 8301, the narrowest bandwidth
/// and no callsign.
pub proof fn the_default_config_is_so()
    ensures
        ConfigView::initial().mercury_host == "127.0.0.1"@,
        ConfigView::initial().mercury_base_port == 8300,
        ConfigView::initial().mercury_data_port == 8301,
        ConfigView::initial().mercury_bandwidth is BW500,
        ConfigView::initial().callsign.len() == 0,
{
}

/// Mercury is reached at the host and the ARQ port of the config, with a colon between them. The
/// data port, the bandwidth and the callsign do not matter: two configs that agree on the host and
/// the ARQ port have the same address.
pub proof fn mercury_is_reached_at_host_and_base_port(config: ConfigView, other: ConfigView)
    ensures
        config.mercury_address() == config.mercury_host + ":"@ + decimal(
            config.mercury_base_port as nat,
        ),
        config.mercury_host == other.mercury_host && config.mercury_base_port
            == other.mercury_base_port ==> config.mercury_address() == other.mercury_address(),
{
}

/// A file that is there is read. What was read is used as it is if it has a callsign, and refused
/// if it has none. A config that was saved is used as it is, with a callsign or without. What fails
/// is passed on as it is.
pub proof fn loading_goes_so<E>(config: ConfigView, e: E)
    ensures
        load_next(LoadEventView::<E>::Opened) == LoadActionView::<E>::Read,
        config.callsign.len() > 0 ==> load_next(LoadEventView::<E>::Parsed(config))
            == LoadActionView::<E>::Use(config),
        config.callsign.len() == 0 ==> load_next(LoadEventView::<E>::Parsed(config))
            == LoadActionView::<E>::RefuseWithoutCallsign,
        load_next(LoadEventView::<E>::Saved(config)) == LoadActionView::<E>::Use(config),
        load_next(LoadEventView::<E>::Failed(e)) == LoadActionView::<E>::Fail(e),
        config.usable() <==> config.callsign.len() > 0,
{
}

} // verus!
