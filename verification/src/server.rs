//! The server as a whole: built from a configuration, run, and stopped.

use vstd::prelude::*;
use crate::config::{SitesConfig, SitesConfigView, secret_of};
use crate::site::{ConfigError, ConfigErrorView, SiteState, SiteStateView, bootstrap, states_view};

verus! {

/// An address to listen on.
#[derive(Clone, Debug, PartialEq, Eq)]
pub struct ListenAddr {
    pub ip: String,
    pub port: u16,
}

/// The views of a list of addresses.
pub open spec fn addrs_view(v: Seq<ListenAddr>) -> Seq<(Seq<char>, u16)> {
    Seq::new(v.len(), |i: int| (v[i].ip@, v[i].port))
}

/// The addresses that a configuration asks to listen on: its address, with each of its ports.
pub open spec fn addrs_of(cfg: SitesConfigView) -> Seq<(Seq<char>, u16)> {
    Seq::new(cfg.ports.len(), |i: int| (cfg.ip, cfg.ports[i]))
}

/// What a running server serves, and with what.
#[derive(Clone, Debug, PartialEq, Eq)]
pub struct Serving {
    pub addrs: Vec<ListenAddr>,
    pub site_states: Vec<SiteState>,
    /// The secret that signs sessions.
    pub secret: String,
}

/// A server that is ready to run.
#[derive(Clone, Debug, PartialEq, Eq)]
pub struct SitesServerBuilder {
    sites_root: String,
    serving: Serving,
}

/// The handle on a running server.
#[derive(Clone, Debug, PartialEq, Eq)]
pub struct SitesServer {
    sites_root: String,
    addrs: Vec<ListenAddr>,
}

/// What a server of this configuration serves.
pub struct ServingView {
    pub addrs: Seq<(Seq<char>, u16)>,
    pub site_states: Seq<SiteStateView>,
    pub secret: Seq<char>,
}

impl View for Serving {
    type V = ServingView;

    open spec fn view(&self) -> ServingView {
        ServingView {
            addrs: addrs_view(self.addrs@),
            site_states: states_view(self.site_states@),
            secret: self.secret@,
        }
    }
}

/// What a configuration comes to: what is served, or the first refusal.
pub open spec fn serving_of(cfg: SitesConfigView, sites_root: Seq<char>, now: i64) -> Result<
    ServingView,
    ConfigErrorView,
> {
    match bootstrap(cfg, sites_root, now) {
        Err(e) => Err(e),
        Ok(states) => Ok(
            ServingView { addrs: addrs_of(cfg), site_states: states, secret: secret_of(cfg) },
        ),
    }
}

fn copy_addrs(addrs: &Vec<ListenAddr>) -> (r: Vec<ListenAddr>)
    ensures
        addrs_view(r@) == addrs_view(addrs@),
{
    let mut r: Vec<ListenAddr> = Vec::new();
    let mut i: usize = 0;
    while i < addrs.len()
        invariant
            i <= addrs.len(),
            r.len() == i,
            forall|j: int|
                0 <= j < i ==> (#[trigger] r@[j]).ip@ == addrs@[j].ip@ && r@[j].port
                    == addrs@[j].port,
        decreases addrs.len() - i,
    {
        r.push(ListenAddr { ip: addrs[i].ip.clone(), port: addrs[i].port });
        i += 1;
    }
    assert(addrs_view(r@) =~= addrs_view(addrs@));
    r
}

impl SitesServerBuilder {
    /// The sites root directory.
    pub fn sites_root(&self) -> (r: &str)
        ensures
            r@ == self.root(),
    {
        self.sites_root.as_str()
    }

    /// The sites root directory.
    pub closed spec fn root(&self) -> Seq<char> {
        self.sites_root@
    }

    /// What the server will serve.
    pub closed spec fn plan(&self) -> ServingView {
        self.serving@
    }

    /// The addresses to listen on.
    pub fn addrs(&self) -> (r: &Vec<ListenAddr>)
        ensures
            addrs_view(r@) == self.plan().addrs,
    {
        &self.serving.addrs
    }

    /// The states of the sites.
    pub fn site_states(&self) -> (r: &Vec<SiteState>)
        ensures
            states_view(r@) == self.plan().site_states,
    {
        &self.serving.site_states
    }

    /// Starts the service: hands out what is to be served.
    pub fn run(self) -> (r: Serving)
        ensures
            r@ == self.plan(),
    {
        self.serving
    }

    /// Starts the service beside the caller: hands out what is to be
    /// served, and the handle to stop it with.
    pub fn run_in_thread(self) -> (r: (SitesServer, Serving))
        ensures
            r.1@ == self.plan(),
            r.0.root() == self.root(),
            r.0.listening() == self.plan().addrs,
    {
        let addrs = copy_addrs(&self.serving.addrs);
        (SitesServer { sites_root: self.sites_root, addrs }, self.serving)
    }
}

impl SitesServer {
    /// The sites root directory.
    pub closed spec fn root(&self) -> Seq<char> {
        self.sites_root@
    }

    /// The addresses that the server listens on.
    pub closed spec fn listening(&self) -> Seq<(Seq<char>, u16)> {
        addrs_view(self.addrs@)
    }

    /// Makes a server for a configuration, at `now` seconds since the
    /// epoch. A configuration that is refused makes none.
    pub fn new(sites_root: String, config: &SitesConfig, now: i64) -> (r: Result<
        SitesServerBuilder,
        ConfigError,
    >)
        ensures
            match r {
                Ok(b) => serving_of(config@, sites_root@, now) == Ok::<
                    ServingView,
                    ConfigErrorView,
                >(b.plan()) && b.root() == sites_root@,
                Err(e) => serving_of(config@, sites_root@, now) == Err::<
                    ServingView,
                    ConfigErrorView,
                >(e@),
            },
    {
        let site_states = match SiteState::from_sites_config(config, sites_root.as_str(), now) {
            Ok(s) => s,
            Err(e) => {
                return Err(e);
            },
        };
        let mut addrs: Vec<ListenAddr> = Vec::new();
        let mut i: usize = 0;
        while i < config.net.port.len()
            invariant
                i <= config.net.port.len(),
                addrs.len() == i,
                forall|j: int|
                    0 <= j < i ==> (#[trigger] addrs@[j]).ip@ == config.net.ip@ && addrs@[j].port
                        == config.net.port@[j],
            decreases config.net.port.len() - i,
        {
            addrs.push(ListenAddr { ip: config.net.ip.clone(), port: config.net.port[i] });
            i += 1;
        }
        assert(addrs_view(addrs@) =~= addrs_of(config@));
        let secret = config.secret();
        Ok(SitesServerBuilder { sites_root, serving: Serving { addrs, site_states, secret } })
    }

    /// The sites root directory.
    pub fn sites_root(&self) -> (r: &str)
        ensures
            r@ == self.root(),
    {
        self.sites_root.as_str()
    }

    /// Stops the server: gives the listeners that are to be closed, each
    /// address that the server listens on once, in the order of the ports.
    pub fn stop(self) -> (r: Vec<ListenAddr>)
        ensures
            addrs_view(r@) == self.listening(),
    {
        self.addrs
    }
}

/// Makes a server for a configuration and starts it at once.
pub fn start(sites_root: String, config: &SitesConfig, now: i64) -> (r: Result<
    Serving,
    ConfigError,
>)
    ensures
        match r {
            Ok(s) => serving_of(config@, sites_root@, now) == Ok::<ServingView, ConfigErrorView>(
                s@,
            ),
            Err(e) => serving_of(config@, sites_root@, now) == Err::<ServingView, ConfigErrorView>(
                e@,
            ),
        },
{
    match SitesServer::new(sites_root, config, now) {
        Ok(builder) => Ok(builder.run()),
        Err(e) => Err(e),
    }
}

} // verus!
