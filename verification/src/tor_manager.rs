use vstd::prelude::*;
use vstd::string::*;
use crate::config::{Config, ProxyHop, TorConfig};
use crate::error::{Error, ErrorView};
use crate::number::{decimal_of, parse_u8, parse_u8_of, push_decimal};
use crate::split::{before_char, before_first};
use crate::text::{
    find, find_first, join, joined, lemma_find_first, lowercase_of, str_eq, texts, to_lowercase,
    trim, trimmed,
};
use crate::tor_control::{may_set, must_set, steps, ControlStep, StepView};

verus! {

/// The percentage that a line of output reports: the number between the
/// first `Bootstrapped ` and the next percent sign, where it is one.
pub open spec fn bootstrap_percent_of(line: Seq<char>) -> Option<u8> {
    match find_first(line, "Bootstrapped "@) {
        Some(k) => parse_u8_of(
            trimmed(before_first(line.subrange(k as int + 13, line.len() as int), '%')),
        ),
        None => None,
    }
}

/// The percentage that a line of output reports, where it reports one.
pub fn parse_bootstrap_percent(line: &str) -> (r: Option<u8>)
    ensures
        r == bootstrap_percent_of(line@),
{
    proof {
        reveal_strlit("Bootstrapped ");
        lemma_find_first(line@, "Bootstrapped "@);
    }
    match find(line, "Bootstrapped ") {
        Some(k) => {
            let n = line.unicode_len();
            let rest = line.substring_char(k + 13, n);
            parse_u8(trim(before_char(rest, '%')))
        },
        None => None,
    }
}

/// How far the supervised process has come.
#[derive(Debug, Clone, Copy, PartialEq, Eq, Structural)]
pub enum BootstrapState {
    /// Launched; no progress seen yet.
    Starting,
    /// The highest percentage seen so far, below 100.
    Bootstrapping(u8),
    /// Progress has reached 100 percent.
    Ready,
    /// The process ended before it was ready.
    Failed,
}

/// Whether the supervised process still runs.
#[derive(Debug, Clone, Copy, PartialEq, Eq, Structural)]
pub enum ProcessStatus {
    Running,
    /// Ended, with this exit code where it has one.
    Exited(Option<i32>),
}

/// The highest percentage seen in a state that is not final.
pub open spec fn percent_of(state: BootstrapState) -> u8 {
    match state {
        BootstrapState::Bootstrapping(p) => p,
        _ => 0,
    }
}

/// Whether the state is one that a supervisor can be in: a percentage that
/// is still counted lies below 100.
pub open spec fn well_formed(state: BootstrapState) -> bool {
    state is Bootstrapping ==> percent_of(state) < 100
}

/// Whether the state can still change.
pub open spec fn is_open(state: BootstrapState) -> bool {
    state is Starting || state is Bootstrapping
}

/// The state after a line of output, seen while the process was in
/// `status`. A final state stays. A process that has ended below 100 percent
/// has failed, whatever the line says. Otherwise the percentage can only
/// grow, and 100 percent is readiness.
pub open spec fn observed(state: BootstrapState, status: ProcessStatus, line: Seq<char>)
    -> BootstrapState {
    if !is_open(state) {
        state
    } else if status is Exited && percent_of(state) < 100 {
        BootstrapState::Failed
    } else {
        match bootstrap_percent_of(line) {
            Some(p) => {
                let m = if p > percent_of(state) {
                    p
                } else {
                    percent_of(state)
                };
                if m >= 100 {
                    BootstrapState::Ready
                } else {
                    BootstrapState::Bootstrapping(m)
                }
            },
            None => state,
        }
    }
}

/// The supervised process: its id and how far it has come.
pub struct TorInstance {
    pid: i32,
    state: BootstrapState,
}

impl TorInstance {
    /// The id of the process.
    pub closed spec fn spec_pid(&self) -> i32 {
        self.pid
    }

    /// How far the process has come.
    pub closed spec fn spec_state(&self) -> BootstrapState {
        self.state
    }

    /// The id of the process.
    pub fn pid(&self) -> (r: i32)
        ensures
            r == self.spec_pid(),
    {
        self.pid
    }

    /// How far the process has come.
    pub fn state(&self) -> (r: BootstrapState)
        ensures
            r == self.spec_state(),
    {
        self.state
    }

    /// The handle of a process that was just launched with id `pid`.
    pub fn start(pid: i32) -> (r: TorInstance)
        ensures
            r.spec_pid() == pid,
            r.spec_state() == BootstrapState::Starting,
            well_formed(r.spec_state()),
    {
        TorInstance { pid, state: BootstrapState::Starting }
    }

    /// Takes one line of the process's output, with the status of the
    /// process as it was before the line was read. Gives the new state, or
    /// the error of a process that ended early, exactly when this line found
    /// it ended.
    pub fn observe(&mut self, status: ProcessStatus, line: &str) -> (r: Result<
        BootstrapState,
        Error,
    >)
        ensures
            final(self).spec_pid() == old(self).spec_pid(),
            final(self).spec_state() == observed(old(self).spec_state(), status, line@),
            well_formed(old(self).spec_state()) ==> well_formed(final(self).spec_state()),
            match r {
                Ok(s) => s == final(self).spec_state() && !(is_open(old(self).spec_state())
                    && s is Failed),
                Err(e) => is_open(old(self).spec_state()) && final(self).spec_state() is Failed
                    && status is Exited && e@ == ErrorView::ProcessExited(status->Exited_0),
            },
    {
        match self.state {
            BootstrapState::Ready | BootstrapState::Failed => {
                return Ok(self.state);
            },
            _ => {},
        }
        let seen: u8 = match self.state {
            BootstrapState::Bootstrapping(p) => p,
            _ => 0,
        };
        match status {
            ProcessStatus::Exited(code) => {
                if seen < 100 {
                    self.state = BootstrapState::Failed;
                    return Err(Error::ProcessExited(code));
                }
            },
            ProcessStatus::Running => {},
        }
        match parse_bootstrap_percent(line) {
            Some(p) => {
                let m = if p > seen {
                    p
                } else {
                    seen
                };
                if m >= 100 {
                    self.state = BootstrapState::Ready;
                } else {
                    self.state = BootstrapState::Bootstrapping(m);
                }
            },
            None => {},
        }
        Ok(self.state)
    }
}

/// The percentage never falls, a state that is ready or failed never
/// changes again, a line that reports 100 percent or more makes a running
/// process ready, and a process that has ended before that has failed.
pub proof fn law_bootstrap_monotone(state: BootstrapState, status: ProcessStatus, line: Seq<char>)
    requires
        well_formed(state),
    ensures
        well_formed(observed(state, status, line)),
        !is_open(state) ==> observed(state, status, line) == state,
        observed(state, status, line) is Bootstrapping ==> percent_of(
            observed(state, status, line),
        ) >= percent_of(state) && percent_of(observed(state, status, line)) < 100,
        observed(state, status, line) is Starting ==> state is Starting,
        is_open(state) && status is Running && bootstrap_percent_of(line) is Some
            && bootstrap_percent_of(line).unwrap() >= 100 ==> observed(state, status, line)
            is Ready,
        is_open(state) && status is Exited ==> observed(state, status, line) is Failed,
{
}

/// One `Bridge` line for each bridge, in order.
pub open spec fn bridge_lines(bridges: Seq<Seq<char>>) -> Seq<char>
    decreases bridges.len(),
{
    if bridges.len() == 0 {
        Seq::empty()
    } else {
        bridge_lines(bridges.drop_last()) + ("Bridge "@ + bridges.last() + "\n"@)
    }
}

/// The line that names the transport plugin, where one is configured.
pub open spec fn plugin_line(plugin: Option<Seq<char>>) -> Seq<char> {
    match plugin {
        Some(p) => "ClientTransportPlugin obfs4 exec "@ + p + "\n"@,
        None => Seq::empty(),
    }
}

/// What the configuration says of bridges: nothing unless they are in use.
pub open spec fn bridge_part(tor: &TorConfig) -> Seq<char> {
    if tor.use_bridges {
        "UseBridges 1\n"@ + bridge_lines(texts(tor.bridges@)) + plugin_line(
            match tor.client_transport_plugin {
                Some(p) => Some(p@),
                None => None,
            },
        )
    } else {
        Seq::empty()
    }
}

/// What the configuration says in every case: the data directory, the three
/// listeners on the loopback address and the hardening directives.
pub open spec fn fixed_part(tor: &TorConfig, data_dir: Seq<char>) -> Seq<char> {
    "DataDirectory "@ + data_dir + "\n"@ + "ClientOnly 1\n"@ + "SOCKSPort 127.0.0.1:"@
        + decimal_of(tor.socks_port as nat) + "\n"@ + "DNSPort 127.0.0.1:"@ + decimal_of(
        tor.dns_port as nat,
    ) + "\n"@ + "AutomapHostsOnResolve 1\nAutomapHostsSuffixes .onion,.exit\n"@
        + "ClientUseIPv4 1\nClientUseIPv6 1\nSafeSocks 1\n"@
        + "UseGuardFraction 1\nCircuitPadding 1\nAvoidDiskWrites 1\n"@ + "ControlPort 127.0.0.1:"@
        + decimal_of(tor.control_port as nat) + "\n"@ + "CookieAuthentication 1\n"@
}

/// The configuration text of the supervised process.
pub open spec fn torrc_text(tor: &TorConfig, data_dir: Seq<char>) -> Seq<char> {
    fixed_part(tor, data_dir) + bridge_part(tor)
}

/// Renders the configuration of the supervised process. The text depends on
/// the fields of `cfg.tor` and on `data_dir` alone, and rendering never
/// fails.
pub fn generate_torrc(cfg: &Config, data_dir: &str) -> (r: Result<String, Error>)
    ensures
        r is Ok,
        r.unwrap()@ == torrc_text(&cfg.tor, data_dir@),
{
    let tor = &cfg.tor;
    let mut s = String::from_str("DataDirectory ");
    s.append(data_dir);
    s.append("\n");
    s.append("ClientOnly 1\n");
    s.append("SOCKSPort 127.0.0.1:");
    push_decimal(&mut s, tor.socks_port as u64);
    s.append("\n");
    s.append("DNSPort 127.0.0.1:");
    push_decimal(&mut s, tor.dns_port as u64);
    s.append("\n");
    s.append("AutomapHostsOnResolve 1\nAutomapHostsSuffixes .onion,.exit\n");
    s.append("ClientUseIPv4 1\nClientUseIPv6 1\nSafeSocks 1\n");
    s.append("UseGuardFraction 1\nCircuitPadding 1\nAvoidDiskWrites 1\n");
    s.append("ControlPort 127.0.0.1:");
    push_decimal(&mut s, tor.control_port as u64);
    s.append("\n");
    s.append("CookieAuthentication 1\n");
    assert(s@ == fixed_part(tor, data_dir@));
    if tor.use_bridges {
        s.append("UseBridges 1\n");
        let ghost head = s@;
        let mut i: usize = 0;
        assert(s@ =~= head + bridge_lines(texts(tor.bridges@).subrange(0, 0)));
        while i < tor.bridges.len()
            invariant
                i <= tor.bridges.len(),
                s@ == head + bridge_lines(texts(tor.bridges@).subrange(0, i as int)),
            decreases tor.bridges.len() - i,
        {
            let ghost before = texts(tor.bridges@).subrange(0, i as int);
            let ghost after = texts(tor.bridges@).subrange(0, i + 1);
            s.append("Bridge ");
            s.append(tor.bridges[i].as_str());
            s.append("\n");
            proof {
                assert(after.drop_last() =~= before);
                assert(after.last() == tor.bridges@[i as int]@);
                assert(s@ =~= head + bridge_lines(after));
            }
            i += 1;
        }
        assert(texts(tor.bridges@).subrange(0, tor.bridges.len() as int) =~= texts(
            tor.bridges@,
        ));
        match &tor.client_transport_plugin {
            Some(p) => {
                s.append("ClientTransportPlugin obfs4 exec ");
                s.append(p.as_str());
                s.append("\n");
            },
            None => {},
        }
        assert(s@ =~= torrc_text(tor, data_dir@));
    } else {
        assert(s@ =~= torrc_text(tor, data_dir@));
    }
    Ok(s)
}

/// The pattern that stands for a country among the exit nodes: its code in
/// braces.
pub open spec fn braced(code: Seq<char>) -> Seq<char> {
    "{"@ + code + "}"@
}

/// The patterns of the configured countries, each in lower case, in order.
pub open spec fn country_patterns(countries: Seq<Seq<char>>) -> Seq<Seq<char>> {
    Seq::new(countries.len(), |i: int| braced(lowercase_of(countries[i])))
}

/// Puts a country code in braces.
pub fn brace(code: &str) -> (r: String)
    ensures
        r@ == braced(code@),
{
    let mut r = String::from_str("{");
    r.append(code);
    r.append("}");
    r
}

/// The steps that set the exit policy: the allowed countries and the
/// strictness, both of which must succeed, or, where no country is
/// configured, the clearing of both, which may fail.
pub open spec fn exit_steps(countries: Seq<Seq<char>>, strict: bool) -> Seq<StepView> {
    if countries.len() > 0 {
        seq![
            must_set("ExitNodes"@, joined(country_patterns(countries), ","@)),
            must_set(
                "StrictNodes"@,
                if strict {
                    "1"@
                } else {
                    "0"@
                },
            ),
        ]
    } else {
        seq![may_set("ExitNodes"@, Seq::empty()), may_set("StrictNodes"@, "0"@)]
    }
}

/// The steps that make the supervised process use the proxy `hop`: its
/// address under the option of its kind, then its credentials where it has
/// any. Each step may fail. A proxy of an unknown kind takes no step.
pub open spec fn proxy_steps(
    typ: Seq<char>,
    addr: Seq<char>,
    user: Option<Seq<char>>,
    pass: Option<Seq<char>>,
) -> Seq<StepView> {
    if typ == "socks5"@ {
        seq![may_set("Socks5Proxy"@, addr)] + (match user {
            Some(u) => seq![may_set("Socks5ProxyUsername"@, u)],
            None => Seq::empty(),
        }) + (match pass {
            Some(p) => seq![may_set("Socks5ProxyPassword"@, p)],
            None => Seq::empty(),
        })
    } else if typ == "https"@ {
        seq![may_set("HTTPSProxy"@, addr)] + (match user {
            Some(u) => seq![
                may_set(
                    "HTTPSProxyAuthenticator"@,
                    u + ":"@ + (match pass {
                        Some(p) => p,
                        None => Seq::empty(),
                    }),
                ),
            ],
            None => Seq::empty(),
        })
    } else {
        Seq::empty()
    }
}

/// The view of an optional string.
pub open spec fn opt_text(s: Option<String>) -> Option<Seq<char>> {
    match s {
        Some(x) => Some(x@),
        None => None,
    }
}

/// The steps that make the supervised process use the proxy `hop`.
pub fn apply_proxy(hop: &ProxyHop) -> (r: Vec<ControlStep>)
    ensures
        steps(r@) == proxy_steps(
            hop.typ@,
            hop.addr@,
            opt_text(hop.username),
            opt_text(hop.password),
        ),
{
    let mut r: Vec<ControlStep> = Vec::new();
    if str_eq(hop.typ.as_str(), "socks5") {
        r.push(ControlStep::set("Socks5Proxy", hop.addr.as_str(), false));
        match &hop.username {
            Some(u) => {
                r.push(ControlStep::set("Socks5ProxyUsername", u.as_str(), false));
            },
            None => {},
        }
        match &hop.password {
            Some(p) => {
                r.push(ControlStep::set("Socks5ProxyPassword", p.as_str(), false));
            },
            None => {},
        }
    } else if str_eq(hop.typ.as_str(), "https") {
        r.push(ControlStep::set("HTTPSProxy", hop.addr.as_str(), false));
        match &hop.username {
            Some(u) => {
                let mut auth = String::from_str(u.as_str());
                auth.append(":");
                match &hop.password {
                    Some(p) => {
                        auth.append(p.as_str());
                    },
                    None => {
                        assert(auth@ + Seq::<char>::empty() =~= auth@);
                    },
                }
                r.push(ControlStep::set("HTTPSProxyAuthenticator", auth.as_str(), false));
            },
            None => {},
        }
    }
    assert(steps(r@) =~= proxy_steps(
        hop.typ@,
        hop.addr@,
        opt_text(hop.username),
        opt_text(hop.password),
    ));
    r
}

/// How long the supervised process is given to settle after a change of
/// proxy, in milliseconds.
pub const SETTLE_MS: u64 = 500;

/// The steps of the whole policy. The exit policy comes first. With proxy
/// forwarding on and a proxy at hand, the proxy's steps follow, then the
/// move to the next proxy, a new identity and the settle delay; with
/// forwarding on and no proxy at hand nothing follows. With forwarding off,
/// both proxy options are cleared, which may fail.
pub open spec fn policy_steps(
    countries: Seq<Seq<char>>,
    strict: bool,
    forwarding: bool,
    proxy: Option<Seq<StepView>>,
) -> Seq<StepView> {
    exit_steps(countries, strict) + (if forwarding {
        match proxy {
            Some(p) => p + seq![
                StepView::AdvanceProxy,
                StepView::SignalNewnym,
                StepView::Settle { millis: SETTLE_MS },
            ],
            None => Seq::empty(),
        }
    } else {
        seq![may_set("Socks5Proxy"@, Seq::empty()), may_set("HTTPSProxy"@, Seq::empty())]
    })
}

/// The steps that `hop` gives, where there is one.
pub open spec fn hop_steps(hop: Option<&ProxyHop>) -> Option<Seq<StepView>> {
    match hop {
        Some(h) => Some(proxy_steps(h.typ@, h.addr@, opt_text(h.username), opt_text(h.password))),
        None => None,
    }
}

/// Plans the exit policy and the proxy forwarding that `cfg` asks for. `hop`
/// is the proxy that the proxy manager hands out now, if any. The steps are
/// to be taken in order over one authenticated session; a failure of a step
/// that must succeed ends the change.
pub fn apply_proxy_and_exit(cfg: &Config, hop: Option<&ProxyHop>) -> (r: Vec<ControlStep>)
    ensures
        steps(r@) == policy_steps(
            texts(cfg.exit.countries@),
            cfg.exit.strict,
            cfg.proxy.enabled,
            hop_steps(hop),
        ),
{
    let mut r: Vec<ControlStep> = Vec::new();
    let countries = &cfg.exit.countries;
    if countries.len() > 0 {
        let mut patterns: Vec<String> = Vec::new();
        let mut i: usize = 0;
        while i < countries.len()
            invariant
                i <= countries.len(),
                texts(patterns@) == country_patterns(texts(countries@)).subrange(0, i as int),
            decreases countries.len() - i,
        {
            let lower = to_lowercase(countries[i].as_str());
            let ghost before = patterns@;
            patterns.push(brace(lower.as_str()));
            assert(texts(patterns@) =~= texts(before).push(braced(lowercase_of(countries@[i as int]@))));
            assert(texts(patterns@) =~= country_patterns(texts(countries@)).subrange(0, i + 1));
            i += 1;
        }
        assert(country_patterns(texts(countries@)).subrange(0, countries.len() as int)
            =~= country_patterns(texts(countries@)));
        let list = join(&patterns, ",");
        r.push(ControlStep::set("ExitNodes", list.as_str(), true));
        r.push(
            ControlStep::set(
                "StrictNodes",
                if cfg.exit.strict {
                    "1"
                } else {
                    "0"
                },
                true,
            ),
        );
    } else {
        r.push(ControlStep::set("ExitNodes", "", false));
        r.push(ControlStep::set("StrictNodes", "0", false));
        proof {
            reveal_strlit("");
            assert(""@ =~= Seq::<char>::empty());
        }
    }
    assert(steps(r@) =~= exit_steps(texts(cfg.exit.countries@), cfg.exit.strict));
    if cfg.proxy.enabled {
        match hop {
            Some(h) => {
                let mut p = apply_proxy(h);
                let ghost exit_part = r@;
                let ghost proxy_part = p@;
                r.append(&mut p);
                r.push(ControlStep::AdvanceProxy);
                r.push(ControlStep::SignalNewnym);
                r.push(ControlStep::Settle { millis: SETTLE_MS });
                assert(steps(r@) =~= steps(exit_part) + (steps(proxy_part) + seq![
                    StepView::AdvanceProxy,
                    StepView::SignalNewnym,
                    StepView::Settle { millis: SETTLE_MS },
                ]));
            },
            None => {
                assert(steps(r@) + Seq::<StepView>::empty() =~= steps(r@));
            },
        }
    } else {
        let ghost exit_part = r@;
        r.push(ControlStep::set("Socks5Proxy", "", false));
        r.push(ControlStep::set("HTTPSProxy", "", false));
        proof {
            reveal_strlit("");
            assert(""@ =~= Seq::<char>::empty());
            assert(steps(r@) =~= steps(exit_part) + seq![
                may_set("Socks5Proxy"@, Seq::empty()),
                may_set("HTTPSProxy"@, Seq::empty()),
            ]);
        }
    }
    r
}

} // verus!
