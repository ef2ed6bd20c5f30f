use vstd::prelude::*;
use vstd::string::StringExecFns;

use crate::config::OpenFaaSConfig;
use crate::registry::{
    Address, Endpoint, Registry, Slot, Status, endpoint_at, held, loopback, loopback_spec,
};
use crate::text::{collapse_double_slashes, collapse_slashes, decimal, decimal_string, same_text};
use crate::urls::{parse_url, parsed_url};

verus! {

/// The first port of the default range.
pub const DEFAULT_LOW_PORT: u16 = 8050;

/// The end (exclusive) of the default range.
pub const DEFAULT_HIGH_PORT: u16 = 8100;

/// Why a request for a service failed.
#[derive(Clone, Copy, Debug, PartialEq, Eq, Structural)]
pub enum GatewayError {
    /// The name is neither configured nor the built-in `echo`.
    UnknownService,
    /// No port of the range is free.
    PortExhausted,
    /// The backend could not be started, or never bound its port.
    LaunchFailure,
    /// The address built for the backend is not a URL.
    BadTarget,
    /// The backend could not be reached.
    Unreachable,
}

impl GatewayError {
    /// The HTTP status that reports this error: 502 for an unreachable
    /// backend, 500 for the rest.
    pub fn status_code(&self) -> (r: u16)
        ensures
            r == (if *self == GatewayError::Unreachable { 502u16 } else { 500u16 }),
    {
        match self {
            GatewayError::Unreachable => 502,
            _ => 500,
        }
    }
}

/// The lowest port of `[from, high)` that no service of `slots` holds.
pub open spec fn first_free(slots: Map<Seq<char>, Slot>, from: int, high: int) -> Option<u16>
    decreases high - from,
{
    if from < 0 || from >= high || high > 65536 {
        None
    } else if !held(slots, from) {
        Some(from as u16)
    } else {
        first_free(slots, from + 1, high)
    }
}

pub proof fn lemma_first_free(slots: Map<Seq<char>, Slot>, from: int, high: int)
    requires
        0 <= from,
        high <= 65536,
    ensures
        first_free(slots, from, high) matches Some(p) ==> from <= p < high && !held(slots, p as int),
        first_free(slots, from, high) is None ==> forall|p: int| from <= p < high ==> held(slots, p),
    decreases high - from,
{
    if from < high && held(slots, from) {
        lemma_first_free(slots, from + 1, high);
        assert forall|p: int| from <= p < high && first_free(slots, from, high) is None implies held(slots, p) by {
            if p != from {
            }
        }
    }
}

/// The cursor from which port searches start. It only moves up, one step
/// per search, and stops at the end of the range.
pub struct PortAllocator {
    pub low: u16,
    pub high: u16,
    pub cursor: u16,
}

impl PortAllocator {
    pub open spec fn wf(&self) -> bool {
        self.low <= self.cursor <= self.high
    }

    /// A cursor at the start of `[low, high)`.
    pub fn new(low: u16, high: u16) -> (r: Self)
        requires
            low <= high,
        ensures
            r.wf(),
            r.low == low && r.high == high && r.cursor == low,
    {
        PortAllocator { low, high, cursor: low }
    }

    /// Hands out the cursor as the start of a search and moves it up.
    pub fn next_hint(&mut self) -> (r: u16)
        requires
            old(self).wf(),
        ensures
            final(self).wf(),
            r == old(self).cursor,
            final(self).low == old(self).low,
            final(self).high == old(self).high,
            final(self).cursor == advanced(old(self).cursor, old(self).high),
    {
        let r = self.cursor;
        if self.cursor < self.high {
            self.cursor = self.cursor + 1;
        }
        r
    }
}

/// Where the cursor stands after one search.
pub open spec fn advanced(cursor: u16, high: u16) -> u16 {
    if cursor < high { (cursor + 1) as u16 } else { high }
}

/// The step of a request that claimed a service and awaits an answer.
#[derive(Clone, Copy, Debug, PartialEq, Eq, Structural)]
pub enum Phase {
    /// Waiting to learn whether `port` can be bound.
    Probing { port: u16 },
    /// Waiting for the backend to be started on `port`.
    Launching { port: u16 },
    /// Waiting to learn whether `port` is still free after the grace period.
    Verifying { port: u16 },
    /// Nothing more to do.
    Closed,
}

/// What the surrounding program learned when it did a step.
#[derive(Clone, Copy, Debug, PartialEq, Eq, Structural)]
pub enum Event {
    /// A bind on the probed port succeeded (`free`) or failed.
    Probed { free: bool },
    /// The backend was started, and its launch command succeeded (`ok`).
    Spawned { ok: bool },
    /// A bind on the backend's port, after the grace period, succeeded
    /// (`free`) or failed.
    Verified { free: bool },
}

/// What the surrounding program must do next for a request.
#[derive(Clone, Copy, Debug, PartialEq, Eq, Structural)]
pub enum Step {
    /// Try to bind `port`, release it, and report `Event::Probed`.
    Probe { port: u16 },
    /// Start the backend on `port`, wait the grace period, report `Event::Spawned`.
    Launch { port: u16 },
    /// Try to bind `port`, release it, and report `Event::Verified`.
    Verify { port: u16 },
    /// Another request is starting the service: ask again later.
    Wait,
    /// The service listens at `endpoint`.
    Ready { endpoint: Endpoint },
    /// The request fails with `error`.
    Fail { error: GatewayError },
    /// Terminate what was started, then fail with `error`.
    Abort { error: GatewayError },
}

/// One request's claim on a service while it is being started.
pub struct Session {
    pub name: String,
    pub phase: Phase,
}

/// The program and arguments that start a backend.
pub struct LaunchPlan {
    pub program: String,
    pub args: Vec<String>,
    /// Wait for the command itself to finish (a detached container launch)
    /// and count a failed exit as a failed start.
    pub await_exit: bool,
}

pub open spec fn strings(v: Seq<String>) -> Seq<Seq<char>> {
    v.map_values(|s: String| s@)
}

/// The gateway: the registry of services and the port cursor.
pub struct ReverseProxy {
    pub registry: Registry,
    pub ports: PortAllocator,
}

impl ReverseProxy {
    pub open spec fn wf(&self) -> bool {
        &&& self.registry.wf()
        &&& self.ports.wf()
        &&& forall|n: Seq<char>|
            #[trigger] self.registry@.contains_key(n) ==> self.ports.low <= self.registry@[n].port
                < self.ports.high && self.registry.known(n)
    }

    /// The registry, cursor, phase and step after a request opens on `n`.
    pub open spec fn open_spec(&self, n: Seq<char>) -> (Map<Seq<char>, Slot>, u16, Phase, Step) {
        let slots = self.registry@;
        let c = self.ports.cursor;
        if !self.registry.known(n) {
            (slots, c, Phase::Closed, Step::Fail { error: GatewayError::UnknownService })
        } else if slots.contains_key(n) {
            if slots[n].status == Status::Running {
                (slots, c, Phase::Closed, Step::Ready { endpoint: endpoint_at(slots[n].port) })
            } else {
                (slots, c, Phase::Closed, Step::Wait)
            }
        } else {
            let c2 = advanced(c, self.ports.high);
            match first_free(slots, c as int, self.ports.high as int) {
                None => (slots, c2, Phase::Closed, Step::Fail { error: GatewayError::PortExhausted }),
                Some(p) => (
                    slots.insert(n, Slot { port: p, status: Status::Starting }),
                    c2,
                    Phase::Probing { port: p },
                    Step::Probe { port: p },
                ),
            }
        }
    }

    /// The request on `n` in `phase` holds the claim and `ev` answers its step.
    pub open spec fn accepts(&self, n: Seq<char>, phase: Phase, ev: Event) -> bool {
        let slots = self.registry@;
        match phase {
            Phase::Probing { port } => ev is Probed && slots.contains_key(n) && slots[n] == Slot {
                port,
                status: Status::Starting,
            },
            Phase::Launching { port } => ev is Spawned && slots.contains_key(n) && slots[n] == Slot {
                port,
                status: Status::Starting,
            },
            Phase::Verifying { port } => ev is Verified && slots.contains_key(n) && slots[n] == Slot {
                port,
                status: Status::Starting,
            },
            Phase::Closed => false,
        }
    }

    /// The registry, phase and step after `ev` answers the request on `n`.
    pub open spec fn advance_spec(&self, n: Seq<char>, phase: Phase, ev: Event) -> (
        Map<Seq<char>, Slot>,
        Phase,
        Step,
    ) {
        let slots = self.registry@;
        match (phase, ev) {
            (Phase::Probing { port }, Event::Probed { free: true }) => (
                slots,
                Phase::Launching { port },
                Step::Launch { port },
            ),
            (Phase::Probing { port }, Event::Probed { free: false }) => match first_free(
                slots,
                port + 1,
                self.ports.high as int,
            ) {
                None => (
                    slots.remove(n),
                    Phase::Closed,
                    Step::Fail { error: GatewayError::PortExhausted },
                ),
                Some(q) => (
                    slots.insert(n, Slot { port: q, status: Status::Starting }),
                    Phase::Probing { port: q },
                    Step::Probe { port: q },
                ),
            },
            (Phase::Launching { port }, Event::Spawned { ok: true }) => (
                slots,
                Phase::Verifying { port },
                Step::Verify { port },
            ),
            (Phase::Verifying { port }, Event::Verified { free: false }) => (
                slots.insert(n, Slot { port, status: Status::Running }),
                Phase::Closed,
                Step::Ready { endpoint: endpoint_at(port) },
            ),
            _ => (slots.remove(n), Phase::Closed, Step::Abort { error: GatewayError::LaunchFailure }),
        }
    }

    /// A gateway over `config` whose services take ports of `[low, high)`.
    pub fn with_port_range(config: OpenFaaSConfig, low: u16, high: u16) -> (r: Self)
        requires
            config.wf(),
            low <= high,
        ensures
            r.wf(),
            r.registry.config == config,
            r.registry@ == Map::<Seq<char>, Slot>::empty(),
            r.ports.low == low && r.ports.high == high && r.ports.cursor == low,
    {
        ReverseProxy { registry: Registry::new(config), ports: PortAllocator::new(low, high) }
    }

    /// A gateway over `config` with the default port range.
    pub fn new(config: OpenFaaSConfig) -> (r: Self)
        requires
            config.wf(),
        ensures
            r.wf(),
            r.registry.config == config,
            r.registry@ == Map::<Seq<char>, Slot>::empty(),
            r.ports.low == DEFAULT_LOW_PORT && r.ports.high == DEFAULT_HIGH_PORT,
            r.ports.cursor == DEFAULT_LOW_PORT,
    {
        Self::with_port_range(config, DEFAULT_LOW_PORT, DEFAULT_HIGH_PORT)
    }

    /// The lowest port from `start_port` up to the end of the range that no
    /// service holds.
    pub fn find_available_port(&self, start_port: u16) -> (r: Option<u16>)
        requires
            self.wf(),
        ensures
            r == first_free(self.registry@, start_port as int, self.ports.high as int),
    {
        let high = self.ports.high;
        let mut p: u16 = start_port;
        if p >= high {
            return None;
        }
        while p < high
            invariant
                self.wf(),
                high == self.ports.high,
                start_port <= p <= high,
                first_free(self.registry@, p as int, high as int) == first_free(
                    self.registry@,
                    start_port as int,
                    high as int,
                ),
            decreases high - p,
        {
            if !self.registry.is_held(p) {
                return Some(p);
            }
            p = p + 1;
        }
        None
    }

    /// Whether `name` may be started: configured, or the built-in `echo`.
    pub fn is_known(&self, name: &str) -> (r: bool)
        ensures
            r == self.registry.known(name@),
    {
        self.registry.check_service_config(name) || same_text(name, "echo")
    }

    /// Opens a request on `name`: answers at once when the name is unknown,
    /// running or being started by another request; else claims the name,
    /// moves the port cursor and asks for a probe of the first candidate port.
    pub fn open(&mut self, name: &str) -> (r: (Session, Step))
        requires
            old(self).wf(),
        ensures
            final(self).wf(),
            final(self).registry.config == old(self).registry.config,
            final(self).ports.low == old(self).ports.low,
            final(self).ports.high == old(self).ports.high,
            r.0.name@ == name@,
            (final(self).registry@, final(self).ports.cursor, r.0.phase, r.1) == old(self).open_spec(name@),
    {
        let session_name = String::from_str(name);
        if !self.is_known(name) {
            return (
                Session { name: session_name, phase: Phase::Closed },
                Step::Fail { error: GatewayError::UnknownService },
            );
        }
        match self.registry.lookup(name) {
            Some(i) => {
                let slot = self.registry.entries[i].slot;
                match slot.status {
                    Status::Running => (
                        Session { name: session_name, phase: Phase::Closed },
                        Step::Ready { endpoint: Endpoint { address: loopback(), port: slot.port } },
                    ),
                    Status::Starting => (Session { name: session_name, phase: Phase::Closed }, Step::Wait),
                }
            },
            None => {
                let ghost pre = *self;
                let hint = self.ports.next_hint();
                match self.find_available_port(hint) {
                    None => (
                        Session { name: session_name, phase: Phase::Closed },
                        Step::Fail { error: GatewayError::PortExhausted },
                    ),
                    Some(p) => {
                        proof {
                            lemma_first_free(self.registry@, hint as int, self.ports.high as int);
                        }
                        self.registry.insert_service(name, Slot { port: p, status: Status::Starting });
                        assert(self.wf()) by {
                            assert forall|n: Seq<char>| #[trigger] self.registry@.contains_key(n) implies
                                self.ports.low <= self.registry@[n].port < self.ports.high by {
                                if n != name@ {
                                    assert(pre.registry@.contains_key(n));
                                }
                            }
                        }
                        (Session { name: session_name, phase: Phase::Probing { port: p } }, Step::Probe { port: p })
                    },
                }
            },
        }
    }

    /// Whether `ev` answers the step of `session`, which still holds its claim.
    pub fn accepts_event(&self, session: &Session, ev: Event) -> (r: bool)
        requires
            self.wf(),
        ensures
            r == self.accepts(session.name@, session.phase, ev),
    {
        let port = match session.phase {
            Phase::Probing { port } => {
                if !matches!(ev, Event::Probed { .. }) {
                    return false;
                }
                port
            },
            Phase::Launching { port } => {
                if !matches!(ev, Event::Spawned { .. }) {
                    return false;
                }
                port
            },
            Phase::Verifying { port } => {
                if !matches!(ev, Event::Verified { .. }) {
                    return false;
                }
                port
            },
            Phase::Closed => {
                return false;
            },
        };
        match self.registry.lookup(session.name.as_str()) {
            Some(i) => self.registry.entries[i].slot == Slot { port, status: Status::Starting },
            None => false,
        }
    }

    /// Moves the request of `session` on by the answer `ev` to its last step.
    /// A failed start gives up the claim, so that a later request starts over.
    pub fn advance(&mut self, session: &mut Session, ev: Event) -> (r: Step)
        requires
            old(self).wf(),
            old(self).accepts(old(session).name@, old(session).phase, ev),
        ensures
            final(self).wf(),
            final(self).registry.config == old(self).registry.config,
            final(self).ports == old(self).ports,
            final(session).name@ == old(session).name@,
            (final(self).registry@, final(session).phase, r) == old(self).advance_spec(
                old(session).name@,
                old(session).phase,
                ev,
            ),
    {
        let ghost pre = *self;
        let ghost n = session.name@;
        proof {
            pre.registry.lemma_ports_distinct();
        }
        match (session.phase, ev) {
            (Phase::Probing { port }, Event::Probed { free: true }) => {
                session.phase = Phase::Launching { port };
                Step::Launch { port }
            },
            (Phase::Probing { port }, Event::Probed { free: false }) => {
                let next = if port < self.ports.high {
                    self.find_available_port(port + 1)
                } else {
                    None
                };
                match next {
                    None => {
                        self.registry.remove_service(session.name.as_str());
                        session.phase = Phase::Closed;
                        assert(self.wf()) by {
                            assert forall|m: Seq<char>| #[trigger] self.registry@.contains_key(m) implies
                                self.ports.low <= self.registry@[m].port < self.ports.high by {
                                assert(pre.registry@.contains_key(m));
                            }
                        }
                        Step::Fail { error: GatewayError::PortExhausted }
                    },
                    Some(q) => {
                        proof {
                            lemma_first_free(pre.registry@, port + 1, self.ports.high as int);
                        }
                        self.registry.insert_service(session.name.as_str(), Slot { port: q, status: Status::Starting });
                        session.phase = Phase::Probing { port: q };
                        assert(self.wf()) by {
                            assert forall|m: Seq<char>| #[trigger] self.registry@.contains_key(m) implies
                                self.ports.low <= self.registry@[m].port < self.ports.high by {
                                if m != n {
                                    assert(pre.registry@.contains_key(m));
                                }
                            }
                        }
                        Step::Probe { port: q }
                    },
                }
            },
            (Phase::Launching { port }, Event::Spawned { ok: true }) => {
                session.phase = Phase::Verifying { port };
                Step::Verify { port }
            },
            (Phase::Verifying { port }, Event::Verified { free: false }) => {
                self.registry.insert_service(session.name.as_str(), Slot { port, status: Status::Running });
                session.phase = Phase::Closed;
                assert(self.wf()) by {
                    assert forall|m: Seq<char>| #[trigger] self.registry@.contains_key(m) implies
                        self.ports.low <= self.registry@[m].port < self.ports.high by {
                        assert(pre.registry@.contains_key(m));
                    }
                }
                Step::Ready { endpoint: Endpoint { address: loopback(), port } }
            },
            _ => {
                self.registry.remove_service(session.name.as_str());
                session.phase = Phase::Closed;
                assert(self.wf()) by {
                    assert forall|m: Seq<char>| #[trigger] self.registry@.contains_key(m) implies
                        self.ports.low <= self.registry@[m].port < self.ports.high by {
                        assert(pre.registry@.contains_key(m));
                    }
                }
                Step::Abort { error: GatewayError::LaunchFailure }
            },
        }
    }
}


/// The program that starts a backend: the built-in `echo` runs as a local
/// process, every configured function in a container.
pub open spec fn plan_program(n: Seq<char>) -> Seq<char> {
    if n == "echo"@ {
        "cargo"@
    } else {
        "docker"@
    }
}

/// The dotted decimal writing of an address.
pub open spec fn address_text(a: Address) -> Seq<char> {
    decimal(a.a as nat) + "."@ + decimal(a.b as nat) + "."@ + decimal(a.c as nat) + "."@ + decimal(
        a.d as nat,
    )
}

/// The address of `path` on the backend at `e`, with doubled slashes of
/// the path collapsed.
pub open spec fn target_text_spec(e: Endpoint, path: Seq<char>) -> Seq<char> {
    "http://"@ + address_text(e.address) + ":"@ + decimal(e.port as nat) + collapse_slashes(path)
}

/// Writes `a` in dotted decimal.
pub fn address_string(a: Address) -> (r: String)
    ensures
        r@ == address_text(a),
{
    let mut s = decimal_string(a.a as u16);
    s.append(".");
    let t = decimal_string(a.b as u16);
    s.append(t.as_str());
    s.append(".");
    let t = decimal_string(a.c as u16);
    s.append(t.as_str());
    s.append(".");
    let t = decimal_string(a.d as u16);
    s.append(t.as_str());
    s
}

/// The address of `rest_path` on the backend at `endpoint`, before it is
/// parsed as a URL.
pub fn target_text(endpoint: Endpoint, rest_path: &str) -> (r: String)
    ensures
        r@ == target_text_spec(endpoint, rest_path@),
{
    let mut s = String::from_str("http://");
    let t = address_string(endpoint.address);
    s.append(t.as_str());
    s.append(":");
    let t = decimal_string(endpoint.port);
    s.append(t.as_str());
    let t = collapse_double_slashes(rest_path);
    s.append(t.as_str());
    s
}

/// The URL to which a request for `rest_path` is forwarded: the target
/// address as the URL parser writes it back, or `BadTarget` where the
/// parser refuses it.
pub fn target_url(endpoint: Endpoint, rest_path: &str) -> (r: Result<String, GatewayError>)
    ensures
        match r {
            Ok(t) => parsed_url(target_text_spec(endpoint, rest_path@)) matches Some(v) && t@ == v.1,
            Err(e) => e == GatewayError::BadTarget && parsed_url(
                target_text_spec(endpoint, rest_path@),
            ) is None,
        },
{
    let text = target_text(endpoint, rest_path);
    match parse_url(text.as_str()) {
        Ok((_, url)) => Ok(url),
        Err(_) => Err(GatewayError::BadTarget),
    }
}

impl ReverseProxy {
    /// The arguments that start the backend of `n` on `port`.
    pub open spec fn plan_args(&self, n: Seq<char>, port: u16) -> Seq<Seq<char>> {
        if n == "echo"@ {
            seq!["run"@, "--bin"@, "echo"@, "--"@, "--port"@, decimal(port as nat)]
        } else {
            seq![
                "run"@,
                "-p"@,
                decimal(port as nat) + ":3000"@,
                "--pull=missing"@,
                "--rm"@,
                "-d"@,
                self.registry.config.image_of(n),
            ]
        }
    }

    /// How to start the backend of `name` on `port`: the built-in `echo` as
    /// a local process given `--port`, any other service as a detached,
    /// self-removing container of its image, pulled if missing, with `port`
    /// mapped to the container's port 3000.
    pub fn launch_plan(&self, name: &str, port: u16) -> (r: LaunchPlan)
        requires
            self.wf(),
            self.registry.known(name@),
        ensures
            r.program@ == plan_program(name@),
            r.await_exit == (name@ != "echo"@),
            strings(r.args@) == self.plan_args(name@, port),
    {
        let mut args: Vec<String> = Vec::new();
        args.push(String::from_str("run"));
        if same_text(name, "echo") {
            args.push(String::from_str("--bin"));
            args.push(String::from_str("echo"));
            args.push(String::from_str("--"));
            args.push(String::from_str("--port"));
            args.push(decimal_string(port));
            assert(strings(args@) =~= self.plan_args(name@, port));
            LaunchPlan { program: String::from_str("cargo"), args, await_exit: false }
        } else {
            let image = match self.registry.get_service_from_config(name) {
                Some(f) => f.image.clone(),
                None => String::new(),
            };
            let mut mapping = decimal_string(port);
            mapping.append(":3000");
            args.push(String::from_str("-p"));
            args.push(mapping);
            args.push(String::from_str("--pull=missing"));
            args.push(String::from_str("--rm"));
            args.push(String::from_str("-d"));
            args.push(image);
            assert(strings(args@) =~= self.plan_args(name@, port));
            LaunchPlan { program: String::from_str("docker"), args, await_exit: true }
        }
    }
}

} // verus!
