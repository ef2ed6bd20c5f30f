use faas_gateway::{
    collapse_double_slashes, decimal_string, get_config, load_config, same_text, target_text,
    target_url, ConfigError, Endpoint, Event, GatewayError, OpenFaaSConfig, Phase, Provider,
    RawConfig, RawFunction, ReverseProxy, Session, Status, Step, loopback, Function,
};

fn raw_function(name: &str, image: Option<&str>) -> RawFunction {
    RawFunction {
        name: name.to_string(),
        lang: Some("node".to_string()),
        handler: Some("./handler".to_string()),
        image: image.map(|s| s.to_string()),
        memory: None,
        environment: None,
    }
}

fn config_with(names: &[(&str, &str)]) -> OpenFaaSConfig {
    OpenFaaSConfig {
        provider: Provider { name: "openfaas".to_string(), gateway: "http://127.0.0.1:8090".to_string() },
        functions: names
            .iter()
            .map(|(n, img)| Function {
                name: n.to_string(),
                lang: "node".to_string(),
                handler: "./handler".to_string(),
                image: img.to_string(),
                memory: "128M".to_string(),
                environment: vec![],
            })
            .collect(),
    }
}

fn endpoint(port: u16) -> Endpoint {
    Endpoint { address: loopback(), port }
}

/// Runs a request through to its answer, with the given probe and spawn results.
fn start(g: &mut ReverseProxy, name: &str, probes: &[bool], spawned: bool, still_free: bool) -> Step {
    let (mut s, mut step) = g.open(name);
    let mut probes = probes.iter();
    loop {
        let ev = match step {
            Step::Probe { .. } => Event::Probed { free: *probes.next().unwrap() },
            Step::Launch { .. } => Event::Spawned { ok: spawned },
            Step::Verify { .. } => Event::Verified { free: still_free },
            other => return other,
        };
        assert!(g.accepts_event(&s, ev));
        step = g.advance(&mut s, ev);
    }
}

#[test]
fn load_config_applies_defaults() {
    let raw = RawConfig { provider_name: None, gateway: None, functions: vec![raw_function("hello", Some("img/hello"))] };
    let c = load_config(raw).unwrap();
    assert_eq!(c.provider.name, "openfaas");
    assert_eq!(c.provider.gateway, "http://127.0.0.1:8090");
    assert_eq!(c.functions.len(), 1);
    assert_eq!(c.functions[0].name, "hello");
    assert_eq!(c.functions[0].image, "img/hello");
    assert_eq!(c.functions[0].memory, "128M");
    assert!(c.functions[0].environment.is_empty());
}

#[test]
fn load_config_keeps_given_values() {
    let mut f = raw_function("hello", Some("img/hello"));
    f.memory = Some("256M".to_string());
    f.environment = Some(vec!["A=1".to_string()]);
    let raw = RawConfig {
        provider_name: Some("mine".to_string()),
        gateway: Some("http://0.0.0.0:9000".to_string()),
        functions: vec![f, raw_function("other", Some("img/other"))],
    };
    let c = load_config(raw).unwrap();
    assert_eq!(c.provider.name, "mine");
    assert_eq!(c.provider.gateway, "http://0.0.0.0:9000");
    assert_eq!(c.functions[0].memory, "256M");
    assert_eq!(c.functions[0].environment, vec!["A=1".to_string()]);
    assert_eq!(c.functions[1].name, "other");
}

#[test]
fn load_config_rejects_missing_image() {
    let raw = RawConfig { provider_name: None, gateway: None, functions: vec![raw_function("hello", None)] };
    assert_eq!(load_config(raw).err(), Some(ConfigError::MissingField));
}

#[test]
fn load_config_rejects_duplicate_names() {
    let raw = RawConfig {
        provider_name: None,
        gateway: None,
        functions: vec![raw_function("a", Some("x")), raw_function("a", Some("y"))],
    };
    assert_eq!(load_config(raw).err(), Some(ConfigError::DuplicateFunction));
}

#[test]
fn gateway_port_from_url() {
    let mut c = config_with(&[]);
    assert_eq!(get_config(&c), Ok(8090));
    c.provider.gateway = "http://127.0.0.1".to_string();
    assert_eq!(get_config(&c), Err(ConfigError::MissingPort));
    c.provider.gateway = "http://127.0.0.1:80".to_string();
    assert_eq!(get_config(&c), Err(ConfigError::MissingPort));
    c.provider.gateway = "not a url".to_string();
    assert_eq!(get_config(&c), Err(ConfigError::BadGatewayUrl));
}

#[test]
fn decimal_writing() {
    assert_eq!(decimal_string(0), "0");
    assert_eq!(decimal_string(7), "7");
    assert_eq!(decimal_string(8050), "8050");
    assert_eq!(decimal_string(65535), "65535");
}

#[test]
fn slashes_collapse() {
    assert_eq!(collapse_double_slashes(""), "");
    assert_eq!(collapse_double_slashes("/echo"), "/echo");
    assert_eq!(collapse_double_slashes("//echo//x"), "/echo/x");
    assert_eq!(collapse_double_slashes("///"), "//");
    assert!(same_text("abc", "abc"));
    assert!(!same_text("abc", "abd"));
    assert!(!same_text("ab", "abc"));
}

#[test]
fn target_address() {
    assert_eq!(target_text(endpoint(8050), "/echo"), "http://127.0.0.1:8050/echo");
    assert_eq!(target_text(endpoint(8051), "//echo//x"), "http://127.0.0.1:8051/echo/x");
    assert_eq!(target_url(endpoint(8050), "/echo"), Ok("http://127.0.0.1:8050/echo".to_string()));
    assert_eq!(target_url(endpoint(8050), ""), Ok("http://127.0.0.1:8050/".to_string()));
    assert_eq!(target_url(endpoint(8050), "bad host"), Err(GatewayError::BadTarget));
}

#[test]
fn unknown_service_fails_without_claim() {
    let mut g = ReverseProxy::new(config_with(&[("hello", "img/hello")]));
    let (s, step) = g.open("unknown-service");
    assert_eq!(step, Step::Fail { error: GatewayError::UnknownService });
    assert_eq!(s.phase, Phase::Closed);
    assert!(g.registry.entries.is_empty());
    assert_eq!(g.ports.cursor, 8050);
    assert_eq!(GatewayError::UnknownService.status_code(), 500);
    assert_eq!(GatewayError::Unreachable.status_code(), 502);
}

#[test]
fn allocated_ports_lie_in_range_and_are_distinct() {
    let mut g = ReverseProxy::new(config_with(&[("a", "img/a"), ("b", "img/b")]));
    assert_eq!(start(&mut g, "a", &[true], true, false), Step::Ready { endpoint: endpoint(8050) });
    // the cursor moved to 8051, which is taken outside the gateway
    assert_eq!(start(&mut g, "b", &[false, true], true, false), Step::Ready { endpoint: endpoint(8052) });
    assert_eq!(g.find_available_port(8050), Some(8051));
    assert_eq!(g.find_available_port(8052), Some(8053));
}

#[test]
fn second_request_waits_while_first_starts() {
    let mut g = ReverseProxy::new(config_with(&[]));
    let (mut first, step) = g.open("echo");
    assert_eq!(step, Step::Probe { port: 8050 });
    let (_, second) = g.open("echo");
    assert_eq!(second, Step::Wait);
    assert_eq!(g.advance(&mut first, Event::Probed { free: true }), Step::Launch { port: 8050 });
    assert_eq!(g.open("echo").1, Step::Wait);
    assert_eq!(g.advance(&mut first, Event::Spawned { ok: true }), Step::Verify { port: 8050 });
    assert_eq!(g.advance(&mut first, Event::Verified { free: false }), Step::Ready { endpoint: endpoint(8050) });
    assert_eq!(g.open("echo").1, Step::Ready { endpoint: endpoint(8050) });
    assert_eq!(g.registry.get_service_endpoint("echo"), Some(endpoint(8050)));
}

#[test]
fn running_service_is_reused() {
    let mut g = ReverseProxy::new(config_with(&[("hello", "img/hello")]));
    assert_eq!(start(&mut g, "hello", &[true], true, false), Step::Ready { endpoint: endpoint(8050) });
    let cursor = g.ports.cursor;
    let (s, step) = g.open("hello");
    assert_eq!(step, Step::Ready { endpoint: endpoint(8050) });
    assert_eq!(s.phase, Phase::Closed);
    assert_eq!(g.ports.cursor, cursor);
    assert_eq!(g.registry.entries.len(), 1);
}

#[test]
fn unbound_port_aborts_launch() {
    let mut g = ReverseProxy::new(config_with(&[("hello", "img/hello")]));
    assert_eq!(start(&mut g, "hello", &[true], true, true), Step::Abort { error: GatewayError::LaunchFailure });
    assert!(g.registry.entries.is_empty());
    assert_eq!(g.registry.get_service_endpoint("hello"), None);
    // a later request starts over, from the next cursor position
    assert_eq!(g.open("hello").1, Step::Probe { port: 8051 });
}

#[test]
fn failed_spawn_drops_claim() {
    let mut g = ReverseProxy::new(config_with(&[]));
    assert_eq!(start(&mut g, "echo", &[true], false, false), Step::Abort { error: GatewayError::LaunchFailure });
    assert!(g.registry.entries.is_empty());
}

#[test]
fn exhausted_range_fails_with_capacity_error() {
    let mut g = ReverseProxy::with_port_range(config_with(&[("a", "img/a")]), 9000, 9002);
    assert_eq!(start(&mut g, "a", &[false, false], true, false), Step::Fail { error: GatewayError::PortExhausted });
    assert!(g.registry.entries.is_empty());
    assert_eq!(start(&mut g, "echo", &[true], true, false), Step::Ready { endpoint: endpoint(9001) });
    // the cursor is now at the end of the range
    assert_eq!(g.open("a").1, Step::Fail { error: GatewayError::PortExhausted });
    assert_eq!(g.registry.entries.len(), 1);
    assert_eq!(g.registry.entries[0].slot.status, Status::Running);
    assert_eq!(GatewayError::PortExhausted.status_code(), 500);
}

#[test]
fn events_out_of_turn_are_refused() {
    let mut g = ReverseProxy::new(config_with(&[]));
    let (s, _) = g.open("echo");
    assert!(g.accepts_event(&s, Event::Probed { free: true }));
    assert!(!g.accepts_event(&s, Event::Spawned { ok: true }));
    let closed = Session { name: "echo".to_string(), phase: Phase::Closed };
    assert!(!g.accepts_event(&closed, Event::Probed { free: true }));
}

#[test]
fn launch_plans() {
    let g = ReverseProxy::new(config_with(&[("hello", "img/hello:latest")]));
    let p = g.launch_plan("echo", 8050);
    assert_eq!(p.program, "cargo");
    assert!(!p.await_exit);
    assert_eq!(p.args, vec!["run", "--bin", "echo", "--", "--port", "8050"]);
    let p = g.launch_plan("hello", 8061);
    assert_eq!(p.program, "docker");
    assert!(p.await_exit);
    assert_eq!(p.args, vec!["run", "-p", "8061:3000", "--pull=missing", "--rm", "-d", "img/hello:latest"]);
}
