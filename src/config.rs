use vstd::prelude::*;
use vstd::string::StringExecFns;

use crate::text::same_text;
use crate::urls::{parse_url, parsed_url};

verus! {

/// The gateway section of a configuration document.
pub struct Provider {
    pub name: String,
    pub gateway: String,
}

/// One deployable function, with the defaults filled in.
pub struct Function {
    pub name: String,
    pub lang: String,
    pub handler: String,
    pub image: String,
    pub memory: String,
    pub environment: Vec<String>,
}

/// The whole configuration: the provider and the functions it serves.
pub struct OpenFaaSConfig {
    pub provider: Provider,
    pub functions: Vec<Function>,
}

/// A function as the document states it: fields that may be absent.
pub struct RawFunction {
    pub name: String,
    pub lang: Option<String>,
    pub handler: Option<String>,
    pub image: Option<String>,
    pub memory: Option<String>,
    pub environment: Option<Vec<String>>,
}

/// A configuration document as read, before defaults and checks.
pub struct RawConfig {
    pub provider_name: Option<String>,
    pub gateway: Option<String>,
    pub functions: Vec<RawFunction>,
}

/// Why a configuration cannot be used.
#[derive(Clone, Copy, Debug, PartialEq, Eq, Structural)]
pub enum ConfigError {
    /// A function lacks `lang`, `handler` or `image`.
    MissingField,
    /// Two functions share a name.
    DuplicateFunction,
    /// The gateway address is not a URL.
    BadGatewayUrl,
    /// The gateway URL names no explicit port.
    MissingPort,
}

pub open spec fn default_provider_name() -> Seq<char> {
    "openfaas"@
}

pub open spec fn default_gateway() -> Seq<char> {
    "http://127.0.0.1:8090"@
}

pub open spec fn default_memory() -> Seq<char> {
    "128M"@
}

/// What a raw field becomes: its value if given, else the default.
pub open spec fn or_default(v: Option<String>, d: Seq<char>) -> Seq<char> {
    match v {
        Some(s) => s@,
        None => d,
    }
}

pub open spec fn env_of(v: Option<Vec<String>>) -> Seq<String> {
    match v {
        Some(e) => e@,
        None => Seq::empty(),
    }
}

/// The raw function holds every field that has no default.
pub open spec fn complete(f: RawFunction) -> bool {
    f.lang is Some && f.handler is Some && f.image is Some
}

/// No two entries of `fs` share a name.
pub open spec fn names_unique(fs: Seq<RawFunction>) -> bool {
    forall|i: int, j: int|
        0 <= i < j < fs.len() ==> #[trigger] fs[i].name@ != #[trigger] fs[j].name@
}

/// `f` is `raw` with its defaults applied.
pub open spec fn filled(f: Function, raw: RawFunction) -> bool {
    &&& f.name@ == raw.name@
    &&& f.lang@ == raw.lang->Some_0@
    &&& f.handler@ == raw.handler->Some_0@
    &&& f.image@ == raw.image->Some_0@
    &&& f.memory@ == or_default(raw.memory, default_memory())
    &&& f.environment@ == env_of(raw.environment)
}

impl OpenFaaSConfig {
    /// Function names are unique.
    pub open spec fn wf(&self) -> bool {
        forall|i: int, j: int|
            0 <= i < j < self.functions@.len() ==> #[trigger] self.functions@[i].name@
                != #[trigger] self.functions@[j].name@
    }

    /// `name` is configured.
    pub open spec fn has_function(&self, name: Seq<char>) -> bool {
        exists|i: int| 0 <= i < self.functions@.len() && #[trigger] self.functions@[i].name@ == name
    }

    /// The image configured for `name`.
    pub open spec fn image_of(&self, name: Seq<char>) -> Seq<char> {
        let i = choose|i: int| 0 <= i < self.functions@.len() && #[trigger] self.functions@[i].name@ == name;
        self.functions@[i].image@
    }

    /// Finds the function configured under `name`.
    pub fn find(&self, name: &str) -> (r: Option<usize>)
        ensures
            r is None <==> !self.has_function(name@),
            r matches Some(i) ==> i < self.functions@.len() && self.functions@[i as int].name@ == name@,
    {
        let mut i: usize = 0;
        while i < self.functions.len()
            invariant
                i <= self.functions@.len(),
                forall|k: int| 0 <= k < i ==> #[trigger] self.functions@[k].name@ != name@,
            decreases self.functions.len() - i,
        {
            if same_text(self.functions[i].name.as_str(), name) {
                return Some(i);
            }
            i = i + 1;
        }
        None
    }
}

fn or_default_string(v: Option<String>, d: &str) -> (r: String)
    ensures
        r@ == or_default(v, d@),
{
    match v {
        Some(s) => s,
        None => String::from_str(d),
    }
}

fn fill_function(raw: RawFunction) -> (r: Function)
    requires
        complete(raw),
    ensures
        filled(r, raw),
{
    let RawFunction { name, lang, handler, image, memory, environment } = raw;
    let environment = match environment {
        Some(e) => e,
        None => Vec::new(),
    };
    let memory = or_default_string(memory, "128M");
    assert(memory@ == or_default(raw.memory, default_memory()));
    Function { name, lang: lang.unwrap(), handler: handler.unwrap(), image: image.unwrap(), memory, environment }
}

/// Applies the defaults of a configuration document and checks it.
///
/// The provider's name defaults to `openfaas`, its gateway to
/// `http://127.0.0.1:8090`; a function's memory defaults to `128M` and its
/// environment to none. Every function must give `lang`, `handler` and
/// `image`, and names must be unique.
pub fn load_config(raw: RawConfig) -> (r: Result<OpenFaaSConfig, ConfigError>)
    ensures
        r is Err ==> (r->Err_0 == ConfigError::MissingField || r->Err_0 == ConfigError::DuplicateFunction),
        (r == Err::<OpenFaaSConfig, ConfigError>(ConfigError::MissingField)) <==> exists|i: int|
            0 <= i < raw.functions@.len() && !complete(#[trigger] raw.functions@[i]),
        (r == Err::<OpenFaaSConfig, ConfigError>(ConfigError::DuplicateFunction)) <==> (
            (forall|i: int| 0 <= i < raw.functions@.len() ==> complete(#[trigger] raw.functions@[i]))
                && !names_unique(raw.functions@)),
        r matches Ok(c) ==> {
            &&& c.wf()
            &&& c.provider.name@ == or_default(raw.provider_name, default_provider_name())
            &&& c.provider.gateway@ == or_default(raw.gateway, default_gateway())
            &&& c.functions@.len() == raw.functions@.len()
            &&& forall|i: int| 0 <= i < c.functions@.len() ==> filled(#[trigger] c.functions@[i], raw.functions@[i])
        },
{
    let ghost raws = raw.functions@;
    let n = raw.functions.len();
    let mut i: usize = 0;
    while i < n
        invariant
            n == raws.len(),
            raws == raw.functions@,
            i <= n,
            forall|k: int| 0 <= k < i ==> complete(#[trigger] raws[k]),
        decreases n - i,
    {
        let f = &raw.functions[i];
        if f.lang.is_none() || f.handler.is_none() || f.image.is_none() {
            return Err(ConfigError::MissingField);
        }
        i = i + 1;
    }
    i = 0;
    while i < n
        invariant
            n == raws.len(),
            raws == raw.functions@,
            i <= n,
            forall|k: int| 0 <= k < n ==> complete(#[trigger] raws[k]),
            forall|a: int, b: int| 0 <= a < b < n && a < i ==> #[trigger] raws[a].name@ != #[trigger] raws[b].name@,
        decreases n - i,
    {
        let mut j: usize = i + 1;
        while j < n
            invariant
                n == raws.len(),
                raws == raw.functions@,
                i < n,
                i + 1 <= j <= n,
                forall|k: int| 0 <= k < n ==> complete(#[trigger] raws[k]),
                forall|a: int, b: int| 0 <= a < b < n && a < i ==> #[trigger] raws[a].name@ != #[trigger] raws[b].name@,
                forall|b: int| i < b < j ==> raws[i as int].name@ != #[trigger] raws[b].name@,
            decreases n - j,
        {
            if raw.functions[i].name == raw.functions[j].name {
                assert(raws[i as int].name@ == raws[j as int].name@);
                assert(!names_unique(raws));
                return Err(ConfigError::DuplicateFunction);
            }
            j = j + 1;
        }
        i = i + 1;
    }
    let RawConfig { provider_name, gateway, functions: mut raw_functions } = raw;
    let mut functions: Vec<Function> = Vec::new();
    let mut rest: Vec<RawFunction> = Vec::new();
    // reverse the raw functions, so that popping them yields them in order
    while raw_functions.len() > 0
        invariant
            raws.len() == n,
            rest@.len() + raw_functions@.len() == n,
            raw_functions@ == raws.subrange(0, raw_functions@.len() as int),
            forall|k: int| 0 <= k < rest@.len() ==> #[trigger] rest@[k] == raws[n - 1 - k],
        decreases raw_functions.len(),
    {
        let f = raw_functions.pop().unwrap();
        rest.push(f);
    }
    while rest.len() > 0
        invariant
            raws.len() == n,
            rest@.len() + functions@.len() == n,
            forall|k: int| 0 <= k < rest@.len() ==> #[trigger] rest@[k] == raws[n - 1 - k],
            forall|k: int| 0 <= k < n ==> complete(#[trigger] raws[k]),
            forall|k: int| 0 <= k < functions@.len() ==> filled(#[trigger] functions@[k], raws[k]),
        decreases rest.len(),
    {
        let f = rest.pop().unwrap();
        let filled_f = fill_function(f);
        functions.push(filled_f);
    }
    let config = OpenFaaSConfig {
        provider: Provider {
            name: or_default_string(provider_name, "openfaas"),
            gateway: or_default_string(gateway, "http://127.0.0.1:8090"),
        },
        functions,
    };
    assert(config.wf()) by {
        assert forall|a: int, b: int| 0 <= a < b < config.functions@.len() implies
            #[trigger] config.functions@[a].name@ != #[trigger] config.functions@[b].name@ by {
            assert(filled(config.functions@[a], raws[a]));
            assert(filled(config.functions@[b], raws[b]));
        }
    }
    Ok(config)
}

} // verus!

verus! {

/// The port that a gateway address gives once parsed: the explicit port it
/// names, or the reason it gives none.
pub open spec fn port_result(parsed: Option<(Option<u16>, Seq<char>)>) -> Result<u16, ConfigError> {
    match parsed {
        None => Err(ConfigError::BadGatewayUrl),
        Some((None, _)) => Err(ConfigError::MissingPort),
        Some((Some(p), _)) => Ok(p),
    }
}

/// The gateway's own listening port, from the explicit port of its URL.
pub fn get_config(config: &OpenFaaSConfig) -> (r: Result<u16, ConfigError>)
    ensures
        r == port_result(parsed_url(config.provider.gateway@)),
{
    match parse_url(config.provider.gateway.as_str()) {
        Err(_) => Err(ConfigError::BadGatewayUrl),
        Ok((None, _)) => Err(ConfigError::MissingPort),
        Ok((Some(p), _)) => Ok(p),
    }
}

} // verus!
