//! Service configuration.
//!
//! Settings come from built-in defaults, overridden by environment variables
//! named `QUOTE_SIDECAR_` + section + `__` + key (one underscore after the
//! prefix, two between the section and the key).

use vstd::prelude::*;
use vstd::string::*;

use config::Config as LayeredConfig;

use crate::text::{decimal, push_decimal};
use crate::layers::{
    DefaultValue, EnvironmentModel, LayerBuilder, LayerValue, ascii_lower, beside_defaults, build_layers, builder_defaults,
    builder_sources, cleared, describe, environment_with_prefix, first_segment, flag_word, harmless, held,
    is_section, is_set, key_of, layered_settings, lookup_flag, lookup_text, lookup_unsigned, lower_word,
    new_builder, parsed_u64, prefix_pattern, resolvable, resolved_value, selects, simple_key, text_lower, to_lower,
    unsigned_word, variable_pairs, variables_map, with_default, with_prefix_separator, with_separator,
    with_source, with_variables,
};
use crate::text::starts_with;

verus! {

/// Where the HTTP server listens.
#[derive(Debug, Clone)]
pub struct ServerConfig {
    pub host: String,
    pub port: u16,
}

/// Configuration of the instance file: the Fluent Bit fragment that holds the
/// CVM identity.
///
/// When it is enabled, the service queries the dstack guest agent once at
/// startup and persists the CVM identity as a Fluent Bit configuration
/// fragment, before the listener is bound. When it is required, a failure to
/// write it stops the service; otherwise the service serves anyway.
#[derive(Debug, Clone)]
pub struct FluentBitFragmentConfig {
    /// Whether the fragment is written at startup.
    pub enabled: bool,
    /// Destination path of the fragment.
    pub path: String,
    /// Whether startup stops when the fragment cannot be written.
    pub required: bool,
    /// Number of extra attempts after the initial one.
    pub retries: u32,
    /// Delay between two attempts, in milliseconds.
    pub retry_delay_ms: u64,
}

/// The whole service configuration.
#[derive(Debug)]
pub struct Config {
    pub server: ServerConfig,
    pub instance_file: FluentBitFragmentConfig,
}

/// `host:port`, the address the server binds to.
pub open spec fn bind_address(server: ServerConfig) -> Seq<char> {
    server.host@ + ":"@ + decimal(server.port as nat)
}

/// The bind address is the host, a colon, and the port in digits that read
/// back as the port.
pub proof fn bind_address_reads_back(server: ServerConfig)
    ensures
        bind_address(server).take(server.host@.len() as int) == server.host@,
        bind_address(server)[server.host@.len() as int] == ':',
        parsed_u64(bind_address(server).skip(server.host@.len() as int + 1)) == Some(server.port as u64),
{
    reveal_strlit(":");
    let a = bind_address(server);
    let digits = decimal(server.port as nat);
    crate::text::decimal_spells_the_number(server.port as nat);
    assert(a.take(server.host@.len() as int) =~= server.host@);
    assert(a.skip(server.host@.len() as int + 1) =~= digits);
    assert(digits[0] != '+');
}

/// The settings of the service.
#[derive(Clone, Copy, Debug, PartialEq, Eq)]
pub enum Setting {
    ServerHost,
    ServerPort,
    InstanceFileEnabled,
    InstanceFilePath,
    InstanceFileRequired,
    InstanceFileRetries,
    InstanceFileRetryDelayMs,
}

impl Setting {
    /// The key of the setting in the layered configuration.
    pub open spec fn spec_key(self) -> Seq<char> {
        match self {
            Setting::ServerHost => "server.host"@,
            Setting::ServerPort => "server.port"@,
            Setting::InstanceFileEnabled => "instance_file.enabled"@,
            Setting::InstanceFilePath => "instance_file.path"@,
            Setting::InstanceFileRequired => "instance_file.required"@,
            Setting::InstanceFileRetries => "instance_file.retries"@,
            Setting::InstanceFileRetryDelayMs => "instance_file.retry_delay_ms"@,
        }
    }

    /// The key of the setting in the layered configuration.
    pub fn key(&self) -> (key: &'static str)
        ensures
            key@ == self.spec_key(),
    {
        match self {
            Setting::ServerHost => "server.host",
            Setting::ServerPort => "server.port",
            Setting::InstanceFileEnabled => "instance_file.enabled",
            Setting::InstanceFilePath => "instance_file.path",
            Setting::InstanceFileRequired => "instance_file.required",
            Setting::InstanceFileRetries => "instance_file.retries",
            Setting::InstanceFileRetryDelayMs => "instance_file.retry_delay_ms",
        }
    }

    /// The value the setting takes when no variable overrides it.
    pub open spec fn spec_default(self) -> LayerValue {
        match self {
            Setting::ServerHost => LayerValue::Text("0.0.0.0"@),
            Setting::ServerPort => LayerValue::Integer(9999),
            Setting::InstanceFileEnabled => LayerValue::Flag(false),
            Setting::InstanceFilePath => LayerValue::Text("/shared/instance.conf"@),
            Setting::InstanceFileRequired => LayerValue::Flag(true),
            Setting::InstanceFileRetries => LayerValue::Integer(5),
            Setting::InstanceFileRetryDelayMs => LayerValue::Integer(2000),
        }
    }

    /// The value the setting takes when no variable overrides it.
    pub fn default_value(&self) -> (value: DefaultValue)
        ensures
            value.model() == self.spec_default(),
    {
        match self {
            Setting::ServerHost => DefaultValue::Text("0.0.0.0"),
            Setting::ServerPort => DefaultValue::Integer(9999),
            Setting::InstanceFileEnabled => DefaultValue::Flag(false),
            Setting::InstanceFilePath => DefaultValue::Text("/shared/instance.conf"),
            Setting::InstanceFileRequired => DefaultValue::Flag(true),
            Setting::InstanceFileRetries => DefaultValue::Integer(5),
            Setting::InstanceFileRetryDelayMs => DefaultValue::Integer(2000),
        }
    }
}

/// Why the configuration could not be loaded.
#[derive(Debug)]
pub enum LoadError {
    /// The layered configuration could not be built, or a setting could not be
    /// read as its type.
    Layers { message: String },
    /// A setting read as an unsigned integer does not fit its type.
    OutOfRange { setting: Setting, value: u64 },
}

/// The settings as the layered configuration returned them.
pub struct RawSettings {
    pub host: Result<String, LoadError>,
    pub port: Result<u64, LoadError>,
    pub enabled: Result<bool, LoadError>,
    pub path: Result<String, LoadError>,
    pub required: Result<bool, LoadError>,
    pub retries: Result<u64, LoadError>,
    pub retry_delay_ms: Result<u64, LoadError>,
}

/// The configuration that `raw` makes: the first setting (in the order of the
/// fields) that failed to be read, or that does not fit its type, is reported.
pub open spec fn assembled(raw: RawSettings) -> Result<Config, LoadError> {
    match (raw.host, raw.port, raw.enabled, raw.path, raw.required, raw.retries, raw.retry_delay_ms) {
        (Err(e), _, _, _, _, _, _) => Err(e),
        (Ok(_), Err(e), _, _, _, _, _) => Err(e),
        (Ok(_), Ok(port), _, _, _, _, _) if port > u16::MAX => Err(
            LoadError::OutOfRange { setting: Setting::ServerPort, value: port },
        ),
        (Ok(_), Ok(_), Err(e), _, _, _, _) => Err(e),
        (Ok(_), Ok(_), Ok(_), Err(e), _, _, _) => Err(e),
        (Ok(_), Ok(_), Ok(_), Ok(_), Err(e), _, _) => Err(e),
        (Ok(_), Ok(_), Ok(_), Ok(_), Ok(_), Err(e), _) => Err(e),
        (Ok(_), Ok(_), Ok(_), Ok(_), Ok(_), Ok(retries), _) if retries > u32::MAX => Err(
            LoadError::OutOfRange { setting: Setting::InstanceFileRetries, value: retries },
        ),
        (Ok(_), Ok(_), Ok(_), Ok(_), Ok(_), Ok(_), Err(e)) => Err(e),
        (Ok(host), Ok(port), Ok(enabled), Ok(path), Ok(required), Ok(retries), Ok(retry_delay_ms)) => Ok(
            Config {
                server: ServerConfig { host, port: port as u16 },
                instance_file: FluentBitFragmentConfig {
                    enabled,
                    path,
                    required,
                    retries: retries as u32,
                    retry_delay_ms,
                },
            },
        ),
    }
}

// ----- What the environment loads as -----

/// The defaults of all settings, by key.
pub open spec fn default_layers() -> Map<Seq<char>, LayerValue> {
    Map::empty().insert(Setting::ServerHost.spec_key(), Setting::ServerHost.spec_default()).insert(
        Setting::ServerPort.spec_key(),
        Setting::ServerPort.spec_default(),
    ).insert(Setting::InstanceFileEnabled.spec_key(), Setting::InstanceFileEnabled.spec_default()).insert(
        Setting::InstanceFilePath.spec_key(),
        Setting::InstanceFilePath.spec_default(),
    ).insert(Setting::InstanceFileRequired.spec_key(), Setting::InstanceFileRequired.spec_default()).insert(
        Setting::InstanceFileRetries.spec_key(),
        Setting::InstanceFileRetries.spec_default(),
    ).insert(Setting::InstanceFileRetryDelayMs.spec_key(), Setting::InstanceFileRetryDelayMs.spec_default())
}

/// The environment source that reads `vars`: variables named `QUOTE_SIDECAR_`
/// + section + `__` + key, in any case.
pub open spec fn sidecar_source(vars: Seq<(Seq<char>, Seq<char>)>) -> EnvironmentModel {
    EnvironmentModel {
        prefix: Some("QUOTE_SIDECAR"@),
        prefix_separator: Some("_"@),
        separator: Some("__"@),
        variables: Some(variables_map(vars)),
        plain: true,
    }
}

/// The value that `vars` give `setting`: nothing where a variable sets its
/// section itself; else the text of its variable; else its default.
pub open spec fn setting_value(vars: Seq<(Seq<char>, Seq<char>)>, setting: Setting) -> Option<LayerValue> {
    resolved_value(default_layers(), sidecar_source(vars), setting.spec_key())
}

/// The text that a value is read as.
pub open spec fn as_text(value: Option<LayerValue>) -> Option<Seq<char>> {
    match value {
        Some(LayerValue::Text(text)) => Some(text),
        _ => None,
    }
}

/// The flag that a value is read as: a flag, or text spelling one in any case.
pub open spec fn as_flag(value: Option<LayerValue>) -> Option<bool> {
    match value {
        Some(LayerValue::Flag(flag)) => Some(flag),
        Some(LayerValue::Text(text)) => flag_word(text_lower(text)),
        _ => None,
    }
}

/// The unsigned integer that a value is read as.
pub open spec fn as_unsigned(value: Option<LayerValue>) -> Option<u64> {
    match value {
        Some(LayerValue::Integer(number)) => if 0 <= number <= u64::MAX {
            Some(number as u64)
        } else {
            None
        },
        Some(LayerValue::Text(text)) => unsigned_word(text),
        _ => None,
    }
}

/// The environments whose loading is stated: each variable named with the
/// prefix sets a setting, a section of the settings (then the only variable
/// in it), a key beside the settings in a section, or leaves their sections
/// alone; and no setting is set by two variables. (Which of two such
/// variables wins depends on the order in which the layered configuration
/// walks a hash map; what a key below a setting does depends on whether its
/// path syntax accepts the key.)
pub open spec fn well_formed_environment(vars: Seq<(Seq<char>, Seq<char>)>) -> bool {
    resolvable(default_layers(), sidecar_source(vars))
}

/// Whether every setting that `vars` give reads as its type and fits it.
pub open spec fn loadable(vars: Seq<(Seq<char>, Seq<char>)>) -> bool {
    &&& as_text(setting_value(vars, Setting::ServerHost)) is Some
    &&& as_unsigned(setting_value(vars, Setting::ServerPort)) matches Some(port) && port <= u16::MAX
    &&& as_flag(setting_value(vars, Setting::InstanceFileEnabled)) is Some
    &&& as_text(setting_value(vars, Setting::InstanceFilePath)) is Some
    &&& as_flag(setting_value(vars, Setting::InstanceFileRequired)) is Some
    &&& as_unsigned(setting_value(vars, Setting::InstanceFileRetries)) matches Some(retries) && retries
        <= u32::MAX
    &&& as_unsigned(setting_value(vars, Setting::InstanceFileRetryDelayMs)) is Some
}

/// Whether `config` holds what `vars` give each setting.
pub open spec fn loads_as(vars: Seq<(Seq<char>, Seq<char>)>, config: Config) -> bool {
    &&& as_text(setting_value(vars, Setting::ServerHost)) == Some(config.server.host@)
    &&& as_unsigned(setting_value(vars, Setting::ServerPort)) == Some(config.server.port as u64)
    &&& as_flag(setting_value(vars, Setting::InstanceFileEnabled)) == Some(config.instance_file.enabled)
    &&& as_text(setting_value(vars, Setting::InstanceFilePath)) == Some(config.instance_file.path@)
    &&& as_flag(setting_value(vars, Setting::InstanceFileRequired)) == Some(config.instance_file.required)
    &&& as_unsigned(setting_value(vars, Setting::InstanceFileRetries)) == Some(config.instance_file.retries as u64)
    &&& as_unsigned(setting_value(vars, Setting::InstanceFileRetryDelayMs)) == Some(
        config.instance_file.retry_delay_ms,
    )
}


/// What `raw` holds when each setting was read from the value `vars` give it.
pub open spec fn read_from(vars: Seq<(Seq<char>, Seq<char>)>, raw: RawSettings) -> bool {
    &&& match as_text(setting_value(vars, Setting::ServerHost)) {
        Some(t) => raw.host is Ok && raw.host->Ok_0@ == t,
        None => raw.host is Err,
    }
    &&& match as_unsigned(setting_value(vars, Setting::ServerPort)) {
        Some(n) => raw.port is Ok && raw.port->Ok_0 == n,
        None => raw.port is Err,
    }
    &&& match as_flag(setting_value(vars, Setting::InstanceFileEnabled)) {
        Some(b) => raw.enabled is Ok && raw.enabled->Ok_0 == b,
        None => raw.enabled is Err,
    }
    &&& match as_text(setting_value(vars, Setting::InstanceFilePath)) {
        Some(t) => raw.path is Ok && raw.path->Ok_0@ == t,
        None => raw.path is Err,
    }
    &&& match as_flag(setting_value(vars, Setting::InstanceFileRequired)) {
        Some(b) => raw.required is Ok && raw.required->Ok_0 == b,
        None => raw.required is Err,
    }
    &&& match as_unsigned(setting_value(vars, Setting::InstanceFileRetries)) {
        Some(n) => raw.retries is Ok && raw.retries->Ok_0 == n,
        None => raw.retries is Err,
    }
    &&& match as_unsigned(setting_value(vars, Setting::InstanceFileRetryDelayMs)) {
        Some(n) => raw.retry_delay_ms is Ok && raw.retry_delay_ms->Ok_0 == n,
        None => raw.retry_delay_ms is Err,
    }
}

/// Settings read from what `vars` give make a configuration exactly when all
/// of them read and fit, and then it holds those values.
proof fn lemma_assembled(vars: Seq<(Seq<char>, Seq<char>)>, raw: RawSettings)
    requires
        read_from(vars, raw),
    ensures
        assembled(raw) is Ok <==> loadable(vars),
        assembled(raw) is Ok ==> loads_as(vars, assembled(raw)->Ok_0),
{
}

/// Each setting of a well-formed environment holds nothing, text, or its
/// default.
proof fn lemma_setting_shapes(vars: Seq<(Seq<char>, Seq<char>)>, setting: Setting)
    requires
        well_formed_environment(vars),
    ensures
        setting_value(vars, setting) is None || setting_value(vars, setting)->Some_0 is Text
            || setting_value(vars, setting) == Some(setting.spec_default()),
{
    lemma_setting_keys();
}

/// Each key is two lower-case segments, and the keys differ.
proof fn lemma_setting_keys()
    ensures
        forall|k: Seq<char>| #[trigger] default_layers().contains_key(k) ==> simple_key(k),
        forall|s: Setting| #[trigger] default_layers().contains_key(s.spec_key()),
        forall|s: Setting| #[trigger] default_layers()[s.spec_key()] == s.spec_default(),
        forall|s: Setting| #[trigger] simple_key(s.spec_key()),
{
    reveal_strlit("server.host");
    reveal_strlit("server.port");
    reveal_strlit("instance_file.enabled");
    reveal_strlit("instance_file.path");
    reveal_strlit("instance_file.required");
    reveal_strlit("instance_file.retries");
    reveal_strlit("instance_file.retry_delay_ms");
    assert(Setting::ServerHost.spec_key().len() == 11);
    assert(Setting::ServerPort.spec_key().len() == 11);
    assert(Setting::InstanceFileEnabled.spec_key().len() == 21);
    assert(Setting::InstanceFilePath.spec_key().len() == 18);
    assert(Setting::InstanceFileRequired.spec_key().len() == 22);
    assert(Setting::InstanceFileRetries.spec_key().len() == 21);
    assert(Setting::InstanceFileRetryDelayMs.spec_key().len() == 28);
    assert(Setting::ServerHost.spec_key()[7] != Setting::ServerPort.spec_key()[7]);
    assert(Setting::InstanceFileEnabled.spec_key()[14] != Setting::InstanceFileRetries.spec_key()[14]);
    assert forall|s: Setting| #[trigger] simple_key(s.spec_key()) by {
        let k = s.spec_key();
        let i: int = match s {
            Setting::ServerHost => 6,
            Setting::ServerPort => 6,
            _ => 13,
        };
        assert(k[i] == '.');
        assert(lower_word(k.take(i)));
        assert(lower_word(k.skip(i + 1)));
    }
    assert forall|s: Setting| #[trigger] default_layers()[s.spec_key()] == s.spec_default() by {
        match s {
            Setting::ServerHost => {},
            Setting::ServerPort => {},
            Setting::InstanceFileEnabled => {},
            Setting::InstanceFilePath => {},
            Setting::InstanceFileRequired => {},
            Setting::InstanceFileRetries => {},
            Setting::InstanceFileRetryDelayMs => {},
        }
    }
    assert forall|k: Seq<char>| #[trigger] default_layers().contains_key(k) implies simple_key(k) by {
        if k == Setting::ServerHost.spec_key() {
            assert(simple_key(Setting::ServerHost.spec_key()));
        } else if k == Setting::ServerPort.spec_key() {
            assert(simple_key(Setting::ServerPort.spec_key()));
        } else if k == Setting::InstanceFileEnabled.spec_key() {
            assert(simple_key(Setting::InstanceFileEnabled.spec_key()));
        } else if k == Setting::InstanceFilePath.spec_key() {
            assert(simple_key(Setting::InstanceFilePath.spec_key()));
        } else if k == Setting::InstanceFileRequired.spec_key() {
            assert(simple_key(Setting::InstanceFileRequired.spec_key()));
        } else if k == Setting::InstanceFileRetries.spec_key() {
            assert(simple_key(Setting::InstanceFileRetries.spec_key()));
        } else {
            assert(simple_key(Setting::InstanceFileRetryDelayMs.spec_key()));
        }
    }
}

/// Reads a text setting.
fn read_text(layers: &LayeredConfig, setting: Setting) -> (read: Result<String, LoadError>)
    requires
        simple_key(setting.spec_key()),
    ensures
        read matches Err(e) ==> e is Layers,
        (held(layered_settings(*layers), setting.spec_key()) is None || held(layered_settings(*layers), setting.spec_key())->Some_0 is Text) ==> match as_text(
            held(layered_settings(*layers), setting.spec_key()),
        ) {
            Some(text) => read is Ok && read->Ok_0@ == text,
            None => read is Err,
        },
{
    match lookup_text(layers, setting.key()) {
        Ok(text) => Ok(text),
        Err(e) => Err(LoadError::Layers { message: describe(&e) }),
    }
}

/// Reads a yes/no setting.
fn read_flag(layers: &LayeredConfig, setting: Setting) -> (read: Result<bool, LoadError>)
    requires
        simple_key(setting.spec_key()),
    ensures
        read matches Err(e) ==> e is Layers,
        (held(layered_settings(*layers), setting.spec_key()) is None || held(layered_settings(*layers), setting.spec_key())->Some_0 is Flag || held(layered_settings(*layers), setting.spec_key())->Some_0 is Text)
            ==> match as_flag(held(layered_settings(*layers), setting.spec_key())) {
            Some(flag) => read is Ok && read->Ok_0 == flag,
            None => read is Err,
        },
{
    match lookup_flag(layers, setting.key()) {
        Ok(flag) => Ok(flag),
        Err(e) => Err(LoadError::Layers { message: describe(&e) }),
    }
}

/// Reads an unsigned integer setting.
fn read_unsigned(layers: &LayeredConfig, setting: Setting) -> (read: Result<u64, LoadError>)
    requires
        simple_key(setting.spec_key()),
    ensures
        read matches Err(e) ==> e is Layers,
        (held(layered_settings(*layers), setting.spec_key()) is None || held(layered_settings(*layers), setting.spec_key())->Some_0 is Integer || held(layered_settings(*layers), setting.spec_key())->Some_0 is Text)
            ==> match as_unsigned(held(layered_settings(*layers), setting.spec_key())) {
            Some(number) => read is Ok && read->Ok_0 == number,
            None => read is Err,
        },
{
    match lookup_unsigned(layers, setting.key()) {
        Ok(number) => Ok(number),
        Err(e) => Err(LoadError::Layers { message: describe(&e) }),
    }
}

/// Adds the default of `setting`.
fn add_default(builder: LayerBuilder, setting: Setting) -> (result: LayerBuilder)
    requires
        simple_key(setting.spec_key()),
    ensures
        builder_defaults(result) == builder_defaults(builder).insert(setting.spec_key(), setting.spec_default()),
        builder_sources(result) == builder_sources(builder),
{
    let added = with_default(builder, setting.key(), setting.default_value());
    match added {
        Ok(b) => b,
        Err(_) => {
            proof { assert(false); }
            new_builder()
        },
    }
}


// ----- Laws -----

/// The service's variables are selected by the lower-cased prefix
/// `quote_sidecar_`, and the key separator is not empty.
proof fn lemma_scheme_text()
    ensures
        forall|vars: Seq<(Seq<char>, Seq<char>)>| #[trigger] prefix_pattern(sidecar_source(vars))
            == "quote_sidecar_"@,
        "__"@.len() == 2,
{
    reveal_strlit("QUOTE_SIDECAR");
    reveal_strlit("_");
    reveal_strlit("__");
    reveal_strlit("quote_sidecar_");
    let t = "QUOTE_SIDECAR"@ + "_"@;
    let lower = "quote_sidecar_"@;
    assert forall|i: int| 0 <= i < t.len() implies (#[trigger] t[i] as int) < 128 by {
        if i < 13 {
            assert(t[i] == "QUOTE_SIDECAR"@[i]);
        } else {
            assert(t[i] == '_');
        }
    }
    assert(t[0] == 'Q' && t[1] == 'U' && t[2] == 'O' && t[3] == 'T' && t[4] == 'E' && t[5] == '_');
    assert(t[6] == 'S' && t[7] == 'I' && t[8] == 'D' && t[9] == 'E' && t[10] == 'C' && t[11] == 'A');
    assert(t[12] == 'R' && t[13] == '_');
    assert(ascii_lower(t) =~= lower);
}

/// Without variables named with the prefix, every setting takes its default:
/// the service binds to `0.0.0.0:9999`, writes no instance file, and would
/// require it at `/shared/instance.conf`, trying 6 times, 2000 ms apart.
pub proof fn defaults_without_prefixed_variables(vars: Seq<(Seq<char>, Seq<char>)>)
    requires
        forall|n: Seq<char>| !#[trigger] selects(sidecar_source(vars), n),
    ensures
        well_formed_environment(vars),
        loadable(vars),
        forall|s: Setting| #[trigger] setting_value(vars, s) == Some(s.spec_default()),
        forall|c: Config| #[trigger] loads_as(vars, c) ==> {
            &&& c.server.host@ == "0.0.0.0"@
            &&& c.server.port == 9999
            &&& !c.instance_file.enabled
            &&& c.instance_file.path@ == "/shared/instance.conf"@
            &&& c.instance_file.required
            &&& c.instance_file.retries == 5
            &&& c.instance_file.retry_delay_ms == 2000
        },
{
    lemma_setting_keys();
    lemma_scheme_text();
    let env = sidecar_source(vars);
    assert forall|s: Setting| #[trigger] setting_value(vars, s) == Some(s.spec_default()) by {
        assert(!cleared(env, first_segment(s.spec_key())));
        assert(!is_set(env, s.spec_key()));
    }
}

/// A variable whose name, lower-cased, does not start with the prefix changes
/// nothing: the same variables are selected, with the same values; the
/// environment is well formed exactly when it was; and then every setting
/// takes the same value, so loading gives the same outcome.
pub proof fn unprefixed_variable_changes_nothing(
    vars: Seq<(Seq<char>, Seq<char>)>,
    name: Seq<char>,
    value: Seq<char>,
)
    requires
        !selects(sidecar_source(vars.push((name, value))), name),
    ensures
        forall|n: Seq<char>| #[trigger] selects(sidecar_source(vars.push((name, value))), n) == selects(
            sidecar_source(vars),
            n,
        ),
        forall|n: Seq<char>| #[trigger] selects(sidecar_source(vars), n) ==> variables_map(vars.push((name, value)))[n]
            == variables_map(vars)[n],
        well_formed_environment(vars.push((name, value))) == well_formed_environment(vars),
        well_formed_environment(vars) ==> forall|s: Setting| #[trigger] setting_value(vars.push((name, value)), s)
            == setting_value(vars, s),
        well_formed_environment(vars) ==> loadable(vars.push((name, value))) == loadable(vars),
        well_formed_environment(vars) ==> forall|c: Config| #[trigger] loads_as(vars.push((name, value)), c)
            == loads_as(vars, c),
{
    lemma_setting_keys();
    let more = vars.push((name, value));
    let env1 = sidecar_source(vars);
    let env2 = sidecar_source(more);
    assert(more.drop_last() =~= vars);
    assert(variables_map(more) == variables_map(vars).insert(name, value));
    assert(prefix_pattern(env2) == prefix_pattern(env1));
    assert forall|n: Seq<char>| #[trigger] selects(env2, n) == selects(env1, n) by {
        if n != name {
            assert(variables_map(more).contains_key(n) <==> variables_map(vars).contains_key(n));
        }
    }
    assert forall|n: Seq<char>| #[trigger] selects(env1, n) implies variables_map(more)[n] == variables_map(vars)[n] by {
        assert(n != name);
    }
    assert forall|n: Seq<char>| #[trigger] key_of(env2, n) == key_of(env1, n) by {}
    assert forall|k: Seq<char>| #[trigger] cleared(env2, k) == cleared(env1, k) by {
        if cleared(env1, k) {
            let n = choose|n: Seq<char>| #[trigger] selects(env1, n) && key_of(env1, n) == k;
            assert(selects(env2, n) && key_of(env2, n) == k);
        }
        if cleared(env2, k) {
            let n = choose|n: Seq<char>| #[trigger] selects(env2, n) && key_of(env2, n) == k;
            assert(selects(env1, n) && key_of(env1, n) == k);
        }
    }
    assert forall|k: Seq<char>| #[trigger] is_set(env2, k) == is_set(env1, k) by {
        if is_set(env1, k) {
            let n = choose|n: Seq<char>| #[trigger] selects(env1, n) && key_of(env1, n) == k;
            assert(selects(env2, n) && key_of(env2, n) == k);
        }
        if is_set(env2, k) {
            let n = choose|n: Seq<char>| #[trigger] selects(env2, n) && key_of(env2, n) == k;
            assert(selects(env1, n) && key_of(env1, n) == k);
        }
    }
    assert(resolvable(default_layers(), env2) == resolvable(default_layers(), env1)) by {
        if resolvable(default_layers(), env1) {
            assert forall|n: Seq<char>| #[trigger] selects(env2, n) implies default_layers().contains_key(key_of(env2, n))
                || is_section(default_layers(), key_of(env2, n)) || beside_defaults(
                default_layers(),
                key_of(env2, n),
            ) || harmless(default_layers(), key_of(env2, n)) by {
                assert(selects(env1, n));
            }
            assert forall|n1: Seq<char>, n2: Seq<char>|
                #[trigger] selects(env2, n1) && #[trigger] selects(env2, n2) && n1 != n2 && key_of(env2, n1)
                    == key_of(env2, n2) implies !default_layers().contains_key(key_of(env2, n1)) by {
                assert(selects(env1, n1) && selects(env1, n2));
            }
            assert forall|n1: Seq<char>, n2: Seq<char>|
                #[trigger] selects(env2, n1) && #[trigger] selects(env2, n2) && is_section(
                    default_layers(),
                    key_of(env2, n1),
                ) && first_segment(key_of(env2, n2)) == key_of(env2, n1) implies key_of(env2, n2) == key_of(
                env2,
                n1,
            ) by {
                assert(selects(env1, n1) && selects(env1, n2));
            }
        }
        if resolvable(default_layers(), env2) {
            assert forall|n: Seq<char>| #[trigger] selects(env1, n) implies default_layers().contains_key(key_of(env1, n))
                || is_section(default_layers(), key_of(env1, n)) || beside_defaults(
                default_layers(),
                key_of(env1, n),
            ) || harmless(default_layers(), key_of(env1, n)) by {
                assert(selects(env2, n));
            }
            assert forall|n1: Seq<char>, n2: Seq<char>|
                #[trigger] selects(env1, n1) && #[trigger] selects(env1, n2) && n1 != n2 && key_of(env1, n1)
                    == key_of(env1, n2) implies !default_layers().contains_key(key_of(env1, n1)) by {
                assert(selects(env2, n1) && selects(env2, n2));
            }
            assert forall|n1: Seq<char>, n2: Seq<char>|
                #[trigger] selects(env1, n1) && #[trigger] selects(env1, n2) && is_section(
                    default_layers(),
                    key_of(env1, n1),
                ) && first_segment(key_of(env1, n2)) == key_of(env1, n1) implies key_of(env1, n2) == key_of(
                env1,
                n1,
            ) by {
                assert(selects(env2, n1) && selects(env2, n2));
            }
        }
    }
    if well_formed_environment(vars) {
        assert forall|s: Setting| #[trigger] setting_value(more, s) == setting_value(vars, s) by {
            let k = s.spec_key();
            assert(default_layers().contains_key(k));
            if !cleared(env1, first_segment(k)) && is_set(env1, k) {
                let n1 = choose|n: Seq<char>| #[trigger] selects(env1, n) && key_of(env1, n) == k;
                let n2 = choose|n: Seq<char>| #[trigger] selects(env2, n) && key_of(env2, n) == k;
                assert(selects(env2, n1) && key_of(env2, n1) == k);
                assert(selects(env1, n2));
                assert(n1 == n2);
            }
        }
    }
}

/// Whether a variable named `name` is one that loading reads: its name,
/// lower-cased, starts with `quote_sidecar_`.
pub fn names_a_setting(name: &str) -> (named: bool)
    ensures
        named == (14 <= text_lower(name@).len() && text_lower(name@).take(14) == "quote_sidecar_"@),
        forall|vars: Seq<(Seq<char>, Seq<char>)>| #[trigger] variables_map(vars).contains_key(name@) ==> (named
            == selects(sidecar_source(vars), name@)),
{
    proof {
        lemma_scheme_text();
        reveal_strlit("quote_sidecar_");
    }
    let lower = to_lower(name);
    starts_with(lower.as_str(), "quote_sidecar_")
}

impl Config {
    /// Loads the configuration: the defaults of each `Setting`, overridden by
    /// the variables of `env_vars` named `QUOTE_SIDECAR_` + section + `__` +
    /// key (in any case).
    ///
    /// For a well-formed environment, loading succeeds exactly when every
    /// setting reads as its type and fits it, and then each field holds its
    /// variable's value when that is set, or else its default.
    pub fn load(env_vars: Vec<(String, String)>) -> (result: Result<Config, LoadError>)
        ensures
            result matches Err(LoadError::OutOfRange { setting, value }) ==> (setting
                == Setting::ServerPort && value > u16::MAX) || (setting == Setting::InstanceFileRetries
                && value > u32::MAX),
            well_formed_environment(variable_pairs(env_vars@)) ==> (result is Ok <==> loadable(
                variable_pairs(env_vars@),
            )),
            well_formed_environment(variable_pairs(env_vars@)) && result is Ok ==> loads_as(
                variable_pairs(env_vars@),
                result->Ok_0,
            ),
    {
        let ghost vars = variable_pairs(env_vars@);
        proof { lemma_setting_keys(); }
        let builder = new_builder();
        proof { assert(builder_defaults(builder) =~= Map::<Seq<char>, LayerValue>::empty()); }
        let builder = add_default(builder, Setting::ServerHost);
        let builder = add_default(builder, Setting::ServerPort);
        let builder = add_default(builder, Setting::InstanceFileEnabled);
        let builder = add_default(builder, Setting::InstanceFilePath);
        let builder = add_default(builder, Setting::InstanceFileRequired);
        let builder = add_default(builder, Setting::InstanceFileRetries);
        let builder = add_default(builder, Setting::InstanceFileRetryDelayMs);
        assert(builder_defaults(builder) == default_layers());
        let env = environment_with_prefix("QUOTE_SIDECAR");
        let env = with_prefix_separator(env, "_");
        let env = with_separator(env, "__");
        let env = with_variables(env, env_vars);
        let builder = with_source(builder, env);
        assert(builder_sources(builder) =~= seq![sidecar_source(vars)]);
        let ghost built_from = builder;
        let layers = match build_layers(builder) {
            Ok(layers) => layers,
            Err(e) => return Err(LoadError::Layers { message: describe(&e) }),
        };
        let raw = RawSettings {
            host: read_text(&layers, Setting::ServerHost),
            port: read_unsigned(&layers, Setting::ServerPort),
            enabled: read_flag(&layers, Setting::InstanceFileEnabled),
            path: read_text(&layers, Setting::InstanceFilePath),
            required: read_flag(&layers, Setting::InstanceFileRequired),
            retries: read_unsigned(&layers, Setting::InstanceFileRetries),
            retry_delay_ms: read_unsigned(&layers, Setting::InstanceFileRetryDelayMs),
        };
        proof {
            if well_formed_environment(vars) {
                assert(builder_sources(built_from).len() == 1);
                assert forall|s: Setting| #[trigger] held(layered_settings(layers), s.spec_key())
                    == setting_value(vars, s) by {
                    assert(builder_defaults(built_from).contains_key(s.spec_key()));
                }
                lemma_setting_shapes(vars, Setting::ServerHost);
                lemma_setting_shapes(vars, Setting::ServerPort);
                lemma_setting_shapes(vars, Setting::InstanceFileEnabled);
                lemma_setting_shapes(vars, Setting::InstanceFilePath);
                lemma_setting_shapes(vars, Setting::InstanceFileRequired);
                lemma_setting_shapes(vars, Setting::InstanceFileRetries);
                lemma_setting_shapes(vars, Setting::InstanceFileRetryDelayMs);
                assert(match as_text(setting_value(vars, Setting::ServerHost)) {
                    Some(t) => raw.host is Ok && raw.host->Ok_0@ == t,
                    None => raw.host is Err,
                });
                assert(match as_unsigned(setting_value(vars, Setting::ServerPort)) {
                    Some(n) => raw.port is Ok && raw.port->Ok_0 == n,
                    None => raw.port is Err,
                });
                assert(match as_flag(setting_value(vars, Setting::InstanceFileEnabled)) {
                    Some(b) => raw.enabled is Ok && raw.enabled->Ok_0 == b,
                    None => raw.enabled is Err,
                });
                assert(match as_text(setting_value(vars, Setting::InstanceFilePath)) {
                    Some(t) => raw.path is Ok && raw.path->Ok_0@ == t,
                    None => raw.path is Err,
                });
                assert(match as_flag(setting_value(vars, Setting::InstanceFileRequired)) {
                    Some(b) => raw.required is Ok && raw.required->Ok_0 == b,
                    None => raw.required is Err,
                });
                assert(match as_unsigned(setting_value(vars, Setting::InstanceFileRetries)) {
                    Some(n) => raw.retries is Ok && raw.retries->Ok_0 == n,
                    None => raw.retries is Err,
                });
                assert(match as_unsigned(setting_value(vars, Setting::InstanceFileRetryDelayMs)) {
                    Some(n) => raw.retry_delay_ms is Ok && raw.retry_delay_ms->Ok_0 == n,
                    None => raw.retry_delay_ms is Err,
                });
                assert(read_from(vars, raw));
                lemma_assembled(vars, raw);
            }
        }
        Config::from_settings(raw)
    }

    /// The configuration that the settings read make, or the first setting
    /// that failed to be read or does not fit its type.
    pub fn from_settings(raw: RawSettings) -> (result: Result<Config, LoadError>)
        ensures
            result == assembled(raw),
    {
        let RawSettings { host, port, enabled, path, required, retries, retry_delay_ms } = raw;
        let host = match host {
            Ok(h) => h,
            Err(e) => return Err(e),
        };
        let port = match port {
            Ok(p) => p,
            Err(e) => return Err(e),
        };
        if port > 65535 {
            return Err(LoadError::OutOfRange { setting: Setting::ServerPort, value: port });
        }
        let enabled = match enabled {
            Ok(g) => g,
            Err(e) => return Err(e),
        };
        let path = match path {
            Ok(p) => p,
            Err(e) => return Err(e),
        };
        let required = match required {
            Ok(r) => r,
            Err(e) => return Err(e),
        };
        let retries = match retries {
            Ok(r) => r,
            Err(e) => return Err(e),
        };
        if retries > 4294967295 {
            return Err(LoadError::OutOfRange { setting: Setting::InstanceFileRetries, value: retries });
        }
        let retry_delay_ms = match retry_delay_ms {
            Ok(d) => d,
            Err(e) => return Err(e),
        };
        Ok(Config {
            server: ServerConfig { host, port: port as u16 },
            instance_file: FluentBitFragmentConfig {
                enabled,
                path,
                required,
                retries: retries as u32,
                retry_delay_ms,
            },
        })
    }

    /// The address the server binds to, `host:port`.
    pub fn bind_addr(&self) -> (addr: String)
        ensures
            addr@ == bind_address(self.server),
    {
        let mut addr = self.server.host.clone();
        addr.append(":");
        push_decimal(&mut addr, self.server.port as u64);
        addr
    }
}

} // verus!
