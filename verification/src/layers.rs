//! The layered-configuration crate that resolves defaults and environment
//! variables into settings.
//!
//! The crate's values are opaque here; what each call does to them is stated
//! over names for what they hold: `builder_defaults` and `builder_sources` for
//! a builder, `environment_model` for an environment source, and
//! `layered_settings` for a built configuration. The facts stated are those
//! that the crate's source shows, for the inputs named in each clause. The
//! crate lowers names and words with `str::to_lowercase`, whose result on
//! text that is not ASCII is named `lowercase`.

use vstd::prelude::*;

use config::Config as LayeredConfig;

verus! {

/// The defaults and sources gathered so far. Verus cannot be told of
/// `config::ConfigBuilder` itself (its parameter is bound by a trait of that
/// crate), so it is held here, hidden.
#[verifier::external_body]
pub struct LayerBuilder {
    inner: config::ConfigBuilder<config::builder::DefaultState>,
}

#[verifier::external_type_specification]
#[verifier::external_body]
pub struct ExEnvironmentSource(config::Environment);

#[verifier::external_type_specification]
#[verifier::external_body]
pub struct ExLayeredSettings(LayeredConfig);

#[verifier::external_type_specification]
#[verifier::external_body]
pub struct ExLayerError(config::ConfigError);

/// A default value handed to the layered configuration.
pub enum DefaultValue {
    Text(&'static str),
    Integer(i64),
    Flag(bool),
}

/// A value held by the layered configuration: text, a signed integer, a flag,
/// or a value of another kind (a table, a list, nothing, or another number).
pub enum LayerValue {
    Text(Seq<char>),
    Integer(int),
    Flag(bool),
    Other,
}

impl DefaultValue {
    /// The value that the default is held as.
    pub open spec fn model(self) -> LayerValue {
        match self {
            DefaultValue::Text(text) => LayerValue::Text(text@),
            DefaultValue::Integer(number) => LayerValue::Integer(number as int),
            DefaultValue::Flag(flag) => LayerValue::Flag(flag),
        }
    }
}

/// What an environment source holds: its prefix, the separator after the
/// prefix, the separator between key segments, the variables it reads in
/// place of the process environment, and whether every other option is left
/// as `Environment::with_prefix` sets it.
pub struct EnvironmentModel {
    pub prefix: Option<Seq<char>>,
    pub prefix_separator: Option<Seq<char>>,
    pub separator: Option<Seq<char>>,
    pub variables: Option<Map<Seq<char>, Seq<char>>>,
    pub plain: bool,
}

/// The defaults that a builder holds, by key.
pub uninterp spec fn builder_defaults(builder: LayerBuilder) -> Map<Seq<char>, LayerValue>;

/// The sources that a builder holds, in order.
pub uninterp spec fn builder_sources(builder: LayerBuilder) -> Seq<EnvironmentModel>;

/// What an environment source holds.
pub uninterp spec fn environment_model(env: config::Environment) -> EnvironmentModel;

/// The value that a built configuration holds under each key; a key under
/// which it holds nothing is absent.
pub uninterp spec fn layered_settings(layers: LayeredConfig) -> Map<Seq<char>, LayerValue>;

/// What `str::to_lowercase` gives for the text `s`.
pub uninterp spec fn lowercase(s: Seq<char>) -> Seq<char>;

/// The value held under `key`, if any.
pub open spec fn held(values: Map<Seq<char>, LayerValue>, key: Seq<char>) -> Option<LayerValue> {
    if values.contains_key(key) {
        Some(values[key])
    } else {
        None
    }
}

// ----- Text -----

/// Whether every character of `s` is ASCII.
pub open spec fn is_ascii_text(s: Seq<char>) -> bool {
    forall|i: int| 0 <= i < s.len() ==> (#[trigger] s[i] as int) < 128
}

/// `c` in lower case, where it is an ASCII capital letter.
pub open spec fn ascii_lower_char(c: char) -> char {
    if 'A' <= c && c <= 'Z' {
        ((c as int) + 32) as char
    } else {
        c
    }
}

/// `s` with its ASCII capital letters in lower case (what `str::to_lowercase`
/// gives for ASCII text).
pub open spec fn ascii_lower(s: Seq<char>) -> Seq<char> {
    s.map_values(|c: char| ascii_lower_char(c))
}

/// `s` with each occurrence of the non-empty `pattern`, from left to right and
/// without overlap, replaced by `replacement` (what `str::replace` gives).
pub open spec fn replace_all(s: Seq<char>, pattern: Seq<char>, replacement: Seq<char>) -> Seq<char>
    decreases s.len(),
{
    if pattern.len() == 0 || s.len() < pattern.len() {
        s
    } else if s.take(pattern.len() as int) == pattern {
        replacement + replace_all(s.skip(pattern.len() as int), pattern, replacement)
    } else {
        seq![s[0]] + replace_all(s.skip(1), pattern, replacement)
    }
}

/// What `str::to_lowercase` gives for `s`: `ascii_lower` where `s` is ASCII,
/// and otherwise its Unicode lower case, by name.
pub open spec fn text_lower(s: Seq<char>) -> Seq<char> {
    if is_ascii_text(s) {
        ascii_lower(s)
    } else {
        lowercase(s)
    }
}

/// A character allowed in a key segment by the crate's key syntax.
pub open spec fn ident_char(c: char) -> bool {
    ('a' <= c && c <= 'z') || ('A' <= c && c <= 'Z') || ('0' <= c && c <= '9') || c == '_' || c == '-'
}

/// The leading key segment of `key`: its longest prefix of segment characters.
pub open spec fn first_segment(key: Seq<char>) -> Seq<char>
    decreases key.len(),
{
    if key.len() == 0 || !ident_char(key[0]) {
        Seq::empty()
    } else {
        seq![key[0]] + first_segment(key.skip(1))
    }
}

/// A non-empty run of lower-case letters and underscores.
pub open spec fn lower_word(s: Seq<char>) -> bool {
    &&& s.len() > 0
    &&& forall|i: int| 0 <= i < s.len() ==> ('a' <= #[trigger] s[i] && s[i] <= 'z') || s[i] == '_'
}

/// A key of two lower-case segments: `section.name`.
pub open spec fn simple_key(key: Seq<char>) -> bool {
    exists|i: int|
        0 < i < key.len() && #[trigger] key[i] == '.' && lower_word(key.take(i)) && lower_word(
            key.skip(i + 1),
        )
}

// ----- Environment variables -----

/// The map that a list of variables makes; a later entry replaces an earlier
/// one of the same name.
pub open spec fn variables_map(vars: Seq<(Seq<char>, Seq<char>)>) -> Map<Seq<char>, Seq<char>>
    decreases vars.len(),
{
    if vars.len() == 0 {
        Map::empty()
    } else {
        variables_map(vars.drop_last()).insert(vars.last().0, vars.last().1)
    }
}

/// A list of variables as text.
pub open spec fn variable_pairs(vars: Seq<(String, String)>) -> Seq<(Seq<char>, Seq<char>)> {
    vars.map_values(|p: (String, String)| (p.0@, p.1@))
}

/// The lower-cased prefix that selects the variables of `env`.
pub open spec fn prefix_pattern(env: EnvironmentModel) -> Seq<char> {
    text_lower(env.prefix->Some_0 + env.prefix_separator->Some_0)
}

/// Whether the variable `name` of `env` is selected: its name, lower-cased,
/// starts with the prefix pattern.
pub open spec fn selects(env: EnvironmentModel, name: Seq<char>) -> bool {
    let pattern = prefix_pattern(env);
    &&& env.variables->Some_0.contains_key(name)
    &&& pattern.len() <= text_lower(name).len()
    &&& text_lower(name).take(pattern.len() as int) == pattern
}

/// The key that the selected variable `name` of `env` sets.
pub open spec fn key_of(env: EnvironmentModel, name: Seq<char>) -> Seq<char> {
    replace_all(text_lower(name).skip(prefix_pattern(env).len() as int), env.separator->Some_0, seq!['.'])
}

/// Whether `key` leaves every key of `defaults` alone: its leading segment is
/// that of none of them.
pub open spec fn harmless(defaults: Map<Seq<char>, LayerValue>, key: Seq<char>) -> bool {
    forall|d: Seq<char>| #[trigger] defaults.contains_key(d) ==> first_segment(key) != first_segment(d)
}

/// Whether `key` is the section of some key of `defaults`: its leading
/// segment alone.
pub open spec fn is_section(defaults: Map<Seq<char>, LayerValue>, key: Seq<char>) -> bool {
    exists|d: Seq<char>| #[trigger] defaults.contains_key(d) && key == first_segment(d)
}

/// Whether `key` lies in a section of `defaults` without reaching any of
/// their keys: it is the section, then a character that neither continues the
/// segment nor opens an index, and, where that is a dot, a segment that with
/// the section names none of their keys. (Whether or not the crate can read
/// such a key as a path, it sets nothing under their keys.)
pub open spec fn beside_defaults(defaults: Map<Seq<char>, LayerValue>, key: Seq<char>) -> bool {
    exists|d: Seq<char>|
        #[trigger] defaults.contains_key(d) && {
            let section = first_segment(d);
            &&& section.len() < key.len()
            &&& key.take(section.len() as int) == section
            &&& !ident_char(key[section.len() as int])
            &&& key[section.len() as int] != '['
            &&& key[section.len() as int] == '.' ==> forall|d2: Seq<char>|
                #[trigger] defaults.contains_key(d2) ==> d2 != section + seq!['.'] + first_segment(
                    key.skip(section.len() as int + 1),
                )
        }
}

/// Whether some selected variable of `env` sets the section `section` itself,
/// replacing what it held.
pub open spec fn cleared(env: EnvironmentModel, section: Seq<char>) -> bool {
    exists|n: Seq<char>| #[trigger] selects(env, n) && key_of(env, n) == section
}

/// The case in which the built values are stated: simple default keys; one
/// plain source with a prefix and a non-empty separator; every selected
/// variable setting a default key, a section of the defaults, a key beside
/// them in such a section, or leaving their sections alone; no two selected
/// variables setting the same default key; and a section that is set itself
/// holding no other selected key. (Outside it, what is built can depend on
/// the order in which the crate walks its hash maps, or on which keys its
/// path syntax accepts.)
pub open spec fn resolvable(defaults: Map<Seq<char>, LayerValue>, env: EnvironmentModel) -> bool {
    &&& forall|k: Seq<char>| #[trigger] defaults.contains_key(k) ==> simple_key(k)
    &&& env.plain
    &&& env.prefix is Some
    &&& env.prefix_separator is Some
    &&& env.separator is Some
    &&& env.separator->Some_0.len() > 0
    &&& env.variables is Some
    &&& forall|n: Seq<char>|
        #[trigger] selects(env, n) ==> defaults.contains_key(key_of(env, n)) || is_section(
            defaults,
            key_of(env, n),
        ) || beside_defaults(defaults, key_of(env, n)) || harmless(defaults, key_of(env, n))
    &&& forall|n1: Seq<char>, n2: Seq<char>|
        #[trigger] selects(env, n1) && #[trigger] selects(env, n2) && n1 != n2 && key_of(env, n1)
            == key_of(env, n2) ==> !defaults.contains_key(key_of(env, n1))
    &&& forall|n1: Seq<char>, n2: Seq<char>|
        #[trigger] selects(env, n1) && #[trigger] selects(env, n2) && is_section(defaults, key_of(env, n1))
            && first_segment(key_of(env, n2)) == key_of(env, n1) ==> key_of(env, n2) == key_of(env, n1)
}

/// Whether some selected variable of `env` sets `key`.
pub open spec fn is_set(env: EnvironmentModel, key: Seq<char>) -> bool {
    exists|n: Seq<char>| #[trigger] selects(env, n) && key_of(env, n) == key
}

/// The value held under the default key `key`: nothing where its section was
/// set itself; else the text of the variable that sets it; else its default.
pub open spec fn resolved_value(
    defaults: Map<Seq<char>, LayerValue>,
    env: EnvironmentModel,
    key: Seq<char>,
) -> Option<LayerValue> {
    if cleared(env, first_segment(key)) {
        None
    } else if is_set(env, key) {
        let n = choose|n: Seq<char>| #[trigger] selects(env, n) && key_of(env, n) == key;
        Some(LayerValue::Text(env.variables->Some_0[n]))
    } else {
        Some(defaults[key])
    }
}

// ----- Reading values -----

/// What a flag is read as from lower-case text.
pub open spec fn flag_word(lower: Seq<char>) -> Option<bool> {
    if lower == "1"@ || lower == "true"@ || lower == "on"@ || lower == "yes"@ {
        Some(true)
    } else if lower == "0"@ || lower == "false"@ || lower == "off"@ || lower == "no"@ {
        Some(false)
    } else {
        None
    }
}

/// Whether `s` is a non-empty run of ASCII digits.
pub open spec fn all_digits(s: Seq<char>) -> bool {
    &&& s.len() > 0
    &&& forall|i: int| 0 <= i < s.len() ==> '0' <= #[trigger] s[i] && s[i] <= '9'
}

/// The number that the digits of `s` spell.
pub open spec fn digits_value(s: Seq<char>) -> int
    decreases s.len(),
{
    if s.len() == 0 {
        0
    } else {
        digits_value(s.drop_last()) * 10 + (s.last() as int - '0' as int)
    }
}

/// What `str::parse::<u64>` gives: an optional `+`, then decimal digits whose
/// value fits.
pub open spec fn parsed_u64(s: Seq<char>) -> Option<u64> {
    let digits = if s.len() > 0 && s[0] == '+' { s.skip(1) } else { s };
    if all_digits(digits) && digits_value(digits) <= u64::MAX {
        Some(digits_value(digits) as u64)
    } else {
        None
    }
}

/// What an unsigned integer is read as from text.
pub open spec fn unsigned_word(text: Seq<char>) -> Option<u64> {
    let lower = text_lower(text);
    if lower == "true"@ || lower == "on"@ || lower == "yes"@ {
        Some(1)
    } else if lower == "false"@ || lower == "off"@ || lower == "no"@ {
        Some(0)
    } else {
        parsed_u64(text)
    }
}

// ----- The calls -----

/// Calls `config::Config::builder`: a builder with no defaults and no sources.
#[verifier::external_body]
pub(crate) fn new_builder() -> (result: LayerBuilder)
    ensures
        builder_defaults(result).dom() == Set::<Seq<char>>::empty(),
        builder_sources(result) == Seq::<EnvironmentModel>::empty(),
{
    LayerBuilder { inner: LayeredConfig::builder() }
}

/// Calls `config::ConfigBuilder::set_default` with `value` converted to the
/// crate's value type. A simple key parses, so the call succeeds and adds the
/// default under `key`.
#[verifier::external_body]
pub(crate) fn with_default(
    builder: LayerBuilder,
    key: &str,
    value: DefaultValue,
) -> (result: Result<LayerBuilder, config::ConfigError>)
    requires
        simple_key(key@),
    ensures
        result is Ok,
        builder_defaults(result->Ok_0) == builder_defaults(builder).insert(key@, value.model()),
        builder_sources(result->Ok_0) == builder_sources(builder),
{
    let set = match value {
        DefaultValue::Text(text) => builder.inner.set_default(key, text),
        DefaultValue::Integer(number) => builder.inner.set_default(key, number),
        DefaultValue::Flag(flag) => builder.inner.set_default(key, flag),
    };
    match set {
        Ok(inner) => Ok(LayerBuilder { inner }),
        Err(e) => Err(e),
    }
}

/// Calls `config::Environment::with_prefix`: a source with that prefix and
/// every other option at its default.
#[verifier::external_body]
pub(crate) fn environment_with_prefix(prefix: &str) -> (env: config::Environment)
    ensures
        environment_model(env) == (EnvironmentModel {
            prefix: Some(prefix@),
            prefix_separator: None,
            separator: None,
            variables: None,
            plain: true,
        }),
{
    config::Environment::with_prefix(prefix)
}

/// Calls `config::Environment::prefix_separator`, which sets that option alone.
#[verifier::external_body]
pub(crate) fn with_prefix_separator(env: config::Environment, separator: &str) -> (result: config::Environment)
    ensures
        environment_model(result) == (EnvironmentModel {
            prefix_separator: Some(separator@),
            ..environment_model(env)
        }),
{
    env.prefix_separator(separator)
}

/// Calls `config::Environment::separator`, which sets that option alone.
#[verifier::external_body]
pub(crate) fn with_separator(env: config::Environment, separator: &str) -> (result: config::Environment)
    ensures
        environment_model(result) == (EnvironmentModel { separator: Some(separator@), ..environment_model(env) }),
{
    env.separator(separator)
}

/// Calls `config::Environment::source`, so that the variables are read from
/// `vars` (later entries replacing earlier ones of the same name) rather than
/// from the process.
#[verifier::external_body]
pub(crate) fn with_variables(env: config::Environment, vars: Vec<(String, String)>) -> (result: config::Environment)
    ensures
        environment_model(result) == (EnvironmentModel {
            variables: Some(variables_map(variable_pairs(vars@))),
            ..environment_model(env)
        }),
{
    env.source(Some(vars.into_iter().collect()))
}

/// Calls `config::ConfigBuilder::add_source`, which appends the source.
#[verifier::external_body]
pub(crate) fn with_source(builder: LayerBuilder, env: config::Environment) -> (result: LayerBuilder)
    ensures
        builder_defaults(result) == builder_defaults(builder),
        builder_sources(result) == builder_sources(builder).push(environment_model(env)),
{
    LayerBuilder { inner: builder.inner.add_source(env) }
}

/// Calls `config::ConfigBuilder::build`. In the `resolvable` case it succeeds,
/// and each default key holds what `resolved_value` gives: nothing where its
/// section was set itself, else the text of the variable that sets it, else
/// its default. Nothing is claimed otherwise.
#[verifier::external_body]
pub(crate) fn build_layers(builder: LayerBuilder) -> (result: Result<LayeredConfig, config::ConfigError>)
    ensures
        builder_sources(builder).len() == 1 && resolvable(builder_defaults(builder), builder_sources(builder)[0])
            ==> (result is Ok && forall|k: Seq<char>| #[trigger]
            builder_defaults(builder).contains_key(k) ==> held(layered_settings(result->Ok_0), k)
            == resolved_value(builder_defaults(builder), builder_sources(builder)[0], k)),
{
    builder.inner.build()
}

/// Calls `config::Config::get_string` with a simple key: it fails where
/// nothing is held, and returns text held as it is.
#[verifier::external_body]
pub(crate) fn lookup_text(layers: &LayeredConfig, key: &str) -> (result: Result<String, config::ConfigError>)
    requires
        simple_key(key@),
    ensures
        match held(layered_settings(*layers), key@) {
            None => result is Err,
            Some(LayerValue::Text(text)) => result is Ok && result->Ok_0@ == text,
            _ => true,
        },
{
    layers.get_string(key)
}

/// Calls `config::Config::get_bool` with a simple key: it fails where nothing
/// is held, returns a flag held, and reads text by `flag_word` on its lower
/// case, failing where that gives nothing.
#[verifier::external_body]
pub(crate) fn lookup_flag(layers: &LayeredConfig, key: &str) -> (result: Result<bool, config::ConfigError>)
    requires
        simple_key(key@),
    ensures
        match held(layered_settings(*layers), key@) {
            None => result is Err,
            Some(LayerValue::Flag(flag)) => result == Ok::<bool, config::ConfigError>(flag),
            Some(LayerValue::Text(text)) => match flag_word(text_lower(text)) {
                Some(flag) => result == Ok::<bool, config::ConfigError>(flag),
                None => result is Err,
            },
            _ => true,
        },
{
    layers.get_bool(key)
}

/// Calls `config::Config::get` for a `u64` with a simple key: it fails where
/// nothing is held, returns a non-negative integer held and fails on a
/// negative one, and reads text by `unsigned_word`, failing where that gives
/// nothing.
#[verifier::external_body]
pub(crate) fn lookup_unsigned(layers: &LayeredConfig, key: &str) -> (result: Result<u64, config::ConfigError>)
    requires
        simple_key(key@),
    ensures
        match held(layered_settings(*layers), key@) {
            None => result is Err,
            Some(LayerValue::Integer(number)) => if 0 <= number <= u64::MAX {
                result == Ok::<u64, config::ConfigError>(number as u64)
            } else {
                result is Err
            },
            Some(LayerValue::Text(text)) => match unsigned_word(text) {
                Some(number) => result == Ok::<u64, config::ConfigError>(number),
                None => result is Err,
            },
            _ => true,
        },
{
    layers.get::<u64>(key)
}

/// Calls `str::to_lowercase`: ASCII text has its capital letters lowered;
/// other text gives its Unicode lower case, by name.
#[verifier::external_body]
pub(crate) fn to_lower(text: &str) -> (lower: String)
    ensures
        lower@ == (if is_ascii_text(text@) { ascii_lower(text@) } else { lowercase(text@) }),
{
    text.to_lowercase()
}

/// Calls the `Display` of `config::ConfigError`. Nothing is claimed of the
/// text.
#[verifier::external_body]
pub(crate) fn describe(error: &config::ConfigError) -> String {
    error.to_string()
}

} // verus!
