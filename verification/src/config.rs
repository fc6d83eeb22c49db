//! Publisher configuration rules.
//!
//! Reading the configuration file, decoding its TOML, reading token files and
//! checking floating-point stream delays happen around this module; here are
//! the rules that decide what a decoded configuration means: target names and
//! event IDs, token file locations, fallback value blocks, and the line-level
//! editing of `[[target]]` stanzas.

use vstd::prelude::*;
use crate::livevalue::{LiveValue, LiveValueDestination, LiveValueModel};
use crate::paths::{join_path, path_join, text_after, texts};
use crate::text::{
    contains, contains_control, decimal, decimal_text, has_control, has_substring, is_prefix,
    push_str, starts_with, string_eq_text, trim, trim_end_spec, trim_spec,
};
use crate::time::Duration;
use crate::watcher::{FallbackConfig, WatchTarget};

verus! {

/// Default service configuration path.
pub const DEFAULT_CONFIG_PATH: &'static str = "/etc/musicindex-live-publisher/config.toml";

/// A config field whose text is checked for control characters.
#[derive(Clone, Copy, Debug, PartialEq, Eq, Structural)]
pub enum CheckedField {
    TargetName,
    TargetEventId,
}

/// A required field of a fallback payment destination.
#[derive(Clone, Copy, Debug, PartialEq, Eq, Structural)]
pub enum DestinationField {
    Name,
    Type,
    Address,
    Split,
}

/// A config edit failure with a stable command-line meaning.
#[derive(Debug, PartialEq, Eq)]
pub enum ConfigEditError {
    TargetExists(String),
    TargetNotFound(String),
}

/// Why a configuration, or an edit of one, was refused.
#[derive(Debug, PartialEq, Eq)]
pub enum ConfigError {
    NoTargets,
    EmptyTargetName,
    DuplicateTarget { name: String },
    ControlCharacters { label: CheckedField },
    EmptyEventId { target: String },
    PlaceholderEventId { target: String },
    /// A stream delay the caller found unusable, with its explanation.
    StreamDelay { message: String },
    CredentialsDirectoryRequired { token_file: String },
    CredentialNameRequired { token_file: String },
    HomeRequired { token_file: String },
    TokenFileEmpty { path: String },
    FallbackModelTwice { target: String },
    FallbackDestinationsTwice { target: String },
    FallbackModelTypeEmpty { target: String },
    FallbackModelMethodEmpty { target: String },
    FallbackDestinationsEmpty { target: String },
    DestinationFieldMissing { target: String, index: usize, field: DestinationField },
    DestinationFieldEmpty { target: String, index: usize, field: DestinationField },
    DestinationAddressPlaceholder { target: String, index: usize },
    DestinationSplitNotDecimal { target: String, index: usize },
    DestinationSplitNotFinite { target: String, index: usize },
    /// A target stanza that is not valid TOML, with the parser's explanation.
    StanzaUnreadable { detail: String },
    StanzaNotLocated { name: String },
    Edit(ConfigEditError),
}

/// The meaning of a [`ConfigError`], with its texts taken by value.
pub enum ConfigFault {
    NoTargets,
    EmptyTargetName,
    DuplicateTarget(Seq<char>),
    ControlCharacters(CheckedField),
    EmptyEventId(Seq<char>),
    PlaceholderEventId(Seq<char>),
    StreamDelay(Seq<char>),
    CredentialsDirectoryRequired(Seq<char>),
    CredentialNameRequired(Seq<char>),
    HomeRequired(Seq<char>),
    TokenFileEmpty(Seq<char>),
    FallbackModelTwice(Seq<char>),
    FallbackDestinationsTwice(Seq<char>),
    FallbackModelTypeEmpty(Seq<char>),
    FallbackModelMethodEmpty(Seq<char>),
    FallbackDestinationsEmpty(Seq<char>),
    DestinationFieldMissing(Seq<char>, nat, DestinationField),
    DestinationFieldEmpty(Seq<char>, nat, DestinationField),
    DestinationAddressPlaceholder(Seq<char>, nat),
    DestinationSplitNotDecimal(Seq<char>, nat),
    DestinationSplitNotFinite(Seq<char>, nat),
    StanzaUnreadable(Seq<char>),
    StanzaNotLocated(Seq<char>),
    TargetExists(Seq<char>),
    TargetNotFound(Seq<char>),
}

impl View for ConfigError {
    type V = ConfigFault;

    open spec fn view(&self) -> ConfigFault {
        match self {
            ConfigError::NoTargets => ConfigFault::NoTargets,
            ConfigError::EmptyTargetName => ConfigFault::EmptyTargetName,
            ConfigError::DuplicateTarget { name } => ConfigFault::DuplicateTarget(name@),
            ConfigError::ControlCharacters { label } => ConfigFault::ControlCharacters(*label),
            ConfigError::EmptyEventId { target } => ConfigFault::EmptyEventId(target@),
            ConfigError::PlaceholderEventId { target } => ConfigFault::PlaceholderEventId(target@),
            ConfigError::StreamDelay { message } => ConfigFault::StreamDelay(message@),
            ConfigError::CredentialsDirectoryRequired { token_file } =>
                ConfigFault::CredentialsDirectoryRequired(token_file@),
            ConfigError::CredentialNameRequired { token_file } =>
                ConfigFault::CredentialNameRequired(token_file@),
            ConfigError::HomeRequired { token_file } => ConfigFault::HomeRequired(token_file@),
            ConfigError::TokenFileEmpty { path } => ConfigFault::TokenFileEmpty(path@),
            ConfigError::FallbackModelTwice { target } => ConfigFault::FallbackModelTwice(target@),
            ConfigError::FallbackDestinationsTwice { target } =>
                ConfigFault::FallbackDestinationsTwice(target@),
            ConfigError::FallbackModelTypeEmpty { target } =>
                ConfigFault::FallbackModelTypeEmpty(target@),
            ConfigError::FallbackModelMethodEmpty { target } =>
                ConfigFault::FallbackModelMethodEmpty(target@),
            ConfigError::FallbackDestinationsEmpty { target } =>
                ConfigFault::FallbackDestinationsEmpty(target@),
            ConfigError::DestinationFieldMissing { target, index, field } =>
                ConfigFault::DestinationFieldMissing(target@, *index as nat, *field),
            ConfigError::DestinationFieldEmpty { target, index, field } =>
                ConfigFault::DestinationFieldEmpty(target@, *index as nat, *field),
            ConfigError::DestinationAddressPlaceholder { target, index } =>
                ConfigFault::DestinationAddressPlaceholder(target@, *index as nat),
            ConfigError::DestinationSplitNotDecimal { target, index } =>
                ConfigFault::DestinationSplitNotDecimal(target@, *index as nat),
            ConfigError::DestinationSplitNotFinite { target, index } =>
                ConfigFault::DestinationSplitNotFinite(target@, *index as nat),
            ConfigError::StanzaUnreadable { detail } => ConfigFault::StanzaUnreadable(detail@),
            ConfigError::StanzaNotLocated { name } => ConfigFault::StanzaNotLocated(name@),
            ConfigError::Edit(ConfigEditError::TargetExists(name)) => ConfigFault::TargetExists(
                name@,
            ),
            ConfigError::Edit(ConfigEditError::TargetNotFound(name)) =>
                ConfigFault::TargetNotFound(name@),
        }
    }
}

/// Whether `r` failed with the fault `f`.
pub open spec fn fails_with<T>(r: Result<T, ConfigError>, f: ConfigFault) -> bool {
    r matches Err(e) && e@ == f
}

// ---------------------------------------------------------------------------
// Target names and event IDs

/// The example event IDs shipped in documentation and sample configs.
pub open spec fn is_event_id_placeholder(id: Seq<char>) -> bool {
    ||| id == "replace-with-provisioned-event-guid"@
    ||| id == "the-provisioned-event-guid"@
    ||| id == "<event_id>"@
}

/// Whether `event_id` still holds an example value rather than a provisioned one.
pub open spec fn is_example_event_id(event_id: Seq<char>) -> bool {
    let id = trim_spec(event_id);
    ||| is_event_id_placeholder(id)
    ||| has_substring(id, "replace-with"@)
    ||| has_substring(id, "provisioned"@)
}

/// Checks a target name: not blank, and free of control characters.
pub fn validate_target_name(name: &str) -> (r: Result<(), ConfigError>)
    ensures
        trim_spec(name@).len() == 0 ==> fails_with(r, ConfigFault::EmptyTargetName),
        trim_spec(name@).len() > 0 && has_control(name@) ==> fails_with(
            r,
            ConfigFault::ControlCharacters(CheckedField::TargetName),
        ),
        r is Ok <==> trim_spec(name@).len() > 0 && !has_control(name@),
{
    let trimmed = trim(name);
    if trimmed.as_str().is_empty() {
        return Err(ConfigError::EmptyTargetName);
    }
    validate_no_control_chars(CheckedField::TargetName, name)
}

/// Checks that `value` holds no control characters.
pub fn validate_no_control_chars(field: CheckedField, value: &str) -> (r: Result<(), ConfigError>)
    ensures
        has_control(value@) ==> fails_with(r, ConfigFault::ControlCharacters(field)),
        r is Ok <==> !has_control(value@),
{
    if contains_control(value) {
        return Err(ConfigError::ControlCharacters { label: field });
    }
    Ok(())
}

/// Checks a target's event ID: not blank, and not an example placeholder.
pub fn validate_event_id(target_name: &str, event_id: &str) -> (r: Result<(), ConfigError>)
    ensures
        trim_spec(event_id@).len() == 0 ==> fails_with(
            r,
            ConfigFault::EmptyEventId(target_name@),
        ),
        trim_spec(event_id@).len() > 0 && is_example_event_id(event_id@) ==> fails_with(
            r,
            ConfigFault::PlaceholderEventId(target_name@),
        ),
        r is Ok <==> trim_spec(event_id@).len() > 0 && !is_example_event_id(event_id@),
{
    let id = trim(event_id);
    if id.as_str().is_empty() {
        return Err(ConfigError::EmptyEventId { target: target_name.to_owned() });
    }
    let id = id.as_str();
    if string_eq_text(id, "replace-with-provisioned-event-guid") || string_eq_text(
        id,
        "the-provisioned-event-guid",
    ) || string_eq_text(id, "<event_id>") || contains(id, "replace-with") || contains(
        id,
        "provisioned",
    ) {
        return Err(ConfigError::PlaceholderEventId { target: target_name.to_owned() });
    }
    Ok(())
}

// ---------------------------------------------------------------------------
// Token files

/// The text of a path-valued result, with its error by meaning.
pub open spec fn text_result(r: Result<String, ConfigError>) -> Result<Seq<char>, ConfigFault> {
    match r {
        Ok(s) => Ok(s@),
        Err(e) => Err(e@),
    }
}

/// Where a configured `token_file` points.
///
/// `%d/NAME` names a systemd credential in `CREDENTIALS_DIRECTORY`; `~` and
/// `~/PATH` are relative to `HOME`; anything else is taken as written.
pub open spec fn token_path(token_file: Seq<char>, credentials_directory: Option<Seq<char>>, home_directory: Option<Seq<char>>) -> Result<Seq<char>, ConfigFault> {
    if is_prefix("%d/"@, token_file) {
        let rest = token_file.subrange("%d/"@.len() as int, token_file.len() as int);
        match credentials_directory {
            None => Err(ConfigFault::CredentialsDirectoryRequired(token_file)),
            Some(dir) => if rest.len() == 0 {
                Err(ConfigFault::CredentialNameRequired(token_file))
            } else {
                Ok(join_path(dir, rest))
            },
        }
    } else if token_file == "~"@ || is_prefix("~/"@, token_file) {
        match home_directory {
            None => Err(ConfigFault::HomeRequired(token_file)),
            Some(home) => Ok(join_path(
                home,
                if is_prefix("~/"@, token_file) {
                    token_file.subrange("~/"@.len() as int, token_file.len() as int)
                } else {
                    Seq::empty()
                },
            )),
        }
    } else {
        Ok(token_file)
    }
}

/// The optional text of an optional string slice.
pub open spec fn opt_str_text(o: Option<&str>) -> Option<Seq<char>> {
    match o {
        Some(s) => Some(s@),
        None => None,
    }
}

/// Resolves a configured `token_file` against the credentials and home directories.
pub fn resolve_token_file_path(
    token_file: &str,
    credentials_directory: Option<&str>,
    home_directory: Option<&str>,
) -> (r: Result<String, ConfigError>)
    ensures
        text_result(r) == token_path(
            token_file@,
            opt_str_text(credentials_directory),
            opt_str_text(home_directory),
        ),
{
    proof {
        reveal_strlit("%d/");
        reveal_strlit("~/");
    }
    if starts_with(token_file, "%d/") {
        let rest = text_after(token_file, 3);
        return match credentials_directory {
            None => Err(ConfigError::CredentialsDirectoryRequired { token_file: token_file.to_owned() }),
            Some(dir) => {
                if rest.as_str().is_empty() {
                    Err(ConfigError::CredentialNameRequired { token_file: token_file.to_owned() })
                } else {
                    Ok(path_join(dir, rest.as_str()))
                }
            },
        };
    }
    let under_home = starts_with(token_file, "~/");
    if string_eq_text(token_file, "~") || under_home {
        return match home_directory {
            None => Err(ConfigError::HomeRequired { token_file: token_file.to_owned() }),
            Some(home) => {
                let rest = if under_home {
                    text_after(token_file, 2)
                } else {
                    String::new()
                };
                Ok(path_join(home, rest.as_str()))
            },
        };
    }
    Ok(token_file.to_owned())
}

/// The broadcaster token held in a token file's text: the text without its
/// trailing whitespace, which must leave something.
pub fn token_from_file_text(path: &str, text: &str) -> (r: Result<String, ConfigError>)
    ensures
        text_result(r) == if trim_end_spec(text@).len() == 0 {
            Err::<Seq<char>, ConfigFault>(ConfigFault::TokenFileEmpty(path@))
        } else {
            Ok(trim_end_spec(text@))
        },
{
    let token = crate::text::trim_end(text);
    if token.as_str().is_empty() {
        return Err(ConfigError::TokenFileEmpty { path: path.to_owned() });
    }
    Ok(token)
}

// ---------------------------------------------------------------------------
// Fallback value blocks

/// The fallback title used when a target configures none.
pub const DEFAULT_DEAD_FALLBACK_TITLE: &'static str = "No V4V track playing";

/// The recipient name of the default dead fallback route.
pub const DEFAULT_DEAD_FALLBACK_RECIPIENT_NAME: &'static str = "No V4V payment route";

/// The Lightning address of the default dead fallback route: a reserved
/// domain, so nothing can ever be paid through it.
pub const DEFAULT_DEAD_FALLBACK_ADDRESS: &'static str = "no-v4v-track@example.invalid";

/// What parsing a destination's `split` text as a floating-point number gave.
#[derive(Clone, Copy, Debug, PartialEq, Eq, Structural)]
pub enum SplitCheck {
    FiniteDecimal,
    NotDecimal,
    NotFinite,
}

/// A configured fallback payment destination and how its split text parses.
#[derive(Debug)]
pub struct DestinationSpec {
    pub destination: LiveValueDestination,
    /// How `destination.split` parses; ignored when it is absent.
    pub split_check: SplitCheck,
}

/// The `[target.fallback.value]` table.
#[derive(Debug)]
pub struct FallbackValueSpec {
    pub model: Option<LiveValueModel>,
    pub destinations: Vec<DestinationSpec>,
}

/// A target's `fallback` table as written, before it is resolved.
#[derive(Debug)]
pub struct FallbackSpec {
    pub title: Option<String>,
    pub image: Option<String>,
    pub model: Option<LiveValueModel>,
    pub destinations: Vec<DestinationSpec>,
    pub value: Option<FallbackValueSpec>,
}

/// The model written under `value`, if any.
pub open spec fn value_model(f: FallbackSpec) -> Option<LiveValueModel> {
    match f.value {
        Some(v) => v.model,
        None => None,
    }
}

/// The destinations written under `value`.
pub open spec fn value_destinations(f: FallbackSpec) -> Seq<DestinationSpec> {
    match f.value {
        Some(v) => v.destinations@,
        None => Seq::empty(),
    }
}

/// The destinations a fallback pays: the direct ones when there are any,
/// else those under `value`.
pub open spec fn chosen_destinations(f: FallbackSpec) -> Seq<DestinationSpec> {
    if f.destinations@.len() > 0 {
        f.destinations@
    } else {
        value_destinations(f)
    }
}

/// The payment model a fallback uses: the direct one, else the one under
/// `value`, else Lightning keysend.
pub open spec fn chosen_model_is(f: FallbackSpec, m: LiveValueModel) -> bool {
    match f.model {
        Some(direct) => m == direct,
        None => match value_model(f) {
            Some(nested) => m == nested,
            None => is_default_fallback_model(m),
        },
    }
}

/// Lightning keysend with no suggested amount.
pub open spec fn is_default_fallback_model(m: LiveValueModel) -> bool {
    &&& m.kind@ == "lightning"@
    &&& m.method@ == "keysend"@
    &&& m.suggested is None
}

/// The default dead fallback value block: one Lightning-address route, paid
/// in full, to an address that cannot receive anything.
pub open spec fn is_dead_fallback_value(v: LiveValue) -> bool {
    &&& v.model.kind@ == "lightning"@
    &&& v.model.method@ == "lnaddress"@
    &&& v.model.suggested is None
    &&& v.destinations@.len() == 1
    &&& crate::text::opt_text(v.destinations@[0].kind) == Some("lnaddress"@)
    &&& crate::text::opt_text(v.destinations@[0].name) == Some(DEFAULT_DEAD_FALLBACK_RECIPIENT_NAME@)
    &&& crate::text::opt_text(v.destinations@[0].address) == Some(DEFAULT_DEAD_FALLBACK_ADDRESS@)
    &&& crate::text::opt_text(v.destinations@[0].split) == Some("100"@)
    &&& v.destinations@[0].custom_key is None
    &&& v.destinations@[0].custom_value is None
    &&& v.destinations@[0].fee is None
}

/// What is wrong with a fallback payment model, if anything.
pub open spec fn model_fault(target: Seq<char>, m: LiveValueModel) -> Option<ConfigFault> {
    if trim_spec(m.kind@).len() == 0 {
        Some(ConfigFault::FallbackModelTypeEmpty(target))
    } else if trim_spec(m.method@).len() == 0 {
        Some(ConfigFault::FallbackModelMethodEmpty(target))
    } else {
        None
    }
}

/// What is wrong with a required destination field, if anything.
pub open spec fn field_fault(target: Seq<char>, index: nat, field: DestinationField, value: Option<String>) -> Option<ConfigFault> {
    match value {
        None => Some(ConfigFault::DestinationFieldMissing(target, index, field)),
        Some(v) => if trim_spec(v@).len() == 0 {
            Some(ConfigFault::DestinationFieldEmpty(target, index, field))
        } else {
            None
        },
    }
}

/// The example Lightning destinations shipped in sample configs.
pub open spec fn is_address_placeholder(a: Seq<char>) -> bool {
    ||| a == "YOUR_LIGHTNING_DESTINATION"@
    ||| a == "YOUR_LIGHTNING_NODE_PUBKEY"@
    ||| a == "replace-with-lightning-destination"@
    ||| a == "03your-node-pubkey"@
    ||| a == "03..."@
}

/// Whether a destination address still holds an example value.
pub open spec fn is_example_address(address: Seq<char>) -> bool {
    let a = trim_spec(address);
    ||| is_address_placeholder(a)
    ||| has_substring(a, "YOUR_"@)
    ||| has_substring(a, "your-"@)
    ||| has_substring(a, "replace-with"@)
}

/// What is wrong with the destination at `index`, checked field by field in
/// the order name, type, address, split.
pub open spec fn destination_fault(target: Seq<char>, index: nat, d: DestinationSpec) -> Option<ConfigFault> {
    let dest = d.destination;
    if field_fault(target, index, DestinationField::Name, dest.name) is Some {
        field_fault(target, index, DestinationField::Name, dest.name)
    } else if field_fault(target, index, DestinationField::Type, dest.kind) is Some {
        field_fault(target, index, DestinationField::Type, dest.kind)
    } else if field_fault(target, index, DestinationField::Address, dest.address) is Some {
        field_fault(target, index, DestinationField::Address, dest.address)
    } else if is_example_address(dest.address->0@) {
        Some(ConfigFault::DestinationAddressPlaceholder(target, index))
    } else if field_fault(target, index, DestinationField::Split, dest.split) is Some {
        field_fault(target, index, DestinationField::Split, dest.split)
    } else {
        match d.split_check {
            SplitCheck::FiniteDecimal => None,
            SplitCheck::NotDecimal => Some(ConfigFault::DestinationSplitNotDecimal(target, index)),
            SplitCheck::NotFinite => Some(ConfigFault::DestinationSplitNotFinite(target, index)),
        }
    }
}

/// The first fault among `ds[from..]`.
pub open spec fn first_destination_fault(target: Seq<char>, ds: Seq<DestinationSpec>, from: int) -> Option<ConfigFault>
    decreases ds.len() - from,
{
    if from < 0 || from >= ds.len() {
        None
    } else if destination_fault(target, from as nat, ds[from]) is Some {
        destination_fault(target, from as nat, ds[from])
    } else {
        first_destination_fault(target, ds, from + 1)
    }
}

/// What is wrong with a list of fallback destinations, if anything.
pub open spec fn destinations_fault(target: Seq<char>, ds: Seq<DestinationSpec>) -> Option<ConfigFault> {
    if ds.len() == 0 {
        Some(ConfigFault::FallbackDestinationsEmpty(target))
    } else {
        first_destination_fault(target, ds, 0)
    }
}

/// Whether `r` reports exactly `fault`: success when it is `None`.
pub open spec fn reports<T>(r: Result<T, ConfigError>, fault: Option<ConfigFault>) -> bool {
    match fault {
        None => r is Ok,
        Some(f) => fails_with(r, f),
    }
}

/// The default dead fallback value block.
pub fn default_dead_fallback_value() -> (v: LiveValue)
    ensures
        is_dead_fallback_value(v),
{
    let destination = LiveValueDestination {
        kind: Some("lnaddress".to_owned()),
        name: Some(DEFAULT_DEAD_FALLBACK_RECIPIENT_NAME.to_owned()),
        address: Some(DEFAULT_DEAD_FALLBACK_ADDRESS.to_owned()),
        split: Some("100".to_owned()),
        custom_key: None,
        custom_value: None,
        fee: None,
    };
    let mut destinations = Vec::new();
    destinations.push(destination);
    LiveValue {
        model: LiveValueModel {
            kind: "lightning".to_owned(),
            method: "lnaddress".to_owned(),
            suggested: None,
        },
        destinations,
    }
}

/// The fallback published for a target without usable payment routes: the
/// given title (or the default one), the given image, and the dead value block.
pub fn default_dead_fallback(title: Option<String>, image: Option<String>) -> (f: FallbackConfig)
    ensures
        f.title@ == match title {
            Some(t) => t@,
            None => DEFAULT_DEAD_FALLBACK_TITLE@,
        },
        f.image == image,
        is_dead_fallback_value(f.value),
{
    let title = match title {
        Some(t) => t,
        None => DEFAULT_DEAD_FALLBACK_TITLE.to_owned(),
    };
    FallbackConfig { title, image, value: default_dead_fallback_value() }
}

/// Lightning keysend, the model of fallbacks that name none.
pub fn default_fallback_model() -> (m: LiveValueModel)
    ensures
        is_default_fallback_model(m),
{
    LiveValueModel { kind: "lightning".to_owned(), method: "keysend".to_owned(), suggested: None }
}

/// Checks that a fallback payment model names a type and a method.
pub fn validate_fallback_model(target_name: &str, model: &LiveValueModel) -> (r: Result<(), ConfigError>)
    ensures
        reports(r, model_fault(target_name@, *model)),
{
    if crate::text::is_blank(model.kind.as_str()) {
        proof { lemma_blank_trims_empty(model.kind@); }
        return Err(ConfigError::FallbackModelTypeEmpty { target: target_name.to_owned() });
    }
    proof { lemma_blank_trims_empty(model.kind@); }
    if crate::text::is_blank(model.method.as_str()) {
        proof { lemma_blank_trims_empty(model.method@); }
        return Err(ConfigError::FallbackModelMethodEmpty { target: target_name.to_owned() });
    }
    proof { lemma_blank_trims_empty(model.method@); }
    Ok(())
}

/// Text that is all whitespace trims to nothing, and only such text does.
pub proof fn lemma_blank_trims_empty(s: Seq<char>)
    ensures
        crate::text::all_whitespace(s) <==> trim_spec(s).len() == 0,
    decreases s.len(),
{
    lemma_trim_start_blank(s);
    let t = crate::text::trim_start_spec(s);
    if t.len() > 0 {
        lemma_trim_start_nonblank_head(s);
        lemma_trim_end_keeps_head(t);
    }
}

proof fn lemma_trim_start_blank(s: Seq<char>)
    ensures
        crate::text::all_whitespace(s) <==> crate::text::trim_start_spec(s).len() == 0,
    decreases s.len(),
{
    if s.len() > 0 {
        lemma_trim_start_blank(s.drop_first());
        if crate::text::is_whitespace_char(s[0]) {
            if crate::text::all_whitespace(s.drop_first()) {
                assert forall|i: int| 0 <= i < s.len() implies crate::text::is_whitespace_char(
                    #[trigger] s[i],
                ) by {
                    if i > 0 {
                        assert(s[i] == s.drop_first()[i - 1]);
                    }
                }
            } else {
                let j = choose|j: int|
                    0 <= j < s.drop_first().len() && !crate::text::is_whitespace_char(
                        #[trigger] s.drop_first()[j],
                    );
                assert(s[j + 1] == s.drop_first()[j]);
            }
        }
    }
}

proof fn lemma_trim_start_nonblank_head(s: Seq<char>)
    requires
        crate::text::trim_start_spec(s).len() > 0,
    ensures
        !crate::text::is_whitespace_char(crate::text::trim_start_spec(s)[0]),
    decreases s.len(),
{
    if s.len() > 0 && crate::text::is_whitespace_char(s[0]) {
        lemma_trim_start_nonblank_head(s.drop_first());
    }
}

proof fn lemma_trim_end_keeps_head(t: Seq<char>)
    requires
        t.len() > 0,
        !crate::text::is_whitespace_char(t[0]),
    ensures
        trim_end_spec(t).len() > 0,
    decreases t.len(),
{
    if t.len() > 1 && crate::text::is_whitespace_char(t.last()) {
        assert(t.drop_last()[0] == t[0]);
        lemma_trim_end_keeps_head(t.drop_last());
    }
}

/// Checks one required destination field: present and not blank.
pub fn validate_required_destination_field(
    target_name: &str,
    index: usize,
    field: DestinationField,
    value: &Option<String>,
) -> (r: Result<(), ConfigError>)
    ensures
        reports(r, field_fault(target_name@, index as nat, field, *value)),
{
    match value {
        None => Err(
            ConfigError::DestinationFieldMissing { target: target_name.to_owned(), index, field },
        ),
        Some(v) => {
            let blank = crate::text::is_blank(v.as_str());
            proof { lemma_blank_trims_empty(v@); }
            if blank {
                Err(
                    ConfigError::DestinationFieldEmpty {
                        target: target_name.to_owned(),
                        index,
                        field,
                    },
                )
            } else {
                Ok(())
            }
        },
    }
}

/// Checks that a destination address is not an example placeholder.
pub fn validate_destination_address(target_name: &str, index: usize, address: &str) -> (r: Result<
    (),
    ConfigError,
>)
    ensures
        is_example_address(address@) ==> fails_with(
            r,
            ConfigFault::DestinationAddressPlaceholder(target_name@, index as nat),
        ),
        r is Ok <==> !is_example_address(address@),
{
    let a = trim(address);
    let a = a.as_str();
    if string_eq_text(a, "YOUR_LIGHTNING_DESTINATION") || string_eq_text(
        a,
        "YOUR_LIGHTNING_NODE_PUBKEY",
    ) || string_eq_text(a, "replace-with-lightning-destination") || string_eq_text(
        a,
        "03your-node-pubkey",
    ) || string_eq_text(a, "03...") || contains(a, "YOUR_") || contains(a, "your-") || contains(
        a,
        "replace-with",
    ) {
        return Err(
            ConfigError::DestinationAddressPlaceholder { target: target_name.to_owned(), index },
        );
    }
    Ok(())
}

fn validate_destination(target_name: &str, index: usize, d: &DestinationSpec) -> (r: Result<
    (),
    ConfigError,
>)
    ensures
        reports(r, destination_fault(target_name@, index as nat, *d)),
{
    let dest = &d.destination;
    validate_required_destination_field(target_name, index, DestinationField::Name, &dest.name)?;
    validate_required_destination_field(target_name, index, DestinationField::Type, &dest.kind)?;
    validate_required_destination_field(
        target_name,
        index,
        DestinationField::Address,
        &dest.address,
    )?;
    match &dest.address {
        Some(address) => validate_destination_address(target_name, index, address.as_str())?,
        None => {},
    }
    validate_required_destination_field(target_name, index, DestinationField::Split, &dest.split)?;
    match d.split_check {
        SplitCheck::FiniteDecimal => Ok(()),
        SplitCheck::NotDecimal => Err(
            ConfigError::DestinationSplitNotDecimal { target: target_name.to_owned(), index },
        ),
        SplitCheck::NotFinite => Err(
            ConfigError::DestinationSplitNotFinite { target: target_name.to_owned(), index },
        ),
    }
}

/// Checks a fallback's payment destinations: there must be at least one, and
/// each must name a recipient, a route type, a real address and a finite
/// decimal split. The first problem found is reported.
pub fn validate_fallback_destinations(target_name: &str, destinations: &Vec<DestinationSpec>) -> (r:
    Result<(), ConfigError>)
    ensures
        reports(r, destinations_fault(target_name@, destinations@)),
{
    if destinations.len() == 0 {
        return Err(ConfigError::FallbackDestinationsEmpty { target: target_name.to_owned() });
    }
    let mut i: usize = 0;
    while i < destinations.len()
        invariant
            0 <= i <= destinations@.len(),
            destinations@.len() > 0,
            first_destination_fault(target_name@, destinations@, 0) == first_destination_fault(
                target_name@,
                destinations@,
                i as int,
            ),
        decreases destinations.len() - i,
    {
        let checked = validate_destination(target_name, i, &destinations[i]);
        if checked.is_err() {
            return checked;
        }
        i = i + 1;
    }
    Ok(())
}

/// The outcome `r` of resolving the fallback table `fallback` of target `target`.
pub open spec fn fallback_outcome(target: Seq<char>, fallback: FallbackSpec, r: Result<FallbackConfig, ConfigError>) -> bool {
    let models_twice = fallback.model is Some && value_model(fallback) is Some;
    let destinations_twice = fallback.destinations@.len() > 0 && value_destinations(fallback).len() > 0;
    if models_twice {
        fails_with(r, ConfigFault::FallbackModelTwice(target))
    } else if destinations_twice {
        fails_with(r, ConfigFault::FallbackDestinationsTwice(target))
    } else {
        match r {
            Err(e) => chosen_destinations(fallback).len() > 0 && exists|m: LiveValueModel|
                #[trigger] chosen_model_is(fallback, m) && if model_fault(target, m) is Some {
                    Some(e@) == model_fault(target, m)
                } else {
                    Some(e@) == destinations_fault(target, chosen_destinations(fallback))
                },
            Ok(f) => {
                &&& f.image == fallback.image
                &&& f.title@ == match fallback.title {
                    Some(t) => t@,
                    None => DEFAULT_DEAD_FALLBACK_TITLE@,
                }
                &&& if chosen_destinations(fallback).len() == 0 {
                    is_dead_fallback_value(f.value)
                } else {
                    &&& chosen_model_is(fallback, f.value.model)
                    &&& model_fault(target, f.value.model) is None
                    &&& destinations_fault(target, chosen_destinations(fallback)) is None
                    &&& f.value.destinations@ == chosen_destinations(fallback).map_values(
                        |d: DestinationSpec| d.destination,
                    )
                }
            },
        }
    }
}

/// Resolves a target's fallback table.
///
/// The model and the destinations may each be written directly or under
/// `value`, not both. Without destinations the target gets the dead fallback
/// with the configured title and image; otherwise the model (keysend when
/// none is named) and every destination must be valid.
pub fn resolve_fallback(target_name: &str, fallback: &FallbackSpec) -> (r: Result<
    FallbackConfig,
    ConfigError,
>)
    ensures
        fallback_outcome(target_name@, *fallback, r),
{
    let title = match &fallback.title {
        Some(t) => t.clone(),
        None => DEFAULT_DEAD_FALLBACK_TITLE.to_owned(),
    };
    let image = crate::dropfile::clone_opt_string(&fallback.image);
    let (nested_model, nested_destinations): (Option<&LiveValueModel>, Option<&Vec<DestinationSpec>>) =
        match &fallback.value {
        Some(v) => (
            match &v.model {
                Some(m) => Some(m),
                None => None,
            },
            Some(&v.destinations),
        ),
        None => (None, None),
    };
    if fallback.model.is_some() && nested_model.is_some() {
        return Err(ConfigError::FallbackModelTwice { target: target_name.to_owned() });
    }
    let has_direct = fallback.destinations.len() > 0;
    let has_nested = match nested_destinations {
        Some(ds) => ds.len() > 0,
        None => false,
    };
    if has_direct && has_nested {
        return Err(ConfigError::FallbackDestinationsTwice { target: target_name.to_owned() });
    }
    let chosen: &Vec<DestinationSpec> = if has_direct {
        &fallback.destinations
    } else {
        match nested_destinations {
            Some(ds) => ds,
            None => &fallback.destinations,
        }
    };
    proof {
        assert(chosen@ == chosen_destinations(*fallback) || chosen@.len() == 0);
    }
    if chosen.len() == 0 {
        return Ok(default_dead_fallback(Some(title), image));
    }
    let model = match &fallback.model {
        Some(m) => m.clone(),
        None => match nested_model {
            Some(m) => m.clone(),
            None => default_fallback_model(),
        },
    };
    proof {
        assert(chosen_model_is(*fallback, model));
        assert(chosen@ == chosen_destinations(*fallback));
    }
    let checked = validate_fallback_model(target_name, &model);
    if checked.is_err() {
        return Err(checked.unwrap_err());
    }
    let checked = validate_fallback_destinations(target_name, chosen);
    if checked.is_err() {
        return Err(checked.unwrap_err());
    }
    let mut destinations: Vec<LiveValueDestination> = Vec::new();
    let mut i: usize = 0;
    while i < chosen.len()
        invariant
            i <= chosen@.len(),
            destinations@ == chosen@.take(i as int).map_values(|d: DestinationSpec| d.destination),
        decreases chosen.len() - i,
    {
        destinations.push(chosen[i].destination.clone());
        i = i + 1;
        assert(destinations@ =~= chosen@.take(i as int).map_values(
            |d: DestinationSpec| d.destination,
        ));
    }
    assert(chosen@.take(chosen@.len() as int) =~= chosen@);
    Ok(FallbackConfig { title, image, value: LiveValue { model, destinations } })
}

// ---------------------------------------------------------------------------
// Targets and the whole configuration

/// A target's stream delay as the caller found it: a usable duration, or a
/// refusal with its explanation (not a finite number, negative, or above
/// the ceiling).
#[derive(Debug)]
pub enum StreamDelaySetting {
    Accepted(Duration),
    Refused(String),
}

/// A `[[target]]` table as written, before it is resolved.
#[derive(Debug)]
pub struct TargetSpec {
    pub name: String,
    pub event_id: String,
    pub token_file: String,
    pub stream_delay: StreamDelaySetting,
    pub fallback: Option<FallbackSpec>,
}

/// A resolved target whose broadcaster token has not been read yet.
#[derive(Debug)]
pub struct PendingTarget {
    pub name: String,
    pub event_id: String,
    /// Where the token file is, after credential and home expansion.
    pub token_file: String,
    pub stream_delay: Duration,
    pub fallback: FallbackConfig,
}

/// A configured publishing target with its loaded broadcaster token.
#[derive(PartialEq)]
pub struct PublisherTarget {
    pub name: String,
    pub event_id: String,
    pub token_file: String,
    pub token: String,
    pub stream_delay: Duration,
    pub fallback: FallbackConfig,
}

/// Runtime service configuration.
#[derive(PartialEq)]
pub struct PublisherConfig {
    pub watch_dir: String,
    pub endpoint: String,
    pub targets: Vec<PublisherTarget>,
}

/// CLI overrides that take precedence over config fields.
#[derive(Debug, Default, PartialEq)]
pub struct ConfigOverrides {
    pub watch_dir: Option<String>,
    pub endpoint: Option<String>,
}

/// The texts of a list of names.
pub open spec fn names_view(names: Seq<String>) -> Seq<Seq<char>> {
    names.map_values(|n: String| n@)
}

/// The first problem with a target before its fallback and token file are
/// looked at: its name, whether the name is taken, its event ID and its
/// stream delay.
pub open spec fn target_fault(t: TargetSpec, taken: Seq<Seq<char>>) -> Option<ConfigFault> {
    if trim_spec(t.name@).len() == 0 {
        Some(ConfigFault::EmptyTargetName)
    } else if taken.contains(t.name@) {
        Some(ConfigFault::DuplicateTarget(t.name@))
    } else if trim_spec(t.event_id@).len() == 0 {
        Some(ConfigFault::EmptyEventId(t.name@))
    } else if is_example_event_id(t.event_id@) {
        Some(ConfigFault::PlaceholderEventId(t.name@))
    } else {
        match t.stream_delay {
            StreamDelaySetting::Refused(m) => Some(ConfigFault::StreamDelay(m@)),
            StreamDelaySetting::Accepted(_) => None,
        }
    }
}

/// The outcome `r` of resolving the fallback of target `t`: its own table,
/// or the dead fallback when it has none.
pub open spec fn target_fallback_outcome(t: TargetSpec, r: Result<FallbackConfig, ConfigError>) -> bool {
    match t.fallback {
        Some(f) => fallback_outcome(t.name@, f, r),
        None => (r matches Ok(fc) && fc.title@ == DEFAULT_DEAD_FALLBACK_TITLE@ && fc.image is None
            && is_dead_fallback_value(fc.value)),
    }
}

/// Why a target publishes the dead fallback, for the warning that says so:
/// it has no fallback table, or its fallback names no destination. `None`
/// when the target's fallback pays its own destinations.
pub fn dead_fallback_reason(target: &TargetSpec) -> (r: Option<&'static str>)
    ensures
        target.fallback is None ==> (r matches Some(m) && m@ == "target has no fallback configuration"@),
        match target.fallback {
            Some(f) => if chosen_destinations(f).len() == 0 {
                r matches Some(m) && m@ == "target fallback has no payment destinations"@
            } else {
                r is None
            },
            None => true,
        },
{
    match &target.fallback {
        None => Some("target has no fallback configuration"),
        Some(f) => {
            let nested = match &f.value {
                Some(v) => v.destinations.len(),
                None => 0,
            };
            if f.destinations.len() == 0 && nested == 0 {
                Some("target fallback has no payment destinations")
            } else {
                None
            }
        },
    }
}

/// The first name, from position `i` on, that repeats a name listed
/// before it.
pub open spec fn repeat_from(names: Seq<Seq<char>>, i: int) -> Option<Seq<char>>
    decreases names.len() - i,
{
    if i < 0 || i >= names.len() {
        None
    } else if names.take(i).contains(names[i]) {
        Some(names[i])
    } else {
        repeat_from(names, i + 1)
    }
}

/// The first listed name that repeats an earlier one, if any.
pub open spec fn first_repeat(names: Seq<Seq<char>>) -> Option<Seq<char>> {
    repeat_from(names, 0)
}

/// Checks that no target name is listed twice; the first repeated name is
/// the error.
pub fn check_target_names(names: &Vec<String>) -> (r: Result<(), ConfigError>)
    ensures
        match first_repeat(names_view(names@)) {
            Some(n) => fails_with(r, ConfigFault::DuplicateTarget(n)),
            None => r is Ok,
        },
{
    let ghost nv = names_view(names@);
    let mut seen: Vec<String> = Vec::new();
    let mut i: usize = 0;
    while i < names.len()
        invariant
            i <= names@.len(),
            nv == names_view(names@),
            names_view(seen@) == nv.take(i as int),
            first_repeat(nv) == repeat_from(nv, i as int),
        decreases names.len() - i,
    {
        assert(nv[i as int] == names@[i as int]@);
        if has_name(&seen, names[i].as_str()) {
            return Err(ConfigError::DuplicateTarget { name: names[i].clone() });
        }
        let ghost before = seen@;
        seen.push(names[i].clone());
        proof {
            assert(names_view(seen@) =~= names_view(before).push(nv[i as int]));
            assert(nv.take(i + 1) =~= nv.take(i as int).push(nv[i as int]));
        }
        i = i + 1;
    }
    Ok(())
}

fn has_name(names: &Vec<String>, name: &str) -> (b: bool)
    ensures
        b == names_view(names@).contains(name@),
{
    let mut i: usize = 0;
    while i < names.len()
        invariant
            i <= names@.len(),
            forall|j: int| 0 <= j < i ==> names@[j]@ != name@,
        decreases names.len() - i,
    {
        if string_eq_text(names[i].as_str(), name) {
            assert(names_view(names@)[i as int] == name@);
            return true;
        }
        i = i + 1;
    }
    proof {
        if names_view(names@).contains(name@) {
            let j = choose|j: int| 0 <= j < names_view(names@).len() && names_view(names@)[j]
                == name@;
            assert(names@[j]@ == name@);
        }
    }
    false
}

/// Resolves one target table, recording its name in `seen`.
///
/// Checks run in order: the name, whether an earlier target took it, the
/// event ID, the stream delay, the fallback table, and the token file path.
/// Once the name is checked it is recorded, whatever follows.
pub fn resolve_target(
    target: &TargetSpec,
    seen: &mut Vec<String>,
    credentials_directory: Option<&str>,
    home_directory: Option<&str>,
) -> (r: Result<PendingTarget, ConfigError>)
    ensures
        trim_spec(target.name@).len() == 0 || names_view(old(seen)@).contains(target.name@)
            ==> final(seen)@ == old(seen)@,
        trim_spec(target.name@).len() > 0 && !names_view(old(seen)@).contains(target.name@)
            ==> names_view(final(seen)@) == names_view(old(seen)@).push(target.name@),
        target_fault(*target, names_view(old(seen)@)) matches Some(f) ==> fails_with(r, f),
        target_fault(*target, names_view(old(seen)@)) is None ==> match r {
            Err(e) => target_fallback_outcome(*target, Err(e)) || (exists|fc: FallbackConfig|
                target_fallback_outcome(*target, Ok(fc))) && token_path(
                target.token_file@,
                opt_str_text(credentials_directory),
                opt_str_text(home_directory),
            ) == Err::<Seq<char>, ConfigFault>(e@),
            Ok(p) => {
                &&& p.name == target.name
                &&& p.event_id == target.event_id
                &&& target.stream_delay == StreamDelaySetting::Accepted(p.stream_delay)
                &&& target_fallback_outcome(*target, Ok(p.fallback))
                &&& token_path(
                    target.token_file@,
                    opt_str_text(credentials_directory),
                    opt_str_text(home_directory),
                ) == Ok::<Seq<char>, ConfigFault>(p.token_file@)
            },
        },
{
    let name = target.name.as_str();
    let blank = crate::text::is_blank(name);
    proof { lemma_blank_trims_empty(target.name@); }
    if blank {
        return Err(ConfigError::EmptyTargetName);
    }
    if has_name(seen, name) {
        return Err(ConfigError::DuplicateTarget { name: target.name.clone() });
    }
    seen.push(target.name.clone());
    proof {
        assert(names_view(seen@) =~= names_view(old(seen)@).push(target.name@));
    }
    validate_event_id(name, target.event_id.as_str())?;
    let stream_delay = match &target.stream_delay {
        StreamDelaySetting::Accepted(d) => *d,
        StreamDelaySetting::Refused(m) => {
            return Err(ConfigError::StreamDelay { message: m.clone() });
        },
    };
    let fallback = match &target.fallback {
        Some(f) => {
            let resolved = resolve_fallback(name, f);
            match resolved {
                Ok(fc) => fc,
                Err(e) => {
                    return Err(e);
                },
            }
        },
        None => default_dead_fallback(None, None),
    };
    let token_file = match resolve_token_file_path(
        target.token_file.as_str(),
        credentials_directory,
        home_directory,
    ) {
        Ok(p) => p,
        Err(e) => {
            assert(target_fallback_outcome(*target, Ok(fallback)));
            return Err(e);
        },
    };
    Ok(
        PendingTarget {
            name: target.name.clone(),
            event_id: target.event_id.clone(),
            token_file,
            stream_delay,
            fallback,
        },
    )
}

impl PendingTarget {
    /// Completes the target with the text read from its token file: the token
    /// is that text without trailing whitespace, and must not be empty.
    pub fn load_token(self, token_text: &str) -> (r: Result<PublisherTarget, ConfigError>)
        ensures
            trim_end_spec(token_text@).len() == 0 ==> fails_with(
                r,
                ConfigFault::TokenFileEmpty(self.token_file@),
            ),
            trim_end_spec(token_text@).len() > 0 ==> (r matches Ok(t) && t.token@ == trim_end_spec(
                token_text@,
            ) && t.name == self.name && t.event_id == self.event_id && t.token_file
                == self.token_file && t.stream_delay == self.stream_delay && t.fallback
                == self.fallback),
    {
        let token = token_from_file_text(self.token_file.as_str(), token_text)?;
        Ok(
            PublisherTarget {
                name: self.name,
                event_id: self.event_id,
                token_file: self.token_file,
                token,
                stream_delay: self.stream_delay,
                fallback: self.fallback,
            },
        )
    }
}

/// Assembles the service configuration from its resolved targets, letting
/// the command-line overrides replace the configured watch directory and
/// endpoint. A configuration needs at least one target.
pub fn resolve_config(
    watch_dir: String,
    endpoint: String,
    targets: Vec<PublisherTarget>,
    overrides: ConfigOverrides,
) -> (r: Result<PublisherConfig, ConfigError>)
    ensures
        targets@.len() == 0 ==> fails_with(r, ConfigFault::NoTargets),
        targets@.len() > 0 ==> (r matches Ok(c) && c.targets@ == targets@ && c.watch_dir == match overrides.watch_dir {
            Some(w) => w,
            None => watch_dir,
        } && c.endpoint == match overrides.endpoint {
            Some(e) => e,
            None => endpoint,
        }),
{
    if targets.len() == 0 {
        return Err(ConfigError::NoTargets);
    }
    let watch_dir = match overrides.watch_dir {
        Some(w) => w,
        None => watch_dir,
    };
    let endpoint = match overrides.endpoint {
        Some(e) => e,
        None => endpoint,
    };
    Ok(PublisherConfig { watch_dir, endpoint, targets })
}

impl PublisherTarget {
    /// Returns the watcher-facing target data.
    pub fn watch_target(&self) -> (w: WatchTarget)
        ensures
            w.name == self.name,
            w.event_guid == self.event_id,
            w.fallback.title == self.fallback.title,
            w.fallback.image == self.fallback.image,
            w.fallback.value@ == self.fallback.value@,
    {
        WatchTarget {
            name: self.name.clone(),
            event_guid: self.event_id.clone(),
            fallback: FallbackConfig {
                title: self.fallback.title.clone(),
                image: crate::dropfile::clone_opt_string(&self.fallback.image),
                value: self.fallback.value.clone(),
            },
        }
    }
}

// ---------------------------------------------------------------------------
// Editing `[[target]]` stanzas line by line

/// A target stanza that can be added to the publisher configuration.
#[derive(Debug, PartialEq)]
pub struct TargetConfigEdit {
    pub name: String,
    pub event_id: String,
    pub token_file: String,
    /// The stream delay in seconds, as its decimal text.
    pub stream_delay_secs: Option<String>,
}

/// The kind of TOML table a header line opens.
#[derive(Clone, Copy, Debug, PartialEq, Eq, Structural)]
pub enum TableHeaderKind {
    /// `[[target]]`: a new target stanza.
    Target,
    /// `[target.x]` or `[[target.x]]`: a table inside the current target.
    TargetChild,
    /// Any other table, which ends the current target stanza.
    Other,
}

/// Lines `[start, end)` of a configuration that make up one target stanza.
#[derive(Clone, Copy, Debug, PartialEq, Eq, Structural)]
pub struct TargetStanzaSpan {
    pub start: usize,
    pub end: usize,
}

/// The TOML rendering of `s` as a string value, as `toml::Value::String(s).to_string()` writes it.
pub uninterp spec fn toml_string(s: Seq<char>) -> Seq<char>;

/// What reading a stanza as a TOML document gives: the `name` of its first
/// `[[target]]` entry when there is one, or the parser's error text.
pub uninterp spec fn toml_stanza_target_name(stanza: Seq<char>) -> Result<Option<Seq<char>>, Seq<char>>;

/// Calls `toml::Value::String(..).to_string()`, which renders `value` as a TOML string.
#[verifier::external_body]
fn toml_string_text(value: &str) -> (r: String)
    ensures
        r@ == toml_string(value@),
{
    toml::Value::String(value.to_owned()).to_string()
}

/// Calls `toml::from_str::<toml::Value>` on a stanza and reads
/// `target[0].name` from the document it parses.
#[verifier::external_body]
fn stanza_target_name(stanza: &str) -> (r: Result<Option<String>, String>)
    ensures
        match (r, toml_stanza_target_name(stanza@)) {
            (Ok(Some(n)), Ok(Some(m))) => n@ == m,
            (Ok(None), Ok(None)) => true,
            (Err(e), Err(m)) => e@ == m,
            _ => false,
        },
{
    match toml::from_str::<toml::Value>(stanza) {
        Ok(value) => Ok(
            value.get("target").and_then(toml::Value::as_array).and_then(|targets| targets.first())
                .and_then(|target| target.get("name")).and_then(toml::Value::as_str).map(
                str::to_owned,
            ),
        ),
        Err(error) => Err(error.to_string()),
    }
}

/// The lines of `s[start..]`, each with its newline, scanning from `k`
/// (`str::split_inclusive('\n')`).
pub open spec fn lines_from(s: Seq<char>, start: int, k: int) -> Seq<Seq<char>>
    decreases s.len() - k,
{
    if k >= s.len() {
        if 0 <= start < s.len() {
            seq![s.subrange(start, s.len() as int)]
        } else {
            Seq::empty()
        }
    } else if k < 0 {
        Seq::empty()
    } else if s[k] == '\n' {
        seq![s.subrange(start, k + 1)] + lines_from(s, k + 1, k + 1)
    } else {
        lines_from(s, start, k + 1)
    }
}

/// The lines of `s`, each keeping its newline; a last line without one is kept too.
pub open spec fn lines_of(s: Seq<char>) -> Seq<Seq<char>> {
    lines_from(s, 0, 0)
}

/// The texts of `lines`, end to end.
pub open spec fn joined(lines: Seq<Seq<char>>) -> Seq<char>
    decreases lines.len(),
{
    if lines.len() == 0 {
        Seq::empty()
    } else {
        joined(lines.drop_last()) + lines.last()
    }
}

/// Splits `text` into lines that keep their newlines.
pub fn split_preserving_newlines(text: &str) -> (lines: Vec<String>)
    ensures
        texts(lines@) == lines_of(text@),
{
    let chars = crate::text::chars_of(text);
    let mut lines: Vec<String> = Vec::new();
    let mut start: usize = 0;
    let mut k: usize = 0;
    while k < chars.len()
        invariant
            start <= k <= chars@.len(),
            chars@ == text@,
            texts(lines@) + lines_from(text@, start as int, k as int) == lines_of(text@),
        decreases chars.len() - k,
    {
        if chars[k] == '\n' {
            let ghost before = texts(lines@);
            let line = crate::text::string_from_range(&chars, start, k + 1);
            lines.push(line);
            proof {
                assert(texts(lines@) =~= before.push(line@));
                assert(before + lines_from(text@, start as int, k as int) =~= texts(lines@)
                    + lines_from(text@, (k + 1) as int, (k + 1) as int));
            }
            start = k + 1;
        }
        k = k + 1;
    }
    if start < chars.len() {
        let ghost before = texts(lines@);
        let line = crate::text::string_from_range(&chars, start, chars.len());
        lines.push(line);
        proof {
            assert(texts(lines@) =~= before.push(line@));
            assert(before + lines_from(text@, start as int, k as int) =~= texts(lines@));
        }
    } else {
        assert(texts(lines@) + lines_from(text@, start as int, k as int) =~= texts(lines@));
    }
    lines
}

/// The text of `s` before its first `c` (all of `s` when there is none).
pub open spec fn before_char(s: Seq<char>, c: char) -> Seq<char>
    decreases s.len(),
{
    if s.len() == 0 || s[0] == c {
        Seq::empty()
    } else {
        seq![s[0]] + before_char(s.drop_first(), c)
    }
}

/// The kind of table `line` opens, or `None` when it is not a header line.
///
/// A header line starts, after leading whitespace, with `[`; whatever follows
/// a `#` is a comment.
pub open spec fn header_kind(line: Seq<char>) -> Option<TableHeaderKind> {
    let t = crate::text::trim_start_spec(line);
    if !(t.len() > 0 && t[0] == '[') {
        None
    } else {
        let h = trim_spec(before_char(t, '#'));
        if h == "[[target]]"@ {
            Some(TableHeaderKind::Target)
        } else if (is_prefix("[target."@, h) && crate::text::is_suffix("]"@, h)) || (is_prefix(
            "[[target."@,
            h,
        ) && crate::text::is_suffix("]]"@, h)) {
            Some(TableHeaderKind::TargetChild)
        } else {
            Some(TableHeaderKind::Other)
        }
    }
}

/// Whether `line` is blank or a comment.
pub open spec fn is_blank_or_comment_line(line: Seq<char>) -> bool {
    trim_spec(line).len() == 0 || is_prefix("#"@, trim_spec(line))
}

fn text_before_char(s: &str, c: char) -> (r: String)
    ensures
        r@ == before_char(s@, c),
{
    let chars = crate::text::chars_of(s);
    let mut i: usize = 0;
    assert(chars@.skip(0) =~= chars@);
    assert(Seq::<char>::empty() + before_char(chars@, c) =~= before_char(chars@, c));
    assert(chars@.take(0) =~= Seq::<char>::empty());
    while i < chars.len() && chars[i] != c
        invariant
            i <= chars@.len(),
            chars@ == s@,
            before_char(s@, c) == chars@.take(i as int) + before_char(chars@.skip(i as int), c),
        decreases chars.len() - i,
    {
        proof {
            let rest = chars@.skip(i as int);
            assert(rest.drop_first() =~= chars@.skip(i + 1));
            assert(chars@.take(i + 1) =~= chars@.take(i as int) + seq![rest[0]]);
        }
        i = i + 1;
    }
    proof {
        let rest = chars@.skip(i as int);
        assert(before_char(rest, c) =~= Seq::<char>::empty());
        assert(chars@.take(i as int) + Seq::<char>::empty() =~= chars@.take(i as int));
        assert(chars@.take(i as int) =~= chars@.subrange(0, i as int));
    }
    crate::text::string_from_range(&chars, 0, i)
}

/// The kind of table a configuration line opens, if it is a header line.
pub fn table_header_kind(line: &str) -> (k: Option<TableHeaderKind>)
    ensures
        k == header_kind(line@),
{
    let trimmed = crate::text::trim_start(line);
    let tc = crate::text::chars_of(trimmed.as_str());
    if !(tc.len() > 0 && tc[0] == '[') {
        return None;
    }
    let before = text_before_char(trimmed.as_str(), '#');
    let header = trim(before.as_str());
    let header = header.as_str();
    if string_eq_text(header, "[[target]]") {
        return Some(TableHeaderKind::Target);
    }
    if (starts_with(header, "[target.") && crate::text::ends_with(header, "]")) || (starts_with(
        header,
        "[[target.",
    ) && crate::text::ends_with(header, "]]")) {
        return Some(TableHeaderKind::TargetChild);
    }
    Some(TableHeaderKind::Other)
}

/// Whether a configuration line is blank or a comment.
pub fn is_blank_or_comment(line: &str) -> (b: bool)
    ensures
        b == is_blank_or_comment_line(line@),
{
    let trimmed = trim(line);
    trimmed.as_str().is_empty() || starts_with(trimmed.as_str(), "#")
}

/// Where a stanza spanning `[start, end)` really ends: before any run of
/// blank and comment lines at its end.
pub open spec fn trimmed_end(lines: Seq<Seq<char>>, start: int, end: int) -> int
    decreases end - start,
{
    if end > start && is_blank_or_comment_line(lines[end - 1]) {
        trimmed_end(lines, start, end - 1)
    } else {
        end
    }
}

/// Moves `end` back over blank and comment lines, never before `start`.
pub fn trim_span_end(lines: &Vec<String>, start: usize, end: usize) -> (e: usize)
    requires
        start <= end <= lines@.len(),
    ensures
        e == trimmed_end(texts(lines@), start as int, end as int),
{
    let mut e = end;
    while e > start && is_blank_or_comment(lines[e - 1].as_str())
        invariant
            start <= e <= end <= lines@.len(),
            trimmed_end(texts(lines@), start as int, e as int) == trimmed_end(
                texts(lines@),
                start as int,
                end as int,
            ),
        decreases e - start,
    {
        e = e - 1;
    }
    e
}

/// Whether a line opens a table that ends the current target stanza.
pub open spec fn ends_stanza(line: Seq<char>) -> bool {
    header_kind(line) == Some(TableHeaderKind::Target) || header_kind(line) == Some(
        TableHeaderKind::Other,
    )
}

/// The first line at or after `j` that ends a target stanza, or the line count.
pub open spec fn boundary_from(lines: Seq<Seq<char>>, j: int) -> int
    decreases lines.len() - j,
{
    if j >= lines.len() || j < 0 {
        lines.len() as int
    } else if ends_stanza(lines[j]) {
        j
    } else {
        boundary_from(lines, j + 1)
    }
}

/// The indices of the `[[target]]` header lines among the first `k` lines.
pub open spec fn target_headers(lines: Seq<Seq<char>>, k: int) -> Seq<int>
    decreases k,
{
    if k <= 0 {
        Seq::empty()
    } else if header_kind(lines[k - 1]) == Some(TableHeaderKind::Target) {
        target_headers(lines, k - 1).push(k - 1)
    } else {
        target_headers(lines, k - 1)
    }
}

/// The span of the stanza opened by the `[[target]]` header at line `t`: up
/// to the next header that ends it (or the end of the text), less trailing
/// blank and comment lines.
pub open spec fn stanza_span(lines: Seq<Seq<char>>, t: int) -> (int, int) {
    (t, trimmed_end(lines, t, boundary_from(lines, t + 1)))
}

proof fn lemma_boundary_skip(lines: Seq<Seq<char>>, j: int, b: int)
    requires
        0 <= j <= b <= lines.len(),
        forall|i: int| j <= i < b ==> !ends_stanza(#[trigger] lines[i]),
        b == lines.len() || ends_stanza(lines[b]),
    ensures
        boundary_from(lines, j) == b,
    decreases b - j,
{
    if j < b {
        lemma_boundary_skip(lines, j + 1, b);
    }
}

/// The target stanzas of a configuration, in order: one for each
/// `[[target]]` header line.
pub fn target_stanza_spans(lines: &Vec<String>) -> (spans: Vec<TargetStanzaSpan>)
    ensures
        spans@.len() == target_headers(texts(lines@), lines@.len() as int).len(),
        forall|m: int| 0 <= m < spans@.len() ==> ((#[trigger] spans@[m]).start as int, spans@[m].end as int)
            == stanza_span(texts(lines@), target_headers(texts(lines@), lines@.len() as int)[m]),
{
    let ghost ls = texts(lines@);
    let mut spans: Vec<TargetStanzaSpan> = Vec::new();
    let mut current: Option<usize> = None;
    let mut k: usize = 0;
    while k < lines.len()
        invariant
            k <= lines@.len(),
            ls == texts(lines@),
            ls.len() == lines@.len(),
            match current {
                None => spans@.len() == target_headers(ls, k as int).len(),
                Some(t) => {
                    &&& spans@.len() + 1 == target_headers(ls, k as int).len()
                    &&& target_headers(ls, k as int).last() == t
                    &&& t < k
                    &&& forall|i: int| t < i < k ==> !ends_stanza(#[trigger] ls[i])
                },
            },
            forall|m: int| 0 <= m < spans@.len() ==> ((#[trigger] spans@[m]).start as int, spans@[m].end as int)
                == stanza_span(ls, target_headers(ls, k as int)[m]),
        decreases lines.len() - k,
    {
        let ghost old_spans = spans@;
        let ghost old_headers = target_headers(ls, k as int);
        assert(ls[k as int] == lines@[k as int]@);
        let kind = table_header_kind(lines[k].as_str());
        match kind {
            Some(TableHeaderKind::Target) => {
                match current {
                    Some(start) => {
                        proof {
                            lemma_boundary_skip(ls, start + 1, k as int);
                        }
                        let end = trim_span_end(lines, start, k);
                        spans.push(TargetStanzaSpan { start, end });
                    },
                    None => {},
                }
                current = Some(k);
            },
            Some(TableHeaderKind::Other) => {
                match current {
                    Some(start) => {
                        proof {
                            lemma_boundary_skip(ls, start + 1, k as int);
                        }
                        let end = trim_span_end(lines, start, k);
                        spans.push(TargetStanzaSpan { start, end });
                    },
                    None => {},
                }
                current = None;
            },
            _ => {},
        }
        proof {
            let nh = target_headers(ls, k + 1);
            if header_kind(ls[k as int]) == Some(TableHeaderKind::Target) {
                assert(nh == old_headers.push(k as int));
            } else {
                assert(nh == old_headers);
            }
            assert forall|m: int| 0 <= m < spans@.len() implies ((#[trigger] spans@[m]).start as int,
                spans@[m].end as int) == stanza_span(ls, nh[m]) by {
                if m < old_spans.len() {
                    assert(spans@[m] == old_spans[m]);
                    assert(nh[m] == old_headers[m]);
                }
            }
        }
        k = k + 1;
    }
    match current {
        Some(start) => {
            proof {
                lemma_boundary_skip(ls, start + 1, lines@.len() as int);
            }
            let ghost old_spans = spans@;
            let end = trim_span_end(lines, start, lines.len());
            spans.push(TargetStanzaSpan { start, end });
            proof {
                let nh = target_headers(ls, k as int);
                assert forall|m: int| 0 <= m < spans@.len() implies ((#[trigger] spans@[m]).start as int,
                    spans@[m].end as int) == stanza_span(ls, nh[m]) by {
                    if m < old_spans.len() {
                        assert(spans@[m] == old_spans[m]);
                    }
                }
            }
        },
        None => {},
    }
    spans
}

/// The text of lines `[a, b)`, end to end.
pub fn concat_lines(lines: &Vec<String>, a: usize, b: usize) -> (r: String)
    requires
        a <= b <= lines@.len(),
    ensures
        r@ == joined(texts(lines@).subrange(a as int, b as int)),
{
    let ghost ls = texts(lines@);
    let mut out = String::new();
    let mut i = a;
    assert(ls.subrange(a as int, a as int) =~= Seq::<Seq<char>>::empty());
    while i < b
        invariant
            a <= i <= b <= lines@.len(),
            ls == texts(lines@),
            out@ == joined(ls.subrange(a as int, i as int)),
        decreases b - i,
    {
        push_str(&mut out, lines[i].as_str());
        proof {
            let next = ls.subrange(a as int, i + 1);
            assert(next.drop_last() =~= ls.subrange(a as int, i as int));
            assert(next.last() == lines@[i as int]@);
        }
        i = i + 1;
    }
    out
}

/// Searching the stanzas from the `m`th on for the one whose first target
/// is named `name`: its index, none, or the first stanza that is not TOML.
pub open spec fn stanza_search(ls: Seq<Seq<char>>, headers: Seq<int>, name: Seq<char>, m: int) -> Result<Option<int>, ConfigFault>
    decreases headers.len() - m,
{
    if m < 0 || m >= headers.len() {
        Ok(None)
    } else {
        let (a, b) = stanza_span(ls, headers[m]);
        match toml_stanza_target_name(joined(ls.subrange(a, b))) {
            Err(e) => Err(ConfigFault::StanzaUnreadable(e)),
            Ok(found) => if found == Some(name) {
                Ok(Some(m))
            } else {
                stanza_search(ls, headers, name, m + 1)
            },
        }
    }
}

/// The span of the stanza for target `name` in a configuration with lines
/// `ls` that lists the targets `listed`: an error when a stanza before it is
/// not TOML or when a listed target has no stanza of its own.
pub open spec fn named_stanza(ls: Seq<Seq<char>>, listed: Seq<Seq<char>>, name: Seq<char>) -> Result<Option<(int, int)>, ConfigFault> {
    let headers = target_headers(ls, ls.len() as int);
    match stanza_search(ls, headers, name, 0) {
        Err(f) => Err(f),
        Ok(Some(m)) => Ok(Some(stanza_span(ls, headers[m]))),
        Ok(None) => if listed.contains(name) {
            Err(ConfigFault::StanzaNotLocated(name))
        } else {
            Ok(None)
        },
    }
}

/// Finds the stanza of the target named `name`.
///
/// `listed_names` are the target names the whole configuration declares; a
/// listed target whose stanza cannot be found is an error.
pub fn target_stanza_named(lines: &Vec<String>, listed_names: &Vec<String>, name: &str) -> (r:
    Result<Option<TargetStanzaSpan>, ConfigError>)
    ensures
        match (r, named_stanza(texts(lines@), names_view(listed_names@), name@)) {
            (Ok(Some(span)), Ok(Some(expected))) => (span.start as int, span.end as int) == expected,
            (Ok(None), Ok(None)) => true,
            (Err(e), Err(f)) => e@ == f,
            _ => false,
        },
{
    let ghost ls = texts(lines@);
    let ghost headers = target_headers(ls, ls.len() as int);
    let spans = target_stanza_spans(lines);
    assert(ls.len() == lines@.len());
    let mut m: usize = 0;
    while m < spans.len()
        invariant
            m <= spans@.len(),
            ls == texts(lines@),
            ls.len() == lines@.len(),
            spans@.len() == headers.len(),
            headers == target_headers(ls, ls.len() as int),
            forall|j: int| 0 <= j < spans@.len() ==> ((#[trigger] spans@[j]).start as int, spans@[j].end as int)
                == stanza_span(ls, headers[j]),
            stanza_search(ls, headers, name@, 0) == stanza_search(ls, headers, name@, m as int),
        decreases spans.len() - m,
    {
        let span = spans[m];
        proof {
            assert((span.start as int, span.end as int) == stanza_span(ls, headers[m as int]));
            lemma_span_within(ls, headers, m as int);
        }
        let stanza = concat_lines(lines, span.start, span.end);
        match stanza_target_name(stanza.as_str()) {
            Err(detail) => {
                return Err(ConfigError::StanzaUnreadable { detail });
            },
            Ok(found) => {
                let matched = match &found {
                    Some(n) => string_eq_text(n.as_str(), name),
                    None => false,
                };
                if matched {
                    return Ok(Some(span));
                }
            },
        }
        m = m + 1;
    }
    if has_name(listed_names, name) {
        return Err(ConfigError::StanzaNotLocated { name: name.to_owned() });
    }
    Ok(None)
}

/// Every stanza span lies within the lines, in order.
pub proof fn lemma_span_within(ls: Seq<Seq<char>>, headers: Seq<int>, m: int)
    requires
        headers == target_headers(ls, ls.len() as int),
        0 <= m < headers.len(),
    ensures
        0 <= stanza_span(ls, headers[m]).0 <= stanza_span(ls, headers[m]).1 <= ls.len(),
{
    lemma_headers_in_range(ls, ls.len() as int);
    let t = headers[m];
    lemma_boundary_in_range(ls, t + 1);
    lemma_trimmed_end_in_range(ls, t, boundary_from(ls, t + 1));
}

proof fn lemma_headers_in_range(ls: Seq<Seq<char>>, k: int)
    requires
        0 <= k <= ls.len(),
    ensures
        forall|m: int| 0 <= m < target_headers(ls, k).len() ==> 0 <= #[trigger] target_headers(ls, k)[m] < k,
    decreases k,
{
    if k > 0 {
        lemma_headers_in_range(ls, k - 1);
        let prev = target_headers(ls, k - 1);
        assert forall|m: int| 0 <= m < target_headers(ls, k).len() implies 0
            <= #[trigger] target_headers(ls, k)[m] < k by {
            if m < prev.len() {
                assert(target_headers(ls, k)[m] == prev[m]);
            }
        }
    }
}

proof fn lemma_boundary_in_range(ls: Seq<Seq<char>>, j: int)
    requires
        0 <= j,
    ensures
        j <= boundary_from(ls, j) <= ls.len() || (j > ls.len() && boundary_from(ls, j) == ls.len()),
    decreases ls.len() - j,
{
    if j < ls.len() && !ends_stanza(ls[j]) {
        lemma_boundary_in_range(ls, j + 1);
    }
}

proof fn lemma_trimmed_end_in_range(ls: Seq<Seq<char>>, start: int, end: int)
    requires
        start <= end,
    ensures
        start <= trimmed_end(ls, start, end) <= end,
    decreases end - start,
{
    if end > start && is_blank_or_comment_line(ls[end - 1]) {
        lemma_trimmed_end_in_range(ls, start, end - 1);
    }
}

/// The configuration text without the lines `[a, b)`.
pub open spec fn without_lines(ls: Seq<Seq<char>>, a: int, b: int) -> Seq<char> {
    joined(ls.take(a)) + joined(ls.skip(b))
}

/// Removes the stanza of target `name` from configuration text `text`,
/// whose declared target names are `listed_names`. Everything outside the
/// stanza is kept as it was, comments and blank lines included.
pub fn remove_target_from_config_text(text: &str, listed_names: &Vec<String>, name: &str) -> (r:
    Result<String, ConfigError>)
    ensures
        first_repeat(names_view(listed_names@)) matches Some(n) ==> fails_with(r, ConfigFault::DuplicateTarget(n)),
        first_repeat(names_view(listed_names@)) is None ==> match named_stanza(
            lines_of(text@),
            names_view(listed_names@),
            name@,
        ) {
            Err(f) => fails_with(r, f),
            Ok(None) => fails_with(r, ConfigFault::TargetNotFound(name@)),
            Ok(Some((a, b))) => r matches Ok(edited) && edited@ == without_lines(lines_of(text@), a, b),
        },
{
    check_target_names(listed_names)?;
    let lines = split_preserving_newlines(text);
    let found = target_stanza_named(&lines, listed_names, name)?;
    let span = match found {
        Some(span) => span,
        None => {
            return Err(
                ConfigError::Edit(ConfigEditError::TargetNotFound(name.to_owned())),
            );
        },
    };
    proof {
        let ls = texts(lines@);
        let headers = target_headers(ls, ls.len() as int);
        lemma_named_stanza_within(ls, names_view(listed_names@), name@);
        assert(ls.subrange(0, span.start as int) =~= ls.take(span.start as int));
        assert(ls.subrange(span.end as int, ls.len() as int) =~= ls.skip(span.end as int));
    }
    let mut edited = concat_lines(&lines, 0, span.start);
    let tail = concat_lines(&lines, span.end, lines.len());
    push_str(&mut edited, tail.as_str());
    Ok(edited)
}

/// A located stanza lies within the lines.
pub proof fn lemma_named_stanza_within(ls: Seq<Seq<char>>, listed: Seq<Seq<char>>, name: Seq<char>)
    ensures
        named_stanza(ls, listed, name) matches Ok(Some((a, b))) ==> 0 <= a <= b <= ls.len(),
{
    let headers = target_headers(ls, ls.len() as int);
    lemma_search_in_range(ls, headers, name, 0);
    match stanza_search(ls, headers, name, 0) {
        Ok(Some(m)) => {
            lemma_span_within(ls, headers, m);
        },
        _ => {},
    }
}

proof fn lemma_search_in_range(ls: Seq<Seq<char>>, headers: Seq<int>, name: Seq<char>, m: int)
    requires
        0 <= m,
    ensures
        stanza_search(ls, headers, name, m) matches Ok(Some(j)) ==> m <= j < headers.len(),
    decreases headers.len() - m,
{
    if m < headers.len() {
        lemma_search_in_range(ls, headers, name, m + 1);
    }
}

/// The stanza written for a target edit.
pub open spec fn rendered_stanza(edit: TargetConfigEdit) -> Seq<char> {
    "[[target]]\n"@ + "name = "@ + toml_string(edit.name@) + "\n"@ + "event_id = "@ + toml_string(
        edit.event_id@,
    ) + "\n"@ + "token_file = "@ + toml_string(edit.token_file@) + "\n"@ + match edit.stream_delay_secs {
        Some(d) => "stream_delay_secs = "@ + d@ + "\n"@,
        None => Seq::empty(),
    }
}

/// Renders the `[[target]]` stanza for an edit.
pub fn render_target_config_stanza(edit: &TargetConfigEdit) -> (stanza: String)
    ensures
        stanza@ == rendered_stanza(*edit),
{
    let mut stanza = String::new();
    push_str(&mut stanza, "[[target]]\n");
    push_str(&mut stanza, "name = ");
    push_str(&mut stanza, toml_string_text(edit.name.as_str()).as_str());
    push_str(&mut stanza, "\n");
    push_str(&mut stanza, "event_id = ");
    push_str(&mut stanza, toml_string_text(edit.event_id.as_str()).as_str());
    push_str(&mut stanza, "\n");
    push_str(&mut stanza, "token_file = ");
    push_str(&mut stanza, toml_string_text(edit.token_file.as_str()).as_str());
    push_str(&mut stanza, "\n");
    let ghost before = stanza@;
    match &edit.stream_delay_secs {
        Some(d) => {
            push_str(&mut stanza, "stream_delay_secs = ");
            push_str(&mut stanza, d.as_str());
            push_str(&mut stanza, "\n");
        },
        None => {
            assert(stanza@ =~= before + Seq::<char>::empty());
        },
    }
    stanza
}

/// `text` with `stanza` appended after a blank line; an empty text becomes
/// the stanza alone, and a last line without a newline gets one first.
pub open spec fn appended(text: Seq<char>, stanza: Seq<char>) -> Seq<char> {
    if text.len() == 0 {
        stanza
    } else if text.last() == '\n' {
        text + "\n"@ + stanza
    } else {
        text + "\n"@ + "\n"@ + stanza
    }
}

/// Appends a stanza to configuration text.
pub fn append_target_config_stanza(text: &str, stanza: &str) -> (r: String)
    ensures
        r@ == appended(text@, stanza@),
{
    if text.is_empty() {
        return stanza.to_owned();
    }
    let mut edited = text.to_owned();
    let newline_ended = crate::text::ends_with(text, "\n");
    proof {
        reveal_strlit("\n");
        let last = text@.subrange(text@.len() - 1, text@.len() as int);
        assert(last[0] == text@.last());
        if text@.last() == '\n' {
            assert(last =~= "\n"@);
        }
    }
    if !newline_ended {
        push_str(&mut edited, "\n");
    }
    push_str(&mut edited, "\n");
    push_str(&mut edited, stanza);
    edited
}

/// Checks the parts of a target edit that need no file system or float
/// arithmetic: the name, the event ID's characters, and the event ID.
pub fn validate_target_config_edit(edit: &TargetConfigEdit) -> (r: Result<(), ConfigError>)
    ensures
        r is Ok <==> trim_spec(edit.name@).len() > 0 && !has_control(edit.name@) && !has_control(
            edit.event_id@,
        ) && trim_spec(edit.event_id@).len() > 0 && !is_example_event_id(edit.event_id@),
        trim_spec(edit.name@).len() == 0 ==> fails_with(r, ConfigFault::EmptyTargetName),
        trim_spec(edit.name@).len() > 0 && has_control(edit.name@) ==> fails_with(
            r,
            ConfigFault::ControlCharacters(CheckedField::TargetName),
        ),
        trim_spec(edit.name@).len() > 0 && !has_control(edit.name@) && has_control(edit.event_id@)
            ==> fails_with(r, ConfigFault::ControlCharacters(CheckedField::TargetEventId)),
        trim_spec(edit.name@).len() > 0 && !has_control(edit.name@) && !has_control(edit.event_id@)
            && trim_spec(edit.event_id@).len() == 0 ==> fails_with(
            r,
            ConfigFault::EmptyEventId(edit.name@),
        ),
        trim_spec(edit.name@).len() > 0 && !has_control(edit.name@) && !has_control(edit.event_id@)
            && trim_spec(edit.event_id@).len() > 0 && is_example_event_id(edit.event_id@)
            ==> fails_with(r, ConfigFault::PlaceholderEventId(edit.name@)),
{
    validate_target_name(edit.name.as_str())?;
    validate_no_control_chars(CheckedField::TargetEventId, edit.event_id.as_str())?;
    validate_event_id(edit.name.as_str(), edit.event_id.as_str())
}

/// Adds the stanza for `edit` to configuration text `text`, whose declared
/// target names are `listed_names`.
///
/// A new target is appended. An existing one is refused unless `replace` is
/// set; then its stanza is replaced in place and everything else is kept.
pub fn add_target_to_config_text(
    text: &str,
    listed_names: &Vec<String>,
    edit: &TargetConfigEdit,
    replace: bool,
) -> (r: Result<String, ConfigError>)
    ensures
        first_repeat(names_view(listed_names@)) matches Some(n) ==> fails_with(r, ConfigFault::DuplicateTarget(n)),
        first_repeat(names_view(listed_names@)) is None && names_view(listed_names@).contains(edit.name@) && !replace
            ==> fails_with(r, ConfigFault::TargetExists(edit.name@)),
        first_repeat(names_view(listed_names@)) is None && !names_view(listed_names@).contains(edit.name@) ==> (
        r matches Ok(edited) && edited@ == appended(text@, rendered_stanza(*edit))),
        first_repeat(names_view(listed_names@)) is None && names_view(listed_names@).contains(edit.name@) && replace
            ==> match named_stanza(
            lines_of(text@),
            names_view(listed_names@),
            edit.name@,
        ) {
            Err(f) => fails_with(r, f),
            Ok(None) => fails_with(r, ConfigFault::TargetNotFound(edit.name@)),
            Ok(Some((a, b))) => r matches Ok(edited) && edited@ == joined(lines_of(text@).take(a))
                + rendered_stanza(*edit) + joined(lines_of(text@).skip(b)),
        },
{
    check_target_names(listed_names)?;
    let exists = has_name(listed_names, edit.name.as_str());
    if exists && !replace {
        return Err(ConfigError::Edit(ConfigEditError::TargetExists(edit.name.clone())));
    }
    let stanza = render_target_config_stanza(edit);
    if exists {
        let lines = split_preserving_newlines(text);
        let found = target_stanza_named(&lines, listed_names, edit.name.as_str())?;
        let span = match found {
            Some(span) => span,
            None => {
                return Err(ConfigError::Edit(ConfigEditError::TargetNotFound(edit.name.clone())));
            },
        };
        proof {
            let ls = texts(lines@);
            lemma_named_stanza_within(ls, names_view(listed_names@), edit.name@);
            assert(ls.subrange(0, span.start as int) =~= ls.take(span.start as int));
            assert(ls.subrange(span.end as int, ls.len() as int) =~= ls.skip(span.end as int));
        }
        let mut edited = concat_lines(&lines, 0, span.start);
        push_str(&mut edited, stanza.as_str());
        let tail = concat_lines(&lines, span.end, lines.len());
        push_str(&mut edited, tail.as_str());
        return Ok(edited);
    }
    Ok(append_target_config_stanza(text, stanza.as_str()))
}

/// The name of a destination field in messages.
pub open spec fn field_text(field: DestinationField) -> Seq<char> {
    match field {
        DestinationField::Name => "name"@,
        DestinationField::Type => "type"@,
        DestinationField::Address => "address"@,
        DestinationField::Split => "split"@,
    }
}

/// The label of a checked field in messages.
pub open spec fn label_text(label: CheckedField) -> Seq<char> {
    match label {
        CheckedField::TargetName => "target name"@,
        CheckedField::TargetEventId => "target event_id"@,
    }
}

fn field_name(field: DestinationField) -> (s: &'static str)
    ensures
        s@ == field_text(field),
{
    match field {
        DestinationField::Name => "name",
        DestinationField::Type => "type",
        DestinationField::Address => "address",
        DestinationField::Split => "split",
    }
}

fn label_name(label: CheckedField) -> (s: &'static str)
    ensures
        s@ == label_text(label),
{
    match label {
        CheckedField::TargetName => "target name",
        CheckedField::TargetEventId => "target event_id",
    }
}

/// The message that explains a configuration fault.
pub open spec fn fault_message(f: ConfigFault) -> Seq<char> {
    match f {
        ConfigFault::NoTargets => "config must define at least one target"@,
        ConfigFault::EmptyTargetName => "target name must not be empty"@,
        ConfigFault::DuplicateTarget(name) => "duplicate target name "@ + name,
        ConfigFault::ControlCharacters(label) => label_text(label) + " must not contain control characters"@,
        ConfigFault::EmptyEventId(target) => "target "@ + target + " event_id must not be empty"@,
        ConfigFault::PlaceholderEventId(target) => "target "@ + target + " event_id is still an example placeholder; run provision and paste the returned event_id"@,
        ConfigFault::StreamDelay(message) => message,
        ConfigFault::CredentialsDirectoryRequired(token_file) => "token_file "@ + crate::text::debug_text(token_file) + " requires CREDENTIALS_DIRECTORY"@,
        ConfigFault::CredentialNameRequired(token_file) => "token_file "@ + crate::text::debug_text(token_file) + " must name a credential"@,
        ConfigFault::HomeRequired(token_file) => "token_file "@ + crate::text::debug_text(token_file) + " requires HOME"@,
        ConfigFault::TokenFileEmpty(path) => "token file "@ + path + " is empty"@,
        ConfigFault::FallbackModelTwice(target) => "target "@ + target + " fallback must define model either directly or under value, not both"@,
        ConfigFault::FallbackDestinationsTwice(target) => "target "@ + target + " fallback must define destinations either directly or under value, not both"@,
        ConfigFault::FallbackModelTypeEmpty(target) => "target "@ + target + " fallback value model type must not be empty"@,
        ConfigFault::FallbackModelMethodEmpty(target) => "target "@ + target + " fallback value model method must not be empty"@,
        ConfigFault::FallbackDestinationsEmpty(target) => "target "@ + target + " fallback destinations must not be empty"@,
        ConfigFault::DestinationFieldMissing(target, index, field) => "target "@ + target + " fallback destination "@ + decimal(index) + " missing "@ + field_text(field),
        ConfigFault::DestinationFieldEmpty(target, index, field) => "target "@ + target + " fallback destination "@ + decimal(index) + " "@ + field_text(field) + " must not be empty"@,
        ConfigFault::DestinationAddressPlaceholder(target, index) => "target "@ + target + " fallback destination "@ + decimal(index) + " address is still an example placeholder"@,
        ConfigFault::DestinationSplitNotDecimal(target, index) => "target "@ + target + " fallback destination "@ + decimal(index) + " split must be decimal"@,
        ConfigFault::DestinationSplitNotFinite(target, index) => "target "@ + target + " fallback destination "@ + decimal(index) + " split must be finite"@,
        ConfigFault::StanzaUnreadable(_) => "parse target stanza"@,
        ConfigFault::StanzaNotLocated(name) => "could not locate target stanza "@ + name,
        ConfigFault::TargetExists(name) => "target "@ + name + " already exists"@,
        ConfigFault::TargetNotFound(name) => "target "@ + name + " not found"@,
    }
}

impl ConfigError {
    /// The message that explains this error.
    pub fn message(&self) -> (m: String)
        ensures
            m@ == fault_message(self@),
    {
        match self {
            ConfigError::NoTargets => {
            let mut out = String::new();
            push_str(&mut out, "config must define at least one target");
            out
        },
    ConfigError::EmptyTargetName => {
            let mut out = String::new();
            push_str(&mut out, "target name must not be empty");
            out
        },
    ConfigError::DuplicateTarget { name } => {
            let mut out = String::new();
            push_str(&mut out, "duplicate target name ");
            push_str(&mut out, name.as_str());
            out
        },
    ConfigError::ControlCharacters { label } => {
            let mut out = String::new();
            push_str(&mut out, label_name(*label));
            push_str(&mut out, " must not contain control characters");
            out
        },
    ConfigError::EmptyEventId { target } => {
            let mut out = String::new();
            push_str(&mut out, "target ");
            push_str(&mut out, target.as_str());
            push_str(&mut out, " event_id must not be empty");
            out
        },
    ConfigError::PlaceholderEventId { target } => {
            let mut out = String::new();
            push_str(&mut out, "target ");
            push_str(&mut out, target.as_str());
            push_str(&mut out, " event_id is still an example placeholder; run provision and paste the returned event_id");
            out
        },
    ConfigError::StreamDelay { message } => {
            let mut out = String::new();
            push_str(&mut out, message.as_str());
            out
        },
    ConfigError::CredentialsDirectoryRequired { token_file } => {
            let mut out = String::new();
            push_str(&mut out, "token_file ");
            push_str(&mut out, crate::text::debug_quoted(token_file.as_str()).as_str());
            push_str(&mut out, " requires CREDENTIALS_DIRECTORY");
            out
        },
    ConfigError::CredentialNameRequired { token_file } => {
            let mut out = String::new();
            push_str(&mut out, "token_file ");
            push_str(&mut out, crate::text::debug_quoted(token_file.as_str()).as_str());
            push_str(&mut out, " must name a credential");
            out
        },
    ConfigError::HomeRequired { token_file } => {
            let mut out = String::new();
            push_str(&mut out, "token_file ");
            push_str(&mut out, crate::text::debug_quoted(token_file.as_str()).as_str());
            push_str(&mut out, " requires HOME");
            out
        },
    ConfigError::TokenFileEmpty { path } => {
            let mut out = String::new();
            push_str(&mut out, "token file ");
            push_str(&mut out, path.as_str());
            push_str(&mut out, " is empty");
            out
        },
    ConfigError::FallbackModelTwice { target } => {
            let mut out = String::new();
            push_str(&mut out, "target ");
            push_str(&mut out, target.as_str());
            push_str(&mut out, " fallback must define model either directly or under value, not both");
            out
        },
    ConfigError::FallbackDestinationsTwice { target } => {
            let mut out = String::new();
            push_str(&mut out, "target ");
            push_str(&mut out, target.as_str());
            push_str(&mut out, " fallback must define destinations either directly or under value, not both");
            out
        },
    ConfigError::FallbackModelTypeEmpty { target } => {
            let mut out = String::new();
            push_str(&mut out, "target ");
            push_str(&mut out, target.as_str());
            push_str(&mut out, " fallback value model type must not be empty");
            out
        },
    ConfigError::FallbackModelMethodEmpty { target } => {
            let mut out = String::new();
            push_str(&mut out, "target ");
            push_str(&mut out, target.as_str());
            push_str(&mut out, " fallback value model method must not be empty");
            out
        },
    ConfigError::FallbackDestinationsEmpty { target } => {
            let mut out = String::new();
            push_str(&mut out, "target ");
            push_str(&mut out, target.as_str());
            push_str(&mut out, " fallback destinations must not be empty");
            out
        },
    ConfigError::DestinationFieldMissing { target, index, field } => {
            let mut out = String::new();
            push_str(&mut out, "target ");
            push_str(&mut out, target.as_str());
            push_str(&mut out, " fallback destination ");
            push_str(&mut out, decimal_text(*index as u64).as_str());
            push_str(&mut out, " missing ");
            push_str(&mut out, field_name(*field));
            out
        },
    ConfigError::DestinationFieldEmpty { target, index, field } => {
            let mut out = String::new();
            push_str(&mut out, "target ");
            push_str(&mut out, target.as_str());
            push_str(&mut out, " fallback destination ");
            push_str(&mut out, decimal_text(*index as u64).as_str());
            push_str(&mut out, " ");
            push_str(&mut out, field_name(*field));
            push_str(&mut out, " must not be empty");
            out
        },
    ConfigError::DestinationAddressPlaceholder { target, index } => {
            let mut out = String::new();
            push_str(&mut out, "target ");
            push_str(&mut out, target.as_str());
            push_str(&mut out, " fallback destination ");
            push_str(&mut out, decimal_text(*index as u64).as_str());
            push_str(&mut out, " address is still an example placeholder");
            out
        },
    ConfigError::DestinationSplitNotDecimal { target, index } => {
            let mut out = String::new();
            push_str(&mut out, "target ");
            push_str(&mut out, target.as_str());
            push_str(&mut out, " fallback destination ");
            push_str(&mut out, decimal_text(*index as u64).as_str());
            push_str(&mut out, " split must be decimal");
            out
        },
    ConfigError::DestinationSplitNotFinite { target, index } => {
            let mut out = String::new();
            push_str(&mut out, "target ");
            push_str(&mut out, target.as_str());
            push_str(&mut out, " fallback destination ");
            push_str(&mut out, decimal_text(*index as u64).as_str());
            push_str(&mut out, " split must be finite");
            out
        },
    ConfigError::StanzaUnreadable { detail: _ } => {
            let mut out = String::new();
            push_str(&mut out, "parse target stanza");
            out
        },
    ConfigError::StanzaNotLocated { name } => {
            let mut out = String::new();
            push_str(&mut out, "could not locate target stanza ");
            push_str(&mut out, name.as_str());
            out
        },
    ConfigError::Edit(ConfigEditError::TargetExists(name)) => {
            let mut out = String::new();
            push_str(&mut out, "target ");
            push_str(&mut out, name.as_str());
            push_str(&mut out, " already exists");
            out
        },
    ConfigError::Edit(ConfigEditError::TargetNotFound(name)) => {
            let mut out = String::new();
            push_str(&mut out, "target ");
            push_str(&mut out, name.as_str());
            push_str(&mut out, " not found");
            out
        },
        }
    }
}

impl ConfigEditError {
    /// The message that explains this error.
    pub fn message(&self) -> (m: String)
        ensures
            m@ == match self {
                ConfigEditError::TargetExists(name) => "target "@ + name@ + " already exists"@,
                ConfigEditError::TargetNotFound(name) => "target "@ + name@ + " not found"@,
            },
    {
        let mut out = String::new();
        match self {
            ConfigEditError::TargetExists(name) => {
                push_str(&mut out, "target ");
                push_str(&mut out, name.as_str());
                push_str(&mut out, " already exists");
            },
            ConfigEditError::TargetNotFound(name) => {
                push_str(&mut out, "target ");
                push_str(&mut out, name.as_str());
                push_str(&mut out, " not found");
            },
        }
        out
    }
}

proof fn lemma_joined_append(x: Seq<Seq<char>>, y: Seq<Seq<char>>)
    ensures
        joined(x + y) == joined(x) + joined(y),
    decreases y.len(),
{
    if y.len() == 0 {
        assert(x + y =~= x);
        assert(joined(x) + Seq::<char>::empty() =~= joined(x));
    } else {
        lemma_joined_append(x, y.drop_last());
        assert((x + y).drop_last() =~= x + y.drop_last());
        assert((x + y).last() == y.last());
        assert(joined(x) + joined(y.drop_last()) + y.last() =~= joined(x) + (joined(y.drop_last())
            + y.last()));
    }
}

proof fn lemma_joined_single(line: Seq<char>)
    ensures
        joined(seq![line]) == line,
{
    assert(seq![line].drop_last() =~= Seq::<Seq<char>>::empty());
    assert(joined(Seq::<Seq<char>>::empty()) == Seq::<char>::empty());
    assert(seq![line].last() == line);
    assert(Seq::<char>::empty() + line =~= line);
}

proof fn lemma_lines_from_rejoin(s: Seq<char>, start: int, k: int)
    requires
        0 <= start <= k <= s.len(),
        forall|i: int| start <= i < k ==> s[i] != '\n',
    ensures
        joined(lines_from(s, start, k)) == s.subrange(start, s.len() as int),
    decreases s.len() - k,
{
    if k >= s.len() {
        if start < s.len() {
            lemma_joined_single(s.subrange(start, s.len() as int));
        } else {
            assert(s.subrange(start, s.len() as int) =~= Seq::<char>::empty());
        }
    } else if s[k] == '\n' {
        lemma_lines_from_rejoin(s, k + 1, k + 1);
        let head = s.subrange(start, k + 1);
        let rest = lines_from(s, k + 1, k + 1);
        lemma_joined_append(seq![head], rest);
        lemma_joined_single(head);
        assert(head + s.subrange(k + 1, s.len() as int) =~= s.subrange(start, s.len() as int));
    } else {
        lemma_lines_from_rejoin(s, start, k + 1);
    }
}

/// Splitting text into lines loses nothing: the lines, end to end, are the text.
pub proof fn law_lines_rejoin(text: Seq<char>)
    ensures
        joined(lines_of(text)) == text,
{
    lemma_lines_from_rejoin(text, 0, 0);
    assert(text.subrange(0, text.len() as int) =~= text);
}

/// Cutting the lines `[a, b)` out of a configuration leaves exactly the text
/// before and after them: the text is what comes before, the cut lines, and
/// what comes after, end to end.
pub proof fn law_cut_keeps_surroundings(text: Seq<char>, a: int, b: int)
    requires
        0 <= a <= b <= lines_of(text).len(),
    ensures
        text == joined(lines_of(text).take(a)) + joined(lines_of(text).subrange(a, b)) + joined(
            lines_of(text).skip(b),
        ),
{
    let ls = lines_of(text);
    law_lines_rejoin(text);
    assert(ls =~= ls.take(a) + ls.subrange(a, b) + ls.skip(b));
    lemma_joined_append(ls.take(a) + ls.subrange(a, b), ls.skip(b));
    lemma_joined_append(ls.take(a), ls.subrange(a, b));
}

/// Appending a stanza keeps the existing configuration text as it was, at
/// the front.
pub proof fn law_append_keeps_text(text: Seq<char>, stanza: Seq<char>)
    ensures
        is_prefix(text, appended(text, stanza)),
{
    let r = appended(text, stanza);
    if text.len() == 0 {
        assert(r.subrange(0, 0) =~= text);
    } else if text.last() == '\n' {
        assert(r.subrange(0, text.len() as int) =~= text);
    } else {
        assert(r.subrange(0, text.len() as int) =~= text);
    }
}

} // verus!
