//! Loading the indexed pipeline: built-in defaults, then the file, the
//! environment and the command line merged in that order (later wins), then
//! resolved.

pub use crate::config::load::resolve_config_path;
use crate::config::cli::{command_text, Command, DEFAULT_CONFIG_PATH};
use crate::config::error::ConfigError;
use crate::config::fields::ActivityField;
use crate::config::partial::{any_set, secret_view, unset, Leaves};
use crate::config::resolve::{err_r, AccountConfig, DEFAULT_LOG_LEVEL};
use crate::config::token::SecretString;
use crate::config::util::{trim_owned, trim_to_string};
use crate::indexed::merge::{merge_partial, merge_w};
use crate::indexed::partial::{
    any_activity_field_set, any_custom_status_field_set, empty_account_w, empty_config_w, AccountW, ConfigW,
    PartialAccount, PartialActivity, PartialConfig, PartialCustomStatus,
};
use crate::indexed::properties::Defaults;
use crate::indexed::resolve::{resolve_config, resolve_error_w, resolved_w};
use crate::indexed::schema::{AccountScalarField, CustomStatusField};
use crate::json::opt_ref_view;
use crate::render::{field, fields_view, opt_text, opt_text_of, quote, quoted, record_text, record_text_of, secret_text, secret_text_of};
use crate::text::{opt_view, str_eq, trim_nonempty, trim_opt};
use vstd::prelude::*;
use vstd::string::*;

verus! {

/// The command line of the indexed pipeline: one flat account.
pub struct Cli {
    pub config: String,
    pub log_level: Option<String>,
    pub health_socket: Option<String>,
    pub token: Option<SecretString>,
    pub name: Option<String>,
    pub kind: Option<String>,
    pub device: Option<String>,
    pub status: Option<String>,
    pub custom_status_text: Option<String>,
    pub custom_status_emoji: Option<String>,
    pub activity: Option<String>,
    pub activity_type: Option<String>,
    pub activity_platform: Option<String>,
    pub activity_timestamp: Option<String>,
    pub activity_application_id: Option<String>,
    pub activity_details: Option<String>,
    pub activity_url: Option<String>,
    pub activity_large_image: Option<String>,
    pub activity_large_image_text: Option<String>,
    pub activity_small_image: Option<String>,
    pub activity_small_image_text: Option<String>,
    pub activity_button: Option<String>,
    pub activity_button_url: Option<String>,
    pub activity_button_2: Option<String>,
    pub activity_button_2_url: Option<String>,
    pub activity_party_id: Option<String>,
    pub activity_party_current: Option<String>,
    pub activity_party_max: Option<String>,
    pub command: Option<Command>,
}

impl Default for Cli {
    /// A command line with no arguments.
    fn default() -> (r: Cli)
        ensures
            r.config@ == "config.toml"@,
            cli_layer_w(r) == empty_config_w(),
            r.command is None,
    {
        let r = Cli {
            config: String::from_str(DEFAULT_CONFIG_PATH),
            log_level: None,
            health_socket: None,
            token: None,
            name: None,
            kind: None,
            device: None,
            status: None,
            custom_status_text: None,
            custom_status_emoji: None,
            activity: None,
            activity_type: None,
            activity_platform: None,
            activity_timestamp: None,
            activity_application_id: None,
            activity_details: None,
            activity_url: None,
            activity_large_image: None,
            activity_large_image_text: None,
            activity_small_image: None,
            activity_small_image_text: None,
            activity_button: None,
            activity_button_url: None,
            activity_button_2: None,
            activity_button_2_url: None,
            activity_party_id: None,
            activity_party_current: None,
            activity_party_max: None,
            command: None,
        };
        assert(cli_scalars(r) =~= unset(5));
        assert(cli_custom(r) =~= unset(2));
        assert(cli_activity(r) =~= unset(18));
        assert(!any_set(unset(2)));
        assert(!any_set(unset(18)));
        assert(cli_layer_w(r) =~= empty_config_w());
        r
    }
}

/// The flat account's trimmed flags: token, name, kind, device, status.
pub open spec fn cli_scalars(c: Cli) -> Leaves {
    seq![
        trim_opt(secret_view(c.token)),
        trim_opt(opt_view(c.name)),
        trim_opt(opt_view(c.kind)),
        trim_opt(opt_view(c.device)),
        trim_opt(opt_view(c.status)),
    ]
}

/// The trimmed custom-status flags: text, emoji.
pub open spec fn cli_custom(c: Cli) -> Leaves {
    seq![trim_opt(opt_view(c.custom_status_text)), trim_opt(opt_view(c.custom_status_emoji))]
}

/// The trimmed activity flags, in catalog order.
pub open spec fn cli_activity(c: Cli) -> Leaves {
    seq![
        trim_opt(opt_view(c.activity)),
        trim_opt(opt_view(c.activity_type)),
        trim_opt(opt_view(c.activity_platform)),
        trim_opt(opt_view(c.activity_timestamp)),
        trim_opt(opt_view(c.activity_application_id)),
        trim_opt(opt_view(c.activity_details)),
        trim_opt(opt_view(c.activity_url)),
        trim_opt(opt_view(c.activity_large_image)),
        trim_opt(opt_view(c.activity_large_image_text)),
        trim_opt(opt_view(c.activity_small_image)),
        trim_opt(opt_view(c.activity_small_image_text)),
        trim_opt(opt_view(c.activity_button)),
        trim_opt(opt_view(c.activity_button_url)),
        trim_opt(opt_view(c.activity_button_2)),
        trim_opt(opt_view(c.activity_button_2_url)),
        trim_opt(opt_view(c.activity_party_id)),
        trim_opt(opt_view(c.activity_party_current)),
        trim_opt(opt_view(c.activity_party_max))
    ]
}

/// The layer a command line gives: trimmed values, blank ones unset; the
/// health socket as given; a custom status or activity only when one of its
/// flags is set.
pub open spec fn cli_layer_w(c: Cli) -> ConfigW {
    ConfigW {
        log_level: trim_opt(opt_view(c.log_level)),
        health_socket: opt_view(c.health_socket),
        defaults: seq![unset(4), unset(4), unset(4), unset(4)],
        account: AccountW {
            scalars: cli_scalars(c),
            custom: if any_set(cli_custom(c)) {
                Some(cli_custom(c))
            } else {
                None
            },
            activity: if any_set(cli_activity(c)) {
                Some(cli_activity(c))
            } else {
                None
            },
            activities: Seq::empty(),
        },
        accounts: Seq::empty(),
    }
}

fn opt_as_str(s: &Option<String>) -> (r: Option<&str>)
    ensures
        opt_ref_view(r) == opt_view(*s),
{
    match s {
        Some(v) => Some(v.as_str()),
        None => None,
    }
}

/// Stores the trimmed flag when it is not blank.
pub fn set_cli_field(dst: &mut Option<String>, raw: Option<&str>)
    ensures
        opt_view(*final(dst)) == match trim_opt(opt_ref_view(raw)) {
            Some(v) => Some(v),
            None => opt_view(*old(dst)),
        },
{
    match trim_to_string(raw) {
        Some(v) => {
            *dst = Some(v);
        },
        None => {},
    }
}

/// The command-line layer.
pub fn cli_partial(cli: &Cli) -> (r: PartialConfig)
    ensures
        r.view_w() == cli_layer_w(*cli),
{
    let mut partial = PartialConfig::default();
    partial.log_level = trim_to_string(opt_as_str(&cli.log_level));
    partial.health_socket = match &cli.health_socket {
        Some(h) => Some(String::from_str(h.as_str())),
        None => None,
    };
    let mut account = PartialAccount::default();
    match &cli.token {
        Some(t) => match trim_to_string(Some(t.as_str())) {
            Some(v) => {
                AccountScalarField::Token.set(&mut account, v);
            },
            None => {},
        },
        None => {},
    }
    set_cli_field(AccountScalarField::Name.get_mut(&mut account), opt_as_str(&cli.name));
    set_cli_field(AccountScalarField::Kind.get_mut(&mut account), opt_as_str(&cli.kind));
    set_cli_field(AccountScalarField::Device.get_mut(&mut account), opt_as_str(&cli.device));
    set_cli_field(AccountScalarField::Status.get_mut(&mut account), opt_as_str(&cli.status));
    assert(account.scalars_view() =~= cli_scalars(*cli));
    let mut custom = PartialCustomStatus::default();
    set_cli_field(CustomStatusField::Text.get_mut(&mut custom), opt_as_str(&cli.custom_status_text));
    set_cli_field(CustomStatusField::Emoji.get_mut(&mut custom), opt_as_str(&cli.custom_status_emoji));
    assert(custom@ =~= cli_custom(*cli));
    if any_custom_status_field_set(&custom) {
        account.custom_status = Some(custom);
    }
    let activity = cli_activity_partial(cli);
    if any_activity_field_set(&activity) {
        account.activity = Some(activity);
    }
    partial.account = account;
    assert(partial.view_w().account =~= cli_layer_w(*cli).account);
    assert(partial.view_w() =~= cli_layer_w(*cli));
    partial
}

/// The activity flag that sets `field`.
fn activity_flag(cli: &Cli, field: ActivityField) -> (r: Option<&str>)
    ensures
        trim_opt(opt_ref_view(r)) == cli_activity(*cli)[field.index()],
{
    match field {
        ActivityField::Name => opt_as_str(&cli.activity),
        ActivityField::Type => opt_as_str(&cli.activity_type),
        ActivityField::Platform => opt_as_str(&cli.activity_platform),
        ActivityField::Timestamp => opt_as_str(&cli.activity_timestamp),
        ActivityField::ApplicationId => opt_as_str(&cli.activity_application_id),
        ActivityField::Details => opt_as_str(&cli.activity_details),
        ActivityField::Url => opt_as_str(&cli.activity_url),
        ActivityField::LargeImage => opt_as_str(&cli.activity_large_image),
        ActivityField::LargeImageText => opt_as_str(&cli.activity_large_image_text),
        ActivityField::SmallImage => opt_as_str(&cli.activity_small_image),
        ActivityField::SmallImageText => opt_as_str(&cli.activity_small_image_text),
        ActivityField::Button => opt_as_str(&cli.activity_button),
        ActivityField::ButtonUrl => opt_as_str(&cli.activity_button_url),
        ActivityField::Button2 => opt_as_str(&cli.activity_button_2),
        ActivityField::Button2Url => opt_as_str(&cli.activity_button_2_url),
        ActivityField::PartyId => opt_as_str(&cli.activity_party_id),
        ActivityField::PartyCurrent => opt_as_str(&cli.activity_party_current),
        ActivityField::PartyMax => opt_as_str(&cli.activity_party_max),
    }
}

fn cli_activity_partial(cli: &Cli) -> (r: PartialActivity)
    ensures
        r@ == cli_activity(*cli),
{
    let mut activity = PartialActivity::default();
    let fields = ActivityField::all();
    let ghost want = cli_activity(*cli);
    let mut i: usize = 0;
    while i < fields.len()
        invariant
            i <= fields@.len(),
            fields@.len() == 18,
            forall|k: int| 0 <= k < 18 ==> (#[trigger] fields@[k]).index() == k,
            want == cli_activity(*cli),
            activity@.len() == 18,
            forall|k: int| 0 <= k < i ==> #[trigger] activity@[k] == want[k],
            forall|k: int| i <= k < 18 ==> #[trigger] activity@[k] is None,
        decreases fields@.len() - i,
    {
        let f = fields[i];
        set_cli_field(f.get_mut(&mut activity), activity_flag(cli, f));
        i = i + 1;
    }
    assert(activity@ =~= want);
    activity
}

/// The debug rendering of a command line; the token shows as `<redacted>`.
pub open spec fn cli_text(c: Cli) -> Seq<char> {
    record_text(
        "Cli"@,
        seq![
            ("config"@, quoted(c.config@)),
            ("log_level"@, opt_text(opt_view(c.log_level))),
            ("health_socket"@, opt_text(opt_view(c.health_socket))),
            ("token"@, secret_text(secret_view(c.token))),
            ("name"@, opt_text(opt_view(c.name))),
            ("kind"@, opt_text(opt_view(c.kind))),
            ("device"@, opt_text(opt_view(c.device))),
            ("status"@, opt_text(opt_view(c.status))),
            ("custom_status_text"@, opt_text(opt_view(c.custom_status_text))),
            ("custom_status_emoji"@, opt_text(opt_view(c.custom_status_emoji))),
            ("activity"@, opt_text(opt_view(c.activity))),
            ("activity_type"@, opt_text(opt_view(c.activity_type))),
            ("activity_platform"@, opt_text(opt_view(c.activity_platform))),
            ("activity_timestamp"@, opt_text(opt_view(c.activity_timestamp))),
            ("activity_application_id"@, opt_text(opt_view(c.activity_application_id))),
            ("activity_details"@, opt_text(opt_view(c.activity_details))),
            ("activity_url"@, opt_text(opt_view(c.activity_url))),
            ("activity_large_image"@, opt_text(opt_view(c.activity_large_image))),
            ("activity_large_image_text"@, opt_text(opt_view(c.activity_large_image_text))),
            ("activity_small_image"@, opt_text(opt_view(c.activity_small_image))),
            ("activity_small_image_text"@, opt_text(opt_view(c.activity_small_image_text))),
            ("activity_button"@, opt_text(opt_view(c.activity_button))),
            ("activity_button_url"@, opt_text(opt_view(c.activity_button_url))),
            ("activity_button_2"@, opt_text(opt_view(c.activity_button_2))),
            ("activity_button_2_url"@, opt_text(opt_view(c.activity_button_2_url))),
            ("activity_party_id"@, opt_text(opt_view(c.activity_party_id))),
            ("activity_party_current"@, opt_text(opt_view(c.activity_party_current))),
            ("activity_party_max"@, opt_text(opt_view(c.activity_party_max))),
            ("command"@, command_text(c.command)),
        ],
    )
}

impl Cli {
    /// A debug rendering of every flag, with the token shown as
    /// `<redacted>`.
    pub fn debug_text(&self) -> (r: String)
        ensures
            r@ == cli_text(*self),
    {
        let mut f: Vec<(String, String)> = Vec::new();
        f.push(field("config", quote(self.config.as_str())));
        f.push(field("log_level", opt_text_of(&self.log_level)));
        f.push(field("health_socket", opt_text_of(&self.health_socket)));
        f.push(field("token", secret_text_of(&self.token)));
        f.push(field("name", opt_text_of(&self.name)));
        f.push(field("kind", opt_text_of(&self.kind)));
        f.push(field("device", opt_text_of(&self.device)));
        f.push(field("status", opt_text_of(&self.status)));
        f.push(field("custom_status_text", opt_text_of(&self.custom_status_text)));
        f.push(field("custom_status_emoji", opt_text_of(&self.custom_status_emoji)));
        f.push(field("activity", opt_text_of(&self.activity)));
        f.push(field("activity_type", opt_text_of(&self.activity_type)));
        f.push(field("activity_platform", opt_text_of(&self.activity_platform)));
        f.push(field("activity_timestamp", opt_text_of(&self.activity_timestamp)));
        f.push(field("activity_application_id", opt_text_of(&self.activity_application_id)));
        f.push(field("activity_details", opt_text_of(&self.activity_details)));
        f.push(field("activity_url", opt_text_of(&self.activity_url)));
        f.push(field("activity_large_image", opt_text_of(&self.activity_large_image)));
        f.push(field("activity_large_image_text", opt_text_of(&self.activity_large_image_text)));
        f.push(field("activity_small_image", opt_text_of(&self.activity_small_image)));
        f.push(field("activity_small_image_text", opt_text_of(&self.activity_small_image_text)));
        f.push(field("activity_button", opt_text_of(&self.activity_button)));
        f.push(field("activity_button_url", opt_text_of(&self.activity_button_url)));
        f.push(field("activity_button_2", opt_text_of(&self.activity_button_2)));
        f.push(field("activity_button_2_url", opt_text_of(&self.activity_button_2_url)));
        f.push(field("activity_party_id", opt_text_of(&self.activity_party_id)));
        f.push(field("activity_party_current", opt_text_of(&self.activity_party_current)));
        f.push(field("activity_party_max", opt_text_of(&self.activity_party_max)));
        f.push(field("command", crate::config::cli::command_text_of(&self.command)));
        let ghost c = *self;
        assert(fields_view(f@) =~= seq![
            ("config"@, quoted(c.config@)),
            ("log_level"@, opt_text(opt_view(c.log_level))),
            ("health_socket"@, opt_text(opt_view(c.health_socket))),
            ("token"@, secret_text(secret_view(c.token))),
            ("name"@, opt_text(opt_view(c.name))),
            ("kind"@, opt_text(opt_view(c.kind))),
            ("device"@, opt_text(opt_view(c.device))),
            ("status"@, opt_text(opt_view(c.status))),
            ("custom_status_text"@, opt_text(opt_view(c.custom_status_text))),
            ("custom_status_emoji"@, opt_text(opt_view(c.custom_status_emoji))),
            ("activity"@, opt_text(opt_view(c.activity))),
            ("activity_type"@, opt_text(opt_view(c.activity_type))),
            ("activity_platform"@, opt_text(opt_view(c.activity_platform))),
            ("activity_timestamp"@, opt_text(opt_view(c.activity_timestamp))),
            ("activity_application_id"@, opt_text(opt_view(c.activity_application_id))),
            ("activity_details"@, opt_text(opt_view(c.activity_details))),
            ("activity_url"@, opt_text(opt_view(c.activity_url))),
            ("activity_large_image"@, opt_text(opt_view(c.activity_large_image))),
            ("activity_large_image_text"@, opt_text(opt_view(c.activity_large_image_text))),
            ("activity_small_image"@, opt_text(opt_view(c.activity_small_image))),
            ("activity_small_image_text"@, opt_text(opt_view(c.activity_small_image_text))),
            ("activity_button"@, opt_text(opt_view(c.activity_button))),
            ("activity_button_url"@, opt_text(opt_view(c.activity_button_url))),
            ("activity_button_2"@, opt_text(opt_view(c.activity_button_2))),
            ("activity_button_2_url"@, opt_text(opt_view(c.activity_button_2_url))),
            ("activity_party_id"@, opt_text(opt_view(c.activity_party_id))),
            ("activity_party_current"@, opt_text(opt_view(c.activity_party_current))),
            ("activity_party_max"@, opt_text(opt_view(c.activity_party_max))),
            ("command"@, command_text(c.command)),
        ]);
        record_text_of("Cli", &f)
    }
}

/// A command line renders the same whatever text its token holds.
pub proof fn lemma_cli_text_hides_token(a: Cli, b: Cli)
    requires
        a.token is Some <==> b.token is Some,
        (Cli { token: None, ..a }) == (Cli { token: None, ..b }),
    ensures
        cli_text(a) == cli_text(b),
{
    assert(a.config == b.config);
}

/// The settings an indexed layer resolves to.
pub struct AppConfig {
    pub log_level: String,
    pub health_socket: Option<String>,
    pub defaults: Defaults,
    pub accounts: Vec<AccountConfig>,
}

/// The built-in layer: only the log level.
pub open spec fn defaults_layer_w() -> ConfigW {
    ConfigW { log_level: Some("info"@), ..empty_config_w() }
}

pub fn defaults_partial() -> (r: PartialConfig)
    ensures
        r.view_w() == defaults_layer_w(),
{
    let mut r = PartialConfig::default();
    r.log_level = Some(String::from_str(DEFAULT_LOG_LEVEL));
    proof {
        reveal_strlit("info");
    }
    assert(r.view_w() =~= defaults_layer_w());
    r
}

/// `r` is what loading the merged layer `c` gives.
pub open spec fn loads_to_w(c: ConfigW, r: Result<AppConfig, ConfigError>) -> bool {
    match r {
        Ok(app) => resolve_error_w(c) is None && resolved_w(c, (app.log_level, app.health_socket, app.defaults, app.accounts)),
        Err(e) => err_r(e) is Some && resolve_error_w(c) == err_r(e),
    }
}

/// The layers merged: built-in defaults, file, environment, command line.
pub open spec fn merged_layers_w(file: ConfigW, env: ConfigW, cli: ConfigW) -> ConfigW {
    merge_w(merge_w(merge_w(defaults_layer_w(), file), env), cli)
}

/// Merges the layers in order and resolves the result; a file that could
/// not be read is the error.
pub fn load_with(
    file_layer: Result<PartialConfig, ConfigError>,
    env_layer: PartialConfig,
    cli_layer: PartialConfig,
) -> (r: Result<AppConfig, ConfigError>)
    ensures
        match file_layer {
            Err(e) => r == Err::<AppConfig, ConfigError>(e),
            Ok(f) => loads_to_w(merged_layers_w(f.view_w(), env_layer.view_w(), cli_layer.view_w()), r),
        },
{
    let file = match file_layer {
        Ok(f) => f,
        Err(e) => {
            return Err(e);
        },
    };
    let mut partial = defaults_partial();
    merge_partial(&mut partial, file);
    merge_partial(&mut partial, env_layer);
    merge_partial(&mut partial, cli_layer);
    match resolve_config(partial) {
        Ok((log_level, health_socket, defaults, accounts)) => Ok(AppConfig { log_level, health_socket, defaults, accounts }),
        Err(e) => Err(e),
    }
}

/// The trimmed health socket; blank disables health.
pub fn normalize_health_socket(raw: Option<String>) -> (r: Option<String>)
    ensures
        opt_view(r) == trim_opt(opt_view(raw)),
{
    trim_owned(raw)
}

/// The health endpoint alone (accounts need not resolve): a command-line
/// value wins, and a blank one disables health; else the environment over
/// the file. A file that could not be read is the error.
pub fn load_health_endpoint_with(
    file_layer: Result<PartialConfig, ConfigError>,
    cli_override: Option<&str>,
    env_layer: PartialConfig,
) -> (r: Result<Option<String>, ConfigError>)
    ensures
        match cli_override {
            Some(raw) => r matches Ok(v) && opt_view(v) == trim_nonempty(raw@),
            None => match file_layer {
                Err(e) => r == Err::<Option<String>, ConfigError>(e),
                Ok(f) => r matches Ok(v) && opt_view(v) == trim_opt(
                    merge_w(merge_w(defaults_layer_w(), f.view_w()), env_layer.view_w()).health_socket,
                ),
            },
        },
{
    match cli_override {
        Some(raw) => {
            return Ok(normalize_health_socket(Some(String::from_str(raw))));
        },
        None => {},
    }
    let file = match file_layer {
        Ok(f) => f,
        Err(e) => {
            return Err(e);
        },
    };
    let mut partial = defaults_partial();
    merge_partial(&mut partial, file);
    merge_partial(&mut partial, env_layer);
    Ok(normalize_health_socket(partial.health_socket))
}

/// The file layer when the file does not exist: nothing for the default
/// path, an error for a path that was asked for.
pub fn absent_file_layer(path: &str) -> (r: Result<PartialConfig, ConfigError>)
    ensures
        path@ == "config.toml"@ ==> (r matches Ok(p) && p.view_w() == empty_config_w()),
        path@ != "config.toml"@ ==> (r matches Err(ConfigError::ConfigNotFound(x)) && x@ == path@),
{
    if str_eq(path, DEFAULT_CONFIG_PATH) {
        Ok(PartialConfig::default())
    } else {
        Err(ConfigError::ConfigNotFound(String::from_str(path)))
    }
}

/// Layer priority: the command line over the environment over the file over
/// the built-in defaults, for the log level and the health socket.
pub proof fn lemma_layer_precedence_w(file: ConfigW, env: ConfigW, cli: ConfigW)
    ensures
        merged_layers_w(file, env, cli).log_level == crate::config::load::first_set(cli.log_level, env.log_level, file.log_level, Some("info"@)),
        merged_layers_w(file, env, cli).health_socket == crate::config::load::first_set(cli.health_socket, env.health_socket, file.health_socket, None),
{
}

} // verus!
