//! Loading: built-in defaults, then the file, the environment and the
//! command line merged in that order (later wins), then resolved.

use crate::config::cli::DEFAULT_CONFIG_PATH;
use crate::config::error::ConfigError;
use crate::config::merge::{lemma_merge_leafwise, lemma_merge_shape, merge_partial, merge_v};
use crate::config::path::{layer_shape, leaf_v, lemma_layer_shape, path_view, ConfigPath};
use crate::config::partial::{config_view, empty_config, ConfigV, PartialConfig};
use crate::config::resolve::{resolve_config, resolves_to, AppConfig, DEFAULT_LOG_LEVEL};
use crate::config::util::trim_owned;
use crate::text::{opt_view, str_eq, trim_nonempty, trim_opt};
use vstd::prelude::*;
use vstd::string::*;

verus! {

/// The built-in layer: only the log level.
pub open spec fn defaults_layer() -> ConfigV {
    ConfigV { log_level: Some("info"@), ..empty_config() }
}

pub fn defaults_partial() -> (r: PartialConfig)
    ensures
        config_view(r) == defaults_layer(),
{
    let mut r = PartialConfig::default();
    r.log_level = Some(String::from_str(DEFAULT_LOG_LEVEL));
    proof {
        assert(crate::config::partial::accounts_view(r.accounts@) =~= Map::<Seq<char>, crate::config::partial::AccountV>::empty());
        assert(crate::config::partial::strings_view(r.account_order@) =~= Seq::<Seq<char>>::empty());
        assert(config_view(r) =~= defaults_layer());
    }
    r
}

/// The layers merged: built-in defaults, file, environment, command line.
pub open spec fn merged_layers(file: ConfigV, env: ConfigV, cli: ConfigV) -> ConfigV {
    merge_v(merge_v(merge_v(defaults_layer(), file), env), cli)
}

/// Merges the layers in order and resolves the result; a file that could
/// not be read is the error.
pub fn load_with(
    file_layer: Result<PartialConfig, ConfigError>,
    env_layer: PartialConfig,
    cli_layer: PartialConfig,
) -> (r: Result<AppConfig, ConfigError>)
    ensures
        match file_layer {
            Err(e) => r == Err::<AppConfig, ConfigError>(e),
            Ok(f) => resolves_to(merged_layers(config_view(f), config_view(env_layer), config_view(cli_layer)), r),
        },
{
    let file = match file_layer {
        Ok(f) => f,
        Err(e) => {
            return Err(e);
        },
    };
    let mut partial = defaults_partial();
    merge_partial(&mut partial, file);
    merge_partial(&mut partial, env_layer);
    merge_partial(&mut partial, cli_layer);
    resolve_config(partial)
}

/// The health endpoint alone (accounts need not resolve): a command-line
/// value wins, and a blank one disables health; else the environment over
/// the file. A file that could not be read is the error.
pub fn load_health_endpoint_with(
    file_layer: Result<PartialConfig, ConfigError>,
    cli_override: Option<&str>,
    env_layer: PartialConfig,
) -> (r: Result<Option<String>, ConfigError>)
    ensures
        match cli_override {
            Some(raw) => r matches Ok(v) && opt_view(v) == trim_nonempty(raw@),
            None => match file_layer {
                Err(e) => r == Err::<Option<String>, ConfigError>(e),
                Ok(f) => r matches Ok(v) && opt_view(v) == trim_opt(
                    merge_v(merge_v(defaults_layer(), config_view(f)), config_view(env_layer)).health_socket,
                ),
            },
        },
{
    match cli_override {
        Some(raw) => {
            return Ok(trim_owned(Some(String::from_str(raw))));
        },
        None => {},
    }
    let file = match file_layer {
        Ok(f) => f,
        Err(e) => {
            return Err(e);
        },
    };
    let mut partial = defaults_partial();
    merge_partial(&mut partial, file);
    merge_partial(&mut partial, env_layer);
    Ok(trim_owned(partial.health_socket))
}

/// The config file to read: an explicit `--config` wins; the default path
/// gives way to a non-empty `CONFIG_PATH`.
pub fn resolve_config_path(cli_path: &str, config_path_env: Option<&str>) -> (r: String)
    ensures
        r@ == if cli_path@ != "config.toml"@ {
            cli_path@
        } else {
            match config_path_env {
                Some(p) => if p@.len() > 0 {
                    p@
                } else {
                    "config.toml"@
                },
                None => "config.toml"@,
            }
        },
{
    if !str_eq(cli_path, DEFAULT_CONFIG_PATH) {
        return String::from_str(cli_path);
    }
    match config_path_env {
        Some(p) => {
            if p.unicode_len() > 0 {
                String::from_str(p)
            } else {
                String::from_str(DEFAULT_CONFIG_PATH)
            }
        },
        None => String::from_str(DEFAULT_CONFIG_PATH),
    }
}

/// The file layer when the file does not exist: nothing for the default
/// path, an error for a path that was asked for.
pub fn absent_file_layer(path: &str) -> (r: Result<PartialConfig, ConfigError>)
    ensures
        path@ == "config.toml"@ ==> (r matches Ok(p) && config_view(p) == empty_config()),
        path@ != "config.toml"@ ==> (r matches Err(ConfigError::ConfigNotFound(x)) && x@ == path@),
{
    if str_eq(path, DEFAULT_CONFIG_PATH) {
        let p = PartialConfig::default();
        proof {
            assert(crate::config::partial::accounts_view(p.accounts@) =~= Map::<Seq<char>, crate::config::partial::AccountV>::empty());
            assert(crate::config::partial::strings_view(p.account_order@) =~= Seq::<Seq<char>>::empty());
            assert(config_view(p) =~= empty_config());
        }
        Ok(p)
    } else {
        Err(ConfigError::ConfigNotFound(String::from_str(path)))
    }
}

/// The first set value among the layers, highest priority first.
pub open spec fn first_set(a: Option<Seq<char>>, b: Option<Seq<char>>, c: Option<Seq<char>>, d: Option<Seq<char>>) -> Option<Seq<char>> {
    if a is Some {
        a
    } else if b is Some {
        b
    } else if c is Some {
        c
    } else {
        d
    }
}

/// Layer priority: the command line over the environment over the file over
/// the built-in defaults, for the log level and the health socket.
pub proof fn lemma_layer_precedence(file: ConfigV, env: ConfigV, cli: ConfigV)
    ensures
        merged_layers(file, env, cli).log_level == first_set(cli.log_level, env.log_level, file.log_level, Some("info"@)),
        merged_layers(file, env, cli).health_socket == first_set(cli.health_socket, env.health_socket, file.health_socket, None),
{
}

/// Layer priority for every setting: each leaf of the merged layers is the
/// command line's where it sets it, else the environment's, else the file's,
/// else the built-in default.
pub proof fn lemma_leaf_precedence(file: PartialConfig, env: PartialConfig, cli: PartialConfig, p: ConfigPath)
    ensures
        leaf_v(merged_layers(config_view(file), config_view(env), config_view(cli)), path_view(p)) == first_set(
            leaf_v(config_view(cli), path_view(p)),
            leaf_v(config_view(env), path_view(p)),
            leaf_v(config_view(file), path_view(p)),
            leaf_v(defaults_layer(), path_view(p)),
        ),
{
    let base = defaults_layer();
    let (f, e, c) = (config_view(file), config_view(env), config_view(cli));
    assert(layer_shape(base)) by {
        assert(forall|i: int| 0 <= i < 4 ==> (#[trigger] base.defaults[i]).len() == 4);
    }
    lemma_layer_shape(file);
    lemma_layer_shape(env);
    lemma_layer_shape(cli);
    let m1 = merge_v(base, f);
    lemma_merge_shape(base, f);
    lemma_merge_leafwise(base, f, path_view(p));
    let m2 = merge_v(m1, e);
    lemma_merge_shape(m1, e);
    lemma_merge_leafwise(m1, e, path_view(p));
    lemma_merge_leafwise(m2, c, path_view(p));
}

} // verus!
