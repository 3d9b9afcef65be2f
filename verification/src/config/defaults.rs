//! The built-in client properties of each profile.

use crate::gateway::properties::{ClientProperties, Defaults};
use crate::text::opt_view;
use vstd::prelude::*;
use vstd::string::*;

verus! {

/// The fourteen properties as optional texts; `os` and `device` are always
/// present.
pub open spec fn props_view(c: ClientProperties) -> Seq<Option<Seq<char>>> {
    seq![
        Some(c.os@),
        opt_view(c.browser),
        Some(c.device@),
        opt_view(c.user_agent),
        opt_view(c.client_version),
        opt_view(c.os_version),
        opt_view(c.os_arch),
        opt_view(c.app_arch),
        opt_view(c.system_locale),
        opt_view(c.release_channel),
        opt_view(c.browser_version),
        opt_view(c.os_sdk_version),
        opt_view(c.client_build_number),
        opt_view(c.native_build_number),
    ]
}

/// The properties of each profile: bot, web, desktop, mobile.
pub open spec fn defaults_views(d: Defaults) -> Seq<Seq<Option<Seq<char>>>> {
    seq![props_view(d.bot), props_view(d.web), props_view(d.desktop), props_view(d.mobile)]
}

/// The built-in bot properties.
pub open spec fn builtin_bot() -> Seq<Option<Seq<char>>> {
    seq![
        Some("linux"@),
        Some("discord-keep-alive"@),
        Some("discord-keep-alive"@),
        None,
        None,
        None,
        None,
        None,
        None,
        None,
        None,
        None,
        None,
        None,
    ]
}

/// The built-in web properties.
pub open spec fn builtin_web() -> Seq<Option<Seq<char>>> {
    seq![
        Some("Windows"@),
        Some("Firefox"@),
        Some(""@),
        Some("Mozilla/5.0 (Windows NT 10.0; Win64; x64; rv:153.0) Gecko/20100101 Firefox/153.0"@),
        None,
        Some("10"@),
        None,
        None,
        Some("en-US"@),
        Some("stable"@),
        Some("153.0"@),
        None,
        Some("582977"@),
        None,
    ]
}

/// The built-in desktop properties.
pub open spec fn builtin_desktop() -> Seq<Option<Seq<char>>> {
    seq![
        Some("Windows"@),
        Some("Discord Client"@),
        Some("Discord Client"@),
        Some("Mozilla/5.0 (Windows NT 10.0; Win64; x64) AppleWebKit/537.36 (KHTML, like Gecko) discord/1.0.9254 Chrome/148.0.7778.280 Electron/42.7.1 Safari/537.36"@),
        Some("1.0.9254"@),
        Some("10.0.26100"@),
        Some("x64"@),
        Some("x64"@),
        Some("en-US"@),
        Some("stable"@),
        Some("42.7.1"@),
        Some("26100"@),
        Some("582977"@),
        Some("86777"@),
    ]
}

/// The built-in mobile properties.
pub open spec fn builtin_mobile() -> Seq<Option<Seq<char>>> {
    seq![
        Some("iOS"@),
        Some("Discord iOS"@),
        Some("iPhone"@),
        None,
        None,
        Some("18.4"@),
        None,
        None,
        Some("en-US"@),
        Some("stable"@),
        None,
        None,
        None,
        None,
    ]
}

/// The product's built-in client properties.
pub fn product_defaults() -> (r: Defaults)
    ensures
        defaults_views(r) == seq![builtin_bot(), builtin_web(), builtin_desktop(), builtin_mobile()],
{
    let r = Defaults {
        bot: ClientProperties {
            os: String::from_str("linux"),
            browser: Some(String::from_str("discord-keep-alive")),
            device: String::from_str("discord-keep-alive"),
            user_agent: None,
            client_version: None,
            os_version: None,
            os_arch: None,
            app_arch: None,
            system_locale: None,
            release_channel: None,
            browser_version: None,
            os_sdk_version: None,
            client_build_number: None,
            native_build_number: None,
        },
        web: ClientProperties {
            os: String::from_str("Windows"),
            browser: Some(String::from_str("Firefox")),
            device: String::from_str(""),
            user_agent: Some(String::from_str("Mozilla/5.0 (Windows NT 10.0; Win64; x64; rv:153.0) Gecko/20100101 Firefox/153.0")),
            client_version: None,
            os_version: Some(String::from_str("10")),
            os_arch: None,
            app_arch: None,
            system_locale: Some(String::from_str("en-US")),
            release_channel: Some(String::from_str("stable")),
            browser_version: Some(String::from_str("153.0")),
            os_sdk_version: None,
            client_build_number: Some(String::from_str("582977")),
            native_build_number: None,
        },
        desktop: ClientProperties {
            os: String::from_str("Windows"),
            browser: Some(String::from_str("Discord Client")),
            device: String::from_str("Discord Client"),
            user_agent: Some(String::from_str("Mozilla/5.0 (Windows NT 10.0; Win64; x64) AppleWebKit/537.36 (KHTML, like Gecko) discord/1.0.9254 Chrome/148.0.7778.280 Electron/42.7.1 Safari/537.36")),
            client_version: Some(String::from_str("1.0.9254")),
            os_version: Some(String::from_str("10.0.26100")),
            os_arch: Some(String::from_str("x64")),
            app_arch: Some(String::from_str("x64")),
            system_locale: Some(String::from_str("en-US")),
            release_channel: Some(String::from_str("stable")),
            browser_version: Some(String::from_str("42.7.1")),
            os_sdk_version: Some(String::from_str("26100")),
            client_build_number: Some(String::from_str("582977")),
            native_build_number: Some(String::from_str("86777")),
        },
        mobile: ClientProperties {
            os: String::from_str("iOS"),
            browser: Some(String::from_str("Discord iOS")),
            device: String::from_str("iPhone"),
            user_agent: None,
            client_version: None,
            os_version: Some(String::from_str("18.4")),
            os_arch: None,
            app_arch: None,
            system_locale: Some(String::from_str("en-US")),
            release_channel: Some(String::from_str("stable")),
            browser_version: None,
            os_sdk_version: None,
            client_build_number: None,
            native_build_number: None,
        },
    };
    assert(props_view(r.bot) =~= builtin_bot());
    assert(props_view(r.web) =~= builtin_web());
    assert(props_view(r.desktop) =~= builtin_desktop());
    assert(props_view(r.mobile) =~= builtin_mobile());
    r
}

} // verus!
