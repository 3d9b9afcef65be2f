//! The four client properties of the indexed pipeline: os, browser, device
//! and user agent, per account kind and device, and the `properties` object
//! they give an identify payload.

use crate::json::{ev, jv, opt_entry, push_entry, Json, JV};
use crate::presence::kinds::{AccountKind, Device};
use crate::text::opt_view;
use vstd::prelude::*;
use vstd::string::*;

verus! {

pub const DEFAULT_BOT_OS: &'static str = "linux";
pub const DEFAULT_BOT_BROWSER: &'static str = "discord-keep-alive";
pub const DEFAULT_BOT_DEVICE: &'static str = "discord-keep-alive";

pub const DEFAULT_WEB_OS: &'static str = "Windows";
pub const DEFAULT_WEB_BROWSER: &'static str = "Firefox";
pub const DEFAULT_WEB_DEVICE: &'static str = "";
pub const DEFAULT_WEB_UA: &'static str = "Mozilla/5.0 (Windows NT 10.0; Win64; x64; rv:153.0) Gecko/20100101 Firefox/153.0";

pub const DEFAULT_DESKTOP_OS: &'static str = "Windows";
pub const DEFAULT_DESKTOP_BROWSER: &'static str = "Discord Client";
pub const DEFAULT_DESKTOP_DEVICE: &'static str = "Discord Client";
pub const DEFAULT_DESKTOP_UA: &'static str = "Mozilla/5.0 (Windows NT 10.0; Win64; x64) AppleWebKit/537.36 (KHTML, like Gecko) discord/1.0.9250 Chrome/148.0.7778.280 Electron/42.7.1 Safari/537.36";

pub const DEFAULT_MOBILE_OS: &'static str = "iOS";
pub const DEFAULT_MOBILE_BROWSER: &'static str = "Discord iOS";
pub const DEFAULT_MOBILE_DEVICE: &'static str = "iPhone";

/// Client properties sent when identifying.
#[derive(Debug, Clone, PartialEq, Eq)]
pub struct ClientProperties {
    pub os: String,
    pub browser: Option<String>,
    pub device: String,
    pub user_agent: Option<String>,
}

/// Client properties for bots and for each user device.
#[derive(Debug, Clone, PartialEq, Eq)]
pub struct Defaults {
    pub bot: ClientProperties,
    pub web: ClientProperties,
    pub desktop: ClientProperties,
    pub mobile: ClientProperties,
}

/// The properties as optional texts: os, browser, device, user agent; `os`
/// and `device` are always present.
pub open spec fn props4_view(c: ClientProperties) -> Seq<Option<Seq<char>>> {
    seq![Some(c.os@), opt_view(c.browser), Some(c.device@), opt_view(c.user_agent)]
}

/// The properties of each profile: bot, web, desktop, mobile.
pub open spec fn defaults4_views(d: Defaults) -> Seq<Seq<Option<Seq<char>>>> {
    seq![props4_view(d.bot), props4_view(d.web), props4_view(d.desktop), props4_view(d.mobile)]
}

/// The built-in properties of each profile.
pub open spec fn builtin4() -> Seq<Seq<Option<Seq<char>>>> {
    seq![
        seq![Some("linux"@), Some("discord-keep-alive"@), Some("discord-keep-alive"@), None],
        seq![
            Some("Windows"@),
            Some("Firefox"@),
            Some(""@),
            Some("Mozilla/5.0 (Windows NT 10.0; Win64; x64; rv:153.0) Gecko/20100101 Firefox/153.0"@),
        ],
        seq![
            Some("Windows"@),
            Some("Discord Client"@),
            Some("Discord Client"@),
            Some("Mozilla/5.0 (Windows NT 10.0; Win64; x64) AppleWebKit/537.36 (KHTML, like Gecko) discord/1.0.9250 Chrome/148.0.7778.280 Electron/42.7.1 Safari/537.36"@),
        ],
        seq![Some("iOS"@), Some("Discord iOS"@), Some("iPhone"@), None],
    ]
}

fn props(os: &str, browser: &str, device: &str, user_agent: Option<&str>) -> (r: ClientProperties)
    ensures
        props4_view(r) == seq![Some(os@), Some(browser@), Some(device@), crate::json::opt_ref_view(user_agent)],
{
    let r = ClientProperties {
        os: String::from_str(os),
        browser: Some(String::from_str(browser)),
        device: String::from_str(device),
        user_agent: match user_agent {
            Some(u) => Some(String::from_str(u)),
            None => None,
        },
    };
    assert(props4_view(r) =~= seq![Some(os@), Some(browser@), Some(device@), crate::json::opt_ref_view(user_agent)]);
    r
}

impl Defaults {
    /// The built-in client properties.
    pub fn builtin() -> (r: Defaults)
        ensures
            defaults4_views(r) == builtin4(),
    {
        let r = Defaults {
            bot: props(DEFAULT_BOT_OS, DEFAULT_BOT_BROWSER, DEFAULT_BOT_DEVICE, None),
            web: props(DEFAULT_WEB_OS, DEFAULT_WEB_BROWSER, DEFAULT_WEB_DEVICE, Some(DEFAULT_WEB_UA)),
            desktop: props(DEFAULT_DESKTOP_OS, DEFAULT_DESKTOP_BROWSER, DEFAULT_DESKTOP_DEVICE, Some(DEFAULT_DESKTOP_UA)),
            mobile: props(DEFAULT_MOBILE_OS, DEFAULT_MOBILE_BROWSER, DEFAULT_MOBILE_DEVICE, None),
        };
        proof {
            reveal_strlit("linux");
            reveal_strlit("discord-keep-alive");
            reveal_strlit("Windows");
            reveal_strlit("Firefox");
            reveal_strlit("");
            reveal_strlit("Mozilla/5.0 (Windows NT 10.0; Win64; x64; rv:153.0) Gecko/20100101 Firefox/153.0");
            reveal_strlit("Discord Client");
            reveal_strlit("Mozilla/5.0 (Windows NT 10.0; Win64; x64) AppleWebKit/537.36 (KHTML, like Gecko) discord/1.0.9250 Chrome/148.0.7778.280 Electron/42.7.1 Safari/537.36");
            reveal_strlit("iOS");
            reveal_strlit("Discord iOS");
            reveal_strlit("iPhone");
        }
        assert(defaults4_views(r) =~= builtin4());
        r
    }

    /// The properties for an account: the bot set for bots, else the set of
    /// the user's device, web when none is given.
    pub open spec fn properties_for(self, kind: AccountKind, device: Option<Device>) -> ClientProperties {
        match kind {
            AccountKind::Bot => self.bot,
            AccountKind::User => match device {
                Some(Device::Desktop) => self.desktop,
                Some(Device::Mobile) => self.mobile,
                _ => self.web,
            },
        }
    }

    pub fn client_properties(&self, kind: AccountKind, device: Option<Device>) -> (r: &ClientProperties)
        ensures
            *r == self.properties_for(kind, device),
    {
        match kind {
            AccountKind::Bot => &self.bot,
            AccountKind::User => match device {
                Some(Device::Desktop) => &self.desktop,
                Some(Device::Mobile) => &self.mobile,
                _ => &self.web,
            },
        }
    }
}

/// The `properties` object for a set: `os`, `browser` when present, `device`.
pub open spec fn identify_properties_spec(p: ClientProperties) -> JV {
    JV::Object(
        seq![("os"@, JV::Str(p.os@))] + opt_entry(
            "browser"@,
            match p.browser {
                Some(b) => Some(JV::Str(b@)),
                None => None,
            },
        ) + seq![("device"@, JV::Str(p.device@))],
    )
}

/// The `properties` object of an identify payload for an account of `kind`
/// on `device`.
pub fn identify_properties(kind: AccountKind, device: Option<Device>, defaults: &Defaults) -> (r: Json)
    ensures
        jv(r) == identify_properties_spec(defaults.properties_for(kind, device)),
{
    let set = defaults.client_properties(kind, device);
    let mut e: Vec<(String, Json)> = Vec::new();
    push_entry(&mut e, "os", Json::Str(set.os.clone()));
    match &set.browser {
        Some(b) => {
            push_entry(&mut e, "browser", Json::Str(b.clone()));
        },
        None => {},
    }
    push_entry(&mut e, "device", Json::Str(set.device.clone()));
    assert(ev(e@) =~= match identify_properties_spec(*set) {
        JV::Object(x) => x,
        _ => Seq::empty(),
    });
    Json::Object(e)
}

} // verus!
