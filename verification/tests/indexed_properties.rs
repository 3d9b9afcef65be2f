use discord_keep_alive::indexed::properties::{
    identify_properties, ClientProperties, Defaults, DEFAULT_DESKTOP_BROWSER, DEFAULT_DESKTOP_DEVICE,
    DEFAULT_DESKTOP_UA, DEFAULT_MOBILE_BROWSER, DEFAULT_MOBILE_DEVICE, DEFAULT_MOBILE_OS, DEFAULT_WEB_BROWSER,
    DEFAULT_WEB_DEVICE, DEFAULT_WEB_OS, DEFAULT_WEB_UA,
};
use discord_keep_alive::json::Json;
use discord_keep_alive::presence::kinds::{AccountKind, Device};

fn text<'a>(j: &'a Json, key: &str) -> Option<&'a str> {
    j.get(key).and_then(|v| v.as_str())
}

#[test]
fn bot_uses_bot_defaults() {
    let mut defaults = Defaults::builtin();
    defaults.bot = ClientProperties {
        os: "FreeBSD".into(),
        browser: Some("lib".into()),
        device: "lib".into(),
        user_agent: Some("bot-ua".into()),
    };
    let props = identify_properties(AccountKind::Bot, Some(Device::Desktop), &defaults);
    assert_eq!(text(&props, "os"), Some("FreeBSD"));
    assert_eq!(text(&props, "browser"), Some("lib"));
    assert_eq!(text(&props, "device"), Some("lib"));
    assert_eq!(defaults.client_properties(AccountKind::Bot, None).user_agent.as_deref(), Some("bot-ua"));
}

#[test]
fn web_defaults_to_firefox() {
    let defaults = Defaults::builtin();
    let props = identify_properties(AccountKind::User, Some(Device::Web), &defaults);
    assert_eq!(text(&props, "os"), Some(DEFAULT_WEB_OS));
    assert_eq!(text(&props, "browser"), Some(DEFAULT_WEB_BROWSER));
    assert_eq!(text(&props, "device"), Some(DEFAULT_WEB_DEVICE));
    assert_eq!(
        defaults.client_properties(AccountKind::User, Some(Device::Web)).user_agent.as_deref(),
        Some(DEFAULT_WEB_UA)
    );
}

#[test]
fn indexed_properties_web_omits_browser_when_cleared() {
    let mut defaults = Defaults::builtin();
    defaults.web.browser = None;
    let props = identify_properties(AccountKind::User, None, &defaults);
    assert!(props.get("browser").is_none());
}

#[test]
fn desktop_and_mobile_templates() {
    let defaults = Defaults::builtin();
    let desktop = identify_properties(AccountKind::User, Some(Device::Desktop), &defaults);
    assert_eq!(text(&desktop, "browser"), Some(DEFAULT_DESKTOP_BROWSER));
    assert_eq!(text(&desktop, "device"), Some(DEFAULT_DESKTOP_DEVICE));
    assert_eq!(
        defaults.client_properties(AccountKind::User, Some(Device::Desktop)).user_agent.as_deref(),
        Some(DEFAULT_DESKTOP_UA)
    );

    let mobile = identify_properties(AccountKind::User, Some(Device::Mobile), &defaults);
    assert_eq!(text(&mobile, "os"), Some(DEFAULT_MOBILE_OS));
    assert_eq!(text(&mobile, "browser"), Some(DEFAULT_MOBILE_BROWSER));
    assert_eq!(text(&mobile, "device"), Some(DEFAULT_MOBILE_DEVICE));
    assert!(defaults.client_properties(AccountKind::User, Some(Device::Mobile)).user_agent.is_none());
}

#[test]
fn identify_properties_keep_key_order() {
    let defaults = Defaults::builtin();
    let props = identify_properties(AccountKind::Bot, None, &defaults);
    match props {
        Json::Object(entries) => {
            let keys: Vec<&str> = entries.iter().map(|(k, _)| k.as_str()).collect();
            assert_eq!(keys, ["os", "browser", "device"]);
        }
        _ => panic!("not an object"),
    }
}
