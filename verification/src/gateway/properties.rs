//! Client properties per account kind and device, and the `properties`
//! object of an identify payload.

use crate::json::{ev, jv, nonempty_str, opt_entry, push_entry, Json, JV};
use crate::presence::kinds::{AccountKind, Device};
use crate::text::{is_empty_str, opt_view, own, parse_u64, parse_u64_spec, push_char};
use vstd::prelude::*;

verus! {

/// Client properties sent when identifying.
#[derive(Debug, Clone, PartialEq, Eq)]
pub struct ClientProperties {
    pub os: String,
    pub browser: Option<String>,
    pub device: String,
    pub user_agent: Option<String>,
    pub client_version: Option<String>,
    pub os_version: Option<String>,
    pub os_arch: Option<String>,
    pub app_arch: Option<String>,
    pub system_locale: Option<String>,
    pub release_channel: Option<String>,
    pub browser_version: Option<String>,
    pub os_sdk_version: Option<String>,
    pub client_build_number: Option<String>,
    pub native_build_number: Option<String>,
}

/// Empty strings and no optional property.
pub open spec fn is_empty_properties(p: ClientProperties) -> bool {
    &&& p.os@.len() == 0
    &&& p.device@.len() == 0
    &&& p.browser is None
    &&& p.user_agent is None
    &&& p.client_version is None
    &&& p.os_version is None
    &&& p.os_arch is None
    &&& p.app_arch is None
    &&& p.system_locale is None
    &&& p.release_channel is None
    &&& p.browser_version is None
    &&& p.os_sdk_version is None
    &&& p.client_build_number is None
    &&& p.native_build_number is None
}

impl Default for ClientProperties {
    fn default() -> (r: ClientProperties)
        ensures
            is_empty_properties(r),
    {
        ClientProperties {
            os: String::new(),
            browser: None,
            device: String::new(),
            user_agent: None,
            client_version: None,
            os_version: None,
            os_arch: None,
            app_arch: None,
            system_locale: None,
            release_channel: None,
            browser_version: None,
            os_sdk_version: None,
            client_build_number: None,
            native_build_number: None,
        }
    }
}

/// Client properties for bots and for each user device.
#[derive(Debug, Clone, PartialEq, Eq)]
pub struct Defaults {
    pub bot: ClientProperties,
    pub web: ClientProperties,
    pub desktop: ClientProperties,
    pub mobile: ClientProperties,
}

impl Defaults {
    /// The properties for an account: the bot set for bots, else the set of
    /// the user's device, web when none is given.
    pub open spec fn properties_for(self, kind: AccountKind, device: Option<Device>) -> ClientProperties {
        match kind {
            AccountKind::Bot => self.bot,
            AccountKind::User => match device {
                Some(Device::Desktop) => self.desktop,
                Some(Device::Mobile) => self.mobile,
                _ => self.web,
            },
        }
    }

    pub fn client_properties(&self, kind: AccountKind, device: Option<Device>) -> (r: &ClientProperties)
        ensures
            *r == self.properties_for(kind, device),
    {
        match kind {
            AccountKind::Bot => &self.bot,
            AccountKind::User => match device {
                Some(Device::Desktop) => &self.desktop,
                Some(Device::Mobile) => &self.mobile,
                _ => &self.web,
            },
        }
    }
}

/// Lowercase hexadecimal digit.
pub open spec fn hex_digit(d: int) -> char {
    if d < 10 {
        (('0' as u32) + d) as char
    } else {
        (('a' as u32) + d - 10) as char
    }
}

/// Two lowercase hex digits of a byte.
pub open spec fn byte_hex(b: u8) -> Seq<char> {
    seq![hex_digit(b as int / 16), hex_digit(b as int % 16)]
}

/// Lowercase hex of a byte sequence.
pub open spec fn hex_spec(b: Seq<u8>) -> Seq<char>
    decreases b.len(),
{
    if b.len() == 0 {
        Seq::empty()
    } else {
        hex_spec(b.subrange(0, b.len() - 1)) + byte_hex(b[b.len() - 1])
    }
}

/// The bytes of a version-4, variant-1 UUID made from random bytes.
pub open spec fn uuid_bytes(b: Seq<u8>) -> Seq<u8> {
    b.update(6, (b[6] as int % 16 + 64) as u8).update(8, (b[8] as int % 64 + 128) as u8)
}

/// The hyphenated text of a UUID's 16 bytes.
pub open spec fn uuid_text(u: Seq<u8>) -> Seq<char> {
    hex_spec(u.subrange(0, 4)) + "-"@ + hex_spec(u.subrange(4, 6)) + "-"@ + hex_spec(
        u.subrange(6, 8),
    ) + "-"@ + hex_spec(u.subrange(8, 10)) + "-"@ + hex_spec(u.subrange(10, 16))
}

fn hex_char(d: u8) -> (c: char)
    requires
        d < 16,
    ensures
        c == hex_digit(d as int),
{
    if d < 10 {
        crate::text::char_from_ascii(48 + d as u32)
    } else {
        crate::text::char_from_ascii(97 + d as u32 - 10)
    }
}

/// Appends the hex of `b[from..to]`.
fn push_hex(s: &mut String, b: &[u8; 16], from: usize, to: usize)
    requires
        from <= to <= 16,
    ensures
        final(s)@ == old(s)@ + hex_spec(b@.subrange(from as int, to as int)),
{
    let mut i: usize = from;
    assert(b@.subrange(from as int, from as int) =~= Seq::<u8>::empty());
    assert(old(s)@ + hex_spec(Seq::<u8>::empty()) =~= old(s)@);
    while i < to
        invariant
            from <= i <= to <= 16,
            b@.len() == 16,
            s@ == old(s)@ + hex_spec(b@.subrange(from as int, i as int)),
        decreases to - i,
    {
        let x = b[i];
        push_char(s, hex_char(x / 16));
        push_char(s, hex_char(x % 16));
        let ghost nxt = b@.subrange(from as int, (i + 1) as int);
        assert(nxt.subrange(0, nxt.len() - 1) =~= b@.subrange(from as int, i as int));
        i = i + 1;
        assert(s@ =~= old(s)@ + hex_spec(nxt));
    }
}

/// Formats 16 random bytes as a version-4 UUID.
pub fn format_uuid_v4(bytes: [u8; 16]) -> (s: String)
    ensures
        s@ == uuid_text(uuid_bytes(bytes@)),
{
    let mut b = bytes;
    let b6 = b[6] % 16 + 64;
    let b8 = b[8] % 64 + 128;
    b[6] = b6;
    b[8] = b8;
    assert(b@ =~= uuid_bytes(bytes@));
    let mut s = String::new();
    push_hex(&mut s, &b, 0, 4);
    push_char(&mut s, '-');
    push_hex(&mut s, &b, 4, 6);
    push_char(&mut s, '-');
    push_hex(&mut s, &b, 6, 8);
    push_char(&mut s, '-');
    push_hex(&mut s, &b, 8, 10);
    push_char(&mut s, '-');
    push_hex(&mut s, &b, 10, 16);
    proof {
        reveal_strlit("-");
    }
    assert(s@ =~= uuid_text(b@));
    s
}

/// 16 bytes from `rand::random`, the thread-local generator. Nothing is
/// stated of their values: they come by chance.
#[verifier::external_body]
fn random_bytes16() -> (b: [u8; 16]) {
    rand::random::<[u8; 16]>()
}

/// A random version-4 UUID.
pub fn uuid_v4() -> (s: String)
    ensures
        exists|b: Seq<u8>| b.len() == 16 && s@ == uuid_text(uuid_bytes(b)),
{
    let b = random_bytes16();
    let s = format_uuid_v4(b);
    assert(b@.len() == 16);
    s
}

/// A number entry for a property that parses as `u64`.
pub open spec fn u64_entry(v: Option<String>) -> Option<JV> {
    match opt_view(v) {
        Some(s) => if s.len() > 0 {
            match parse_u64_spec(s) {
                Some(n) => Some(JV::Num(n as int)),
                None => None,
            }
        } else {
            None
        },
        None => None,
    }
}

/// The version and platform entries of a user account's properties.
pub open spec fn user_version_entries(p: ClientProperties) -> Seq<(Seq<char>, JV)> {
    opt_entry("client_version"@, nonempty_str(opt_view(p.client_version))) + opt_entry(
        "os_version"@,
        nonempty_str(opt_view(p.os_version)),
    ) + opt_entry("os_arch"@, nonempty_str(opt_view(p.os_arch))) + opt_entry(
        "app_arch"@,
        nonempty_str(opt_view(p.app_arch)),
    )
}

/// The locale, channel and build entries of a user account's properties.
pub open spec fn user_build_entries(p: ClientProperties) -> Seq<(Seq<char>, JV)> {
    opt_entry("system_locale"@, nonempty_str(opt_view(p.system_locale))) + opt_entry(
        "release_channel"@,
        nonempty_str(opt_view(p.release_channel)),
    ) + opt_entry("browser_version"@, nonempty_str(opt_view(p.browser_version))) + opt_entry(
        "os_sdk_version"@,
        nonempty_str(opt_view(p.os_sdk_version)),
    ) + opt_entry("client_build_number"@, u64_entry(p.client_build_number)) + opt_entry(
        "native_build_number"@,
        u64_entry(p.native_build_number),
    )
}

/// The detail entries of a user account's properties.
pub open spec fn user_detail_entries(p: ClientProperties) -> Seq<(Seq<char>, JV)> {
    user_version_entries(p) + user_build_entries(p)
}

/// The `properties` object of an identify payload, with `launch_id` as the
/// client launch id.
pub open spec fn identify_properties_spec(
    p: ClientProperties,
    kind: AccountKind,
    launch_id: Seq<char>,
) -> JV {
    let base = seq![("os"@, JV::Str(p.os@))] + opt_entry(
        "browser"@,
        match p.browser {
            Some(b) => Some(JV::Str(b@)),
            None => None,
        },
    ) + seq![("device"@, JV::Str(p.device@))];
    if kind == AccountKind::User && user_detail_entries(p).len() > 0 {
        JV::Object(
            base + user_detail_entries(p) + seq![
                ("has_client_mods"@, JV::Bool(false)),
                ("client_event_source"@, JV::Null),
                ("client_launch_id"@, JV::Str(launch_id)),
            ] + opt_entry("browser_user_agent"@, nonempty_str(opt_view(p.user_agent))),
        )
    } else {
        JV::Object(base)
    }
}

fn opt_str(o: &Option<String>) -> (r: Option<&str>)
    ensures
        crate::json::opt_ref_view(r) == opt_view(*o),
{
    match o {
        Some(s) => Some(s.as_str()),
        None => None,
    }
}

fn push_u64(e: &mut Vec<(String, Json)>, k: &str, v: &Option<String>)
    ensures
        ev(final(e)@) == ev(old(e)@) + opt_entry(k@, u64_entry(*v)),
{
    match v {
        Some(s) => {
            if !is_empty_str(s.as_str()) {
                match parse_u64(s.as_str()) {
                    Some(n) => {
                        push_entry(e, k, Json::UInt(n));
                    },
                    None => {},
                }
            }
        },
        None => {},
    }
    assert(ev(e@) =~= ev(old(e)@) + opt_entry(k@, u64_entry(*v)));
}

fn push_user_versions(e: &mut Vec<(String, Json)>, p: &ClientProperties)
    ensures
        ev(final(e)@) == ev(old(e)@) + user_version_entries(*p),
{
    crate::json::push_nonempty(e, "client_version", opt_str(&p.client_version));
    crate::json::push_nonempty(e, "os_version", opt_str(&p.os_version));
    crate::json::push_nonempty(e, "os_arch", opt_str(&p.os_arch));
    crate::json::push_nonempty(e, "app_arch", opt_str(&p.app_arch));
    assert(ev(e@) =~= ev(old(e)@) + user_version_entries(*p));
}

fn push_user_builds(e: &mut Vec<(String, Json)>, p: &ClientProperties)
    ensures
        ev(final(e)@) == ev(old(e)@) + user_build_entries(*p),
{
    crate::json::push_nonempty(e, "system_locale", opt_str(&p.system_locale));
    crate::json::push_nonempty(e, "release_channel", opt_str(&p.release_channel));
    crate::json::push_nonempty(e, "browser_version", opt_str(&p.browser_version));
    crate::json::push_nonempty(e, "os_sdk_version", opt_str(&p.os_sdk_version));
    let ghost mid = ev(e@);
    push_u64(e, "client_build_number", &p.client_build_number);
    push_u64(e, "native_build_number", &p.native_build_number);
    assert(ev(e@) =~= ev(old(e)@) + user_build_entries(*p));
}

fn push_user_details(e: &mut Vec<(String, Json)>, p: &ClientProperties)
    ensures
        ev(final(e)@) == ev(old(e)@) + user_detail_entries(*p),
{
    push_user_versions(e, p);
    push_user_builds(e, p);
    assert(ev(e@) =~= ev(old(e)@) + user_detail_entries(*p));
}

/// The `properties` object of an identify payload, with `launch_id` as the
/// client launch id where the object carries user details.
pub fn identify_properties_with(props: &ClientProperties, kind: AccountKind, launch_id: String) -> (r: Json)
    ensures
        jv(r) == identify_properties_spec(*props, kind, launch_id@),
{
    let mut e: Vec<(String, Json)> = Vec::new();
    push_entry(&mut e, "os", Json::Str(props.os.clone()));
    match &props.browser {
        Some(b) => {
            push_entry(&mut e, "browser", Json::Str(b.clone()));
        },
        None => {},
    }
    push_entry(&mut e, "device", Json::Str(props.device.clone()));
    let ghost base_vec = e@;
    let before = e.len();
    if kind == AccountKind::User {
        push_user_details(&mut e, props);
        proof {
            crate::json::lemma_ev_len(e@);
            crate::json::lemma_ev_len(base_vec);
        }
        if e.len() > before {
            push_entry(&mut e, "has_client_mods", Json::Bool(false));
            push_entry(&mut e, "client_event_source", Json::Null);
            push_entry(&mut e, "client_launch_id", Json::Str(launch_id));
            crate::json::push_nonempty(&mut e, "browser_user_agent", opt_str(&props.user_agent));
        }
    }
    proof {
        crate::json::lemma_ev_len(e@);
    }
    assert(ev(e@) =~= match identify_properties_spec(*props, kind, launch_id@) {
        JV::Object(x) => x,
        _ => Seq::empty(),
    });
    Json::Object(e)
}

/// The object of a user account carries its details, and so a launch id.
pub open spec fn carries_launch_id(p: ClientProperties, kind: AccountKind) -> bool {
    kind == AccountKind::User && user_detail_entries(p).len() > 0
}

fn carries_launch_id_exec(props: &ClientProperties, kind: AccountKind) -> (r: bool)
    ensures
        r == carries_launch_id(*props, kind),
{
    if kind != AccountKind::User {
        return false;
    }
    let mut details: Vec<(String, Json)> = Vec::new();
    push_user_details(&mut details, props);
    proof {
        crate::json::lemma_ev_len(details@);
        assert(ev(Seq::<(String, Json)>::empty()) =~= Seq::<(Seq<char>, JV)>::empty());
    }
    details.len() > 0
}

/// The `properties` object of an identify payload. The client launch id is
/// a fresh random UUID, made only when the object carries user details.
pub fn identify_properties(props: &ClientProperties, kind: AccountKind) -> (r: Json)
    ensures
        exists|b: Seq<u8>|
            b.len() == 16 && jv(r) == identify_properties_spec(
                *props,
                kind,
                uuid_text(uuid_bytes(b)),
            ),
{
    let ghost mut seed: Seq<u8> = Seq::new(16, |i: int| 0u8);
    let id = if carries_launch_id_exec(props, kind) {
        let id = uuid_v4();
        proof {
            seed = choose|b: Seq<u8>| b.len() == 16 && id@ == uuid_text(uuid_bytes(b));
        }
        id
    } else {
        String::new()
    };
    let r = identify_properties_with(props, kind, id);
    assert(jv(r) == identify_properties_spec(*props, kind, uuid_text(uuid_bytes(seed))));
    r
}

} // verus!
