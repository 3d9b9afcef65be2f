//! Debug renderings of accounts, resolved and partial, with the token shown
//! as `<redacted>`.

use crate::config::partial::{secret_view, PartialActivity, PartialCustomStatus};
use crate::config::resolve::AccountConfig;
use crate::indexed::partial::PartialAccount;
use crate::presence::activity::{ActivityButton, ActivityConfig, ActivityParty, CustomStatusConfig, ImageAsset};
use crate::presence::kinds::{AccountKind, ActivityPlatform, ActivityType, Device, Status};
use crate::render::{
    field, fields_view, opt_text, opt_text_of, quote, quoted, record_text, record_text_of, secret_text,
    secret_text_of,
};
use crate::text::opt_view;
use vstd::prelude::*;
use vstd::string::*;

verus! {

/// `Some(..)` around an inner rendering, or `None`.
pub open spec fn some_text(o: Option<Seq<char>>) -> Seq<char> {
    match o {
        Some(t) => "Some("@ + t + ")"@,
        None => "None"@,
    }
}

/// Renderings joined by `, `.
pub open spec fn items_plain(items: Seq<Seq<char>>) -> Seq<char>
    decreases items.len(),
{
    if items.len() == 0 {
        Seq::empty()
    } else if items.len() == 1 {
        items[0]
    } else {
        items_plain(items.drop_last()) + ", "@ + items.last()
    }
}

/// `[a, b]` of renderings.
pub open spec fn items_text(items: Seq<Seq<char>>) -> Seq<char> {
    "["@ + items_plain(items) + "]"@
}

pub open spec fn kind_debug(k: AccountKind) -> Seq<char> {
    match k {
        AccountKind::User => "User"@,
        AccountKind::Bot => "Bot"@,
    }
}

pub open spec fn device_debug(d: Device) -> Seq<char> {
    match d {
        Device::Web => "Web"@,
        Device::Desktop => "Desktop"@,
        Device::Mobile => "Mobile"@,
    }
}

pub open spec fn status_debug(s: Status) -> Seq<char> {
    match s {
        Status::Online => "Online"@,
        Status::Idle => "Idle"@,
        Status::Invisible => "Invisible"@,
        Status::Dnd => "Dnd"@,
    }
}

pub open spec fn activity_type_debug(t: ActivityType) -> Seq<char> {
    match t {
        ActivityType::Playing => "Playing"@,
        ActivityType::Streaming => "Streaming"@,
        ActivityType::Listening => "Listening"@,
        ActivityType::Watching => "Watching"@,
        ActivityType::Custom => "Custom"@,
        ActivityType::Competing => "Competing"@,
        ActivityType::Hang => "Hang"@,
    }
}

pub open spec fn platform_debug(p: ActivityPlatform) -> Seq<char> {
    match p {
        ActivityPlatform::Desktop => "Desktop"@,
        ActivityPlatform::Samsung => "Samsung"@,
        ActivityPlatform::Xbox => "Xbox"@,
        ActivityPlatform::Ios => "Ios"@,
        ActivityPlatform::Android => "Android"@,
        ActivityPlatform::Embedded => "Embedded"@,
        ActivityPlatform::Ps4 => "Ps4"@,
        ActivityPlatform::Ps5 => "Ps5"@,
    }
}

pub open spec fn image_text(i: ImageAsset) -> Seq<char> {
    record_text("ImageAsset"@, seq![("image"@, opt_text(opt_view(i.image))), ("text"@, opt_text(opt_view(i.text)))])
}

pub open spec fn button_text(b: ActivityButton) -> Seq<char> {
    record_text("ActivityButton"@, seq![("name"@, opt_text(opt_view(b.name))), ("url"@, opt_text(opt_view(b.url)))])
}

pub open spec fn party_text(p: ActivityParty) -> Seq<char> {
    record_text(
        "ActivityParty"@,
        seq![("id"@, quoted(p.id@)), ("current"@, opt_text(opt_view(p.current))), ("max"@, opt_text(opt_view(p.max)))],
    )
}

pub open spec fn custom_text(c: CustomStatusConfig) -> Seq<char> {
    record_text(
        "CustomStatusConfig"@,
        seq![("text"@, opt_text(opt_view(c.text))), ("emoji"@, opt_text(opt_view(c.emoji)))],
    )
}

/// The debug rendering of a resolved activity.
pub open spec fn activity_text(a: ActivityConfig) -> Seq<char> {
    record_text(
        "ActivityConfig"@,
        seq![
            ("name"@, opt_text(opt_view(a.name))),
            ("activity_type"@, some_text(match a.activity_type {
                Some(t) => Some(activity_type_debug(t)),
                None => None,
            })),
            ("platform"@, some_text(match a.platform {
                Some(p) => Some(platform_debug(p)),
                None => None,
            })),
            ("timestamp"@, opt_text(opt_view(a.timestamp))),
            ("application_id"@, quoted(a.application_id@)),
            ("details"@, opt_text(opt_view(a.details))),
            ("url"@, opt_text(opt_view(a.url))),
            ("large_image"@, image_text(a.large_image)),
            ("small_image"@, image_text(a.small_image)),
            ("button"@, button_text(a.button)),
            ("button2"@, button_text(a.button2)),
            ("party"@, party_text(a.party)),
        ],
    )
}

/// The debug rendering of a resolved account; the token shows as
/// `<redacted>`.
pub open spec fn account_text(a: AccountConfig) -> Seq<char> {
    record_text(
        "AccountConfig"@,
        seq![
            ("name"@, quoted(a.name@)),
            ("token"@, "<redacted>"@),
            ("kind"@, kind_debug(a.kind)),
            ("device"@, some_text(match a.device {
                Some(d) => Some(device_debug(d)),
                None => None,
            })),
            ("status"@, some_text(match a.status {
                Some(s) => Some(status_debug(s)),
                None => None,
            })),
            ("custom_status"@, some_text(match a.custom_status {
                Some(c) => Some(custom_text(c)),
                None => None,
            })),
            ("activities"@, items_text(a.activities@.map_values(|x: ActivityConfig| activity_text(x)))),
        ],
    )
}

pub open spec fn partial_custom_text(c: PartialCustomStatus) -> Seq<char> {
    record_text(
        "PartialCustomStatus"@,
        seq![("text"@, opt_text(opt_view(c.text))), ("emoji"@, opt_text(opt_view(c.emoji)))],
    )
}

/// The debug rendering of a partial activity.
pub open spec fn partial_activity_text(a: PartialActivity) -> Seq<char> {
    record_text(
        "PartialActivity"@,
        seq![
            ("name"@, opt_text(opt_view(a.name))),
            ("activity_type"@, opt_text(opt_view(a.activity_type))),
            ("platform"@, opt_text(opt_view(a.platform))),
            ("timestamp"@, opt_text(opt_view(a.timestamp))),
            ("application_id"@, opt_text(opt_view(a.application_id))),
            ("details"@, opt_text(opt_view(a.details))),
            ("url"@, opt_text(opt_view(a.url))),
            ("large_image"@, opt_text(opt_view(a.large_image))),
            ("large_image_text"@, opt_text(opt_view(a.large_image_text))),
            ("small_image"@, opt_text(opt_view(a.small_image))),
            ("small_image_text"@, opt_text(opt_view(a.small_image_text))),
            ("button"@, opt_text(opt_view(a.button))),
            ("button_url"@, opt_text(opt_view(a.button_url))),
            ("button2"@, opt_text(opt_view(a.button2))),
            ("button2_url"@, opt_text(opt_view(a.button2_url))),
            ("party_id"@, opt_text(opt_view(a.party_id))),
            ("party_current"@, opt_text(opt_view(a.party_current))),
            ("party_max"@, opt_text(opt_view(a.party_max))),
        ],
    )
}

/// The debug rendering of a partial account; a token shows as
/// `<redacted>`.
pub open spec fn partial_account_text(p: PartialAccount) -> Seq<char> {
    record_text(
        "PartialAccount"@,
        seq![
            ("name"@, opt_text(opt_view(p.name))),
            ("token"@, secret_text(secret_view(p.token))),
            ("kind"@, opt_text(opt_view(p.kind))),
            ("device"@, opt_text(opt_view(p.device))),
            ("status"@, opt_text(opt_view(p.status))),
            ("custom_status"@, some_text(match p.custom_status {
                Some(c) => Some(partial_custom_text(c)),
                None => None,
            })),
            ("activity"@, some_text(match p.activity {
                Some(a) => Some(partial_activity_text(a)),
                None => None,
            })),
            ("activities"@, items_text(p.activities@.map_values(|x: PartialActivity| partial_activity_text(x)))),
        ],
    )
}

fn some_text_of(o: Option<String>) -> (r: String)
    ensures
        r@ == some_text(opt_view(o)),
{
    match o {
        Some(t) => String::from_str("Some(").concat(t.as_str()).concat(")"),
        None => String::from_str("None"),
    }
}

fn items_text_of(items: &Vec<String>) -> (r: String)
    ensures
        r@ == items_text(items@.map_values(|s: String| s@)),
{
    let ghost iv = items@.map_values(|s: String| s@);
    let mut out = String::new();
    let mut i: usize = 0;
    assert(iv.subrange(0, 0) =~= Seq::<Seq<char>>::empty());
    while i < items.len()
        invariant
            i <= items@.len(),
            iv == items@.map_values(|s: String| s@),
            out@ == items_plain(iv.subrange(0, i as int)),
        decreases items@.len() - i,
    {
        let ghost pre = iv.subrange(0, i as int);
        let ghost nxt = iv.subrange(0, i + 1);
        assert(nxt.drop_last() =~= pre);
        assert(nxt.last() == iv[i as int]);
        if i > 0 {
            out.append(", ");
        }
        out.append(items[i].as_str());
        i = i + 1;
        assert(out@ =~= items_plain(nxt));
    }
    assert(iv.subrange(0, items@.len() as int) =~= iv);
    String::from_str("[").concat(out.as_str()).concat("]")
}

fn kind_debug_of(k: AccountKind) -> (r: String)
    ensures
        r@ == kind_debug(k),
{
    match k {
        AccountKind::User => String::from_str("User"),
        AccountKind::Bot => String::from_str("Bot"),
    }
}

fn device_debug_of(d: &Option<Device>) -> (r: String)
    ensures
        r@ == some_text(match *d {
            Some(x) => Some(device_debug(x)),
            None => None,
        }),
{
    let inner = match d {
        Some(Device::Web) => Some(String::from_str("Web")),
        Some(Device::Desktop) => Some(String::from_str("Desktop")),
        Some(Device::Mobile) => Some(String::from_str("Mobile")),
        None => None,
    };
    some_text_of(inner)
}

fn status_debug_of(s: &Option<Status>) -> (r: String)
    ensures
        r@ == some_text(match *s {
            Some(x) => Some(status_debug(x)),
            None => None,
        }),
{
    let inner = match s {
        Some(Status::Online) => Some(String::from_str("Online")),
        Some(Status::Idle) => Some(String::from_str("Idle")),
        Some(Status::Invisible) => Some(String::from_str("Invisible")),
        Some(Status::Dnd) => Some(String::from_str("Dnd")),
        None => None,
    };
    some_text_of(inner)
}

fn activity_type_debug_of(t: &Option<ActivityType>) -> (r: String)
    ensures
        r@ == some_text(match *t {
            Some(x) => Some(activity_type_debug(x)),
            None => None,
        }),
{
    let inner = match t {
        Some(ActivityType::Playing) => Some(String::from_str("Playing")),
        Some(ActivityType::Streaming) => Some(String::from_str("Streaming")),
        Some(ActivityType::Listening) => Some(String::from_str("Listening")),
        Some(ActivityType::Watching) => Some(String::from_str("Watching")),
        Some(ActivityType::Custom) => Some(String::from_str("Custom")),
        Some(ActivityType::Competing) => Some(String::from_str("Competing")),
        Some(ActivityType::Hang) => Some(String::from_str("Hang")),
        None => None,
    };
    some_text_of(inner)
}

fn platform_debug_of(p: &Option<ActivityPlatform>) -> (r: String)
    ensures
        r@ == some_text(match *p {
            Some(x) => Some(platform_debug(x)),
            None => None,
        }),
{
    let inner = match p {
        Some(ActivityPlatform::Desktop) => Some(String::from_str("Desktop")),
        Some(ActivityPlatform::Samsung) => Some(String::from_str("Samsung")),
        Some(ActivityPlatform::Xbox) => Some(String::from_str("Xbox")),
        Some(ActivityPlatform::Ios) => Some(String::from_str("Ios")),
        Some(ActivityPlatform::Android) => Some(String::from_str("Android")),
        Some(ActivityPlatform::Embedded) => Some(String::from_str("Embedded")),
        Some(ActivityPlatform::Ps4) => Some(String::from_str("Ps4")),
        Some(ActivityPlatform::Ps5) => Some(String::from_str("Ps5")),
        None => None,
    };
    some_text_of(inner)
}

impl ImageAsset {
    pub fn debug_text(&self) -> (r: String)
        ensures
            r@ == image_text(*self),
    {
        let mut f: Vec<(String, String)> = Vec::new();
        f.push(field("image", opt_text_of(&self.image)));
        f.push(field("text", opt_text_of(&self.text)));
        assert(fields_view(f@) =~= seq![("image"@, opt_text(opt_view(self.image))), ("text"@, opt_text(opt_view(self.text)))]);
        record_text_of("ImageAsset", &f)
    }
}

impl ActivityButton {
    pub fn debug_text(&self) -> (r: String)
        ensures
            r@ == button_text(*self),
    {
        let mut f: Vec<(String, String)> = Vec::new();
        f.push(field("name", opt_text_of(&self.name)));
        f.push(field("url", opt_text_of(&self.url)));
        assert(fields_view(f@) =~= seq![("name"@, opt_text(opt_view(self.name))), ("url"@, opt_text(opt_view(self.url)))]);
        record_text_of("ActivityButton", &f)
    }
}

impl ActivityParty {
    pub fn debug_text(&self) -> (r: String)
        ensures
            r@ == party_text(*self),
    {
        let mut f: Vec<(String, String)> = Vec::new();
        f.push(field("id", quote(self.id.as_str())));
        f.push(field("current", opt_text_of(&self.current)));
        f.push(field("max", opt_text_of(&self.max)));
        assert(fields_view(f@) =~= seq![
            ("id"@, quoted(self.id@)),
            ("current"@, opt_text(opt_view(self.current))),
            ("max"@, opt_text(opt_view(self.max))),
        ]);
        record_text_of("ActivityParty", &f)
    }
}

impl CustomStatusConfig {
    pub fn debug_text(&self) -> (r: String)
        ensures
            r@ == custom_text(*self),
    {
        let mut f: Vec<(String, String)> = Vec::new();
        f.push(field("text", opt_text_of(&self.text)));
        f.push(field("emoji", opt_text_of(&self.emoji)));
        assert(fields_view(f@) =~= seq![("text"@, opt_text(opt_view(self.text))), ("emoji"@, opt_text(opt_view(self.emoji)))]);
        record_text_of("CustomStatusConfig", &f)
    }
}

impl ActivityConfig {
    pub fn debug_text(&self) -> (r: String)
        ensures
            r@ == activity_text(*self),
    {
        let mut f: Vec<(String, String)> = Vec::new();
        f.push(field("name", opt_text_of(&self.name)));
        f.push(field("activity_type", activity_type_debug_of(&self.activity_type)));
        f.push(field("platform", platform_debug_of(&self.platform)));
        f.push(field("timestamp", opt_text_of(&self.timestamp)));
        f.push(field("application_id", quote(self.application_id.as_str())));
        f.push(field("details", opt_text_of(&self.details)));
        f.push(field("url", opt_text_of(&self.url)));
        f.push(field("large_image", self.large_image.debug_text()));
        f.push(field("small_image", self.small_image.debug_text()));
        f.push(field("button", self.button.debug_text()));
        f.push(field("button2", self.button2.debug_text()));
        f.push(field("party", self.party.debug_text()));
        let ghost a = *self;
        assert(fields_view(f@) =~= seq![
            ("name"@, opt_text(opt_view(a.name))),
            ("activity_type"@, some_text(match a.activity_type {
                Some(t) => Some(activity_type_debug(t)),
                None => None,
            })),
            ("platform"@, some_text(match a.platform {
                Some(p) => Some(platform_debug(p)),
                None => None,
            })),
            ("timestamp"@, opt_text(opt_view(a.timestamp))),
            ("application_id"@, quoted(a.application_id@)),
            ("details"@, opt_text(opt_view(a.details))),
            ("url"@, opt_text(opt_view(a.url))),
            ("large_image"@, image_text(a.large_image)),
            ("small_image"@, image_text(a.small_image)),
            ("button"@, button_text(a.button)),
            ("button2"@, button_text(a.button2)),
            ("party"@, party_text(a.party)),
        ]);
        record_text_of("ActivityConfig", &f)
    }
}

impl AccountConfig {
    /// A debug rendering of every field, with the token shown as
    /// `<redacted>`.
    pub fn debug_text(&self) -> (r: String)
        ensures
            r@ == account_text(*self),
    {
        let mut acts: Vec<String> = Vec::new();
        let mut i: usize = 0;
        while i < self.activities.len()
            invariant
                i <= self.activities@.len(),
                acts@.len() == i,
                forall|j: int| 0 <= j < i ==> (#[trigger] acts@[j])@ == activity_text(self.activities@[j]),
            decreases self.activities@.len() - i,
        {
            acts.push(self.activities[i].debug_text());
            i = i + 1;
        }
        assert(acts@.map_values(|s: String| s@) =~= self.activities@.map_values(|x: ActivityConfig| activity_text(x)));
        let custom = match &self.custom_status {
            Some(c) => Some(c.debug_text()),
            None => None,
        };
        let mut f: Vec<(String, String)> = Vec::new();
        f.push(field("name", quote(self.name.as_str())));
        f.push(field("token", String::from_str(self.token.debug_text())));
        f.push(field("kind", kind_debug_of(self.kind)));
        f.push(field("device", device_debug_of(&self.device)));
        f.push(field("status", status_debug_of(&self.status)));
        f.push(field("custom_status", some_text_of(custom)));
        f.push(field("activities", items_text_of(&acts)));
        let ghost a = *self;
        assert(fields_view(f@) =~= seq![
            ("name"@, quoted(a.name@)),
            ("token"@, "<redacted>"@),
            ("kind"@, kind_debug(a.kind)),
            ("device"@, some_text(match a.device {
                Some(d) => Some(device_debug(d)),
                None => None,
            })),
            ("status"@, some_text(match a.status {
                Some(s) => Some(status_debug(s)),
                None => None,
            })),
            ("custom_status"@, some_text(match a.custom_status {
                Some(c) => Some(custom_text(c)),
                None => None,
            })),
            ("activities"@, items_text(a.activities@.map_values(|x: ActivityConfig| activity_text(x)))),
        ]);
        record_text_of("AccountConfig", &f)
    }
}

fn partial_custom_text_of(c: &PartialCustomStatus) -> (r: String)
    ensures
        r@ == partial_custom_text(*c),
{
    let mut f: Vec<(String, String)> = Vec::new();
    f.push(field("text", opt_text_of(&c.text)));
    f.push(field("emoji", opt_text_of(&c.emoji)));
    assert(fields_view(f@) =~= seq![("text"@, opt_text(opt_view(c.text))), ("emoji"@, opt_text(opt_view(c.emoji)))]);
    record_text_of("PartialCustomStatus", &f)
}

fn partial_activity_text_of(a: &PartialActivity) -> (r: String)
    ensures
        r@ == partial_activity_text(*a),
{
    let mut f: Vec<(String, String)> = Vec::new();
    f.push(field("name", opt_text_of(&a.name)));
    f.push(field("activity_type", opt_text_of(&a.activity_type)));
    f.push(field("platform", opt_text_of(&a.platform)));
    f.push(field("timestamp", opt_text_of(&a.timestamp)));
    f.push(field("application_id", opt_text_of(&a.application_id)));
    f.push(field("details", opt_text_of(&a.details)));
    f.push(field("url", opt_text_of(&a.url)));
    f.push(field("large_image", opt_text_of(&a.large_image)));
    f.push(field("large_image_text", opt_text_of(&a.large_image_text)));
    f.push(field("small_image", opt_text_of(&a.small_image)));
    f.push(field("small_image_text", opt_text_of(&a.small_image_text)));
    f.push(field("button", opt_text_of(&a.button)));
    f.push(field("button_url", opt_text_of(&a.button_url)));
    f.push(field("button2", opt_text_of(&a.button2)));
    f.push(field("button2_url", opt_text_of(&a.button2_url)));
    f.push(field("party_id", opt_text_of(&a.party_id)));
    f.push(field("party_current", opt_text_of(&a.party_current)));
    f.push(field("party_max", opt_text_of(&a.party_max)));
    assert(fields_view(f@) =~= seq![
        ("name"@, opt_text(opt_view(a.name))),
        ("activity_type"@, opt_text(opt_view(a.activity_type))),
        ("platform"@, opt_text(opt_view(a.platform))),
        ("timestamp"@, opt_text(opt_view(a.timestamp))),
        ("application_id"@, opt_text(opt_view(a.application_id))),
        ("details"@, opt_text(opt_view(a.details))),
        ("url"@, opt_text(opt_view(a.url))),
        ("large_image"@, opt_text(opt_view(a.large_image))),
        ("large_image_text"@, opt_text(opt_view(a.large_image_text))),
        ("small_image"@, opt_text(opt_view(a.small_image))),
        ("small_image_text"@, opt_text(opt_view(a.small_image_text))),
        ("button"@, opt_text(opt_view(a.button))),
        ("button_url"@, opt_text(opt_view(a.button_url))),
        ("button2"@, opt_text(opt_view(a.button2))),
        ("button2_url"@, opt_text(opt_view(a.button2_url))),
        ("party_id"@, opt_text(opt_view(a.party_id))),
        ("party_current"@, opt_text(opt_view(a.party_current))),
        ("party_max"@, opt_text(opt_view(a.party_max))),
    ]);
    record_text_of("PartialActivity", &f)
}

impl PartialAccount {
    /// A debug rendering of every field, with a token shown as
    /// `<redacted>`.
    pub fn debug_text(&self) -> (r: String)
        ensures
            r@ == partial_account_text(*self),
    {
        let mut acts: Vec<String> = Vec::new();
        let mut i: usize = 0;
        while i < self.activities.len()
            invariant
                i <= self.activities@.len(),
                acts@.len() == i,
                forall|j: int| 0 <= j < i ==> (#[trigger] acts@[j])@ == partial_activity_text(self.activities@[j]),
            decreases self.activities@.len() - i,
        {
            acts.push(partial_activity_text_of(&self.activities[i]));
            i = i + 1;
        }
        assert(acts@.map_values(|s: String| s@) =~= self.activities@.map_values(
            |x: PartialActivity| partial_activity_text(x),
        ));
        let custom = match &self.custom_status {
            Some(c) => Some(partial_custom_text_of(c)),
            None => None,
        };
        let single = match &self.activity {
            Some(a) => Some(partial_activity_text_of(a)),
            None => None,
        };
        let mut f: Vec<(String, String)> = Vec::new();
        f.push(field("name", opt_text_of(&self.name)));
        f.push(field("token", secret_text_of(&self.token)));
        f.push(field("kind", opt_text_of(&self.kind)));
        f.push(field("device", opt_text_of(&self.device)));
        f.push(field("status", opt_text_of(&self.status)));
        f.push(field("custom_status", some_text_of(custom)));
        f.push(field("activity", some_text_of(single)));
        f.push(field("activities", items_text_of(&acts)));
        let ghost p = *self;
        assert(fields_view(f@) =~= seq![
            ("name"@, opt_text(opt_view(p.name))),
            ("token"@, secret_text(secret_view(p.token))),
            ("kind"@, opt_text(opt_view(p.kind))),
            ("device"@, opt_text(opt_view(p.device))),
            ("status"@, opt_text(opt_view(p.status))),
            ("custom_status"@, some_text(match p.custom_status {
                Some(c) => Some(partial_custom_text(c)),
                None => None,
            })),
            ("activity"@, some_text(match p.activity {
                Some(a) => Some(partial_activity_text(a)),
                None => None,
            })),
            ("activities"@, items_text(p.activities@.map_values(|x: PartialActivity| partial_activity_text(x)))),
        ]);
        record_text_of("PartialAccount", &f)
    }
}

/// A resolved account renders the same whatever its token holds.
pub proof fn lemma_account_text_hides_token(a: AccountConfig, b: AccountConfig)
    requires
        a.name == b.name,
        a.kind == b.kind,
        a.device == b.device,
        a.status == b.status,
        a.custom_status == b.custom_status,
        a.activities@ == b.activities@,
    ensures
        account_text(a) == account_text(b),
{
}

/// A partial account renders the same whatever text its token holds.
pub proof fn lemma_partial_account_text_hides_token(p: PartialAccount, q: PartialAccount)
    requires
        p.name == q.name,
        p.token is Some == q.token is Some,
        p.kind == q.kind,
        p.device == q.device,
        p.status == q.status,
        p.custom_status == q.custom_status,
        p.activity == q.activity,
        p.activities@ == q.activities@,
    ensures
        partial_account_text(p) == partial_account_text(q),
{
}

} // verus!
