//! The field catalog: for every leaf of a layer, its TOML key, its
//! environment suffix, its command-line flag and its `--set` path segment.

use crate::config::partial::{
    AccountScalars, Leaves, PartialAccount, PartialActivity, PartialClientProperties,
    PartialCustomStatus, PartialDefaults,
};
use crate::config::token::SecretString;
use crate::gateway::properties::{ClientProperties, Defaults};
use crate::json::opt_ref_view;
use crate::text::{ascii_lower, is_empty_str, opt_view};
use vstd::prelude::*;

verus! {

/// Where one leaf appears in each source.
#[derive(Debug, Clone, Copy, PartialEq, Eq)]
pub struct FieldSpec {
    pub toml: &'static str,
    pub env_suffix: Option<&'static str>,
    pub cli_long: Option<&'static str>,
    pub set_suffix: &'static str,
}

/// The four names of a leaf, as character sequences.
pub struct FieldNames {
    pub toml: Seq<char>,
    pub env_suffix: Option<Seq<char>>,
    pub cli_long: Option<Seq<char>>,
    pub set_suffix: Seq<char>,
}

/// What a `FieldSpec` says.
pub open spec fn names_of(s: FieldSpec) -> FieldNames {
    FieldNames {
        toml: s.toml@,
        env_suffix: opt_ref_view(s.env_suffix),
        cli_long: opt_ref_view(s.cli_long),
        set_suffix: s.set_suffix@,
    }
}

/// The client-property profiles.
#[derive(Debug, Clone, Copy, PartialEq, Eq)]
pub enum DefaultsProfile {
    Bot,
    Web,
    Desktop,
    Mobile,
}

impl DefaultsProfile {
    /// Position among the profiles.
    pub open spec fn index(self) -> int {
        match self {
            DefaultsProfile::Bot => 0,
            DefaultsProfile::Web => 1,
            DefaultsProfile::Desktop => 2,
            DefaultsProfile::Mobile => 3,
        }
    }

    pub open spec fn prefix_spec(self) -> Seq<char> {
        match self {
            DefaultsProfile::Bot => "DEFAULTS_BOT_"@,
            DefaultsProfile::Web => "DEFAULTS_WEB_"@,
            DefaultsProfile::Desktop => "DEFAULTS_DESKTOP_"@,
            DefaultsProfile::Mobile => "DEFAULTS_MOBILE_"@,
        }
    }

    pub open spec fn toml_spec(self) -> Seq<char> {
        match self {
            DefaultsProfile::Bot => "bot"@,
            DefaultsProfile::Web => "web"@,
            DefaultsProfile::Desktop => "desktop"@,
            DefaultsProfile::Mobile => "mobile"@,
        }
    }

    /// Every profile, in order.
    pub fn all() -> (r: Vec<DefaultsProfile>)
        ensures
            r@ == seq![DefaultsProfile::Bot, DefaultsProfile::Web, DefaultsProfile::Desktop, DefaultsProfile::Mobile],
    {
        vec![DefaultsProfile::Bot, DefaultsProfile::Web, DefaultsProfile::Desktop, DefaultsProfile::Mobile]
    }

    pub fn env_prefix(self) -> (r: &'static str)
        ensures
            r@ == self.prefix_spec(),
    {
        match self {
            DefaultsProfile::Bot => "DEFAULTS_BOT_",
            DefaultsProfile::Web => "DEFAULTS_WEB_",
            DefaultsProfile::Desktop => "DEFAULTS_DESKTOP_",
            DefaultsProfile::Mobile => "DEFAULTS_MOBILE_",
        }
    }

    pub fn toml(self) -> (r: &'static str)
        ensures
            r@ == self.toml_spec(),
    {
        match self {
            DefaultsProfile::Bot => "bot",
            DefaultsProfile::Web => "web",
            DefaultsProfile::Desktop => "desktop",
            DefaultsProfile::Mobile => "mobile",
        }
    }

    /// The overrides of this profile.
    pub fn props_mut(self, defaults: &mut PartialDefaults) -> (r: &mut PartialClientProperties)
        ensures
            (*r)@ == old(defaults)@[self.index()],
            final(defaults)@ == old(defaults)@.update(self.index(), (*final(r))@),
    {
        match self {
            DefaultsProfile::Bot => &mut defaults.bot,
            DefaultsProfile::Web => &mut defaults.web,
            DefaultsProfile::Desktop => &mut defaults.desktop,
            DefaultsProfile::Mobile => &mut defaults.mobile,
        }
    }
}

/// A client-property leaf.
#[derive(Debug, Clone, Copy, PartialEq, Eq)]
pub enum ClientPropField {
    Os,
    Browser,
    Device,
    UserAgent,
}

impl ClientPropField {
    /// Position in the catalog and among the leaves of the record.
    pub open spec fn index(self) -> int {
        match self {
            ClientPropField::Os => 0,
            ClientPropField::Browser => 1,
            ClientPropField::Device => 2,
            ClientPropField::UserAgent => 3,
        }
    }

    /// The names of this leaf.
    pub open spec fn names(self) -> FieldNames {
        match self {
            ClientPropField::Os => FieldNames { toml: "os"@, env_suffix: Some("OS"@), cli_long: None::<Seq<char>>, set_suffix: "os"@ },
            ClientPropField::Browser => FieldNames { toml: "browser"@, env_suffix: Some("BROWSER"@), cli_long: None::<Seq<char>>, set_suffix: "browser"@ },
            ClientPropField::Device => FieldNames { toml: "device"@, env_suffix: Some("DEVICE"@), cli_long: None::<Seq<char>>, set_suffix: "device"@ },
            ClientPropField::UserAgent => FieldNames { toml: "user_agent"@, env_suffix: Some("USER_AGENT"@), cli_long: None::<Seq<char>>, set_suffix: "user_agent"@ },
        }
    }

    /// Every leaf, in catalog order.
    pub fn all() -> (r: Vec<ClientPropField>)
        ensures
            r@ == seq![ClientPropField::Os, ClientPropField::Browser, ClientPropField::Device, ClientPropField::UserAgent],
    {
        vec![ClientPropField::Os, ClientPropField::Browser, ClientPropField::Device, ClientPropField::UserAgent]
    }

    pub fn spec(self) -> (r: FieldSpec)
        ensures
            names_of(r) == self.names(),
    {
        match self {
            ClientPropField::Os => FieldSpec { toml: "os", env_suffix: Some("OS"), cli_long: None, set_suffix: "os" },
            ClientPropField::Browser => FieldSpec { toml: "browser", env_suffix: Some("BROWSER"), cli_long: None, set_suffix: "browser" },
            ClientPropField::Device => FieldSpec { toml: "device", env_suffix: Some("DEVICE"), cli_long: None, set_suffix: "device" },
            ClientPropField::UserAgent => FieldSpec { toml: "user_agent", env_suffix: Some("USER_AGENT"), cli_long: None, set_suffix: "user_agent" },
        }
    }

    pub fn env_suffix(self) -> (r: &'static str)
        ensures
            Some(r@) == self.names().env_suffix,
    {
        match self {
            ClientPropField::Os => "OS",
            ClientPropField::Browser => "BROWSER",
            ClientPropField::Device => "DEVICE",
            ClientPropField::UserAgent => "USER_AGENT",
        }
    }

    /// The leaf of `target` that this field names.
    pub fn get_mut(self, target: &mut PartialClientProperties) -> (r: &mut Option<String>)
        ensures
            opt_view(*r) == old(target)@[self.index()],
            final(target)@ == old(target)@.update(self.index(), opt_view(*final(r))),
    {
        match self {
            ClientPropField::Os => &mut target.os,
            ClientPropField::Browser => &mut target.browser,
            ClientPropField::Device => &mut target.device,
            ClientPropField::UserAgent => &mut target.user_agent,
        }
    }

}

/// A plain account setting.
#[derive(Debug, Clone, Copy, PartialEq, Eq)]
pub enum AccountScalarField {
    Token,
    Name,
    Kind,
    Device,
    Status,
}

impl AccountScalarField {
    /// Position in the catalog and among the leaves of the record.
    pub open spec fn index(self) -> int {
        match self {
            AccountScalarField::Token => 0,
            AccountScalarField::Name => 1,
            AccountScalarField::Kind => 2,
            AccountScalarField::Device => 3,
            AccountScalarField::Status => 4,
        }
    }

    /// The names of this leaf.
    pub open spec fn names(self) -> FieldNames {
        match self {
            AccountScalarField::Token => FieldNames { toml: "token"@, env_suffix: Some("TOKEN"@), cli_long: Some("token"@), set_suffix: "token"@ },
            AccountScalarField::Name => FieldNames { toml: "name"@, env_suffix: None::<Seq<char>>, cli_long: Some("account"@), set_suffix: "name"@ },
            AccountScalarField::Kind => FieldNames { toml: "kind"@, env_suffix: Some("KIND"@), cli_long: Some("kind"@), set_suffix: "kind"@ },
            AccountScalarField::Device => FieldNames { toml: "device"@, env_suffix: Some("DEVICE"@), cli_long: Some("device"@), set_suffix: "device"@ },
            AccountScalarField::Status => FieldNames { toml: "status"@, env_suffix: Some("STATUS"@), cli_long: Some("status"@), set_suffix: "status"@ },
        }
    }

    /// Every leaf, in catalog order.
    pub fn all() -> (r: Vec<AccountScalarField>)
        ensures
            r@ == seq![AccountScalarField::Token, AccountScalarField::Name, AccountScalarField::Kind, AccountScalarField::Device, AccountScalarField::Status],
    {
        vec![AccountScalarField::Token, AccountScalarField::Name, AccountScalarField::Kind, AccountScalarField::Device, AccountScalarField::Status]
    }

    pub fn spec(self) -> (r: FieldSpec)
        ensures
            names_of(r) == self.names(),
    {
        match self {
            AccountScalarField::Token => FieldSpec { toml: "token", env_suffix: Some("TOKEN"), cli_long: Some("token"), set_suffix: "token" },
            AccountScalarField::Name => FieldSpec { toml: "name", env_suffix: None, cli_long: Some("account"), set_suffix: "name" },
            AccountScalarField::Kind => FieldSpec { toml: "kind", env_suffix: Some("KIND"), cli_long: Some("kind"), set_suffix: "kind" },
            AccountScalarField::Device => FieldSpec { toml: "device", env_suffix: Some("DEVICE"), cli_long: Some("device"), set_suffix: "device" },
            AccountScalarField::Status => FieldSpec { toml: "status", env_suffix: Some("STATUS"), cli_long: Some("status"), set_suffix: "status" },
        }
    }

    pub fn env_suffix(self) -> (r: Option<&'static str>)
        ensures
            opt_ref_view(r) == self.names().env_suffix,
    {
        self.spec().env_suffix
    }

    pub fn cli_long(self) -> (r: &'static str)
        ensures
            Some(r@) == self.names().cli_long,
    {
        match self {
            AccountScalarField::Token => "token",
            AccountScalarField::Name => "account",
            AccountScalarField::Kind => "kind",
            AccountScalarField::Device => "device",
            AccountScalarField::Status => "status",
        }
    }

}

/// A custom-status leaf.
#[derive(Debug, Clone, Copy, PartialEq, Eq)]
pub enum CustomStatusField {
    Text,
    Emoji,
}

impl CustomStatusField {
    /// Position in the catalog and among the leaves of the record.
    pub open spec fn index(self) -> int {
        match self {
            CustomStatusField::Text => 0,
            CustomStatusField::Emoji => 1,
        }
    }

    /// The names of this leaf.
    pub open spec fn names(self) -> FieldNames {
        match self {
            CustomStatusField::Text => FieldNames { toml: "text"@, env_suffix: Some("CUSTOM_STATUS"@), cli_long: Some("custom-status"@), set_suffix: "text"@ },
            CustomStatusField::Emoji => FieldNames { toml: "emoji"@, env_suffix: Some("CUSTOM_STATUS_EMOJI"@), cli_long: Some("custom-status-emoji"@), set_suffix: "emoji"@ },
        }
    }

    /// Every leaf, in catalog order.
    pub fn all() -> (r: Vec<CustomStatusField>)
        ensures
            r@ == seq![CustomStatusField::Text, CustomStatusField::Emoji],
    {
        vec![CustomStatusField::Text, CustomStatusField::Emoji]
    }

    pub fn spec(self) -> (r: FieldSpec)
        ensures
            names_of(r) == self.names(),
    {
        match self {
            CustomStatusField::Text => FieldSpec { toml: "text", env_suffix: Some("CUSTOM_STATUS"), cli_long: Some("custom-status"), set_suffix: "text" },
            CustomStatusField::Emoji => FieldSpec { toml: "emoji", env_suffix: Some("CUSTOM_STATUS_EMOJI"), cli_long: Some("custom-status-emoji"), set_suffix: "emoji" },
        }
    }

    pub fn env_suffix(self) -> (r: &'static str)
        ensures
            Some(r@) == self.names().env_suffix,
    {
        match self {
            CustomStatusField::Text => "CUSTOM_STATUS",
            CustomStatusField::Emoji => "CUSTOM_STATUS_EMOJI",
        }
    }

    pub fn cli_long(self) -> (r: &'static str)
        ensures
            Some(r@) == self.names().cli_long,
    {
        match self {
            CustomStatusField::Text => "custom-status",
            CustomStatusField::Emoji => "custom-status-emoji",
        }
    }

    /// The leaf of `target` that this field names.
    pub fn get_mut(self, target: &mut PartialCustomStatus) -> (r: &mut Option<String>)
        ensures
            opt_view(*r) == old(target)@[self.index()],
            final(target)@ == old(target)@.update(self.index(), opt_view(*final(r))),
    {
        match self {
            CustomStatusField::Text => &mut target.text,
            CustomStatusField::Emoji => &mut target.emoji,
        }
    }

}

/// An activity leaf.
#[derive(Debug, Clone, Copy, PartialEq, Eq)]
pub enum ActivityField {
    Name,
    Type,
    Platform,
    Timestamp,
    ApplicationId,
    Details,
    Url,
    LargeImage,
    LargeImageText,
    SmallImage,
    SmallImageText,
    Button,
    ButtonUrl,
    Button2,
    Button2Url,
    PartyId,
    PartyCurrent,
    PartyMax,
}

impl ActivityField {
    /// Position in the catalog and among the leaves of the record.
    pub open spec fn index(self) -> int {
        match self {
            ActivityField::Name => 0,
            ActivityField::Type => 1,
            ActivityField::Platform => 2,
            ActivityField::Timestamp => 3,
            ActivityField::ApplicationId => 4,
            ActivityField::Details => 5,
            ActivityField::Url => 6,
            ActivityField::LargeImage => 7,
            ActivityField::LargeImageText => 8,
            ActivityField::SmallImage => 9,
            ActivityField::SmallImageText => 10,
            ActivityField::Button => 11,
            ActivityField::ButtonUrl => 12,
            ActivityField::Button2 => 13,
            ActivityField::Button2Url => 14,
            ActivityField::PartyId => 15,
            ActivityField::PartyCurrent => 16,
            ActivityField::PartyMax => 17,
        }
    }

    /// The names of this leaf.
    pub open spec fn names(self) -> FieldNames {
        match self {
            ActivityField::Name => FieldNames { toml: "name"@, env_suffix: None::<Seq<char>>, cli_long: Some("activity"@), set_suffix: "name"@ },
            ActivityField::Type => FieldNames { toml: "type"@, env_suffix: Some("TYPE"@), cli_long: Some("activity-type"@), set_suffix: "type"@ },
            ActivityField::Platform => FieldNames { toml: "platform"@, env_suffix: Some("PLATFORM"@), cli_long: Some("activity-platform"@), set_suffix: "platform"@ },
            ActivityField::Timestamp => FieldNames { toml: "timestamp"@, env_suffix: Some("TIMESTAMP"@), cli_long: Some("activity-timestamp"@), set_suffix: "timestamp"@ },
            ActivityField::ApplicationId => FieldNames { toml: "application_id"@, env_suffix: Some("APPLICATION_ID"@), cli_long: Some("activity-application-id"@), set_suffix: "application_id"@ },
            ActivityField::Details => FieldNames { toml: "details"@, env_suffix: Some("DETAILS"@), cli_long: Some("activity-details"@), set_suffix: "details"@ },
            ActivityField::Url => FieldNames { toml: "url"@, env_suffix: Some("URL"@), cli_long: Some("activity-url"@), set_suffix: "url"@ },
            ActivityField::LargeImage => FieldNames { toml: "large_image"@, env_suffix: Some("LARGE_IMAGE"@), cli_long: Some("activity-large-image"@), set_suffix: "large_image"@ },
            ActivityField::LargeImageText => FieldNames { toml: "large_image_text"@, env_suffix: Some("LARGE_IMAGE_TEXT"@), cli_long: Some("activity-large-image-text"@), set_suffix: "large_image_text"@ },
            ActivityField::SmallImage => FieldNames { toml: "small_image"@, env_suffix: Some("SMALL_IMAGE"@), cli_long: Some("activity-small-image"@), set_suffix: "small_image"@ },
            ActivityField::SmallImageText => FieldNames { toml: "small_image_text"@, env_suffix: Some("SMALL_IMAGE_TEXT"@), cli_long: Some("activity-small-image-text"@), set_suffix: "small_image_text"@ },
            ActivityField::Button => FieldNames { toml: "button"@, env_suffix: Some("BUTTON"@), cli_long: Some("activity-button"@), set_suffix: "button"@ },
            ActivityField::ButtonUrl => FieldNames { toml: "button_url"@, env_suffix: Some("BUTTON_URL"@), cli_long: Some("activity-button-url"@), set_suffix: "button_url"@ },
            ActivityField::Button2 => FieldNames { toml: "button2"@, env_suffix: Some("BUTTON_2"@), cli_long: Some("activity-button-2"@), set_suffix: "button2"@ },
            ActivityField::Button2Url => FieldNames { toml: "button2_url"@, env_suffix: Some("BUTTON_2_URL"@), cli_long: Some("activity-button-2-url"@), set_suffix: "button2_url"@ },
            ActivityField::PartyId => FieldNames { toml: "party_id"@, env_suffix: Some("PARTY_ID"@), cli_long: Some("activity-party-id"@), set_suffix: "party_id"@ },
            ActivityField::PartyCurrent => FieldNames { toml: "party_current"@, env_suffix: Some("PARTY_CURRENT"@), cli_long: Some("activity-party-current"@), set_suffix: "party_current"@ },
            ActivityField::PartyMax => FieldNames { toml: "party_max"@, env_suffix: Some("PARTY_MAX"@), cli_long: Some("activity-party-max"@), set_suffix: "party_max"@ },
        }
    }

    /// Every leaf, in catalog order.
    pub fn all() -> (r: Vec<ActivityField>)
        ensures
            r@ == seq![ActivityField::Name, ActivityField::Type, ActivityField::Platform, ActivityField::Timestamp, ActivityField::ApplicationId, ActivityField::Details, ActivityField::Url, ActivityField::LargeImage, ActivityField::LargeImageText, ActivityField::SmallImage, ActivityField::SmallImageText, ActivityField::Button, ActivityField::ButtonUrl, ActivityField::Button2, ActivityField::Button2Url, ActivityField::PartyId, ActivityField::PartyCurrent, ActivityField::PartyMax],
    {
        vec![ActivityField::Name, ActivityField::Type, ActivityField::Platform, ActivityField::Timestamp, ActivityField::ApplicationId, ActivityField::Details, ActivityField::Url, ActivityField::LargeImage, ActivityField::LargeImageText, ActivityField::SmallImage, ActivityField::SmallImageText, ActivityField::Button, ActivityField::ButtonUrl, ActivityField::Button2, ActivityField::Button2Url, ActivityField::PartyId, ActivityField::PartyCurrent, ActivityField::PartyMax]
    }

    pub fn spec(self) -> (r: FieldSpec)
        ensures
            names_of(r) == self.names(),
    {
        match self {
            ActivityField::Name => FieldSpec { toml: "name", env_suffix: None, cli_long: Some("activity"), set_suffix: "name" },
            ActivityField::Type => FieldSpec { toml: "type", env_suffix: Some("TYPE"), cli_long: Some("activity-type"), set_suffix: "type" },
            ActivityField::Platform => FieldSpec { toml: "platform", env_suffix: Some("PLATFORM"), cli_long: Some("activity-platform"), set_suffix: "platform" },
            ActivityField::Timestamp => FieldSpec { toml: "timestamp", env_suffix: Some("TIMESTAMP"), cli_long: Some("activity-timestamp"), set_suffix: "timestamp" },
            ActivityField::ApplicationId => FieldSpec { toml: "application_id", env_suffix: Some("APPLICATION_ID"), cli_long: Some("activity-application-id"), set_suffix: "application_id" },
            ActivityField::Details => FieldSpec { toml: "details", env_suffix: Some("DETAILS"), cli_long: Some("activity-details"), set_suffix: "details" },
            ActivityField::Url => FieldSpec { toml: "url", env_suffix: Some("URL"), cli_long: Some("activity-url"), set_suffix: "url" },
            ActivityField::LargeImage => FieldSpec { toml: "large_image", env_suffix: Some("LARGE_IMAGE"), cli_long: Some("activity-large-image"), set_suffix: "large_image" },
            ActivityField::LargeImageText => FieldSpec { toml: "large_image_text", env_suffix: Some("LARGE_IMAGE_TEXT"), cli_long: Some("activity-large-image-text"), set_suffix: "large_image_text" },
            ActivityField::SmallImage => FieldSpec { toml: "small_image", env_suffix: Some("SMALL_IMAGE"), cli_long: Some("activity-small-image"), set_suffix: "small_image" },
            ActivityField::SmallImageText => FieldSpec { toml: "small_image_text", env_suffix: Some("SMALL_IMAGE_TEXT"), cli_long: Some("activity-small-image-text"), set_suffix: "small_image_text" },
            ActivityField::Button => FieldSpec { toml: "button", env_suffix: Some("BUTTON"), cli_long: Some("activity-button"), set_suffix: "button" },
            ActivityField::ButtonUrl => FieldSpec { toml: "button_url", env_suffix: Some("BUTTON_URL"), cli_long: Some("activity-button-url"), set_suffix: "button_url" },
            ActivityField::Button2 => FieldSpec { toml: "button2", env_suffix: Some("BUTTON_2"), cli_long: Some("activity-button-2"), set_suffix: "button2" },
            ActivityField::Button2Url => FieldSpec { toml: "button2_url", env_suffix: Some("BUTTON_2_URL"), cli_long: Some("activity-button-2-url"), set_suffix: "button2_url" },
            ActivityField::PartyId => FieldSpec { toml: "party_id", env_suffix: Some("PARTY_ID"), cli_long: Some("activity-party-id"), set_suffix: "party_id" },
            ActivityField::PartyCurrent => FieldSpec { toml: "party_current", env_suffix: Some("PARTY_CURRENT"), cli_long: Some("activity-party-current"), set_suffix: "party_current" },
            ActivityField::PartyMax => FieldSpec { toml: "party_max", env_suffix: Some("PARTY_MAX"), cli_long: Some("activity-party-max"), set_suffix: "party_max" },
        }
    }

    pub fn env_suffix(self) -> (r: Option<&'static str>)
        ensures
            opt_ref_view(r) == self.names().env_suffix,
    {
        self.spec().env_suffix
    }

    pub fn cli_long(self) -> (r: &'static str)
        ensures
            Some(r@) == self.names().cli_long,
    {
        match self {
            ActivityField::Name => "activity",
            ActivityField::Type => "activity-type",
            ActivityField::Platform => "activity-platform",
            ActivityField::Timestamp => "activity-timestamp",
            ActivityField::ApplicationId => "activity-application-id",
            ActivityField::Details => "activity-details",
            ActivityField::Url => "activity-url",
            ActivityField::LargeImage => "activity-large-image",
            ActivityField::LargeImageText => "activity-large-image-text",
            ActivityField::SmallImage => "activity-small-image",
            ActivityField::SmallImageText => "activity-small-image-text",
            ActivityField::Button => "activity-button",
            ActivityField::ButtonUrl => "activity-button-url",
            ActivityField::Button2 => "activity-button-2",
            ActivityField::Button2Url => "activity-button-2-url",
            ActivityField::PartyId => "activity-party-id",
            ActivityField::PartyCurrent => "activity-party-current",
            ActivityField::PartyMax => "activity-party-max",
        }
    }

    /// The leaf of `target` that this field names.
    pub fn get_mut(self, target: &mut PartialActivity) -> (r: &mut Option<String>)
        ensures
            opt_view(*r) == old(target)@[self.index()],
            final(target)@ == old(target)@.update(self.index(), opt_view(*final(r))),
    {
        match self {
            ActivityField::Name => &mut target.name,
            ActivityField::Type => &mut target.activity_type,
            ActivityField::Platform => &mut target.platform,
            ActivityField::Timestamp => &mut target.timestamp,
            ActivityField::ApplicationId => &mut target.application_id,
            ActivityField::Details => &mut target.details,
            ActivityField::Url => &mut target.url,
            ActivityField::LargeImage => &mut target.large_image,
            ActivityField::LargeImageText => &mut target.large_image_text,
            ActivityField::SmallImage => &mut target.small_image,
            ActivityField::SmallImageText => &mut target.small_image_text,
            ActivityField::Button => &mut target.button,
            ActivityField::ButtonUrl => &mut target.button_url,
            ActivityField::Button2 => &mut target.button2,
            ActivityField::Button2Url => &mut target.button2_url,
            ActivityField::PartyId => &mut target.party_id,
            ActivityField::PartyCurrent => &mut target.party_current,
            ActivityField::PartyMax => &mut target.party_max,
        }
    }

}

impl AccountScalarField {
    pub fn set(self, account: &mut PartialAccount, value: String)
        ensures
            final(account).scalars@ == old(account).scalars@.update(self.index(), Some(value@)),
            final(account).custom_status == old(account).custom_status,
            final(account).activities == old(account).activities,
            final(account).activity_order == old(account).activity_order,
    {
        match self {
            AccountScalarField::Token => account.scalars.token = Some(SecretString::new(value)),
            AccountScalarField::Name => account.scalars.name = Some(value),
            AccountScalarField::Kind => account.scalars.kind = Some(value),
            AccountScalarField::Device => account.scalars.device = Some(value),
            AccountScalarField::Status => account.scalars.status = Some(value),
        }
        assert(account.scalars@ =~= old(account).scalars@.update(self.index(), Some(value@)));
    }

    pub fn take(self, account: &mut PartialAccount) -> (r: Option<String>)
        ensures
            opt_view(r) == old(account).scalars@[self.index()],
            final(account).scalars@ == old(account).scalars@.update(self.index(), None),
            final(account).custom_status == old(account).custom_status,
            final(account).activities == old(account).activities,
            final(account).activity_order == old(account).activity_order,
    {
        let r = match self {
            AccountScalarField::Token => match account.scalars.token.take() {
                Some(t) => Some(t.into_inner()),
                None => None,
            },
            AccountScalarField::Name => account.scalars.name.take(),
            AccountScalarField::Kind => account.scalars.kind.take(),
            AccountScalarField::Device => account.scalars.device.take(),
            AccountScalarField::Status => account.scalars.status.take(),
        };
        assert(account.scalars@ =~= old(account).scalars@.update(self.index(), None));
        r
    }
}

/// How an empty override string lands on the resolved client properties.
#[derive(Debug, Clone, Copy, PartialEq, Eq)]
pub enum ClientPropEmptyPolicy {
    /// An empty override keeps the built-in value.
    SkipEmpty,
    /// An empty override clears the optional value.
    EmptyToNone,
    /// The override is assigned even when empty.
    AssignEvenEmpty,
}

/// `Some` of a non-empty string, `None` of an empty one.
pub open spec fn nonempty_or_none(v: String) -> Option<String> {
    if v@.len() == 0 {
        None
    } else {
        Some(v)
    }
}

/// The client properties after one override.
pub open spec fn with_override(f: ClientPropField, d: ClientProperties, v: String) -> ClientProperties {
    match f {
        ClientPropField::Os => if v@.len() == 0 {
            d
        } else {
            ClientProperties { os: v, ..d }
        },
        ClientPropField::Browser => ClientProperties { browser: nonempty_or_none(v), ..d },
        ClientPropField::UserAgent => ClientProperties { user_agent: nonempty_or_none(v), ..d },
        ClientPropField::Device => ClientProperties { device: v, ..d },
    }
}

impl ClientPropField {
    pub fn empty_policy(self) -> (r: ClientPropEmptyPolicy)
        ensures
            r == match self {
                ClientPropField::Os => ClientPropEmptyPolicy::SkipEmpty,
                ClientPropField::Browser => ClientPropEmptyPolicy::EmptyToNone,
                ClientPropField::UserAgent => ClientPropEmptyPolicy::EmptyToNone,
                ClientPropField::Device => ClientPropEmptyPolicy::AssignEvenEmpty,
            },
    {
        match self {
            ClientPropField::Os => ClientPropEmptyPolicy::SkipEmpty,
            ClientPropField::Browser => ClientPropEmptyPolicy::EmptyToNone,
            ClientPropField::UserAgent => ClientPropEmptyPolicy::EmptyToNone,
            ClientPropField::Device => ClientPropEmptyPolicy::AssignEvenEmpty,
        }
    }

    /// Lays one override string onto resolved client properties, by the
    /// field's empty policy.
    pub fn apply_override(self, dst: &mut ClientProperties, value: String)
        ensures
            *final(dst) == with_override(self, *old(dst), value),
    {
        let empty = is_empty_str(value.as_str());
        match self.empty_policy() {
            ClientPropEmptyPolicy::SkipEmpty => {
                if !empty {
                    dst.os = value;
                }
            },
            ClientPropEmptyPolicy::EmptyToNone => {
                let v = if empty {
                    None
                } else {
                    Some(value)
                };
                match self {
                    ClientPropField::Browser => dst.browser = v,
                    _ => dst.user_agent = v,
                }
            },
            ClientPropEmptyPolicy::AssignEvenEmpty => {
                dst.device = value;
            },
        }
    }
}

/// The resolved client properties of a profile.
pub open spec fn profile_of(d: Defaults, p: DefaultsProfile) -> ClientProperties {
    match p {
        DefaultsProfile::Bot => d.bot,
        DefaultsProfile::Web => d.web,
        DefaultsProfile::Desktop => d.desktop,
        DefaultsProfile::Mobile => d.mobile,
    }
}

/// `d` with the client properties of profile `p` replaced.
pub open spec fn with_profile(d: Defaults, p: DefaultsProfile, c: ClientProperties) -> Defaults {
    match p {
        DefaultsProfile::Bot => Defaults { bot: c, ..d },
        DefaultsProfile::Web => Defaults { web: c, ..d },
        DefaultsProfile::Desktop => Defaults { desktop: c, ..d },
        DefaultsProfile::Mobile => Defaults { mobile: c, ..d },
    }
}

impl DefaultsProfile {
    /// The resolved client properties of this profile.
    pub fn resolved_mut(self, defaults: &mut Defaults) -> (r: &mut ClientProperties)
        ensures
            *r == profile_of(*old(defaults), self),
            *final(defaults) == with_profile(*old(defaults), self, *final(r)),
    {
        match self {
            DefaultsProfile::Bot => &mut defaults.bot,
            DefaultsProfile::Web => &mut defaults.web,
            DefaultsProfile::Desktop => &mut defaults.desktop,
            DefaultsProfile::Mobile => &mut defaults.mobile,
        }
    }
}

/// A long flag's spelling of an environment suffix: lower case, with `-`
/// for `_`.
pub open spec fn flag_form(s: Seq<char>) -> Seq<char> {
    s.map_values(|c: char| if c == '_' { '-' } else { ascii_lower(c) })
}

/// An activity field's long flag is `activity-` and its environment suffix
/// in flag form; the name, which has no suffix, is `--activity` alone.
pub proof fn lemma_activity_cli_long_follows_env(f: ActivityField)
    ensures
        f == ActivityField::Name ==> f.names().cli_long == Some("activity"@),
        f != ActivityField::Name ==> f.names().env_suffix is Some && f.names().cli_long == Some(
            "activity-"@ + flag_form(f.names().env_suffix->0),
        ),
{
    reveal_strlit("activity-");
    match f {
        ActivityField::Name => {
        },
        ActivityField::Type => {
            reveal_strlit("TYPE");
            reveal_strlit("activity-type");
            assert("activity-type"@ =~= "activity-"@ + flag_form("TYPE"@));
        },
        ActivityField::Platform => {
            reveal_strlit("PLATFORM");
            reveal_strlit("activity-platform");
            assert("activity-platform"@ =~= "activity-"@ + flag_form("PLATFORM"@));
        },
        ActivityField::Timestamp => {
            reveal_strlit("TIMESTAMP");
            reveal_strlit("activity-timestamp");
            assert("activity-timestamp"@ =~= "activity-"@ + flag_form("TIMESTAMP"@));
        },
        ActivityField::ApplicationId => {
            reveal_strlit("APPLICATION_ID");
            reveal_strlit("activity-application-id");
            assert("activity-application-id"@ =~= "activity-"@ + flag_form("APPLICATION_ID"@));
        },
        ActivityField::Details => {
            reveal_strlit("DETAILS");
            reveal_strlit("activity-details");
            assert("activity-details"@ =~= "activity-"@ + flag_form("DETAILS"@));
        },
        ActivityField::Url => {
            reveal_strlit("URL");
            reveal_strlit("activity-url");
            assert("activity-url"@ =~= "activity-"@ + flag_form("URL"@));
        },
        ActivityField::LargeImage => {
            reveal_strlit("LARGE_IMAGE");
            reveal_strlit("activity-large-image");
            assert("activity-large-image"@ =~= "activity-"@ + flag_form("LARGE_IMAGE"@));
        },
        ActivityField::LargeImageText => {
            reveal_strlit("LARGE_IMAGE_TEXT");
            reveal_strlit("activity-large-image-text");
            assert("activity-large-image-text"@ =~= "activity-"@ + flag_form("LARGE_IMAGE_TEXT"@));
        },
        ActivityField::SmallImage => {
            reveal_strlit("SMALL_IMAGE");
            reveal_strlit("activity-small-image");
            assert("activity-small-image"@ =~= "activity-"@ + flag_form("SMALL_IMAGE"@));
        },
        ActivityField::SmallImageText => {
            reveal_strlit("SMALL_IMAGE_TEXT");
            reveal_strlit("activity-small-image-text");
            assert("activity-small-image-text"@ =~= "activity-"@ + flag_form("SMALL_IMAGE_TEXT"@));
        },
        ActivityField::Button => {
            reveal_strlit("BUTTON");
            reveal_strlit("activity-button");
            assert("activity-button"@ =~= "activity-"@ + flag_form("BUTTON"@));
        },
        ActivityField::ButtonUrl => {
            reveal_strlit("BUTTON_URL");
            reveal_strlit("activity-button-url");
            assert("activity-button-url"@ =~= "activity-"@ + flag_form("BUTTON_URL"@));
        },
        ActivityField::Button2 => {
            reveal_strlit("BUTTON_2");
            reveal_strlit("activity-button-2");
            assert("activity-button-2"@ =~= "activity-"@ + flag_form("BUTTON_2"@));
        },
        ActivityField::Button2Url => {
            reveal_strlit("BUTTON_2_URL");
            reveal_strlit("activity-button-2-url");
            assert("activity-button-2-url"@ =~= "activity-"@ + flag_form("BUTTON_2_URL"@));
        },
        ActivityField::PartyId => {
            reveal_strlit("PARTY_ID");
            reveal_strlit("activity-party-id");
            assert("activity-party-id"@ =~= "activity-"@ + flag_form("PARTY_ID"@));
        },
        ActivityField::PartyCurrent => {
            reveal_strlit("PARTY_CURRENT");
            reveal_strlit("activity-party-current");
            assert("activity-party-current"@ =~= "activity-"@ + flag_form("PARTY_CURRENT"@));
        },
        ActivityField::PartyMax => {
            reveal_strlit("PARTY_MAX");
            reveal_strlit("activity-party-max");
            assert("activity-party-max"@ =~= "activity-"@ + flag_form("PARTY_MAX"@));
        },
    }
}

} // verus!
