//! Named kinds with their wire names; parsing ignores ASCII case.

use crate::text::{ascii_lower_seq, eq_ignore_ascii_case, eq_ignore_case};
use vstd::prelude::*;

verus! {

#[derive(Debug, Clone, Copy, PartialEq, Eq, Hash, Structural)]
pub enum AccountKind {
    User,
    Bot,
}

impl AccountKind {
    pub open spec fn name(self) -> Seq<char> {
        match self {
            AccountKind::User => "user"@,
            AccountKind::Bot => "bot"@,
        }
    }

    /// The kind whose name equals `v` ignoring ASCII case.
    pub open spec fn parse_spec(v: Seq<char>) -> Option<AccountKind> {
        if eq_ignore_ascii_case("user"@, v) {
            Some(AccountKind::User)
        } else if eq_ignore_ascii_case("bot"@, v) {
            Some(AccountKind::Bot)
        } else {
            None
        }
    }

    pub fn as_str(self) -> (s: &'static str)
        ensures
            s@ == self.name(),
    {
        match self {
            AccountKind::User => "user",
            AccountKind::Bot => "bot",
        }
    }

    pub fn parse(value: &str) -> (r: Option<AccountKind>)
        ensures
            r == AccountKind::parse_spec(value@),
    {
        if eq_ignore_case("user", value) {
            Some(AccountKind::User)
        } else if eq_ignore_case("bot", value) {
            Some(AccountKind::Bot)
        } else {
            None
        }
    }
}

impl Default for AccountKind {
    fn default() -> (r: AccountKind)
        ensures
            r == AccountKind::User,
    {
        AccountKind::User
    }
}

#[derive(Debug, Clone, Copy, PartialEq, Eq, Hash, Structural)]
pub enum Device {
    Web,
    Desktop,
    Mobile,
}

impl Device {
    pub open spec fn name(self) -> Seq<char> {
        match self {
            Device::Web => "web"@,
            Device::Desktop => "desktop"@,
            Device::Mobile => "mobile"@,
        }
    }

    pub open spec fn parse_spec(v: Seq<char>) -> Option<Device> {
        if eq_ignore_ascii_case("web"@, v) {
            Some(Device::Web)
        } else if eq_ignore_ascii_case("desktop"@, v) {
            Some(Device::Desktop)
        } else if eq_ignore_ascii_case("mobile"@, v) {
            Some(Device::Mobile)
        } else {
            None
        }
    }

    pub fn as_str(self) -> (s: &'static str)
        ensures
            s@ == self.name(),
    {
        match self {
            Device::Web => "web",
            Device::Desktop => "desktop",
            Device::Mobile => "mobile",
        }
    }

    pub fn parse(value: &str) -> (r: Option<Device>)
        ensures
            r == Device::parse_spec(value@),
    {
        if eq_ignore_case("web", value) {
            Some(Device::Web)
        } else if eq_ignore_case("desktop", value) {
            Some(Device::Desktop)
        } else if eq_ignore_case("mobile", value) {
            Some(Device::Mobile)
        } else {
            None
        }
    }
}

#[derive(Debug, Clone, Copy, PartialEq, Eq, Hash, Structural)]
pub enum Status {
    Online,
    Idle,
    Invisible,
    Dnd,
}

impl Status {
    pub open spec fn name(self) -> Seq<char> {
        match self {
            Status::Online => "online"@,
            Status::Idle => "idle"@,
            Status::Invisible => "invisible"@,
            Status::Dnd => "dnd"@,
        }
    }

    pub open spec fn parse_spec(v: Seq<char>) -> Option<Status> {
        if eq_ignore_ascii_case("online"@, v) {
            Some(Status::Online)
        } else if eq_ignore_ascii_case("idle"@, v) {
            Some(Status::Idle)
        } else if eq_ignore_ascii_case("invisible"@, v) {
            Some(Status::Invisible)
        } else if eq_ignore_ascii_case("dnd"@, v) {
            Some(Status::Dnd)
        } else {
            None
        }
    }

    pub fn as_str(self) -> (s: &'static str)
        ensures
            s@ == self.name(),
    {
        match self {
            Status::Online => "online",
            Status::Idle => "idle",
            Status::Invisible => "invisible",
            Status::Dnd => "dnd",
        }
    }

    pub fn parse(value: &str) -> (r: Option<Status>)
        ensures
            r == Status::parse_spec(value@),
    {
        if eq_ignore_case("online", value) {
            Some(Status::Online)
        } else if eq_ignore_case("idle", value) {
            Some(Status::Idle)
        } else if eq_ignore_case("invisible", value) {
            Some(Status::Invisible)
        } else if eq_ignore_case("dnd", value) {
            Some(Status::Dnd)
        } else {
            None
        }
    }
}

#[derive(Debug, Clone, Copy, PartialEq, Eq, Hash, Structural)]
pub enum ActivityType {
    Playing,
    Streaming,
    Listening,
    Watching,
    Custom,
    Competing,
    Hang,
}

impl ActivityType {
    pub open spec fn name(self) -> Seq<char> {
        match self {
            ActivityType::Playing => "PLAYING"@,
            ActivityType::Streaming => "STREAMING"@,
            ActivityType::Listening => "LISTENING"@,
            ActivityType::Watching => "WATCHING"@,
            ActivityType::Custom => "CUSTOM"@,
            ActivityType::Competing => "COMPETING"@,
            ActivityType::Hang => "HANG"@,
        }
    }

    /// The gateway's number for the type.
    pub open spec fn code(self) -> int {
        match self {
            ActivityType::Playing => 0,
            ActivityType::Streaming => 1,
            ActivityType::Listening => 2,
            ActivityType::Watching => 3,
            ActivityType::Custom => 4,
            ActivityType::Competing => 5,
            ActivityType::Hang => 6,
        }
    }

    pub open spec fn parse_spec(v: Seq<char>) -> Option<ActivityType> {
        if eq_ignore_ascii_case("CUSTOM"@, v) {
            Some(ActivityType::Custom)
        } else if eq_ignore_ascii_case("PLAYING"@, v) {
            Some(ActivityType::Playing)
        } else if eq_ignore_ascii_case("STREAMING"@, v) {
            Some(ActivityType::Streaming)
        } else if eq_ignore_ascii_case("LISTENING"@, v) {
            Some(ActivityType::Listening)
        } else if eq_ignore_ascii_case("WATCHING"@, v) {
            Some(ActivityType::Watching)
        } else if eq_ignore_ascii_case("COMPETING"@, v) {
            Some(ActivityType::Competing)
        } else if eq_ignore_ascii_case("HANG"@, v) {
            Some(ActivityType::Hang)
        } else {
            None
        }
    }

    pub fn as_str(self) -> (s: &'static str)
        ensures
            s@ == self.name(),
    {
        match self {
            ActivityType::Playing => "PLAYING",
            ActivityType::Streaming => "STREAMING",
            ActivityType::Listening => "LISTENING",
            ActivityType::Watching => "WATCHING",
            ActivityType::Custom => "CUSTOM",
            ActivityType::Competing => "COMPETING",
            ActivityType::Hang => "HANG",
        }
    }

    pub fn as_i64(self) -> (n: i64)
        ensures
            n == self.code(),
    {
        match self {
            ActivityType::Playing => 0,
            ActivityType::Streaming => 1,
            ActivityType::Listening => 2,
            ActivityType::Watching => 3,
            ActivityType::Custom => 4,
            ActivityType::Competing => 5,
            ActivityType::Hang => 6,
        }
    }

    pub fn parse(value: &str) -> (r: Option<ActivityType>)
        ensures
            r == ActivityType::parse_spec(value@),
    {
        if eq_ignore_case("CUSTOM", value) {
            Some(ActivityType::Custom)
        } else if eq_ignore_case("PLAYING", value) {
            Some(ActivityType::Playing)
        } else if eq_ignore_case("STREAMING", value) {
            Some(ActivityType::Streaming)
        } else if eq_ignore_case("LISTENING", value) {
            Some(ActivityType::Listening)
        } else if eq_ignore_case("WATCHING", value) {
            Some(ActivityType::Watching)
        } else if eq_ignore_case("COMPETING", value) {
            Some(ActivityType::Competing)
        } else if eq_ignore_case("HANG", value) {
            Some(ActivityType::Hang)
        } else {
            None
        }
    }
}

#[derive(Debug, Clone, Copy, PartialEq, Eq, Hash, Structural)]
pub enum ActivityPlatform {
    Desktop,
    Samsung,
    Xbox,
    Ios,
    Android,
    Embedded,
    Ps4,
    Ps5,
}

impl ActivityPlatform {
    pub open spec fn name(self) -> Seq<char> {
        match self {
            ActivityPlatform::Desktop => "desktop"@,
            ActivityPlatform::Samsung => "samsung"@,
            ActivityPlatform::Xbox => "xbox"@,
            ActivityPlatform::Ios => "ios"@,
            ActivityPlatform::Android => "android"@,
            ActivityPlatform::Embedded => "embedded"@,
            ActivityPlatform::Ps4 => "ps4"@,
            ActivityPlatform::Ps5 => "ps5"@,
        }
    }

    pub open spec fn parse_spec(v: Seq<char>) -> Option<ActivityPlatform> {
        if eq_ignore_ascii_case("desktop"@, v) {
            Some(ActivityPlatform::Desktop)
        } else if eq_ignore_ascii_case("samsung"@, v) {
            Some(ActivityPlatform::Samsung)
        } else if eq_ignore_ascii_case("xbox"@, v) {
            Some(ActivityPlatform::Xbox)
        } else if eq_ignore_ascii_case("ios"@, v) {
            Some(ActivityPlatform::Ios)
        } else if eq_ignore_ascii_case("android"@, v) {
            Some(ActivityPlatform::Android)
        } else if eq_ignore_ascii_case("embedded"@, v) {
            Some(ActivityPlatform::Embedded)
        } else if eq_ignore_ascii_case("ps4"@, v) {
            Some(ActivityPlatform::Ps4)
        } else if eq_ignore_ascii_case("ps5"@, v) {
            Some(ActivityPlatform::Ps5)
        } else {
            None
        }
    }

    pub fn as_str(self) -> (s: &'static str)
        ensures
            s@ == self.name(),
    {
        match self {
            ActivityPlatform::Desktop => "desktop",
            ActivityPlatform::Samsung => "samsung",
            ActivityPlatform::Xbox => "xbox",
            ActivityPlatform::Ios => "ios",
            ActivityPlatform::Android => "android",
            ActivityPlatform::Embedded => "embedded",
            ActivityPlatform::Ps4 => "ps4",
            ActivityPlatform::Ps5 => "ps5",
        }
    }

    pub fn parse(value: &str) -> (r: Option<ActivityPlatform>)
        ensures
            r == ActivityPlatform::parse_spec(value@),
    {
        if eq_ignore_case("desktop", value) {
            Some(ActivityPlatform::Desktop)
        } else if eq_ignore_case("samsung", value) {
            Some(ActivityPlatform::Samsung)
        } else if eq_ignore_case("xbox", value) {
            Some(ActivityPlatform::Xbox)
        } else if eq_ignore_case("ios", value) {
            Some(ActivityPlatform::Ios)
        } else if eq_ignore_case("android", value) {
            Some(ActivityPlatform::Android)
        } else if eq_ignore_case("embedded", value) {
            Some(ActivityPlatform::Embedded)
        } else if eq_ignore_case("ps4", value) {
            Some(ActivityPlatform::Ps4)
        } else if eq_ignore_case("ps5", value) {
            Some(ActivityPlatform::Ps5)
        } else {
            None
        }
    }
}

/// Parsing an account kind's wire name gives it back, so distinct kinds have
/// distinct names and each name reads as its own kind.
pub proof fn lemma_account_kind_parse_inverts_name(k: AccountKind)
    ensures
        AccountKind::parse_spec(k.name()) == Some(k),
{
    reveal_strlit("user");
    reveal_strlit("bot");
    match k {
        AccountKind::User => {
            assert(ascii_lower_seq("user"@) =~= ascii_lower_seq("user"@));
            assert(ascii_lower_seq("bot"@).len() != ascii_lower_seq("user"@).len());
        },
        AccountKind::Bot => {
            assert(ascii_lower_seq("bot"@) =~= ascii_lower_seq("bot"@));
            assert(ascii_lower_seq("user"@).len() != ascii_lower_seq("bot"@).len());
        },
    }
}

/// Parsing a device's wire name gives it back, so distinct kinds have
/// distinct names and each name reads as its own kind.
pub proof fn lemma_device_parse_inverts_name(k: Device)
    ensures
        Device::parse_spec(k.name()) == Some(k),
{
    reveal_strlit("web");
    reveal_strlit("desktop");
    reveal_strlit("mobile");
    match k {
        Device::Web => {
            assert(ascii_lower_seq("web"@) =~= ascii_lower_seq("web"@));
            assert(ascii_lower_seq("desktop"@).len() != ascii_lower_seq("web"@).len());
            assert(ascii_lower_seq("mobile"@).len() != ascii_lower_seq("web"@).len());
        },
        Device::Desktop => {
            assert(ascii_lower_seq("desktop"@) =~= ascii_lower_seq("desktop"@));
            assert(ascii_lower_seq("web"@).len() != ascii_lower_seq("desktop"@).len());
            assert(ascii_lower_seq("mobile"@).len() != ascii_lower_seq("desktop"@).len());
        },
        Device::Mobile => {
            assert(ascii_lower_seq("mobile"@) =~= ascii_lower_seq("mobile"@));
            assert(ascii_lower_seq("web"@).len() != ascii_lower_seq("mobile"@).len());
            assert(ascii_lower_seq("desktop"@).len() != ascii_lower_seq("mobile"@).len());
        },
    }
}

/// Parsing a status's wire name gives it back, so distinct kinds have
/// distinct names and each name reads as its own kind.
pub proof fn lemma_status_parse_inverts_name(k: Status)
    ensures
        Status::parse_spec(k.name()) == Some(k),
{
    reveal_strlit("online");
    reveal_strlit("idle");
    reveal_strlit("invisible");
    reveal_strlit("dnd");
    match k {
        Status::Online => {
            assert(ascii_lower_seq("online"@) =~= ascii_lower_seq("online"@));
            assert(ascii_lower_seq("idle"@).len() != ascii_lower_seq("online"@).len());
            assert(ascii_lower_seq("invisible"@).len() != ascii_lower_seq("online"@).len());
            assert(ascii_lower_seq("dnd"@).len() != ascii_lower_seq("online"@).len());
        },
        Status::Idle => {
            assert(ascii_lower_seq("idle"@) =~= ascii_lower_seq("idle"@));
            assert(ascii_lower_seq("online"@).len() != ascii_lower_seq("idle"@).len());
            assert(ascii_lower_seq("invisible"@).len() != ascii_lower_seq("idle"@).len());
            assert(ascii_lower_seq("dnd"@).len() != ascii_lower_seq("idle"@).len());
        },
        Status::Invisible => {
            assert(ascii_lower_seq("invisible"@) =~= ascii_lower_seq("invisible"@));
            assert(ascii_lower_seq("online"@).len() != ascii_lower_seq("invisible"@).len());
            assert(ascii_lower_seq("idle"@).len() != ascii_lower_seq("invisible"@).len());
            assert(ascii_lower_seq("dnd"@).len() != ascii_lower_seq("invisible"@).len());
        },
        Status::Dnd => {
            assert(ascii_lower_seq("dnd"@) =~= ascii_lower_seq("dnd"@));
            assert(ascii_lower_seq("online"@).len() != ascii_lower_seq("dnd"@).len());
            assert(ascii_lower_seq("idle"@).len() != ascii_lower_seq("dnd"@).len());
            assert(ascii_lower_seq("invisible"@).len() != ascii_lower_seq("dnd"@).len());
        },
    }
}

/// Parsing an activity type's wire name gives it back, so distinct kinds have
/// distinct names and each name reads as its own kind.
pub proof fn lemma_activity_type_parse_inverts_name(k: ActivityType)
    ensures
        ActivityType::parse_spec(k.name()) == Some(k),
{
    reveal_strlit("PLAYING");
    reveal_strlit("STREAMING");
    reveal_strlit("LISTENING");
    reveal_strlit("WATCHING");
    reveal_strlit("CUSTOM");
    reveal_strlit("COMPETING");
    reveal_strlit("HANG");
    match k {
        ActivityType::Playing => {
            assert(ascii_lower_seq("PLAYING"@) =~= ascii_lower_seq("PLAYING"@));
            assert(ascii_lower_seq("STREAMING"@).len() != ascii_lower_seq("PLAYING"@).len());
            assert(ascii_lower_seq("LISTENING"@).len() != ascii_lower_seq("PLAYING"@).len());
            assert(ascii_lower_seq("WATCHING"@).len() != ascii_lower_seq("PLAYING"@).len());
            assert(ascii_lower_seq("CUSTOM"@).len() != ascii_lower_seq("PLAYING"@).len());
            assert(ascii_lower_seq("COMPETING"@).len() != ascii_lower_seq("PLAYING"@).len());
            assert(ascii_lower_seq("HANG"@).len() != ascii_lower_seq("PLAYING"@).len());
        },
        ActivityType::Streaming => {
            assert(ascii_lower_seq("STREAMING"@) =~= ascii_lower_seq("STREAMING"@));
            assert(ascii_lower_seq("PLAYING"@).len() != ascii_lower_seq("STREAMING"@).len());
            assert(ascii_lower_seq("LISTENING"@)[0] != ascii_lower_seq("STREAMING"@)[0]);
            assert(ascii_lower_seq("WATCHING"@).len() != ascii_lower_seq("STREAMING"@).len());
            assert(ascii_lower_seq("CUSTOM"@).len() != ascii_lower_seq("STREAMING"@).len());
            assert(ascii_lower_seq("COMPETING"@)[0] != ascii_lower_seq("STREAMING"@)[0]);
            assert(ascii_lower_seq("HANG"@).len() != ascii_lower_seq("STREAMING"@).len());
        },
        ActivityType::Listening => {
            assert(ascii_lower_seq("LISTENING"@) =~= ascii_lower_seq("LISTENING"@));
            assert(ascii_lower_seq("PLAYING"@).len() != ascii_lower_seq("LISTENING"@).len());
            assert(ascii_lower_seq("STREAMING"@)[0] != ascii_lower_seq("LISTENING"@)[0]);
            assert(ascii_lower_seq("WATCHING"@).len() != ascii_lower_seq("LISTENING"@).len());
            assert(ascii_lower_seq("CUSTOM"@).len() != ascii_lower_seq("LISTENING"@).len());
            assert(ascii_lower_seq("COMPETING"@)[0] != ascii_lower_seq("LISTENING"@)[0]);
            assert(ascii_lower_seq("HANG"@).len() != ascii_lower_seq("LISTENING"@).len());
        },
        ActivityType::Watching => {
            assert(ascii_lower_seq("WATCHING"@) =~= ascii_lower_seq("WATCHING"@));
            assert(ascii_lower_seq("PLAYING"@).len() != ascii_lower_seq("WATCHING"@).len());
            assert(ascii_lower_seq("STREAMING"@).len() != ascii_lower_seq("WATCHING"@).len());
            assert(ascii_lower_seq("LISTENING"@).len() != ascii_lower_seq("WATCHING"@).len());
            assert(ascii_lower_seq("CUSTOM"@).len() != ascii_lower_seq("WATCHING"@).len());
            assert(ascii_lower_seq("COMPETING"@).len() != ascii_lower_seq("WATCHING"@).len());
            assert(ascii_lower_seq("HANG"@).len() != ascii_lower_seq("WATCHING"@).len());
        },
        ActivityType::Custom => {
            assert(ascii_lower_seq("CUSTOM"@) =~= ascii_lower_seq("CUSTOM"@));
            assert(ascii_lower_seq("PLAYING"@).len() != ascii_lower_seq("CUSTOM"@).len());
            assert(ascii_lower_seq("STREAMING"@).len() != ascii_lower_seq("CUSTOM"@).len());
            assert(ascii_lower_seq("LISTENING"@).len() != ascii_lower_seq("CUSTOM"@).len());
            assert(ascii_lower_seq("WATCHING"@).len() != ascii_lower_seq("CUSTOM"@).len());
            assert(ascii_lower_seq("COMPETING"@).len() != ascii_lower_seq("CUSTOM"@).len());
            assert(ascii_lower_seq("HANG"@).len() != ascii_lower_seq("CUSTOM"@).len());
        },
        ActivityType::Competing => {
            assert(ascii_lower_seq("COMPETING"@) =~= ascii_lower_seq("COMPETING"@));
            assert(ascii_lower_seq("PLAYING"@).len() != ascii_lower_seq("COMPETING"@).len());
            assert(ascii_lower_seq("STREAMING"@)[0] != ascii_lower_seq("COMPETING"@)[0]);
            assert(ascii_lower_seq("LISTENING"@)[0] != ascii_lower_seq("COMPETING"@)[0]);
            assert(ascii_lower_seq("WATCHING"@).len() != ascii_lower_seq("COMPETING"@).len());
            assert(ascii_lower_seq("CUSTOM"@).len() != ascii_lower_seq("COMPETING"@).len());
            assert(ascii_lower_seq("HANG"@).len() != ascii_lower_seq("COMPETING"@).len());
        },
        ActivityType::Hang => {
            assert(ascii_lower_seq("HANG"@) =~= ascii_lower_seq("HANG"@));
            assert(ascii_lower_seq("PLAYING"@).len() != ascii_lower_seq("HANG"@).len());
            assert(ascii_lower_seq("STREAMING"@).len() != ascii_lower_seq("HANG"@).len());
            assert(ascii_lower_seq("LISTENING"@).len() != ascii_lower_seq("HANG"@).len());
            assert(ascii_lower_seq("WATCHING"@).len() != ascii_lower_seq("HANG"@).len());
            assert(ascii_lower_seq("CUSTOM"@).len() != ascii_lower_seq("HANG"@).len());
            assert(ascii_lower_seq("COMPETING"@).len() != ascii_lower_seq("HANG"@).len());
        },
    }
}

/// Parsing a platform's wire name gives it back, so distinct kinds have
/// distinct names and each name reads as its own kind.
pub proof fn lemma_activity_platform_parse_inverts_name(k: ActivityPlatform)
    ensures
        ActivityPlatform::parse_spec(k.name()) == Some(k),
{
    reveal_strlit("desktop");
    reveal_strlit("samsung");
    reveal_strlit("xbox");
    reveal_strlit("ios");
    reveal_strlit("android");
    reveal_strlit("embedded");
    reveal_strlit("ps4");
    reveal_strlit("ps5");
    match k {
        ActivityPlatform::Desktop => {
            assert(ascii_lower_seq("desktop"@) =~= ascii_lower_seq("desktop"@));
            assert(ascii_lower_seq("samsung"@)[0] != ascii_lower_seq("desktop"@)[0]);
            assert(ascii_lower_seq("xbox"@).len() != ascii_lower_seq("desktop"@).len());
            assert(ascii_lower_seq("ios"@).len() != ascii_lower_seq("desktop"@).len());
            assert(ascii_lower_seq("android"@)[0] != ascii_lower_seq("desktop"@)[0]);
            assert(ascii_lower_seq("embedded"@).len() != ascii_lower_seq("desktop"@).len());
            assert(ascii_lower_seq("ps4"@).len() != ascii_lower_seq("desktop"@).len());
            assert(ascii_lower_seq("ps5"@).len() != ascii_lower_seq("desktop"@).len());
        },
        ActivityPlatform::Samsung => {
            assert(ascii_lower_seq("samsung"@) =~= ascii_lower_seq("samsung"@));
            assert(ascii_lower_seq("desktop"@)[0] != ascii_lower_seq("samsung"@)[0]);
            assert(ascii_lower_seq("xbox"@).len() != ascii_lower_seq("samsung"@).len());
            assert(ascii_lower_seq("ios"@).len() != ascii_lower_seq("samsung"@).len());
            assert(ascii_lower_seq("android"@)[0] != ascii_lower_seq("samsung"@)[0]);
            assert(ascii_lower_seq("embedded"@).len() != ascii_lower_seq("samsung"@).len());
            assert(ascii_lower_seq("ps4"@).len() != ascii_lower_seq("samsung"@).len());
            assert(ascii_lower_seq("ps5"@).len() != ascii_lower_seq("samsung"@).len());
        },
        ActivityPlatform::Xbox => {
            assert(ascii_lower_seq("xbox"@) =~= ascii_lower_seq("xbox"@));
            assert(ascii_lower_seq("desktop"@).len() != ascii_lower_seq("xbox"@).len());
            assert(ascii_lower_seq("samsung"@).len() != ascii_lower_seq("xbox"@).len());
            assert(ascii_lower_seq("ios"@).len() != ascii_lower_seq("xbox"@).len());
            assert(ascii_lower_seq("android"@).len() != ascii_lower_seq("xbox"@).len());
            assert(ascii_lower_seq("embedded"@).len() != ascii_lower_seq("xbox"@).len());
            assert(ascii_lower_seq("ps4"@).len() != ascii_lower_seq("xbox"@).len());
            assert(ascii_lower_seq("ps5"@).len() != ascii_lower_seq("xbox"@).len());
        },
        ActivityPlatform::Ios => {
            assert(ascii_lower_seq("ios"@) =~= ascii_lower_seq("ios"@));
            assert(ascii_lower_seq("desktop"@).len() != ascii_lower_seq("ios"@).len());
            assert(ascii_lower_seq("samsung"@).len() != ascii_lower_seq("ios"@).len());
            assert(ascii_lower_seq("xbox"@).len() != ascii_lower_seq("ios"@).len());
            assert(ascii_lower_seq("android"@).len() != ascii_lower_seq("ios"@).len());
            assert(ascii_lower_seq("embedded"@).len() != ascii_lower_seq("ios"@).len());
            assert(ascii_lower_seq("ps4"@)[0] != ascii_lower_seq("ios"@)[0]);
            assert(ascii_lower_seq("ps5"@)[0] != ascii_lower_seq("ios"@)[0]);
        },
        ActivityPlatform::Android => {
            assert(ascii_lower_seq("android"@) =~= ascii_lower_seq("android"@));
            assert(ascii_lower_seq("desktop"@)[0] != ascii_lower_seq("android"@)[0]);
            assert(ascii_lower_seq("samsung"@)[0] != ascii_lower_seq("android"@)[0]);
            assert(ascii_lower_seq("xbox"@).len() != ascii_lower_seq("android"@).len());
            assert(ascii_lower_seq("ios"@).len() != ascii_lower_seq("android"@).len());
            assert(ascii_lower_seq("embedded"@).len() != ascii_lower_seq("android"@).len());
            assert(ascii_lower_seq("ps4"@).len() != ascii_lower_seq("android"@).len());
            assert(ascii_lower_seq("ps5"@).len() != ascii_lower_seq("android"@).len());
        },
        ActivityPlatform::Embedded => {
            assert(ascii_lower_seq("embedded"@) =~= ascii_lower_seq("embedded"@));
            assert(ascii_lower_seq("desktop"@).len() != ascii_lower_seq("embedded"@).len());
            assert(ascii_lower_seq("samsung"@).len() != ascii_lower_seq("embedded"@).len());
            assert(ascii_lower_seq("xbox"@).len() != ascii_lower_seq("embedded"@).len());
            assert(ascii_lower_seq("ios"@).len() != ascii_lower_seq("embedded"@).len());
            assert(ascii_lower_seq("android"@).len() != ascii_lower_seq("embedded"@).len());
            assert(ascii_lower_seq("ps4"@).len() != ascii_lower_seq("embedded"@).len());
            assert(ascii_lower_seq("ps5"@).len() != ascii_lower_seq("embedded"@).len());
        },
        ActivityPlatform::Ps4 => {
            assert(ascii_lower_seq("ps4"@) =~= ascii_lower_seq("ps4"@));
            assert(ascii_lower_seq("desktop"@).len() != ascii_lower_seq("ps4"@).len());
            assert(ascii_lower_seq("samsung"@).len() != ascii_lower_seq("ps4"@).len());
            assert(ascii_lower_seq("xbox"@).len() != ascii_lower_seq("ps4"@).len());
            assert(ascii_lower_seq("ios"@)[0] != ascii_lower_seq("ps4"@)[0]);
            assert(ascii_lower_seq("android"@).len() != ascii_lower_seq("ps4"@).len());
            assert(ascii_lower_seq("embedded"@).len() != ascii_lower_seq("ps4"@).len());
            assert(ascii_lower_seq("ps5"@)[2] != ascii_lower_seq("ps4"@)[2]);
        },
        ActivityPlatform::Ps5 => {
            assert(ascii_lower_seq("ps5"@) =~= ascii_lower_seq("ps5"@));
            assert(ascii_lower_seq("desktop"@).len() != ascii_lower_seq("ps5"@).len());
            assert(ascii_lower_seq("samsung"@).len() != ascii_lower_seq("ps5"@).len());
            assert(ascii_lower_seq("xbox"@).len() != ascii_lower_seq("ps5"@).len());
            assert(ascii_lower_seq("ios"@)[0] != ascii_lower_seq("ps5"@)[0]);
            assert(ascii_lower_seq("android"@).len() != ascii_lower_seq("ps5"@).len());
            assert(ascii_lower_seq("embedded"@).len() != ascii_lower_seq("ps5"@).len());
            assert(ascii_lower_seq("ps4"@)[2] != ascii_lower_seq("ps5"@)[2]);
        },
    }
}

} // verus!
