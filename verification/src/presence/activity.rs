//! Activity and custom-status configuration, and the activity objects that
//! user accounts (rich presence) and bots (restricted fields) send.

use crate::json::{
    ev, field, iv, jv, lemma_lookup_append, lemma_lookup_opt_entry, lookup, nonempty_str,
    opt_entry, push_entry, push_item, push_nonempty, Json, JV,
};
use crate::presence::kinds::{AccountKind, ActivityPlatform, ActivityType};
use crate::text::{
    all_digit_chars, all_digits, ascii_lower_seq, before_char, chars, concat_string,
    find_char, first_index, i64_to_string, int_decimal, is_empty_str, opt_view, own,
    parse_i64, parse_i64_spec, starts_with, string_of, strip_leading, strip_leading_vec,
    sub_vec, to_ascii_lower, trim, trim_bounds, vec_starts_with,
};
use vstd::prelude::*;

verus! {

/// Application id that an activity gets when none is configured.
pub const DEFAULT_APPLICATION_ID: &'static str = "1";

/// Party id that an activity gets when none is configured.
pub const DEFAULT_PARTY_ID: &'static str = "1";

/// The view of a present, non-empty optional string.
pub open spec fn nonempty(o: Option<String>) -> Option<Seq<char>> {
    match o {
        Some(s) => if s@.len() > 0 {
            Some(s@)
        } else {
            None
        },
        None => None,
    }
}

/// Host prefixes whose media URLs are rewritten to `mp:` asset keys.
pub open spec fn media_host(k: int) -> Seq<char> {
    if k == 0 {
        "https://cdn.discordapp.com/"@
    } else if k == 1 {
        "http://cdn.discordapp.com/"@
    } else if k == 2 {
        "https://media.discordapp.net/"@
    } else if k == 3 {
        "http://media.discordapp.net/"@
    } else if k == 4 {
        "https://media.discordapp.com/"@
    } else {
        "http://media.discordapp.com/"@
    }
}

/// The asset path of `image` under host `host`, when its (case-folded)
/// text starts with the host and the path before any query is not empty.
pub open spec fn host_path(image: Seq<char>, host: Seq<char>) -> Option<Seq<char>> {
    if starts_with(ascii_lower_seq(image), host) {
        let path = strip_leading(
            before_char(image.subrange(host.len() as int, image.len() as int), '?'),
            '/',
        );
        if path.len() > 0 {
            Some(path)
        } else {
            None
        }
    } else {
        None
    }
}

/// The asset path under the first matching media host from index `k` on.
pub open spec fn host_rewrite_from(image: Seq<char>, k: int) -> Option<Seq<char>>
    decreases 6 - k,
{
    if k >= 6 || k < 0 {
        None
    } else {
        match host_path(image, media_host(k)) {
            Some(p) => Some(p),
            None => host_rewrite_from(image, k + 1),
        }
    }
}

/// Image reference kept as written: asset keys, provider references and ids.
pub open spec fn kept_image(image: Seq<char>) -> bool {
    ||| starts_with(image, "mp:"@)
    ||| starts_with(image, "youtube:"@)
    ||| starts_with(image, "spotify:"@)
    ||| starts_with(image, "twitch:"@)
    ||| starts_with(image, "external/"@)
    ||| all_digits(image)
}

/// The image reference sent for an activity asset: trimmed, with Discord
/// media URLs rewritten to `mp:<path>`.
pub open spec fn normalize_image_spec(raw: Seq<char>) -> Seq<char> {
    let image = trim(raw);
    if image.len() == 0 {
        Seq::empty()
    } else if kept_image(image) {
        image
    } else {
        match host_rewrite_from(image, 0) {
            Some(p) => "mp:"@ + p,
            None => image,
        }
    }
}

fn media_host_str(k: usize) -> (s: &'static str)
    requires
        k < 6,
    ensures
        s@ == media_host(k as int),
{
    if k == 0 {
        "https://cdn.discordapp.com/"
    } else if k == 1 {
        "http://cdn.discordapp.com/"
    } else if k == 2 {
        "https://media.discordapp.net/"
    } else if k == 3 {
        "http://media.discordapp.net/"
    } else if k == 4 {
        "https://media.discordapp.com/"
    } else {
        "http://media.discordapp.com/"
    }
}

fn host_path_exec(image: &Vec<char>, lower: &Vec<char>, host: &Vec<char>) -> (r: Option<Vec<char>>)
    requires
        lower@ == ascii_lower_seq(image@),
    ensures
        match r {
            Some(p) => host_path(image@, host@) == Some(p@),
            None => host_path(image@, host@) is None,
        },
{
    if !vec_starts_with(lower, host) {
        return None;
    }
    assert(lower@.len() == image@.len());
    let rest = sub_vec(image, host.len(), image.len());
    let before = match find_char(&rest, '?') {
        Some(i) => sub_vec(&rest, 0, i),
        None => rest,
    };
    let path = strip_leading_vec(&before, '/');
    if path.len() > 0 {
        Some(path)
    } else {
        None
    }
}

/// Rewrites Discord CDN and media URLs to `mp:` asset keys; leaves asset
/// keys, provider references and numeric ids as they are.
pub fn normalize_activity_image(raw: &str) -> (r: String)
    ensures
        r@ == normalize_image_spec(raw@),
{
    let v = chars(raw);
    let (a, b) = trim_bounds(&v);
    let image = sub_vec(&v, a, b);
    if image.len() == 0 {
        return String::new();
    }
    let digits = all_digit_chars(&image);
    if vec_starts_with(&image, &chars("mp:")) || vec_starts_with(&image, &chars("youtube:"))
        || vec_starts_with(&image, &chars("spotify:")) || vec_starts_with(
        &image,
        &chars("twitch:"),
    ) || vec_starts_with(&image, &chars("external/")) || digits {
        return string_of(&image);
    }
    let lower = chars(to_ascii_lower(string_of(&image).as_str()).as_str());
    let mut k: usize = 0;
    while k < 6
        invariant
            k <= 6,
            lower@ == ascii_lower_seq(image@),
            image@ == trim(raw@),
            image@.len() > 0,
            !kept_image(image@),
            host_rewrite_from(image@, 0) == host_rewrite_from(image@, k as int),
        decreases 6 - k,
    {
        let host = chars(media_host_str(k));
        match host_path_exec(&image, &lower, &host) {
            Some(p) => {
                assert(host_rewrite_from(image@, k as int) == Some(p@));
                return concat_string(&chars("mp:"), &p);
            },
            None => {},
        }
        k = k + 1;
    }
    string_of(&image)
}

/// An image asset: reference and hover text.
#[derive(Debug, Clone, PartialEq, Eq)]
pub struct ImageAsset {
    pub image: Option<String>,
    pub text: Option<String>,
}

impl Default for ImageAsset {
    fn default() -> (r: ImageAsset)
        ensures
            r.image is None && r.text is None,
    {
        ImageAsset { image: None, text: None }
    }
}

/// A button: label and URL.
#[derive(Debug, Clone, PartialEq, Eq)]
pub struct ActivityButton {
    pub name: Option<String>,
    pub url: Option<String>,
}

impl Default for ActivityButton {
    fn default() -> (r: ActivityButton)
        ensures
            r.name is None && r.url is None,
    {
        ActivityButton { name: None, url: None }
    }
}

/// A party: id and optional current/maximum size.
#[derive(Debug, Clone, PartialEq, Eq)]
pub struct ActivityParty {
    pub id: String,
    pub current: Option<String>,
    pub max: Option<String>,
}

impl Default for ActivityParty {
    fn default() -> (r: ActivityParty)
        ensures
            r.id@ == DEFAULT_PARTY_ID@,
            r.current is None,
            r.max is None,
    {
        ActivityParty { id: own(DEFAULT_PARTY_ID), current: None, max: None }
    }
}

/// Custom status: text and emoji.
#[derive(Debug, Clone, PartialEq, Eq)]
pub struct CustomStatusConfig {
    pub text: Option<String>,
    pub emoji: Option<String>,
}

impl Default for CustomStatusConfig {
    fn default() -> (r: CustomStatusConfig)
        ensures
            r.text is None && r.emoji is None,
    {
        CustomStatusConfig { text: None, emoji: None }
    }
}

/// The position of the `:` that separates an emoji tag's name from its id.
pub open spec fn emoji_tag(raw: Seq<char>) -> Option<JV> {
    if raw.len() >= 2 && raw[0] == '<' && raw[raw.len() - 1] == '>' {
        let inner = raw.subrange(1, raw.len() - 1);
        let animated = starts_with(inner, "a:"@);
        let rest = if animated {
            inner.subrange(2, inner.len() as int)
        } else if starts_with(inner, ":"@) {
            inner.subrange(1, inner.len() as int)
        } else {
            Seq::empty()
        };
        match first_index(rest, ':') {
            Some(i) => {
                let name = rest.subrange(0, i);
                let id = rest.subrange(i + 1, rest.len() as int);
                if name.len() > 0 && id.len() > 0 && all_digits(id) {
                    Some(
                        JV::Object(
                            seq![("name"@, JV::Str(name)), ("id"@, JV::Str(id))] + if animated {
                                seq![("animated"@, JV::Bool(true))]
                            } else {
                                Seq::empty()
                            },
                        ),
                    )
                } else {
                    None
                }
            },
            None => None,
        }
    } else {
        None
    }
}

/// The emoji object for `<:name:id>`, `<a:name:id>`, a bare id, or a
/// unicode name.
pub open spec fn emoji_spec(raw0: Seq<char>) -> JV {
    let raw = trim(raw0);
    match emoji_tag(raw) {
        Some(j) => j,
        None => if raw.len() > 0 && all_digits(raw) {
            JV::Object(seq![("id"@, JV::Str(raw))])
        } else {
            JV::Object(seq![("name"@, JV::Str(raw))])
        },
    }
}

fn emoji_tag_exec(raw: &Vec<char>) -> (r: Option<Json>)
    ensures
        match r {
            Some(j) => emoji_tag(raw@) == Some(jv(j)),
            None => emoji_tag(raw@) is None,
        },
{
    let n = raw.len();
    if !(n >= 2 && raw[0] == '<' && raw[n - 1] == '>') {
        return None;
    }
    let inner = sub_vec(raw, 1, n - 1);
    proof {
        reveal_strlit("a:");
        reveal_strlit(":");
    }
    let animated = vec_starts_with(&inner, &chars("a:"));
    let rest = if animated {
        sub_vec(&inner, 2, inner.len())
    } else if vec_starts_with(&inner, &chars(":")) {
        sub_vec(&inner, 1, inner.len())
    } else {
        Vec::new()
    };
    assert(rest@ =~= (if animated {
        inner@.subrange(2, inner@.len() as int)
    } else if starts_with(inner@, ":"@) {
        inner@.subrange(1, inner@.len() as int)
    } else {
        Seq::empty()
    }));
    let rn = rest.len();
    match find_char(&rest, ':') {
        Some(i) => {
            let name = sub_vec(&rest, 0, i);
            let id = sub_vec(&rest, i + 1, rn);
            if name.len() > 0 && id.len() > 0 && all_digit_chars(&id) {
                let mut e: Vec<(String, Json)> = Vec::new();
                push_entry(&mut e, "name", Json::Str(string_of(&name)));
                push_entry(&mut e, "id", Json::Str(string_of(&id)));
                if animated {
                    push_entry(&mut e, "animated", Json::Bool(true));
                }
                let ghost want = seq![("name"@, JV::Str(name@)), ("id"@, JV::Str(id@))] + if animated {
                    seq![("animated"@, JV::Bool(true))]
                } else {
                    Seq::empty()
                };
                assert(ev(e@) =~= want);
                Some(Json::Object(e))
            } else {
                None
            }
        },
        None => None,
    }
}

/// The emoji object of a custom status.
pub fn parse_emoji(raw: &str) -> (r: Json)
    ensures
        jv(r) == emoji_spec(raw@),
{
    let v = chars(raw);
    let (a, b) = trim_bounds(&v);
    let t = sub_vec(&v, a, b);
    match emoji_tag_exec(&t) {
        Some(j) => j,
        None => {
            let mut e: Vec<(String, Json)> = Vec::new();
            if t.len() > 0 && all_digit_chars(&t) {
                push_entry(&mut e, "id", Json::Str(string_of(&t)));
                assert(ev(e@) =~= seq![("id"@, JV::Str(t@))]);
            } else {
                push_entry(&mut e, "name", Json::Str(string_of(&t)));
                assert(ev(e@) =~= seq![("name"@, JV::Str(t@))]);
            }
            Json::Object(e)
        },
    }
}

/// The custom-status activity object.
pub open spec fn custom_status_spec(state: Seq<char>, emoji: Option<Seq<char>>) -> JV {
    JV::Object(
        seq![
            ("name"@, JV::Str("Custom Status"@)),
            ("type"@, JV::Num(4)),
            ("state"@, JV::Str(state)),
        ] + match emoji {
            Some(e) => if e.len() > 0 {
                seq![("emoji"@, emoji_spec(e))]
            } else {
                Seq::empty()
            },
            None => Seq::empty(),
        },
    )
}

/// Builds the custom-status activity.
pub fn build_custom_status(state: &str, emoji: Option<&str>) -> (r: Json)
    ensures
        jv(r) == custom_status_spec(
            state@,
            match emoji {
                Some(e) => Some(e@),
                None => None,
            },
        ),
{
    let mut e: Vec<(String, Json)> = Vec::new();
    push_entry(&mut e, "name", Json::Str(own("Custom Status")));
    push_entry(&mut e, "type", Json::Int(ActivityType::Custom.as_i64()));
    push_entry(&mut e, "state", Json::Str(own(state)));
    match emoji {
        Some(em) => {
            if !is_empty_str(em) {
                push_entry(&mut e, "emoji", parse_emoji(em));
            }
        },
        None => {},
    }
    let ghost want = seq![
        ("name"@, JV::Str("Custom Status"@)),
        ("type"@, JV::Num(4)),
        ("state"@, JV::Str(state@)),
    ] + match emoji {
        Some(x) => if x@.len() > 0 {
            seq![("emoji"@, emoji_spec(x@))]
        } else {
            Seq::empty()
        },
        None => Seq::empty(),
    };
    assert(ev(e@) =~= want);
    Json::Object(e)
}

impl CustomStatusConfig {
    /// The custom-status activity object, present when the text is not empty.
    pub open spec fn activity_spec(self) -> Option<JV> {
        match nonempty(self.text) {
            Some(t) => Some(custom_status_spec(t, opt_view(self.emoji))),
            None => None,
        }
    }

    pub fn to_activity(&self) -> (r: Option<Json>)
        ensures
            match r {
                Some(j) => self.activity_spec() == Some(jv(j)),
                None => self.activity_spec() is None,
            },
    {
        match &self.text {
            Some(t) => {
                if is_empty_str(t.as_str()) {
                    None
                } else {
                    let em: Option<&str> = match &self.emoji {
                        Some(x) => Some(x.as_str()),
                        None => None,
                    };
                    Some(build_custom_status(t.as_str(), em))
                }
            },
            None => None,
        }
    }
}

/// A configured activity.
#[derive(Debug, Clone, PartialEq, Eq)]
pub struct ActivityConfig {
    pub name: Option<String>,
    pub activity_type: Option<ActivityType>,
    pub platform: Option<ActivityPlatform>,
    pub timestamp: Option<String>,
    pub application_id: String,
    pub details: Option<String>,
    pub url: Option<String>,
    pub large_image: ImageAsset,
    pub small_image: ImageAsset,
    pub button: ActivityButton,
    pub button2: ActivityButton,
    pub party: ActivityParty,
}

/// Every field unset but the ids, which hold their defaults.
pub open spec fn is_default_activity(a: ActivityConfig) -> bool {
    &&& a.name is None
    &&& a.activity_type is None
    &&& a.platform is None
    &&& a.timestamp is None
    &&& a.application_id@ == DEFAULT_APPLICATION_ID@
    &&& a.details is None
    &&& a.url is None
    &&& a.large_image.image is None && a.large_image.text is None
    &&& a.small_image.image is None && a.small_image.text is None
    &&& a.button.name is None && a.button.url is None
    &&& a.button2.name is None && a.button2.url is None
    &&& a.party.id@ == DEFAULT_PARTY_ID@ && a.party.current is None && a.party.max is None
}

impl Default for ActivityConfig {
    fn default() -> (r: ActivityConfig)
        ensures
            is_default_activity(r),
    {
        ActivityConfig {
            name: None,
            activity_type: None,
            platform: None,
            timestamp: None,
            application_id: own(DEFAULT_APPLICATION_ID),
            details: None,
            url: None,
            large_image: ImageAsset::default(),
            small_image: ImageAsset::default(),
            button: ActivityButton::default(),
            button2: ActivityButton::default(),
            party: ActivityParty::default(),
        }
    }
}

/// Saturating `n * 1000` in `i64`.
pub open spec fn millis_spec(n: int) -> int {
    if n * 1000 > i64::MAX {
        i64::MAX as int
    } else if n * 1000 < i64::MIN {
        i64::MIN as int
    } else {
        n * 1000
    }
}

/// The `timestamps` object for a start time in Unix seconds.
pub open spec fn timestamps_spec(ts: Option<String>) -> Option<JV> {
    match nonempty(ts) {
        Some(t) => match parse_i64_spec(t) {
            Some(n) => Some(JV::Object(seq![("start"@, JV::Num(millis_spec(n as int)))])),
            None => None,
        },
        None => None,
    }
}

/// An image entry: the normalized reference when one is set.
pub open spec fn image_entry(image: Option<String>) -> Option<JV> {
    match nonempty(image) {
        Some(s) => Some(JV::Str(normalize_image_spec(s))),
        None => None,
    }
}

/// The asset entries of an activity.
pub open spec fn asset_entries(cfg: ActivityConfig) -> Seq<(Seq<char>, JV)> {
    opt_entry("large_image"@, image_entry(cfg.large_image.image)) + opt_entry(
        "large_text"@,
        nonempty_str(opt_view(cfg.large_image.text)),
    ) + opt_entry("small_image"@, image_entry(cfg.small_image.image)) + opt_entry(
        "small_text"@,
        nonempty_str(opt_view(cfg.small_image.text)),
    )
}

/// The `assets` object, present when it has entries.
pub open spec fn assets_spec(cfg: ActivityConfig) -> Option<JV> {
    if asset_entries(cfg).len() > 0 {
        Some(JV::Object(asset_entries(cfg)))
    } else {
        None
    }
}

/// A button that has both a label and a URL.
pub open spec fn button_pair(b: ActivityButton) -> Seq<(Seq<char>, Seq<char>)> {
    match (nonempty(b.name), nonempty(b.url)) {
        (Some(n), Some(u)) => seq![(n, u)],
        _ => Seq::empty(),
    }
}

/// The complete buttons of an activity, in order.
pub open spec fn button_pairs(cfg: ActivityConfig) -> Seq<(Seq<char>, Seq<char>)> {
    button_pair(cfg.button) + button_pair(cfg.button2)
}

/// The `buttons` and `metadata` entries, present when a button is complete.
pub open spec fn button_entries(cfg: ActivityConfig) -> Seq<(Seq<char>, JV)> {
    let p = button_pairs(cfg);
    if p.len() > 0 {
        seq![
            ("buttons"@, JV::Array(p.map_values(|x: (Seq<char>, Seq<char>)| JV::Str(x.0)))),
            (
                "metadata"@,
                JV::Object(
                    seq![
                        (
                            "button_urls"@,
                            JV::Array(p.map_values(|x: (Seq<char>, Seq<char>)| JV::Str(x.1))),
                        ),
                    ],
                ),
            ),
        ]
    } else {
        Seq::empty()
    }
}

/// The party size entry, present when both sizes are set and are integers.
pub open spec fn party_size(p: ActivityParty) -> Seq<(Seq<char>, JV)> {
    match (nonempty(p.current), nonempty(p.max)) {
        (Some(c), Some(m)) => match (parse_i64_spec(c), parse_i64_spec(m)) {
            (Some(a), Some(b)) => seq![
                ("size"@, JV::Array(seq![JV::Num(a as int), JV::Num(b as int)])),
            ],
            _ => Seq::empty(),
        },
        _ => Seq::empty(),
    }
}

/// The party entries.
pub open spec fn party_entries(p: ActivityParty) -> Seq<(Seq<char>, JV)> {
    (if p.id@.len() > 0 {
        seq![("id"@, JV::Str(p.id@))]
    } else {
        Seq::empty()
    }) + party_size(p)
}

/// The `party` object, present when it has entries.
pub open spec fn party_spec(p: ActivityParty) -> Option<JV> {
    if party_entries(p).len() > 0 {
        Some(JV::Object(party_entries(p)))
    } else {
        None
    }
}

/// The type sent for an activity; custom is sent as playing.
pub open spec fn sent_type(t: ActivityType) -> ActivityType {
    if t == ActivityType::Custom {
        ActivityType::Playing
    } else {
        t
    }
}

/// The rich-presence object of a user account's activity named `name`.
pub open spec fn rich_presence_spec(name: Seq<char>, cfg: ActivityConfig) -> JV {
    JV::Object(
        seq![("name"@, JV::Str(name)), ("application_id"@, JV::Str(cfg.application_id@))]
            + opt_entry(
            "type"@,
            match cfg.activity_type {
                Some(t) => Some(JV::Num(sent_type(t).code())),
                None => None,
            },
        ) + opt_entry(
            "platform"@,
            match cfg.platform {
                Some(p) => Some(JV::Str(p.name())),
                None => None,
            },
        ) + opt_entry("timestamps"@, timestamps_spec(cfg.timestamp)) + opt_entry(
            "details"@,
            nonempty_str(opt_view(cfg.details)),
        ) + opt_entry("url"@, nonempty_str(opt_view(cfg.url))) + opt_entry(
            "assets"@,
            assets_spec(cfg),
        ) + button_entries(cfg) + opt_entry("party"@, party_spec(cfg.party)),
    )
}

/// The activity object of a bot: name, type, url and state only.
pub open spec fn bot_activity_spec(name: Seq<char>, cfg: ActivityConfig) -> JV {
    let t = match cfg.activity_type {
        None => ActivityType::Playing,
        Some(t) => sent_type(t),
    };
    JV::Object(
        seq![("name"@, JV::Str(name)), ("type"@, JV::Num(t.code()))] + opt_entry(
            "url"@,
            nonempty_str(opt_view(cfg.url)),
        ) + opt_entry("state"@, nonempty_str(opt_view(cfg.details))),
    )
}

fn opt_str(o: &Option<String>) -> (r: Option<&str>)
    ensures
        crate::json::opt_ref_view(r) == opt_view(*o),
{
    match o {
        Some(s) => Some(s.as_str()),
        None => None,
    }
}

fn is_nonempty(o: &Option<String>) -> (r: Option<&str>)
    ensures
        match r {
            Some(s) => nonempty(*o) == Some(s@),
            None => nonempty(*o) is None,
        },
{
    match o {
        Some(s) => {
            if is_empty_str(s.as_str()) {
                None
            } else {
                Some(s.as_str())
            }
        },
        None => None,
    }
}

fn push_image(e: &mut Vec<(String, Json)>, k: &str, image: &Option<String>)
    ensures
        ev(final(e)@) == ev(old(e)@) + opt_entry(k@, image_entry(*image)),
{
    match is_nonempty(image) {
        Some(s) => {
            push_entry(e, k, Json::Str(normalize_activity_image(s)));
        },
        None => {},
    }
    assert(ev(e@) =~= ev(old(e)@) + opt_entry(k@, image_entry(*image)));
}

fn saturating_millis(n: i64) -> (r: i64)
    ensures
        r == millis_spec(n as int),
{
    if n > 9223372036854775 {
        i64::MAX
    } else if n < -9223372036854775 {
        i64::MIN
    } else {
        n * 1000
    }
}

fn timestamps_exec(ts: &Option<String>) -> (r: Option<Json>)
    ensures
        match r {
            Some(j) => timestamps_spec(*ts) == Some(jv(j)),
            None => timestamps_spec(*ts) is None,
        },
{
    match is_nonempty(ts) {
        Some(t) => match parse_i64(t) {
            Some(n) => {
                let mut e: Vec<(String, Json)> = Vec::new();
                push_entry(&mut e, "start", Json::Int(saturating_millis(n)));
                assert(ev(e@) =~= seq![("start"@, JV::Num(millis_spec(n as int)))]);
                Some(Json::Object(e))
            },
            None => None,
        },
        None => None,
    }
}

fn push_button(names: &mut Vec<Json>, urls: &mut Vec<Json>, b: &ActivityButton) -> (added: bool)
    ensures
        iv(final(names)@) == iv(old(names)@) + button_pair(*b).map_values(
            |x: (Seq<char>, Seq<char>)| JV::Str(x.0),
        ),
        iv(final(urls)@) == iv(old(urls)@) + button_pair(*b).map_values(
            |x: (Seq<char>, Seq<char>)| JV::Str(x.1),
        ),
        added == (button_pair(*b).len() > 0),
{
    match (is_nonempty(&b.name), is_nonempty(&b.url)) {
        (Some(n), Some(u)) => {
            push_item(names, Json::Str(own(n)));
            push_item(urls, Json::Str(own(u)));
            assert(iv(names@) =~= iv(old(names)@) + button_pair(*b).map_values(
                |x: (Seq<char>, Seq<char>)| JV::Str(x.0),
            ));
            assert(iv(urls@) =~= iv(old(urls)@) + button_pair(*b).map_values(
                |x: (Seq<char>, Seq<char>)| JV::Str(x.1),
            ));
            true
        },
        _ => {
            assert(iv(names@) =~= iv(old(names)@) + button_pair(*b).map_values(
                |x: (Seq<char>, Seq<char>)| JV::Str(x.0),
            ));
            assert(iv(urls@) =~= iv(old(urls)@) + button_pair(*b).map_values(
                |x: (Seq<char>, Seq<char>)| JV::Str(x.1),
            ));
            false
        },
    }
}

fn push_buttons(e: &mut Vec<(String, Json)>, cfg: &ActivityConfig)
    ensures
        ev(final(e)@) == ev(old(e)@) + button_entries(*cfg),
{
    let mut names: Vec<Json> = Vec::new();
    let mut urls: Vec<Json> = Vec::new();
    let a = push_button(&mut names, &mut urls, &cfg.button);
    let b = push_button(&mut names, &mut urls, &cfg.button2);
    let ghost p = button_pairs(*cfg);
    assert(iv(names@) =~= p.map_values(|x: (Seq<char>, Seq<char>)| JV::Str(x.0)));
    assert(iv(urls@) =~= p.map_values(|x: (Seq<char>, Seq<char>)| JV::Str(x.1)));
    if a || b {
        push_entry(e, "buttons", Json::Array(names));
        let mut m: Vec<(String, Json)> = Vec::new();
        push_entry(&mut m, "button_urls", Json::Array(urls));
        push_entry(e, "metadata", Json::Object(m));
    }
    assert(ev(e@) =~= ev(old(e)@) + button_entries(*cfg));
}

fn party_exec(p: &ActivityParty) -> (r: Option<Json>)
    ensures
        match r {
            Some(j) => party_spec(*p) == Some(jv(j)),
            None => party_spec(*p) is None,
        },
{
    let mut e: Vec<(String, Json)> = Vec::new();
    if !is_empty_str(p.id.as_str()) {
        push_entry(&mut e, "id", Json::Str(p.id.clone()));
    }
    assert(ev(e@) =~= (if p.id@.len() > 0 {
        seq![("id"@, JV::Str(p.id@))]
    } else {
        Seq::empty()
    }));
    let ghost before = ev(e@);
    match (is_nonempty(&p.current), is_nonempty(&p.max)) {
        (Some(c), Some(m)) => match (parse_i64(c), parse_i64(m)) {
            (Some(a), Some(b)) => {
                let mut size: Vec<Json> = Vec::new();
                push_item(&mut size, Json::Int(a));
                push_item(&mut size, Json::Int(b));
                assert(iv(size@) =~= seq![JV::Num(a as int), JV::Num(b as int)]);
                push_entry(&mut e, "size", Json::Array(size));
            },
            _ => {},
        },
        _ => {},
    }
    assert(ev(e@) =~= party_entries(*p));
    if e.len() > 0 {
        Some(Json::Object(e))
    } else {
        proof {
            crate::json::lemma_ev_len(e@);
        }
        None
    }
}

/// The entries of a rich-presence object up to the timestamps.
pub open spec fn rich_head(name: Seq<char>, cfg: ActivityConfig) -> Seq<(Seq<char>, JV)> {
    seq![("name"@, JV::Str(name)), ("application_id"@, JV::Str(cfg.application_id@))]
        + opt_entry(
        "type"@,
        match cfg.activity_type {
            Some(t) => Some(JV::Num(sent_type(t).code())),
            None => None,
        },
    ) + opt_entry(
        "platform"@,
        match cfg.platform {
            Some(p) => Some(JV::Str(p.name())),
            None => None,
        },
    ) + opt_entry("timestamps"@, timestamps_spec(cfg.timestamp))
}

/// The details, url and assets entries of a rich-presence object.
pub open spec fn rich_middle(cfg: ActivityConfig) -> Seq<(Seq<char>, JV)> {
    opt_entry("details"@, nonempty_str(opt_view(cfg.details))) + opt_entry(
        "url"@,
        nonempty_str(opt_view(cfg.url)),
    ) + opt_entry("assets"@, assets_spec(cfg))
}

/// The button and party entries of a rich-presence object.
pub open spec fn rich_tail(cfg: ActivityConfig) -> Seq<(Seq<char>, JV)> {
    button_entries(cfg) + opt_entry("party"@, party_spec(cfg.party))
}

fn push_rich_head(e: &mut Vec<(String, Json)>, name: &str, cfg: &ActivityConfig)
    ensures
        ev(final(e)@) == ev(old(e)@) + rich_head(name@, *cfg),
{
    push_entry(e, "name", Json::Str(own(name)));
    push_entry(e, "application_id", Json::Str(cfg.application_id.clone()));
    match cfg.activity_type {
        Some(t) => {
            let t2 = if t == ActivityType::Custom {
                ActivityType::Playing
            } else {
                t
            };
            push_entry(e, "type", Json::Int(t2.as_i64()));
        },
        None => {},
    }
    match cfg.platform {
        Some(p) => {
            push_entry(e, "platform", Json::Str(own(p.as_str())));
        },
        None => {},
    }
    match timestamps_exec(&cfg.timestamp) {
        Some(j) => {
            push_entry(e, "timestamps", j);
        },
        None => {},
    }
    assert(ev(e@) =~= ev(old(e)@) + rich_head(name@, *cfg));
}

fn push_rich_middle(e: &mut Vec<(String, Json)>, cfg: &ActivityConfig)
    ensures
        ev(final(e)@) == ev(old(e)@) + rich_middle(*cfg),
{
    push_nonempty(e, "details", opt_str(&cfg.details));
    push_nonempty(e, "url", opt_str(&cfg.url));
    let mut assets: Vec<(String, Json)> = Vec::new();
    push_image(&mut assets, "large_image", &cfg.large_image.image);
    push_nonempty(&mut assets, "large_text", opt_str(&cfg.large_image.text));
    push_image(&mut assets, "small_image", &cfg.small_image.image);
    push_nonempty(&mut assets, "small_text", opt_str(&cfg.small_image.text));
    assert(ev(assets@) =~= asset_entries(*cfg));
    let ghost s2 = ev(e@);
    if assets.len() > 0 {
        push_entry(e, "assets", Json::Object(assets));
    } else {
        proof {
            crate::json::lemma_ev_len(assets@);
        }
    }
    assert(ev(e@) =~= ev(old(e)@) + rich_middle(*cfg));
}

fn push_rich_tail(e: &mut Vec<(String, Json)>, cfg: &ActivityConfig)
    ensures
        ev(final(e)@) == ev(old(e)@) + rich_tail(*cfg),
{
    push_buttons(e, cfg);
    match party_exec(&cfg.party) {
        Some(j) => {
            push_entry(e, "party", j);
        },
        None => {},
    }
    assert(ev(e@) =~= ev(old(e)@) + rich_tail(*cfg));
}

/// Builds the rich-presence object of a user account's activity.
pub fn build_rich_presence(name: &str, cfg: &ActivityConfig) -> (r: Json)
    ensures
        jv(r) == rich_presence_spec(name@, *cfg),
{
    let mut e: Vec<(String, Json)> = Vec::new();
    push_rich_head(&mut e, name, cfg);
    push_rich_middle(&mut e, cfg);
    push_rich_tail(&mut e, cfg);
    assert(ev(e@) =~= rich_head(name@, *cfg) + rich_middle(*cfg) + rich_tail(*cfg));
    assert(rich_head(name@, *cfg) + rich_middle(*cfg) + rich_tail(*cfg) =~= match rich_presence_spec(name@, *cfg) {
        JV::Object(x) => x,
        _ => Seq::empty(),
    });
    Json::Object(e)
}

/// Builds the activity object of a bot.
pub fn build_bot_activity(name: &str, cfg: &ActivityConfig) -> (r: Json)
    ensures
        jv(r) == bot_activity_spec(name@, *cfg),
{
    let t = match cfg.activity_type {
        None => ActivityType::Playing,
        Some(ActivityType::Custom) => ActivityType::Playing,
        Some(t) => t,
    };
    let mut e: Vec<(String, Json)> = Vec::new();
    push_entry(&mut e, "name", Json::Str(own(name)));
    push_entry(&mut e, "type", Json::Int(t.as_i64()));
    push_nonempty(&mut e, "url", opt_str(&cfg.url));
    push_nonempty(&mut e, "state", opt_str(&cfg.details));
    assert(ev(e@) =~= match bot_activity_spec(name@, *cfg) {
        JV::Object(x) => x,
        _ => Seq::empty(),
    });
    Json::Object(e)
}

impl ActivityConfig {
    pub fn new() -> (r: ActivityConfig)
        ensures
            is_default_activity(r),
    {
        ActivityConfig::default()
    }

    /// The activity object sent for this activity by an account of `kind`,
    /// present when the activity has a non-empty name.
    pub open spec fn activity_spec(self, kind: AccountKind) -> Option<JV> {
        match nonempty(self.name) {
            Some(n) => match kind {
                AccountKind::User => Some(rich_presence_spec(n, self)),
                AccountKind::Bot => Some(bot_activity_spec(n, self)),
            },
            None => None,
        }
    }

    pub fn to_activity(&self, kind: AccountKind) -> (r: Option<Json>)
        ensures
            match r {
                Some(j) => self.activity_spec(kind) == Some(jv(j)),
                None => self.activity_spec(kind) is None,
            },
    {
        match is_nonempty(&self.name) {
            Some(n) => match kind {
                AccountKind::User => Some(build_rich_presence(n, self)),
                AccountKind::Bot => Some(build_bot_activity(n, self)),
            },
            None => None,
        }
    }
}

/// The timestamp an activity has after pinning: `now` when it had none or
/// an empty one.
pub open spec fn pinned_timestamp(ts: Option<String>, now: int) -> Option<Seq<char>> {
    match ts {
        Some(s) => if s@.len() > 0 {
            Some(s@)
        } else {
            Some(int_decimal(now))
        },
        None => Some(int_decimal(now)),
    }
}

/// Whether two activities agree on everything but the timestamp.
pub open spec fn same_but_timestamp(a: ActivityConfig, b: ActivityConfig) -> bool {
    a == ActivityConfig { timestamp: a.timestamp, ..b }
}

/// `after` is `before` with every missing or empty timestamp set to `now`.
pub open spec fn pinned_by(before: Seq<ActivityConfig>, after: Seq<ActivityConfig>, now: int) -> bool {
    &&& after.len() == before.len()
    &&& forall|i: int|
        0 <= i < before.len() ==> same_but_timestamp(#[trigger] after[i], before[i])
            && opt_view(after[i].timestamp) == pinned_timestamp(before[i].timestamp, now)
}

/// Gives every activity without a timestamp (or with an empty one) the
/// start time `now`, in Unix seconds.
pub fn pin_default_activity_timestamps(activities: &mut Vec<ActivityConfig>, now: i64)
    ensures
        pinned_by(old(activities)@, final(activities)@, now as int),
{
    let now_s = i64_to_string(now);
    let n = activities.len();
    let mut i: usize = 0;
    while i < n
        invariant
            n == old(activities)@.len(),
            activities@.len() == n,
            i <= n,
            now_s@ == int_decimal(now as int),
            forall|j: int|
                0 <= j < i ==> same_but_timestamp(
                    #[trigger] activities@[j],
                    old(activities)@[j],
                ) && opt_view(activities@[j].timestamp) == pinned_timestamp(
                    old(activities)@[j].timestamp,
                    now as int,
                ),
            forall|j: int| i <= j < n ==> #[trigger] activities@[j] == old(activities)@[j],
        decreases n - i,
    {
        let missing = match &activities[i].timestamp {
            Some(ts) => is_empty_str(ts.as_str()),
            None => true,
        };
        if missing {
            activities[i].timestamp = Some(now_s.clone());
        }
        i = i + 1;
    }
}

/// Pinning is stable: pinning activities that were already pinned, with any
/// other time, leaves every timestamp as the first pinning set it.
pub proof fn lemma_pin_is_stable(
    a0: Seq<ActivityConfig>,
    a1: Seq<ActivityConfig>,
    a2: Seq<ActivityConfig>,
    now1: int,
    now2: int,
)
    requires
        pinned_by(a0, a1, now1),
        pinned_by(a1, a2, now2),
    ensures
        forall|i: int| 0 <= i < a0.len() ==> opt_view(#[trigger] a2[i].timestamp) == opt_view(a1[i].timestamp),
{
    lemma_int_decimal_nonempty(now1);
    assert forall|i: int| 0 <= i < a0.len() implies opt_view(#[trigger] a2[i].timestamp) == opt_view(a1[i].timestamp) by {
        assert(same_but_timestamp(a1[i], a0[i]));
        assert(same_but_timestamp(a2[i], a1[i]));
    }
}

pub proof fn lemma_int_decimal_nonempty(n: int)
    ensures
        int_decimal(n).len() > 0,
{
    lemma_nat_decimal_nonempty(if n < 0 {
        (-n) as nat
    } else {
        n as nat
    });
}

proof fn lemma_nat_decimal_nonempty(n: nat)
    ensures
        crate::text::nat_decimal(n).len() > 0,
    decreases n,
{
    if n >= 10 {
        lemma_nat_decimal_nonempty(n / 10);
    }
}

/// In the `assets` object, each image entry is that image's normalized
/// reference when it is set, and absent when it is not, whatever the other
/// image holds.
pub proof fn lemma_rich_assets_images(name: Seq<char>, cfg: ActivityConfig)
    ensures
        nonempty(cfg.small_image.image) is Some ==> field(rich_presence_spec(name, cfg), "assets"@) is Some && field(
            field(rich_presence_spec(name, cfg), "assets"@)->0,
            "small_image"@,
        ) == Some(JV::Str(normalize_image_spec(nonempty(cfg.small_image.image)->0))),
        nonempty(cfg.small_image.image) is None && field(rich_presence_spec(name, cfg), "assets"@) is Some ==> field(
            field(rich_presence_spec(name, cfg), "assets"@)->0,
            "small_image"@,
        ) is None,
        nonempty(cfg.large_image.image) is Some ==> field(rich_presence_spec(name, cfg), "assets"@) is Some && field(
            field(rich_presence_spec(name, cfg), "assets"@)->0,
            "large_image"@,
        ) == Some(JV::Str(normalize_image_spec(nonempty(cfg.large_image.image)->0))),
        nonempty(cfg.large_image.image) is None && field(rich_presence_spec(name, cfg), "assets"@) is Some ==> field(
            field(rich_presence_spec(name, cfg), "assets"@)->0,
            "large_image"@,
        ) is None,
{
    reveal_strlit("assets");
    reveal_strlit("name");
    reveal_strlit("application_id");
    reveal_strlit("type");
    reveal_strlit("platform");
    reveal_strlit("timestamps");
    reveal_strlit("details");
    reveal_strlit("url");
    reveal_strlit("large_image");
    reveal_strlit("large_text");
    reveal_strlit("small_image");
    reveal_strlit("small_text");
    reveal_strlit("party");
    let k = "assets"@;
    let head = seq![("name"@, JV::Str(name)), ("application_id"@, JV::Str(cfg.application_id@))];
    let e1 = opt_entry(
        "type"@,
        match cfg.activity_type {
            Some(t) => Some(JV::Num(sent_type(t).code())),
            None => None,
        },
    );
    let e2 = opt_entry(
        "platform"@,
        match cfg.platform {
            Some(p) => Some(JV::Str(p.name())),
            None => None,
        },
    );
    let e3 = opt_entry("timestamps"@, timestamps_spec(cfg.timestamp));
    let e4 = opt_entry("details"@, nonempty_str(opt_view(cfg.details)));
    let e5 = opt_entry("url"@, nonempty_str(opt_view(cfg.url)));
    let ea = opt_entry("assets"@, assets_spec(cfg));
    let rest = button_entries(cfg) + opt_entry("party"@, party_spec(cfg.party));
    // no key before the assets is `assets`
    let h1 = opt_entry("name"@, Some(JV::Str(name)));
    let h2 = opt_entry("application_id"@, Some(JV::Str(cfg.application_id@)));
    assert(head =~= h1 + h2);
    assert("name"@.len() != k.len() && "application_id"@.len() != k.len());
    lemma_lookup_opt_entry("name"@, Some(JV::Str(name)), k);
    lemma_lookup_opt_entry("application_id"@, Some(JV::Str(cfg.application_id@)), k);
    lemma_lookup_append(h1, h2, k);
    assert(lookup(head, k) is None);
    lemma_lookup_opt_entry("type"@, None, k);
    lemma_lookup_append(head, e1, k);
    lemma_lookup_opt_entry(
        "type"@,
        match cfg.activity_type {
            Some(t) => Some(JV::Num(sent_type(t).code())),
            None => None,
        },
        k,
    );
    lemma_lookup_opt_entry(
        "platform"@,
        match cfg.platform {
            Some(p) => Some(JV::Str(p.name())),
            None => None,
        },
        k,
    );
    lemma_lookup_opt_entry("timestamps"@, timestamps_spec(cfg.timestamp), k);
    lemma_lookup_opt_entry("details"@, nonempty_str(opt_view(cfg.details)), k);
    lemma_lookup_opt_entry("url"@, nonempty_str(opt_view(cfg.url)), k);
    lemma_lookup_opt_entry("assets"@, assets_spec(cfg), k);
    lemma_lookup_append(head + e1, e2, k);
    lemma_lookup_append(head + e1 + e2, e3, k);
    lemma_lookup_append(head + e1 + e2 + e3, e4, k);
    lemma_lookup_append(head + e1 + e2 + e3 + e4, e5, k);
    let pre = head + e1 + e2 + e3 + e4 + e5;
    assert(lookup(pre, k) is None);
    lemma_lookup_append(pre, ea, k);
    lemma_lookup_append(pre + ea, button_entries(cfg), k);
    lemma_lookup_append(pre + ea + button_entries(cfg), opt_entry("party"@, party_spec(cfg.party)), k);
    assert("type"@.len() != k.len() && "platform"@.len() != k.len() && "timestamps"@.len() != k.len());
    assert("details"@.len() != k.len() && "url"@.len() != k.len() && "party"@.len() != k.len());
    lemma_lookup_opt_entry("party"@, party_spec(cfg.party), k);
    let b = button_entries(cfg);
    assert(lookup(b, k) is None) by {
        reveal_strlit("buttons");
        reveal_strlit("metadata");
        if b.len() > 0 {
            assert(b[0].0.len() != k.len());
            let b1 = b.subrange(1, b.len() as int);
            assert(b1[0].0.len() != k.len());
            let b2 = b1.subrange(1, b1.len() as int);
            assert(b2.len() == 0);
            assert(lookup(b2, k) is None);
            assert(lookup(b1, k) == lookup(b2, k));
            assert(lookup(b, k) == lookup(b1, k));
        }
    }
    let full = pre + ea + b + opt_entry("party"@, party_spec(cfg.party));
    assert(rich_presence_spec(name, cfg) == JV::Object(full));
    assert(field(rich_presence_spec(name, cfg), k) == assets_spec(cfg));
    // inside the assets object
    let l1 = opt_entry("large_image"@, image_entry(cfg.large_image.image));
    let l2 = opt_entry("large_text"@, nonempty_str(opt_view(cfg.large_image.text)));
    let s1 = opt_entry("small_image"@, image_entry(cfg.small_image.image));
    let s2 = opt_entry("small_text"@, nonempty_str(opt_view(cfg.small_image.text)));
    assert("large_image"@[0] != "small_image"@[0]);
    assert("large_text"@.len() != "small_image"@.len() && "large_text"@.len() != "large_image"@.len());
    assert("small_text"@.len() != "small_image"@.len() && "small_text"@.len() != "large_image"@.len());
    let si = "small_image"@;
    let li = "large_image"@;
    lemma_lookup_opt_entry("large_image"@, image_entry(cfg.large_image.image), si);
    lemma_lookup_opt_entry("large_text"@, nonempty_str(opt_view(cfg.large_image.text)), si);
    lemma_lookup_opt_entry("small_image"@, image_entry(cfg.small_image.image), si);
    lemma_lookup_opt_entry("small_text"@, nonempty_str(opt_view(cfg.small_image.text)), si);
    lemma_lookup_append(l1, l2, si);
    lemma_lookup_append(l1 + l2, s1, si);
    lemma_lookup_append(l1 + l2 + s1, s2, si);
    lemma_lookup_opt_entry("large_image"@, image_entry(cfg.large_image.image), li);
    lemma_lookup_opt_entry("large_text"@, nonempty_str(opt_view(cfg.large_image.text)), li);
    lemma_lookup_opt_entry("small_image"@, image_entry(cfg.small_image.image), li);
    lemma_lookup_opt_entry("small_text"@, nonempty_str(opt_view(cfg.small_image.text)), li);
    lemma_lookup_append(l1, l2, li);
    lemma_lookup_append(l1 + l2, s1, li);
    lemma_lookup_append(l1 + l2 + s1, s2, li);
    assert(asset_entries(cfg) == l1 + l2 + s1 + s2);
    if image_entry(cfg.small_image.image) is Some {
        assert(lookup(l1 + l2 + s1 + s2, si) is Some);
        assert(asset_entries(cfg).len() > 0);
    }
    if image_entry(cfg.large_image.image) is Some {
        assert(lookup(l1 + l2 + s1 + s2, li) is Some);
        assert(asset_entries(cfg).len() > 0);
    }
}

} // verus!
