//! Partial configuration layers: every leaf is an optional string, unset
//! until some source sets it.

use crate::config::keyed::KeyedMap;
use crate::config::token::SecretString;
use crate::text::opt_view;
use vstd::prelude::*;

verus! {

/// The leaves of a partial record, in catalog order.
pub type Leaves = Seq<Option<Seq<char>>>;

/// `n` unset leaves.
pub open spec fn unset(n: nat) -> Leaves {
    Seq::new(n, |i: int| None::<Seq<char>>)
}

/// Some leaf is set.
pub open spec fn any_set(s: Leaves) -> bool {
    exists|i: int| 0 <= i < s.len() && (#[trigger] s[i]) is Some
}

/// `src` laid over `dst`: a set leaf of `src` wins, an unset one keeps `dst`.
pub open spec fn overlay(dst: Leaves, src: Leaves) -> Leaves {
    Seq::new(dst.len(), |i: int| if src[i] is Some { src[i] } else { dst[i] })
}

/// The view of an optional token.
pub open spec fn secret_view(s: Option<SecretString>) -> Option<Seq<char>> {
    match s {
        Some(t) => Some(t@),
        None => None,
    }
}

/// Client-property overrides of one profile.
pub struct PartialClientProperties {
    pub os: Option<String>,
    pub browser: Option<String>,
    pub device: Option<String>,
    pub user_agent: Option<String>,
}

impl View for PartialClientProperties {
    type V = Leaves;

    open spec fn view(&self) -> Leaves {
        seq![opt_view(self.os), opt_view(self.browser), opt_view(self.device), opt_view(self.user_agent)]
    }
}

impl Default for PartialClientProperties {
    fn default() -> (r: PartialClientProperties)
        ensures
            r@ == unset(4),
    {
        let r = PartialClientProperties { os: None, browser: None, device: None, user_agent: None };
        assert(r@ =~= unset(4));
        r
    }
}

/// Custom status text and emoji.
pub struct PartialCustomStatus {
    pub text: Option<String>,
    pub emoji: Option<String>,
}

impl View for PartialCustomStatus {
    type V = Leaves;

    open spec fn view(&self) -> Leaves {
        seq![opt_view(self.text), opt_view(self.emoji)]
    }
}

impl Default for PartialCustomStatus {
    fn default() -> (r: PartialCustomStatus)
        ensures
            r@ == unset(2),
    {
        let r = PartialCustomStatus { text: None, emoji: None };
        assert(r@ =~= unset(2));
        r
    }
}

/// The view of an optional custom status.
pub open spec fn custom_view(c: Option<PartialCustomStatus>) -> Option<Leaves> {
    match c {
        Some(v) => Some(v@),
        None => None,
    }
}

/// One activity, every field still text.
pub struct PartialActivity {
    pub name: Option<String>,
    pub activity_type: Option<String>,
    pub platform: Option<String>,
    pub timestamp: Option<String>,
    pub application_id: Option<String>,
    pub details: Option<String>,
    pub url: Option<String>,
    pub large_image: Option<String>,
    pub large_image_text: Option<String>,
    pub small_image: Option<String>,
    pub small_image_text: Option<String>,
    pub button: Option<String>,
    pub button_url: Option<String>,
    pub button2: Option<String>,
    pub button2_url: Option<String>,
    pub party_id: Option<String>,
    pub party_current: Option<String>,
    pub party_max: Option<String>,
}

impl View for PartialActivity {
    type V = Leaves;

    open spec fn view(&self) -> Leaves {
        seq![
            opt_view(self.name),
            opt_view(self.activity_type),
            opt_view(self.platform),
            opt_view(self.timestamp),
            opt_view(self.application_id),
            opt_view(self.details),
            opt_view(self.url),
            opt_view(self.large_image),
            opt_view(self.large_image_text),
            opt_view(self.small_image),
            opt_view(self.small_image_text),
            opt_view(self.button),
            opt_view(self.button_url),
            opt_view(self.button2),
            opt_view(self.button2_url),
            opt_view(self.party_id),
            opt_view(self.party_current),
            opt_view(self.party_max),
        ]
    }
}

impl Default for PartialActivity {
    fn default() -> (r: PartialActivity)
        ensures
            r@ == unset(18),
    {
        let r = PartialActivity {
            name: None,
            activity_type: None,
            platform: None,
            timestamp: None,
            application_id: None,
            details: None,
            url: None,
            large_image: None,
            large_image_text: None,
            small_image: None,
            small_image_text: None,
            button: None,
            button_url: None,
            button2: None,
            button2_url: None,
            party_id: None,
            party_current: None,
            party_max: None,
        };
        assert(r@ =~= unset(18));
        r
    }
}

/// Client-property overrides per profile.
pub struct PartialDefaults {
    pub bot: PartialClientProperties,
    pub web: PartialClientProperties,
    pub desktop: PartialClientProperties,
    pub mobile: PartialClientProperties,
}

impl View for PartialDefaults {
    type V = Seq<Leaves>;

    open spec fn view(&self) -> Seq<Leaves> {
        seq![self.bot@, self.web@, self.desktop@, self.mobile@]
    }
}

impl Default for PartialDefaults {
    fn default() -> (r: PartialDefaults)
        ensures
            r@ == seq![unset(4), unset(4), unset(4), unset(4)],
    {
        PartialDefaults {
            bot: PartialClientProperties::default(),
            web: PartialClientProperties::default(),
            desktop: PartialClientProperties::default(),
            mobile: PartialClientProperties::default(),
        }
    }
}

/// The plain settings of an account.
pub struct AccountScalars {
    pub name: Option<String>,
    pub token: Option<SecretString>,
    pub kind: Option<String>,
    pub device: Option<String>,
    pub status: Option<String>,
}

impl View for AccountScalars {
    type V = Leaves;

    /// In catalog order: token, name, kind, device, status.
    open spec fn view(&self) -> Leaves {
        seq![secret_view(self.token), opt_view(self.name), opt_view(self.kind), opt_view(self.device), opt_view(self.status)]
    }
}

impl Default for AccountScalars {
    fn default() -> (r: AccountScalars)
        ensures
            r@ == unset(5),
    {
        let r = AccountScalars { name: None, token: None, kind: None, device: None, status: None };
        assert(r@ =~= unset(5));
        r
    }
}

/// One account of a layer.
pub struct PartialAccount {
    pub scalars: AccountScalars,
    pub custom_status: Option<PartialCustomStatus>,
    pub activities: KeyedMap<PartialActivity>,
    pub activity_order: Vec<String>,
}

/// The views of a sequence of strings.
pub open spec fn strings_view(v: Seq<String>) -> Seq<Seq<char>> {
    v.map_values(|s: String| s@)
}

impl Default for PartialAccount {
    fn default() -> (r: PartialAccount)
        ensures
            r.scalars@ == unset(5),
            r.custom_status is None,
            r.activities@ == Map::<Seq<char>, PartialActivity>::empty(),
            r.activities.keys_view() == Seq::<Seq<char>>::empty(),
            r.activity_order@ == Seq::<String>::empty(),
    {
        PartialAccount {
            scalars: AccountScalars::default(),
            custom_status: None,
            activities: KeyedMap::new(),
            activity_order: Vec::new(),
        }
    }
}

/// One configuration layer.
pub struct PartialConfig {
    pub log_level: Option<String>,
    pub health_socket: Option<String>,
    pub defaults: PartialDefaults,
    pub accounts: KeyedMap<PartialAccount>,
    pub account_order: Vec<String>,
}

/// A layer with nothing set.
pub open spec fn is_empty_layer(p: PartialConfig) -> bool {
    &&& p.log_level is None
    &&& p.health_socket is None
    &&& p.defaults@ == seq![unset(4), unset(4), unset(4), unset(4)]
    &&& p.accounts@ == Map::<Seq<char>, PartialAccount>::empty()
    &&& p.accounts.keys_view() == Seq::<Seq<char>>::empty()
    &&& p.account_order@ == Seq::<String>::empty()
}

impl Default for PartialConfig {
    fn default() -> (r: PartialConfig)
        ensures
            is_empty_layer(r),
    {
        PartialConfig {
            log_level: None,
            health_socket: None,
            defaults: PartialDefaults::default(),
            accounts: KeyedMap::new(),
            account_order: Vec::new(),
        }
    }
}

fn any_leaf(v: &[&Option<String>]) -> (r: bool)
    ensures
        r == exists|i: int| 0 <= i < v@.len() && (#[trigger] v@[i]) is Some,
{
    let mut i: usize = 0;
    while i < v.len()
        invariant
            i <= v@.len(),
            forall|j: int| 0 <= j < i ==> (#[trigger] v@[j]) is None,
        decreases v@.len() - i,
    {
        if v[i].is_some() {
            return true;
        }
        i = i + 1;
    }
    false
}

pub fn any_activity_field_set(act: &PartialActivity) -> (r: bool)
    ensures
        r == any_set(act@),
{
    let r = any_leaf(
        &[
            &act.name,
            &act.activity_type,
            &act.platform,
            &act.timestamp,
            &act.application_id,
            &act.details,
            &act.url,
            &act.large_image,
            &act.large_image_text,
            &act.small_image,
            &act.small_image_text,
            &act.button,
            &act.button_url,
            &act.button2,
            &act.button2_url,
            &act.party_id,
            &act.party_current,
            &act.party_max,
        ],
    );
    assert(r == any_set(act@)) by {
        if r {
            let i = choose|i: int| 0 <= i < 18 && act@[i] is Some;
        }
    }
    r
}

pub fn any_custom_status_field_set(cs: &PartialCustomStatus) -> (r: bool)
    ensures
        r == any_set(cs@),
{
    let r = cs.text.is_some() || cs.emoji.is_some();
    assert(r == any_set(cs@)) by {
        if r {
            if cs.text.is_some() {
                assert(cs@[0] is Some);
            } else {
                assert(cs@[1] is Some);
            }
        }
    }
    r
}

pub fn any_client_prop_set(props: &PartialClientProperties) -> (r: bool)
    ensures
        r == any_set(props@),
{
    let r = props.os.is_some() || props.browser.is_some() || props.device.is_some() || props.user_agent.is_some();
    assert(r == any_set(props@)) by {
        if props.os.is_some() {
            assert(props@[0] is Some);
        } else if props.browser.is_some() {
            assert(props@[1] is Some);
        } else if props.device.is_some() {
            assert(props@[2] is Some);
        } else if props.user_agent.is_some() {
            assert(props@[3] is Some);
        }
    }
    r
}

pub fn any_scalar_set(s: &AccountScalars) -> (r: bool)
    ensures
        r == any_set(s@),
{
    let r = s.token.is_some() || s.name.is_some() || s.kind.is_some() || s.device.is_some() || s.status.is_some();
    assert(r == any_set(s@)) by {
        if s.token.is_some() {
            assert(s@[0] is Some);
        } else if s.name.is_some() {
            assert(s@[1] is Some);
        } else if s.kind.is_some() {
            assert(s@[2] is Some);
        } else if s.device.is_some() {
            assert(s@[3] is Some);
        } else if s.status.is_some() {
            assert(s@[4] is Some);
        }
    }
    r
}

/// Some activity of the map sets a field.
pub open spec fn any_activity_set(m: Map<Seq<char>, PartialActivity>) -> bool {
    exists|k: Seq<char>| m.dom().contains(k) && any_set(#[trigger] m[k]@)
}

/// An account that sets anything at all.
pub open spec fn account_set(a: PartialAccount) -> bool {
    any_set(a.scalars@) || a.custom_status is Some || any_activity_set(a.activities@)
}

pub fn any_account_field_set(a: &PartialAccount) -> (r: bool)
    ensures
        r == account_set(*a),
{
    if any_scalar_set(&a.scalars) || a.custom_status.is_some() {
        return true;
    }
    let keys = a.activities.keys();
    let mut i: usize = 0;
    while i < keys.len()
        invariant
            i <= keys@.len(),
            keys@.len() == a.activities.keys_view().len(),
            forall|j: int| 0 <= j < keys@.len() ==> #[trigger] keys@[j]@ == a.activities.keys_view()[j],
            a.activities.laid_out(),
            forall|j: int| 0 <= j < i ==> !any_set(#[trigger] a.activities@[a.activities.keys_view()[j]]@),
        decreases keys@.len() - i,
    {
        match a.activities.get(keys[i].as_str()) {
            Some(act) => {
                if any_activity_field_set(act) {
                    assert(a.activities@.dom().contains(keys@[i as int]@));
                    return true;
                }
            },
            None => {},
        }
        i = i + 1;
    }
    assert(!any_activity_set(a.activities@)) by {
        if any_activity_set(a.activities@) {
            let k = choose|k: Seq<char>| a.activities@.dom().contains(k) && any_set(#[trigger] a.activities@[k]@);
            assert(a.activities.keys_view().contains(k));
            let j = choose|j: int| 0 <= j < a.activities.keys_view().len() && a.activities.keys_view()[j] == k;
            assert(!any_set(a.activities@[a.activities.keys_view()[j]]@));
        }
    }
    false
}

/// What an account of a layer holds, as values.
pub struct AccountV {
    pub scalars: Leaves,
    pub custom: Option<Leaves>,
    pub activities: Map<Seq<char>, Leaves>,
    pub order: Seq<Seq<char>>,
}

pub open spec fn activities_view(m: Map<Seq<char>, PartialActivity>) -> Map<Seq<char>, Leaves> {
    m.map_values(|a: PartialActivity| a@)
}

pub open spec fn account_view(a: PartialAccount) -> AccountV {
    AccountV {
        scalars: a.scalars@,
        custom: custom_view(a.custom_status),
        activities: activities_view(a.activities@),
        order: strings_view(a.activity_order@),
    }
}

/// An account with nothing set.
pub open spec fn empty_account() -> AccountV {
    AccountV {
        scalars: unset(5),
        custom: None,
        activities: Map::empty(),
        order: Seq::empty(),
    }
}

/// What a layer holds, as values.
pub struct ConfigV {
    pub log_level: Option<Seq<char>>,
    pub health_socket: Option<Seq<char>>,
    pub defaults: Seq<Leaves>,
    pub accounts: Map<Seq<char>, AccountV>,
    pub order: Seq<Seq<char>>,
}

pub open spec fn accounts_view(m: Map<Seq<char>, PartialAccount>) -> Map<Seq<char>, AccountV> {
    m.map_values(|a: PartialAccount| account_view(a))
}

pub open spec fn config_view(p: PartialConfig) -> ConfigV {
    ConfigV {
        log_level: opt_view(p.log_level),
        health_socket: opt_view(p.health_socket),
        defaults: p.defaults@,
        accounts: accounts_view(p.accounts@),
        order: strings_view(p.account_order@),
    }
}

/// A layer with nothing set.
pub open spec fn empty_config() -> ConfigV {
    ConfigV {
        log_level: None,
        health_socket: None,
        defaults: seq![unset(4), unset(4), unset(4), unset(4)],
        accounts: Map::empty(),
        order: Seq::empty(),
    }
}

} // verus!
