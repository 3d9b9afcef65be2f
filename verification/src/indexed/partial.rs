//! Indexed layers: a flat account, and accounts and activities by position.

pub use crate::config::partial::{
    any_activity_field_set, any_client_prop_set, any_custom_status_field_set, PartialActivity,
    PartialClientProperties, PartialCustomStatus, PartialDefaults,
};
use crate::config::partial::{any_set, custom_view, secret_view, unset, Leaves};
use crate::config::token::SecretString;
use crate::text::opt_view;
use vstd::prelude::*;

verus! {

/// One account of an indexed layer.
pub struct PartialAccount {
    pub name: Option<String>,
    pub token: Option<SecretString>,
    pub kind: Option<String>,
    pub device: Option<String>,
    pub status: Option<String>,
    pub custom_status: Option<PartialCustomStatus>,
    /// A singular named activity, listed before `activities`.
    pub activity: Option<PartialActivity>,
    pub activities: Vec<PartialActivity>,
}

/// The view of an optional activity.
pub open spec fn activity_view(a: Option<PartialActivity>) -> Option<Leaves> {
    match a {
        Some(x) => Some(x@),
        None => None,
    }
}

pub open spec fn acts_view(v: Seq<PartialActivity>) -> Seq<Leaves> {
    v.map_values(|a: PartialActivity| a@)
}

/// What an indexed account holds, as values.
pub struct AccountW {
    pub scalars: Leaves,
    pub custom: Option<Leaves>,
    pub activity: Option<Leaves>,
    pub activities: Seq<Leaves>,
}

impl PartialAccount {
    /// In catalog order: token, name, kind, device, status.
    pub open spec fn scalars_view(self) -> Leaves {
        seq![secret_view(self.token), opt_view(self.name), opt_view(self.kind), opt_view(self.device), opt_view(self.status)]
    }

    pub open spec fn view_w(self) -> AccountW {
        AccountW {
            scalars: self.scalars_view(),
            custom: custom_view(self.custom_status),
            activity: activity_view(self.activity),
            activities: acts_view(self.activities@),
        }
    }
}

/// An account with nothing set.
pub open spec fn empty_account_w() -> AccountW {
    AccountW { scalars: unset(5), custom: None, activity: None, activities: Seq::empty() }
}

impl Default for PartialAccount {
    fn default() -> (r: PartialAccount)
        ensures
            r.view_w() == empty_account_w(),
    {
        let r = PartialAccount {
            name: None,
            token: None,
            kind: None,
            device: None,
            status: None,
            custom_status: None,
            activity: None,
            activities: Vec::new(),
        };
        assert(r.scalars_view() =~= unset(5));
        assert(acts_view(r.activities@) =~= Seq::<Leaves>::empty());
        r
    }
}

/// One indexed layer.
pub struct PartialConfig {
    pub log_level: Option<String>,
    pub health_socket: Option<String>,
    pub defaults: PartialDefaults,
    pub accounts: Vec<PartialAccount>,
    /// Flat settings: an account listed before `accounts` when it has a
    /// token.
    pub account: PartialAccount,
}

/// What an indexed layer holds, as values.
pub struct ConfigW {
    pub log_level: Option<Seq<char>>,
    pub health_socket: Option<Seq<char>>,
    pub defaults: Seq<Leaves>,
    pub account: AccountW,
    pub accounts: Seq<AccountW>,
}

pub open spec fn accounts_w(v: Seq<PartialAccount>) -> Seq<AccountW> {
    v.map_values(|a: PartialAccount| a.view_w())
}

impl PartialConfig {
    pub open spec fn view_w(self) -> ConfigW {
        ConfigW {
            log_level: opt_view(self.log_level),
            health_socket: opt_view(self.health_socket),
            defaults: self.defaults@,
            account: self.account.view_w(),
            accounts: accounts_w(self.accounts@),
        }
    }
}

/// A layer with nothing set.
pub open spec fn empty_config_w() -> ConfigW {
    ConfigW {
        log_level: None,
        health_socket: None,
        defaults: seq![unset(4), unset(4), unset(4), unset(4)],
        account: empty_account_w(),
        accounts: Seq::empty(),
    }
}

impl Default for PartialConfig {
    fn default() -> (r: PartialConfig)
        ensures
            r.view_w() == empty_config_w(),
    {
        let r = PartialConfig {
            log_level: None,
            health_socket: None,
            defaults: PartialDefaults::default(),
            accounts: Vec::new(),
            account: PartialAccount::default(),
        };
        assert(accounts_w(r.accounts@) =~= Seq::<AccountW>::empty());
        assert(r.view_w() =~= empty_config_w());
        r
    }
}

/// An indexed account that sets anything.
pub open spec fn account_set_w(a: AccountW) -> bool {
    any_set(a.scalars) || a.custom is Some || a.activity is Some || exists|j: int|
        0 <= j < a.activities.len() && any_set(#[trigger] a.activities[j])
}

pub fn any_account_field_set(a: &PartialAccount) -> (r: bool)
    ensures
        r == account_set_w(a.view_w()),
{
    if a.name.is_some() || a.token.is_some() || a.kind.is_some() || a.device.is_some() || a.status.is_some()
        || a.custom_status.is_some() || a.activity.is_some() {
        proof {
            let s = a.scalars_view();
            if a.token.is_some() {
                assert(s[0] is Some);
            } else if a.name.is_some() {
                assert(s[1] is Some);
            } else if a.kind.is_some() {
                assert(s[2] is Some);
            } else if a.device.is_some() {
                assert(s[3] is Some);
            } else if a.status.is_some() {
                assert(s[4] is Some);
            }
        }
        return true;
    }
    assert(!any_set(a.scalars_view())) by {
        assert forall|i: int| 0 <= i < 5 implies !(a.scalars_view()[i] is Some) by {}
    }
    let mut i: usize = 0;
    while i < a.activities.len()
        invariant
            i <= a.activities@.len(),
            forall|j: int| 0 <= j < i ==> !any_set(#[trigger] acts_view(a.activities@)[j]),
        decreases a.activities@.len() - i,
    {
        if any_activity_field_set(&a.activities[i]) {
            assert(any_set(acts_view(a.activities@)[i as int]));
            assert(a.view_w().activities == acts_view(a.activities@));
            return true;
        }
        i = i + 1;
    }
    false
}

} // verus!
