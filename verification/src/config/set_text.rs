//! The `--set` text of every leaf path, and that parsing it gives the path
//! back.

use crate::config::cli::{
    activity_by_suffix, all_activities, all_customs, all_prop_fields, all_profile_names, all_scalars, custom_by_suffix,
    join_dots, prop_by_suffix, profile_by_toml, relative_path, relative_segs, scalar_by_suffix, scalar_token, set_path,
    split_dots,
};
use crate::config::fields::{AccountScalarField, ActivityField, ClientPropField, CustomStatusField, DefaultsProfile};
use crate::config::id::{flat_id, singular_id, user_id_error};
use crate::config::path::{AccountPathV, PathV};
use crate::text::{first_index, is_first_index};
use vstd::prelude::*;
use vstd::string::*;

verus! {

/// A text without a dot is one piece.
proof fn lemma_split_no_dot(s: Seq<char>)
    requires
        forall|i: int| 0 <= i < s.len() ==> s[i] != '.',
    ensures
        split_dots(s) == seq![s],
{
    assert(!exists|i: int| is_first_index(s, '.', i));
}

/// A piece without a dot, a dot and the rest split into the piece and the
/// pieces of the rest.
proof fn lemma_split_dot(a: Seq<char>, b: Seq<char>)
    requires
        forall|i: int| 0 <= i < a.len() ==> a[i] != '.',
    ensures
        split_dots(a + "."@ + b) == seq![a] + split_dots(b),
{
    reveal_strlit(".");
    let s = a + "."@ + b;
    let n = a.len() as int;
    assert(s[n] == '.');
    assert(is_first_index(s, '.', n));
    let c = choose|i: int| is_first_index(s, '.', i);
    assert(is_first_index(s, '.', c));
    if c < n {
        assert(s[c] == a[c]);
    }
    if c > n {
        assert(s[n] != '.');
    }
    assert(first_index(s, '.') == Some(n));
    assert(s.subrange(0, n) =~= a);
    assert(s.subrange(n + 1, s.len() as int) =~= b);
}

#[verifier::rlimit(40)]
proof fn lemma_activity_suffixes_differ()
    ensures
        forall|a: int, b: int| 0 <= a < b < 18 ==> all_activities()[a].names().set_suffix != all_activities()[b].names().set_suffix,
        all_activities()[0].names().set_suffix == "name"@,
        all_activities()[1].names().set_suffix == "type"@,
        all_activities()[2].names().set_suffix == "platform"@,
        all_activities()[3].names().set_suffix == "timestamp"@,
        all_activities()[4].names().set_suffix == "application_id"@,
        all_activities()[5].names().set_suffix == "details"@,
        all_activities()[6].names().set_suffix == "url"@,
        all_activities()[7].names().set_suffix == "large_image"@,
        all_activities()[8].names().set_suffix == "large_image_text"@,
        all_activities()[9].names().set_suffix == "small_image"@,
        all_activities()[10].names().set_suffix == "small_image_text"@,
        all_activities()[11].names().set_suffix == "button"@,
        all_activities()[12].names().set_suffix == "button_url"@,
        all_activities()[13].names().set_suffix == "button2"@,
        all_activities()[14].names().set_suffix == "button2_url"@,
        all_activities()[15].names().set_suffix == "party_id"@,
        all_activities()[16].names().set_suffix == "party_current"@,
        all_activities()[17].names().set_suffix == "party_max"@,
{
    reveal_strlit("name");
    reveal_strlit("type");
    reveal_strlit("platform");
    reveal_strlit("timestamp");
    reveal_strlit("application_id");
    reveal_strlit("details");
    reveal_strlit("url");
    reveal_strlit("large_image");
    reveal_strlit("large_image_text");
    reveal_strlit("small_image");
    reveal_strlit("small_image_text");
    reveal_strlit("button");
    reveal_strlit("button_url");
    reveal_strlit("button2");
    reveal_strlit("button2_url");
    reveal_strlit("party_id");
    reveal_strlit("party_current");
    reveal_strlit("party_max");
    assert("name"@.len() == 4 && "name"@[0] == 'n' && "name"@[1] == 'a');
    assert("type"@.len() == 4 && "type"@[0] == 't' && "type"@[1] == 'y');
    assert("platform"@.len() == 8 && "platform"@[0] == 'p' && "platform"@[1] == 'l');
    assert("timestamp"@.len() == 9 && "timestamp"@[0] == 't' && "timestamp"@[1] == 'i');
    assert("application_id"@.len() == 14 && "application_id"@[0] == 'a' && "application_id"@[1] == 'p');
    assert("details"@.len() == 7 && "details"@[0] == 'd' && "details"@[1] == 'e');
    assert("url"@.len() == 3 && "url"@[0] == 'u' && "url"@[1] == 'r');
    assert("large_image"@.len() == 11 && "large_image"@[0] == 'l' && "large_image"@[1] == 'a');
    assert("large_image_text"@.len() == 16 && "large_image_text"@[0] == 'l' && "large_image_text"@[1] == 'a');
    assert("small_image"@.len() == 11 && "small_image"@[0] == 's' && "small_image"@[1] == 'm');
    assert("small_image_text"@.len() == 16 && "small_image_text"@[0] == 's' && "small_image_text"@[1] == 'm');
    assert("button"@.len() == 6 && "button"@[0] == 'b' && "button"@[1] == 'u');
    assert("button_url"@.len() == 10 && "button_url"@[0] == 'b' && "button_url"@[1] == 'u');
    assert("button2"@.len() == 7 && "button2"@[0] == 'b' && "button2"@[1] == 'u');
    assert("button2_url"@.len() == 11 && "button2_url"@[0] == 'b' && "button2_url"@[1] == 'u');
    assert("party_id"@.len() == 8 && "party_id"@[0] == 'p' && "party_id"@[1] == 'a');
    assert("party_current"@.len() == 13 && "party_current"@[0] == 'p' && "party_current"@[1] == 'a');
    assert("party_max"@.len() == 9 && "party_max"@[0] == 'p' && "party_max"@[1] == 'a');
    let t = all_activities();
    assert(t[0] == ActivityField::Name);
    assert(t[1] == ActivityField::Type);
    assert(t[2] == ActivityField::Platform);
    assert(t[3] == ActivityField::Timestamp);
    assert(t[4] == ActivityField::ApplicationId);
    assert(t[5] == ActivityField::Details);
    assert(t[6] == ActivityField::Url);
    assert(t[7] == ActivityField::LargeImage);
    assert(t[8] == ActivityField::LargeImageText);
    assert(t[9] == ActivityField::SmallImage);
    assert(t[10] == ActivityField::SmallImageText);
    assert(t[11] == ActivityField::Button);
    assert(t[12] == ActivityField::ButtonUrl);
    assert(t[13] == ActivityField::Button2);
    assert(t[14] == ActivityField::Button2Url);
    assert(t[15] == ActivityField::PartyId);
    assert(t[16] == ActivityField::PartyCurrent);
    assert(t[17] == ActivityField::PartyMax);
    assert forall|a: int, b: int| 0 <= a < b < 18 implies t[a].names().set_suffix != t[b].names().set_suffix by {
        if t[a].names().set_suffix.len() == t[b].names().set_suffix.len() {
            assert(t[a].names().set_suffix[0] != t[b].names().set_suffix[0] || t[a].names().set_suffix[1] != t[b].names().set_suffix[1]);
        }
    }
}

proof fn lemma_activity_scan_at(raw: Seq<char>, fs: Seq<ActivityField>, k: int)
    requires
        0 <= k < fs.len(),
        raw == fs[k].names().set_suffix,
        forall|j: int| 0 <= j < k ==> raw != #[trigger] fs[j].names().set_suffix,
    ensures
        activity_by_suffix(raw, fs) == Some(fs[k]),
    decreases k,
{
    if k > 0 {
        let u = fs.drop_first();
        assert forall|j: int| 0 <= j < k - 1 implies raw != #[trigger] u[j].names().set_suffix by {
            assert(u[j] == fs[j + 1]);
        }
        lemma_activity_scan_at(raw, u, k - 1);
    }
}

proof fn lemma_scalar_suffixes_differ()
    ensures
        forall|a: int, b: int| 0 <= a < b < 5 ==> all_scalars()[a].names().set_suffix != all_scalars()[b].names().set_suffix,
        all_scalars()[0].names().set_suffix == "token"@,
        all_scalars()[1].names().set_suffix == "name"@,
        all_scalars()[2].names().set_suffix == "kind"@,
        all_scalars()[3].names().set_suffix == "device"@,
        all_scalars()[4].names().set_suffix == "status"@,
{
    reveal_strlit("token");
    reveal_strlit("name");
    reveal_strlit("kind");
    reveal_strlit("device");
    reveal_strlit("status");
    assert("token"@.len() == 5 && "token"@[0] == 't' && "token"@[1] == 'o');
    assert("name"@.len() == 4 && "name"@[0] == 'n' && "name"@[1] == 'a');
    assert("kind"@.len() == 4 && "kind"@[0] == 'k' && "kind"@[1] == 'i');
    assert("device"@.len() == 6 && "device"@[0] == 'd' && "device"@[1] == 'e');
    assert("status"@.len() == 6 && "status"@[0] == 's' && "status"@[1] == 't');
    let t = all_scalars();
    assert(t[0] == AccountScalarField::Token);
    assert(t[1] == AccountScalarField::Name);
    assert(t[2] == AccountScalarField::Kind);
    assert(t[3] == AccountScalarField::Device);
    assert(t[4] == AccountScalarField::Status);
    assert forall|a: int, b: int| 0 <= a < b < 5 implies t[a].names().set_suffix != t[b].names().set_suffix by {
        if t[a].names().set_suffix.len() == t[b].names().set_suffix.len() {
            assert(t[a].names().set_suffix[0] != t[b].names().set_suffix[0] || t[a].names().set_suffix[1] != t[b].names().set_suffix[1]);
        }
    }
}

proof fn lemma_scalar_scan_at(raw: Seq<char>, fs: Seq<AccountScalarField>, k: int)
    requires
        0 <= k < fs.len(),
        raw == fs[k].names().set_suffix,
        forall|j: int| 0 <= j < k ==> raw != #[trigger] fs[j].names().set_suffix,
    ensures
        scalar_by_suffix(raw, fs) == Some(fs[k]),
    decreases k,
{
    if k > 0 {
        let u = fs.drop_first();
        assert forall|j: int| 0 <= j < k - 1 implies raw != #[trigger] u[j].names().set_suffix by {
            assert(u[j] == fs[j + 1]);
        }
        lemma_scalar_scan_at(raw, u, k - 1);
    }
}

proof fn lemma_custom_suffixes_differ()
    ensures
        forall|a: int, b: int| 0 <= a < b < 2 ==> all_customs()[a].names().set_suffix != all_customs()[b].names().set_suffix,
        all_customs()[0].names().set_suffix == "text"@,
        all_customs()[1].names().set_suffix == "emoji"@,
{
    reveal_strlit("text");
    reveal_strlit("emoji");
    assert("text"@.len() == 4 && "text"@[0] == 't' && "text"@[1] == 'e');
    assert("emoji"@.len() == 5 && "emoji"@[0] == 'e' && "emoji"@[1] == 'm');
    let t = all_customs();
    assert(t[0] == CustomStatusField::Text);
    assert(t[1] == CustomStatusField::Emoji);
    assert forall|a: int, b: int| 0 <= a < b < 2 implies t[a].names().set_suffix != t[b].names().set_suffix by {
        if t[a].names().set_suffix.len() == t[b].names().set_suffix.len() {
            assert(t[a].names().set_suffix[0] != t[b].names().set_suffix[0] || t[a].names().set_suffix[1] != t[b].names().set_suffix[1]);
        }
    }
}

proof fn lemma_custom_scan_at(raw: Seq<char>, fs: Seq<CustomStatusField>, k: int)
    requires
        0 <= k < fs.len(),
        raw == fs[k].names().set_suffix,
        forall|j: int| 0 <= j < k ==> raw != #[trigger] fs[j].names().set_suffix,
    ensures
        custom_by_suffix(raw, fs) == Some(fs[k]),
    decreases k,
{
    if k > 0 {
        let u = fs.drop_first();
        assert forall|j: int| 0 <= j < k - 1 implies raw != #[trigger] u[j].names().set_suffix by {
            assert(u[j] == fs[j + 1]);
        }
        lemma_custom_scan_at(raw, u, k - 1);
    }
}

proof fn lemma_prop_suffixes_differ()
    ensures
        forall|a: int, b: int| 0 <= a < b < 4 ==> all_prop_fields()[a].names().set_suffix != all_prop_fields()[b].names().set_suffix,
        all_prop_fields()[0].names().set_suffix == "os"@,
        all_prop_fields()[1].names().set_suffix == "browser"@,
        all_prop_fields()[2].names().set_suffix == "device"@,
        all_prop_fields()[3].names().set_suffix == "user_agent"@,
{
    reveal_strlit("os");
    reveal_strlit("browser");
    reveal_strlit("device");
    reveal_strlit("user_agent");
    assert("os"@.len() == 2 && "os"@[0] == 'o' && "os"@[1] == 's');
    assert("browser"@.len() == 7 && "browser"@[0] == 'b' && "browser"@[1] == 'r');
    assert("device"@.len() == 6 && "device"@[0] == 'd' && "device"@[1] == 'e');
    assert("user_agent"@.len() == 10 && "user_agent"@[0] == 'u' && "user_agent"@[1] == 's');
    let t = all_prop_fields();
    assert(t[0] == ClientPropField::Os);
    assert(t[1] == ClientPropField::Browser);
    assert(t[2] == ClientPropField::Device);
    assert(t[3] == ClientPropField::UserAgent);
    assert forall|a: int, b: int| 0 <= a < b < 4 implies t[a].names().set_suffix != t[b].names().set_suffix by {
        if t[a].names().set_suffix.len() == t[b].names().set_suffix.len() {
            assert(t[a].names().set_suffix[0] != t[b].names().set_suffix[0] || t[a].names().set_suffix[1] != t[b].names().set_suffix[1]);
        }
    }
}

proof fn lemma_prop_scan_at(raw: Seq<char>, fs: Seq<ClientPropField>, k: int)
    requires
        0 <= k < fs.len(),
        raw == fs[k].names().set_suffix,
        forall|j: int| 0 <= j < k ==> raw != #[trigger] fs[j].names().set_suffix,
    ensures
        prop_by_suffix(raw, fs) == Some(fs[k]),
    decreases k,
{
    if k > 0 {
        let u = fs.drop_first();
        assert forall|j: int| 0 <= j < k - 1 implies raw != #[trigger] u[j].names().set_suffix by {
            assert(u[j] == fs[j + 1]);
        }
        lemma_prop_scan_at(raw, u, k - 1);
    }
}

proof fn lemma_profile_suffixes_differ()
    ensures
        forall|a: int, b: int| 0 <= a < b < 4 ==> all_profile_names()[a].toml_spec() != all_profile_names()[b].toml_spec(),
        all_profile_names()[0].toml_spec() == "bot"@,
        all_profile_names()[1].toml_spec() == "web"@,
        all_profile_names()[2].toml_spec() == "desktop"@,
        all_profile_names()[3].toml_spec() == "mobile"@,
{
    reveal_strlit("bot");
    reveal_strlit("web");
    reveal_strlit("desktop");
    reveal_strlit("mobile");
    assert("bot"@.len() == 3 && "bot"@[0] == 'b' && "bot"@[1] == 'o');
    assert("web"@.len() == 3 && "web"@[0] == 'w' && "web"@[1] == 'e');
    assert("desktop"@.len() == 7 && "desktop"@[0] == 'd' && "desktop"@[1] == 'e');
    assert("mobile"@.len() == 6 && "mobile"@[0] == 'm' && "mobile"@[1] == 'o');
    let t = all_profile_names();
    assert(t[0] == DefaultsProfile::Bot);
    assert(t[1] == DefaultsProfile::Web);
    assert(t[2] == DefaultsProfile::Desktop);
    assert(t[3] == DefaultsProfile::Mobile);
    assert forall|a: int, b: int| 0 <= a < b < 4 implies t[a].toml_spec() != t[b].toml_spec() by {
        if t[a].toml_spec().len() == t[b].toml_spec().len() {
            assert(t[a].toml_spec()[0] != t[b].toml_spec()[0] || t[a].toml_spec()[1] != t[b].toml_spec()[1]);
        }
    }
}

proof fn lemma_profile_scan_at(raw: Seq<char>, fs: Seq<DefaultsProfile>, k: int)
    requires
        0 <= k < fs.len(),
        raw == fs[k].toml_spec(),
        forall|j: int| 0 <= j < k ==> raw != #[trigger] fs[j].toml_spec(),
    ensures
        profile_by_toml(raw, fs) == Some(fs[k]),
    decreases k,
{
    if k > 0 {
        let u = fs.drop_first();
        assert forall|j: int| 0 <= j < k - 1 implies raw != #[trigger] u[j].toml_spec() by {
            assert(u[j] == fs[j + 1]);
        }
        lemma_profile_scan_at(raw, u, k - 1);
    }
}

/// Every activity is found by its own `--set` segment, which holds no dot.
proof fn lemma_activity_lookup(f: ActivityField)
    ensures
        activity_by_suffix(f.names().set_suffix, all_activities()) == Some(f),
        forall|i: int| 0 <= i < f.names().set_suffix.len() ==> f.names().set_suffix[i] != '.',
{
    lemma_activity_suffixes_differ();
    let t = all_activities();
    match f {
        ActivityField::Name => {
            reveal_strlit("name");
            assert(t[0] == f);
            lemma_activity_scan_at(f.names().set_suffix, t, 0);
        },
        ActivityField::Type => {
            reveal_strlit("type");
            assert(t[1] == f);
            lemma_activity_scan_at(f.names().set_suffix, t, 1);
        },
        ActivityField::Platform => {
            reveal_strlit("platform");
            assert(t[2] == f);
            lemma_activity_scan_at(f.names().set_suffix, t, 2);
        },
        ActivityField::Timestamp => {
            reveal_strlit("timestamp");
            assert(t[3] == f);
            lemma_activity_scan_at(f.names().set_suffix, t, 3);
        },
        ActivityField::ApplicationId => {
            reveal_strlit("application_id");
            assert(t[4] == f);
            lemma_activity_scan_at(f.names().set_suffix, t, 4);
        },
        ActivityField::Details => {
            reveal_strlit("details");
            assert(t[5] == f);
            lemma_activity_scan_at(f.names().set_suffix, t, 5);
        },
        ActivityField::Url => {
            reveal_strlit("url");
            assert(t[6] == f);
            lemma_activity_scan_at(f.names().set_suffix, t, 6);
        },
        ActivityField::LargeImage => {
            reveal_strlit("large_image");
            assert(t[7] == f);
            lemma_activity_scan_at(f.names().set_suffix, t, 7);
        },
        ActivityField::LargeImageText => {
            reveal_strlit("large_image_text");
            assert(t[8] == f);
            lemma_activity_scan_at(f.names().set_suffix, t, 8);
        },
        ActivityField::SmallImage => {
            reveal_strlit("small_image");
            assert(t[9] == f);
            lemma_activity_scan_at(f.names().set_suffix, t, 9);
        },
        ActivityField::SmallImageText => {
            reveal_strlit("small_image_text");
            assert(t[10] == f);
            lemma_activity_scan_at(f.names().set_suffix, t, 10);
        },
        ActivityField::Button => {
            reveal_strlit("button");
            assert(t[11] == f);
            lemma_activity_scan_at(f.names().set_suffix, t, 11);
        },
        ActivityField::ButtonUrl => {
            reveal_strlit("button_url");
            assert(t[12] == f);
            lemma_activity_scan_at(f.names().set_suffix, t, 12);
        },
        ActivityField::Button2 => {
            reveal_strlit("button2");
            assert(t[13] == f);
            lemma_activity_scan_at(f.names().set_suffix, t, 13);
        },
        ActivityField::Button2Url => {
            reveal_strlit("button2_url");
            assert(t[14] == f);
            lemma_activity_scan_at(f.names().set_suffix, t, 14);
        },
        ActivityField::PartyId => {
            reveal_strlit("party_id");
            assert(t[15] == f);
            lemma_activity_scan_at(f.names().set_suffix, t, 15);
        },
        ActivityField::PartyCurrent => {
            reveal_strlit("party_current");
            assert(t[16] == f);
            lemma_activity_scan_at(f.names().set_suffix, t, 16);
        },
        ActivityField::PartyMax => {
            reveal_strlit("party_max");
            assert(t[17] == f);
            lemma_activity_scan_at(f.names().set_suffix, t, 17);
        },
    }
}

/// Every scalar is found by its own `--set` segment, which holds no dot.
proof fn lemma_scalar_lookup(f: AccountScalarField)
    ensures
        scalar_by_suffix(f.names().set_suffix, all_scalars()) == Some(f),
        forall|i: int| 0 <= i < f.names().set_suffix.len() ==> f.names().set_suffix[i] != '.',
{
    lemma_scalar_suffixes_differ();
    let t = all_scalars();
    match f {
        AccountScalarField::Token => {
            reveal_strlit("token");
            assert(t[0] == f);
            lemma_scalar_scan_at(f.names().set_suffix, t, 0);
        },
        AccountScalarField::Name => {
            reveal_strlit("name");
            assert(t[1] == f);
            lemma_scalar_scan_at(f.names().set_suffix, t, 1);
        },
        AccountScalarField::Kind => {
            reveal_strlit("kind");
            assert(t[2] == f);
            lemma_scalar_scan_at(f.names().set_suffix, t, 2);
        },
        AccountScalarField::Device => {
            reveal_strlit("device");
            assert(t[3] == f);
            lemma_scalar_scan_at(f.names().set_suffix, t, 3);
        },
        AccountScalarField::Status => {
            reveal_strlit("status");
            assert(t[4] == f);
            lemma_scalar_scan_at(f.names().set_suffix, t, 4);
        },
    }
}

/// Every custom is found by its own `--set` segment, which holds no dot.
proof fn lemma_custom_lookup(f: CustomStatusField)
    ensures
        custom_by_suffix(f.names().set_suffix, all_customs()) == Some(f),
        forall|i: int| 0 <= i < f.names().set_suffix.len() ==> f.names().set_suffix[i] != '.',
{
    lemma_custom_suffixes_differ();
    let t = all_customs();
    match f {
        CustomStatusField::Text => {
            reveal_strlit("text");
            assert(t[0] == f);
            lemma_custom_scan_at(f.names().set_suffix, t, 0);
        },
        CustomStatusField::Emoji => {
            reveal_strlit("emoji");
            assert(t[1] == f);
            lemma_custom_scan_at(f.names().set_suffix, t, 1);
        },
    }
}

/// Every prop is found by its own `--set` segment, which holds no dot.
proof fn lemma_prop_lookup(f: ClientPropField)
    ensures
        prop_by_suffix(f.names().set_suffix, all_prop_fields()) == Some(f),
        forall|i: int| 0 <= i < f.names().set_suffix.len() ==> f.names().set_suffix[i] != '.',
{
    lemma_prop_suffixes_differ();
    let t = all_prop_fields();
    match f {
        ClientPropField::Os => {
            reveal_strlit("os");
            assert(t[0] == f);
            lemma_prop_scan_at(f.names().set_suffix, t, 0);
        },
        ClientPropField::Browser => {
            reveal_strlit("browser");
            assert(t[1] == f);
            lemma_prop_scan_at(f.names().set_suffix, t, 1);
        },
        ClientPropField::Device => {
            reveal_strlit("device");
            assert(t[2] == f);
            lemma_prop_scan_at(f.names().set_suffix, t, 2);
        },
        ClientPropField::UserAgent => {
            reveal_strlit("user_agent");
            assert(t[3] == f);
            lemma_prop_scan_at(f.names().set_suffix, t, 3);
        },
    }
}

/// Every profile is found by its own `--set` segment, which holds no dot.
proof fn lemma_profile_lookup(f: DefaultsProfile)
    ensures
        profile_by_toml(f.toml_spec(), all_profile_names()) == Some(f),
        forall|i: int| 0 <= i < f.toml_spec().len() ==> f.toml_spec()[i] != '.',
{
    lemma_profile_suffixes_differ();
    let t = all_profile_names();
    match f {
        DefaultsProfile::Bot => {
            reveal_strlit("bot");
            assert(t[0] == f);
            lemma_profile_scan_at(f.toml_spec(), t, 0);
        },
        DefaultsProfile::Web => {
            reveal_strlit("web");
            assert(t[1] == f);
            lemma_profile_scan_at(f.toml_spec(), t, 1);
        },
        DefaultsProfile::Desktop => {
            reveal_strlit("desktop");
            assert(t[2] == f);
            lemma_profile_scan_at(f.toml_spec(), t, 2);
        },
        DefaultsProfile::Mobile => {
            reveal_strlit("mobile");
            assert(t[3] == f);
            lemma_profile_scan_at(f.toml_spec(), t, 3);
        },
    }
}

/// No account-scalar segment is `account`, `log_level` or `health_socket`.
proof fn lemma_scalar_segment_plain(f: AccountScalarField)
    ensures
        f.names().set_suffix != "account"@,
        f.names().set_suffix != "log_level"@,
        f.names().set_suffix != "health_socket"@,
{
    reveal_strlit("account");
    reveal_strlit("log_level");
    reveal_strlit("health_socket");
    reveal_strlit("token");
    reveal_strlit("name");
    reveal_strlit("kind");
    reveal_strlit("device");
    reveal_strlit("status");
    assert("account"@.len() == 7 && "log_level"@.len() == 9 && "health_socket"@.len() == 13);
    match f {
        AccountScalarField::Device => {
            assert("device"@[0] != "account"@[0]);
        },
        _ => {},
    }
}

/// The `--set` segments of an account leaf.
pub open spec fn relative_pieces(ap: AccountPathV) -> Seq<Seq<char>> {
    match ap {
        AccountPathV::Scalar(f) => seq![f.names().set_suffix],
        AccountPathV::CustomStatus(f) => seq!["custom_status"@, f.names().set_suffix],
        AccountPathV::Activity(aid, f) => if aid == singular_id() {
            seq!["activity"@, f.names().set_suffix]
        } else {
            seq!["activities"@, aid, f.names().set_suffix]
        },
    }
}

/// The `--set` path of an account leaf, relative to its account.
pub open spec fn relative_text(ap: AccountPathV) -> Seq<char> {
    join_dots(relative_pieces(ap))
}

/// The `--set` path of a leaf: the flat account's leaves without the
/// `accounts.<id>.` prefix, the singular activity as `activity.<field>`.
pub open spec fn set_text(p: PathV) -> Seq<char> {
    match p {
        PathV::LogLevel => "log_level"@,
        PathV::HealthSocket => "health_socket"@,
        PathV::Defaults(pr, f) => join_dots(seq!["defaults"@, pr.toml_spec(), f.names().set_suffix]),
        PathV::Account(id, ap) => if id == flat_id() {
            relative_text(ap)
        } else {
            join_dots(seq!["accounts"@, id] + relative_pieces(ap))
        },
    }
}

/// The ids of a leaf path are ones a `--set` path can name: the flat
/// account or a user id, the singular activity or a user id.
pub open spec fn set_ids_ok(p: PathV) -> bool {
    match p {
        PathV::Account(id, ap) => (id == flat_id() || user_id_error(id) is None) && match ap {
            AccountPathV::Activity(aid, _) => aid == singular_id() || user_id_error(aid) is None,
            _ => true,
        },
        _ => true,
    }
}

/// Pieces without dots, joined by dots, split back into those pieces.
proof fn lemma_split_join(segs: Seq<Seq<char>>)
    requires
        segs.len() > 0,
        forall|k: int, i: int| 0 <= k < segs.len() && 0 <= i < segs[k].len() ==> #[trigger] segs[k][i] != '.',
    ensures
        split_dots(join_dots(segs)) == segs,
    decreases segs.len(),
{
    if segs.len() == 1 {
        assert forall|i: int| 0 <= i < segs[0].len() implies segs[0][i] != '.' by {
            assert(segs[0][i] != '.');
        }
        lemma_split_no_dot(segs[0]);
    } else {
        let rest = segs.drop_first();
        assert forall|k: int, i: int| 0 <= k < rest.len() && 0 <= i < rest[k].len() implies #[trigger] rest[k][i] != '.' by {
            assert(rest[k] == segs[k + 1]);
        }
        lemma_split_join(rest);
        lemma_join_first(segs);
        assert forall|i: int| 0 <= i < segs[0].len() implies segs[0][i] != '.' by {
            assert(segs[0][i] != '.');
        }
        lemma_split_dot(segs[0], join_dots(rest));
        assert(seq![segs[0]] + rest =~= segs);
    }
}

/// Joining splits off the first piece.
proof fn lemma_join_first(segs: Seq<Seq<char>>)
    requires
        segs.len() >= 2,
    ensures
        join_dots(segs) == segs[0] + "."@ + join_dots(segs.drop_first()),
    decreases segs.len(),
{
    if segs.len() > 2 {
        let init = segs.drop_last();
        lemma_join_first(init);
        let tail = segs.drop_first();
        assert(init.drop_first() =~= tail.drop_last());
        assert(tail.last() == segs.last());
        assert(init.last() == segs[segs.len() - 2]);
        assert(join_dots(segs) == join_dots(init) + "."@ + segs.last());
        assert(join_dots(tail) == join_dots(tail.drop_last()) + "."@ + tail.last());
        assert(join_dots(segs) =~= segs[0] + "."@ + join_dots(tail));
    } else {
        assert(segs.drop_last() =~= seq![segs[0]]);
        assert(segs.drop_first() =~= seq![segs[1]]);
        assert(join_dots(segs.drop_last()) == segs[0]);
        assert(join_dots(segs.drop_first()) == segs[1]);
        assert(join_dots(segs) == join_dots(segs.drop_last()) + "."@ + segs.last());
    }
}

/// A user id holds no dot.
proof fn lemma_user_id_no_dot(id: Seq<char>)
    requires
        user_id_error(id) is None,
    ensures
        forall|i: int| 0 <= i < id.len() ==> #[trigger] id[i] != '.',
{
    reveal_strlit("__flat__");
    reveal_strlit("__singular__");
    assert forall|i: int| 0 <= i < id.len() implies #[trigger] id[i] != '.' by {
        if i > 0 {
            assert(crate::text::is_ascii_alnum(id[i]) || id[i] == '-');
        }
    }
}

proof fn lemma_word_no_dot(w: Seq<char>)
    requires
        w == "custom_status"@ || w == "activity"@ || w == "activities"@ || w == "defaults"@ || w == "accounts"@,
    ensures
        forall|i: int| 0 <= i < w.len() ==> #[trigger] w[i] != '.',
{
    reveal_strlit("custom_status");
    reveal_strlit("activity");
    reveal_strlit("activities");
    reveal_strlit("defaults");
    reveal_strlit("accounts");
}

/// The segments of an account leaf hold no dot and read back as that leaf.
#[verifier::rlimit(40)]
proof fn lemma_relative_pieces(ap: AccountPathV)
    requires
        match ap {
            AccountPathV::Activity(aid, _) => aid == singular_id() || user_id_error(aid) is None,
            _ => true,
        },
    ensures
        relative_pieces(ap).len() >= 1,
        forall|k: int, i: int| 0 <= k < relative_pieces(ap).len() && 0 <= i < relative_pieces(ap)[k].len()
            ==> #[trigger] relative_pieces(ap)[k][i] != '.',
        relative_segs(relative_pieces(ap)) == Some(Ok::<AccountPathV, crate::config::cli::ErrV>(ap)),
        relative_pieces(ap)[0] != "defaults"@,
        relative_pieces(ap)[0] != "accounts"@,
        relative_pieces(ap).len() == 1 ==> relative_pieces(ap)[0] != "log_level"@ && relative_pieces(ap)[0] != "health_socket"@,
{
    reveal_strlit("custom_status");
    reveal_strlit("activity");
    reveal_strlit("activities");
    reveal_strlit("defaults");
    reveal_strlit("accounts");
    let segs = relative_pieces(ap);
    match ap {
        AccountPathV::Scalar(f) => {
            lemma_scalar_lookup(f);
            lemma_scalar_segment_plain(f);
            reveal_strlit("token");
            reveal_strlit("name");
            reveal_strlit("kind");
            reveal_strlit("device");
            reveal_strlit("status");
            assert("defaults"@.len() == 8 && "accounts"@.len() == 8);
            match f {
                AccountScalarField::Token => assert(segs[0] == "token"@ && "token"@.len() == 5),
                AccountScalarField::Name => assert(segs[0] == "name"@ && "name"@.len() == 4),
                AccountScalarField::Kind => assert(segs[0] == "kind"@ && "kind"@.len() == 4),
                AccountScalarField::Device => assert(segs[0] == "device"@ && "device"@.len() == 6),
                AccountScalarField::Status => assert(segs[0] == "status"@ && "status"@.len() == 6),
            }
            assert(segs[0].len() != 8);
            assert(segs[0] != "defaults"@ && segs[0] != "accounts"@);
        },
        AccountPathV::CustomStatus(f) => {
            lemma_custom_lookup(f);
            lemma_word_no_dot("custom_status"@);
            assert("custom_status"@.len() == 13 && "defaults"@.len() == 8 && "accounts"@.len() == 8);
            assert(segs[0] != "defaults"@ && segs[0] != "accounts"@);
        },
        AccountPathV::Activity(aid, f) => {
            lemma_activity_lookup(f);
            if aid == singular_id() {
                lemma_word_no_dot("activity"@);
                assert(segs[0] != "custom_status"@);
                assert("activity"@[0] != "defaults"@[0] && "activity"@[2] != "accounts"@[2]);
                assert(segs[0] != "defaults"@ && segs[0] != "accounts"@);
            } else {
                lemma_word_no_dot("activities"@);
                lemma_user_id_no_dot(aid);
                assert(segs[0] != "custom_status"@ && segs[0] != "activity"@);
                assert(crate::config::path::id_ok(aid, singular_id()));
                assert("activities"@.len() == 10 && "defaults"@.len() == 8 && "accounts"@.len() == 8);
                assert(segs[0] != "defaults"@ && segs[0] != "accounts"@);
            }
        },
    }
}

proof fn lemma_flat_set_text(ap: AccountPathV)
    requires
        set_ids_ok(PathV::Account(flat_id(), ap)),
    ensures
        set_path(relative_text(ap)) == Ok::<PathV, crate::config::cli::ErrV>(PathV::Account(flat_id(), ap)),
{
    reveal_strlit("log_level");
    reveal_strlit("health_socket");
    lemma_relative_pieces(ap);
    lemma_split_join(relative_pieces(ap));
}

/// Every account leaf, written as its account-relative path (the form
/// `--account-set <id>.<path>=<value>` takes), parses back to itself.
pub proof fn lemma_relative_text_parses(ap: AccountPathV)
    requires
        set_ids_ok(PathV::Account(flat_id(), ap)),
    ensures
        relative_path(relative_text(ap)) == Ok::<AccountPathV, crate::config::cli::ErrV>(ap),
{
    lemma_relative_pieces(ap);
    lemma_split_join(relative_pieces(ap));
}

#[verifier::rlimit(40)]
proof fn lemma_keyed_split(id: Seq<char>, ap: AccountPathV)
    requires
        user_id_error(id) is None,
        set_ids_ok(PathV::Account(flat_id(), ap)),
    ensures
        split_dots(join_dots(seq!["accounts"@, id] + relative_pieces(ap))) == seq!["accounts"@, id] + relative_pieces(ap),
        (seq!["accounts"@, id] + relative_pieces(ap)).skip(2) == relative_pieces(ap),
{
    lemma_relative_pieces(ap);
    let pieces = relative_pieces(ap);
    let segs = seq!["accounts"@, id] + pieces;
    lemma_user_id_no_dot(id);
    lemma_word_no_dot("accounts"@);
    assert forall|k: int, i: int| 0 <= k < segs.len() && 0 <= i < segs[k].len() implies #[trigger] segs[k][i] != '.' by {
        if k >= 2 {
            assert(segs[k] == pieces[k - 2]);
        }
    }
    lemma_split_join(segs);
    assert(segs.skip(2) =~= pieces);
}

#[verifier::rlimit(40)]
proof fn lemma_keyed_set_text(id: Seq<char>, ap: AccountPathV)
    requires
        id != flat_id(),
        set_ids_ok(PathV::Account(id, ap)),
    ensures
        set_path(join_dots(seq!["accounts"@, id] + relative_pieces(ap))) == Ok::<PathV, crate::config::cli::ErrV>(
            PathV::Account(id, ap),
        ),
{
    reveal_strlit("log_level");
    reveal_strlit("defaults");
    reveal_strlit("accounts");
    lemma_keyed_split(id, ap);
    lemma_relative_text_parses(ap);
    let segs = seq!["accounts"@, id] + relative_pieces(ap);
    lemma_relative_pieces(ap);
    assert(segs.len() >= 3);
    assert(segs[0] == "accounts"@ && segs[1] == id);
    assert("accounts"@[0] != "defaults"@[0] && "accounts"@[0] != "log_level"@[0]);
    assert(crate::config::path::id_ok(id, flat_id()));
}

#[verifier::rlimit(40)]
proof fn lemma_defaults_set_text(pr: DefaultsProfile, f: ClientPropField)
    ensures
        set_path(set_text(PathV::Defaults(pr, f))) == Ok::<PathV, crate::config::cli::ErrV>(PathV::Defaults(pr, f)),
{
    reveal_strlit("defaults");
    let segs = seq!["defaults"@, pr.toml_spec(), f.names().set_suffix];
    lemma_profile_lookup(pr);
    lemma_prop_lookup(f);
    lemma_word_no_dot("defaults"@);
    assert(segs.len() == 3);
    lemma_split_join(segs);
}

proof fn lemma_log_level_set_text()
    ensures
        set_path(set_text(PathV::LogLevel)) == Ok::<PathV, crate::config::cli::ErrV>(PathV::LogLevel),
{
    reveal_strlit("log_level");
    lemma_split_no_dot("log_level"@);
    let segs = split_dots("log_level"@);
    assert(segs == seq!["log_level"@]);
    assert(segs.len() == 1 && segs[0] == "log_level"@);
}

proof fn lemma_health_socket_set_text()
    ensures
        set_path(set_text(PathV::HealthSocket)) == Ok::<PathV, crate::config::cli::ErrV>(PathV::HealthSocket),
{
    reveal_strlit("log_level");
    reveal_strlit("health_socket");
    lemma_split_no_dot("health_socket"@);
    let segs = split_dots("health_socket"@);
    assert(segs == seq!["health_socket"@]);
    assert(segs.len() == 1 && segs[0] == "health_socket"@);
    assert(segs[0] != "log_level"@);
}

/// Every leaf path, written as its `--set` path, parses back to itself.
#[verifier::spinoff_prover]
#[verifier::rlimit(40)]
pub proof fn lemma_set_text_parses_back(p: PathV)
    requires
        set_ids_ok(p),
    ensures
        set_path(set_text(p)) == Ok::<PathV, crate::config::cli::ErrV>(p),
{
    match p {
        PathV::Defaults(pr, f) => lemma_defaults_set_text(pr, f),
        PathV::Account(id, ap) => {
            if id == flat_id() {
                lemma_flat_set_text(ap);
            } else {
                lemma_keyed_set_text(id, ap);
            }
        },
        PathV::LogLevel => lemma_log_level_set_text(),
        PathV::HealthSocket => lemma_health_socket_set_text(),
    }
}

} // verus!
