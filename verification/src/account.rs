//! Account settings, user preferences and the auth session: the shapes that
//! are persisted, their defaults, and the nickname rules. Reading and writing
//! the JSON files lives outside the library; every rule applied to their
//! contents is here.

use vstd::prelude::*;
use crate::strutil::{lower_of, trim_of};

verus! {

#[derive(Debug, Clone)]
pub struct AccountSettings {
    pub nickname: String,
    pub profile_image_path: Option<String>,
    pub reserved_nicknames: Vec<String>,
}

#[verifier::ext_equal]
pub struct AccountSettingsView {
    pub nickname: Seq<char>,
    pub profile_image_path: Option<Seq<char>>,
    pub reserved_nicknames: Seq<Seq<char>>,
}

impl View for AccountSettings {
    type V = AccountSettingsView;

    open spec fn view(&self) -> AccountSettingsView {
        AccountSettingsView {
            nickname: self.nickname@,
            profile_image_path: match self.profile_image_path {
                Some(p) => Some(p@),
                None => None,
            },
            reserved_nicknames: self.reserved_nicknames@.map_values(|s: String| s@),
        }
    }
}

#[derive(Debug, Clone)]
pub struct UserPreferences {
    pub theme: String,
    pub language: String,
    pub timezone: String,
    pub notifications_enabled: bool,
}

#[verifier::ext_equal]
pub struct UserPreferencesView {
    pub theme: Seq<char>,
    pub language: Seq<char>,
    pub timezone: Seq<char>,
    pub notifications_enabled: bool,
}

impl View for UserPreferences {
    type V = UserPreferencesView;

    open spec fn view(&self) -> UserPreferencesView {
        UserPreferencesView {
            theme: self.theme@,
            language: self.language@,
            timezone: self.timezone@,
            notifications_enabled: self.notifications_enabled,
        }
    }
}

#[derive(Debug, Clone)]
pub struct AuthSession {
    pub provider: Option<String>,
    pub access_token: Option<String>,
    pub refresh_token: Option<String>,
    pub member_id: Option<String>,
    pub nickname: Option<String>,
    pub email: Option<String>,
    pub expires_at_unix: Option<i64>,
}

pub fn default_nickname() -> (r: String)
    ensures
        r@ == ("DeskCal User")@,
{
    String::from_str("DeskCal User")
}

pub fn default_theme() -> (r: String)
    ensures
        r@ == ("system")@,
{
    String::from_str("system")
}

pub fn default_language() -> (r: String)
    ensures
        r@ == ("ko")@,
{
    String::from_str("ko")
}

pub fn default_timezone() -> (r: String)
    ensures
        r@ == ("Asia/Seoul")@,
{
    String::from_str("Asia/Seoul")
}

pub fn default_notifications_enabled() -> (r: bool)
    ensures
        r,
{
    true
}

pub fn default_account_settings() -> (r: AccountSettings)
    ensures
        r@.nickname == ("DeskCal User")@,
        r@.profile_image_path is None,
        r@.reserved_nicknames.len() == 0,
{
    AccountSettings {
        nickname: default_nickname(),
        profile_image_path: None,
        reserved_nicknames: Vec::new(),
    }
}

pub fn default_user_preferences() -> (r: UserPreferences)
    ensures
        r@.theme == ("system")@,
        r@.language == ("ko")@,
        r@.timezone == ("Asia/Seoul")@,
        r@.notifications_enabled,
{
    UserPreferences {
        theme: default_theme(),
        language: default_language(),
        timezone: default_timezone(),
        notifications_enabled: default_notifications_enabled(),
    }
}

pub fn default_auth_session() -> (r: AuthSession)
    ensures
        r.provider is None,
        r.access_token is None,
        r.refresh_token is None,
        r.member_id is None,
        r.nickname is None,
        r.email is None,
        r.expires_at_unix is None,
{
    AuthSession {
        provider: None,
        access_token: None,
        refresh_token: None,
        member_id: None,
        nickname: None,
        email: None,
        expires_at_unix: None,
    }
}

/// A nickname's normal form: trimmed, then lowercased. Two nicknames clash
/// exactly when their normal forms agree.
pub open spec fn norm_of(s: Seq<char>) -> Seq<char> {
    lower_of(trim_of(s))
}

/// Trimmed, lowercased copy of a nickname.
pub fn normalize_nickname(nickname: &str) -> (r: String)
    ensures
        r@ == norm_of(nickname@),
{
    nickname.trim().to_lowercase()
}

pub open spec fn nickname_len_ok(s: Seq<char>) -> bool {
    2 <= trim_of(s).len() <= 20
}

/// A nickname is accepted when its trimmed form has 2 to 20 characters; the
/// accepted value is the trimmed form.
pub fn validate_nickname(nickname: &str) -> (r: Result<String, String>)
    ensures
        trim_of(trim_of(nickname@)) == trim_of(nickname@),
        nickname_len_ok(nickname@) ==> r is Ok && r->Ok_0@ == trim_of(nickname@),
        !nickname_len_ok(nickname@) ==> r is Err && r->Err_0@ == (
        "Nickname must be between 2 and 20 characters")@,
{
    let trimmed = nickname.trim();
    let len = trimmed.unicode_len();
    if len < 2 || len > 20 {
        Err(String::from_str("Nickname must be between 2 and 20 characters"))
    } else {
        Ok(trimmed.to_owned())
    }
}

/// Some reserved nickname has the given normal form.
pub open spec fn reserved_has_norm(settings: AccountSettingsView, n: Seq<char>) -> bool {
    exists|i: int|
        0 <= i < settings.reserved_nicknames.len() && norm_of(
            #[trigger] settings.reserved_nicknames[i],
        ) == n
}

impl AccountSettings {
    /// A valid nickname is available when it is the account's own nickname
    /// (up to normalization) or no reserved nickname normalizes to it.
    pub fn is_nickname_available(&self, nickname: &str) -> (r: Result<bool, String>)
        ensures
            !nickname_len_ok(nickname@) ==> r is Err && r->Err_0@ == (
            "Nickname must be between 2 and 20 characters")@,
            nickname_len_ok(nickname@) ==> r is Ok && r->Ok_0 == (norm_of(self@.nickname)
                == norm_of(nickname@) || !reserved_has_norm(self@, norm_of(nickname@))),
    {
        let validated = match validate_nickname(nickname) {
            Ok(v) => v,
            Err(e) => {
                return Err(e);
            },
        };
        let cand = normalize_nickname(validated.as_str());
        proof {
            assert(cand@ == norm_of(nickname@));
        }
        let own = normalize_nickname(self.nickname.as_str());
        if own == cand {
            return Ok(true);
        }
        Ok(!self.reserved_norm_present(&cand))
    }

    /// Whether some reserved nickname normalizes to `n`.
    fn reserved_norm_present(&self, n: &String) -> (r: bool)
        ensures
            r == reserved_has_norm(self@, n@),
    {
        let mut i: usize = 0;
        while i < self.reserved_nicknames.len()
            invariant
                0 <= i <= self.reserved_nicknames.len(),
                forall|j: int|
                    0 <= j < i ==> norm_of(#[trigger] self@.reserved_nicknames[j]) != n@,
            decreases self.reserved_nicknames.len() - i,
        {
            let used = normalize_nickname(self.reserved_nicknames[i].as_str());
            if used == *n {
                proof {
                    assert(norm_of(self@.reserved_nicknames[i as int]) == n@);
                }
                return true;
            }
            i += 1;
        }
        false
    }

    /// Change the account nickname. The new name must be valid and must not
    /// clash with a reserved nickname belonging to someone else.
    pub fn update_nickname(&mut self, nickname: &str) -> (r: Result<(), String>)
        ensures
            !nickname_len_ok(nickname@) ==> r is Err && r->Err_0@ == (
            "Nickname must be between 2 and 20 characters")@ && *final(self) == *old(self),
            nickname_len_ok(nickname@) && reserved_has_norm(old(self)@, norm_of(nickname@))
                && norm_of(old(self)@.nickname) != norm_of(nickname@) ==> r is Err && r->Err_0@
                == ("Nickname is already in use")@ && *final(self) == *old(self),
            nickname_len_ok(nickname@) && !(reserved_has_norm(old(self)@, norm_of(nickname@))
                && norm_of(old(self)@.nickname) != norm_of(nickname@)) ==> r is Ok
                && final(self)@.nickname == trim_of(nickname@) && final(self).profile_image_path
                == old(self).profile_image_path && final(self).reserved_nicknames == old(
                self,
            ).reserved_nicknames,
    {
        let validated = match validate_nickname(nickname) {
            Ok(v) => v,
            Err(e) => {
                return Err(e);
            },
        };
        let cand = normalize_nickname(validated.as_str());
        proof {
            assert(cand@ == norm_of(nickname@));
        }
        let own = normalize_nickname(self.nickname.as_str());
        let duplicated = self.reserved_norm_present(&cand) && !(own == cand);
        if duplicated {
            return Err(String::from_str("Nickname is already in use"));
        }
        self.nickname = validated;
        Ok(())
    }

    /// Replace the reserved-nickname list; nothing else changes.
    pub fn set_reserved_nicknames(&mut self, reserved_nicknames: Vec<String>)
        ensures
            final(self).nickname == old(self).nickname,
            final(self).profile_image_path == old(self).profile_image_path,
            final(self).reserved_nicknames == reserved_nicknames,
    {
        self.reserved_nicknames = reserved_nicknames;
    }
}

} // verus!
