//! Start-up settings of the submitter and of the authenticator, and the
//! parsing of their command-line parameters.

use vstd::prelude::*;
use vstd::slice::slice_to_vec;
use vstd::utf8::{decode_utf8, valid_utf8};
use crate::codec::string_from_utf8;

verus! {

/// Settings of the relay submitter.
pub struct RelaySubmitterSettings {
    receiver_hosts: Vec<String>,
    password: String,
}

/// The abstract value of [`RelaySubmitterSettings`].
pub struct SubmitterSettingsView {
    /// Receiver addresses, in failover order.
    pub hosts: Seq<Seq<char>>,
    /// Shared secret sent on every new receiver connection.
    pub password: Seq<char>,
}

impl View for RelaySubmitterSettings {
    type V = SubmitterSettingsView;

    closed spec fn view(&self) -> SubmitterSettingsView {
        SubmitterSettingsView {
            hosts: self.receiver_hosts@.map_values(|h: String| h@),
            password: self.password@,
        }
    }
}

impl RelaySubmitterSettings {
    /// The configured receiver addresses, in failover order.
    pub fn receiver_hosts(&self) -> (r: &Vec<String>)
        ensures
            r@.map_values(|h: String| h@) == self@.hosts,
    {
        &self.receiver_hosts
    }

    /// The shared authentication secret.
    pub fn password(&self) -> (r: &String)
        ensures
            r@ == self@.password,
    {
        &self.password
    }
}

/// Settings with no receiver and an empty secret.
pub fn init_submitter_settings() -> (r: RelaySubmitterSettings)
    ensures
        r@.hosts.len() == 0,
        r@.password.len() == 0,
{
    let r = RelaySubmitterSettings { receiver_hosts: Vec::new(), password: String::new() };
    assert(r@.hosts =~= Seq::empty());
    r
}

/// Relies on `str::strip_prefix`: the rest of `s` when `s` starts with `p`.
#[verifier::external_body]
fn strip_prefix<'a>(s: &'a str, p: &str) -> (r: Option<&'a str>)
    ensures
        r is Some <==> starts_with(s@, p@),
        r is Some ==> r.unwrap()@ == s@.skip(p@.len() as int),
{
    s.strip_prefix(p)
}

pub open spec fn starts_with(s: Seq<char>, p: Seq<char>) -> bool {
    p.len() <= s.len() && s.take(p.len() as int) == p
}

/// The value of option `flag` in `arg`, when `arg` is that option.
pub open spec fn option_value(arg: Seq<char>, flag: Seq<char>) -> Option<Seq<char>> {
    if starts_with(arg, flag) {
        Some(arg.skip(flag.len() as int))
    } else {
        None
    }
}

pub const RECEIVER_ADDRESS_OPTION: &'static str = "--receiver_address=";

pub const RECEIVER_PASSWORD_OPTION: &'static str = "--receiver_password=";

pub const REDIS_URL_OPTION: &'static str = "--redis_url=";

pub const REDIS_AUTH_KEY_OPTION: &'static str = "--redis_auth_key=";

/// Every redis URL starts with this scheme.
pub const REDIS_URL_SCHEME: &'static str = "redis://";

/// The redis hash of authorised users, when no other is configured.
pub const REDIS_AUTHORIZED_USERS_KEY: &'static str = "BetterHash:AuthorizedUsers";

/// Reads one command-line parameter of the submitter: a receiver address
/// (appended to the failover order) or the shared secret. Returns whether
/// the parameter belongs to the submitter; the settings change only then.
pub fn parse_submitter_parameter(settings: &mut RelaySubmitterSettings, arg: &str) -> (r: bool)
    ensures
        r == (option_value(arg@, RECEIVER_ADDRESS_OPTION@) is Some || option_value(
            arg@,
            RECEIVER_PASSWORD_OPTION@,
        ) is Some),
        final(settings)@ == (match option_value(arg@, RECEIVER_ADDRESS_OPTION@) {
            Some(host) => SubmitterSettingsView {
                hosts: old(settings)@.hosts.push(host),
                ..old(settings)@
            },
            None => match option_value(arg@, RECEIVER_PASSWORD_OPTION@) {
                Some(password) => SubmitterSettingsView { password, ..old(settings)@ },
                None => old(settings)@,
            },
        }),
{
    match strip_prefix(arg, RECEIVER_ADDRESS_OPTION) {
        Some(host) => {
            settings.receiver_hosts.push(host.to_owned());
            assert(settings@.hosts =~= old(settings)@.hosts.push(host@));
            true
        },
        None => match strip_prefix(arg, RECEIVER_PASSWORD_OPTION) {
            Some(password) => {
                settings.password = password.to_owned();
                true
            },
            None => false,
        },
    }
}

/// Settings of the miner authenticator.
pub struct RedisAuthenticatorSettings {
    redis_url: Option<String>,
    key: Option<String>,
}

/// The abstract value of [`RedisAuthenticatorSettings`].
pub struct AuthenticatorSettingsView {
    pub redis_url: Option<Seq<char>>,
    pub key: Option<Seq<char>>,
}

pub open spec fn opt_view(o: Option<String>) -> Option<Seq<char>> {
    match o {
        Some(s) => Some(s@),
        None => None,
    }
}

impl View for RedisAuthenticatorSettings {
    type V = AuthenticatorSettingsView;

    closed spec fn view(&self) -> AuthenticatorSettingsView {
        AuthenticatorSettingsView { redis_url: opt_view(self.redis_url), key: opt_view(self.key) }
    }
}

/// Why a command-line parameter was refused.
#[derive(Debug, Clone, Copy, PartialEq, Eq, Structural)]
pub enum SettingsError {
    /// The redis URL does not start with `redis://`.
    BadRedisUrl,
}

/// Settings with no redis URL and no users key.
pub fn init_authenticator_settings() -> (r: RedisAuthenticatorSettings)
    ensures
        r@.redis_url is None,
        r@.key is None,
{
    RedisAuthenticatorSettings { redis_url: None, key: None }
}

/// Reads one command-line parameter of the authenticator. `Ok(true)` when
/// it was taken; `Ok(false)` when it is not the authenticator's, or repeats
/// an option already given; an error for a redis URL of another scheme.
pub fn parse_authenticator_parameter(settings: &mut RedisAuthenticatorSettings, arg: &str) -> (r:
    Result<bool, SettingsError>)
    ensures
        match option_value(arg@, REDIS_URL_OPTION@) {
            Some(url) => if old(settings)@.redis_url is Some {
                r == Ok::<bool, SettingsError>(false) && final(settings)@ == old(settings)@
            } else if !starts_with(url, REDIS_URL_SCHEME@) {
                r == Err::<bool, SettingsError>(SettingsError::BadRedisUrl) && final(settings)@
                    == old(settings)@
            } else {
                r == Ok::<bool, SettingsError>(true) && final(settings)@ == (
                AuthenticatorSettingsView { redis_url: Some(url), ..old(settings)@ })
            },
            None => match option_value(arg@, REDIS_AUTH_KEY_OPTION@) {
                Some(key) => if old(settings)@.key is Some {
                    r == Ok::<bool, SettingsError>(false) && final(settings)@ == old(settings)@
                } else {
                    r == Ok::<bool, SettingsError>(true) && final(settings)@ == (
                    AuthenticatorSettingsView { key: Some(key), ..old(settings)@ })
                },
                None => r == Ok::<bool, SettingsError>(false) && final(settings)@ == old(settings)@,
            },
        },
{
    match strip_prefix(arg, REDIS_URL_OPTION) {
        Some(url) => {
            if settings.redis_url.is_some() {
                Ok(false)
            } else if strip_prefix(url, REDIS_URL_SCHEME).is_none() {
                Err(SettingsError::BadRedisUrl)
            } else {
                settings.redis_url = Some(url.to_owned());
                Ok(true)
            }
        },
        None => match strip_prefix(arg, REDIS_AUTH_KEY_OPTION) {
            Some(key) => {
                if settings.key.is_some() {
                    Ok(false)
                } else {
                    settings.key = Some(key.to_owned());
                    Ok(true)
                }
            },
            None => Ok(false),
        },
    }
}

impl RedisAuthenticatorSettings {
    /// The configured redis URL.
    pub fn redis_url(&self) -> (r: Option<String>)
        ensures
            opt_view(r) == self@.redis_url,
    {
        match &self.redis_url {
            Some(u) => Some(u.clone()),
            None => None,
        }
    }

    /// The redis hash that lists authorised users: the configured one, else
    /// the default.
    pub fn users_key(&self) -> (r: String)
        ensures
            r@ == (match self@.key {
                Some(k) => k,
                None => REDIS_AUTHORIZED_USERS_KEY@,
            }),
    {
        match &self.key {
            Some(k) => k.clone(),
            None => REDIS_AUTHORIZED_USERS_KEY.to_owned(),
        }
    }
}

/// The user name as text; `None` when its bytes are not UTF-8, in which case
/// the user is not authenticated.
pub fn username_of(user_id: &Vec<u8>) -> (r: Option<String>)
    ensures
        r is Some <==> valid_utf8(user_id@),
        r is Some ==> r.unwrap()@ == decode_utf8(user_id@),
{
    string_from_utf8(slice_to_vec(user_id.as_slice()))
}

/// Whether the id stored for a user, if the lookup found one, authorises
/// it: any stored id but zero does.
pub fn is_authorized(stored_id: Option<u32>) -> (r: bool)
    ensures
        r == (match stored_id {
            Some(id) => id != 0,
            None => false,
        }),
{
    match stored_id {
        Some(id) => id != 0,
        None => false,
    }
}

} // verus!
