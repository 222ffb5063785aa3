//! Sessions of clients: a token stands for a wallet that has signed once.

use vstd::prelude::*;
use moka::sync::Cache;

use crate::clock::{is_uuid, new_uuid, unix_seconds};
use crate::config::{env_var, number_up_to, EnvVars};
use crate::text::{decimal_value, parse_decimal};

verus! {

/// The seconds that a session lasts by default: an hour.
pub const DEFAULT_SESSION_TTL_SECS: u64 = 3600;

/// How many sessions are kept.
pub const MAX_SESSIONS: u64 = 10_000;

/// The longest life of a session in seconds: a thousand years.
pub const MAX_TTL_SECS: u64 = 31_536_000_000;

/// What is known of a session.
#[derive(Clone, Debug)]
pub struct SessionInfo {
    pub wallet_address: String,
    pub chain_id: u64,
    pub created_at: i64,
    pub expires_at: i64,
}

/// What is known of a session.
pub struct SessionView {
    pub wallet_address: Seq<char>,
    pub chain_id: u64,
    pub created_at: i64,
    pub expires_at: i64,
}

impl View for SessionInfo {
    type V = SessionView;

    open spec fn view(&self) -> SessionView {
        SessionView {
            wallet_address: self.wallet_address@,
            chain_id: self.chain_id,
            created_at: self.created_at,
            expires_at: self.expires_at,
        }
    }
}

// ---------------------------------------------------------------------------
// moka
// ---------------------------------------------------------------------------

/// `moka::sync::Cache`: a bounded cache whose entries expire.
#[verifier::external_type_specification]
#[verifier::external_body]
#[verifier::reject_recursive_types(K)]
#[verifier::reject_recursive_types(V)]
#[verifier::reject_recursive_types(S)]
pub struct ExCache<K, V, S>(moka::sync::Cache<K, V, S>);

/// What was put into a session cache last under each key. An entry may be gone
/// from the cache: it has expired, or it made room for others.
pub uninterp spec fn sessions_put(
    c: Cache<String, (String, u64, i64, i64), std::hash::RandomState>,
) -> Map<Seq<char>, SessionView>;

/// The life of the entries of a session cache in seconds, and its capacity.
pub uninterp spec fn session_limits(
    c: Cache<String, (String, u64, i64, i64), std::hash::RandomState>,
) -> (u64, u64);

/// What a cached value says of a session.
pub open spec fn session_of(v: (String, u64, i64, i64)) -> SessionView {
    SessionView { wallet_address: v.0@, chain_id: v.1, created_at: v.2, expires_at: v.3 }
}

/// `Cache::builder` with `time_to_live`, `max_capacity` and `build`: an empty
/// cache with these limits. `build` panics where the life is longer than a
/// thousand years of 365 days.
#[verifier::external_body]
fn new_session_cache(ttl_secs: u64, capacity: u64) -> (r: Cache<
    String,
    (String, u64, i64, i64),
    std::hash::RandomState,
>)
    requires
        ttl_secs <= MAX_TTL_SECS,
    ensures
        (sessions_put(r) == Map::<Seq<char>, SessionView>::empty()),
        session_limits(r) == (ttl_secs, capacity),
{
    Cache::builder()
        .time_to_live(std::time::Duration::from_secs(ttl_secs))
        .max_capacity(capacity)
        .build()
}

/// `Cache::insert`: puts a value under a key, in place of any that was there.
#[verifier::external_body]
fn put_session(
    c: &mut Cache<String, (String, u64, i64, i64), std::hash::RandomState>,
    key: String,
    value: (String, u64, i64, i64),
)
    ensures
        sessions_put(*final(c)) == sessions_put(*old(c)).insert(key@, session_of(value)),
        session_limits(*final(c)) == session_limits(*old(c)),
{
    c.insert(key, value)
}

/// `Cache::get`: the value that was put last under a key, or `None` where
/// there was none or it is gone from the cache. Whether it is gone depends on
/// the time and on the other entries, and is left unsaid.
#[verifier::external_body]
fn get_session(
    c: &Cache<String, (String, u64, i64, i64), std::hash::RandomState>,
    key: &str,
) -> (r: Option<(String, u64, i64, i64)>)
    ensures
        r is Some ==> sessions_put(*c).contains_key(key@),
        r is Some ==> sessions_put(*c)[key@] == session_of(r->0),
{
    c.get(key)
}

// ---------------------------------------------------------------------------
// Sessions
// ---------------------------------------------------------------------------

/// The sessions of clients, by token.
pub struct SessionManager {
    cache: Cache<String, (String, u64, i64, i64), std::hash::RandomState>,
    ttl_secs: u64,
}

/// The sessions that were created, by token, and the seconds that one lasts.
pub struct ManagerView {
    pub created: Map<Seq<char>, SessionView>,
    pub ttl_secs: u64,
}

impl View for SessionManager {
    type V = ManagerView;

    closed spec fn view(&self) -> ManagerView {
        ManagerView { created: sessions_put(self.cache), ttl_secs: self.ttl_secs }
    }
}

/// The session of a wallet that begins at a time.
pub open spec fn new_session(wallet: Seq<char>, chain_id: u64, now: int, ttl_secs: u64) -> SessionView {
    SessionView {
        wallet_address: wallet,
        chain_id,
        created_at: now as i64,
        expires_at: (now + ttl_secs) as i64,
    }
}

/// The seconds that a session lasts: the number that is set, or an hour.
pub open spec fn session_ttl(vars: Seq<(Seq<char>, Seq<char>)>) -> u64 {
    match env_var(vars, "SESSION_TTL_SECS"@) {
        Some(s) => match number_up_to(s, u64::MAX as nat) {
            Some(n) => n as u64,
            None => 3600,
        },
        None => 3600,
    }
}

/// The seconds that a session lasts: the number that is set, or an hour.
pub fn session_ttl_secs(env: &EnvVars) -> (r: u64)
    ensures
        r == session_ttl(env@),
{
    match env.get("SESSION_TTL_SECS") {
        Some(s) => match parse_decimal(s.as_str(), 0xffff_ffff_ffff_ffff) {
            Some(n) => n as u64,
            None => DEFAULT_SESSION_TTL_SECS,
        },
        None => DEFAULT_SESSION_TTL_SECS,
    }
}

/// The session that a lookup in the cache gives: one with the wallet, the
/// chain, the beginning and the end that were found, and none where nothing
/// was.
pub fn session_found(found: Option<(String, u64, i64, i64)>) -> (r: Option<SessionInfo>)
    ensures
        match found {
            Some(v) => r is Some && r->0@ == session_of(v),
            None => r is None,
        },
{
    match found {
        Some(v) => Some(
            SessionInfo {
                wallet_address: v.0,
                chain_id: v.1,
                created_at: v.2,
                expires_at: v.3,
            },
        ),
        None => None,
    }
}

impl SessionManager {
    /// Whether the cache keeps its entries as long as a session lasts, and
    /// that is no more than a thousand years.
    pub closed spec fn valid(&self) -> bool {
        session_limits(self.cache) == (self.ttl_secs, MAX_SESSIONS) && self.ttl_secs
            <= MAX_TTL_SECS
    }

    /// Sessions that last so many seconds.
    pub fn new(ttl_secs: u64) -> (r: Self)
        requires
            ttl_secs <= MAX_TTL_SECS,
        ensures
            r.valid(),
            r@ == (ManagerView { created: Map::empty(), ttl_secs }),
    {
        SessionManager { cache: new_session_cache(ttl_secs, MAX_SESSIONS), ttl_secs }
    }

    /// Sessions that last as long as the environment says.
    pub fn from_env(env: &EnvVars) -> (r: Self)
        requires
            session_ttl(env@) <= MAX_TTL_SECS,
        ensures
            r.valid(),
            r@ == (ManagerView { created: Map::empty(), ttl_secs: session_ttl(env@) }),
    {
        Self::new(session_ttl_secs(env))
    }

    /// Creates a session for a wallet at a time, under a token. The result is
    /// the token and when the session expires.
    pub fn create_session_at(
        &mut self,
        wallet_address: &str,
        chain_id: u64,
        token: String,
        now: i64,
    ) -> (r: (String, i64))
        requires
            old(self).valid(),
            0 <= now < 10_000_000_000_000,
        ensures
            final(self).valid(),
            r.0 == token,
            r.1 == now + old(self)@.ttl_secs,
            final(self)@ == (ManagerView {
                created: old(self)@.created.insert(
                    token@,
                    new_session(wallet_address@, chain_id, now as int, old(self)@.ttl_secs),
                ),
                ..old(self)@
            }),
    {
        let expires_at: i64 = now + self.ttl_secs as i64;
        put_session(
            &mut self.cache,
            token.clone(),
            (wallet_address.to_owned(), chain_id, now, expires_at),
        );
        (token, expires_at)
    }

    /// Creates a session for a wallet now, under a fresh token.
    pub fn create_session(&mut self, wallet_address: &str, chain_id: u64) -> (r: (String, i64))
        requires
            old(self).valid(),
        ensures
            final(self).valid(),
            is_uuid(r.0@),
            exists|now: int|
                0 <= now < 10_000_000_000_000 && r.1 == now + old(self)@.ttl_secs && final(self)@
                    == (ManagerView {
                    created: old(self)@.created.insert(
                        r.0@,
                        #[trigger] new_session(
                            wallet_address@,
                            chain_id,
                            now,
                            old(self)@.ttl_secs,
                        ),
                    ),
                    ..old(self)@
                }),
    {
        let token = new_uuid();
        let now: i64 = unix_seconds();
        self.create_session_at(wallet_address, chain_id, token, now)
    }

    /// The session of a token. A token without a session has none; the session
    /// of a token that was created is the one that was created last under it,
    /// as long as the cache still holds it.
    pub fn validate(&self, token: &str) -> (r: Option<SessionInfo>)
        ensures
            !self@.created.contains_key(token@) ==> r is None,
            r matches Some(s) ==> self@.created[token@] == s@,
    {
        session_found(get_session(&self.cache, token))
    }

    /// The seconds that a session lasts.
    pub fn ttl_secs(&self) -> (r: u64)
        ensures
            r == self@.ttl_secs,
    {
        self.ttl_secs
    }
}

// ---------------------------------------------------------------------------
// Laws
// ---------------------------------------------------------------------------

/// A session belongs to the wallet and the chain that it was created for,
/// begins when it was created, and lasts as long as sessions do.
pub proof fn law_session_is_the_wallets(wallet: Seq<char>, chain_id: u64, now: int, ttl_secs: u64)
    requires
        0 <= now,
        now + ttl_secs <= i64::MAX,
    ensures
        ({
            let s = new_session(wallet, chain_id, now, ttl_secs);
            &&& s.wallet_address == wallet
            &&& s.chain_id == chain_id
            &&& s.created_at == now
            &&& s.expires_at - s.created_at == ttl_secs
        }),
{
}

/// Sessions last the seconds that are set, where that is a number of 64 bits,
/// and an hour otherwise.
pub proof fn law_session_lifetime(vars: Seq<(Seq<char>, Seq<char>)>)
    ensures
        ({
            let set = env_var(vars, "SESSION_TTL_SECS"@);
            let n = decimal_value(set->0);
            &&& set is Some && n is Some && n->0 <= u64::MAX ==> session_ttl(vars) == n->0
            &&& set is None || n is None || n->0 > u64::MAX ==> session_ttl(vars) == 3600
        }),
{
}

} // verus!
