//! Configuration from environment variables.

use vstd::prelude::*;
use vstd::string::*;

use crate::erc8128::sign::{signer_from_hex, SignerView};
use crate::erc8128::Erc8128Signer;
use crate::http::text_view;
use crate::models::domains::fixed_hex;
use crate::models::DomainEthAddress;
use crate::text::{decimal_value, digits_value, parse_decimal, same_text};

verus! {

/// The environment variables of the process, each with its name and value.
pub struct EnvVars {
    pub vars: Vec<(String, String)>,
}

impl View for EnvVars {
    type V = Seq<(Seq<char>, Seq<char>)>;

    open spec fn view(&self) -> Seq<(Seq<char>, Seq<char>)> {
        Seq::new(self.vars@.len(), |i: int| (self.vars@[i].0@, self.vars@[i].1@))
    }
}

/// The value of the first variable from position `i` on with a name.
pub open spec fn env_from(
    vars: Seq<(Seq<char>, Seq<char>)>,
    name: Seq<char>,
    i: int,
) -> Option<Seq<char>>
    decreases vars.len() - i,
{
    if i < 0 || i >= vars.len() {
        None
    } else if vars[i].0 == name {
        Some(vars[i].1)
    } else {
        env_from(vars, name, i + 1)
    }
}

/// The value of a variable, where it is set.
pub open spec fn env_var(vars: Seq<(Seq<char>, Seq<char>)>, name: Seq<char>) -> Option<Seq<char>> {
    env_from(vars, name, 0)
}

/// The value of a variable, or a default where it is not set.
pub open spec fn env_or(
    vars: Seq<(Seq<char>, Seq<char>)>,
    name: Seq<char>,
    default: Seq<char>,
) -> Seq<char> {
    match env_var(vars, name) {
        Some(v) => v,
        None => default,
    }
}

impl EnvVars {
    /// The value of a variable, where it is set.
    pub fn get(&self, name: &str) -> (r: Option<String>)
        ensures
            text_view(r) == env_var(self@, name@),
    {
        let mut i: usize = 0;
        while i < self.vars.len()
            invariant
                i <= self.vars@.len(),
                env_from(self@, name@, 0) == env_from(self@, name@, i as int),
            decreases self.vars@.len() - i,
        {
            if same_text(self.vars[i].0.as_str(), name) {
                return Some(self.vars[i].1.clone());
            }
            i += 1;
        }
        None
    }

    /// The value of a variable, or a default where it is not set.
    pub fn get_or(&self, name: &str, default: &str) -> (r: String)
        ensures
            r@ == env_or(self@, name@, default@),
    {
        match self.get(name) {
            Some(v) => v,
            None => default.to_owned(),
        }
    }
}

/// The settings of the whole service. What differs by endpoint stands in the
/// endpoint definitions.
#[derive(Clone, Debug)]
pub struct GlobalConfig {
    pub port: u16,
    pub bot_wallet_address: DomainEthAddress,
    pub facilitator_url: String,
    pub base_url: Option<String>,
    pub test_mode: bool,
    pub endpoints_config_path: String,
    pub usdc_network: String,
    pub usdc_token_address: DomainEthAddress,
    pub starkbot_network: String,
    pub starkbot_token_address: String,
    pub starkbot_token_symbol: String,
    pub starkbot_token_decimals: u8,
    pub starkbot_token_name: String,
    pub starkbot_token_version: String,
    pub facilitator_signer: String,
}

/// The settings of the whole service.
pub struct ConfigView {
    pub port: u16,
    pub bot_wallet_address: Seq<u8>,
    pub facilitator_url: Seq<char>,
    pub base_url: Option<Seq<char>>,
    pub test_mode: bool,
    pub endpoints_config_path: Seq<char>,
    pub usdc_network: Seq<char>,
    pub usdc_token_address: Seq<u8>,
    pub starkbot_network: Seq<char>,
    pub starkbot_token_address: Seq<char>,
    pub starkbot_token_symbol: Seq<char>,
    pub starkbot_token_decimals: u8,
    pub starkbot_token_name: Seq<char>,
    pub starkbot_token_version: Seq<char>,
    pub facilitator_signer: Seq<char>,
}

impl View for GlobalConfig {
    type V = ConfigView;

    open spec fn view(&self) -> ConfigView {
        ConfigView {
            port: self.port,
            bot_wallet_address: self.bot_wallet_address.0@,
            facilitator_url: self.facilitator_url@,
            base_url: text_view(self.base_url),
            test_mode: self.test_mode,
            endpoints_config_path: self.endpoints_config_path@,
            usdc_network: self.usdc_network@,
            usdc_token_address: self.usdc_token_address.0@,
            starkbot_network: self.starkbot_network@,
            starkbot_token_address: self.starkbot_token_address@,
            starkbot_token_symbol: self.starkbot_token_symbol@,
            starkbot_token_decimals: self.starkbot_token_decimals,
            starkbot_token_name: self.starkbot_token_name@,
            starkbot_token_version: self.starkbot_token_version@,
            facilitator_signer: self.facilitator_signer@,
        }
    }
}

/// The number that a text writes, where it is no greater than `max`.
pub open spec fn number_up_to(s: Seq<char>, max: nat) -> Option<nat> {
    match decimal_value(s) {
        Some(n) => if n <= max {
            Some(n)
        } else {
            None
        },
        None => None,
    }
}

/// The settings that the variables give, or the message of the first error.
pub open spec fn config_from(vars: Seq<(Seq<char>, Seq<char>)>) -> Result<ConfigView, Seq<char>> {
    let port = number_up_to(env_or(vars, "PORT"@, "8080"@), 0xffff);
    let wallet = env_var(vars, "BOT_WALLET_ADDRESS"@);
    let wallet_bytes = fixed_hex(wallet->0, 20, "address"@);
    let facilitator = env_var(vars, "FACILITATOR_URL"@);
    let usdc = fixed_hex(
        env_or(vars, "USDC_TOKEN_ADDRESS"@, "0x833589fCD6eDb6E08f4c7C32D4f71b54bdA02913"@),
        20,
        "address"@,
    );
    let decimals = number_up_to(env_or(vars, "STARKBOT_TOKEN_DECIMALS"@, "18"@), 0xff);
    if port is None {
        Err("PORT must be a valid port number"@)
    } else if wallet is None {
        Err("BOT_WALLET_ADDRESS is required"@)
    } else if wallet_bytes is Err {
        Err("Invalid BOT_WALLET_ADDRESS: "@ + wallet_bytes->Err_0)
    } else if facilitator is None {
        Err("FACILITATOR_URL is required"@)
    } else if usdc is Err {
        Err("Invalid USDC_TOKEN_ADDRESS: "@ + usdc->Err_0)
    } else if decimals is None {
        Err("STARKBOT_TOKEN_DECIMALS must be a valid number"@)
    } else {
        Ok(
            ConfigView {
                port: port->0 as u16,
                bot_wallet_address: wallet_bytes->Ok_0,
                facilitator_url: facilitator->0,
                base_url: env_var(vars, "BASE_URL"@),
                test_mode: env_var(vars, "TEST_MODE"@) == Some("true"@) || env_var(
                    vars,
                    "TEST_MODE"@,
                ) == Some("1"@),
                endpoints_config_path: env_or(vars, "ENDPOINTS_CONFIG"@, "endpoints.ron"@),
                usdc_network: env_or(vars, "USDC_NETWORK"@, "eip155:8453"@),
                usdc_token_address: usdc->Ok_0,
                starkbot_network: env_or(vars, "STARKBOT_NETWORK"@, "base"@),
                starkbot_token_address: env_or(
                    vars,
                    "STARKBOT_TOKEN_ADDRESS"@,
                    "0x587Cd533F418825521f3A1daa7CCd1E7339A1B07"@,
                ),
                starkbot_token_symbol: env_or(vars, "STARKBOT_TOKEN_SYMBOL"@, "STARKBOT"@),
                starkbot_token_decimals: decimals->0 as u8,
                starkbot_token_name: env_or(vars, "STARKBOT_TOKEN_NAME"@, "StarkBot"@),
                starkbot_token_version: env_or(vars, "STARKBOT_TOKEN_VERSION"@, "1"@),
                facilitator_signer: env_or(vars, "FACILITATOR_SIGNER"@, ""@),
            },
        )
    }
}

impl GlobalConfig {
    /// Reads the settings from environment variables.
    pub fn from_env(env: &EnvVars) -> (r: Result<Self, String>)
        ensures
            match r {
                Ok(c) => config_from(env@) == Ok::<ConfigView, Seq<char>>(c@),
                Err(e) => config_from(env@) == Err::<ConfigView, Seq<char>>(e@),
            },
    {
        let test_mode = match env.get("TEST_MODE") {
            Some(v) => same_text(v.as_str(), "true") || same_text(v.as_str(), "1"),
            None => false,
        };
        let port: u16 = match parse_decimal(env.get_or("PORT", "8080").as_str(), 0xffff) {
            Some(n) => n as u16,
            None => return Err("PORT must be a valid port number".to_owned()),
        };
        let wallet = match env.get("BOT_WALLET_ADDRESS") {
            Some(w) => w,
            None => return Err("BOT_WALLET_ADDRESS is required".to_owned()),
        };
        let bot_wallet_address = match DomainEthAddress::from_hex(wallet.as_str()) {
            Ok(a) => a,
            Err(e) => {
                let mut m = "Invalid BOT_WALLET_ADDRESS: ".to_owned();
                m.append(e.as_str());
                return Err(m);
            },
        };
        let facilitator_url = match env.get("FACILITATOR_URL") {
            Some(u) => u,
            None => return Err("FACILITATOR_URL is required".to_owned()),
        };
        let usdc = env.get_or(
            "USDC_TOKEN_ADDRESS",
            "0x833589fCD6eDb6E08f4c7C32D4f71b54bdA02913",
        );
        let usdc_token_address = match DomainEthAddress::from_hex(usdc.as_str()) {
            Ok(a) => a,
            Err(e) => {
                let mut m = "Invalid USDC_TOKEN_ADDRESS: ".to_owned();
                m.append(e.as_str());
                return Err(m);
            },
        };
        let decimals: u8 = match parse_decimal(
            env.get_or("STARKBOT_TOKEN_DECIMALS", "18").as_str(),
            0xff,
        ) {
            Some(n) => n as u8,
            None => return Err("STARKBOT_TOKEN_DECIMALS must be a valid number".to_owned()),
        };
        Ok(
            GlobalConfig {
                port,
                bot_wallet_address,
                facilitator_url,
                base_url: env.get("BASE_URL"),
                test_mode,
                endpoints_config_path: env.get_or("ENDPOINTS_CONFIG", "endpoints.ron"),
                usdc_network: env.get_or("USDC_NETWORK", "eip155:8453"),
                usdc_token_address,
                starkbot_network: env.get_or("STARKBOT_NETWORK", "base"),
                starkbot_token_address: env.get_or(
                    "STARKBOT_TOKEN_ADDRESS",
                    "0x587Cd533F418825521f3A1daa7CCd1E7339A1B07",
                ),
                starkbot_token_symbol: env.get_or("STARKBOT_TOKEN_SYMBOL", "STARKBOT"),
                starkbot_token_decimals: decimals,
                starkbot_token_name: env.get_or("STARKBOT_TOKEN_NAME", "StarkBot"),
                starkbot_token_version: env.get_or("STARKBOT_TOKEN_VERSION", "1"),
                facilitator_signer: env.get_or("FACILITATOR_SIGNER", ""),
            },
        )
    }
}

/// The settings of the credits system.
#[derive(Clone)]
pub struct CreditsConfig {
    pub signer: Erc8128Signer,
    pub api_url: String,
}

/// The chain id of the credits system: the one that is set, where it is a
/// number, or Base mainnet.
pub open spec fn credits_chain(vars: Seq<(Seq<char>, Seq<char>)>) -> u64 {
    match env_var(vars, "CREDITS_CHAIN_ID"@) {
        Some(s) => match number_up_to(s, u64::MAX as nat) {
            Some(n) => n as u64,
            None => 8453,
        },
        None => 8453,
    }
}

/// The signer and the URL of the credits system, where it is configured: the
/// private key is set, not empty, and a key.
pub open spec fn credits_from(vars: Seq<(Seq<char>, Seq<char>)>) -> Option<
    (SignerView, Seq<char>),
> {
    match env_var(vars, "CREDITS_ADMIN_PRIVATE_KEY"@) {
        Some(key) => if key.len() == 0 {
            None
        } else {
            match signer_from_hex(key, credits_chain(vars)) {
                Ok(s) => Some((s, env_or(vars, "CREDITS_API_URL"@, "https://starkbot.cloud/api"@))),
                Err(_) => None,
            }
        },
        None => None,
    }
}

impl CreditsConfig {
    /// Reads the settings of the credits system from environment variables.
    pub fn from_env(env: &EnvVars) -> (r: Option<Self>)
        ensures
            match r {
                Some(c) => credits_from(env@) == Some((c.signer@, c.api_url@)) && c.signer@.valid(),
                None => credits_from(env@) is None,
            },
    {
        let key = match env.get("CREDITS_ADMIN_PRIVATE_KEY") {
            Some(k) => k,
            None => return None,
        };
        if key.as_str().is_empty() {
            return None;
        }
        let api_url = env.get_or("CREDITS_API_URL", "https://starkbot.cloud/api");
        let chain_id: u64 = match env.get("CREDITS_CHAIN_ID") {
            Some(s) => match parse_decimal(s.as_str(), 0xffff_ffff_ffff_ffff) {
                Some(n) => n as u64,
                None => 8453,
            },
            None => 8453,
        };
        match Erc8128Signer::from_private_key(key.as_str(), chain_id) {
            Ok(signer) => Some(CreditsConfig { signer, api_url }),
            Err(_) => None,
        }
    }
}

// ---------------------------------------------------------------------------
// Laws
// ---------------------------------------------------------------------------

/// `env_from` finds the first variable with a name.
proof fn lemma_env_from(vars: Seq<(Seq<char>, Seq<char>)>, name: Seq<char>, i: int, k: int)
    requires
        0 <= i <= k <= vars.len(),
        forall|j: int| i <= j < k ==> (#[trigger] vars[j]).0 != name,
        k < vars.len() ==> vars[k].0 == name,
    ensures
        env_from(vars, name, i) == if k < vars.len() {
            Some(vars[k].1)
        } else {
            None
        },
    decreases k - i,
{
    if i < k {
        assert(vars[i].0 != name);
        lemma_env_from(vars, name, i + 1, k);
    }
}

/// The value of a variable is the one that it is set to; a variable that is not
/// set has none.
pub proof fn law_variables_are_read(vars: Seq<(Seq<char>, Seq<char>)>, name: Seq<char>, k: int)
    requires
        0 <= k <= vars.len(),
        forall|j: int| 0 <= j < k ==> (#[trigger] vars[j]).0 != name,
    ensures
        k < vars.len() && vars[k].0 == name ==> env_var(vars, name) == Some(vars[k].1),
        k == vars.len() ==> env_var(vars, name) is None,
{
    if k == vars.len() || vars[k].0 == name {
        lemma_env_from(vars, name, 0, k);
    }
}

/// Whether a setting is what a variable is set to, or its default.
pub open spec fn is_set_or(
    vars: Seq<(Seq<char>, Seq<char>)>,
    name: Seq<char>,
    value: Seq<char>,
    default: Seq<char>,
) -> bool {
    match env_var(vars, name) {
        Some(v) => value == v,
        None => value == default,
    }
}

/// The settings are those that the variables set, each under its own name, and
/// the defaults elsewhere.
pub proof fn law_settings_are_read(vars: Seq<(Seq<char>, Seq<char>)>)
    requires
        config_from(vars) is Ok,
    ensures
        ({
            let c = config_from(vars)->Ok_0;
            let mode = env_var(vars, "TEST_MODE"@);
            &&& match env_var(vars, "PORT"@) {
                Some(s) => decimal_value(s) == Some(c.port as nat),
                None => c.port == 8080,
            }
            &&& env_var(vars, "BOT_WALLET_ADDRESS"@) matches Some(a) && fixed_hex(
                a,
                20,
                "address"@,
            ) == Ok::<Seq<u8>, Seq<char>>(c.bot_wallet_address)
            &&& env_var(vars, "FACILITATOR_URL"@) == Some(c.facilitator_url)
            &&& c.base_url == env_var(vars, "BASE_URL"@)
            &&& c.test_mode <==> mode == Some("true"@) || mode == Some("1"@)
            &&& match env_var(vars, "USDC_TOKEN_ADDRESS"@) {
                Some(a) => fixed_hex(a, 20, "address"@) == Ok::<Seq<u8>, Seq<char>>(
                    c.usdc_token_address,
                ),
                None => fixed_hex(
                    "0x833589fCD6eDb6E08f4c7C32D4f71b54bdA02913"@,
                    20,
                    "address"@,
                ) == Ok::<Seq<u8>, Seq<char>>(c.usdc_token_address),
            }
            &&& match env_var(vars, "STARKBOT_TOKEN_DECIMALS"@) {
                Some(s) => decimal_value(s) == Some(c.starkbot_token_decimals as nat),
                None => c.starkbot_token_decimals == 18,
            }
            &&& is_set_or(vars, "ENDPOINTS_CONFIG"@, c.endpoints_config_path, "endpoints.ron"@)
            &&& is_set_or(vars, "USDC_NETWORK"@, c.usdc_network, "eip155:8453"@)
            &&& is_set_or(vars, "STARKBOT_NETWORK"@, c.starkbot_network, "base"@)
            &&& is_set_or(
                vars,
                "STARKBOT_TOKEN_ADDRESS"@,
                c.starkbot_token_address,
                "0x587Cd533F418825521f3A1daa7CCd1E7339A1B07"@,
            )
            &&& is_set_or(vars, "STARKBOT_TOKEN_SYMBOL"@, c.starkbot_token_symbol, "STARKBOT"@)
            &&& is_set_or(vars, "STARKBOT_TOKEN_NAME"@, c.starkbot_token_name, "StarkBot"@)
            &&& is_set_or(vars, "STARKBOT_TOKEN_VERSION"@, c.starkbot_token_version, "1"@)
            &&& is_set_or(vars, "FACILITATOR_SIGNER"@, c.facilitator_signer, ""@)
        }),
{
    lemma_default_numbers();
}

/// The settings are refused where a variable that is required is missing, or
/// where one does not hold what it must, and in no other case.
pub proof fn law_settings_are_refused(vars: Seq<(Seq<char>, Seq<char>)>)
    ensures
        ({
            let r = config_from(vars);
            let wallet = env_var(vars, "BOT_WALLET_ADDRESS"@);
            let port = env_var(vars, "PORT"@);
            let decimals = env_var(vars, "STARKBOT_TOKEN_DECIMALS"@);
            let usdc = env_var(vars, "USDC_TOKEN_ADDRESS"@);
            let bad_port = port matches Some(s) && !(decimal_value(s) matches Some(n) && n
                <= 65535);
            let bad_decimals = decimals matches Some(s) && !(decimal_value(s) matches Some(n) && n
                <= 255);
            let bad_usdc = usdc matches Some(a) && fixed_hex(a, 20, "address"@) is Err;
            &&& wallet is None || env_var(vars, "FACILITATOR_URL"@) is None || bad_port
                || bad_decimals || bad_usdc || fixed_hex(wallet->0, 20, "address"@) is Err
                ==> r is Err
            &&& bad_port ==> r == Err::<ConfigView, Seq<char>>("PORT must be a valid port number"@)
            &&& port is None && wallet is None ==> r == Err::<ConfigView, Seq<char>>(
                "BOT_WALLET_ADDRESS is required"@,
            )
            &&& port is None && wallet is Some && fixed_hex(wallet->0, 20, "address"@) is Ok
                && env_var(vars, "FACILITATOR_URL"@) is None ==> r == Err::<ConfigView, Seq<char>>(
                "FACILITATOR_URL is required"@,
            )
            &&& port is None && wallet is Some && fixed_hex(wallet->0, 20, "address"@) is Ok
                && env_var(vars, "FACILITATOR_URL"@) is Some && usdc is Some && fixed_hex(
                usdc->0,
                20,
                "address"@,
            ) is Ok && decimals is None ==> r is Ok
        }),
{
    lemma_default_numbers();
}

/// The numbers that are set by default.
proof fn lemma_default_numbers()
    ensures
        decimal_value("8080"@) == Some(8080nat),
        decimal_value("18"@) == Some(18nat),
{
    reveal_strlit("8080");
    reveal_strlit("18");
    reveal_with_fuel(digits_value, 6);
    let s = seq!['8', '0', '8', '0'];
    let t = seq!['1', '8'];
    assert("8080"@ =~= s);
    assert("18"@ =~= t);
    assert(t.drop_last() =~= seq!['1']);
    assert(t.drop_last().drop_last() =~= seq![]);
    assert(s.drop_last() =~= seq!['8', '0', '8']);
    assert(s.drop_last().drop_last() =~= seq!['8', '0']);
    assert(s.drop_last().drop_last().drop_last() =~= seq!['8']);
    assert(s.drop_last().drop_last().drop_last().drop_last() =~= seq![]);
}

/// The credits system is on where its private key is set, not empty, and a
/// key; its chain is the one that is set, where that is a number, or Base.
pub proof fn law_credits_settings(vars: Seq<(Seq<char>, Seq<char>)>)
    ensures
        ({
            let key = env_var(vars, "CREDITS_ADMIN_PRIVATE_KEY"@);
            let chain = env_var(vars, "CREDITS_CHAIN_ID"@);
            let n = if chain is Some && decimal_value(chain->0) is Some && decimal_value(
                chain->0,
            )->0 <= u64::MAX {
                decimal_value(chain->0)->0 as u64
            } else {
                8453u64
            };
            match credits_from(vars) {
                Some(c) => {
                    &&& key is Some
                    &&& key->0.len() > 0
                    &&& signer_from_hex(key->0, n) == Ok::<SignerView, Seq<char>>(c.0)
                    &&& is_set_or(vars, "CREDITS_API_URL"@, c.1, "https://starkbot.cloud/api"@)
                },
                None => key is None || key->0.len() == 0 || signer_from_hex(key->0, n) is Err,
            }
        }),
{
}

} // verus!
