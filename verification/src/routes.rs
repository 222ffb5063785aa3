//! The registry of endpoints, and the replies of the public routes.

use vstd::prelude::*;
use vstd::string::*;

use crate::config::{number_up_to, GlobalConfig};
use crate::encoding::hex_text;
use crate::endpoints::ResolvedEndpoint;
use crate::erc8128::types::{error_message, ErrorView, IdentityView};
use crate::erc8128::verify::{signed_request, verified, verify_at, SignedRequestView};
use crate::erc8128::{Erc8128Error, Erc8128Identity};
use crate::http::{
    bearer_token, error_reply, extract_bearer_token, json_reply, HttpRequest, Reply, ReplyView,
};
use crate::json::{list_content, number, Json, JsonObject, JsonView};
use crate::middleware::credits_or_x402::balance_view;
use crate::middleware::unified::{distinct_names, law_model_is_found, lookup_in, model_names};
use crate::middleware::{EndpointRegistry, RegisteredEndpoint};
use crate::models::chat::json_list;
use crate::order::{
    in_order, keys_view, law_sorted, lemma_sorted_len, positions_view, sort_positions,
    sorted_positions,
};
use crate::payment::{address_text, CurrencyView, EndpointPaymentConfig, PaymentView};
use crate::services::inference_client::ClientView;
use crate::services::session_manager::{SessionInfo, SessionManager, SessionView};
use crate::services::settlement_queue::{active, QueueView, SettlementQueue};
use crate::services::settlement_store::{
    count_status, SettlementStatus, SettlementView,
};
use crate::services::settlement_worker::SettlementMetrics;
use crate::services::verification_cache::{CacheView, VerificationCache};
use crate::services::InferenceClient;
use crate::text::{
    after_prefix, chars_of, decimal_value, lowercase, parse_decimal, same_text, signed_decimal,
    signed_decimal_text, to_lowercase, trim_end_char, trim_end_of,
};

verus! {

// ---------------------------------------------------------------------------
// The registry
// ---------------------------------------------------------------------------

/// An endpoint in the registry.
pub struct EntryView {
    pub name: Seq<char>,
    pub endpoint: ResolvedEndpoint,
    pub client: ClientView,
    pub payment: PaymentView,
    pub credit_cost: i64,
}

/// What the entries of a registry are.
pub open spec fn entries_view(models: Seq<(String, RegisteredEndpoint)>) -> Seq<EntryView> {
    Seq::new(models.len(), |i: int| entry_view(models[i]))
}

/// What an entry of a registry is.
pub open spec fn entry_view(m: (String, RegisteredEndpoint)) -> EntryView {
    EntryView {
        name: m.0@,
        endpoint: m.1.endpoint,
        client: m.1.client@,
        payment: m.1.payment_config@,
        credit_cost: m.1.credit_cost,
    }
}

/// The names of entries.
pub open spec fn entry_names(entries: Seq<EntryView>) -> Seq<Seq<char>> {
    entries.map_values(|e: EntryView| e.name)
}

/// How a request to an endpoint is paid.
pub open spec fn endpoint_payment(c: GlobalConfig, e: ResolvedEndpoint) -> PaymentView {
    PaymentView {
        currency: if e.def.payment_currency@ == "starkbot"@ {
            CurrencyView::Starkbot {
                network: c@.starkbot_network,
                asset: c@.starkbot_token_address,
                symbol: c@.starkbot_token_symbol,
                decimals: c@.starkbot_token_decimals,
                name: c@.starkbot_token_name,
                version: c@.starkbot_token_version,
                facilitator_signer: c@.facilitator_signer,
            }
        } else {
            CurrencyView::Usdc { network: c@.usdc_network, asset: c@.usdc_token_address }
        },
        cost: e.def.cost@,
        pay_to: c@.bot_wallet_address,
        description: e.def.description@,
    }
}

/// The credits that a request to an endpoint costs: none where the credits
/// system is off.
pub open spec fn endpoint_cost(e: ResolvedEndpoint, credits_enabled: bool) -> i64 {
    if credits_enabled {
        e.def.credit_cost
    } else {
        0
    }
}

/// The entry of an endpoint.
pub open spec fn entry_of(c: GlobalConfig, e: ResolvedEndpoint, credits_enabled: bool) -> EntryView {
    EntryView {
        name: e.def.name@,
        endpoint: e,
        client: ClientView {
            endpoint: e.def.api_endpoint@,
            api_key: e.api_key@,
            default_model: e.def.model@,
            archetype: e.def.archetype@,
        },
        payment: endpoint_payment(c, e),
        credit_cost: endpoint_cost(e, credits_enabled),
    }
}

/// The first position from `i` on of an entry with a name.
pub open spec fn entry_from(entries: Seq<EntryView>, name: Seq<char>, i: int) -> Option<int>
    decreases entries.len() - i,
{
    if i < 0 || i >= entries.len() {
        None
    } else if entries[i].name == name {
        Some(i)
    } else {
        entry_from(entries, name, i + 1)
    }
}

/// The entries with one more, in place of the one with its name where there is
/// one.
pub open spec fn with_entry(entries: Seq<EntryView>, e: EntryView) -> Seq<EntryView> {
    match entry_from(entries, e.name, 0) {
        Some(i) => entries.update(i, e),
        None => entries.push(e),
    }
}

/// The entries of some endpoints; of those with one name the last one counts.
pub open spec fn registry_entries(
    c: GlobalConfig,
    es: Seq<ResolvedEndpoint>,
    credits_enabled: bool,
) -> Seq<EntryView>
    decreases es.len(),
{
    if es.len() == 0 {
        seq![]
    } else {
        with_entry(
            registry_entries(c, es.drop_last(), credits_enabled),
            entry_of(c, es.last(), credits_enabled),
        )
    }
}

/// The first name, from endpoint `i` on, of one that accepts credits.
pub open spec fn credits_model_from(
    es: Seq<ResolvedEndpoint>,
    credits_enabled: bool,
    i: int,
) -> Option<Seq<char>>
    decreases es.len() - i,
{
    if i < 0 || i >= es.len() {
        None
    } else if endpoint_cost(es[i], credits_enabled) > 0 && es[i].def.name@.len() > 0 {
        Some(es[i].def.name@)
    } else {
        credits_model_from(es, credits_enabled, i + 1)
    }
}

/// The model of requests that name none: the first one that accepts credits,
/// or else the first one.
pub open spec fn default_model_of(es: Seq<ResolvedEndpoint>, credits_enabled: bool) -> Seq<char> {
    match credits_model_from(es, credits_enabled, 0) {
        Some(n) => n,
        None => if es.len() > 0 {
            es[0].def.name@
        } else {
            ""@
        },
    }
}

/// `entry_from` gives a position with the name, or there is none.
proof fn lemma_entry_from(entries: Seq<EntryView>, name: Seq<char>, i: int)
    requires
        0 <= i <= entries.len(),
    ensures
        match entry_from(entries, name, i) {
            Some(k) => i <= k < entries.len() && entries[k].name == name,
            None => forall|k: int| i <= k < entries.len() ==> (#[trigger] entries[k]).name != name,
        },
    decreases entries.len() - i,
{
    if i < entries.len() && entries[i].name != name {
        lemma_entry_from(entries, name, i + 1);
    }
}

/// A registry has no name twice, whatever the endpoints.
pub proof fn law_names_are_distinct(
    c: GlobalConfig,
    es: Seq<ResolvedEndpoint>,
    credits_enabled: bool,
)
    ensures
        distinct_names(entry_names(registry_entries(c, es, credits_enabled))),
    decreases es.len(),
{
    if es.len() > 0 {
        law_names_are_distinct(c, es.drop_last(), credits_enabled);
        let before = registry_entries(c, es.drop_last(), credits_enabled);
        let e = entry_of(c, es.last(), credits_enabled);
        let after = registry_entries(c, es, credits_enabled);
        lemma_entry_from(before, e.name, 0);
        assert forall|i: int, j: int| 0 <= i < j < after.len() implies entry_names(after)[i]
            != entry_names(after)[j] by {
            if i < before.len() && j < before.len() {
                assert(entry_names(before)[i] != entry_names(before)[j]);
            }
        }
    }
}

/// Every endpoint has an entry under its name.
pub proof fn law_endpoints_are_registered(
    c: GlobalConfig,
    es: Seq<ResolvedEndpoint>,
    credits_enabled: bool,
    k: int,
)
    requires
        0 <= k < es.len(),
    ensures
        entry_names(registry_entries(c, es, credits_enabled)).contains(es[k].def.name@),
    decreases es.len(),
{
    let before = registry_entries(c, es.drop_last(), credits_enabled);
    let e = entry_of(c, es.last(), credits_enabled);
    let after = registry_entries(c, es, credits_enabled);
    lemma_entry_from(before, e.name, 0);
    if k == es.len() - 1 {
        let i = match entry_from(before, e.name, 0) {
            Some(i) => i,
            None => before.len() as int,
        };
        assert(entry_names(after)[i] == e.name);
    } else {
        law_endpoints_are_registered(c, es.drop_last(), credits_enabled, k);
        let name = es[k].def.name@;
        let i = choose|i: int| 0 <= i < before.len() && entry_names(before)[i] == name;
        assert(entry_names(after)[i] == name);
    }
}

/// `credits_model_from` gives the name of an endpoint.
proof fn lemma_credits_model(es: Seq<ResolvedEndpoint>, credits_enabled: bool, i: int) -> (k: int)
    requires
        0 <= i <= es.len(),
    ensures
        credits_model_from(es, credits_enabled, i) matches Some(n) ==> 0 <= k < es.len()
            && es[k].def.name@ == n,
    decreases es.len() - i,
{
    if i >= es.len() {
        i
    } else if endpoint_cost(es[i], credits_enabled) > 0 && es[i].def.name@.len() > 0 {
        i
    } else {
        lemma_credits_model(es, credits_enabled, i + 1)
    }
}

/// Where there are endpoints, a request that names no model finds one.
pub proof fn law_default_is_registered(
    c: GlobalConfig,
    es: Seq<ResolvedEndpoint>,
    credits_enabled: bool,
)
    requires
        es.len() > 0,
    ensures
        ({
            let names = entry_names(registry_entries(c, es, credits_enabled));
            let key = default_model_of(es, credits_enabled);
            lookup_in(names, key) is Some && names[lookup_in(names, key)->0] == key
        }),
{
    let names = entry_names(registry_entries(c, es, credits_enabled));
    let key = default_model_of(es, credits_enabled);
    let k = lemma_credits_model(es, credits_enabled, 0);
    if credits_model_from(es, credits_enabled, 0) is Some {
        law_endpoints_are_registered(c, es, credits_enabled, k);
    } else {
        law_endpoints_are_registered(c, es, credits_enabled, 0);
    }
    let i = choose|i: int| 0 <= i < names.len() && names[i] == key;
    law_model_is_found(names, i);
}

/// Puts an entry into a registry, in place of the one with its name.
fn put_entry(models: &mut Vec<(String, RegisteredEndpoint)>, name: String, e: RegisteredEndpoint)
    ensures
        entries_view(final(models)@) == with_entry(
            entries_view(old(models)@),
            entry_view((name, e)),
        ),
{
    let ghost before = models@;
    let ghost entry = entry_view((name, e));
    let mut i: usize = 0;
    while i < models.len()
        invariant
            i <= models@.len(),
            models@ == before,
            before == old(models)@,
            entry == entry_view((name, e)),
            entry_from(entries_view(before), name@, 0) == entry_from(
                entries_view(before),
                name@,
                i as int,
            ),
        decreases models@.len() - i,
    {
        if same_text(models[i].0.as_str(), name.as_str()) {
            assert(entries_view(before)[i as int].name == name@);
            models.set(i, (name, e));
            assert(entries_view(models@) =~= entries_view(before).update(i as int, entry));
            return ;
        }
        assert(entries_view(before)[i as int].name != name@);
        i += 1;
    }
    models.push((name, e));
    assert(entries_view(models@) =~= entries_view(before).push(entry));
}

/// Builds the registry of some endpoints.
pub fn build_registry(
    config: &GlobalConfig,
    endpoints: &Vec<ResolvedEndpoint>,
    credits_enabled: bool,
) -> (r: EndpointRegistry)
    ensures
        entries_view(r.models@) == registry_entries(*config, endpoints@, credits_enabled),
        r.default_model@ == default_model_of(endpoints@, credits_enabled),
        distinct_names(r.names()),
{
    let ghost es = endpoints@;
    let mut models: Vec<(String, RegisteredEndpoint)> = Vec::new();
    let mut default_model: Option<String> = None;
    let mut i: usize = 0;
    assert(es.take(0) =~= seq![]);
    assert(entries_view(models@) =~= seq![]);
    while i < endpoints.len()
        invariant
            i <= endpoints@.len(),
            es == endpoints@,
            entries_view(models@) == registry_entries(*config, es.take(i as int), credits_enabled),
            match default_model {
                Some(n) => credits_model_from(es, credits_enabled, 0) == Some(n@),
                None => credits_model_from(es, credits_enabled, 0) == credits_model_from(
                    es,
                    credits_enabled,
                    i as int,
                ),
            },
        decreases endpoints@.len() - i,
    {
        let ep = &endpoints[i];
        let client = InferenceClient::new(
            ep.def.api_endpoint.as_str(),
            ep.api_key.as_str(),
            ep.def.model.as_str(),
            ep.def.archetype.as_str(),
        );
        let payment_config = EndpointPaymentConfig::from_config_and_endpoint(config, &ep.def);
        let credit_cost: i64 = if credits_enabled {
            ep.def.credit_cost
        } else {
            0
        };
        let name = ep.def.name.clone();
        if default_model.is_none() && credit_cost > 0 && !name.as_str().is_empty() {
            default_model = Some(name.clone());
        }
        let e = RegisteredEndpoint { endpoint: ep.copy(), client, payment_config, credit_cost };
        assert(entry_view((name, e)) == entry_of(*config, es[i as int], credits_enabled));
        put_entry(&mut models, name, e);
        i += 1;
        assert(es.take(i as int).drop_last() =~= es.take(i - 1));
    }
    assert(es.take(i as int) =~= es);
    proof {
        law_names_are_distinct(*config, es, credits_enabled);
        assert(model_names(models@) =~= entry_names(entries_view(models@)));
    }
    let default_model = match default_model {
        Some(n) => n,
        None => if endpoints.len() > 0 {
            endpoints[0].def.name.clone()
        } else {
            "".to_owned()
        },
    };
    EndpointRegistry { models, default_model }
}

// ---------------------------------------------------------------------------
// The page at the root
// ---------------------------------------------------------------------------

/// Spaces that fill a text up to a width.
pub open spec fn fill(s: Seq<char>, width: nat) -> Seq<char> {
    Seq::new(
        if s.len() < width {
            (width - s.len()) as nat
        } else {
            0
        },
        |i: int| ' ',
    )
}

/// A text, filled up on the right.
pub open spec fn left_aligned(s: Seq<char>, width: nat) -> Seq<char> {
    s + fill(s, width)
}

/// A text, filled up on the left.
pub open spec fn right_aligned(s: Seq<char>, width: nat) -> Seq<char> {
    fill(s, width) + s
}

/// The line of a model, up to the description.
pub open spec fn model_line(name: Seq<char>, e: EntryView) -> Seq<char> {
    "  "@ + left_aligned(name, 16) + " "@ + right_aligned(e.endpoint.def.cost@, 5) + " "@
        + left_aligned(e.endpoint.def.payment_currency@, 10) + " "@ + e.endpoint.def.description@
}

/// The order of the entries by a key of each.
pub open spec fn entry_order(keys: Seq<Seq<char>>) -> Seq<int> {
    sorted_positions(keys, keys.len())
}

/// The lines of the first models in an order.
pub open spec fn model_lines(entries: Seq<EntryView>, order: Seq<int>, n: int) -> Seq<char>
    decreases n,
{
    if n <= 0 {
        ""@
    } else {
        let e = entries[order[n - 1]];
        model_lines(entries, order, n - 1) + (model_line(e.name, e) + "\n"@)
    }
}

/// The names of entries in lower case.
pub open spec fn lower_names(entries: Seq<EntryView>) -> Seq<Seq<char>> {
    entries.map_values(|e: EntryView| lowercase(e.name))
}

/// The text of a truth value.
pub open spec fn bool_text(b: bool) -> Seq<char> {
    if b {
        "true"@
    } else {
        "false"@
    }
}

/// The line of the default model, where it is there.
pub open spec fn default_line(entries: Seq<EntryView>, default_model: Seq<char>) -> Seq<char> {
    match entry_from(entries, default_model, 0) {
        Some(i) => model_line("auto"@, entries[i]) + " (default)\n"@,
        None => ""@,
    }
}

/// The part of the root page that does not change.
pub open spec fn usage_text() -> Seq<char> {
    "\n--- usage ---\n\n"@ + "  POST /chat  {\"model\": \"auto\", \"messages\": [...]}\n"@
        + "  POST /api/v1/chat/completions  (OpenAI-compatible)\n"@
        + "\n  \"model\" is required. Use \"auto\" for the default (credits-enabled) model.\n"@
        + "\n  \"payment_type\" is optional: \"auto\" (default), \"credits\", or \"x402\".\n"@
        + "    auto    \u{2014} try credits first (if ERC-8128 headers present), fall back to x402\n"@
        + "    credits \u{2014} only accept credits (requires ERC-8128 signed request)\n"@
        + "    x402    \u{2014} only accept x402 payment (requires X-PAYMENT header)\n"@
        + "\n  https://www.x402.org\n"@ + "\n--- system routes ---\n\n"@
        + "  GET /         this page\n"@ + "  GET /health   health check\n"@
        + "  GET /metrics  settlement & cache metrics\n"@
}

/// The page at the root.
pub open spec fn root_page(
    entries: Seq<EntryView>,
    default_model: Seq<char>,
    wallet: Seq<u8>,
    test_mode: bool,
    version: Seq<char>,
) -> Seq<char> {
    "inference-super-router\n"@ + "version: "@ + version + "\n"@ + "wallet: "@ + address_text(
        wallet,
    ) + "\n"@ + "test_mode: "@ + bool_text(test_mode) + "\n"@ + "\n--- models ---\n\n"@
        + model_lines(entries, entry_order(lower_names(entries)), entries.len() as int)
        + default_line(entries, default_model) + usage_text()
}

/// Appends spaces that fill a text up to a width.
fn append_fill(out: &mut String, s: &str, width: usize)
    ensures
        final(out)@ == old(out)@ + fill(s@, width as nat),
{
    let len: usize = chars_of(s).len();
    let ghost before = out@;
    let mut n: usize = len;
    assert(out@ =~= before + fill(s@, width as nat).take(0));
    while n < width
        invariant
            len <= n,
            len == s@.len(),
            n <= width || n == len,
            out@ == before + fill(s@, width as nat).take(n - len),
        decreases width - n,
    {
        out.push(' ');
        n += 1;
        assert(out@ =~= before + fill(s@, width as nat).take(n - len));
    }
    assert(fill(s@, width as nat).take(n - len) =~= fill(s@, width as nat));
}

/// The line of a model, up to the description.
fn make_model_line(name: &str, e: &RegisteredEndpoint) -> (r: String)
    ensures
        r@ == model_line(
            name@,
            EntryView {
                name: name@,
                endpoint: e.endpoint,
                client: e.client@,
                payment: e.payment_config@,
                credit_cost: e.credit_cost,
            },
        ),
{
    let mut shown = name.to_owned();
    append_fill(&mut shown, name, 16);
    let mut cost = "".to_owned();
    append_fill(&mut cost, e.endpoint.def.cost.as_str(), 5);
    cost.append(e.endpoint.def.cost.as_str());
    proof {
        reveal_strlit("");
        assert(cost@ =~= right_aligned(e.endpoint.def.cost@, 5));
    }
    let mut currency = e.endpoint.def.payment_currency.clone();
    append_fill(&mut currency, e.endpoint.def.payment_currency.as_str(), 10);
    let mut out = "  ".to_owned();
    out.append(shown.as_str());
    out.append(" ");
    out.append(cost.as_str());
    out.append(" ");
    out.append(currency.as_str());
    out.append(" ");
    out.append(e.endpoint.def.description.as_str());
    out
}

/// The part of the root page that does not change.
fn make_usage() -> (r: String)
    ensures
        r@ == usage_text(),
{
    let mut out = "\n--- usage ---\n\n".to_owned();
    out.append("  POST /chat  {\"model\": \"auto\", \"messages\": [...]}\n");
    out.append("  POST /api/v1/chat/completions  (OpenAI-compatible)\n");
    out.append("\n  \"model\" is required. Use \"auto\" for the default (credits-enabled) model.\n");
    out.append("\n  \"payment_type\" is optional: \"auto\" (default), \"credits\", or \"x402\".\n");
    out.append(
        "    auto    \u{2014} try credits first (if ERC-8128 headers present), fall back to x402\n",
    );
    out.append("    credits \u{2014} only accept credits (requires ERC-8128 signed request)\n");
    out.append("    x402    \u{2014} only accept x402 payment (requires X-PAYMENT header)\n");
    out.append("\n  https://www.x402.org\n");
    out.append("\n--- system routes ---\n\n");
    out.append("  GET /         this page\n");
    out.append("  GET /health   health check\n");
    out.append("  GET /metrics  settlement & cache metrics\n");
    out
}

/// The position of the entry with a name.
fn find_entry(models: &Vec<(String, RegisteredEndpoint)>, name: &str) -> (r: Option<usize>)
    ensures
        match r {
            Some(i) => i < models@.len() && entry_from(entries_view(models@), name@, 0) == Some(
                i as int,
            ),
            None => entry_from(entries_view(models@), name@, 0) is None,
        },
{
    let mut i: usize = 0;
    while i < models.len()
        invariant
            i <= models@.len(),
            entry_from(entries_view(models@), name@, 0) == entry_from(
                entries_view(models@),
                name@,
                i as int,
            ),
        decreases models@.len() - i,
    {
        assert(entries_view(models@)[i as int].name == models@[i as int].0@);
        if same_text(models[i].0.as_str(), name) {
            return Some(i);
        }
        i += 1;
    }
    None
}

/// The page at the root: the models in alphabetical order, whatever their
/// case, and how to use them.
pub fn root_handler(registry: &EndpointRegistry, config: &GlobalConfig, version: &str) -> (r: String)
    ensures
        r@ == root_page(
            entries_view(registry.models@),
            registry.default_model@,
            config@.bot_wallet_address,
            config@.test_mode,
            version@,
        ),
{
    let ghost entries = entries_view(registry.models@);
    let mut keys: Vec<String> = Vec::new();
    let mut i: usize = 0;
    while i < registry.models.len()
        invariant
            i <= registry.models@.len(),
            entries == entries_view(registry.models@),
            keys@.len() == i,
            forall|j: int| 0 <= j < i ==> (#[trigger] keys@[j])@ == lower_names(entries)[j],
        decreases registry.models@.len() - i,
    {
        assert(entries[i as int].name == registry.models@[i as int].0@);
        keys.push(to_lowercase(registry.models[i].0.as_str()));
        i += 1;
    }
    assert(keys_view(keys@) =~= lower_names(entries));
    let order = sort_positions(&keys);
    let ghost positions = entry_order(lower_names(entries));
    let mut lines = "".to_owned();
    let mut k: usize = 0;
    while k < order.len()
        invariant
            k <= order@.len(),
            order@.len() == registry.models@.len(),
            entries == entries_view(registry.models@),
            positions == positions_view(order@),
            forall|j: int| 0 <= j < order@.len() ==> #[trigger] order@[j] < registry.models@.len(),
            lines@ == model_lines(entries, positions, k as int),
        decreases order@.len() - k,
    {
        let p: usize = order[k];
        assert(positions[k as int] == p);
        let mut line = make_model_line(registry.models[p].0.as_str(), &registry.models[p].1);
        line.append("\n");
        lines.append(line.as_str());
        k += 1;
    }
    let last = match find_entry(&registry.models, registry.default_model.as_str()) {
        Some(d) => {
            let mut line = make_model_line("auto", &registry.models[d].1);
            line.append(" (default)\n");
            line
        },
        None => "".to_owned(),
    };
    let mut out = "inference-super-router\n".to_owned();
    out.append("version: ");
    out.append(version);
    out.append("\n");
    out.append("wallet: ");
    out.append(config.bot_wallet_address.to_hex().as_str());
    out.append("\n");
    out.append("test_mode: ");
    if config.test_mode {
        out.append("true");
    } else {
        out.append("false");
    }
    out.append("\n");
    out.append("\n--- models ---\n\n");
    out.append(lines.as_str());
    out.append(last.as_str());
    out.append(make_usage().as_str());
    out
}

// ---------------------------------------------------------------------------
// The catalog of endpoints
// ---------------------------------------------------------------------------

/// The URL of the service, without slashes at its end.
pub open spec fn service_url(base_url: Option<Seq<char>>) -> Seq<char> {
    trim_end_char(
        match base_url {
            Some(u) => u,
            None => "https://inference.defirelay.com"@,
        },
        '/',
    )
}

/// The entry of a model in the catalog.
pub open spec fn catalog_entry(e: EntryView, base_url: Seq<char>) -> JsonView {
    let def = e.endpoint.def;
    JsonView::Object(
        map![
            "id"@ => JsonView::Text(e.name),
            "display_name"@ => JsonView::Text(def.description@),
            "endpoint"@ => JsonView::Text(
                base_url + trim_end_char(def.route_prefix@, '/') + "/api/v1/chat/completions"@,
            ),
            "model_archetype"@ => JsonView::Text(def.archetype@),
            "model"@ => JsonView::Text(e.name),
            "x402_cost"@ => number(
                match number_up_to(def.cost@, u64::MAX as nat) {
                    Some(n) => n as int,
                    None => 0,
                },
            ),
            "credit_cost"@ => number(def.credit_cost as int),
            "max_input_tokens"@ => number(def.max_input_tokens as int),
            "max_output_tokens"@ => number(def.max_output_tokens as int),
        ],
    )
}

/// The catalog: the models in alphabetical order.
pub open spec fn catalog(entries: Seq<EntryView>, base_url: Option<Seq<char>>) -> JsonView {
    JsonView::List(
        entry_order(entry_names(entries)).map_values(
            |i: int| catalog_entry(entries[i], service_url(base_url)),
        ),
    )
}

/// The catalog of endpoints.
pub fn endpoints_handler(registry: &EndpointRegistry, config: &GlobalConfig) -> (r: Json)
    ensures
        r@ == catalog(entries_view(registry.models@), config@.base_url),
{
    let ghost entries = entries_view(registry.models@);
    let base_url = match &config.base_url {
        Some(u) => trim_end_of(u.as_str(), '/'),
        None => trim_end_of("https://inference.defirelay.com", '/'),
    };
    let mut keys: Vec<String> = Vec::new();
    let mut i: usize = 0;
    while i < registry.models.len()
        invariant
            i <= registry.models@.len(),
            entries == entries_view(registry.models@),
            keys@.len() == i,
            forall|j: int| 0 <= j < i ==> (#[trigger] keys@[j])@ == entry_names(entries)[j],
        decreases registry.models@.len() - i,
    {
        assert(entries[i as int].name == registry.models@[i as int].0@);
        keys.push(registry.models[i].0.clone());
        i += 1;
    }
    assert(keys_view(keys@) =~= entry_names(entries));
    let order = sort_positions(&keys);
    let ghost positions = entry_order(entry_names(entries));
    let ghost url = service_url(config@.base_url);
    let mut out: Vec<Json> = Vec::new();
    let mut k: usize = 0;
    while k < order.len()
        invariant
            k <= order@.len(),
            order@.len() == registry.models@.len(),
            entries == entries_view(registry.models@),
            positions == positions_view(order@),
            base_url@ == url,
            forall|j: int| 0 <= j < order@.len() ==> #[trigger] order@[j] < registry.models@.len(),
            out@.len() == k,
            forall|j: int|
                0 <= j < k ==> (#[trigger] out@[j])@ == catalog_entry(entries[positions[j]], url),
        decreases order@.len() - k,
    {
        let p: usize = order[k];
        assert(positions[k as int] == p);
        let name = registry.models[p].0.as_str();
        let def = &registry.models[p].1.endpoint.def;
        let mut endpoint = base_url.clone();
        endpoint.append(trim_end_of(def.route_prefix.as_str(), '/').as_str());
        endpoint.append("/api/v1/chat/completions");
        let cost: u64 = match parse_decimal(def.cost.as_str(), 0xffff_ffff_ffff_ffff) {
            Some(n) => n as u64,
            None => 0,
        };
        let mut o = JsonObject::new();
        o.put("id", Json::str(name));
        o.put("display_name", Json::str(def.description.as_str()));
        o.put("endpoint", Json::str(endpoint.as_str()));
        o.put("model_archetype", Json::str(def.archetype.as_str()));
        o.put("model", Json::str(name));
        o.put("x402_cost", Json::unsigned(cost));
        o.put("credit_cost", Json::signed(def.credit_cost));
        o.put("max_input_tokens", Json::unsigned(def.max_input_tokens as u64));
        o.put("max_output_tokens", Json::unsigned(def.max_output_tokens as u64));
        let j = Json::Object(o);
        assert(j@ == catalog_entry(entries[p as int], url));
        out.push(j);
        k += 1;
    }
    assert(positions.len() == order@.len());
    assert(list_content(out@) =~= positions.map_values(
        |i: int| catalog_entry(entries[i], service_url(config@.base_url)),
    ));
    json_list(out)
}

// ---------------------------------------------------------------------------
// Health and metrics
// ---------------------------------------------------------------------------

/// The reply of the health check; a service without a queue has depth 0.
pub open spec fn health(queue_depth: int) -> JsonView {
    JsonView::Object(
        map![
            "status"@ => JsonView::Text("healthy"@),
            "service"@ => JsonView::Text("inference-super-router"@),
            "settlement_queue_depth"@ => number(queue_depth),
        ],
    )
}

/// The reply of the health check.
pub fn health_handler(queue: Option<&SettlementQueue>) -> (r: Json)
    ensures
        r@ == health(
            match queue {
                Some(q) => active(q@.store) as int,
                None => 0,
            },
        ),
{
    let depth: usize = match queue {
        Some(q) => q.len(),
        None => 0,
    };
    let mut o = JsonObject::new();
    o.put("status", Json::str("healthy"));
    o.put("service", Json::str("inference-super-router"));
    o.put("settlement_queue_depth", Json::unsigned(depth as u64));
    Json::Object(o)
}

/// The metrics of the service. `hit_rate` is the share of hits, a fraction
/// that is only passed on.
pub open spec fn metrics(
    q: QueueView,
    m: SettlementMetrics,
    c: CacheView,
    hit_rate: JsonView,
) -> JsonView {
    let pending = q.store.count(SettlementStatus::Pending) as int;
    let in_progress = q.store.count(SettlementStatus::InProgress) as int;
    let completed = q.store.count(SettlementStatus::Completed) as int;
    let failed = q.store.count(SettlementStatus::Failed) as int;
    JsonView::Object(
        map![
            "settlement_queue"@ => JsonView::Object(
                map![
                    "pending"@ => number(pending),
                    "in_progress"@ => number(in_progress),
                    "max_size"@ => number(q.max_size as int),
                    "is_full"@ => JsonView::Bool(q.full()),
                ],
            ),
            "settlement_store"@ => JsonView::Object(
                map![
                    "pending"@ => number(pending),
                    "in_progress"@ => number(in_progress),
                    "completed"@ => number(completed),
                    "failed"@ => number(failed),
                    "total"@ => number(pending + in_progress + completed + failed),
                ],
            ),
            "settlement_worker"@ => JsonView::Object(
                map![
                    "total_processed"@ => number(m.total_processed as int),
                    "success_count"@ => number(m.success_count as int),
                    "failure_count"@ => number(m.failure_count as int),
                    "retry_count"@ => number(m.retry_count as int),
                ],
            ),
            "verification_cache"@ => JsonView::Object(
                map![
                    "hits"@ => number(c.hits as int),
                    "misses"@ => number(c.misses as int),
                    "downgrades"@ => number(c.downgrades as int),
                    "hit_rate"@ => hit_rate,
                ],
            ),
        ],
    )
}

/// Each row has one of the statuses.
proof fn lemma_counts_add_up(rows: Seq<SettlementView>)
    ensures
        count_status(rows, SettlementStatus::Pending) + count_status(
            rows,
            SettlementStatus::InProgress,
        ) + count_status(rows, SettlementStatus::Completed) + count_status(
            rows,
            SettlementStatus::Failed,
        ) == rows.len(),
    decreases rows.len(),
{
    if rows.len() > 0 {
        lemma_counts_add_up(rows.drop_last());
    }
}

/// The metrics of the service.
pub fn metrics_handler(
    queue: &SettlementQueue,
    worker: &SettlementMetrics,
    cache: &VerificationCache,
    hit_rate: Json,
) -> (r: Json)
    requires
        queue@.store.valid(),
    ensures
        r@ == metrics(queue@, *worker, cache@, hit_rate@),
{
    let (pending, in_progress, completed, failed) = queue.get_status_counts();
    let (total, success, failure, retries) = worker.get_stats();
    let (hits, misses, downgrades) = cache.stats();
    proof {
        lemma_counts_add_up(queue@.store.rows);
    }
    let mut q = JsonObject::new();
    q.put("pending", Json::signed(pending));
    q.put("in_progress", Json::signed(in_progress));
    q.put("max_size", Json::unsigned(queue.max_size() as u64));
    q.put("is_full", Json::Bool(queue.is_full()));
    let mut s = JsonObject::new();
    s.put("pending", Json::signed(pending));
    s.put("in_progress", Json::signed(in_progress));
    s.put("completed", Json::signed(completed));
    s.put("failed", Json::signed(failed));
    s.put("total", Json::signed(pending + in_progress + completed + failed));
    let mut w = JsonObject::new();
    w.put("total_processed", Json::unsigned(total));
    w.put("success_count", Json::unsigned(success));
    w.put("failure_count", Json::unsigned(failure));
    w.put("retry_count", Json::unsigned(retries));
    let mut c = JsonObject::new();
    c.put("hits", Json::unsigned(hits));
    c.put("misses", Json::unsigned(misses));
    c.put("downgrades", Json::unsigned(downgrades));
    c.put("hit_rate", hit_rate);
    let mut o = JsonObject::new();
    o.put("settlement_queue", Json::Object(q));
    o.put("settlement_store", Json::Object(s));
    o.put("settlement_worker", Json::Object(w));
    o.put("verification_cache", Json::Object(c));
    Json::Object(o)
}

// ---------------------------------------------------------------------------
// Credits
// ---------------------------------------------------------------------------

/// What is to be done with a request about credits.
pub enum AccountStep {
    /// Reply this.
    Answer(Reply),
    /// Ask for the balance of a wallet, which is on a chain.
    AskBalance { wallet: String, chain_id: u64 },
    /// Create a session for a wallet.
    CreateSession { wallet: String, chain_id: u64 },
}

/// What is to be done with a request about credits.
pub enum AccountStepView {
    Answer(ReplyView),
    AskBalance { wallet: Seq<char>, chain_id: u64 },
    CreateSession { wallet: Seq<char>, chain_id: u64 },
}

impl View for AccountStep {
    type V = AccountStepView;

    open spec fn view(&self) -> AccountStepView {
        match self {
            AccountStep::Answer(r) => AccountStepView::Answer(r@),
            AccountStep::AskBalance { wallet, chain_id } => AccountStepView::AskBalance {
                wallet: wallet@,
                chain_id: *chain_id,
            },
            AccountStep::CreateSession { wallet, chain_id } => AccountStepView::CreateSession {
                wallet: wallet@,
                chain_id: *chain_id,
            },
        }
    }
}

/// The reply where the credits system is off.
pub open spec fn credits_off() -> ReplyView {
    error_reply(503, "Credits system not enabled"@)
}

/// What is done with a request for a balance: the session of its token counts,
/// where it brings one, and its signature otherwise. `session` is what is
/// known of the session, where there is one.
pub open spec fn balance_request(
    credits_enabled: bool,
    r: SignedRequestView,
    now: int,
    session: Option<SessionView>,
) -> AccountStepView {
    if !credits_enabled {
        AccountStepView::Answer(credits_off())
    } else if bearer_token(r.headers) is Some {
        match session {
            Some(s) => AccountStepView::AskBalance {
                wallet: s.wallet_address,
                chain_id: s.chain_id,
            },
            None => AccountStepView::Answer(
                error_reply(401, "Invalid or expired session token"@),
            ),
        }
    } else {
        match verified(r, now) {
            Ok(id) => AccountStepView::AskBalance {
                wallet: id.wallet_address,
                chain_id: id.chain_id,
            },
            Err(e) => AccountStepView::Answer(
                error_reply(
                    401,
                    "Bearer token or ERC-8128 signature required: "@ + error_message(e),
                ),
            ),
        }
    }
}

/// Whether something can be known of the session of a token.
pub open spec fn session_may_say(
    created: Map<Seq<char>, SessionView>,
    token: Option<Seq<char>>,
    session: Option<SessionView>,
) -> bool {
    session is Some ==> token is Some && created.contains_key(token->0) && session->0
        == created[token->0]
}

/// An error reply with a message made of two parts.
fn refusal(status: u16, front: &str, e: &str) -> (r: AccountStep)
    ensures
        r@ == AccountStepView::Answer(error_reply(status, front@ + e@)),
{
    let mut m = front.to_owned();
    m.append(e);
    AccountStep::Answer(Reply::error(status, m.as_str()))
}

/// Decides what is done with a request for a balance that carries a token,
/// given the session of the token.
pub fn balance_session_known(session: Option<SessionInfo>) -> (r: AccountStep)
    ensures
        r@ == (match session {
            Some(s) => AccountStepView::AskBalance {
                wallet: s.wallet_address@,
                chain_id: s.chain_id,
            },
            None => AccountStepView::Answer(
                error_reply(401, "Invalid or expired session token"@),
            ),
        }),
{
    match session {
        Some(info) => AccountStep::AskBalance {
            wallet: info.wallet_address,
            chain_id: info.chain_id,
        },
        None => AccountStep::Answer(Reply::error(401, "Invalid or expired session token")),
    }
}

/// Decides what is done with a request for a balance, at a time in seconds.
pub fn credits_balance_handler(
    credits_enabled: bool,
    sessions: &SessionManager,
    req: &HttpRequest,
    now: i64,
) -> (r: AccountStep)
    requires
        credits_enabled && bearer_token(req.headers@) is None ==> signed_request(
            *req,
            seq![],
        ).in_order(),
        now <= i64::MAX - 60,
    ensures
        exists|session: Option<SessionView>|
            session_may_say(sessions@.created, bearer_token(req.headers@), session) && r@
                == #[trigger] balance_request(
                credits_enabled,
                signed_request(*req, seq![]),
                now as int,
                session,
            ),
{
    let ghost q = signed_request(*req, seq![]);
    let ghost none: Option<SessionView> = None;
    if !credits_enabled {
        let step = AccountStep::Answer(Reply::error(503, "Credits system not enabled"));
        assert(step@ == balance_request(credits_enabled, q, now as int, none));
        return step;
    }
    if let Some(token) = extract_bearer_token(&req.headers) {
        let found = sessions.validate(token.as_str());
        let ghost session = if found is Some {
            Some(found->0@)
        } else {
            None
        };
        let step = balance_session_known(found);
        assert(step@ == balance_request(credits_enabled, q, now as int, session));
        return step;
    }
    let empty: Vec<u8> = Vec::new();
    assert(empty@ =~= seq![]);
    let step = match verify_at(req, empty.as_slice(), now) {
        Ok(id) => AccountStep::AskBalance { wallet: id.wallet_address, chain_id: id.chain_id },
        Err(e) => refusal(
            401,
            "Bearer token or ERC-8128 signature required: ",
            e.to_string().as_str(),
        ),
    };
    assert(step@ == balance_request(credits_enabled, q, now as int, none));
    step
}

/// The reply that states a balance, or that it could not be had.
pub open spec fn balance_reply(wallet: Seq<char>, balance: Result<i64, Seq<char>>) -> ReplyView {
    match balance {
        Ok(n) => json_reply(
            200,
            JsonView::Object(
                map!["credits"@ => number(n as int), "address"@ => JsonView::Text(wallet)],
            ),
        ),
        Err(_) => error_reply(500, "Failed to fetch credit balance"@),
    }
}

/// The reply that states a balance.
pub fn show_balance(wallet: &str, balance: Result<i64, String>) -> (r: Reply)
    ensures
        r@ == balance_reply(wallet@, balance_view(balance)),
{
    match balance {
        Ok(n) => {
            let mut o = JsonObject::new();
            o.put("credits", Json::signed(n));
            o.put("address", Json::str(wallet));
            Reply::json(200, Json::Object(o))
        },
        Err(_) => Reply::error(500, "Failed to fetch credit balance"),
    }
}

/// What is done with a request for a session, given what its signature gives.
pub open spec fn session_request(
    credits_enabled: bool,
    identity: Result<IdentityView, ErrorView>,
) -> AccountStepView {
    if !credits_enabled {
        AccountStepView::Answer(credits_off())
    } else {
        match identity {
            Ok(id) => AccountStepView::AskBalance {
                wallet: lowercase(id.wallet_address),
                chain_id: id.chain_id,
            },
            Err(e) => AccountStepView::Answer(
                error_reply(401, "ERC-8128 signature required: "@ + error_message(e)),
            ),
        }
    }
}

/// Decides what is done with a request for a session, given what its signature
/// gives.
pub fn session_for(credits_enabled: bool, identity: Result<Erc8128Identity, Erc8128Error>) -> (r: AccountStep)
    ensures
        r@ == session_request(
            credits_enabled,
            match identity {
                Ok(id) => Ok::<IdentityView, ErrorView>(id@),
                Err(e) => Err::<IdentityView, ErrorView>(e@),
            },
        ),
{
    if !credits_enabled {
        return AccountStep::Answer(Reply::error(503, "Credits system not enabled"));
    }
    match identity {
        Ok(id) => AccountStep::AskBalance {
            wallet: to_lowercase(id.wallet_address.as_str()),
            chain_id: id.chain_id,
        },
        Err(e) => refusal(401, "ERC-8128 signature required: ", e.to_string().as_str()),
    }
}

/// Decides what is done with a request for a session, at a time in seconds.
pub fn credits_session_handler(credits_enabled: bool, req: &HttpRequest, body: &[u8], now: i64) -> (r: AccountStep)
    requires
        credits_enabled ==> signed_request(*req, body@).in_order(),
        now <= i64::MAX - 60,
    ensures
        r@ == session_request(credits_enabled, verified(signed_request(*req, body@), now as int)),
{
    if !credits_enabled {
        return AccountStep::Answer(Reply::error(503, "Credits system not enabled"));
    }
    session_for(credits_enabled, verify_at(req, body, now))
}

/// What follows from the balance of a wallet that asks for a session: only one
/// with credits gets it.
pub open spec fn session_balance(
    wallet: Seq<char>,
    chain_id: u64,
    balance: Result<i64, Seq<char>>,
) -> AccountStepView {
    match balance {
        Ok(n) => if n > 0 {
            AccountStepView::CreateSession { wallet, chain_id }
        } else {
            AccountStepView::Answer(
                json_reply(
                    402,
                    JsonView::Object(
                        map![
                            "error"@ => JsonView::Text(
                                "No credits available (balance: "@ + signed_decimal(n as int)
                                    + ")"@,
                            ),
                            "credits"@ => number(n as int),
                            "address"@ => JsonView::Text(wallet),
                        ],
                    ),
                ),
            )
        },
        Err(_) => AccountStepView::Answer(error_reply(500, "Failed to check credit balance"@)),
    }
}

/// Decides on the balance of a wallet that asks for a session.
pub fn session_balance_known(wallet: String, chain_id: u64, balance: Result<i64, String>) -> (r: AccountStep)
    ensures
        r@ == session_balance(wallet@, chain_id, balance_view(balance)),
{
    match balance {
        Ok(n) => {
            if n > 0 {
                AccountStep::CreateSession { wallet, chain_id }
            } else {
                let mut m = "No credits available (balance: ".to_owned();
                m.append(signed_decimal_text(n).as_str());
                m.append(")");
                let mut o = JsonObject::new();
                o.put("error", Json::str(m.as_str()));
                o.put("credits", Json::signed(n));
                o.put("address", Json::str(wallet.as_str()));
                AccountStep::Answer(Reply::json(402, Json::Object(o)))
            }
        },
        Err(_) => AccountStep::Answer(Reply::error(500, "Failed to check credit balance")),
    }
}

/// The reply with a session that was created.
pub fn show_session(token: &str, expires_at: i64, wallet: &str) -> (r: Reply)
    ensures
        r@ == json_reply(
            200,
            JsonView::Object(
                map![
                    "session_token"@ => JsonView::Text(token@),
                    "expires_at"@ => number(expires_at as int),
                    "wallet"@ => JsonView::Text(wallet@),
                ],
            ),
        ),
{
    let mut o = JsonObject::new();
    o.put("session_token", Json::str(token));
    o.put("expires_at", Json::signed(expires_at));
    o.put("wallet", Json::str(wallet));
    Reply::json(200, Json::Object(o))
}

// ---------------------------------------------------------------------------
// Laws
// ---------------------------------------------------------------------------

/// The names that the pages use differ.
proof fn lemma_page_names()
    ensures
        "id"@.len() == 2,
        "display_name"@.len() == 12,
        "endpoint"@.len() == 8,
        "model_archetype"@.len() == 15,
        "model"@.len() == 5,
        "x402_cost"@.len() == 9,
        "credit_cost"@.len() == 11,
        "max_input_tokens"@.len() == 16,
        "max_output_tokens"@.len() == 17,
        "status"@.len() == 6,
        "service"@.len() == 7,
        "settlement_queue_depth"@.len() == 22,
        "settlement_queue"@.len() == 16,
        "settlement_store"@.len() == 16,
        "settlement_worker"@.len() == 17,
        "verification_cache"@.len() == 18,
        "pending"@.len() == 7,
        "in_progress"@.len() == 11,
        "max_size"@.len() == 8,
        "is_full"@.len() == 7,
        "completed"@.len() == 9,
        "failed"@.len() == 6,
        "total"@.len() == 5,
        "total_processed"@.len() == 15,
        "success_count"@.len() == 13,
        "failure_count"@.len() == 13,
        "retry_count"@.len() == 11,
        "hits"@.len() == 4,
        "misses"@.len() == 6,
        "downgrades"@.len() == 10,
        "hit_rate"@.len() == 8,
        "credits"@.len() == 7,
        "address"@.len() == 7,
        "error"@.len() == 5,
        "model"@[0] == 'm',
        "total"@[0] == 't',
        "error"@[0] == 'e',
        "status"@[0] == 's',
        "failed"@[0] == 'f',
        "misses"@[0] == 'm',
        "service"@[0] == 's',
        "pending"@[0] == 'p',
        "is_full"@[0] == 'i',
        "credits"@[0] == 'c',
        "address"@[0] == 'a',
        "endpoint"@[0] == 'e',
        "max_size"@[0] == 'm',
        "hit_rate"@[0] == 'h',
        "x402_cost"@[0] == 'x',
        "completed"@[0] == 'c',
        "credit_cost"@[0] == 'c',
        "in_progress"@[0] == 'i',
        "retry_count"@[0] == 'r',
        "success_count"@[0] == 's',
        "failure_count"@[0] == 'f',
        "model_archetype"@[0] == 'm',
        "total_processed"@[0] == 't',
        "max_input_tokens"@[11] == 'o',
        "settlement_queue"@[11] == 'q',
        "settlement_store"@[11] == 's',
        "max_output_tokens"@[0] == 'm',
        "settlement_worker"@[0] == 's',
{
    reveal_strlit("id");
    reveal_strlit("display_name");
    reveal_strlit("endpoint");
    reveal_strlit("model_archetype");
    reveal_strlit("model");
    reveal_strlit("x402_cost");
    reveal_strlit("credit_cost");
    reveal_strlit("max_input_tokens");
    reveal_strlit("max_output_tokens");
    reveal_strlit("status");
    reveal_strlit("service");
    reveal_strlit("settlement_queue_depth");
    reveal_strlit("settlement_queue");
    reveal_strlit("settlement_store");
    reveal_strlit("settlement_worker");
    reveal_strlit("verification_cache");
    reveal_strlit("pending");
    reveal_strlit("in_progress");
    reveal_strlit("max_size");
    reveal_strlit("is_full");
    reveal_strlit("completed");
    reveal_strlit("failed");
    reveal_strlit("total");
    reveal_strlit("total_processed");
    reveal_strlit("success_count");
    reveal_strlit("failure_count");
    reveal_strlit("retry_count");
    reveal_strlit("hits");
    reveal_strlit("misses");
    reveal_strlit("downgrades");
    reveal_strlit("hit_rate");
    reveal_strlit("credits");
    reveal_strlit("address");
    reveal_strlit("error");
}

/// The entry of an endpoint takes over what the endpoint and the settings say:
/// the upstream API with its key, model and protocol; the payment in the
/// currency that the endpoint names, of its cost, to the wallet of the service;
/// and its cost in credits, where credits are on.
pub proof fn law_entry_follows_the_endpoint(
    c: GlobalConfig,
    e: ResolvedEndpoint,
    credits_enabled: bool,
)
    ensures
        ({
            let entry = entry_of(c, e, credits_enabled);
            let p = entry.payment;
            &&& entry.name == e.def.name@
            &&& entry.endpoint == e
            &&& entry.client.endpoint == e.def.api_endpoint@
            &&& entry.client.api_key == e.api_key@
            &&& entry.client.default_model == e.def.model@
            &&& entry.client.archetype == e.def.archetype@
            &&& entry.credit_cost == if credits_enabled {
                e.def.credit_cost
            } else {
                0
            }
            &&& p.cost == e.def.cost@
            &&& p.pay_to == c.bot_wallet_address.0@
            &&& p.description == e.def.description@
            &&& e.def.payment_currency@ != "starkbot"@ ==> p.currency == (CurrencyView::Usdc {
                network: c.usdc_network@,
                asset: c.usdc_token_address.0@,
            })
            &&& e.def.payment_currency@ == "starkbot"@ ==> p.currency == (CurrencyView::Starkbot {
                network: c.starkbot_network@,
                asset: c.starkbot_token_address@,
                symbol: c.starkbot_token_symbol@,
                decimals: c.starkbot_token_decimals,
                name: c.starkbot_token_name@,
                version: c.starkbot_token_version@,
                facilitator_signer: c.facilitator_signer@,
            })
        }),
{
}

/// Registering one more endpoint gives it the entry of its name; the entries of
/// other names stay as they are, in their places.
pub proof fn law_last_endpoint_counts(
    c: GlobalConfig,
    es: Seq<ResolvedEndpoint>,
    e: ResolvedEndpoint,
    credits_enabled: bool,
    i: int,
)
    ensures
        ({
            let before = registry_entries(c, es, credits_enabled);
            let after = registry_entries(c, es.push(e), credits_enabled);
            &&& after.contains(entry_of(c, e, credits_enabled))
            &&& 0 <= i < before.len() && before[i].name != e.def.name@ ==> after[i] == before[i]
            &&& before.len() <= after.len() <= before.len() + 1
        }),
{
    let before = registry_entries(c, es, credits_enabled);
    let entry = entry_of(c, e, credits_enabled);
    assert(es.push(e).drop_last() =~= es);
    let after = registry_entries(c, es.push(e), credits_enabled);
    assert(after == with_entry(before, entry));
    lemma_entry_from(before, entry.name, 0);
    let k = match entry_from(before, entry.name, 0) {
        Some(k) => k,
        None => before.len() as int,
    };
    assert(after[k] == entry);
}

/// `credits_model_from` gives the name of the first endpoint that takes credits
/// and has a name.
proof fn lemma_first_with_credits(
    es: Seq<ResolvedEndpoint>,
    credits_enabled: bool,
    i: int,
    k: int,
)
    requires
        0 <= i <= k <= es.len(),
        forall|j: int|
            i <= j < k ==> !(credits_enabled && (#[trigger] es[j]).def.credit_cost > 0
                && es[j].def.name@.len() > 0),
        k < es.len() ==> credits_enabled && es[k].def.credit_cost > 0 && es[k].def.name@.len() > 0,
    ensures
        credits_model_from(es, credits_enabled, i) == if k < es.len() {
            Some(es[k].def.name@)
        } else {
            None
        },
    decreases k - i,
{
    if i < k {
        assert(!(credits_enabled && es[i].def.credit_cost > 0 && es[i].def.name@.len() > 0));
        lemma_first_with_credits(es, credits_enabled, i + 1, k);
    }
}

/// The model of requests that name none is the first one that takes credits,
/// where credits are on and there is one; else it is the first one.
pub proof fn law_default_model(es: Seq<ResolvedEndpoint>, credits_enabled: bool, k: int)
    requires
        0 <= k <= es.len(),
        forall|j: int|
            0 <= j < k ==> !(credits_enabled && (#[trigger] es[j]).def.credit_cost > 0
                && es[j].def.name@.len() > 0),
    ensures
        k < es.len() && credits_enabled && es[k].def.credit_cost > 0 && es[k].def.name@.len() > 0
            ==> default_model_of(es, credits_enabled) == es[k].def.name@,
        k == es.len() && es.len() > 0 ==> default_model_of(es, credits_enabled) == es[0].def.name@,
{
    if k == es.len() || (credits_enabled && es[k].def.credit_cost > 0 && es[k].def.name@.len() > 0) {
        lemma_first_with_credits(es, credits_enabled, 0, k);
    }
}

/// The catalog lists every model once, in alphabetical order, each with what
/// its definition says and with the address under which it is reached.
pub proof fn law_catalog(entries: Seq<EntryView>, base_url: Option<Seq<char>>)
    ensures
        catalog(entries, base_url) is List,
        ({
            let items = catalog(entries, base_url)->List_0;
            let order = sorted_positions(entry_names(entries), entries.len());
            &&& items.len() == entries.len()
            &&& in_order(entry_names(entries), order)
            &&& order.to_multiset() == Seq::new(entries.len(), |i: int| i).to_multiset()
            &&& forall|i: int|
                0 <= i < items.len() ==> is_listed(#[trigger] items[i], entries[order[i]], base_url)
        }),
{
    let names = entry_names(entries);
    law_sorted(names, names.len());
    lemma_sorted_len(names, names.len());
    let items = catalog(entries, base_url)->List_0;
    let order = sorted_positions(names, entries.len());
    assert forall|i: int| 0 <= i < items.len() implies is_listed(
        #[trigger] items[i],
        entries[order[i]],
        base_url,
    ) by {
        lemma_page_names();
        assert(items[i] == catalog_entry(entries[order[i]], service_url(base_url)));
        assert(number_up_to(entries[order[i]].endpoint.def.cost@, u64::MAX as nat) is Some
            ==> decimal_value(entries[order[i]].endpoint.def.cost@) is Some);
    }
}

/// Whether a value lists a model: under its name, with its description, its
/// protocol, its costs and its limits, and with the address of its route.
pub open spec fn is_listed(j: JsonView, e: EntryView, base_url: Option<Seq<char>>) -> bool {
    let def = e.endpoint.def;
    let base = match base_url {
        Some(u) => u,
        None => "https://inference.defirelay.com"@,
    };
    let cost = decimal_value(def.cost@);
    &&& j.field("id"@) == Some(JsonView::Text(e.name))
    &&& j.field("model"@) == Some(JsonView::Text(e.name))
    &&& j.field("display_name"@) == Some(JsonView::Text(def.description@))
    &&& j.field("endpoint"@) == Some(
        JsonView::Text(
            trim_end_char(base, '/') + trim_end_char(def.route_prefix@, '/')
                + "/api/v1/chat/completions"@,
        ),
    )
    &&& j.field("model_archetype"@) == Some(JsonView::Text(def.archetype@))
    &&& cost is Some && cost->0 <= u64::MAX ==> j.field("x402_cost"@) == Some(number(cost->0 as int))
    &&& cost is None || cost->0 > u64::MAX ==> j.field("x402_cost"@) == Some(number(0))
    &&& j.field("credit_cost"@) == Some(number(def.credit_cost as int))
    &&& j.field("max_input_tokens"@) == Some(number(def.max_input_tokens as int))
    &&& j.field("max_output_tokens"@) == Some(number(def.max_output_tokens as int))
}

/// The health check says that the service is healthy, which one it is, and how
/// many settlements are pending or in progress.
pub proof fn law_health(depth: int)
    ensures
        ({
            let j = health(depth);
            &&& j.field("status"@) == Some(JsonView::Text("healthy"@))
            &&& j.field("service"@) == Some(JsonView::Text("inference-super-router"@))
            &&& j.field("settlement_queue_depth"@) == Some(number(depth))
        }),
{
    lemma_page_names();
}

/// The metrics state the counts of the queue, the table, the worker and the
/// cache, each under its own name; the counts of the table add up to its rows.
pub proof fn law_metrics(q: QueueView, m: SettlementMetrics, c: CacheView, hit_rate: JsonView)
    ensures
        ({
            let j = metrics(q, m, c, hit_rate);
            let queue = j.field("settlement_queue"@)->0;
            let store = j.field("settlement_store"@)->0;
            let worker = j.field("settlement_worker"@)->0;
            let cache = j.field("verification_cache"@)->0;
            let pending = Some(number(q.store.count(SettlementStatus::Pending) as int));
            let in_progress = Some(number(q.store.count(SettlementStatus::InProgress) as int));
            &&& j.field("settlement_queue"@) is Some
            &&& j.field("settlement_store"@) is Some
            &&& j.field("settlement_worker"@) is Some
            &&& j.field("verification_cache"@) is Some
            &&& queue.field("pending"@) == pending
            &&& queue.field("in_progress"@) == in_progress
            &&& queue.field("max_size"@) == Some(number(q.max_size as int))
            &&& queue.field("is_full"@) == Some(JsonView::Bool(q.full()))
            &&& store.field("pending"@) == pending
            &&& store.field("in_progress"@) == in_progress
            &&& store.field("completed"@) == Some(
                number(q.store.count(SettlementStatus::Completed) as int),
            )
            &&& store.field("failed"@) == Some(
                number(q.store.count(SettlementStatus::Failed) as int),
            )
            &&& store.field("total"@) == Some(number(q.store.rows.len() as int))
            &&& worker.field("total_processed"@) == Some(number(m.total_processed as int))
            &&& worker.field("success_count"@) == Some(number(m.success_count as int))
            &&& worker.field("failure_count"@) == Some(number(m.failure_count as int))
            &&& worker.field("retry_count"@) == Some(number(m.retry_count as int))
            &&& cache.field("hits"@) == Some(number(c.hits as int))
            &&& cache.field("misses"@) == Some(number(c.misses as int))
            &&& cache.field("downgrades"@) == Some(number(c.downgrades as int))
            &&& cache.field("hit_rate"@) == Some(hit_rate)
        }),
{
    lemma_page_names();
    lemma_counts_add_up(q.store.rows);
}

/// Whether a step is an answer with a status and an error.
pub open spec fn answers_error(step: AccountStepView, status: u16, error: Seq<char>) -> bool {
    &&& step matches AccountStepView::Answer(reply)
    &&& reply.status == status
    &&& reply.body is Json
    &&& reply.body->Json_0.field("error"@) == Some(JsonView::Text(error))
}

/// Whose balance is asked for: that of the wallet of the session, where the
/// request brings a token, and of the wallet that signed it otherwise. A token
/// without a session is refused, whatever the signature says, and so is a
/// request with neither.
pub proof fn law_balance_of_the_caller(
    credits_enabled: bool,
    r: SignedRequestView,
    now: int,
    session: Option<SessionView>,
)
    ensures
        ({
            let step = balance_request(credits_enabled, r, now, session);
            let token = bearer_token(r.headers) is Some;
            &&& !credits_enabled ==> answers_error(step, 503, "Credits system not enabled"@)
            &&& credits_enabled && token && session is Some ==> step == (
            AccountStepView::AskBalance {
                wallet: session->0.wallet_address,
                chain_id: session->0.chain_id,
            })
            &&& credits_enabled && token && session is None ==> answers_error(
                step,
                401,
                "Invalid or expired session token"@,
            )
            &&& credits_enabled && !token ==> match verified(r, now) {
                Ok(id) => step == (AccountStepView::AskBalance {
                    wallet: id.wallet_address,
                    chain_id: id.chain_id,
                }),
                Err(e) => answers_error(
                    step,
                    401,
                    "Bearer token or ERC-8128 signature required: "@ + error_message(e),
                ),
            }
        }),
{
}

/// The balance that was asked for is told with its wallet.
pub proof fn law_balance_is_told(wallet: Seq<char>, balance: Result<i64, Seq<char>>)
    ensures
        ({
            let r = balance_reply(wallet, balance);
            match balance {
                Ok(n) => {
                    &&& r.status == 200
                    &&& r.body is Json
                    &&& r.body->Json_0.field("credits"@) == Some(number(n as int))
                    &&& r.body->Json_0.field("address"@) == Some(JsonView::Text(wallet))
                },
                Err(_) => r.status == 500 && r.body is Json && r.body->Json_0.field("error"@)
                    == Some(JsonView::Text("Failed to fetch credit balance"@)),
            }
        }),
{
    lemma_page_names();
}

/// Who is given a session: a wallet that has signed for it and has credits. Its
/// session is for the wallet and the chain that signed.
pub proof fn law_session_for_the_signer(
    credits_enabled: bool,
    identity: Result<IdentityView, ErrorView>,
    wallet: Seq<char>,
    chain_id: u64,
    balance: Result<i64, Seq<char>>,
)
    ensures
        ({
            let first = session_request(credits_enabled, identity);
            let then = session_balance(wallet, chain_id, balance);
            &&& !credits_enabled ==> answers_error(first, 503, "Credits system not enabled"@)
            &&& credits_enabled ==> match identity {
                Ok(id) => first == (AccountStepView::AskBalance {
                    wallet: lowercase(id.wallet_address),
                    chain_id: id.chain_id,
                }),
                Err(e) => answers_error(
                    first,
                    401,
                    "ERC-8128 signature required: "@ + error_message(e),
                ),
            }
            &&& match balance {
                Ok(n) => {
                    &&& n > 0 ==> then == (AccountStepView::CreateSession { wallet, chain_id })
                    &&& n <= 0 ==> answers_error(
                        then,
                        402,
                        "No credits available (balance: "@ + signed_decimal(n as int) + ")"@,
                    ) && then->Answer_0.body->Json_0.field("credits"@) == Some(number(n as int))
                        && then->Answer_0.body->Json_0.field("address"@) == Some(
                        JsonView::Text(wallet),
                    )
                },
                Err(_) => answers_error(then, 500, "Failed to check credit balance"@),
            }
        }),
{
    lemma_page_names();
}

/// A text that is filled up keeps its characters and has the width, or its own
/// length where it is longer.
pub proof fn law_aligned_texts(s: Seq<char>, width: nat)
    ensures
        ({
            let l = left_aligned(s, width);
            let r = right_aligned(s, width);
            let n = if s.len() < width {
                width
            } else {
                s.len()
            };
            &&& l.len() == n
            &&& r.len() == n
            &&& l.take(s.len() as int) == s
            &&& r.skip(n - s.len()) == s
            &&& forall|i: int| s.len() <= i < n ==> #[trigger] l[i] == ' '
            &&& forall|i: int| 0 <= i < n - s.len() ==> #[trigger] r[i] == ' '
        }),
{
    let l = left_aligned(s, width);
    let r = right_aligned(s, width);
    assert(l.take(s.len() as int) =~= s);
    assert(r.skip(r.len() - s.len()) =~= s);
}

/// The page at the root names the service, its version, its wallet and whether
/// it is in test mode, then the models, and last how to use it.
pub proof fn law_root_page(
    entries: Seq<EntryView>,
    default_model: Seq<char>,
    wallet: Seq<u8>,
    test_mode: bool,
    version: Seq<char>,
)
    ensures
        ({
            let page = root_page(entries, default_model, wallet, test_mode, version);
            let head = "inference-super-router\nversion: "@ + version + "\nwallet: 0x"@ + hex_text(
                wallet,
            ) + "\ntest_mode: "@ + (if test_mode {
                "true"@
            } else {
                "false"@
            }) + "\n\n--- models ---\n\n"@;
            let order = sorted_positions(lower_names(entries), entries.len());
            &&& after_prefix(page, head) is Some
            &&& after_prefix(page, head)->0 == model_lines(entries, order, entries.len() as int)
                + default_line(entries, default_model) + usage_text()
        }),
{
    reveal_strlit("inference-super-router\n");
    reveal_strlit("version: ");
    reveal_strlit("inference-super-router\nversion: ");
    reveal_strlit("\n");
    reveal_strlit("wallet: ");
    reveal_strlit("\nwallet: 0x");
    reveal_strlit("0x");
    reveal_strlit("test_mode: ");
    reveal_strlit("\ntest_mode: ");
    reveal_strlit("\n--- models ---\n\n");
    reveal_strlit("\n\n--- models ---\n\n");
    let page = root_page(entries, default_model, wallet, test_mode, version);
    let shown = if test_mode {
        "true"@
    } else {
        "false"@
    };
    let a = "inference-super-router\nversion: "@;
    let w = "\nwallet: 0x"@;
    let t = "\ntest_mode: "@;
    let m = "\n\n--- models ---\n\n"@;
    let head = a + version + w + hex_text(wallet) + t + shown + m;
    let order = sorted_positions(lower_names(entries), entries.len());
    let rest = model_lines(entries, order, entries.len() as int) + default_line(
        entries,
        default_model,
    ) + usage_text();
    assert("inference-super-router\n"@ + "version: "@ =~= a);
    assert("\n"@ + "wallet: "@ + "0x"@ =~= w);
    assert("\n"@ + "test_mode: "@ =~= t);
    assert("\n"@ + "\n--- models ---\n\n"@ =~= m);
    assert(page =~= head + rest);
    assert((head + rest).subrange(0, head.len() as int) =~= head);
    assert((head + rest).skip(head.len() as int) =~= rest);
}

/// Each model has a line with its name, its cost, its currency and its
/// description; the default one is shown once more as `auto`, where it is
/// there.
pub proof fn law_model_lines(
    entries: Seq<EntryView>,
    order: Seq<int>,
    n: int,
    default_model: Seq<char>,
)
    requires
        0 <= n < order.len(),
    ensures
        ({
            let e = entries[order[n]];
            let def = e.endpoint.def;
            &&& model_lines(entries, order, 0) == Seq::<char>::empty()
            &&& model_lines(entries, order, n + 1) == model_lines(entries, order, n) + ("  "@
                + left_aligned(e.name, 16) + " "@ + right_aligned(def.cost@, 5) + " "@
                + left_aligned(def.payment_currency@, 10) + " "@ + def.description@ + "\n"@)
            &&& match entry_from(entries, default_model, 0) {
                Some(i) => {
                    let d = entries[i].endpoint.def;
                    &&& 0 <= i < entries.len()
                    &&& entries[i].name == default_model
                    &&& default_line(entries, default_model) == "  "@ + left_aligned("auto"@, 16)
                        + " "@ + right_aligned(d.cost@, 5) + " "@ + left_aligned(
                        d.payment_currency@,
                        10,
                    ) + " "@ + d.description@ + " (default)\n"@
                },
                None => default_line(entries, default_model) == Seq::<char>::empty(),
            }
        }),
{
    reveal_strlit("");
    assert(""@ =~= Seq::<char>::empty());
    lemma_entry_from(entries, default_model, 0);
}

} // verus!
