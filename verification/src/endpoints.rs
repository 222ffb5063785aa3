//! Definitions of the inference endpoints.

use vstd::prelude::*;
use vstd::string::*;

use crate::http::{copy_text, text_view};
use crate::text::{trim, trim_white};

verus! {

/// All endpoint definitions.
#[derive(Debug, Clone)]
pub struct EndpointsConfig {
    pub endpoints: Vec<EndpointDef>,
}

/// The definition of one endpoint.
#[derive(Debug, Clone)]
pub struct EndpointDef {
    /// The model name that clients ask for.
    pub name: String,
    /// The prefix of its routes.
    pub route_prefix: String,
    /// The URL of the upstream API.
    pub api_endpoint: String,
    /// The name of the variable that holds the API key.
    pub api_key_env: String,
    /// The model name that the upstream API is sent.
    pub model: String,
    /// The protocol of the upstream API.
    pub archetype: String,
    /// The cost of a request: raw units for USDC, whole tokens for Starkbot.
    pub cost: String,
    /// `usdc` or `starkbot`.
    pub payment_currency: String,
    pub max_input_tokens: u32,
    pub max_output_tokens: u32,
    /// The path of a file with a system prompt.
    pub system_prompt_file: Option<String>,
    /// What a reply that asks for payment says of the endpoint.
    pub description: String,
    /// The credits that a request costs; 0 where credits are not accepted.
    pub credit_cost: i64,
}

/// An endpoint with its API key and its system prompt.
#[derive(Debug, Clone)]
pub struct ResolvedEndpoint {
    pub def: EndpointDef,
    pub api_key: String,
    pub system_prompt: Option<String>,
}

impl EndpointDef {
    /// A copy of this definition.
    pub fn copy(&self) -> (r: Self)
        ensures
            r == *self,
    {
        EndpointDef {
            name: self.name.clone(),
            route_prefix: self.route_prefix.clone(),
            api_endpoint: self.api_endpoint.clone(),
            api_key_env: self.api_key_env.clone(),
            model: self.model.clone(),
            archetype: self.archetype.clone(),
            cost: self.cost.clone(),
            payment_currency: self.payment_currency.clone(),
            max_input_tokens: self.max_input_tokens,
            max_output_tokens: self.max_output_tokens,
            system_prompt_file: copy_text(&self.system_prompt_file),
            description: self.description.clone(),
            credit_cost: self.credit_cost,
        }
    }
}

impl ResolvedEndpoint {
    /// A copy of this endpoint.
    pub fn copy(&self) -> (r: Self)
        ensures
            r == *self,
    {
        ResolvedEndpoint {
            def: self.def.copy(),
            api_key: self.api_key.clone(),
            system_prompt: copy_text(&self.system_prompt),
        }
    }
}

/// The system prompt that the text of a file gives: the text without the white
/// space around it, where anything is left.
pub open spec fn prompt_of(content: Seq<char>) -> Option<Seq<char>> {
    if trim_white(content).len() == 0 {
        None
    } else {
        Some(trim_white(content))
    }
}

/// The API key and the system prompt of an endpoint, or the message of the
/// error. `api_key` is the value of the variable that the definition names;
/// `prompt` is the text of the file that it names, or the error of reading it.
pub open spec fn resolved_with(
    def: EndpointDef,
    api_key: Option<Seq<char>>,
    prompt: Result<Seq<char>, Seq<char>>,
) -> Result<(Seq<char>, Option<Seq<char>>), Seq<char>> {
    match api_key {
        None => Err(
            "Missing env var "@ + def.api_key_env@ + " for endpoint '"@ + def.name@ + "'"@,
        ),
        Some(key) => match def.system_prompt_file {
            None => Ok((key, None)),
            Some(path) => match prompt {
                Ok(content) => Ok((key, prompt_of(content))),
                Err(e) => Err(
                    "Failed to read system prompt '"@ + path@ + "' for endpoint '"@ + def.name@
                        + "': "@ + e,
                ),
            },
        },
    }
}

/// What reading a file gave.
pub open spec fn read_view(r: Result<String, String>) -> Result<Seq<char>, Seq<char>> {
    match r {
        Ok(s) => Ok(s@),
        Err(e) => Err(e@),
    }
}

/// Resolves a definition with the value of its API key variable and the text
/// of its system prompt file, or the error of reading it. Where the definition
/// names no file, `prompt` is not looked at.
pub fn resolve_endpoint(
    def: EndpointDef,
    api_key: Option<String>,
    prompt: Result<String, String>,
) -> (r: Result<ResolvedEndpoint, String>)
    ensures
        match r {
            Ok(e) => e.def == def && resolved_with(def, text_view(api_key), read_view(prompt))
                == Ok::<(Seq<char>, Option<Seq<char>>), Seq<char>>(
                (e.api_key@, text_view(e.system_prompt)),
            ),
            Err(m) => resolved_with(def, text_view(api_key), read_view(prompt)) == Err::<
                (Seq<char>, Option<Seq<char>>),
                Seq<char>,
            >(m@),
        },
{
    let api_key = match api_key {
        Some(k) => k,
        None => {
            let mut m = "Missing env var ".to_owned();
            m.append(def.api_key_env.as_str());
            m.append(" for endpoint '");
            m.append(def.name.as_str());
            m.append("'");
            return Err(m);
        },
    };
    let system_prompt = match &def.system_prompt_file {
        Some(path) => match &prompt {
            Ok(content) => {
                let t = trim(content.as_str());
                if t.as_str().is_empty() {
                    None
                } else {
                    Some(t)
                }
            },
            Err(e) => {
                let mut m = "Failed to read system prompt '".to_owned();
                m.append(path.as_str());
                m.append("' for endpoint '");
                m.append(def.name.as_str());
                m.append("': ");
                m.append(e.as_str());
                return Err(m);
            },
        },
        None => None,
    };
    Ok(ResolvedEndpoint { def, api_key, system_prompt })
}

// ---------------------------------------------------------------------------
// Laws
// ---------------------------------------------------------------------------

/// An endpoint is resolved where the variable of its key is set and the file of
/// its prompt, if it names one, can be read: with the key as it is set, and
/// with the text of the file without the white space around it, unless nothing
/// is left of it.
pub proof fn law_endpoint_is_resolved(
    def: EndpointDef,
    api_key: Option<Seq<char>>,
    prompt: Result<Seq<char>, Seq<char>>,
)
    ensures
        ({
            let r = resolved_with(def, api_key, prompt);
            let reads = def.system_prompt_file is Some;
            &&& r is Ok <==> api_key is Some && (reads ==> prompt is Ok)
            &&& r matches Ok(e) ==> e.0 == api_key->0
            &&& r is Ok && !reads ==> (r->Ok_0).1 is None
            &&& r is Ok && reads && trim_white(prompt->Ok_0).len() == 0 ==> (r->Ok_0).1 is None
            &&& r is Ok && reads && trim_white(prompt->Ok_0).len() > 0 ==> (r->Ok_0).1 == Some(
                trim_white(prompt->Ok_0),
            )
            &&& api_key is None ==> r->Err_0 == "Missing env var "@ + def.api_key_env@
                + " for endpoint '"@ + def.name@ + "'"@
            &&& api_key is Some && reads && prompt is Err ==> r->Err_0
                == "Failed to read system prompt '"@ + def.system_prompt_file->0@
                + "' for endpoint '"@ + def.name@ + "': "@ + prompt->Err_0
        }),
{
}

} // verus!
