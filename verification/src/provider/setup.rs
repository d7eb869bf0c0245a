//! Settling a provider's settings from its definition, and expanding
//! `${VAR}` references in configuration text.
use vstd::prelude::*;
use crate::provider::config::{ModelConfig, ProviderDefinition, ProviderType, info_from_config};
use crate::provider::error::ProviderError;
use crate::provider::model_info::ModelInfo;
use crate::text::{push_str, replace_all, replace_str};

verus! {

/// The API key of a hosted provider: the configured one, else the one from the
/// environment; a `Config` error naming the service when there is neither.
pub fn hosted_api_key(configured: &Option<String>, from_env: Option<String>, kind: ProviderType) -> (r: Result<
    String,
    ProviderError,
>)
    requires
        kind != ProviderType::Local,
    ensures
        configured matches Some(k) ==> (r matches Ok(v) && v@ == k@),
        configured is None && from_env is Some ==> (r matches Ok(v) && v@ == from_env->Some_0@),
        configured is None && from_env is None ==> (r matches Err(ProviderError::Config(m)) && m@ == (
            if kind == ProviderType::OpenAi { "缺少 OpenAI API key"@ } else { "缺少 Anthropic API key"@ })),
{
    match configured {
        Some(k) => Ok(k.clone()),
        None => match from_env {
            Some(v) => Ok(v),
            None => if kind == ProviderType::OpenAi {
                Err(ProviderError::Config(String::from_str("缺少 OpenAI API key")))
            } else {
                Err(ProviderError::Config(String::from_str("缺少 Anthropic API key")))
            },
        },
    }
}

/// The default endpoint of each kind of provider.
pub open spec fn default_base_url(kind: ProviderType) -> Seq<char> {
    match kind {
        ProviderType::OpenAi => "https://api.openai.com/v1"@,
        ProviderType::Claude => "https://api.anthropic.com/v1"@,
        ProviderType::Local => "http://localhost:11434"@,
    }
}

/// The endpoint of a provider: the configured one, else its kind's default.
pub fn base_url_for(def: &ProviderDefinition) -> (r: String)
    ensures
        r@ == (match def.base_url { Some(u) => u@, None => default_base_url(def.provider_type) }),
{
    match &def.base_url {
        Some(u) => u.clone(),
        None => match def.provider_type {
            ProviderType::OpenAi => String::from_str("https://api.openai.com/v1"),
            ProviderType::Claude => String::from_str("https://api.anthropic.com/v1"),
            ProviderType::Local => String::from_str("http://localhost:11434"),
        },
    }
}

/// The models a provider serves, as registry entries: attributed to the
/// provider for Anthropic and local servers, to no provider for OpenAI.
pub fn provider_models(name: &String, def: &ProviderDefinition) -> (r: Vec<ModelInfo>)
    ensures
        r@.len() == def.models@.len(),
        forall|i: int| 0 <= i < r@.len() ==> info_from_config(
            #[trigger] r@[i],
            def.models@[i],
            if def.provider_type == ProviderType::OpenAi { None } else { Some(*name) },
        ),
{
    let mut r: Vec<ModelInfo> = Vec::new();
    let mut i: usize = 0;
    while i < def.models.len()
        invariant
            i <= def.models@.len(),
            r@.len() == i,
            forall|j: int| 0 <= j < i ==> info_from_config(
                #[trigger] r@[j],
                def.models@[j],
                if def.provider_type == ProviderType::OpenAi { None } else { Some(*name) },
            ),
        decreases def.models.len() - i,
    {
        let owner = if def.provider_type == ProviderType::OpenAi { None } else { Some(name.clone()) };
        r.push(def.models[i].to_model_info(owner));
        i = i + 1;
    }
    r
}

/// The router's default model: the configured one, else the first registry
/// model's name, else the empty string.
pub fn default_model_of(configured: &Option<String>, models: &Vec<ModelInfo>) -> (r: String)
    ensures
        configured matches Some(m) ==> r@ == m@,
        configured is None && models@.len() > 0 ==> r@ == models@[0].name@,
        configured is None && models@.len() == 0 ==> r@.len() == 0,
{
    match configured {
        Some(m) => m.clone(),
        None => if models.len() > 0 { models[0].name.clone() } else { String::new() },
    }
}

/// An endpoint: the base URL followed by a path.
pub fn endpoint(base: &str, path: &str) -> (r: String)
    ensures
        r@ == base@ + path@,
{
    let mut u = String::from_str(base);
    push_str(&mut u, path);
    u
}

/// A `${NAME}` or `${NAME:-default}` reference found in configuration text.
#[derive(Debug, Clone)]
pub struct EnvRef {
    pub whole: String,
    pub name: String,
    pub default: Option<String>,
}

/// The references `regex_lite` finds in `text` with the pattern
/// `\$\{([^:}]+)(?::-(.*?))?\}`, left to right: the matched text, the name and
/// the default.
pub uninterp spec fn env_references(text: Seq<char>) -> Seq<(Seq<char>, Seq<char>, Option<Seq<char>>)>;

pub open spec fn env_ref_view(r: EnvRef) -> (Seq<char>, Seq<char>, Option<Seq<char>>) {
    (r.whole@, r.name@, match r.default { Some(d) => Some(d@), None => None })
}

/// Compiles the reference pattern with `regex_lite::Regex::new` and lists its
/// matches with `captures_iter`. The matches are named; a match is never empty.
/// Nothing is stated when the pattern fails to compile.
#[verifier::external_body]
fn find_env_references(text: &str) -> (r: Option<Vec<EnvRef>>)
    ensures
        r matches Some(v) ==> v@.map_values(|e: EnvRef| env_ref_view(e)) == env_references(text@)
            && forall|i: int| 0 <= i < v@.len() ==> (#[trigger] v@[i]).whole@.len() > 0,
{
    let re = regex_lite::Regex::new(r"\$\{([^:}]+)(?::-(.*?))?\}").ok()?;
    Some(re.captures_iter(text).map(|c| EnvRef {
        whole: c.get(0).map(|m| m.as_str()).unwrap_or("").to_string(),
        name: c.get(1).map(|m| m.as_str()).unwrap_or("").to_string(),
        default: c.get(2).map(|m| m.as_str().to_string()),
    }).collect())
}

/// The references in configuration text; `None` when the pattern cannot be used.
pub fn env_references_in(text: &str) -> (r: Option<Vec<EnvRef>>)
    ensures
        r matches Some(v) ==> v@.map_values(|e: EnvRef| env_ref_view(e)) == env_references(text@)
            && forall|i: int| 0 <= i < v@.len() ==> (#[trigger] v@[i]).whole@.len() > 0,
{
    find_env_references(text)
}

/// What reference `r` expands to: the variable's value, else its default, else
/// nothing.
pub open spec fn expansion(r: (Seq<char>, Seq<char>, Option<Seq<char>>), value: Option<Seq<char>>) -> Seq<char> {
    match value {
        Some(v) => v,
        None => match r.2 {
            Some(d) => d,
            None => Seq::empty(),
        },
    }
}

/// `text` with the references replaced in turn, each everywhere it occurs.
pub open spec fn interpolated(
    text: Seq<char>,
    refs: Seq<(Seq<char>, Seq<char>, Option<Seq<char>>)>,
    values: Seq<Option<Seq<char>>>,
) -> Seq<char>
    decreases refs.len(),
{
    if refs.len() == 0 {
        text
    } else {
        replace_all(
            interpolated(text, refs.drop_last(), values),
            refs.last().0,
            expansion(refs.last(), values[refs.len() - 1]),
        )
    }
}

/// Expands references in configuration text: `values[i]` is the environment's
/// value of reference `i`'s variable, if set.
pub fn interpolate_env(text: &str, refs: &Vec<EnvRef>, values: &Vec<Option<String>>) -> (r: String)
    requires
        values@.len() == refs@.len(),
        forall|i: int| 0 <= i < refs@.len() ==> (#[trigger] refs@[i]).whole@.len() > 0,
    ensures
        r@ == interpolated(
            text@,
            refs@.map_values(|e: EnvRef| env_ref_view(e)),
            values@.map_values(|v: Option<String>| match v { Some(s) => Some(s@), None => None }),
        ),
{
    let ghost rv = refs@.map_values(|e: EnvRef| env_ref_view(e));
    let ghost vv = values@.map_values(|v: Option<String>| match v { Some(s) => Some(s@), None => None });
    let mut result = String::from_str(text);
    let mut i: usize = 0;
    while i < refs.len()
        invariant
            i <= refs@.len(),
            values@.len() == refs@.len(),
            rv == refs@.map_values(|e: EnvRef| env_ref_view(e)),
            vv == values@.map_values(|v: Option<String>| match v { Some(s) => Some(s@), None => None }),
            forall|k: int| 0 <= k < refs@.len() ==> (#[trigger] refs@[k]).whole@.len() > 0,
            result@ == interpolated(text@, rv.take(i as int), vv),
        decreases refs.len() - i,
    {
        let r = &refs[i];
        let value: String = match &values[i] {
            Some(v) => v.clone(),
            None => match &r.default {
                Some(d) => d.clone(),
                None => String::new(),
            },
        };
        proof {
            assert(rv.take(i + 1).drop_last() =~= rv.take(i as int));
            assert(rv.take(i + 1).last() == env_ref_view(*r));
            assert(value@ == expansion(env_ref_view(*r), vv[i as int]));
        }
        result = replace_str(result.as_str(), r.whole.as_str(), value.as_str());
        i = i + 1;
    }
    proof {
        assert(rv.take(refs@.len() as int) =~= rv);
    }
    result
}

} // verus!
