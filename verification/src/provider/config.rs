//! Provider configuration: its validation and the model registry it yields.
use vstd::prelude::*;
use crate::provider::error::ProviderError;
use crate::provider::model_info::{ModelCapabilities, ModelInfo, ModelLimits, ModelPricing};
use crate::text::push_str;

verus! {

/// Kind of provider API.
#[derive(Debug, Clone, Copy, PartialEq, Eq, Structural)]
pub enum ProviderType {
    OpenAi,
    Claude,
    Local,
}

/// One model as a configuration declares it.
#[derive(Debug, Clone)]
pub struct ModelConfig {
    pub name: String,
    pub display_name: Option<String>,
    pub capabilities: ModelCapabilities,
    pub pricing: ModelPricing,
    pub limits: ModelLimits,
}

/// One provider as a configuration declares it.
#[derive(Debug, Clone)]
pub struct ProviderDefinition {
    pub provider_type: ProviderType,
    pub api_key: Option<String>,
    pub base_url: Option<String>,
    pub models: Vec<ModelConfig>,
}

/// When a fallback entry is tried.
#[derive(Debug, Clone)]
pub enum FallbackCondition {
    Always,
    RateLimitOnly,
    ErrorStatus(Vec<u16>),
}

impl Default for FallbackCondition {
    fn default() -> (r: Self)
        ensures
            r is Always,
    {
        FallbackCondition::Always
    }
}

/// A fallback of a named route.
#[derive(Debug, Clone)]
pub struct FallbackEntry {
    pub model: String,
    pub provider: Option<String>,
    pub condition: FallbackCondition,
}

/// A named route: a model, optionally pinned to a provider, with its fallbacks. The
/// temperature is held as the bit pattern of the `f32` it stands for.
#[derive(Debug, Clone)]
pub struct RouteRule {
    pub model: String,
    pub provider: Option<String>,
    pub temperature_bits: Option<u32>,
    pub max_tokens: Option<usize>,
    pub fallback: Vec<FallbackEntry>,
}

/// A whole configuration. The maps of providers and routes are held as lists of
/// (name, value) pairs, in the order in which the configuration's maps are walked.
#[derive(Debug, Clone)]
pub struct ProviderConfig {
    pub default_model: Option<String>,
    pub providers: Vec<(String, ProviderDefinition)>,
    pub routing: Vec<(String, RouteRule)>,
}

/// Whether a provider of this kind needs an API key.
pub open spec fn needs_api_key(t: ProviderType) -> bool {
    t == ProviderType::OpenAi || t == ProviderType::Claude
}

/// Whether a provider definition is acceptable: it declares a model, and a hosted
/// provider has a non-empty API key.
pub open spec fn definition_ok(d: ProviderDefinition) -> bool {
    &&& d.models@.len() > 0
    &&& needs_api_key(d.provider_type) ==> (d.api_key matches Some(k) && k@.len() > 0)
}

/// The message of the first unacceptable definition.
pub open spec fn definition_error(name: Seq<char>, d: ProviderDefinition) -> Seq<char> {
    if d.models@.len() == 0 {
        "Provider '"@ + name + "' 没有定义任何模型"@
    } else {
        "Provider '"@ + name + "' 缺少 api_key"@
    }
}

/// A model registry entry made from a model declaration of provider `provider`.
pub open spec fn info_from_config(info: ModelInfo, mc: ModelConfig, provider: Option<String>) -> bool {
    &&& info.name == mc.name
    &&& info.display_name == mc.display_name
    &&& info.provider == provider
    &&& info.capabilities.context_window == mc.capabilities.context_window
    &&& info.capabilities.max_output_tokens == mc.capabilities.max_output_tokens
    &&& info.capabilities.supports_tool_calling == mc.capabilities.supports_tool_calling
    &&& info.capabilities.supports_vision == mc.capabilities.supports_vision
    &&& info.capabilities.supports_streaming == mc.capabilities.supports_streaming
    &&& info.capabilities.supports_structured_output == mc.capabilities.supports_structured_output
    &&& info.capabilities.supports_prompt_caching == mc.capabilities.supports_prompt_caching
    &&& info.capabilities.supports_thinking == mc.capabilities.supports_thinking
    &&& info.capabilities.input_modalities@ == mc.capabilities.input_modalities@
    &&& info.capabilities.output_modalities@ == mc.capabilities.output_modalities@
    &&& info.pricing == mc.pricing
    &&& info.limits == mc.limits
}

/// Every declared model, paired with the name of its provider, provider by provider.
pub open spec fn declared_models(ps: Seq<(String, ProviderDefinition)>) -> Seq<(ModelConfig, String)>
    decreases ps.len(),
{
    if ps.len() == 0 {
        Seq::empty()
    } else {
        declared_models(ps.drop_last()) + ps.last().1.models@.map_values(|mc: ModelConfig| (mc, ps.last().0))
    }
}

/// A copy of a list of modalities.
fn copy_modalities(v: &Vec<crate::provider::model_info::Modality>) -> (r: Vec<crate::provider::model_info::Modality>)
    ensures
        r@ == v@,
{
    let mut r = Vec::new();
    let mut i: usize = 0;
    while i < v.len()
        invariant
            i <= v@.len(),
            r@ == v@.take(i as int),
        decreases v.len() - i,
    {
        proof {
            assert(v@.take(i + 1) =~= v@.take(i as int).push(v@[i as int]));
        }
        r.push(v[i]);
        i = i + 1;
    }
    proof {
        assert(v@.take(v@.len() as int) =~= v@);
    }
    r
}

/// A copy of a capability declaration.
pub fn copy_capabilities(c: &ModelCapabilities) -> (r: ModelCapabilities)
    ensures
        r.context_window == c.context_window,
        r.max_output_tokens == c.max_output_tokens,
        r.supports_tool_calling == c.supports_tool_calling,
        r.supports_vision == c.supports_vision,
        r.supports_streaming == c.supports_streaming,
        r.supports_structured_output == c.supports_structured_output,
        r.supports_prompt_caching == c.supports_prompt_caching,
        r.supports_thinking == c.supports_thinking,
        r.input_modalities@ == c.input_modalities@,
        r.output_modalities@ == c.output_modalities@,
{
    ModelCapabilities {
        context_window: c.context_window,
        max_output_tokens: c.max_output_tokens,
        supports_tool_calling: c.supports_tool_calling,
        supports_vision: c.supports_vision,
        supports_streaming: c.supports_streaming,
        supports_structured_output: c.supports_structured_output,
        supports_prompt_caching: c.supports_prompt_caching,
        supports_thinking: c.supports_thinking,
        input_modalities: copy_modalities(&c.input_modalities),
        output_modalities: copy_modalities(&c.output_modalities),
    }
}

impl ModelConfig {
    /// The registry entry for this model, attributed to `provider`.
    pub fn to_model_info(&self, provider: Option<String>) -> (info: ModelInfo)
        ensures
            info_from_config(info, *self, provider),
    {
        ModelInfo {
            name: self.name.clone(),
            display_name: self.display_name.clone(),
            provider,
            capabilities: copy_capabilities(&self.capabilities),
            pricing: self.pricing,
            limits: self.limits,
        }
    }
}

impl From<ModelConfig> for ModelInfo {
    /// The registry entry for a model declaration, attributed to no provider.
    fn from(cfg: ModelConfig) -> (info: ModelInfo)
        ensures
            info_from_config(info, cfg, None),
    {
        ModelInfo {
            name: cfg.name,
            display_name: cfg.display_name,
            provider: None,
            capabilities: cfg.capabilities,
            pricing: cfg.pricing,
            limits: cfg.limits,
        }
    }
}

impl vstd::std_specs::convert::FromSpecImpl<ModelConfig> for ModelInfo {
    open spec fn obeys_from_spec() -> bool {
        true
    }

    open spec fn from_spec(cfg: ModelConfig) -> ModelInfo {
        ModelInfo {
            name: cfg.name,
            display_name: cfg.display_name,
            provider: None,
            capabilities: cfg.capabilities,
            pricing: cfg.pricing,
            limits: cfg.limits,
        }
    }
}

impl ProviderConfig {
    /// Accepts the configuration when every provider declares a model and every
    /// hosted (OpenAI or Anthropic) provider has a non-empty API key; otherwise fails
    /// with a `Config` error naming the first offending provider.
    pub fn validate(self) -> (r: Result<ProviderConfig, ProviderError>)
        ensures
            r is Ok <==> forall|i: int| 0 <= i < self.providers@.len() ==> definition_ok(#[trigger] self.providers@[i].1),
            r matches Ok(c) ==> c == self,
            r matches Err(e) ==> exists|i: int| 0 <= i < self.providers@.len()
                && !definition_ok(self.providers@[i].1)
                && (forall|j: int| 0 <= j < i ==> definition_ok(#[trigger] self.providers@[j].1))
                && e == ProviderError::Config(e->Config_0)
                && e->Config_0@ == definition_error(self.providers@[i].0@, self.providers@[i].1),
    {
        let mut i: usize = 0;
        while i < self.providers.len()
            invariant
                i <= self.providers@.len(),
                forall|j: int| 0 <= j < i ==> definition_ok(#[trigger] self.providers@[j].1),
            decreases self.providers.len() - i,
        {
            let name = &self.providers[i].0;
            let def = &self.providers[i].1;
            if def.models.len() == 0 {
                let mut m = String::from_str("Provider '");
                push_str(&mut m, name.as_str());
                push_str(&mut m, "' 没有定义任何模型");
                return Err(ProviderError::Config(m));
            }
            if def.provider_type == ProviderType::OpenAi || def.provider_type == ProviderType::Claude {
                let missing = match &def.api_key {
                    Some(k) => k.as_str().is_empty(),
                    None => true,
                };
                if missing {
                    let mut m = String::from_str("Provider '");
                    push_str(&mut m, name.as_str());
                    push_str(&mut m, "' 缺少 api_key");
                    return Err(ProviderError::Config(m));
                }
            }
            i = i + 1;
        }
        Ok(self)
    }

    /// Every declared model as a registry entry attributed to its provider, provider
    /// by provider, in declaration order within each provider.
    pub fn collect_models(&self) -> (models: Vec<ModelInfo>)
        ensures
            models@.len() == declared_models(self.providers@).len(),
            forall|k: int| 0 <= k < models@.len() ==> info_from_config(
                #[trigger] models@[k],
                declared_models(self.providers@)[k].0,
                Some(declared_models(self.providers@)[k].1),
            ),
    {
        let mut models: Vec<ModelInfo> = Vec::new();
        let mut i: usize = 0;
        while i < self.providers.len()
            invariant
                i <= self.providers@.len(),
                models@.len() == declared_models(self.providers@.take(i as int)).len(),
                forall|k: int| 0 <= k < models@.len() ==> info_from_config(
                    #[trigger] models@[k],
                    declared_models(self.providers@.take(i as int))[k].0,
                    Some(declared_models(self.providers@.take(i as int))[k].1),
                ),
            decreases self.providers.len() - i,
        {
            let name = &self.providers[i].0;
            let def = &self.providers[i].1;
            let ghost base = declared_models(self.providers@.take(i as int));
            let ghost add = def.models@.map_values(|mc: ModelConfig| (mc, *name));
            proof {
                assert(self.providers@.take(i + 1).drop_last() =~= self.providers@.take(i as int));
                assert(declared_models(self.providers@.take(i + 1)) == base + add);
                assert forall|t: int| 0 <= t < add.len() implies #[trigger] add[t] == (def.models@[t], *name) by {}
            }
            let mut j: usize = 0;
            while j < def.models.len()
                invariant
                    j <= def.models@.len(),
                    add.len() == def.models@.len(),
                    forall|t: int| 0 <= t < add.len() ==> #[trigger] add[t] == (def.models@[t], *name),
                    models@.len() == base.len() + j,
                    forall|k: int| 0 <= k < models@.len() ==> info_from_config(
                        #[trigger] models@[k],
                        (base + add)[k].0,
                        Some((base + add)[k].1),
                    ),
                decreases def.models.len() - j,
            {
                let ghost old_models = models@;
                let info = def.models[j].to_model_info(Some(name.clone()));
                proof {
                    assert(add[j as int] == (def.models@[j as int], *name));
                    assert((base + add)[base.len() + j] == add[j as int]);
                }
                models.push(info);
                proof {
                    assert forall|k: int| 0 <= k < models@.len() implies info_from_config(
                        #[trigger] models@[k],
                        (base + add)[k].0,
                        Some((base + add)[k].1),
                    ) by {
                        if k < models@.len() - 1 {
                            assert(models@[k] == old_models[k]);
                        }
                    }
                }
                j = j + 1;
            }
            i = i + 1;
        }
        proof {
            assert(self.providers@.take(self.providers@.len() as int) =~= self.providers@);
        }
        models
    }
}

} // verus!
