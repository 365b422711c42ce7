//! The settings that the client reads.

use vstd::hash_map::StringHashMap;
use vstd::prelude::*;

verus! {

/// A model provider: where its server is, if that is known.
pub struct ModelProviderInfo {
    pub base_url: Option<String>,
}

/// The model that the user asked for, and the providers by their identifiers.
pub struct Config {
    model: Option<String>,
    model_providers: StringHashMap<ModelProviderInfo>,
}

/// The characters of an optional string.
pub open spec fn opt_text(s: Option<String>) -> Option<Seq<char>> {
    match s {
        Some(s) => Some(s@),
        None => None,
    }
}

impl Config {
    /// The model that the user asked for.
    pub closed spec fn wanted(&self) -> Option<Seq<char>> {
        opt_text(self.model)
    }

    /// The address of each provider, by identifier.
    pub closed spec fn providers(&self) -> Map<Seq<char>, Option<Seq<char>>> {
        self.model_providers@.map_values(|info: ModelProviderInfo| opt_text(info.base_url))
    }

    /// Settings without any provider.
    pub fn new(model: Option<String>) -> (r: Config)
        ensures
            r.wanted() == opt_text(model),
            r.providers() == Map::<Seq<char>, Option<Seq<char>>>::empty(),
    {
        let r = Config { model, model_providers: StringHashMap::new() };
        assert(r.providers() =~= Map::<Seq<char>, Option<Seq<char>>>::empty());
        r
    }

    /// Adds a provider, in place of an earlier one with the same identifier.
    pub fn add_provider(&mut self, id: String, info: ModelProviderInfo)
        ensures
            final(self).wanted() == old(self).wanted(),
            final(self).providers() == old(self).providers().insert(id@, opt_text(info.base_url)),
    {
        let ghost before = self.providers();
        self.model_providers.insert(id, info);
        assert(self.providers() =~= before.insert(id@, opt_text(info.base_url)));
    }

    /// The model that the user asked for.
    pub fn model(&self) -> (r: &Option<String>)
        ensures
            opt_text(*r) == self.wanted(),
    {
        &self.model
    }

    /// The provider with identifier `id`.
    pub fn provider(&self, id: &str) -> (r: Option<&ModelProviderInfo>)
        ensures
            r is Some <==> self.providers().contains_key(id@),
            r matches Some(info) ==> opt_text(info.base_url) == self.providers()[id@],
    {
        self.model_providers.get(id)
    }
}

/// An optional string has the characters of the string, where there is one.
pub proof fn law_optional_text(s: Option<String>)
    ensures
        opt_text(s) is Some <==> s is Some,
        s matches Some(text) ==> opt_text(s) == Some(text@),
{
}

} // verus!
