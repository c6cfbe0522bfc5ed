//! Code transpilation utilities: configuration, builder, and the
//! transpiler front end.

use vstd::prelude::*;

use crate::types::{language_token, Error, Language};

verus! {

/// Transpiler configuration.
#[derive(Debug, Clone, Copy)]
pub struct TranspilerConfig {
    /// Source language.
    pub source_lang: Language,
    /// Target language (always Rust for now).
    pub target_lang: Language,
    /// Enable incremental compilation.
    pub incremental: bool,
    /// Enable caching.
    pub cache_enabled: bool,
}

impl Default for TranspilerConfig {
    /// The default configuration: Python to Rust, nothing enabled.
    fn default() -> (r: TranspilerConfig)
        ensures
            r.source_lang == Language::Python,
            r.target_lang == Language::Rust,
            !r.incremental,
            !r.cache_enabled,
    {
        TranspilerConfig {
            source_lang: Language::Python,
            target_lang: Language::Rust,
            incremental: false,
            cache_enabled: false,
        }
    }
}

impl TranspilerConfig {
    /// Create a new transpiler configuration builder.
    pub fn builder() -> (r: ConfigBuilder)
        ensures
            r.source_lang_spec() is None,
            !r.incremental_spec(),
            !r.cache_spec(),
    {
        ConfigBuilder::default()
    }
}

/// Builder for transpiler configuration.
pub struct ConfigBuilder {
    source_lang: Option<Language>,
    incremental: bool,
    cache_enabled: bool,
}

impl Default for ConfigBuilder {
    /// A builder with nothing set.
    fn default() -> (r: ConfigBuilder)
        ensures
            r.source_lang_spec() is None,
            !r.incremental_spec(),
            !r.cache_spec(),
    {
        ConfigBuilder { source_lang: None, incremental: false, cache_enabled: false }
    }
}

impl ConfigBuilder {
    /// The chosen source language, if one was set.
    pub closed spec fn source_lang_spec(&self) -> Option<Language> {
        self.source_lang
    }

    /// Whether incremental compilation was enabled.
    pub closed spec fn incremental_spec(&self) -> bool {
        self.incremental
    }

    /// Whether caching was enabled.
    pub closed spec fn cache_spec(&self) -> bool {
        self.cache_enabled
    }

    /// Set source language.
    pub fn source_language(self, lang: Language) -> (r: ConfigBuilder)
        ensures
            r.source_lang_spec() == Some(lang),
            r.incremental_spec() == self.incremental_spec(),
            r.cache_spec() == self.cache_spec(),
    {
        ConfigBuilder {
            source_lang: Some(lang),
            incremental: self.incremental,
            cache_enabled: self.cache_enabled,
        }
    }

    /// Enable incremental compilation.
    pub fn incremental(self, enabled: bool) -> (r: ConfigBuilder)
        ensures
            r.source_lang_spec() == self.source_lang_spec(),
            r.incremental_spec() == enabled,
            r.cache_spec() == self.cache_spec(),
    {
        ConfigBuilder {
            source_lang: self.source_lang,
            incremental: enabled,
            cache_enabled: self.cache_enabled,
        }
    }

    /// Enable caching.
    pub fn cache(self, enabled: bool) -> (r: ConfigBuilder)
        ensures
            r.source_lang_spec() == self.source_lang_spec(),
            r.incremental_spec() == self.incremental_spec(),
            r.cache_spec() == enabled,
    {
        ConfigBuilder {
            source_lang: self.source_lang,
            incremental: self.incremental,
            cache_enabled: enabled,
        }
    }

    /// Build the configuration.  A missing source language falls back
    /// to Python; the target language is always Rust.
    pub fn build(self) -> (r: Result<TranspilerConfig, Error>)
        ensures
            r is Ok,
            r->Ok_0.source_lang == match self.source_lang_spec() {
                Some(lang) => lang,
                None => Language::Python,
            },
            r->Ok_0.target_lang == Language::Rust,
            r->Ok_0.incremental == self.incremental_spec(),
            r->Ok_0.cache_enabled == self.cache_spec(),
    {
        let source_lang = match self.source_lang {
            Some(lang) => lang,
            None => Language::Python,
        };
        Ok(
            TranspilerConfig {
                source_lang,
                target_lang: Language::Rust,
                incremental: self.incremental,
                cache_enabled: self.cache_enabled,
            },
        )
    }
}

/// The text that transpilation stamps out for a nonempty source in
/// the given language.
pub open spec fn transpiled_text(lang: Language) -> Seq<char> {
    "// Transpiled from "@ + language_token(lang)
        + "\nfn main() {\n    puts(\"Hello from transpiled code!\");\n}"@
}

/// Transpiler for converting source code.
pub struct Transpiler {
    config: TranspilerConfig,
}

impl Transpiler {
    /// The configured source language.
    pub closed spec fn source_lang_spec(&self) -> Language {
        self.config.source_lang
    }

    /// The configuration this transpiler was created with.
    pub closed spec fn config_spec(&self) -> TranspilerConfig {
        self.config
    }

    /// Create a new transpiler with the given configuration.
    pub fn new(config: TranspilerConfig) -> (r: Transpiler)
        ensures
            r.config_spec() == config,
    {
        Transpiler { config }
    }

    /// The configured source language.
    pub fn source_language(&self) -> (r: Language)
        ensures
            r == self.source_lang_spec(),
    {
        self.config.source_lang
    }

    /// Transpile source code to Rust.  Empty source is rejected;
    /// nonempty source yields a stub program that names the source
    /// language.
    pub fn transpile(&self, source: &str) -> (r: Result<String, Error>)
        ensures
            source@.len() == 0 <==> r is Err,
            r is Err ==> (r->Err_0 matches Error::TranspilationError(m) && m@ == "Empty source"@),
            r is Ok ==> r->Ok_0@ == transpiled_text(self.source_lang_spec()),
    {
        if source.is_empty() {
            let mut m = String::new();
            m.append("Empty source");
            return Err(Error::TranspilationError(m));
        }
        let mut out = String::new();
        out.append("// Transpiled from ");
        out.append(self.config.source_lang.name());
        out.append("\nfn main() {\n    puts(\"Hello from transpiled code!\");\n}");
        Ok(out)
    }
}

} // verus!
