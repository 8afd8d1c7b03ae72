//! The `release-kthx.toml` configuration and its validation.

use vstd::prelude::*;

use crate::text::{contains_seq, contains_str, is_blank, owned, push_str, trim};

verus! {

/// The whole configuration file.
#[derive(Debug)]
pub struct ReleaseKthxConfig {
    pub release: ReleaseConfig,
    pub github: GithubConfig,
}

/// What to do with the version requirements of internal dependencies.
#[derive(Debug, Clone, Copy, PartialEq, Eq, Structural)]
pub enum InternalDependencyPolicy {
    Auto,
    Strip,
    Update,
}

/// The `[release]` table.
#[derive(Debug)]
pub struct ReleaseConfig {
    pub tag_template: String,
    pub internal_dependency_policy: InternalDependencyPolicy,
}

/// The `[github]` table.
#[derive(Debug)]
pub struct GithubConfig {
    pub create_release: bool,
    pub token_env: String,
    pub repository_env: String,
}

/// Why a configuration is rejected.
#[derive(Debug, Clone, Copy, PartialEq, Eq, Structural)]
pub enum ConfigError {
    EmptyTagTemplate,
    TagTemplateWithoutVersion,
    EmptyTokenEnv,
    EmptyRepositoryEnv,
}

/// The placeholder a tag template must hold.
pub open spec fn version_placeholder() -> Seq<char> {
    "{{ version }}"@
}

/// The outcome of validating a configuration: the first of its checks that
/// fails, in the order tag template, placeholder, token variable, repository
/// variable.
pub open spec fn validation(cfg: ReleaseKthxConfig) -> Result<(), ConfigError> {
    if trim(cfg.release.tag_template@).len() == 0 {
        Err(ConfigError::EmptyTagTemplate)
    } else if !contains_seq(cfg.release.tag_template@, version_placeholder()) {
        Err(ConfigError::TagTemplateWithoutVersion)
    } else if trim(cfg.github.token_env@).len() == 0 {
        Err(ConfigError::EmptyTokenEnv)
    } else if trim(cfg.github.repository_env@).len() == 0 {
        Err(ConfigError::EmptyRepositoryEnv)
    } else {
        Ok(())
    }
}

/// The message of a configuration error.
pub open spec fn config_error_text(e: ConfigError) -> Seq<char> {
    match e {
        ConfigError::EmptyTagTemplate => "release.tag_template cannot be empty"@,
        ConfigError::TagTemplateWithoutVersion => "release.tag_template must contain '{ version }'"@,
        ConfigError::EmptyTokenEnv => "github.token_env cannot be empty"@,
        ConfigError::EmptyRepositoryEnv => "github.repository_env cannot be empty"@,
    }
}

impl ConfigError {
    /// The message of the error (what `Display` shows).
    pub fn to_string(&self) -> (s: String)
        ensures
            s@ == config_error_text(*self),
    {
        match self {
            ConfigError::EmptyTagTemplate => owned("release.tag_template cannot be empty"),
            ConfigError::TagTemplateWithoutVersion => owned(
                "release.tag_template must contain '{ version }'",
            ),
            ConfigError::EmptyTokenEnv => owned("github.token_env cannot be empty"),
            ConfigError::EmptyRepositoryEnv => owned("github.repository_env cannot be empty"),
        }
    }
}

impl Default for InternalDependencyPolicy {
    fn default() -> (p: Self)
        ensures
            p == InternalDependencyPolicy::Auto,
    {
        InternalDependencyPolicy::Auto
    }
}

impl Default for ReleaseConfig {
    fn default() -> (c: Self)
        ensures
            c.tag_template@ == "{{ crate }}-v{{ version }}"@,
            c.internal_dependency_policy == InternalDependencyPolicy::Auto,
    {
        ReleaseConfig {
            tag_template: owned("{{ crate }}-v{{ version }}"),
            internal_dependency_policy: InternalDependencyPolicy::Auto,
        }
    }
}

impl Default for GithubConfig {
    fn default() -> (c: Self)
        ensures
            c.create_release,
            c.token_env@ == "GITHUB_TOKEN"@,
            c.repository_env@ == "GITHUB_REPOSITORY"@,
    {
        GithubConfig {
            create_release: true,
            token_env: owned("GITHUB_TOKEN"),
            repository_env: owned("GITHUB_REPOSITORY"),
        }
    }
}

impl Default for ReleaseKthxConfig {
    fn default() -> (c: Self)
        ensures
            c.release.tag_template@ == "{{ crate }}-v{{ version }}"@,
            c.release.internal_dependency_policy == InternalDependencyPolicy::Auto,
            c.github.create_release,
            c.github.token_env@ == "GITHUB_TOKEN"@,
            c.github.repository_env@ == "GITHUB_REPOSITORY"@,
    {
        ReleaseKthxConfig { release: ReleaseConfig::default(), github: GithubConfig::default() }
    }
}

impl ReleaseKthxConfig {
    /// Checks the configuration: the tag template must be non-blank and hold
    /// `{{ version }}`, and both environment variable names must be non-blank.
    pub fn validate(&self) -> (r: Result<(), ConfigError>)
        ensures
            r == validation(*self),
    {
        if is_blank(self.release.tag_template.as_str()) {
            return Err(ConfigError::EmptyTagTemplate);
        }
        if !contains_str(self.release.tag_template.as_str(), "{{ version }}") {
            return Err(ConfigError::TagTemplateWithoutVersion);
        }
        if is_blank(self.github.token_env.as_str()) {
            return Err(ConfigError::EmptyTokenEnv);
        }
        if is_blank(self.github.repository_env.as_str()) {
            return Err(ConfigError::EmptyRepositoryEnv);
        }
        Ok(())
    }
}

/// The default configuration passes validation.
pub proof fn lemma_default_config_validates(cfg: ReleaseKthxConfig)
    requires
        cfg.release.tag_template@ == "{{ crate }}-v{{ version }}"@,
        cfg.github.token_env@ == "GITHUB_TOKEN"@,
        cfg.github.repository_env@ == "GITHUB_REPOSITORY"@,
    ensures
        validation(cfg) is Ok,
{
    reveal_strlit("{{ crate }}-v{{ version }}");
    reveal_strlit("{{ version }}");
    reveal_strlit("GITHUB_TOKEN");
    reveal_strlit("GITHUB_REPOSITORY");
    let t = cfg.release.tag_template@;
    assert(crate::text::occurs_at(t, version_placeholder(), 13)) by {
        assert(t.subrange(13, 26) =~= version_placeholder());
    }
    assert(!crate::text::is_whitespace(t[0]));
    assert(trim(t).len() > 0) by {
        reveal_with_fuel(crate::text::trim_start, 2);
        reveal_with_fuel(crate::text::trim_end, 2);
        lemma_trim_nonblank(t, 0);
    }
    assert(trim(cfg.github.token_env@).len() > 0) by {
        lemma_trim_nonblank(cfg.github.token_env@, 0);
    }
    assert(trim(cfg.github.repository_env@).len() > 0) by {
        lemma_trim_nonblank(cfg.github.repository_env@, 0);
    }
}

/// A sequence holding a non-whitespace character is not blank after trimming.
pub proof fn lemma_trim_nonblank(s: Seq<char>, i: int)
    requires
        0 <= i < s.len(),
        !crate::text::is_whitespace(s[i]),
    ensures
        trim(s).len() > 0,
{
    crate::text::lemma_trim_keeps(s, i);
}

} // verus!
