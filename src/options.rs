//! Plugin options: the configuration as written, and its normalized form.

use vstd::prelude::*;
use vstd::string::StringExecFns;

verus! {

pub const DEFAULT_I18N_SOURCE: &'static str = "@lingui/core";

pub const DEFAULT_I18N_EXPORT: &'static str = "i18n";

pub const DEFAULT_TRANS_SOURCE: &'static str = "@lingui/react";

pub const DEFAULT_TRANS_EXPORT: &'static str = "Trans";

pub const DEFAULT_USE_LINGUI_SOURCE: &'static str = "@lingui/react";

pub const DEFAULT_USE_LINGUI_EXPORT: &'static str = "useLingui";

/// The environment in which non-essential fields are stripped by default.
pub const PRODUCTION_ENV: &'static str = "production";

/// A runtime module as configured: the module to import from and,
/// optionally, the name of its export.
#[derive(Debug, PartialEq)]
pub struct RuntimeModulesConfig(pub String, pub Option<String>);

/// The configured runtime modules; each may be left out.
#[derive(Debug, PartialEq)]
pub struct RuntimeModulesConfigMap {
    pub i18n: Option<RuntimeModulesConfig>,
    pub trans: Option<RuntimeModulesConfig>,
    pub use_lingui: Option<RuntimeModulesConfig>,
}

/// The options as written in the configuration.
#[derive(Debug, PartialEq)]
pub struct LinguiJsOptions {
    pub runtime_modules: Option<RuntimeModulesConfigMap>,
    pub strip_non_essential_fields: Option<bool>,
}

/// The runtime modules as (module, export name) pairs.
#[derive(Debug)]
pub struct RuntimeModulesConfigMapNormalized {
    pub i18n: (String, String),
    pub trans: (String, String),
    pub use_lingui: (String, String),
}

/// The options in effect.
#[derive(Debug)]
pub struct LinguiOptions {
    pub strip_non_essential_fields: bool,
    pub runtime_modules: RuntimeModulesConfigMapNormalized,
}

/// A configured runtime module, with the defaults filled in.
pub open spec fn module_or(c: Option<RuntimeModulesConfig>, source: Seq<char>, export: Seq<char>) -> (Seq<char>, Seq<char>) {
    match c {
        Some(m) => (m.0@, match m.1 {
            Some(e) => e@,
            None => export,
        }),
        None => (source, export),
    }
}

pub open spec fn pair_view(p: (String, String)) -> (Seq<char>, Seq<char>) {
    (p.0@, p.1@)
}

impl LinguiJsOptions {
    pub open spec fn i18n_config(&self) -> Option<RuntimeModulesConfig> {
        match self.runtime_modules {
            Some(m) => m.i18n,
            None => None,
        }
    }

    pub open spec fn trans_config(&self) -> Option<RuntimeModulesConfig> {
        match self.runtime_modules {
            Some(m) => m.trans,
            None => None,
        }
    }

    pub open spec fn use_lingui_config(&self) -> Option<RuntimeModulesConfig> {
        match self.runtime_modules {
            Some(m) => m.use_lingui,
            None => None,
        }
    }

    /// The options in effect in the environment `env_name`: what is
    /// configured, and defaults for the rest. Non-essential fields are
    /// stripped by default in production only.
    pub fn to_options(self, env_name: &str) -> (r: LinguiOptions)
        ensures
            r.strip_non_essential_fields == (match self.strip_non_essential_fields {
                Some(b) => b,
                None => env_name@ == PRODUCTION_ENV@,
            }),
            pair_view(r.runtime_modules.i18n) == module_or(
                self.i18n_config(),
                DEFAULT_I18N_SOURCE@,
                DEFAULT_I18N_EXPORT@,
            ),
            pair_view(r.runtime_modules.trans) == module_or(
                self.trans_config(),
                DEFAULT_TRANS_SOURCE@,
                DEFAULT_TRANS_EXPORT@,
            ),
            pair_view(r.runtime_modules.use_lingui) == module_or(
                self.use_lingui_config(),
                DEFAULT_USE_LINGUI_SOURCE@,
                DEFAULT_USE_LINGUI_EXPORT@,
            ),
    {
        let strip_non_essential_fields = match self.strip_non_essential_fields {
            Some(b) => b,
            None => String::from_str(env_name) == String::from_str(PRODUCTION_ENV),
        };
        let (i18n, trans, use_lingui) = match self.runtime_modules {
            Some(m) => (m.i18n, m.trans, m.use_lingui),
            None => (None, None, None),
        };
        LinguiOptions {
            strip_non_essential_fields,
            runtime_modules: RuntimeModulesConfigMapNormalized {
                i18n: normalize_module(i18n, DEFAULT_I18N_SOURCE, DEFAULT_I18N_EXPORT),
                trans: normalize_module(trans, DEFAULT_TRANS_SOURCE, DEFAULT_TRANS_EXPORT),
                use_lingui: normalize_module(
                    use_lingui,
                    DEFAULT_USE_LINGUI_SOURCE,
                    DEFAULT_USE_LINGUI_EXPORT,
                ),
            },
        }
    }
}

fn normalize_module(c: Option<RuntimeModulesConfig>, source: &str, export: &str) -> (r: (String, String))
    ensures
        pair_view(r) == module_or(c, source@, export@),
{
    match c {
        Some(RuntimeModulesConfig(module, name)) => {
            let name = match name {
                Some(e) => e,
                None => String::from_str(export),
            };
            (module, name)
        },
        None => (String::from_str(source), String::from_str(export)),
    }
}

fn clone_pair(p: &(String, String)) -> (r: (String, String))
    ensures
        r == *p,
{
    (p.0.clone(), p.1.clone())
}

impl Clone for RuntimeModulesConfigMapNormalized {
    fn clone(&self) -> (r: Self)
        ensures
            r == *self,
    {
        RuntimeModulesConfigMapNormalized {
            i18n: clone_pair(&self.i18n),
            trans: clone_pair(&self.trans),
            use_lingui: clone_pair(&self.use_lingui),
        }
    }
}

impl Clone for LinguiOptions {
    fn clone(&self) -> (r: Self)
        ensures
            r == *self,
    {
        LinguiOptions {
            strip_non_essential_fields: self.strip_non_essential_fields,
            runtime_modules: self.runtime_modules.clone(),
        }
    }
}

impl Default for LinguiOptions {
    fn default() -> (r: LinguiOptions)
        ensures
            !r.strip_non_essential_fields,
            pair_view(r.runtime_modules.i18n) == (DEFAULT_I18N_SOURCE@, DEFAULT_I18N_EXPORT@),
            pair_view(r.runtime_modules.trans) == (DEFAULT_TRANS_SOURCE@, DEFAULT_TRANS_EXPORT@),
            pair_view(r.runtime_modules.use_lingui) == (
                DEFAULT_USE_LINGUI_SOURCE@,
                DEFAULT_USE_LINGUI_EXPORT@,
            ),
    {
        LinguiOptions {
            strip_non_essential_fields: false,
            runtime_modules: RuntimeModulesConfigMapNormalized {
                i18n: (String::from_str(DEFAULT_I18N_SOURCE), String::from_str(DEFAULT_I18N_EXPORT)),
                trans: (
                    String::from_str(DEFAULT_TRANS_SOURCE),
                    String::from_str(DEFAULT_TRANS_EXPORT),
                ),
                use_lingui: (
                    String::from_str(DEFAULT_USE_LINGUI_SOURCE),
                    String::from_str(DEFAULT_USE_LINGUI_EXPORT),
                ),
            },
        }
    }
}

} // verus!
