//! Service configuration: lint levels and inlay hint switches.

use vstd::prelude::*;

verus! {

/// Severity level when lint reports.
#[derive(Clone, Copy, Debug, PartialEq, Eq, Structural)]
pub enum LintLevel {
    Allow,
    Hint,
    Warn,
    Deny,
}

/// Configuration about linting.
#[derive(Clone, Copy, Debug, PartialEq, Eq, Structural)]
pub struct Lints {
    /// Lint for detecting unused items.
    pub unused: LintLevel,
    /// Lint for detecting shadowing.
    pub shadow: LintLevel,
    /// Lint for top-level module fields without declaring a module.
    pub implicit_module: LintLevel,
    /// Lint for detecting multiple modules in a single file.
    pub multi_modules: LintLevel,
    /// Lint for detecting unreachable code.
    pub unreachable: LintLevel,
    /// Lint for detecting mutable globals that are never mutated.
    pub needless_mut: LintLevel,
    /// Lint for detecting `try_table` block without catch clauses.
    pub needless_try_table: LintLevel,
    /// Lint for detecting useless catch clauses.
    pub useless_catch: LintLevel,
}

/// The lint levels used when nothing else is configured.
pub open spec fn default_lints() -> Lints {
    Lints {
        unused: LintLevel::Warn,
        shadow: LintLevel::Warn,
        implicit_module: LintLevel::Allow,
        multi_modules: LintLevel::Deny,
        unreachable: LintLevel::Hint,
        needless_mut: LintLevel::Warn,
        needless_try_table: LintLevel::Warn,
        useless_catch: LintLevel::Warn,
    }
}

impl Default for Lints {
    fn default() -> (r: Lints)
        ensures
            r == default_lints(),
    {
        Lints {
            unused: LintLevel::Warn,
            shadow: LintLevel::Warn,
            implicit_module: LintLevel::Allow,
            multi_modules: LintLevel::Deny,
            unreachable: LintLevel::Hint,
            needless_mut: LintLevel::Warn,
            needless_try_table: LintLevel::Warn,
            useless_catch: LintLevel::Warn,
        }
    }
}

/// Configuration about inlay hints.
#[derive(Clone, Copy, Debug, PartialEq, Eq, Structural)]
pub struct InlayHintOptions {
    /// Inlay hints for indicating types.
    pub types: bool,
    /// Inlay hints that show at the end of blocks and functions.
    pub ending: bool,
    /// Inlay hints for showing idx.
    pub index: bool,
}

impl Default for InlayHintOptions {
    fn default() -> (r: InlayHintOptions)
        ensures
            r.types && r.ending && r.index,
    {
        InlayHintOptions { types: true, ending: true, index: true }
    }
}

/// Language service configuration, which can differ from document to document.
#[derive(Clone, Copy, Debug, PartialEq, Eq, Structural)]
pub struct ServiceConfig {
    /// Configuration about linting.
    pub lint: Lints,
    /// Configuration about inlay hints.
    pub inlay_hint: InlayHintOptions,
}

/// The configuration used when nothing else is configured.
pub open spec fn default_config() -> ServiceConfig {
    ServiceConfig {
        lint: default_lints(),
        inlay_hint: InlayHintOptions { types: true, ending: true, index: true },
    }
}

impl Default for ServiceConfig {
    fn default() -> (r: ServiceConfig)
        ensures
            r == default_config(),
    {
        ServiceConfig { lint: Lints::default(), inlay_hint: InlayHintOptions::default() }
    }
}

/// The configuration of one document: the global one, or its own.
#[derive(Clone, Copy, Debug, PartialEq, Eq, Structural)]
pub enum ConfigState {
    Inherit,
    Override(ServiceConfig),
}

impl ConfigState {
    /// The configuration that applies: the document's own, else the global one.
    pub fn get_or_global<'a>(&'a self, global: &'a ServiceConfig) -> (r: &'a ServiceConfig)
        ensures
            *r == match *self {
                ConfigState::Inherit => *global,
                ConfigState::Override(c) => c,
            },
    {
        match self {
            ConfigState::Inherit => global,
            ConfigState::Override(config) => config,
        }
    }

    /// The state a requested configuration gives: `None` inherits the global one.
    pub fn from_option(config: Option<ServiceConfig>) -> (r: ConfigState)
        ensures
            r == match config {
                None => ConfigState::Inherit,
                Some(c) => ConfigState::Override(c),
            },
    {
        match config {
            None => ConfigState::Inherit,
            Some(c) => ConfigState::Override(c),
        }
    }
}

} // verus!
