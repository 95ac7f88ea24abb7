//! Command-line vocabulary: the threshold levels and the output formats.
use vstd::prelude::*;
use crate::canonical::{level_values, normal_values, relaxed_values, strict_values, threshold_values, ThresholdValues};

verus! {

/// What a run was asked to do.
#[derive(Debug, Clone)]
pub enum Commands {
    /// Scan the repository for AI-context-wasting patterns.
    Scan {
        path: String,
        format: OutputFormat,
        threshold: Threshold,
        include_tests: bool,
        no_color: bool,
        lang: String,
    },
    /// Generate an AI Context Efficiency report.
    Report { path: String, format: OutputFormat, threshold: Threshold, include_tests: bool, lang: String },
    /// Emit findings as JSON.
    Json { path: String, threshold: Threshold, include_tests: bool, lang: String },
    /// Explain why a file degrades AI context efficiency.
    Explain { path: String, root: String },
}

/// A parsed command line.
#[derive(Debug, Clone)]
pub struct Cli {
    pub command: Commands,
}

/// Output formats of a report.
#[derive(Debug, Clone, Copy, PartialEq, Eq, Structural)]
pub enum OutputFormat {
    Text,
    Json,
    Md,
    /// Token-optimized TSV for LLM consumption.
    Llm,
}

/// Sensitivity of the heuristics.
#[derive(Debug, Clone, Copy, PartialEq, Eq, Structural)]
pub enum Threshold {
    Strict,
    Normal,
    Relaxed,
}

impl Threshold {
    /// The limits this level stands for.
    pub open spec fn values(self) -> ThresholdValues {
        match self {
            Threshold::Strict => strict_values(),
            Threshold::Normal => normal_values(),
            Threshold::Relaxed => relaxed_values(),
        }
    }

    /// How lenient the level is: strict 0, normal 1, relaxed 2.
    pub open spec fn leniency(self) -> nat {
        match self {
            Threshold::Strict => 0,
            Threshold::Normal => 1,
            Threshold::Relaxed => 2,
        }
    }

    pub open spec fn level_text(self) -> Seq<char> {
        match self {
            Threshold::Strict => "strict"@,
            Threshold::Normal => "normal"@,
            Threshold::Relaxed => "relaxed"@,
        }
    }

    /// The level's name in the canonical table.
    pub fn level(&self) -> (r: &'static str)
        ensures
            r@ == self.level_text(),
            level_values(r@) == Some(self.values()),
    {
        proof {
            reveal_strlit("strict");
            reveal_strlit("normal");
            reveal_strlit("relaxed");
            assert("strict"@.len() == 6);
            assert("normal"@.len() == 6);
            assert("relaxed"@.len() == 7);
            assert("strict"@[0] == 's');
            assert("normal"@[0] == 'n');
        }
        match self {
            Threshold::Strict => "strict",
            Threshold::Normal => "normal",
            Threshold::Relaxed => "relaxed",
        }
    }

    fn limits(&self) -> (r: ThresholdValues)
        ensures
            r == self.values(),
    {
        threshold_values(self.level())
    }

    pub fn line_count_limit(&self) -> (r: usize)
        ensures
            r == self.values().line_count_limit,
    {
        self.limits().line_count_limit
    }

    pub fn fan_in_limit(&self) -> (r: usize)
        ensures
            r == self.values().fan_in_limit,
    {
        self.limits().fan_in_limit
    }

    pub fn fan_out_limit(&self) -> (r: usize)
        ensures
            r == self.values().fan_out_limit,
    {
        self.limits().fan_out_limit
    }

    pub fn reexport_limit(&self) -> (r: usize)
        ensures
            r == self.values().reexport_limit,
    {
        self.limits().reexport_limit
    }

    pub fn branch_density_limit(&self) -> (r: usize)
        ensures
            r == self.values().branch_density_limit,
    {
        self.limits().branch_density_limit
    }

    pub fn nesting_depth_limit(&self) -> (r: usize)
        ensures
            r == self.values().nesting_depth_limit,
    {
        self.limits().nesting_depth_limit
    }

    pub fn type_depth_limit(&self) -> (r: usize)
        ensures
            r == self.values().type_depth_limit,
    {
        self.limits().type_depth_limit
    }

    /// Minimum comment ratio, in basis points.
    pub fn comment_ratio_min_bp(&self) -> (r: usize)
        ensures
            r == self.values().comment_ratio_min_bp,
    {
        self.limits().comment_ratio_min_bp
    }

    /// Maximum comment ratio, in basis points.
    pub fn comment_ratio_max_bp(&self) -> (r: usize)
        ensures
            r == self.values().comment_ratio_max_bp,
    {
        self.limits().comment_ratio_max_bp
    }

    /// Attribute-per-function limit, in basis points.
    pub fn decorator_density_limit_bp(&self) -> (r: usize)
        ensures
            r == self.values().decorator_density_limit_bp,
    {
        self.limits().decorator_density_limit_bp
    }

    pub fn empty_catch_limit(&self) -> (r: usize)
        ensures
            r == self.values().empty_catch_limit,
    {
        self.limits().empty_catch_limit
    }

    pub fn dangerous_pattern_limit(&self) -> (r: usize)
        ensures
            r == self.values().dangerous_pattern_limit,
    {
        self.limits().dangerous_pattern_limit
    }

    pub fn string_comparison_limit(&self) -> (r: usize)
        ensures
            r == self.values().string_comparison_limit,
    {
        self.limits().string_comparison_limit
    }

    pub fn import_domain_limit(&self) -> (r: usize)
        ensures
            r == self.values().import_domain_limit,
    {
        self.limits().import_domain_limit
    }
}

} // verus!
