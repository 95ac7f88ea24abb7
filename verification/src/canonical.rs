//! The canonical tables: kind and severity labels and the threshold levels.
use vstd::prelude::*;
use crate::types::{all_kinds, all_severities, kind_from_name, severity_from_name, FindingKind, Severity, lemma_kind_name_round_trip, lemma_severity_name_round_trip};
use crate::text::{chars_of, eq_str};

verus! {

/// The limits of one threshold level.
///
/// Ratio limits are given in basis points (ten-thousandths): a
/// `comment_ratio_min_bp` of 300 stands for a ratio of 0.03.
#[derive(Debug, Clone, Copy, PartialEq, Eq, Structural)]
pub struct ThresholdValues {
    pub line_count_limit: usize,
    pub fan_in_limit: usize,
    pub fan_out_limit: usize,
    pub reexport_limit: usize,
    pub branch_density_limit: usize,
    pub nesting_depth_limit: usize,
    pub type_depth_limit: usize,
    pub comment_ratio_min_bp: usize,
    pub comment_ratio_max_bp: usize,
    pub decorator_density_limit_bp: usize,
    pub empty_catch_limit: usize,
    pub dangerous_pattern_limit: usize,
    pub string_comparison_limit: usize,
    pub import_domain_limit: usize,
}

pub open spec fn strict_values() -> ThresholdValues {
    ThresholdValues {
        line_count_limit: 300,
        fan_in_limit: 5,
        fan_out_limit: 10,
        reexport_limit: 5,
        branch_density_limit: 8,
        nesting_depth_limit: 4,
        type_depth_limit: 3,
        comment_ratio_min_bp: 300,
        comment_ratio_max_bp: 2000,
        decorator_density_limit_bp: 3300,
        empty_catch_limit: 1,
        dangerous_pattern_limit: 3,
        string_comparison_limit: 5,
        import_domain_limit: 8,
    }
}

pub open spec fn normal_values() -> ThresholdValues {
    ThresholdValues {
        line_count_limit: 500,
        fan_in_limit: 10,
        fan_out_limit: 15,
        reexport_limit: 10,
        branch_density_limit: 12,
        nesting_depth_limit: 6,
        type_depth_limit: 4,
        comment_ratio_min_bp: 300,
        comment_ratio_max_bp: 3000,
        decorator_density_limit_bp: 5000,
        empty_catch_limit: 2,
        dangerous_pattern_limit: 5,
        string_comparison_limit: 10,
        import_domain_limit: 10,
    }
}

pub open spec fn relaxed_values() -> ThresholdValues {
    ThresholdValues {
        line_count_limit: 1000,
        fan_in_limit: 20,
        fan_out_limit: 25,
        reexport_limit: 20,
        branch_density_limit: 16,
        nesting_depth_limit: 8,
        type_depth_limit: 5,
        comment_ratio_min_bp: 100,
        comment_ratio_max_bp: 4000,
        decorator_density_limit_bp: 10000,
        empty_catch_limit: 3,
        dangerous_pattern_limit: 10,
        string_comparison_limit: 15,
        import_domain_limit: 15,
    }
}

/// The level named `level`, if it is one of `strict`, `normal`, `relaxed`.
pub open spec fn level_values(level: Seq<char>) -> Option<ThresholdValues> {
    if level == "strict"@ {
        Some(strict_values())
    } else if level == "normal"@ {
        Some(normal_values())
    } else if level == "relaxed"@ {
        Some(relaxed_values())
    } else {
        None
    }
}

/// The limits of the threshold level named `level`.
pub fn threshold_values(level: &str) -> (r: ThresholdValues)
    requires
        level_values(level@) is Some,
    ensures
        level_values(level@) == Some(r),
{
    let v = chars_of(level);
    if eq_str(&v, "strict") {
        ThresholdValues {
            line_count_limit: 300,
            fan_in_limit: 5,
            fan_out_limit: 10,
            reexport_limit: 5,
            branch_density_limit: 8,
            nesting_depth_limit: 4,
            type_depth_limit: 3,
            comment_ratio_min_bp: 300,
            comment_ratio_max_bp: 2000,
            decorator_density_limit_bp: 3300,
            empty_catch_limit: 1,
            dangerous_pattern_limit: 3,
            string_comparison_limit: 5,
            import_domain_limit: 8,
        }
    } else if eq_str(&v, "normal") {
        ThresholdValues {
            line_count_limit: 500,
            fan_in_limit: 10,
            fan_out_limit: 15,
            reexport_limit: 10,
            branch_density_limit: 12,
            nesting_depth_limit: 6,
            type_depth_limit: 4,
            comment_ratio_min_bp: 300,
            comment_ratio_max_bp: 3000,
            decorator_density_limit_bp: 5000,
            empty_catch_limit: 2,
            dangerous_pattern_limit: 5,
            string_comparison_limit: 10,
            import_domain_limit: 10,
        }
    } else {
        ThresholdValues {
            line_count_limit: 1000,
            fan_in_limit: 20,
            fan_out_limit: 25,
            reexport_limit: 20,
            branch_density_limit: 16,
            nesting_depth_limit: 8,
            type_depth_limit: 5,
            comment_ratio_min_bp: 100,
            comment_ratio_max_bp: 4000,
            decorator_density_limit_bp: 10000,
            empty_catch_limit: 3,
            dangerous_pattern_limit: 10,
            string_comparison_limit: 15,
            import_domain_limit: 15,
        }
    }
}

/// Stable label of the finding kind named `id`.
pub fn kind_label(id: &str) -> (r: &'static str)
    requires
        kind_from_name(id@) is Some,
    ensures
        r@ == kind_from_name(id@)->0.label_text(),
{
    kind_by_name(id).label()
}

/// Short code of the finding kind named `id`.
pub fn kind_llm_code(id: &str) -> (r: &'static str)
    requires
        kind_from_name(id@) is Some,
    ensures
        r@ == kind_from_name(id@)->0.llm_code_text(),
{
    kind_by_name(id).llm_label()
}

/// Score category of the finding kind named `id`.
pub fn kind_category(id: &str) -> (r: &'static str)
    requires
        kind_from_name(id@) is Some,
    ensures
        r@ == kind_from_name(id@)->0.category_text(),
{
    kind_by_name(id).category()
}

/// Display label of the severity named `id`.
pub fn severity_label(id: &str) -> (r: &'static str)
    requires
        severity_from_name(id@) is Some,
    ensures
        r@ == severity_from_name(id@)->0.label_text(),
{
    severity_by_name(id).label()
}

/// One-letter label of the severity named `id`.
pub fn severity_llm_label(id: &str) -> (r: &'static str)
    requires
        severity_from_name(id@) is Some,
    ensures
        r@ == severity_from_name(id@)->0.llm_label_text(),
{
    severity_by_name(id).llm_label()
}

fn kind_by_name(id: &str) -> (k: FindingKind)
    requires
        kind_from_name(id@) is Some,
    ensures
        kind_from_name(id@) == Some(k),
{
    match crate::types::parse_finding_kind(id) {
        Ok(k) => k,
        Err(_) => FindingKind::ContextBomb,
    }
}

fn severity_by_name(id: &str) -> (s: Severity)
    requires
        severity_from_name(id@) is Some,
    ensures
        severity_from_name(id@) == Some(s),
{
    match crate::types::parse_severity(id) {
        Ok(s) => s,
        Err(_) => Severity::Low,
    }
}

/// The names of all finding kinds, in declaration order.
pub fn kind_ids() -> (r: Vec<&'static str>)
    ensures
        r@.len() == all_kinds().len(),
        forall|i: int| 0 <= i < r@.len() ==> #[trigger] r@[i]@ == all_kinds()[i].name(),
{
    let mut r: Vec<&'static str> = Vec::new();
    let ks = [
        FindingKind::ContextBomb,
        FindingKind::DeadWeight,
        FindingKind::ReexportEntropy,
        FindingKind::CouplingHotspot,
        FindingKind::CodeDuplication,
        FindingKind::UnusedImport,
        FindingKind::BranchDensity,
        FindingKind::DeepNesting,
        FindingKind::TypeComplexity,
        FindingKind::CommentRatio,
        FindingKind::ImplicitControl,
        FindingKind::ErrorSwallow,
        FindingKind::DangerousPattern,
        FindingKind::NamingEntropy,
        FindingKind::StringlyTyped,
        FindingKind::ImportDiversity,
    ];
    assert(ks@ =~= all_kinds());
    let mut i: usize = 0;
    while i < 16
        invariant
            ks@ == all_kinds(),
            i <= 16,
            r@.len() == i,
            forall|j: int| 0 <= j < i ==> #[trigger] r@[j]@ == all_kinds()[j].name(),
        decreases 16 - i,
    {
        r.push(ks[i].name_str());
        i += 1;
    }
    r
}

/// The names of all severities, from most to least severe.
pub fn severity_ids() -> (r: Vec<&'static str>)
    ensures
        r@.len() == all_severities().len(),
        forall|i: int| 0 <= i < r@.len() ==> #[trigger] r@[i]@ == all_severities()[i].name(),
{
    let mut r: Vec<&'static str> = Vec::new();
    r.push(Severity::Critical.name_str());
    r.push(Severity::High.name_str());
    r.push(Severity::Medium.name_str());
    r.push(Severity::Low.name_str());
    r
}

/// Every name in the kind table parses to a kind, and every severity name to
/// a severity: the tables and the enums agree.
pub proof fn lemma_tables_match_enums()
    ensures
        forall|i: int| 0 <= i < all_kinds().len() ==> kind_from_name(#[trigger] all_kinds()[i].name())
            == Some(all_kinds()[i]),
        forall|i: int| 0 <= i < all_severities().len() ==> severity_from_name(
            #[trigger] all_severities()[i].name(),
        ) == Some(all_severities()[i]),
{
    assert forall|i: int| 0 <= i < all_kinds().len() implies kind_from_name(
        #[trigger] all_kinds()[i].name(),
    ) == Some(all_kinds()[i]) by {
        lemma_kind_name_round_trip(all_kinds()[i]);
    }
    assert forall|i: int| 0 <= i < all_severities().len() implies severity_from_name(
        #[trigger] all_severities()[i].name(),
    ) == Some(all_severities()[i]) by {
        lemma_severity_name_round_trip(all_severities()[i]);
    }
}

/// Every kind and every severity occurs in the tables.
pub proof fn lemma_tables_complete(k: FindingKind, s: Severity)
    ensures
        all_kinds().contains(k),
        all_severities().contains(s),
{
    match k {
        FindingKind::ContextBomb => assert(all_kinds()[0] == k),
        FindingKind::DeadWeight => assert(all_kinds()[1] == k),
        FindingKind::ReexportEntropy => assert(all_kinds()[2] == k),
        FindingKind::CouplingHotspot => assert(all_kinds()[3] == k),
        FindingKind::CodeDuplication => assert(all_kinds()[4] == k),
        FindingKind::UnusedImport => assert(all_kinds()[5] == k),
        FindingKind::BranchDensity => assert(all_kinds()[6] == k),
        FindingKind::DeepNesting => assert(all_kinds()[7] == k),
        FindingKind::TypeComplexity => assert(all_kinds()[8] == k),
        FindingKind::CommentRatio => assert(all_kinds()[9] == k),
        FindingKind::ImplicitControl => assert(all_kinds()[10] == k),
        FindingKind::ErrorSwallow => assert(all_kinds()[11] == k),
        FindingKind::DangerousPattern => assert(all_kinds()[12] == k),
        FindingKind::NamingEntropy => assert(all_kinds()[13] == k),
        FindingKind::StringlyTyped => assert(all_kinds()[14] == k),
        FindingKind::ImportDiversity => assert(all_kinds()[15] == k),
    }
    match s {
        Severity::Critical => assert(all_severities()[0] == s),
        Severity::High => assert(all_severities()[1] == s),
        Severity::Medium => assert(all_severities()[2] == s),
        Severity::Low => assert(all_severities()[3] == s),
    }
}

/// Stricter levels never have looser limits: every count limit grows from
/// strict to normal to relaxed, the minimum comment ratio shrinks and the
/// maximum one grows.
pub proof fn lemma_levels_ordered()
    ensures
        strict_values().line_count_limit <= normal_values().line_count_limit
            <= relaxed_values().line_count_limit,
        strict_values().fan_in_limit <= normal_values().fan_in_limit
            <= relaxed_values().fan_in_limit,
        strict_values().fan_out_limit <= normal_values().fan_out_limit
            <= relaxed_values().fan_out_limit,
        strict_values().reexport_limit <= normal_values().reexport_limit
            <= relaxed_values().reexport_limit,
        strict_values().branch_density_limit <= normal_values().branch_density_limit
            <= relaxed_values().branch_density_limit,
        strict_values().nesting_depth_limit <= normal_values().nesting_depth_limit
            <= relaxed_values().nesting_depth_limit,
        strict_values().type_depth_limit <= normal_values().type_depth_limit
            <= relaxed_values().type_depth_limit,
        strict_values().comment_ratio_min_bp >= normal_values().comment_ratio_min_bp
            >= relaxed_values().comment_ratio_min_bp,
        strict_values().comment_ratio_max_bp <= normal_values().comment_ratio_max_bp
            <= relaxed_values().comment_ratio_max_bp,
        strict_values().decorator_density_limit_bp <= normal_values().decorator_density_limit_bp
            <= relaxed_values().decorator_density_limit_bp,
        strict_values().empty_catch_limit <= normal_values().empty_catch_limit
            <= relaxed_values().empty_catch_limit,
        strict_values().dangerous_pattern_limit <= normal_values().dangerous_pattern_limit
            <= relaxed_values().dangerous_pattern_limit,
        strict_values().string_comparison_limit <= normal_values().string_comparison_limit
            <= relaxed_values().string_comparison_limit,
        strict_values().import_domain_limit <= normal_values().import_domain_limit
            <= relaxed_values().import_domain_limit,
{
}

} // verus!
