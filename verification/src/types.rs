//! Findings, their kinds and severities, and the report that gathers them.
use vstd::prelude::*;
use crate::text::{chars_of, dec, dec_padded, eq_str, push_dec, push_dec3, push_str, push_vec, string_of, sviews};

verus! {

/// How urgent a finding is, from most to least.
#[derive(Debug, Clone, Copy, PartialEq, Eq, Structural)]
pub enum Severity {
    Critical,
    High,
    Medium,
    Low,
}

/// The pattern a finding reports.
#[derive(Debug, Clone, Copy, PartialEq, Eq, Structural)]
pub enum FindingKind {
    ContextBomb,
    DeadWeight,
    ReexportEntropy,
    CouplingHotspot,
    CodeDuplication,
    UnusedImport,
    BranchDensity,
    DeepNesting,
    TypeComplexity,
    CommentRatio,
    ImplicitControl,
    ErrorSwallow,
    DangerousPattern,
    NamingEntropy,
    StringlyTyped,
    ImportDiversity,
}

impl Severity {
    /// Position in the severity order: `Critical` is the highest.
    pub open spec fn rank(self) -> nat {
        match self {
            Severity::Critical => 3,
            Severity::High => 2,
            Severity::Medium => 1,
            Severity::Low => 0,
        }
    }

    /// The variant's name, which identifies it in the canonical tables.
    pub open spec fn name(self) -> Seq<char> {
        match self {
            Severity::Critical => "Critical"@,
            Severity::High => "High"@,
            Severity::Medium => "Medium"@,
            Severity::Low => "Low"@,
        }
    }

    /// Display label used in reports.
    pub open spec fn label_text(self) -> Seq<char> {
        match self {
            Severity::Critical => "CRITICAL"@,
            Severity::High => "HIGH"@,
            Severity::Medium => "MEDIUM"@,
            Severity::Low => "LOW"@,
        }
    }

    /// One-letter label used in token-efficient output.
    pub open spec fn llm_label_text(self) -> Seq<char> {
        match self {
            Severity::Critical => "C"@,
            Severity::High => "H"@,
            Severity::Medium => "M"@,
            Severity::Low => "L"@,
        }
    }

    pub fn rank_exec(&self) -> (r: u8)
        ensures
            r as nat == self.rank(),
    {
        match self {
            Severity::Critical => 3,
            Severity::High => 2,
            Severity::Medium => 1,
            Severity::Low => 0,
        }
    }

    pub fn label(&self) -> (r: &'static str)
        ensures
            r@ == self.label_text(),
    {
        match self {
            Severity::Critical => "CRITICAL",
            Severity::High => "HIGH",
            Severity::Medium => "MEDIUM",
            Severity::Low => "LOW",
        }
    }

    pub fn llm_label(&self) -> (r: &'static str)
        ensures
            r@ == self.llm_label_text(),
    {
        match self {
            Severity::Critical => "C",
            Severity::High => "H",
            Severity::Medium => "M",
            Severity::Low => "L",
        }
    }

    pub fn name_str(&self) -> (r: &'static str)
        ensures
            r@ == self.name(),
    {
        match self {
            Severity::Critical => "Critical",
            Severity::High => "High",
            Severity::Medium => "Medium",
            Severity::Low => "Low",
        }
    }
}

/// The severity whose name is `s`, if any.
pub open spec fn severity_from_name(s: Seq<char>) -> Option<Severity> {
    if s == "Critical"@ {
        Some(Severity::Critical)
    } else if s == "High"@ {
        Some(Severity::High)
    } else if s == "Medium"@ {
        Some(Severity::Medium)
    } else if s == "Low"@ {
        Some(Severity::Low)
    } else {
        None
    }
}

/// Parses a severity from its variant name; any other text is refused with
/// the message `unknown Severity variant: <text>`.
pub fn parse_severity(s: &str) -> (r: Result<Severity, String>)
    ensures
        r matches Ok(v) ==> severity_from_name(s@) == Some(v),
        r matches Err(e) ==> severity_from_name(s@) is None && e@ == "unknown Severity variant: "@
            + s@,
{
    let v = chars_of(s);
    if eq_str(&v, "Critical") {
        Ok(Severity::Critical)
    } else if eq_str(&v, "High") {
        Ok(Severity::High)
    } else if eq_str(&v, "Medium") {
        Ok(Severity::Medium)
    } else if eq_str(&v, "Low") {
        Ok(Severity::Low)
    } else {
        let mut m = chars_of("unknown Severity variant: ");
        push_str(&mut m, s);
        Err(string_of(&m))
    }
}

impl FindingKind {
    /// The variant's name, which identifies it in the canonical tables.
    pub open spec fn name(self) -> Seq<char> {
        match self {
            FindingKind::ContextBomb => "ContextBomb"@,
            FindingKind::DeadWeight => "DeadWeight"@,
            FindingKind::ReexportEntropy => "ReexportEntropy"@,
            FindingKind::CouplingHotspot => "CouplingHotspot"@,
            FindingKind::CodeDuplication => "CodeDuplication"@,
            FindingKind::UnusedImport => "UnusedImport"@,
            FindingKind::BranchDensity => "BranchDensity"@,
            FindingKind::DeepNesting => "DeepNesting"@,
            FindingKind::TypeComplexity => "TypeComplexity"@,
            FindingKind::CommentRatio => "CommentRatio"@,
            FindingKind::ImplicitControl => "ImplicitControl"@,
            FindingKind::ErrorSwallow => "ErrorSwallow"@,
            FindingKind::DangerousPattern => "DangerousPattern"@,
            FindingKind::NamingEntropy => "NamingEntropy"@,
            FindingKind::StringlyTyped => "StringlyTyped"@,
            FindingKind::ImportDiversity => "ImportDiversity"@,
        }
    }

    /// Stable kebab-case label.
    pub open spec fn label_text(self) -> Seq<char> {
        match self {
            FindingKind::ContextBomb => "context-bomb"@,
            FindingKind::DeadWeight => "dead-weight"@,
            FindingKind::ReexportEntropy => "reexport-entropy"@,
            FindingKind::CouplingHotspot => "coupling-hotspot"@,
            FindingKind::CodeDuplication => "code-duplication"@,
            FindingKind::UnusedImport => "unused-import"@,
            FindingKind::BranchDensity => "branch-density"@,
            FindingKind::DeepNesting => "deep-nesting"@,
            FindingKind::TypeComplexity => "type-complexity"@,
            FindingKind::CommentRatio => "comment-ratio"@,
            FindingKind::ImplicitControl => "implicit-control"@,
            FindingKind::ErrorSwallow => "error-swallow"@,
            FindingKind::DangerousPattern => "dangerous-pattern"@,
            FindingKind::NamingEntropy => "naming-entropy"@,
            FindingKind::StringlyTyped => "stringly-typed"@,
            FindingKind::ImportDiversity => "import-diversity"@,
        }
    }

    /// Short code for token-efficient output.
    pub open spec fn llm_code_text(self) -> Seq<char> {
        match self {
            FindingKind::ContextBomb => "OVS"@,
            FindingKind::DeadWeight => "DEAD"@,
            FindingKind::ReexportEntropy => "REXP"@,
            FindingKind::CouplingHotspot => "COUP"@,
            FindingKind::CodeDuplication => "DUPL"@,
            FindingKind::UnusedImport => "UNUS"@,
            FindingKind::BranchDensity => "BRAN"@,
            FindingKind::DeepNesting => "NEST"@,
            FindingKind::TypeComplexity => "TYPE"@,
            FindingKind::CommentRatio => "CMNT"@,
            FindingKind::ImplicitControl => "HIDE"@,
            FindingKind::ErrorSwallow => "SWAL"@,
            FindingKind::DangerousPattern => "DANG"@,
            FindingKind::NamingEntropy => "MIXD"@,
            FindingKind::StringlyTyped => "STRY"@,
            FindingKind::ImportDiversity => "GODF"@,
        }
    }

    /// The score a kind of finding contributes to.
    pub open spec fn category_text(self) -> Seq<char> {
        match self {
            FindingKind::ContextBomb => "context_waste"@,
            FindingKind::DeadWeight => "structural_entropy"@,
            FindingKind::ReexportEntropy => "structural_entropy"@,
            FindingKind::CouplingHotspot => "structural_entropy"@,
            FindingKind::CodeDuplication => "structural_entropy"@,
            FindingKind::UnusedImport => "structural_entropy"@,
            _ => "reasoning_complexity"@,
        }
    }

    pub fn label(&self) -> (r: &'static str)
        ensures
            r@ == self.label_text(),
    {
        match self {
            FindingKind::ContextBomb => "context-bomb",
            FindingKind::DeadWeight => "dead-weight",
            FindingKind::ReexportEntropy => "reexport-entropy",
            FindingKind::CouplingHotspot => "coupling-hotspot",
            FindingKind::CodeDuplication => "code-duplication",
            FindingKind::UnusedImport => "unused-import",
            FindingKind::BranchDensity => "branch-density",
            FindingKind::DeepNesting => "deep-nesting",
            FindingKind::TypeComplexity => "type-complexity",
            FindingKind::CommentRatio => "comment-ratio",
            FindingKind::ImplicitControl => "implicit-control",
            FindingKind::ErrorSwallow => "error-swallow",
            FindingKind::DangerousPattern => "dangerous-pattern",
            FindingKind::NamingEntropy => "naming-entropy",
            FindingKind::StringlyTyped => "stringly-typed",
            FindingKind::ImportDiversity => "import-diversity",
        }
    }

    /// Short code for token-efficient output.
    pub fn llm_label(&self) -> (r: &'static str)
        ensures
            r@ == self.llm_code_text(),
    {
        match self {
            FindingKind::ContextBomb => "OVS",
            FindingKind::DeadWeight => "DEAD",
            FindingKind::ReexportEntropy => "REXP",
            FindingKind::CouplingHotspot => "COUP",
            FindingKind::CodeDuplication => "DUPL",
            FindingKind::UnusedImport => "UNUS",
            FindingKind::BranchDensity => "BRAN",
            FindingKind::DeepNesting => "NEST",
            FindingKind::TypeComplexity => "TYPE",
            FindingKind::CommentRatio => "CMNT",
            FindingKind::ImplicitControl => "HIDE",
            FindingKind::ErrorSwallow => "SWAL",
            FindingKind::DangerousPattern => "DANG",
            FindingKind::NamingEntropy => "MIXD",
            FindingKind::StringlyTyped => "STRY",
            FindingKind::ImportDiversity => "GODF",
        }
    }

    pub fn category(&self) -> (r: &'static str)
        ensures
            r@ == self.category_text(),
    {
        match self {
            FindingKind::ContextBomb => "context_waste",
            FindingKind::DeadWeight => "structural_entropy",
            FindingKind::ReexportEntropy => "structural_entropy",
            FindingKind::CouplingHotspot => "structural_entropy",
            FindingKind::CodeDuplication => "structural_entropy",
            FindingKind::UnusedImport => "structural_entropy",
            _ => "reasoning_complexity",
        }
    }

    pub fn name_str(&self) -> (r: &'static str)
        ensures
            r@ == self.name(),
    {
        match self {
            FindingKind::ContextBomb => "ContextBomb",
            FindingKind::DeadWeight => "DeadWeight",
            FindingKind::ReexportEntropy => "ReexportEntropy",
            FindingKind::CouplingHotspot => "CouplingHotspot",
            FindingKind::CodeDuplication => "CodeDuplication",
            FindingKind::UnusedImport => "UnusedImport",
            FindingKind::BranchDensity => "BranchDensity",
            FindingKind::DeepNesting => "DeepNesting",
            FindingKind::TypeComplexity => "TypeComplexity",
            FindingKind::CommentRatio => "CommentRatio",
            FindingKind::ImplicitControl => "ImplicitControl",
            FindingKind::ErrorSwallow => "ErrorSwallow",
            FindingKind::DangerousPattern => "DangerousPattern",
            FindingKind::NamingEntropy => "NamingEntropy",
            FindingKind::StringlyTyped => "StringlyTyped",
            FindingKind::ImportDiversity => "ImportDiversity",
        }
    }
}

/// All kinds, in declaration order.
pub open spec fn all_kinds() -> Seq<FindingKind> {
    seq![
        FindingKind::ContextBomb,
        FindingKind::DeadWeight,
        FindingKind::ReexportEntropy,
        FindingKind::CouplingHotspot,
        FindingKind::CodeDuplication,
        FindingKind::UnusedImport,
        FindingKind::BranchDensity,
        FindingKind::DeepNesting,
        FindingKind::TypeComplexity,
        FindingKind::CommentRatio,
        FindingKind::ImplicitControl,
        FindingKind::ErrorSwallow,
        FindingKind::DangerousPattern,
        FindingKind::NamingEntropy,
        FindingKind::StringlyTyped,
        FindingKind::ImportDiversity,
    ]
}

/// All severities, from most to least severe.
pub open spec fn all_severities() -> Seq<Severity> {
    seq![Severity::Critical, Severity::High, Severity::Medium, Severity::Low]
}

/// The kind whose name is `s`, if any.
pub open spec fn kind_from_name(s: Seq<char>) -> Option<FindingKind> {
    if s == "ContextBomb"@ {
        Some(FindingKind::ContextBomb)
    } else if s == "DeadWeight"@ {
        Some(FindingKind::DeadWeight)
    } else if s == "ReexportEntropy"@ {
        Some(FindingKind::ReexportEntropy)
    } else if s == "CouplingHotspot"@ {
        Some(FindingKind::CouplingHotspot)
    } else if s == "CodeDuplication"@ {
        Some(FindingKind::CodeDuplication)
    } else if s == "UnusedImport"@ {
        Some(FindingKind::UnusedImport)
    } else if s == "BranchDensity"@ {
        Some(FindingKind::BranchDensity)
    } else if s == "DeepNesting"@ {
        Some(FindingKind::DeepNesting)
    } else if s == "TypeComplexity"@ {
        Some(FindingKind::TypeComplexity)
    } else if s == "CommentRatio"@ {
        Some(FindingKind::CommentRatio)
    } else if s == "ImplicitControl"@ {
        Some(FindingKind::ImplicitControl)
    } else if s == "ErrorSwallow"@ {
        Some(FindingKind::ErrorSwallow)
    } else if s == "DangerousPattern"@ {
        Some(FindingKind::DangerousPattern)
    } else if s == "NamingEntropy"@ {
        Some(FindingKind::NamingEntropy)
    } else if s == "StringlyTyped"@ {
        Some(FindingKind::StringlyTyped)
    } else if s == "ImportDiversity"@ {
        Some(FindingKind::ImportDiversity)
    } else {
        None
    }
}

/// Parses a finding kind from its variant name; any other text is refused
/// with the message `unknown FindingKind variant: <text>`.
pub fn parse_finding_kind(s: &str) -> (r: Result<FindingKind, String>)
    ensures
        r matches Ok(v) ==> kind_from_name(s@) == Some(v),
        r matches Err(e) ==> kind_from_name(s@) is None && e@ == "unknown FindingKind variant: "@
            + s@,
{
    let v = chars_of(s);
    if eq_str(&v, "ContextBomb") {
        Ok(FindingKind::ContextBomb)
    } else if eq_str(&v, "DeadWeight") {
        Ok(FindingKind::DeadWeight)
    } else if eq_str(&v, "ReexportEntropy") {
        Ok(FindingKind::ReexportEntropy)
    } else if eq_str(&v, "CouplingHotspot") {
        Ok(FindingKind::CouplingHotspot)
    } else if eq_str(&v, "CodeDuplication") {
        Ok(FindingKind::CodeDuplication)
    } else if eq_str(&v, "UnusedImport") {
        Ok(FindingKind::UnusedImport)
    } else if eq_str(&v, "BranchDensity") {
        Ok(FindingKind::BranchDensity)
    } else if eq_str(&v, "DeepNesting") {
        Ok(FindingKind::DeepNesting)
    } else if eq_str(&v, "TypeComplexity") {
        Ok(FindingKind::TypeComplexity)
    } else if eq_str(&v, "CommentRatio") {
        Ok(FindingKind::CommentRatio)
    } else if eq_str(&v, "ImplicitControl") {
        Ok(FindingKind::ImplicitControl)
    } else if eq_str(&v, "ErrorSwallow") {
        Ok(FindingKind::ErrorSwallow)
    } else if eq_str(&v, "DangerousPattern") {
        Ok(FindingKind::DangerousPattern)
    } else if eq_str(&v, "NamingEntropy") {
        Ok(FindingKind::NamingEntropy)
    } else if eq_str(&v, "StringlyTyped") {
        Ok(FindingKind::StringlyTyped)
    } else if eq_str(&v, "ImportDiversity") {
        Ok(FindingKind::ImportDiversity)
    } else {
        let mut m = chars_of("unknown FindingKind variant: ");
        push_str(&mut m, s);
        Err(string_of(&m))
    }
}

impl core::str::FromStr for Severity {
    type Err = String;

    fn from_str(s: &str) -> (r: Result<Self, Self::Err>)
        ensures
            r matches Ok(v) ==> severity_from_name(s@) == Some(v),
            r matches Err(e) ==> severity_from_name(s@) is None && e@ == "unknown Severity variant: "@ + s@,
    {
        parse_severity(s)
    }
}

impl core::str::FromStr for FindingKind {
    type Err = String;

    fn from_str(s: &str) -> (r: Result<Self, Self::Err>)
        ensures
            r matches Ok(v) ==> kind_from_name(s@) == Some(v),
            r matches Err(e) ==> kind_from_name(s@) is None && e@ == "unknown FindingKind variant: "@ + s@,
    {
        parse_finding_kind(s)
    }
}

/// Every kind name parses back to its kind.
pub proof fn lemma_kind_name_round_trip(k: FindingKind)
    ensures
        kind_from_name(k.name()) == Some(k),
{
    reveal_strlit("ContextBomb");
    assert("ContextBomb"@.len() == 11);
    assert("ContextBomb"@[0] == 'C');
    assert("ContextBomb"@[2] == 'n');
    assert("ContextBomb"@[3] == 't');
    reveal_strlit("DeadWeight");
    assert("DeadWeight"@.len() == 10);
    assert("DeadWeight"@[0] == 'D');
    assert("DeadWeight"@[2] == 'a');
    assert("DeadWeight"@[3] == 'd');
    reveal_strlit("ReexportEntropy");
    assert("ReexportEntropy"@.len() == 15);
    assert("ReexportEntropy"@[0] == 'R');
    assert("ReexportEntropy"@[2] == 'e');
    assert("ReexportEntropy"@[3] == 'x');
    reveal_strlit("CouplingHotspot");
    assert("CouplingHotspot"@.len() == 15);
    assert("CouplingHotspot"@[0] == 'C');
    assert("CouplingHotspot"@[2] == 'u');
    assert("CouplingHotspot"@[3] == 'p');
    reveal_strlit("CodeDuplication");
    assert("CodeDuplication"@.len() == 15);
    assert("CodeDuplication"@[0] == 'C');
    assert("CodeDuplication"@[2] == 'd');
    assert("CodeDuplication"@[3] == 'e');
    reveal_strlit("UnusedImport");
    assert("UnusedImport"@.len() == 12);
    assert("UnusedImport"@[0] == 'U');
    assert("UnusedImport"@[2] == 'u');
    assert("UnusedImport"@[3] == 's');
    reveal_strlit("BranchDensity");
    assert("BranchDensity"@.len() == 13);
    assert("BranchDensity"@[0] == 'B');
    assert("BranchDensity"@[2] == 'a');
    assert("BranchDensity"@[3] == 'n');
    reveal_strlit("DeepNesting");
    assert("DeepNesting"@.len() == 11);
    assert("DeepNesting"@[0] == 'D');
    assert("DeepNesting"@[2] == 'e');
    assert("DeepNesting"@[3] == 'p');
    reveal_strlit("TypeComplexity");
    assert("TypeComplexity"@.len() == 14);
    assert("TypeComplexity"@[0] == 'T');
    assert("TypeComplexity"@[2] == 'p');
    assert("TypeComplexity"@[3] == 'e');
    reveal_strlit("CommentRatio");
    assert("CommentRatio"@.len() == 12);
    assert("CommentRatio"@[0] == 'C');
    assert("CommentRatio"@[2] == 'm');
    assert("CommentRatio"@[3] == 'm');
    reveal_strlit("ImplicitControl");
    assert("ImplicitControl"@.len() == 15);
    assert("ImplicitControl"@[0] == 'I');
    assert("ImplicitControl"@[2] == 'p');
    assert("ImplicitControl"@[3] == 'l');
    reveal_strlit("ErrorSwallow");
    assert("ErrorSwallow"@.len() == 12);
    assert("ErrorSwallow"@[0] == 'E');
    assert("ErrorSwallow"@[2] == 'r');
    assert("ErrorSwallow"@[3] == 'o');
    reveal_strlit("DangerousPattern");
    assert("DangerousPattern"@.len() == 16);
    assert("DangerousPattern"@[0] == 'D');
    assert("DangerousPattern"@[2] == 'n');
    assert("DangerousPattern"@[3] == 'g');
    reveal_strlit("NamingEntropy");
    assert("NamingEntropy"@.len() == 13);
    assert("NamingEntropy"@[0] == 'N');
    assert("NamingEntropy"@[2] == 'm');
    assert("NamingEntropy"@[3] == 'i');
    reveal_strlit("StringlyTyped");
    assert("StringlyTyped"@.len() == 13);
    assert("StringlyTyped"@[0] == 'S');
    assert("StringlyTyped"@[2] == 'r');
    assert("StringlyTyped"@[3] == 'i');
    reveal_strlit("ImportDiversity");
    assert("ImportDiversity"@.len() == 15);
    assert("ImportDiversity"@[0] == 'I');
    assert("ImportDiversity"@[2] == 'p');
    assert("ImportDiversity"@[3] == 'o');
}

/// Every severity name parses back to its severity.
pub proof fn lemma_severity_name_round_trip(s: Severity)
    ensures
        severity_from_name(s.name()) == Some(s),
{
    reveal_strlit("Critical");
    assert("Critical"@.len() == 8);
    assert("Critical"@[0] == 'C');
    reveal_strlit("High");
    assert("High"@.len() == 4);
    assert("High"@[0] == 'H');
    reveal_strlit("Medium");
    assert("Medium"@.len() == 6);
    assert("Medium"@[0] == 'M');
    reveal_strlit("Low");
    assert("Low"@.len() == 3);
    assert("Low"@[0] == 'L');
}

/// The identifier of the `n`-th finding of a heuristic: `<prefix>-<n:03>`.
pub open spec fn finding_id(prefix: Seq<char>, n: nat) -> Seq<char> {
    prefix + "-"@ + dec_padded(n, 3)
}

/// The identifier `<prefix>-<n:03>`.
pub fn id_for(prefix: &str, n: usize) -> (r: String)
    ensures
        r@ == finding_id(prefix@, n as nat),
{
    let mut v = chars_of(prefix);
    v.push('-');
    push_dec3(&mut v, n as u64);
    proof {
        reveal_strlit("-");
    }
    assert(v@ =~= finding_id(prefix@, n as nat));
    string_of(&v)
}

/// Returns the next finding ID with the given prefix, incrementing the counter.
pub fn next_finding_id(prefix: &str, counter: &mut usize) -> (r: String)
    requires
        *old(counter) < usize::MAX,
    ensures
        *final(counter) == *old(counter) + 1,
        r@ == finding_id(prefix@, *final(counter) as nat),
{
    *counter += 1;
    id_for(prefix, *counter)
}

/// `<key>: <value>`, the shape of every evidence line.
pub open spec fn kv(key: Seq<char>, value: Seq<char>) -> Seq<char> {
    key + ": "@ + value
}

/// `<key>: <n>` as a string.
pub fn kv_num(key: &str, n: usize) -> (r: String)
    ensures
        r@ == kv(key@, dec(n as nat)),
{
    let mut v = chars_of(key);
    push_str(&mut v, ": ");
    push_dec(&mut v, n as u64);
    assert(v@ =~= kv(key@, dec(n as nat)));
    string_of(&v)
}

/// `<key>: <text>` as a string.
pub fn kv_text(key: &str, value: &Vec<char>) -> (r: String)
    ensures
        r@ == kv(key@, value@),
{
    let mut v = chars_of(key);
    push_str(&mut v, ": ");
    push_vec(&mut v, value);
    assert(v@ =~= kv(key@, value@));
    string_of(&v)
}

/// One detected pattern in one file.
///
/// `confidence_pct` is the confidence in hundredths (85 stands for 0.85).
#[derive(Debug, Clone)]
pub struct Finding {
    pub id: String,
    pub kind: FindingKind,
    pub severity: Severity,
    pub confidence_pct: u32,
    pub path: String,
    pub summary: String,
    pub reasons: Vec<String>,
    pub evidence: Vec<String>,
    pub suggested_next_step: String,
    pub estimated_tokens: Option<usize>,
}

impl Finding {
    /// All fields of the finding, as views.
    pub open spec fn is(
        self,
        id: Seq<char>,
        kind: FindingKind,
        severity: Severity,
        confidence_pct: u32,
        path: Seq<char>,
        summary: Seq<char>,
        reasons: Seq<Seq<char>>,
        evidence: Seq<Seq<char>>,
        next: Seq<char>,
        tokens: Option<usize>,
    ) -> bool {
        &&& self.id@ == id
        &&& self.kind == kind
        &&& self.severity == severity
        &&& self.confidence_pct == confidence_pct
        &&& self.path@ == path
        &&& self.summary@ == summary
        &&& sviews(self.reasons@) == reasons
        &&& sviews(self.evidence@) == evidence
        &&& self.suggested_next_step@ == next
        &&& self.estimated_tokens == tokens
    }

    /// Two findings that hold the same values in every field.
    pub open spec fn same_as(self, other: Finding) -> bool {
        self.is(
            other.id@,
            other.kind,
            other.severity,
            other.confidence_pct,
            other.path@,
            other.summary@,
            sviews(other.reasons@),
            sviews(other.evidence@),
            other.suggested_next_step@,
            other.estimated_tokens,
        )
    }

    /// A finding with empty summary, reasons and next step, and no token estimate.
    pub fn new(
        id: String,
        kind: FindingKind,
        severity: Severity,
        confidence_pct: u32,
        path: String,
        evidence: Vec<String>,
    ) -> (f: Finding)
        ensures
            f.is(
                id@,
                kind,
                severity,
                confidence_pct,
                path@,
                Seq::empty(),
                Seq::empty(),
                sviews(evidence@),
                Seq::empty(),
                None,
            ),
    {
        let reasons: Vec<String> = Vec::new();
        assert(sviews(reasons@) =~= Seq::<Seq<char>>::empty());
        Finding {
            id,
            kind,
            severity,
            confidence_pct,
            path,
            summary: String::new(),
            reasons,
            suggested_next_step: String::new(),
            estimated_tokens: None,
            evidence,
        }
    }
}

/// Integer scores of a report (each 0–100).
#[derive(Debug, Clone, Copy, PartialEq, Eq, Structural)]
pub struct GlobalScore {
    pub ai_friction_score: u32,
    pub context_waste_score: u32,
    pub structural_entropy_score: u32,
    pub reasoning_complexity_score: u32,
    pub estimated_waste_pct: u32,
}

impl Default for GlobalScore {
    fn default() -> (r: Self)
        ensures
            r.ai_friction_score == 0 && r.context_waste_score == 0 && r.structural_entropy_score
                == 0 && r.reasoning_complexity_score == 0 && r.estimated_waste_pct == 0,
    {
        GlobalScore {
            ai_friction_score: 0,
            context_waste_score: 0,
            structural_entropy_score: 0,
            reasoning_complexity_score: 0,
            estimated_waste_pct: 0,
        }
    }
}

/// The outcome of one analysis run.
#[derive(Debug, Clone)]
pub struct Report {
    pub findings: Vec<Finding>,
    pub global_score: GlobalScore,
    pub files_analyzed: usize,
    pub files_skipped: usize,
    pub total_lines: usize,
    pub total_estimated_tokens: usize,
    pub errors: Vec<String>,
    pub version: String,
}


/// The findings of severity `sev`, in their order.
pub open spec fn with_severity(fs: Seq<Finding>, sev: Severity) -> Seq<Finding> {
    fs.filter(|f: Finding| f.severity == sev)
}

/// The findings sorted by severity, most severe first; findings of equal
/// severity keep their order.
pub open spec fn by_severity(fs: Seq<Finding>) -> Seq<Finding> {
    with_severity(fs, Severity::Critical) + with_severity(fs, Severity::High) + with_severity(fs, Severity::Medium)
        + with_severity(fs, Severity::Low)
}

pub proof fn lemma_with_severity_step(s: Seq<Finding>, sev: Severity)
    requires
        s.len() > 0,
    ensures
        with_severity(s, sev) == if s.last().severity == sev {
            with_severity(s.drop_last(), sev).push(s.last())
        } else {
            with_severity(s.drop_last(), sev)
        },
{
    let pred = |f: Finding| f.severity == sev;
    assert(s =~= s.drop_last().push(s.last()));
    s.drop_last().lemma_filter_push(s.last(), pred);
}

/// Sorts findings by severity, most severe first, keeping the order of
/// findings of equal severity.
pub fn sort_by_severity(findings: Vec<Finding>) -> (r: Vec<Finding>)
    ensures
        r@ == by_severity(findings@),
{
    let ghost orig = findings@;
    let n = findings.len();
    let mut rest = findings;
    let mut crit: Vec<Finding> = Vec::new();
    let mut high: Vec<Finding> = Vec::new();
    let mut medium: Vec<Finding> = Vec::new();
    let mut low: Vec<Finding> = Vec::new();
    let mut k: usize = 0;
    while rest.len() > 0
        invariant
            k + rest.len() == orig.len(),
            orig.len() == n,
            rest@ == orig.skip(k as int),
            crit@ == with_severity(orig.take(k as int), Severity::Critical),
            high@ == with_severity(orig.take(k as int), Severity::High),
            medium@ == with_severity(orig.take(k as int), Severity::Medium),
            low@ == with_severity(orig.take(k as int), Severity::Low),
        decreases rest.len(),
    {
        let ghost t = orig.take(k + 1);
        assert(t.drop_last() =~= orig.take(k as int));
        assert(t.last() == orig[k as int]);
        assert(rest@[0] == orig[k as int]);
        proof {
            lemma_with_severity_step(t, Severity::Critical);
            lemma_with_severity_step(t, Severity::High);
            lemma_with_severity_step(t, Severity::Medium);
            lemma_with_severity_step(t, Severity::Low);
        }
        let f = rest.remove(0);
        assert(rest@ =~= orig.skip(k + 1));
        match f.severity {
            Severity::Critical => crit.push(f),
            Severity::High => high.push(f),
            Severity::Medium => medium.push(f),
            Severity::Low => low.push(f),
        }
        k += 1;
    }
    assert(orig.take(k as int) =~= orig);
    crit.append(&mut high);
    crit.append(&mut medium);
    crit.append(&mut low);
    crit
}

/// Sorting by severity keeps the number of findings.
pub proof fn lemma_by_severity_len(fs: Seq<Finding>)
    ensures
        by_severity(fs).len() == fs.len(),
    decreases fs.len(),
{
    if fs.len() > 0 {
        lemma_by_severity_len(fs.drop_last());
        lemma_with_severity_step(fs, Severity::Critical);
        lemma_with_severity_step(fs, Severity::High);
        lemma_with_severity_step(fs, Severity::Medium);
        lemma_with_severity_step(fs, Severity::Low);
    } else {
        assert(with_severity(fs, Severity::Critical).len() == 0) by {
            reveal(Seq::filter);
        }
        assert(with_severity(fs, Severity::High).len() == 0) by {
            reveal(Seq::filter);
        }
        assert(with_severity(fs, Severity::Medium).len() == 0) by {
            reveal(Seq::filter);
        }
        assert(with_severity(fs, Severity::Low).len() == 0) by {
            reveal(Seq::filter);
        }
    }
}


proof fn lemma_with_severity_all(fs: Seq<Finding>, sev: Severity)
    ensures
        forall|i: int| 0 <= i < with_severity(fs, sev).len() ==> (#[trigger] with_severity(fs, sev)[i]).severity == sev,
{
    fs.filter_lemma(|f: Finding| f.severity == sev);
}

/// Sorting by severity puts the most severe findings first: along the sorted
/// findings the severity never rises.
pub proof fn law_sorted_most_severe_first(fs: Seq<Finding>)
    ensures
        forall|i: int, j: int|
            0 <= i < j < by_severity(fs).len() ==> (#[trigger] by_severity(fs)[i]).severity.rank()
                >= (#[trigger] by_severity(fs)[j]).severity.rank(),
{
    let c = with_severity(fs, Severity::Critical);
    let h = with_severity(fs, Severity::High);
    let m = with_severity(fs, Severity::Medium);
    let l = with_severity(fs, Severity::Low);
    lemma_with_severity_all(fs, Severity::Critical);
    lemma_with_severity_all(fs, Severity::High);
    lemma_with_severity_all(fs, Severity::Medium);
    lemma_with_severity_all(fs, Severity::Low);
    let r = by_severity(fs);
    assert forall|i: int| 0 <= i < r.len() implies #[trigger] r[i].severity.rank() == (if i < c.len() {
        3int
    } else if i < c.len() + h.len() {
        2int
    } else if i < c.len() + h.len() + m.len() {
        1int
    } else {
        0int
    }) by {
        if i < c.len() {
            assert(r[i] == c[i]);
        } else if i < c.len() + h.len() {
            assert(r[i] == h[i - c.len()]);
        } else if i < c.len() + h.len() + m.len() {
            assert(r[i] == m[i - c.len() - h.len()]);
        } else {
            assert(r[i] == l[i - c.len() - h.len() - m.len()]);
        }
    }
}

/// Two lists of findings that agree, position by position, in every field.
pub open spec fn same_findings(a: Seq<Finding>, b: Seq<Finding>) -> bool {
    &&& a.len() == b.len()
    &&& forall|t: int| 0 <= t < a.len() ==> (#[trigger] a[t]).same_as(b[t])
}

proof fn lemma_with_severity_same(a: Seq<Finding>, b: Seq<Finding>, sev: Severity)
    requires
        same_findings(a, b),
    ensures
        same_findings(with_severity(a, sev), with_severity(b, sev)),
    decreases a.len(),
{
    if a.len() == 0 {
        assert(with_severity(a, sev).len() == 0) by {
            reveal(Seq::filter);
        }
        assert(with_severity(b, sev).len() == 0) by {
            reveal(Seq::filter);
        }
    } else {
        assert(a.last().same_as(b.last()));
        let (pa, pb) = (a.drop_last(), b.drop_last());
        assert forall|t: int| 0 <= t < pa.len() implies (#[trigger] pa[t]).same_as(pb[t]) by {
            assert(a[t].same_as(b[t]));
        }
        lemma_with_severity_same(pa, pb, sev);
        lemma_with_severity_step(a, sev);
        lemma_with_severity_step(b, sev);
        let (wa, wb) = (with_severity(a, sev), with_severity(b, sev));
        assert forall|t: int| 0 <= t < wa.len() implies (#[trigger] wa[t]).same_as(wb[t]) by {
            if t < with_severity(pa, sev).len() {
                assert(with_severity(pa, sev)[t].same_as(with_severity(pb, sev)[t]));
            }
        }
    }
}

proof fn lemma_same_concat(a1: Seq<Finding>, b1: Seq<Finding>, a2: Seq<Finding>, b2: Seq<Finding>)
    requires
        same_findings(a1, b1),
        same_findings(a2, b2),
    ensures
        same_findings(a1 + a2, b1 + b2),
{
    assert forall|t: int| 0 <= t < (a1 + a2).len() implies (#[trigger] (a1 + a2)[t]).same_as((b1 + b2)[t]) by {
        if t < a1.len() {
            assert(a1[t].same_as(b1[t]));
        } else {
            assert(a2[t - a1.len()].same_as(b2[t - a1.len()]));
        }
    }
}

/// Sorting by severity keeps agreement: lists that agree field for field
/// sort into lists that agree field for field.
pub proof fn lemma_by_severity_same(a: Seq<Finding>, b: Seq<Finding>)
    requires
        same_findings(a, b),
    ensures
        same_findings(by_severity(a), by_severity(b)),
{
    lemma_with_severity_same(a, b, Severity::Critical);
    lemma_with_severity_same(a, b, Severity::High);
    lemma_with_severity_same(a, b, Severity::Medium);
    lemma_with_severity_same(a, b, Severity::Low);
    let (c1, h1, m1, l1) = (
        with_severity(a, Severity::Critical),
        with_severity(a, Severity::High),
        with_severity(a, Severity::Medium),
        with_severity(a, Severity::Low),
    );
    let (c2, h2, m2, l2) = (
        with_severity(b, Severity::Critical),
        with_severity(b, Severity::High),
        with_severity(b, Severity::Medium),
        with_severity(b, Severity::Low),
    );
    lemma_same_concat(c1, c2, h1, h2);
    lemma_same_concat(c1 + h1, c2 + h2, m1, m2);
    lemma_same_concat(c1 + h1 + m1, c2 + h2 + m2, l1, l2);
}

/// Sorting by severity neither drops nor adds a finding: the sorted findings
/// are the same findings, each as often as before.
pub proof fn law_sort_keeps_findings(fs: Seq<Finding>)
    ensures
        by_severity(fs).to_multiset() == fs.to_multiset(),
    decreases fs.len(),
{
    broadcast use vstd::seq_lib::group_to_multiset_ensures;
    broadcast use vstd::seq_lib::lemma_multiset_commutative;
    broadcast use vstd::multiset::group_multiset_axioms;

    if fs.len() == 0 {
        lemma_by_severity_len(fs);
        assert(by_severity(fs) =~= Seq::<Finding>::empty());
        assert(fs =~= Seq::<Finding>::empty());
    } else {
        let p = fs.drop_last();
        let x = fs.last();
        law_sort_keeps_findings(p);
        assert(fs =~= p.push(x));
        lemma_with_severity_step(fs, Severity::Critical);
        lemma_with_severity_step(fs, Severity::High);
        lemma_with_severity_step(fs, Severity::Medium);
        lemma_with_severity_step(fs, Severity::Low);
        let c = with_severity(p, Severity::Critical);
        let h = with_severity(p, Severity::High);
        let m = with_severity(p, Severity::Medium);
        let l = with_severity(p, Severity::Low);
        assert(by_severity(p).to_multiset() =~= c.to_multiset().add(h.to_multiset()).add(m.to_multiset()).add(
            l.to_multiset(),
        ));
        assert(by_severity(fs).to_multiset() =~= with_severity(fs, Severity::Critical).to_multiset().add(
            with_severity(fs, Severity::High).to_multiset(),
        ).add(with_severity(fs, Severity::Medium).to_multiset()).add(
            with_severity(fs, Severity::Low).to_multiset(),
        ));
        assert(by_severity(fs).to_multiset() =~= by_severity(p).to_multiset().insert(x));
        assert(fs.to_multiset() =~= p.to_multiset().insert(x));
    }
}

} // verus!
