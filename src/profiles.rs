use vstd::prelude::*;

verus! {

/// A named policy selecting which heuristic passes run.
#[derive(Debug, Clone, Copy, PartialEq, Eq, Structural)]
pub enum AnalysisProfile {
    Malware,
    Exploit,
    Audit,
    Default,
}

impl AnalysisProfile {
    /// Whether the entropy pass is enabled: every profile but `Exploit`.
    pub open spec fn entropy_gate(self) -> bool {
        self != AnalysisProfile::Exploit
    }

    /// Whether the suspicious-sequence pass is enabled: every profile.
    pub open spec fn suspicious_seq_gate(self) -> bool {
        true
    }

    pub fn should_run_entropy(&self) -> (r: bool)
        ensures
            r == self.entropy_gate(),
    {
        match self {
            AnalysisProfile::Malware | AnalysisProfile::Audit | AnalysisProfile::Default => true,
            AnalysisProfile::Exploit => false,
        }
    }

    pub fn should_run_suspicious_seq(&self) -> (r: bool)
        ensures
            r == self.suspicious_seq_gate(),
    {
        match self {
            AnalysisProfile::Malware
            | AnalysisProfile::Exploit
            | AnalysisProfile::Audit
            | AnalysisProfile::Default => true,
        }
    }
}

} // verus!
