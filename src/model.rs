use vstd::prelude::*;
use crate::order::Addressed;

verus! {

/// How strongly a finding indicates a problem; fixed by the detector that raised it.
#[derive(Debug, Clone, Copy, PartialEq, Eq, Structural)]
pub enum Confidence {
    Low,
    Medium,
    High,
}

/// One detector's output.
#[derive(Debug, Clone)]
pub struct Finding {
    pub id: String,
    pub message: String,
    pub confidence: Confidence,
    pub offset: Option<u64>,
}

/// The mathematical content of a [`Finding`].
pub struct FindingView {
    pub id: Seq<char>,
    pub message: Seq<char>,
    pub confidence: Confidence,
    pub offset: Option<u64>,
}

impl View for Finding {
    type V = FindingView;

    open spec fn view(&self) -> FindingView {
        FindingView {
            id: self.id@,
            message: self.message@,
            confidence: self.confidence,
            offset: self.offset,
        }
    }
}

/// A section as reported: its name, place and size, and the Shannon entropy of its
/// bytes in millionths of a bit per byte.
#[derive(Debug, Clone)]
pub struct SectionInfo {
    pub name: String,
    pub address: u64,
    pub size: u64,
    pub entropy_micro: u64,
}

/// A symbol as reported, with a coarse classification of its kind.
#[derive(Debug, Clone)]
pub struct SymbolInfo {
    pub name: String,
    pub address: u64,
    pub kind: String,
}

impl Addressed for SectionInfo {
    open spec fn addr_spec(&self) -> u64 {
        self.address
    }

    fn addr(&self) -> (r: u64) {
        self.address
    }
}

impl Addressed for SymbolInfo {
    open spec fn addr_spec(&self) -> u64 {
        self.address
    }

    fn addr(&self) -> (r: u64) {
        self.address
    }
}

/// The views of a sequence of findings.
pub open spec fn findings_view(s: Seq<Finding>) -> Seq<FindingView> {
    s.map_values(|f: Finding| f@)
}

} // verus!
