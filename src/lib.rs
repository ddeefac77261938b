//! Static binary analysis: structural facts, profile-gated heuristics,
//! pattern scanning and result comparison.

pub mod analyzer;
pub mod debugger;
pub mod decoder;
pub mod diff;
pub mod entropy;
pub mod error;
pub mod explanations;
pub mod heuristics;
pub mod model;
pub mod objfile;
pub mod order;
pub mod plugins;
pub mod profiles;
pub mod provider;
pub mod scan;
pub mod text;

pub use analyzer::{AnalysisResult, Analyzer, ElfAnalyzer, FormatMetadata};
pub use debugger::{Debugger, DebuggerBackend, Registers};
pub use decoder::{InstructionDecoder, InstructionInfo};
pub use diff::{Change, DiffEngine, DiffResult};
pub use error::UnifyError;
pub use explanations::{Explanation, ExplanationEngine};
pub use model::{Confidence, Finding, SectionInfo, SymbolInfo};
pub use plugins::PluginManager;
pub use profiles::AnalysisProfile;
pub use provider::{BinaryLoader, BinaryProvider};
