use vstd::prelude::*;
use vstd::string::*;
use crate::diff::{diff_spec, law_diff_same_content_empty, ChangeView, Comparable};
use crate::entropy::{byte_histogram, histogram_spec};
use crate::error::UnifyError;
use crate::heuristics::{
    collect_findings, entropy_findings, expected_findings, law_high_entropy_threshold,
    law_profile_gating, lemma_section_name_findings_by_key,
};
use crate::model::{findings_view, Finding, FindingView, SectionInfo, SymbolInfo};
use crate::objfile::{
    object_parses, parsed_architecture, parsed_entry, parsed_format, parsed_sections, parsed_symbols,
    raw_views, symbol_view, symbol_views, ContainerFormat, ObjectLayout, RawSection,
};
use crate::order::{lemma_sort_keys, sort_by_address, sorted_by_address, stable_sort_by_address};
use crate::profiles::AnalysisProfile;
use crate::provider::BinaryProvider;
use crate::scan::{decode_hex, find_pattern, hex_bytes, is_valid_hex, match_offsets};

verus! {

/// Format-specific facts about an object file.
pub struct FormatMetadata {
    pub kind: String,
    pub section_count: u64,
    pub symbol_count: u64,
}

/// The metadata label of the formats that have an extractor.
pub open spec fn metadata_kind(f: ContainerFormat) -> Option<Seq<char>> {
    match f {
        ContainerFormat::Elf => Some("ELF"@),
        ContainerFormat::Pe => Some("PE"@),
        ContainerFormat::MachO => Some("Mach-O"@),
        _ => None,
    }
}

/// `m` is the metadata owed for `format` with the given counts: none for a format
/// without an extractor.
pub open spec fn metadata_for(
    m: Option<FormatMetadata>,
    format: ContainerFormat,
    section_count: u64,
    symbol_count: u64,
) -> bool {
    match metadata_kind(format) {
        None => m is None,
        Some(k) => m is Some && m->Some_0.kind@ == k && m->Some_0.section_count == section_count
            && m->Some_0.symbol_count == symbol_count,
    }
}

/// Metadata extraction for ELF files.
pub struct ElfAnalyzer {
    section_count: u64,
    symbol_count: u64,
}

impl ElfAnalyzer {
    pub closed spec fn counts(&self) -> (u64, u64) {
        (self.section_count, self.symbol_count)
    }

    pub fn new(section_count: u64, symbol_count: u64) -> (r: Self)
        ensures
            r.counts() == (section_count, symbol_count),
    {
        ElfAnalyzer { section_count, symbol_count }
    }

    pub fn extract_metadata(&self) -> (r: Result<FormatMetadata, UnifyError>)
        ensures
            r is Ok,
            r->Ok_0.kind@ == "ELF"@,
            (r->Ok_0.section_count, r->Ok_0.symbol_count) == self.counts(),
    {
        Ok(
            FormatMetadata {
                kind: String::from_str("ELF"),
                section_count: self.section_count,
                symbol_count: self.symbol_count,
            },
        )
    }
}

/// Dispatches metadata extraction on the container format; formats without an
/// extractor have none.
pub fn format_metadata(format: ContainerFormat, section_count: u64, symbol_count: u64) -> (r:
    Option<FormatMetadata>)
    ensures
        metadata_for(r, format, section_count, symbol_count),
{
    match format {
        ContainerFormat::Elf => {
            let m = ElfAnalyzer::new(section_count, symbol_count).extract_metadata();
            match m {
                Ok(m) => Some(m),
                Err(_) => None,
            }
        },
        ContainerFormat::Pe => Some(
            FormatMetadata { kind: String::from_str("PE"), section_count, symbol_count },
        ),
        ContainerFormat::MachO => Some(
            FormatMetadata { kind: String::from_str("Mach-O"), section_count, symbol_count },
        ),
        _ => None,
    }
}

/// The outcome of one analysis.
pub struct AnalysisResult {
    pub format: String,
    pub architecture: String,
    pub entry_point: u64,
    pub profile: AnalysisProfile,
    pub sections: Vec<SectionInfo>,
    pub symbols: Vec<SymbolInfo>,
    pub findings: Vec<Finding>,
    pub metadata: Option<FormatMetadata>,
}

/// `s` reports the raw section `raw`: same name, address and size.
pub open spec fn reports_section(s: SectionInfo, raw: RawSection) -> bool {
    s.name@ == raw.name@ && s.address == raw.address && s.size == raw.size
}

/// What an analysis of `data` under `profile` owes whatever the structural parser
/// reported: sections and symbols sorted by address, findings exactly those of the
/// enabled passes over the sorted sections and the raw bytes, metadata by format.
pub open spec fn well_formed_analysis(
    res: AnalysisResult,
    data: Seq<u8>,
    profile: AnalysisProfile,
) -> bool {
    &&& res.profile == profile
    &&& sorted_by_address(res.sections@)
    &&& sorted_by_address(res.symbols@)
    &&& findings_view(res.findings@) == expected_findings(res.sections@, data, profile)
    &&& exists|f: ContainerFormat|
        res.format@ == f.name_spec() && metadata_for(
            res.metadata,
            f,
            res.sections@.len() as u64,
            res.symbols@.len() as u64,
        )
}

/// `measured` reports the parser's sections `parsed` one for one and in order: same
/// name, address and size, and the entropy `entropy_of` gave for the section's
/// byte histogram.
pub open spec fn measured_from<F: Fn(&Vec<u64>) -> u64>(
    measured: Seq<SectionInfo>,
    parsed: Seq<(Seq<char>, u64, u64, Seq<u8>)>,
    entropy_of: F,
) -> bool {
    &&& measured.len() == parsed.len()
    &&& forall|j: int|
        0 <= j < measured.len() ==> {
            &&& (#[trigger] measured[j]).name@ == parsed[j].0
            &&& measured[j].address == parsed[j].1
            &&& measured[j].size == parsed[j].2
            &&& exists|h: Vec<u64>|
                h@ == histogram_spec(parsed[j].3) && entropy_of.ensures(
                    (&h,),
                    measured[j].entropy_micro,
                )
        }
}

/// `res` is the analysis under `profile` of `data` whose structural parse reported
/// `format`, `arch`, `entry`, `secs` and `syms`: those facts as reported, the sections
/// measured and stably sorted by address, the symbols stably sorted by address, the
/// findings of the enabled passes, and the metadata of the format.
pub open spec fn analysis_from<F: Fn(&Vec<u64>) -> u64>(
    res: AnalysisResult,
    format: ContainerFormat,
    arch: Seq<char>,
    entry: u64,
    secs: Seq<(Seq<char>, u64, u64, Seq<u8>)>,
    syms: Seq<(Seq<char>, u64, Seq<char>)>,
    data: Seq<u8>,
    profile: AnalysisProfile,
    entropy_of: F,
) -> bool {
    &&& well_formed_analysis(res, data, profile)
    &&& res.format@ == format.name_spec()
    &&& res.architecture@ == arch
    &&& res.entry_point == entry
    &&& metadata_for(res.metadata, format, res.sections@.len() as u64, res.symbols@.len() as u64)
    &&& exists|s: Seq<SymbolInfo>|
        #[trigger] symbol_views(s) == syms && res.symbols@
            == stable_sort_by_address(s)
    &&& exists|m: Seq<SectionInfo>|
        #[trigger] measured_from(m, secs, entropy_of) && res.sections@ == stable_sort_by_address(m)
}

/// `res` is the analysis of `data` under `profile`, over what the structural parser
/// reports for `data`.
pub open spec fn analysis_of<F: Fn(&Vec<u64>) -> u64>(
    res: AnalysisResult,
    data: Seq<u8>,
    profile: AnalysisProfile,
    entropy_of: F,
) -> bool {
    analysis_from(
        res,
        parsed_format(data),
        parsed_architecture(data),
        parsed_entry(data),
        parsed_sections(data),
        parsed_symbols(data),
        data,
        profile,
        entropy_of,
    )
}

/// Builds the reported sections, in the parser's order, measuring each one's entropy
/// with `entropy_of` over its byte histogram.
fn measure_sections<F: Fn(&Vec<u64>) -> u64>(raw: &Vec<RawSection>, entropy_of: &F) -> (r: Vec<
    SectionInfo,
>)
    requires
        forall|h: &Vec<u64>| #[trigger] entropy_of.requires((h,)),
    ensures
        r@.len() == raw@.len(),
        forall|j: int|
            0 <= j < r@.len() ==> #[trigger] reports_section(r@[j], raw@[j]) && exists|h: Vec<u64>|
                h@ == histogram_spec(raw@[j].data@) && entropy_of.ensures(
                    (&h,),
                    r@[j].entropy_micro,
                ),
{
    let mut out: Vec<SectionInfo> = Vec::new();
    let mut i: usize = 0;
    while i < raw.len()
        invariant
            i <= raw@.len(),
            out@.len() == i,
            forall|h: &Vec<u64>| #[trigger] entropy_of.requires((h,)),
            forall|j: int|
                0 <= j < i ==> #[trigger] reports_section(out@[j], raw@[j]) && exists|h: Vec<u64>|
                    h@ == histogram_spec(raw@[j].data@) && entropy_of.ensures(
                        (&h,),
                        out@[j].entropy_micro,
                    ),
        decreases raw@.len() - i,
    {
        let r = &raw[i];
        let hist = byte_histogram(r.data.as_slice());
        let e = entropy_of(&hist);
        let ghost prev = out@;
        out.push(
            SectionInfo {
                name: r.name.clone(),
                address: r.address,
                size: r.size,
                entropy_micro: e,
            },
        );
        assert(reports_section(out@[i as int], raw@[i as int]));
        assert(hist@ == histogram_spec(raw@[i as int].data@) && entropy_of.ensures(
            (&hist,),
            out@[i as int].entropy_micro,
        ));
        assert forall|j: int| 0 <= j < i + 1 implies #[trigger] reports_section(out@[j], raw@[j])
            && exists|h: Vec<u64>|
            h@ == histogram_spec(raw@[j].data@) && entropy_of.ensures(
                (&h,),
                out@[j].entropy_micro,
            ) by {
            if j < i {
                assert(out@[j] == prev[j]);
            }
        }
        i = i + 1;
    }
    out
}

/// Turns a structural parse of `data` into an analysis under `profile`: sections are
/// measured and sorted, symbols sorted, the enabled passes run, metadata extracted.
pub fn analyze_layout<F: Fn(&Vec<u64>) -> u64>(
    layout: ObjectLayout,
    data: &[u8],
    profile: AnalysisProfile,
    entropy_of: &F,
) -> (r: AnalysisResult)
    requires
        forall|h: &Vec<u64>| #[trigger] entropy_of.requires((h,)),
    ensures
        analysis_from(
            r,
            layout.format,
            layout.architecture@,
            layout.entry_point,
            raw_views(layout.sections@),
            symbol_views(layout.symbols@),
            data@,
            profile,
            *entropy_of,
        ),
{
    let ghost secs = raw_views(layout.sections@);
    let ghost syms = layout.symbols@;
    let measured = measure_sections(&layout.sections, entropy_of);
    let ghost built = measured@;
    assert(measured_from(built, secs, *entropy_of)) by {
        assert forall|j: int| 0 <= j < built.len() implies {
            &&& (#[trigger] built[j]).name@ == secs[j].0
            &&& built[j].address == secs[j].1
            &&& built[j].size == secs[j].2
            &&& exists|h: Vec<u64>|
                h@ == histogram_spec(secs[j].3) && entropy_of.ensures((&h,), built[j].entropy_micro)
        } by {
            assert(reports_section(built[j], layout.sections@[j]));
        }
    }
    let sections = sort_by_address(measured);
    let symbols = sort_by_address(layout.symbols);
    let findings = collect_findings(&sections, data, profile);
    let metadata = format_metadata(layout.format, sections.len() as u64, symbols.len() as u64);
    let r = AnalysisResult {
        format: layout.format.name(),
        architecture: layout.architecture,
        entry_point: layout.entry_point,
        profile,
        sections,
        symbols,
        findings,
        metadata,
    };
    proof {
        vstd::seq_lib::to_multiset_len(r.sections@);
        vstd::seq_lib::to_multiset_len(built);
        vstd::seq_lib::to_multiset_len(r.symbols@);
        vstd::seq_lib::to_multiset_len(syms);
    }
    assert(metadata_for(r.metadata, layout.format, r.sections@.len() as u64, r.symbols@.len() as u64));
    assert(symbol_views(syms) == symbol_views(layout.symbols@));
    r
}

/// Runs the analysis pipeline over one provider under one profile.
pub struct Analyzer<'a, P: BinaryProvider> {
    provider: &'a P,
    profile: AnalysisProfile,
}

impl<'a, P: BinaryProvider> Analyzer<'a, P> {
    /// The bytes under analysis.
    pub closed spec fn input(&self) -> Seq<u8> {
        self.provider.bytes()
    }

    /// The profile in force.
    pub closed spec fn profile_spec(&self) -> AnalysisProfile {
        self.profile
    }

    pub fn new(provider: &'a P, profile: AnalysisProfile) -> (r: Self)
        ensures
            r.input() == provider.bytes(),
            r.profile_spec() == profile,
    {
        Analyzer { provider, profile }
    }

    /// Analyzes the provider's bytes; `entropy_of` gives a section's Shannon entropy in
    /// millionths of a bit per byte from its byte histogram. Fails with a parse error
    /// exactly when the structural parser refuses the bytes.
    pub fn analyze<F: Fn(&Vec<u64>) -> u64>(&self, entropy_of: F) -> (r: Result<
        AnalysisResult,
        UnifyError,
    >)
        requires
            forall|h: &Vec<u64>| #[trigger] entropy_of.requires((h,)),
        ensures
            r is Ok <==> object_parses(self.input()),
            r is Err ==> r->Err_0 is ParseError,
            r is Ok ==> analysis_of(r->Ok_0, self.input(), self.profile_spec(), entropy_of),
    {
        let layout = self.provider.parse()?;
        let r = analyze_layout(layout, self.provider.data(), self.profile, &entropy_of);
        Ok(r)
    }

    /// Every offset at which the bytes written in `hex_pattern` occur in the provider's
    /// bytes, ascending, overlaps included; an invalid-argument error when the text is
    /// not an even number of hexadecimal digits.
    pub fn scan_patterns(&self, hex_pattern: &str) -> (r: Result<Vec<u64>, UnifyError>)
        ensures
            r is Ok <==> is_valid_hex(hex_pattern@),
            r is Err ==> r->Err_0 is InvalidArgument,
            r is Ok ==> r->Ok_0@ == match_offsets(self.input(), hex_bytes(hex_pattern@)),
    {
        match decode_hex(hex_pattern) {
            Err(e) => {
                let mut m = String::from_str("Invalid hex pattern: ");
                let t = e.to_string();
                m.append(t.as_str());
                Err(UnifyError::InvalidArgument(m))
            },
            Ok(pattern) => Ok(find_pattern(self.provider.data(), pattern.as_slice())),
        }
    }
}

/// A section's name, address and size.
pub open spec fn section_key(s: SectionInfo) -> (Seq<char>, u64, u64) {
    (s.name@, s.address, s.size)
}

/// Two analyses of the same bytes, under any profiles and entropy measures, report
/// the same format, architecture and entry point, the same sections by name, address
/// and size in the same order, and the same symbols in the same order.
pub proof fn law_same_bytes_same_layout<F1: Fn(&Vec<u64>) -> u64, F2: Fn(&Vec<u64>) -> u64>(
    r1: AnalysisResult,
    r2: AnalysisResult,
    data: Seq<u8>,
    p1: AnalysisProfile,
    p2: AnalysisProfile,
    f1: F1,
    f2: F2,
)
    requires
        analysis_of(r1, data, p1, f1),
        analysis_of(r2, data, p2, f2),
    ensures
        r1.format@ == r2.format@,
        r1.architecture@ == r2.architecture@,
        r1.entry_point == r2.entry_point,
        r1.sections@.len() == r2.sections@.len(),
        forall|i: int|
            0 <= i < r1.sections@.len() ==> section_key(#[trigger] r1.sections@[i]) == section_key(
                r2.sections@[i],
            ),
        symbol_views(r1.symbols@) == symbol_views(r2.symbols@),
{
    let secs = parsed_sections(data);
    let m1 = choose|m: Seq<SectionInfo>|
        #[trigger] measured_from(m, secs, f1) && r1.sections@ == stable_sort_by_address(m);
    let m2 = choose|m: Seq<SectionInfo>|
        #[trigger] measured_from(m, secs, f2) && r2.sections@ == stable_sort_by_address(m);
    let sk = |s: SectionInfo| section_key(s);
    assert forall|i: int| 0 <= i < m1.len() implies sk(#[trigger] m1[i]) == sk(m2[i]) by {
        assert(m1[i].name@ == secs[i].0 && m2[i].name@ == secs[i].0);
    }
    lemma_sort_keys(m1, m2, sk);
    assert forall|i: int| 0 <= i < r1.sections@.len() implies section_key(
        #[trigger] r1.sections@[i],
    ) == section_key(r2.sections@[i]) by {
        assert(sk(stable_sort_by_address(m1)[i]) == sk(stable_sort_by_address(m2)[i]));
    }
    let syms = parsed_symbols(data);
    let s1 = choose|s: Seq<SymbolInfo>|
        #[trigger] symbol_views(s) == syms && r1.symbols@ == stable_sort_by_address(s);
    let s2 = choose|s: Seq<SymbolInfo>|
        #[trigger] symbol_views(s) == syms && r2.symbols@ == stable_sort_by_address(s);
    let yk = |y: SymbolInfo| symbol_view(y);
    assert(s1.len() == symbol_views(s1).len() && s2.len() == symbol_views(s2).len());
    assert forall|i: int| 0 <= i < s1.len() implies yk(#[trigger] s1[i]) == yk(s2[i]) by {
        assert(symbol_views(s1)[i] == symbol_views(s2)[i]);
        assert(symbol_views(s1)[i] == symbol_view(s1[i]));
        assert(symbol_views(s2)[i] == symbol_view(s2[i]));
    }
    lemma_sort_keys(s1, s2, yk);
    assert forall|i: int| 0 <= i < r1.symbols@.len() implies #[trigger] symbol_views(r1.symbols@)[i]
        == symbol_views(r2.symbols@)[i] by {
        assert(yk(stable_sort_by_address(s1)[i]) == yk(stable_sort_by_address(s2)[i]));
        assert(symbol_views(r1.symbols@)[i] == symbol_view(r1.symbols@[i]));
        assert(symbol_views(r2.symbols@)[i] == symbol_view(r2.symbols@[i]));
    }
    assert(symbol_views(r1.symbols@) =~= symbol_views(r2.symbols@));
}

/// Profiles change only the `HIGH_ENTROPY` findings: two analyses of the same bytes
/// have findings `e1 + c` and `e2 + c` with one common part `c` (the findings under
/// `Exploit`, none of which is `HIGH_ENTROPY`), where `e1` and `e2` are the entropy
/// pass's findings (empty where the profile skips that pass), all `HIGH_ENTROPY`.
pub proof fn law_profiles_differ_only_in_entropy<
    F1: Fn(&Vec<u64>) -> u64,
    F2: Fn(&Vec<u64>) -> u64,
>(
    r1: AnalysisResult,
    r2: AnalysisResult,
    data: Seq<u8>,
    p1: AnalysisProfile,
    p2: AnalysisProfile,
    f1: F1,
    f2: F2,
)
    requires
        analysis_of(r1, data, p1, f1),
        analysis_of(r2, data, p2, f2),
    ensures
        findings_view(r1.findings@) == (if p1.entropy_gate() {
            entropy_findings(r1.sections@)
        } else {
            Seq::<FindingView>::empty()
        }) + expected_findings(r1.sections@, data, AnalysisProfile::Exploit),
        findings_view(r2.findings@) == (if p2.entropy_gate() {
            entropy_findings(r2.sections@)
        } else {
            Seq::<FindingView>::empty()
        }) + expected_findings(r1.sections@, data, AnalysisProfile::Exploit),
        forall|f: FindingView|
            #[trigger] expected_findings(r1.sections@, data, AnalysisProfile::Exploit).contains(f)
                ==> f.id != "HIGH_ENTROPY"@,
        forall|i: int|
            0 <= i < entropy_findings(r1.sections@).len() ==> #[trigger] entropy_findings(
                r1.sections@,
            )[i].id == "HIGH_ENTROPY"@,
        forall|i: int|
            0 <= i < entropy_findings(r2.sections@).len() ==> #[trigger] entropy_findings(
                r2.sections@,
            )[i].id == "HIGH_ENTROPY"@,
{
    law_same_bytes_same_layout(r1, r2, data, p1, p2, f1, f2);
    assert forall|i: int| 0 <= i < r1.sections@.len() implies (#[trigger] r1.sections@[i]).name@
        == r2.sections@[i].name@ && r1.sections@[i].address == r2.sections@[i].address by {
        assert(section_key(r1.sections@[i]) == section_key(r2.sections@[i]));
    }
    lemma_section_name_findings_by_key(r1.sections@, r2.sections@);
    law_profile_gating(r1.sections@, data, p1);
    law_profile_gating(r2.sections@, data, p2);
    law_high_entropy_threshold(r1.sections@, Seq::empty(), r1.sections@[0]);
    law_high_entropy_threshold(r2.sections@, Seq::empty(), r1.sections@[0]);
}

/// Two analyses of the same bytes, under any profiles and entropy measures, compare
/// with no difference in sections or symbols.
pub proof fn law_same_bytes_no_diff<F1: Fn(&Vec<u64>) -> u64, F2: Fn(&Vec<u64>) -> u64>(
    r1: AnalysisResult,
    r2: AnalysisResult,
    data: Seq<u8>,
    p1: AnalysisProfile,
    p2: AnalysisProfile,
    f1: F1,
    f2: F2,
)
    requires
        analysis_of(r1, data, p1, f1),
        analysis_of(r2, data, p2, f2),
    ensures
        diff_spec(r1.sections@, r2.sections@) == Seq::<ChangeView>::empty(),
        diff_spec(r1.symbols@, r2.symbols@) == Seq::<ChangeView>::empty(),
{
    law_same_bytes_same_layout(r1, r2, data, p1, p2, f1, f2);
    assert forall|i: int| 0 <= i < r1.sections@.len() implies (#[trigger] r1.sections@[i]).same_content(
        &r2.sections@[i],
    ) by {
        assert(section_key(r1.sections@[i]) == section_key(r2.sections@[i]));
    }
    law_diff_same_content_empty(r1.sections@, r2.sections@);
    assert(r1.symbols@.len() == symbol_views(r1.symbols@).len());
    assert(r2.symbols@.len() == symbol_views(r2.symbols@).len());
    assert forall|i: int| 0 <= i < r1.symbols@.len() implies (#[trigger] r1.symbols@[i]).same_content(
        &r2.symbols@[i],
    ) by {
        assert(symbol_views(r1.symbols@)[i] == symbol_views(r2.symbols@)[i]);
    }
    law_diff_same_content_empty(r1.symbols@, r2.symbols@);
}

} // verus!
