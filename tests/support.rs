use unifyre::decoder::locate_address;
use unifyre::diff::Change;
use unifyre::text::{decimal, two_places};
use unifyre::{
    AnalysisProfile, AnalysisResult, DiffEngine, ExplanationEngine, PluginManager, SectionInfo, SymbolInfo,
    UnifyError,
};

fn result(sections: Vec<(&str, u64, u64)>, symbols: Vec<(&str, u64, &str)>) -> AnalysisResult {
    AnalysisResult {
        format: "Elf".to_string(),
        architecture: "X86_64".to_string(),
        entry_point: 0,
        profile: AnalysisProfile::Default,
        sections: sections
            .into_iter()
            .map(|(n, a, s)| SectionInfo { name: n.to_string(), address: a, size: s, entropy_micro: 0 })
            .collect(),
        symbols: symbols
            .into_iter()
            .map(|(n, a, k)| SymbolInfo { name: n.to_string(), address: a, kind: k.to_string() })
            .collect(),
        findings: vec![],
        metadata: None,
    }
}

fn describe(c: &Change) -> String {
    match c {
        Change::Removed(n) => format!("-{}", n),
        Change::Added(n) => format!("+{}", n),
        Change::AddressChanged(n, a, b) => format!("{} addr {}->{}", n, a, b),
        Change::SizeChanged(n, a, b) => format!("{} size {}->{}", n, a, b),
        Change::KindChanged(n, a, b) => format!("{} kind {}->{}", n, a, b),
    }
}

fn flip(c: &Change) -> String {
    match c {
        Change::Removed(n) => format!("+{}", n),
        Change::Added(n) => format!("-{}", n),
        Change::AddressChanged(n, a, b) => format!("{} addr {}->{}", n, b, a),
        Change::SizeChanged(n, a, b) => format!("{} size {}->{}", n, b, a),
        Change::KindChanged(n, a, b) => format!("{} kind {}->{}", n, b, a),
    }
}

fn pair() -> (AnalysisResult, AnalysisResult) {
    let a = result(
        vec![(".text", 0x1000, 0x100), (".data", 0x2000, 0x10), (".old", 0x3000, 4)],
        vec![("main", 0x1000, "Text"), ("gone", 0x1010, "Text"), ("buf", 0x2000, "Data")],
    );
    let b = result(
        vec![(".text", 0x1000, 0x120), (".data", 0x2100, 0x20), (".new", 0x4000, 4)],
        vec![("main", 0x1004, "Text"), ("buf", 0x2000, "Unknown"), ("fresh", 0x1100, "Text")],
    );
    (a, b)
}

#[test]
fn diff_reports_presence_and_field_changes() {
    let (a, b) = pair();
    let d = DiffEngine::compare(&a, &b);
    let s: Vec<String> = d.section_diffs.iter().map(describe).collect();
    assert_eq!(
        s,
        vec![
            ".text size 256->288",
            ".data addr 8192->8448",
            ".data size 16->32",
            "-.old",
            "+.new",
        ]
    );
    let y: Vec<String> = d.symbol_diffs.iter().map(describe).collect();
    assert_eq!(y, vec!["main addr 4096->4100", "-gone", "buf kind Data->Unknown", "+fresh"]);
}

#[test]
fn diff_is_symmetric_in_content() {
    let (a, b) = pair();
    let ab = DiffEngine::compare(&a, &b);
    let ba = DiffEngine::compare(&b, &a);
    let mut forward: Vec<String> = ab.section_diffs.iter().chain(ab.symbol_diffs.iter()).map(flip).collect();
    let mut backward: Vec<String> = ba.section_diffs.iter().chain(ba.symbol_diffs.iter()).map(describe).collect();
    forward.sort();
    backward.sort();
    assert_eq!(forward, backward);
}

#[test]
fn diff_against_itself_is_empty() {
    let (a, _) = pair();
    let d = DiffEngine::compare(&a, &a);
    assert!(d.section_diffs.is_empty());
    assert!(d.symbol_diffs.is_empty());
}

#[test]
fn renamed_section_is_removal_and_addition() {
    let a = result(vec![(".a", 1, 1)], vec![]);
    let b = result(vec![(".b", 1, 1)], vec![]);
    let s: Vec<String> = DiffEngine::compare(&a, &b).section_diffs.iter().map(describe).collect();
    assert_eq!(s, vec!["-.a", "+.b"]);
}

#[test]
fn explanations_cover_builtin_ids_only() {
    let e = ExplanationEngine::new();
    assert_eq!(e.explain("HIGH_ENTROPY").unwrap().title, "High Entropy Section Detected");
    assert_eq!(e.explain("SUSPICIOUS_SEQ").unwrap().title, "Suspicious Instruction Sequence");
    assert_eq!(
        e.explain("SUSPICIOUS_SECTION").unwrap().risk_level,
        "Medium - High probability of packing."
    );
    assert!(e.explain("PLUGIN_DEFINED").is_none());
    assert!(e.explain("").is_none());
}

#[test]
fn profile_gates() {
    assert!(AnalysisProfile::Malware.should_run_entropy());
    assert!(!AnalysisProfile::Exploit.should_run_entropy());
    assert!(AnalysisProfile::Audit.should_run_entropy());
    assert!(AnalysisProfile::Default.should_run_entropy());
    for p in [AnalysisProfile::Malware, AnalysisProfile::Exploit, AnalysisProfile::Audit, AnalysisProfile::Default] {
        assert!(p.should_run_suspicious_seq());
    }
}

#[test]
fn decimal_and_two_place_text() {
    assert_eq!(decimal(0), "0");
    assert_eq!(decimal(1234567890), "1234567890");
    assert_eq!(decimal(u64::MAX), u64::MAX.to_string());
    assert_eq!(two_places(7_123_456), "7.12");
    assert_eq!(two_places(7_005_000), "7.01");
    assert_eq!(two_places(7_004_999), "7.00");
    assert_eq!(two_places(8_000_000), "8.00");
    assert_eq!(two_places(0), "0.00");
    assert_eq!(two_places(50_000), "0.05");
}

#[test]
fn address_lookup_finds_containing_section() {
    let secs = vec![
        SectionInfo { name: ".a".to_string(), address: 0x1000, size: 0x10, entropy_micro: 0 },
        SectionInfo { name: ".b".to_string(), address: 0x2000, size: 0x100, entropy_micro: 0 },
        SectionInfo { name: ".c".to_string(), address: u64::MAX - 1, size: 8, entropy_micro: 0 },
    ];
    assert_eq!(locate_address(&secs, 0x2010), Some((1, 0x10)));
    assert_eq!(locate_address(&secs, 0x1010), None);
    assert_eq!(locate_address(&secs, 0x1000), Some((0, 0)));
    assert_eq!(locate_address(&secs, u64::MAX), Some((2, 1)));
}

#[test]
fn error_text_names_the_kind() {
    assert_eq!(UnifyError::InvalidArgument("x".to_string()).text(), "Invalid argument: x");
    assert_eq!(UnifyError::ParseError("bad".to_string()).text(), "Binary parsing error: bad");
    assert_eq!(UnifyError::Internal("y".to_string()).text(), "Internal error: y");
}

#[test]
fn plugin_load_failures_register_nothing() {
    let mut m: PluginManager<String, u32> = PluginManager::new();
    let r = m.register(Err("no such file".to_string()), |_: &u32| Ok("x".to_string()));
    match r {
        Err(UnifyError::Internal(t)) => assert_eq!(t, "Failed to load plugin library: no such file"),
        _ => panic!("expected an internal error"),
    }
    assert_eq!(m.plugin_count(), 0);
    let r = m.register(Ok(7), |_: &u32| Err("undefined symbol: unifyre_plugin_init".to_string()));
    match r {
        Err(UnifyError::Internal(t)) => {
            assert_eq!(t, "Plugin missing constructor: undefined symbol: unifyre_plugin_init")
        }
        _ => panic!("expected an internal error"),
    }
    assert_eq!(m.plugin_count(), 0);
    assert!(m.run_all(|c: &String| Ok::<usize, ()>(c.len())).is_empty());
}

#[test]
fn plugin_results_skip_failures() {
    let mut m: PluginManager<String, u32> = PluginManager::new();
    for (lib, name) in [(1u32, "alpha"), (2, "bad"), (3, "gamma")] {
        assert!(m.register(Ok(lib), |l: &u32| Ok(format!("{}{}", name, l))).is_ok());
    }
    assert_eq!(m.plugin_count(), 3);
    let out = m.run_all(|c: &String| if c.starts_with("bad") { Err(()) } else { Ok(c.clone()) });
    assert_eq!(out, vec!["alpha1".to_string(), "gamma3".to_string()]);
}

#[test]
fn repeated_names_pair_by_order() {
    let a = result(vec![], vec![("", 0, "Unknown"), ("", 0x10, "Section"), ("x", 1, "Text"), ("x", 2, "Text")]);
    let d = DiffEngine::compare(&a, &a);
    assert!(d.symbol_diffs.is_empty());
    let b = result(vec![], vec![("x", 1, "Text"), ("", 0, "Unknown")]);
    let ab: Vec<String> = DiffEngine::compare(&a, &b).symbol_diffs.iter().map(describe).collect();
    assert_eq!(ab, vec!["-", "-x"]);
    let ba: Vec<String> = DiffEngine::compare(&b, &a).symbol_diffs.iter().map(describe).collect();
    assert_eq!(ba, vec!["+", "+x"]);
    let c = result(vec![], vec![("x", 2, "Text"), ("x", 1, "Text")]);
    let xc: Vec<String> = DiffEngine::compare(&c, &b).symbol_diffs.iter().map(describe).collect();
    assert_eq!(xc, vec!["x addr 2->1", "-x", "+"]);
}

#[test]
fn explanation_texts_in_full() {
    let e = ExplanationEngine::new();
    let h = e.explain("HIGH_ENTROPY").unwrap();
    assert_eq!(h.risk_level, "High - Possible packed or obfuscated code.");
    assert_eq!(
        h.detection_method,
        "Calculated using the Shannon entropy formula on the raw byte content of the section."
    );
    assert_eq!(e.explain("SUSPICIOUS_SECTION").unwrap().title, "Suspicious Section Name Detected");
}
