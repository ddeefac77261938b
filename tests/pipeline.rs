use unifyre::analyzer::{format_metadata, AnalysisResult};
use unifyre::entropy::byte_histogram;
use unifyre::heuristics::{collect_findings, detect_nop_sleds};
use unifyre::objfile::ContainerFormat;
use unifyre::order::sort_by_address;
use unifyre::scan::find_pattern;
use unifyre::{AnalysisProfile, Analyzer, BinaryLoader, BinaryProvider, Confidence, SectionInfo, UnifyError};

fn put16(v: &mut Vec<u8>, x: u16) {
    v.extend_from_slice(&x.to_le_bytes());
}

fn put32(v: &mut Vec<u8>, x: u32) {
    v.extend_from_slice(&x.to_le_bytes());
}

fn put64(v: &mut Vec<u8>, x: u64) {
    v.extend_from_slice(&x.to_le_bytes());
}

/// A little-endian x86-64 ELF executable holding the given PROGBITS sections.
fn elf_image(sections: &[(&str, u64, Vec<u8>)]) -> Vec<u8> {
    let mut strtab: Vec<u8> = vec![0];
    let mut name_offsets = Vec::new();
    for (name, _, _) in sections {
        name_offsets.push(strtab.len() as u32);
        strtab.extend_from_slice(name.as_bytes());
        strtab.push(0);
    }
    let shstrtab_name = strtab.len() as u32;
    strtab.extend_from_slice(b".shstrtab\0");

    let mut body: Vec<u8> = Vec::new();
    let mut data_offsets = Vec::new();
    for (_, _, data) in sections {
        data_offsets.push(64 + body.len() as u64);
        body.extend_from_slice(data);
    }
    let strtab_offset = 64 + body.len() as u64;
    body.extend_from_slice(&strtab);
    while body.len() % 8 != 0 {
        body.push(0);
    }
    let shoff = 64 + body.len() as u64;
    let shnum = sections.len() as u16 + 2;

    let mut out: Vec<u8> = vec![0x7f, b'E', b'L', b'F', 2, 1, 1, 0, 0, 0, 0, 0, 0, 0, 0, 0];
    put16(&mut out, 2);
    put16(&mut out, 62);
    put32(&mut out, 1);
    put64(&mut out, 0x401000);
    put64(&mut out, 0);
    put64(&mut out, shoff);
    put32(&mut out, 0);
    put16(&mut out, 64);
    put16(&mut out, 56);
    put16(&mut out, 0);
    put16(&mut out, 64);
    put16(&mut out, shnum);
    put16(&mut out, shnum - 1);
    out.extend_from_slice(&body);

    let header = |out: &mut Vec<u8>, name: u32, kind: u32, addr: u64, off: u64, size: u64| {
        put32(out, name);
        put32(out, kind);
        put64(out, if kind == 1 { 6 } else { 0 });
        put64(out, addr);
        put64(out, off);
        put64(out, size);
        put32(out, 0);
        put32(out, 0);
        put64(out, 1);
        put64(out, 0);
    };
    header(&mut out, 0, 0, 0, 0, 0);
    for (i, (_, addr, data)) in sections.iter().enumerate() {
        header(&mut out, name_offsets[i], 1, *addr, data_offsets[i], data.len() as u64);
    }
    header(&mut out, shstrtab_name, 3, 0, strtab_offset, strtab.len() as u64);
    out
}

/// Entropy stand-in: full marks for a section that uses more than one byte value.
fn spread(h: &Vec<u64>) -> u64 {
    if h.iter().filter(|c| **c > 0).count() > 1 {
        8_000_000
    } else {
        0
    }
}

fn loader(data: Vec<u8>) -> BinaryLoader {
    BinaryLoader::from_bytes("memory".to_string(), data)
}

fn sample_image() -> Vec<u8> {
    let mut text = vec![0x55, 0x48, 0x89, 0xe5];
    text.extend_from_slice(&[0x90; 20]);
    text.push(0xc3);
    elf_image(&[
        (".text", 0x2000, text),
        ("UPX", 0x1000, (0u8..=255).collect()),
        (".data", 0x3000, vec![0; 32]),
    ])
}

fn analyze(data: Vec<u8>, profile: AnalysisProfile) -> Result<AnalysisResult, UnifyError> {
    let l = loader(data);
    Analyzer::new(&l, profile).analyze(spread)
}

#[test]
fn sections_come_sorted_by_address() {
    let r = analyze(sample_image(), AnalysisProfile::Default).ok().unwrap();
    let addrs: Vec<u64> = r.sections.iter().map(|s| s.address).collect();
    let mut sorted = addrs.clone();
    sorted.sort();
    assert_eq!(addrs, sorted);
    let names: Vec<&str> = r.sections.iter().map(|s| s.name.as_str()).collect();
    assert!(names.contains(&"UPX"));
    let upx = names.iter().position(|n| *n == "UPX").unwrap();
    let text = names.iter().position(|n| *n == ".text").unwrap();
    let data = names.iter().position(|n| *n == ".data").unwrap();
    assert!(upx < text && text < data);
}

#[test]
fn analysis_reports_header_facts() {
    let r = analyze(sample_image(), AnalysisProfile::Default).ok().unwrap();
    assert_eq!(r.format, "Elf");
    assert_eq!(r.architecture, "X86_64");
    assert_eq!(r.entry_point, 0x401000);
    assert_eq!(r.profile, AnalysisProfile::Default);
    let m = r.metadata.unwrap();
    assert_eq!(m.kind, "ELF");
    assert_eq!(m.section_count, r.sections.len() as u64);
    assert_eq!(m.symbol_count, r.symbols.len() as u64);
}

#[test]
fn default_profile_findings_in_pass_order() {
    let r = analyze(sample_image(), AnalysisProfile::Default).ok().unwrap();
    let ids: Vec<&str> = r.findings.iter().map(|f| f.id.as_str()).collect();
    let first_seq = ids.iter().position(|i| *i == "SUSPICIOUS_SEQ").unwrap();
    let last_entropy = ids.iter().rposition(|i| *i == "HIGH_ENTROPY").unwrap();
    assert!(last_entropy < first_seq);
    assert_eq!(ids.last(), Some(&"SUSPICIOUS_SECTION"));
    let sec = r.findings.last().unwrap();
    assert_eq!(sec.message, "Suspicious section name found: UPX");
    assert_eq!(sec.offset, Some(0x1000));
    assert_eq!(sec.confidence, Confidence::Low);
    let upx = r.findings.iter().find(|f| f.id == "HIGH_ENTROPY" && f.offset == Some(0x1000)).unwrap();
    assert_eq!(upx.message, "Section UPX has high entropy (8.00) - potentially packed or encrypted.");
    assert_eq!(upx.confidence, Confidence::High);
    assert!(!r.findings.iter().any(|f| f.id == "HIGH_ENTROPY" && f.offset == Some(0x3000)));
}

#[test]
fn exploit_profile_drops_only_entropy_findings() {
    let d = analyze(sample_image(), AnalysisProfile::Default).ok().unwrap();
    let e = analyze(sample_image(), AnalysisProfile::Exploit).ok().unwrap();
    let rest = |r: &AnalysisResult| -> Vec<(String, String, Option<u64>)> {
        r.findings
            .iter()
            .filter(|f| f.id != "HIGH_ENTROPY")
            .map(|f| (f.id.clone(), f.message.clone(), f.offset))
            .collect()
    };
    assert!(d.findings.iter().any(|f| f.id == "HIGH_ENTROPY"));
    assert!(!e.findings.iter().any(|f| f.id == "HIGH_ENTROPY"));
    assert_eq!(rest(&d), rest(&e));
    for p in [AnalysisProfile::Malware, AnalysisProfile::Audit] {
        let o = analyze(sample_image(), p).ok().unwrap();
        assert_eq!(rest(&o), rest(&e));
    }
}

#[test]
fn nop_sled_offset_is_reported() {
    let image = sample_image();
    let r = analyze(image.clone(), AnalysisProfile::Default).ok().unwrap();
    let seqs: Vec<&unifyre::Finding> = r.findings.iter().filter(|f| f.id == "SUSPICIOUS_SEQ").collect();
    assert_eq!(seqs.len(), 1);
    let off = seqs[0].offset.unwrap() as usize;
    assert!(image[off..off + 16].iter().all(|b| *b == 0x90));
    assert_eq!(image[off - 1], 0xe5);
    assert_eq!(seqs[0].confidence, Confidence::Medium);
}

#[test]
fn truncated_elf_header_is_a_parse_error() {
    let r = analyze(vec![0x7f, b'E', b'L', b'F', 2, 1, 1, 0], AnalysisProfile::Default);
    assert!(matches!(r, Err(UnifyError::ParseError(_))));
}

#[test]
fn truncated_pe_header_is_a_parse_error() {
    let mut data = vec![b'M', b'Z'];
    data.extend_from_slice(&[0u8; 30]);
    let r = analyze(data, AnalysisProfile::Default);
    assert!(matches!(r, Err(UnifyError::ParseError(_))));
}

#[test]
fn non_object_bytes_are_a_parse_error() {
    let l = loader(b"hello, world".to_vec());
    assert!(matches!(l.parse(), Err(UnifyError::ParseError(_))));
    assert!(matches!(l.get_format_name(), Err(UnifyError::ParseError(_))));
    assert!(matches!(l.get_arch_name(), Err(UnifyError::ParseError(_))));
}

#[test]
fn loader_names_format_and_architecture() {
    let l = loader(sample_image());
    assert_eq!(l.get_format_name().ok().unwrap(), "Elf");
    assert_eq!(l.get_arch_name().ok().unwrap(), "X86_64");
    assert_eq!(l.source(), "memory");
    assert_eq!(l.data().len(), sample_image().len());
}

#[test]
fn empty_object_analyzes_to_nothing() {
    let l = loader(elf_image(&[]));
    let r = Analyzer::new(&l, AnalysisProfile::Default).analyze(|_: &Vec<u64>| 0).ok().unwrap();
    assert!(r.findings.is_empty());
    assert!(r.symbols.is_empty());
    assert!(r.sections.iter().all(|s| s.entropy_micro == 0));
}

#[test]
fn scan_finds_planted_pattern_at_each_offset() {
    let mut data = vec![0u8; 128];
    let pat = [0xde, 0xad, 0xbe, 0xef];
    for off in [5usize, 9, 100] {
        data[off..off + 4].copy_from_slice(&pat);
    }
    let l = loader(data);
    let a = Analyzer::new(&l, AnalysisProfile::Default);
    assert_eq!(a.scan_patterns("deadbeef").ok().unwrap(), vec![5, 9, 100]);
    assert_eq!(a.scan_patterns("DEADBEEF").ok().unwrap(), vec![5, 9, 100]);
}

#[test]
fn scan_reports_overlapping_matches_and_the_last_position() {
    let l = loader(vec![0x41, 0x41, 0x41, 0x42, 0x41, 0x41]);
    let a = Analyzer::new(&l, AnalysisProfile::Default);
    assert_eq!(a.scan_patterns("4141").ok().unwrap(), vec![0, 1, 4]);
    assert_eq!(a.scan_patterns("414142414141").ok().unwrap(), Vec::<u64>::new());
    assert_eq!(a.scan_patterns("").ok().unwrap(), Vec::<u64>::new());
    assert_eq!(a.scan_patterns("42").ok().unwrap(), vec![3]);
}

#[test]
fn malformed_hex_is_an_invalid_argument() {
    let l = loader(vec![1, 2, 3]);
    let a = Analyzer::new(&l, AnalysisProfile::Default);
    assert!(matches!(a.scan_patterns("abc"), Err(UnifyError::InvalidArgument(_))));
    assert!(matches!(a.scan_patterns("zz"), Err(UnifyError::InvalidArgument(_))));
    assert!(matches!(a.scan_patterns("0g"), Err(UnifyError::InvalidArgument(_))));
}

#[test]
fn find_pattern_is_exhaustive() {
    assert_eq!(find_pattern(&[1, 1, 1, 1], &[1, 1]), vec![0, 1, 2]);
    assert_eq!(find_pattern(&[1, 2], &[]), Vec::<u64>::new());
    assert_eq!(find_pattern(&[1, 2], &[1, 2, 3]), Vec::<u64>::new());
}

fn section(name: &str, address: u64, entropy_micro: u64) -> SectionInfo {
    SectionInfo { name: name.to_string(), address, size: 16, entropy_micro }
}

#[test]
fn entropy_threshold_is_strict() {
    let secs = vec![section(".a", 0x10, 7_000_000), section(".b", 0x20, 7_000_001)];
    let f = collect_findings(&secs, &[], AnalysisProfile::Default);
    assert_eq!(f.len(), 1);
    assert_eq!(f[0].id, "HIGH_ENTROPY");
    assert_eq!(f[0].offset, Some(0x20));
    assert_eq!(f[0].message, "Section .b has high entropy (7.00) - potentially packed or encrypted.");
    let none = collect_findings(&secs, &[], AnalysisProfile::Exploit);
    assert!(none.is_empty());
}

#[test]
fn packer_section_names_are_flagged_under_every_profile() {
    let secs = vec![section(".packed", 0x10, 0), section("upx", 0x20, 0), section("UPX", 0x30, 0)];
    for p in [AnalysisProfile::Malware, AnalysisProfile::Exploit, AnalysisProfile::Audit, AnalysisProfile::Default] {
        let f = collect_findings(&secs, &[], p);
        let offs: Vec<Option<u64>> = f.iter().map(|x| x.offset).collect();
        assert_eq!(offs, vec![Some(0x10), Some(0x30)]);
        assert!(f.iter().all(|x| x.id == "SUSPICIOUS_SECTION"));
    }
}

#[test]
fn nop_sleds_need_sixteen_bytes() {
    let mut data = vec![0u8; 3];
    data.extend_from_slice(&[0x90; 15]);
    assert_eq!(detect_nop_sleds(&data), Vec::<u64>::new());
    data.push(0x90);
    assert_eq!(detect_nop_sleds(&data), vec![3]);
    data.extend_from_slice(&[0x90; 10]);
    data.push(0);
    data.extend_from_slice(&[0x90; 16]);
    assert_eq!(detect_nop_sleds(&data), vec![3, 30]);
}

#[test]
fn histogram_of_zero_bytes_has_one_bin() {
    let h = byte_histogram(&[0u8; 10]);
    assert_eq!(h.len(), 256);
    assert_eq!(h[0], 10);
    assert!(h[1..].iter().all(|c| *c == 0));
    let h = byte_histogram(&[1, 2, 2, 255]);
    assert_eq!((h[1], h[2], h[255], h[0]), (1, 2, 1, 0));
}

#[test]
fn sort_keeps_every_record() {
    let v = vec![section("c", 3, 0), section("a", 1, 0), section("b", 2, 0), section("a2", 1, 0)];
    let s = sort_by_address(v);
    let addrs: Vec<u64> = s.iter().map(|x| x.address).collect();
    assert_eq!(addrs, vec![1, 1, 2, 3]);
    let mut names: Vec<String> = s.iter().map(|x| x.name.clone()).collect();
    names.sort();
    assert_eq!(names, vec!["a", "a2", "b", "c"]);
}

#[test]
fn metadata_by_format() {
    let pe = format_metadata(ContainerFormat::Pe, 3, 4).unwrap();
    assert_eq!((pe.kind.as_str(), pe.section_count, pe.symbol_count), ("PE", 3, 4));
    assert_eq!(format_metadata(ContainerFormat::MachO, 0, 0).unwrap().kind, "Mach-O");
    assert!(format_metadata(ContainerFormat::Wasm, 1, 1).is_none());
}

#[test]
fn sort_is_stable_at_equal_addresses() {
    let v = vec![section("b", 2, 0), section("a1", 1, 0), section("c", 3, 0), section("a2", 1, 0), section("a3", 1, 0)];
    let names: Vec<String> = sort_by_address(v).iter().map(|x| x.name.clone()).collect();
    assert_eq!(names, vec!["a1", "a2", "a3", "b", "c"]);
}

#[test]
fn same_bytes_same_layout_under_any_profile() {
    let a = analyze(sample_image(), AnalysisProfile::Exploit).ok().unwrap();
    let b = analyze(sample_image(), AnalysisProfile::Malware).ok().unwrap();
    let key = |r: &AnalysisResult| -> Vec<(String, u64, u64)> {
        r.sections.iter().map(|s| (s.name.clone(), s.address, s.size)).collect()
    };
    assert_eq!(key(&a), key(&b));
    let d = unifyre::DiffEngine::compare(&a, &b);
    assert!(d.section_diffs.is_empty() && d.symbol_diffs.is_empty());
}

#[test]
fn parse_error_carries_parser_text() {
    match loader(b"not an object".to_vec()).parse() {
        Err(UnifyError::ParseError(m)) => {
            assert!(m.starts_with("Failed to parse binary: "));
            assert!(m.len() > "Failed to parse binary: ".len());
        }
        _ => panic!("expected a parse error"),
    }
}
