use vstd::prelude::*;
use vstd::string::*;
use crate::model::{findings_view, Confidence, Finding, FindingView, SectionInfo};
use crate::profiles::AnalysisProfile;
use crate::scan::indices_where;
use crate::text::{two_places, two_places_text};

verus! {

/// Sections whose entropy exceeds this many millionths of a bit per byte are reported.
pub const ENTROPY_THRESHOLD_MICRO: u64 = 7000000;

/// The x86 one-byte no-operation instruction.
pub const NOP: u8 = 0x90;

/// The shortest run of no-operation bytes reported as a sled.
pub const SLED_MIN_LEN: usize = 16;

/// The finding raised for a section of high entropy.
pub open spec fn high_entropy_finding(s: SectionInfo) -> FindingView {
    FindingView {
        id: "HIGH_ENTROPY"@,
        message: "Section "@ + s.name@ + " has high entropy ("@ + two_places_text(s.entropy_micro)
            + ") - potentially packed or encrypted."@,
        confidence: Confidence::High,
        offset: Some(s.address),
    }
}

/// The entropy pass over `secs`: one finding per section above the threshold, in order.
pub open spec fn entropy_findings(secs: Seq<SectionInfo>) -> Seq<FindingView>
    decreases secs.len(),
{
    if secs.len() == 0 {
        Seq::empty()
    } else {
        let s = secs.last();
        entropy_findings(secs.drop_last()) + if s.entropy_micro > ENTROPY_THRESHOLD_MICRO {
            seq![high_entropy_finding(s)]
        } else {
            Seq::empty()
        }
    }
}

/// Section names associated with packers.
pub open spec fn is_suspicious_name(name: Seq<char>) -> bool {
    name == ".packed"@ || name == "UPX"@
}

/// The finding raised for a section with a packer's name.
pub open spec fn suspicious_section_finding(s: SectionInfo) -> FindingView {
    FindingView {
        id: "SUSPICIOUS_SECTION"@,
        message: "Suspicious section name found: "@ + s.name@,
        confidence: Confidence::Low,
        offset: Some(s.address),
    }
}

/// The section-name pass over `secs`: one finding per section with a packer's name.
pub open spec fn section_name_findings(secs: Seq<SectionInfo>) -> Seq<FindingView>
    decreases secs.len(),
{
    if secs.len() == 0 {
        Seq::empty()
    } else {
        let s = secs.last();
        section_name_findings(secs.drop_last()) + if is_suspicious_name(s.name@) {
            seq![suspicious_section_finding(s)]
        } else {
            Seq::empty()
        }
    }
}

/// A no-operation sled starts at `i`: at least `SLED_MIN_LEN` no-operation bytes
/// from `i` on, and none just before it.
pub open spec fn sled_starts_at(data: Seq<u8>, i: int) -> bool {
    0 <= i && i + SLED_MIN_LEN <= data.len() && (forall|k: int|
        0 <= k < SLED_MIN_LEN ==> #[trigger] data[i + k] == NOP) && (i == 0 || data[i - 1] != NOP)
}

/// The start of every no-operation sled in `data`, ascending.
pub open spec fn sled_offsets(data: Seq<u8>) -> Seq<u64> {
    indices_where(data.len(), |i: int| sled_starts_at(data, i))
}

/// The finding raised for a sled starting at `o`.
pub open spec fn sled_finding(o: u64) -> FindingView {
    FindingView {
        id: "SUSPICIOUS_SEQ"@,
        message: "Possible NOP sled: 16 or more consecutive 0x90 bytes"@,
        confidence: Confidence::Medium,
        offset: Some(o),
    }
}

/// The sequence pass over raw bytes.
pub open spec fn sled_findings(data: Seq<u8>) -> Seq<FindingView> {
    sled_offsets(data).map_values(|o: u64| sled_finding(o))
}

/// Every finding of one analysis, in pass order: entropy (if the profile runs it),
/// suspicious sequences (if the profile runs it), then section names.
pub open spec fn expected_findings(
    secs: Seq<SectionInfo>,
    data: Seq<u8>,
    profile: AnalysisProfile,
) -> Seq<FindingView> {
    (if profile.entropy_gate() {
        entropy_findings(secs)
    } else {
        Seq::empty()
    }) + (if profile.suspicious_seq_gate() {
        sled_findings(data)
    } else {
        Seq::empty()
    }) + section_name_findings(secs)
}

fn high_entropy_finding_exec(s: &SectionInfo) -> (r: Finding)
    ensures
        r@ == high_entropy_finding(*s),
{
    let mut m = String::from_str("Section ");
    m.append(s.name.as_str());
    m.append(" has high entropy (");
    let t = two_places(s.entropy_micro);
    m.append(t.as_str());
    m.append(") - potentially packed or encrypted.");
    Finding {
        id: String::from_str("HIGH_ENTROPY"),
        message: m,
        confidence: Confidence::High,
        offset: Some(s.address),
    }
}

fn suspicious_section_finding_exec(s: &SectionInfo) -> (r: Finding)
    ensures
        r@ == suspicious_section_finding(*s),
{
    let mut m = String::from_str("Suspicious section name found: ");
    m.append(s.name.as_str());
    Finding {
        id: String::from_str("SUSPICIOUS_SECTION"),
        message: m,
        confidence: Confidence::Low,
        offset: Some(s.address),
    }
}

fn sled_finding_exec(o: u64) -> (r: Finding)
    ensures
        r@ == sled_finding(o),
{
    Finding {
        id: String::from_str("SUSPICIOUS_SEQ"),
        message: String::from_str("Possible NOP sled: 16 or more consecutive 0x90 bytes"),
        confidence: Confidence::Medium,
        offset: Some(o),
    }
}

fn push_finding(out: &mut Vec<Finding>, f: Finding)
    ensures
        findings_view(final(out)@) == findings_view(old(out)@).push(f@),
{
    out.push(f);
    assert(findings_view(out@) =~= findings_view(old(out)@).push(f@));
}

/// Appends the entropy pass's findings over `sections`.
pub fn entropy_pass(sections: &Vec<SectionInfo>, out: &mut Vec<Finding>)
    ensures
        findings_view(final(out)@) == findings_view(old(out)@) + entropy_findings(sections@),
{
    let ghost start = findings_view(out@);
    let mut i: usize = 0;
    assert(sections@.subrange(0, 0) =~= Seq::<SectionInfo>::empty());
    assert(start + Seq::<FindingView>::empty() =~= start);
    while i < sections.len()
        invariant
            i <= sections@.len(),
            findings_view(out@) == start + entropy_findings(sections@.subrange(0, i as int)),
        decreases sections@.len() - i,
    {
        let ghost pre = sections@.subrange(0, i as int);
        let ghost post = sections@.subrange(0, i + 1);
        assert(post.drop_last() =~= pre);
        assert(post.last() == sections@[i as int]);
        let s = &sections[i];
        if s.entropy_micro > ENTROPY_THRESHOLD_MICRO {
            let f = high_entropy_finding_exec(s);
            push_finding(out, f);
            assert(findings_view(out@) =~= start + entropy_findings(post));
        } else {
            assert(findings_view(out@) =~= start + entropy_findings(post));
        }
        i = i + 1;
    }
    assert(sections@.subrange(0, sections@.len() as int) =~= sections@);
}

/// Appends the section-name pass's findings over `sections`.
pub fn section_name_pass(sections: &Vec<SectionInfo>, out: &mut Vec<Finding>)
    ensures
        findings_view(final(out)@) == findings_view(old(out)@) + section_name_findings(sections@),
{
    let ghost start = findings_view(out@);
    let packed = String::from_str(".packed");
    let upx = String::from_str("UPX");
    let mut i: usize = 0;
    assert(sections@.subrange(0, 0) =~= Seq::<SectionInfo>::empty());
    assert(start + Seq::<FindingView>::empty() =~= start);
    while i < sections.len()
        invariant
            i <= sections@.len(),
            packed@ == ".packed"@,
            upx@ == "UPX"@,
            findings_view(out@) == start + section_name_findings(sections@.subrange(0, i as int)),
        decreases sections@.len() - i,
    {
        let ghost pre = sections@.subrange(0, i as int);
        let ghost post = sections@.subrange(0, i + 1);
        assert(post.drop_last() =~= pre);
        assert(post.last() == sections@[i as int]);
        let s = &sections[i];
        if s.name == packed || s.name == upx {
            let f = suspicious_section_finding_exec(s);
            push_finding(out, f);
            assert(findings_view(out@) =~= start + section_name_findings(post));
        } else {
            assert(findings_view(out@) =~= start + section_name_findings(post));
        }
        i = i + 1;
    }
    assert(sections@.subrange(0, sections@.len() as int) =~= sections@);
}

fn sled_starts_exec(data: &[u8], i: usize) -> (r: bool)
    requires
        i < data@.len(),
    ensures
        r == sled_starts_at(data@, i as int),
{
    let n = data.len();
    if n - i < SLED_MIN_LEN {
        return false;
    }
    if i > 0 && data[i - 1] == NOP {
        return false;
    }
    let mut k: usize = 0;
    while k < SLED_MIN_LEN
        invariant
            n == data@.len(),
            i + SLED_MIN_LEN <= n,
            k <= SLED_MIN_LEN,
            forall|j: int| 0 <= j < k ==> #[trigger] data@[i + j] == NOP,
        decreases SLED_MIN_LEN - k,
    {
        if data[i + k] != NOP {
            return false;
        }
        k = k + 1;
    }
    true
}

/// The start offset of every no-operation sled in `data`, ascending.
pub fn detect_nop_sleds(data: &[u8]) -> (r: Vec<u64>)
    ensures
        r@ == sled_offsets(data@),
{
    let ghost p = |i: int| sled_starts_at(data@, i);
    let mut out: Vec<u64> = Vec::new();
    let mut i: usize = 0;
    while i < data.len()
        invariant
            i <= data@.len(),
            out@ == indices_where(i as nat, p),
            p == (|i: int| sled_starts_at(data@, i)),
        decreases data@.len() - i,
    {
        let hit = sled_starts_exec(data, i);
        assert(hit == p(i as int));
        if hit {
            out.push(i as u64);
        }
        i = i + 1;
    }
    out
}

/// Appends one suspicious-sequence finding per sled offset.
pub fn sled_pass(offsets: &Vec<u64>, out: &mut Vec<Finding>)
    ensures
        findings_view(final(out)@) == findings_view(old(out)@) + offsets@.map_values(
            |o: u64| sled_finding(o),
        ),
{
    let ghost start = findings_view(out@);
    let mut i: usize = 0;
    assert(start + Seq::<FindingView>::empty() =~= start);
    while i < offsets.len()
        invariant
            i <= offsets@.len(),
            findings_view(out@) == start + offsets@.subrange(0, i as int).map_values(
                |o: u64| sled_finding(o),
            ),
        decreases offsets@.len() - i,
    {
        let f = sled_finding_exec(offsets[i]);
        push_finding(out, f);
        assert(offsets@.subrange(0, i + 1).map_values(|o: u64| sled_finding(o)) =~= offsets@.subrange(
            0,
            i as int,
        ).map_values(|o: u64| sled_finding(o)).push(sled_finding(offsets@[i as int])));
        assert(findings_view(out@) =~= start + offsets@.subrange(0, i + 1).map_values(
            |o: u64| sled_finding(o),
        ));
        i = i + 1;
    }
    assert(offsets@.subrange(0, offsets@.len() as int) =~= offsets@);
}

/// Runs every heuristic pass that `profile` enables, in pass order.
pub fn collect_findings(sections: &Vec<SectionInfo>, data: &[u8], profile: AnalysisProfile) -> (r:
    Vec<Finding>)
    ensures
        findings_view(r@) == expected_findings(sections@, data@, profile),
{
    let mut out: Vec<Finding> = Vec::new();
    assert(findings_view(out@) =~= Seq::<FindingView>::empty());
    if profile.should_run_entropy() {
        entropy_pass(sections, &mut out);
    }
    if profile.should_run_suspicious_seq() {
        let offsets = detect_nop_sleds(data);
        sled_pass(&offsets, &mut out);
    }
    section_name_pass(sections, &mut out);
    assert(findings_view(out@) =~= expected_findings(sections@, data@, profile));
    out
}

proof fn lemma_entropy_findings_concat(a: Seq<SectionInfo>, b: Seq<SectionInfo>)
    ensures
        entropy_findings(a + b) == entropy_findings(a) + entropy_findings(b),
    decreases b.len(),
{
    if b.len() == 0 {
        assert(a + b =~= a);
        assert(entropy_findings(a) + Seq::<FindingView>::empty() =~= entropy_findings(a));
    } else {
        lemma_entropy_findings_concat(a, b.drop_last());
        assert((a + b).drop_last() =~= a + b.drop_last());
        assert((a + b).last() == b.last());
        assert(entropy_findings(a + b) =~= entropy_findings(a) + entropy_findings(b));
    }
}

proof fn lemma_entropy_findings_ids(secs: Seq<SectionInfo>)
    ensures
        forall|i: int|
            0 <= i < entropy_findings(secs).len() ==> #[trigger] entropy_findings(secs)[i].id
                == "HIGH_ENTROPY"@,
    decreases secs.len(),
{
    if secs.len() > 0 {
        lemma_entropy_findings_ids(secs.drop_last());
    }
}

proof fn lemma_section_name_findings_ids(secs: Seq<SectionInfo>)
    ensures
        forall|i: int|
            0 <= i < section_name_findings(secs).len() ==> #[trigger] section_name_findings(
                secs,
            )[i].id == "SUSPICIOUS_SECTION"@,
    decreases secs.len(),
{
    if secs.len() > 0 {
        lemma_section_name_findings_ids(secs.drop_last());
    }
}

/// The entropy pass decides section by section: one section yields one `HIGH_ENTROPY`
/// finding when its entropy is strictly above the threshold and none otherwise (so
/// an entropy equal to the threshold does not fire), and a list of sections yields
/// the findings of its parts in order.
pub proof fn law_high_entropy_threshold(a: Seq<SectionInfo>, b: Seq<SectionInfo>, s: SectionInfo)
    ensures
        entropy_findings(seq![s]) == (if s.entropy_micro > ENTROPY_THRESHOLD_MICRO {
            seq![high_entropy_finding(s)]
        } else {
            Seq::<FindingView>::empty()
        }),
        entropy_findings(a + b) == entropy_findings(a) + entropy_findings(b),
        forall|i: int|
            0 <= i < entropy_findings(a).len() ==> #[trigger] entropy_findings(a)[i].id
                == "HIGH_ENTROPY"@,
{
    lemma_entropy_findings_concat(a, b);
    lemma_entropy_findings_ids(a);
    assert(seq![s].drop_last() =~= Seq::<SectionInfo>::empty());
    assert(seq![s].last() == s);
    assert(entropy_findings(Seq::<SectionInfo>::empty()) == Seq::<FindingView>::empty());
    assert(Seq::<FindingView>::empty() + seq![high_entropy_finding(s)] =~= seq![
        high_entropy_finding(s),
    ]);
    assert(Seq::<FindingView>::empty() + Seq::<FindingView>::empty() =~= Seq::<
        FindingView,
    >::empty());
}

/// Profiles differ only in `HIGH_ENTROPY` findings: under any profile the findings are
/// the entropy pass's (where the profile runs it) followed by exactly the findings
/// under `Exploit`, and none of those has the id `HIGH_ENTROPY`.
pub proof fn law_profile_gating(secs: Seq<SectionInfo>, data: Seq<u8>, p: AnalysisProfile)
    ensures
        expected_findings(secs, data, p) == (if p.entropy_gate() {
            entropy_findings(secs)
        } else {
            Seq::<FindingView>::empty()
        }) + expected_findings(secs, data, AnalysisProfile::Exploit),
        forall|f: FindingView|
            #[trigger] expected_findings(secs, data, AnalysisProfile::Exploit).contains(f)
                ==> f.id != "HIGH_ENTROPY"@,
{
    let e = if p.entropy_gate() {
        entropy_findings(secs)
    } else {
        Seq::<FindingView>::empty()
    };
    let rest = sled_findings(data) + section_name_findings(secs);
    assert(expected_findings(secs, data, p) =~= e + rest);
    assert(expected_findings(secs, data, AnalysisProfile::Exploit) =~= rest);
    lemma_section_name_findings_ids(secs);
    reveal_strlit("HIGH_ENTROPY");
    reveal_strlit("SUSPICIOUS_SEQ");
    reveal_strlit("SUSPICIOUS_SECTION");
    assert forall|f: FindingView| #[trigger] rest.contains(f) implies f.id != "HIGH_ENTROPY"@ by {
        let j = choose|j: int| 0 <= j < rest.len() && rest[j] == f;
        if j < sled_findings(data).len() {
            assert(f.id == "SUSPICIOUS_SEQ"@);
            assert(f.id.len() != "HIGH_ENTROPY"@.len());
        } else {
            assert(section_name_findings(secs)[j - sled_findings(data).len()] == f);
            assert(f.id.len() != "HIGH_ENTROPY"@.len());
        }
    }
}

/// The section-name pass reads names and addresses alone: lists that agree on them
/// pointwise give the same findings.
pub proof fn lemma_section_name_findings_by_key(a: Seq<SectionInfo>, b: Seq<SectionInfo>)
    requires
        a.len() == b.len(),
        forall|i: int|
            0 <= i < a.len() ==> (#[trigger] a[i]).name@ == b[i].name@ && a[i].address == b[i].address,
    ensures
        section_name_findings(a) == section_name_findings(b),
    decreases a.len(),
{
    if a.len() > 0 {
        lemma_section_name_findings_by_key(a.drop_last(), b.drop_last());
        assert(a.last().name@ == b.last().name@ && a.last().address == b.last().address) by {
            assert(a[a.len() - 1].name@ == b[a.len() - 1].name@);
        }
        assert(suspicious_section_finding(a.last()) == suspicious_section_finding(b.last()));
    }
}

} // verus!
