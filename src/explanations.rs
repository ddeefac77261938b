use vstd::prelude::*;
use vstd::string::*;

verus! {

/// A human explanation of one finding identifier.
pub struct Explanation {
    pub title: String,
    pub description: String,
    pub detection_method: String,
    pub risk_level: String,
}

/// A fixed table from finding identifiers to explanations, read-only once built.
pub struct ExplanationEngine {
    kb: Vec<(String, Explanation)>,
}

/// The identifiers the built-in table explains, in table order.
pub open spec fn known_ids() -> Seq<Seq<char>> {
    seq!["HIGH_ENTROPY"@, "SUSPICIOUS_SEQ"@, "SUSPICIOUS_SECTION"@]
}

/// The explanation texts of the built-in table, in table order: title, description,
/// detection method and risk level.
pub open spec fn known_texts() -> Seq<(Seq<char>, Seq<char>, Seq<char>, Seq<char>)> {
    seq![
        (
            "High Entropy Section Detected"@,
            "This section has a high Shannon entropy value (above 7.0). Entropy is a measure of randomness in data. High entropy is typical for encrypted or compressed data, which is often used by malware packers to hide their actual code."@,
            "Calculated using the Shannon entropy formula on the raw byte content of the section."@,
            "High - Possible packed or obfuscated code."@,
        ),
        (
            "Suspicious Instruction Sequence"@,
            "A sequence of instructions commonly associated with shellcode or exploitation attempts (e.g., long NOP sleds) was detected."@,
            "Pattern scanning for known-bad or highly unusual opcode sequences."@,
            "Medium - Could be legitimate padding or part of a shellcode payload."@,
        ),
        (
            "Suspicious Section Name Detected"@,
            "The binary contains sections with names commonly associated with packers or obfuscators (e.g., .packed, UPX, .aspack). This is a strong indicator that the binary is compressed or protected to hinder static analysis."@,
            "Matches internal section names against a curated list of known-bad or packer-specific strings."@,
            "Medium - High probability of packing."@,
        ),
    ]
}

/// The four texts of an explanation.
pub open spec fn explanation_texts(e: Explanation) -> (Seq<char>, Seq<char>, Seq<char>, Seq<char>) {
    (e.title@, e.description@, e.detection_method@, e.risk_level@)
}

impl ExplanationEngine {
    /// The identifiers of the table, in order.
    pub closed spec fn ids(&self) -> Seq<Seq<char>> {
        self.kb@.map_values(|e: (String, Explanation)| e.0@)
    }

    /// The explanation stored at position `i` of the table.
    pub closed spec fn entry(&self, i: int) -> Explanation {
        self.kb@[i].1
    }

    pub fn new() -> (r: Self)
        ensures
            r.ids() == known_ids(),
            forall|i: int| 0 <= i < 3 ==> explanation_texts(#[trigger] r.entry(i)) == known_texts()[i],
    {
        let mut kb: Vec<(String, Explanation)> = Vec::new();
        kb.push(
            (
                String::from_str("HIGH_ENTROPY"),
                Explanation {
                    title: String::from_str("High Entropy Section Detected"),
                    description: String::from_str(
                        "This section has a high Shannon entropy value (above 7.0). Entropy is a measure of randomness in data. High entropy is typical for encrypted or compressed data, which is often used by malware packers to hide their actual code.",
                    ),
                    detection_method: String::from_str(
                        "Calculated using the Shannon entropy formula on the raw byte content of the section.",
                    ),
                    risk_level: String::from_str("High - Possible packed or obfuscated code."),
                },
            ),
        );
        kb.push(
            (
                String::from_str("SUSPICIOUS_SEQ"),
                Explanation {
                    title: String::from_str("Suspicious Instruction Sequence"),
                    description: String::from_str(
                        "A sequence of instructions commonly associated with shellcode or exploitation attempts (e.g., long NOP sleds) was detected.",
                    ),
                    detection_method: String::from_str(
                        "Pattern scanning for known-bad or highly unusual opcode sequences.",
                    ),
                    risk_level: String::from_str(
                        "Medium - Could be legitimate padding or part of a shellcode payload.",
                    ),
                },
            ),
        );
        kb.push(
            (
                String::from_str("SUSPICIOUS_SECTION"),
                Explanation {
                    title: String::from_str("Suspicious Section Name Detected"),
                    description: String::from_str(
                        "The binary contains sections with names commonly associated with packers or obfuscators (e.g., .packed, UPX, .aspack). This is a strong indicator that the binary is compressed or protected to hinder static analysis.",
                    ),
                    detection_method: String::from_str(
                        "Matches internal section names against a curated list of known-bad or packer-specific strings.",
                    ),
                    risk_level: String::from_str("Medium - High probability of packing."),
                },
            ),
        );
        let r = ExplanationEngine { kb };
        assert(r.ids() =~= known_ids());
        assert forall|i: int| 0 <= i < 3 implies explanation_texts(#[trigger] r.entry(i))
            == known_texts()[i] by {
            if i == 0 {
                assert(r.entry(0) == r.kb@[0].1);
            } else if i == 1 {
                assert(r.entry(1) == r.kb@[1].1);
            } else {
                assert(r.entry(2) == r.kb@[2].1);
            }
        }
        r
    }

    /// The explanation of `id`: the first entry of the table under that identifier,
    /// none for an identifier the table does not hold.
    pub fn explain(&self, id: &str) -> (r: Option<&Explanation>)
        ensures
            r is None <==> !self.ids().contains(id@),
            r is Some ==> exists|i: int|
                0 <= i < self.ids().len() && self.ids()[i] == id@ && (forall|k: int|
                    0 <= k < i ==> #[trigger] self.ids()[k] != id@) && *r->Some_0 == self.entry(i),
    {
        let key = String::from_str(id);
        let mut i: usize = 0;
        while i < self.kb.len()
            invariant
                i <= self.kb@.len(),
                key@ == id@,
                forall|k: int| 0 <= k < i ==> #[trigger] self.ids()[k] != id@,
            decreases self.kb@.len() - i,
        {
            if self.kb[i].0 == key {
                let r = &self.kb[i].1;
                assert(self.ids()[i as int] == id@);
                assert(*r == self.entry(i as int));
                return Some(r);
            }
            assert(self.ids()[i as int] != id@);
            i = i + 1;
        }
        assert forall|k: int| 0 <= k < self.ids().len() implies self.ids()[k] != id@ by {}
        None
    }
}

} // verus!
