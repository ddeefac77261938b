use vstd::prelude::*;
use crate::error::UnifyError;
use crate::model::SectionInfo;

verus! {

/// One decoded instruction.
#[derive(Debug, Clone)]
pub struct InstructionInfo {
    pub address: u64,
    pub mnemonic: String,
    pub op_str: String,
}

/// Turns code bytes placed at a base address into instructions, decoding forward.
pub trait InstructionDecoder {
    fn decode(&self, code: &[u8], address: u64) -> Result<Vec<InstructionInfo>, UnifyError>;
}

/// Section `s` covers address `addr`.
pub open spec fn covers(s: SectionInfo, addr: u64) -> bool {
    s.address <= addr && addr - s.address < s.size
}

/// The first section that covers `addr`, with the offset of `addr` inside it; none
/// when no section covers it.
pub fn locate_address(sections: &Vec<SectionInfo>, addr: u64) -> (r: Option<(usize, u64)>)
    ensures
        r is None <==> forall|i: int| 0 <= i < sections@.len() ==> !covers(#[trigger] sections@[i], addr),
        r is Some ==> {
            let (i, off) = r->Some_0;
            &&& i < sections@.len()
            &&& covers(sections@[i as int], addr)
            &&& off == addr - sections@[i as int].address
            &&& forall|k: int| 0 <= k < i ==> !covers(#[trigger] sections@[k], addr)
        },
{
    let mut i: usize = 0;
    while i < sections.len()
        invariant
            i <= sections@.len(),
            forall|k: int| 0 <= k < i ==> !covers(#[trigger] sections@[k], addr),
        decreases sections@.len() - i,
    {
        let s = &sections[i];
        if s.address <= addr && addr - s.address < s.size {
            return Some((i, addr - s.address));
        }
        i = i + 1;
    }
    None
}

} // verus!
