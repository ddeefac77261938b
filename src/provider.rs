use vstd::prelude::*;
use crate::error::UnifyError;
use crate::objfile::{
    layout_of, object_parses, parse_layout, parsed_architecture, parsed_format, ObjectLayout,
};

verus! {

/// A source of binary data: raw bytes, immutable once loaded, and their structural parse.
pub trait BinaryProvider {
    /// The raw bytes.
    spec fn bytes(&self) -> Seq<u8>;

    fn data(&self) -> (r: &[u8])
        ensures
            r@ == self.bytes(),
    ;

    /// The path or other identifier the bytes came from.
    fn source(&self) -> &str;

    /// The structural parse of the bytes; a parse error when the parser refuses them.
    fn parse(&self) -> (r: Result<ObjectLayout, UnifyError>)
        ensures
            r is Ok <==> object_parses(self.bytes()),
            r is Err ==> r->Err_0 is ParseError,
            r is Ok ==> layout_of(r->Ok_0, self.bytes()),
    {
        parse_layout(self.data())
    }
}

/// A binary held in memory together with the path it was read from.
pub struct BinaryLoader {
    pub path: String,
    pub data: Vec<u8>,
}

impl BinaryLoader {
    /// A loader over bytes already read from `path`.
    pub fn from_bytes(path: String, data: Vec<u8>) -> (r: Self)
        ensures
            r.path@ == path@,
            r.data@ == data@,
    {
        BinaryLoader { path, data }
    }

    /// The name of the detected container format.
    pub fn get_format_name(&self) -> (r: Result<String, UnifyError>)
        ensures
            r is Ok <==> object_parses(self.data@),
            r is Err ==> r->Err_0 is ParseError,
            r is Ok ==> r->Ok_0@ == parsed_format(self.data@).name_spec(),
    {
        let layout = self.parse()?;
        Ok(layout.format.name())
    }

    /// The name of the architecture the parser reports.
    pub fn get_arch_name(&self) -> (r: Result<String, UnifyError>)
        ensures
            r is Ok <==> object_parses(self.data@),
            r is Err ==> r->Err_0 is ParseError,
            r is Ok ==> r->Ok_0@ == parsed_architecture(self.data@),
    {
        let layout = self.parse()?;
        Ok(layout.architecture)
    }
}

impl BinaryProvider for BinaryLoader {
    open spec fn bytes(&self) -> Seq<u8> {
        self.data@
    }

    fn data(&self) -> (r: &[u8]) {
        self.data.as_slice()
    }

    fn source(&self) -> &str {
        self.path.as_str()
    }
}

} // verus!
