use vstd::prelude::*;
use crate::error::UnifyError;
use crate::model::SymbolInfo;
use vstd::string::*;
use object::{Object, ObjectSection, ObjectSymbol};

verus! {

#[verifier::external_type_specification]
#[verifier::external_body]
pub struct ExObjectError(object::Error);

/// Whether the structural parser accepts `data` as an object file of a known container.
pub uninterp spec fn object_parses(data: Seq<u8>) -> bool;

/// The container format the structural parser detects in `data`.
pub uninterp spec fn parsed_format(data: Seq<u8>) -> ContainerFormat;

/// The name of the architecture the structural parser reports for `data`.
pub uninterp spec fn parsed_architecture(data: Seq<u8>) -> Seq<char>;

/// The entry-point address the structural parser reports for `data`.
pub uninterp spec fn parsed_entry(data: Seq<u8>) -> u64;

/// The sections the structural parser reports for `data`, in its order: name,
/// address, size and raw bytes.
pub uninterp spec fn parsed_sections(data: Seq<u8>) -> Seq<(Seq<char>, u64, u64, Seq<u8>)>;

/// The symbols the structural parser reports for `data`, in its order: name, address
/// and the name of its kind.
pub uninterp spec fn parsed_symbols(data: Seq<u8>) -> Seq<(Seq<char>, u64, Seq<char>)>;

/// The container formats the structural parser can report.
#[derive(Debug, Clone, Copy, PartialEq, Eq, Structural)]
pub enum ContainerFormat {
    Coff,
    Elf,
    MachO,
    Pe,
    Wasm,
    Xcoff,
    Other,
}

/// A section as the structural parser reports it, with its raw bytes.
pub struct RawSection {
    pub name: String,
    pub address: u64,
    pub size: u64,
    pub data: Vec<u8>,
}

/// Relies on `object::File::parse`: it either accepts the bytes or fails, and which
/// one depends on the bytes alone.
#[verifier::external_body]
pub(crate) fn parse_object(data: &[u8]) -> (r: Result<(), object::Error>)
    ensures
        r is Ok <==> object_parses(data@),
{
    object::File::parse(data).map(|_| ())
}

/// Relies on `object::File::format`: the container format that was detected.
#[verifier::external_body]
pub(crate) fn object_format(data: &[u8]) -> (r: ContainerFormat)
    requires
        object_parses(data@),
    ensures
        r == parsed_format(data@),
{
    let f = match object::File::parse(data) {
        Ok(f) => f,
        Err(_) => return ContainerFormat::Other,
    };
    match f.format() {
        object::BinaryFormat::Coff => ContainerFormat::Coff,
        object::BinaryFormat::Elf => ContainerFormat::Elf,
        object::BinaryFormat::MachO => ContainerFormat::MachO,
        object::BinaryFormat::Pe => ContainerFormat::Pe,
        object::BinaryFormat::Wasm => ContainerFormat::Wasm,
        object::BinaryFormat::Xcoff => ContainerFormat::Xcoff,
        _ => ContainerFormat::Other,
    }
}

/// Relies on `object::Object::architecture`: the name of the architecture it reports.
#[verifier::external_body]
pub(crate) fn object_architecture(data: &[u8]) -> (r: String)
    requires
        object_parses(data@),
    ensures
        r@ == parsed_architecture(data@),
{
    let f = match object::File::parse(data) {
        Ok(f) => f,
        Err(_) => return Default::default(),
    };
    format!("{:?}", f.architecture())
}

/// Relies on `object::Object::entry`: the entry-point address the container declares.
#[verifier::external_body]
pub(crate) fn object_entry(data: &[u8]) -> (r: u64)
    requires
        object_parses(data@),
    ensures
        r == parsed_entry(data@),
{
    let f = match object::File::parse(data) {
        Ok(f) => f,
        Err(_) => return Default::default(),
    };
    f.entry()
}

/// Relies on `object::Object::sections` and the section accessors: every section in the
/// parser's order, an unreadable name or body taken as empty.
#[verifier::external_body]
pub(crate) fn object_sections(data: &[u8]) -> (r: Vec<RawSection>)
    requires
        object_parses(data@),
    ensures
        raw_views(r@) == parsed_sections(data@),
{
    let f = match object::File::parse(data) {
        Ok(f) => f,
        Err(_) => return Default::default(),
    };
    let mut out = Vec::new();
    for s in f.sections() {
        out.push(RawSection {
            name: s.name().unwrap_or_default().to_string(),
            address: s.address(),
            size: s.size(),
            data: s.data().unwrap_or_default().to_vec(),
        });
    }
    out
}

/// Relies on `object::Object::symbols` and the symbol accessors: every symbol in the
/// parser's order, with the name of its kind; an unreadable name taken as empty.
#[verifier::external_body]
pub(crate) fn object_symbols(data: &[u8]) -> (r: Vec<SymbolInfo>)
    requires
        object_parses(data@),
    ensures
        symbol_views(r@) == parsed_symbols(data@),
{
    let f = match object::File::parse(data) {
        Ok(f) => f,
        Err(_) => return Default::default(),
    };
    let mut out = Vec::new();
    for s in f.symbols() {
        out.push(SymbolInfo {
            name: s.name().unwrap_or_default().to_string(),
            address: s.address(),
            kind: format!("{:?}", s.kind()),
        });
    }
    out
}

/// The plain content of a raw section.
pub open spec fn raw_view(s: RawSection) -> (Seq<char>, u64, u64, Seq<u8>) {
    (s.name@, s.address, s.size, s.data@)
}

/// The plain content of a symbol.
pub open spec fn symbol_view(s: SymbolInfo) -> (Seq<char>, u64, Seq<char>) {
    (s.name@, s.address, s.kind@)
}

/// The plain content of raw sections.
pub open spec fn raw_views(s: Seq<RawSection>) -> Seq<(Seq<char>, u64, u64, Seq<u8>)> {
    s.map_values(|x: RawSection| raw_view(x))
}

/// The plain content of symbols.
pub open spec fn symbol_views(s: Seq<SymbolInfo>) -> Seq<(Seq<char>, u64, Seq<char>)> {
    s.map_values(|x: SymbolInfo| symbol_view(x))
}

/// `l` is exactly what the structural parser reports for `data`.
pub open spec fn layout_of(l: ObjectLayout, data: Seq<u8>) -> bool {
    &&& l.format == parsed_format(data)
    &&& l.architecture@ == parsed_architecture(data)
    &&& l.entry_point == parsed_entry(data)
    &&& raw_views(l.sections@) == parsed_sections(data)
    &&& symbol_views(l.symbols@) == parsed_symbols(data)
}

/// The structural view of an object file: what the parser reports, in its order.
pub struct ObjectLayout {
    pub format: ContainerFormat,
    pub architecture: String,
    pub entry_point: u64,
    pub sections: Vec<RawSection>,
    pub symbols: Vec<SymbolInfo>,
}

/// The error reported when the structural parser refuses the bytes.
pub fn parse_failure(e: &object::Error) -> (r: UnifyError)
    ensures
        r is ParseError,
        exists|t: String|
            r->ParseError_0@ == "Failed to parse binary: "@ + t@ && to_string_from_display_ensures::<
                object::Error,
            >(e, t),
{
    let mut m = String::from_str("Failed to parse binary: ");
    let t = e.to_string();
    m.append(t.as_str());
    assert(m@ == "Failed to parse binary: "@ + t@);
    UnifyError::ParseError(m)
}

/// Parses `data` into its structural view; fails with a parse error exactly when the
/// structural parser refuses the bytes.
pub fn parse_layout(data: &[u8]) -> (r: Result<ObjectLayout, UnifyError>)
    ensures
        r is Ok <==> object_parses(data@),
        r is Err ==> r->Err_0 is ParseError,
        r is Ok ==> layout_of(r->Ok_0, data@),
{
    match parse_object(data) {
        Err(e) => Err(parse_failure(&e)),
        Ok(()) => Ok(
            ObjectLayout {
                format: object_format(data),
                architecture: object_architecture(data),
                entry_point: object_entry(data),
                sections: object_sections(data),
                symbols: object_symbols(data),
            },
        ),
    }
}

impl ContainerFormat {
    /// The container format's name as reported.
    pub open spec fn name_spec(self) -> Seq<char> {
        match self {
            ContainerFormat::Coff => "Coff"@,
            ContainerFormat::Elf => "Elf"@,
            ContainerFormat::MachO => "MachO"@,
            ContainerFormat::Pe => "Pe"@,
            ContainerFormat::Wasm => "Wasm"@,
            ContainerFormat::Xcoff => "Xcoff"@,
            ContainerFormat::Other => "Unknown"@,
        }
    }

    pub fn name(&self) -> (r: String)
        ensures
            r@ == self.name_spec(),
    {
        match self {
            ContainerFormat::Coff => String::from_str("Coff"),
            ContainerFormat::Elf => String::from_str("Elf"),
            ContainerFormat::MachO => String::from_str("MachO"),
            ContainerFormat::Pe => String::from_str("Pe"),
            ContainerFormat::Wasm => String::from_str("Wasm"),
            ContainerFormat::Xcoff => String::from_str("Xcoff"),
            ContainerFormat::Other => String::from_str("Unknown"),
        }
    }
}

} // verus!
