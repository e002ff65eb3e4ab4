//! The section extractor.
//!
//! The ELF container is parsed by the elf crate behind trusted wrappers;
//! what the tool reads from it — the machine type, the file type that
//! marks a position-independent executable, and the executable section's
//! address and bytes — is handed on as plain values.

use vstd::prelude::*;

use crate::errors::CovError;

verus! {

/// The ELF machine-type value of 32-bit x86.
pub const EM_386: u16 = 3;

/// The ELF machine-type value of x86-64.
pub const EM_X86_64: u16 = 62;

/// The ELF file-type value of a shared object, which is how a
/// position-independent executable is marked.
pub const ET_DYN: u16 = 3;

/// Whether the machine type is one the tool handles: 32- or 64-bit x86.
pub open spec fn is_supported_machine(m: u16) -> bool {
    m == EM_386 || m == EM_X86_64
}

/// The machine type and file type an ELF image's header carries, in this
/// order; `None` when the container does not parse. A function of the
/// bytes alone.
pub uninterp spec fn elf_header_of(data: Seq<u8>) -> Option<(u16, u16)>;

/// The virtual address and raw bytes of an ELF image's section of the
/// given name; `None` when the image has no such section. A function of
/// the bytes and the name alone.
pub uninterp spec fn elf_section_of(data: Seq<u8>, name: Seq<char>) -> Option<(u64, Seq<u8>)>;

#[verifier::external_type_specification]
#[verifier::external_body]
pub struct ExParseError(elf::ParseError);

/// Relies on the elf crate's `ElfBytes::minimal_parse`: validates the
/// container and exposes the file header, whose machine and type fields
/// depend on the bytes alone.
#[verifier::external_body]
fn parse_header(data: &Vec<u8>) -> (r: Option<(u16, u16)>)
    ensures
        r == elf_header_of(data@),
{
    match elf::ElfBytes::<elf::endian::AnyEndian>::minimal_parse(data.as_slice()) {
        Ok(file) => Some((file.ehdr.e_machine, file.ehdr.e_type)),
        Err(_) => None,
    }
}

/// Relies on the elf crate's `ElfBytes::minimal_parse`,
/// `section_header_by_name` and `section_data`: the virtual address and
/// contents of the named section, which depend on the bytes and the name
/// alone. `Err` when the container or its section table cannot be
/// parsed; on such an image the lookup has no successful outcome, so
/// `elf_section_of` names exactly the `Ok(Some(..))` results and is
/// `None` everywhere else — a present section is returned whenever it is
/// named.
#[verifier::external_body]
fn read_section(data: &Vec<u8>, name: &str) -> (r: Result<Option<(u64, Vec<u8>)>, elf::ParseError>)
    ensures
        (r matches Ok(Some((a, b))) ==> elf_section_of(data@, name@) == Some((a, b@))),
        (r matches Ok(o) && o is None ==> elf_section_of(data@, name@) is None),
        (r is Err) ==> elf_section_of(data@, name@) is None,
{
    let file = elf::ElfBytes::<elf::endian::AnyEndian>::minimal_parse(data.as_slice())?;
    match file.section_header_by_name(name)? {
        None => Ok(None),
        Some(shdr) => {
            let (bytes, _) = file.section_data(&shdr)?;
            Ok(Some((shdr.sh_addr, bytes.to_vec())))
        },
    }
}

/// Immutable snapshot of the executable section: its base virtual address
/// and its raw bytes.
pub struct TextSection {
    pub addr: u64,
    pub data: Vec<u8>,
}

/// The machine type and file type of the image, or `MalformedImage` when
/// the container does not parse.
pub fn elf_machine_and_type(data: &Vec<u8>) -> (r: Result<(u16, u16), CovError>)
    ensures
        (r matches Ok(p) ==> elf_header_of(data@) == Some(p)),
        (r is Err) ==> (r == Err::<(u16, u16), CovError>(CovError::MalformedImage)
            && elf_header_of(data@) is None),
{
    match parse_header(data) {
        Some(p) => Ok(p),
        None => Err(CovError::MalformedImage),
    }
}

/// Locates the executable section of the image and succeeds exactly when
/// the image has one: `MissingSection` when the image parses but has no
/// `.text` section, `MalformedImage` when it does not parse.
pub fn get_text_section(data: &Vec<u8>) -> (r: Result<TextSection, CovError>)
    ensures
        (r is Ok) <==> elf_section_of(data@, ".text"@) is Some,
        (r matches Ok(t) ==> elf_section_of(data@, ".text"@) == Some((t.addr, t.data@))),
        (r matches Err(e) ==> (e == CovError::MissingSection || e == CovError::MalformedImage)),
{
    match read_section(data, ".text") {
        Ok(Some((addr, bytes))) => Ok(TextSection { addr, data: bytes }),
        Ok(None) => Err(CovError::MissingSection),
        Err(_) => Err(CovError::MalformedImage),
    }
}

} // verus!
