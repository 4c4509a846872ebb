//! Extracts the program from a linked ELF executable.
//!
//! The bytes of the file are parsed by `goblin`. What the extraction reads of
//! the result is kept in `ElfHeaders`, a plain record; the checks and the
//! copying of the sections work on that record and on the bytes.

use vstd::prelude::*;
use vstd::string::StringExecFns;
use crate::text::decimal;
use crate::text::same_str;
use crate::text::to_decimal;

verus! {

/// The file type of an executable (`ET_EXEC`).
pub const ET_EXEC: u16 = 2;

/// The machine number of MIPS (`EM_MIPS`).
pub const EM_MIPS: u16 = 8;

/// The flag of a section that holds instructions (`SHF_EXECINSTR`).
pub const SHF_EXECINSTR: u64 = 0x4;

/// Which check an executable failed.
#[derive(Debug, Clone, Copy, PartialEq, Eq)]
pub enum DumpError {
    /// The file is not an executable; holds its type.
    UnexpectedType(u16),
    /// The file is not for MIPS; holds its machine number.
    UnexpectedMachine(u16),
    /// The entry point does not fit in 32 bits; holds it.
    EntryPointOutOfRange(u64),
    /// The file is little-endian.
    UnexpectedEndianness,
    /// The file has no section header.
    MissingSectionHeaders,
    /// No section has the name that was asked for; holds the name.
    MissingSection(&'static str),
    /// The section reaches beyond the end of the file.
    IndexOutOfRange,
    /// The `.boot` section does not hold instructions; holds its flags.
    NonExecutableBoot(u64),
    /// The `.boot` section does not start at the entry point.
    BootNotAtEntryPoint,
    /// The program is longer than a vector can be on this machine.
    ImageTooLarge,
}

/// What goes wrong while the program is extracted.
#[derive(Debug)]
pub enum ElfError {
    /// `goblin` could not parse the file.
    Goblin(goblin::error::Error),
    /// The file was parsed, and is not what the console boots.
    Dump(DumpError),
}

impl DumpError {
    /// What the error says of itself.
    pub open spec fn message(&self) -> Seq<char> {
        match self {
            DumpError::UnexpectedType(e_type) => "Unexpected ELF type: "@ + decimal(*e_type as nat),
            DumpError::UnexpectedMachine(e_machine) => "Unexpected ELF machine: "@ + decimal(
                *e_machine as nat,
            ),
            DumpError::EntryPointOutOfRange(e_entry) => "Entry point out if range: "@ + decimal(
                *e_entry as nat,
            ),
            DumpError::UnexpectedEndianness => "Unexpected ELF endianness: true"@,
            DumpError::MissingSectionHeaders => "Missing ELF section headers"@,
            DumpError::MissingSection(name) => "Could not find "@ + name@ + " section"@,
            DumpError::IndexOutOfRange => "Index out of range"@,
            DumpError::NonExecutableBoot(sh_flags) => "Non-executable .boot section: "@ + decimal(
                *sh_flags as nat,
            ),
            DumpError::BootNotAtEntryPoint =>
                "First byte of .boot section must be program entry point"@,
            DumpError::ImageTooLarge => "Program is larger than a vector can be"@,
        }
    }

    /// What the error says of itself.
    pub fn to_string(&self) -> (text: String)
        ensures
            text@ == self.message(),
    {
        match self {
            DumpError::UnexpectedType(e_type) => {
                let mut text = "Unexpected ELF type: ".to_owned();
                text.append(to_decimal(*e_type as u64).as_str());
                text
            },
            DumpError::UnexpectedMachine(e_machine) => {
                let mut text = "Unexpected ELF machine: ".to_owned();
                text.append(to_decimal(*e_machine as u64).as_str());
                text
            },
            DumpError::EntryPointOutOfRange(e_entry) => {
                let mut text = "Entry point out if range: ".to_owned();
                text.append(to_decimal(*e_entry).as_str());
                text
            },
            DumpError::UnexpectedEndianness => "Unexpected ELF endianness: true".to_owned(),
            DumpError::MissingSectionHeaders => "Missing ELF section headers".to_owned(),
            DumpError::MissingSection(name) => {
                let mut text = "Could not find ".to_owned();
                text.append(name);
                text.append(" section");
                text
            },
            DumpError::IndexOutOfRange => "Index out of range".to_owned(),
            DumpError::NonExecutableBoot(sh_flags) => {
                let mut text = "Non-executable .boot section: ".to_owned();
                text.append(to_decimal(*sh_flags).as_str());
                text
            },
            DumpError::BootNotAtEntryPoint =>
                "First byte of .boot section must be program entry point".to_owned(),
            DumpError::ImageTooLarge => "Program is larger than a vector can be".to_owned(),
        }
    }
}

impl ElfError {
    /// What the error says of itself. What `goblin` says is left to `goblin`.
    pub open spec fn message(&self) -> Seq<char> {
        match self {
            ElfError::Goblin(_) => "ELF parsing error"@,
            ElfError::Dump(fault) => "Dump error: "@ + fault.message(),
        }
    }

    /// What the error says of itself.
    pub fn to_string(&self) -> (text: String)
        ensures
            text@ == self.message(),
    {
        match self {
            ElfError::Goblin(_) => "ELF parsing error".to_owned(),
            ElfError::Dump(fault) => {
                let mut text = "Dump error: ".to_owned();
                text.append(fault.to_string().as_str());
                text
            },
        }
    }
}

/// `goblin::error::Error`: carried through, never looked into.
#[verifier::external_type_specification]
#[verifier::external_body]
pub struct ExGoblinError(goblin::error::Error);

/// One section header, as far as the extraction reads it.
#[derive(Debug)]
pub struct SectionHeader {
    /// The name from the section header string table; `None` where the table
    /// has no string at the header's index.
    pub name: Option<String>,
    /// `sh_flags`
    pub flags: u64,
    /// `sh_addr`: where the section is loaded.
    pub addr: u64,
    /// `sh_offset`: where the section starts in the file.
    pub offset: u64,
    /// `sh_size`
    pub size: u64,
}

/// The headers of an ELF file, as far as the extraction reads them.
#[derive(Debug)]
pub struct ElfHeaders {
    /// `e_type`
    pub e_type: u16,
    /// `e_machine`
    pub e_machine: u16,
    /// `e_entry`
    pub e_entry: u64,
    /// Whether the file stores its numbers least significant byte first.
    pub little_endian: bool,
    /// The section headers, in the order of the file.
    pub section_headers: Vec<SectionHeader>,
}

/// The mathematical value of a `SectionHeader`.
pub struct SectionView {
    pub name: Option<Seq<char>>,
    pub flags: u64,
    pub addr: u64,
    pub offset: u64,
    pub size: u64,
}

/// The mathematical value of an `ElfHeaders`.
pub struct ElfView {
    pub e_type: u16,
    pub e_machine: u16,
    pub e_entry: u64,
    pub little_endian: bool,
    pub section_headers: Seq<SectionView>,
}

impl View for SectionHeader {
    type V = SectionView;

    open spec fn view(&self) -> SectionView {
        SectionView {
            name: match self.name {
                Some(name) => Some(name@),
                None => None,
            },
            flags: self.flags,
            addr: self.addr,
            offset: self.offset,
            size: self.size,
        }
    }
}

impl View for ElfHeaders {
    type V = ElfView;

    open spec fn view(&self) -> ElfView {
        ElfView {
            e_type: self.e_type,
            e_machine: self.e_machine,
            e_entry: self.e_entry,
            little_endian: self.little_endian,
            section_headers: Seq::new(
                self.section_headers@.len(),
                |i: int| self.section_headers@[i]@,
            ),
        }
    }
}

/// The program while it is put together: the bytes so far, and the address
/// that follows the last of them.
pub struct Image {
    pub bytes: Seq<u8>,
    pub end: int,
}

impl SectionView {
    /// Whether the section goes by `name`. A section without a name goes by
    /// the empty name.
    pub open spec fn is_named(self, name: Seq<char>) -> bool {
        match self.name {
            Some(own) => own == name,
            None => name.len() == 0,
        }
    }

    /// The end of the section in the file.
    pub open spec fn file_end(self) -> int {
        self.offset + self.size
    }

    /// The bytes of the section in a file that holds all of them.
    pub open spec fn bytes(self, data: Seq<u8>) -> Seq<u8> {
        data.subrange(self.offset as int, self.file_end())
    }
}

impl ElfView {
    /// The first check that the headers fail, if any. In order: the file is
    /// an executable, for MIPS, with an entry point of 32 bits, big-endian,
    /// and has section headers.
    pub open spec fn fault(self) -> Option<DumpError> {
        if self.e_type != ET_EXEC {
            Some(DumpError::UnexpectedType(self.e_type))
        } else if self.e_machine != EM_MIPS {
            Some(DumpError::UnexpectedMachine(self.e_machine))
        } else if self.e_entry > u32::MAX {
            Some(DumpError::EntryPointOutOfRange(self.e_entry))
        } else if self.little_endian {
            Some(DumpError::UnexpectedEndianness)
        } else if self.section_headers.len() == 0 {
            Some(DumpError::MissingSectionHeaders)
        } else {
            None
        }
    }

    /// The index of the first section from `from` on that goes by `name`.
    pub open spec fn position_from(self, name: Seq<char>, from: int) -> Option<int>
        decreases self.section_headers.len() - from,
    {
        if from < 0 || from >= self.section_headers.len() {
            None
        } else if self.section_headers[from].is_named(name) {
            Some(from)
        } else {
            self.position_from(name, from + 1)
        }
    }

    /// The index of the first section that goes by `name`.
    pub open spec fn position(self, name: Seq<char>) -> Option<int> {
        self.position_from(name, 0)
    }

    /// The first section that goes by `name`, if the file has one and holds
    /// all of its bytes.
    pub open spec fn section(self, data: Seq<u8>, name: &'static str) -> Result<
        SectionView,
        DumpError,
    > {
        match self.position(name@) {
            None => Err(DumpError::MissingSection(name)),
            Some(i) => if self.section_headers[i].file_end() <= data.len() {
                Ok(self.section_headers[i])
            } else {
                Err(DumpError::IndexOutOfRange)
            },
        }
    }

    /// The image with the section `name` added. A section that the file does
    /// not have, or does not hold all the bytes of, adds nothing. A section
    /// that is loaded behind the end of the image is reached by zeros.
    pub open spec fn append(self, data: Seq<u8>, name: &'static str, image: Image) -> Image {
        match self.section(data, name) {
            Err(_) => image,
            Ok(section) => {
                let gap = if image.end < section.addr {
                    section.addr - image.end
                } else {
                    0
                };
                Image {
                    bytes: image.bytes + Seq::new(gap as nat, |i: int| 0u8) + section.bytes(data),
                    end: image.end + gap + section.size,
                }
            },
        }
    }

    /// The image of the whole program: `.boot`, then `.text`, `.rodata`,
    /// `.data` and `.got`.
    pub open spec fn image(self, data: Seq<u8>, boot: SectionView) -> Image {
        let image = Image { bytes: boot.bytes(data), end: boot.addr + boot.size };
        let image = self.append(data, ".text", image);
        let image = self.append(data, ".rodata", image);
        let image = self.append(data, ".data", image);
        self.append(data, ".got", image)
    }

    /// The entry point and the program of an executable, or the first check
    /// that it fails: the checks of the headers; then that `.boot` is there,
    /// with all its bytes, holds instructions and starts at the entry point;
    /// then that a vector can hold the program: at most `isize::MAX` bytes.
    pub open spec fn extract(self, data: Seq<u8>) -> Result<(u32, Seq<u8>), DumpError> {
        match self.fault() {
            Some(fault) => Err(fault),
            None => match self.section(data, ".boot") {
                Err(fault) => Err(fault),
                Ok(boot) => if boot.flags & SHF_EXECINSTR == 0 {
                    Err(DumpError::NonExecutableBoot(boot.flags))
                } else if boot.addr != self.e_entry {
                    Err(DumpError::BootNotAtEntryPoint)
                } else if self.image(data, boot).bytes.len() > isize::MAX {
                    Err(DumpError::ImageTooLarge)
                } else {
                    Ok((self.e_entry as u32, self.image(data, boot).bytes))
                },
            },
        }
    }
}

impl SectionHeader {
    /// Whether the section goes by `name`.
    pub fn is_named(&self, name: &str) -> (named: bool)
        ensures
            named == self@.is_named(name@),
    {
        match &self.name {
            Some(own) => same_str(own.as_str(), name),
            None => name.is_empty(),
        }
    }
}

/// A section that was found, with its bytes in the file.
pub struct SectionInfo<'a> {
    pub header: &'a SectionHeader,
    pub binary: &'a [u8],
}

/// What `goblin` makes of the bytes of a file: the headers as far as
/// `ElfHeaders` keeps them, or `None` where it cannot parse the file.
/// `goblin` holds offsets in `usize`, so this is what it makes of the bytes
/// on a machine with pointers as wide as this one's.
pub uninterp spec fn parsed_elf(data: Seq<u8>) -> Option<ElfView>;

/// `goblin::elf::Elf::parse`, and the fields that the extraction reads of its
/// result: the type, the machine and the entry point of the header, the byte
/// order, and of each section header the flags, the address, the offset, the
/// size and the name, which `Strtab::get_at` looks up in the section header
/// string table. The outcome depends on the bytes alone and is given the
/// name `parsed_elf`; nothing else is claimed of it.
#[verifier::external_body]
fn parse(data: &[u8]) -> (parsed: Result<ElfHeaders, goblin::error::Error>)
    ensures
        parsed matches Ok(elf) ==> parsed_elf(data@) == Some(elf@),
        parsed is Err ==> parsed_elf(data@) is None,
{
    let elf = goblin::elf::Elf::parse(data)?;
    let section_headers = elf.section_headers.iter().map(|h| SectionHeader {
        name: elf.shdr_strtab.get_at(h.sh_name).map(String::from),
        flags: h.sh_flags,
        addr: h.sh_addr,
        offset: h.sh_offset,
        size: h.sh_size,
    }).collect();
    Ok(ElfHeaders {
        e_type: elf.header.e_type,
        e_machine: elf.header.e_machine,
        e_entry: elf.header.e_entry,
        little_endian: elf.little_endian,
        section_headers,
    })
}

/// Do some basic validation
pub fn validate(elf: &ElfHeaders) -> (checked: Result<(), DumpError>)
    ensures
        match elf@.fault() {
            Some(fault) => checked == Err::<(), DumpError>(fault),
            None => checked is Ok,
        },
{
    if elf.e_type != ET_EXEC {
        return Err(DumpError::UnexpectedType(elf.e_type));
    }
    if elf.e_machine != EM_MIPS {
        return Err(DumpError::UnexpectedMachine(elf.e_machine));
    }
    if elf.e_entry > u32::MAX as u64 {
        return Err(DumpError::EntryPointOutOfRange(elf.e_entry));
    }
    if elf.little_endian {
        return Err(DumpError::UnexpectedEndianness);
    }
    if elf.section_headers.len() == 0 {
        return Err(DumpError::MissingSectionHeaders);
    }
    Ok(())
}

/// Find the section by name
fn find_section(elf: &ElfHeaders, name: &str) -> (found: Option<usize>)
    ensures
        found matches Some(i) ==> elf@.position(name@) == Some(i as int) && i
            < elf.section_headers@.len(),
        found is None ==> elf@.position(name@) is None,
{
    let mut i: usize = 0;
    while i < elf.section_headers.len()
        invariant
            i <= elf.section_headers@.len(),
            elf@.position(name@) == elf@.position_from(name@, i as int),
        decreases elf.section_headers@.len() - i,
    {
        if elf.section_headers[i].is_named(name) {
            return Some(i);
        }
        i += 1;
    }
    None
}

/// Finds the first section that goes by `name`, and its bytes in the file.
pub fn dump_section<'a>(elf: &'a ElfHeaders, data: &'a [u8], name: &'static str) -> (found:
    Result<
    SectionInfo<'a>,
    DumpError,
>)
    ensures
        match elf@.section(data@, name) {
            Ok(section) => found matches Ok(info) && info.header@ == section && info.binary@
                == section.bytes(data@),
            Err(fault) => found matches Err(e) && e == fault,
        },
{
    // Find the section by name
    let header = match find_section(elf, name) {
        Some(i) => &elf.section_headers[i],
        None => { return Err(DumpError::MissingSection(name)); },
    };

    // Get section data
    let len = data.len() as u64;
    if header.offset > len || header.size > len - header.offset {
        return Err(DumpError::IndexOutOfRange);
    }
    let start = header.offset as usize;
    let end = start + header.size as usize;
    let binary = vstd::slice::slice_subrange(data, start, end);

    Ok(SectionInfo { header, binary })
}

/// A section never shortens the image.
pub proof fn lemma_append_grows(elf: ElfView, data: Seq<u8>, name: &'static str, image: Image)
    ensures
        elf.append(data, name, image).bytes.len() >= image.bytes.len(),
{
}

/// An executable that passes the checks and has `.boot` alone of the five
/// sections gives back the bytes of `.boot` as they stand in the file, and
/// its entry point unchanged.
pub proof fn lemma_boot_alone(elf: ElfView, data: Seq<u8>, boot: SectionView)
    requires
        data.len() <= isize::MAX,
        elf.fault() is None,
        elf.section(data, ".boot") == Ok::<SectionView, DumpError>(boot),
        boot.flags & SHF_EXECINSTR != 0,
        boot.addr == elf.e_entry,
        elf.position(".text"@) is None,
        elf.position(".rodata"@) is None,
        elf.position(".data"@) is None,
        elf.position(".got"@) is None,
    ensures
        elf.extract(data) matches Ok((entry_point, program)) && entry_point == elf.e_entry
            && program == boot.bytes(data),
{
}

/// Adds the section `name` to the program where the file has it, and says
/// whether a vector can hold the result. Where it cannot, nothing is added.
fn append_section(
    elf: &ElfHeaders,
    data: &[u8],
    name: &'static str,
    binary: &mut Vec<u8>,
    end: &mut u128,
) -> (fits: bool)
    requires
        *old(end) <= 0x10_0000_0000_0000_0000,
        old(binary)@.len() <= isize::MAX,
    ensures
        ({
            let next = elf@.append(
                data@,
                name,
                Image { bytes: old(binary)@, end: *old(end) as int },
            );
            &&& fits == (next.bytes.len() <= isize::MAX)
            &&& fits ==> final(binary)@ == next.bytes && *final(end) == next.end
            &&& !fits ==> final(binary)@ == old(binary)@ && *final(end) == *old(end)
            &&& next.end <= *old(end) + 0x2_0000_0000_0000_0000
        }),
{
    let held = binary.len();
    let section = match dump_section(elf, data, name) {
        Ok(section) => section,
        Err(_) => { return true; },
    };

    // Align the buffer to this section
    let addr = section.header.addr as u128;
    let gap: u128 = if *end < addr {
        addr - *end
    } else {
        0
    };
    let len: u128 = held as u128 + gap + section.binary.len() as u128;
    if len > isize::MAX as u128 {
        return false;
    }
    binary.resize(held + gap as usize, 0);

    // Append this section to the buffer
    binary.extend_from_slice(section.binary);
    *end = *end + gap + section.header.size as u128;
    assert(binary@ =~= old(binary)@ + Seq::new(gap as nat, |i: int| 0u8) + section.binary@);
    true
}

/// Extracts the entry point and the program from the headers and the bytes
/// of an executable.
///
/// The program starts with `.boot`, which must hold instructions and start
/// at the entry point. `.text`, `.rodata`, `.data` and `.got` follow in this
/// order, each where the file has it, and zeros fill the way to a section
/// that is loaded further on.
pub fn extract(elf: &ElfHeaders, data: &[u8]) -> (extracted: Result<(u32, Vec<u8>), DumpError>)
    ensures
        match elf@.extract(data@) {
            Ok((entry_point, program)) => extracted matches Ok((e, p)) && e == entry_point && p@
                == program,
            Err(fault) => extracted matches Err(e) && e == fault,
        },
{
    // Do some basic validation
    match validate(elf) {
        Err(fault) => { return Err(fault); },
        Ok(()) => {},
    }

    // Dump .boot section
    let section = match dump_section(elf, data, ".boot") {
        Ok(section) => section,
        Err(fault) => { return Err(fault); },
    };

    // Validate the .boot section
    if section.header.flags & SHF_EXECINSTR == 0 {
        return Err(DumpError::NonExecutableBoot(section.header.flags));
    }
    if section.header.addr != elf.e_entry {
        return Err(DumpError::BootNotAtEntryPoint);
    }
    let ghost boot = Image {
        bytes: section.binary@,
        end: section.header.addr + section.header.size,
    };
    let ghost text = elf@.append(data@, ".text", boot);
    let ghost rodata = elf@.append(data@, ".rodata", text);
    let ghost all_data = elf@.append(data@, ".data", rodata);
    proof {
        lemma_append_grows(elf@, data@, ".text", boot);
        lemma_append_grows(elf@, data@, ".rodata", text);
        lemma_append_grows(elf@, data@, ".data", rodata);
        lemma_append_grows(elf@, data@, ".got", all_data);
    }
    if section.binary.len() > isize::MAX as usize {
        return Err(DumpError::ImageTooLarge);
    }
    let mut binary = vstd::slice::slice_to_vec(section.binary);
    let mut end: u128 = section.header.addr as u128 + section.header.size as u128;

    // Copy data sections
    if !append_section(elf, data, ".text", &mut binary, &mut end) {
        return Err(DumpError::ImageTooLarge);
    }
    if !append_section(elf, data, ".rodata", &mut binary, &mut end) {
        return Err(DumpError::ImageTooLarge);
    }
    if !append_section(elf, data, ".data", &mut binary, &mut end) {
        return Err(DumpError::ImageTooLarge);
    }
    if !append_section(elf, data, ".got", &mut binary, &mut end) {
        return Err(DumpError::ImageTooLarge);
    }
    Ok((elf.e_entry as u32, binary))
}

/// Extracts the entry point and the program from the bytes of an executable.
///
/// Where `goblin` parses the bytes, the result is that of `extract` on the
/// headers it found; where it does not, its error is handed on.
pub fn dump(data: &[u8]) -> (dumped: Result<(u32, Vec<u8>), ElfError>)
    ensures
        match parsed_elf(data@) {
            None => dumped matches Err(e) && e is Goblin,
            Some(elf) => match elf.extract(data@) {
                Ok((entry_point, program)) => dumped matches Ok((e, p)) && e == entry_point && p@
                    == program,
                Err(fault) => dumped matches Err(e) && e matches ElfError::Dump(d) && d == fault,
            },
        },
{
    // Parse it
    let elf = match parse(data) {
        Ok(elf) => elf,
        Err(e) => { return Err(ElfError::Goblin(e)); },
    };
    match extract(&elf, data) {
        Ok(extracted) => Ok(extracted),
        Err(fault) => Err(ElfError::Dump(fault)),
    }
}

} // verus!
