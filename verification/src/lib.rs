//! Builds a bootable Nintendo 64 cartridge image from a linked executable.
//!
//! The crate holds the pure part of the build: classifying the boot code,
//! computing the boot checksums, extracting the program from an ELF
//! executable, encoding the cartridge header and laying out the final image.
//! Reading and writing files is left to the caller.

pub mod cargo;
pub mod cli;
pub mod elf;
pub mod fs;
pub mod header;
pub mod ipl3;
pub mod text;

use vstd::prelude::*;
use vstd::arithmetic::power2::is_pow2;
use vstd::string::StringSliceAdditionalSpecFns;
use crate::cli::ArgParseError;
use crate::cli::BuildArgs;
use crate::elf::DumpError;
use crate::elf::ElfError;
use crate::elf::parsed_elf;
use crate::header::N64Header;
use crate::header::header_bytes;
use crate::header::name_field;
use crate::ipl3::IPL3;
use crate::ipl3::HEADER_SIZE;
use crate::ipl3::IPL_SIZE;
use crate::ipl3::PROGRAM_SIZE;

verus! {

/// The byte that fills the program region and the end of the image.
pub const PAD_BYTE: u8 = 0xFF;

/// The image is a power of two long, or a multiple of this many bytes.
pub const MULTIPLE: usize = 4 * 1024 * 1024;

/// The length of the smallest image: header, boot code and program region.
pub const MIN_ROM_SIZE: usize = HEADER_SIZE + IPL_SIZE + PROGRAM_SIZE;

/// What stops a build.
#[derive(Debug)]
pub enum BuildError {
    /// The executable is not one that the console boots.
    ElfError(ElfError),
    /// Elf program is larger than 1MB
    ProgramTooBigError,
}

/// What stops a run.
#[derive(Debug)]
pub enum RunError {
    /// Argument parsing error
    ArgParseError(ArgParseError),
    /// Build error
    BuildError(BuildError),
}

impl BuildError {
    /// What the error says of itself. What the cause says is left to it.
    pub open spec fn message(&self) -> Seq<char> {
        match self {
            BuildError::ElfError(_) => "Elf parsing error"@,
            BuildError::ProgramTooBigError => "Elf program is larger than 1MB"@,
        }
    }

    /// What the error says of itself.
    pub fn to_string(&self) -> (text: String)
        ensures
            text@ == self.message(),
    {
        match self {
            BuildError::ElfError(_) => "Elf parsing error".to_owned(),
            BuildError::ProgramTooBigError => "Elf program is larger than 1MB".to_owned(),
        }
    }
}

impl RunError {
    /// What the error says of itself. What the cause says is left to it.
    pub open spec fn message(&self) -> Seq<char> {
        match self {
            RunError::ArgParseError(_) => "Argument parsing error"@,
            RunError::BuildError(_) => "Build error"@,
        }
    }

    /// What the error says of itself.
    pub fn to_string(&self) -> (text: String)
        ensures
            text@ == self.message(),
    {
        match self {
            RunError::ArgParseError(_) => "Argument parsing error".to_owned(),
            RunError::BuildError(_) => "Build error".to_owned(),
        }
    }
}

/// `count` pad bytes; none where `count` is not positive.
pub open spec fn padding(count: int) -> Seq<u8> {
    Seq::new(
        if count > 0 {
            count as nat
        } else {
            0
        },
        |i: int| PAD_BYTE,
    )
}

/// The first of `p`, `2 * p`, `4 * p`, ... that is not below `s`.
pub open spec fn doubled_up_to(p: int, s: int) -> int
    decreases
            (if p < s {
                s - p
            } else {
                0
            }),
{
    if p <= 0 || p >= s {
        p
    } else {
        doubled_up_to(2 * p, s)
    }
}

/// The smallest power of two that is not below `s`.
pub open spec fn next_power_of_two(s: int) -> int {
    doubled_up_to(1, s)
}

/// Whether `n` is a multiple of `m`.
pub open spec fn is_multiple_of(n: int, m: int) -> bool {
    n % m == 0
}

/// The smallest multiple of `m` that is not below `s`.
pub open spec fn next_multiple_of(s: int, m: int) -> int {
    (s + m - 1) / m * m
}

/// Whether an image may end after `n` bytes: `n` is a power of two or a
/// multiple of `MULTIPLE`.
pub open spec fn is_rom_end(n: int) -> bool {
    is_pow2(n) || is_multiple_of(n, MULTIPLE as int)
}

/// The length of the image that holds `len` bytes before the final padding:
/// at least `MIN_ROM_SIZE` bytes are counted, and the image ends at the next
/// power of two or the next multiple of `MULTIPLE`, whichever comes first.
pub open spec fn rom_size(len: int) -> int {
    let size = if len < MIN_ROM_SIZE {
        MIN_ROM_SIZE as int
    } else {
        len
    };
    let by_power_of_2 = next_power_of_two(size);
    let by_multiple = next_multiple_of(size, MULTIPLE as int);
    if by_power_of_2 < by_multiple {
        by_power_of_2
    } else {
        by_multiple
    }
}

/// A program as the image holds it: filled up to `PROGRAM_SIZE` with pad
/// bytes, and unchanged where it is that long or longer.
pub open spec fn padded_program(program: Seq<u8>) -> Seq<u8> {
    program + padding(PROGRAM_SIZE - program.len())
}

/// An image after the final padding.
pub open spec fn padded_rom(rom: Seq<u8>) -> Seq<u8> {
    rom + padding(rom_size(rom.len() as int) - rom.len())
}

/// Pads the program to its minimum required size for CRC calculation
pub fn pad_program(program: &mut Vec<u8>)
    ensures
        final(program)@ == padded_program(old(program)@),
{
    let len = if program.len() < PROGRAM_SIZE {
        PROGRAM_SIZE
    } else {
        program.len()
    };
    program.resize(len, PAD_BYTE);
    assert(program@ =~= padded_program(old(program)@));
}

/// Pads the ROM to a power of 2, or a multiple of 4 MiB. Whichever is smallest.
///
/// The padded image must be one that a vector can hold: at most
/// `isize::MAX` bytes.
pub fn pad_rom(rom: &mut Vec<u8>)
    requires
        rom_size(old(rom)@.len() as int) <= isize::MAX,
    ensures
        final(rom)@ == padded_rom(old(rom)@),
        final(rom)@.len() == rom_size(old(rom)@.len() as int),
        final(rom)@.len() >= MIN_ROM_SIZE,
        final(rom)@.len() >= old(rom)@.len(),
        final(rom)@.subrange(0, old(rom)@.len() as int) == old(rom)@,
        forall|i: int| old(rom)@.len() <= i < final(rom)@.len() ==> final(rom)@[i] == PAD_BYTE,
        is_rom_end(final(rom)@.len() as int),
        forall|n: int|
            #![trigger is_rom_end(n)]
            n >= MIN_ROM_SIZE && n >= old(rom)@.len() && is_rom_end(n) ==> final(rom)@.len() <= n,
        old(rom)@.len() >= MIN_ROM_SIZE && is_rom_end(old(rom)@.len() as int) ==> final(rom)@
            == old(rom)@,
{
    let size: u128 = if rom.len() < MIN_ROM_SIZE {
        MIN_ROM_SIZE as u128
    } else {
        rom.len() as u128
    };
    proof {
        lemma_rom_size(old(rom)@.len());
    }
    let mut by_power_of_2: u128 = 1;
    while by_power_of_2 < size
        invariant
            1 <= by_power_of_2 < 2 * size,
            size <= isize::MAX,
            doubled_up_to(by_power_of_2 as int, size as int) == next_power_of_two(size as int),
        decreases 2 * size - by_power_of_2,
    {
        by_power_of_2 = 2 * by_power_of_2;
    }
    let multiples: u128 = (size + (MULTIPLE as u128 - 1)) / (MULTIPLE as u128);
    assert(multiples * MULTIPLE <= u128::MAX) by (nonlinear_arith)
        requires
            multiples <= size + (MULTIPLE - 1),
            size <= isize::MAX <= u64::MAX,
            MULTIPLE == 0x40_0000,
    ;
    let by_multiple: u128 = multiples * (MULTIPLE as u128);
    let len: u128 = if by_power_of_2 < by_multiple {
        by_power_of_2
    } else {
        by_multiple
    };
    rom.resize(len as usize, PAD_BYTE);
    assert(rom@ =~= padded_rom(old(rom)@));
    assert(rom@.subrange(0, old(rom)@.len() as int) =~= old(rom)@);
    proof {
        if old(rom)@.len() >= MIN_ROM_SIZE && is_rom_end(old(rom)@.len() as int) {
            assert(rom@ =~= old(rom)@);
        }
    }
}

/// The bytes of a file system that may be left out.
pub open spec fn fs_bytes(fs: Option<Vec<u8>>) -> Seq<u8> {
    match fs {
        Some(volume) => volume@,
        None => Seq::empty(),
    }
}

/// The image of a cartridge: the header, the boot code, the program filled
/// up to `PROGRAM_SIZE`, the file system, and pad bytes up to the length that
/// `rom_size` gives. The header holds the entry point with the offset of the
/// boot code added, the name cut or filled to its field, and the checksums
/// of the program and the file system as the image holds them.
pub open spec fn rom_image(
    name: Seq<u8>,
    ipl3: IPL3,
    entry_point: u32,
    program: Seq<u8>,
    fs: Seq<u8>,
) -> Seq<u8> {
    let program = padded_program(program);
    let crcs = ipl3.checksums(program, fs);
    padded_rom(
        header_bytes(
            (entry_point + ipl3.entry_offset()) as u32,
            crcs.0,
            crcs.1,
            name_field(name),
        ) + ipl3.bytes() + program + fs,
    )
}

/// Creates a ROM image, generating the header and IPL3 from `name` and
/// `ipl3`. An optional file system (FAT image) is appended to the ROM image
/// if provided.
///
/// The entry point with its offset must fit in 32 bits, the name must be
/// ASCII, the padded program and the file system must be whole numbers of
/// words, and the image must be one that a vector can hold: at most
/// `isize::MAX` bytes.
pub fn create_rom_image(
    name: &str,
    ipl3: &IPL3,
    entry_point: u32,
    mut program: Vec<u8>,
    fs: Option<Vec<u8>>,
) -> (rom: Vec<u8>)
    requires
        entry_point + ipl3.entry_offset() <= u32::MAX,
        name.is_ascii(),
        padded_program(program@).len() % 4 == 0,
        fs_bytes(fs).len() % 4 == 0,
        rom_size(HEADER_SIZE + IPL_SIZE + padded_program(program@).len() + fs_bytes(fs).len())
            <= isize::MAX,
    ensures
        rom@ == rom_image(name.spec_bytes(), *ipl3, entry_point, program@, fs_bytes(fs)),
{
    let fs = match fs {
        Some(volume) => volume,
        None => Vec::new(),
    };

    pad_program(&mut program);

    let header = N64Header::new(entry_point, name, program.as_slice(), fs.as_slice(), ipl3).to_vec();
    let mut rom: Vec<u8> = Vec::new();
    rom.extend_from_slice(header.as_slice());
    rom.extend_from_slice(ipl3.get_ipl().as_slice());
    rom.extend_from_slice(program.as_slice());
    rom.extend_from_slice(fs.as_slice());
    assert(rom@ =~= header@ + ipl3.bytes() + program@ + fs@);

    pad_rom(&mut rom);
    rom
}

/// Whether `built` is what the assembly of a program gives.
///
/// A program longer than `PROGRAM_SIZE` is refused before anything else. An
/// entry point that leaves 32 bits with the offset of the boot code added is
/// refused as one that is out of range. Anything else gives the image.
pub open spec fn is_assembly(
    built: Result<Vec<u8>, BuildError>,
    name: Seq<u8>,
    ipl3: IPL3,
    entry_point: u32,
    program: Seq<u8>,
    fs: Seq<u8>,
) -> bool {
    if program.len() > PROGRAM_SIZE {
        built matches Err(BuildError::ProgramTooBigError)
    } else if entry_point + ipl3.entry_offset() > u32::MAX {
        built matches Err(BuildError::ElfError(ElfError::Dump(fault))) && fault
            == DumpError::EntryPointOutOfRange(entry_point as u64)
    } else {
        built matches Ok(rom) && rom@ == rom_image(name, ipl3, entry_point, program, fs)
    }
}

/// Whether `built` is what the build of an executable gives: the error of
/// `goblin` where it cannot parse the bytes, the check that the executable
/// fails where it fails one, and else the assembly of its program.
pub open spec fn is_build(
    built: Result<Vec<u8>, BuildError>,
    name: Seq<u8>,
    ipl3: IPL3,
    executable: Seq<u8>,
    fs: Seq<u8>,
) -> bool {
    match parsed_elf(executable) {
        None => built matches Err(BuildError::ElfError(e)) && e is Goblin,
        Some(elf) => match elf.extract(executable) {
            Err(fault) => built matches Err(BuildError::ElfError(ElfError::Dump(e))) && e == fault,
            Ok((entry_point, program)) => is_assembly(built, name, ipl3, entry_point, program, fs),
        },
    }
}

/// Tests that a program fits the region that the boot code loads and
/// checks: it may hold `PROGRAM_SIZE` bytes and no more.
pub fn check_program(program: &[u8]) -> (checked: Result<(), BuildError>)
    ensures
        checked is Ok <==> program@.len() <= PROGRAM_SIZE,
        checked matches Err(e) ==> e is ProgramTooBigError,
{
    // The boot code loads 1 MiB and no more:
    // see https://github.com/rust-console/cargo-n64/issues/40
    if program.len() > PROGRAM_SIZE {
        return Err(BuildError::ProgramTooBigError);
    }
    Ok(())
}

/// Puts the image together from a program that has been extracted.
///
/// A program that is too long is refused whatever else is handed over. Of a
/// program that fits, the name must be ASCII, the file system must be a
/// whole number of words, and the image must be one that a vector can hold:
/// at most `isize::MAX` bytes.
pub fn assemble(
    name: &str,
    ipl3: &IPL3,
    entry_point: u32,
    program: Vec<u8>,
    fs: Option<Vec<u8>>,
) -> (built: Result<Vec<u8>, BuildError>)
    requires
        program@.len() <= PROGRAM_SIZE ==> name.is_ascii(),
        program@.len() <= PROGRAM_SIZE ==> fs_bytes(fs).len() % 4 == 0,
        program@.len() <= PROGRAM_SIZE ==> rom_size(MIN_ROM_SIZE + fs_bytes(fs).len())
            <= isize::MAX,
    ensures
        is_assembly(built, name.spec_bytes(), *ipl3, entry_point, program@, fs_bytes(fs)),
{
    match check_program(program.as_slice()) {
        Ok(()) => {},
        Err(e) => { return Err(e); },
    }
    if entry_point > u32::MAX - ipl3.entry_offset() {
        return Err(
            BuildError::ElfError(
                ElfError::Dump(DumpError::EntryPointOutOfRange(entry_point as u64)),
            ),
        );
    }
    Ok(create_rom_image(name, ipl3, entry_point, program, fs))
}

/// Transforms the ELF to a ROM image: extracts the program from the bytes of
/// the executable, and puts the image together.
///
/// The name must be ASCII, the file system must be a whole number of words,
/// and the image must be one that a vector can hold: at most
/// `isize::MAX` bytes.
pub fn build(name: &str, ipl3: &IPL3, executable: &[u8], fs: Option<Vec<u8>>) -> (built: Result<
    Vec<u8>,
    BuildError,
>)
    requires
        name.is_ascii(),
        fs_bytes(fs).len() % 4 == 0,
        rom_size(MIN_ROM_SIZE + fs_bytes(fs).len()) <= isize::MAX,
    ensures
        is_build(built, name.spec_bytes(), *ipl3, executable@, fs_bytes(fs)),
{
    let (entry_point, program) = match elf::dump(executable) {
        Ok(dumped) => dumped,
        Err(e) => { return Err(BuildError::ElfError(e)); },
    };
    assemble(name, ipl3, entry_point, program, fs)
}

/// Whether `ran` is what a run gives: what is wrong with the options that
/// name the boot code, or else the build with the boot code that they name.
pub open spec fn is_run(
    ran: Result<Vec<u8>, RunError>,
    args: BuildArgs,
    name: Seq<u8>,
    executable: Seq<u8>,
    fs: Seq<u8>,
) -> bool {
    match args.chosen_ipl3() {
        Err(fault) => ran matches Err(RunError::ArgParseError(e)) && e == fault,
        Ok(ipl3) => match ran {
            Ok(rom) => is_build(Ok(rom), name, ipl3, executable, fs),
            Err(RunError::BuildError(e)) => is_build(Err(e), name, ipl3, executable, fs),
            Err(RunError::ArgParseError(_)) => false,
        },
    }
}

/// This is the entrypoint. It checks the options of the build and
/// transforms the ELF to a ROM image.
///
/// `artifact` is the name of the artifact that was compiled, which names the
/// program where no name was given, `executable` the bytes of the artifact,
/// and `fs` the volume to append, if any.
///
/// The name of the program must be ASCII, the file system must be a whole
/// number of words, and the image must be one that a vector can hold: at most
/// `isize::MAX` bytes.
pub fn run(args: &BuildArgs, artifact: &str, executable: &[u8], fs: Option<Vec<u8>>) -> (ran:
    Result<Vec<u8>, RunError>)
    requires
        vstd::utf8::is_ascii_chars(args.program_name(artifact)),
        fs_bytes(fs).len() % 4 == 0,
        rom_size(MIN_ROM_SIZE + fs_bytes(fs).len()) <= isize::MAX,
    ensures
        is_run(
            ran,
            *args,
            vstd::utf8::encode_utf8(args.program_name(artifact)),
            executable@,
            fs_bytes(fs),
        ),
{
    let ipl3 = match args.boot_code() {
        Ok(ipl3) => ipl3,
        Err(e) => { return Err(RunError::ArgParseError(e)); },
    };

    match build(args.name_or(artifact), ipl3, executable, fs) {
        Ok(rom) => Ok(rom),
        Err(e) => Err(RunError::BuildError(e)),
    }
}

/// The image holds its parts one behind the other: the header in the first
/// `HEADER_SIZE` bytes, the boot code, the program filled up to
/// `PROGRAM_SIZE`, the file system, and nothing but pad bytes from there to
/// its end.
pub proof fn lemma_image_layout(
    name: Seq<u8>,
    ipl3: IPL3,
    entry_point: u32,
    program: Seq<u8>,
    fs: Seq<u8>,
)
    ensures
        ({
            let rom = rom_image(name, ipl3, entry_point, program, fs);
            let padded = padded_program(program);
            let crcs = ipl3.checksums(padded, fs);
            let boot_code = HEADER_SIZE as int;
            let program_at = HEADER_SIZE + IPL_SIZE;
            let fs_at = program_at + padded.len();
            let end = fs_at + fs.len();
            &&& rom.len() == rom_size(end)
            &&& end <= rom.len()
            &&& rom.subrange(0, boot_code) == header_bytes(
                (entry_point + ipl3.entry_offset()) as u32,
                crcs.0,
                crcs.1,
                name_field(name),
            )
            &&& rom.subrange(boot_code, program_at) == ipl3.bytes()
            &&& rom.subrange(program_at, fs_at) == padded
            &&& rom.subrange(fs_at, end) == fs
            &&& forall|i: int| end <= i < rom.len() ==> rom[i] == PAD_BYTE
        }),
{
    let padded = padded_program(program);
    let crcs = ipl3.checksums(padded, fs);
    let header = header_bytes(
        (entry_point + ipl3.entry_offset()) as u32,
        crcs.0,
        crcs.1,
        name_field(name),
    );
    let body = header + ipl3.bytes() + padded + fs;
    let rom = padded_rom(body);
    lemma_rom_size(body.len());
    assert(ipl3.bytes().len() == IPL_SIZE);
    assert(header.len() == HEADER_SIZE);
    let program_at = HEADER_SIZE + IPL_SIZE;
    let fs_at = program_at + padded.len();
    assert(rom.subrange(0, HEADER_SIZE as int) =~= header);
    assert(rom.subrange(HEADER_SIZE as int, program_at) =~= ipl3.bytes());
    assert(rom.subrange(program_at, fs_at) =~= padded);
    assert(rom.subrange(fs_at, fs_at + fs.len()) =~= fs);
}

/// The image starts with the header, and the boot code follows it: the
/// checksums stand at bytes 16 to 23, and they are the checksums of what the
/// image itself holds behind the boot code, padding included.
pub proof fn lemma_image_checksums(
    name: Seq<u8>,
    ipl3: IPL3,
    entry_point: u32,
    program: Seq<u8>,
    fs: Seq<u8>,
)
    ensures
        ({
            let rom = rom_image(name, ipl3, entry_point, program, fs);
            let held = rom.subrange(HEADER_SIZE + IPL_SIZE, rom.len() as int);
            let crcs = ipl3.checksums(held, Seq::empty());
            &&& rom.len() >= MIN_ROM_SIZE
            &&& rom.subrange(HEADER_SIZE as int, HEADER_SIZE + IPL_SIZE) == ipl3.bytes()
            &&& rom.subrange(0x10, 0x14) == crate::header::be_bytes(crcs.0)
            &&& rom.subrange(0x14, 0x18) == crate::header::be_bytes(crcs.1)
        }),
{
    let padded = padded_program(program);
    let crcs = ipl3.checksums(padded, fs);
    let header = header_bytes(
        (entry_point + ipl3.entry_offset()) as u32,
        crcs.0,
        crcs.1,
        name_field(name),
    );
    let body = header + ipl3.bytes() + padded + fs;
    let rom = padded_rom(body);
    let held = rom.subrange(HEADER_SIZE + IPL_SIZE, rom.len() as int);
    lemma_rom_size(body.len());
    assert(ipl3.bytes().len() == IPL_SIZE);
    assert(header.len() == HEADER_SIZE);
    assert(padded.len() >= PROGRAM_SIZE);
    assert forall|i: int| 0 <= i < 4 * ((PROGRAM_SIZE / 4) as nat) implies crate::ipl3::stream_byte(
        padded,
        fs,
        i,
    ) == crate::ipl3::stream_byte(held, Seq::empty(), i) by {
        assert(held[i] == rom[HEADER_SIZE + IPL_SIZE + i]);
    }
    crate::ipl3::lemma_accumulate_reads(
        ipl3,
        padded,
        fs,
        held,
        Seq::empty(),
        (PROGRAM_SIZE / 4) as nat,
    );
    assert(rom.subrange(HEADER_SIZE as int, HEADER_SIZE + IPL_SIZE) =~= ipl3.bytes());
    assert(rom.subrange(0x10, 0x14) =~= crate::header::be_bytes(crcs.0));
    assert(rom.subrange(0x14, 0x18) =~= crate::header::be_bytes(crcs.1));
}

/// A program of more than `PROGRAM_SIZE` bytes stops the assembly with
/// `ProgramTooBigError`, whatever the name, the boot code, the entry point
/// and the file system are: no image is made of it.
pub proof fn lemma_program_too_big(
    built: Result<Vec<u8>, BuildError>,
    name: Seq<u8>,
    ipl3: IPL3,
    entry_point: u32,
    program: Seq<u8>,
    fs: Seq<u8>,
)
    requires
        is_assembly(built, name, ipl3, entry_point, program, fs),
        program.len() > PROGRAM_SIZE,
    ensures
        built matches Err(BuildError::ProgramTooBigError),
{
}

/// Two builds from the same name, boot code, executable and file system
/// give the same outcome: both fail, or both give the same image byte for
/// byte.
pub proof fn lemma_build_deterministic(
    first: Result<Vec<u8>, BuildError>,
    second: Result<Vec<u8>, BuildError>,
    name: Seq<u8>,
    ipl3: IPL3,
    executable: Seq<u8>,
    fs: Seq<u8>,
)
    requires
        is_build(first, name, ipl3, executable, fs),
        is_build(second, name, ipl3, executable, fs),
    ensures
        first is Ok <==> second is Ok,
        first matches Ok(rom) ==> second matches Ok(other) && rom@ == other@,
{
}

/// Two runs from the same options, name, executable and file system give
/// the same outcome: both fail, or both give the same image byte for byte.
pub proof fn lemma_run_deterministic(
    first: Result<Vec<u8>, RunError>,
    second: Result<Vec<u8>, RunError>,
    args: BuildArgs,
    name: Seq<u8>,
    executable: Seq<u8>,
    fs: Seq<u8>,
)
    requires
        is_run(first, args, name, executable, fs),
        is_run(second, args, name, executable, fs),
    ensures
        first is Ok <==> second is Ok,
        first matches Ok(rom) ==> second matches Ok(other) && rom@ == other@,
{
}

/// The next multiple of a positive `m` is a multiple of `m`, is not below
/// `s`, and is the smallest such number.
pub proof fn lemma_next_multiple_of(s: int, m: int)
    requires
        m > 0,
    ensures
        is_multiple_of(next_multiple_of(s, m), m),
        s <= next_multiple_of(s, m) < s + m,
        forall|n: int| #[trigger] is_multiple_of(n, m) && s <= n ==> next_multiple_of(s, m) <= n,
{
    let q = (s + m - 1) / m;
    assert(q * m % m == 0 && s <= q * m < s + m) by (nonlinear_arith)
        requires
            m > 0,
            q == (s + m - 1) / m,
    ;
    assert forall|n: int| #[trigger] is_multiple_of(n, m) && s <= n implies q * m <= n by {
        assert(q * m <= n) by (nonlinear_arith)
            requires
                m > 0,
                n % m == 0,
                q * m < n + m,
                q * m % m == 0,
        ;
    }
}

/// Of two powers of two, the greater is at least twice the smaller.
pub proof fn lemma_pow2_gap(a: int, b: int)
    requires
        is_pow2(a),
        is_pow2(b),
        a < b,
    ensures
        2 * a <= b,
    decreases a,
{
    reveal(is_pow2);
    if a > 1 {
        lemma_pow2_gap(a / 2, b / 2);
    }
}

/// Doubling a power of two until it reaches `s` gives the smallest power of
/// two that is neither below `s` nor below the start.
pub proof fn lemma_doubled_up_to(p: int, s: int)
    requires
        is_pow2(p),
    ensures
        is_pow2(doubled_up_to(p, s)),
        doubled_up_to(p, s) >= s,
        doubled_up_to(p, s) >= p,
        forall|q: int| is_pow2(q) && q >= s && q >= p ==> doubled_up_to(p, s) <= q,
    decreases
            (if p < s {
                s - p
            } else {
                0
            }),
{
    reveal(is_pow2);
    if p < s {
        assert(is_pow2(2 * p));
        lemma_doubled_up_to(2 * p, s);
        assert forall|q: int| is_pow2(q) && q >= s && q >= p implies doubled_up_to(p, s) <= q by {
            lemma_pow2_gap(p, q);
        }
    }
}

/// The next power of two is a power of two, is not below `s`, and is the
/// smallest such number.
pub proof fn lemma_next_power_of_two(s: int)
    ensures
        is_pow2(next_power_of_two(s)),
        s <= next_power_of_two(s),
        forall|q: int| is_pow2(q) && s <= q ==> next_power_of_two(s) <= q,
{
    reveal(is_pow2);
    assert(is_pow2(1));
    lemma_doubled_up_to(1, s);
    assert forall|q: int| is_pow2(q) && s <= q implies next_power_of_two(s) <= q by {
        assert(q >= 1);
    }
}

/// The length of a padded image: the smaller of the next power of two and
/// the next multiple of `MULTIPLE`, counted from `len` or from `MIN_ROM_SIZE`
/// where `len` is below it. So the image is never shorter than
/// `MIN_ROM_SIZE` nor than `len`, it ends on one of the two bounds and on
/// the first of them that is long enough, and an image that is long enough
/// and ends on one of them already keeps its length.
pub proof fn lemma_rom_size(len: nat)
    ensures
        rom_size(len as int) >= MIN_ROM_SIZE,
        rom_size(len as int) >= len,
        rom_size(len as int) < len + MULTIPLE || rom_size(len as int) < MIN_ROM_SIZE + MULTIPLE,
        is_rom_end(rom_size(len as int)),
        forall|n: int|
            n >= MIN_ROM_SIZE && n >= len && #[trigger] is_rom_end(n) ==> rom_size(len as int)
                <= n,
        len >= MIN_ROM_SIZE ==> rom_size(len as int) == if next_power_of_two(len as int)
            < next_multiple_of(len as int, MULTIPLE as int) {
            next_power_of_two(len as int)
        } else {
            next_multiple_of(len as int, MULTIPLE as int)
        },
        len >= MIN_ROM_SIZE && is_rom_end(len as int) ==> rom_size(len as int) == len,
{
    let size = if len < MIN_ROM_SIZE {
        MIN_ROM_SIZE as int
    } else {
        len as int
    };
    lemma_next_power_of_two(size);
    lemma_next_multiple_of(size, MULTIPLE as int);
    assert forall|n: int|
        n >= MIN_ROM_SIZE && n >= len && #[trigger] is_rom_end(n) implies rom_size(len as int)
        <= n by {
        if is_pow2(n) {
            assert(next_power_of_two(size) <= n);
        } else {
            assert(is_multiple_of(n, MULTIPLE as int));
            assert(next_multiple_of(size, MULTIPLE as int) <= n);
        }
    }
}

/// An image that has been padded is left as it is when it is padded again.
pub proof fn lemma_padded_rom_again(rom: Seq<u8>)
    ensures
        padded_rom(padded_rom(rom)) == padded_rom(rom),
{
    lemma_rom_size(rom.len());
    lemma_rom_size(rom_size(rom.len() as int) as nat);
    assert(padded_rom(padded_rom(rom)) =~= padded_rom(rom));
}

/// Whatever is no longer than 2 MiB gives an image of 2 MiB: the smallest
/// image is longer than 1 MiB, the next power of two is 2 MiB, and the
/// first multiple of `MULTIPLE` lies beyond it.
pub proof fn lemma_smallest_rom(len: nat)
    requires
        len <= 0x20_0000,
    ensures
        rom_size(len as int) == 0x20_0000,
{
    let size = if len < MIN_ROM_SIZE {
        MIN_ROM_SIZE as int
    } else {
        len as int
    };
    assert(MIN_ROM_SIZE == 0x10_1000);
    assert(MULTIPLE == 0x40_0000);
    assert(next_power_of_two(size) == 0x20_0000) by {
        reveal_with_fuel(doubled_up_to, 23);
    }
    lemma_next_multiple_of(size, MULTIPLE as int);
    assert(next_multiple_of(size, MULTIPLE as int) % 0x40_0000 == 0);
}

} // verus!
