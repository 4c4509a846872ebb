//! The boot code (IPL3): its variants, its checksums and its entry point offset.

use vstd::prelude::*;
use vstd::string::StringExecFns;
use crate::text::decimal;
use crate::text::to_decimal;
use vstd::wrapping::u32_specs::wrapping_add;
use vstd::wrapping::u32_specs::wrapping_mul;

verus! {

/// Size in bytes of the cartridge header, which the boot code follows.
pub const HEADER_SIZE: usize = 0x40;

/// Size in bytes of the boot code stored in a cartridge.
pub const IPL_SIZE: usize = 0x0fc0;

/// Size in bytes of the program region that the boot code checks.
pub const PROGRAM_SIZE: usize = 1024 * 1024;

/// Index of the first word of the table that the 6105 boot code mixes into
/// its second checksum.
pub const TABLE_START: usize = 452;

/// Number of words in that table.
pub const TABLE_WORDS: usize = 64;

/// What goes wrong while the boot code is loaded.
#[derive(Debug)]
pub enum IPL3Error {
    /// The file could not be read.
    IOError(std::io::Error),
    /// The file does not hold a whole boot code; the text says what was found.
    IPL3ReadError(String),
}

impl IPL3Error {
    /// What the error says of itself.
    pub open spec fn message(&self) -> Seq<char> {
        match self {
            IPL3Error::IOError(_) => "IO Error"@,
            IPL3Error::IPL3ReadError(said) => "Unable to read IPL3: "@ + said@,
        }
    }

    /// What the error says of itself.
    pub fn to_string(&self) -> (text: String)
        ensures
            text@ == self.message(),
    {
        match self {
            IPL3Error::IOError(_) => "IO Error".to_owned(),
            IPL3Error::IPL3ReadError(said) => {
                let mut text = "Unable to read IPL3: ".to_owned();
                text.append(said.as_str());
                text
            },
        }
    }
}

/// `std::io::Error`: carried through, never looked into.
#[verifier::external_type_specification]
#[verifier::external_body]
pub struct ExIoError(std::io::Error);

/// The CRC-32 (IEEE 802.3) of a byte sequence.
pub uninterp spec fn crc32(bytes: Seq<u8>) -> u32;

/// `crc32fast::hash`: the CRC-32 of the whole slice. The sum depends on the
/// bytes alone, so it is given the name `crc32`; nothing else is claimed of it.
pub assume_specification[ crc32fast::hash ](buf: &[u8]) -> (sum: u32)
    ensures
        sum == crc32(buf@),
;

/// The boot code of a cartridge, tagged with the lockout chip it belongs to.
pub enum IPL3 {
    Cic6101([u8; IPL_SIZE]),
    Cic6102([u8; IPL_SIZE]),
    Cic6103([u8; IPL_SIZE]),
    Cic6105([u8; IPL_SIZE]),
    Cic6106([u8; IPL_SIZE]),
    Cic7102([u8; IPL_SIZE]),
    Unknown([u8; IPL_SIZE]),
}

/// The six running values of the boot checksum.
#[derive(Clone, Copy, Debug, PartialEq, Eq, Structural)]
pub struct Accumulators {
    pub acc1: u32,
    pub acc2: u32,
    pub acc3: u32,
    pub acc4: u32,
    pub acc5: u32,
    pub acc6: u32,
}

/// The big-endian word made of four bytes, most significant first.
pub open spec fn be_word(b0: u8, b1: u8, b2: u8, b3: u8) -> u32 {
    (b0 * 0x100_0000 + b1 * 0x1_0000 + b2 * 0x100 + b3) as u32
}

/// Byte `i` of the stream that the boot code checks: the program, then the
/// file system, then zeros without end.
pub open spec fn stream_byte(program: Seq<u8>, fs: Seq<u8>, i: int) -> u8 {
    if i < program.len() {
        program[i]
    } else if i < program.len() + fs.len() {
        fs[i - program.len()]
    } else {
        0
    }
}

/// Word `k` of that stream.
pub open spec fn stream_word(program: Seq<u8>, fs: Seq<u8>, k: int) -> u32 {
    be_word(
        stream_byte(program, fs, 4 * k),
        stream_byte(program, fs, 4 * k + 1),
        stream_byte(program, fs, 4 * k + 2),
        stream_byte(program, fs, 4 * k + 3),
    )
}

/// Word `k` of a byte sequence that holds at least `k + 1` words.
pub open spec fn word_of(bytes: Seq<u8>, k: int) -> u32 {
    be_word(bytes[4 * k], bytes[4 * k + 1], bytes[4 * k + 2], bytes[4 * k + 3])
}

/// The table word that the 6105 boot code pairs with word `k` of the stream:
/// the table is walked in order and starts over after its last word.
pub open spec fn table_word(ipl: Seq<u8>, k: int) -> u32 {
    word_of(ipl, TABLE_START as int + k % (TABLE_WORDS as int))
}

/// `x` rotated left by `n` bits, `n` below 32.
pub open spec fn rotate_left(x: u32, n: u32) -> u32 {
    if n == 0 {
        x
    } else {
        (x << n) | (x >> ((32 - n) as u32))
    }
}

/// Puts four bytes together into a big-endian word.
pub fn read_be_u32(b0: u8, b1: u8, b2: u8, b3: u8) -> (word: u32)
    ensures
        word == be_word(b0, b1, b2, b3),
{
    let high: u32 = b0 as u32 * 0x100_0000 + b1 as u32 * 0x1_0000;
    high + b2 as u32 * 0x100 + b3 as u32
}

/// Reads byte `i` of the checked stream.
fn read_stream_byte(program: &[u8], fs: &[u8], i: usize) -> (byte: u8)
    ensures
        byte == stream_byte(program@, fs@, i as int),
{
    if i < program.len() {
        program[i]
    } else if i - program.len() < fs.len() {
        fs[i - program.len()]
    } else {
        0
    }
}

/// Reads word `k` of the checked stream.
fn read_stream_word(program: &[u8], fs: &[u8], k: usize) -> (word: u32)
    requires
        k < PROGRAM_SIZE / 4,
    ensures
        word == stream_word(program@, fs@, k as int),
{
    let at: usize = 4 * k;
    read_be_u32(
        read_stream_byte(program, fs, at),
        read_stream_byte(program, fs, at + 1),
        read_stream_byte(program, fs, at + 2),
        read_stream_byte(program, fs, at + 3),
    )
}

/// Reads the table word paired with word `k` of the stream.
fn read_table_word(ipl: &[u8; IPL_SIZE], k: usize) -> (word: u32)
    ensures
        word == table_word(ipl@, k as int),
{
    let at: usize = 4 * (TABLE_START + k % TABLE_WORDS);
    read_be_u32(ipl[at], ipl[at + 1], ipl[at + 2], ipl[at + 3])
}

/// What is said of a boot code file of `found` bytes, where that is the
/// wrong size.
pub open spec fn size_message(found: nat) -> Seq<char> {
    "Expected file size "@ + decimal(IPL_SIZE as nat) + ", found "@ + decimal(found)
}

/// What is said of the cartridge image at `path`, where it is too short to
/// hold boot code.
pub open spec fn rom_message(path: Seq<char>) -> Seq<char> {
    "Couldn't read all "@ + decimal(IPL_SIZE as nat) + " IPL3 bytes from ROM \""@ + path
        + "\"."@
}

/// Copies the `IPL_SIZE` bytes that start at `from` into an array.
fn copy_ipl(bytes: &[u8], from: usize) -> (ipl: [u8; IPL_SIZE])
    requires
        from + IPL_SIZE <= bytes@.len(),
    ensures
        ipl@ == bytes@.subrange(from as int, from + IPL_SIZE),
{
    let mut ipl = [0u8; IPL_SIZE];
    let len = bytes.len();
    let mut i: usize = 0;
    while i < IPL_SIZE
        invariant
            i <= IPL_SIZE,
            len == bytes@.len(),
            from + IPL_SIZE <= len,
            forall|j: int| 0 <= j < i ==> ipl@[j] == bytes@[from + j],
        decreases IPL_SIZE - i,
    {
        ipl[i] = bytes[from + i];
        i += 1;
    }
    assert(ipl@ =~= bytes@.subrange(from as int, from + IPL_SIZE));
    ipl
}

impl Accumulators {
    /// All six values set to the seed.
    pub open spec fn seeded(seed: u32) -> Accumulators {
        Accumulators { acc1: seed, acc2: seed, acc3: seed, acc4: seed, acc5: seed, acc6: seed }
    }

    /// The values after one more word. `table` is the table word paired with
    /// `current`; only the 6105 boot code (`with_table`) reads it.
    pub open spec fn step(self, with_table: bool, current: u32, table: u32) -> Accumulators {
        let rotated = rotate_left(current, current & 0x1f);
        let acc1 = wrapping_add(self.acc1, current);
        let acc4 = wrapping_add(self.acc4, rotated);
        Accumulators {
            acc1,
            acc2: if acc1 < current {
                wrapping_add(self.acc2, 1)
            } else {
                self.acc2
            },
            acc3: self.acc3 ^ current,
            acc4,
            acc5: if self.acc5 > current {
                self.acc5 ^ rotated
            } else {
                self.acc5 ^ (acc1 ^ current)
            },
            acc6: if with_table {
                wrapping_add(self.acc6, current ^ table)
            } else {
                wrapping_add(self.acc6, current ^ acc4)
            },
        }
    }

    /// One step of the checksum.
    pub fn advance(self, with_table: bool, current: u32, table: u32) -> (next: Accumulators)
        ensures
            next == self.step(with_table, current, table),
    {
        let count: u32 = current & 0x1f;
        assert(count < 32) by (bit_vector)
            requires
                count == current & 0x1f,
        ;
        let rotated: u32 = if count == 0 {
            current
        } else {
            (current << count) | (current >> (32 - count))
        };
        let acc1: u32 = self.acc1.wrapping_add(current);
        let acc4: u32 = self.acc4.wrapping_add(rotated);
        Accumulators {
            acc1,
            acc2: if acc1 < current {
                self.acc2.wrapping_add(1)
            } else {
                self.acc2
            },
            acc3: self.acc3 ^ current,
            acc4,
            acc5: if self.acc5 > current {
                self.acc5 ^ rotated
            } else {
                self.acc5 ^ (acc1 ^ current)
            },
            acc6: if with_table {
                self.acc6.wrapping_add(current ^ table)
            } else {
                self.acc6.wrapping_add(current ^ acc4)
            },
        }
    }
}

impl IPL3 {
    /// The boot code itself.
    pub open spec fn bytes(&self) -> Seq<u8> {
        match self {
            IPL3::Cic6101(bin) => bin@,
            IPL3::Cic6102(bin) => bin@,
            IPL3::Cic6103(bin) => bin@,
            IPL3::Cic6105(bin) => bin@,
            IPL3::Cic6106(bin) => bin@,
            IPL3::Cic7102(bin) => bin@,
            IPL3::Unknown(bin) => bin@,
        }
    }

    /// Whether the boot code is 6101, 6102, 7102 or unknown: those start
    /// from the common seed, read no table, and combine the accumulators by
    /// exclusive or.
    pub open spec fn is_plain(&self) -> bool {
        self is Cic6101 || self is Cic6102 || self is Cic7102 || self is Unknown
    }

    /// The value that all six accumulators start from.
    pub open spec fn spec_seed(&self) -> u32 {
        match self {
            IPL3::Cic6103(_) => 0xa388_6759,
            IPL3::Cic6105(_) => 0xdf26_f436,
            IPL3::Cic6106(_) => 0x1fea_617a,
            _ => 0xf8ca_4ddc,
        }
    }

    /// Initial checksum value
    #[verifier::when_used_as_spec(spec_seed)]
    pub fn seed(&self) -> (seed: u32)
        ensures
            seed == self.spec_seed(),
    {
        match self {
            IPL3::Cic6103(_) => 0xa388_6759,
            IPL3::Cic6105(_) => 0xdf26_f436,
            IPL3::Cic6106(_) => 0x1fea_617a,
            _ => 0xf8ca_4ddc,
        }
    }

    /// The accumulators after the first `n` words of the stream.
    pub open spec fn accumulate(&self, program: Seq<u8>, fs: Seq<u8>, n: nat) -> Accumulators
        decreases n,
    {
        if n == 0 {
            Accumulators::seeded(self.seed())
        } else {
            self.accumulate(program, fs, (n - 1) as nat).step(
                self is Cic6105,
                stream_word(program, fs, n - 1),
                table_word(self.bytes(), n - 1),
            )
        }
    }

    /// The two checksums that the variant derives from the accumulators.
    pub open spec fn combine(&self, acc: Accumulators) -> (u32, u32) {
        match self {
            IPL3::Cic6103(_) => (
                wrapping_add(acc.acc1 ^ acc.acc2, acc.acc3),
                wrapping_add(acc.acc4 ^ acc.acc5, acc.acc6),
            ),
            IPL3::Cic6106(_) => (
                wrapping_add(wrapping_mul(acc.acc1, acc.acc2), acc.acc3),
                wrapping_add(wrapping_mul(acc.acc4, acc.acc5), acc.acc6),
            ),
            _ => (acc.acc1 ^ acc.acc2 ^ acc.acc3, acc.acc4 ^ acc.acc5 ^ acc.acc6),
        }
    }

    /// The checksums of a program and a file system: the accumulators run
    /// over the first `PROGRAM_SIZE` bytes of the stream.
    pub open spec fn checksums(&self, program: Seq<u8>, fs: Seq<u8>) -> (u32, u32) {
        self.combine(self.accumulate(program, fs, (PROGRAM_SIZE / 4) as nat))
    }

    /// What the variant adds to the entry point stored in the header.
    pub open spec fn spec_entry_offset(&self) -> u32 {
        match self {
            IPL3::Cic6103(_) => 0x0010_0000,
            IPL3::Cic6106(_) => 0x0020_0000,
            _ => 0,
        }
    }

    /// What the variant adds to the entry point stored in the header.
    #[verifier::when_used_as_spec(spec_entry_offset)]
    pub fn entry_offset(&self) -> (delta: u32)
        ensures
            delta == self.spec_entry_offset(),
    {
        match self {
            IPL3::Cic6103(_) => 0x0010_0000,
            IPL3::Cic6106(_) => 0x0020_0000,
            _ => 0,
        }
    }

    /// Whether the variant is the one that boot code with this CRC-32 belongs
    /// to: one of six known sums, or `Unknown` for every other.
    pub open spec fn has_crc(&self, sum: u32) -> bool {
        match self {
            IPL3::Cic6101(_) => sum == 0x6170_a4a1,
            IPL3::Cic6102(_) => sum == 0x90bb_6cb5,
            IPL3::Cic6103(_) => sum == 0x0b05_0ee0,
            IPL3::Cic6105(_) => sum == 0x98bc_2c86,
            IPL3::Cic6106(_) => sum == 0xacc8_580a,
            IPL3::Cic7102(_) => sum == 0x009e_9ea3,
            IPL3::Unknown(_) => sum != 0x6170_a4a1 && sum != 0x90bb_6cb5 && sum != 0x0b05_0ee0
                && sum != 0x98bc_2c86 && sum != 0xacc8_580a && sum != 0x009e_9ea3,
        }
    }

    /// Tags boot code with the variant that its CRC-32 `sum` stands for.
    pub fn from_crc(sum: u32, ipl: [u8; IPL_SIZE]) -> (ipl3: IPL3)
        ensures
            ipl3.bytes() == ipl@,
            ipl3.has_crc(sum),
    {
        match sum {
            0x6170_a4a1 => IPL3::Cic6101(ipl),
            0x90bb_6cb5 => IPL3::Cic6102(ipl),
            0x0b05_0ee0 => IPL3::Cic6103(ipl),
            0x98bc_2c86 => IPL3::Cic6105(ipl),
            0xacc8_580a => IPL3::Cic6106(ipl),
            0x009e_9ea3 => IPL3::Cic7102(ipl),
            _ => IPL3::Unknown(ipl),
        }
    }

    /// Check for known IPLs
    pub fn check(ipl: [u8; IPL_SIZE]) -> (ipl3: IPL3)
        ensures
            ipl3.bytes() == ipl@,
            ipl3.has_crc(crc32(ipl@)),
    {
        let sum = crc32fast::hash(ipl.as_slice());
        IPL3::from_crc(sum, ipl)
    }

    /// Loads boot code from the contents of a file of its own, which must
    /// hold `IPL_SIZE` bytes and nothing else.
    pub fn read(contents: &[u8]) -> (loaded: Result<IPL3, IPL3Error>)
        ensures
            loaded is Ok <==> contents@.len() == IPL_SIZE,
            loaded matches Ok(ipl3) ==> ipl3.bytes() == contents@ && ipl3.has_crc(crc32(contents@)),
            loaded matches Err(e) ==> e matches IPL3Error::IPL3ReadError(said) && said@
                == size_message(contents@.len()),
    {
        if contents.len() != IPL_SIZE {
            let mut said = "Expected file size ".to_owned();
            said.append(to_decimal(IPL_SIZE as u64).as_str());
            said.append(", found ");
            said.append(to_decimal(contents.len() as u64).as_str());
            return Err(IPL3Error::IPL3ReadError(said));
        }
        let ipl = copy_ipl(contents, 0);
        assert(ipl@ =~= contents@);
        Ok(IPL3::check(ipl))
    }

    /// Loads boot code from the contents of a cartridge image, where it
    /// follows the header. `path` names the image in the error.
    pub fn read_from_rom(path: &str, rom: &[u8]) -> (loaded: Result<IPL3, IPL3Error>)
        ensures
            loaded is Ok <==> rom@.len() >= HEADER_SIZE + IPL_SIZE,
            loaded matches Ok(ipl3) ==> {
                let ipl = rom@.subrange(HEADER_SIZE as int, HEADER_SIZE + IPL_SIZE);
                ipl3.bytes() == ipl && ipl3.has_crc(crc32(ipl))
            },
            loaded matches Err(e) ==> e matches IPL3Error::IPL3ReadError(said) && said@
                == rom_message(path@),
    {
        if rom.len() < HEADER_SIZE + IPL_SIZE {
            let mut said = "Couldn't read all ".to_owned();
            said.append(to_decimal(IPL_SIZE as u64).as_str());
            said.append(" IPL3 bytes from ROM \"");
            said.append(path);
            said.append("\".");
            return Err(IPL3Error::IPL3ReadError(said));
        }
        Ok(IPL3::check(copy_ipl(rom, HEADER_SIZE)))
    }

    /// The name of the lockout chip that the boot code belongs to.
    pub open spec fn chip(&self) -> Seq<char> {
        match self {
            IPL3::Cic6101(_) => "CIC-NUS-6101"@,
            IPL3::Cic6102(_) => "CIC-NUS-6102"@,
            IPL3::Cic6103(_) => "CIC-NUS-6103"@,
            IPL3::Cic6105(_) => "CIC-NUS-6105"@,
            IPL3::Cic6106(_) => "CIC-NUS-6106"@,
            IPL3::Cic7102(_) => "CIC-NUS-7102"@,
            IPL3::Unknown(_) => "Unknown"@,
        }
    }

    /// The name of the lockout chip, as it is shown.
    pub fn to_string(&self) -> (shown: String)
        ensures
            shown@ == self.chip(),
    {
        let s = match self {
            IPL3::Cic6101(_) => "CIC-NUS-6101",
            IPL3::Cic6102(_) => "CIC-NUS-6102",
            IPL3::Cic6103(_) => "CIC-NUS-6103",
            IPL3::Cic6105(_) => "CIC-NUS-6105",
            IPL3::Cic6106(_) => "CIC-NUS-6106",
            IPL3::Cic7102(_) => "CIC-NUS-7102",
            IPL3::Unknown(_) => "Unknown",
        };
        s.to_owned()
    }

    /// The boot code, whatever the variant.
    pub fn get_ipl(&self) -> (bin: &[u8; IPL_SIZE])
        ensures
            bin@ == self.bytes(),
    {
        match self {
            IPL3::Cic6101(bin) => bin,
            IPL3::Cic6102(bin) => bin,
            IPL3::Cic6103(bin) => bin,
            IPL3::Cic6105(bin) => bin,
            IPL3::Cic6106(bin) => bin,
            IPL3::Cic7102(bin) => bin,
            IPL3::Unknown(bin) => bin,
        }
    }

    /// Computes the two checksums that the boot code expects in the header.
    ///
    /// Both lengths must be whole numbers of words.
    pub fn compute_crcs(&self, program: &[u8], fs: &[u8]) -> (crcs: (u32, u32))
        requires
            program@.len() % 4 == 0,
            fs@.len() % 4 == 0,
        ensures
            crcs == self.checksums(program@, fs@),
    {
        let seed = self.seed();
        let with_table = match self {
            IPL3::Cic6105(_) => true,
            _ => false,
        };
        let ipl = self.get_ipl();
        let mut acc = Accumulators {
            acc1: seed,
            acc2: seed,
            acc3: seed,
            acc4: seed,
            acc5: seed,
            acc6: seed,
        };
        let mut k: usize = 0;
        while k < PROGRAM_SIZE / 4
            invariant
                k <= PROGRAM_SIZE / 4,
                ipl@ == self.bytes(),
                with_table == (self is Cic6105),
                acc == self.accumulate(program@, fs@, k as nat),
            decreases PROGRAM_SIZE / 4 - k,
        {
            let current = read_stream_word(program, fs, k);
            let table = read_table_word(ipl, k);
            acc = acc.advance(with_table, current, table);
            k += 1;
        }
        match self {
            IPL3::Cic6103(_) => (
                (acc.acc1 ^ acc.acc2).wrapping_add(acc.acc3),
                (acc.acc4 ^ acc.acc5).wrapping_add(acc.acc6),
            ),
            IPL3::Cic6106(_) => (
                acc.acc1.wrapping_mul(acc.acc2).wrapping_add(acc.acc3),
                acc.acc4.wrapping_mul(acc.acc5).wrapping_add(acc.acc6),
            ),
            _ => (acc.acc1 ^ acc.acc2 ^ acc.acc3, acc.acc4 ^ acc.acc5 ^ acc.acc6),
        }
    }

    /// Offset the entry point for the current IPL3
    pub fn offset(&self, entry_point: u32) -> (shifted: u32)
        requires
            entry_point + self.entry_offset() <= u32::MAX,
        ensures
            shifted == entry_point + self.entry_offset(),
    {
        entry_point + self.entry_offset()
    }
}

/// The boot codes that have no seed, table or way of their own to combine
/// the accumulators give the same values for the same stream, whatever
/// their own bytes.
pub proof fn lemma_plain_accumulate(
    ipl3: IPL3,
    other: IPL3,
    program: Seq<u8>,
    fs: Seq<u8>,
    n: nat,
)
    requires
        ipl3.is_plain(),
        other.is_plain(),
    ensures
        ipl3.accumulate(program, fs, n) == other.accumulate(program, fs, n),
    decreases n,
{
    if n > 0 {
        lemma_plain_accumulate(ipl3, other, program, fs, (n - 1) as nat);
    }
}

/// The boot codes 6101, 6102 and 7102 and every unknown one give the same
/// checksums for the same program and file system.
pub proof fn lemma_plain_checksums(ipl3: IPL3, other: IPL3, program: Seq<u8>, fs: Seq<u8>)
    requires
        ipl3.is_plain(),
        other.is_plain(),
    ensures
        ipl3.checksums(program, fs) == other.checksums(program, fs),
{
    lemma_plain_accumulate(ipl3, other, program, fs, (PROGRAM_SIZE / 4) as nat);
}

/// The accumulators read no more of the stream than the words they have
/// run over: two streams that agree on those words give the same values.
pub proof fn lemma_accumulate_reads(
    ipl3: IPL3,
    program: Seq<u8>,
    fs: Seq<u8>,
    other_program: Seq<u8>,
    other_fs: Seq<u8>,
    n: nat,
)
    requires
        forall|i: int|
            0 <= i < 4 * n ==> stream_byte(program, fs, i) == stream_byte(
                other_program,
                other_fs,
                i,
            ),
    ensures
        ipl3.accumulate(program, fs, n) == ipl3.accumulate(other_program, other_fs, n),
    decreases n,
{
    if n > 0 {
        lemma_accumulate_reads(ipl3, program, fs, other_program, other_fs, (n - 1) as nat);
        let k = n - 1;
        assert(stream_byte(program, fs, 4 * k) == stream_byte(other_program, other_fs, 4 * k));
        assert(stream_byte(program, fs, 4 * k + 1) == stream_byte(
            other_program,
            other_fs,
            4 * k + 1,
        ));
        assert(stream_byte(program, fs, 4 * k + 2) == stream_byte(
            other_program,
            other_fs,
            4 * k + 2,
        ));
        assert(stream_byte(program, fs, 4 * k + 3) == stream_byte(
            other_program,
            other_fs,
            4 * k + 3,
        ));
    }
}

} // verus!
