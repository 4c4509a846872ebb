use cargo_n64::ipl3::{read_be_u32, Accumulators, IPL3Error, HEADER_SIZE, IPL3, IPL_SIZE, PROGRAM_SIZE};

#[test]
fn crc_ipl3_6101() {
    let ipl3 = IPL3::Cic6101([0; IPL_SIZE]);
    let program: Vec<u8> = (0..PROGRAM_SIZE).map(|i| i as u8).collect();

    let (crc1, crc2) = ipl3.compute_crcs(&program, &[]);

    assert_eq!(crc1, 0xfac8_47da);
    assert_eq!(crc2, 0xb2de_a121);
}

#[test]
fn crc_ipl3_6102() {
    let ipl3 = IPL3::Cic6102([0; IPL_SIZE]);
    let program: Vec<u8> = (0..PROGRAM_SIZE).map(|i| i as u8).collect();

    let (crc1, crc2) = ipl3.compute_crcs(&program, &[]);

    assert_eq!(crc1, 0xfac8_47da);
    assert_eq!(crc2, 0xb2de_a121);
}

#[test]
fn crc_ipl3_6103() {
    let ipl3 = IPL3::Cic6103([0; IPL_SIZE]);
    let program: Vec<u8> = (0..PROGRAM_SIZE).map(|i| i as u8).collect();

    let (crc1, crc2) = ipl3.compute_crcs(&program, &[]);

    assert_eq!(crc1, 0xa98e_6d67);
    assert_eq!(crc2, 0x3bee_c487);
}

#[test]
fn crc_ipl3_6105() {
    let ipl3 = IPL3::Cic6105([0; IPL_SIZE]);
    let program: Vec<u8> = (0..PROGRAM_SIZE).map(|i| i as u8).collect();

    let (crc1, crc2) = ipl3.compute_crcs(&program, &[]);

    assert_eq!(crc1, 0xe124_ee34);
    assert_eq!(crc2, 0x8ceb_5e63);
}

#[test]
fn crc_ipl3_6106() {
    let ipl3 = IPL3::Cic6106([0; IPL_SIZE]);
    let program: Vec<u8> = (0..PROGRAM_SIZE).map(|i| i as u8).collect();

    let (crc1, crc2) = ipl3.compute_crcs(&program, &[]);

    assert_eq!(crc1, 0x66c6_70aa);
    assert_eq!(crc2, 0x3874_9798);
}

#[test]
fn crc_ipl3_7102() {
    let ipl3 = IPL3::Cic7102([0; IPL_SIZE]);
    let program: Vec<u8> = (0..PROGRAM_SIZE).map(|i| i as u8).collect();

    let (crc1, crc2) = ipl3.compute_crcs(&program, &[]);

    assert_eq!(crc1, 0xfac8_47da);
    assert_eq!(crc2, 0xb2de_a121);
}

#[test]
fn offset_ipl3_6101() {
    let ipl3 = IPL3::Cic6101([0; IPL_SIZE]);
    assert_eq!(ipl3.offset(0x8000_0400), 0x8000_0400);
}

#[test]
fn offset_ipl3_6102() {
    let ipl3 = IPL3::Cic6102([0; IPL_SIZE]);
    assert_eq!(ipl3.offset(0x8000_0400), 0x8000_0400);
}

#[test]
fn offset_ipl3_6103() {
    let ipl3 = IPL3::Cic6103([0; IPL_SIZE]);
    assert_eq!(ipl3.offset(0x8000_0400), 0x8010_0400);
}

#[test]
fn offset_ipl3_6105() {
    let ipl3 = IPL3::Cic6105([0; IPL_SIZE]);
    assert_eq!(ipl3.offset(0x8000_0400), 0x8000_0400);
}

#[test]
fn offset_ipl3_6106() {
    let ipl3 = IPL3::Cic6106([0; IPL_SIZE]);
    assert_eq!(ipl3.offset(0x8000_0400), 0x8020_0400);
}

#[test]
fn offset_ipl3_7102() {
    let ipl3 = IPL3::Cic7102([0; IPL_SIZE]);
    assert_eq!(ipl3.offset(0x8000_0400), 0x8000_0400);
}

fn forged(tail: [u8; 4]) -> [u8; IPL_SIZE] {
    let mut ipl = [0u8; IPL_SIZE];
    for i in 0..IPL_SIZE - 4 {
        ipl[i] = (i * 7 + 3) as u8;
    }
    ipl[IPL_SIZE - 4..].copy_from_slice(&tail);
    ipl
}

#[test]
fn check_knows_6101() {
    let ipl = forged([0xf2, 0x13, 0xf6, 0x2a]);
    assert!(matches!(IPL3::check(ipl), IPL3::Cic6101(bin) if bin == ipl));
}

#[test]
fn check_knows_6102() {
    let ipl = forged([0x99, 0x53, 0xd9, 0x66]);
    assert!(matches!(IPL3::check(ipl), IPL3::Cic6102(bin) if bin == ipl));
}

#[test]
fn check_knows_6103() {
    let ipl = forged([0x97, 0x2b, 0x32, 0xa2]);
    assert!(matches!(IPL3::check(ipl), IPL3::Cic6103(bin) if bin == ipl));
}

#[test]
fn check_knows_6105() {
    let ipl = forged([0x9f, 0x93, 0xfe, 0xbc]);
    assert!(matches!(IPL3::check(ipl), IPL3::Cic6105(bin) if bin == ipl));
}

#[test]
fn check_knows_6106() {
    let ipl = forged([0xfd, 0xe6, 0x7c, 0x24]);
    assert!(matches!(IPL3::check(ipl), IPL3::Cic6106(bin) if bin == ipl));
}

#[test]
fn check_knows_7102() {
    let ipl = forged([0x37, 0xcc, 0xea, 0xc0]);
    assert!(matches!(IPL3::check(ipl), IPL3::Cic7102(bin) if bin == ipl));
}

#[test]
fn check_does_not_know_zeros() {
    assert!(matches!(IPL3::check([0; IPL_SIZE]), IPL3::Unknown(bin) if bin == [0; IPL_SIZE]));
}

#[test]
fn check_does_not_know_a_changed_byte() {
    let mut ipl = forged([0x99, 0x53, 0xd9, 0x66]);
    ipl[0] ^= 1;
    assert!(matches!(IPL3::check(ipl), IPL3::Unknown(_)));
}

#[test]
fn from_crc_maps_each_sum() {
    let ipl = [0u8; IPL_SIZE];
    assert!(matches!(IPL3::from_crc(0x6170_a4a1, ipl), IPL3::Cic6101(_)));
    assert!(matches!(IPL3::from_crc(0x90bb_6cb5, ipl), IPL3::Cic6102(_)));
    assert!(matches!(IPL3::from_crc(0x0b05_0ee0, ipl), IPL3::Cic6103(_)));
    assert!(matches!(IPL3::from_crc(0x98bc_2c86, ipl), IPL3::Cic6105(_)));
    assert!(matches!(IPL3::from_crc(0xacc8_580a, ipl), IPL3::Cic6106(_)));
    assert!(matches!(IPL3::from_crc(0x009e_9ea3, ipl), IPL3::Cic7102(_)));
    assert!(matches!(IPL3::from_crc(0, ipl), IPL3::Unknown(_)));
    assert!(matches!(IPL3::from_crc(0x6170_a4a2, ipl), IPL3::Unknown(_)));
}

#[test]
fn read_takes_a_whole_boot_code() {
    let ipl = forged([0x97, 0x2b, 0x32, 0xa2]);
    let loaded = IPL3::read(&ipl).unwrap();
    assert!(matches!(loaded, IPL3::Cic6103(bin) if bin == ipl));
}

#[test]
fn read_refuses_a_short_file() {
    match IPL3::read(&[1, 2, 3]) {
        Err(IPL3Error::IPL3ReadError(said)) => {
            assert_eq!(said, "Expected file size 4032, found 3")
        }
        _ => panic!("a file of three bytes was taken"),
    }
}

#[test]
fn read_refuses_a_long_file() {
    match IPL3::read(&vec![0; IPL_SIZE + 1]) {
        Err(IPL3Error::IPL3ReadError(said)) => {
            assert_eq!(said, "Expected file size 4032, found 4033")
        }
        _ => panic!("a file of 4033 bytes was taken"),
    }
}

#[test]
fn read_refuses_an_empty_file() {
    match IPL3::read(&[]) {
        Err(IPL3Error::IPL3ReadError(said)) => {
            assert_eq!(said, "Expected file size 4032, found 0")
        }
        _ => panic!("an empty file was taken"),
    }
}

#[test]
fn read_from_rom_skips_the_header() {
    let ipl = forged([0x9f, 0x93, 0xfe, 0xbc]);
    let mut rom = vec![0xee; HEADER_SIZE];
    rom.extend_from_slice(&ipl);
    rom.extend_from_slice(&[0x11; 100]);
    let loaded = IPL3::read_from_rom("game.z64", &rom).unwrap();
    assert!(matches!(loaded, IPL3::Cic6105(bin) if bin == ipl));
}

#[test]
fn read_from_rom_takes_a_rom_that_ends_with_the_boot_code() {
    let mut rom = vec![0xee; HEADER_SIZE];
    rom.extend_from_slice(&[0; IPL_SIZE]);
    assert!(matches!(IPL3::read_from_rom("a", &rom), Ok(IPL3::Unknown(_))));
}

#[test]
fn read_from_rom_refuses_a_short_rom() {
    let rom = vec![0; HEADER_SIZE + IPL_SIZE - 1];
    match IPL3::read_from_rom("roms/game.z64", &rom) {
        Err(IPL3Error::IPL3ReadError(said)) => {
            assert_eq!(said, "Couldn't read all 4032 IPL3 bytes from ROM \"roms/game.z64\".")
        }
        _ => panic!("a short image was taken"),
    }
}

#[test]
fn get_ipl_gives_the_bytes_back() {
    let ipl = forged([1, 2, 3, 4]);
    assert_eq!(IPL3::Cic6102(ipl).get_ipl(), &ipl);
    assert_eq!(IPL3::Unknown(ipl).get_ipl(), &ipl);
}

#[test]
fn to_string_names_the_chip() {
    let ipl = [0u8; IPL_SIZE];
    assert_eq!(IPL3::Cic6101(ipl).to_string(), "CIC-NUS-6101");
    assert_eq!(IPL3::Cic6102(ipl).to_string(), "CIC-NUS-6102");
    assert_eq!(IPL3::Cic6103(ipl).to_string(), "CIC-NUS-6103");
    assert_eq!(IPL3::Cic6105(ipl).to_string(), "CIC-NUS-6105");
    assert_eq!(IPL3::Cic6106(ipl).to_string(), "CIC-NUS-6106");
    assert_eq!(IPL3::Cic7102(ipl).to_string(), "CIC-NUS-7102");
    assert_eq!(IPL3::Unknown(ipl).to_string(), "Unknown");
}

#[test]
fn crc_unknown_goes_with_6102() {
    let ipl3 = IPL3::Unknown([0; IPL_SIZE]);
    let program: Vec<u8> = (0..PROGRAM_SIZE).map(|i| i as u8).collect();

    assert_eq!(ipl3.compute_crcs(&program, &[]), (0xfac8_47da, 0xb2de_a121));
}

#[test]
fn crc_reads_the_file_system_behind_a_short_program() {
    let ipl3 = IPL3::Cic6102([0; IPL_SIZE]);

    let crcs = ipl3.compute_crcs(&[1, 2, 3, 4, 5, 6, 7, 8], &[0xaa, 0xbb, 0xcc, 0xdd]);

    assert_eq!(crcs, (0x0731_ec15, 0xb040_73f4));
}

#[test]
fn crc_stops_after_the_program_region() {
    let ipl3 = IPL3::Cic6102([0; IPL_SIZE]);
    let program: Vec<u8> = (0..PROGRAM_SIZE).map(|i| i as u8).collect();
    let mut longer = program.clone();
    longer.extend_from_slice(&[9, 9, 9, 9]);

    assert_eq!(ipl3.compute_crcs(&longer, &[]), (0xfac8_47da, 0xb2de_a121));
    assert_eq!(ipl3.compute_crcs(&program, &[9, 9, 9, 9]), (0xfac8_47da, 0xb2de_a121));
}

#[test]
fn crc_6105_mixes_its_table_in() {
    let mut ipl = [0u8; IPL_SIZE];
    for i in 0..IPL_SIZE {
        ipl[i] = (i * 13 + 5) as u8;
    }
    let program: Vec<u8> = (0..PROGRAM_SIZE).map(|i| i as u8).collect();

    assert_eq!(IPL3::Cic6105(ipl).compute_crcs(&program, &[]), (0xe124_ee34, 0x68d3_5e63));
    assert_eq!(IPL3::Cic6102(ipl).compute_crcs(&program, &[]), (0xfac8_47da, 0xb2de_a121));
}

#[test]
fn crc_of_an_empty_program_region() {
    let program = vec![0xff; PROGRAM_SIZE];
    let ipl = [0u8; IPL_SIZE];

    assert_eq!(IPL3::Cic6102(ipl).compute_crcs(&program, &[]), (0xf8c2_4ddc, 0xc154_4ddc));
    assert_eq!(IPL3::Cic6103(ipl).compute_crcs(&program, &[]), (0xa390_6759, 0x0622_6759));
    assert_eq!(IPL3::Cic6106(ipl).compute_crcs(&program, &[]), (0x0410_0f9e, 0xf83e_0f9e));
}

#[test]
fn advance_takes_one_word() {
    let seed = 0xf8ca_4ddc;
    let start = Accumulators { acc1: seed, acc2: seed, acc3: seed, acc4: seed, acc5: seed, acc6: seed };

    let next = start.advance(false, 0x0000_0001, 0);

    // The word is rotated by one bit; acc5 is above the word and takes the rotated word.
    assert_eq!(
        next,
        Accumulators {
            acc1: 0xf8ca_4ddd,
            acc2: seed,
            acc3: 0xf8ca_4ddd,
            acc4: 0xf8ca_4dde,
            acc5: 0xf8ca_4dde,
            acc6: seed.wrapping_add(0x0000_0001 ^ 0xf8ca_4dde),
        }
    );
}

#[test]
fn advance_counts_a_carry() {
    let start = Accumulators { acc1: 0xffff_ffff, acc2: 7, acc3: 0, acc4: 0, acc5: 0, acc6: 0 };

    let next = start.advance(true, 0x0000_0020, 0x0000_0003);

    // No rotation for a count of zero; acc5 is not above the word and takes acc1 ^ word.
    assert_eq!(
        next,
        Accumulators {
            acc1: 0x0000_001f,
            acc2: 8,
            acc3: 0x0000_0020,
            acc4: 0x0000_0020,
            acc5: 0x0000_003f,
            acc6: 0x0000_0023,
        }
    );
}

#[test]
fn read_be_u32_puts_the_first_byte_on_top() {
    assert_eq!(read_be_u32(0x12, 0x34, 0x56, 0x78), 0x1234_5678);
    assert_eq!(read_be_u32(0xff, 0xff, 0xff, 0xff), 0xffff_ffff);
    assert_eq!(read_be_u32(0, 0, 0, 1), 1);
}

#[test]
fn offset_unknown() {
    let ipl3 = IPL3::Unknown([0; IPL_SIZE]);
    assert_eq!(ipl3.offset(0x8000_0400), 0x8000_0400);
}

#[test]
fn offset_reaches_the_last_address() {
    assert_eq!(IPL3::Cic6103([0; IPL_SIZE]).offset(0xffef_ffff), 0xffff_ffff);
    assert_eq!(IPL3::Cic6106([0; IPL_SIZE]).offset(0xffdf_ffff), 0xffff_ffff);
    assert_eq!(IPL3::Cic6102([0; IPL_SIZE]).offset(0xffff_ffff), 0xffff_ffff);
}

#[test]
fn ipl3_error_says_what_failed() {
    match IPL3::read(&[1, 2, 3]) {
        Err(e) => assert_eq!(e.to_string(), "Unable to read IPL3: Expected file size 4032, found 3"),
        Ok(_) => panic!("a file of three bytes was taken"),
    }
    let e = IPL3Error::IOError(std::io::Error::new(std::io::ErrorKind::NotFound, "gone"));
    assert_eq!(e.to_string(), "IO Error");
}

#[test]
fn crc_unknown_goes_with_every_plain_boot_code() {
    let mut ipl = [0u8; IPL_SIZE];
    for i in 0..IPL_SIZE {
        ipl[i] = (i * 13 + 5) as u8;
    }
    let program: Vec<u8> = (0..PROGRAM_SIZE).map(|i| (i * 7) as u8).collect();
    let fs = [1, 2, 3, 4];

    let unknown = IPL3::Unknown(ipl).compute_crcs(&program, &fs);

    assert_eq!(IPL3::Cic6101([0; IPL_SIZE]).compute_crcs(&program, &fs), unknown);
    assert_eq!(IPL3::Cic6102(ipl).compute_crcs(&program, &fs), unknown);
    assert_eq!(IPL3::Cic7102([9; IPL_SIZE]).compute_crcs(&program, &fs), unknown);
}
