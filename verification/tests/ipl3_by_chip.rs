use cargo_n64::ipl3::{IPL3, IPL_SIZE, PROGRAM_SIZE};

#[test]
fn ipl3_crc_ipl3_6101() {
    let ipl3 = IPL3::Cic6101([0; IPL_SIZE]);
    let program: Vec<u8> = (0..PROGRAM_SIZE).map(|i| i as u8).collect();

    let (crc1, crc2) = ipl3.compute_crcs(&program, &[]);

    assert_eq!(crc1, 0xfac847da);
    assert_eq!(crc2, 0xb2dea121);
}

#[test]
fn ipl3_crc_ipl3_6102() {
    let ipl3 = IPL3::Cic6102([0; IPL_SIZE]);
    let program: Vec<u8> = (0..PROGRAM_SIZE).map(|i| i as u8).collect();

    let (crc1, crc2) = ipl3.compute_crcs(&program, &[]);

    assert_eq!(crc1, 0xfac847da);
    assert_eq!(crc2, 0xb2dea121);
}

#[test]
fn ipl3_crc_ipl3_6103() {
    let ipl3 = IPL3::Cic6103([0; IPL_SIZE]);
    let program: Vec<u8> = (0..PROGRAM_SIZE).map(|i| i as u8).collect();

    let (crc1, crc2) = ipl3.compute_crcs(&program, &[]);

    assert_eq!(crc1, 0xa98e6d67);
    assert_eq!(crc2, 0x3beec487);
}

#[test]
fn ipl3_crc_ipl3_6106() {
    let ipl3 = IPL3::Cic6106([0; IPL_SIZE]);
    let program: Vec<u8> = (0..PROGRAM_SIZE).map(|i| i as u8).collect();

    let (crc1, crc2) = ipl3.compute_crcs(&program, &[]);

    assert_eq!(crc1, 0x66c670aa);
    assert_eq!(crc2, 0x38749798);
}

#[test]
fn ipl3_crc_ipl3_7102() {
    let ipl3 = IPL3::Cic7102([0; IPL_SIZE]);
    let program: Vec<u8> = (0..PROGRAM_SIZE).map(|i| i as u8).collect();

    let (crc1, crc2) = ipl3.compute_crcs(&program, &[]);

    assert_eq!(crc1, 0xfac847da);
    assert_eq!(crc2, 0xb2dea121);
}

#[test]
fn ipl3_offset_ipl3_6101() {
    let ipl3 = IPL3::Cic6101([0; IPL_SIZE]);
    assert_eq!(ipl3.offset(0x80000400), 0x80000400);
}

#[test]
fn ipl3_offset_ipl3_6102() {
    let ipl3 = IPL3::Cic6102([0; IPL_SIZE]);
    assert_eq!(ipl3.offset(0x80000400), 0x80000400);
}

#[test]
fn ipl3_offset_ipl3_6103() {
    let ipl3 = IPL3::Cic6103([0; IPL_SIZE]);
    assert_eq!(ipl3.offset(0x80000400), 0x80100400);
}

#[test]
fn ipl3_offset_ipl3_6105() {
    let ipl3 = IPL3::Cic6105([0; IPL_SIZE]);
    assert_eq!(ipl3.offset(0x80000400), 0x80000400);
}

#[test]
fn ipl3_offset_ipl3_6106() {
    let ipl3 = IPL3::Cic6106([0; IPL_SIZE]);
    assert_eq!(ipl3.offset(0x80000400), 0x80200400);
}

#[test]
fn ipl3_offset_ipl3_7102() {
    let ipl3 = IPL3::Cic7102([0; IPL_SIZE]);
    assert_eq!(ipl3.offset(0x80000400), 0x80000400);
}
