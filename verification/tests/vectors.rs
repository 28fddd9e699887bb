use crc_engine::{CRC, CRC128, CRC16, CRC32, CRC64, CRC8};

const TEST_DATA: &[u8] = b"hello world";

#[test]
fn crc8_test() {
    let mut crc = CRC8::default();
    crc.update(TEST_DATA);
    let crc = crc.finalize();
    assert!(crc == 0x94, "{:#X}", crc);
}

#[test]
fn crc16_test() {
    let mut crc = CRC16::default();
    crc.update(TEST_DATA);
    let crc = crc.finalize();
    assert!(crc == 0xC814, "{:#X}", crc);
}

#[test]
fn crc32_test() {
    let mut crc = CRC32::default();
    crc.update(TEST_DATA);
    let crc = crc.finalize();
    assert!(crc == 0x44F71378, "{:#X}", crc);
}

#[test]
fn crc64_test() {
    let mut crc = CRC64::default();
    crc.update(TEST_DATA);
    let crc = crc.finalize();
    assert!(crc == 0xC287020321943B9D, "{:#X}", crc);
}

#[test]
fn crc128_test() {
    let mut crc = CRC128::default();
    crc.update(TEST_DATA);
    let crc = crc.finalize();
    assert!(crc == 0x1B004A91C7EF19134E779C0AC320AD8C, "{:#X}", crc);
}

#[test]
fn default_polynomials_have_their_fixed_values() {
    assert_eq!(crc_engine::crc8::DEFAULT_POLYNOMIAL, 0x07);
    assert_eq!(crc_engine::crc16::DEFAULT_POLYNOMIAL, 0x8005);
    assert_eq!(crc_engine::crc32::DEFAULT_POLYNOMIAL, 0x04C1_1DB7);
    assert_eq!(crc_engine::crc64::DEFAULT_POLYNOMIAL, 0x42F0_E1EB_A9EA_3693);
    assert_eq!(
        crc_engine::crc128::DEFAULT_POLYNOMIAL,
        0x0E3C_3D5A_7E9F_7D4E_1F3F_0FBA_B65C_7891
    );
}

#[test]
fn default_agrees_with_create_on_the_default_polynomial() {
    let mut a = CRC32::default();
    let mut b = CRC32::create(crc_engine::crc32::DEFAULT_POLYNOMIAL);
    a.update(TEST_DATA);
    b.update(TEST_DATA);
    assert_eq!(a.finalize(), b.finalize());

    let mut c = CRC128::default();
    let mut d = CRC128::create(crc_engine::crc128::DEFAULT_POLYNOMIAL);
    c.update(TEST_DATA);
    d.update(TEST_DATA);
    assert_eq!(c.finalize(), d.finalize());
}

#[test]
fn check_string_vectors() {
    let data = b"123456789";
    let mut c8 = CRC8::default();
    c8.update(data);
    assert_eq!(c8.finalize(), 0x04);
    let mut c16 = CRC16::default();
    c16.update(data);
    assert_eq!(c16.finalize(), 0x5118);
    let mut c32 = CRC32::default();
    c32.update(data);
    assert_eq!(c32.finalize(), 0xFC89_1918);
    let mut c64 = CRC64::default();
    c64.update(data);
    assert_eq!(c64.finalize(), 0x62EC_59E3_F1A4_F00A);
    let mut c128 = CRC128::default();
    c128.update(data);
    assert_eq!(c128.finalize(), 0x1AA8_2DD5_8A18_1FEB_737E_A510_A7CA_5184);
}

#[test]
fn single_zero_byte() {
    let mut c8 = CRC8::default();
    c8.update(&[0x00]);
    assert_eq!(c8.finalize(), 0x0C);
    let mut c16 = CRC16::default();
    c16.update(&[0x00]);
    assert_eq!(c16.finalize(), 0x02FD);
    let mut c32 = CRC32::default();
    c32.update(&[0x00]);
    assert_eq!(c32.finalize(), 0xB1F7_404B);
    let mut c64 = CRC64::default();
    c64.update(&[0x00]);
    assert_eq!(c64.finalize(), 0x9AFC_E626_CE85_B5F8);
    let mut c128 = CRC128::default();
    c128.update(&[0x00]);
    assert_eq!(c128.finalize(), 0xD8CC_152F_DBBC_9946_83D3_5DAB_C931_C2A5);
}

#[test]
fn single_byte_with_only_the_top_bit() {
    let mut c8 = CRC8::default();
    c8.update(&[0x80]);
    assert_eq!(c8.finalize(), 0x85);
    let mut c16 = CRC16::default();
    c16.update(&[0x80]);
    assert_eq!(c16.finalize(), 0x81FE);
    let mut c32 = CRC32::default();
    c32.update(&[0x80]);
    assert_eq!(c32.finalize(), 0xD8FB_A0A5);
    let mut c64 = CRC64::default();
    c64.update(&[0x80]);
    assert_eq!(c64.finalize(), 0x6C06_03E6_B3B7_C135);
    let mut c128 = CRC128::default();
    c128.update(&[0x80]);
    assert_eq!(c128.finalize(), 0xEC66_0A97_EDDE_4CA3_41E9_AED5_E498_E1D2);
}

#[test]
fn single_byte_with_only_the_low_bit() {
    let mut c8 = CRC8::default();
    c8.update(&[0x01]);
    assert_eq!(c8.finalize(), 0x0B);
    let mut c16 = CRC16::default();
    c16.update(&[0x01]);
    assert_eq!(c16.finalize(), 0x82F8);
    let mut c32 = CRC32::default();
    c32.update(&[0x01]);
    assert_eq!(c32.finalize(), 0xB536_5DFC);
    let mut c64 = CRC64::default();
    c64.update(&[0x01]);
    assert_eq!(c64.finalize(), 0xD80C_07CD_676F_836B);
    let mut c128 = CRC128::default();
    c128.update(&[0x01]);
    assert_eq!(c128.finalize(), 0xD6F0_2875_A523_E408_9CEC_5211_7F6D_BA34);
}

#[test]
fn byte_that_cancels_the_top_of_a_fresh_register() {
    // 0xFF clears the top byte, so that no bit that leaves is set and the
    // polynomial is never mixed in: what is left of the ones moves up.
    let mut c8 = CRC8::default();
    c8.update(&[0xFF]);
    assert_eq!(c8.finalize(), 0xFF);
    let mut c16 = CRC16::default();
    c16.update(&[0xFF]);
    assert_eq!(c16.finalize(), 0x00FF);
    let mut c32 = CRC32::default();
    c32.update(&[0xFF]);
    assert_eq!(c32.finalize(), 0x0000_00FF);
    let mut c64 = CRC64::default();
    c64.update(&[0xFF]);
    assert_eq!(c64.finalize(), 0xFF);
    let mut c128 = CRC128::default();
    c128.update(&[0xFF]);
    assert_eq!(c128.finalize(), 0xFF);
}

#[test]
fn all_ones_polynomial() {
    let mut c8 = CRC8::create(u8::MAX);
    c8.update(TEST_DATA);
    assert_eq!(c8.finalize(), 0x52);
    let mut c16 = CRC16::create(u16::MAX);
    c16.update(TEST_DATA);
    assert_eq!(c16.finalize(), 0x73F7);
    let mut c32 = CRC32::create(u32::MAX);
    c32.update(TEST_DATA);
    assert_eq!(c32.finalize(), 0x5370_0D7D);
    let mut c64 = CRC64::create(u64::MAX);
    c64.update(TEST_DATA);
    assert_eq!(c64.finalize(), 0xC9C8_6FC4_481C_D096);
    let mut c128 = CRC128::create(u128::MAX);
    c128.update(TEST_DATA);
    assert_eq!(c128.finalize(), 0xFFFF_FFFF_FF4B_CD49_C9C8_6FC4_4846_C9CD);
}
