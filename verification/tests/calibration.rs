use dcf77faker::calibration::{
    adc_bias, adc_linearity, dfll48m_coarse, osc32k, usb_transn, usb_transp, usb_trim,
};

#[test]
fn extracts_every_calibration_field() {
    // 0b101010_101_01010_10101_0101010_101_010
    let word: u32 = 0b101010_101_01010_10101_0101010_101_010;
    assert_eq!(adc_linearity(word), 0b010);
    assert_eq!(adc_bias(word), 0b101);
    assert_eq!(osc32k(word), 0b0101010);
    assert_eq!(usb_transn(word), 0b10101);
    assert_eq!(usb_transp(word), 0b01010);
    assert_eq!(usb_trim(word), 0b101);
    assert_eq!(dfll48m_coarse(word), 0b101010);
}

#[test]
fn calibration_fields_cover_disjoint_bits() {
    assert_eq!(adc_linearity(0xFFFF_FFFF), 0b111);
    assert_eq!(adc_bias(u32::MAX), 0b111);
    assert_eq!(osc32k(u32::MAX), 0x7F);
    assert_eq!(usb_transn(u32::MAX), 0x1F);
    assert_eq!(usb_transp(u32::MAX), 0x1F);
    assert_eq!(usb_trim(u32::MAX), 0b111);
    assert_eq!(dfll48m_coarse(u32::MAX), 0x3F);
    assert_eq!(adc_linearity(0), 0);
    assert_eq!(dfll48m_coarse(0), 0);
    assert_eq!(adc_linearity(1 << 3), 0);
    assert_eq!(adc_bias(1 << 3), 1);
}
