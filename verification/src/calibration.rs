//! Factory calibration values: the fields packed into the calibration
//! word that the chip's non-volatile memory holds.
//!
//! Reading the word itself is a hardware access; these functions take the
//! word as read and extract each documented field.

use vstd::prelude::*;

verus! {

/// The ADC linearity calibration value, bits 2:0 of the calibration word.
pub fn adc_linearity(calibration: u32) -> (value: u8)
    ensures
        value == ((calibration >> 0) & 0b111) as u8,
{
    ((calibration >> 0) & 0b111) as u8
}

/// The ADC bias calibration value, bits 5:3 of the calibration word.
pub fn adc_bias(calibration: u32) -> (value: u8)
    ensures
        value == ((calibration >> 3) & 0b111) as u8,
{
    ((calibration >> 3) & 0b111) as u8
}

/// The 32 kHz internal oscillator calibration value, bits 12:6 of the
/// calibration word.
pub fn osc32k(calibration: u32) -> (value: u8)
    ensures
        value == ((calibration >> 6) & 0b111_1111) as u8,
{
    ((calibration >> 6) & 0b111_1111) as u8
}

/// The USB TRANSN calibration value, bits 17:13 of the calibration word.
pub fn usb_transn(calibration: u32) -> (value: u8)
    ensures
        value == ((calibration >> 13) & 0b1_1111) as u8,
{
    ((calibration >> 13) & 0b1_1111) as u8
}

/// The USB TRANSP calibration value, bits 22:18 of the calibration word.
pub fn usb_transp(calibration: u32) -> (value: u8)
    ensures
        value == ((calibration >> 18) & 0b1_1111) as u8,
{
    ((calibration >> 18) & 0b1_1111) as u8
}

/// The USB TRIM calibration value, bits 25:23 of the calibration word.
pub fn usb_trim(calibration: u32) -> (value: u8)
    ensures
        value == ((calibration >> 23) & 0b111) as u8,
{
    ((calibration >> 23) & 0b111) as u8
}

/// The DFLL48M coarse calibration value, bits 31:26 of the calibration
/// word.
pub fn dfll48m_coarse(calibration: u32) -> (value: u8)
    ensures
        value == ((calibration >> 26) & 0b11_1111) as u8,
{
    ((calibration >> 26) & 0b11_1111) as u8
}

} // verus!
