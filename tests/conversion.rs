use flashvnc::parsing::{io_write, Conversion};
use flashvnc::primitive::{conv, u8p};
use flashvnc::result::WriteError;

struct TimesFour;

impl Conversion<u8, u8> for TimesFour {
    fn spec_to(&self, a: u8) -> u8 {
        4 * a
    }

    fn spec_back(&self, b: u8) -> Result<u8, WriteError> {
        Ok(b / 2)
    }

    fn valid(&self, _b: u8) -> bool {
        false
    }

    fn lemma_inverse(&self, _b: u8) {}

    fn to(&self, a: u8) -> u8 {
        4 * a
    }

    fn back(&self, b: &u8) -> Result<u8, WriteError> {
        Ok(*b / 2)
    }
}

struct Refuses;

impl Conversion<u8, u8> for Refuses {
    fn spec_to(&self, a: u8) -> u8 {
        a
    }

    fn spec_back(&self, _b: u8) -> Result<u8, WriteError> {
        Err(WriteError::ConversionFailed(""))
    }

    fn valid(&self, _b: u8) -> bool {
        false
    }

    fn lemma_inverse(&self, _b: u8) {}

    fn to(&self, a: u8) -> u8 {
        a
    }

    fn back(&self, _b: &u8) -> Result<u8, WriteError> {
        Err(WriteError::ConversionFailed(""))
    }
}

#[test]
fn should_convert_the_value_back_before_writing() {
    let parser = conv(u8p(), TimesFour);
    let mut out = Vec::new();
    io_write(&parser, &mut out, &8).unwrap();
    assert_eq!(out, [4]);
}

#[test]
fn should_forward_a_back_conversion_error() {
    let parser = conv(u8p(), Refuses);
    let mut out = Vec::new();
    match io_write(&parser, &mut out, &1).unwrap_err() {
        WriteError::ConversionFailed(_) => {},
        _ => assert!(false),
    }
}
