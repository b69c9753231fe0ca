use flashvnc::bit_buffer::BitBuffer;
use flashvnc::parsing::{io_parse, io_write, Parser};
use flashvnc::primitive::{
    array, const_prefix, dep, i32_be, ignored, length, literal, opt, pred, tagged, u16_be, u32_be, u8p, utf8, utf8_with_len,
    zero_len, Equals,
};
use flashvnc::result::{ParseError, WriteError};
use flashvnc::rfb::compact_length;

fn parse<P: Parser>(parser: &P, input: &[u8]) -> Result<P::T, (ParseError, usize)> {
    io_parse(parser, input).map(|(v, _)| v)
}

fn write<P: Parser>(parser: &P, value: P::T) -> Result<Vec<u8>, WriteError> {
    let mut out = Vec::new();
    io_write(parser, &mut out, &value)?;
    Ok(out)
}

fn should_be_able_to_parse_from_itself(n: usize) {
    let output = write(&compact_length(), n).unwrap();
    assert_eq!(parse(&compact_length(), &output[..]).unwrap(), n);
}

#[test]
fn should_read_bit_from_msb_to_lsb() {
    let data = [0xc4u8, 0x80];
    let mut buf = BitBuffer::new(&data[..]);
    assert_eq!(buf.next(), 1);
    assert_eq!(buf.next(), 1);
    assert_eq!(buf.next(), 0);
    assert_eq!(buf.next(), 0);

    assert_eq!(buf.next(), 0);
    assert_eq!(buf.next(), 1);

    buf.next_byte();
    assert_eq!(buf.next(), 1);
    assert_eq!(buf.next(), 0);
}

#[test]
fn should_define_a_struct_with_the_specified_fields() {
    let parser = flashvnc::primitive::seq(ignored(1), u8p());
    let _p: ((), u8) = ((), 5u8);
    assert_eq!(write(&parser, _p).unwrap(), [0, 5]);
}

#[test]
fn should_construct_a_parser_by_sequencing_the_subparsers() {
    let input = [32u8, 8u8];
    let format = parse(&flashvnc::primitive::seq(u8p(), u8p()), &input[..]).unwrap();
    assert_eq!(format.0, 32);
    assert_eq!(format.1, 8);
}

#[test]
fn should_allow_ignoring_certain_fields_with_unity_type() {
    let parser = flashvnc::primitive::seq(ignored(2), flashvnc::primitive::seq(u8p(), ignored(1)));
    assert_eq!(write(&parser, ((), (5, ()))).unwrap(), [0, 0, 5, 0]);
}

fn is(x: u8) -> impl Parser<T = u8> {
    pred(u8p(), Equals { constant: x }, "")
}

#[test]
fn should_define_an_enum_with_other_packets_as_variants() {
    let parser = opt(is(0), is(1));
    assert_eq!(parse(&parser, &[0][..]).unwrap(), 0);
    assert_eq!(parse(&parser, &[1][..]).unwrap(), 1);
}

#[test]
fn should_construct_an_opt_parser_out_of_the_sub_packet_parsers() {
    let parser = opt(is(0), opt(is(1), is(2)));
    assert_eq!(parse(&parser, &[0][..]).unwrap(), 0);
    assert_eq!(parse(&parser, &[1][..]).unwrap(), 1);
    assert_eq!(parse(&parser, &[2][..]).unwrap(), 2);
    parse(&parser, &[3][..]).unwrap_err();
}

#[test]
fn should_support_adding_constant_prefixes_to_existing_parsers() {
    let parser = opt(is(0), const_prefix(u8p(), 5u8, is(1)));
    assert_eq!(parse(&parser, &[5, 1][..]).unwrap(), 1);
    parse(&parser, &[4, 1][..]).unwrap_err();
}

#[test]
fn should_implement_writing_out_a_variant_of_the_enum() {
    let parser = const_prefix(u8p(), 24u8, is(1));
    assert_eq!(write(&parser, 1).unwrap(), [24u8, 1u8]);
}

#[test]
fn should_allow_renaming_all_variants() {
    assert_eq!(parse(&is(0), &[0][..]).unwrap(), 0);
}

#[test]
fn should_get_a_single_byte_from_the_input() {
    let input = [4u8];
    assert_eq!(parse(&u8p(), &input[..]).unwrap(), 4u8);
}

#[test]
fn should_write_the_specified_number_of_bytes_as_zeroes() {
    assert_eq!(write(&ignored(2), ()).unwrap(), [0, 0]);
}

#[test]
fn should_eat_up_the_specified_amount_of_bytes_when_parsing() {
    let parser = flashvnc::primitive::seq(ignored(2), u8p());
    assert_eq!(parse(&parser, &[1, 2, 3][..]).unwrap(), ((), 3));
}

#[test]
fn should_read_and_write_four_bytes_in_big_endian() {
    let input = [1u8, 2, 3, 4];
    assert_eq!(parse(&u32_be(), &input[..]).unwrap(), 16909060u32);
    assert_eq!(write(&u32_be(), u32::MAX).unwrap(), [0xff, 0xff, 0xff, 0xff]);
}

#[test]
fn should_represent_numbers_as_four_byte_twos_complement() {
    assert_eq!(parse(&i32_be(), &[0x40, 0x01, 0x00, 0x03][..]).unwrap(), 2i32.pow(30) + 2i32.pow(16) + 3i32);
    assert_eq!(parse(&i32_be(), &[0xff, 0xff, 0xff, 0xff][..]).unwrap(), -1);
    assert_eq!(parse(&i32_be(), &[0x80, 0x80, 0x80, 0x80][..]).unwrap(), -2139062144);
    assert_eq!(write(&i32_be(), -2).unwrap(), [0xff, 0xff, 0xff, 0xfe]);
}

#[test]
fn should_write_the_first_value_then_the_second() {
    let parser = flashvnc::primitive::seq(u8p(), u16_be());
    assert_eq!(write(&parser, (1, 2)).unwrap(), [1u8, 0, 2]);
}

#[test]
fn should_return_the_original_input_if_the_predicate_fails() {
    let input = [1u8];
    let parser = pred(u8p(), Equals { constant: 7u8 }, "");
    let result = parse(&parser, &input[..]);
    assert_eq!(result.unwrap_err().1, 0);
}

#[test]
fn should_call_the_second_parser_with_params_from_the_first() {
    let input = [2u8, 2, 3];
    let parser = dep(length(u8p()), array(u8p()));
    assert_eq!(parse(&parser, &input[..]).unwrap(), vec![2u8, 3]);
}

#[test]
fn should_write_an_array_with_prefixed_length_the_same_way_it_was_read() {
    let input = [3u8, 1, 2, 3];
    let parser = dep(length(u8p()), array(u8p()));
    let array = parse(&parser, &input[..]).unwrap();
    assert_eq!(write(&parser, array).unwrap(), [3, 1, 2, 3]);
}

#[test]
fn should_only_succeed_when_a_constant_is_parsed_but_return_nothing() {
    let parser = literal(u32_be(), 5u32);
    assert_eq!(parse(&parser, &[0, 0, 0, 5][..]).unwrap(), ());
    parse(&parser, &[0, 0, 0, 4][..]).unwrap_err();
}

#[test]
fn should_write_the_specified_constant_out_of_no_input() {
    let parser = literal(u16_be(), 1u16);
    assert_eq!(write(&parser, ()).unwrap(), [0, 1]);
}

#[test]
fn should_return_the_unadvanced_input() {
    let parser = flashvnc::primitive::seq(zero_len(u8p()), u8p());
    assert_eq!(parse(&parser, &[10][..]).unwrap(), (10, 10));
}

#[test]
fn should_write_nothing() {
    assert_eq!(write(&zero_len(u8p()), 5).unwrap(), Vec::<u8>::new());
}

#[test]
fn should_encode_numbers_that_fit_into_7_bits_with_1_byte() {
    assert_eq!(parse(&compact_length(), &[0x01][..]).unwrap(), 1);
    assert_eq!(write(&compact_length(), 1).unwrap(), [0x01]);

    assert_eq!(parse(&compact_length(), &[127][..]).unwrap(), 127);
    assert_eq!(write(&compact_length(), 127).unwrap(), [127]);
}

#[test]
fn should_encode_larger_numbers_by_prepending_bytes_starting_with_a_1() {
    assert_eq!(write(&compact_length(), 255).unwrap(), [0xff, 0x01]);
    should_be_able_to_parse_from_itself(255);
    assert_eq!(write(&compact_length(), 256).unwrap(), [0x80, 0x02]);
    should_be_able_to_parse_from_itself(256);

    assert_eq!(write(&compact_length(), 10_000).unwrap(), [0x90, 0x4e]);
    should_be_able_to_parse_from_itself(10_000);

    assert_eq!(write(&compact_length(), 16384).unwrap(), [0x80, 0x80, 0x01]);
    should_be_able_to_parse_from_itself(16384);
}

#[test]
fn should_use_3_bytes_max_and_the_third_one_in_full() {
    assert_eq!(write(&compact_length(), 4194303).unwrap(), [0xff, 0xff, 0xff]);
    should_be_able_to_parse_from_itself(4194303);

    match write(&compact_length(), 4194304).unwrap_err() {
        WriteError::PredicateFailed(error) => {
            assert_eq!(error, "number too large");
        },
        _ => {
            assert!(false);
        },
    }
}

fn tagged_packet() -> impl Parser<T = (u16, u8)> {
    tagged(u16_be(), vec![0u16, 24u16], u8p())
}

#[test]
fn should_define_an_enum_with_a_discriminator_for_the_variants() {
    assert_eq!(parse(&tagged_packet(), &[0, 0, 5][..]).unwrap(), (0, 5));
    assert_eq!(parse(&tagged_packet(), &[0, 24, 3][..]).unwrap(), (24, 3));
}

#[test]
fn should_have_its_parser_fail_upon_getting_an_unhandled_discriminator() {
    match parse(&tagged_packet(), &[0, 1][..]).unwrap_err().0 {
        ParseError::InvalidDiscriminator(d) => assert_eq!(d, 1),
        _ => assert!(false),
    }
}

#[test]
fn should_have_its_parser_write_the_discriminator() {
    assert_eq!(write(&tagged_packet(), (24, 105)).unwrap(), [0, 24, 105]);
}

#[test]
fn strings_are_utf8_with_a_length_prefix() {
    let parser = dep(length(u32_be()), utf8());
    assert_eq!(write(&parser, String::from("hé")).unwrap(), [0, 0, 0, 3, b'h', 0xc3, 0xa9]);
    assert_eq!(parse(&parser, &[0, 0, 0, 3, b'h', 0xc3, 0xa9][..]).unwrap(), "hé");
    assert_eq!(parse(&utf8_with_len(1), &[0xff][..]), Err((ParseError::EncodingError, 0)));
}

#[test]
fn a_refused_write_leaves_the_output_as_it_was() {
    let mut out = vec![9u8];
    assert!(io_write(&compact_length(), &mut out, &4194304).is_err());
    assert_eq!(out, vec![9]);
    let parser = flashvnc::primitive::seq(u8p(), compact_length());
    assert!(io_write(&parser, &mut out, &(1, 4194304)).is_err());
    assert_eq!(out, vec![9]);
}
