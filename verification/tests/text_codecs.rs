use qubit_codec_text::{
    ByteOrder, Charset, CharsetCodec, CharsetDecodeErrorKind, CharsetEncodeErrorKind, DecodeStatus,
    TextDecoder, TextEncoder, Utf16, Utf16ByteCodec, Utf16ByteEncoder, Utf16U16Codec,
    Utf16U16Decoder, Utf16U16Encoder, Utf32, Utf32ByteCodec, Utf32ByteDecoder, Utf32ByteEncoder,
    Utf32U32Codec, Utf32U32Decoder, Utf32U32Encoder, Utf8, Utf8Codec, Utf8Decoder, Utf8Encoder,
    AsciiCodec, Latin1Codec,
};

#[test]
fn utf32_u32_encoder_example() {
    let encoder = Utf32U32Encoder;
    let mut output = [0_u32; Utf32::MAX_UNITS_PER_CHAR];
    let written = encoder.encode_char('中', &mut output, 0).expect("buffer fits");
    assert_eq!(1, written);
    assert_eq!('中' as u32, output[0]);
}

#[test]
fn utf32_u32_decoder_example() {
    let decoder = Utf32U32Decoder;
    let decoded = decoder.decode_prefix(&['中' as u32], 0).expect("valid UTF-32");
    assert_eq!(DecodeStatus::Complete { value: '中', consumed: 1 }, decoded);
}

#[test]
fn utf16_u16_decoder_example() {
    let decoder = Utf16U16Decoder;
    let decoded = decoder.decode_prefix(&[0xd83d, 0xde00], 0).expect("valid pair");
    assert_eq!(DecodeStatus::Complete { value: '😀', consumed: 2 }, decoded);
}

#[test]
fn utf32_byte_decoder_example() {
    let decoder = Utf32ByteDecoder::new(ByteOrder::BigEndian);
    assert_eq!(ByteOrder::BigEndian, decoder.byte_order());
    let decoded = decoder.decode_prefix(&[0x00, 0x01, 0xf6, 0x00], 0).expect("valid UTF-32BE");
    assert_eq!(DecodeStatus::Complete { value: '😀', consumed: 4 }, decoded);
    assert_eq!(Charset::utf_32be(), decoder.charset());
}

#[test]
fn text_encoder_example() {
    let encoder = Utf8Encoder;
    let mut output = [0_u8; 4];
    let written = encoder.encode_char('A', &mut output, 0).expect("buffer fits");
    assert_eq!(1, written);
    assert_eq!(b"A", &output[..written]);
}

#[test]
fn utf8_encoder_example() {
    let encoder = Utf8Encoder;
    let mut output = [0_u8; Utf8::MAX_BYTES_PER_CHAR];
    let written = encoder.encode_char('😀', &mut output, 0).expect("buffer fits");
    assert_eq!("😀".as_bytes(), &output[..written]);
}

#[test]
fn utf32_byte_encoder_writes_byte_order() {
    let encoder = Utf32ByteEncoder::new(ByteOrder::LittleEndian);
    let mut output = [0_u8; 4];
    let written = encoder.encode_char('😀', &mut output, 0).expect("fits");
    assert_eq!(4, written);
    assert_eq!([0x00, 0xf6, 0x01, 0x00], output);
    assert_eq!(4, encoder.max_units_per_char());
}

#[test]
fn utf16_encoders_write_units_and_bytes() {
    let mut units = [0_u16; 2];
    assert_eq!(Ok(2), Utf16U16Encoder.encode_char('😀', &mut units, 0).map_err(|_| ()));
    assert_eq!([0xd83d, 0xde00], units);
    let encoder = Utf16ByteEncoder::new(ByteOrder::LittleEndian);
    let mut bytes = [0_u8; 4];
    assert_eq!(2, encoder.encode_char('é', &mut bytes, 1).expect("fits"));
    assert_eq!([0, 0xe9, 0x00, 0], bytes);
    assert_eq!(Charset::utf_16le(), encoder.charset());
}

#[test]
fn encoder_reports_buffer_too_small() {
    let mut output = [0_u8; 1];
    let error = Utf8Encoder.encode_char('é', &mut output, 0).unwrap_err();
    assert!(matches!(error.kind(), CharsetEncodeErrorKind::BufferTooSmall { .. }));
    assert_eq!([0], output);
}

#[test]
fn encode_code_point_rejects_surrogates() {
    let mut output = [0_u8; 4];
    let error = Utf8Encoder.encode_code_point(0xd800, &mut output, 0).unwrap_err();
    assert_eq!(CharsetEncodeErrorKind::InvalidCodePoint { value: 0xd800 }, error.kind());
    assert_eq!(0, error.index());
    let written = Utf8Encoder.encode_code_point(0x20ac, &mut output, 0).expect("euro sign");
    assert_eq!("€".as_bytes(), &output[..written]);
}

#[test]
fn decode_next_walks_the_input() {
    let decoder = Utf8Decoder;
    let input = "aé".as_bytes();
    let mut index = 0;
    assert_eq!(Some('a'), decoder.decode_next(input, &mut index).expect("a"));
    assert_eq!(1, index);
    assert_eq!(Some('é'), decoder.decode_next(input, &mut index).expect("é"));
    assert_eq!(3, index);
    assert_eq!(None, decoder.decode_next(input, &mut index).expect("end"));
    let mut past = 4;
    let error = decoder.decode_next(input, &mut past).unwrap_err();
    assert_eq!(4, error.index());
}

#[test]
fn decode_next_reports_incomplete_sequence() {
    let decoder = Utf8Decoder;
    let input = [0x41_u8, 0xe2, 0x82];
    let mut index = 1;
    let error = decoder.decode_next(&input, &mut index).unwrap_err();
    assert_eq!(
        CharsetDecodeErrorKind::IncompleteSequence { required: 3, available: 2 },
        error.kind()
    );
    assert_eq!(3, error.index());
    assert_eq!(1, index);
}

#[test]
fn decoders_report_malformed_and_invalid_values() {
    let error = Utf16U16Decoder.decode_prefix(&[0xdc00, 0x41], 0).unwrap_err();
    assert!(matches!(error.kind(), CharsetDecodeErrorKind::MalformedSequence { .. }));
    let error = Utf32U32Decoder.decode_prefix(&[0x11_0000], 0).unwrap_err();
    assert_eq!(CharsetDecodeErrorKind::InvalidCodePoint { value: 0x11_0000 }, error.kind());
    assert_eq!(
        DecodeStatus::NeedMore { required: 2, available: 1 },
        Utf16U16Decoder.decode_prefix(&[0xd83d], 0).expect("incomplete")
    );
}

#[test]
fn utf8_codec_example() {
    let codec = Utf8Codec;
    assert_eq!(Charset::utf_8(), codec.charset());
    assert_eq!(Utf8::MAX_UNITS_PER_CHAR, codec.max_units_per_char());
    let mut output = [0_u8; Utf8::MAX_BYTES_PER_CHAR];
    let written = codec.encode_one('é', &mut output, 0).expect("buffer fits");
    assert_eq!(
        DecodeStatus::Complete { value: 'é', consumed: written },
        codec.decode_one(&output[..written], 0).expect("valid UTF-8")
    );
}

#[test]
fn utf16_byte_codec_example() {
    let codec = Utf16ByteCodec::new(ByteOrder::LittleEndian);
    assert_eq!(Charset::utf_16le(), codec.charset());
    assert_eq!(Utf16::MAX_BYTES_PER_CHAR, codec.max_units_per_char());
    let mut output = [0_u8; Utf16::MAX_BYTES_PER_CHAR];
    let written = codec.encode_one('😀', &mut output, 0).expect("buffer fits");
    assert_eq!(
        DecodeStatus::Complete { value: '😀', consumed: written },
        codec.decode_one(&output[..written], 0).expect("valid UTF-16LE")
    );
}

#[test]
fn utf16_u16_codec_example() {
    let codec = Utf16U16Codec;
    assert_eq!(Charset::utf_16(), codec.charset());
    assert_eq!(Utf16::MAX_UNITS_PER_CHAR, codec.max_units_per_char());
    let mut output = [0_u16; Utf16::MAX_UNITS_PER_CHAR];
    let written = codec.encode_one('😀', &mut output, 0).expect("buffer fits");
    assert_eq!(2, written);
    assert_eq!(
        DecodeStatus::Complete { value: '😀', consumed: written },
        codec.decode_one(&output, 0).expect("valid UTF-16")
    );
}

#[test]
fn utf32_codecs_round_trip() {
    let codec = Utf32ByteCodec::new(ByteOrder::BigEndian);
    let mut output = [0_u8; 4];
    assert_eq!(4, codec.encode_one('中', &mut output, 0).expect("fits"));
    assert_eq!([0x00, 0x00, 0x4e, 0x2d], output);
    assert_eq!(
        DecodeStatus::Complete { value: '中', consumed: 4 },
        codec.decode_one(&output, 0).expect("valid")
    );
    let mut units = [0_u32; 1];
    assert_eq!(1, Utf32U32Codec.encode_one('中', &mut units, 0).expect("fits"));
    assert_eq!([0x4e2d], units);
}

#[test]
fn single_byte_codecs_map_their_ranges() {
    let mut output = [0_u8; 1];
    assert!(AsciiCodec.encode_one('é', &mut output, 0).is_err());
    assert_eq!(1, Latin1Codec.encode_one('é', &mut output, 0).expect("latin-1"));
    assert_eq!([0xe9], output);
    assert!(AsciiCodec.decode_one(&[0x80], 0).is_err());
    assert_eq!(
        DecodeStatus::Complete { value: 'é', consumed: 1 },
        Latin1Codec.decode_one(&[0xe9], 0).expect("latin-1")
    );
    assert_eq!(Charset::ascii(), AsciiCodec.charset());
    assert_eq!(Charset::iso_8859_1(), Latin1Codec.charset());
}

#[test]
fn utf8_codec_is_also_a_text_decoder_and_encoder() {
    let codec = Utf8Codec;
    let mut index = 0;
    let input = "é!".as_bytes();
    assert_eq!(Some('é'), TextDecoder::decode_next(&codec, input, &mut index).expect("é"));
    assert_eq!(2, index);
    let mut output = [0_u8; 3];
    assert_eq!(3, TextEncoder::encode_char(&codec, '中', &mut output, 0).expect("fits"));
    assert_eq!("中".as_bytes(), &output);
}

#[test]
fn utf16_byte_decoder_reads_byte_order() {
    let decoder = qubit_codec_text::Utf16ByteDecoder::new(ByteOrder::BigEndian);
    assert_eq!(ByteOrder::BigEndian, decoder.byte_order());
    assert_eq!(
        DecodeStatus::Complete { value: '😀', consumed: 4 },
        decoder.decode_prefix(&[0xd8, 0x3d, 0xde, 0x00], 0).expect("valid UTF-16BE")
    );
    assert_eq!(
        DecodeStatus::NeedMore { required: 4, available: 2 },
        decoder.decode_prefix(&[0xd8, 0x3d], 0).expect("incomplete")
    );
    assert_eq!(Charset::utf_16be(), TextDecoder::charset(&decoder));
}

#[test]
fn need_more_reports_required_length_and_available_units() {
    let status = Utf8Codec.decode_one(&[0x41, 0xe2, 0x82], 1).expect("incomplete");
    assert_eq!(DecodeStatus::NeedMore { required: 4, available: 2 }, status);
    let status = Utf16U16Codec.decode_one(&[0xd83d], 0).expect("incomplete");
    assert_eq!(DecodeStatus::NeedMore { required: 2, available: 1 }, status);
    let status = Utf32ByteCodec::new(ByteOrder::BigEndian).decode_one(&[0, 1], 0).expect("incomplete");
    assert_eq!(DecodeStatus::NeedMore { required: 4, available: 2 }, status);
}
