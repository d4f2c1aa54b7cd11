use qubit_codec_text::{
    AsciiCodec, CharsetConverter, CharsetDecoder, CharsetEncoder, Coder, CoderStatus,
    Latin1Codec, MalformedAction, UnmappableAction, Utf16U16Codec, Utf32U32Codec, Utf8Codec,
};

#[test]
fn converter_doc_example_converts_ascii_bytes_to_utf16() {
    let mut converter = CharsetConverter::new(
        CharsetDecoder::new(Utf8Codec),
        CharsetEncoder::new(Utf16U16Codec),
    );
    let mut output = [0_u16; 2];
    let progress = converter
        .convert("AB".as_bytes(), 0, &mut output, 0)
        .expect("convert bytes to utf-16");
    assert_eq!(2, progress.read());
    assert_eq!(2, progress.written());
    assert_eq!([65, 66], output);
}

#[test]
fn converter_from_codecs_quick_start() {
    let mut converter = CharsetConverter::from_codecs(Utf8Codec, Utf16U16Codec);
    let mut output = [0_u16; 2];
    let progress = converter
        .convert("AB".as_bytes(), 0, &mut output, 0)
        .expect("UTF-8 text converts to UTF-16");
    assert_eq!(CoderStatus::Complete, progress.status());
    assert_eq!(2, progress.written());
    assert_eq!([65, 66], output);
}

#[test]
fn converter_emits_surrogate_pair_for_supplementary_character() {
    let mut converter = CharsetConverter::from_codecs(Utf8Codec, Utf16U16Codec);
    let input = "a😀".as_bytes();
    let mut output = [0_u16; 3];
    let progress = converter.convert(input, 0, &mut output, 0).expect("valid input");
    assert_eq!(5, progress.read());
    assert_eq!(3, progress.written());
    assert_eq!([0x61, 0xd83d, 0xde00], output);
}

#[test]
fn converter_keeps_character_pending_when_output_is_full() {
    let mut converter = CharsetConverter::from_codecs(Utf8Codec, Utf32U32Codec);
    let input = "Aé".as_bytes();
    let mut output = [0_u32; 1];
    let progress = converter.convert(input, 0, &mut output, 0).expect("valid input");
    assert!(matches!(progress.status(), CoderStatus::NeedOutput { output_index: 1, .. }));
    assert_eq!(3, progress.read());
    assert_eq!(1, progress.written());
    assert_eq!([0x41], output);

    let mut rest = [0_u32; 1];
    let flushed = converter.finish(&mut rest, 0).expect("pending character fits");
    assert_eq!(CoderStatus::Complete, flushed.status());
    assert_eq!(0, flushed.read());
    assert_eq!(1, flushed.written());
    assert_eq!([0xe9], rest);

    let again = converter.finish(&mut rest, 0).expect("nothing pending");
    assert_eq!(0, again.written());
}

#[test]
fn converter_writes_pending_character_first_on_next_call() {
    let mut converter = CharsetConverter::from_codecs(Utf8Codec, Utf32U32Codec);
    let mut output = [0_u32; 1];
    converter.convert("Aé".as_bytes(), 0, &mut output, 0).expect("valid input");
    let mut next = [0_u32; 2];
    let progress = converter.convert("B".as_bytes(), 0, &mut next, 0).expect("valid input");
    assert_eq!(CoderStatus::Complete, progress.status());
    assert_eq!(1, progress.read());
    assert_eq!(2, progress.written());
    assert_eq!([0xe9, 0x42], next);
}

#[test]
fn converter_reset_drops_pending_character() {
    let mut converter = CharsetConverter::from_codecs(Utf8Codec, Utf32U32Codec);
    let mut output = [0_u32; 1];
    converter.convert("Aé".as_bytes(), 0, &mut output, 0).expect("valid input");
    converter.reset();
    let mut rest = [0_u32; 1];
    let flushed = converter.finish(&mut rest, 0).expect("nothing pending");
    assert_eq!(0, flushed.written());
    assert_eq!([0], rest);
}

#[test]
fn converter_reports_need_input_for_truncated_source() {
    let mut converter = CharsetConverter::from_codecs(Utf8Codec, Utf16U16Codec);
    let input = [0x41_u8, 0xe2, 0x82];
    let mut output = [0_u16; 4];
    let progress = converter.convert(&input, 0, &mut output, 0).expect("no error");
    assert!(matches!(progress.status(), CoderStatus::NeedInput { input_index: 1, .. }));
    assert_eq!(1, progress.read());
    assert_eq!(1, progress.written());
    assert_eq!(2, progress.available());
}

#[test]
fn converter_replaces_unmappable_character_in_target() {
    let mut converter = CharsetConverter::from_codecs(Latin1Codec, AsciiCodec);
    let input = [0x41_u8, 0xe9, 0x42];
    let mut output = [0_u8; 3];
    let progress = converter.convert(&input, 0, &mut output, 0).expect("replacement");
    assert_eq!(3, progress.written());
    assert_eq!(*b"A?B", output);
}

#[test]
fn converter_reports_decode_and_encode_errors() {
    let mut decoder = CharsetDecoder::new(Utf8Codec);
    decoder.set_malformed_action(MalformedAction::Report);
    let mut converter = CharsetConverter::new(decoder, CharsetEncoder::new(Utf16U16Codec));
    let mut output = [0_u16; 4];
    let error = converter.convert(&[0x41, 0xff], 0, &mut output, 0).unwrap_err();
    assert!(matches!(error, qubit_codec_text::CharsetConvertError::Decode(e) if e.index() == 1));

    let mut encoder = CharsetEncoder::new(AsciiCodec);
    encoder.set_unmappable_action(UnmappableAction::Report);
    let mut converter = CharsetConverter::new(CharsetDecoder::new(Latin1Codec), encoder);
    let mut output = [0_u8; 4];
    let error = converter.convert(&[0x41, 0xe9], 0, &mut output, 0).unwrap_err();
    assert!(matches!(error, qubit_codec_text::CharsetConvertError::Encode(e) if e.value() == Some(0xe9)));
}

#[test]
fn converter_max_output_len_uses_target_units() {
    let converter = CharsetConverter::from_codecs(Utf16U16Codec, Utf8Codec);
    assert_eq!(Some(12), converter.max_output_len(3));
    assert_eq!(None, converter.max_output_len(usize::MAX));
}

#[test]
fn converting_equals_decoding_then_encoding() {
    let input = [0x68_u8, 0xe9, 0x6c, 0x6c, 0xf6, 0x21];
    let mut converter = CharsetConverter::from_codecs(Latin1Codec, Utf8Codec);
    let mut converted = [0_u8; 12];
    let progress = converter.convert(&input, 0, &mut converted, 0).expect("converts");
    assert_eq!(CoderStatus::Complete, progress.status());
    assert_eq!(6, progress.read());

    let mut decoder = CharsetDecoder::new(Latin1Codec);
    let mut chars = ['\0'; 6];
    let decoded = decoder.convert(&input, 0, &mut chars, 0).expect("decodes");
    assert_eq!(6, decoded.written());
    let mut encoder = CharsetEncoder::new(Utf8Codec);
    let mut encoded = [0_u8; 12];
    let written = encoder.convert(&chars, 0, &mut encoded, 0).expect("encodes").written();
    assert_eq!(written, progress.written());
    assert_eq!(encoded, converted);
    assert_eq!("héllö!".as_bytes(), &converted[..written]);
}

#[test]
fn coders_compare_by_configuration() {
    let mut encoder = CharsetEncoder::new(Utf8Codec);
    assert!(encoder == CharsetEncoder::new(Utf8Codec));
    encoder.set_unmappable_action(UnmappableAction::Ignore);
    assert!(encoder != CharsetEncoder::new(Utf8Codec));
    let a = CharsetConverter::from_codecs(Utf8Codec, Utf16U16Codec);
    let b = CharsetConverter::from_codecs(Utf8Codec, Utf16U16Codec);
    assert!(a == b);
    let mut c = b.clone();
    let mut output = [0_u16; 1];
    c.convert("Aé".as_bytes(), 0, &mut output, 0).expect("valid");
    assert!(a != c);
}

#[test]
fn converter_loses_no_character_when_output_fills() {
    let mut converter = CharsetConverter::from_codecs(Latin1Codec, Utf8Codec);
    let mut output = [0_u8; 1];
    let first = converter.convert(b"ABC", 0, &mut output, 0).expect("no error");
    assert!(matches!(first.status(), CoderStatus::NeedOutput { .. }));
    assert_eq!(2, first.read());
    assert_eq!(1, first.written());
    assert_eq!([0x41], output);

    let mut rest = [0_u8; 2];
    let second = converter.convert(b"ABC", first.read(), &mut rest, 0).expect("no error");
    assert_eq!(CoderStatus::Complete, second.status());
    assert_eq!(1, second.read());
    assert_eq!(2, second.written());
    assert_eq!(*b"BC", rest);
    let flushed = converter.finish(&mut rest, 2).expect("nothing pending");
    assert_eq!(0, flushed.written());
}

#[test]
fn converter_resumes_into_larger_output_like_one_call() {
    let input = "aé中".as_bytes();
    let mut converter = CharsetConverter::from_codecs(Utf8Codec, Utf16U16Codec);
    let mut staged = [0_u16; 3];
    let first = converter.convert(input, 0, &mut staged[..1], 0).expect("no error");
    assert!(matches!(first.status(), CoderStatus::NeedOutput { output_index: 1, .. }));
    let second = converter
        .convert(input, first.read(), &mut staged, first.written())
        .expect("no error");
    assert_eq!(CoderStatus::Complete, second.status());

    let mut once = CharsetConverter::from_codecs(Utf8Codec, Utf16U16Codec);
    let mut whole = [0_u16; 3];
    let all = once.convert(input, 0, &mut whole, 0).expect("no error");
    assert_eq!(all.read(), first.read() + second.read());
    assert_eq!(all.written(), first.written() + second.written());
    assert_eq!(whole, staged);
    assert_eq!([0x61, 0xe9, 0x4e2d], whole);
}

#[test]
fn from_codecs_uses_default_decoder_and_encoder() {
    let converter = CharsetConverter::from_codecs(Utf8Codec, Utf16U16Codec);
    assert!(converter.decoder() == &CharsetDecoder::new(Utf8Codec));
    assert!(converter.encoder() == &CharsetEncoder::new(Utf16U16Codec));
}
