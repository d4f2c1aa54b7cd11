use qubit_codec_text::{
    AsciiCodec, Charset, CharsetDecodeErrorKind, CharsetDecoder, CharsetEncodeErrorKind,
    CharsetEncoder, Coder, CoderStatus, Latin1Codec, MalformedAction, UnmappableAction,
    Utf16ByteCodec, Utf16U16Codec, Utf8Codec, ByteOrder,
};

fn decode_utf8(decoder: &mut CharsetDecoder<Utf8Codec>, input: &[u8]) -> (usize, Vec<char>) {
    let mut output = vec!['\0'; 8];
    let progress = decoder.convert(input, 0, &mut output, 0).expect("decodes");
    output.truncate(progress.written());
    (progress.read(), output)
}

#[test]
fn decoder_replaces_malformed_bytes_by_default() {
    let mut decoder = CharsetDecoder::new(Utf8Codec);
    assert_eq!(MalformedAction::Replace, decoder.malformed_action());
    assert_eq!('\u{fffd}', decoder.replacement());
    let (read, chars) = decode_utf8(&mut decoder, &[0x41, 0xff, 0x42]);
    assert_eq!(3, read);
    assert_eq!(vec!['A', '\u{fffd}', 'B'], chars);
}

#[test]
fn decoder_ignores_malformed_bytes() {
    let mut decoder = CharsetDecoder::new(Utf8Codec);
    decoder.set_malformed_action(MalformedAction::Ignore);
    let (read, chars) = decode_utf8(&mut decoder, &[0x41, 0xff, 0x42]);
    assert_eq!(3, read);
    assert_eq!(vec!['A', 'B'], chars);
}

#[test]
fn decoder_custom_replacement() {
    let mut decoder = CharsetDecoder::new(Utf8Codec).with_replacement('?');
    let (_, chars) = decode_utf8(&mut decoder, &[0xff, 0x41]);
    assert_eq!('?', chars[0]);
    assert_eq!('A', *chars.last().unwrap());
}

#[test]
fn decoder_reports_malformed_bytes() {
    let mut decoder = CharsetDecoder::new(Utf8Codec);
    decoder.set_malformed_action(MalformedAction::Report);
    let mut output = ['\0'; 4];
    let error = decoder.convert(&[0x41, 0xff, 0x42], 0, &mut output, 0).unwrap_err();
    assert_eq!(1, error.index());
    assert_eq!(Charset::utf_8(), error.charset());
    assert!(matches!(error.kind(), CharsetDecodeErrorKind::MalformedSequence { .. }));
}

#[test]
fn decoder_asks_for_more_input_and_more_output() {
    let mut decoder = CharsetDecoder::new(Utf8Codec);
    let mut output = ['\0'; 4];
    let progress = decoder.convert(&[0x41, 0xe2, 0x82], 0, &mut output, 0).expect("no error");
    assert_eq!(
        CoderStatus::NeedInput { input_index: 1, required: 3, available: 2 },
        progress.status()
    );
    assert_eq!(1, progress.read());
    assert_eq!(1, progress.written());

    let mut small = ['\0'; 1];
    let progress = decoder.convert(b"AB", 0, &mut small, 0).expect("no error");
    assert_eq!(
        CoderStatus::NeedOutput { output_index: 1, required: 1, available: 0 },
        progress.status()
    );
    assert_eq!(1, progress.read());
    assert_eq!(['A'], small);
}

#[test]
fn decoder_rejects_input_index_past_end() {
    let mut decoder = CharsetDecoder::new(Utf8Codec);
    let mut output = ['\0'; 1];
    let error = decoder.convert(b"A", 2, &mut output, 0).unwrap_err();
    assert_eq!(2, error.index());
}

#[test]
fn decoder_decodes_from_absolute_indices() {
    let mut decoder = CharsetDecoder::new(Latin1Codec);
    let mut output = ['\0'; 4];
    let progress = decoder.convert(&[0x41, 0xe9, 0xff], 1, &mut output, 2).expect("decodes");
    assert_eq!(2, progress.read());
    assert_eq!(['\0', '\0', 'é', 'ÿ'], output);
    assert_eq!(Some(7), decoder.max_output_len(7));
}

#[test]
fn encoder_default_replacement_falls_back_to_question_mark() {
    let encoder = CharsetEncoder::new(AsciiCodec);
    assert_eq!('?', encoder.replacement());
    assert_eq!(UnmappableAction::Replace, encoder.unmappable_action());
    let utf8 = CharsetEncoder::new(Utf8Codec);
    assert_eq!('\u{fffd}', utf8.replacement());
}

#[test]
fn encoder_applies_unmappable_policies() {
    let input = ['A', 'é', 'B'];
    let mut encoder = CharsetEncoder::new(AsciiCodec);
    let mut output = [0_u8; 3];
    let progress = encoder.convert(&input, 0, &mut output, 0).expect("replaces");
    assert_eq!(3, progress.written());
    assert_eq!(*b"A?B", output);

    encoder.set_unmappable_action(UnmappableAction::Ignore);
    let mut output = [0_u8; 3];
    let progress = encoder.convert(&input, 0, &mut output, 0).expect("ignores");
    assert_eq!(3, progress.read());
    assert_eq!(2, progress.written());
    assert_eq!([0x41, 0x42, 0], output);

    encoder.set_unmappable_action(UnmappableAction::Report);
    let error = encoder.convert(&input, 0, &mut output, 0).unwrap_err();
    assert_eq!(1, error.index());
    assert_eq!(CharsetEncodeErrorKind::UnmappableCharacter { value: 0xe9 }, error.kind());
}

#[test]
fn encoder_replacement_must_be_encodable() {
    let encoder = CharsetEncoder::new(AsciiCodec);
    assert!(encoder.clone().with_replacement('é').is_err());
    let encoder = encoder.with_replacement('*').expect("ASCII replacement");
    assert_eq!('*', encoder.replacement());
    let mut encoder = encoder;
    let error = encoder.set_replacement('€').unwrap_err();
    assert!(matches!(error.kind(), CharsetEncodeErrorKind::UnmappableCharacter { .. }));
    assert_eq!('*', encoder.replacement());
    let mut output = [0_u8; 1];
    encoder.convert(&['é'], 0, &mut output, 0).expect("replaces");
    assert_eq!(*b"*", output);
}

#[test]
fn encoder_asks_for_more_output() {
    let mut encoder = CharsetEncoder::new(Utf8Codec);
    let mut output = [0_u8; 2];
    let progress = encoder.convert(&['A', 'é'], 0, &mut output, 0).expect("no error");
    assert!(matches!(progress.status(), CoderStatus::NeedOutput { output_index: 1, .. }));
    assert_eq!(1, progress.read());
    assert_eq!(1, progress.written());
    assert_eq!([0x41, 0], output);
}

#[test]
fn encoder_rejects_input_index_past_end() {
    let mut encoder = CharsetEncoder::new(Utf16U16Codec);
    let mut output = [0_u16; 2];
    let error = encoder.convert(&['A'], 3, &mut output, 0).unwrap_err();
    assert_eq!(CharsetEncodeErrorKind::InvalidInputIndex { input_len: 1 }, error.kind());
    assert_eq!(3, error.index());
}

#[test]
fn encoder_writes_byte_order_specific_utf16() {
    let mut encoder = CharsetEncoder::new(Utf16ByteCodec::new(ByteOrder::BigEndian));
    let mut output = [0_u8; 6];
    let progress = encoder.convert(&['A', '😀'], 0, &mut output, 0).expect("fits");
    assert_eq!(6, progress.written());
    assert_eq!([0x00, 0x41, 0xd8, 0x3d, 0xde, 0x00], output);
    assert_eq!(Some(8), encoder.max_output_len(2));
}

#[test]
fn encoded_text_decodes_back_under_report_policy() {
    let text = ['h', 'é', '中', '😀'];
    let mut encoder = CharsetEncoder::new(Utf8Codec);
    encoder.set_unmappable_action(UnmappableAction::Report);
    let mut units = [0_u8; 16];
    let progress = encoder.convert(&text, 0, &mut units, 0).expect("encodes");
    assert_eq!(4, progress.read());
    let written = progress.written();
    assert_eq!("hé中😀".as_bytes(), &units[..written]);

    let mut decoder = CharsetDecoder::new(Utf8Codec);
    let mut chars = ['\0'; 4];
    let back = decoder.convert(&units[..written], 0, &mut chars, 0).expect("decodes");
    assert_eq!(CoderStatus::Complete, back.status());
    assert_eq!(written, back.read());
    assert_eq!(text, chars);
}

#[test]
fn decoder_resumes_where_it_asked_for_input() {
    let mut decoder = CharsetDecoder::new(Utf8Codec);
    let mut output = ['\0'; 4];
    let first = decoder.convert(&[0x41, 0xe2, 0x82], 0, &mut output, 0).expect("no error");
    assert!(matches!(first.status(), CoderStatus::NeedInput { input_index: 1, .. }));
    let whole = [0x41_u8, 0xe2, 0x82, 0xac, 0x42];
    let second = decoder
        .convert(&whole, first.read(), &mut output, first.written())
        .expect("no error");
    assert_eq!(4, second.read());
    assert_eq!(2, second.written());
    assert_eq!(['A', '€', 'B', '\0'], output);

    let mut at_once = ['\0'; 4];
    let progress = decoder.convert(&whole, 0, &mut at_once, 0).expect("no error");
    assert_eq!(first.read() + second.read(), progress.read());
    assert_eq!(first.written() + second.written(), progress.written());
    assert_eq!(output, at_once);
}

#[test]
fn encoder_resumes_where_output_ran_out() {
    let text = ['a', 'é', '中'];
    let mut encoder = CharsetEncoder::new(Utf8Codec);
    let mut small = [0_u8; 6];
    let first = encoder.convert(&text, 0, &mut small[..2], 0).expect("no error");
    assert!(matches!(first.status(), CoderStatus::NeedOutput { output_index: 1, .. }));
    assert_eq!(1, first.read());
    let second = encoder
        .convert(&text, first.read(), &mut small, first.written())
        .expect("no error");
    assert_eq!(CoderStatus::Complete, second.status());
    assert_eq!(2, second.read());
    assert_eq!(5, second.written());

    let mut large = [0_u8; 6];
    let at_once = encoder.convert(&text, 0, &mut large, 0).expect("no error");
    assert_eq!(first.read() + second.read(), at_once.read());
    assert_eq!(first.written() + second.written(), at_once.written());
    assert_eq!(large, small);
    assert_eq!("aé中".as_bytes(), &large);
}

#[test]
fn encoder_writes_at_most_max_units_per_character_read() {
    let text = ['a', 'é', '中', '😀', 'z'];
    let mut encoder = CharsetEncoder::new(Utf8Codec);
    let mut output = [0_u8; 16];
    let progress = encoder.convert(&text, 0, &mut output, 0).expect("encodes");
    assert_eq!(11, progress.written());
    assert!(progress.written() <= progress.read() * 4);
    assert_eq!(encoder.max_output_len(text.len()), Some(20));
    let mut ascii = CharsetEncoder::new(AsciiCodec);
    let mut out = [0_u8; 5];
    let progress = ascii.convert(&text, 0, &mut out, 0).expect("replaces");
    assert!(progress.written() <= progress.read());
}
