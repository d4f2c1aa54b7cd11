use qubit_codec_text::{
    ByteOrder, Charset, CharsetDecodeError, CharsetDecodeErrorKind, CharsetEncodeError,
    CharsetEncodeErrorKind, CoderProgress, CoderStatus, TextEncoding, Unicode, UnicodeBom, Utf16,
    Utf8,
};

#[test]
fn custom_charset_matches_aliases_case_insensitively() {
    let gbk = Charset::new("gbk", "GBK", &["cp936"]);
    assert_eq!("gbk", gbk.id());
    assert_eq!("GBK", gbk.name());
    assert_eq!(&["cp936"], gbk.aliases());
    assert!(gbk.matches_label("CP936"));
    assert!(gbk.matches_label("Gbk"));
    assert!(!gbk.matches_label("gb2312"));
}

#[test]
fn charset_equality_is_by_id() {
    assert_eq!(Charset::new("utf-8", "Other", &[]), Charset::utf_8());
    assert_ne!(Charset::utf_16(), Charset::utf_16le());
    assert!(Charset::utf_8().matches_label("UTF8") || Charset::utf_8().matches_label("utf-8"));
}

#[test]
fn charset_byte_orders() {
    assert_eq!(Some(ByteOrder::LittleEndian), Charset::utf_16le().byte_order());
    assert_eq!(Some(ByteOrder::BigEndian), Charset::utf_32be().byte_order());
    assert_eq!(None, Charset::utf_8().byte_order());
    assert_eq!(Charset::utf_16be(), Charset::from_utf16_byte_order(ByteOrder::BigEndian));
    assert_eq!(Charset::utf_32le(), Charset::from_utf32_byte_order(ByteOrder::LittleEndian));
}

#[test]
fn text_encoding_labels() {
    let utf8 = TextEncoding::utf_8();
    assert!(utf8.matches_label(utf8.id()));
    assert!(utf8.matches_label(utf8.name()));
    let custom = TextEncoding::new("x-test", "X-Test", &["alias"]);
    assert!(custom.matches_label("ALIAS"));
    assert!(!custom.matches_label("other"));
}

#[test]
fn unicode_bom_detection() {
    assert_eq!(Some(UnicodeBom::Utf32LittleEndian), UnicodeBom::detect(&[0xff, 0xfe, 0, 0]));
    assert_eq!(Some(UnicodeBom::Utf16LittleEndian), UnicodeBom::detect(&[0xff, 0xfe, 0x41, 0]));
    assert_eq!(Some(UnicodeBom::Utf8), UnicodeBom::detect(&[0xef, 0xbb, 0xbf, 0x41]));
    assert_eq!(Some(UnicodeBom::Utf32BigEndian), UnicodeBom::detect(&[0, 0, 0xfe, 0xff]));
    assert_eq!(Some(UnicodeBom::Utf16BigEndian), UnicodeBom::detect(&[0xfe, 0xff]));
    assert_eq!(None, UnicodeBom::detect(&[0x41]));
    for bom in [
        UnicodeBom::Utf8,
        UnicodeBom::Utf16BigEndian,
        UnicodeBom::Utf16LittleEndian,
        UnicodeBom::Utf32BigEndian,
        UnicodeBom::Utf32LittleEndian,
    ] {
        assert_eq!(Some(bom), UnicodeBom::detect(bom.bytes()));
        assert_eq!(bom.bytes().len(), bom.byte_len());
    }
    assert_eq!(Charset::utf_16le(), UnicodeBom::Utf16LittleEndian.charset());
    assert_eq!(Some(ByteOrder::BigEndian), UnicodeBom::Utf32BigEndian.byte_order());
    assert_eq!(None, UnicodeBom::Utf8.byte_order());
}

#[test]
fn byte_order_round_trips() {
    assert_eq!([0x12, 0x34], ByteOrder::BigEndian.u16_bytes(0x1234));
    assert_eq!([0x34, 0x12], ByteOrder::LittleEndian.u16_bytes(0x1234));
    assert_eq!(0x1234, ByteOrder::LittleEndian.read_u16(&[0x34, 0x12]));
    assert_eq!([0x01, 0x02, 0x03, 0x04], ByteOrder::BigEndian.u32_bytes(0x0102_0304));
    assert_eq!(0x0403_0201, ByteOrder::LittleEndian.read_u32(&[1, 2, 3, 4]));
    let bytes = ByteOrder::LittleEndian.u32_bytes(0xdead_beef);
    assert_eq!(0xdead_beef, ByteOrder::LittleEndian.read_u32(&bytes));
}

#[test]
fn utf16_surrogate_helpers() {
    assert_eq!(Some(0xd83d), Utf16::high_surrogate(0x1f600));
    assert_eq!(Some(0xde00), Utf16::low_surrogate(0x1f600));
    assert_eq!(Some(0x1f600), Utf16::compose_pair(0xd83d, 0xde00));
    assert_eq!(None, Utf16::compose_pair(0xde00, 0xd83d));
    assert_eq!(None, Utf16::high_surrogate(0x41));
    assert_eq!(2, Utf16::unit_len('😀'));
    assert_eq!(1, Utf16::unit_len('A'));
    assert_eq!(None, Utf16::unit_len_code_point(0xd800));
    assert!(Utf16::is_surrogate_pair(0xd800, 0xdc00));
    assert_eq!(Some(ByteOrder::LittleEndian), Utf16::detect_bom(&[0xff, 0xfe]));
    assert_eq!(None, Utf16::detect_bom(&[0x00]));
}

#[test]
fn unicode_and_utf8_predicates() {
    assert!(Unicode::is_scalar_value(0x10ffff));
    assert!(!Unicode::is_scalar_value(0xdfff));
    assert!(!Unicode::is_code_point(0x11_0000));
    assert!(Unicode::is_noncharacter(0xfdd0));
    assert!(Unicode::is_noncharacter(0x1fffe));
    assert!(!Unicode::is_noncharacter(0xfffd));
    assert_eq!(Some(1), Unicode::plane(0x1f600));
    assert_eq!(None, Unicode::plane(0x11_0000));
    assert_eq!(Some('é'), Unicode::to_char(0xe9));
    assert_eq!(None, Unicode::to_char(0xd800));
    assert_eq!(3, Utf8::byte_len('中'));
    assert_eq!(Some(4), Utf8::byte_len_from_leading_byte(0xf0));
    assert_eq!(None, Utf8::byte_len_from_leading_byte(0x80));
    assert!(Utf8::is_continuation_byte(0xbf));
}

#[test]
fn error_accessors_and_offsets() {
    let kind = CharsetDecodeErrorKind::IncompleteSequence { required: 3, available: 1 };
    let error = CharsetDecodeError::new(Charset::utf_8(), kind, 2);
    assert_eq!(Some(3), error.required());
    assert_eq!(Some(1), error.available());
    assert_eq!(None, error.value());
    assert_eq!(12, error.offset_by(10).index());
    let error = CharsetDecodeError::invalid_code_point(Charset::utf_32(), 0, 0xd800);
    assert_eq!(Some(0xd800), error.value());

    let error = CharsetEncodeError::buffer_too_small(Charset::utf_8(), 4);
    assert!(matches!(error.kind(), CharsetEncodeErrorKind::BufferTooSmall { .. }));
    assert_eq!(Some(5), error.required());
    assert_eq!(7, error.offset_by(3).index());
    let error = CharsetEncodeError::unmappable_character(Charset::ascii(), 1, 0xe9);
    assert_eq!(Some(0xe9), error.value());
}

#[test]
fn coder_progress_accessors() {
    let progress = CoderProgress::need_input(3, 2, 7, 4, 1);
    assert_eq!(CoderStatus::NeedInput { input_index: 7, required: 4, available: 1 }, progress.status());
    assert_eq!(Some(7), progress.index());
    assert_eq!(4, progress.required());
    assert_eq!(1, progress.available());
    let done = CoderProgress::complete(5, 6);
    assert_eq!(None, done.index());
    assert_eq!(0, done.required());
    assert_eq!((5, 6), (done.read(), done.written()));
}

#[test]
fn builtin_charsets_match_their_own_labels() {
    for charset in [
        Charset::ascii(),
        Charset::iso_8859_1(),
        Charset::utf_8(),
        Charset::utf_16(),
        Charset::utf_16le(),
        Charset::utf_16be(),
        Charset::utf_32(),
        Charset::utf_32le(),
        Charset::utf_32be(),
    ] {
        assert!(charset.matches_label(charset.id()));
        assert!(charset.matches_label(charset.name()));
        for alias in charset.aliases() {
            assert!(charset.matches_label(alias));
        }
    }
}

#[test]
fn predefined_labels_and_byte_orders() {
    assert_eq!("utf-16le", Charset::utf_16le().id());
    assert_eq!("UTF-16BE", Charset::utf_16be().name());
    assert!(Charset::utf_16le().matches_label("UTF_16_LE"));
    assert!(!Charset::utf_16().matches_label("utf-16le"));
    for order in [ByteOrder::BigEndian, ByteOrder::LittleEndian] {
        assert_eq!(Some(order), Charset::from_utf16_byte_order(order).byte_order());
        assert_eq!(Some(order), Charset::from_utf32_byte_order(order).byte_order());
    }
    for charset in [Charset::ascii(), Charset::iso_8859_1(), Charset::utf_8(), Charset::utf_16(), Charset::utf_32()] {
        assert_eq!(None, charset.byte_order());
    }
    for bom in [
        UnicodeBom::Utf8,
        UnicodeBom::Utf16BigEndian,
        UnicodeBom::Utf16LittleEndian,
        UnicodeBom::Utf32BigEndian,
        UnicodeBom::Utf32LittleEndian,
    ] {
        assert_eq!(bom.byte_order(), bom.charset().byte_order());
    }
}

#[test]
fn offset_by_zero_gives_the_error_back() {
    let error = CharsetDecodeError::invalid_code_point(Charset::utf_32(), 3, 0xd800);
    assert_eq!(error, error.offset_by(0));
    assert_eq!(error.offset_by(2).offset_by(5), error.offset_by(7));
    let error = CharsetEncodeError::unmappable_character(Charset::ascii(), 1, 0xe9);
    assert_eq!(error, error.offset_by(0));
}
