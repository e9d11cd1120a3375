use show_bytes::{show_bytes, Printer, QuoteStyle};

#[test]
fn empty_input_no_quotes() {
    let p = Printer::new(QuoteStyle::NoQuotes);
    assert_eq!(p.into_string(&[]), "");
}

#[test]
fn empty_input_double() {
    let p = Printer::new(QuoteStyle::Double);
    assert_eq!(p.into_string(&[]), "\"\"");
}

#[test]
fn empty_input_single() {
    let p = Printer::new(QuoteStyle::Single);
    assert_eq!(p.into_string(&[]), "''");
}

#[test]
fn hello_nul_ff_double() {
    let bytes: [u8; 7] = [72, 101, 108, 108, 111, 0, 255];
    let p = Printer::new(QuoteStyle::Double);
    assert_eq!(p.into_string(&bytes), "\"Hello\\x00\\xff\"");
}

#[test]
fn single_quote_byte() {
    let bytes: [u8; 1] = [39];
    assert_eq!(Printer::new(QuoteStyle::Single).into_string(&bytes), "'\\''");
    assert_eq!(Printer::new(QuoteStyle::Double).into_string(&bytes), "\"'\"");
}

#[test]
fn double_quote_byte() {
    let bytes: [u8; 1] = [34];
    assert_eq!(Printer::new(QuoteStyle::Double).into_string(&bytes), "\"\\\"\"");
    assert_eq!(Printer::new(QuoteStyle::Single).into_string(&bytes), "'\"'");
    assert_eq!(Printer::new(QuoteStyle::NoQuotes).into_string(&bytes), "\"");
}

#[test]
fn backslash_byte_no_quotes() {
    let bytes: [u8; 1] = [92];
    assert_eq!(Printer::new(QuoteStyle::NoQuotes).into_string(&bytes), "\\\\");
}

#[test]
fn backslash_escaped_under_every_style() {
    let bytes: [u8; 1] = [92];
    assert_eq!(Printer::new(QuoteStyle::Single).into_string(&bytes), "'\\\\'");
    assert_eq!(Printer::new(QuoteStyle::Double).into_string(&bytes), "\"\\\\\"");
}

#[test]
fn graphic_bytes_pass_through_unchanged() {
    for b in 0x21u8..=0x7e {
        if b == b'\\' {
            continue;
        }
        let expected = (b as char).to_string();
        assert_eq!(
            Printer::new(QuoteStyle::NoQuotes).into_string(&[b]),
            expected
        );
        if b != b'\'' {
            assert_eq!(
                Printer::new(QuoteStyle::Single).into_string(&[b]),
                format!("'{}'", b as char)
            );
        }
        if b != b'"' {
            assert_eq!(
                Printer::new(QuoteStyle::Double).into_string(&[b]),
                format!("\"{}\"", b as char)
            );
        }
    }
}

#[test]
fn non_graphic_bytes_hex_escaped() {
    let p = Printer::new(QuoteStyle::NoQuotes);
    assert_eq!(p.into_string(&[0x00]), "\\x00");
    assert_eq!(p.into_string(&[0x20]), "\\x20");
    assert_eq!(p.into_string(&[0x7f]), "\\x7f");
    assert_eq!(p.into_string(&[0xff]), "\\xff");
    for b in 0u8..=0xff {
        if 0x21 <= b && b <= 0x7e {
            continue;
        }
        assert_eq!(p.into_string(&[b]), format!("\\x{:02x}", b));
    }
}

#[test]
fn double_wraps_unquoted_rendering() {
    let bytes: [u8; 5] = [34, 72, 105, 34, 0];
    let plain = Printer::new(QuoteStyle::NoQuotes).into_string(&bytes);
    assert_eq!(plain, "\"Hi\"\\x00");
    let mut wrapped = String::from("\"");
    for c in plain.chars() {
        if c == '"' {
            wrapped.push('\\');
        }
        wrapped.push(c);
    }
    wrapped.push('"');
    assert_eq!(Printer::new(QuoteStyle::Double).into_string(&bytes), wrapped);
}

#[test]
fn same_style_same_output() {
    let bytes: [u8; 6] = [0, 39, 34, 92, 65, 200];
    for style in [QuoteStyle::NoQuotes, QuoteStyle::Single, QuoteStyle::Double] {
        let p1 = Printer::new(style);
        let p2 = Printer::new(style);
        let first = p1.into_string(&bytes);
        assert_eq!(p2.into_string(&bytes), first);
        assert_eq!(p1.into_string(&bytes), first);
        assert_eq!(p2.into_string(&bytes), first);
    }
}

#[test]
fn write_to_appends_to_existing_content() {
    let mut out = String::from("payload: ");
    Printer::new(QuoteStyle::NoQuotes).write_to(&[65, 10], &mut out);
    assert_eq!(out, "payload: A\\x0a");
}

#[test]
fn write_to_twice_concatenates() {
    let mut out = String::new();
    let p = Printer::new(QuoteStyle::Single);
    p.write_to(&[65], &mut out);
    p.write_to(&[66], &mut out);
    assert_eq!(out, "'A''B'");
}

#[test]
fn default_style_is_no_quotes() {
    assert_eq!(QuoteStyle::default(), QuoteStyle::NoQuotes);
}

#[test]
fn default_printer_does_not_quote() {
    let bytes: [u8; 2] = [72, 0];
    assert_eq!(Printer::default().into_string(&bytes), "H\\x00");
    assert_eq!(
        Printer::default().into_string(&bytes),
        Printer::new(QuoteStyle::NoQuotes).into_string(&bytes)
    );
}

#[test]
fn show_bytes_uses_double_quoting() {
    let bytes: [u8; 7] = [72, 101, 108, 108, 111, 0, 255];
    assert_eq!(show_bytes(&bytes), "\"Hello\\x00\\xff\"");
    assert_eq!(
        show_bytes(&bytes),
        Printer::new(QuoteStyle::Double).into_string(&bytes)
    );
}

#[test]
fn mixed_escapes_in_order() {
    let bytes: [u8; 8] = [39, 34, 92, 32, 33, 126, 127, 128];
    assert_eq!(
        Printer::new(QuoteStyle::NoQuotes).into_string(&bytes),
        "'\"\\\\\\x20!~\\x7f\\x80"
    );
    assert_eq!(
        Printer::new(QuoteStyle::Single).into_string(&bytes),
        "'\\'\"\\\\\\x20!~\\x7f\\x80'"
    );
    assert_eq!(
        Printer::new(QuoteStyle::Double).into_string(&bytes),
        "\"'\\\"\\\\\\x20!~\\x7f\\x80\""
    );
}
