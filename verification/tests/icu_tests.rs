use std::cmp::Ordering;

use edit::icu::{apperr_format, compare_strings, fold_case, get_available_encodings, init, Converter};

#[test]
fn encodings_are_the_two_utf8_flavors() {
    let e = get_available_encodings();
    assert_eq!(e.preferred.len(), 2);
    assert_eq!(e.all.len(), 2);
    assert_eq!(e.preferred[0].label, "UTF-8");
    assert_eq!(e.preferred[0].canonical, "UTF-8");
    assert_eq!(e.preferred[1].label, "UTF-8 BOM");
    assert_eq!(e.all[1].canonical, "UTF-8 BOM");
}

#[test]
fn init_succeeds() {
    assert!(init().is_ok());
}

#[test]
fn apperr_format_pads_to_six_hex_digits() {
    assert_eq!(apperr_format(16), "ICU Error (Stub): 0x000010");
    assert_eq!(apperr_format(0), "ICU Error (Stub): 0x000000");
    assert_eq!(apperr_format(0xdeadbeef), "ICU Error (Stub): 0xdeadbeef");
}

#[test]
fn converter_accepts_only_utf8() {
    assert!(Converter::new("UTF-8", "UTF-8").is_ok());
    assert!(Converter::new("UTF-8 BOM", "UTF-8").is_ok());
    assert!(Converter::new("UTF-8", "UTF-8 BOM").is_ok());
    let err = match Converter::new("latin1", "UTF-8") {
        Ok(_) => panic!("latin1 must be rejected"),
        Err(e) => e,
    };
    assert!(err.icu);
    assert_eq!(err.code, 16);
    assert!(Converter::new("UTF-8", "utf-8").is_err());
}

#[test]
fn converter_copies_what_fits() {
    let mut c = Converter::new("UTF-8", "UTF-8").unwrap();
    let input = [1u8, 2, 3];
    let mut output = vec![0u8; 2];
    let (read, written) = c.convert(&input, &mut output).unwrap();
    assert_eq!((read, written), (2, 2));
    assert_eq!(output, vec![1u8, 2]);

    let mut output2 = vec![9u8; 5];
    let (read2, written2) = c.convert(&input, &mut output2).unwrap();
    assert_eq!((read2, written2), (3, 3));
    assert_eq!(output2, vec![1u8, 2, 3, 9, 9]);
}

#[test]
fn compare_strings_is_ordinal() {
    assert_eq!(compare_strings(b"abc", b"abc"), Ordering::Equal);
    assert_eq!(compare_strings(b"abc", b"abd"), Ordering::Less);
    assert_eq!(compare_strings(b"abd", b"abc"), Ordering::Greater);
    assert_eq!(compare_strings(b"ab", b"abc"), Ordering::Less);
    assert_eq!(compare_strings(b"abc", b"ab"), Ordering::Greater);
    assert_eq!(compare_strings(b"", b""), Ordering::Equal);
    assert_eq!(compare_strings(b"", b"a"), Ordering::Less);
}

#[test]
fn fold_case_lowercases() {
    assert_eq!(fold_case("AbC"), "abc");
    assert_eq!(fold_case(""), "");
    assert_eq!(fold_case("Grüße"), "grüße");
}
