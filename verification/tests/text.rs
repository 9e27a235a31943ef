use lspi_lsp::digest::{sha256_hex, to_hex};
use lspi_lsp::pathext::executable_extensions;
use lspi_lsp::text::{decode, is_blank};

#[test]
fn blank_is_nothing_but_white_space() {
    assert!(is_blank(""));
    assert!(is_blank(" \t\r\n"));
    assert!(is_blank("\u{a0}\u{3000}"));
    assert!(!is_blank(" x "));
    assert!(!is_blank("\u{200b}"));
}

#[test]
fn white_space_is_the_unicode_property() {
    let listed = |c: char| {
        matches!(
            c,
            '\u{9}'..='\u{d}'
                | '\u{20}'
                | '\u{85}'
                | '\u{a0}'
                | '\u{1680}'
                | '\u{2000}'..='\u{200a}'
                | '\u{2028}'
                | '\u{2029}'
                | '\u{202f}'
                | '\u{205f}'
                | '\u{3000}'
        )
    };
    for c in '\0'..=char::MAX {
        assert_eq!(is_blank(&c.to_string()), listed(c), "{c:?}");
    }
}

#[test]
fn decodes_utf8_and_nothing_else() {
    assert_eq!(decode("gr\u{fc}n \u{1f600}".as_bytes().to_vec()), Ok("gr\u{fc}n \u{1f600}".to_string()));
    assert_eq!(decode(Vec::new()), Ok(String::new()));
    let error = decode(vec![0x66, 0xff]).unwrap_err();
    assert_eq!(error.as_bytes(), [0x66, 0xff]);
    assert_eq!(error.utf8_error().valid_up_to(), 1);
    // An encoded surrogate and an overlong slash.
    assert!(decode(vec![0xed, 0xa0, 0x80]).is_err());
    assert!(decode(vec![0xc0, 0xaf]).is_err());
}

#[test]
fn hexadecimal_has_two_lower_case_digits_per_byte() {
    assert_eq!(to_hex(&vec![0x00, 0x0f, 0xa0, 0xff, 0x19]), "000fa0ff19");
    assert_eq!(to_hex(&Vec::new()), "");
    let all: Vec<u8> = (0..=255).collect();
    let expected: String = all.iter().map(|byte| format!("{byte:02x}")).collect();
    assert_eq!(to_hex(&all), expected);
}

#[test]
fn sha256_of_known_texts() {
    assert_eq!(
        sha256_hex(b""),
        "e3b0c44298fc1c149afbf4c8996fb92427ae41e4649b934ca495991b7852b855"
    );
    assert_eq!(
        sha256_hex(b"abc"),
        "ba7816bf8f01cfea414140de5dae2223b00361a396177a9cb410ff61f20015ad"
    );
}

#[test]
fn windows_endings_come_from_pathext() {
    let usual = vec!["COM".to_string(), "EXE".to_string(), "BAT".to_string(), "CMD".to_string()];
    assert_eq!(executable_extensions(false, None), usual);
    assert_eq!(executable_extensions(true, None), Vec::<String>::new());
    assert_eq!(
        executable_extensions(false, Some(" .EXE ;; \t;py;..x.y;.".to_string())),
        vec!["EXE".to_string(), "py".to_string(), "x.y".to_string(), String::new()]
    );
    assert_eq!(executable_extensions(false, Some(String::new())), Vec::<String>::new());
}

#[test]
fn windows_endings_agree_with_splitting_and_trimming() {
    let samples = [
        "", ";", "a;b", ".COM;.EXE;.BAT;.CMD", " ; .a;b. ;..;\u{a0}.c\u{a0};", "\u{fc};.\u{df}", "x",
    ];
    for sample in samples {
        let expected: Vec<String> = sample
            .split(';')
            .filter(|piece| !piece.trim().is_empty())
            .map(|piece| piece.trim().trim_start_matches('.').to_string())
            .collect();
        assert_eq!(executable_extensions(false, Some(sample.to_string())), expected);
    }
}
