use real_c_string::{
    real_c_string, real_c_wstring, transform, unsupported_characters, CStringArtifact,
    Diagnostic, TransformType,
};

const HELLO_NARROW: [i8; 13] = [72, 101, 108, 108, 111, 32, 119, 111, 114, 108, 100, 33, 0];
const HELLO_WIDE: [i16; 13] = [72, 101, 108, 108, 111, 32, 119, 111, 114, 108, 100, 33, 0];

#[test]
fn empty_input_narrow_is_terminator_only() {
    assert_eq!(real_c_string("").unwrap(), vec![0i8]);
}

#[test]
fn empty_input_wide_is_terminator_only() {
    assert_eq!(real_c_wstring("").unwrap(), vec![0i16]);
}

#[test]
fn empty_input_through_transform() {
    for t in [TransformType::CString, TransformType::CWString] {
        let a = transform("", t).unwrap();
        assert_eq!(a.len(), 1);
        assert_eq!(a.unit(0), 0);
        assert_eq!(a.transform_type(), t);
    }
}

#[test]
fn hello_world_narrow() {
    let units = real_c_string("Hello world!").unwrap();
    assert_eq!(units.len(), 13);
    assert_eq!(units, HELLO_NARROW.to_vec());
}

#[test]
fn hello_world_wide() {
    let units = real_c_wstring("Hello world!").unwrap();
    assert_eq!(units.len(), 13);
    assert_eq!(units, HELLO_WIDE.to_vec());
}

#[test]
fn cyrillic_narrow_reports_every_character() {
    let diagnostics = real_c_string("Привет").unwrap_err();
    assert_eq!(diagnostics.len(), 6);
    let expected: Vec<char> = "Привет".chars().collect();
    for (i, d) in diagnostics.iter().enumerate() {
        assert_eq!(d.offset, i);
        assert_eq!(d.character, expected[i]);
        assert!(d.character as u32 > 0xff);
    }
}

#[test]
fn cyrillic_wide_keeps_scalar_values() {
    let units = real_c_wstring("Привет").unwrap();
    assert_eq!(units, vec![1055i16, 1088, 1080, 1074, 1077, 1090, 0]);
}

#[test]
fn mixed_wide_string() {
    let units = real_c_wstring("Привет world!").unwrap();
    assert_eq!(
        units,
        vec![1055i16, 1088, 1080, 1074, 1077, 1090, 32, 119, 111, 114, 108, 100, 33, 0]
    );
}

#[test]
fn mixed_narrow_reports_only_offenders() {
    let diagnostics = real_c_string("aПb€").unwrap_err();
    assert_eq!(
        diagnostics,
        vec![Diagnostic::new('П', 1), Diagnostic::new('€', 3)]
    );
}

#[test]
fn unsupported_characters_lists_offenders_in_order() {
    assert_eq!(unsupported_characters("abc", TransformType::CString), vec![]);
    assert_eq!(
        unsupported_characters("x\u{10000}y\u{1F600}", TransformType::CWString),
        vec![Diagnostic::new('\u{10000}', 1), Diagnostic::new('\u{1F600}', 3)]
    );
    assert_eq!(
        unsupported_characters("x\u{10000}y\u{1F600}", TransformType::CString).len(),
        2
    );
}

#[test]
fn narrow_upper_half_is_negative() {
    assert_eq!(real_c_string("\u{7f}").unwrap(), vec![127i8, 0]);
    assert_eq!(real_c_string("\u{80}").unwrap(), vec![-128i8, 0]);
    assert_eq!(real_c_string("é").unwrap(), vec![-23i8, 0]);
    assert_eq!(real_c_string("\u{ff}").unwrap(), vec![-1i8, 0]);
}

#[test]
fn wide_upper_half_is_negative() {
    assert_eq!(real_c_wstring("\u{7fff}").unwrap(), vec![32767i16, 0]);
    assert_eq!(real_c_wstring("\u{8000}").unwrap(), vec![-32768i16, 0]);
    assert_eq!(real_c_wstring("\u{ffff}").unwrap(), vec![-1i16, 0]);
}

#[test]
fn narrow_boundary() {
    assert!(real_c_string("\u{ff}").is_ok());
    assert_eq!(
        real_c_string("\u{100}").unwrap_err(),
        vec![Diagnostic::new('\u{100}', 0)]
    );
}

#[test]
fn wide_boundary() {
    assert!(real_c_wstring("\u{ffff}").is_ok());
    assert_eq!(
        real_c_wstring("\u{10000}").unwrap_err(),
        vec![Diagnostic::new('\u{10000}', 0)]
    );
}

#[test]
fn repeated_calls_agree() {
    for input in ["Hello world!", "Привет", "", "\u{ff}\u{100}"] {
        for t in [TransformType::CString, TransformType::CWString] {
            assert_eq!(transform(input, t), transform(input, t));
        }
    }
}

#[test]
fn round_trip_through_unsigned() {
    let input = "A\u{7f}\u{80}é\u{ff}";
    let narrow = real_c_string(input).unwrap();
    let back: Vec<char> = narrow[..narrow.len() - 1]
        .iter()
        .map(|u| char::from(*u as u8))
        .collect();
    assert_eq!(back, input.chars().collect::<Vec<char>>());

    let input = "Привет\u{8000}\u{ffff}";
    let wide = real_c_wstring(input).unwrap();
    let back: Vec<char> = wide[..wide.len() - 1]
        .iter()
        .map(|u| char::from_u32(*u as u16 as u32).unwrap())
        .collect();
    assert_eq!(back, input.chars().collect::<Vec<char>>());
}

#[test]
fn length_is_character_count_plus_one() {
    for input in ["", "a", "Hello world!", "Привет world!", "\u{ffff}\u{ffff}"] {
        let a = transform(input, TransformType::CWString).unwrap();
        assert_eq!(a.len(), input.chars().count() + 1);
        assert_eq!(a.unit(a.len() - 1), 0);
    }
}

#[test]
fn transform_tags_width() {
    match transform("Hi", TransformType::CString).unwrap() {
        CStringArtifact::Narrow(v) => assert_eq!(v, vec![72i8, 105, 0]),
        CStringArtifact::Wide(_) => panic!("expected narrow units"),
    }
    match transform("Hi\u{8000}", TransformType::CWString).unwrap() {
        CStringArtifact::Wide(v) => assert_eq!(v, vec![72i16, 105, -32768, 0]),
        CStringArtifact::Narrow(_) => panic!("expected wide units"),
    }
    let a = transform("\u{ff}", TransformType::CString).unwrap();
    assert_eq!(a.unit(0), -1);
    assert_eq!(
        transform("Привет", TransformType::CString).unwrap_err().len(),
        6
    );
}

#[test]
fn width_policy() {
    assert_eq!(TransformType::CString.max_char(), 0xff);
    assert_eq!(TransformType::CWString.max_char(), 0xffff);
    assert_eq!(TransformType::CString.unit_size_bits(), 8);
    assert_eq!(TransformType::CWString.unit_size_bits(), 16);
}
