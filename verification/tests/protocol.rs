use networktables::protocol::{
    parse_assignment, parse_string, parse_update, scan_assignment, scan_payload, scan_string,
    scan_update, write_assignment, write_hello, write_keep_alive, write_string, write_update,
    Entry, EntryType, Parse, CLIENT_REQUEST_ID,
};
use networktables::{IoCause, IoCauseKind, NtError, NtErrorKind, SequenceNumber};

fn entry(name: &str, id: u16, sequence: u16, value: EntryType) -> Entry {
    Entry {
        name: name.to_string(),
        id,
        sequence: SequenceNumber(sequence),
        value,
    }
}

fn short_read() -> NtError {
    NtError {
        kind: NtErrorKind::NetworkProblem(IoCause {
            kind: IoCauseKind::EndOfFile,
            detail: None,
        }),
    }
}

fn unknown(_id: u16) -> Option<(String, EntryType)> {
    None
}

#[test]
fn entry_basics() {
    let eb = Entry {
        name: "Boolean".to_string(),
        id: 0u16,
        sequence: SequenceNumber(0u16),
        value: EntryType::Boolean(true),
    };
    assert_eq!("Boolean", eb.name.as_str());
    assert_eq!(0u16, eb.id);
    assert_eq!(SequenceNumber(0u16), eb.sequence);
    assert_eq!(
        true,
        match eb.value {
            EntryType::Boolean(b) => b,
            _ => false,
        }
    );

    let ne = Entry {
        name: "Number".to_string(),
        id: 1u16,
        sequence: SequenceNumber(0u16),
        value: EntryType::Number(42f64.to_bits()),
    };
    assert_eq!("Number", ne.name.as_str());
    assert_eq!(1u16, ne.id);
    assert_eq!(SequenceNumber(0u16), ne.sequence);
    assert_eq!(
        42f64,
        match ne.value {
            EntryType::Number(n) => f64::from_bits(n),
            _ => 0f64,
        }
    );

    let se = Entry {
        name: "String".to_string(),
        id: 2u16,
        sequence: SequenceNumber(0u16),
        value: EntryType::String("Test".to_string()),
    };
    assert_eq!("String", se.name.as_str());
    assert_eq!(2u16, se.id);
    assert_eq!(SequenceNumber(0u16), se.sequence);
    assert_eq!(
        "Test",
        match se.value {
            EntryType::String(s) => s,
            _ => "Not a string".to_string(),
        }
        .as_str()
    );
}

#[test]
fn hello_is_three_bytes() {
    let mut w: Vec<u8> = Vec::new();
    assert!(write_hello(&mut w).is_ok());
    assert_eq!(w, vec![0x01u8, 0x02, 0x00]);
}

#[test]
fn keep_alive_is_one_zero_byte() {
    let mut w: Vec<u8> = vec![0xAAu8];
    assert!(write_keep_alive(&mut w).is_ok());
    assert_eq!(w, vec![0xAAu8, 0x00]);
}

#[test]
fn string_is_written_with_its_length() {
    let mut w: Vec<u8> = Vec::new();
    assert!(write_string(&mut w, "/x".to_string()).is_ok());
    assert_eq!(w, vec![0x00u8, 0x02, 0x2F, 0x78]);
    let mut e: Vec<u8> = Vec::new();
    assert!(write_string(&mut e, String::new()).is_ok());
    assert_eq!(e, vec![0x00u8, 0x00]);
}

#[test]
fn string_length_counts_bytes_not_characters() {
    let mut w: Vec<u8> = Vec::new();
    assert!(write_string(&mut w, "é€".to_string()).is_ok());
    assert_eq!(w, vec![0x00u8, 0x05, 0xC3, 0xA9, 0xE2, 0x82, 0xAC]);
    assert_eq!(parse_string(&w), Ok(("é€".to_string(), 7usize)));
}

#[test]
fn string_of_65535_bytes_round_trips() {
    let s: String = "a".repeat(65535);
    let mut w: Vec<u8> = Vec::new();
    assert!(write_string(&mut w, s.clone()).is_ok());
    assert_eq!(w.len(), 65537);
    assert_eq!(&w[0..2], &[0xFFu8, 0xFF]);
    assert_eq!(parse_string(&w), Ok((s, 65537usize)));
}

#[test]
fn string_of_65536_bytes_gets_a_wrapped_length() {
    let s: String = "a".repeat(65536);
    let mut w: Vec<u8> = Vec::new();
    assert!(write_string(&mut w, s).is_ok());
    assert_eq!(w.len(), 65538);
    assert_eq!(&w[0..2], &[0x00u8, 0x00]);
    assert_eq!(parse_string(&w), Ok((String::new(), 2usize)));
}

#[test]
fn assignment_of_a_number_has_these_bytes() {
    let e = entry("/x", 7, 1, EntryType::Number(3.5f64.to_bits()));
    let mut w: Vec<u8> = Vec::new();
    assert!(write_assignment(&mut w, &e).is_ok());
    assert_eq!(
        w,
        vec![
            0x10u8, 0x00, 0x02, 0x2F, 0x78, 0x01, 0x00, 0x07, 0x00, 0x01, 0x40, 0x0C, 0x00, 0x00,
            0x00, 0x00, 0x00, 0x00
        ]
    );
}

#[test]
fn assignment_request_of_a_boolean_has_these_bytes() {
    let e = entry("/new", CLIENT_REQUEST_ID, 1, EntryType::Boolean(true));
    let mut w: Vec<u8> = Vec::new();
    assert!(write_assignment(&mut w, &e).is_ok());
    assert_eq!(
        w,
        vec![0x10u8, 0x00, 0x04, 0x2F, 0x6E, 0x65, 0x77, 0x00, 0xFF, 0xFF, 0x00, 0x01, 0x01]
    );
    let f = entry("/new", CLIENT_REQUEST_ID, 1, EntryType::Boolean(false));
    let mut v: Vec<u8> = Vec::new();
    assert!(write_assignment(&mut v, &f).is_ok());
    assert_eq!(v[12], 0x00);
}

#[test]
fn assignment_of_a_string_has_these_bytes() {
    let e = entry("k", 0x0102, 0x0304, EntryType::String("hi".to_string()));
    let mut w: Vec<u8> = Vec::new();
    assert!(write_assignment(&mut w, &e).is_ok());
    assert_eq!(
        w,
        vec![0x10u8, 0x00, 0x01, 0x6B, 0x02, 0x01, 0x02, 0x03, 0x04, 0x00, 0x02, 0x68, 0x69]
    );
}

#[test]
fn update_of_a_number_has_these_bytes() {
    let e = entry("/x", 7, 2, EntryType::Number(4.5f64.to_bits()));
    let mut w: Vec<u8> = Vec::new();
    assert!(write_update(&mut w, &e).is_ok());
    assert_eq!(
        w,
        vec![0x11u8, 0x00, 0x07, 0x00, 0x02, 0x40, 0x12, 0x00, 0x00, 0x00, 0x00, 0x00, 0x00]
    );
}

#[test]
fn number_bytes_are_big_endian() {
    let e = entry("n", 1, 1, EntryType::Number(0x0102030405060708u64));
    let mut w: Vec<u8> = Vec::new();
    assert!(write_update(&mut w, &e).is_ok());
    assert_eq!(&w[5..], &[1u8, 2, 3, 4, 5, 6, 7, 8]);
    let found = |_id: u16| Some(("n".to_string(), EntryType::Number(0)));
    assert_eq!(parse_update(&w[1..], found), Ok((e, 12usize)));
}

#[test]
fn writers_append_to_what_is_there() {
    let mut w: Vec<u8> = vec![9u8, 9];
    assert!(write_hello(&mut w).is_ok());
    assert!(write_keep_alive(&mut w).is_ok());
    assert_eq!(w, vec![9u8, 9, 1, 2, 0, 0]);
}

#[test]
fn assignment_bytes_are_read_back() {
    let bytes: Vec<u8> = vec![
        0x10, 0x00, 0x02, 0x2F, 0x78, 0x01, 0x00, 0x07, 0x00, 0x01, 0x40, 0x0C, 0x00, 0x00, 0x00,
        0x00, 0x00, 0x00,
    ];
    let (e, used) = parse_assignment(&bytes[1..]).unwrap();
    assert_eq!(used, 17);
    assert_eq!(e.name, "/x");
    assert_eq!(e.id, 7);
    assert_eq!(e.sequence, SequenceNumber(1));
    assert_eq!(e.value, EntryType::Number(3.5f64.to_bits()));
}

#[test]
fn assignment_round_trips_for_each_type() {
    let entries = vec![
        entry("/flag", 1, 2, EntryType::Boolean(true)),
        entry("/flag", 1, 2, EntryType::Boolean(false)),
        entry("/pi", 0xABCD, 0xFFFF, EntryType::Number(3.141592653589793f64.to_bits())),
        entry("/nan", 3, 0, EntryType::Number(f64::NAN.to_bits())),
        entry("/text", 65534, 32768, EntryType::String("grüße".to_string())),
        entry("", 0, 0, EntryType::String(String::new())),
        entry("/pending", CLIENT_REQUEST_ID, 1, EntryType::Boolean(true)),
    ];
    for e in entries {
        let mut w: Vec<u8> = Vec::new();
        assert!(write_assignment(&mut w, &e).is_ok());
        assert_eq!(w[0], 0x10);
        let used: usize = w.len() - 1;
        w.extend_from_slice(&[0xEEu8, 0xEE]);
        assert_eq!(parse_assignment(&w[1..]), Ok((e, used)));
    }
}

#[test]
fn update_round_trips_with_a_sample_of_the_same_type() {
    let cases = vec![
        (entry("/flag", 1, 2, EntryType::Boolean(true)), EntryType::Boolean(false)),
        (entry("/n", 2, 9, EntryType::Number(1.5f64.to_bits())), EntryType::Number(0)),
        (
            entry("/s", 3, 65535, EntryType::String("new".to_string())),
            EntryType::String("old".to_string()),
        ),
    ];
    for (e, sample) in cases {
        let mut w: Vec<u8> = Vec::new();
        assert!(write_update(&mut w, &e).is_ok());
        assert_eq!(w[0], 0x11);
        let used: usize = w.len() - 1;
        let name = e.name.clone();
        let id: u16 = e.id;
        let resolver = move |asked: u16| {
            if asked == id {
                Some((name, sample))
            } else {
                None
            }
        };
        assert_eq!(parse_update(&w[1..], resolver), Ok((e, used)));
    }
}

#[test]
fn boolean_is_true_unless_zero() {
    assert_eq!(
        scan_payload(0x00, &[0x00u8]),
        Parse::Complete(EntryType::Boolean(false), 1)
    );
    assert_eq!(
        scan_payload(0x00, &[0x01u8]),
        Parse::Complete(EntryType::Boolean(true), 1)
    );
    assert_eq!(
        scan_payload(0x00, &[0x7Fu8, 0x00]),
        Parse::Complete(EntryType::Boolean(true), 1)
    );
}

#[test]
fn string_that_is_not_utf8_is_a_conversion_error() {
    let bytes: Vec<u8> = vec![0x00, 0x02, 0xC3, 0x28];
    assert_eq!(
        parse_string(&bytes),
        Err(NtError {
            kind: NtErrorKind::StringConversionError
        })
    );
    let assignment: Vec<u8> = vec![0x00, 0x01, 0xFF, 0x00, 0x00, 0x01, 0x00, 0x01, 0x01];
    assert_eq!(
        parse_assignment(&assignment),
        Err(NtError {
            kind: NtErrorKind::StringConversionError
        })
    );
}

#[test]
fn unsupported_types_are_refused() {
    for tag in [0x03u8, 0x10, 0x11, 0x12, 0xFF] {
        let body: Vec<u8> = vec![0x00, 0x01, 0x61, tag, 0x00, 0x01, 0x00, 0x01, 0x00, 0x00];
        assert_eq!(
            parse_assignment(&body),
            Err(NtError {
                kind: NtErrorKind::UnsupportedType(tag)
            })
        );
    }
}

#[test]
fn unsupported_type_shows_only_after_id_and_sequence() {
    let body: Vec<u8> = vec![0x00, 0x01, 0x61, 0x10, 0x00, 0x01, 0x00];
    assert_eq!(parse_assignment(&body), Err(short_read()));
    assert_eq!(scan_assignment(&body), Parse::Incomplete(1));
}

#[test]
fn bytes_that_end_early_are_a_network_problem() {
    assert_eq!(parse_string(&[]), Err(short_read()));
    assert_eq!(parse_string(&[0x00u8]), Err(short_read()));
    assert_eq!(parse_string(&[0x00u8, 0x03, 0x61, 0x62]), Err(short_read()));
    assert_eq!(parse_assignment(&[0x00u8, 0x01, 0x61, 0x01]), Err(short_read()));
    assert_eq!(
        parse_assignment(&[0x00u8, 0x01, 0x61, 0x01, 0, 1, 0, 1, 0x40, 0x0C]),
        Err(short_read())
    );
    assert_eq!(parse_update(&[0x00u8, 0x07, 0x00], unknown), Err(short_read()));
    let found = |_id: u16| Some(("/x".to_string(), EntryType::Number(0)));
    assert_eq!(
        parse_update(&[0x00u8, 0x07, 0x00, 0x02, 0x40], found),
        Err(short_read())
    );
}

#[test]
fn update_for_an_unknown_id_is_refused() {
    let body: Vec<u8> = vec![0x00, 0x42, 0x00, 0x01, 0x01];
    assert_eq!(
        parse_update(&body, unknown),
        Err(NtError {
            kind: NtErrorKind::IdDoesntExist(0x42)
        })
    );
}

#[test]
fn update_asks_for_the_id_it_carries() {
    let body: Vec<u8> = vec![0x12, 0x34, 0x00, 0x05, 0x01, 0xAA];
    let resolver = |id: u16| {
        if id == 0x1234 {
            Some(("/b".to_string(), EntryType::Boolean(false)))
        } else {
            None
        }
    };
    let (e, used) = parse_update(&body, resolver).unwrap();
    assert_eq!(used, 5);
    assert_eq!(e, entry("/b", 0x1234, 5, EntryType::Boolean(true)));
}

#[test]
fn scanners_say_how_many_bytes_are_missing() {
    assert_eq!(scan_string(&[]), Parse::Incomplete(2));
    assert_eq!(scan_string(&[0x00u8]), Parse::Incomplete(1));
    assert_eq!(scan_string(&[0x00u8, 0x03]), Parse::Incomplete(3));
    assert_eq!(scan_string(&[0x00u8, 0x03, 0x61]), Parse::Incomplete(2));
    assert_eq!(
        scan_string(&[0x00u8, 0x03, 0x61, 0x62, 0x63, 0x64]),
        Parse::Complete("abc".to_string(), 5)
    );
    assert_eq!(scan_payload(0x00, &[]), Parse::Incomplete(1));
    assert_eq!(scan_payload(0x01, &[1u8, 2, 3]), Parse::Incomplete(5));
    assert_eq!(scan_payload(0x02, &[0x00u8]), Parse::Incomplete(1));
    assert_eq!(scan_assignment(&[]), Parse::Incomplete(2));
    assert_eq!(scan_assignment(&[0x00u8, 0x02]), Parse::Incomplete(2));
    assert_eq!(scan_assignment(&[0x00u8, 0x02, 0x2F, 0x78]), Parse::Incomplete(5));
    assert_eq!(
        scan_assignment(&[0x00u8, 0x02, 0x2F, 0x78, 0x01, 0x00]),
        Parse::Incomplete(3)
    );
    assert_eq!(
        scan_assignment(&[0x00u8, 0x02, 0x2F, 0x78, 0x01, 0x00, 0x07, 0x00, 0x01]),
        Parse::Incomplete(8)
    );
    assert_eq!(scan_update(&[], unknown), Parse::Incomplete(4));
    assert_eq!(scan_update(&[0x00u8, 0x07, 0x00], unknown), Parse::Incomplete(1));
    let found = |_id: u16| Some(("/x".to_string(), EntryType::String(String::new())));
    assert_eq!(
        scan_update(&[0x00u8, 0x07, 0x00, 0x02], found),
        Parse::Incomplete(2)
    );
}

#[test]
fn invalid_utf8_of_every_kind_is_refused() {
    let bad: Vec<Vec<u8>> = vec![
        vec![0x80],
        vec![0xC0, 0x80],
        vec![0xE0, 0x80, 0x80],
        vec![0xED, 0xA0, 0x80],
        vec![0xF4, 0x90, 0x80, 0x80],
        vec![0xE2, 0x82],
        vec![0xFF],
    ];
    for b in bad {
        let mut bytes: Vec<u8> = vec![0x00, b.len() as u8];
        bytes.extend_from_slice(&b);
        assert_eq!(
            parse_string(&bytes),
            Err(NtError {
                kind: NtErrorKind::StringConversionError
            })
        );
    }
    let good: Vec<&str> = vec!["a", "é", "€", "𝄞", "\u{0}", "\u{10FFFF}", "\u{D7FF}\u{E000}"];
    for s in good {
        let mut bytes: Vec<u8> = vec![0x00, s.len() as u8];
        bytes.extend_from_slice(s.as_bytes());
        let used: usize = bytes.len();
        assert_eq!(parse_string(&bytes), Ok((s.to_string(), used)));
    }
}
