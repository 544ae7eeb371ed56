use networktables::{IoCause, IoCauseKind, NtError, NtErrorKind, NtResult, SequenceNumber};

fn error(kind: NtErrorKind) -> NtError {
    NtError { kind }
}

#[test]
fn description_names_the_kind() {
    assert_eq!(
        error(NtErrorKind::UnsupportedType(3)).description(),
        "Unsupported entry type."
    );
    assert_eq!(
        error(NtErrorKind::StringConversionError).description(),
        "Error parsing string."
    );
    assert_eq!(
        error(NtErrorKind::KeyAlreadyExists("k".to_string())).description(),
        "Key={} already exists."
    );
    assert_eq!(
        error(NtErrorKind::IdAlreadyExists(1)).description(),
        "ID={} already exists."
    );
    assert_eq!(
        error(NtErrorKind::IdDoesntExist(1)).description(),
        "ID={} Doesn't exists."
    );
    assert_eq!(
        error(NtErrorKind::OutOfOrderSequenceNumbers(
            SequenceNumber(2),
            SequenceNumber(1)
        ))
        .description(),
        "Sequence number {} does not follow {}."
    );
    assert_eq!(
        error(NtErrorKind::NetworkProblem(IoCause::end_of_file())).description(),
        "Problem connecting to server."
    );
}

#[test]
fn detail_names_the_input() {
    assert_eq!(
        error(NtErrorKind::UnsupportedType(16)).detail(),
        Some("Unsupported entry type=16.".to_string())
    );
    assert_eq!(
        error(NtErrorKind::UnsupportedType(255)).detail(),
        Some("Unsupported entry type=255.".to_string())
    );
    assert_eq!(error(NtErrorKind::StringConversionError).detail(), None);
    assert_eq!(
        error(NtErrorKind::KeyAlreadyExists("/x".to_string())).detail(),
        Some("Key=/x already exists.".to_string())
    );
    assert_eq!(
        error(NtErrorKind::IdAlreadyExists(7)).detail(),
        Some("ID=7 already exists.".to_string())
    );
    assert_eq!(
        error(NtErrorKind::IdDoesntExist(66)).detail(),
        Some("ID=66 Doesn't exists.".to_string())
    );
    assert_eq!(
        error(NtErrorKind::OutOfOrderSequenceNumbers(
            SequenceNumber(10),
            SequenceNumber(9)
        ))
        .detail(),
        Some("Sequence number 9 does not follow 10.".to_string())
    );
}

#[test]
fn detail_writes_numbers_in_decimal() {
    for id in [0u16, 9, 10, 99, 100, 1000, 9999, 10000, 12345, 65535] {
        assert_eq!(
            error(NtErrorKind::IdAlreadyExists(id)).detail(),
            Some(format!("ID={} already exists.", id))
        );
    }
}

#[test]
fn detail_of_a_network_problem_is_that_of_its_cause() {
    let with_text = IoCause {
        kind: IoCauseKind::ConnectionRefused,
        detail: Some("connection refused".to_string()),
    };
    assert_eq!(
        error(NtErrorKind::NetworkProblem(with_text)).detail(),
        Some("connection refused".to_string())
    );
    assert_eq!(
        error(NtErrorKind::NetworkProblem(IoCause::end_of_file())).detail(),
        None
    );
}

#[test]
fn cause_is_there_for_a_network_problem_only() {
    let cause = IoCause {
        kind: IoCauseKind::TimedOut,
        detail: None,
    };
    let e = error(NtErrorKind::NetworkProblem(cause.clone()));
    assert_eq!(e.cause(), Some(&cause));
    assert_eq!(error(NtErrorKind::IdDoesntExist(1)).cause(), None);
    assert_eq!(error(NtErrorKind::StringConversionError).cause(), None);
}

#[test]
fn io_cause_becomes_a_network_problem() {
    let e: NtError = NtError::from(IoCause::end_of_file());
    assert_eq!(
        e,
        NtError {
            kind: NtErrorKind::NetworkProblem(IoCause {
                kind: IoCauseKind::EndOfFile,
                detail: None
            })
        }
    );
    let r: NtResult<()> = Err(e.clone());
    assert_eq!(r, Err(e));
}

#[test]
fn clones_are_equal() {
    let kinds = vec![
        NtErrorKind::UnsupportedType(1),
        NtErrorKind::StringConversionError,
        NtErrorKind::KeyAlreadyExists("key".to_string()),
        NtErrorKind::IdAlreadyExists(2),
        NtErrorKind::IdDoesntExist(3),
        NtErrorKind::OutOfOrderSequenceNumbers(SequenceNumber(4), SequenceNumber(5)),
        NtErrorKind::NetworkProblem(IoCause {
            kind: IoCauseKind::Other,
            detail: Some("text".to_string()),
        }),
    ];
    for kind in kinds {
        let e = error(kind);
        assert_eq!(e.clone(), e);
        assert_eq!(e.kind.clone(), e.kind);
    }
}
