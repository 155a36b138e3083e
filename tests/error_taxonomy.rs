use fs_zbox::errors::{push_decimal, ErrorKind, FSError, Fault, FaultCode};

fn fault(code: FaultCode) -> Fault {
    Fault { code, description: "backend says no".to_string() }
}

#[test]
fn each_fault_code_has_its_category() {
    let cases = [
        (FaultCode::InvalidUri, ErrorKind::InvalidArgument),
        (FaultCode::InvalidPath, ErrorKind::InvalidArgument),
        (FaultCode::InvalidArgument, ErrorKind::Internal),
        (FaultCode::NotFound, ErrorKind::NotFound),
        (FaultCode::AlreadyExists, ErrorKind::AlreadyExists),
        (FaultCode::IsRoot, ErrorKind::RootViolation),
        (FaultCode::IsDir, ErrorKind::IsADirectory),
        (FaultCode::IsFile, ErrorKind::NotADirectory),
        (FaultCode::NotDir, ErrorKind::NotADirectory),
        (FaultCode::ParentNotDir, ErrorKind::NotFound),
        (FaultCode::NotFile, ErrorKind::IsADirectory),
        (FaultCode::NotEmpty, ErrorKind::DirectoryNotEmpty),
        (FaultCode::ReadOnly, ErrorKind::ReadOnly),
        (FaultCode::Encode, ErrorKind::DecodeError),
        (FaultCode::Other, ErrorKind::Internal),
    ];
    for (code, kind) in cases {
        let e = FSError::from(fault(code)).categorize();
        assert_eq!(e.kind, kind, "{:?}", code);
    }
}

#[test]
fn path_is_attached_verbatim() {
    let e = FSError::with_path(fault(FaultCode::NotFound), "/a/b".to_string()).categorize();
    assert_eq!(e.kind, ErrorKind::NotFound);
    assert_eq!(e.message, "/a/b");
}

#[test]
fn description_stands_in_for_a_missing_path() {
    let e = FSError::from(fault(FaultCode::NotEmpty)).categorize();
    assert_eq!(e.kind, ErrorKind::DirectoryNotEmpty);
    assert_eq!(e.message, "backend says no");
}

#[test]
fn parent_not_a_directory_is_not_found() {
    let e = FSError::with_path(fault(FaultCode::ParentNotDir), "/f/x".to_string()).categorize();
    assert_eq!(e.kind, ErrorKind::NotFound);
    assert_eq!(e.message, "/f/x");
}

#[test]
fn target_not_a_directory_is_not_a_directory() {
    let e = FSError::with_path(fault(FaultCode::NotDir), "/f".to_string()).categorize();
    assert_eq!(e.kind, ErrorKind::NotADirectory);
    assert_eq!(e.message, "/f");
}

#[test]
fn backend_invalid_argument_is_internal() {
    let e = FSError::with_path(fault(FaultCode::InvalidArgument), "/p".to_string()).categorize();
    assert_eq!(e.kind, ErrorKind::Internal);
    assert_eq!(e.message, "backend says no");
}

#[test]
fn root_violation_regardless_of_operation() {
    let e = FSError::with_path(fault(FaultCode::IsRoot), "/".to_string()).categorize();
    assert_eq!(e.kind, ErrorKind::RootViolation);
    assert_eq!(e.message, "/");
}

#[test]
fn unlisted_faults_keep_their_description() {
    for code in [FaultCode::Other, FaultCode::Encode, FaultCode::InvalidUri, FaultCode::InvalidArgument] {
        let e = FSError::with_path(fault(code), "/p".to_string()).categorize();
        assert_eq!(e.message, "backend says no", "{:?}", code);
    }
}

#[test]
fn decimal_forms() {
    for (n, text) in [(0u64, "0"), (7, "7"), (10, "10"), (12345, "12345"), (u64::MAX, "18446744073709551615")] {
        let mut s = "n=".to_string();
        push_decimal(&mut s, n);
        assert_eq!(s, format!("n={}", text));
    }
}
