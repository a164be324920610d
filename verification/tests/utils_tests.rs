use ark_algebra_py::utils::{
    serialisation_error_to_py_err, wrap_err_string, HostErrorKind, SerializationError,
};

#[test]
fn messages_carry_the_prefix() {
    assert_eq!(wrap_err_string("boom".to_string()), "Err From Rust: boom");
    assert_eq!(wrap_err_string(String::new()), "Err From Rust: ");
}

#[test]
fn serialization_errors_map_to_host_errors() {
    let e = serialisation_error_to_py_err(SerializationError::NotEnoughSpace);
    assert_eq!(e.kind, HostErrorKind::Value);
    assert_eq!(
        e.message,
        "Err From Rust: not enough space has been allocated to serialise the object"
    );
    let e = serialisation_error_to_py_err(SerializationError::InvalidData);
    assert_eq!(e.kind, HostErrorKind::Value);
    assert_eq!(e.message, "Err From Rust: serialised data seems to be invalid");
    let e = serialisation_error_to_py_err(SerializationError::UnexpectedFlags);
    assert_eq!(e.kind, HostErrorKind::Value);
    assert_eq!(
        e.message,
        "Err From Rust: got an unexpected flag in serialised data, check if data is malformed"
    );
    let e = serialisation_error_to_py_err(SerializationError::IoFailure("disk gone".to_string()));
    assert_eq!(e.kind, HostErrorKind::Io);
    assert_eq!(e.message, "Err From Rust: disk gone");
}
