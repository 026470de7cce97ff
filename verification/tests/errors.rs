use vmadm::errors::{
    ConflictError, Error, GenericError, NotFoundError, NumberError, ValidationError,
    ValidationErrors,
};
use vmadm::lifecycle::{exit_code, failure_line};
use vmadm::uuid::Uuid;

#[test]
fn validation_error_message() {
    let e = ValidationError::new("hostname", "Invalid hostname");
    assert_eq!(e.field, "hostname");
    assert_eq!(e.error, "Invalid hostname");
    assert_eq!(e.message(), "hostname: Invalid hostname");
    assert_eq!(e.description(), "Validation Error");
    assert_eq!(e.clone(), e);
}

#[test]
fn validation_errors_message() {
    let none = ValidationErrors::new(vec![]);
    assert_eq!(none.message(), "0 validaiton errors encountered");
    let two = ValidationErrors::new(vec![
        ValidationError::new("a", "x"),
        ValidationError::new("b", "y"),
    ]);
    assert_eq!(two.message(), "2 validaiton errors encountered\n  a: x\n  b: y");
    assert_eq!(two.description(), "Validations Error");
    match *ValidationErrors::bx(vec![ValidationError::new("a", "x")]) {
        Error::Validation(e) => assert_eq!(e.errors.len(), 1),
        _ => panic!("expected a validation error"),
    }
}

#[test]
fn generic_error_message() {
    let e = GenericError::new("something failed");
    assert_eq!(e.message(), "something failed");
    assert_eq!(e.description(), "Generic Error");
    assert_eq!(GenericError::bx("boxed").message(), "boxed");
}

#[test]
fn conflict_error_message() {
    let e = ConflictError::new(&Uuid::nil());
    assert_eq!(e.message(), "Duplicated UUID: 00000000-0000-0000-0000-000000000000");
    assert_eq!(e.description(), "Conflict");
    assert_eq!(
        ConflictError::bx(&Uuid::nil()).message(),
        "Duplicated UUID: 00000000-0000-0000-0000-000000000000"
    );
}

#[test]
fn not_found_error_message() {
    let e = NotFoundError::new(&Uuid::nil());
    assert_eq!(e.message(), "UUID not found: 00000000-0000-0000-0000-000000000000");
    assert_eq!(e.description(), "Not Found");
    assert_eq!(
        NotFoundError::bx(&Uuid::nil()).message(),
        "UUID not found: 00000000-0000-0000-0000-000000000000"
    );
}

#[test]
fn number_error_message() {
    assert_eq!(Error::Number(NumberError::new("1x")).message(), "invalid number: 1x");
}

#[test]
fn exit_codes() {
    let done: Result<i32, Error> = Ok(0);
    assert_eq!(exit_code(&done), 0);
    let other: Result<i32, Error> = Ok(3);
    assert_eq!(exit_code(&other), 3);
    let failed: Result<i32, Error> = Err(Error::Generic(GenericError::new("no")));
    assert_eq!(exit_code(&failed), 1);
    let e = Error::Generic(GenericError::new("no"));
    assert_eq!(failure_line(&e.message()), "command failed: no");
}
