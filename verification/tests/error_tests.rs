use crablox::error::new_error_string;

#[test]
fn error_generate_err_test() {
    let error_string = new_error_string(5, "Insufficient crabs");
    assert_eq!(
        String::from("[Line 5] Error: Insufficient crabs"),
        error_string
    );
}

#[test]
fn lox_error_generate_err_test() {
    let error_string = new_error_string(5, "Insufficient crabs");
    assert_eq!(
        String::from("[Line 5] Error: Insufficient crabs"),
        error_string
    );
}
