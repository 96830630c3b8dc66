use dojo_introspect::bytearray::{bytearray_hash, parse_hash_argument, BytearrayHashError};

#[test]
fn test_with_bad_inputs() {
    // input without parenthesis
    let input = "hello";
    let res = bytearray_hash(input);
    assert_eq!(res, Err("bytearray_hash: invalid parameter (arg: hello)".to_string()));

    // bad input type
    let input = "(1234)";
    let res = bytearray_hash(input);
    assert_eq!(res, Err("bytearray_hash: invalid parameter type (arg: (1234))".to_string()));
}

#[test]
fn test_with_valid_input() {
    let input = "(\"hello\")";
    let expected = "0x3244ef30a5e431f958f5ee38a0726e8b1997bb7654b164218ac4a01fb9e2646";

    let res = bytearray_hash(input);
    assert_eq!(res, Ok(expected.to_string()));
}

#[test]
fn hash_argument_forms() {
    assert_eq!(parse_hash_argument(" ( \"a b\" ) "), Ok("\"a b\"".to_string()));
    assert_eq!(parse_hash_argument("(x)"), Err(BytearrayHashError::InvalidParameterType));
    assert_eq!(parse_hash_argument("\"x\""), Err(BytearrayHashError::InvalidParameter));
}
