use rust_configfs::common::{bad_add, AddError};

#[test]
fn test_do_bad_add1() {
    let a: i32 = 960;
    let b: i32 = 110;

    let ret: Result<i32, AddError> = bad_add(a, b);
    assert!(ret.is_ok());

    match ret {
        Ok(v) => assert_eq!(v, 960110),
        Err(_) => assert!(false),
    }
}

#[test]
fn test_do_bad_add2() {
    let a: i32 = 960;
    let b: i32 = -110;

    let ret: Result<i32, AddError> = bad_add(a, b);
    assert!(ret.is_err());

    match ret {
        Ok(_) => assert!(false),
        Err(_) => assert!(true),
    }
}

#[test]
fn test_do_bad_add3() {
    let a: i32 = -960;
    let b: i32 = 110;

    let ret: Result<i32, AddError> = bad_add(a, b);
    assert!(ret.is_ok());

    match ret {
        Ok(v) => assert_eq!(v, -960110),
        Err(_) => assert!(false),
    }
}

#[test]
fn bad_add_edges() {
    assert_eq!(bad_add(0, 110), Ok(110));
    assert_eq!(bad_add(12, 0), Ok(120));
    assert_eq!(bad_add(-2, 147483648), Ok(i32::MIN));
    assert_eq!(bad_add(2, 147483647), Ok(i32::MAX));
    assert_eq!(bad_add(2, 147483648), Err(AddError::Range));
    assert_eq!(bad_add(i32::MIN, 0), Err(AddError::Range));
    assert_eq!(bad_add(i32::MAX, i32::MAX), Err(AddError::Range));
    assert_eq!(bad_add(1, i32::MAX), Err(AddError::Range));
}
