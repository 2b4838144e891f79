use rust_configfs::base_utils::hello;
use rust_configfs::data_structure::{checked_sum, wrapping_sum};
use rust_configfs::misc_device::{
    ioc, ioc_size, Action, MiscError, RustMiscDevice, IOC_TYPE, RUST_MISC_DEV_GET_VALUE,
    RUST_MISC_DEV_HELLO, RUST_MISC_DEV_SET_VALUE,
};

#[test]
fn ioctl_numbers() {
    assert_eq!(ioc(0, IOC_TYPE, 0x80, 0), RUST_MISC_DEV_HELLO);
    assert_eq!(ioc(2, IOC_TYPE, 0x81, 4), RUST_MISC_DEV_GET_VALUE);
    assert_eq!(ioc(1, IOC_TYPE, 0x82, 4), RUST_MISC_DEV_SET_VALUE);
    assert_eq!(ioc_size(RUST_MISC_DEV_GET_VALUE), 4);
    assert_eq!(ioc_size(RUST_MISC_DEV_HELLO), 0);
}

#[test]
fn misc_device_session() {
    let mut d = RustMiscDevice::open();
    assert_eq!(d.ioctl(RUST_MISC_DEV_HELLO), Ok(Action::Greet));
    assert_eq!(d.ioctl(RUST_MISC_DEV_GET_VALUE), Ok(Action::CopyOut { value: 0, size: 4 }));
    assert_eq!(d.ioctl(RUST_MISC_DEV_SET_VALUE), Ok(Action::CopyIn { size: 4 }));
    d.set_value(1);
    assert_eq!(d.get_value(), 1);
    assert_eq!(d.ioctl(RUST_MISC_DEV_GET_VALUE), Ok(Action::CopyOut { value: 1, size: 4 }));
    assert_eq!(d.ioctl(ioc(0, IOC_TYPE, 0, 0)), Err(MiscError::NotTty));
}

#[test]
fn sums_of_numbers_and_keys() {
    assert_eq!(wrapping_sum(&vec![960, 110]), 1070);
    assert_eq!(wrapping_sum(&vec![]), 0);
    assert_eq!(wrapping_sum(&vec![i32::MAX, 1]), i32::MIN);
    assert_eq!(checked_sum(&vec![110, 960]), Some(1070));
    assert_eq!(checked_sum(&vec![]), Some(0));
    assert_eq!(checked_sum(&vec![i32::MAX, 1, -5]), None);
    assert_eq!(checked_sum(&vec![-5, i32::MAX, 1]), Some(i32::MAX - 4));
}

#[test]
fn greeting_text() {
    assert_eq!(hello(&b"Heaven".to_vec()), b"Hello, Heaven!".to_vec());
    assert_eq!(hello(&Vec::new()), b"Hello, !".to_vec());
}
