use vstd::prelude::*;

verus! {

/// The `type` byte of the misc device's ioctl numbers (the character `|`).
pub const IOC_TYPE: u32 = 124;

/// Says hello; carries no data.
pub const RUST_MISC_DEV_HELLO: u32 = 0x7c80;

/// Reads the device's value: direction read, four bytes.
pub const RUST_MISC_DEV_GET_VALUE: u32 = 0x80047c81;

/// Writes the device's value: direction write, four bytes.
pub const RUST_MISC_DEV_SET_VALUE: u32 = 0x40047c82;

/// An ioctl number: direction, size, type and number packed from the top
/// bits down.
pub open spec fn ioc_spec(dir: u32, ty: u32, nr: u32, size: u32) -> u32 {
    (dir << 30u32) | (size << 16u32) | (ty << 8u32) | nr
}

/// Packs an ioctl number.
pub fn ioc(dir: u32, ty: u32, nr: u32, size: u32) -> (r: u32)
    requires
        dir < 4,
        ty < 256,
        nr < 256,
        size < 0x4000,
    ensures
        r == ioc_spec(dir, ty, nr, size),
{
    (dir << 30u32) | (size << 16u32) | (ty << 8u32) | nr
}

/// The size field of an ioctl number.
pub fn ioc_size(cmd: u32) -> (r: u32)
    ensures
        r == (cmd >> 16u32) & 0x3fffu32,
        r < 0x4000,
{
    let r = (cmd >> 16u32) & 0x3fffu32;
    assert(((cmd >> 16u32) & 0x3fffu32) <= 0x3fffu32) by (bit_vector);
    r
}

/// Why an ioctl was refused.
#[derive(Debug, Clone, Copy, PartialEq, Eq, Structural)]
pub enum MiscError {
    /// The ioctl number is not one the device knows.
    NotTty,
}

/// What the caller must do to complete an ioctl.
#[derive(Debug, Clone, Copy, PartialEq, Eq, Structural)]
pub enum Action {
    /// Nothing to copy: log the greeting and return 0.
    Greet,
    /// Copy `value` out to the caller's buffer of `size` bytes.
    CopyOut { value: i32, size: u32 },
    /// Read a value from the caller's buffer of `size` bytes and hand it to
    /// `set_value`.
    CopyIn { size: u32 },
}

/// The state of one open device file.
pub struct RustMiscDevice {
    value: i32,
}

impl RustMiscDevice {
    pub closed spec fn view(&self) -> i32 {
        self.value
    }

    /// A freshly opened device holds 0.
    pub fn open() -> (d: Self)
        ensures
            d@ == 0,
    {
        RustMiscDevice { value: 0 }
    }

    pub fn get_value(&self) -> (r: i32)
        ensures
            r == self@,
    {
        self.value
    }

    pub fn set_value(&mut self, v: i32)
        ensures
            final(self)@ == v,
    {
        self.value = v;
    }

    /// Decides what ioctl `cmd` asks for: the value to copy out, a value to
    /// copy in, the greeting, or `NotTty` for any other number.
    pub fn ioctl(&self, cmd: u32) -> (r: Result<Action, MiscError>)
        ensures
            cmd == RUST_MISC_DEV_GET_VALUE ==> r == Ok::<Action, MiscError>(
                Action::CopyOut { value: self@, size: 4 },
            ),
            cmd == RUST_MISC_DEV_SET_VALUE ==> r == Ok::<Action, MiscError>(Action::CopyIn { size: 4 }),
            cmd == RUST_MISC_DEV_HELLO ==> r == Ok::<Action, MiscError>(Action::Greet),
            cmd != RUST_MISC_DEV_GET_VALUE && cmd != RUST_MISC_DEV_SET_VALUE && cmd
                != RUST_MISC_DEV_HELLO ==> r == Err::<Action, MiscError>(MiscError::NotTty),
    {
        if cmd == RUST_MISC_DEV_GET_VALUE {
            let size = ioc_size(cmd);
            assert((0x80047c81u32 >> 16u32) & 0x3fffu32 == 4) by (bit_vector);
            Ok(Action::CopyOut { value: self.value, size })
        } else if cmd == RUST_MISC_DEV_SET_VALUE {
            let size = ioc_size(cmd);
            assert((0x40047c82u32 >> 16u32) & 0x3fffu32 == 4) by (bit_vector);
            Ok(Action::CopyIn { size })
        } else if cmd == RUST_MISC_DEV_HELLO {
            Ok(Action::Greet)
        } else {
            Err(MiscError::NotTty)
        }
    }
}

/// The three command numbers are the packed forms of their fields.
pub proof fn command_numbers_are_packed()
    ensures
        RUST_MISC_DEV_HELLO == ioc_spec(0, IOC_TYPE, 0x80, 0),
        RUST_MISC_DEV_GET_VALUE == ioc_spec(2, IOC_TYPE, 0x81, 4),
        RUST_MISC_DEV_SET_VALUE == ioc_spec(1, IOC_TYPE, 0x82, 4),
{
    assert(((0u32 << 30u32) | (0u32 << 16u32) | (124u32 << 8u32) | 0x80u32) == 0x7c80u32) by (bit_vector);
    assert(((2u32 << 30u32) | (4u32 << 16u32) | (124u32 << 8u32) | 0x81u32) == 0x80047c81u32) by (bit_vector);
    assert(((1u32 << 30u32) | (4u32 << 16u32) | (124u32 << 8u32) | 0x82u32) == 0x40047c82u32) by (bit_vector);
}

} // verus!
