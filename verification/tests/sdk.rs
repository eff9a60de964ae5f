use dbsdk_rs::audio::{is_voice, AudioVoiceParam, VOICE_COUNT};
use dbsdk_rs::gamepad::{Gamepad, GamepadButton, GamepadButtonMask, GamepadSlot, GamepadState};
use dbsdk_rs::io::{FileMode, IOError, SeekOrigin};
use dbsdk_rs::vdp::{
    BlendEquation, BlendFactor, Color32, Compare, Rectangle, TextureError, TextureFilter,
    TextureFormat, TextureWrap, Topology, WindingOrder,
};

#[test]
fn color_keeps_its_channels() {
    let c = Color32::new(1, 2, 3, 4);
    assert_eq!((c.r, c.g, c.b, c.a), (1, 2, 3, 4));
}

#[test]
fn rectangle_keeps_its_sides() {
    let r = Rectangle::new(-1, 2, 30, 40);
    assert_eq!((r.x, r.y, r.width, r.height), (-1, 2, 30, 40));
}

#[test]
fn gamepad_keeps_its_slot() {
    assert!(matches!(Gamepad::new(GamepadSlot::SlotC).slot, GamepadSlot::SlotC));
}

#[test]
fn button_flags() {
    assert_eq!(GamepadButton::A.bit(), 1);
    assert_eq!(GamepadButton::Right.bit(), 1 << 7);
    assert_eq!(GamepadButton::L1.bit(), 1 << 8);
    assert_eq!(GamepadButton::Start.bit(), 1 << 15);
}

#[test]
fn pressed_buttons() {
    let state = GamepadState {
        button_mask: GamepadButtonMask { mask: GamepadButton::A.bit() | GamepadButton::Start.bit() },
        left_stick_x: 0,
        left_stick_y: 0,
        right_stick_x: 0,
        right_stick_y: 0,
    };
    assert!(state.is_pressed(GamepadButton::A));
    assert!(state.is_pressed(GamepadButton::Start));
    assert!(!state.is_pressed(GamepadButton::B));
    assert!(!state.is_pressed(GamepadButton::Select));
    let idle = GamepadState { button_mask: GamepadButtonMask::none(), ..state };
    assert!(!idle.is_pressed(GamepadButton::A));
}

#[test]
fn state_codes() {
    assert_eq!(Compare::Never.code(), 0x0200);
    assert_eq!(Compare::Always.code(), 0x0207);
    assert_eq!(BlendEquation::Add.code(), 0x8006);
    assert_eq!(BlendEquation::ReverseSubtract.code(), 0x800B);
    assert_eq!(BlendFactor::Zero.code(), 0);
    assert_eq!(BlendFactor::One.code(), 1);
    assert_eq!(BlendFactor::OneMinusDstColor.code(), 0x0307);
    assert_eq!(WindingOrder::CounterClockwise.code(), 0x0901);
    assert_eq!(Topology::TriangleStrip.code(), 3);
    assert_eq!(TextureFormat::YUV420.code(), 5);
    assert_eq!(TextureFilter::Linear.code(), 0x2601);
    assert_eq!(TextureWrap::Clamp.code(), 0x812F);
    assert_eq!(TextureWrap::Repeat.code(), 0x2901);
    assert_eq!(TextureWrap::Mirror.code(), 0x8370);
}

#[test]
fn texture_dimensions() {
    assert!(TextureFormat::RGB565.check_dimensions(16, 256).is_ok());
    assert!(TextureFormat::RGBA8888.check_dimensions(1, 1).is_ok());
    assert!(matches!(
        TextureFormat::RGB565.check_dimensions(16, 100),
        Err(TextureError::DimensionsInvalid)
    ));
    assert!(matches!(
        TextureFormat::DXT1.check_dimensions(48, 64),
        Err(TextureError::DimensionsInvalid)
    ));
    assert!(TextureFormat::YUV420.check_dimensions(48, 100).is_ok());
    assert!(TextureFormat::RGB565.check_dimensions(0, 0).is_ok());
    assert!(TextureFormat::RGB565.check_dimensions(i32::MIN, 4).is_ok());
    assert!(TextureFormat::RGB565.check_dimensions(-4, 4).is_err());
}

#[test]
fn interface_codes() {
    assert_eq!(GamepadSlot::SlotA.code(), 0);
    assert_eq!(GamepadSlot::SlotD.code(), 3);
    assert_eq!(FileMode::Read.code(), 0);
    assert_eq!(FileMode::Write.code(), 1);
    assert_eq!(SeekOrigin::Begin.code(), 0);
    assert_eq!(SeekOrigin::Current.code(), 1);
    assert_eq!(SeekOrigin::End.code(), 2);
    assert_eq!(AudioVoiceParam::Volume.code(), 0);
    assert_eq!(AudioVoiceParam::SampleData.code(), 4);
    assert_eq!(AudioVoiceParam::Stop.code(), 13);
}

#[test]
fn voices() {
    assert_eq!(VOICE_COUNT, 32);
    assert!(is_voice(0));
    assert!(is_voice(31));
    assert!(!is_voice(32));
    assert!(!is_voice(-1));
}

#[test]
fn error_numbers_of_opening_a_file() {
    assert!(matches!(IOError::opening_file(41), Some(IOError::TooManyFilesOpen)));
    assert!(matches!(IOError::opening_file(44), Some(IOError::FileNotFound)));
    assert!(matches!(IOError::opening_file(69), Some(IOError::ReadOnlyFileSystem)));
    assert!(matches!(IOError::opening_file(43), Some(IOError::NoSuchDevice)));
    assert!(IOError::opening_file(0).is_none());
    assert!(IOError::opening_file(20).is_none());
}

#[test]
fn error_numbers_of_allocating_a_file() {
    assert!(matches!(IOError::allocating_file(20), Some(IOError::FileAlreadyExists)));
    assert!(matches!(IOError::allocating_file(51), Some(IOError::NoSpaceOnDevice)));
    assert!(matches!(IOError::allocating_file(43), Some(IOError::NoSuchDevice)));
    assert!(IOError::allocating_file(44).is_none());
}

#[test]
fn error_numbers_of_opening_a_directory() {
    assert!(matches!(IOError::opening_directory(44), Some(IOError::DirectoryNotFound)));
    assert!(matches!(IOError::opening_directory(43), Some(IOError::NoSuchDevice)));
    assert!(IOError::opening_directory(41).is_none());
}
