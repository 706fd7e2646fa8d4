use breadboard::red_screen;
use breadboard::xpt2046::{self, decode, reference_calibration, request, AxisCalibration};

#[test]
fn xpt2046_test_convert() {
    assert_eq!(xpt2046::convert((250, 230)), Some((0, 0)));
    assert_eq!(xpt2046::convert((3920, 3850)), Some((476, 322)));
}

#[test]
fn xpt2046_test_convert_out_of_range() {
    assert_eq!(xpt2046::convert((200, 200)), None);
    assert_eq!(xpt2046::convert((4000, 4000)), None);
}

#[test]
fn lib_test_convert() {
    assert_eq!(red_screen::convert((250, 230)), Some((0, 0)));
    assert_eq!(red_screen::convert((3920, 3850)), Some((476, 322)));
}

#[test]
fn lib_test_convert_out_of_range() {
    assert_eq!(red_screen::convert((200, 200)), None);
    assert_eq!(red_screen::convert((4000, 4000)), None);
}

#[test]
fn test_get() {
    assert_eq!(request(), [0x12, 0x00, 0x1A, 0x00, 0x00]);
    assert_eq!(decode([0x00, 0x00, 0x00, 0x00, 0x00]), (0, 0));
    assert_eq!(decode([0x00, 0x10, 0x00, 0x10, 0x00]), (4096, 4096));
    assert_eq!(decode([0x00, 0x00, 0x00, 0x10, 0x00]), (0, 4096));
    assert_eq!(decode([0x00, 0x10, 0x00, 0x00, 0x00]), (4096, 0));
    assert_eq!(decode([0x00, 0x07, 0xD0, 0x00, 0x00]), (2000, 0));
    assert_eq!(decode([0x00, 0x00, 0x00, 0x07, 0xD0]), (0, 2000));
}

#[test]
fn decode_ignores_the_first_byte() {
    assert_eq!(decode([0xFF, 0x12, 0x34, 0xAB, 0xCD]), (0x1234, 0xABCD));
}

#[test]
fn calibration_of_the_reference_display() {
    assert_eq!(xpt2046::convert((762, 742)), Some((68, 46)));
    assert_eq!(red_screen::convert((762, 742)), Some((68, 46)));
}

#[test]
fn a_sample_counts_exactly_within_the_bounds() {
    assert_eq!(xpt2046::convert((249, 230)), None);
    assert_eq!(xpt2046::convert((250, 229)), None);
    assert_eq!(xpt2046::convert((4000, 3900)), Some((7 * 68, 7 * 46)));
    assert_eq!(xpt2046::convert((4001, 3900)), None);
    assert_eq!(xpt2046::convert((4000, 3901)), None);
    assert_eq!(xpt2046::convert((0, 0)), None);
    assert_eq!(xpt2046::convert((65535, 65535)), None);
}

#[test]
fn every_raw_value_is_some_inside_and_none_outside() {
    let axis = AxisCalibration::new(250, 4000, 9, 68).unwrap();
    for raw in 0..=u16::MAX {
        assert_eq!(axis.convert(raw).is_some(), (250..=4000).contains(&raw));
    }
}

#[test]
fn a_cell_is_a_step_of_the_shift() {
    let axis = AxisCalibration::new(250, 4000, 9, 68).unwrap();
    assert_eq!(axis.convert(250 + 511), Some(0));
    assert_eq!(axis.convert(250 + 512), Some(68));
    assert_eq!(axis.convert(250 + 1023), Some(68));
    assert_eq!(axis.convert(250 + 1024), Some(136));
}

#[test]
fn the_same_sample_gives_the_same_position() {
    let mapping = reference_calibration();
    assert_eq!(mapping.convert((1500, 2500)), mapping.convert((1500, 2500)));
    assert_eq!(mapping.convert((1500, 2500)), Some((2 * 68, 4 * 46)));
}

#[test]
fn an_axis_keeps_its_values() {
    let axis = AxisCalibration::new(10, 20, 1, 3).unwrap();
    assert_eq!(axis.lower_bound(), 10);
    assert_eq!(axis.upper_bound(), 20);
    assert_eq!(axis.shift(), 1);
    assert_eq!(axis.cell_size(), 3);
    assert_eq!(axis.convert(20), Some(15));
}

#[test]
fn an_axis_that_cannot_be_computed_is_refused() {
    assert!(AxisCalibration::new(20, 10, 1, 3).is_none());
    assert!(AxisCalibration::new(10, 20, 16, 3).is_none());
    assert!(AxisCalibration::new(0, 65535, 0, 2).is_none());
    assert!(AxisCalibration::new(0, 65535, 0, 1).is_some());
    assert!(AxisCalibration::new(0, 65535, 15, 65535).is_some());
}
