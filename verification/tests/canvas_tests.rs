use std::io::Cursor;

use tracer_core::canvas::{encode_rgb8, Canvas, ExportError, GridCoord};
use tracer_core::color::Color;
use tracer_core::scalar::Scalar;

fn s(n: i64) -> Scalar {
    Scalar::from_int(n)
}

/// A scalar given in millionths.
fn sm(n: i64) -> Scalar {
    Scalar::from_raw(n)
}

fn black() -> Color {
    Color::new(s(0), s(0), s(0))
}

#[test]
fn create_canvas() {
    let mut canvas = Canvas::new(10, 20);

    assert_eq!(canvas.width, 10);
    assert_eq!(canvas.height, 20);

    for pixel in canvas.pixels.iter() {
        assert_eq!(black(), *pixel)
    }

    canvas.write_color((0, 0).into(), Color::new(s(1), s(1), s(1)));

    let color = canvas.cell((0, 0).into());

    assert_eq!(Color::new(s(1), s(1), s(1)), color.unwrap())
}

#[test]
fn write_color_leaves_other_cells_black() {
    let mut canvas = Canvas::new(10, 20);
    let white = Color::new(s(1), s(1), s(1));
    canvas.write_color((0, 0).into(), white);

    for y in 0..20usize {
        for x in 0..10usize {
            let got = canvas.cell((x, y).into()).unwrap();
            if x == 0 && y == 0 {
                assert_eq!(white, got);
            } else {
                assert_eq!(black(), got);
            }
        }
    }
}

#[test]
fn cell_absent_beyond_bounds() {
    let canvas = Canvas::new(4, 3);
    assert!(canvas.cell((3, 2).into()).is_some());
    assert!(canvas.cell((4, 0).into()).is_none());
    assert!(canvas.cell((0, 3).into()).is_none());
    assert!(canvas.cell((4, 3).into()).is_none());
    assert!(canvas.cell((100, 100).into()).is_none());
    assert!(canvas.cell((usize::MAX, 0).into()).is_none());
}

#[test]
fn cell_mut_writes_through() {
    let mut canvas = Canvas::new(2, 2);
    let red = Color::new(s(1), s(0), s(0));
    match canvas.cell_mut((1, 1).into()) {
        Some(cell) => *cell = red,
        None => unreachable!(),
    }
    assert_eq!(red, canvas.cell((1, 1).into()).unwrap());
    assert!(canvas.cell_mut((2, 0).into()).is_none());
}

#[test]
fn gridcoord_from_tuple() {
    let coord: GridCoord = (2, 3).into();
    assert_eq!(GridCoord { x: 2, y: 3 }, coord);
}

#[test]
fn black_canvas_exports_zero_bytes() {
    let canvas = Canvas::new(5, 7);
    let data = canvas.to_image_data();
    assert_eq!(5 * 7 * 3, data.len());
    assert!(data.iter().all(|b| *b == 0));
}

#[test]
fn export_truncates_and_saturates_channels() {
    let mut canvas = Canvas::new(1, 1);
    // 1.9 truncates to 1; 0.5 truncates to 0; 300 saturates at 255
    canvas.write_color((0, 0).into(), Color::new(sm(1_900_000), sm(500_000), s(300)));
    assert_eq!(vec![1u8, 0, 255], canvas.to_image_data());

    let mut canvas = Canvas::new(1, 1);
    // negative channels floor at 0
    canvas.write_color((0, 0).into(), Color::new(s(-2), sm(2_500_000), sm(7_900_000)));
    assert_eq!(vec![0u8, 2, 7], canvas.to_image_data());
}

#[test]
fn export_is_row_major() {
    let mut canvas = Canvas::new(2, 2);
    canvas.write_color((1, 0).into(), Color::new(s(1), s(2), s(3)));
    canvas.write_color((0, 1).into(), Color::new(s(4), s(5), s(6)));
    let data = canvas.to_image_data();
    assert_eq!(vec![0u8, 0, 0, 1, 2, 3, 4, 5, 6, 0, 0, 0], data);
}

#[test]
fn zero_area_canvas_export_has_no_bytes() {
    assert_eq!(0, Canvas::new(0, 9).to_image_data().len());
    assert_eq!(0, Canvas::new(9, 0).to_image_data().len());
}

#[test]
fn png_round_trips_through_decoder() {
    let mut canvas = Canvas::new(2, 1);
    canvas.write_color((0, 0).into(), Color::new(s(255), s(7), s(1)));
    let want = canvas.pixels.clone();
    let bytes = canvas.to_png().unwrap();

    assert_eq!(&[137u8, 80, 78, 71, 13, 10, 26, 10], &bytes[0..8]);

    let decoder = png::Decoder::new(Cursor::new(bytes));
    let mut reader = decoder.read_info().unwrap();
    let mut buf = vec![0u8; reader.output_buffer_size().unwrap()];
    let info = reader.next_frame(&mut buf).unwrap();
    assert_eq!(2, info.width);
    assert_eq!(1, info.height);
    assert_eq!(vec![255u8, 7, 1, 0, 0, 0], buf[..info.buffer_size()].to_vec());
    drop(want);
}

#[test]
fn zero_area_canvas_png_is_header_error() {
    let err = Canvas::new(0, 5).to_png().unwrap_err();
    assert_eq!(ExportError::HeaderWrite, err);
    assert_eq!("failed to write image header", err.message());

    let err = Canvas::new(5, 0).to_png().unwrap_err();
    assert_eq!(ExportError::HeaderWrite, err);
}

#[test]
fn encode_rejects_wrong_buffer_length() {
    let err = encode_rgb8(2, 2, &[0u8; 5]).unwrap_err();
    assert_eq!(ExportError::DataWrite, err);
    assert_eq!("failed to write image data", err.message());

    assert!(encode_rgb8(2, 2, &[0u8; 12]).is_ok());
}
