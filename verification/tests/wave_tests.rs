use shade::color::Color;
use shade::image::Image;
use shade::wave::Waveform;

#[test]
fn waveform_from_points_records_the_samples() {
    let w = Waveform::from_points(vec![0, 32768, -32768, 65536]);
    assert_eq!(w.sample_count, 4);
    assert_eq!(w.points_y, vec![0, 32768, -32768, 65536]);
}

#[test]
fn flat_waveform_traces_the_center_row() {
    let wave = Waveform::from_points(vec![0; 8]);
    let c = Color::from_rgba(255, 191, 0, 255);
    let img = Image::waveform(4, 4, &wave, 0, 4, c);
    assert_eq!(img.width, 4);
    assert_eq!(img.height, 4);
    // all samples are zero, so every mapped point sits on the center row;
    // the first column is spared by the compositing primitive's edge policy
    for x in 1..4 {
        assert_eq!(img.get_pixel(x, 2), c);
    }
    for y in 0..4 {
        for x in 0..4 {
            if y != 2 || x == 0 {
                assert_eq!(img.get_pixel(x, y).value, 0);
            }
        }
    }
}

#[test]
fn waveform_window_respects_the_start_offset() {
    // the window starts at sample 4: a flat high window of a waveform whose
    // head is low
    let mut samples: Vec<i64> = vec![-32768; 4];
    samples.extend(vec![32768i64; 4]);
    let wave = Waveform::from_points(samples);
    let c = Color::from_rgba(10, 20, 30, 255);
    let img = Image::waveform(6, 6, &wave, 4, 4, c);
    // a positive half-scale sample maps below the center row
    let mut bottom: u32 = 0;
    for x in 0..6 {
        for y in 0..6 {
            if img.get_pixel(x, y).value != 0 {
                assert!(y >= 3);
                bottom += 1;
            }
        }
    }
    assert!(bottom > 0);
}
