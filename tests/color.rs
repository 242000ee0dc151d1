use raytracer::Color;

#[test]
fn display() {
    assert_eq!(Color { r: u8::MAX, g: 255, b: 255 }.to_string(), "#ffffff");
    assert_eq!(Color { r: 0, g: 0, b: 0 }.to_string(), "#000000");
}

#[test]
fn hex_digits_of_each_channel() {
    assert_eq!(Color { r: 0x12, g: 0xab, b: 0x0f }.to_string(), "#12ab0f");
    assert_eq!(Color { r: 255, g: 128, b: 64 }.to_string(), "#ff8040");
}

#[test]
fn gamma_corrected_values() {
    let c = Color { r: 128, g: 64, b: 1 }.gamma_corrected();
    assert_eq!(c, Color { r: 180, g: 127, b: 15 });
    assert_eq!(Color::black().gamma_corrected(), Color::black());
    assert_eq!(Color::white().gamma_corrected(), Color::white());
}

#[test]
fn gamma_corrected_matches_square_root_curve() {
    for c in 0..=255u8 {
        let expected = ((c as f64 / 255.0).sqrt() * 255.0) as u8;
        let got = Color { r: c, g: c, b: c }.gamma_corrected();
        assert_eq!(got, Color { r: expected, g: expected, b: expected });
    }
}

#[test]
fn attenuate_multiplies_fractions() {
    let a = Color { r: 128, g: 255, b: 0 };
    let light = Color { r: 128, g: 77, b: 200 };
    assert_eq!(a.attenuate(light), Color { r: 64, g: 77, b: 0 });
}

#[test]
fn attenuate_by_white_keeps_light() {
    for c in 0..=255u8 {
        let light = Color { r: c, g: 255 - c, b: c / 2 };
        assert_eq!(Color::white().attenuate(light), light);
    }
}

#[test]
fn average_truncates_mean() {
    let samples = vec![
        Color { r: 10, g: 20, b: 255 },
        Color { r: 11, g: 21, b: 254 },
        Color { r: 12, g: 20, b: 0 },
    ];
    assert_eq!(Color::average(&samples), Color { r: 11, g: 20, b: 169 });
}

#[test]
fn average_of_one_sample() {
    let c = Color { r: 1, g: 2, b: 3 };
    assert_eq!(Color::average(&vec![c]), c);
}

#[test]
fn average_of_many_full_samples() {
    let samples = vec![Color::white(); 1000];
    assert_eq!(Color::average(&samples), Color::white());
}

#[test]
fn pixel_from_samples_is_gamma_of_mean() {
    let samples = vec![Color { r: 255, g: 0, b: 100 }, Color { r: 255, g: 0, b: 156 }];
    assert_eq!(Color::from_samples(&samples), Color { r: 255, g: 0, b: 180 });
}

#[test]
fn default_is_black() {
    assert_eq!(Color::default(), Color { r: 0, g: 0, b: 0 });
    assert_eq!(Color::default().to_string(), "#000000");
}
