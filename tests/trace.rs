use raytracer::trace::{Path, PathEnd};
use raytracer::Color;

fn sky() -> Color {
    Color { r: 127, g: 178, b: 255 }
}

#[test]
fn one_bounce_with_depth_one_is_black() {
    let albedo = Color { r: 178, g: 76, b: 76 };
    for end in [Some(PathEnd::Escaped(sky())), Some(PathEnd::Absorbed), None] {
        let path = Path { attenuations: vec![albedo], end };
        assert_eq!(path.color(1), Color::black());
    }
}

#[test]
fn zero_depth_is_black() {
    let path = Path { attenuations: Vec::new(), end: Some(PathEnd::Escaped(sky())) };
    assert_eq!(path.color(0), Color::black());
    assert_eq!(path.color(1), sky());
}

#[test]
fn escaped_path_is_attenuated() {
    let path = Path {
        attenuations: vec![Color { r: 128, g: 255, b: 0 }, Color { r: 255, g: 128, b: 200 }],
        end: Some(PathEnd::Escaped(Color { r: 255, g: 100, b: 7 })),
    };
    assert_eq!(path.color(3), Color { r: 128, g: 50, b: 0 });
    assert_eq!(path.color(2), Color::black());
}

#[test]
fn absorbed_path_is_black() {
    let path = Path { attenuations: vec![Color::white()], end: Some(PathEnd::Absorbed) };
    assert_eq!(path.color(10), Color::black());
}

#[test]
fn white_surfaces_keep_the_background() {
    let path = Path { attenuations: vec![Color::white(); 5], end: Some(PathEnd::Escaped(sky())) };
    assert_eq!(path.color(6), sky());
}

#[test]
fn larger_budget_never_darkens() {
    let path = Path {
        attenuations: vec![Color { r: 200, g: 10, b: 255 }; 3],
        end: Some(PathEnd::Escaped(sky())),
    };
    let mut last = Color::black();
    for depth in 0..8 {
        let c = path.color(depth);
        assert!(c.r >= last.r && c.g >= last.g && c.b >= last.b);
        last = c;
    }
    assert_ne!(last, Color::black());
}
