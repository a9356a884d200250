use fast_qr::convert::image::{Fit, ImageBuilder, ImageError};
use fast_qr::convert::svg::SvgBuilder;
use fast_qr::convert::{rgba2hex, Builder, ConvertError, ImageBackgroundShape, Shape};
use fast_qr::convert::svg::SvgError;
use fast_qr::number::{push_decimal, push_hex, push_hundredths, push_pair};
use fast_qr::{Module, QRBuilder, QRCode, Version, ECL};

const SHAPES: [Shape; 6] = [
    Shape::Square,
    Shape::Circle,
    Shape::RoundedSquare,
    Shape::Vertical,
    Shape::Horizontal,
    Shape::Diamond,
];

const GROUNDS: [ImageBackgroundShape; 3] =
    [ImageBackgroundShape::Square, ImageBackgroundShape::Circle, ImageBackgroundShape::RoundedSquare];

const FRAMES: [(f64, f64); 40] = [
    (5.0, 8.0),   (9.0, 8.0),   (9.0, 10.0),  (11.0, 11.0), (13.0, 12.0),
    (13.0, 14.0), (15.0, 15.0), (17.0, 16.0), (17.0, 18.0), (19.0, 19.0),
    (21.0, 20.0), (21.0, 22.0), (23.0, 23.0), (25.0, 24.0), (25.0, 26.0),
    (27.0, 27.0), (29.0, 28.0), (29.0, 30.0), (31.0, 31.0), (33.0, 32.0),
    (33.0, 34.0), (35.0, 35.0), (37.0, 36.0), (37.0, 38.0), (39.0, 39.0),
    (41.0, 40.0), (41.0, 42.0), (43.0, 43.0), (45.0, 44.0), (45.0, 46.0),
    (47.0, 47.0), (49.0, 48.0), (49.0, 50.0), (51.0, 51.0), (53.0, 52.0),
    (53.0, 54.0), (55.0, 55.0), (57.0, 56.0), (57.0, 58.0), (59.0, 59.0),
];

struct Look {
    shape: Shape,
    margin: usize,
    ground: [u8; 4],
    dots: [u8; 4],
    image: Option<String>,
    image_ground: [u8; 4],
    image_shape: ImageBackgroundShape,
}

fn builder_of(look: &Look) -> SvgBuilder {
    let mut builder = SvgBuilder::default();
    builder
        .shape(look.shape)
        .margin(look.margin)
        .background_color(look.ground)
        .module_color(look.dots)
        .image_background_color(look.image_ground)
        .image_background_shape(look.image_shape);
    if let Some(image) = &look.image {
        builder.image(image.clone());
    }
    builder
}

/// The text of a drawing, put together with the formatting of the standard
/// library and with floating-point numbers where fractions are written.
fn expected_svg(look: &Look, qr: &QRCode) -> String {
    let n = qr.size;
    let mut out = String::new();
    out.push_str(&format!(
        r#"<svg viewBox="0 0 {0} {0}" xmlns="http://www.w3.org/2000/svg">"#,
        look.margin * 2 + n
    ));
    out.push_str(&format!(
        r#"<rect width="{0}px" height="{0}px" fill="{1}"/><path d=""#,
        look.margin * 2 + n,
        rgba2hex(look.ground)
    ));
    for i in 0..n {
        for j in 0..n {
            if !qr.data[i][j].value() {
                continue;
            }
            let (x, y) = (j + look.margin, i + look.margin);
            let current = match look.shape {
                Shape::Square => format!("M{},{}h1v1h-1", x, y),
                Shape::Circle => format!("M{},{}a.5,.5 0 1,1 0,-.1", x + 1, y as f64 + 0.5f64),
                Shape::RoundedSquare => {
                    format!("M{0}.2,{1}.2 {0}.8,{1}.2 {0}.8,{1}.8 {0}.2,{1}.8z", x, y)
                }
                Shape::Horizontal => format!("M{}.1,{}h1v.8h-1", x, y),
                Shape::Vertical => format!("M{},{}.1h.8v1h-.8", x, y),
                Shape::Diamond => format!("M{}.5,{}l.5,.5l-.5,.5l-.5,-.5z", x, y),
            };
            out.push_str(&current);
        }
    }
    if look.shape == Shape::RoundedSquare {
        out.push_str(&format!(
            r##"" stroke-width=".3" stroke-linejoin="round" stroke="{}"##,
            rgba2hex(look.dots)
        ));
    }
    out.push_str(&format!(r#"" fill="{}"/>"#, rgba2hex(look.dots)));
    if let Some(image) = &look.image {
        let version = (n - 17) / 4 - 1;
        let (border_size, placed_coord) = FRAMES[version];
        let gap = match look.image_shape {
            ImageBackgroundShape::Circle => 3f64,
            _ => 2f64,
        };
        let gap = gap * (version + 10) as f64 / 10f64;
        let placed_coord = placed_coord + look.margin as f64;
        let image_size = border_size - gap;
        out.push_str(&format!(
            r#"<rect x="{0:.2}" y="{0:.2}" width="{1:.2}" height="{1:.2}" fill="white"/>"#,
            placed_coord, border_size,
        ));
        let round = match look.image_shape {
            ImageBackgroundShape::Square => "",
            ImageBackgroundShape::Circle => r#" rx="1000px""#,
            ImageBackgroundShape::RoundedSquare => r#" rx="1px""#,
        };
        out.push_str(&format!(
            r#"<rect x="{0:.2}" y="{0:.2}" width="{1:.2}" height="{1:.2}" fill="{2}"{3}/>"#,
            placed_coord,
            border_size,
            rgba2hex(look.image_ground),
            round
        ));
        out.push_str(&format!(
            r#"<image x="{0:.2}" y="{0:.2}" width="{1:.2}" height="{1:.2}" href="{2}" />"#,
            placed_coord + (border_size - image_size) / 2f64,
            image_size,
            image
        ));
    }
    out.push_str("</svg>");
    out
}

#[test]
fn numbers_as_text() {
    for value in [0usize, 1, 9, 10, 11, 99, 100, 101, 12345, 1_000_000, usize::MAX] {
        let mut out = String::from("x");
        push_decimal(&mut out, value);
        assert_eq!(out, format!("x{}", value));
    }
    for value in [0usize, 5, 10, 99, 100, 280, 1310, 1165, 123456] {
        let mut out = String::new();
        push_hundredths(&mut out, value);
        assert_eq!(out, format!("{:.2}", value as f64 / 100.0));
    }
    for byte in 0..=255u8 {
        let mut out = String::new();
        push_hex(&mut out, byte);
        assert_eq!(out, format!("{:02x}", byte));
    }
    let mut out = String::from("M");
    push_pair(&mut out, 12, ".5,", 7, "z");
    assert_eq!(out, "M12.5,7z");
}

#[test]
fn colours_as_text() {
    assert_eq!(rgba2hex([0, 0, 0, 255]), "#000000");
    assert_eq!(rgba2hex([255, 255, 255, 255]), "#ffffff");
    assert_eq!(rgba2hex([255, 255, 255, 0]), "#ffffff00");
    assert_eq!(rgba2hex([1, 2, 255, 254]), "#0102fffe");
    assert_eq!(rgba2hex([165, 34, 247, 255]), "#a522f7");
}

#[test]
fn shapes_and_their_names() {
    let names = ["square", "circle", "rounded_square", "vertical", "horizontal", "diamond"];
    for (index, shape) in SHAPES.iter().enumerate() {
        assert_eq!(usize::from(*shape), index);
        assert_eq!(<&str>::from(*shape), names[index]);
        assert_eq!(shape.name(), names[index]);
        assert_eq!(Shape::from(names[index].to_string()), *shape);
        assert_eq!(Shape::from(names[index].to_uppercase()), *shape);
        assert_eq!(Shape::with_name(&names[index].to_string()), *shape);
    }
    assert_eq!(Shape::from("Rounded_Square".to_string()), Shape::RoundedSquare);
    assert_eq!(Shape::with_name(&"Circle".to_string()), Shape::Square);
    assert_eq!(Shape::from("hexagon".to_string()), Shape::Square);
    assert_eq!(Shape::from(String::new()), Shape::Square);
    assert!(Shape::Square < Shape::Diamond);
    assert!(ImageBackgroundShape::Square < ImageBackgroundShape::RoundedSquare);
}

#[test]
fn paths_of_single_modules() {
    for (y, x) in [(0usize, 0usize), (3, 14), (9, 10), (176, 99), (1000, 12345)] {
        assert_eq!(Shape::Square.path(y, x), format!("M{},{}h1v1h-1", x, y));
        assert_eq!(
            Shape::Circle.path(y, x),
            format!("M{},{}a.5,.5 0 1,1 0,-.1", x + 1, y as f32 + 0.5f32)
        );
        assert_eq!(
            Shape::RoundedSquare.path(y, x),
            format!("M{0}.2,{1}.2 {0}.8,{1}.2 {0}.8,{1}.8 {0}.2,{1}.8z", x, y)
        );
        assert_eq!(Shape::Horizontal.path(y, x), format!("M{},{}.1h1v.8h-1", x, y));
        assert_eq!(Shape::Vertical.path(y, x), format!("M{}.1,{}h.8v1h-.8", x, y));
        assert_eq!(Shape::Diamond.path(y, x), format!("M{}.5,{}l.5,.5l-.5,.5l-.5,-.5z", x, y));
    }
}

#[test]
fn errors_are_carried_over() {
    let error = ConvertError::from(SvgError::SvgError("no".to_string()));
    assert!(matches!(error, ConvertError::Svg(text) if text == "no"));
    let error = ConvertError::from(ImageError::ImageError("none".to_string()));
    assert!(matches!(error, ConvertError::Image(text) if text == "none"));
    let io = std::io::Error::new(std::io::ErrorKind::Other, "disk");
    assert!(matches!(ConvertError::from(SvgError::IoError(io)), ConvertError::Io(_)));
    let io = std::io::Error::new(std::io::ErrorKind::Other, "disk");
    assert!(matches!(ConvertError::from(ImageError::IoError(io)), ConvertError::Io(_)));
}

#[test]
fn default_drawing_of_a_small_matrix() {
    let mut qr = QRCode::default(2);
    qr.data[0][1] = Module::data(true);
    qr.data[1][0] = Module::fixed(true);
    let svg = SvgBuilder::default().to_str(&qr);
    assert_eq!(
        svg,
        "<svg viewBox=\"0 0 10 10\" xmlns=\"http://www.w3.org/2000/svg\">\
         <rect width=\"10px\" height=\"10px\" fill=\"#ffffff\"/>\
         <path d=\"M5,4h1v1h-1M4,5h1v1h-1\" fill=\"#000000\"/></svg>"
    );
    let svg = SvgBuilder::default().margin(0).shape(Shape::RoundedSquare).to_str(&qr);
    assert_eq!(
        svg,
        "<svg viewBox=\"0 0 2 2\" xmlns=\"http://www.w3.org/2000/svg\">\
         <rect width=\"2px\" height=\"2px\" fill=\"#ffffff\"/>\
         <path d=\"M1.2,0.2 1.8,0.2 1.8,0.8 1.2,0.8zM0.2,1.2 0.8,1.2 0.8,1.8 0.2,1.8z\" \
         stroke-width=\".3\" stroke-linejoin=\"round\" stroke=\"#000000\" fill=\"#000000\"/></svg>"
    );
}

#[test]
fn drawings_in_every_shape() {
    let qr = QRBuilder::new("https://example.com/").ecl(ECL::H).build().unwrap();
    for shape in SHAPES {
        for margin in [0usize, 1, 4, 10] {
            let look = Look {
                shape,
                margin,
                ground: [255, 255, 255, 0],
                dots: [10, 20, 30, 255],
                image: None,
                image_ground: [255; 4],
                image_shape: ImageBackgroundShape::Square,
            };
            let builder = builder_of(&look);
            assert!(builder.can_draw(&qr));
            assert_eq!(builder.to_str(&qr), expected_svg(&look, &qr));
        }
    }
}

#[test]
fn drawings_with_an_image_for_every_version() {
    for n in 1..=40u8 {
        let version = Version::from_number(n).unwrap();
        let qr = QRBuilder::new("IMAGE").version(version).build().unwrap();
        for image_shape in GROUNDS {
            for margin in [0usize, 4, 7] {
                let look = Look {
                    shape: if n % 2 == 0 { Shape::Square } else { Shape::Circle },
                    margin,
                    ground: [255; 4],
                    dots: [0, 0, 0, 255],
                    image: Some("./assets/example.com.svg".to_string()),
                    image_ground: [165, 34, 247, 255],
                    image_shape,
                };
                let builder = builder_of(&look);
                assert!(builder.can_draw(&qr));
                assert_eq!(builder.to_str(&qr), expected_svg(&look, &qr), "version {}", n);
            }
        }
    }
}

#[test]
fn what_cannot_be_drawn() {
    let qr = QRBuilder::new("1").build().unwrap();
    assert!(SvgBuilder::default().can_draw(&qr));
    assert!(SvgBuilder::default().margin(usize::MAX / 2 - 11).can_draw(&qr));
    assert!(!SvgBuilder::default().margin(usize::MAX / 2 - 10).can_draw(&qr));
    assert!(!SvgBuilder::default().margin(usize::MAX / 2).can_draw(&qr));
    assert!(!SvgBuilder::default().margin(usize::MAX).can_draw(&qr));
    assert!(SvgBuilder::default().image("a.png".to_string()).can_draw(&qr));
    assert!(SvgBuilder::default().image("a.png".to_string()).margin(usize::MAX / 100 - 100).can_draw(&qr));
    assert!(!SvgBuilder::default().image("a.png".to_string()).margin(usize::MAX / 100 - 99).can_draw(&qr));
    let odd = QRCode::default(10);
    assert!(SvgBuilder::default().can_draw(&odd));
    assert!(!SvgBuilder::default().image("a.png".to_string()).can_draw(&odd));
    assert!(!ImageBuilder::default().image("a.png".to_string()).can_draw(&odd));
    assert!(!SvgBuilder::default().image("a.png".to_string()).can_draw(&QRCode::default(181)));
    assert!(ImageBuilder::default().can_draw(&qr));
    assert!(!ImageBuilder::default().margin(usize::MAX).can_draw(&qr));
}

#[test]
fn fitting_follows_the_limits() {
    assert_eq!(ImageBuilder::default().fit(), Fit::Natural);
    assert_eq!(ImageBuilder::default().fit_width(600).fit(), Fit::Width(600));
    assert_eq!(ImageBuilder::default().fit_height(300).fit(), Fit::Width(300));
    assert_eq!(ImageBuilder::default().fit_width(600).fit_height(300).fit(), Fit::Size(600, 300));
    assert_eq!(ImageBuilder::default().fit_height(300).fit_width(600).margin(1).fit(), Fit::Size(600, 300));
}

#[test]
fn images_have_the_size_asked_for() {
    let qr = QRBuilder::new("https://example.com/").ecl(ECL::H).version(Version::V03).build().unwrap();
    let image = ImageBuilder::default().to_pixmap(&qr).unwrap();
    assert_eq!((image.width(), image.height()), (37, 37));
    let image = ImageBuilder::default().margin(0).to_pixmap(&qr).unwrap();
    assert_eq!((image.width(), image.height()), (29, 29));
    let image = ImageBuilder::default().fit_width(600).to_pixmap(&qr).unwrap();
    assert_eq!((image.width(), image.height()), (600, 600));
    let image = ImageBuilder::default().fit_height(300).to_pixmap(&qr).unwrap();
    assert_eq!((image.width(), image.height()), (300, 300));
    let image = ImageBuilder::default().fit_width(200).fit_height(100).to_pixmap(&qr).unwrap();
    assert_eq!((image.width(), image.height()), (100, 100));
    for (w, h) in [(1u32, 1u32), (1, 500), (500, 1), (36, 38), (38, 36), (37, 37), (640, 480)] {
        let image = ImageBuilder::default().fit_width(w).fit_height(h).to_pixmap(&qr).unwrap();
        assert!(image.width() >= 1 && image.width() <= w, "{} by {}", w, h);
        assert!(image.height() >= 1 && image.height() <= h, "{} by {}", w, h);
        assert!(image.width() == w || image.height() == h);
    }
    let refused = ImageBuilder::default().fit_width(10).fit_height(0).to_pixmap(&qr);
    assert!(matches!(refused, Err(ImageError::ImageError(_))));
    let refused = ImageBuilder::default().fit_width(0).to_pixmap(&qr);
    assert!(matches!(refused, Err(ImageError::ImageError(_))));
}

#[test]
fn images_show_the_modules() {
    let qr = QRBuilder::new("PIXELS").build().unwrap();
    let image = ImageBuilder::default()
        .margin(2)
        .background_color([255, 255, 255, 255])
        .module_color([0, 0, 255, 255])
        .to_pixmap(&qr)
        .unwrap();
    assert_eq!(image.width() as usize, qr.size + 4);
    let colour = |x: usize, y: usize| {
        let pixel = image.pixel(x as u32, y as u32).unwrap();
        (pixel.red(), pixel.green(), pixel.blue(), pixel.alpha())
    };
    assert_eq!(colour(0, 0), (255, 255, 255, 255));
    assert_eq!(colour(1, 1), (255, 255, 255, 255));
    for r in 0..qr.size {
        for c in 0..qr.size {
            let expected = if qr.data[r][c].dark { (0, 0, 255, 255) } else { (255, 255, 255, 255) };
            assert_eq!(colour(c + 2, r + 2), expected, "row {} column {}", r, c);
        }
    }
}
