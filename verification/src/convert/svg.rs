//! Symbols as SVG text.

use vstd::prelude::*;
use vstd::string::StringExecFns;
use crate::convert::{colour_text, rgba2hex, Builder, ImageBackgroundShape, Shape, Style};
use crate::module::Module;
use crate::number::{decimal, hundredths, pair_text, push_decimal, push_hundredths, push_pair};
use crate::placement::matrix;
use crate::qr::QRCode;
use crate::text::{dark_at, is_dark};
use crate::version::Version;

verus! {

/// Width of the ground under an embedded image, in modules, for each
/// version from the first on.
pub const IMAGE_BORDER: [u8; 40] = [
    5, 9, 9, 11, 13, 13, 15, 17, 17, 19,
    21, 21, 23, 25, 25, 27, 29, 29, 31, 33,
    33, 35, 37, 37, 39, 41, 41, 43, 45, 45,
    47, 49, 49, 51, 53, 53, 55, 57, 57, 59,
];

/// Distance of the ground under an embedded image from the top left corner
/// of the symbol, in modules, for each version from the first on.
pub const IMAGE_PLACE: [u8; 40] = [
    8, 8, 10, 11, 12, 14, 15, 16, 18, 19,
    20, 22, 23, 24, 26, 27, 28, 30, 31, 32,
    34, 35, 36, 38, 39, 40, 42, 43, 44, 46,
    47, 48, 50, 51, 52, 54, 55, 56, 58, 59,
];

/// Why an SVG could not be made or written.
#[derive(Debug)]
pub enum SvgError {
    /// The file could not be written.
    IoError(std::io::Error),
    /// The SVG could not be made.
    SvgError(String),
}

/// Draws symbols as SVG text.
pub struct SvgBuilder {
    shape: Shape,
    margin: usize,
    background_color: [u8; 4],
    dot_color: [u8; 4],
    image: Option<String>,
    image_background_color: [u8; 4],
    image_background_shape: ImageBackgroundShape,
}

/// The choices of a new builder: black squares on white with a margin of
/// four modules, and no image.
pub open spec fn default_style() -> Style {
    Style {
        shape: Shape::Square,
        margin: 4,
        background_color: [255u8, 255u8, 255u8, 255u8],
        dot_color: [0u8, 0u8, 0u8, 255u8],
        image: None,
        image_background_color: [255u8, 255u8, 255u8, 255u8],
        image_background_shape: ImageBackgroundShape::Square,
    }
}

/// Whether `n` is the side length of a symbol.
pub open spec fn is_symbol_size(n: int) -> bool {
    21 <= n <= 177 && (n - 17) % 4 == 0
}

/// Where an embedded image and the ground under it lie in a symbol of side
/// `n`, in hundredths of a module: the width of the ground, its distance
/// from the top left corner of the drawing, and the width of the image. The
/// image is smaller than its ground by a gap that grows with the version.
pub open spec fn image_frame(shape: ImageBackgroundShape, margin: int, n: int) -> (int, int, int) {
    let index = (n - 17) / 4 - 1;
    let gap = match shape {
        ImageBackgroundShape::Circle => 30 * (index + 10),
        _ => 20 * (index + 10),
    };
    (
        100 * IMAGE_BORDER[index] as int,
        100 * (IMAGE_PLACE[index] as int + margin),
        100 * IMAGE_BORDER[index] as int - gap,
    )
}

/// The beginning of the SVG text: the frame, the ground, and the opening of
/// the path that draws the modules.
pub open spec fn svg_head(style: Style, n: int) -> Seq<char> {
    let width = decimal(style.margin * 2 + n);
    "<svg viewBox=\"0 0 "@ + width + " "@ + width + "\" xmlns=\"http://www.w3.org/2000/svg\">"@
        + "<rect width=\""@ + width + "px\" height=\""@ + width + "px\" fill=\""@ + colour_text(
        style.background_color,
    ) + "\"/><path d=\""@
}

/// The piece of the path that draws one module whose cell has its top left
/// corner `x` to the right and `y` below the origin.
pub open spec fn svg_module(shape: Shape, y: int, x: int) -> Seq<char> {
    match shape {
        Shape::Square => "M"@ + pair_text(x, ","@, y, "h1v1h-1"@),
        Shape::Circle => "M"@ + pair_text(x + 1, ","@, y, ".5a.5,.5 0 1,1 0,-.1"@),
        Shape::RoundedSquare => "M"@ + pair_text(x, ".2,"@, y, ".2 "@) + pair_text(
            x,
            ".8,"@,
            y,
            ".2 "@,
        ) + pair_text(x, ".8,"@, y, ".8 "@) + pair_text(x, ".2,"@, y, ".8z"@),
        Shape::Vertical => "M"@ + pair_text(x, ","@, y, ".1h.8v1h-.8"@),
        Shape::Horizontal => "M"@ + pair_text(x, ".1,"@, y, "h1v.8h-1"@),
        Shape::Diamond => "M"@ + pair_text(x, ".5,"@, y, "l.5,.5l-.5,.5l-.5,-.5z"@),
    }
}

/// The path of the dark modules in the rows above row `i` and in the first
/// `j` columns of row `i`, row by row.
pub open spec fn svg_modules_upto(style: Style, m: Seq<Seq<Module>>, n: int, i: int, j: int) -> Seq<
    char,
>
    decreases i, j,
{
    if j > 0 {
        svg_modules_upto(style, m, n, i, j - 1) + if dark_at(m, i, j - 1) {
            svg_module(style.shape, i + style.margin, j - 1 + style.margin)
        } else {
            Seq::empty()
        }
    } else if i > 0 {
        svg_modules_upto(style, m, n, i - 1, n)
    } else {
        Seq::empty()
    }
}

/// The end of the path: its colour, and for rounded squares the stroke
/// that rounds them.
pub open spec fn svg_tail(style: Style) -> Seq<char> {
    let colour = colour_text(style.dot_color);
    if style.shape == Shape::RoundedSquare {
        "\" stroke-width=\".3\" stroke-linejoin=\"round\" stroke=\""@ + colour + "\" fill=\""@
            + colour + "\"/>"@
    } else {
        "\" fill=\""@ + colour + "\"/>"@
    }
}

/// A rectangle with its corner at `(at, at)` and the given width and height,
/// as the beginning of an SVG element.
pub open spec fn svg_square(at: int, width: int) -> Seq<char> {
    "<rect x=\""@ + hundredths(at) + "\" y=\""@ + hundredths(at) + "\" width=\""@ + hundredths(
        width,
    ) + "\" height=\""@ + hundredths(width) + "\" fill=\""@
}

/// The ground under an embedded image: a white square, and over it a
/// square, circle or rounded square in the chosen colour.
pub open spec fn svg_ground(
    shape: ImageBackgroundShape,
    color: [u8; 4],
    place: int,
    border: int,
) -> Seq<char> {
    svg_square(place, border) + "white\"/>"@ + svg_square(place, border) + colour_text(color)
        + match shape {
        ImageBackgroundShape::Square => "\"/>"@,
        ImageBackgroundShape::Circle => "\" rx=\"1000px\"/>"@,
        ImageBackgroundShape::RoundedSquare => "\" rx=\"1px\"/>"@,
    }
}

/// The element that shows the image found at `href` with its corner at
/// `(at, at)` and the given width and height.
pub open spec fn svg_picture(at: int, size: int, href: Seq<char>) -> Seq<char> {
    "<image x=\""@ + hundredths(at) + "\" y=\""@ + hundredths(at) + "\" width=\""@ + hundredths(
        size,
    ) + "\" height=\""@ + hundredths(size) + "\" href=\""@ + href + "\" />"@
}

/// The embedded image, if there is one: its ground, and the image in the
/// middle of it.
pub open spec fn svg_image(style: Style, n: int) -> Seq<char> {
    match style.image {
        None => Seq::empty(),
        Some(href) => {
            let (border, place, size) = image_frame(
                style.image_background_shape,
                style.margin as int,
                n,
            );
            svg_ground(style.image_background_shape, style.image_background_color, place, border)
                + svg_picture(place + (border - size) / 2, size, href)
        },
    }
}

/// The SVG text of a symbol of `n` rows and columns.
pub open spec fn svg_text(style: Style, m: Seq<Seq<Module>>, n: int) -> Seq<char> {
    svg_head(style, n) + svg_modules_upto(style, m, n, n, 0) + svg_tail(style) + svg_image(
        style,
        n,
    ) + "</svg>"@
}

/// Whether a symbol of side `n` can be drawn in the given style: the
/// numbers that are written must not be too large for the machine, and a
/// symbol that gets an image must have the size of one of the forty
/// versions.
pub open spec fn can_draw(style: Style, n: int) -> bool {
    &&& style.margin * 2 + n < usize::MAX
    &&& style.image is Some ==> is_symbol_size(n) && 100 * (style.margin + 100) <= usize::MAX
}

impl Default for SvgBuilder {
    fn default() -> (builder: SvgBuilder)
        ensures
            builder.style() == default_style(),
    {
        SvgBuilder {
            background_color: [255, 255, 255, 255],
            dot_color: [0, 0, 0, 255],
            margin: 4,
            shape: Shape::Square,
            image: None,
            image_background_color: [255, 255, 255, 255],
            image_background_shape: ImageBackgroundShape::Square,
        }
    }
}

impl Builder for SvgBuilder {
    closed spec fn style(&self) -> Style {
        Style {
            shape: self.shape,
            margin: self.margin,
            background_color: self.background_color,
            dot_color: self.dot_color,
            image: match self.image {
                Some(href) => Some(href@),
                None => None,
            },
            image_background_color: self.image_background_color,
            image_background_shape: self.image_background_shape,
        }
    }

    fn margin(&mut self, margin: usize) -> (builder: &mut Self) {
        self.margin = margin;
        self
    }

    fn module_color(&mut self, module_color: [u8; 4]) -> (builder: &mut Self) {
        self.dot_color = module_color;
        self
    }

    fn background_color(&mut self, background_color: [u8; 4]) -> (builder: &mut Self) {
        self.background_color = background_color;
        self
    }

    fn shape(&mut self, shape: Shape) -> (builder: &mut Self) {
        self.shape = shape;
        self
    }

    fn image(&mut self, image: String) -> (builder: &mut Self) {
        self.image = Some(image);
        self
    }

    fn image_background_color(&mut self, image_background_color: [u8; 4]) -> (builder: &mut Self) {
        self.image_background_color = image_background_color;
        self
    }

    fn image_background_shape(&mut self, image_background_shape: ImageBackgroundShape) -> (builder:
        &mut Self) {
        self.image_background_shape = image_background_shape;
        self
    }
}

fn push_module(out: &mut String, shape: Shape, y: usize, x: usize)
    requires
        x < usize::MAX,
    ensures
        final(out)@ == old(out)@ + svg_module(shape, y as int, x as int),
{
    out.append("M");
    match shape {
        Shape::Square => {
            push_pair(out, x, ",", y, "h1v1h-1");
        },
        Shape::Circle => {
            push_pair(out, x + 1, ",", y, ".5a.5,.5 0 1,1 0,-.1");
        },
        Shape::RoundedSquare => {
            push_pair(out, x, ".2,", y, ".2 ");
            push_pair(out, x, ".8,", y, ".2 ");
            push_pair(out, x, ".8,", y, ".8 ");
            push_pair(out, x, ".2,", y, ".8z");
        },
        Shape::Vertical => {
            push_pair(out, x, ",", y, ".1h.8v1h-.8");
        },
        Shape::Horizontal => {
            push_pair(out, x, ".1,", y, "h1v.8h-1");
        },
        Shape::Diamond => {
            push_pair(out, x, ".5,", y, "l.5,.5l-.5,.5l-.5,-.5z");
        },
    }
    assert(out@ =~= old(out)@ + svg_module(shape, y as int, x as int));
}

fn push_square(out: &mut String, at: usize, width: usize)
    ensures
        final(out)@ == old(out)@ + svg_square(at as int, width as int),
{
    out.append("<rect x=\"");
    push_hundredths(out, at);
    out.append("\" y=\"");
    push_hundredths(out, at);
    out.append("\" width=\"");
    push_hundredths(out, width);
    out.append("\" height=\"");
    push_hundredths(out, width);
    out.append("\" fill=\"");
    assert(out@ =~= old(out)@ + svg_square(at as int, width as int));
}

fn push_ground(
    out: &mut String,
    shape: ImageBackgroundShape,
    color: [u8; 4],
    place: usize,
    border: usize,
)
    ensures
        final(out)@ == old(out)@ + svg_ground(shape, color, place as int, border as int),
{
    push_square(out, place, border);
    out.append("white\"/>");
    push_square(out, place, border);
    let under = rgba2hex(color);
    out.append(under.as_str());
    match shape {
        ImageBackgroundShape::Square => {
            out.append("\"/>");
        },
        ImageBackgroundShape::Circle => {
            out.append("\" rx=\"1000px\"/>");
        },
        ImageBackgroundShape::RoundedSquare => {
            out.append("\" rx=\"1px\"/>");
        },
    }
    assert(out@ =~= old(out)@ + svg_ground(shape, color, place as int, border as int));
}

fn push_picture(out: &mut String, at: usize, size: usize, href: &str)
    ensures
        final(out)@ == old(out)@ + svg_picture(at as int, size as int, href@),
{
    out.append("<image x=\"");
    push_hundredths(out, at);
    out.append("\" y=\"");
    push_hundredths(out, at);
    out.append("\" width=\"");
    push_hundredths(out, size);
    out.append("\" height=\"");
    push_hundredths(out, size);
    out.append("\" href=\"");
    out.append(href);
    out.append("\" />");
    assert(out@ =~= old(out)@ + svg_picture(at as int, size as int, href@));
}

impl SvgBuilder {
    /// Finds where an embedded image and the ground under it lie in a
    /// symbol of side `n`, in hundredths of a module.
    fn image_placement(image_background_shape: ImageBackgroundShape, margin: usize, n: usize) -> (frame:
        (usize, usize, usize))
        requires
            is_symbol_size(n as int),
            100 * (margin + 100) <= usize::MAX,
        ensures
            frame.0 == image_frame(image_background_shape, margin as int, n as int).0,
            frame.1 == image_frame(image_background_shape, margin as int, n as int).1,
            frame.2 == image_frame(image_background_shape, margin as int, n as int).2,
            frame.2 <= frame.0,
    {
        let index: usize = match Version::from_n(n) {
            Some(version) => version.number() as usize - 1,
            None => 0,
        };
        let border: usize = IMAGE_BORDER[index] as usize;
        let place: usize = IMAGE_PLACE[index] as usize;
        let gap: usize = match image_background_shape {
            ImageBackgroundShape::Circle => 30 * (index + 10),
            _ => 20 * (index + 10),
        };
        (100 * border, 100 * (place + margin), 100 * border - gap)
    }

    fn push_head(&self, out: &mut String, n: usize)
        requires
            self.style().margin * 2 + n < usize::MAX,
        ensures
            final(out)@ == old(out)@ + svg_head(self.style(), n as int),
    {
        let width: usize = self.margin * 2 + n;
        out.append("<svg viewBox=\"0 0 ");
        push_decimal(out, width);
        out.append(" ");
        push_decimal(out, width);
        out.append("\" xmlns=\"http://www.w3.org/2000/svg\">");
        out.append("<rect width=\"");
        push_decimal(out, width);
        out.append("px\" height=\"");
        push_decimal(out, width);
        out.append("px\" fill=\"");
        let ground = rgba2hex(self.background_color);
        out.append(ground.as_str());
        out.append("\"/><path d=\"");
        assert(out@ =~= old(out)@ + svg_head(self.style(), n as int));
    }

    fn push_modules(&self, out: &mut String, qr: &QRCode)
        requires
            self.style().margin * 2 + qr.size < usize::MAX,
        ensures
            final(out)@ == old(out)@ + svg_modules_upto(
                self.style(),
                qr.matrix(),
                qr.size as int,
                qr.size as int,
                0,
            ),
    {
        let n: usize = qr.size;
        let ghost style = self.style();
        let ghost m = qr.matrix();
        let mut i: usize = 0;
        assert(out@ =~= old(out)@ + svg_modules_upto(style, m, n as int, 0, 0));
        while i < n
            invariant
                i <= n == qr.size,
                style == self.style(),
                m == qr.matrix(),
                style.margin * 2 + n < usize::MAX,
                out@ == old(out)@ + svg_modules_upto(style, m, n as int, i as int, 0),
            decreases n - i,
        {
            let mut j: usize = 0;
            while j < n
                invariant
                    j <= n == qr.size,
                    i < n,
                    style == self.style(),
                    m == qr.matrix(),
                    style.margin * 2 + n < usize::MAX,
                    out@ == old(out)@ + svg_modules_upto(style, m, n as int, i as int, j as int),
                decreases n - j,
            {
                if is_dark(&qr.data, i, j) {
                    push_module(out, self.shape, i + self.margin, j + self.margin);
                }
                j = j + 1;
                assert(out@ =~= old(out)@ + svg_modules_upto(
                    style,
                    m,
                    n as int,
                    i as int,
                    j as int,
                ));
            }
            i = i + 1;
        }
    }

    fn push_tail(&self, out: &mut String)
        ensures
            final(out)@ == old(out)@ + svg_tail(self.style()),
    {
        let colour = rgba2hex(self.dot_color);
        match self.shape {
            Shape::RoundedSquare => {
                out.append("\" stroke-width=\".3\" stroke-linejoin=\"round\" stroke=\"");
                out.append(colour.as_str());
            },
            _ => {},
        }
        out.append("\" fill=\"");
        out.append(colour.as_str());
        out.append("\"/>");
        assert(out@ =~= old(out)@ + svg_tail(self.style()));
    }

    fn push_image(&self, out: &mut String, n: usize)
        requires
            self.style().image is Some ==> is_symbol_size(n as int) && 100 * (self.style().margin
                + 100) <= usize::MAX,
        ensures
            final(out)@ == old(out)@ + svg_image(self.style(), n as int),
    {
        match &self.image {
            Some(image) => {
                let (border, place, size) = SvgBuilder::image_placement(
                    self.image_background_shape,
                    self.margin,
                    n,
                );
                push_ground(
                    out,
                    self.image_background_shape,
                    self.image_background_color,
                    place,
                    border,
                );
                push_picture(out, place + (border - size) / 2, size, image.as_str());
                assert(out@ =~= old(out)@ + svg_image(self.style(), n as int));
            },
            None => {
                assert(out@ =~= old(out)@ + svg_image(self.style(), n as int));
            },
        }
    }

    /// Whether the symbol can be drawn in the style of this builder.
    pub fn can_draw(&self, qr: &QRCode) -> (ok: bool)
        ensures
            ok == can_draw(self.style(), qr.size as int),
    {
        let n: usize = qr.size;
        let room: bool = n < usize::MAX && self.margin <= (usize::MAX - 1 - n) / 2;
        let image: bool = match &self.image {
            Some(_) => 21 <= n && n <= 177 && (n - 17) % 4 == 0 && self.margin <= usize::MAX / 100
                - 100,
            None => true,
        };
        room && image
    }

    /// Draws a symbol as SVG text.
    pub fn to_str(&self, qr: &QRCode) -> (text: String)
        requires
            can_draw(self.style(), qr.size as int),
        ensures
            text@ == svg_text(self.style(), qr.matrix(), qr.size as int),
    {
        let mut out = String::new();
        self.push_head(&mut out, qr.size);
        self.push_modules(&mut out, qr);
        self.push_tail(&mut out);
        self.push_image(&mut out, qr.size);
        out.append("</svg>");
        assert(out@ =~= svg_text(self.style(), qr.matrix(), qr.size as int));
        out
    }
}

} // verus!
