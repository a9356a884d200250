//! Drawing a finished symbol: as SVG text and as an image.

pub mod image;
pub mod svg;

use vstd::prelude::*;
use vstd::std_specs::convert::FromSpecImpl;
use vstd::string::StringExecFns;
use crate::convert::image::ImageError;
use crate::convert::svg::SvgError;
use crate::number::{hex_byte, pair_text, push_hex, push_pair};

verus! {

/// An error of the operating system while a file was written.
#[verifier::external_type_specification]
#[verifier::external_body]
pub struct ExIoError(std::io::Error);

/// The shapes in which the modules of a symbol can be drawn.
#[derive(Debug, Clone, Copy, PartialEq, Eq, PartialOrd, Ord, Structural)]
pub enum Shape {
    /// A square that fills the cell.
    Square,
    /// A circle.
    Circle,
    /// A square with rounded corners.
    RoundedSquare,
    /// A bar that joins with its neighbours above and below.
    Vertical,
    /// A bar that joins with its neighbours left and right.
    Horizontal,
    /// A square that stands on a corner.
    Diamond,
}

/// The shapes of the ground on which an embedded image lies.
#[derive(Debug, Clone, Copy, PartialEq, Eq, PartialOrd, Ord, Structural)]
pub enum ImageBackgroundShape {
    /// A square.
    Square,
    /// A circle.
    Circle,
    /// A square with rounded corners.
    RoundedSquare,
}

/// Why a symbol could not be drawn or written.
#[derive(Debug)]
pub enum ConvertError {
    /// The SVG could not be made.
    Svg(String),
    /// The image could not be made.
    Image(String),
    /// The file could not be written.
    Io(std::io::Error),
}

/// The place of a shape in the list of shapes.
pub open spec fn shape_index(shape: Shape) -> usize {
    match shape {
        Shape::Square => 0,
        Shape::Circle => 1,
        Shape::RoundedSquare => 2,
        Shape::Vertical => 3,
        Shape::Horizontal => 4,
        Shape::Diamond => 5,
    }
}

/// The name of a shape.
pub open spec fn shape_name(shape: Shape) -> Seq<char> {
    match shape {
        Shape::Square => "square"@,
        Shape::Circle => "circle"@,
        Shape::RoundedSquare => "rounded_square"@,
        Shape::Vertical => "vertical"@,
        Shape::Horizontal => "horizontal"@,
        Shape::Diamond => "diamond"@,
    }
}

/// The shape with the given name in lower case; an unknown name stands for
/// the square.
pub open spec fn shape_named(name: Seq<char>) -> Shape {
    if name == "square"@ {
        Shape::Square
    } else if name == "circle"@ {
        Shape::Circle
    } else if name == "rounded_square"@ {
        Shape::RoundedSquare
    } else if name == "vertical"@ {
        Shape::Vertical
    } else if name == "horizontal"@ {
        Shape::Horizontal
    } else if name == "diamond"@ {
        Shape::Diamond
    } else {
        Shape::Square
    }
}

/// The text that `str::to_lowercase` makes of a text.
pub uninterp spec fn lowercased(text: Seq<char>) -> Seq<char>;

/// Calls `str::to_lowercase`, which gives the text with every character
/// replaced by its lower-case form as Unicode defines it.
#[verifier::external_body]
fn lowercase(text: &str) -> (lower: String)
    ensures
        lower@ == lowercased(text@),
{
    text.to_lowercase()
}

/// The SVG path of a module of the given shape whose cell has its top left
/// corner `x` to the right and `y` below the origin.
pub open spec fn shape_path(shape: Shape, y: int, x: int) -> Seq<char> {
    match shape {
        Shape::Square => "M"@ + pair_text(x, ","@, y, "h1v1h-1"@),
        Shape::Circle => "M"@ + pair_text(x + 1, ","@, y, ".5a.5,.5 0 1,1 0,-.1"@),
        Shape::RoundedSquare => "M"@ + pair_text(x, ".2,"@, y, ".2 "@) + pair_text(
            x,
            ".8,"@,
            y,
            ".2 "@,
        ) + pair_text(x, ".8,"@, y, ".8 "@) + pair_text(x, ".2,"@, y, ".8z"@),
        Shape::Vertical => "M"@ + pair_text(x, ".1,"@, y, "h.8v1h-.8"@),
        Shape::Horizontal => "M"@ + pair_text(x, ","@, y, ".1h1v.8h-1"@),
        Shape::Diamond => "M"@ + pair_text(x, ".5,"@, y, "l.5,.5l-.5,.5l-.5,-.5z"@),
    }
}

/// A colour as SVG writes it: a number sign and two hexadecimal digits each
/// for red, green and blue, and two more for the opacity unless the colour
/// is opaque.
pub open spec fn colour_text(color: [u8; 4]) -> Seq<char> {
    "#"@ + hex_byte(color[0]) + hex_byte(color[1]) + hex_byte(color[2]) + if color[3] != 255 {
        hex_byte(color[3])
    } else {
        Seq::empty()
    }
}

impl From<Shape> for usize {
    fn from(shape: Shape) -> (index: usize) {
        match shape {
            Shape::Square => 0,
            Shape::Circle => 1,
            Shape::RoundedSquare => 2,
            Shape::Vertical => 3,
            Shape::Horizontal => 4,
            Shape::Diamond => 5,
        }
    }
}

impl FromSpecImpl<Shape> for usize {
    open spec fn obeys_from_spec() -> bool {
        true
    }

    open spec fn from_spec(shape: Shape) -> usize {
        shape_index(shape)
    }
}

impl From<Shape> for &'static str {
    fn from(shape: Shape) -> (name: &'static str) {
        shape.name()
    }
}

impl FromSpecImpl<Shape> for &'static str {
    open spec fn obeys_from_spec() -> bool {
        true
    }

    open spec fn from_spec(shape: Shape) -> &'static str {
        shape.spec_name()
    }
}

impl From<String> for Shape {
    fn from(name: String) -> (shape: Shape) {
        let lower = lowercase(name.as_str());
        Shape::with_name(&lower)
    }
}

impl FromSpecImpl<String> for Shape {
    open spec fn obeys_from_spec() -> bool {
        true
    }

    open spec fn from_spec(name: String) -> Shape {
        shape_named(lowercased(name@))
    }
}

impl Shape {
    /// The shape with the given name in lower case. An unknown name gives
    /// the square.
    pub fn with_name(name: &String) -> (shape: Shape)
        ensures
            shape == shape_named(name@),
    {
        if *name == String::from_str("square") {
            Shape::Square
        } else if *name == String::from_str("circle") {
            Shape::Circle
        } else if *name == String::from_str("rounded_square") {
            Shape::RoundedSquare
        } else if *name == String::from_str("vertical") {
            Shape::Vertical
        } else if *name == String::from_str("horizontal") {
            Shape::Horizontal
        } else if *name == String::from_str("diamond") {
            Shape::Diamond
        } else {
            Shape::Square
        }
    }

    /// The name of a shape as a text of the program.
    pub open spec fn spec_name(self) -> &'static str {
        match self {
            Shape::Square => "square",
            Shape::Circle => "circle",
            Shape::RoundedSquare => "rounded_square",
            Shape::Vertical => "vertical",
            Shape::Horizontal => "horizontal",
            Shape::Diamond => "diamond",
        }
    }

    /// The name of this shape.
    pub fn name(self) -> (name: &'static str)
        ensures
            name == self.spec_name(),
            name@ == shape_name(self),
    {
        match self {
            Shape::Square => "square",
            Shape::Circle => "circle",
            Shape::RoundedSquare => "rounded_square",
            Shape::Vertical => "vertical",
            Shape::Horizontal => "horizontal",
            Shape::Diamond => "diamond",
        }
    }

    /// The SVG path of a module of this shape whose cell has its top left
    /// corner `x` to the right and `y` below the origin.
    pub fn path(self, y: usize, x: usize) -> (path: String)
        requires
            x < usize::MAX,
        ensures
            path@ == shape_path(self, y as int, x as int),
    {
        let mut path = String::new();
        path.append("M");
        match self {
            Shape::Square => {
                push_pair(&mut path, x, ",", y, "h1v1h-1");
            },
            Shape::Circle => {
                push_pair(&mut path, x + 1, ",", y, ".5a.5,.5 0 1,1 0,-.1");
            },
            Shape::RoundedSquare => {
                push_pair(&mut path, x, ".2,", y, ".2 ");
                push_pair(&mut path, x, ".8,", y, ".2 ");
                push_pair(&mut path, x, ".8,", y, ".8 ");
                push_pair(&mut path, x, ".2,", y, ".8z");
            },
            Shape::Vertical => {
                push_pair(&mut path, x, ".1,", y, "h.8v1h-.8");
            },
            Shape::Horizontal => {
                push_pair(&mut path, x, ",", y, ".1h1v.8h-1");
            },
            Shape::Diamond => {
                push_pair(&mut path, x, ".5,", y, "l.5,.5l-.5,.5l-.5,-.5z");
            },
        }
        assert(path@ =~= shape_path(self, y as int, x as int));
        path
    }
}

impl From<SvgError> for ConvertError {
    fn from(err: SvgError) -> (error: ConvertError) {
        match err {
            SvgError::SvgError(svg_err) => ConvertError::Svg(svg_err),
            SvgError::IoError(io_err) => ConvertError::Io(io_err),
        }
    }
}

impl FromSpecImpl<SvgError> for ConvertError {
    open spec fn obeys_from_spec() -> bool {
        true
    }

    open spec fn from_spec(err: SvgError) -> ConvertError {
        match err {
            SvgError::SvgError(svg_err) => ConvertError::Svg(svg_err),
            SvgError::IoError(io_err) => ConvertError::Io(io_err),
        }
    }
}

impl From<ImageError> for ConvertError {
    fn from(err: ImageError) -> (error: ConvertError) {
        match err {
            ImageError::ImageError(image_err) => ConvertError::Image(image_err),
            ImageError::IoError(io_err) => ConvertError::Io(io_err),
        }
    }
}

impl FromSpecImpl<ImageError> for ConvertError {
    open spec fn obeys_from_spec() -> bool {
        true
    }

    open spec fn from_spec(err: ImageError) -> ConvertError {
        match err {
            ImageError::ImageError(image_err) => ConvertError::Image(image_err),
            ImageError::IoError(io_err) => ConvertError::Io(io_err),
        }
    }
}

/// Writes a colour as SVG does: `#rrggbb`, or `#rrggbbaa` where the colour
/// is not opaque.
pub fn rgba2hex(color: [u8; 4]) -> (hex: String)
    ensures
        hex@ == colour_text(color),
{
    let mut hex = String::new();
    hex.append("#");
    push_hex(&mut hex, color[0]);
    push_hex(&mut hex, color[1]);
    push_hex(&mut hex, color[2]);
    if color[3] != 255 {
        push_hex(&mut hex, color[3]);
    }
    assert(hex@ =~= colour_text(color));
    hex
}

/// What a drawing looks like: everything that the builders let one choose.
pub struct Style {
    /// The shape of the modules.
    pub shape: Shape,
    /// The width of the margin around the symbol, in modules.
    pub margin: usize,
    /// The colour of the ground.
    pub background_color: [u8; 4],
    /// The colour of the modules.
    pub dot_color: [u8; 4],
    /// Where the embedded image is found, if there is one.
    pub image: Option<Seq<char>>,
    /// The colour of the ground under the embedded image.
    pub image_background_color: [u8; 4],
    /// The shape of the ground under the embedded image.
    pub image_background_shape: ImageBackgroundShape,
}

/// What `SvgBuilder` and `ImageBuilder` have in common: the choices of how a
/// symbol is drawn.
pub trait Builder: Sized {
    /// The choices made so far.
    spec fn style(&self) -> Style;

    /// Sets the width of the margin.
    fn margin(&mut self, margin: usize) -> (builder: &mut Self)
        ensures
            builder.style() == (Style { margin, ..old(self).style() }),
            *final(self) == *final(builder),
    ;

    /// Sets the colour of the modules.
    fn module_color(&mut self, module_color: [u8; 4]) -> (builder: &mut Self)
        ensures
            builder.style() == (Style { dot_color: module_color, ..old(self).style() }),
            *final(self) == *final(builder),
    ;

    /// Sets the colour of the ground.
    fn background_color(&mut self, background_color: [u8; 4]) -> (builder: &mut Self)
        ensures
            builder.style() == (Style { background_color, ..old(self).style() }),
            *final(self) == *final(builder),
    ;

    /// Sets the shape of the modules.
    fn shape(&mut self, shape: Shape) -> (builder: &mut Self)
        ensures
            builder.style() == (Style { shape, ..old(self).style() }),
            *final(self) == *final(builder),
    ;

    /// Embeds the image that is found at the given address.
    fn image(&mut self, image: String) -> (builder: &mut Self)
        ensures
            builder.style() == (Style { image: Some(image@), ..old(self).style() }),
            *final(self) == *final(builder),
    ;

    /// Sets the colour of the ground under the embedded image.
    fn image_background_color(&mut self, image_background_color: [u8; 4]) -> (builder: &mut Self)
        ensures
            builder.style() == (Style { image_background_color, ..old(self).style() }),
            *final(self) == *final(builder),
    ;

    /// Sets the shape of the ground under the embedded image.
    fn image_background_shape(&mut self, image_background_shape: ImageBackgroundShape) -> (builder:
        &mut Self)
        ensures
            builder.style() == (Style { image_background_shape, ..old(self).style() }),
            *final(self) == *final(builder),
    ;
}

} // verus!
