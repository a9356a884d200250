//! Symbols as images: the SVG text of a symbol, rendered to pixels by
//! `resvg`.

use vstd::prelude::*;
use vstd::string::StringExecFns;
use resvg::tiny_skia::Pixmap;
use resvg::usvg::Tree;
use crate::convert::svg::{can_draw, default_style, SvgBuilder};
use crate::convert::{Builder, ImageBackgroundShape, Shape, Style};
use crate::qr::QRCode;

verus! {

/// An image in memory, as `tiny_skia` holds it.
#[verifier::external_type_specification]
#[verifier::external_body]
pub struct ExPixmap(resvg::tiny_skia::Pixmap);

/// A parsed SVG document, as `usvg` holds it.
#[verifier::external_type_specification]
#[verifier::external_body]
pub struct ExTree(resvg::usvg::Tree);

/// Why an image could not be made or written.
#[derive(Debug)]
pub enum ImageError {
    /// The file could not be written.
    IoError(std::io::Error),
    /// The image could not be made.
    ImageError(String),
}

/// How an image is fitted to the limits of the caller.
#[derive(Copy, Clone, Debug, PartialEq, Eq, Structural)]
pub enum Fit {
    /// The image keeps the size of the drawing.
    Natural,
    /// The image is scaled to the given width.
    Width(u32),
    /// The image is scaled to fit into the given width and height.
    Size(u32, u32),
}

/// Draws symbols as images.
pub struct ImageBuilder {
    fit_height: Option<u32>,
    fit_width: Option<u32>,
    svg_builder: SvgBuilder,
}

/// The fitting that follows from the limits of the caller. With both limits
/// the image fits into both; a single limit, be it on the width or on the
/// height, is applied to the width.
pub open spec fn fit_for(fit_width: Option<u32>, fit_height: Option<u32>) -> Fit {
    match (fit_width, fit_height) {
        (Some(w), Some(h)) => Fit::Size(w, h),
        (Some(w), None) => Fit::Width(w),
        (None, Some(h)) => Fit::Width(h),
        (None, None) => Fit::Natural,
    }
}

/// The width of an image in pixels, as `tiny_skia::Pixmap::width` gives it.
pub uninterp spec fn pixmap_width(pixmap: Pixmap) -> int;

/// The height of an image in pixels, as `tiny_skia::Pixmap::height` gives it.
pub uninterp spec fn pixmap_height(pixmap: Pixmap) -> int;

/// Calls `usvg::Tree::from_data` on the text, with the default options of
/// `usvg` but for the font family. Nothing is claimed of the outcome: the
/// text may not parse, and an image that it names is read from disk.
#[verifier::external_body]
fn parse_tree(svg: &str, font_family: &str) -> (tree: Option<Tree>) {
    let opt = resvg::usvg::Options {
        font_family: font_family.to_string(),
        ..resvg::usvg::Options::default()
    };
    Tree::from_data(svg.as_bytes(), &opt).ok()
}

/// Calls `usvg::FitTo::fit_to` on the size of the document in whole pixels.
/// A size that comes back has no side of zero length, scaling to a width
/// gives that width, and scaling into a width and a height gives a size
/// that goes beyond neither.
#[verifier::external_body]
fn fitted_size(tree: &Tree, fit: Fit) -> (size: Option<(u32, u32)>)
    ensures
        size matches Some((width, height)) ==> width > 0 && height > 0,
        size matches Some((width, _)) ==> (fit matches Fit::Width(w) ==> width == w),
        size matches Some((width, height)) ==> (fit matches Fit::Size(w, h) ==> width <= w
            && height <= h),
{
    let fit_to = match fit {
        Fit::Natural => resvg::usvg::FitTo::Original,
        Fit::Width(w) => resvg::usvg::FitTo::Width(w),
        Fit::Size(w, h) => resvg::usvg::FitTo::Size(w, h),
    };
    fit_to.fit_to(tree.size.to_screen_size()).map(|size| (size.width(), size.height()))
}

/// Calls `tiny_skia::Pixmap::new`, which refuses a side of zero length and
/// else, unless the image is too large, gives an image of the width and
/// height asked for.
#[verifier::external_body]
fn new_pixmap(width: u32, height: u32) -> (pixmap: Option<Pixmap>)
    ensures
        width == 0 || height == 0 ==> pixmap is None,
        pixmap matches Some(made) ==> pixmap_width(made) == width && pixmap_height(made)
            == height,
{
    Pixmap::new(width, height)
}

/// Calls `resvg::render` with no transform, and says whether it drew. The
/// renderer draws into the image that it is given and leaves its size as
/// it is.
#[verifier::external_body]
fn draw(tree: &Tree, fit: Fit, pixmap: &mut Pixmap) -> (drawn: bool)
    ensures
        pixmap_width(*final(pixmap)) == pixmap_width(*old(pixmap)),
        pixmap_height(*final(pixmap)) == pixmap_height(*old(pixmap)),
{
    let fit_to = match fit {
        Fit::Natural => resvg::usvg::FitTo::Original,
        Fit::Width(w) => resvg::usvg::FitTo::Width(w),
        Fit::Size(w, h) => resvg::usvg::FitTo::Size(w, h),
    };
    let transform = resvg::tiny_skia::Transform::default();
    resvg::render(tree, fit_to, transform, pixmap.as_mut()).is_some()
}

impl Default for ImageBuilder {
    fn default() -> (builder: ImageBuilder)
        ensures
            builder.style() == default_style(),
            builder.limits() == (None::<u32>, None::<u32>),
    {
        ImageBuilder { fit_height: None, fit_width: None, svg_builder: SvgBuilder::default() }
    }
}

impl Builder for ImageBuilder {
    closed spec fn style(&self) -> Style {
        self.svg_builder.style()
    }

    fn margin(&mut self, margin: usize) -> (builder: &mut Self)
        ensures
            builder.limits() == old(self).limits(),
    {
        self.svg_builder.margin(margin);
        self
    }

    fn module_color(&mut self, module_color: [u8; 4]) -> (builder: &mut Self)
        ensures
            builder.limits() == old(self).limits(),
    {
        self.svg_builder.module_color(module_color);
        self
    }

    fn background_color(&mut self, background_color: [u8; 4]) -> (builder: &mut Self)
        ensures
            builder.limits() == old(self).limits(),
    {
        self.svg_builder.background_color(background_color);
        self
    }

    fn shape(&mut self, shape: Shape) -> (builder: &mut Self)
        ensures
            builder.limits() == old(self).limits(),
    {
        self.svg_builder.shape(shape);
        self
    }

    fn image(&mut self, image: String) -> (builder: &mut Self)
        ensures
            builder.limits() == old(self).limits(),
    {
        self.svg_builder.image(image);
        self
    }

    fn image_background_color(&mut self, image_background_color: [u8; 4]) -> (builder: &mut Self)
        ensures
            builder.limits() == old(self).limits(),
    {
        self.svg_builder.image_background_color(image_background_color);
        self
    }

    fn image_background_shape(&mut self, image_background_shape: ImageBackgroundShape) -> (builder:
        &mut Self)
        ensures
            builder.limits() == old(self).limits(),
    {
        self.svg_builder.image_background_shape(image_background_shape);
        self
    }
}

impl ImageBuilder {
    /// The limits on width and height that were set.
    pub closed spec fn limits(&self) -> (Option<u32>, Option<u32>) {
        (self.fit_width, self.fit_height)
    }

    /// Sets a limit on the height of the image.
    pub fn fit_height(&mut self, height: u32) -> (builder: &mut Self)
        ensures
            builder.limits() == (old(self).limits().0, Some(height)),
            builder.style() == old(self).style(),
            *final(self) == *final(builder),
    {
        self.fit_height = Some(height);
        self
    }

    /// Sets a limit on the width of the image.
    pub fn fit_width(&mut self, width: u32) -> (builder: &mut Self)
        ensures
            builder.limits() == (Some(width), old(self).limits().1),
            builder.style() == old(self).style(),
            *final(self) == *final(builder),
    {
        self.fit_width = Some(width);
        self
    }

    /// The fitting that follows from the limits that were set.
    pub fn fit(&self) -> (fit: Fit)
        ensures
            fit == fit_for(self.limits().0, self.limits().1),
    {
        match (self.fit_width, self.fit_height) {
            (Some(w), Some(h)) => Fit::Size(w, h),
            (Some(w), None) => Fit::Width(w),
            (None, Some(h)) => Fit::Width(h),
            (None, None) => Fit::Natural,
        }
    }

    /// Whether the symbol can be drawn in the style of this builder.
    pub fn can_draw(&self, qr: &QRCode) -> (ok: bool)
        ensures
            ok == can_draw(self.style(), qr.size as int),
    {
        self.svg_builder.can_draw(qr)
    }

    /// Draws a symbol as an image: its SVG text is parsed and rendered in
    /// the size that the limits ask for. With a single limit the image has
    /// that width; with both it goes beyond neither. Where the renderer
    /// refuses, the error says at which step.
    pub fn to_pixmap(&self, qr: &QRCode) -> (image: Result<Pixmap, ImageError>)
        requires
            can_draw(self.style(), qr.size as int),
        ensures
            image matches Err(error) ==> error is ImageError,
            image matches Ok(pixmap) ==> pixmap_width(pixmap) > 0 && pixmap_height(pixmap) > 0,
            image matches Ok(pixmap) ==> (fit_for(self.limits().0, self.limits().1) matches Fit::Width(
                width,
            ) ==> pixmap_width(pixmap) == width),
            image matches Ok(pixmap) ==> (fit_for(self.limits().0, self.limits().1) matches Fit::Size(
                width,
                height,
            ) ==> pixmap_width(pixmap) <= width && pixmap_height(pixmap) <= height),
    {
        let svg = self.svg_builder.to_str(qr);
        let tree = match parse_tree(svg.as_str(), "Noto Sans") {
            Some(tree) => tree,
            None => {
                return Err(ImageError::ImageError(String::from_str("the drawing does not parse")));
            },
        };
        let fit = self.fit();
        let (width, height) = match fitted_size(&tree, fit) {
            Some(size) => size,
            None => {
                return Err(ImageError::ImageError(String::from_str("the image has no size")));
            },
        };
        let mut pixmap = match new_pixmap(width, height) {
            Some(pixmap) => pixmap,
            None => {
                return Err(ImageError::ImageError(String::from_str("the image is too large")));
            },
        };
        if draw(&tree, fit, &mut pixmap) {
            Ok(pixmap)
        } else {
            Err(ImageError::ImageError(String::from_str("the drawing could not be rendered")))
        }
    }
}

} // verus!
