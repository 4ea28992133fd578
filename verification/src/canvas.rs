//! The paint target: an RGBA texture held by the `image` crate.
//!
//! The pixel buffer is outside code, so it sits in the opaque [`Texture`]
//! wrapper, and the library reads and writes it only through the trusted
//! items below, whose contracts speak of the named functions
//! [`texture_width`], [`texture_height`] and [`texture_pixel`].

use vstd::prelude::*;

verus! {

/// A color: red, green, blue and alpha channels.
#[derive(Clone, Copy, PartialEq, Eq, Structural, Debug)]
pub struct Color {
    pub r: u8,
    pub g: u8,
    pub b: u8,
    pub a: u8,
}

impl Color {
    /// The channels as a tuple, the form the texture contracts use.
    pub open spec fn channels(self) -> (u8, u8, u8, u8) {
        (self.r, self.g, self.b, self.a)
    }
}

/// An equirectangular RGBA texture.  The field is an `image` crate pixel
/// buffer, opaque to verification.
#[verifier::external_body]
pub struct Texture {
    img: image::RgbaImage,
}

/// The width, in texels, of a texture.
pub uninterp spec fn texture_width(t: Texture) -> u32;

/// The height, in texels, of a texture.
pub uninterp spec fn texture_height(t: Texture) -> u32;

/// The channels of the texel at `(x, y)` of a texture; unspecified off the
/// texture's grid.
pub uninterp spec fn texture_pixel(t: Texture, x: int, y: int) -> (u8, u8, u8, u8);

/// Relies on `ImageBuffer::from_raw`, which wraps a row-major byte buffer of
/// four channels per texel, texel `(x, y)` starting at byte
/// `4 * (y * width + x)`; it accepts a buffer of exactly the needed length.
#[verifier::external_body]
pub(crate) fn texture_from_bytes(width: u32, height: u32, bytes: Vec<u8>) -> (t: Option<Texture>)
    requires
        width <= 16384,
        height <= 16384,
        bytes@.len() == 4 * width * height,
    ensures
        t is Some,
        texture_width(t->Some_0) == width,
        texture_height(t->Some_0) == height,
        forall|x: int, y: int|
            0 <= x < width && 0 <= y < height ==> texture_pixel(t->Some_0, x, y) == (
                bytes@[4 * (y * width + x)],
                bytes@[4 * (y * width + x) + 1],
                bytes@[4 * (y * width + x) + 2],
                bytes@[4 * (y * width + x) + 3],
            ),
{
    match image::RgbaImage::from_raw(width, height, bytes) {
        Some(img) => Some(Texture { img }),
        None => None,
    }
}

/// Relies on `ImageBuffer::width`, which returns the buffer's width field.
#[verifier::external_body]
pub(crate) fn tex_width(t: &Texture) -> (r: u32)
    ensures
        r == texture_width(*t),
{
    t.img.width()
}

/// Relies on `ImageBuffer::height`, which returns the buffer's height field.
#[verifier::external_body]
pub(crate) fn tex_height(t: &Texture) -> (r: u32)
    ensures
        r == texture_height(*t),
{
    t.img.height()
}

/// The dimensions of a texture, in texels.
pub fn texture_size(t: &Texture) -> (r: (u32, u32))
    ensures
        r.0 == texture_width(*t),
        r.1 == texture_height(*t),
{
    (tex_width(t), tex_height(t))
}

/// The texel at `(x, y)`, or nothing off the grid: the bounds-checked way
/// to read the texture.
pub fn read_pixel(t: &Texture, x: u32, y: u32) -> (r: Option<Color>)
    ensures
        x < texture_width(*t) && y < texture_height(*t) ==> r is Some
            && r->Some_0.channels() == texture_pixel(*t, x as int, y as int),
        !(x < texture_width(*t) && y < texture_height(*t)) ==> r is None,
{
    let w: u32 = tex_width(t);
    let h: u32 = tex_height(t);
    if x < w && y < h {
        Some(tex_get(t, x, y))
    } else {
        None
    }
}

/// Relies on `ImageBuffer::get_pixel`, which returns the stored texel at
/// `(x, y)` and panics only off the grid; the requires keeps the call on it.
#[verifier::external_body]
fn tex_get(t: &Texture, x: u32, y: u32) -> (r: Color)
    requires
        x < texture_width(*t),
        y < texture_height(*t),
    ensures
        r.channels() == texture_pixel(*t, x as int, y as int),
{
    let p = t.img.get_pixel(x, y);
    Color { r: p.0[0], g: p.0[1], b: p.0[2], a: p.0[3] }
}

/// Relies on `ImageBuffer::put_pixel`, which overwrites the one texel at
/// `(x, y)` and touches nothing else; it panics only off the grid, which the
/// requires keeps it from.
#[verifier::external_body]
pub(crate) fn tex_put(t: &mut Texture, x: u32, y: u32, c: Color)
    requires
        x < texture_width(*old(t)),
        y < texture_height(*old(t)),
    ensures
        texture_width(*final(t)) == texture_width(*old(t)),
        texture_height(*final(t)) == texture_height(*old(t)),
        forall|px: int, py: int|
            0 <= px < texture_width(*old(t)) && 0 <= py < texture_height(*old(t))
                ==> texture_pixel(*final(t), px, py) == (if px == x as int && py == y as int {
                c.channels()
            } else {
                texture_pixel(*old(t), px, py)
            }),
{
    t.img.put_pixel(x, y, image::Rgba([c.r, c.g, c.b, c.a]));
}

} // verus!
