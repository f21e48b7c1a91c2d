//! Plain data that describes a project independently of any user interface.
use vstd::prelude::*;

verus! {

/// Main color of a sequence, one byte per channel.
#[derive(Clone, Copy, Debug, PartialEq, Eq, Structural)]
pub struct ColorStyle {
    /// Red channel.
    pub r: u8,
    /// Green channel.
    pub g: u8,
    /// Blue channel.
    pub b: u8,
    /// Alpha channel.
    pub a: u8,
}

impl ColorStyle {
    /// An opaque color from its red, green and blue channels.
    pub fn from_rgb(r: u8, g: u8, b: u8) -> (c: ColorStyle)
        ensures
            c == (ColorStyle { r, g, b, a: 255 }),
    {
        ColorStyle { r, g, b, a: 255 }
    }
}

/// The four channels of a color, in the order red, green, blue, alpha.
pub open spec fn channels_of(c: ColorStyle) -> Seq<u8> {
    seq![c.r, c.g, c.b, c.a]
}

/// The color whose red, green, blue and alpha channels are the first four
/// values of `channels`.
pub open spec fn color_of_channels(channels: Seq<u8>) -> ColorStyle {
    ColorStyle { r: channels[0], g: channels[1], b: channels[2], a: channels[3] }
}

/// The channels of `color` as a project file stores them.
pub fn color_channels(color: ColorStyle) -> (rgba: [u8; 4])
    ensures
        rgba@ == channels_of(color),
{
    let rgba = [color.r, color.g, color.b, color.a];
    assert(rgba@ =~= channels_of(color));
    rgba
}

/// The color that four channels read back from a project file stand for.
pub fn stored_color(rgba: [u8; 4]) -> (c: ColorStyle)
    ensures
        c == color_of_channels(rgba@),
{
    ColorStyle { r: rgba[0], g: rgba[1], b: rgba[2], a: rgba[3] }
}

/// The image that belongs to a project, with its original file bytes.
#[derive(Clone, Debug)]
pub struct ImageAsset {
    /// Original imported file name, e.g. "p11.jpg".
    pub filename: String,
    /// Optional MIME type such as "image/png" or "image/jpeg".
    pub mime_type: Option<String>,
    /// Width of the image in pixels.
    pub width: u32,
    /// Height of the image in pixels.
    pub height: u32,
    /// Raw original file bytes.
    pub data: Vec<u8>,
}

} // verus!
