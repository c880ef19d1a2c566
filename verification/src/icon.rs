//! The desktop window's icon: decoded once from its PNG file, checked, and handed over once a window
//! exists.

use vstd::prelude::*;

verus! {

/// What the `image` crate reads an image file as: four bytes a pixel (red, green, blue, alpha), the
/// width and the height. Nothing where it cannot.
pub uninterp spec fn decoded_rgba(file: Seq<u8>) -> Option<(Seq<u8>, u32, u32)>;

/// `image::load_from_memory`, then `DynamicImage::to_rgba8`, with the buffer and the dimensions of
/// the `RgbaImage` that it gives. The result depends on the file's bytes alone.
#[verifier::external_body]
fn decode(file: &Vec<u8>) -> (r: Option<(Vec<u8>, u32, u32)>)
    ensures
        match r {
            Some(img) => decoded_rgba(file@) == Some((img.0@, img.1, img.2)),
            None => decoded_rgba(file@) is None,
        },
{
    let img = image::load_from_memory(file).ok()?.to_rgba8();
    let (width, height) = img.dimensions();
    Some((img.into_raw(), width, height))
}

/// An icon: four bytes a pixel.
pub struct Icon {
    pub rgba: Vec<u8>,
    pub width: u32,
    pub height: u32,
}

/// Whether the pixels make up an icon of that size.
pub open spec fn fits(rgba: Seq<u8>, width: u32, height: u32) -> bool {
    rgba.len() == 4 * (width * height)
}

/// An icon of the pixels, where there are as many as its size asks for.
pub fn icon_of(rgba: Vec<u8>, width: u32, height: u32) -> (r: Option<Icon>)
    ensures
        match r {
            Some(icon) => {
                &&& fits(rgba@, width, height)
                &&& icon.rgba@ == rgba@
                &&& icon.width == width
                &&& icon.height == height
            },
            None => !fits(rgba@, width, height),
        },
{
    proof {
        assert(0 <= width * height <= u32::MAX * u32::MAX) by (nonlinear_arith)
            requires
                0 <= width <= u32::MAX,
                0 <= height <= u32::MAX,
        ;
    }
    if rgba.len() as u128 == 4 * (width as u128 * height as u128) {
        Some(Icon { rgba, width, height })
    } else {
        None
    }
}

/// The icon in an image file.
pub fn decode_icon(file: &Vec<u8>) -> (r: Option<Icon>)
    ensures
        match decoded_rgba(file@) {
            Some(img) => if fits(img.0, img.1, img.2) {
                match r {
                    Some(icon) => icon.rgba@ == img.0 && icon.width == img.1 && icon.height
                        == img.2,
                    None => false,
                }
            } else {
                r is None
            },
            None => r is None,
        },
{
    match decode(file) {
        Some((rgba, width, height)) => icon_of(rgba, width, height),
        None => None,
    }
}

/// What is to be done about the window's icon.
#[derive(Clone, Copy, Debug, PartialEq, Eq, Structural)]
pub enum IconTurn {
    /// Nothing (any more).
    Nothing,
    /// The file is no icon, which is said once.
    Warn,
    /// No window is there yet.
    Wait,
    /// Every window gets the icon.
    Hand,
}

/// Whether the windows have their icon, or will never get one.
pub struct WindowIcon {
    pub icon: Option<Icon>,
    pub done: bool,
}

impl WindowIcon {
    pub fn new() -> (r: WindowIcon)
        ensures
            r.icon is None,
            !r.done,
    {
        WindowIcon { icon: None, done: false }
    }

    /// Whether the icon has to be decoded first.
    pub fn wants_icon(&self) -> (r: bool)
        ensures
            r == (!self.done && self.icon is None),
    {
        !self.done && self.icon.is_none()
    }

    /// A frame: `decoded` is the icon (asked for where it is wanted), `windows` how many windows
    /// there are.
    pub fn set_window_icon(&mut self, decoded: Option<Icon>, windows: usize) -> (r: IconTurn)
        ensures
            r == if old(self).done {
                IconTurn::Nothing
            } else if old(self).icon is None && decoded is None {
                IconTurn::Warn
            } else if windows == 0 {
                IconTurn::Wait
            } else {
                IconTurn::Hand
            },
            final(self).done == !(r is Wait),
            final(self).icon == if old(self).done || old(self).icon is Some {
                old(self).icon
            } else {
                decoded
            },
    {
        if self.done {
            return IconTurn::Nothing;
        }
        if self.icon.is_none() {
            self.icon = decoded;
            if self.icon.is_none() {
                self.done = true;
                return IconTurn::Warn;
            }
        }
        if windows == 0 {
            return IconTurn::Wait;
        }
        self.done = true;
        IconTurn::Hand
    }
}

} // verus!
