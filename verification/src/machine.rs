use vstd::prelude::*;

verus! {

/// 24-bit RGB pixel.
#[derive(Clone, Copy, PartialEq, Eq, Debug)]
pub struct Rgb(pub u8, pub u8, pub u8);

/// A frame of pixels, row-major, `width * height` long.
#[derive(Clone)]
pub struct FrameBuffer {
    pub width: usize,
    pub height: usize,
    pub pixels: Vec<Rgb>,
}

impl FrameBuffer {
    /// An all-black frame of the given size.
    pub fn new(width: usize, height: usize) -> (f: Self)
        requires
            width * height <= usize::MAX,
        ensures
            f.width == width,
            f.height == height,
            f.pixels@.len() == width * height,
            forall|i: int| 0 <= i < f.pixels@.len() ==> f.pixels@[i] == Rgb(0, 0, 0),
    {
        let n = width * height;
        let mut pixels: Vec<Rgb> = Vec::new();
        let mut i: usize = 0;
        while i < n
            invariant
                i <= n,
                pixels@.len() == i,
                forall|j: int| 0 <= j < i ==> pixels@[j] == Rgb(0, 0, 0),
            decreases n - i,
        {
            pixels.push(Rgb(0, 0, 0));
            i = i + 1;
        }
        FrameBuffer { width, height, pixels }
    }
}

/// Button state as a bitset. Bits 0-7 follow the Game Boy layout; bits 8-9
/// are the Game Boy Advance shoulder buttons.
#[derive(Clone, Copy, PartialEq, Eq, Debug, Default)]
pub struct Buttons(pub u16);

impl Buttons {
    #[allow(non_snake_case)]
    pub fn RIGHT() -> (b: Buttons)
        ensures
            b.0 == 0x0001,
    {
        Buttons(0x0001)
    }
    #[allow(non_snake_case)]
    pub fn LEFT() -> (b: Buttons)
        ensures
            b.0 == 0x0002,
    {
        Buttons(0x0002)
    }
    #[allow(non_snake_case)]
    pub fn UP() -> (b: Buttons)
        ensures
            b.0 == 0x0004,
    {
        Buttons(0x0004)
    }
    #[allow(non_snake_case)]
    pub fn DOWN() -> (b: Buttons)
        ensures
            b.0 == 0x0008,
    {
        Buttons(0x0008)
    }
    #[allow(non_snake_case)]
    pub fn A() -> (b: Buttons)
        ensures
            b.0 == 0x0010,
    {
        Buttons(0x0010)
    }
    #[allow(non_snake_case)]
    pub fn B() -> (b: Buttons)
        ensures
            b.0 == 0x0020,
    {
        Buttons(0x0020)
    }
    #[allow(non_snake_case)]
    pub fn SELECT() -> (b: Buttons)
        ensures
            b.0 == 0x0040,
    {
        Buttons(0x0040)
    }
    #[allow(non_snake_case)]
    pub fn START() -> (b: Buttons)
        ensures
            b.0 == 0x0080,
    {
        Buttons(0x0080)
    }
    #[allow(non_snake_case)]
    pub fn L() -> (b: Buttons)
        ensures
            b.0 == 0x0100,
    {
        Buttons(0x0100)
    }
    #[allow(non_snake_case)]
    pub fn R() -> (b: Buttons)
        ensures
            b.0 == 0x0200,
    {
        Buttons(0x0200)
    }

    /// True when every button of `other` is held in `self`.
    pub fn contains(self, other: Buttons) -> (r: bool)
        ensures
            r == (self.0 & other.0 == other.0),
    {
        self.0 & other.0 == other.0
    }

    /// The union of the two button sets.
    pub fn with(self, other: Buttons) -> (r: Buttons)
        ensures
            r.0 == self.0 | other.0,
    {
        Buttons(self.0 | other.0)
    }
}

} // verus!
