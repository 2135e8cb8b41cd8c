//! The pixel data model: RGBA frames and capture regions.

use vstd::prelude::*;

verus! {

/// An immutable grid of `width x height` RGBA pixels, 8 bits per channel,
/// stored row-major as `[r, g, b, a, r, g, b, a, ...]`.
#[derive(Clone)]
pub struct Frame {
    pub width: u32,
    pub height: u32,
    pub data: Vec<u8>,
}

/// An integer rectangle in logical display coordinates.
#[derive(Clone, Copy, PartialEq, Eq, Structural)]
pub struct Region {
    pub x: i32,
    pub y: i32,
    pub width: u32,
    pub height: u32,
}

impl Region {
    /// A region always describes a non-empty rectangle.
    pub open spec fn wf(&self) -> bool {
        self.width >= 1 && self.height >= 1
    }
}

/// Two frames are equivalent when they agree on dimensions and on every byte.
pub open spec fn frame_eq(a: Frame, b: Frame) -> bool {
    a.width == b.width && a.height == b.height && a.data@ == b.data@
}

impl Frame {
    /// A frame is non-empty and its buffer holds exactly one RGBA quad per pixel.
    pub open spec fn wf(&self) -> bool {
        &&& self.width >= 1
        &&& self.height >= 1
        &&& self.data@.len() == self.width * self.height * 4
    }

    /// The bytes of row `y`: `4 * width` consecutive buffer bytes.
    pub open spec fn row(&self, y: int) -> Seq<u8> {
        self.data@.subrange(y * self.width * 4, (y + 1) * self.width * 4)
    }

    /// Channel `c` (0 = red, 1 = green, 2 = blue, 3 = alpha) of the pixel at
    /// column `x`, row `y`.
    pub open spec fn chan(&self, x: int, y: int, c: int) -> u8 {
        self.data@[(y * self.width + x) * 4 + c]
    }

    /// Builds a frame from raw RGBA bytes; fails when the buffer length does
    /// not match the dimensions or a dimension is zero.
    pub fn from_raw(width: u32, height: u32, data: Vec<u8>) -> (r: Option<Frame>)
        ensures
            match r {
                Some(f) => {
                    &&& f.wf()
                    &&& f.width == width
                    &&& f.height == height
                    &&& f.data@ == data@
                },
                None => width == 0 || height == 0 || data@.len() != width * height * 4,
            },
    {
        if width == 0 || height == 0 {
            return None;
        }
        let pixels = (width as usize).checked_mul(height as usize);
        let bytes = match pixels {
            Some(p) => p.checked_mul(4),
            None => None,
        };
        match bytes {
            Some(n) => {
                if n == data.len() {
                    proof {
                        assert(data@.len() == width * height * 4) by (nonlinear_arith)
                            requires
                                data@.len() == (width as int * height as int) * 4,
                        ;
                    }
                    Some(Frame { width, height, data })
                } else {
                    proof {
                        assert(data@.len() != width * height * 4) by (nonlinear_arith)
                            requires
                                data@.len() != (width as int * height as int) * 4,
                        ;
                    }
                    None
                }
            },
            None => {
                let l = data.len();
                proof {
                    assert(l < width * height * 4) by (nonlinear_arith)
                        requires
                            l <= usize::MAX,
                            width as int * height as int > usize::MAX
                                || (width as int * height as int <= usize::MAX
                                    && (width as int * height as int) * 4 > usize::MAX),
                    ;
                }
                None
            },
        }
    }

    /// Returns an identical copy of the frame.
    pub fn duplicate(&self) -> (r: Frame)
        ensures
            frame_eq(r, *self),
    {
        let data = self.data.clone();
        proof {
            assert(data@ =~= self.data@);
        }
        Frame { width: self.width, height: self.height, data }
    }

    /// The frame's `(width, height)`.
    pub fn dimensions(&self) -> (r: (u32, u32))
        ensures
            r.0 == self.width,
            r.1 == self.height,
    {
        (self.width, self.height)
    }

    /// Reads one channel of one pixel.
    pub fn get_channel(&self, x: u32, y: u32, c: u32) -> (r: u8)
        requires
            self.wf(),
            x < self.width,
            y < self.height,
            c < 4,
        ensures
            r == self.chan(x as int, y as int, c as int),
    {
        let n = self.data.len();
        proof {
            let w = self.width as int;
            let h = self.height as int;
            assert(y * w + x < w * h && (y * w + x) * 4 + c < w * h * 4) by (nonlinear_arith)
                requires
                    0 <= x < w,
                    0 <= y < h,
                    0 <= c < 4,
            ;
            assert(w * h <= w * h * 4) by (nonlinear_arith)
                requires
                    w >= 0 && h >= 0,
            ;
        }
        let idx: usize = ((y as usize) * (self.width as usize) + (x as usize)) * 4 + (c as usize);
        self.data[idx]
    }
}

} // verus!
