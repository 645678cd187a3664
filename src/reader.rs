use vstd::prelude::*;

verus! {

/// The side of a square image, in pixels.
pub const SIDE: usize = 28;

/// The number of pixels of an image.
pub const PIXELS: usize = 784;

/// The number of header bytes before the first image of an image file.
pub const HEADER_LEN: usize = 16;

/// Pixels brighter than this are drawn as `#`.
pub const INK_THRESHOLD: u8 = 200;

/// A 28 by 28 grey-scale image, one byte per pixel, row by row.
#[derive(Clone, PartialEq, Eq)]
pub struct Image {
    value: Box<[u8; 784]>,
}

/// The character that stands for a pixel in a drawing.
pub open spec fn ink(p: u8) -> char {
    if p > INK_THRESHOLD {
        '#'
    } else {
        ' '
    }
}

/// A drawing of `pixels`: one line of `SIDE` characters per row, each line
/// ended by a newline.
pub open spec fn drawing(pixels: Seq<u8>) -> Seq<char> {
    Seq::new(
        (SIDE * (SIDE + 1)) as nat,
        |k: int|
            if k % (SIDE + 1) as int == SIDE as int {
                '\n'
            } else {
                ink(pixels[(k / (SIDE + 1) as int) * SIDE as int + k % (SIDE + 1) as int])
            },
    )
}

impl Image {
    /// The pixels, row by row.
    pub closed spec fn pixels(&self) -> Seq<u8> {
        self.value@
    }

    pub fn new(value: Box<[u8; 784]>) -> (r: Self)
        ensures
            r.pixels() == value@,
    {
        Image { value }
    }

    /// The pixel at row `i`, column `j`.
    pub fn pixel(&self, i: usize, j: usize) -> (r: u8)
        requires
            i < SIDE,
            j < SIDE,
        ensures
            r == self.pixels()[i * SIDE + j],
    {
        self.value[i * SIDE + j]
    }

    /// A drawing of the image, where bright pixels are `#` and the others
    /// blanks.
    pub fn render(&self) -> (r: Vec<char>)
        ensures
            r@ == drawing(self.pixels()),
    {
        let mut out: Vec<char> = Vec::new();
        let mut i: usize = 0;
        while i < SIDE
            invariant
                i <= SIDE,
                self.pixels().len() == PIXELS,
                out@ == drawing(self.pixels()).subrange(0, i * (SIDE + 1) as int),
            decreases SIDE - i,
        {
            let mut j: usize = 0;
            while j < SIDE
                invariant
                    i < SIDE,
                    j <= SIDE,
                    self.pixels().len() == PIXELS,
                    out@ == drawing(self.pixels()).subrange(0, i * (SIDE + 1) + j),
                decreases SIDE - j,
            {
                let p = self.value[i * SIDE + j];
                if p > INK_THRESHOLD {
                    out.push('#');
                } else {
                    out.push(' ');
                }
                proof {
                    let k = i * (SIDE + 1) + j;
                    assert(k / 29 == i && k % 29 == j && k + 1 <= 812) by (nonlinear_arith)
                        requires
                            k == i * 29 + j,
                            j < 28,
                            i < 28,
                    ;
                    assert(i * SIDE + j < 784) by (nonlinear_arith)
                        requires
                            j < 28,
                            i < 28,
                    ;
                    assert(drawing(self.pixels())[k] == ink(self.pixels()[i * SIDE + j]));
                    assert(out@ =~= drawing(self.pixels()).subrange(0, k + 1));
                }
                j = j + 1;
            }
            out.push('\n');
            proof {
                let k = i * (SIDE + 1) + SIDE;
                assert(k % 29 == 28 && k + 1 == (i + 1) * 29 && k + 1 <= 812) by (nonlinear_arith)
                    requires
                        k == i * 29 + 28,
                        i < 28,
                ;
                assert(drawing(self.pixels())[k] == '\n');
                assert(out@ =~= drawing(self.pixels()).subrange(0, (i + 1) * (SIDE + 1) as int));
            }
            i = i + 1;
        }
        out
    }
}

/// The first image of an image file: the `PIXELS` bytes that follow its
/// `HEADER_LEN` header bytes, or `None` when the file is shorter than that.
pub fn first_image(file: &[u8]) -> (r: Option<Image>)
    ensures
        file@.len() < HEADER_LEN + PIXELS ==> r is None,
        file@.len() >= HEADER_LEN + PIXELS ==> (r matches Some(img) && img.pixels() == file@.subrange(
            HEADER_LEN as int,
            (HEADER_LEN + PIXELS) as int,
        )),
{
    if file.len() < HEADER_LEN + PIXELS {
        return None;
    }
    let mut value = [0u8; 784];
    let mut k: usize = 0;
    while k < PIXELS
        invariant
            k <= PIXELS,
            file@.len() >= HEADER_LEN + PIXELS,
            value@.len() == PIXELS,
            forall|m: int| 0 <= m < k ==> value@[m] == file@[HEADER_LEN + m],
        decreases PIXELS - k,
    {
        value[k] = file[HEADER_LEN + k];
        k = k + 1;
    }
    let img = Image::new(Box::new(value));
    proof {
        assert(img.pixels() =~= file@.subrange(HEADER_LEN as int, (HEADER_LEN + PIXELS) as int));
    }
    Some(img)
}

} // verus!
