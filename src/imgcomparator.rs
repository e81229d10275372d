//! Packed `0x00RRGGBB` pixels and row-major images made of them.

use vstd::prelude::*;
use image::ImageEncoder;

verus! {

/// Largest value of one 8-bit channel.
pub const CHANNEL_MAX: u32 = 0xff;

/// The red channel of a packed pixel.
pub open spec fn red(p: u32) -> int {
    (p as int / 0x10000) % 0x100
}

/// The green channel of a packed pixel.
pub open spec fn green(p: u32) -> int {
    (p as int / 0x100) % 0x100
}

/// The blue channel of a packed pixel.
pub open spec fn blue(p: u32) -> int {
    p as int % 0x100
}

/// The packed value of three channels.
pub open spec fn packed(r: int, g: int, b: int) -> int {
    r * 0x10000 + g * 0x100 + b
}

/// A value that fits in one 8-bit channel.
pub open spec fn is_channel(c: int) -> bool {
    0 <= c <= 0xff
}

/// A pixel whose high byte is zero.
pub open spec fn is_rgb_pixel(p: u32) -> bool {
    p < 0x100_0000
}

proof fn lemma_extract_bits(p: u32)
    by (bit_vector)
    ensures
        (p >> 16u32) & 0xffu32 == (p / 0x10000u32) % 0x100u32,
        (p >> 8u32) & 0xffu32 == (p / 0x100u32) % 0x100u32,
        p & 0xffu32 == p % 0x100u32,
{
}

proof fn lemma_pack_bits(r: u32, g: u32, b: u32)
    by (bit_vector)
    requires
        r <= 0xff,
        g <= 0xff,
        b <= 0xff,
    ensures
        (r << 16u32) | (g << 8u32) | b == r * 0x10000 + g * 0x100 + b,
{
}

/// Splits a packed pixel into its red, green and blue channels.
pub fn extract_rgb(pixel: u32) -> (rgb: (u32, u32, u32))
    ensures
        rgb.0 == red(pixel),
        rgb.1 == green(pixel),
        rgb.2 == blue(pixel),
{
    proof {
        lemma_extract_bits(pixel);
    }
    let r = (pixel >> 16u32) & CHANNEL_MAX;
    let g = (pixel >> 8u32) & CHANNEL_MAX;
    let b = pixel & CHANNEL_MAX;
    (r, g, b)
}

/// Packs three 8-bit channels into one `0x00RRGGBB` pixel.
pub fn pack_rgb(r: u32, g: u32, b: u32) -> (p: u32)
    requires
        is_channel(r as int),
        is_channel(g as int),
        is_channel(b as int),
    ensures
        p == packed(r as int, g as int, b as int),
        is_rgb_pixel(p),
{
    proof {
        lemma_pack_bits(r, g, b);
    }
    (r << 16u32) | (g << 8u32) | b
}

/// Unpacking a pixel whose high byte is zero and packing its channels again
/// gives the pixel back.
pub proof fn lemma_pack_extract_round_trip(p: u32)
    requires
        is_rgb_pixel(p),
    ensures
        is_channel(red(p)),
        is_channel(green(p)),
        is_channel(blue(p)),
        packed(red(p), green(p), blue(p)) == p,
{
    assert(((p / 0x10000u32) % 0x100u32) * 0x10000u32 + ((p / 0x100u32) % 0x100u32) * 0x100u32
        + p % 0x100u32 == p) by (bit_vector)
        requires
            p < 0x100_0000u32,
    ;
}

/// Packing three channels and unpacking the result gives the channels back.
pub proof fn lemma_extract_pack_round_trip(r: u32, g: u32, b: u32)
    requires
        is_channel(r as int),
        is_channel(g as int),
        is_channel(b as int),
    ensures
        packed(r as int, g as int, b as int) < 0x100_0000,
        red(packed(r as int, g as int, b as int) as u32) == r,
        green(packed(r as int, g as int, b as int) as u32) == g,
        blue(packed(r as int, g as int, b as int) as u32) == b,
{
    let p: u32 = (r * 0x10000u32 + g * 0x100u32 + b) as u32;
    assert(r * 0x10000u32 + g * 0x100u32 + b < 0x100_0000u32
        && (p == r * 0x10000u32 + g * 0x100u32 + b ==> (p / 0x10000u32) % 0x100u32 == r
        && (p / 0x100u32) % 0x100u32 == g && p % 0x100u32 == b)) by (bit_vector)
        requires
            r <= 0xffu32,
            g <= 0xffu32,
            b <= 0xffu32,
    ;
}

/// The absolute difference of two integers.
pub open spec fn abs_diff(a: int, b: int) -> int {
    if a >= b {
        a - b
    } else {
        b - a
    }
}

/// What the comparison of two images records for one pair of pixels: zero
/// when they are equal or differ by at most one in every channel, else the
/// channel-wise absolute differences packed into one pixel.
pub open spec fn pixel_difference(p1: u32, p2: u32) -> u32 {
    let dr = abs_diff(red(p1), red(p2));
    let dg = abs_diff(green(p1), green(p2));
    let db = abs_diff(blue(p1), blue(p2));
    if p1 == p2 || (dr <= 1 && dg <= 1 && db <= 1) {
        0
    } else {
        packed(dr, dg, db) as u32
    }
}

/// The pixel-wise differences of two pixel sequences, over the shorter one.
pub open spec fn difference_seq(a: Seq<u32>, b: Seq<u32>) -> Seq<u32> {
    let n = if a.len() <= b.len() {
        a.len()
    } else {
        b.len()
    };
    Seq::new(n, |i: int| pixel_difference(a[i], b[i]))
}

/// The number of non-zero pixels in a sequence.
pub open spec fn count_nonzero(s: Seq<u32>) -> nat
    decreases s.len(),
{
    if s.len() == 0 {
        0
    } else {
        count_nonzero(s.drop_last()) + if s.last() != 0 {
            1nat
        } else {
            0nat
        }
    }
}

/// An image compared with itself has no differing pixel, and its difference
/// image is black.
pub proof fn lemma_compare_with_itself(data: Seq<u32>)
    ensures
        difference_seq(data, data) == Seq::new(data.len(), |i: int| 0u32),
        count_nonzero(difference_seq(data, data)) == 0,
{
    let d = difference_seq(data, data);
    assert(d =~= Seq::new(data.len(), |i: int| 0u32));
    lemma_count_nonzero_of_zeros(d);
}

proof fn lemma_count_nonzero_of_zeros(s: Seq<u32>)
    requires
        forall|i: int| 0 <= i < s.len() ==> #[trigger] s[i] == 0,
    ensures
        count_nonzero(s) == 0,
    decreases s.len(),
{
    if s.len() > 0 {
        lemma_count_nonzero_of_zeros(s.drop_last());
    }
}

/// `bytes` holds the channels of `data` as red, green, blue triples.
pub open spec fn rgb_encodes(bytes: Seq<u8>, data: Seq<u32>) -> bool {
    &&& bytes.len() == 3 * data.len()
    &&& forall|i: int|
        0 <= i < data.len() ==> {
            &&& bytes[3 * i] == red(#[trigger] data[i])
            &&& bytes[3 * i + 1] == green(data[i])
            &&& bytes[3 * i + 2] == blue(data[i])
        }
}

/// `data` holds the pixels packed from the red, green, blue triples of `bytes`.
pub open spec fn rgb_decodes(data: Seq<u32>, bytes: Seq<u8>) -> bool {
    &&& bytes.len() == 3 * data.len()
    &&& forall|i: int|
        0 <= i < data.len() ==> #[trigger] data[i] == packed(
            bytes[3 * i] as int,
            bytes[3 * i + 1] as int,
            bytes[3 * i + 2] as int,
        )
}

/// Encoding pixels whose high byte is zero as channel bytes and decoding the
/// bytes again gives the pixels back.
pub proof fn lemma_rgb_bytes_round_trip(data: Seq<u32>, bytes: Seq<u8>, decoded: Seq<u32>)
    requires
        forall|i: int| 0 <= i < data.len() ==> is_rgb_pixel(#[trigger] data[i]),
        rgb_encodes(bytes, data),
        rgb_decodes(decoded, bytes),
    ensures
        decoded == data,
{
    assert forall|i: int| 0 <= i < data.len() implies decoded[i] == data[i] by {
        lemma_pack_extract_round_trip(data[i]);
    }
    assert(decoded =~= data);
}

proof fn lemma_row_major_index(x: int, y: int, w: int, h: int)
    requires
        0 <= x < w,
        0 <= y < h,
    ensures
        0 <= y * w + x < h * w,
        y * w + x < (y + 1) * w,
        y * w <= y * w + x,
{
    assert(y * w + x < (y + 1) * w) by (nonlinear_arith)
        requires
            x < w,
    ;
    assert((y + 1) * w <= h * w) by (nonlinear_arith)
        requires
            y + 1 <= h,
            0 <= w,
    ;
    assert(0 <= y * w) by (nonlinear_arith)
        requires
            0 <= y,
            0 <= w,
    ;
}

/// One channel of a pixel: 0 for red, 1 for green, 2 for blue.
pub open spec fn channel_byte(p: u32, c: int) -> u8 {
    (if c == 0 {
        red(p)
    } else if c == 1 {
        green(p)
    } else {
        blue(p)
    }) as u8
}

/// The channels of a pixel sequence as red, green, blue byte triples.
pub open spec fn rgb_bytes_of(data: Seq<u32>) -> Seq<u8> {
    Seq::new(3 * data.len(), |k: int| channel_byte(data[k / 3], k % 3))
}

proof fn lemma_rgb_encodes_is_rgb_bytes_of(bytes: Seq<u8>, data: Seq<u32>)
    requires
        rgb_encodes(bytes, data),
    ensures
        bytes == rgb_bytes_of(data),
{
    assert forall|k: int| 0 <= k < bytes.len() implies bytes[k] == rgb_bytes_of(data)[k] by {
        let i = k / 3;
        assert(0 <= i < data.len());
        assert(k == 3 * i + k % 3);
        assert(bytes[3 * i] == red(data[i]));
    }
    assert(bytes =~= rgb_bytes_of(data));
}

/// The PNG stream that the `image` crate writes for an 8-bit RGB picture of
/// the given size, or `None` where it refuses the picture.
pub uninterp spec fn png_encoding(width: u32, height: u32, rgb: Seq<u8>) -> Option<Seq<u8>>;

/// The size and 8-bit RGB channels that the `image` crate reads from a PNG
/// stream, or `None` where it refuses the stream.
pub uninterp spec fn png_decoding(bytes: Seq<u8>) -> Option<(u32, u32, Seq<u8>)>;

/// Relies on `image::codecs::png::PngEncoder::write_image` with
/// `ExtendedColorType::Rgb8`: the PNG encoding of the rows of channel bytes,
/// written into memory. It panics unless the buffer holds exactly three bytes
/// per pixel, and the `png` encoder refuses a zero width or height.
#[verifier::external_body]
fn png_encode(width: u32, height: u32, rgb: &[u8]) -> (r: Result<Vec<u8>, String>)
    requires
        rgb@.len() == 3 * (width as int * height as int),
    ensures
        match png_encoding(width, height, rgb@) {
            Some(b) => {
                &&& r matches Ok(bytes)
                &&& bytes@ == b
            },
            None => r is Err,
        },
        width == 0 || height == 0 ==> r is Err,
{
    let mut out: Vec<u8> = Vec::new();
    let written = image::codecs::png::PngEncoder::new(&mut out).write_image(
        rgb,
        width,
        height,
        image::ExtendedColorType::Rgb8,
    );
    match written {
        Ok(()) => Ok(out),
        Err(e) => Err(e.to_string()),
    }
}

/// Relies on `image::load_from_memory_with_format` with `ImageFormat::Png`,
/// read out through `DynamicImage::to_rgb8`: the size of the decoded picture
/// and its channels as 8-bit RGB rows, three bytes per pixel.
#[verifier::external_body]
fn png_decode(bytes: &[u8]) -> (r: Result<(u32, u32, Vec<u8>), String>)
    ensures
        match png_decoding(bytes@) {
            Some((w0, h0, rgb0)) => {
                &&& r matches Ok((w, h, rgb))
                &&& w == w0
                &&& h == h0
                &&& rgb@ == rgb0
            },
            None => r is Err,
        },
        r matches Ok((w, h, rgb)) ==> rgb@.len() == 3 * (w as int * h as int),
{
    match image::load_from_memory_with_format(bytes, image::ImageFormat::Png) {
        Ok(img) => {
            let rgb = img.to_rgb8();
            let (w, h) = rgb.dimensions();
            Ok((w, h, rgb.into_raw()))
        },
        Err(e) => Err(e.to_string()),
    }
}

/// An RGB image of `width` by `height` pixels, stored row-major as packed
/// `0x00RRGGBB` values.
#[derive(Debug, PartialEq, Eq)]
pub struct Image {
    pub width: u32,
    pub height: u32,
    pub data: Vec<u32>,
}

impl Image {
    /// The image holds exactly one pixel per position.
    pub open spec fn wf(&self) -> bool {
        self.data@.len() == self.width as int * self.height as int
    }

    /// The pixel in column `x` of row `y`.
    pub open spec fn pixel_at(&self, x: int, y: int) -> u32 {
        self.data@[y * self.width as int + x]
    }

    /// Makes an image of the given size from its row-major pixels.
    pub fn new(width: u32, height: u32, data: Vec<u32>) -> (img: Image)
        requires
            data@.len() == width as int * height as int,
        ensures
            img.width == width,
            img.height == height,
            img.data@ == data@,
            img.wf(),
    {
        Image { width, height, data }
    }

    /// Compares two images pixel by pixel. Images of different sizes are
    /// refused; otherwise the result is the number of pixels that differ by
    /// more than one in some channel, and an image of the channel-wise
    /// differences (zero where the pixels match within that tolerance).
    pub fn compare(img1: &Image, img2: &Image) -> (r: Result<(u128, Image), String>)
        ensures
            r is Err <==> (img1.width != img2.width || img1.height != img2.height),
            r matches Err(e) ==> e@ == "Images have different dimensions"@,
            r matches Ok((n, d)) ==> {
                &&& d.width == img1.width
                &&& d.height == img1.height
                &&& d.data@ == difference_seq(img1.data@, img2.data@)
                &&& n == count_nonzero(d.data@)
            },
            img1.wf() && img2.wf() ==> (r matches Ok((n, d)) ==> d.wf()),
    {
        if img1.height != img2.height || img1.width != img2.width {
            return Err("Images have different dimensions".to_owned());
        }
        let n: usize = if img1.data.len() <= img2.data.len() {
            img1.data.len()
        } else {
            img2.data.len()
        };
        let mut diff_pixels: Vec<u32> = Vec::with_capacity(n);
        let mut total_diff: u128 = 0;
        let mut i: usize = 0;
        while i < n
            invariant
                n <= img1.data@.len(),
                n <= img2.data@.len(),
                n == difference_seq(img1.data@, img2.data@).len(),
                i <= n,
                diff_pixels@ == difference_seq(img1.data@, img2.data@).subrange(0, i as int),
                total_diff == count_nonzero(diff_pixels@),
                total_diff <= i,
            decreases n - i,
        {
            let p1 = img1.data[i];
            let p2 = img2.data[i];
            let diff = Self::pixel_diff(p1, p2);
            proof {
                assert(diff_pixels@.push(diff).drop_last() == diff_pixels@);
            }
            diff_pixels.push(diff);
            if diff != 0 {
                total_diff = total_diff + 1;
            }
            i = i + 1;
            proof {
                assert(diff_pixels@ =~= difference_seq(img1.data@, img2.data@).subrange(
                    0,
                    i as int,
                ));
            }
        }
        proof {
            assert(diff_pixels@ =~= difference_seq(img1.data@, img2.data@));
        }
        Ok((total_diff, Image { width: img1.width, height: img1.height, data: diff_pixels }))
    }

    /// Makes an image from its pixels given as red, green, blue byte triples,
    /// row-major.
    pub fn from_rgb_bytes(width: u32, height: u32, bytes: &[u8]) -> (img: Image)
        requires
            bytes@.len() == 3 * (width as int * height as int),
        ensures
            img.width == width,
            img.height == height,
            img.wf(),
            rgb_decodes(img.data@, bytes@),
    {
        let len: usize = bytes.len();
        let n: usize = len / 3;
        let mut data: Vec<u32> = Vec::with_capacity(n);
        let mut i: usize = 0;
        while i < n
            invariant
                n == width as int * height as int,
                bytes@.len() == len,
                len == 3 * n,
                i <= n,
                data@.len() == i,
                forall|j: int|
                    0 <= j < i ==> #[trigger] data@[j] == packed(
                        bytes@[3 * j] as int,
                        bytes@[3 * j + 1] as int,
                        bytes@[3 * j + 2] as int,
                    ),
            decreases n - i,
        {
            let k: usize = 3 * i;
            let p = pack_rgb(bytes[k] as u32, bytes[k + 1] as u32, bytes[k + 2] as u32);
            data.push(p);
            i = i + 1;
        }
        Image { width, height, data }
    }

    /// The channels of every pixel as red, green, blue byte triples, row-major.
    pub fn to_rgb_bytes(&self) -> (bytes: Vec<u8>)
        requires
            3 * self.data@.len() <= usize::MAX,
        ensures
            rgb_encodes(bytes@, self.data@),
    {
        let n: usize = self.data.len();
        let mut bytes: Vec<u8> = Vec::with_capacity(3 * n);
        let mut i: usize = 0;
        while i < n
            invariant
                n == self.data@.len(),
                3 * n <= usize::MAX,
                i <= n,
                bytes@.len() == 3 * i,
                forall|j: int|
                    0 <= j < i ==> {
                        &&& bytes@[3 * j] == red(#[trigger] self.data@[j])
                        &&& bytes@[3 * j + 1] == green(self.data@[j])
                        &&& bytes@[3 * j + 2] == blue(self.data@[j])
                    },
            decreases n - i,
        {
            let (r, g, b) = extract_rgb(self.data[i]);
            bytes.push(r as u8);
            bytes.push(g as u8);
            bytes.push(b as u8);
            i = i + 1;
        }
        bytes
    }

    /// Assembles an image from its rows, each rendered on its own: the pixel
    /// in column `x` of row `y` lands at offset `y * width + x`.
    pub fn from_rows(width: u32, height: u32, rows: &Vec<Vec<u32>>) -> (img: Image)
        requires
            rows@.len() == height,
            forall|y: int| 0 <= y < height ==> (#[trigger] rows@[y])@.len() == width,
            width as int * height as int <= usize::MAX,
        ensures
            img.width == width,
            img.height == height,
            img.wf(),
            forall|x: int, y: int|
                0 <= x < width && 0 <= y < height ==> #[trigger] img.pixel_at(x, y)
                    == rows@[y]@[x],
    {
        let w: usize = width as usize;
        let h: usize = height as usize;
        let mut data: Vec<u32> = Vec::with_capacity(w * h);
        let mut y: usize = 0;
        while y < h
            invariant
                w == width,
                h == height,
                rows@.len() == h,
                forall|yy: int| 0 <= yy < h ==> (#[trigger] rows@[yy])@.len() == w,
                w * h <= usize::MAX,
                y <= h,
                data@.len() == y * w,
                forall|xx: int, yy: int|
                    0 <= xx < w && 0 <= yy < y ==> data@[yy * w + xx] == #[trigger] rows@[yy]@[xx],
            decreases h - y,
        {
            let row = &rows[y];
            let mut x: usize = 0;
            proof {
                assert((y + 1) * w <= w * h) by (nonlinear_arith)
                    requires
                        y + 1 <= h,
                ;
            }
            while x < w
                invariant
                    w == width,
                    h == height,
                    row@ == rows@[y as int]@,
                    row@.len() == w,
                    y < h,
                    (y + 1) * w <= w * h,
                    w * h <= usize::MAX,
                    x <= w,
                    data@.len() == y * w + x,
                    forall|xx: int, yy: int|
                        0 <= xx < w && 0 <= yy < y ==> data@[yy * w + xx]
                            == #[trigger] rows@[yy]@[xx],
                    forall|xx: int| 0 <= xx < x ==> data@[y * w + xx] == #[trigger] row@[xx],
                decreases w - x,
            {
                let ghost before = data@;
                data.push(row[x]);
                proof {
                    assert forall|xx: int, yy: int|
                        0 <= xx < w && 0 <= yy < y implies data@[yy * w + xx]
                            == #[trigger] rows@[yy]@[xx] by {
                        lemma_row_major_index(xx, yy, w as int, y as int);
                        assert(data@[yy * w + xx] == before[yy * w + xx]);
                    }
                }
                x = x + 1;
            }
            proof {
                assert forall|xx: int, yy: int|
                    0 <= xx < w && 0 <= yy < y + 1 implies data@[yy * w + xx]
                        == #[trigger] rows@[yy]@[xx] by {
                    if yy == y {
                        assert(row@[xx] == rows@[yy]@[xx]);
                    }
                }
                assert(data@.len() == (y + 1) * w) by (nonlinear_arith)
                    requires
                        data@.len() == y * w + w,
                ;
            }
            y = y + 1;
        }
        let img = Image { width, height, data };
        proof {
            assert(h * w == width as int * height as int) by (nonlinear_arith)
                requires
                    w == width,
                    h == height,
            ;
            assert forall|x: int, y: int|
                0 <= x < width && 0 <= y < height implies #[trigger] img.pixel_at(x, y)
                    == rows@[y]@[x] by {
                assert(img.data@[y * w + x] == rows@[y]@[x]);
            }
        }
        img
    }

    /// Encodes the image as a PNG stream: the `image` crate's encoding of its
    /// channel bytes, or its error where it refuses them (an empty image).
    pub fn to_png(&self) -> (r: Result<Vec<u8>, String>)
        requires
            self.wf(),
            3 * self.data@.len() <= usize::MAX,
        ensures
            match png_encoding(self.width, self.height, rgb_bytes_of(self.data@)) {
                Some(b) => {
                    &&& r matches Ok(bytes)
                    &&& bytes@ == b
                },
                None => r is Err,
            },
            self.width == 0 || self.height == 0 ==> r is Err,
    {
        let rgb = self.to_rgb_bytes();
        proof {
            lemma_rgb_encodes_is_rgb_bytes_of(rgb@, self.data@);
        }
        png_encode(self.width, self.height, rgb.as_slice())
    }

    /// Decodes a PNG stream into an image: the picture that the `image` crate
    /// reads from it, or its error where it refuses the stream.
    pub fn from_png(bytes: &[u8]) -> (r: Result<Image, String>)
        ensures
            match png_decoding(bytes@) {
                Some((w, h, rgb)) => {
                    &&& r matches Ok(img)
                    &&& img.wf()
                    &&& img.width == w
                    &&& img.height == h
                    &&& rgb_decodes(img.data@, rgb)
                },
                None => r is Err,
            },
    {
        match png_decode(bytes) {
            Ok((w, h, rgb)) => Ok(Image::from_rgb_bytes(w, h, rgb.as_slice())),
            Err(e) => Err(e),
        }
    }

    fn pixel_diff(p1: u32, p2: u32) -> (d: u32)
        ensures
            d == pixel_difference(p1, p2),
    {
        if p1 == p2 {
            return 0;
        }
        let (r1, g1, b1) = extract_rgb(p1);
        let (r2, g2, b2) = extract_rgb(p2);
        let dr = if r1 >= r2 { r1 - r2 } else { r2 - r1 };
        let dg = if g1 >= g2 { g1 - g2 } else { g2 - g1 };
        let db = if b1 >= b2 { b1 - b2 } else { b2 - b1 };
        if dr <= 1 && dg <= 1 && db <= 1 {
            0
        } else {
            pack_rgb(dr, dg, db)
        }
    }
}

} // verus!
