use crate::graphics::{lemma_draw_concat, lemma_draw_push, plot_at, Color, Dot, Fb};
use crate::text::{chars_of, parse_number, parsed_number, rows, same_text, split_words, text_of, words};
use vstd::prelude::*;
use vstd::utf8::{decode_utf8, valid_utf8};

verus! {

/// A picture: its size in pixels, and three bytes for each pixel, red, green
/// and blue, row after row.
pub struct Image {
    pub width: usize,
    pub height: usize,
    pub data: Vec<u8>,
}

/// What a picture holds, as plain values.
pub struct ImageData {
    pub width: usize,
    pub height: usize,
    pub data: Seq<u8>,
}

impl View for Image {
    type V = ImageData;

    open spec fn view(&self) -> ImageData {
        ImageData { width: self.width, height: self.height, data: self.data@ }
    }
}

impl ImageData {
    /// The picture has three bytes for each of its pixels.
    pub open spec fn wf(self) -> bool {
        self.data.len() == self.width * self.height * 3
    }
}

impl Image {
    /// A copy of the picture.
    pub fn duplicate(&self) -> (copy: Image)
        ensures
            copy@ == self@,
    {
        Image { width: self.width, height: self.height, data: vstd::slice::slice_to_vec(self.data.as_slice()) }
    }
}

/// A sample of the picture file scaled to a byte: 255 times the value,
/// divided by the greatest value, of which the low eight bits are kept.
pub open spec fn ppm_sample(v: nat, maxv: nat) -> u8 {
    (((v * 255) / maxv) % 256) as u8
}

/// The picture that the words of a plain-text picture file describe: the
/// mark `P3`, the width, the height and the greatest sample value, then
/// three samples for each pixel. `None` where a word is missing or no
/// number, the greatest value is zero, or the picture is too large.
pub open spec fn ppm_image(t: Seq<Seq<char>>) -> Option<ImageData> {
    if t.len() < 4 || t[0] != "P3"@ {
        None
    } else {
        match (
            parsed_number(t[1], usize::MAX as nat),
            parsed_number(t[2], usize::MAX as nat),
            parsed_number(t[3], usize::MAX as nat),
        ) {
            (Some(w), Some(h), Some(m)) => {
                let count = w * h * 3;
                if m == 0 || count > usize::MAX || t.len() < 4 + count || (exists|j: int|
                    0 <= j < count && parsed_number(#[trigger] t[4 + j], usize::MAX as nat) is None) {
                    None
                } else {
                    Some(
                        ImageData {
                            width: w as usize,
                            height: h as usize,
                            data: Seq::new(count, |j: int| ppm_sample(parsed_number(t[4 + j], usize::MAX as nat)->0, m)),
                        },
                    )
                }
            },
            _ => None,
        }
    }
}

/// Reads a picture from a plain-text picture file; `None` where the bytes
/// are no text or the text describes no picture.
pub fn parse_ppm_p3(bytes: &[u8]) -> (r: Option<Image>)
    ensures
        !valid_utf8(bytes@) ==> r is None,
        valid_utf8(bytes@) ==> match ppm_image(words(decode_utf8(bytes@))) {
            Some(img) => r is Some && r->0@ == img,
            None => r is None,
        },
        r is Some ==> r->0@.wf(),
{
    let text = match text_of(bytes) {
        Some(t) => t,
        None => {
            return None;
        },
    };
    proof {
        vstd::utf8::encode_utf8_decode_utf8(text@);
    }
    let chars = chars_of(text);
    let tokens = split_words(&chars);
    let ghost t = rows(tokens@);
    if tokens.len() < 4 {
        return None;
    }
    proof {
        assert(t[0] == tokens@[0]@ && t[1] == tokens@[1]@ && t[2] == tokens@[2]@ && t[3] == tokens@[3]@);
    }
    if !same_text(&tokens[0], "P3") {
        return None;
    }
    let width = match parse_number(&tokens[1], usize::MAX as u64) {
        Some(v) => v as usize,
        None => {
            return None;
        },
    };
    let height = match parse_number(&tokens[2], usize::MAX as u64) {
        Some(v) => v as usize,
        None => {
            return None;
        },
    };
    let maxv = match parse_number(&tokens[3], usize::MAX as u64) {
        Some(v) => v,
        None => {
            return None;
        },
    };
    if maxv == 0 {
        return None;
    }
    let pixels = match width.checked_mul(height) {
        Some(p) => p,
        None => {
            proof {
                assert(width * height * 3 > usize::MAX) by (nonlinear_arith)
                    requires
                        width * height > usize::MAX,
                ;
            }
            return None;
        },
    };
    let count = match pixels.checked_mul(3) {
        Some(c) => c,
        None => {
            return None;
        },
    };
    if tokens.len() - 4 < count {
        return None;
    }
    let mut data: Vec<u8> = Vec::new();
    let mut j: usize = 0;
    while j < count
        invariant
            j <= count,
            t == rows(tokens@),
            t == words(decode_utf8(bytes@)),
            valid_utf8(bytes@),
            4 + count <= tokens@.len() <= usize::MAX,
            t[0] == "P3"@,
            parsed_number(t[1], usize::MAX as nat) == Some(width as nat),
            parsed_number(t[2], usize::MAX as nat) == Some(height as nat),
            parsed_number(t[3], usize::MAX as nat) == Some(maxv as nat),
            count == width * height * 3,
            maxv > 0,
            data@.len() == j,
            forall|i: int| 0 <= i < j ==> parsed_number(#[trigger] t[4 + i], usize::MAX as nat) is Some,
            forall|i: int|
                0 <= i < j ==> #[trigger] data@[i] == ppm_sample(parsed_number(t[4 + i], usize::MAX as nat)->0, maxv as nat),
        decreases count - j,
    {
        proof {
            assert(t[4 + j] == tokens@[4 + j]@);
        }
        let v = match parse_number(&tokens[4 + j], usize::MAX as u64) {
            Some(v) => v,
            None => {
                return None;
            },
        };
        let sample: u8 = (((v as u128 * 255) / (maxv as u128)) % 256) as u8;
        data.push(sample);
        j += 1;
    }
    let img = Image { width, height, data };
    proof {
        let want = ppm_image(t)->0;
        assert(img@.data =~= want.data);
    }
    Some(img)
}

/// The dots of the first `n` pixels of row `j` of a picture painted at `(x, y)`.
pub open spec fn image_row(img: ImageData, x: int, y: int, j: int, n: nat) -> Seq<Dot> {
    Seq::new(
        n,
        |i: int|
            Dot {
                x: x + i,
                y: y + j,
                c: Color(img.data[(j * img.width + i) * 3], img.data[(j * img.width + i) * 3 + 1], img.data[(j * img.width + i) * 3 + 2]),
            },
    )
}

/// The dots of the first `m` rows of a picture painted at `(x, y)`.
pub open spec fn image_dots(img: ImageData, x: int, y: int, m: nat) -> Seq<Dot>
    decreases m,
{
    if m == 0 {
        Seq::empty()
    } else {
        image_dots(img, x, y, (m - 1) as nat) + image_row(img, x, y, m - 1, img.width as nat)
    }
}

/// Paints a picture with its top left corner at `(x, y)`, row after row.
pub fn draw_image(fb: &mut Fb, x: usize, y: usize, img: &Image)
    requires
        old(fb)@.wf(),
    ensures
        final(fb)@ == old(fb)@.draw(picture_dots(img@, x as int, y as int)),
        final(fb)@.wf(),
{
    image_wide(fb, x as i128, y as i128, img);
}

/// The dots of a picture painted at `(x, y)`; none for a picture that has
/// not three bytes for each of its pixels.
pub open spec fn picture_dots(img: ImageData, x: int, y: int) -> Seq<Dot> {
    if img.wf() {
        image_dots(img, x, y, img.height as nat)
    } else {
        Seq::empty()
    }
}

/// Paints a picture with its top left corner at `(x, y)`, given as wide integers.
pub fn image_wide(fb: &mut Fb, x: i128, y: i128, img: &Image)
    requires
        old(fb)@.wf(),
        0 <= x <= crate::graphics::WIDE_LIMIT,
        0 <= y <= crate::graphics::WIDE_LIMIT,
    ensures
        final(fb)@ == old(fb)@.draw(picture_dots(img@, x as int, y as int)),
        final(fb)@.wf(),
{
    let held = img.data.len();
    let sound = match img.width.checked_mul(img.height) {
        Some(p) => match p.checked_mul(3) {
            Some(n) => n == held,
            None => false,
        },
        None => {
            proof {
                assert(img.width * img.height * 3 > usize::MAX) by (nonlinear_arith)
                    requires
                        img.width * img.height > usize::MAX,
                ;
            }
            false
        },
    };
    if !sound {
        return ;
    }
    let mut j: usize = 0;
    let _len = img.data.len();
    while j < img.height
        invariant
            j <= img.height,
            fb@.wf(),
            img@.wf(),
            0 <= x <= crate::graphics::WIDE_LIMIT,
            0 <= y <= crate::graphics::WIDE_LIMIT,
            img.data@.len() <= usize::MAX,
            fb@ == old(fb)@.draw(image_dots(img@, x as int, y as int, j as nat)),
        decreases img.height - j,
    {
        let ghost rows_done = image_dots(img@, x as int, y as int, j as nat);
        let ghost base = fb@;
        let mut i: usize = 0;
        while i < img.width
            invariant
                i <= img.width,
                j < img.height,
                fb@.wf(),
                img@.wf(),
                0 <= x <= crate::graphics::WIDE_LIMIT,
                0 <= y <= crate::graphics::WIDE_LIMIT,
                img.data@.len() <= usize::MAX,
                fb@ == base.draw(image_row(img@, x as int, y as int, j as int, i as nat)),
            decreases img.width - i,
        {
            proof {
                assert(0 <= j * img.width && (j * img.width + i) * 3 + 3 <= img.width * img.height * 3) by (nonlinear_arith)
                    requires
                        0 <= j < img.height,
                        0 <= i < img.width,
                ;
            }
            let idx = (j * img.width + i) * 3;
            let c = Color::rgb(img.data[idx], img.data[idx + 1], img.data[idx + 2]);
            plot_at(fb, x + i as i128, y + j as i128, c);
            proof {
                let d = Dot { x: x + i, y: y + j, c };
                assert(image_row(img@, x as int, y as int, j as int, (i + 1) as nat) =~= image_row(
                    img@,
                    x as int,
                    y as int,
                    j as int,
                    i as nat,
                ).push(d));
                lemma_draw_push(base, image_row(img@, x as int, y as int, j as int, i as nat), d);
            }
            i += 1;
        }
        proof {
            lemma_draw_concat(old(fb)@, rows_done, image_row(img@, x as int, y as int, j as int, img.width as nat));
        }
        j += 1;
    }
}

} // verus!
