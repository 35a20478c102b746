use crate::fs::memfs::{texts, MemFs};
use crate::graphics::{block_on, fill_block, lemma_more, minus, outline, outline_wide, text_dots, text_wide, Color, Dot, Fb, Font};
use crate::window::sleep;
use vstd::prelude::*;
use vstd::string::StringExecFns;

verus! {

/// Width of the loading box, in pixels.
pub const BOX_W: usize = 420;

/// Height of the loading box, in pixels.
pub const BOX_H: usize = 120;

/// Width of the progress bar, in pixels.
pub const BAR_W: usize = 388;

/// Height of the progress bar, in pixels.
pub const BAR_H: usize = 14;

/// The spinner of picture `idx`: one of four strokes, in turn.
pub open spec fn spinner(idx: int) -> Seq<char> {
    if idx % 4 == 0 {
        "-"@
    } else if idx % 4 == 1 {
        "\\"@
    } else if idx % 4 == 2 {
        "|"@
    } else {
        "/"@
    }
}

/// How much of the progress bar is filled when file `idx` of `count` is loaded.
pub open spec fn progress(idx: int, count: int) -> int {
    ((idx + 1) * (BAR_W - 2)) / (if count >= 1 { count } else { 1 })
}

/// The dots of the loading picture for file `idx` of `count`, named `name`,
/// on a screen of `w` by `h` pixels: the backdrop, the box in the middle
/// with its heading and the file's name, the progress bar, and the spinner.
pub open spec fn loading_dots(font: Seq<[u8; 8]>, name: Seq<char>, idx: int, count: int, w: int, h: int) -> Seq<Dot> {
    let x = minus(w, BOX_W as int) / 2;
    let y = minus(h, BOX_H as int) / 2;
    let px = x + 16;
    let py = y + 68;
    block_on(0, 0, w, h, Color(20, 22, 24), w, h) + outline(x, y, BOX_W as nat, BOX_H as nat, Color(85, 85, 90)) + block_on(
        x + 1,
        y + 1,
        BOX_W - 2,
        BOX_H - 2,
        Color(36, 38, 40),
        w,
        h,
    ) + text_dots(font, "Loading waemom..."@, x + 16, y + 12, Color(255, 255, 255), None, 1, w, h) + text_dots(
        font,
        "Loading: "@ + name,
        x + 16,
        y + 36,
        Color(255, 255, 255),
        None,
        1,
        w,
        h,
    ) + outline(px, py, BAR_W as nat, BAR_H as nat, Color(85, 85, 90)) + block_on(
        px + 1,
        py + 1,
        progress(idx, count),
        BAR_H - 2,
        Color(77, 198, 94),
        w,
        h,
    ) + text_dots(font, spinner(idx), px + BAR_W - 16, py - 18, Color(240, 194, 67), None, 1, w, h)
}

/// The dots of the loading pictures of the first `n` files.
pub open spec fn sequence_dots(font: Seq<[u8; 8]>, names: Seq<Seq<char>>, n: nat, w: int, h: int) -> Seq<Dot>
    decreases n,
{
    if n == 0 {
        Seq::empty()
    } else {
        sequence_dots(font, names, (n - 1) as nat, w, h) + loading_dots(font, names[n - 1], n - 1, names.len() as int, w, h)
    }
}

/// The spinner of picture `idx`.
fn spinner_of(idx: usize) -> (s: &'static str)
    ensures
        s@ == spinner(idx as int),
{
    if idx % 4 == 0 {
        "-"
    } else if idx % 4 == 1 {
        "\\"
    } else if idx % 4 == 2 {
        "|"
    } else {
        "/"
    }
}

/// Paints the loading picture for file `idx` of `count`.
fn loading_picture(fb: &mut Fb, font: &Font, name: &str, idx: usize, count: usize)
    requires
        old(fb)@.wf(),
        idx < count,
    ensures
        final(fb)@ == old(fb)@.draw(
            loading_dots(font.glyphs@, name@, idx as int, count as int, old(fb)@.width as int, old(fb)@.height as int),
        ),
        final(fb)@.wf(),
{
    let ghost start = fb@;
    let ghost sw = fb@.width as int;
    let ghost sh = fb@.height as int;
    let ghost mut acc: Seq<Dot> = Seq::empty();
    let w = fb.width;
    let h = fb.height;
    let x: i128 = ((if w >= BOX_W { w - BOX_W } else { 0 }) / 2) as i128;
    let y: i128 = ((if h >= BOX_H { h - BOX_H } else { 0 }) / 2) as i128;
    let px: i128 = x + 16;
    let py: i128 = y + 68;
    let white = Color::white();
    fill_block(fb, 0, 0, w, h, Color::rgb(20, 22, 24));
    proof {
        let p = block_on(0, 0, sw, sh, Color(20, 22, 24), sw, sh);
        lemma_more(start, acc, p, fb@);
        acc = acc + p;
    }
    outline_wide(fb, x, y, BOX_W, BOX_H, Color::win_border());
    proof {
        let p = outline(x as int, y as int, BOX_W as nat, BOX_H as nat, Color(85, 85, 90));
        lemma_more(start, acc, p, fb@);
        acc = acc + p;
    }
    fill_block(fb, x + 1, y + 1, BOX_W - 2, BOX_H - 2, Color::win_bg());
    proof {
        let p = block_on(x + 1, y + 1, BOX_W - 2, BOX_H - 2, Color(36, 38, 40), sw, sh);
        lemma_more(start, acc, p, fb@);
        acc = acc + p;
    }
    text_wide(fb, font, x + 16, y + 12, "Loading waemom...", white, None, 1);
    proof {
        let p = text_dots(font.glyphs@, "Loading waemom..."@, x + 16, y + 12, white, None, 1, sw, sh);
        lemma_more(start, acc, p, fb@);
        acc = acc + p;
    }
    let mut msg = String::from_str("Loading: ");
    msg.append(name);
    text_wide(fb, font, x + 16, y + 36, msg.as_str(), white, None, 1);
    proof {
        let p = text_dots(font.glyphs@, "Loading: "@ + name@, x + 16, y + 36, white, None, 1, sw, sh);
        lemma_more(start, acc, p, fb@);
        acc = acc + p;
    }
    outline_wide(fb, px, py, BAR_W, BAR_H, Color::win_border());
    proof {
        let p = outline(px as int, py as int, BAR_W as nat, BAR_H as nat, Color(85, 85, 90));
        lemma_more(start, acc, p, fb@);
        acc = acc + p;
    }
    proof {
        assert(0 <= ((idx + 1) * (BAR_W - 2)) / (count as int) <= BAR_W - 2) by (nonlinear_arith)
            requires
                0 <= idx < count,
                BAR_W - 2 >= 0,
        ;
    }
    let filled: usize = (((idx as u128 + 1) * (BAR_W as u128 - 2)) / (count as u128)) as usize;
    fill_block(fb, px + 1, py + 1, filled, BAR_H - 2, Color::green());
    proof {
        let p = block_on(px + 1, py + 1, progress(idx as int, count as int), BAR_H - 2, Color(77, 198, 94), sw, sh);
        lemma_more(start, acc, p, fb@);
        acc = acc + p;
    }
    text_wide(fb, font, px + (BAR_W - 16) as i128, py - 18, spinner_of(idx), Color::yellow(), None, 1);
    proof {
        let p = text_dots(font.glyphs@, spinner(idx as int), px + BAR_W - 16, py - 18, Color(240, 194, 67), None, 1, sw, sh);
        lemma_more(start, acc, p, fb@);
        acc = acc + p;
    }
}

/// Shows the loading sequence: for each file in turn its loading picture,
/// then the file is read and a pause follows.
pub fn loading_sequence(fb: &mut Fb, font: &Font, fs: &Option<MemFs>, files: &Vec<String>)
    requires
        old(fb)@.wf(),
        fs is Some ==> fs->0.wf(),
    ensures
        final(fb)@ == old(fb)@.draw(
            sequence_dots(font.glyphs@, texts(files@), files@.len(), old(fb)@.width as int, old(fb)@.height as int),
        ),
        final(fb)@.wf(),
{
    let ghost start = fb@;
    let ghost sw = fb@.width as int;
    let ghost sh = fb@.height as int;
    let count = files.len();
    let mut idx: usize = 0;
    while idx < count
        invariant
            idx <= count,
            count == files@.len(),
            fb@.wf(),
            start.wf(),
            start.width == sw,
            start.height == sh,
            fb@.width == sw,
            fb@.height == sh,
            fs is Some ==> fs->0.wf(),
            fb@ == start.draw(sequence_dots(font.glyphs@, texts(files@), idx as nat, sw, sh)),
        decreases count - idx,
    {
        let ghost done = sequence_dots(font.glyphs@, texts(files@), idx as nat, sw, sh);
        loading_picture(fb, font, files[idx].as_str(), idx, count);
        proof {
            let p = loading_dots(font.glyphs@, files@[idx as int]@, idx as int, count as int, sw, sh);
            assert(texts(files@)[idx as int] == files@[idx as int]@);
            lemma_more(start, done, p, fb@);
        }
        let _bytes = crate::fs::read(fs, files[idx].as_str());
        sleep(400_000);
        idx += 1;
    }
}

} // verus!
