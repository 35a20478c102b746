use crate::appmgr::{App, AppView, WindowState};
use crate::graphics::{
    block, block_on, clipped, disc, disc_wide, fill_block, lemma_more, minus, outline, outline_wide, round_rect_dots,
    round_rect_wide, text_dots, text_wide, Color, Dot, Fb, Font,
};
use crate::image::{image_wide, picture_dots, Image, ImageData};
use crate::mouse::{cursor_at, draw_cursor, Mouse};
use crate::net::wifi::{current_ssid, Wifi};
use crate::settings::Settings;
use crate::ui::icons::{held, Icons};
use vstd::prelude::*;
use vstd::string::StringExecFns;

verus! {

/// Height of the top bar and of a window's title bar, in pixels.
pub const TITLE_H: usize = 22;

/// Height of the dock, in pixels.
pub const DOCK_H: usize = 72;

/// Distance between two items of the dock, in pixels.
pub const DOCK_SPACING: usize = 88;

/// What the desktop shows beside the frame buffer: the font, the settings,
/// the wireless adapter, the registered applications, the mouse, the icons,
/// and the width of the dock.
pub struct Desktop {
    pub font: Font,
    pub settings: Settings,
    pub wifi: Wifi,
    pub apps: Vec<App>,
    pub mouse: Mouse,
    pub icons: Icons,
    pub dock_w: usize,
}

/// `spin_loop` of `core::hint`: tells the processor that the kernel is
/// waiting. Nothing is known of it.
#[verifier::external_body]
fn spin() {
    core::hint::spin_loop()
}

/// Waits for as long as `iters` rounds of an idle loop take.
pub fn sleep(iters: u64) {
    let mut i: u64 = 0;
    while i < iters
        invariant
            i <= iters,
        decreases iters - i,
    {
        spin();
        i += 1;
    }
}

/// The part of the screen that a maximized window takes: all of it below
/// the top bar and above the dock.
pub fn maximize_area(fb: &Fb) -> (area: (usize, usize, usize, usize))
    ensures
        area == (0usize, TITLE_H, fb.width, minus(fb.height as int, 86) as usize),
{
    let hh: usize = if fb.height >= 86 { fb.height - 86 } else { 0 };
    (0, TITLE_H, fb.width, hh)
}

/// The scale that text is drawn in: the one of the settings, at least one.
pub open spec fn scale_of(d: Desktop) -> int {
    if d.settings.font_scale >= 1 {
        d.settings.font_scale as int
    } else {
        1
    }
}

/// The dots of a text without background in the plain scale.
pub open spec fn label(d: Desktop, s: Seq<char>, x: int, y: int, c: Color, w: int, h: int) -> Seq<Dot> {
    text_dots(d.font.glyphs@, s, x, y, c, None, 1, w, h)
}

/// The dots of a text without background in the scale of the settings.
pub open spec fn caption(d: Desktop, s: Seq<char>, x: int, y: int, c: Color, w: int, h: int) -> Seq<Dot> {
    text_dots(d.font.glyphs@, s, x, y, c, None, scale_of(d), w, h)
}

/// The dots of the top bar on a screen of `w` by `h` pixels: the bar, the
/// system's name with the language, a hint, the wireless network, and the uptime.
pub open spec fn topbar_dots(d: Desktop, uptime: Seq<char>, w: int, h: int) -> Seq<Dot> {
    block_on(0, 0, w, TITLE_H as int, Color(50, 52, 56), w, h) + label(
        d,
        "waemom - "@ + d.settings.language@,
        10,
        6,
        Color(230, 230, 230),
        w,
        h,
    ) + label(d, "Ctrl-Enter: console"@, 140, 6, Color(230, 230, 230), w, h) + label(
        d,
        "Wi-Fi: "@,
        minus(w, 260),
        6,
        Color(230, 230, 230),
        w,
        h,
    ) + (match d.wifi@ {
        Some(ssid) => label(d, ssid, minus(w, 210), 6, Color(230, 230, 230), w, h),
        None => Seq::empty(),
    }) + label(d, uptime, minus(w, 90), 6, Color(230, 230, 230), w, h)
}

/// Paints the top bar.
pub fn draw_topbar(fb: &mut Fb, d: &Desktop, uptime: &str)
    requires
        old(fb)@.wf(),
    ensures
        final(fb)@ == old(fb)@.draw(topbar_dots(*d, uptime@, old(fb)@.width as int, old(fb)@.height as int)),
        final(fb)@.wf(),
{
    let ghost start = fb@;
    let ghost sw = fb@.width as int;
    let ghost sh = fb@.height as int;
    let ghost mut acc: Seq<Dot> = Seq::empty();
    let w = fb.width;
    let fg = Color::title_fg();
    fill_block(fb, 0, 0, w, TITLE_H, Color::title_bg());
    proof {
        let x = block_on(0, 0, sw, TITLE_H as int, Color(50, 52, 56), sw, sh);
        lemma_more(start, acc, x, fb@);
        acc = acc + x;
    }
    let mut title = String::from_str("waemom - ");
    title.append(d.settings.language.as_str());
    text_wide(fb, &d.font, 10, 6, title.as_str(), fg, None, 1);
    proof {
        let x = label(*d, "waemom - "@ + d.settings.language@, 10, 6, fg, sw, sh);
        lemma_more(start, acc, x, fb@);
        acc = acc + x;
    }
    text_wide(fb, &d.font, 140, 6, "Ctrl-Enter: console", fg, None, 1);
    proof {
        let x = label(*d, "Ctrl-Enter: console"@, 140, 6, fg, sw, sh);
        lemma_more(start, acc, x, fb@);
        acc = acc + x;
    }
    let at260: i128 = if w >= 260 { (w - 260) as i128 } else { 0 };
    let at210: i128 = if w >= 210 { (w - 210) as i128 } else { 0 };
    let at90: i128 = if w >= 90 { (w - 90) as i128 } else { 0 };
    text_wide(fb, &d.font, at260, 6, "Wi-Fi: ", fg, None, 1);
    proof {
        let x = label(*d, "Wi-Fi: "@, at260 as int, 6, fg, sw, sh);
        lemma_more(start, acc, x, fb@);
        acc = acc + x;
    }
    match current_ssid(&d.wifi) {
        Some(ssid) => {
            text_wide(fb, &d.font, at210, 6, ssid, fg, None, 1);
            proof {
                let x = label(*d, ssid@, at210 as int, 6, fg, sw, sh);
                lemma_more(start, acc, x, fb@);
                acc = acc + x;
            }
        },
        None => {
            proof {
                assert(acc + Seq::<Dot>::empty() =~= acc);
                acc = acc + Seq::<Dot>::empty();
            }
        },
    }
    text_wide(fb, &d.font, at90, 6, uptime, fg, None, 1);
    proof {
        let x = label(*d, uptime@, at90 as int, 6, fg, sw, sh);
        lemma_more(start, acc, x, fb@);
        acc = acc + x;
    }
}

/// The dots of the three buttons of a title bar around `(cx, cy)`: red,
/// yellow and green discs of radius five, sixteen pixels apart.
pub open spec fn controls_dots(cx: int, cy: int) -> Seq<Dot> {
    disc(cx, cy, 5, 11, Color(232, 84, 68)) + disc(cx + 16, cy, 5, 11, Color(240, 194, 67)) + disc(
        cx + 32,
        cy,
        5,
        11,
        Color(77, 198, 94),
    )
}

/// Paints the three buttons of a title bar around `(cx, cy)`.
pub fn draw_controls(fb: &mut Fb, cx: i128, cy: i128)
    requires
        old(fb)@.wf(),
        0 <= cx <= 0x40_0000_0000_0000_0000,
        0 <= cy <= 0x40_0000_0000_0000_0000,
    ensures
        final(fb)@ == old(fb)@.draw(controls_dots(cx as int, cy as int)),
        final(fb)@.wf(),
{
    let ghost start = fb@;
    let ghost mut acc: Seq<Dot> = Seq::empty();
    disc_wide(fb, cx, cy, 5, Color::red());
    proof {
        let x = disc(cx as int, cy as int, 5, 11, Color(232, 84, 68));
        lemma_more(start, acc, x, fb@);
        acc = acc + x;
    }
    disc_wide(fb, cx + 16, cy, 5, Color::yellow());
    proof {
        let x = disc(cx + 16, cy as int, 5, 11, Color(240, 194, 67));
        lemma_more(start, acc, x, fb@);
        acc = acc + x;
    }
    disc_wide(fb, cx + 32, cy, 5, Color::green());
    proof {
        let x = disc(cx + 32, cy as int, 5, 11, Color(77, 198, 94));
        lemma_more(start, acc, x, fb@);
        acc = acc + x;
    }
}

/// The dots of a window of `w` by `h` pixels at `(x, y)` on a screen of
/// `sw` by `sh` pixels: its background and border, the title bar with the
/// buttons, the icon where icons are shown and one is given, the title, and
/// the text.
pub open spec fn window_dots(
    d: Desktop,
    x: int,
    y: int,
    w: int,
    h: int,
    title: Seq<char>,
    body: Seq<char>,
    icon: Option<ImageData>,
    sw: int,
    sh: int,
) -> Seq<Dot> {
    block_on(x, y, w, h, Color(36, 38, 40), sw, sh) + outline(x, y, w as nat, h as nat, Color(85, 85, 90)) + block_on(
        x,
        y,
        w,
        TITLE_H as int,
        Color(50, 52, 56),
        sw,
        sh,
    ) + controls_dots(x + 12, y + 11) + (match icon {
        Some(img) => if d.settings.icons_enabled {
            picture_dots(img, x + 36, y + 3)
        } else {
            Seq::empty()
        },
        None => Seq::empty(),
    }) + caption(d, title, x + 56, y + 6, Color(230, 230, 230), sw, sh) + caption(
        d,
        body,
        x + 8,
        y + TITLE_H + 6,
        Color(255, 255, 255),
        sw,
        sh,
    )
}

/// Paints a window with an icon in its title bar, where one is given.
pub fn open_window_icon(fb: &mut Fb, d: &Desktop, x: usize, y: usize, w: usize, h: usize, title: &str, body: &str, icon: Option<&Image>)
    requires
        old(fb)@.wf(),
    ensures
        final(fb)@ == old(fb)@.draw(
            window_dots(
                *d,
                x as int,
                y as int,
                w as int,
                h as int,
                title@,
                body@,
                match icon {
                    Some(img) => Some(img@),
                    None => None,
                },
                old(fb)@.width as int,
                old(fb)@.height as int,
            ),
        ),
        final(fb)@.wf(),
{
    let ghost start = fb@;
    let ghost sw = fb@.width as int;
    let ghost sh = fb@.height as int;
    let ghost mut acc: Seq<Dot> = Seq::empty();
    let xi = x as i128;
    let yi = y as i128;
    fill_block(fb, xi, yi, w, h, Color::win_bg());
    proof {
        let p = block_on(x as int, y as int, w as int, h as int, Color(36, 38, 40), sw, sh);
        lemma_more(start, acc, p, fb@);
        acc = acc + p;
    }
    outline_wide(fb, xi, yi, w, h, Color::win_border());
    proof {
        let p = outline(x as int, y as int, w as nat, h as nat, Color(85, 85, 90));
        lemma_more(start, acc, p, fb@);
        acc = acc + p;
    }
    fill_block(fb, xi, yi, w, TITLE_H, Color::title_bg());
    proof {
        let p = block_on(x as int, y as int, w as int, TITLE_H as int, Color(50, 52, 56), sw, sh);
        lemma_more(start, acc, p, fb@);
        acc = acc + p;
    }
    draw_controls(fb, xi + 12, yi + 11);
    proof {
        let p = controls_dots(x + 12, y + 11);
        lemma_more(start, acc, p, fb@);
        acc = acc + p;
    }
    let ghost shown: Seq<Dot> = match icon {
        Some(img) => if d.settings.icons_enabled {
            picture_dots(img@, x + 36, y + 3)
        } else {
            Seq::empty()
        },
        None => Seq::empty(),
    };
    match icon {
        Some(img) => {
            if d.settings.icons_enabled {
                image_wide(fb, xi + 36, yi + 3, img);
            }
        },
        None => {},
    }
    proof {
        lemma_more(start, acc, shown, fb@);
        acc = acc + shown;
    }
    let scale: usize = if d.settings.font_scale >= 1 { d.settings.font_scale } else { 1 };
    text_wide(fb, &d.font, xi + 56, yi + 6, title, Color::title_fg(), None, scale);
    proof {
        let p = caption(*d, title@, x + 56, y + 6, Color(230, 230, 230), sw, sh);
        lemma_more(start, acc, p, fb@);
        acc = acc + p;
    }
    text_wide(fb, &d.font, xi + 8, yi + 28, body, Color::white(), None, scale);
    proof {
        let p = caption(*d, body@, x + 8, y + TITLE_H + 6, Color(255, 255, 255), sw, sh);
        lemma_more(start, acc, p, fb@);
        acc = acc + p;
    }
}

/// Paints a window without an icon.
pub fn open_window(fb: &mut Fb, d: &Desktop, x: usize, y: usize, w: usize, h: usize, title: &str, body: &str)
    requires
        old(fb)@.wf(),
    ensures
        final(fb)@ == old(fb)@.draw(
            window_dots(
                *d,
                x as int,
                y as int,
                w as int,
                h as int,
                title@,
                body@,
                None,
                old(fb)@.width as int,
                old(fb)@.height as int,
            ),
        ),
        final(fb)@.wf(),
{
    open_window_icon(fb, d, x, y, w, h, title, body, None);
}

/// The name of item `k` of the dock.
pub open spec fn dock_name(k: int) -> Seq<char> {
    if k == 0 {
        "Notes"@
    } else if k == 1 {
        "Files"@
    } else if k == 2 {
        "Settings"@
    } else if k == 3 {
        "Tasks"@
    } else if k == 4 {
        "Broom"@
    } else if k == 5 {
        "Network"@
    } else {
        "About"@
    }
}

/// The icon of item `k` of the dock, where it has been loaded.
pub open spec fn dock_icon(d: Desktop, k: int) -> Option<ImageData> {
    if k == 0 {
        held(d.icons.notes)
    } else if k == 1 {
        held(d.icons.files)
    } else if k == 2 {
        held(d.icons.settings)
    } else if k == 3 {
        held(d.icons.task)
    } else if k == 4 {
        held(d.icons.broom)
    } else if k == 5 {
        held(d.icons.task)
    } else {
        held(d.icons.about)
    }
}

/// Where the dock begins on a screen of `w` by `h` pixels: centred, twelve
/// pixels above the lower edge.
pub open spec fn dock_origin(d: Desktop, w: int, h: int) -> (int, int) {
    (minus(w, d.dock_w as int) / 2, minus(h, DOCK_H + 12))
}

/// The dots of the first `n` items of the dock: for each its icon, where it
/// is loaded, and its name below.
pub open spec fn dock_items(d: Desktop, n: nat, w: int, h: int) -> Seq<Dot>
    decreases n,
{
    if n == 0 {
        Seq::empty()
    } else {
        let k = n - 1;
        let (x, y) = dock_origin(d, w, h);
        let cx = x + minus(d.dock_w as int, DOCK_SPACING * 7) / 2 + 16 + DOCK_SPACING * k;
        dock_items(d, k as nat, w, h) + (match dock_icon(d, k) {
            Some(img) => picture_dots(img, cx, y + 12),
            None => Seq::empty(),
        }) + caption(d, dock_name(k), cx, y + DOCK_H - 16, Color(255, 255, 255), w, h)
    }
}

/// The dots of the dock on a screen of `w` by `h` pixels: its rounded body
/// and border, and its items where icons are shown.
pub open spec fn dock_dots(d: Desktop, w: int, h: int) -> Seq<Dot> {
    let (x, y) = dock_origin(d, w, h);
    round_rect_dots(x, y, d.dock_w as int, DOCK_H as int, 18, Color(50, 52, 56), w, h) + outline(
        x,
        y,
        d.dock_w as nat,
        DOCK_H as nat,
        Color(85, 85, 90),
    ) + (if d.settings.icons_enabled {
        dock_items(d, 7, w, h)
    } else {
        Seq::empty()
    })
}

/// The name of item `k` of the dock.
fn item_name(k: usize) -> (name: &'static str)
    requires
        k < 7,
    ensures
        name@ == dock_name(k as int),
{
    if k == 0 {
        "Notes"
    } else if k == 1 {
        "Files"
    } else if k == 2 {
        "Settings"
    } else if k == 3 {
        "Tasks"
    } else if k == 4 {
        "Broom"
    } else if k == 5 {
        "Network"
    } else {
        "About"
    }
}

/// The icon of item `k` of the dock, where it has been loaded.
fn item_icon(d: &Desktop, k: usize) -> (icon: Option<&Image>)
    requires
        k < 7,
    ensures
        dock_icon(*d, k as int) == match icon {
            Some(img) => Some(img@),
            None => None,
        },
{
    if k == 0 {
        d.icons.notes.as_ref()
    } else if k == 1 {
        d.icons.files.as_ref()
    } else if k == 2 {
        d.icons.settings.as_ref()
    } else if k == 3 {
        d.icons.task.as_ref()
    } else if k == 4 {
        d.icons.broom.as_ref()
    } else if k == 5 {
        d.icons.task.as_ref()
    } else {
        d.icons.about.as_ref()
    }
}

/// Paints the dock.
pub fn draw_dock(fb: &mut Fb, d: &Desktop)
    requires
        old(fb)@.wf(),
    ensures
        final(fb)@ == old(fb)@.draw(dock_dots(*d, old(fb)@.width as int, old(fb)@.height as int)),
        final(fb)@.wf(),
{
    let ghost start = fb@;
    let ghost sw = fb@.width as int;
    let ghost sh = fb@.height as int;
    let ghost mut acc: Seq<Dot> = Seq::empty();
    let w = fb.width;
    let h = fb.height;
    let x: i128 = (if w >= d.dock_w { w - d.dock_w } else { 0 } / 2) as i128;
    let y: i128 = (if h >= DOCK_H + 12 { h - (DOCK_H + 12) } else { 0 }) as i128;
    round_rect_wide(fb, x, y, d.dock_w, DOCK_H, 18, Color::title_bg());
    proof {
        let p = round_rect_dots(x as int, y as int, d.dock_w as int, DOCK_H as int, 18, Color(50, 52, 56), sw, sh);
        lemma_more(start, acc, p, fb@);
        acc = acc + p;
    }
    outline_wide(fb, x, y, d.dock_w, DOCK_H, Color::win_border());
    proof {
        let p = outline(x as int, y as int, d.dock_w as nat, DOCK_H as nat, Color(85, 85, 90));
        lemma_more(start, acc, p, fb@);
        acc = acc + p;
    }
    if !d.settings.icons_enabled {
        proof {
            assert(acc + Seq::<Dot>::empty() =~= acc);
        }
        return ;
    }
    let first: i128 = x + ((if d.dock_w >= DOCK_SPACING * 7 { d.dock_w - DOCK_SPACING * 7 } else { 0 }) / 2) as i128 + 16;
    let scale: usize = if d.settings.font_scale >= 1 { d.settings.font_scale } else { 1 };
    let ghost frame = acc;
    let mut k: usize = 0;
    proof {
        assert(frame + dock_items(*d, 0, sw, sh) =~= frame);
    }
    while k < 7
        invariant
            k <= 7,
            fb@.wf(),
            start.wf(),
            start.width == sw,
            start.height == sh,
            fb@.width == sw,
            fb@.height == sh,
            (x as int, y as int) == dock_origin(*d, sw, sh),
            0 <= x <= 0x1_0000_0000_0000_0000,
            0 <= y <= 0x1_0000_0000_0000_0000,
            first == x + minus(d.dock_w as int, DOCK_SPACING * 7) / 2 + 16,
            scale == scale_of(*d),
            fb@ == start.draw(frame + dock_items(*d, k as nat, sw, sh)),
        decreases 7 - k,
    {
        let ghost done = frame + dock_items(*d, k as nat, sw, sh);
        let ghost mut row: Seq<Dot> = done;
        let cx: i128 = first + (DOCK_SPACING * k) as i128;
        let ghost pic: Seq<Dot> = match dock_icon(*d, k as int) {
            Some(img) => picture_dots(img, cx as int, y + 12),
            None => Seq::empty(),
        };
        match item_icon(d, k) {
            Some(img) => {
                image_wide(fb, cx, y + 12, img);
            },
            None => {},
        }
        proof {
            lemma_more(start, row, pic, fb@);
            row = row + pic;
        }
        text_wide(fb, &d.font, cx, y + (DOCK_H - 16) as i128, item_name(k), Color::white(), None, scale);
        proof {
            let p = caption(*d, dock_name(k as int), cx as int, y + DOCK_H - 16, Color(255, 255, 255), sw, sh);
            lemma_more(start, row, p, fb@);
            row = row + p;
            assert(row =~= frame + dock_items(*d, (k + 1) as nat, sw, sh));
        }
        k += 1;
    }
}

/// The dots of the window of a registered application: the window in its
/// place for the normal state, in the maximized area for the maximized
/// state, and nothing for a window that is minimized or closed.
pub open spec fn app_dots(d: Desktop, app: AppView, w: int, h: int) -> Seq<Dot> {
    match app.state {
        WindowState::Normal => window_dots(
            d,
            app.x as int,
            app.y as int,
            app.w as int,
            app.h as int,
            app.name,
            app.body,
            app.icon,
            w,
            h,
        ),
        WindowState::Maximized => window_dots(d, 0, TITLE_H as int, w, minus(h, 86), app.name, app.body, app.icon, w, h),
        _ => Seq::empty(),
    }
}

/// The dots of the windows of the first `n` registered applications.
pub open spec fn apps_dots(d: Desktop, n: nat, w: int, h: int) -> Seq<Dot>
    decreases n,
{
    if n == 0 {
        Seq::empty()
    } else {
        apps_dots(d, (n - 1) as nat, w, h) + app_dots(d, d.apps@[n - 1]@, w, h)
    }
}

/// Paints the windows of the registered applications, in the order they
/// were registered.
pub fn render_registered_apps(fb: &mut Fb, d: &Desktop)
    requires
        old(fb)@.wf(),
    ensures
        final(fb)@ == old(fb)@.draw(apps_dots(*d, d.apps@.len(), old(fb)@.width as int, old(fb)@.height as int)),
        final(fb)@.wf(),
{
    let ghost start = fb@;
    let ghost sw = fb@.width as int;
    let ghost sh = fb@.height as int;
    let mut i: usize = 0;
    while i < d.apps.len()
        invariant
            i <= d.apps@.len(),
            fb@.wf(),
            start.wf(),
            start.width == sw,
            start.height == sh,
            fb@.width == sw,
            fb@.height == sh,
            fb@ == start.draw(apps_dots(*d, i as nat, sw, sh)),
        decreases d.apps@.len() - i,
    {
        let app = &d.apps[i];
        let ghost done = apps_dots(*d, i as nat, sw, sh);
        let ghost p = app_dots(*d, app@, sw, sh);
        match app.state {
            WindowState::Normal => {
                open_window_icon(fb, d, app.x, app.y, app.w, app.h, app.name, app.body.as_str(), app.icon);
            },
            WindowState::Maximized => {
                let (x, y, w, h) = maximize_area(fb);
                open_window_icon(fb, d, x, y, w, h, app.name, app.body.as_str(), app.icon);
            },
            _ => {},
        }
        proof {
            lemma_more(start, done, p, fb@);
        }
        i += 1;
    }
}

/// The dots of the whole desktop on a screen of `w` by `h` pixels: the
/// background, the top bar, the dock, the windows of the registered
/// applications, and the pointer of the mouse on top.
pub open spec fn desktop_dots(d: Desktop, uptime: Seq<char>, w: int, h: int) -> Seq<Dot> {
    block(0, 0, w as nat, h as nat, Color(32, 34, 36)) + topbar_dots(d, uptime, w, h) + dock_dots(d, w, h) + apps_dots(
        d,
        d.apps@.len(),
        w,
        h,
    ) + block(
        cursor_at(d.mouse@.x),
        cursor_at(d.mouse@.y),
        clipped(cursor_at(d.mouse@.x), 6, w),
        clipped(cursor_at(d.mouse@.y), 6, h),
        Color(255, 255, 255),
    )
}

/// Paints the whole desktop anew.
pub fn refresh_desktop(fb: &mut Fb, d: &Desktop, uptime: &str)
    requires
        old(fb)@.wf(),
    ensures
        final(fb)@ == old(fb)@.draw(desktop_dots(*d, uptime@, old(fb)@.width as int, old(fb)@.height as int)),
        final(fb)@.wf(),
        final(fb)@.width == old(fb)@.width,
        final(fb)@.height == old(fb)@.height,
{
    let ghost start = fb@;
    let ghost sw = fb@.width as int;
    let ghost sh = fb@.height as int;
    let ghost mut acc: Seq<Dot> = Seq::empty();
    crate::graphics::clear_screen(fb, Color::rgb(32, 34, 36));
    proof {
        let p = block(0, 0, sw as nat, sh as nat, Color(32, 34, 36));
        lemma_more(start, acc, p, fb@);
        acc = acc + p;
    }
    draw_topbar(fb, d, uptime);
    proof {
        let p = topbar_dots(*d, uptime@, sw, sh);
        lemma_more(start, acc, p, fb@);
        acc = acc + p;
    }
    draw_dock(fb, d);
    proof {
        let p = dock_dots(*d, sw, sh);
        lemma_more(start, acc, p, fb@);
        acc = acc + p;
    }
    render_registered_apps(fb, d);
    proof {
        let p = apps_dots(*d, d.apps@.len(), sw, sh);
        lemma_more(start, acc, p, fb@);
        acc = acc + p;
    }
    draw_cursor(fb, &d.mouse);
    proof {
        let p = block(
            cursor_at(d.mouse@.x),
            cursor_at(d.mouse@.y),
            clipped(cursor_at(d.mouse@.x), 6, sw),
            clipped(cursor_at(d.mouse@.y), 6, sh),
            Color(255, 255, 255),
        );
        lemma_more(start, acc, p, fb@);
        acc = acc + p;
    }
}

/// The size of a window at step `i` of `steps` of an animation: that part
/// of the full size, but at least `least`.
pub open spec fn grown(full: int, i: int, steps: int, least: int) -> int {
    if full * i / steps >= least {
        full * i / steps
    } else {
        least
    }
}

/// The size of a window at step `i` of `steps` of an animation.
fn grow(full: usize, i: usize, steps: usize, least: usize) -> (size: usize)
    requires
        1 <= i <= steps,
    ensures
        size == grown(full as int, i as int, steps as int, least as int),
{
    proof {
        assert(0 <= (full as int) * (i as int) <= 0xFFFF_FFFF_FFFF_FFFF * 0xFFFF_FFFF_FFFF_FFFF) by (nonlinear_arith)
            requires
                0 <= full <= 0xFFFF_FFFF_FFFF_FFFF,
                0 <= i <= 0xFFFF_FFFF_FFFF_FFFF,
        ;
        assert((full as int) * (i as int) / (steps as int) <= full) by (nonlinear_arith)
            requires
                0 <= full,
                1 <= i <= steps,
        ;
    }
    let part = ((full as u128) * (i as u128) / (steps as u128)) as usize;
    if part >= least {
        part
    } else {
        least
    }
}

/// One picture of an animation: the desktop, and on it a window of the size
/// of step `i`.
pub open spec fn step_dots(
    d: Desktop,
    uptime: Seq<char>,
    x: int,
    y: int,
    w: int,
    h: int,
    title: Seq<char>,
    body: Seq<char>,
    icon: Option<ImageData>,
    steps: int,
    i: int,
    sw: int,
    sh: int,
) -> Seq<Dot> {
    desktop_dots(d, uptime, sw, sh) + window_dots(
        d,
        x,
        y,
        grown(w, i, steps, 60),
        grown(h, i, steps, 40),
        title,
        body,
        icon,
        sw,
        sh,
    )
}

/// The first `n` pictures of the animation of a window that opens: the
/// window grows from step one to step `n`.
pub open spec fn opening_dots(
    d: Desktop,
    uptime: Seq<char>,
    x: int,
    y: int,
    w: int,
    h: int,
    title: Seq<char>,
    body: Seq<char>,
    icon: Option<ImageData>,
    steps: int,
    n: nat,
    sw: int,
    sh: int,
) -> Seq<Dot>
    decreases n,
{
    if n == 0 {
        Seq::empty()
    } else {
        opening_dots(d, uptime, x, y, w, h, title, body, icon, steps, (n - 1) as nat, sw, sh) + step_dots(
            d,
            uptime,
            x,
            y,
            w,
            h,
            title,
            body,
            icon,
            steps,
            n as int,
            sw,
            sh,
        )
    }
}

/// The first `n` pictures of the animation of a window that closes: the
/// window without title and text shrinks from step `steps` downwards.
pub open spec fn closing_dots(d: Desktop, uptime: Seq<char>, x: int, y: int, w: int, h: int, steps: int, n: nat, sw: int, sh: int) -> Seq<
    Dot,
>
    decreases n,
{
    if n == 0 {
        Seq::empty()
    } else {
        closing_dots(d, uptime, x, y, w, h, steps, (n - 1) as nat, sw, sh) + step_dots(
            d,
            uptime,
            x,
            y,
            w,
            h,
            ""@,
            ""@,
            None,
            steps,
            steps - n + 1,
            sw,
            sh,
        )
    }
}

/// Everything that opening a window paints: with animations, the pictures
/// of the growing window; then the desktop with the window in its full size.
pub open spec fn opened_dots(
    d: Desktop,
    uptime: Seq<char>,
    x: int,
    y: int,
    w: int,
    h: int,
    title: Seq<char>,
    body: Seq<char>,
    icon: Option<ImageData>,
    steps: int,
    sw: int,
    sh: int,
) -> Seq<Dot> {
    (if d.settings.animations_enabled {
        opening_dots(d, uptime, x, y, w, h, title, body, icon, steps, steps as nat, sw, sh)
    } else {
        Seq::empty()
    }) + desktop_dots(d, uptime, sw, sh) + window_dots(d, x, y, w, h, title, body, icon, sw, sh)
}

/// Paints one picture of an animation: the desktop, and on it the window
/// in the size of step `i`.
fn animation_step(
    fb: &mut Fb,
    d: &Desktop,
    uptime: &str,
    x: usize,
    y: usize,
    w: usize,
    h: usize,
    title: &str,
    body: &str,
    icon: Option<&Image>,
    steps: usize,
    i: usize,
)
    requires
        old(fb)@.wf(),
        1 <= i <= steps,
    ensures
        final(fb)@ == old(fb)@.draw(
            step_dots(
                *d,
                uptime@,
                x as int,
                y as int,
                w as int,
                h as int,
                title@,
                body@,
                match icon {
                    Some(img) => Some(img@),
                    None => None,
                },
                steps as int,
                i as int,
                old(fb)@.width as int,
                old(fb)@.height as int,
            ),
        ),
        final(fb)@.wf(),
{
    let ghost start = fb@;
    let ghost sw = fb@.width as int;
    let ghost sh = fb@.height as int;
    let ghost pic: Option<ImageData> = match icon {
        Some(img) => Some(img@),
        None => None,
    };
    let ghost mut acc: Seq<Dot> = Seq::empty();
    let iw = grow(w, i, steps, 60);
    let ih = grow(h, i, steps, 40);
    refresh_desktop(fb, d, uptime);
    proof {
        let p = desktop_dots(*d, uptime@, sw, sh);
        lemma_more(start, acc, p, fb@);
        acc = acc + p;
    }
    open_window_icon(fb, d, x, y, iw, ih, title, body, icon);
    proof {
        let p = window_dots(*d, x as int, y as int, iw as int, ih as int, title@, body@, pic, sw, sh);
        lemma_more(start, acc, p, fb@);
        acc = acc + p;
    }
}

/// Opens a window with an icon: with animations switched on the window
/// grows in `steps` steps, with a pause after each; then the desktop is
/// painted with the window in its full size.
pub fn open_window_icon_animated(
    fb: &mut Fb,
    d: &Desktop,
    uptime: &str,
    x: usize,
    y: usize,
    w: usize,
    h: usize,
    title: &str,
    body: &str,
    steps: usize,
    icon: Option<&Image>,
)
    requires
        old(fb)@.wf(),
    ensures
        final(fb)@ == old(fb)@.draw(
            opened_dots(
                *d,
                uptime@,
                x as int,
                y as int,
                w as int,
                h as int,
                title@,
                body@,
                match icon {
                    Some(img) => Some(img@),
                    None => None,
                },
                steps as int,
                old(fb)@.width as int,
                old(fb)@.height as int,
            ),
        ),
        final(fb)@.wf(),
{
    let ghost start = fb@;
    let ghost sw = fb@.width as int;
    let ghost sh = fb@.height as int;
    let ghost pic: Option<ImageData> = match icon {
        Some(img) => Some(img@),
        None => None,
    };
    let mut n: usize = 0;
    let ghost mut acc: Seq<Dot> = Seq::empty();
    if d.settings.animations_enabled {
        while n < steps
            invariant
                n <= steps,
                fb@.wf(),
                start.wf(),
                start.width == sw,
                start.height == sh,
                fb@.width == sw,
                fb@.height == sh,
                pic == (match icon {
                    Some(img) => Some(img@),
                    None => None,
                }),
                acc == opening_dots(*d, uptime@, x as int, y as int, w as int, h as int, title@, body@, pic, steps as int, n as nat, sw, sh),
                fb@ == start.draw(acc),
            decreases steps - n,
        {
            animation_step(fb, d, uptime, x, y, w, h, title, body, icon, steps, n + 1);
            proof {
                let p = step_dots(*d, uptime@, x as int, y as int, w as int, h as int, title@, body@, pic, steps as int, n + 1, sw, sh);
                lemma_more(start, acc, p, fb@);
                acc = acc + p;
            }
            sleep(120_000);
            n += 1;
        }
    }
    refresh_desktop(fb, d, uptime);
    proof {
        let p = desktop_dots(*d, uptime@, sw, sh);
        lemma_more(start, acc, p, fb@);
        acc = acc + p;
    }
    open_window_icon(fb, d, x, y, w, h, title, body, icon);
    proof {
        let p = window_dots(*d, x as int, y as int, w as int, h as int, title@, body@, pic, sw, sh);
        lemma_more(start, acc, p, fb@);
        acc = acc + p;
    }
}

/// Opens a window without an icon; see `open_window_icon_animated`.
pub fn open_window_animated(fb: &mut Fb, d: &Desktop, uptime: &str, x: usize, y: usize, w: usize, h: usize, title: &str, body: &str, steps: usize)
    requires
        old(fb)@.wf(),
    ensures
        final(fb)@ == old(fb)@.draw(
            opened_dots(
                *d,
                uptime@,
                x as int,
                y as int,
                w as int,
                h as int,
                title@,
                body@,
                None,
                steps as int,
                old(fb)@.width as int,
                old(fb)@.height as int,
            ),
        ),
        final(fb)@.wf(),
{
    open_window_icon_animated(fb, d, uptime, x, y, w, h, title, body, steps, None);
}

/// Everything that closing a window paints: with animations, the pictures
/// of the shrinking window; then the desktop without it.
pub open spec fn closed_dots(d: Desktop, uptime: Seq<char>, x: int, y: int, w: int, h: int, steps: int, sw: int, sh: int) -> Seq<Dot> {
    (if d.settings.animations_enabled {
        closing_dots(d, uptime, x, y, w, h, steps, steps as nat, sw, sh)
    } else {
        Seq::empty()
    }) + desktop_dots(d, uptime, sw, sh)
}

/// Closes a window: with animations switched on an empty window shrinks in
/// `steps` steps, with a pause after each; then the desktop is painted
/// without it.
pub fn close_window_animated(fb: &mut Fb, d: &Desktop, uptime: &str, x: usize, y: usize, w: usize, h: usize, steps: usize)
    requires
        old(fb)@.wf(),
    ensures
        final(fb)@ == old(fb)@.draw(
            closed_dots(
                *d,
                uptime@,
                x as int,
                y as int,
                w as int,
                h as int,
                steps as int,
                old(fb)@.width as int,
                old(fb)@.height as int,
            ),
        ),
        final(fb)@.wf(),
{
    let ghost start = fb@;
    let ghost sw = fb@.width as int;
    let ghost sh = fb@.height as int;
    let mut n: usize = 0;
    let ghost mut acc: Seq<Dot> = Seq::empty();
    if d.settings.animations_enabled {
        while n < steps
            invariant
                n <= steps,
                fb@.wf(),
                start.wf(),
                start.width == sw,
                start.height == sh,
                fb@.width == sw,
                fb@.height == sh,
                acc == closing_dots(*d, uptime@, x as int, y as int, w as int, h as int, steps as int, n as nat, sw, sh),
                fb@ == start.draw(acc),
            decreases steps - n,
        {
            animation_step(fb, d, uptime, x, y, w, h, "", "", None, steps, steps - n);
            proof {
                let p = step_dots(*d, uptime@, x as int, y as int, w as int, h as int, ""@, ""@, None, steps as int, steps - n, sw, sh);
                lemma_more(start, acc, p, fb@);
                acc = acc + p;
            }
            sleep(120_000);
            n += 1;
        }
    }
    refresh_desktop(fb, d, uptime);
    proof {
        let p = desktop_dots(*d, uptime@, sw, sh);
        lemma_more(start, acc, p, fb@);
        acc = acc + p;
    }
}

} // verus!
