use waemom::appmgr::{spawn, WindowState};
use waemom::fs::memfs::MemFs;
use waemom::graphics::{init, Color, Fb, Font};
use waemom::image::Image;
use waemom::loader::loading_sequence;
use waemom::mouse::Mouse;
use waemom::net::wifi::Wifi;
use waemom::net::NetConfig;
use waemom::settings::Settings;
use waemom::ui::icons::Icons;
use waemom::window::{
    close_window_animated, draw_dock, draw_topbar, maximize_area, open_window, open_window_animated, open_window_icon,
    open_window_icon_animated, refresh_desktop, render_registered_apps, sleep, Desktop,
};

fn screen(w: usize, h: usize) -> Fb {
    init(w, h, w * 4, 4, vec![0; w * h * 4]).unwrap()
}

fn pixel(fb: &Fb, x: usize, y: usize) -> (u8, u8, u8) {
    let i = y * fb.stride + x * 4;
    (fb.buf[i + 2], fb.buf[i + 1], fb.buf[i])
}

fn desktop() -> Desktop {
    let mut glyphs = vec![[0u8; 8]; 128];
    glyphs['#' as usize] = [0xff; 8];
    Desktop {
        font: Font { glyphs },
        settings: Settings::default(),
        wifi: Wifi::new(),
        apps: Vec::new(),
        mouse: Mouse::new(),
        icons: Icons::new(),
        dock_w: 240,
    }
}

const BG: (u8, u8, u8) = (32, 34, 36);
const TITLE: (u8, u8, u8) = (50, 52, 56);
const WIN: (u8, u8, u8) = (36, 38, 40);
const BORDER: (u8, u8, u8) = (85, 85, 90);
const WHITE: (u8, u8, u8) = (255, 255, 255);

#[test]
fn the_maximized_area_lies_between_bar_and_dock() {
    assert_eq!(maximize_area(&screen(400, 300)), (0, 22, 400, 214));
    assert_eq!(maximize_area(&screen(10, 50)), (0, 22, 10, 0));
    sleep(1000);
    sleep(0);
}

#[test]
fn the_top_bar_shows_the_uptime_at_the_right() {
    let mut fb = screen(400, 100);
    let mut d = desktop();
    draw_topbar(&mut fb, &d, "#");
    assert_eq!(pixel(&fb, 0, 0), TITLE);
    assert_eq!(pixel(&fb, 399, 21), TITLE);
    assert_eq!(pixel(&fb, 0, 22), (0, 0, 0));
    assert_eq!(pixel(&fb, 310, 6), (230, 230, 230));
    assert_eq!(pixel(&fb, 317, 13), (230, 230, 230));
    assert_eq!(pixel(&fb, 318, 6), TITLE);
    assert_eq!(pixel(&fb, 190, 6), TITLE);
    let mut net = NetConfig::new();
    waemom::net::wifi::connect(&mut d.wifi, &mut net, "#", "");
    draw_topbar(&mut fb, &d, "");
    assert_eq!(pixel(&fb, 190, 6), (230, 230, 230));
    assert_eq!(pixel(&fb, 310, 6), TITLE);
}

#[test]
fn a_window_has_a_border_a_title_bar_and_buttons() {
    let mut fb = screen(300, 200);
    let d = desktop();
    open_window(&mut fb, &d, 20, 30, 200, 100, "#", "\n#");
    assert_eq!(pixel(&fb, 20, 30), TITLE);
    assert_eq!(pixel(&fb, 20, 60), BORDER);
    assert_eq!(pixel(&fb, 219, 129), BORDER);
    assert_eq!(pixel(&fb, 100, 100), WIN);
    assert_eq!(pixel(&fb, 100, 40), TITLE);
    assert_eq!(pixel(&fb, 220, 60), (0, 0, 0));
    assert_eq!(pixel(&fb, 32, 41), (232, 84, 68));
    assert_eq!(pixel(&fb, 48, 41), (240, 194, 67));
    assert_eq!(pixel(&fb, 64, 41), (77, 198, 94));
    assert_eq!(pixel(&fb, 76, 36), (230, 230, 230));
    assert_eq!(pixel(&fb, 0, 66), WHITE);
    assert_eq!(pixel(&fb, 7, 73), WHITE);
    assert_eq!(pixel(&fb, 8, 66), (0, 0, 0));
    assert_eq!(pixel(&fb, 28, 58), WIN);
}

#[test]
fn an_icon_is_shown_where_icons_are_enabled() {
    let icon = Image { width: 2, height: 1, data: vec![1, 2, 3, 4, 5, 6] };
    let mut d = desktop();
    let mut fb = screen(300, 200);
    open_window_icon(&mut fb, &d, 0, 0, 100, 50, "", "", Some(&icon));
    assert_eq!(pixel(&fb, 36, 3), (1, 2, 3));
    assert_eq!(pixel(&fb, 37, 3), (4, 5, 6));
    d.settings.icons_enabled = false;
    let mut off = screen(300, 200);
    open_window_icon(&mut off, &d, 0, 0, 100, 50, "", "", Some(&icon));
    assert_eq!(pixel(&off, 36, 3), TITLE);
}

#[test]
fn text_takes_the_scale_of_the_settings() {
    let mut d = desktop();
    d.settings.font_scale = 2;
    let mut fb = screen(300, 200);
    open_window(&mut fb, &d, 0, 0, 200, 100, "", "#");
    assert_eq!(pixel(&fb, 8, 28), WHITE);
    assert_eq!(pixel(&fb, 23, 43), WHITE);
    assert_eq!(pixel(&fb, 24, 28), WIN);
    d.settings.font_scale = 0;
    let mut small = screen(300, 200);
    open_window(&mut small, &d, 0, 0, 200, 100, "", "#");
    assert_eq!(pixel(&small, 15, 35), WHITE);
    assert_eq!(pixel(&small, 16, 36), WIN);
}

#[test]
fn the_dock_is_centred_above_the_lower_edge() {
    let mut fb = screen(400, 300);
    let mut d = desktop();
    d.icons.notes = Some(Image { width: 1, height: 1, data: vec![9, 9, 9] });
    draw_dock(&mut fb, &d);
    assert_eq!(pixel(&fb, 80, 216), BORDER);
    assert_eq!(pixel(&fb, 200, 250), TITLE);
    assert_eq!(pixel(&fb, 319, 287), BORDER);
    assert_eq!(pixel(&fb, 79, 250), (0, 0, 0));
    assert_eq!(pixel(&fb, 200, 215), (0, 0, 0));
    assert_eq!(pixel(&fb, 96, 228), (9, 9, 9));
    d.settings.icons_enabled = false;
    let mut bare = screen(400, 300);
    draw_dock(&mut bare, &d);
    assert_eq!(pixel(&bare, 96, 228), TITLE);
    d.dock_w = 1000;
    let mut wide = screen(400, 300);
    draw_dock(&mut wide, &d);
    assert_eq!(pixel(&wide, 0, 216), BORDER);
    assert_eq!(pixel(&wide, 399, 250), TITLE);
}

#[test]
fn registered_applications_are_painted_by_their_state() {
    let mut d = desktop();
    spawn(&mut d.apps, "a", 10, 30, 60, 50, None, String::new());
    spawn(&mut d.apps, "b", 100, 30, 60, 50, None, String::new());
    spawn(&mut d.apps, "c", 200, 30, 60, 50, None, String::new());
    d.apps[1].state = WindowState::Minimized;
    d.apps[2].state = WindowState::Closed;
    let mut fb = screen(400, 300);
    render_registered_apps(&mut fb, &d);
    assert_eq!(pixel(&fb, 40, 70), WIN);
    assert_eq!(pixel(&fb, 130, 70), (0, 0, 0));
    assert_eq!(pixel(&fb, 230, 70), (0, 0, 0));
    d.apps[2].state = WindowState::Maximized;
    render_registered_apps(&mut fb, &d);
    assert_eq!(pixel(&fb, 230, 70), WIN);
    assert_eq!(pixel(&fb, 0, 22), TITLE);
    assert_eq!(pixel(&fb, 399, 235), BORDER);
    assert_eq!(pixel(&fb, 200, 236), (0, 0, 0));
}

#[test]
fn the_desktop_is_painted_with_the_pointer_on_top() {
    let mut d = desktop();
    spawn(&mut d.apps, "a", 90, 90, 60, 50, None, String::new());
    let mut fb = screen(400, 300);
    refresh_desktop(&mut fb, &d, "");
    assert_eq!(pixel(&fb, 5, 100), BG);
    assert_eq!(pixel(&fb, 5, 5), TITLE);
    assert_eq!(pixel(&fb, 200, 250), TITLE);
    assert_eq!(pixel(&fb, 110, 130), WIN);
    assert_eq!(pixel(&fb, 100, 100), WHITE);
    assert_eq!(pixel(&fb, 105, 105), WHITE);
    assert_eq!(pixel(&fb, 106, 106), TITLE);
}

#[test]
fn an_opened_window_ends_in_its_full_size() {
    let d = desktop();
    let mut fb = screen(400, 300);
    open_window_animated(&mut fb, &d, "", 20, 30, 300, 150, "", "", 3);
    let mut plain = screen(400, 300);
    refresh_desktop(&mut plain, &d, "");
    open_window(&mut plain, &d, 20, 30, 300, 150, "", "");
    assert_eq!(fb.buf, plain.buf);
    let mut still = desktop();
    still.settings.animations_enabled = false;
    let mut quick = screen(400, 300);
    open_window_icon_animated(&mut quick, &still, "", 20, 30, 300, 150, "", "", 3, None);
    assert_eq!(quick.buf, plain.buf);
    let mut none = screen(400, 300);
    open_window_animated(&mut none, &d, "", 20, 30, 300, 150, "", "", 0);
    assert_eq!(none.buf, plain.buf);
}

#[test]
fn a_closed_window_leaves_the_desktop() {
    let d = desktop();
    let mut fb = screen(400, 300);
    open_window(&mut fb, &d, 20, 30, 300, 150, "", "");
    close_window_animated(&mut fb, &d, "", 20, 30, 300, 150, 2);
    let mut plain = screen(400, 300);
    refresh_desktop(&mut plain, &d, "");
    assert_eq!(fb.buf, plain.buf);
}

#[test]
fn the_loading_sequence_ends_with_a_full_bar() {
    let d = desktop();
    let fs = Some(MemFs::new_dir("/"));
    let mut fb = screen(500, 200);
    loading_sequence(&mut fb, &d.font, &fs, &vec!["/a".to_string(), "#".to_string()]);
    assert_eq!(pixel(&fb, 0, 0), (20, 22, 24));
    assert_eq!(pixel(&fb, 40, 40), BORDER);
    assert_eq!(pixel(&fb, 41, 41), WIN);
    assert_eq!(pixel(&fb, 56, 108), BORDER);
    assert_eq!(pixel(&fb, 57, 109), (77, 198, 94));
    assert_eq!(pixel(&fb, 442, 120), (77, 198, 94));
    assert_eq!(pixel(&fb, 443, 109), BORDER);
    assert_eq!(pixel(&fb, 56 + 72, 76), WHITE);
    let mut one = screen(500, 200);
    loading_sequence(&mut one, &d.font, &fs, &vec!["x".to_string(), "y".to_string(), "z".to_string(), "w".to_string()]);
    assert_eq!(pixel(&one, 442, 120), (77, 198, 94));
    let mut none = screen(500, 200);
    loading_sequence(&mut none, &d.font, &None, &vec![]);
    assert!(none.buf.iter().all(|&b| b == 0));
    let mut half = screen(500, 200);
    loading_sequence(&mut half, &d.font, &fs, &vec!["x".to_string()]);
    assert_eq!(pixel(&half, 442, 120), (77, 198, 94));
    let _ = Color::black();
}
