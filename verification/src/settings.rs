use crate::text::{chars_of, find_char, first_index, lines, lowered, parse_number, parsed_number, rows, same_text, slice_chars, split_lines, string_of, strip, stripped, to_lowered, trim, trimmed};
use vstd::prelude::*;
use vstd::string::StringExecFns;

verus! {

/// The settings of the system.
pub struct Settings {
    pub elf_enabled: bool,
    pub elf_max_bytes: usize,
    pub linux_mode: bool,
    pub web_enabled: bool,
    pub language: String,
    pub font_scale: usize,
    pub icons_enabled: bool,
    pub animations_enabled: bool,
    pub loading_animations: bool,
}

/// What the settings hold, as plain values.
pub struct SettingsView {
    pub elf_enabled: bool,
    pub elf_max_bytes: usize,
    pub linux_mode: bool,
    pub web_enabled: bool,
    pub language: Seq<char>,
    pub font_scale: usize,
    pub icons_enabled: bool,
    pub animations_enabled: bool,
    pub loading_animations: bool,
}

impl View for Settings {
    type V = SettingsView;

    open spec fn view(&self) -> SettingsView {
        SettingsView {
            elf_enabled: self.elf_enabled,
            elf_max_bytes: self.elf_max_bytes,
            linux_mode: self.linux_mode,
            web_enabled: self.web_enabled,
            language: self.language@,
            font_scale: self.font_scale,
            icons_enabled: self.icons_enabled,
            animations_enabled: self.animations_enabled,
            loading_animations: self.loading_animations,
        }
    }
}

/// The settings that the system starts with.
pub open spec fn default_settings() -> SettingsView {
    SettingsView {
        elf_enabled: true,
        elf_max_bytes: 4096,
        linux_mode: true,
        web_enabled: true,
        language: "en-US"@,
        font_scale: 1,
        icons_enabled: true,
        animations_enabled: true,
        loading_animations: true,
    }
}

impl Default for Settings {
    fn default() -> (s: Self)
        ensures
            s@ == default_settings(),
    {
        Settings {
            elf_enabled: true,
            elf_max_bytes: 4096,
            linux_mode: true,
            web_enabled: true,
            language: String::from_str("en-US"),
            font_scale: 1,
            icons_enabled: true,
            animations_enabled: true,
            loading_animations: true,
        }
    }
}

/// What a word says of a switch: on for `true`, `1`, `yes` and `on`, off for
/// `false`, `0`, `no` and `off`, in any case of the letters; else `default`.
pub open spec fn bool_of(v: Seq<char>, default: bool) -> bool {
    let l = lowered(v);
    if l == "true"@ || l == "1"@ || l == "yes"@ || l == "on"@ {
        true
    } else if l == "false"@ || l == "0"@ || l == "no"@ || l == "off"@ {
        false
    } else {
        default
    }
}

/// What a word says of a number: the number it states, else `default`.
pub open spec fn number_of(v: Seq<char>, default: usize) -> usize {
    match parsed_number(v, usize::MAX as nat) {
        Some(n) => n as usize,
        None => default,
    }
}

/// The settings after the key got the value, in the given section; a key
/// that the section does not have changes nothing.
pub open spec fn assigned(s: SettingsView, section: Seq<char>, key: Seq<char>, val: Seq<char>) -> SettingsView {
    if section == "elf"@ && key == "enabled"@ {
        SettingsView { elf_enabled: bool_of(val, s.elf_enabled), ..s }
    } else if section == "elf"@ && key == "max_bytes"@ {
        SettingsView { elf_max_bytes: number_of(val, s.elf_max_bytes), ..s }
    } else if section == "linux"@ && key == "mode"@ {
        SettingsView { linux_mode: bool_of(val, s.linux_mode), ..s }
    } else if section == "web"@ && key == "enabled"@ {
        SettingsView { web_enabled: bool_of(val, s.web_enabled), ..s }
    } else if section == "ui"@ && key == "language"@ {
        SettingsView { language: stripped(val, '"', '"'), ..s }
    } else if section == "ui"@ && key == "font_scale"@ {
        SettingsView { font_scale: number_of(val, s.font_scale), ..s }
    } else if section == "ui"@ && key == "icons"@ {
        SettingsView { icons_enabled: bool_of(val, s.icons_enabled), ..s }
    } else if section == "ui"@ && key == "animations"@ {
        SettingsView { animations_enabled: bool_of(val, s.animations_enabled), ..s }
    } else if section == "ui"@ && key == "loading_animations"@ {
        SettingsView { loading_animations: bool_of(val, s.loading_animations), ..s }
    } else {
        s
    }
}

/// The section and the settings after one line was read. The line is
/// trimmed; an empty line and one that begins with `#` change nothing; a
/// line in square brackets opens the section that it names; a line with an
/// equals sign gives the key before the sign the value after it, both trimmed.
pub open spec fn after_line(state: (Seq<char>, SettingsView), raw: Seq<char>) -> (Seq<char>, SettingsView) {
    let line = trimmed(raw);
    if line.len() == 0 || line[0] == '#' {
        state
    } else if line[0] == '[' && line.last() == ']' {
        (stripped(line, '[', ']'), state.1)
    } else {
        let eq = first_index(line, '=');
        if eq < line.len() {
            (state.0, assigned(state.1, state.0, trimmed(line.take(eq as int)), trimmed(line.skip(eq as int + 1))))
        } else {
            state
        }
    }
}

/// The section and the settings after the lines were read, in their order.
pub open spec fn after_lines(state: (Seq<char>, SettingsView), all: Seq<Seq<char>>) -> (Seq<char>, SettingsView)
    decreases all.len(),
{
    if all.len() == 0 {
        state
    } else {
        after_line(after_lines(state, all.drop_last()), all.last())
    }
}

/// What a word says of a switch; see `bool_of`.
pub fn parse_bool(v: &str, default: bool) -> (r: bool)
    ensures
        r == bool_of(v@, default),
{
    let chars = chars_of(v);
    switch_of(&chars, default)
}

/// What a word says of a switch; see `bool_of`.
fn switch_of(v: &Vec<char>, default: bool) -> (r: bool)
    ensures
        r == bool_of(v@, default),
{
    let l = to_lowered(v);
    if same_text(&l, "true") || same_text(&l, "1") || same_text(&l, "yes") || same_text(&l, "on") {
        true
    } else if same_text(&l, "false") || same_text(&l, "0") || same_text(&l, "no") || same_text(&l, "off") {
        false
    } else {
        default
    }
}

/// What a word says of a number; see `number_of`.
fn count_of(v: &Vec<char>, default: usize) -> (r: usize)
    ensures
        r == number_of(v@, default),
{
    match parse_number(v, usize::MAX as u64) {
        Some(n) => n as usize,
        None => default,
    }
}

/// Gives the key the value in the given section; see `assigned`.
fn assign(s: &mut Settings, section: &Vec<char>, key: &Vec<char>, val: &Vec<char>)
    ensures
        final(s)@ == assigned(old(s)@, section@, key@, val@),
{
    let elf = same_text(section, "elf");
    let linux = same_text(section, "linux");
    let web = same_text(section, "web");
    let ui = same_text(section, "ui");
    if elf && same_text(key, "enabled") {
        s.elf_enabled = switch_of(val, s.elf_enabled);
    } else if elf && same_text(key, "max_bytes") {
        s.elf_max_bytes = count_of(val, s.elf_max_bytes);
    } else if linux && same_text(key, "mode") {
        s.linux_mode = switch_of(val, s.linux_mode);
    } else if web && same_text(key, "enabled") {
        s.web_enabled = switch_of(val, s.web_enabled);
    } else if ui && same_text(key, "language") {
        s.language = string_of(&strip(val, '"', '"'));
    } else if ui && same_text(key, "font_scale") {
        s.font_scale = count_of(val, s.font_scale);
    } else if ui && same_text(key, "icons") {
        s.icons_enabled = switch_of(val, s.icons_enabled);
    } else if ui && same_text(key, "animations") {
        s.animations_enabled = switch_of(val, s.animations_enabled);
    } else if ui && same_text(key, "loading_animations") {
        s.loading_animations = switch_of(val, s.loading_animations);
    }
}

/// Reads settings from the text of a lock file, line by line, from the
/// settings that are in force: sections in square brackets, keys with their
/// values after an equals sign, and comments after `#`.
pub fn load_from_lock(settings: &mut Settings, contents: &str)
    ensures
        final(settings)@ == after_lines((Seq::empty(), old(settings)@), lines(contents@)).1,
{
    let chars = chars_of(contents);
    let all = split_lines(&chars);
    let mut section: Vec<char> = Vec::new();
    let mut i: usize = 0;
    proof {
        assert(rows(all@).take(0) =~= Seq::<Seq<char>>::empty());
    }
    while i < all.len()
        invariant
            i <= all@.len(),
            rows(all@) == lines(contents@),
            (section@, settings@) == after_lines((Seq::empty(), old(settings)@), rows(all@).take(i as int)),
        decreases all@.len() - i,
    {
        proof {
            assert(rows(all@).take(i + 1).drop_last() =~= rows(all@).take(i as int));
            assert(rows(all@).take(i + 1).last() == all@[i as int]@);
        }
        let line = trim(&all[i]);
        let n = line.len();
        if n == 0 || line[0] == '#' {
        } else if line[0] == '[' && line[n - 1] == ']' {
            section = strip(&line, '[', ']');
        } else {
            let eq = find_char(&line, '=');
            if eq < n {
                let key = trim(&slice_chars(&line, 0, eq));
                let val = trim(&slice_chars(&line, eq + 1, n));
                proof {
                    assert(line@.subrange(0, eq as int) =~= line@.take(eq as int));
                    assert(line@.subrange(eq + 1, n as int) =~= line@.skip(eq + 1));
                }
                assign(settings, &section, &key, &val);
            }
        }
        i += 1;
    }
    proof {
        assert(rows(all@).take(i as int) =~= rows(all@));
    }
}

/// A copy of the settings that are in force.
pub fn current(settings: &Settings) -> (copy: Settings)
    ensures
        copy@ == settings@,
{
    Settings {
        elf_enabled: settings.elf_enabled,
        elf_max_bytes: settings.elf_max_bytes,
        linux_mode: settings.linux_mode,
        web_enabled: settings.web_enabled,
        language: settings.language.clone(),
        font_scale: settings.font_scale,
        icons_enabled: settings.icons_enabled,
        animations_enabled: settings.animations_enabled,
        loading_animations: settings.loading_animations,
    }
}

} // verus!
