use crate::settings::{Settings, SettingsView};
use crate::text::{decimal, push_decimal};
use vstd::prelude::*;
use vstd::string::StringExecFns;

verus! {

/// `a` where the switch is on, else `b`.
pub open spec fn pick(on: bool, a: Seq<char>, b: Seq<char>) -> Seq<char> {
    if on {
        a
    } else {
        b
    }
}

/// The text of the settings window: one line for each setting.
pub open spec fn settings_text(s: SettingsView) -> Seq<char> {
    "System Settings\n\n"@ + "ELF inspector: "@ + pick(s.elf_enabled, "enabled"@, "disabled"@) + "\n"@ + "ELF max bytes: "@
        + decimal(s.elf_max_bytes as nat) + "\n"@ + "Linux mode: "@ + pick(s.linux_mode, "on"@, "off"@) + "\n"@ + "Web viewer: "@
        + pick(s.web_enabled, "on"@, "off"@) + "\n"@ + "\nUI\n"@ + "Language: "@ + s.language + "\n"@ + "Font scale: "@ + decimal(
        s.font_scale as nat,
    ) + "\n"@ + "Icons: "@ + pick(s.icons_enabled, "on"@, "off"@) + "\n"@ + "Animations: "@ + pick(
        s.animations_enabled,
        "on"@,
        "off"@,
    ) + "\n"@ + "Loading animations: "@ + pick(s.loading_animations, "on"@, "off"@) + "\n"@
}

/// Appends `a` where the switch is on, else `b`.
fn push_pick(s: &mut String, on: bool, a: &str, b: &str)
    ensures
        final(s)@ == old(s)@ + pick(on, a@, b@),
{
    if on {
        s.append(a);
    } else {
        s.append(b);
    }
}

/// The text of the settings window.
pub fn view(settings: &Settings) -> (text: String)
    ensures
        text@ == settings_text(settings@),
{
    let mut s = String::from_str("System Settings\n\n");
    s.append("ELF inspector: ");
    push_pick(&mut s, settings.elf_enabled, "enabled", "disabled");
    s.append("\n");
    s.append("ELF max bytes: ");
    push_decimal(&mut s, settings.elf_max_bytes as u64);
    s.append("\n");
    s.append("Linux mode: ");
    push_pick(&mut s, settings.linux_mode, "on", "off");
    s.append("\n");
    s.append("Web viewer: ");
    push_pick(&mut s, settings.web_enabled, "on", "off");
    s.append("\n");
    s.append("\nUI\n");
    s.append("Language: ");
    s.append(settings.language.as_str());
    s.append("\n");
    s.append("Font scale: ");
    push_decimal(&mut s, settings.font_scale as u64);
    s.append("\n");
    s.append("Icons: ");
    push_pick(&mut s, settings.icons_enabled, "on", "off");
    s.append("\n");
    s.append("Animations: ");
    push_pick(&mut s, settings.animations_enabled, "on", "off");
    s.append("\n");
    s.append("Loading animations: ");
    push_pick(&mut s, settings.loading_animations, "on", "off");
    s.append("\n");
    s
}

} // verus!
