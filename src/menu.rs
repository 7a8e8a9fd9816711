//! Menu text: entry lines with icons, node lines, and reading back the
//! launcher's choice.
use vstd::prelude::*;
use vstd::string::*;
use crate::icons::{DeviceInfo, Icons};
use crate::launcher::{Launcher, LauncherCommand, LauncherError, LauncherType};
use crate::model::Node;
use crate::text::{str_eq, str_trim, trim};

verus! {

pub open spec fn is_ascii_alnum(c: char) -> bool {
    ('0' <= c && c <= '9') || ('a' <= c && c <= 'z') || ('A' <= c && c <= 'Z')
}

/// The position of the first ASCII letter or digit at or after `j` (the
/// length when there is none).
pub open spec fn first_alnum(s: Seq<char>, j: int) -> int
    decreases s.len() - j,
{
    if j < 0 || j >= s.len() {
        s.len() as int
    } else if is_ascii_alnum(s[j]) {
        j
    } else {
        first_alnum(s, j + 1)
    }
}

/// The position of the first NUL at or after `j` (the length when there is
/// none).
pub open spec fn first_nul(s: Seq<char>, j: int) -> int
    decreases s.len() - j,
{
    if j < 0 || j >= s.len() {
        s.len() as int
    } else if s[j] == '\0' {
        j
    } else {
        first_nul(s, j + 1)
    }
}

/// The entry text of a launcher's output line: with font icons, what starts
/// at the first ASCII letter or digit; with XDG icons, what precedes the NUL
/// that starts the icon annotation; trimmed either way.
pub open spec fn spec_clean_output(output: Seq<char>, icon_type: Seq<char>) -> Seq<char> {
    let t = trim(output);
    if icon_type == "font"@ {
        trim(t.subrange(first_alnum(t, 0), t.len() as int))
    } else if icon_type == "xdg"@ {
        trim(t.subrange(0, first_nul(t, 0)))
    } else {
        t
    }
}

pub struct Menu {
    pub launcher_type: LauncherType,
    pub icons: Icons,
}

impl Menu {
    pub fn new(launcher_type: LauncherType, icons: Icons) -> (r: Self)
        ensures
            r.launcher_type == launcher_type,
            r.icons == icons,
    {
        Menu { launcher_type, icons }
    }

    /// The launcher invocation for a menu; the prompt doubles as placeholder.
    pub fn launcher_command(&self, launcher_command: &Option<String>, icon_type: &str, prompt: Option<&str>) -> (r: Result<LauncherCommand, LauncherError>)
        ensures
            self.launcher_type == LauncherType::Custom && launcher_command is None ==> r == Err::<LauncherCommand, LauncherError>(LauncherError::NoCustomCommand),
            !(self.launcher_type == LauncherType::Custom && launcher_command is None) ==> r is Ok,
    {
        Launcher::create_command(&self.launcher_type, launcher_command, icon_type, prompt, prompt)
    }

    pub fn clean_menu_output(&self, output: &str, icon_type: &str) -> (r: String)
        ensures
            r@ == spec_clean_output(output@, icon_type@),
    {
        let t = str_trim(output);
        let n = t.unicode_len();
        if str_eq(icon_type, "font") {
            let mut k: usize = 0;
            while k < n && !is_alnum(t.get_char(k))
                invariant
                    0 <= k <= n,
                    n == t@.len(),
                    first_alnum(t@, 0) == first_alnum(t@, k as int),
                decreases n - k,
            {
                k = k + 1;
            }
            String::from_str(str_trim(t.substring_char(k, n)))
        } else if str_eq(icon_type, "xdg") {
            let mut k: usize = 0;
            while k < n && t.get_char(k) != '\0'
                invariant
                    0 <= k <= n,
                    n == t@.len(),
                    first_nul(t@, 0) == first_nul(t@, k as int),
                decreases n - k,
            {
                k = k + 1;
            }
            String::from_str(str_trim(t.substring_char(0, k)))
        } else {
            String::from_str(t)
        }
    }

    pub fn get_icon_text(&self, items: &Vec<(String, String)>, icon_type: &str, spaces: usize) -> (r: String)
        ensures
            r@ == self.icons.spec_icon_text(items@, icon_type@, spaces as nat, items@.len() as int),
    {
        self.icons.get_icon_text(items, icon_type, spaces)
    }

    pub fn format_display_with_icon(&self, text: &str, icon: &str, icon_type: &str, spaces: usize) -> (r: String)
        ensures
            r@ == if icon_type@ == "xdg"@ {
                text@ + "\0icon\x1f"@ + icon@
            } else if icon_type@ == "font"@ || icon_type@ == "generic"@ {
                icon@ + crate::icons::blanks(spaces as nat) + text@
            } else {
                text@
            },
    {
        self.icons.format_display_with_icon(text, icon, icon_type, spaces)
    }

    /// A node's menu line: its description (or name), the owning application
    /// in parentheses, the volume percentage in brackets, the default mark,
    /// and the device icon.
    pub fn format_node_display(&self, node: &Node, device_info: &DeviceInfo, icon_type: &str, spaces: usize) -> (r: String)
        ensures
            ({
                let base = match node.description {
                    Some(d) => d@,
                    None => node.name@,
                };
                let with_app = match node.application_name {
                    Some(a) => base + " ("@ + a@ + ")"@,
                    None => base,
                };
                let with_volume = with_app + " ["@ + crate::text::decimal(crate::model::spec_percent(node.volume.linear) as nat) + "%]"@;
                let shown = if node.is_default {
                    with_volume + " "@ + self.icons.spec_get_icon("default"@, "generic"@)
                } else {
                    with_volume
                };
                let icon = self.icons.spec_get_icon(Icons::spec_device_icon_key(*device_info), icon_type@);
                r@ == if icon_type@ == "xdg"@ {
                    shown + "\0icon\x1f"@ + icon
                } else if icon_type@ == "font"@ || icon_type@ == "generic"@ {
                    icon + crate::icons::blanks(spaces as nat) + shown
                } else {
                    shown
                }
            }),
    {
        let mut display = match &node.description {
            Some(d) => d.clone(),
            None => node.name.clone(),
        };
        if let Some(app) = &node.application_name {
            display.append(" (");
            display.append(app.as_str());
            display.append(")");
        }
        display.append(" [");
        let percent = node.volume.percent();
        display.append(crate::text::u32_to_decimal(percent as u32).as_str());
        display.append("%]");
        if node.is_default {
            display.append(" ");
            display.append(self.icons.get_icon("default", "generic").as_str());
        }
        let icon = self.icons.get_device_icon(device_info, icon_type);
        self.format_display_with_icon(display.as_str(), icon.as_str(), icon_type, spaces)
    }
}

fn is_alnum(c: char) -> (r: bool)
    ensures
        r == is_ascii_alnum(c),
{
    ('0' <= c && c <= '9') || ('a' <= c && c <= 'z') || ('A' <= c && c <= 'Z')
}

} // verus!
