//! Icon names and glyphs for the menu entries, and the text lines that carry
//! them.
use vstd::prelude::*;
use vstd::string::*;
use crate::model::NodeType;
use crate::text::{contains_seq, str_contains, str_eq, str_trim, trim};

verus! {

/// Relies on `char`'s `to_string`: the string that holds just that character.
#[verifier::external_body]
fn char_text(c: char) -> (r: String)
    ensures
        r@ == seq![c],
{
    c.to_string()
}

fn text(s: &str) -> (r: String)
    ensures
        r@ == s@,
{
    String::from_str(s)
}

/// `n` spaces.
pub open spec fn blanks(n: nat) -> Seq<char>
    decreases n,
{
    if n == 0 {
        Seq::empty()
    } else {
        blanks((n - 1) as nat).push(' ')
    }
}

fn spaces_text(n: usize) -> (r: String)
    ensures
        r@ == blanks(n as nat),
{
    let mut s = String::new();
    let mut i: usize = 0;
    while i < n
        invariant
            0 <= i <= n,
            s@ == blanks(i as nat),
        decreases n - i,
    {
        s.append(" ");
        proof {
            reveal_strlit(" ");
            assert(s@ =~= blanks((i + 1) as nat));
        }
        i = i + 1;
    }
    s
}

/// The position of the first comma at or after `j`, if any.
pub open spec fn first_comma(s: Seq<char>, j: int) -> Option<int>
    decreases s.len() - j,
{
    if j < 0 || j >= s.len() {
        None
    } else if s[j] == ',' {
        Some(j)
    } else {
        first_comma(s, j + 1)
    }
}

/// The text before the first comma (all of it when there is none).
pub open spec fn first_item(s: Seq<char>) -> Seq<char> {
    match first_comma(s, 0) {
        Some(k) => s.subrange(0, k),
        None => s,
    }
}

/// An XDG icon: the single name to use alone, and the comma-separated list of
/// names to try in turn.
#[derive(Debug)]
pub struct IconDefinition {
    pub single: String,
    pub list: String,
}

impl IconDefinition {
    pub fn simple(icon: &str) -> (r: Self)
        ensures
            r.single@ == icon@,
            r.list@ == icon@,
    {
        IconDefinition { single: text(icon), list: text(icon) }
    }

    /// With no single name given, the first of the list (trimmed) is used.
    pub fn with_fallbacks(single: Option<&str>, list: &str) -> (r: Self)
        ensures
            r.list@ == list@,
            r.single@ == match single {
                Some(s) => s@,
                None => trim(first_item(list@)),
            },
    {
        let single_icon = match single {
            Some(icon) => text(icon),
            None => {
                let n = list.unicode_len();
                let mut k: usize = 0;
                while k < n && list.get_char(k) != ','
                    invariant
                        0 <= k <= n,
                        n == list@.len(),
                        first_comma(list@, 0) == first_comma(list@, k as int),
                    decreases n - k,
                {
                    k = k + 1;
                }
                proof {
                    if k == n {
                        assert(list@.subrange(0, n as int) =~= list@);
                    }
                }
                text(str_trim(list.substring_char(0, k)))
            },
        };
        IconDefinition { single: single_icon, list: text(list) }
    }
}

/// What is known of a node's device for choosing its icon.
#[derive(Debug)]
pub struct DeviceInfo {
    pub nick: Option<String>,
    pub form_factor: Option<String>,
    pub bus: Option<String>,
    pub media_class: Option<String>,
    pub is_muted: bool,
    pub node_type: NodeType,
}

/// The first entry at or after `j` with the key.
pub open spec fn first_key<T>(v: Seq<(String, T)>, key: Seq<char>, j: int) -> Option<int>
    decreases v.len() - j,
{
    if j < 0 || j >= v.len() {
        None
    } else if v[j].0@ == key {
        Some(j)
    } else {
        first_key(v, key, j + 1)
    }
}

pub open spec fn glyph(v: Seq<(String, String)>, key: Seq<char>) -> Seq<char> {
    match first_key(v, key, 0) {
        Some(j) => v[j].1@,
        None => Seq::empty(),
    }
}

/// The (key, glyph) entries of a glyph table, as text.
pub open spec fn glyph_entries(v: Seq<(String, String)>) -> Seq<(Seq<char>, Seq<char>)> {
    v.map_values(|e: (String, String)| (e.0@, e.1@))
}

/// The (key, name list) entries of the XDG table, as text.
pub open spec fn xdg_entries(v: Seq<(String, IconDefinition)>) -> Seq<(Seq<char>, Seq<char>)> {
    v.map_values(|e: (String, IconDefinition)| (e.0@, e.1.list@))
}

/// The generic glyphs.
pub open spec fn generic_table() -> Seq<(Seq<char>, Seq<char>)> {
    seq![
        ("default"@, "\u{23FA}"@)
    ]
}

/// The font glyphs.
pub open spec fn font_table() -> Seq<(Seq<char>, Seq<char>)> {
    seq![
        ("output"@, "\u{f1120}"@),
        ("input"@, "\u{f036c}"@),
        ("output_streams"@, "\u{f040a}"@),
        ("input_streams"@, "\u{f044a}"@),
        ("stream"@, "\u{f0384}"@),
        ("settings"@, "\u{f08bb}"@),
        ("virtual"@, "\u{f0471}"@),
        ("monitor"@, "\u{f1dd}"@),
        ("refresh"@, "\u{f0450}"@),
        ("set_default"@, "\u{f05e0}"@),
        ("switch_profile"@, "\u{f0ea2}"@),
        ("profile"@, "\u{f0384}"@),
        ("set_sample_rate"@, "\u{f147d}"@),
        ("sample_rate"@, "\u{f0384}"@),
        ("output_volume"@, "\u{f057e}"@),
        ("output_volume_up"@, "\u{f075d}"@),
        ("output_volume_down"@, "\u{f075e}"@),
        ("output_mute"@, "\u{f0e08}"@),
        ("output_unmute"@, "\u{f057e}"@),
        ("output_volume_low"@, "\u{f057f}"@),
        ("output_volume_medium"@, "\u{f0580}"@),
        ("output_volume_high"@, "\u{f057e}"@),
        ("input_volume"@, "\u{f057e}"@),
        ("input_volume_up"@, "\u{f08b4}"@),
        ("input_volume_down"@, "\u{f08b3}"@),
        ("input_mute"@, "\u{f036d}"@),
        ("input_unmute"@, "\u{f036c}"@),
        ("input_volume_low"@, "\u{f057f}"@),
        ("input_volume_medium"@, "\u{f0580}"@),
        ("input_volume_high"@, "\u{f057e}"@),
        ("output_volume_overamplified"@, "\u{f1120}"@),
        ("input_volume_overamplified"@, "\u{f1120}"@),
        ("analog"@, "\u{f1543}"@),
        ("digital"@, "\u{f0697}"@),
        ("soundbar"@, "\u{f17db}"@),
        ("interface"@, "\u{f186c}"@),
        ("loopback"@, "\u{f0456}"@),
        ("internal"@, "\u{f1543}"@),
        ("speaker"@, "\u{f04c3}"@),
        ("handset"@, "\u{f03f2}"@),
        ("tv"@, "\u{f0502}"@),
        ("webcam"@, "\u{f05a0}"@),
        ("microphone"@, "\u{f036c}"@),
        ("headset"@, "\u{f02ce}"@),
        ("headphone"@, "\u{f02cb}"@),
        ("hands-free"@, "\u{f02ce}"@),
        ("car"@, "\u{f010b}"@),
        ("hifi"@, "\u{f0030}"@),
        ("computer"@, "\u{f0379}"@),
        ("portable"@, "\u{f011c}"@),
        ("pci"@, "\u{f1543}"@),
        ("usb"@, "\u{f11f0}"@),
        ("display_audio"@, "\u{f0841}"@),
        ("bluetooth"@, "\u{f00af}"@)
    ]
}

/// The XDG icon names, each a comma-separated list to try in turn.
pub open spec fn xdg_table() -> Seq<(Seq<char>, Seq<char>)> {
    seq![
        ("output"@, "audio-speakers-symbolic"@),
        ("input"@, "audio-input-microphone-symbolic"@),
        ("output_streams"@, "media-playback-start-symbolic"@),
        ("input_streams"@, "media-record-symbolic"@),
        ("stream"@, "applications-multimedia-symbolic"@),
        ("settings"@, "preferences-system-symbolic"@),
        ("virtual"@, "applications-multimedia-symbolic"@),
        ("monitor"@, "video-display-symbolic,monitor-symbolic"@),
        ("refresh"@, "view-refresh-symbolic"@),
        ("set_default"@, "emblem-default-symbolic,starred-symbolic,star-symbolic"@),
        ("switch_profile"@, "multimedia-equalizer-symbolic"@),
        ("profile"@, "audio-x-generic-symbolic"@),
        ("set_sample_rate"@, "filename-sample-rate-symbolic,view-media-visualization-symbolic,audio-x-generic-symbolic"@),
        ("sample_rate"@, "audio-x-generic-symbolic"@),
        ("output_volume"@, "audio-volume-high-symbolic"@),
        ("output_volume_up"@, "value-increase-symbolic,list-add-symbolic"@),
        ("output_volume_down"@, "value-decrease-symbolic,list-remove-symbolic"@),
        ("output_mute"@, "audio-volume-muted-symbolic"@),
        ("output_unmute"@, "audio-speakers-symbolic"@),
        ("output_volume_low"@, "audio-volume-low-symbolic"@),
        ("output_volume_medium"@, "audio-volume-medium-symbolic"@),
        ("output_volume_high"@, "audio-volume-high-symbolic"@),
        ("input_volume"@, "microphone-sensitivity-high-symbolic"@),
        ("input_volume_up"@, "value-increase-symbolic,list-add-symbolic,add-symbolic"@),
        ("input_volume_down"@, "value-decrease-symbolic,list-remove-symbolic,remove-symbolic"@),
        ("input_mute"@, "microphone-sensitivity-muted-symbolic"@),
        ("input_unmute"@, "audio-input-microphone-symbolic"@),
        ("input_volume_low"@, "microphone-sensitivity-low-symbolic"@),
        ("input_volume_medium"@, "microphone-sensitivity-medium-symbolic"@),
        ("input_volume_high"@, "microphone-sensitivity-high-symbolic"@),
        ("output_volume_overamplified"@, "audio-volume-overamplified-symbolic"@),
        ("input_volume_overamplified"@, "microphone-sensitivity-high-symbolic"@),
        ("analog"@, "audio-card-symbolic"@),
        ("digital"@, "computer-symbolic"@),
        ("soundbar"@, "audio-speakers-symbolic"@),
        ("interface"@, "audio-card-symbolic"@),
        ("loopback"@, "media-playlist-repeat-symbolic,media-repeat-symbolic"@),
        ("internal"@, "audio-card-symbolic"@),
        ("speaker"@, "audio-speakers-symbolic"@),
        ("handset"@, "phone-symbolic"@),
        ("tv"@, "video-display-symbolic"@),
        ("webcam"@, "camera-web-symbolic"@),
        ("microphone"@, "audio-input-microphone-symbolic"@),
        ("headset"@, "audio-headset-symbolic"@),
        ("headphone"@, "audio-headphones-symbolic"@),
        ("hands-free"@, "audio-headset-symbolic"@),
        ("car"@, "bluetooth-symbolic,network-bluetooth-symbolic,bluetooth-active-symbolic"@),
        ("hifi"@, "audio-speakers-symbolic"@),
        ("computer"@, "computer-symbolic"@),
        ("portable"@, "smartphone-symbolic"@),
        ("pci"@, "audio-card-symbolic"@),
        ("usb"@, "media-removable-symbolic,drive-removable-media-usb-symbolic"@),
        ("display_audio"@, "video-display-symbolic,monitor-symbolic,display-symbolic"@),
        ("bluetooth"@, "bluetooth-symbolic,network-bluetooth-symbolic,bluetooth-active-symbolic"@)
    ]
}

/// The (key, single name) entries of the XDG table, as text.
pub open spec fn xdg_singles(v: Seq<(String, IconDefinition)>) -> Seq<(Seq<char>, Seq<char>)> {
    v.map_values(|e: (String, IconDefinition)| (e.0@, e.1.single@))
}

/// The single XDG name of each key: the name itself, or the first of its
/// list.
pub open spec fn xdg_single_table() -> Seq<(Seq<char>, Seq<char>)> {
    seq![
        ("output"@, "audio-speakers-symbolic"@),
        ("input"@, "audio-input-microphone-symbolic"@),
        ("output_streams"@, "media-playback-start-symbolic"@),
        ("input_streams"@, "media-record-symbolic"@),
        ("stream"@, "applications-multimedia-symbolic"@),
        ("settings"@, "preferences-system-symbolic"@),
        ("virtual"@, "applications-multimedia-symbolic"@),
        ("monitor"@, trim(first_item("video-display-symbolic,monitor-symbolic"@))),
        ("refresh"@, "view-refresh-symbolic"@),
        ("set_default"@, trim(first_item("emblem-default-symbolic,starred-symbolic,star-symbolic"@))),
        ("switch_profile"@, "multimedia-equalizer-symbolic"@),
        ("profile"@, "audio-x-generic-symbolic"@),
        ("set_sample_rate"@, trim(first_item("filename-sample-rate-symbolic,view-media-visualization-symbolic,audio-x-generic-symbolic"@))),
        ("sample_rate"@, "audio-x-generic-symbolic"@),
        ("output_volume"@, "audio-volume-high-symbolic"@),
        ("output_volume_up"@, trim(first_item("value-increase-symbolic,list-add-symbolic"@))),
        ("output_volume_down"@, trim(first_item("value-decrease-symbolic,list-remove-symbolic"@))),
        ("output_mute"@, "audio-volume-muted-symbolic"@),
        ("output_unmute"@, "audio-speakers-symbolic"@),
        ("output_volume_low"@, "audio-volume-low-symbolic"@),
        ("output_volume_medium"@, "audio-volume-medium-symbolic"@),
        ("output_volume_high"@, "audio-volume-high-symbolic"@),
        ("input_volume"@, "microphone-sensitivity-high-symbolic"@),
        ("input_volume_up"@, trim(first_item("value-increase-symbolic,list-add-symbolic,add-symbolic"@))),
        ("input_volume_down"@, trim(first_item("value-decrease-symbolic,list-remove-symbolic,remove-symbolic"@))),
        ("input_mute"@, "microphone-sensitivity-muted-symbolic"@),
        ("input_unmute"@, "audio-input-microphone-symbolic"@),
        ("input_volume_low"@, "microphone-sensitivity-low-symbolic"@),
        ("input_volume_medium"@, "microphone-sensitivity-medium-symbolic"@),
        ("input_volume_high"@, "microphone-sensitivity-high-symbolic"@),
        ("output_volume_overamplified"@, "audio-volume-overamplified-symbolic"@),
        ("input_volume_overamplified"@, "microphone-sensitivity-high-symbolic"@),
        ("analog"@, "audio-card-symbolic"@),
        ("digital"@, "computer-symbolic"@),
        ("soundbar"@, "audio-speakers-symbolic"@),
        ("interface"@, "audio-card-symbolic"@),
        ("loopback"@, trim(first_item("media-playlist-repeat-symbolic,media-repeat-symbolic"@))),
        ("internal"@, "audio-card-symbolic"@),
        ("speaker"@, "audio-speakers-symbolic"@),
        ("handset"@, "phone-symbolic"@),
        ("tv"@, "video-display-symbolic"@),
        ("webcam"@, "camera-web-symbolic"@),
        ("microphone"@, "audio-input-microphone-symbolic"@),
        ("headset"@, "audio-headset-symbolic"@),
        ("headphone"@, "audio-headphones-symbolic"@),
        ("hands-free"@, "audio-headset-symbolic"@),
        ("car"@, trim(first_item("bluetooth-symbolic,network-bluetooth-symbolic,bluetooth-active-symbolic"@))),
        ("hifi"@, "audio-speakers-symbolic"@),
        ("computer"@, "computer-symbolic"@),
        ("portable"@, "smartphone-symbolic"@),
        ("pci"@, "audio-card-symbolic"@),
        ("usb"@, trim(first_item("media-removable-symbolic,drive-removable-media-usb-symbolic"@))),
        ("display_audio"@, trim(first_item("video-display-symbolic,monitor-symbolic,display-symbolic"@))),
        ("bluetooth"@, trim(first_item("bluetooth-symbolic,network-bluetooth-symbolic,bluetooth-active-symbolic"@)))
    ]
}

pub struct Icons {
    pub generic_icons: Vec<(String, String)>,
    pub font_icons: Vec<(String, String)>,
    pub xdg_icons: Vec<(String, IconDefinition)>,
}

fn find_key<T>(v: &Vec<(String, T)>, key: &str) -> (r: Option<usize>)
    ensures
        match r {
            Some(j) => first_key(v@, key@, 0) == Some(j as int) && j < v@.len(),
            None => first_key(v@, key@, 0) is None,
        },
{
    let mut i: usize = 0;
    while i < v.len()
        invariant
            0 <= i <= v@.len(),
            first_key(v@, key@, 0) == first_key(v@, key@, i as int),
        decreases v@.len() - i,
    {
        if str_eq(v[i].0.as_str(), key) {
            return Some(i);
        }
        i = i + 1;
    }
    None
}

/// The line of a menu entry: font glyph, spaces, text; or the text with the
/// XDG icon attached; or the text alone.
pub open spec fn entry_line(icon: Seq<char>, text: Seq<char>, icon_type: Seq<char>, n: nat) -> Seq<char> {
    if icon_type == "font"@ {
        icon + blanks(n) + text
    } else if icon_type == "xdg"@ {
        text + "\0icon\x1f"@ + icon
    } else {
        text
    }
}

impl Icons {
    /// The icon of `key` in the given kind: a font glyph, the XDG name list,
    /// or a generic glyph; empty when the key or the kind is unknown.
    pub open spec fn spec_get_icon(&self, key: Seq<char>, icon_type: Seq<char>) -> Seq<char> {
        if icon_type == "font"@ {
            glyph(self.font_icons@, key)
        } else if icon_type == "xdg"@ {
            match first_key(self.xdg_icons@, key, 0) {
                Some(j) => self.xdg_icons@[j].1.list@,
                None => Seq::empty(),
            }
        } else if icon_type == "generic"@ {
            glyph(self.generic_icons@, key)
        } else {
            Seq::empty()
        }
    }

    /// The lines for the first `k` entries, joined by newlines.
    pub open spec fn spec_icon_text(&self, items: Seq<(String, String)>, icon_type: Seq<char>, n: nat, k: int) -> Seq<char>
        decreases k,
    {
        if k <= 0 {
            Seq::empty()
        } else {
            let line = entry_line(self.spec_get_icon(items[k - 1].0@, icon_type), items[k - 1].1@, icon_type, n);
            if k == 1 {
                line
            } else {
                self.spec_icon_text(items, icon_type, n, k - 1) + "\n"@ + line
            }
        }
    }

    pub fn new() -> (r: Self)
        ensures
            glyph_entries(r.generic_icons@) == generic_table(),
            glyph_entries(r.font_icons@) == font_table(),
            xdg_entries(r.xdg_icons@) == xdg_table(),
            xdg_singles(r.xdg_icons@) == xdg_single_table(),
    {
        let mut generic_icons: Vec<(String, String)> = Vec::new();
        let mut font_icons: Vec<(String, String)> = Vec::new();
        let mut xdg_icons: Vec<(String, IconDefinition)> = Vec::new();
        generic_icons.push((text("default"), text("\u{23FA}")));
        font_icons.push((text("output"), text("\u{f1120}")));
        font_icons.push((text("input"), text("\u{f036c}")));
        font_icons.push((text("output_streams"), text("\u{f040a}")));
        font_icons.push((text("input_streams"), text("\u{f044a}")));
        font_icons.push((text("stream"), text("\u{f0384}")));
        font_icons.push((text("settings"), text("\u{f08bb}")));
        font_icons.push((text("virtual"), text("\u{f0471}")));
        font_icons.push((text("monitor"), text("\u{f1dd}")));
        font_icons.push((text("refresh"), text("\u{f0450}")));
        font_icons.push((text("set_default"), text("\u{f05e0}")));
        font_icons.push((text("switch_profile"), text("\u{f0ea2}")));
        font_icons.push((text("profile"), text("\u{f0384}")));
        font_icons.push((text("set_sample_rate"), text("\u{f147d}")));
        font_icons.push((text("sample_rate"), text("\u{f0384}")));
        font_icons.push((text("output_volume"), text("\u{f057e}")));
        font_icons.push((text("output_volume_up"), text("\u{f075d}")));
        font_icons.push((text("output_volume_down"), text("\u{f075e}")));
        font_icons.push((text("output_mute"), text("\u{f0e08}")));
        font_icons.push((text("output_unmute"), text("\u{f057e}")));
        font_icons.push((text("output_volume_low"), text("\u{f057f}")));
        font_icons.push((text("output_volume_medium"), text("\u{f0580}")));
        font_icons.push((text("output_volume_high"), text("\u{f057e}")));
        font_icons.push((text("input_volume"), text("\u{f057e}")));
        font_icons.push((text("input_volume_up"), text("\u{f08b4}")));
        font_icons.push((text("input_volume_down"), text("\u{f08b3}")));
        font_icons.push((text("input_mute"), text("\u{f036d}")));
        font_icons.push((text("input_unmute"), text("\u{f036c}")));
        font_icons.push((text("input_volume_low"), text("\u{f057f}")));
        font_icons.push((text("input_volume_medium"), text("\u{f0580}")));
        font_icons.push((text("input_volume_high"), text("\u{f057e}")));
        font_icons.push((text("output_volume_overamplified"), text("\u{f1120}")));
        font_icons.push((text("input_volume_overamplified"), text("\u{f1120}")));
        font_icons.push((text("analog"), text("\u{f1543}")));
        font_icons.push((text("digital"), text("\u{f0697}")));
        font_icons.push((text("soundbar"), text("\u{f17db}")));
        font_icons.push((text("interface"), text("\u{f186c}")));
        font_icons.push((text("loopback"), text("\u{f0456}")));
        font_icons.push((text("internal"), text("\u{f1543}")));
        font_icons.push((text("speaker"), text("\u{f04c3}")));
        font_icons.push((text("handset"), text("\u{f03f2}")));
        font_icons.push((text("tv"), text("\u{f0502}")));
        font_icons.push((text("webcam"), text("\u{f05a0}")));
        font_icons.push((text("microphone"), text("\u{f036c}")));
        font_icons.push((text("headset"), text("\u{f02ce}")));
        font_icons.push((text("headphone"), text("\u{f02cb}")));
        font_icons.push((text("hands-free"), text("\u{f02ce}")));
        font_icons.push((text("car"), text("\u{f010b}")));
        font_icons.push((text("hifi"), text("\u{f0030}")));
        font_icons.push((text("computer"), text("\u{f0379}")));
        font_icons.push((text("portable"), text("\u{f011c}")));
        font_icons.push((text("pci"), text("\u{f1543}")));
        font_icons.push((text("usb"), text("\u{f11f0}")));
        font_icons.push((text("display_audio"), text("\u{f0841}")));
        font_icons.push((text("bluetooth"), text("\u{f00af}")));
        xdg_icons.push((text("output"), IconDefinition::simple("audio-speakers-symbolic")));
        xdg_icons.push((text("input"), IconDefinition::simple("audio-input-microphone-symbolic")));
        xdg_icons.push((text("output_streams"), IconDefinition::simple("media-playback-start-symbolic")));
        xdg_icons.push((text("input_streams"), IconDefinition::simple("media-record-symbolic")));
        xdg_icons.push((text("stream"), IconDefinition::simple("applications-multimedia-symbolic")));
        xdg_icons.push((text("settings"), IconDefinition::simple("preferences-system-symbolic")));
        xdg_icons.push((text("virtual"), IconDefinition::simple("applications-multimedia-symbolic")));
        xdg_icons.push((text("monitor"), IconDefinition::with_fallbacks(None, "video-display-symbolic,monitor-symbolic")));
        xdg_icons.push((text("refresh"), IconDefinition::simple("view-refresh-symbolic")));
        xdg_icons.push((text("set_default"), IconDefinition::with_fallbacks(None, "emblem-default-symbolic,starred-symbolic,star-symbolic")));
        xdg_icons.push((text("switch_profile"), IconDefinition::simple("multimedia-equalizer-symbolic")));
        xdg_icons.push((text("profile"), IconDefinition::simple("audio-x-generic-symbolic")));
        xdg_icons.push((text("set_sample_rate"), IconDefinition::with_fallbacks(None, "filename-sample-rate-symbolic,view-media-visualization-symbolic,audio-x-generic-symbolic")));
        xdg_icons.push((text("sample_rate"), IconDefinition::simple("audio-x-generic-symbolic")));
        xdg_icons.push((text("output_volume"), IconDefinition::simple("audio-volume-high-symbolic")));
        xdg_icons.push((text("output_volume_up"), IconDefinition::with_fallbacks(None, "value-increase-symbolic,list-add-symbolic")));
        xdg_icons.push((text("output_volume_down"), IconDefinition::with_fallbacks(None, "value-decrease-symbolic,list-remove-symbolic")));
        xdg_icons.push((text("output_mute"), IconDefinition::simple("audio-volume-muted-symbolic")));
        xdg_icons.push((text("output_unmute"), IconDefinition::simple("audio-speakers-symbolic")));
        xdg_icons.push((text("output_volume_low"), IconDefinition::simple("audio-volume-low-symbolic")));
        xdg_icons.push((text("output_volume_medium"), IconDefinition::simple("audio-volume-medium-symbolic")));
        xdg_icons.push((text("output_volume_high"), IconDefinition::simple("audio-volume-high-symbolic")));
        xdg_icons.push((text("input_volume"), IconDefinition::simple("microphone-sensitivity-high-symbolic")));
        xdg_icons.push((text("input_volume_up"), IconDefinition::with_fallbacks(None, "value-increase-symbolic,list-add-symbolic,add-symbolic")));
        xdg_icons.push((text("input_volume_down"), IconDefinition::with_fallbacks(None, "value-decrease-symbolic,list-remove-symbolic,remove-symbolic")));
        xdg_icons.push((text("input_mute"), IconDefinition::simple("microphone-sensitivity-muted-symbolic")));
        xdg_icons.push((text("input_unmute"), IconDefinition::simple("audio-input-microphone-symbolic")));
        xdg_icons.push((text("input_volume_low"), IconDefinition::simple("microphone-sensitivity-low-symbolic")));
        xdg_icons.push((text("input_volume_medium"), IconDefinition::simple("microphone-sensitivity-medium-symbolic")));
        xdg_icons.push((text("input_volume_high"), IconDefinition::simple("microphone-sensitivity-high-symbolic")));
        xdg_icons.push((text("output_volume_overamplified"), IconDefinition::simple("audio-volume-overamplified-symbolic")));
        xdg_icons.push((text("input_volume_overamplified"), IconDefinition::simple("microphone-sensitivity-high-symbolic")));
        xdg_icons.push((text("analog"), IconDefinition::simple("audio-card-symbolic")));
        xdg_icons.push((text("digital"), IconDefinition::simple("computer-symbolic")));
        xdg_icons.push((text("soundbar"), IconDefinition::simple("audio-speakers-symbolic")));
        xdg_icons.push((text("interface"), IconDefinition::simple("audio-card-symbolic")));
        xdg_icons.push((text("loopback"), IconDefinition::with_fallbacks(None, "media-playlist-repeat-symbolic,media-repeat-symbolic")));
        xdg_icons.push((text("internal"), IconDefinition::simple("audio-card-symbolic")));
        xdg_icons.push((text("speaker"), IconDefinition::simple("audio-speakers-symbolic")));
        xdg_icons.push((text("handset"), IconDefinition::simple("phone-symbolic")));
        xdg_icons.push((text("tv"), IconDefinition::simple("video-display-symbolic")));
        xdg_icons.push((text("webcam"), IconDefinition::simple("camera-web-symbolic")));
        xdg_icons.push((text("microphone"), IconDefinition::simple("audio-input-microphone-symbolic")));
        xdg_icons.push((text("headset"), IconDefinition::simple("audio-headset-symbolic")));
        xdg_icons.push((text("headphone"), IconDefinition::simple("audio-headphones-symbolic")));
        xdg_icons.push((text("hands-free"), IconDefinition::simple("audio-headset-symbolic")));
        xdg_icons.push((text("car"), IconDefinition::with_fallbacks(None, "bluetooth-symbolic,network-bluetooth-symbolic,bluetooth-active-symbolic")));
        xdg_icons.push((text("hifi"), IconDefinition::simple("audio-speakers-symbolic")));
        xdg_icons.push((text("computer"), IconDefinition::simple("computer-symbolic")));
        xdg_icons.push((text("portable"), IconDefinition::simple("smartphone-symbolic")));
        xdg_icons.push((text("pci"), IconDefinition::simple("audio-card-symbolic")));
        xdg_icons.push((text("usb"), IconDefinition::with_fallbacks(None, "media-removable-symbolic,drive-removable-media-usb-symbolic")));
        xdg_icons.push((text("display_audio"), IconDefinition::with_fallbacks(None, "video-display-symbolic,monitor-symbolic,display-symbolic")));
        xdg_icons.push((text("bluetooth"), IconDefinition::with_fallbacks(None, "bluetooth-symbolic,network-bluetooth-symbolic,bluetooth-active-symbolic")));
        proof {
            assert(glyph_entries(generic_icons@) =~= generic_table());
            assert(glyph_entries(font_icons@) =~= font_table());
            assert(xdg_entries(xdg_icons@) =~= xdg_table());
            assert(xdg_singles(xdg_icons@) =~= xdg_single_table());
        }
        Icons { generic_icons, font_icons, xdg_icons }
    }

    pub fn get_icon(&self, key: &str, icon_type: &str) -> (r: String)
        ensures
            r@ == self.spec_get_icon(key@, icon_type@),
    {
        if str_eq(icon_type, "font") {
            match find_key(&self.font_icons, key) {
                Some(j) => self.font_icons[j].1.clone(),
                None => String::new(),
            }
        } else if str_eq(icon_type, "xdg") {
            match find_key(&self.xdg_icons, key) {
                Some(j) => self.xdg_icons[j].1.list.clone(),
                None => String::new(),
            }
        } else if str_eq(icon_type, "generic") {
            match find_key(&self.generic_icons, key) {
                Some(j) => self.generic_icons[j].1.clone(),
                None => String::new(),
            }
        } else {
            String::new()
        }
    }

    /// The single XDG name of `key`, empty when unknown.
    pub fn get_xdg_icon(&self, key: &str) -> (r: String)
        ensures
            r@ == match first_key(self.xdg_icons@, key@, 0) {
                Some(j) => self.xdg_icons@[j].1.single@,
                None => Seq::empty(),
            },
    {
        match find_key(&self.xdg_icons, key) {
            Some(j) => self.xdg_icons[j].1.single.clone(),
            None => String::new(),
        }
    }

    fn line(&self, key: &str, entry: &str, icon_type: &str, spaces: usize) -> (r: String)
        ensures
            r@ == entry_line(self.spec_get_icon(key@, icon_type@), entry@, icon_type@, spaces as nat),
    {
        let icon = self.get_icon(key, icon_type);
        if str_eq(icon_type, "font") {
            let mut s = icon;
            s.append(spaces_text(spaces).as_str());
            s.append(entry);
            s
        } else if str_eq(icon_type, "xdg") {
            let mut s = text(entry);
            s.append("\0icon\x1f");
            s.append(icon.as_str());
            s
        } else {
            text(entry)
        }
    }

    /// One line per (icon key, text) entry, joined by newlines.
    pub fn get_icon_text(&self, items: &Vec<(String, String)>, icon_type: &str, spaces: usize) -> (r: String)
        ensures
            r@ == self.spec_icon_text(items@, icon_type@, spaces as nat, items@.len() as int),
    {
        let mut out = String::new();
        let mut k: usize = 0;
        while k < items.len()
            invariant
                0 <= k <= items@.len(),
                out@ == self.spec_icon_text(items@, icon_type@, spaces as nat, k as int),
            decreases items@.len() - k,
        {
            let line = self.line(items[k].0.as_str(), items[k].1.as_str(), icon_type, spaces);
            if k > 0 {
                out.append("\n");
            }
            out.append(line.as_str());
            k = k + 1;
        }
        out
    }

    /// The glyph with the spaces before or after it.
    pub fn format_with_spacing(icon: char, spaces: usize, before: bool) -> (r: String)
        ensures
            r@ == if before {
                blanks(spaces as nat).push(icon)
            } else {
                seq![icon] + blanks(spaces as nat)
            },
    {
        if before {
            let mut s = spaces_text(spaces);
            s.append(char_text(icon).as_str());
            s
        } else {
            let mut s = char_text(icon);
            s.append(spaces_text(spaces).as_str());
            s
        }
    }

    /// A name with its icon: the XDG icon attached, or a glyph and spaces in
    /// front, or the name alone.
    pub fn format_display_with_icon(&self, name: &str, icon: &str, icon_type: &str, spaces: usize) -> (r: String)
        ensures
            r@ == if icon_type@ == "xdg"@ {
                name@ + "\0icon\x1f"@ + icon@
            } else if icon_type@ == "font"@ || icon_type@ == "generic"@ {
                icon@ + blanks(spaces as nat) + name@
            } else {
                name@
            },
    {
        if str_eq(icon_type, "xdg") {
            let mut s = text(name);
            s.append("\0icon\x1f");
            s.append(icon);
            s
        } else if str_eq(icon_type, "font") || str_eq(icon_type, "generic") {
            let mut s = text(icon);
            s.append(spaces_text(spaces).as_str());
            s.append(name);
            s
        } else {
            text(name)
        }
    }

    /// The icon key for a node's device: monitor or virtual by media class,
    /// else its form factor, else its bus, else input or output by type.
    pub open spec fn spec_device_icon_key(info: DeviceInfo) -> Seq<char> {
        if info.media_class is Some && contains_seq(info.media_class->0@, "Monitor"@) {
            "monitor"@
        } else if info.media_class is Some && contains_seq(info.media_class->0@, "Virtual"@) {
            "virtual"@
        } else if info.form_factor is Some {
            info.form_factor->0@
        } else if info.bus is Some {
            info.bus->0@
        } else if info.node_type == NodeType::AudioSource {
            "input"@
        } else {
            "output"@
        }
    }

    pub fn get_device_icon(&self, device_info: &DeviceInfo, icon_type: &str) -> (r: String)
        ensures
            r@ == self.spec_get_icon(Self::spec_device_icon_key(*device_info), icon_type@),
    {
        if let Some(media_class) = &device_info.media_class {
            if str_contains(media_class.as_str(), "Monitor") {
                return self.get_icon("monitor", icon_type);
            }
            if str_contains(media_class.as_str(), "Virtual") {
                return self.get_icon("virtual", icon_type);
            }
        }
        if let Some(form_factor) = &device_info.form_factor {
            return self.get_icon(form_factor.as_str(), icon_type);
        }
        if let Some(bus) = &device_info.bus {
            return self.get_icon(bus.as_str(), icon_type);
        }
        match device_info.node_type {
            NodeType::AudioSource => self.get_icon("input", icon_type),
            _ => self.get_icon("output", icon_type),
        }
    }
}

} // verus!
