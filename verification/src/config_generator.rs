//! Rendering of the color sections that go into window-manager and
//! terminal configuration files, and the marker-based patching that
//! splices them into existing files.  Reading and writing the files
//! themselves is the caller's business.

use crate::color_extractor::{ColorScheme, SchemeModel};
use crate::hex::{leading_hashes, spec_strip_hash};
use crate::text::{find_marker_from, push_dec_u8, spec_dec_u8, spec_find_from};
use vstd::prelude::*;
use vstd::string::StrSliceExecFns;
use vstd::string::StringExecFns;

verus! {

/// Renders configuration color sections.
pub struct ConfigGenerator {}

/// A terminal slot rendered without its leading hashes, or a default
/// when the scheme holds no such slot.
pub open spec fn spec_slot_or(colors: Seq<Seq<char>>, i: int, default: Seq<char>) -> Seq<char> {
    spec_strip_hash(
        if i < colors.len() {
            colors[i]
        } else {
            default
        },
    )
}

/// The color section of a hyprland configuration.
pub open spec fn spec_hyprland_colors(m: SchemeModel) -> Seq<char> {
    "\n# Dynamic Color scheme - Generated by iro\n$red = rgb("@ + spec_slot_or(
        m.colors,
        1,
        "#e78284"@,
    ) + ")\n$blue = rgb("@ + spec_slot_or(m.colors, 4, "#8caaee"@) + ")\n$yellow = rgb("@
        + spec_slot_or(m.colors, 3, "#e5c890"@) + ")\n$magenta = rgb("@ + spec_slot_or(
        m.colors,
        5,
        "#ca9ee6"@,
    ) + ")\n$accent = rgb("@ + spec_strip_hash(m.accent) + ")\n$secondary = rgb("@
        + spec_strip_hash(m.secondary) + ")\n$text = rgb("@ + spec_strip_hash(m.foreground)
        + ")\n$surface = rgb("@ + spec_strip_hash(m.surface) + ")\n$surface0 = rgb("@
        + spec_strip_hash(m.surface) + ")\n$base = rgb("@ + spec_strip_hash(m.background)
        + ")\n$mantle = rgb(292c3c)\n$crust = rgb(232634)\n$error = rgb("@ + spec_strip_hash(
        m.error,
    ) + ")\n"@
}

/// Append `s` with its leading hashes dropped.
fn append_stripped(out: &mut String, s: &str)
    ensures
        final(out)@ == old(out)@ + spec_strip_hash(s@),
{
    let n = s.unicode_len();
    let i = leading_hashes(s);
    let t = s.substring_char(i, n);
    proof {
        assert(s@.subrange(i as int, n as int) =~= s@.skip(i as int));
    }
    out.append(t);
}

/// Append the scheme's slot `i`, hashes dropped, or the default.
fn append_slot_or(out: &mut String, colors: &Vec<String>, i: usize, default: &str)
    ensures
        final(out)@ == old(out)@ + spec_slot_or(
            colors@.map_values(|s: String| s@),
            i as int,
            default@,
        ),
{
    if i < colors.len() {
        append_stripped(out, colors[i].as_str());
    } else {
        append_stripped(out, default);
    }
}

/// The per-slot lines of the kitty section, one `colorN` line each.
pub open spec fn spec_kitty_color_lines(colors: Seq<Seq<char>>, n: int) -> Seq<char>
    decreases n,
{
    if n <= 0 {
        Seq::empty()
    } else {
        spec_kitty_color_lines(colors, n - 1) + "color"@ + spec_dec_u8(n - 1) + "   "@
            + colors[n - 1] + "\n"@
    }
}

/// The color section of a kitty configuration.
pub open spec fn spec_kitty_colors(m: SchemeModel) -> Seq<char> {
    "# ═══════════════════════════════════════════════════════════════════\n# DYNAMIC COLOR SCHEME - Generated by iro\n# ═══════════════════════════════════════════════════════════════════\n\n# Background and foreground\nforeground            "@
        + m.foreground + "\nbackground            "@ + m.background
        + "\nselection_foreground  "@ + m.background + "\nselection_background  "@ + m.accent
        + "\n\n# Cursor colors\ncursor                "@ + m.accent
        + "\ncursor_text_color     "@ + m.background + "\n\n# Terminal colors (0-15)\n"@
        + spec_kitty_color_lines(m.colors, m.colors.len() as int)
        + "\n# Tab colors\nactive_tab_foreground   "@ + m.background
        + "\nactive_tab_background   "@ + m.accent + "\ninactive_tab_foreground "@
        + m.secondary + "\ninactive_tab_background "@ + m.background
        + "\n\n\n# Window borders\nactive_border_color   "@ + m.accent
        + "\ninactive_border_color "@ + m.surface + "\nbell_border_color     "@ + m.error
        + "\n\n"@
}

/// Replace the text between two markers, keeping everything before
/// the first and from the second on; an empty or missing end marker
/// drops the tail, and a missing start marker leaves the content
/// untouched.
pub open spec fn spec_replace_section(
    content: Seq<char>,
    start_marker: Seq<char>,
    end_marker: Seq<char>,
    replacement: Seq<char>,
) -> Seq<char> {
    match spec_find_from(content, start_marker, 0) {
        None => content,
        Some(sp) => if end_marker.len() == 0 {
            content.take(sp) + replacement
        } else {
            match spec_find_from(content, end_marker, sp) {
                Some(ep) => content.take(sp) + replacement + content.skip(ep),
                None => content.take(sp) + replacement,
            }
        },
    }
}

/// Insert text on a fresh line after the first occurrence of the
/// marker, or append it at the end when the marker is absent.
pub open spec fn spec_insert_after_section(
    content: Seq<char>,
    marker: Seq<char>,
    insertion: Seq<char>,
) -> Seq<char> {
    match spec_find_from(content, marker, 0) {
        Some(pos) => content.take(pos + marker.len() as int) + "\n"@ + insertion + content.skip(
            pos + marker.len() as int,
        ),
        None => content + "\n"@ + insertion,
    }
}

impl ConfigGenerator {
    pub fn new() -> (r: ConfigGenerator) {
        ConfigGenerator {  }
    }

    /// Render the hyprland color-variable section for a scheme.
    pub fn generate_hyprland_colors(&self, color_scheme: &ColorScheme) -> (r: String)
        ensures
            r@ == spec_hyprland_colors(color_scheme@),
    {
        let mut out = String::new();
        out.append("\n# Dynamic Color scheme - Generated by iro\n$red = rgb(");
        append_slot_or(&mut out, &color_scheme.colors, 1, "#e78284");
        out.append(")\n$blue = rgb(");
        append_slot_or(&mut out, &color_scheme.colors, 4, "#8caaee");
        out.append(")\n$yellow = rgb(");
        append_slot_or(&mut out, &color_scheme.colors, 3, "#e5c890");
        out.append(")\n$magenta = rgb(");
        append_slot_or(&mut out, &color_scheme.colors, 5, "#ca9ee6");
        out.append(")\n$accent = rgb(");
        append_stripped(&mut out, color_scheme.accent.as_str());
        out.append(")\n$secondary = rgb(");
        append_stripped(&mut out, color_scheme.secondary.as_str());
        out.append(")\n$text = rgb(");
        append_stripped(&mut out, color_scheme.foreground.as_str());
        out.append(")\n$surface = rgb(");
        append_stripped(&mut out, color_scheme.surface.as_str());
        out.append(")\n$surface0 = rgb(");
        append_stripped(&mut out, color_scheme.surface.as_str());
        out.append(")\n$base = rgb(");
        append_stripped(&mut out, color_scheme.background.as_str());
        out.append(")\n$mantle = rgb(292c3c)\n$crust = rgb(232634)\n$error = rgb(");
        append_stripped(&mut out, color_scheme.error.as_str());
        out.append(")\n");
        proof {
            assert(out@ =~= spec_hyprland_colors(color_scheme@));
        }
        out
    }

    /// Render the kitty color section for a scheme.
    pub fn generate_kitty_colors(&self, color_scheme: &ColorScheme) -> (r: String)
        requires
            color_scheme.colors@.len() < 100,
        ensures
            r@ == spec_kitty_colors(color_scheme@),
    {
        let mut out = String::new();
        out.append(
            "# ═══════════════════════════════════════════════════════════════════\n# DYNAMIC COLOR SCHEME - Generated by iro\n# ═══════════════════════════════════════════════════════════════════\n\n# Background and foreground\nforeground            ",
        );
        out.append(color_scheme.foreground.as_str());
        out.append("\nbackground            ");
        out.append(color_scheme.background.as_str());
        out.append("\nselection_foreground  ");
        out.append(color_scheme.background.as_str());
        out.append("\nselection_background  ");
        out.append(color_scheme.accent.as_str());
        out.append("\n\n# Cursor colors\ncursor                ");
        out.append(color_scheme.accent.as_str());
        out.append("\ncursor_text_color     ");
        out.append(color_scheme.background.as_str());
        out.append("\n\n# Terminal colors (0-15)\n");
        let ghost prefix = out@;
        let ghost cmodel = color_scheme.colors@.map_values(|s: String| s@);
        let mut i: usize = 0;
        while i < color_scheme.colors.len()
            invariant
                0 <= i <= color_scheme.colors@.len() < 100,
                cmodel == color_scheme.colors@.map_values(|s: String| s@),
                out@ == prefix + spec_kitty_color_lines(cmodel, i as int),
            decreases color_scheme.colors@.len() - i,
        {
            out.append("color");
            push_dec_u8(&mut out, i as u8);
            out.append("   ");
            out.append(color_scheme.colors[i].as_str());
            out.append("\n");
            proof {
                assert(out@ =~= prefix + spec_kitty_color_lines(cmodel, i + 1));
            }
            i = i + 1;
        }
        out.append("\n# Tab colors\nactive_tab_foreground   ");
        out.append(color_scheme.background.as_str());
        out.append("\nactive_tab_background   ");
        out.append(color_scheme.accent.as_str());
        out.append("\ninactive_tab_foreground ");
        out.append(color_scheme.secondary.as_str());
        out.append("\ninactive_tab_background ");
        out.append(color_scheme.background.as_str());
        out.append("\n\n\n# Window borders\nactive_border_color   ");
        out.append(color_scheme.accent.as_str());
        out.append("\ninactive_border_color ");
        out.append(color_scheme.surface.as_str());
        out.append("\nbell_border_color     ");
        out.append(color_scheme.error.as_str());
        out.append("\n\n");
        proof {
            assert(out@ =~= spec_kitty_colors(color_scheme@));
        }
        out
    }

    /// Swap the section between two markers for a replacement.
    pub fn replace_section(
        &self,
        content: &str,
        start_marker: &str,
        end_marker: &str,
        replacement: &str,
    ) -> (r: String)
        ensures
            r@ == spec_replace_section(content@, start_marker@, end_marker@, replacement@),
    {
        let n = content.unicode_len();
        match find_marker_from(content, start_marker, 0) {
            None => String::from_str(content),
            Some(sp) => {
                let mut out = String::new();
                out.append(content.substring_char(0, sp));
                out.append(replacement);
                proof {
                    assert(content@.subrange(0, sp as int) =~= content@.take(sp as int));
                }
                if end_marker.unicode_len() == 0 {
                    return out;
                }
                match find_marker_from(content, end_marker, sp) {
                    Some(ep) => {
                        out.append(content.substring_char(ep, n));
                        proof {
                            assert(content@.subrange(ep as int, n as int) =~= content@.skip(
                                ep as int,
                            ));
                        }
                        out
                    },
                    None => out,
                }
            },
        }
    }

    /// Insert text on a fresh line after the first occurrence of the
    /// marker, or append it at the end.
    pub fn insert_after_section(&self, content: &str, marker: &str, insertion: &str) -> (r:
        String)
        ensures
            r@ == spec_insert_after_section(content@, marker@, insertion@),
    {
        let n = content.unicode_len();
        match find_marker_from(content, marker, 0) {
            Some(pos) => {
                let end = pos + marker.unicode_len();
                let mut out = String::new();
                out.append(content.substring_char(0, end));
                out.append("\n");
                out.append(insertion);
                out.append(content.substring_char(end, n));
                proof {
                    assert(content@.subrange(0, pos + marker@.len()) =~= content@.take(
                        pos + marker@.len(),
                    ));
                    assert(content@.subrange(pos + marker@.len(), n as int) =~= content@.skip(
                        pos + marker@.len(),
                    ));
                    assert(out@ =~= spec_insert_after_section(content@, marker@, insertion@));
                }
                out
            },
            None => {
                let mut out = String::from_str(content);
                out.append("\n");
                out.append(insertion);
                proof {
                    assert(out@ =~= spec_insert_after_section(content@, marker@, insertion@));
                }
                out
            },
        }
    }
}

} // verus!
