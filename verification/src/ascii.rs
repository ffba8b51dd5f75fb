//! The overview panel's logo: its three sizes, how one is chosen for the
//! width available, and how a line of it is cut into runs of one colour.

use vstd::prelude::*;
use crate::text::{chars_of, eq_str};

verus! {

/// Size of the logo.
#[derive(Debug, Clone, Copy, PartialEq, Eq, Structural)]
pub enum LogoSize {
    /// 33 columns by 17 lines.
    Main,
    /// 27 columns by 13 lines.
    Medium,
    /// 20 columns by 9 lines.
    Compact,
}

/// The lines of each size of the logo (ASCII, all lines of one size equally wide).
pub open spec fn art_of(size: LogoSize) -> Seq<&'static str> {
    match size {
        LogoSize::Main => seq![
            "              =====              ",
            "        ==####=====####==        ",
            "      ====             ====      ",
            "    ##=     xxxx+++++     =##    ",
            "  ####   ++++x     ++xxx   ####  ",
            " ===   x+++...........x+++   === ",
            " ===  xxx ..ooooooooo.. +++  === ",
            "#==   ++ ..ooooOOOoooo.. ++   ==#",
            "###   ++ ..oooOOOOOooo.. xx   ###",
            "#==   ++ ..ooooOOOoooo.. ++   ==#",
            " ===  xxx ..ooooooooo.. +++  === ",
            " ===   x+++...........x+++   === ",
            "  ####   ++++x     ++xxx   ####  ",
            "    ##=     xxxx+++++     =##    ",
            "      ====             ====      ",
            "        ==####=====####==        ",
            "              =====              "
        ],
        LogoSize::Medium => seq![
            "        #=====###==        ",
            "     =###         ====     ",
            "   ===    x+++++x    ###   ",
            "  ==   +xxx.....xxx+   ==  ",
            " ##   ++...ooooo...++   == ",
            " ==  ++..ooooOoooo..++  == ",
            "===  xx..ooOOOOOoo..xx  ###",
            " ==  ++..ooooOoooo..++  == ",
            " ##   ++...ooooo...++   == ",
            "  ==   +xxx.....xxx+   ==  ",
            "   ===    x+++++x    ###   ",
            "     =###         ====     ",
            "        #=====###==        "
        ],
        LogoSize::Compact => seq![
            "     ====   ====    ",
            "   ##           ##  ",
            "  =     .....     = ",
            " ==   ..ooooo..   ==",
            " #    .ooOOOoo.    #",
            " ==   ..ooooo..   ==",
            "  =     .....     = ",
            "   ##           ##  ",
            "     ====   ====    "
        ],
    }
}

/// What `UnicodeWidthStr::width` gives for a string: its width in terminal
/// columns under the crate's Unicode tables.
pub uninterp spec fn str_width(s: Seq<char>) -> nat;

/// Every character is printable ASCII (space to `~`).
pub open spec fn printable_ascii(s: Seq<char>) -> bool {
    forall|i: int| 0 <= i < s.len() ==> ' ' <= #[trigger] s[i] && s[i] <= '~'
}

/// `unicode_width::UnicodeWidthStr::width`: the width of a string in
/// terminal columns. Its result is named by `str_width`, a function of the
/// string alone; the crate's width tables are not restated. Stated beside
/// the name: printable ASCII is one column per character (the crate's
/// lookup gives width 1 to U+0020..U+007E, with no sequence rules for them).
#[verifier::external_body]
fn display_width(s: &str) -> (r: usize)
    ensures
        r == str_width(s@),
        printable_ascii(s@) ==> r == s@.len(),
{
    unicode_width::UnicodeWidthStr::width(s)
}

/// The widest of the lines, in columns (0 for none).
pub open spec fn max_width(lines: Seq<&'static str>) -> nat
    decreases lines.len(),
{
    if lines.len() == 0 {
        0
    } else {
        let rest = max_width(lines.drop_last());
        let w = str_width(lines.last()@);
        if w > rest { w } else { rest }
    }
}

/// The width of each size of the logo, in columns.
pub open spec fn logo_width(size: LogoSize) -> u16 {
    match size {
        LogoSize::Main => 33,
        LogoSize::Medium => 27,
        LogoSize::Compact => 20,
    }
}

/// Every line of the logo is printable ASCII, as wide as its size.
proof fn lemma_art_lines(size: LogoSize)
    ensures
        art_of(size).len() > 0,
        forall|i: int| 0 <= i < art_of(size).len() ==> printable_ascii(#[trigger] art_of(size)[i]@)
            && art_of(size)[i]@.len() == logo_width(size),
{
    reveal_strlit("              =====              ");
    reveal_strlit("        ==####=====####==        ");
    reveal_strlit("      ====             ====      ");
    reveal_strlit("    ##=     xxxx+++++     =##    ");
    reveal_strlit("  ####   ++++x     ++xxx   ####  ");
    reveal_strlit(" ===   x+++...........x+++   === ");
    reveal_strlit(" ===  xxx ..ooooooooo.. +++  === ");
    reveal_strlit("#==   ++ ..ooooOOOoooo.. ++   ==#");
    reveal_strlit("###   ++ ..oooOOOOOooo.. xx   ###");
    reveal_strlit("        #=====###==        ");
    reveal_strlit("     =###         ====     ");
    reveal_strlit("   ===    x+++++x    ###   ");
    reveal_strlit("  ==   +xxx.....xxx+   ==  ");
    reveal_strlit(" ##   ++...ooooo...++   == ");
    reveal_strlit(" ==  ++..ooooOoooo..++  == ");
    reveal_strlit("===  xx..ooOOOOOoo..xx  ###");
    reveal_strlit("     ====   ====    ");
    reveal_strlit("   ##           ##  ");
    reveal_strlit("  =     .....     = ");
    reveal_strlit(" ==   ..ooooo..   ==");
    reveal_strlit(" #    .ooOOOoo.    #");
}

impl LogoSize {
    /// The lines of the logo.
    pub fn art(self) -> (r: Vec<&'static str>)
        ensures
            r@ == art_of(self),
    {
        let r = match self {
            LogoSize::Main => vec![
                "              =====              ",
                "        ==####=====####==        ",
                "      ====             ====      ",
                "    ##=     xxxx+++++     =##    ",
                "  ####   ++++x     ++xxx   ####  ",
                " ===   x+++...........x+++   === ",
                " ===  xxx ..ooooooooo.. +++  === ",
                "#==   ++ ..ooooOOOoooo.. ++   ==#",
                "###   ++ ..oooOOOOOooo.. xx   ###",
                "#==   ++ ..ooooOOOoooo.. ++   ==#",
                " ===  xxx ..ooooooooo.. +++  === ",
                " ===   x+++...........x+++   === ",
                "  ####   ++++x     ++xxx   ####  ",
                "    ##=     xxxx+++++     =##    ",
                "      ====             ====      ",
                "        ==####=====####==        ",
                "              =====              "
            ],
            LogoSize::Medium => vec![
                "        #=====###==        ",
                "     =###         ====     ",
                "   ===    x+++++x    ###   ",
                "  ==   +xxx.....xxx+   ==  ",
                " ##   ++...ooooo...++   == ",
                " ==  ++..ooooOoooo..++  == ",
                "===  xx..ooOOOOOoo..xx  ###",
                " ==  ++..ooooOoooo..++  == ",
                " ##   ++...ooooo...++   == ",
                "  ==   +xxx.....xxx+   ==  ",
                "   ===    x+++++x    ###   ",
                "     =###         ====     ",
                "        #=====###==        "
            ],
            LogoSize::Compact => vec![
                "     ====   ====    ",
                "   ##           ##  ",
                "  =     .....     = ",
                " ==   ..ooooo..   ==",
                " #    .ooOOOoo.    #",
                " ==   ..ooooo..   ==",
                "  =     .....     = ",
                "   ##           ##  ",
                "     ====   ====    "
            ],
        };
        assert(r@ =~= art_of(self));
        r
    }

    /// Width of the logo column: its widest line, in columns.
    pub fn width(self) -> (r: u16)
        ensures
            r == max_width(art_of(self)) as u16,
            r == logo_width(self),
    {
        let lines = self.art();
        let mut best: usize = 0;
        let mut i: usize = 0;
        proof {
            lemma_art_lines(self);
        }
        while i < lines.len()
            invariant
                i <= lines@.len(),
                lines@ == art_of(self),
                best == max_width(lines@.subrange(0, i as int)),
                i > 0 ==> best == logo_width(self),
                forall|k: int| 0 <= k < art_of(self).len() ==> printable_ascii(#[trigger] art_of(self)[k]@)
                    && art_of(self)[k]@.len() == logo_width(self),
            decreases lines@.len() - i,
        {
            let w = display_width(lines[i]);
            assert(printable_ascii(art_of(self)[i as int]@));
            assert(lines@.subrange(0, i + 1).drop_last() =~= lines@.subrange(0, i as int));
            if w > best {
                best = w;
            }
            i = i + 1;
        }
        assert(lines@.subrange(0, i as int) =~= lines@);
        best as u16
    }

    /// Height of the logo, in lines.
    pub fn height(self) -> (r: u16)
        ensures
            r == art_of(self).len(),
    {
        let lines = self.art();
        lines.len() as u16
    }
}

/// The widths of the three sizes as measured, largest size first.
pub open spec fn measured_widths() -> Seq<u16> {
    seq![
        max_width(art_of(LogoSize::Main)) as u16,
        max_width(art_of(LogoSize::Medium)) as u16,
        max_width(art_of(LogoSize::Compact)) as u16,
    ]
}

/// The largest size whose width (`widths`, largest size first) fits the
/// columns reserved for the logo.
pub open spec fn size_for(budget: u16, widths: Seq<u16>) -> Option<LogoSize> {
    if widths[0] <= budget {
        Some(LogoSize::Main)
    } else if widths[1] <= budget {
        Some(LogoSize::Medium)
    } else if widths[2] <= budget {
        Some(LogoSize::Compact)
    } else {
        None
    }
}

/// The size a configured preference asks for: a named size, none, or
/// (for `"auto"` and anything else) the largest that fits.
pub open spec fn selected(pref: Seq<char>, budget: u16, widths: Seq<u16>) -> Option<LogoSize> {
    if pref == "main"@ || pref == "A"@ {
        Some(LogoSize::Main)
    } else if pref == "medium"@ || pref == "C"@ {
        Some(LogoSize::Medium)
    } else if pref == "compact"@ || pref == "B"@ {
        Some(LogoSize::Compact)
    } else if pref == "none"@ || pref == "off"@ {
        None
    } else {
        size_for(budget, widths)
    }
}

/// Chooses the logo size from the preference, the reserved columns and the
/// widths of the three sizes (largest first).
pub fn choose_size(pref: &str, logo_budget: u16, widths: [u16; 3]) -> (r: Option<LogoSize>)
    ensures
        r == selected(pref@, logo_budget, widths@),
{
    let p = chars_of(pref);
    if eq_str(&p, "main") || eq_str(&p, "A") {
        Some(LogoSize::Main)
    } else if eq_str(&p, "medium") || eq_str(&p, "C") {
        Some(LogoSize::Medium)
    } else if eq_str(&p, "compact") || eq_str(&p, "B") {
        Some(LogoSize::Compact)
    } else if eq_str(&p, "none") || eq_str(&p, "off") {
        None
    } else if widths[0] <= logo_budget {
        Some(LogoSize::Main)
    } else if widths[1] <= logo_budget {
        Some(LogoSize::Medium)
    } else if widths[2] <= logo_budget {
        Some(LogoSize::Compact)
    } else {
        None
    }
}

/// Chooses the logo size from the configured preference and the columns
/// reserved for the logo; `None` hides it.
pub fn select(pref: &str, logo_budget: u16) -> (r: Option<LogoSize>)
    ensures
        r == selected(pref@, logo_budget, measured_widths()),
        r == selected(pref@, logo_budget, seq![33u16, 27u16, 20u16]),
{
    let widths: [u16; 3] = [LogoSize::Main.width(), LogoSize::Medium.width(), LogoSize::Compact.width()];
    assert(widths@ =~= measured_widths());
    assert(widths@ =~= seq![33u16, 27u16, 20u16]);
    choose_size(pref, logo_budget, widths)
}

/// The parts of the logo, each drawn in a colour of its own: the outer
/// ring's teeth (`#`) and gaps (`=`), the hub's teeth (`x`) and gaps (`+`),
/// and the eye's halo (`.`), iris (`o`) and core (`O`), which pulse.
#[derive(Debug, Clone, Copy, PartialEq, Eq, Structural)]
pub enum Glyph {
    RingTeeth,
    RingGap,
    HubTeeth,
    HubGap,
    EyeHalo,
    EyeIris,
    EyeCore,
}

/// The part a character of the logo draws; none for blank space.
pub open spec fn glyph_of(c: char) -> Option<Glyph> {
    if c == '#' {
        Some(Glyph::RingTeeth)
    } else if c == '=' {
        Some(Glyph::RingGap)
    } else if c == 'x' {
        Some(Glyph::HubTeeth)
    } else if c == '+' {
        Some(Glyph::HubGap)
    } else if c == '.' {
        Some(Glyph::EyeHalo)
    } else if c == 'o' {
        Some(Glyph::EyeIris)
    } else if c == 'O' {
        Some(Glyph::EyeCore)
    } else {
        None
    }
}

pub fn glyph_class(c: char) -> (r: Option<Glyph>)
    ensures
        r == glyph_of(c),
{
    if c == '#' {
        Some(Glyph::RingTeeth)
    } else if c == '=' {
        Some(Glyph::RingGap)
    } else if c == 'x' {
        Some(Glyph::HubTeeth)
    } else if c == '+' {
        Some(Glyph::HubGap)
    } else if c == '.' {
        Some(Glyph::EyeHalo)
    } else if c == 'o' {
        Some(Glyph::EyeIris)
    } else if c == 'O' {
        Some(Glyph::EyeCore)
    } else {
        None
    }
}

/// Characters `start..end` of a line, all drawing `glyph`.
#[derive(Debug, Clone, Copy, PartialEq, Eq, Structural)]
pub struct GlyphRun {
    pub start: usize,
    pub end: usize,
    pub glyph: Option<Glyph>,
}

/// `runs` cut `s` into its maximal runs of one part, in order.
pub open spec fn runs_cover(s: Seq<char>, runs: Seq<GlyphRun>) -> bool {
    &&& (runs.len() == 0 <==> s.len() == 0)
    &&& runs.len() > 0 ==> runs[0].start == 0 && runs.last().end == s.len()
    &&& forall|i: int|
        0 <= i < runs.len() - 1 ==> #[trigger] runs[i].end == runs[i + 1].start && runs[i].glyph
            != runs[i + 1].glyph
    &&& forall|i: int|
        0 <= i < runs.len() ==> (#[trigger] runs[i]).start < runs[i].end && forall|k: int|
            runs[i].start <= k < runs[i].end ==> glyph_of(#[trigger] s[k]) == runs[i].glyph
}

/// Cuts a line of the logo into its runs of one colour.
pub fn glyph_runs(line: &str) -> (r: Vec<GlyphRun>)
    ensures
        runs_cover(line@, r@),
{
    let v = chars_of(line);
    let mut runs: Vec<GlyphRun> = Vec::new();
    if v.len() == 0 {
        return runs;
    }
    let mut start: usize = 0;
    let mut cur = glyph_class(v[0]);
    let mut i: usize = 1;
    while i < v.len()
        invariant
            v@ == line@,
            0 <= start < i <= v@.len(),
            cur == glyph_of(v@[start as int]),
            forall|k: int| start <= k < i ==> glyph_of(#[trigger] v@[k]) == cur,
            runs@.len() == 0 ==> start == 0,
            runs@.len() > 0 ==> runs@[0].start == 0 && runs@.last().end == start && runs@.last().glyph
                != cur,
            forall|j: int|
                0 <= j < runs@.len() - 1 ==> #[trigger] runs@[j].end == runs@[j + 1].start
                    && runs@[j].glyph != runs@[j + 1].glyph,
            forall|j: int|
                0 <= j < runs@.len() ==> (#[trigger] runs@[j]).start < runs@[j].end && forall|k: int|
                    runs@[j].start <= k < runs@[j].end ==> glyph_of(#[trigger] v@[k]) == runs@[j].glyph,
        decreases v@.len() - i,
    {
        let g = glyph_class(v[i]);
        if g != cur {
            let ghost before = runs@;
            runs.push(GlyphRun { start, end: i, glyph: cur });
            proof {
                assert(runs@.len() == before.len() + 1);
                assert forall|j: int| 0 <= j < runs@.len() - 1 implies #[trigger] runs@[j].end
                    == runs@[j + 1].start && runs@[j].glyph != runs@[j + 1].glyph by {
                    if j < before.len() - 1 {
                        assert(runs@[j] == before[j] && runs@[j + 1] == before[j + 1]);
                    } else {
                        assert(runs@[j] == before.last());
                    }
                }
                assert forall|j: int| 0 <= j < runs@.len() implies (#[trigger] runs@[j]).start
                    < runs@[j].end && forall|k: int|
                    runs@[j].start <= k < runs@[j].end ==> glyph_of(#[trigger] v@[k])
                        == runs@[j].glyph by {
                    if j < before.len() {
                        assert(runs@[j] == before[j]);
                    }
                }
            }
            start = i;
            cur = g;
        }
        i = i + 1;
    }
    let ghost before = runs@;
    runs.push(GlyphRun { start, end: v.len(), glyph: cur });
    proof {
        assert forall|j: int| 0 <= j < runs@.len() - 1 implies #[trigger] runs@[j].end
            == runs@[j + 1].start && runs@[j].glyph != runs@[j + 1].glyph by {
            if j < before.len() - 1 {
                assert(runs@[j] == before[j] && runs@[j + 1] == before[j + 1]);
            } else {
                assert(runs@[j] == before.last());
            }
        }
        assert forall|j: int| 0 <= j < runs@.len() implies (#[trigger] runs@[j]).start < runs@[j].end
            && forall|k: int|
            runs@[j].start <= k < runs@[j].end ==> glyph_of(#[trigger] v@[k]) == runs@[j].glyph by {
            if j < before.len() {
                assert(runs@[j] == before[j]);
            }
        }
    }
    runs
}

} // verus!
