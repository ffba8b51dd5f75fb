//! The displays panel's model: layout modes, the layout that the outputs'
//! geometry shows, the commands that put a layout in place on each display
//! server, and the hot-plug changes between two polls.

use vstd::prelude::*;
use crate::text::{chars_of, concat_string, contains_str, has_infix, seq_eq};

verus! {

/// How two monitors are arranged.
#[derive(Debug, Clone, Copy, PartialEq, Eq, Structural)]
pub enum DisplayLayoutMode {
    ExtendRight,
    ExtendLeft,
    Mirror,
    ExternalOnly,
    InternalOnly,
    Custom,
}

impl DisplayLayoutMode {
    /// The modes the panel offers, in order.
    pub fn all() -> (r: [DisplayLayoutMode; 5])
        ensures
            r@ == seq![
                DisplayLayoutMode::ExtendRight,
                DisplayLayoutMode::ExtendLeft,
                DisplayLayoutMode::Mirror,
                DisplayLayoutMode::ExternalOnly,
                DisplayLayoutMode::InternalOnly,
            ],
    {
        [
            DisplayLayoutMode::ExtendRight,
            DisplayLayoutMode::ExtendLeft,
            DisplayLayoutMode::Mirror,
            DisplayLayoutMode::ExternalOnly,
            DisplayLayoutMode::InternalOnly,
        ]
    }

    pub fn title(&self) -> (r: &'static str)
        ensures
            r@ == match *self {
                DisplayLayoutMode::ExtendRight => "Expandir à Direita"@,
                DisplayLayoutMode::ExtendLeft => "Expandir à Esquerda"@,
                DisplayLayoutMode::Mirror => "Espelhar Telas"@,
                DisplayLayoutMode::ExternalOnly => "Apenas Monitor Externo"@,
                DisplayLayoutMode::InternalOnly => "Apenas Tela do Notebook"@,
                DisplayLayoutMode::Custom => "Personalizado"@,
            },
    {
        match self {
            DisplayLayoutMode::ExtendRight => "Expandir à Direita",
            DisplayLayoutMode::ExtendLeft => "Expandir à Esquerda",
            DisplayLayoutMode::Mirror => "Espelhar Telas",
            DisplayLayoutMode::ExternalOnly => "Apenas Monitor Externo",
            DisplayLayoutMode::InternalOnly => "Apenas Tela do Notebook",
            DisplayLayoutMode::Custom => "Personalizado",
        }
    }

    pub fn ascii_badge(&self) -> (r: &'static str)
        ensures
            r@ == match *self {
                DisplayLayoutMode::ExtendRight => "[EXPAND-DIR]"@,
                DisplayLayoutMode::ExtendLeft => "[EXPAND-ESQ]"@,
                DisplayLayoutMode::Mirror => "[ESPELHO   ]"@,
                DisplayLayoutMode::ExternalOnly => "[SO-EXTERNO]"@,
                DisplayLayoutMode::InternalOnly => "[SO-INTERNO]"@,
                DisplayLayoutMode::Custom => "[CUSTOM    ]"@,
            },
    {
        match self {
            DisplayLayoutMode::ExtendRight => "[EXPAND-DIR]",
            DisplayLayoutMode::ExtendLeft => "[EXPAND-ESQ]",
            DisplayLayoutMode::Mirror => "[ESPELHO   ]",
            DisplayLayoutMode::ExternalOnly => "[SO-EXTERNO]",
            DisplayLayoutMode::InternalOnly => "[SO-INTERNO]",
            DisplayLayoutMode::Custom => "[CUSTOM    ]",
        }
    }
}

/// A resolution mode of an output, as the display server reports it. The
/// refresh rate is kept as the text it is read from; text that does not
/// read as a number stands for 60 Hz.
#[derive(Debug, PartialEq)]
pub struct DisplayMode {
    pub width: u32,
    pub height: u32,
    pub rate_text: String,
    pub is_current: bool,
    pub is_preferred: bool,
}

/// The value of a `DisplayMode`.
#[verifier::ext_equal]
pub struct DisplayModeView {
    pub width: u32,
    pub height: u32,
    pub rate_text: Seq<char>,
    pub is_current: bool,
    pub is_preferred: bool,
}

impl View for DisplayMode {
    type V = DisplayModeView;

    open spec fn view(&self) -> DisplayModeView {
        DisplayModeView {
            width: self.width,
            height: self.height,
            rate_text: self.rate_text@,
            is_current: self.is_current,
            is_preferred: self.is_preferred,
        }
    }
}

impl DisplayMode {
    /// A copy of this mode.
    pub fn duplicate(&self) -> (r: DisplayMode)
        ensures
            r@ == self@,
    {
        DisplayMode {
            width: self.width,
            height: self.height,
            rate_text: self.rate_text.clone(),
            is_current: self.is_current,
            is_preferred: self.is_preferred,
        }
    }
}

/// A video output: its connector name, whether a monitor is plugged in,
/// primary, showing an image, its current and supported modes, its
/// position on the virtual canvas, its rotation, and whether it is the
/// laptop's own panel (eDP, LVDS, DSI).
#[derive(Debug, PartialEq)]
pub struct DisplayNode {
    pub name: String,
    pub is_connected: bool,
    pub is_primary: bool,
    pub is_active: bool,
    pub current_mode: Option<DisplayMode>,
    pub supported_modes: Vec<DisplayMode>,
    pub pos_x: i32,
    pub pos_y: i32,
    pub rotation: String,
    pub is_internal: bool,
}

/// The value of a `DisplayNode`.
#[verifier::ext_equal]
pub struct DisplayNodeView {
    pub name: Seq<char>,
    pub is_connected: bool,
    pub is_primary: bool,
    pub is_active: bool,
    pub current_mode: Option<DisplayModeView>,
    pub supported_modes: Seq<DisplayModeView>,
    pub pos_x: i32,
    pub pos_y: i32,
    pub rotation: Seq<char>,
    pub is_internal: bool,
}

pub open spec fn modes_view(ms: Seq<DisplayMode>) -> Seq<DisplayModeView> {
    ms.map_values(|m: DisplayMode| m@)
}

pub open spec fn mode_opt_view(m: Option<DisplayMode>) -> Option<DisplayModeView> {
    match m {
        Some(x) => Some(x@),
        None => None,
    }
}

pub open spec fn node_opt_view(d: Option<DisplayNode>) -> Option<DisplayNodeView> {
    match d {
        Some(x) => Some(x@),
        None => None,
    }
}

impl View for DisplayNode {
    type V = DisplayNodeView;

    open spec fn view(&self) -> DisplayNodeView {
        DisplayNodeView {
            name: self.name@,
            is_connected: self.is_connected,
            is_primary: self.is_primary,
            is_active: self.is_active,
            current_mode: mode_opt_view(self.current_mode),
            supported_modes: modes_view(self.supported_modes@),
            pos_x: self.pos_x,
            pos_y: self.pos_y,
            rotation: self.rotation@,
            is_internal: self.is_internal,
        }
    }
}

pub open spec fn nodes_view(ds: Seq<DisplayNode>) -> Seq<DisplayNodeView> {
    ds.map_values(|d: DisplayNode| d@)
}

/// The outputs that are connected and showing an image, in order.
pub open spec fn lit(ds: Seq<DisplayNodeView>) -> Seq<DisplayNodeView> {
    ds.filter(|d: DisplayNodeView| d.is_connected && d.is_active)
}

/// The layout the geometry shows: with one lit output, which one it is;
/// with two or more, how the first two sit (same origin: mirrored; else the
/// external side decides).
pub open spec fn layout_of(ds: Seq<DisplayNodeView>) -> Option<DisplayLayoutMode> {
    let c = lit(ds);
    if c.len() == 0 {
        None
    } else if c.len() == 1 {
        if c[0].is_internal {
            Some(DisplayLayoutMode::InternalOnly)
        } else {
            Some(DisplayLayoutMode::ExternalOnly)
        }
    } else {
        let d1 = c[0];
        let d2 = c[1];
        if d1.pos_x == d2.pos_x && d1.pos_y == d2.pos_y {
            Some(DisplayLayoutMode::Mirror)
        } else if d1.is_internal {
            if d2.pos_x > d1.pos_x {
                Some(DisplayLayoutMode::ExtendRight)
            } else {
                Some(DisplayLayoutMode::ExtendLeft)
            }
        } else if d1.pos_x > d2.pos_x {
            Some(DisplayLayoutMode::ExtendRight)
        } else {
            Some(DisplayLayoutMode::ExtendLeft)
        }
    }
}

/// Infers the current layout from the outputs' state and positions.
pub fn infer_layout(displays: &[DisplayNode]) -> (r: Option<DisplayLayoutMode>)
    ensures
        r == layout_of(nodes_view(displays@)),
{
    let ghost nv = nodes_view(displays@);
    let mut first: Option<usize> = None;
    let mut second: Option<usize> = None;
    let mut i: usize = 0;
    proof {
        reveal_with_fuel(Seq::filter, 1);
        assert(nv.subrange(0, 0) =~= Seq::<DisplayNodeView>::empty());
    }
    while i < displays.len() && second.is_none()
        invariant
            i <= displays@.len(),
            nv == nodes_view(displays@),
            ({
                let c = lit(nv.subrange(0, i as int));
                &&& c.len() <= 2
                &&& (c.len() == 0 <==> first is None)
                &&& (c.len() < 2 <==> second is None)
                &&& (first matches Some(f) ==> f < i && c[0] == nv[f as int])
                &&& (second matches Some(s) ==> s < i && c[1] == nv[s as int])
            }),
        decreases displays@.len() - i,
    {
        proof {
            reveal_with_fuel(Seq::filter, 1);
            assert(nv.subrange(0, i + 1).drop_last() =~= nv.subrange(0, i as int));
            assert(nv[i as int] == displays@[i as int]@);
        }
        if displays[i].is_connected && displays[i].is_active {
            if first.is_none() {
                first = Some(i);
            } else {
                second = Some(i);
            }
        }
        i = i + 1;
    }
    proof {
        let c = lit(nv.subrange(0, i as int));
        let all = lit(nv);
        lemma_filter_prefix(nv, i as int);
        assert(c.len() >= 2 ==> all[0] == c[0] && all[1] == c[1]);
        if c.len() < 2 {
            assert(i == displays@.len());
            assert(nv.subrange(0, i as int) =~= nv);
        }
    }
    match first {
        None => None,
        Some(f) => match second {
            None => {
                assert(nv[f as int] == displays@[f as int]@);
                if displays[f].is_internal {
                    Some(DisplayLayoutMode::InternalOnly)
                } else {
                    Some(DisplayLayoutMode::ExternalOnly)
                }
            },
            Some(s) => {
                let d1 = &displays[f];
                let d2 = &displays[s];
                assert(nv[f as int] == d1@ && nv[s as int] == d2@);
                if d1.pos_x == d2.pos_x && d1.pos_y == d2.pos_y {
                    Some(DisplayLayoutMode::Mirror)
                } else if d1.is_internal {
                    if d2.pos_x > d1.pos_x {
                        Some(DisplayLayoutMode::ExtendRight)
                    } else {
                        Some(DisplayLayoutMode::ExtendLeft)
                    }
                } else if d1.pos_x > d2.pos_x {
                    Some(DisplayLayoutMode::ExtendRight)
                } else {
                    Some(DisplayLayoutMode::ExtendLeft)
                }
            },
        },
    }
}

/// The lit outputs of a prefix are a prefix of the lit outputs of the whole.
proof fn lemma_filter_prefix(ds: Seq<DisplayNodeView>, i: int)
    requires
        0 <= i <= ds.len(),
    ensures
        lit(ds.subrange(0, i)).len() <= lit(ds).len(),
        forall|k: int| 0 <= k < lit(ds.subrange(0, i)).len() ==> lit(ds)[k] == lit(ds.subrange(0, i))[k],
    decreases ds.len() - i,
{
    reveal_with_fuel(Seq::filter, 1);
    if i < ds.len() {
        lemma_filter_prefix(ds, i + 1);
        assert(ds.subrange(0, i + 1).drop_last() =~= ds.subrange(0, i));
    } else {
        assert(ds.subrange(0, i) =~= ds);
    }
}

/// The displays of the system as one report describes them: every
/// output, the primary one's name, how many are connected, the layout
/// their geometry shows, and the display server that reported them.
#[derive(Debug, PartialEq)]
pub struct DisplaySnapshot {
    pub displays: Vec<DisplayNode>,
    pub primary_name: Option<String>,
    pub connected_count: usize,
    pub current_layout: Option<DisplayLayoutMode>,
    pub server_type: String,
}

/// The connected outputs, in order.
pub open spec fn plugged(ds: Seq<DisplayNodeView>) -> Seq<DisplayNodeView> {
    ds.filter(|d: DisplayNodeView| d.is_connected)
}

/// `i` is the first connected output whose panel kind is `internal`.
pub open spec fn first_plugged(ds: Seq<DisplayNodeView>, internal: bool, i: int) -> bool {
    &&& 0 <= i < ds.len()
    &&& ds[i].is_connected && ds[i].is_internal == internal
    &&& forall|j: int| 0 <= j < i ==> !(ds[j].is_connected && ds[j].is_internal == internal)
}

impl DisplaySnapshot {
    fn first_connected(&self, internal: bool) -> (r: Option<usize>)
        ensures
            match r {
                Some(i) => first_plugged(nodes_view(self.displays@), internal, i as int),
                None => forall|j: int|
                    0 <= j < self.displays@.len() ==> !(self.displays@[j].is_connected
                        && self.displays@[j].is_internal == internal),
            },
    {
        let mut i: usize = 0;
        while i < self.displays.len()
            invariant
                i <= self.displays@.len(),
                forall|j: int|
                    0 <= j < i ==> !(self.displays@[j].is_connected && self.displays@[j].is_internal
                        == internal),
            decreases self.displays@.len() - i,
        {
            if self.displays[i].is_connected && self.displays[i].is_internal == internal {
                return Some(i);
            }
            i = i + 1;
        }
        None
    }

    /// The first connected internal panel.
    pub fn internal_display(&self) -> (r: Option<&DisplayNode>)
        ensures
            match r {
                Some(d) => exists|i: int|
                    first_plugged(nodes_view(self.displays@), true, i) && *d == self.displays@[i],
                None => forall|j: int|
                    0 <= j < self.displays@.len() ==> !(self.displays@[j].is_connected
                        && self.displays@[j].is_internal),
            },
    {
        match self.first_connected(true) {
            Some(i) => Some(&self.displays[i]),
            None => None,
        }
    }

    /// The first connected external monitor.
    pub fn external_display(&self) -> (r: Option<&DisplayNode>)
        ensures
            match r {
                Some(d) => exists|i: int|
                    first_plugged(nodes_view(self.displays@), false, i) && *d == self.displays@[i],
                None => forall|j: int|
                    0 <= j < self.displays@.len() ==> !(self.displays@[j].is_connected
                        && !self.displays@[j].is_internal),
            },
    {
        match self.first_connected(false) {
            Some(i) => Some(&self.displays[i]),
            None => None,
        }
    }

    /// The connected outputs, in order.
    pub fn connected_displays(&self) -> (r: Vec<&DisplayNode>)
        ensures
            r@.map_values(|d: &DisplayNode| d@) == plugged(nodes_view(self.displays@)),
    {
        let ghost nv = nodes_view(self.displays@);
        let mut out: Vec<&DisplayNode> = Vec::new();
        let mut i: usize = 0;
        proof {
            reveal_with_fuel(Seq::filter, 1);
            assert(nv.subrange(0, 0) =~= Seq::<DisplayNodeView>::empty());
        }
        while i < self.displays.len()
            invariant
                i <= self.displays@.len(),
                nv == nodes_view(self.displays@),
                out@.map_values(|d: &DisplayNode| d@) == plugged(nv.subrange(0, i as int)),
            decreases self.displays@.len() - i,
        {
            proof {
                reveal_with_fuel(Seq::filter, 1);
                assert(nv.subrange(0, i + 1).drop_last() =~= nv.subrange(0, i as int));
                assert(nv[i as int] == self.displays@[i as int]@);
            }
            if self.displays[i].is_connected {
                let ghost before = out@;
                out.push(&self.displays[i]);
                assert(out@.map_values(|d: &DisplayNode| d@) =~= before.map_values(|d: &DisplayNode| d@).push(nv[i as int]));
            } else {
                assert(plugged(nv.subrange(0, i + 1)) =~= plugged(nv.subrange(0, i as int)));
            }
            i = i + 1;
        }
        assert(nv.subrange(0, i as int) =~= nv);
        out
    }
}

/// The number of connected outputs.
pub fn count_connected(displays: &[DisplayNode]) -> (r: usize)
    ensures
        r == plugged(nodes_view(displays@)).len(),
{
    let ghost nv = nodes_view(displays@);
    let mut n: usize = 0;
    let mut i: usize = 0;
    proof {
        reveal_with_fuel(Seq::filter, 1);
        assert(nv.subrange(0, 0) =~= Seq::<DisplayNodeView>::empty());
    }
    while i < displays.len()
        invariant
            i <= displays@.len(),
            nv == nodes_view(displays@),
            n == plugged(nv.subrange(0, i as int)).len(),
            n <= i,
        decreases displays@.len() - i,
    {
        proof {
            reveal_with_fuel(Seq::filter, 1);
            assert(nv.subrange(0, i + 1).drop_last() =~= nv.subrange(0, i as int));
            assert(nv[i as int] == displays@[i as int]@);
        }
        if displays[i].is_connected {
            n = n + 1;
        }
        i = i + 1;
    }
    assert(nv.subrange(0, i as int) =~= nv);
    n
}

/// A report's snapshot: its outputs, the primary's name, the count of
/// connected outputs and the inferred layout; the server is named later.
pub fn snapshot_of(displays: Vec<DisplayNode>, primary_name: Option<String>) -> (r: DisplaySnapshot)
    ensures
        r.displays@ == displays@,
        r.primary_name == primary_name,
        r.connected_count == plugged(nodes_view(displays@)).len(),
        r.current_layout == layout_of(nodes_view(displays@)),
        r.server_type@ == ""@,
{
    let connected_count = count_connected(displays.as_slice());
    let current_layout = infer_layout(displays.as_slice());
    proof {
        reveal_strlit("");
    }
    DisplaySnapshot {
        displays,
        primary_name,
        connected_count,
        current_layout,
        server_type: String::new(),
    }
}

/// Which tool drives the display server.
pub open spec fn uses_wlr(server_type: Seq<char>) -> bool {
    has_infix(server_type, "wlr-randr"@)
}

pub open spec fn uses_hyprland(server_type: Seq<char>) -> bool {
    !has_infix(server_type, "wlr-randr"@) && has_infix(server_type, "Hyprland"@)
}

/// A command: program and arguments, as text.
pub open spec fn command_view(c: (String, Vec<String>)) -> (Seq<char>, Seq<Seq<char>>) {
    (c.0@, c.1@.map_values(|a: String| a@))
}

pub open spec fn commands_view(cs: Seq<(String, Vec<String>)>) -> Seq<(Seq<char>, Seq<Seq<char>>)> {
    cs.map_values(|c: (String, Vec<String>)| command_view(c))
}

/// The Hyprland monitor rule that turns an output on at its preferred mode.
pub open spec fn hypr_auto(name: Seq<char>) -> Seq<char> {
    name + ",auto,auto,1"@
}

/// `hyprctl keyword monitor <rule>`.
pub open spec fn hypr_rule(rule: Seq<char>) -> (Seq<char>, Seq<Seq<char>>) {
    ("hyprctl"@, seq!["keyword"@, "monitor"@, rule])
}

/// The commands that put `layout` in place, the internal panel and one
/// external monitor being named; `Custom` runs nothing.
pub open spec fn layout_plan(
    layout: DisplayLayoutMode,
    i: Seq<char>,
    e: Seq<char>,
    server_type: Seq<char>,
) -> Seq<(Seq<char>, Seq<Seq<char>>)> {
    if uses_wlr(server_type) {
        let w = "wlr-randr"@;
        match layout {
            DisplayLayoutMode::ExtendRight => seq![(w, seq!["--output"@, i, "--on"@, "--output"@, e, "--on"@, "--right-of"@, i])],
            DisplayLayoutMode::ExtendLeft => seq![(w, seq!["--output"@, i, "--on"@, "--output"@, e, "--on"@, "--left-of"@, i])],
            DisplayLayoutMode::Mirror => seq![(w, seq!["--output"@, i, "--on"@, "--output"@, e, "--on"@])],
            DisplayLayoutMode::ExternalOnly => seq![(w, seq!["--output"@, e, "--on"@, "--output"@, i, "--off"@])],
            DisplayLayoutMode::InternalOnly => seq![(w, seq!["--output"@, i, "--on"@, "--output"@, e, "--off"@])],
            DisplayLayoutMode::Custom => Seq::empty(),
        }
    } else if uses_hyprland(server_type) {
        match layout {
            DisplayLayoutMode::ExtendRight => seq![hypr_rule(hypr_auto(i)), hypr_rule(hypr_auto(e))],
            DisplayLayoutMode::ExtendLeft => seq![hypr_rule(hypr_auto(i)), hypr_rule(hypr_auto(e))],
            DisplayLayoutMode::Mirror => seq![hypr_rule(e + ",auto,auto,1,mirror,"@ + i)],
            DisplayLayoutMode::ExternalOnly => seq![hypr_rule(i + ",disable"@), hypr_rule(hypr_auto(e))],
            DisplayLayoutMode::InternalOnly => seq![hypr_rule(e + ",disable"@), hypr_rule(hypr_auto(i))],
            DisplayLayoutMode::Custom => Seq::empty(),
        }
    } else {
        let x = "xrandr"@;
        match layout {
            DisplayLayoutMode::ExtendRight => seq![(x, seq!["--output"@, i, "--auto"@, "--primary"@, "--output"@, e, "--auto"@, "--right-of"@, i])],
            DisplayLayoutMode::ExtendLeft => seq![(x, seq!["--output"@, i, "--auto"@, "--primary"@, "--output"@, e, "--auto"@, "--left-of"@, i])],
            DisplayLayoutMode::Mirror => seq![(x, seq!["--output"@, i, "--auto"@, "--primary"@, "--output"@, e, "--auto"@, "--same-as"@, i])],
            DisplayLayoutMode::ExternalOnly => seq![(x, seq!["--output"@, e, "--auto"@, "--primary"@, "--output"@, i, "--off"@])],
            DisplayLayoutMode::InternalOnly => seq![(x, seq!["--output"@, i, "--auto"@, "--primary"@, "--output"@, e, "--off"@])],
            DisplayLayoutMode::Custom => Seq::empty(),
        }
    }
}

/// Extending to the left differs from extending to the right only in where
/// the external output goes: on wlr-randr and xrandr the one command is the
/// same but for `--left-of` in place of `--right-of`, and ends with the
/// external output placed left of the internal one; Hyprland places outputs
/// itself, and both run the same commands.
pub proof fn lemma_extend_left_mirrors_right(i: Seq<char>, e: Seq<char>, server_type: Seq<char>)
    ensures
        ({
            let right = layout_plan(DisplayLayoutMode::ExtendRight, i, e, server_type);
            let left = layout_plan(DisplayLayoutMode::ExtendLeft, i, e, server_type);
            if uses_hyprland(server_type) {
                left == right
            } else {
                let ra = right[0].1;
                let la = left[0].1;
                &&& right.len() == 1 && left.len() == 1
                &&& left[0].0 == right[0].0
                &&& ra.len() >= 3 && ra[ra.len() - 2] == "--right-of"@ && ra.last() == i
                &&& la == ra.update(ra.len() - 2, "--left-of"@)
                &&& la[la.len() - 3] == "--auto"@ || la[la.len() - 3] == "--on"@
                &&& la[la.len() - 4] == e
                &&& la.last() == i
            }
        }),
{
    let right = layout_plan(DisplayLayoutMode::ExtendRight, i, e, server_type);
    let left = layout_plan(DisplayLayoutMode::ExtendLeft, i, e, server_type);
    if !uses_hyprland(server_type) {
        assert(left[0].1 =~= right[0].1.update(right[0].1.len() - 2, "--left-of"@));
    }
}

/// Showing only the external output is showing only the internal one with
/// the two outputs' roles swapped, on every server.
pub proof fn lemma_single_screen_symmetric(i: Seq<char>, e: Seq<char>, server_type: Seq<char>)
    ensures
        layout_plan(DisplayLayoutMode::ExternalOnly, i, e, server_type) == layout_plan(
            DisplayLayoutMode::InternalOnly,
            e,
            i,
            server_type,
        ),
{
}

/// Mirroring turns both outputs on like extending does: on xrandr the
/// external output takes `--same-as` the internal one in place of
/// `--right-of`; on wlr-randr it is simply not placed.
pub proof fn lemma_mirror_like_extend(i: Seq<char>, e: Seq<char>, server_type: Seq<char>)
    ensures
        ({
            let right = layout_plan(DisplayLayoutMode::ExtendRight, i, e, server_type);
            let mirror = layout_plan(DisplayLayoutMode::Mirror, i, e, server_type);
            &&& uses_wlr(server_type) ==> mirror == seq![(right[0].0, right[0].1.subrange(0, right[0].1.len() - 2))]
            &&& !uses_wlr(server_type) && !uses_hyprland(server_type) ==> mirror == seq![
                (right[0].0, right[0].1.update(right[0].1.len() - 2, "--same-as"@)),
            ]
        }),
{
    let right = layout_plan(DisplayLayoutMode::ExtendRight, i, e, server_type);
    if uses_wlr(server_type) {
        assert(right[0].1.subrange(0, right[0].1.len() - 2) =~= seq!["--output"@, i, "--on"@, "--output"@, e, "--on"@]);
    } else if !uses_hyprland(server_type) {
        assert(right[0].1.update(right[0].1.len() - 2, "--same-as"@) =~= seq![
            "--output"@, i, "--auto"@, "--primary"@, "--output"@, e, "--auto"@, "--same-as"@, i
        ]);
    }
}

fn s(t: &str) -> (r: String)
    ensures
        r@ == t@,
{
    String::from_str(t)
}

fn command(program: &str, args: Vec<String>) -> (r: (String, Vec<String>))
    ensures
        r.0@ == program@,
        r.1@ == args@,
{
    (String::from_str(program), args)
}

fn hypr(rule: String) -> (r: (String, Vec<String>))
    ensures
        command_view(r) == hypr_rule(rule@),
{
    let args = vec![s("keyword"), s("monitor"), rule];
    let r = command("hyprctl", args);
    assert(r.1@.map_values(|a: String| a@) =~= seq!["keyword"@, "monitor"@, rule@]);
    r
}

fn joined(a: &str, b: &str) -> (r: String)
    ensures
        r@ == a@ + b@,
{
    let av = chars_of(a);
    let bv = chars_of(b);
    concat_string(&av, &bv)
}

/// The commands that `apply_layout` runs for a layout, in order, for the
/// display server named by `server_type` (`wlr-randr`, Hyprland, or X11).
pub fn layout_commands(layout: DisplayLayoutMode, internal: &str, external: &str, server_type: &str) -> (r: Vec<(String, Vec<String>)>)
    ensures
        commands_view(r@) == layout_plan(layout, internal@, external@, server_type@),
{
    let st = chars_of(server_type);
    let i = internal;
    let e = external;
    let mut out: Vec<(String, Vec<String>)> = Vec::new();
    if contains_str(&st, "wlr-randr") {
        let args: Vec<String> = match layout {
            DisplayLayoutMode::ExtendRight => vec![s("--output"), s(i), s("--on"), s("--output"), s(e), s("--on"), s("--right-of"), s(i)],
            DisplayLayoutMode::ExtendLeft => vec![s("--output"), s(i), s("--on"), s("--output"), s(e), s("--on"), s("--left-of"), s(i)],
            DisplayLayoutMode::Mirror => vec![s("--output"), s(i), s("--on"), s("--output"), s(e), s("--on")],
            DisplayLayoutMode::ExternalOnly => vec![s("--output"), s(e), s("--on"), s("--output"), s(i), s("--off")],
            DisplayLayoutMode::InternalOnly => vec![s("--output"), s(i), s("--on"), s("--output"), s(e), s("--off")],
            DisplayLayoutMode::Custom => Vec::new(),
        };
        if layout != DisplayLayoutMode::Custom {
            let c = command("wlr-randr", args);
            out.push(c);
            proof {
                let want = layout_plan(layout, internal@, external@, server_type@);
                assert(c.1@.map_values(|a: String| a@) =~= want[0].1);
            }
        }
    } else if contains_str(&st, "Hyprland") {
        match layout {
            DisplayLayoutMode::ExtendRight | DisplayLayoutMode::ExtendLeft => {
                out.push(hypr(joined(i, ",auto,auto,1")));
                out.push(hypr(joined(e, ",auto,auto,1")));
            },
            DisplayLayoutMode::Mirror => {
                let head = joined(e, ",auto,auto,1,mirror,");
                let hv = chars_of(head.as_str());
                let iv = chars_of(i);
                out.push(hypr(concat_string(&hv, &iv)));
            },
            DisplayLayoutMode::ExternalOnly => {
                out.push(hypr(joined(i, ",disable")));
                out.push(hypr(joined(e, ",auto,auto,1")));
            },
            DisplayLayoutMode::InternalOnly => {
                out.push(hypr(joined(e, ",disable")));
                out.push(hypr(joined(i, ",auto,auto,1")));
            },
            DisplayLayoutMode::Custom => {},
        }
    } else {
        let args: Vec<String> = match layout {
            DisplayLayoutMode::ExtendRight => vec![s("--output"), s(i), s("--auto"), s("--primary"), s("--output"), s(e), s("--auto"), s("--right-of"), s(i)],
            DisplayLayoutMode::ExtendLeft => vec![s("--output"), s(i), s("--auto"), s("--primary"), s("--output"), s(e), s("--auto"), s("--left-of"), s(i)],
            DisplayLayoutMode::Mirror => vec![s("--output"), s(i), s("--auto"), s("--primary"), s("--output"), s(e), s("--auto"), s("--same-as"), s(i)],
            DisplayLayoutMode::ExternalOnly => vec![s("--output"), s(e), s("--auto"), s("--primary"), s("--output"), s(i), s("--off")],
            DisplayLayoutMode::InternalOnly => vec![s("--output"), s(i), s("--auto"), s("--primary"), s("--output"), s(e), s("--off")],
            DisplayLayoutMode::Custom => Vec::new(),
        };
        if layout != DisplayLayoutMode::Custom {
            let c = command("xrandr", args);
            out.push(c);
            proof {
                let want = layout_plan(layout, internal@, external@, server_type@);
                assert(c.1@.map_values(|a: String| a@) =~= want[0].1);
            }
        }
    }
    assert(commands_view(out@) =~= layout_plan(layout, internal@, external@, server_type@));
    out
}

/// The names of the connected outputs, in order.
pub open spec fn connected_names(ds: Seq<DisplayNodeView>) -> Seq<Seq<char>>
    decreases ds.len(),
{
    if ds.len() == 0 {
        Seq::empty()
    } else if ds.last().is_connected {
        connected_names(ds.drop_last()).push(ds.last().name)
    } else {
        connected_names(ds.drop_last())
    }
}

/// Names of the connected outputs.
pub fn connected_output_names(displays: &[DisplayNode]) -> (r: Vec<String>)
    ensures
        r@.map_values(|n: String| n@) == connected_names(nodes_view(displays@)),
{
    let ghost nv = nodes_view(displays@);
    let mut out: Vec<String> = Vec::new();
    let mut i: usize = 0;
    while i < displays.len()
        invariant
            i <= displays@.len(),
            nv == nodes_view(displays@),
            out@.map_values(|n: String| n@) == connected_names(nv.subrange(0, i as int)),
        decreases displays@.len() - i,
    {
        assert(nv.subrange(0, i + 1).drop_last() =~= nv.subrange(0, i as int));
        assert(nv[i as int] == displays@[i as int]@);
        if displays[i].is_connected {
            let ghost before = out@;
            out.push(displays[i].name.clone());
            assert(out@.map_values(|n: String| n@) =~= before.map_values(|n: String| n@).push(displays@[i as int].name@));
        }
        i = i + 1;
    }
    assert(nv.subrange(0, i as int) =~= nv);
    out
}

/// The names of `a` that `b` does not hold, in the order of `a`.
pub open spec fn missing_from(a: Seq<Seq<char>>, b: Seq<Seq<char>>) -> Seq<Seq<char>> {
    a.filter(|n: Seq<char>| !b.contains(n))
}

fn holds(v: &Vec<String>, name: &String) -> (r: bool)
    ensures
        r == v@.map_values(|n: String| n@).contains(name@),
{
    let nv = chars_of(name.as_str());
    let ghost names = v@.map_values(|n: String| n@);
    let mut i: usize = 0;
    while i < v.len()
        invariant
            i <= v@.len(),
            names == v@.map_values(|n: String| n@),
            nv@ == name@,
            forall|j: int| 0 <= j < i ==> names[j] != name@,
        decreases v@.len() - i,
    {
        let wv = chars_of(v[i].as_str());
        if seq_eq(&wv, &nv) {
            assert(names[i as int] == name@);
            return true;
        }
        i = i + 1;
    }
    false
}

fn names_missing_from(a: &Vec<String>, b: &Vec<String>) -> (r: Vec<String>)
    ensures
        r@.map_values(|n: String| n@) == missing_from(a@.map_values(|n: String| n@), b@.map_values(|n: String| n@)),
{
    let ghost av = a@.map_values(|n: String| n@);
    let ghost bv = b@.map_values(|n: String| n@);
    let mut out: Vec<String> = Vec::new();
    let mut i: usize = 0;
    proof {
        reveal_with_fuel(Seq::filter, 1);
    }
    while i < a.len()
        invariant
            i <= a@.len(),
            av == a@.map_values(|n: String| n@),
            bv == b@.map_values(|n: String| n@),
            out@.map_values(|n: String| n@) == missing_from(av.subrange(0, i as int), bv),
        decreases a@.len() - i,
    {
        proof {
            reveal_with_fuel(Seq::filter, 1);
            assert(av.subrange(0, i + 1).drop_last() =~= av.subrange(0, i as int));
        }
        if !holds(b, &a[i]) {
            let ghost before = out@;
            out.push(a[i].clone());
            assert(out@.map_values(|n: String| n@) =~= before.map_values(|n: String| n@).push(av[i as int]));
        }
        i = i + 1;
    }
    assert(av.subrange(0, i as int) =~= av);
    out
}

/// What changed between two polls of the connected outputs.
pub struct HotplugChanges {
    /// Outputs connected since the last poll: the panel announces each and
    /// extends the desktop onto it.
    pub connected: Vec<String>,
    /// Outputs gone since the last poll.
    pub disconnected: Vec<String>,
}

/// Compares the connected outputs of two polls. On the first poll nothing
/// is reported.
pub fn hotplug_changes(previous: &Vec<String>, current: &Vec<String>, first_poll: bool) -> (r: HotplugChanges)
    ensures
        first_poll ==> r.connected@.len() == 0 && r.disconnected@.len() == 0,
        !first_poll ==> r.connected@.map_values(|n: String| n@) == missing_from(
            current@.map_values(|n: String| n@),
            previous@.map_values(|n: String| n@),
        ),
        !first_poll ==> r.disconnected@.map_values(|n: String| n@) == missing_from(
            previous@.map_values(|n: String| n@),
            current@.map_values(|n: String| n@),
        ),
{
    if first_poll {
        return HotplugChanges { connected: Vec::new(), disconnected: Vec::new() };
    }
    HotplugChanges {
        connected: names_missing_from(current, previous),
        disconnected: names_missing_from(previous, current),
    }
}

/// How often the displays are polled: the configured interval, but never
/// more often than every second.
pub fn display_poll_interval_ms(poll_ms: u64) -> (r: u64)
    ensures
        r == if poll_ms < 1000 { 1000 } else { poll_ms },
{
    if poll_ms < 1000 { 1000 } else { poll_ms }
}

/// The internal and the external display of a snapshot, when it has both
/// connected (the first of each kind).
pub open spec fn extend_pair(ds: Seq<DisplayNodeView>) -> Option<(Seq<char>, Seq<char>)> {
    if (exists|i: int| first_plugged(ds, true, i)) && (exists|j: int| first_plugged(ds, false, j)) {
        let i = choose|i: int| first_plugged(ds, true, i);
        let j = choose|j: int| first_plugged(ds, false, j);
        Some((ds[i].name, ds[j].name))
    } else {
        None
    }
}

/// One poll of the displays: which outputs came and went since the last
/// poll (nothing on the first), and, when an output came and the snapshot
/// has both an internal and an external display, the commands that extend
/// the desktop to the right onto the external one. The commands are run
/// once for each output that came.
pub fn hotplug_step(previous: &Vec<String>, snap: &DisplaySnapshot, first_poll: bool) -> (r: (HotplugChanges, Option<Vec<(String, Vec<String>)>>, Vec<String>))
    ensures
        r.2@.map_values(|n: String| n@) == connected_names(nodes_view(snap.displays@)),
        first_poll ==> r.0.connected@.len() == 0 && r.0.disconnected@.len() == 0,
        !first_poll ==> r.0.connected@.map_values(|n: String| n@) == missing_from(
            connected_names(nodes_view(snap.displays@)),
            previous@.map_values(|n: String| n@),
        ),
        !first_poll ==> r.0.disconnected@.map_values(|n: String| n@) == missing_from(
            previous@.map_values(|n: String| n@),
            connected_names(nodes_view(snap.displays@)),
        ),
        r.1 is Some <==> (r.0.connected@.len() > 0 && extend_pair(nodes_view(snap.displays@)) is Some),
        match r.1 {
            Some(cmds) => extend_pair(nodes_view(snap.displays@)) matches Some(pair)
                && commands_view(cmds@) == layout_plan(DisplayLayoutMode::ExtendRight, pair.0, pair.1, snap.server_type@),
            None => true,
        },
{
    let current = connected_output_names(snap.displays.as_slice());
    let changes = hotplug_changes(previous, &current, first_poll);
    let ghost ds = nodes_view(snap.displays@);
    let cmds = if changes.connected.len() > 0 {
        match (snap.internal_display(), snap.external_display()) {
            (Some(i), Some(e)) => {
                proof {
                    let a = choose|a: int| first_plugged(ds, true, a) && *i == snap.displays@[a];
                    let b = choose|b: int| first_plugged(ds, false, b) && *e == snap.displays@[b];
                    lemma_first_plugged_unique(ds, true, a);
                    lemma_first_plugged_unique(ds, false, b);
                    assert(ds[a].name == i.name@);
                    assert(ds[b].name == e.name@);
                }
                Some(layout_commands(DisplayLayoutMode::ExtendRight, i.name.as_str(), e.name.as_str(), snap.server_type.as_str()))
            },
            _ => None,
        }
    } else {
        None
    };
    (changes, cmds, current)
}

proof fn lemma_first_plugged_unique(ds: Seq<DisplayNodeView>, internal: bool, a: int)
    requires
        first_plugged(ds, internal, a),
    ensures
        forall|b: int| first_plugged(ds, internal, b) ==> b == a,
        (choose|c: int| first_plugged(ds, internal, c)) == a,
{
    assert forall|b: int| first_plugged(ds, internal, b) implies b == a by {
        if b < a {
            assert(!(ds[b].is_connected && ds[b].is_internal == internal));
        } else if a < b {
            assert(!(ds[a].is_connected && ds[a].is_internal == internal));
        }
    }
}

} // verus!
