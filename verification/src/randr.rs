//! Readers of the display servers' reports: `xrandr --query`, `wlr-randr`
//! and `hyprctl monitors all`, each turned into a display snapshot.

use vstd::prelude::*;
use crate::display::{
    layout_of, mode_opt_view, modes_view, node_opt_view, nodes_view, plugged, snapshot_of,
    DisplayMode, DisplayModeView, DisplayNode, DisplayNodeView, DisplaySnapshot,
};
use crate::text::{
    chars_of, contains_str, has_infix, has_prefix, i32_of, is_digit, lines, parse_i32_chars,
    parse_u32_chars, split_lines, split_once, split_once_str, split_words, starts_with_str,
    string_of, trim, trim_of, u32_of, words, eq_str, copy_range, has_suffix, ends_with_str,
};

verus! {

/// Connector names of a laptop's own panel.
pub open spec fn is_internal_name(n: Seq<char>) -> bool {
    has_prefix(n, "eDP"@) || has_prefix(n, "LVDS"@) || has_prefix(n, "DSI"@)
}

fn internal_name(n: &[char]) -> (r: bool)
    ensures
        r == is_internal_name(n@),
{
    starts_with_str(n, "eDP") || starts_with_str(n, "LVDS") || starts_with_str(n, "DSI")
}

/// A number read as `i32`, zero when it does not read.
pub open spec fn i32_or_zero(s: Seq<char>) -> i32 {
    match i32_of(s) {
        Some(v) => v,
        None => 0,
    }
}

/// A number read as `u32`, zero when it does not read.
pub open spec fn u32_or_zero(s: Seq<char>) -> u32 {
    match u32_of(s) {
        Some(v) => v,
        None => 0,
    }
}

fn read_i32(s: &[char]) -> (r: i32)
    ensures
        r == i32_or_zero(s@),
{
    match parse_i32_chars(s) {
        Some(v) => v,
        None => 0,
    }
}

fn read_u32(s: &[char]) -> (r: u32)
    ensures
        r == u32_or_zero(s@),
{
    match parse_u32_chars(s) {
        Some(v) => v,
        None => 0,
    }
}

/// `outs` with `cur` appended when there is one.
pub open spec fn push_some(outs: Seq<DisplayNodeView>, cur: Option<DisplayNodeView>) -> Seq<
    DisplayNodeView,
> {
    match cur {
        Some(d) => outs.push(d),
        None => outs,
    }
}

/// `d` with mode `m` added to its supported modes, and made its current
/// mode when `m` is current.
pub open spec fn with_mode(d: DisplayNodeView, m: DisplayModeView) -> DisplayNodeView {
    DisplayNodeView {
        supported_modes: d.supported_modes.push(m),
        current_mode: if m.is_current {
            Some(m)
        } else {
            d.current_mode
        },
        ..d
    }
}

/// Adds a mode to an output, making it the current one when it is marked so.
fn add_mode(d: &mut DisplayNode, m: DisplayMode)
    ensures
        final(d)@ == with_mode(old(d)@, m@),
{
    if m.is_current {
        d.current_mode = Some(m.duplicate());
    }
    let ghost before = d.supported_modes@;
    d.supported_modes.push(m);
    proof {
        assert(modes_view(d.supported_modes@) =~= modes_view(before).push(m@));
    }
    assert(d@ =~= with_mode(old(d)@, m@));
}

/// The output reported after a header: connected, not primary, at the
/// origin, unrotated, with no modes yet.
pub open spec fn fresh_output(name: Seq<char>, active: bool) -> DisplayNodeView {
    DisplayNodeView {
        name: name,
        is_connected: true,
        is_primary: false,
        is_active: active,
        current_mode: None,
        supported_modes: Seq::empty(),
        pos_x: 0,
        pos_y: 0,
        rotation: "normal"@,
        is_internal: is_internal_name(name),
    }
}

fn new_output(name: &[char], active: bool) -> (r: DisplayNode)
    ensures
        r@ == fresh_output(name@, active),
{
    proof {
        reveal_strlit("normal");
    }
    let r = DisplayNode {
        name: string_of(name),
        is_connected: true,
        is_primary: false,
        is_active: active,
        current_mode: None,
        supported_modes: Vec::new(),
        pos_x: 0,
        pos_y: 0,
        rotation: String::from_str("normal"),
        is_internal: internal_name(name),
    };
    assert(modes_view(r.supported_modes@) =~= Seq::<DisplayModeView>::empty());
    assert(r@ =~= fresh_output(name@, active));
    r
}

// ---------------------------------------------------------------------
// xrandr --query
// ---------------------------------------------------------------------

/// The position that a geometry token `WxH+X+Y` gives.
pub open spec fn geometry_of(tok: Seq<char>) -> Option<(i32, i32)> {
    if has_infix(tok, "x"@) && has_infix(tok, "+"@) {
        match split_once(tok, "+"@) {
            Some(p) => match split_once(p.1, "+"@) {
                Some(q) => Some((i32_or_zero(q.0), i32_or_zero(q.1))),
                None => None,
            },
            None => None,
        }
    } else {
        None
    }
}

fn geometry_token(tok: &[char]) -> (r: Option<(i32, i32)>)
    ensures
        r == geometry_of(tok@),
{
    if !(contains_str(tok, "x") && contains_str(tok, "+")) {
        return None;
    }
    match split_once_str(tok, "+") {
        Some(p) => match split_once_str(&p.1, "+") {
            Some(q) => Some((read_i32(&q.0), read_i32(&q.1))),
            None => None,
        },
        None => None,
    }
}

/// The position of the last geometry token.
pub open spec fn last_geometry(toks: Seq<Seq<char>>) -> Option<(i32, i32)>
    decreases toks.len(),
{
    if toks.len() == 0 {
        None
    } else {
        match geometry_of(toks.last()) {
            Some(g) => Some(g),
            None => last_geometry(toks.drop_last()),
        }
    }
}

pub open spec fn is_rotation_word(t: Seq<char>) -> bool {
    t == "left"@ || t == "right"@ || t == "inverted"@
}

/// The last rotation word, `normal` when there is none.
pub open spec fn last_rotation(toks: Seq<Seq<char>>) -> Seq<char>
    decreases toks.len(),
{
    if toks.len() == 0 {
        "normal"@
    } else if is_rotation_word(toks.last()) {
        toks.last()
    } else {
        last_rotation(toks.drop_last())
    }
}

/// An output header line of `xrandr`: the name, `connected` or not,
/// `primary` anywhere on the line, and, among the words after the second,
/// the last geometry (which makes the output active) and the last rotation.
pub open spec fn xrandr_header(line: Seq<char>) -> Option<DisplayNodeView> {
    let t = words(line);
    if t.len() < 2 {
        None
    } else {
        let g = last_geometry(t.skip(2));
        Some(
            DisplayNodeView {
                name: t[0],
                is_connected: t[1] == "connected"@,
                is_primary: has_infix(line, "primary"@),
                is_active: g is Some,
                current_mode: None,
                supported_modes: Seq::empty(),
                pos_x: match g {
                    Some(p) => p.0,
                    None => 0,
                },
                pos_y: match g {
                    Some(p) => p.1,
                    None => 0,
                },
                rotation: last_rotation(t.skip(2)),
                is_internal: is_internal_name(t[0]),
            },
        )
    }
}

fn parse_display_header_line(line: &[char]) -> (r: Option<DisplayNode>)
    ensures
        node_opt_view(r) == xrandr_header(line@),
{
    let t = split_words(line);
    let ghost tw = words(line@);
    if t.len() < 2 {
        return None;
    }
    proof {
        reveal_strlit("normal");
        reveal_strlit("left");
        reveal_strlit("right");
        reveal_strlit("inverted");
        assert(tw.skip(2).subrange(0, 0) =~= Seq::<Seq<char>>::empty());
    }
    let mut geo: Option<(i32, i32)> = None;
    let mut rot: Vec<char> = chars_of("normal");
    let mut k: usize = 2;
    while k < t.len()
        invariant
            2 <= k <= t@.len(),
            t@.len() == tw.len(),
            forall|i: int| 0 <= i < t@.len() ==> #[trigger] t@[i]@ == tw[i],
            geo == last_geometry(tw.skip(2).subrange(0, k - 2)),
            rot@ == last_rotation(tw.skip(2).subrange(0, k - 2)),
        decreases t@.len() - k,
    {
        let ghost pre = tw.skip(2).subrange(0, k - 2);
        let ghost post = tw.skip(2).subrange(0, k - 1);
        proof {
            assert(post.drop_last() =~= pre);
            assert(post.last() == tw[k as int]);
            assert(t@[k as int]@ == tw[k as int]);
        }
        let tok = &t[k];
        match geometry_token(tok) {
            Some(g) => {
                geo = Some(g);
            },
            None => {},
        }
        if eq_str(tok, "left") || eq_str(tok, "right") || eq_str(tok, "inverted") {
            rot = copy_chars(tok);
        }
        k = k + 1;
    }
    proof {
        assert(tw.skip(2).subrange(0, k - 2) =~= tw.skip(2));
        assert(t@[0]@ == tw[0] && t@[1]@ == tw[1]);
    }
    let name = &t[0];
    let (active, px, py) = match geo {
        Some(g) => (true, g.0, g.1),
        None => (false, 0i32, 0i32),
    };
    let r = DisplayNode {
        name: string_of(name),
        is_connected: eq_str(&t[1], "connected"),
        is_primary: contains_str(line, "primary"),
        is_active: active,
        current_mode: None,
        supported_modes: Vec::new(),
        pos_x: px,
        pos_y: py,
        rotation: string_of(&rot),
        is_internal: internal_name(name),
    };
    proof {
        assert(modes_view(r.supported_modes@) =~= Seq::<DisplayModeView>::empty());
        assert(r@ =~= xrandr_header(line@)->0);
    }
    Some(r)
}

fn copy_chars(v: &[char]) -> (r: Vec<char>)
    ensures
        r@ == v@,
{
    let mut r: Vec<char> = Vec::new();
    let mut i: usize = 0;
    while i < v.len()
        invariant
            i <= v.len(),
            r@ == v@.subrange(0, i as int),
        decreases v.len() - i,
    {
        r.push(v[i]);
        i = i + 1;
        assert(r@ =~= v@.subrange(0, i as int));
    }
    assert(r@ =~= v@);
    r
}

/// The digits and dots of a rate word (`60.00*+` reads `60.00`).
pub open spec fn rate_chars(s: Seq<char>) -> Seq<char>
    decreases s.len(),
{
    if s.len() == 0 {
        Seq::empty()
    } else if is_digit(s.last()) || s.last() == '.' {
        rate_chars(s.drop_last()).push(s.last())
    } else {
        rate_chars(s.drop_last())
    }
}

fn keep_rate_chars(s: &[char]) -> (r: Vec<char>)
    ensures
        r@ == rate_chars(s@),
{
    let mut r: Vec<char> = Vec::new();
    let mut i: usize = 0;
    while i < s.len()
        invariant
            i <= s.len(),
            r@ == rate_chars(s@.subrange(0, i as int)),
        decreases s.len() - i,
    {
        assert(s@.subrange(0, i + 1).drop_last() =~= s@.subrange(0, i as int));
        let c = s[i];
        if (c >= '0' && c <= '9') || c == '.' {
            r.push(c);
        }
        i = i + 1;
    }
    assert(s@.subrange(0, i as int) =~= s@);
    r
}

/// A mode line of `xrandr`: `WxH` then, optionally, a rate word whose `*`
/// marks the current mode and `+` the preferred one. Width and height must
/// both read as numbers.
pub open spec fn xrandr_mode(line: Seq<char>) -> Option<DisplayModeView> {
    let t = words(line);
    if t.len() == 0 {
        None
    } else {
        match split_once(t[0], "x"@) {
            Some(wh) => if u32_of(wh.0) is Some && u32_of(wh.1) is Some {
                Some(
                    DisplayModeView {
                        width: u32_of(wh.0)->0,
                        height: u32_of(wh.1)->0,
                        rate_text: if t.len() > 1 {
                            rate_chars(t[1])
                        } else {
                            Seq::empty()
                        },
                        is_current: t.len() > 1 && has_infix(t[1], "*"@),
                        is_preferred: t.len() > 1 && has_infix(t[1], "+"@),
                    },
                )
            } else {
                None
            },
            None => None,
        }
    }
}

fn parse_display_mode_line(line: &[char]) -> (r: Option<DisplayMode>)
    ensures
        mode_opt_view(r) == xrandr_mode(line@),
{
    let t = split_words(line);
    if t.len() == 0 {
        return None;
    }
    let wh = match split_once_str(&t[0], "x") {
        Some(p) => p,
        None => return None,
    };
    let w = match parse_u32_chars(&wh.0) {
        Some(v) => v,
        None => return None,
    };
    let h = match parse_u32_chars(&wh.1) {
        Some(v) => v,
        None => return None,
    };
    let (rate, cur, pref) = if t.len() > 1 {
        (keep_rate_chars(&t[1]), contains_str(&t[1], "*"), contains_str(&t[1], "+"))
    } else {
        (Vec::new(), false, false)
    };
    let m = DisplayMode {
        width: w,
        height: h,
        rate_text: string_of(&rate),
        is_current: cur,
        is_preferred: pref,
    };
    assert(m@ =~= xrandr_mode(line@)->0);
    Some(m)
}

/// `xrandr` lines that carry nothing: the `Screen` summary and blank lines.
pub open spec fn xrandr_skipped(line: Seq<char>) -> bool {
    has_prefix(trim(line), "Screen "@) || trim(line).len() == 0
}

/// An unindented line naming a connection state starts a new output.
pub open spec fn xrandr_starts_output(line: Seq<char>) -> bool {
    &&& !has_prefix(line, "   "@)
    &&& !has_prefix(line, "\t"@)
    &&& (has_infix(line, "connected"@) || has_infix(line, "disconnected"@))
}

/// One line of `xrandr --query` read: the outputs finished so far, and the
/// output being read.
pub open spec fn xrandr_step(
    st: (Seq<DisplayNodeView>, Option<DisplayNodeView>),
    line: Seq<char>,
) -> (Seq<DisplayNodeView>, Option<DisplayNodeView>) {
    if xrandr_skipped(line) {
        st
    } else if xrandr_starts_output(line) {
        (push_some(st.0, st.1), xrandr_header(line))
    } else {
        match st.1 {
            Some(d) => match xrandr_mode(line) {
                Some(m) => (st.0, Some(with_mode(d, m))),
                None => st,
            },
            None => st,
        }
    }
}

pub open spec fn xrandr_fold(ls: Seq<Seq<char>>) -> (Seq<DisplayNodeView>, Option<DisplayNodeView>)
    decreases ls.len(),
{
    if ls.len() == 0 {
        (Seq::empty(), None)
    } else {
        xrandr_step(xrandr_fold(ls.drop_last()), ls.last())
    }
}

/// The outputs that `xrandr --query` reports, in order.
pub open spec fn xrandr_outputs(text: Seq<char>) -> Seq<DisplayNodeView> {
    let f = xrandr_fold(lines(text));
    push_some(f.0, f.1)
}

/// The name of the last primary output.
pub open spec fn last_primary(ds: Seq<DisplayNodeView>) -> Option<Seq<char>>
    decreases ds.len(),
{
    if ds.len() == 0 {
        None
    } else if ds.last().is_primary {
        Some(ds.last().name)
    } else {
        last_primary(ds.drop_last())
    }
}

pub open spec fn name_view(n: Option<String>) -> Option<Seq<char>> {
    match n {
        Some(s) => Some(s@),
        None => None,
    }
}

/// Finishes an output: it joins the list, and names the primary when it is one.
fn finish_output(done: &mut Vec<DisplayNode>, primary: &mut Option<String>, d: DisplayNode)
    requires
        name_view(*old(primary)) == last_primary(nodes_view(old(done)@)),
    ensures
        nodes_view(final(done)@) == nodes_view(old(done)@).push(d@),
        name_view(*final(primary)) == last_primary(nodes_view(final(done)@)),
{
    if d.is_primary {
        *primary = Some(d.name.clone());
    }
    let ghost before = nodes_view(done@);
    done.push(d);
    proof {
        assert(nodes_view(done@) =~= before.push(d@));
        assert(nodes_view(done@).drop_last() =~= before);
    }
}

/// Reads the report of `xrandr --query`.
pub fn parse_xrandr_query(output: &str) -> (r: DisplaySnapshot)
    ensures
        nodes_view(r.displays@) == xrandr_outputs(output@),
        name_view(r.primary_name) == last_primary(xrandr_outputs(output@)),
        r.connected_count == plugged(xrandr_outputs(output@)).len(),
        r.current_layout == layout_of(xrandr_outputs(output@)),
        r.server_type@ == ""@,
{
    let tv = chars_of(output);
    let ls = split_lines(&tv);
    let ghost lv = lines(output@);
    let mut done: Vec<DisplayNode> = Vec::new();
    let mut cur: Option<DisplayNode> = None;
    let mut primary: Option<String> = None;
    let mut i: usize = 0;
    proof {
        assert(lv.subrange(0, 0) =~= Seq::<Seq<char>>::empty());
        assert(nodes_view(done@) =~= Seq::<DisplayNodeView>::empty());
    }
    while i < ls.len()
        invariant
            i <= ls@.len(),
            ls@.len() == lv.len(),
            forall|k: int| 0 <= k < ls@.len() ==> #[trigger] ls@[k]@ == lv[k],
            nodes_view(done@) == xrandr_fold(lv.subrange(0, i as int)).0,
            node_opt_view(cur) == xrandr_fold(lv.subrange(0, i as int)).1,
            name_view(primary) == last_primary(nodes_view(done@)),
        decreases ls@.len() - i,
    {
        let line = &ls[i];
        proof {
            assert(lv.subrange(0, i + 1).drop_last() =~= lv.subrange(0, i as int));
            assert(lv.subrange(0, i + 1).last() == lv[i as int]);
            assert(line@ == lv[i as int]);
        }
        let tl = trim_of(line);
        if starts_with_str(&tl, "Screen ") || tl.len() == 0 {
        } else if !starts_with_str(line, "   ") && !starts_with_str(line, "\t") && (contains_str(
            line,
            "connected",
        ) || contains_str(line, "disconnected")) {
            let taken = cur;
            match taken {
                Some(d) => finish_output(&mut done, &mut primary, d),
                None => {},
            }
            cur = parse_display_header_line(line);
        } else {
            let taken = cur;
            match taken {
                Some(mut d) => {
                    match parse_display_mode_line(line) {
                        Some(m) => add_mode(&mut d, m),
                        None => {},
                    }
                    cur = Some(d);
                },
                None => {
                    cur = None;
                },
            }
        }
        i = i + 1;
    }
    proof {
        assert(lv.subrange(0, i as int) =~= lv);
    }
    let taken = cur;
    match taken {
        Some(d) => finish_output(&mut done, &mut primary, d),
        None => {},
    }
    snapshot_of(done, primary)
}

/// `ds` with its first output made the primary one.
pub open spec fn first_primary(ds: Seq<DisplayNodeView>) -> Seq<DisplayNodeView> {
    if ds.len() == 0 {
        ds
    } else {
        ds.update(0, DisplayNodeView { is_primary: true, ..ds[0] })
    }
}

/// The name of the first output.
pub open spec fn first_name(ds: Seq<DisplayNodeView>) -> Option<Seq<char>> {
    if ds.len() == 0 {
        None
    } else {
        Some(ds[0].name)
    }
}

/// Finishes an output of a report whose first output is the primary one.
fn finish_listed(done: &mut Vec<DisplayNode>, d: DisplayNode)
    requires
        nodes_view(old(done)@) == first_primary(nodes_view(old(done)@)),
    ensures
        nodes_view(final(done)@) == first_primary(nodes_view(old(done)@).push(d@)),
{
    let ghost before = nodes_view(done@);
    let ghost dv = d@;
    let mut d = d;
    if done.len() == 0 {
        d.is_primary = true;
    }
    done.push(d);
    proof {
        if before.len() == 0 {
            assert(nodes_view(done@) =~= first_primary(before.push(dv)));
        } else {
            assert(nodes_view(done@) =~= before.push(dv));
            assert(first_primary(before.push(dv)) =~= first_primary(before).push(dv));
        }
    }
}

/// The snapshot of a report whose first output is the primary one.
fn listed_snapshot(done: Vec<DisplayNode>) -> (r: DisplaySnapshot)
    ensures
        r.displays@ == done@,
        name_view(r.primary_name) == first_name(nodes_view(done@)),
        r.connected_count == plugged(nodes_view(done@)).len(),
        r.current_layout == layout_of(nodes_view(done@)),
        r.server_type@ == ""@,
{
    let primary = if done.len() > 0 {
        assert(nodes_view(done@)[0] == done@[0]@);
        Some(done[0].name.clone())
    } else {
        None
    };
    snapshot_of(done, primary)
}

// ---------------------------------------------------------------------
// wlr-randr
// ---------------------------------------------------------------------

/// An unindented, non-empty line of `wlr-randr` starts a new output.
pub open spec fn wlr_starts_output(line: Seq<char>) -> bool {
    !has_prefix(line, " "@) && !has_prefix(line, "\t"@) && line.len() > 0
}

/// Every line that starts an output names it.
pub open spec fn wlr_report_named(text: Seq<char>) -> bool {
    forall|k: int|
        0 <= k < lines(text).len() && wlr_starts_output(#[trigger] lines(text)[k]) ==> words(
            lines(text)[k],
        ).len() > 0
}

/// `Position: X,Y`: exactly one comma, both sides read as numbers (zero
/// when they do not read).
pub open spec fn wlr_position(rest: Seq<char>) -> Option<(i32, i32)> {
    match split_once(rest, ","@) {
        Some(p) => if has_infix(p.1, ","@) {
            None
        } else {
            Some((i32_or_zero(trim(p.0)), i32_or_zero(trim(p.1))))
        },
        None => None,
    }
}

/// The text before the first space, or all of it.
pub open spec fn first_piece(s: Seq<char>) -> Seq<char> {
    match split_once(s, " "@) {
        Some(p) => p.0,
        None => s,
    }
}

/// A mode line `WxH px, RATE Hz (preferred, current)`: exactly one `px,`,
/// exactly one `x` in the size.
pub open spec fn wlr_mode(t: Seq<char>) -> Option<DisplayModeView> {
    match split_once(t, "px,"@) {
        Some(p) => if has_infix(p.1, "px,"@) {
            None
        } else {
            match split_once(trim(p.0), "x"@) {
                Some(wh) => if has_infix(wh.1, "x"@) {
                    None
                } else {
                    let rp = trim(p.1);
                    Some(
                        DisplayModeView {
                            width: u32_or_zero(wh.0),
                            height: u32_or_zero(wh.1),
                            rate_text: first_piece(rp),
                            is_current: has_infix(rp, "current"@),
                            is_preferred: has_infix(rp, "preferred"@),
                        },
                    )
                },
                None => None,
            }
        },
        None => None,
    }
}

/// An indented line of `wlr-randr` applied to the output being read.
pub open spec fn wlr_line(d: DisplayNodeView, line: Seq<char>) -> DisplayNodeView {
    let t = trim(line);
    if has_prefix(t, "Enabled: yes"@) {
        DisplayNodeView { is_active: true, ..d }
    } else if has_prefix(t, "Position:"@) {
        match wlr_position(t.skip(9)) {
            Some(p) => DisplayNodeView { pos_x: p.0, pos_y: p.1, ..d },
            None => d,
        }
    } else if has_prefix(t, "Transform:"@) {
        DisplayNodeView { rotation: trim(t.skip(10)), ..d }
    } else if has_suffix_hz(t) {
        match wlr_mode(t) {
            Some(m) => with_mode(d, m),
            None => d,
        }
    } else {
        d
    }
}

/// A line that reads as a mode: it ends in `Hz` or holds `Hz (`.
pub open spec fn has_suffix_hz(t: Seq<char>) -> bool {
    has_suffix(t, "Hz"@) || has_infix(t, "Hz ("@)
}

pub open spec fn wlr_step(
    st: (Seq<DisplayNodeView>, Option<DisplayNodeView>),
    line: Seq<char>,
) -> (Seq<DisplayNodeView>, Option<DisplayNodeView>) {
    if wlr_starts_output(line) {
        (push_some(st.0, st.1), Some(fresh_output(words(line)[0], false)))
    } else {
        match st.1 {
            Some(d) => (st.0, Some(wlr_line(d, line))),
            None => st,
        }
    }
}

pub open spec fn wlr_fold(ls: Seq<Seq<char>>) -> (Seq<DisplayNodeView>, Option<DisplayNodeView>)
    decreases ls.len(),
{
    if ls.len() == 0 {
        (Seq::empty(), None)
    } else {
        wlr_step(wlr_fold(ls.drop_last()), ls.last())
    }
}

/// The outputs that `wlr-randr` reports, in order, the first one primary.
pub open spec fn wlr_outputs(text: Seq<char>) -> Seq<DisplayNodeView> {
    let f = wlr_fold(lines(text));
    first_primary(push_some(f.0, f.1))
}

fn wlr_apply(d: &mut DisplayNode, line: &[char])
    ensures
        final(d)@ == wlr_line(old(d)@, line@),
{
    let t = trim_of(line);
    proof {
        reveal_strlit("Enabled: yes");
        reveal_strlit("Position:");
        reveal_strlit("Transform:");
    }
    if starts_with_str(&t, "Enabled: yes") {
        d.is_active = true;
        assert(d@ =~= wlr_line(old(d)@, line@));
    } else if starts_with_str(&t, "Position:") {
        let rest = copy_range(&t, 9, t.len());
        assert(rest@ =~= t@.skip(9));
        match split_once_str(&rest, ",") {
            Some(p) => {
                if !contains_str(&p.1, ",") {
                    let a = trim_of(&p.0);
                    let b = trim_of(&p.1);
                    d.pos_x = read_i32(&a);
                    d.pos_y = read_i32(&b);
                }
            },
            None => {},
        }
        assert(d@ =~= wlr_line(old(d)@, line@));
    } else if starts_with_str(&t, "Transform:") {
        let rest = copy_range(&t, 10, t.len());
        assert(rest@ =~= t@.skip(10));
        let r = trim_of(&rest);
        d.rotation = string_of(&r);
        assert(d@ =~= wlr_line(old(d)@, line@));
    } else if ends_with_str(&t, "Hz") || contains_str(&t, "Hz (") {
        match read_wlr_mode(&t) {
            Some(m) => add_mode(d, m),
            None => {},
        }
    }
}

fn read_wlr_mode(t: &[char]) -> (r: Option<DisplayMode>)
    ensures
        mode_opt_view(r) == wlr_mode(t@),
{
    let p = match split_once_str(t, "px,") {
        Some(p) => p,
        None => return None,
    };
    if contains_str(&p.1, "px,") {
        return None;
    }
    let size = trim_of(&p.0);
    let wh = match split_once_str(&size, "x") {
        Some(q) => q,
        None => return None,
    };
    if contains_str(&wh.1, "x") {
        return None;
    }
    let rp = trim_of(&p.1);
    let rate = match split_once_str(&rp, " ") {
        Some(q) => q.0,
        None => copy_chars(&rp),
    };
    let m = DisplayMode {
        width: read_u32(&wh.0),
        height: read_u32(&wh.1),
        rate_text: string_of(&rate),
        is_current: contains_str(&rp, "current"),
        is_preferred: contains_str(&rp, "preferred"),
    };
    assert(m@ =~= wlr_mode(t@)->0);
    Some(m)
}

/// Reads the report of `wlr-randr`.
pub fn parse_wlr_randr(output: &str) -> (r: DisplaySnapshot)
    requires
        wlr_report_named(output@),
    ensures
        nodes_view(r.displays@) == wlr_outputs(output@),
        name_view(r.primary_name) == first_name(wlr_outputs(output@)),
        r.connected_count == plugged(wlr_outputs(output@)).len(),
        r.current_layout == layout_of(wlr_outputs(output@)),
        r.server_type@ == ""@,
{
    let tv = chars_of(output);
    let ls = split_lines(&tv);
    let ghost lv = lines(output@);
    let mut done: Vec<DisplayNode> = Vec::new();
    let mut cur: Option<DisplayNode> = None;
    let mut i: usize = 0;
    proof {
        reveal_strlit(" ");
        reveal_strlit("\t");
        assert(lv.subrange(0, 0) =~= Seq::<Seq<char>>::empty());
        assert(nodes_view(done@) =~= Seq::<DisplayNodeView>::empty());
    }
    while i < ls.len()
        invariant
            i <= ls@.len(),
            ls@.len() == lv.len(),
            lv == lines(output@),
            wlr_report_named(output@),
            forall|k: int| 0 <= k < ls@.len() ==> #[trigger] ls@[k]@ == lv[k],
            nodes_view(done@) == first_primary(wlr_fold(lv.subrange(0, i as int)).0),
            nodes_view(done@) == first_primary(nodes_view(done@)),
            node_opt_view(cur) == wlr_fold(lv.subrange(0, i as int)).1,
        decreases ls@.len() - i,
    {
        let line = &ls[i];
        proof {
            assert(lv.subrange(0, i + 1).drop_last() =~= lv.subrange(0, i as int));
            assert(lv.subrange(0, i + 1).last() == lv[i as int]);
            assert(line@ == lv[i as int]);
        }
        if !starts_with_str(line, " ") && !starts_with_str(line, "\t") && line.len() > 0 {
            let taken = cur;
            match taken {
                Some(d) => {
                    proof {
                        lemma_first_primary_push(wlr_fold(lv.subrange(0, i as int)).0, d@);
                    }
                    finish_listed(&mut done, d);
                },
                None => {},
            }
            let t = split_words(line);
            proof {
                assert(wlr_starts_output(lv[i as int]));
                assert(words(lv[i as int]).len() > 0);
                assert(t@[0]@ == words(line@)[0]);
            }
            cur = Some(new_output(&t[0], false));
        } else {
            let taken = cur;
            match taken {
                Some(mut d) => {
                    wlr_apply(&mut d, line);
                    cur = Some(d);
                },
                None => {
                    cur = None;
                },
            }
        }
        i = i + 1;
    }
    proof {
        assert(lv.subrange(0, i as int) =~= lv);
    }
    let taken = cur;
    match taken {
        Some(d) => {
            proof {
                lemma_first_primary_push(wlr_fold(lv).0, d@);
            }
            finish_listed(&mut done, d);
        },
        None => {},
    }
    assert(nodes_view(done@) =~= wlr_outputs(output@));
    listed_snapshot(done)
}

/// Marking the first output primary commutes with appending another.
proof fn lemma_first_primary_push(ds: Seq<DisplayNodeView>, d: DisplayNodeView)
    ensures
        first_primary(ds.push(d)) == if ds.len() == 0 {
            first_primary(seq![d])
        } else {
            first_primary(ds).push(d)
        },
{
    if ds.len() == 0 {
        assert(ds.push(d) =~= seq![d]);
    } else {
        assert(first_primary(ds.push(d)) =~= first_primary(ds).push(d));
    }
}

// ---------------------------------------------------------------------
// hyprctl monitors all
// ---------------------------------------------------------------------

/// A mode `WxH@RATE` from an `availableModes:` list.
pub open spec fn listed_mode(m: Seq<char>) -> Option<DisplayModeView> {
    match split_once(m, "@"@) {
        Some(q) => match split_once(q.0, "x"@) {
            Some(wh) => Some(
                DisplayModeView {
                    width: u32_or_zero(wh.0),
                    height: u32_or_zero(wh.1),
                    rate_text: q.1,
                    is_current: false,
                    is_preferred: false,
                },
            ),
            None => None,
        },
        None => None,
    }
}

/// The modes that a list of `WxH@RATE` words gives, in order.
pub open spec fn listed_modes(ws: Seq<Seq<char>>) -> Seq<DisplayModeView>
    decreases ws.len(),
{
    if ws.len() == 0 {
        Seq::empty()
    } else {
        match listed_mode(ws.last()) {
            Some(m) => listed_modes(ws.drop_last()).push(m),
            None => listed_modes(ws.drop_last()),
        }
    }
}

/// The current mode and position line `WxH@RATE at XxY`: the mode, when
/// its parts split, becomes current (and preferred); the position, when it
/// splits, is read.
pub open spec fn hypr_at_line(d: DisplayNodeView, t: Seq<char>) -> DisplayNodeView {
    match split_once(t, " at "@) {
        Some(p) => {
            let d1 = match split_once(p.0, "@"@) {
                Some(q) => match split_once(q.0, "x"@) {
                    Some(wh) => with_mode(
                        d,
                        DisplayModeView {
                            width: u32_or_zero(wh.0),
                            height: u32_or_zero(wh.1),
                            rate_text: q.1,
                            is_current: true,
                            is_preferred: true,
                        },
                    ),
                    None => d,
                },
                None => d,
            };
            match split_once(p.1, "x"@) {
                Some(xy) => DisplayNodeView { pos_x: i32_or_zero(xy.0), pos_y: i32_or_zero(xy.1), ..d1 },
                None => d1,
            }
        },
        None => d,
    }
}

/// The rotation that a `transform:` value names.
pub open spec fn hypr_rotation(v: Seq<char>) -> Seq<char> {
    if v == "1"@ {
        "left"@
    } else if v == "2"@ {
        "inverted"@
    } else if v == "3"@ {
        "right"@
    } else {
        "normal"@
    }
}

/// A line of a monitor's block applied to it.
pub open spec fn hypr_line(d: DisplayNodeView, line: Seq<char>) -> DisplayNodeView {
    let t = trim(line);
    if has_infix(t, " at "@) && has_infix(t, "@"@) && has_infix(t, "x"@) {
        hypr_at_line(d, t)
    } else if has_prefix(t, "availableModes:"@) {
        DisplayNodeView {
            supported_modes: d.supported_modes + listed_modes(words(trim(t.skip(15)))),
            ..d
        }
    } else if has_prefix(t, "disabled: true"@) || has_prefix(t, "disabled: yes"@) {
        DisplayNodeView { is_active: false, ..d }
    } else if has_prefix(t, "transform:"@) {
        DisplayNodeView { rotation: hypr_rotation(trim(t.skip(10))), ..d }
    } else {
        d
    }
}

pub open spec fn hypr_step(
    st: (Seq<DisplayNodeView>, Option<DisplayNodeView>),
    line: Seq<char>,
) -> (Seq<DisplayNodeView>, Option<DisplayNodeView>) {
    if has_prefix(line, "Monitor "@) {
        let t = words(line);
        (
            push_some(st.0, st.1),
            if t.len() >= 2 {
                Some(fresh_output(t[1], true))
            } else {
                None
            },
        )
    } else {
        match st.1 {
            Some(d) => (st.0, Some(hypr_line(d, line))),
            None => st,
        }
    }
}

pub open spec fn hypr_fold(ls: Seq<Seq<char>>) -> (Seq<DisplayNodeView>, Option<DisplayNodeView>)
    decreases ls.len(),
{
    if ls.len() == 0 {
        (Seq::empty(), None)
    } else {
        hypr_step(hypr_fold(ls.drop_last()), ls.last())
    }
}

/// The monitors that `hyprctl monitors all` reports, in order, the first
/// one primary. Every mode of an `availableModes:` list is kept.
pub open spec fn hypr_outputs(text: Seq<char>) -> Seq<DisplayNodeView> {
    let f = hypr_fold(lines(text));
    first_primary(push_some(f.0, f.1))
}

fn read_listed_mode(m: &[char]) -> (r: Option<DisplayMode>)
    ensures
        mode_opt_view(r) == listed_mode(m@),
{
    let q = match split_once_str(m, "@") {
        Some(q) => q,
        None => return None,
    };
    let wh = match split_once_str(&q.0, "x") {
        Some(p) => p,
        None => return None,
    };
    let r = DisplayMode {
        width: read_u32(&wh.0),
        height: read_u32(&wh.1),
        rate_text: string_of(&q.1),
        is_current: false,
        is_preferred: false,
    };
    assert(r@ =~= listed_mode(m@)->0);
    Some(r)
}

fn add_listed_modes(d: &mut DisplayNode, list: &[char])
    ensures
        final(d)@ == (DisplayNodeView {
            supported_modes: old(d)@.supported_modes + listed_modes(words(list@)),
            ..old(d)@
        }),
{
    let ws = split_words(list);
    let ghost wv = words(list@);
    let mut k: usize = 0;
    proof {
        assert(wv.subrange(0, 0) =~= Seq::<Seq<char>>::empty());
        assert(old(d)@.supported_modes + listed_modes(wv.subrange(0, 0)) =~= old(d)@.supported_modes);
        assert(d@ =~= (DisplayNodeView {
            supported_modes: old(d)@.supported_modes + listed_modes(wv.subrange(0, 0)),
            ..old(d)@
        }));
    }
    while k < ws.len()
        invariant
            k <= ws@.len(),
            ws@.len() == wv.len(),
            forall|i: int| 0 <= i < ws@.len() ==> #[trigger] ws@[i]@ == wv[i],
            d@ == (DisplayNodeView {
                supported_modes: old(d)@.supported_modes + listed_modes(wv.subrange(0, k as int)),
                ..old(d)@
            }),
        decreases ws@.len() - k,
    {
        proof {
            assert(wv.subrange(0, k + 1).drop_last() =~= wv.subrange(0, k as int));
            assert(wv.subrange(0, k + 1).last() == wv[k as int]);
            assert(ws@[k as int]@ == wv[k as int]);
        }
        match read_listed_mode(&ws[k]) {
            Some(m) => {
                let ghost before = d.supported_modes@;
                let ghost mv = m@;
                d.supported_modes.push(m);
                proof {
                    assert(modes_view(d.supported_modes@) =~= modes_view(before).push(mv));
                    assert(modes_view(d.supported_modes@) =~= old(d)@.supported_modes + listed_modes(
                        wv.subrange(0, k + 1),
                    ));
                }
                assert(d@ =~= (DisplayNodeView {
                    supported_modes: old(d)@.supported_modes + listed_modes(wv.subrange(0, k + 1)),
                    ..old(d)@
                }));
            },
            None => {},
        }
        k = k + 1;
    }
    proof {
        assert(wv.subrange(0, k as int) =~= wv);
    }
}

fn hypr_apply(d: &mut DisplayNode, line: &[char])
    ensures
        final(d)@ == hypr_line(old(d)@, line@),
{
    let t = trim_of(line);
    proof {
        reveal_strlit("availableModes:");
        reveal_strlit("transform:");
        reveal_strlit("1");
        reveal_strlit("2");
        reveal_strlit("3");
        reveal_strlit("left");
        reveal_strlit("right");
        reveal_strlit("inverted");
        reveal_strlit("normal");
    }
    if contains_str(&t, " at ") && contains_str(&t, "@") && contains_str(&t, "x") {
        match split_once_str(&t, " at ") {
            Some(p) => {
                match split_once_str(&p.0, "@") {
                    Some(q) => match split_once_str(&q.0, "x") {
                        Some(wh) => {
                            let m = DisplayMode {
                                width: read_u32(&wh.0),
                                height: read_u32(&wh.1),
                                rate_text: string_of(&q.1),
                                is_current: true,
                                is_preferred: true,
                            };
                            add_mode(d, m);
                        },
                        None => {},
                    },
                    None => {},
                }
                match split_once_str(&p.1, "x") {
                    Some(xy) => {
                        d.pos_x = read_i32(&xy.0);
                        d.pos_y = read_i32(&xy.1);
                    },
                    None => {},
                }
            },
            None => {},
        }
        assert(d@ =~= hypr_line(old(d)@, line@));
    } else if starts_with_str(&t, "availableModes:") {
        let rest = copy_range(&t, 15, t.len());
        assert(rest@ =~= t@.skip(15));
        let list = trim_of(&rest);
        add_listed_modes(d, &list);
        assert(d@ =~= hypr_line(old(d)@, line@));
    } else if starts_with_str(&t, "disabled: true") || starts_with_str(&t, "disabled: yes") {
        d.is_active = false;
        assert(d@ =~= hypr_line(old(d)@, line@));
    } else if starts_with_str(&t, "transform:") {
        let rest = copy_range(&t, 10, t.len());
        assert(rest@ =~= t@.skip(10));
        let v = trim_of(&rest);
        let rot = if eq_str(&v, "1") {
            "left"
        } else if eq_str(&v, "2") {
            "inverted"
        } else if eq_str(&v, "3") {
            "right"
        } else {
            "normal"
        };
        d.rotation = String::from_str(rot);
        assert(d@ =~= hypr_line(old(d)@, line@));
    } else {
        assert(d@ =~= hypr_line(old(d)@, line@));
    }
}

/// Reads the report of `hyprctl monitors all`. Every mode of an
/// `availableModes:` list is kept: leaving out those whose rate lies within
/// a tenth of a hertz of an earlier mode of the same size is a comparison
/// of rates as floating-point numbers, which falls to the caller.
pub fn parse_hyprctl_monitors(output: &str) -> (r: DisplaySnapshot)
    ensures
        nodes_view(r.displays@) == hypr_outputs(output@),
        name_view(r.primary_name) == first_name(hypr_outputs(output@)),
        r.connected_count == plugged(hypr_outputs(output@)).len(),
        r.current_layout == layout_of(hypr_outputs(output@)),
        r.server_type@ == ""@,
{
    let tv = chars_of(output);
    let ls = split_lines(&tv);
    let ghost lv = lines(output@);
    let mut done: Vec<DisplayNode> = Vec::new();
    let mut cur: Option<DisplayNode> = None;
    let mut i: usize = 0;
    proof {
        assert(lv.subrange(0, 0) =~= Seq::<Seq<char>>::empty());
        assert(nodes_view(done@) =~= Seq::<DisplayNodeView>::empty());
    }
    while i < ls.len()
        invariant
            i <= ls@.len(),
            ls@.len() == lv.len(),
            lv == lines(output@),
            forall|k: int| 0 <= k < ls@.len() ==> #[trigger] ls@[k]@ == lv[k],
            nodes_view(done@) == first_primary(hypr_fold(lv.subrange(0, i as int)).0),
            nodes_view(done@) == first_primary(nodes_view(done@)),
            node_opt_view(cur) == hypr_fold(lv.subrange(0, i as int)).1,
        decreases ls@.len() - i,
    {
        let line = &ls[i];
        proof {
            assert(lv.subrange(0, i + 1).drop_last() =~= lv.subrange(0, i as int));
            assert(lv.subrange(0, i + 1).last() == lv[i as int]);
            assert(line@ == lv[i as int]);
        }
        if starts_with_str(line, "Monitor ") {
            let taken = cur;
            match taken {
                Some(d) => {
                    proof {
                        lemma_first_primary_push(hypr_fold(lv.subrange(0, i as int)).0, d@);
                    }
                    finish_listed(&mut done, d);
                },
                None => {},
            }
            let t = split_words(line);
            if t.len() >= 2 {
                assert(t@[1]@ == words(line@)[1]);
                cur = Some(new_output(&t[1], true));
            } else {
                cur = None;
            }
        } else {
            let taken = cur;
            match taken {
                Some(mut d) => {
                    hypr_apply(&mut d, line);
                    cur = Some(d);
                },
                None => {
                    cur = None;
                },
            }
        }
        i = i + 1;
    }
    proof {
        assert(lv.subrange(0, i as int) =~= lv);
    }
    let taken = cur;
    match taken {
        Some(d) => {
            proof {
                lemma_first_primary_push(hypr_fold(lv).0, d@);
            }
            finish_listed(&mut done, d);
        },
        None => {},
    }
    assert(nodes_view(done@) =~= hypr_outputs(output@));
    listed_snapshot(done)
}

} // verus!
