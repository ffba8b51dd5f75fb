//! The audio panel's model: the categories of nodes, and the readers of
//! the mixers' reports (`wpctl status` and `pactl list`).

use vstd::prelude::*;
use crate::text::{chars_of, contains_str, decimal, decimal_of, float_text, has_infix, has_prefix, is_float_text, lines, parse_u32_chars, rsplit_once, rsplit_once_char, split_lines, split_once, split_once_str, split_words, starts_with_str, string_of, strip_leading, strip_leading_of, strip_trailing, strip_trailing_of, to_uppercase, trim, trim_of, u32_of, unicode_upper, words, copy_range, append};

verus! {

/// The three lists of the audio panel.
#[derive(Debug, Clone, Copy, PartialEq, Eq, Structural)]
pub enum AudioCategory {
    Sink,
    AppStream,
    Source,
}

impl AudioCategory {
    /// The categories in the order the panel shows them.
    pub fn all() -> (r: [AudioCategory; 3])
        ensures
            r@ == seq![AudioCategory::Sink, AudioCategory::AppStream, AudioCategory::Source],
    {
        [AudioCategory::Sink, AudioCategory::AppStream, AudioCategory::Source]
    }

    pub fn title(&self) -> (r: &'static str)
        ensures
            r@ == match *self {
                AudioCategory::Sink => "Saídas de Som"@,
                AudioCategory::AppStream => "Aplicativos"@,
                AudioCategory::Source => "Microfones"@,
            },
    {
        match self {
            AudioCategory::Sink => "Saídas de Som",
            AudioCategory::AppStream => "Aplicativos",
            AudioCategory::Source => "Microfones",
        }
    }

    pub fn ascii_badge(&self) -> (r: &'static str)
        ensures
            r@ == match *self {
                AudioCategory::Sink => "[SAID]"@,
                AudioCategory::AppStream => "[APP ]"@,
                AudioCategory::Source => "[MIC ]"@,
            },
    {
        match self {
            AudioCategory::Sink => "[SAID]",
            AudioCategory::AppStream => "[APP ]",
            AudioCategory::Source => "[MIC ]",
        }
    }

    pub fn nerd_glyph(&self) -> (r: &'static str)
        ensures
            r@ == match *self {
                AudioCategory::Sink => "\u{f04c3}"@,
                AudioCategory::AppStream => "\u{f0614}"@,
                AudioCategory::Source => "\u{f036c}"@,
            },
    {
        match self {
            AudioCategory::Sink => "\u{f04c3}",
            AudioCategory::AppStream => "\u{f0614}",
            AudioCategory::Source => "\u{f036c}",
        }
    }
}

/// A volume as the mixer reports it: the text of a number that
/// `str::parse::<f32>` accepts, read as a fraction of full volume or, when
/// `percent`, as a percentage. A node with no volume reading is at full
/// volume.
#[derive(Debug, PartialEq)]
pub struct VolumeText {
    pub text: String,
    pub percent: bool,
}

/// An audio node: an output, an application stream or an input.
#[derive(Debug, PartialEq)]
pub struct AudioNode {
    pub id: u32,
    pub name: String,
    pub description: String,
    pub category: AudioCategory,
    pub volume: Option<VolumeText>,
    pub is_muted: bool,
    pub is_default: bool,
    pub icon_name: Option<String>,
}

/// The value of an `AudioNode`.
#[verifier::ext_equal]
pub struct AudioNodeView {
    pub id: u32,
    pub name: Seq<char>,
    pub description: Seq<char>,
    pub category: AudioCategory,
    pub volume: Option<(Seq<char>, bool)>,
    pub is_muted: bool,
    pub is_default: bool,
    pub icon_name: Option<Seq<char>>,
}

impl View for AudioNode {
    type V = AudioNodeView;

    open spec fn view(&self) -> AudioNodeView {
        AudioNodeView {
            id: self.id,
            name: self.name@,
            description: self.description@,
            category: self.category,
            volume: match self.volume {
                Some(v) => Some((v.text@, v.percent)),
                None => None,
            },
            is_muted: self.is_muted,
            is_default: self.is_default,
            icon_name: match self.icon_name {
                Some(n) => Some(n@),
                None => None,
            },
        }
    }
}

pub open spec fn audio_view(ns: Seq<AudioNode>) -> Seq<AudioNodeView> {
    ns.map_values(|n: AudioNode| n@)
}

/// The nodes of the mixer, by category, with the defaults' ids.
#[derive(Debug, PartialEq)]
pub struct AudioSnapshot {
    pub server_name: String,
    pub sinks: Vec<AudioNode>,
    pub apps: Vec<AudioNode>,
    pub sources: Vec<AudioNode>,
    pub default_sink_id: Option<u32>,
    pub default_source_id: Option<u32>,
}

impl AudioSnapshot {
    /// The nodes of one category.
    pub fn nodes_for_category(&self, cat: AudioCategory) -> (r: &[AudioNode])
        ensures
            r@ == match cat {
                AudioCategory::Sink => self.sinks@,
                AudioCategory::AppStream => self.apps@,
                AudioCategory::Source => self.sources@,
            },
    {
        match cat {
            AudioCategory::Sink => self.sinks.as_slice(),
            AudioCategory::AppStream => self.apps.as_slice(),
            AudioCategory::Source => self.sources.as_slice(),
        }
    }
}

// ---------------------------------------------------------------------
// wpctl status
// ---------------------------------------------------------------------

/// The tree-drawing characters of `wpctl status`.
pub open spec fn is_box_char(c: char) -> bool {
    c == '\u{2502}' || c == '\u{2514}' || c == '\u{2500}' || c == '\u{251c}'
}

/// The line with each tree-drawing character replaced by a space.
pub open spec fn unbox(s: Seq<char>) -> Seq<char> {
    s.map_values(|c: char| if is_box_char(c) { ' ' } else { c })
}

fn unbox_of(v: &[char]) -> (r: Vec<char>)
    ensures
        r@ == unbox(v@),
{
    let mut r: Vec<char> = Vec::new();
    let mut i: usize = 0;
    while i < v.len()
        invariant
            i <= v.len(),
            r@ == unbox(v@.subrange(0, i as int)),
        decreases v.len() - i,
    {
        let c = v[i];
        let d = if c == '\u{2502}' || c == '\u{2514}' || c == '\u{2500}' || c == '\u{251c}' {
            ' '
        } else {
            c
        };
        r.push(d);
        i = i + 1;
        assert(r@ =~= unbox(v@.subrange(0, i as int)));
    }
    assert(v@.subrange(0, v@.len() as int) =~= v@);
    r
}

/// A node's display name: the text trimmed, or a generic name when empty.
pub open spec fn node_name(n: Seq<char>) -> Seq<char> {
    if trim(n).len() == 0 {
        "Dispositivo de \u{c1}udio"@
    } else {
        trim(n)
    }
}

fn clean_node_name(raw: &[char]) -> (r: String)
    ensures
        r@ == node_name(raw@),
{
    let t = trim_of(raw);
    if t.len() == 0 {
        String::from_str("Dispositivo de \u{c1}udio")
    } else {
        string_of(&t)
    }
}

/// The volume word after `vol:`, when it reads as a number.
pub open spec fn wpctl_volume(vol_part: Seq<char>) -> Option<(Seq<char>, bool)> {
    match split_once(vol_part, "vol:"@) {
        Some(p) => {
            let w = words(p.1);
            if w.len() > 0 && float_text(w[0]) {
                Some((w[0], false))
            } else {
                None
            }
        },
        None => None,
    }
}

/// The name and bracketed details of a node line's text after its id.
pub open spec fn wpctl_parts(rest: Seq<char>) -> (Seq<char>, Seq<char>) {
    match rsplit_once(rest, '[') {
        Some(q) => (trim(q.0), trim(strip_trailing(q.1, ']'))),
        None => (trim(rest), Seq::empty()),
    }
}

/// A node line of `wpctl status`, `[*] ID. NAME [vol: V [MUTED]]`, in a
/// section of category `cat`. Lines of links, ports and filters give none.
pub open spec fn wpctl_node(line: Seq<char>, cat: AudioCategory) -> Option<AudioNodeView> {
    let t = trim(unbox(line));
    if t.len() == 0 || has_infix(t, ">"@) || has_infix(t, "playback_"@) || has_prefix(t, "output_"@)
        || has_prefix(t, "input_"@) {
        None
    } else {
        let is_default = t[0] == '*';
        let body = if is_default {
            trim(strip_leading(t, '*'))
        } else {
            t
        };
        match split_once(body, "."@) {
            Some(p) => match u32_of(trim(p.0)) {
                Some(id) => {
                    let parts = wpctl_parts(p.1);
                    Some(
                        AudioNodeView {
                            id: id,
                            name: node_name(parts.0),
                            description: parts.0,
                            category: cat,
                            volume: wpctl_volume(parts.1),
                            is_muted: has_infix(unicode_upper(parts.1), "MUTED"@),
                            is_default: is_default,
                            icon_name: None,
                        },
                    )
                },
                None => None,
            },
            None => None,
        }
    }
}

fn parse_wpctl_line(line: &[char], cat: AudioCategory) -> (r: Option<AudioNode>)
    ensures
        match r {
            Some(n) => wpctl_node(line@, cat) == Some(n@),
            None => wpctl_node(line@, cat) is None,
        },
{
    let clean = unbox_of(line);
    let t = trim_of(&clean);
    if t.len() == 0 || contains_str(&t, ">") || contains_str(&t, "playback_") || starts_with_str(
        &t,
        "output_",
    ) || starts_with_str(&t, "input_") {
        return None;
    }
    let is_default = t[0] == '*';
    let body = if is_default {
        let s = strip_leading_of(&t, '*');
        trim_of(&s)
    } else {
        t
    };
    let p = match split_once_str(&body, ".") {
        Some(p) => p,
        None => return None,
    };
    let id_text = trim_of(&p.0);
    let id = match parse_u32_chars(&id_text) {
        Some(v) => v,
        None => return None,
    };
    let (name_part, vol_part) = match rsplit_once_char(&p.1, '[') {
        Some(q) => {
            let v = strip_trailing_of(&q.1, ']');
            (trim_of(&q.0), trim_of(&v))
        },
        None => (trim_of(&p.1), Vec::new()),
    };
    let vol_string = string_of(&vol_part);
    let up = to_uppercase(vol_string.as_str());
    let upv = chars_of(up.as_str());
    let volume = match split_once_str(&vol_part, "vol:") {
        Some(q) => {
            let w = split_words(&q.1);
            if w.len() > 0 && is_float_text(&w[0]) {
                Some(VolumeText { text: string_of(&w[0]), percent: false })
            } else {
                None
            }
        },
        None => None,
    };
    let n = AudioNode {
        id,
        name: clean_node_name(&name_part),
        description: string_of(&name_part),
        category: cat,
        volume,
        is_muted: contains_str(&upv, "MUTED"),
        is_default,
        icon_name: None,
    };
    assert(n@ =~= wpctl_node(line@, cat)->0);
    Some(n)
}

/// Which part of `wpctl status` is being read.
#[derive(Debug, Clone, Copy, PartialEq, Eq, Structural)]
pub enum WpSection {
    Outside,
    Sinks,
    Sources,
    Streams,
}

pub open spec fn section_category(s: WpSection) -> Option<AudioCategory> {
    match s {
        WpSection::Outside => None,
        WpSection::Sinks => Some(AudioCategory::Sink),
        WpSection::Sources => Some(AudioCategory::Source),
        WpSection::Streams => Some(AudioCategory::AppStream),
    }
}

/// What has been read of `wpctl status` so far.
#[verifier::ext_equal]
pub struct WpState {
    pub section: WpSection,
    pub sinks: Seq<AudioNodeView>,
    pub apps: Seq<AudioNodeView>,
    pub sources: Seq<AudioNodeView>,
    pub default_sink: Option<u32>,
    pub default_source: Option<u32>,
}

/// A node joins its category's list; a default output or input is named
/// the default.
pub open spec fn wp_add(st: WpState, n: AudioNodeView) -> WpState {
    match n.category {
        AudioCategory::Sink => WpState {
            sinks: st.sinks.push(n),
            default_sink: if n.is_default {
                Some(n.id)
            } else {
                st.default_sink
            },
            ..st
        },
        AudioCategory::AppStream => WpState { apps: st.apps.push(n), ..st },
        AudioCategory::Source => WpState {
            sources: st.sources.push(n),
            default_source: if n.is_default {
                Some(n.id)
            } else {
                st.default_source
            },
            ..st
        },
    }
}

/// One line of `wpctl status` read.
pub open spec fn wp_step(st: WpState, line: Seq<char>) -> WpState {
    let t = trim(line);
    if has_prefix(t, "Audio"@) {
        st
    } else if has_infix(t, "Sinks:"@) {
        WpState { section: WpSection::Sinks, ..st }
    } else if has_infix(t, "Sources:"@) {
        WpState { section: WpSection::Sources, ..st }
    } else if has_infix(t, "Streams:"@) {
        WpState { section: WpSection::Streams, ..st }
    } else if has_prefix(t, "Video"@) || has_prefix(t, "Settings"@) {
        WpState { section: WpSection::Outside, ..st }
    } else {
        let sec = if (has_prefix(t, "\u{251c}\u{2500}"@) || has_prefix(t, "\u{2514}\u{2500}"@))
            && !has_infix(t, ":"@) {
            WpSection::Outside
        } else {
            st.section
        };
        let st1 = WpState { section: sec, ..st };
        match section_category(sec) {
            Some(cat) => match wpctl_node(line, cat) {
                Some(n) => wp_add(st1, n),
                None => st1,
            },
            None => st1,
        }
    }
}

pub open spec fn wp_fold(ls: Seq<Seq<char>>) -> WpState
    decreases ls.len(),
{
    if ls.len() == 0 {
        WpState {
            section: WpSection::Outside,
            sinks: Seq::empty(),
            apps: Seq::empty(),
            sources: Seq::empty(),
            default_sink: None,
            default_source: None,
        }
    } else {
        wp_step(wp_fold(ls.drop_last()), ls.last())
    }
}

/// The default output and input that `wpctl status` names are among the
/// nodes it lists, marked as defaults.
pub proof fn lemma_wpctl_defaults_listed(ls: Seq<Seq<char>>)
    ensures
        wp_fold(ls).default_sink matches Some(id) ==> exists|k: int|
            0 <= k < wp_fold(ls).sinks.len() && (#[trigger] wp_fold(ls).sinks[k]).id == id
                && wp_fold(ls).sinks[k].is_default,
        wp_fold(ls).default_source matches Some(id) ==> exists|k: int|
            0 <= k < wp_fold(ls).sources.len() && (#[trigger] wp_fold(ls).sources[k]).id == id
                && wp_fold(ls).sources[k].is_default,
    decreases ls.len(),
{
    if ls.len() > 0 {
        let pre = wp_fold(ls.drop_last());
        lemma_wpctl_defaults_listed(ls.drop_last());
        let post = wp_fold(ls);
        if let Some(id) = post.default_sink {
            if pre.default_sink == Some(id) && post.sinks.len() >= pre.sinks.len() && forall|k: int|
                0 <= k < pre.sinks.len() ==> post.sinks[k] == pre.sinks[k] {
                let k = choose|k: int|
                    0 <= k < pre.sinks.len() && (#[trigger] pre.sinks[k]).id == id
                        && pre.sinks[k].is_default;
                assert(post.sinks[k] == pre.sinks[k]);
            } else {
                assert(post.sinks.len() > 0);
                let k = post.sinks.len() - 1;
                assert(post.sinks[k].id == id && post.sinks[k].is_default);
            }
        }
        if let Some(id) = post.default_source {
            if pre.default_source == Some(id) && post.sources.len() >= pre.sources.len() && forall|k: int|
                0 <= k < pre.sources.len() ==> post.sources[k] == pre.sources[k] {
                let k = choose|k: int|
                    0 <= k < pre.sources.len() && (#[trigger] pre.sources[k]).id == id
                        && pre.sources[k].is_default;
                assert(post.sources[k] == pre.sources[k]);
            } else {
                assert(post.sources.len() > 0);
                let k = post.sources.len() - 1;
                assert(post.sources[k].id == id && post.sources[k].is_default);
            }
        }
    }
}

/// Reads the report of `wpctl status`.
pub fn parse_wpctl_status(output: &str) -> (r: AudioSnapshot)
    ensures
        r.server_name@ == "PipeWire (WirePlumber)"@,
        audio_view(r.sinks@) == wp_fold(lines(output@)).sinks,
        audio_view(r.apps@) == wp_fold(lines(output@)).apps,
        audio_view(r.sources@) == wp_fold(lines(output@)).sources,
        r.default_sink_id == wp_fold(lines(output@)).default_sink,
        r.default_source_id == wp_fold(lines(output@)).default_source,
{
    let tv = chars_of(output);
    let ls = split_lines(&tv);
    let ghost lv = lines(output@);
    let mut section = WpSection::Outside;
    let mut sinks: Vec<AudioNode> = Vec::new();
    let mut apps: Vec<AudioNode> = Vec::new();
    let mut sources: Vec<AudioNode> = Vec::new();
    let mut default_sink_id: Option<u32> = None;
    let mut default_source_id: Option<u32> = None;
    let mut i: usize = 0;
    proof {
        assert(lv.subrange(0, 0) =~= Seq::<Seq<char>>::empty());
        assert(audio_view(sinks@) =~= Seq::<AudioNodeView>::empty());
        assert(audio_view(apps@) =~= Seq::<AudioNodeView>::empty());
        assert(audio_view(sources@) =~= Seq::<AudioNodeView>::empty());
    }
    while i < ls.len()
        invariant
            i <= ls@.len(),
            ls@.len() == lv.len(),
            forall|k: int| 0 <= k < ls@.len() ==> #[trigger] ls@[k]@ == lv[k],
            wp_fold(lv.subrange(0, i as int)) == (WpState {
                section: section,
                sinks: audio_view(sinks@),
                apps: audio_view(apps@),
                sources: audio_view(sources@),
                default_sink: default_sink_id,
                default_source: default_source_id,
            }),
        decreases ls@.len() - i,
    {
        let line = &ls[i];
        let ghost st = wp_fold(lv.subrange(0, i as int));
        proof {
            assert(lv.subrange(0, i + 1).drop_last() =~= lv.subrange(0, i as int));
            assert(lv.subrange(0, i + 1).last() == lv[i as int]);
            assert(line@ == lv[i as int]);
        }
        let t = trim_of(line);
        if starts_with_str(&t, "Audio") {
        } else if contains_str(&t, "Sinks:") {
            section = WpSection::Sinks;
        } else if contains_str(&t, "Sources:") {
            section = WpSection::Sources;
        } else if contains_str(&t, "Streams:") {
            section = WpSection::Streams;
        } else if starts_with_str(&t, "Video") || starts_with_str(&t, "Settings") {
            section = WpSection::Outside;
        } else {
            if (starts_with_str(&t, "\u{251c}\u{2500}") || starts_with_str(&t, "\u{2514}\u{2500}"))
                && !contains_str(&t, ":") {
                section = WpSection::Outside;
            }
            let cat = match section {
                WpSection::Outside => None,
                WpSection::Sinks => Some(AudioCategory::Sink),
                WpSection::Sources => Some(AudioCategory::Source),
                WpSection::Streams => Some(AudioCategory::AppStream),
            };
            match cat {
                Some(c) => match parse_wpctl_line(line, c) {
                    Some(n) => {
                        let ghost nv = n@;
                        if n.is_default {
                            match n.category {
                                AudioCategory::Sink => {
                                    default_sink_id = Some(n.id);
                                },
                                AudioCategory::Source => {
                                    default_source_id = Some(n.id);
                                },
                                AudioCategory::AppStream => {},
                            }
                        }
                        match n.category {
                            AudioCategory::Sink => {
                                let ghost before = sinks@;
                                sinks.push(n);
                                assert(audio_view(sinks@) =~= audio_view(before).push(nv));
                            },
                            AudioCategory::AppStream => {
                                let ghost before = apps@;
                                apps.push(n);
                                assert(audio_view(apps@) =~= audio_view(before).push(nv));
                            },
                            AudioCategory::Source => {
                                let ghost before = sources@;
                                sources.push(n);
                                assert(audio_view(sources@) =~= audio_view(before).push(nv));
                            },
                        }
                    },
                    None => {},
                },
                None => {},
            }
        }
        proof {
            assert(wp_fold(lv.subrange(0, i + 1)) =~= (WpState {
                section: section,
                sinks: audio_view(sinks@),
                apps: audio_view(apps@),
                sources: audio_view(sources@),
                default_sink: default_sink_id,
                default_source: default_source_id,
            }));
        }
        i = i + 1;
    }
    proof {
        assert(lv.subrange(0, i as int) =~= lv);
        reveal_strlit("PipeWire (WirePlumber)");
    }
    AudioSnapshot {
        server_name: String::from_str("PipeWire (WirePlumber)"),
        sinks,
        apps,
        sources,
        default_sink_id,
        default_source_id,
    }
}

// ---------------------------------------------------------------------
// pactl list
// ---------------------------------------------------------------------

/// The text up to the first `sep`, or all of it.
pub open spec fn piece_before(s: Seq<char>, sep: Seq<char>) -> Seq<char> {
    match split_once(s, sep) {
        Some(q) => q.0,
        None => s,
    }
}

/// The second piece of the text split at `sep` (`split(sep).nth(1)`).
pub open spec fn second_piece(s: Seq<char>, sep: Seq<char>) -> Option<Seq<char>> {
    match split_once(s, sep) {
        Some(p) => Some(piece_before(p.1, sep)),
        None => None,
    }
}

fn second_piece_of(s: &[char], sep: &str) -> (r: Option<Vec<char>>)
    ensures
        match r {
            Some(v) => second_piece(s@, sep@) == Some(v@),
            None => second_piece(s@, sep@) is None,
        },
{
    match split_once_str(s, sep) {
        Some(p) => match split_once_str(&p.1, sep) {
            Some(q) => Some(q.0),
            None => Some(p.1),
        },
        None => None,
    }
}

/// A block header of `pactl list`.
pub open spec fn pa_header(t: Seq<char>) -> bool {
    has_prefix(t, "Sink #"@) || has_prefix(t, "Sink Input #"@) || has_prefix(t, "Source #"@)
}

/// The value of a `key: value` (or `key = value`) line.
pub open spec fn pa_value(t: Seq<char>) -> Seq<char> {
    match split_once(t, ":"@) {
        Some(p) => p.1,
        None => match split_once(t, "="@) {
            Some(p) => p.1,
            None => Seq::empty(),
        },
    }
}

/// `trim_matches('"')`.
pub open spec fn strip_quotes(s: Seq<char>) -> Seq<char> {
    strip_trailing(strip_leading(s, '"'), '"')
}

/// The percentage of a `Volume:` line: the second `/`-separated piece,
/// which must end in `%` and read as a number.
pub open spec fn pa_volume(t: Seq<char>) -> Option<Seq<char>> {
    match second_piece(t, "/"@) {
        Some(p) => {
            let q = trim(p);
            if q.len() > 0 && q.last() == '%' && float_text(trim(q.drop_last())) {
                Some(trim(q.drop_last()))
            } else {
                None
            }
        },
        None => None,
    }
}

/// What has been read of a `pactl list` report so far: the finished nodes
/// and the node being read.
#[verifier::ext_equal]
pub struct PaState {
    pub nodes: Seq<AudioNodeView>,
    pub id: Option<u32>,
    pub name: Seq<char>,
    pub volume: Option<Seq<char>>,
    pub muted: bool,
}

/// A finished node; without a name it is called `Audio Node ID`.
pub open spec fn pa_node(
    id: u32,
    name: Seq<char>,
    description: Seq<char>,
    volume: Option<Seq<char>>,
    muted: bool,
    cat: AudioCategory,
) -> AudioNodeView {
    AudioNodeView {
        id: id,
        name: if name.len() == 0 {
            "Audio Node "@ + decimal(id as nat)
        } else {
            name
        },
        description: description,
        category: cat,
        volume: match volume {
            Some(v) => Some((v, true)),
            None => None,
        },
        is_muted: muted,
        is_default: false,
        icon_name: None,
    }
}

/// One line of a `pactl list` report read.
pub open spec fn pa_step(st: PaState, line: Seq<char>, cat: AudioCategory) -> PaState {
    let t = trim(line);
    if pa_header(t) {
        PaState {
            nodes: match st.id {
                Some(i) => st.nodes.push(pa_node(i, st.name, st.name, st.volume, st.muted, cat)),
                None => st.nodes,
            },
            id: match second_piece(t, "#"@) {
                Some(p) => u32_of(trim(p)),
                None => st.id,
            },
            name: Seq::empty(),
            volume: None,
            muted: false,
        }
    } else if has_prefix(t, "Description:"@) || has_prefix(t, "application.name ="@) {
        PaState { name: strip_quotes(trim(pa_value(t))), ..st }
    } else if has_prefix(t, "Mute:"@) {
        PaState { muted: has_infix(t, "yes"@), ..st }
    } else if has_prefix(t, "Volume:"@) {
        match pa_volume(t) {
            Some(v) => PaState { volume: Some(v), ..st },
            None => st,
        }
    } else {
        st
    }
}

pub open spec fn pa_fold(ls: Seq<Seq<char>>, cat: AudioCategory) -> PaState
    decreases ls.len(),
{
    if ls.len() == 0 {
        PaState { nodes: Seq::empty(), id: None, name: Seq::empty(), volume: None, muted: false }
    } else {
        pa_step(pa_fold(ls.drop_last(), cat), ls.last(), cat)
    }
}

/// The nodes of a `pactl list` report, in order. The last node is closed
/// with an empty description.
pub open spec fn pactl_nodes(text: Seq<char>, cat: AudioCategory) -> Seq<AudioNodeView> {
    let f = pa_fold(lines(text), cat);
    match f.id {
        Some(i) => f.nodes.push(pa_node(i, f.name, Seq::empty(), f.volume, f.muted, cat)),
        None => f.nodes,
    }
}

fn make_pa_node(
    id: u32,
    name: &Vec<char>,
    description: &Vec<char>,
    volume: &Option<Vec<char>>,
    muted: bool,
    cat: AudioCategory,
) -> (r: AudioNode)
    ensures
        r@ == pa_node(
            id,
            name@,
            description@,
            match volume {
                Some(v) => Some(v@),
                None => None,
            },
            muted,
            cat,
        ),
{
    let shown = if name.len() == 0 {
        let mut v = chars_of("Audio Node ");
        let d = decimal_of(id as u64);
        append(&mut v, &d);
        proof {
            reveal_strlit("Audio Node ");
        }
        v
    } else {
        copy_range(name, 0, name.len())
    };
    let vol = match volume {
        Some(v) => Some(VolumeText { text: string_of(v), percent: true }),
        None => None,
    };
    let r = AudioNode {
        id,
        name: string_of(&shown),
        description: string_of(description),
        category: cat,
        volume: vol,
        is_muted: muted,
        is_default: false,
        icon_name: None,
    };
    assert(name@.subrange(0, name@.len() as int) =~= name@);
    assert(r@ =~= pa_node(
        id,
        name@,
        description@,
        match volume {
            Some(v) => Some(v@),
            None => None,
        },
        muted,
        cat,
    ));
    r
}

fn read_pa_volume(t: &[char]) -> (r: Option<Vec<char>>)
    ensures
        match r {
            Some(v) => pa_volume(t@) == Some(v@),
            None => pa_volume(t@) is None,
        },
{
    let p = match second_piece_of(t, "/") {
        Some(p) => p,
        None => return None,
    };
    let q = trim_of(&p);
    if q.len() == 0 || q[q.len() - 1] != '%' {
        return None;
    }
    let num0 = copy_range(&q, 0, q.len() - 1);
    assert(num0@ =~= q@.drop_last());
    let num = trim_of(&num0);
    if is_float_text(&num) {
        Some(num)
    } else {
        None
    }
}

/// The nodes of one `pactl list` report (`sinks`, `sink-inputs` or
/// `sources`), all of category `category`.
pub fn parse_pactl_nodes(output: &str, category: AudioCategory) -> (r: Vec<AudioNode>)
    ensures
        audio_view(r@) == pactl_nodes(output@, category),
{
    let tv = chars_of(output);
    let ls = split_lines(&tv);
    let ghost lv = lines(output@);
    let mut nodes: Vec<AudioNode> = Vec::new();
    let mut id: Option<u32> = None;
    let mut name: Vec<char> = Vec::new();
    let mut volume: Option<Vec<char>> = None;
    let mut muted = false;
    let mut i: usize = 0;
    proof {
        assert(lv.subrange(0, 0) =~= Seq::<Seq<char>>::empty());
        assert(audio_view(nodes@) =~= Seq::<AudioNodeView>::empty());
    }
    while i < ls.len()
        invariant
            i <= ls@.len(),
            ls@.len() == lv.len(),
            forall|k: int| 0 <= k < ls@.len() ==> #[trigger] ls@[k]@ == lv[k],
            pa_fold(lv.subrange(0, i as int), category) == (PaState {
                nodes: audio_view(nodes@),
                id: id,
                name: name@,
                volume: match volume {
                    Some(v) => Some(v@),
                    None => None,
                },
                muted: muted,
            }),
        decreases ls@.len() - i,
    {
        let line = &ls[i];
        proof {
            assert(lv.subrange(0, i + 1).drop_last() =~= lv.subrange(0, i as int));
            assert(lv.subrange(0, i + 1).last() == lv[i as int]);
            assert(line@ == lv[i as int]);
        }
        let t = trim_of(line);
        if starts_with_str(&t, "Sink #") || starts_with_str(&t, "Sink Input #") || starts_with_str(
            &t,
            "Source #",
        ) {
            match id {
                Some(n) => {
                    let node = make_pa_node(n, &name, &name, &volume, muted, category);
                    let ghost before = nodes@;
                    let ghost nv = node@;
                    nodes.push(node);
                    assert(audio_view(nodes@) =~= audio_view(before).push(nv));
                },
                None => {},
            }
            match second_piece_of(&t, "#") {
                Some(p) => {
                    let q = trim_of(&p);
                    id = parse_u32_chars(&q);
                },
                None => {},
            }
            name = Vec::new();
            volume = None;
            muted = false;
        } else if starts_with_str(&t, "Description:") || starts_with_str(&t, "application.name =") {
            let val = match split_once_str(&t, ":") {
                Some(p) => p.1,
                None => match split_once_str(&t, "=") {
                    Some(p) => p.1,
                    None => Vec::new(),
                },
            };
            let v1 = trim_of(&val);
            let v2 = strip_leading_of(&v1, '"');
            name = strip_trailing_of(&v2, '"');
        } else if starts_with_str(&t, "Mute:") {
            muted = contains_str(&t, "yes");
        } else if starts_with_str(&t, "Volume:") {
            match read_pa_volume(&t) {
                Some(v) => {
                    volume = Some(v);
                },
                None => {},
            }
        }
        proof {
            assert(pa_fold(lv.subrange(0, i + 1), category) =~= (PaState {
                nodes: audio_view(nodes@),
                id: id,
                name: name@,
                volume: match volume {
                    Some(v) => Some(v@),
                    None => None,
                },
                muted: muted,
            }));
        }
        i = i + 1;
    }
    proof {
        assert(lv.subrange(0, i as int) =~= lv);
    }
    match id {
        Some(n) => {
            let empty: Vec<char> = Vec::new();
            let node = make_pa_node(n, &name, &empty, &volume, muted, category);
            let ghost before = nodes@;
            let ghost nv = node@;
            nodes.push(node);
            assert(audio_view(nodes@) =~= audio_view(before).push(nv));
        },
        None => {},
    }
    nodes
}

/// The snapshot of PulseAudio's reports of outputs, application streams
/// and inputs; the first output and the first input are the defaults.
pub fn parse_pactl_output(sinks_str: &str, apps_str: &str, sources_str: &str) -> (r: AudioSnapshot)
    ensures
        r.server_name@ == "PulseAudio"@,
        audio_view(r.sinks@) == pactl_nodes(sinks_str@, AudioCategory::Sink),
        audio_view(r.apps@) == pactl_nodes(apps_str@, AudioCategory::AppStream),
        audio_view(r.sources@) == pactl_nodes(sources_str@, AudioCategory::Source),
        r.default_sink_id == if pactl_nodes(sinks_str@, AudioCategory::Sink).len() > 0 {
            Some(pactl_nodes(sinks_str@, AudioCategory::Sink)[0].id)
        } else {
            None
        },
        r.default_source_id == if pactl_nodes(sources_str@, AudioCategory::Source).len() > 0 {
            Some(pactl_nodes(sources_str@, AudioCategory::Source)[0].id)
        } else {
            None
        },
{
    let sinks = parse_pactl_nodes(sinks_str, AudioCategory::Sink);
    let apps = parse_pactl_nodes(apps_str, AudioCategory::AppStream);
    let sources = parse_pactl_nodes(sources_str, AudioCategory::Source);
    let default_sink_id = if sinks.len() > 0 {
        assert(audio_view(sinks@)[0] == sinks@[0]@);
        Some(sinks[0].id)
    } else {
        None
    };
    let default_source_id = if sources.len() > 0 {
        assert(audio_view(sources@)[0] == sources@[0]@);
        Some(sources[0].id)
    } else {
        None
    };
    proof {
        reveal_strlit("PulseAudio");
    }
    AudioSnapshot {
        server_name: String::from_str("PulseAudio"),
        sinks,
        apps,
        sources,
        default_sink_id,
        default_source_id,
    }
}

/// What `wpctl get-volume` printed: the volume's text (the first word after
/// `Volume:`) and whether the line is marked `[MUTED]`; `None` when the
/// output is not such a line or names no volume.
pub open spec fn wpctl_reading(out: Seq<char>) -> Option<(Seq<char>, bool)> {
    let t = trim(out);
    if has_prefix(t, "Volume:"@) {
        let rest = trim(t.subrange(7, t.len() as int));
        if words(rest).len() > 0 {
            Some((words(rest)[0], has_infix(rest, "[MUTED]"@)))
        } else {
            None
        }
    } else {
        None
    }
}

/// Reads the output of `wpctl get-volume`: the volume as text (read as a
/// fraction of full volume) and the mute mark.
pub fn parse_wpctl_reading(output: &str) -> (r: Option<(String, bool)>)
    ensures
        match r {
            Some(p) => wpctl_reading(output@) == Some((p.0@, p.1)),
            None => wpctl_reading(output@) is None,
        },
{
    let v = chars_of(output);
    let t = trim_of(&v);
    if !starts_with_str(&t, "Volume:") {
        return None;
    }
    proof {
        reveal_strlit("Volume:");
    }
    let after = copy_range(&t, 7, t.len());
    let rest = trim_of(&after);
    let muted = contains_str(&rest, "[MUTED]");
    let w = split_words(&rest);
    if w.len() == 0 {
        return None;
    }
    Some((string_of(&w[0]), muted))
}

} // verus!
