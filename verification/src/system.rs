//! The overview panel's data: installed packages, battery state, power
//! profiles, and the small parsers that read them from command output.

use vstd::prelude::*;
use crate::i18n::{Language, catalogue};
use crate::text::{
    append, append_str, chars_of, contains_str, decimal, decimal_of, eq_str, find, has_infix,
    has_prefix, lines, lower, lower_of, occurs_at, split_lines, starts_with_str, string_of, trim,
    trim_of, trim_start, trim_start_of, rsplit_once_str, rsplit_once_text, split_once,
    split_once_str, strip_leading, strip_leading_of, strip_leading_text, strip_leading_text_of,
    strip_trailing, strip_trailing_of, char_is_ws, is_ws,
};

verus! {

/// Installed packages, counted per package manager.
#[derive(Debug, Clone)]
pub struct Packages {
    pub total: u64,
    pub by_manager: Vec<(&'static str, u64)>,
    pub pending_updates: Option<usize>,
}

/// The names of the managers, joined by `"+"`.
pub open spec fn joined_names(ms: Seq<(&'static str, u64)>) -> Seq<char>
    decreases ms.len(),
{
    if ms.len() == 0 {
        Seq::empty()
    } else if ms.len() == 1 {
        ms[0].0@
    } else {
        joined_names(ms.drop_last()) + "+"@ + ms.last().0@
    }
}

impl Packages {
    /// `"N/A"` when no manager was found, else `"<total> (<m1>+<m2>...)"`.
    pub fn summary(&self) -> (r: String)
        ensures
            r@ == if self.by_manager@.len() == 0 {
                "N/A"@
            } else {
                decimal(self.total as nat) + " ("@ + joined_names(self.by_manager@) + ")"@
            },
    {
        if self.by_manager.len() == 0 {
            return String::from_str("N/A");
        }
        let mut out = decimal_of(self.total);
        append_str(&mut out, " (");
        let n = self.by_manager.len();
        let mut i: usize = 0;
        let ghost start = out@;
        while i < n
            invariant
                n == self.by_manager@.len(),
                i <= n,
                out@ == start + joined_names(self.by_manager@.subrange(0, i as int)),
            decreases n - i,
        {
            let ghost before = out@;
            if i > 0 {
                append_str(&mut out, "+");
            }
            append_str(&mut out, self.by_manager[i].0);
            proof {
                let ms = self.by_manager@.subrange(0, i + 1);
                assert(ms.drop_last() =~= self.by_manager@.subrange(0, i as int));
                if i == 0 {
                    assert(joined_names(self.by_manager@.subrange(0, 0)) =~= Seq::<char>::empty());
                }
            }
            i = i + 1;
            proof {
                assert(out@ =~= start + joined_names(self.by_manager@.subrange(0, i as int)));
            }
        }
        append_str(&mut out, ")");
        assert(self.by_manager@.subrange(0, n as int) =~= self.by_manager@);
        string_of(&out)
    }
}

/// The managers in the order they are asked, with what each reported.
pub open spec fn reported(pacman: Option<u64>, dpkg: Option<u64>, rpm: Option<u64>, flatpak: Option<u64>) -> Seq<(&'static str, u64)> {
    let a: Seq<(&'static str, u64)> = if pacman is Some { seq![("pacman", pacman.unwrap())] } else { Seq::empty() };
    let b: Seq<(&'static str, u64)> = if dpkg is Some { seq![("dpkg", dpkg.unwrap())] } else { Seq::empty() };
    let c: Seq<(&'static str, u64)> = if rpm is Some { seq![("rpm", rpm.unwrap())] } else { Seq::empty() };
    let d: Seq<(&'static str, u64)> = if flatpak is Some { seq![("flatpak", flatpak.unwrap())] } else { Seq::empty() };
    a + b + c + d
}

pub open spec fn count_or_zero(n: Option<u64>) -> int {
    match n {
        Some(k) => k as int,
        None => 0,
    }
}

/// Combines the counts reported by `pacman`, `dpkg`, `rpm` and `flatpak`
/// (`None` where the manager is absent): `None` when none answered.
pub fn count_packages(pacman: Option<u64>, dpkg: Option<u64>, rpm: Option<u64>, flatpak: Option<u64>) -> (r: Option<Packages>)
    requires
        count_or_zero(pacman) + count_or_zero(dpkg) + count_or_zero(rpm) + count_or_zero(flatpak) <= u64::MAX,
    ensures
        match r {
            None => pacman is None && dpkg is None && rpm is None && flatpak is None,
            Some(p) => {
                &&& p.by_manager@ == reported(pacman, dpkg, rpm, flatpak)
                &&& p.total == count_or_zero(pacman) + count_or_zero(dpkg) + count_or_zero(rpm) + count_or_zero(flatpak)
                &&& p.pending_updates is None
                &&& p.by_manager@.len() > 0
            },
        },
{
    let mut by_manager: Vec<(&'static str, u64)> = Vec::new();
    let mut total: u64 = 0;
    if let Some(n) = pacman {
        by_manager.push(("pacman", n));
        total = total + n;
    }
    if let Some(n) = dpkg {
        by_manager.push(("dpkg", n));
        total = total + n;
    }
    if let Some(n) = rpm {
        by_manager.push(("rpm", n));
        total = total + n;
    }
    if let Some(n) = flatpak {
        by_manager.push(("flatpak", n));
        total = total + n;
    }
    assert(by_manager@ =~= reported(pacman, dpkg, rpm, flatpak));
    if by_manager.len() == 0 {
        None
    } else {
        Some(Packages { total, by_manager, pending_updates: None })
    }
}

/// Charge state of a battery, as the kernel reports it.
#[derive(Debug, Clone, Copy, PartialEq, Eq, Structural)]
pub enum BatteryStatus {
    Charging,
    Discharging,
    Full,
    NotCharging,
    Unknown,
}

pub open spec fn battery_status_of(t: Seq<char>) -> BatteryStatus {
    if t == "charging"@ {
        BatteryStatus::Charging
    } else if t == "discharging"@ {
        BatteryStatus::Discharging
    } else if t == "full"@ {
        BatteryStatus::Full
    } else if t == "not charging"@ {
        BatteryStatus::NotCharging
    } else {
        BatteryStatus::Unknown
    }
}

pub open spec fn battery_tag(s: BatteryStatus) -> Seq<char> {
    match s {
        BatteryStatus::Charging => "CHARGING"@,
        BatteryStatus::Full => "FULL"@,
        BatteryStatus::Discharging => "DISCHARGING"@,
        BatteryStatus::NotCharging => "NOT CHARGING"@,
        BatteryStatus::Unknown => "UNKNOWN"@,
    }
}

impl BatteryStatus {
    /// Reads the `status` file of a power supply (case and surrounding
    /// whitespace ignored); anything unrecognised is `Unknown`.
    pub fn parse(raw: &str) -> (r: BatteryStatus)
        ensures
            r == battery_status_of(lower(trim(raw@))),
    {
        let rv = chars_of(raw);
        let tv = trim_of(&rv);
        let t = lower_of(&tv);
        if eq_str(&t, "charging") {
            BatteryStatus::Charging
        } else if eq_str(&t, "discharging") {
            BatteryStatus::Discharging
        } else if eq_str(&t, "full") {
            BatteryStatus::Full
        } else if eq_str(&t, "not charging") {
            BatteryStatus::NotCharging
        } else {
            BatteryStatus::Unknown
        }
    }

    pub fn tag(self) -> (r: &'static str)
        ensures
            r@ == battery_tag(self),
    {
        match self {
            BatteryStatus::Charging => "CHARGING",
            BatteryStatus::Full => "FULL",
            BatteryStatus::Discharging => "DISCHARGING",
            BatteryStatus::NotCharging => "NOT CHARGING",
            BatteryStatus::Unknown => "UNKNOWN",
        }
    }

    /// The sign shown before the power draw: `+` charging, `-` discharging.
    pub fn power_sign(self) -> (r: &'static str)
        ensures
            r@ == match self {
                BatteryStatus::Charging => "+"@,
                BatteryStatus::Discharging => "-"@,
                _ => ""@,
            },
    {
        match self {
            BatteryStatus::Charging => "+",
            BatteryStatus::Discharging => "-",
            _ => "",
        }
    }

    pub fn label(self) -> (r: &'static str)
        ensures
            r@ == match self {
                BatteryStatus::Charging => "Carregando"@,
                BatteryStatus::Full => "Completa"@,
                BatteryStatus::Discharging => "Descarregando"@,
                BatteryStatus::NotCharging => "Sem carga"@,
                BatteryStatus::Unknown => "Desconhecido"@,
            },
    {
        match self {
            BatteryStatus::Charging => "Carregando",
            BatteryStatus::Full => "Completa",
            BatteryStatus::Discharging => "Descarregando",
            BatteryStatus::NotCharging => "Sem carga",
            BatteryStatus::Unknown => "Desconhecido",
        }
    }
}

/// Reading a status back from its tag gives the same status.
pub proof fn lemma_battery_tag_parse(s: BatteryStatus)
    ensures
        battery_status_of(lower(trim(battery_tag(s)))) == s,
{
    reveal_strlit("CHARGING");
    reveal_strlit("FULL");
    reveal_strlit("DISCHARGING");
    reveal_strlit("NOT CHARGING");
    reveal_strlit("UNKNOWN");
    reveal_strlit("charging");
    reveal_strlit("discharging");
    reveal_strlit("full");
    reveal_strlit("not charging");
    let t = battery_tag(s);
    assert(trim_start(t) == t);
    assert(crate::text::trim_end(t) == t);
    let l = lower(t);
    match s {
        BatteryStatus::Charging => {
            assert(l =~= "charging"@);
        },
        BatteryStatus::Full => {
            assert(l =~= "full"@);
            assert(l.len() != "charging"@.len());
            assert(l.len() != "discharging"@.len());
        },
        BatteryStatus::Discharging => {
            assert(l =~= "discharging"@);
            assert(l.len() != "charging"@.len());
        },
        BatteryStatus::NotCharging => {
            assert(l =~= "not charging"@);
            assert(l.len() != "charging"@.len());
            assert(l.len() != "discharging"@.len());
            assert(l.len() != "full"@.len());
        },
        BatteryStatus::Unknown => {
            assert(l.len() != "charging"@.len());
            assert(l.len() != "discharging"@.len());
            assert(l.len() != "full"@.len());
            assert(l.len() != "not charging"@.len());
        },
    }
}

/// A CPU power profile.
#[derive(Debug, Clone, Copy, PartialEq, Eq, Structural)]
pub enum PowerProfile {
    PowerSaver,
    Balanced,
    Performance,
}

/// The profile a (trimmed, lower-cased) name selects: the names of
/// `power-profiles-daemon`, of the cpufreq governors, and the Portuguese labels.
pub open spec fn profile_of(t: Seq<char>) -> Option<PowerProfile> {
    if t == "power-saver"@ || t == "power_saver"@ || t == "powersave"@ || t == "economia"@ {
        Some(PowerProfile::PowerSaver)
    } else if t == "balanced"@ || t == "equilibrado"@ || t == "schedutil"@ || t == "ondemand"@
        || t == "conservative"@ || t == "userspace"@ {
        Some(PowerProfile::Balanced)
    } else if t == "performance"@ || t == "desempenho"@ {
        Some(PowerProfile::Performance)
    } else {
        None
    }
}

pub open spec fn profile_id(p: PowerProfile) -> Seq<char> {
    match p {
        PowerProfile::PowerSaver => "power-saver"@,
        PowerProfile::Balanced => "balanced"@,
        PowerProfile::Performance => "performance"@,
    }
}

pub open spec fn profile_governor(p: PowerProfile) -> Seq<char> {
    match p {
        PowerProfile::PowerSaver => "powersave"@,
        PowerProfile::Balanced => "schedutil"@,
        PowerProfile::Performance => "performance"@,
    }
}

pub open spec fn profile_label(p: PowerProfile, lang: Language) -> &'static str {
    match p {
        PowerProfile::PowerSaver => catalogue(lang).profile_power_saver,
        PowerProfile::Balanced => catalogue(lang).profile_balanced,
        PowerProfile::Performance => catalogue(lang).profile_performance,
    }
}

pub open spec fn profile_next(p: PowerProfile) -> PowerProfile {
    match p {
        PowerProfile::PowerSaver => PowerProfile::Balanced,
        PowerProfile::Balanced => PowerProfile::Performance,
        PowerProfile::Performance => PowerProfile::PowerSaver,
    }
}

fn is_any_of(t: &[char], names: &[&'static str]) -> (r: bool)
    ensures
        r == exists|i: int| 0 <= i < names@.len() && t@ == names@[i]@,
{
    let mut i: usize = 0;
    while i < names.len()
        invariant
            i <= names@.len(),
            forall|j: int| 0 <= j < i ==> t@ != names@[j]@,
        decreases names@.len() - i,
    {
        if eq_str(t, names[i]) {
            return true;
        }
        i = i + 1;
    }
    false
}

impl PowerProfile {
    /// Reads a profile name; case and surrounding whitespace are ignored.
    pub fn parse(raw: &str) -> (r: Option<PowerProfile>)
        ensures
            r == profile_of(lower(trim(raw@))),
    {
        let rv = chars_of(raw);
        let tv = trim_of(&rv);
        let t = lower_of(&tv);
        let saver: [&'static str; 4] = ["power-saver", "power_saver", "powersave", "economia"];
        let balanced: [&'static str; 6] = ["balanced", "equilibrado", "schedutil", "ondemand", "conservative", "userspace"];
        let perf: [&'static str; 2] = ["performance", "desempenho"];
        let a = is_any_of(&t, &saver);
        proof {
            let sv = saver@;
            if a {
                let i = choose|i: int| 0 <= i < sv.len() && t@ == sv[i]@;
                assert(i == 0 || i == 1 || i == 2 || i == 3);
            } else {
                assert(t@ != sv[0]@ && t@ != sv[1]@ && t@ != sv[2]@ && t@ != sv[3]@);
            }
        }
        if a {
            return Some(PowerProfile::PowerSaver);
        }
        let b = is_any_of(&t, &balanced);
        proof {
            let bv = balanced@;
            if b {
                let i = choose|i: int| 0 <= i < bv.len() && t@ == bv[i]@;
                assert(i == 0 || i == 1 || i == 2 || i == 3 || i == 4 || i == 5);
            } else {
                assert(t@ != bv[0]@ && t@ != bv[1]@ && t@ != bv[2]@ && t@ != bv[3]@ && t@ != bv[4]@ && t@ != bv[5]@);
            }
        }
        if b {
            return Some(PowerProfile::Balanced);
        }
        let c = is_any_of(&t, &perf);
        proof {
            let pv = perf@;
            if c {
                let i = choose|i: int| 0 <= i < pv.len() && t@ == pv[i]@;
                assert(i == 0 || i == 1);
            } else {
                assert(t@ != pv[0]@ && t@ != pv[1]@);
            }
        }
        if c {
            Some(PowerProfile::Performance)
        } else {
            None
        }
    }

    /// The profile's name for `power-profiles-daemon`.
    pub fn id(self) -> (r: &'static str)
        ensures
            r@ == profile_id(self),
    {
        match self {
            PowerProfile::PowerSaver => "power-saver",
            PowerProfile::Balanced => "balanced",
            PowerProfile::Performance => "performance",
        }
    }

    /// The profile's label in `lang`.
    pub fn label_in(self, lang: Language) -> (r: &'static str)
        ensures
            r == profile_label(self, lang),
    {
        let m = lang.messages();
        match self {
            PowerProfile::PowerSaver => m.profile_power_saver,
            PowerProfile::Balanced => m.profile_balanced,
            PowerProfile::Performance => m.profile_performance,
        }
    }

    /// The profile's label in the default language.
    pub fn label(self) -> (r: &'static str)
        ensures
            r == profile_label(self, Language::PtBr),
    {
        self.label_in(Language::PtBr)
    }

    pub fn tag(self) -> (r: &'static str)
        ensures
            r@ == match self {
                PowerProfile::PowerSaver => "[POWER-SAVER]"@,
                PowerProfile::Balanced => "[BALANCED]"@,
                PowerProfile::Performance => "[PERFORMANCE]"@,
            },
    {
        match self {
            PowerProfile::PowerSaver => "[POWER-SAVER]",
            PowerProfile::Balanced => "[BALANCED]",
            PowerProfile::Performance => "[PERFORMANCE]",
        }
    }

    /// The cpufreq governor written when no profile daemon is available.
    pub fn governor(self) -> (r: &'static str)
        ensures
            r@ == profile_governor(self),
    {
        match self {
            PowerProfile::PowerSaver => "powersave",
            PowerProfile::Balanced => "schedutil",
            PowerProfile::Performance => "performance",
        }
    }

    /// The profile that the cycle key selects after this one.
    pub fn next(&self) -> (r: PowerProfile)
        ensures
            r == profile_next(*self),
    {
        match self {
            PowerProfile::PowerSaver => PowerProfile::Balanced,
            PowerProfile::Balanced => PowerProfile::Performance,
            PowerProfile::Performance => PowerProfile::PowerSaver,
        }
    }
}

/// A profile's daemon name and its governor both read back as that profile.
pub proof fn lemma_profile_names_parse(p: PowerProfile)
    ensures
        profile_of(lower(trim(profile_id(p)))) == Some(p),
        profile_of(lower(trim(profile_governor(p)))) == Some(p),
{
    reveal_strlit("power-saver");
    reveal_strlit("balanced");
    reveal_strlit("performance");
    reveal_strlit("powersave");
    reveal_strlit("schedutil");
    reveal_strlit("power_saver");
    reveal_strlit("economia");
    reveal_strlit("equilibrado");
    reveal_strlit("ondemand");
    reveal_strlit("conservative");
    reveal_strlit("userspace");
    reveal_strlit("desempenho");
    let a = profile_id(p);
    let g = profile_governor(p);
    assert(trim_start(a) == a);
    assert(crate::text::trim_end(a) == a);
    assert(trim_start(g) == g);
    assert(crate::text::trim_end(g) == g);
    assert(lower(a) =~= a);
    assert(lower(g) =~= g);
    match p {
        PowerProfile::PowerSaver => {
            assert(g.len() != "power-saver"@.len() || g[0] != "power-saver"@[0] || g[1] != "power-saver"@[1]);
            assert(g.len() != "power_saver"@.len() || g[0] != "power_saver"@[0] || g[1] != "power_saver"@[1]);
        },
        PowerProfile::Balanced => {
            assert(a.len() != "power-saver"@.len() || a[0] != "power-saver"@[0] || a[1] != "power-saver"@[1]);
            assert(a.len() != "power_saver"@.len() || a[0] != "power_saver"@[0] || a[1] != "power_saver"@[1]);
            assert(a.len() != "powersave"@.len() || a[0] != "powersave"@[0] || a[1] != "powersave"@[1]);
            assert(a.len() != "economia"@.len() || a[0] != "economia"@[0] || a[1] != "economia"@[1]);
            assert(g.len() != "power-saver"@.len() || g[0] != "power-saver"@[0] || g[1] != "power-saver"@[1]);
            assert(g.len() != "power_saver"@.len() || g[0] != "power_saver"@[0] || g[1] != "power_saver"@[1]);
            assert(g.len() != "powersave"@.len() || g[0] != "powersave"@[0] || g[1] != "powersave"@[1]);
            assert(g.len() != "economia"@.len() || g[0] != "economia"@[0] || g[1] != "economia"@[1]);
            assert(g.len() != "balanced"@.len() || g[0] != "balanced"@[0] || g[1] != "balanced"@[1]);
            assert(g.len() != "equilibrado"@.len() || g[0] != "equilibrado"@[0] || g[1] != "equilibrado"@[1]);
        },
        PowerProfile::Performance => {
            assert(a.len() != "power-saver"@.len() || a[0] != "power-saver"@[0] || a[1] != "power-saver"@[1]);
            assert(a.len() != "power_saver"@.len() || a[0] != "power_saver"@[0] || a[1] != "power_saver"@[1]);
            assert(a.len() != "powersave"@.len() || a[0] != "powersave"@[0] || a[1] != "powersave"@[1]);
            assert(a.len() != "economia"@.len() || a[0] != "economia"@[0] || a[1] != "economia"@[1]);
            assert(a.len() != "balanced"@.len() || a[0] != "balanced"@[0] || a[1] != "balanced"@[1]);
            assert(a.len() != "equilibrado"@.len() || a[0] != "equilibrado"@[0] || a[1] != "equilibrado"@[1]);
            assert(a.len() != "schedutil"@.len() || a[0] != "schedutil"@[0] || a[1] != "schedutil"@[1]);
            assert(a.len() != "ondemand"@.len() || a[0] != "ondemand"@[0] || a[1] != "ondemand"@[1]);
            assert(a.len() != "conservative"@.len() || a[0] != "conservative"@[0] || a[1] != "conservative"@[1]);
            assert(a.len() != "userspace"@.len() || a[0] != "userspace"@[0] || a[1] != "userspace"@[1]);
        },
    }
}

/// The cycle key visits the three profiles in turn: after three presses the
/// profile is back where it started, and no press leaves it unchanged.
pub proof fn lemma_profile_cycle(p: PowerProfile)
    ensures
        profile_next(profile_next(profile_next(p))) == p,
        profile_next(p) != p,
        profile_next(profile_next(p)) != p,
{
}


/// The profile text of `busctl get-property` output (`s "balanced"`): the
/// output trimmed, without leading `s ` and surrounding quotes, trimmed.
pub open spec fn busctl_profile_text(out: Seq<char>) -> Seq<char> {
    trim(strip_trailing(strip_leading(strip_leading_text(trim(out), "s "@), '"'), '"'))
}

/// The profile that the contents of a cpufreq `scaling_governor` file name
/// (`None` when the file could not be read).
pub fn read_governor_profile(contents: Option<&str>) -> (r: Option<PowerProfile>)
    ensures
        r == match contents {
            Some(t) => profile_of(lower(trim(t@))),
            None => None::<PowerProfile>,
        },
{
    match contents {
        Some(t) => PowerProfile::parse(t),
        None => None,
    }
}

/// The active profile that `busctl get-property` reports.
pub fn profile_from_busctl(stdout: &str) -> (r: Option<PowerProfile>)
    ensures
        r == profile_of(lower(trim(busctl_profile_text(stdout@)))),
{
    let v = chars_of(stdout);
    let t = trim_of(&v);
    let a = strip_leading_text_of(&t, "s ");
    let b = strip_leading_of(&a, '"');
    let c = strip_trailing_of(&b, '"');
    let d = trim_of(&c);
    let text = string_of(&d);
    PowerProfile::parse(text.as_str())
}

/// The profile text of `dbus-send --print-reply` output: after the last
/// `string "`, up to the next quote.
pub open spec fn dbus_send_profile_text(out: Seq<char>) -> Option<Seq<char>> {
    match rsplit_once_text(out, "string \""@) {
        Some(p) => match split_once(p.1, "\""@) {
            Some(q) => Some(q.0),
            None => None,
        },
        None => None,
    }
}

/// The active profile that `dbus-send` reports.
pub fn profile_from_dbus_send(stdout: &str) -> (r: Option<PowerProfile>)
    ensures
        r == match dbus_send_profile_text(stdout@) {
            Some(t) => profile_of(lower(trim(t))),
            None => None,
        },
{
    let v = chars_of(stdout);
    match rsplit_once_str(&v, "string \"") {
        Some(p) => match split_once_str(&p.1, "\"") {
            Some(q) => {
                let text = string_of(&q.0);
                PowerProfile::parse(text.as_str())
            },
            None => None,
        },
        None => None,
    }
}

/// A character trimmed off a host model: whitespace or NUL.
pub open spec fn model_pad(c: char) -> bool {
    is_ws(c) || c == '\0'
}

/// The text without leading and trailing whitespace and NULs.
pub open spec fn trim_model(s: Seq<char>) -> Seq<char>
    decreases s.len(),
{
    if s.len() > 0 && model_pad(s[0]) {
        trim_model(s.drop_first())
    } else if s.len() > 0 && model_pad(s.last()) {
        trim_model(s.drop_last())
    } else {
        s
    }
}

/// The host model that a DMI or device-tree file names: its text trimmed
/// of whitespace and NULs, unless empty or a vendor placeholder.
pub open spec fn host_model_spec(text: Seq<char>) -> Option<Seq<char>> {
    let t = trim_model(text);
    if t.len() == 0 || t == "To be filled by O.E.M."@ || t == "System Product Name"@ {
        None
    } else {
        Some(t)
    }
}

fn trim_model_of(v: &[char]) -> (r: Vec<char>)
    ensures
        r@ == trim_model(v@),
{
    let mut a: usize = 0;
    let mut b: usize = v.len();
    assert(v@.subrange(0, v@.len() as int) =~= v@);
    while a < b && (char_is_ws(v[a]) || v[a] == '\0')
        invariant
            a <= b <= v.len(),
            b == v.len(),
            trim_model(v@) == trim_model(v@.subrange(a as int, b as int)),
        decreases b - a,
    {
        assert(v@.subrange(a as int, b as int).drop_first() =~= v@.subrange(a + 1, b as int));
        a = a + 1;
    }
    while a < b && (char_is_ws(v[b - 1]) || v[b - 1] == '\0')
        invariant
            a <= b <= v.len(),
            trim_model(v@) == trim_model(v@.subrange(a as int, b as int)),
            a < b ==> !model_pad(v@[a as int]),
        decreases b - a,
    {
        proof {
            let t = v@.subrange(a as int, b as int);
            assert(t[0] == v@[a as int]);
            assert(t.drop_last() =~= v@.subrange(a as int, b - 1));
        }
        b = b - 1;
    }
    proof {
        let t = v@.subrange(a as int, b as int);
        if t.len() > 0 {
            assert(t[0] == v@[a as int]);
            assert(t.last() == v@[b - 1]);
        }
    }
    crate::text::copy_range(v, a, b)
}

/// The host model named by the text of a DMI or device-tree file.
pub fn host_model(text: &str) -> (r: Option<String>)
    ensures
        match r {
            Some(m) => host_model_spec(text@) == Some(m@),
            None => host_model_spec(text@) is None,
        },
{
    let v = chars_of(text);
    let t = trim_model_of(&v);
    if t.len() == 0 || eq_str(&t, "To be filled by O.E.M.") || eq_str(&t, "System Product Name") {
        None
    } else {
        Some(string_of(&t))
    }
}

/// `(i)` is the first position of `p` in `s`.
pub open spec fn first_at(s: Seq<char>, p: Seq<char>, i: int) -> bool {
    occurs_at(s, p, i) && forall|j: int| 0 <= j < i ==> !occurs_at(s, p, j)
}

/// What `str::split_once(": ")` leaves after the separator, if it occurs.
pub open spec fn after_separator(l: Seq<char>) -> Option<Seq<char>> {
    if has_infix(l, ": "@) {
        let i = choose|i: int| #[trigger] first_at(l, ": "@, i);
        Some(l.subrange(i + 2, l.len() as int))
    } else {
        None
    }
}

/// An `lspci` line that describes a graphics adapter.
pub open spec fn is_gpu_line(l: Seq<char>) -> bool {
    has_infix(lower(l), "vga compatible controller"@) || has_infix(lower(l), "3d controller"@)
        || has_infix(lower(l), "display controller"@)
}

/// The adapter name a line gives: the text after `": "`, trimmed, if not empty.
pub open spec fn gpu_name(l: Seq<char>) -> Option<Seq<char>> {
    if is_gpu_line(l) && after_separator(l) is Some && trim(after_separator(l).unwrap()).len() > 0 {
        Some(trim(after_separator(l).unwrap()))
    } else {
        None
    }
}

/// The name given by the first line that gives one.
pub open spec fn first_gpu(ls: Seq<Seq<char>>) -> Option<Seq<char>>
    decreases ls.len(),
{
    if ls.len() == 0 {
        None
    } else if gpu_name(ls[0]) is Some {
        gpu_name(ls[0])
    } else {
        first_gpu(ls.drop_first())
    }
}

proof fn lemma_first_at_unique(s: Seq<char>, p: Seq<char>, i: int, k: int)
    requires
        first_at(s, p, i),
        first_at(s, p, k),
    ensures
        i == k,
{
    if i < k {
        assert(!occurs_at(s, p, i));
    }
    if k < i {
        assert(!occurs_at(s, p, k));
    }
}

fn gpu_name_of(l: &[char]) -> (r: Option<Vec<char>>)
    ensures
        match r {
            Some(v) => gpu_name(l@) == Some(v@),
            None => gpu_name(l@) is None,
        },
{
    let low = lower_of(l);
    let is_gpu = contains_str(&low, "vga compatible controller") || contains_str(&low, "3d controller")
        || contains_str(&low, "display controller");
    if !is_gpu {
        return None;
    }
    let sep: [char; 2] = [':', ' '];
    proof {
        reveal_strlit(": ");
    }
    assert(sep@ =~= ": "@);
    let sl: &[char] = &sep;
    assert(sl@ =~= ": "@);
    match find(l, sl) {
        None => None,
        Some(i) => {
            assert(occurs_at(l@, ": "@, i as int));
            let n = l.len();
            assert(i + 2 <= n);
            proof {
                let k = choose|k: int| #[trigger] first_at(l@, ": "@, k);
                assert(first_at(l@, ": "@, i as int));
                lemma_first_at_unique(l@, ": "@, i as int, k);
            }
            let mut rest: Vec<char> = Vec::new();
            let mut k: usize = i + 2;
            while k < l.len()
                invariant
                    i + 2 <= k <= l@.len(),
                    rest@ == l@.subrange(i + 2, k as int),
                decreases l@.len() - k,
            {
                rest.push(l[k]);
                k = k + 1;
                assert(rest@ =~= l@.subrange(i + 2, k as int));
            }
            let name = trim_of(&rest);
            if name.len() == 0 {
                None
            } else {
                Some(name)
            }
        },
    }
}

/// The graphics adapter named by `lspci` output: the first line describing a
/// VGA, 3D or display controller whose text after `": "` is not blank.
pub fn parse_lspci_gpu(output: &str) -> (r: Option<String>)
    ensures
        match r {
            Some(name) => first_gpu(lines(output@)) == Some(name@),
            None => first_gpu(lines(output@)) is None,
        },
{
    let v = chars_of(output);
    let ls = split_lines(&v);
    let ghost all = lines(v@);
    let mut i: usize = 0;
    assert(all.subrange(0, all.len() as int) =~= all);
    while i < ls.len()
        invariant
            ls@.len() == all.len(),
            forall|j: int| 0 <= j < ls@.len() ==> #[trigger] ls@[j]@ == all[j],
            i <= ls@.len(),
            all == lines(output@),
            first_gpu(all) == first_gpu(all.subrange(i as int, all.len() as int)),
        decreases ls@.len() - i,
    {
        let ghost tail = all.subrange(i as int, all.len() as int);
        assert(tail[0] == all[i as int]);
        match gpu_name_of(&ls[i]) {
            Some(name) => {
                assert(ls@[i as int]@ == all[i as int]);
                assert(first_gpu(tail) == gpu_name(tail[0]));
                return Some(string_of(&name));
            },
            None => {},
        }
        assert(tail.drop_first() =~= all.subrange(i + 1, all.len() as int));
        i = i + 1;
    }
    assert(all.subrange(i as int, all.len() as int) =~= Seq::<Seq<char>>::empty());
    None
}

/// Lines that hold more than whitespace.
pub open spec fn nonblank(l: Seq<char>) -> bool {
    trim(l).len() > 0
}

/// `dpkg-query` status lines of installed packages (`"ii"` first).
pub open spec fn installed_line(l: Seq<char>) -> bool {
    has_prefix(trim_start(l), "ii"@)
}

/// How many of the lines are not blank.
pub open spec fn count_nonblank(ls: Seq<Seq<char>>) -> nat
    decreases ls.len(),
{
    if ls.len() == 0 {
        0
    } else {
        count_nonblank(ls.drop_last()) + if nonblank(ls.last()) { 1nat } else { 0nat }
    }
}

/// How many of the lines mark an installed package.
pub open spec fn count_installed(ls: Seq<Seq<char>>) -> nat
    decreases ls.len(),
{
    if ls.len() == 0 {
        0
    } else {
        count_installed(ls.drop_last()) + if installed_line(ls.last()) { 1nat } else { 0nat }
    }
}

/// Number of lines that are not blank.
pub fn count_nonempty_lines(text: &str) -> (r: u64)
    ensures
        r == count_nonblank(lines(text@)),
{
    let v = chars_of(text);
    let ls = split_lines(&v);
    let ghost all = lines(v@);
    let mut i: usize = 0;
    let mut count: u64 = 0;
    while i < ls.len()
        invariant
            ls@.len() == all.len(),
            forall|j: int| 0 <= j < ls@.len() ==> #[trigger] ls@[j]@ == all[j],
            i <= ls@.len(),
            count <= i,
            count == count_nonblank(all.subrange(0, i as int)),
        decreases ls@.len() - i,
    {
        let t = trim_of(&ls[i]);
        assert(all.subrange(0, i + 1).drop_last() =~= all.subrange(0, i as int));
        if t.len() > 0 {
            count = count + 1;
        }
        i = i + 1;
    }
    assert(all.subrange(0, i as int) =~= all);
    count
}

/// Number of lines of `dpkg-query` output that mark an installed package.
pub fn count_installed_dpkg(text: &str) -> (r: u64)
    ensures
        r == count_installed(lines(text@)),
{
    let v = chars_of(text);
    let ls = split_lines(&v);
    let ghost all = lines(v@);
    let mut i: usize = 0;
    let mut count: u64 = 0;
    while i < ls.len()
        invariant
            ls@.len() == all.len(),
            forall|j: int| 0 <= j < ls@.len() ==> #[trigger] ls@[j]@ == all[j],
            i <= ls@.len(),
            count <= i,
            count == count_installed(all.subrange(0, i as int)),
        decreases ls@.len() - i,
    {
        let t = trim_start_of(&ls[i]);
        let yes = starts_with_str(&t, "ii");
        assert(all.subrange(0, i + 1).drop_last() =~= all.subrange(0, i as int));
        if yes {
            count = count + 1;
        }
        i = i + 1;
    }
    assert(all.subrange(0, i as int) =~= all);
    count
}

/// The magnitude of a step, in decimal.
pub open spec fn magnitude(delta: i32) -> Seq<char> {
    if delta >= 0 {
        decimal(delta as nat)
    } else {
        decimal((-delta) as nat)
    }
}

fn magnitude_of(delta: i32) -> (r: Vec<char>)
    requires
        delta > i32::MIN,
    ensures
        r@ == magnitude(delta),
{
    if delta >= 0 {
        decimal_of(delta as u64)
    } else {
        let m: i32 = -delta;
        decimal_of(m as u64)
    }
}

/// The step argument of `brightnessctl set`: `"5%+"` raises, `"5%-"` lowers.
pub fn delta_arg(delta: i32) -> (r: String)
    requires
        delta > i32::MIN,
    ensures
        r@ == magnitude(delta) + if delta >= 0 { "%+"@ } else { "%-"@ },
{
    let mut v = magnitude_of(delta);
    if delta >= 0 {
        append_str(&mut v, "%+");
    } else {
        append_str(&mut v, "%-");
    }
    string_of(&v)
}

/// The step argument of `pactl set-sink-volume`: `"+5%"` or `"-5%"`.
pub fn pactl_delta_arg(delta: i32) -> (r: String)
    requires
        delta > i32::MIN,
    ensures
        r@ == (if delta >= 0 { "+"@ } else { "-"@ }) + magnitude(delta) + "%"@,
{
    let mut v: Vec<char> = Vec::new();
    if delta >= 0 {
        v.push('+');
    } else {
        v.push('-');
    }
    let m = magnitude_of(delta);
    append(&mut v, &m);
    append_str(&mut v, "%");
    proof {
        reveal_strlit("+");
        reveal_strlit("-");
    }
    string_of(&v)
}

/// A DMI field as the firmware wrote it, trimmed; blank text and the
/// placeholders vendors leave in it give `None`.
pub open spec fn dmi_value(raw: Seq<char>) -> Option<Seq<char>> {
    let t = trim(raw);
    if t.len() == 0 || t == "To be filled by O.E.M."@ || t == "Default string"@ || t == "Unknown"@ {
        None
    } else {
        Some(t)
    }
}

/// Reads one DMI field from the text of its file.
pub fn read_dmi(contents: &str) -> (r: Option<String>)
    ensures
        match r {
            Some(v) => dmi_value(contents@) == Some(v@),
            None => dmi_value(contents@) is None,
        },
{
    let rv = chars_of(contents);
    let t = trim_of(&rv);
    if t.len() == 0 || eq_str(&t, "To be filled by O.E.M.") || eq_str(&t, "Default string") || eq_str(&t, "Unknown") {
        None
    } else {
        Some(string_of(&t))
    }
}

} // verus!
