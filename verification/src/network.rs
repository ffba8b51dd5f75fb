//! The network panel's model: Wi-Fi security and band classification, the
//! access-point list (one entry per network name, strongest or active kept)
//! and its display order.

use vstd::prelude::*;
use crate::events::DeviceId;
use crate::sort::{chars_key, is_permutation, push_chars_key, seq_le, stable_sort, stably_sorted_by};
use crate::text::{chars_of, eq_str, from_utf8_lossy, seq_eq, utf8_lossy};

verus! {

/// Security of a Wi-Fi network, as NetworkManager's flags describe it.
#[derive(Debug, Clone, Copy, PartialEq, Eq, Structural)]
pub enum Security {
    Open,
    Wep,
    Wpa,
    Wpa2,
    Wpa3,
    Wpa2Enterprise,
    Owe,
}

pub open spec fn security_label(s: Security) -> Seq<char> {
    match s {
        Security::Open => "Aberta"@,
        Security::Wep => "WEP"@,
        Security::Wpa => "WPA"@,
        Security::Wpa2 => "WPA2-PSK"@,
        Security::Wpa3 => "WPA3-SAE"@,
        Security::Wpa2Enterprise => "WPA2-Ent"@,
        Security::Owe => "OWE"@,
    }
}

impl Security {
    pub fn label(self) -> (r: &'static str)
        ensures
            r@ == security_label(self),
    {
        match self {
            Security::Open => "Aberta",
            Security::Wep => "WEP",
            Security::Wpa => "WPA",
            Security::Wpa2 => "WPA2-PSK",
            Security::Wpa3 => "WPA3-SAE",
            Security::Wpa2Enterprise => "WPA2-Ent",
            Security::Owe => "OWE",
        }
    }

    /// The protected schemes, which ask for a password.
    pub open spec fn needs_password_spec(self) -> bool {
        self == Security::Wep || self == Security::Wpa || self == Security::Wpa2 || self == Security::Wpa3
    }

    /// Whether joining asks the user for a password.
    pub fn needs_password(self) -> (r: bool)
        ensures
            r == self.needs_password_spec(),
    {
        match self {
            Security::Wep | Security::Wpa | Security::Wpa2 | Security::Wpa3 => true,
            _ => false,
        }
    }

    /// The `key-mgmt` value of a connection profile for this security.
    pub fn key_mgmt(self) -> (r: Option<&'static str>)
        ensures
            match self {
                Security::Wpa | Security::Wpa2 => r matches Some(k) && k@ == "wpa-psk"@,
                Security::Wpa3 => r matches Some(k) && k@ == "sae"@,
                Security::Wep => r matches Some(k) && k@ == "none"@,
                Security::Owe => r matches Some(k) && k@ == "owe"@,
                _ => r is None,
            },
    {
        match self {
            Security::Wpa | Security::Wpa2 => Some("wpa-psk"),
            Security::Wpa3 => Some("sae"),
            Security::Wep => Some("none"),
            Security::Owe => Some("owe"),
            _ => None,
        }
    }
}

/// The security that an access point's `Flags`, `WpaFlags` and `RsnFlags`
/// announce, the strongest scheme first.
pub open spec fn security_of(flags: u32, wpa: u32, rsn: u32) -> Security {
    if rsn & 0x400 != 0 {
        Security::Wpa3
    } else if rsn & 0x800 != 0 {
        Security::Owe
    } else if rsn & 0x200 != 0 || wpa & 0x200 != 0 {
        Security::Wpa2Enterprise
    } else if rsn & 0x100 != 0 {
        Security::Wpa2
    } else if wpa != 0 {
        Security::Wpa
    } else if flags & 0x1 != 0 {
        Security::Wep
    } else {
        Security::Open
    }
}

/// How the flags decide the security: SAE in the RSN flags means WPA3,
/// else OWE means OWE, else 802.1X key management (RSN or WPA) means
/// enterprise; otherwise an RSN pre-shared key means WPA2, whatever the WPA
/// flags say (mixed WPA/WPA2 networks are WPA2); only WPA flags without
/// RSN key management mean WPA; privacy alone means WEP, and nothing means
/// open.
pub proof fn lemma_security_classes(flags: u32, wpa: u32, rsn: u32)
    ensures
        rsn & 0x400 != 0 ==> security_of(flags, wpa, rsn) == Security::Wpa3,
        rsn & 0x400 == 0 && rsn & 0x800 != 0 ==> security_of(flags, wpa, rsn) == Security::Owe,
        rsn & 0x400 == 0 && rsn & 0x800 == 0 && (rsn & 0x200 != 0 || wpa & 0x200 != 0) ==> security_of(flags, wpa, rsn)
            == Security::Wpa2Enterprise,
        rsn & 0x100 != 0 && rsn & 0x400 == 0 && rsn & 0x800 == 0 && rsn & 0x200 == 0 && wpa & 0x200 == 0
            ==> security_of(flags, wpa, rsn) == Security::Wpa2,
        security_of(flags, wpa, rsn) == Security::Wpa ==> wpa != 0 && rsn & 0x100 == 0 && rsn & 0x200 == 0
            && rsn & 0x400 == 0 && rsn & 0x800 == 0,
        wpa == 0 && rsn == 0 ==> security_of(flags, wpa, rsn) == if flags & 0x1 != 0 { Security::Wep } else { Security::Open },
{
    assert(0u32 & 0x100u32 == 0 && 0u32 & 0x200u32 == 0 && 0u32 & 0x400u32 == 0 && 0u32 & 0x800u32 == 0) by (bit_vector);
}

pub fn derive_security(flags: u32, wpa: u32, rsn: u32) -> (r: Security)
    ensures
        r == security_of(flags, wpa, rsn),
{
    if rsn & 0x400 != 0 {
        return Security::Wpa3;
    }
    if rsn & 0x800 != 0 {
        return Security::Owe;
    }
    if rsn & 0x200 != 0 || wpa & 0x200 != 0 {
        return Security::Wpa2Enterprise;
    }
    if rsn & 0x100 != 0 {
        return Security::Wpa2;
    }
    if wpa != 0 {
        return Security::Wpa;
    }
    if flags & 0x1 != 0 {
        return Security::Wep;
    }
    Security::Open
}

/// Wi-Fi frequency band.
#[derive(Debug, Clone, Copy, PartialEq, Eq, Structural)]
pub enum WifiBand {
    Ghz24,
    Ghz5,
    Ghz6,
    Unknown,
}

impl WifiBand {
    pub fn label(self) -> (r: &'static str)
        ensures
            r@ == match self {
                WifiBand::Ghz24 => "2.4 GHz"@,
                WifiBand::Ghz5 => "5 GHz"@,
                WifiBand::Ghz6 => "6 GHz"@,
                WifiBand::Unknown => "Wi-Fi"@,
            },
    {
        match self {
            WifiBand::Ghz24 => "2.4 GHz",
            WifiBand::Ghz5 => "5 GHz",
            WifiBand::Ghz6 => "6 GHz",
            WifiBand::Unknown => "Wi-Fi",
        }
    }
}

pub open spec fn band_spec(freq_mhz: u32) -> WifiBand {
    if 2400 <= freq_mhz <= 2500 {
        WifiBand::Ghz24
    } else if 4900 <= freq_mhz <= 5900 {
        WifiBand::Ghz5
    } else if 5925 <= freq_mhz <= 7125 {
        WifiBand::Ghz6
    } else {
        WifiBand::Unknown
    }
}

/// The band of a channel frequency in MHz.
pub fn band_of(freq_mhz: u32) -> (r: WifiBand)
    ensures
        r == band_spec(freq_mhz),
{
    if 2400 <= freq_mhz && freq_mhz <= 2500 {
        WifiBand::Ghz24
    } else if 4900 <= freq_mhz && freq_mhz <= 5900 {
        WifiBand::Ghz5
    } else if 5925 <= freq_mhz && freq_mhz <= 7125 {
        WifiBand::Ghz6
    } else {
        WifiBand::Unknown
    }
}

/// The wireless interface.
#[derive(Debug, Clone)]
pub struct WifiDevice {
    pub id: DeviceId,
    pub iface: String,
    pub hw_address: String,
    pub state: u32,
    pub bitrate_kbps: u32,
    pub active_ap: Option<DeviceId>,
    pub last_scan_ms: i64,
}

/// A visible Wi-Fi network.
#[derive(Debug, Clone)]
pub struct AccessPoint {
    pub id: DeviceId,
    pub ssid: String,
    pub ssid_raw: Vec<u8>,
    pub bssid: String,
    pub strength: u8,
    pub frequency: u32,
    pub band: WifiBand,
    pub max_bitrate_kbps: u32,
    pub security: Security,
    pub is_active: bool,
    pub is_saved: bool,
    pub saved_conn_path: Option<String>,
}

/// The connection the wireless interface is using.
#[derive(Debug, Clone)]
pub struct ActiveConnectionInfo {
    pub id: DeviceId,
    pub ssid: String,
    pub state: u32,
    pub connection_path: Option<String>,
}

/// A D-Bus object path, with the null path `"/"` read as "none".
pub open spec fn object_or_none(path: Seq<char>) -> Option<Seq<char>> {
    if path == "/"@ {
        None
    } else {
        Some(path)
    }
}

fn object_path_or_none(path: &str) -> (r: Option<String>)
    ensures
        match r {
            Some(p) => object_or_none(path@) == Some(p@),
            None => object_or_none(path@) is None,
        },
{
    let v = chars_of(path);
    if eq_str(&v, "/") {
        None
    } else {
        Some(String::from_str(path))
    }
}

impl WifiDevice {
    /// The interface as NetworkManager describes it; an active access point
    /// of `"/"` means none.
    pub fn from_properties(
        dev_path: &str,
        iface: String,
        hw_address: String,
        state: u32,
        bitrate_kbps: u32,
        active_ap_path: &str,
        last_scan_ms: i64,
    ) -> (r: WifiDevice)
        ensures
            r.id.0@ == dev_path@,
            r.iface == iface,
            r.hw_address == hw_address,
            r.state == state,
            r.bitrate_kbps == bitrate_kbps,
            r.last_scan_ms == last_scan_ms,
            match r.active_ap {
                Some(a) => object_or_none(active_ap_path@) == Some(a.0@),
                None => object_or_none(active_ap_path@) is None,
            },
    {
        let active_ap = match object_path_or_none(active_ap_path) {
            Some(p) => Some(DeviceId(p)),
            None => None,
        };
        WifiDevice {
            id: DeviceId(String::from_str(dev_path)),
            iface,
            hw_address,
            state,
            bitrate_kbps,
            active_ap,
            last_scan_ms,
        }
    }
}

impl ActiveConnectionInfo {
    /// The active connection as NetworkManager describes it; a profile path
    /// of `"/"` means none.
    pub fn from_properties(active_path: &str, ssid: String, state: u32, conn_path: &str) -> (r: ActiveConnectionInfo)
        ensures
            r.id.0@ == active_path@,
            r.ssid == ssid,
            r.state == state,
            match r.connection_path {
                Some(p) => object_or_none(conn_path@) == Some(p@),
                None => object_or_none(conn_path@) is None,
            },
    {
        ActiveConnectionInfo {
            id: DeviceId(String::from_str(active_path)),
            ssid,
            state,
            connection_path: object_path_or_none(conn_path),
        }
    }
}

/// The profile path saved for a network name: the last entry naming it wins,
/// as in a map filled in order.
pub open spec fn saved_profile(saved: Seq<(String, String)>, ssid: Seq<char>) -> Option<Seq<char>>
    decreases saved.len(),
{
    if saved.len() == 0 {
        None
    } else if saved.last().0@ == ssid {
        Some(saved.last().1@)
    } else {
        saved_profile(saved.drop_last(), ssid)
    }
}

fn saved_profile_of(saved: &Vec<(String, String)>, ssid: &[char]) -> (r: Option<String>)
    ensures
        match r {
            Some(p) => saved_profile(saved@, ssid@) == Some(p@),
            None => saved_profile(saved@, ssid@) is None,
        },
{
    let mut i: usize = saved.len();
    assert(saved@.subrange(0, i as int) =~= saved@);
    while i > 0
        invariant
            i <= saved@.len(),
            saved_profile(saved@, ssid@) == saved_profile(saved@.subrange(0, i as int), ssid@),
        decreases i,
    {
        let nv = chars_of(saved[i - 1].0.as_str());
        let ghost pre = saved@.subrange(0, i as int);
        assert(pre.last() == saved@[i - 1]);
        assert(pre.drop_last() =~= saved@.subrange(0, i - 1));
        if seq_eq(&nv, ssid) {
            return Some(saved[i - 1].1.clone());
        }
        i = i - 1;
    }
    None
}

/// What NetworkManager reports of one access point.
pub struct AccessPointProperties {
    pub path: String,
    pub ssid_raw: Vec<u8>,
    pub strength: u8,
    pub frequency: u32,
    pub bssid: String,
    pub max_bitrate_kbps: u32,
    pub flags: u32,
    pub wpa_flags: u32,
    pub rsn_flags: u32,
}

impl AccessPoint {
    /// Builds the list entry of an access point whose SSID bytes read as
    /// `ssid`: hidden networks (whose name is empty) give `None`; the point is active when it is the interface's active access point, and
    /// saved when a profile exists for its name.
    pub fn from_decoded(
        props: AccessPointProperties,
        ssid: String,
        active_ap_path: &str,
        saved: &Vec<(String, String)>,
    ) -> (r: Option<AccessPoint>)
        ensures
            match r {
                None => ssid@.len() == 0,
                Some(ap) => {
                &&& ssid@.len() > 0
                &&& ap.id.0@ == props.path@
                &&& ap.ssid@ == ssid@
                &&& ap.ssid_raw@ == props.ssid_raw@
                &&& ap.bssid@ == props.bssid@
                &&& ap.strength == props.strength
                &&& ap.frequency == props.frequency
                &&& ap.band == band_spec(props.frequency)
                &&& ap.max_bitrate_kbps == props.max_bitrate_kbps
                &&& ap.security == security_of(props.flags, props.wpa_flags, props.rsn_flags)
                &&& ap.is_active == (props.path@ == active_ap_path@)
                &&& ap.is_saved == saved_profile(saved@, ap.ssid@) is Some
                &&& match ap.saved_conn_path {
                    Some(p) => saved_profile(saved@, ap.ssid@) == Some(p@),
                    None => saved_profile(saved@, ap.ssid@) is None,
                }
                },
            },
    {
        let sv = chars_of(ssid.as_str());
        if sv.len() == 0 {
            return None;
        }
        let security = derive_security(props.flags, props.wpa_flags, props.rsn_flags);
        let band = band_of(props.frequency);
        let pv = chars_of(props.path.as_str());
        let av = chars_of(active_ap_path);
        let is_active = seq_eq(&pv, &av);
        let saved_conn_path = saved_profile_of(saved, &sv);
        let is_saved = match &saved_conn_path {
            Some(_) => true,
            None => false,
        };
        Some(AccessPoint {
            id: DeviceId(props.path),
            ssid,
            ssid_raw: props.ssid_raw,
            bssid: props.bssid,
            strength: props.strength,
            frequency: props.frequency,
            band,
            max_bitrate_kbps: props.max_bitrate_kbps,
            security,
            is_active,
            is_saved,
            saved_conn_path,
        })
    }

    /// Builds the list entry of an access point: hidden networks (whose name
    /// is empty) give `None`; the name is the SSID bytes read as UTF-8, the
    /// point is active when it is the interface's active access point, and
    /// saved when a profile exists for its name.
    pub fn from_properties(
        props: AccessPointProperties,
        active_ap_path: &str,
        saved: &Vec<(String, String)>,
    ) -> (r: Option<AccessPoint>)
        ensures
            match r {
                None => utf8_lossy(props.ssid_raw@).len() == 0,
                Some(ap) => {
                &&& utf8_lossy(props.ssid_raw@).len() > 0
                &&& ap.id.0@ == props.path@
                &&& ap.ssid@ == utf8_lossy(props.ssid_raw@)
                &&& ap.ssid_raw@ == props.ssid_raw@
                &&& ap.bssid@ == props.bssid@
                &&& ap.strength == props.strength
                &&& ap.frequency == props.frequency
                &&& ap.band == band_spec(props.frequency)
                &&& ap.max_bitrate_kbps == props.max_bitrate_kbps
                &&& ap.security == security_of(props.flags, props.wpa_flags, props.rsn_flags)
                &&& ap.is_active == (props.path@ == active_ap_path@)
                &&& ap.is_saved == saved_profile(saved@, ap.ssid@) is Some
                &&& match ap.saved_conn_path {
                    Some(p) => saved_profile(saved@, ap.ssid@) == Some(p@),
                    None => saved_profile(saved@, ap.ssid@) is None,
                }
                },
            },
    {
        let ssid = from_utf8_lossy(props.ssid_raw.as_slice());
        AccessPoint::from_decoded(props, ssid, active_ap_path, saved)
    }
}

/// No two entries share a network name.
pub open spec fn unique_names(aps: Seq<AccessPoint>) -> bool {
    forall|i: int, j: int| 0 <= i < j < aps.len() ==> aps[i].ssid@ != aps[j].ssid@
}

/// Whether `ap` takes the place of `existing` of the same name: an active
/// point always does; otherwise a stronger one does, unless `existing` is active.
pub open spec fn replaces(ap: AccessPoint, existing: AccessPoint) -> bool {
    ap.is_active || (!existing.is_active && ap.strength > existing.strength)
}

/// Adds one scanned point to the per-name list.
pub open spec fn merged(kept: Seq<AccessPoint>, ap: AccessPoint) -> Seq<AccessPoint> {
    if exists|i: int| 0 <= i < kept.len() && kept[i].ssid@ == ap.ssid@ {
        let i = choose|i: int| 0 <= i < kept.len() && kept[i].ssid@ == ap.ssid@;
        if replaces(ap, kept[i]) {
            kept.update(i, ap)
        } else {
            kept
        }
    } else {
        kept.push(ap)
    }
}

/// The scanned points reduced to one per network name, in the order the
/// names first appear.
pub open spec fn deduplicated(aps: Seq<AccessPoint>) -> Seq<AccessPoint>
    decreases aps.len(),
{
    if aps.len() == 0 {
        Seq::empty()
    } else {
        merged(deduplicated(aps.drop_last()), aps.last())
    }
}

/// Display order of the list: the active network first, then saved ones,
/// then by decreasing signal strength, then by name.
pub open spec fn ap_key(ap: AccessPoint) -> Seq<u32> {
    seq![
        if ap.is_active { 0u32 } else { 1u32 },
        if ap.is_saved { 0u32 } else { 1u32 },
        (255 - ap.strength) as u32,
    ] + chars_key(ap.ssid@)
}

/// `out` holds the entries of `kept`, each once, in display order.
pub open spec fn in_display_order(kept: Seq<AccessPoint>, out: Seq<AccessPoint>) -> bool {
    exists|perm: Seq<int>|
        {
            &&& is_permutation(perm, kept.len() as int)
            &&& out.len() == kept.len()
            &&& forall|i: int| 0 <= i < out.len() ==> #[trigger] out[i] == kept[perm[i]]
            &&& forall|i: int, j: int| 0 <= i < j < out.len() ==> seq_le(ap_key(out[i]), ap_key(out[j]))
        }
}

fn merge_into(kept: &mut Vec<AccessPoint>, ap: AccessPoint)
    requires
        unique_names(old(kept)@),
    ensures
        final(kept)@ == merged(old(kept)@, ap),
        unique_names(final(kept)@),
{
    let av = chars_of(ap.ssid.as_str());
    let mut i: usize = 0;
    while i < kept.len()
        invariant
            i <= kept@.len(),
            kept@ == old(kept)@,
            unique_names(kept@),
            av@ == ap.ssid@,
            forall|j: int| 0 <= j < i ==> kept@[j].ssid@ != ap.ssid@,
        decreases kept@.len() - i,
    {
        let kv = chars_of(kept[i].ssid.as_str());
        if seq_eq(&kv, &av) {
            proof {
                let c = choose|c: int| 0 <= c < kept@.len() && kept@[c].ssid@ == ap.ssid@;
                if c != i {
                    if c < i {
                        assert(kept@[c].ssid@ != ap.ssid@);
                    } else {
                        assert(kept@[i as int].ssid@ != kept@[c].ssid@);
                    }
                }
            }
            let take = ap.is_active || (!kept[i].is_active && ap.strength > kept[i].strength);
            if take {
                kept.set(i, ap);
                proof {
                    assert forall|a: int, b: int| 0 <= a < b < kept@.len() implies kept@[a].ssid@ != kept@[b].ssid@ by {
                        if a != i && b != i {
                            assert(old(kept)@[a].ssid@ != old(kept)@[b].ssid@);
                        } else if a == i {
                            assert(old(kept)@[a].ssid@ != old(kept)@[b].ssid@);
                        } else {
                            assert(old(kept)@[a].ssid@ != old(kept)@[b].ssid@);
                        }
                    }
                }
            }
            return;
        }
        i = i + 1;
    }
    kept.push(ap);
}

proof fn lemma_merged_keeps_active(kept: Seq<AccessPoint>, ap: AccessPoint, n: Seq<char>)
    requires
        unique_names(kept),
        (exists|k: int| 0 <= k < kept.len() && kept[k].ssid@ == n && kept[k].is_active) || (ap.ssid@ == n && ap.is_active),
    ensures
        exists|k: int| 0 <= k < merged(kept, ap).len() && merged(kept, ap)[k].ssid@ == n && merged(kept, ap)[k].is_active,
{
    let m = merged(kept, ap);
    if exists|i: int| 0 <= i < kept.len() && kept[i].ssid@ == ap.ssid@ {
        let i = choose|i: int| 0 <= i < kept.len() && kept[i].ssid@ == ap.ssid@;
        if ap.ssid@ == n && ap.is_active {
            assert(m[i] == ap);
        } else {
            let k = choose|k: int| 0 <= k < kept.len() && kept[k].ssid@ == n && kept[k].is_active;
            if k == i {
                if replaces(ap, kept[i]) {
                    assert(ap.is_active);
                    assert(m[i] == ap);
                } else {
                    assert(m[k] == kept[k]);
                }
            } else {
                assert(m[k] == kept[k]);
            }
        }
    } else {
        if ap.ssid@ == n && ap.is_active {
            assert(m[kept.len() as int] == ap);
        } else {
            let k = choose|k: int| 0 <= k < kept.len() && kept[k].ssid@ == n && kept[k].is_active;
            assert(m[k] == kept[k]);
        }
    }
}

proof fn lemma_merged_unique(kept: Seq<AccessPoint>, ap: AccessPoint)
    requires
        unique_names(kept),
    ensures
        unique_names(merged(kept, ap)),
{
    let m = merged(kept, ap);
    if exists|i: int| 0 <= i < kept.len() && kept[i].ssid@ == ap.ssid@ {
        let i = choose|i: int| 0 <= i < kept.len() && kept[i].ssid@ == ap.ssid@;
        assert forall|a: int, b: int| 0 <= a < b < m.len() implies m[a].ssid@ != m[b].ssid@ by {
            if a == i {
                assert(kept[b].ssid@ != kept[i].ssid@);
            } else if b == i {
                assert(kept[a].ssid@ != kept[i].ssid@);
            }
        }
    } else {
        assert forall|a: int, b: int| 0 <= a < b < m.len() implies m[a].ssid@ != m[b].ssid@ by {
            if b == kept.len() {
                assert(kept[a].ssid@ != ap.ssid@);
            }
        }
    }
}

/// When any scanned point of a network is the connected one, the single
/// entry kept for that network is the connected point (an active point
/// always takes the place of the others, and none takes its place).
pub proof fn lemma_active_point_kept(aps: Seq<AccessPoint>, n: Seq<char>)
    requires
        exists|j: int| 0 <= j < aps.len() && aps[j].ssid@ == n && aps[j].is_active,
    ensures
        exists|k: int| 0 <= k < deduplicated(aps).len() && deduplicated(aps)[k].ssid@ == n
            && deduplicated(aps)[k].is_active,
    decreases aps.len(),
{
    lemma_deduplicated_unique(aps.drop_last());
    assert(deduplicated(aps) == merged(deduplicated(aps.drop_last()), aps.last()));
    if aps.last().ssid@ == n && aps.last().is_active {
        lemma_merged_keeps_active(deduplicated(aps.drop_last()), aps.last(), n);
    } else {
        let j = choose|j: int| 0 <= j < aps.len() && aps[j].ssid@ == n && aps[j].is_active;
        assert(j < aps.len() - 1);
        assert(aps.drop_last()[j] == aps[j]);
        lemma_active_point_kept(aps.drop_last(), n);
        lemma_merged_keeps_active(deduplicated(aps.drop_last()), aps.last(), n);
    }
}

/// When no scanned point of a network is the connected one, the entry kept
/// for it is at least as strong as every point of that name, and it is one
/// of them.
pub proof fn lemma_strongest_point_kept(aps: Seq<AccessPoint>, n: Seq<char>)
    requires
        exists|j: int| 0 <= j < aps.len() && aps[j].ssid@ == n,
        forall|j: int| 0 <= j < aps.len() && aps[j].ssid@ == n ==> !aps[j].is_active,
    ensures
        exists|k: int| 0 <= k < deduplicated(aps).len() && deduplicated(aps)[k].ssid@ == n && {
            &&& forall|j: int| 0 <= j < aps.len() && aps[j].ssid@ == n ==> aps[j].strength <= deduplicated(aps)[k].strength
            &&& exists|j: int| 0 <= j < aps.len() && aps[j] == deduplicated(aps)[k]
        },
    decreases aps.len(),
{
    lemma_deduplicated_unique(aps.drop_last());
    let d = deduplicated(aps.drop_last());
    let ap = aps.last();
    let m = merged(d, ap);
    assert(deduplicated(aps) == m);
    let lastj = aps.len() - 1;
    assert(aps[lastj] == ap);
    if exists|j: int| 0 <= j < aps.drop_last().len() && aps.drop_last()[j].ssid@ == n {
        assert forall|j: int| 0 <= j < aps.drop_last().len() && aps.drop_last()[j].ssid@ == n implies !aps.drop_last()[j].is_active by {
            assert(aps.drop_last()[j] == aps[j]);
        }
        lemma_strongest_point_kept(aps.drop_last(), n);
        let k = choose|k: int| 0 <= k < d.len() && d[k].ssid@ == n && {
            &&& forall|j: int| 0 <= j < aps.drop_last().len() && aps.drop_last()[j].ssid@ == n ==> aps.drop_last()[j].strength <= d[k].strength
            &&& exists|j: int| 0 <= j < aps.drop_last().len() && aps.drop_last()[j] == d[k]
        };
        let jk = choose|j: int| 0 <= j < aps.drop_last().len() && aps.drop_last()[j] == d[k];
        assert(aps[jk] == d[k]);
        if ap.ssid@ == n {
            let i = choose|i: int| 0 <= i < d.len() && d[i].ssid@ == ap.ssid@;
            assert(i == k) by {
                if i != k {
                    if i < k { assert(d[i].ssid@ != d[k].ssid@); } else { assert(d[k].ssid@ != d[i].ssid@); }
                }
            }
            assert(!ap.is_active);
            assert(!d[k].is_active) by {
                assert(aps.drop_last()[jk] == d[k]);
            }
            if replaces(ap, d[k]) {
                assert(m[k] == ap);
                assert forall|j: int| 0 <= j < aps.len() && aps[j].ssid@ == n implies aps[j].strength <= m[k].strength by {
                    if j < lastj {
                        assert(aps.drop_last()[j] == aps[j]);
                    }
                }
            } else {
                assert(m[k] == d[k]);
                assert forall|j: int| 0 <= j < aps.len() && aps[j].ssid@ == n implies aps[j].strength <= m[k].strength by {
                    if j < lastj {
                        assert(aps.drop_last()[j] == aps[j]);
                    }
                }
            }
        } else {
            if exists|i: int| 0 <= i < d.len() && d[i].ssid@ == ap.ssid@ {
                let i = choose|i: int| 0 <= i < d.len() && d[i].ssid@ == ap.ssid@;
                assert(i != k);
                assert(m[k] == d[k]);
            } else {
                assert(m[k] == d[k]);
            }
            assert forall|j: int| 0 <= j < aps.len() && aps[j].ssid@ == n implies aps[j].strength <= m[k].strength by {
                if j < lastj {
                    assert(aps.drop_last()[j] == aps[j]);
                }
            }
        }
    } else {
        assert(ap.ssid@ == n) by {
            let j = choose|j: int| 0 <= j < aps.len() && aps[j].ssid@ == n;
            if j < lastj {
                assert(aps.drop_last()[j] == aps[j]);
            }
        }
        assert(!(exists|i: int| 0 <= i < d.len() && d[i].ssid@ == ap.ssid@)) by {
            if exists|i: int| 0 <= i < d.len() && d[i].ssid@ == ap.ssid@ {
                let i = choose|i: int| 0 <= i < d.len() && d[i].ssid@ == ap.ssid@;
                lemma_deduplicated_from(aps.drop_last(), i);
            }
        }
        let k = d.len() as int;
        assert(m[k] == ap);
        assert forall|j: int| 0 <= j < aps.len() && aps[j].ssid@ == n implies aps[j].strength <= m[k].strength by {
            if j < lastj {
                assert(aps.drop_last()[j] == aps[j]);
            }
        }
    }
}

/// Every kept entry is one of the scanned points.
proof fn lemma_deduplicated_from(aps: Seq<AccessPoint>, k: int)
    requires
        0 <= k < deduplicated(aps).len(),
    ensures
        exists|j: int| 0 <= j < aps.len() && aps[j] == deduplicated(aps)[k],
    decreases aps.len(),
{
    let d = deduplicated(aps.drop_last());
    let ap = aps.last();
    assert(deduplicated(aps) == merged(d, ap));
    assert(aps[aps.len() - 1] == ap);
    let m = merged(d, ap);
    if k < d.len() && m[k] == d[k] {
        lemma_deduplicated_from(aps.drop_last(), k);
        let j = choose|j: int| 0 <= j < aps.drop_last().len() && aps.drop_last()[j] == d[k];
        assert(aps[j] == aps.drop_last()[j]);
    } else {
        if exists|i: int| 0 <= i < d.len() && d[i].ssid@ == ap.ssid@ {
            let i = choose|i: int| 0 <= i < d.len() && d[i].ssid@ == ap.ssid@;
            if replaces(ap, d[i]) {
                if k != i {
                    assert(m[k] == d[k]);
                }
            }
        }
    }
}

proof fn lemma_deduplicated_unique(aps: Seq<AccessPoint>)
    ensures
        unique_names(deduplicated(aps)),
    decreases aps.len(),
{
    if aps.len() > 0 {
        lemma_deduplicated_unique(aps.drop_last());
        lemma_merged_unique(deduplicated(aps.drop_last()), aps.last());
    }
}

/// The access-point list shown by the panel: one entry per network name
/// (per `replaces`), in display order (`ap_key`).
pub fn order_access_points(raw: Vec<AccessPoint>) -> (r: Vec<AccessPoint>)
    ensures
        in_display_order(deduplicated(raw@), r@),
        unique_names(r@),
{
    let ghost raw_v = raw@;
    let mut kept: Vec<AccessPoint> = Vec::new();
    let mut src = raw;
    let ghost mut k: int = 0;
    proof {
        assert(raw_v.subrange(0, 0) =~= Seq::<AccessPoint>::empty());
    }
    while src.len() > 0
        invariant
            0 <= k <= raw_v.len(),
            src@ == raw_v.subrange(k, raw_v.len() as int),
            kept@ == deduplicated(raw_v.subrange(0, k)),
            unique_names(kept@),
        decreases src@.len(),
    {
        let ap = src.remove(0);
        proof {
            assert(raw_v.subrange(0, k + 1).drop_last() =~= raw_v.subrange(0, k));
            assert(raw_v.subrange(0, k + 1).last() == raw_v[k]);
        }
        merge_into(&mut kept, ap);
        proof {
            k = k + 1;
            assert(src@ =~= raw_v.subrange(k, raw_v.len() as int));
        }
    }
    proof {
        assert(raw_v.subrange(0, k) =~= raw_v);
    }
    let ghost dedup = kept@;
    let mut keyed: Vec<(Vec<u32>, AccessPoint)> = Vec::new();
    let mut rest = kept;
    let ghost mut j: int = 0;
    while rest.len() > 0
        invariant
            0 <= j <= dedup.len(),
            rest@ == dedup.subrange(j, dedup.len() as int),
            keyed@.len() == j,
            forall|i: int| 0 <= i < j ==> (#[trigger] keyed@[i]).1 == dedup[i] && keyed@[i].0@ == ap_key(dedup[i]),
        decreases rest@.len(),
    {
        let ap = rest.remove(0);
        let mut key: Vec<u32> = Vec::new();
        key.push(if ap.is_active { 0u32 } else { 1u32 });
        key.push(if ap.is_saved { 0u32 } else { 1u32 });
        key.push((255 - ap.strength) as u32);
        let sv = chars_of(ap.ssid.as_str());
        push_chars_key(&mut key, &sv);
        assert(key@ =~= ap_key(ap));
        keyed.push((key, ap));
        proof {
            j = j + 1;
            assert(rest@ =~= dedup.subrange(j, dedup.len() as int));
        }
    }
    let ghost keyed_v = keyed@;
    let (sorted, perm) = stable_sort(keyed);
    let mut out: Vec<AccessPoint> = Vec::new();
    let mut rest2 = sorted;
    let ghost sorted_v = rest2@;
    let ghost mut m: int = 0;
    while rest2.len() > 0
        invariant
            0 <= m <= sorted_v.len(),
            rest2@ == sorted_v.subrange(m, sorted_v.len() as int),
            out@.len() == m,
            forall|i: int| 0 <= i < m ==> #[trigger] out@[i] == sorted_v[i].1,
        decreases rest2@.len(),
    {
        let (_key, ap) = rest2.remove(0);
        out.push(ap);
        proof {
            m = m + 1;
            assert(rest2@ =~= sorted_v.subrange(m, sorted_v.len() as int));
        }
    }
    proof {
        let p = perm@;
        assert(stably_sorted_by(keyed_v, sorted_v, p));
        assert forall|i: int| 0 <= i < out@.len() implies #[trigger] out@[i] == dedup[p[i]] by {
            assert(sorted_v[i] == keyed_v[p[i]]);
        }
        assert forall|a: int, b: int| 0 <= a < b < out@.len() implies seq_le(ap_key(out@[a]), ap_key(out@[b])) by {
            assert(sorted_v[a] == keyed_v[p[a]]);
            assert(sorted_v[b] == keyed_v[p[b]]);
        }
        assert(in_display_order(dedup, out@));
        assert forall|a: int, b: int| 0 <= a < b < out@.len() implies out@[a].ssid@ != out@[b].ssid@ by {
            assert(out@[a] == dedup[p[a]]);
            assert(out@[b] == dedup[p[b]]);
            if p[a] < p[b] {
                assert(dedup[p[a]].ssid@ != dedup[p[b]].ssid@);
            } else {
                assert(dedup[p[b]].ssid@ != dedup[p[a]].ssid@);
            }
        }
    }
    out
}

/// How often the network snapshot is refreshed: the configured interval,
/// but never more often than every two seconds.
pub fn network_poll_interval_ms(polling_ms: u64) -> (r: u64)
    ensures
        r == if polling_ms < 2000 { 2000 } else { polling_ms },
{
    if polling_ms < 2000 { 2000 } else { polling_ms }
}

/// A request the network backend carries out through NetworkManager.
#[derive(Debug, Clone, PartialEq, Eq)]
pub enum NetworkRequest {
    Rescan,
    ToggleRadio,
    /// Connect to the network of this SSID.
    Connect(String),
    Disconnect,
    Forget,
}

/// What the user is told once a request has returned.
#[derive(Debug, Clone, PartialEq, Eq)]
pub enum NetworkReport {
    ScanStarted,
    RescanFailed(String),
    /// The radio is now on (`true`) or off.
    RadioState(bool),
    RadioFailed(String),
    ConnectStarted(String),
    ConnectFailed(String),
    Disconnected,
    DisconnectFailed(String),
    Forgotten,
    ForgetFailed(String),
}

/// What follows a request: the report, how long to wait before reading the
/// state again (milliseconds), and whether to read it at all.
#[derive(Debug, Clone, PartialEq, Eq)]
pub struct NetworkFollowUp {
    pub report: NetworkReport,
    pub wait_ms: u64,
    pub refresh: bool,
}

/// The follow-up of a request given what the call returned (`Ok(on)`;
/// `on` is the radio's new state and matters only for the radio). A rescan
/// is read back after 1.5 s and a connection attempt after 1 s; the radio
/// is read back only when it switched; disconnecting and forgetting are
/// read back at once, whatever happened.
pub fn network_follow_up(req: NetworkRequest, result: Result<bool, String>) -> (r: NetworkFollowUp)
    ensures
        r == (match req {
            NetworkRequest::Rescan => NetworkFollowUp {
                report: match result { Ok(_) => NetworkReport::ScanStarted, Err(e) => NetworkReport::RescanFailed(e) },
                wait_ms: 1500,
                refresh: true,
            },
            NetworkRequest::ToggleRadio => NetworkFollowUp {
                report: match result { Ok(on) => NetworkReport::RadioState(on), Err(e) => NetworkReport::RadioFailed(e) },
                wait_ms: 0,
                refresh: result is Ok,
            },
            NetworkRequest::Connect(ssid) => NetworkFollowUp {
                report: match result { Ok(_) => NetworkReport::ConnectStarted(ssid), Err(e) => NetworkReport::ConnectFailed(e) },
                wait_ms: 1000,
                refresh: true,
            },
            NetworkRequest::Disconnect => NetworkFollowUp {
                report: match result { Ok(_) => NetworkReport::Disconnected, Err(e) => NetworkReport::DisconnectFailed(e) },
                wait_ms: 0,
                refresh: true,
            },
            NetworkRequest::Forget => NetworkFollowUp {
                report: match result { Ok(_) => NetworkReport::Forgotten, Err(e) => NetworkReport::ForgetFailed(e) },
                wait_ms: 0,
                refresh: true,
            },
        }),
{
    match req {
        NetworkRequest::Rescan => NetworkFollowUp {
            report: match result { Ok(_) => NetworkReport::ScanStarted, Err(e) => NetworkReport::RescanFailed(e) },
            wait_ms: 1500,
            refresh: true,
        },
        NetworkRequest::ToggleRadio => {
            let ok = result.is_ok();
            NetworkFollowUp {
                report: match result { Ok(on) => NetworkReport::RadioState(on), Err(e) => NetworkReport::RadioFailed(e) },
                wait_ms: 0,
                refresh: ok,
            }
        },
        NetworkRequest::Connect(ssid) => NetworkFollowUp {
            report: match result { Ok(_) => NetworkReport::ConnectStarted(ssid), Err(e) => NetworkReport::ConnectFailed(e) },
            wait_ms: 1000,
            refresh: true,
        },
        NetworkRequest::Disconnect => NetworkFollowUp {
            report: match result { Ok(_) => NetworkReport::Disconnected, Err(e) => NetworkReport::DisconnectFailed(e) },
            wait_ms: 0,
            refresh: true,
        },
        NetworkRequest::Forget => NetworkFollowUp {
            report: match result { Ok(_) => NetworkReport::Forgotten, Err(e) => NetworkReport::ForgetFailed(e) },
            wait_ms: 0,
            refresh: true,
        },
    }
}

/// The addresses of the Wi-Fi link, as its IPv4 configuration gives them.
#[derive(Debug, Clone, PartialEq, Eq)]
pub struct NetAddresses {
    pub ipv4: Option<String>,
    pub gateway: Option<String>,
}

/// The link's addresses from its IPv4 configuration object: nothing when
/// the device has none (its path is `/`); otherwise the gateway unless it
/// is empty, and the address of the first entry of `AddressData` (each
/// entry's `address`, where it is a string).
pub fn addresses_from_ip4_config(config_path: &str, gateway: String, addresses: Vec<Option<String>>) -> (r: NetAddresses)
    ensures
        config_path@ == "/"@ ==> r.ipv4 is None && r.gateway is None,
        config_path@ != "/"@ ==> {
            &&& r.gateway == if gateway@.len() == 0 { None::<String> } else { Some(gateway) }
            &&& r.ipv4 == if addresses@.len() > 0 { addresses@[0] } else { None::<String> }
        },
{
    let pv = chars_of(config_path);
    if eq_str(&pv, "/") {
        return NetAddresses { ipv4: None, gateway: None };
    }
    let gv = chars_of(gateway.as_str());
    let gw = if gv.len() == 0 { None } else { Some(gateway) };
    let mut addresses = addresses;
    let ip = if addresses.len() > 0 { addresses.swap_remove(0) } else { None };
    NetAddresses { ipv4: ip, gateway: gw }
}

} // verus!
