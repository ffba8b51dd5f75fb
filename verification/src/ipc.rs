//! The agent-facing JSON-RPC 2.0 service: the consent gatekeeper that every
//! mutating call must pass, the errors the service answers with, and the
//! routing of a request to what it reads or does.

use vstd::prelude::*;
use crate::multiboot::{join, path_join};
use crate::text::{append, append_str, chars_of, decimal, decimal_of, eq_str, string_of};

verus! {

/// A consent request waiting for the user's decision.
#[derive(Debug, Clone)]
pub struct ConsentRequest {
    pub id: u64,
    pub method: String,
    pub description: String,
}

/// The consent gatekeeper's state: the requests shown to the user, the last
/// identifier handed out, and its two switches.
pub struct Gatekeeper {
    pending: Vec<ConsentRequest>,
    next_id: u64,
    auto_approve: bool,
    listener_attached: bool,
}

/// What a new consent request comes to.
#[derive(Debug, Clone, Copy, PartialEq, Eq, Structural)]
pub enum ConsentOutcome {
    /// Approved at once (automatic approval is on).
    Approved,
    /// Denied at once: no user interface is attached to ask.
    Denied,
    /// Waiting for the user; decided later by `resolve` with this identifier.
    Pending(u64),
}

/// `resolve` was given an identifier that is not pending.
#[derive(Debug, Clone, Copy, PartialEq, Eq, Structural)]
pub struct UnknownConsent {
    pub id: u64,
}

impl UnknownConsent {
    /// `"pedido de consentimento <id> não encontrado"`.
    pub fn message(&self) -> (r: String)
        ensures
            r@ == "pedido de consentimento "@ + decimal(self.id as nat) + " não encontrado"@,
    {
        let mut v: Vec<char> = Vec::new();
        append_str(&mut v, "pedido de consentimento ");
        let d = decimal_of(self.id);
        append(&mut v, &d);
        append_str(&mut v, " não encontrado");
        string_of(&v)
    }
}

/// The identifiers of the pending requests, in order.
pub open spec fn pending_ids(p: Seq<ConsentRequest>) -> Seq<u64> {
    p.map_values(|r: ConsentRequest| r.id)
}

/// The pending requests with `id` taken out.
pub open spec fn without_id(p: Seq<ConsentRequest>, id: u64) -> Seq<ConsentRequest> {
    p.filter(|r: ConsentRequest| r.id != id)
}

impl Gatekeeper {
    /// Pending identifiers are distinct, increasing in order of arrival, and
    /// never above the last one handed out.
    pub closed spec fn wf(&self) -> bool {
        &&& forall|i: int, j: int| 0 <= i < j < self.pending@.len() ==> self.pending@[i].id < self.pending@[j].id
        &&& forall|i: int| 0 <= i < self.pending@.len() ==> #[trigger] self.pending@[i].id <= self.next_id
    }

    pub closed spec fn pending_view(&self) -> Seq<ConsentRequest> {
        self.pending@
    }

    pub closed spec fn last_id(&self) -> u64 {
        self.next_id
    }

    pub closed spec fn auto_approve_view(&self) -> bool {
        self.auto_approve
    }

    pub closed spec fn listener_view(&self) -> bool {
        self.listener_attached
    }

    /// A gatekeeper with nothing pending, no listener and approval by the user.
    pub fn new() -> (r: Gatekeeper)
        ensures
            r.wf(),
            r.pending_view().len() == 0,
            r.last_id() == 0,
            !r.auto_approve_view(),
            !r.listener_view(),
    {
        Gatekeeper { pending: Vec::new(), next_id: 0, auto_approve: false, listener_attached: false }
    }

    /// Turns automatic approval (a development mode) on or off.
    pub fn set_auto_approve(&mut self, enabled: bool)
        ensures
            final(self).auto_approve_view() == enabled,
            final(self).listener_view() == old(self).listener_view(),
            final(self).pending_view() == old(self).pending_view(),
            final(self).last_id() == old(self).last_id(),
            old(self).wf() ==> final(self).wf(),
    {
        self.auto_approve = enabled;
    }

    /// The user interface attaches its consent dialog.
    pub fn attach_listener(&mut self)
        ensures
            final(self).listener_view(),
            final(self).auto_approve_view() == old(self).auto_approve_view(),
            final(self).pending_view() == old(self).pending_view(),
            final(self).last_id() == old(self).last_id(),
            old(self).wf() ==> final(self).wf(),
    {
        self.listener_attached = true;
    }

    /// The user interface takes its consent dialog down.
    pub fn detach_listener(&mut self)
        ensures
            !final(self).listener_view(),
            final(self).auto_approve_view() == old(self).auto_approve_view(),
            final(self).pending_view() == old(self).pending_view(),
            final(self).last_id() == old(self).last_id(),
            old(self).wf() ==> final(self).wf(),
    {
        self.listener_attached = false;
    }

    pub fn has_listener(&self) -> (r: bool)
        ensures
            r == self.listener_view(),
    {
        self.listener_attached
    }

    pub fn auto_approve(&self) -> (r: bool)
        ensures
            r == self.auto_approve_view(),
    {
        self.auto_approve
    }

    /// The pending requests, oldest first, for the dialog to show.
    pub fn pending(&self) -> (r: Vec<ConsentRequest>)
        ensures
            r@.len() == self.pending_view().len(),
            forall|i: int| 0 <= i < r@.len() ==> {
                &&& (#[trigger] r@[i]).id == self.pending_view()[i].id
                &&& r@[i].method@ == self.pending_view()[i].method@
                &&& r@[i].description@ == self.pending_view()[i].description@
            },
    {
        let mut out: Vec<ConsentRequest> = Vec::new();
        let mut i: usize = 0;
        while i < self.pending.len()
            invariant
                i <= self.pending@.len(),
                out@.len() == i,
                forall|k: int| 0 <= k < i ==> {
                    &&& (#[trigger] out@[k]).id == self.pending@[k].id
                    &&& out@[k].method@ == self.pending@[k].method@
                    &&& out@[k].description@ == self.pending@[k].description@
                },
            decreases self.pending@.len() - i,
        {
            let r = &self.pending[i];
            out.push(ConsentRequest { id: r.id, method: r.method.clone(), description: r.description.clone() });
            i = i + 1;
        }
        out
    }

    /// Registers a consent request. With automatic approval it is approved at
    /// once; with no dialog attached it is denied at once (the safe default);
    /// otherwise it waits under a fresh identifier, the next after the last.
    pub fn request(&mut self, method: &str, description: &str) -> (r: ConsentOutcome)
        requires
            old(self).wf(),
            old(self).last_id() < u64::MAX,
        ensures
            final(self).wf(),
            final(self).auto_approve_view() == old(self).auto_approve_view(),
            final(self).listener_view() == old(self).listener_view(),
            old(self).auto_approve_view() ==> r == ConsentOutcome::Approved
                && final(self).pending_view() == old(self).pending_view()
                && final(self).last_id() == old(self).last_id(),
            !old(self).auto_approve_view() && !old(self).listener_view() ==> r == ConsentOutcome::Denied
                && final(self).pending_view() == old(self).pending_view()
                && final(self).last_id() == old(self).last_id(),
            !old(self).auto_approve_view() && old(self).listener_view() ==> {
                &&& r == ConsentOutcome::Pending((old(self).last_id() + 1) as u64)
                &&& final(self).last_id() == old(self).last_id() + 1
                &&& final(self).pending_view().len() == old(self).pending_view().len() + 1
                &&& final(self).pending_view().drop_last() == old(self).pending_view()
                &&& final(self).pending_view().last().id == final(self).last_id()
                &&& final(self).pending_view().last().method@ == method@
                &&& final(self).pending_view().last().description@ == description@
            },
    {
        if self.auto_approve {
            return ConsentOutcome::Approved;
        }
        if !self.listener_attached {
            return ConsentOutcome::Denied;
        }
        self.next_id = self.next_id + 1;
        let id = self.next_id;
        let ghost before = self.pending@;
        self.pending.push(ConsentRequest {
            id,
            method: String::from_str(method),
            description: String::from_str(description),
        });
        assert(self.pending@.drop_last() =~= before);
        ConsentOutcome::Pending(id)
    }

    /// Settles a pending request with the user's decision, which is handed
    /// back for the waiting caller; an identifier that is not pending is an
    /// error and changes nothing.
    pub fn resolve(&mut self, id: u64, approved: bool) -> (r: Result<bool, UnknownConsent>)
        requires
            old(self).wf(),
        ensures
            final(self).wf(),
            final(self).last_id() == old(self).last_id(),
            final(self).auto_approve_view() == old(self).auto_approve_view(),
            final(self).listener_view() == old(self).listener_view(),
            pending_ids(old(self).pending_view()).contains(id) ==> r == Ok::<bool, UnknownConsent>(approved)
                && final(self).pending_view() == without_id(old(self).pending_view(), id),
            !pending_ids(old(self).pending_view()).contains(id) ==> r == Err::<bool, UnknownConsent>(UnknownConsent { id })
                && final(self).pending_view() == old(self).pending_view(),
    {
        let ghost old_p = self.pending@;
        let mut found: Option<usize> = None;
        let mut i: usize = 0;
        while i < self.pending.len()
            invariant
                i <= self.pending@.len(),
                self.pending@ == old_p,
                found is None ==> forall|k: int| 0 <= k < i ==> self.pending@[k].id != id,
                found matches Some(f) ==> f < self.pending@.len() && self.pending@[f as int].id == id,
            decreases self.pending@.len() - i,
        {
            if found.is_none() && self.pending[i].id == id {
                found = Some(i);
            }
            i = i + 1;
        }
        match found {
            None => {
                proof {
                    if pending_ids(old_p).contains(id) {
                        let k = choose|k: int| 0 <= k < pending_ids(old_p).len() && pending_ids(old_p)[k] == id;
                        assert(old_p[k].id == id);
                    }
                }
                Err(UnknownConsent { id })
            },
            Some(f) => {
                self.pending.remove(f);
                proof {
                    assert(pending_ids(old_p)[f as int] == id);
                    lemma_remove_unique(old_p, f as int, id);
                }
                Ok(approved)
            },
        }
    }
}

/// With distinct identifiers, dropping the one entry with `id` is filtering
/// `id` out.
proof fn lemma_remove_unique(p: Seq<ConsentRequest>, f: int, id: u64)
    requires
        0 <= f < p.len(),
        p[f].id == id,
        forall|i: int, j: int| 0 <= i < j < p.len() ==> p[i].id < p[j].id,
    ensures
        p.remove(f) == without_id(p, id),
    decreases p.len(),
{
    reveal_with_fuel(Seq::filter, 1);
    if f == p.len() - 1 {
        assert(p.remove(f) =~= p.drop_last());
        lemma_filter_none(p.drop_last(), id);
    } else {
        lemma_remove_unique(p.drop_last(), f, id);
        assert(p.last().id != id);
        assert(p.remove(f) =~= p.drop_last().remove(f).push(p.last()));
    }
}

/// Filtering out an identifier that does not occur changes nothing.
proof fn lemma_filter_none(p: Seq<ConsentRequest>, id: u64)
    requires
        forall|i: int| 0 <= i < p.len() ==> p[i].id < id,
    ensures
        without_id(p, id) == p,
    decreases p.len(),
{
    reveal_with_fuel(Seq::filter, 1);
    if p.len() > 0 {
        lemma_filter_none(p.drop_last(), id);
        assert(p.drop_last().push(p.last()) =~= p);
    }
}

/// A request that waits for the user and is then settled leaves the
/// gatekeeper's pending list as it was before the request.
pub proof fn lemma_request_then_resolve(p: Seq<ConsentRequest>, r: ConsentRequest)
    requires
        forall|i: int, j: int| 0 <= i < j < p.len() ==> p[i].id < p[j].id,
        forall|i: int| 0 <= i < p.len() ==> p[i].id < r.id,
    ensures
        pending_ids(p.push(r)).contains(r.id),
        without_id(p.push(r), r.id) == p,
{
    reveal_with_fuel(Seq::filter, 1);
    assert(pending_ids(p.push(r))[p.len() as int] == r.id);
    assert(p.push(r).drop_last() =~= p);
    lemma_filter_none(p, r.id);
}

/// A JSON-RPC error object.
#[derive(Debug, Clone)]
pub struct RpcError {
    pub code: i64,
    pub message: String,
}

fn error_with(code: i64, head: &str, detail: &str, tail: &str) -> (r: RpcError)
    ensures
        r.code == code,
        r.message@ == head@ + detail@ + tail@,
{
    let mut v = chars_of(head);
    append_str(&mut v, detail);
    append_str(&mut v, tail);
    RpcError { code, message: string_of(&v) }
}

impl RpcError {
    /// The request line is not JSON (-32700).
    pub fn parse_error(detail: &str) -> (r: RpcError)
        ensures
            r.code == -32700,
            r.message@ == "erro de parse do JSON: "@ + detail@,
    {
        let r = error_with(-32700, "erro de parse do JSON: ", detail, "");
        proof { reveal_strlit(""); }
        assert(r.message@ =~= "erro de parse do JSON: "@ + detail@);
        r
    }

    /// Not a JSON-RPC 2.0 request (-32600).
    pub fn invalid_request() -> (r: RpcError)
        ensures
            r.code == -32600,
            r.message@ == "requisição inválida (esperado JSON-RPC 2.0)"@,
    {
        RpcError { code: -32600, message: String::from_str("requisição inválida (esperado JSON-RPC 2.0)") }
    }

    /// Unknown method (-32601).
    pub fn method_not_found(method: &str) -> (r: RpcError)
        ensures
            r.code == -32601,
            r.message@ == "método não encontrado: "@ + method@,
    {
        let r = error_with(-32601, "método não encontrado: ", method, "");
        proof { reveal_strlit(""); }
        assert(r.message@ =~= "método não encontrado: "@ + method@);
        r
    }

    /// A required parameter is missing or of the wrong type (-32602).
    pub fn invalid_params(detail: &str) -> (r: RpcError)
        ensures
            r.code == -32602,
            r.message@ == "parâmetros inválidos: "@ + detail@,
    {
        let r = error_with(-32602, "parâmetros inválidos: ", detail, "");
        proof { reveal_strlit(""); }
        assert(r.message@ =~= "parâmetros inválidos: "@ + detail@);
        r
    }

    /// No dialog is attached to ask for consent (-32001).
    pub fn consent_unavailable(method: &str) -> (r: RpcError)
        ensures
            r.code == -32001,
            r.message@ == "consentimento indisponível para `"@ + method@
                + "` (nenhuma TUI anexada ao gatekeeper)"@,
    {
        error_with(-32001, "consentimento indisponível para `", method, "` (nenhuma TUI anexada ao gatekeeper)")
    }

    /// The user refused (-32000).
    pub fn consent_denied(method: &str) -> (r: RpcError)
        ensures
            r.code == -32000,
            r.message@ == "consentimento negado para `"@ + method@ + "`"@,
    {
        error_with(-32000, "consentimento negado para `", method, "`")
    }

    /// A system backend failed (-32003).
    pub fn backend(detail: &str) -> (r: RpcError)
        ensures
            r.code == -32003,
            r.message@ == detail@,
    {
        RpcError { code: -32003, message: String::from_str(detail) }
    }

    /// No terminal session is attached (-32002).
    pub fn no_session(detail: &str) -> (r: RpcError)
        ensures
            r.code == -32002,
            r.message@ == detail@,
    {
        RpcError { code: -32002, message: String::from_str(detail) }
    }
}

/// The parameters the methods read, as found in the request's `params`
/// object (`None` where absent or of another type).
#[derive(Debug, Clone)]
pub struct RpcParams {
    pub object_path: Option<String>,
    pub enabled: Option<bool>,
    pub command: Option<String>,
    pub data: Option<String>,
}

/// Methods that only read answer at once.
#[derive(Debug, Clone, Copy, PartialEq, Eq, Structural)]
pub enum ReadMethod {
    SystemInfo,
    BatteryGet,
    NetworkWifi,
    StorageList,
}

/// What a mutating method does once consent is given.
#[derive(Debug, Clone)]
pub enum MutatingAction {
    Mount(String),
    Unmount(String),
    SetWifi(bool),
    /// Bytes written to the agent's terminal.
    TerminalInput(String),
}

/// Where a request goes.
#[derive(Debug, Clone)]
pub enum Route {
    Read(ReadMethod),
    /// Ask the user (as `method`, with this description) before acting.
    NeedsConsent { method: String, description: String, action: MutatingAction },
}

impl Route {
    /// The method and the description shown to the user, for a route that
    /// needs consent (its action is stated by `route` itself).
    pub open spec fn consent_view(self) -> Option<(Seq<char>, Seq<char>)> {
        match self {
            Route::NeedsConsent { method, description, .. } => Some((method@, description@)),
            Route::Read(_) => None,
        }
    }
}

/// The read-only method named `m`, if it is one.
pub open spec fn read_method(m: Seq<char>) -> Option<ReadMethod> {
    if m == "system.info"@ {
        Some(ReadMethod::SystemInfo)
    } else if m == "battery.get"@ {
        Some(ReadMethod::BatteryGet)
    } else if m == "network.wifi"@ {
        Some(ReadMethod::NetworkWifi)
    } else if m == "storage.list"@ {
        Some(ReadMethod::StorageList)
    } else {
        None
    }
}

/// The mutating methods.
pub open spec fn is_mutating(m: Seq<char>) -> bool {
    m == "storage.mount"@ || m == "storage.unmount"@ || m == "network.wifi_set"@ || m == "system.exec"@
        || m == "pty.input"@
}

/// The parameter a mutating method requires, with the message given when it
/// is missing: its value, or the error.
pub open spec fn required_param(m: Seq<char>, p: RpcParams) -> Result<(), Seq<char>> {
    if m == "storage.mount"@ || m == "storage.unmount"@ {
        if p.object_path is Some { Ok(()) } else { Err("campo `object_path` (string) obrigatório"@) }
    } else if m == "network.wifi_set"@ {
        if p.enabled is Some { Ok(()) } else { Err("campo `enabled` (boolean) obrigatório"@) }
    } else if m == "system.exec"@ {
        if p.command is Some { Ok(()) } else { Err("campo `command` (string) obrigatório"@) }
    } else {
        if p.data is Some { Ok(()) } else { Err("campo `data` (string) obrigatório"@) }
    }
}

/// What the user is asked, and what happens on approval, for a mutating
/// method whose parameter is present.
pub open spec fn consent_for(m: Seq<char>, p: RpcParams) -> (Seq<char>, Seq<char>) {
    if m == "storage.mount"@ {
        (m, "montar o dispositivo "@ + p.object_path.unwrap()@ + "?"@)
    } else if m == "storage.unmount"@ {
        (m, "desmontar o dispositivo "@ + p.object_path.unwrap()@ + "?"@)
    } else if m == "network.wifi_set"@ {
        (m, if p.enabled.unwrap() { "ligar o Wi-Fi?"@ } else { "desligar o Wi-Fi?"@ })
    } else if m == "system.exec"@ {
        (m, "executar no AI Terminal Deck: "@ + p.command.unwrap()@)
    } else {
        (m, "injetar entrada no agente (AI Terminal Deck)"@)
    }
}

/// The action a mutating method performs once approved.
pub open spec fn action_matches(m: Seq<char>, p: RpcParams, a: MutatingAction) -> bool {
    if m == "storage.mount"@ {
        a matches MutatingAction::Mount(o) && o@ == p.object_path.unwrap()@
    } else if m == "storage.unmount"@ {
        a matches MutatingAction::Unmount(o) && o@ == p.object_path.unwrap()@
    } else if m == "network.wifi_set"@ {
        a == MutatingAction::SetWifi(p.enabled.unwrap())
    } else if m == "system.exec"@ {
        a matches MutatingAction::TerminalInput(t) && t@ == p.command.unwrap()@.push('\r')
    } else {
        a matches MutatingAction::TerminalInput(t) && t@ == p.data.unwrap()@
    }
}

/// Routes a request: read methods answer at once; each mutating method
/// needs its parameter and then the user's consent; anything else is an
/// unknown method.
pub fn route(method: &str, params: &RpcParams) -> (r: Result<Route, RpcError>)
    ensures
        read_method(method@) is Some ==> (r matches Ok(Route::Read(m)) && Some(m) == read_method(method@)),
        is_mutating(method@) && required_param(method@, *params) is Err ==> (r matches Err(e)
            && e.code == -32602 && e.message@ == "parâmetros inválidos: "@ + required_param(method@, *params)->Err_0),
        is_mutating(method@) && required_param(method@, *params) is Ok ==> (r matches Ok(route) && route.consent_view()
            == Some(consent_for(method@, *params)) && (route matches Route::NeedsConsent { action, .. }
            && action_matches(method@, *params, action))),
        read_method(method@) is None && !is_mutating(method@) ==> (r matches Err(e) && e.code == -32601
            && e.message@ == "método não encontrado: "@ + method@),
{
    proof {
        reveal_strlit("system.info");
        reveal_strlit("battery.get");
        reveal_strlit("network.wifi");
        reveal_strlit("storage.list");
        reveal_strlit("storage.mount");
        reveal_strlit("storage.unmount");
        reveal_strlit("network.wifi_set");
        reveal_strlit("system.exec");
        reveal_strlit("pty.input");
    }
    let m = chars_of(method);
    if eq_str(&m, "system.info") {
        assert("system.info"@[7] != "system.exec"@[7]);
        return Ok(Route::Read(ReadMethod::SystemInfo));
    }
    if eq_str(&m, "battery.get") {
        assert("battery.get"@[0] != "system.exec"@[0]);
        return Ok(Route::Read(ReadMethod::BatteryGet));
    }
    if eq_str(&m, "network.wifi") {
        assert(!is_mutating("network.wifi"@)) by {
            assert("network.wifi"@.len() == 12);
            assert("storage.mount"@.len() == 13);
            assert("storage.unmount"@.len() == 15);
            assert("network.wifi_set"@.len() == 16);
            assert("system.exec"@.len() == 11);
            assert("pty.input"@.len() == 9);
        }
        return Ok(Route::Read(ReadMethod::NetworkWifi));
    }
    if eq_str(&m, "storage.list") {
        assert(!is_mutating("storage.list"@)) by {
            assert("storage.list"@.len() == 12);
            assert("storage.mount"@.len() == 13);
            assert("storage.unmount"@.len() == 15);
            assert("network.wifi_set"@.len() == 16);
            assert("system.exec"@.len() == 11);
            assert("pty.input"@.len() == 9);
        }
        return Ok(Route::Read(ReadMethod::StorageList));
    }
    let is_mount = eq_str(&m, "storage.mount");
    let is_unmount = eq_str(&m, "storage.unmount");
    if is_mount || is_unmount {
        match &params.object_path {
            None => return Err(RpcError::invalid_params("campo `object_path` (string) obrigatório")),
            Some(path) => {
                let mut d: Vec<char> = Vec::new();
                if is_mount {
                    append_str(&mut d, "montar o dispositivo ");
                } else {
                    append_str(&mut d, "desmontar o dispositivo ");
                }
                append_str(&mut d, path.as_str());
                append_str(&mut d, "?");
                let action = if is_mount {
                    MutatingAction::Mount(path.clone())
                } else {
                    MutatingAction::Unmount(path.clone())
                };
                return Ok(Route::NeedsConsent { method: String::from_str(method), description: string_of(&d), action });
            },
        }
    }
    if eq_str(&m, "network.wifi_set") {
        match params.enabled {
            None => return Err(RpcError::invalid_params("campo `enabled` (boolean) obrigatório")),
            Some(enabled) => {
                let description = if enabled {
                    String::from_str("ligar o Wi-Fi?")
                } else {
                    String::from_str("desligar o Wi-Fi?")
                };
                return Ok(Route::NeedsConsent {
                    method: String::from_str(method),
                    description,
                    action: MutatingAction::SetWifi(enabled),
                });
            },
        }
    }
    if eq_str(&m, "system.exec") {
        match &params.command {
            None => return Err(RpcError::invalid_params("campo `command` (string) obrigatório")),
            Some(command) => {
                let mut d = chars_of("executar no AI Terminal Deck: ");
                append_str(&mut d, command.as_str());
                let mut input = chars_of(command.as_str());
                input.push('\r');
                return Ok(Route::NeedsConsent {
                    method: String::from_str(method),
                    description: string_of(&d),
                    action: MutatingAction::TerminalInput(string_of(&input)),
                });
            },
        }
    }
    if eq_str(&m, "pty.input") {
        match &params.data {
            None => return Err(RpcError::invalid_params("campo `data` (string) obrigatório")),
            Some(data) => {
                return Ok(Route::NeedsConsent {
                    method: String::from_str(method),
                    description: String::from_str("injetar entrada no agente (AI Terminal Deck)"),
                    action: MutatingAction::TerminalInput(data.clone()),
                });
            },
        }
    }
    Err(RpcError::method_not_found(method))
}

/// Before asking: with no dialog attached and automatic approval off, the
/// request is refused at once.
pub fn consent_precheck(has_listener: bool, auto_approve: bool, method: &str) -> (r: Result<(), RpcError>)
    ensures
        (has_listener || auto_approve) ==> r is Ok,
        !(has_listener || auto_approve) ==> (r matches Err(e) && e.code == -32001
            && e.message@ == "consentimento indisponível para `"@ + method@ + "` (nenhuma TUI anexada ao gatekeeper)"@),
{
    if !has_listener && !auto_approve {
        return Err(RpcError::consent_unavailable(method));
    }
    Ok(())
}

/// After asking: a refusal is answered with `consent_denied`.
pub fn consent_verdict(approved: bool, method: &str) -> (r: Result<(), RpcError>)
    ensures
        approved ==> r is Ok,
        !approved ==> (r matches Err(e) && e.code == -32000
            && e.message@ == "consentimento negado para `"@ + method@ + "`"@),
{
    if approved {
        Ok(())
    } else {
        Err(RpcError::consent_denied(method))
    }
}

/// Checks the protocol version of a request.
pub fn check_version(jsonrpc: Option<&str>) -> (r: Result<(), RpcError>)
    ensures
        (jsonrpc matches Some(v) && v@ == "2.0"@) ==> r is Ok,
        !(jsonrpc matches Some(v) && v@ == "2.0"@) ==> (r matches Err(e) && e.code == -32600),
{
    match jsonrpc {
        Some(v) => {
            let vv = chars_of(v);
            if eq_str(&vv, "2.0") {
                Ok(())
            } else {
                Err(RpcError::invalid_request())
            }
        },
        None => Err(RpcError::invalid_request()),
    }
}

/// Notifications (requests without an `id`) get no answer.
pub fn answers(id_present: bool) -> (r: bool)
    ensures
        r == id_present,
{
    id_present
}

/// The name of the service's UNIX socket.
pub open spec fn socket_file() -> Seq<char> {
    "hall-9001.sock"@
}

/// Where the service listens: in `$XDG_RUNTIME_DIR` when it is set and not
/// empty; else in `/run/user/$UID` when `$UID` is set, not empty, and that
/// directory exists (`uid_dir_exists`); else in the temporary directory.
pub fn socket_path_choice(
    runtime_dir: Option<String>,
    uid: Option<String>,
    uid_dir_exists: bool,
    temp_dir: &str,
) -> (r: String)
    ensures
        (runtime_dir matches Some(d) && d@.len() > 0) ==> r@ == path_join(runtime_dir->0@, socket_file()),
        !(runtime_dir matches Some(d) && d@.len() > 0) && (uid matches Some(u) && u@.len() > 0)
            && uid_dir_exists ==> r@ == path_join(path_join("/run/user"@, uid->0@), socket_file()),
        !(runtime_dir matches Some(d) && d@.len() > 0) && !((uid matches Some(u) && u@.len() > 0)
            && uid_dir_exists) ==> r@ == path_join(temp_dir@, socket_file()),
{
    proof {
        reveal_strlit("hall-9001.sock");
    }
    if let Some(d) = &runtime_dir {
        if chars_of(d.as_str()).len() > 0 {
            return join(d.as_str(), "hall-9001.sock");
        }
    }
    if let Some(u) = &uid {
        if chars_of(u.as_str()).len() > 0 && uid_dir_exists {
            let dir = join("/run/user", u.as_str());
            return join(dir.as_str(), "hall-9001.sock");
        }
    }
    join(temp_dir, "hall-9001.sock")
}

} // verus!
