//! The records that the Clash HTTP API answers with, as the library holds
//! them, and their mathematical views where the contracts need one.

use vstd::prelude::*;

verus! {

/// Proxy mode of the Clash core.
#[derive(Debug, Clone, Copy, PartialEq, Eq, Structural)]
pub enum Mode {
    Rule,
    Global,
    Direct,
}

/// The lower-case name under which the API knows a mode.
pub open spec fn mode_name(mode: Mode) -> Seq<char> {
    match mode {
        Mode::Rule => seq!['r', 'u', 'l', 'e'],
        Mode::Global => seq!['g', 'l', 'o', 'b', 'a', 'l'],
        Mode::Direct => seq!['d', 'i', 'r', 'e', 'c', 't'],
    }
}

/// Distinct modes have distinct names, so a name stands for one mode.
pub proof fn mode_names_distinct(a: Mode, b: Mode)
    ensures
        mode_name(a) == mode_name(b) ==> a == b,
{
    if a != b {
        assert(mode_name(a)[0] != mode_name(b)[0] || mode_name(a).len() != mode_name(b).len()
            || mode_name(a)[1] != mode_name(b)[1]);
    }
}

impl Mode {
    /// The lower-case name under which the API knows this mode.
    pub fn as_str(&self) -> (r: &'static str)
        ensures
            r@ == mode_name(*self),
    {
        proof {
            reveal_strlit("rule");
            reveal_strlit("global");
            reveal_strlit("direct");
        }
        match self {
            Mode::Rule => "rule",
            Mode::Global => "global",
            Mode::Direct => "direct",
        }
    }
}

/// One entry of a proxy's delay test history.
#[derive(Debug)]
pub struct DelayHistory {
    pub time: String,
    pub delay: i32,
}

/// A proxy or a proxy group as the API describes it.
#[derive(Debug)]
pub struct Proxy {
    /// Proxy name.
    pub name: String,
    /// Proxy type (Selector, URLTest, Fallback, Direct, Reject, ...).
    pub proxy_type: String,
    /// Names of the members of a proxy group (empty for a single proxy).
    pub all: Vec<String>,
    /// The member a proxy group has selected.
    pub now: Option<String>,
    /// Delay test history.
    pub history: Vec<DelayHistory>,
}

/// The answer to a delay test.
#[derive(Debug)]
pub struct DelayResponse {
    pub delay: i32,
}

/// Memory statistics of the core.
#[derive(Debug)]
pub struct MemoryResponse {
    pub inuse: i64,
    pub oslimit: i64,
}

/// Where a connection comes from and goes to.
#[derive(Debug)]
pub struct Metadata {
    pub network: String,
    pub metadata_type: String,
    pub source_ip: String,
    pub destination_ip: String,
    pub destination_port: u16,
    pub host: String,
}

/// One active connection.
#[derive(Debug)]
pub struct Connection {
    pub id: String,
    pub metadata: Metadata,
    pub upload: i64,
    pub download: i64,
    pub start: String,
    pub chains: Vec<String>,
    pub rule: String,
}

/// All active connections with the traffic totals.
#[derive(Debug)]
pub struct ConnectionsResponse {
    pub download_total: i64,
    pub upload_total: i64,
    pub connections: Vec<Connection>,
}

/// The part of the core's configuration that the controller reads.
#[derive(Debug)]
pub struct ConfigResponse {
    pub external_controller: Option<String>,
    pub secret: Option<String>,
    pub mode: Option<Mode>,
}

/// View of a delay history entry.
pub struct DelayHistoryView {
    pub time: Seq<char>,
    pub delay: i32,
}

impl View for DelayHistory {
    type V = DelayHistoryView;

    open spec fn view(&self) -> DelayHistoryView {
        DelayHistoryView { time: self.time@, delay: self.delay }
    }
}

/// View of a proxy: its text fields as character sequences.
pub struct ProxyView {
    pub name: Seq<char>,
    pub proxy_type: Seq<char>,
    pub all: Seq<Seq<char>>,
    pub now: Option<Seq<char>>,
    pub history: Seq<DelayHistoryView>,
}

impl View for Proxy {
    type V = ProxyView;

    open spec fn view(&self) -> ProxyView {
        ProxyView {
            name: self.name@,
            proxy_type: self.proxy_type@,
            all: self.all.deep_view(),
            now: self.now.deep_view(),
            history: self.history@.map_values(|h: DelayHistory| h@),
        }
    }
}

/// A copy of a list of strings, element by element.
pub fn copy_strings(v: &Vec<String>) -> (r: Vec<String>)
    ensures
        r.deep_view() == v.deep_view(),
{
    let mut r: Vec<String> = Vec::new();
    for i in 0..v.len()
        invariant
            r@.len() == i,
            i <= v@.len(),
            forall|j: int| 0 <= j < i ==> #[trigger] r@[j]@ == v@[j]@,
    {
        r.push(v[i].clone());
    }
    assert(r.deep_view() =~= v.deep_view());
    r
}

fn copy_option_string(o: &Option<String>) -> (r: Option<String>)
    ensures
        r.deep_view() == o.deep_view(),
{
    match o {
        Some(s) => Some(s.clone()),
        None => None,
    }
}

fn copy_history(v: &Vec<DelayHistory>) -> (r: Vec<DelayHistory>)
    ensures
        r@.map_values(|h: DelayHistory| h@) == v@.map_values(|h: DelayHistory| h@),
{
    let mut r: Vec<DelayHistory> = Vec::new();
    for i in 0..v.len()
        invariant
            r@.len() == i,
            i <= v@.len(),
            forall|j: int| 0 <= j < i ==> #[trigger] r@[j]@ == v@[j]@,
    {
        r.push(DelayHistory { time: v[i].time.clone(), delay: v[i].delay });
    }
    assert(r@.map_values(|h: DelayHistory| h@) =~= v@.map_values(|h: DelayHistory| h@));
    r
}

impl Proxy {
    /// A copy of this proxy with the same view.
    pub fn duplicate(&self) -> (r: Proxy)
        ensures
            r@ == self@,
    {
        Proxy {
            name: self.name.clone(),
            proxy_type: self.proxy_type.clone(),
            all: copy_strings(&self.all),
            now: copy_option_string(&self.now),
            history: copy_history(&self.history),
        }
    }
}

} // verus!
