//! The canonical entity graph: reports (`Log`), their fault-site `Snippet`,
//! the ordered backtrace (`Trace` of `Layer`s), and the small value types
//! that travel with them (identifiers, timestamps, origin addresses).

use vstd::prelude::*;
use vstd::string::StringExecFns;

verus! {

/// A 128-bit report identifier, assigned server-side at normalization time.
#[derive(Clone, Copy, PartialEq, Eq, Structural, Debug)]
pub struct Uuid {
    pub value: u128,
}

/// An authenticated client identifier, as carried by the transport layer.
#[derive(Clone, Copy, PartialEq, Eq, Structural, Debug)]
pub struct ClientId(pub i32);

/// The origin network address of a report, recorded server-side: the address
/// as an integer (v4 addresses in their v4-mapped v6 form), whether it was a
/// v6 address, and the single-host prefix length.
#[derive(Clone, Copy, PartialEq, Eq, Structural, Debug)]
pub struct IpNet {
    pub addr: u128,
    pub v6: bool,
    pub prefix: u8,
}

/// The prefix length that denotes a single host for the given address family.
pub open spec fn single_host_prefix_spec(v6: bool) -> u8 {
    if v6 {
        128
    } else {
        32
    }
}

/// A single-host network is well formed when its prefix matches its family.
pub open spec fn ip_net_wf(n: IpNet) -> bool {
    n.prefix == single_host_prefix_spec(n.v6)
}

pub fn single_host_prefix(v6: bool) -> (p: u8)
    ensures
        p == single_host_prefix_spec(v6),
{
    if v6 {
        128
    } else {
        32
    }
}

impl IpNet {
    /// Builds the single-host network for one remote address.
    pub fn from_addr(addr: u128, v6: bool) -> (n: IpNet)
        ensures
            n.addr == addr,
            n.v6 == v6,
            ip_net_wf(n),
    {
        IpNet { addr, v6, prefix: single_host_prefix(v6) }
    }
}

/// A captured source-code excerpt: the fault-site line, its text, and an
/// optional file path.
#[derive(Debug)]
pub struct Snippet {
    pub line: i32,
    pub code: String,
    pub file: Option<String>,
}

/// One stack frame: source location, its code text, and the frame name.
#[derive(Debug)]
pub struct Layer {
    pub line_number: i32,
    pub column_number: i32,
    pub code: String,
    pub name: String,
    pub file_path: Option<String>,
}

/// An ordered backtrace; the order of `layers` is significant and is
/// preserved end-to-end.
#[derive(Debug)]
pub struct Trace {
    pub layers: Vec<Layer>,
}

/// One accepted report. `id`, `date`, `received_from` and `client_id` are
/// server-derived; everything else is copied verbatim from the payload.
#[derive(Debug)]
pub struct Log {
    pub id: Uuid,
    pub message: String,
    pub message_type: String,
    pub language: String,
    pub snippet: Snippet,
    pub file_name: String,
    pub line_number: i32,
    pub backtrace: Trace,
    pub warnings: Vec<String>,
    pub date: i64,
    pub received_from: Option<IpNet>,
    pub client_id: Option<i32>,
}

/// An inbound report payload, exactly as submitted by a client.
#[derive(Debug)]
pub struct LogBody {
    pub message: String,
    pub message_type: String,
    pub language: String,
    pub backtrace: Trace,
    pub snippet: Snippet,
    pub line_number: i32,
    pub file_name: String,
    pub warnings: Vec<String>,
}

/// The body returned by a registration call.
#[derive(Clone, Copy, PartialEq, Eq, Structural, Debug)]
pub struct RegisterClientResponse {
    pub client_id: i32,
}

/// The acknowledgement returned by a successful ingestion.
#[derive(Debug)]
pub struct Response {
    pub message: String,
    pub datetime: i64,
}

/// Content equality of two optional strings, by their character sequences.
pub open spec fn str_opt_like(a: Option<String>, b: Option<String>) -> bool {
    match (a, b) {
        (Option::None, Option::None) => true,
        (Option::Some(x), Option::Some(y)) => x@ == y@,
        _ => false,
    }
}

/// Content equality of two snippets: same line, code text, and file path.
pub open spec fn snippet_like(a: Snippet, b: Snippet) -> bool {
    &&& a.line == b.line
    &&& a.code@ == b.code@
    &&& str_opt_like(a.file, b.file)
}

fn eq_str_opt(a: &Option<String>, b: &Option<String>) -> (r: bool)
    ensures
        r == str_opt_like(*a, *b),
{
    match (a, b) {
        (Option::None, Option::None) => true,
        (Option::Some(x), Option::Some(y)) => *x == *y,
        _ => false,
    }
}

impl Snippet {
    /// Content comparison, used by the persistence gateway's de-duplication.
    pub fn like(&self, other: &Snippet) -> (r: bool)
        ensures
            r == snippet_like(*self, *other),
    {
        self.line == other.line && self.code == other.code && eq_str_opt(&self.file, &other.file)
    }
}

pub fn clone_string_opt(s: &Option<String>) -> (r: Option<String>)
    ensures
        r == *s,
{
    match s {
        Option::None => Option::None,
        Option::Some(x) => Option::Some(x.clone()),
    }
}

impl Snippet {
    pub fn duplicate(&self) -> (r: Snippet)
        ensures
            r == *self,
    {
        Snippet { line: self.line, code: self.code.clone(), file: clone_string_opt(&self.file) }
    }
}

impl Layer {
    pub fn duplicate(&self) -> (r: Layer)
        ensures
            r == *self,
    {
        Layer {
            line_number: self.line_number,
            column_number: self.column_number,
            code: self.code.clone(),
            name: self.name.clone(),
            file_path: clone_string_opt(&self.file_path),
        }
    }
}

pub fn clone_layers(v: &Vec<Layer>) -> (r: Vec<Layer>)
    ensures
        r@ == v@,
{
    let mut r: Vec<Layer> = Vec::new();
    let mut i: usize = 0;
    while i < v.len()
        invariant
            i <= v.len(),
            r@ == v@.subrange(0, i as int),
        decreases v.len() - i,
    {
        r.push(v[i].duplicate());
        i = i + 1;
        assert(r@ =~= v@.subrange(0, i as int));
    }
    assert(r@ =~= v@);
    r
}

pub fn clone_strings(v: &Vec<String>) -> (r: Vec<String>)
    ensures
        r@ == v@,
{
    let mut r: Vec<String> = Vec::new();
    let mut i: usize = 0;
    while i < v.len()
        invariant
            i <= v.len(),
            r@ == v@.subrange(0, i as int),
        decreases v.len() - i,
    {
        r.push(v[i].clone());
        i = i + 1;
        assert(r@ =~= v@.subrange(0, i as int));
    }
    assert(r@ =~= v@);
    r
}

impl Trace {
    pub fn duplicate(&self) -> (r: Trace)
        ensures
            r.layers@ == self.layers@,
    {
        Trace { layers: clone_layers(&self.layers) }
    }
}

/// Content equality of two logs, field by field; the backtrace layer order
/// must match exactly.
pub open spec fn log_like(a: Log, b: Log) -> bool {
    &&& a.id == b.id
    &&& a.message@ == b.message@
    &&& a.message_type@ == b.message_type@
    &&& a.language@ == b.language@
    &&& snippet_like(a.snippet, b.snippet)
    &&& a.file_name@ == b.file_name@
    &&& a.line_number == b.line_number
    &&& a.backtrace.layers@ == b.backtrace.layers@
    &&& a.warnings@ == b.warnings@
    &&& a.date == b.date
    &&& a.received_from == b.received_from
    &&& a.client_id == b.client_id
}

impl Log {
    pub fn duplicate(&self) -> (r: Log)
        ensures
            log_like(r, *self),
            r.id == self.id,
            r.message == self.message,
            r.message_type == self.message_type,
            r.language == self.language,
            r.snippet == self.snippet,
            r.file_name == self.file_name,
            r.line_number == self.line_number,
            r.backtrace.layers@ == self.backtrace.layers@,
            r.warnings@ == self.warnings@,
            r.date == self.date,
            r.received_from == self.received_from,
            r.client_id == self.client_id,
    {
        Log {
            id: self.id,
            message: self.message.clone(),
            message_type: self.message_type.clone(),
            language: self.language.clone(),
            snippet: self.snippet.duplicate(),
            file_name: self.file_name.clone(),
            line_number: self.line_number,
            backtrace: self.backtrace.duplicate(),
            warnings: clone_strings(&self.warnings),
            date: self.date,
            received_from: self.received_from,
            client_id: self.client_id,
        }
    }
}


impl Default for Snippet {
    /// The example snippet used when none is supplied.
    fn default() -> (s: Snippet)
        ensures
            s.line == 1,
            s.code@ == ("log(\"hello\");")@,
            s.file is None,
    {
        Snippet { line: 1, code: String::from_str("log(\"hello\");"), file: Option::None }
    }
}

impl Default for Layer {
    /// The example stack frame used when none is supplied.
    fn default() -> (l: Layer)
        ensures
            l.line_number == 1,
            l.column_number == 5,
            l.code@ == ("log(\"hello\");")@,
            l.name@ == ("main.rs")@,
            l.file_path matches Option::Some(p) && p@ == ("src/main.rs")@,
    {
        Layer {
            line_number: 1,
            column_number: 5,
            code: String::from_str("log(\"hello\");"),
            name: String::from_str("main.rs"),
            file_path: Option::Some(String::from_str("src/main.rs")),
        }
    }
}

} // verus!
