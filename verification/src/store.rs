//! The relational model behind the ingestion pipeline: clients, fault-site
//! snippets, backtrace layers with their ordered link rows, and the log rows
//! that tie them together. `Db` is the executable store; `DbView` is its
//! mathematical image, over which every contract and law is stated.

use vstd::prelude::*;

use crate::error::Error;
use crate::types::ClientId;
use crate::types::IpNet;
use crate::types::Layer;
use crate::types::Log;
use crate::types::Snippet;
use crate::types::Uuid;
use crate::types::snippet_like;

verus! {

broadcast use vstd::std_specs::vec::group_vec_axioms;

/// One registered client: its stable id, the time it last contacted the
/// server, and how many reports it has sent.
#[derive(Clone, Copy, PartialEq, Eq, Structural, Debug)]
pub struct ClientRow {
    pub id: i32,
    pub last_connected: i64,
    pub logs_sent: u64,
}

/// One stored report, referencing its snippet row, its backtrace row, and
/// its owning client.
#[derive(Debug)]
pub struct LogRow {
    pub id: Uuid,
    pub client_id: i32,
    pub message: String,
    pub message_type: String,
    pub language: String,
    pub snippet_id: usize,
    pub line_number: i32,
    pub backtrace_id: usize,
    pub warnings: Vec<String>,
    pub date: i64,
    pub file_name: String,
    pub received_from: Option<IpNet>,
}

/// One backtrace container: the ids of its layers, in display order.
#[derive(Debug)]
pub struct BacktraceRow {
    pub layer_ids: Vec<usize>,
}

/// The store itself. Snippet, layer and backtrace ids are indices into the
/// corresponding tables.
#[derive(Debug)]
pub struct Db {
    pub clients: Vec<ClientRow>,
    pub next_client_id: i32,
    pub snippets: Vec<Snippet>,
    pub layers: Vec<Layer>,
    pub backtraces: Vec<BacktraceRow>,
    pub logs: Vec<LogRow>,
}

/// The mathematical image of a `Db`.
#[verifier::ext_equal]
pub ghost struct DbView {
    pub clients: Seq<ClientRow>,
    pub next_client_id: int,
    pub snippets: Seq<Snippet>,
    pub layers: Seq<Layer>,
    pub backtraces: Seq<Seq<usize>>,
    pub logs: Seq<LogRow>,
}

impl View for Db {
    type V = DbView;

    open spec fn view(&self) -> DbView {
        DbView {
            clients: self.clients@,
            next_client_id: self.next_client_id as int,
            snippets: self.snippets@,
            layers: self.layers@,
            backtraces: self.backtraces@.map_values(|b: BacktraceRow| b.layer_ids@),
            logs: self.logs@,
        }
    }
}

pub open spec fn client_ids_unique(clients: Seq<ClientRow>) -> bool {
    forall|i: int, j: int|
        0 <= i < j < clients.len() ==> clients[i].id != clients[j].id
}

pub open spec fn client_exists(clients: Seq<ClientRow>, id: i32) -> bool {
    exists|i: int| 0 <= i < clients.len() && (#[trigger] clients[i]).id == id
}

/// The row index of a client id; meaningful only when the id exists and ids
/// are unique.
pub open spec fn client_idx(clients: Seq<ClientRow>, id: i32) -> int {
    choose|i: int| 0 <= i < clients.len() && (#[trigger] clients[i]).id == id
}

pub open spec fn log_ids_unique(logs: Seq<LogRow>) -> bool {
    forall|i: int, j: int|
        0 <= i < j < logs.len() ==> logs[i].id != logs[j].id
}

pub open spec fn log_id_exists(logs: Seq<LogRow>, id: Uuid) -> bool {
    exists|i: int| 0 <= i < logs.len() && (#[trigger] logs[i]).id == id
}

impl DbView {
    pub open spec fn log_row_wf(self, row: LogRow) -> bool {
        &&& row.snippet_id < self.snippets.len()
        &&& row.backtrace_id < self.backtraces.len()
        &&& client_exists(self.clients, row.client_id)
    }

    pub open spec fn backtrace_wf(self, b: Seq<usize>) -> bool {
        forall|k: int| 0 <= k < b.len() ==> (#[trigger] b[k]) < self.layers.len()
    }

    /// Referential integrity of the whole store: ids are unique, every log
    /// row points at existing snippet, backtrace and client rows, and every
    /// backtrace points at existing layers.
    pub open spec fn wf(self) -> bool {
        &&& 1 <= self.next_client_id <= i32::MAX
        &&& client_ids_unique(self.clients)
        &&& forall|i: int|
            0 <= i < self.clients.len() ==> 1 <= (#[trigger] self.clients[i]).id
                < self.next_client_id
        &&& log_ids_unique(self.logs)
        &&& forall|i: int| 0 <= i < self.logs.len() ==> self.log_row_wf(#[trigger] self.logs[i])
        &&& forall|i: int|
            0 <= i < self.backtraces.len() ==> self.backtrace_wf(#[trigger] self.backtraces[i])
    }
}

/// With unique ids, the index of a present id is exactly the row that
/// carries it.
pub proof fn lemma_client_idx(clients: Seq<ClientRow>, id: i32, i: int)
    requires
        client_ids_unique(clients),
        0 <= i < clients.len(),
        clients[i].id == id,
    ensures
        client_exists(clients, id),
        client_idx(clients, id) == i,
{
    assert(client_exists(clients, id));
    let j = client_idx(clients, id);
    assert(0 <= j < clients.len() && clients[j].id == id);
    if i < j {
        assert(clients[i].id != clients[j].id);
    } else if j < i {
        assert(clients[j].id != clients[i].id);
    }
}

/// Whether a registration request names a client that already exists.
pub open spec fn returning_client(clients: Seq<ClientRow>, requested: Option<i32>) -> bool {
    requested matches Option::Some(r) && client_exists(clients, r)
}

/// The clients table after an existing client's contact refresh: only
/// `last_connected` of that client's row changes.
pub open spec fn refresh_client(clients: Seq<ClientRow>, id: i32, now: i64) -> Seq<ClientRow> {
    let i = client_idx(clients, id);
    clients.update(
        i,
        ClientRow { id, last_connected: now, logs_sent: clients[i].logs_sent },
    )
}

/// What `register_client` returns: the requested id when it exists, a
/// freshly allocated id otherwise.
pub open spec fn register_result(db: DbView, requested: Option<i32>) -> i32 {
    if returning_client(db.clients, requested) {
        requested->0
    } else {
        db.next_client_id as i32
    }
}

/// The store after a registration call.
pub open spec fn register_model(db: DbView, requested: Option<i32>, now: i64) -> DbView {
    if returning_client(db.clients, requested) {
        DbView {
            clients: refresh_client(db.clients, requested->0, now),
            next_client_id: db.next_client_id,
            snippets: db.snippets,
            layers: db.layers,
            backtraces: db.backtraces,
            logs: db.logs,
        }
    } else {
        DbView {
            clients: db.clients.push(
                ClientRow { id: db.next_client_id as i32, last_connected: now, logs_sent: 0 },
            ),
            next_client_id: db.next_client_id + 1,
            snippets: db.snippets,
            layers: db.layers,
            backtraces: db.backtraces,
            logs: db.logs,
        }
    }
}

impl Db {
    /// An empty store, ready to issue client ids starting from 1.
    pub fn new() -> (db: Db)
        ensures
            db@.wf(),
            db@.clients.len() == 0,
            db@.logs.len() == 0,
            db@.snippets.len() == 0,
            db@.layers.len() == 0,
            db@.backtraces.len() == 0,
            db@.next_client_id == 1,
    {
        let db = Db {
            clients: Vec::new(),
            next_client_id: 1,
            snippets: Vec::new(),
            layers: Vec::new(),
            backtraces: Vec::new(),
            logs: Vec::new(),
        };
        proof {
            assert(db@.backtraces =~= Seq::<Seq<usize>>::empty());
        }
        db
    }

    /// The row index of a client id, if registered.
    fn find_client(&self, id: i32) -> (r: Option<usize>)
        ensures
            match r {
                Option::Some(i) => i < self@.clients.len() && self@.clients[i as int].id == id,
                Option::None => !client_exists(self@.clients, id),
            },
    {
        let mut i: usize = 0;
        while i < self.clients.len()
            invariant
                i <= self@.clients.len(),
                forall|j: int| 0 <= j < i ==> (#[trigger] self@.clients[j]).id != id,
            decreases self@.clients.len() - i,
        {
            if self.clients[i].id == id {
                return Option::Some(i);
            }
            i = i + 1;
        }
        Option::None
    }

    /// True exactly when a client with this id is registered; used by the
    /// ingestion endpoint to reject reports from unknown clients.
    pub fn validate(&self, id: i32) -> (r: bool)
        ensures
            r == client_exists(self@.clients, id),
    {
        match self.find_client(id) {
            Option::Some(i) => {
                proof {
                    assert(client_exists(self@.clients, id));
                }
                true
            },
            Option::None => false,
        }
    }

    /// Registers a client: an unknown or absent requested id allocates a new
    /// client row with a fresh server-assigned id; a known requested id only
    /// refreshes that client's `last_connected` and returns the id
    /// unchanged, never creating a duplicate row.
    pub fn register_client(&mut self, requested: Option<i32>, now: i64) -> (id: i32)
        requires
            old(self)@.wf(),
            old(self)@.next_client_id < i32::MAX,
        ensures
            final(self)@.wf(),
            final(self)@ == register_model(old(self)@, requested, now),
            id == register_result(old(self)@, requested),
            client_exists(final(self)@.clients, id),
    {
        let ghost db0 = self@;
        let requested_known: Option<usize> = match requested {
            Option::Some(r) => self.find_client(r),
            Option::None => Option::None,
        };
        match requested_known {
            Option::Some(i) => {
                let r = self.clients[i].id;
                let sent = self.clients[i].logs_sent;
                self.clients[i] = ClientRow { id: r, last_connected: now, logs_sent: sent };
                proof {
                    lemma_client_idx(db0.clients, r, i as int);
                    assert(returning_client(db0.clients, requested));
                    assert(self@.clients =~= refresh_client(db0.clients, r, now));
                    assert(self@ =~= register_model(db0, requested, now));
                    assert forall|a: int, b: int| 0 <= a < b < self@.clients.len() implies self@.clients[a].id
                        != self@.clients[b].id by {
                        assert(self@.clients[a].id == db0.clients[a].id);
                        assert(self@.clients[b].id == db0.clients[b].id);
                    }
                    assert forall|j: int| 0 <= j < self@.clients.len() implies 1 <= (
                    #[trigger] self@.clients[j]).id < self@.next_client_id by {
                        assert(self@.clients[j].id == db0.clients[j].id);
                    }
                    assert forall|k: int| 0 <= k < self@.logs.len() implies self@.log_row_wf(
                        #[trigger] self@.logs[k],
                    ) by {
                        assert(db0.log_row_wf(db0.logs[k]));
                        let w = choose|w: int|
                            0 <= w < db0.clients.len() && (#[trigger] db0.clients[w]).id
                                == db0.logs[k].client_id;
                        assert(self@.clients[w].id == db0.logs[k].client_id);
                    }
                    lemma_client_idx(self@.clients, r, i as int);
                }
                r
            },
            Option::None => {
                let id = self.next_client_id;
                self.clients.push(ClientRow { id, last_connected: now, logs_sent: 0 });
                self.next_client_id = self.next_client_id + 1;
                proof {
                    assert(!returning_client(db0.clients, requested));
                    assert(self@ =~= register_model(db0, requested, now));
                    let n = db0.clients.len() as int;
                    assert(self@.clients[n].id == id);
                    assert forall|a: int, b: int| 0 <= a < b < self@.clients.len() implies self@.clients[a].id
                        != self@.clients[b].id by {
                        if b < n {
                            assert(db0.clients[a].id != db0.clients[b].id);
                        } else {
                            assert(db0.clients[a].id < db0.next_client_id);
                        }
                    }
                    assert forall|j: int| 0 <= j < self@.clients.len() implies 1 <= (
                    #[trigger] self@.clients[j]).id < self@.next_client_id by {
                        if j < n {
                            assert(1 <= db0.clients[j].id < db0.next_client_id);
                        }
                    }
                    assert forall|i: int| 0 <= i < self@.logs.len() implies self@.log_row_wf(
                        #[trigger] self@.logs[i],
                    ) by {
                        assert(db0.log_row_wf(db0.logs[i]));
                        let w = choose|k: int|
                            0 <= k < db0.clients.len() && (#[trigger] db0.clients[k]).id
                                == db0.logs[i].client_id;
                        assert(self@.clients[w].id == self@.logs[i].client_id);
                    }
                    lemma_client_idx(self@.clients, id, n);
                }
                id
            },
        }
    }

    /// Registration with no requested id: always allocates a fresh client.
    pub fn new_client(&mut self, now: i64) -> (id: i32)
        requires
            old(self)@.wf(),
            old(self)@.next_client_id < i32::MAX,
        ensures
            final(self)@.wf(),
            final(self)@ == register_model(old(self)@, Option::None, now),
            id == register_result(old(self)@, Option::None),
            client_exists(final(self)@.clients, id),
    {
        self.register_client(Option::None, now)
    }
}

/// Law: registering the same client id twice never creates a second client
/// row — the table keeps its length and its ids — and the recorded
/// `last_connected` strictly increases whenever the second registration
/// happens at a strictly later clock reading. (At equal clock readings the
/// timestamp is refreshed to the same value, which is why strictness asks
/// for `now1 < now2`.)
pub proof fn lemma_reregistration_no_duplicate(db: DbView, id: i32, now1: i64, now2: i64)
    requires
        db.wf(),
        client_exists(db.clients, id),
        now1 < now2,
    ensures
        ({
            let db1 = register_model(db, Option::Some(id), now1);
            let db2 = register_model(db1, Option::Some(id), now2);
            &&& db1.clients.len() == db.clients.len()
            &&& db2.clients.len() == db.clients.len()
            &&& forall|k: int|
                0 <= k < db.clients.len() ==> (#[trigger] db2.clients[k]).id == db.clients[k].id
            &&& db1.clients[client_idx(db.clients, id)].last_connected == now1
            &&& db2.clients[client_idx(db.clients, id)].last_connected == now2
            &&& db2.clients[client_idx(db.clients, id)].last_connected
                > db1.clients[client_idx(db.clients, id)].last_connected
        }),
{
    let i = client_idx(db.clients, id);
    assert(0 <= i < db.clients.len() && db.clients[i].id == id);
    let db1 = register_model(db, Option::Some(id), now1);
    lemma_client_idx(db.clients, id, i);
    assert(db1.clients == refresh_client(db.clients, id, now1));
    assert(db1.clients[i].id == id);
    assert(client_ids_unique(db1.clients)) by {
        assert forall|a: int, b: int| 0 <= a < b < db1.clients.len() implies db1.clients[a].id
            != db1.clients[b].id by {
            assert(db1.clients[a].id == db.clients[a].id);
            assert(db1.clients[b].id == db.clients[b].id);
        }
    }
    lemma_client_idx(db1.clients, id, i);
    let db2 = register_model(db1, Option::Some(id), now2);
    assert(db2.clients == refresh_client(db1.clients, id, now2));
}


/// Content equality of snippets decides de-duplication; this finds the
/// first stored snippet with the same content, or the table length when
/// there is none.
pub open spec fn find_like_snippet(snippets: Seq<Snippet>, s: Snippet) -> int
    decreases snippets.len(),
{
    if snippets.len() == 0 {
        0
    } else if snippet_like(snippets[0], s) {
        0
    } else {
        1 + find_like_snippet(snippets.drop_first(), s)
    }
}

pub proof fn lemma_find_like_snippet_props(snippets: Seq<Snippet>, s: Snippet)
    ensures
        0 <= find_like_snippet(snippets, s) <= snippets.len(),
        find_like_snippet(snippets, s) < snippets.len() ==> snippet_like(
            snippets[find_like_snippet(snippets, s)],
            s,
        ),
    decreases snippets.len(),
{
    if snippets.len() > 0 && !snippet_like(snippets[0], s) {
        lemma_find_like_snippet_props(snippets.drop_first(), s);
    }
}

/// Skipping a prefix with no matching snippet shifts the search result.
pub proof fn lemma_find_like_snippet_skip(snippets: Seq<Snippet>, s: Snippet, i: int)
    requires
        0 <= i <= snippets.len(),
        forall|j: int| 0 <= j < i ==> !snippet_like(#[trigger] snippets[j], s),
    ensures
        find_like_snippet(snippets, s) == i + find_like_snippet(snippets.skip(i), s),
    decreases i,
{
    if i == 0 {
        assert(snippets.skip(0) =~= snippets);
    } else {
        assert(!snippet_like(snippets[0], s));
        lemma_find_like_snippet_skip(snippets.drop_first(), s, i - 1);
        assert(snippets.drop_first().skip(i - 1) =~= snippets.skip(i));
    }
}

/// The monotonic report counter; it stops at the type bound, which no real
/// workload reaches.
pub open spec fn bump_logs_sent(n: u64) -> u64 {
    if n < u64::MAX {
        (n + 1) as u64
    } else {
        n
    }
}

/// The store after persisting one normalized report at clock reading `now`:
/// the fault-site snippet is stored (re-using a content-equal row if one
/// exists), the backtrace's layers are appended in order and linked through
/// a fresh backtrace row, the log row is appended, and the owning client's
/// counters are refreshed.
pub open spec fn persist_model(db: DbView, log: Log, now: i64) -> DbView
    recommends
        log.client_id is Some,
{
    let sfind = find_like_snippet(db.snippets, log.snippet);
    let dedup = sfind < db.snippets.len();
    let snippet_id = if dedup {
        sfind
    } else {
        db.snippets.len() as int
    };
    let snippets1 = if dedup {
        db.snippets
    } else {
        db.snippets.push(log.snippet)
    };
    let layer_ids = Seq::new(
        log.backtrace.layers@.len(),
        |k: int| (db.layers.len() + k) as usize,
    );
    let c = log.client_id->0;
    let ci = client_idx(db.clients, c);
    let clients1 = db.clients.update(
        ci,
        ClientRow {
            id: c,
            last_connected: now,
            logs_sent: bump_logs_sent(db.clients[ci].logs_sent),
        },
    );
    let row = LogRow {
        id: log.id,
        client_id: c,
        message: log.message,
        message_type: log.message_type,
        language: log.language,
        snippet_id: snippet_id as usize,
        line_number: log.line_number,
        backtrace_id: db.backtraces.len() as usize,
        warnings: log.warnings,
        date: log.date,
        file_name: log.file_name,
        received_from: log.received_from,
    };
    DbView {
        clients: clients1,
        next_client_id: db.next_client_id,
        snippets: snippets1,
        layers: db.layers + log.backtrace.layers@,
        backtraces: db.backtraces.push(layer_ids),
        logs: db.logs.push(row),
    }
}

impl Db {
    /// The first stored snippet with the same content, or the table length.
    fn find_snippet(&self, s: &Snippet) -> (i: usize)
        ensures
            i as int == find_like_snippet(self@.snippets, *s),
            i <= self@.snippets.len(),
            i < self@.snippets.len() ==> snippet_like(self@.snippets[i as int], *s),
            forall|j: int| 0 <= j < i ==> !snippet_like(#[trigger] self@.snippets[j], *s),
    {
        let mut i: usize = 0;
        while i < self.snippets.len()
            invariant
                i <= self@.snippets.len(),
                forall|j: int| 0 <= j < i ==> !snippet_like(#[trigger] self@.snippets[j], *s),
            decreases self@.snippets.len() - i,
        {
            if self.snippets[i].like(s) {
                proof {
                    lemma_find_like_snippet_skip(self@.snippets, *s, i as int);
                    assert(self@.snippets.skip(i as int)[0] == self@.snippets[i as int]);
                }
                return i;
            }
            i = i + 1;
        }
        proof {
            lemma_find_like_snippet_skip(self@.snippets, *s, i as int);
        }
        i
    }

    /// Persists one report as a single all-or-nothing sequence: on any
    /// failure the store is unchanged; on success the store moves to
    /// exactly `persist_model`. The only failure the model store can
    /// report is a collision of the freshly drawn log id.
    pub fn persist(&mut self, log: Log, now: i64) -> (r: Result<Uuid, Error>)
        requires
            old(self)@.wf(),
            log.client_id matches Option::Some(c) && client_exists(old(self)@.clients, c),
        ensures
            final(self)@.wf(),
            log_id_exists(old(self)@.logs, log.id) ==> r == Err::<Uuid, Error>(
                Error::DuplicateLogId,
            ) && final(self)@ == old(self)@,
            !log_id_exists(old(self)@.logs, log.id) ==> r == Ok::<Uuid, Error>(log.id)
                && final(self)@ == persist_model(old(self)@, log, now),
    {
        let ghost db0 = self@;

        let mut di: usize = 0;
        while di < self.logs.len()
            invariant
                self@ == db0,
                db0 == old(self)@,
                db0.wf(),
                di <= self@.logs.len(),
                forall|j: int| 0 <= j < di ==> (#[trigger] self@.logs[j]).id != log.id,
            decreases self@.logs.len() - di,
        {
            if self.logs[di].id == log.id {
                return Result::Err(Error::DuplicateLogId);
            }
            di = di + 1;
        }
        assert(!log_id_exists(db0.logs, log.id));

        let sidx = self.find_snippet(&log.snippet);
        let dedup = sidx < self.snippets.len();

        let Log {
            id,
            message,
            message_type,
            language,
            snippet,
            file_name,
            line_number,
            backtrace,
            warnings,
            date,
            received_from,
            client_id,
        } = log;

        if !dedup {
            self.snippets.push(snippet);
        }
        let ghost snippets1 = self@.snippets;

        let ghost base = db0.layers.len();
        let mut layer_ids: Vec<usize> = Vec::new();
        let mut k: usize = 0;
        let nlayers = backtrace.layers.len();
        while k < nlayers
            invariant
                k <= nlayers,
                nlayers == backtrace.layers@.len(),
                self@.layers == db0.layers + backtrace.layers@.subrange(0, k as int),
                layer_ids@.len() == k,
                forall|j: int| 0 <= j < k ==> (#[trigger] layer_ids@[j]) == base + j,
                self@.clients == db0.clients,
                self@.next_client_id == db0.next_client_id,
                self@.snippets == snippets1,
                self@.backtraces == db0.backtraces,
                self@.logs == db0.logs,
                base == db0.layers.len(),
            decreases nlayers - k,
        {
            let idx = self.layers.len();
            proof {
                assert(self@.layers.len() == base + k);
            }
            self.layers.push(backtrace.layers[k].duplicate());
            layer_ids.push(idx);
            k = k + 1;
            proof {
                assert(self@.layers =~= db0.layers + backtrace.layers@.subrange(0, k as int));
            }
        }
        proof {
            assert(backtrace.layers@.subrange(0, nlayers as int) =~= backtrace.layers@);
            assert(self@.layers =~= db0.layers + backtrace.layers@);
        }

        let backtrace_id = self.backtraces.len();
        let ghost layer_ids_view = layer_ids@;
        self.backtraces.push(BacktraceRow { layer_ids });
        proof {
            assert(self@.backtraces =~= db0.backtraces.push(layer_ids_view));
            assert(layer_ids_view =~= Seq::new(
                backtrace.layers@.len(),
                |j: int| (db0.layers.len() + j) as usize,
            ));
        }

        let c = match client_id {
            Option::Some(c) => c,
            Option::None => {
                proof {
                    assert(false);
                }
                0
            },
        };

        let snippet_id = sidx;
        self.logs.push(
            LogRow {
                id,
                client_id: c,
                message,
                message_type,
                language,
                snippet_id,
                line_number,
                backtrace_id,
                warnings,
                date,
                file_name,
                received_from,
            },
        );

        let ci = match self.find_client(c) {
            Option::Some(ci) => ci,
            Option::None => {
                proof {
                    assert(client_exists(self@.clients, c));
                    assert(false);
                }
                0
            },
        };
        let prev = self.clients[ci];
        let bumped: u64 = if prev.logs_sent < u64::MAX {
            prev.logs_sent + 1
        } else {
            prev.logs_sent
        };
        self.clients[ci] = ClientRow { id: c, last_connected: now, logs_sent: bumped };

        proof {
            lemma_client_idx(db0.clients, c, ci as int);
            let model = persist_model(db0, log, now);
            assert(self@.clients =~= model.clients);
            assert(self@.snippets =~= model.snippets);
            assert(self@.layers =~= model.layers);
            assert(self@.backtraces =~= model.backtraces);
            assert(self@.logs =~= model.logs);
            assert(self@ =~= model);

            let dbv = self@;
            let n = db0.logs.len() as int;
            assert forall|a: int, b: int| 0 <= a < b < dbv.clients.len() implies dbv.clients[a].id
                != dbv.clients[b].id by {
                assert(dbv.clients[a].id == db0.clients[a].id);
                assert(dbv.clients[b].id == db0.clients[b].id);
            }
            assert forall|j: int| 0 <= j < dbv.clients.len() implies 1 <= (
            #[trigger] dbv.clients[j]).id < dbv.next_client_id by {
                assert(dbv.clients[j].id == db0.clients[j].id);
            }
            assert forall|a: int, b: int| 0 <= a < b < dbv.logs.len() implies dbv.logs[a].id
                != dbv.logs[b].id by {
                if b < n {
                    assert(db0.logs[a].id != db0.logs[b].id);
                } else {
                    assert(dbv.logs[a].id == db0.logs[a].id);
                }
            }
            assert forall|j: int| 0 <= j < dbv.logs.len() implies dbv.log_row_wf(
                #[trigger] dbv.logs[j],
            ) by {
                if j < n {
                    assert(db0.log_row_wf(db0.logs[j]));
                    let w = choose|w: int|
                        0 <= w < db0.clients.len() && (#[trigger] db0.clients[w]).id
                            == db0.logs[j].client_id;
                    assert(dbv.clients[w].id == db0.logs[j].client_id);
                } else {
                    assert(dbv.clients[ci as int].id == c);
                }
            }
            assert forall|j: int| 0 <= j < dbv.backtraces.len() implies dbv.backtrace_wf(
                #[trigger] dbv.backtraces[j],
            ) by {
                if j < db0.backtraces.len() {
                    assert(db0.backtrace_wf(db0.backtraces[j]));
                    assert forall|q: int| 0 <= q < dbv.backtraces[j].len() implies (
                    #[trigger] dbv.backtraces[j][q]) < dbv.layers.len() by {
                        assert(dbv.backtraces[j][q] == db0.backtraces[j][q]);
                        assert(db0.backtraces[j][q] < db0.layers.len());
                    }
                } else {
                    assert(dbv.backtraces[j] =~= layer_ids_view);
                }
            }
        }
        Result::Ok(id)
    }
}


/// The layers of backtrace `bid`, in stored link order.
pub open spec fn backtrace_layers(db: DbView, bid: int) -> Seq<Layer>
    recommends
        0 <= bid < db.backtraces.len(),
{
    Seq::new(db.backtraces[bid].len(), |k: int| db.layers[db.backtraces[bid][k] as int])
}

/// How a log handed back by the read path relates to stored row `i`: every
/// field is reassembled from that row, with the backtrace's layers in their
/// original order.
pub open spec fn log_matches_row(l: Log, db: DbView, i: int) -> bool
    recommends
        0 <= i < db.logs.len(),
{
    let row = db.logs[i];
    &&& l.id == row.id
    &&& l.message == row.message
    &&& l.message_type == row.message_type
    &&& l.language == row.language
    &&& l.snippet == db.snippets[row.snippet_id as int]
    &&& l.file_name == row.file_name
    &&& l.line_number == row.line_number
    &&& l.backtrace.layers@ == backtrace_layers(db, row.backtrace_id as int)
    &&& l.warnings@ == row.warnings@
    &&& l.date == row.date
    &&& l.received_from == row.received_from
    &&& l.client_id == Option::Some(row.client_id)
}

/// Whether a row is visible under an optional client scope.
pub open spec fn row_in_scope(row: LogRow, scope: Option<i32>) -> bool {
    match scope {
        Option::None => true,
        Option::Some(c) => row.client_id == c,
    }
}

/// The indices of the first `n` log rows that fall in scope, in stored
/// order.
pub open spec fn scoped_rows(logs: Seq<LogRow>, scope: Option<i32>, n: int) -> Seq<int>
    decreases n,
{
    if n <= 0 {
        Seq::empty()
    } else if row_in_scope(logs[n - 1], scope) {
        scoped_rows(logs, scope, n - 1).push(n - 1)
    } else {
        scoped_rows(logs, scope, n - 1)
    }
}

pub proof fn lemma_scoped_rows_props(logs: Seq<LogRow>, scope: Option<i32>, n: int)
    requires
        0 <= n <= logs.len(),
    ensures
        forall|k: int|
            0 <= k < scoped_rows(logs, scope, n).len() ==> 0 <= #[trigger] scoped_rows(
                logs,
                scope,
                n,
            )[k] < n && row_in_scope(logs[scoped_rows(logs, scope, n)[k]], scope),
        forall|k1: int, k2: int|
            0 <= k1 < k2 < scoped_rows(logs, scope, n).len() ==> #[trigger] scoped_rows(
                logs,
                scope,
                n,
            )[k1] < #[trigger] scoped_rows(logs, scope, n)[k2],
    decreases n,
{
    if n > 0 {
        lemma_scoped_rows_props(logs, scope, n - 1);
        let pre = scoped_rows(logs, scope, n - 1);
        let cur = scoped_rows(logs, scope, n);
        if row_in_scope(logs[n - 1], scope) {
            assert(cur == pre.push(n - 1));
            assert forall|k: int| 0 <= k < cur.len() implies 0 <= #[trigger] cur[k] < n
                && row_in_scope(logs[cur[k]], scope) by {
                if k < pre.len() {
                    assert(cur[k] == pre[k]);
                } else {
                    assert(cur[k] == n - 1);
                }
            }
            assert forall|k1: int, k2: int| 0 <= k1 < k2 < cur.len() implies #[trigger] cur[k1]
                < #[trigger] cur[k2] by {
                if k2 < pre.len() {
                    assert(cur[k1] == pre[k1]);
                    assert(cur[k2] == pre[k2]);
                } else {
                    assert(cur[k2] == n - 1);
                    assert(cur[k1] == pre[k1]);
                    assert(0 <= pre[k1] < n - 1);
                }
            }
        } else {
            assert(cur == pre);
            assert forall|k: int| 0 <= k < cur.len() implies 0 <= #[trigger] cur[k] < n
                && row_in_scope(logs[cur[k]], scope) by {
                assert(cur[k] == pre[k]);
            }
        }
    }
}

/// An unscoped listing hides nothing: it selects every row, in order.
pub proof fn lemma_unscoped_rows_complete(logs: Seq<LogRow>, n: int)
    requires
        0 <= n <= logs.len(),
    ensures
        scoped_rows(logs, Option::None, n).len() == n,
        forall|k: int| 0 <= k < n ==> #[trigger] scoped_rows(logs, Option::None, n)[k] == k,
    decreases n,
{
    if n > 0 {
        lemma_unscoped_rows_complete(logs, n - 1);
    }
}

pub open spec fn owned_log_at(logs: Seq<LogRow>, id: Uuid, c: i32, i: int) -> bool {
    0 <= i < logs.len() && logs[i].id == id && logs[i].client_id == c
}

/// Whether some stored log has this id and belongs to this client; the read
/// path only ever reveals logs through this scope.
pub open spec fn owned_log_exists(logs: Seq<LogRow>, id: Uuid, c: i32) -> bool {
    exists|i: int| #[trigger] owned_log_at(logs, id, c, i)
}

pub open spec fn owned_log_idx(logs: Seq<LogRow>, id: Uuid, c: i32) -> int {
    choose|i: int| #[trigger] owned_log_at(logs, id, c, i)
}

/// With unique log ids, an owned row's index is the only one with its id.
pub proof fn lemma_owned_log_idx(logs: Seq<LogRow>, id: Uuid, c: i32, i: int)
    requires
        log_ids_unique(logs),
        owned_log_at(logs, id, c, i),
    ensures
        owned_log_exists(logs, id, c),
        owned_log_idx(logs, id, c) == i,
{
    assert(owned_log_exists(logs, id, c));
    let j = owned_log_idx(logs, id, c);
    assert(owned_log_at(logs, id, c, j));
    if i < j {
        assert(logs[i].id != logs[j].id);
    } else if j < i {
        assert(logs[j].id != logs[i].id);
    }
}

impl Db {
    /// Reassembles stored row `i` into a `Log`, layers in original order.
    fn rebuild_log(&self, i: usize) -> (l: Log)
        requires
            self@.wf(),
            i < self@.logs.len(),
        ensures
            log_matches_row(l, self@, i as int),
    {
        proof {
            assert(self@.log_row_wf(self@.logs[i as int]));
        }
        let row = &self.logs[i];
        let snippet = self.snippets[row.snippet_id].duplicate();
        proof {
            assert(self@.backtrace_wf(self@.backtraces[row.backtrace_id as int]));
            assert(self@.backtraces[row.backtrace_id as int]
                == self.backtraces@[row.backtrace_id as int].layer_ids@);
        }
        let bt = &self.backtraces[row.backtrace_id];
        let mut layers: Vec<Layer> = Vec::new();
        let mut k: usize = 0;
        let n = bt.layer_ids.len();
        while k < n
            invariant
                self@.wf(),
                k <= n,
                n == bt.layer_ids@.len(),
                forall|q: int| 0 <= q < n ==> (#[trigger] bt.layer_ids@[q]) < self@.layers.len(),
                layers@ =~= Seq::new(k as nat, |q: int| self@.layers[bt.layer_ids@[q] as int]),
            decreases n - k,
        {
            let lid = bt.layer_ids[k];
            layers.push(self.layers[lid].duplicate());
            k = k + 1;
        }
        let l = Log {
            id: row.id,
            message: row.message.clone(),
            message_type: row.message_type.clone(),
            language: row.language.clone(),
            snippet,
            file_name: row.file_name.clone(),
            line_number: row.line_number,
            backtrace: crate::types::Trace { layers },
            warnings: crate::types::clone_strings(&row.warnings),
            date: row.date,
            received_from: row.received_from,
            client_id: Option::Some(row.client_id),
        };
        proof {
            assert(l.backtrace.layers@ =~= backtrace_layers(self@, row.backtrace_id as int));
        }
        l
    }

    /// Returns every stored log, optionally scoped to one client, each with
    /// its backtrace reassembled in original order. A scoped listing never
    /// contains a log owned by any other client.
    pub fn list_logs(&self, scope: Option<i32>) -> (r: Vec<Log>)
        requires
            self@.wf(),
        ensures
            ({
                let idxs = scoped_rows(self@.logs, scope, self@.logs.len() as int);
                &&& r@.len() == idxs.len()
                &&& forall|k: int|
                    0 <= k < idxs.len() ==> log_matches_row(#[trigger] r@[k], self@, idxs[k])
            }),
            forall|k: int|
                scope is Some && 0 <= k < r@.len() ==> (#[trigger] r@[k]).client_id == scope,
            scope is None ==> r@.len() == self@.logs.len() && forall|k: int|
                0 <= k < r@.len() ==> log_matches_row(#[trigger] r@[k], self@, k),
    {
        let mut r: Vec<Log> = Vec::new();
        let mut i: usize = 0;
        let n = self.logs.len();
        while i < n
            invariant
                self@.wf(),
                i <= n,
                n == self@.logs.len(),
                r@.len() == scoped_rows(self@.logs, scope, i as int).len(),
                forall|k: int|
                    0 <= k < r@.len() ==> log_matches_row(
                        #[trigger] r@[k],
                        self@,
                        scoped_rows(self@.logs, scope, i as int)[k],
                    ),
            decreases n - i,
        {
            let in_scope = match scope {
                Option::None => true,
                Option::Some(c) => self.logs[i].client_id == c,
            };
            let ghost before = scoped_rows(self@.logs, scope, i as int);
            if in_scope {
                let l = self.rebuild_log(i);
                r.push(l);
            }
            i = i + 1;
            proof {
                let after = scoped_rows(self@.logs, scope, i as int);
                if in_scope {
                    assert(after =~= before.push(i - 1));
                } else {
                    assert(after =~= before);
                }
            }
        }
        proof {
            let idxs = scoped_rows(self@.logs, scope, self@.logs.len() as int);
            lemma_scoped_rows_props(self@.logs, scope, self@.logs.len() as int);
            if scope is None {
                lemma_unscoped_rows_complete(self@.logs, self@.logs.len() as int);
            }
            assert forall|k: int|
                scope is Some && 0 <= k < r@.len() implies (#[trigger] r@[k]).client_id
                == scope by {
                assert(log_matches_row(r@[k], self@, idxs[k]));
                assert(row_in_scope(self@.logs[idxs[k]], scope));
            }
        }
        r
    }

    /// Fetches one log by id, scoped to the requesting client: a log that
    /// does not exist — or exists but is owned by another client — is
    /// reported as not found, leaking nothing across clients.
    pub fn get_log(&self, id: Uuid, client: ClientId) -> (r: Result<Log, Error>)
        requires
            self@.wf(),
        ensures
            owned_log_exists(self@.logs, id, client.0) ==> (r matches Result::Ok(l)
                && log_matches_row(l, self@, owned_log_idx(self@.logs, id, client.0))),
            !owned_log_exists(self@.logs, id, client.0) ==> r == Result::<Log, Error>::Err(
                Error::NotFound,
            ),
    {
        let mut i: usize = 0;
        let n = self.logs.len();
        while i < n
            invariant
                self@.wf(),
                i <= n,
                n == self@.logs.len(),
                forall|j: int| 0 <= j < i ==> !owned_log_at(self@.logs, id, client.0, j),
            decreases n - i,
        {
            if self.logs[i].id == id && self.logs[i].client_id == client.0 {
                let l = self.rebuild_log(i);
                proof {
                    lemma_owned_log_idx(self@.logs, id, client.0, i as int);
                }
                return Result::Ok(l);
            }
            proof {
                assert(!owned_log_at(self@.logs, id, client.0, i as int));
            }
            i = i + 1;
        }
        proof {
            assert forall|j: int| !owned_log_at(self@.logs, id, client.0, j) by {
                if 0 <= j < self@.logs.len() {
                    assert(!owned_log_at(self@.logs, id, client.0, j));
                }
            }
        }
        Result::Err(Error::NotFound)
    }
}

/// Law: persisting a report and then fetching it back under its stored id
/// and owning client succeeds and returns a log whose backtrace layer
/// ordering — and every other content field — matches what was submitted.
/// `got` stands for any value admitted by `get_log`'s contract on the
/// post-persist store.
pub proof fn lemma_round_trip(db: DbView, log: Log, now: i64, got: Log)
    requires
        db.wf(),
        db.snippets.len() <= usize::MAX,
        db.backtraces.len() <= usize::MAX,
        db.layers.len() + log.backtrace.layers@.len() <= usize::MAX,
        log.client_id matches Option::Some(c) && client_exists(db.clients, c),
        !log_id_exists(db.logs, log.id),
        log_matches_row(
            got,
            persist_model(db, log, now),
            owned_log_idx(persist_model(db, log, now).logs, log.id, log.client_id->0),
        ),
    ensures
        owned_log_exists(persist_model(db, log, now).logs, log.id, log.client_id->0),
        got.backtrace.layers@ == log.backtrace.layers@,
        crate::types::log_like(got, log),
{
    let c = log.client_id->0;
    let db1 = persist_model(db, log, now);
    let n = db.logs.len() as int;
    assert(db1.logs.len() == n + 1);
    assert(db1.logs[n].id == log.id && db1.logs[n].client_id == c);
    assert(owned_log_at(db1.logs, log.id, c, n));
    assert(log_ids_unique(db1.logs)) by {
        assert forall|a: int, b: int| 0 <= a < b < db1.logs.len() implies db1.logs[a].id
            != db1.logs[b].id by {
            if b < n {
                assert(db1.logs[a].id == db.logs[a].id);
                assert(db1.logs[b].id == db.logs[b].id);
            } else {
                assert(db1.logs[a].id == db.logs[a].id);
                assert(!log_id_exists(db.logs, log.id));
                assert(db.logs[a].id != log.id);
            }
        }
    }
    lemma_owned_log_idx(db1.logs, log.id, c, n);
    let row = db1.logs[n];
    lemma_find_like_snippet_props(db.snippets, log.snippet);
    let sfind = find_like_snippet(db.snippets, log.snippet);
    if sfind < db.snippets.len() {
        assert(db1.snippets[row.snippet_id as int] == db.snippets[sfind]);
        assert(snippet_like(got.snippet, log.snippet));
    } else {
        assert(db1.snippets[row.snippet_id as int] == log.snippet);
        assert(snippet_like(got.snippet, log.snippet));
    }
    let bid = row.backtrace_id as int;
    assert(db1.backtraces[bid] =~= Seq::new(
        log.backtrace.layers@.len(),
        |k: int| (db.layers.len() + k) as usize,
    ));
    assert(got.backtrace.layers@ =~= log.backtrace.layers@) by {
        assert(got.backtrace.layers@ == backtrace_layers(db1, bid));
        assert(backtrace_layers(db1, bid).len() == log.backtrace.layers@.len());
        assert forall|k: int| 0 <= k < log.backtrace.layers@.len() implies backtrace_layers(
            db1,
            bid,
        )[k] == log.backtrace.layers@[k] by {
            assert(db1.backtraces[bid][k] == db.layers.len() + k);
            assert(db1.layers[db.layers.len() + k] == log.backtrace.layers@[k]);
        }
    }
}

} // verus!
