//! The ingestion endpoint and its companions: payload normalization, the
//! `client-id` header parser, and the orchestration that validates,
//! normalizes, persists and then broadcasts each report. The transport
//! adapter above this module only moves bytes and plain values.

use vstd::prelude::*;

use crate::clock::now_utc_millis;
use crate::error::Error;
use crate::hub::Hub;
use crate::ids::created_message_text;
use crate::ids::fresh_log_id;
use crate::store::Db;
use crate::store::DbView;
use crate::store::client_exists;
use crate::store::lemma_round_trip;
use crate::store::log_id_exists;
use crate::store::log_matches_row;
use crate::store::owned_log_exists;
use crate::store::owned_log_idx;
use crate::store::persist_model;
use crate::store::register_model;
use crate::store::register_result;
use crate::types::ClientId;
use crate::types::IpNet;
use crate::types::Log;
use crate::types::LogBody;
use crate::types::RegisterClientResponse;
use crate::types::Response;
use crate::types::Uuid;
use crate::types::log_like;
use crate::valid_timestamp;

verus! {

/// The log that normalization produces from a payload: the payload's
/// fields verbatim, a server-assigned id and capture time, and the
/// attribution fields left unset for the ingestion endpoint to fill.
pub open spec fn normalized_log(body: LogBody, id: Uuid, date: i64) -> Log {
    Log {
        id,
        message: body.message,
        message_type: body.message_type,
        language: body.language,
        snippet: body.snippet,
        file_name: body.file_name,
        line_number: body.line_number,
        backtrace: body.backtrace,
        warnings: body.warnings,
        date,
        received_from: Option::None,
        client_id: Option::None,
    }
}

/// A normalized log after the ingestion endpoint attributed it: the origin
/// address recorded server-side, and the authenticated client id.
pub open spec fn attributed_log(
    body: LogBody,
    id: Uuid,
    date: i64,
    origin: IpNet,
    client: i32,
) -> Log {
    Log {
        id,
        message: body.message,
        message_type: body.message_type,
        language: body.language,
        snippet: body.snippet,
        file_name: body.file_name,
        line_number: body.line_number,
        backtrace: body.backtrace,
        warnings: body.warnings,
        date,
        received_from: Option::Some(origin),
        client_id: Option::Some(client),
    }
}

/// Converts a payload into the canonical entity graph: fields copied
/// verbatim, backtrace order untouched, the given fresh id and capture
/// time, and `received_from`/`client_id` left unset. Deterministic in all
/// its inputs; never touches the store.
pub fn normalize(body: LogBody, id: Uuid, date: i64) -> (l: Log)
    ensures
        l == normalized_log(body, id, date),
{
    let LogBody {
        message,
        message_type,
        language,
        backtrace,
        snippet,
        line_number,
        file_name,
        warnings,
    } = body;
    Log {
        id,
        message,
        message_type,
        language,
        snippet,
        file_name,
        line_number,
        backtrace,
        warnings,
        date,
        received_from: Option::None,
        client_id: Option::None,
    }
}

/// The service state handed to every request handler: the store and the
/// broadcast hub.
pub struct Store {
    pub db: Db,
    pub hub: Hub,
}

impl Store {
    pub fn new(hub: Hub) -> (s: Store)
        ensures
            s.db@.wf(),
            s.db@.clients.len() == 0,
            s.db@.logs.len() == 0,
            s.db@.next_client_id == 1,
            s.hub == hub,
    {
        Store { db: Db::new(), hub }
    }

    /// The ingestion endpoint: validate the client, normalize and attribute
    /// the payload, persist it, then publish it to the hub. An unknown
    /// client is rejected with no side effect at all; a storage failure
    /// surfaces with the store unchanged and nothing broadcast; after a
    /// durable persist the broadcast and the acknowledgement — whose
    /// message carries the new id and whose timestamp is the capture time —
    /// always follow, since publishing has no failure outcome.
    pub fn add_log(
        &mut self,
        client_id: i32,
        origin: IpNet,
        body: LogBody,
        id: Uuid,
        now: i64,
    ) -> (r: Result<Response, Error>)
        requires
            old(self).db@.wf(),
            old(self).hub.wf(),
            old(self).hub.history().len() < u64::MAX,
        ensures
            final(self).db@.wf(),
            final(self).hub.wf(),
            final(self).hub.cap() == old(self).hub.cap(),
            !client_exists(old(self).db@.clients, client_id) ==> r == Result::<
                Response,
                Error,
            >::Err(Error::UnknownClient) && final(self).db@ == old(self).db@ && final(self).hub.history() == old(self).hub.history(),
            client_exists(old(self).db@.clients, client_id) && log_id_exists(
                old(self).db@.logs,
                id,
            ) ==> r == Result::<Response, Error>::Err(Error::DuplicateLogId) && final(self).db@
                == old(self).db@ && final(self).hub.history() == old(self).hub.history(),
            client_exists(old(self).db@.clients, client_id) && !log_id_exists(
                old(self).db@.logs,
                id,
            ) ==> ({
                let log = attributed_log(body, id, now, origin, client_id);
                &&& final(self).db@ == persist_model(old(self).db@, log, now)
                &&& final(self).hub.history().len() == old(self).hub.history().len() + 1
                &&& log_like(final(self).hub.history().last(), log)
                &&& r matches Result::Ok(resp) && resp.datetime == now && resp.message@
                    == created_message_text(id.value)
            }),
    {
        if !self.db.validate(client_id) {
            return Result::Err(Error::UnknownClient);
        }
        let mut log = normalize(body, id, now);
        log.received_from = Option::Some(origin);
        log.client_id = Option::Some(client_id);
        proof {
            assert(log == attributed_log(body, id, now, origin, client_id));
        }
        let copy = log.duplicate();
        match self.db.persist(log, now) {
            Result::Ok(_stored) => {
                self.hub.publish(copy);
                let message = id.created_message();
                Result::Ok(Response { message, datetime: now })
            },
            Result::Err(e) => Result::Err(e),
        }
    }

    /// Ingestion with a freshly drawn id and the server clock. The drawn
    /// id is random: on the (never observed) chance that it collides with
    /// a stored one, the storage error surfaces and nothing is persisted
    /// or broadcast, exactly as `add_log` states.
    pub fn add_log_now(&mut self, client_id: i32, origin: IpNet, body: LogBody) -> (r: Result<
        Response,
        Error,
    >)
        requires
            old(self).db@.wf(),
            old(self).hub.wf(),
            old(self).hub.history().len() < u64::MAX,
        ensures
            final(self).db@.wf(),
            final(self).hub.wf(),
            !client_exists(old(self).db@.clients, client_id) ==> r == Result::<
                Response,
                Error,
            >::Err(Error::UnknownClient) && final(self).db@ == old(self).db@ && final(self).hub.history() == old(self).hub.history(),
            client_exists(old(self).db@.clients, client_id) ==> (r matches Result::Ok(resp)
                && exists|id: Uuid, t: i64|
                {
                    &&& valid_timestamp(t)
                    &&& !log_id_exists(old(self).db@.logs, id)
                    &&& final(self).db@ == persist_model(
                        old(self).db@,
                        #[trigger] attributed_log(body, id, t, origin, client_id),
                        t,
                    )
                    &&& final(self).hub.history().len() == old(self).hub.history().len() + 1
                    &&& log_like(
                        final(self).hub.history().last(),
                        attributed_log(body, id, t, origin, client_id),
                    )
                    &&& resp.datetime == t
                    &&& resp.message@ == created_message_text(id.value)
                }) || (r == Result::<Response, Error>::Err(Error::DuplicateLogId) && final(self).db@ == old(self).db@ && final(self).hub.history() == old(self).hub.history()),
    {
        let id = fresh_log_id();
        let now = now_utc_millis();
        self.add_log(client_id, origin, body, id, now)
    }
}

impl Db {
    /// Registration stamped with the server clock: the returned id — the
    /// requested one when it exists, a fresh one otherwise — does not
    /// depend on the clock reading.
    pub fn register_client_now(&mut self, requested: Option<i32>) -> (id: i32)
        requires
            old(self)@.wf(),
            old(self)@.next_client_id < i32::MAX,
        ensures
            final(self)@.wf(),
            id == register_result(old(self)@, requested),
            client_exists(final(self)@.clients, id),
            exists|t: i64|
                valid_timestamp(t) && #[trigger] register_model(old(self)@, requested, t) == final(self)@,
    {
        let now = now_utc_millis();
        self.register_client(requested, now)
    }

    /// First-contact registration with the server clock.
    pub fn new_client_now(&mut self) -> (id: i32)
        requires
            old(self)@.wf(),
            old(self)@.next_client_id < i32::MAX,
        ensures
            final(self)@.wf(),
            id == register_result(old(self)@, Option::None),
            client_exists(final(self)@.clients, id),
            exists|t: i64|
                valid_timestamp(t) && #[trigger] register_model(old(self)@, Option::None, t)
                    == final(self)@,
    {
        self.register_client_now(Option::None)
    }
}

/// A registration response for a freshly issued or refreshed id.
pub fn register_response(id: i32) -> (r: RegisterClientResponse)
    ensures
        r.client_id == id,
{
    RegisterClientResponse { client_id: id }
}


/// Whether every byte of the sequence is an ASCII decimal digit.
pub open spec fn all_digits(s: Seq<u8>) -> bool {
    forall|i: int| 0 <= i < s.len() ==> 48 <= #[trigger] s[i] <= 57
}

/// The integer value of a sequence of ASCII decimal digits.
pub open spec fn digits_value(s: Seq<u8>) -> int
    decreases s.len(),
{
    if s.len() == 0 {
        0
    } else {
        digits_value(s.drop_last()) * 10 + (s.last() - 48)
    }
}

/// The digit part of a client id header: everything after an optional
/// leading `+` or `-`.
pub open spec fn client_id_digits(s: Seq<u8>) -> Seq<u8> {
    if s.len() > 0 && (s[0] == 43 || s[0] == 45) {
        s.drop_first()
    } else {
        s
    }
}

pub open spec fn client_id_negative(s: Seq<u8>) -> bool {
    s.len() > 0 && s[0] == 45
}

/// A well-formed client id header: an optional sign, at least one digit,
/// nothing else, and a value that fits a 32-bit signed integer.
pub open spec fn valid_client_id_bytes(s: Seq<u8>) -> bool {
    &&& client_id_digits(s).len() > 0
    &&& all_digits(client_id_digits(s))
    &&& if client_id_negative(s) {
        digits_value(client_id_digits(s)) <= 0x8000_0000
    } else {
        digits_value(client_id_digits(s)) <= 0x7fff_ffff
    }
}

pub open spec fn client_id_value(s: Seq<u8>) -> int {
    if client_id_negative(s) {
        -digits_value(client_id_digits(s))
    } else {
        digits_value(client_id_digits(s))
    }
}

pub proof fn lemma_digits_value_nonneg(s: Seq<u8>)
    requires
        all_digits(s),
    ensures
        digits_value(s) >= 0,
    decreases s.len(),
{
    if s.len() > 0 {
        assert(all_digits(s.drop_last())) by {
            assert forall|i: int| 0 <= i < s.drop_last().len() implies 48 <= #[trigger] s.drop_last()[i] <= 57 by {
                assert(s.drop_last()[i] == s[i]);
            }
        }
        lemma_digits_value_nonneg(s.drop_last());
    }
}

/// A digit string is worth at least any of its prefixes.
pub proof fn lemma_digits_value_prefix(s: Seq<u8>, i: int)
    requires
        all_digits(s),
        0 <= i <= s.len(),
    ensures
        digits_value(s) >= digits_value(s.subrange(0, i)),
    decreases s.len() - i,
{
    if i == s.len() {
        assert(s.subrange(0, i) =~= s);
    } else {
        lemma_digits_value_prefix(s, i + 1);
        assert(s.subrange(0, i + 1).drop_last() =~= s.subrange(0, i));
        assert(all_digits(s.subrange(0, i))) by {
            assert forall|j: int| 0 <= j < s.subrange(0, i).len() implies 48 <= #[trigger] s.subrange(
                0,
                i,
            )[j] <= 57 by {
                assert(s.subrange(0, i)[j] == s[j]);
            }
        }
        lemma_digits_value_nonneg(s.subrange(0, i));
        assert(digits_value(s.subrange(0, i + 1)) == digits_value(s.subrange(0, i)) * 10 + (s[i]
            - 48));
    }
}

/// Parses a `client-id` header value: an optional sign followed by decimal
/// digits, exactly the inputs `str::parse::<i32>` accepts. Anything else —
/// empty, stray characters, or a value outside the 32-bit range — is the
/// client error `InvalidClientId`, if and only if.
pub fn parse_client_id(s: &[u8]) -> (r: Result<i32, Error>)
    ensures
        valid_client_id_bytes(s@) ==> r == Result::<i32, Error>::Ok(client_id_value(s@) as i32),
        !valid_client_id_bytes(s@) ==> r == Result::<i32, Error>::Err(Error::InvalidClientId),
{
    let n = s.len();
    let mut start: usize = 0;
    let mut neg = false;
    if n > 0 && (s[0] == 43 || s[0] == 45) {
        neg = s[0] == 45;
        start = 1;
    }
    let ghost digits = client_id_digits(s@);
    proof {
        assert(digits =~= s@.subrange(start as int, n as int));
    }
    if start >= n {
        return Result::Err(Error::InvalidClientId);
    }
    let mut acc: i64 = 0;
    let mut i: usize = start;
    while i < n
        invariant
            start <= i <= n,
            n == s@.len(),
            digits == client_id_digits(s@),
            digits =~= s@.subrange(start as int, n as int),
            start == 0 || start == 1,
            start == 1 ==> (s@[0] == 43 || s@[0] == 45),
            neg == client_id_negative(s@),
            all_digits(s@.subrange(start as int, i as int)),
            acc == digits_value(s@.subrange(start as int, i as int)),
            0 <= acc <= 0x8000_0000,
        decreases n - i,
    {
        let b = s[i];
        if b < 48 || b > 57 {
            proof {
                assert(digits[i - start] == s@[i as int]);
                assert(!all_digits(digits));
            }
            return Result::Err(Error::InvalidClientId);
        }
        acc = acc * 10 + ((b - 48) as i64);
        i = i + 1;
        proof {
            let pre = s@.subrange(start as int, i - 1);
            let cur = s@.subrange(start as int, i as int);
            assert(cur.drop_last() =~= pre);
            assert(all_digits(cur)) by {
                assert forall|j: int| 0 <= j < cur.len() implies 48 <= #[trigger] cur[j] <= 57 by {
                    if j < pre.len() {
                        assert(cur[j] == pre[j]);
                    } else {
                        assert(cur[j] == s@[i - 1]);
                    }
                }
            }
        }
        if acc > 0x8000_0000 {
            proof {
                if valid_client_id_bytes(s@) {
                    lemma_digits_value_prefix(digits, i - start);
                    assert(digits.subrange(0, i - start) =~= s@.subrange(start as int, i as int));
                }
            }
            return Result::Err(Error::InvalidClientId);
        }
    }
    proof {
        assert(s@.subrange(start as int, n as int) =~= digits);
        assert(acc == digits_value(digits));
        assert(all_digits(digits));
    }
    if neg {
        Result::Ok((-acc) as i32)
    } else {
        if acc > 0x7fff_ffff {
            return Result::Err(Error::InvalidClientId);
        }
        Result::Ok(acc as i32)
    }
}


/// Law (round trip): for any valid payload, ingesting it and then fetching
/// the stored id under the submitting client succeeds and returns a log
/// whose backtrace layer ordering — and every other content field —
/// exactly matches what was submitted, with the server-set capture time,
/// origin address and owning client attached. `got` stands for any value
/// admitted by `get_log`'s contract on the post-ingestion store.
pub proof fn lemma_ingest_get_round_trip(
    db: DbView,
    body: LogBody,
    id: Uuid,
    now: i64,
    origin: IpNet,
    client: i32,
    got: Log,
)
    requires
        db.wf(),
        db.snippets.len() <= usize::MAX,
        db.backtraces.len() <= usize::MAX,
        db.layers.len() + body.backtrace.layers@.len() <= usize::MAX,
        client_exists(db.clients, client),
        !log_id_exists(db.logs, id),
        log_matches_row(
            got,
            persist_model(db, attributed_log(body, id, now, origin, client), now),
            owned_log_idx(
                persist_model(db, attributed_log(body, id, now, origin, client), now).logs,
                id,
                client,
            ),
        ),
    ensures
        owned_log_exists(
            persist_model(db, attributed_log(body, id, now, origin, client), now).logs,
            id,
            client,
        ),
        got.backtrace.layers@ == body.backtrace.layers@,
        crate::types::log_like(got, attributed_log(body, id, now, origin, client)),
        got.date == now,
        got.received_from == Option::Some(origin),
        got.client_id == Option::Some(client),
{
    lemma_round_trip(db, attributed_log(body, id, now, origin, client), now, got);
}


/// The client identity carried by a request: a `client-id` header that is
/// a well-formed integer naming a registered client. A missing or
/// malformed header and an unknown client are both client errors, told
/// apart so the transport layer can answer precisely.
pub fn authenticate_client(db: &Db, header: Option<&[u8]>) -> (r: Result<ClientId, Error>)
    requires
        db@.wf(),
    ensures
        ({
            match header {
                Option::None => r == Result::<ClientId, Error>::Err(Error::InvalidClientId),
                Option::Some(h) => {
                    if !valid_client_id_bytes(h@) {
                        r == Result::<ClientId, Error>::Err(Error::InvalidClientId)
                    } else if client_exists(db@.clients, client_id_value(h@) as i32) {
                        r == Result::<ClientId, Error>::Ok(ClientId(client_id_value(h@) as i32))
                    } else {
                        r == Result::<ClientId, Error>::Err(Error::UnknownClient)
                    }
                },
            }
        }),
{
    match header {
        Option::None => Result::Err(Error::InvalidClientId),
        Option::Some(h) => match parse_client_id(h) {
            Result::Err(e) => Result::Err(e),
            Result::Ok(id) => {
                if db.validate(id) {
                    Result::Ok(ClientId(id))
                } else {
                    Result::Err(Error::UnknownClient)
                }
            },
        },
    }
}

} // verus!
