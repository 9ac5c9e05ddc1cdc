//! Pooled database executor: the prepared-statement cache, the detection of
//! schema-mismatch error signatures, and the decision logic of one execute
//! call (up to two attempts, with a full cache invalidation between them).
//!
//! The asynchronous driver work — taking a connection from the pool,
//! preparing, querying — is performed by the surrounding runtime, which
//! reports each attempt's outcome to `apply_outcome`; every decision taken
//! on such an outcome is made here.

use vstd::prelude::*;

use crate::database::{DatabaseConfig, DbError, ParamValue};

verus! {

// ------------------------------------------------------------------
// Prepared-statement cache: SQL text -> prepared-statement handle.
// ------------------------------------------------------------------

/// The handle bound to statement text `k`, scanning entries from the front.
pub open spec fn cache_lookup(s: Seq<(String, u64)>, k: Seq<char>) -> Option<u64>
    decreases s.len(),
{
    if s.len() == 0 {
        None
    } else if s[0].0@ == k {
        Some(s[0].1)
    } else {
        cache_lookup(s.drop_first(), k)
    }
}

/// No statement text occurs twice.
pub open spec fn cache_wf(s: Seq<(String, u64)>) -> bool {
    forall|i: int, j: int| 0 <= i < j < s.len() ==> s[i].0@ != s[j].0@
}

/// Map from exact SQL text to the handle of its prepared statement. Valid
/// only while the remote schema is unchanged; a schema-mismatch error
/// invalidates it wholesale.
pub struct StatementCache {
    pub entries: Vec<(String, u64)>,
}

impl StatementCache {
    pub open spec fn wf(self) -> bool {
        cache_wf(self.entries@)
    }

    pub open spec fn spec_lookup(self, k: Seq<char>) -> Option<u64> {
        cache_lookup(self.entries@, k)
    }

    pub fn new() -> (r: StatementCache)
        ensures
            r.wf(),
            r.entries@.len() == 0,
            forall|k: Seq<char>| r.spec_lookup(k) is None,
    {
        StatementCache { entries: Vec::new() }
    }

    /// Index of the entry holding `sql`, if one is present.
    fn find_index(&self, sql: &String) -> (r: Option<usize>)
        ensures
            match r {
                Some(i) => i < self.entries@.len() && self.entries@[i as int].0@ == sql@
                    && self.spec_lookup(sql@) == Some(self.entries@[i as int].1),
                None => self.spec_lookup(sql@) is None,
            },
    {
        let ghost s = self.entries@;
        let mut i: usize = 0;
        while i < self.entries.len()
            invariant
                0 <= i <= s.len(),
                self.entries@ == s,
                forall|j: int| 0 <= j < i ==> s[j].0@ != sql@,
            decreases s.len() - i,
        {
            if self.entries[i].0 == *sql {
                proof {
                    lemma_cache_prefix_skip(s, sql@, i as int);
                }
                return Some(i);
            }
            i = i + 1;
        }
        proof {
            lemma_cache_none(s, sql@);
        }
        None
    }

    pub fn lookup(&self, sql: &String) -> (r: Option<u64>)
        ensures
            r == self.spec_lookup(sql@),
    {
        match self.find_index(sql) {
            Some(i) => Some(self.entries[i].1),
            None => None,
        }
    }

    /// Bind `sql` to `handle`: overwrite the entry holding that text, or
    /// append a new one.
    pub fn insert(&mut self, sql: String, handle: u64)
        requires
            old(self).wf(),
        ensures
            final(self).wf(),
            final(self).spec_lookup(sql@) == Some(handle),
            forall|k: Seq<char>|
                k != sql@ ==> final(self).spec_lookup(k) == old(self).spec_lookup(k),
    {
        let ghost s = self.entries@;
        match self.find_index(&sql) {
            Some(i) => {
                self.entries.set(i, (sql, handle));
                proof {
                    let e = self.entries@[i as int];
                    lemma_cache_update(s, i as int, e, sql@);
                    assert forall|k: Seq<char>| k != e.0@ implies cache_lookup(
                        self.entries@,
                        k,
                    ) == cache_lookup(s, k) by {
                        lemma_cache_update(s, i as int, e, k);
                    }
                }
            },
            None => {
                self.entries.push((sql, handle));
                proof {
                    let e = self.entries@[self.entries@.len() - 1];
                    assert(self.entries@ =~= s.push(e));
                    assert forall|k: Seq<char>|
                        cache_lookup(self.entries@, k) == (if cache_lookup(s, k) is Some {
                            cache_lookup(s, k)
                        } else if k == e.0@ {
                            Some(e.1)
                        } else {
                            None
                        }) by {
                        lemma_cache_push(s, e, k);
                    }
                    assert forall|a: int, b: int|
                        0 <= a < b < self.entries@.len() implies self.entries@[a].0@
                        != self.entries@[b].0@ by {
                        if b == self.entries@.len() - 1 {
                            lemma_cache_at_index(s, a);
                        }
                    }
                }
            },
        }
    }

    /// Drop every entry: a schema change can invalidate unrelated cached
    /// plans, so nothing survives.
    pub fn clear(&mut self)
        ensures
            final(self).wf(),
            final(self).entries@.len() == 0,
            forall|k: Seq<char>| final(self).spec_lookup(k) is None,
    {
        self.entries.clear();
    }

    pub fn len(&self) -> (r: usize)
        ensures
            r == self.entries@.len(),
    {
        self.entries.len()
    }
}

proof fn lemma_cache_prefix_skip(s: Seq<(String, u64)>, k: Seq<char>, i: int)
    requires
        0 <= i < s.len(),
        s[i].0@ == k,
        forall|j: int| 0 <= j < i ==> s[j].0@ != k,
    ensures
        cache_lookup(s, k) == Some(s[i].1),
    decreases i,
{
    if i > 0 {
        assert(forall|j: int| 0 <= j < i - 1 ==> s.drop_first()[j] == s[j + 1]);
        lemma_cache_prefix_skip(s.drop_first(), k, i - 1);
    }
}

proof fn lemma_cache_none(s: Seq<(String, u64)>, k: Seq<char>)
    requires
        forall|i: int| 0 <= i < s.len() ==> s[i].0@ != k,
    ensures
        cache_lookup(s, k) is None,
    decreases s.len(),
{
    if s.len() > 0 {
        assert(forall|i: int| 0 <= i < s.drop_first().len() ==> s.drop_first()[i] == s[i + 1]);
        lemma_cache_none(s.drop_first(), k);
    }
}

proof fn lemma_cache_at_index(s: Seq<(String, u64)>, i: int)
    requires
        cache_wf(s),
        0 <= i < s.len(),
    ensures
        cache_lookup(s, s[i].0@) == Some(s[i].1),
    decreases s.len(),
{
    if i > 0 {
        assert(s[0].0@ != s[i].0@);
        lemma_cache_at_index(s.drop_first(), i - 1);
        assert(s.drop_first()[i - 1] == s[i]);
    }
}

proof fn lemma_cache_push(s: Seq<(String, u64)>, e: (String, u64), k: Seq<char>)
    ensures
        cache_lookup(s.push(e), k) == (if cache_lookup(s, k) is Some {
            cache_lookup(s, k)
        } else if k == e.0@ {
            Some(e.1)
        } else {
            None::<u64>
        }),
    decreases s.len(),
{
    let sp = s.push(e);
    if s.len() == 0 {
        assert(sp[0] == e);
        assert(sp.drop_first() =~= Seq::<(String, u64)>::empty());
        assert(cache_lookup(sp.drop_first(), k) is None);
        if e.0@ == k {
            assert(cache_lookup(sp, k) == Some(e.1));
        } else {
            assert(cache_lookup(sp, k) is None);
        }
        assert(cache_lookup(s, k) is None);
    } else {
        assert(sp[0] == s[0]);
        lemma_cache_push(s.drop_first(), e, k);
        assert(sp.drop_first() =~= s.drop_first().push(e));
        if s[0].0@ == k {
            assert(cache_lookup(sp, k) == Some(s[0].1));
            assert(cache_lookup(s, k) == Some(s[0].1));
        } else {
            assert(cache_lookup(sp, k) == cache_lookup(s.drop_first().push(e), k));
            assert(cache_lookup(s, k) == cache_lookup(s.drop_first(), k));
        }
    }
}

proof fn lemma_cache_update(s: Seq<(String, u64)>, i: int, e: (String, u64), k: Seq<char>)
    requires
        cache_wf(s),
        0 <= i < s.len(),
        e.0@ == s[i].0@,
    ensures
        cache_wf(s.update(i, e)),
        cache_lookup(s.update(i, e), e.0@) == Some(e.1),
        k != e.0@ ==> cache_lookup(s.update(i, e), k) == cache_lookup(s, k),
    decreases s.len(),
{
    let s2 = s.update(i, e);
    if i == 0 {
        assert(s2.drop_first() =~= s.drop_first());
    } else {
        assert(s2[0] == s[0]);
        assert(s2.drop_first() =~= s.drop_first().update(i - 1, e));
        lemma_cache_update(s.drop_first(), i - 1, e, k);
    }
}

// ------------------------------------------------------------------
// Schema-mismatch detection over the server's error text.
// ------------------------------------------------------------------

/// `needle` occurs contiguously inside `hay`.
pub open spec fn seq_contains_sub(hay: Seq<char>, needle: Seq<char>) -> bool {
    exists|i: int|
        0 <= i && i + needle.len() <= hay.len() && #[trigger] hay.subrange(i, i + needle.len())
            == needle
}

/// The error-text signatures that indicate the cached statements no longer
/// match the remote schema.
pub open spec fn is_schema_mismatch(reason: Seq<char>) -> bool {
    ||| seq_contains_sub(reason, "cache lookup failed for type"@)
    ||| seq_contains_sub(reason, "cached plan must not change result type"@)
    ||| seq_contains_sub(reason, "prepared statement"@)
}

/// Whether `needle` occurs inside `hay`, by direct scan.
pub fn contains_substr(hay: &str, needle: &str) -> (r: bool)
    ensures
        r == seq_contains_sub(hay@, needle@),
{
    let hlen = hay.unicode_len();
    let nlen = needle.unicode_len();
    if nlen > hlen {
        return false;
    }
    let mut i: usize = 0;
    while i <= hlen - nlen
        invariant
            hlen == hay@.len(),
            nlen == needle@.len(),
            nlen <= hlen,
            0 <= i <= hlen - nlen + 1,
            forall|m: int| 0 <= m < i ==> #[trigger] hay@.subrange(m, m + needle@.len()) != needle@,
        decreases hlen - nlen - i + 1,
    {
        let mut j: usize = 0;
        let mut matched = true;
        while j < nlen
            invariant
                hlen == hay@.len(),
                nlen == needle@.len(),
                i + nlen <= hlen,
                0 <= j <= nlen,
                matched ==> forall|m2: int| 0 <= m2 < j ==> hay@[i + m2] == needle@[m2],
                !matched ==> exists|m2: int|
                    0 <= m2 < needle@.len() && hay@[i + m2] != needle@[m2],
            decreases nlen - j,
        {
            if hay.get_char(i + j) != needle.get_char(j) {
                matched = false;
                j = nlen;
            } else {
                j = j + 1;
            }
        }
        if matched {
            proof {
                assert(hay@.subrange(i as int, i + needle@.len()) =~= needle@);
            }
            return true;
        }
        i = i + 1;
    }
    proof {
        assert forall|m: int|
            0 <= m && m + needle@.len() <= hay@.len() implies #[trigger] hay@.subrange(
            m,
            m + needle@.len(),
        ) != needle@ by {
            assert(m < i);
        }
    }
    false
}

/// Whether the server's error text carries one of the schema-mismatch
/// signatures that warrant clearing the statement cache and retrying.
pub fn detect_schema_mismatch(reason: &str) -> (r: bool)
    ensures
        r == is_schema_mismatch(reason@),
{
    contains_substr(reason, "cache lookup failed for type") || contains_substr(
        reason,
        "cached plan must not change result type",
    ) || contains_substr(reason, "prepared statement")
}

// ------------------------------------------------------------------
// Connection identity hash over host, port and database name.
// ------------------------------------------------------------------

/// One step of the 64-bit FNV-1a mix.
pub open spec fn mix64(h: u64, v: u64) -> u64 {
    vstd::wrapping::u64_specs::wrapping_mul(h ^ v, 0x100000001b3)
}

/// The mix folded over a sequence of characters.
pub open spec fn mix_chars(h: u64, s: Seq<char>) -> u64
    decreases s.len(),
{
    if s.len() == 0 {
        h
    } else {
        mix_chars(mix64(h, s[0] as u64), s.drop_first())
    }
}

/// The identity hash of a connection target: host, port and database name
/// folded into one value, used only to tell pools apart.
pub open spec fn spec_conn_hash(host: Option<String>, port: Option<u16>, dbname: Option<String>) -> u64 {
    let h0 = 0xcbf29ce484222325u64;
    let h1 = match host {
        Some(s) => mix_chars(mix64(h0, 1), s@),
        None => mix64(h0, 0),
    };
    let h2 = match port {
        Some(p) => mix64(mix64(h1, 1), p as u64),
        None => mix64(h1, 0),
    };
    match dbname {
        Some(s) => mix_chars(mix64(h2, 1), s@),
        None => mix64(h2, 0),
    }
}

fn mix_str(h0: u64, s: &str) -> (r: u64)
    ensures
        r == mix_chars(h0, s@),
{
    let n = s.unicode_len();
    let mut h = h0;
    let mut i: usize = 0;
    proof {
        assert(s@.subrange(0, n as int) =~= s@);
    }
    while i < n
        invariant
            n == s@.len(),
            0 <= i <= n,
            mix_chars(h, s@.subrange(i as int, n as int)) == mix_chars(h0, s@),
        decreases n - i,
    {
        let c = s.get_char(i);
        let ghost pre = s@.subrange(i as int, n as int);
        h = (h ^ (c as u64)).wrapping_mul(0x100000001b3);
        proof {
            assert(pre[0] == s@[i as int]);
            assert(pre.drop_first() =~= s@.subrange(i as int + 1, n as int));
        }
        i = i + 1;
    }
    proof {
        assert(s@.subrange(n as int, n as int) =~= Seq::<char>::empty());
    }
    h
}

fn mix_opt_str(h: u64, s: &Option<String>) -> (r: u64)
    ensures
        r == match s {
            Some(t) => mix_chars(mix64(h, 1), t@),
            None => mix64(h, 0),
        },
{
    match s {
        Some(t) => {
            let h1 = (h ^ 1).wrapping_mul(0x100000001b3);
            mix_str(h1, t.as_str())
        },
        None => (h ^ 0).wrapping_mul(0x100000001b3),
    }
}

/// The pool-identity hash over the configuration's host, port and database
/// name.
pub fn conn_hash_of(config: &DatabaseConfig) -> (r: u64)
    ensures
        r == spec_conn_hash(config.host, config.port, config.dbname),
{
    let h1 = mix_opt_str(0xcbf29ce484222325, &config.host);
    let h2 = match &config.port {
        Some(p) => {
            let hp = (h1 ^ 1).wrapping_mul(0x100000001b3);
            (hp ^ (*p as u64)).wrapping_mul(0x100000001b3)
        },
        None => (h1 ^ 0).wrapping_mul(0x100000001b3),
    };
    mix_opt_str(h2, &config.dbname)
}

// ------------------------------------------------------------------
// The pooled client and the decision logic of one execute call.
// ------------------------------------------------------------------

/// The pooled executor's verified state: its statement cache and the
/// identity hash of the pool it fronts.
pub struct PooledDbClient {
    pub cache: StatementCache,
    pub conn_hash: u64,
}

/// What the prepare phase of an attempt should do for a given statement.
#[derive(Clone, Copy, PartialEq, Eq, Structural, Debug)]
pub enum PrepareAction {
    /// The statement is cached under this handle; no round trip is needed.
    UseCached(u64),
    /// The statement must be prepared against the server.
    NeedsPrepare,
}

pub open spec fn prepare_plan_spec(cache: StatementCache, sql: Seq<char>) -> PrepareAction {
    match cache.spec_lookup(sql) {
        Some(h) => PrepareAction::UseCached(h),
        None => PrepareAction::NeedsPrepare,
    }
}

/// How one attempt of an execute call ended, as reported by the
/// asynchronous driver.
pub enum AttemptOutcome<R> {
    /// The pool could not hand out a connection; carries the pool's error
    /// text.
    ConnectFailed(String),
    /// Statement preparation exceeded its timeout.
    PrepareTimedOut,
    /// Query execution exceeded its timeout.
    ExecuteTimedOut,
    /// The server rejected the query; carries the server's error text.
    QueryFailed(String),
    /// A returned row could not be converted to the response shape.
    RowDecodeFailed(String),
    /// The query succeeded and every row was materialized, in row order.
    Rows(Vec<R>),
}

/// What the caller should do after an attempt.
pub enum StepResult<R> {
    /// The call is complete with these rows.
    Done(Vec<R>),
    /// The cache was invalidated; run one more attempt.
    Retry,
    /// The call failed with this error.
    Fail(DbError),
}

/// The full decision relation of `apply_outcome`: what result each outcome
/// yields on each attempt, and what happens to the cache.
pub open spec fn attempt_post<R>(
    attempt: u32,
    outcome: AttemptOutcome<R>,
    statement: Seq<char>,
    params: Vec<ParamValue>,
    pre: StatementCache,
    post: StatementCache,
    r: StepResult<R>,
) -> bool {
    match outcome {
        AttemptOutcome::Rows(rows) => r == StepResult::Done(rows) && post == pre,
        AttemptOutcome::ConnectFailed(e) => r == StepResult::<R>::Fail(DbError::Connectivity(e))
            && post == pre,
        AttemptOutcome::PrepareTimedOut => r == StepResult::<R>::Fail(DbError::TimedOutPreparing)
            && post == pre,
        AttemptOutcome::ExecuteTimedOut => (r matches StepResult::Fail(
            DbError::TimedOutExecuting(stmt, p),
        ) && stmt@ == statement && p == params) && post == pre,
        AttemptOutcome::QueryFailed(e) => if is_schema_mismatch(e@) {
            &&& post.entries@.len() == 0
            &&& forall|k: Seq<char>| post.spec_lookup(k) is None
            &&& if attempt == 0 {
                r == StepResult::<R>::Retry
            } else {
                r == StepResult::<R>::Fail(DbError::Query(e))
            }
        } else {
            r == StepResult::<R>::Fail(DbError::Query(e)) && post == pre
        },
        AttemptOutcome::RowDecodeFailed(e) => r == StepResult::<R>::Fail(DbError::RowDecode(e))
            && post == pre,
    }
}

impl PooledDbClient {
    pub open spec fn wf(self) -> bool {
        self.cache.wf()
    }

    /// A fresh client for the pool identified by `config`: an empty
    /// statement cache and the configuration's identity hash.
    pub fn new(config: &DatabaseConfig) -> (r: PooledDbClient)
        ensures
            r.wf(),
            r.cache.entries@.len() == 0,
            forall|k: Seq<char>| r.cache.spec_lookup(k) is None,
            r.conn_hash == spec_conn_hash(config.host, config.port, config.dbname),
    {
        PooledDbClient { cache: StatementCache::new(), conn_hash: conn_hash_of(config) }
    }

    pub fn conn_hash(&self) -> (r: u64)
        ensures
            r == self.conn_hash,
    {
        self.conn_hash
    }

    /// Whether the statement is already prepared: the cached handle is
    /// reused, and only an uncached statement costs a preparation round
    /// trip.
    pub fn plan_prepare(&self, sql: &String) -> (r: PrepareAction)
        ensures
            r == prepare_plan_spec(self.cache, sql@),
    {
        match self.cache.lookup(sql) {
            Some(h) => PrepareAction::UseCached(h),
            None => PrepareAction::NeedsPrepare,
        }
    }

    /// Record the handle the server assigned when `sql` was prepared.
    pub fn register_statement(&mut self, sql: String, handle: u64)
        requires
            old(self).wf(),
        ensures
            final(self).wf(),
            final(self).conn_hash == old(self).conn_hash,
            final(self).cache.spec_lookup(sql@) == Some(handle),
            forall|k: Seq<char>|
                k != sql@ ==> final(self).cache.spec_lookup(k) == old(self).cache.spec_lookup(k),
    {
        self.cache.insert(sql, handle);
    }

    /// Drop every cached statement.
    pub fn clear_cache(&mut self)
        ensures
            final(self).wf(),
            final(self).conn_hash == old(self).conn_hash,
            final(self).cache.entries@.len() == 0,
            forall|k: Seq<char>| final(self).cache.spec_lookup(k) is None,
    {
        self.cache.clear();
    }

    /// Decide what one attempt's outcome means: rows complete the call;
    /// connectivity, timeout and row-shape errors surface immediately,
    /// the execute timeout tagged with the statement text and its
    /// parameters; a schema-mismatch error clears the whole cache and
    /// asks for one retry on the first attempt, and surfaces the error
    /// verbatim on the second.
    pub fn apply_outcome<R>(
        &mut self,
        attempt: u32,
        outcome: AttemptOutcome<R>,
        statement: &String,
        params: Vec<ParamValue>,
    ) -> (r: StepResult<R>)
        requires
            old(self).wf(),
        ensures
            final(self).wf(),
            final(self).conn_hash == old(self).conn_hash,
            attempt_post(
                attempt,
                outcome,
                statement@,
                params,
                old(self).cache,
                final(self).cache,
                r,
            ),
    {
        match outcome {
            AttemptOutcome::Rows(rows) => StepResult::Done(rows),
            AttemptOutcome::ConnectFailed(e) => StepResult::Fail(DbError::Connectivity(e)),
            AttemptOutcome::PrepareTimedOut => StepResult::Fail(DbError::TimedOutPreparing),
            AttemptOutcome::ExecuteTimedOut => StepResult::Fail(
                DbError::TimedOutExecuting(statement.clone(), params),
            ),
            AttemptOutcome::RowDecodeFailed(e) => StepResult::Fail(DbError::RowDecode(e)),
            AttemptOutcome::QueryFailed(e) => {
                if detect_schema_mismatch(e.as_str()) {
                    self.cache.clear();
                    if attempt == 0 {
                        StepResult::Retry
                    } else {
                        StepResult::Fail(DbError::Query(e))
                    }
                } else {
                    StepResult::Fail(DbError::Query(e))
                }
            },
        }
    }
}

// ------------------------------------------------------------------
// Laws of the cache and of the retry logic.
// ------------------------------------------------------------------

/// Law: a repeated request against an unchanged schema reuses the cached
/// prepared statement — once a statement's handle is registered, the
/// prepare plan for the same text is `UseCached`, costing no preparation
/// round trip.
pub proof fn lemma_repeated_request_reuses_cache(c: StatementCache, sql: Seq<char>, handle: u64)
    requires
        c.spec_lookup(sql) == Some(handle),
    ensures
        prepare_plan_spec(c, sql) == PrepareAction::UseCached(handle),
{
}

/// Law: after the statement cache is cleared, the next call prepares anew
/// and repopulates the cache — the cleared cache plans a preparation, and
/// once the fresh handle is registered the same text is cached again.
pub proof fn lemma_cleared_cache_repopulates(
    cleared: StatementCache,
    repopulated: StatementCache,
    sql: Seq<char>,
    handle: u64,
)
    requires
        forall|k: Seq<char>| cleared.spec_lookup(k) is None,
        repopulated.spec_lookup(sql) == Some(handle),
    ensures
        prepare_plan_spec(cleared, sql) == PrepareAction::NeedsPrepare,
        prepare_plan_spec(repopulated, sql) == PrepareAction::UseCached(handle),
{
}

/// Law: a call that hits a schema-mismatch error once and then succeeds
/// returns the successful rows; the transient error never surfaces. The
/// first attempt's outcome asks for a retry (clearing the cache), and the
/// second attempt's rows complete the call.
pub proof fn lemma_mismatch_then_success_returns_rows<R>(
    e: String,
    rows: Vec<R>,
    c0: StatementCache,
    c1: StatementCache,
    c2: StatementCache,
    r1: StepResult<R>,
    r2: StepResult<R>,
    statement: Seq<char>,
    params: Vec<ParamValue>,
)
    requires
        is_schema_mismatch(e@),
        attempt_post(0, AttemptOutcome::QueryFailed(e), statement, params, c0, c1, r1),
        attempt_post(1, AttemptOutcome::<R>::Rows(rows), statement, params, c1, c2, r2),
    ensures
        r1 == StepResult::<R>::Retry,
        r2 == StepResult::Done(rows),
{
}

/// Law: a call that hits a schema-mismatch error on both attempts surfaces
/// the second error verbatim instead of retrying a third time — the second
/// attempt's decision is `Fail`, never `Retry`.
pub proof fn lemma_mismatch_twice_surfaces_error<R>(
    e1: String,
    e2: String,
    c0: StatementCache,
    c1: StatementCache,
    c2: StatementCache,
    r1: StepResult<R>,
    r2: StepResult<R>,
    statement: Seq<char>,
    params: Vec<ParamValue>,
)
    requires
        is_schema_mismatch(e1@),
        is_schema_mismatch(e2@),
        attempt_post(0, AttemptOutcome::<R>::QueryFailed(e1), statement, params, c0, c1, r1),
        attempt_post(1, AttemptOutcome::<R>::QueryFailed(e2), statement, params, c1, c2, r2),
    ensures
        r1 == StepResult::<R>::Retry,
        r2 == StepResult::<R>::Fail(DbError::Query(e2)),
{
}

} // verus!
