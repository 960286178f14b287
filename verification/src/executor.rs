//! The query executor: the ordered decision core of one statement execution.
//!
//! One request runs as a strict sequence: borrow a connection, switch the
//! active schema if asked, disable referential-integrity enforcement if
//! asked, open a transaction if asked, run the caller's SQL verbatim, read
//! its metadata, materialize every row of the first result set, roll the
//! transaction back, re-enable enforcement, and return one response.  The
//! network round-trips themselves are the embedding application's; this
//! module decides, for every phase and every driver outcome, what happens
//! next, and builds the response.

use crate::render::{spec_body_html, spec_head_html, render_table_html};
use crate::value::{convert, spec_convert, DriverValue, DriverValueModel, StructuredValue,
    StructuredValueModel};
use vstd::prelude::*;
use vstd::string::StringExecFns;

verus! {

/// Per-call options.  Both default to off.
pub struct QueryOptions {
    /// Wrap the statement in a transaction that is rolled back afterwards.
    pub rollback: bool,
    /// Disable referential-integrity enforcement for the session around the
    /// statement.
    pub disable_fk_checks: bool,
}

impl Default for QueryOptions {
    /// Both flags off.
    fn default() -> (r: Self)
        ensures
            !r.rollback,
            !r.disable_fk_checks,
    {
        QueryOptions { rollback: false, disable_fk_checks: false }
    }
}

impl QueryOptions {
    /// Resolves the wire form of the options — each flag optional, an
    /// absent flag meaning off — to their effective values.
    pub fn resolve(rollback: Option<bool>, disable_fk_checks: Option<bool>) -> (r: Self)
        ensures
            r.rollback == (rollback == Some(true)),
            r.disable_fk_checks == (disable_fk_checks == Some(true)),
    {
        QueryOptions {
            rollback: match rollback {
                Some(b) => b,
                None => false,
            },
            disable_fk_checks: match disable_fk_checks {
                Some(b) => b,
                None => false,
            },
        }
    }
}

/// One execution request: the statement text, an optional schema to switch
/// to first, and the per-call options.
pub struct ExecRequest {
    /// The caller's SQL text, run verbatim as a single statement.
    pub sql: String,
    /// The schema to make current before the statement, when present and
    /// nonempty.
    pub db: Option<String>,
    /// The per-call options.
    pub options: QueryOptions,
}

/// One materialized result: the single response of one executed statement.
pub struct QueryResponse {
    /// Column names in the order the statement returned them.
    pub columns: Vec<String>,
    /// One converted value per column position, for every row of the first
    /// result set.
    pub rows: Vec<Vec<StructuredValue>>,
    /// The affected-row count the driver reported.
    pub affected_rows: u64,
    /// The last insert id the driver reported, zero when absent.
    pub last_insert_id: u64,
    /// Elapsed whole milliseconds from statement dispatch to the end of row
    /// materialization.
    pub duration_ms: u64,
}

/// Whether the request asks for a schema switch: a database name that is
/// present and nonempty.
pub open spec fn wants_db_switch(req: ExecRequest) -> bool {
    req.db is Some && req.db->0@.len() > 0
}

/// The schema-switch statement: the database name between backquotes.
pub open spec fn use_stmt_text(db: Seq<char>) -> Seq<char> {
    "USE `"@ + db + "`"@
}

/// The statement that disables referential-integrity enforcement.
pub open spec fn fk_off_text() -> Seq<char> {
    "SET FOREIGN_KEY_CHECKS = 0"@
}

/// The statement that re-enables referential-integrity enforcement.
pub open spec fn fk_on_text() -> Seq<char> {
    "SET FOREIGN_KEY_CHECKS = 1"@
}

/// The statement that opens the sandbox transaction.
pub open spec fn begin_tx_text() -> Seq<char> {
    "START TRANSACTION"@
}

/// The statement that rolls the sandbox transaction back.
pub open spec fn rollback_text() -> Seq<char> {
    "ROLLBACK"@
}

/// The session statements issued before the caller's SQL, in order: the
/// schema switch, then the enforcement toggle, then the transaction open —
/// each only when asked for.
pub open spec fn setup_stmts(req: ExecRequest) -> Seq<Seq<char>> {
    (if wants_db_switch(req) {
        seq![use_stmt_text(req.db->0@)]
    } else {
        Seq::empty()
    }) + (if req.options.disable_fk_checks {
        seq![fk_off_text()]
    } else {
        Seq::empty()
    }) + (if req.options.rollback {
        seq![begin_tx_text()]
    } else {
        Seq::empty()
    })
}

/// The session statements issued after materialization, in order: the
/// rollback, then the enforcement restore — each only when asked for.
pub open spec fn cleanup_stmts(req: ExecRequest) -> Seq<Seq<char>> {
    (if req.options.rollback {
        seq![rollback_text()]
    } else {
        Seq::empty()
    }) + (if req.options.disable_fk_checks {
        seq![fk_on_text()]
    } else {
        Seq::empty()
    })
}

/// Law: with the rollback option set, the transaction is opened by the last
/// setup statement — immediately before the caller's SQL — and the first
/// statement after materialization rolls it back, so a data-mutating
/// statement leaves no persisted change behind.
pub proof fn lemma_rollback_brackets_statement(req: ExecRequest)
    requires
        req.options.rollback,
    ensures
        setup_stmts(req).len() > 0,
        setup_stmts(req).last() == begin_tx_text(),
        cleanup_stmts(req).len() > 0,
        cleanup_stmts(req).first() == rollback_text(),
{
}

/// Law: enforcement is restored on the failure paths too.  A statement
/// that fails after the transaction opened is followed by the full cleanup
/// sequence, whose first statement rolls back and whose last re-enables
/// enforcement; and a setup failure after the disabling statement ran is
/// followed by exactly the re-enabling statement.
pub proof fn lemma_session_restored_on_failure(req: ExecRequest, idx: int)
    requires
        req.options.disable_fk_checks,
    ensures
        cleanup_stmts(req).last() == fk_on_text(),
        idx > db_switch_count(req) ==> setup_unwind_stmts(req, idx) == seq![fk_on_text()],
        idx <= db_switch_count(req) ==> setup_unwind_stmts(req, idx).len() == 0,
{
    lemma_fk_checks_restored(req);
}

/// Law: with the enforcement toggle set, referential-integrity enforcement
/// is disabled by a setup statement before the caller's SQL and the very
/// last statement of the call re-enables it, so the call returns with
/// enforcement back on.
pub proof fn lemma_fk_checks_restored(req: ExecRequest)
    requires
        req.options.disable_fk_checks,
    ensures
        setup_stmts(req).contains(fk_off_text()),
        cleanup_stmts(req).len() > 0,
        cleanup_stmts(req).last() == fk_on_text(),
{
    let ghost s = setup_stmts(req);
    assert(s[s.len() - (if req.options.rollback { 2int } else { 1int })] == fk_off_text());
}

/// The cell at position `j` of a row: the driver value there, or NULL where
/// the row does not cover the position.
pub open spec fn spec_cell(row: Seq<DriverValueModel>, j: int) -> StructuredValueModel {
    if 0 <= j < row.len() {
        spec_convert(row[j])
    } else {
        spec_convert(DriverValueModel::Null)
    }
}

/// One materialized row against a column set of `ncols` positions: the
/// row's cells converted in order, padded or truncated to exactly `ncols`
/// values.
pub open spec fn spec_row(ncols: nat, row: Seq<DriverValueModel>) -> Seq<StructuredValueModel> {
    Seq::new(ncols, |j: int| spec_cell(row, j))
}

/// The materialized form of the raw rows against a column set of `ncols`
/// positions: every row converted cell by cell and padded or truncated to
/// exactly `ncols` values.
pub open spec fn spec_materialize(ncols: nat, raw: Seq<Seq<DriverValueModel>>) -> Seq<
    Seq<StructuredValueModel>,
> {
    raw.map_values(|row: Seq<DriverValueModel>| spec_row(ncols, row))
}

/// Materializes the raw rows: for each row and each of the `ncols` column
/// positions the cell is fetched and converted, and a position the row does
/// not cover yields NULL rather than failing the query.  Every returned row
/// has exactly `ncols` values.
pub fn materialize_rows(ncols: usize, raw: &Vec<Vec<DriverValue>>) -> (r: Vec<Vec<StructuredValue>>)
    ensures
        r.deep_view() == spec_materialize(ncols as nat, raw.deep_view()),
        r@.len() == raw@.len(),
        forall|i: int| 0 <= i < r@.len() ==> #[trigger] r@[i]@.len() == ncols,
{
    let mut out: Vec<Vec<StructuredValue>> = Vec::new();
    let mut i: usize = 0;
    while i < raw.len()
        invariant
            i <= raw@.len(),
            out@.len() == i,
            forall|k: int| 0 <= k < i ==> #[trigger] out@[k].deep_view() == spec_row(
                ncols as nat,
                raw.deep_view()[k],
            ),
            forall|k: int| 0 <= k < out@.len() ==> #[trigger] out@[k]@.len() == ncols,
        decreases raw@.len() - i,
    {
        let row = &raw[i];
        let mut out_row: Vec<StructuredValue> = Vec::new();
        let mut j: usize = 0;
        while j < ncols
            invariant
                j <= ncols,
                out_row@.len() == j,
                forall|k: int| 0 <= k < j ==> #[trigger] out_row@[k]@ == spec_cell(
                    row.deep_view(),
                    k,
                ),
            decreases ncols - j,
        {
            let ghost prev = out_row@;
            if j < row.len() {
                let cell = convert(&row[j]);
                proof {
                    assert(row.deep_view()[j as int] == row@[j as int]@);
                    assert(cell@ == spec_cell(row.deep_view(), j as int));
                }
                out_row.push(cell);
            } else {
                let cell = convert(&DriverValue::Null);
                proof {
                    assert(cell@ == spec_cell(row.deep_view(), j as int));
                }
                out_row.push(cell);
            }
            proof {
                assert(forall|k: int| 0 <= k < j ==> #[trigger] out_row@[k]@ == prev[k]@);
            }
            j = j + 1;
        }
        proof {
            assert(out_row.deep_view() =~~= spec_row(ncols as nat, row.deep_view()));
            assert(raw.deep_view()[i as int] == row.deep_view());
        }
        let ghost out_prev = out@;
        out.push(out_row);
        i = i + 1;
        proof {
            assert(forall|k: int| 0 <= k < out_prev.len() ==> #[trigger] out@[k] == out_prev[k]);
        }
    }
    proof {
        assert forall|k: int| 0 <= k < raw@.len() implies out.deep_view()[k] == spec_materialize(
            ncols as nat,
            raw.deep_view(),
        )[k] by {
            assert(out.deep_view()[k] == out@[k].deep_view());
            assert(spec_materialize(ncols as nat, raw.deep_view())[k] == spec_row(
                ncols as nat,
                raw.deep_view()[k],
            ));
        }
        assert(out.deep_view() =~= spec_materialize(ncols as nat, raw.deep_view()));
    }
    out
}

/// Whether every row of the response is exactly as long as its column set.
pub open spec fn response_wf(resp: QueryResponse) -> bool {
    forall|i: int| 0 <= i < resp.rows@.len() ==> #[trigger] resp.rows@[i]@.len()
        == resp.columns@.len()
}

/// Law: a response whose rows came out of materialization matches its
/// column set row for row — each row carries one value per column.
pub proof fn lemma_materialized_rows_match_columns(resp: QueryResponse, raw: Seq<Seq<DriverValueModel>>)
    requires
        resp.rows.deep_view() == spec_materialize(resp.columns@.len(), raw),
    ensures
        response_wf(resp),
{
    assert forall|i: int| 0 <= i < resp.rows@.len() implies #[trigger] resp.rows@[i]@.len()
        == resp.columns@.len() by {
        assert(resp.rows.deep_view().len() == resp.rows@.len());
        assert(spec_materialize(resp.columns@.len(), raw).len() == raw.len());
        assert(resp.rows.deep_view()[i] == spec_materialize(resp.columns@.len(), raw)[i]);
        assert(spec_materialize(resp.columns@.len(), raw)[i].len() == resp.columns@.len());
        assert(resp.rows@[i]@.len() == resp.rows.deep_view()[i].len());
    }
}


/// One driver round-trip the embedding application must perform next.
pub enum DriverCall {
    /// Borrow one connection from the pool manager.
    Borrow,
    /// Run a session statement for its side effect alone: a schema switch,
    /// an enforcement toggle, or transaction control.
    Run(String),
    /// Dispatch the caller's statement and read its metadata: the column
    /// names in returned order, the affected-row count, the last insert id.
    Statement(String),
    /// Materialize every row of the dispatched statement's first result
    /// set, measuring the elapsed time from dispatch to the end of
    /// materialization.
    Fetch,
}

/// What one driver round-trip came back with.
pub enum DriverReply {
    /// The borrow succeeded.
    Borrowed,
    /// A session statement succeeded.
    Ran,
    /// The caller's statement was dispatched: its column names in returned
    /// order, its affected-row count, and its last insert id (zero when the
    /// driver reported none).
    Dispatched { columns: Vec<String>, affected_rows: u64, last_insert_id: u64 },
    /// Every row of the first result set, with the elapsed whole
    /// milliseconds measured from dispatch to the end of materialization.
    Rows { raw: Vec<Vec<DriverValue>>, elapsed_ms: u64 },
    /// The round-trip failed; the driver's message.
    Failed(String),
}

/// Where one request stands.
pub enum ExecPhase {
    /// Waiting for the connection borrow.
    Borrowing,
    /// Setup statement `idx` is on the wire.
    Setup { idx: usize },
    /// The caller's statement is on the wire.
    Running,
    /// Row materialization is outstanding; the statement's metadata is
    /// held.
    Fetching { columns: Vec<String>, affected_rows: u64, last_insert_id: u64 },
    /// Cleanup statement `idx` is on the wire; the finished response is
    /// held.
    Cleanup { idx: usize, response: QueryResponse },
    /// A round-trip failed after session state was touched; the session
    /// statements still owed are issued before the request ends with the
    /// held error.
    FailingCleanup { pending: Vec<String>, error: String },
    /// The request ended with a response.
    Done { response: QueryResponse },
    /// The request ended with an error message.
    Failed { error: String },
}

/// The decision core of one request: the request itself and where it
/// stands.  The embedding application performs each returned
/// [`DriverCall`] and hands the outcome back through [`Executor::step`].
pub struct Executor {
    /// The request being executed.
    pub request: ExecRequest,
    /// Where the request stands.
    pub phase: ExecPhase,
}

/// The executor's internal consistency: statement indices stay within
/// their sequences, and every held response matches its column set row for
/// row.
pub open spec fn machine_wf(m: Executor) -> bool {
    match m.phase {
        ExecPhase::Setup { idx } => idx < setup_stmts(m.request).len(),
        ExecPhase::Cleanup { idx, response } => idx < cleanup_stmts(m.request).len()
            && response_wf(response),
        ExecPhase::Done { response } => response_wf(response),
        _ => true,
    }
}

/// The reply kinds a phase can be answered with: the matching success kind
/// or a failure.  A finished request takes no further reply.
pub open spec fn phase_expects(phase: ExecPhase, reply: DriverReply) -> bool {
    match phase {
        ExecPhase::Borrowing => reply is Borrowed || reply is Failed,
        ExecPhase::Setup { .. } => reply is Ran || reply is Failed,
        ExecPhase::Running => reply is Dispatched || reply is Failed,
        ExecPhase::Fetching { .. } => reply is Rows || reply is Failed,
        ExecPhase::Cleanup { .. } => reply is Ran || reply is Failed,
        ExecPhase::FailingCleanup { .. } => reply is Ran || reply is Failed,
        ExecPhase::Done { .. } => false,
        ExecPhase::Failed { .. } => false,
    }
}

/// After setup position `next`, the executor issues setup statement `next`
/// when one remains, and dispatches the caller's SQL otherwise.
pub open spec fn issues_from(req: ExecRequest, next: int, r: (Executor, Option<DriverCall>)) -> bool {
    if next < setup_stmts(req).len() {
        &&& (r.0.phase matches ExecPhase::Setup { idx } && idx == next)
        &&& (r.1 matches Some(DriverCall::Run(s)) && s@ == setup_stmts(req)[next])
    } else {
        &&& r.0.phase is Running
        &&& (r.1 matches Some(DriverCall::Statement(s)) && s@ == req.sql@)
    }
}

/// The response built from a dispatched statement's metadata and rows.
pub open spec fn response_built(
    resp: QueryResponse,
    columns: Vec<String>,
    affected_rows: u64,
    last_insert_id: u64,
    raw: Vec<Vec<DriverValue>>,
    elapsed_ms: u64,
) -> bool {
    &&& resp.columns == columns
    &&& resp.rows.deep_view() == spec_materialize(columns@.len(), raw.deep_view())
    &&& resp.affected_rows == affected_rows
    &&& resp.last_insert_id == last_insert_id
    &&& resp.duration_ms == elapsed_ms
}

/// After materialization or after cleanup position `next - 1`, the
/// executor issues cleanup statement `next` when one remains, and is done
/// with its response otherwise.
pub open spec fn cleanup_continues(
    req: ExecRequest,
    next: int,
    response: QueryResponse,
    r: (Executor, Option<DriverCall>),
) -> bool {
    if next < cleanup_stmts(req).len() {
        &&& (r.0.phase matches ExecPhase::Cleanup { idx, response: held } && idx == next && held
            == response)
        &&& (r.1 matches Some(DriverCall::Run(s)) && s@ == cleanup_stmts(req)[next])
    } else {
        &&& (r.0.phase matches ExecPhase::Done { response: held } && held == response)
        &&& r.1 is None
    }
}

/// How many setup positions the schema switch takes.
pub open spec fn db_switch_count(req: ExecRequest) -> int {
    if wants_db_switch(req) {
        1int
    } else {
        0int
    }
}

/// The session statements still owed when setup statement `idx` fails:
/// the enforcement restore, exactly when the disabling statement had
/// already run.  No transaction can be open here — opening it is the last
/// setup statement — so nothing else is owed.
pub open spec fn setup_unwind_stmts(req: ExecRequest, idx: int) -> Seq<Seq<char>> {
    if req.options.disable_fk_checks && idx > db_switch_count(req) {
        seq![fk_on_text()]
    } else {
        Seq::empty()
    }
}

/// After a failure that left session state touched, the executor issues
/// the first owed statement — or ends at once with the error when nothing
/// is owed.
pub open spec fn unwind_started(
    stmts: Seq<Seq<char>>,
    error: Seq<char>,
    r: (Executor, Option<DriverCall>),
) -> bool {
    if stmts.len() == 0 {
        &&& (r.0.phase matches ExecPhase::Failed { error: held } && held@ == error)
        &&& r.1 is None
    } else {
        &&& (r.0.phase matches ExecPhase::FailingCleanup { pending, error: held } && held@ == error
            && pending.deep_view() == stmts.skip(1))
        &&& (r.1 matches Some(DriverCall::Run(s)) && s@ == stmts[0])
    }
}

/// Each further unwind reply — success or failure, the held error wins —
/// issues the next owed statement, until the request ends with the held
/// error.
pub open spec fn unwind_continues(
    pending: Vec<String>,
    error: String,
    r: (Executor, Option<DriverCall>),
) -> bool {
    if pending@.len() == 0 {
        &&& (r.0.phase matches ExecPhase::Failed { error: held } && held == error)
        &&& r.1 is None
    } else {
        &&& (r.0.phase matches ExecPhase::FailingCleanup { pending: left, error: held } && held
            == error && left.deep_view() == pending.deep_view().skip(1))
        &&& (r.1 matches Some(DriverCall::Run(s)) && s@ == pending.deep_view()[0])
    }
}

/// Whether the request asks for a schema switch.
fn has_db_switch(req: &ExecRequest) -> (r: bool)
    ensures
        r == wants_db_switch(*req),
{
    match &req.db {
        Some(d) => !d.as_str().is_empty(),
        None => false,
    }
}

/// How many setup statements the request asks for.
fn setup_count(req: &ExecRequest) -> (r: usize)
    ensures
        r == setup_stmts(*req).len(),
{
    let mut n: usize = 0;
    if has_db_switch(req) {
        n = n + 1;
    }
    if req.options.disable_fk_checks {
        n = n + 1;
    }
    if req.options.rollback {
        n = n + 1;
    }
    n
}

/// How many cleanup statements the request asks for.
fn cleanup_count(req: &ExecRequest) -> (r: usize)
    ensures
        r == cleanup_stmts(*req).len(),
{
    let mut n: usize = 0;
    if req.options.rollback {
        n = n + 1;
    }
    if req.options.disable_fk_checks {
        n = n + 1;
    }
    n
}

/// The setup statement at position `idx` of the request's setup sequence.
fn setup_stmt_at(req: &ExecRequest, idx: usize) -> (r: String)
    requires
        idx < setup_stmts(*req).len(),
    ensures
        r@ == setup_stmts(*req)[idx as int],
{
    let has_db = has_db_switch(req);
    let db_n: usize = if has_db {
        1
    } else {
        0
    };
    if has_db && idx == 0 {
        let mut s = String::from_str("USE `");
        match &req.db {
            Some(d) => {
                s.append(d.as_str());
            },
            None => {},
        }
        s.append("`");
        s
    } else if req.options.disable_fk_checks && idx == db_n {
        String::from_str("SET FOREIGN_KEY_CHECKS = 0")
    } else {
        String::from_str("START TRANSACTION")
    }
}

/// The cleanup statement at position `idx` of the request's cleanup
/// sequence.
fn cleanup_stmt_at(req: &ExecRequest, idx: usize) -> (r: String)
    requires
        idx < cleanup_stmts(*req).len(),
    ensures
        r@ == cleanup_stmts(*req)[idx as int],
{
    if req.options.rollback && idx == 0 {
        String::from_str("ROLLBACK")
    } else {
        String::from_str("SET FOREIGN_KEY_CHECKS = 1")
    }
}

/// The error form of a failed statement: the driver's message behind the
/// identifying prefix.
pub fn sql_error_message(driver_msg: &str) -> (r: String)
    ensures
        r@ == "SQL Error: "@ + driver_msg@,
{
    let mut s = String::from_str("SQL Error: ");
    s.append(driver_msg);
    s
}

/// The full cleanup sequence as owned statements.
fn cleanup_plan(req: &ExecRequest) -> (r: Vec<String>)
    ensures
        r.deep_view() == cleanup_stmts(*req),
{
    let n = cleanup_count(req);
    let mut v: Vec<String> = Vec::new();
    let mut i: usize = 0;
    while i < n
        invariant
            i <= n,
            n == cleanup_stmts(*req).len(),
            v@.len() == i,
            forall|k: int| 0 <= k < i ==> #[trigger] v@[k]@ == cleanup_stmts(*req)[k],
        decreases n - i,
    {
        v.push(cleanup_stmt_at(req, i));
        i = i + 1;
    }
    proof {
        assert(v.deep_view() =~= cleanup_stmts(*req));
    }
    v
}

/// The statements owed when setup statement `idx` fails.
fn setup_failure_plan(req: &ExecRequest, idx: usize) -> (r: Vec<String>)
    ensures
        r.deep_view() == setup_unwind_stmts(*req, idx as int),
{
    let db_n: usize = if has_db_switch(req) {
        1
    } else {
        0
    };
    let mut v: Vec<String> = Vec::new();
    if req.options.disable_fk_checks && idx > db_n {
        v.push(String::from_str("SET FOREIGN_KEY_CHECKS = 1"));
    }
    proof {
        assert(v.deep_view() =~= setup_unwind_stmts(*req, idx as int));
    }
    v
}

/// Starts the unwind after a failure: issues the first owed statement, or
/// ends at once with the error when nothing is owed.
fn begin_unwind(request: ExecRequest, stmts: Vec<String>, error: String) -> (r: (
    Executor,
    Option<DriverCall>,
))
    ensures
        r.0.request == request,
        machine_wf(r.0),
        unwind_started(stmts.deep_view(), error@, r),
{
    let ghost all = stmts.deep_view();
    let mut stmts = stmts;
    if stmts.is_empty() {
        (Executor { request, phase: ExecPhase::Failed { error } }, None)
    } else {
        let first = stmts.remove(0);
        proof {
            assert(forall|k: int|
                0 <= k < stmts@.len() ==> #[trigger] stmts.deep_view()[k] == all[k + 1]);
            assert(stmts.deep_view() =~= all.skip(1));
        }
        (
            Executor { request, phase: ExecPhase::FailingCleanup { pending: stmts, error } },
            Some(DriverCall::Run(first)),
        )
    }
}

/// Moves to setup position `next`: issues the statement there, or
/// dispatches the caller's SQL when the setup sequence is exhausted.
fn proceed_setup(request: ExecRequest, next: usize) -> (r: (Executor, Option<DriverCall>))
    requires
        next <= setup_stmts(request).len(),
    ensures
        r.0.request == request,
        machine_wf(r.0),
        issues_from(request, next as int, r),
{
    let n = setup_count(&request);
    if next < n {
        let stmt = setup_stmt_at(&request, next);
        (
            Executor { request, phase: ExecPhase::Setup { idx: next } },
            Some(DriverCall::Run(stmt)),
        )
    } else {
        let sql = request.sql.clone();
        (Executor { request, phase: ExecPhase::Running }, Some(DriverCall::Statement(sql)))
    }
}

/// Moves to cleanup position `next` with the finished response in hand:
/// issues the statement there, or ends the request when the cleanup
/// sequence is exhausted.
fn proceed_cleanup(request: ExecRequest, next: usize, response: QueryResponse) -> (r: (
    Executor,
    Option<DriverCall>,
))
    requires
        next <= cleanup_stmts(request).len(),
        response_wf(response),
    ensures
        r.0.request == request,
        machine_wf(r.0),
        cleanup_continues(request, next as int, response, r),
{
    let n = cleanup_count(&request);
    if next < n {
        let stmt = cleanup_stmt_at(&request, next);
        (
            Executor { request, phase: ExecPhase::Cleanup { idx: next, response } },
            Some(DriverCall::Run(stmt)),
        )
    } else {
        (Executor { request, phase: ExecPhase::Done { response } }, None)
    }
}

impl Executor {
    /// Begins one request.  The first round-trip borrows a connection; the
    /// request fails fast when none can be had.
    pub fn start(request: ExecRequest) -> (r: (Executor, DriverCall))
        ensures
            r.0.request == request,
            r.0.phase is Borrowing,
            machine_wf(r.0),
            r.1 is Borrow,
    {
        (Executor { request, phase: ExecPhase::Borrowing }, DriverCall::Borrow)
    }

    /// Answers the outstanding round-trip and decides what happens next.
    ///
    /// Successes walk the strict sequence: setup statements, the caller's
    /// SQL, metadata, materialization, cleanup statements, done.  A failure
    /// ends the request with the driver's message — the caller's statement
    /// alone gets the identifying prefix — but session state is restored on
    /// every exit path: a failure after a toggle was applied or a
    /// transaction opened first issues the statements still owed, and the
    /// first error wins over any later failure among them.  A failure of a
    /// cleanup statement on the success path is propagated in place of the
    /// response.
    pub fn step(self, reply: DriverReply) -> (r: (Executor, Option<DriverCall>))
        requires
            machine_wf(self),
            phase_expects(self.phase, reply),
        ensures
            r.0.request == self.request,
            machine_wf(r.0),
            self.phase is Borrowing ==> (reply matches DriverReply::Failed(e) ==> ({
                &&& (r.0.phase matches ExecPhase::Failed { error } && error@ == e@)
                &&& r.1 is None
            })),
            self.phase matches ExecPhase::Setup { idx } ==> (reply matches DriverReply::Failed(e)
                ==> unwind_started(setup_unwind_stmts(self.request, idx as int), e@, r)),
            self.phase is Running ==> (reply matches DriverReply::Failed(e) ==> unwind_started(
                cleanup_stmts(self.request),
                "SQL Error: "@ + e@,
                r,
            )),
            self.phase matches ExecPhase::Fetching { .. } ==> (reply matches DriverReply::Failed(e)
                ==> unwind_started(cleanup_stmts(self.request), e@, r)),
            self.phase matches ExecPhase::Cleanup { .. } ==> (reply matches DriverReply::Failed(e)
                ==> ({
                &&& (r.0.phase matches ExecPhase::Failed { error } && error@ == e@)
                &&& r.1 is None
            })),
            self.phase matches ExecPhase::FailingCleanup { pending, error } ==> unwind_continues(
                pending,
                error,
                r,
            ),
            self.phase is Borrowing && reply is Borrowed ==> issues_from(self.request, 0, r),
            self.phase matches ExecPhase::Setup { idx } ==> (reply is Ran ==> issues_from(
                self.request,
                idx + 1,
                r,
            )),
            self.phase is Running ==> (reply matches DriverReply::Dispatched {
                columns,
                affected_rows,
                last_insert_id,
            } ==> ({
                &&& (r.0.phase matches ExecPhase::Fetching {
                    columns: c,
                    affected_rows: a,
                    last_insert_id: l,
                } && c == columns && a == affected_rows && l == last_insert_id)
                &&& (r.1 matches Some(DriverCall::Fetch))
            })),
            self.phase matches ExecPhase::Fetching { columns, affected_rows, last_insert_id }
                ==> (reply matches DriverReply::Rows { raw, elapsed_ms } ==> ({
                &&& (r.0.phase matches ExecPhase::Cleanup { response, .. } ==> response_built(
                    response,
                    columns,
                    affected_rows,
                    last_insert_id,
                    raw,
                    elapsed_ms,
                ))
                &&& (r.0.phase matches ExecPhase::Done { response } ==> response_built(
                    response,
                    columns,
                    affected_rows,
                    last_insert_id,
                    raw,
                    elapsed_ms,
                ))
                &&& (exists|resp: QueryResponse| cleanup_continues(self.request, 0, resp, r))
            })),
            self.phase matches ExecPhase::Cleanup { idx, response } ==> (reply is Ran
                ==> cleanup_continues(self.request, idx + 1, response, r)),
    {
        let Executor { request, phase } = self;
        match phase {
            ExecPhase::Borrowing => {
                match reply {
                    DriverReply::Borrowed => proceed_setup(request, 0),
                    DriverReply::Failed(e) => (
                        Executor { request, phase: ExecPhase::Failed { error: e } },
                        None,
                    ),
                    _ => unreached(),
                }
            },
            ExecPhase::Setup { idx } => {
                match reply {
                    DriverReply::Ran => proceed_setup(request, idx + 1),
                    DriverReply::Failed(e) => {
                        let owed = setup_failure_plan(&request, idx);
                        begin_unwind(request, owed, e)
                    },
                    _ => unreached(),
                }
            },
            ExecPhase::Running => {
                match reply {
                    DriverReply::Dispatched { columns, affected_rows, last_insert_id } => (
                        Executor {
                            request,
                            phase: ExecPhase::Fetching { columns, affected_rows, last_insert_id },
                        },
                        Some(DriverCall::Fetch),
                    ),
                    DriverReply::Failed(e) => {
                        let owed = cleanup_plan(&request);
                        begin_unwind(request, owed, sql_error_message(e.as_str()))
                    },
                    _ => unreached(),
                }
            },
            ExecPhase::Fetching { columns, affected_rows, last_insert_id } => {
                match reply {
                    DriverReply::Rows { raw, elapsed_ms } => {
                        let ncols = columns.len();
                        let rows = materialize_rows(ncols, &raw);
                        let response = QueryResponse {
                            columns,
                            rows,
                            affected_rows,
                            last_insert_id,
                            duration_ms: elapsed_ms,
                        };
                        proof {
                            lemma_materialized_rows_match_columns(response, raw.deep_view());
                        }
                        proceed_cleanup(request, 0, response)
                    },
                    DriverReply::Failed(e) => {
                        let owed = cleanup_plan(&request);
                        begin_unwind(request, owed, e)
                    },
                    _ => unreached(),
                }
            },
            ExecPhase::Cleanup { idx, response } => {
                match reply {
                    DriverReply::Ran => proceed_cleanup(request, idx + 1, response),
                    DriverReply::Failed(e) => (
                        Executor { request, phase: ExecPhase::Failed { error: e } },
                        None,
                    ),
                    _ => unreached(),
                }
            },
            ExecPhase::FailingCleanup { pending, error } => {
                match reply {
                    DriverReply::Ran | DriverReply::Failed(_) => {
                        let ghost owed = pending.deep_view();
                        let mut pending = pending;
                        if pending.is_empty() {
                            (Executor { request, phase: ExecPhase::Failed { error } }, None)
                        } else {
                            let first = pending.remove(0);
                            proof {
                                assert(forall|k: int|
                                    0 <= k < pending@.len() ==> #[trigger] pending.deep_view()[k]
                                        == owed[k + 1]);
                                assert(pending.deep_view() =~= owed.skip(1));
                            }
                            (
                                Executor {
                                    request,
                                    phase: ExecPhase::FailingCleanup { pending, error },
                                },
                                Some(DriverCall::Run(first)),
                            )
                        }
                    },
                    _ => unreached(),
                }
            },
            ExecPhase::Done { .. } => unreached(),
            ExecPhase::Failed { .. } => unreached(),
        }
    }
}


/// The derived, read-only markup projection of a response.
pub struct QueryResultHtml {
    /// The header fragment.
    pub head_html: String,
    /// The body fragment.
    pub body_html: String,
    /// Always empty: no pagination is implemented yet.
    pub pagination_html: String,
    /// The in-memory row count.
    pub count: usize,
    /// The in-memory row count again: no server-side total is computed.
    pub total_rows: u64,
    /// Elapsed whole milliseconds for the whole call, measured by the
    /// caller around the execution.
    pub query_time: u64,
}

/// Builds the markup projection of the first — and only — response:
/// rendered header and body fragments, empty pagination, and the row count
/// standing in for the total.  With no response at all, the fixed error
/// message.
pub fn build_query_result_html(results: &Vec<QueryResponse>, query_time_ms: u64) -> (r: Result<
    QueryResultHtml,
    String,
>)
    ensures
        r is Ok <==> results@.len() > 0,
        r is Err ==> r->Err_0@ == "No results returned"@,
        r is Ok ==> ({
            let first = results@[0];
            &&& r->Ok_0.head_html@ == spec_head_html(first.columns.deep_view())
            &&& r->Ok_0.body_html@ == spec_body_html(first.rows.deep_view())
            &&& r->Ok_0.pagination_html@.len() == 0
            &&& r->Ok_0.count == first.rows@.len()
            &&& r->Ok_0.total_rows == first.rows@.len()
            &&& r->Ok_0.query_time == query_time_ms
        }),
{
    if results.len() == 0 {
        return Err(String::from_str("No results returned"));
    }
    let first = &results[0];
    let (head, body) = render_table_html(&first.columns, &first.rows);
    let count = first.rows.len();
    Ok(
        QueryResultHtml {
            head_html: head,
            body_html: body,
            pagination_html: String::new(),
            count,
            total_rows: count as u64,
            query_time: query_time_ms,
        },
    )
}

} // verus!
