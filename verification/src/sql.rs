//! The SQL bridge: parameter binding and the connection state machine.
//!
//! The bridge owes the driver a statement and a list of positional
//! bindings. A JSON parameter binds one placeholder: a string binds text, a
//! boolean binds a boolean, an integral number binds a 64-bit integer, any
//! other number binds a 64-bit float; null, arrays and objects are a
//! binding error. Calling before the pool exists is an error, not a wait.
//! The driver itself runs outside the library: it receives the prepared
//! plan and hands decoded rows back.

use vstd::prelude::*;

use crate::json::Json;
use crate::json::JsonSpec;
use crate::sqljson::row_to_json;
use crate::sqljson::spec_row_obj;
use crate::sqljson::SqlRow;

verus! {

/// Why a query or statement call failed before reaching the driver, or how
/// the driver's failure is surfaced.
#[derive(Debug, Clone, Copy, PartialEq, Eq)]
pub enum SqlError {
    /// A call came in before the connection pool was established.
    NotConnected,
    /// A parameter was null, an array or an object.
    UnsupportedParameterType,
    /// The driver reported a failure executing the statement.
    QueryExecutionFailed,
}

/// One SQL binding, as specifications see it.
pub enum BoundParamSpec {
    Text(Seq<char>),
    Boolean(bool),
    BigInt(i64),
    /// IEEE double bits.
    Float(u64),
}

/// One value bound to one positional SQL placeholder.
#[derive(Debug, PartialEq)]
pub enum BoundParam {
    Text(String),
    Boolean(bool),
    BigInt(i64),
    /// IEEE double bits: the shell rebuilds the float at the driver call.
    Float(u64),
}

impl View for BoundParam {
    type V = BoundParamSpec;

    open spec fn view(&self) -> BoundParamSpec {
        match self {
            BoundParam::Text(s) => BoundParamSpec::Text(s@),
            BoundParam::Boolean(b) => BoundParamSpec::Boolean(*b),
            BoundParam::BigInt(i) => BoundParamSpec::BigInt(*i),
            BoundParam::Float(bits) => BoundParamSpec::Float(*bits),
        }
    }
}

/// What one JSON parameter binds to, or why it cannot bind.
pub open spec fn spec_bind(v: JsonSpec) -> Result<BoundParamSpec, SqlError> {
    match v {
        JsonSpec::Text(t) => Ok(BoundParamSpec::Text(t)),
        JsonSpec::Bool(b) => Ok(BoundParamSpec::Boolean(b)),
        JsonSpec::Int(i) => Ok(BoundParamSpec::BigInt(i)),
        JsonSpec::Float(bits) => Ok(BoundParamSpec::Float(bits)),
        _ => Err(SqlError::UnsupportedParameterType),
    }
}

/// What a whole parameter list binds to: the first unbindable parameter
/// fails the call.
pub open spec fn spec_bind_all(vs: Seq<JsonSpec>) -> Result<Seq<BoundParamSpec>, SqlError>
    decreases vs.len(),
{
    if vs.len() == 0 {
        Ok(Seq::empty())
    } else {
        match spec_bind_all(vs.drop_last()) {
            Err(e) => Err(e),
            Ok(acc) => match spec_bind(vs.last()) {
                Ok(b) => Ok(acc.push(b)),
                Err(e) => Err(e),
            },
        }
    }
}

/// Bind one JSON parameter to one placeholder.
pub fn bind_param(p: &Json) -> (r: Result<BoundParam, SqlError>)
    ensures
        match r {
            Ok(b) => spec_bind(p@) == Ok::<BoundParamSpec, SqlError>(b@),
            Err(e) => spec_bind(p@) == Err::<BoundParamSpec, SqlError>(e),
        },
{
    match p {
        Json::Text(s) => Ok(BoundParam::Text(s.clone())),
        Json::Bool(b) => Ok(BoundParam::Boolean(*b)),
        Json::Int(i) => Ok(BoundParam::BigInt(*i)),
        Json::Float(bits) => Ok(BoundParam::Float(*bits)),
        _ => Err(SqlError::UnsupportedParameterType),
    }
}

/// The spec views of a binding list.
pub open spec fn binds_view(bs: Seq<BoundParam>) -> Seq<BoundParamSpec> {
    Seq::new(bs.len(), |i: int| bs[i]@)
}

/// Bind a whole parameter list, in order; the first unbindable parameter
/// fails the call.
#[verifier::loop_isolation(false)]
pub fn bind_params(ps: &Vec<Json>) -> (r: Result<Vec<BoundParam>, SqlError>)
    ensures
        match r {
            Ok(bs) => spec_bind_all(crate::json::items_view(ps@)) == Ok::<
                Seq<BoundParamSpec>,
                SqlError,
            >(binds_view(bs@)),
            Err(e) => spec_bind_all(crate::json::items_view(ps@)) == Err::<
                Seq<BoundParamSpec>,
                SqlError,
            >(e),
        },
{
    let ghost vs = crate::json::items_view(ps@);
    proof {
        crate::json::lemma_items_view(ps@);
        assert(vs.take(0) =~= Seq::<JsonSpec>::empty());
    }
    let mut out: Vec<BoundParam> = Vec::new();
    proof {
        assert(binds_view(out@) =~= Seq::<BoundParamSpec>::empty());
    }
    let mut k: usize = 0;
    while k < ps.len()
        invariant
            0 <= k <= ps@.len(),
            spec_bind_all(vs.take(k as int)) == Ok::<Seq<BoundParamSpec>, SqlError>(
                binds_view(out@),
            ),
        decreases ps@.len() - k,
    {
        proof {
            assert(vs.take(k as int + 1).drop_last() =~= vs.take(k as int));
            assert(vs.take(k as int + 1).last() == vs[k as int]);
        }
        match bind_param(&ps[k]) {
            Ok(b) => {
                let ghost before = binds_view(out@);
                out.push(b);
                proof {
                    assert(binds_view(out@) =~= before.push(out@.last()@));
                }
            },
            Err(e) => {
                proof {
                    lemma_bind_all_err(vs, k as int, e);
                }
                return Err(e);
            },
        }
        k += 1;
    }
    proof {
        assert(vs.take(ps@.len() as int) =~= vs);
    }
    Ok(out)
}

/// If every parameter before `k` binds and parameter `k` does not, the
/// whole list fails with parameter `k`'s error.
proof fn lemma_bind_all_err(vs: Seq<JsonSpec>, k: int, e: SqlError)
    requires
        0 <= k < vs.len(),
        spec_bind_all(vs.take(k)) is Ok,
        spec_bind(vs[k]) == Err::<BoundParamSpec, SqlError>(e),
    ensures
        spec_bind_all(vs) == Err::<Seq<BoundParamSpec>, SqlError>(e),
    decreases vs.len(),
{
    if k == vs.len() - 1 {
        assert(vs.take(k) =~= vs.drop_last());
    } else {
        assert(vs.drop_last().take(k) =~= vs.take(k));
        lemma_bind_all_err(vs.drop_last(), k, e);
    }
}

/// A statement ready for the driver: its text and its bindings in order.
#[derive(Debug, PartialEq)]
pub struct QueryPlan {
    pub sql: String,
    pub binds: Vec<BoundParam>,
}

/// The bridge's connection state: whether the process's pool exists yet.
/// The pool itself lives with the driver, outside the library.
#[derive(Debug, PartialEq)]
pub struct SqlBridge {
    connected: bool,
}

impl SqlBridge {
    /// Whether the pool has been established.
    pub closed spec fn is_connected(&self) -> bool {
        self.connected
    }

    /// A fresh bridge: no pool yet.
    pub fn new() -> (r: SqlBridge)
        ensures
            !r.is_connected(),
    {
        SqlBridge { connected: false }
    }

    /// Record that the shell opened the process's pool.
    pub fn set_connected(&mut self)
        ensures
            final(self).is_connected(),
    {
        self.connected = true;
    }

    /// Prepare one query or statement call: refuse it before the pool
    /// exists, bind every parameter in order, and hand the plan out.
    pub fn prepare(&self, sql: &str, params: &Vec<Json>) -> (r: Result<QueryPlan, SqlError>)
        ensures
            !self.is_connected() ==> r == Err::<QueryPlan, SqlError>(SqlError::NotConnected),
            self.is_connected() ==> match r {
                Ok(plan) => plan.sql@ == sql@ && spec_bind_all(crate::json::items_view(params@))
                    == Ok::<Seq<BoundParamSpec>, SqlError>(binds_view(plan.binds@)),
                Err(e) => spec_bind_all(crate::json::items_view(params@)) == Err::<
                    Seq<BoundParamSpec>,
                    SqlError,
                >(e),
            },
    {
        if !self.connected {
            return Err(SqlError::NotConnected);
        }
        match bind_params(params) {
            Ok(binds) => Ok(QueryPlan { sql: sql.to_owned(), binds }),
            Err(e) => Err(e),
        }
    }
}

/// Decode a whole result set: one JSON object per row, in row order.
#[verifier::loop_isolation(false)]
pub fn rows_to_json(rows: &Vec<SqlRow>) -> (r: Json)
    ensures
        r@ matches JsonSpec::Arr(items) && items.len() == rows@.len() && forall|i: int|
            0 <= i < rows@.len() ==> items[i] == JsonSpec::Obj(spec_row_obj(rows@[i].cells@)),
{
    let mut out: Vec<Json> = Vec::new();
    let mut k: usize = 0;
    while k < rows.len()
        invariant
            0 <= k <= rows@.len(),
            out@.len() == k as int,
            forall|i: int|
                0 <= i < k ==> out@[i]@ == JsonSpec::Obj(spec_row_obj(rows@[i].cells@)),
        decreases rows@.len() - k,
    {
        let row_json = row_to_json(&rows[k]);
        out.push(row_json);
        k += 1;
    }
    proof {
        crate::json::lemma_items_view(out@);
    }
    Json::Arr(out)
}

} // verus!
