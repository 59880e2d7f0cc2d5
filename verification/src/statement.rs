//! Statements: how parameters are bound, what is needed before a statement
//! runs, and what is reported after it ran.

use vstd::prelude::*;
use crate::deserialize::{decoded_int_or_symbol, ColumnView};
use crate::dialect::{Backend, Dialect};
use crate::error::{Error, ErrorView};
use crate::registry::{ConnectionRegistry, DatabaseHandle};
use crate::value::{CanonicalValue, ValueView};

verus! {

/// A parameter as it is handed to the backend. Every variant owns what it
/// holds, so that it outlives the caller's value.
#[derive(Debug, PartialEq, Eq)]
pub enum BoundParam {
    Null,
    Bool(bool),
    Integer(i64),
    Text(String),
}

/// Mathematical model of a [`BoundParam`].
pub ghost enum BoundParamView {
    Null,
    Bool(bool),
    Integer(int),
    Text(Seq<char>),
}

impl View for BoundParam {
    type V = BoundParamView;

    open spec fn view(&self) -> BoundParamView {
        match self {
            BoundParam::Null => BoundParamView::Null,
            BoundParam::Bool(b) => BoundParamView::Bool(*b),
            BoundParam::Integer(i) => BoundParamView::Integer(*i as int),
            BoundParam::Text(s) => BoundParamView::Text(s@),
        }
    }
}

/// How a backend binds a value. A binary payload is bound as its base64
/// text. The file store has no boolean of its own and takes 0 and 1.
pub open spec fn bound(backend: Backend, value: ValueView) -> BoundParamView {
    match value {
        ValueView::Null => BoundParamView::Null,
        ValueView::Bool(b) => match backend {
            Backend::Sqlite => BoundParamView::Integer(
                if b {
                    1
                } else {
                    0
                },
            ),
            _ => BoundParamView::Bool(b),
        },
        ValueView::Integer(i) => BoundParamView::Integer(i),
        ValueView::Text(s) => BoundParamView::Text(s),
        ValueView::Bytes(s) => BoundParamView::Text(s),
    }
}

/// The parameters of a statement: each value bound, in the order given.
pub open spec fn bound_all(backend: Backend, values: Seq<CanonicalValue>) -> Seq<BoundParamView> {
    Seq::new(values.len(), |i: int| bound(backend, values[i]@))
}

/// The models of a list of bound parameters.
pub open spec fn param_views(params: Seq<BoundParam>) -> Seq<BoundParamView> {
    Seq::new(params.len(), |i: int| params[i]@)
}

impl Dialect {
    /// Binds one value for this dialect's backend.
    pub fn bind(&self, value: &CanonicalValue) -> (param: BoundParam)
        ensures
            param@ == bound(self@.backend, value@),
    {
        match value {
            CanonicalValue::Null => BoundParam::Null,
            CanonicalValue::Bool(b) => match self.backend() {
                Backend::Sqlite => BoundParam::Integer(
                    if *b {
                        1
                    } else {
                        0
                    },
                ),
                _ => BoundParam::Bool(*b),
            },
            CanonicalValue::Integer(i) => BoundParam::Integer(*i),
            CanonicalValue::Text(s) => BoundParam::Text(s.clone()),
            CanonicalValue::Bytes(s) => BoundParam::Text(s.clone()),
        }
    }

    /// Binds the parameters of a statement, by position.
    pub fn bind_all(&self, values: &Vec<CanonicalValue>) -> (params: Vec<BoundParam>)
        ensures
            param_views(params@) == bound_all(self@.backend, values@),
    {
        let mut params: Vec<BoundParam> = Vec::new();
        let mut i: usize = 0;
        while i < values.len()
            invariant
                i <= values@.len(),
                params@.len() == i,
                forall|k: int| 0 <= k < i ==> (#[trigger] params@[k])@ == bound(
                    self@.backend,
                    values@[k]@,
                ),
            decreases values@.len() - i,
        {
            params.push(self.bind(&values[i]));
            i += 1;
        }
        assert(param_views(params@) =~= bound_all(self@.backend, values@));
        params
    }
}

/// A boolean that the file store has bound is read back as it was: the
/// column then holds 0 or 1, which the store's boolean rule decodes to the
/// boolean that was bound.
pub proof fn lemma_bound_boolean_reads_back(b: bool, column: ColumnView)
    requires
        column.int8 matches Ok(v) && BoundParamView::Integer(v) == bound(
            Backend::Sqlite,
            ValueView::Bool(b),
        ),
    ensures
        decoded_int_or_symbol(column) == Ok::<ValueView, ErrorView>(ValueView::Bool(b)),
{
}

/// What a statement needs before it runs: the open database and the bound
/// parameters.
#[derive(Debug)]
pub struct Prepared<'a, P> {
    pub handle: &'a DatabaseHandle<P>,
    pub params: Vec<BoundParam>,
}

/// Looks up the database of a statement and binds the statement's
/// parameters. Without the database nothing is bound and nothing may run.
pub fn prepare<'a, P>(
    registry: &'a ConnectionRegistry<P>,
    name: &str,
    values: &Vec<CanonicalValue>,
) -> (prepared: Result<Prepared<'a, P>, Error>)
    ensures
        match prepared {
            Ok(p) => {
                &&& registry@.handle_of(name@) == Some(p.handle@)
                &&& param_views(p.params@) == bound_all(p.handle.backend, values@)
            },
            Err(e) => registry@.handle_of(name@) is None && e@ == ErrorView::NotLoaded(name@),
        },
{
    match registry.get(name) {
        Ok(handle) => {
            let dialect = Dialect::of(handle.backend);
            let params = dialect.bind_all(values);
            Ok(Prepared { handle, params })
        },
        Err(e) => Err(e),
    }
}

/// What `execute` reports.
#[derive(Debug, Clone, Copy, PartialEq, Eq, Structural)]
pub struct ExecuteResult {
    pub rows_affected: u64,
    pub last_insert_id: i64,
}

impl Backend {
    /// Whether the backend knows a last generated identifier.
    pub open spec fn reports_insert_id_spec(self) -> bool {
        self != Backend::Postgres
    }

    /// Whether the backend knows a last generated identifier.
    pub fn reports_insert_id(self) -> (reports: bool)
        ensures
            reports == self.reports_insert_id_spec(),
    {
        match self {
            Backend::Postgres => false,
            _ => true,
        }
    }
}

/// An identifier that a backend reports without sign, as the signed
/// identifier that `execute` reports: one above the signed range is given as
/// the highest signed value.
pub fn signed_id(id: u64) -> (signed: i64)
    ensures
        signed == if id <= i64::MAX {
            id as int
        } else {
            i64::MAX as int
        },
{
    if id <= i64::MAX as u64 {
        id as i64
    } else {
        i64::MAX
    }
}

/// What `execute` reports for a statement that ran: the number of rows it
/// affected, and the identifier that the backend generated last, or 0 for a
/// backend that knows none.
pub fn execute_result(backend: Backend, rows_affected: u64, generated_id: i64) -> (result:
    ExecuteResult)
    ensures
        result.rows_affected == rows_affected,
        result.last_insert_id == if backend.reports_insert_id_spec() {
            generated_id
        } else {
            0
        },
{
    ExecuteResult {
        rows_affected,
        last_insert_id: if backend.reports_insert_id() {
            generated_id
        } else {
            0
        },
    }
}

} // verus!
