//! The SQL front end: a query is parsed, planned and executed.

pub mod executor;
pub mod parser;

use crate::query::executor::{execute_plan, spec_execute, spec_plan, ExecutionPlan};
use crate::query::parser::{names_view, parse_query, spec_parse_query};
use vstd::prelude::*;
use vstd::string::{StringExecFns, StringSliceAdditionalSpecFns};

verus! {

/// Value types for query results.
#[derive(Clone, Debug)]
pub enum Value {
    Null,
    Integer(i64),
    /// A double, held as its 64 bits.
    Float(u64),
    Text(String),
    Binary(Vec<u8>),
}

/// `Value` as plain values.
pub enum ValueView {
    Null,
    Integer(i64),
    Float(u64),
    Text(Seq<char>),
    Binary(Seq<u8>),
}

impl View for Value {
    type V = ValueView;

    open spec fn view(&self) -> ValueView {
        match *self {
            Value::Null => ValueView::Null,
            Value::Integer(n) => ValueView::Integer(n),
            Value::Float(bits) => ValueView::Float(bits),
            Value::Text(text) => ValueView::Text(text@),
            Value::Binary(bytes) => ValueView::Binary(bytes@),
        }
    }
}

/// Query result types.
pub enum QueryResult {
    /// SELECT result.
    Rows { columns: Vec<String>, rows: Vec<Vec<Value>>, affected_rows: usize },
    /// INSERT/UPDATE/DELETE result.
    Modified { affected_rows: usize },
    /// DDL result (CREATE/ALTER/DROP).
    Schema,
}

/// `QueryResult` as plain values.
pub enum ResultView {
    Rows { columns: Seq<Seq<char>>, rows: Seq<Seq<ValueView>>, affected_rows: usize },
    Modified { affected_rows: usize },
    Schema,
}

impl View for QueryResult {
    type V = ResultView;

    open spec fn view(&self) -> ResultView {
        match *self {
            QueryResult::Rows { columns, rows, affected_rows } => ResultView::Rows {
                columns: names_view(columns@),
                rows: rows@.map_values(|r: Vec<Value>| r@.map_values(|v: Value| v@)),
                affected_rows,
            },
            QueryResult::Modified { affected_rows } => ResultView::Modified { affected_rows },
            QueryResult::Schema => ResultView::Schema,
        }
    }
}

/// Query error types.
#[derive(Debug)]
pub enum QueryError {
    ParseError(String),
    PlanningError(String),
    ExecutionError(String),
    StorageError(String),
}

/// A query error in words.
pub open spec fn error_text(e: QueryError) -> Seq<char> {
    match e {
        QueryError::ParseError(msg) => "Parse error: "@ + msg@,
        QueryError::PlanningError(msg) => "Planning error: "@ + msg@,
        QueryError::ExecutionError(msg) => "Execution error: "@ + msg@,
        QueryError::StorageError(msg) => "Storage error: "@ + msg@,
    }
}

impl QueryError {
    /// The error in words.
    pub fn message(&self) -> (text: String)
        ensures
            text@ == error_text(*self),
    {
        let (mut text, msg) = match self {
            QueryError::ParseError(msg) => ("Parse error: ".to_string(), msg),
            QueryError::PlanningError(msg) => ("Planning error: ".to_string(), msg),
            QueryError::ExecutionError(msg) => ("Execution error: ".to_string(), msg),
            QueryError::StorageError(msg) => ("Storage error: ".to_string(), msg),
        };
        text.append(msg.as_str());
        text
    }
}

/// What a query text comes to: the result of the plan of the query that the
/// text spells, or the parse error.
pub open spec fn spec_query(text: Seq<u8>) -> Result<ResultView, Seq<char>> {
    match spec_parse_query(text) {
        Ok(query) => Ok(spec_execute(spec_plan(query))),
        Err(message) => Err(message),
    }
}

/// SQL query processor.
pub struct QueryProcessor {}

impl QueryProcessor {
    /// A processor.
    pub fn new() -> QueryProcessor {
        QueryProcessor {  }
    }

    /// Parse, plan and execute `query`.
    pub fn execute(&self, query: &str) -> (result: Result<QueryResult, QueryError>)
        ensures
            match result {
                Ok(rows) => spec_query(query.spec_bytes()) == Ok::<ResultView, Seq<char>>(rows@),
                Err(QueryError::ParseError(message)) => spec_query(query.spec_bytes()) == Err::<
                    ResultView,
                    Seq<char>,
                >(message@),
                Err(_) => false,
            },
    {
        let parsed = match parse_query(query) {
            Ok(parsed) => parsed,
            Err(message) => {
                return Err(QueryError::ParseError(message));
            },
        };
        let plan = ExecutionPlan::from_parsed_query(parsed);
        match execute_plan(plan) {
            Ok(result) => Ok(result),
            Err(message) => Err(QueryError::ExecutionError(message)),
        }
    }
}

} // verus!
