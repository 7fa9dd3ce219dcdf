//! The SQL parser: a query text becomes a syntax tree. Only the simplest
//! SELECT is understood so far: `SELECT col1, col2 FROM table`.

use crate::network::protocol::has_prefix;
use crate::util::text::{
    bytes_eq, lossy_text, lowercase, spec_lossy, spec_lowercase, spec_trim, trim,
};
use vstd::prelude::*;
use vstd::slice::{slice_subrange, slice_to_vec};
use vstd::string::{StringExecFns, StringSliceAdditionalSpecFns};

verus! {

/// Literal values.
#[derive(Debug, Clone)]
pub enum Literal {
    Null,
    Integer(i64),
    /// A double, held as its 64 bits.
    Float(u64),
    String(String),
}

/// `Literal` as plain values.
pub enum LiteralView {
    Null,
    Integer(i64),
    Float(u64),
    Text(Seq<char>),
}

impl View for Literal {
    type V = LiteralView;

    open spec fn view(&self) -> LiteralView {
        match *self {
            Literal::Null => LiteralView::Null,
            Literal::Integer(n) => LiteralView::Integer(n),
            Literal::Float(bits) => LiteralView::Float(bits),
            Literal::String(text) => LiteralView::Text(text@),
        }
    }
}

/// Binary operators.
#[derive(Debug, Clone, Copy, PartialEq, Eq, Structural)]
pub enum BinaryOperator {
    Add,
    Subtract,
    Multiply,
    Divide,
    Equal,
    NotEqual,
    LessThan,
    LessThanOrEqual,
    GreaterThan,
    GreaterThanOrEqual,
    And,
    Or,
}

/// Unary operators.
#[derive(Debug, Clone, Copy, PartialEq, Eq, Structural)]
pub enum UnaryOperator {
    Negate,
    Not,
}

/// Expression types.
#[derive(Debug)]
pub enum Expr {
    Column(String),
    Literal(Literal),
    BinaryOp { left: Box<Expr>, op: BinaryOperator, right: Box<Expr> },
    UnaryOp { op: UnaryOperator, expr: Box<Expr> },
    Function { name: String, args: Vec<Expr> },
}

/// `Expr` as plain values.
pub enum ExprView {
    Column(Seq<char>),
    Literal(LiteralView),
    BinaryOp { left: Box<ExprView>, op: BinaryOperator, right: Box<ExprView> },
    UnaryOp { op: UnaryOperator, expr: Box<ExprView> },
    Function { name: Seq<char>, args: Seq<ExprView> },
}

/// An expression as plain values.
pub open spec fn expr_view(e: Expr) -> ExprView
    decreases e,
{
    match e {
        Expr::Column(name) => ExprView::Column(name@),
        Expr::Literal(lit) => ExprView::Literal(lit@),
        Expr::BinaryOp { left, op, right } => ExprView::BinaryOp {
            left: Box::new(expr_view(*left)),
            op,
            right: Box::new(expr_view(*right)),
        },
        Expr::UnaryOp { op, expr } => ExprView::UnaryOp { op, expr: Box::new(expr_view(*expr)) },
        Expr::Function { name, args } => ExprView::Function {
            name: name@,
            args: Seq::new(
                args@.len(),
                |i: int|
                    if 0 <= i < args@.len() {
                        expr_view(args@[i])
                    } else {
                        ExprView::Literal(LiteralView::Null)
                    },
            ),
        },
    }
}

impl View for Expr {
    type V = ExprView;

    open spec fn view(&self) -> ExprView {
        expr_view(*self)
    }
}

/// WHERE clause condition.
#[derive(Debug)]
pub struct WhereClause {
    pub expr: Expr,
}

/// Data types for columns.
#[derive(Debug, Clone, Copy, PartialEq, Eq, Structural)]
pub enum DataType {
    Integer,
    Float,
    Text,
    Blob,
}

/// Column constraints.
#[derive(Debug, Clone, Copy, PartialEq, Eq, Structural)]
pub enum ColumnConstraint {
    PrimaryKey,
    NotNull,
    Unique,
}

/// Column definition for CREATE TABLE.
#[derive(Debug, Clone)]
pub struct ColumnDef {
    pub name: String,
    pub data_type: DataType,
    pub constraints: Vec<ColumnConstraint>,
}

/// `ColumnDef` as plain values.
pub struct ColumnDefView {
    pub name: Seq<char>,
    pub data_type: DataType,
    pub constraints: Seq<ColumnConstraint>,
}

impl View for ColumnDef {
    type V = ColumnDefView;

    open spec fn view(&self) -> ColumnDefView {
        ColumnDefView {
            name: self.name@,
            data_type: self.data_type,
            constraints: self.constraints@,
        }
    }
}

/// Parsed query representation.
#[derive(Debug)]
pub enum ParsedQuery {
    /// SELECT statement.
    Select {
        columns: Vec<String>,
        table: String,
        where_clause: Option<WhereClause>,
        limit: Option<usize>,
    },
    /// INSERT statement.
    Insert { table: String, columns: Vec<String>, values: Vec<Vec<Literal>> },
    /// UPDATE statement.
    Update {
        table: String,
        assignments: Vec<(String, Literal)>,
        where_clause: Option<WhereClause>,
    },
    /// DELETE statement.
    Delete { table: String, where_clause: Option<WhereClause> },
    /// CREATE TABLE statement.
    CreateTable { table: String, columns: Vec<ColumnDef> },
}

/// `ParsedQuery` as plain values.
pub enum ParsedQueryView {
    Select {
        columns: Seq<Seq<char>>,
        table: Seq<char>,
        where_clause: Option<ExprView>,
        limit: Option<usize>,
    },
    Insert { table: Seq<char>, columns: Seq<Seq<char>>, values: Seq<Seq<LiteralView>> },
    Update {
        table: Seq<char>,
        assignments: Seq<(Seq<char>, LiteralView)>,
        where_clause: Option<ExprView>,
    },
    Delete { table: Seq<char>, where_clause: Option<ExprView> },
    CreateTable { table: Seq<char>, columns: Seq<ColumnDefView> },
}

/// Names as plain values.
pub open spec fn names_view(names: Seq<String>) -> Seq<Seq<char>> {
    names.map_values(|n: String| n@)
}

/// A row of literals as plain values.
pub open spec fn row_view(row: Seq<Literal>) -> Seq<LiteralView> {
    row.map_values(|l: Literal| l@)
}

/// Rows of literals as plain values.
pub open spec fn rows_view(rows: Seq<Vec<Literal>>) -> Seq<Seq<LiteralView>> {
    rows.map_values(|r: Vec<Literal>| row_view(r@))
}

/// Assignments as plain values.
pub open spec fn assignments_view(assignments: Seq<(String, Literal)>) -> Seq<
    (Seq<char>, LiteralView),
> {
    assignments.map_values(|a: (String, Literal)| (a.0@, a.1@))
}

/// A WHERE clause as plain values.
pub open spec fn where_view(where_clause: Option<WhereClause>) -> Option<ExprView> {
    match where_clause {
        Some(wc) => Some(wc.expr@),
        None => None,
    }
}

impl View for ParsedQuery {
    type V = ParsedQueryView;

    open spec fn view(&self) -> ParsedQueryView {
        match *self {
            ParsedQuery::Select { columns, table, where_clause, limit } => ParsedQueryView::Select {
                columns: names_view(columns@),
                table: table@,
                where_clause: where_view(where_clause),
                limit,
            },
            ParsedQuery::Insert { table, columns, values } => ParsedQueryView::Insert {
                table: table@,
                columns: names_view(columns@),
                values: rows_view(values@),
            },
            ParsedQuery::Update { table, assignments, where_clause } => ParsedQueryView::Update {
                table: table@,
                assignments: assignments_view(assignments@),
                where_clause: where_view(where_clause),
            },
            ParsedQuery::Delete { table, where_clause } => ParsedQueryView::Delete {
                table: table@,
                where_clause: where_view(where_clause),
            },
            ParsedQuery::CreateTable { table, columns } => ParsedQueryView::CreateTable {
                table: table@,
                columns: columns@.map_values(|c: ColumnDef| c@),
            },
        }
    }
}

/// The parts of `text` from `start` on, between the occurrences of
/// `pattern` that start at or after `at`.
pub open spec fn split_from(text: Seq<u8>, pattern: Seq<u8>, start: int, at: int) -> Seq<Seq<u8>>
    decreases text.len() - at,
{
    if pattern.len() == 0 || at < 0 || at + pattern.len() > text.len() {
        seq![text.subrange(start, text.len() as int)]
    } else if text.subrange(at, at + pattern.len()) == pattern {
        seq![text.subrange(start, at)] + split_from(
            text,
            pattern,
            at + pattern.len(),
            at + pattern.len(),
        )
    } else {
        split_from(text, pattern, start, at + 1)
    }
}

/// The parts of `text` between the occurrences of `pattern`, taken from the
/// left and without overlap. A text without the pattern is one part, and
/// so is any text where the pattern is empty.
pub open spec fn spec_split(text: Seq<u8>, pattern: Seq<u8>) -> Seq<Seq<u8>> {
    split_from(text, pattern, 0, 0)
}

/// `text` without `prefix` at its start, and nothing where it does not
/// start with it.
pub open spec fn spec_strip_prefix(text: Seq<u8>, prefix: Seq<u8>) -> Option<Seq<u8>> {
    if prefix.is_prefix_of(text) {
        Some(text.skip(prefix.len() as int))
    } else {
        None
    }
}

/// The columns that the part of a SELECT before `from` names: what stands
/// behind `select`, parted at the commas, each part trimmed.
pub open spec fn spec_columns(select_part: Seq<u8>) -> Seq<Seq<char>> {
    let named = match spec_strip_prefix(spec_trim(select_part), "select".spec_bytes()) {
        Some(rest) => rest,
        None => Seq::empty(),
    };
    spec_split(spec_trim(named), ",".spec_bytes()).map_values(
        |part: Seq<u8>| spec_lossy(spec_trim(part)),
    )
}

/// The SELECT that a query in lower case spells: the text must hold `from`
/// exactly once; the columns stand before it and the table behind it.
pub open spec fn spec_parse_select(query: Seq<u8>) -> Result<ParsedQueryView, Seq<char>> {
    let parts = spec_split(query, "from".spec_bytes());
    if parts.len() != 2 {
        Err("Invalid SELECT query"@)
    } else {
        Ok(
            ParsedQueryView::Select {
                columns: spec_columns(parts[0]),
                table: spec_lossy(spec_trim(parts[1])),
                where_clause: None,
                limit: None,
            },
        )
    }
}

/// The query that a text spells. The text is trimmed and brought to lower
/// case first; what it starts with tells the statement.
pub open spec fn spec_parse_query(text: Seq<u8>) -> Result<ParsedQueryView, Seq<char>> {
    let query = spec_lowercase(spec_trim(text));
    if "select".spec_bytes().is_prefix_of(query) {
        spec_parse_select(query)
    } else if "insert".spec_bytes().is_prefix_of(query) {
        Err("INSERT parsing not implemented"@)
    } else if "update".spec_bytes().is_prefix_of(query) {
        Err("UPDATE parsing not implemented"@)
    } else if "delete".spec_bytes().is_prefix_of(query) {
        Err("DELETE parsing not implemented"@)
    } else if "create table".spec_bytes().is_prefix_of(query) {
        Err("CREATE TABLE parsing not implemented"@)
    } else {
        Err("Unsupported query type: "@ + spec_lossy(query))
    }
}

/// Whether a parse returned what the text spells.
pub open spec fn parsed_is(
    parsed: Result<ParsedQuery, String>,
    spelled: Result<ParsedQueryView, Seq<char>>,
) -> bool {
    match parsed {
        Ok(query) => spelled == Ok::<ParsedQueryView, Seq<char>>(query@),
        Err(message) => spelled == Err::<ParsedQueryView, Seq<char>>(message@),
    }
}

/// Part `text` at the occurrences of `pattern`.
pub fn split(text: &[u8], pattern: &[u8]) -> (parts: Vec<Vec<u8>>)
    ensures
        parts@.map_values(|p: Vec<u8>| p@) == spec_split(text@, pattern@),
{
    let mut parts: Vec<Vec<u8>> = Vec::new();
    let len = text.len();
    let width = pattern.len();
    let mut start: usize = 0;
    let mut at: usize = 0;
    assert(parts@.map_values(|p: Vec<u8>| p@) =~= Seq::<Seq<u8>>::empty());
    while width > 0 && len - at >= width
        invariant
            start <= at <= len,
            len == text@.len(),
            width == pattern@.len(),
            spec_split(text@, pattern@) == parts@.map_values(|p: Vec<u8>| p@) + split_from(
                text@,
                pattern@,
                start as int,
                at as int,
            ),
        decreases len - at,
    {
        let ghost seen = parts@.map_values(|p: Vec<u8>| p@);
        if bytes_eq(slice_subrange(text, at, at + width), pattern) {
            let part = slice_to_vec(slice_subrange(text, start, at));
            parts.push(part);
            assert(parts@.map_values(|p: Vec<u8>| p@) =~= seen.push(
                text@.subrange(start as int, at as int),
            ));
            at = at + width;
            start = at;
        } else {
            at = at + 1;
        }
    }
    let ghost seen = parts@.map_values(|p: Vec<u8>| p@);
    parts.push(slice_to_vec(slice_subrange(text, start, len)));
    assert(parts@.map_values(|p: Vec<u8>| p@) =~= seen.push(
        text@.subrange(start as int, len as int),
    ));
    parts
}

/// The columns that the part of a SELECT before `from` names.
fn parse_columns(select_part: &[u8]) -> (columns: Vec<String>)
    ensures
        names_view(columns@) == spec_columns(select_part@),
{
    let trimmed = trim(select_part);
    let select = "select".as_bytes();
    let named: Vec<u8> = if has_prefix(trimmed.as_slice(), select) {
        let rest = slice_subrange(trimmed.as_slice(), select.len(), trimmed.len());
        assert(rest@ =~= trimmed@.skip(select@.len() as int));
        slice_to_vec(rest)
    } else {
        Vec::new()
    };
    let inner = trim(named.as_slice());
    let parts = split(inner.as_slice(), ",".as_bytes());
    let ghost spelled = spec_split(inner@, ",".spec_bytes());
    let mut columns: Vec<String> = Vec::new();
    let mut i: usize = 0;
    assert(names_view(columns@) =~= spelled.take(0).map_values(
        |part: Seq<u8>| spec_lossy(spec_trim(part)),
    ));
    while i < parts.len()
        invariant
            i <= parts@.len(),
            parts@.map_values(|p: Vec<u8>| p@) == spelled,
            names_view(columns@) == spelled.take(i as int).map_values(
                |part: Seq<u8>| spec_lossy(spec_trim(part)),
            ),
        decreases parts@.len() - i,
    {
        let part = trim(parts[i].as_slice());
        let name = lossy_text(part.as_slice());
        let ghost before = names_view(columns@);
        proof {
            assert(spelled[i as int] == parts@[i as int]@);
            assert(spelled.take(i + 1) =~= spelled.take(i as int).push(spelled[i as int]));
        }
        columns.push(name);
        assert(names_view(columns@) =~= before.push(name@));
        assert(names_view(columns@) =~= spelled.take(i + 1).map_values(
            |part: Seq<u8>| spec_lossy(spec_trim(part)),
        ));
        i = i + 1;
    }
    assert(spelled.take(i as int) =~= spelled);
    columns
}

/// Parse a SELECT in lower case.
fn parse_select(query: &[u8]) -> (parsed: Result<ParsedQuery, String>)
    ensures
        parsed_is(parsed, spec_parse_select(query@)),
{
    let parts = split(query, "from".as_bytes());
    if parts.len() != 2 {
        return Err("Invalid SELECT query".to_string());
    }
    let ghost spelled = spec_split(query@, "from".spec_bytes());
    proof {
        assert(spelled[0] == parts@[0]@);
        assert(spelled[1] == parts@[1]@);
    }
    let columns = parse_columns(parts[0].as_slice());
    let table = lossy_text(trim(parts[1].as_slice()).as_slice());
    Ok(ParsedQuery::Select { columns, table, where_clause: None, limit: None })
}

/// Parse a SQL query into its syntax tree.
pub fn parse_query(query: &str) -> (parsed: Result<ParsedQuery, String>)
    ensures
        parsed_is(parsed, spec_parse_query(query.spec_bytes())),
{
    let trimmed = trim(query.as_bytes());
    let lowered = lowercase(trimmed.as_slice());
    let text = lowered.as_slice();
    if has_prefix(text, "select".as_bytes()) {
        parse_select(text)
    } else if has_prefix(text, "insert".as_bytes()) {
        Err("INSERT parsing not implemented".to_string())
    } else if has_prefix(text, "update".as_bytes()) {
        Err("UPDATE parsing not implemented".to_string())
    } else if has_prefix(text, "delete".as_bytes()) {
        Err("DELETE parsing not implemented".to_string())
    } else if has_prefix(text, "create table".as_bytes()) {
        Err("CREATE TABLE parsing not implemented".to_string())
    } else {
        let mut message = "Unsupported query type: ".to_string();
        message.append(lossy_text(text).as_str());
        Err(message)
    }
}

} // verus!
