//! The query executor: a parsed query becomes a plan of steps, and a plan a
//! result. Nothing is looked up yet: a SELECT answers with one row that
//! names its columns, anything else with one affected row.

use crate::query::parser::{
    assignments_view, expr_view, names_view, rows_view, where_view, BinaryOperator,
    Expr, ExprView, Literal, LiteralView, ParsedQuery, ParsedQueryView, WhereClause,
};
use crate::query::{QueryResult, ResultView, Value, ValueView};
use vstd::prelude::*;
use vstd::string::StringExecFns;

verus! {

/// Comparison operators.
#[derive(Debug, Clone, Copy, PartialEq, Eq, Structural)]
pub enum ComparisonOp {
    Eq,
    Ne,
    Lt,
    Lte,
    Gt,
    Gte,
}

/// An expression in the form in which it is evaluated.
#[derive(Debug)]
pub enum CompiledExpression {
    /// Constant.
    Constant(bool),
    /// Column equals value.
    ColumnEqValue { column: String, value: Literal },
    /// Column comparison.
    ColumnCompare { column: String, op: ComparisonOp, value: Literal },
    /// Both hold.
    And { left: Box<CompiledExpression>, right: Box<CompiledExpression> },
    /// One of them holds.
    Or { left: Box<CompiledExpression>, right: Box<CompiledExpression> },
    /// Anything else is evaluated as it stands.
    Complex { expr: Expr },
}

/// `CompiledExpression` as plain values.
pub enum CompiledView {
    Constant(bool),
    ColumnEqValue { column: Seq<char>, value: LiteralView },
    ColumnCompare { column: Seq<char>, op: ComparisonOp, value: LiteralView },
    And { left: Box<CompiledView>, right: Box<CompiledView> },
    Or { left: Box<CompiledView>, right: Box<CompiledView> },
    Complex { expr: ExprView },
}

/// A compiled expression as plain values.
pub open spec fn compiled_view(c: CompiledExpression) -> CompiledView
    decreases c,
{
    match c {
        CompiledExpression::Constant(b) => CompiledView::Constant(b),
        CompiledExpression::ColumnEqValue { column, value } => CompiledView::ColumnEqValue {
            column: column@,
            value: value@,
        },
        CompiledExpression::ColumnCompare { column, op, value } => CompiledView::ColumnCompare {
            column: column@,
            op,
            value: value@,
        },
        CompiledExpression::And { left, right } => CompiledView::And {
            left: Box::new(compiled_view(*left)),
            right: Box::new(compiled_view(*right)),
        },
        CompiledExpression::Or { left, right } => CompiledView::Or {
            left: Box::new(compiled_view(*left)),
            right: Box::new(compiled_view(*right)),
        },
        CompiledExpression::Complex { expr } => CompiledView::Complex { expr: expr@ },
    }
}

impl View for CompiledExpression {
    type V = CompiledView;

    open spec fn view(&self) -> CompiledView {
        compiled_view(*self)
    }
}

/// Step in an execution plan.
#[derive(Debug)]
pub enum ExecutionStep {
    /// Table scan.
    Scan { table: String, filter: Option<CompiledExpression> },
    /// Project specific columns.
    Project { columns: Vec<String> },
    /// Insert data.
    Insert { table: String, columns: Vec<String>, values: Vec<Vec<Literal>> },
    /// Update data.
    Update { table: String, assignments: Vec<(String, Literal)> },
    /// Delete data.
    Delete { table: String },
    /// Sort results by columns, each ascending or not.
    Sort { columns: Vec<(String, bool)> },
    /// Limit results.
    Limit { count: usize },
}

/// `ExecutionStep` as plain values.
pub enum StepView {
    Scan { table: Seq<char>, filter: Option<CompiledView> },
    Project { columns: Seq<Seq<char>> },
    Insert { table: Seq<char>, columns: Seq<Seq<char>>, values: Seq<Seq<LiteralView>> },
    Update { table: Seq<char>, assignments: Seq<(Seq<char>, LiteralView)> },
    Delete { table: Seq<char> },
    Sort { columns: Seq<(Seq<char>, bool)> },
    Limit { count: usize },
}

/// A filter as plain values.
pub open spec fn filter_view(filter: Option<CompiledExpression>) -> Option<CompiledView> {
    match filter {
        Some(c) => Some(c@),
        None => None,
    }
}

impl View for ExecutionStep {
    type V = StepView;

    open spec fn view(&self) -> StepView {
        match *self {
            ExecutionStep::Scan { table, filter } => StepView::Scan {
                table: table@,
                filter: filter_view(filter),
            },
            ExecutionStep::Project { columns } => StepView::Project {
                columns: names_view(columns@),
            },
            ExecutionStep::Insert { table, columns, values } => StepView::Insert {
                table: table@,
                columns: names_view(columns@),
                values: rows_view(values@),
            },
            ExecutionStep::Update { table, assignments } => StepView::Update {
                table: table@,
                assignments: assignments_view(assignments@),
            },
            ExecutionStep::Delete { table } => StepView::Delete { table: table@ },
            ExecutionStep::Sort { columns } => StepView::Sort {
                columns: columns@.map_values(|c: (String, bool)| (c.0@, c.1)),
            },
            ExecutionStep::Limit { count } => StepView::Limit { count },
        }
    }
}

/// Execution plan for a query.
#[derive(Debug)]
pub struct ExecutionPlan {
    /// Plan steps.
    pub steps: Vec<ExecutionStep>,
    /// Output schema.
    pub output_columns: Vec<String>,
}

/// `ExecutionPlan` as plain values.
pub struct PlanView {
    pub steps: Seq<StepView>,
    pub output_columns: Seq<Seq<char>>,
}

/// Steps as plain values.
pub open spec fn steps_view(steps: Seq<ExecutionStep>) -> Seq<StepView> {
    steps.map_values(|s: ExecutionStep| s@)
}

impl View for ExecutionPlan {
    type V = PlanView;

    open spec fn view(&self) -> PlanView {
        PlanView {
            steps: steps_view(self.steps@),
            output_columns: names_view(self.output_columns@),
        }
    }
}

/// The comparison that a binary operator stands for, if it stands for one
/// other than equality.
pub open spec fn comparison_of(op: BinaryOperator) -> Option<ComparisonOp> {
    match op {
        BinaryOperator::NotEqual => Some(ComparisonOp::Ne),
        BinaryOperator::LessThan => Some(ComparisonOp::Lt),
        BinaryOperator::LessThanOrEqual => Some(ComparisonOp::Lte),
        BinaryOperator::GreaterThan => Some(ComparisonOp::Gt),
        BinaryOperator::GreaterThanOrEqual => Some(ComparisonOp::Gte),
        _ => None,
    }
}

/// The form in which an expression is evaluated. The literals `1` and `0`
/// are the constants true and false. A column held against a literal is an
/// equality or a comparison by the operator, and stays as it stands under
/// any other operator. Any other `AND` or `OR` is that of its two sides in
/// their forms. Everything else stays as it stands.
pub open spec fn spec_compile(e: ExprView) -> CompiledView
    decreases e,
{
    match e {
        ExprView::Literal(LiteralView::Integer(n)) => if n == 1 {
            CompiledView::Constant(true)
        } else if n == 0 {
            CompiledView::Constant(false)
        } else {
            CompiledView::Complex { expr: e }
        },
        ExprView::BinaryOp { left, op, right } => match (*left, *right) {
            (ExprView::Column(column), ExprView::Literal(value)) => if op
                == BinaryOperator::Equal {
                CompiledView::ColumnEqValue { column, value }
            } else {
                match comparison_of(op) {
                    Some(cmp) => CompiledView::ColumnCompare { column, op: cmp, value },
                    None => CompiledView::Complex { expr: e },
                }
            },
            _ => if op == BinaryOperator::And {
                CompiledView::And {
                    left: Box::new(spec_compile(*left)),
                    right: Box::new(spec_compile(*right)),
                }
            } else if op == BinaryOperator::Or {
                CompiledView::Or {
                    left: Box::new(spec_compile(*left)),
                    right: Box::new(spec_compile(*right)),
                }
            } else {
                CompiledView::Complex { expr: e }
            },
        },
        _ => CompiledView::Complex { expr: e },
    }
}

/// The filter of a scan under a WHERE clause.
pub open spec fn spec_filter(where_clause: Option<ExprView>) -> Option<CompiledView> {
    match where_clause {
        Some(e) => Some(spec_compile(e)),
        None => None,
    }
}

/// The output of a statement that changes rows.
pub open spec fn affected_columns() -> Seq<Seq<char>> {
    seq!["affected_rows"@]
}

/// The plan for a query. A SELECT scans, projects, and limits where a limit
/// is given; an INSERT inserts; an UPDATE and a DELETE scan and then change
/// what was found; a CREATE TABLE has no step.
pub open spec fn spec_plan(q: ParsedQueryView) -> PlanView {
    match q {
        ParsedQueryView::Select { columns, table, where_clause, limit } => PlanView {
            steps: seq![
                StepView::Scan { table, filter: spec_filter(where_clause) },
                StepView::Project { columns },
            ] + (match limit {
                Some(count) => seq![StepView::Limit { count }],
                None => Seq::empty(),
            }),
            output_columns: columns,
        },
        ParsedQueryView::Insert { table, columns, values } => PlanView {
            steps: seq![StepView::Insert { table, columns, values }],
            output_columns: affected_columns(),
        },
        ParsedQueryView::Update { table, assignments, where_clause } => PlanView {
            steps: seq![
                StepView::Scan { table, filter: spec_filter(where_clause) },
                StepView::Update { table, assignments },
            ],
            output_columns: affected_columns(),
        },
        ParsedQueryView::Delete { table, where_clause } => PlanView {
            steps: seq![
                StepView::Scan { table, filter: spec_filter(where_clause) },
                StepView::Delete { table },
            ],
            output_columns: affected_columns(),
        },
        ParsedQueryView::CreateTable { table, columns } => PlanView {
            steps: Seq::empty(),
            output_columns: Seq::empty(),
        },
    }
}

/// Whether a plan projects.
pub open spec fn projects(steps: Seq<StepView>) -> bool {
    exists|i: int| 0 <= i < steps.len() && #[trigger] steps[i] is Project
}

/// The value that stands in for a column.
pub open spec fn stand_in(column: Seq<char>) -> ValueView {
    ValueView::Text("Value for "@ + column)
}

/// The result of a plan: one row that names the output columns where the
/// plan projects, and one affected row where it does not.
pub open spec fn spec_execute(plan: PlanView) -> ResultView {
    if projects(plan.steps) {
        ResultView::Rows {
            columns: plan.output_columns,
            rows: seq![plan.output_columns.map_values(|c: Seq<char>| stand_in(c))],
            affected_rows: 1,
        }
    } else {
        ResultView::Modified { affected_rows: 1 }
    }
}

/// A copy of a literal.
pub fn copy_literal(lit: &Literal) -> (copy: Literal)
    ensures
        copy@ == lit@,
{
    match lit {
        Literal::Null => Literal::Null,
        Literal::Integer(n) => Literal::Integer(*n),
        Literal::Float(bits) => Literal::Float(*bits),
        Literal::String(text) => Literal::String(text.clone()),
    }
}

/// A copy of an expression.
pub fn copy_expr(expr: &Expr) -> (copy: Expr)
    ensures
        copy@ == expr@,
    decreases expr,
{
    match expr {
        Expr::Column(name) => Expr::Column(name.clone()),
        Expr::Literal(lit) => Expr::Literal(copy_literal(lit)),
        Expr::BinaryOp { left, op, right } => Expr::BinaryOp {
            left: Box::new(copy_expr(left)),
            op: *op,
            right: Box::new(copy_expr(right)),
        },
        Expr::UnaryOp { op, expr: inner } => Expr::UnaryOp {
            op: *op,
            expr: Box::new(copy_expr(inner)),
        },
        Expr::Function { name, args } => {
            let mut copies: Vec<Expr> = Vec::new();
            let mut i: usize = 0;
            assert(forall|k: int|
                0 <= k < args@.len() ==> decreases_to!(expr => #[trigger] args@[k]));
            while i < args.len()
                invariant
                    i <= args@.len(),
                    copies@.len() == i,
                    forall|k: int|
                        0 <= k < args@.len() ==> decreases_to!(expr => #[trigger] args@[k]),
                    forall|k: int| 0 <= k < i ==> expr_view(#[trigger] copies@[k]) == expr_view(
                        args@[k],
                    ),
                decreases args@.len() - i,
            {
                let copy = copy_expr(&args[i]);
                copies.push(copy);
                i = i + 1;
            }
            let copy = Expr::Function { name: name.clone(), args: copies };
            assert(copy@ == expr@) by {
                assert(copy@->Function_args =~= expr@->Function_args);
            }
            copy
        },
    }
}

/// A copy of names.
pub fn copy_names(names: &Vec<String>) -> (copy: Vec<String>)
    ensures
        names_view(copy@) == names_view(names@),
{
    let mut copy: Vec<String> = Vec::new();
    let mut i: usize = 0;
    while i < names.len()
        invariant
            i <= names@.len(),
            names_view(copy@) == names_view(names@).take(i as int),
        decreases names@.len() - i,
    {
        let ghost before = names_view(copy@);
        let name = names[i].clone();
        copy.push(name);
        assert(names_view(copy@) =~= before.push(names@[i as int]@));
        assert(names_view(names@).take(i + 1) =~= names_view(names@).take(i as int).push(
            names@[i as int]@,
        ));
        i = i + 1;
    }
    assert(names_view(names@).take(i as int) =~= names_view(names@));
    copy
}

/// The variant of an expression shows in its view.
proof fn lemma_view_shape(e: Expr)
    ensures
        e is Column <==> expr_view(e) is Column,
        e is Literal <==> expr_view(e) is Literal,
        e is BinaryOp <==> expr_view(e) is BinaryOp,
        e matches Expr::Column(name) ==> expr_view(e) == ExprView::Column(name@),
        e matches Expr::Literal(lit) ==> expr_view(e) == ExprView::Literal(lit@),
        e matches Expr::BinaryOp { left, op, right } ==> expr_view(e) == (ExprView::BinaryOp {
            left: Box::new(expr_view(*left)),
            op,
            right: Box::new(expr_view(*right)),
        }),
{
}

/// Bring an expression to the form in which it is evaluated.
pub fn compile_expression(expr: &Expr) -> (compiled: CompiledExpression)
    ensures
        compiled@ == spec_compile(expr@),
    decreases expr,
{
    proof {
        lemma_view_shape(*expr);
        if expr is BinaryOp {
            lemma_view_shape(*expr->BinaryOp_left);
            lemma_view_shape(*expr->BinaryOp_right);
        }
    }
    match expr {
        Expr::Literal(Literal::Integer(n)) => {
            if *n == 1 {
                CompiledExpression::Constant(true)
            } else if *n == 0 {
                CompiledExpression::Constant(false)
            } else {
                CompiledExpression::Complex { expr: copy_expr(expr) }
            }
        },
        Expr::BinaryOp { left, op, right } => {
            match (&**left, &**right) {
                (Expr::Column(name), Expr::Literal(lit)) => {
                    let column = name.clone();
                    let value = copy_literal(lit);
                    match op {
                        BinaryOperator::Equal => CompiledExpression::ColumnEqValue {
                            column,
                            value,
                        },
                        BinaryOperator::NotEqual => CompiledExpression::ColumnCompare {
                            column,
                            op: ComparisonOp::Ne,
                            value,
                        },
                        BinaryOperator::LessThan => CompiledExpression::ColumnCompare {
                            column,
                            op: ComparisonOp::Lt,
                            value,
                        },
                        BinaryOperator::LessThanOrEqual => CompiledExpression::ColumnCompare {
                            column,
                            op: ComparisonOp::Lte,
                            value,
                        },
                        BinaryOperator::GreaterThan => CompiledExpression::ColumnCompare {
                            column,
                            op: ComparisonOp::Gt,
                            value,
                        },
                        BinaryOperator::GreaterThanOrEqual => CompiledExpression::ColumnCompare {
                            column,
                            op: ComparisonOp::Gte,
                            value,
                        },
                        _ => CompiledExpression::Complex { expr: copy_expr(expr) },
                    }
                },
                _ => match op {
                    BinaryOperator::And => CompiledExpression::And {
                        left: Box::new(compile_expression(left)),
                        right: Box::new(compile_expression(right)),
                    },
                    BinaryOperator::Or => CompiledExpression::Or {
                        left: Box::new(compile_expression(left)),
                        right: Box::new(compile_expression(right)),
                    },
                    _ => CompiledExpression::Complex { expr: copy_expr(expr) },
                },
            }
        },
        _ => CompiledExpression::Complex { expr: copy_expr(expr) },
    }
}

/// The filter of a scan under a WHERE clause.
fn compile_filter(where_clause: &Option<WhereClause>) -> (filter: Option<CompiledExpression>)
    ensures
        filter_view(filter) == spec_filter(where_view(*where_clause)),
{
    match where_clause {
        Some(wc) => Some(compile_expression(&wc.expr)),
        None => None,
    }
}

/// The output of a statement that changes rows.
fn affected() -> (columns: Vec<String>)
    ensures
        names_view(columns@) == affected_columns(),
{
    let mut columns: Vec<String> = Vec::new();
    columns.push("affected_rows".to_string());
    assert(names_view(columns@) =~= affected_columns());
    columns
}

impl ExecutionPlan {
    /// The plan for a parsed query.
    pub fn from_parsed_query(query: ParsedQuery) -> (plan: ExecutionPlan)
        ensures
            plan@ == spec_plan(query@),
    {
        let mut steps: Vec<ExecutionStep> = Vec::new();
        match query {
            ParsedQuery::Select { columns, table, where_clause, limit } => {
                let filter = compile_filter(&where_clause);
                let projected = copy_names(&columns);
                steps.push(ExecutionStep::Scan { table, filter });
                steps.push(ExecutionStep::Project { columns: projected });
                if let Some(count) = limit {
                    steps.push(ExecutionStep::Limit { count });
                }
                let plan = ExecutionPlan { steps, output_columns: columns };
                assert(plan@.steps =~= spec_plan(query@).steps);
                plan
            },
            ParsedQuery::Insert { table, columns, values } => {
                steps.push(ExecutionStep::Insert { table, columns, values });
                let plan = ExecutionPlan { steps, output_columns: affected() };
                assert(plan@.steps =~= spec_plan(query@).steps);
                plan
            },
            ParsedQuery::Update { table, assignments, where_clause } => {
                let filter = compile_filter(&where_clause);
                steps.push(ExecutionStep::Scan { table: table.clone(), filter });
                steps.push(ExecutionStep::Update { table, assignments });
                let plan = ExecutionPlan { steps, output_columns: affected() };
                assert(plan@.steps =~= spec_plan(query@).steps);
                plan
            },
            ParsedQuery::Delete { table, where_clause } => {
                let filter = compile_filter(&where_clause);
                steps.push(ExecutionStep::Scan { table: table.clone(), filter });
                steps.push(ExecutionStep::Delete { table });
                let plan = ExecutionPlan { steps, output_columns: affected() };
                assert(plan@.steps =~= spec_plan(query@).steps);
                plan
            },
            ParsedQuery::CreateTable { table: _, columns: _ } => {
                let plan = ExecutionPlan { steps, output_columns: Vec::new() };
                assert(plan@.steps =~= spec_plan(query@).steps);
                assert(plan@.output_columns =~= spec_plan(query@).output_columns);
                plan
            },
        }
    }
}

/// Whether one of the steps projects.
fn has_project(steps: &Vec<ExecutionStep>) -> (found: bool)
    ensures
        found == projects(steps_view(steps@)),
{
    let mut i: usize = 0;
    while i < steps.len()
        invariant
            i <= steps@.len(),
            forall|k: int| 0 <= k < i ==> !(#[trigger] steps_view(steps@)[k] is Project),
        decreases steps@.len() - i,
    {
        match &steps[i] {
            ExecutionStep::Project { .. } => {
                assert(steps_view(steps@)[i as int] is Project);
                return true;
            },
            _ => {},
        }
        i = i + 1;
    }
    false
}

/// Execute a query plan.
pub fn execute_plan(plan: ExecutionPlan) -> (result: Result<QueryResult, String>)
    ensures
        result is Ok,
        result->Ok_0@ == spec_execute(plan@),
{
    if has_project(&plan.steps) {
        let columns = plan.output_columns;
        let mut row: Vec<Value> = Vec::new();
        let mut i: usize = 0;
        let ghost names = names_view(columns@);
        while i < columns.len()
            invariant
                i <= columns@.len(),
                names == names_view(columns@),
                row@.map_values(|v: Value| v@) == names.take(i as int).map_values(
                    |c: Seq<char>| stand_in(c),
                ),
            decreases columns@.len() - i,
        {
            let ghost before = row@.map_values(|v: Value| v@);
            let mut text = "Value for ".to_string();
            text.append(columns[i].as_str());
            row.push(Value::Text(text));
            proof {
                assert(row@.map_values(|v: Value| v@) =~= before.push(stand_in(names[i as int])));
                assert(names.take(i + 1) =~= names.take(i as int).push(names[i as int]));
            }
            i = i + 1;
        }
        assert(names.take(i as int) =~= names);
        let mut rows: Vec<Vec<Value>> = Vec::new();
        rows.push(row);
        let affected_rows = rows.len();
        let result = QueryResult::Rows { columns, rows, affected_rows };
        assert(result@ == spec_execute(plan@)) by {
            assert(result@->Rows_rows =~= spec_execute(plan@)->Rows_rows);
        }
        Ok(result)
    } else {
        Ok(QueryResult::Modified { affected_rows: 1 })
    }
}

} // verus!
