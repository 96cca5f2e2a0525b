//! The logical plan: an immutable tree of table transformations, and the
//! schema-validating builder that constructs it.
//!
//! Every node carries (or delegates to its input) the exact schema its
//! computation would produce; the schema is derived once, when the node is
//! built, and never re-validated.

use vstd::prelude::*;
use vstd::string::StringExecFns;
use crate::datatypes::{
    contains_field, fields_view, find_name, first_with_name, has_name, lemma_merge_into_fresh,
    merge_all, names_unique, Field, FieldView, Schema,
};
use crate::error::{ErrView, PolarsError};
use crate::expr::{projection_schema, render_expr, render_expr_list, render_exprs, Expr};
use crate::frame::DataFrame;

verus! {

/// Closed set of join flavours.
#[derive(Debug)]
pub enum JoinType {
    Left,
    Inner,
    Outer,
}

impl Clone for JoinType {
    fn clone(&self) -> (r: JoinType)
        ensures
            r == self,
    {
        match self {
            JoinType::Left => JoinType::Left,
            JoinType::Inner => JoinType::Inner,
            JoinType::Outer => JoinType::Outer,
        }
    }
}

/// A node of the plan tree.  `Selection` and `Sort` cannot change columns
/// and delegate to their input's schema; every other non-leaf node carries a
/// schema snapshot computed at construction.
#[derive(Debug)]
pub enum LogicalPlan {
    /// Filter rows on a boolean predicate.
    Selection { input: Box<LogicalPlan>, predicate: Expr },
    /// Scan a CSV file.
    CsvScan { path: String, schema: Schema, has_header: bool, delimiter: Option<u8> },
    /// Scan an in-memory table.
    DataFrameScan { df: DataFrame, schema: Schema },
    /// Vertical selection: emit the given expressions' columns.
    Projection { expr: Vec<Expr>, input: Box<LogicalPlan>, schema: Schema },
    /// Order rows by one column.
    Sort { input: Box<LogicalPlan>, column: String, reverse: bool },
    /// Group by key columns and compute aggregate expressions.
    Aggregate { input: Box<LogicalPlan>, keys: Vec<String>, aggs: Vec<Expr>, schema: Schema },
    /// Combine two plans by matching one key column per side.
    Join {
        input_left: Box<LogicalPlan>,
        input_right: Box<LogicalPlan>,
        schema: Schema,
        how: JoinType,
        left_on: String,
        right_on: String,
    },
}

impl Clone for LogicalPlan {
    /// A structural copy: the clone derives the same schema and renders
    /// identically.
    fn clone(&self) -> (r: LogicalPlan)
        ensures
            plan_schema(r) == plan_schema(*self),
            render_plan(r) == render_plan(*self),
        decreases self,
    {
        match self {
            LogicalPlan::Selection { input, predicate } => LogicalPlan::Selection {
                input: Box::new((**input).clone()),
                predicate: predicate.clone(),
            },
            LogicalPlan::CsvScan { path, schema, has_header, delimiter } => LogicalPlan::CsvScan {
                path: path.clone(),
                schema: schema.clone(),
                has_header: *has_header,
                delimiter: *delimiter,
            },
            LogicalPlan::DataFrameScan { df, schema } => LogicalPlan::DataFrameScan {
                df: df.clone(),
                schema: schema.clone(),
            },
            LogicalPlan::Projection { expr, input, schema } => {
                let e = expr.clone();
                proof {
                    assert forall|i: int| 0 <= i < expr@.len() implies e@[i] == expr@[i] by {
                        assert(cloned::<Expr>(expr[i], e[i]));
                    };
                    assert(e@ =~= expr@);
                }
                LogicalPlan::Projection {
                    expr: e,
                    input: Box::new((**input).clone()),
                    schema: schema.clone(),
                }
            },
            LogicalPlan::Sort { input, column, reverse } => LogicalPlan::Sort {
                input: Box::new((**input).clone()),
                column: column.clone(),
                reverse: *reverse,
            },
            LogicalPlan::Aggregate { input, keys, aggs, schema } => {
                let k = keys.clone();
                let a = aggs.clone();
                proof {
                    assert forall|i: int| 0 <= i < keys@.len() implies k@[i] == keys@[i] by {
                        assert(cloned::<String>(keys[i], k[i]));
                    };
                    assert(k@ =~= keys@);
                    assert forall|i: int| 0 <= i < aggs@.len() implies a@[i] == aggs@[i] by {
                        assert(cloned::<Expr>(aggs[i], a[i]));
                    };
                    assert(a@ =~= aggs@);
                }
                LogicalPlan::Aggregate {
                    input: Box::new((**input).clone()),
                    keys: k,
                    aggs: a,
                    schema: schema.clone(),
                }
            },
            LogicalPlan::Join { input_left, input_right, schema, how, left_on, right_on } => {
                LogicalPlan::Join {
                    input_left: Box::new((**input_left).clone()),
                    input_right: Box::new((**input_right).clone()),
                    schema: schema.clone(),
                    how: how.clone(),
                    left_on: left_on.clone(),
                    right_on: right_on.clone(),
                }
            },
        }
    }
}

/// The schema a plan node exposes: its own snapshot, or its input's for the
/// column-preserving `Selection` and `Sort`.
pub open spec fn plan_schema(p: LogicalPlan) -> Seq<FieldView>
    decreases p,
{
    match p {
        LogicalPlan::Selection { input, .. } => plan_schema(*input),
        LogicalPlan::CsvScan { schema, .. } => schema@,
        LogicalPlan::DataFrameScan { schema, .. } => schema@,
        LogicalPlan::Projection { schema, .. } => schema@,
        LogicalPlan::Sort { input, .. } => plan_schema(*input),
        LogicalPlan::Aggregate { schema, .. } => schema@,
        LogicalPlan::Join { schema, .. } => schema@,
    }
}

impl LogicalPlan {
    /// The output schema of this node: the column set executing it would
    /// produce.
    pub fn schema(&self) -> (r: &Schema)
        ensures
            r@ == plan_schema(*self),
        decreases self,
    {
        match self {
            LogicalPlan::Selection { input, .. } => input.schema(),
            LogicalPlan::CsvScan { schema, .. } => schema,
            LogicalPlan::DataFrameScan { schema, .. } => schema,
            LogicalPlan::Projection { schema, .. } => schema,
            LogicalPlan::Sort { input, .. } => input.schema(),
            LogicalPlan::Aggregate { schema, .. } => schema,
            LogicalPlan::Join { schema, .. } => schema,
        }
    }
}

/// The names of the fields, in order.
pub open spec fn names_of(fs: Seq<FieldView>) -> Seq<Seq<char>> {
    Seq::new(fs.len(), |i: int| fs[i].name)
}

/// Comma-separated quoted names, in order.
pub open spec fn render_names(ns: Seq<Seq<char>>) -> Seq<char>
    decreases ns.len(),
{
    if ns.len() == 0 {
        Seq::empty()
    } else if ns.len() == 1 {
        "\""@ + ns[0] + "\""@
    } else {
        "\""@ + ns[0] + "\", "@ + render_names(ns.drop_first())
    }
}

/// How many leading column names a table scan renders.
pub open spec fn table_prefix_len(n: int) -> int {
    if n < 4 {
        n
    } else {
        4
    }
}

/// Deterministic rendering of a plan tree: each node's label and payload,
/// then the rendering of its input(s).  A table scan renders a bounded
/// prefix of its column names, never row data.
pub open spec fn render_plan(p: LogicalPlan) -> Seq<char>
    decreases p,
{
    match p {
        LogicalPlan::Selection { input, predicate } => "FILTER "@ + render_expr(predicate)
            + "\nFROM\n"@ + render_plan(*input),
        LogicalPlan::CsvScan { path, .. } => "CSV SCAN "@ + path@,
        LogicalPlan::DataFrameScan { schema, .. } => "TABLE: ["@ + render_names(
            names_of(schema@).take(table_prefix_len(schema@.len() as int)),
        ) + "]"@,
        LogicalPlan::Projection { expr, input, .. } => "SELECT ["@ + render_exprs(expr@)
            + "] FROM\n"@ + render_plan(*input),
        LogicalPlan::Sort { input, column, .. } => "SORT BY \""@ + column@ + "\"\n"@ + render_plan(
            *input,
        ),
        LogicalPlan::Aggregate { input, keys, aggs, .. } => "AGGREGATE ["@ + render_exprs(aggs@)
            + "] BY ["@ + render_names(names_view(keys@)) + "]\nFROM\n"@ + render_plan(*input),
        LogicalPlan::Join { input_left, input_right, left_on, right_on, .. } => "JOIN ("@
            + render_plan(*input_left) + ") WITH ("@ + render_plan(*input_right) + ") ON (left: \""@
            + left_on@ + "\" right: \""@ + right_on@ + "\")"@,
    }
}

/// Mirrors `render_names` from index `i` on.
fn render_names_from(ns: &Vec<String>, i: usize) -> (r: String)
    requires
        i <= ns@.len(),
    ensures
        r@ == render_names(names_view(ns@).skip(i as int)),
    decreases ns@.len() - i,
{
    if i == ns.len() {
        proof {
            assert(names_view(ns@).skip(i as int) =~= Seq::<Seq<char>>::empty());
        }
        String::new()
    } else if i + 1 == ns.len() {
        let mut s = String::from_str("\"");
        s.append(ns[i].as_str());
        s.append("\"");
        proof {
            assert(names_view(ns@).skip(i as int)[0] == ns@[i as int]@);
        }
        s
    } else {
        let mut s = String::from_str("\"");
        s.append(ns[i].as_str());
        s.append("\", ");
        let rest = render_names_from(ns, i + 1);
        s.append(rest.as_str());
        proof {
            assert(names_view(ns@).skip(i as int)[0] == ns@[i as int]@);
            assert(names_view(ns@).skip(i as int).drop_first() =~= names_view(ns@).skip(
                i as int + 1,
            ));
        }
        s
    }
}

impl LogicalPlan {
    /// Deterministic, human-readable rendering of the plan tree, for
    /// diagnostics.
    #[verifier::loop_isolation(false)]
    pub fn describe(&self) -> (r: String)
        ensures
            r@ == render_plan(*self),
        decreases self,
    {
        match self {
            LogicalPlan::Selection { input, predicate } => {
                let mut s = String::from_str("FILTER ");
                let p = predicate.describe();
                s.append(p.as_str());
                s.append("\nFROM\n");
                let sub = input.describe();
                s.append(sub.as_str());
                s
            },
            LogicalPlan::CsvScan { path, .. } => {
                let mut s = String::from_str("CSV SCAN ");
                s.append(path.as_str());
                s
            },
            LogicalPlan::DataFrameScan { schema, .. } => {
                let fields = schema.fields();
                let limit: usize = if fields.len() < 4 {
                    fields.len()
                } else {
                    4
                };
                let mut ns: Vec<String> = Vec::new();
                let mut i: usize = 0;
                while i < limit
                    invariant
                        i <= limit,
                        ns@.len() == i,
                        forall|k: int| 0 <= k < i ==> ns@[k]@ == schema@[k].name,
                    decreases limit - i,
                {
                    ns.push(fields[i].name().clone());
                    i += 1;
                }
                proof {
                    assert(names_view(ns@) =~= names_of(schema@).take(
                        table_prefix_len(schema@.len() as int),
                    ));
                    assert(names_view(ns@).skip(0) =~= names_view(ns@));
                }
                let mut s = String::from_str("TABLE: [");
                let body = render_names_from(&ns, 0);
                s.append(body.as_str());
                s.append("]");
                s
            },
            LogicalPlan::Projection { expr, input, .. } => {
                let mut s = String::from_str("SELECT [");
                let es = render_expr_list(expr);
                s.append(es.as_str());
                s.append("] FROM\n");
                let sub = input.describe();
                s.append(sub.as_str());
                s
            },
            LogicalPlan::Sort { input, column, .. } => {
                let mut s = String::from_str("SORT BY \"");
                s.append(column.as_str());
                s.append("\"\n");
                let sub = input.describe();
                s.append(sub.as_str());
                s
            },
            LogicalPlan::Aggregate { input, keys, aggs, .. } => {
                let mut s = String::from_str("AGGREGATE [");
                let es = render_expr_list(aggs);
                s.append(es.as_str());
                s.append("] BY [");
                proof {
                    assert(names_view(keys@).skip(0) =~= names_view(keys@));
                }
                let ks = render_names_from(keys, 0);
                s.append(ks.as_str());
                s.append("]\nFROM\n");
                let sub = input.describe();
                s.append(sub.as_str());
                s
            },
            LogicalPlan::Join { input_left, input_right, left_on, right_on, .. } => {
                let mut s = String::from_str("JOIN (");
                let l = input_left.describe();
                s.append(l.as_str());
                s.append(") WITH (");
                let rr = input_right.describe();
                s.append(rr.as_str());
                s.append(") ON (left: \"");
                s.append(left_on.as_str());
                s.append("\" right: \"");
                s.append(right_on.as_str());
                s.append("\")");
                s
            },
        }
    }
}

impl LogicalPlan {
    /// Join keys are not validated when the node is built: execution
    /// resolves them against the child schemas.  This check makes that
    /// execution-time failure explicit, `UnknownField` naming the first
    /// missing key (left side checked first).  Every other node passes.
    pub fn check_join_keys(&self) -> (r: Result<(), PolarsError>)
        ensures
            match r {
                Ok(u) => self matches LogicalPlan::Join {
                    input_left,
                    input_right,
                    left_on,
                    right_on,
                    ..
                } ==> has_name(plan_schema(**input_left), left_on@) && has_name(
                    plan_schema(**input_right),
                    right_on@,
                ),
                Err(e) => {
                    &&& self matches LogicalPlan::Join { input_left, input_right, left_on, right_on, .. }
                    &&& ((!has_name(plan_schema(**input_left), left_on@) && e@
                        == ErrView::UnknownField(left_on@)) || (has_name(
                        plan_schema(**input_left),
                        left_on@,
                    ) && !has_name(plan_schema(**input_right), right_on@) && e@
                        == ErrView::UnknownField(right_on@)))
                },
            },
    {
        match self {
            LogicalPlan::Join { input_left, input_right, left_on, right_on, .. } => {
                match input_left.schema().field_with_name(left_on.as_str()) {
                    Ok(_f) => match input_right.schema().field_with_name(right_on.as_str()) {
                        Ok(_g) => Ok(()),
                        Err(e) => Err(e),
                    },
                    Err(e) => Err(e),
                }
            },
            _ => Ok(()),
        }
    }
}

/// The views of a sequence of names, in order.
pub open spec fn names_view(ns: Seq<String>) -> Seq<Seq<char>> {
    Seq::new(ns.len(), |i: int| ns[i]@)
}

/// Resolve each group key against the input fields, preserving key order;
/// an unresolved key is a construction error.
pub open spec fn resolve_keys(keys: Seq<Seq<char>>, fs: Seq<FieldView>) -> Result<
    Seq<FieldView>,
    ErrView,
>
    decreases keys.len(),
{
    if keys.len() == 0 {
        Ok(Seq::empty())
    } else if has_name(fs, keys[0]) {
        match resolve_keys(keys.drop_first(), fs) {
            Ok(rest) => Ok(seq![first_with_name(fs, keys[0])] + rest),
            Err(e) => Err(e),
        }
    } else {
        Err(ErrView::UnknownField(keys[0]))
    }
}

/// The output schema of grouping by `keys` and computing `aggs` over input
/// fields `fs`: the resolved key columns first, then the aggregate outputs,
/// merged; a key colliding with a different aggregate output of the same
/// name is a conflict, an identical one is emitted once.
pub open spec fn groupby_schema(keys: Seq<Seq<char>>, aggs: Seq<Expr>, fs: Seq<FieldView>) -> Result<
    Seq<FieldView>,
    ErrView,
> {
    match resolve_keys(keys, fs) {
        Ok(kf) => match projection_schema(aggs, fs) {
            Ok(af) => match merge_all(Seq::empty(), seq![kf, af]) {
                Ok(out) => Ok(out),
                Err(n) => Err(ErrView::SchemaConflict(n)),
            },
            Err(e) => Err(e),
        },
        Err(e) => Err(e),
    }
}

/// The output fields of joining right fields `rfs` onto `acc`, left fields
/// first.  A right field identical to one already present is renamed to
/// `<name>_right`; a name carried with a different identity, before or
/// after that rename, is a conflict.
pub open spec fn join_fields(acc: Seq<FieldView>, rfs: Seq<FieldView>) -> Result<
    Seq<FieldView>,
    ErrView,
>
    decreases rfs.len(),
{
    if rfs.len() == 0 {
        Ok(acc)
    } else {
        let f = rfs[0];
        if contains_field(acc, f) {
            let renamed = FieldView { name: f.name + "_right"@, dtype: f.dtype, nullable: f.nullable };
            if has_name(acc, renamed.name) {
                Err(ErrView::SchemaConflict(renamed.name))
            } else {
                join_fields(acc.push(renamed), rfs.drop_first())
            }
        } else if has_name(acc, f.name) {
            Err(ErrView::SchemaConflict(f.name))
        } else {
            join_fields(acc.push(f), rfs.drop_first())
        }
    }
}

/// The output schema of a join: left fields in order, then right fields,
/// with full-identity collisions renamed to `<name>_right`.
pub open spec fn join_schema(lfs: Seq<FieldView>, rfs: Seq<FieldView>) -> Result<
    Seq<FieldView>,
    ErrView,
> {
    join_fields(lfs, rfs)
}

/// A join output schema carries pairwise distinct names whenever the left
/// fields do: a rename that would duplicate a name is rejected, never
/// emitted.
pub proof fn lemma_join_fields_unique(acc: Seq<FieldView>, rfs: Seq<FieldView>)
    requires
        names_unique(acc),
        join_fields(acc, rfs) is Ok,
    ensures
        names_unique(join_fields(acc, rfs)->Ok_0),
    decreases rfs.len(),
{
    if rfs.len() == 0 {
    } else {
        let f = rfs[0];
        let g = if contains_field(acc, f) {
            FieldView { name: f.name + "_right"@, dtype: f.dtype, nullable: f.nullable }
        } else {
            f
        };
        assert(!has_name(acc, g.name));
        assert forall|i: int, j: int| 0 <= i < j < acc.push(g).len() implies acc.push(g)[i].name
            != acc.push(g)[j].name by {
            if j < acc.len() {
            } else {
                assert(acc.push(g)[i] == acc[i]);
                if acc[i].name == g.name {
                    assert(has_name(acc, g.name));
                }
            }
        };
        lemma_join_fields_unique(acc.push(g), rfs.drop_first());
    }
}

/// Column-preserving nodes expose exactly their input's schema: a filter or
/// a sort over any plan, with any predicate or any sort column, has the
/// schema of its input.
pub proof fn lemma_pass_through_schema(p: LogicalPlan)
    ensures
        p matches LogicalPlan::Selection { input, .. } ==> plan_schema(p) == plan_schema(*input),
        p matches LogicalPlan::Sort { input, .. } ==> plan_schema(p) == plan_schema(*input),
{
}

/// Key columns always precede the aggregate-derived columns in a groupby
/// output schema: when the keys resolve with pairwise distinct names and no
/// aggregate output collides with a key name, the output is exactly the key
/// fields followed by the aggregate fields.
pub proof fn lemma_groupby_keys_first(keys: Seq<Seq<char>>, aggs: Seq<Expr>, fs: Seq<FieldView>)
    requires
        keys.len() > 0,
        resolve_keys(keys, fs) is Ok,
        names_unique(resolve_keys(keys, fs)->Ok_0),
        projection_schema(aggs, fs) is Ok,
        forall|i: int| 0 <= i < projection_schema(aggs, fs)->Ok_0.len() ==> !has_name(
            resolve_keys(keys, fs)->Ok_0,
            #[trigger] projection_schema(aggs, fs)->Ok_0[i].name,
        ),
    ensures
        groupby_schema(keys, aggs, fs) == Ok::<Seq<FieldView>, ErrView>(
            resolve_keys(keys, fs)->Ok_0 + projection_schema(aggs, fs)->Ok_0,
        ),
{
    let kf = resolve_keys(keys, fs)->Ok_0;
    let af = projection_schema(aggs, fs)->Ok_0;
    assert(forall|i: int| 0 <= i < kf.len() ==> !has_name(Seq::empty(), #[trigger] kf[i].name));
    lemma_merge_into_fresh(Seq::empty(), kf);
    assert(Seq::<FieldView>::empty() + kf =~= kf);
    crate::expr::lemma_project_fields_unique(aggs, fs, Seq::empty());
    lemma_merge_into_fresh(kf, af);
    let ss = seq![kf, af];
    assert(ss.drop_first() =~= seq![af]);
    assert(seq![af].drop_first() =~= Seq::<Seq<FieldView>>::empty());
    assert(merge_all(kf + af, Seq::empty()) == Ok::<Seq<FieldView>, Seq<char>>(kf + af));
    assert(merge_all(kf, seq![af]) == Ok::<Seq<FieldView>, Seq<char>>(kf + af));
}

/// Scan `fields` for a field identical to `f`.
fn find_field(fields: &Vec<Field>, f: &Field) -> (r: bool)
    ensures
        r == contains_field(fields_view(fields@), f@),
{
    let mut i: usize = 0;
    while i < fields.len()
        invariant
            i <= fields.len(),
            forall|k: int| 0 <= k < i ==> fields@[k]@ != f@,
        decreases fields.len() - i,
    {
        if fields[i].same(f) {
            proof {
                assert(fields_view(fields@)[i as int] == f@);
            }
            return true;
        }
        i += 1;
    }
    proof {
        assert forall|k: int| 0 <= k < fields_view(fields@).len() implies fields_view(fields@)[k]
            != f@ by {
            assert(fields@[k]@ != f@);
        };
    }
    false
}

/// Mirrors `join_fields` over vectors of fields.
#[verifier::loop_isolation(false)]
fn join_fields_of(left: &Vec<Field>, right: &Vec<Field>) -> (r: Result<Vec<Field>, PolarsError>)
    ensures
        match r {
            Ok(v) => join_fields(fields_view(left@), fields_view(right@)) == Ok::<
                Seq<FieldView>,
                ErrView,
            >(fields_view(v@)),
            Err(e) => join_fields(fields_view(left@), fields_view(right@)) matches Err(ev) && ev
                == e@,
        },
{
    let ghost rfs = fields_view(right@);
    let mut out: Vec<Field> = Vec::new();
    let mut i: usize = 0;
    while i < left.len()
        invariant
            i <= left.len(),
            fields_view(out@) =~= fields_view(left@).take(i as int),
        decreases left.len() - i,
    {
        out.push(left[i].clone());
        i += 1;
    }
    proof {
        assert(fields_view(left@).take(left@.len() as int) =~= fields_view(left@));
        assert(rfs.skip(0) =~= rfs);
    }
    let mut j: usize = 0;
    while j < right.len()
        invariant
            j <= right.len(),
            join_fields(fields_view(out@), rfs.skip(j as int)) == join_fields(
                fields_view(left@),
                rfs,
            ),
        decreases right.len() - j,
    {
        let ghost acc = fields_view(out@);
        let ghost su = rfs.skip(j as int);
        proof {
            assert(su[0] == right@[j as int]@);
            assert(su.drop_first() =~= rfs.skip(j as int + 1));
        }
        let f = &right[j];
        if find_field(&out, f) {
            let mut n = f.name().clone();
            n.append("_right");
            match find_name(&out, n.as_str()) {
                Some(_k) => {
                    return Err(PolarsError::SchemaConflict(n));
                },
                None => {
                    let g = Field::new(n.as_str(), f.data_type(), f.is_nullable());
                    let ghost gv = g@;
                    out.push(g);
                    proof {
                        assert(fields_view(out@) =~= acc.push(gv));
                    }
                },
            }
        } else {
            match find_name(&out, f.name().as_str()) {
                Some(_k) => {
                    return Err(PolarsError::SchemaConflict(f.name().clone()));
                },
                None => {
                    let g = f.clone();
                    out.push(g);
                    proof {
                        assert(fields_view(out@) =~= acc.push(su[0]));
                    }
                },
            }
        }
        j += 1;
    }
    proof {
        assert(rfs.skip(right@.len() as int) =~= Seq::<FieldView>::empty());
    }
    Ok(out)
}

/// Stepwise, schema-validating construction of a `LogicalPlan`.  Each step
/// consumes the builder and produces a new one whose plan is itself valid:
/// schema derivation happens eagerly and fails fast.
pub struct LogicalPlanBuilder(pub LogicalPlan);

impl From<LogicalPlan> for LogicalPlanBuilder {
    fn from(lp: LogicalPlan) -> (r: Self) {
        LogicalPlanBuilder(lp)
    }
}

impl vstd::std_specs::convert::FromSpecImpl<LogicalPlan> for LogicalPlanBuilder {
    open spec fn obeys_from_spec() -> bool {
        true
    }

    open spec fn from_spec(lp: LogicalPlan) -> Self {
        LogicalPlanBuilder(lp)
    }
}

impl LogicalPlanBuilder {
    /// Start a plan from a CSV scan with a known column layout.
    pub fn scan_csv(path: String, schema: Schema, has_header: bool, delimiter: Option<u8>) -> (r:
        Self)
        ensures
            r.0 matches LogicalPlan::CsvScan {
                path: p,
                schema: s,
                has_header: h,
                delimiter: d,
            } && p == path && s == schema && h == has_header && d == delimiter,
    {
        LogicalPlanBuilder(LogicalPlan::CsvScan { path, schema, has_header, delimiter })
    }

    /// Start a plan from an in-memory table, snapshotting its column layout.
    pub fn from_existing_df(df: DataFrame) -> (r: Self)
        ensures
            r.0 matches LogicalPlan::DataFrameScan { df: d, schema: s } && d == df && s@ == df@,
            plan_schema(r.0) == df@,
    {
        let schema = df.schema().clone();
        LogicalPlanBuilder(LogicalPlan::DataFrameScan { df, schema })
    }

    /// Emit the columns the expressions produce, in expression-list order;
    /// fails on an absent input column or colliding output names.
    pub fn project(self, expr: Vec<Expr>) -> (r: Result<Self, PolarsError>)
        ensures
            match r {
                Ok(b) => {
                    &&& b.0 matches LogicalPlan::Projection { expr: e, input, schema }
                    &&& e == expr
                    &&& *input == self.0
                    &&& projection_schema(expr@, plan_schema(self.0)) == Ok::<
                        Seq<FieldView>,
                        ErrView,
                    >(schema@)
                    &&& plan_schema(b.0) == schema@
                },
                Err(e) => projection_schema(expr@, plan_schema(self.0)) matches Err(ev) && ev
                    == e@,
            },
    {
        let schema = match crate::expr::expressions_to_schema(&expr, self.0.schema()) {
            Ok(s) => s,
            Err(e) => {
                return Err(e);
            },
        };
        Ok(LogicalPlanBuilder(LogicalPlan::Projection { expr, input: Box::new(self.0), schema }))
    }

    /// Apply a filter.  Rows change, columns do not: the new node exposes
    /// its input's schema.
    pub fn filter(self, predicate: Expr) -> (r: Self)
        ensures
            r.0 matches LogicalPlan::Selection { input, predicate: p } && *input == self.0 && p
                == predicate,
            plan_schema(r.0) == plan_schema(self.0),
    {
        LogicalPlanBuilder(LogicalPlan::Selection { input: Box::new(self.0), predicate })
    }

    /// Group by `keys` and compute `aggs`: resolved key columns first, then
    /// aggregate outputs; fails on an unresolved key, an absent aggregate
    /// input column, or a name carried with two identities.
    pub fn groupby(self, keys: Vec<String>, aggs: Vec<Expr>) -> (r: Result<Self, PolarsError>)
        ensures
            match r {
                Ok(b) => {
                    &&& b.0 matches LogicalPlan::Aggregate { input, keys: k, aggs: a, schema }
                    &&& *input == self.0
                    &&& k == keys
                    &&& a == aggs
                    &&& groupby_schema(names_view(keys@), aggs@, plan_schema(self.0)) == Ok::<
                        Seq<FieldView>,
                        ErrView,
                    >(schema@)
                    &&& plan_schema(b.0) == schema@
                },
                Err(e) => groupby_schema(names_view(keys@), aggs@, plan_schema(self.0)) matches Err(
                    ev,
                ) && ev == e@,
            },
    {
        let current_schema = self.0.schema();
        let key_fields = match resolve_key_fields(&keys, current_schema) {
            Ok(v) => v,
            Err(e) => {
                return Err(e);
            },
        };
        let schema1 = Schema::new(key_fields);
        let schema2 = match crate::expr::expressions_to_schema(&aggs, current_schema) {
            Ok(s) => s,
            Err(e) => {
                return Err(e);
            },
        };
        let ghost s1v = schema1@;
        let ghost s2v = schema2@;
        let both = vec![schema1, schema2];
        proof {
            assert(crate::datatypes::schemas_view(both@) =~= seq![s1v, s2v]);
        }
        let schema = match Schema::try_merge(&both) {
            Ok(s) => s,
            Err(e) => {
                return Err(e);
            },
        };
        Ok(
            LogicalPlanBuilder(
                LogicalPlan::Aggregate { input: Box::new(self.0), keys, aggs, schema },
            ),
        )
    }

    /// Finish construction, yielding the immutable plan.
    pub fn build(self) -> (r: LogicalPlan)
        ensures
            r == self.0,
    {
        self.0
    }

    /// Order rows by one column.  Rows move, columns do not: the new node
    /// exposes its input's schema.
    pub fn sort(self, by_column: String, reverse: bool) -> (r: Self)
        ensures
            r.0 matches LogicalPlan::Sort { input, column, reverse: rev } && *input == self.0
                && column == by_column && rev == reverse,
            plan_schema(r.0) == plan_schema(self.0),
    {
        LogicalPlanBuilder(LogicalPlan::Sort { input: Box::new(self.0), column: by_column, reverse })
    }

    /// Join with `other`: left columns in order, then right columns, a right
    /// column identical to a left one renamed to `<name>_right`; fails when
    /// a name would be carried with two identities.  The join keys are not
    /// validated here: an absent key surfaces at execution time.
    pub fn join(self, other: LogicalPlan, how: JoinType, left_on: String, right_on: String) -> (r:
        Result<Self, PolarsError>)
        ensures
            match r {
                Ok(b) => {
                    &&& b.0 matches LogicalPlan::Join {
                        input_left,
                        input_right,
                        schema,
                        how: h,
                        left_on: lo,
                        right_on: ro,
                    }
                    &&& *input_left == self.0
                    &&& *input_right == other
                    &&& h == how
                    &&& lo == left_on
                    &&& ro == right_on
                    &&& join_schema(plan_schema(self.0), plan_schema(other)) == Ok::<
                        Seq<FieldView>,
                        ErrView,
                    >(schema@)
                    &&& plan_schema(b.0) == schema@
                },
                Err(e) => join_schema(plan_schema(self.0), plan_schema(other)) matches Err(ev)
                    && ev == e@,
            },
    {
        let joined = {
            let lv = self.0.schema().fields();
            let rv = other.schema().fields();
            proof {
                assert(fields_view(lv@) =~= plan_schema(self.0));
                assert(fields_view(rv@) =~= plan_schema(other));
            }
            join_fields_of(lv, rv)
        };
        let fields = match joined {
            Ok(v) => v,
            Err(e) => {
                return Err(e);
            },
        };
        let schema = Schema::new(fields);
        Ok(
            LogicalPlanBuilder(
                LogicalPlan::Join {
                    input_left: Box::new(self.0),
                    input_right: Box::new(other),
                    schema,
                    how,
                    left_on,
                    right_on,
                },
            ),
        )
    }
}

/// Mirrors `resolve_keys`: the input field each key names, in key order.
#[verifier::loop_isolation(false)]
fn resolve_key_fields(keys: &Vec<String>, schema: &Schema) -> (r: Result<Vec<Field>, PolarsError>)
    ensures
        match r {
            Ok(v) => resolve_keys(names_view(keys@), schema@) == Ok::<Seq<FieldView>, ErrView>(
                fields_view(v@),
            ),
            Err(e) => resolve_keys(names_view(keys@), schema@) matches Err(ev) && ev == e@,
        },
{
    let ghost ks = names_view(keys@);
    let mut out: Vec<Field> = Vec::new();
    let mut i: usize = 0;
    proof {
        assert(ks.skip(0) =~= ks);
        if resolve_keys(ks, schema@) is Ok {
            assert(Seq::<FieldView>::empty() + resolve_keys(ks, schema@)->Ok_0 =~= resolve_keys(
                ks,
                schema@,
            )->Ok_0);
        }
        assert(fields_view(out@) =~= Seq::<FieldView>::empty());
    }
    while i < keys.len()
        invariant
            i <= keys.len(),
            match resolve_keys(ks.skip(i as int), schema@) {
                Ok(rest) => resolve_keys(ks, schema@) == Ok::<Seq<FieldView>, ErrView>(
                    fields_view(out@) + rest,
                ),
                Err(e) => resolve_keys(ks, schema@) == Err::<Seq<FieldView>, ErrView>(e),
            },
        decreases keys.len() - i,
    {
        let ghost su = ks.skip(i as int);
        let ghost acc = fields_view(out@);
        proof {
            assert(su[0] == keys@[i as int]@);
            assert(su.drop_first() =~= ks.skip(i as int + 1));
        }
        match schema.field_with_name(keys[i].as_str()) {
            Ok(f) => {
                let ghost fv = f@;
                let g = f.clone();
                out.push(g);
                proof {
                    assert(fields_view(out@) =~= acc.push(fv));
                    let rec = resolve_keys(su.drop_first(), schema@);
                    if rec is Ok {
                        assert(resolve_keys(su, schema@) == Ok::<Seq<FieldView>, ErrView>(
                            seq![fv] + rec->Ok_0,
                        ));
                        assert(acc + (seq![fv] + rec->Ok_0) =~= acc.push(fv) + rec->Ok_0);
                    }
                }
            },
            Err(e) => {
                return Err(e);
            },
        }
        i += 1;
    }
    proof {
        assert(ks.skip(keys@.len() as int) =~= Seq::<Seq<char>>::empty());
        assert(fields_view(out@) + Seq::<FieldView>::empty() =~= fields_view(out@));
    }
    Ok(out)
}

} // verus!
