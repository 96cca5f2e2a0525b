//! Expressions as the plan layer sees them.
//!
//! The plan layer needs exactly one capability from an expression: given an
//! input schema, derive the (name, type, nullability) of the column the
//! expression would produce.  `expr_field` states that derivation;
//! `Expr::resulting_field` computes it.

use vstd::prelude::*;
use vstd::string::StringExecFns;
use crate::datatypes::{
    find_name, fields_view, first_with_name, has_name, names_unique, DataType, Field, FieldView,
    Schema,
};
use crate::error::{ErrView, PolarsError};

verus! {

/// A literal value carried by an expression.  Exactly one variant is
/// populated.  Float variants carry the IEEE-754 bit pattern of the value:
/// the plan layer never computes with the number, it only tracks its type.
#[derive(Debug)]
pub enum ScalarValue {
    Null,
    /// A binary true or false.
    Boolean(bool),
    /// A UTF8 encoded string.
    Utf8(String),
    /// An unsigned 8-bit integer number.
    UInt8(u8),
    /// An unsigned 16-bit integer number.
    UInt16(u16),
    /// An unsigned 32-bit integer number.
    UInt32(u32),
    /// An unsigned 64-bit integer number.
    UInt64(u64),
    /// An 8-bit integer number.
    Int8(i8),
    /// A 16-bit integer number.
    Int16(i16),
    /// A 32-bit integer number.
    Int32(i32),
    /// A 64-bit integer number.
    Int64(i64),
    /// The bit pattern of a 32-bit floating point number.
    Float32(u32),
    /// The bit pattern of a 64-bit floating point number.
    Float64(u64),
}

impl Clone for ScalarValue {
    fn clone(&self) -> (r: ScalarValue)
        ensures
            r == self,
    {
        match self {
            ScalarValue::Null => ScalarValue::Null,
            ScalarValue::Boolean(v) => ScalarValue::Boolean(*v),
            ScalarValue::Utf8(v) => ScalarValue::Utf8(v.clone()),
            ScalarValue::UInt8(v) => ScalarValue::UInt8(*v),
            ScalarValue::UInt16(v) => ScalarValue::UInt16(*v),
            ScalarValue::UInt32(v) => ScalarValue::UInt32(*v),
            ScalarValue::UInt64(v) => ScalarValue::UInt64(*v),
            ScalarValue::Int8(v) => ScalarValue::Int8(*v),
            ScalarValue::Int16(v) => ScalarValue::Int16(*v),
            ScalarValue::Int32(v) => ScalarValue::Int32(*v),
            ScalarValue::Int64(v) => ScalarValue::Int64(*v),
            ScalarValue::Float32(v) => ScalarValue::Float32(*v),
            ScalarValue::Float64(v) => ScalarValue::Float64(*v),
        }
    }
}

impl ScalarValue {
    /// The type tag of each typed variant; none for `Null`.
    pub open spec fn spec_datatype(self) -> Option<DataType> {
        match self {
            ScalarValue::Null => None,
            ScalarValue::Boolean(_) => Some(DataType::Boolean),
            ScalarValue::Utf8(_) => Some(DataType::Utf8),
            ScalarValue::UInt8(_) => Some(DataType::UInt8),
            ScalarValue::UInt16(_) => Some(DataType::UInt16),
            ScalarValue::UInt32(_) => Some(DataType::UInt32),
            ScalarValue::UInt64(_) => Some(DataType::UInt64),
            ScalarValue::Int8(_) => Some(DataType::Int8),
            ScalarValue::Int16(_) => Some(DataType::Int16),
            ScalarValue::Int32(_) => Some(DataType::Int32),
            ScalarValue::Int64(_) => Some(DataType::Int64),
            ScalarValue::Float32(_) => Some(DataType::Float32),
            ScalarValue::Float64(_) => Some(DataType::Float64),
        }
    }

    /// Getter for the type tag of the value.  `Null` carries no type: asking
    /// for one is a contract violation by the caller, reported as
    /// `UnsupportedScalar` rather than a process abort.
    pub fn get_datatype(&self) -> (r: Result<DataType, PolarsError>)
        ensures
            match r {
                Ok(dt) => self.spec_datatype() == Some(dt),
                Err(e) => self.spec_datatype() is None && e@ == ErrView::UnsupportedScalar,
            },
    {
        match self {
            ScalarValue::Null => Err(PolarsError::UnsupportedScalar),
            ScalarValue::Boolean(_) => Ok(DataType::Boolean),
            ScalarValue::Utf8(_) => Ok(DataType::Utf8),
            ScalarValue::UInt8(_) => Ok(DataType::UInt8),
            ScalarValue::UInt16(_) => Ok(DataType::UInt16),
            ScalarValue::UInt32(_) => Ok(DataType::UInt32),
            ScalarValue::UInt64(_) => Ok(DataType::UInt64),
            ScalarValue::Int8(_) => Ok(DataType::Int8),
            ScalarValue::Int16(_) => Ok(DataType::Int16),
            ScalarValue::Int32(_) => Ok(DataType::Int32),
            ScalarValue::Int64(_) => Ok(DataType::Int64),
            ScalarValue::Float32(_) => Ok(DataType::Float32),
            ScalarValue::Float64(_) => Ok(DataType::Float64),
        }
    }
}

/// Closed set of operators an expression may apply.
#[derive(Debug, Copy, Clone, Eq, PartialEq, Hash)]
pub enum Operator {
    Eq,
    NotEq,
    Lt,
    LtEq,
    Gt,
    GtEq,
    Plus,
    Minus,
    Multiply,
    Divide,
    Modulus,
    And,
    Or,
    Not,
    Like,
    NotLike,
}

/// The type tag an operator's result carries: comparisons, boolean
/// connectives and pattern matches yield booleans; arithmetic keeps the left
/// operand's type.
pub open spec fn binary_result_type(op: Operator, left: DataType) -> DataType {
    match op {
        Operator::Plus => left,
        Operator::Minus => left,
        Operator::Multiply => left,
        Operator::Divide => left,
        Operator::Modulus => left,
        _ => DataType::Boolean,
    }
}

/// An expression over the columns of one input table.
#[derive(Debug)]
pub enum Expr {
    /// A column of the input, by name.
    Column(String),
    /// A literal value.
    Literal(ScalarValue),
    /// The inner expression, emitted under a new name.
    Alias(Box<Expr>, String),
    /// An operator applied to two expressions.
    BinaryExpr { left: Box<Expr>, op: Operator, right: Box<Expr> },
    /// The smallest value of the inner expression within each group,
    /// emitted as `<name>_min`.
    AggMin(Box<Expr>),
}

impl Clone for Expr {
    fn clone(&self) -> (r: Expr)
        ensures
            r == self,
        decreases self,
    {
        match self {
            Expr::Column(name) => Expr::Column(name.clone()),
            Expr::Literal(v) => Expr::Literal(v.clone()),
            Expr::Alias(inner, name) => Expr::Alias(Box::new((**inner).clone()), name.clone()),
            Expr::BinaryExpr { left, op, right } => Expr::BinaryExpr {
                left: Box::new((**left).clone()),
                op: *op,
                right: Box::new((**right).clone()),
            },
            Expr::AggMin(inner) => Expr::AggMin(Box::new((**inner).clone())),
        }
    }
}

/// The field an expression produces against the input fields `fs`, or why
/// it produces none: an absent column is `UnknownField`, an untyped literal
/// `UnsupportedScalar`.
pub open spec fn expr_field(e: Expr, fs: Seq<FieldView>) -> Result<FieldView, ErrView>
    decreases e,
{
    match e {
        Expr::Column(name) => if has_name(fs, name@) {
            Ok(first_with_name(fs, name@))
        } else {
            Err(ErrView::UnknownField(name@))
        },
        Expr::Literal(v) => match v.spec_datatype() {
            Some(dt) => Ok(FieldView { name: "literal"@, dtype: dt, nullable: true }),
            None => Err(ErrView::UnsupportedScalar),
        },
        Expr::Alias(inner, name) => match expr_field(*inner, fs) {
            Ok(f) => Ok(FieldView { name: name@, dtype: f.dtype, nullable: f.nullable }),
            Err(e) => Err(e),
        },
        Expr::BinaryExpr { left, op, right } => match expr_field(*left, fs) {
            Ok(lf) => match expr_field(*right, fs) {
                Ok(rf) => Ok(
                    FieldView {
                        name: lf.name,
                        dtype: binary_result_type(op, lf.dtype),
                        nullable: lf.nullable,
                    },
                ),
                Err(e) => Err(e),
            },
            Err(e) => Err(e),
        },
        Expr::AggMin(inner) => match expr_field(*inner, fs) {
            Ok(f) => Ok(FieldView { name: f.name + "_min"@, dtype: f.dtype, nullable: f.nullable }),
            Err(e) => Err(e),
        },
    }
}

/// Mirrors `binary_result_type`.
fn binary_result_type_of(op: Operator, left: DataType) -> (r: DataType)
    ensures
        r == binary_result_type(op, left),
{
    match op {
        Operator::Plus => left,
        Operator::Minus => left,
        Operator::Multiply => left,
        Operator::Divide => left,
        Operator::Modulus => left,
        _ => DataType::Boolean,
    }
}

impl Expr {
    /// The (name, type, nullability) this expression would produce against
    /// `schema`.
    pub fn resulting_field(&self, schema: &Schema) -> (r: Result<Field, PolarsError>)
        ensures
            match r {
                Ok(f) => expr_field(*self, schema@) == Ok::<FieldView, ErrView>(f@),
                Err(e) => expr_field(*self, schema@) matches Err(ev) && ev == e@,
            },
        decreases self,
    {
        match self {
            Expr::Column(name) => match schema.field_with_name(name.as_str()) {
                Ok(f) => Ok(f.clone()),
                Err(e) => Err(e),
            },
            Expr::Literal(v) => match v.get_datatype() {
                Ok(dt) => Ok(Field::new("literal", dt, true)),
                Err(e) => Err(e),
            },
            Expr::Alias(inner, name) => match inner.resulting_field(schema) {
                Ok(f) => Ok(Field::new(name.as_str(), f.data_type(), f.is_nullable())),
                Err(e) => Err(e),
            },
            Expr::BinaryExpr { left, op, right } => match left.resulting_field(schema) {
                Ok(lf) => match right.resulting_field(schema) {
                    Ok(_rf) => Ok(
                        Field::new(
                            lf.name().as_str(),
                            binary_result_type_of(*op, lf.data_type()),
                            lf.is_nullable(),
                        ),
                    ),
                    Err(e) => Err(e),
                },
                Err(e) => Err(e),
            },
            Expr::AggMin(inner) => match inner.resulting_field(schema) {
                Ok(f) => {
                    let mut n = f.name().clone();
                    n.append("_min");
                    Ok(Field::new(n.as_str(), f.data_type(), f.is_nullable()))
                },
                Err(e) => Err(e),
            },
        }
    }

    /// Renames this expression's output column.
    pub fn alias(self, name: &str) -> (r: Expr)
        ensures
            r matches Expr::Alias(inner, n) && *inner == self && n@ == name@,
    {
        Expr::Alias(Box::new(self), name.to_owned())
    }

    /// The per-group minimum of this expression.
    pub fn agg_min(self) -> (r: Expr)
        ensures
            r matches Expr::AggMin(inner) && *inner == self,
    {
        Expr::AggMin(Box::new(self))
    }
}

/// A reference to the column `name`.
pub fn col(name: &str) -> (e: Expr)
    ensures
        e matches Expr::Column(n) && n@ == name@,
{
    Expr::Column(name.to_owned())
}

/// A literal expression.
pub fn lit(value: ScalarValue) -> (e: Expr)
    ensures
        e == Expr::Literal(value),
{
    Expr::Literal(value)
}

/// Applies `op` to two expressions.
pub fn binary_expr(left: Expr, op: Operator, right: Expr) -> (e: Expr)
    ensures
        e matches Expr::BinaryExpr { left: l, op: o, right: r } && *l == left && o == op && *r
            == right,
{
    Expr::BinaryExpr { left: Box::new(left), op, right: Box::new(right) }
}

/// Rendering of an operator.
pub open spec fn op_label(op: Operator) -> Seq<char> {
    match op {
        Operator::Eq => "=="@,
        Operator::NotEq => "!="@,
        Operator::Lt => "<"@,
        Operator::LtEq => "<="@,
        Operator::Gt => ">"@,
        Operator::GtEq => ">="@,
        Operator::Plus => "+"@,
        Operator::Minus => "-"@,
        Operator::Multiply => "*"@,
        Operator::Divide => "/"@,
        Operator::Modulus => "%"@,
        Operator::And => "AND"@,
        Operator::Or => "OR"@,
        Operator::Not => "NOT"@,
        Operator::Like => "LIKE"@,
        Operator::NotLike => "NOT LIKE"@,
    }
}

/// Rendering of a scalar literal: booleans by value, strings quoted,
/// numeric variants by their type tag alone.
pub open spec fn render_scalar(v: ScalarValue) -> Seq<char> {
    match v {
        ScalarValue::Null => "null"@,
        ScalarValue::Boolean(b) => if b {
            "true"@
        } else {
            "false"@
        },
        ScalarValue::Utf8(s) => "\""@ + s@ + "\""@,
        ScalarValue::UInt8(_) => "UInt8"@,
        ScalarValue::UInt16(_) => "UInt16"@,
        ScalarValue::UInt32(_) => "UInt32"@,
        ScalarValue::UInt64(_) => "UInt64"@,
        ScalarValue::Int8(_) => "Int8"@,
        ScalarValue::Int16(_) => "Int16"@,
        ScalarValue::Int32(_) => "Int32"@,
        ScalarValue::Int64(_) => "Int64"@,
        ScalarValue::Float32(_) => "Float32"@,
        ScalarValue::Float64(_) => "Float64"@,
    }
}

/// Deterministic rendering of an expression.
pub open spec fn render_expr(e: Expr) -> Seq<char>
    decreases e,
{
    match e {
        Expr::Column(name) => "col(\""@ + name@ + "\")"@,
        Expr::Literal(v) => "lit("@ + render_scalar(v) + ")"@,
        Expr::Alias(inner, name) => render_expr(*inner) + ".alias(\""@ + name@ + "\")"@,
        Expr::BinaryExpr { left, op, right } => "("@ + render_expr(*left) + " "@ + op_label(op)
            + " "@ + render_expr(*right) + ")"@,
        Expr::AggMin(inner) => render_expr(*inner) + ".min()"@,
    }
}

/// Comma-separated renderings of `es`, in list order.
pub open spec fn render_exprs(es: Seq<Expr>) -> Seq<char>
    decreases es.len(),
{
    if es.len() == 0 {
        Seq::empty()
    } else if es.len() == 1 {
        render_expr(es[0])
    } else {
        render_expr(es[0]) + ", "@ + render_exprs(es.drop_first())
    }
}

/// Mirrors `op_label`.
fn op_label_of(op: &Operator) -> (r: &'static str)
    ensures
        r@ == op_label(*op),
{
    match op {
        Operator::Eq => "==",
        Operator::NotEq => "!=",
        Operator::Lt => "<",
        Operator::LtEq => "<=",
        Operator::Gt => ">",
        Operator::GtEq => ">=",
        Operator::Plus => "+",
        Operator::Minus => "-",
        Operator::Multiply => "*",
        Operator::Divide => "/",
        Operator::Modulus => "%",
        Operator::And => "AND",
        Operator::Or => "OR",
        Operator::Not => "NOT",
        Operator::Like => "LIKE",
        Operator::NotLike => "NOT LIKE",
    }
}

/// Mirrors `render_scalar`.
fn render_scalar_string(v: &ScalarValue) -> (r: String)
    ensures
        r@ == render_scalar(*v),
{
    match v {
        ScalarValue::Null => String::from_str("null"),
        ScalarValue::Boolean(b) => if *b {
            String::from_str("true")
        } else {
            String::from_str("false")
        },
        ScalarValue::Utf8(s) => {
            let mut t = String::from_str("\"");
            t.append(s.as_str());
            t.append("\"");
            t
        },
        ScalarValue::UInt8(_) => String::from_str("UInt8"),
        ScalarValue::UInt16(_) => String::from_str("UInt16"),
        ScalarValue::UInt32(_) => String::from_str("UInt32"),
        ScalarValue::UInt64(_) => String::from_str("UInt64"),
        ScalarValue::Int8(_) => String::from_str("Int8"),
        ScalarValue::Int16(_) => String::from_str("Int16"),
        ScalarValue::Int32(_) => String::from_str("Int32"),
        ScalarValue::Int64(_) => String::from_str("Int64"),
        ScalarValue::Float32(_) => String::from_str("Float32"),
        ScalarValue::Float64(_) => String::from_str("Float64"),
    }
}

impl Expr {
    /// Deterministic rendering of this expression.
    pub fn describe(&self) -> (r: String)
        ensures
            r@ == render_expr(*self),
        decreases self,
    {
        match self {
            Expr::Column(name) => {
                let mut s = String::from_str("col(\"");
                s.append(name.as_str());
                s.append("\")");
                s
            },
            Expr::Literal(v) => {
                let mut s = String::from_str("lit(");
                let t = render_scalar_string(v);
                s.append(t.as_str());
                s.append(")");
                s
            },
            Expr::Alias(inner, name) => {
                let mut s = inner.describe();
                s.append(".alias(\"");
                s.append(name.as_str());
                s.append("\")");
                s
            },
            Expr::BinaryExpr { left, op, right } => {
                let mut s = String::from_str("(");
                let l = left.describe();
                s.append(l.as_str());
                s.append(" ");
                s.append(op_label_of(op));
                s.append(" ");
                let rr = right.describe();
                s.append(rr.as_str());
                s.append(")");
                s
            },
            Expr::AggMin(inner) => {
                let mut s = inner.describe();
                s.append(".min()");
                s
            },
        }
    }
}

/// Mirrors `render_exprs` from index `i` on.
fn render_exprs_from(es: &Vec<Expr>, i: usize) -> (r: String)
    requires
        i <= es@.len(),
    ensures
        r@ == render_exprs(es@.skip(i as int)),
    decreases es@.len() - i,
{
    if i == es.len() {
        proof {
            assert(es@.skip(i as int) =~= Seq::<Expr>::empty());
        }
        String::new()
    } else if i + 1 == es.len() {
        proof {
            assert(es@.skip(i as int)[0] == es@[i as int]);
        }
        es[i].describe()
    } else {
        let mut s = es[i].describe();
        s.append(", ");
        let rest = render_exprs_from(es, i + 1);
        s.append(rest.as_str());
        proof {
            assert(es@.skip(i as int)[0] == es@[i as int]);
            assert(es@.skip(i as int).drop_first() =~= es@.skip(i as int + 1));
        }
        s
    }
}

/// Comma-separated renderings of the expressions, in list order.
pub fn render_expr_list(es: &Vec<Expr>) -> (r: String)
    ensures
        r@ == render_exprs(es@),
{
    let r = render_exprs_from(es, 0);
    proof {
        assert(es@.skip(0) =~= es@);
    }
    r
}

/// Fields produced by the expressions `es` in list order, after those in
/// `acc`; two expressions emitting the same output name conflict.
pub open spec fn project_fields(es: Seq<Expr>, fs: Seq<FieldView>, acc: Seq<FieldView>) -> Result<
    Seq<FieldView>,
    ErrView,
>
    decreases es.len(),
{
    if es.len() == 0 {
        Ok(acc)
    } else {
        match expr_field(es[0], fs) {
            Ok(f) => if has_name(acc, f.name) {
                Err(ErrView::SchemaConflict(f.name))
            } else {
                project_fields(es.drop_first(), fs, acc.push(f))
            },
            Err(e) => Err(e),
        }
    }
}

/// The fields a projection produces carry pairwise distinct names: a
/// duplicate output name is rejected as a conflict, never emitted.
pub proof fn lemma_project_fields_unique(es: Seq<Expr>, fs: Seq<FieldView>, acc: Seq<FieldView>)
    requires
        names_unique(acc),
        project_fields(es, fs, acc) is Ok,
    ensures
        names_unique(project_fields(es, fs, acc)->Ok_0),
    decreases es.len(),
{
    if es.len() == 0 {
    } else {
        match expr_field(es[0], fs) {
            Ok(f) => {
                assert(!has_name(acc, f.name));
                assert forall|i: int, j: int| 0 <= i < j < acc.push(f).len() implies acc.push(
                    f,
                )[i].name != acc.push(f)[j].name by {
                    if j < acc.len() {
                    } else {
                        assert(acc.push(f)[i] == acc[i]);
                        if acc[i].name == f.name {
                            assert(has_name(acc, f.name));
                        }
                    }
                };
                lemma_project_fields_unique(es.drop_first(), fs, acc.push(f));
            },
            Err(e) => {},
        }
    }
}

/// The output schema of projecting `es` over the input fields `fs`:
/// expression-list order, not input-column order.
pub open spec fn projection_schema(es: Seq<Expr>, fs: Seq<FieldView>) -> Result<
    Seq<FieldView>,
    ErrView,
> {
    project_fields(es, fs, Seq::empty())
}

/// Derives the schema that projecting `exprs` over `schema` would produce.
#[verifier::loop_isolation(false)]
pub fn expressions_to_schema(exprs: &Vec<Expr>, schema: &Schema) -> (r: Result<
    Schema,
    PolarsError,
>)
    ensures
        match r {
            Ok(s) => projection_schema(exprs@, schema@) == Ok::<Seq<FieldView>, ErrView>(s@),
            Err(e) => projection_schema(exprs@, schema@) matches Err(ev) && ev == e@,
        },
{
    let mut out: Vec<Field> = Vec::new();
    let mut i: usize = 0;
    proof {
        assert(exprs@.skip(0) =~= exprs@);
        assert(fields_view(out@) =~= Seq::<FieldView>::empty());
    }
    while i < exprs.len()
        invariant
            i <= exprs.len(),
            project_fields(exprs@.skip(i as int), schema@, fields_view(out@)) == projection_schema(
                exprs@,
                schema@,
            ),
        decreases exprs.len() - i,
    {
        let ghost su = exprs@.skip(i as int);
        let ghost acc = fields_view(out@);
        proof {
            assert(su[0] == exprs@[i as int]);
            assert(su.drop_first() =~= exprs@.skip(i as int + 1));
        }
        match exprs[i].resulting_field(schema) {
            Ok(f) => {
                match find_name(&out, f.name().as_str()) {
                    Some(_k) => {
                        return Err(PolarsError::SchemaConflict(f.name().clone()));
                    },
                    None => {
                        let ghost fv = f@;
                        out.push(f);
                        proof {
                            assert(fields_view(out@) =~= acc.push(fv));
                        }
                    },
                }
            },
            Err(e) => {
                return Err(e);
            },
        }
        i += 1;
    }
    proof {
        assert(exprs@.skip(exprs@.len() as int) =~= Seq::<Expr>::empty());
    }
    Ok(Schema::new(out))
}

} // verus!
