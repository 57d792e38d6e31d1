use vstd::prelude::*;

use crate::error::PlanError;

verus! {

/// The column types the schema model distinguishes.
///
/// The columnar kernels of the engine know many more types; this layer only
/// needs to tell numeric columns apart from the rest, so one numeric type and
/// two non-numeric representatives suffice.
#[derive(Debug, Clone, Copy, PartialEq, Eq, Structural)]
pub enum DataType {
    Int64,
    Boolean,
    Utf8,
}

pub open spec fn dtype_is_numeric(dt: DataType) -> bool {
    dt == DataType::Int64
}

impl DataType {
    pub fn is_numeric(&self) -> (r: bool)
        ensures
            r == dtype_is_numeric(*self),
    {
        match self {
            DataType::Int64 => true,
            DataType::Boolean => false,
            DataType::Utf8 => false,
        }
    }
}

/// One column of a schema: its name and type.
#[derive(Debug)]
pub struct Field {
    pub name: String,
    pub dtype: DataType,
}

impl Field {
    pub fn duplicate(&self) -> (r: Field)
        ensures
            r == *self,
    {
        Field { name: self.name.clone(), dtype: self.dtype }
    }
}

/// The schema of a partition: an ordered list of fields, referenced by index.
#[derive(Debug)]
pub struct Schema {
    pub fields: Vec<Field>,
}

/// A scalar function applied elementwise to numeric columns.
///
/// `Round` carries the number of decimals; `Clip` carries optional lower and
/// upper bounds, modelled as 64-bit integers (fractional bounds belong to the
/// floating-point kernel layer).
#[derive(Debug, Clone, Copy, Hash)]
pub enum NumericExpr {
    Abs,
    Ceil,
    Floor,
    Sign,
    Round(i32),
    Clip(Option<i64>, Option<i64>),
}

impl PartialEq for NumericExpr {
    fn eq(&self, other: &Self) -> (r: bool) {
        match (self, other) {
            (NumericExpr::Abs, NumericExpr::Abs) => true,
            (NumericExpr::Ceil, NumericExpr::Ceil) => true,
            (NumericExpr::Floor, NumericExpr::Floor) => true,
            (NumericExpr::Sign, NumericExpr::Sign) => true,
            (NumericExpr::Round(a), NumericExpr::Round(b)) => a == b,
            (NumericExpr::Clip(a_lower, a_upper), NumericExpr::Clip(b_lower, b_upper)) => {
                let lower_eq = match (a_lower, b_lower) {
                    (None, None) => true,
                    (Some(x), Some(y)) => x == y,
                    _ => false,
                };
                let upper_eq = match (a_upper, b_upper) {
                    (None, None) => true,
                    (Some(x), Some(y)) => x == y,
                    _ => false,
                };
                lower_eq && upper_eq
            },
            _ => false,
        }
    }
}

impl vstd::std_specs::cmp::PartialEqSpecImpl for NumericExpr {
    open spec fn obeys_eq_spec() -> bool {
        true
    }

    open spec fn eq_spec(&self, other: &NumericExpr) -> bool {
        *self == *other
    }
}

/// The closed set of scalar function families.  Only the numeric family is
/// modelled here; other families are collaborators of this layer.
#[derive(Debug, Clone, Copy, PartialEq)]
pub enum FunctionExpr {
    Numeric(NumericExpr),
}

/// An aggregation over a column expression.
#[derive(Debug, PartialEq)]
pub enum AggExpr {
    Sum(Box<Expr>),
}

/// A typed expression over the columns of a partition: an opaque operand for
/// the operators of a physical plan.
#[derive(Debug, PartialEq)]
pub enum Expr {
    /// A reference to the column at this index of the schema.
    Column(usize),
    /// A scalar function applied to operand expressions.
    Function { func: FunctionExpr, inputs: Vec<Expr> },
    /// An aggregation expression.
    Agg(AggExpr),
}

/// Holds when `r` is a call of the numeric function `ne` on the one operand
/// `arg`.
pub open spec fn is_call_of(r: Expr, ne: NumericExpr, arg: Expr) -> bool {
    match r {
        Expr::Function { func, inputs } => {
            &&& func == FunctionExpr::Numeric(ne)
            &&& inputs@.len() == 1
            &&& inputs@[0] == arg
        },
        _ => false,
    }
}

/// The field an expression evaluates to under `schema`, or the error that
/// rules it out: an unknown column index is a `SchemaMismatch`, a numeric
/// function or aggregation over a non-numeric operand a `TypeError`, and a
/// numeric function takes exactly one operand.
pub open spec fn expr_to_field_spec(e: Expr, schema: Schema) -> Result<Field, PlanError>
    decreases e,
{
    match e {
        Expr::Column(i) => {
            if i < schema.fields@.len() {
                Ok(schema.fields@[i as int])
            } else {
                Err(PlanError::SchemaMismatch)
            }
        },
        Expr::Function { func, inputs } => {
            if inputs@.len() != 1 {
                Err(PlanError::SchemaMismatch)
            } else {
                match expr_to_field_spec(inputs@[0], schema) {
                    Ok(f) => {
                        if dtype_is_numeric(f.dtype) {
                            Ok(f)
                        } else {
                            Err(PlanError::TypeError)
                        }
                    },
                    Err(err) => Err(err),
                }
            }
        },
        Expr::Agg(AggExpr::Sum(inner)) => {
            match expr_to_field_spec(*inner, schema) {
                Ok(f) => {
                    if dtype_is_numeric(f.dtype) {
                        Ok(f)
                    } else {
                        Err(PlanError::TypeError)
                    }
                },
                Err(err) => Err(err),
            }
        },
    }
}

impl Expr {
    /// Resolve this expression against `schema`, checking arity and types.
    pub fn to_field(&self, schema: &Schema) -> (r: Result<Field, PlanError>)
        ensures
            r == expr_to_field_spec(*self, *schema),
        decreases *self,
    {
        match self {
            Expr::Column(i) => {
                if *i < schema.fields.len() {
                    Ok(schema.fields[*i].duplicate())
                } else {
                    Err(PlanError::SchemaMismatch)
                }
            },
            Expr::Function { func: _, inputs } => {
                if inputs.len() != 1 {
                    Err(PlanError::SchemaMismatch)
                } else {
                    match inputs[0].to_field(schema) {
                        Ok(f) => {
                            if f.dtype.is_numeric() {
                                Ok(f)
                            } else {
                                Err(PlanError::TypeError)
                            }
                        },
                        Err(err) => Err(err),
                    }
                }
            },
            Expr::Agg(AggExpr::Sum(inner)) => {
                match inner.to_field(schema) {
                    Ok(f) => {
                        if f.dtype.is_numeric() {
                            Ok(f)
                        } else {
                            Err(PlanError::TypeError)
                        }
                    },
                    Err(err) => Err(err),
                }
            },
        }
    }
}

impl NumericExpr {
    /// The name of this numeric function.
    pub fn fn_name(&self) -> (r: &'static str)
        ensures
            r@ == numeric_fn_name(*self),
    {
        match self {
            NumericExpr::Abs => "abs",
            NumericExpr::Ceil => "ceil",
            NumericExpr::Floor => "floor",
            NumericExpr::Sign => "sign",
            NumericExpr::Round(_) => "round",
            NumericExpr::Clip(_, _) => "clip",
        }
    }

    /// Check the operands of this numeric function against `schema`: exactly
    /// one operand, and its field numeric.
    pub fn to_field(&self, inputs: &Vec<Expr>, schema: &Schema) -> (r: Result<Field, PlanError>)
        ensures
            r == numeric_to_field_spec(inputs@, *schema),
    {
        if inputs.len() != 1 {
            Err(PlanError::SchemaMismatch)
        } else {
            match inputs[0].to_field(schema) {
                Ok(f) => {
                    if f.dtype.is_numeric() {
                        Ok(f)
                    } else {
                        Err(PlanError::TypeError)
                    }
                },
                Err(err) => Err(err),
            }
        }
    }
}

pub open spec fn numeric_fn_name(ne: NumericExpr) -> Seq<char> {
    match ne {
        NumericExpr::Abs => "abs"@,
        NumericExpr::Ceil => "ceil"@,
        NumericExpr::Floor => "floor"@,
        NumericExpr::Sign => "sign"@,
        NumericExpr::Round(_) => "round"@,
        NumericExpr::Clip(_, _) => "clip"@,
    }
}

/// What a one-operand numeric function resolves to: its operand's field when
/// that is numeric, `SchemaMismatch` on wrong arity, `TypeError` otherwise.
pub open spec fn numeric_to_field_spec(inputs: Seq<Expr>, schema: Schema) -> Result<
    Field,
    PlanError,
> {
    if inputs.len() != 1 {
        Err(PlanError::SchemaMismatch)
    } else {
        match expr_to_field_spec(inputs[0], schema) {
            Ok(f) => {
                if dtype_is_numeric(f.dtype) {
                    Ok(f)
                } else {
                    Err(PlanError::TypeError)
                }
            },
            Err(err) => Err(err),
        }
    }
}

/// The expression `abs(input)`: the elementwise absolute value.
pub fn abs(input: Expr) -> (r: Expr)
    ensures
        is_call_of(r, NumericExpr::Abs, input),
{
    Expr::Function {
        func: FunctionExpr::Numeric(NumericExpr::Abs),
        inputs: vec![input],
    }
}

/// The expression `ceil(input)`: the elementwise ceiling.
pub fn ceil(input: Expr) -> (r: Expr)
    ensures
        is_call_of(r, NumericExpr::Ceil, input),
{
    Expr::Function {
        func: FunctionExpr::Numeric(NumericExpr::Ceil),
        inputs: vec![input],
    }
}

/// The expression `floor(input)`: the elementwise floor.
pub fn floor(input: Expr) -> (r: Expr)
    ensures
        is_call_of(r, NumericExpr::Floor, input),
{
    Expr::Function {
        func: FunctionExpr::Numeric(NumericExpr::Floor),
        inputs: vec![input],
    }
}

/// The expression `sign(input)`: the elementwise sign.
pub fn sign(input: Expr) -> (r: Expr)
    ensures
        is_call_of(r, NumericExpr::Sign, input),
{
    Expr::Function {
        func: FunctionExpr::Numeric(NumericExpr::Sign),
        inputs: vec![input],
    }
}

/// The expression `round(input, decimal)`: rounding to `decimal` decimals.
pub fn round(input: Expr, decimal: i32) -> (r: Expr)
    ensures
        is_call_of(r, NumericExpr::Round(decimal), input),
{
    Expr::Function {
        func: FunctionExpr::Numeric(NumericExpr::Round(decimal)),
        inputs: vec![input],
    }
}

/// The expression `clip(input, lower, upper)`: clamping into the given
/// bounds, either of which may be absent.
pub fn clip(input: Expr, lower: Option<i64>, upper: Option<i64>) -> (r: Expr)
    ensures
        is_call_of(r, NumericExpr::Clip(lower, upper), input),
{
    Expr::Function {
        func: FunctionExpr::Numeric(NumericExpr::Clip(lower, upper)),
        inputs: vec![input],
    }
}

} // verus!
