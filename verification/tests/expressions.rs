use daft_plan::error::PlanError;
use daft_plan::expr::{
    abs, ceil, clip, floor, round, sign, DataType, Expr, Field, FunctionExpr, NumericExpr, Schema,
};
use daft_plan::partition::{Partition, PartitionCache, PartitionIterator};

fn two_column_schema() -> Schema {
    Schema {
        fields: vec![
            Field { name: String::from("amount"), dtype: DataType::Int64 },
            Field { name: String::from("name"), dtype: DataType::Utf8 },
        ],
    }
}

fn call_shape(e: &Expr) -> (&FunctionExpr, &Vec<Expr>) {
    match e {
        Expr::Function { func, inputs } => (func, inputs),
        other => panic!("expected a function call, got {:?}", other),
    }
}

#[test]
fn numeric_constructors_build_single_operand_calls() {
    let col = Expr::Column(0);
    let e = abs(col);
    let (func, inputs) = call_shape(&e);
    assert_eq!(*func, FunctionExpr::Numeric(NumericExpr::Abs));
    assert_eq!(inputs.len(), 1);
    assert_eq!(inputs[0], Expr::Column(0));

    let e = ceil(Expr::Column(1));
    assert_eq!(call_shape(&e).0, &FunctionExpr::Numeric(NumericExpr::Ceil));
    let e = floor(Expr::Column(1));
    assert_eq!(call_shape(&e).0, &FunctionExpr::Numeric(NumericExpr::Floor));
    let e = sign(Expr::Column(1));
    assert_eq!(call_shape(&e).0, &FunctionExpr::Numeric(NumericExpr::Sign));
    let e = round(Expr::Column(1), 2);
    assert_eq!(
        call_shape(&e).0,
        &FunctionExpr::Numeric(NumericExpr::Round(2))
    );
    let e = clip(Expr::Column(1), Some(-5), None);
    assert_eq!(
        call_shape(&e).0,
        &FunctionExpr::Numeric(NumericExpr::Clip(Some(-5), None))
    );
}

#[test]
fn numeric_expr_equality_follows_the_parameters() {
    assert_eq!(NumericExpr::Abs, NumericExpr::Abs);
    assert_ne!(NumericExpr::Abs, NumericExpr::Ceil);
    assert_eq!(NumericExpr::Round(2), NumericExpr::Round(2));
    assert_ne!(NumericExpr::Round(2), NumericExpr::Round(3));
    assert_eq!(
        NumericExpr::Clip(Some(1), None),
        NumericExpr::Clip(Some(1), None)
    );
    assert_ne!(
        NumericExpr::Clip(Some(1), None),
        NumericExpr::Clip(Some(1), Some(2))
    );
    assert_ne!(NumericExpr::Clip(None, None), NumericExpr::Sign);
}

#[test]
fn numeric_fn_names() {
    assert_eq!(NumericExpr::Abs.fn_name(), "abs");
    assert_eq!(NumericExpr::Ceil.fn_name(), "ceil");
    assert_eq!(NumericExpr::Floor.fn_name(), "floor");
    assert_eq!(NumericExpr::Sign.fn_name(), "sign");
    assert_eq!(NumericExpr::Round(1).fn_name(), "round");
    assert_eq!(NumericExpr::Clip(None, None).fn_name(), "clip");
}

#[test]
fn to_field_resolves_numeric_calls() {
    let schema = two_column_schema();
    let e = clip(Expr::Column(0), Some(0), Some(10));
    let f = e.to_field(&schema).unwrap();
    assert_eq!(f.name, "amount");
    assert_eq!(f.dtype, DataType::Int64);
}

#[test]
fn to_field_rejects_non_numeric_operands() {
    let schema = two_column_schema();
    let e = clip(Expr::Column(1), Some(0), Some(10));
    assert!(matches!(e.to_field(&schema), Err(PlanError::TypeError)));
}

#[test]
fn to_field_rejects_unknown_columns() {
    let schema = two_column_schema();
    let e = Expr::Column(5);
    assert!(matches!(e.to_field(&schema), Err(PlanError::SchemaMismatch)));
}

#[test]
fn to_field_rejects_wrong_arity() {
    let schema = two_column_schema();
    let e = Expr::Function {
        func: FunctionExpr::Numeric(NumericExpr::Clip(None, None)),
        inputs: vec![Expr::Column(0), Expr::Column(1)],
    };
    assert!(matches!(e.to_field(&schema), Err(PlanError::SchemaMismatch)));
    let ne = NumericExpr::Clip(None, None);
    let r = ne.to_field(&vec![], &schema);
    assert!(matches!(r, Err(PlanError::SchemaMismatch)));
}

#[test]
fn numeric_to_field_accepts_one_numeric_operand() {
    let schema = two_column_schema();
    let ne = NumericExpr::Abs;
    let f = ne.to_field(&vec![Expr::Column(0)], &schema).unwrap();
    assert_eq!(f.dtype, DataType::Int64);
}

#[test]
fn data_type_numeric_classification() {
    assert!(DataType::Int64.is_numeric());
    assert!(!DataType::Boolean.is_numeric());
    assert!(!DataType::Utf8.is_numeric());
}

#[test]
fn partition_cache_lookup_finds_first_match() {
    let mut cache = PartitionCache::new();
    cache.insert(String::from("a"), vec![Partition::new(vec![vec![1]])]);
    cache.insert(String::from("b"), vec![Partition::new(vec![vec![2], vec![3]])]);
    let a = cache.lookup(&String::from("a")).unwrap();
    assert_eq!(a.len(), 1);
    let b = cache.lookup(&String::from("b")).unwrap();
    assert_eq!(b[0].rows.len(), 2);
    assert!(cache.lookup(&String::from("c")).is_none());
}

#[test]
fn partition_iterator_is_a_single_pass_cursor() {
    let parts = vec![
        Partition::new(vec![vec![1]]),
        Partition::new(vec![vec![2]]),
    ];
    let mut it = PartitionIterator::new(parts);
    assert_eq!(it.next().unwrap().rows, vec![vec![1]]);
    assert_eq!(it.next().unwrap().rows, vec![vec![2]]);
    assert!(it.next().is_none());
    assert!(it.next().is_none());
}

#[test]
fn partition_accessors() {
    let p = Partition::new(vec![vec![1, 2], vec![3, 4]]);
    assert_eq!(p.num_rows(), 2);
    let q = p.duplicate();
    assert_eq!(q.rows, p.rows);
}
