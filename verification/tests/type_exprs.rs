use ark_mir::ast::{
    detect_specialized_result, is_string_type, is_void_expr, lower_type_expr_to_type,
    type_expr_name, type_to_type_expr, lower_binop, lower_unaryop, BinOp, Expr, TypeExpr, UnaryOp,
};
use ark_mir::types::Type;

fn named(n: &str) -> TypeExpr {
    TypeExpr::Named { name: n.to_string() }
}

fn generic(n: &str, args: Vec<TypeExpr>) -> TypeExpr {
    TypeExpr::Generic { name: n.to_string(), args }
}

#[test]
fn type_expressions_lower_to_checker_types() {
    assert!(matches!(lower_type_expr_to_type(&named("i64")), Type::I64));
    assert!(matches!(lower_type_expr_to_type(&named("u16")), Type::I32));
    assert!(matches!(lower_type_expr_to_type(&named("String")), Type::String));
    assert!(matches!(lower_type_expr_to_type(&named("Point")), Type::I32));
    assert!(matches!(lower_type_expr_to_type(&TypeExpr::Unit), Type::Unit));
    assert!(matches!(lower_type_expr_to_type(&TypeExpr::Other), Type::I32));
    match lower_type_expr_to_type(&generic("Vec", vec![named("bool")])) {
        Type::Vec(inner) => assert!(matches!(*inner, Type::Bool)),
        _ => panic!("expected a vector type"),
    }
    match lower_type_expr_to_type(&generic("Vec", vec![])) {
        Type::Vec(inner) => assert!(matches!(*inner, Type::I32)),
        _ => panic!("expected a vector type"),
    }
    assert!(matches!(lower_type_expr_to_type(&generic("Option", vec![named("i64")])), Type::I32));
}

#[test]
fn type_expression_names() {
    assert_eq!(type_expr_name(&generic("Result", vec![named("i64"), named("String")])), "Result<i64, String>");
    assert_eq!(
        type_expr_name(&generic("Vec", vec![generic("Option", vec![named("u8")])])),
        "Vec<Option<u8>>"
    );
    assert_eq!(type_expr_name(&generic("Vec", vec![])), "Vec");
    assert_eq!(type_expr_name(&TypeExpr::Unit), "()");
    assert_eq!(type_expr_name(&TypeExpr::Other), "unknown");
    assert!(is_string_type(&named("String")));
    assert!(!is_string_type(&named("str")));
    assert!(!is_string_type(&generic("String", vec![])));
}

#[test]
fn specialised_result_enums_are_detected() {
    assert_eq!(
        detect_specialized_result(&generic("Result", vec![named("i64"), named("String")])),
        Some("Result_i64_String".to_string())
    );
    assert_eq!(
        detect_specialized_result(&generic("Result", vec![named("String"), named("String")])),
        Some("Result_String_String".to_string())
    );
    assert_eq!(detect_specialized_result(&generic("Result", vec![named("i32"), named("String")])), None);
    assert_eq!(detect_specialized_result(&generic("Result", vec![TypeExpr::Other, named("String")])), None);
    assert_eq!(detect_specialized_result(&generic("Option", vec![named("String")])), None);
    assert_eq!(detect_specialized_result(&named("Result")), None);
}

fn call(name: &str) -> Expr {
    Expr::Call { callee: Box::new(Expr::Ident { name: name.to_string() }) }
}

#[test]
fn void_expressions_are_told_apart() {
    assert!(is_void_expr(&call("println")));
    assert!(is_void_expr(&call("sort_i64")));
    assert!(!is_void_expr(&call("len")));
    let qualified = |n: &str| Expr::Call { callee: Box::new(Expr::QualifiedIdent { name: n.to_string() }) };
    assert!(is_void_expr(&qualified("hashmap_set")));
    assert!(!is_void_expr(&qualified("push")));
    assert!(is_void_expr(&Expr::Assign));
    assert!(is_void_expr(&Expr::Block { tail: None }));
    assert!(!is_void_expr(&Expr::Block { tail: Some(Box::new(Expr::Other)) }));
    assert!(is_void_expr(&Expr::If { then_tail: Some(Box::new(call("print"))) }));
    assert!(is_void_expr(&Expr::Match { arm_bodies: vec![] }));
    assert!(!is_void_expr(&Expr::Match { arm_bodies: vec![Expr::Other, Expr::Assign] }));
    assert!(is_void_expr(&Expr::Match { arm_bodies: vec![Expr::Assign, Expr::Other] }));
    assert!(!is_void_expr(&Expr::Ident { name: "println".to_string() }));
    let indirect = Expr::Call { callee: Box::new(Expr::Other) };
    assert!(!is_void_expr(&indirect));
}

#[test]
fn operators_lower_to_their_mir_namesakes() {
    assert_eq!(lower_binop(&BinOp::Add), ark_mir::mir::BinOp::Add);
    assert_eq!(lower_binop(&BinOp::Le), ark_mir::mir::BinOp::Le);
    assert_eq!(lower_binop(&BinOp::Shr), ark_mir::mir::BinOp::Shr);
    assert_eq!(lower_unaryop(&UnaryOp::BitNot), ark_mir::mir::UnaryOp::BitNot);
    assert_eq!(lower_unaryop(&UnaryOp::Neg), ark_mir::mir::UnaryOp::Neg);
}

#[test]
fn checker_types_give_type_expressions() {
    let r = type_to_type_expr(&Type::Result(Box::new(Type::I64), Box::new(Type::String))).unwrap();
    assert_eq!(type_expr_name(&r), "Result<i64, String>");
    assert_eq!(detect_specialized_result(&r), Some("Result_i64_String".to_string()));
    let o = type_to_type_expr(&Type::Option(Box::new(Type::Vec(Box::new(Type::Bool))))).unwrap();
    assert_eq!(type_expr_name(&o), "Option<Vec<bool>>");
    assert!(matches!(type_to_type_expr(&Type::Unit), Some(TypeExpr::Unit)));
    assert!(type_to_type_expr(&Type::Char).is_none());
    assert!(type_to_type_expr(&Type::Option(Box::new(Type::U64))).is_none());
    assert!(type_to_type_expr(&Type::Result(Box::new(Type::I32), Box::new(Type::Any))).is_none());
}

#[test]
fn signatures_lower_declared_types() {
    let tps = vec!["T".to_string()];
    assert!(matches!(ark_mir::ast::lower_param_type(&named("String"), &tps), Type::String));
    assert!(matches!(ark_mir::ast::lower_param_type(&named("char"), &tps), Type::Char));
    assert!(matches!(ark_mir::ast::lower_param_type(&named("T"), &tps), Type::Any));
    assert!(matches!(ark_mir::ast::lower_param_type(&named("U"), &tps), Type::I32));
    assert!(matches!(ark_mir::ast::lower_param_type(&generic("Vec", vec![named("i64")]), &tps), Type::I32));
    assert!(matches!(ark_mir::ast::lower_return_type(&None, &tps), Type::Unit));
    assert!(matches!(ark_mir::ast::lower_return_type(&Some(named("f64")), &tps), Type::F64));
    let params = vec![
        ark_mir::ast::Param { name: "a".to_string(), ty: named("bool") },
        ark_mir::ast::Param { name: "b".to_string(), ty: named("T") },
    ];
    let locals = ark_mir::ast::lower_params(&params, &tps);
    assert_eq!(locals.len(), 2);
    assert_eq!(locals[1].id, ark_mir::mir::LocalId(1));
    assert_eq!(locals[1].name.as_deref(), Some("b"));
    assert!(matches!(locals[0].ty, Type::Bool));
    assert!(matches!(locals[1].ty, Type::Any));
}
