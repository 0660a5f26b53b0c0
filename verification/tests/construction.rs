use gql_syntax::ast::AST;

#[test]
fn it_constructs() {
    let ast = AST::new("test");
    assert!(ast.is_ok());
}
