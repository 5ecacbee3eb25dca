use jsparse::node::Node;
use jsparse::lex::Token;
use jsparse::parser::Parser;

// A plain round-trip printer over the accepted AST shapes, for checking
// that re-parsing a printed tree yields a structurally equal tree.  The
// core itself defines no printer; this one lives with the tests.
fn print_node(n: &Node) -> String {
    match n {
        Node::EmptyStatement {} => String::new(),
        Node::Identity { name } => name.clone(),
        Node::NumericLiteral { value } => value.clone(),
        Node::VariableDeclaration { kind, declarations } => {
            let kw = match kind {
                Token::Var => "var",
                Token::Const => "const",
                _ => "let",
            };
            let parts: Vec<String> = declarations.iter().map(|d| print_node(d)).collect();
            format!("{} {}", kw, parts.join(", "))
        },
        Node::VariableDeclarator { id, init } => {
            let implicit = Node::Identity { name: "undefined".to_string() };
            if **init == implicit {
                print_node(id)
            } else {
                format!("{} = {}", print_node(id), print_node(init))
            }
        },
        Node::AssignmentExpression { left, operator, right } => {
            format!("{} {} {}", print_node(left), operator, print_node(right))
        },
        Node::BinaryExpression { left, operator, right } => {
            format!("{} {} {}", print_node(left), operator, print_node(right))
        },
        Node::UnaryExpression { operator, argument, .. } => {
            format!("{}{}", operator, print_node(argument))
        },
        Node::UpdateExpression { operator, prefix, argument } => {
            if *prefix {
                format!("{}{}", operator, print_node(argument))
            } else {
                format!("{}{}", print_node(argument), operator)
            }
        },
        Node::MemberExpression { object, property } => {
            format!("{}.{}", print_node(object), print_node(property))
        },
        Node::ConditionalExpression { test, consequent, alternate } => {
            format!(
                "{} ? {} : {}",
                print_node(test),
                print_node(consequent),
                print_node(alternate)
            )
        },
        Node::CallExpression { callee, arguments } => {
            let parts: Vec<String> = arguments.iter().map(|a| print_node(a)).collect();
            format!("{}({})", print_node(callee), parts.join(","))
        },
        Node::ForStatement { init, test, update, body } => {
            let body_text = match &**body {
                Node::EmptyStatement {} => ";".to_string(),
                other => format!("{{ {} }}", print_node(other)),
            };
            format!(
                "for({}; {}; {}) {}",
                print_node(init),
                print_node(test),
                print_node(update),
                body_text
            )
        },
    }
}

fn reparses_equal(source: &str) {
    let mut parser = Parser::new(source.to_string());
    let first = parser.parse().unwrap();
    let printed: Vec<String> = first.iter().map(|n| print_node(n)).collect();
    let text = printed.join(" ");
    let mut parser2 = Parser::new(text.clone());
    let second = parser2.parse().unwrap();
    assert_eq!(first, second, "printed form was: {text}");
}

#[test]
fn test_roundtrip_member_chain() {
    reparses_equal("a.b.c");
}

#[test]
fn test_roundtrip_precedence() {
    reparses_equal("c = a + b * d");
    reparses_equal("a - b - c");
}

#[test]
fn test_roundtrip_conditional() {
    reparses_equal("c = a ? b : d");
}

#[test]
fn test_roundtrip_declarations() {
    reparses_equal("let a = 1, b = 2");
    reparses_equal("let a");
    reparses_equal("var x = 1 const y = 2");
}

#[test]
fn test_roundtrip_for_statement() {
    reparses_equal("for(let i = 1; i < 10; i++) ;");
    reparses_equal("for(; i < 10; i++) { i++ }");
}

#[test]
fn test_roundtrip_calls_and_updates() {
    reparses_equal("b(d,e,f)");
    reparses_equal("c = a + +b + d++");
}
