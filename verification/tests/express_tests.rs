use jsparse::express::{ok_box, parse_expression};
use jsparse::lex::Token;
use jsparse::node::Node::{AssignmentExpression, BinaryExpression, CallExpression,
    ConditionalExpression, Identity, MemberExpression, UpdateExpression};
use jsparse::parser::Parser;

#[test]
fn express_test_dot() {
    let mut parser = Parser::new("a.b.c".to_string());
    let node = parse_expression(&mut parser, 1);
    let result = MemberExpression {
        object: Box::new(MemberExpression {
            object: Box::new(Identity { name: "a".to_string() }),
            property: Box::new(Identity { name: "b".to_string() }),
        }),
        property: Box::new(Identity { name: "c".to_string() }),
    };
    assert_eq!(node, ok_box(result))
}

#[test]
fn express_test_operator() {
    let mut parser = Parser::new("c = a + +b + d++".to_string());
    let node = parse_expression(&mut parser, 1);
    println!("{node:#?}");
}

#[test]
fn express_test_call() {
    let mut parser = Parser::new("c = a ? b(d,e,f) : 2+3".to_string());
    let node = parse_expression(&mut parser, 1);
    println!("{node:#?}");
}

#[test]
fn test_dot() {
    let mut parser = Parser::new("a.b.c".to_string());
    let ast = parser.parse();
    assert!(ast.is_ok());
    assert_eq!(parser.current, Token::EOF);
}

#[test]
fn test_question() {
    let mut parser = Parser::new("a = b ? c ? d : e : f".to_string());
    let ast = parser.parse();
    assert!(ast.is_ok());
    assert_eq!(parser.current, Token::EOF);
}

#[test]
fn test_operator() {
    let mut parser = Parser::new("c = a + +b + d++".to_string());
    let ast = parser.parse();
    assert!(ast.is_ok());
    assert_eq!(parser.current, Token::EOF);
}

#[test]
fn test_call() {
    let mut parser = Parser::new("c = a ? b(d,e,f) : 2+3".to_string());
    let ast = parser.parse();
    assert!(ast.is_ok());
    assert_eq!(parser.current, Token::EOF);
}

#[test]
fn test_precedence_star_over_plus() {
    // The right side of `=` groups as a + (b * d): `*` binds tighter.
    let mut parser = Parser::new("c = a + b * d".to_string());
    let node = parse_expression(&mut parser, 1);
    let result = AssignmentExpression {
        left: Box::new(Identity { name: "c".to_string() }),
        operator: "=".to_string(),
        right: Box::new(BinaryExpression {
            left: Box::new(Identity { name: "a".to_string() }),
            operator: "+".to_string(),
            right: Box::new(BinaryExpression {
                left: Box::new(Identity { name: "b".to_string() }),
                operator: "*".to_string(),
                right: Box::new(Identity { name: "d".to_string() }),
            }),
        }),
    };
    assert_eq!(node, ok_box(result))
}

#[test]
fn test_conditional_shape() {
    let mut parser = Parser::new("c = a ? b : d".to_string());
    let node = parse_expression(&mut parser, 1);
    let result = AssignmentExpression {
        left: Box::new(Identity { name: "c".to_string() }),
        operator: "=".to_string(),
        right: Box::new(ConditionalExpression {
            test: Box::new(Identity { name: "a".to_string() }),
            consequent: Box::new(Identity { name: "b".to_string() }),
            alternate: Box::new(Identity { name: "d".to_string() }),
        }),
    };
    assert_eq!(node, ok_box(result))
}

#[test]
fn test_same_level_left_associates() {
    let mut parser = Parser::new("a - b - c".to_string());
    let node = parse_expression(&mut parser, 1);
    let result = BinaryExpression {
        left: Box::new(BinaryExpression {
            left: Box::new(Identity { name: "a".to_string() }),
            operator: "-".to_string(),
            right: Box::new(Identity { name: "b".to_string() }),
        }),
        operator: "-".to_string(),
        right: Box::new(Identity { name: "c".to_string() }),
    };
    assert_eq!(node, ok_box(result))
}

#[test]
fn test_call_arguments_in_order() {
    let mut parser = Parser::new("b(d,e,f)".to_string());
    let node = parse_expression(&mut parser, 1);
    let result = CallExpression {
        callee: Box::new(Identity { name: "b".to_string() }),
        arguments: vec![
            Box::new(Identity { name: "d".to_string() }),
            Box::new(Identity { name: "e".to_string() }),
            Box::new(Identity { name: "f".to_string() }),
        ],
    };
    assert_eq!(node, ok_box(result))
}

#[test]
fn test_grouping_returns_inner() {
    let mut parser = Parser::new("(a)".to_string());
    let node = parse_expression(&mut parser, 1);
    assert_eq!(node, ok_box(Identity { name: "a".to_string() }));
}

#[test]
fn test_prefix_and_postfix_update() {
    let mut parser = Parser::new("++a".to_string());
    let node = parse_expression(&mut parser, 1);
    let result = UpdateExpression {
        operator: "++".to_string(),
        prefix: true,
        argument: Box::new(Identity { name: "a".to_string() }),
    };
    assert_eq!(node, ok_box(result));

    let mut parser2 = Parser::new("a++".to_string());
    let node2 = parse_expression(&mut parser2, 1);
    let result2 = UpdateExpression {
        operator: "++".to_string(),
        prefix: false,
        argument: Box::new(Identity { name: "a".to_string() }),
    };
    assert_eq!(node2, ok_box(result2));
}
