use std::rc::Rc;

use ceya::ast::{Expr, Value};
use ceya::number::Number;
use ceya::parser::Parser;
use ceya::scanner::{Token, TokenType};

fn num(value: f64) -> Number {
    Number { bits: value.to_bits(), text: format!("{}", value) }
}

#[test]
fn test_parse_primary() {
    let tokens = vec![
        Rc::new(Token { lexeme: "12".into(), line: 0, typ: TokenType::Number(num(12.0)) }),
        Rc::new(Token { lexeme: "\"string\"".into(), line: 0, typ: TokenType::String("string".into()) }),
        Rc::new(Token { lexeme: "true".into(), line: 0, typ: TokenType::True }),
        Rc::new(Token { lexeme: "false".into(), line: 0, typ: TokenType::False }),
        Rc::new(Token { lexeme: "fu".into(), line: 0, typ: TokenType::Null }),
        Rc::new(Token { lexeme: "(".into(), line: 0, typ: TokenType::LeftParen }),
        Rc::new(Token { lexeme: "true".into(), line: 0, typ: TokenType::True }),
        Rc::new(Token { lexeme: ")".into(), line: 0, typ: TokenType::RightParen }),
        Rc::new(Token { lexeme: "".into(), line: 0, typ: TokenType::EOF })
    ];
    let expected = vec![
        Expr::Literal { value: Value::Number(num(12.0)) },
        Expr::Literal { value: Value::String("string".into()) },
        Expr::Literal { value: Value::Boolean(true) },
        Expr::Literal { value: Value::Boolean(false) },
        Expr::Literal { value: Value::Null },
        Expr::Grouping { expression: Box::new(Expr::Literal { value: Value::Boolean(true) }) }
    ];

    let mut parser = Parser {
        current: 0,
        tokens
    };

    for expect in expected {
        let parsed = parser.primary().expect("Expr expected.");
        if !equal_expr(&expect,&parsed) {
            panic!("{:?} is not equal to {:?}", parsed, expect);
        }
    }
}

#[test]
fn test_parse_unary() {
    let tokens = vec![
        Rc::new(Token { lexeme: "-".into(), line: 0, typ: TokenType::Minus }),
        Rc::new(Token { lexeme: "12".into(), line: 0, typ: TokenType::Number(num(12.0)) }),
        Rc::new(Token { lexeme: "!".into(), line: 0, typ: TokenType::Bang }),
        Rc::new(Token { lexeme: "false".into(), line: 0, typ: TokenType::False }),
        Rc::new(Token { lexeme: "-".into(), line: 0, typ: TokenType::Minus }),
        Rc::new(Token { lexeme: "!".into(), line: 0, typ: TokenType::Bang }),
        Rc::new(Token { lexeme: "-".into(), line: 0, typ: TokenType::Minus }),
        Rc::new(Token { lexeme: "true".into(), line: 0, typ: TokenType::True }),
        Rc::new(Token { lexeme: "".into(), line: 0, typ: TokenType::EOF })
    ];
    let expected = vec![
        Expr::Unary { operator: Rc::new(Token { lexeme: "-".into(), line: 0, typ: TokenType::Minus }), right: Box::new(Expr::Literal { value: Value::Number(num(12.0)) }) },
        Expr::Unary { operator: Rc::new(Token { lexeme: "!".into(), line: 0, typ: TokenType::Bang }), right: Box::new(Expr::Literal { value: Value::Boolean(false) }) },
        Expr::Unary { 
            operator: Rc::new(Token { lexeme: "-".into(), line: 0, typ: TokenType::Minus }), 
            right: Box::new(Expr::Unary { 
                operator: Rc::new(Token { lexeme: "!".into(), line: 0, typ: TokenType::Bang }), 
                right: Box::new(Expr::Unary { 
                    operator: Rc::new(Token { lexeme: "-".into(), line: 0, typ: TokenType::Minus }), 
                    right: Box::new(Expr::Literal { value: Value::Boolean(true) })
                })
            })
        }
    ];

    let mut parser = Parser {
        current: 0,
        tokens
    };

    for expect in expected {
        let parsed = parser.unary().expect("Expr expected.");
        if !equal_expr(&expect,&parsed) {
            panic!("{:?} is not equal to {:?}", parsed, expect);
        }
    }
}

#[test]
fn test_parse_factor() {
    let tokens = vec![
        Rc::new(Token { lexeme: "12".into(), line: 0, typ: TokenType::Number(num(12.0)) }),
        Rc::new(Token { lexeme: "*".into(), line: 0, typ: TokenType::Star }),
        Rc::new(Token { lexeme: "0.1".into(), line: 0, typ: TokenType::Number(num(0.1)) }),
        Rc::new(Token { lexeme: "12".into(), line: 0, typ: TokenType::Number(num(12.0)) }),
        Rc::new(Token { lexeme: "/".into(), line: 0, typ: TokenType::Slash }),
        Rc::new(Token { lexeme: "12".into(), line: 0, typ: TokenType::Number(num(12.0)) }),
        Rc::new(Token { lexeme: "12".into(), line: 0, typ: TokenType::Number(num(12.0)) }),
        Rc::new(Token { lexeme: "*".into(), line: 0, typ: TokenType::Star }),
        Rc::new(Token { lexeme: "2".into(), line: 0, typ: TokenType::Number(num(2.0)) }),
        Rc::new(Token { lexeme: "/".into(), line: 0, typ: TokenType::Slash }),
        Rc::new(Token { lexeme: "4".into(), line: 0, typ: TokenType::Number(num(4.0)) }),
        Rc::new(Token { lexeme: "*".into(), line: 0, typ: TokenType::Star }),
        Rc::new(Token { lexeme: "2".into(), line: 0, typ: TokenType::Number(num(2.0)) }),
        Rc::new(Token { lexeme: "".into(), line: 0, typ: TokenType::EOF })
    ];
    let expected = vec![
        Expr::Binary { 
            left: Box::new(Expr::Literal { value: Value::Number(num(12.0)) }), 
            operator: Rc::new(Token { lexeme: "*".into(), line: 0, typ: TokenType::Star }), 
            right: Box::new(Expr::Literal { value: Value::Number(num(0.1)) }) 
        },
        Expr::Binary { 
            left: Box::new(Expr::Literal { value: Value::Number(num(12.0)) }), 
            operator: Rc::new(Token { lexeme: "/".into(), line: 0, typ: TokenType::Slash }), 
            right: Box::new(Expr::Literal { value: Value::Number(num(12.0)) }) 
        },
        Expr::Binary { 
            left: Box::new(Expr::Binary { 
                left: Box::new(Expr::Binary { 
                    left: Box::new(Expr::Literal { value: Value::Number(num(12.0)) }), 
                    operator: Rc::new(Token { lexeme: "*".into(), line: 0, typ: TokenType::Star }), 
                    right: Box::new(Expr::Literal { value: Value::Number(num(2.0)) })  
                }), 
                operator: Rc::new(Token { lexeme: "/".into(), line: 0, typ: TokenType::Slash }), 
                right: Box::new(Expr::Literal { value: Value::Number(num(4.0)) }) 
            }), 
            operator: Rc::new(Token { lexeme: "*".into(), line: 0, typ: TokenType::Star }), 
            right: Box::new(Expr::Literal { value: Value::Number(num(2.0)) }) 
        },
    ];

    let mut parser = Parser {
        current: 0,
        tokens
    };

    for expect in expected {
        let parsed = parser.factor().expect("Expr expected.");
        if !equal_expr(&expect,&parsed) {
            panic!("{:?} is not equal to {:?}", parsed, expect);
        }
    }
}

#[test]
fn test_parse_term() {
    let tokens = vec![
        Rc::new(Token { lexeme: "12".into(), line: 0, typ: TokenType::Number(num(12.0)) }),
        Rc::new(Token { lexeme: "+".into(), line: 0, typ: TokenType::Plus }),
        Rc::new(Token { lexeme: "0.1".into(), line: 0, typ: TokenType::Number(num(0.1)) }),
        Rc::new(Token { lexeme: "12".into(), line: 0, typ: TokenType::Number(num(12.0)) }),
        Rc::new(Token { lexeme: "-".into(), line: 0, typ: TokenType::Minus }),
        Rc::new(Token { lexeme: "12".into(), line: 0, typ: TokenType::Number(num(12.0)) }),
        Rc::new(Token { lexeme: "12".into(), line: 0, typ: TokenType::Number(num(12.0)) }),
        Rc::new(Token { lexeme: "+".into(), line: 0, typ: TokenType::Plus }),
        Rc::new(Token { lexeme: "2".into(), line: 0, typ: TokenType::Number(num(2.0)) }),
        Rc::new(Token { lexeme: "-".into(), line: 0, typ: TokenType::Minus }),
        Rc::new(Token { lexeme: "4".into(), line: 0, typ: TokenType::Number(num(4.0)) }),
        Rc::new(Token { lexeme: "+".into(), line: 0, typ: TokenType::Plus }),
        Rc::new(Token { lexeme: "2".into(), line: 0, typ: TokenType::Number(num(2.0)) }),
        Rc::new(Token { lexeme: "".into(), line: 0, typ: TokenType::EOF })
    ];
    let expected = vec![
        Expr::Binary { 
            left: Box::new(Expr::Literal { value: Value::Number(num(12.0)) }), 
            operator: Rc::new(Token { lexeme: "+".into(), line: 0, typ: TokenType::Plus }), 
            right: Box::new(Expr::Literal { value: Value::Number(num(0.1)) }) 
        },
        Expr::Binary { 
            left: Box::new(Expr::Literal { value: Value::Number(num(12.0)) }), 
            operator: Rc::new(Token { lexeme: "-".into(), line: 0, typ: TokenType::Minus }), 
            right: Box::new(Expr::Literal { value: Value::Number(num(12.0)) }) 
        },
        Expr::Binary { 
            left: Box::new(Expr::Binary { 
                left: Box::new(Expr::Binary { 
                    left: Box::new(Expr::Literal { value: Value::Number(num(12.0)) }), 
                    operator: Rc::new(Token { lexeme: "+".into(), line: 0, typ: TokenType::Plus }), 
                    right: Box::new(Expr::Literal { value: Value::Number(num(2.0)) })  
                }), 
                operator: Rc::new(Token { lexeme: "-".into(), line: 0, typ: TokenType::Minus }), 
                right: Box::new(Expr::Literal { value: Value::Number(num(4.0)) }) 
            }), 
            operator: Rc::new(Token { lexeme: "+".into(), line: 0, typ: TokenType::Plus }), 
            right: Box::new(Expr::Literal { value: Value::Number(num(2.0)) }) 
        },
    ];

    let mut parser = Parser {
        current: 0,
        tokens
    };

    for expect in expected {
        let parsed = parser.term().expect("Expr expected.");
        if !equal_expr(&expect,&parsed) {
            panic!("{:?} is not equal to {:?}", parsed, expect);
        }
    }
}

#[test]
fn test_parse_comparison() {
    let tokens = vec![
        Rc::new(Token { lexeme: "12".into(), line: 0, typ: TokenType::Number(num(12.0)) }),
        Rc::new(Token { lexeme: "<".into(), line: 0, typ: TokenType::Less }),
        Rc::new(Token { lexeme: "0.1".into(), line: 0, typ: TokenType::Number(num(0.1)) }),
        Rc::new(Token { lexeme: "12".into(), line: 0, typ: TokenType::Number(num(12.0)) }),
        Rc::new(Token { lexeme: ">".into(), line: 0, typ: TokenType::Greater }),
        Rc::new(Token { lexeme: "12".into(), line: 0, typ: TokenType::Number(num(12.0)) }),
        Rc::new(Token { lexeme: "12".into(), line: 0, typ: TokenType::Number(num(12.0)) }),
        Rc::new(Token { lexeme: "<".into(), line: 0, typ: TokenType::Less }),
        Rc::new(Token { lexeme: "2".into(), line: 0, typ: TokenType::Number(num(2.0)) }),
        Rc::new(Token { lexeme: ">=".into(), line: 0, typ: TokenType::GreaterEqual }),
        Rc::new(Token { lexeme: "4".into(), line: 0, typ: TokenType::Number(num(4.0)) }),
        Rc::new(Token { lexeme: "<=".into(), line: 0, typ: TokenType::LessEqual }),
        Rc::new(Token { lexeme: "2".into(), line: 0, typ: TokenType::Number(num(2.0)) }),
        Rc::new(Token { lexeme: "".into(), line: 0, typ: TokenType::EOF })
    ];
    let expected = vec![
        Expr::Binary { 
            left: Box::new(Expr::Literal { value: Value::Number(num(12.0)) }), 
            operator: Rc::new(Token { lexeme: "<".into(), line: 0, typ: TokenType::Less }), 
            right: Box::new(Expr::Literal { value: Value::Number(num(0.1)) }) 
        },
        Expr::Binary { 
            left: Box::new(Expr::Literal { value: Value::Number(num(12.0)) }), 
            operator: Rc::new(Token { lexeme: ">".into(), line: 0, typ: TokenType::Greater }), 
            right: Box::new(Expr::Literal { value: Value::Number(num(12.0)) }) 
        },
        Expr::Binary { 
            left: Box::new(Expr::Binary { 
                left: Box::new(Expr::Binary { 
                    left: Box::new(Expr::Literal { value: Value::Number(num(12.0)) }), 
                    operator: Rc::new(Token { lexeme: "<".into(), line: 0, typ: TokenType::Less }), 
                    right: Box::new(Expr::Literal { value: Value::Number(num(2.0)) })  
                }), 
                operator: Rc::new(Token { lexeme: ">=".into(), line: 0, typ: TokenType::GreaterEqual }), 
                right: Box::new(Expr::Literal { value: Value::Number(num(4.0)) }) 
            }), 
            operator: Rc::new(Token { lexeme: "<=".into(), line: 0, typ: TokenType::LessEqual }), 
            right: Box::new(Expr::Literal { value: Value::Number(num(2.0)) }) 
        },
    ];

    let mut parser = Parser {
        current: 0,
        tokens
    };

    for expect in expected {
        let parsed = parser.comparison().expect("Expr expected.");
        if !equal_expr(&expect,&parsed) {
            panic!("{:?} is not equal to {:?}", parsed, expect);
        }
    }
}

#[test]
fn test_parse_equality() {
    let tokens = vec![
        Rc::new(Token { lexeme: "12".into(), line: 0, typ: TokenType::Number(num(12.0)) }),
        Rc::new(Token { lexeme: "==".into(), line: 0, typ: TokenType::EqualEqual }),
        Rc::new(Token { lexeme: "0.1".into(), line: 0, typ: TokenType::Number(num(0.1)) }),
        Rc::new(Token { lexeme: "12".into(), line: 0, typ: TokenType::Number(num(12.0)) }),
        Rc::new(Token { lexeme: "!=".into(), line: 0, typ: TokenType::BangEqual }),
        Rc::new(Token { lexeme: "12".into(), line: 0, typ: TokenType::Number(num(12.0)) }),
        Rc::new(Token { lexeme: "12".into(), line: 0, typ: TokenType::Number(num(12.0)) }),
        Rc::new(Token { lexeme: "==".into(), line: 0, typ: TokenType::EqualEqual }),
        Rc::new(Token { lexeme: "2".into(), line: 0, typ: TokenType::Number(num(2.0)) }),
        Rc::new(Token { lexeme: "!=".into(), line: 0, typ: TokenType::BangEqual }),
        Rc::new(Token { lexeme: "4".into(), line: 0, typ: TokenType::Number(num(4.0)) }),
        Rc::new(Token { lexeme: "!=".into(), line: 0, typ: TokenType::BangEqual }),
        Rc::new(Token { lexeme: "2".into(), line: 0, typ: TokenType::Number(num(2.0)) }),
        Rc::new(Token { lexeme: "".into(), line: 0, typ: TokenType::EOF })
    ];
    let expected = vec![
        Expr::Binary { 
            left: Box::new(Expr::Literal { value: Value::Number(num(12.0)) }), 
            operator: Rc::new(Token { lexeme: "==".into(), line: 0, typ: TokenType::EqualEqual }), 
            right: Box::new(Expr::Literal { value: Value::Number(num(0.1)) }) 
        },
        Expr::Binary { 
            left: Box::new(Expr::Literal { value: Value::Number(num(12.0)) }), 
            operator: Rc::new(Token { lexeme: "!=".into(), line: 0, typ: TokenType::BangEqual }), 
            right: Box::new(Expr::Literal { value: Value::Number(num(12.0)) }) 
        },
        Expr::Binary { 
            left: Box::new(Expr::Binary { 
                left: Box::new(Expr::Binary { 
                    left: Box::new(Expr::Literal { value: Value::Number(num(12.0)) }), 
                    operator: Rc::new(Token { lexeme: "==".into(), line: 0, typ: TokenType::EqualEqual }), 
                    right: Box::new(Expr::Literal { value: Value::Number(num(2.0)) })  
                }), 
                operator: Rc::new(Token { lexeme: "!=".into(), line: 0, typ: TokenType::BangEqual }), 
                right: Box::new(Expr::Literal { value: Value::Number(num(4.0)) }) 
            }), 
            operator: Rc::new(Token { lexeme: "!=".into(), line: 0, typ: TokenType::BangEqual }), 
            right: Box::new(Expr::Literal { value: Value::Number(num(2.0)) }) 
        },
    ];

    let mut parser = Parser {
        current: 0,
        tokens
    };

    for expect in expected {
        let parsed = parser.equality().expect("Expr expected.");
        if !equal_expr(&expect,&parsed) {
            panic!("{:?} is not equal to {:?}", parsed, expect);
        }
    }
}

#[test]
fn test_parse_expression() {
    let tokens = vec![
        Rc::new(Token { lexeme: "12".into(), line: 0, typ: TokenType::Number(num(12.0)) }),
        Rc::new(Token { lexeme: "<".into(), line: 0, typ: TokenType::Less }),
        Rc::new(Token { lexeme: "(".into(), line: 0, typ: TokenType::LeftParen }),
        Rc::new(Token { lexeme: "0.1".into(), line: 0, typ: TokenType::Number(num(0.1)) }),
        Rc::new(Token { lexeme: "+".into(), line: 0, typ: TokenType::Plus }),
        Rc::new(Token { lexeme: "5".into(), line: 0, typ: TokenType::Number(num(5.0)) }),
        Rc::new(Token { lexeme: ")".into(), line: 0, typ: TokenType::RightParen }),
        Rc::new(Token { lexeme: "*".into(), line: 0, typ: TokenType::Star }),
        Rc::new(Token { lexeme: "-".into(), line: 0, typ: TokenType::Minus }),
        Rc::new(Token { lexeme: "2".into(), line: 0, typ: TokenType::Number(num(2.0)) }),
        Rc::new(Token { lexeme: "==".into(), line: 0, typ: TokenType::EqualEqual }),
        Rc::new(Token { lexeme: "true".into(), line: 0, typ: TokenType::True }),
        Rc::new(Token { lexeme: "".into(), line: 0, typ: TokenType::EOF })
    ];
    let expected = vec![
        Expr::Binary { 
            left: Box::new(Expr::Binary { 
                left: Box::new(Expr::Literal { value: Value::Number(num(12.0)) }),
                operator: Rc::new(Token { lexeme: "<".into(), line: 0, typ: TokenType::Less }), 
                right: Box::new(Expr::Binary { 
                    left: Box::new(Expr::Grouping { 
                        expression: Box::new(Expr::Binary { 
                            left: Box::new(Expr::Literal { value: Value::Number(num(0.1)) }), 
                            operator: Rc::new(Token { lexeme: "+".into(), line: 0, typ: TokenType::Plus }), 
                            right: Box::new(Expr::Literal { value: Value::Number(num(5.0)) })
                        }) 
                    }), 
                    operator: Rc::new(Token { lexeme: "*".into(), line: 0, typ: TokenType::Star }), 
                    right: Box::new(Expr::Unary { 
                        operator: Rc::new(Token { lexeme: "-".into(), line: 0, typ: TokenType::Minus }), 
                        right: Box::new(Expr::Literal { value: Value::Number(num(2.0)) }) 
                    })
                }) 
            }), 
            operator: Rc::new(Token { lexeme: "==".into(), line: 0, typ: TokenType::EqualEqual }), 
            right: Box::new(Expr::Literal { value: Value::Boolean(true) }) 
        },
    ];

    let mut parser = Parser {
        current: 0,
        tokens
    };

    for expect in expected {
        let parsed = parser.expression().expect("Expr expected.");
        if !equal_expr(&expect,&parsed) {
            panic!("{:?} is not equal to {:?}", parsed, expect);
        }
    }
}

fn equal_expr(expr1: &Expr, expr2: &Expr) -> bool {
    match (expr1, expr2) {
        (Expr::Literal { value: v1 }, Expr::Literal { value: v2 }) => v1 == v2,
        (Expr::Unary { operator: op1, right: r1 }, Expr::Unary { operator: op2, right: r2 }) => {
            if op1.typ != op2.typ {
                return false;
            }

            equal_expr(r1, r2)
        },
        (Expr::Grouping { expression: expr1 }, Expr::Grouping { expression: expr2 }) => equal_expr(expr1, expr2),
        (Expr::Binary { left: l1, operator: op1, right: r1 }, Expr::Binary { left: l2, operator: op2, right: r2 }) => {
            if op1.typ != op2.typ {
                return false;
            }

            equal_expr(l1, l2) && equal_expr(r1, r2)
        }
        (_, _) => false
    }
}
