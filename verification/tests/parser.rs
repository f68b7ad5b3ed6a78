use langfront::lexer::lexer::Lexer;
use langfront::lexer::token::{Token, TokenPosition, TokenType};
use langfront::parser::errors::{DeclarationKind, ParseError, ValueKind};
use langfront::parser::parser::Parser;
use langfront::parser::statements::Statement;
use langfront::parser::tree::{
    BlockNode, BoolNode, FunctionArgNode, FunctionCallNode, FunctionNode, Node, NumberNode,
    StatementNode, StringNode, VariableCallNode, VariableNode,
};
use langfront::parser::types::Type;

fn class_of(text: &str) -> TokenType {
    let first = text.chars().next().unwrap();
    if first.is_ascii_alphabetic() {
        TokenType::Keyword
    } else if first.is_ascii_digit() {
        TokenType::Number
    } else if first == '"' {
        TokenType::String
    } else if text == "::" || text == "->" {
        TokenType::Symbol
    } else if "\n,(){}".contains(first) {
        TokenType::Separator
    } else {
        TokenType::Operator
    }
}

fn tokens_of(texts: &[&str]) -> Vec<Token> {
    let mut tokens = Vec::new();
    for (i, text) in texts.iter().enumerate() {
        tokens.push(Token {
            token_type: class_of(text),
            content: text.to_string(),
            position: TokenPosition { start: i, end: i },
        });
    }
    tokens
}

fn parser_of(texts: &[&str]) -> Parser {
    Parser::new(tokens_of(texts))
}

fn lexed(text: &str) -> Parser {
    let mut lexer = Lexer::new();
    let tokens = lexer.lex(text.to_string()).unwrap().clone();
    Parser::new(tokens)
}

fn number(int_value: usize) -> Node {
    Node::Number(NumberNode { int_value })
}

fn variable(name: &str) -> Node {
    Node::VariableCall(VariableCallNode { name: name.to_string() })
}

fn call(name: &str, args: Vec<Node>) -> Node {
    Node::FunctionCall(FunctionCallNode { name: name.to_string(), args })
}

fn block(nodes: Vec<Node>) -> Node {
    Node::Block(BlockNode { nodes })
}

fn declaration(name: &str, var_type: Type, value: Node) -> Node {
    Node::Variable(VariableNode { var_type, name: name.to_string(), value: Box::new(value) })
}

fn missing(expected: &str, found: &str) -> ParseError {
    ParseError::MissingToken { expected: expected.to_string(), found: found.to_string() }
}

fn invalid(reason: ValueKind, found: &str) -> ParseError {
    ParseError::InvalidValue { reason, found: found.to_string() }
}

#[test]
fn new_parser_stands_at_the_first_token() {
    let parser = parser_of(&["a", "b"]);
    assert_eq!(parser.position(), 0);
    assert!(parser.diagnostics().is_empty());
}

#[test]
fn function_declaration_parses() {
    let mut parser = parser_of(&[
        "fcn", "add", "(", "x", "::", "Int32", ",", "y", "::", "Int32", ")", "->", "Int32", "{",
        "var", "z", "::", "Int32", "=", "x", "}",
    ]);
    let function = parser.parse();
    assert_eq!(
        function,
        Some(Node::Function(FunctionNode {
            name: "add".to_string(),
            args: vec![
                FunctionArgNode { var_type: Type::Int32, name: "x".to_string() },
                FunctionArgNode { var_type: Type::Int32, name: "y".to_string() },
            ],
            return_type: Type::Int32,
            block: Box::new(block(vec![declaration("z", Type::Int32, variable("x"))])),
        }))
    );
    assert_eq!(parser.position(), 20);
    assert!(parser.diagnostics().is_empty());
}

#[test]
fn function_declaration_without_arguments_parses() {
    let mut parser = parser_of(&["fcn", "f", "(", ")", "->", "Bool", "{", "return", "True", "}"]);
    assert_eq!(
        parser.parse(),
        Some(Node::Function(FunctionNode {
            name: "f".to_string(),
            args: vec![],
            return_type: Type::Bool,
            block: Box::new(block(vec![Node::Statement(StatementNode {
                stat_type: Statement::Return,
                value: Some(Box::new(Node::Bool(BoolNode { value: true }))),
            })])),
        }))
    );
    assert_eq!(parser.position(), 9);
}

#[test]
fn lexed_arrow_is_no_arrow_to_the_parser() {
    let mut parser = lexed("fcn add(x :: Bool, y :: Bool) -> Bool { var z :: Bool = x }");
    assert_eq!(parser.parse(), None);
    assert_eq!(parser.diagnostics(), &vec![missing("->", "-")]);
    assert_eq!(parser.position(), 11);
}

#[test]
fn lexed_type_name_with_digits_is_no_type_to_the_parser() {
    let mut parser = lexed("fcn add(x :: Int32, y :: Int32) -> Int32 { var z :: Int32 = x }");
    assert_eq!(parser.parse(), None);
    assert_eq!(parser.diagnostics(), &vec![ParseError::UnresolvedType { reason: DeclarationKind::Argument }]);
    assert_eq!(parser.position(), 5);
}

#[test]
fn parse_of_no_tokens_is_no_function() {
    let mut parser = Parser::new(Vec::new());
    assert_eq!(parser.parse(), None);
    assert_eq!(parser.position(), 0);
    assert!(parser.diagnostics().is_empty());
}

#[test]
fn parse_needs_the_fcn_word() {
    let mut parser = parser_of(&["add", "(", ")", "->", "Int32", "{", "}"]);
    assert_eq!(parser.parse(), None);
    assert_eq!(parser.position(), 0);
    assert!(parser.diagnostics().is_empty());
}

#[test]
fn function_declaration_without_paren_ends_the_parse() {
    let mut parser = parser_of(&["fcn", "f", "->", "Int32", "{", "}"]);
    assert_eq!(parser.parse(), None);
    assert_eq!(parser.diagnostics(), &vec![missing("(", "->")]);
    assert_eq!(parser.position(), 2);
}

#[test]
fn function_declaration_with_unknown_argument_type_ends_the_parse() {
    let mut parser = parser_of(&["fcn", "f", "(", "x", "::", "Number", ")", "->", "Int32", "{", "}"]);
    assert_eq!(parser.parse(), None);
    assert_eq!(parser.diagnostics(), &vec![ParseError::UnresolvedType { reason: DeclarationKind::Argument }]);
    assert_eq!(parser.position(), 5);
}

#[test]
fn function_declaration_with_argument_without_type_ends_the_parse() {
    let mut parser = parser_of(&["fcn", "f", "(", "x", ")", "->", "Int32", "{", "}"]);
    assert_eq!(parser.parse(), None);
    assert_eq!(parser.diagnostics(), &vec![missing("::", ")")]);
}

#[test]
fn function_declaration_with_open_argument_list_ends_the_parse() {
    let mut parser = parser_of(&["fcn", "f", "(", "x", "::", "Int8"]);
    assert_eq!(parser.parse(), None);
    assert_eq!(parser.diagnostics(), &vec![missing(")", "Int8")]);
    let mut parser = parser_of(&["fcn", "f", "("]);
    assert_eq!(parser.parse(), None);
    assert_eq!(parser.diagnostics(), &vec![ParseError::InvalidName { reason: DeclarationKind::Argument }]);
}

#[test]
fn function_declaration_without_arrow_ends_the_parse() {
    let mut parser = parser_of(&["fcn", "f", "(", ")", "Int32", "{", "}"]);
    assert_eq!(parser.parse(), None);
    assert_eq!(parser.diagnostics(), &vec![missing("->", "Int32")]);
}

#[test]
fn function_declaration_with_unknown_return_type_ends_the_parse() {
    let mut parser = parser_of(&["fcn", "f", "(", ")", "->", "Void", "{", "}"]);
    assert_eq!(parser.parse(), None);
    assert_eq!(parser.diagnostics(), &vec![ParseError::UnresolvedReturnType]);
}

#[test]
fn function_declaration_without_block_ends_the_parse() {
    let mut parser = parser_of(&["fcn", "f", "(", ")", "->", "Int32", "x"]);
    assert_eq!(parser.parse(), None);
    assert_eq!(parser.diagnostics(), &vec![ParseError::MissingBlock]);
}

#[test]
fn function_arguments_need_no_commas() {
    let mut parser =
        parser_of(&["fcn", "f", "(", "a", "::", "Char", "b", "::", "Int64", ")", "->", "Bool", "{", "}"]);
    match parser.parse() {
        Some(Node::Function(function)) => {
            assert_eq!(
                function.args,
                vec![
                    FunctionArgNode { var_type: Type::Char, name: "a".to_string() },
                    FunctionArgNode { var_type: Type::Int64, name: "b".to_string() },
                ]
            );
        }
        other => panic!("no function: {:?}", other),
    }
}

#[test]
fn open_call_gives_the_cursor_back() {
    let mut parser = lexed("foo(");
    assert_eq!(parser.parse_func_call(), None);
    assert_eq!(parser.position(), 0);
    assert_eq!(parser.parse_var_call(), Some(variable("foo")));
    assert_eq!(parser.position(), 0);
}

#[test]
fn open_call_with_arguments_gives_the_cursor_back() {
    let mut parser = lexed("foo(1, bar(2)");
    assert_eq!(parser.parse_func_call(), None);
    assert_eq!(parser.position(), 0);
    let mut parser = lexed("x foo(1,");
    assert_eq!(parser.parse_func_call(), None);
    assert_eq!(parser.position(), 0);
}

#[test]
fn open_call_is_a_variable_to_an_expression() {
    let mut parser = lexed("foo(");
    assert_eq!(parser.parse_expr(), Some(variable("foo")));
    assert_eq!(parser.position(), 0);
}

#[test]
fn call_without_arguments_parses() {
    let mut parser = lexed("add()");
    assert_eq!(parser.parse_func_call(), Some(call("add", vec![])));
    assert_eq!(parser.position(), 2);
    assert!(parser.diagnostics().is_empty());
}

#[test]
fn call_with_two_numbers_parses() {
    let mut parser = lexed("add(1, 2)");
    assert_eq!(parser.parse_func_call(), Some(call("add", vec![number(1), number(2)])));
    assert_eq!(parser.position(), 5);
    assert!(parser.diagnostics().is_empty());
}

#[test]
fn call_arguments_may_be_calls() {
    let mut parser = lexed("f(g(x, True), \"s\", h())");
    assert_eq!(
        parser.parse_expr(),
        Some(call(
            "f",
            vec![
                call("g", vec![variable("x"), Node::Bool(BoolNode { value: true })]),
                Node::String(StringNode { value: "\"s\"".to_string() }),
                call("h", vec![]),
            ]
        ))
    );
    assert_eq!(parser.position(), 14);
}

#[test]
fn token_that_starts_no_argument_is_reported_and_passed_over() {
    let mut parser = lexed("add(1 + 2)");
    assert_eq!(parser.parse_func_call(), Some(call("add", vec![number(1), number(2)])));
    assert_eq!(parser.diagnostics(), &vec![invalid(ValueKind::Parameter, "+")]);
    assert_eq!(parser.position(), 5);
}

#[test]
fn call_needs_a_name_and_a_paren() {
    let mut parser = lexed("add 1");
    assert_eq!(parser.parse_func_call(), None);
    assert_eq!(parser.position(), 0);
    let mut parser = lexed("(1)");
    assert_eq!(parser.parse_func_call(), None);
    assert_eq!(parser.position(), 0);
    let mut parser = lexed("add");
    assert_eq!(parser.parse_func_call(), None);
    assert_eq!(parser.position(), 0);
}

#[test]
fn forbidden_words_name_no_call() {
    for word in
        ["Int8", "Int16", "Int32", "Int64", "Float32", "Float64", "Bool", "Char", "String", "var", "if", "else", "return"]
    {
        let mut parser = parser_of(&[word, "(", ")"]);
        assert_eq!(parser.parse_func_call(), None);
        assert_eq!(parser.position(), 0);
    }
}

#[test]
fn forbidden_words_name_no_variable() {
    for word in
        ["Int8", "Int16", "Int32", "Int64", "Float32", "Float64", "Bool", "Char", "String", "var", "if", "else", "return"]
    {
        let mut parser = parser_of(&[word]);
        assert_eq!(parser.parse_var_call(), None);
        assert_eq!(parser.parse_expr(), None);
        let mut parser = parser_of(&["var", word, "::", "Int32", "=", "1"]);
        assert_eq!(parser.parse_var_decl(), None);
        assert_eq!(parser.position(), 0);
        assert_eq!(parser.diagnostics(), &vec![ParseError::InvalidName { reason: DeclarationKind::Variable }]);
    }
}

#[test]
fn forbidden_words_name_no_function_and_no_argument() {
    for word in
        ["Int8", "Int16", "Int32", "Int64", "Float32", "Float64", "Bool", "Char", "String", "var", "if", "else", "return"]
    {
        let mut parser = parser_of(&["fcn", word, "(", ")", "->", "Int32", "{", "}"]);
        assert_eq!(parser.parse(), None);
        let mut parser = parser_of(&["fcn", "f", "(", word, "::", "Int32", ")", "->", "Int32", "{", "}"]);
        assert_eq!(parser.parse(), None);
        assert_eq!(parser.diagnostics(), &vec![ParseError::InvalidName { reason: DeclarationKind::Argument }]);
    }
}

#[test]
fn other_words_are_names() {
    for word in ["fcn", "break", "continue", "True", "x", "int", "Var", "returns"] {
        let mut parser = parser_of(&[word]);
        assert_eq!(parser.parse_var_call(), Some(variable(word)));
    }
}

#[test]
fn literals_parse() {
    let mut parser = lexed("True");
    assert_eq!(parser.parse_value(), Some(Node::Bool(BoolNode { value: true })));
    let mut parser = lexed("False");
    assert_eq!(parser.parse_expr(), Some(Node::Bool(BoolNode { value: false })));
    let mut parser = lexed("0042");
    assert_eq!(parser.parse_value(), Some(number(42)));
    let mut parser = lexed("0");
    assert_eq!(parser.parse_expr(), Some(number(0)));
    let mut parser = lexed("\"a b\"");
    assert_eq!(parser.parse_value(), Some(Node::String(StringNode { value: "\"a b\"".to_string() })));
    assert_eq!(parser.position(), 0);
}

#[test]
fn other_tokens_are_no_literals() {
    let mut parser = lexed("true");
    assert_eq!(parser.parse_value(), None);
    let mut parser = lexed("+");
    assert_eq!(parser.parse_value(), None);
    assert_eq!(parser.parse_expr(), None);
    let mut parser = lexed("(");
    assert_eq!(parser.parse_value(), None);
    let mut parser = Parser::new(Vec::new());
    assert_eq!(parser.parse_value(), None);
    assert_eq!(parser.parse_expr(), None);
    assert_eq!(parser.parse_var_call(), None);
    assert_eq!(parser.parse_func_call(), None);
}

#[test]
fn largest_number_parses_and_the_next_does_not() {
    let largest = usize::MAX.to_string();
    let mut parser = lexed(&largest);
    assert_eq!(parser.parse_value(), Some(number(usize::MAX)));
    let mut digits = largest.clone().into_bytes();
    let last = digits.len() - 1;
    digits[last] += 1;
    let next = String::from_utf8(digits).unwrap();
    let mut parser = lexed(&next);
    assert_eq!(parser.parse_value(), None);
    let mut parser = lexed("340282366920938463463374607431768211456");
    assert_eq!(parser.parse_expr(), None);
}

#[test]
fn number_token_with_other_text_is_no_literal() {
    let mut parser = Parser::new(vec![Token {
        token_type: TokenType::Number,
        content: "12a".to_string(),
        position: TokenPosition { start: 0, end: 2 },
    }]);
    assert_eq!(parser.parse_value(), None);
    let mut parser = Parser::new(vec![Token {
        token_type: TokenType::Number,
        content: "".to_string(),
        position: TokenPosition { start: 0, end: 0 },
    }]);
    assert_eq!(parser.parse_value(), None);
    let mut parser = Parser::new(vec![Token {
        token_type: TokenType::Number,
        content: "\u{663}".to_string(),
        position: TokenPosition { start: 0, end: 1 },
    }]);
    assert_eq!(parser.parse_value(), None);
}

#[test]
fn variable_declaration_parses() {
    let mut parser = parser_of(&["var", "z", "::", "Int32", "=", "x"]);
    assert_eq!(parser.parse_var_decl(), Some(declaration("z", Type::Int32, variable("x"))));
    assert_eq!(parser.position(), 5);
    let mut parser = lexed("var b :: Bool = False");
    assert_eq!(
        parser.parse_var_decl(),
        Some(declaration("b", Type::Bool, Node::Bool(BoolNode { value: false })))
    );
    assert!(parser.diagnostics().is_empty());
    let mut parser = lexed("var s :: String = f(\"a\")");
    assert_eq!(
        parser.parse_node(),
        Some(declaration(
            "s",
            Type::String,
            call("f", vec![Node::String(StringNode { value: "\"a\"".to_string() })])
        ))
    );
    assert_eq!(parser.position(), 8);
}

#[test]
fn variable_declaration_reports_what_is_missing() {
    let mut parser = lexed("var");
    assert_eq!(parser.parse_var_decl(), None);
    assert_eq!(parser.diagnostics(), &vec![ParseError::InvalidName { reason: DeclarationKind::Variable }]);
    let mut parser = lexed("var 1");
    assert_eq!(parser.parse_var_decl(), None);
    assert_eq!(parser.diagnostics(), &vec![ParseError::InvalidName { reason: DeclarationKind::Variable }]);
    let mut parser = lexed("var z = 1");
    assert_eq!(parser.parse_var_decl(), None);
    assert_eq!(parser.diagnostics(), &vec![missing("::", "=")]);
    assert_eq!(parser.position(), 0);
    let mut parser = lexed("var z :: 1");
    assert_eq!(parser.parse_var_decl(), None);
    assert_eq!(parser.diagnostics(), &vec![ParseError::UnresolvedType { reason: DeclarationKind::Variable }]);
    let mut parser = lexed("var z :: Number = 1");
    assert_eq!(parser.parse_var_decl(), None);
    assert_eq!(parser.diagnostics(), &vec![ParseError::UnresolvedType { reason: DeclarationKind::Variable }]);
    let mut parser = lexed("var z :: Bool True");
    assert_eq!(parser.parse_var_decl(), None);
    assert_eq!(parser.diagnostics(), &vec![missing("=", "True")]);
    let mut parser = lexed("var z :: Bool = +");
    assert_eq!(parser.parse_var_decl(), None);
    assert_eq!(parser.diagnostics(), &vec![invalid(ValueKind::Variable, "+")]);
    assert_eq!(parser.position(), 0);
}

#[test]
fn other_first_token_is_no_variable_declaration() {
    let mut parser = lexed("z :: Int32 = 1");
    assert_eq!(parser.parse_var_decl(), None);
    assert_eq!(parser.position(), 0);
    assert!(parser.diagnostics().is_empty());
}

#[test]
fn statements_parse() {
    let mut parser = lexed("break");
    assert_eq!(
        parser.parse_statement(),
        Some(Node::Statement(StatementNode { stat_type: Statement::Break, value: None }))
    );
    let mut parser = lexed("continue 1");
    assert_eq!(
        parser.parse_node(),
        Some(Node::Statement(StatementNode { stat_type: Statement::Continue, value: None }))
    );
    assert_eq!(parser.position(), 0);
    let mut parser = lexed("return f(1)");
    assert_eq!(
        parser.parse_node(),
        Some(Node::Statement(StatementNode {
            stat_type: Statement::Return,
            value: Some(Box::new(call("f", vec![number(1)]))),
        }))
    );
    assert_eq!(parser.position(), 4);
}

#[test]
fn return_without_value_is_reported_and_stays_a_statement() {
    let mut parser = lexed("return }");
    assert_eq!(
        parser.parse_statement(),
        Some(Node::Statement(StatementNode { stat_type: Statement::Return, value: None }))
    );
    assert_eq!(parser.diagnostics(), &vec![invalid(ValueKind::Return, "}")]);
    assert_eq!(parser.position(), 1);
    let mut parser = lexed("return");
    assert_eq!(
        parser.parse_statement(),
        Some(Node::Statement(StatementNode { stat_type: Statement::Return, value: None }))
    );
    assert_eq!(parser.diagnostics(), &vec![invalid(ValueKind::Return, "return")]);
}

#[test]
fn other_words_are_no_statements() {
    let mut parser = lexed("x");
    assert_eq!(parser.parse_statement(), None);
    let mut parser = lexed("1");
    assert_eq!(parser.parse_statement(), None);
    assert_eq!(parser.parse_node(), None);
    assert!(parser.diagnostics().is_empty());
}

#[test]
fn blocks_parse() {
    let mut parser = lexed("{}");
    assert_eq!(parser.parse_block(), Some(block(vec![])));
    assert_eq!(parser.position(), 1);
    let mut parser = lexed("{\n  var a :: Char = 1\n  f(a)\n  { break }\n  return a\n}");
    assert_eq!(
        parser.parse_block(),
        Some(block(vec![
            declaration("a", Type::Char, number(1)),
            call("f", vec![variable("a")]),
            block(vec![Node::Statement(StatementNode { stat_type: Statement::Break, value: None })]),
            Node::Statement(StatementNode {
                stat_type: Statement::Return,
                value: Some(Box::new(variable("a"))),
            }),
        ]))
    );
    assert_eq!(parser.position(), 21);
    assert!(parser.diagnostics().is_empty());
}

#[test]
fn block_without_end_is_reported_and_stays_a_block() {
    let mut parser = lexed("{");
    assert_eq!(parser.parse_block(), Some(block(vec![])));
    assert_eq!(parser.diagnostics(), &vec![ParseError::MissingBlockEnd]);
    assert_eq!(parser.position(), 0);
    let mut parser = lexed("{ f()");
    assert_eq!(parser.parse_block(), Some(block(vec![call("f", vec![])])));
    assert_eq!(parser.diagnostics(), &vec![ParseError::MissingBlockEnd]);
    let mut parser = lexed("{ {");
    assert_eq!(parser.parse_block(), Some(block(vec![block(vec![])])));
    assert_eq!(
        parser.diagnostics(),
        &vec![ParseError::MissingBlockEnd, ParseError::MissingBlockEnd]
    );
}

#[test]
fn block_ends_where_no_node_starts() {
    let mut parser = lexed("{ f() 5 g() }");
    assert_eq!(parser.parse_block(), Some(block(vec![call("f", vec![])])));
    assert_eq!(parser.position(), 4);
}

#[test]
fn block_that_ends_on_a_line_break_is_reported() {
    let mut parser = lexed("{ f()\n");
    assert_eq!(parser.parse_block(), Some(block(vec![call("f", vec![])])));
    assert_eq!(parser.diagnostics(), &vec![ParseError::UnexpectedEnd]);
    assert_eq!(parser.position(), 4);
}

#[test]
fn other_first_token_is_no_block() {
    let mut parser = lexed("}");
    assert_eq!(parser.parse_block(), None);
    assert_eq!(parser.position(), 0);
}

#[test]
fn node_is_the_first_alternative_that_matches() {
    let mut parser = lexed("\n\n\nf()");
    assert_eq!(parser.parse_node(), Some(call("f", vec![])));
    assert_eq!(parser.position(), 5);
    let mut parser = lexed("break()");
    assert_eq!(parser.parse_node(), Some(call("break", vec![])));
    let mut parser = lexed("var x");
    assert_eq!(parser.parse_node(), None);
    assert_eq!(parser.diagnostics(), &vec![missing("::", "x")]);
    let mut parser = lexed("x");
    assert_eq!(parser.parse_node(), None);
}

#[test]
fn reports_of_failed_alternatives_stay() {
    let mut parser = lexed("f(+");
    assert_eq!(parser.parse_expr(), Some(variable("f")));
    assert_eq!(parser.diagnostics(), &vec![invalid(ValueKind::Parameter, "+")]);
    assert_eq!(parser.position(), 0);
}

#[test]
fn reports_say_what_went_wrong() {
    assert_eq!(missing("::", "x").message(), "Expected ::, got x");
    assert_eq!(missing("(", "->").message(), "Expected (, got ->");
    assert_eq!(
        ParseError::InvalidName { reason: DeclarationKind::Variable }.message(),
        "Invalid variable name"
    );
    assert_eq!(
        ParseError::InvalidName { reason: DeclarationKind::Argument }.message(),
        "Invalid argument name"
    );
    assert_eq!(
        ParseError::UnresolvedType { reason: DeclarationKind::Variable }.message(),
        "Invalid variable type"
    );
    assert_eq!(
        ParseError::UnresolvedType { reason: DeclarationKind::Argument }.message(),
        "Invalid argument type"
    );
    assert_eq!(ParseError::UnresolvedReturnType.message(), "Invalid return type");
    assert_eq!(ParseError::MissingBlockEnd.message(), "Could not find the end of the block!");
    assert_eq!(invalid(ValueKind::Variable, "+").message(), "Invalid variable value");
    assert_eq!(invalid(ValueKind::Return, "}").message(), "Invalid return value");
    assert_eq!(invalid(ValueKind::Parameter, "+").message(), "Invalid function parameter '+'");
    assert_eq!(ParseError::MissingBlock.message(), "Invalid block");
    assert_eq!(ParseError::UnexpectedEnd.message(), "Peek out of range");
}

#[test]
fn step_moves_while_a_further_token_exists() {
    let mut parser = parser_of(&["a", "b", "c"]);
    assert!(parser.step());
    assert_eq!(parser.position(), 1);
    assert!(parser.step());
    assert_eq!(parser.position(), 2);
    assert!(!parser.step());
    assert_eq!(parser.position(), 2);
    let mut parser = Parser::new(Vec::new());
    assert!(!parser.step());
    assert_eq!(parser.position(), 0);
}

#[test]
fn peek_reads_without_moving() {
    let mut parser = parser_of(&["a", "b", "c"]);
    assert_eq!(parser.peek(0).map(|t| t.content.as_str()), Some("a"));
    assert_eq!(parser.peek(2).map(|t| t.content.as_str()), Some("c"));
    assert_eq!(parser.peek(3), None);
    assert_eq!(parser.peek(usize::MAX), None);
    assert_eq!(parser.position(), 0);
    parser.step();
    assert_eq!(parser.peek(1).map(|t| t.content.as_str()), Some("c"));
    assert_eq!(parser.peek(2), None);
    let parser = Parser::new(Vec::new());
    assert_eq!(parser.peek(0), None);
}

#[test]
fn cursor_token_is_compared_by_class_and_by_text() {
    let parser = parser_of(&["var", "12"]);
    assert!(parser.equals_type(TokenType::Keyword));
    assert!(!parser.equals_type(TokenType::Number));
    assert!(parser.equals_content("var"));
    assert!(!parser.equals_content("va"));
    assert!(!parser.equals_content("12"));
    assert!(parser.is_forbidden_keyword());
    let parser = parser_of(&["x"]);
    assert!(!parser.is_forbidden_keyword());
    let parser = Parser::new(Vec::new());
    assert!(!parser.equals_type(TokenType::Keyword));
    assert!(!parser.equals_content(""));
    assert!(!parser.is_forbidden_keyword());
}
