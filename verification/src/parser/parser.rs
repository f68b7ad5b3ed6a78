use vstd::prelude::*;
use crate::lexer::token::{tokens_view, Token, TokenType, TokenView};
use crate::parser::errors::{errors_view, DeclarationKind, ParseError, ParseErrorView, ValueKind};
use crate::parser::grammar;
use crate::parser::grammar::Parsed;
use crate::parser::laws::{is_function, lemma_no_match_restores_cursor, lemma_productions_give_their_shape};
use crate::parser::statements::Statement;
use crate::parser::tree::{
    args_view, lemma_nodes_view_push, nodes_view, BlockNode, BoolNode, FunctionArgNode,
    FunctionArgView, FunctionCallNode, FunctionNode, Node, NodeView, NumberNode, StatementNode, StringNode,
    VariableCallNode, VariableNode,
};
use crate::parser::types::Type;
use crate::text::{decimal_literal, parse_decimal, str_eq};

verus! {

broadcast use {Seq::add_empty_left, Seq::add_empty_right};

/// A recursive-descent parser over one token sequence, with a single cursor.
///
/// Each production is a method that reads the tokens from the cursor on and
/// does what the function of the same production in [`grammar`] says.
pub struct Parser {
    tokens: Vec<Token>,
    current_pos: usize,
    errors: Vec<ParseError>,
}

/// The view of a node that may be absent.
pub open spec fn node_option_view(node: Option<Node>) -> Option<NodeView> {
    match node {
        Some(n) => Some(n@),
        None => None,
    }
}

impl Parser {
    /// The tokens that the parser reads.
    pub closed spec fn tokens(&self) -> Seq<TokenView> {
        tokens_view(self.tokens@)
    }

    /// The index of the token that the parser stands on.
    pub closed spec fn cursor(&self) -> nat {
        self.current_pos as nat
    }

    /// What the parser has reported so far, in order.
    pub closed spec fn reported(&self) -> Seq<ParseErrorView> {
        errors_view(self.errors@)
    }

    /// The cursor stands on a token, or at 0 where there are none.
    pub closed spec fn well_formed(&self) -> bool {
        self.current_pos < self.tokens.len() || (self.current_pos == 0 && self.tokens.len() == 0)
    }

    /// The parser reads the same tokens as `before`, and since `before` its
    /// cursor has moved and its reports have grown as `outcome` says.
    pub open spec fn follows(&self, before: &Parser, outcome: Parsed) -> bool {
        &&& self.well_formed()
        &&& self.tokens() == before.tokens()
        &&& self.cursor() == before.cursor() + outcome.advance
        &&& self.reported() == before.reported() + outcome.errors
    }

    /// A parser at the first of `tokens`, with nothing reported.
    pub fn new(tokens: Vec<Token>) -> (parser: Self)
        ensures
            parser.well_formed(),
            parser.tokens() == tokens_view(tokens@),
            parser.cursor() == 0,
            parser.reported() == Seq::<ParseErrorView>::empty(),
    {
        let parser = Self { tokens, current_pos: 0, errors: Vec::new() };
        assert(parser.reported() =~= Seq::<ParseErrorView>::empty());
        parser
    }

    /// The index of the token that the parser stands on.
    pub fn position(&self) -> (pos: usize)
        ensures
            pos == self.cursor(),
    {
        self.current_pos
    }

    /// What the parser has reported so far, in order.
    pub fn diagnostics(&self) -> (errors: &Vec<ParseError>)
        ensures
            errors_view(errors@) == self.reported(),
    {
        &self.errors
    }

    /// Moves the cursor one token forward if a further token exists, and says
    /// whether it moved.
    pub fn step(&mut self) -> (advanced: bool)
        requires
            old(self).well_formed(),
        ensures
            final(self).well_formed(),
            final(self).tokens() == old(self).tokens(),
            final(self).reported() == old(self).reported(),
            final(self).cursor() == grammar::next_pos(old(self).tokens(), old(self).cursor()),
            advanced == (old(self).cursor() + 1 < old(self).tokens().len()),
    {
        if self.peek(1).is_some() {
            self.current_pos += 1;
            return true;
        }
        false
    }

    /// The token `steps` tokens ahead of the cursor, if there is one. Nothing
    /// is consumed.
    pub fn peek(&self, steps: usize) -> (token: Option<&Token>)
        requires
            self.well_formed(),
        ensures
            match token {
                Some(t) => self.cursor() + steps < self.tokens().len() && t@
                    == self.tokens()[self.cursor() + steps],
                None => self.cursor() + steps >= self.tokens().len(),
            },
    {
        if steps >= self.tokens.len() - self.current_pos {
            return None;
        }
        Some(&self.tokens[self.current_pos + steps])
    }

    /// Whether the token at the cursor has this class.
    pub fn equals_type(&self, token_type: TokenType) -> (same: bool)
        requires
            self.well_formed(),
        ensures
            same == grammar::holds_type(self.tokens(), self.cursor(), token_type),
    {
        match self.peek(0) {
            Some(token) => token.token_type == token_type,
            _ => false,
        }
    }

    /// Whether the token at the cursor has this text.
    pub fn equals_content(&self, content: &str) -> (same: bool)
        requires
            self.well_formed(),
        ensures
            same == grammar::holds_text(self.tokens(), self.cursor(), content@),
    {
        match self.peek(0) {
            Some(token) => str_eq(token.content.as_str(), content),
            _ => false,
        }
    }

    /// Whether the token at the cursor has a text that cannot be a name: the
    /// spelling of a primitive type, or a reserved word.
    pub fn is_forbidden_keyword(&self) -> (forbidden: bool)
        requires
            self.well_formed(),
        ensures
            forbidden == (self.cursor() < self.tokens().len() && grammar::is_forbidden_name(
                grammar::text_at(self.tokens(), self.cursor()),
            )),
    {
        match self.peek(0) {
            Some(token) => {
                // If the keyword can be parsed as a type,
                // it's a forbidden keyword
                if Type::from_token(token).is_some() {
                    return true;
                }
                let text = token.content.as_str();
                str_eq(text, "var") || str_eq(text, "if") || str_eq(text, "else") || str_eq(
                    text,
                    "return",
                )
            },
            _ => false,
        }
    }

    /// Whether the token at the cursor can be a name.
    fn is_name(&self) -> (name: bool)
        requires
            self.well_formed(),
        ensures
            name == grammar::holds_name(self.tokens(), self.cursor()),
    {
        self.equals_type(TokenType::Keyword) && !self.is_forbidden_keyword()
    }

    /// The text of the token at the cursor.
    fn content(&self) -> (text: String)
        requires
            self.well_formed(),
            self.cursor() < self.tokens().len(),
        ensures
            text@ == grammar::text_at(self.tokens(), self.cursor()),
    {
        self.tokens[self.current_pos].content.clone()
    }

    /// Adds a report.
    fn report(&mut self, error: ParseError)
        requires
            old(self).well_formed(),
        ensures
            final(self).well_formed(),
            final(self).tokens() == old(self).tokens(),
            final(self).cursor() == old(self).cursor(),
            final(self).reported() == old(self).reported().push(error@),
            final(self).reported() == old(self).reported() + seq![error@],
    {
        self.errors.push(error);
        assert(self.reported() =~= old(self).reported().push(error@));
        assert(self.reported() =~= old(self).reported() + seq![error@]);
    }

    /// Reports that `what` was asked for where the token at the cursor stands.
    fn expected(&mut self, what: &str)
        requires
            old(self).well_formed(),
            old(self).cursor() < old(self).tokens().len(),
        ensures
            final(self).well_formed(),
            final(self).tokens() == old(self).tokens(),
            final(self).cursor() == old(self).cursor(),
            final(self).reported() == old(self).reported().push(
                ParseErrorView::MissingToken {
                    expected: what@,
                    found: grammar::text_at(old(self).tokens(), old(self).cursor()),
                },
            ),
            final(self).reported() == old(self).reported() + seq![
                ParseErrorView::MissingToken {
                    expected: what@,
                    found: grammar::text_at(old(self).tokens(), old(self).cursor()),
                },
            ],
    {
        let found = self.content();
        self.report(ParseError::MissingToken { expected: what.to_owned(), found });
    }

    /// `True` or `False` at the cursor. The cursor stays.
    fn parse_bool(&mut self) -> (value: Option<Node>)
        requires
            old(self).well_formed(),
        ensures
            *final(self) == *old(self),
            node_option_view(value) == (if grammar::holds_text(
                old(self).tokens(),
                old(self).cursor(),
                "True"@,
            ) {
                Some(NodeView::Bool { value: true })
            } else if grammar::holds_text(old(self).tokens(), old(self).cursor(), "False"@) {
                Some(NodeView::Bool { value: false })
            } else {
                None
            }),
    {
        if self.equals_content("True") {
            return Some(Node::Bool(BoolNode { value: true }));
        } else if self.equals_content("False") {
            return Some(Node::Bool(BoolNode { value: false }));
        }
        None
    }

    /// The number that the token at the cursor writes, if it fits the machine
    /// word. The cursor stays.
    fn parse_number(&mut self) -> (value: Option<Node>)
        requires
            old(self).well_formed(),
            old(self).cursor() < old(self).tokens().len(),
        ensures
            *final(self) == *old(self),
            node_option_view(value) == (match decimal_literal(
                grammar::text_at(old(self).tokens(), old(self).cursor()),
            ) {
                Some(int_value) => Some(NodeView::Number { int_value }),
                None => None,
            }),
    {
        match parse_decimal(self.tokens[self.current_pos].content.as_str()) {
            Some(int_value) => Some(Node::Number(NumberNode { int_value })),
            None => None,
        }
    }

    /// The text of the token at the cursor, as a string literal. The cursor
    /// stays.
    fn parse_string(&mut self) -> (value: Option<Node>)
        requires
            old(self).well_formed(),
            old(self).cursor() < old(self).tokens().len(),
        ensures
            *final(self) == *old(self),
            node_option_view(value) == Some(
                NodeView::String {
                    value: grammar::text_at(old(self).tokens(), old(self).cursor()),
                },
            ),
    {
        Some(Node::String(StringNode { value: self.content() }))
    }

    /// Literal := "True" | "False" | NUMBER | STRING
    ///
    /// The cursor stays on the token.
    pub fn parse_value(&mut self) -> (value: Option<Node>)
        requires
            old(self).well_formed(),
        ensures
            *final(self) == *old(self),
            node_option_view(value) == grammar::literal(old(self).tokens(), old(self).cursor()),
    {
        if self.equals_type(TokenType::Keyword) {
            return self.parse_bool();
        } else if self.equals_type(TokenType::Number) {
            return self.parse_number();
        } else if self.equals_type(TokenType::String) {
            return self.parse_string();
        }
        None
    }

    /// VarRef := NAME
    ///
    /// The cursor stays on the token.
    pub fn parse_var_call(&mut self) -> (variable: Option<Node>)
        requires
            old(self).well_formed(),
        ensures
            *final(self) == *old(self),
            node_option_view(variable) == grammar::variable_ref(
                old(self).tokens(),
                old(self).cursor(),
            ),
    {
        if !self.equals_type(TokenType::Keyword) || self.is_forbidden_keyword() {
            return None;
        }
        Some(Node::VariableCall(VariableCallNode { name: self.content() }))
    }

    /// Expr := Literal | FunctionCall | VarRef
    ///
    /// The first alternative that matches wins. Without a match the cursor
    /// stays where it was.
    pub fn parse_expr(&mut self) -> (expression: Option<Node>)
        requires
            old(self).well_formed(),
        ensures
            final(self).follows(old(self), grammar::expr(old(self).tokens(), old(self).cursor())),
            node_option_view(expression) == grammar::expr(
                old(self).tokens(),
                old(self).cursor(),
            ).node,
        decreases old(self).tokens().len() - old(self).cursor(), 1nat,
    {
        proof {
            reveal(grammar::expr);
            reveal(grammar::func_call);
            reveal(grammar::call_args);
        }
        // 3 possibilities :
        //  - fixed value (boolean, integer...)
        //  - function call
        //  - variable call
        let value = self.parse_value();
        if value.is_some() {
            return value;
        }
        let func_call = self.parse_func_call();
        if func_call.is_some() {
            return func_call;
        }
        self.parse_var_call()
    }

    /// FunctionCall := NAME "(" (Expr ("," Expr)*)? ")"
    ///
    /// A token at which no argument starts is reported and passed over.
    /// Without a match the cursor is given back.
    pub fn parse_func_call(&mut self) -> (call: Option<Node>)
        requires
            old(self).well_formed(),
        ensures
            final(self).follows(
                old(self),
                grammar::func_call(old(self).tokens(), old(self).cursor()),
            ),
            node_option_view(call) == grammar::func_call(
                old(self).tokens(),
                old(self).cursor(),
            ).node,
        decreases old(self).tokens().len() - old(self).cursor(), 0nat,
    {
        proof {
            reveal(grammar::expr);
            reveal(grammar::func_call);
            reveal(grammar::call_args);
        }
        if !self.is_name() {
            return None;
        }
        let init_pos = self.current_pos;
        let func_name = self.content();

        // Skip function name
        self.step();

        if !self.equals_content("(") {
            self.current_pos = init_pos;
            return None;
        }
        // Skip opened parenthesis, behind which the closing one has to come

        if !self.step() {
            self.current_pos = init_pos;
            return None;
        }
        // Parse function arguments

        let mut func_args = Vec::<Node>::new();
        let ghost tokens = self.tokens();
        let ghost first = self.cursor();
        let ghost all = grammar::call_args(tokens, first);
        assert(nodes_view(func_args@) =~= Seq::<NodeView>::empty());
        while !self.equals_content(")")
            invariant
                self.well_formed(),
                self.tokens() == tokens,
                tokens == old(self).tokens(),
                init_pos == old(self).cursor(),
                init_pos < first <= self.cursor() < tokens.len(),
                grammar::holds_name(tokens, init_pos as nat),
                grammar::holds_text(tokens, grammar::next_pos(tokens, init_pos as nat), "("@),
                first == grammar::next_pos(tokens, init_pos as nat) + 1,
                func_name@ == grammar::text_at(tokens, init_pos as nat),
                all == grammar::call_args(tokens, first),
                all.complete == grammar::call_args(tokens, self.cursor()).complete,
                all.items == nodes_view(func_args@) + grammar::call_args(
                    tokens,
                    self.cursor(),
                ).items,
                first + all.advance == self.cursor() + grammar::call_args(
                    tokens,
                    self.cursor(),
                ).advance,
                old(self).reported() + all.errors == self.reported() + grammar::call_args(
                    tokens,
                    self.cursor(),
                ).errors,
            decreases tokens.len() - self.cursor(),
        {
            proof {
                reveal(grammar::expr);
                reveal(grammar::func_call);
                reveal(grammar::call_args);
            }
            let ghost before = self.reported();
            let ghost gathered = nodes_view(func_args@);
            let ghost arg = grammar::expr(tokens, self.cursor());
            let ghost rest = grammar::call_args(tokens, self.cursor());
            let ghost items = match arg.node {
                Some(node) => seq![node],
                None => seq![],
            };
            match self.parse_expr() {
                None => {
                    let found = self.content();
                    self.report(ParseError::InvalidValue { reason: ValueKind::Parameter, found });
                },
                Some(arg) => {
                    proof {
                        lemma_nodes_view_push(func_args@, arg);
                    }
                    func_args.push(arg);
                },
            }
            assert(nodes_view(func_args@) =~= gathered + items);
            let ghost errors = self.reported().skip(before.len() as int);
            assert(self.reported() =~= before + errors);

            if !self.step() {
                // The tokens end before the call does
                self.current_pos = init_pos;
                assert(rest.errors =~= errors);
                return None;
            }
            if self.equals_content(",") {
                self.step();
            }
            proof {
                let next = grammar::call_args(tokens, self.cursor());
                assert(rest.errors =~= errors + next.errors);
                assert(gathered + (items + next.items) =~= (gathered + items) + next.items);
                assert(before + (errors + next.errors) =~= (before + errors) + next.errors);
            }
        }

        Some(Node::FunctionCall(FunctionCallNode { name: func_name, args: func_args }))
    }

    /// VariableDecl := "var" NAME "::" TYPE "=" Expr
    ///
    /// Behind `var`, whatever is missing is reported. Without a match the
    /// cursor is given back.
    pub fn parse_var_decl(&mut self) -> (declaration: Option<Node>)
        requires
            old(self).well_formed(),
        ensures
            final(self).follows(
                old(self),
                grammar::var_decl(old(self).tokens(), old(self).cursor()),
            ),
            node_option_view(declaration) == grammar::var_decl(
                old(self).tokens(),
                old(self).cursor(),
            ).node,
    {
        if !self.equals_content("var") {
            return None;
        }
        let init_pos = self.current_pos;

        // Skip "var" keyword
        self.step();

        if !self.is_name() {
            self.report(ParseError::InvalidName { reason: DeclarationKind::Variable });
            self.current_pos = init_pos;
            return None;
        }
        let var_name = self.content();

        // Skip variable name
        self.step();

        if !self.equals_content("::") {
            self.expected("::");
            self.current_pos = init_pos;
            return None;
        }
        // Skip "::" symbol

        self.step();

        if !self.equals_type(TokenType::Keyword) {
            self.report(ParseError::UnresolvedType { reason: DeclarationKind::Variable });
            self.current_pos = init_pos;
            return None;
        }
        let var_type = match Type::from_token(&self.tokens[self.current_pos]) {
            Some(t) => t,
            None => {
                self.report(ParseError::UnresolvedType { reason: DeclarationKind::Variable });
                self.current_pos = init_pos;
                return None;
            },
        };

        // Skip variable type
        self.step();

        if !self.equals_content("=") {
            self.expected("=");
            self.current_pos = init_pos;
            return None;
        }
        // Skip assign operator

        self.step();

        let found = self.content();
        match self.parse_expr() {
            None => {
                self.report(ParseError::InvalidValue { reason: ValueKind::Variable, found });
                self.current_pos = init_pos;
                None
            },
            Some(node) => Some(
                Node::Variable(VariableNode { var_type, name: var_name, value: Box::new(node) }),
            ),
        }
    }

    /// ControlStatement := ("return" Expr) | "break" | "continue"
    ///
    /// A `return` without a value is reported and still matches, with no value.
    pub fn parse_statement(&mut self) -> (statement: Option<Node>)
        requires
            old(self).well_formed(),
        ensures
            final(self).follows(
                old(self),
                grammar::statement(old(self).tokens(), old(self).cursor()),
            ),
            node_option_view(statement) == grammar::statement(
                old(self).tokens(),
                old(self).cursor(),
            ).node,
    {
        if !self.equals_type(TokenType::Keyword) {
            return None;
        }
        let stat_type = match Statement::from_token(&self.tokens[self.current_pos]) {
            Some(s) => s,
            None => {
                return None;
            },
        };

        let mut stat_value: Option<Box<Node>> = None;
        if stat_type == Statement::Return {
            self.step();

            let found = self.content();
            stat_value = match self.parse_expr() {
                None => {
                    self.report(ParseError::InvalidValue { reason: ValueKind::Return, found });
                    None
                },
                Some(node) => Some(Box::new(node)),
            };
        }
        Some(Node::Statement(StatementNode { stat_type, value: stat_value }))
    }

    /// Block := "{" Node* "}"
    ///
    /// A block matches from its `{` alone: where the tokens end before `}`,
    /// that is reported, and where no node starts, the block ends there.
    pub fn parse_block(&mut self) -> (block: Option<Node>)
        requires
            old(self).well_formed(),
        ensures
            final(self).follows(
                old(self),
                grammar::block(old(self).tokens(), old(self).cursor()),
            ),
            node_option_view(block) == grammar::block(
                old(self).tokens(),
                old(self).cursor(),
            ).node,
        decreases old(self).tokens().len() - old(self).cursor(), 2nat,
    {
        proof {
            reveal(grammar::node);
            reveal(grammar::block);
            reveal(grammar::block_nodes);
        }
        if !self.equals_content("{") {
            return None;
        }
        let mut nodes = Vec::<Node>::new();
        assert(nodes_view(nodes@) =~= Seq::<NodeView>::empty());

        if !self.step() {
            self.report(ParseError::MissingBlockEnd);
            return Some(Node::Block(BlockNode { nodes }));
        }
        let ghost tokens = self.tokens();
        let ghost first = self.cursor();
        let ghost all = grammar::block_nodes(tokens, first);
        loop
            invariant_except_break
                all.items == nodes_view(nodes@) + grammar::block_nodes(
                    tokens,
                    self.cursor(),
                ).items,
                first + all.advance == self.cursor() + grammar::block_nodes(
                    tokens,
                    self.cursor(),
                ).advance,
                old(self).reported() + all.errors == self.reported() + grammar::block_nodes(
                    tokens,
                    self.cursor(),
                ).errors,
            invariant
                self.well_formed(),
                self.tokens() == tokens,
                tokens == old(self).tokens(),
                old(self).cursor() + 1 == first,
                first <= self.cursor() < tokens.len(),
                all == grammar::block_nodes(tokens, first),
            ensures
                all.items == nodes_view(nodes@),
                first + all.advance == self.cursor(),
                old(self).reported() + all.errors == self.reported(),
            decreases tokens.len() - self.cursor(),
        {
            proof {
                reveal(grammar::node);
                reveal(grammar::block);
                reveal(grammar::block_nodes);
            }
            let ghost before = self.reported();
            let ghost gathered = nodes_view(nodes@);
            let ghost head = grammar::node(tokens, self.cursor());
            let ghost rest = grammar::block_nodes(tokens, self.cursor());
            if self.equals_content("}") {
                break ;
            }
            match self.parse_node() {
                None => {
                    break ;
                },
                Some(node) => {
                    proof {
                        lemma_nodes_view_push(nodes@, node);
                    }
                    nodes.push(node);
                },
            }
            let ghost item = seq![head.node->0];
            assert(nodes_view(nodes@) =~= gathered + item);

            if !self.step() {
                self.report(ParseError::MissingBlockEnd);
                assert(self.reported() =~= before + rest.errors);
                break ;
            }
            proof {
                let next = grammar::block_nodes(tokens, self.cursor());
                assert(gathered + (item + next.items) =~= (gathered + item) + next.items);
                assert(before + (head.errors + next.errors) =~= (before + head.errors)
                    + next.errors);
            }
        }

        Some(Node::Block(BlockNode { nodes }))
    }

    /// Node := VariableDecl | FunctionCall | Block | ControlStatement
    ///
    /// Line breaks before the node are passed over. The first alternative that
    /// matches wins.
    pub fn parse_node(&mut self) -> (node: Option<Node>)
        requires
            old(self).well_formed(),
        ensures
            final(self).follows(old(self), grammar::node(old(self).tokens(), old(self).cursor())),
            node_option_view(node) == grammar::node(old(self).tokens(), old(self).cursor()).node,
        decreases old(self).tokens().len() - old(self).cursor(), 3nat,
    {
        proof {
            reveal(grammar::node);
            reveal(grammar::block);
            reveal(grammar::block_nodes);
        }
        let ghost tokens = self.tokens();
        let ghost start = self.cursor();
        while self.equals_content("\n")
            invariant
                self.well_formed(),
                self.tokens() == tokens,
                tokens == old(self).tokens(),
                start == old(self).cursor(),
                start <= self.cursor(),
                self.reported() == old(self).reported(),
                grammar::node(tokens, start) == grammar::node(tokens, self.cursor()).after(
                    (self.cursor() - start) as nat,
                    seq![],
                ),
            decreases tokens.len() - self.cursor(),
        {
            proof {
                reveal(grammar::node);
                reveal(grammar::block);
                reveal(grammar::block_nodes);
            }
            if !self.step() {
                self.report(ParseError::UnexpectedEnd);
                return None;
            }
        }

        // 4 possibilities :
        //  - variable declaration
        //  - function call
        //  - block
        //  - statement (return, break...)
        let ghost at = self.cursor();
        let ghost decl = grammar::var_decl(tokens, at);
        let ghost call = grammar::func_call(tokens, at);
        let ghost inner = grammar::block(tokens, at);
        let ghost last = grammar::statement(tokens, at);
        proof {
            lemma_no_match_restores_cursor(tokens, at);
        }

        let var_decl = self.parse_var_decl();
        if var_decl.is_some() {
            return var_decl;
        }
        let func_call = self.parse_func_call();
        assert(self.reported() =~= old(self).reported() + (decl.errors + call.errors));
        if func_call.is_some() {
            return func_call;
        }
        let block = self.parse_block();
        assert(self.reported() =~= old(self).reported() + (decl.errors + call.errors
            + inner.errors));
        if block.is_some() {
            return block;
        }
        let statement = self.parse_statement();
        assert(self.reported() =~= old(self).reported() + (decl.errors + call.errors
            + last.errors));
        statement
    }

    /// FunctionDecl := "fcn" NAME "(" (Arg ("," Arg)*)? ")" "->" TYPE Block
    ///
    /// Nothing is given back: where the declaration goes wrong the parse ends,
    /// with the cursor where it went wrong.
    pub fn parse_func_decl(&mut self) -> (function: Option<Node>)
        requires
            old(self).well_formed(),
        ensures
            final(self).follows(
                old(self),
                grammar::func_decl(old(self).tokens(), old(self).cursor()),
            ),
            node_option_view(function) == grammar::func_decl(
                old(self).tokens(),
                old(self).cursor(),
            ).node,
    {
        if !self.equals_content("fcn") {
            return None;
        }
        self.step();

        if !self.is_name() {
            return None;
        }
        let func_name = self.content();
        self.step();

        if !self.equals_content("(") {
            self.expected("(");
            return None;
        }
        self.step();

        // Parse function arguments
        let mut func_args = Vec::<FunctionArgNode>::new();
        let ghost tokens = self.tokens();
        let ghost init_pos = old(self).cursor();
        let ghost name_pos = grammar::next_pos(tokens, init_pos);
        let ghost first = self.cursor();
        let ghost all = grammar::decl_args(tokens, first);
        assert(args_view(func_args@) =~= Seq::<FunctionArgView>::empty());
        while !self.equals_content(")")
            invariant
                self.well_formed(),
                self.tokens() == tokens,
                tokens == old(self).tokens(),
                init_pos == old(self).cursor(),
                name_pos == grammar::next_pos(tokens, init_pos),
                grammar::holds_text(tokens, init_pos, "fcn"@),
                grammar::holds_name(tokens, name_pos),
                grammar::holds_text(tokens, grammar::next_pos(tokens, name_pos), "("@),
                first == grammar::next_pos(tokens, grammar::next_pos(tokens, name_pos)),
                first <= self.cursor() < tokens.len(),
                all == grammar::decl_args(tokens, first),
                all.complete == grammar::decl_args(tokens, self.cursor()).complete,
                all.items == args_view(func_args@) + grammar::decl_args(
                    tokens,
                    self.cursor(),
                ).items,
                first + all.advance == self.cursor() + grammar::decl_args(
                    tokens,
                    self.cursor(),
                ).advance,
                old(self).reported() + all.errors == self.reported() + grammar::decl_args(
                    tokens,
                    self.cursor(),
                ).errors,
            decreases tokens.len() - self.cursor(),
        {
            let ghost gathered = args_view(func_args@);
            if !self.is_name() {
                self.report(ParseError::InvalidName { reason: DeclarationKind::Argument });
                return None;
            }
            let arg_name = self.content();
            self.step();

            if !self.equals_content("::") {
                self.expected("::");
                return None;
            }
            self.step();

            let arg_type = match Type::from_token(&self.tokens[self.current_pos]) {
                Some(t) => t,
                None => {
                    self.report(ParseError::UnresolvedType { reason: DeclarationKind::Argument });
                    return None;
                },
            };

            let arg = FunctionArgNode { var_type: arg_type, name: arg_name };
            let ghost item = seq![arg@];
            func_args.push(arg);
            assert(args_view(func_args@) =~= gathered + item);

            if !self.step() {
                // The tokens end before the argument list does
                self.expected(")");
                return None;
            }
            if self.equals_content(",") {
                self.step();
            }
            proof {
                let next = grammar::decl_args(tokens, self.cursor());
                assert(gathered + (item + next.items) =~= (gathered + item) + next.items);
            }
        }

        // Skip last parenthesis
        self.step();

        if !self.equals_content("->") {
            self.expected("->");
            return None;
        }
        // Skip arrow

        self.step();

        let return_type = match Type::from_token(&self.tokens[self.current_pos]) {
            Some(t) => t,
            None => {
                self.report(ParseError::UnresolvedReturnType);
                return None;
            },
        };

        // Skip return type
        self.step();

        let ghost body = grammar::block(tokens, self.cursor());
        proof {
            lemma_no_match_restores_cursor(tokens, self.cursor());
        }
        let block = match self.parse_block() {
            Some(b) => b,
            None => {
                self.report(ParseError::MissingBlock);
                return None;
            },
        };
        assert(self.reported() =~= old(self).reported() + (all.errors + body.errors));

        Some(
            Node::Function(
                FunctionNode {
                    name: func_name,
                    args: func_args,
                    return_type,
                    block: Box::new(block),
                },
            ),
        )
    }

    /// Parses one function declaration, from the cursor on, and gives the
    /// function or nothing.
    pub fn parse(&mut self) -> (function: Option<Node>)
        requires
            old(self).well_formed(),
        ensures
            final(self).follows(
                old(self),
                grammar::func_decl(old(self).tokens(), old(self).cursor()),
            ),
            node_option_view(function) == grammar::func_decl(
                old(self).tokens(),
                old(self).cursor(),
            ).node,
            function matches Some(node) ==> is_function(node@),
    {
        proof {
            lemma_productions_give_their_shape(self.tokens(), self.cursor());
        }
        self.parse_func_decl()
    }
}

} // verus!
