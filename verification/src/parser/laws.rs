//! What holds of the grammar whatever the tokens are.
use vstd::prelude::*;
use crate::lexer::token::{TokenType, TokenView};
use crate::parser::grammar::{
    block, block_nodes, call_args, decl_args, expr, func_call, func_decl, holds_text,
    holds_type, is_forbidden_name, literal, next_pos, node, statement, text_at, var_decl,
    variable_ref, Parsed,
};
use crate::parser::statements::Statement;
use crate::parser::tree::NodeView;

verus! {

/// A node that can stand for a value: a literal, the use of a variable, or a
/// call whose arguments can stand for values.
pub open spec fn is_expression(node: NodeView) -> bool
    decreases node,
{
    match node {
        NodeView::Bool { .. } => true,
        NodeView::Number { .. } => true,
        NodeView::String { .. } => true,
        NodeView::VariableCall { .. } => true,
        NodeView::FunctionCall { name, args } => forall|i: int|
            0 <= i < args.len() ==> is_expression(#[trigger] args[i]),
        _ => false,
    }
}

/// A node that can stand in a block: a variable declaration with its value, a
/// call, a block of such nodes, or a control statement, which has a value only
/// if it is a `return`.
pub open spec fn is_block_item(node: NodeView) -> bool
    decreases node,
{
    match node {
        NodeView::Variable { var_type, name, value } => is_expression(*value),
        NodeView::FunctionCall { .. } => is_expression(node),
        NodeView::Block { nodes } => forall|i: int|
            0 <= i < nodes.len() ==> is_block_item(#[trigger] nodes[i]),
        NodeView::Statement { stat_type, value } => match value {
            Some(v) => stat_type == Statement::Return && is_expression(*v),
            None => true,
        },
        _ => false,
    }
}

/// A function declaration: its body is a block of nodes that can stand in one.
pub open spec fn is_function(node: NodeView) -> bool {
    node matches NodeView::Function { name, args, return_type, block } && *block is Block
        && is_block_item(*block)
}

/// An expression is read as one.
proof fn lemma_expr_shape(tokens: Seq<TokenView>, pos: nat)
    ensures
        expr(tokens, pos).node matches Some(n) ==> is_expression(n),
    decreases tokens.len() - pos, 1nat,
{
    reveal(expr);
    reveal(func_call);
    reveal(call_args);
    if literal(tokens, pos) is None {
        lemma_func_call_shape(tokens, pos);
    }
}

/// A call is read as a call whose arguments are expressions.
proof fn lemma_func_call_shape(tokens: Seq<TokenView>, pos: nat)
    ensures
        func_call(tokens, pos).node matches Some(n) ==> n is FunctionCall && is_expression(n),
    decreases tokens.len() - pos, 0nat,
{
    reveal(expr);
    reveal(func_call);
    reveal(call_args);
    if func_call(tokens, pos).node is Some {
        let open = next_pos(tokens, pos);
        let args = call_args(tokens, (open + 1) as nat).items;
        lemma_call_args_shape(tokens, (open + 1) as nat);
        assert forall|i: int| 0 <= i < args.len() implies is_expression(#[trigger] args[i]) by {}
    }
}

/// The arguments of a call are read as expressions.
proof fn lemma_call_args_shape(tokens: Seq<TokenView>, pos: nat)
    ensures
        forall|i: int|
            0 <= i < call_args(tokens, pos).items.len() ==> is_expression(
                #[trigger] call_args(tokens, pos).items[i],
            ),
    decreases tokens.len() - pos, 2nat,
{
    reveal(expr);
    reveal(func_call);
    reveal(call_args);
    if !holds_text(tokens, pos, ")"@) {
        let arg = expr(tokens, pos);
        lemma_expr_shape(tokens, pos);
        let here = pos + arg.advance;
        let items = match arg.node {
            Some(node) => seq![node],
            None => seq![],
        };
        if here + 1 < tokens.len() {
            let next = if holds_text(tokens, here + 1, ","@) {
                next_pos(tokens, here + 1)
            } else {
                here + 1
            };
            let rest = call_args(tokens, next).items;
            lemma_call_args_shape(tokens, next);
            assert forall|i: int| 0 <= i < (items + rest).len() implies is_expression(
                #[trigger] (items + rest)[i],
            ) by {
                if i >= items.len() {
                    assert((items + rest)[i] == rest[i - items.len()]);
                }
            }
        }
    }
}

/// A node is read as one that can stand in a block.
proof fn lemma_node_shape(tokens: Seq<TokenView>, pos: nat)
    ensures
        node(tokens, pos).node matches Some(n) ==> is_block_item(n),
    decreases tokens.len() - pos, 3nat,
{
    reveal(node);
    reveal(block);
    reveal(block_nodes);
    if holds_text(tokens, pos, "\n"@) {
        if pos + 1 < tokens.len() {
            lemma_node_shape(tokens, pos + 1);
        }
    } else {
        lemma_var_decl_shape(tokens, pos);
        lemma_func_call_shape(tokens, pos);
        lemma_block_shape(tokens, pos);
        lemma_statement_shape(tokens, pos);
    }
}

/// A variable declaration is read as one, with an expression for its value.
proof fn lemma_var_decl_shape(tokens: Seq<TokenView>, pos: nat)
    ensures
        var_decl(tokens, pos).node matches Some(n) ==> n is Variable && is_block_item(n),
{
    let name = next_pos(tokens, pos);
    let colons = next_pos(tokens, name);
    let ty = next_pos(tokens, colons);
    let assign = next_pos(tokens, ty);
    let value = next_pos(tokens, assign);
    lemma_expr_shape(tokens, value);
}

/// A statement is read as one, with a value only behind `return`.
proof fn lemma_statement_shape(tokens: Seq<TokenView>, pos: nat)
    ensures
        statement(tokens, pos).node matches Some(n) ==> n is Statement && is_block_item(n),
{
    lemma_expr_shape(tokens, next_pos(tokens, pos));
}

/// A block is read as a block of nodes that can stand in one.
proof fn lemma_block_shape(tokens: Seq<TokenView>, pos: nat)
    ensures
        block(tokens, pos).node matches Some(n) ==> n is Block && is_block_item(n),
    decreases tokens.len() - pos, 2nat,
{
    reveal(node);
    reveal(block);
    reveal(block_nodes);
    if holds_text(tokens, pos, "{"@) && pos + 1 < tokens.len() {
        let nodes = block_nodes(tokens, pos + 1).items;
        lemma_block_nodes_shape(tokens, pos + 1);
        assert forall|i: int| 0 <= i < nodes.len() implies is_block_item(#[trigger] nodes[i]) by {}
    }
}

/// The nodes of a block are read as nodes that can stand in one.
proof fn lemma_block_nodes_shape(tokens: Seq<TokenView>, pos: nat)
    ensures
        forall|i: int|
            0 <= i < block_nodes(tokens, pos).items.len() ==> is_block_item(
                #[trigger] block_nodes(tokens, pos).items[i],
            ),
    decreases tokens.len() - pos, 4nat,
{
    reveal(node);
    reveal(block);
    reveal(block_nodes);
    if !holds_text(tokens, pos, "}"@) {
        let first = node(tokens, pos);
        lemma_node_shape(tokens, pos);
        let here = pos + first.advance;
        if first.node is Some && here + 1 < tokens.len() {
            let item = seq![first.node->0];
            let rest = block_nodes(tokens, (here + 1) as nat).items;
            lemma_block_nodes_shape(tokens, (here + 1) as nat);
            assert forall|i: int| 0 <= i < (item + rest).len() implies is_block_item(
                #[trigger] (item + rest)[i],
            ) by {
                if i >= 1 {
                    assert((item + rest)[i] == rest[i - 1]);
                }
            }
        }
    }
}

/// Whatever a production gives is a tree of the shape that the grammar
/// allows: an expression where it reads an expression, a node of a block where
/// it reads one, and from a function declaration a function whose body is a
/// block. A statement has a value only if it is a `return`.
pub proof fn lemma_productions_give_their_shape(tokens: Seq<TokenView>, pos: nat)
    ensures
        literal(tokens, pos) matches Some(n) ==> is_expression(n),
        variable_ref(tokens, pos) matches Some(n) ==> n is VariableCall,
        expr(tokens, pos).node matches Some(n) ==> is_expression(n),
        func_call(tokens, pos).node matches Some(n) ==> n is FunctionCall && is_expression(n),
        var_decl(tokens, pos).node matches Some(n) ==> n is Variable && is_block_item(n),
        statement(tokens, pos).node matches Some(n) ==> n is Statement && is_block_item(n),
        block(tokens, pos).node matches Some(n) ==> n is Block && is_block_item(n),
        node(tokens, pos).node matches Some(n) ==> is_block_item(n),
        func_decl(tokens, pos).node matches Some(n) ==> is_function(n),
{
    lemma_expr_shape(tokens, pos);
    lemma_func_call_shape(tokens, pos);
    lemma_var_decl_shape(tokens, pos);
    lemma_statement_shape(tokens, pos);
    lemma_block_shape(tokens, pos);
    lemma_node_shape(tokens, pos);
    let name = next_pos(tokens, pos);
    let open = next_pos(tokens, name);
    let first = next_pos(tokens, open);
    let args = decl_args(tokens, first);
    let close = first + args.advance;
    let arrow = next_pos(tokens, close);
    let ty = next_pos(tokens, arrow);
    let start = next_pos(tokens, ty);
    lemma_block_shape(tokens, start);
}

/// Expressions and calls come to rest on a token.
proof fn lemma_expr_stays(tokens: Seq<TokenView>, pos: nat)
    requires
        pos < tokens.len(),
    ensures
        pos + expr(tokens, pos).advance < tokens.len(),
        pos + func_call(tokens, pos).advance < tokens.len(),
    decreases tokens.len() - pos, 1nat,
{
    reveal(expr);
    reveal(func_call);
    reveal(call_args);
    let open = next_pos(tokens, pos);
    if open + 1 < tokens.len() {
        lemma_call_args_stays(tokens, (open + 1) as nat);
    }
}

/// The arguments of a call come to rest on a token.
proof fn lemma_call_args_stays(tokens: Seq<TokenView>, pos: nat)
    requires
        pos < tokens.len(),
    ensures
        pos + call_args(tokens, pos).advance < tokens.len(),
    decreases tokens.len() - pos, 2nat,
{
    reveal(expr);
    reveal(func_call);
    reveal(call_args);
    if !holds_text(tokens, pos, ")"@) {
        lemma_expr_stays(tokens, pos);
        let here = pos + expr(tokens, pos).advance;
        if here + 1 < tokens.len() {
            let next = if holds_text(tokens, here + 1, ","@) {
                next_pos(tokens, here + 1)
            } else {
                here + 1
            };
            lemma_call_args_stays(tokens, next);
        }
    }
}

/// The arguments of a declaration come to rest on a token.
proof fn lemma_decl_args_stays(tokens: Seq<TokenView>, pos: nat)
    requires
        pos < tokens.len(),
    ensures
        pos + decl_args(tokens, pos).advance < tokens.len(),
    decreases tokens.len() - pos,
{
    let ty = next_pos(tokens, next_pos(tokens, pos));
    if ty + 1 < tokens.len() {
        let next = if holds_text(tokens, ty + 1, ","@) {
            next_pos(tokens, ty + 1)
        } else {
            ty + 1
        };
        lemma_decl_args_stays(tokens, next);
    }
}

/// Nodes and blocks come to rest on a token.
proof fn lemma_node_stays(tokens: Seq<TokenView>, pos: nat)
    requires
        pos < tokens.len(),
    ensures
        pos + node(tokens, pos).advance < tokens.len(),
        pos + block(tokens, pos).advance < tokens.len(),
    decreases tokens.len() - pos, 3nat,
{
    reveal(node);
    reveal(block);
    reveal(block_nodes);
    if holds_text(tokens, pos, "\n"@) {
        if pos + 1 < tokens.len() {
            lemma_node_stays(tokens, pos + 1);
        }
    } else {
        lemma_expr_stays(tokens, pos);
        lemma_expr_stays(tokens, next_pos(tokens, pos));
        lemma_expr_stays(
            tokens,
            next_pos(
                tokens,
                next_pos(tokens, next_pos(tokens, next_pos(tokens, next_pos(tokens, pos)))),
            ),
        );
    }
    if pos + 1 < tokens.len() {
        lemma_block_nodes_stays(tokens, pos + 1);
    }
}

/// The nodes of a block come to rest on a token.
proof fn lemma_block_nodes_stays(tokens: Seq<TokenView>, pos: nat)
    requires
        pos < tokens.len(),
    ensures
        pos + block_nodes(tokens, pos).advance < tokens.len(),
    decreases tokens.len() - pos, 4nat,
{
    reveal(node);
    reveal(block);
    reveal(block_nodes);
    if !holds_text(tokens, pos, "}"@) {
        lemma_node_stays(tokens, pos);
        let here = pos + node(tokens, pos).advance;
        if here + 1 < tokens.len() {
            lemma_block_nodes_stays(tokens, (here + 1) as nat);
        }
    }
}

/// The cursor never leaves the tokens: from a token, every production comes
/// to rest on a token.
pub proof fn lemma_cursor_stays_on_a_token(tokens: Seq<TokenView>, pos: nat)
    requires
        pos < tokens.len(),
    ensures
        pos + expr(tokens, pos).advance < tokens.len(),
        pos + func_call(tokens, pos).advance < tokens.len(),
        pos + var_decl(tokens, pos).advance < tokens.len(),
        pos + statement(tokens, pos).advance < tokens.len(),
        pos + block(tokens, pos).advance < tokens.len(),
        pos + node(tokens, pos).advance < tokens.len(),
        pos + func_decl(tokens, pos).advance < tokens.len(),
{
    lemma_expr_stays(tokens, pos);
    lemma_expr_stays(tokens, next_pos(tokens, pos));
    lemma_expr_stays(
        tokens,
        next_pos(
            tokens,
            next_pos(tokens, next_pos(tokens, next_pos(tokens, next_pos(tokens, pos)))),
        ),
    );
    lemma_node_stays(tokens, pos);
    let first = next_pos(tokens, next_pos(tokens, next_pos(tokens, pos)));
    lemma_decl_args_stays(tokens, first);
    let close = first + decl_args(tokens, first).advance;
    let start = next_pos(tokens, next_pos(tokens, next_pos(tokens, close)));
    lemma_node_stays(tokens, start);
}

/// A production that tries several tokens before it knows whether it matches
/// gives the cursor back when it does not: the next alternative starts where
/// this one started. Blocks and statements know from their first token, and
/// then neither move nor report.
pub proof fn lemma_no_match_restores_cursor(tokens: Seq<TokenView>, pos: nat)
    ensures
        func_call(tokens, pos).node is None ==> func_call(tokens, pos).advance == 0,
        var_decl(tokens, pos).node is None ==> var_decl(tokens, pos).advance == 0,
        expr(tokens, pos).node is None ==> expr(tokens, pos).advance == 0,
        block(tokens, pos).node is None ==> block(tokens, pos) == Parsed::nothing(),
        statement(tokens, pos).node is None ==> statement(tokens, pos) == Parsed::nothing(),
{
    reveal(expr);
    reveal(func_call);
    reveal(call_args);
    reveal(node);
    reveal(block);
    reveal(block_nodes);
}

/// A text that is forbidden as a name is taken for a name nowhere: not for a
/// variable that is used, a function that is called or an argument that is
/// declared, where it stands at `pos`, and not for a variable or a function
/// that is declared, where it stands behind the `var` or `fcn` at `pos`.
pub proof fn lemma_forbidden_name_is_rejected(tokens: Seq<TokenView>, pos: nat)
    ensures
        pos < tokens.len() && is_forbidden_name(text_at(tokens, pos)) ==> {
            &&& variable_ref(tokens, pos) is None
            &&& func_call(tokens, pos).node is None
            &&& !decl_args(tokens, pos).complete
            &&& holds_type(tokens, pos, TokenType::Keyword) ==> expr(tokens, pos).node is None
        },
        pos + 1 < tokens.len() && is_forbidden_name(text_at(tokens, pos + 1)) ==> {
            &&& var_decl(tokens, pos).node is None
            &&& func_decl(tokens, pos).node is None
        },
{
    reveal(expr);
    reveal(func_call);
    reveal(call_args);
    reveal_strlit("Int8");
    reveal_strlit("Int16");
    reveal_strlit("Int32");
    reveal_strlit("Int64");
    reveal_strlit("Float32");
    reveal_strlit("Float64");
    reveal_strlit("Bool");
    reveal_strlit("Char");
    reveal_strlit("String");
    reveal_strlit("var");
    reveal_strlit("if");
    reveal_strlit("else");
    reveal_strlit("return");
    reveal_strlit(")");
    reveal_strlit("True");
    reveal_strlit("False");
    if pos < tokens.len() && is_forbidden_name(text_at(tokens, pos)) {
        let text = text_at(tokens, pos);
        assert(text.len() >= 2);
        assert(text != ")"@);
        assert(text != "True"@) by {
            if text == "True"@ {
                assert(text[0] == 'T');
                assert(text.len() == 4);
                assert(text[3] == 'e');
            }
        }
        assert(text != "False"@) by {
            if text == "False"@ {
                assert(text[0] == 'F');
                assert(text.len() == 5);
                assert(text[4] == 'e');
            }
        }
    }
}

/// Without a token `->` there is no function declaration: tokens among which
/// none is an arrow hold none, wherever the parse starts.
pub proof fn lemma_no_function_without_arrow(tokens: Seq<TokenView>, pos: nat)
    requires
        forall|i: int| 0 <= i < tokens.len() ==> (#[trigger] tokens[i]).content != "->"@,
    ensures
        func_decl(tokens, pos).node is None,
{
    let first = next_pos(tokens, next_pos(tokens, next_pos(tokens, pos)));
    let arrow = next_pos(tokens, first + decl_args(tokens, first).advance);
    if arrow < tokens.len() {
        assert(tokens[arrow as int].content != "->"@);
    }
}

} // verus!
