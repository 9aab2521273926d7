//! Every parse reads tokens from the front and never goes back: what it
//! leaves unread is a part of what it found unread. An expression declares
//! nothing: it leaves the scope as it found it.

use crate::compiler::model::{operator_tokens, operators, prefix_tokens, Outcome, State};
use crate::instruction::Instruction;
use crate::runtime::environment::LocalView;
use crate::scanner::TokenKind;
use vstd::prelude::*;

verus! {

/// A parse that succeeds keeps the tokens and does not leave more unread
/// than there were; if `strictly`, it leaves fewer.
pub open spec fn advances<T>(before: State, outcome: Outcome<T>, strictly: bool) -> bool {
    outcome matches Ok((next, _)) ==> next.tokens == before.tokens && next.left() <= before.left()
        && (strictly ==> next.left() < before.left())
}

/// A parse that succeeds leaves the scope as it was.
pub open spec fn keeps_scope<T>(before: State, outcome: Outcome<T>) -> bool {
    outcome matches Ok((next, _)) ==> next.scope == before.scope
}

/// A list of declarations does not go back.
pub proof fn lemma_declarations_advance(state: State, closing: Option<TokenKind>)
    ensures
        advances(state, state.declarations(closing), false),
    decreases state.left(), 16nat,
{
    if !(state.peek() is None || state.peek() == closing) {
        lemma_declaration_advances(state);
        if let Ok((declared, _)) = state.declaration() {
            lemma_declarations_advance(declared, closing);
        }
    }
}

/// A declaration reads at least one token.
pub proof fn lemma_declaration_advances(state: State)
    ensures
        advances(state, state.declaration(), true),
    decreases state.left(), 15nat,
{
    let (read, is_let) = state.tag(Some(TokenKind::Let));
    if is_let {
        lemma_let_declaration_advances(read);
    } else {
        lemma_statement_advances(state);
    }
}

/// What follows a `let` reads at least one token.
pub proof fn lemma_let_declaration_advances(state: State)
    ensures
        advances(state, state.let_declaration(), true),
    decreases state.left(), 14nat,
{
    if let Ok((named, _)) = state.parse_variable("Expected variable name after 'let'."@) {
        if let Ok((assigned, _)) = named.consume(
            Some(TokenKind::Equal),
            "Variables must be initialized."@,
        ) {
            lemma_expression_advances(assigned);
        }
    }
}

/// A statement reads at least one token.
pub proof fn lemma_statement_advances(state: State)
    ensures
        advances(state, state.statement(), true),
    decreases state.left(), 14nat,
{
    let (read, braced) = state.tag(Some(TokenKind::LeftBrace));
    if braced {
        lemma_block_advances(read.begin_scope());
    } else {
        lemma_expression_stmt_advances(state);
    }
}

/// What follows a `{` reads at least one token.
pub proof fn lemma_block_advances(state: State)
    ensures
        advances(state, state.block(), true),
    decreases state.left(), 17nat,
{
    lemma_declarations_advance(state, Some(TokenKind::RightBrace));
}

/// An expression statement reads at least one token.
pub proof fn lemma_expression_stmt_advances(state: State)
    ensures
        advances(state, state.expression_stmt(), true),
    decreases state.left(), 13nat,
{
    lemma_expression_advances(state);
}

/// An expression reads at least one token, and declares nothing.
pub proof fn lemma_expression_advances(state: State)
    ensures
        advances(state, state.expression(), true),
        keeps_scope(state, state.expression()),
    decreases state.left(), 12nat,
{
    lemma_binop_advances(state, 4);
}

/// An expression of a level reads at least one token.
pub proof fn lemma_binop_advances(state: State, level: nat)
    ensures
        advances(state, state.binop(level), true),
        keeps_scope(state, state.binop(level)),
    decreases state.left(), 2 * level + 3,
{
    if 1 <= level <= 4 {
        lemma_operand_advances(state, level);
        if let Ok((read, lhs)) = state.operand(level) {
            lemma_binop_rest_advances(read, level, lhs);
        }
    }
}

/// An operand of a level reads at least one token.
pub proof fn lemma_operand_advances(state: State, level: nat)
    ensures
        advances(state, state.operand(level), true),
        keeps_scope(state, state.operand(level)),
    decreases state.left(), 2 * level + 2,
{
    if level <= 1 {
        lemma_unary_advances(state);
    } else {
        lemma_binop_advances(state, (level - 1) as nat);
    }
}

/// What follows the first operand of a level does not go back.
pub proof fn lemma_binop_rest_advances(state: State, level: nat, lhs: u8)
    ensures
        advances(state, state.binop_rest(level, lhs), false),
        keeps_scope(state, state.binop_rest(level, lhs)),
    decreases state.left(), 0nat,
{
    let (read, found) = state.tag_any(operator_tokens(operators(level)));
    if let Some(place) = found {
        lemma_operand_advances(read, level);
        if let Ok((parsed, rhs)) = read.operand(level) {
            let operator = operators(level)[place as int];
            let arguments = if operator.2 {
                seq![rhs, lhs]
            } else {
                seq![lhs, rhs]
            };
            if crate::compiler::model::stores(level) {
                if let Ok((taken, store)) = parsed.use_register() {
                    lemma_binop_rest_advances(
                        taken.emit_byte(operator.1, arguments.push(store)).free_register(
                            lhs,
                        ).free_register(rhs),
                        level,
                        store,
                    );
                }
            } else {
                lemma_binop_rest_advances(
                    parsed.emit_byte(operator.1, arguments).free_register(lhs).free_register(rhs),
                    level,
                    0u8,
                );
            }
        }
    }
}

/// A unary expression reads at least one token.
pub proof fn lemma_unary_advances(state: State)
    ensures
        advances(state, state.unary(), true),
        keeps_scope(state, state.unary()),
    decreases state.left(), 1nat,
{
    let (read, found) = state.tag_any(prefix_tokens());
    if found is Some {
        lemma_primitive_advances(read);
    } else {
        lemma_primitive_advances(state);
    }
}

/// A primitive reads at least one token.
pub proof fn lemma_primitive_advances(state: State)
    ensures
        advances(state, state.primitive(), true),
        keeps_scope(state, state.primitive()),
    decreases state.left(), 0nat,
{
    if let Some(kind) = state.peek() {
        let read = state.advance();
        match kind {
            TokenKind::Identifier => {
                lemma_load_variable_advances(read);
            },
            TokenKind::LeftParen => {
                lemma_grouping_advances(read);
            },
            _ => {},
        }
    }
}

/// What follows a `(` reads at least one token.
pub proof fn lemma_grouping_advances(state: State)
    ensures
        advances(state, state.grouping(), true),
        keeps_scope(state, state.grouping()),
    decreases state.left(), 13nat,
{
    lemma_expression_advances(state);
}

/// What follows the name of a variable does not go back.
pub proof fn lemma_load_variable_advances(state: State)
    ensures
        advances(state, state.load_variable(), false),
        keeps_scope(state, state.load_variable()),
    decreases state.left(), 13nat,
{
    if let Ok((named, name)) = state.ident_const() {
        let (read, assigned) = named.tag(Some(TokenKind::Equal));
        if assigned {
            lemma_expression_advances(read);
        }
    }
}

/// A declaration `let IDENT = expression ;` that compiles, after its `let`,
/// with as many variables declared before as the scope counts, and fewer
/// than 255: the scope gains exactly one variable, behind the others, with
/// the text of the identifier as its name and the current depth as its
/// depth, and counts one more; and the last instruction emitted is `Let`
/// with the slot of that variable, which is the count before, and the
/// register that holds the value of the expression.
pub proof fn lemma_let_declares(state: State)
    requires
        state.let_declaration() is Ok,
        state.scope.num_vars == state.scope.vars.len(),
        state.scope.num_vars < 255,
    ensures
        ({
            let next = state.let_declaration()->Ok_0.0;
            let slot = state.scope.num_vars;
            let named = state.parse_variable("Expected variable name after 'let'."@)->Ok_0.0;
            let initializer = named.advance().expression();
            let code = next.bag.bytecode;
            &&& state.peek() == Some(TokenKind::Identifier)
            &&& next.scope.vars == state.scope.vars.push(
                LocalView {
                    name: state.tokens[state.position as int].lexeme,
                    depth: state.scope.depth,
                },
            )
            &&& next.scope.num_vars == slot + 1
            &&& next.scope.depth == state.scope.depth
            &&& initializer is Ok
            &&& code.len() >= 3
            &&& code.subrange(code.len() - 3, code.len() as int) == seq![
                Instruction::Let.spec_opcode(),
                slot,
                initializer->Ok_0.1,
            ]
        }),
{
    let named = state.parse_variable("Expected variable name after 'let'."@)->Ok_0.0;
    let assigned = named.advance();
    lemma_expression_advances(assigned);
    let (valued, value) = assigned.expression()->Ok_0;
    let ended = valued.advance();
    let next = ended.define_variable(state.scope.num_vars, value);
    assert(next == state.let_declaration()->Ok_0.0);
    let code = next.bag.bytecode;
    assert(code.subrange(code.len() - 3, code.len() as int) =~= seq![
        Instruction::Let.spec_opcode(),
        state.scope.num_vars,
        value,
    ]);
}

/// One operator between two operands: where an operator of the level
/// follows the left operand, whose value is in `lhs`, and none follows the
/// right operand, the instruction of the operator is emitted with the
/// registers of the two operands, the right one first for `>` and `>=`,
/// and, on a level that stores, with a register taken for the result; then
/// the register of the left operand is freed, then that of the right one.
/// The result is the register taken, or 0 on a level that does not store.
pub proof fn lemma_one_operator(state: State, level: nat, lhs: u8)
    requires
        1 <= level <= 4,
        state.tag_any(operator_tokens(operators(level))).1 is Some,
        state.advance().operand(level) is Ok,
        ({
            let (parsed, rhs) = state.advance().operand(level)->Ok_0;
            let place = state.tag_any(operator_tokens(operators(level))).1->0;
            let operator = operators(level)[place as int];
            let arguments = if operator.2 {
                seq![rhs, lhs]
            } else {
                seq![lhs, rhs]
            };
            let emitted = if crate::compiler::model::stores(level) {
                State { registers: parsed.registers.remove(0), ..parsed }.emit_byte(
                    operator.1,
                    arguments.push(parsed.registers[0]),
                )
            } else {
                parsed.emit_byte(operator.1, arguments)
            };
            (crate::compiler::model::stores(level) ==> parsed.registers.len() > 0)
                && emitted.tag_any(operator_tokens(operators(level))).1 is None
        }),
    ensures
        ({
            let (parsed, rhs) = state.advance().operand(level)->Ok_0;
            let place = state.tag_any(operator_tokens(operators(level))).1->0;
            let operator = operators(level)[place as int];
            let arguments = if operator.2 {
                seq![rhs, lhs]
            } else {
                seq![lhs, rhs]
            };
            let taken = State { registers: parsed.registers.remove(0), ..parsed };
            state.binop_rest(level, lhs) == if crate::compiler::model::stores(level) {
                Ok::<(State, u8), crate::compiler::model::Failure>(
                    (
                        taken.emit_byte(
                            operator.1,
                            arguments.push(parsed.registers[0]),
                        ).free_register(lhs).free_register(rhs),
                        parsed.registers[0],
                    ),
                )
            } else {
                Ok::<(State, u8), crate::compiler::model::Failure>(
                    (
                        parsed.emit_byte(operator.1, arguments).free_register(lhs).free_register(
                            rhs,
                        ),
                        0u8,
                    ),
                )
            }
        }),
        operators(3)[0] == (TokenKind::Less, Instruction::Lt, false),
        operators(3)[1] == (TokenKind::Greater, Instruction::Lt, true),
        operators(3)[2] == (TokenKind::LessEqual, Instruction::Le, false),
        operators(3)[3] == (TokenKind::GreaterEqual, Instruction::Le, true),
{
    reveal_with_fuel(State::binop_rest, 2);
    lemma_operand_advances(state.advance(), level);
}

} // verus!
