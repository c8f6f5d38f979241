//! The grammar of Huff, as functions on a sequence of tokens.
//!
//! Each production takes the tokens and a [`Cursor`], the place it starts at,
//! and gives a [`Step`]: the place where it stopped, and there either the
//! syntax node that it read or the error that it met. The parser's functions
//! are proved to compute exactly these.

use vstd::prelude::*;
use crate::ast::{
    ArgumentView, BuiltinFunctionCallView, BuiltinFunctionKind, ConstVal, ConstantDefinitionView,
    ContractView, DefinitionView, EventView, FreeStoragePointer, FunctionType, FunctionView,
    LabelView, MacroArgView, MacroDefinitionView, MacroInvocationView, StatementTypeView,
    StatementView, TableDefinitionView, TableKind, contract_of,
};
use crate::error::{ParserErrorKindView, ParserErrorView};
use crate::hashing::selector_of;
use crate::paths::{import_ok, resolved_path};
use crate::sizes::{size_word_of, table_size_of};
use crate::span::Span;
use crate::text::type_text;
use crate::token::{PrimitiveEVMType, TokenKindView, TokenView};

verus! {

/// A place in the token sequence: the index of the current token, and the
/// spans of the tokens consumed since the accumulator was last emptied.
pub ghost struct Cursor {
    pub pos: nat,
    pub spans: Seq<Span>,
}

/// What a production gives: where it stopped, and what it read or why it
/// failed.
pub ghost struct Step<T> {
    pub next: Cursor,
    pub out: Result<T, ParserErrorView>,
}

impl<T> Step<T> {
    /// Whether the production failed.
    pub open spec fn failed(self) -> bool {
        self.out is Err
    }

    /// What the production read.
    pub open spec fn value(self) -> T
        recommends
            !self.failed(),
    {
        self.out->Ok_0
    }

    /// The failure of a production, as the failure of the one that called it.
    pub open spec fn carry<U>(self) -> Step<U>
        recommends
            self.failed(),
    {
        Step { next: self.next, out: Err(self.out->Err_0) }
    }
}

/// A production that read `value` and stopped at `next`.
pub open spec fn done<T>(next: Cursor, value: T) -> Step<T> {
    Step { next, out: Ok(value) }
}

/// A production that failed at `next`.
pub open spec fn fail<T>(next: Cursor, kind: ParserErrorKindView, spans: Seq<Span>) -> Step<T> {
    Step { next, out: Err(ParserErrorView { kind, spans }) }
}

/// A production that failed at `at`, handed the accumulated spans to the
/// error and emptied the accumulator.
pub open spec fn fail_cleared<T>(at: Cursor, kind: ParserErrorKindView) -> Step<T> {
    fail(Cursor { pos: at.pos, spans: Seq::empty() }, kind, at.spans)
}

/// The token that stands for the end of the input.
pub open spec fn eof_token() -> TokenView {
    TokenView { kind: TokenKindView::Eof, span: Span::spec_eof() }
}

/// The token at an index; behind the last token, the end of the input.
pub open spec fn token_at(ts: Seq<TokenView>, pos: nat) -> TokenView {
    if pos < ts.len() {
        ts[pos as int]
    } else {
        eof_token()
    }
}

/// The kind of the current token.
pub open spec fn kind_at(ts: Seq<TokenView>, c: Cursor) -> TokenKindView {
    token_at(ts, c.pos).kind
}

/// The span of the current token.
pub open spec fn span_at(ts: Seq<TokenView>, c: Cursor) -> Span {
    token_at(ts, c.pos).span
}

/// Consuming the current token: its span joins the accumulator, and the
/// cursor moves on by one unless it stands behind the last token.
pub open spec fn advance(ts: Seq<TokenView>, c: Cursor) -> Cursor {
    Cursor {
        pos: if c.pos < ts.len() {
            c.pos + 1
        } else {
            c.pos
        },
        spans: c.spans.push(span_at(ts, c)),
    }
}

/// Consuming the current token where it is of the same variant as `kind`,
/// and giving its own kind; else the error `UnexpectedType(kind)`.
pub open spec fn expect(ts: Seq<TokenView>, c: Cursor, kind: TokenKindView) -> Step<
    TokenKindView,
> {
    if kind_at(ts, c).same_kind(kind) {
        done(advance(ts, c), kind_at(ts, c))
    } else {
        fail(c, ParserErrorKindView::UnexpectedType(kind), c.spans)
    }
}

/// The index that the cursor reaches from `pos` by stepping over each next
/// token whose kind is one of `kinds`.
pub open spec fn skip_all(ts: Seq<TokenView>, pos: nat, kinds: Seq<TokenKindView>) -> nat
    decreases ts.len() - pos,
{
    if pos + 1 < ts.len() && kinds.contains(ts[pos + 1 as int].kind) {
        skip_all(ts, pos + 1, kinds)
    } else {
        pos
    }
}

/// The cursor behind the blank space that stands at `c`.
pub open spec fn whitespace_from(ts: Seq<TokenView>, c: Cursor) -> Cursor
    decreases ts.len() - c.pos,
{
    if kind_at(ts, c) is Whitespace {
        whitespace_from(ts, advance(ts, c))
    } else {
        c
    }
}

/// One token of blank space or more.
pub open spec fn newline(ts: Seq<TokenView>, c: Cursor) -> Step<()> {
    let first = expect(ts, c, TokenKindView::Whitespace);
    if first.failed() {
        first.carry()
    } else {
        done(whitespace_from(ts, first.next), ())
    }
}

/// The text that an identifier carries.
pub open spec fn ident_text(kind: TokenKindView) -> Seq<char> {
    match kind {
        TokenKindView::Ident(s) => s,
        _ => Seq::empty(),
    }
}

/// Why a type that is no array is refused: a `uint` or an `int` whose width
/// is no multiple of 8 from 8 to 256, a `bytes` whose length is not from 1
/// to 32.
pub open spec fn primitive_error(p: PrimitiveEVMType) -> Option<ParserErrorKindView> {
    match p {
        PrimitiveEVMType::Uint(n) => if 8 <= n <= 256 && n % 8 == 0 {
            None
        } else {
            Some(ParserErrorKindView::InvalidUint256(n))
        },
        PrimitiveEVMType::Int(n) => if 8 <= n <= 256 && n % 8 == 0 {
            None
        } else {
            Some(ParserErrorKindView::InvalidInt(n))
        },
        PrimitiveEVMType::Bytes(n) => if 1 <= n <= 32 {
            None
        } else {
            Some(ParserErrorKindView::InvalidBytes(n))
        },
        _ => None,
    }
}

/// The current token, taken as a type whose element type is `p`: consumed
/// and given back where `p` is valid.
pub open spec fn primitive_type(ts: Seq<TokenView>, c: Cursor, p: PrimitiveEVMType) -> Step<
    TokenKindView,
> {
    match primitive_error(p) {
        Some(e) => fail(c, e, seq![span_at(ts, c)]),
        None => done(advance(ts, c), kind_at(ts, c)),
    }
}

/// The type of an argument: a primitive type or an array type whose element
/// type is valid.
pub open spec fn arg_type(ts: Seq<TokenView>, c: Cursor) -> Step<TokenKindView> {
    match kind_at(ts, c) {
        TokenKindView::PrimitiveType(p) => primitive_type(ts, c, p),
        TokenKindView::ArrayType(p, _) => primitive_type(ts, c, p),
        k => fail(c, ParserErrorKindView::InvalidArgs(k), seq![span_at(ts, c)]),
    }
}

/// The argument without type, name or span.
pub open spec fn empty_argument() -> ArgumentView {
    ArgumentView { arg_type: None, name: None, indexed: false, span: Seq::empty() }
}

/// The type of an argument and the word `indexed` behind it, where the list
/// has types.
pub open spec fn argument_type_part(
    ts: Seq<TokenView>,
    c: Cursor,
    select_type: bool,
    has_indexed: bool,
) -> Step<ArgumentView> {
    if !select_type {
        done(c, empty_argument())
    } else {
        let ty = arg_type(ts, c);
        if ty.failed() {
            ty.carry()
        } else if has_indexed && kind_at(ts, ty.next) is Indexed {
            done(
                advance(ts, ty.next),
                ArgumentView {
                    arg_type: Some(type_text(ty.value())),
                    name: None,
                    indexed: true,
                    span: seq![span_at(ts, c), span_at(ts, ty.next)],
                },
            )
        } else {
            done(
                ty.next,
                ArgumentView {
                    arg_type: Some(type_text(ty.value())),
                    name: None,
                    indexed: false,
                    span: seq![span_at(ts, c)],
                },
            )
        }
    }
}

/// One argument of a list: its type with the word `indexed`, then its name,
/// then a comma, each as far as the list has it and it is there.
pub open spec fn argument(
    ts: Seq<TokenView>,
    c: Cursor,
    select_name: bool,
    select_type: bool,
    has_indexed: bool,
) -> Step<ArgumentView> {
    let typed = argument_type_part(ts, c, select_type, has_indexed);
    if typed.failed() {
        typed
    } else {
        let c1 = typed.next;
        let named = select_name && kind_at(ts, c1) is Ident;
        let c2 = if named {
            advance(ts, c1)
        } else {
            c1
        };
        let c3 = if kind_at(ts, c2) is Comma {
            advance(ts, c2)
        } else {
            c2
        };
        done(
            c3,
            if named {
                ArgumentView {
                    name: Some(ident_text(kind_at(ts, c1))),
                    span: typed.value().span.push(span_at(ts, c1)),
                    ..typed.value()
                }
            } else {
                typed.value()
            },
        )
    }
}

/// Whether the cursor moved forward from `c` to `next` inside the tokens.
pub open spec fn progressed(ts: Seq<TokenView>, c: Cursor, next: Cursor) -> bool {
    c.pos < next.pos <= ts.len()
}

/// The arguments from `c` up to the closing parenthesis, which is consumed,
/// behind those of `acc`. An argument that consumes nothing is the error
/// `InvalidArgs`.
pub open spec fn arguments_from(
    ts: Seq<TokenView>,
    c: Cursor,
    select_name: bool,
    select_type: bool,
    has_indexed: bool,
    acc: Seq<ArgumentView>,
) -> Step<Seq<ArgumentView>>
    decreases ts.len() - c.pos,
{
    if kind_at(ts, c) is CloseParen {
        done(advance(ts, c), acc)
    } else {
        let arg = argument(ts, c, select_name, select_type, has_indexed);
        if arg.failed() {
            arg.carry()
        } else if progressed(ts, c, arg.next) {
            arguments_from(
                ts,
                arg.next,
                select_name,
                select_type,
                has_indexed,
                acc.push(arg.value()),
            )
        } else {
            fail(
                arg.next,
                ParserErrorKindView::InvalidArgs(kind_at(ts, arg.next)),
                seq![span_at(ts, arg.next)],
            )
        }
    }
}

/// A list of arguments in parentheses.
pub open spec fn arguments(
    ts: Seq<TokenView>,
    c: Cursor,
    select_name: bool,
    select_type: bool,
    has_indexed: bool,
) -> Step<Seq<ArgumentView>> {
    let open = expect(ts, c, TokenKindView::OpenParen);
    if open.failed() {
        open.carry()
    } else {
        arguments_from(ts, open.next, select_name, select_type, has_indexed, Seq::empty())
    }
}

/// One number in parentheses.
pub open spec fn single_arg(ts: Seq<TokenView>, c: Cursor) -> Step<usize> {
    let open = expect(ts, c, TokenKindView::OpenParen);
    if open.failed() {
        open.carry()
    } else {
        match kind_at(ts, open.next) {
            TokenKindView::Num(n) => {
                let close = expect(ts, advance(ts, open.next), TokenKindView::CloseParen);
                if close.failed() {
                    close.carry()
                } else {
                    done(close.next, n)
                }
            },
            k => fail(
                open.next,
                ParserErrorKindView::InvalidSingleArg(k),
                seq![span_at(ts, open.next)],
            ),
        }
    }
}

/// One argument of a macro invocation: a literal, a name, or a name in
/// angle brackets.
pub open spec fn macro_arg(ts: Seq<TokenView>, c: Cursor) -> Step<MacroArgView> {
    match kind_at(ts, c) {
        TokenKindView::Literal(l) => done(advance(ts, c), MacroArgView::Literal(l)),
        TokenKindView::Ident(s) => done(advance(ts, c), MacroArgView::Ident(s)),
        TokenKindView::LeftAngle => {
            let name = expect(ts, advance(ts, c), TokenKindView::Ident("ARG_CALL"@));
            if name.failed() {
                name.carry()
            } else {
                let close = expect(ts, name.next, TokenKindView::RightAngle);
                if close.failed() {
                    close.carry()
                } else {
                    done(close.next, MacroArgView::ArgCall(ident_text(name.value())))
                }
            }
        },
        k => fail_cleared(c, ParserErrorKindView::InvalidMacroArgs(k)),
    }
}

/// The cursor behind a comma, where one stands at `c`.
pub open spec fn skip_comma(ts: Seq<TokenView>, c: Cursor) -> Cursor {
    if kind_at(ts, c) is Comma {
        advance(ts, c)
    } else {
        c
    }
}

/// The arguments of a macro invocation from `c` up to the closing
/// parenthesis, which is consumed, behind those of `acc`.
pub open spec fn macro_args_from(ts: Seq<TokenView>, c: Cursor, acc: Seq<MacroArgView>) -> Step<
    Seq<MacroArgView>,
>
    decreases ts.len() - c.pos,
{
    if kind_at(ts, c) is CloseParen {
        done(advance(ts, c), acc)
    } else {
        let arg = macro_arg(ts, c);
        if arg.failed() {
            arg.carry()
        } else {
            macro_args_from(ts, skip_comma(ts, arg.next), acc.push(arg.value()))
        }
    }
}

/// The arguments of a macro invocation, in parentheses.
pub open spec fn macro_call(ts: Seq<TokenView>, c: Cursor) -> Step<Seq<MacroArgView>> {
    let open = expect(ts, c, TokenKindView::OpenParen);
    if open.failed() {
        open.carry()
    } else {
        macro_args_from(ts, open.next, Seq::empty())
    }
}

/// A name between `open` and `close`, with the span of the name. Another
/// token in place of the name is the error `wrong`, which takes the
/// accumulated spans with it.
pub open spec fn bracketed_name(
    ts: Seq<TokenView>,
    c: Cursor,
    open: TokenKindView,
    close: TokenKindView,
    wrong: spec_fn(TokenKindView) -> ParserErrorKindView,
) -> Step<(Seq<char>, Span)> {
    let opened = expect(ts, c, open);
    if opened.failed() {
        opened.carry()
    } else {
        match kind_at(ts, opened.next) {
            TokenKindView::Ident(name) => {
                let closed = expect(ts, advance(ts, opened.next), close);
                if closed.failed() {
                    closed.carry()
                } else {
                    done(closed.next, (name, span_at(ts, opened.next)))
                }
            },
            k => fail_cleared(opened.next, wrong(k)),
        }
    }
}

/// The name of a constant in square brackets.
pub open spec fn constant_push(ts: Seq<TokenView>, c: Cursor) -> Step<(Seq<char>, Span)> {
    bracketed_name(
        ts,
        c,
        TokenKindView::OpenBracket,
        TokenKindView::CloseBracket,
        |k: TokenKindView| ParserErrorKindView::InvalidConstant(k),
    )
}

/// The name of a macro parameter in angle brackets.
pub open spec fn arg_call(ts: Seq<TokenView>, c: Cursor) -> Step<(Seq<char>, Span)> {
    bracketed_name(
        ts,
        c,
        TokenKindView::LeftAngle,
        TokenKindView::RightAngle,
        |k: TokenKindView| ParserErrorKindView::InvalidArgCallIdent(k),
    )
}

/// Whether a token of this kind starts a statement that may stand in a macro
/// body and under a label alike.
pub open spec fn starts_plain_statement(kind: TokenKindView) -> bool {
    kind is Literal || kind is Opcode || kind is Ident || kind is OpenBracket || kind is LeftAngle
}

/// A statement that is one token.
pub open spec fn token_statement(ty: StatementTypeView, span: Span) -> StatementView {
    StatementView { ty, span: seq![span] }
}

/// The statement at `c`, where the current token starts a plain one: a
/// literal, an instruction, a name alone (the call of a label), a name with
/// arguments in parentheses (the invocation of a macro), the name of a
/// constant in square brackets, or that of a parameter in angle brackets. An
/// invocation has the spans of all its tokens.
pub open spec fn plain_statement(ts: Seq<TokenView>, c: Cursor) -> Step<StatementView>
    recommends
        starts_plain_statement(kind_at(ts, c)),
{
    match kind_at(ts, c) {
        TokenKindView::Literal(l) => done(
            advance(ts, c),
            token_statement(StatementTypeView::Literal(l), span_at(ts, c)),
        ),
        TokenKindView::Opcode(o) => done(
            advance(ts, c),
            token_statement(StatementTypeView::Opcode(o), span_at(ts, c)),
        ),
        TokenKindView::Ident(name) => {
            let c1 = advance(ts, c);
            if kind_at(ts, c1) is OpenParen {
                let call = macro_call(ts, c1);
                if call.failed() {
                    call.carry()
                } else {
                    let span = seq![span_at(ts, c)] + call.next.spans.subrange(
                        c1.spans.len() as int,
                        call.next.spans.len() as int,
                    );
                    done(
                        call.next,
                        StatementView {
                            ty: StatementTypeView::MacroInvocation(
                                MacroInvocationView { macro_name: name, args: call.value(), span },
                            ),
                            span,
                        },
                    )
                }
            } else {
                done(c1, token_statement(StatementTypeView::LabelCall(name), span_at(ts, c)))
            }
        },
        TokenKindView::OpenBracket => {
            let name = constant_push(ts, c);
            if name.failed() {
                name.carry()
            } else {
                done(
                    name.next,
                    token_statement(StatementTypeView::Constant(name.value().0), name.value().1),
                )
            }
        },
        _ => {
            let name = arg_call(ts, c);
            if name.failed() {
                name.carry()
            } else {
                done(
                    name.next,
                    token_statement(StatementTypeView::ArgCall(name.value().0), name.value().1),
                )
            }
        },
    }
}

/// The statements under a label from `c` up to the next label or the closing
/// brace, neither of which is consumed, behind those of `acc`.
pub open spec fn label_statements_from(
    ts: Seq<TokenView>,
    c: Cursor,
    acc: Seq<StatementView>,
) -> Step<Seq<StatementView>>
    decreases ts.len() - c.pos,
    via label_statements_from_decreases
{
    let kind = kind_at(ts, c);
    if kind is Label || kind is CloseBrace {
        done(c, acc)
    } else if starts_plain_statement(kind) {
        let st = plain_statement(ts, c);
        if st.failed() {
            st.carry()
        } else {
            label_statements_from(ts, st.next, acc.push(st.value()))
        }
    } else {
        fail(c, ParserErrorKindView::InvalidTokenInLabelDefinition(kind), seq![span_at(ts, c)])
    }
}

/// The body of a label: a colon, then the statements under the label.
pub open spec fn label_body(ts: Seq<TokenView>, c: Cursor) -> Step<Seq<StatementView>> {
    let colon = expect(ts, c, TokenKindView::Colon);
    if colon.failed() {
        colon.carry()
    } else {
        label_statements_from(ts, colon.next, Seq::empty())
    }
}

/// The spans of the statements of a list, one behind the other.
pub open spec fn statement_spans(body: Seq<StatementView>) -> Seq<Span>
    decreases body.len(),
{
    if body.len() == 0 {
        Seq::empty()
    } else {
        statement_spans(body.drop_last()) + body.last().span
    }
}

/// The spans of the arguments of a list, one behind the other.
pub open spec fn argument_spans(args: Seq<ArgumentView>) -> Seq<Span>
    decreases args.len(),
{
    if args.len() == 0 {
        Seq::empty()
    } else {
        argument_spans(args.drop_last()) + args.last().span
    }
}

/// The built-in function of a name.
pub open spec fn builtin_kind(name: Seq<char>) -> Option<BuiltinFunctionKind> {
    if name == "__tablesize"@ {
        Some(BuiltinFunctionKind::Tablesize)
    } else if name == "__codesize"@ {
        Some(BuiltinFunctionKind::Codesize)
    } else if name == "__tablestart"@ {
        Some(BuiltinFunctionKind::Tablestart)
    } else {
        None
    }
}

/// A label definition at `c`: the label, and the statements under it. Its
/// spans are that of the label and those of its statements.
pub open spec fn label_statement(ts: Seq<TokenView>, c: Cursor) -> Step<StatementView>
    recommends
        kind_at(ts, c) is Label,
{
    let inner = label_body(ts, advance(ts, c));
    if inner.failed() {
        inner.carry()
    } else {
        let span = seq![span_at(ts, c)] + statement_spans(inner.value());
        done(
            inner.next,
            StatementView {
                ty: StatementTypeView::Label(
                    LabelView { name: kind_at(ts, c)->Label_0, inner: inner.value(), span },
                ),
                span,
            },
        )
    }
}

/// The call of the built-in function `kind` at `c`: its name, and a list of
/// names in parentheses. Its spans are that of the name and those of the
/// arguments.
pub open spec fn builtin_statement(
    ts: Seq<TokenView>,
    c: Cursor,
    kind: BuiltinFunctionKind,
) -> Step<StatementView> {
    let args = arguments(ts, advance(ts, c), true, false, false);
    if args.failed() {
        args.carry()
    } else {
        let span = seq![span_at(ts, c)] + argument_spans(args.value());
        done(
            args.next,
            StatementView {
                ty: StatementTypeView::BuiltinFunctionCall(
                    BuiltinFunctionCallView { kind, args: args.value(), span },
                ),
                span,
            },
        )
    }
}

/// Whether a token of this kind is the name of a built-in function that the
/// parser knows.
pub open spec fn is_known_builtin(kind: TokenKindView) -> bool {
    kind is BuiltinFunction && builtin_kind(kind->BuiltinFunction_0) is Some
}

/// The statements of a macro body from `c` up to the closing brace, which is
/// consumed, behind those of `acc`.
pub open spec fn body_statements_from(
    ts: Seq<TokenView>,
    c: Cursor,
    acc: Seq<StatementView>,
) -> Step<Seq<StatementView>>
    decreases ts.len() - c.pos,
    via body_statements_from_decreases
{
    let kind = kind_at(ts, c);
    if kind is CloseBrace {
        done(advance(ts, c), acc)
    } else if starts_plain_statement(kind) || kind is Label || is_known_builtin(kind) {
        let st = if starts_plain_statement(kind) {
            plain_statement(ts, c)
        } else if kind is Label {
            label_statement(ts, c)
        } else {
            builtin_statement(ts, c, builtin_kind(kind->BuiltinFunction_0)->Some_0)
        };
        if st.failed() {
            st.carry()
        } else {
            body_statements_from(ts, st.next, acc.push(st.value()))
        }
    } else {
        fail(c, ParserErrorKindView::InvalidTokenInMacroBody(kind), seq![span_at(ts, c)])
    }
}

/// The body of a macro, in braces.
pub open spec fn body(ts: Seq<TokenView>, c: Cursor) -> Step<Seq<StatementView>> {
    let open = expect(ts, c, TokenKindView::OpenBrace);
    if open.failed() {
        open.carry()
    } else {
        body_statements_from(ts, open.next, Seq::empty())
    }
}

/// The entries of a table from `c` up to the closing brace, which is
/// consumed, behind those of `acc`. Each entry is a name.
pub open spec fn table_statements_from(
    ts: Seq<TokenView>,
    c: Cursor,
    acc: Seq<StatementView>,
) -> Step<Seq<StatementView>>
    decreases ts.len() - c.pos,
{
    match kind_at(ts, c) {
        TokenKindView::CloseBrace => done(advance(ts, c), acc),
        TokenKindView::Ident(name) => table_statements_from(
            ts,
            advance(ts, c),
            acc.push(token_statement(StatementTypeView::LabelCall(name), span_at(ts, c))),
        ),
        k => fail(c, ParserErrorKindView::InvalidTableBodyToken(k), seq![span_at(ts, c)]),
    }
}

/// The body of a table, in braces.
pub open spec fn table_body(ts: Seq<TokenView>, c: Cursor) -> Step<Seq<StatementView>> {
    let open = expect(ts, c, TokenKindView::OpenBrace);
    if open.failed() {
        open.carry()
    } else {
        table_statements_from(ts, open.next, Seq::empty())
    }
}

/// The form of table that a keyword starts.
pub open spec fn table_kind(kind: TokenKindView) -> Option<TableKind> {
    match kind {
        TokenKindView::JumpTable => Some(TableKind::JumpTable),
        TokenKindView::JumpTablePacked => Some(TableKind::JumpTablePacked),
        TokenKindView::CodeTable => Some(TableKind::CodeTable),
        _ => None,
    }
}

/// The cursor behind the current token, where that is of the same variant as
/// `kind`; else the cursor itself.
pub open spec fn skip(ts: Seq<TokenView>, c: Cursor, kind: TokenKindView) -> Cursor {
    if kind_at(ts, c).same_kind(kind) {
        advance(ts, c)
    } else {
        c
    }
}

/// The definition of a table: its keyword, its name, then `(`, `)` and `=`,
/// each of which may be left out, and its body. Another token in place of
/// the keyword is the error `InvalidDefinition`.
pub open spec fn table(ts: Seq<TokenView>, c: Cursor) -> Step<TableDefinitionView> {
    match table_kind(kind_at(ts, c)) {
        None => fail(c, ParserErrorKindView::InvalidDefinition, c.spans),
        Some(kind) => {
            let name = expect(ts, advance(ts, c), TokenKindView::Ident("TABLE_NAME"@));
            if name.failed() {
                name.carry()
            } else {
                let c1 = skip(ts, name.next, TokenKindView::OpenParen);
                let c2 = skip(ts, c1, TokenKindView::CloseParen);
                let c3 = skip(ts, c2, TokenKindView::Assign);
                let entries = table_body(ts, c3);
                if entries.failed() {
                    entries.carry()
                } else {
                    done(
                        entries.next,
                        TableDefinitionView {
                            name: ident_text(name.value()),
                            kind,
                            statements: entries.value(),
                            size: size_word_of(table_size_of(kind, entries.value())),
                            span: entries.next.spans,
                        },
                    )
                }
            }
        },
    }
}

/// What follows the name and the parameters of a macro: `=`, `takes` with a
/// number, `returns` with a number, and the body.
pub open spec fn macro_rest(
    ts: Seq<TokenView>,
    c: Cursor,
    name: Seq<char>,
    parameters: Seq<ArgumentView>,
) -> Step<MacroDefinitionView> {
    let assign = expect(ts, c, TokenKindView::Assign);
    if assign.failed() {
        assign.carry()
    } else {
        let takes_word = expect(ts, assign.next, TokenKindView::Takes);
        if takes_word.failed() {
            takes_word.carry()
        } else {
            let takes = single_arg(ts, takes_word.next);
            if takes.failed() {
                takes.carry()
            } else {
                let gives_word = expect(ts, takes.next, TokenKindView::Returns);
                if gives_word.failed() {
                    gives_word.carry()
                } else {
                    let gives = single_arg(ts, gives_word.next);
                    if gives.failed() {
                        gives.carry()
                    } else {
                        let statements = body(ts, gives.next);
                        if statements.failed() {
                            statements.carry()
                        } else {
                            done(
                                statements.next,
                                MacroDefinitionView {
                                    name,
                                    parameters,
                                    statements: statements.value(),
                                    takes: takes.value(),
                                    gives: gives.value(),
                                    span: statements.next.spans,
                                },
                            )
                        }
                    }
                }
            }
        }
    }
}

/// The definition of a macro: `macro`, its name, the names of its parameters
/// in parentheses, `=`, `takes` with a number, `returns` with a number, and
/// the body.
pub open spec fn macro_definition(ts: Seq<TokenView>, c: Cursor) -> Step<MacroDefinitionView> {
    let word = expect(ts, c, TokenKindView::Macro);
    if word.failed() {
        word.carry()
    } else {
        let name = expect(ts, word.next, TokenKindView::Ident("MACRO_NAME"@));
        if name.failed() {
            name.carry()
        } else {
            let parameters = arguments(ts, name.next, true, false, false);
            if parameters.failed() {
                parameters.carry()
            } else {
                macro_rest(ts, parameters.next, ident_text(name.value()), parameters.value())
            }
        }
    }
}

/// The keyword `word` and a name behind it.
pub open spec fn named(ts: Seq<TokenView>, c: Cursor, word: TokenKindView) -> Step<Seq<char>> {
    let first = expect(ts, c, word);
    if first.failed() {
        first.carry()
    } else {
        let name = expect(ts, first.next, TokenKindView::Ident("x"@));
        if name.failed() {
            name.carry()
        } else {
            done(name.next, ident_text(name.value()))
        }
    }
}

/// The definition of a constant: `constant`, its name, `=`, and a literal or
/// a free storage pointer. It takes the accumulated spans and empties the
/// accumulator, also where the value is wrong.
pub open spec fn constant(ts: Seq<TokenView>, c: Cursor) -> Step<ConstantDefinitionView> {
    let name = named(ts, c, TokenKindView::Constant);
    if name.failed() {
        name.carry()
    } else {
        let assign = expect(ts, name.next, TokenKindView::Assign);
        if assign.failed() {
            assign.carry()
        } else {
            let after = advance(ts, assign.next);
            let cleared = Cursor { pos: after.pos, spans: Seq::empty() };
            match kind_at(ts, assign.next) {
                TokenKindView::FreeStoragePointer => done(
                    cleared,
                    ConstantDefinitionView {
                        name: name.value(),
                        value: ConstVal::FreeStoragePointer(FreeStoragePointer),
                        span: after.spans,
                    },
                ),
                TokenKindView::Literal(l) => done(
                    cleared,
                    ConstantDefinitionView {
                        name: name.value(),
                        value: ConstVal::Literal(l),
                        span: after.spans,
                    },
                ),
                k => fail_cleared(assign.next, ParserErrorKindView::InvalidConstantValue(k)),
            }
        }
    }
}

/// The declaration of an event: `event`, its name, and its parameters, each
/// with a type, maybe `indexed`, maybe a name.
pub open spec fn event(ts: Seq<TokenView>, c: Cursor) -> Step<EventView> {
    let name = named(ts, c, TokenKindView::Event);
    if name.failed() {
        name.carry()
    } else {
        let parameters = arguments(ts, name.next, true, true, true);
        if parameters.failed() {
            parameters.carry()
        } else {
            done(
                parameters.next,
                EventView {
                    name: name.value(),
                    parameters: parameters.value(),
                    span: parameters.next.spans,
                },
            )
        }
    }
}

/// The mutability that a keyword names.
pub open spec fn function_type(kind: TokenKindView) -> Option<FunctionType> {
    match kind {
        TokenKindView::View => Some(FunctionType::View),
        TokenKindView::Pure => Some(FunctionType::Pure),
        TokenKindView::Payable => Some(FunctionType::Payable),
        TokenKindView::NonPayable => Some(FunctionType::NonPayable),
        _ => None,
    }
}

/// The types of the arguments of a list, in order; the empty text for one
/// without a type.
pub open spec fn argument_types(args: Seq<ArgumentView>) -> Seq<Seq<char>> {
    args.map_values(
        |a: ArgumentView|
            match a.arg_type {
                Some(t) => t,
                None => Seq::empty(),
            },
    )
}

/// The keyword `function` and the name of the function. Another token in
/// place of the name is the error `InvalidName`.
pub open spec fn function_name(ts: Seq<TokenView>, c: Cursor) -> Step<Seq<char>> {
    let word = expect(ts, c, TokenKindView::Function);
    if word.failed() {
        word.carry()
    } else {
        match kind_at(ts, word.next) {
            TokenKindView::Ident(name) => done(advance(ts, word.next), name),
            k => fail(word.next, ParserErrorKindView::InvalidName(k), word.next.spans),
        }
    }
}

/// The declaration of a function: `function`, its name, its inputs, its
/// mutability, `returns`, and its outputs. The selector is computed from the
/// name and the types of the inputs.
pub open spec fn function(ts: Seq<TokenView>, c: Cursor) -> Step<FunctionView> {
    let name = function_name(ts, c);
    if name.failed() {
        name.carry()
    } else {
        let inputs = arguments(ts, name.next, true, true, false);
        if inputs.failed() {
            inputs.carry()
        } else {
            match function_type(kind_at(ts, inputs.next)) {
                None => fail(
                    inputs.next,
                    ParserErrorKindView::UnexpectedType(kind_at(ts, inputs.next)),
                    inputs.next.spans,
                ),
                Some(fn_type) => {
                    let word = expect(ts, advance(ts, inputs.next), TokenKindView::Returns);
                    if word.failed() {
                        word.carry()
                    } else {
                        let outputs = arguments(ts, word.next, true, true, false);
                        if outputs.failed() {
                            outputs.carry()
                        } else {
                            done(
                                outputs.next,
                                FunctionView {
                                    name: name.value(),
                                    signature: selector_of(
                                        name.value(),
                                        argument_types(inputs.value()),
                                    ),
                                    inputs: inputs.value(),
                                    fn_type,
                                    outputs: outputs.value(),
                                    span: outputs.next.spans,
                                },
                            )
                        }
                    }
                },
            }
        }
    }
}

/// The production `p`, with what it read wrapped by `wrap`.
pub open spec fn wrapped<T>(p: Step<T>, wrap: spec_fn(T) -> DefinitionView) -> Step<
    DefinitionView,
> {
    if p.failed() {
        p.carry()
    } else {
        done(p.next, wrap(p.value()))
    }
}

/// Whether `item` is the production `p`, with what it read wrapped by `wrap`.
pub open spec fn wraps<T>(
    item: Step<DefinitionView>,
    p: Step<T>,
    wrap: spec_fn(T) -> DefinitionView,
) -> bool {
    &&& item.next == p.next
    &&& match p.out {
        Ok(v) => item.out == Ok::<DefinitionView, ParserErrorView>(wrap(v)),
        Err(e) => item.out == Err::<DefinitionView, ParserErrorView>(e),
    }
}

/// What stands behind `#define`: the keyword at `c` says which definition.
#[verifier::opaque]
pub open spec fn definition(ts: Seq<TokenView>, c: Cursor) -> Step<DefinitionView> {
    match kind_at(ts, c) {
        TokenKindView::Function => wrapped(
            function(ts, c),
            |f: FunctionView| DefinitionView::Function(f),
        ),
        TokenKindView::Event => wrapped(event(ts, c), |e: EventView| DefinitionView::Event(e)),
        TokenKindView::Constant => wrapped(
            constant(ts, c),
            |d: ConstantDefinitionView| DefinitionView::Constant(d),
        ),
        TokenKindView::Macro => wrapped(
            macro_definition(ts, c),
            |m: MacroDefinitionView| DefinitionView::Macro(m),
        ),
        TokenKindView::JumpTable | TokenKindView::JumpTablePacked | TokenKindView::CodeTable => {
            wrapped(table(ts, c), |t: TableDefinitionView| DefinitionView::Table(t))
        },
        _ => fail(c, ParserErrorKindView::InvalidDefinition, c.spans),
    }
}

/// The definitions from `c` up to the end of the input, in the order of the
/// source, behind those of `acc`. Each starts with `#define` and with an
/// empty accumulator.
pub open spec fn items_from(ts: Seq<TokenView>, c: Cursor, acc: Seq<DefinitionView>) -> Step<
    Seq<DefinitionView>,
>
    decreases ts.len() - c.pos,
    via items_from_decreases
{
    if kind_at(ts, c) is Eof {
        done(c, acc)
    } else {
        let start = expect(
            ts,
            Cursor { pos: c.pos, spans: Seq::empty() },
            TokenKindView::Define,
        );
        if start.failed() {
            start.carry()
        } else {
            let item = definition(ts, start.next);
            if item.failed() {
                item.carry()
            } else {
                items_from(ts, item.next, acc.push(item.value()))
            }
        }
    }
}

/// One import: `#include` and a path in quotes. The path is resolved against
/// `base`; one that may not be imported is the error `InvalidImportPath`,
/// which takes the accumulated spans with it.
pub open spec fn import(
    ts: Seq<TokenView>,
    c: Cursor,
    base: Option<Seq<char>>,
    files: Seq<Seq<char>>,
) -> Step<Seq<char>> {
    let word = expect(ts, c, TokenKindView::Include);
    if word.failed() {
        word.carry()
    } else {
        match kind_at(ts, word.next) {
            TokenKindView::Str(written) => {
                let path = resolved_path(base, written);
                if import_ok(path, files) {
                    done(advance(ts, word.next), path)
                } else {
                    fail_cleared(
                        advance(ts, word.next),
                        ParserErrorKindView::InvalidImportPath(path),
                    )
                }
            },
            _ => fail(
                word.next,
                ParserErrorKindView::UnexpectedType(TokenKindView::Str("x"@)),
                word.next.spans,
            ),
        }
    }
}

/// The imports from `c` up to the first `#define` or the end of the input,
/// behind those of `acc`.
pub open spec fn imports_from(
    ts: Seq<TokenView>,
    c: Cursor,
    base: Option<Seq<char>>,
    files: Seq<Seq<char>>,
    acc: Seq<Seq<char>>,
) -> Step<Seq<Seq<char>>>
    decreases ts.len() - c.pos,
{
    if kind_at(ts, c) is Eof || kind_at(ts, c) is Define {
        done(c, acc)
    } else {
        let path = import(ts, c, base, files);
        if path.failed() {
            path.carry()
        } else {
            imports_from(ts, path.next, base, files, acc.push(path.value()))
        }
    }
}

/// The resolved paths of the `#include`s that stand one behind the other
/// from index `pos` on, behind those of `acc`.
pub open spec fn import_targets_from(
    ts: Seq<TokenView>,
    pos: nat,
    base: Option<Seq<char>>,
    acc: Seq<Seq<char>>,
) -> Seq<Seq<char>>
    decreases ts.len() - pos,
{
    if pos + 1 < ts.len() && ts[pos as int].kind is Include && ts[pos + 1 as int].kind is Str {
        import_targets_from(
            ts,
            pos + 2,
            base,
            acc.push(resolved_path(base, ts[pos + 1 as int].kind->Str_0)),
        )
    } else {
        acc
    }
}

/// The paths that the imports at the head of a file stand for: those that
/// the parser looks for among the regular files.
pub open spec fn import_targets(ts: Seq<TokenView>, base: Option<Seq<char>>) -> Seq<Seq<char>> {
    import_targets_from(strip(ts), 0, base, Seq::empty())
}

/// A whole file: its imports, then its definitions.
pub open spec fn contract(
    ts: Seq<TokenView>,
    c: Cursor,
    base: Option<Seq<char>>,
    files: Seq<Seq<char>>,
) -> Step<ContractView> {
    let imports = imports_from(ts, c, base, files, Seq::empty());
    if imports.failed() {
        imports.carry()
    } else {
        let items = items_from(ts, imports.next, Seq::empty());
        if items.failed() {
            items.carry()
        } else {
            done(items.next, contract_of(imports.value(), items.value()))
        }
    }
}

/// The tokens of a sequence that are neither blank space nor comment, in
/// their order.
pub open spec fn strip(ts: Seq<TokenView>) -> Seq<TokenView> {
    ts.filter(|t: TokenView| !t.kind.is_trivia())
}

/// Whether a production that started at `c` stopped at or behind `c`, and
/// inside the tokens if it started there.
pub open spec fn moved_on<T>(ts: Seq<TokenView>, c: Cursor, step: Step<T>) -> bool {
    c.pos <= step.next.pos && (c.pos <= ts.len() ==> step.next.pos <= ts.len())
}

/// A list of arguments never moves the cursor back.
pub proof fn lemma_arguments_from_moves_on(
    ts: Seq<TokenView>,
    c: Cursor,
    select_name: bool,
    select_type: bool,
    has_indexed: bool,
    acc: Seq<ArgumentView>,
)
    ensures
        moved_on(ts, c, arguments_from(ts, c, select_name, select_type, has_indexed, acc)),
    decreases ts.len() - c.pos,
{
    if !(kind_at(ts, c) is CloseParen) {
        let arg = argument(ts, c, select_name, select_type, has_indexed);
        if !arg.failed() && progressed(ts, c, arg.next) {
            lemma_arguments_from_moves_on(
                ts,
                arg.next,
                select_name,
                select_type,
                has_indexed,
                acc.push(arg.value()),
            );
        }
    }
}

/// The arguments of a macro invocation never move the cursor back.
pub proof fn lemma_macro_args_from_moves_on(ts: Seq<TokenView>, c: Cursor, acc: Seq<MacroArgView>)
    ensures
        moved_on(ts, c, macro_args_from(ts, c, acc)),
    decreases ts.len() - c.pos,
{
    if !(kind_at(ts, c) is CloseParen) {
        let arg = macro_arg(ts, c);
        if !arg.failed() {
            lemma_macro_args_from_moves_on(ts, skip_comma(ts, arg.next), acc.push(arg.value()));
        }
    }
}

/// A plain statement moves the cursor forward.
pub proof fn lemma_plain_statement_moves_on(ts: Seq<TokenView>, c: Cursor)
    requires
        starts_plain_statement(kind_at(ts, c)),
    ensures
        moved_on(ts, c, plain_statement(ts, c)),
        !plain_statement(ts, c).failed() ==> progressed(ts, c, plain_statement(ts, c).next),
{
    if kind_at(ts, c) is Ident {
        let c1 = advance(ts, c);
        if kind_at(ts, c1) is OpenParen {
            lemma_macro_args_from_moves_on(ts, advance(ts, c1), Seq::empty());
        }
    }
}

#[via_fn]
proof fn label_statements_from_decreases(ts: Seq<TokenView>, c: Cursor, acc: Seq<StatementView>) {
    if starts_plain_statement(kind_at(ts, c)) {
        lemma_plain_statement_moves_on(ts, c);
    }
}

/// The statements under a label never move the cursor back.
pub proof fn lemma_label_statements_from_moves_on(
    ts: Seq<TokenView>,
    c: Cursor,
    acc: Seq<StatementView>,
)
    ensures
        moved_on(ts, c, label_statements_from(ts, c, acc)),
    decreases ts.len() - c.pos,
{
    let kind = kind_at(ts, c);
    if !(kind is Label || kind is CloseBrace) && starts_plain_statement(kind) {
        lemma_plain_statement_moves_on(ts, c);
        let st = plain_statement(ts, c);
        if !st.failed() {
            lemma_label_statements_from_moves_on(ts, st.next, acc.push(st.value()));
        }
    }
}

/// A statement of a macro body moves the cursor forward.
pub proof fn lemma_body_statement_moves_on(ts: Seq<TokenView>, c: Cursor)
    ensures
        kind_at(ts, c) is Label ==> moved_on(ts, c, label_statement(ts, c)) && (
        !label_statement(ts, c).failed() ==> progressed(ts, c, label_statement(ts, c).next)),
        is_known_builtin(kind_at(ts, c)) ==> forall|k: BuiltinFunctionKind|
            moved_on(ts, c, #[trigger] builtin_statement(ts, c, k)) && (!builtin_statement(
                ts,
                c,
                k,
            ).failed() ==> progressed(ts, c, builtin_statement(ts, c, k).next)),
{
    if kind_at(ts, c) is Label {
        let c1 = advance(ts, c);
        if kind_at(ts, c1) is Colon {
            lemma_label_statements_from_moves_on(ts, advance(ts, c1), Seq::empty());
        }
    }
    if is_known_builtin(kind_at(ts, c)) {
        let c1 = advance(ts, c);
        if kind_at(ts, c1) is OpenParen {
            lemma_arguments_from_moves_on(ts, advance(ts, c1), true, false, false, Seq::empty());
        }
    }
}

#[via_fn]
proof fn body_statements_from_decreases(ts: Seq<TokenView>, c: Cursor, acc: Seq<StatementView>) {
    if starts_plain_statement(kind_at(ts, c)) {
        lemma_plain_statement_moves_on(ts, c);
    }
    lemma_body_statement_moves_on(ts, c);
}

/// The statements of a macro body never move the cursor back.
pub proof fn lemma_body_statements_from_moves_on(
    ts: Seq<TokenView>,
    c: Cursor,
    acc: Seq<StatementView>,
)
    ensures
        moved_on(ts, c, body_statements_from(ts, c, acc)),
    decreases ts.len() - c.pos,
{
    let kind = kind_at(ts, c);
    if !(kind is CloseBrace) && (starts_plain_statement(kind) || kind is Label || is_known_builtin(
        kind,
    )) {
        if starts_plain_statement(kind) {
            lemma_plain_statement_moves_on(ts, c);
        }
        lemma_body_statement_moves_on(ts, c);
        let st = if starts_plain_statement(kind) {
            plain_statement(ts, c)
        } else if kind is Label {
            label_statement(ts, c)
        } else {
            builtin_statement(ts, c, builtin_kind(kind->BuiltinFunction_0)->Some_0)
        };
        if !st.failed() {
            lemma_body_statements_from_moves_on(ts, st.next, acc.push(st.value()));
        }
    }
}

/// The entries of a table never move the cursor back.
pub proof fn lemma_table_statements_from_moves_on(
    ts: Seq<TokenView>,
    c: Cursor,
    acc: Seq<StatementView>,
)
    ensures
        moved_on(ts, c, table_statements_from(ts, c, acc)),
    decreases ts.len() - c.pos,
{
    if kind_at(ts, c) is Ident {
        lemma_table_statements_from_moves_on(
            ts,
            advance(ts, c),
            acc.push(
                token_statement(
                    StatementTypeView::LabelCall(kind_at(ts, c)->Ident_0),
                    span_at(ts, c),
                ),
            ),
        );
    }
}

/// A list of arguments in parentheses never moves the cursor back.
pub proof fn lemma_arguments_moves_on(
    ts: Seq<TokenView>,
    c: Cursor,
    select_name: bool,
    select_type: bool,
    has_indexed: bool,
)
    ensures
        moved_on(ts, c, arguments(ts, c, select_name, select_type, has_indexed)),
{
    if kind_at(ts, c) is OpenParen {
        lemma_arguments_from_moves_on(
            ts,
            advance(ts, c),
            select_name,
            select_type,
            has_indexed,
            Seq::empty(),
        );
    }
}

/// No definition moves the cursor back.
pub proof fn lemma_definition_moves_on(ts: Seq<TokenView>, c: Cursor)
    ensures
        moved_on(ts, c, definition(ts, c)),
{
    reveal(definition);
    match kind_at(ts, c) {
        TokenKindView::Function => {
            let name = function_name(ts, c);
            if !name.failed() {
                lemma_arguments_moves_on(ts, name.next, true, true, false);
                let inputs = arguments(ts, name.next, true, true, false);
                if !inputs.failed() && function_type(kind_at(ts, inputs.next)) is Some {
                    let word = expect(ts, advance(ts, inputs.next), TokenKindView::Returns);
                    if !word.failed() {
                        lemma_arguments_moves_on(ts, word.next, true, true, false);
                    }
                }
            }
        },
        TokenKindView::Event => {
            let name = named(ts, c, TokenKindView::Event);
            if !name.failed() {
                lemma_arguments_moves_on(ts, name.next, true, true, true);
            }
        },
        TokenKindView::Constant => {},
        TokenKindView::Macro => {
            let word = expect(ts, c, TokenKindView::Macro);
            let name = expect(ts, word.next, TokenKindView::Ident("MACRO_NAME"@));
            if !name.failed() {
                lemma_arguments_moves_on(ts, name.next, true, false, false);
                let parameters = arguments(ts, name.next, true, false, false);
                if !parameters.failed() {
                    let assign = expect(ts, parameters.next, TokenKindView::Assign);
                    let takes_word = expect(ts, assign.next, TokenKindView::Takes);
                    if !assign.failed() && !takes_word.failed() {
                        let takes = single_arg(ts, takes_word.next);
                        let gives_word = expect(ts, takes.next, TokenKindView::Returns);
                        if !takes.failed() && !gives_word.failed() {
                            let gives = single_arg(ts, gives_word.next);
                            if !gives.failed() && kind_at(ts, gives.next) is OpenBrace {
                                lemma_body_statements_from_moves_on(
                                    ts,
                                    advance(ts, gives.next),
                                    Seq::empty(),
                                );
                            }
                        }
                    }
                }
            }
        },
        TokenKindView::JumpTable | TokenKindView::JumpTablePacked | TokenKindView::CodeTable => {
            let name = expect(ts, advance(ts, c), TokenKindView::Ident("TABLE_NAME"@));
            if !name.failed() {
                let c1 = skip(ts, name.next, TokenKindView::OpenParen);
                let c2 = skip(ts, c1, TokenKindView::CloseParen);
                let c3 = skip(ts, c2, TokenKindView::Assign);
                if kind_at(ts, c3) is OpenBrace {
                    lemma_table_statements_from_moves_on(ts, advance(ts, c3), Seq::empty());
                }
            }
        },
        _ => {},
    }
}

#[via_fn]
proof fn items_from_decreases(ts: Seq<TokenView>, c: Cursor, acc: Seq<DefinitionView>) {
    let start = expect(ts, Cursor { pos: c.pos, spans: Seq::empty() }, TokenKindView::Define);
    if !start.failed() {
        lemma_definition_moves_on(ts, start.next);
    }
}

/// Whether the accumulator `after` holds the spans of `before` and maybe more
/// behind them.
pub open spec fn extends(before: Seq<Span>, after: Seq<Span>) -> bool {
    before.is_prefix_of(after)
}

/// The arguments of a macro invocation, once read, have only added spans to
/// the accumulator.
pub proof fn lemma_macro_args_from_extends(ts: Seq<TokenView>, c: Cursor, acc: Seq<MacroArgView>)
    ensures
        !macro_args_from(ts, c, acc).failed() ==> extends(
            c.spans,
            macro_args_from(ts, c, acc).next.spans,
        ),
    decreases ts.len() - c.pos,
{
    if !(kind_at(ts, c) is CloseParen) {
        let arg = macro_arg(ts, c);
        if !arg.failed() {
            let c1 = skip_comma(ts, arg.next);
            lemma_macro_args_from_extends(ts, c1, acc.push(arg.value()));
            let end = macro_args_from(ts, c1, acc.push(arg.value()));
            if !end.failed() {
                assert(extends(c.spans, c1.spans));
                assert(extends(c1.spans, end.next.spans));
                assert(c.spans =~= end.next.spans.subrange(0, c.spans.len() as int));
            }
        }
    }
}

/// What the parser makes of a whole token sequence: it drops blank space and
/// comments, and reads a file from the first of the tokens that are left,
/// with `spans` in the accumulator.
pub open spec fn parse(
    ts: Seq<TokenView>,
    spans: Seq<Span>,
    base: Option<Seq<char>>,
    files: Seq<Seq<char>>,
) -> Step<ContractView> {
    contract(strip(ts), Cursor { pos: 0, spans }, base, files)
}

} // verus!
