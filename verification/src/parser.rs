//! The parser: a cursor over the tokens of one source file.

use vstd::prelude::*;
use vstd::string::*;
use crate::ast::{
    Argument, BuiltinFunctionCall, BuiltinFunctionKind, ConstVal, ConstantDefinition,
    ConstantDefinitionView, Contract, Definition, DefinitionView, Event, EventView, FilePath,
    FreeStoragePointer, Function, FunctionType, FunctionView, Label, MacroArg, MacroDefinition,
    MacroDefinitionView, MacroInvocation, Statement, StatementType, TableDefinition,
    TableDefinitionView, TableKind, arguments_view, definitions_view, macro_args_view, opt_text,
    paths_view, statement_view, statements_view,
};
use crate::error::{ParserError, ParserErrorKind, ParserErrorView};
use crate::grammar;
use crate::grammar::{Cursor, Step};
use crate::span::{AstSpan, Span};
use crate::token::{PrimitiveEVMType, Token, TokenKind, TokenKindView, TokenView, tokens_view};

verus! {

/// A parser over the tokens of one source file.
#[derive(Clone, Debug)]
pub struct Parser {
    /// The tokens
    pub tokens: Vec<Token>,
    /// The index of the current token
    pub cursor: usize,
    /// The current token; behind the last token, the end of the input
    pub current_token: Token,
    /// The path of the file that the tokens come from, which imports are
    /// resolved against
    pub base: Option<String>,
    /// The spans of the tokens consumed since the accumulator was emptied
    pub spans: Vec<Span>,
}

/// The value of a result of the parser: that of what was read, taken by
/// `view`, or that of the error.
pub open spec fn outcome<T, V>(r: Result<T, ParserError>, view: spec_fn(T) -> V) -> Result<
    V,
    ParserErrorView,
> {
    match r {
        Ok(v) => Ok(view(v)),
        Err(e) => Err(e@),
    }
}

/// The values of the kinds of a vector, in order.
pub open spec fn kinds_view(kinds: Seq<TokenKind>) -> Seq<TokenKindView> {
    kinds.map_values(|k: TokenKind| k@)
}

/// Whether `kind` is one of `kinds`, with what it carries.
fn kind_among(kind: &TokenKind, kinds: &Vec<TokenKind>) -> (b: bool)
    ensures
        b == kinds_view(kinds@).contains(kind@),
{
    let mut i: usize = 0;
    while i < kinds.len()
        invariant
            i <= kinds.len(),
            forall|j: int| 0 <= j < i ==> kinds_view(kinds@)[j] != kind@,
        decreases kinds.len() - i,
    {
        if kinds[i].same_token(kind) {
            assert(kinds_view(kinds@)[i as int] == kind@);
            return true;
        }
        i += 1;
    }
    false
}

/// A vector that holds one span.
fn one_span(span: Span) -> (v: Vec<Span>)
    ensures
        v@ == seq![span],
{
    let mut v: Vec<Span> = Vec::new();
    v.push(span);
    assert(v@ =~= seq![span]);
    v
}

/// The text that an identifier carries; the empty text for another token.
fn ident_string(kind: TokenKind) -> (s: String)
    ensures
        s@ == grammar::ident_text(kind@),
{
    match kind {
        TokenKind::Ident(s) => s,
        _ => String::new(),
    }
}

/// Whether a token of this kind starts a statement that may stand in a macro
/// body and under a label alike.
fn starts_plain_statement(kind: &TokenKind) -> (b: bool)
    ensures
        b == grammar::starts_plain_statement(kind@),
{
    match kind {
        TokenKind::Literal(_) => true,
        TokenKind::Opcode(_) => true,
        TokenKind::Ident(_) => true,
        TokenKind::OpenBracket => true,
        TokenKind::LeftAngle => true,
        _ => false,
    }
}

/// The built-in function of a name, if the parser knows one.
pub fn builtin_kind(name: &str) -> (k: Option<BuiltinFunctionKind>)
    ensures
        k == grammar::builtin_kind(name@),
{
    let name = String::from_str(name);
    if name == String::from_str("__tablesize") {
        Some(BuiltinFunctionKind::Tablesize)
    } else if name == String::from_str("__codesize") {
        Some(BuiltinFunctionKind::Codesize)
    } else if name == String::from_str("__tablestart") {
        Some(BuiltinFunctionKind::Tablestart)
    } else {
        None
    }
}

/// The types of the arguments of a list, in order; the empty text for one
/// without a type.
fn argument_types(args: &Vec<Argument>) -> (types: Vec<String>)
    ensures
        crate::text::texts(types@) == grammar::argument_types(arguments_view(args@)),
{
    let mut types: Vec<String> = Vec::new();
    let mut i: usize = 0;
    while i < args.len()
        invariant
            i <= args.len(),
            crate::text::texts(types@) == grammar::argument_types(
                arguments_view(args@).subrange(0, i as int),
            ),
        decreases args.len() - i,
    {
        let t = match &args[i].arg_type {
            Some(t) => t.clone(),
            None => String::new(),
        };
        let ghost before = crate::text::texts(types@);
        let ghost added = t@;
        types.push(t);
        i += 1;
        proof {
            let want = grammar::argument_types(arguments_view(args@).subrange(0, i as int));
            let prefix = grammar::argument_types(arguments_view(args@).subrange(0, i - 1));
            assert(crate::text::texts(types@) =~= before.push(added));
            assert(want.len() == i);
            assert forall|k: int| 0 <= k < i implies want[k] == before.push(added)[k] by {
                if k < i - 1 {
                    assert(want[k] == prefix[k]);
                }
            }
            assert(want =~= before.push(added));
        }
    }
    assert(arguments_view(args@).subrange(0, i as int) =~= arguments_view(args@));
    types
}

/// The tokens that are neither blank space nor comment, in their order.
fn strip_trivia(tokens: &Vec<Token>) -> (kept: Vec<Token>)
    ensures
        tokens_view(kept@) == grammar::strip(tokens_view(tokens@)),
{
    let mut kept: Vec<Token> = Vec::new();
    let mut i: usize = 0;
    proof {
        reveal(Seq::filter);
        assert(tokens_view(kept@) =~= grammar::strip(tokens_view(tokens@).subrange(0, 0)));
    }
    while i < tokens.len()
        invariant
            i <= tokens.len(),
            tokens_view(kept@) == grammar::strip(tokens_view(tokens@).subrange(0, i as int)),
        decreases tokens.len() - i,
    {
        proof {
            reveal(Seq::filter);
            assert(tokens_view(tokens@).subrange(0, i + 1).drop_last() =~= tokens_view(
                tokens@,
            ).subrange(0, i as int));
        }
        let ghost before = tokens_view(kept@);
        if !tokens[i].kind.is_trivia() {
            let t = tokens[i].clone();
            kept.push(t);
            assert(tokens_view(kept@) =~= before.push(tokens[i as int]@));
        }
        i += 1;
    }
    assert(tokens_view(tokens@).subrange(0, i as int) =~= tokens_view(tokens@));
    kept
}

impl Parser {
    /// The values of the tokens.
    pub open spec fn stream(&self) -> Seq<TokenView> {
        tokens_view(self.tokens@)
    }

    /// The place where the parser stands.
    pub open spec fn at(&self) -> Cursor {
        Cursor { pos: self.cursor as nat, spans: self.spans@ }
    }

    /// The parser is well formed: the cursor stands at a token or right behind
    /// the last one, and the current token is the one under the cursor.
    pub open spec fn wf(&self) -> bool {
        &&& self.cursor <= self.tokens@.len()
        &&& self.current_token@ == grammar::token_at(self.stream(), self.cursor as nat)
    }

    /// The parser has done `step` since it was `before`: it is well formed,
    /// has the same tokens and the same base, and stands where the step
    /// stopped.
    pub open spec fn follows<T>(&self, before: &Parser, step: Step<T>) -> bool {
        &&& self.wf()
        &&& self.tokens == before.tokens
        &&& self.base == before.base
        &&& self.at() == step.next
    }

    /// A parser at the first of `tokens`, with an empty accumulator.
    pub fn new(tokens: Vec<Token>, base: Option<String>) -> (p: Parser)
        requires
            tokens@.len() > 0,
        ensures
            p.wf(),
            p.tokens == tokens,
            p.base == base,
            p.cursor == 0,
            p.spans@ == Seq::<Span>::empty(),
    {
        let initial_token = tokens[0].clone();
        Parser { tokens, cursor: 0, current_token: initial_token, base, spans: Vec::new() }
    }

    /// The token at index `i`; behind the last token, the end of the input.
    fn token_or_eof(&self, i: usize) -> (t: Token)
        ensures
            t@ == grammar::token_at(self.stream(), i as nat),
    {
        if i < self.tokens.len() {
            self.tokens[i].clone()
        } else {
            Token { kind: TokenKind::Eof, span: Span::eof() }
        }
    }

    /// Moves the cursor back to the first token. The accumulator stays as it
    /// is.
    pub fn reset(&mut self)
        ensures
            final(self).wf(),
            final(self).tokens == old(self).tokens,
            final(self).base == old(self).base,
            final(self).spans == old(self).spans,
            final(self).cursor == 0,
    {
        self.current_token = self.token_or_eof(0);
        self.cursor = 0;
    }

    /// Whether the current token is of the same variant as `kind`.
    pub fn check(&mut self, kind: TokenKind) -> (b: bool)
        ensures
            *final(self) == *old(self),
            b == old(self).current_token@.kind.same_kind(kind@),
    {
        self.current_token.kind.same_kind(&kind)
    }

    /// Consumes the current token: its span joins the accumulator and the
    /// cursor moves to the next token. Behind the last token the cursor
    /// stays, and the current token is the end of the input.
    pub fn consume(&mut self)
        requires
            old(self).wf(),
        ensures
            final(self).wf(),
            final(self).tokens == old(self).tokens,
            final(self).base == old(self).base,
            final(self).at() == grammar::advance(old(self).stream(), old(self).at()),
    {
        self.spans.push(self.current_token.span);
        if self.cursor < self.tokens.len() {
            self.cursor += 1;
        }
        self.current_token = self.token_or_eof(self.cursor);
    }

    /// Consumes the current token where it is of the same variant as `kind`,
    /// and gives its own kind; else fails with `UnexpectedType(kind)` and the
    /// accumulated spans.
    pub fn match_kind(&mut self, kind: TokenKind) -> (r: Result<TokenKind, ParserError>)
        requires
            old(self).wf(),
        ensures
            final(self).follows(
                old(self),
                grammar::expect(old(self).stream(), old(self).at(), kind@),
            ),
            outcome(r, |k: TokenKind| k@) == grammar::expect(
                old(self).stream(),
                old(self).at(),
                kind@,
            ).out,
    {
        if self.current_token.kind.same_kind(&kind) {
            let curr_kind = self.current_token.kind.clone();
            self.consume();
            Ok(curr_kind)
        } else {
            Err(ParserError::new(ParserErrorKind::UnexpectedType(kind), self.spans.clone()))
        }
    }

    /// Steps over each next token whose kind is one of `kinds`, with what it
    /// carries. The accumulator stays as it is.
    pub fn consume_all(&mut self, kinds: Vec<TokenKind>)
        requires
            old(self).wf(),
        ensures
            final(self).wf(),
            final(self).tokens == old(self).tokens,
            final(self).base == old(self).base,
            final(self).spans == old(self).spans,
            final(self).cursor == grammar::skip_all(
                old(self).stream(),
                old(self).cursor as nat,
                kinds_view(kinds@),
            ),
    {
        let ghost ts = self.stream();
        loop
            invariant
                self.wf(),
                self.tokens == old(self).tokens,
                self.base == old(self).base,
                self.spans == old(self).spans,
                ts == self.stream(),
                grammar::skip_all(ts, old(self).cursor as nat, kinds_view(kinds@))
                    == grammar::skip_all(ts, self.cursor as nat, kinds_view(kinds@)),
            decreases self.tokens@.len() - self.cursor,
        {
            let token = match self.peek() {
                Some(token) => token,
                None => {
                    return ;
                },
            };
            assert(self.cursor + 1 < self.tokens.len());
            if !kind_among(&token.kind, &kinds) {
                return ;
            }
            self.current_token = token;
            self.cursor += 1;
        }
    }

    /// The token behind the current one, if there is one.
    pub fn peek(&mut self) -> (r: Option<Token>)
        ensures
            *final(self) == *old(self),
            match r {
                Some(t) => old(self).cursor + 1 < old(self).tokens@.len() && t@ == old(
                    self,
                ).stream()[old(self).cursor + 1],
                None => old(self).cursor + 1 >= old(self).tokens@.len(),
            },
    {
        if self.cursor < self.tokens.len() && self.cursor + 1 < self.tokens.len() {
            Some(self.tokens[self.cursor + 1].clone())
        } else {
            None
        }
    }

    /// The token in front of the current one, if there is one.
    pub fn peek_behind(&self) -> (r: Option<Token>)
        ensures
            match r {
                Some(t) => 1 <= self.cursor <= self.tokens@.len() && t@ == self.stream()[
                    self.cursor - 1],
                None => self.cursor == 0 || self.cursor > self.tokens@.len(),
            },
    {
        if self.cursor == 0 || self.cursor > self.tokens.len() {
            None
        } else {
            Some(self.tokens[self.cursor - 1].clone())
        }
    }

    /// Takes the current token as a type whose element type is `prim`:
    /// consumes it and gives its kind where `prim` is valid. A `uint` or an
    /// `int` is valid with a width from 8 to 256 that is a multiple of 8, a
    /// `bytes` with a length from 1 to 32, every other type always.
    pub fn parse_primitive_type(&mut self, prim: PrimitiveEVMType) -> (r: Result<
        TokenKind,
        ParserError,
    >)
        requires
            old(self).wf(),
        ensures
            final(self).follows(
                old(self),
                grammar::primitive_type(old(self).stream(), old(self).at(), prim),
            ),
            outcome(r, |k: TokenKind| k@) == grammar::primitive_type(
                old(self).stream(),
                old(self).at(),
                prim,
            ).out,
            r is Ok <==> grammar::primitive_error(prim) is None,
            r is Ok ==> match prim {
                PrimitiveEVMType::Uint(n) => 8 <= n <= 256 && n % 8 == 0,
                PrimitiveEVMType::Int(n) => 8 <= n <= 256 && n % 8 == 0,
                PrimitiveEVMType::Bytes(n) => 1 <= n <= 32,
                _ => true,
            },
    {
        let span = self.current_token.span;
        match prim {
            PrimitiveEVMType::Uint(size) => {
                if !(8 <= size && size <= 256) || size % 8 != 0 {
                    return Err(
                        ParserError::new(ParserErrorKind::InvalidUint256(size), one_span(span)),
                    );
                }
            },
            PrimitiveEVMType::Int(size) => {
                if !(8 <= size && size <= 256) || size % 8 != 0 {
                    return Err(ParserError::new(ParserErrorKind::InvalidInt(size), one_span(span)));
                }
            },
            PrimitiveEVMType::Bytes(size) => {
                if !(1 <= size && size <= 32) {
                    return Err(
                        ParserError::new(ParserErrorKind::InvalidBytes(size), one_span(span)),
                    );
                }
            },
            _ => {},
        }
        let kind = self.current_token.kind.clone();
        self.consume();
        Ok(kind)
    }

    /// Parses the type of an argument: a primitive type, or an array type
    /// whose element type is valid. Gives the token of the type.
    pub fn parse_arg_type(&mut self) -> (r: Result<TokenKind, ParserError>)
        requires
            old(self).wf(),
        ensures
            final(self).follows(old(self), grammar::arg_type(old(self).stream(), old(self).at())),
            outcome(r, |k: TokenKind| k@) == grammar::arg_type(
                old(self).stream(),
                old(self).at(),
            ).out,
    {
        let prim = match &self.current_token.kind {
            TokenKind::PrimitiveType(p) => *p,
            TokenKind::ArrayType(p, _) => *p,
            _ => {
                return Err(
                    ParserError::new(
                        ParserErrorKind::InvalidArgs(self.current_token.kind.clone()),
                        one_span(self.current_token.span),
                    ),
                );
            },
        };
        self.parse_primitive_type(prim)
    }

    /// Parses one argument of a list: its type and the word `indexed`, its
    /// name, and a comma, each as far as the list has it and it is there.
    fn parse_argument(&mut self, select_name: bool, select_type: bool, has_indexed: bool) -> (r:
        Result<Argument, ParserError>)
        requires
            old(self).wf(),
        ensures
            final(self).follows(
                old(self),
                grammar::argument(
                    old(self).stream(),
                    old(self).at(),
                    select_name,
                    select_type,
                    has_indexed,
                ),
            ),
            outcome(r, |a: Argument| a@) == grammar::argument(
                old(self).stream(),
                old(self).at(),
                select_name,
                select_type,
                has_indexed,
            ).out,
    {
        let mut arg_type: Option<String> = None;
        let mut name: Option<String> = None;
        let mut indexed = false;
        let mut arg_spans: Vec<Span> = Vec::new();
        if select_type {
            arg_spans.push(self.current_token.span);
            let kind = self.parse_arg_type()?;
            arg_type = Some(crate::text::type_string(&kind));
            if has_indexed && self.check(TokenKind::Indexed) {
                indexed = true;
                arg_spans.push(self.current_token.span);
                self.consume();
            }
        }
        if select_name {
            if let TokenKind::Ident(text) = &self.current_token.kind {
                let text = text.clone();
                arg_spans.push(self.current_token.span);
                self.consume();
                name = Some(text);
            }
        }
        if self.check(TokenKind::Comma) {
            self.consume();
        }
        let arg = Argument { arg_type, name, indexed, span: AstSpan(arg_spans) };
        proof {
            let want = grammar::argument(
                old(self).stream(),
                old(self).at(),
                select_name,
                select_type,
                has_indexed,
            );
            assert(arg@.span =~= want.value().span);
        }
        Ok(arg)
    }

    /// Parses a list of arguments in parentheses. With `select_type` each
    /// argument starts with a type, with `has_indexed` the word `indexed` may
    /// follow the type, with `select_name` a name may follow. Commas between
    /// the arguments are consumed where they are there. A token that is none
    /// of these, in place of an argument, is the error `InvalidArgs`. No
    /// argument is marked `indexed` unless `has_indexed` is set.
    pub fn parse_args(&mut self, select_name: bool, select_type: bool, has_indexed: bool) -> (r:
        Result<Vec<Argument>, ParserError>)
        requires
            old(self).wf(),
        ensures
            final(self).follows(
                old(self),
                grammar::arguments(
                    old(self).stream(),
                    old(self).at(),
                    select_name,
                    select_type,
                    has_indexed,
                ),
            ),
            outcome(r, |a: Vec<Argument>| arguments_view(a@)) == grammar::arguments(
                old(self).stream(),
                old(self).at(),
                select_name,
                select_type,
                has_indexed,
            ).out,
            !has_indexed ==> match r {
                Ok(args) => forall|i: int| 0 <= i < args@.len() ==> !(#[trigger] args@[i]).indexed,
                Err(_) => true,
            },
    {
        let ghost ts = self.stream();
        let ghost before = *self;
        let mut args: Vec<Argument> = Vec::new();
        self.match_kind(TokenKind::OpenParen)?;
        assert(arguments_view(args@) =~= Seq::empty());
        loop
            invariant
                self.wf(),
                before == *old(self),
                self.tokens == before.tokens,
                self.base == before.base,
                ts == before.stream(),
                grammar::arguments(
                    ts,
                    before.at(),
                    select_name,
                    select_type,
                    has_indexed,
                ) == grammar::arguments_from(
                    ts,
                    self.at(),
                    select_name,
                    select_type,
                    has_indexed,
                    arguments_view(args@),
                ),
                !has_indexed ==> forall|i: int|
                    0 <= i < args@.len() ==> !(#[trigger] args@[i]).indexed,
            decreases self.tokens@.len() - self.cursor,
        {
            if self.check(TokenKind::CloseParen) {
                self.consume();
                return Ok(args);
            }
            let mark = self.cursor;
            let arg = self.parse_argument(select_name, select_type, has_indexed)?;
            if self.cursor <= mark {
                return Err(
                    ParserError::new(
                        ParserErrorKind::InvalidArgs(self.current_token.kind.clone()),
                        one_span(self.current_token.span),
                    ),
                );
            }
            proof {
                assert(arguments_view(args@.push(arg)) =~= arguments_view(args@).push(arg@));
            }
            args.push(arg);
        }
    }

    /// Parses one number in parentheses.
    pub fn parse_single_arg(&mut self) -> (r: Result<usize, ParserError>)
        requires
            old(self).wf(),
        ensures
            final(self).follows(old(self), grammar::single_arg(old(self).stream(), old(self).at())),
            outcome(r, |n: usize| n) == grammar::single_arg(
                old(self).stream(),
                old(self).at(),
            ).out,
    {
        self.match_kind(TokenKind::OpenParen)?;
        let value = match &self.current_token.kind {
            TokenKind::Num(value) => *value,
            _ => {
                return Err(
                    ParserError::new(
                        ParserErrorKind::InvalidSingleArg(self.current_token.kind.clone()),
                        one_span(self.current_token.span),
                    ),
                );
            },
        };
        self.consume();
        self.match_kind(TokenKind::CloseParen)?;
        Ok(value)
    }

    /// Hands out the accumulated spans and empties the accumulator.
    fn take_spans(&mut self) -> (v: Vec<Span>)
        ensures
            v@ == old(self).spans@,
            final(self).spans@ == Seq::<Span>::empty(),
            final(self).tokens == old(self).tokens,
            final(self).base == old(self).base,
            final(self).cursor == old(self).cursor,
            final(self).current_token == old(self).current_token,
    {
        let v = self.spans.clone();
        assert(v@ =~= self.spans@);
        self.spans = Vec::new();
        v
    }

    /// Parses one argument of a macro invocation.
    fn parse_macro_arg(&mut self) -> (r: Result<MacroArg, ParserError>)
        requires
            old(self).wf(),
        ensures
            final(self).follows(old(self), grammar::macro_arg(old(self).stream(), old(self).at())),
            outcome(r, |a: MacroArg| a@) == grammar::macro_arg(
                old(self).stream(),
                old(self).at(),
            ).out,
            r is Ok ==> old(self).cursor < final(self).cursor,
    {
        match &self.current_token.kind {
            TokenKind::Literal(lit) => {
                let arg = MacroArg::Literal(*lit);
                self.consume();
                Ok(arg)
            },
            TokenKind::Ident(ident) => {
                let arg = MacroArg::Ident(ident.clone());
                self.consume();
                Ok(arg)
            },
            TokenKind::LeftAngle => {
                self.consume();
                let kind = self.match_kind(TokenKind::Ident(String::from_str("ARG_CALL")))?;
                let name = ident_string(kind);
                self.match_kind(TokenKind::RightAngle)?;
                Ok(MacroArg::ArgCall(name))
            },
            _ => {
                let kind = self.current_token.kind.clone();
                let spans = self.take_spans();
                Err(ParserError::new(ParserErrorKind::InvalidMacroArgs(kind), spans))
            },
        }
    }

    /// Parses the arguments of a macro invocation.
    pub fn parse_macro_call(&mut self) -> (r: Result<Vec<MacroArg>, ParserError>)
        requires
            old(self).wf(),
        ensures
            final(self).follows(old(self), grammar::macro_call(old(self).stream(), old(self).at())),
            outcome(r, |a: Vec<MacroArg>| macro_args_view(a@)) == grammar::macro_call(
                old(self).stream(),
                old(self).at(),
            ).out,
    {
        self.parse_macro_call_args()
    }

    /// Parses the arguments of a macro invocation: in parentheses, each a
    /// literal, a name, or a name in angle brackets, with commas between
    /// them where they are there.
    pub fn parse_macro_call_args(&mut self) -> (r: Result<Vec<MacroArg>, ParserError>)
        requires
            old(self).wf(),
        ensures
            final(self).follows(old(self), grammar::macro_call(old(self).stream(), old(self).at())),
            outcome(r, |a: Vec<MacroArg>| macro_args_view(a@)) == grammar::macro_call(
                old(self).stream(),
                old(self).at(),
            ).out,
    {
        let ghost ts = self.stream();
        let mut args: Vec<MacroArg> = Vec::new();
        self.match_kind(TokenKind::OpenParen)?;
        assert(macro_args_view(args@) =~= Seq::empty());
        loop
            invariant
                self.wf(),
                self.tokens == old(self).tokens,
                self.base == old(self).base,
                ts == old(self).stream(),
                grammar::macro_call(ts, old(self).at()) == grammar::macro_args_from(
                    ts,
                    self.at(),
                    macro_args_view(args@),
                ),
            decreases self.tokens@.len() - self.cursor,
        {
            if self.check(TokenKind::CloseParen) {
                self.consume();
                return Ok(args);
            }
            let arg = self.parse_macro_arg()?;
            if self.check(TokenKind::Comma) {
                self.consume();
            }
            proof {
                assert(macro_args_view(args@.push(arg)) =~= macro_args_view(args@).push(arg@));
            }
            args.push(arg);
        }
    }

    /// Parses the name of a constant in square brackets, and gives the name
    /// and its span.
    pub fn parse_constant_push(&mut self) -> (r: Result<(String, Span), ParserError>)
        requires
            old(self).wf(),
        ensures
            final(self).follows(
                old(self),
                grammar::constant_push(old(self).stream(), old(self).at()),
            ),
            outcome(r, |p: (String, Span)| (p.0@, p.1)) == grammar::constant_push(
                old(self).stream(),
                old(self).at(),
            ).out,
    {
        self.match_kind(TokenKind::OpenBracket)?;
        let name = match &self.current_token.kind {
            TokenKind::Ident(name) => name.clone(),
            _ => {
                let kind = self.current_token.kind.clone();
                let spans = self.take_spans();
                return Err(ParserError::new(ParserErrorKind::InvalidConstant(kind), spans));
            },
        };
        let span = self.current_token.span;
        self.consume();
        self.match_kind(TokenKind::CloseBracket)?;
        Ok((name, span))
    }

    /// Parses the name of a macro parameter in angle brackets, and gives the
    /// name and its span.
    pub fn parse_arg_call(&mut self) -> (r: Result<(String, Span), ParserError>)
        requires
            old(self).wf(),
        ensures
            final(self).follows(old(self), grammar::arg_call(old(self).stream(), old(self).at())),
            outcome(r, |p: (String, Span)| (p.0@, p.1)) == grammar::arg_call(
                old(self).stream(),
                old(self).at(),
            ).out,
    {
        self.match_kind(TokenKind::LeftAngle)?;
        let name = match &self.current_token.kind {
            TokenKind::Ident(name) => name.clone(),
            _ => {
                let kind = self.current_token.kind.clone();
                let spans = self.take_spans();
                return Err(ParserError::new(ParserErrorKind::InvalidArgCallIdent(kind), spans));
            },
        };
        let span = self.current_token.span;
        self.consume();
        self.match_kind(TokenKind::RightAngle)?;
        Ok((name, span))
    }

    /// Parses the statement that the current token starts, where that is a
    /// literal, an instruction, a name, `[` or `<`.
    fn parse_plain_statement(&mut self) -> (r: Result<Statement, ParserError>)
        requires
            old(self).wf(),
            grammar::starts_plain_statement(old(self).current_token@.kind),
        ensures
            final(self).follows(
                old(self),
                grammar::plain_statement(old(self).stream(), old(self).at()),
            ),
            outcome(r, |s: Statement| s@) == grammar::plain_statement(
                old(self).stream(),
                old(self).at(),
            ).out,
            r is Ok ==> old(self).cursor < final(self).cursor,
    {
        let ghost ts = self.stream();
        let ghost c = self.at();
        proof {
            grammar::lemma_plain_statement_moves_on(ts, c);
        }
        let span = self.current_token.span;
        match &self.current_token.kind {
            TokenKind::Literal(val) => {
                let ty = StatementType::Literal(*val);
                self.consume();
                Ok(Statement { ty, span: AstSpan(one_span(span)) })
            },
            TokenKind::Opcode(o) => {
                let ty = StatementType::Opcode(*o);
                self.consume();
                Ok(Statement { ty, span: AstSpan(one_span(span)) })
            },
            TokenKind::Ident(ident) => {
                let name = ident.clone();
                self.consume();
                if self.check(TokenKind::OpenParen) {
                    let mark = self.spans.len();
                    let ghost c1 = self.at();
                    let args = self.parse_macro_call()?;
                    proof {
                        grammar::lemma_macro_args_from_extends(
                            ts,
                            grammar::advance(ts, c1),
                            Seq::empty(),
                        );
                    }
                    let mut curr_spans = one_span(span);
                    let mut i: usize = mark;
                    while i < self.spans.len()
                        invariant
                            mark <= i <= self.spans.len(),
                            curr_spans@ == seq![span] + self.spans@.subrange(
                                mark as int,
                                i as int,
                            ),
                        decreases self.spans.len() - i,
                    {
                        curr_spans.push(self.spans[i]);
                        i += 1;
                        assert(curr_spans@ =~= seq![span] + self.spans@.subrange(
                            mark as int,
                            i as int,
                        ));
                    }
                    let node_spans = curr_spans.clone();
                    assert(node_spans@ =~= curr_spans@);
                    Ok(
                        Statement {
                            ty: StatementType::MacroInvocation(
                                MacroInvocation {
                                    macro_name: name,
                                    args,
                                    span: AstSpan(node_spans),
                                },
                            ),
                            span: AstSpan(curr_spans),
                        },
                    )
                } else {
                    Ok(
                        Statement {
                            ty: StatementType::LabelCall(name),
                            span: AstSpan(one_span(span)),
                        },
                    )
                }
            },
            TokenKind::OpenBracket => {
                let (constant, const_span) = self.parse_constant_push()?;
                Ok(
                    Statement {
                        ty: StatementType::Constant(constant),
                        span: AstSpan(one_span(const_span)),
                    },
                )
            },
            _ => {
                let (arg_call, arg_span) = self.parse_arg_call()?;
                Ok(
                    Statement {
                        ty: StatementType::ArgCall(arg_call),
                        span: AstSpan(one_span(arg_span)),
                    },
                )
            },
        }
    }

    /// Parses the body of a label: a colon, then the statements up to the
    /// next label or the closing brace, neither of which is consumed. A
    /// statement is a literal, an instruction, the call of a label, the
    /// invocation of a macro, a constant in square brackets or a parameter in
    /// angle brackets.
    pub fn parse_label(&mut self) -> (r: Result<Vec<Statement>, ParserError>)
        requires
            old(self).wf(),
        ensures
            final(self).follows(old(self), grammar::label_body(old(self).stream(), old(self).at())),
            outcome(r, |b: Vec<Statement>| statements_view(b@)) == grammar::label_body(
                old(self).stream(),
                old(self).at(),
            ).out,
    {
        let ghost ts = self.stream();
        let mut statements: Vec<Statement> = Vec::new();
        self.match_kind(TokenKind::Colon)?;
        assert(statements_view(statements@) =~= Seq::empty());
        loop
            invariant
                self.wf(),
                self.tokens == old(self).tokens,
                self.base == old(self).base,
                ts == old(self).stream(),
                grammar::label_body(ts, old(self).at()) == grammar::label_statements_from(
                    ts,
                    self.at(),
                    statements_view(statements@),
                ),
            decreases self.tokens@.len() - self.cursor,
        {
            if self.check(TokenKind::Label(String::new())) || self.check(TokenKind::CloseBrace) {
                return Ok(statements);
            }
            if !starts_plain_statement(&self.current_token.kind) {
                return Err(
                    ParserError::new(
                        ParserErrorKind::InvalidTokenInLabelDefinition(
                            self.current_token.kind.clone(),
                        ),
                        one_span(self.current_token.span),
                    ),
                );
            }
            let st = self.parse_plain_statement()?;
            proof {
                assert(statements_view(statements@.push(st)) =~= statements_view(
                    statements@,
                ).push(st@));
            }
            statements.push(st);
        }
    }

    /// Parses a label definition: the label, which is the current token, and
    /// the statements under it.
    fn parse_label_statement(&mut self, name: String) -> (r: Result<Statement, ParserError>)
        requires
            old(self).wf(),
            old(self).current_token@.kind == TokenKindView::Label(name@),
        ensures
            final(self).follows(
                old(self),
                grammar::label_statement(old(self).stream(), old(self).at()),
            ),
            outcome(r, |s: Statement| s@) == grammar::label_statement(
                old(self).stream(),
                old(self).at(),
            ).out,
            r is Ok ==> old(self).cursor < final(self).cursor,
    {
        proof {
            grammar::lemma_body_statement_moves_on(self.stream(), self.at());
        }
        let mut curr_spans = one_span(self.current_token.span);
        let ghost head = curr_spans@;
        self.consume();
        let inner = self.parse_label()?;
        let mut i: usize = 0;
        while i < inner.len()
            invariant
                i <= inner.len(),
                curr_spans@ == head + grammar::statement_spans(
                    statements_view(inner@).subrange(0, i as int),
                ),
            decreases inner.len() - i,
        {
            proof {
                assert(statements_view(inner@).subrange(0, i + 1).drop_last() =~= statements_view(
                    inner@,
                ).subrange(0, i as int));
                assert(statements_view(inner@)[i as int] == statement_view(inner[i as int]));
            }
            let ghost so_far = curr_spans@;
            let item = &inner[i].span.0;
            let mut j: usize = 0;
            while j < item.len()
                invariant
                    j <= item.len(),
                    curr_spans@ == so_far + item@.subrange(0, j as int),
                decreases item.len() - j,
            {
                curr_spans.push(item[j]);
                j += 1;
                assert(curr_spans@ =~= so_far + item@.subrange(0, j as int));
            }
            assert(item@.subrange(0, j as int) =~= item@);
            i += 1;
            assert(curr_spans@ =~= head + grammar::statement_spans(
                statements_view(inner@).subrange(0, i as int),
            ));
        }
        assert(statements_view(inner@).subrange(0, i as int) =~= statements_view(inner@));
        let node_spans = curr_spans.clone();
        assert(node_spans@ =~= curr_spans@);
        let st = Statement {
            ty: StatementType::Label(Label { name, inner, span: AstSpan(node_spans) }),
            span: AstSpan(curr_spans),
        };
        proof {
            crate::ast::lemma_label_statement_view(st);
        }
        Ok(st)
    }

    /// Parses the call of the built-in function `kind`, whose name is the
    /// current token.
    fn parse_builtin_statement(&mut self, kind: BuiltinFunctionKind) -> (r: Result<
        Statement,
        ParserError,
    >)
        requires
            old(self).wf(),
            grammar::is_known_builtin(old(self).current_token@.kind),
        ensures
            final(self).follows(
                old(self),
                grammar::builtin_statement(old(self).stream(), old(self).at(), kind),
            ),
            outcome(r, |s: Statement| s@) == grammar::builtin_statement(
                old(self).stream(),
                old(self).at(),
                kind,
            ).out,
            r is Ok ==> old(self).cursor < final(self).cursor,
    {
        proof {
            grammar::lemma_body_statement_moves_on(self.stream(), self.at());
        }
        let mut curr_spans = one_span(self.current_token.span);
        let ghost head = curr_spans@;
        self.consume();
        let args = self.parse_args(true, false, false)?;
        let mut i: usize = 0;
        while i < args.len()
            invariant
                i <= args.len(),
                curr_spans@ == head + grammar::argument_spans(
                    arguments_view(args@).subrange(0, i as int),
                ),
            decreases args.len() - i,
        {
            proof {
                assert(arguments_view(args@).subrange(0, i + 1).drop_last() =~= arguments_view(
                    args@,
                ).subrange(0, i as int));
            }
            let ghost so_far = curr_spans@;
            let item = &args[i].span.0;
            let mut j: usize = 0;
            while j < item.len()
                invariant
                    j <= item.len(),
                    curr_spans@ == so_far + item@.subrange(0, j as int),
                decreases item.len() - j,
            {
                curr_spans.push(item[j]);
                j += 1;
                assert(curr_spans@ =~= so_far + item@.subrange(0, j as int));
            }
            assert(item@.subrange(0, j as int) =~= item@);
            i += 1;
            assert(curr_spans@ =~= head + grammar::argument_spans(
                arguments_view(args@).subrange(0, i as int),
            ));
        }
        assert(arguments_view(args@).subrange(0, i as int) =~= arguments_view(args@));
        let node_spans = curr_spans.clone();
        assert(node_spans@ =~= curr_spans@);
        Ok(
            Statement {
                ty: StatementType::BuiltinFunctionCall(
                    BuiltinFunctionCall { kind, args, span: AstSpan(node_spans) },
                ),
                span: AstSpan(curr_spans),
            },
        )
    }

    /// Parses the body of a macro: in braces, statements up to the closing
    /// brace. A statement is one that may stand under a label, a label with
    /// the statements under it, or the call of a built-in function.
    pub fn parse_body(&mut self) -> (r: Result<Vec<Statement>, ParserError>)
        requires
            old(self).wf(),
        ensures
            final(self).follows(old(self), grammar::body(old(self).stream(), old(self).at())),
            outcome(r, |b: Vec<Statement>| statements_view(b@)) == grammar::body(
                old(self).stream(),
                old(self).at(),
            ).out,
    {
        let ghost ts = self.stream();
        let mut statements: Vec<Statement> = Vec::new();
        self.match_kind(TokenKind::OpenBrace)?;
        assert(statements_view(statements@) =~= Seq::empty());
        loop
            invariant
                self.wf(),
                self.tokens == old(self).tokens,
                self.base == old(self).base,
                ts == old(self).stream(),
                grammar::body(ts, old(self).at()) == grammar::body_statements_from(
                    ts,
                    self.at(),
                    statements_view(statements@),
                ),
            decreases self.tokens@.len() - self.cursor,
        {
            if self.check(TokenKind::CloseBrace) {
                self.consume();
                return Ok(statements);
            }
            let st = if starts_plain_statement(&self.current_token.kind) {
                self.parse_plain_statement()?
            } else {
                match &self.current_token.kind {
                    TokenKind::Label(l) => {
                        let name = l.clone();
                        self.parse_label_statement(name)?
                    },
                    TokenKind::BuiltinFunction(f) => {
                        match builtin_kind(f.as_str()) {
                            Some(kind) => self.parse_builtin_statement(kind)?,
                            None => {
                                return Err(
                                    ParserError::new(
                                        ParserErrorKind::InvalidTokenInMacroBody(
                                            self.current_token.kind.clone(),
                                        ),
                                        one_span(self.current_token.span),
                                    ),
                                );
                            },
                        }
                    },
                    _ => {
                        return Err(
                            ParserError::new(
                                ParserErrorKind::InvalidTokenInMacroBody(
                                    self.current_token.kind.clone(),
                                ),
                                one_span(self.current_token.span),
                            ),
                        );
                    },
                }
            };
            proof {
                assert(statements_view(statements@.push(st)) =~= statements_view(
                    statements@,
                ).push(st@));
            }
            statements.push(st);
        }
    }

    /// Parses the body of a table: in braces, names up to the closing brace,
    /// each the call of a label.
    pub fn parse_table_body(&mut self) -> (r: Result<Vec<Statement>, ParserError>)
        requires
            old(self).wf(),
        ensures
            final(self).follows(old(self), grammar::table_body(old(self).stream(), old(self).at())),
            outcome(r, |b: Vec<Statement>| statements_view(b@)) == grammar::table_body(
                old(self).stream(),
                old(self).at(),
            ).out,
    {
        let ghost ts = self.stream();
        let mut statements: Vec<Statement> = Vec::new();
        self.match_kind(TokenKind::OpenBrace)?;
        assert(statements_view(statements@) =~= Seq::empty());
        loop
            invariant
                self.wf(),
                self.tokens == old(self).tokens,
                self.base == old(self).base,
                ts == old(self).stream(),
                grammar::table_body(ts, old(self).at()) == grammar::table_statements_from(
                    ts,
                    self.at(),
                    statements_view(statements@),
                ),
            decreases self.tokens@.len() - self.cursor,
        {
            let span = self.current_token.span;
            let st = match &self.current_token.kind {
                TokenKind::CloseBrace => {
                    self.consume();
                    return Ok(statements);
                },
                TokenKind::Ident(ident) => Statement {
                    ty: StatementType::LabelCall(ident.clone()),
                    span: AstSpan(one_span(span)),
                },
                _ => {
                    return Err(
                        ParserError::new(
                            ParserErrorKind::InvalidTableBodyToken(self.current_token.kind.clone()),
                            one_span(span),
                        ),
                    );
                },
            };
            self.consume();
            proof {
                assert(statements_view(statements@.push(st)) =~= statements_view(
                    statements@,
                ).push(st@));
            }
            statements.push(st);
        }
    }

    /// Consumes the current token where it is of the same variant as `kind`.
    fn skip_kind(&mut self, kind: TokenKind)
        requires
            old(self).wf(),
        ensures
            final(self).wf(),
            final(self).tokens == old(self).tokens,
            final(self).base == old(self).base,
            final(self).at() == grammar::skip(old(self).stream(), old(self).at(), kind@),
    {
        if self.check(kind) {
            self.consume();
        }
    }

    /// Parses the definition of a table: `jumptable`, `jumptable__packed` or
    /// `table`, the name, then `(`, `)` and `=`, each of which may be left
    /// out, and the body. The size of the table is 32 bytes for each entry of
    /// a jump table, 2 bytes for each entry of a packed one, and for a table
    /// of code half the number of bytes that the names of its entries have;
    /// the word that holds it is 32 bytes long and spells the decimal digits
    /// of the size as hex digits.
    pub fn parse_table(&mut self) -> (r: Result<TableDefinition, ParserError>)
        requires
            old(self).wf(),
        ensures
            final(self).follows(old(self), grammar::table(old(self).stream(), old(self).at())),
            outcome(r, |t: TableDefinition| t@) == grammar::table(
                old(self).stream(),
                old(self).at(),
            ).out,
            match r {
                Ok(t) => t.size@.len() == 32 && t.size@ == crate::sizes::size_word_of(
                    crate::sizes::table_size_of(t.kind, statements_view(t.statements@)),
                ),
                Err(_) => true,
            },
    {
        let kind = match &self.current_token.kind {
            TokenKind::JumpTable => TableKind::JumpTable,
            TokenKind::JumpTablePacked => TableKind::JumpTablePacked,
            TokenKind::CodeTable => TableKind::CodeTable,
            _ => {
                return Err(
                    ParserError::new(ParserErrorKind::InvalidDefinition, self.spans.clone()),
                );
            },
        };
        self.consume();
        let name_kind = self.match_kind(TokenKind::Ident(String::from_str("TABLE_NAME")))?;
        let table_name = ident_string(name_kind);
        self.skip_kind(TokenKind::OpenParen);
        self.skip_kind(TokenKind::CloseParen);
        self.skip_kind(TokenKind::Assign);
        let table_statements = self.parse_table_body()?;
        let size = crate::sizes::table_size(kind, &table_statements);
        let word = crate::sizes::size_word(size);
        Ok(
            TableDefinition::new(
                table_name,
                kind,
                table_statements,
                word,
                AstSpan(self.spans.clone()),
            ),
        )
    }

    /// Parses the definition of a macro: `macro`, its name, the names of its
    /// parameters in parentheses, `=`, `takes` with a number in parentheses,
    /// `returns` with a number in parentheses, and the body.
    pub fn parse_macro(&mut self) -> (r: Result<MacroDefinition, ParserError>)
        requires
            old(self).wf(),
        ensures
            final(self).follows(
                old(self),
                grammar::macro_definition(old(self).stream(), old(self).at()),
            ),
            outcome(r, |m: MacroDefinition| m@) == grammar::macro_definition(
                old(self).stream(),
                old(self).at(),
            ).out,
    {
        self.match_kind(TokenKind::Macro)?;
        let name_kind = self.match_kind(TokenKind::Ident(String::from_str("MACRO_NAME")))?;
        let macro_name = ident_string(name_kind);
        let macro_arguments = self.parse_args(true, false, false)?;
        self.match_kind(TokenKind::Assign)?;
        self.match_kind(TokenKind::Takes)?;
        let macro_takes = self.parse_single_arg()?;
        self.match_kind(TokenKind::Returns)?;
        let macro_gives = self.parse_single_arg()?;
        let macro_statements = self.parse_body()?;
        Ok(
            MacroDefinition::new(
                macro_name,
                macro_arguments,
                macro_statements,
                macro_takes,
                macro_gives,
                self.spans.clone(),
            ),
        )
    }

    /// Parses a keyword of the same variant as `word` and a name behind it.
    fn parse_named(&mut self, word: TokenKind) -> (r: Result<String, ParserError>)
        requires
            old(self).wf(),
        ensures
            final(self).follows(
                old(self),
                grammar::named(old(self).stream(), old(self).at(), word@),
            ),
            outcome(r, |n: String| n@) == grammar::named(
                old(self).stream(),
                old(self).at(),
                word@,
            ).out,
    {
        self.match_kind(word)?;
        let name_kind = self.match_kind(TokenKind::Ident(String::from_str("x")))?;
        Ok(ident_string(name_kind))
    }

    /// Parses the definition of a constant: `constant`, its name, `=`, and a
    /// literal or a free storage pointer. The definition takes the accumulated
    /// spans, and the accumulator is emptied.
    pub fn parse_constant(&mut self) -> (r: Result<ConstantDefinition, ParserError>)
        requires
            old(self).wf(),
        ensures
            final(self).follows(old(self), grammar::constant(old(self).stream(), old(self).at())),
            outcome(r, |d: ConstantDefinition| d@) == grammar::constant(
                old(self).stream(),
                old(self).at(),
            ).out,
    {
        let name = self.parse_named(TokenKind::Constant)?;
        self.match_kind(TokenKind::Assign)?;
        let value = match &self.current_token.kind {
            TokenKind::FreeStoragePointer => ConstVal::FreeStoragePointer(FreeStoragePointer),
            TokenKind::Literal(l) => ConstVal::Literal(*l),
            _ => {
                let kind = self.current_token.kind.clone();
                let spans = self.take_spans();
                return Err(ParserError::new(ParserErrorKind::InvalidConstantValue(kind), spans));
            },
        };
        self.consume();
        let new_spans = self.take_spans();
        Ok(ConstantDefinition { name, value, span: AstSpan(new_spans) })
    }

    /// Parses the declaration of an event: `event`, its name, and its
    /// parameters in parentheses, each a type, maybe `indexed`, maybe a name.
    pub fn parse_event(&mut self) -> (r: Result<Event, ParserError>)
        requires
            old(self).wf(),
        ensures
            final(self).follows(old(self), grammar::event(old(self).stream(), old(self).at())),
            outcome(r, |e: Event| e@) == grammar::event(old(self).stream(), old(self).at()).out,
    {
        let name = self.parse_named(TokenKind::Event)?;
        let parameters = self.parse_args(true, true, true)?;
        Ok(Event { name, parameters, span: AstSpan(self.spans.clone()) })
    }

    /// Parses the declaration of a function: `function`, its name, its inputs
    /// in parentheses, one of `view`, `pure`, `payable` and `nonpayable`,
    /// `returns`, and its outputs in parentheses. The selector is the first
    /// four bytes of the Keccak-256 hash of the name followed by the types of
    /// the inputs, in parentheses and with commas between them.
    pub fn parse_function(&mut self) -> (r: Result<Function, ParserError>)
        requires
            old(self).wf(),
        ensures
            final(self).follows(old(self), grammar::function(old(self).stream(), old(self).at())),
            outcome(r, |f: Function| f@) == grammar::function(
                old(self).stream(),
                old(self).at(),
            ).out,
            match r {
                Ok(f) => f.signature@ == crate::hashing::selector_of(
                    f.name@,
                    grammar::argument_types(arguments_view(f.inputs@)),
                ),
                Err(_) => true,
            },
    {
        self.match_kind(TokenKind::Function)?;
        let name = match &self.current_token.kind {
            TokenKind::Ident(fn_name) => fn_name.clone(),
            _ => {
                return Err(
                    ParserError::new(
                        ParserErrorKind::InvalidName(self.current_token.kind.clone()),
                        self.spans.clone(),
                    ),
                );
            },
        };
        self.consume();
        let inputs = self.parse_args(true, true, false)?;
        let fn_type = match &self.current_token.kind {
            TokenKind::View => FunctionType::View,
            TokenKind::Pure => FunctionType::Pure,
            TokenKind::Payable => FunctionType::Payable,
            TokenKind::NonPayable => FunctionType::NonPayable,
            _ => {
                return Err(
                    ParserError::new(
                        ParserErrorKind::UnexpectedType(self.current_token.kind.clone()),
                        self.spans.clone(),
                    ),
                );
            },
        };
        self.consume();
        self.match_kind(TokenKind::Returns)?;
        let outputs = self.parse_args(true, true, false)?;
        let input_types = argument_types(&inputs);
        let signature = crate::hashing::selector(name.as_str(), &input_types);
        let span = AstSpan(self.spans.clone());
        Ok(Function { name, signature, inputs, fn_type, outputs, span })
    }

    /// Parses one import: `#include` and a path in quotes. The path is
    /// resolved against the parser's base; it is accepted where it ends in
    /// `.huff` and is one of `files`, the paths that are regular files.
    /// Another path is the error `InvalidImportPath`, which takes the
    /// accumulated spans with it.
    pub fn parse_imports(&mut self, files: &Vec<String>) -> (r: Result<FilePath, ParserError>)
        requires
            old(self).wf(),
        ensures
            final(self).follows(
                old(self),
                grammar::import(
                    old(self).stream(),
                    old(self).at(),
                    opt_text(old(self).base),
                    crate::text::texts(files@),
                ),
            ),
            outcome(r, |p: FilePath| p@) == grammar::import(
                old(self).stream(),
                old(self).at(),
                opt_text(old(self).base),
                crate::text::texts(files@),
            ).out,
    {
        self.match_kind(TokenKind::Include)?;
        let written = match &self.current_token.kind {
            TokenKind::Str(file_path) => file_path.clone(),
            _ => {
                return Err(
                    ParserError::new(
                        ParserErrorKind::UnexpectedType(TokenKind::Str(String::from_str("x"))),
                        self.spans.clone(),
                    ),
                );
            },
        };
        self.consume();
        let path = crate::paths::resolve_import(&self.base, written.as_str());
        if !crate::paths::accept_import(path.as_str(), files) {
            let spans = self.take_spans();
            return Err(ParserError::new(ParserErrorKind::InvalidImportPath(path), spans));
        }
        Ok(FilePath(path))
    }

    /// The paths that the imports at the head of the file stand for, in their
    /// order: what `parse` looks for among the regular files. The parser
    /// itself stays as it is.
    pub fn import_targets(&self) -> (targets: Vec<String>)
        ensures
            crate::text::texts(targets@) == grammar::import_targets(
                self.stream(),
                opt_text(self.base),
            ),
    {
        let tokens = strip_trivia(&self.tokens);
        let ghost ts = tokens_view(tokens@);
        let ghost base = opt_text(self.base);
        let mut targets: Vec<String> = Vec::new();
        let mut i: usize = 0;
        assert(crate::text::texts(targets@) =~= Seq::empty());
        loop
            invariant
                i <= tokens.len(),
                ts == tokens_view(tokens@),
                ts == grammar::strip(self.stream()),
                base == opt_text(self.base),
                grammar::import_targets_from(ts, 0, base, Seq::empty())
                    == grammar::import_targets_from(
                    ts,
                    i as nat,
                    base,
                    crate::text::texts(targets@),
                ),
            decreases tokens.len() - i,
        {
            if i >= tokens.len() || tokens.len() - i < 2 {
                return targets;
            }
            let written = match (&tokens[i].kind, &tokens[i + 1].kind) {
                (TokenKind::Include, TokenKind::Str(written)) => written,
                _ => {
                    return targets;
                },
            };
            let path = crate::paths::resolve_import(&self.base, written.as_str());
            proof {
                assert(crate::text::texts(targets@.push(path)) =~= crate::text::texts(
                    targets@,
                ).push(path@));
            }
            targets.push(path);
            i += 2;
        }
    }

    /// Parses the imports of a file: from the current token up to the first
    /// `#define` or the end of the input. The accumulator is not emptied
    /// between them.
    pub fn parse_import_list(&mut self, files: &Vec<String>) -> (r: Result<
        Vec<FilePath>,
        ParserError,
    >)
        requires
            old(self).wf(),
        ensures
            final(self).follows(
                old(self),
                grammar::imports_from(
                    old(self).stream(),
                    old(self).at(),
                    opt_text(old(self).base),
                    crate::text::texts(files@),
                    Seq::empty(),
                ),
            ),
            outcome(r, |p: Vec<FilePath>| paths_view(p@)) == grammar::imports_from(
                old(self).stream(),
                old(self).at(),
                opt_text(old(self).base),
                crate::text::texts(files@),
                Seq::empty(),
            ).out,
    {
        let ghost ts = self.stream();
        let ghost base = opt_text(self.base);
        let ghost known = crate::text::texts(files@);
        let mut imports: Vec<FilePath> = Vec::new();
        assert(paths_view(imports@) =~= Seq::empty());
        loop
            invariant
                self.wf(),
                self.tokens == old(self).tokens,
                self.base == old(self).base,
                ts == old(self).stream(),
                base == opt_text(old(self).base),
                known == crate::text::texts(files@),
                grammar::imports_from(ts, old(self).at(), base, known, Seq::empty())
                    == grammar::imports_from(ts, self.at(), base, known, paths_view(imports@)),
            decreases self.tokens@.len() - self.cursor,
        {
            if self.check(TokenKind::Eof) || self.check(TokenKind::Define) {
                return Ok(imports);
            }
            let path = self.parse_imports(files)?;
            proof {
                assert(paths_view(imports@.push(path)) =~= paths_view(imports@).push(path@));
            }
            imports.push(path);
        }
    }

    /// Parses what stands behind `#define`: the current token says which
    /// definition follows. A token that starts none is the error
    /// `InvalidDefinition`.
    pub fn parse_definition(&mut self) -> (r: Result<Definition, ParserError>)
        requires
            old(self).wf(),
        ensures
            final(self).follows(
                old(self),
                grammar::definition(old(self).stream(), old(self).at()),
            ),
            outcome(r, |d: Definition| d@) == grammar::definition(
                old(self).stream(),
                old(self).at(),
            ).out,
            old(self).cursor <= final(self).cursor,
    {
        let ghost ts = self.stream();
        let ghost c = self.at();
        let ghost whole = grammar::definition(ts, c);
        proof {
            grammar::lemma_definition_moves_on(ts, c);
        }
        match &self.current_token.kind {
            TokenKind::Function => {
                proof {
                    assert(grammar::wraps(
                        whole,
                        grammar::function(ts, c),
                        |f: FunctionView| DefinitionView::Function(f),
                    )) by {
                        reveal(grammar::definition);
                    }
                }
                match self.parse_function() {
                    Ok(func) => Ok(Definition::Function(func)),
                    Err(e) => Err(e),
                }
            },
            TokenKind::Event => {
                proof {
                    assert(grammar::wraps(
                        whole,
                        grammar::event(ts, c),
                        |e: EventView| DefinitionView::Event(e),
                    )) by {
                        reveal(grammar::definition);
                    }
                }
                match self.parse_event() {
                    Ok(ev) => Ok(Definition::Event(ev)),
                    Err(e) => Err(e),
                }
            },
            TokenKind::Constant => {
                proof {
                    assert(grammar::wraps(
                        whole,
                        grammar::constant(ts, c),
                        |d: ConstantDefinitionView| DefinitionView::Constant(d),
                    )) by {
                        reveal(grammar::definition);
                    }
                }
                match self.parse_constant() {
                    Ok(d) => Ok(Definition::Constant(d)),
                    Err(e) => Err(e),
                }
            },
            TokenKind::Macro => {
                proof {
                    assert(grammar::wraps(
                        whole,
                        grammar::macro_definition(ts, c),
                        |m: MacroDefinitionView| DefinitionView::Macro(m),
                    )) by {
                        reveal(grammar::definition);
                    }
                }
                match self.parse_macro() {
                    Ok(m) => Ok(Definition::Macro(m)),
                    Err(e) => Err(e),
                }
            },
            TokenKind::JumpTable | TokenKind::JumpTablePacked | TokenKind::CodeTable => {
                proof {
                    assert(grammar::wraps(
                        whole,
                        grammar::table(ts, c),
                        |t: TableDefinitionView| DefinitionView::Table(t),
                    )) by {
                        reveal(grammar::definition);
                    }
                }
                match self.parse_table() {
                    Ok(t) => Ok(Definition::Table(t)),
                    Err(e) => Err(e),
                }
            },
            _ => {
                proof {
                    assert(whole == grammar::fail::<DefinitionView>(
                        c,
                        crate::error::ParserErrorKindView::InvalidDefinition,
                        c.spans,
                    )) by {
                        reveal(grammar::definition);
                    }
                }
                Err(ParserError::new(ParserErrorKind::InvalidDefinition, self.spans.clone()))
            },
        }
    }

    /// Parses the definitions of a file: from the current token up to the end
    /// of the input, each behind `#define`, each with an accumulator that
    /// starts empty. They are given in the order of the source.
    pub fn parse_definitions(&mut self) -> (r: Result<Vec<Definition>, ParserError>)
        requires
            old(self).wf(),
        ensures
            final(self).follows(
                old(self),
                grammar::items_from(old(self).stream(), old(self).at(), Seq::empty()),
            ),
            outcome(r, |d: Vec<Definition>| definitions_view(d@)) == grammar::items_from(
                old(self).stream(),
                old(self).at(),
                Seq::empty(),
            ).out,
    {
        let ghost ts = self.stream();
        let mut items: Vec<Definition> = Vec::new();
        assert(definitions_view(items@) =~= Seq::empty());
        loop
            invariant
                self.wf(),
                self.tokens == old(self).tokens,
                self.base == old(self).base,
                ts == old(self).stream(),
                grammar::items_from(ts, old(self).at(), Seq::empty()) == grammar::items_from(
                    ts,
                    self.at(),
                    definitions_view(items@),
                ),
            decreases self.tokens@.len() - self.cursor,
        {
            if self.check(TokenKind::Eof) {
                return Ok(items);
            }
            self.spans = Vec::new();
            self.match_kind(TokenKind::Define)?;
            let item = self.parse_definition()?;
            proof {
                assert(definitions_view(items@.push(item)) =~= definitions_view(items@).push(
                    item@,
                ));
            }
            items.push(item);
        }
    }

    /// Parses a whole source file. Blank space and comments are dropped from
    /// the tokens first. Then come the imports, up to the first `#define` or
    /// the end of the input, each checked against `files`, the paths that are
    /// regular files. Then come the definitions, each behind `#define`, up to
    /// the end of the input. The first error ends the parse. In each list of
    /// the contract the definitions of that kind stand in the order of the
    /// source.
    pub fn parse(&mut self, files: &Vec<String>) -> (r: Result<Contract, ParserError>)
        ensures
            final(self).wf(),
            final(self).base == old(self).base,
            final(self).stream() == grammar::strip(old(self).stream()),
            final(self).at() == grammar::parse(
                old(self).stream(),
                old(self).spans@,
                opt_text(old(self).base),
                crate::text::texts(files@),
            ).next,
            outcome(r, |c: Contract| c@) == grammar::parse(
                old(self).stream(),
                old(self).spans@,
                opt_text(old(self).base),
                crate::text::texts(files@),
            ).out,
    {
        self.tokens = strip_trivia(&self.tokens);
        self.reset();
        let imports = self.parse_import_list(files)?;
        let definitions = self.parse_definitions()?;
        Ok(Contract::assemble(imports, definitions))
    }

    /// Parses blank space: one token of it or more.
    pub fn parse_newline(&mut self) -> (r: Result<(), ParserError>)
        requires
            old(self).wf(),
        ensures
            final(self).follows(old(self), grammar::newline(old(self).stream(), old(self).at())),
            outcome(r, |u: ()| u) == grammar::newline(old(self).stream(), old(self).at()).out,
    {
        self.match_kind(TokenKind::Whitespace)?;
        self.parse_nl_or_whitespace()
    }

    /// Consumes the blank space that stands at the cursor, if any. It never
    /// fails.
    pub fn parse_nl_or_whitespace(&mut self) -> (r: Result<(), ParserError>)
        requires
            old(self).wf(),
        ensures
            final(self).wf(),
            final(self).tokens == old(self).tokens,
            final(self).base == old(self).base,
            final(self).at() == grammar::whitespace_from(old(self).stream(), old(self).at()),
            r is Ok,
    {
        let ghost ts = self.stream();
        loop
            invariant
                self.wf(),
                self.tokens == old(self).tokens,
                self.base == old(self).base,
                ts == self.stream(),
                grammar::whitespace_from(ts, old(self).at()) == grammar::whitespace_from(
                    ts,
                    self.at(),
                ),
            decreases self.tokens@.len() - self.cursor,
        {
            if !self.check(TokenKind::Whitespace) {
                return Ok(());
            }
            self.consume();
        }
    }
}

} // verus!
