//! The spans of the syntax nodes: each node has the spans of tokens of the
//! input, in the order of the source.

use vstd::prelude::*;
use crate::ast::{ArgumentView, ContractView, DefinitionView, StatementTypeView, StatementView};
use crate::grammar::{
    Cursor, advance, argument, argument_spans, arguments, arguments_from, body,
    body_statements_from, builtin_kind, builtin_statement, constant, definition, event, expect,
    function, function_name, imports_from, is_known_builtin, items_from, kind_at, label_statement,
    label_statements_from, macro_arg, macro_args_from, macro_definition, named, parse,
    plain_statement, progressed, single_arg, skip, skip_comma, span_at, starts_plain_statement,
    statement_spans, strip, table, table_statements_from, token_statement,
};
use crate::laws::{behind_define, increasing};
use crate::span::Span;
use crate::token::{TokenKindView, TokenView};

verus! {

/// Whether the accumulator of `c` holds the spans of the tokens from index
/// `start` up to the cursor, each once and in their order.
pub open spec fn tracks(ts: Seq<TokenView>, start: int, c: Cursor) -> bool {
    &&& 0 <= start <= c.pos <= ts.len()
    &&& c.spans.len() == c.pos - start
    &&& forall|i: int| 0 <= i < c.spans.len() ==> #[trigger] c.spans[i] == ts[start + i].span
}

/// Whether `spans` are the spans of the tokens at the indices `idx`, which
/// grow and lie from `lo` up to `hi`.
pub open spec fn taken_at(
    ts: Seq<TokenView>,
    spans: Seq<Span>,
    idx: Seq<int>,
    lo: int,
    hi: int,
) -> bool {
    &&& idx.len() == spans.len()
    &&& increasing(idx)
    &&& forall|k: int|
        0 <= k < idx.len() ==> 0 <= lo <= #[trigger] idx[k] < hi <= ts.len() && spans[k]
            == ts[idx[k]].span
}

/// Whether `spans` are spans of tokens with indices from `lo` up to `hi`, in
/// the order of the source.
pub open spec fn in_source_order(ts: Seq<TokenView>, spans: Seq<Span>, lo: int, hi: int) -> bool {
    exists|idx: Seq<int>| #[trigger] taken_at(ts, spans, idx, lo, hi)
}

/// Whether `spans` are the spans of tokens that stand one behind the other
/// from index `lo` on, and end at `hi` or before.
pub open spec fn ranged(ts: Seq<TokenView>, spans: Seq<Span>, lo: int, hi: int) -> bool {
    &&& 0 <= lo
    &&& lo + spans.len() <= hi <= ts.len()
    &&& forall|j: int| 0 <= j < spans.len() ==> #[trigger] spans[j] == ts[lo + j].span
}

/// Whether a node with these spans is covered: it has a span, and its spans
/// are spans of tokens of the input in the order of the source.
pub open spec fn covered(ts: Seq<TokenView>, spans: Seq<Span>) -> bool {
    spans.len() > 0 && in_source_order(ts, spans, 0, ts.len() as int)
}

/// Spans of tokens that stand one behind the other are in source order.
pub proof fn lemma_ranged_in_order(ts: Seq<TokenView>, spans: Seq<Span>, lo: int, hi: int)
    requires
        ranged(ts, spans, lo, hi),
    ensures
        in_source_order(ts, spans, lo, hi),
{
    let idx = Seq::new(spans.len(), |j: int| lo + j);
    assert(taken_at(ts, spans, idx, lo, hi));
}

/// Spans in source order stay so in a wider window.
pub proof fn lemma_in_order_widens(
    ts: Seq<TokenView>,
    spans: Seq<Span>,
    lo: int,
    hi: int,
    lo2: int,
    hi2: int,
)
    requires
        in_source_order(ts, spans, lo, hi),
        0 <= lo2 <= lo,
        hi <= hi2 <= ts.len(),
    ensures
        in_source_order(ts, spans, lo2, hi2),
{
    let idx = choose|idx: Seq<int>| #[trigger] taken_at(ts, spans, idx, lo, hi);
    assert(taken_at(ts, spans, idx, lo2, hi2));
}

/// Spans in source order, followed by spans in source order from later
/// tokens, are in source order.
pub proof fn lemma_in_order_joins(
    ts: Seq<TokenView>,
    a: Seq<Span>,
    b: Seq<Span>,
    lo: int,
    mid: int,
    hi: int,
)
    requires
        in_source_order(ts, a, lo, mid),
        in_source_order(ts, b, mid, hi),
        0 <= lo <= mid <= hi <= ts.len(),
    ensures
        in_source_order(ts, a + b, lo, hi),
{
    let ia = choose|idx: Seq<int>| #[trigger] taken_at(ts, a, idx, lo, mid);
    let ib = choose|idx: Seq<int>| #[trigger] taken_at(ts, b, idx, mid, hi);
    let idx = ia + ib;
    assert forall|j: int, k: int| 0 <= j < k < idx.len() implies idx[j] < idx[k] by {
        if k < ia.len() {
            assert(ia[j] < ia[k]);
        } else if j >= ia.len() {
            assert(ib[j - ia.len()] < ib[k - ia.len()]);
        } else {
            assert(ia[j] < mid);
            assert(mid <= ib[k - ia.len()]);
        }
    }
    assert forall|k: int| 0 <= k < idx.len() implies 0 <= lo <= #[trigger] idx[k] < hi <= ts.len()
        && (a + b)[k] == ts[idx[k]].span by {
        if k < ia.len() {
            assert(idx[k] == ia[k]);
        } else {
            assert(idx[k] == ib[k - ia.len()]);
        }
    }
    assert(taken_at(ts, a + b, idx, lo, hi));
}

/// Whether no comma of the tokens stands right behind an opening
/// parenthesis or another comma.
pub open spec fn no_bare_comma(ts: Seq<TokenView>) -> bool {
    forall|i: int|
        0 < i < ts.len() && (#[trigger] ts[i]).kind is Comma ==> !(ts[i - 1].kind is OpenParen)
            && !(ts[i - 1].kind is Comma)
}

/// Whether an argument may start at `c`: behind an opening parenthesis or a
/// comma, or in front of a token that is no comma.
pub open spec fn at_argument_start(ts: Seq<TokenView>, c: Cursor) -> bool {
    &&& 1 <= c.pos
    &&& c.pos - 1 < ts.len()
    &&& ts[c.pos - 1].kind is OpenParen || ts[c.pos - 1].kind is Comma || !(kind_at(ts, c) is Comma)
}

/// Whether the spans of an argument are in source order, and there is one:
/// always if `strict` is set, else unless the argument has neither type nor
/// name.
pub open spec fn argument_covered(ts: Seq<TokenView>, strict: bool, a: ArgumentView) -> bool {
    &&& in_source_order(ts, a.span, 0, ts.len() as int)
    &&& (strict || a.arg_type is Some || a.name is Some) ==> a.span.len() > 0
}

/// Whether each argument of a list is covered.
pub open spec fn arguments_covered(
    ts: Seq<TokenView>,
    strict: bool,
    args: Seq<ArgumentView>,
) -> bool {
    forall|i: int| 0 <= i < args.len() ==> argument_covered(ts, strict, #[trigger] args[i])
}

/// Whether a statement is covered, with the node that it holds and every
/// node under that: the invocation of a macro, a label and the call of a
/// built-in function have the spans of their statement; the statements under
/// a label and the arguments of a call are covered in turn.
pub open spec fn statement_covered(ts: Seq<TokenView>, strict: bool, s: StatementView) -> bool
    decreases s,
{
    &&& covered(ts, s.span)
    &&& match s.ty {
        StatementTypeView::MacroInvocation(m) => m.span == s.span,
        StatementTypeView::Label(l) => l.span == s.span && forall|i: int|
            0 <= i < l.inner.len() ==> statement_covered(ts, strict, #[trigger] l.inner[i]),
        StatementTypeView::BuiltinFunctionCall(b) => b.span == s.span && arguments_covered(
            ts,
            strict,
            b.args,
        ),
        _ => true,
    }
}

/// Whether each statement of a list is covered.
pub open spec fn statements_covered(
    ts: Seq<TokenView>,
    strict: bool,
    body: Seq<StatementView>,
) -> bool {
    forall|i: int| 0 <= i < body.len() ==> statement_covered(ts, strict, #[trigger] body[i])
}

/// One argument, read while the accumulator tracks the tokens, keeps it
/// tracking; its spans are those of the tokens of its type, of `indexed` and
/// of its name, which stand one behind the other where it starts.
pub proof fn lemma_argument_covered(
    ts: Seq<TokenView>,
    strict: bool,
    start: int,
    c: Cursor,
    select_name: bool,
    select_type: bool,
    has_indexed: bool,
)
    requires
        tracks(ts, start, c),
        strict ==> no_bare_comma(ts) && at_argument_start(ts, c),
    ensures
        ({
            let arg = argument(ts, c, select_name, select_type, has_indexed);
            !arg.failed() ==> {
                &&& tracks(ts, start, arg.next)
                &&& ranged(ts, arg.value().span, c.pos as int, arg.next.pos as int)
                &&& (strict && progressed(ts, c, arg.next) || arg.value().arg_type is Some
                    || arg.value().name is Some) ==> arg.value().span.len() > 0
                &&& progressed(ts, c, arg.next) ==> at_argument_start(ts, arg.next)
            }
        }),
{
}

/// The arguments of a list, read while the accumulator tracks the tokens,
/// keep it tracking; each is covered, and their spans together are in source
/// order.
pub proof fn lemma_arguments_from_covered(
    ts: Seq<TokenView>,
    strict: bool,
    start: int,
    c: Cursor,
    select_name: bool,
    select_type: bool,
    has_indexed: bool,
    acc: Seq<ArgumentView>,
    lo: int,
)
    requires
        tracks(ts, start, c),
        strict ==> no_bare_comma(ts) && at_argument_start(ts, c),
        0 <= lo <= c.pos,
        arguments_covered(ts, strict, acc),
        in_source_order(ts, argument_spans(acc), lo, c.pos as int),
    ensures
        ({
            let all = arguments_from(ts, c, select_name, select_type, has_indexed, acc);
            !all.failed() ==> {
                &&& tracks(ts, start, all.next)
                &&& arguments_covered(ts, strict, all.value())
                &&& in_source_order(ts, argument_spans(all.value()), lo, all.next.pos as int)
            }
        }),
    decreases ts.len() - c.pos,
{
    let all = arguments_from(ts, c, select_name, select_type, has_indexed, acc);
    if kind_at(ts, c) is CloseParen {
        lemma_in_order_widens(ts, argument_spans(acc), lo, c.pos as int, lo, all.next.pos as int);
    } else {
        let arg = argument(ts, c, select_name, select_type, has_indexed);
        if !arg.failed() && progressed(ts, c, arg.next) {
            lemma_argument_covered(ts, strict, start, c, select_name, select_type, has_indexed);
            let next = acc.push(arg.value());
            lemma_ranged_in_order(ts, arg.value().span, c.pos as int, arg.next.pos as int);
            lemma_in_order_widens(
                ts,
                arg.value().span,
                c.pos as int,
                arg.next.pos as int,
                0,
                ts.len() as int,
            );
            assert forall|i: int| 0 <= i < next.len() implies argument_covered(
                ts,
                strict,
                #[trigger] next[i],
            ) by {
                if i < acc.len() {
                    assert(next[i] == acc[i]);
                }
            }
            assert(next.drop_last() =~= acc);
            lemma_in_order_joins(
                ts,
                argument_spans(acc),
                arg.value().span,
                lo,
                c.pos as int,
                arg.next.pos as int,
            );
            lemma_arguments_from_covered(
                ts,
                strict,
                start,
                arg.next,
                select_name,
                select_type,
                has_indexed,
                next,
                lo,
            );
        }
    }
}

/// A list of arguments in parentheses, read while the accumulator tracks the
/// tokens, keeps it tracking; each argument is covered, and their spans
/// together are in source order behind the opening parenthesis.
pub proof fn lemma_arguments_covered(
    ts: Seq<TokenView>,
    strict: bool,
    start: int,
    c: Cursor,
    select_name: bool,
    select_type: bool,
    has_indexed: bool,
)
    requires
        tracks(ts, start, c),
        strict ==> no_bare_comma(ts),
    ensures
        ({
            let all = arguments(ts, c, select_name, select_type, has_indexed);
            !all.failed() ==> {
                &&& tracks(ts, start, all.next)
                &&& c.pos < all.next.pos
                &&& arguments_covered(ts, strict, all.value())
                &&& in_source_order(
                    ts,
                    argument_spans(all.value()),
                    (c.pos + 1) as int,
                    all.next.pos as int,
                )
            }
        }),
{
    let open = expect(ts, c, TokenKindView::OpenParen);
    if !open.failed() {
        let none = Seq::<ArgumentView>::empty();
        let first = (c.pos + 1) as int;
        assert(taken_at(ts, argument_spans(none), Seq::<int>::empty(), first, first));
        lemma_arguments_from_covered(
            ts,
            strict,
            start,
            open.next,
            select_name,
            select_type,
            has_indexed,
            none,
            (c.pos + 1) as int,
        );
        crate::grammar::lemma_arguments_from_moves_on(
            ts,
            open.next,
            select_name,
            select_type,
            has_indexed,
            none,
        );
    }
}

/// The arguments of a macro invocation, read while the accumulator tracks
/// the tokens, keep it tracking.
pub proof fn lemma_macro_args_from_tracks(
    ts: Seq<TokenView>,
    start: int,
    c: Cursor,
    acc: Seq<crate::ast::MacroArgView>,
)
    requires
        tracks(ts, start, c),
    ensures
        !macro_args_from(ts, c, acc).failed() ==> tracks(
            ts,
            start,
            macro_args_from(ts, c, acc).next,
        ),
    decreases ts.len() - c.pos,
{
    if !(kind_at(ts, c) is CloseParen) {
        let arg = macro_arg(ts, c);
        if !arg.failed() {
            let next = skip_comma(ts, arg.next);
            lemma_macro_args_from_tracks(ts, start, next, acc.push(arg.value()));
        }
    }
}

/// A plain statement, read while the accumulator tracks the tokens, keeps it
/// tracking; it is covered, by tokens from where it starts up to where it
/// ends.
pub proof fn lemma_plain_statement_covered(ts: Seq<TokenView>, strict: bool, start: int, c: Cursor)
    requires
        tracks(ts, start, c),
        strict ==> no_bare_comma(ts),
        starts_plain_statement(kind_at(ts, c)),
    ensures
        ({
            let st = plain_statement(ts, c);
            !st.failed() ==> {
                &&& tracks(ts, start, st.next)
                &&& c.pos < st.next.pos
                &&& statement_covered(ts, strict, st.value())
                &&& in_source_order(ts, st.value().span, c.pos as int, st.next.pos as int)
            }
        }),
{
    let st = plain_statement(ts, c);
    if !st.failed() {
        crate::grammar::lemma_plain_statement_moves_on(ts, c);
        if kind_at(ts, c) is Ident && kind_at(ts, advance(ts, c)) is OpenParen {
            let c1 = advance(ts, c);
            lemma_macro_args_from_tracks(ts, start, advance(ts, c1), Seq::empty());
            assert(ranged(ts, st.value().span, c.pos as int, st.next.pos as int));
        } else {
            assert(st.value().span.len() == 1);
            if kind_at(ts, c) is OpenBracket || kind_at(ts, c) is LeftAngle {
                assert(ranged(ts, st.value().span, (c.pos + 1) as int, st.next.pos as int));
                lemma_ranged_in_order(ts, st.value().span, (c.pos + 1) as int, st.next.pos as int);
                lemma_in_order_widens(
                    ts,
                    st.value().span,
                    (c.pos + 1) as int,
                    st.next.pos as int,
                    c.pos as int,
                    st.next.pos as int,
                );
            } else {
                assert(ranged(ts, st.value().span, c.pos as int, st.next.pos as int));
            }
        }
        if !(kind_at(ts, c) is OpenBracket || kind_at(ts, c) is LeftAngle) {
            lemma_ranged_in_order(ts, st.value().span, c.pos as int, st.next.pos as int);
        }
        lemma_in_order_widens(
            ts,
            st.value().span,
            c.pos as int,
            st.next.pos as int,
            0,
            ts.len() as int,
        );
    }
}

/// The statements under a label, read while the accumulator tracks the
/// tokens, keep it tracking; each is covered, and their spans together are
/// in source order.
pub proof fn lemma_label_statements_covered(
    ts: Seq<TokenView>,
    strict: bool,
    start: int,
    c: Cursor,
    acc: Seq<StatementView>,
    lo: int,
)
    requires
        tracks(ts, start, c),
        strict ==> no_bare_comma(ts),
        0 <= lo <= c.pos,
        statements_covered(ts, strict, acc),
        in_source_order(ts, statement_spans(acc), lo, c.pos as int),
    ensures
        ({
            let all = label_statements_from(ts, c, acc);
            !all.failed() ==> {
                &&& tracks(ts, start, all.next)
                &&& statements_covered(ts, strict, all.value())
                &&& in_source_order(ts, statement_spans(all.value()), lo, all.next.pos as int)
            }
        }),
    decreases ts.len() - c.pos,
{
    let kind = kind_at(ts, c);
    if !(kind is Label || kind is CloseBrace) && starts_plain_statement(kind) {
        let st = plain_statement(ts, c);
        if !st.failed() {
            lemma_plain_statement_covered(ts, strict, start, c);
            let next = acc.push(st.value());
            assert forall|i: int| 0 <= i < next.len() implies statement_covered(
                ts,
                strict,
                #[trigger] next[i],
            ) by {
                if i < acc.len() {
                    assert(next[i] == acc[i]);
                }
            }
            assert(next.drop_last() =~= acc);
            lemma_in_order_joins(
                ts,
                statement_spans(acc),
                st.value().span,
                lo,
                c.pos as int,
                st.next.pos as int,
            );
            lemma_label_statements_covered(ts, strict, start, st.next, next, lo);
        }
    }
}

/// A label with the statements under it, read while the accumulator tracks
/// the tokens, keeps it tracking and is covered.
pub proof fn lemma_label_statement_covered(ts: Seq<TokenView>, strict: bool, start: int, c: Cursor)
    requires
        tracks(ts, start, c),
        strict ==> no_bare_comma(ts),
        kind_at(ts, c) is Label,
    ensures
        ({
            let st = label_statement(ts, c);
            !st.failed() ==> {
                &&& tracks(ts, start, st.next)
                &&& c.pos < st.next.pos
                &&& statement_covered(ts, strict, st.value())
            }
        }),
{
    let st = label_statement(ts, c);
    if !st.failed() {
        let c1 = advance(ts, c);
        let colon = expect(ts, c1, TokenKindView::Colon);
        let none = Seq::<StatementView>::empty();
        let first = (c.pos + 2) as int;
        assert(taken_at(ts, statement_spans(none), Seq::<int>::empty(), first, first));
        lemma_label_statements_covered(ts, strict, start, colon.next, none, (c.pos + 2) as int);
        crate::grammar::lemma_label_statements_from_moves_on(ts, colon.next, none);
        let inner = label_statements_from(ts, colon.next, none);
        let head = seq![span_at(ts, c)];
        assert(ranged(ts, head, c.pos as int, (c.pos + 2) as int));
        lemma_ranged_in_order(ts, head, c.pos as int, (c.pos + 2) as int);
        lemma_in_order_joins(
            ts,
            head,
            statement_spans(inner.value()),
            c.pos as int,
            (c.pos + 2) as int,
            inner.next.pos as int,
        );
        lemma_in_order_widens(
            ts,
            st.value().span,
            c.pos as int,
            inner.next.pos as int,
            0,
            ts.len() as int,
        );
    }
}

/// The call of a built-in function, read while the accumulator tracks the
/// tokens, keeps it tracking and is covered.
pub proof fn lemma_builtin_statement_covered(
    ts: Seq<TokenView>,
    strict: bool,
    start: int,
    c: Cursor,
    kind: crate::ast::BuiltinFunctionKind,
)
    requires
        tracks(ts, start, c),
        strict ==> no_bare_comma(ts),
        is_known_builtin(kind_at(ts, c)),
    ensures
        ({
            let st = builtin_statement(ts, c, kind);
            !st.failed() ==> {
                &&& tracks(ts, start, st.next)
                &&& c.pos < st.next.pos
                &&& statement_covered(ts, strict, st.value())
            }
        }),
{
    let st = builtin_statement(ts, c, kind);
    if !st.failed() {
        let c1 = advance(ts, c);
        lemma_arguments_covered(ts, strict, start, c1, true, false, false);
        let args = arguments(ts, c1, true, false, false);
        let head = seq![span_at(ts, c)];
        assert(ranged(ts, head, c.pos as int, (c.pos + 2) as int));
        lemma_ranged_in_order(ts, head, c.pos as int, (c.pos + 2) as int);
        lemma_in_order_joins(
            ts,
            head,
            argument_spans(args.value()),
            c.pos as int,
            (c.pos + 2) as int,
            args.next.pos as int,
        );
        lemma_in_order_widens(
            ts,
            st.value().span,
            c.pos as int,
            args.next.pos as int,
            0,
            ts.len() as int,
        );
    }
}

/// The statements of a macro body, read while the accumulator tracks the
/// tokens, keep it tracking; each is covered.
pub proof fn lemma_body_statements_covered(
    ts: Seq<TokenView>,
    strict: bool,
    start: int,
    c: Cursor,
    acc: Seq<StatementView>,
)
    requires
        tracks(ts, start, c),
        strict ==> no_bare_comma(ts),
        statements_covered(ts, strict, acc),
    ensures
        ({
            let all = body_statements_from(ts, c, acc);
            !all.failed() ==> {
                &&& tracks(ts, start, all.next)
                &&& statements_covered(ts, strict, all.value())
            }
        }),
    decreases ts.len() - c.pos,
{
    let kind = kind_at(ts, c);
    if !(kind is CloseBrace) && (starts_plain_statement(kind) || kind is Label || is_known_builtin(
        kind,
    )) {
        let st = if starts_plain_statement(kind) {
            plain_statement(ts, c)
        } else if kind is Label {
            label_statement(ts, c)
        } else {
            builtin_statement(ts, c, builtin_kind(kind->BuiltinFunction_0)->Some_0)
        };
        if !st.failed() {
            if starts_plain_statement(kind) {
                lemma_plain_statement_covered(ts, strict, start, c);
            } else if kind is Label {
                lemma_label_statement_covered(ts, strict, start, c);
            } else {
                lemma_builtin_statement_covered(
                    ts,
                    strict,
                    start,
                    c,
                    builtin_kind(kind->BuiltinFunction_0)->Some_0,
                );
            }
            let next = acc.push(st.value());
            assert forall|i: int| 0 <= i < next.len() implies statement_covered(
                ts,
                strict,
                #[trigger] next[i],
            ) by {
                if i < acc.len() {
                    assert(next[i] == acc[i]);
                }
            }
            lemma_body_statements_covered(ts, strict, start, st.next, next);
        }
    }
}

/// The entries of a table, read while the accumulator tracks the tokens,
/// keep it tracking; each is covered.
pub proof fn lemma_table_statements_covered(
    ts: Seq<TokenView>,
    strict: bool,
    start: int,
    c: Cursor,
    acc: Seq<StatementView>,
)
    requires
        tracks(ts, start, c),
        strict ==> no_bare_comma(ts),
        statements_covered(ts, strict, acc),
    ensures
        ({
            let all = table_statements_from(ts, c, acc);
            !all.failed() ==> {
                &&& tracks(ts, start, all.next)
                &&& statements_covered(ts, strict, all.value())
            }
        }),
    decreases ts.len() - c.pos,
{
    if kind_at(ts, c) is Ident {
        let st = token_statement(
            StatementTypeView::LabelCall(kind_at(ts, c)->Ident_0),
            span_at(ts, c),
        );
        assert(ranged(ts, st.span, c.pos as int, (c.pos + 1) as int));
        lemma_ranged_in_order(ts, st.span, c.pos as int, (c.pos + 1) as int);
        lemma_in_order_widens(ts, st.span, c.pos as int, (c.pos + 1) as int, 0, ts.len() as int);
        let next = acc.push(st);
        assert forall|i: int| 0 <= i < next.len() implies statement_covered(
            ts,
            strict,
            #[trigger] next[i],
        ) by {
            if i < acc.len() {
                assert(next[i] == acc[i]);
            }
        }
        lemma_table_statements_covered(ts, strict, start, advance(ts, c), next);
    }
}

/// Whether a definition is covered, with every node under it: its
/// arguments and its statements.
pub open spec fn definition_covered(ts: Seq<TokenView>, strict: bool, d: DefinitionView) -> bool {
    match d {
        DefinitionView::Function(f) => covered(ts, f.span) && arguments_covered(
            ts,
            strict,
            f.inputs,
        ) && arguments_covered(ts, strict, f.outputs),
        DefinitionView::Event(e) => covered(ts, e.span) && arguments_covered(
            ts,
            strict,
            e.parameters,
        ),
        DefinitionView::Constant(c) => covered(ts, c.span),
        DefinitionView::Macro(m) => covered(ts, m.span) && arguments_covered(
            ts,
            strict,
            m.parameters,
        ) && statements_covered(ts, strict, m.statements),
        DefinitionView::Table(t) => covered(ts, t.span) && statements_covered(
            ts,
            strict,
            t.statements,
        ),
    }
}

/// An accumulator that tracks the tokens from `start` on, and holds one at
/// least, is covered.
pub proof fn lemma_tracked_is_covered(ts: Seq<TokenView>, start: int, c: Cursor)
    requires
        tracks(ts, start, c),
        start < c.pos,
    ensures
        covered(ts, c.spans),
{
    assert(ranged(ts, c.spans, start, c.pos as int));
    lemma_ranged_in_order(ts, c.spans, start, c.pos as int);
    lemma_in_order_widens(ts, c.spans, start, c.pos as int, 0, ts.len() as int);
}

proof fn lemma_function_covered(ts: Seq<TokenView>, strict: bool, start: int, c: Cursor)
    requires
        tracks(ts, start, c),
        strict ==> no_bare_comma(ts),
    ensures
        !function(ts, c).failed() ==> definition_covered(
            ts,
            strict,
            DefinitionView::Function(function(ts, c).value()),
        ),
{
    if !function(ts, c).failed() {
        let name = function_name(ts, c);
        lemma_arguments_covered(ts, strict, start, name.next, true, true, false);
        let inputs = arguments(ts, name.next, true, true, false);
        let word = expect(ts, advance(ts, inputs.next), TokenKindView::Returns);
        lemma_arguments_covered(ts, strict, start, word.next, true, true, false);
        let outputs = arguments(ts, word.next, true, true, false);
        lemma_tracked_is_covered(ts, start, outputs.next);
    }
}

proof fn lemma_event_covered(ts: Seq<TokenView>, strict: bool, start: int, c: Cursor)
    requires
        tracks(ts, start, c),
        strict ==> no_bare_comma(ts),
    ensures
        !event(ts, c).failed() ==> definition_covered(
            ts,
            strict,
            DefinitionView::Event(event(ts, c).value()),
        ),
{
    if !event(ts, c).failed() {
        let name = named(ts, c, TokenKindView::Event);
        lemma_arguments_covered(ts, strict, start, name.next, true, true, true);
        let parameters = arguments(ts, name.next, true, true, true);
        lemma_tracked_is_covered(ts, start, parameters.next);
    }
}

proof fn lemma_constant_covered(ts: Seq<TokenView>, strict: bool, start: int, c: Cursor)
    requires
        tracks(ts, start, c),
    ensures
        !constant(ts, c).failed() ==> definition_covered(
            ts,
            strict,
            DefinitionView::Constant(constant(ts, c).value()),
        ),
{
    if !constant(ts, c).failed() {
        let name = named(ts, c, TokenKindView::Constant);
        let assign = expect(ts, name.next, TokenKindView::Assign);
        lemma_tracked_is_covered(ts, start, advance(ts, assign.next));
    }
}

proof fn lemma_macro_covered(ts: Seq<TokenView>, strict: bool, start: int, c: Cursor)
    requires
        tracks(ts, start, c),
        strict ==> no_bare_comma(ts),
    ensures
        !macro_definition(ts, c).failed() ==> definition_covered(
            ts,
            strict,
            DefinitionView::Macro(macro_definition(ts, c).value()),
        ),
{
    if !macro_definition(ts, c).failed() {
        let word = expect(ts, c, TokenKindView::Macro);
        let name = expect(ts, word.next, TokenKindView::Ident("MACRO_NAME"@));
        lemma_arguments_covered(ts, strict, start, name.next, true, false, false);
        let parameters = arguments(ts, name.next, true, false, false);
        let assign = expect(ts, parameters.next, TokenKindView::Assign);
        let takes_word = expect(ts, assign.next, TokenKindView::Takes);
        let takes = single_arg(ts, takes_word.next);
        let gives_word = expect(ts, takes.next, TokenKindView::Returns);
        let gives = single_arg(ts, gives_word.next);
        let open = expect(ts, gives.next, TokenKindView::OpenBrace);
        assert(tracks(ts, start, open.next));
        lemma_body_statements_covered(ts, strict, start, open.next, Seq::empty());
        let statements = body_statements_from(ts, open.next, Seq::empty());
        crate::grammar::lemma_body_statements_from_moves_on(ts, open.next, Seq::empty());
        lemma_tracked_is_covered(ts, start, statements.next);
    }
}

proof fn lemma_table_covered(ts: Seq<TokenView>, strict: bool, start: int, c: Cursor)
    requires
        tracks(ts, start, c),
        strict ==> no_bare_comma(ts),
    ensures
        !table(ts, c).failed() ==> definition_covered(
            ts,
            strict,
            DefinitionView::Table(table(ts, c).value()),
        ),
{
    if !table(ts, c).failed() {
        let name = expect(ts, advance(ts, c), TokenKindView::Ident("TABLE_NAME"@));
        let c1 = skip(ts, name.next, TokenKindView::OpenParen);
        let c2 = skip(ts, c1, TokenKindView::CloseParen);
        let c3 = skip(ts, c2, TokenKindView::Assign);
        let open = expect(ts, c3, TokenKindView::OpenBrace);
        assert(tracks(ts, start, open.next));
        lemma_table_statements_covered(ts, strict, start, open.next, Seq::empty());
        let entries = table_statements_from(ts, open.next, Seq::empty());
        crate::grammar::lemma_table_statements_from_moves_on(ts, open.next, Seq::empty());
        lemma_tracked_is_covered(ts, start, entries.next);
    }
}

/// The definition behind the `#define` at index `start` is covered, with
/// every node under it.
pub proof fn lemma_definition_covered(ts: Seq<TokenView>, strict: bool, start: int)
    requires
        0 <= start < ts.len(),
        strict ==> no_bare_comma(ts),
    ensures
        !definition(ts, behind_define(ts, start)).failed() ==> definition_covered(
            ts,
            strict,
            definition(ts, behind_define(ts, start)).value(),
        ),
{
    reveal(definition);
    let c = behind_define(ts, start);
    assert(tracks(ts, start, c));
    lemma_function_covered(ts, strict, start, c);
    lemma_event_covered(ts, strict, start, c);
    lemma_constant_covered(ts, strict, start, c);
    lemma_macro_covered(ts, strict, start, c);
    lemma_table_covered(ts, strict, start, c);
}

proof fn lemma_contract_covered(
    ts: Seq<TokenView>,
    spans: Seq<Span>,
    base: Option<Seq<char>>,
    files: Seq<Seq<char>>,
    strict: bool,
)
    requires
        !parse(ts, spans, base, files).failed(),
        strict ==> no_bare_comma(strip(ts)),
    ensures
        contract_covered(strip(ts), strict, parse(ts, spans, base, files).value()),
{
    let tokens = strip(ts);
    let included = imports_from(tokens, Cursor { pos: 0, spans }, base, files, Seq::empty());
    let defs = items_from(tokens, included.next, Seq::empty()).value();
    let starts = crate::laws::lemma_items_in_source_order(
        tokens,
        included.next,
        Seq::empty(),
        Seq::empty(),
    );
    let good = |d: DefinitionView| definition_covered(tokens, strict, d);
    assert forall|k: int| 0 <= k < defs.len() implies good(#[trigger] defs[k]) by {
        assert(0 <= starts[k] < tokens.len());
        lemma_definition_covered(tokens, strict, starts[k]);
    }
    crate::laws::lemma_lists_hold(defs, good);
    let contract = parse(ts, spans, base, files).value();
    assert forall|i: int| 0 <= i < contract.functions.len() implies definition_covered(
        tokens,
        strict,
        DefinitionView::Function(#[trigger] contract.functions[i]),
    ) by {
        assert(good(DefinitionView::Function(contract.functions[i])));
    }
    assert forall|i: int| 0 <= i < contract.events.len() implies definition_covered(
        tokens,
        strict,
        DefinitionView::Event(#[trigger] contract.events[i]),
    ) by {
        assert(good(DefinitionView::Event(contract.events[i])));
    }
    assert forall|i: int| 0 <= i < contract.constants.len() implies definition_covered(
        tokens,
        strict,
        DefinitionView::Constant(#[trigger] contract.constants[i]),
    ) by {
        assert(good(DefinitionView::Constant(contract.constants[i])));
    }
    assert forall|i: int| 0 <= i < contract.macros.len() implies definition_covered(
        tokens,
        strict,
        DefinitionView::Macro(#[trigger] contract.macros[i]),
    ) by {
        assert(good(DefinitionView::Macro(contract.macros[i])));
    }
    assert forall|i: int| 0 <= i < contract.tables.len() implies definition_covered(
        tokens,
        strict,
        DefinitionView::Table(#[trigger] contract.tables[i]),
    ) by {
        assert(good(DefinitionView::Table(contract.tables[i])));
    }
}

/// Whether every definition of a contract is covered, with every node under
/// it.
pub open spec fn contract_covered(
    ts: Seq<TokenView>,
    strict: bool,
    contract: ContractView,
) -> bool {
    &&& forall|i: int|
        0 <= i < contract.functions.len() ==> definition_covered(
            ts,
            strict,
            DefinitionView::Function(#[trigger] contract.functions[i]),
        )
    &&& forall|i: int|
        0 <= i < contract.events.len() ==> definition_covered(
            ts,
            strict,
            DefinitionView::Event(#[trigger] contract.events[i]),
        )
    &&& forall|i: int|
        0 <= i < contract.constants.len() ==> definition_covered(
            ts,
            strict,
            DefinitionView::Constant(#[trigger] contract.constants[i]),
        )
    &&& forall|i: int|
        0 <= i < contract.macros.len() ==> definition_covered(
            ts,
            strict,
            DefinitionView::Macro(#[trigger] contract.macros[i]),
        )
    &&& forall|i: int|
        0 <= i < contract.tables.len() ==> definition_covered(
            ts,
            strict,
            DefinitionView::Table(#[trigger] contract.tables[i]),
        )
}

/// Whether the tokens of `part` are tokens of `whole`, in their order.
pub open spec fn embedded_at(part: Seq<TokenView>, whole: Seq<TokenView>, at: Seq<int>) -> bool {
    &&& at.len() == part.len()
    &&& increasing(at)
    &&& forall|k: int|
        0 <= k < at.len() ==> 0 <= #[trigger] at[k] < whole.len() && part[k] == whole[at[k]]
}

/// The tokens that are left when blank space and comments are dropped are
/// tokens of the input, in their order.
pub proof fn lemma_strip_embedded(ts: Seq<TokenView>) -> (at: Seq<int>)
    ensures
        embedded_at(strip(ts), ts, at),
    decreases ts.len(),
{
    reveal(Seq::filter);
    if ts.len() == 0 {
        Seq::empty()
    } else {
        let rest = ts.drop_last();
        let at0 = lemma_strip_embedded(rest);
        if ts.last().kind.is_trivia() {
            assert forall|k: int| 0 <= k < at0.len() implies 0 <= #[trigger] at0[k] < ts.len()
                && strip(ts)[k] == ts[at0[k]] by {
                assert(rest[at0[k]] == ts[at0[k]]);
            }
            at0
        } else {
            let at = at0.push(ts.len() - 1);
            assert forall|k: int| 0 <= k < at.len() implies 0 <= #[trigger] at[k] < ts.len()
                && strip(ts)[k] == ts[at[k]] by {
                if k < at0.len() {
                    assert(at[k] == at0[k]);
                    assert(rest[at0[k]] == ts[at0[k]]);
                }
            }
            assert forall|j: int, k: int| 0 <= j < k < at.len() implies at[j] < at[k] by {
                assert(at0[j] < rest.len());
                if k < at0.len() {
                    assert(at0[j] < at0[k]);
                }
            }
            at
        }
    }
}

/// Spans in source order among some of the tokens are in source order among
/// all of them.
pub proof fn lemma_in_order_lifts(
    part: Seq<TokenView>,
    whole: Seq<TokenView>,
    at: Seq<int>,
    spans: Seq<Span>,
)
    requires
        embedded_at(part, whole, at),
        in_source_order(part, spans, 0, part.len() as int),
    ensures
        in_source_order(whole, spans, 0, whole.len() as int),
{
    let idx = choose|idx: Seq<int>| #[trigger] taken_at(part, spans, idx, 0, part.len() as int);
    let lifted = Seq::new(idx.len(), |k: int| at[idx[k]]);
    assert forall|j: int, k: int| 0 <= j < k < lifted.len() implies lifted[j] < lifted[k] by {
        assert(idx[j] < idx[k]);
        assert(0 <= idx[j] && idx[k] < at.len());
    }
    assert forall|k: int| 0 <= k < lifted.len() implies 0 <= 0 <= #[trigger] lifted[k]
        < whole.len() <= whole.len() && spans[k] == whole[lifted[k]].span by {
        assert(0 <= idx[k] < at.len());
        assert(part[idx[k]] == whole[at[idx[k]]]);
    }
    assert(taken_at(whole, spans, lifted, 0, whole.len() as int));
}

proof fn lemma_arguments_lift(
    part: Seq<TokenView>,
    whole: Seq<TokenView>,
    at: Seq<int>,
    strict: bool,
    args: Seq<ArgumentView>,
)
    requires
        embedded_at(part, whole, at),
        arguments_covered(part, strict, args),
    ensures
        arguments_covered(whole, strict, args),
{
    assert forall|i: int| 0 <= i < args.len() implies argument_covered(
        whole,
        strict,
        #[trigger] args[i],
    ) by {
        assert(argument_covered(part, strict, args[i]));
        lemma_in_order_lifts(part, whole, at, args[i].span);
    }
}

proof fn lemma_statement_lifts(
    part: Seq<TokenView>,
    whole: Seq<TokenView>,
    at: Seq<int>,
    strict: bool,
    s: StatementView,
)
    requires
        embedded_at(part, whole, at),
        statement_covered(part, strict, s),
    ensures
        statement_covered(whole, strict, s),
    decreases s,
{
    lemma_in_order_lifts(part, whole, at, s.span);
    match s.ty {
        StatementTypeView::Label(l) => {
            assert forall|i: int| 0 <= i < l.inner.len() implies statement_covered(
                whole,
                strict,
                #[trigger] l.inner[i],
            ) by {
                assert(statement_covered(part, strict, l.inner[i]));
                lemma_statement_lifts(part, whole, at, strict, l.inner[i]);
            }
        },
        StatementTypeView::BuiltinFunctionCall(b) => {
            lemma_arguments_lift(part, whole, at, strict, b.args);
        },
        _ => {},
    }
}

proof fn lemma_statements_lift(
    part: Seq<TokenView>,
    whole: Seq<TokenView>,
    at: Seq<int>,
    strict: bool,
    body: Seq<StatementView>,
)
    requires
        embedded_at(part, whole, at),
        statements_covered(part, strict, body),
    ensures
        statements_covered(whole, strict, body),
{
    assert forall|i: int| 0 <= i < body.len() implies statement_covered(
        whole,
        strict,
        #[trigger] body[i],
    ) by {
        assert(statement_covered(part, strict, body[i]));
        lemma_statement_lifts(part, whole, at, strict, body[i]);
    }
}

proof fn lemma_definition_lifts(
    part: Seq<TokenView>,
    whole: Seq<TokenView>,
    at: Seq<int>,
    strict: bool,
    d: DefinitionView,
)
    requires
        embedded_at(part, whole, at),
        definition_covered(part, strict, d),
    ensures
        definition_covered(whole, strict, d),
{
    match d {
        DefinitionView::Function(f) => {
            lemma_in_order_lifts(part, whole, at, f.span);
            lemma_arguments_lift(part, whole, at, strict, f.inputs);
            lemma_arguments_lift(part, whole, at, strict, f.outputs);
        },
        DefinitionView::Event(e) => {
            lemma_in_order_lifts(part, whole, at, e.span);
            lemma_arguments_lift(part, whole, at, strict, e.parameters);
        },
        DefinitionView::Constant(c) => {
            lemma_in_order_lifts(part, whole, at, c.span);
        },
        DefinitionView::Macro(m) => {
            lemma_in_order_lifts(part, whole, at, m.span);
            lemma_arguments_lift(part, whole, at, strict, m.parameters);
            lemma_statements_lift(part, whole, at, strict, m.statements);
        },
        DefinitionView::Table(t) => {
            lemma_in_order_lifts(part, whole, at, t.span);
            lemma_statements_lift(part, whole, at, strict, t.statements);
        },
    }
}

proof fn lemma_contract_lifts(ts: Seq<TokenView>, strict: bool, contract: ContractView)
    requires
        contract_covered(strip(ts), strict, contract),
    ensures
        contract_covered(ts, strict, contract),
{
    let part = strip(ts);
    let at = lemma_strip_embedded(ts);
    assert forall|i: int| 0 <= i < contract.functions.len() implies definition_covered(
        ts,
        strict,
        DefinitionView::Function(#[trigger] contract.functions[i]),
    ) by {
        let d = DefinitionView::Function(contract.functions[i]);
        lemma_definition_lifts(part, ts, at, strict, d);
    }
    assert forall|i: int| 0 <= i < contract.events.len() implies definition_covered(
        ts,
        strict,
        DefinitionView::Event(#[trigger] contract.events[i]),
    ) by {
        lemma_definition_lifts(part, ts, at, strict, DefinitionView::Event(contract.events[i]));
    }
    assert forall|i: int| 0 <= i < contract.constants.len() implies definition_covered(
        ts,
        strict,
        DefinitionView::Constant(#[trigger] contract.constants[i]),
    ) by {
        let d = DefinitionView::Constant(contract.constants[i]);
        lemma_definition_lifts(part, ts, at, strict, d);
    }
    assert forall|i: int| 0 <= i < contract.macros.len() implies definition_covered(
        ts,
        strict,
        DefinitionView::Macro(#[trigger] contract.macros[i]),
    ) by {
        lemma_definition_lifts(part, ts, at, strict, DefinitionView::Macro(contract.macros[i]));
    }
    assert forall|i: int| 0 <= i < contract.tables.len() implies definition_covered(
        ts,
        strict,
        DefinitionView::Table(#[trigger] contract.tables[i]),
    ) by {
        lemma_definition_lifts(part, ts, at, strict, DefinitionView::Table(contract.tables[i]));
    }
}

/// Every node of a contract has spans of tokens of the input, in the order
/// of the source: each definition, each argument and each statement, also
/// those under a label. Each node has one span at least, with one exception:
/// an argument that has neither type nor name, which a comma alone makes in
/// a list of names, has none.
pub proof fn law_span_coverage(
    ts: Seq<TokenView>,
    spans: Seq<Span>,
    base: Option<Seq<char>>,
    files: Seq<Seq<char>>,
)
    requires
        !parse(ts, spans, base, files).failed(),
    ensures
        contract_covered(ts, false, parse(ts, spans, base, files).value()),
{
    lemma_contract_covered(ts, spans, base, files, false);
    lemma_contract_lifts(ts, false, parse(ts, spans, base, files).value());
}

/// Where, blank space and comments aside, no comma of the input stands
/// right behind an opening parenthesis or another comma, every node of a
/// contract has one span at least, and its spans are spans of tokens of the
/// input in the order of the source.
pub proof fn law_span_coverage_without_bare_commas(
    ts: Seq<TokenView>,
    spans: Seq<Span>,
    base: Option<Seq<char>>,
    files: Seq<Seq<char>>,
)
    requires
        !parse(ts, spans, base, files).failed(),
        no_bare_comma(strip(ts)),
    ensures
        contract_covered(ts, true, parse(ts, spans, base, files).value()),
{
    lemma_contract_covered(ts, spans, base, files, true);
    lemma_contract_lifts(ts, true, parse(ts, spans, base, files).value());
}

} // verus!
