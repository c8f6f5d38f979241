//! What holds of every parse: the laws of the parser, each proved from the
//! grammar.

use vstd::prelude::*;
use crate::ast::{
    ArgumentView, DefinitionView, FunctionView, StatementTypeView, StatementView,
    TableDefinitionView, as_constant, as_event, as_function, as_macro, as_table, constants_of,
    events_of, functions_of, macros_of, tables_of,
};
use crate::grammar::{
    Cursor, advance, arg_type, argument, argument_types, arguments, arguments_from,
    body_statements_from, builtin_kind, builtin_statement, definition, expect, function,
    function_name, import, import_targets, import_targets_from, imports_from, is_known_builtin,
    items_from, kind_at, label_statement, label_statements_from, lemma_body_statement_moves_on,
    lemma_definition_moves_on, lemma_plain_statement_moves_on, parse, plain_statement,
    primitive_type, progressed, single_arg, skip, span_at, starts_plain_statement, strip, table,
    table_statements_from, token_statement,
};
use crate::hashing::selector_of;
use crate::sizes::{hex_value, lemma_big_endian_len, size_word_of, table_size_of};
use crate::text::{decimal, signature_text};
use crate::paths::{import_ok, resolved_path};
use crate::span::Span;
use crate::token::{PrimitiveEVMType, TokenKindView, TokenView};

verus! {

/// A token of blank space or comment, put in anywhere, changes nothing of
/// what the parser gives: neither the contract or the error, nor where the
/// parser stops.
pub proof fn law_trivia_inserted(
    ts: Seq<TokenView>,
    i: int,
    t: TokenView,
    spans: Seq<Span>,
    base: Option<Seq<char>>,
    files: Seq<Seq<char>>,
)
    requires
        0 <= i <= ts.len(),
        t.kind.is_trivia(),
    ensures
        strip(ts.insert(i, t)) == strip(ts),
        parse(ts.insert(i, t), spans, base, files) == parse(ts, spans, base, files),
{
    let keep = |t: TokenView| !t.kind.is_trivia();
    let a = ts.subrange(0, i);
    let b = ts.subrange(i, ts.len() as int);
    assert(ts =~= a + b);
    assert(a.push(t).drop_last() =~= a);
    assert(a.push(t).filter(keep) == a.filter(keep)) by {
        reveal(Seq::filter);
    }
    Seq::filter_distributes_over_add(a.push(t), b, keep);
    Seq::filter_distributes_over_add(a, b, keep);
}

/// A token of blank space or comment, taken out anywhere, changes nothing of
/// what the parser gives.
pub proof fn law_trivia_removed(
    ts: Seq<TokenView>,
    i: int,
    spans: Seq<Span>,
    base: Option<Seq<char>>,
    files: Seq<Seq<char>>,
)
    requires
        0 <= i < ts.len(),
        ts[i].kind.is_trivia(),
    ensures
        strip(ts.remove(i)) == strip(ts),
        parse(ts.remove(i), spans, base, files) == parse(ts, spans, base, files),
{
    assert(ts.remove(i).insert(i, ts[i]) =~= ts);
    law_trivia_inserted(ts.remove(i), i, ts[i], spans, base, files);
}

/// Two token sequences that differ only in blank space and comments are
/// parsed alike.
pub proof fn law_trivia_independence(
    ts1: Seq<TokenView>,
    ts2: Seq<TokenView>,
    spans: Seq<Span>,
    base: Option<Seq<char>>,
    files: Seq<Seq<char>>,
)
    requires
        strip(ts1) == strip(ts2),
    ensures
        parse(ts1, spans, base, files) == parse(ts2, spans, base, files),
{
}

/// Whether a type that is no array is one of the EVM: a `uint` or an `int`
/// whose width is a multiple of 8 from 8 to 256, a `bytes` whose length is
/// from 1 to 32, or one of the types without a size.
pub open spec fn valid_primitive(p: PrimitiveEVMType) -> bool {
    match p {
        PrimitiveEVMType::Uint(n) => 8 <= n <= 256 && n % 8 == 0,
        PrimitiveEVMType::Int(n) => 8 <= n <= 256 && n % 8 == 0,
        PrimitiveEVMType::Bytes(n) => 1 <= n <= 32,
        _ => true,
    }
}

/// A type is accepted exactly where it is valid: as the type of an argument,
/// a primitive type that is valid or an array of one, and nothing else.
pub proof fn law_primitive_bounds(ts: Seq<TokenView>, c: Cursor, p: PrimitiveEVMType)
    ensures
        !primitive_type(ts, c, p).failed() <==> valid_primitive(p),
        !arg_type(ts, c).failed() <==> match kind_at(ts, c) {
            TokenKindView::PrimitiveType(q) => valid_primitive(q),
            TokenKindView::ArrayType(q, _) => valid_primitive(q),
            _ => false,
        },
{
}

/// Whether the indices of `idx` grow from each to the next.
pub open spec fn increasing(idx: Seq<int>) -> bool {
    forall|j: int, k: int| 0 <= j < k < idx.len() ==> idx[j] < idx[k]
}

/// Whether `part` holds what `pick` takes from the definitions `all` at the
/// indices `idx`, and these are all the indices at which `pick` takes
/// anything.
pub open spec fn picked_at<T>(
    all: Seq<DefinitionView>,
    part: Seq<T>,
    pick: spec_fn(DefinitionView) -> Option<T>,
    idx: Seq<int>,
) -> bool {
    &&& idx.len() == part.len()
    &&& forall|k: int|
        0 <= k < idx.len() ==> 0 <= #[trigger] idx[k] < all.len() && pick(all[idx[k]]) == Some(
            part[k],
        )
    &&& forall|p: int| 0 <= p < all.len() && pick(#[trigger] all[p]) is Some ==> idx.contains(p)
}

/// Whether `part` holds what `pick` takes from the definitions `all`, all of
/// it and in the order of `all`.
pub open spec fn keeps_order<T>(
    all: Seq<DefinitionView>,
    part: Seq<T>,
    pick: spec_fn(DefinitionView) -> Option<T>,
) -> bool {
    exists|idx: Seq<int>| increasing(idx) && #[trigger] picked_at(all, part, pick, idx)
}

/// Whether `select` goes through a list from its end and keeps what `pick`
/// takes.
pub open spec fn selects<T>(
    select: spec_fn(Seq<DefinitionView>) -> Seq<T>,
    pick: spec_fn(DefinitionView) -> Option<T>,
) -> bool {
    forall|items: Seq<DefinitionView>| #[trigger]
        select(items) == if items.len() == 0 {
            Seq::<T>::empty()
        } else {
            match pick(items.last()) {
                Some(x) => select(items.drop_last()).push(x),
                None => select(items.drop_last()),
            }
        }
}

proof fn lemma_selection_keeps_order<T>(
    all: Seq<DefinitionView>,
    select: spec_fn(Seq<DefinitionView>) -> Seq<T>,
    pick: spec_fn(DefinitionView) -> Option<T>,
)
    requires
        selects(select, pick),
    ensures
        keeps_order(all, select(all), pick),
    decreases all.len(),
{
    if all.len() == 0 {
        let idx = Seq::<int>::empty();
        assert(increasing(idx) && picked_at(all, select(all), pick, idx));
    } else {
        let rest = all.drop_last();
        lemma_selection_keeps_order(rest, select, pick);
        let idx0 = choose|idx: Seq<int>|
            increasing(idx) && #[trigger] picked_at(rest, select(rest), pick, idx);
        let n = all.len() - 1;
        let idx = match pick(all.last()) {
            Some(_) => idx0.push(n),
            None => idx0,
        };
        assert forall|k: int| 0 <= k < idx.len() implies 0 <= #[trigger] idx[k] < all.len()
            && pick(all[idx[k]]) == Some(select(all)[k]) by {
            if k < idx0.len() {
                assert(idx[k] == idx0[k]);
                assert(all[idx0[k]] == rest[idx0[k]]);
            }
        }
        assert forall|p: int|
            0 <= p < all.len() && pick(#[trigger] all[p]) is Some implies idx.contains(p) by {
            if p < n {
                assert(rest[p] == all[p]);
                assert(idx0.contains(p));
                let k = choose|k: int| 0 <= k < idx0.len() && idx0[k] == p;
                assert(idx[k] == p);
            } else {
                assert(idx[idx.len() - 1] == p);
            }
        }
        assert forall|j: int, k: int| 0 <= j < k < idx.len() implies idx[j] < idx[k] by {
            assert(idx0[j] < rest.len());
            if k < idx0.len() {
                assert(idx0[j] < idx0[k]);
            }
        }
        assert(increasing(idx) && picked_at(all, select(all), pick, idx));
    }
}

/// Each list of a contract holds the definitions of its kind, all of them
/// and in the order in which they stand among all the definitions.
pub proof fn law_lists_keep_order(all: Seq<DefinitionView>)
    ensures
        keeps_order(all, functions_of(all), |d: DefinitionView| as_function(d)),
        keeps_order(all, events_of(all), |d: DefinitionView| as_event(d)),
        keeps_order(all, constants_of(all), |d: DefinitionView| as_constant(d)),
        keeps_order(all, macros_of(all), |d: DefinitionView| as_macro(d)),
        keeps_order(all, tables_of(all), |d: DefinitionView| as_table(d)),
{
    let f = |d: DefinitionView| as_function(d);
    let e = |d: DefinitionView| as_event(d);
    let c = |d: DefinitionView| as_constant(d);
    let m = |d: DefinitionView| as_macro(d);
    let t = |d: DefinitionView| as_table(d);
    let fs = |s: Seq<DefinitionView>| functions_of(s);
    let es = |s: Seq<DefinitionView>| events_of(s);
    let cs = |s: Seq<DefinitionView>| constants_of(s);
    let ms = |s: Seq<DefinitionView>| macros_of(s);
    let tbs = |s: Seq<DefinitionView>| tables_of(s);
    assert(selects(fs, f));
    assert(selects(es, e));
    assert(selects(cs, c));
    assert(selects(ms, m));
    assert(selects(tbs, t));
    lemma_selection_keeps_order(all, fs, f);
    lemma_selection_keeps_order(all, es, e);
    lemma_selection_keeps_order(all, cs, c);
    lemma_selection_keeps_order(all, ms, m);
    lemma_selection_keeps_order(all, tbs, t);
}

/// The cursor right behind the `#define` at index `start`, with the span of
/// that token alone in the accumulator: where a definition is read from.
pub open spec fn behind_define(ts: Seq<TokenView>, start: int) -> Cursor {
    Cursor { pos: (start + 1) as nat, spans: seq![ts[start].span] }
}

/// Whether the definitions `defs` are those that stand at the indices
/// `starts` of the tokens: at each index stands `#define`, and the
/// definition is what the grammar reads behind it.
pub open spec fn defined_at(
    ts: Seq<TokenView>,
    defs: Seq<DefinitionView>,
    starts: Seq<int>,
) -> bool {
    &&& starts.len() == defs.len()
    &&& forall|k: int|
        0 <= k < starts.len() ==> {
            &&& 0 <= #[trigger] starts[k] < ts.len()
            &&& ts[starts[k]].kind is Define
            &&& definition(ts, behind_define(ts, starts[k])).out == Ok::<
                DefinitionView,
                crate::error::ParserErrorView,
            >(defs[k])
        }
}

/// The definitions that the grammar reads from `c` on stand behind those of
/// `acc` at indices that grow: the list is in the order of the source.
pub proof fn lemma_items_in_source_order(
    ts: Seq<TokenView>,
    c: Cursor,
    acc: Seq<DefinitionView>,
    starts: Seq<int>,
) -> (all: Seq<int>)
    requires
        defined_at(ts, acc, starts),
        increasing(starts),
        forall|k: int| 0 <= k < starts.len() ==> starts[k] < c.pos,
        !items_from(ts, c, acc).failed(),
    ensures
        defined_at(ts, items_from(ts, c, acc).value(), all),
        increasing(all),
    decreases ts.len() - c.pos,
{
    if kind_at(ts, c) is Eof {
        starts
    } else {
        let start = expect(ts, Cursor { pos: c.pos, spans: Seq::empty() }, TokenKindView::Define);
        let item = definition(ts, start.next);
        lemma_definition_moves_on(ts, start.next);
        assert(start.next.spans =~= seq![ts[c.pos as int].span]);
        assert(start.next == behind_define(ts, c.pos as int));
        let next_starts = starts.push(c.pos as int);
        let next_acc = acc.push(item.value());
        assert forall|k: int| 0 <= k < next_starts.len() implies {
            &&& 0 <= #[trigger] next_starts[k] < ts.len()
            &&& ts[next_starts[k]].kind is Define
            &&& definition(ts, behind_define(ts, next_starts[k])).out == Ok::<
                DefinitionView,
                crate::error::ParserErrorView,
            >(next_acc[k])
        } by {
            if k < starts.len() {
                assert(next_starts[k] == starts[k]);
            }
        }
        assert forall|j: int, k: int| 0 <= j < k < next_starts.len() implies next_starts[j]
            < next_starts[k] by {
            assert(next_starts[j] == starts[j]);
            if k < starts.len() {
                assert(next_starts[k] == starts[k]);
            }
        }
        assert forall|k: int| 0 <= k < next_starts.len() implies next_starts[k] < item.next.pos by {
            if k < starts.len() {
                assert(next_starts[k] == starts[k]);
            }
        }
        lemma_items_in_source_order(ts, item.next, next_acc, next_starts)
    }
}

/// Whether at index `i` of the tokens stand `#include` and a path in quotes
/// that resolves to `path`.
pub open spec fn include_at(
    ts: Seq<TokenView>,
    base: Option<Seq<char>>,
    path: Seq<char>,
    i: int,
) -> bool {
    &&& 0 <= i && i + 1 < ts.len()
    &&& ts[i].kind is Include
    &&& ts[i + 1].kind is Str
    &&& path == resolved_path(base, ts[i + 1].kind->Str_0)
}

/// Whether the paths of `imports` are those of the `#include`s that stand
/// one behind the other from index `first` on, two tokens each.
pub open spec fn included_at(
    ts: Seq<TokenView>,
    base: Option<Seq<char>>,
    imports: Seq<Seq<char>>,
    first: int,
) -> bool {
    forall|k: int|
        0 <= k < imports.len() ==> #[trigger] include_at(ts, base, imports[k], first + 2 * k)
}

/// The imports that the grammar reads from `c` on, behind those of `acc`:
/// each is the resolved path of one `#include`, and they stand in the order
/// of these in the source, two tokens each.
pub proof fn lemma_imports_in_source_order(
    ts: Seq<TokenView>,
    c: Cursor,
    base: Option<Seq<char>>,
    files: Seq<Seq<char>>,
    acc: Seq<Seq<char>>,
    first: int,
)
    requires
        0 <= first,
        c.pos == first + 2 * acc.len(),
        included_at(ts, base, acc, first),
        !imports_from(ts, c, base, files, acc).failed(),
    ensures
        included_at(ts, base, imports_from(ts, c, base, files, acc).value(), first),
    decreases ts.len() - c.pos,
{
    if !(kind_at(ts, c) is Eof || kind_at(ts, c) is Define) {
        let path = import(ts, c, base, files);
        let next = acc.push(path.value());
        assert forall|k: int| 0 <= k < next.len() implies #[trigger] include_at(
            ts,
            base,
            next[k],
            first + 2 * k,
        ) by {
            if k < acc.len() {
                assert(next[k] == acc[k]);
                assert(include_at(ts, base, acc[k], first + 2 * k));
            }
        }
        lemma_imports_in_source_order(ts, path.next, base, files, next, first);
    }
}

/// A contract keeps the order of the source. Its imports are the resolved
/// paths of the `#include`s at the head of the file, in their order. Its
/// definitions stand behind `#define`s at indices that grow, and each list
/// of the contract holds the definitions of its kind in that order.
pub proof fn law_declaration_order(
    ts: Seq<TokenView>,
    spans: Seq<Span>,
    base: Option<Seq<char>>,
    files: Seq<Seq<char>>,
) -> (starts: Seq<int>)
    requires
        !parse(ts, spans, base, files).failed(),
    ensures
        ({
            let tokens = strip(ts);
            let contract = parse(ts, spans, base, files).value();
            let first = Cursor { pos: 0, spans };
            let included = imports_from(tokens, first, base, files, Seq::empty());
            let defs = items_from(tokens, included.next, Seq::empty()).value();
            &&& included_at(tokens, base, contract.imports, 0)
            &&& increasing(starts)
            &&& defined_at(tokens, defs, starts)
            &&& keeps_order(defs, contract.functions, |d: DefinitionView| as_function(d))
            &&& keeps_order(defs, contract.events, |d: DefinitionView| as_event(d))
            &&& keeps_order(defs, contract.constants, |d: DefinitionView| as_constant(d))
            &&& keeps_order(defs, contract.macros, |d: DefinitionView| as_macro(d))
            &&& keeps_order(defs, contract.tables, |d: DefinitionView| as_table(d))
        }),
{
    let tokens = strip(ts);
    let first = Cursor { pos: 0, spans };
    let included = imports_from(tokens, first, base, files, Seq::empty());
    lemma_imports_in_source_order(tokens, first, base, files, Seq::empty(), 0);
    let starts = lemma_items_in_source_order(tokens, included.next, Seq::empty(), Seq::empty());
    law_lists_keep_order(items_from(tokens, included.next, Seq::empty()).value());
    starts
}

/// What holds of every definition that the grammar reads holds of each
/// definition of a file.
proof fn lemma_each_definition(
    ts: Seq<TokenView>,
    c: Cursor,
    acc: Seq<DefinitionView>,
    good: spec_fn(DefinitionView) -> bool,
)
    requires
        forall|i: int| 0 <= i < acc.len() ==> good(#[trigger] acc[i]),
        forall|at: Cursor|
            !(#[trigger] definition(ts, at)).failed() ==> good(definition(ts, at).value()),
        !items_from(ts, c, acc).failed(),
    ensures
        forall|i: int|
            0 <= i < items_from(ts, c, acc).value().len() ==> good(
                #[trigger] items_from(ts, c, acc).value()[i],
            ),
    decreases ts.len() - c.pos,
{
    if !(kind_at(ts, c) is Eof) {
        let start = expect(ts, Cursor { pos: c.pos, spans: Seq::empty() }, TokenKindView::Define);
        let item = definition(ts, start.next);
        lemma_definition_moves_on(ts, start.next);
        let next = acc.push(item.value());
        assert forall|i: int| 0 <= i < next.len() implies good(#[trigger] next[i]) by {
            if i < acc.len() {
                assert(next[i] == acc[i]);
            }
        }
        lemma_each_definition(ts, item.next, next, good);
    }
}

/// What holds of each definition of a file holds of each definition in the
/// lists of its contract.
pub proof fn lemma_lists_hold(defs: Seq<DefinitionView>, good: spec_fn(DefinitionView) -> bool)
    requires
        forall|k: int| 0 <= k < defs.len() ==> good(#[trigger] defs[k]),
    ensures
        forall|i: int|
            0 <= i < functions_of(defs).len() ==> good(
                DefinitionView::Function(#[trigger] functions_of(defs)[i]),
            ),
        forall|i: int|
            0 <= i < events_of(defs).len() ==> good(
                DefinitionView::Event(#[trigger] events_of(defs)[i]),
            ),
        forall|i: int|
            0 <= i < constants_of(defs).len() ==> good(
                DefinitionView::Constant(#[trigger] constants_of(defs)[i]),
            ),
        forall|i: int|
            0 <= i < macros_of(defs).len() ==> good(
                DefinitionView::Macro(#[trigger] macros_of(defs)[i]),
            ),
        forall|i: int|
            0 <= i < tables_of(defs).len() ==> good(
                DefinitionView::Table(#[trigger] tables_of(defs)[i]),
            ),
{
    law_lists_keep_order(defs);
    let f = |d: DefinitionView| as_function(d);
    let e = |d: DefinitionView| as_event(d);
    let c = |d: DefinitionView| as_constant(d);
    let m = |d: DefinitionView| as_macro(d);
    let t = |d: DefinitionView| as_table(d);
    let fi = choose|idx: Seq<int>|
        increasing(idx) && #[trigger] picked_at(defs, functions_of(defs), f, idx);
    let ei = choose|idx: Seq<int>|
        increasing(idx) && #[trigger] picked_at(defs, events_of(defs), e, idx);
    let ci = choose|idx: Seq<int>|
        increasing(idx) && #[trigger] picked_at(defs, constants_of(defs), c, idx);
    let mi = choose|idx: Seq<int>|
        increasing(idx) && #[trigger] picked_at(defs, macros_of(defs), m, idx);
    let ti = choose|idx: Seq<int>|
        increasing(idx) && #[trigger] picked_at(defs, tables_of(defs), t, idx);
    assert forall|i: int| 0 <= i < functions_of(defs).len() implies good(
        DefinitionView::Function(#[trigger] functions_of(defs)[i]),
    ) by {
        assert(f(defs[fi[i]]) == Some(functions_of(defs)[i]));
        assert(good(defs[fi[i]]));
    }
    assert forall|i: int| 0 <= i < events_of(defs).len() implies good(
        DefinitionView::Event(#[trigger] events_of(defs)[i]),
    ) by {
        assert(e(defs[ei[i]]) == Some(events_of(defs)[i]));
        assert(good(defs[ei[i]]));
    }
    assert forall|i: int| 0 <= i < constants_of(defs).len() implies good(
        DefinitionView::Constant(#[trigger] constants_of(defs)[i]),
    ) by {
        assert(c(defs[ci[i]]) == Some(constants_of(defs)[i]));
        assert(good(defs[ci[i]]));
    }
    assert forall|i: int| 0 <= i < macros_of(defs).len() implies good(
        DefinitionView::Macro(#[trigger] macros_of(defs)[i]),
    ) by {
        assert(m(defs[mi[i]]) == Some(macros_of(defs)[i]));
        assert(good(defs[mi[i]]));
    }
    assert forall|i: int| 0 <= i < tables_of(defs).len() implies good(
        DefinitionView::Table(#[trigger] tables_of(defs)[i]),
    ) by {
        assert(t(defs[ti[i]]) == Some(tables_of(defs)[i]));
        assert(good(defs[ti[i]]));
    }
}

/// What holds of every definition that the grammar reads holds of each
/// definition in the lists of a contract.
proof fn lemma_each_of_contract(
    ts: Seq<TokenView>,
    spans: Seq<Span>,
    base: Option<Seq<char>>,
    files: Seq<Seq<char>>,
    good: spec_fn(DefinitionView) -> bool,
)
    requires
        forall|at: Cursor|
            !(#[trigger] definition(strip(ts), at)).failed() ==> good(
                definition(strip(ts), at).value(),
            ),
        !parse(ts, spans, base, files).failed(),
    ensures
        ({
            let contract = parse(ts, spans, base, files).value();
            &&& forall|i: int|
                0 <= i < contract.functions.len() ==> good(
                    DefinitionView::Function(#[trigger] contract.functions[i]),
                )
            &&& forall|i: int|
                0 <= i < contract.events.len() ==> good(
                    DefinitionView::Event(#[trigger] contract.events[i]),
                )
            &&& forall|i: int|
                0 <= i < contract.constants.len() ==> good(
                    DefinitionView::Constant(#[trigger] contract.constants[i]),
                )
            &&& forall|i: int|
                0 <= i < contract.macros.len() ==> good(
                    DefinitionView::Macro(#[trigger] contract.macros[i]),
                )
            &&& forall|i: int|
                0 <= i < contract.tables.len() ==> good(
                    DefinitionView::Table(#[trigger] contract.tables[i]),
                )
        }),
{
    let tokens = strip(ts);
    let included = imports_from(tokens, Cursor { pos: 0, spans }, base, files, Seq::empty());
    let defs = items_from(tokens, included.next, Seq::empty()).value();
    lemma_each_definition(tokens, included.next, Seq::empty(), good);
    lemma_lists_hold(defs, good);
}

/// Whether the selector of a function is the first four bytes of the
/// Keccak-256 hash of its signature: its name and, in parentheses and with
/// commas between them, the types of its inputs.
pub open spec fn has_selector(f: FunctionView) -> bool {
    f.signature == selector_of(f.name, argument_types(f.inputs))
}

/// The signature of a function without inputs is its name and `()`.
pub proof fn law_signature_without_inputs(name: Seq<char>)
    ensures
        signature_text(name, Seq::empty()) == name + "()"@,
{
    reveal_strlit("(");
    reveal_strlit(")");
    reveal_strlit("()");
    assert(signature_text(name, Seq::empty()) =~= name + "()"@);
}

/// Every function that the grammar reads has the selector of its signature.
pub proof fn law_selector_of_function(ts: Seq<TokenView>, c: Cursor)
    ensures
        !function(ts, c).failed() ==> has_selector(function(ts, c).value()),
{
}

/// Every function of a contract has the selector of its signature.
pub proof fn law_selector(
    ts: Seq<TokenView>,
    spans: Seq<Span>,
    base: Option<Seq<char>>,
    files: Seq<Seq<char>>,
)
    requires
        !parse(ts, spans, base, files).failed(),
    ensures
        forall|i: int|
            0 <= i < parse(ts, spans, base, files).value().functions.len() ==> has_selector(
                #[trigger] parse(ts, spans, base, files).value().functions[i],
            ),
{
    let good = |d: DefinitionView|
        match d {
            DefinitionView::Function(f) => has_selector(f),
            _ => true,
        };
    assert forall|at: Cursor| !(#[trigger] definition(strip(ts), at)).failed() implies good(
        definition(strip(ts), at).value(),
    ) by {
        reveal(definition);
        law_selector_of_function(strip(ts), at);
    }
    lemma_each_of_contract(ts, spans, base, files, good);
    let contract = parse(ts, spans, base, files).value();
    assert forall|i: int| 0 <= i < contract.functions.len() implies has_selector(
        #[trigger] contract.functions[i],
    ) by {
        assert(good(DefinitionView::Function(contract.functions[i])));
    }
}

/// Whether the size word of a table is 32 bytes long and holds the size that
/// the kind and the entries give: 32 bytes for each entry of a jump table, 2
/// for each entry of a packed one, and for a table of code half the number
/// of bytes of the names in it.
pub open spec fn has_size(t: TableDefinitionView) -> bool {
    &&& t.size.len() == 32
    &&& t.size == size_word_of(table_size_of(t.kind, t.statements))
}

/// Every table that the grammar reads has the size word of its entries.
pub proof fn law_size_of_table(ts: Seq<TokenView>, c: Cursor)
    ensures
        !table(ts, c).failed() ==> has_size(table(ts, c).value()),
{
    if !table(ts, c).failed() {
        let t = table(ts, c).value();
        lemma_big_endian_len(hex_value(decimal(table_size_of(t.kind, t.statements))), 32);
    }
}

/// Every table of a contract has the size word of its entries.
pub proof fn law_table_size(
    ts: Seq<TokenView>,
    spans: Seq<Span>,
    base: Option<Seq<char>>,
    files: Seq<Seq<char>>,
)
    requires
        !parse(ts, spans, base, files).failed(),
    ensures
        forall|i: int|
            0 <= i < parse(ts, spans, base, files).value().tables.len() ==> has_size(
                #[trigger] parse(ts, spans, base, files).value().tables[i],
            ),
{
    let good = |d: DefinitionView|
        match d {
            DefinitionView::Table(t) => has_size(t),
            _ => true,
        };
    assert forall|at: Cursor| !(#[trigger] definition(strip(ts), at)).failed() implies good(
        definition(strip(ts), at).value(),
    ) by {
        reveal(definition);
        law_size_of_table(strip(ts), at);
    }
    lemma_each_of_contract(ts, spans, base, files, good);
    let contract = parse(ts, spans, base, files).value();
    assert forall|i: int| 0 <= i < contract.tables.len() implies has_size(
        #[trigger] contract.tables[i],
    ) by {
        assert(good(DefinitionView::Table(contract.tables[i])));
    }
}

/// Whether no argument of a list is marked `indexed`.
pub open spec fn unindexed(args: Seq<ArgumentView>) -> bool {
    forall|i: int| 0 <= i < args.len() ==> !(#[trigger] args[i]).indexed
}

/// Whether no argument in a statement is marked `indexed`: none of a call of
/// a built-in function, and none in the statements under a label.
pub open spec fn statement_unindexed(s: StatementView) -> bool
    decreases s,
{
    match s.ty {
        StatementTypeView::BuiltinFunctionCall(b) => unindexed(b.args),
        StatementTypeView::Label(l) => forall|i: int|
            0 <= i < l.inner.len() ==> statement_unindexed(#[trigger] l.inner[i]),
        _ => true,
    }
}

/// Whether no argument in the statements of a list is marked `indexed`.
pub open spec fn statements_unindexed(body: Seq<StatementView>) -> bool {
    forall|i: int| 0 <= i < body.len() ==> statement_unindexed(#[trigger] body[i])
}

/// Whether no argument of a definition is marked `indexed`, unless it is a
/// parameter of an event.
pub open spec fn indexed_only_in_events(d: DefinitionView) -> bool {
    match d {
        DefinitionView::Function(f) => unindexed(f.inputs) && unindexed(f.outputs),
        DefinitionView::Macro(m) => unindexed(m.parameters) && statements_unindexed(m.statements),
        DefinitionView::Table(t) => statements_unindexed(t.statements),
        _ => true,
    }
}

/// A list of arguments that is read without `has_indexed` marks none of them
/// `indexed`.
pub proof fn law_arguments_unindexed(
    ts: Seq<TokenView>,
    c: Cursor,
    select_name: bool,
    select_type: bool,
)
    ensures
        !arguments(ts, c, select_name, select_type, false).failed() ==> unindexed(
            arguments(ts, c, select_name, select_type, false).value(),
        ),
{
    let open = expect(ts, c, TokenKindView::OpenParen);
    if !open.failed() {
        lemma_arguments_from_unindexed(ts, open.next, select_name, select_type, Seq::empty());
    }
}

proof fn lemma_arguments_from_unindexed(
    ts: Seq<TokenView>,
    c: Cursor,
    select_name: bool,
    select_type: bool,
    acc: Seq<ArgumentView>,
)
    requires
        unindexed(acc),
    ensures
        !arguments_from(ts, c, select_name, select_type, false, acc).failed() ==> unindexed(
            arguments_from(ts, c, select_name, select_type, false, acc).value(),
        ),
    decreases ts.len() - c.pos,
{
    if !(kind_at(ts, c) is CloseParen) {
        let arg = argument(ts, c, select_name, select_type, false);
        if !arg.failed() && progressed(ts, c, arg.next) {
            let next = acc.push(arg.value());
            assert forall|i: int| 0 <= i < next.len() implies !(#[trigger] next[i]).indexed by {
                if i < acc.len() {
                    assert(next[i] == acc[i]);
                }
            }
            lemma_arguments_from_unindexed(ts, arg.next, select_name, select_type, next);
        }
    }
}

proof fn lemma_label_statements_unindexed(ts: Seq<TokenView>, c: Cursor, acc: Seq<StatementView>)
    requires
        statements_unindexed(acc),
    ensures
        !label_statements_from(ts, c, acc).failed() ==> statements_unindexed(
            label_statements_from(ts, c, acc).value(),
        ),
    decreases ts.len() - c.pos,
{
    let kind = kind_at(ts, c);
    if !(kind is Label || kind is CloseBrace) && starts_plain_statement(kind) {
        lemma_plain_statement_moves_on(ts, c);
        let st = plain_statement(ts, c);
        if !st.failed() {
            let next = acc.push(st.value());
            assert forall|i: int| 0 <= i < next.len() implies statement_unindexed(
                #[trigger] next[i],
            ) by {
                if i < acc.len() {
                    assert(next[i] == acc[i]);
                }
            }
            lemma_label_statements_unindexed(ts, st.next, next);
        }
    }
}

proof fn lemma_body_statements_unindexed(ts: Seq<TokenView>, c: Cursor, acc: Seq<StatementView>)
    requires
        statements_unindexed(acc),
    ensures
        !body_statements_from(ts, c, acc).failed() ==> statements_unindexed(
            body_statements_from(ts, c, acc).value(),
        ),
    decreases ts.len() - c.pos,
{
    let kind = kind_at(ts, c);
    if !(kind is CloseBrace) && (starts_plain_statement(kind) || kind is Label || is_known_builtin(
        kind,
    )) {
        if starts_plain_statement(kind) {
            lemma_plain_statement_moves_on(ts, c);
        }
        lemma_body_statement_moves_on(ts, c);
        let st = if starts_plain_statement(kind) {
            plain_statement(ts, c)
        } else if kind is Label {
            label_statement(ts, c)
        } else {
            builtin_statement(ts, c, builtin_kind(kind->BuiltinFunction_0)->Some_0)
        };
        if !st.failed() {
            if kind is Label && !starts_plain_statement(kind) {
                let colon = expect(ts, advance(ts, c), TokenKindView::Colon);
                lemma_label_statements_unindexed(ts, colon.next, Seq::empty());
            }
            if !starts_plain_statement(kind) && !(kind is Label) {
                law_arguments_unindexed(ts, advance(ts, c), true, false);
            }
            assert(statement_unindexed(st.value()));
            let next = acc.push(st.value());
            assert forall|i: int| 0 <= i < next.len() implies statement_unindexed(
                #[trigger] next[i],
            ) by {
                if i < acc.len() {
                    assert(next[i] == acc[i]);
                }
            }
            lemma_body_statements_unindexed(ts, st.next, next);
        }
    }
}

proof fn lemma_table_statements_unindexed(ts: Seq<TokenView>, c: Cursor, acc: Seq<StatementView>)
    requires
        statements_unindexed(acc),
    ensures
        !table_statements_from(ts, c, acc).failed() ==> statements_unindexed(
            table_statements_from(ts, c, acc).value(),
        ),
    decreases ts.len() - c.pos,
{
    if kind_at(ts, c) is Ident {
        let st = token_statement(
            StatementTypeView::LabelCall(kind_at(ts, c)->Ident_0),
            span_at(ts, c),
        );
        let next = acc.push(st);
        assert forall|i: int| 0 <= i < next.len() implies statement_unindexed(
            #[trigger] next[i],
        ) by {
            if i < acc.len() {
                assert(next[i] == acc[i]);
            }
        }
        lemma_table_statements_unindexed(ts, advance(ts, c), next);
    }
}

/// In every definition that the grammar reads, no argument is marked
/// `indexed` unless it is a parameter of an event.
pub proof fn law_indexed_only_in_events(ts: Seq<TokenView>, c: Cursor)
    ensures
        !definition(ts, c).failed() ==> indexed_only_in_events(definition(ts, c).value()),
{
    reveal(definition);
    if !definition(ts, c).failed() {
        match kind_at(ts, c) {
            TokenKindView::Function => {
                let name = function_name(ts, c);
                law_arguments_unindexed(ts, name.next, true, true);
                let inputs = arguments(ts, name.next, true, true, false);
                let word = expect(ts, advance(ts, inputs.next), TokenKindView::Returns);
                law_arguments_unindexed(ts, word.next, true, true);
            },
            TokenKindView::Macro => {
                let word = expect(ts, c, TokenKindView::Macro);
                let name = expect(ts, word.next, TokenKindView::Ident("MACRO_NAME"@));
                law_arguments_unindexed(ts, name.next, true, false);
                let parameters = arguments(ts, name.next, true, false, false);
                let assign = expect(ts, parameters.next, TokenKindView::Assign);
                let takes_word = expect(ts, assign.next, TokenKindView::Takes);
                let takes = single_arg(ts, takes_word.next);
                let gives_word = expect(ts, takes.next, TokenKindView::Returns);
                let gives = single_arg(ts, gives_word.next);
                let open = expect(ts, gives.next, TokenKindView::OpenBrace);
                lemma_body_statements_unindexed(ts, open.next, Seq::empty());
            },
            TokenKindView::JumpTable
            | TokenKindView::JumpTablePacked
            | TokenKindView::CodeTable => {
                let name = expect(ts, advance(ts, c), TokenKindView::Ident("TABLE_NAME"@));
                let c1 = skip(ts, name.next, TokenKindView::OpenParen);
                let c2 = skip(ts, c1, TokenKindView::CloseParen);
                let c3 = skip(ts, c2, TokenKindView::Assign);
                let open = expect(ts, c3, TokenKindView::OpenBrace);
                lemma_table_statements_unindexed(ts, open.next, Seq::empty());
            },
            _ => {},
        }
    }
}

/// In a contract no argument is marked `indexed` unless it is a parameter of
/// an event: none of a function's inputs and outputs, none of a macro's
/// parameters, and none of a call of a built-in function in a body.
pub proof fn law_indexed_scoping(
    ts: Seq<TokenView>,
    spans: Seq<Span>,
    base: Option<Seq<char>>,
    files: Seq<Seq<char>>,
)
    requires
        !parse(ts, spans, base, files).failed(),
    ensures
        ({
            let contract = parse(ts, spans, base, files).value();
            &&& forall|i: int|
                0 <= i < contract.functions.len() ==> unindexed(
                    (#[trigger] contract.functions[i]).inputs,
                ) && unindexed(contract.functions[i].outputs)
            &&& forall|i: int|
                0 <= i < contract.macros.len() ==> unindexed(
                    (#[trigger] contract.macros[i]).parameters,
                ) && statements_unindexed(contract.macros[i].statements)
            &&& forall|i: int|
                0 <= i < contract.tables.len() ==> statements_unindexed(
                    (#[trigger] contract.tables[i]).statements,
                )
        }),
{
    let good = |d: DefinitionView| indexed_only_in_events(d);
    assert forall|at: Cursor| !(#[trigger] definition(strip(ts), at)).failed() implies good(
        definition(strip(ts), at).value(),
    ) by {
        law_indexed_only_in_events(strip(ts), at);
    }
    lemma_each_of_contract(ts, spans, base, files, good);
    let contract = parse(ts, spans, base, files).value();
    assert forall|i: int| 0 <= i < contract.functions.len() implies unindexed(
        (#[trigger] contract.functions[i]).inputs,
    ) && unindexed(contract.functions[i].outputs) by {
        assert(good(DefinitionView::Function(contract.functions[i])));
    }
    assert forall|i: int| 0 <= i < contract.macros.len() implies unindexed(
        (#[trigger] contract.macros[i]).parameters,
    ) && statements_unindexed(contract.macros[i].statements) by {
        assert(good(DefinitionView::Macro(contract.macros[i])));
    }
    assert forall|i: int| 0 <= i < contract.tables.len() implies statements_unindexed(
        (#[trigger] contract.tables[i]).statements,
    ) by {
        assert(good(DefinitionView::Table(contract.tables[i])));
    }
}

proof fn lemma_targets_keep(
    ts: Seq<TokenView>,
    pos: nat,
    base: Option<Seq<char>>,
    acc: Seq<Seq<char>>,
    i: int,
)
    requires
        0 <= i < acc.len(),
    ensures
        import_targets_from(ts, pos, base, acc).contains(acc[i]),
    decreases ts.len() - pos,
{
    if pos + 1 < ts.len() && ts[pos as int].kind is Include && ts[pos + 1 as int].kind is Str {
        let next = acc.push(resolved_path(base, ts[pos + 1 as int].kind->Str_0));
        assert(next[i] == acc[i]);
        lemma_targets_keep(ts, pos + 2, base, next, i);
    }
}

proof fn lemma_imports_depend_on_targets(
    ts: Seq<TokenView>,
    c: Cursor,
    base: Option<Seq<char>>,
    files1: Seq<Seq<char>>,
    files2: Seq<Seq<char>>,
    acc: Seq<Seq<char>>,
    seen: Seq<Seq<char>>,
)
    requires
        forall|p: Seq<char>| #[trigger]
            import_targets_from(ts, c.pos, base, seen).contains(p) ==> (files1.contains(p)
                <==> files2.contains(p)),
    ensures
        imports_from(ts, c, base, files1, acc) == imports_from(ts, c, base, files2, acc),
    decreases ts.len() - c.pos,
{
    if !(kind_at(ts, c) is Eof || kind_at(ts, c) is Define) {
        let word = expect(ts, c, TokenKindView::Include);
        if !word.failed() && kind_at(ts, word.next) is Str {
            let path = resolved_path(base, kind_at(ts, word.next)->Str_0);
            let next_seen = seen.push(path);
            lemma_targets_keep(ts, c.pos + 2, base, next_seen, seen.len() as int);
            assert(import_targets_from(ts, c.pos, base, seen).contains(path));
            if import_ok(path, files1) {
                lemma_imports_depend_on_targets(
                    ts,
                    advance(ts, word.next),
                    base,
                    files1,
                    files2,
                    acc.push(path),
                    next_seen,
                );
            }
        }
    }
}

/// What a parse gives depends on the regular files only through the paths
/// that its imports stand for: two lists of files that agree on each of
/// these paths give the same.
pub proof fn law_files_matter_through_targets(
    ts: Seq<TokenView>,
    spans: Seq<Span>,
    base: Option<Seq<char>>,
    files1: Seq<Seq<char>>,
    files2: Seq<Seq<char>>,
)
    requires
        forall|p: Seq<char>| #[trigger]
            import_targets(ts, base).contains(p) ==> (files1.contains(p) <==> files2.contains(p)),
    ensures
        parse(ts, spans, base, files1) == parse(ts, spans, base, files2),
{
    assert forall|p: Seq<char>| #[trigger]
        import_targets_from(strip(ts), 0, base, Seq::empty()).contains(p) implies (
    files1.contains(p) <==> files2.contains(p)) by {
        assert(import_targets(ts, base).contains(p));
    }
    lemma_imports_depend_on_targets(
        strip(ts),
        Cursor { pos: 0, spans },
        base,
        files1,
        files2,
        Seq::empty(),
        Seq::empty(),
    );
}

} // verus!
