//! The syntax tree of a Huff source file.

use vstd::prelude::*;
use crate::span::{AstSpan, Span};
use huff_utils::evm::Opcode;

verus! {

/// Who may call a function and what it may touch.
#[derive(Clone, Copy, Debug, PartialEq, Eq, Structural)]
pub enum FunctionType {
    /// `view`
    View,
    /// `payable`
    Payable,
    /// `nonpayable`
    NonPayable,
    /// `pure`
    Pure,
}

/// The three forms of a table.
#[derive(Clone, Copy, Debug, PartialEq, Eq, Structural)]
pub enum TableKind {
    /// `jumptable`: one 32-byte word for each label
    JumpTable,
    /// `jumptable__packed`: two bytes for each label
    JumpTablePacked,
    /// `table`: raw code
    CodeTable,
}

/// The built-in functions that a macro body may call.
#[derive(Clone, Copy, Debug, PartialEq, Eq, Structural)]
pub enum BuiltinFunctionKind {
    /// `__tablesize`
    Tablesize,
    /// `__codesize`
    Codesize,
    /// `__tablestart`
    Tablestart,
}

/// The placeholder for a storage slot that is chosen later.
#[derive(Clone, Copy, Debug, PartialEq, Eq, Structural)]
pub struct FreeStoragePointer;

/// The path of an imported file, after it was resolved and checked.
#[derive(Clone, Debug, PartialEq, Eq)]
pub struct FilePath(pub String);

impl View for FilePath {
    type V = Seq<char>;

    open spec fn view(&self) -> Seq<char> {
        self.0@
    }
}

/// The view of an optional string.
pub open spec fn opt_text(s: Option<String>) -> Option<Seq<char>> {
    match s {
        Some(t) => Some(t@),
        None => None,
    }
}

/// An argument of a function, an event, a macro or a built-in call.
#[derive(Clone, Debug, PartialEq, Eq)]
pub struct Argument {
    /// Its type, as it is written in a signature
    pub arg_type: Option<String>,
    /// Its name
    pub name: Option<String>,
    /// Whether it is marked `indexed`
    pub indexed: bool,
    /// The tokens it was read from
    pub span: AstSpan,
}

/// The mathematical value of an [`Argument`].
pub ghost struct ArgumentView {
    pub arg_type: Option<Seq<char>>,
    pub name: Option<Seq<char>>,
    pub indexed: bool,
    pub span: Seq<Span>,
}

impl View for Argument {
    type V = ArgumentView;

    open spec fn view(&self) -> ArgumentView {
        ArgumentView {
            arg_type: opt_text(self.arg_type),
            name: opt_text(self.name),
            indexed: self.indexed,
            span: self.span@,
        }
    }
}

/// The values of the arguments of a list, in order.
pub open spec fn arguments_view(args: Seq<Argument>) -> Seq<ArgumentView> {
    args.map_values(|a: Argument| a@)
}

/// The declaration of a function of the contract's interface.
#[derive(Clone, Debug, PartialEq, Eq)]
pub struct Function {
    /// Its name
    pub name: String,
    /// Its selector
    pub signature: [u8; 4],
    /// Its parameters
    pub inputs: Vec<Argument>,
    /// Its mutability
    pub fn_type: FunctionType,
    /// Its results
    pub outputs: Vec<Argument>,
    /// The tokens it was read from
    pub span: AstSpan,
}

/// The mathematical value of a [`Function`].
pub ghost struct FunctionView {
    pub name: Seq<char>,
    pub signature: Seq<u8>,
    pub inputs: Seq<ArgumentView>,
    pub fn_type: FunctionType,
    pub outputs: Seq<ArgumentView>,
    pub span: Seq<Span>,
}

impl View for Function {
    type V = FunctionView;

    open spec fn view(&self) -> FunctionView {
        FunctionView {
            name: self.name@,
            signature: self.signature@,
            inputs: arguments_view(self.inputs@),
            fn_type: self.fn_type,
            outputs: arguments_view(self.outputs@),
            span: self.span@,
        }
    }
}

/// The declaration of an event.
#[derive(Clone, Debug, PartialEq, Eq)]
pub struct Event {
    /// Its name
    pub name: String,
    /// Its parameters
    pub parameters: Vec<Argument>,
    /// The tokens it was read from
    pub span: AstSpan,
}

/// The mathematical value of an [`Event`].
pub ghost struct EventView {
    pub name: Seq<char>,
    pub parameters: Seq<ArgumentView>,
    pub span: Seq<Span>,
}

impl View for Event {
    type V = EventView;

    open spec fn view(&self) -> EventView {
        EventView {
            name: self.name@,
            parameters: arguments_view(self.parameters@),
            span: self.span@,
        }
    }
}

/// What a constant stands for.
#[derive(Clone, Debug, PartialEq, Eq)]
pub enum ConstVal {
    /// A 32-byte value
    Literal([u8; 32]),
    /// A storage slot that is chosen later
    FreeStoragePointer(FreeStoragePointer),
}

/// The definition of a constant.
#[derive(Clone, Debug, PartialEq, Eq)]
pub struct ConstantDefinition {
    /// Its name
    pub name: String,
    /// Its value
    pub value: ConstVal,
    /// The tokens it was read from
    pub span: AstSpan,
}

/// The mathematical value of a [`ConstantDefinition`].
pub ghost struct ConstantDefinitionView {
    pub name: Seq<char>,
    pub value: ConstVal,
    pub span: Seq<Span>,
}

impl View for ConstantDefinition {
    type V = ConstantDefinitionView;

    open spec fn view(&self) -> ConstantDefinitionView {
        ConstantDefinitionView { name: self.name@, value: self.value, span: self.span@ }
    }
}

/// An argument of a macro invocation.
#[derive(Clone, Debug, PartialEq, Eq)]
pub enum MacroArg {
    /// A 32-byte value
    Literal([u8; 32]),
    /// A name: a label or a macro
    Ident(String),
    /// A parameter of the enclosing macro, handed on
    ArgCall(String),
}

/// The mathematical value of a [`MacroArg`].
pub ghost enum MacroArgView {
    Literal([u8; 32]),
    Ident(Seq<char>),
    ArgCall(Seq<char>),
}

impl View for MacroArg {
    type V = MacroArgView;

    open spec fn view(&self) -> MacroArgView {
        match self {
            MacroArg::Literal(l) => MacroArgView::Literal(*l),
            MacroArg::Ident(s) => MacroArgView::Ident(s@),
            MacroArg::ArgCall(s) => MacroArgView::ArgCall(s@),
        }
    }
}

/// The values of the arguments of an invocation, in order.
pub open spec fn macro_args_view(args: Seq<MacroArg>) -> Seq<MacroArgView> {
    args.map_values(|a: MacroArg| a@)
}

/// The invocation of a macro inside a body.
#[derive(Clone, Debug, PartialEq, Eq)]
pub struct MacroInvocation {
    /// The name of the macro
    pub macro_name: String,
    /// The arguments handed to it
    pub args: Vec<MacroArg>,
    /// The tokens it was read from
    pub span: AstSpan,
}

/// The mathematical value of a [`MacroInvocation`].
pub ghost struct MacroInvocationView {
    pub macro_name: Seq<char>,
    pub args: Seq<MacroArgView>,
    pub span: Seq<Span>,
}

impl View for MacroInvocation {
    type V = MacroInvocationView;

    open spec fn view(&self) -> MacroInvocationView {
        MacroInvocationView {
            macro_name: self.macro_name@,
            args: macro_args_view(self.args@),
            span: self.span@,
        }
    }
}

/// The call of a built-in function inside a body.
#[derive(Clone, Debug, PartialEq, Eq)]
pub struct BuiltinFunctionCall {
    /// Which function
    pub kind: BuiltinFunctionKind,
    /// The names handed to it
    pub args: Vec<Argument>,
    /// The tokens it was read from
    pub span: AstSpan,
}

/// The mathematical value of a [`BuiltinFunctionCall`].
pub ghost struct BuiltinFunctionCallView {
    pub kind: BuiltinFunctionKind,
    pub args: Seq<ArgumentView>,
    pub span: Seq<Span>,
}

impl View for BuiltinFunctionCall {
    type V = BuiltinFunctionCallView;

    open spec fn view(&self) -> BuiltinFunctionCallView {
        BuiltinFunctionCallView {
            kind: self.kind,
            args: arguments_view(self.args@),
            span: self.span@,
        }
    }
}

/// A label with the statements that stand under it.
#[derive(Clone, Debug, PartialEq, Eq)]
pub struct Label {
    /// Its name
    pub name: String,
    /// The statements up to the next label or the end of the body
    pub inner: Vec<Statement>,
    /// The tokens it was read from
    pub span: AstSpan,
}

/// What a statement does.
#[derive(Clone, Debug, PartialEq, Eq)]
pub enum StatementType {
    /// Push a 32-byte value
    Literal([u8; 32]),
    /// Run an instruction
    Opcode(Opcode),
    /// Expand a macro
    MacroInvocation(MacroInvocation),
    /// Push the position of a label
    LabelCall(String),
    /// Define a label
    Label(Label),
    /// Push the value of a constant
    Constant(String),
    /// Push a parameter of the enclosing macro
    ArgCall(String),
    /// Call a built-in function
    BuiltinFunctionCall(BuiltinFunctionCall),
}

/// One statement of a macro body, a label or a table.
#[derive(Debug, PartialEq, Eq)]
pub struct Statement {
    /// What it does
    pub ty: StatementType,
    /// The tokens it was read from
    pub span: AstSpan,
}

/// The mathematical value of a [`Label`].
pub ghost struct LabelView {
    pub name: Seq<char>,
    pub inner: Seq<StatementView>,
    pub span: Seq<Span>,
}

/// The mathematical value of a [`StatementType`].
pub ghost enum StatementTypeView {
    Literal([u8; 32]),
    Opcode(Opcode),
    MacroInvocation(MacroInvocationView),
    LabelCall(Seq<char>),
    Label(LabelView),
    Constant(Seq<char>),
    ArgCall(Seq<char>),
    BuiltinFunctionCall(BuiltinFunctionCallView),
}

/// The mathematical value of a [`Statement`].
pub ghost struct StatementView {
    pub ty: StatementTypeView,
    pub span: Seq<Span>,
}

/// The value of a statement: that of its kind, with the statements under a
/// label taken by their values in turn.
pub open spec fn statement_view(s: Statement) -> StatementView
    decreases s,
{
    StatementView {
        ty: match s.ty {
            StatementType::Literal(l) => StatementTypeView::Literal(l),
            StatementType::Opcode(o) => StatementTypeView::Opcode(o),
            StatementType::MacroInvocation(m) => StatementTypeView::MacroInvocation(m@),
            StatementType::LabelCall(n) => StatementTypeView::LabelCall(n@),
            StatementType::Label(l) => StatementTypeView::Label(
                LabelView {
                    name: l.name@,
                    inner: Seq::new(
                        l.inner@.len(),
                        |i: int|
                            if 0 <= i < l.inner@.len() {
                                statement_view(l.inner@[i])
                            } else {
                                arbitrary()
                            },
                    ),
                    span: l.span@,
                },
            ),
            StatementType::Constant(n) => StatementTypeView::Constant(n@),
            StatementType::ArgCall(n) => StatementTypeView::ArgCall(n@),
            StatementType::BuiltinFunctionCall(b) => StatementTypeView::BuiltinFunctionCall(b@),
        },
        span: s.span@,
    }
}

/// A copy of a list of spans.
fn copy_spans(spans: &AstSpan) -> (r: AstSpan)
    ensures
        r@ == spans@,
{
    let v = spans.0.clone();
    assert(v@ =~= spans.0@);
    AstSpan(v)
}

/// A copy of an optional string.
fn copy_text(text: &Option<String>) -> (r: Option<String>)
    ensures
        opt_text(r) == opt_text(*text),
{
    match text {
        Some(t) => Some(t.clone()),
        None => None,
    }
}

/// A copy of a list of arguments.
fn copy_arguments(args: &Vec<Argument>) -> (r: Vec<Argument>)
    ensures
        arguments_view(r@) == arguments_view(args@),
{
    let mut r: Vec<Argument> = Vec::new();
    let mut i: usize = 0;
    while i < args.len()
        invariant
            i <= args.len(),
            r@.len() == i,
            forall|j: int| 0 <= j < i ==> (#[trigger] r@[j])@ == args@[j]@,
        decreases args.len() - i,
    {
        let a = &args[i];
        r.push(
            Argument {
                arg_type: copy_text(&a.arg_type),
                name: copy_text(&a.name),
                indexed: a.indexed,
                span: copy_spans(&a.span),
            },
        );
        i += 1;
    }
    assert(arguments_view(r@) =~= arguments_view(args@));
    r
}

/// A copy of the arguments of an invocation.
fn copy_macro_args(args: &Vec<MacroArg>) -> (r: Vec<MacroArg>)
    ensures
        macro_args_view(r@) == macro_args_view(args@),
{
    let mut r: Vec<MacroArg> = Vec::new();
    let mut i: usize = 0;
    while i < args.len()
        invariant
            i <= args.len(),
            r@.len() == i,
            forall|j: int| 0 <= j < i ==> (#[trigger] r@[j])@ == args@[j]@,
        decreases args.len() - i,
    {
        let a = match &args[i] {
            MacroArg::Literal(l) => MacroArg::Literal(*l),
            MacroArg::Ident(s) => MacroArg::Ident(s.clone()),
            MacroArg::ArgCall(s) => MacroArg::ArgCall(s.clone()),
        };
        r.push(a);
        i += 1;
    }
    assert(macro_args_view(r@) =~= macro_args_view(args@));
    r
}

/// A copy of a statement, with the statements under it.
fn copy_statement(s: &Statement) -> (r: Statement)
    ensures
        r@ == s@,
    decreases s,
{
    let ty = match &s.ty {
        StatementType::Literal(l) => StatementType::Literal(*l),
        StatementType::Opcode(o) => StatementType::Opcode(*o),
        StatementType::MacroInvocation(m) => StatementType::MacroInvocation(
            MacroInvocation {
                macro_name: m.macro_name.clone(),
                args: copy_macro_args(&m.args),
                span: copy_spans(&m.span),
            },
        ),
        StatementType::LabelCall(n) => StatementType::LabelCall(n.clone()),
        StatementType::Label(l) => {
            let mut inner: Vec<Statement> = Vec::new();
            let mut i: usize = 0;
            while i < l.inner.len()
                invariant
                    i <= l.inner.len(),
                    inner@.len() == i,
                    s.ty == StatementType::Label(*l),
                    forall|j: int| 0 <= j < i ==> (#[trigger] inner@[j])@ == l.inner@[j]@,
                decreases l.inner.len() - i,
            {
                proof {
                    let held = s.ty->Label_0;
                    assert(held == *l);
                    vstd::std_specs::vec::axiom_vec_index_decreases(held.inner, i as int);
                    assert(decreases_to!(s => s.ty));
                    assert(decreases_to!(s.ty => s.ty->Label_0));
                    assert(decreases_to!(held => held.inner));
                    assert(decreases_to!(s => held.inner[i as int]));
                }
                let st = copy_statement(&l.inner[i]);
                inner.push(st);
                i += 1;
            }
            assert(statements_view(inner@) =~= statements_view(l.inner@));
            StatementType::Label(Label { name: l.name.clone(), inner, span: copy_spans(&l.span) })
        },
        StatementType::Constant(n) => StatementType::Constant(n.clone()),
        StatementType::ArgCall(n) => StatementType::ArgCall(n.clone()),
        StatementType::BuiltinFunctionCall(b) => StatementType::BuiltinFunctionCall(
            BuiltinFunctionCall {
                kind: b.kind,
                args: copy_arguments(&b.args),
                span: copy_spans(&b.span),
            },
        ),
    };
    let r = Statement { ty, span: copy_spans(&s.span) };
    proof {
        if s.ty is Label {
            lemma_label_statement_view(*s);
            lemma_label_statement_view(r);
        }
    }
    r
}

impl Clone for Statement {
    /// A copy with the same value.
    fn clone(&self) -> (r: Self)
        ensures
            r@ == self@,
    {
        copy_statement(self)
    }
}

impl View for Statement {
    type V = StatementView;

    open spec fn view(&self) -> StatementView {
        statement_view(*self)
    }
}

/// The values of the statements of a list, in order.
pub open spec fn statements_view(body: Seq<Statement>) -> Seq<StatementView> {
    body.map_values(|s: Statement| s@)
}

impl View for Label {
    type V = LabelView;

    open spec fn view(&self) -> LabelView {
        LabelView { name: self.name@, inner: statements_view(self.inner@), span: self.span@ }
    }
}

/// Under a label the value holds the values of the label's statements.
pub proof fn lemma_label_statement_view(s: Statement)
    requires
        s.ty is Label,
    ensures
        s@.ty == StatementTypeView::Label(s.ty->Label_0@),
        s@.span == s.span@,
{
    let l = s.ty->Label_0;
    assert(s@.ty->Label_0.inner =~= statements_view(l.inner@));
}

/// The definition of a macro.
#[derive(Clone, Debug, PartialEq, Eq)]
pub struct MacroDefinition {
    /// Its name
    pub name: String,
    /// Its parameters
    pub parameters: Vec<Argument>,
    /// Its body
    pub statements: Vec<Statement>,
    /// How many stack items it takes
    pub takes: usize,
    /// How many stack items it leaves
    pub gives: usize,
    /// The tokens it was read from
    pub span: AstSpan,
}

/// The mathematical value of a [`MacroDefinition`].
pub ghost struct MacroDefinitionView {
    pub name: Seq<char>,
    pub parameters: Seq<ArgumentView>,
    pub statements: Seq<StatementView>,
    pub takes: usize,
    pub gives: usize,
    pub span: Seq<Span>,
}

impl View for MacroDefinition {
    type V = MacroDefinitionView;

    open spec fn view(&self) -> MacroDefinitionView {
        MacroDefinitionView {
            name: self.name@,
            parameters: arguments_view(self.parameters@),
            statements: statements_view(self.statements@),
            takes: self.takes,
            gives: self.gives,
            span: self.span@,
        }
    }
}

impl MacroDefinition {
    /// A macro definition from its parts.
    pub fn new(
        name: String,
        parameters: Vec<Argument>,
        statements: Vec<Statement>,
        takes: usize,
        gives: usize,
        spans: Vec<Span>,
    ) -> (m: MacroDefinition)
        ensures
            m == (MacroDefinition {
                name,
                parameters,
                statements,
                takes,
                gives,
                span: AstSpan(spans),
            }),
    {
        MacroDefinition { name, parameters, statements, takes, gives, span: AstSpan(spans) }
    }
}

/// The definition of a table.
#[derive(Clone, Debug, PartialEq, Eq)]
pub struct TableDefinition {
    /// Its name
    pub name: String,
    /// Its form
    pub kind: TableKind,
    /// The labels it lists
    pub statements: Vec<Statement>,
    /// Its size in bytes, as a 32-byte word
    pub size: [u8; 32],
    /// The tokens it was read from
    pub span: AstSpan,
}

/// The mathematical value of a [`TableDefinition`].
pub ghost struct TableDefinitionView {
    pub name: Seq<char>,
    pub kind: TableKind,
    pub statements: Seq<StatementView>,
    pub size: Seq<u8>,
    pub span: Seq<Span>,
}

impl View for TableDefinition {
    type V = TableDefinitionView;

    open spec fn view(&self) -> TableDefinitionView {
        TableDefinitionView {
            name: self.name@,
            kind: self.kind,
            statements: statements_view(self.statements@),
            size: self.size@,
            span: self.span@,
        }
    }
}

impl TableDefinition {
    /// A table definition from its parts.
    pub fn new(
        name: String,
        kind: TableKind,
        statements: Vec<Statement>,
        size: [u8; 32],
        span: AstSpan,
    ) -> (t: TableDefinition)
        ensures
            t == (TableDefinition { name, kind, statements, size, span }),
    {
        TableDefinition { name, kind, statements, size, span }
    }
}

/// The syntax tree of one source file.
#[derive(Clone, Debug, PartialEq, Eq)]
pub struct Contract {
    /// The macro definitions
    pub macros: Vec<MacroDefinition>,
    /// The imported files
    pub imports: Vec<FilePath>,
    /// The constant definitions
    pub constants: Vec<ConstantDefinition>,
    /// The function declarations
    pub functions: Vec<Function>,
    /// The event declarations
    pub events: Vec<Event>,
    /// The table definitions
    pub tables: Vec<TableDefinition>,
}

/// The mathematical value of a [`Contract`].
pub ghost struct ContractView {
    pub macros: Seq<MacroDefinitionView>,
    pub imports: Seq<Seq<char>>,
    pub constants: Seq<ConstantDefinitionView>,
    pub functions: Seq<FunctionView>,
    pub events: Seq<EventView>,
    pub tables: Seq<TableDefinitionView>,
}

impl View for Contract {
    type V = ContractView;

    open spec fn view(&self) -> ContractView {
        ContractView {
            macros: self.macros@.map_values(|m: MacroDefinition| m@),
            imports: self.imports@.map_values(|p: FilePath| p@),
            constants: self.constants@.map_values(|c: ConstantDefinition| c@),
            functions: self.functions@.map_values(|f: Function| f@),
            events: self.events@.map_values(|e: Event| e@),
            tables: self.tables@.map_values(|t: TableDefinition| t@),
        }
    }
}

impl Default for Contract {
    /// The tree of an empty file.
    fn default() -> (c: Contract)
        ensures
            c@ == ContractView::empty(),
    {
        let c = Contract {
            macros: Vec::new(),
            imports: Vec::new(),
            constants: Vec::new(),
            functions: Vec::new(),
            events: Vec::new(),
            tables: Vec::new(),
        };
        assert(c@.macros =~= Seq::empty());
        assert(c@.imports =~= Seq::empty());
        assert(c@.constants =~= Seq::empty());
        assert(c@.functions =~= Seq::empty());
        assert(c@.events =~= Seq::empty());
        assert(c@.tables =~= Seq::empty());
        c
    }
}

impl ContractView {
    /// The tree of an empty file.
    pub open spec fn empty() -> ContractView {
        ContractView {
            macros: Seq::empty(),
            imports: Seq::empty(),
            constants: Seq::empty(),
            functions: Seq::empty(),
            events: Seq::empty(),
            tables: Seq::empty(),
        }
    }
}

/// One definition of a source file.
pub ghost enum DefinitionView {
    Function(FunctionView),
    Event(EventView),
    Constant(ConstantDefinitionView),
    Macro(MacroDefinitionView),
    Table(TableDefinitionView),
}

/// The function declaration that a definition is, if it is one.
pub open spec fn as_function(d: DefinitionView) -> Option<FunctionView> {
    match d {
        DefinitionView::Function(f) => Some(f),
        _ => None,
    }
}

/// The event declaration that a definition is, if it is one.
pub open spec fn as_event(d: DefinitionView) -> Option<EventView> {
    match d {
        DefinitionView::Event(e) => Some(e),
        _ => None,
    }
}

/// The constant definition that a definition is, if it is one.
pub open spec fn as_constant(d: DefinitionView) -> Option<ConstantDefinitionView> {
    match d {
        DefinitionView::Constant(c) => Some(c),
        _ => None,
    }
}

/// The macro definition that a definition is, if it is one.
pub open spec fn as_macro(d: DefinitionView) -> Option<MacroDefinitionView> {
    match d {
        DefinitionView::Macro(m) => Some(m),
        _ => None,
    }
}

/// The table definition that a definition is, if it is one.
pub open spec fn as_table(d: DefinitionView) -> Option<TableDefinitionView> {
    match d {
        DefinitionView::Table(t) => Some(t),
        _ => None,
    }
}

/// The function declarations among the definitions, in their order.
pub open spec fn functions_of(items: Seq<DefinitionView>) -> Seq<FunctionView>
    decreases items.len(),
{
    if items.len() == 0 {
        Seq::empty()
    } else {
        match items.last() {
            DefinitionView::Function(f) => functions_of(items.drop_last()).push(f),
            _ => functions_of(items.drop_last()),
        }
    }
}

/// The event declarations among the definitions, in their order.
pub open spec fn events_of(items: Seq<DefinitionView>) -> Seq<EventView>
    decreases items.len(),
{
    if items.len() == 0 {
        Seq::empty()
    } else {
        match items.last() {
            DefinitionView::Event(e) => events_of(items.drop_last()).push(e),
            _ => events_of(items.drop_last()),
        }
    }
}

/// The constant definitions among the definitions, in their order.
pub open spec fn constants_of(items: Seq<DefinitionView>) -> Seq<ConstantDefinitionView>
    decreases items.len(),
{
    if items.len() == 0 {
        Seq::empty()
    } else {
        match items.last() {
            DefinitionView::Constant(d) => constants_of(items.drop_last()).push(d),
            _ => constants_of(items.drop_last()),
        }
    }
}

/// The macro definitions among the definitions, in their order.
pub open spec fn macros_of(items: Seq<DefinitionView>) -> Seq<MacroDefinitionView>
    decreases items.len(),
{
    if items.len() == 0 {
        Seq::empty()
    } else {
        match items.last() {
            DefinitionView::Macro(m) => macros_of(items.drop_last()).push(m),
            _ => macros_of(items.drop_last()),
        }
    }
}

/// The table definitions among the definitions, in their order.
pub open spec fn tables_of(items: Seq<DefinitionView>) -> Seq<TableDefinitionView>
    decreases items.len(),
{
    if items.len() == 0 {
        Seq::empty()
    } else {
        match items.last() {
            DefinitionView::Table(t) => tables_of(items.drop_last()).push(t),
            _ => tables_of(items.drop_last()),
        }
    }
}

/// The tree of a file with these imports and these definitions: each list
/// holds the definitions of its kind, in the order of the source.
pub open spec fn contract_of(imports: Seq<Seq<char>>, items: Seq<DefinitionView>) -> ContractView {
    ContractView {
        macros: macros_of(items),
        imports,
        constants: constants_of(items),
        functions: functions_of(items),
        events: events_of(items),
        tables: tables_of(items),
    }
}

/// A definition behind a list of definitions joins the list of its kind and
/// leaves the other lists as they are.
pub proof fn lemma_contract_of_push(items: Seq<DefinitionView>, item: DefinitionView)
    ensures
        functions_of(items.push(item)) == match item {
            DefinitionView::Function(f) => functions_of(items).push(f),
            _ => functions_of(items),
        },
        events_of(items.push(item)) == match item {
            DefinitionView::Event(e) => events_of(items).push(e),
            _ => events_of(items),
        },
        constants_of(items.push(item)) == match item {
            DefinitionView::Constant(d) => constants_of(items).push(d),
            _ => constants_of(items),
        },
        macros_of(items.push(item)) == match item {
            DefinitionView::Macro(m) => macros_of(items).push(m),
            _ => macros_of(items),
        },
        tables_of(items.push(item)) == match item {
            DefinitionView::Table(t) => tables_of(items).push(t),
            _ => tables_of(items),
        },
{
    assert(items.push(item).drop_last() =~= items);
}


/// One definition of a source file.
#[derive(Clone, Debug, PartialEq, Eq)]
pub enum Definition {
    /// The declaration of a function
    Function(Function),
    /// The declaration of an event
    Event(Event),
    /// The definition of a constant
    Constant(ConstantDefinition),
    /// The definition of a macro
    Macro(MacroDefinition),
    /// The definition of a table
    Table(TableDefinition),
}

impl View for Definition {
    type V = DefinitionView;

    open spec fn view(&self) -> DefinitionView {
        match self {
            Definition::Function(f) => DefinitionView::Function(f@),
            Definition::Event(e) => DefinitionView::Event(e@),
            Definition::Constant(d) => DefinitionView::Constant(d@),
            Definition::Macro(m) => DefinitionView::Macro(m@),
            Definition::Table(t) => DefinitionView::Table(t@),
        }
    }
}

/// The values of the definitions of a list, in order.
pub open spec fn definitions_view(items: Seq<Definition>) -> Seq<DefinitionView> {
    items.map_values(|d: Definition| d@)
}

/// The values of the paths of a list, in order.
pub open spec fn paths_view(paths: Seq<FilePath>) -> Seq<Seq<char>> {
    paths.map_values(|p: FilePath| p@)
}

/// The definitions of a list, last first.
fn backwards(definitions: Vec<Definition>) -> (r: Vec<Definition>)
    ensures
        r@.len() == definitions@.len(),
        forall|i: int|
            0 <= i < r@.len() ==> (#[trigger] r@[i])@ == definitions_view(definitions@)[
                definitions@.len() - 1 - i],
{
    let ghost all = definitions_view(definitions@);
    let ghost n = definitions@.len();
    let mut rest = definitions;
    let mut r: Vec<Definition> = Vec::new();
    while rest.len() > 0
        invariant
            rest@.len() + r@.len() == n,
            n == all.len(),
            forall|i: int| 0 <= i < rest@.len() ==> (#[trigger] rest@[i])@ == all[i],
            forall|i: int| 0 <= i < r@.len() ==> (#[trigger] r@[i])@ == all[n - 1 - i],
        decreases rest.len(),
    {
        let item = rest.pop().unwrap();
        r.push(item);
    }
    r
}

impl Contract {
    /// The tree of a file from its imports and its definitions. Each list of
    /// the contract gets the definitions of its kind, in the order in which
    /// they stand in `definitions`.
    pub fn assemble(imports: Vec<FilePath>, definitions: Vec<Definition>) -> (c: Contract)
        ensures
            c@ == contract_of(paths_view(imports@), definitions_view(definitions@)),
    {
        let ghost all = definitions_view(definitions@);
        let ghost paths = paths_view(imports@);
        let mut c = Contract {
            macros: Vec::new(),
            imports,
            constants: Vec::new(),
            functions: Vec::new(),
            events: Vec::new(),
            tables: Vec::new(),
        };
        let ghost mut taken: Seq<DefinitionView> = Seq::empty();
        assert(c@.macros =~= macros_of(taken));
        assert(c@.constants =~= constants_of(taken));
        assert(c@.functions =~= functions_of(taken));
        assert(c@.events =~= events_of(taken));
        assert(c@.tables =~= tables_of(taken));
        let ghost n = all.len();
        let mut rest = backwards(definitions);
        while rest.len() > 0
            invariant
                rest@.len() <= n,
                n == all.len(),
                taken == all.subrange(0, n - rest@.len()),
                forall|i: int|
                    0 <= i < rest@.len() ==> (#[trigger] rest@[i])@ == all[n - 1 - i],
                c@ == contract_of(paths, taken),
            decreases rest.len(),
        {
            let ghost k = n - rest@.len();
            let item = rest.pop().unwrap();
            proof {
                assert(item@ == all[k as int]);
                lemma_contract_of_push(taken, item@);
                assert(taken.push(item@) =~= all.subrange(0, k + 1));
                taken = taken.push(item@);
            }
            match item {
                Definition::Function(f) => {
                    assert(c.functions@.push(f).map_values(|x: Function| x@)
                        =~= c.functions@.map_values(|x: Function| x@).push(f@));
                    c.functions.push(f);
                },
                Definition::Event(e) => {
                    assert(c.events@.push(e).map_values(|x: Event| x@) =~= c.events@.map_values(
                        |x: Event| x@,
                    ).push(e@));
                    c.events.push(e);
                },
                Definition::Constant(d) => {
                    assert(c.constants@.push(d).map_values(|x: ConstantDefinition| x@)
                        =~= c.constants@.map_values(|x: ConstantDefinition| x@).push(d@));
                    c.constants.push(d);
                },
                Definition::Macro(m) => {
                    assert(c.macros@.push(m).map_values(|x: MacroDefinition| x@)
                        =~= c.macros@.map_values(|x: MacroDefinition| x@).push(m@));
                    c.macros.push(m);
                },
                Definition::Table(t) => {
                    assert(c.tables@.push(t).map_values(|x: TableDefinition| x@)
                        =~= c.tables@.map_values(|x: TableDefinition| x@).push(t@));
                    c.tables.push(t);
                },
            }
        }
        assert(taken =~= all);
        c
    }
}

} // verus!
