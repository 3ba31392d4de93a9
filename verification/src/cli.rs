//! Command-line parsing for scripts: parsers, typed references and the scan of the arguments.
use vstd::prelude::*;
use vstd::string::*;

use crate::number;
use crate::tables::HandleMap;
use crate::text;
use crate::value::{
    host_error, return_int, ErrorView, FloatValue, FloatView, Value, ValueView, VmResult,
};

verus! {

/// The type of the values that a reference holds.
#[derive(Clone, Copy, Debug, PartialEq, Eq, Structural)]
pub enum ValueKind {
    String,
    Int,
    Float,
    Bool,
}

/// What happens to a reference when its option or argument is met.
#[derive(Clone, Copy, Debug, PartialEq, Eq, Structural)]
pub enum Action {
    Store,
    StoreOption,
    StoreTrue,
    StoreFalse,
}

/// The action that a name stands for.
pub open spec fn action_named(name: Seq<char>) -> Result<Action, ErrorView> {
    if name == "Store"@ {
        Ok(Action::Store)
    } else if name == "StoreOption"@ {
        Ok(Action::StoreOption)
    } else if name == "StoreTrue"@ {
        Ok(Action::StoreTrue)
    } else if name == "StoreFalse"@ {
        Ok(Action::StoreFalse)
    } else {
        Err(
            ErrorView::Host(
                "unknown CLI action '"@ + name
                    + "'; expected Store, StoreOption, StoreTrue, or StoreFalse"@,
            ),
        )
    }
}

impl Action {
    /// Whether the action takes a value from the command line.
    pub open spec fn takes(self) -> bool {
        self is Store || self is StoreOption
    }

    /// The action named `value`.
    pub fn parse(value: &str) -> (r: VmResult<Self>)
        ensures
            match r {
                Ok(action) => action_named(value@) == Ok::<Action, ErrorView>(action),
                Err(e) => action_named(value@) == Err::<Action, ErrorView>(e@),
            },
    {
        if text::same_text(value, "Store") {
            Ok(Action::Store)
        } else if text::same_text(value, "StoreOption") {
            Ok(Action::StoreOption)
        } else if text::same_text(value, "StoreTrue") {
            Ok(Action::StoreTrue)
        } else if text::same_text(value, "StoreFalse") {
            Ok(Action::StoreFalse)
        } else {
            let message: String = text::join3(
                "unknown CLI action '",
                value,
                "'; expected Store, StoreOption, StoreTrue, or StoreFalse",
            );
            Err(host_error(message.as_str()))
        }
    }

    /// Whether the action takes a value from the command line.
    pub fn takes_value(self) -> (r: bool)
        ensures
            r == self.takes(),
    {
        matches!(self, Action::Store | Action::StoreOption)
    }
}

/// A typed value that the command line sets.
#[derive(Debug)]
pub struct CliReference {
    pub parser: i64,
    pub kind: ValueKind,
    pub value: Value,
    pub names: Vec<String>,
    pub action: Option<Action>,
    pub help: String,
    pub required: bool,
    pub positional: bool,
    pub metavar: Option<String>,
    pub seen: bool,
}

/// The model of a [`CliReference`].
#[verifier::ext_equal]
pub struct ReferenceView {
    pub parser: i64,
    pub kind: ValueKind,
    pub value: ValueView,
    pub names: Seq<Seq<char>>,
    pub action: Option<Action>,
    pub help: Seq<char>,
    pub required: bool,
    pub positional: bool,
    pub metavar: Option<Seq<char>>,
    pub seen: bool,
}

/// The text of an optional string.
pub open spec fn optional_text(s: Option<String>) -> Option<Seq<char>> {
    match s {
        Some(s) => Some(s@),
        None => None,
    }
}

impl View for CliReference {
    type V = ReferenceView;

    open spec fn view(&self) -> ReferenceView {
        ReferenceView {
            parser: self.parser,
            kind: self.kind,
            value: self.value@,
            names: text::views(self.names@),
            action: self.action,
            help: self.help@,
            required: self.required,
            positional: self.positional,
            metavar: optional_text(self.metavar),
            seen: self.seen,
        }
    }
}

/// A parser: its description, its references in order, and whether it has run.
#[derive(Debug)]
pub struct CliParser {
    pub description: String,
    pub references: Vec<i64>,
    pub parsed: bool,
}

/// The model of a [`CliParser`].
#[verifier::ext_equal]
pub struct ParserView {
    pub description: Seq<char>,
    pub references: Seq<i64>,
    pub parsed: bool,
}

impl View for CliParser {
    type V = ParserView;

    open spec fn view(&self) -> ParserView {
        ParserView {
            description: self.description@,
            references: self.references@,
            parsed: self.parsed,
        }
    }
}

impl Default for CliParser {
    fn default() -> (r: Self)
        ensures
            r@ == (ParserView { description: Seq::empty(), references: Seq::empty(), parsed: false }),
    {
        CliParser { description: String::new(), references: Vec::new(), parsed: false }
    }
}

/// The parsers and references of one run.
pub struct CliTables {
    pub parsers: HandleMap<CliParser>,
    pub references: HandleMap<CliReference>,
    pub next_handle: i64,
}

/// The model of [`CliTables`].
#[verifier::ext_equal]
pub struct CliView {
    pub parsers: Map<i64, ParserView>,
    pub references: Map<i64, ReferenceView>,
    pub next_handle: i64,
}

/// The models of the references of a table.
pub open spec fn reference_views(m: Map<i64, CliReference>) -> Map<i64, ReferenceView> {
    m.map_values(|r: CliReference| r@)
}

/// The models of the parsers of a table.
pub open spec fn parser_views(m: Map<i64, CliParser>) -> Map<i64, ParserView> {
    m.map_values(|p: CliParser| p@)
}

impl View for CliTables {
    type V = CliView;

    open spec fn view(&self) -> CliView {
        CliView {
            parsers: parser_views(self.parsers@),
            references: reference_views(self.references@),
            next_handle: self.next_handle,
        }
    }
}

/// The kind of a value that a reference can hold.
pub open spec fn kind_of(value: ValueView) -> Option<ValueKind> {
    match value {
        ValueView::String(_) => Some(ValueKind::String),
        ValueView::Int(_) => Some(ValueKind::Int),
        ValueView::Float(_) => Some(ValueKind::Float),
        ValueView::Bool(_) => Some(ValueKind::Bool),
        _ => None,
    }
}

impl CliView {
    /// Handles lie below the counter, every reference belongs to a parser that lists it, and holds
    /// a value of its own kind; switches hold booleans.
    pub open spec fn wf(self) -> bool {
        &&& forall|p: i64| #[trigger]
            self.parsers.contains_key(p) ==> {
                &&& p < self.next_handle
                &&& self.parsers[p].references.no_duplicates()
                &&& forall|i: int|
                    0 <= i < self.parsers[p].references.len() ==> {
                        let h = #[trigger] self.parsers[p].references[i];
                        self.references.contains_key(h) && self.references[h].parser == p
                    }
            }
        &&& forall|h: i64| #[trigger]
            self.references.contains_key(h) ==> {
                &&& h < self.next_handle
                &&& self.parsers.contains_key(self.references[h].parser)
                &&& self.parsers[self.references[h].parser].references.contains(h)
                &&& kind_of(self.references[h].value) == Some(self.references[h].kind)
                &&& switch_is_bool(self.references[h])
            }
    }
}

/// A reference whose action takes no value holds booleans.
pub open spec fn switch_is_bool(r: ReferenceView) -> bool {
    match r.action {
        Some(action) => action.takes() || r.kind is Bool,
        None => true,
    }
}

/// The message on a handle that names no parser.
pub open spec fn unknown_parser(handle: i64) -> ErrorView {
    ErrorView::Host("unknown CLI parser handle "@ + text::decimal(handle as int))
}

/// The message on a handle that names no reference.
pub open spec fn unknown_reference(handle: i64) -> ErrorView {
    ErrorView::Host("unknown CLI reference handle "@ + text::decimal(handle as int))
}

pub(crate) fn unknown_parser_error(handle: i64) -> (r: crate::value::VmError)
    ensures
        r@ == unknown_parser(handle),
{
    host_error(
        text::join2(
            "unknown CLI parser handle ",
            text::decimal_text(handle as i128).as_str(),
        ).as_str(),
    )
}

pub(crate) fn unknown_reference_error(handle: i64) -> (r: crate::value::VmError)
    ensures
        r@ == unknown_reference(handle),
{
    host_error(
        text::join2(
            "unknown CLI reference handle ",
            text::decimal_text(handle as i128).as_str(),
        ).as_str(),
    )
}

/// Whether every value is a string.
pub open spec fn all_strings(values: Seq<Value>) -> bool {
    forall|i: int| 0 <= i < values.len() ==> (#[trigger] values[i]) is String
}

/// The texts of string values.
pub open spec fn string_texts(values: Seq<Value>) -> Seq<Seq<char>> {
    Seq::new(values.len(), |i: int| values[i]->String_0@)
}

/// What [`names_from_values`] returns.
pub open spec fn names_outcome(values: Seq<Value>) -> Result<Seq<Seq<char>>, ErrorView> {
    if values.len() == 0 {
        Err(ErrorView::Host("option names must not be empty"@))
    } else if all_strings(values) {
        Ok(string_texts(values))
    } else {
        Err(ErrorView::Host("option names must be strings"@))
    }
}

/// The option names given as script values.
pub fn names_from_values(values: &[Value]) -> (r: VmResult<Vec<String>>)
    ensures
        match r {
            Ok(names) => names_outcome(values@) == Ok::<Seq<Seq<char>>, ErrorView>(
                text::views(names@),
            ),
            Err(e) => names_outcome(values@) == Err::<Seq<Seq<char>>, ErrorView>(e@),
        },
{
    if values.len() == 0 {
        return Err(host_error("option names must not be empty"));
    }
    let mut names: Vec<String> = Vec::new();
    let mut i: usize = 0;
    while i < values.len()
        invariant
            i <= values@.len(),
            values@.len() > 0,
            names@.len() == i,
            forall|j: int|
                0 <= j < i ==> (#[trigger] values@[j]) is String && names@[j]@
                    == values@[j]->String_0@,
        decreases values@.len() - i,
    {
        match &values[i] {
            Value::String(value) => {
                names.push(value.clone());
            },
            _ => {
                assert(!(values@[i as int] is String));
                return Err(host_error("option names must be strings"));
            },
        }
        i = i + 1;
    }
    assert(text::views(names@) =~= string_texts(values@));
    Ok(names)
}

/// The kind of a value, where a reference can hold it.
pub fn value_kind(value: &Value) -> (r: VmResult<ValueKind>)
    ensures
        match r {
            Ok(kind) => kind_of(value@) == Some(kind),
            Err(e) => kind_of(value@) is None && e@ == unsupported_kind(),
        },
{
    match value {
        Value::String(_) => Ok(ValueKind::String),
        Value::Int(_) => Ok(ValueKind::Int),
        Value::Float(_) => Ok(ValueKind::Float),
        Value::Bool(_) => Ok(ValueKind::Bool),
        _ => Err(host_error("CLI references support string, int, float, and bool values")),
    }
}

/// The message on a value that no reference can hold.
pub open spec fn unsupported_kind() -> ErrorView {
    ErrorView::Host("CLI references support string, int, float, and bool values"@)
}

/// A copy of a value that a reference can hold.
pub(crate) fn copy_value(value: &Value) -> (r: Value)
    requires
        kind_of(value@) is Some,
    ensures
        r@ == value@,
{
    match value {
        Value::String(s) => Value::String(s.clone()),
        Value::Int(i) => Value::Int(*i),
        Value::Float(f) => Value::Float(f.clone()),
        Value::Bool(b) => Value::Bool(*b),
        _ => Value::Null,
    }
}

/// A reference as it is when it is made.
pub open spec fn fresh_reference(parser: i64, kind: ValueKind, value: ValueView) -> ReferenceView {
    ReferenceView {
        parser,
        kind,
        value,
        names: Seq::empty(),
        action: None,
        help: Seq::empty(),
        required: false,
        positional: false,
        metavar: None,
        seen: false,
    }
}

/// The tables after a reference was attached to `parser`.
pub open spec fn with_reference(
    cli: CliView,
    parser: i64,
    kind: ValueKind,
    value: ValueView,
) -> CliView {
    let handle = cli.next_handle;
    CliView {
        parsers: cli.parsers.insert(
            parser,
            ParserView {
                references: cli.parsers[parser].references.push(handle),
                ..cli.parsers[parser]
            },
        ),
        references: cli.references.insert(handle, fresh_reference(parser, kind, value)),
        next_handle: (handle + 1) as i64,
    }
}

/// Attaches a new reference with an initial value to a parser.
///
/// The handle counter advances even where the value cannot be held.
pub fn insert_reference(cli: &mut CliTables, parser: i64, value: Value) -> (r: VmResult<Value>)
    requires
        old(cli)@.wf(),
        old(cli).next_handle < i64::MAX,
    ensures
        final(cli)@.wf(),
        if !old(cli)@.parsers.contains_key(parser) {
            &&& r is Err
            &&& r->Err_0@ == unknown_parser(parser)
            &&& final(cli)@ == old(cli)@
        } else {
            match kind_of(value@) {
                None => {
                    &&& r is Err
                    &&& r->Err_0@ == unsupported_kind()
                    &&& final(cli)@ == (CliView {
                        next_handle: (old(cli)@.next_handle + 1) as i64,
                        ..old(cli)@
                    })
                },
                Some(kind) => {
                    &&& r is Ok
                    &&& r->Ok_0 == Value::Int(old(cli)@.next_handle)
                    &&& final(cli)@ == with_reference(old(cli)@, parser, kind, value@)
                },
            }
        },
{
    if !cli.parsers.contains(parser) {
        return Err(unknown_parser_error(parser));
    }
    let handle: i64 = cli.next_handle;
    cli.next_handle = handle + 1;
    let kind: ValueKind = match value_kind(&value) {
        Ok(kind) => kind,
        Err(e) => {
            return Err(e);
        },
    };
    let reference: CliReference = CliReference {
        parser,
        kind,
        value,
        names: Vec::new(),
        action: None,
        help: String::new(),
        required: false,
        positional: false,
        metavar: None,
        seen: false,
    };
    assert(reference@ =~= fresh_reference(parser, kind, value@));
    cli.references.insert(handle, reference);
    if let Some(mut entry) = cli.parsers.remove(parser) {
        entry.references.push(handle);
        cli.parsers.insert(parser, entry);
    }
    proof {
        let before = old(cli)@;
        let after = cli@;
        let expected = with_reference(before, parser, kind, value@);
        assert(after.parsers =~= expected.parsers);
        assert(after.references =~= expected.references);
        lemma_with_reference(before, parser, kind, value@);
    }
    return_int(handle)
}

/// Attaching a reference keeps the tables well formed.
proof fn lemma_with_reference(cli: CliView, parser: i64, kind: ValueKind, value: ValueView)
    requires
        cli.wf(),
        cli.next_handle < i64::MAX,
        cli.parsers.contains_key(parser),
        kind_of(value) == Some(kind),
    ensures
        with_reference(cli, parser, kind, value).wf(),
{
    let after = with_reference(cli, parser, kind, value);
    let handle = cli.next_handle;
    let old_list = cli.parsers[parser].references;
    let list = after.parsers[parser].references;
    assert(list[old_list.len() as int] == handle);
    assert forall|p: i64| #[trigger] after.parsers.contains_key(p) implies {
        &&& p < after.next_handle
        &&& after.parsers[p].references.no_duplicates()
        &&& forall|i: int|
            0 <= i < after.parsers[p].references.len() ==> {
                let h = #[trigger] after.parsers[p].references[i];
                after.references.contains_key(h) && after.references[h].parser == p
            }
    } by {
        assert(cli.parsers.contains_key(p));
        if p == parser {
            assert forall|i: int| 0 <= i < list.len() implies {
                let h = #[trigger] list[i];
                after.references.contains_key(h) && after.references[h].parser == p
            } by {
                if i < old_list.len() {
                    assert(list[i] == old_list[i]);
                    assert(cli.references.contains_key(old_list[i]));
                }
            }
        }
    }
    assert forall|h: i64| #[trigger] after.references.contains_key(h) implies {
        &&& h < after.next_handle
        &&& after.parsers.contains_key(after.references[h].parser)
        &&& after.parsers[after.references[h].parser].references.contains(h)
        &&& kind_of(after.references[h].value) == Some(after.references[h].kind)
        &&& switch_is_bool(after.references[h])
    } by {
        if h != handle {
            assert(cli.references.contains_key(h));
            let q = cli.references[h].parser;
            if q == parser {
                let k = choose|k: int| 0 <= k < old_list.len() && old_list[k] == h;
                assert(list[k] == h);
            }
        }
    }
}

/// What a reference becomes when `raw` is stored in it.
pub open spec fn stored(reference: ReferenceView, raw: Seq<char>) -> Result<
    ReferenceView,
    ErrorView,
> {
    match reference.kind {
        ValueKind::String => Ok(
            ReferenceView { value: ValueView::String(raw), seen: true, ..reference },
        ),
        ValueKind::Int => match number::i64_literal(raw) {
            Some(n) => Ok(
                ReferenceView { value: ValueView::Int(n as i64), seen: true, ..reference },
            ),
            None => Err(
                ErrorView::Host(
                    "invalid integer '"@ + raw + "': "@ + number::i64_refusal(raw),
                ),
            ),
        },
        ValueKind::Float => if number::is_float_literal(raw) {
            Ok(
                ReferenceView {
                    value: ValueView::Float(FloatView::Literal(raw)),
                    seen: true,
                    ..reference
                },
            )
        } else {
            Err(ErrorView::Host("invalid float '"@ + raw + "': "@ + number::float_refusal(raw)))
        },
        ValueKind::Bool => if raw == "true"@ {
            Ok(ReferenceView { value: ValueView::Bool(true), seen: true, ..reference })
        } else if raw == "false"@ {
            Ok(ReferenceView { value: ValueView::Bool(false), seen: true, ..reference })
        } else {
            Err(ErrorView::Host("invalid boolean '"@ + raw + "': "@ + number::bool_refusal()))
        },
    }
}

fn refusal(prefix: &str, raw: &str, reason: &str) -> (r: crate::value::VmError)
    ensures
        r@ == ErrorView::Host(prefix@ + raw@ + "': "@ + reason@),
{
    let mut message: String = text::join3(prefix, raw, "': ");
    message.append(reason);
    host_error(message.as_str())
}

/// Stores a raw argument in a reference, read as the kind of the reference.
///
/// A reference that cannot read the argument is left as it was.
pub fn set_value(reference: &mut CliReference, raw: &str) -> (r: VmResult<()>)
    ensures
        match r {
            Ok(()) => stored(old(reference)@, raw@) == Ok::<ReferenceView, ErrorView>(
                final(reference)@,
            ),
            Err(e) => {
                &&& stored(old(reference)@, raw@) == Err::<ReferenceView, ErrorView>(e@)
                &&& final(reference)@ == old(reference)@
            },
        },
{
    proof {
        reveal_strlit("true");
        reveal_strlit("false");
        assert("true"@.len() != "false"@.len());
    }
    match reference.kind {
        ValueKind::String => {
            reference.value = Value::String(raw.to_owned());
        },
        ValueKind::Int => {
            match number::parse_i64(raw) {
                Ok(n) => {
                    reference.value = Value::Int(n);
                },
                Err(e) => {
                    return Err(refusal("invalid integer '", raw, e.as_str()));
                },
            }
        },
        ValueKind::Float => {
            match number::check_float(raw) {
                Ok(()) => {
                    reference.value = Value::Float(FloatValue::Literal(raw.to_owned()));
                },
                Err(e) => {
                    return Err(refusal("invalid float '", raw, e.as_str()));
                },
            }
        },
        ValueKind::Bool => {
            match number::parse_bool(raw) {
                Ok(b) => {
                    reference.value = Value::Bool(b);
                },
                Err(e) => {
                    return Err(refusal("invalid boolean '", raw, e.as_str()));
                },
            }
        },
    }
    reference.seen = true;
    Ok(())
}

/// The line of the help text for one reference.
pub open spec fn help_line(reference: ReferenceView) -> Seq<char> {
    "  "@ + text::joined(reference.names, ", "@) + (match reference.action {
        Some(action) => if action.takes() {
            seq![' '] + (match reference.metavar {
                Some(metavar) => metavar,
                None => "VALUE"@,
            })
        } else {
            Seq::empty()
        },
        None => Seq::empty(),
    }) + (if reference.required {
        " (required)"@
    } else {
        Seq::empty()
    }) + (if reference.help.len() > 0 {
        seq!['\t'] + reference.help
    } else {
        Seq::empty()
    }) + seq!['\n']
}

/// The lines of the help text for the first `n` references.
pub open spec fn help_lines(
    handles: Seq<i64>,
    references: Map<i64, ReferenceView>,
    n: nat,
) -> Seq<char>
    decreases n,
{
    if n == 0 {
        Seq::empty()
    } else {
        let h = handles[n - 1];
        help_lines(handles, references, (n - 1) as nat) + (if references.contains_key(h) {
            help_line(references[h])
        } else {
            Seq::empty()
        })
    }
}

/// The help text of a parser.
pub open spec fn help_text(parser: ParserView, references: Map<i64, ReferenceView>) -> Seq<char> {
    parser.description + (if parser.description.len() > 0 {
        "\n\n"@
    } else {
        Seq::empty()
    }) + "Options:\n  -h, --help\tShow this help message\n"@ + help_lines(
        parser.references,
        references,
        parser.references.len(),
    )
}

/// The line of the help text for one reference.
fn format_help_line(reference: &CliReference) -> (r: String)
    ensures
        r@ == help_line(reference@),
{
    let mut out: String = "  ".to_owned();
    out.append(text::join(&reference.names, ", ").as_str());
    let ghost mut expected = "  "@ + text::joined(reference@.names, ", "@);
    match reference.action {
        Some(action) => {
            if action.takes_value() {
                out.push(' ');
                match &reference.metavar {
                    Some(metavar) => {
                        out.append(metavar.as_str());
                        proof {
                            expected = expected + (seq![' '] + metavar@);
                        }
                    },
                    None => {
                        out.append("VALUE");
                        proof {
                            expected = expected + (seq![' '] + "VALUE"@);
                        }
                    },
                }
            }
        },
        None => {},
    }
    assert(out@ =~= expected);
    if reference.required {
        out.append(" (required)");
    }
    if reference.help.as_str().unicode_len() > 0 {
        out.push('\t');
        out.append(reference.help.as_str());
    }
    out.push('\n');
    assert(out@ =~= help_line(reference@));
    out
}

/// The help text of a parser: its description and a line for each of its references.
pub fn format_help(parser: &CliParser, references: &HandleMap<CliReference>) -> (r: String)
    ensures
        r@ == help_text(parser@, reference_views(references@)),
{
    let mut out: String = parser.description.clone();
    if parser.description.as_str().unicode_len() > 0 {
        out.append("\n\n");
    }
    out.append("Options:\n  -h, --help\tShow this help message\n");
    let ghost head = out@;
    assert(head =~= head + Seq::<char>::empty());
    let ghost models = reference_views(references@);
    let mut i: usize = 0;
    while i < parser.references.len()
        invariant
            i <= parser.references@.len(),
            models == reference_views(references@),
            out@ == head + help_lines(parser.references@, models, i as nat),
        decreases parser.references@.len() - i,
    {
        let ghost before = out@;
        let handle: i64 = parser.references[i];
        match references.get(handle) {
            Some(reference) => {
                out.append(format_help_line(reference).as_str());
            },
            None => {},
        }
        assert(out@ =~= head + help_lines(parser.references@, models, (i + 1) as nat));
        i = i + 1;
    }
    assert(out@ =~= help_text(parser@, models));
    out
}

/// Creates a parser without description and references.
pub fn cli_argument_parser(cli: &mut CliTables) -> (r: VmResult<Value>)
    requires
        old(cli)@.wf(),
        old(cli).next_handle < i64::MAX,
    ensures
        final(cli)@.wf(),
        r is Ok,
        r->Ok_0 == Value::Int(old(cli)@.next_handle),
        final(cli)@ == (CliView {
            parsers: old(cli)@.parsers.insert(
                old(cli)@.next_handle,
                (ParserView {
                    description: Seq::empty(),
                    references: Seq::empty(),
                    parsed: false,
                }),
            ),
            next_handle: (old(cli)@.next_handle + 1) as i64,
            ..old(cli)@
        }),
{
    let handle: i64 = cli.next_handle;
    cli.next_handle = handle + 1;
    cli.parsers.insert(handle, CliParser::default());
    proof {
        let before = old(cli)@;
        let after = cli@;
        assert(after.parsers =~= before.parsers.insert(
            handle,
            ParserView { description: Seq::empty(), references: Seq::empty(), parsed: false },
        ));
        assert(after.references =~= before.references);
        assert forall|p: i64| #[trigger] after.parsers.contains_key(p) implies {
            &&& p < after.next_handle
            &&& after.parsers[p].references.no_duplicates()
            &&& forall|i: int|
                0 <= i < after.parsers[p].references.len() ==> {
                    let h = #[trigger] after.parsers[p].references[i];
                    after.references.contains_key(h) && after.references[h].parser == p
                }
        } by {
            if p != handle {
                assert(before.parsers.contains_key(p));
            }
        }
        assert forall|h: i64| #[trigger] after.references.contains_key(h) implies {
            &&& h < after.next_handle
            &&& after.parsers.contains_key(after.references[h].parser)
            &&& after.parsers[after.references[h].parser].references.contains(h)
            &&& kind_of(after.references[h].value) == Some(after.references[h].kind)
            &&& switch_is_bool(after.references[h])
        } by {
            assert(before.references.contains_key(h));
            assert(before.parsers.contains_key(before.references[h].parser));
        }
    }
    return_int(handle)
}

/// The tables with the parser `handle` replaced.
pub open spec fn with_parser(cli: CliView, handle: i64, parser: ParserView) -> CliView {
    CliView { parsers: cli.parsers.insert(handle, parser), ..cli }
}

/// The tables with the reference `handle` replaced.
pub open spec fn with_changed(cli: CliView, handle: i64, reference: ReferenceView) -> CliView {
    CliView { references: cli.references.insert(handle, reference), ..cli }
}

/// Replacing a parser by one with the same references keeps the tables well formed.
pub proof fn lemma_with_parser(cli: CliView, handle: i64, parser: ParserView)
    requires
        cli.wf(),
        cli.parsers.contains_key(handle),
        parser.references == cli.parsers[handle].references,
    ensures
        with_parser(cli, handle, parser).wf(),
{
    let after = with_parser(cli, handle, parser);
    assert forall|p: i64| #[trigger] after.parsers.contains_key(p) implies {
        &&& p < after.next_handle
        &&& after.parsers[p].references.no_duplicates()
        &&& forall|i: int|
            0 <= i < after.parsers[p].references.len() ==> {
                let h = #[trigger] after.parsers[p].references[i];
                after.references.contains_key(h) && after.references[h].parser == p
            }
    } by {
        assert(cli.parsers.contains_key(p));
        assert(after.parsers[p].references == cli.parsers[p].references);
    }
    assert forall|h: i64| #[trigger] after.references.contains_key(h) implies {
        &&& h < after.next_handle
        &&& after.parsers.contains_key(after.references[h].parser)
        &&& after.parsers[after.references[h].parser].references.contains(h)
        &&& kind_of(after.references[h].value) == Some(after.references[h].kind)
        &&& switch_is_bool(after.references[h])
    } by {
        assert(cli.references.contains_key(h));
    }
}

/// Replacing a reference by one of the same parser keeps the tables well formed.
pub proof fn lemma_with_changed(cli: CliView, handle: i64, reference: ReferenceView)
    requires
        cli.wf(),
        cli.references.contains_key(handle),
        reference.parser == cli.references[handle].parser,
        kind_of(reference.value) == Some(reference.kind),
        switch_is_bool(reference),
    ensures
        with_changed(cli, handle, reference).wf(),
{
    let after = with_changed(cli, handle, reference);
    assert forall|p: i64| #[trigger] after.parsers.contains_key(p) implies {
        &&& p < after.next_handle
        &&& after.parsers[p].references.no_duplicates()
        &&& forall|i: int|
            0 <= i < after.parsers[p].references.len() ==> {
                let h = #[trigger] after.parsers[p].references[i];
                after.references.contains_key(h) && after.references[h].parser == p
            }
    } by {
        assert(cli.parsers.contains_key(p));
        assert forall|i: int| 0 <= i < after.parsers[p].references.len() implies {
            let h = #[trigger] after.parsers[p].references[i];
            after.references.contains_key(h) && after.references[h].parser == p
        } by {
            assert(cli.references.contains_key(cli.parsers[p].references[i]));
        }
    }
    assert forall|h: i64| #[trigger] after.references.contains_key(h) implies {
        &&& h < after.next_handle
        &&& after.parsers.contains_key(after.references[h].parser)
        &&& after.parsers[after.references[h].parser].references.contains(h)
        &&& kind_of(after.references[h].value) == Some(after.references[h].kind)
        &&& switch_is_bool(after.references[h])
    } by {
        assert(cli.references.contains_key(h));
    }
}

/// Sets the description of a parser.
pub fn cli_set_description(cli: &mut CliTables, parser: i64, description: &str) -> (r: VmResult<
    Value,
>)
    requires
        old(cli)@.wf(),
    ensures
        final(cli)@.wf(),
        if old(cli)@.parsers.contains_key(parser) {
            &&& r is Ok
            &&& r->Ok_0 == Value::Bool(true)
            &&& final(cli)@ == with_parser(
                old(cli)@,
                parser,
                (ParserView { description: description@, ..old(cli)@.parsers[parser] }),
            )
        } else {
            &&& r is Err
            &&& r->Err_0@ == unknown_parser(parser)
            &&& final(cli)@ == old(cli)@
        },
{
    match cli.parsers.remove(parser) {
        Some(mut entry) => {
            entry.description = description.to_owned();
            cli.parsers.insert(parser, entry);
            proof {
                let changed = ParserView {
                    description: description@,
                    ..old(cli)@.parsers[parser]
                };
                assert(cli@.parsers =~= with_parser(old(cli)@, parser, changed).parsers);
                lemma_with_parser(old(cli)@, parser, changed);
            }
            Ok(Value::Bool(true))
        },
        None => {
            assert(cli@.parsers =~= old(cli)@.parsers);
            Err(unknown_parser_error(parser))
        },
    }
}

/// Creates a typed reference attached to a parser.
pub fn cli_refer(cli: &mut CliTables, parser: i64, initial: Value) -> (r: VmResult<Value>)
    requires
        old(cli)@.wf(),
        old(cli).next_handle < i64::MAX,
    ensures
        final(cli)@.wf(),
        if !old(cli)@.parsers.contains_key(parser) {
            &&& r is Err
            &&& r->Err_0@ == unknown_parser(parser)
            &&& final(cli)@ == old(cli)@
        } else {
            match kind_of(initial@) {
                None => {
                    &&& r is Err
                    &&& r->Err_0@ == unsupported_kind()
                    &&& final(cli)@ == (CliView {
                        next_handle: (old(cli)@.next_handle + 1) as i64,
                        ..old(cli)@
                    })
                },
                Some(kind) => {
                    &&& r is Ok
                    &&& r->Ok_0 == Value::Int(old(cli)@.next_handle)
                    &&& final(cli)@ == with_reference(old(cli)@, parser, kind, initial@)
                },
            }
        },
{
    insert_reference(cli, parser, initial)
}

/// Whether a text can name an option: a dash and something behind it.
pub open spec fn is_option_name(name: Seq<char>) -> bool {
    name.len() >= 2 && name[0] == '-'
}

/// Whether every text can name an option.
pub open spec fn all_option_names(names: Seq<Seq<char>>) -> bool {
    forall|i: int| 0 <= i < names.len() ==> is_option_name(#[trigger] names[i])
}

/// What [`cli_add_option`] makes of the reference.
pub open spec fn option_outcome(
    cli: CliView,
    reference: i64,
    names: Seq<Value>,
    action: Seq<char>,
    help: Seq<char>,
) -> Result<ReferenceView, ErrorView> {
    match names_outcome(names) {
        Err(e) => Err(e),
        Ok(names) => if !all_option_names(names) {
            Err(ErrorView::Host("option names must begin with '-' or '--'"@))
        } else {
            match action_named(action) {
                Err(e) => Err(e),
                Ok(action) => if !cli.references.contains_key(reference) {
                    Err(unknown_reference(reference))
                } else if !action.takes() && !(cli.references[reference].kind is Bool) {
                    Err(ErrorView::Host("StoreTrue and StoreFalse require a bool reference"@))
                } else {
                    Ok(
                        ReferenceView {
                            names,
                            action: Some(action),
                            help,
                            ..cli.references[reference]
                        },
                    )
                },
            }
        },
    }
}

/// Whether every name can name an option.
fn check_option_names(names: &Vec<String>) -> (r: bool)
    ensures
        r == all_option_names(text::views(names@)),
{
    let mut i: usize = 0;
    while i < names.len()
        invariant
            i <= names@.len(),
            forall|j: int| 0 <= j < i ==> is_option_name(#[trigger] text::views(names@)[j]),
        decreases names@.len() - i,
    {
        let name: &str = names[i].as_str();
        if name.unicode_len() < 2 || name.get_char(0) != '-' {
            assert(!is_option_name(text::views(names@)[i as int]));
            return false;
        }
        i = i + 1;
    }
    true
}

/// What a function that changes one reference returns and leaves behind.
pub open spec fn change_result(
    before: CliView,
    after: CliView,
    reference: i64,
    outcome: Result<ReferenceView, ErrorView>,
    r: VmResult<Value>,
) -> bool {
    match outcome {
        Ok(changed) => {
            &&& r is Ok
            &&& r->Ok_0 == Value::Int(reference)
            &&& after == with_changed(before, reference, changed)
        },
        Err(e) => {
            &&& r is Err
            &&& r->Err_0@ == e
            &&& after == before
        },
    }
}

/// Gives a reference its option names, its action and its help.
pub fn cli_add_option(
    cli: &mut CliTables,
    reference: i64,
    names: &[Value],
    action: &str,
    help: &str,
) -> (r: VmResult<Value>)
    requires
        old(cli)@.wf(),
    ensures
        final(cli)@.wf(),
        change_result(
            old(cli)@,
            final(cli)@,
            reference,
            option_outcome(old(cli)@, reference, names@, action@, help@),
            r,
        ),
{
    let names: Vec<String> = match names_from_values(names) {
        Ok(names) => names,
        Err(e) => {
            return Err(e);
        },
    };
    if !check_option_names(&names) {
        return Err(host_error("option names must begin with '-' or '--'"));
    }
    let action: Action = match Action::parse(action) {
        Ok(action) => action,
        Err(e) => {
            return Err(e);
        },
    };
    match cli.references.remove(reference) {
        None => {
            assert(cli@.references =~= old(cli)@.references);
            Err(unknown_reference_error(reference))
        },
        Some(mut entry) => {
            if !action.takes_value() && entry.kind != ValueKind::Bool {
                cli.references.insert(reference, entry);
                assert(cli@.references =~= old(cli)@.references);
                return Err(host_error("StoreTrue and StoreFalse require a bool reference"));
            }
            entry.names = names;
            entry.action = Some(action);
            entry.help = help.to_owned();
            let ghost changed = entry@;
            cli.references.insert(reference, entry);
            proof {
                assert(cli@.references =~= with_changed(old(cli)@, reference, changed).references);
                lemma_with_changed(old(cli)@, reference, changed);
            }
            return_int(reference)
        },
    }
}

/// What [`cli_add_argument`] makes of the reference.
pub open spec fn argument_outcome(
    cli: CliView,
    reference: i64,
    name: Seq<char>,
    action: Seq<char>,
    help: Seq<char>,
) -> Result<ReferenceView, ErrorView> {
    match action_named(action) {
        Err(e) => Err(e),
        Ok(action) => if !action.takes() {
            Err(ErrorView::Host("positional arguments require Store or StoreOption"@))
        } else if !cli.references.contains_key(reference) {
            Err(unknown_reference(reference))
        } else {
            Ok(
                ReferenceView {
                    names: seq![name],
                    action: Some(action),
                    help,
                    positional: true,
                    ..cli.references[reference]
                },
            )
        },
    }
}

/// Makes a reference a positional argument with a name, an action and a help.
pub fn cli_add_argument(
    cli: &mut CliTables,
    reference: i64,
    name: &str,
    action: &str,
    help: &str,
) -> (r: VmResult<Value>)
    requires
        old(cli)@.wf(),
    ensures
        final(cli)@.wf(),
        change_result(
            old(cli)@,
            final(cli)@,
            reference,
            argument_outcome(old(cli)@, reference, name@, action@, help@),
            r,
        ),
{
    let action: Action = match Action::parse(action) {
        Ok(action) => action,
        Err(e) => {
            return Err(e);
        },
    };
    if !action.takes_value() {
        return Err(host_error("positional arguments require Store or StoreOption"));
    }
    match cli.references.remove(reference) {
        None => {
            assert(cli@.references =~= old(cli)@.references);
            Err(unknown_reference_error(reference))
        },
        Some(mut entry) => {
            let mut names: Vec<String> = Vec::new();
            names.push(name.to_owned());
            assert(text::views(names@) =~= seq![name@]);
            entry.names = names;
            entry.action = Some(action);
            entry.help = help.to_owned();
            entry.positional = true;
            let ghost changed = entry@;
            cli.references.insert(reference, entry);
            proof {
                assert(cli@.references =~= with_changed(old(cli)@, reference, changed).references);
                lemma_with_changed(old(cli)@, reference, changed);
            }
            return_int(reference)
        },
    }
}

/// What [`cli_required`] makes of the reference.
pub open spec fn required_outcome(cli: CliView, reference: i64) -> Result<
    ReferenceView,
    ErrorView,
> {
    if cli.references.contains_key(reference) {
        Ok(ReferenceView { required: true, ..cli.references[reference] })
    } else {
        Err(unknown_reference(reference))
    }
}

/// Marks a reference as required.
pub fn cli_required(cli: &mut CliTables, reference: i64) -> (r: VmResult<Value>)
    requires
        old(cli)@.wf(),
    ensures
        final(cli)@.wf(),
        change_result(
            old(cli)@,
            final(cli)@,
            reference,
            required_outcome(old(cli)@, reference),
            r,
        ),
{
    match cli.references.remove(reference) {
        None => {
            assert(cli@.references =~= old(cli)@.references);
            Err(unknown_reference_error(reference))
        },
        Some(mut entry) => {
            entry.required = true;
            let ghost changed = entry@;
            cli.references.insert(reference, entry);
            proof {
                assert(cli@.references =~= with_changed(old(cli)@, reference, changed).references);
                lemma_with_changed(old(cli)@, reference, changed);
            }
            return_int(reference)
        },
    }
}

/// What [`cli_metavar`] makes of the reference.
pub open spec fn metavar_outcome(cli: CliView, reference: i64, metavar: Seq<char>) -> Result<
    ReferenceView,
    ErrorView,
> {
    if cli.references.contains_key(reference) {
        Ok(ReferenceView { metavar: Some(metavar), ..cli.references[reference] })
    } else {
        Err(unknown_reference(reference))
    }
}

/// Sets the placeholder that the help text shows for the value of a reference.
pub fn cli_metavar(cli: &mut CliTables, reference: i64, metavar: &str) -> (r: VmResult<Value>)
    requires
        old(cli)@.wf(),
    ensures
        final(cli)@.wf(),
        change_result(
            old(cli)@,
            final(cli)@,
            reference,
            metavar_outcome(old(cli)@, reference, metavar@),
            r,
        ),
{
    match cli.references.remove(reference) {
        None => {
            assert(cli@.references =~= old(cli)@.references);
            Err(unknown_reference_error(reference))
        },
        Some(mut entry) => {
            entry.metavar = Some(metavar.to_owned());
            let ghost changed = entry@;
            cli.references.insert(reference, entry);
            proof {
                assert(cli@.references =~= with_changed(old(cli)@, reference, changed).references);
                lemma_with_changed(old(cli)@, reference, changed);
            }
            return_int(reference)
        },
    }
}

/// What reading a reference gives.
pub open spec fn read_outcome(cli: CliView, reference: i64) -> Result<ValueView, ErrorView> {
    if !cli.references.contains_key(reference) {
        Err(unknown_reference(reference))
    } else if !cli.parsers[cli.references[reference].parser].parsed {
        Err(ErrorView::Host("parse_args must be called before reading a reference"@))
    } else {
        Ok(cli.references[reference].value)
    }
}

/// The value of a reference, once its parser has parsed the arguments.
pub fn reference_value(cli: &CliTables, reference: i64) -> (r: VmResult<Value>)
    requires
        cli@.wf(),
    ensures
        match r {
            Ok(value) => read_outcome(cli@, reference) == Ok::<ValueView, ErrorView>(value@),
            Err(e) => read_outcome(cli@, reference) == Err::<ValueView, ErrorView>(e@),
        },
{
    let entry: &CliReference = match cli.references.get(reference) {
        Some(entry) => entry,
        None => {
            return Err(unknown_reference_error(reference));
        },
    };
    assert(cli@.references.contains_key(reference));
    let parsed: bool = match cli.parsers.get(entry.parser) {
        Some(parser) => parser.parsed,
        None => {
            assert(cli@.parsers.contains_key(entry.parser));
            false
        },
    };
    if !parsed {
        return Err(host_error("parse_args must be called before reading a reference"));
    }
    Ok(copy_value(&entry.value))
}

/// Reads a parsed reference.
pub fn cli_get(cli: &CliTables, reference: i64) -> (r: VmResult<Value>)
    requires
        cli@.wf(),
    ensures
        match r {
            Ok(value) => read_outcome(cli@, reference) == Ok::<ValueView, ErrorView>(value@),
            Err(e) => read_outcome(cli@, reference) == Err::<ValueView, ErrorView>(e@),
        },
{
    reference_value(cli, reference)
}

impl CliTables {
    /// Tables without parsers and references.
    pub fn new() -> (r: Self)
        ensures
            r@.wf(),
            r@.parsers == Map::<i64, ParserView>::empty(),
            r@.references == Map::<i64, ReferenceView>::empty(),
            r@.next_handle == 1,
    {
        let r: CliTables = CliTables {
            parsers: HandleMap::new(),
            references: HandleMap::new(),
            next_handle: 1,
        };
        assert(r@.parsers =~= Map::<i64, ParserView>::empty());
        assert(r@.references =~= Map::<i64, ReferenceView>::empty());
        r
    }
}

} // verus!
