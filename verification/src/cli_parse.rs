//! The scan of the script arguments into the references of a parser.
use vstd::hash_map::StringHashMap;
use vstd::prelude::*;
use vstd::string::*;

use crate::cli;
use crate::cli::{
    format_help, set_value, Action, CliParser, CliReference, CliTables, CliView, ParserView,
    ReferenceView,
};
use crate::tables::HandleMap;
use crate::text;
use crate::value::{host_error, ErrorView, Value, ValueView, VmError, VmResult};

verus! {

/// A message with a quoted name in it.
pub open spec fn quoted(before: Seq<char>, name: Seq<char>, after: Seq<char>) -> ErrorView {
    ErrorView::Host(before + name + after)
}

fn quoted_error(before: &str, name: &str, after: &str) -> (r: VmError)
    ensures
        r@ == quoted(before@, name@, after@),
{
    host_error(text::join3(before, name, after).as_str())
}

/// Options with the first `n` names of a reference added; a name met twice is refused.
pub open spec fn with_names(
    options: Map<Seq<char>, i64>,
    names: Seq<Seq<char>>,
    handle: i64,
    n: nat,
) -> Result<Map<Seq<char>, i64>, ErrorView>
    decreases n,
{
    if n == 0 {
        Ok(options)
    } else {
        match with_names(options, names, handle, (n - 1) as nat) {
            Err(e) => Err(e),
            Ok(m) => {
                let name = names[n - 1];
                if m.contains_key(name) {
                    Err(quoted("duplicate CLI option '"@, name, "'"@))
                } else {
                    Ok(m.insert(name, handle))
                }
            },
        }
    }
}

/// The message on a reference that no option or argument sets.
pub open spec fn unbound_reference(handle: i64) -> ErrorView {
    ErrorView::Host(
        "CLI reference "@ + text::decimal(handle as int) + " has no option or argument"@,
    )
}

/// What a parser accepts: the handle of each option name, and the handles of the positional
/// arguments in order.
#[verifier::ext_equal]
pub struct Accepted {
    pub options: Map<Seq<char>, i64>,
    pub positionals: Seq<i64>,
}

/// What the first `n` references of a parser accept.
pub open spec fn accepted(
    handles: Seq<i64>,
    references: Map<i64, ReferenceView>,
    n: nat,
) -> Result<Accepted, ErrorView>
    decreases n,
{
    if n == 0 {
        Ok(Accepted { options: Map::empty(), positionals: Seq::empty() })
    } else {
        match accepted(handles, references, (n - 1) as nat) {
            Err(e) => Err(e),
            Ok(a) => {
                let h = handles[n - 1];
                let r = references[h];
                if !references.contains_key(h) {
                    Err(cli::unknown_reference(h))
                } else if r.action is None || r.names.len() == 0 {
                    Err(unbound_reference(h))
                } else if r.positional {
                    Ok(Accepted { positionals: a.positionals.push(h), ..a })
                } else {
                    match with_names(a.options, r.names, h, r.names.len()) {
                        Err(e) => Err(e),
                        Ok(options) => Ok(Accepted { options, ..a }),
                    }
                }
            },
        }
    }
}

proof fn lemma_with_names_error(
    options: Map<Seq<char>, i64>,
    names: Seq<Seq<char>>,
    handle: i64,
    n: nat,
    m: nat,
)
    requires
        n <= m,
        with_names(options, names, handle, n) is Err,
    ensures
        with_names(options, names, handle, m) == with_names(options, names, handle, n),
    decreases m,
{
    if n < m {
        lemma_with_names_error(options, names, handle, n, (m - 1) as nat);
    }
}

proof fn lemma_accepted_error(
    handles: Seq<i64>,
    references: Map<i64, ReferenceView>,
    n: nat,
    m: nat,
)
    requires
        n <= m,
        accepted(handles, references, n) is Err,
    ensures
        accepted(handles, references, m) == accepted(handles, references, n),
    decreases m,
{
    if n < m {
        lemma_accepted_error(handles, references, n, (m - 1) as nat);
    }
}

/// Every handle that is accepted names a reference with an action.
pub open spec fn points_at_actions(a: Accepted, references: Map<i64, ReferenceView>) -> bool {
    &&& forall|name: Seq<char>| #[trigger]
        a.options.contains_key(name) ==> {
            &&& references.contains_key(a.options[name])
            &&& references[a.options[name]].action is Some
        }
    &&& forall|i: int|
        0 <= i < a.positionals.len() ==> references.contains_key(#[trigger] a.positionals[i])
}

proof fn lemma_with_names_values(
    options: Map<Seq<char>, i64>,
    names: Seq<Seq<char>>,
    handle: i64,
    n: nat,
    name: Seq<char>,
)
    requires
        with_names(options, names, handle, n) is Ok,
        with_names(options, names, handle, n)->Ok_0.contains_key(name),
    ensures
        ({
            let m = with_names(options, names, handle, n)->Ok_0;
            m[name] == handle || (options.contains_key(name) && m[name] == options[name])
        }),
    decreases n,
{
    if n > 0 {
        let m = with_names(options, names, handle, (n - 1) as nat)->Ok_0;
        if m.contains_key(name) {
            lemma_with_names_values(options, names, handle, (n - 1) as nat, name);
        }
    }
}

pub proof fn lemma_accepted_points(handles: Seq<i64>, references: Map<i64, ReferenceView>, n: nat)
    requires
        accepted(handles, references, n) is Ok,
    ensures
        points_at_actions(accepted(handles, references, n)->Ok_0, references),
    decreases n,
{
    if n > 0 {
        lemma_accepted_points(handles, references, (n - 1) as nat);
        let a = accepted(handles, references, (n - 1) as nat)->Ok_0;
        let b = accepted(handles, references, n)->Ok_0;
        let h = handles[n - 1];
        let r = references[h];
        assert forall|name: Seq<char>| #[trigger] b.options.contains_key(name) implies {
            &&& references.contains_key(b.options[name])
            &&& references[b.options[name]].action is Some
        } by {
            if !r.positional {
                lemma_with_names_values(a.options, r.names, h, r.names.len(), name);
            }
            if a.options.contains_key(name) {
                assert(references.contains_key(a.options[name]));
            }
        }
    }
}

/// Adds the names of one reference to the options.
fn add_names(options: &mut StringHashMap<i64>, names: &Vec<String>, handle: i64) -> (r: VmResult<
    (),
>)
    ensures
        match r {
            Ok(()) => with_names(old(options)@, text::views(names@), handle, names@.len()) == Ok::<
                Map<Seq<char>, i64>,
                ErrorView,
            >(final(options)@),
            Err(e) => with_names(old(options)@, text::views(names@), handle, names@.len()) == Err::<
                Map<Seq<char>, i64>,
                ErrorView,
            >(e@),
        },
{
    let mut i: usize = 0;
    while i < names.len()
        invariant
            i <= names@.len(),
            with_names(old(options)@, text::views(names@), handle, i as nat) == Ok::<
                Map<Seq<char>, i64>,
                ErrorView,
            >(options@),
        decreases names@.len() - i,
    {
        let ghost models = text::views(names@);
        assert(models[i as int] == names@[i as int]@);
        if options.contains_key(names[i].as_str()) {
            proof {
                lemma_with_names_error(
                    old(options)@,
                    models,
                    handle,
                    (i + 1) as nat,
                    names@.len(),
                );
            }
            return Err(quoted_error("duplicate CLI option '", names[i].as_str(), "'"));
        }
        options.insert(names[i].clone(), handle);
        i = i + 1;
    }
    Ok(())
}

/// What the references of a parser accept.
fn collect(handles: &Vec<i64>, references: &HandleMap<CliReference>) -> (r: VmResult<
    (StringHashMap<i64>, Vec<i64>),
>)
    ensures
        match r {
            Ok((options, positionals)) => accepted(
                handles@,
                cli::reference_views(references@),
                handles@.len(),
            ) == Ok::<Accepted, ErrorView>(
                (Accepted { options: options@, positionals: positionals@ }),
            ),
            Err(e) => accepted(handles@, cli::reference_views(references@), handles@.len()) == Err::<
                Accepted,
                ErrorView,
            >(e@),
        },
{
    let ghost models = cli::reference_views(references@);
    let mut options: StringHashMap<i64> = StringHashMap::new();
    let mut positionals: Vec<i64> = Vec::new();
    let mut i: usize = 0;
    assert(accepted(handles@, models, 0)->Ok_0 =~= (Accepted {
        options: options@,
        positionals: positionals@,
    }));
    while i < handles.len()
        invariant
            i <= handles@.len(),
            models == cli::reference_views(references@),
            accepted(handles@, models, i as nat) == Ok::<Accepted, ErrorView>(
                (Accepted { options: options@, positionals: positionals@ }),
            ),
        decreases handles@.len() - i,
    {
        let handle: i64 = handles[i];
        proof {
            if accepted(handles@, models, (i + 1) as nat) is Err {
                lemma_accepted_error(handles@, models, (i + 1) as nat, handles@.len());
            }
        }
        match references.get(handle) {
            None => {
                return Err(cli::unknown_reference_error(handle));
            },
            Some(reference) => {
                assert(models.contains_key(handle));
                assert(models[handle] == reference@);
                if reference.action.is_none() || reference.names.len() == 0 {
                    return Err(
                        quoted_error(
                            "CLI reference ",
                            text::decimal_text(handle as i128).as_str(),
                            " has no option or argument",
                        ),
                    );
                }
                if reference.positional {
                    positionals.push(handle);
                } else {
                    match add_names(&mut options, &reference.names, handle) {
                        Ok(()) => {},
                        Err(e) => {
                            return Err(e);
                        },
                    }
                }
            },
        }
        i = i + 1;
    }
    Ok((options, positionals))
}

/// The name of an option and the value written behind `=`.
pub open spec fn option_parts(current: Seq<char>, enabled: bool) -> (Seq<char>, Option<Seq<char>>) {
    let at = text::find_from(current, '=', 0);
    if enabled && text::has_prefix(current, "--"@) && at < current.len() {
        (current.take(at), Some(current.skip(at + 1)))
    } else {
        (current, None)
    }
}

/// Where the scan stands.
#[verifier::ext_equal]
pub struct ScanView {
    pub index: int,
    pub positional: int,
    pub enabled: bool,
    pub references: Map<i64, ReferenceView>,
}

/// A scan that met `value` for `handle` and goes on at `index`.
pub open spec fn scan_store(s: ScanView, handle: i64, raw: Seq<char>, index: int) -> Result<
    ScanView,
    ErrorView,
> {
    match cli::stored(s.references[handle], raw) {
        Err(e) => Err(e),
        Ok(r) => Ok(ScanView { index, references: s.references.insert(handle, r), ..s }),
    }
}

/// A scan that met the switch of `handle`.
pub open spec fn scan_switch(
    s: ScanView,
    handle: i64,
    name: Seq<char>,
    inline: Option<Seq<char>>,
    on: bool,
) -> Result<ScanView, ErrorView> {
    if inline is Some {
        Err(quoted("option '"@, name, "' does not accept a value"@))
    } else {
        let r = ReferenceView { value: ValueView::Bool(on), seen: true, ..s.references[handle] };
        Ok(ScanView { index: s.index + 1, references: s.references.insert(handle, r), ..s })
    }
}

/// A scan that met an option.
pub open spec fn scan_option(
    s: ScanView,
    a: Accepted,
    args: Seq<Seq<char>>,
    name: Seq<char>,
    inline: Option<Seq<char>>,
) -> Result<ScanView, ErrorView> {
    if !a.options.contains_key(name) {
        Err(quoted("unrecognized option '"@, name, "'"@))
    } else {
        let handle = a.options[name];
        match s.references[handle].action->0 {
            Action::StoreTrue => scan_switch(s, handle, name, inline, true),
            Action::StoreFalse => scan_switch(s, handle, name, inline, false),
            _ => match inline {
                Some(raw) => scan_store(s, handle, raw, s.index + 1),
                None => if s.index + 1 < args.len() {
                    scan_store(s, handle, args[s.index + 1], s.index + 2)
                } else {
                    Err(quoted("option '"@, name, "' requires a value"@))
                },
            },
        }
    }
}

/// One step of the scan: the argument at `index` and what it calls for.
pub open spec fn scan_step(
    s: ScanView,
    a: Accepted,
    args: Seq<Seq<char>>,
    parser: ParserView,
) -> Result<ScanView, ErrorView> {
    let current = args[s.index];
    let (name, inline) = option_parts(current, s.enabled);
    if s.enabled && current == "--"@ {
        Ok(ScanView { index: s.index + 1, enabled: false, ..s })
    } else if s.enabled && (current == "-h"@ || current == "--help"@) {
        Err(ErrorView::Host(cli::help_text(parser, s.references)))
    } else if s.enabled && text::has_prefix(name, "-"@) {
        scan_option(s, a, args, name, inline)
    } else if s.positional >= a.positionals.len() {
        Err(quoted("unexpected positional argument '"@, current, "'"@))
    } else {
        match scan_store(s, a.positionals[s.positional], current, s.index + 1) {
            Err(e) => Err(e),
            Ok(t) => Ok(ScanView { positional: s.positional + 1, ..t }),
        }
    }
}

/// The scan of the arguments from where it stands to their end: the references as it leaves
/// them, and the error that stopped it, if one did.
pub open spec fn scan(
    s: ScanView,
    a: Accepted,
    args: Seq<Seq<char>>,
    parser: ParserView,
) -> (Map<i64, ReferenceView>, Option<ErrorView>)
    decreases args.len() - s.index,
{
    if s.index < 0 || s.index >= args.len() {
        (s.references, None)
    } else {
        match scan_step(s, a, args, parser) {
            Err(e) => (s.references, Some(e)),
            Ok(t) => scan(t, a, args, parser),
        }
    }
}

/// References that differ in their values at most, each value of its own kind.
pub open spec fn same_but_values(
    before: Map<i64, ReferenceView>,
    after: Map<i64, ReferenceView>,
) -> bool {
    &&& before.dom() == after.dom()
    &&& forall|h: i64| #[trigger]
        before.contains_key(h) ==> {
            &&& after[h] == (ReferenceView {
                value: after[h].value,
                seen: after[h].seen,
                ..before[h]
            })
            &&& cli::kind_of(after[h].value) == Some(after[h].kind)
            &&& !after[h].seen ==> after[h] == before[h]
            &&& before[h].seen ==> after[h].seen
        }
}

/// Every reference holds a value of its own kind, and switches hold booleans.
pub open spec fn typed(references: Map<i64, ReferenceView>) -> bool {
    forall|h: i64| #[trigger]
        references.contains_key(h) ==> {
            &&& cli::kind_of(references[h].value) == Some(references[h].kind)
            &&& cli::switch_is_bool(references[h])
        }
}

proof fn lemma_step_keeps(s: ScanView, a: Accepted, args: Seq<Seq<char>>, parser: ParserView)
    requires
        0 <= s.index < args.len(),
        0 <= s.positional,
        points_at_actions(a, s.references),
        typed(s.references),
    ensures
        scan_step(s, a, args, parser) matches Ok(t) ==> {
            &&& same_but_values(s.references, t.references)
            &&& points_at_actions(a, t.references)
            &&& typed(t.references)
            &&& s.index < t.index <= args.len()
            &&& 0 <= t.positional
        },
{
    let current = args[s.index];
    let (name, inline) = option_parts(current, s.enabled);
    if scan_step(s, a, args, parser) is Ok {
        let t = scan_step(s, a, args, parser)->Ok_0;
        assert(t.references.dom() =~= s.references.dom());
        assert forall|n: Seq<char>| #[trigger] a.options.contains_key(n) implies {
            &&& t.references.contains_key(a.options[n])
            &&& t.references[a.options[n]].action is Some
        } by {
            assert(s.references.contains_key(a.options[n]));
        }
        if s.enabled && a.options.contains_key(name) {
            assert(s.references.contains_key(a.options[name]));
        }
    }
}

/// The scan changes nothing but the values of references, and each keeps its kind.
pub proof fn lemma_scan_keeps(s: ScanView, a: Accepted, args: Seq<Seq<char>>, parser: ParserView)
    requires
        0 <= s.index <= args.len(),
        0 <= s.positional,
        points_at_actions(a, s.references),
        typed(s.references),
    ensures
        same_but_values(s.references, scan(s, a, args, parser).0),
        typed(scan(s, a, args, parser).0),
    decreases args.len() - s.index,
{
    if s.index < args.len() {
        lemma_step_keeps(s, a, args, parser);
        if let Ok(t) = scan_step(s, a, args, parser) {
            lemma_scan_keeps(t, a, args, parser);
            let last = scan(t, a, args, parser).0;
            assert forall|h: i64| #[trigger] s.references.contains_key(h) implies {
                &&& last[h] == (ReferenceView {
                    value: last[h].value,
                    seen: last[h].seen,
                    ..s.references[h]
                })
                &&& cli::kind_of(last[h].value) == Some(last[h].kind)
                &&& !last[h].seen ==> last[h] == s.references[h]
                &&& s.references[h].seen ==> last[h].seen
            } by {
                assert(t.references.contains_key(h));
            }
        }
    }
}

/// The first of the references from `n` on that is required and was not met.
pub open spec fn missing(
    handles: Seq<i64>,
    references: Map<i64, ReferenceView>,
    n: int,
) -> Option<ErrorView>
    decreases handles.len() - n,
{
    if n < 0 || n >= handles.len() {
        None
    } else {
        let r = references[handles[n]];
        if r.required && !r.seen {
            Some(
                quoted(
                    "required argument '"@,
                    if r.names.len() > 0 {
                        r.names[0]
                    } else {
                        "VALUE"@
                    },
                    "' is missing"@,
                ),
            )
        } else {
            missing(handles, references, n + 1)
        }
    }
}

/// What parsing makes of the references, and the error that it ends with, if it does.
pub open spec fn parsed_references(
    parser: ParserView,
    references: Map<i64, ReferenceView>,
    args: Seq<Seq<char>>,
) -> (Map<i64, ReferenceView>, Option<ErrorView>) {
    if parser.parsed {
        (references, Some(ErrorView::Host("CLI parser has already parsed its arguments"@)))
    } else {
        match accepted(parser.references, references, parser.references.len()) {
            Err(e) => (references, Some(e)),
            Ok(a) => {
                let start = ScanView { index: 0, positional: 0, enabled: true, references };
                let (scanned, stopped) = scan(start, a, args, parser);
                match stopped {
                    Some(e) => (scanned, Some(e)),
                    None => (scanned, missing(parser.references, scanned, 0)),
                }
            },
        }
    }
}

/// What [`cli_parse_args`] returns, and the tables as it leaves them.
pub open spec fn parse_outcome(cli: CliView, args: Seq<Seq<char>>, handle: i64) -> (
    CliView,
    Option<ErrorView>,
) {
    if !cli.parsers.contains_key(handle) {
        (cli, Some(cli::unknown_parser(handle)))
    } else {
        let parser = cli.parsers[handle];
        let (references, error) = parsed_references(parser, cli.references, args);
        let scanned = CliView { references, ..cli };
        match error {
            Some(e) => (scanned, Some(e)),
            None => (
                cli::with_parser(scanned, handle, ParserView { parsed: true, ..parser }),
                None,
            ),
        }
    }
}

/// Where the scan stands.
struct Cursor {
    index: usize,
    positional: usize,
    enabled: bool,
}

spec fn at(cursor: Cursor, references: Map<i64, CliReference>) -> ScanView {
    ScanView {
        index: cursor.index as int,
        positional: cursor.positional as int,
        enabled: cursor.enabled,
        references: cli::reference_views(references),
    }
}

/// Stores `raw` in the reference `handle`.
fn store(references: &mut HandleMap<CliReference>, handle: i64, raw: &str) -> (r: VmResult<()>)
    requires
        old(references)@.contains_key(handle),
    ensures
        ({
            let before = cli::reference_views(old(references)@);
            let after = cli::reference_views(final(references)@);
            match r {
                Ok(()) => match cli::stored(before[handle], raw@) {
                    Ok(v) => after == before.insert(handle, v),
                    Err(_) => false,
                },
                Err(e) => {
                    &&& cli::stored(before[handle], raw@) == Err::<ReferenceView, ErrorView>(e@)
                    &&& after == before
                },
            }
        }),
{
    let ghost before = cli::reference_views(references@);
    match references.remove(handle) {
        Some(mut reference) => {
            let r: VmResult<()> = set_value(&mut reference, raw);
            let ghost model = reference@;
            references.insert(handle, reference);
            assert(cli::reference_views(references@) =~= before.insert(handle, model));
            assert(before.insert(handle, before[handle]) =~= before);
            r
        },
        None => Ok(()),
    }
}

/// Sets the switch `handle`.
fn set_switch(references: &mut HandleMap<CliReference>, handle: i64, on: bool)
    requires
        old(references)@.contains_key(handle),
    ensures
        ({
            let before = cli::reference_views(old(references)@);
            cli::reference_views(final(references)@) == before.insert(
                handle,
                (ReferenceView { value: ValueView::Bool(on), seen: true, ..before[handle] }),
            )
        }),
{
    let ghost before = cli::reference_views(references@);
    match references.remove(handle) {
        Some(mut reference) => {
            reference.value = Value::Bool(on);
            reference.seen = true;
            let ghost model = reference@;
            references.insert(handle, reference);
            assert(cli::reference_views(references@) =~= before.insert(handle, model));
        },
        None => {},
    }
}

/// Takes one step of the scan.
fn step(
    references: &mut HandleMap<CliReference>,
    options: &StringHashMap<i64>,
    positionals: &Vec<i64>,
    args: &Vec<String>,
    parser: &CliParser,
    cursor: Cursor,
) -> (r: VmResult<Cursor>)
    requires
        cursor.index < args@.len(),
        points_at_actions(
            (Accepted { options: options@, positionals: positionals@ }),
            cli::reference_views(old(references)@),
        ),
    ensures
        ({
            let a = Accepted { options: options@, positionals: positionals@ };
            let before = at(cursor, old(references)@);
            match r {
                Ok(next) => scan_step(before, a, text::views(args@), parser@) == Ok::<
                    ScanView,
                    ErrorView,
                >(at(next, final(references)@)),
                Err(e) => {
                    &&& scan_step(before, a, text::views(args@), parser@) == Err::<
                        ScanView,
                        ErrorView,
                    >(e@)
                    &&& cli::reference_views(final(references)@) == before.references
                },
            }
        }),
{
    let ghost a = Accepted { options: options@, positionals: positionals@ };
    let ghost models = text::views(args@);
    let ghost before = at(cursor, references@);
    let Cursor { index, positional, enabled } = cursor;
    let count: usize = args.len();
    let current: &str = args[index].as_str();
    assert(models[index as int] == current@);
    if enabled && text::same_text(current, "--") {
        return Ok(Cursor { index: index + 1, positional, enabled: false });
    }
    if enabled && (text::same_text(current, "-h") || text::same_text(current, "--help")) {
        return Err(host_error(format_help(parser, references).as_str()));
    }
    let mut name: String = current.to_owned();
    let mut inline: Option<String> = None;
    if enabled && text::starts_with(current, "--") {
        match text::split_once(current, '=') {
            Some((head, value)) => {
                name = head;
                inline = Some(value);
            },
            None => {},
        }
    }
    assert(option_parts(current@, enabled) == (name@, cli::optional_text(inline)));
    if enabled && text::starts_with(name.as_str(), "-") {
        let handle: i64 = match options.get(name.as_str()) {
            Some(handle) => *handle,
            None => {
                return Err(quoted_error("unrecognized option '", name.as_str(), "'"));
            },
        };
        assert(a.options.contains_key(name@));
        assert(before.references.contains_key(handle));
        let action: Option<Action> = match references.get(handle) {
            Some(reference) => reference.action,
            None => None,
        };
        assert(action == before.references[handle].action);
        match action {
            Some(Action::StoreTrue) => {
                if inline.is_some() {
                    return Err(
                        quoted_error("option '", name.as_str(), "' does not accept a value"),
                    );
                }
                set_switch(references, handle, true);
                Ok(Cursor { index: index + 1, positional, enabled })
            },
            Some(Action::StoreFalse) => {
                if inline.is_some() {
                    return Err(
                        quoted_error("option '", name.as_str(), "' does not accept a value"),
                    );
                }
                set_switch(references, handle, false);
                Ok(Cursor { index: index + 1, positional, enabled })
            },
            _ => {
                match inline {
                    Some(raw) => {
                        match store(references, handle, raw.as_str()) {
                            Ok(()) => Ok(Cursor { index: index + 1, positional, enabled }),
                            Err(e) => Err(e),
                        }
                    },
                    None => {
                        if index + 1 >= count {
                            return Err(
                                quoted_error("option '", name.as_str(), "' requires a value"),
                            );
                        }
                        let raw: &str = args[index + 1].as_str();
                        assert(models[index + 1] == raw@);
                        match store(references, handle, raw) {
                            Ok(()) => Ok(Cursor { index: index + 2, positional, enabled }),
                            Err(e) => Err(e),
                        }
                    },
                }
            },
        }
    } else {
        if positional >= positionals.len() {
            return Err(quoted_error("unexpected positional argument '", current, "'"));
        }
        let handle: i64 = positionals[positional];
        assert(before.references.contains_key(a.positionals[positional as int]));
        match store(references, handle, current) {
            Ok(()) => Ok(
                Cursor { index: index + 1, positional: positional + 1, enabled },
            ),
            Err(e) => Err(e),
        }
    }
}

/// Scans all the arguments.
fn scan_all(
    references: &mut HandleMap<CliReference>,
    options: &StringHashMap<i64>,
    positionals: &Vec<i64>,
    args: &Vec<String>,
    parser: &CliParser,
) -> (r: VmResult<()>)
    requires
        points_at_actions(
            (Accepted { options: options@, positionals: positionals@ }),
            cli::reference_views(old(references)@),
        ),
        typed(cli::reference_views(old(references)@)),
    ensures
        ({
            let a = Accepted { options: options@, positionals: positionals@ };
            let start = ScanView {
                index: 0,
                positional: 0,
                enabled: true,
                references: cli::reference_views(old(references)@),
            };
            let after = cli::reference_views(final(references)@);
            scan(start, a, text::views(args@), parser@) == match r {
                Ok(()) => (after, None::<ErrorView>),
                Err(e) => (after, Some(e@)),
            }
        }),
{
    let ghost a = Accepted { options: options@, positionals: positionals@ };
    let ghost models = text::views(args@);
    let ghost start = ScanView {
        index: 0,
        positional: 0,
        enabled: true,
        references: cli::reference_views(references@),
    };
    let mut cursor: Cursor = Cursor { index: 0, positional: 0, enabled: true };
    while cursor.index < args.len()
        invariant
            a == (Accepted { options: options@, positionals: positionals@ }),
            models == text::views(args@),
            cursor.index <= args@.len(),
            points_at_actions(a, cli::reference_views(references@)),
            typed(cli::reference_views(references@)),
            start == (ScanView {
                index: 0,
                positional: 0,
                enabled: true,
                references: cli::reference_views(old(references)@),
            }),
            scan(at(cursor, references@), a, models, parser@) == scan(start, a, models, parser@),
        decreases args@.len() - cursor.index,
    {
        proof {
            lemma_step_keeps(at(cursor, references@), a, models, parser@);
        }
        let ghost here = at(cursor, references@);
        match step(references, options, positionals, args, parser, cursor) {
            Ok(next) => {
                cursor = next;
            },
            Err(e) => {
                assert(scan(here, a, models, parser@) == (here.references, Some(e@)));
                return Err(e);
            },
        }
    }
    Ok(())
}

/// Finds the first reference that is required and was not met.
fn check_required(handles: &Vec<i64>, references: &HandleMap<CliReference>) -> (r: VmResult<()>)
    requires
        forall|i: int|
            0 <= i < handles@.len() ==> references@.contains_key(#[trigger] handles@[i]),
    ensures
        missing(handles@, cli::reference_views(references@), 0) == match r {
            Ok(()) => None::<ErrorView>,
            Err(e) => Some(e@),
        },
{
    let ghost models = cli::reference_views(references@);
    let mut i: usize = 0;
    while i < handles.len()
        invariant
            i <= handles@.len(),
            models == cli::reference_views(references@),
            forall|k: int|
                0 <= k < handles@.len() ==> references@.contains_key(#[trigger] handles@[k]),
            missing(handles@, models, i as int) == missing(handles@, models, 0),
        decreases handles@.len() - i,
    {
        let handle: i64 = handles[i];
        assert(references@.contains_key(handles@[i as int]));
        match references.get(handle) {
            Some(reference) => {
                assert(models[handle] == reference@);
                if reference.required && !reference.seen {
                    let name: &str = if reference.names.len() > 0 {
                        reference.names[0].as_str()
                    } else {
                        "VALUE"
                    };
                    return Err(quoted_error("required argument '", name, "' is missing"));
                }
            },
            None => {},
        }
        i = i + 1;
    }
    Ok(())
}

/// The tables stay well formed when the scan changes the values of references.
proof fn lemma_scanned_wf(before: CliView, references: Map<i64, ReferenceView>)
    requires
        before.wf(),
        same_but_values(before.references, references),
        typed(references),
    ensures
        (CliView { references, ..before }).wf(),
{
    let after = CliView { references, ..before };
    assert forall|p: i64| #[trigger] after.parsers.contains_key(p) implies {
        &&& p < after.next_handle
        &&& after.parsers[p].references.no_duplicates()
        &&& forall|i: int|
            0 <= i < after.parsers[p].references.len() ==> {
                let h = #[trigger] after.parsers[p].references[i];
                after.references.contains_key(h) && after.references[h].parser == p
            }
    } by {
        assert(before.parsers.contains_key(p));
        assert forall|i: int| 0 <= i < after.parsers[p].references.len() implies {
            let h = #[trigger] after.parsers[p].references[i];
            after.references.contains_key(h) && after.references[h].parser == p
        } by {
            assert(before.references.contains_key(before.parsers[p].references[i]));
        }
    }
    assert forall|h: i64| #[trigger] after.references.contains_key(h) implies {
        &&& h < after.next_handle
        &&& after.parsers.contains_key(after.references[h].parser)
        &&& after.parsers[after.references[h].parser].references.contains(h)
        &&& cli::kind_of(after.references[h].value) == Some(after.references[h].kind)
        &&& cli::switch_is_bool(after.references[h])
    } by {
        assert(before.references.contains_key(h));
    }
}

/// Parses the arguments into the references of `parser`.
fn parse_into(
    references: &mut HandleMap<CliReference>,
    args: &Vec<String>,
    parser: &CliParser,
) -> (r: VmResult<Value>)
    requires
        typed(cli::reference_views(old(references)@)),
        forall|i: int|
            0 <= i < parser.references@.len() ==> old(references)@.contains_key(
                #[trigger] parser.references@[i],
            ),
    ensures
        ({
            let before = cli::reference_views(old(references)@);
            let after = cli::reference_views(final(references)@);
            &&& same_but_values(before, after)
            &&& typed(after)
            &&& parsed_references(parser@, before, text::views(args@)) == match r {
                Ok(_) => (after, None::<ErrorView>),
                Err(e) => (after, Some(e@)),
            }
            &&& r is Ok ==> r->Ok_0 == Value::Bool(true)
        }),
{
    let ghost before = cli::reference_views(references@);
    if parser.parsed {
        return Err(host_error("CLI parser has already parsed its arguments"));
    }
    let (options, positionals) = match collect(&parser.references, references) {
        Ok(pair) => pair,
        Err(e) => {
            return Err(e);
        },
    };
    let ghost a = Accepted { options: options@, positionals: positionals@ };
    proof {
        lemma_accepted_points(parser.references@, before, parser.references@.len());
        let start = ScanView { index: 0, positional: 0, enabled: true, references: before };
        lemma_scan_keeps(start, a, text::views(args@), parser@);
    }
    match scan_all(references, &options, &positionals, args, parser) {
        Ok(()) => {},
        Err(e) => {
            return Err(e);
        },
    }
    assert forall|i: int| 0 <= i < parser.references@.len() implies references@.contains_key(
        #[trigger] parser.references@[i],
    ) by {
        assert(before.contains_key(parser.references@[i]));
        assert(cli::reference_views(references@).contains_key(parser.references@[i]));
    }
    match check_required(&parser.references, references) {
        Ok(()) => Ok(Value::Bool(true)),
        Err(e) => Err(e),
    }
}

/// Parses the script arguments into the references of a parser.
///
/// Where an argument is refused, the references keep what the arguments before it stored, and the
/// parser still counts as not having parsed.
pub fn cli_parse_args(cli: &mut CliTables, args: &Vec<String>, parser_handle: i64) -> (r: VmResult<
    Value,
>)
    requires
        old(cli)@.wf(),
    ensures
        final(cli)@.wf(),
        final(cli)@ == parse_outcome(old(cli)@, text::views(args@), parser_handle).0,
        match parse_outcome(old(cli)@, text::views(args@), parser_handle).1 {
            None => r is Ok && r->Ok_0 == Value::Bool(true),
            Some(e) => r is Err && r->Err_0@ == e,
        },
{
    let ghost before = cli@;
    let parser: CliParser = match cli.parsers.remove(parser_handle) {
        Some(parser) => parser,
        None => {
            assert(cli@.parsers =~= before.parsers);
            return Err(cli::unknown_parser_error(parser_handle));
        },
    };
    let ghost model = parser@;
    assert(model == before.parsers[parser_handle]);
    assert(before.parsers.contains_key(parser_handle));
    proof {
        assert forall|i: int| 0 <= i < model.references.len() implies cli.references@.contains_key(
            #[trigger] parser.references@[i],
        ) by {
            assert(before.references.contains_key(model.references[i]));
        }
    }
    let r: VmResult<Value> = parse_into(&mut cli.references, args, &parser);
    let parsed: bool = parser.parsed || r.is_ok();
    cli.parsers.insert(
        parser_handle,
        CliParser { description: parser.description, references: parser.references, parsed },
    );
    proof {
        let outcome = parse_outcome(before, text::views(args@), parser_handle);
        assert(cli@.parsers =~= before.parsers.insert(
            parser_handle,
            ParserView { parsed, ..model },
        ));
        assert(before.parsers.insert(parser_handle, model) =~= before.parsers);
        let scanned = CliView { references: cli@.references, ..before };
        lemma_scanned_wf(before, cli@.references);
        cli::lemma_with_parser(scanned, parser_handle, ParserView { parsed, ..model });
        assert(cli@ =~= cli::with_parser(scanned, parser_handle, ParserView { parsed, ..model }));
    }
    r
}

} // verus!
