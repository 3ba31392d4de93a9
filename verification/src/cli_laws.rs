//! What holds of every command-line parser.
use vstd::prelude::*;

use crate::cli;
use crate::cli::{CliView, ParserView, ReferenceView};
use crate::cli_parse;
use crate::cli_parse::{Accepted, ScanView};
use crate::number;
use crate::text;
use crate::value::{ErrorView, FloatView, Value, ValueView};

verus! {

/// A handle that is given out next names no parser and no reference yet.
pub proof fn law_next_handle_is_fresh(cli: CliView)
    requires
        cli.wf(),
    ensures
        !cli.parsers.contains_key(cli.next_handle),
        !cli.references.contains_key(cli.next_handle),
{
}

/// A parser parses once: after a parse that succeeded, every further parse is refused and changes
/// nothing.
pub proof fn law_parses_once(
    cli: CliView,
    args: Seq<Seq<char>>,
    handle: i64,
    again: Seq<Seq<char>>,
)
    requires
        cli_parse::parse_outcome(cli, args, handle).1 is None,
    ensures
        ({
            let after = cli_parse::parse_outcome(cli, args, handle).0;
            cli_parse::parse_outcome(after, again, handle) == (
                after,
                Some(ErrorView::Host("CLI parser has already parsed its arguments"@)),
            )
        }),
{
}

/// A reference cannot be read before its parser has parsed.
pub proof fn law_read_needs_parse(cli: CliView, reference: i64)
    requires
        cli.references.contains_key(reference),
        !cli.parsers[cli.references[reference].parser].parsed,
    ensures
        cli::read_outcome(cli, reference) == Err::<ValueView, ErrorView>(
            ErrorView::Host("parse_args must be called before reading a reference"@),
        ),
{
}

proof fn lemma_none_missing(handles: Seq<i64>, references: Map<i64, ReferenceView>, n: int, i: int)
    requires
        0 <= n <= i < handles.len(),
        cli_parse::missing(handles, references, n) is None,
    ensures
        references[handles[i]].required ==> references[handles[i]].seen,
    decreases handles.len() - n,
{
    if n < i {
        lemma_none_missing(handles, references, n + 1, i);
    }
}

/// A parse that succeeds has met every required reference of its parser, and the references can
/// then be read.
pub proof fn law_required_are_met(cli: CliView, args: Seq<Seq<char>>, handle: i64, i: int)
    requires
        cli.wf(),
        cli_parse::parse_outcome(cli, args, handle).1 is None,
        0 <= i < cli.parsers[handle].references.len(),
    ensures
        ({
            let after = cli_parse::parse_outcome(cli, args, handle).0;
            let h = cli.parsers[handle].references[i];
            &&& after.references[h].required ==> after.references[h].seen
            &&& cli::read_outcome(after, h) == Ok::<ValueView, ErrorView>(
                after.references[h].value,
            )
        }),
{
    let after = cli_parse::parse_outcome(cli, args, handle).0;
    let handles = cli.parsers[handle].references;
    lemma_none_missing(handles, after.references, 0, i);
    law_parse_keeps_kinds(cli, args, handle, handles[i]);
    assert(cli.references.contains_key(handles[i]));
}

proof fn lemma_parse_keeps(cli: CliView, args: Seq<Seq<char>>, handle: i64)
    requires
        cli.wf(),
    ensures
        cli_parse::same_but_values(
            cli.references,
            cli_parse::parse_outcome(cli, args, handle).0.references,
        ),
{
    assert(cli_parse::typed(cli.references));
    assert(cli_parse::same_but_values(cli.references, cli.references));
    if cli.parsers.contains_key(handle) && !cli.parsers[handle].parsed {
        let parser = cli.parsers[handle];
        if let Ok(a) = cli_parse::accepted(
            parser.references,
            cli.references,
            parser.references.len(),
        ) {
            cli_parse::lemma_accepted_points(
                parser.references,
                cli.references,
                parser.references.len(),
            );
            let start = ScanView {
                index: 0,
                positional: 0,
                enabled: true,
                references: cli.references,
            };
            cli_parse::lemma_scan_keeps(start, a, args, parser);
        }
    }
}

/// Whatever the arguments, parsing keeps every reference with its kind and holds a value of that
/// kind in it; a reference that the arguments never met keeps the value it was made with.
pub proof fn law_parse_keeps_kinds(cli: CliView, args: Seq<Seq<char>>, handle: i64, reference: i64)
    requires
        cli.wf(),
        cli.references.contains_key(reference),
    ensures
        ({
            let before = cli.references[reference];
            let after = cli_parse::parse_outcome(cli, args, handle).0.references[reference];
            &&& cli_parse::parse_outcome(cli, args, handle).0.references.contains_key(reference)
            &&& after.kind == before.kind
            &&& after.parser == before.parser
            &&& cli::kind_of(after.value) == Some(before.kind)
            &&& !after.seen ==> after.value == before.value
        }),
{
    lemma_parse_keeps(cli, args, handle);
    assert(cli_parse::parse_outcome(cli, args, handle).0.references.dom().contains(reference));
}

/// The same scan over arguments that agree from where it stands.
proof fn lemma_scan_suffix(
    s: ScanView,
    t: ScanView,
    a: Accepted,
    left: Seq<Seq<char>>,
    right: Seq<Seq<char>>,
    parser: ParserView,
)
    requires
        0 <= s.index <= left.len(),
        0 <= t.index <= right.len(),
        left.skip(s.index) == right.skip(t.index),
        s.positional == t.positional,
        s.enabled == t.enabled,
        s.references == t.references,
    ensures
        cli_parse::scan(s, a, left, parser) == cli_parse::scan(t, a, right, parser),
    decreases left.len() - s.index,
{
    assert(left.skip(s.index).len() == left.len() - s.index);
    assert(right.skip(t.index).len() == right.len() - t.index);
    if s.index < left.len() {
        assert(left.skip(s.index)[0] == left[s.index]);
        assert(right.skip(t.index)[0] == right[t.index]);
        if s.index + 1 < left.len() {
            assert(left.skip(s.index)[1] == left[s.index + 1]);
            assert(right.skip(t.index)[1] == right[t.index + 1]);
        }
        let x = cli_parse::scan_step(s, a, left, parser);
        let y = cli_parse::scan_step(t, a, right, parser);
        assert(left[s.index] == right[t.index]);
        assert(s.index + 1 < left.len() <==> t.index + 1 < right.len());
        if x is Err {
            assert(y == x);
            assert(cli_parse::scan(s, a, left, parser) == (s.references, Some(x->Err_0)));
            assert(cli_parse::scan(t, a, right, parser) == (t.references, Some(x->Err_0)));
        }
        if let Ok(u) = x {
            let v = y->Ok_0;
            let d = u.index - s.index;
            assert(d == 1 || d == 2);
            assert(v.index == t.index + d);
            assert(left.skip(u.index) =~= left.skip(s.index).skip(d));
            assert(right.skip(v.index) =~= right.skip(t.index).skip(d));
            lemma_scan_suffix(u, v, a, left, right, parser);
        }
    }
}

/// `--name=value` means what `--name value` means, for an option that takes a value.
pub proof fn law_inline_value(
    s: ScanView,
    a: Accepted,
    parser: ParserView,
    name: Seq<char>,
    value: Seq<char>,
    rest: Seq<Seq<char>>,
)
    requires
        s.index == 0,
        s.enabled,
        text::has_prefix(name, "--"@),
        name != "--"@,
        name != "--help"@,
        text::find_from(name, '=', 0) == name.len(),
        a.options.contains_key(name),
        s.references[a.options[name]].action is Some,
        s.references[a.options[name]].action->0.takes(),
    ensures
        cli_parse::scan(s, a, seq![name + seq!['='] + value] + rest, parser) == cli_parse::scan(
            s,
            a,
            seq![name, value] + rest,
            parser,
        ),
{
    let left = seq![name + seq!['='] + value] + rest;
    let right = seq![name, value] + rest;
    let inline = name + seq!['='] + value;
    reveal_strlit("--");
    reveal_strlit("-");
    reveal_strlit("-h");
    reveal_strlit("--help");
    lemma_find_in_prefix(name, value, 0);
    text::lemma_find_from(name, '=', 0);
    assert(inline[name.len() as int] == '=');
    assert(name.take(2) == "--"@);
    assert(name[0] == '-' && name[1] == '-') by {
        assert(name.take(2)[0] == '-');
        assert(name.take(2)[1] == '-');
    }
    assert(inline.take(2) =~= "--"@);
    assert(inline.take(name.len() as int) =~= name);
    assert(inline.skip(name.len() as int + 1) =~= value);
    assert(name.take(1) =~= "-"@);
    assert(!"--"@.contains('='));
    assert(inline != "--"@ && inline != "-h"@ && inline != "--help"@) by {
        assert(inline.contains('='));
        assert(!"-h"@.contains('='));
        assert(!"--help"@.contains('='));
    }
    assert(name != "-h"@);
    let x = cli_parse::scan_step(s, a, left, parser);
    let y = cli_parse::scan_step(s, a, right, parser);
    assert(left[0] == inline);
    assert(right[0] == name);
    assert(right[1] == value);
    assert(x == cli_parse::scan_option(s, a, left, name, Some(value)));
    assert(y == cli_parse::scan_option(s, a, right, name, None));
    if let Ok(u) = x {
        let v = y->Ok_0;
        assert(left.skip(u.index) =~= rest);
        assert(right.skip(v.index) =~= rest);
        lemma_scan_suffix(u, v, a, left, right, parser);
    }
}

proof fn lemma_find_in_prefix(name: Seq<char>, value: Seq<char>, from: int)
    requires
        0 <= from <= name.len(),
        text::find_from(name, '=', from) == name.len(),
    ensures
        text::find_from(name + seq!['='] + value, '=', from) == name.len(),
    decreases name.len() - from,
{
    let whole = name + seq!['='] + value;
    if from < name.len() {
        assert(whole[from] == name[from]);
        if name[from] == '=' {
            assert(text::find_from(name, '=', from) == from);
        }
        lemma_find_in_prefix(name, value, from + 1);
    } else {
        assert(whole[from] == '=');
    }
}

/// Behind `--` every argument is positional: a step stores it in the next positional reference,
/// or refuses it for want of one or for its form, whatever it looks like.
pub proof fn law_separator_ends_options(
    s: ScanView,
    a: Accepted,
    args: Seq<Seq<char>>,
    parser: ParserView,
)
    requires
        !s.enabled,
        0 <= s.index < args.len(),
        0 <= s.positional < a.positionals.len(),
    ensures
        ({
            let h = a.positionals[s.positional];
            match cli_parse::scan_step(s, a, args, parser) {
                Ok(t) => {
                    &&& !t.enabled
                    &&& t.index == s.index + 1
                    &&& t.positional == s.positional + 1
                    &&& cli::stored(s.references[h], args[s.index]) == Ok::<
                        ReferenceView,
                        ErrorView,
                    >(t.references[h])
                },
                Err(e) => cli::stored(s.references[h], args[s.index]) == Err::<
                    ReferenceView,
                    ErrorView,
                >(e),
            }
        }),
{
}

/// Whether `r` was met, and holds what a text reads as in a reference of this kind.
pub open spec fn reads_as(kind: cli::ValueKind, raw: Seq<char>, r: ReferenceView) -> bool {
    &&& r.seen
    &&& r.kind == kind
    &&& match kind {
        cli::ValueKind::String => r.value == ValueView::String(raw),
        cli::ValueKind::Int => r.value is Int && number::signed_literal(raw) == Some(
            r.value->Int_0 as int,
        ),
        cli::ValueKind::Float => r.value == ValueView::Float(FloatView::Literal(raw))
            && number::is_float_literal(raw),
        cli::ValueKind::Bool => (r.value == ValueView::Bool(true) && raw == "true"@) || (r.value
            == ValueView::Bool(false) && raw == "false"@),
    }
}

/// What the references of a parser accept: the positional ones in their order, and each name of
/// another for its reference.
proof fn lemma_accepted_shape(handles: Seq<i64>, references: Map<i64, ReferenceView>, n: nat)
    requires
        n <= handles.len(),
        cli_parse::accepted(handles, references, n) is Ok,
    ensures
        ({
            let a = cli_parse::accepted(handles, references, n)->Ok_0;
            &&& a.positionals == handles.take(n as int).filter(
                |h: i64| references[h].positional,
            )
            &&& forall|i: int, name: Seq<char>|
                0 <= i < n && !references[handles[i]].positional
                    && #[trigger] references[handles[i]].names.contains(name)
                    ==> a.options.contains_key(name) && a.options[name] == handles[i]
            &&& forall|name: Seq<char>| #[trigger]
                a.options.contains_key(name) ==> exists|i: int|
                    0 <= i < n && a.options[name] == handles[i] && !references[handles[i]].positional
                        && #[trigger] references[handles[i]].names.contains(name)
        }),
    decreases n,
{
    let pred = |h: i64| references[h].positional;
    if n == 0 {
        assert(handles.take(0).filter(pred) =~= Seq::<i64>::empty()) by {
            reveal(Seq::filter);
        }
    } else {
        lemma_accepted_shape(handles, references, (n - 1) as nat);
        let a = cli_parse::accepted(handles, references, (n - 1) as nat)->Ok_0;
        let b = cli_parse::accepted(handles, references, n)->Ok_0;
        let h = handles[n - 1];
        let r = references[h];
        handles.take(n - 1).lemma_filter_push(h, pred);
        assert(handles.take(n - 1).push(h) =~= handles.take(n as int));
        if !r.positional {
            lemma_names_shape(a.options, r.names, h, r.names.len());
            assert forall|i: int, name: Seq<char>|
                0 <= i < n && !references[handles[i]].positional
                    && #[trigger] references[handles[i]].names.contains(
                    name,
                ) implies b.options.contains_key(name) && b.options[name] == handles[i] by {
                if i < n - 1 {
                    assert(a.options.contains_key(name));
                }
            }
            assert forall|name: Seq<char>| #[trigger]
                b.options.contains_key(name) implies exists|i: int|
                0 <= i < n && b.options[name] == handles[i] && !references[handles[i]].positional
                    && #[trigger] references[handles[i]].names.contains(name) by {
                if a.options.contains_key(name) {
                    let i = choose|i: int|
                        0 <= i < n - 1 && a.options[name] == handles[i]
                            && !references[handles[i]].positional
                            && #[trigger] references[handles[i]].names.contains(name);
                    assert(references[handles[i]].names.contains(name));
                } else {
                    assert(references[handles[n - 1]].names.contains(name));
                }
            }
        }
    }
}

proof fn lemma_names_shape(
    options: Map<Seq<char>, i64>,
    names: Seq<Seq<char>>,
    handle: i64,
    n: nat,
)
    requires
        n <= names.len(),
        cli_parse::with_names(options, names, handle, n) is Ok,
    ensures
        ({
            let m = cli_parse::with_names(options, names, handle, n)->Ok_0;
            &&& forall|name: Seq<char>| #[trigger]
                options.contains_key(name) ==> m.contains_key(name) && m[name] == options[name]
            &&& forall|i: int|
                0 <= i < n ==> m.contains_key(#[trigger] names[i]) && m[names[i]] == handle
                    && !options.contains_key(names[i])
            &&& forall|name: Seq<char>| #[trigger]
                m.contains_key(name) ==> options.contains_key(name) || names.contains(name)
        }),
    decreases n,
{
    if n > 0 {
        lemma_names_shape(options, names, handle, (n - 1) as nat);
        let m = cli_parse::with_names(options, names, handle, (n - 1) as nat)->Ok_0;
        assert(names.contains(names[n - 1]));
        assert forall|i: int| 0 <= i < n implies {
            &&& m.insert(names[n - 1], handle).contains_key(#[trigger] names[i])
            &&& m.insert(names[n - 1], handle)[names[i]] == handle
            &&& !options.contains_key(names[i])
        } by {
            if i < n - 1 {
                assert(m.contains_key(names[i]));
            }
        }
    }
}

/// The parser accepts each name of an option for its reference and no other name, and the
/// positional references in the order in which they were made.
pub proof fn law_accepted_names(cli: CliView, handle: i64)
    requires
        cli_parse::accepted(
            cli.parsers[handle].references,
            cli.references,
            cli.parsers[handle].references.len(),
        ) is Ok,
    ensures
        ({
            let handles = cli.parsers[handle].references;
            let a = cli_parse::accepted(handles, cli.references, handles.len())->Ok_0;
            &&& a.positionals == handles.filter(|h: i64| cli.references[h].positional)
            &&& forall|i: int, name: Seq<char>|
                0 <= i < handles.len() && !cli.references[handles[i]].positional
                    && #[trigger] cli.references[handles[i]].names.contains(name)
                    ==> a.options.contains_key(name) && a.options[name] == handles[i]
            &&& forall|name: Seq<char>| #[trigger]
                a.options.contains_key(name) ==> exists|i: int|
                    0 <= i < handles.len() && a.options[name] == handles[i]
                        && !cli.references[handles[i]].positional
                        && #[trigger] cli.references[handles[i]].names.contains(name)
        }),
{
    let handles = cli.parsers[handle].references;
    lemma_accepted_shape(handles, cli.references, handles.len());
    assert(handles.take(handles.len() as int) =~= handles);
}

proof fn lemma_positional_scan(s: ScanView, a: Accepted, args: Seq<Seq<char>>, parser: ParserView)
    requires
        s.enabled,
        0 <= s.index <= args.len(),
        0 <= s.positional <= a.positionals.len(),
        a.positionals.no_duplicates(),
        forall|i: int|
            0 <= i < args.len() ==> (#[trigger] args[i]).len() == 0 || args[i][0] != '-',
        cli_parse::scan(s, a, args, parser).1 is None,
    ensures
        ({
            let after = cli_parse::scan(s, a, args, parser).0;
            let shift = s.positional - s.index;
            &&& args.len() + shift <= a.positionals.len()
            &&& forall|i: int|
                s.index <= i < args.len() ==> {
                    let h = a.positionals[i + shift];
                    reads_as(s.references[h].kind, #[trigger] args[i], after[h])
                }
            &&& forall|h: i64|
                (forall|i: int| s.positional <= i < args.len() + shift ==> a.positionals[i] != h)
                    ==> #[trigger] after[h] == s.references[h]
        }),
    decreases args.len() - s.index,
{
    if s.index < args.len() {
        let current = args[s.index];
        reveal_strlit("-");
        reveal_strlit("--");
        reveal_strlit("-h");
        reveal_strlit("--help");
        assert(current.len() == 0 || current[0] != '-');
        assert(!text::has_prefix(current, "-"@)) by {
            if text::has_prefix(current, "-"@) {
                assert(current.take(1)[0] == "-"@[0]);
            }
        }
        assert(!text::has_prefix(current, "--"@)) by {
            if text::has_prefix(current, "--"@) {
                assert(current.take(2)[0] == "--"@[0]);
            }
        }
        let t = cli_parse::scan_step(s, a, args, parser)->Ok_0;
        let h = a.positionals[s.positional];
        lemma_stored_reads(s.references[h], current);
        assert(reads_as(s.references[h].kind, current, t.references[h]));
        lemma_positional_scan(t, a, args, parser);
        let after = cli_parse::scan(s, a, args, parser).0;
        let shift = s.positional - s.index;
        assert(after[h] == t.references[h]);
        assert forall|i: int| s.index <= i < args.len() implies {
            let h = a.positionals[i + shift];
            reads_as(s.references[h].kind, #[trigger] args[i], after[h])
        } by {
            if i > s.index {
                assert(a.positionals[i + shift] != h);
            }
        }
        assert forall|g: i64|
            (forall|i: int|
                s.positional <= i < args.len() + shift ==> a.positionals[i]
                    != g) implies #[trigger] after[g] == s.references[g] by {
            assert(a.positionals[s.positional] != g);
            assert(after[g] == t.references[g]);
        }
    }
}

proof fn lemma_stored_reads(r: ReferenceView, raw: Seq<char>)
    ensures
        cli::stored(r, raw) matches Ok(after) ==> reads_as(r.kind, raw, after),
{
}

/// Arguments that do not begin with a dash fill the positional references in the order in which
/// those were made: the first of them takes the first argument, and so on. The references left
/// over stay as they were.
pub proof fn law_positionals_in_order(cli: CliView, args: Seq<Seq<char>>, handle: i64)
    requires
        cli.wf(),
        cli_parse::parse_outcome(cli, args, handle).1 is None,
        forall|i: int|
            0 <= i < args.len() ==> (#[trigger] args[i]).len() == 0 || args[i][0] != '-',
    ensures
        ({
            let after = cli_parse::parse_outcome(cli, args, handle).0.references;
            let places = cli.parsers[handle].references.filter(
                |h: i64| cli.references[h].positional,
            );
            &&& args.len() <= places.len()
            &&& forall|i: int|
                0 <= i < args.len() ==> reads_as(
                    cli.references[places[i]].kind,
                    #[trigger] args[i],
                    after[places[i]],
                )
            &&& forall|h: i64|
                (forall|i: int| 0 <= i < args.len() ==> places[i] != h) ==> #[trigger] after[h]
                    == cli.references[h]
        }),
{
    let parser = cli.parsers[handle];
    let handles = parser.references;
    let pred = |h: i64| cli.references[h].positional;
    law_accepted_names(cli, handle);
    assert(handles.no_duplicates());
    lemma_filter_no_duplicates(handles, pred);
    let a = cli_parse::accepted(handles, cli.references, handles.len())->Ok_0;
    let start = ScanView {
        index: 0,
        positional: 0,
        enabled: true,
        references: cli.references,
    };
    lemma_positional_scan(start, a, args, parser);
}

proof fn lemma_filter_no_duplicates(s: Seq<i64>, pred: spec_fn(i64) -> bool)
    requires
        s.no_duplicates(),
    ensures
        s.filter(pred).no_duplicates(),
        forall|x: i64| #[trigger] s.filter(pred).contains(x) ==> s.contains(x),
    decreases s.len(),
{
    reveal(Seq::filter);
    if s.len() > 0 {
        let front = s.drop_last();
        lemma_filter_no_duplicates(front, pred);
        let rest = front.filter(pred);
        let all = s.filter(pred);
        assert forall|x: i64| #[trigger] all.contains(x) implies s.contains(x) by {
            let i = choose|i: int| 0 <= i < all.len() && all[i] == x;
            if i < rest.len() {
                assert(rest[i] == x);
                assert(rest.contains(x));
                let k = choose|k: int| 0 <= k < front.len() && front[k] == x;
                assert(s[k] == x);
            } else {
                assert(s[s.len() - 1] == x);
            }
        }
        assert forall|i: int, j: int| 0 <= i < all.len() && 0 <= j < all.len() && i
            != j implies all[i] != all[j] by {
            if i < rest.len() && j < rest.len() {
                assert(rest[i] != rest[j]);
            } else {
                let k = if i < rest.len() { i } else { j };
                assert(rest.contains(rest[k]));
                let m = choose|m: int| 0 <= m < front.len() && front[m] == rest[k];
                assert(s[m] != s[s.len() - 1]);
            }
        }
    }
}

/// Whether an argument can only be the bare name of an option.
pub open spec fn is_bare_name(arg: Seq<char>) -> bool {
    arg.len() > 0 && arg[0] == '-' && arg != "--"@ && !arg.contains('=')
}

proof fn lemma_bare_name(s: ScanView, a: Accepted, args: Seq<Seq<char>>, parser: ParserView)
    requires
        s.enabled,
        0 <= s.index < args.len(),
        is_bare_name(args[s.index]),
        cli_parse::scan_step(s, a, args, parser) is Ok,
    ensures
        a.options.contains_key(args[s.index]),
        cli_parse::scan_step(s, a, args, parser) == cli_parse::scan_option(
            s,
            a,
            args,
            args[s.index],
            None,
        ),
{
    let current = args[s.index];
    reveal_strlit("-");
    text::lemma_find_from(current, '=', 0);
    let at = text::find_from(current, '=', 0);
    if at < current.len() {
        assert(current[at] == '=');
    }
    assert(current.take(1) =~= "-"@);
}

proof fn lemma_option_scan(
    s: ScanView,
    a: Accepted,
    args: Seq<Seq<char>>,
    parser: ParserView,
    h: i64,
)
    requires
        s.enabled,
        0 <= s.index <= args.len(),
        s.index % 2 == 0,
        args.len() % 2 == 0,
        cli_parse::points_at_actions(a, s.references),
        forall|i: int| 0 <= i < args.len() && i % 2 == 0 ==> is_bare_name(#[trigger] args[i]),
        forall|name: Seq<char>| #[trigger]
            a.options.contains_key(name) ==> s.references[a.options[name]].action->0.takes(),
        cli_parse::scan(s, a, args, parser).1 is None,
    ensures
        ({
            let after = cli_parse::scan(s, a, args, parser).0;
            &&& forall|i: int|
                s.index <= i < args.len() && i % 2 == 0 ==> a.options.contains_key(
                    #[trigger] args[i],
                )
            &&& forall|i: int|
                s.index <= i < args.len() && i % 2 == 0 && a.options[#[trigger] args[i]] == h
                    && (forall|j: int|
                    i < j < args.len() && j % 2 == 0 ==> a.options[#[trigger] args[j]] != h)
                    ==> reads_as(s.references[h].kind, args[i + 1], after[h])
            &&& (forall|i: int|
                s.index <= i < args.len() && i % 2 == 0 ==> a.options[#[trigger] args[i]] != h)
                ==> after[h] == s.references[h]
        }),
    decreases args.len() - s.index,
{
    if s.index < args.len() {
        assert(is_bare_name(args[s.index]));
        lemma_bare_name(s, a, args, parser);
        let name = args[s.index];
        let g = a.options[name];
        let t = cli_parse::scan_step(s, a, args, parser)->Ok_0;
        lemma_stored_reads(s.references[g], args[s.index + 1]);
        assert(s.index + 1 < args.len());
        assert(t.references == s.references.insert(g, t.references[g]));
        assert(reads_as(s.references[g].kind, args[s.index + 1], t.references[g]));
        assert forall|n: Seq<char>| #[trigger] a.options.contains_key(n) implies {
            &&& t.references.contains_key(a.options[n])
            &&& t.references[a.options[n]].action is Some
            &&& t.references[a.options[n]].action->0.takes()
        } by {
            assert(s.references.contains_key(a.options[n]));
        }
        lemma_option_scan(t, a, args, parser, h);
        let after = cli_parse::scan(s, a, args, parser).0;
        assert forall|i: int|
            s.index <= i < args.len() && i % 2 == 0 && a.options[#[trigger] args[i]] == h && (forall|
                j: int,
            |
                i < j < args.len() && j % 2 == 0 ==> a.options[#[trigger] args[j]]
                    != h) implies reads_as(s.references[h].kind, args[i + 1], after[h]) by {
            if i == s.index {
                assert(after[h] == t.references[h]);
            }
        }
        if forall|i: int|
            s.index <= i < args.len() && i % 2 == 0 ==> a.options[#[trigger] args[i]] != h {
            assert(a.options[args[s.index]] != h);
        }
    }
}

/// Whether an option with this name belongs to the reference `h` of a parser.
pub open spec fn is_named(cli: CliView, handle: i64, h: i64, name: Seq<char>) -> bool {
    &&& cli.parsers[handle].references.contains(h)
    &&& !cli.references[h].positional
    &&& cli.references[h].names.contains(name)
}

/// Where the options of a parser take values and the arguments are names and values in turn, each
/// reference holds the value behind the last of its names, whichever of its names that is; a
/// reference that is not named stays as it was.
pub proof fn law_options_hold_their_values(
    cli: CliView,
    args: Seq<Seq<char>>,
    handle: i64,
    h: i64,
)
    requires
        cli.wf(),
        cli_parse::parse_outcome(cli, args, handle).1 is None,
        args.len() % 2 == 0,
        forall|i: int| 0 <= i < args.len() && i % 2 == 0 ==> is_bare_name(#[trigger] args[i]),
        forall|k: i64| #[trigger]
            cli.parsers[handle].references.contains(k) && !cli.references[k].positional
                ==> cli.references[k].action == Some(cli::Action::Store)
                || cli.references[k].action == Some(cli::Action::StoreOption),
        cli.parsers[handle].references.contains(h),
    ensures
        ({
            let after = cli_parse::parse_outcome(cli, args, handle).0.references;
            &&& forall|i: int|
                0 <= i < args.len() && i % 2 == 0 && is_named(cli, handle, h, #[trigger] args[i])
                    && (forall|j: int|
                    i < j < args.len() && j % 2 == 0 ==> !is_named(
                        cli,
                        handle,
                        h,
                        #[trigger] args[j],
                    )) ==> reads_as(cli.references[h].kind, args[i + 1], after[h])
            &&& (forall|i: int|
                0 <= i < args.len() && i % 2 == 0 ==> !is_named(
                    cli,
                    handle,
                    h,
                    #[trigger] args[i],
                )) ==> after[h] == cli.references[h]
        }),
{
    let parser = cli.parsers[handle];
    let handles = parser.references;
    law_accepted_names(cli, handle);
    cli_parse::lemma_accepted_points(handles, cli.references, handles.len());
    let a = cli_parse::accepted(handles, cli.references, handles.len())->Ok_0;
    let start = ScanView {
        index: 0,
        positional: 0,
        enabled: true,
        references: cli.references,
    };
    assert forall|name: Seq<char>| #[trigger] a.options.contains_key(
        name,
    ) implies cli.references[a.options[name]].action->0.takes() && handles.contains(
        a.options[name],
    ) by {
        let i = choose|i: int|
            0 <= i < handles.len() && a.options[name] == handles[i]
                && !cli.references[handles[i]].positional
                && #[trigger] cli.references[handles[i]].names.contains(name);
        assert(handles.contains(handles[i]));
    }
    lemma_option_scan(start, a, args, parser, h);
    assert forall|i: int| 0 <= i < args.len() && i % 2 == 0 implies {
        is_named(cli, handle, h, #[trigger] args[i]) <==> a.options[args[i]] == h
    } by {
        assert(a.options.contains_key(args[i]));
        lemma_named(cli, handle, h, args[i]);
    }
}

proof fn lemma_named(cli: CliView, handle: i64, h: i64, name: Seq<char>)
    requires
        cli.wf(),
        cli.parsers.contains_key(handle),
        cli_parse::accepted(
            cli.parsers[handle].references,
            cli.references,
            cli.parsers[handle].references.len(),
        ) is Ok,
        cli_parse::accepted(
            cli.parsers[handle].references,
            cli.references,
            cli.parsers[handle].references.len(),
        )->Ok_0.options.contains_key(name),
    ensures
        is_named(cli, handle, h, name) <==> cli_parse::accepted(
            cli.parsers[handle].references,
            cli.references,
            cli.parsers[handle].references.len(),
        )->Ok_0.options[name] == h,
{
    let handles = cli.parsers[handle].references;
    law_accepted_names(cli, handle);
    let a = cli_parse::accepted(handles, cli.references, handles.len())->Ok_0;
    let i = choose|i: int|
        0 <= i < handles.len() && a.options[name] == handles[i]
            && !cli.references[handles[i]].positional
            && #[trigger] cli.references[handles[i]].names.contains(name);
    assert(handles.contains(handles[i]));
    if is_named(cli, handle, h, name) {
        let k = choose|k: int| 0 <= k < handles.len() && handles[k] == h;
        assert(cli.references[handles[k]].names.contains(name));
    }
}

proof fn lemma_switch_scan(
    s: ScanView,
    a: Accepted,
    args: Seq<Seq<char>>,
    parser: ParserView,
    h: i64,
)
    requires
        s.enabled,
        0 <= s.index <= args.len(),
        cli_parse::points_at_actions(a, s.references),
        forall|i: int| 0 <= i < args.len() ==> is_bare_name(#[trigger] args[i]),
        forall|name: Seq<char>| #[trigger]
            a.options.contains_key(name) ==> !s.references[a.options[name]].action->0.takes(),
        cli_parse::scan(s, a, args, parser).1 is None,
    ensures
        ({
            let after = cli_parse::scan(s, a, args, parser).0;
            &&& forall|i: int|
                s.index <= i < args.len() ==> a.options.contains_key(#[trigger] args[i])
            &&& (exists|i: int|
                s.index <= i < args.len() && a.options[#[trigger] args[i]] == h)
                ==> after[h].seen && after[h].value == ValueView::Bool(
                s.references[h].action->0 is StoreTrue,
            )
            &&& (forall|i: int|
                s.index <= i < args.len() ==> a.options[#[trigger] args[i]] != h) ==> after[h]
                == s.references[h]
        }),
    decreases args.len() - s.index,
{
    if s.index < args.len() {
        assert(is_bare_name(args[s.index]));
        lemma_bare_name(s, a, args, parser);
        let g = a.options[args[s.index]];
        assert(s.references.contains_key(g));
        let t = cli_parse::scan_step(s, a, args, parser)->Ok_0;
        assert(t.references == s.references.insert(g, t.references[g]));
        assert forall|n: Seq<char>| #[trigger] a.options.contains_key(n) implies {
            &&& t.references.contains_key(a.options[n])
            &&& t.references[a.options[n]].action is Some
            &&& !t.references[a.options[n]].action->0.takes()
        } by {
            assert(s.references.contains_key(a.options[n]));
        }
        lemma_switch_scan(t, a, args, parser, h);
        if forall|i: int| s.index <= i < args.len() ==> a.options[#[trigger] args[i]] != h {
            assert(a.options[args[s.index]] != h);
        }
        if exists|i: int| s.index <= i < args.len() && a.options[#[trigger] args[i]] == h {
            let i = choose|i: int|
                s.index <= i < args.len() && a.options[#[trigger] args[i]] == h;
            if forall|j: int| t.index <= j < args.len() ==> a.options[#[trigger] args[j]] != h {
                assert(i == s.index);
            }
        }
    }
}

/// Where the options of a parser are switches and the arguments are names, a reference that is
/// named is set to true or to false as its action says, and one that is not stays as it was.
pub proof fn law_switches_are_set(cli: CliView, args: Seq<Seq<char>>, handle: i64, h: i64)
    requires
        cli.wf(),
        cli_parse::parse_outcome(cli, args, handle).1 is None,
        forall|i: int| 0 <= i < args.len() ==> is_bare_name(#[trigger] args[i]),
        forall|k: i64| #[trigger]
            cli.parsers[handle].references.contains(k) && !cli.references[k].positional
                ==> cli.references[k].action == Some(cli::Action::StoreTrue)
                || cli.references[k].action == Some(cli::Action::StoreFalse),
        cli.parsers[handle].references.contains(h),
    ensures
        ({
            let after = cli_parse::parse_outcome(cli, args, handle).0.references;
            let named = exists|i: int|
                0 <= i < args.len() && is_named(cli, handle, h, #[trigger] args[i]);
            &&& named && cli.references[h].action == Some(cli::Action::StoreTrue)
                ==> after[h].value == ValueView::Bool(true)
            &&& named && cli.references[h].action == Some(cli::Action::StoreFalse)
                ==> after[h].value == ValueView::Bool(false)
            &&& named ==> after[h].seen
            &&& !named ==> after[h] == cli.references[h]
        }),
{
    let parser = cli.parsers[handle];
    let handles = parser.references;
    law_accepted_names(cli, handle);
    cli_parse::lemma_accepted_points(handles, cli.references, handles.len());
    let a = cli_parse::accepted(handles, cli.references, handles.len())->Ok_0;
    let start = ScanView {
        index: 0,
        positional: 0,
        enabled: true,
        references: cli.references,
    };
    assert forall|name: Seq<char>| #[trigger] a.options.contains_key(
        name,
    ) implies !cli.references[a.options[name]].action->0.takes() by {
        let i = choose|i: int|
            0 <= i < handles.len() && a.options[name] == handles[i]
                && !cli.references[handles[i]].positional
                && #[trigger] cli.references[handles[i]].names.contains(name);
        assert(handles.contains(handles[i]));
    }
    lemma_switch_scan(start, a, args, parser, h);
    assert forall|i: int| 0 <= i < args.len() implies {
        is_named(cli, handle, h, #[trigger] args[i]) <==> a.options[args[i]] == h
    } by {
        assert(a.options.contains_key(args[i]));
        lemma_named(cli, handle, h, args[i]);
    }
}

/// Whether a reference of this kind takes a text.
pub open spec fn can_hold(kind: cli::ValueKind, raw: Seq<char>) -> bool {
    match kind {
        cli::ValueKind::String => true,
        cli::ValueKind::Int => exists|n: i64| #[trigger]
            number::signed_literal(raw) == Some(n as int),
        cli::ValueKind::Float => number::is_float_literal(raw),
        cli::ValueKind::Bool => raw == "true"@ || raw == "false"@,
    }
}

proof fn lemma_stored_when(r: ReferenceView, raw: Seq<char>)
    ensures
        cli::stored(r, raw) is Ok <==> can_hold(r.kind, raw),
        cli::stored(r, raw) matches Ok(after) ==> reads_as(r.kind, raw, after) && after == (
        ReferenceView { value: after.value, seen: true, ..r }),
{
    if r.kind is Int {
        match number::signed_literal(raw) {
            Some(n) => {
                if i64::MIN <= n <= i64::MAX {
                    assert(number::signed_literal(raw) == Some((n as i64) as int));
                }
            },
            None => {},
        }
    }
}

/// Whether a step left every reference but `h` as it was.
pub open spec fn only_changes(s: ScanView, t: ScanView, h: i64) -> bool {
    forall|g: i64| g != h ==> #[trigger] t.references[g] == s.references[g]
}

/// An argument that no dash begins, or that stands behind `--`, goes to the next positional
/// reference, if there is one that takes it, and to no other.
pub proof fn law_positional_argument(
    s: ScanView,
    a: Accepted,
    args: Seq<Seq<char>>,
    parser: ParserView,
)
    requires
        0 <= s.index < args.len(),
        0 <= s.positional,
        !s.enabled || args[s.index].len() == 0 || args[s.index][0] != '-',
    ensures
        ({
            let h = a.positionals[s.positional];
            let raw = args[s.index];
            let step = cli_parse::scan_step(s, a, args, parser);
            &&& step is Ok <==> s.positional < a.positionals.len() && can_hold(
                s.references[h].kind,
                raw,
            )
            &&& step matches Ok(t) ==> {
                &&& t.index == s.index + 1
                &&& t.positional == s.positional + 1
                &&& t.enabled == s.enabled
                &&& reads_as(s.references[h].kind, raw, t.references[h])
                &&& only_changes(s, t, h)
            }
        }),
{
    let current = args[s.index];
    reveal_strlit("-");
    reveal_strlit("--");
    reveal_strlit("-h");
    reveal_strlit("--help");
    if s.enabled {
        if text::has_prefix(current, "-"@) {
            assert(current.take(1)[0] == "-"@[0]);
        }
        if text::has_prefix(current, "--"@) {
            assert(current.take(2)[0] == "--"@[0]);
        }
    }
    lemma_stored_when(s.references[a.positionals[s.positional]], current);
}

/// The bare name of an option that takes a value takes the argument behind it, if there is one
/// that its reference takes; the switch of a reference sets it to what its action says. Nothing
/// else changes.
pub proof fn law_named_argument(
    s: ScanView,
    a: Accepted,
    args: Seq<Seq<char>>,
    parser: ParserView,
)
    requires
        0 <= s.index < args.len(),
        s.enabled,
        is_bare_name(args[s.index]),
        args[s.index] != "-h"@,
        args[s.index] != "--help"@,
        cli_parse::points_at_actions(a, s.references),
    ensures
        ({
            let name = args[s.index];
            let h = a.options[name];
            let action = s.references[h].action;
            let valued = action == Some(cli::Action::Store) || action == Some(
                cli::Action::StoreOption,
            );
            let step = cli_parse::scan_step(s, a, args, parser);
            &&& step is Ok <==> a.options.contains_key(name) && (valued ==> s.index + 1
                < args.len() && can_hold(s.references[h].kind, args[s.index + 1]))
            &&& step matches Ok(t) ==> {
                &&& t.positional == s.positional
                &&& t.enabled
                &&& only_changes(s, t, h)
                &&& t.references[h].seen
                &&& valued ==> t.index == s.index + 2 && reads_as(
                    s.references[h].kind,
                    args[s.index + 1],
                    t.references[h],
                )
                &&& action == Some(cli::Action::StoreTrue) ==> t.index == s.index + 1
                    && t.references[h].value == ValueView::Bool(true)
                &&& action == Some(cli::Action::StoreFalse) ==> t.index == s.index + 1
                    && t.references[h].value == ValueView::Bool(false)
            }
        }),
{
    let current = args[s.index];
    reveal_strlit("-");
    text::lemma_find_from(current, '=', 0);
    let at = text::find_from(current, '=', 0);
    if at < current.len() {
        assert(current[at] == '=');
    }
    assert(current.take(1) =~= "-"@);
    if a.options.contains_key(current) {
        let h = a.options[current];
        assert(s.references.contains_key(h));
        if s.index + 1 < args.len() {
            lemma_stored_when(s.references[h], args[s.index + 1]);
        }
    }
}

/// `--` ends the options and changes nothing else; `-h` and `--help` end the parse with the help
/// text.
pub proof fn law_marker_arguments(
    s: ScanView,
    a: Accepted,
    args: Seq<Seq<char>>,
    parser: ParserView,
)
    requires
        0 <= s.index < args.len(),
        s.enabled,
    ensures
        args[s.index] == "--"@ ==> cli_parse::scan_step(s, a, args, parser) == Ok::<
            ScanView,
            ErrorView,
        >(
            (ScanView {
                index: s.index + 1,
                positional: s.positional,
                enabled: false,
                references: s.references,
            }),
        ),
        args[s.index] == "-h"@ || args[s.index] == "--help"@ ==> cli_parse::scan_step(
            s,
            a,
            args,
            parser,
        ) == Err::<ScanView, ErrorView>(ErrorView::Host(cli::help_text(parser, s.references))),
{
    reveal_strlit("--");
    reveal_strlit("-h");
    reveal_strlit("--help");
    assert("--"@[1] == '-' && "-h"@[1] == 'h' && "--help"@.len() == 6);
}

/// Without arguments a parse changes no reference, and succeeds where nothing is required that was
/// not met before.
pub proof fn law_nothing_given(cli: CliView, handle: i64)
    requires
        cli.parsers.contains_key(handle),
        !cli.parsers[handle].parsed,
        cli_parse::accepted(
            cli.parsers[handle].references,
            cli.references,
            cli.parsers[handle].references.len(),
        ) is Ok,
    ensures
        ({
            let outcome = cli_parse::parse_outcome(cli, Seq::empty(), handle);
            let handles = cli.parsers[handle].references;
            &&& outcome.0.references == cli.references
            &&& outcome.1 is None <==> forall|i: int|
                0 <= i < handles.len() ==> !(cli.references[#[trigger] handles[i]].required
                    && !cli.references[handles[i]].seen)
            &&& outcome.1 is None ==> outcome.0.parsers[handle].parsed
        }),
{
    let handles = cli.parsers[handle].references;
    lemma_missing_when(handles, cli.references, 0);
}

proof fn lemma_missing_when(handles: Seq<i64>, references: Map<i64, ReferenceView>, n: int)
    requires
        0 <= n <= handles.len(),
    ensures
        cli_parse::missing(handles, references, n) is None <==> forall|i: int|
            n <= i < handles.len() ==> !(references[#[trigger] handles[i]].required
                && !references[handles[i]].seen),
    decreases handles.len() - n,
{
    if n < handles.len() {
        lemma_missing_when(handles, references, n + 1);
        let r = references[handles[n]];
        if !(r.required && !r.seen) && cli_parse::missing(handles, references, n + 1) is None {
            assert forall|i: int| n <= i < handles.len() implies !(
            references[#[trigger] handles[i]].required && !references[handles[i]].seen) by {
                if i > n {
                }
            }
        }
    }
}

/// A parse changes the values of its own references at most: the other parsers, and what was said
/// of any reference, stay.
pub proof fn law_parse_keeps_the_rest(
    cli: CliView,
    args: Seq<Seq<char>>,
    handle: i64,
    other: i64,
    reference: i64,
)
    requires
        cli.wf(),
        cli.references.contains_key(reference),
        other != handle,
    ensures
        ({
            let after = cli_parse::parse_outcome(cli, args, handle).0;
            let before = cli.references[reference];
            &&& after.next_handle == cli.next_handle
            &&& after.parsers.contains_key(other) == cli.parsers.contains_key(other)
            &&& after.parsers[other] == cli.parsers[other]
            &&& after.references[reference].names == before.names
            &&& after.references[reference].action == before.action
            &&& after.references[reference].required == before.required
            &&& after.references[reference].positional == before.positional
        }),
{
    lemma_parse_keeps(cli, args, handle);
}

/// A reference that is made holds the value it was made with, belongs to its parser, and comes
/// last among the references of the parser; no other reference changes.
pub proof fn law_reference_is_made(
    cli: CliView,
    parser: i64,
    kind: cli::ValueKind,
    value: ValueView,
    other: i64,
)
    requires
        cli.wf(),
        cli.next_handle < i64::MAX,
        cli.parsers.contains_key(parser),
    ensures
        ({
            let after = cli::with_reference(cli, parser, kind, value);
            let h = cli.next_handle;
            &&& !cli.references.contains_key(h)
            &&& after.references[h].value == value
            &&& after.references[h].kind == kind
            &&& after.references[h].parser == parser
            &&& !after.references[h].required && !after.references[h].seen
            &&& after.parsers[parser].references.last() == h
            &&& after.parsers[parser].references.drop_last() == cli.parsers[parser].references
            &&& after.next_handle > h
            &&& cli.references.contains_key(other) ==> after.references[other]
                == cli.references[other]
        }),
{
    let after = cli::with_reference(cli, parser, kind, value);
    assert(after.parsers[parser].references.drop_last() =~= cli.parsers[parser].references);
}

/// What is said of a reference is kept as it was said: the names, the action and the help of an
/// option, the name of an argument, that it is required, and what its value is called.
pub proof fn law_reference_is_described(
    cli: CliView,
    h: i64,
    names: Seq<Value>,
    name: Seq<char>,
    action: Seq<char>,
    help: Seq<char>,
)
    requires
        cli.references.contains_key(h),
    ensures
        cli::option_outcome(cli, h, names, action, help) matches Ok(r) ==> {
            &&& r.names.len() == names.len()
            &&& forall|i: int|
                0 <= i < names.len() ==> (#[trigger] names[i]) is String && r.names[i]
                    == names[i]->String_0@ && r.names[i][0] == '-'
            &&& r.help == help
            &&& r.action == (if action == "Store"@ {
                Some(cli::Action::Store)
            } else if action == "StoreOption"@ {
                Some(cli::Action::StoreOption)
            } else if action == "StoreTrue"@ {
                Some(cli::Action::StoreTrue)
            } else {
                Some(cli::Action::StoreFalse)
            })
            &&& r.value == cli.references[h].value
            &&& r.positional == cli.references[h].positional
            &&& r.required == cli.references[h].required
        },
        cli::argument_outcome(cli, h, name, action, help) matches Ok(r) ==> {
            &&& r.names == seq![name]
            &&& r.help == help
            &&& r.positional
            &&& r.action == (if action == "Store"@ {
                Some(cli::Action::Store)
            } else {
                Some(cli::Action::StoreOption)
            })
            &&& r.value == cli.references[h].value
            &&& r.required == cli.references[h].required
        },
        cli::required_outcome(cli, h) matches Ok(r) && r.required && r.names
            == cli.references[h].names && r.value == cli.references[h].value,
        cli::metavar_outcome(cli, h, name) matches Ok(r) && r.metavar == Some(name) && r.names
            == cli.references[h].names && r.value == cli.references[h].value,
{
    if let Ok(r) = cli::option_outcome(cli, h, names, action, help) {
        assert forall|i: int| 0 <= i < names.len() implies (#[trigger] names[i]) is String
            && r.names[i] == names[i]->String_0@ && r.names[i][0] == '-' by {
            assert(cli::is_option_name(cli::string_texts(names)[i]));
        }
    }
}

/// Whether a text stands somewhere in another.
pub open spec fn stands_in(part: Seq<char>, whole: Seq<char>) -> bool {
    exists|before: Seq<char>, after: Seq<char>| whole == #[trigger] (before + part + after)
}

proof fn lemma_stands_in_longer(
    part: Seq<char>,
    middle: Seq<char>,
    before: Seq<char>,
    after: Seq<char>,
)
    requires
        stands_in(part, middle),
    ensures
        stands_in(part, before + middle + after),
{
    let (b, a) = choose|b: Seq<char>, a: Seq<char>| middle == #[trigger] (b + part + a);
    assert(before + middle + after =~= (before + b) + part + (a + after));
}

proof fn lemma_joined_holds(parts: Seq<Seq<char>>, sep: Seq<char>, i: int)
    requires
        0 <= i < parts.len(),
    ensures
        stands_in(parts[i], text::joined(parts, sep)),
    decreases parts.len(),
{
    let empty = Seq::<char>::empty();
    if parts.len() == 1 {
        assert(parts[0] =~= empty + parts[0] + empty);
    } else if i == parts.len() - 1 {
        assert(text::joined(parts, sep) =~= (text::joined(parts.drop_last(), sep) + sep) + parts[i]
            + empty);
    } else {
        lemma_joined_holds(parts.drop_last(), sep, i);
        assert(parts.drop_last()[i] == parts[i]);
        lemma_stands_in_longer(
            parts[i],
            text::joined(parts.drop_last(), sep),
            empty,
            sep + parts.last(),
        );
        assert(empty + text::joined(parts.drop_last(), sep) + (sep + parts.last())
            =~= text::joined(parts, sep));
    }
}

proof fn lemma_line_in_lines(
    handles: Seq<i64>,
    references: Map<i64, ReferenceView>,
    n: nat,
    i: int,
)
    requires
        0 <= i < n <= handles.len(),
        references.contains_key(handles[i]),
    ensures
        stands_in(cli::help_line(references[handles[i]]), cli::help_lines(handles, references, n)),
    decreases n,
{
    let line = cli::help_line(references[handles[i]]);
    let empty = Seq::<char>::empty();
    let rest = cli::help_lines(handles, references, (n - 1) as nat);
    if i == n - 1 {
        assert(cli::help_lines(handles, references, n) =~= rest + line + empty);
    } else {
        lemma_line_in_lines(handles, references, (n - 1) as nat, i);
        let h = handles[n - 1];
        let more = if references.contains_key(h) {
            cli::help_line(references[h])
        } else {
            empty
        };
        lemma_stands_in_longer(line, rest, empty, more);
        assert(empty + rest + more =~= cli::help_lines(handles, references, n));
    }
}

/// The help text holds the description of the parser and, of each reference, every name and its
/// help.
pub proof fn law_help_tells_all(
    parser: ParserView,
    references: Map<i64, ReferenceView>,
    i: int,
    k: int,
)
    requires
        0 <= i < parser.references.len(),
        references.contains_key(parser.references[i]),
        0 <= k < references[parser.references[i]].names.len(),
    ensures
        ({
            let r = references[parser.references[i]];
            let help = cli::help_text(parser, references);
            &&& text::has_prefix(help, parser.description)
            &&& stands_in(r.names[k], help)
            &&& stands_in(r.help, help)
        }),
{
    let r = references[parser.references[i]];
    let help = cli::help_text(parser, references);
    let empty = Seq::<char>::empty();
    let line = cli::help_line(r);
    let lines = cli::help_lines(parser.references, references, parser.references.len());
    lemma_line_in_lines(parser.references, references, parser.references.len(), i);
    let head = parser.description + (if parser.description.len() > 0 {
        "\n\n"@
    } else {
        empty
    }) + "Options:\n  -h, --help\tShow this help message\n"@;
    assert(help =~= head + lines + empty);
    assert(help.take(parser.description.len() as int) =~= parser.description);
    lemma_stands_in_longer(line, lines, head, empty);
    let names = text::joined(r.names, ", "@);
    lemma_joined_holds(r.names, ", "@, k);
    let action = match r.action {
        Some(action) => if action.takes() {
            seq![' '] + (match r.metavar {
                Some(metavar) => metavar,
                None => "VALUE"@,
            })
        } else {
            empty
        },
        None => empty,
    };
    let required = if r.required {
        " (required)"@
    } else {
        empty
    };
    let told = if r.help.len() > 0 {
        seq!['\t'] + r.help
    } else {
        empty
    };
    assert(line =~= "  "@ + names + (action + required + told + seq!['\n']));
    lemma_stands_in_longer(r.names[k], names, "  "@, action + required + told + seq!['\n']);
    lemma_line_part(r.names[k], line, help);
    if r.help.len() > 0 {
        assert(line =~= ("  "@ + names + action + required + seq!['\t']) + r.help + seq!['\n']);
    } else {
        assert(line =~= empty + r.help + line);
    }
    lemma_line_part(r.help, line, help);
}

proof fn lemma_line_part(part: Seq<char>, line: Seq<char>, whole: Seq<char>)
    requires
        stands_in(part, line),
        stands_in(line, whole),
    ensures
        stands_in(part, whole),
{
    let (b, a) = choose|b: Seq<char>, a: Seq<char>| whole == #[trigger] (b + line + a);
    lemma_stands_in_longer(part, line, b, a);
}

/// An option is taken with one name or more, all texts that begin with a dash and go on, an action
/// that is known, and a reference that is; a switch only with a reference that holds a truth value.
/// An argument is taken with an action that stores a value and a reference that is known.
pub proof fn law_options_are_taken(
    cli: CliView,
    h: i64,
    names: Seq<Value>,
    name: Seq<char>,
    action: Seq<char>,
    help: Seq<char>,
)
    ensures
        ({
            let storing = action == "Store"@ || action == "StoreOption"@;
            let switching = action == "StoreTrue"@ || action == "StoreFalse"@;
            &&& cli::option_outcome(cli, h, names, action, help) is Ok <==> {
                &&& names.len() > 0
                &&& forall|i: int|
                    0 <= i < names.len() ==> (#[trigger] names[i]) is String && {
                        let s = names[i]->String_0@;
                        s.len() >= 2 && s[0] == '-'
                    }
                &&& storing || switching
                &&& cli.references.contains_key(h)
                &&& switching ==> cli.references[h].kind == cli::ValueKind::Bool
            }
            &&& cli::argument_outcome(cli, h, name, action, help) is Ok <==> storing
                && cli.references.contains_key(h)
        }),
{
    reveal_strlit("Store");
    reveal_strlit("StoreOption");
    reveal_strlit("StoreTrue");
    reveal_strlit("StoreFalse");
    assert("Store"@.len() == 5 && "StoreOption"@.len() == 11 && "StoreTrue"@.len() == 9
        && "StoreFalse"@.len() == 10);
    let good = forall|i: int|
        0 <= i < names.len() ==> (#[trigger] names[i]) is String && {
            let s = names[i]->String_0@;
            s.len() >= 2 && s[0] == '-'
        };
    if cli::all_strings(names) {
        let texts = cli::string_texts(names);
        if cli::all_option_names(texts) {
            assert forall|i: int| 0 <= i < names.len() implies (#[trigger] names[i]) is String && {
                let s = names[i]->String_0@;
                s.len() >= 2 && s[0] == '-'
            } by {
                assert(cli::is_option_name(texts[i]));
            }
        } else {
            let i = choose|i: int|
                0 <= i < texts.len() && !cli::is_option_name(#[trigger] texts[i]);
            assert(names[i] is String);
            assert(!good);
        }
    } else {
        let i = choose|i: int| 0 <= i < names.len() && !((#[trigger] names[i]) is String);
        assert(!good);
    }
}

/// Saying something of a reference changes that reference alone, and says where it was said; a
/// refusal changes nothing.
pub proof fn law_one_reference_changes(
    before: CliView,
    after: CliView,
    h: i64,
    outcome: Result<ReferenceView, ErrorView>,
    r: crate::value::VmResult<Value>,
    other: i64,
)
    requires
        cli::change_result(before, after, h, outcome, r),
    ensures
        r is Ok <==> outcome is Ok,
        r is Ok ==> r->Ok_0 == Value::Int(h) && after.references[h] == outcome->Ok_0,
        r is Err ==> after == before,
        other != h ==> after.references.contains_key(other) == before.references.contains_key(other)
            && after.references[other] == before.references[other],
        after.parsers == before.parsers,
        after.next_handle == before.next_handle,
{
}

/// What is said of a parser is kept of that parser, and its references and the other parsers stay.
pub proof fn law_one_parser_changes(cli: CliView, h: i64, parser: ParserView, other: i64)
    ensures
        cli::with_parser(cli, h, parser).parsers[h] == parser,
        other != h ==> cli::with_parser(cli, h, parser).parsers[other] == cli.parsers[other],
        cli::with_parser(cli, h, parser).references == cli.references,
        cli::with_parser(cli, h, parser).next_handle == cli.next_handle,
{
}

/// A reference is read as the value it holds, once its parser has parsed.
pub proof fn law_reference_is_read(cli: CliView, h: i64)
    ensures
        cli::read_outcome(cli, h) is Ok <==> cli.references.contains_key(h)
            && cli.parsers[cli.references[h].parser].parsed,
        cli::read_outcome(cli, h) matches Ok(v) ==> v == cli.references[h].value,
{
}

proof fn lemma_positional_scan_succeeds(
    s: ScanView,
    a: Accepted,
    args: Seq<Seq<char>>,
    parser: ParserView,
)
    requires
        s.enabled,
        0 <= s.index <= args.len(),
        0 <= s.positional,
        a.positionals.no_duplicates(),
        args.len() - s.index <= a.positionals.len() - s.positional,
        forall|i: int|
            0 <= i < args.len() ==> (#[trigger] args[i]).len() == 0 || args[i][0] != '-',
        forall|i: int|
            s.index <= i < args.len() ==> can_hold(
                s.references[a.positionals[i + s.positional - s.index]].kind,
                #[trigger] args[i],
            ),
    ensures
        cli_parse::scan(s, a, args, parser).1 is None,
    decreases args.len() - s.index,
{
    if s.index < args.len() {
        law_positional_argument(s, a, args, parser);
        let h = a.positionals[s.positional];
        assert(can_hold(s.references[h].kind, args[s.index]));
        let t = cli_parse::scan_step(s, a, args, parser)->Ok_0;
        assert forall|i: int| t.index <= i < args.len() implies can_hold(
            t.references[a.positionals[i + t.positional - t.index]].kind,
            #[trigger] args[i],
        ) by {
            let g = a.positionals[i + s.positional - s.index];
            assert(g != h);
            assert(t.references[g] == s.references[g]);
        }
        lemma_positional_scan_succeeds(t, a, args, parser);
    }
}

/// Arguments that do not begin with a dash are all taken where there are positional references for
/// them that take them, and the parse then succeeds where nothing else is required.
pub proof fn law_positionals_are_taken(cli: CliView, args: Seq<Seq<char>>, handle: i64)
    requires
        cli.wf(),
        cli.parsers.contains_key(handle),
        !cli.parsers[handle].parsed,
        cli_parse::accepted(
            cli.parsers[handle].references,
            cli.references,
            cli.parsers[handle].references.len(),
        ) is Ok,
        forall|i: int|
            0 <= i < args.len() ==> (#[trigger] args[i]).len() == 0 || args[i][0] != '-',
        ({
            let places = cli.parsers[handle].references.filter(
                |h: i64| cli.references[h].positional,
            );
            &&& args.len() <= places.len()
            &&& forall|i: int|
                0 <= i < args.len() ==> can_hold(
                    cli.references[places[i]].kind,
                    #[trigger] args[i],
                )
        }),
        forall|i: int|
            0 <= i < cli.parsers[handle].references.len()
                ==> !cli.references[#[trigger] cli.parsers[handle].references[i]].required,
    ensures
        cli_parse::parse_outcome(cli, args, handle).1 is None,
{
    let parser = cli.parsers[handle];
    let handles = parser.references;
    let pred = |h: i64| cli.references[h].positional;
    law_accepted_names(cli, handle);
    lemma_filter_no_duplicates(handles, pred);
    let a = cli_parse::accepted(handles, cli.references, handles.len())->Ok_0;
    let start = ScanView {
        index: 0,
        positional: 0,
        enabled: true,
        references: cli.references,
    };
    lemma_positional_scan_succeeds(start, a, args, parser);
    let after = cli_parse::scan(start, a, args, parser).0;
    cli_parse::lemma_accepted_points(handles, cli.references, handles.len());
    assert(cli_parse::typed(cli.references));
    cli_parse::lemma_scan_keeps(start, a, args, parser);
    assert forall|i: int| 0 <= i < handles.len() implies !(after[#[trigger] handles[i]].required
        && !after[handles[i]].seen) by {
        assert(cli.references.contains_key(handles[i]));
    }
    lemma_missing_when(handles, after, 0);
}

} // verus!
