//! Labelled spans of a text, from the labels of its tokens.
use vstd::prelude::*;
use vstd::string::*;
use vstd::utf8;

use crate::args;
use crate::context;
use crate::context::{ContextView, TorchContext};
use crate::runtime;
use crate::text;
use crate::tokenizer;
use crate::tokenizer::{Encoded, EncodedView};
use crate::value::{host_error, ErrorView, Value, ValueView, VmError, VmResult};

verus! {

/// A part of a text with its label; the places count bytes.
#[derive(Debug)]
pub struct Span {
    pub label: String,
    pub start: usize,
    pub end: usize,
}

/// The model of a [`Span`].
pub type SpanView = (Seq<char>, usize, usize);

impl View for Span {
    type V = SpanView;

    open spec fn view(&self) -> SpanView {
        (self.label@, self.start, self.end)
    }
}

/// The models of spans.
pub open spec fn span_views(s: Seq<Span>) -> Seq<SpanView> {
    Seq::new(s.len(), |i: int| s[i]@)
}

/// The names in a list with commas, without the white space around them.
pub open spec fn label_names(list: Seq<char>) -> Seq<Seq<char>> {
    let parts = text::pieces(list, ',', 0);
    Seq::new(parts.len(), |i: int| text::trimmed(parts[i]))
}

/// The names in a list with commas, without the white space around them.
fn split_names(list: &str) -> (r: Vec<String>)
    ensures
        text::views(r@) == label_names(list@),
{
    let parts: Vec<String> = text::split_at_char(list, ',');
    let ghost models = text::views(parts@);
    let mut out: Vec<String> = Vec::new();
    let mut i: usize = 0;
    while i < parts.len()
        invariant
            i <= parts@.len(),
            models == text::views(parts@),
            out@.len() == i,
            forall|k: int| 0 <= k < i ==> #[trigger] out@[k]@ == text::trimmed(models[k]),
        decreases parts@.len() - i,
    {
        out.push(text::trim(parts[i].as_str()));
        i = i + 1;
    }
    assert(text::views(out@) =~= label_names(list@));
    out
}

/// Spans with one more token: a token without a label or without text changes nothing, one that
/// continues the last span makes it longer, and any other begins a span.
pub open spec fn with_token(
    spans: Seq<SpanView>,
    offset: (usize, usize),
    label: i64,
    names: Seq<Seq<char>>,
) -> Result<Seq<SpanView>, ErrorView> {
    if offset.0 == offset.1 || label == 0 {
        Ok(spans)
    } else if label < 0 || label > usize::MAX {
        Err(ErrorView::Host("label id must be non-negative"@))
    } else if label >= names.len() {
        Err(
            ErrorView::Host(
                "label id "@ + text::decimal(label as int) + " is out of range"@,
            ),
        )
    } else if spans.len() > 0 && spans.last().0 == names[label as int] && offset.0
        <= spans.last().2 {
        let last = spans.last();
        let end = if last.2 < offset.1 {
            offset.1
        } else {
            last.2
        };
        Ok(spans.drop_last().push((last.0, last.1, end)))
    } else {
        Ok(spans.push((names[label as int], offset.0, offset.1)))
    }
}

/// The spans of the first `n` tokens.
pub open spec fn spans_of(
    offsets: Seq<(usize, usize)>,
    labels: Seq<i64>,
    names: Seq<Seq<char>>,
    n: nat,
) -> Result<Seq<SpanView>, ErrorView>
    decreases n,
{
    if n == 0 {
        Ok(Seq::empty())
    } else {
        match spans_of(offsets, labels, names, (n - 1) as nat) {
            Err(e) => Err(e),
            Ok(spans) => with_token(spans, offsets[n - 1], labels[n - 1], names),
        }
    }
}

proof fn lemma_spans_error(
    offsets: Seq<(usize, usize)>,
    labels: Seq<i64>,
    names: Seq<Seq<char>>,
    n: nat,
    m: nat,
)
    requires
        n <= m,
        spans_of(offsets, labels, names, n) is Err,
    ensures
        spans_of(offsets, labels, names, m) == spans_of(offsets, labels, names, n),
    decreases m,
{
    if n < m {
        lemma_spans_error(offsets, labels, names, n, (m - 1) as nat);
    }
}

/// The number of tokens that have both a place and a label.
pub open spec fn labelled(offsets: Seq<(usize, usize)>, labels: Seq<i64>) -> nat {
    if offsets.len() < labels.len() {
        offsets.len()
    } else {
        labels.len()
    }
}

/// The labelled spans of a text, from the places and labels of its tokens.
pub fn merge_spans(offsets: &Vec<(usize, usize)>, labels: &Vec<i64>, names: &Vec<String>) -> (r:
    VmResult<Vec<Span>>)
    ensures
        ({
            let expected = spans_of(
                offsets@,
                labels@,
                text::views(names@),
                labelled(offsets@, labels@),
            );
            match r {
                Ok(spans) => expected == Ok::<Seq<SpanView>, ErrorView>(span_views(spans@)),
                Err(e) => expected == Err::<Seq<SpanView>, ErrorView>(e@),
            }
        }),
{
    let ghost models = text::views(names@);
    let ghost total = labelled(offsets@, labels@);
    let mut spans: Vec<Span> = Vec::new();
    let mut i: usize = 0;
    assert(span_views(spans@) =~= Seq::<SpanView>::empty());
    while i < offsets.len() && i < labels.len()
        invariant
            i <= total,
            total == labelled(offsets@, labels@),
            models == text::views(names@),
            spans_of(offsets@, labels@, models, i as nat) == Ok::<Seq<SpanView>, ErrorView>(
                span_views(spans@),
            ),
        decreases total - i,
    {
        let (start, end) = offsets[i];
        let label: i64 = labels[i];
        let ghost before = span_views(spans@);
        proof {
            assert(spans_of(offsets@, labels@, models, (i + 1) as nat) == with_token(
                before,
                offsets@[i as int],
                labels@[i as int],
                models,
            ));
            if spans_of(offsets@, labels@, models, (i + 1) as nat) is Err {
                lemma_spans_error(offsets@, labels@, models, (i + 1) as nat, total);
            }
        }
        i = i + 1;
        if start == end || label == 0 {
            continue ;
        }
        if label < 0 || label as u64 > usize::MAX as u64 {
            return Err(host_error("label id must be non-negative"));
        }
        let index: usize = label as usize;
        if index >= names.len() {
            return Err(
                host_error(
                    text::join3(
                        "label id ",
                        text::decimal_text(label as i128).as_str(),
                        " is out of range",
                    ).as_str(),
                ),
            );
        }
        assert(models[index as int] == names@[index as int]@);
        if spans.len() > 0 {
            let at: usize = spans.len() - 1;
            let last: &Span = &spans[at];
            assert(before.last() == last@);
            if text::same_text(last.label.as_str(), names[index].as_str()) && start <= last.end {
                let longer: Span = Span {
                    label: last.label.clone(),
                    start: last.start,
                    end: if last.end < end {
                        end
                    } else {
                        last.end
                    },
                };
                spans.pop();
                spans.push(longer);
                assert(span_views(spans@) =~= before.drop_last().push(longer@));
                continue ;
            }
        }
        let fresh: Span = Span { label: names[index].clone(), start, end };
        spans.push(fresh);
        assert(span_views(spans@) =~= before.push(fresh@));
    }
    Ok(spans)
}

/// The part of a text between two places in its bytes, or nothing where they are no places
/// between characters.
pub open spec fn surface(s: Seq<char>, start: int, end: int) -> Seq<char> {
    let bytes = utf8::encode_utf8(s);
    if start <= end && utf8::is_char_boundary(bytes, start) && utf8::is_char_boundary(bytes, end) {
        utf8::decode_utf8(bytes.subrange(start, end))
    } else {
        Seq::empty()
    }
}

proof fn lemma_boundary_in_head(bytes: Seq<u8>, start: int, end: int)
    requires
        utf8::valid_utf8(bytes),
        0 <= start <= end <= bytes.len(),
        utf8::is_char_boundary(bytes, end),
    ensures
        utf8::valid_utf8(bytes.subrange(0, end)),
        utf8::is_char_boundary(bytes, start) == utf8::is_char_boundary(
            bytes.subrange(0, end),
            start,
        ),
{
    let head = bytes.subrange(0, end);
    utf8::valid_utf8_split(bytes, end);
    if start < end {
        utf8::is_char_boundary_iff_not_is_continuation_byte(bytes, start);
        utf8::is_char_boundary_iff_not_is_continuation_byte(head, start);
        assert(head[start] == bytes[start]);
    } else {
        utf8::is_char_boundary_start_end_of_seq(head);
    }
}

proof fn lemma_boundary_within(bytes: Seq<u8>, index: int)
    requires
        utf8::valid_utf8(bytes),
        utf8::is_char_boundary(bytes, index),
    ensures
        0 <= index <= bytes.len(),
{
    reveal_with_fuel(utf8::is_char_boundary, 2);
}

/// The part of a text between two places in its bytes, or nothing where they are no places
/// between characters.
pub fn text_surface(s: &str, start: usize, end: usize) -> (r: String)
    ensures
        r@ == surface(s@, start as int, end as int),
{
    let ghost bytes = s.spec_bytes();
    proof {
        utf8::encode_utf8_valid_utf8(s@);
    }
    if start > end || !s.is_char_boundary(end) {
        return String::new();
    }
    proof {
        lemma_boundary_within(bytes, end as int);
        lemma_boundary_in_head(bytes, start as int, end as int);
    }
    let (head, _) = s.split_at(end);
    if !head.is_char_boundary(start) {
        return String::new();
    }
    let (_, part) = head.split_at(start);
    proof {
        assert(part.spec_bytes() =~= bytes.subrange(start as int, end as int));
        utf8::encode_utf8_decode_utf8(part@);
    }
    part.to_owned()
}

/// The line of a span.
pub open spec fn span_line(s: Seq<char>, span: SpanView) -> Seq<char> {
    span.0 + seq!['\t'] + text::decimal(span.1 as int) + seq!['\t'] + text::decimal(
        span.2 as int,
    ) + seq!['\t'] + surface(s, span.1 as int, span.2 as int) + seq!['\n']
}

/// The lines of the first `n` spans.
pub open spec fn span_lines(s: Seq<char>, spans: Seq<SpanView>, n: nat) -> Seq<char>
    decreases n,
{
    if n == 0 {
        Seq::empty()
    } else {
        span_lines(s, spans, (n - 1) as nat) + span_line(s, spans[n - 1])
    }
}

/// The report of the spans of a text: a line for each, or one that says there is none.
pub open spec fn report(s: Seq<char>, spans: Seq<SpanView>) -> Seq<char> {
    let lines = span_lines(s, spans, spans.len());
    if lines.len() == 0 {
        "O\n"@
    } else {
        lines
    }
}

fn format_span(s: &str, span: &Span) -> (r: String)
    ensures
        r@ == span_line(s@, span@),
{
    let mut out: String = span.label.clone();
    out.push('\t');
    out.append(text::decimal_text(span.start as i128).as_str());
    out.push('\t');
    out.append(text::decimal_text(span.end as i128).as_str());
    out.push('\t');
    out.append(text_surface(s, span.start, span.end).as_str());
    out.push('\n');
    assert(out@ =~= span_line(s@, span@));
    out
}

/// The report of the spans of a text.
pub fn format_spans(s: &str, spans: &Vec<Span>) -> (r: String)
    ensures
        r@ == report(s@, span_views(spans@)),
{
    let ghost models = span_views(spans@);
    let mut out: String = String::new();
    let mut i: usize = 0;
    assert(out@ =~= span_lines(s@, models, 0));
    while i < spans.len()
        invariant
            i <= spans@.len(),
            models == span_views(spans@),
            out@ == span_lines(s@, models, i as nat),
        decreases spans@.len() - i,
    {
        out.append(format_span(s, &spans[i]).as_str());
        i = i + 1;
    }
    if out.as_str().unicode_len() == 0 {
        out.append("O\n");
        assert(out@ =~= "O\n"@);
    }
    out
}

/// The report on a text whose tokens were encoded like this and labelled like that.
pub open spec fn labels_outcome(
    s: Seq<char>,
    encoded: EncodedView,
    labels: Seq<i64>,
    names: Seq<char>,
) -> Result<ValueView, ErrorView> {
    match encoded {
        Err(m) => Err(tokenizer::encode_failure(m)),
        Ok((_, offsets)) => match spans_of(
            offsets,
            labels,
            label_names(names),
            labelled(offsets, labels),
        ) {
            Err(e) => Err(e),
            Ok(spans) => Ok(ValueView::String(report(s, spans))),
        },
    }
}

/// The report on a text whose tokens were encoded like this and labelled like that.
pub fn format_labels(
    s: &str,
    encoded: Result<Encoded, String>,
    labels: &Vec<i64>,
    names: &str,
) -> (r: VmResult<Value>)
    ensures
        runtime::outcome(r) == labels_outcome(
            s@,
            tokenizer::encoded_view(encoded),
            labels@,
            names@,
        ),
{
    let encoded: Encoded = match encoded {
        Err(m) => {
            return Err(
                host_error(text::join2("tokenizer encode failed: ", m.as_str()).as_str()),
            );
        },
        Ok(e) => e,
    };
    let names: Vec<String> = split_names(names);
    match merge_spans(&encoded.offsets, labels, &names) {
        Err(e) => Err(e),
        Ok(spans) => Ok(Value::String(format_spans(s, &spans))),
    }
}

/// What the report on a text needs: its text, the handle of the labels, their names, and whether
/// the tokenizer adds tokens of its own.
pub struct LabelRequest {
    pub text: String,
    pub labels: i64,
    pub names: String,
    pub special: bool,
}

/// The model of a [`LabelRequest`].
pub type RequestView = (Seq<char>, i64, Seq<char>, bool);

/// What the script asks for.
pub open spec fn request_outcome<T>(c: ContextView<T>, args: Seq<Value>) -> Result<
    RequestView,
    ErrorView,
> {
    let op = c.active_host_op;
    match args::string_at(op, args, 0, "text"@) {
        Err(e) => Err(e),
        Ok(text) => match args::tensor_at(c, args, 1, "labels"@) {
            Err(e) => Err(e),
            Ok(labels) => match args::string_at(op, args, 2, "label_names"@) {
                Err(e) => Err(e),
                Ok(names) => match args::bool_at(op, args, 3, "add_special_tokens"@) {
                    Err(e) => Err(e),
                    Ok(special) => if c.tokenizer is None {
                        Err(tokenizer::no_tokenizer())
                    } else {
                        Ok((text, labels, names, special))
                    },
                },
            },
        },
    }
}

/// Reads what the script asks for.
pub fn label_request<T>(context: &TorchContext<T>, args: &[Value]) -> (r: VmResult<LabelRequest>)
    ensures
        match r {
            Ok(q) => request_outcome(context@, args@) == Ok::<RequestView, ErrorView>(
                (q.text@, q.labels, q.names@, q.special),
            ),
            Err(e) => request_outcome(context@, args@) == Err::<RequestView, ErrorView>(e@),
        },
{
    let op: &Option<String> = &context.active_host_op;
    let text: &str = match args::string_arg(op, args, 0, "text") {
        Err(e) => {
            return Err(e);
        },
        Ok(text) => text,
    };
    let labels: i64 = match args::tensor_arg(context, args, 1, "labels") {
        Err(e) => {
            return Err(e);
        },
        Ok(labels) => labels,
    };
    let names: &str = match args::string_arg(op, args, 2, "label_names") {
        Err(e) => {
            return Err(e);
        },
        Ok(names) => names,
    };
    let special: bool = match args::bool_arg(op, args, 3, "add_special_tokens") {
        Err(e) => {
            return Err(e);
        },
        Ok(special) => special,
    };
    if context.tokenizer.is_none() {
        return Err(host_error("tokenizer has not been loaded"));
    }
    Ok(LabelRequest { text: text.to_owned(), labels, names: names.to_owned(), special })
}

/// The message on numbers that cannot be copied out of a tensor.
pub open spec fn copy_failure(what: Seq<char>, reason: Seq<char>) -> ErrorView {
    ErrorView::Host("failed to copy "@ + what + ": "@ + reason)
}

/// The error on numbers that cannot be copied out of a tensor.
pub fn copy_error(what: &str, reason: &str) -> (r: VmError)
    ensures
        r@ == copy_failure(what@, reason@),
{
    let mut message: String = text::join3("failed to copy ", what, ": ");
    message.append(reason);
    host_error(message.as_str())
}

/// The report on a text, given its encoding and its labels, or the reason why the labels could
/// not be copied. An encoding that failed is reported first.
pub open spec fn report_outcome(
    s: Seq<char>,
    encoded: EncodedView,
    labels: Result<Seq<i64>, Seq<char>>,
    names: Seq<char>,
) -> Result<ValueView, ErrorView> {
    match (encoded, labels) {
        (Ok(_), Err(m)) => Err(copy_failure("labels"@, m)),
        (_, Ok(labels)) => labels_outcome(s, encoded, labels, names),
        (Err(m), Err(_)) => Err(tokenizer::encode_failure(m)),
    }
}

/// Numbers copied out of a tensor, as a model.
pub open spec fn copied(numbers: Result<Vec<i64>, String>) -> Result<Seq<i64>, Seq<char>> {
    match numbers {
        Ok(v) => Ok(v@),
        Err(m) => Err(m@),
    }
}

/// Whether `r` is the report on an encoding that the tokenizer can give.
pub open spec fn reports<B: FnOnce(&str, &str, bool) -> Result<Encoded, String>>(
    tokenizer: Seq<char>,
    s: Seq<char>,
    special: bool,
    beyond: B,
    labels: Result<Seq<i64>, Seq<char>>,
    names: Seq<char>,
    r: Result<ValueView, ErrorView>,
) -> bool {
    exists|e: EncodedView| #[trigger]
        tokenizer::encodes(tokenizer, s, special, beyond, e) && r == report_outcome(
            s,
            e,
            labels,
            names,
        )
}

/// Reports the labelled spans of a text; `labels` are the numbers in the tensor of labels, and
/// `beyond` encodes with the tokenizers that are not plain.
pub fn tokenizer_format_token_labels<T, B: FnOnce(&str, &str, bool) -> Result<Encoded, String>>(
    context: &TorchContext<T>,
    request: &LabelRequest,
    labels: Result<Vec<i64>, String>,
    beyond: B,
) -> (r: VmResult<Value>)
    requires
        forall|t: &str, x: &str, b: bool| #[trigger] call_requires(beyond, (t, x, b)),
    ensures
        match context@.tokenizer {
            None => runtime::outcome(r) == Err::<ValueView, ErrorView>(tokenizer::no_tokenizer()),
            Some(tokenizer) => reports(
                tokenizer,
                request.text@,
                request.special,
                beyond,
                copied(labels),
                request.names@,
                runtime::outcome(r),
            ),
        },
{
    let tokenizer: &str = match &context.tokenizer {
        None => {
            return Err(host_error("tokenizer has not been loaded"));
        },
        Some(tokenizer) => tokenizer.as_str(),
    };
    let s: &str = request.text.as_str();
    let encoded: Result<Encoded, String> = tokenizer::encode_with(
        tokenizer,
        s,
        request.special,
        beyond,
    );
    let ghost e = tokenizer::encoded_view(encoded);
    let ghost numbers = copied(labels);
    let r: VmResult<Value> = match labels {
        Ok(labels) => format_labels(s, encoded, &labels, request.names.as_str()),
        Err(m) => match encoded {
            Ok(_) => Err(copy_error("labels", m.as_str())),
            Err(m) => Err(
                host_error(text::join2("tokenizer encode failed: ", m.as_str()).as_str()),
            ),
        },
    };
    proof {
        assert(tokenizer::encodes(tokenizer@, s@, request.special, beyond, e));
        assert(runtime::outcome(r) == report_outcome(s@, e, numbers, request.names@));
        assert(reports(
            tokenizer@,
            s@,
            request.special,
            beyond,
            numbers,
            request.names@,
            runtime::outcome(r),
        ));
    }
    r
}

/// Two spans that follow each other under one name do not touch, and every span has one of the
/// names but the first.
pub proof fn law_spans_are_apart(
    offsets: Seq<(usize, usize)>,
    labels: Seq<i64>,
    names: Seq<Seq<char>>,
    n: nat,
)
    requires
        spans_of(offsets, labels, names, n) is Ok,
    ensures
        ({
            let spans = spans_of(offsets, labels, names, n)->Ok_0;
            &&& forall|i: int, j: int|
                0 <= i && j == i + 1 && j < spans.len() && (#[trigger] spans[i]).0 == (
                #[trigger] spans[j]).0 ==> spans[i].2 < spans[j].1
            &&& forall|i: int|
                0 <= i < spans.len() ==> exists|k: int|
                    1 <= k < names.len() && names[k] == (#[trigger] spans[i]).0
        }),
    decreases n,
{
    if n > 0 {
        law_spans_are_apart(offsets, labels, names, (n - 1) as nat);
        let before = spans_of(offsets, labels, names, (n - 1) as nat)->Ok_0;
        let spans = spans_of(offsets, labels, names, n)->Ok_0;
        let label = labels[n - 1];
        if spans != before {
            assert(1 <= label < names.len());
            assert forall|i: int| 0 <= i < spans.len() implies exists|k: int|
                1 <= k < names.len() && names[k] == (#[trigger] spans[i]).0 by {
                if i < before.len() {
                    assert(spans[i].0 == before[i].0);
                } else {
                    assert(names[label as int] == spans[i].0);
                }
            }
            assert forall|i: int, j: int|
                0 <= i && j == i + 1 && j < spans.len() && (#[trigger] spans[i]).0 == (
                #[trigger] spans[j]).0 implies spans[i].2 < spans[j].1 by {
                assert(spans[i] == before[i]);
                if j < before.len() {
                    assert(before[j].0 == spans[j].0 && before[j].1 == spans[j].1);
                }
            }
        }
    }
}

/// The names in a list with commas between them are those that were written, each without the white
/// space around it.
pub proof fn law_label_names(parts: Seq<Seq<char>>)
    requires
        parts.len() > 0,
        forall|i: int| 0 <= i < parts.len() ==> !(#[trigger] parts[i]).contains(','),
    ensures
        label_names(text::joined(parts, seq![','])).len() == parts.len(),
        forall|i: int|
            0 <= i < parts.len() ==> #[trigger] label_names(text::joined(parts, seq![',']))[i]
                == text::trimmed(parts[i]),
{
    text::law_joined_splits_back(parts, ',');
}

/// Whether a token has a label: it stands for some text, and its label is not that of none.
pub open spec fn is_labelled(offsets: Seq<(usize, usize)>, labels: Seq<i64>, i: int) -> bool {
    offsets[i].0 != offsets[i].1 && labels[i] != 0
}

/// Whether a span carries the label of a token and holds its text.
pub open spec fn holds_token(
    span: SpanView,
    offsets: Seq<(usize, usize)>,
    labels: Seq<i64>,
    names: Seq<Seq<char>>,
    i: int,
) -> bool {
    &&& 0 <= labels[i] < names.len()
    &&& span.0 == names[labels[i] as int]
    &&& span.1 <= offsets[i].0
    &&& offsets[i].1 <= span.2
}

/// Whether a span begins where a token with its label begins, and ends where one ends.
#[verifier::opaque]
pub open spec fn is_made_of_tokens(
    span: SpanView,
    offsets: Seq<(usize, usize)>,
    labels: Seq<i64>,
    names: Seq<Seq<char>>,
    n: nat,
) -> bool {
    &&& exists|i: int|
        0 <= i < n && #[trigger] is_labelled(offsets, labels, i) && holds_token(
            span,
            offsets,
            labels,
            names,
            i,
        ) && offsets[i].0 == span.1
    &&& exists|i: int|
        0 <= i < n && #[trigger] is_labelled(offsets, labels, i) && holds_token(
            span,
            offsets,
            labels,
            names,
            i,
        ) && offsets[i].1 == span.2
}

/// Whether a token lies in a span with its label.
#[verifier::opaque]
pub open spec fn has_span(
    spans: Seq<SpanView>,
    offsets: Seq<(usize, usize)>,
    labels: Seq<i64>,
    names: Seq<Seq<char>>,
    i: int,
) -> bool {
    exists|k: int|
        0 <= k < spans.len() && holds_token(#[trigger] spans[k], offsets, labels, names, i)
}

/// Where the tokens come in the order of the text, every token with a label lies in a span with
/// that label, and every span begins and ends with such tokens; a token without one makes no span.
/// Labels are refused where one of them has no name.
pub proof fn law_labelled_tokens_have_spans(
    offsets: Seq<(usize, usize)>,
    labels: Seq<i64>,
    names: Seq<Seq<char>>,
    n: nat,
)
    requires
        n <= offsets.len(),
        n <= labels.len(),
        names.len() <= usize::MAX,
        forall|i: int, j: int| 0 <= i <= j < n ==> offsets[i].0 <= offsets[j].0,
    ensures
        spans_of(offsets, labels, names, n) is Ok <==> forall|i: int|
            0 <= i < n && #[trigger] is_labelled(offsets, labels, i) ==> 0 < labels[i]
                < names.len(),
        spans_of(offsets, labels, names, n) matches Ok(spans) ==> {
            &&& forall|i: int|
                0 <= i < n && #[trigger] is_labelled(offsets, labels, i) ==> has_span(
                    spans,
                    offsets,
                    labels,
                    names,
                    i,
                )
            &&& forall|k: int|
                0 <= k < spans.len() ==> is_made_of_tokens(
                    #[trigger] spans[k],
                    offsets,
                    labels,
                    names,
                    n,
                )
        },
    decreases n,
{
    if n > 0 {
        let m = (n - 1) as nat;
        law_labelled_tokens_have_spans(offsets, labels, names, m);
        if spans_of(offsets, labels, names, m) is Err {
            let i = choose|i: int|
                0 <= i < m && #[trigger] is_labelled(offsets, labels, i) && !(0 < labels[i]
                    < names.len());
            assert(is_labelled(offsets, labels, i));
        } else {
            let before = spans_of(offsets, labels, names, m)->Ok_0;
            let t = n - 1;
            let known = !is_labelled(offsets, labels, t) || 0 < labels[t] < names.len();
            assert(with_token(before, offsets[t], labels[t], names) is Ok <==> known);
            if known {
                lemma_token_added(before, offsets, labels, names, m);
                assert forall|i: int|
                    0 <= i < n && #[trigger] is_labelled(offsets, labels, i) implies 0 < labels[i]
                    < names.len() by {
                    if i < m {
                    }
                }
            }
        }
    }
}

proof fn lemma_token_added(
    before: Seq<SpanView>,
    offsets: Seq<(usize, usize)>,
    labels: Seq<i64>,
    names: Seq<Seq<char>>,
    m: nat,
)
    requires
        m < offsets.len(),
        m < labels.len(),
        forall|i: int, j: int| 0 <= i <= j <= m ==> offsets[i].0 <= offsets[j].0,
        forall|i: int|
            0 <= i < m && #[trigger] is_labelled(offsets, labels, i) ==> has_span(
                before,
                offsets,
                labels,
                names,
                i,
            ),
        forall|k: int|
            0 <= k < before.len() ==> is_made_of_tokens(
                #[trigger] before[k],
                offsets,
                labels,
                names,
                m,
            ),
        with_token(before, offsets[m as int], labels[m as int], names) is Ok,
    ensures
        ({
            let after = with_token(before, offsets[m as int], labels[m as int], names)->Ok_0;
            &&& forall|i: int|
                0 <= i < m + 1 && #[trigger] is_labelled(offsets, labels, i) ==> has_span(
                    after,
                    offsets,
                    labels,
                    names,
                    i,
                )
            &&& forall|k: int|
                0 <= k < after.len() ==> is_made_of_tokens(
                    #[trigger] after[k],
                    offsets,
                    labels,
                    names,
                    m + 1,
                )
        }),
{
    let t = m as int;
    let after = with_token(before, offsets[t], labels[t], names)->Ok_0;
    assert forall|k: int| 0 <= k < before.len() implies is_made_of_tokens(
        #[trigger] before[k],
        offsets,
        labels,
        names,
        m + 1,
    ) by {
        lemma_made_of_more(before[k], before[k], offsets, labels, names, m);
    }
    if is_labelled(offsets, labels, t) {
        let at = after.len() - 1;
        let last = after[at];
        if before.len() == after.len() {
            lemma_begins_before(before[at], offsets, labels, names, m);
            lemma_made_of_more(before[at], last, offsets, labels, names, m);
        } else {
            assert(holds_token(last, offsets, labels, names, t));
            assert(is_made_of_tokens(last, offsets, labels, names, m + 1)) by {
                reveal(is_made_of_tokens);
            }
        }
        assert(holds_token(last, offsets, labels, names, t));
        assert forall|k: int| 0 <= k < after.len() implies is_made_of_tokens(
            #[trigger] after[k],
            offsets,
            labels,
            names,
            m + 1,
        ) by {
            if k < at {
                assert(after[k] == before[k]);
            }
        }
        assert forall|i: int| 0 <= i < m + 1 && #[trigger] is_labelled(
            offsets,
            labels,
            i,
        ) implies has_span(after, offsets, labels, names, i) by {
            reveal(has_span);
            if i < t {
                assert(has_span(before, offsets, labels, names, i));
                let k = choose|k: int|
                    0 <= k < before.len() && holds_token(
                        #[trigger] before[k],
                        offsets,
                        labels,
                        names,
                        i,
                    );
                assert(holds_token(after[k], offsets, labels, names, i));
            } else {
                assert(holds_token(after[at], offsets, labels, names, i));
            }
        }
    }
}

proof fn lemma_begins_before(
    span: SpanView,
    offsets: Seq<(usize, usize)>,
    labels: Seq<i64>,
    names: Seq<Seq<char>>,
    m: nat,
)
    requires
        is_made_of_tokens(span, offsets, labels, names, m),
        forall|i: int, j: int| 0 <= i <= j <= m ==> offsets[i].0 <= offsets[j].0,
    ensures
        span.1 <= offsets[m as int].0,
{
    reveal(is_made_of_tokens);
    let i = choose|i: int|
        0 <= i < m && #[trigger] is_labelled(offsets, labels, i) && holds_token(
            span,
            offsets,
            labels,
            names,
            i,
        ) && offsets[i].0 == span.1;
    assert(offsets[i].0 <= offsets[m as int].0);
}

/// A span that is as wide, or as wide as the next token makes it, is made of tokens still.
proof fn lemma_made_of_more(
    span: SpanView,
    wider: SpanView,
    offsets: Seq<(usize, usize)>,
    labels: Seq<i64>,
    names: Seq<Seq<char>>,
    m: nat,
)
    requires
        is_made_of_tokens(span, offsets, labels, names, m),
        wider.0 == span.0,
        wider.1 == span.1,
        wider.2 >= span.2,
        wider.2 != span.2 ==> is_labelled(offsets, labels, m as int) && holds_token(
            wider,
            offsets,
            labels,
            names,
            m as int,
        ) && wider.2 == offsets[m as int].1,
    ensures
        is_made_of_tokens(wider, offsets, labels, names, m + 1),
{
    reveal(is_made_of_tokens);
    let i = choose|i: int|
        0 <= i < m && #[trigger] is_labelled(offsets, labels, i) && holds_token(
            span,
            offsets,
            labels,
            names,
            i,
        ) && offsets[i].0 == span.1;
    let j = choose|j: int|
        0 <= j < m && #[trigger] is_labelled(offsets, labels, j) && holds_token(
            span,
            offsets,
            labels,
            names,
            j,
        ) && offsets[j].1 == span.2;
    assert(is_labelled(offsets, labels, i) && holds_token(wider, offsets, labels, names, i));
    assert(is_labelled(offsets, labels, j) && holds_token(wider, offsets, labels, names, j));
    if wider.2 != span.2 {
        assert(is_labelled(offsets, labels, m as int));
    }
}

/// The text of a span is the part of the whole between its two ends, counted in bytes, where these
/// lie between characters.
pub proof fn law_span_text(s: Seq<char>, start: int, end: int)
    requires
        0 <= start <= end <= utf8::encode_utf8(s).len(),
        utf8::is_char_boundary(utf8::encode_utf8(s), start),
        utf8::is_char_boundary(utf8::encode_utf8(s), end),
    ensures
        utf8::encode_utf8(surface(s, start, end)) == utf8::encode_utf8(s).subrange(start, end),
{
    let bytes = utf8::encode_utf8(s);
    utf8::encode_utf8_valid_utf8(s);
    lemma_boundary_in_head(bytes, start, end);
    let head = bytes.subrange(0, end);
    utf8::valid_utf8_split(head, start);
    assert(head.subrange(start, end) =~= bytes.subrange(start, end));
    utf8::decode_utf8_encode_utf8(bytes.subrange(start, end));
}

/// The report has a line for each span, in order: its label, where it begins and ends, and its
/// text, with tabulators between them. Without spans it says so.
pub proof fn law_report_lines(s: Seq<char>, spans: Seq<SpanView>, span: SpanView)
    ensures
        report(s, Seq::empty()) == "O\n"@,
        report(s, seq![span]) == span.0 + seq!['\t'] + text::decimal(span.1 as int) + seq!['\t']
            + text::decimal(span.2 as int) + seq!['\t'] + surface(
            s,
            span.1 as int,
            span.2 as int,
        ) + seq!['\n'],
        spans.len() > 0 ==> report(s, spans.push(span)) == report(s, spans) + report(
            s,
            seq![span],
        ),
{
    let one = seq![span];
    assert(span_lines(s, one, 0) =~= Seq::<char>::empty());
    assert(span_lines(s, one, 1) =~= span_line(s, span)) by {
        reveal_with_fuel(span_lines, 2);
    }
    assert(span_line(s, span).len() > 0);
    lemma_span_lines_prefix(s, spans, span, spans.len());
    let longer = spans.push(span);
    assert(span_lines(s, longer, longer.len()) == span_lines(s, spans, spans.len()) + span_line(
        s,
        span,
    ));
    if spans.len() > 0 {
        let last = spans[spans.len() - 1];
        assert(span_line(s, last).len() > 0);
    }
}

proof fn lemma_span_lines_prefix(s: Seq<char>, spans: Seq<SpanView>, span: SpanView, n: nat)
    requires
        n <= spans.len(),
    ensures
        span_lines(s, spans.push(span), n) == span_lines(s, spans, n),
    decreases n,
{
    if n > 0 {
        lemma_span_lines_prefix(s, spans, span, (n - 1) as nat);
        assert(spans.push(span)[n - 1] == spans[n - 1]);
    }
}

/// A report on labels is asked for with a text, a tensor that is there, a list of names and whether
/// special tokens count, each in its own place.
pub proof fn law_label_request<T>(c: ContextView<T>, args: Seq<Value>)
    requires
        c.wf(),
    ensures
        request_outcome(c, args) matches Ok(q) ==> {
            &&& args.len() >= 4
            &&& args[0] is String && args[0]->String_0@ == q.0
            &&& args[1] == Value::Int(q.1) && c.tensors.contains_key(q.1)
            &&& args[2] is String && args[2]->String_0@ == q.2
            &&& args[3] == Value::Bool(q.3)
            &&& c.tokenizer is Some
        },
        args.len() >= 4 && args[0] is String && (args[1] is Int && c.tensors.contains_key(
            args[1]->Int_0,
        )) && args[2] is String && args[3] is Bool && c.tokenizer is Some ==> request_outcome(
            c,
            args,
        ) is Ok,
{
}

/// The labels of a text are reported on with the spans of as many tokens as have both a place and a
/// label, by the names in the list.
pub proof fn law_labels_are_reported(
    s: Seq<char>,
    ids: Seq<u32>,
    offsets: Seq<(usize, usize)>,
    labels: Seq<i64>,
    names: Seq<char>,
    m: Seq<char>,
)
    ensures
        report_outcome(s, Ok((ids, offsets)), Ok(labels), names) matches Ok(v) ==> exists|n: nat|
            {
                &&& n <= offsets.len() && n <= labels.len() && (n == offsets.len() || n
                    == labels.len())
                &&& #[trigger] spans_of(offsets, labels, label_names(names), n) is Ok
                &&& v == ValueView::String(
                    report(s, spans_of(offsets, labels, label_names(names), n)->Ok_0),
                )
            },
        report_outcome(s, Err(m), Ok(labels), names) is Err,
        report_outcome(s, Ok((ids, offsets)), Err(m), names) is Err,
{
    let n = labelled(offsets, labels);
    if report_outcome(s, Ok((ids, offsets)), Ok(labels), names) is Ok {
        assert(spans_of(offsets, labels, label_names(names), n) is Ok);
    }
}

} // verus!
