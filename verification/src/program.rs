//! What the programs decide before and after a run.
use vstd::prelude::*;
use vstd::string::*;

use crate::text;

verus! {

/// What a program is to do.
#[derive(Clone, Copy, Debug, PartialEq, Eq, Structural)]
pub enum Mode {
    Llm,
    Lama,
}

/// The mode that two flags choose; they choose one only where they differ.
pub fn choose_mode(llm: bool, lama: bool) -> (r: Result<Mode, String>)
    ensures
        match r {
            Ok(mode) => llm != lama && mode == (if llm {
                Mode::Llm
            } else {
                Mode::Lama
            }),
            Err(m) => llm == lama && m@ == "choose one mode: --llm or --lama"@,
        },
{
    match (llm, lama) {
        (true, false) => Ok(Mode::Llm),
        (false, true) => Ok(Mode::Lama),
        _ => Err("choose one mode: --llm or --lama".to_string()),
    }
}

/// A path that must be given.
pub fn required_path(value: Option<String>, name: &str) -> (r: Result<String, String>)
    ensures
        match value {
            Some(path) => r is Ok && r->Ok_0@ == path@,
            None => r is Err && r->Err_0@ == name@ + " is required"@,
        },
{
    match value {
        Some(path) => Ok(path),
        None => Err(text::join2(name, " is required")),
    }
}

/// The directory that is to be made before a file is written: the one that the file lies in,
/// unless that has no name.
pub fn ensure_parent_dir(parent: Option<&str>) -> (r: Option<&str>)
    ensures
        match parent {
            Some(directory) => if directory@.len() == 0 {
                r is None
            } else {
                r is Some && r->0@ == directory@
            },
            None => r is None,
        },
{
    match parent {
        Some(directory) => if directory.unicode_len() == 0 {
            None
        } else {
            Some(directory)
        },
        None => None,
    }
}

/// A number of tokens that is to be shown per second of a time in nanoseconds, and what stands
/// before it.
#[derive(Debug)]
pub struct Rate {
    pub label: String,
    pub tokens: i64,
    pub nanos: u128,
}

/// The model of a [`Rate`].
pub struct RateView {
    pub label: Seq<char>,
    pub tokens: i64,
    pub nanos: u128,
}

impl View for Rate {
    type V = RateView;

    open spec fn view(&self) -> RateView {
        RateView { label: self.label@, tokens: self.tokens, nanos: self.nanos }
    }
}

/// The rate of a count and a time, where both are known and above zero.
pub open spec fn rate_of(label: Seq<char>, tokens: Option<i64>, nanos: Option<u128>) -> Seq<
    RateView,
> {
    match (tokens, nanos) {
        (Some(tokens), Some(nanos)) => if tokens > 0 && nanos > 0 {
            seq![RateView { label, tokens, nanos }]
        } else {
            Seq::empty()
        },
        _ => Seq::empty(),
    }
}

/// The rates of a run: that of all its tokens, and then that of the tokens behind the first. The
/// first is called a total where the second is known.
pub open spec fn rates_of(
    generated_tokens: Option<i64>,
    elapsed: Option<u128>,
    decode_tokens: Option<i64>,
    decode_elapsed: Option<u128>,
) -> Seq<RateView> {
    let label = if decode_tokens is Some && decode_elapsed is Some {
        "tokens/s total"@
    } else {
        "tokens/s"@
    };
    rate_of(label, generated_tokens, elapsed) + rate_of(
        "tokens/s decode"@,
        decode_tokens,
        decode_elapsed,
    )
}

/// The model of rates.
pub open spec fn rates_view(rates: Seq<Rate>) -> Seq<RateView> {
    rates.map_values(|rate: Rate| rate@)
}

fn push_rate(rates: &mut Vec<Rate>, label: &str, tokens: Option<i64>, nanos: Option<u128>)
    ensures
        rates_view(final(rates)@) == rates_view(old(rates)@) + rate_of(label@, tokens, nanos),
{
    match (tokens, nanos) {
        (Some(tokens), Some(nanos)) => {
            if tokens > 0 && nanos > 0 {
                rates.push(Rate { label: label.to_string(), tokens, nanos });
            }
        },
        _ => {},
    }
    assert(rates_view(rates@) =~= rates_view(old(rates)@) + rate_of(label@, tokens, nanos));
}

/// The rates of a run that are to be shown, in order.
pub fn token_rates(
    generated_tokens: Option<i64>,
    elapsed: Option<u128>,
    decode_tokens: Option<i64>,
    decode_elapsed: Option<u128>,
) -> (r: Vec<Rate>)
    ensures
        rates_view(r@) == rates_of(generated_tokens, elapsed, decode_tokens, decode_elapsed),
{
    let mut rates: Vec<Rate> = Vec::new();
    let label: &str = if decode_tokens.is_some() && decode_elapsed.is_some() {
        "tokens/s total"
    } else {
        "tokens/s"
    };
    assert(rates_view(rates@) =~= Seq::<RateView>::empty());
    push_rate(&mut rates, label, generated_tokens, elapsed);
    push_rate(&mut rates, "tokens/s decode", decode_tokens, decode_elapsed);
    assert(Seq::<RateView>::empty() + rate_of(label@, generated_tokens, elapsed) =~= rate_of(
        label@,
        generated_tokens,
        elapsed,
    ));
    rates
}

/// A rate is shown for tokens and a time above zero alone, so it can be worked out.
pub proof fn law_rates_can_be_shown(
    generated_tokens: Option<i64>,
    elapsed: Option<u128>,
    decode_tokens: Option<i64>,
    decode_elapsed: Option<u128>,
    i: int,
)
    requires
        0 <= i < rates_of(generated_tokens, elapsed, decode_tokens, decode_elapsed).len(),
    ensures
        rates_of(generated_tokens, elapsed, decode_tokens, decode_elapsed)[i].tokens > 0,
        rates_of(generated_tokens, elapsed, decode_tokens, decode_elapsed)[i].nanos > 0,
{
}

/// A rate is shown for the tokens of the whole run and for those that were decoded, each with its
/// own time, where both are known and not zero.
pub proof fn law_rates(tokens: i64, nanos: u128, decoded: i64, decode_nanos: u128)
    requires
        tokens > 0,
        nanos > 0,
        decoded > 0,
        decode_nanos > 0,
    ensures
        rates_of(Some(tokens), Some(nanos), None, None) == seq![
            RateView { label: "tokens/s"@, tokens, nanos },
        ],
        rates_of(None, None, Some(decoded), Some(decode_nanos)) == seq![
            RateView { label: "tokens/s decode"@, tokens: decoded, nanos: decode_nanos },
        ],
        rates_of(Some(tokens), Some(nanos), Some(decoded), Some(decode_nanos)) == seq![
            RateView { label: "tokens/s total"@, tokens, nanos },
            RateView { label: "tokens/s decode"@, tokens: decoded, nanos: decode_nanos },
        ],
        rates_of(None, Some(nanos), None, Some(decode_nanos)).len() == 0,
{
    assert(rates_of(Some(tokens), Some(nanos), None, None) =~= seq![
        RateView { label: "tokens/s"@, tokens, nanos },
    ]);
    assert(rates_of(None, None, Some(decoded), Some(decode_nanos)) =~= seq![
        RateView { label: "tokens/s decode"@, tokens: decoded, nanos: decode_nanos },
    ]);
    assert(rates_of(Some(tokens), Some(nanos), Some(decoded), Some(decode_nanos)) =~= seq![
        RateView { label: "tokens/s total"@, tokens, nanos },
        RateView { label: "tokens/s decode"@, tokens: decoded, nanos: decode_nanos },
    ]);
}

} // verus!
