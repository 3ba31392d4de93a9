//! The descriptions of tokenizers that can be read and used without a fault.
//!
//! A description can ask for what the tokenizer then fails at: a stride that is not below the
//! length that it belongs to, a template that names a token it does not have, merges that are
//! shorter than their prefix. The descriptions that pass here hold none of that; any other is left
//! to the caller.
use vstd::prelude::*;

use crate::json;
use crate::json::{entries_of, field_of, find_entry, has_names_once, items_of, string_of};
use crate::text;

verus! {

/// Whether an entry is missing or null.
pub open spec fn is_unset(part: Option<Seq<char>>) -> bool {
    part is None || part == Some("null"@)
}

/// Whether the `type` of a part is `kind`.
pub open spec fn is_kind(part: Seq<char>, kind: Seq<char>) -> bool {
    match json::field(part, "type"@) {
        Some(v) => json::string(v) == Some(kind),
        None => false,
    }
}

/// Whether the `type` of a part is among `kinds`.
pub open spec fn is_kind_of(part: Seq<char>, kinds: Seq<Seq<char>>) -> bool {
    exists|i: int| 0 <= i < kinds.len() && is_kind(part, #[trigger] kinds[i])
}

fn unset(part: &Option<String>) -> (r: bool)
    ensures
        r == is_unset(json::string_view(*part)),
{
    match part {
        None => true,
        Some(v) => text::same_text(v.as_str(), "null"),
    }
}

fn has_string(value: &str, s: &str) -> (r: bool)
    ensures
        r == (json::string(value@) == Some(s@)),
{
    match string_of(value) {
        Some(own) => text::same_text(own.as_str(), s),
        None => false,
    }
}

fn kind(part: &str, name: &str) -> (r: bool)
    ensures
        r == is_kind(part@, name@),
{
    match field_of(part, "type") {
        Some(v) => has_string(v.as_str(), name),
        None => false,
    }
}

fn kind_of(part: &str, kinds: &[&str]) -> (r: bool)
    ensures
        r == is_kind_of(part@, Seq::new(kinds@.len(), |i: int| kinds@[i]@)),
{
    let ghost models = Seq::new(kinds@.len(), |i: int| kinds@[i]@);
    let mut i: usize = 0;
    while i < kinds.len()
        invariant
            i <= kinds@.len(),
            models == Seq::new(kinds@.len(), |i: int| kinds@[i]@),
            forall|k: int| 0 <= k < i ==> !is_kind(part@, #[trigger] models[k]),
        decreases kinds@.len() - i,
    {
        assert(models[i as int] == kinds@[i as int]@);
        if kind(part, kinds[i]) {
            return true;
        }
        i = i + 1;
    }
    false
}

/// Whether the flag `name` of every added token is off.
pub open spec fn are_off(tokens: Option<Seq<char>>, name: Seq<char>) -> bool {
    match tokens {
        None => true,
        Some(list) => match json::items(list) {
            Some(tokens) => forall|i: int|
                0 <= i < tokens.len() ==> json::field(#[trigger] tokens[i], name) == Some(
                    "false"@,
                ),
            None => false,
        },
    }
}

#[verifier::loop_isolation(false)]
fn all_off(tokens: &Option<String>, name: &str) -> (r: bool)
    ensures
        r == are_off(json::string_view(*tokens), name@),
{
    let list: &String = match tokens {
        None => {
            return true;
        },
        Some(list) => list,
    };
    let tokens: Vec<String> = match items_of(list.as_str()) {
        None => {
            return false;
        },
        Some(tokens) => tokens,
    };
    let ghost models = text::views(tokens@);
    let mut i: usize = 0;
    while i < tokens.len()
        invariant
            i <= tokens@.len(),
            models == text::views(tokens@),
            forall|k: int|
                0 <= k < i ==> json::field(#[trigger] models[k], name@) == Some("false"@),
        decreases tokens@.len() - i,
    {
        assert(models[i as int] == tokens@[i as int]@);
        let off: bool = match field_of(tokens[i].as_str(), name) {
            Some(flag) => text::same_text(flag.as_str(), "false"),
            None => false,
        };
        if !off {
            return false;
        }
        i = i + 1;
    }
    true
}

/// Whether the normalizer is one of the plain ones, and changes no added token, or there is none.
pub open spec fn is_plain_normalizer(
    normalizer: Option<Seq<char>>,
    tokens: Option<Seq<char>>,
) -> bool {
    is_unset(normalizer) || is_kind_of(
        normalizer->0,
        seq!["NFC"@, "NFD"@, "NFKC"@, "NFKD"@, "Lowercase"@],
    ) && are_off(tokens, "normalized"@)
}

fn plain_normalizer(normalizer: &Option<String>, tokens: &Option<String>) -> (r: bool)
    ensures
        r == is_plain_normalizer(json::string_view(*normalizer), json::string_view(*tokens)),
{
    match normalizer {
        None => true,
        Some(n) => {
            let kinds: [&str; 5] = ["NFC", "NFD", "NFKC", "NFKD", "Lowercase"];
            assert(Seq::new(kinds@.len(), |i: int| kinds@[i]@) =~= seq![
                "NFC"@,
                "NFD"@,
                "NFKC"@,
                "NFKD"@,
                "Lowercase"@,
            ]);
            unset(normalizer) || kind_of(n.as_str(), &kinds) && all_off(tokens, "normalized")
        },
    }
}

/// Whether the model is a list of words, of word pieces, or of byte pairs without a prefix.
pub open spec fn is_plain_model(model: Option<Seq<char>>) -> bool {
    match model {
        None => false,
        Some(m) => {
            ||| is_kind(m, "WordLevel"@)
            ||| is_kind(m, "WordPiece"@)
            ||| is_kind(m, "BPE"@) && is_empty_prefix(json::field(m, "continuing_subword_prefix"@))
        },
    }
}

/// Whether a prefix is missing, null or empty.
pub open spec fn is_empty_prefix(prefix: Option<Seq<char>>) -> bool {
    is_unset(prefix) || json::string(prefix->0) == Some(""@)
}

fn plain_model(model: &Option<String>) -> (r: bool)
    ensures
        r == is_plain_model(json::string_view(*model)),
{
    let parts: Vec<(String, String)> = match model {
        None => {
            return false;
        },
        Some(m) => match entries_of(m.as_str()) {
            None => {
                return false;
            },
            Some(parts) => parts,
        },
    };
    let name: String = match find_entry(&parts, "type") {
        None => {
            return false;
        },
        Some(name) => name,
    };
    if has_string(name.as_str(), "WordLevel") || has_string(name.as_str(), "WordPiece") {
        return true;
    }
    if !has_string(name.as_str(), "BPE") {
        return false;
    }
    let prefix: Option<String> = find_entry(&parts, "continuing_subword_prefix");
    match &prefix {
        None => true,
        Some(p) => unset(&prefix) || has_string(p.as_str(), ""),
    }
}

/// Whether a part is of one of these kinds, or a sequence, under `name`, of parts that are.
pub open spec fn is_chain_of(
    part: Option<Seq<char>>,
    name: Seq<char>,
    good: spec_fn(Seq<char>) -> bool,
) -> bool {
    is_unset(part) || good(part->0) || is_kind(part->0, "Sequence"@) && match json::field(
        part->0,
        name,
    ) {
        Some(list) => match json::items(list) {
            Some(steps) => forall|i: int| 0 <= i < steps.len() ==> good(#[trigger] steps[i]),
            None => false,
        },
        None => false,
    }
}

/// The steps of a sequence, or none where a part is no sequence of steps under `name`.
fn steps_of(part: &str, name: &str) -> (r: Option<Vec<String>>)
    ensures
        json::item_views(r) == (if is_kind(part@, "Sequence"@) {
            match json::field(part@, name@) {
                Some(list) => json::items(list),
                None => None,
            }
        } else {
            None
        }),
{
    if !kind(part, "Sequence") {
        return None;
    }
    match field_of(part, name) {
        None => None,
        Some(list) => items_of(list.as_str()),
    }
}

/// Whether a step that splits a text is one of the plain ones.
pub open spec fn is_plain_splitter(p: Seq<char>) -> bool {
    is_kind_of(
        p,
        seq!["ByteLevel"@, "Split"@, "Whitespace"@, "WhitespaceSplit"@, "BertPreTokenizer"@],
    )
}

fn plain_splitter(p: &str) -> (r: bool)
    ensures
        r == is_plain_splitter(p@),
{
    let kinds: [&str; 5] = [
        "ByteLevel",
        "Split",
        "Whitespace",
        "WhitespaceSplit",
        "BertPreTokenizer",
    ];
    assert(Seq::new(kinds@.len(), |i: int| kinds@[i]@) =~= seq![
        "ByteLevel"@,
        "Split"@,
        "Whitespace"@,
        "WhitespaceSplit"@,
        "BertPreTokenizer"@,
    ]);
    kind_of(p, &kinds)
}

/// Whether the text is split in plain steps, or not at all.
pub open spec fn are_plain_splitters(part: Option<Seq<char>>) -> bool {
    is_chain_of(part, "pretokenizers"@, |p: Seq<char>| is_plain_splitter(p))
}

#[verifier::loop_isolation(false)]
fn plain_splitters(part: &Option<String>) -> (r: bool)
    ensures
        r == are_plain_splitters(json::string_view(*part)),
{
    let p: &str = match part {
        None => {
            return true;
        },
        Some(p) => p.as_str(),
    };
    if unset(part) || plain_splitter(p) {
        return true;
    }
    let steps: Vec<String> = match steps_of(p, "pretokenizers") {
        None => {
            return false;
        },
        Some(steps) => steps,
    };
    let ghost models = text::views(steps@);
    let mut i: usize = 0;
    while i < steps.len()
        invariant
            i <= steps@.len(),
            models == text::views(steps@),
            forall|k: int| 0 <= k < i ==> is_plain_splitter(#[trigger] models[k]),
        decreases steps@.len() - i,
    {
        assert(models[i as int] == steps@[i as int]@);
        if !plain_splitter(steps[i].as_str()) {
            return false;
        }
        i = i + 1;
    }
    true
}

/// Whether a piece of a template is the text itself or one of these tokens.
pub open spec fn is_sound_piece(piece: Seq<char>, tokens: Seq<(Seq<char>, Seq<char>)>) -> bool {
    match json::field(piece, "Sequence"@) {
        Some(part) => match json::field(part, "id"@) {
            Some(id) => json::string(id) == Some("A"@),
            None => false,
        },
        None => match json::field(piece, "SpecialToken"@) {
            Some(token) => match json::field(token, "id"@) {
                Some(id) => match json::string(id) {
                    Some(id) => json::entry(tokens, id, 0) is Some,
                    None => false,
                },
                None => false,
            },
            None => false,
        },
    }
}

fn sound_piece(piece: &str, tokens: &Vec<(String, String)>) -> (r: bool)
    ensures
        r == is_sound_piece(
            piece@,
            json::entry_views(tokens@),
        ),
{
    match field_of(piece, "Sequence") {
        Some(part) => match field_of(part.as_str(), "id") {
            Some(id) => has_string(id.as_str(), "A"),
            None => false,
        },
        None => match field_of(piece, "SpecialToken") {
            Some(token) => match field_of(token.as_str(), "id") {
                Some(id) => match string_of(id.as_str()) {
                    Some(id) => find_entry(tokens, id.as_str()).is_some(),
                    None => false,
                },
                None => false,
            },
            None => false,
        },
    }
}

/// Whether the pieces of a template are sound.
pub open spec fn are_sound_pieces(single: Option<Seq<char>>, tokens: Option<Seq<char>>) -> bool {
    match (single, tokens) {
        (Some(single), Some(tokens)) => match (json::items(single), json::entries(tokens)) {
            (Some(pieces), Some(tokens)) => forall|i: int|
                0 <= i < pieces.len() ==> is_sound_piece(#[trigger] pieces[i], tokens),
            _ => false,
        },
        _ => false,
    }
}

#[verifier::loop_isolation(false)]
fn sound_pieces(single: &str, tokens: &str) -> (r: bool)
    ensures
        r == are_sound_pieces(Some(single@), Some(tokens@)),
{
    let pieces: Vec<String> = match items_of(single) {
        None => {
            return false;
        },
        Some(pieces) => pieces,
    };
    let tokens: Vec<(String, String)> = match entries_of(tokens) {
        None => {
            return false;
        },
        Some(tokens) => tokens,
    };
    let ghost models = text::views(pieces@);
    let ghost known = json::entry_views(tokens@);
    let mut i: usize = 0;
    while i < pieces.len()
        invariant
            i <= pieces@.len(),
            models == text::views(pieces@),
            known == json::entry_views(tokens@),
            forall|k: int| 0 <= k < i ==> is_sound_piece(#[trigger] models[k], known),
        decreases pieces@.len() - i,
    {
        assert(models[i as int] == pieces@[i as int]@);
        if !sound_piece(pieces[i].as_str(), &tokens) {
            return false;
        }
        i = i + 1;
    }
    true
}

/// Whether a step behind the model is a template for one text, all of whose tokens it has.
pub open spec fn is_sound_template(p: Seq<char>) -> bool {
    &&& is_kind(p, "TemplateProcessing"@)
    &&& json::field(p, "processors"@) is None
    &&& are_sound_pieces(json::field(p, "single"@), json::field(p, "special_tokens"@))
}

fn sound_template(p: &str) -> (r: bool)
    ensures
        r == is_sound_template(p@),
{
    if !kind(p, "TemplateProcessing") || field_of(p, "processors").is_some() {
        return false;
    }
    match field_of(p, "single") {
        None => false,
        Some(single) => match field_of(p, "special_tokens") {
            None => false,
            Some(tokens) => sound_pieces(single.as_str(), tokens.as_str()),
        },
    }
}

/// Whether a step behind the model is of one of these kinds, and neither a template nor a sequence.
pub open spec fn is_single_step(p: Seq<char>, kinds: Seq<Seq<char>>) -> bool {
    &&& is_kind_of(p, kinds)
    &&& json::field(p, "single"@) is None
    &&& json::field(p, "processors"@) is None
}

/// Whether a step behind the model trims the places of tokens.
pub open spec fn is_trimming(p: Seq<char>) -> bool {
    is_single_step(p, seq!["ByteLevel"@])
}

fn trimming(p: &str) -> (r: bool)
    ensures
        r == is_trimming(p@),
{
    let kinds: [&str; 1] = ["ByteLevel"];
    assert(Seq::new(kinds@.len(), |i: int| kinds@[i]@) =~= seq!["ByteLevel"@]);
    kind_of(p, &kinds) && field_of(p, "single").is_none() && field_of(p, "processors").is_none()
}

/// Whether a step behind the model puts one token before the text and one behind it.
pub open spec fn is_framing(p: Seq<char>) -> bool {
    is_single_step(p, seq!["RobertaProcessing"@, "BertProcessing"@])
}

fn framing(p: &str) -> (r: bool)
    ensures
        r == is_framing(p@),
{
    let kinds: [&str; 2] = ["RobertaProcessing", "BertProcessing"];
    assert(Seq::new(kinds@.len(), |i: int| kinds@[i]@) =~= seq![
        "RobertaProcessing"@,
        "BertProcessing"@,
    ]);
    kind_of(p, &kinds) && field_of(p, "single").is_none() && field_of(p, "processors").is_none()
}

/// Whether steps behind the model are sound one after the other: one template at most.
pub open spec fn are_sound_steps(steps: Seq<Seq<char>>) -> bool {
    &&& forall|i: int|
        0 <= i < steps.len() ==> is_trimming(#[trigger] steps[i]) || is_sound_template(steps[i])
    &&& forall|i: int, j: int|
        0 <= i < j < steps.len() ==> !(is_sound_template(#[trigger] steps[i])
            && is_sound_template(#[trigger] steps[j]))
}

fn sound_steps(steps: &Vec<String>) -> (r: bool)
    ensures
        r == are_sound_steps(text::views(steps@)),
{
    let ghost models = text::views(steps@);
    let mut template: Option<usize> = None;
    let mut i: usize = 0;
    while i < steps.len()
        invariant
            i <= steps@.len(),
            models == text::views(steps@),
            forall|k: int|
                0 <= k < i ==> is_trimming(#[trigger] models[k]) || is_sound_template(models[k]),
            match template {
                None => forall|k: int| 0 <= k < i ==> !is_sound_template(#[trigger] models[k]),
                Some(at) => {
                    &&& at < i
                    &&& is_sound_template(models[at as int])
                    &&& forall|k: int|
                        0 <= k < i && k != at ==> !is_sound_template(#[trigger] models[k])
                },
            },
        decreases steps@.len() - i,
    {
        assert(models[i as int] == steps@[i as int]@);
        if sound_template(steps[i].as_str()) {
            match template {
                Some(at) => {
                    assert(is_sound_template(models[at as int]) && is_sound_template(
                        models[i as int],
                    ));
                    return false;
                },
                None => {},
            }
            template = Some(i);
        } else if !trimming(steps[i].as_str()) {
            return false;
        }
        i = i + 1;
    }
    true
}

/// Whether what is done behind the model is sound for one text.
pub open spec fn is_sound_end(part: Option<Seq<char>>) -> bool {
    is_unset(part) || is_trimming(part->0) || is_framing(part->0) || is_sound_template(part->0) || {
        &&& is_kind(part->0, "Sequence"@)
        &&& json::field(part->0, "single"@) is None
        &&& match json::field(part->0, "processors"@) {
            Some(list) => match json::items(list) {
                Some(steps) => are_sound_steps(steps),
                None => false,
            },
            None => false,
        }
    }
}

fn sound_end(part: &Option<String>) -> (r: bool)
    ensures
        r == is_sound_end(json::string_view(*part)),
{
    let p: &str = match part {
        None => {
            return true;
        },
        Some(p) => p.as_str(),
    };
    if unset(part) || trimming(p) || framing(p) || sound_template(p) {
        return true;
    }
    if field_of(p, "single").is_some() {
        return false;
    }
    match steps_of(p, "processors") {
        None => false,
        Some(steps) => sound_steps(&steps),
    }
}

/// Whether a step that turns tokens back into text is one of the plain ones.
pub open spec fn is_plain_decoder(d: Seq<char>) -> bool {
    ||| is_kind_of(
        d,
        seq![
            "ByteLevel"@,
            "WordPiece"@,
            "Metaspace"@,
            "Fuse"@,
            "ByteFallback"@,
            "Replace"@,
        ],
    )
    ||| is_kind(d, "Strip"@) && json::field(d, "stop"@) == Some("0"@)
}

fn plain_decoder(d: &str) -> (r: bool)
    ensures
        r == is_plain_decoder(d@),
{
    let kinds: [&str; 6] = [
        "ByteLevel",
        "WordPiece",
        "Metaspace",
        "Fuse",
        "ByteFallback",
        "Replace",
    ];
    assert(Seq::new(kinds@.len(), |i: int| kinds@[i]@) =~= seq![
        "ByteLevel"@,
        "WordPiece"@,
        "Metaspace"@,
        "Fuse"@,
        "ByteFallback"@,
        "Replace"@,
    ]);
    if kind_of(d, &kinds) {
        return true;
    }
    kind(d, "Strip") && match field_of(d, "stop") {
        Some(stop) => text::same_text(stop.as_str(), "0"),
        None => false,
    }
}

/// Whether tokens are turned back into text in plain steps.
pub open spec fn are_plain_decoders(part: Option<Seq<char>>) -> bool {
    is_chain_of(part, "decoders"@, |d: Seq<char>| is_plain_decoder(d))
}

#[verifier::loop_isolation(false)]
fn plain_decoders(part: &Option<String>) -> (r: bool)
    ensures
        r == are_plain_decoders(json::string_view(*part)),
{
    let d: &str = match part {
        None => {
            return true;
        },
        Some(d) => d.as_str(),
    };
    if unset(part) || plain_decoder(d) {
        return true;
    }
    let steps: Vec<String> = match steps_of(d, "decoders") {
        None => {
            return false;
        },
        Some(steps) => steps,
    };
    let ghost models = text::views(steps@);
    let mut i: usize = 0;
    while i < steps.len()
        invariant
            i <= steps@.len(),
            models == text::views(steps@),
            forall|k: int| 0 <= k < i ==> is_plain_decoder(#[trigger] models[k]),
        decreases steps@.len() - i,
    {
        assert(models[i as int] == steps@[i as int]@);
        if !plain_decoder(steps[i].as_str()) {
            return false;
        }
        i = i + 1;
    }
    true
}

/// Whether added tokens take the white space on one side of them at most, and all on the same.
pub open spec fn is_one_sided(tokens: Option<Seq<char>>) -> bool {
    are_off(tokens, "lstrip"@) || are_off(tokens, "rstrip"@)
}

fn one_sided(tokens: &Option<String>) -> (r: bool)
    ensures
        r == is_one_sided(json::string_view(*tokens)),
{
    all_off(tokens, "lstrip") || all_off(tokens, "rstrip")
}

/// Whether a description can be read: it names nothing twice, and its normalizer and its model are
/// plain.
pub open spec fn is_readable(description: Seq<char>) -> bool {
    &&& json::names_once(description)
    &&& is_plain_normalizer(
        json::field(description, "normalizer"@),
        json::field(description, "added_tokens"@),
    )
    &&& is_plain_model(json::field(description, "model"@))
}

/// Whether a tokenizer with this description can encode: nothing is cut off or filled up, and every
/// step is plain.
pub open spec fn is_encodable(description: Seq<char>) -> bool {
    &&& is_readable(description)
    &&& is_unset(json::field(description, "truncation"@))
    &&& is_unset(json::field(description, "padding"@))
    &&& is_one_sided(json::field(description, "added_tokens"@))
    &&& are_plain_splitters(json::field(description, "pre_tokenizer"@))
    &&& is_sound_end(json::field(description, "post_processor"@))
}

/// Whether a tokenizer with this description can decode.
pub open spec fn is_decodable(description: Seq<char>) -> bool {
    &&& is_readable(description)
    &&& are_plain_decoders(json::field(description, "decoder"@))
}

/// Whether a description with these entries can be read.
fn readable(description: &str, parts: &Vec<(String, String)>) -> (r: bool)
    ensures
        ({
            let list = json::entry_views(parts@);
            r == (json::colons(description@, 0, false) == json::entry_colons(list, 0)
                && is_plain_normalizer(
                json::entry(list, "normalizer"@, 0),
                json::entry(list, "added_tokens"@, 0),
            ) && is_plain_model(json::entry(list, "model"@, 0)))
        }),
{
    has_names_once(description, parts) && plain_normalizer(
        &find_entry(parts, "normalizer"),
        &find_entry(parts, "added_tokens"),
    ) && plain_model(&find_entry(parts, "model"))
}

/// Whether a description can be read.
pub fn can_read(description: &str) -> (r: bool)
    ensures
        r == is_readable(description@),
{
    match entries_of(description) {
        None => false,
        Some(parts) => readable(description, &parts),
    }
}

/// Whether a tokenizer with this description can encode.
pub fn can_encode(description: &str) -> (r: bool)
    ensures
        r == is_encodable(description@),
{
    match entries_of(description) {
        None => false,
        Some(parts) => {
            readable(description, &parts) && unset(&find_entry(&parts, "truncation"))
                && unset(&find_entry(&parts, "padding"))
                && one_sided(&find_entry(&parts, "added_tokens"))
                && plain_splitters(&find_entry(&parts, "pre_tokenizer"))
                && sound_end(&find_entry(&parts, "post_processor"))
        },
    }
}

/// Whether a tokenizer with this description can decode.
pub fn can_decode(description: &str) -> (r: bool)
    ensures
        r == is_decodable(description@),
{
    match entries_of(description) {
        None => false,
        Some(parts) => readable(description, &parts) && plain_decoders(&find_entry(&parts, "decoder")),
    }
}

} // verus!
