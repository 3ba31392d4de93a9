//! Text helpers: characters, decimal numbers, and literals.
//!
//! A text is modelled by the sequence of its characters.
use vstd::prelude::*;
use vstd::string::*;

verus! {

/// `String::push` appends one character to the end of the text.
pub assume_specification[ std::string::String::push ](s: &mut std::string::String, ch: char)
    ensures
        final(s)@ == old(s)@.push(ch),
;

/// The characters of a text, one by one.
pub fn chars_of(s: &str) -> (r: Vec<char>)
    ensures
        r@ == s@,
{
    let mut out: Vec<char> = Vec::new();
    let n: usize = s.unicode_len();
    let mut i: usize = 0;
    while i < n
        invariant
            n == s@.len(),
            i <= n,
            out@ == s@.take(i as int),
        decreases n - i,
    {
        let c: char = s.get_char(i);
        out.push(c);
        i = i + 1;
    }
    out
}

/// The text made of `chars[from..to]`.
pub fn text_of(chars: &Vec<char>, from: usize, to: usize) -> (r: String)
    requires
        from <= to <= chars@.len(),
    ensures
        r@ == chars@.subrange(from as int, to as int),
{
    let mut out: String = String::new();
    let mut i: usize = from;
    while i < to
        invariant
            from <= i <= to <= chars@.len(),
            out@ == chars@.subrange(from as int, i as int),
        decreases to - i,
    {
        out.push(chars[i]);
        i = i + 1;
    }
    out
}

/// Whether two texts hold the same characters.
pub fn same_text(a: &str, b: &str) -> (r: bool)
    ensures
        r == (a@ == b@),
{
    let x: String = a.to_owned();
    let y: String = b.to_owned();
    x == y
}

/// `a` followed by `b`.
pub fn join2(a: &str, b: &str) -> (r: String)
    ensures
        r@ == a@ + b@,
{
    let mut out: String = a.to_owned();
    out.append(b);
    out
}

/// `a` followed by `b` and `c`.
pub fn join3(a: &str, b: &str, c: &str) -> (r: String)
    ensures
        r@ == a@ + b@ + c@,
{
    let mut out: String = a.to_owned();
    out.append(b);
    out.append(c);
    out
}

/// A character with an ASCII capital replaced by its small letter.
pub open spec fn lower_char(c: char) -> char {
    if 'A' <= c && c <= 'Z' {
        ((c as u32) + 32) as char
    } else {
        c
    }
}

/// A text with its ASCII capitals replaced by small letters.
pub open spec fn lower_text(s: Seq<char>) -> Seq<char> {
    Seq::new(s.len(), |i: int| lower_char(s[i]))
}

/// `s` with every ASCII capital replaced by its small letter.
pub fn to_ascii_lowercase(s: &str) -> (r: String)
    ensures
        r@ == lower_text(s@),
{
    let chars: Vec<char> = chars_of(s);
    let mut out: String = String::new();
    let mut i: usize = 0;
    while i < chars.len()
        invariant
            chars@ == s@,
            i <= chars@.len(),
            out@ == lower_text(s@).take(i as int),
        decreases chars@.len() - i,
    {
        let c: char = chars[i];
        if 'A' <= c && c <= 'Z' {
            let low: u8 = (c as u32 + 32) as u8;
            out.push(low as char);
        } else {
            out.push(c);
        }
        assert(out@ =~= lower_text(s@).take(i as int + 1));
        i = i + 1;
    }
    assert(lower_text(s@).take(s@.len() as int) =~= lower_text(s@));
    out
}

/// The index of the first `c` in `s` at `from` or after, or `s.len()`.
pub open spec fn find_from(s: Seq<char>, c: char, from: int) -> int
    decreases s.len() - from,
{
    if from >= s.len() {
        s.len() as int
    } else if s[from] == c {
        from
    } else {
        find_from(s, c, from + 1)
    }
}

/// Where the first `c` at `from` or after stands, and that none stands before it.
pub proof fn lemma_find_from(s: Seq<char>, c: char, from: int)
    requires
        0 <= from <= s.len(),
    ensures
        from <= find_from(s, c, from) <= s.len(),
        find_from(s, c, from) < s.len() ==> s[find_from(s, c, from)] == c,
        forall|j: int| from <= j < find_from(s, c, from) ==> s[j] != c,
    decreases s.len() - from,
{
    if from < s.len() && s[from] != c {
        lemma_find_from(s, c, from + 1);
    }
}

/// Finds the first `c` at `from` or after.
pub fn find_char(chars: &Vec<char>, c: char, from: usize) -> (r: usize)
    requires
        from <= chars@.len(),
    ensures
        r == find_from(chars@, c, from as int),
        from <= r <= chars@.len(),
{
    let mut i: usize = from;
    while i < chars.len() && chars[i] != c
        invariant
            from <= i <= chars@.len(),
            find_from(chars@, c, from as int) == find_from(chars@, c, i as int),
        decreases chars@.len() - i,
    {
        i = i + 1;
    }
    i
}

/// Whether `s` begins with `prefix`.
pub open spec fn has_prefix(s: Seq<char>, prefix: Seq<char>) -> bool {
    prefix.len() <= s.len() && s.take(prefix.len() as int) == prefix
}

/// Whether `s` ends with `suffix`.
pub open spec fn has_suffix(s: Seq<char>, suffix: Seq<char>) -> bool {
    suffix.len() <= s.len() && s.skip(s.len() - suffix.len()) == suffix
}

/// Whether `s` begins with `prefix`.
pub fn starts_with(s: &str, prefix: &str) -> (r: bool)
    ensures
        r == has_prefix(s@, prefix@),
{
    let a: Vec<char> = chars_of(s);
    let p: Vec<char> = chars_of(prefix);
    if p.len() > a.len() {
        return false;
    }
    let mut i: usize = 0;
    while i < p.len()
        invariant
            a@ == s@,
            p@ == prefix@,
            i <= p@.len() <= a@.len(),
            a@.take(i as int) == p@.take(i as int),
        decreases p@.len() - i,
    {
        if a[i] != p[i] {
            assert(s@.take(p@.len() as int)[i as int] != prefix@[i as int]);
            return false;
        }
        assert(a@.take(i as int + 1) =~= a@.take(i as int).push(a@[i as int]));
        assert(p@.take(i as int + 1) =~= p@.take(i as int).push(p@[i as int]));
        i = i + 1;
    }
    assert(p@.take(p@.len() as int) =~= p@);
    true
}

/// The text after `prefix`, where `s` begins with it.
pub fn strip_prefix(s: &str, prefix: &str) -> (r: Option<String>)
    ensures
        match r {
            Some(rest) => has_prefix(s@, prefix@) && rest@ == s@.skip(prefix@.len() as int),
            None => !has_prefix(s@, prefix@),
        },
{
    if !starts_with(s, prefix) {
        return None;
    }
    let a: Vec<char> = chars_of(s);
    let n: usize = prefix.unicode_len();
    let rest: String = text_of(&a, n, a.len());
    assert(rest@ =~= s@.skip(prefix@.len() as int));
    Some(rest)
}

/// The text before `suffix`, where `s` ends with it.
pub fn strip_suffix(s: &str, suffix: &str) -> (r: Option<String>)
    ensures
        match r {
            Some(rest) => has_suffix(s@, suffix@) && rest@ == s@.take(s@.len() - suffix@.len()),
            None => !has_suffix(s@, suffix@),
        },
{
    let a: Vec<char> = chars_of(s);
    let p: Vec<char> = chars_of(suffix);
    if p.len() > a.len() {
        return None;
    }
    let at: usize = a.len() - p.len();
    let tail: String = text_of(&a, at, a.len());
    assert(tail@ =~= s@.skip(at as int));
    if !same_text(tail.as_str(), suffix) {
        return None;
    }
    let rest: String = text_of(&a, 0, at);
    assert(rest@ =~= s@.take(at as int));
    Some(rest)
}

/// The two parts of `s` around its first `c`.
pub fn split_once(s: &str, c: char) -> (r: Option<(String, String)>)
    ensures
        match r {
            Some((before, after)) => {
                let at = find_from(s@, c, 0);
                at < s@.len() && before@ == s@.take(at) && after@ == s@.skip(at + 1)
            },
            None => find_from(s@, c, 0) == s@.len(),
        },
{
    let a: Vec<char> = chars_of(s);
    let at: usize = find_char(&a, c, 0);
    if at == a.len() {
        return None;
    }
    let before: String = text_of(&a, 0, at);
    let after: String = text_of(&a, at + 1, a.len());
    assert(before@ =~= s@.take(at as int));
    assert(after@ =~= s@.skip(at as int + 1));
    Some((before, after))
}

/// The pieces of `s[from..]` between the occurrences of `c`.
pub open spec fn pieces(s: Seq<char>, c: char, from: int) -> Seq<Seq<char>>
    decreases s.len() - from,
{
    let at = find_from(s, c, from);
    if from < 0 || from > s.len() || at >= s.len() || at < from {
        seq![s.skip(from)]
    } else {
        seq![s.subrange(from, at)] + pieces(s, c, at + 1)
    }
}

/// Splits `s` at every `c`.
pub fn split_at_char(s: &str, c: char) -> (r: Vec<String>)
    ensures
        views(r@) == pieces(s@, c, 0),
{
    let a: Vec<char> = chars_of(s);
    let mut out: Vec<String> = Vec::new();
    let mut from: usize = 0;
    assert(views(out@) + pieces(s@, c, 0) =~= pieces(s@, c, 0));
    loop
        invariant
            a@ == s@,
            from <= a@.len(),
            views(out@) + pieces(s@, c, from as int) == pieces(s@, c, 0),
        decreases a@.len() - from,
    {
        let at: usize = find_char(&a, c, from);
        let piece: String = text_of(&a, from, at);
        let ghost before = out@;
        out.push(piece);
        assert(views(out@) =~= views(before).push(piece@));
        if at == a.len() {
            assert(piece@ =~= s@.skip(from as int));
            assert(views(out@) =~= views(before) + seq![piece@]);
            return out;
        }
        assert(views(out@) + pieces(s@, c, at + 1) =~= views(before) + (seq![piece@] + pieces(
            s@,
            c,
            at + 1,
        )));
        from = at + 1;
    }
}

/// The texts of a sequence of strings.
pub open spec fn views(s: Seq<String>) -> Seq<Seq<char>> {
    Seq::new(s.len(), |i: int| s[i]@)
}

/// The characters that Unicode lists as `White_Space`.
pub open spec fn is_space(c: char) -> bool {
    let u = c as u32;
    ||| 9 <= u <= 13
    ||| u == 0x20
    ||| u == 0x85
    ||| u == 0xA0
    ||| u == 0x1680
    ||| 0x2000 <= u <= 0x200A
    ||| u == 0x2028
    ||| u == 0x2029
    ||| u == 0x202F
    ||| u == 0x205F
    ||| u == 0x3000
}

/// Whether `c` is white space.
pub fn space_char(c: char) -> (r: bool)
    ensures
        r == is_space(c),
{
    let u: u32 = c as u32;
    (9 <= u && u <= 13) || u == 0x20 || u == 0x85 || u == 0xA0 || u == 0x1680 || (0x2000 <= u && u
        <= 0x200A) || u == 0x2028 || u == 0x2029 || u == 0x202F || u == 0x205F || u == 0x3000
}

/// `s` without the white space at its front.
pub open spec fn trim_front(s: Seq<char>) -> Seq<char>
    decreases s.len(),
{
    if s.len() > 0 && is_space(s[0]) {
        trim_front(s.skip(1))
    } else {
        s
    }
}

/// `s` without the white space at its back.
pub open spec fn trim_back(s: Seq<char>) -> Seq<char>
    decreases s.len(),
{
    if s.len() > 0 && is_space(s.last()) {
        trim_back(s.drop_last())
    } else {
        s
    }
}

/// `s` without the white space at both ends.
pub open spec fn trimmed(s: Seq<char>) -> Seq<char> {
    trim_back(trim_front(s))
}

/// `s` without the white space at both ends.
pub fn trim(s: &str) -> (r: String)
    ensures
        r@ == trimmed(s@),
{
    let a: Vec<char> = chars_of(s);
    let mut from: usize = 0;
    assert(a@.skip(0) =~= s@);
    while from < a.len() && space_char(a[from])
        invariant
            a@ == s@,
            from <= a@.len(),
            trim_front(s@) == trim_front(a@.skip(from as int)),
        decreases a@.len() - from,
    {
        assert(a@.skip(from as int).skip(1) =~= a@.skip(from as int + 1));
        from = from + 1;
    }
    let mut to: usize = a.len();
    assert(trim_front(s@) == a@.skip(from as int));
    assert(a@.subrange(from as int, to as int) =~= a@.skip(from as int));
    while to > from && space_char(a[to - 1])
        invariant
            from <= to <= a@.len(),
            trimmed(s@) == trim_back(a@.subrange(from as int, to as int)),
        decreases to,
    {
        assert(a@.subrange(from as int, to as int).drop_last() =~= a@.subrange(
            from as int,
            to as int - 1,
        ));
        to = to - 1;
    }
    text_of(&a, from, to)
}

/// The decimal digit of `d`.
pub open spec fn digit_char(d: int) -> char {
    ('0' as u32 + d) as char
}

/// The decimal digits of a natural number.
pub open spec fn digits(n: nat) -> Seq<char>
    decreases n,
{
    if n < 10 {
        seq![digit_char(n as int)]
    } else {
        digits(n / 10).push(digit_char((n % 10) as int))
    }
}

/// The decimal text of an integer.
pub open spec fn decimal(n: int) -> Seq<char> {
    if n < 0 {
        seq!['-'] + digits((-n) as nat)
    } else {
        digits(n as nat)
    }
}

/// The decimal text of `n`.
pub fn unsigned_text(n: u128) -> (r: String)
    ensures
        r@ == digits(n as nat),
    decreases n,
{
    let low: u8 = (n % 10) as u8;
    let c: char = (48 + low) as char;
    if n < 10 {
        let mut out: String = String::new();
        out.push(c);
        assert(out@ =~= digits(n as nat));
        out
    } else {
        let mut out: String = unsigned_text(n / 10);
        out.push(c);
        out
    }
}

/// The decimal text of `n`.
pub fn decimal_text(n: i128) -> (r: String)
    requires
        n > i128::MIN,
    ensures
        r@ == decimal(n as int),
{
    if n < 0 {
        let rest: String = unsigned_text((-n) as u128);
        let mut out: String = String::new();
        out.push('-');
        out.append(rest.as_str());
        assert(out@ =~= decimal(n as int));
        out
    } else {
        unsigned_text(n as u128)
    }
}

/// Texts with `sep` between each two of them.
pub open spec fn joined(parts: Seq<Seq<char>>, sep: Seq<char>) -> Seq<char>
    decreases parts.len(),
{
    if parts.len() == 0 {
        Seq::empty()
    } else if parts.len() == 1 {
        parts[0]
    } else {
        joined(parts.drop_last(), sep) + sep + parts.last()
    }
}

/// The texts of `parts` with `sep` between each two of them.
pub fn join(parts: &Vec<String>, sep: &str) -> (r: String)
    ensures
        r@ == joined(views(parts@), sep@),
{
    let mut out: String = String::new();
    let mut i: usize = 0;
    assert(views(parts@).take(0) =~= Seq::<Seq<char>>::empty());
    while i < parts.len()
        invariant
            i <= parts@.len(),
            out@ == joined(views(parts@).take(i as int), sep@),
        decreases parts@.len() - i,
    {
        assert(views(parts@).take(i as int + 1).drop_last() =~= views(parts@).take(i as int));
        if i > 0 {
            out.append(sep);
        }
        out.append(parts[i].as_str());
        i = i + 1;
    }
    assert(views(parts@).take(parts@.len() as int) =~= views(parts@));
    out
}

/// The place of the last dot in `s`, or minus one.
pub open spec fn last_dot(s: Seq<char>) -> int
    decreases s.len(),
{
    if s.len() == 0 {
        -1
    } else if s.last() == '.' {
        s.len() - 1
    } else {
        last_dot(s.drop_last())
    }
}

/// The extension of a file name: what stands behind its last dot, where that dot is not its first
/// character.
pub open spec fn extension(name: Seq<char>) -> Option<Seq<char>> {
    let dot = last_dot(name);
    if dot > 0 && name != ".."@ {
        Some(name.skip(dot + 1))
    } else {
        None
    }
}

/// The extension of a file name.
pub fn extension_of(name: &str) -> (r: Option<String>)
    ensures
        match r {
            Some(s) => extension(name@) == Some(s@),
            None => extension(name@) is None,
        },
{
    let chars: Vec<char> = chars_of(name);
    let mut end: usize = chars.len();
    assert(chars@.take(end as int) =~= chars@);
    while end > 0 && chars[end - 1] != '.'
        invariant
            chars@ == name@,
            end <= chars@.len(),
            last_dot(chars@) == last_dot(chars@.take(end as int)),
        decreases end,
    {
        assert(chars@.take(end as int).drop_last() =~= chars@.take(end as int - 1));
        end = end - 1;
    }
    assert(end > 0 ==> chars@.take(end as int).last() == '.');
    if end <= 1 || same_text(name, "..") {
        return None;
    }
    let behind: String = text_of(&chars, end, chars.len());
    assert(behind@ =~= name@.skip(end as int));
    Some(behind)
}

/// Lower-casing changes the ASCII capitals, each to its small letter, and nothing else; doing it
/// twice is doing it once.
pub proof fn law_lower_text(s: Seq<char>)
    ensures
        lower_text(s).len() == s.len(),
        forall|i: int|
            0 <= i < s.len() ==> #[trigger] lower_text(s)[i] as u32 == (if 65 <= s[i] as u32 <= 90 {
                s[i] as u32 + 32
            } else {
                s[i] as int
            }),
        lower_text(lower_text(s)) == lower_text(s),
{
    assert(lower_text(lower_text(s)) =~= lower_text(s));
}

proof fn lemma_pieces(s: Seq<char>, c: char, from: int)
    requires
        0 <= from <= s.len(),
    ensures
        pieces(s, c, from).len() > 0,
        joined(pieces(s, c, from), seq![c]) == s.skip(from),
        forall|i: int|
            0 <= i < pieces(s, c, from).len() ==> !(#[trigger] pieces(s, c, from)[i]).contains(c),
    decreases s.len() - from,
{
    lemma_find_from(s, c, from);
    let at = find_from(s, c, from);
    let sep = seq![c];
    if at >= s.len() {
        assert(pieces(s, c, from) =~= seq![s.skip(from)]);
        assert(!s.skip(from).contains(c)) by {
            if s.skip(from).contains(c) {
                let k = choose|k: int| 0 <= k < s.skip(from).len() && s.skip(from)[k] == c;
                assert(s[from + k] == c);
            }
        }
    } else {
        let first = s.subrange(from, at);
        let rest = pieces(s, c, at + 1);
        lemma_pieces(s, c, at + 1);
        lemma_joined_front(first, rest, sep);
        assert(first + sep + s.skip(at + 1) =~= s.skip(from));
        assert(!first.contains(c)) by {
            if first.contains(c) {
                let k = choose|k: int| 0 <= k < first.len() && first[k] == c;
                assert(s[from + k] == c);
            }
        }
        let all = pieces(s, c, from);
        assert forall|i: int| 0 <= i < all.len() implies !(#[trigger] all[i]).contains(c) by {
            if i > 0 {
                assert(all[i] == rest[i - 1]);
            }
        }
    }
}

proof fn lemma_joined_front(first: Seq<char>, rest: Seq<Seq<char>>, sep: Seq<char>)
    requires
        rest.len() > 0,
    ensures
        joined(seq![first] + rest, sep) == first + sep + joined(rest, sep),
    decreases rest.len(),
{
    let all = seq![first] + rest;
    assert(all.drop_last() =~= seq![first] + rest.drop_last());
    assert(all.last() == rest.last());
    if rest.len() == 1 {
        assert(all.drop_last() =~= seq![first]);
        assert(joined(all.drop_last(), sep) == first);
        assert(joined(rest, sep) == rest.last());
    } else {
        lemma_joined_front(first, rest.drop_last(), sep);
        assert(joined(all, sep) =~= first + sep + joined(rest, sep));
    }
}

/// The pieces of a text hold no separator, and give the text back when they are joined with it.
pub proof fn law_pieces_join_back(s: Seq<char>, c: char)
    ensures
        joined(pieces(s, c, 0), seq![c]) == s,
        forall|i: int|
            0 <= i < pieces(s, c, 0).len() ==> !(#[trigger] pieces(s, c, 0)[i]).contains(c),
{
    lemma_pieces(s, c, 0);
    assert(s.skip(0) =~= s);
}

/// Whether a text is white space throughout.
pub open spec fn all_space(s: Seq<char>) -> bool {
    forall|i: int| 0 <= i < s.len() ==> is_space(#[trigger] s[i])
}

proof fn lemma_trim_front(s: Seq<char>) -> (n: int)
    ensures
        0 <= n <= s.len(),
        all_space(s.take(n)),
        trim_front(s) == s.skip(n),
        n < s.len() ==> !is_space(s[n]),
    decreases s.len(),
{
    if s.len() > 0 && is_space(s[0]) {
        let n = lemma_trim_front(s.skip(1));
        assert(s.skip(1).skip(n) =~= s.skip(n + 1));
        assert forall|i: int| 0 <= i < n + 1 implies is_space(#[trigger] s.take(n + 1)[i]) by {
            if i > 0 {
                assert(s.skip(1).take(n)[i - 1] == s[i]);
            }
        }
        n + 1
    } else {
        assert(s.skip(0) =~= s);
        0
    }
}

proof fn lemma_trim_back(s: Seq<char>) -> (n: int)
    ensures
        0 <= n <= s.len(),
        all_space(s.skip(n)),
        trim_back(s) == s.take(n),
        n > 0 ==> !is_space(s[n - 1]),
    decreases s.len(),
{
    if s.len() > 0 && is_space(s.last()) {
        let t = s.drop_last();
        let n = lemma_trim_back(t);
        assert(t.take(n) =~= s.take(n));
        assert forall|i: int| 0 <= i < s.skip(n).len() implies is_space(#[trigger] s.skip(n)[i]) by {
            if i < t.len() - n {
                assert(t.skip(n)[i] == s[n + i]);
            }
        }
        n
    } else {
        assert(s.take(s.len() as int) =~= s);
        s.len() as int
    }
}

/// Trimming takes white space off both ends and nothing else, and leaves none there.
pub proof fn law_trimmed(s: Seq<char>)
    ensures
        exists|a: int, b: int|
            0 <= a <= b <= s.len() && #[trigger] s.subrange(a, b) == trimmed(s) && all_space(
                s.take(a),
            ) && all_space(s.skip(b)),
        trimmed(s).len() > 0 ==> !is_space(trimmed(s)[0]) && !is_space(trimmed(s).last()),
{
    let a = lemma_trim_front(s);
    let middle = s.skip(a);
    let n = lemma_trim_back(middle);
    let b = a + n;
    assert(s.subrange(a, b) =~= middle.take(n));
    assert(s.skip(b) =~= middle.skip(n));
}

/// The extension of a file name is what stands behind its last dot, and holds none.
pub proof fn law_extension(stem: Seq<char>, ending: Seq<char>)
    requires
        stem.len() > 0,
        !ending.contains('.'),
        stem + seq!['.'] + ending != ".."@,
    ensures
        extension(stem + seq!['.'] + ending) == Some(ending),
{
    let name = stem + seq!['.'] + ending;
    lemma_last_dot(stem, ending);
    assert(name.skip(stem.len() as int + 1) =~= ending);
}

proof fn lemma_last_dot(stem: Seq<char>, ending: Seq<char>)
    requires
        !ending.contains('.'),
    ensures
        last_dot(stem + seq!['.'] + ending) == stem.len(),
    decreases ending.len(),
{
    let name = stem + seq!['.'] + ending;
    if ending.len() == 0 {
        assert(name.last() == '.');
    } else {
        assert(ending.contains(ending.last()));
        assert(name.last() == ending.last());
        assert(name.drop_last() =~= stem + seq!['.'] + ending.drop_last());
        assert(!ending.drop_last().contains('.')) by {
            if ending.drop_last().contains('.') {
                let k = choose|k: int|
                    0 <= k < ending.drop_last().len() && ending.drop_last()[k] == '.';
                assert(ending[k] == '.');
            }
        }
        lemma_last_dot(stem, ending.drop_last());
    }
}

proof fn lemma_splits_back(s: Seq<char>, parts: Seq<Seq<char>>, c: char, from: int)
    requires
        0 <= from <= s.len(),
        parts.len() > 0,
        forall|i: int| 0 <= i < parts.len() ==> !(#[trigger] parts[i]).contains(c),
        s.skip(from) == joined(parts, seq![c]),
    ensures
        pieces(s, c, from) == parts,
    decreases parts.len(),
{
    let first = parts[0];
    let sep = seq![c];
    lemma_find_from(s, c, from);
    let at = find_from(s, c, from);
    assert(!first.contains(c));
    if parts.len() == 1 {
        assert(parts =~= seq![first]);
        if at < s.len() {
            assert(s.skip(from)[at - from] == c);
            assert(first.contains(c));
        }
        assert(pieces(s, c, from) =~= parts);
    } else {
        let rest = parts.drop_first();
        assert(parts =~= seq![first] + rest);
        lemma_joined_front(first, rest, sep);
        let tail = first + sep + joined(rest, sep);
        assert(s.skip(from) == tail);
        let place = from + first.len();
        assert(tail[first.len() as int] == c);
        assert(s[place] == s.skip(from)[first.len() as int]);
        if at < place {
            assert(tail[at - from] == first[at - from]);
            assert(s[at] == s.skip(from)[at - from]);
            assert(first.contains(c));
        }
        assert(at == place);
        assert(s.subrange(from, at) =~= first) by {
            assert forall|k: int| 0 <= k < first.len() implies s.subrange(from, at)[k]
                == first[k] by {
                assert(s.skip(from)[k] == tail[k]);
            }
        }
        assert(s.skip(at + 1) =~= tail.skip(first.len() as int + 1));
        assert(tail.skip(first.len() as int + 1) =~= joined(rest, sep));
        assert forall|i: int| 0 <= i < rest.len() implies !(#[trigger] rest[i]).contains(c) by {
            assert(rest[i] == parts[i + 1]);
        }
        lemma_splits_back(s, rest, c, at + 1);
    }
}

/// Texts without a separator that are joined with it are had back when the whole is split at it.
pub proof fn law_joined_splits_back(parts: Seq<Seq<char>>, c: char)
    requires
        parts.len() > 0,
        forall|i: int| 0 <= i < parts.len() ==> !(#[trigger] parts[i]).contains(c),
    ensures
        pieces(joined(parts, seq![c]), c, 0) == parts,
{
    let s = joined(parts, seq![c]);
    assert(s.skip(0) =~= s);
    lemma_splits_back(s, parts, c, 0);
}

/// A text begins with its front and ends with its back, and what begins or ends with a text is that
/// text with the rest behind or before it.
pub proof fn law_fronts_and_backs(a: Seq<char>, b: Seq<char>, s: Seq<char>)
    ensures
        has_prefix(a + b, a),
        has_suffix(a + b, b),
        has_prefix(s, a) ==> s == a + s.skip(a.len() as int),
        has_suffix(s, b) ==> s == s.take(s.len() - b.len()) + b,
{
    assert((a + b).take(a.len() as int) =~= a);
    assert((a + b).skip((a + b).len() - b.len()) =~= b);
    if has_prefix(s, a) {
        assert(s =~= s.take(a.len() as int) + s.skip(a.len() as int));
    }
    if has_suffix(s, b) {
        assert(s =~= s.take(s.len() - b.len()) + s.skip(s.len() - b.len()));
    }
}

} // verus!
