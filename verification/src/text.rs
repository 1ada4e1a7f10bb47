//! Text as a sequence of characters: comparison, trimming, splitting and joining.

use vstd::prelude::*;
use vstd::string::*;

verus! {

/// `String::push` appends one character.
pub assume_specification[ String::push ](s: &mut String, c: char)
    ensures
        final(s)@ == old(s)@.push(c),
;

/// A text as Rust shows it for debugging: in double quotes, its special characters escaped.
pub uninterp spec fn debug_quoted(s: Seq<char>) -> Seq<char>;

/// Writes a text with the `Debug` format of `str`. What comes back depends on the text alone.
#[verifier::external_body]
pub(crate) fn debug_quote(s: &str) -> (r: String)
    ensures
        r@ == debug_quoted(s@),
{
    format!("{s:?}")
}

/// The outcome of comparing two values.
#[derive(Clone, Copy, Debug, PartialEq, Eq, Structural)]
pub enum Relation {
    Less,
    Equal,
    Greater,
}

/// The characters of `s`.
pub fn chars_of(s: &str) -> (r: Vec<char>)
    ensures
        r@ == s@,
{
    let mut out: Vec<char> = Vec::new();
    for c in it: s.chars()
        invariant
            it.seq() == s@,
            out@ == s@.take(it.index()),
    {
        out.push(c);
        assert(s@.take(it.index() + 1) =~= s@.take(it.index()).push(c));
    }
    assert(s@.take(s@.len() as int) =~= s@);
    out
}

/// The text made of `chars`.
pub fn string_of(chars: &[char]) -> (r: String)
    ensures
        r@ == chars@,
{
    let mut out = String::new();
    let mut i: usize = 0;
    while i < chars.len()
        invariant
            i <= chars@.len(),
            out@ == chars@.take(i as int),
        decreases chars@.len() - i,
    {
        out.push(chars[i]);
        assert(chars@.take(i + 1) =~= chars@.take(i as int).push(chars@[i as int]));
        i += 1;
    }
    assert(chars@.take(i as int) =~= chars@);
    out
}

/// How `a` stands to `b` in the order of their characters, the first difference deciding.
pub open spec fn relation(a: Seq<char>, b: Seq<char>) -> Relation
    decreases a.len(),
{
    if a.len() == 0 {
        if b.len() == 0 {
            Relation::Equal
        } else {
            Relation::Less
        }
    } else if b.len() == 0 {
        Relation::Greater
    } else if a[0] != b[0] {
        if (a[0] as int) < (b[0] as int) {
            Relation::Less
        } else {
            Relation::Greater
        }
    } else {
        relation(a.drop_first(), b.drop_first())
    }
}

/// `a` comes strictly before `b`.
pub open spec fn before(a: Seq<char>, b: Seq<char>) -> bool {
    relation(a, b) == Relation::Less
}

/// Two texts stand equal exactly when they are the same text, and swapping them swaps the outcome.
pub proof fn lemma_relation(a: Seq<char>, b: Seq<char>)
    ensures
        relation(a, b) == Relation::Equal <==> a == b,
        relation(a, b) == Relation::Less <==> relation(b, a) == Relation::Greater,
    decreases a.len(),
{
    if a.len() > 0 && b.len() > 0 {
        if a[0] == b[0] {
            lemma_relation(a.drop_first(), b.drop_first());
            assert(a =~= seq![a[0]] + a.drop_first());
            assert(b =~= seq![b[0]] + b.drop_first());
        }
    } else if a.len() == 0 && b.len() == 0 {
        assert(a =~= b);
    }
}

/// The order of texts is transitive.
pub proof fn lemma_before_transitive(a: Seq<char>, b: Seq<char>, c: Seq<char>)
    requires
        before(a, b),
        before(b, c),
    ensures
        before(a, c),
    decreases a.len(),
{
    if a.len() > 0 && b.len() > 0 && c.len() > 0 && a[0] == b[0] && b[0] == c[0] {
        lemma_before_transitive(a.drop_first(), b.drop_first(), c.drop_first());
    }
}

/// Compares two texts character by character.
pub fn compare(a: &str, b: &str) -> (r: Relation)
    ensures
        r == relation(a@, b@),
{
    let mut x = a.chars();
    let mut y = b.chars();
    loop
        invariant
            vstd::std_specs::iter::IteratorSpec::obeys_prophetic_iter_laws(&x),
            vstd::std_specs::iter::IteratorSpec::obeys_prophetic_iter_laws(&y),
            vstd::std_specs::iter::IteratorSpec::decrease(&x) is Some,
            relation(
                vstd::std_specs::iter::IteratorSpec::remaining(&x),
                vstd::std_specs::iter::IteratorSpec::remaining(&y),
            ) == relation(a@, b@),
        decreases vstd::std_specs::iter::IteratorSpec::decrease(&x)->0,
    {
        match x.next() {
            None => {
                return match y.next() {
                    None => Relation::Equal,
                    Some(_) => Relation::Less,
                };
            },
            Some(c) => {
                match y.next() {
                    None => {
                        return Relation::Greater;
                    },
                    Some(d) => {
                        if c != d {
                            return if c < d {
                                Relation::Less
                            } else {
                                Relation::Greater
                            };
                        }
                    },
                }
            },
        }
    }
}

/// Whether two texts are the same.
pub fn same(a: &str, b: &str) -> (r: bool)
    ensures
        r == (a@ == b@),
{
    proof {
        lemma_relation(a@, b@);
    }
    match compare(a, b) {
        Relation::Equal => true,
        _ => false,
    }
}

/// Joins two texts.
pub fn join2(a: &str, b: &str) -> (r: String)
    ensures
        r@ == a@ + b@,
{
    let mut out = a.to_owned();
    out.append(b);
    out
}

/// Joins three texts.
pub fn join3(a: &str, b: &str, c: &str) -> (r: String)
    ensures
        r@ == a@ + b@ + c@,
{
    let mut out = a.to_owned();
    out.append(b);
    out.append(c);
    out
}

/// Joins four texts.
pub fn join4(a: &str, b: &str, c: &str, d: &str) -> (r: String)
    ensures
        r@ == a@ + b@ + c@ + d@,
{
    let mut out = a.to_owned();
    out.append(b);
    out.append(c);
    out.append(d);
    out
}

/// Joins five texts.
pub fn join5(a: &str, b: &str, c: &str, d: &str, e: &str) -> (r: String)
    ensures
        r@ == a@ + b@ + c@ + d@ + e@,
{
    let mut out = a.to_owned();
    out.append(b);
    out.append(c);
    out.append(d);
    out.append(e);
    out
}

/// Joins six texts.
pub fn join6(a: &str, b: &str, c: &str, d: &str, e: &str, f: &str) -> (r: String)
    ensures
        r@ == a@ + b@ + c@ + d@ + e@ + f@,
{
    let mut out = a.to_owned();
    out.append(b);
    out.append(c);
    out.append(d);
    out.append(e);
    out.append(f);
    out
}

/// The decimal digit of a value below ten.
pub open spec fn digit(value: nat) -> char {
    ((value + 48) as u32) as char
}

/// A number in decimal notation, without leading zeros.
pub open spec fn decimal_text(value: nat) -> Seq<char>
    decreases value,
{
    if value < 10 {
        seq![digit(value)]
    } else {
        decimal_text(value / 10).push(digit(value % 10))
    }
}

/// A signed number in decimal notation.
pub open spec fn signed_text(value: int) -> Seq<char> {
    if value < 0 {
        seq!['-'] + decimal_text((-value) as nat)
    } else {
        decimal_text(value as nat)
    }
}

/// Writes a number in decimal notation.
pub fn decimal(value: u64) -> (r: String)
    ensures
        r@ == decimal_text(value as nat),
    decreases value,
{
    let low: u8 = (value % 10) as u8;
    let c: char = (low + 48) as char;
    if value < 10 {
        let mut out = String::new();
        out.push(c);
        assert(out@ =~= seq![digit(value as nat)]);
        out
    } else {
        let mut out = decimal(value / 10);
        out.push(c);
        out
    }
}

/// Writes a signed number in decimal notation.
pub fn signed_decimal(value: i64) -> (r: String)
    ensures
        r@ == signed_text(value as int),
{
    if value >= 0 {
        decimal(value as u64)
    } else if value == i64::MIN {
        let digits = decimal(9223372036854775808u64);
        let mut out = String::new();
        out.push('-');
        out.append(digits.as_str());
        assert(out@ =~= seq!['-'] + decimal_text(9223372036854775808nat));
        out
    } else {
        let digits = decimal((-value) as u64);
        let mut out = String::new();
        out.push('-');
        out.append(digits.as_str());
        assert(out@ =~= seq!['-'] + decimal_text((-value) as nat));
        out
    }
}

/// The characters with the Unicode property White_Space.
pub open spec fn whitespace(c: char) -> bool {
    let code = c as u32;
    ||| 0x9 <= code <= 0xd
    ||| code == 0x20
    ||| code == 0x85
    ||| code == 0xa0
    ||| code == 0x1680
    ||| 0x2000 <= code <= 0x200a
    ||| code == 0x2028
    ||| code == 0x2029
    ||| code == 0x202f
    ||| code == 0x205f
    ||| code == 0x3000
}

/// The characters of the Unicode category Control.
pub open spec fn control(c: char) -> bool {
    (c as u32) < 0x20 || 0x7f <= (c as u32) < 0xa0
}

/// Whether `c` is white space.
pub fn is_whitespace(c: char) -> (r: bool)
    ensures
        r == whitespace(c),
{
    let code: u32 = c as u32;
    (0x9 <= code && code <= 0xd) || code == 0x20 || code == 0x85 || code == 0xa0 || code == 0x1680
        || (0x2000 <= code && code <= 0x200a) || code == 0x2028 || code == 0x2029 || code == 0x202f
        || code == 0x205f || code == 0x3000
}

/// Whether `c` is a control character.
pub fn is_control(c: char) -> (r: bool)
    ensures
        r == control(c),
{
    let code: u32 = c as u32;
    code < 0x20 || (0x7f <= code && code < 0xa0)
}

/// `s` without leading white space.
pub open spec fn trimmed_start(s: Seq<char>) -> Seq<char>
    decreases s.len(),
{
    if s.len() > 0 && whitespace(s[0]) {
        trimmed_start(s.drop_first())
    } else {
        s
    }
}

/// `s` without trailing white space.
pub open spec fn trimmed_end(s: Seq<char>) -> Seq<char>
    decreases s.len(),
{
    if s.len() > 0 && whitespace(s.last()) {
        trimmed_end(s.drop_last())
    } else {
        s
    }
}

/// `s` without white space at either end.
pub open spec fn trimmed(s: Seq<char>) -> Seq<char> {
    trimmed_end(trimmed_start(s))
}

/// Removes white space at both ends.
pub fn trim(s: &str) -> (r: String)
    ensures
        r@ == trimmed(s@),
{
    let chars = chars_of(s);
    let mut from: usize = 0;
    assert(chars@.skip(0) =~= chars@);
    while from < chars.len() && is_whitespace(chars[from])
        invariant
            from <= chars@.len(),
            trimmed_start(chars@.skip(from as int)) == trimmed_start(chars@),
        decreases chars@.len() - from,
    {
        assert(chars@.skip(from as int).drop_first() =~= chars@.skip(from + 1));
        from += 1;
    }
    let mut to: usize = chars.len();
    assert(chars@.subrange(from as int, to as int) =~= chars@.skip(from as int));
    while from < to && is_whitespace(chars[to - 1])
        invariant
            from <= to <= chars@.len(),
            trimmed_end(chars@.subrange(from as int, to as int)) == trimmed(chars@),
        decreases to,
    {
        assert(chars@.subrange(from as int, to as int).drop_last() =~= chars@.subrange(
            from as int,
            to - 1,
        ));
        to -= 1;
    }
    string_of(vstd::slice::slice_subrange(chars.as_slice(), from, to))
}

/// Whether a text holds nothing but white space.
pub fn is_blank(s: &str) -> (r: bool)
    ensures
        r == (trimmed(s@).len() == 0),
{
    trim(s).as_str().unicode_len() == 0
}

/// The lower-case form of an ASCII letter; any other character is itself.
pub open spec fn lower_char(c: char) -> char {
    if 'A' <= c && c <= 'Z' {
        ((c as u32 + 32) as u32) as char
    } else {
        c
    }
}

/// `s` with its ASCII letters in lower case.
pub open spec fn lowered(s: Seq<char>) -> Seq<char> {
    s.map_values(|c: char| lower_char(c))
}

/// The lower-case form of an ASCII letter.
pub fn to_lower_char(c: char) -> (r: char)
    ensures
        r == lower_char(c),
{
    if 'A' <= c && c <= 'Z' {
        ((c as u8) + 32) as char
    } else {
        c
    }
}

/// Writes the ASCII letters of `s` in lower case.
pub fn to_lower(s: &str) -> (r: String)
    ensures
        r@ == lowered(s@),
{
    let mut out = String::new();
    for c in it: s.chars()
        invariant
            it.seq() == s@,
            out@ == lowered(s@.take(it.index())),
    {
        out.push(to_lower_char(c));
        assert(lowered(s@.take(it.index() + 1)) =~= lowered(s@.take(it.index())).push(
            lower_char(c),
        ));
    }
    assert(s@.take(s@.len() as int) =~= s@);
    out
}

/// Whether two texts differ at most in the case of ASCII letters.
pub fn same_ignoring_case(a: &str, b: &str) -> (r: bool)
    ensures
        r == (lowered(a@) == lowered(b@)),
{
    let x = to_lower(a);
    let y = to_lower(b);
    same(x.as_str(), y.as_str())
}

/// `s` begins with `prefix`.
pub open spec fn has_prefix(s: Seq<char>, prefix: Seq<char>) -> bool {
    prefix.len() <= s.len() && s.take(prefix.len() as int) == prefix
}

/// `s` ends with `suffix`.
pub open spec fn has_suffix(s: Seq<char>, suffix: Seq<char>) -> bool {
    suffix.len() <= s.len() && s.skip(s.len() - suffix.len()) == suffix
}

/// What follows `prefix` in `s`, if `s` begins with it.
pub open spec fn after_prefix(s: Seq<char>, prefix: Seq<char>) -> Option<Seq<char>> {
    if has_prefix(s, prefix) {
        Some(s.skip(prefix.len() as int))
    } else {
        None
    }
}

/// The characters from position `from` up to `to`.
pub fn substring(s: &str, from: usize, to: usize) -> (r: String)
    requires
        from <= to <= s@.len(),
    ensures
        r@ == s@.subrange(from as int, to as int),
{
    let chars = chars_of(s);
    string_of(vstd::slice::slice_subrange(chars.as_slice(), from, to))
}

/// Returns what follows `prefix`, if `s` begins with it.
pub fn strip_prefix(s: &str, prefix: &str) -> (r: Option<String>)
    ensures
        r.deep_view() == after_prefix(s@, prefix@),
{
    let n: usize = prefix.unicode_len();
    let m: usize = s.unicode_len();
    if m < n {
        return None;
    }
    let head = substring(s, 0, n);
    if same(head.as_str(), prefix) {
        assert(s@.take(n as int) =~= s@.subrange(0, n as int));
        assert(s@.skip(n as int) =~= s@.subrange(n as int, m as int));
        Some(substring(s, n, m))
    } else {
        assert(s@.take(n as int) =~= s@.subrange(0, n as int));
        None
    }
}

/// Whether `s` begins with `prefix`.
pub fn starts_with(s: &str, prefix: &str) -> (r: bool)
    ensures
        r == has_prefix(s@, prefix@),
{
    strip_prefix(s, prefix).is_some()
}

/// Whether `s` ends with `suffix`.
pub fn ends_with(s: &str, suffix: &str) -> (r: bool)
    ensures
        r == has_suffix(s@, suffix@),
{
    let n: usize = suffix.unicode_len();
    let m: usize = s.unicode_len();
    if m < n {
        return false;
    }
    let tail = substring(s, m - n, m);
    assert(s@.skip(m - n) =~= s@.subrange(m - n, m as int));
    same(tail.as_str(), suffix)
}

/// Whether `c` occurs in `s`.
pub fn has_char(s: &str, c: char) -> (r: bool)
    ensures
        r == s@.contains(c),
{
    for d in it: s.chars()
        invariant
            it.seq() == s@,
            forall|i: int| 0 <= i < it.index() ==> s@[i] != c,
    {
        if d == c {
            assert(s@[it.index()] == c);
            return true;
        }
    }
    false
}

/// `s` with every `from` replaced by `to`.
pub open spec fn replaced(s: Seq<char>, from: char, to: char) -> Seq<char> {
    s.map_values(|c: char| if c == from { to } else { c })
}

/// Replaces every `from` in `s` by `to`.
pub fn replace_char(s: &str, from: char, to: char) -> (r: String)
    ensures
        r@ == replaced(s@, from, to),
{
    let mut out = String::new();
    for c in it: s.chars()
        invariant
            it.seq() == s@,
            out@ == replaced(s@.take(it.index()), from, to),
    {
        out.push(if c == from { to } else { c });
        assert(replaced(s@.take(it.index() + 1), from, to) =~= replaced(
            s@.take(it.index()),
            from,
            to,
        ).push(if c == from { to } else { c }));
    }
    assert(s@.take(s@.len() as int) =~= s@);
    out
}

/// `s` without the characters `a` and `b`.
pub open spec fn without(s: Seq<char>, a: char, b: char) -> Seq<char>
    decreases s.len(),
{
    if s.len() == 0 {
        s
    } else if s.last() == a || s.last() == b {
        without(s.drop_last(), a, b)
    } else {
        without(s.drop_last(), a, b).push(s.last())
    }
}

/// Removes the characters `a` and `b` from `s`.
pub fn remove_chars(s: &str, a: char, b: char) -> (r: String)
    ensures
        r@ == without(s@, a, b),
{
    let mut out = String::new();
    assert(s@.take(0) =~= Seq::empty());
    for c in it: s.chars()
        invariant
            it.seq() == s@,
            out@ == without(s@.take(it.index()), a, b),
    {
        assert(s@.take(it.index() + 1).drop_last() =~= s@.take(it.index()));
        if c != a && c != b {
            out.push(c);
        }
    }
    assert(s@.take(s@.len() as int) =~= s@);
    out
}

/// The words of `s`, with one space between them.
pub open spec fn compacted(s: Seq<char>) -> Seq<char>
    decreases s.len(),
{
    if s.len() == 0 {
        s
    } else {
        let rest = compacted(s.drop_last());
        if whitespace(s.last()) {
            rest
        } else if rest.len() > 0 && whitespace(s[s.len() - 2]) {
            rest.push(' ').push(s.last())
        } else {
            rest.push(s.last())
        }
    }
}

/// Joins the words of `s` with one space between them.
pub fn compact(s: &str) -> (r: String)
    ensures
        r@ == compacted(s@),
{
    let mut out: Vec<char> = Vec::new();
    let mut after_space = false;
    assert(s@.take(0) =~= Seq::empty());
    for c in it: s.chars()
        invariant
            it.seq() == s@,
            out@ == compacted(s@.take(it.index())),
            out@.len() > 0 ==> it.index() > 0,
            it.index() > 0 ==> after_space == whitespace(s@[it.index() - 1]),
    {
        assert(s@.take(it.index() + 1).drop_last() =~= s@.take(it.index()));
        if is_whitespace(c) {
            after_space = true;
        } else {
            if out.len() > 0 && after_space {
                out.push(' ');
            }
            out.push(c);
            after_space = false;
        }
    }
    assert(s@.take(s@.len() as int) =~= s@);
    string_of(out.as_slice())
}

/// The first `n` characters of `s`, or all of them where there are fewer.
pub open spec fn first_chars(s: Seq<char>, n: nat) -> Seq<char> {
    if s.len() <= n {
        s
    } else {
        s.take(n as int)
    }
}

/// The first `n` characters of `s`, or all of them where there are fewer.
pub fn take_chars(s: &str, n: usize) -> (r: String)
    ensures
        r@ == first_chars(s@, n as nat),
{
    if s.unicode_len() <= n {
        s.to_owned()
    } else {
        assert(s@.take(n as int) =~= s@.subrange(0, n as int));
        substring(s, 0, n)
    }
}

/// The characters that separate the parts of a path.
pub open spec fn separator(c: char) -> bool {
    c == '\\' || c == '/'
}

/// The position of the last separator of `s`, or -1.
pub open spec fn last_separator(s: Seq<char>) -> int
    decreases s.len(),
{
    if s.len() == 0 {
        -1
    } else if separator(s.last()) {
        s.len() - 1
    } else {
        last_separator(s.drop_last())
    }
}

/// `s` without separators at its end.
pub open spec fn without_end_separators(s: Seq<char>) -> Seq<char>
    decreases s.len(),
{
    if s.len() > 0 && separator(s.last()) {
        without_end_separators(s.drop_last())
    } else {
        s
    }
}

proof fn lemma_last_separator(s: Seq<char>)
    ensures
        -1 <= last_separator(s) < s.len(),
        last_separator(s) >= 0 ==> separator(s[last_separator(s)]),
        forall|i: int| last_separator(s) < i < s.len() ==> !separator(#[trigger] s[i]),
    decreases s.len(),
{
    if s.len() > 0 && !separator(s.last()) {
        lemma_last_separator(s.drop_last());
        assert forall|i: int|
            last_separator(s) < i < s.len() implies
            !separator(#[trigger] s[i]) by {
            if i < s.len() - 1 {
                assert(s.drop_last()[i] == s[i]);
            }
        }
    }
}

/// The last part of a path that is not blank.
pub open spec fn last_part(s: Seq<char>) -> Option<Seq<char>>
    decreases s.len(),
    via last_part_shrinks
{
    let at = last_separator(s);
    let part = s.skip(at + 1);
    if trimmed(part).len() > 0 {
        Some(part)
    } else if at < 0 {
        None
    } else {
        last_part(s.take(at))
    }
}

#[via_fn]
proof fn last_part_shrinks(s: Seq<char>) {
    lemma_last_separator(s);
}

fn last_separator_position(chars: &[char], end: usize) -> (r: Option<usize>)
    requires
        end <= chars@.len(),
    ensures
        match r {
            Some(at) => at < end && last_separator(chars@.take(end as int)) == at,
            None => last_separator(chars@.take(end as int)) == -1,
        },
{
    let mut i: usize = end;
    while i > 0
        invariant
            i <= end <= chars@.len(),
            last_separator(chars@.take(end as int)) == last_separator(chars@.take(i as int)),
        decreases i,
    {
        assert(chars@.take(i as int).last() == chars@[i - 1]);
        assert(chars@.take(i as int).drop_last() =~= chars@.take(i - 1));
        if chars[i - 1] == '\\' || chars[i - 1] == '/' {
            return Some(i - 1);
        }
        i -= 1;
    }
    None
}

/// Finds the last part of a path that is not blank.
pub fn find_last_part(s: &str) -> (r: Option<String>)
    ensures
        r.deep_view() == last_part(s@),
{
    let chars = chars_of(s);
    let mut end: usize = chars.len();
    assert(chars@.take(end as int) =~= chars@);
    loop
        invariant
            end <= chars@.len(),
            last_part(chars@) == last_part(chars@.take(end as int)),
            chars@ == s@,
        decreases end,
    {
        let ghost whole = chars@.take(end as int);
        let found = last_separator_position(chars.as_slice(), end);
        let from: usize = match found {
            Some(at) => at + 1,
            None => 0,
        };
        assert(whole.skip(from as int) =~= chars@.subrange(from as int, end as int));
        let part = string_of(vstd::slice::slice_subrange(chars.as_slice(), from, end));
        if !is_blank(part.as_str()) {
            return Some(part);
        }
        match found {
            Some(at) => {
                assert(whole.take(at as int) =~= chars@.take(at as int));
                end = at;
            },
            None => {
                return None;
            },
        }
    }
}

/// Removes the separators at the end of `s`.
pub fn trim_end_separators(s: &str) -> (r: String)
    ensures
        r@ == without_end_separators(s@),
{
    let chars = chars_of(s);
    let mut end: usize = chars.len();
    assert(chars@.take(end as int) =~= chars@);
    while end > 0 && (chars[end - 1] == '\\' || chars[end - 1] == '/')
        invariant
            end <= chars@.len(),
            without_end_separators(chars@.take(end as int)) == without_end_separators(chars@),
        decreases end,
    {
        assert(chars@.take(end as int).drop_last() =~= chars@.take(end - 1));
        end -= 1;
    }
    assert(chars@.take(end as int) =~= chars@.subrange(0, end as int));
    string_of(vstd::slice::slice_subrange(chars.as_slice(), 0, end))
}

/// `word` stands in `s` at a position.
pub open spec fn stands_at(s: Seq<char>, word: Seq<char>, at: int) -> bool {
    0 <= at && at + word.len() <= s.len() && s.subrange(at, at + word.len()) == word
}

/// `word` stands somewhere in `s`.
pub open spec fn holds_text(s: Seq<char>, word: Seq<char>) -> bool {
    exists|at: int| #[trigger] stands_at(s, word, at)
}

/// Whether `word` stands somewhere in `s`.
pub fn has_text(s: &str, word: &str) -> (r: bool)
    ensures
        r == holds_text(s@, word@),
{
    let chars = chars_of(s);
    let letters = chars_of(word);
    if letters.len() > chars.len() {
        return false;
    }
    let last: usize = chars.len() - letters.len();
    let mut at: usize = 0;
    while at <= last
        invariant
            chars@ == s@,
            letters@ == word@,
            last == s@.len() - word@.len(),
            at <= last + 1,
            last < usize::MAX || at <= last,
            forall|k: int| 0 <= k < at ==> !stands_at(s@, word@, k),
        decreases last + 1 - at,
    {
        let mut i: usize = 0;
        while i < letters.len() && chars[at + i] == letters[i]
            invariant
                chars@ == s@,
                letters@ == word@,
                i <= letters@.len(),
                at + letters.len() <= chars.len(),
                forall|k: int| 0 <= k < i ==> chars@[at + k] == letters@[k],
            decreases letters@.len() - i,
        {
            i += 1;
        }
        if i == letters.len() {
            assert(s@.subrange(at as int, at + word@.len()) =~= word@);
            assert(stands_at(s@, word@, at as int));
            return true;
        }
        proof {
            if stands_at(s@, word@, at as int) {
                assert(s@.subrange(at as int, at + word@.len())[i as int] == word@[i as int]);
            }
        }
        if at == last {
            assert forall|k: int| !stands_at(s@, word@, k) by {
                if 0 <= k && k + word@.len() <= s@.len() {
                    assert(k <= last);
                }
            }
            return false;
        }
        at += 1;
    }
    false
}

/// The position of the last separator of `s`.
pub fn find_last_separator(s: &str) -> (r: Option<usize>)
    ensures
        match r {
            Some(at) => at < s@.len() && last_separator(s@) == at,
            None => last_separator(s@) == -1,
        },
{
    let chars = chars_of(s);
    let mut i: usize = chars.len();
    assert(chars@.take(i as int) =~= s@);
    while i > 0
        invariant
            i <= chars@.len() == s@.len(),
            last_separator(s@) == last_separator(chars@.take(i as int)),
        decreases i,
    {
        let ghost part = chars@.take(i as int);
        assert(part.drop_last() =~= chars@.take(i - 1));
        if chars[i - 1] == '\\' || chars[i - 1] == '/' {
            return Some(i - 1);
        }
        i -= 1;
    }
    None
}

/// The number that decimal digits stand for.
pub open spec fn digits_value(s: Seq<char>) -> nat
    decreases s.len(),
{
    if s.len() == 0 {
        0
    } else {
        digits_value(s.drop_last()) * 10 + (s.last() as int - '0' as int) as nat
    }
}

/// Only decimal digits, and at least one.
pub open spec fn is_number(s: Seq<char>) -> bool {
    s.len() > 0 && forall|i: int| 0 <= i < s.len() ==> '0' <= #[trigger] s[i] <= '9'
}

/// The digits of a number, which may have a plus sign in front.
pub open spec fn unsigned_digits(s: Seq<char>) -> Seq<char> {
    if s.len() > 0 && s[0] == '+' {
        s.skip(1)
    } else {
        s
    }
}

/// The number that a text stands for, if it is one that fits.
pub open spec fn parsed_number(s: Seq<char>) -> Option<u64> {
    let digits = unsigned_digits(s);
    if is_number(digits) && digits_value(digits) <= u64::MAX {
        Some(digits_value(digits) as u64)
    } else {
        None
    }
}

proof fn lemma_digits_grow(s: Seq<char>, n: int)
    requires
        0 <= n <= s.len(),
    ensures
        digits_value(s.take(n)) <= digits_value(s),
    decreases s.len(),
{
    if n == s.len() {
        assert(s.take(n) =~= s);
    } else {
        lemma_digits_grow(s.drop_last(), n);
        assert(s.drop_last().take(n) =~= s.take(n));
    }
}

/// Reads a number.
pub fn parse_number(s: &str) -> (r: Option<u64>)
    ensures
        r == parsed_number(s@),
{
    let chars = chars_of(s);
    let from: usize = if chars.len() > 0 && chars[0] == '+' {
        1
    } else {
        0
    };
    let ghost digits = unsigned_digits(s@);
    assert(digits =~= s@.skip(from as int));
    if chars.len() == from {
        return None;
    }
    let mut value: u64 = 0;
    let mut i: usize = from;
    assert(digits.take(0).len() == 0);
    while i < chars.len()
        invariant
            from <= i <= chars@.len(),
            chars@ == s@,
            digits == s@.skip(from as int),
            digits == unsigned_digits(s@),
            value == digits_value(digits.take(i - from)),
            forall|j: int| 0 <= j < i - from ==> '0' <= #[trigger] digits[j] <= '9',
        decreases chars@.len() - i,
    {
        let c = chars[i];
        assert(digits[i - from] == c);
        if !('0' <= c && c <= '9') {
            return None;
        }
        let digit: u64 = (c as u8 - 48) as u64;
        proof {
            let longer = digits.take(i - from + 1);
            assert(longer.drop_last() =~= digits.take(i - from));
            assert(longer.last() == c);
            assert(digits_value(longer) == value * 10 + digit);
            lemma_digits_grow(digits, i - from + 1);
        }
        if value > 1844674407370955161 || (value == 1844674407370955161 && digit > 5) {
            return None;
        }
        value = value * 10 + digit;
        i += 1;
    }
    assert(digits.take(i - from) =~= digits);
    Some(value)
}

/// A number in decimal notation reads as that number.
pub proof fn law_number_round_trip(value: u64)
    ensures
        parsed_number(decimal_text(value as nat)) == Some(value),
{
    lemma_decimal_value(value as nat);
    let written = decimal_text(value as nat);
    assert(written[0] != '+');
    assert(unsigned_digits(written) == written);
}

proof fn lemma_decimal_value(value: nat)
    ensures
        is_number(decimal_text(value)),
        digits_value(decimal_text(value)) == value,
    decreases value,
{
    let written = decimal_text(value);
    if value < 10 {
        assert(digits_value(written.drop_last()) == 0);
        assert(written.last() as int == value + 48);
    } else {
        lemma_decimal_value(value / 10);
        assert(written.drop_last() =~= decimal_text(value / 10));
        assert(written.last() as int == value % 10 + 48);
        assert(digits_value(written) == (value / 10) * 10 + value % 10);
    }
}

proof fn lemma_trimmed_start(s: Seq<char>) -> (cut: int)
    ensures
        0 <= cut <= s.len(),
        trimmed_start(s) == s.skip(cut),
        forall|i: int| 0 <= i < cut ==> whitespace(#[trigger] s[i]),
        cut < s.len() ==> !whitespace(s[cut]),
    decreases s.len(),
{
    if s.len() > 0 && whitespace(s[0]) {
        let rest = s.drop_first();
        let cut = lemma_trimmed_start(rest);
        assert(rest.skip(cut) =~= s.skip(cut + 1));
        assert forall|i: int| 0 <= i < cut + 1 implies whitespace(#[trigger] s[i]) by {
            if i > 0 {
                assert(rest[i - 1] == s[i]);
            }
        }
        cut + 1
    } else {
        assert(s.skip(0) =~= s);
        0
    }
}

proof fn lemma_trimmed_end(s: Seq<char>) -> (end: int)
    ensures
        0 <= end <= s.len(),
        trimmed_end(s) == s.take(end),
        forall|i: int| end <= i < s.len() ==> whitespace(#[trigger] s[i]),
        end > 0 ==> !whitespace(s[end - 1]),
    decreases s.len(),
{
    if s.len() > 0 && whitespace(s.last()) {
        let rest = s.drop_last();
        let end = lemma_trimmed_end(rest);
        assert(rest.take(end) =~= s.take(end));
        assert forall|i: int| end <= i < s.len() implies whitespace(#[trigger] s[i]) by {
            if i < rest.len() {
                assert(rest[i] == s[i]);
            }
        }
        end
    } else {
        assert(s.take(s.len() as int) =~= s);
        s.len() as int
    }
}

/// Trimming takes away white space at both ends and nothing else: what is left neither begins nor
/// ends with white space, and stands in the text with nothing but white space around it.
pub proof fn law_trimming_takes_white_space_at_the_ends(s: Seq<char>) -> (cut: int)
    ensures
        0 <= cut,
        cut + trimmed(s).len() <= s.len(),
        trimmed(s) == s.subrange(cut, cut + trimmed(s).len()),
        forall|i: int| 0 <= i < cut ==> whitespace(#[trigger] s[i]),
        forall|i: int| cut + trimmed(s).len() <= i < s.len() ==> whitespace(#[trigger] s[i]),
        trimmed(s).len() > 0 ==> !whitespace(trimmed(s)[0]) && !whitespace(trimmed(s).last()),
        trimmed(s).len() == 0 <==> forall|i: int| 0 <= i < s.len() ==> whitespace(#[trigger] s[i]),
{
    let cut = lemma_trimmed_start(s);
    let rest = s.skip(cut);
    let end = lemma_trimmed_end(rest);
    assert(rest.take(end) =~= s.subrange(cut, cut + end));
    assert forall|i: int| cut + end <= i < s.len() implies whitespace(#[trigger] s[i]) by {
        assert(rest[i - cut] == s[i]);
    }
    if end > 0 {
        assert(rest[0] == s[cut]);
        assert(rest[end - 1] == s[cut + end - 1]);
    } else {
        assert forall|i: int| 0 <= i < s.len() implies whitespace(#[trigger] s[i]) by {
            if i >= cut {
                assert(rest[i - cut] == s[i]);
            }
        }
    }
    cut
}

/// White space is what Unicode calls so; control characters are the first thirty-two and those from
/// 7F to 9F; only the letters from A to Z have another lower-case form, thirty-two places on.
pub proof fn law_characters(c: char)
    ensures
        whitespace(c) <==> (c as u32 == 9 || c as u32 == 10 || c as u32 == 11 || c as u32 == 12
            || c as u32 == 13 || c as u32 == 32 || c as u32 == 133 || c as u32 == 160 || c as u32
            == 5760 || (8192 <= c as u32 <= 8202) || c as u32 == 8232 || c as u32 == 8233
            || c as u32 == 8239 || c as u32 == 8287 || c as u32 == 12288),
        control(c) <==> (c as u32) < 32 || 127 <= (c as u32) <= 159,
        'A' <= c <= 'Z' ==> lower_char(c) as u32 == c as u32 + 32,
        !('A' <= c <= 'Z') ==> lower_char(c) == c,
        !('A' <= lower_char(c) <= 'Z'),
        separator(c) <==> c == '/' || c == '\\',
{
}

/// Lower case keeps the length, changes letters one by one, and is lower case already when done
/// twice.
pub proof fn law_lower_case(s: Seq<char>)
    ensures
        lowered(s).len() == s.len(),
        forall|i: int| 0 <= i < s.len() ==> #[trigger] lowered(s)[i] == lower_char(s[i]),
        lowered(lowered(s)) == lowered(s),
{
    assert forall|i: int| 0 <= i < s.len() implies lowered(lowered(s))[i] == lowered(s)[i] by {
        law_characters(s[i]);
        law_characters(lower_char(s[i]));
    }
    assert(lowered(lowered(s)) =~= lowered(s));
}

/// Taking two characters out of a text leaves every other one, in order, and none of the two.
pub proof fn law_characters_are_taken_out(s: Seq<char>, a: char, b: char, c: char)
    ensures
        !without(s, a, b).contains(a),
        !without(s, a, b).contains(b),
        c != a && c != b ==> (without(s, a, b).contains(c) <==> s.contains(c)),
        !s.contains(a) && !s.contains(b) ==> without(s, a, b) == s,
        without(s, a, b).len() <= s.len(),
    decreases s.len(),
{
    broadcast use vstd::seq_lib::group_seq_properties;

    if s.len() > 0 {
        let front = s.drop_last();
        law_characters_are_taken_out(front, a, b, c);
        assert(s =~= front.push(s.last()));
        if !s.contains(a) && !s.contains(b) {
            assert(s.contains(s[s.len() - 1]));
            assert(!front.contains(a) && !front.contains(b)) by {
                if front.contains(a) {
                    let k = choose|k: int| 0 <= k < front.len() && front[k] == a;
                    assert(s[k] == a);
                }
                if front.contains(b) {
                    let k = choose|k: int| 0 <= k < front.len() && front[k] == b;
                    assert(s[k] == b);
                }
            }
            assert(without(s, a, b) =~= s);
        }
    }
}

/// Compacting leaves words with one space between them: no white space but spaces, none at the ends,
/// and no two in a row.
pub proof fn law_compacting_leaves_single_spaces(s: Seq<char>)
    ensures
        ({
            let words = compacted(s);
            &&& words.len() > 0 ==> !whitespace(words[0]) && !whitespace(words.last())
            &&& forall|i: int|
                0 <= i < words.len() && whitespace(#[trigger] words[i]) ==> words[i] == ' ' && i + 1
                    < words.len() && !whitespace(words[i + 1])
            &&& words.len() == 0 <==> forall|i: int|
                0 <= i < s.len() ==> whitespace(#[trigger] s[i])
            &&& words.len() <= s.len()
        }),
    decreases s.len(),
{
    if s.len() > 0 {
        let front = s.drop_last();
        law_compacting_leaves_single_spaces(front);
        let rest = compacted(front);
        let words = compacted(s);
        assert(whitespace(' '));
        if whitespace(s.last()) {
            if words.len() == 0 {
                assert forall|i: int| 0 <= i < s.len() implies whitespace(#[trigger] s[i]) by {
                    if i < front.len() {
                        assert(front[i] == s[i]);
                    }
                }
            } else if forall|i: int| 0 <= i < s.len() ==> whitespace(#[trigger] s[i]) {
                assert forall|i: int| 0 <= i < front.len() implies whitespace(
                    #[trigger] front[i],
                ) by {
                    assert(s[i] == front[i]);
                }
            }
        } else {
            assert(!whitespace(s[s.len() - 1]));
            if rest.len() > 0 && whitespace(s[s.len() - 2]) {
                lemma_compacted_is_shorter(front);
            }
        }
    }
}

proof fn lemma_compacted_is_shorter(s: Seq<char>)
    requires
        s.len() > 0,
        whitespace(s.last()),
    ensures
        compacted(s).len() < s.len(),
{
    lemma_compacting_shortens(s.drop_last());
}

proof fn lemma_compacting_shortens(s: Seq<char>)
    ensures
        compacted(s).len() <= s.len(),
    decreases s.len(),
{
    if s.len() > 0 {
        let front = s.drop_last();
        lemma_compacting_shortens(front);
        if front.len() > 0 && whitespace(front.last()) {
            lemma_compacting_shortens(front.drop_last());
        }
    }
}

/// The last part of a path that is not blank has no separator in it, and only separators and blanks
/// come after it.
pub proof fn law_last_part_names_something(s: Seq<char>)
    ensures
        last_part(s) is Some ==> trimmed(last_part(s)->0).len() > 0 && (forall|i: int|
            0 <= i < last_part(s)->0.len() ==> !separator(#[trigger] last_part(s)->0[i])),
    decreases s.len(),
{
    lemma_last_separator(s);
    let at = last_separator(s);
    let part = s.skip(at + 1);
    if trimmed(part).len() > 0 {
        lemma_no_separator_after(s);
        assert forall|i: int| 0 <= i < part.len() implies !separator(#[trigger] part[i]) by {
            assert(s[at + 1 + i] == part[i]);
        }
    } else if at >= 0 {
        law_last_part_names_something(s.take(at));
    }
}

proof fn lemma_no_separator_after(s: Seq<char>)
    ensures
        -1 <= last_separator(s) < s.len(),
        forall|i: int| last_separator(s) < i < s.len() ==> !separator(#[trigger] s[i]),
        last_separator(s) >= 0 ==> separator(s[last_separator(s)]),
    decreases s.len(),
{
    if s.len() > 0 && !separator(s.last()) {
        let front = s.drop_last();
        lemma_no_separator_after(front);
        assert forall|i: int| last_separator(s) < i < s.len() implies !separator(
            #[trigger] s[i],
        ) by {
            if i < front.len() {
                assert(front[i] == s[i]);
            }
        }
        if last_separator(front) >= 0 {
            assert(front[last_separator(front)] == s[last_separator(front)]);
        }
    }
}

} // verus!
