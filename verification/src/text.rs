//! Text as sequences of characters: the string operations the rest of the crate is stated with.
use vstd::prelude::*;
use vstd::string::*;
use vstd::utf8::*;

verus! {

/// `String::push` appends one character.
pub assume_specification[ String::push ](s: &mut String, c: char)
    ensures
        final(s)@ == old(s)@.push(c),
;

/// The characters of the Unicode property `White_Space`.
pub open spec fn white_space(c: char) -> bool {
    ||| '\u{9}' <= c <= '\u{d}'
    ||| c == ' '
    ||| c == '\u{85}'
    ||| c == '\u{a0}'
    ||| c == '\u{1680}'
    ||| '\u{2000}' <= c <= '\u{200a}'
    ||| c == '\u{2028}'
    ||| c == '\u{2029}'
    ||| c == '\u{202f}'
    ||| c == '\u{205f}'
    ||| c == '\u{3000}'
}

/// Whether `c` is white space.
pub fn is_whitespace(c: char) -> (r: bool)
    ensures
        r == white_space(c),
{
    ('\u{9}' <= c && c <= '\u{d}') || c == ' ' || c == '\u{85}' || c == '\u{a0}' || c == '\u{1680}'
        || ('\u{2000}' <= c && c <= '\u{200a}') || c == '\u{2028}' || c == '\u{2029}' || c
        == '\u{202f}' || c == '\u{205f}' || c == '\u{3000}'
}

/// `s` without its leading white space.
pub open spec fn trimmed_start(s: Seq<char>) -> Seq<char>
    decreases s.len(),
{
    if s.len() > 0 && white_space(s[0]) {
        trimmed_start(s.subrange(1, s.len() as int))
    } else {
        s
    }
}

/// `s` without its trailing white space.
pub open spec fn trimmed_end(s: Seq<char>) -> Seq<char>
    decreases s.len(),
{
    if s.len() > 0 && white_space(s.last()) {
        trimmed_end(s.drop_last())
    } else {
        s
    }
}

/// `s` without its leading and trailing white space.
pub open spec fn trimmed(s: Seq<char>) -> Seq<char> {
    trimmed_end(trimmed_start(s))
}

/// Whether `s` begins with `prefix`.
pub open spec fn starts_with(s: Seq<char>, prefix: Seq<char>) -> bool {
    prefix.len() <= s.len() && s.subrange(0, prefix.len() as int) == prefix
}

/// Whether `s` ends with `suffix`.
pub open spec fn ends_with(s: Seq<char>, suffix: Seq<char>) -> bool {
    suffix.len() <= s.len() && s.subrange(s.len() - suffix.len(), s.len() as int) == suffix
}

/// Whether `part` stands in `s` at index `at`.
pub open spec fn occurs_at(s: Seq<char>, part: Seq<char>, at: int) -> bool {
    0 <= at && at + part.len() <= s.len() && s.subrange(at, at + part.len()) == part
}

/// The first index from `from` on at which `part` stands in `s`.
pub open spec fn find_from(s: Seq<char>, part: Seq<char>, from: int) -> Option<int>
    decreases s.len() + 1 - from,
{
    if from < 0 || from + part.len() > s.len() {
        None
    } else if occurs_at(s, part, from) {
        Some(from)
    } else {
        find_from(s, part, from + 1)
    }
}

/// The last index up to `from` at which `part` stands in `s`.
pub open spec fn rfind_from(s: Seq<char>, part: Seq<char>, from: int) -> Option<int>
    decreases from + 1,
{
    if from < 0 {
        None
    } else if occurs_at(s, part, from) {
        Some(from)
    } else {
        rfind_from(s, part, from - 1)
    }
}

/// Whether `part` stands somewhere in `s`.
pub open spec fn contains_text(s: Seq<char>, part: Seq<char>) -> bool {
    exists|at: int| occurs_at(s, part, at)
}

/// The pieces of `s` between its separators: one more than it holds separators.
pub open spec fn split(s: Seq<char>, separator: char) -> Seq<Seq<char>>
    decreases s.len(),
{
    if s.len() == 0 {
        seq![Seq::<char>::empty()]
    } else {
        let init = split(s.drop_last(), separator);
        if s.last() == separator {
            init.push(Seq::<char>::empty())
        } else {
            init.drop_last().push(init.last().push(s.last()))
        }
    }
}

/// `line` without one carriage return at its end.
pub open spec fn without_cr(line: Seq<char>) -> Seq<char> {
    if line.len() > 0 && line.last() == '\r' {
        line.drop_last()
    } else {
        line
    }
}

/// The lines of `s`: the pieces that a line feed ends, each without one carriage return before
/// that line feed, and what stands behind the last line feed, if anything does.
pub open spec fn lines_of(s: Seq<char>) -> Seq<Seq<char>> {
    let parts = split(s, '\n');
    let ended = parts.drop_last().map_values(|line: Seq<char>| without_cr(line));
    if parts.last().len() == 0 {
        ended
    } else {
        ended.push(parts.last())
    }
}

/// `parts` one after the other, with `separator` between each two.
pub open spec fn joined(parts: Seq<Seq<char>>, separator: Seq<char>) -> Seq<char>
    decreases parts.len(),
{
    if parts.len() == 0 {
        Seq::empty()
    } else if parts.len() == 1 {
        parts[0]
    } else {
        joined(parts.drop_last(), separator) + separator + parts.last()
    }
}

/// The decimal digits of `n`.
pub open spec fn decimal(n: nat) -> Seq<char>
    decreases n,
{
    if n < 10 {
        seq![(('0' as u32) + n) as char]
    } else {
        decimal(n / 10).push((('0' as u32) + n % 10) as char)
    }
}

/// The number of bytes of `s` in UTF-8.
pub open spec fn utf8_len(s: Seq<char>) -> nat {
    encode_utf8(s).len()
}

/// `c` in lower case if it is an ASCII letter.
pub open spec fn ascii_lower(c: char) -> char {
    if 'A' <= c <= 'Z' {
        ((c as u32) + 32) as char
    } else {
        c
    }
}

/// `s` with its ASCII letters in lower case.
pub open spec fn ascii_lowered(s: Seq<char>) -> Seq<char> {
    s.map_values(|c: char| ascii_lower(c))
}

/// The characters of `s`.
pub fn chars_of(s: &str) -> (r: Vec<char>)
    ensures
        r@ == s@,
{
    let mut out: Vec<char> = Vec::new();
    for c in iter: s.chars()
        invariant
            out@ == iter.seq().take(iter.index()),
            iter.seq() == s@,
    {
        out.push(c);
    }
    out
}

/// The characters of `chars` from `from` up to `to`, as a string.
pub fn string_range(chars: &Vec<char>, from: usize, to: usize) -> (r: String)
    requires
        from <= to <= chars@.len(),
    ensures
        r@ == chars@.subrange(from as int, to as int),
{
    let mut out = String::new();
    let mut i: usize = from;
    while i < to
        invariant
            from <= i <= to <= chars@.len(),
            out@ == chars@.subrange(from as int, i as int),
        decreases to - i,
    {
        out.push(chars[i]);
        i += 1;
    }
    out
}

/// The number of bytes of `s`.
pub fn byte_len(s: &str) -> (r: usize)
    ensures
        r == utf8_len(s@),
{
    s.as_bytes().len()
}

/// The encoding of two texts one behind the other.
pub proof fn lemma_encode_append(a: Seq<char>, b: Seq<char>)
    ensures
        encode_utf8(a + b) == encode_utf8(a) + encode_utf8(b),
    decreases a.len(),
{
    if a.len() == 0 {
        assert(a + b =~= b);
        assert(encode_utf8(a) + encode_utf8(b) =~= encode_utf8(b));
    } else {
        let rest = a.drop_first();
        lemma_encode_append(rest, b);
        assert((a + b).drop_first() =~= rest + b);
        let first = encode_scalar(a[0] as u32);
        assert(first + (encode_utf8(rest) + encode_utf8(b)) =~= (first + encode_utf8(rest))
            + encode_utf8(b));
    }
}

/// Each character has at least one byte and at most four.
pub proof fn lemma_utf8_len(s: Seq<char>)
    ensures
        s.len() <= utf8_len(s) <= 4 * s.len(),
    decreases s.len(),
{
    if s.len() > 0 {
        lemma_utf8_len(s.drop_first());
    }
}

/// The end of a text is a character boundary of every longer text that begins with it.
pub proof fn lemma_boundary(a: Seq<char>, b: Seq<char>)
    ensures
        is_char_boundary(encode_utf8(a + b), utf8_len(a) as int),
    decreases a.len(),
{
    encode_utf8_valid_utf8(a + b);
    lemma_encode_append(a, b);
    if a.len() > 0 {
        let all = a + b;
        let rest = a.drop_first();
        assert(all.drop_first() =~= rest + b);
        lemma_boundary(rest, b);
        encode_utf8_valid_utf8(rest + b);
        encode_utf8_first_scalar(all);
        let bytes = encode_utf8(all);
        let first = encode_scalar(a[0] as u32);
        assert(all[0] == a[0]);
        assert(bytes =~= first + encode_utf8(rest + b));
        assert(pop_first_scalar(bytes) =~= encode_utf8(rest + b));
    }
}

/// What stands before and behind a character boundary.
pub proof fn lemma_parts_at(s: Seq<char>, at: int)
    requires
        is_char_boundary(encode_utf8(s), at),
    ensures
        0 <= at <= utf8_len(s),
        s == before_byte(s, at) + after_byte(s, at),
        utf8_len(before_byte(s, at)) == at,
        encode_utf8(before_byte(s, at)) == encode_utf8(s).subrange(0, at),
        encode_utf8(after_byte(s, at)) == encode_utf8(s).subrange(at, utf8_len(s) as int),
{
    let bytes = encode_utf8(s);
    encode_utf8_valid_utf8(s);
    encode_utf8_decode_utf8(s);
    lemma_boundary_in_range(bytes, at);
    valid_utf8_split(bytes, at);
    decode_utf8_split(bytes, at);
    decode_utf8_encode_utf8(bytes.subrange(0, at));
    decode_utf8_encode_utf8(bytes.subrange(at, bytes.len() as int));
}

proof fn lemma_boundary_in_range(bytes: Seq<u8>, at: int)
    requires
        valid_utf8(bytes),
        is_char_boundary(bytes, at),
    ensures
        0 <= at <= bytes.len(),
{
}

/// The parts of `a + b` at the end of `a`.
pub proof fn lemma_parts_of_sum(a: Seq<char>, b: Seq<char>)
    ensures
        is_char_boundary(encode_utf8(a + b), utf8_len(a) as int),
        before_byte(a + b, utf8_len(a) as int) == a,
        after_byte(a + b, utf8_len(a) as int) == b,
{
    lemma_boundary(a, b);
    lemma_encode_append(a, b);
    let at = utf8_len(a) as int;
    let bytes = encode_utf8(a + b);
    assert(bytes.subrange(0, at) =~= encode_utf8(a));
    assert(bytes.subrange(at, bytes.len() as int) =~= encode_utf8(b));
    encode_utf8_decode_utf8(a);
    encode_utf8_decode_utf8(b);
}

/// The text before the byte index `at`.
pub open spec fn before_byte(s: Seq<char>, at: int) -> Seq<char> {
    decode_utf8(encode_utf8(s).subrange(0, at))
}

/// The text from the byte index `at` on.
pub open spec fn after_byte(s: Seq<char>, at: int) -> Seq<char> {
    decode_utf8(encode_utf8(s).subrange(at, utf8_len(s) as int))
}

/// The two parts of a text at a character boundary.
pub fn split_at_byte(s: &str, at: usize) -> (r: (String, String))
    requires
        is_char_boundary(encode_utf8(s@), at as int),
    ensures
        r.0@ == before_byte(s@, at as int),
        r.1@ == after_byte(s@, at as int),
{
    proof {
        lemma_parts_at(s@, at as int);
    }
    let (before, after) = s.split_at(at);
    proof {
        encode_utf8_decode_utf8(before@);
        encode_utf8_decode_utf8(after@);
    }
    (before.to_owned(), after.to_owned())
}

/// The number of characters of `s`.
pub fn char_count(s: &str) -> (r: usize)
    ensures
        r == s@.len(),
{
    s.unicode_len()
}

/// Whether two lists of bytes are the same.
pub fn bytes_eq(a: &[u8], b: &[u8]) -> (r: bool)
    ensures
        r == (a@ == b@),
{
    if a.len() != b.len() {
        return false;
    }
    let mut i: usize = 0;
    while i < a.len()
        invariant
            i <= a@.len() == b@.len(),
            forall|j: int| 0 <= j < i ==> a@[j] == b@[j],
        decreases a@.len() - i,
    {
        if a[i] != b[i] {
            return false;
        }
        i += 1;
    }
    assert(a@ =~= b@);
    true
}

/// Whether two strings hold the same characters.
pub fn str_eq(a: &str, b: &str) -> (r: bool)
    ensures
        r == (a@ == b@),
{
    let r = bytes_eq(a.as_bytes(), b.as_bytes());
    proof {
        encode_utf8_decode_utf8(a@);
        encode_utf8_decode_utf8(b@);
    }
    r
}

/// The characters of `s` from `from` up to `to`.
pub fn substring(s: &str, from: usize, to: usize) -> (r: String)
    requires
        from <= to <= s@.len(),
    ensures
        r@ == s@.subrange(from as int, to as int),
{
    s.substring_char(from, to).to_owned()
}

/// `a` followed by `b`.
pub fn cat(a: &str, b: &str) -> (r: String)
    ensures
        r@ == a@ + b@,
{
    let mut out = a.to_owned();
    out.append(b);
    out
}

proof fn lemma_trimmed_start_at(s: Seq<char>, i: int)
    requires
        0 <= i <= s.len(),
        forall|j: int| 0 <= j < i ==> white_space(s[j]),
        i < s.len() ==> !white_space(s[i]),
    ensures
        trimmed_start(s) == s.subrange(i, s.len() as int),
    decreases i,
{
    if i > 0 {
        let rest = s.subrange(1, s.len() as int);
        lemma_trimmed_start_at(rest, i - 1);
        assert(rest.subrange(i - 1, rest.len() as int) =~= s.subrange(i, s.len() as int));
    } else {
        assert(s.subrange(0, s.len() as int) =~= s);
    }
}

proof fn lemma_trimmed_end_at(s: Seq<char>, i: int)
    requires
        0 <= i <= s.len(),
        forall|j: int| i <= j < s.len() ==> white_space(s[j]),
        i > 0 ==> !white_space(s[i - 1]),
    ensures
        trimmed_end(s) == s.subrange(0, i),
    decreases s.len(),
{
    if i < s.len() {
        lemma_trimmed_end_at(s.drop_last(), i);
        assert(s.drop_last().subrange(0, i) =~= s.subrange(0, i));
    } else {
        assert(s.subrange(0, i) =~= s);
    }
}

/// `s` without its leading white space.
pub fn trim_start(s: &str) -> (r: String)
    ensures
        r@ == trimmed_start(s@),
{
    let chars = chars_of(s);
    let mut i: usize = 0;
    while i < chars.len() && is_whitespace(chars[i])
        invariant
            i <= chars@.len(),
            forall|j: int| 0 <= j < i ==> white_space(chars@[j]),
        decreases chars@.len() - i,
    {
        i += 1;
    }
    proof {
        lemma_trimmed_start_at(s@, i as int);
    }
    string_range(&chars, i, chars.len())
}

/// `s` without its trailing white space.
pub fn trim_end(s: &str) -> (r: String)
    ensures
        r@ == trimmed_end(s@),
{
    let chars = chars_of(s);
    let mut i: usize = chars.len();
    while i > 0 && is_whitespace(chars[i - 1])
        invariant
            i <= chars@.len(),
            forall|j: int| i <= j < chars@.len() ==> white_space(chars@[j]),
        decreases i,
    {
        i -= 1;
    }
    proof {
        lemma_trimmed_end_at(s@, i as int);
    }
    string_range(&chars, 0, i)
}

/// `s` without its leading and trailing white space.
pub fn trim(s: &str) -> (r: String)
    ensures
        r@ == trimmed(s@),
{
    trim_end(trim_start(s).as_str())
}

proof fn lemma_trimmed_shorter(s: Seq<char>)
    ensures
        trimmed_start(s).len() <= s.len(),
        trimmed_end(s).len() <= s.len(),
    decreases s.len(),
{
    if s.len() > 0 {
        lemma_trimmed_shorter(s.subrange(1, s.len() as int));
        lemma_trimmed_shorter(s.drop_last());
    }
}

/// A text is trimmed exactly when it is empty or has no white space at either end.
pub proof fn lemma_trimmed(s: Seq<char>)
    ensures
        trimmed(s) == s <==> (s.len() > 0 ==> !white_space(s[0]) && !white_space(s.last())),
{
    lemma_trimmed_shorter(s);
    lemma_trimmed_shorter(trimmed_start(s));
    if s.len() > 0 {
        lemma_trimmed_shorter(s.subrange(1, s.len() as int));
        lemma_trimmed_shorter(s.drop_last());
    }
}

proof fn lemma_trimmed_ends(s: Seq<char>)
    ensures
        trimmed_start(s).len() > 0 ==> !white_space(trimmed_start(s)[0]),
        trimmed_end(s).len() > 0 ==> !white_space(trimmed_end(s).last()) && s.len() > 0
            && trimmed_end(s)[0] == s[0],
    decreases s.len(),
{
    if s.len() > 0 {
        lemma_trimmed_ends(s.subrange(1, s.len() as int));
        lemma_trimmed_ends(s.drop_last());
    }
}

/// Trimming twice is trimming once.
pub proof fn lemma_trimmed_twice(s: Seq<char>)
    ensures
        trimmed(trimmed(s)) == trimmed(s),
{
    lemma_trimmed_ends(s);
    lemma_trimmed_ends(trimmed_start(s));
    lemma_trimmed(trimmed(s));
}

/// Whether `part` stands in `s` at index `at`.
pub fn part_at(s: &Vec<char>, part: &Vec<char>, at: usize) -> (r: bool)
    ensures
        r == occurs_at(s@, part@, at as int),
{
    let total: usize = s.len();
    if part.len() > total || at > total - part.len() {
        return false;
    }
    let mut i: usize = 0;
    while i < part.len()
        invariant
            i <= part@.len(),
            at + part@.len() <= total == s@.len(),
            forall|j: int| 0 <= j < i ==> s@[at + j] == part@[j],
        decreases part@.len() - i,
    {
        if s[at + i] != part[i] {
            assert(s@.subrange(at as int, at + part@.len())[i as int] != part@[i as int]);
            return false;
        }
        i += 1;
    }
    assert(s@.subrange(at as int, at + part@.len()) =~= part@);
    true
}

/// Whether `s` begins with `prefix`.
pub fn has_prefix(s: &str, prefix: &str) -> (r: bool)
    ensures
        r == starts_with(s@, prefix@),
{
    part_at(&chars_of(s), &chars_of(prefix), 0)
}

/// Whether `s` ends with `suffix`.
pub fn has_suffix(s: &str, suffix: &str) -> (r: bool)
    ensures
        r == ends_with(s@, suffix@),
{
    let chars = chars_of(s);
    let part = chars_of(suffix);
    if part.len() > chars.len() {
        return false;
    }
    part_at(&chars, &part, chars.len() - part.len())
}

/// What follows `prefix` in `s`, if `s` begins with it.
pub fn strip_prefix(s: &str, prefix: &str) -> (r: Option<String>)
    ensures
        r is Some <==> starts_with(s@, prefix@),
        r matches Some(rest) ==> rest@ == s@.subrange(prefix@.len() as int, s@.len() as int),
{
    if has_prefix(s, prefix) {
        Some(substring(s, char_count(prefix), char_count(s)))
    } else {
        None
    }
}

/// What precedes `suffix` in `s`, if `s` ends with it.
pub fn strip_suffix(s: &str, suffix: &str) -> (r: Option<String>)
    ensures
        r is Some <==> ends_with(s@, suffix@),
        r matches Some(rest) ==> rest@ == s@.subrange(0, s@.len() - suffix@.len()),
{
    if has_suffix(s, suffix) {
        Some(substring(s, 0, char_count(s) - char_count(suffix)))
    } else {
        None
    }
}

/// The first index of `part` in `s`, counted in characters.
pub fn find(s: &str, part: &str) -> (r: Option<usize>)
    ensures
        r is Some <==> find_from(s@, part@, 0) is Some,
        r matches Some(at) ==> find_from(s@, part@, 0) == Some(at as int),
{
    let chars = chars_of(s);
    let wanted = chars_of(part);
    if wanted.len() > chars.len() {
        return None;
    }
    let last: usize = chars.len() - wanted.len();
    let mut i: usize = 0;
    loop
        invariant
            chars@ == s@,
            wanted@ == part@,
            i <= last == chars@.len() - wanted@.len(),
            find_from(s@, part@, 0) == find_from(s@, part@, i as int),
        decreases last - i,
    {
        if part_at(&chars, &wanted, i) {
            return Some(i);
        }
        if i == last {
            assert(find_from(s@, part@, i + 1) is None);
            return None;
        }
        i += 1;
    }
}

/// The last index of `part` in `s`, counted in characters.
pub fn rfind(s: &str, part: &str) -> (r: Option<usize>)
    ensures
        r is Some <==> rfind_from(s@, part@, s@.len() as int) is Some,
        r matches Some(at) ==> rfind_from(s@, part@, s@.len() as int) == Some(at as int),
{
    let chars = chars_of(s);
    let wanted = chars_of(part);
    let mut i: usize = chars.len();
    loop
        invariant
            chars@ == s@,
            wanted@ == part@,
            i <= chars@.len(),
            rfind_from(s@, part@, s@.len() as int) == rfind_from(s@, part@, i as int),
        decreases i,
    {
        if part_at(&chars, &wanted, i) {
            return Some(i);
        }
        if i == 0 {
            assert(rfind_from(s@, part@, -1) is None);
            return None;
        }
        i -= 1;
    }
}

/// What the searches find: `find_from` the first place from `from` on, `rfind_from` the last one
/// up to `from`.
pub proof fn lemma_find(s: Seq<char>, part: Seq<char>, from: int)
    requires
        0 <= from,
    ensures
        find_from(s, part, from) matches Some(at) ==> from <= at && occurs_at(s, part, at)
            && forall|j: int| from <= j < at ==> !occurs_at(s, part, j),
        find_from(s, part, from) is None ==> forall|j: int| from <= j ==> !occurs_at(s, part, j),
    decreases s.len() + 1 - from,
{
    if from + part.len() > s.len() {
    } else if occurs_at(s, part, from) {
    } else {
        lemma_find(s, part, from + 1);
    }
}

pub proof fn lemma_rfind(s: Seq<char>, part: Seq<char>, from: int)
    ensures
        rfind_from(s, part, from) matches Some(at) ==> 0 <= at <= from && occurs_at(s, part, at)
            && forall|j: int| at < j <= from ==> !occurs_at(s, part, j),
        rfind_from(s, part, from) is None ==> forall|j: int| j <= from ==> !occurs_at(s, part, j),
    decreases from + 1,
{
    if from >= 0 && !occurs_at(s, part, from) {
        lemma_rfind(s, part, from - 1);
    }
}

/// Whether `part` stands somewhere in `s`.
pub fn contains(s: &str, part: &str) -> (r: bool)
    ensures
        r == contains_text(s@, part@),
{
    proof {
        lemma_find(s@, part@, 0);
    }
    find(s, part).is_some()
}

pub proof fn lemma_split_nonempty(s: Seq<char>, separator: char)
    ensures
        split(s, separator).len() > 0,
    decreases s.len(),
{
    if s.len() > 0 {
        lemma_split_nonempty(s.drop_last(), separator);
    }
}

/// The pieces of `s` between its separators.
pub fn split_by(s: &str, separator: char) -> (r: Vec<String>)
    ensures
        r.deep_view() == split(s@, separator),
{
    let chars = chars_of(s);
    let mut parts: Vec<String> = Vec::new();
    let mut current = String::new();
    let mut i: usize = 0;
    assert(s@.subrange(0, 0) =~= Seq::<char>::empty());
    assert(parts.deep_view().push(current@) =~= seq![Seq::<char>::empty()]);
    while i < chars.len()
        invariant
            chars@ == s@,
            i <= chars@.len(),
            parts.deep_view().push(current@) == split(s@.subrange(0, i as int), separator),
        decreases chars@.len() - i,
    {
        let c = chars[i];
        let ghost before = s@.subrange(0, i as int);
        let ghost after = s@.subrange(0, i + 1);
        assert(after.drop_last() =~= before);
        let ghost init = split(before, separator);
        assert(init.drop_last() =~= parts.deep_view());
        assert(init.last() == current@);
        if c == separator {
            parts.push(current);
            assert(parts.deep_view() =~= init);
            current = String::new();
        } else {
            current.push(c);
        }
        i += 1;
    }
    assert(s@.subrange(0, i as int) =~= s@);
    let ghost done = parts.deep_view().push(current@);
    parts.push(current);
    assert(parts.deep_view() =~= done);
    parts
}

/// The lines of `s`.
pub fn lines(s: &str) -> (r: Vec<String>)
    ensures
        r.deep_view() == lines_of(s@),
{
    let parts = split_by(s, '\n');
    proof {
        lemma_split_nonempty(s@, '\n');
    }
    let ghost pieces = split(s@, '\n');
    let ghost ended = pieces.drop_last().map_values(|line: Seq<char>| without_cr(line));
    assert(parts@.len() == pieces.len());
    let mut out: Vec<String> = Vec::new();
    let mut i: usize = 0;
    let last: usize = parts.len() - 1;
    while i < last
        invariant
            i <= last == parts@.len() - 1,
            parts.deep_view() == pieces,
            ended == pieces.drop_last().map_values(|line: Seq<char>| without_cr(line)),
            out.deep_view() == ended.take(i as int),
        decreases last - i,
    {
        let chars = chars_of(parts[i].as_str());
        assert(chars@ == pieces[i as int]);
        let end: usize = if chars.len() > 0 && chars[chars.len() - 1] == '\r' {
            chars.len() - 1
        } else {
            chars.len()
        };
        let line = string_range(&chars, 0, end);
        assert(line@ =~= without_cr(pieces[i as int]));
        let ghost shown = out.deep_view();
        out.push(line);
        assert(ended[i as int] == without_cr(pieces.drop_last()[i as int]));
        assert(out.deep_view() =~= shown.push(line@));
        assert(shown.push(line@) =~= ended.take(i + 1));
        i += 1;
    }
    assert(ended.take(i as int) =~= ended);
    assert(parts@[last as int]@ == pieces.last());
    if char_count(parts[last].as_str()) > 0 {
        out.push(parts[last].clone());
        assert(out.deep_view() =~= ended.push(pieces.last()));
    }
    out
}

/// `parts` one after the other, with `separator` between each two.
pub fn join(parts: &Vec<String>, separator: &str) -> (r: String)
    ensures
        r@ == joined(parts.deep_view(), separator@),
{
    let mut out = String::new();
    let mut i: usize = 0;
    let ghost all = parts.deep_view();
    while i < parts.len()
        invariant
            all == parts.deep_view(),
            i <= parts@.len(),
            out@ == joined(all.take(i as int), separator@),
        decreases parts@.len() - i,
    {
        assert(all.take(i + 1).drop_last() =~= all.take(i as int));
        if i > 0 {
            out.append(separator);
        }
        out.append(parts[i].as_str());
        assert(i == 0 ==> out@ =~= all[0]);
        i += 1;
    }
    assert(all.take(i as int) =~= all);
    out
}

/// `lines`, each with a line feed behind it.
pub open spec fn terminated(lines: Seq<Seq<char>>) -> Seq<char>
    decreases lines.len(),
{
    if lines.len() == 0 {
        Seq::empty()
    } else {
        terminated(lines.drop_last()) + lines.last().push('\n')
    }
}

/// Whether `s` can stand as a line: it holds no line feed and ends with no carriage return.
pub open spec fn is_line(s: Seq<char>) -> bool {
    !s.contains('\n') && (s.len() > 0 ==> s.last() != '\r')
}

proof fn lemma_split_append(s: Seq<char>, piece: Seq<char>, separator: char)
    requires
        !piece.contains(separator),
    ensures
        split(s + piece, separator) == split(s, separator).drop_last().push(
            split(s, separator).last() + piece,
        ),
    decreases piece.len(),
{
    lemma_split_nonempty(s, separator);
    let init = split(s, separator);
    if piece.len() == 0 {
        assert(s + piece =~= s);
        assert(init.last() + piece =~= init.last());
        assert(init.drop_last().push(init.last()) =~= init);
    } else {
        assert(piece.contains(piece.last()));
        let shorter = piece.drop_last();
        assert forall|c: char| shorter.contains(c) implies piece.contains(c) by {
            let i = choose|i: int| 0 <= i < shorter.len() && shorter[i] == c;
            assert(piece[i] == c);
        }
        lemma_split_append(s, shorter, separator);
        assert((s + piece).drop_last() =~= s + shorter);
        let mid = split(s + shorter, separator);
        assert(mid.drop_last() =~= init.drop_last());
        assert((init.last() + shorter).push(piece.last()) =~= init.last() + piece);
    }
}

/// Splitting lines that each end with a line feed gives back the lines and an empty rest.
pub proof fn lemma_split_terminated(lines: Seq<Seq<char>>)
    requires
        forall|i: int| 0 <= i < lines.len() ==> !(#[trigger] lines[i]).contains('\n'),
    ensures
        split(terminated(lines), '\n') == lines.push(Seq::empty()),
    decreases lines.len(),
{
    if lines.len() == 0 {
        assert(lines.push(Seq::<char>::empty()) =~= seq![Seq::<char>::empty()]);
    } else {
        let init = lines.drop_last();
        lemma_split_terminated(init);
        let before = terminated(init);
        assert(!lines[lines.len() - 1].contains('\n'));
        lemma_split_append(before, lines.last(), '\n');
        let mid = split(before + lines.last(), '\n');
        assert(split(before, '\n').drop_last() =~= init);
        assert(Seq::<char>::empty() + lines.last() =~= lines.last());
        assert(init.push(lines.last()) =~= lines);
        assert(mid == lines);
        let all = before + lines.last().push('\n');
        assert(all.drop_last() =~= before + lines.last());
    }
}

/// Reading lines that each end with a line feed gives back the lines.
pub proof fn lemma_lines_of_terminated(lines: Seq<Seq<char>>)
    requires
        forall|i: int| 0 <= i < lines.len() ==> is_line(#[trigger] lines[i]),
    ensures
        lines_of(terminated(lines)) == lines,
{
    assert forall|i: int| 0 <= i < lines.len() implies !(#[trigger] lines[i]).contains('\n') by {
        assert(is_line(lines[i]));
    }
    lemma_split_terminated(lines);
    let parts = split(terminated(lines), '\n');
    assert(parts.drop_last() =~= lines);
    assert(lines.map_values(|line: Seq<char>| without_cr(line)) =~= lines) by {
        assert forall|i: int| 0 <= i < lines.len() implies without_cr(#[trigger] lines[i])
            == lines[i] by {
            assert(is_line(lines[i]));
        }
    }
}

/// `n` in decimal.
pub fn number(n: u64) -> (r: String)
    ensures
        r@ == decimal(n as nat),
    decreases n,
{
    let mut out = if n < 10 {
        String::new()
    } else {
        number(n / 10)
    };
    let digit = digit_char((n % 10) as u8);
    out.push(digit);
    assert(n < 10 ==> out@ =~= decimal(n as nat));
    out
}

/// The character of one decimal digit.
pub fn digit_char(d: u8) -> (c: char)
    requires
        d < 10,
    ensures
        c == (('0' as u32) + d) as char,
{
    match d {
        0 => '0',
        1 => '1',
        2 => '2',
        3 => '3',
        4 => '4',
        5 => '5',
        6 => '6',
        7 => '7',
        8 => '8',
        _ => '9',
    }
}

/// `c` in lower case if it is an ASCII letter.
pub fn lower_char(c: char) -> (r: char)
    ensures
        r == ascii_lower(c),
{
    if 'A' <= c && c <= 'Z' {
        ((c as u8) + 32) as char
    } else {
        c
    }
}

/// `s` with its ASCII letters in lower case.
pub fn to_lower(s: &str) -> (r: String)
    ensures
        r@ == ascii_lowered(s@),
{
    let chars = chars_of(s);
    let mut out = String::new();
    let mut i: usize = 0;
    while i < chars.len()
        invariant
            chars@ == s@,
            i <= chars@.len(),
            out@ == ascii_lowered(s@.take(i as int)),
        decreases chars@.len() - i,
    {
        out.push(lower_char(chars[i]));
        i += 1;
        assert(out@ =~= ascii_lowered(s@.take(i as int)));
    }
    assert(s@.take(i as int) =~= s@);
    out
}

} // verus!
