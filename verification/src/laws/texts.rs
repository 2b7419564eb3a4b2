//! What taking texts apart and putting them together comes to.
use crate::text;
use vstd::prelude::*;

verus! {

/// The pieces of a text between its separators hold no separator and, put together with it, are
/// the text.
pub proof fn law_pieces_make_the_text(s: Seq<char>, separator: char)
    ensures
        text::split(s, separator).len() > 0,
        text::joined(text::split(s, separator), seq![separator]) == s,
        forall|i: int|
            0 <= i < text::split(s, separator).len() ==> !(#[trigger] text::split(
                s,
                separator,
            )[i]).contains(separator),
    decreases s.len(),
{
    let parts = text::split(s, separator);
    let mark = seq![separator];
    if s.len() == 0 {
        assert(text::joined(parts, mark) =~= s);
    } else {
        law_pieces_make_the_text(s.drop_last(), separator);
        let init = text::split(s.drop_last(), separator);
        if s.last() == separator {
            assert(parts.drop_last() =~= init);
            assert(text::joined(parts, mark) =~= s.drop_last() + mark + Seq::<char>::empty());
            assert(s =~= s.drop_last() + mark);
        } else {
            assert(parts.drop_last() =~= init.drop_last());
            assert(parts.last() =~= init.last().push(s.last()));
            assert(text::joined(init, mark) == s.drop_last());
            if init.len() == 1 {
                assert(parts[0] == parts.last() && init[0] == init.last());
                assert(text::joined(parts, mark) =~= s);
            } else {
                assert(text::joined(parts, mark) =~= text::joined(init, mark).push(s.last()));
                assert(s =~= s.drop_last().push(s.last()));
            }
            assert forall|i: int| 0 <= i < parts.len() implies !(
            #[trigger] parts[i]).contains(separator) by {
                if i == parts.len() - 1 {
                    assert(!init[init.len() - 1].contains(separator));
                    assert forall|k: int| 0 <= k < parts[i].len() implies parts[i][k]
                        != separator by {
                        if k < init.last().len() {
                            assert(parts[i][k] == init.last()[k]);
                        }
                    }
                } else {
                    assert(parts[i] == init[i]);
                }
            }
        }
    }
}

/// Pieces without a separator, put together with it and taken apart again, are the pieces.
pub proof fn law_joined_pieces_are_found_again(parts: Seq<Seq<char>>, separator: char)
    requires
        parts.len() > 0,
        forall|i: int| 0 <= i < parts.len() ==> !(#[trigger] parts[i]).contains(separator),
    ensures
        text::split(text::joined(parts, seq![separator]), separator) == parts,
    decreases parts.len(),
{
    let mark = seq![separator];
    let last = parts.last();
    if parts.len() == 1 {
        lemma_split_behind(Seq::empty(), last, separator);
        assert(Seq::<char>::empty() + last =~= last);
        assert(text::split(Seq::empty(), separator) =~= seq![Seq::<char>::empty()]);
        assert(text::split(last, separator) =~= parts);
    } else {
        let init = parts.drop_last();
        assert forall|i: int| 0 <= i < init.len() implies !(#[trigger] init[i]).contains(
            separator,
        ) by {
            assert(init[i] == parts[i]);
        }
        law_joined_pieces_are_found_again(init, separator);
        let head = text::joined(init, mark);
        let ended = head + mark;
        assert(ended.drop_last() =~= head);
        assert(text::split(ended, separator) =~= init.push(Seq::<char>::empty()));
        lemma_split_behind(ended, last, separator);
        assert(text::split(ended + last, separator) =~= parts);
    }
}

proof fn lemma_split_behind(s: Seq<char>, more: Seq<char>, separator: char)
    requires
        !more.contains(separator),
    ensures
        text::split(s, separator).len() > 0,
        text::split(s + more, separator) == text::split(s, separator).drop_last().push(
            text::split(s, separator).last() + more,
        ),
    decreases more.len(),
{
    text::lemma_split_nonempty(s, separator);
    let base = text::split(s, separator);
    if more.len() == 0 {
        assert(s + more =~= s);
        assert(base.last() + more =~= base.last());
        assert(base.drop_last().push(base.last()) =~= base);
    } else {
        let less = more.drop_last();
        assert(!less.contains(separator)) by {
            if less.contains(separator) {
                let k = choose|k: int| 0 <= k < less.len() && less[k] == separator;
                assert(more[k] == separator);
            }
        }
        lemma_split_behind(s, less, separator);
        assert((s + more).drop_last() =~= s + less);
        assert(more.last() != separator) by {
            assert(more[more.len() - 1] == more.last());
        }
        assert((base.last() + less).push(more.last()) =~= base.last() + more);
        let init = text::split(s + less, separator);
        assert(init.drop_last() =~= base.drop_last());
    }
}

/// The lines of a text hold no line feed. Lines that hold none and do not end in a carriage
/// return, each ended by a line feed, are found again.
pub proof fn law_lines_are_found_again(lines: Seq<Seq<char>>)
    requires
        forall|i: int|
            0 <= i < lines.len() ==> !(#[trigger] lines[i]).contains('\n') && (lines[i].len() > 0
                ==> lines[i].last() != '\r'),
    ensures
        text::lines_of(text::terminated(lines)) == lines,
    decreases lines.len(),
{
    lemma_split_terminated(lines);
    let parts = text::split(text::terminated(lines), '\n');
    assert(parts.drop_last() =~= lines);
    assert(text::lines_of(text::terminated(lines)) =~= lines);
}

proof fn lemma_split_terminated(lines: Seq<Seq<char>>)
    requires
        forall|i: int| 0 <= i < lines.len() ==> !(#[trigger] lines[i]).contains('\n'),
    ensures
        text::split(text::terminated(lines), '\n') == lines.push(Seq::<char>::empty()),
    decreases lines.len(),
{
    if lines.len() > 0 {
        let init = lines.drop_last();
        assert forall|i: int| 0 <= i < init.len() implies !(#[trigger] init[i]).contains('\n') by {
            assert(init[i] == lines[i]);
        }
        lemma_split_terminated(init);
        let head = text::terminated(init);
        let last = lines.last();
        assert(!lines[lines.len() - 1].contains('\n'));
        lemma_split_behind(head, last, '\n');
        let all = text::terminated(lines);
        assert(all.drop_last() =~= head + last);
        assert(text::split(head + last, '\n') =~= lines) by {
            assert(init.push(Seq::<char>::empty()).drop_last() =~= init);
            assert(Seq::<char>::empty() + last =~= last);
        }
    } else {
        assert(text::split(text::terminated(lines), '\n') =~= lines.push(Seq::<char>::empty()));
    }
}

/// Trimming takes white space off both ends of a text, all of it, and nothing else.
pub proof fn law_trimming(s: Seq<char>)
    ensures
        ({
            let kept = text::trimmed(s);
            &&& kept.len() > 0 ==> !text::white_space(kept[0]) && !text::white_space(kept.last())
            &&& exists|a: Seq<char>, b: Seq<char>|
                #![trigger a + kept + b]
                s == a + kept + b && (forall|i: int|
                    0 <= i < a.len() ==> text::white_space(#[trigger] a[i])) && (forall|i: int|
                    0 <= i < b.len() ==> text::white_space(#[trigger] b[i]))
        }),
{
    let front = lemma_trimmed_front(s);
    let rest = text::trimmed_start(s);
    let back = lemma_trimmed_back(rest);
    let kept = text::trimmed(s);
    assert(s =~= front + kept + back);
    if kept.len() > 0 {
        assert(rest[0] == kept[0]);
    }
}

proof fn lemma_trimmed_front(s: Seq<char>) -> (front: Seq<char>)
    ensures
        s == front + text::trimmed_start(s),
        forall|i: int| 0 <= i < front.len() ==> text::white_space(#[trigger] front[i]),
        text::trimmed_start(s).len() > 0 ==> !text::white_space(text::trimmed_start(s)[0]),
    decreases s.len(),
{
    if s.len() > 0 && text::white_space(s[0]) {
        let rest = s.subrange(1, s.len() as int);
        let front = lemma_trimmed_front(rest);
        assert(s =~= seq![s[0]] + rest);
        assert(s =~= (seq![s[0]] + front) + text::trimmed_start(s));
        seq![s[0]] + front
    } else {
        assert(s =~= Seq::<char>::empty() + s);
        Seq::empty()
    }
}

proof fn lemma_trimmed_back(s: Seq<char>) -> (back: Seq<char>)
    ensures
        s == text::trimmed_end(s) + back,
        forall|i: int| 0 <= i < back.len() ==> text::white_space(#[trigger] back[i]),
        text::trimmed_end(s).len() > 0 ==> !text::white_space(text::trimmed_end(s).last()),
    decreases s.len(),
{
    if s.len() > 0 && text::white_space(s.last()) {
        let back = lemma_trimmed_back(s.drop_last());
        assert(s =~= s.drop_last().push(s.last()));
        assert(s =~= text::trimmed_end(s) + back.push(s.last()));
        back.push(s.last())
    } else {
        assert(s =~= s + Seq::<char>::empty());
        Seq::empty()
    }
}

/// The number that decimal digits stand for.
pub open spec fn number_of(digits: Seq<char>) -> int
    decreases digits.len(),
{
    if digits.len() == 0 {
        0
    } else {
        10 * number_of(digits.drop_last()) + (digits.last() as int - '0' as int)
    }
}

/// The decimal digits of a number stand for it, hold nothing but digits, and do not begin with a
/// zero unless the number is zero.
pub proof fn law_decimal(n: nat)
    ensures
        number_of(text::decimal(n)) == n,
        text::decimal(n).len() > 0,
        forall|i: int| 0 <= i < text::decimal(n).len() ==> '0' <= #[trigger] text::decimal(n)[i]
            <= '9',
        n > 0 ==> text::decimal(n)[0] != '0',
    decreases n,
{
    if n >= 10 {
        law_decimal(n / 10);
        let digits = text::decimal(n);
        assert(digits.drop_last() =~= text::decimal(n / 10));
        assert(digits[0] == text::decimal(n / 10)[0]);
        assert(digits.last() as int == '0' as int + n % 10);
    } else {
        assert(text::decimal(n).last() as int == '0' as int + n);
        reveal_with_fuel(number_of, 2);
        assert(text::decimal(n).drop_last() =~= Seq::<char>::empty());
    }
}

/// A text is found where it first stands, and only if it stands somewhere.
pub proof fn law_first_occurrence(s: Seq<char>, part: Seq<char>)
    ensures
        text::find_from(s, part, 0) matches Some(at) ==> 0 <= at && at + part.len() <= s.len()
            && s.subrange(at, at + part.len()) == part && forall|j: int|
            0 <= j < at ==> #[trigger] s.subrange(j, j + part.len()) != part,
        text::find_from(s, part, 0) is None ==> forall|j: int|
            0 <= j && j + part.len() <= s.len() ==> #[trigger] s.subrange(j, j + part.len())
                != part,
        text::contains_text(s, part) <==> text::find_from(s, part, 0) is Some,
{
    text::lemma_find(s, part, 0);
    if let Some(at) = text::find_from(s, part, 0) {
        assert forall|j: int| 0 <= j < at implies #[trigger] s.subrange(j, j + part.len())
            != part by {
            assert(!text::occurs_at(s, part, j));
        }
    } else {
        assert forall|j: int| 0 <= j && j + part.len() <= s.len() implies #[trigger] s.subrange(
            j,
            j + part.len(),
        ) != part by {
            assert(!text::occurs_at(s, part, j));
        }
    }
}

/// Lowering the case changes the capital letters of ASCII, each to its own small letter, and
/// nothing else.
pub proof fn law_lowered_case(s: Seq<char>, i: int)
    requires
        0 <= i < s.len(),
    ensures
        text::ascii_lowered(s).len() == s.len(),
        'A' <= s[i] <= 'Z' ==> text::ascii_lowered(s)[i] as int == s[i] as int - 'A' as int
            + 'a' as int,
        !('A' <= s[i] <= 'Z') ==> text::ascii_lowered(s)[i] == s[i],
{
}

/// White space is what Unicode calls so.
pub proof fn law_white_space(c: char)
    ensures
        text::white_space(c) <==> {
            let code = c as int;
            9 <= code <= 13 || code == 32 || code == 0x85 || code == 0xa0 || code == 0x1680
                || 0x2000 <= code <= 0x200a || code == 0x2028 || code == 0x2029 || code == 0x202f
                || code == 0x205f || code == 0x3000
        },
{
}

/// A text is found where it last stands up to a place, and only if it stands there somewhere.
pub proof fn law_last_occurrence(s: Seq<char>, part: Seq<char>, from: int)
    ensures
        text::rfind_from(s, part, from) matches Some(at) ==> 0 <= at <= from && at + part.len()
            <= s.len() && s.subrange(at, at + part.len()) == part && forall|j: int|
            at < j <= from && j + part.len() <= s.len() ==> #[trigger] s.subrange(
                j,
                j + part.len(),
            ) != part,
        text::rfind_from(s, part, from) is None ==> forall|j: int|
            0 <= j <= from && j + part.len() <= s.len() ==> #[trigger] s.subrange(
                j,
                j + part.len(),
            ) != part,
{
    text::lemma_rfind(s, part, from);
    if let Some(at) = text::rfind_from(s, part, from) {
        assert forall|j: int| at < j <= from && j + part.len() <= s.len() implies #[trigger] s.subrange(
            j,
            j + part.len(),
        ) != part by {
            assert(!text::occurs_at(s, part, j));
        }
    } else {
        assert forall|j: int| 0 <= j <= from && j + part.len() <= s.len() implies #[trigger] s.subrange(
            j,
            j + part.len(),
        ) != part by {
            assert(!text::occurs_at(s, part, j));
        }
    }
}

/// The lines of a text are its pieces between line feeds, without a carriage return before the
/// line feed, and without an empty piece at the end.
pub proof fn law_lines(s: Seq<char>, i: int)
    ensures
        ({
            let pieces = text::split(s, '\n');
            let lines = text::lines_of(s);
            &&& lines.len() == (if pieces.last().len() == 0 {
                pieces.len() - 1
            } else {
                pieces.len() as int
            })
            &&& 0 <= i < pieces.len() - 1 ==> lines[i] == (if pieces[i].len() > 0
                && pieces[i].last() == '\r' {
                pieces[i].drop_last()
            } else {
                pieces[i]
            })
            &&& pieces.last().len() > 0 ==> lines.last() == pieces.last()
        }),
        s.len() == 0 ==> text::lines_of(s).len() == 0,
{
    text::lemma_split_nonempty(s, '\n');
}

/// Whether a text begins or ends with another is as it says.
pub proof fn law_beginnings_and_ends(s: Seq<char>, part: Seq<char>)
    ensures
        text::starts_with(s, part) <==> part.is_prefix_of(s),
        text::ends_with(s, part) <==> part.is_suffix_of(s),
{
}

/// Joining puts parts one behind the other with the separator between one and the next.
pub proof fn law_joining(parts: Seq<Seq<char>>, part: Seq<char>, separator: Seq<char>)
    ensures
        parts.len() > 0 ==> text::joined(parts.push(part), separator) == text::joined(
            parts,
            separator,
        ) + separator + part,
        text::joined(seq![part], separator) == part,
        text::joined(Seq::empty(), separator).len() == 0,
        text::terminated(parts.push(part)) == text::terminated(parts) + part + seq!['\n'],
        text::terminated(Seq::empty()).len() == 0,
{
    assert(parts.push(part).drop_last() =~= parts);
    assert(text::terminated(parts.push(part)) =~= text::terminated(parts) + part + seq!['\n']);
}

/// Everything before a byte of a text and everything from it on are the text.
pub proof fn law_texts_are_parted(a: Seq<char>, b: Seq<char>)
    ensures
        text::before_byte(a + b, text::utf8_len(a) as int) == a,
        text::after_byte(a + b, text::utf8_len(a) as int) == b,
        text::utf8_len(a + b) == text::utf8_len(a) + text::utf8_len(b),
        a.len() <= text::utf8_len(a) <= 4 * a.len(),
{
    text::lemma_parts_of_sum(a, b);
    text::lemma_encode_append(a, b);
    text::lemma_utf8_len(a);
}

} // verus!
