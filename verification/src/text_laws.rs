//! What the operations on text do, told by how their results relate to what they were given.

use vstd::prelude::*;
use crate::text::ascii_lower;
use crate::text::decimal;
use crate::text::digit;
use crate::text::first_space_is_first;
use crate::text::head;
use crate::text::same_ignoring_case;
use crate::text::tail;
use crate::text::trimmed;
use crate::text::white_space;
use crate::text::with_forward_slashes;
use crate::text::without_prefix;

verus! {

/// Whether `s` is white space throughout.
pub open spec fn blank(s: Seq<char>) -> bool {
    forall|i: int| 0 <= i < s.len() ==> white_space(#[trigger] s[i])
}

/// Trimming takes nothing but white space away, and only from the two ends: the text is what is
/// left with white space before and behind it, and what is left neither begins nor ends with any.
pub proof fn trimming_takes_only_space(s: Seq<char>) -> (ends: (Seq<char>, Seq<char>))
    ensures
        s == ends.0 + trimmed(s) + ends.1,
        blank(ends.0),
        blank(ends.1),
        trimmed(s).len() > 0 ==> !white_space(trimmed(s)[0]) && !white_space(
            trimmed(s)[trimmed(s).len() - 1],
        ),
        trimmed(s).len() == 0 <==> blank(s),
    decreases s.len(),
{
    if s.len() == 0 {
        (Seq::empty(), Seq::empty())
    } else if white_space(s.first()) {
        let rest = s.drop_first();
        let (before, after) = trimming_takes_only_space(rest);
        let all_before = seq![s.first()] + before;
        let middle = trimmed(s);
        assert(rest == before + middle + after);
        assert(s == seq![s.first()] + rest);
        assert(seq![s.first()] + (before + middle + after) == all_before + middle + after);
        assert(blank(all_before)) by {
            assert forall|i: int| 0 <= i < all_before.len() implies white_space(
                #[trigger] all_before[i],
            ) by {
                if i > 0 {
                    assert(all_before[i] == before[i - 1]);
                }
            }
        }
        assert(blank(s) <==> blank(rest)) by {
            if blank(rest) {
                assert forall|i: int| 0 <= i < s.len() implies white_space(#[trigger] s[i]) by {
                    if i > 0 {
                        assert(rest[i - 1] == s[i]);
                    }
                }
            }
            if blank(s) {
                assert forall|i: int| 0 <= i < rest.len() implies white_space(#[trigger] rest[i]) by {
                    assert(s[i + 1] == rest[i]);
                }
            }
        }
        (all_before, after)
    } else if white_space(s.last()) {
        let rest = s.drop_last();
        let (before, after) = trimming_takes_only_space(rest);
        let all_after = after.push(s.last());
        let middle = trimmed(s);
        assert(rest == before + middle + after);
        assert(s == rest.push(s.last()));
        assert((before + middle + after).push(s.last()) == before + middle + all_after);
        assert(!blank(s)) by {
            assert(!white_space(s[0]));
        }
        assert(!blank(rest)) by {
            assert(rest.len() > 0 && rest[0] == s[0]);
        }
        (before, all_after)
    } else {
        assert(!blank(s)) by {
            assert(!white_space(s[0]));
        }
        assert(s == Seq::<char>::empty() + s + Seq::<char>::empty());
        (Seq::empty(), Seq::empty())
    }
}

/// Whatever white space stands around a text that has none at its ends, trimming gives the text.
pub proof fn trimming_finds_the_text(before: Seq<char>, text: Seq<char>, after: Seq<char>)
    requires
        blank(before),
        blank(after),
        text.len() > 0 ==> !white_space(text[0]) && !white_space(text[text.len() - 1]),
    ensures
        trimmed(before + text + after) == text,
    decreases before.len() + after.len(),
{
    let s = before + text + after;
    if before.len() > 0 {
        assert(white_space(before[0]));
        assert(s.first() == before[0]);
        let rest = before.drop_first();
        assert forall|i: int| 0 <= i < rest.len() implies white_space(#[trigger] rest[i]) by {
            assert(before[i + 1] == rest[i]);
        }
        assert(s.drop_first() == rest + text + after);
        trimming_finds_the_text(rest, text, after);
    } else if after.len() > 0 {
        assert(white_space(after[after.len() - 1]));
        assert(s.last() == after.last());
        let rest = after.drop_last();
        assert forall|i: int| 0 <= i < rest.len() implies white_space(#[trigger] rest[i]) by {
            assert(after[i] == rest[i]);
        }
        if text.len() > 0 {
            assert(s.first() == text[0]);
            assert(s.drop_last() == before + text + rest);
            trimming_finds_the_text(before, text, rest);
        } else {
            assert(s.first() == after[0]);
            assert(white_space(after[0]));
            let fewer = after.drop_first();
            assert forall|i: int| 0 <= i < fewer.len() implies white_space(#[trigger] fewer[i]) by {
                assert(after[i + 1] == fewer[i]);
            }
            assert(s.drop_first() == before + text + fewer);
            trimming_finds_the_text(before, text, fewer);
        }
    } else {
        assert(s == text);
    }
}

/// Two texts are the same but for case exactly if they are equally long and, at each place, hold the
/// same character or the capital and the small form of one ASCII letter.
pub proof fn case_means_ascii_letters(a: Seq<char>, b: Seq<char>)
    ensures
        same_ignoring_case(a, b) <==> a.len() == b.len() && forall|i: int|
            0 <= i < a.len() ==> {
                ||| #[trigger] a[i] == b[i]
                ||| 'A' <= a[i] <= 'Z' && b[i] as int == a[i] as int + 32
                ||| 'A' <= b[i] <= 'Z' && a[i] as int == b[i] as int + 32
            },
{
    assert forall|i: int| 0 <= i < a.len() && a.len() == b.len() implies (ascii_lower(
        #[trigger] a[i],
    ) == ascii_lower(b[i]) <==> {
        ||| a[i] == b[i]
        ||| 'A' <= a[i] <= 'Z' && b[i] as int == a[i] as int + 32
        ||| 'A' <= b[i] <= 'Z' && a[i] as int == b[i] as int + 32
    }) by {
        lower_case_pairs(a[i], b[i]);
    }
    if same_ignoring_case(a, b) {
        assert forall|i: int| 0 <= i < a.len() implies {
            ||| #[trigger] a[i] == b[i]
            ||| 'A' <= a[i] <= 'Z' && b[i] as int == a[i] as int + 32
            ||| 'A' <= b[i] <= 'Z' && a[i] as int == b[i] as int + 32
        } by {
            assert(ascii_lower(a[i]) == ascii_lower(b[i]));
        }
    }
}

proof fn lower_case_pairs(x: char, y: char)
    ensures
        ascii_lower(x) == ascii_lower(y) <==> {
            ||| x == y
            ||| 'A' <= x <= 'Z' && y as int == x as int + 32
            ||| 'A' <= y <= 'Z' && x as int == y as int + 32
        },
{
}

/// Replacing backslashes changes nothing else: at each place stands what stood there, or `/` where
/// a backslash stood.
pub proof fn only_backslashes_are_replaced(s: Seq<char>)
    ensures
        with_forward_slashes(s).len() == s.len(),
        forall|i: int|
            0 <= i < s.len() ==> (s[i] != '\\' ==> #[trigger] with_forward_slashes(s)[i] == s[i]) && (
            s[i] == '\\' ==> with_forward_slashes(s)[i] == '/'),
{
}

/// A text is split at its first space: what stands before holds no space, and the two parts with a
/// space between them are the text; without a space, all of it stands before.
pub proof fn splitting_loses_only_a_space(s: Seq<char>)
    ensures
        !head(s).contains(' '),
        s.contains(' ') ==> s == head(s) + seq![' '] + tail(s),
        !s.contains(' ') ==> head(s) == s && tail(s).len() == 0,
{
    first_space_is_first(s);
    let at = crate::text::first_space(s);
    assert forall|i: int| 0 <= i < head(s).len() implies head(s)[i] != ' ' by {
        assert(head(s)[i] == s[i]);
    }
    if at < s.len() {
        assert(s.contains(s[at]));
        assert(s =~= head(s) + seq![' '] + tail(s));
    } else {
        assert(s.take(at) == s);
        assert forall|i: int| 0 <= i < s.len() implies s[i] != ' ' by {}
    }
}

/// Any text without a space, then a space, then any text are told apart again.
pub proof fn splitting_finds_the_parts(before: Seq<char>, after: Seq<char>)
    requires
        !before.contains(' '),
    ensures
        head(before + seq![' '] + after) == before,
        tail(before + seq![' '] + after) == after,
        head(before) == before,
        tail(before).len() == 0,
{
    let s = before + seq![' '] + after;
    first_space_is_first(s);
    let at = crate::text::first_space(s);
    assert(s[before.len() as int] == ' ');
    if at < before.len() {
        assert(before[at] == s[at]);
        assert(before.contains(before[at]));
    }
    assert(s.take(at) == before);
    assert(s.skip(at + 1) == after);
    splitting_loses_only_a_space(before);
}

/// A prefix is taken off exactly if the text begins with it, and what is left is the rest.
pub proof fn prefix_and_rest_are_the_text(s: Seq<char>, prefix: Seq<char>, rest: Seq<char>)
    ensures
        without_prefix(s, prefix) == Some(rest) <==> s == prefix + rest,
{
    if s == prefix + rest {
        assert(s.subrange(0, prefix.len() as int) == prefix);
        assert(s.skip(prefix.len() as int) == rest);
    }
    if without_prefix(s, prefix) == Some(rest) {
        assert(s =~= prefix + rest);
    }
}

/// A number is written in digits: the last one is what is left of the number after division by
/// ten, and what stands before it is the rest of the number, where there is one.
pub proof fn decimals_go_by_tens(n: nat, d: nat)
    requires
        d < 10,
    ensures
        n > 0 ==> decimal(10 * n + d) == decimal(n) + seq![(0x30 + d) as char],
        decimal(d) == seq![(0x30 + d) as char],
{
    if n > 0 {
        assert((10 * n + d) / 10 == n && (10 * n + d) % 10 == d);
        assert(decimal(10 * n + d) =~= decimal(n) + seq![digit(d)]);
    }
}

} // verus!
