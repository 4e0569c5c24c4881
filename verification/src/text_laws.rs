//! What the text operations make of every text.
use crate::json::digits_value;
use crate::text::{
    contains_text, decimal_text, digit, joined, occurs_at, replaced_char, stripped_end,
    stripped_start, trimmed, trimmed_end, trimmed_start, unix_newlines, upper_text, uppercased,
    white_space,
};
use vstd::prelude::*;

verus! {

/// Where a text starts without its leading white space.
proof fn lemma_trimmed_start(s: Seq<char>) -> (k: int)
    ensures
        0 <= k <= s.len(),
        trimmed_start(s) == s.skip(k),
        forall|i: int| 0 <= i < k ==> white_space(#[trigger] s[i]),
        k < s.len() ==> !white_space(s[k]),
    decreases s.len(),
{
    if s.len() > 0 && white_space(s[0]) {
        let rest = s.skip(1);
        let k = lemma_trimmed_start(rest) + 1;
        assert(s.skip(k) =~= rest.skip(k - 1));
        assert forall|i: int| 0 <= i < k implies white_space(#[trigger] s[i]) by {
            if i > 0 {
                assert(rest[i - 1] == s[i]);
            }
        }
        k
    } else {
        assert(s.skip(0) =~= s);
        0
    }
}

/// Where a text ends without its trailing white space.
proof fn lemma_trimmed_end(s: Seq<char>) -> (k: int)
    ensures
        0 <= k <= s.len(),
        trimmed_end(s) == s.take(k),
        forall|i: int| k <= i < s.len() ==> white_space(#[trigger] s[i]),
        k > 0 ==> !white_space(s[k - 1]),
    decreases s.len(),
{
    if s.len() > 0 && white_space(s.last()) {
        let rest = s.drop_last();
        let k = lemma_trimmed_end(rest);
        assert(s.take(k) =~= rest.take(k));
        assert forall|i: int| k <= i < s.len() implies white_space(#[trigger] s[i]) by {
            if i < rest.len() {
                assert(rest[i] == s[i]);
            }
        }
        k
    } else {
        assert(s.take(s.len() as int) =~= s);
        s.len() as int
    }
}

/// A trimmed text is the whole of the text between its first character that is no white space and
/// its last one: nothing but white space is taken away, and none is left at either end.
pub proof fn law_trimming_takes_white_space_only(s: Seq<char>)
    ensures
        exists|k: int, m: int|
            0 <= k <= m <= s.len() && trimmed(s) == #[trigger] s.subrange(k, m) && (forall|i: int|
                (0 <= i < k || m <= i < s.len()) ==> white_space(#[trigger] s[i])) && (k < m
                ==> !white_space(s[k]) && !white_space(s[m - 1])),
{
    let k = lemma_trimmed_start(s);
    let front = s.skip(k);
    let n = lemma_trimmed_end(front);
    let m = k + n;
    assert(front.take(n) =~= s.subrange(k, m));
    assert forall|i: int| (0 <= i < k || m <= i < s.len()) implies white_space(
        #[trigger] s[i],
    ) by {
        if i >= m {
            assert(front[i - k] == s[i]);
        }
    }
    if n > 0 {
        assert(front[n - 1] == s[m - 1]);
    }
    assert(trimmed(s) == s.subrange(k, m));
}

/// A number's text denotes the number, in digits alone, without leading zeros.
pub proof fn law_decimal_text_denotes_its_number(n: nat)
    ensures
        digits_value(decimal_text(n)) == n,
        decimal_text(n).len() > 0,
        forall|i: int|
            0 <= i < decimal_text(n).len() ==> '0' <= #[trigger] decimal_text(n)[i] <= '9',
        decimal_text(n)[0] == '0' ==> n == 0 && decimal_text(n).len() == 1,
    decreases n,
{
    reveal_with_fuel(digits_value, 2);
    if n < 10 {
        assert(decimal_text(n).drop_last() =~= Seq::empty());
        assert(digit(n) as nat == 48 + n);
    } else {
        let front = decimal_text(n / 10);
        law_decimal_text_denotes_its_number(n / 10);
        assert(decimal_text(n).drop_last() =~= front);
        assert(decimal_text(n).last() == digit(n % 10));
        assert(digit(n % 10) as nat == 48 + n % 10);
        assert(decimal_text(n)[0] == front[0]);
        assert(n == 10 * (n / 10) + n % 10);
        assert forall|i: int| 0 <= i < decimal_text(n).len() implies '0'
            <= #[trigger] decimal_text(n)[i] <= '9' by {
            if i < front.len() {
                assert(decimal_text(n)[i] == front[i]);
            }
        }
    }
}

/// A text contains another exactly where it is made of that one, with something before it and
/// something behind it, or nothing.
pub proof fn law_contained_text_is_a_part(s: Seq<char>, needle: Seq<char>)
    ensures
        contains_text(s, needle) <==> exists|a: Seq<char>, b: Seq<char>|
            s == #[trigger] ((a + needle) + b),
{
    if contains_text(s, needle) {
        let i = choose|i: int| occurs_at(s, needle, i);
        let a = s.take(i);
        let b = s.skip(i + needle.len());
        assert(s =~= (a + needle) + b) by {
            assert forall|k: int| 0 <= k < s.len() implies s[k] == ((a + needle) + b)[k] by {
                if i <= k < i + needle.len() {
                    assert(s.subrange(i, i + needle.len())[k - i] == s[k]);
                }
            }
        }
    }
    if exists|a: Seq<char>, b: Seq<char>| s == #[trigger] ((a + needle) + b) {
        let (a, b) = choose|a: Seq<char>, b: Seq<char>| s == #[trigger] ((a + needle) + b);
        let i = a.len() as int;
        assert(s.subrange(i, i + needle.len()) =~= needle);
        assert(occurs_at(s, needle, i));
    }
}

/// What is stripped from the start of a text is a run of the one character, and all of it.
pub proof fn law_stripping_the_start_takes_one_character(s: Seq<char>, c: char)
    ensures
        ({
            let k = s.len() - stripped_start(s, c).len();
            &&& 0 <= k <= s.len()
            &&& stripped_start(s, c) == s.skip(k)
            &&& forall|i: int| 0 <= i < k ==> #[trigger] s[i] == c
            &&& k < s.len() ==> s[k] != c
        }),
    decreases s.len(),
{
    if s.len() > 0 && s[0] == c {
        let rest = s.skip(1);
        law_stripping_the_start_takes_one_character(rest, c);
        let k = s.len() - stripped_start(s, c).len();
        assert(s.skip(k) =~= rest.skip(k - 1));
        assert forall|i: int| 0 <= i < k implies #[trigger] s[i] == c by {
            if i > 0 {
                assert(rest[i - 1] == s[i]);
            }
        }
    } else {
        assert(s.skip(0) =~= s);
    }
}

/// What is stripped from the end of a text is a run of the one character, and all of it.
pub proof fn law_stripping_the_end_takes_one_character(s: Seq<char>, c: char)
    ensures
        ({
            let k = stripped_end(s, c).len() as int;
            &&& k <= s.len()
            &&& stripped_end(s, c) == s.take(k)
            &&& forall|i: int| k <= i < s.len() ==> #[trigger] s[i] == c
            &&& k > 0 ==> s[k - 1] != c
        }),
    decreases s.len(),
{
    if s.len() > 0 && s.last() == c {
        let rest = s.drop_last();
        law_stripping_the_end_takes_one_character(rest, c);
        let k = stripped_end(s, c).len() as int;
        assert(s.take(k) =~= rest.take(k));
        assert forall|i: int| k <= i < s.len() implies #[trigger] s[i] == c by {
            if i < rest.len() {
                assert(rest[i] == s[i]);
            }
        }
    } else {
        assert(s.take(s.len() as int) =~= s);
    }
}

/// Replacing a character changes that character alone, at every place.
pub proof fn law_replacing_changes_one_character(s: Seq<char>, from: char, to: char, i: int)
    requires
        0 <= i < s.len(),
    ensures
        replaced_char(s, from, to).len() == s.len(),
        s[i] == from ==> replaced_char(s, from, to)[i] == to,
        s[i] != from ==> replaced_char(s, from, to)[i] == s[i],
{
}

/// Every carriage return with a newline behind it becomes a newline, wherever it stands.
pub proof fn law_line_ends_become_newlines(a: Seq<char>, b: Seq<char>)
    ensures
        unix_newlines(a + seq!['\r', '\n'] + b) == unix_newlines(a) + seq!['\n'] + unix_newlines(b),
    decreases a.len(),
{
    let s = a + seq!['\r', '\n'] + b;
    if a.len() == 0 {
        assert(s.skip(2) =~= b);
        assert(s[0] == '\r' && s[1] == '\n');
        assert(unix_newlines(s) =~= unix_newlines(a) + seq!['\n'] + unix_newlines(b));
    } else if a.len() >= 2 && a[0] == '\r' && a[1] == '\n' {
        assert(s[0] == '\r' && s[1] == '\n');
        assert(s.skip(2) =~= a.skip(2) + seq!['\r', '\n'] + b);
        law_line_ends_become_newlines(a.skip(2), b);
        assert(unix_newlines(s) =~= unix_newlines(a) + seq!['\n'] + unix_newlines(b));
    } else {
        assert(s[0] == a[0]);
        assert(s[1] == if a.len() >= 2 {
            a[1]
        } else {
            '\r'
        });
        assert(s.skip(1) =~= a.skip(1) + seq!['\r', '\n'] + b);
        law_line_ends_become_newlines(a.skip(1), b);
        assert(unix_newlines(s) =~= unix_newlines(a) + seq!['\n'] + unix_newlines(b));
    }
}

/// A text in which no carriage return has a newline behind it stays as it is.
pub proof fn law_other_text_stays(s: Seq<char>)
    requires
        forall|i: int| 0 <= i < s.len() - 1 && #[trigger] s[i] == '\r' ==> s[i + 1] != '\n',
    ensures
        unix_newlines(s) == s,
    decreases s.len(),
{
    if s.len() > 0 {
        let rest = s.skip(1);
        assert forall|i: int| 0 <= i < rest.len() - 1 && #[trigger] rest[i] == '\r' implies rest[i
            + 1] != '\n' by {
            assert(s[i + 1] == rest[i]);
        }
        law_other_text_stays(rest);
        assert(seq![s[0]] + rest =~= s);
    }
}

/// Joined words are the words, each as it is, with the separator between each two.
pub proof fn law_joining_puts_separators_between(
    a: Seq<String>,
    b: Seq<String>,
    word: String,
    sep: Seq<char>,
)
    ensures
        joined(Seq::empty(), sep) == Seq::<char>::empty(),
        joined(seq![word], sep) == word@,
        a.len() > 0 && b.len() > 0 ==> joined(a + b, sep) == joined(a, sep) + sep + joined(b, sep),
    decreases b.len(),
{
    assert(seq![word].drop_last() =~= Seq::empty());
    if a.len() > 0 && b.len() > 0 {
        let front = b.drop_last();
        assert((a + b).drop_last() =~= a + front);
        assert((a + b).last() == b.last());
        law_joining_puts_separators_between(a, front, word, sep);
        if front.len() == 0 {
            assert(a + front =~= a);
        }
        assert(joined(a + b, sep) =~= joined(a, sep) + sep + joined(b, sep));
    }
}

/// A text in upper case: where all of it is ASCII, each letter alone is changed, to the one 32
/// places before it; where not, it is what Unicode makes of it.
pub proof fn law_upper_case(s: Seq<char>)
    ensures
        (forall|i: int| 0 <= i < s.len() ==> (#[trigger] s[i] as u32) < 128) ==> upper_text(s).len()
            == s.len() && forall|i: int|
            0 <= i < s.len() ==> #[trigger] upper_text(s)[i] == if 'a' <= s[i] <= 'z' {
                (s[i] as u32 - 32) as char
            } else {
                s[i]
            },
        (exists|i: int| 0 <= i < s.len() && (#[trigger] s[i] as u32) >= 128) ==> upper_text(s)
            == uppercased(s),
{
}

} // verus!
