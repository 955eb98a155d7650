//! Text: ordering, decimal and hexadecimal numerals, search.

use vstd::prelude::*;
use vstd::string::*;

verus! {

/// Whether `a` stands strictly before `b` when both are compared character by
/// character from position `i` on, a shorter text standing before its extensions.
pub open spec fn less_from(a: Seq<char>, b: Seq<char>, i: int) -> bool
    decreases a.len() - i,
{
    if i < 0 || i >= b.len() {
        false
    } else if i >= a.len() {
        true
    } else if a[i] != b[i] {
        (a[i] as int) < (b[i] as int)
    } else {
        less_from(a, b, i + 1)
    }
}

/// The order of texts by code points, from the first character on.
pub open spec fn text_less(a: Seq<char>, b: Seq<char>) -> bool {
    less_from(a, b, 0)
}

proof fn lemma_less_from_total(a: Seq<char>, b: Seq<char>, i: int)
    requires
        0 <= i <= a.len(),
        i <= b.len(),
        a.subrange(0, i) == b.subrange(0, i),
    ensures
        less_from(a, b, i) || less_from(b, a, i) || a == b,
        !(less_from(a, b, i) && less_from(b, a, i)),
    decreases a.len() - i,
{
    if i < a.len() && i < b.len() {
        if a[i] == b[i] {
            assert(a.subrange(0, i + 1) =~= a.subrange(0, i).push(a[i]));
            assert(b.subrange(0, i + 1) =~= b.subrange(0, i).push(b[i]));
            lemma_less_from_total(a, b, i + 1);
        }
    } else if i == a.len() && i == b.len() {
        assert(a =~= a.subrange(0, i));
        assert(b =~= b.subrange(0, i));
    }
}

proof fn lemma_less_from_irreflexive(a: Seq<char>, i: int)
    requires
        0 <= i <= a.len(),
    ensures
        !less_from(a, a, i),
    decreases a.len() - i,
{
    if i < a.len() {
        lemma_less_from_irreflexive(a, i + 1);
    }
}

proof fn lemma_less_from_transitive(a: Seq<char>, b: Seq<char>, c: Seq<char>, i: int)
    requires
        0 <= i,
        less_from(a, b, i),
        less_from(b, c, i),
    ensures
        less_from(a, c, i),
    decreases a.len() - i,
{
    if i < a.len() && i < b.len() && i < c.len() && a[i] == b[i] && b[i] == c[i] {
        lemma_less_from_transitive(a, b, c, i + 1);
    }
}

/// Of two different texts exactly one stands before the other.
pub proof fn lemma_text_less_total(a: Seq<char>, b: Seq<char>)
    ensures
        text_less(a, b) || text_less(b, a) || a == b,
        !(text_less(a, b) && text_less(b, a)),
        !text_less(a, a),
{
    assert(a.subrange(0, 0) =~= b.subrange(0, 0));
    lemma_less_from_total(a, b, 0);
    lemma_less_from_irreflexive(a, 0);
}

/// The order of texts is transitive.
pub proof fn lemma_text_less_transitive(a: Seq<char>, b: Seq<char>, c: Seq<char>)
    requires
        text_less(a, b),
        text_less(b, c),
    ensures
        text_less(a, c),
{
    lemma_less_from_transitive(a, b, c, 0);
}

/// The characters of a text.
pub fn chars_of(text: &str) -> (r: Vec<char>)
    ensures
        r@ == text@,
{
    let mut r: Vec<char> = Vec::new();
    for c in it: text.chars()
        invariant
            r@ == it.seq().take(it.index@),
            it.seq() == text@,
    {
        r.push(c);
        assert(it.seq().take(it.index@ + 1) =~= it.seq().take(it.index@).push(c));
    }
    assert(r@ =~= text@);
    r
}

/// Whether `a` stands before `b` in the order of texts.
pub fn str_less(a: &str, b: &str) -> (r: bool)
    ensures
        r == text_less(a@, b@),
{
    let x = chars_of(a);
    let y = chars_of(b);
    let mut i: usize = 0;
    while i < x.len() && i < y.len() && x[i] == y[i]
        invariant
            x@ == a@,
            y@ == b@,
            i <= x.len(),
            i <= y.len(),
            less_from(a@, b@, 0) == less_from(a@, b@, i as int),
        decreases x.len() - i,
    {
        i = i + 1;
    }
    if i >= y.len() {
        false
    } else if i >= x.len() {
        true
    } else {
        x[i] < y[i]
    }
}

/// Whether two texts hold the same characters.
pub fn str_equal(a: &str, b: &str) -> (r: bool)
    ensures
        r == (a@ == b@),
{
    let x = chars_of(a);
    let y = chars_of(b);
    if x.len() != y.len() {
        return false;
    }
    let mut i: usize = 0;
    while i < x.len()
        invariant
            x@ == a@,
            y@ == b@,
            x.len() == y.len(),
            i <= x.len(),
            forall|j: int| 0 <= j < i ==> x[j] == y[j],
        decreases x.len() - i,
    {
        if x[i] != y[i] {
            return false;
        }
        i = i + 1;
    }
    assert(a@ =~= b@);
    true
}

/// The digit character for `n`, in the digits `0..9` and `a..f`.
pub open spec fn digit_char(n: nat) -> char {
    if n == 0 {
        '0'
    } else if n == 1 {
        '1'
    } else if n == 2 {
        '2'
    } else if n == 3 {
        '3'
    } else if n == 4 {
        '4'
    } else if n == 5 {
        '5'
    } else if n == 6 {
        '6'
    } else if n == 7 {
        '7'
    } else if n == 8 {
        '8'
    } else if n == 9 {
        '9'
    } else if n == 10 {
        'a'
    } else if n == 11 {
        'b'
    } else if n == 12 {
        'c'
    } else if n == 13 {
        'd'
    } else if n == 14 {
        'e'
    } else {
        'f'
    }
}

/// Dividing by a base makes a number smaller.
pub proof fn lemma_quotient_smaller(n: nat, base: nat)
    requires
        base >= 2,
        n >= base,
    ensures
        n / base < n,
{
    assert(n / base < n) by (nonlinear_arith)
        requires
            base >= 2,
            n >= base,
    ;
}

/// The numeral of `n` in the given base, without leading zeros.
pub open spec fn numeral(n: nat, base: nat) -> Seq<char>
    decreases n,
{
    if base < 2 || n < base {
        seq![digit_char(n)]
    } else {
        proof {
            lemma_quotient_smaller(n, base);
        }
        numeral(n / base, base).push(digit_char(n % base))
    }
}

/// The decimal numeral of `n`.
pub open spec fn decimal(n: nat) -> Seq<char> {
    numeral(n, 10)
}

/// The decimal numeral of `n`, with a minus sign for a negative number.
pub open spec fn signed_decimal(n: int) -> Seq<char> {
    if n < 0 {
        seq!['-'] + decimal((-n) as nat)
    } else {
        decimal(n as nat)
    }
}

fn digit_text(n: u128) -> (r: &'static str)
    requires
        n < 16,
    ensures
        r@ == seq![digit_char(n as nat)],
{
    proof {
        reveal_strlit("0");
        reveal_strlit("1");
        reveal_strlit("2");
        reveal_strlit("3");
        reveal_strlit("4");
        reveal_strlit("5");
        reveal_strlit("6");
        reveal_strlit("7");
        reveal_strlit("8");
        reveal_strlit("9");
        reveal_strlit("a");
        reveal_strlit("b");
        reveal_strlit("c");
        reveal_strlit("d");
        reveal_strlit("e");
        reveal_strlit("f");
    }
    let r = if n == 0 {
        "0"
    } else if n == 1 {
        "1"
    } else if n == 2 {
        "2"
    } else if n == 3 {
        "3"
    } else if n == 4 {
        "4"
    } else if n == 5 {
        "5"
    } else if n == 6 {
        "6"
    } else if n == 7 {
        "7"
    } else if n == 8 {
        "8"
    } else if n == 9 {
        "9"
    } else if n == 10 {
        "a"
    } else if n == 11 {
        "b"
    } else if n == 12 {
        "c"
    } else if n == 13 {
        "d"
    } else if n == 14 {
        "e"
    } else {
        "f"
    };
    assert(r@ =~= seq![digit_char(n as nat)]);
    r
}

/// Writes `n` in the given base.
pub fn numeral_text(n: u128, base: u128) -> (r: String)
    requires
        2 <= base <= 16,
    ensures
        r@ == numeral(n as nat, base as nat),
    decreases n,
{
    if n < base {
        String::from_str(digit_text(n))
    } else {
        proof {
            lemma_quotient_smaller(n as nat, base as nat);
        }
        let mut r = numeral_text(n / base, base);
        let ghost head = r@;
        r.append(digit_text(n % base));
        assert(r@ =~= head.push(digit_char((n % base) as nat)));
        r
    }
}

/// Writes `n` in decimal.
pub fn decimal_text(n: u64) -> (r: String)
    ensures
        r@ == decimal(n as nat),
{
    numeral_text(n as u128, 10)
}

/// Writes `n` in decimal, with its sign.
pub fn signed_decimal_text(n: i64) -> (r: String)
    ensures
        r@ == signed_decimal(n as int),
{
    if n < 0 {
        proof {
            reveal_strlit("-");
        }
        let mut r = String::from_str("-");
        let magnitude: u64 = if n == i64::MIN {
            0x8000_0000_0000_0000
        } else {
            (-n) as u64
        };
        r.append(decimal_text(magnitude).as_str());
        assert("-"@ =~= seq!['-']);
        r
    } else {
        decimal_text(n as u64)
    }
}

/// Whether `needle` occurs in `hay` at position `at`.
pub open spec fn occurs_at(hay: Seq<char>, needle: Seq<char>, at: int) -> bool {
    0 <= at && at + needle.len() <= hay.len() && hay.subrange(at, at + needle.len()) == needle
}

/// Whether `needle` occurs in `hay`.
pub open spec fn contains_text(hay: Seq<char>, needle: Seq<char>) -> bool {
    exists|at: int| occurs_at(hay, needle, at)
}

/// Whether `needle` occurs in `hay`.
pub fn str_contains(hay: &str, needle: &str) -> (r: bool)
    ensures
        r == contains_text(hay@, needle@),
{
    let h = chars_of(hay);
    let n = chars_of(needle);
    if n.len() > h.len() {
        return false;
    }
    let last: usize = h.len() - n.len();
    let mut at: usize = 0;
    while at <= last
        invariant
            h@ == hay@,
            n@ == needle@,
            last == h.len() - n.len(),
            at <= last + 1,
            forall|k: int| 0 <= k < at ==> !occurs_at(hay@, needle@, k),
        decreases last + 1 - at,
    {
        let mut i: usize = 0;
        while i < n.len() && h[at + i] == n[i]
            invariant
                h@ == hay@,
                n@ == needle@,
                last == h.len() - n.len(),
                at <= last,
                i <= n.len(),
                forall|k: int| 0 <= k < i ==> h[at + k] == n[k],
            decreases n.len() - i,
        {
            i = i + 1;
        }
        if i == n.len() {
            assert(hay@.subrange(at as int, at + needle@.len()) =~= needle@);
            assert(occurs_at(hay@, needle@, at as int));
            return true;
        }
        assert(!occurs_at(hay@, needle@, at as int)) by {
            assert(hay@.subrange(at as int, at + needle@.len())[i as int] == h[at + i]);
        }
        if at == last {
            return false;
        }
        at = at + 1;
    }
    false
}

/// A numeral has at most `k` digits where the number is below the base to the power `k`.
pub proof fn lemma_numeral_len(n: nat, base: nat, k: nat)
    requires
        base >= 2,
        k >= 1,
        n < vstd::arithmetic::power::pow(base as int, k),
    ensures
        1 <= numeral(n, base).len() <= k,
    decreases k,
{
    if n >= base {
        if k == 1 {
            vstd::arithmetic::power::lemma_pow1(base as int);
        } else {
            let p = vstd::arithmetic::power::pow(base as int, (k - 1) as nat);
            reveal(vstd::arithmetic::power::pow);
            assert(vstd::arithmetic::power::pow(base as int, k) == base * p);
            assert(n / base < p) by (nonlinear_arith)
                requires
                    n < base * p,
                    base >= 2,
            ;
            lemma_numeral_len(n / base, base, (k - 1) as nat);
        }
    }
}

/// The part of a text between two places.
pub fn slice_text(text: &str, from: usize, to: usize) -> (r: String)
    requires
        from <= to <= text@.len(),
    ensures
        r@ == text@.subrange(from as int, to as int),
{
    String::from_str(text.substring_char(from, to))
}

/// Whether a character is white space: the characters with the property `White_Space`.
pub open spec fn white(c: char) -> bool {
    ||| '\u{9}' <= c <= '\u{d}'
    ||| c == ' '
    ||| c == '\u{85}'
    ||| c == '\u{a0}'
    ||| c == '\u{1680}'
    ||| '\u{2000}' <= c <= '\u{200a}'
    ||| c == '\u{2028}'
    ||| c == '\u{2029}'
    ||| c == '\u{202f}'
    ||| c == '\u{205f}'
    ||| c == '\u{3000}'
}

/// Whether a character is white space.
pub fn is_white(c: char) -> (r: bool)
    ensures
        r == white(c),
{
    ('\u{9}' <= c && c <= '\u{d}') || c == ' ' || c == '\u{85}' || c == '\u{a0}' || c == '\u{1680}'
        || ('\u{2000}' <= c && c <= '\u{200a}') || c == '\u{2028}' || c == '\u{2029}' || c
        == '\u{202f}' || c == '\u{205f}' || c == '\u{3000}'
}

/// The place behind the white space that begins at a place.
pub open spec fn after_white(text: Seq<char>, from: int) -> int
    decreases text.len() - from,
{
    if from < 0 || from >= text.len() || !white(text[from]) {
        from
    } else {
        after_white(text, from + 1)
    }
}

/// The place behind the word that begins at a place.
pub open spec fn after_word(text: Seq<char>, from: int) -> int
    decreases text.len() - from,
{
    if from < 0 || from >= text.len() || white(text[from]) {
        from
    } else {
        after_word(text, from + 1)
    }
}

/// The words from a place on, between white space.
pub open spec fn words_from(text: Seq<char>, from: int) -> Seq<Seq<char>>
    decreases text.len() - from,
{
    let start = after_white(text, from);
    if from < 0 || start < from || start >= text.len() {
        Seq::empty()
    } else {
        let end = after_word(text, start);
        if end <= start || end > text.len() {
            Seq::empty()
        } else {
            seq![text.subrange(start, end)] + words_from(text, end)
        }
    }
}

proof fn lemma_after(text: Seq<char>, from: int)
    requires
        0 <= from <= text.len(),
    ensures
        from <= after_white(text, from) <= text.len(),
        after_white(text, from) < text.len() ==> !white(text[after_white(text, from)]),
        from <= after_word(text, from) <= text.len(),
        from < text.len() && !white(text[from]) ==> after_word(text, from) > from,
    decreases text.len() - from,
{
    if from < text.len() {
        lemma_after(text, from + 1);
    }
}

/// The words of a text, between white space.
pub fn split_words(text: &str) -> (r: Vec<String>)
    ensures
        crate::sequences::views(r@) == words_from(text@, 0),
{
    let chars = chars_of(text);
    let ghost all = text@;
    let mut words: Vec<String> = Vec::new();
    let mut i: usize = 0;
    assert(crate::sequences::views(words@) + words_from(all, 0) =~= words_from(all, 0));
    while i < chars.len()
        invariant
            chars@ == all,
            all == text@,
            i <= chars.len(),
            crate::sequences::views(words@) + words_from(all, i as int) == words_from(all, 0),
        decreases chars.len() - i,
    {
        let begin = i;
        proof {
            lemma_after(all, begin as int);
        }
        while i < chars.len() && is_white(chars[i])
            invariant
                chars@ == all,
                begin <= i <= chars.len(),
                after_white(all, begin as int) == after_white(all, i as int),
            decreases chars.len() - i,
        {
            i = i + 1;
        }
        let start = i;
        if start == chars.len() {
            assert(words_from(all, begin as int) =~= Seq::<Seq<char>>::empty());
            assert(words_from(all, i as int) =~= Seq::<Seq<char>>::empty());
        } else {
            proof {
                lemma_after(all, start as int);
            }
            while i < chars.len() && !is_white(chars[i])
                invariant
                    chars@ == all,
                    start <= i <= chars.len(),
                    after_word(all, start as int) == after_word(all, i as int),
                decreases chars.len() - i,
            {
                i = i + 1;
            }
            let ghost before = crate::sequences::views(words@);
            let word = slice_text(text, start, i);
            proof {
                crate::sequences::lemma_views_push(words@, word);
            }
            words.push(word);
            proof {
                let rest = words_from(all, i as int);
                assert(words_from(all, begin as int) == seq![word@] + rest);
                assert(before.push(word@) + rest =~= before + (seq![word@] + rest));
            }
        }
    }
    proof {
        assert(words_from(all, i as int) =~= Seq::<Seq<char>>::empty());
        assert(crate::sequences::views(words@) + words_from(all, i as int)
            =~= crate::sequences::views(words@));
    }
    words
}

/// The place before which the text of length `n` ends in white space only.
pub open spec fn before_white(text: Seq<char>, n: int) -> int
    decreases n,
{
    if n <= 0 || !white(text[n - 1]) {
        n
    } else {
        before_white(text, n - 1)
    }
}

/// A text without the white space at its two ends.
pub open spec fn trimmed(text: Seq<char>) -> Seq<char> {
    let start = after_white(text, 0);
    let end = before_white(text, text.len() as int);
    if start >= end {
        Seq::empty()
    } else {
        text.subrange(start, end)
    }
}

/// A text without the white space at its two ends.
pub fn trim_text(text: &str) -> (r: String)
    ensures
        r@ == trimmed(text@),
{
    let chars = chars_of(text);
    let mut start: usize = 0;
    while start < chars.len() && is_white(chars[start])
        invariant
            chars@ == text@,
            start <= chars.len(),
            after_white(text@, 0) == after_white(text@, start as int),
        decreases chars.len() - start,
    {
        start = start + 1;
    }
    let mut end: usize = chars.len();
    while end > 0 && is_white(chars[end - 1])
        invariant
            chars@ == text@,
            end <= chars.len(),
            before_white(text@, text@.len() as int) == before_white(text@, end as int),
        decreases end,
    {
        end = end - 1;
    }
    if start >= end {
        String::new()
    } else {
        slice_text(text, start, end)
    }
}

// ---------------------------------------------------------------------------
// Lines

/// The place of the next end of line at or behind a place, or the end of the text.
pub open spec fn line_end(text: Seq<char>, from: int) -> int
    decreases text.len() - from,
{
    if from < 0 || from >= text.len() || text[from] == '\n' {
        from
    } else {
        line_end(text, from + 1)
    }
}

/// A line without its end: a carriage return before a line feed belongs to the end.
pub open spec fn line_text(text: Seq<char>, from: int, end: int) -> Seq<char> {
    if end < text.len() && from < end && text[end - 1] == '\r' {
        text.subrange(from, end - 1)
    } else {
        text.subrange(from, end)
    }
}

/// The lines of a text from a place on.
pub open spec fn lines_from(text: Seq<char>, from: int) -> Seq<Seq<char>>
    decreases text.len() - from,
{
    if from < 0 || from >= text.len() {
        Seq::empty()
    } else {
        let end = line_end(text, from);
        if end < from || end >= text.len() {
            seq![line_text(text, from, end)]
        } else {
            seq![line_text(text, from, end)] + lines_from(text, end + 1)
        }
    }
}

/// The end of a line lies behind its beginning and within the text.
pub proof fn lemma_line_end(text: Seq<char>, from: int)
    requires
        0 <= from <= text.len(),
    ensures
        from <= line_end(text, from) <= text.len(),
        line_end(text, from) < text.len() ==> text[line_end(text, from)] == '\n',
        forall|i: int| from <= i < line_end(text, from) ==> text[i] != '\n',
    decreases text.len() - from,
{
    if from < text.len() {
        lemma_line_end(text, from + 1);
    }
}

/// The lines of a text from a place on.
pub fn split_lines(text: &str, from: usize) -> (r: Vec<String>)
    requires
        from <= text@.len(),
    ensures
        crate::sequences::views(r@) == lines_from(text@, from as int),
{
    let chars = chars_of(text);
    let ghost all = text@;
    let mut lines: Vec<String> = Vec::new();
    let mut i: usize = from;
    let mut done = from == chars.len();
    assert(crate::sequences::views(lines@) + lines_from(all, from as int) =~= lines_from(
        all,
        from as int,
    ));
    while !done
        invariant
            chars@ == all,
            all == text@,
            i <= chars.len(),
            done ==> lines_from(all, i as int) == Seq::<Seq<char>>::empty(),
            !done ==> i < chars.len(),
            crate::sequences::views(lines@) + lines_from(all, i as int) == lines_from(
                all,
                from as int,
            ),
        decreases
            chars.len() - i,
            if done {
                0int
            } else {
                1int
            },
    {
        let begin = i;
        proof {
            lemma_line_end(all, begin as int);
        }
        let mut end = i;
        while end < chars.len() && chars[end] != '\n'
            invariant
                chars@ == all,
                begin <= end <= chars.len(),
                line_end(all, begin as int) == line_end(all, end as int),
            decreases chars.len() - end,
        {
            end = end + 1;
        }
        let cut = if end < chars.len() && begin < end && chars[end - 1] == '\r' {
            end - 1
        } else {
            end
        };
        let line = slice_text(text, begin, cut);
        let ghost before = crate::sequences::views(lines@);
        proof {
            crate::sequences::lemma_views_push(lines@, line);
            let rest = if end < all.len() {
                lines_from(all, end + 1)
            } else {
                Seq::empty()
            };
            assert(lines_from(all, begin as int) =~= seq![line@] + rest);
            assert(before.push(line@) + rest =~= before + (seq![line@] + rest));
        }
        lines.push(line);
        if end == chars.len() {
            i = end;
            done = true;
            assert(lines_from(all, end as int) =~= Seq::<Seq<char>>::empty());
        } else {
            i = end + 1;
            done = i == chars.len();
        }
    }
    assert(crate::sequences::views(lines@) + lines_from(all, i as int) =~= crate::sequences::views(
        lines@,
    ));
    lines
}

// ---------------------------------------------------------------------------
// Joining

/// The first texts of a list with a separator between each two.
pub open spec fn joined_first(parts: Seq<Seq<char>>, separator: Seq<char>, n: int) -> Seq<char>
    decreases n,
{
    if n <= 0 {
        Seq::empty()
    } else if n == 1 {
        parts[0]
    } else {
        joined_first(parts, separator, n - 1) + separator + parts[n - 1]
    }
}

/// The texts of a list with a separator between each two.
pub open spec fn joined_text(parts: Seq<Seq<char>>, separator: Seq<char>) -> Seq<char> {
    joined_first(parts, separator, parts.len() as int)
}

/// The texts of a list with a separator between each two.
pub fn join_texts(parts: &Vec<String>, separator: &str) -> (r: String)
    ensures
        r@ == joined_text(crate::sequences::views(parts@), separator@),
{
    let ghost all = crate::sequences::views(parts@);
    let mut text = String::new();
    let mut i: usize = 0;
    assert(text@ =~= joined_first(all, separator@, 0));
    while i < parts.len()
        invariant
            i <= parts.len(),
            all == crate::sequences::views(parts@),
            text@ == joined_first(all, separator@, i as int),
        decreases parts.len() - i,
    {
        assert(all[i as int] == parts@[i as int]@);
        if i > 0 {
            text.append(separator);
        }
        text.append(parts[i].as_str());
        assert(text@ =~= joined_first(all, separator@, i + 1));
        i = i + 1;
    }
    text
}

// ---------------------------------------------------------------------------
// Reading numbers

/// Whether a character is a decimal digit.
pub open spec fn is_digit(c: char) -> bool {
    '0' <= c <= '9'
}

/// The value of the first `n` digits of a text.
pub open spec fn digits_value(text: Seq<char>, n: int) -> nat
    decreases n,
{
    if n <= 0 {
        0
    } else {
        digits_value(text, n - 1) * 10 + (text[n - 1] as nat - '0' as nat) as nat
    }
}

/// The digits of a number: all of it but for a plus sign in front.
pub open spec fn digits_of(text: Seq<char>) -> Seq<char> {
    if text.len() > 0 && text[0] == '+' {
        text.skip(1)
    } else {
        text
    }
}

/// The number that a text of decimal digits stands for, if it fits.
pub open spec fn parsed_number(text: Seq<char>) -> Option<u64> {
    let digits = digits_of(text);
    if digits.len() == 0 || exists|i: int| 0 <= i < digits.len() && !is_digit(
        #[trigger] digits[i],
    ) {
        None
    } else if digits_value(digits, digits.len() as int) > u64::MAX {
        None
    } else {
        Some(digits_value(digits, digits.len() as int) as u64)
    }
}

proof fn lemma_digits_value_grows(text: Seq<char>, n: int, m: int)
    requires
        0 <= n <= m <= text.len(),
    ensures
        digits_value(text, n) <= digits_value(text, m),
    decreases m,
{
    if n < m {
        lemma_digits_value_grows(text, n, m - 1);
    }
}

/// Reads a number: decimal digits with an optional plus sign in front.
pub fn parse_number(text: &str) -> (r: Option<u64>)
    ensures
        r == parsed_number(text@),
{
    let chars = chars_of(text);
    let count = chars.len();
    let skipped: usize = if count > 0 && chars[0] == '+' {
        1
    } else {
        0
    };
    let ghost digits = digits_of(text@);
    assert(digits =~= text@.skip(skipped as int));
    if count == skipped {
        return None;
    }
    let mut k: usize = skipped;
    while k < count
        invariant
            chars@ == text@,
            count == chars.len(),
            skipped <= k <= count,
            digits == text@.skip(skipped as int),
            digits == digits_of(text@),
            forall|i: int| 0 <= i < k - skipped ==> is_digit(#[trigger] digits[i]),
        decreases count - k,
    {
        let c = chars[k];
        assert(digits[k - skipped] == c);
        if !('0' <= c && c <= '9') {
            return None;
        }
        k = k + 1;
    }
    let mut value: u64 = 0;
    k = skipped;
    while k < count
        invariant
            chars@ == text@,
            count == chars.len(),
            skipped <= k <= count,
            digits == text@.skip(skipped as int),
            digits == digits_of(text@),
            digits.len() > 0,
            forall|i: int| 0 <= i < digits.len() ==> is_digit(#[trigger] digits[i]),
            value == digits_value(digits, k - skipped),
        decreases count - k,
    {
        let c = chars[k];
        assert(digits[k - skipped] == c);
        let digit: u64 = c as u64 - '0' as u64;
        proof {
            lemma_digits_value_grows(digits, k - skipped + 1, digits.len() as int);
        }
        if value > (u64::MAX - digit) / 10 {
            return None;
        }
        value = value * 10 + digit;
        k = k + 1;
    }
    Some(value)
}

// ---------------------------------------------------------------------------
// Laws

proof fn lemma_less_from(a: Seq<char>, b: Seq<char>, i: int, k: int)
    requires
        0 <= i <= k,
        k <= a.len(),
        k <= b.len(),
        forall|j: int| i <= j < k ==> a[j] == b[j],
    ensures
        less_from(a, b, i) == less_from(a, b, k),
    decreases k - i,
{
    if i < k {
        lemma_less_from(a, b, i + 1, k);
    }
}

/// Texts are ordered as in a dictionary: by the first character in which they differ, and a text
/// comes before what begins with it and goes on.
pub proof fn law_texts_are_ordered_as_in_a_dictionary(a: Seq<char>, b: Seq<char>, k: int)
    requires
        0 <= k <= a.len(),
        k <= b.len(),
        forall|j: int| 0 <= j < k ==> a[j] == b[j],
    ensures
        k < a.len() && k < b.len() && a[k] != b[k] ==> (text_less(a, b) <==> (a[k] as int) < (
        b[k] as int)),
        k == a.len() ==> (text_less(a, b) <==> a.len() < b.len()),
        k == b.len() ==> !text_less(a, b),
{
    lemma_less_from(a, b, 0, k);
}

/// What a digit stands for.
pub open spec fn digit_value(c: char) -> int {
    if '0' <= c <= '9' {
        c as int - '0' as int
    } else {
        c as int - 'a' as int + 10
    }
}

/// The number that a numeral stands for.
pub open spec fn numeral_value(text: Seq<char>, base: int) -> int
    decreases text.len(),
{
    if text.len() == 0 {
        0
    } else {
        numeral_value(text.drop_last(), base) * base + digit_value(text.last())
    }
}

/// A number can be read back from its numeral, which begins with no zero unless it is zero.
pub proof fn law_numerals_are_read_back(n: nat, base: nat)
    requires
        2 <= base <= 16,
    ensures
        numeral_value(numeral(n, base), base as int) == n,
        numeral(n, base).len() > 0,
        n > 0 ==> numeral(n, base)[0] != '0',
    decreases n,
{
    reveal_with_fuel(numeral_value, 3);
    if n < base {
        assert(numeral(n, base).drop_last() =~= Seq::<char>::empty());
    } else {
        let rest = n / base;
        assert(rest < n && rest > 0 && n == rest * base + n % base) by (nonlinear_arith)
            requires
                n >= base,
                base >= 2,
                rest == n / base,
        ;
        law_numerals_are_read_back(rest, base);
        assert(numeral(n, base).drop_last() =~= numeral(rest, base));
    }
}

proof fn lemma_after_white(text: Seq<char>, from: int)
    requires
        0 <= from <= text.len(),
    ensures
        from <= after_white(text, from) <= text.len(),
        forall|i: int| from <= i < after_white(text, from) ==> white(#[trigger] text[i]),
        after_white(text, from) < text.len() ==> !white(text[after_white(text, from)]),
    decreases text.len() - from,
{
    if from < text.len() && white(text[from]) {
        lemma_after_white(text, from + 1);
    }
}

proof fn lemma_before_white(text: Seq<char>, n: int)
    requires
        0 <= n <= text.len(),
    ensures
        0 <= before_white(text, n) <= n,
        forall|i: int| before_white(text, n) <= i < n ==> white(#[trigger] text[i]),
        before_white(text, n) > 0 ==> !white(text[before_white(text, n) - 1]),
    decreases n,
{
    if n > 0 && white(text[n - 1]) {
        lemma_before_white(text, n - 1);
    }
}

/// A trimmed text is the text without the white characters at its ends: it begins and ends with
/// something else, and only white characters are left out.
pub proof fn law_trimming_leaves_out_white_ends(text: Seq<char>) -> (ends: (int, int))
    ensures
        0 <= ends.0 <= ends.1 <= text.len(),
        trimmed(text) == text.subrange(ends.0, ends.1),
        forall|i: int| 0 <= i < ends.0 ==> white(#[trigger] text[i]),
        forall|i: int| ends.1 <= i < text.len() ==> white(#[trigger] text[i]),
        trimmed(text).len() > 0 ==> !white(trimmed(text)[0]) && !white(trimmed(text).last()),
{
    lemma_after_white(text, 0);
    lemma_before_white(text, text.len() as int);
    let start = after_white(text, 0);
    let end = before_white(text, text.len() as int);
    if start >= end {
        assert(trimmed(text) =~= text.subrange(0, 0));
        assert forall|i: int| 0 <= i < text.len() implies white(#[trigger] text[i]) by {}
        (0, 0)
    } else {
        (start, end)
    }
}

/// Texts are joined in order, with the separator between each two and nowhere else.
pub proof fn law_texts_are_joined_in_order(
    parts: Seq<Seq<char>>,
    last: Seq<char>,
    separator: Seq<char>,
)
    ensures
        joined_text(Seq::empty(), separator) == Seq::<char>::empty(),
        joined_text(seq![last], separator) == last,
        parts.len() > 0 ==> joined_text(parts.push(last), separator) == joined_text(
            parts,
            separator,
        ) + separator + last,
{
    reveal_with_fuel(joined_first, 3);
    assert(joined_text(seq![last], separator) =~= last);
    if parts.len() > 0 {
        lemma_joined_prefix(parts, last, separator, parts.len() as int);
        assert(joined_text(parts.push(last), separator) =~= joined_text(parts, separator)
            + separator + last);
    }
}

proof fn lemma_joined_prefix(
    parts: Seq<Seq<char>>,
    last: Seq<char>,
    separator: Seq<char>,
    n: int,
)
    requires
        n <= parts.len(),
    ensures
        joined_first(parts.push(last), separator, n) == joined_first(parts, separator, n),
    decreases n,
{
    if n > 0 {
        lemma_joined_prefix(parts, last, separator, n - 1);
    }
}

/// The digits of a decimal are digits, and they are worth the number.
pub proof fn lemma_numeral_digits(n: nat)
    ensures
        forall|i: int| 0 <= i < decimal(n).len() ==> is_digit(#[trigger] decimal(n)[i]),
        digits_value(decimal(n), decimal(n).len() as int) == n,
        decimal(n).len() > 0,
    decreases n,
{
    let text = decimal(n);
    if n < 10 {
        assert(text =~= seq![digit_char(n)]);
        reveal_with_fuel(digits_value, 2);
    } else {
        let rest = decimal(n / 10);
        lemma_numeral_digits(n / 10);
        assert(text == rest.push(digit_char(n % 10)));
        lemma_digits_prefix(rest, digit_char(n % 10), rest.len() as int);
        assert forall|i: int| 0 <= i < text.len() implies is_digit(#[trigger] text[i]) by {
            if i < rest.len() {
                assert(text[i] == rest[i]);
            }
        }
    }
}

proof fn lemma_digits_prefix(text: Seq<char>, last: char, n: int)
    requires
        n <= text.len(),
    ensures
        digits_value(text.push(last), n) == digits_value(text, n),
    decreases n,
{
    if n > 0 {
        lemma_digits_prefix(text, last, n - 1);
    }
}

/// A number is read from its decimal digits.
pub proof fn law_decimals_are_parsed(n: u64)
    ensures
        parsed_number(decimal(n as nat)) == Some(n),
{
    let text = decimal(n as nat);
    lemma_numeral_digits(n as nat);
    assert(is_digit(text[0]));
    assert(digits_of(text) == text);
}

} // verus!
