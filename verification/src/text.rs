//! Character-level reading of text: white space, trimming, searching,
//! splitting into words, and decimal numbers.

use vstd::prelude::*;

verus! {

/// White space as Unicode's `White_Space` property defines it; this is the
/// set that `char::is_whitespace`, `str::trim` and `str::split_whitespace` use.
pub open spec fn is_space(c: char) -> bool {
    ||| ('\u{9}' <= c && c <= '\u{d}')
    ||| c == ' '
    ||| c == '\u{85}'
    ||| c == '\u{a0}'
    ||| c == '\u{1680}'
    ||| ('\u{2000}' <= c && c <= '\u{200a}')
    ||| c == '\u{2028}'
    ||| c == '\u{2029}'
    ||| c == '\u{202f}'
    ||| c == '\u{205f}'
    ||| c == '\u{3000}'
}

/// A carriage return or a line feed.
pub open spec fn is_line_break(c: char) -> bool {
    c == '\r' || c == '\n'
}

/// `s` without the white space at its end.
pub open spec fn trim_end(s: Seq<char>) -> Seq<char>
    decreases s.len(),
{
    if s.len() > 0 && is_space(s.last()) {
        trim_end(s.drop_last())
    } else {
        s
    }
}

/// `s` without the white space at its start.
pub open spec fn trim_start(s: Seq<char>) -> Seq<char>
    decreases s.len(),
{
    if s.len() > 0 && is_space(s.first()) {
        trim_start(s.drop_first())
    } else {
        s
    }
}

/// `s` without the white space at either end.
pub open spec fn trim(s: Seq<char>) -> Seq<char> {
    trim_start(trim_end(s))
}

/// `s` without the carriage returns and line feeds at its end.
pub open spec fn trim_line_breaks(s: Seq<char>) -> Seq<char>
    decreases s.len(),
{
    if s.len() > 0 && is_line_break(s.last()) {
        trim_line_breaks(s.drop_last())
    } else {
        s
    }
}

/// The position of the last `c` in `s`, or -1 when `s` holds none.
pub open spec fn last_index_of(s: Seq<char>, c: char) -> int
    decreases s.len(),
{
    if s.len() == 0 {
        -1
    } else if s.last() == c {
        s.len() - 1
    } else {
        last_index_of(s.drop_last(), c)
    }
}

pub fn is_space_char(c: char) -> (b: bool)
    ensures
        b == is_space(c),
{
    ('\u{9}' <= c && c <= '\u{d}') || c == ' ' || c == '\u{85}' || c == '\u{a0}' || c == '\u{1680}'
        || ('\u{2000}' <= c && c <= '\u{200a}') || c == '\u{2028}' || c == '\u{2029}'
        || c == '\u{202f}' || c == '\u{205f}' || c == '\u{3000}'
}

/// The number of characters of `s` that remain once the white space at its
/// end is left out.
fn trimmed_end_len(s: &str) -> (n: usize)
    ensures
        n <= s@.len(),
        trim_end(s@) == s@.take(n as int),
{
    let mut n = s.unicode_len();
    proof {
        assert(s@.take(n as int) =~= s@);
    }
    loop
        invariant
            n <= s@.len(),
            trim_end(s@) == trim_end(s@.take(n as int)),
        decreases n,
    {
        if n == 0 {
            return n;
        }
        let c = s.get_char(n - 1);
        if !is_space_char(c) {
            return n;
        }
        proof {
            assert(s@.take(n as int).drop_last() =~= s@.take(n - 1));
        }
        n = n - 1;
    }
}

/// Leaves out the white space at the end of `s`, as `str::trim_end` does.
pub fn trim_end_str(s: &str) -> (t: &str)
    ensures
        t@ == trim_end(s@),
{
    let n = trimmed_end_len(s);
    proof {
        assert(s@.subrange(0, n as int) =~= s@.take(n as int));
    }
    s.substring_char(0, n)
}

/// Leaves out the white space at both ends of `s`, as `str::trim` does.
pub fn trim_str(s: &str) -> (t: &str)
    ensures
        t@ == trim(s@),
{
    let n = trimmed_end_len(s);
    let mut b: usize = 0;
    proof {
        assert(s@.subrange(0, n as int) =~= s@.take(n as int));
    }
    loop
        invariant
            b <= n <= s@.len(),
            trim(s@) == trim_start(s@.subrange(b as int, n as int)),
        ensures
            b <= n <= s@.len(),
            trim(s@) == s@.subrange(b as int, n as int),
        decreases n - b,
    {
        if b == n {
            break;
        }
        let c = s.get_char(b);
        if !is_space_char(c) {
            break;
        }
        proof {
            assert(s@.subrange(b as int, n as int).drop_first() =~= s@.subrange(b + 1, n as int));
        }
        b = b + 1;
    }
    s.substring_char(b, n)
}

/// Leaves out the carriage returns and line feeds at the end of `s`, as
/// `str::trim_end_matches(['\r', '\n'])` does.
pub fn trim_line_breaks_str(s: &str) -> (t: &str)
    ensures
        t@ == trim_line_breaks(s@),
{
    let mut n = s.unicode_len();
    proof {
        assert(s@.take(n as int) =~= s@);
    }
    loop
        invariant
            n <= s@.len(),
            trim_line_breaks(s@) == trim_line_breaks(s@.take(n as int)),
        ensures
            n <= s@.len(),
            trim_line_breaks(s@) == s@.take(n as int),
        decreases n,
    {
        if n == 0 {
            break;
        }
        let c = s.get_char(n - 1);
        if !(c == '\r' || c == '\n') {
            break;
        }
        proof {
            assert(s@.take(n as int).drop_last() =~= s@.take(n - 1));
        }
        n = n - 1;
    }
    proof {
        assert(s@.subrange(0, n as int) =~= s@.take(n as int));
    }
    s.substring_char(0, n)
}

/// The position of the last `c` in `s`, as `str::rfind` gives it but counted
/// in characters.
pub fn last_index_of_char(s: &str, c: char) -> (r: Option<usize>)
    ensures
        match r {
            Some(i) => i as int == last_index_of(s@, c) && i < s@.len(),
            None => last_index_of(s@, c) == -1,
        },
{
    let mut n = s.unicode_len();
    proof {
        assert(s@.take(n as int) =~= s@);
    }
    loop
        invariant
            n <= s@.len(),
            last_index_of(s@, c) == last_index_of(s@.take(n as int), c),
        decreases n,
    {
        if n == 0 {
            return None;
        }
        if s.get_char(n - 1) == c {
            return Some(n - 1);
        }
        proof {
            assert(s@.take(n as int).drop_last() =~= s@.take(n - 1));
        }
        n = n - 1;
    }
}

/// Whether `c` occurs in `s`.
pub fn contains_char(s: &str, c: char) -> (b: bool)
    ensures
        b == s@.contains(c),
{
    let n = s.unicode_len();
    let mut i: usize = 0;
    while i < n
        invariant
            n == s@.len(),
            i <= n,
            forall|j: int| 0 <= j < i ==> s@[j] != c,
        decreases n - i,
    {
        if s.get_char(i) == c {
            return true;
        }
        i = i + 1;
    }
    false
}


/// The character of the decimal digit `d`.
pub open spec fn digit_char(d: nat) -> char {
    if d == 0 {
        '0'
    } else if d == 1 {
        '1'
    } else if d == 2 {
        '2'
    } else if d == 3 {
        '3'
    } else if d == 4 {
        '4'
    } else if d == 5 {
        '5'
    } else if d == 6 {
        '6'
    } else if d == 7 {
        '7'
    } else if d == 8 {
        '8'
    } else {
        '9'
    }
}

/// `n` written in decimal, without leading zeros.
pub open spec fn decimal(n: nat) -> Seq<char>
    decreases n,
{
    if n < 10 {
        seq![digit_char(n)]
    } else {
        decimal(n / 10) + seq![digit_char(n % 10)]
    }
}

pub open spec fn is_ascii_digit(c: char) -> bool {
    '0' <= c && c <= '9'
}

pub open spec fn all_ascii_digits(s: Seq<char>) -> bool {
    forall|i: int| 0 <= i < s.len() ==> is_ascii_digit(#[trigger] s[i])
}

/// The number that the decimal digits `s` stand for.
pub open spec fn digits_value(s: Seq<char>) -> nat
    decreases s.len(),
{
    if s.len() == 0 {
        0
    } else {
        digits_value(s.drop_last()) * 10 + ((s.last() as int) - ('0' as int)) as nat
    }
}

/// What `str::parse::<u16>` accepts: an optional `+` followed by one or more
/// ASCII digits, whose value fits in a `u16`; nothing else, not even white
/// space.
pub open spec fn parse_u16(s: Seq<char>) -> Option<u16> {
    let digits = if s.len() > 0 && s[0] == '+' {
        s.drop_first()
    } else {
        s
    };
    if digits.len() > 0 && all_ascii_digits(digits) && digits_value(digits) <= u16::MAX {
        Some(digits_value(digits) as u16)
    } else {
        None
    }
}

proof fn lemma_digit_char_value(d: nat)
    requires
        d < 10,
    ensures
        (digit_char(d) as int) - ('0' as int) == d,
        is_ascii_digit(digit_char(d)),
{
}

/// The decimal digits of a number are digits, and read back as that number.
pub proof fn lemma_decimal_reads_back(n: nat)
    ensures
        decimal(n).len() > 0,
        all_ascii_digits(decimal(n)),
        digits_value(decimal(n)) == n,
        decimal(n)[0] != '+',
    decreases n,
{
    if n < 10 {
        lemma_digit_char_value(n);
        assert(decimal(n).drop_last() =~= Seq::<char>::empty());
        assert(digits_value(decimal(n).drop_last()) == 0);
        assert(decimal(n).last() == digit_char(n));
    } else {
        lemma_decimal_reads_back(n / 10);
        lemma_digit_char_value(n % 10);
        let d = decimal(n);
        assert(d.drop_last() =~= decimal(n / 10));
        assert(d.last() == digit_char(n % 10));
        assert(digits_value(d) == digits_value(decimal(n / 10)) * 10 + (n % 10));
        assert((n / 10) * 10 + n % 10 == n);
        assert(d[0] == decimal(n / 10)[0]);
        assert forall|i: int| 0 <= i < d.len() implies is_ascii_digit(#[trigger] d[i]) by {
            if i < d.len() - 1 {
                assert(d[i] == decimal(n / 10)[i]);
            }
        }
    }
}

/// The last `c` of `p + [c] + d` is the one after `p` when `d` holds no `c`.
pub proof fn lemma_last_index_before_suffix(p: Seq<char>, c: char, d: Seq<char>)
    requires
        !d.contains(c),
    ensures
        last_index_of(p + seq![c] + d, c) == p.len(),
    decreases d.len(),
{
    let s = p + seq![c] + d;
    if d.len() == 0 {
        assert(s.last() == c);
    } else {
        assert(s.last() == d.last());
        assert(d.last() != c) by {
            if d.last() == c {
                assert(d.contains(c) && d[d.len() - 1] == c);
            }
        }
        assert(!d.drop_last().contains(c)) by {
            if d.drop_last().contains(c) {
                let k = choose|k: int| 0 <= k < d.drop_last().len() && d.drop_last()[k] == c;
                assert(d[k] == c);
            }
        }
        lemma_last_index_before_suffix(p, c, d.drop_last());
        assert(s.drop_last() =~= p + seq![c] + d.drop_last());
    }
}

/// A decimal number never holds white space.
pub proof fn lemma_digits_not_space(s: Seq<char>)
    requires
        all_ascii_digits(s),
    ensures
        forall|i: int| 0 <= i < s.len() ==> !is_space(#[trigger] s[i]),
{
    assert forall|i: int| 0 <= i < s.len() implies !is_space(#[trigger] s[i]) by {
        assert(is_ascii_digit(s[i]));
    }
}

fn digit_text(d: u64) -> (t: &'static str)
    requires
        d < 10,
    ensures
        t@ == seq![digit_char(d as nat)],
{
    if d == 0 {
        proof { reveal_strlit("0"); }
        "0"
    } else if d == 1 {
        proof { reveal_strlit("1"); }
        "1"
    } else if d == 2 {
        proof { reveal_strlit("2"); }
        "2"
    } else if d == 3 {
        proof { reveal_strlit("3"); }
        "3"
    } else if d == 4 {
        proof { reveal_strlit("4"); }
        "4"
    } else if d == 5 {
        proof { reveal_strlit("5"); }
        "5"
    } else if d == 6 {
        proof { reveal_strlit("6"); }
        "6"
    } else if d == 7 {
        proof { reveal_strlit("7"); }
        "7"
    } else if d == 8 {
        proof { reveal_strlit("8"); }
        "8"
    } else {
        proof { reveal_strlit("9"); }
        "9"
    }
}

/// `n` written in decimal, as `Display` writes an unsigned integer.
pub fn decimal_text(n: u64) -> (t: String)
    ensures
        t@ == decimal(n as nat),
    decreases n,
{
    if n < 10 {
        String::from_str(digit_text(n))
    } else {
        let head = decimal_text(n / 10);
        head.concat(digit_text(n % 10))
    }
}


/// Where the word that starts at `i` ends: the first white space at or after
/// `i`, or the end of `s`.
pub open spec fn word_end(s: Seq<char>, i: int) -> int
    decreases s.len() - i,
{
    if 0 <= i < s.len() && !is_space(s[i]) {
        word_end(s, i + 1)
    } else {
        i
    }
}

pub proof fn lemma_word_end_bounds(s: Seq<char>, i: int)
    requires
        0 <= i <= s.len(),
    ensures
        i <= word_end(s, i) <= s.len(),
        i < s.len() && !is_space(s[i]) ==> i < word_end(s, i),
        forall|j: int| i <= j < word_end(s, i) ==> !is_space(#[trigger] s[j]),
        word_end(s, i) < s.len() ==> is_space(s[word_end(s, i)]),
    decreases s.len() - i,
{
    if i < s.len() && !is_space(s[i]) {
        lemma_word_end_bounds(s, i + 1);
    }
}

/// The words of `s` from position `i` on: its maximal runs of characters
/// that are not white space, in order.
pub open spec fn words_from(s: Seq<char>, i: int) -> Seq<Seq<char>>
    decreases s.len() - i,
{
    if i < 0 || i >= s.len() {
        seq![]
    } else if is_space(s[i]) {
        words_from(s, i + 1)
    } else {
        proof {
            lemma_word_end_bounds(s, i);
        }
        seq![s.subrange(i, word_end(s, i))] + words_from(s, word_end(s, i))
    }
}

/// A run of characters that are not white space, followed by white space or
/// the end, ends the word that starts where the run starts.
pub proof fn lemma_word_end_at(s: Seq<char>, i: int, e: int)
    requires
        0 <= i <= e <= s.len(),
        forall|j: int| i <= j < e ==> !is_space(#[trigger] s[j]),
        e == s.len() || is_space(s[e]),
    ensures
        word_end(s, i) == e,
    decreases e - i,
{
    if i < e {
        lemma_word_end_at(s, i + 1, e);
    }
}

/// When `s` holds the word `s[i..e]` there, its words from `i` on are that
/// word and the words after it.
pub proof fn lemma_words_from_word(s: Seq<char>, i: int, e: int)
    requires
        0 <= i < e <= s.len(),
        forall|j: int| i <= j < e ==> !is_space(#[trigger] s[j]),
        e == s.len() || is_space(s[e]),
    ensures
        words_from(s, i) == seq![s.subrange(i, e)] + words_from(s, e),
{
    lemma_word_end_at(s, i, e);
}

/// The words of `s`, as `str::split_whitespace` yields them.
pub open spec fn words(s: Seq<char>) -> Seq<Seq<char>> {
    words_from(s, 0)
}

/// Finds the next word of `s` at or after `from`: its start and its end.
pub fn next_word(s: &str, n: usize, from: usize) -> (r: Option<(usize, usize)>)
    requires
        n == s@.len(),
        from <= n,
    ensures
        match r {
            None => words_from(s@, from as int) == Seq::<Seq<char>>::empty(),
            Some((b, e)) => {
                &&& from <= b < e <= n
                &&& words_from(s@, from as int) == seq![s@.subrange(b as int, e as int)]
                    + words_from(s@, e as int)
            },
        },
{
    let mut i = from;
    while i < n && is_space_char(s.get_char(i))
        invariant
            n == s@.len(),
            from <= i <= n,
            words_from(s@, from as int) == words_from(s@, i as int),
        decreases n - i,
    {
        i = i + 1;
    }
    if i == n {
        return None;
    }
    let b = i;
    i = i + 1;
    while i < n && !is_space_char(s.get_char(i))
        invariant
            n == s@.len(),
            b < i <= n,
            !is_space(s@[b as int]),
            word_end(s@, b as int) == word_end(s@, i as int),
        decreases n - i,
    {
        i = i + 1;
    }
    Some((b, i))
}

/// Whether `a` and `b` hold the same characters.
pub fn same_text(a: &str, b: &str) -> (r: bool)
    ensures
        r == (a@ == b@),
{
    let n = a.unicode_len();
    if n != b.unicode_len() {
        return false;
    }
    let mut i: usize = 0;
    while i < n
        invariant
            n == a@.len(),
            n == b@.len(),
            i <= n,
            forall|j: int| 0 <= j < i ==> a@[j] == b@[j],
        decreases n - i,
    {
        if a.get_char(i) != b.get_char(i) {
            return false;
        }
        i = i + 1;
    }
    proof {
        assert(a@ =~= b@);
    }
    true
}

} // verus!
