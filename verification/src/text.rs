//! Text helpers: views of nested values, trimming, line splitting and number formatting.
use vstd::prelude::*;

verus! {

/// The views of the elements of a sequence.
pub open spec fn views<T: View>(s: Seq<T>) -> Seq<T::V> {
    s.map_values(|t: T| t@)
}

/// The view of the value of an option.
pub open spec fn opt_view<T: View>(o: Option<T>) -> Option<T::V> {
    match o {
        Some(t) => Some(t@),
        None => None,
    }
}

/// The views of both sides of a result.
pub open spec fn res_view<T: View, E: View>(r: Result<T, E>) -> Result<T::V, E::V> {
    match r {
        Ok(t) => Ok(t@),
        Err(e) => Err(e@),
    }
}

pub proof fn lemma_views_push<T: View>(s: Seq<T>, t: T)
    ensures
        views(s.push(t)) == views(s).push(t@),
{
    assert(views(s.push(t)) =~= views(s).push(t@));
}

/// `s` without the leading and trailing characters that satisfy `drop`.
pub open spec fn trimmed(s: Seq<char>, drop: spec_fn(char) -> bool) -> Seq<char>
    decreases s.len(),
{
    if s.len() == 0 {
        s
    } else if drop(s[0]) {
        trimmed(s.skip(1), drop)
    } else if drop(s.last()) {
        trimmed(s.drop_last(), drop)
    } else {
        s
    }
}

/// The characters of `s`.
pub fn to_chars(s: &str) -> (r: Vec<char>)
    ensures
        r@ == s@,
{
    let mut out: Vec<char> = Vec::new();
    for c in it: s.chars()
        invariant
            it.seq() == s@,
            out@ == s@.take(it.index() as int),
    {
        out.push(c);
        assert(out@ =~= s@.take(it.index() + 1));
    }
    assert(out@ =~= s@);
    out
}

/// Trimming from the front drops a run of leading characters one by one.
proof fn lemma_trim_front(s: Seq<char>, drop: spec_fn(char) -> bool, a: int)
    requires
        0 <= a <= s.len(),
        forall|i: int| 0 <= i < a ==> drop(#[trigger] s[i]),
    ensures
        trimmed(s, drop) == trimmed(s.skip(a), drop),
    decreases a,
{
    if a == 0 {
        assert(s.skip(0) =~= s);
    } else {
        assert forall|i: int| 0 <= i < a - 1 implies drop(#[trigger] s.skip(1)[i]) by {
            assert(s.skip(1)[i] == s[i + 1]);
        }
        lemma_trim_front(s.skip(1), drop, a - 1);
        assert(s.skip(1).skip(a - 1) =~= s.skip(a));
    }
}

/// Once the first character stays, trimming drops a run of trailing characters one by one.
proof fn lemma_trim_back(s: Seq<char>, drop: spec_fn(char) -> bool, n: int)
    requires
        0 <= n <= s.len(),
        n > 0 ==> !drop(s[0]) && !drop(s[n - 1]),
        forall|i: int| n <= i < s.len() ==> drop(#[trigger] s[i]),
        s.len() > 0 ==> !drop(s[0]),
    ensures
        trimmed(s, drop) == s.take(n),
    decreases s.len(),
{
    if s.len() == n {
        assert(s.take(n) =~= s);
    } else {
        let t = s.drop_last();
        assert(t.take(n) =~= s.take(n));
        assert(n > 0) by {
            if n == 0 {
                assert(drop(s[0]));
            }
        }
        lemma_trim_back(t, drop, n);
    }
}

/// Cuts `s` down to the part between its first and last kept character; `gone` marks the
/// characters to drop.
fn cut<'a>(s: &'a str, gone: &Vec<bool>, Ghost(drop): Ghost<spec_fn(char) -> bool>) -> (r: &'a str)
    requires
        gone@.len() == s@.len(),
        forall|i: int| 0 <= i < s@.len() ==> gone@[i] == drop(#[trigger] s@[i]),
    ensures
        r@ == trimmed(s@, drop),
{
    let len: usize = gone.len();
    let mut a: usize = 0;
    while a < len && gone[a]
        invariant
            a <= len,
            len == gone@.len(),
            gone@.len() == s@.len(),
            forall|i: int| 0 <= i < s@.len() ==> gone@[i] == drop(#[trigger] s@[i]),
            forall|i: int| 0 <= i < a ==> drop(#[trigger] s@[i]),
        decreases len - a,
    {
        a = a + 1;
    }
    let mut b: usize = len;
    while b > a && gone[b - 1]
        invariant
            a <= b <= len,
            len == gone@.len(),
            gone@.len() == s@.len(),
            forall|i: int| 0 <= i < s@.len() ==> gone@[i] == drop(#[trigger] s@[i]),
            forall|i: int| b <= i < len ==> drop(#[trigger] s@[i]),
        decreases b,
    {
        b = b - 1;
    }
    proof {
        let t = s@.skip(a as int);
        lemma_trim_front(s@, drop, a as int);
        assert forall|i: int| b - a <= i < t.len() implies drop(#[trigger] t[i]) by {
            assert(t[i] == s@[i + a]);
        }
        lemma_trim_back(t, drop, b - a);
        assert(t.take(b - a) =~= s@.subrange(a as int, b as int));
    }
    s.substring_char(a, b)
}

/// Whether a character is a slash.
pub open spec fn slash() -> spec_fn(char) -> bool {
    |c: char| c == '/'
}

/// `s` without leading and trailing slashes.
pub fn trim_slashes(s: &str) -> (r: &str)
    ensures
        r@ == trimmed(s@, slash()),
{
    let chars = to_chars(s);
    let mut gone: Vec<bool> = Vec::new();
    let len: usize = chars.len();
    for i in 0..len
        invariant
            len == chars@.len(),
            gone@.len() == i,
            forall|j: int| 0 <= j < i ==> gone@[j] == (#[trigger] chars@[j] == '/'),
    {
        gone.push(chars[i] == '/');
    }
    cut(s, &gone, Ghost(slash()))
}

/// Characters with the Unicode property `White_Space`.
pub open spec fn white_space() -> spec_fn(char) -> bool {
    |c: char| is_white_space(c)
}

/// Whether `c` has the Unicode property `White_Space`.
pub open spec fn is_white_space(c: char) -> bool {
    ||| '\u{9}' <= c <= '\u{d}'
    ||| c == ' '
    ||| c == '\u{85}'
    ||| c == '\u{a0}'
    ||| c == '\u{1680}'
    ||| '\u{2000}' <= c <= '\u{200a}'
    ||| c == '\u{2028}'
    ||| c == '\u{2029}'
    ||| c == '\u{202f}'
    ||| c == '\u{205f}'
    ||| c == '\u{3000}'
}

/// `s` without leading and trailing white space.
pub fn trim(s: &str) -> (r: &str)
    ensures
        r@ == trimmed(s@, white_space()),
{
    let chars = to_chars(s);
    let mut gone: Vec<bool> = Vec::new();
    let len: usize = chars.len();
    for i in 0..len
        invariant
            len == chars@.len(),
            gone@.len() == i,
            forall|j: int| 0 <= j < i ==> gone@[j] == is_white_space(#[trigger] chars@[j]),
    {
        let c: char = chars[i];
        gone.push(
            ('\u{9}' <= c && c <= '\u{d}') || c == ' ' || c == '\u{85}' || c == '\u{a0}'
                || c == '\u{1680}' || ('\u{2000}' <= c && c <= '\u{200a}') || c == '\u{2028}'
                || c == '\u{2029}' || c == '\u{202f}' || c == '\u{205f}' || c == '\u{3000}',
        );
    }
    cut(s, &gone, Ghost(white_space()))
}

/// The position of the first line feed in `s`, or its length if there is none.
pub open spec fn line_end(s: Seq<char>) -> int
    decreases s.len(),
{
    if s.len() == 0 || s[0] == '\n' {
        0
    } else {
        1 + line_end(s.skip(1))
    }
}

/// `line` without a carriage return at its end.
pub open spec fn without_cr(line: Seq<char>) -> Seq<char> {
    if line.len() > 0 && line.last() == '\r' {
        line.drop_last()
    } else {
        line
    }
}

pub proof fn lemma_line_end(s: Seq<char>)
    ensures
        0 <= line_end(s) <= s.len(),
        forall|i: int| 0 <= i < line_end(s) ==> #[trigger] s[i] != '\n',
        line_end(s) < s.len() ==> s[line_end(s)] == '\n',
    decreases s.len(),
{
    if s.len() > 0 && s[0] != '\n' {
        lemma_line_end(s.skip(1));
        assert forall|i: int| 0 <= i < line_end(s) implies #[trigger] s[i] != '\n' by {
            if i > 0 {
                assert(s[i] == s.skip(1)[i - 1]);
            }
        }
    }
}

/// A position is the first line feed as soon as it is one and none comes before it.
pub proof fn lemma_line_end_is(s: Seq<char>, n: int)
    requires
        0 <= n <= s.len(),
        forall|i: int| 0 <= i < n ==> #[trigger] s[i] != '\n',
        n < s.len() ==> s[n] == '\n',
    ensures
        line_end(s) == n,
{
    lemma_line_end(s);
    let e = line_end(s);
    if e < n {
        assert(s[e] != '\n');
    } else if n < e {
        assert(s[n] != '\n');
    }
}

/// The lines of `s`. A line ends at a line feed, which a carriage return may precede; neither
/// belongs to the line. The last line needs no line feed, and then keeps a carriage return.
pub open spec fn lines(s: Seq<char>) -> Seq<Seq<char>>
    decreases s.len(),
    via lines_terminate
{
    if s.len() == 0 {
        Seq::empty()
    } else if line_end(s) == s.len() {
        seq![s]
    } else {
        seq![without_cr(s.take(line_end(s)))] + lines(s.skip(line_end(s) + 1))
    }
}

#[via_fn]
proof fn lines_terminate(s: Seq<char>) {
    lemma_line_end(s);
}

/// Whether `s` begins with `prefix`.
pub open spec fn has_prefix<T>(s: Seq<T>, prefix: Seq<T>) -> bool {
    s.len() >= prefix.len() && s.take(prefix.len() as int) == prefix
}

/// Whether `s` ends with `suffix`.
pub open spec fn has_suffix<T>(s: Seq<T>, suffix: Seq<T>) -> bool {
    s.len() >= suffix.len() && s.skip(s.len() - suffix.len()) == suffix
}

/// Whether the characters of `s` from `at` on begin with `word`, all before `end`.
pub fn word_at(s: &Vec<char>, at: usize, end: usize, word: &str) -> (r: bool)
    requires
        at <= end <= s@.len(),
    ensures
        r == has_prefix(s@.subrange(at as int, end as int), word@),
{
    let w = to_chars(word);
    let n: usize = w.len();
    let ghost part = s@.subrange(at as int, end as int);
    if end - at < n {
        return false;
    }
    for i in 0..n
        invariant
            at <= end <= s@.len(),
            n <= end - at,
            n == w@.len(),
            w@ == word@,
            part == s@.subrange(at as int, end as int),
            forall|j: int| 0 <= j < i ==> #[trigger] w@[j] == part[j],
    {
        if s[at + i] != w[i] {
            proof {
                assert(part[i as int] != w@[i as int]);
                assert(part.take(n as int)[i as int] != word@[i as int]);
            }
            return false;
        }
    }
    assert(part.take(n as int) =~= word@);
    true
}

/// The decimal digits of `n`, without leading zeros.
pub open spec fn decimal(n: nat) -> Seq<char>
    decreases n,
{
    if n < 10 {
        seq![digit_char(n)]
    } else {
        decimal(n / 10).push(digit_char(n % 10))
    }
}

/// The character of a digit below sixteen, in lower case.
pub open spec fn digit_char(d: nat) -> char {
    if d < 10 {
        (d + '0' as nat) as char
    } else {
        (d - 10 + 'a' as nat) as char
    }
}

/// Adds the character of a digit below sixteen to `out`.
pub fn push_digit(out: &mut String, d: u8)
    requires
        d < 16,
    ensures
        final(out)@ == old(out)@.push(digit_char(d as nat)),
{
    let ghost before = out@;
    proof {
        reveal_strlit("0");
        reveal_strlit("1");
        reveal_strlit("2");
        reveal_strlit("3");
        reveal_strlit("4");
        reveal_strlit("5");
        reveal_strlit("6");
        reveal_strlit("7");
        reveal_strlit("8");
        reveal_strlit("9");
        reveal_strlit("a");
        reveal_strlit("b");
        reveal_strlit("c");
        reveal_strlit("d");
        reveal_strlit("e");
        reveal_strlit("f");
    }
    let text: &str = match d {
        0 => "0",
        1 => "1",
        2 => "2",
        3 => "3",
        4 => "4",
        5 => "5",
        6 => "6",
        7 => "7",
        8 => "8",
        9 => "9",
        10 => "a",
        11 => "b",
        12 => "c",
        13 => "d",
        14 => "e",
        _ => "f",
    };
    out.append(text);
    assert(text@ =~= seq![digit_char(d as nat)]);
    assert(out@ =~= before.push(digit_char(d as nat)));
}

/// Adds the decimal digits of `n` to `out`.
pub fn push_decimal(out: &mut String, n: u64)
    ensures
        final(out)@ == old(out)@ + decimal(n as nat),
    decreases n,
{
    let ghost before = out@;
    if n >= 10 {
        push_decimal(out, n / 10);
        push_digit(out, (n % 10) as u8);
        assert(out@ =~= before + decimal(n as nat));
    } else {
        push_digit(out, n as u8);
        assert(out@ =~= before + decimal(n as nat));
    }
}

/// Whether two optional texts are the same.
pub fn same_text(a: &Option<String>, b: &Option<String>) -> (r: bool)
    ensures
        r == (opt_view(*a) == opt_view(*b)),
{
    match (a, b) {
        (Some(x), Some(y)) => *x == *y,
        (None, None) => true,
        _ => false,
    }
}

/// Whether two byte strings are the same.
pub fn same_bytes(a: &[u8], b: &[u8]) -> (r: bool)
    ensures
        r == (a@ == b@),
{
    let len: usize = a.len();
    if b.len() != len {
        return false;
    }
    for i in 0..len
        invariant
            len == a@.len(),
            len == b@.len(),
            forall|j: int| 0 <= j < i ==> a@[j] == b@[j],
    {
        if a[i] != b[i] {
            return false;
        }
    }
    assert(a@ =~= b@);
    true
}

/// Filtering goes through a sequence from its front.
pub proof fn lemma_filter_front<T>(s: Seq<T>, keep: spec_fn(T) -> bool)
    requires
        s.len() > 0,
    ensures
        s.filter(keep) == if keep(s[0]) {
            seq![s[0]] + s.skip(1).filter(keep)
        } else {
            s.skip(1).filter(keep)
        },
{
    let one = seq![s[0]];
    let rest = s.skip(1);
    assert(s =~= one + rest);
    Seq::filter_distributes_over_add(one, rest, keep);
    reveal_with_fuel(Seq::filter, 2);
    assert(one.drop_last() =~= Seq::empty());
    if keep(s[0]) {
        assert(one.filter(keep) =~= one);
    } else {
        assert(one.filter(keep) =~= Seq::empty());
        assert(s.filter(keep) =~= rest.filter(keep));
    }
}

/// Trimming takes away a run of dropped characters at either end and nothing else: what is left is
/// one piece of the text, everything outside of it is dropped, and it begins and ends with a
/// character that stays.
pub proof fn law_trimming_takes_the_ends_alone(s: Seq<char>, drop: spec_fn(char) -> bool) -> (r: (
    int,
    int,
))
    ensures
        0 <= r.0 <= r.1 <= s.len(),
        trimmed(s, drop) == s.subrange(r.0, r.1),
        forall|i: int| 0 <= i < r.0 ==> drop(#[trigger] s[i]),
        forall|i: int| r.1 <= i < s.len() ==> drop(#[trigger] s[i]),
        r.0 < r.1 ==> !drop(s[r.0]) && !drop(s[r.1 - 1]),
    decreases s.len(),
{
    if s.len() == 0 {
        assert(s.subrange(0, 0) =~= s);
        (0, 0)
    } else if drop(s[0]) {
        let t = s.skip(1);
        let (a, b) = law_trimming_takes_the_ends_alone(t, drop);
        assert(t.subrange(a, b) =~= s.subrange(a + 1, b + 1));
        assert forall|i: int| 0 <= i < a + 1 implies drop(#[trigger] s[i]) by {
            if i > 0 {
                assert(t[i - 1] == s[i]);
            }
        }
        assert forall|i: int| b + 1 <= i < s.len() implies drop(#[trigger] s[i]) by {
            assert(t[i - 1] == s[i]);
        }
        if a < b {
            assert(t[a] == s[a + 1] && t[b - 1] == s[b]);
        }
        (a + 1, b + 1)
    } else if drop(s.last()) {
        let t = s.drop_last();
        let (a, b) = law_trimming_takes_the_ends_alone(t, drop);
        assert(t.subrange(a, b) =~= s.subrange(a, b));
        assert forall|i: int| 0 <= i < a implies drop(#[trigger] s[i]) by {
            assert(t[i] == s[i]);
        }
        assert forall|i: int| b <= i < s.len() implies drop(#[trigger] s[i]) by {
            if i < t.len() {
                assert(t[i] == s[i]);
            }
        }
        if a < b {
            assert(t[a] == s[a] && t[b - 1] == s[b - 1]);
        }
        (a, b)
    } else {
        assert(s.subrange(0, s.len() as int) =~= s);
        (0, s.len() as int)
    }
}

/// Only a slash is a slash; white space is what Unicode lists under `White_Space`, by code point.
pub proof fn law_dropped_characters(c: char)
    ensures
        slash()(c) <==> c as u32 == 47,
        white_space()(c) <==> {
            let n = c as u32;
            ||| n == 9 || n == 10 || n == 11 || n == 12 || n == 13
            ||| n == 32 || n == 133 || n == 160 || n == 5760
            ||| 8192 <= n <= 8202
            ||| n == 8232 || n == 8233 || n == 8239 || n == 8287 || n == 12288
        },
{
}

/// A text is split at its first line feed: the line before it loses one carriage return at its
/// end, and the lines of the rest follow.
pub proof fn law_lines_are_split_at_line_feeds(line: Seq<char>, rest: Seq<char>)
    requires
        forall|i: int| 0 <= i < line.len() ==> #[trigger] line[i] != '\n',
    ensures
        lines(line + seq!['\n'] + rest) == seq![line] + lines(rest) || (line.len() > 0
            && line.last() == '\r'),
        lines(line + seq!['\r', '\n'] + rest) == seq![line] + lines(rest),
        line.len() > 0 ==> lines(line) == seq![line],
        lines(Seq::empty()).len() == 0,
{
    let s = line + seq!['\n'] + rest;
    lemma_line_end_is(s, line.len() as int);
    assert(s.take(line.len() as int) =~= line);
    assert(s.skip(line.len() as int + 1) =~= rest);
    let t = line + seq!['\r', '\n'] + rest;
    assert forall|i: int| 0 <= i < line.len() + 1 implies #[trigger] t[i] != '\n' by {
        if i < line.len() {
            assert(t[i] == line[i]);
        }
    }
    lemma_line_end_is(t, line.len() as int + 1);
    assert(t.take(line.len() as int + 1) =~= line.push('\r'));
    assert(line.push('\r').drop_last() =~= line);
    assert(t.skip(line.len() as int + 2) =~= rest);
    lemma_line_end_is(line, line.len() as int);
}

/// A text begins with a prefix exactly if it is the prefix and something after it, and ends with a
/// suffix exactly if it is something and the suffix after it.
pub proof fn law_prefixes_and_suffixes<T>(s: Seq<T>, part: Seq<T>, rest: Seq<T>)
    ensures
        has_prefix(part + rest, part),
        has_suffix(rest + part, part),
        has_prefix(s, part) ==> s == part + s.skip(part.len() as int),
        has_suffix(s, part) ==> s == s.take(s.len() - part.len()) + part,
{
    assert((part + rest).take(part.len() as int) =~= part);
    assert((rest + part).skip(rest.len() as int) =~= part);
    if has_prefix(s, part) {
        assert(s =~= s.take(part.len() as int) + s.skip(part.len() as int));
    }
    if has_suffix(s, part) {
        assert(s =~= s.take(s.len() - part.len()) + s.skip(s.len() - part.len()));
    }
}

/// The number that decimal digits say.
pub open spec fn value_of(digits: Seq<char>) -> int
    decreases digits.len(),
{
    if digits.len() == 0 {
        0
    } else {
        10 * value_of(digits.drop_last()) + (digits.last() as int - 48)
    }
}

/// Decimal digits say the number that was written, and no number begins with a zero but zero.
pub proof fn law_decimal_says_the_number(n: nat)
    ensures
        value_of(decimal(n)) == n,
        decimal(n).len() > 0,
        forall|i: int| 0 <= i < decimal(n).len() ==> 48 <= (#[trigger] decimal(n)[i]) as int <= 57,
        decimal(n)[0] as int == 48 ==> n == 0,
    decreases n,
{
    reveal_with_fuel(value_of, 2);
    if n >= 10 {
        let tens = decimal(n / 10);
        law_decimal_says_the_number(n / 10);
        assert(decimal(n).drop_last() =~= tens);
        assert(decimal(n)[0] == tens[0]);
        assert forall|i: int| 0 <= i < decimal(n).len() implies 48 <= (#[trigger] decimal(
            n,
        )[i]) as int <= 57 by {
            if i < tens.len() {
                assert(decimal(n)[i] == tens[i]);
            }
        }
    } else {
        assert(decimal(n).drop_last() =~= Seq::<char>::empty());
    }
}

/// The digits below sixteen, in their order.
pub proof fn law_hex_digits(d: nat)
    requires
        d < 16,
    ensures
        digit_char(d) == "0123456789abcdef"@[d as int],
{
    reveal_strlit("0123456789abcdef");
}

/// Taking views keeps every value: as many, in their order, and nothing becomes a failure or the
/// other way round.
pub proof fn law_views_keep_everything<T: View, E: View>(
    s: Seq<T>,
    o: Option<T>,
    r: Result<T, E>,
)
    ensures
        views(s).len() == s.len(),
        forall|i: int| 0 <= i < s.len() ==> #[trigger] views(s)[i] == s[i]@,
        opt_view(o) is Some <==> o is Some,
        o is Some ==> opt_view(o)->0 == o->0@,
        res_view(r) is Ok <==> r is Ok,
        r is Ok ==> res_view(r)->Ok_0 == r->Ok_0@,
        r is Err ==> res_view(r)->Err_0 == r->Err_0@,
{
}

} // verus!
