use vstd::prelude::*;
use vstd::string::*;

verus! {

/// Relies on `String::push`: the character is appended at the end.
pub assume_specification[ std::string::String::push ](string: &mut std::string::String, ch: char)
    ensures
        final(string)@ == old(string)@.push(ch),
;

/// Unicode's `White_Space` property, which `char::is_whitespace` follows.
pub open spec fn is_white_space(c: char) -> bool {
    ||| '\t' <= c <= '\r'
    ||| c == ' '
    ||| c == '\u{85}'
    ||| c == '\u{a0}'
    ||| c == '\u{1680}'
    ||| '\u{2000}' <= c <= '\u{200a}'
    ||| c == '\u{2028}'
    ||| c == '\u{2029}'
    ||| c == '\u{202f}'
    ||| c == '\u{205f}'
    ||| c == '\u{3000}'
}

/// `s` without its leading white space.
pub open spec fn trim_start(s: Seq<char>) -> Seq<char>
    decreases s.len(),
{
    if s.len() > 0 && is_white_space(s[0]) {
        trim_start(s.drop_first())
    } else {
        s
    }
}

/// `s` without its trailing white space.
pub open spec fn trim_end(s: Seq<char>) -> Seq<char>
    decreases s.len(),
{
    if s.len() > 0 && is_white_space(s.last()) {
        trim_end(s.drop_last())
    } else {
        s
    }
}

/// `s` without white space at either end.
pub open spec fn trimmed(s: Seq<char>) -> Seq<char> {
    trim_end(trim_start(s))
}

/// Relies on `str::trim`: leading and trailing white space (Unicode's
/// `White_Space`) is removed, and nothing else.
pub assume_specification<'a>[ core::primitive::str::trim ](s: &'a core::primitive::str) -> (r: &'a core::primitive::str)
    ensures
        r@ == trimmed(s@),
;

/// Whether `a` and `b` hold the same characters.
pub fn same_text(a: &str, b: &str) -> (r: bool)
    ensures
        r == (a@ == b@),
{
    String::from_str(a) == String::from_str(b)
}

/// The characters of `s`, in order.
pub fn chars_of(s: &str) -> (r: Vec<char>)
    ensures
        r@ == s@,
{
    let mut r: Vec<char> = Vec::new();
    for c in it: s.chars()
        invariant
            r@ == it.seq().take(it.index() as int),
    {
        r.push(c);
    }
    r
}

/// A string holding `chars`.
pub fn string_of(chars: &Vec<char>) -> (r: String)
    ensures
        r@ == chars@,
{
    let mut r = String::new();
    let mut i: usize = 0;
    while i < chars.len()
        invariant
            i <= chars.len(),
            r@ == chars@.take(i as int),
        decreases chars.len() - i,
    {
        r.push(chars[i]);
        i = i + 1;
        assert(r@ =~= chars@.take(i as int));
    }
    assert(chars@.take(chars.len() as int) =~= chars@);
    r
}

/// The decimal digit for `d`.
pub open spec fn digit_char(d: nat) -> char {
    (48 + d) as char
}

/// The decimal form of `n`, without sign or leading zeros.
pub open spec fn decimal(n: nat) -> Seq<char>
    decreases n,
{
    if n < 10 {
        seq![digit_char(n)]
    } else {
        decimal(n / 10).push(digit_char(n % 10))
    }
}

/// The decimal form of `n`.
pub fn usize_text(n: usize) -> (r: String)
    ensures
        r@ == decimal(n as nat),
    decreases n,
{
    let mut r: String;
    if n < 10 {
        r = String::new();
    } else {
        r = usize_text(n / 10);
    }
    let d: u8 = (n % 10) as u8;
    r.push((d + 48u8) as char);
    r
}

/// `s` without its first and last character; empty where `s` has fewer than two.
pub open spec fn strip_ends(s: Seq<char>) -> Seq<char> {
    if s.len() >= 2 {
        s.subrange(1, s.len() - 1)
    } else {
        Seq::empty()
    }
}

/// Removes the first and the last character of `value`.
pub fn rem_first_and_last(value: &str) -> (r: &str)
    ensures
        r@ == strip_ends(value@),
{
    let n = value.unicode_len();
    if n >= 2 {
        value.substring_char(1, n - 1)
    } else {
        value.substring_char(0, 0)
    }
}

/// `s` with every two-character escape `\n` turned into a line break, read
/// from the left without overlap.
pub open spec fn expand_newlines(s: Seq<char>) -> Seq<char>
    decreases s.len(),
{
    if s.len() == 0 {
        s
    } else if s.len() >= 2 && s[0] == '\\' && s[1] == 'n' {
        seq!['\n'] + expand_newlines(s.subrange(2, s.len() as int))
    } else {
        seq![s[0]] + expand_newlines(s.drop_first())
    }
}

/// What a string literal holds: its quotes removed and its `\n` escapes expanded.
pub open spec fn content(s: Seq<char>) -> Seq<char> {
    expand_newlines(strip_ends(s))
}

/// The text of the string literal `string`, as `print` shows it.
pub fn get_string_content(string: String) -> (r: String)
    ensures
        r@ == content(string@),
{
    let inner = chars_of(rem_first_and_last(string.as_str()));
    let n = inner.len();
    let mut r = String::new();
    let mut i: usize = 0;
    assert(inner@.subrange(0, n as int) =~= inner@);
    assert(r@ + expand_newlines(inner@) =~= expand_newlines(inner@));
    while i < n
        invariant
            inner@ == strip_ends(string@),
            n == inner@.len(),
            i <= n,
            r@ + expand_newlines(inner@.subrange(i as int, n as int)) == content(string@),
        decreases n - i,
    {
        let rest = Ghost(inner@.subrange(i as int, n as int));
        if i + 1 < n && inner[i] == '\\' && inner[i + 1] == 'n' {
            assert(rest@.subrange(2, rest@.len() as int) =~= inner@.subrange(i + 2, n as int));
            r.push('\n');
            i = i + 2;
        } else {
            assert(rest@.drop_first() =~= inner@.subrange(i + 1, n as int));
            r.push(inner[i]);
            i = i + 1;
        }
    }
    assert(inner@.subrange(n as int, n as int) =~= Seq::<char>::empty());
    r
}

/// `"` followed by `s` and `"`.
pub open spec fn quoted(s: Seq<char>) -> Seq<char> {
    seq!['"'] + s + seq!['"']
}

/// Wraps `s` in double quotes.
pub fn quote(s: &str) -> (r: String)
    ensures
        r@ == quoted(s@),
{
    let mut r = String::new();
    r.push('"');
    r.append(s);
    r.push('"');
    r
}


/// The number that the decimal digits `s` stand for.
pub open spec fn digits_value(s: Seq<char>) -> nat
    decreases s.len(),
{
    if s.len() == 0 {
        0
    } else {
        digits_value(s.drop_last()) * 10 + ((s.last() as int - 48) as nat)
    }
}

/// Reads the decimal digits `s` as a `usize`; `None` where the number does
/// not fit.
pub fn parse_count(s: &str) -> (r: Option<usize>)
    requires
        forall|i: int| 0 <= i < s@.len() ==> '0' <= #[trigger] s@[i] <= '9',
    ensures
        r is Some <==> digits_value(s@) <= usize::MAX,
        r matches Some(n) ==> n as nat == digits_value(s@),
{
    let chars = chars_of(s);
    let mut n: usize = 0;
    let mut i: usize = 0;
    while i < chars.len()
        invariant
            chars@ == s@,
            forall|j: int| 0 <= j < s@.len() ==> '0' <= #[trigger] s@[j] <= '9',
            i <= chars.len(),
            n as nat == digits_value(chars@.take(i as int)),
        decreases chars.len() - i,
    {
        assert(chars@.take(i + 1).drop_last() =~= chars@.take(i as int));
        assert('0' <= s@[i as int] <= '9');
        let d = (chars[i] as u32 - 48) as usize;
        assert(d < 10);
        if n > (usize::MAX - d) / 10 {
            assert(n * 10 + d > usize::MAX) by (nonlinear_arith)
                requires
                    n > (usize::MAX - d) / 10,
                    d < 10,
            ;
            proof {
                lemma_digits_value_grows(chars@, (i + 1) as nat);
            }
            return None;
        }
        assert(n * 10 + d <= usize::MAX) by (nonlinear_arith)
            requires
                n <= (usize::MAX - d) / 10,
                d < 10,
        ;
        n = n * 10 + d;
        i = i + 1;
    }
    assert(chars@.take(chars.len() as int) =~= chars@);
    Some(n)
}

proof fn lemma_digits_value_grows(s: Seq<char>, k: nat)
    requires
        k <= s.len(),
        forall|i: int| 0 <= i < s.len() ==> '0' <= #[trigger] s[i] <= '9',
    ensures
        digits_value(s) >= digits_value(s.take(k as int)),
    decreases s.len() - k,
{
    if k < s.len() {
        lemma_digits_value_grows(s, k + 1);
        assert(s.take(k as int + 1).drop_last() =~= s.take(k as int));
    } else {
        assert(s.take(k as int) =~= s);
    }
}

} // verus!
