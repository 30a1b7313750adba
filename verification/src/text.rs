//! Verified text utilities: whitespace tokenization, line splitting, and
//! decimal conversion in both directions.

use vstd::prelude::*;
use vstd::string::*;

verus! {

/// The whitespace characters that separate tokens of a status line.
pub open spec fn is_ws(c: char) -> bool {
    c == ' ' || c == '\t' || c == '\r' || c == '\n'
}

/// Length of the maximal non-whitespace run at the front of `s`.
pub open spec fn token_len(s: Seq<char>) -> nat
    decreases s.len(),
{
    if s.len() == 0 || is_ws(s[0]) {
        0
    } else {
        (1 + token_len(s.drop_first())) as nat
    }
}

/// The whitespace-separated tokens of `s`, in order: maximal runs of
/// non-whitespace characters, with all separating whitespace dropped.
pub open spec fn split_ws_spec(s: Seq<char>) -> Seq<Seq<char>>
    decreases s.len(),
    via split_ws_spec_dec
{
    if s.len() == 0 {
        Seq::empty()
    } else if is_ws(s[0]) {
        split_ws_spec(s.drop_first())
    } else {
        seq![s.take(token_len(s) as int)] + split_ws_spec(s.skip(token_len(s) as int))
    }
}

#[via_fn]
proof fn split_ws_spec_dec(s: Seq<char>) {
    if s.len() > 0 && !is_ws(s[0]) {
        lemma_token_len_le(s);
        assert(token_len(s) >= 1);
    }
}

/// A token never exceeds the text it was cut from.
pub proof fn lemma_token_len_le(s: Seq<char>)
    ensures
        token_len(s) <= s.len(),
    decreases s.len(),
{
    if s.len() > 0 && !is_ws(s[0]) {
        lemma_token_len_le(s.drop_first());
    }
}

/// When the first `m` characters are non-whitespace and position `m` is the
/// end of the text or whitespace, the leading token is exactly `m` long.
pub proof fn lemma_token_len_run(s: Seq<char>, m: int)
    requires
        0 <= m <= s.len(),
        forall|k: int| 0 <= k < m ==> !is_ws(#[trigger] s[k]),
        m == s.len() || is_ws(s[m]),
    ensures
        token_len(s) == m,
    decreases m,
{
    if m > 0 {
        lemma_token_len_run(s.drop_first(), m - 1);
    }
}

/// Every token produced by [`split_ws_spec`] is non-empty.
pub proof fn lemma_tokens_nonempty(s: Seq<char>)
    ensures
        forall|i: int|
            0 <= i < split_ws_spec(s).len() ==> (#[trigger] split_ws_spec(s)[i]).len() > 0,
    decreases s.len(),
{
    if s.len() == 0 {
    } else if is_ws(s[0]) {
        lemma_tokens_nonempty(s.drop_first());
        assert(split_ws_spec(s) == split_ws_spec(s.drop_first()));
    } else {
        lemma_token_len_le(s);
        let k = token_len(s) as int;
        lemma_tokens_nonempty(s.skip(k));
        assert(k >= 1);
        assert forall|i: int|
            0 <= i < split_ws_spec(s).len() implies (#[trigger] split_ws_spec(s)[i]).len() > 0 by {
            if i > 0 {
                assert(split_ws_spec(s)[i] == split_ws_spec(s.skip(k))[i - 1]);
            } else {
                assert(split_ws_spec(s)[0] == s.take(k));
            }
        }
    }
}

fn is_ws_char(c: char) -> (r: bool)
    ensures
        r == is_ws(c),
{
    c == ' ' || c == '\t' || c == '\r' || c == '\n'
}

/// Splits `line` into its whitespace-separated tokens.
pub fn split_ws(line: &str) -> (r: Vec<String>)
    ensures
        r.deep_view() == split_ws_spec(line@),
{
    let n = line.unicode_len();
    let r = split_ws_at(line, 0, n);
    proof {
        assert(line@.skip(0) =~= line@);
    }
    r
}

fn split_ws_at(line: &str, i: usize, n: usize) -> (r: Vec<String>)
    requires
        i <= n,
        n == line@.len(),
    ensures
        r.deep_view() == split_ws_spec(line@.skip(i as int)),
    decreases n - i,
{
    let ghost suffix = line@.skip(i as int);
    if i == n {
        let r: Vec<String> = Vec::new();
        proof {
            assert(suffix =~= Seq::<char>::empty());
            assert(r.deep_view() =~= split_ws_spec(suffix));
        }
        r
    } else {
        let c = line.get_char(i);
        if is_ws_char(c) {
            let r = split_ws_at(line, i + 1, n);
            proof {
                assert(suffix[0] == c);
                assert(suffix.drop_first() =~= line@.skip(i as int + 1));
            }
            r
        } else {
            let mut j = i + 1;
            while j < n && !is_ws_char(line.get_char(j))
                invariant
                    i < j <= n,
                    n == line@.len(),
                    forall|k: int| i <= k < j ==> !is_ws(#[trigger] line@[k]),
                decreases n - j,
            {
                j += 1;
            }
            proof {
                assert(forall|k: int|
                    0 <= k < j - i ==> suffix[k] == line@[i + k] && !is_ws(#[trigger] suffix[k]));
                lemma_token_len_run(suffix, j - i);
            }
            let tok = String::from_str(line.substring_char(i, j));
            let mut r = split_ws_at(line, j, n);
            let ghost tail_dv = r.deep_view();
            r.insert(0, tok);
            proof {
                assert(suffix.take(j - i) =~= line@.subrange(i as int, j as int));
                assert(suffix.skip(j - i) =~= line@.skip(j as int));
                assert(r.deep_view() =~= seq![tok@] + tail_dv);
                assert(r.deep_view() =~= split_ws_spec(suffix));
            }
            r
        }
    }
}

/// Index of the first line feed in `s`, or `s.len()` when there is none.
pub open spec fn line_break(s: Seq<char>) -> nat
    decreases s.len(),
{
    if s.len() == 0 || s[0] == '\n' {
        0
    } else {
        (1 + line_break(s.drop_first())) as nat
    }
}

/// The line break never lies beyond the text.
pub proof fn lemma_line_break_le(s: Seq<char>)
    ensures
        line_break(s) <= s.len(),
    decreases s.len(),
{
    if s.len() > 0 && s[0] != '\n' {
        lemma_line_break_le(s.drop_first());
    }
}

/// When the first `m` characters are not line feeds and position `m` is the
/// end of the text or a line feed, the break lies exactly at `m`.
pub proof fn lemma_line_break_run(s: Seq<char>, m: int)
    requires
        0 <= m <= s.len(),
        forall|k: int| 0 <= k < m ==> #[trigger] s[k] != '\n',
        m == s.len() || s[m] == '\n',
    ensures
        line_break(s) == m,
    decreases m,
{
    if m > 0 {
        lemma_line_break_run(s.drop_first(), m - 1);
    }
}

/// A line with a trailing carriage return loses it; any other line is kept
/// as it is.
pub open spec fn chomp(l: Seq<char>) -> Seq<char> {
    if l.len() > 0 && l.last() == '\r' {
        l.drop_last()
    } else {
        l
    }
}

/// The lines of `s`: split at each line feed, with a carriage return just
/// before the line feed dropped, and no final empty line when `s` ends with
/// a line feed.
pub open spec fn split_lines_spec(s: Seq<char>) -> Seq<Seq<char>>
    decreases s.len(),
    via split_lines_spec_dec
{
    if s.len() == 0 {
        Seq::empty()
    } else {
        let k = line_break(s) as int;
        if k == s.len() {
            seq![s]
        } else {
            seq![chomp(s.take(k))] + split_lines_spec(s.skip(k + 1))
        }
    }
}

#[via_fn]
proof fn split_lines_spec_dec(s: Seq<char>) {
    lemma_line_break_le(s);
}

/// Splits `text` into its lines.
pub fn split_lines(text: &str) -> (r: Vec<String>)
    ensures
        r.deep_view() == split_lines_spec(text@),
{
    let n = text.unicode_len();
    let mut i: usize = 0;
    let mut acc: Vec<String> = Vec::new();
    proof {
        assert(text@.skip(0) =~= text@);
        assert(acc.deep_view() =~= Seq::<Seq<char>>::empty());
    }
    while i < n
        invariant
            i <= n,
            n == text@.len(),
            split_lines_spec(text@) == acc.deep_view() + split_lines_spec(text@.skip(i as int)),
        decreases n - i,
    {
        let ghost suffix = text@.skip(i as int);
        let mut j = i;
        while j < n && text.get_char(j) != '\n'
            invariant
                i <= j <= n,
                n == text@.len(),
                forall|k: int| i <= k < j ==> #[trigger] text@[k] != '\n',
            decreases n - j,
        {
            j += 1;
        }
        proof {
            assert(forall|k: int| 0 <= k < j - i ==> #[trigger] suffix[k] == text@[i + k]);
            lemma_line_break_run(suffix, j - i);
        }
        let line_end: usize = if j < n && j > i && text.get_char(j - 1) == '\r' {
            j - 1
        } else {
            j
        };
        let line = String::from_str(text.substring_char(i, line_end));
        let ghost acc_dv = acc.deep_view();
        acc.push(line);
        proof {
            assert(acc.deep_view() =~= acc_dv.push(line@));
            if j < n {
                assert(suffix.take(j - i) =~= text@.subrange(i as int, j as int));
                assert(chomp(suffix.take(j - i)) =~= text@.subrange(i as int, line_end as int));
                assert(suffix.skip(j - i + 1) =~= text@.skip(j as int + 1));
                assert(split_lines_spec(suffix) =~= seq![line@] + split_lines_spec(
                    text@.skip(j as int + 1),
                ));
                assert(acc.deep_view() + split_lines_spec(text@.skip(j as int + 1))
                    =~= acc_dv + split_lines_spec(suffix));
            } else {
                assert(suffix =~= text@.subrange(i as int, n as int));
                assert(split_lines_spec(suffix) =~= seq![line@]);
                assert(text@.skip(n as int) =~= Seq::<char>::empty());
                assert(acc.deep_view() + split_lines_spec(text@.skip(n as int))
                    =~= acc_dv + split_lines_spec(suffix));
            }
        }
        i = if j < n {
            j + 1
        } else {
            n
        };
    }
    proof {
        assert(text@.skip(n as int) =~= Seq::<char>::empty());
        assert(acc.deep_view() =~= acc.deep_view() + split_lines_spec(text@.skip(n as int)));
    }
    acc
}

/// A decimal digit.
pub open spec fn is_digit(c: char) -> bool {
    '0' as int <= c as int <= '9' as int
}

/// The numeric value of a digit character.
pub open spec fn digit_val(c: char) -> nat {
    (c as int - '0' as int) as nat
}

/// Every character of `s` is a decimal digit.
pub open spec fn all_digits(s: Seq<char>) -> bool {
    forall|i: int| 0 <= i < s.len() ==> is_digit(#[trigger] s[i])
}

/// The value of `s` read as a decimal numeral (most significant digit first).
pub open spec fn dec_value(s: Seq<char>) -> nat
    decreases s.len(),
{
    if s.len() == 0 {
        0
    } else {
        (dec_value(s.drop_last()) * 10 + digit_val(s.last())) as nat
    }
}

/// A decimal numeral's value never shrinks when more digits follow.
pub proof fn lemma_dec_value_mono(s: Seq<char>, m: int)
    requires
        0 <= m <= s.len(),
    ensures
        dec_value(s) >= dec_value(s.take(m)),
    decreases s.len() - m,
{
    if m == s.len() {
        assert(s.take(m) =~= s);
    } else {
        assert(s.take(m + 1).drop_last() =~= s.take(m));
        assert(s.take(m + 1).last() == s[m]);
        lemma_dec_value_mono(s, m + 1);
    }
}

/// Reads `s` as an unsigned decimal numeral.  Returns the value exactly when
/// `s` is non-empty, consists of digits alone, and the value fits in a `u64`;
/// returns `None` otherwise.
pub fn parse_u64(s: &str) -> (r: Option<u64>)
    ensures
        match r {
            Some(n) => s@.len() > 0 && all_digits(s@) && dec_value(s@) <= u64::MAX && n as nat
                == dec_value(s@),
            None => s@.len() == 0 || !all_digits(s@) || dec_value(s@) > u64::MAX,
        },
{
    let n = s.unicode_len();
    if n == 0 {
        return None;
    }
    let mut acc: u64 = 0;
    let mut i: usize = 0;
    while i < n
        invariant
            i <= n,
            n == s@.len(),
            all_digits(s@.take(i as int)),
            acc as nat == dec_value(s@.take(i as int)),
        decreases n - i,
    {
        let c = s.get_char(i);
        let code = c as u32;
        if code < 48 || code > 57 {
            assert(!is_digit(s@[i as int]));
            return None;
        }
        let d = (code - 48) as u64;
        proof {
            assert(s@.take(i as int + 1).drop_last() =~= s@.take(i as int));
            assert(s@.take(i as int + 1).last() == s@[i as int]);
        }
        let grown = match acc.checked_mul(10) {
            Some(t) => t.checked_add(d),
            None => None,
        };
        match grown {
            Some(t) => {
                acc = t;
            },
            None => {
                proof {
                    assert(dec_value(s@.take(i as int + 1)) > u64::MAX);
                    lemma_dec_value_mono(s@, i as int + 1);
                }
                return None;
            },
        }
        i += 1;
    }
    proof {
        assert(s@.take(n as int) =~= s@);
    }
    Some(acc)
}

/// The digit character for a value below ten.
pub open spec fn digit_char(d: nat) -> char {
    if d == 0 {
        '0'
    } else if d == 1 {
        '1'
    } else if d == 2 {
        '2'
    } else if d == 3 {
        '3'
    } else if d == 4 {
        '4'
    } else if d == 5 {
        '5'
    } else if d == 6 {
        '6'
    } else if d == 7 {
        '7'
    } else if d == 8 {
        '8'
    } else {
        '9'
    }
}

/// The decimal numeral for `n`: most significant digit first, no leading
/// zeros (a single `0` for zero).
pub open spec fn dec_str(n: nat) -> Seq<char>
    decreases n,
{
    if n < 10 {
        seq![digit_char(n)]
    } else {
        dec_str(n / 10).push(digit_char(n % 10))
    }
}

fn digit_str(d: u64) -> (r: &'static str)
    requires
        d < 10,
    ensures
        r@ == seq![digit_char(d as nat)],
{
    proof {
        reveal_strlit("0");
        reveal_strlit("1");
        reveal_strlit("2");
        reveal_strlit("3");
        reveal_strlit("4");
        reveal_strlit("5");
        reveal_strlit("6");
        reveal_strlit("7");
        reveal_strlit("8");
        reveal_strlit("9");
    }
    let r = if d == 0 {
        "0"
    } else if d == 1 {
        "1"
    } else if d == 2 {
        "2"
    } else if d == 3 {
        "3"
    } else if d == 4 {
        "4"
    } else if d == 5 {
        "5"
    } else if d == 6 {
        "6"
    } else if d == 7 {
        "7"
    } else if d == 8 {
        "8"
    } else {
        "9"
    };
    proof {
        assert(r@ =~= seq![digit_char(d as nat)]);
    }
    r
}

/// Writes `n` in decimal.
pub fn u64_to_string(n: u64) -> (r: String)
    ensures
        r@ == dec_str(n as nat),
    decreases n,
{
    if n < 10 {
        String::from_str(digit_str(n))
    } else {
        let mut s = u64_to_string(n / 10);
        s.append(digit_str(n % 10));
        proof {
            assert(s@ =~= dec_str((n / 10) as nat).push(digit_char((n % 10) as nat)));
        }
        s
    }
}

/// Character-for-character equality of two string slices.
pub fn str_eq(a: &str, b: &str) -> (r: bool)
    ensures
        r == (a@ == b@),
{
    let na = a.unicode_len();
    let nb = b.unicode_len();
    if na != nb {
        return false;
    }
    let mut i: usize = 0;
    while i < na
        invariant
            i <= na,
            na == a@.len(),
            na == b@.len(),
            forall|k: int| 0 <= k < i ==> a@[k] == b@[k],
        decreases na - i,
    {
        if a.get_char(i) != b.get_char(i) {
            return false;
        }
        i += 1;
    }
    proof {
        assert(a@ =~= b@);
    }
    true
}

} // verus!
