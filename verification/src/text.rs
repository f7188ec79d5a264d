//! Plain-text utilities shared by the field codec and the label text
//! protocol: whitespace tokenization, splitting on a separator, decimal
//! parsing and formatting, and joining words.

use vstd::prelude::*;

verus! {

/// Whitespace for this library's text protocols: space, tab, CR, LF.
pub open spec fn is_ws_char(c: char) -> bool {
    c == ' ' || c == '\t' || c == '\n' || c == '\r'
}

/// Executable whitespace test.
pub fn is_ws(c: char) -> (r: bool)
    ensures
        r == is_ws_char(c),
{
    c == ' ' || c == '\t' || c == '\n' || c == '\r'
}

/// Length of the leading run of non-whitespace characters.
pub open spec fn token_len(s: Seq<char>) -> nat
    decreases s.len(),
{
    if s.len() == 0 || is_ws_char(s[0]) {
        0
    } else {
        1 + token_len(s.drop_first())
    }
}

pub proof fn lemma_token_len_le(s: Seq<char>)
    ensures
        token_len(s) <= s.len(),
    decreases s.len(),
{
    if s.len() != 0 && !is_ws_char(s[0]) {
        lemma_token_len_le(s.drop_first());
    }
}

/// The leading token has exactly the length of the run of non-whitespace
/// characters that starts the sequence.
pub proof fn lemma_token_len_run(s: Seq<char>, m: int)
    requires
        0 <= m <= s.len(),
        forall|k: int| 0 <= k < m ==> !is_ws_char(s[k]),
        m == s.len() || is_ws_char(s[m]),
    ensures
        token_len(s) == m,
    decreases m,
{
    if m == 0 {
    } else {
        lemma_token_len_run(s.drop_first(), m - 1);
    }
}

/// The whitespace-separated tokens of `s`, in order, with no empty tokens.
pub open spec fn ws_tokens(s: Seq<char>) -> Seq<Seq<char>>
    decreases s.len(),
    via ws_tokens_decreases
{
    if s.len() == 0 {
        seq![]
    } else if is_ws_char(s[0]) {
        ws_tokens(s.drop_first())
    } else {
        seq![s.take(token_len(s) as int)] + ws_tokens(s.skip(token_len(s) as int))
    }
}

#[via_fn]
proof fn ws_tokens_decreases(s: Seq<char>) {
    if s.len() != 0 && !is_ws_char(s[0]) {
        lemma_token_len_le(s);
    }
}

/// Splits a string into its whitespace-separated tokens.
pub fn tokenize(s: &str) -> (r: Vec<String>)
    ensures
        r.deep_view() == ws_tokens(s@),
{
    let n = s.unicode_len();
    let mut acc: Vec<String> = Vec::new();
    let mut i: usize = 0;
    proof {
        assert(s@.skip(0) =~= s@);
        assert(acc.deep_view() + ws_tokens(s@) =~= ws_tokens(s@));
    }
    while i < n
        invariant
            0 <= i <= n,
            n == s@.len(),
            acc.deep_view() + ws_tokens(s@.skip(i as int)) == ws_tokens(s@),
        decreases n - i,
    {
        let c = s.get_char(i);
        if is_ws(c) {
            proof {
                assert(s@.skip(i as int).drop_first() =~= s@.skip(i + 1));
            }
            i = i + 1;
        } else {
            let mut j: usize = i + 1;
            while j < n && !is_ws(s.get_char(j))
                invariant
                    i < j <= n,
                    n == s@.len(),
                    forall|k: int| i <= k < j ==> !is_ws_char(s@[k]),
                decreases n - j,
            {
                j = j + 1;
            }
            let tok = s.substring_char(i, j).to_owned();
            proof {
                let suf = s@.skip(i as int);
                assert(forall|k: int| 0 <= k < j - i ==> !is_ws_char(suf[k]));
                lemma_token_len_run(suf, j - i);
                assert(suf.take(j - i) =~= s@.subrange(i as int, j as int));
                assert(suf.skip(j - i) =~= s@.skip(j as int));
                assert(acc.deep_view().push(tok@) =~= acc.deep_view() + seq![tok@]);
                assert((acc.deep_view() + seq![tok@]) + ws_tokens(s@.skip(j as int))
                    =~= acc.deep_view() + (seq![tok@] + ws_tokens(s@.skip(j as int))));
            }
            acc.push(tok);
            i = j;
        }
    }
    proof {
        assert(s@.skip(n as int) =~= Seq::<char>::empty());
        assert(acc.deep_view() + ws_tokens(s@.skip(n as int)) =~= acc.deep_view());
    }
    acc
}

/// Every character inside the leading token is non-whitespace.
pub proof fn lemma_token_len_nonws(s: Seq<char>, k: int)
    requires
        0 <= k < token_len(s),
    ensures
        !is_ws_char(s[k]),
    decreases k,
{
    lemma_token_len_le(s);
    if k > 0 {
        lemma_token_len_nonws(s.drop_first(), k - 1);
        assert(s.drop_first()[k - 1] == s[k]);
    }
}

/// A non-whitespace word at the front is the first token.
pub proof fn lemma_ws_tokens_head(t: Seq<char>, rest: Seq<char>)
    requires
        t.len() > 0,
        forall|k: int| 0 <= k < t.len() ==> !is_ws_char(#[trigger] t[k]),
        rest.len() == 0 || is_ws_char(rest[0]),
    ensures
        ws_tokens(t + rest) == seq![t] + ws_tokens(rest),
{
    let line = t + rest;
    assert(line[0] == t[0]);
    assert(forall|k: int| 0 <= k < t.len() ==> line[k] == t[k]);
    if rest.len() > 0 {
        assert(line[t.len() as int] == rest[0]);
    }
    lemma_token_len_run(line, t.len() as int);
    assert(line.take(token_len(line) as int) =~= t);
    assert(line.skip(token_len(line) as int) =~= rest);
}

/// A whitespace prefix contributes no token.
pub proof fn lemma_ws_tokens_ws_prefix(p: Seq<char>, s: Seq<char>)
    requires
        forall|k: int| 0 <= k < p.len() ==> is_ws_char(#[trigger] p[k]),
    ensures
        ws_tokens(p + s) == ws_tokens(s),
    decreases p.len(),
{
    if p.len() == 0 {
        assert(p + s =~= s);
    } else {
        assert((p + s)[0] == p[0]);
        assert((p + s).drop_first() =~= p.drop_first() + s);
        lemma_ws_tokens_ws_prefix(p.drop_first(), s);
    }
}

/// Length of the leading segment of `s` before the first `sep`.
pub open spec fn seg_len(s: Seq<char>, sep: char) -> nat
    decreases s.len(),
{
    if s.len() == 0 || s[0] == sep {
        0
    } else {
        1 + seg_len(s.drop_first(), sep)
    }
}

pub proof fn lemma_seg_len_le(s: Seq<char>, sep: char)
    ensures
        seg_len(s, sep) <= s.len(),
    decreases s.len(),
{
    if s.len() != 0 && s[0] != sep {
        lemma_seg_len_le(s.drop_first(), sep);
    }
}

/// The leading segment ends exactly at the first occurrence of `sep`.
pub proof fn lemma_seg_len_run(s: Seq<char>, sep: char, m: int)
    requires
        0 <= m <= s.len(),
        forall|k: int| 0 <= k < m ==> s[k] != sep,
        m == s.len() || s[m] == sep,
    ensures
        seg_len(s, sep) == m,
    decreases m,
{
    if m > 0 {
        lemma_seg_len_run(s.drop_first(), sep, m - 1);
    }
}

/// The segments of `s` between occurrences of `sep`, in order, keeping
/// empty segments; a string without `sep` is one segment.
pub open spec fn split_char(s: Seq<char>, sep: char) -> Seq<Seq<char>>
    decreases s.len(),
    via split_char_decreases
{
    let l = seg_len(s, sep) as int;
    if l == s.len() {
        seq![s]
    } else {
        seq![s.take(l)] + split_char(s.skip(l + 1), sep)
    }
}

#[via_fn]
proof fn split_char_decreases(s: Seq<char>, sep: char) {
    lemma_seg_len_le(s, sep);
}

/// Splits a string on every occurrence of `sep`, keeping empty segments.
pub fn split_on(s: &str, sep: char) -> (r: Vec<String>)
    ensures
        r.deep_view() == split_char(s@, sep),
{
    let n = s.unicode_len();
    let mut acc: Vec<String> = Vec::new();
    let mut i: usize = 0;
    // `i` is the start of the current segment; every previous segment is in `acc`.
    proof {
        assert(s@.skip(0) =~= s@);
    }
    let ghost whole = s@;
    while i < n
        invariant
            0 <= i <= n,
            n == whole.len(),
            s@ == whole,
            acc.deep_view() + split_char(whole.skip(i as int), sep) == split_char(whole, sep),
        decreases n - i,
    {
        let mut j: usize = i;
        while j < n && s.get_char(j) != sep
            invariant
                i <= j <= n,
                n == whole.len(),
                s@ == whole,
                forall|k: int| i <= k < j ==> whole[k] != sep,
            decreases n - j,
        {
            j = j + 1;
        }
        let piece = s.substring_char(i, j).to_owned();
        proof {
            let suf = whole.skip(i as int);
            assert(forall|k: int| 0 <= k < j - i ==> suf[k] != sep);
            lemma_seg_len_run(suf, sep, j - i);
            assert(suf.take(j - i) =~= whole.subrange(i as int, j as int));
        }
        if j < n {
            proof {
                let suf = whole.skip(i as int);
                assert(suf.skip(j - i + 1) =~= whole.skip(j + 1));
                assert((acc.deep_view() + seq![piece@]) + split_char(whole.skip(j + 1), sep)
                    =~= acc.deep_view() + (seq![piece@] + split_char(whole.skip(j + 1), sep)));
            }
            acc.push(piece);
            i = j + 1;
        } else {
            proof {
                let suf = whole.skip(i as int);
                assert(suf =~= suf.take(j - i));
                assert(acc.deep_view() + seq![suf] =~= acc.deep_view().push(piece@));
            }
            acc.push(piece);
            i = n;
            assert(acc.deep_view() == split_char(whole, sep));
            return acc;
        }
    }
    // Reached only when the final segment is empty (s empty or ends in `sep`).
    proof {
        let suf = whole.skip(n as int);
        assert(suf =~= Seq::<char>::empty());
        lemma_seg_len_run(suf, sep, 0);
        assert(split_char(suf, sep) =~= seq![suf]);
    }
    let tail = String::new();
    proof {
        assert(acc.deep_view() + seq![Seq::<char>::empty()] =~= acc.deep_view().push(tail@));
    }
    acc.push(tail);
    acc
}

/// A decimal digit.
pub open spec fn is_digit_char(c: char) -> bool {
    48 <= c as u32 <= 57
}

/// Numeric value of a decimal digit character (as an `int`; meaningful
/// only when `is_digit_char` holds).
pub open spec fn digit_val(c: char) -> int {
    c as u32 - 48
}

pub open spec fn all_digits(s: Seq<char>) -> bool {
    forall|k: int| 0 <= k < s.len() ==> is_digit_char(#[trigger] s[k])
}

/// The value of a digit string read in base ten.
pub open spec fn dec_value(s: Seq<char>) -> int
    decreases s.len(),
{
    if s.len() == 0 {
        0
    } else {
        dec_value(s.drop_last()) * 10 + digit_val(s.last())
    }
}

pub proof fn lemma_dec_value_nonneg(s: Seq<char>)
    requires
        all_digits(s),
    ensures
        dec_value(s) >= 0,
    decreases s.len(),
{
    if s.len() > 0 {
        assert(all_digits(s.drop_last())) by {
            assert(forall|k: int| 0 <= k < s.len() - 1 ==> s.drop_last()[k] == s[k]);
        }
        lemma_dec_value_nonneg(s.drop_last());
    }
}

/// Extending a digit string on the right never decreases its value.
pub proof fn lemma_dec_value_mono(s: Seq<char>, i: int, j: int)
    requires
        0 <= i <= j <= s.len(),
        all_digits(s),
    ensures
        dec_value(s.take(j)) >= dec_value(s.take(i)),
    decreases j - i,
{
    if i < j {
        lemma_dec_value_mono(s, i, j - 1);
        let p = s.take(j);
        assert(p.drop_last() =~= s.take(j - 1));
        assert(all_digits(p.drop_last()));
        lemma_dec_value_nonneg(p.drop_last());
        assert(is_digit_char(s[j - 1]));
        assert(dec_value(p) == dec_value(s.take(j - 1)) * 10 + digit_val(s[j - 1]));
    }
}

/// Whether a string is a plain decimal numeral whose value fits in `u32`.
pub open spec fn parses_as_u32(s: Seq<char>) -> bool {
    s.len() > 0 && all_digits(s) && dec_value(s) <= u32::MAX
}

/// Reads an unsigned decimal numeral. Returns `None` on an empty string,
/// a non-digit character, or a value over `u32::MAX`.
pub fn parse_u32(s: &str) -> (r: Option<u32>)
    ensures
        r is Some <==> parses_as_u32(s@),
        r is Some ==> r->Some_0 == dec_value(s@),
{
    let n = s.unicode_len();
    if n == 0 {
        return None;
    }
    let mut acc: u64 = 0;
    let mut i: usize = 0;
    proof {
        assert(s@.take(0) =~= Seq::<char>::empty());
    }
    while i < n
        invariant
            0 <= i <= n,
            n == s@.len(),
            all_digits(s@.take(i as int)),
            acc == dec_value(s@.take(i as int)),
            acc <= u32::MAX,
        decreases n - i,
    {
        let c = s.get_char(i);
        let cv = c as u32;
        if cv < 48 || cv > 57 {
            assert(!is_digit_char(s@[i as int]));
            return None;
        }
        let d: u64 = (cv - 48) as u64;
        let next: u64 = acc * 10 + d;
        proof {
            assert(s@.take(i + 1).drop_last() =~= s@.take(i as int));
            assert(s@.take(i + 1).last() == s@[i as int]);
        }
        if next > u32::MAX as u64 {
            proof {
                if all_digits(s@) {
                    lemma_dec_value_mono(s@, i + 1, s@.len() as int);
                    assert(s@.take(s@.len() as int) =~= s@);
                }
            }
            return None;
        }
        acc = next;
        i = i + 1;
    }
    proof {
        assert(s@.take(n as int) =~= s@);
    }
    Some(acc as u32)
}

/// Whether a string is a decimal numeral, with an optional leading sign,
/// whose value fits in `i32`.
pub open spec fn parses_as_i32(s: Seq<char>) -> bool {
    if s.len() > 0 && (s[0] == '-' || s[0] == '+') {
        let mag = s.drop_first();
        mag.len() > 0 && all_digits(mag) && (if s[0] == '-' {
            dec_value(mag) <= 0x8000_0000
        } else {
            dec_value(mag) <= i32::MAX
        })
    } else {
        s.len() > 0 && all_digits(s) && dec_value(s) <= i32::MAX
    }
}

/// The value of a signed decimal numeral (meaningful when `parses_as_i32`).
pub open spec fn signed_dec_value(s: Seq<char>) -> int {
    if s.len() > 0 && s[0] == '-' {
        -dec_value(s.drop_first())
    } else if s.len() > 0 && s[0] == '+' {
        dec_value(s.drop_first())
    } else {
        dec_value(s)
    }
}

/// Reads a signed decimal numeral. An optional leading `-` or `+` is
/// accepted; the value must fit in `i32`.
pub fn parse_i32(s: &str) -> (r: Option<i32>)
    ensures
        r is Some <==> parses_as_i32(s@),
        r is Some ==> r->Some_0 == signed_dec_value(s@),
{
    let n = s.unicode_len();
    if n == 0 {
        return None;
    }
    let c0 = s.get_char(0);
    if c0 == '-' || c0 == '+' {
        let mag = s.substring_char(1, n);
        proof {
            assert(mag@ =~= s@.drop_first());
        }
        match parse_u32(mag) {
            None => None,
            Some(v) => {
                if c0 == '-' {
                    if v <= 0x8000_0000 {
                        // -v fits: i32::MIN is -0x8000_0000.
                        let neg: i64 = -(v as i64);
                        Some(neg as i32)
                    } else {
                        None
                    }
                } else {
                    if v <= i32::MAX as u32 {
                        Some(v as i32)
                    } else {
                        None
                    }
                }
            },
        }
    } else {
        match parse_u32(s) {
            None => None,
            Some(v) => {
                if v <= i32::MAX as u32 {
                    Some(v as i32)
                } else {
                    None
                }
            },
        }
    }
}

/// The character for a decimal digit value.
pub open spec fn digit_char(d: int) -> char {
    ((48 + d) as u8) as char
}

/// One-character string for a decimal digit value.
pub fn digit_str(d: u8) -> (r: &'static str)
    requires
        d < 10,
    ensures
        r@ == seq![digit_char(d as int)],
{
    proof {
        reveal_strlit("0");
        reveal_strlit("1");
        reveal_strlit("2");
        reveal_strlit("3");
        reveal_strlit("4");
        reveal_strlit("5");
        reveal_strlit("6");
        reveal_strlit("7");
        reveal_strlit("8");
        reveal_strlit("9");
    }
    match d {
        0 => "0",
        1 => "1",
        2 => "2",
        3 => "3",
        4 => "4",
        5 => "5",
        6 => "6",
        7 => "7",
        8 => "8",
        _ => "9",
    }
}

/// The decimal numeral of a nonnegative integer, with no leading zeros
/// (a single zero for 0).
pub open spec fn dec_digits(n: int) -> Seq<char>
    decreases n,
{
    if n < 10 {
        seq![digit_char(n)]
    } else {
        dec_digits(n / 10) + seq![digit_char(n % 10)]
    }
}

/// Writes an unsigned integer in decimal.
pub fn u32_to_string(n: u32) -> (r: String)
    ensures
        r@ == dec_digits(n as int),
    decreases n,
{
    if n < 10 {
        digit_str(n as u8).to_owned()
    } else {
        let mut s = u32_to_string(n / 10);
        s.append(digit_str((n % 10) as u8));
        s
    }
}

/// The decimal numeral of an integer: a `-` sign for negative values,
/// then the digits of the magnitude.
pub open spec fn signed_dec_digits(n: int) -> Seq<char> {
    if n < 0 {
        seq!['-'] + dec_digits(-n)
    } else {
        dec_digits(n)
    }
}

/// Writes a signed integer in decimal.
pub fn i32_to_string(n: i32) -> (r: String)
    ensures
        r@ == signed_dec_digits(n as int),
{
    if n < 0 {
        let mag: i64 = -(n as i64);
        let mut s = String::new();
        s.append("-");
        proof {
            reveal_strlit("-");
            assert("-"@ =~= seq!['-']);
        }
        s.append(u32_to_string(mag as u32).as_str());
        proof {
            assert(s@ =~= seq!['-'] + dec_digits(mag as int));
        }
        s
    } else {
        u32_to_string(n as u32)
    }
}

/// Character-for-character string equality.
pub fn str_eq(a: &str, b: &str) -> (r: bool)
    ensures
        r == (a@ == b@),
{
    let n = a.unicode_len();
    if n != b.unicode_len() {
        return false;
    }
    let mut i: usize = 0;
    while i < n
        invariant
            0 <= i <= n,
            n == a@.len() == b@.len(),
            forall|k: int| 0 <= k < i ==> a@[k] == b@[k],
        decreases n - i,
    {
        if a.get_char(i) != b.get_char(i) {
            return false;
        }
        i = i + 1;
    }
    proof {
        assert(a@ =~= b@);
    }
    true
}

/// The given word sequences joined with single spaces.
pub open spec fn join_spaces(ts: Seq<Seq<char>>) -> Seq<char>
    decreases ts.len(),
{
    if ts.len() == 0 {
        Seq::empty()
    } else if ts.len() == 1 {
        ts[0]
    } else {
        ts[0] + seq![' '] + join_spaces(ts.drop_first())
    }
}

/// Joins the words from index `from` on with single spaces.
pub fn join_from(ts: &Vec<String>, from: usize) -> (r: String)
    requires
        from <= ts@.len(),
    ensures
        r@ == join_spaces(ts.deep_view().skip(from as int)),
{
    let mut out = String::new();
    if from >= ts.len() {
        proof {
            assert(ts.deep_view().skip(from as int) =~= Seq::<Seq<char>>::empty());
        }
        return out;
    }
    let n = ts.len();
    let mut i: usize = n;
    // Build from the right so the spec's head recursion unfolds directly.
    out = ts[n - 1].clone();
    i = n - 1;
    while i > from
        invariant
            from <= i < n,
            n == ts@.len(),
            out@ == join_spaces(ts.deep_view().skip(i as int)),
        decreases i,
    {
        let mut piece = ts[i - 1].clone();
        piece.append(" ");
        proof {
            reveal_strlit(" ");
            assert(" "@ =~= seq![' ']);
        }
        piece.append(out.as_str());
        proof {
            let dv = ts.deep_view();
            assert(dv.skip(i - 1)[0] == ts[i - 1 as int]@);
            assert(dv.skip(i - 1).drop_first() =~= dv.skip(i as int));
            assert(dv.skip(i - 1).len() >= 2);
            assert(piece@ =~= dv.skip(i - 1)[0] + seq![' '] + join_spaces(dv.skip(i as int)));
        }
        out = piece;
        i = i - 1;
    }
    proof {
        let dv = ts.deep_view();
        assert(dv.skip(n - 1) =~= seq![ts[n - 1 as int]@]);
    }
    out
}

} // verus!
