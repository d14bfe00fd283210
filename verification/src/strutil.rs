//! Verified string utilities: decimal rendering, whitespace handling,
//! splitting, trimming, substring search and integer parsing.
//!
//! All functions here are specified against `Seq<char>` views, so the
//! higher-level modules can state exact contracts about the strings they
//! produce and consume.

use vstd::prelude::*;
use vstd::string::StrSliceExecFns;
use vstd::string::StringExecFns;

verus! {

/// Characters treated as whitespace by the parsers and trimmers in this
/// crate: ASCII space, tab, line feed and carriage return.
pub open spec fn is_space_char(c: char) -> bool {
    c == ' ' || c == '\t' || c == '\n' || c == '\r'
}

/// Executable whitespace test, equal to `is_space_char`.
pub fn is_space(c: char) -> (r: bool)
    ensures
        r == is_space_char(c),
{
    c == ' ' || c == '\t' || c == '\n' || c == '\r'
}

/// The decimal digit character for a value below ten.
pub open spec fn digit_char(d: nat) -> char {
    if d == 0 {
        '0'
    } else if d == 1 {
        '1'
    } else if d == 2 {
        '2'
    } else if d == 3 {
        '3'
    } else if d == 4 {
        '4'
    } else if d == 5 {
        '5'
    } else if d == 6 {
        '6'
    } else if d == 7 {
        '7'
    } else if d == 8 {
        '8'
    } else {
        '9'
    }
}

/// The decimal representation of a natural number, most significant digit
/// first, with no leading zeros (a single `'0'` for zero).
pub open spec fn dec_str(n: nat) -> Seq<char>
    decreases n,
{
    if n < 10 {
        seq![digit_char(n)]
    } else {
        dec_str(n / 10).push(digit_char(n % 10))
    }
}

/// A one-character string literal for a single decimal digit.
fn digit_lit(d: u64) -> (r: &'static str)
    requires
        d < 10,
    ensures
        r@ == seq![digit_char(d as nat)],
{
    proof {
        reveal_strlit("0");
        reveal_strlit("1");
        reveal_strlit("2");
        reveal_strlit("3");
        reveal_strlit("4");
        reveal_strlit("5");
        reveal_strlit("6");
        reveal_strlit("7");
        reveal_strlit("8");
        reveal_strlit("9");
    }
    let r = if d == 0 {
        "0"
    } else if d == 1 {
        "1"
    } else if d == 2 {
        "2"
    } else if d == 3 {
        "3"
    } else if d == 4 {
        "4"
    } else if d == 5 {
        "5"
    } else if d == 6 {
        "6"
    } else if d == 7 {
        "7"
    } else if d == 8 {
        "8"
    } else {
        "9"
    };
    proof {
        assert(r@ =~= seq![digit_char(d as nat)]);
    }
    r
}

/// Renders a number in decimal, exactly as `dec_str` describes.
pub fn to_decimal(n: u64) -> (s: String)
    ensures
        s@ == dec_str(n as nat),
    decreases n,
{
    if n < 10 {
        String::from_str(digit_lit(n))
    } else {
        let mut s = to_decimal(n / 10);
        s.append(digit_lit(n % 10));
        proof {
            assert(s@ =~= dec_str(n as nat));
        }
        s
    }
}

/// A two-digit, zero-padded decimal representation of a value below 100.
pub open spec fn two_digit_str(n: nat) -> Seq<char> {
    seq![digit_char(n / 10), digit_char(n % 10)]
}

/// Renders a value below 100 as exactly two decimal digits.
pub fn to_two_digits(n: u64) -> (s: String)
    requires
        n < 100,
    ensures
        s@ == two_digit_str(n as nat),
{
    let mut s = String::from_str(digit_lit(n / 10));
    s.append(digit_lit(n % 10));
    proof {
        assert(s@ =~= two_digit_str(n as nat));
    }
    s
}

/// Character-wise string equality, equal to equality of the views.
pub fn str_eq(a: &str, b: &str) -> (r: bool)
    ensures
        r == (a@ == b@),
{
    let alen = a.unicode_len();
    let blen = b.unicode_len();
    if alen != blen {
        return false;
    }
    let mut i: usize = 0;
    while i < alen
        invariant
            alen == a@.len(),
            alen == b@.len(),
            0 <= i <= alen,
            forall|j: int| 0 <= j < i ==> a@[j] == b@[j],
        decreases alen - i,
    {
        if a.get_char(i) != b.get_char(i) {
            return false;
        }
        i += 1;
    }
    proof {
        assert(a@ =~= b@);
    }
    true
}

/// Whether `p` is a prefix of `s`.
pub open spec fn spec_starts_with(s: Seq<char>, p: Seq<char>) -> bool {
    p.len() <= s.len() && s.take(p.len() as int) == p
}

/// Executable prefix test, equal to `spec_starts_with` on the views.
pub fn str_starts_with(s: &str, p: &str) -> (r: bool)
    ensures
        r == spec_starts_with(s@, p@),
{
    let slen = s.unicode_len();
    let plen = p.unicode_len();
    if plen > slen {
        proof {
            assert(!spec_starts_with(s@, p@));
        }
        return false;
    }
    let mut i: usize = 0;
    while i < plen
        invariant
            slen == s@.len(),
            plen == p@.len(),
            plen <= slen,
            0 <= i <= plen,
            forall|j: int| 0 <= j < i ==> s@[j] == p@[j],
        decreases plen - i,
    {
        if s.get_char(i) != p.get_char(i) {
            proof {
                assert(s@.take(p@.len() as int)[i as int] != p@[i as int]);
            }
            return false;
        }
        i += 1;
    }
    proof {
        assert(s@.take(p@.len() as int) =~= p@);
    }
    true
}

/// Whether `needle` occurs as a contiguous subsequence of `s`.
pub open spec fn contains_seq(s: Seq<char>, needle: Seq<char>) -> bool {
    exists|i: int|
        0 <= i && i + needle.len() <= s.len() && #[trigger] s.subrange(i, i + needle.len())
            == needle
}

/// Whether `needle` matches `s` at position `i`.
fn match_at(s: &str, needle: &str, i: usize) -> (r: bool)
    requires
        i + needle@.len() <= s@.len(),
        s@.len() <= usize::MAX,
    ensures
        r == (s@.subrange(i as int, i + needle@.len()) == needle@),
{
    let nlen = needle.unicode_len();
    let mut j: usize = 0;
    while j < nlen
        invariant
            nlen == needle@.len(),
            i + nlen <= s@.len(),
            s@.len() <= usize::MAX,
            0 <= j <= nlen,
            forall|k: int| 0 <= k < j ==> s@[i + k] == needle@[k],
        decreases nlen - j,
    {
        if s.get_char(i + j) != needle.get_char(j) {
            proof {
                assert(s@.subrange(i as int, i + needle@.len())[j as int] != needle@[j as int]);
            }
            return false;
        }
        j += 1;
    }
    proof {
        assert(s@.subrange(i as int, i + needle@.len()) =~= needle@);
    }
    true
}

/// Executable substring search, equal to `contains_seq` on the views.
pub fn str_contains(s: &str, needle: &str) -> (r: bool)
    ensures
        r == contains_seq(s@, needle@),
{
    let slen = s.unicode_len();
    let nlen = needle.unicode_len();
    if nlen > slen {
        return false;
    }
    if nlen == 0 {
        proof {
            assert(contains_seq(s@, needle@)) by {
                assert(s@.subrange(0, 0 + needle@.len() as int) =~= needle@);
            }
        }
        return true;
    }
    let mut i: usize = 0;
    while i <= slen - nlen
        invariant
            slen == s@.len(),
            nlen == needle@.len(),
            1 <= nlen <= slen,
            0 <= i <= slen - nlen + 1,
            forall|k: int|
                0 <= k < i ==> #[trigger] s@.subrange(k, k + needle@.len()) != needle@,
        decreases slen - nlen + 1 - i,
    {
        if match_at(s, needle, i) {
            return true;
        }
        i += 1;
    }
    false
}

/// `s` with leading whitespace removed.
pub open spec fn trim_front(s: Seq<char>) -> Seq<char>
    decreases s.len(),
{
    if s.len() > 0 && is_space_char(s[0]) {
        trim_front(s.drop_first())
    } else {
        s
    }
}

/// `s` with trailing whitespace removed.
pub open spec fn trim_back(s: Seq<char>) -> Seq<char>
    decreases s.len(),
{
    if s.len() > 0 && is_space_char(s.last()) {
        trim_back(s.drop_last())
    } else {
        s
    }
}

/// `s` with both leading and trailing whitespace removed.
pub open spec fn spec_trim(s: Seq<char>) -> Seq<char> {
    trim_back(trim_front(s))
}

/// Removes leading and trailing whitespace, exactly as `spec_trim` describes.
pub fn str_trim(s: &str) -> (r: String)
    ensures
        r@ == spec_trim(s@),
{
    let len = s.unicode_len();
    proof {
        assert(s@.skip(0) =~= s@);
    }
    let mut i: usize = 0;
    while i < len && is_space(s.get_char(i))
        invariant
            len == s@.len(),
            0 <= i <= len,
            trim_front(s@) == trim_front(s@.skip(i as int)),
        decreases len - i,
    {
        proof {
            assert(s@.skip(i as int).drop_first() =~= s@.skip(i + 1));
        }
        i += 1;
    }
    proof {
        assert(trim_front(s@.skip(i as int)) == s@.skip(i as int));
    }
    let mut j: usize = len;
    while j > i && is_space(s.get_char(j - 1))
        invariant
            len == s@.len(),
            0 <= i <= j <= len,
            trim_front(s@) == s@.skip(i as int),
            trim_back(s@.skip(i as int)) == trim_back(s@.subrange(i as int, j as int)),
        decreases j,
    {
        proof {
            assert(s@.subrange(i as int, j as int).drop_last() =~= s@.subrange(i as int, j - 1));
        }
        j -= 1;
    }
    proof {
        assert(trim_back(s@.subrange(i as int, j as int)) == s@.subrange(i as int, j as int));
    }
    String::from_str(s.substring_char(i, j))
}

/// Length of the maximal non-whitespace prefix of `s`.
pub open spec fn token_len(s: Seq<char>) -> nat
    decreases s.len(),
{
    if s.len() == 0 || is_space_char(s[0]) {
        0
    } else {
        1 + token_len(s.drop_first())
    }
}

/// The token length never exceeds the sequence length.
proof fn lemma_token_len_le(s: Seq<char>)
    ensures
        token_len(s) <= s.len(),
    decreases s.len(),
{
    if s.len() > 0 && !is_space_char(s[0]) {
        lemma_token_len_le(s.drop_first());
    }
}

/// The whitespace-separated fields of `s`, in order.
pub open spec fn split_ws(s: Seq<char>) -> Seq<Seq<char>>
    decreases s.len(),
    via split_ws_decreases
{
    if s.len() == 0 {
        seq![]
    } else if is_space_char(s[0]) {
        split_ws(s.drop_first())
    } else {
        seq![s.take(token_len(s) as int)] + split_ws(s.skip(token_len(s) as int))
    }
}

#[via_fn]
proof fn split_ws_decreases(s: Seq<char>) {
    if s.len() > 0 && !is_space_char(s[0]) {
        lemma_token_len_le(s);
        assert(token_len(s) >= 1);
    }
}

/// A scan that stops at index `k`, at the end or on whitespace, having seen
/// no whitespace before `k`, has found the token length.
proof fn lemma_token_len_at(s: Seq<char>, k: int)
    requires
        0 <= k <= s.len(),
        forall|m: int| 0 <= m < k ==> !is_space_char(s[m]),
        k == s.len() || is_space_char(s[k]),
    ensures
        token_len(s) == k,
    decreases k,
{
    if k > 0 {
        lemma_token_len_at(s.drop_first(), k - 1);
    }
}

/// Splits on whitespace, exactly as `split_ws` describes.
pub fn split_whitespace_fields(s: &str) -> (fields: Vec<String>)
    ensures
        fields.deep_view() == split_ws(s@),
{
    let len = s.unicode_len();
    let mut fields: Vec<String> = Vec::new();
    let mut i: usize = 0;
    proof {
        assert(s@.skip(0) =~= s@);
        assert(fields.deep_view() =~= Seq::<Seq<char>>::empty());
    }
    while i < len
        invariant
            len == s@.len(),
            0 <= i <= len,
            split_ws(s@) == fields.deep_view() + split_ws(s@.skip(i as int)),
        decreases len - i,
    {
        if is_space(s.get_char(i)) {
            proof {
                assert(s@.skip(i as int).drop_first() =~= s@.skip(i + 1));
            }
            i += 1;
        } else {
            let mut j: usize = i;
            while j < len && !is_space(s.get_char(j))
                invariant
                    len == s@.len(),
                    0 <= i <= j <= len,
                    forall|m: int| i <= m < j ==> !is_space_char(s@[m]),
                decreases len - j,
            {
                j += 1;
            }
            proof {
                let suf = s@.skip(i as int);
                lemma_token_len_at(suf, j - i);
                assert(suf.take(j - i) =~= s@.subrange(i as int, j as int));
                assert(suf.skip(j - i) =~= s@.skip(j as int));
            }
            let tok = String::from_str(s.substring_char(i, j));
            let ghost old_fields = fields.deep_view();
            fields.push(tok);
            proof {
                assert(fields.deep_view() =~= old_fields.push(tok@));
                assert(old_fields.push(tok@) =~= old_fields + seq![tok@]);
            }
            i = j;
        }
    }
    proof {
        assert(s@.skip(len as int) =~= Seq::<char>::empty());
        assert(fields.deep_view() + split_ws(Seq::<char>::empty()) =~= fields.deep_view());
    }
    fields
}

/// Length of the first line of `s`: the number of characters before the
/// first line feed, or all of `s` if it has none.
pub open spec fn line_len(s: Seq<char>) -> nat
    decreases s.len(),
{
    if s.len() == 0 || s[0] == '\n' {
        0
    } else {
        1 + line_len(s.drop_first())
    }
}

/// The lines of `s`, split on line feeds, without a trailing empty line.
pub open spec fn split_lines(s: Seq<char>) -> Seq<Seq<char>>
    decreases s.len(),
{
    if s.len() == 0 {
        seq![]
    } else {
        let k = line_len(s);
        if k >= s.len() {
            seq![s]
        } else {
            seq![s.take(k as int)] + split_lines(s.skip(k as int + 1))
        }
    }
}

/// A scan that stops at index `k`, at the end or on a line feed, having seen
/// no line feed before `k`, has found the line length.
proof fn lemma_line_len_at(s: Seq<char>, k: int)
    requires
        0 <= k <= s.len(),
        forall|m: int| 0 <= m < k ==> s[m] != '\n',
        k == s.len() || s[k] == '\n',
    ensures
        line_len(s) == k,
    decreases k,
{
    if k > 0 {
        lemma_line_len_at(s.drop_first(), k - 1);
    }
}

/// Splits into lines, exactly as `split_lines` describes.
pub fn split_into_lines(s: &str) -> (lines: Vec<String>)
    ensures
        lines.deep_view() == split_lines(s@),
{
    let len = s.unicode_len();
    let mut lines: Vec<String> = Vec::new();
    let mut i: usize = 0;
    proof {
        assert(s@.skip(0) =~= s@);
        assert(lines.deep_view() =~= Seq::<Seq<char>>::empty());
    }
    while i < len
        invariant
            len == s@.len(),
            0 <= i <= len,
            split_lines(s@) == lines.deep_view() + split_lines(s@.skip(i as int)),
        decreases len - i,
    {
        let mut j: usize = i;
        while j < len && s.get_char(j) != '\n'
            invariant
                len == s@.len(),
                0 <= i <= j <= len,
                forall|m: int| i <= m < j ==> s@[m] != '\n',
            decreases len - j,
        {
            j += 1;
        }
        proof {
            let suf = s@.skip(i as int);
            lemma_line_len_at(suf, j - i);
            assert(suf.take(j - i) =~= s@.subrange(i as int, j as int));
            if j < len {
                assert(suf.skip(j - i + 1) =~= s@.skip(j + 1));
            } else {
                assert(suf =~= s@.subrange(i as int, j as int));
            }
        }
        let piece = String::from_str(s.substring_char(i, j));
        let ghost old_lines = lines.deep_view();
        lines.push(piece);
        proof {
            assert(lines.deep_view() =~= old_lines.push(piece@));
            assert(old_lines.push(piece@) =~= old_lines + seq![piece@]);
        }
        if j < len {
            i = j + 1;
        } else {
            i = j;
            proof {
                assert(s@.skip(len as int) =~= Seq::<char>::empty());
            }
        }
    }
    proof {
        assert(s@.skip(len as int) =~= Seq::<char>::empty());
        assert(lines.deep_view() + split_lines(Seq::<char>::empty()) =~= lines.deep_view());
    }
    lines
}

/// Whether `c` is an ASCII decimal digit.
pub open spec fn is_digit_char(c: char) -> bool {
    ('0' as u32) <= (c as u32) && (c as u32) <= ('9' as u32)
}

/// Executable digit test, equal to `is_digit_char`.
pub fn is_digit(c: char) -> (r: bool)
    ensures
        r == is_digit_char(c),
{
    let u = c as u32;
    ('0' as u32) <= u && u <= ('9' as u32)
}

/// The numeric value of a digit character.
pub open spec fn digit_val(c: char) -> int {
    c as u32 - '0' as u32
}

/// Whether every character of `s` is an ASCII decimal digit.
pub open spec fn all_digits(s: Seq<char>) -> bool {
    forall|i: int| 0 <= i < s.len() ==> is_digit_char(#[trigger] s[i])
}

/// The value of a digit string read in base ten.
pub open spec fn digits_val(s: Seq<char>) -> int
    decreases s.len(),
{
    if s.len() == 0 {
        0
    } else {
        digits_val(s.drop_last()) * 10 + digit_val(s.last())
    }
}

/// A digit string has a non-negative value.
proof fn lemma_digits_val_nonneg(s: Seq<char>)
    requires
        all_digits(s),
    ensures
        digits_val(s) >= 0,
    decreases s.len(),
{
    if s.len() > 0 {
        assert(all_digits(s.drop_last()));
        lemma_digits_val_nonneg(s.drop_last());
    }
}

/// Extending a digit string never lowers its value.
proof fn lemma_digits_val_prefix(s: Seq<char>, k: int)
    requires
        all_digits(s),
        0 <= k <= s.len(),
    ensures
        digits_val(s.take(k)) <= digits_val(s),
    decreases s.len(),
{
    if k == s.len() {
        assert(s.take(k) =~= s);
    } else {
        assert(all_digits(s.drop_last()));
        assert(s.take(k) =~= s.drop_last().take(k));
        lemma_digits_val_prefix(s.drop_last(), k);
        lemma_digits_val_nonneg(s.drop_last());
    }
}

/// What parsing `s` as a 32-bit signed integer yields: an optional leading
/// sign followed by one or more decimal digits, rejected if the value is out
/// of range — the same shape that the standard integer parser accepts.
pub open spec fn parse_i32_spec(s: Seq<char>) -> Option<i32> {
    let neg = s.len() > 0 && s[0] == '-';
    let ds = if s.len() > 0 && (s[0] == '-' || s[0] == '+') {
        s.drop_first()
    } else {
        s
    };
    if ds.len() == 0 || !all_digits(ds) {
        None
    } else {
        let v = if neg {
            -digits_val(ds)
        } else {
            digits_val(ds)
        };
        if i32::MIN <= v <= i32::MAX {
            Some(v as i32)
        } else {
            None
        }
    }
}

/// Parses a 32-bit signed integer, exactly as `parse_i32_spec` describes.
pub fn parse_i32(s: &str) -> (r: Option<i32>)
    ensures
        r == parse_i32_spec(s@),
{
    let len = s.unicode_len();
    if len == 0 {
        return None;
    }
    let first = s.get_char(0);
    let neg = first == '-';
    let start: usize = if first == '-' || first == '+' {
        1
    } else {
        0
    };
    if len == start {
        return None;
    }
    let ghost ds = if start == 1 {
        s@.drop_first()
    } else {
        s@
    };
    proof {
        assert(ds.take(0) =~= Seq::<char>::empty());
    }
    let mut acc: u64 = 0;
    let mut i: usize = start;
    while i < len
        invariant
            len == s@.len(),
            start <= i <= len,
            start == 0 || start == 1,
            start < len,
            start == 1 ==> (s@[0] == '-' || s@[0] == '+'),
            start == 0 ==> !(s@[0] == '-' || s@[0] == '+'),
            ds == (if start == 1 {
                s@.drop_first()
            } else {
                s@
            }),
            all_digits(ds.take(i - start)),
            acc == digits_val(ds.take(i - start)),
            acc <= 0x8000_0000,
        decreases len - i,
    {
        let c = s.get_char(i);
        proof {
            assert(ds[i - start] == s@[i as int]);
        }
        if !is_digit(c) {
            proof {
                assert(!all_digits(ds));
            }
            return None;
        }
        let d = (c as u32 - '0' as u32) as u64;
        let ghost prev = ds.take(i - start);
        acc = acc * 10 + d;
        proof {
            assert(ds.take(i - start + 1).drop_last() =~= prev);
            assert(ds.take(i - start + 1).last() == ds[i - start]);
        }
        if acc > 0x8000_0000 {
            proof {
                if all_digits(ds) {
                    lemma_digits_val_prefix(ds, i - start + 1);
                }
            }
            return None;
        }
        i += 1;
    }
    proof {
        assert(ds.take(len - start) =~= ds);
    }
    if neg {
        let v: i64 = -(acc as i64);
        Some(v as i32)
    } else {
        if acc > 0x7fff_ffff {
            None
        } else {
            Some(acc as i32)
        }
    }
}

} // verus!
