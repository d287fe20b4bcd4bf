//! Verified text logic: environment-override splitting, log-line splitting,
//! and the decimal pid-record format.
use vstd::prelude::*;
use vstd::string::StrSliceExecFns;
use vstd::string::StringExecFns;

use crate::SupervisorError;

verus! {

/// True when `c` occurs in `s`.
pub open spec fn has_char(s: Seq<char>, c: char) -> bool {
    exists|i: int| 0 <= i < s.len() && s[i] == c
}

/// Index of the first occurrence of `c` in `s`, or `s.len()` when `c` is absent.
pub open spec fn char_index(s: Seq<char>, c: char) -> int
    decreases s.len(),
{
    if s.len() == 0 {
        0
    } else if s[0] == c {
        0
    } else {
        1 + char_index(s.drop_first(), c)
    }
}

/// `char_index` lies in `[0, s.len()]`, points at the first `c` when one
/// exists, and equals `s.len()` otherwise.
pub proof fn lemma_char_index(s: Seq<char>, c: char)
    ensures
        0 <= char_index(s, c) <= s.len(),
        has_char(s, c) ==> char_index(s, c) < s.len() && s[char_index(s, c)] == c,
        forall|j: int| 0 <= j < char_index(s, c) ==> s[j] != c,
        !has_char(s, c) ==> char_index(s, c) == s.len(),
    decreases s.len(),
{
    if s.len() == 0 {
    } else if s[0] == c {
    } else {
        lemma_char_index(s.drop_first(), c);
        if has_char(s, c) {
            let w = choose|i: int| 0 <= i < s.len() && s[i] == c;
            assert(s.drop_first()[w - 1] == c);
        }
        if has_char(s.drop_first(), c) {
            let w = choose|i: int| 0 <= i < s.drop_first().len() && s.drop_first()[i] == c;
            assert(s[w + 1] == c);
        }
        assert forall|j: int| 0 <= j < char_index(s, c) implies s[j] != c by {
            if j > 0 {
                assert(s.drop_first()[j - 1] != c);
            }
        }
    }
}

/// Position of the first occurrence of `c` in `s`, or the length of `s` when
/// `c` does not occur.
pub fn find_char(s: &str, c: char) -> (i: usize)
    ensures
        i as int == char_index(s@, c),
        i <= s@.len(),
{
    let n = s.unicode_len();
    let mut i: usize = 0;
    while i < n
        invariant
            n == s@.len(),
            0 <= i <= n,
            forall|j: int| 0 <= j < i ==> s@[j] != c,
        decreases n - i,
    {
        if s.get_char(i) == c {
            proof {
                lemma_char_index(s@, c);
                let e = char_index(s@, c);
                if e < i {
                    assert(s@[e] != c);
                }
                if i < e {
                    assert(s@[i as int] != c);
                }
            }
            return i;
        }
        i += 1;
    }
    proof {
        lemma_char_index(s@, c);
    }
    n
}

/// Character-for-character string equality.
pub fn str_eq(a: &str, b: &str) -> (r: bool)
    ensures
        r == (a@ == b@),
{
    let n = a.unicode_len();
    if n != b.unicode_len() {
        return false;
    }
    let mut i: usize = 0;
    while i < n
        invariant
            n == a@.len(),
            n == b@.len(),
            0 <= i <= n,
            forall|j: int| 0 <= j < i ==> a@[j] == b@[j],
        decreases n - i,
    {
        if a.get_char(i) != b.get_char(i) {
            return false;
        }
        i += 1;
    }
    proof {
        assert(a@ =~= b@);
    }
    true
}

/// True when `s` holds at least one `=`.
pub open spec fn has_eq(s: Seq<char>) -> bool {
    has_char(s, '=')
}

/// Key part of an override entry: everything before the first `=`.
pub open spec fn env_key(s: Seq<char>) -> Seq<char> {
    s.subrange(0, char_index(s, '='))
}

/// Value part of an override entry: everything after the first `=`.
pub open spec fn env_value(s: Seq<char>) -> Seq<char> {
    s.subrange(char_index(s, '=') + 1, s.len() as int)
}

/// Splits one `KEY=VALUE` environment override on its first `=`.
///
/// An entry with no `=` is a configuration error, never silently ignored.
pub fn parse_env_entry(entry: &str) -> (r: Result<(String, String), SupervisorError>)
    ensures
        r is Ok <==> has_eq(entry@),
        r matches Ok(p) ==> p.0@ == env_key(entry@) && p.1@ == env_value(entry@),
        r matches Err(e) ==> e == SupervisorError::EnvParseError,
{
    let n = entry.unicode_len();
    let i = find_char(entry, '=');
    proof {
        lemma_char_index(entry@, '=');
    }
    if i < n {
        let key = entry.substring_char(0, i).to_owned();
        let value = entry.substring_char(i + 1, n).to_owned();
        Ok((key, value))
    } else {
        Err(SupervisorError::EnvParseError)
    }
}

/// True when every override entry in `entries` holds a `=`.
pub open spec fn all_env_ok(entries: Seq<String>) -> bool {
    forall|i: int| 0 <= i < entries.len() ==> has_eq(entries[i]@)
}

/// Splits every `KEY=VALUE` override of `entries` on its first `=`, in order;
/// signals `EnvParseError` as soon as one entry holds no `=`.
pub fn parse_env_entries(entries: &Vec<String>) -> (r: Result<
    Vec<(String, String)>,
    SupervisorError,
>)
    ensures
        r is Ok <==> all_env_ok(entries@),
        r matches Ok(pairs) ==> pairs@.len() == entries@.len() && forall|i: int|
            0 <= i < entries@.len() ==> (#[trigger] pairs@[i]).0@ == env_key(entries@[i]@)
                && pairs@[i].1@ == env_value(entries@[i]@),
        r matches Err(e) ==> e == SupervisorError::EnvParseError,
{
    let mut pairs: Vec<(String, String)> = Vec::new();
    let mut i: usize = 0;
    while i < entries.len()
        invariant
            0 <= i <= entries@.len(),
            pairs@.len() == i,
            forall|j: int| 0 <= j < i ==> has_eq(entries@[j]@),
            forall|j: int| 0 <= j < i ==> (#[trigger] pairs@[j]).0@ == env_key(entries@[j]@)
                && pairs@[j].1@ == env_value(entries@[j]@),
        decreases entries@.len() - i,
    {
        match parse_env_entry(entries[i].as_str()) {
            Ok(p) => pairs.push(p),
            Err(e) => return Err(e),
        }
        i += 1;
    }
    Ok(pairs)
}

/// A line with a trailing carriage return loses it; any other line is kept.
pub open spec fn strip_cr(l: Seq<char>) -> Seq<char> {
    if l.len() > 0 && l[l.len() - 1] == '\r' {
        l.drop_last()
    } else {
        l
    }
}

/// The lines of `s`, split on `\n`, each with a trailing `\r` removed, and
/// with no empty line after a final `\n`.
pub open spec fn spec_lines(s: Seq<char>) -> Seq<Seq<char>>
    decreases s.len(),
{
    if s.len() == 0 {
        Seq::empty()
    } else {
        let i = char_index(s, '\n');
        if 0 <= i < s.len() && s[i] == '\n' {
            seq![strip_cr(s.subrange(0, i))] + spec_lines(s.subrange(i + 1, s.len() as int))
        } else {
            seq![strip_cr(s)]
        }
    }
}

/// The views of a sequence of owned strings.
pub open spec fn views_of(q: Seq<String>) -> Seq<Seq<char>> {
    Seq::new(q.len(), |i: int| q[i]@)
}

/// Splits captured output into lines, with the same line shape as the
/// `spec_lines` model: split on `\n`, trailing `\r` stripped, no empty line
/// after a final newline.
pub fn split_lines(s: &str) -> (r: Vec<String>)
    ensures
        views_of(r@) == spec_lines(s@),
{
    let mut out: Vec<String> = Vec::new();
    let n = s.unicode_len();
    let mut start: usize = 0;
    proof {
        assert(s@.subrange(0, n as int) =~= s@);
        assert(views_of(out@) =~= Seq::<Seq<char>>::empty());
        assert(views_of(out@) + spec_lines(s@) =~= spec_lines(s@));
    }
    while start < n
        invariant
            n == s@.len(),
            0 <= start <= n,
            spec_lines(s@) == views_of(out@) + spec_lines(s@.subrange(start as int, n as int)),
        decreases n - start,
    {
        let ghost rest_view = s@.subrange(start as int, n as int);
        let rest = s.substring_char(start, n);
        let j_rel = find_char(rest, '\n');
        if j_rel < n - start {
            // a newline ends this line inside the remainder
            let j = start + j_rel;
            let line = if j > start && s.get_char(j - 1) == '\r' {
                s.substring_char(start, j - 1)
            } else {
                s.substring_char(start, j)
            };
            let owned = line.to_owned();
            proof {
                lemma_char_index(rest_view, '\n');
                assert(rest_view[j_rel as int] == '\n');
                assert(rest_view.subrange(0, j_rel as int) =~= s@.subrange(
                    start as int,
                    j as int,
                ));
                assert(rest_view.subrange(j_rel + 1, rest_view.len() as int) =~= s@.subrange(
                    j + 1,
                    n as int,
                ));
                assert(spec_lines(rest_view) == seq![strip_cr(s@.subrange(start as int, j as int))]
                    + spec_lines(s@.subrange(j + 1, n as int)));
                if j > start && s@[j - 1] == '\r' {
                    assert(s@.subrange(start as int, j - 1) =~= s@.subrange(
                        start as int,
                        j as int,
                    ).drop_last());
                    assert(s@.subrange(start as int, j as int)[(j - start - 1) as int] == s@[j - 1]);
                    assert(owned@ == strip_cr(s@.subrange(start as int, j as int)));
                } else {
                    if s@.subrange(start as int, j as int).len() > 0 {
                        assert(s@.subrange(start as int, j as int)[(j - start - 1) as int] == s@[j
                            - 1]);
                    }
                    assert(owned@ == strip_cr(s@.subrange(start as int, j as int)));
                }
                assert(views_of(out@.push(owned)) =~= views_of(out@) + seq![owned@]);
                assert(views_of(out@.push(owned)) + spec_lines(s@.subrange(j + 1, n as int))
                    =~= views_of(out@) + spec_lines(rest_view));
            }
            out.push(owned);
            start = j + 1;
        } else {
            // no newline in the remainder: the rest is the final line
            let line = if s.get_char(n - 1) == '\r' {
                s.substring_char(start, n - 1)
            } else {
                s.substring_char(start, n)
            };
            let owned = line.to_owned();
            proof {
                lemma_char_index(rest_view, '\n');
                assert(!has_char(rest_view, '\n'));
                assert(spec_lines(rest_view) == seq![strip_cr(rest_view)]);
                assert(rest_view[rest_view.len() - 1] == s@[n - 1]);
                if s@[n - 1] == '\r' {
                    assert(s@.subrange(start as int, n - 1) =~= rest_view.drop_last());
                    assert(owned@ == strip_cr(rest_view));
                } else {
                    assert(owned@ == strip_cr(rest_view));
                }
                assert(views_of(out@.push(owned)) =~= views_of(out@) + seq![owned@]);
                assert(s@.subrange(n as int, n as int) =~= Seq::<char>::empty());
                assert(views_of(out@.push(owned)) + spec_lines(s@.subrange(n as int, n as int))
                    =~= views_of(out@) + spec_lines(rest_view));
            }
            out.push(owned);
            start = n;
        }
    }
    proof {
        assert(s@.subrange(n as int, n as int) =~= Seq::<char>::empty());
        assert(views_of(out@) + spec_lines(s@.subrange(n as int, n as int)) =~= views_of(out@));
    }
    out
}

/// True when `c` is a decimal digit.
pub open spec fn is_digit(c: char) -> bool {
    48 <= c as int <= 57
}

/// Numeric value of a decimal digit character.
pub open spec fn digit_val(c: char) -> int {
    c as int - 48
}

/// The decimal digit character for a value in `[0, 9]`.
pub open spec fn digit_char(d: int) -> char {
    if d == 0 {
        '0'
    } else if d == 1 {
        '1'
    } else if d == 2 {
        '2'
    } else if d == 3 {
        '3'
    } else if d == 4 {
        '4'
    } else if d == 5 {
        '5'
    } else if d == 6 {
        '6'
    } else if d == 7 {
        '7'
    } else if d == 8 {
        '8'
    } else {
        '9'
    }
}

/// True when every character of `s` is a decimal digit.
pub open spec fn all_digits(s: Seq<char>) -> bool {
    forall|i: int| 0 <= i < s.len() ==> is_digit(s[i])
}

/// The numeric value of a digit string, read left to right.
pub open spec fn digits_val(s: Seq<char>) -> int
    decreases s.len(),
{
    if s.len() == 0 {
        0
    } else {
        digits_val(s.drop_last()) * 10 + digit_val(s.last())
    }
}

/// A digit string never has a negative value.
pub proof fn lemma_digits_val_nonneg(s: Seq<char>)
    requires
        all_digits(s),
    ensures
        digits_val(s) >= 0,
    decreases s.len(),
{
    if s.len() > 0 {
        assert(forall|i: int| 0 <= i < s.drop_last().len() ==> is_digit(#[trigger] s.drop_last()[
            i
        ]));
        lemma_digits_val_nonneg(s.drop_last());
    }
}

/// Extending a digit prefix by one digit multiplies its value by ten and adds
/// the digit.
pub proof fn lemma_digits_val_step(s: Seq<char>, i: int)
    requires
        0 <= i < s.len(),
    ensures
        digits_val(s.subrange(0, i + 1)) == digits_val(s.subrange(0, i)) * 10 + digit_val(s[i]),
{
    assert(s.subrange(0, i + 1).drop_last() =~= s.subrange(0, i));
    assert(s.subrange(0, i + 1).last() == s[i]);
}

/// The value of a digit string is no less than the value of any prefix.
pub proof fn lemma_digits_val_mono(s: Seq<char>, i: int)
    requires
        all_digits(s),
        0 <= i <= s.len(),
    ensures
        digits_val(s) >= digits_val(s.subrange(0, i)),
    decreases s.len() - i,
{
    if i == s.len() {
        assert(s.subrange(0, i) =~= s);
    } else {
        lemma_digits_val_step(s, i);
        assert(forall|j: int| 0 <= j < s.subrange(0, i).len() ==> is_digit(
            #[trigger] s.subrange(0, i)[j],
        ));
        lemma_digits_val_nonneg(s.subrange(0, i));
        lemma_digits_val_mono(s, i + 1);
    }
}

/// The first line of a pid record: everything before the first `\n`, with a
/// trailing `\r` removed.
pub open spec fn record_line(s: Seq<char>) -> Seq<char> {
    strip_cr(s.subrange(0, char_index(s, '\n')))
}

/// The pid a record holds: its first line read as an unsigned decimal, or
/// nothing when that line is empty, holds a non-digit, or exceeds `u32::MAX`.
pub open spec fn pid_of_record(s: Seq<char>) -> Option<u32> {
    let line = record_line(s);
    if line.len() > 0 && all_digits(line) && digits_val(line) <= u32::MAX {
        Some(digits_val(line) as u32)
    } else {
        None
    }
}

/// Reads the pid out of a pid record: the first line as an unsigned decimal.
pub fn parse_pid_record(s: &str) -> (r: Option<u32>)
    ensures
        r == pid_of_record(s@),
{
    let n = s.unicode_len();
    let end0 = find_char(s, '\n');
    let end = if end0 > 0 && s.get_char(end0 - 1) == '\r' {
        end0 - 1
    } else {
        end0
    };
    let line = s.substring_char(0, end);
    proof {
        lemma_char_index(s@, '\n');
        if end0 > 0 && s@[end0 - 1] == '\r' {
            assert(s@.subrange(0, end0 as int)[end0 - 1] == s@[end0 - 1]);
            assert(s@.subrange(0, end0 - 1) =~= s@.subrange(0, end0 as int).drop_last());
        } else {
            if end0 > 0 {
                assert(s@.subrange(0, end0 as int)[end0 - 1] == s@[end0 - 1]);
            }
        }
        assert(line@ == record_line(s@));
    }
    if end == 0 {
        return None;
    }
    let mut acc: u32 = 0;
    let mut i: usize = 0;
    while i < end
        invariant
            line@ == record_line(s@),
            line@.len() == end,
            0 < end,
            0 <= i <= end,
            forall|j: int| 0 <= j < i ==> is_digit(line@[j]),
            acc as int == digits_val(line@.subrange(0, i as int)),
        decreases end - i,
    {
        let c = line.get_char(i);
        let u = c as u32;
        if u < 48 || u > 57 {
            assert(!is_digit(line@[i as int]));
            return None;
        }
        let d = u - 48;
        if acc > (u32::MAX - d) / 10 {
            proof {
                lemma_digits_val_step(line@, i as int);
                if all_digits(line@) {
                    lemma_digits_val_mono(line@, i + 1);
                }
            }
            return None;
        }
        proof {
            lemma_digits_val_step(line@, i as int);
        }
        acc = acc * 10 + d;
        i += 1;
    }
    proof {
        assert(line@.subrange(0, end as int) =~= line@);
    }
    Some(acc)
}

/// The decimal digit string of `n`, most significant digit first, with no
/// sign, padding or leading zero.
pub open spec fn dec_str(n: nat) -> Seq<char>
    decreases n,
{
    if n < 10 {
        seq![digit_char(n as int)]
    } else {
        dec_str(n / 10) + seq![digit_char(n as int % 10)]
    }
}

/// The digit characters of collected low-order-first digit values, read back
/// most significant first.
pub open spec fn rev_digit_chars(ds: Seq<u8>) -> Seq<char> {
    Seq::new(ds.len(), |i: int| digit_char(ds[ds.len() - 1 - i] as int))
}

/// Writes `pid` as the content of a pid record: its decimal digits and
/// nothing else.
pub fn pid_record_content(pid: u32) -> (s: String)
    ensures
        s@ == dec_str(pid as nat),
{
    let digits = "0123456789";
    proof {
        reveal_strlit("0123456789");
        assert forall|d: int| 0 <= d < 10 implies digits@[d] == digit_char(d) by {
            assert(digits@[0] == '0');
            assert(digits@[1] == '1');
            assert(digits@[2] == '2');
            assert(digits@[3] == '3');
            assert(digits@[4] == '4');
            assert(digits@[5] == '5');
            assert(digits@[6] == '6');
            assert(digits@[7] == '7');
            assert(digits@[8] == '8');
            assert(digits@[9] == '9');
        }
    }
    if pid == 0 {
        let z = digits.substring_char(0, 1).to_owned();
        proof {
            assert(z@ =~= dec_str(0));
        }
        return z;
    }
    let mut rev: Vec<u8> = Vec::new();
    let mut m: u32 = pid;
    while m > 0
        invariant
            m >= 0,
            forall|j: int| 0 <= j < rev@.len() ==> rev@[j] < 10,
            m > 0 ==> dec_str(pid as nat) == dec_str(m as nat) + rev_digit_chars(rev@),
            m == 0 ==> dec_str(pid as nat) == rev_digit_chars(rev@),
        decreases m,
    {
        let d = (m % 10) as u8;
        proof {
            let ghost old_rev = rev@;
            assert(rev_digit_chars(old_rev.push(d)) =~= seq![digit_char(d as int)]
                + rev_digit_chars(old_rev));
            if m >= 10 {
                assert(dec_str(m as nat) == dec_str((m / 10) as nat) + seq![
                    digit_char(m as int % 10),
                ]);
                assert(dec_str((m / 10) as nat) + seq![digit_char(d as int)] + rev_digit_chars(
                    old_rev,
                ) =~= dec_str((m / 10) as nat) + rev_digit_chars(old_rev.push(d)));
            } else {
                assert(dec_str(m as nat) == seq![digit_char(m as int)]);
                assert(seq![digit_char(d as int)] + rev_digit_chars(old_rev) =~= rev_digit_chars(
                    old_rev.push(d),
                ));
            }
        }
        rev.push(d);
        m = m / 10;
    }
    let mut s = String::new();
    let mut k = rev.len();
    while k > 0
        invariant
            0 <= k <= rev@.len(),
            forall|j: int| 0 <= j < rev@.len() ==> rev@[j] < 10,
            dec_str(pid as nat) == rev_digit_chars(rev@),
            s@ == rev_digit_chars(rev@).subrange(0, rev@.len() - k),
            digits@.len() == 10,
            forall|d: int| 0 <= d < 10 ==> digits@[d] == digit_char(d),
        decreases k,
    {
        k = k - 1;
        let d = rev[k];
        let dc = digits.substring_char(d as usize, (d + 1) as usize);
        proof {
            assert(dc@[0] == digits@[d as int]);
            assert(dc@ =~= seq![digit_char(d as int)]);
            assert(rev_digit_chars(rev@)[rev@.len() - 1 - k] == digit_char(rev@[k as int] as int));
            assert(s@ + dc@ =~= rev_digit_chars(rev@).subrange(0, rev@.len() - k));
        }
        s.append(dc);
    }
    proof {
        assert(rev_digit_chars(rev@).subrange(0, rev@.len() as int) =~= rev_digit_chars(rev@));
    }
    s
}

/// Law: a pid written as a record is read back as the same pid.
pub proof fn lemma_pid_record_round_trip(pid: u32)
    ensures
        pid_of_record(dec_str(pid as nat)) == Some(pid),
{
    lemma_dec_str_digits(pid as nat);
    let s = dec_str(pid as nat);
    lemma_char_index(s, '\n');
    assert(char_index(s, '\n') == s.len());
    assert(s.subrange(0, s.len() as int) =~= s);
    assert(s[s.len() - 1] != '\r');
    assert(record_line(s) == s);
}

/// The decimal digit string of `n` is nonempty, made of digits only, and has
/// `n` as its value.
pub proof fn lemma_dec_str_digits(n: nat)
    ensures
        dec_str(n).len() > 0,
        all_digits(dec_str(n)),
        digits_val(dec_str(n)) == n,
    decreases n,
{
    if n < 10 {
        let s = dec_str(n);
        assert(s.drop_last() =~= Seq::<char>::empty());
        assert(digits_val(Seq::<char>::empty()) == 0);
        assert(digits_val(s) == digit_val(digit_char(n as int)));
    } else {
        lemma_dec_str_digits(n / 10);
        let s = dec_str(n);
        assert(s.drop_last() =~= dec_str(n / 10));
        assert(s.last() == digit_char(n as int % 10));
        assert(digit_val(digit_char(n as int % 10)) == n as int % 10);
        assert(digits_val(s) == digits_val(dec_str(n / 10)) * 10 + n as int % 10);
        assert forall|i: int| 0 <= i < s.len() implies is_digit(s[i]) by {
            if i < s.len() - 1 {
                assert(s[i] == dec_str(n / 10)[i]);
            }
        }
    }
}

} // verus!
