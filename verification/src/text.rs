use vstd::prelude::*;

verus! {

/// The characters of `s`, in order.
pub fn chars_of(s: &str) -> (res: Vec<char>)
    ensures
        res@ == s@,
{
    let mut res: Vec<char> = Vec::new();
    for c in it: s.chars()
        invariant
            res@ == it.seq().take(it.index() as int),
            it.seq() == s@,
    {
        res.push(c);
    }
    res
}

/// Builds a `String` holding exactly the characters of `v`
/// (`FromIterator<&char>` for `String`, std).
#[verifier::external_body]
pub(crate) fn string_from_chars(v: &[char]) -> (res: String)
    ensures
        res@ == v@,
{
    v.iter().collect()
}

/// Appends the characters of `src` to `out`.
pub fn append_chars(out: &mut Vec<char>, src: &[char])
    ensures
        final(out)@ == old(out)@ + src@,
{
    let mut k: usize = 0;
    while k < src.len()
        invariant
            k <= src@.len(),
            out@ == old(out)@ + src@.take(k as int),
        decreases src.len() - k,
    {
        out.push(src[k]);
        k = k + 1;
        assert(src@.take(k as int) =~= src@.take(k - 1).push(src@[k - 1]));
    }
    assert(src@.take(k as int) =~= src@);
}

/// The characters `v[from..to]` as a new vector.
pub fn sub_chars(v: &[char], from: usize, to: usize) -> (res: Vec<char>)
    requires
        from <= to <= v@.len(),
    ensures
        res@ == v@.subrange(from as int, to as int),
{
    let mut res: Vec<char> = Vec::new();
    let mut i = from;
    while i < to
        invariant
            from <= i <= to <= v@.len(),
            res@ == v@.subrange(from as int, i as int),
        decreases to - i,
    {
        res.push(v[i]);
        i = i + 1;
    }
    res
}

} // verus!

verus! {

/// Unicode `White_Space`, the set that `char::is_whitespace` and `str::trim` use.
pub open spec fn is_ws(c: char) -> bool {
    ||| ('\u{9}' <= c && c <= '\u{d}')
    ||| c == ' '
    ||| c == '\u{85}'
    ||| c == '\u{a0}'
    ||| c == '\u{1680}'
    ||| ('\u{2000}' <= c && c <= '\u{200a}')
    ||| c == '\u{2028}'
    ||| c == '\u{2029}'
    ||| c == '\u{202f}'
    ||| c == '\u{205f}'
    ||| c == '\u{3000}'
}

pub fn is_whitespace(c: char) -> (res: bool)
    ensures
        res == is_ws(c),
{
    ('\u{9}' <= c && c <= '\u{d}') || c == ' ' || c == '\u{85}' || c == '\u{a0}' || c
        == '\u{1680}' || ('\u{2000}' <= c && c <= '\u{200a}') || c == '\u{2028}' || c
        == '\u{2029}' || c == '\u{202f}' || c == '\u{205f}' || c == '\u{3000}'
}

/// `s` without its leading white space.
pub open spec fn trim_start(s: Seq<char>) -> Seq<char>
    decreases s.len(),
{
    if s.len() > 0 && is_ws(s[0]) {
        trim_start(s.drop_first())
    } else {
        s
    }
}

/// `s` without its trailing white space.
pub open spec fn trim_end(s: Seq<char>) -> Seq<char>
    decreases s.len(),
{
    if s.len() > 0 && is_ws(s.last()) {
        trim_end(s.drop_last())
    } else {
        s
    }
}

/// `s` without leading and trailing white space (`str::trim`).
pub open spec fn trim(s: Seq<char>) -> Seq<char> {
    trim_end(trim_start(s))
}

proof fn lemma_trim_start_skip(s: Seq<char>, i: int)
    requires
        0 <= i <= s.len(),
        forall|j: int| 0 <= j < i ==> is_ws(#[trigger] s[j]),
    ensures
        trim_start(s) == trim_start(s.skip(i)),
    decreases i,
{
    if i > 0 {
        assert(s.drop_first().skip(i - 1) =~= s.skip(i));
        lemma_trim_start_skip(s.drop_first(), i - 1);
    } else {
        assert(s.skip(0) =~= s);
    }
}

proof fn lemma_trim_end_take(s: Seq<char>, k: int)
    requires
        0 <= k <= s.len(),
        forall|j: int| k <= j < s.len() ==> is_ws(#[trigger] s[j]),
    ensures
        trim_end(s) == trim_end(s.take(k)),
    decreases s.len() - k,
{
    if k < s.len() {
        assert(s.drop_last().take(k) =~= s.take(k));
        lemma_trim_end_take(s.drop_last(), k);
    } else {
        assert(s.take(k) =~= s);
    }
}

/// The characters of `s` without leading and trailing white space.
pub fn trim_chars(s: &[char]) -> (res: Vec<char>)
    ensures
        res@ == trim(s@),
{
    let mut a: usize = 0;
    while a < s.len() && is_whitespace(s[a])
        invariant
            a <= s@.len(),
            forall|j: int| 0 <= j < a ==> is_ws(#[trigger] s@[j]),
        decreases s.len() - a,
    {
        a = a + 1;
    }
    proof {
        lemma_trim_start_skip(s@, a as int);
        if a < s@.len() {
            assert(s@.skip(a as int)[0] == s@[a as int]);
        }
        assert(trim_start(s@.skip(a as int)) == s@.skip(a as int));
    }
    let mut b: usize = s.len();
    while b > a && is_whitespace(s[b - 1])
        invariant
            a <= b <= s@.len(),
            forall|j: int| b <= j < s@.len() ==> is_ws(#[trigger] s@[j]),
        decreases b,
    {
        b = b - 1;
    }
    let res = sub_chars(s, a, b);
    proof {
        let t = s@.skip(a as int);
        lemma_trim_end_take(t, (b - a) as int);
        assert(t.take((b - a) as int) =~= res@);
        if b > a {
            assert(res@.last() == s@[b - 1]);
        }
        assert(trim_end(res@) == res@);
    }
    res
}

/// `str::trim`, as a new `String`.
pub fn trim_str(s: &str) -> (res: String)
    ensures
        res@ == trim(s@),
{
    let cs = chars_of(s);
    let t = trim_chars(&cs);
    string_from_chars(&t)
}

/// Whether `s` begins with `p`.
pub open spec fn starts_with(s: Seq<char>, p: Seq<char>) -> bool {
    p.len() <= s.len() && s.take(p.len() as int) == p
}

/// Whether `p` occurs in `s` at position `i`.
pub open spec fn occurs_at(s: Seq<char>, p: Seq<char>, i: int) -> bool {
    0 <= i && i + p.len() <= s.len() && s.subrange(i, i + p.len()) == p
}

/// Whether `p` occurs anywhere in `s` (`str::contains`).
pub open spec fn contains(s: Seq<char>, p: Seq<char>) -> bool {
    exists|i: int| occurs_at(s, p, i)
}

pub fn occurs_at_exec(s: &[char], p: &[char], i: usize) -> (res: bool)
    ensures
        res == occurs_at(s@, p@, i as int),
{
    if i > s.len() || p.len() > s.len() - i {
        return false;
    }
    let mut k: usize = 0;
    while k < p.len()
        invariant
            i + p@.len() <= s@.len(),
            i + k <= s@.len(),
            k <= p@.len(),
            forall|j: int| 0 <= j < k ==> s@[i + j] == p@[j],
        decreases p.len() - k,
    {
        assert(k < p@.len());
        assert(i + k < s.len());
        if s[i + k] != p[k] {
            assert(s@.subrange(i as int, i + p@.len())[k as int] != p@[k as int]);
            return false;
        }
        k = k + 1;
    }
    assert(s@.subrange(i as int, i + p@.len()) =~= p@);
    true
}

pub fn starts_with_exec(s: &[char], p: &[char]) -> (res: bool)
    ensures
        res == starts_with(s@, p@),
{
    let r = occurs_at_exec(s, p, 0);
    assert(s@.subrange(0, p@.len() as int) =~= s@.take(p@.len() as int));
    r
}

/// The first position at which `p` occurs in `s` at or after `from`.
pub open spec fn find_from(s: Seq<char>, p: Seq<char>, from: int) -> Option<int>
    decreases s.len() + 1 - from,
{
    if from < 0 || from + p.len() > s.len() {
        None
    } else if occurs_at(s, p, from) {
        Some(from)
    } else {
        find_from(s, p, from + 1)
    }
}

pub proof fn lemma_find_from(s: Seq<char>, p: Seq<char>, from: int)
    requires
        0 <= from,
    ensures
        find_from(s, p, from) matches Some(i) ==> from <= i && occurs_at(s, p, i) && forall|j: int|
            from <= j < i ==> !occurs_at(s, p, j),
        find_from(s, p, from) is None ==> forall|j: int| from <= j ==> !occurs_at(s, p, j),
    decreases s.len() + 1 - from,
{
    if from + p.len() > s.len() {
    } else if occurs_at(s, p, from) {
    } else {
        lemma_find_from(s, p, from + 1);
    }
}

pub fn find_from_exec(s: &[char], p: &[char], from: usize) -> (res: Option<usize>)
    ensures
        opt_int(res) == find_from(s@, p@, from as int),
{
    let mut i = from;
    while i <= s.len() && p.len() <= s.len() - i
        invariant
            from <= i,
            find_from(s@, p@, from as int) == find_from(s@, p@, i as int),
        decreases s.len() + 1 - i,
    {
        if occurs_at_exec(s, p, i) {
            return Some(i);
        }
        proof {
            if p@.len() == 0 {
                assert(s@.subrange(i as int, i as int) =~= p@);
            }
        }
        i = i + 1;
    }
    None
}

pub open spec fn opt_int(o: Option<usize>) -> Option<int> {
    match o {
        Some(i) => Some(i as int),
        None => None,
    }
}

pub fn contains_exec(s: &[char], p: &[char]) -> (res: bool)
    ensures
        res == contains(s@, p@),
{
    let r = find_from_exec(s, p, 0);
    proof {
        lemma_find_from(s@, p@, 0);
    }
    r.is_some()
}

/// `s` with every non-overlapping occurrence of `pat`, taken from the left,
/// replaced by `rep` (`str::replace`, for a non-empty `pat`).
pub open spec fn replace_all(s: Seq<char>, pat: Seq<char>, rep: Seq<char>) -> Seq<char>
    decreases s.len(),
{
    if s.len() == 0 || pat.len() == 0 {
        s
    } else if starts_with(s, pat) {
        rep + replace_all(s.skip(pat.len() as int), pat, rep)
    } else {
        seq![s[0]] + replace_all(s.drop_first(), pat, rep)
    }
}

pub fn replace_all_exec(s: &[char], pat: &[char], rep: &[char]) -> (res: Vec<char>)
    ensures
        res@ == replace_all(s@, pat@, rep@),
{
    let mut out: Vec<char> = Vec::new();
    if pat.len() == 0 {
        let r = sub_chars(s, 0, s.len());
        assert(s@.subrange(0, s@.len() as int) =~= s@);
        return r;
    }
    let mut i: usize = 0;
    assert(s@.skip(0) =~= s@);
    while i < s.len()
        invariant
            pat@.len() > 0,
            i <= s@.len(),
            replace_all(s@, pat@, rep@) == out@ + replace_all(s@.skip(i as int), pat@, rep@),
        decreases s.len() - i,
    {
        let ghost rest = s@.skip(i as int);
        if occurs_at_exec(s, pat, i) {
            assert(rest.take(pat@.len() as int) =~= s@.subrange(i as int, i + pat@.len()));
            assert(rest.skip(pat@.len() as int) =~= s@.skip(i + pat@.len()));
            let ghost before = out@;
            append_chars(&mut out, rep);
            assert(out@ + replace_all(s@.skip(i + pat@.len()), pat@, rep@) =~= before + replace_all(rest, pat@, rep@));
            i = i + pat.len();
        } else {
            proof {
                if starts_with(rest, pat@) {
                    assert(rest.take(pat@.len() as int) =~= s@.subrange(i as int, i + pat@.len()));
                }
            }
            assert(rest.drop_first() =~= s@.skip(i + 1));
            let ghost before = out@;
            out.push(s[i]);
            assert(out@ + replace_all(s@.skip(i + 1), pat@, rep@) =~= before + replace_all(rest, pat@, rep@));
            i = i + 1;
        }
    }
    out
}

} // verus!

verus! {

pub proof fn lemma_find_from_bounds(s: Seq<char>, p: Seq<char>, from: int)
    requires
        0 <= from,
    ensures
        find_from(s, p, from) matches Some(i) ==> from <= i && i + p.len() <= s.len(),
{
    lemma_find_from(s, p, from);
}

/// The pieces of `s` between the non-overlapping occurrences of `pat`, taken from
/// the left (`str::split` with a non-empty string pattern).
pub open spec fn split_on(s: Seq<char>, pat: Seq<char>) -> Seq<Seq<char>>
    decreases s.len(),
{
    if pat.len() == 0 {
        seq![s]
    } else {
        match find_from(s, pat, 0) {
            None => seq![s],
            Some(i) => {
                proof {
                    lemma_find_from_bounds(s, pat, 0);
                }
                seq![s.take(i)] + split_on(s.skip(i + pat.len()), pat)
            },
        }
    }
}

/// `line` without one trailing carriage return.
pub open spec fn strip_cr(line: Seq<char>) -> Seq<char> {
    if line.len() > 0 && line.last() == '\r' {
        line.drop_last()
    } else {
        line
    }
}

/// The lines of `s` (`str::lines`): the pieces between line feeds, each without a
/// carriage return right before its line feed; a final line feed ends the last
/// line and starts no new one.
pub open spec fn lines(s: Seq<char>) -> Seq<Seq<char>>
    decreases s.len(),
{
    if s.len() == 0 {
        Seq::empty()
    } else {
        match find_from(s, seq!['\n'], 0) {
            None => seq![s],
            Some(i) => {
                proof {
                    lemma_find_from_bounds(s, seq!['\n'], 0);
                }
                seq![strip_cr(s.take(i))] + lines(s.skip(i + 1))
            },
        }
    }
}

pub open spec fn seq_view(v: Seq<Vec<char>>) -> Seq<Seq<char>> {
    v.map_values(|x: Vec<char>| x@)
}

/// Splits `s` at every non-overlapping occurrence of `pat` (non-empty).
pub fn split_on_exec(s: &[char], pat: &[char]) -> (res: Vec<Vec<char>>)
    requires
        pat@.len() > 0,
    ensures
        seq_view(res@) == split_on(s@, pat@),
{
    let mut res: Vec<Vec<char>> = Vec::new();
    let mut start: usize = 0;
    assert(s@.skip(0) =~= s@);
    loop
        invariant
            pat@.len() > 0,
            start <= s@.len(),
            split_on(s@, pat@) == seq_view(res@) + split_on(s@.skip(start as int), pat@),
        decreases s.len() - start,
    {
        let rest = sub_chars(s, start, s.len());
        assert(rest@ =~= s@.skip(start as int));
        let found = find_from_exec(&rest, pat, 0);
        proof {
            lemma_find_from_bounds(rest@, pat@, 0);
        }
        match found {
            None => {
                let ghost before = res@;
                res.push(rest);
                assert(seq_view(res@) =~= seq_view(before) + seq![rest@]);
                return res;
            },
            Some(i) => {
                let piece = sub_chars(&rest, 0, i);
                assert(piece@ =~= rest@.take(i as int));
                let ghost before = res@;
                res.push(piece);
                assert(seq_view(res@) =~= seq_view(before) + seq![piece@]);
                assert(rest@.skip(i + pat@.len()) =~= s@.skip(start + i + pat@.len()));
                start = start + i + pat.len();
                assert(seq_view(before) + split_on(rest@, pat@) =~= seq_view(res@) + split_on(
                    s@.skip(start as int),
                    pat@,
                ));
            },
        }
    }
}

/// The lines of `s`, as `str::lines` gives them.
pub fn lines_exec(s: &[char]) -> (res: Vec<Vec<char>>)
    ensures
        seq_view(res@) == lines(s@),
{
    let mut res: Vec<Vec<char>> = Vec::new();
    let mut start: usize = 0;
    let nl: Vec<char> = vec!['\n'];
    assert(nl@ =~= seq!['\n']);
    assert(s@.skip(0) =~= s@);
    while start < s.len()
        invariant
            nl@ == seq!['\n'],
            start <= s@.len(),
            lines(s@) == seq_view(res@) + lines(s@.skip(start as int)),
        decreases s.len() - start,
    {
        let rest = sub_chars(s, start, s.len());
        assert(rest@ =~= s@.skip(start as int));
        let found = find_from_exec(&rest, &nl, 0);
        proof {
            lemma_find_from_bounds(rest@, nl@, 0);
        }
        match found {
            None => {
                let ghost before = res@;
                res.push(rest);
                assert(seq_view(res@) =~= seq_view(before) + seq![rest@]);
                assert(s@.skip(s@.len() as int) =~= Seq::<char>::empty());
                start = s.len();
                assert(lines(s@.skip(start as int)) =~= Seq::<Seq<char>>::empty());
                assert(seq_view(res@) + Seq::<Seq<char>>::empty() =~= seq_view(res@));
            },
            Some(i) => {
                let mut line = sub_chars(&rest, 0, i);
                let ghost full = line@;
                if line.len() > 0 && line[line.len() - 1] == '\r' {
                    line.pop();
                    assert(line@ =~= full.drop_last());
                }
                assert(full =~= rest@.take(i as int));
                let ghost before = res@;
                res.push(line);
                assert(seq_view(res@) =~= seq_view(before) + seq![line@]);
                assert(rest@.skip(i + 1) =~= s@.skip(start + i + 1));
                start = start + i + 1;
                assert(seq_view(before) + lines(rest@) =~= seq_view(res@) + lines(
                    s@.skip(start as int),
                ));
            },
        }
    }
    assert(s@.skip(start as int) =~= Seq::<char>::empty());
    assert(seq_view(res@) + lines(s@.skip(start as int)) =~= seq_view(res@));
    res
}

/// The decimal digit for `d` (below ten).
pub open spec fn digit_char(d: nat) -> char {
    (48 + d) as char
}

/// The decimal representation of `n`, without leading zeros.
pub open spec fn decimal(n: nat) -> Seq<char>
    decreases n,
{
    if n < 10 {
        seq![digit_char(n)]
    } else {
        decimal(n / 10).push(digit_char(n % 10))
    }
}

/// The decimal representation of a signed number, with a leading '-' when negative.
pub open spec fn signed_decimal(n: int) -> Seq<char> {
    if n < 0 {
        seq!['-'] + decimal((-n) as nat)
    } else {
        decimal(n as nat)
    }
}

fn digit_to_char(d: u64) -> (c: char)
    requires
        d < 10,
    ensures
        c == digit_char(d as nat),
{
    let b: u8 = 48u8 + (d as u8);
    b as char
}

/// The decimal digits of `n` (the `Display` of an unsigned integer).
pub fn u64_decimal(n: u64) -> (res: Vec<char>)
    ensures
        res@ == decimal(n as nat),
    decreases n,
{
    if n < 10 {
        let mut v: Vec<char> = Vec::new();
        v.push(digit_to_char(n));
        assert(v@ =~= seq![digit_char(n as nat)]);
        v
    } else {
        let mut v = u64_decimal(n / 10);
        v.push(digit_to_char(n % 10));
        v
    }
}

/// The decimal digits of `n`, with a leading '-' when negative (the `Display` of a
/// signed integer).
pub fn i64_decimal(n: i64) -> (res: Vec<char>)
    ensures
        res@ == signed_decimal(n as int),
{
    if n < 0 {
        let m: u64 = (0i128 - (n as i128)) as u64;
        let digits = u64_decimal(m);
        let mut v: Vec<char> = Vec::new();
        v.push('-');
        append_chars(&mut v, &digits);
        assert(v@ =~= seq!['-'] + decimal((-n) as nat));
        v
    } else {
        u64_decimal(n as u64)
    }
}

/// An ASCII decimal digit.
pub open spec fn is_digit(c: char) -> bool {
    '0' <= c && c <= '9'
}

pub open spec fn digit_value(c: char) -> nat {
    (c as int - 48) as nat
}

/// The number that the decimal digits `ds` spell.
pub open spec fn digits_value(ds: Seq<char>) -> nat
    decreases ds.len(),
{
    if ds.len() == 0 {
        0
    } else {
        digits_value(ds.drop_last()) * 10 + digit_value(ds.last())
    }
}

/// Whether `s` starts with a minus sign.
pub open spec fn is_negative(s: Seq<char>) -> bool {
    s.len() > 0 && s[0] == '-'
}

/// `s` without its leading sign character, when it has one.
pub open spec fn unsigned_part(s: Seq<char>) -> Seq<char> {
    if s.len() > 0 && (s[0] == '-' || s[0] == '+') {
        s.drop_first()
    } else {
        s
    }
}

/// Whether every character of `ds` is a decimal digit.
pub open spec fn all_digits(ds: Seq<char>) -> bool {
    forall|i: int| 0 <= i < ds.len() ==> is_digit(#[trigger] ds[i])
}

/// What `str::parse::<i64>` gives: an optional sign, then one or more decimal
/// digits, whose value lies in the range of `i64`.
pub open spec fn parse_i64(s: Seq<char>) -> Option<i64> {
    let ds = unsigned_part(s);
    if ds.len() == 0 || !all_digits(ds) {
        None
    } else {
        let v: int = if is_negative(s) {
            -(digits_value(ds) as int)
        } else {
            digits_value(ds) as int
        };
        if i64::MIN <= v && v <= i64::MAX {
            Some(v as i64)
        } else {
            None
        }
    }
}

proof fn lemma_digits_value_prefix(ds: Seq<char>, k: int)
    requires
        0 <= k <= ds.len(),
    ensures
        digits_value(ds.take(k)) <= digits_value(ds),
    decreases ds.len(),
{
    if k < ds.len() {
        assert(ds.drop_last().take(k) =~= ds.take(k));
        lemma_digits_value_prefix(ds.drop_last(), k);
    } else {
        assert(ds.take(k) =~= ds);
    }
}

/// Parses a signed decimal number as `str::parse::<i64>` does.
pub fn parse_i64_exec(s: &[char]) -> (res: Option<i64>)
    ensures
        res == parse_i64(s@),
{
    let neg = s.len() > 0 && s[0] == '-';
    let start: usize = if s.len() > 0 && (s[0] == '-' || s[0] == '+') {
        1
    } else {
        0
    };
    let ghost ds = unsigned_part(s@);
    assert(ds =~= s@.skip(start as int));
    if start == s.len() {
        return None;
    }
    let mut k: usize = start;
    while k < s.len()
        invariant
            start <= k <= s@.len(),
            ds == s@.skip(start as int),
            ds == unsigned_part(s@),
            forall|i: int| start <= i < k ==> is_digit(#[trigger] s@[i]),
        decreases s.len() - k,
    {
        if !('0' <= s[k] && s[k] <= '9') {
            assert(ds[k - start] == s@[k as int]);
            assert(!is_digit(ds[k - start]));
            assert(!all_digits(ds));
            return None;
        }
        k = k + 1;
    }
    assert forall|i: int| 0 <= i < ds.len() implies is_digit(#[trigger] ds[i]) by {
        assert(ds[i] == s@[start + i]);
    }
    let limit: i128 = 9223372036854775808;
    let mut acc: i128 = 0;
    let mut j: usize = start;
    while j < s.len()
        invariant
            start <= j <= s@.len(),
            ds == s@.skip(start as int),
            ds == unsigned_part(s@),
            forall|i: int| 0 <= i < ds.len() ==> is_digit(#[trigger] ds[i]),
            acc as int == digits_value(ds.take(j - start)),
            0 <= acc <= limit,
            limit == 9223372036854775808,
        decreases s.len() - j,
    {
        assert(ds.take(j - start + 1).drop_last() =~= ds.take(j - start));
        assert(ds[j - start] == s@[j as int]);
        assert(is_digit(ds[j - start]));
        let c: char = s[j];
        let code: u32 = c as u32;
        assert(48 <= code && code <= 57);
        let d: i128 = (code - 48) as i128;
        acc = acc * 10 + d;
        j = j + 1;
        assert(acc as int == digits_value(ds.take(j - start)));
        if acc > limit {
            proof {
                lemma_digits_value_prefix(ds, j - start);
                assert(digits_value(ds) > 9223372036854775808int);
                assert(all_digits(ds));
                assert(ds.len() > 0);
            }
            return None;
        }
    }
    assert(ds.take(j - start) =~= ds);
    if neg {
        Some((0 - acc) as i64)
    } else if acc <= 9223372036854775807 {
        Some(acc as i64)
    } else {
        None
    }
}

} // verus!

verus! {

pub fn chars_eq(a: &[char], b: &[char]) -> (res: bool)
    ensures
        res == (a@ == b@),
{
    if a.len() != b.len() {
        return false;
    }
    let mut i: usize = 0;
    while i < a.len()
        invariant
            a@.len() == b@.len(),
            i <= a@.len(),
            forall|j: int| 0 <= j < i ==> a@[j] == b@[j],
        decreases a.len() - i,
    {
        if a[i] != b[i] {
            return false;
        }
        i = i + 1;
    }
    assert(a@ =~= b@);
    true
}

/// Whether two strings hold the same characters.
pub fn str_eq(a: &str, b: &str) -> (res: bool)
    ensures
        res == (a@ == b@),
{
    let ac = chars_of(a);
    let bc = chars_of(b);
    chars_eq(&ac, &bc)
}

/// A copy of `s`.
pub fn copy_str(s: &str) -> (res: String)
    ensures
        res@ == s@,
{
    let cs = chars_of(s);
    string_from_chars(&cs)
}

/// The concatenation of `a` and `b`.
pub fn concat_chars(a: &[char], b: &[char]) -> (res: Vec<char>)
    ensures
        res@ == a@ + b@,
{
    let mut out: Vec<char> = Vec::new();
    append_chars(&mut out, a);
    append_chars(&mut out, b);
    assert(out@ =~= a@ + b@);
    out
}

} // verus!

verus! {

/// The parts, with `sep` between each two neighbours.
pub open spec fn join_with(parts: Seq<Seq<char>>, sep: Seq<char>) -> Seq<char>
    decreases parts.len(),
{
    if parts.len() == 0 {
        Seq::empty()
    } else if parts.len() == 1 {
        parts[0]
    } else {
        join_with(parts.drop_last(), sep) + sep + parts.last()
    }
}

/// Joins the parts with `sep` between each two neighbours.
pub fn join_chars(parts: &Vec<Vec<char>>, sep: &[char]) -> (res: Vec<char>)
    ensures
        res@ == join_with(seq_view(parts@), sep@),
{
    let mut out: Vec<char> = Vec::new();
    let mut i: usize = 0;
    while i < parts.len()
        invariant
            i <= parts@.len(),
            out@ == join_with(seq_view(parts@).take(i as int), sep@),
        decreases parts.len() - i,
    {
        let ghost pre = seq_view(parts@).take(i as int);
        if i > 0 {
            append_chars(&mut out, sep);
        }
        append_chars(&mut out, parts[i].as_slice());
        i = i + 1;
        proof {
            let cur = seq_view(parts@).take(i as int);
            assert(cur.drop_last() =~= pre);
            assert(cur.last() == parts@[i - 1]@);
            if i == 1 {
                assert(out@ =~= cur[0]);
            } else {
                assert(out@ =~= join_with(pre, sep@) + sep@ + cur.last());
            }
        }
    }
    assert(seq_view(parts@).take(parts@.len() as int) =~= seq_view(parts@));
    out
}

} // verus!

verus! {

/// Appends the characters of `s`.
pub fn push_str(out: &mut Vec<char>, s: &str)
    ensures
        final(out)@ == old(out)@ + s@,
{
    let c = chars_of(s);
    append_chars(out, &c);
}

/// Appends the decimal digits of `n`.
pub fn push_decimal(out: &mut Vec<char>, n: u64)
    ensures
        final(out)@ == old(out)@ + decimal(n as nat),
{
    let c = u64_decimal(n);
    append_chars(out, &c);
}

/// Appends `n` in decimal, with a minus sign if negative.
pub fn push_signed(out: &mut Vec<char>, n: i64)
    ensures
        final(out)@ == old(out)@ + signed_decimal(n as int),
{
    let c = i64_decimal(n);
    append_chars(out, &c);
}

} // verus!

verus! {

/// `s` holds no character `c`.
pub open spec fn no_char(s: Seq<char>, c: char) -> bool {
    forall|k: int| 0 <= k < s.len() ==> s[k] != c
}

/// Every character of `s` is white space.
pub open spec fn all_ws(s: Seq<char>) -> bool {
    forall|k: int| 0 <= k < s.len() ==> is_ws(s[k])
}

pub proof fn lemma_join_with_cons(a: Seq<char>, rest: Seq<Seq<char>>, sep: Seq<char>)
    requires
        rest.len() > 0,
    ensures
        join_with(seq![a] + rest, sep) == a + sep + join_with(rest, sep),
    decreases rest.len(),
{
    let s = seq![a] + rest;
    if rest.len() == 1 {
        assert(s.drop_last() =~= seq![a]);
        assert(s.last() == rest[0]);
        assert(join_with(seq![a], sep) == a);
        assert(join_with(rest, sep) == rest[0]);
    } else {
        assert(s.drop_last() =~= seq![a] + rest.drop_last());
        lemma_join_with_cons(a, rest.drop_last(), sep);
        assert(s.last() == rest.last());
        assert(join_with(s, sep) =~= a + sep + join_with(rest, sep));
    }
}

/// Joining parts whose last part loses its last character loses the last
/// character of the whole.
pub proof fn lemma_join_with_drop_last(parts: Seq<Seq<char>>, sep: Seq<char>)
    requires
        parts.len() > 0,
        parts.last().len() > 0,
    ensures
        join_with(parts.update(parts.len() - 1, parts.last().drop_last()), sep) == join_with(
            parts,
            sep,
        ).drop_last(),
{
    let u = parts.update(parts.len() - 1, parts.last().drop_last());
    if parts.len() == 1 {
        assert(u[0] == parts[0].drop_last());
    } else {
        assert(u.drop_last() =~= parts.drop_last());
        assert(join_with(u, sep) =~= join_with(parts, sep).drop_last());
    }
}

proof fn lemma_first_newline(l: Seq<char>, r: Seq<char>)
    requires
        no_char(l, '\n'),
    ensures
        find_from(l + seq!['\n'] + r, seq!['\n'], 0) == Some(l.len() as int),
{
    let s = l + seq!['\n'] + r;
    let nl = seq!['\n'];
    lemma_find_from(s, nl, 0);
    assert(s.subrange(l.len() as int, l.len() + 1int) =~= nl);
    assert(occurs_at(s, nl, l.len() as int));
    match find_from(s, nl, 0) {
        Some(i) => {
            if i < l.len() {
                assert(s.subrange(i, i + 1)[0] == s[i]);
                assert(s[i] == l[i]);
            }
        },
        None => {},
    }
}

/// The lines of a text that starts with a line `l` and a line feed.
pub proof fn lemma_lines_cons(l: Seq<char>, r: Seq<char>)
    requires
        no_char(l, '\n'),
    ensures
        lines(l + seq!['\n'] + r) == seq![strip_cr(l)] + lines(r),
{
    let s = l + seq!['\n'] + r;
    lemma_first_newline(l, r);
    assert(s.take(l.len() as int) =~= l);
    assert(s.skip(l.len() + 1int) =~= r);
}

/// Joining the lines of a text without carriage returns by line feeds gives
/// the text back, but for a final line feed.
pub proof fn lemma_lines_rejoin(r: Seq<char>)
    requires
        no_char(r, '\r'),
    ensures
        r.len() > 0 && r.last() == '\n' ==> join_with(lines(r), seq!['\n']) + seq!['\n'] == r,
        !(r.len() > 0 && r.last() == '\n') ==> join_with(lines(r), seq!['\n']) == r,
    decreases r.len(),
{
    let nl = seq!['\n'];
    if r.len() > 0 {
        lemma_find_from(r, nl, 0);
        match find_from(r, nl, 0) {
            None => {
                assert(r.subrange(r.len() - 1, r.len() as int)[0] == r.last());
                if r.last() == '\n' {
                    assert(r.subrange(r.len() - 1, r.len() as int) =~= nl);
                    assert(occurs_at(r, nl, r.len() - 1));
                }
                assert(lines(r) == seq![r]);
                assert(join_with(seq![r], nl) == r);
            },
            Some(i) => {
                let l = r.take(i);
                let rest = r.skip(i + 1);
                assert forall|k: int| 0 <= k < l.len() implies l[k] != '\n' by {
                    assert(!occurs_at(r, nl, k));
                    assert(r.subrange(k, k + 1)[0] == r[k]);
                    if r[k] == '\n' {
                        assert(r.subrange(k, k + 1) =~= nl);
                    }
                }
                assert(r.subrange(i, i + 1)[0] == r[i]);
                assert(r =~= l + nl + rest);
                lemma_lines_cons(l, rest);
                if l.len() > 0 {
                    assert(l.last() == r[l.len() - 1]);
                }
                assert(strip_cr(l) == l);
                lemma_lines_rejoin(rest);
                if rest.len() == 0 {
                    assert(lines(rest) =~= Seq::<Seq<char>>::empty());
                    assert(seq![l] + lines(rest) =~= seq![l]);
                    assert(join_with(seq![l], nl) == l);
                    assert(r.last() == '\n');
                    assert(l + nl =~= r);
                } else {
                    assert(lines(rest).len() > 0);
                    lemma_join_with_cons(l, lines(rest), nl);
                    assert(rest.last() == r.last());
                    if r.last() == '\n' {
                        assert(join_with(lines(r), nl) + nl =~= r);
                    } else {
                        assert(join_with(lines(r), nl) =~= r);
                    }
                }
            },
        }
    }
}

/// An occurrence in `a + b` that lies within `a`, or within `b`, is an
/// occurrence there.
pub proof fn lemma_occurs_shift(a: Seq<char>, b: Seq<char>, p: Seq<char>, j: int)
    requires
        occurs_at(a + b, p, j),
    ensures
        j + p.len() <= a.len() ==> occurs_at(a, p, j),
        j >= a.len() ==> occurs_at(b, p, j - a.len()),
{
    let s = a + b;
    if j + p.len() <= a.len() {
        assert(s.subrange(j, j + p.len()) =~= a.subrange(j, j + p.len()));
    }
    if j >= a.len() {
        assert(s.subrange(j, j + p.len()) =~= b.subrange(j - a.len(), j - a.len() + p.len()));
    }
}

/// No occurrence of a pattern without line feeds can cross a line feed at
/// the junction of two texts that hold none.
pub proof fn lemma_no_occurrence_concat(a: Seq<char>, b: Seq<char>, p: Seq<char>)
    requires
        !contains(a, p),
        !contains(b, p),
        no_char(p, '\n'),
        (a.len() > 0 && a.last() == '\n') || (b.len() > 0 && b[0] == '\n'),
    ensures
        !contains(a + b, p),
{
    let s = a + b;
    assert forall|j: int| !occurs_at(s, p, j) by {
        if occurs_at(s, p, j) {
            lemma_occurs_shift(a, b, p, j);
            if j + p.len() > a.len() && j < a.len() {
                let q: int = if a.len() > 0 && a.last() == '\n' {
                    a.len() - 1
                } else {
                    a.len() as int
                };
                assert(s.subrange(j, j + p.len())[q - j] == s[q]);
                assert(s[q] == '\n');
            }
        }
    }
}

pub proof fn lemma_no_occurrence_prefix(s: Seq<char>, p: Seq<char>, k: int)
    requires
        !contains(s, p),
        0 <= k <= s.len(),
    ensures
        !contains(s.take(k), p),
{
    assert forall|j: int| !occurs_at(s.take(k), p, j) by {
        if occurs_at(s.take(k), p, j) {
            assert(s.subrange(j, j + p.len()) =~= s.take(k).subrange(j, j + p.len()));
            assert(occurs_at(s, p, j));
        }
    }
}

/// Splitting the parts joined by a pattern gives the parts back, when no part
/// holds the pattern and each but the last ends with a line feed.
pub proof fn lemma_split_join(parts: Seq<Seq<char>>, p: Seq<char>)
    requires
        parts.len() > 0,
        p.len() > 0,
        no_char(p, '\n'),
        forall|i: int| 0 <= i < parts.len() ==> !contains(#[trigger] parts[i], p),
        forall|i: int|
            0 <= i < parts.len() - 1 ==> (#[trigger] parts[i]).len() > 0 && parts[i].last() == '\n',
    ensures
        split_on(join_with(parts, p), p) == parts,
    decreases parts.len(),
{
    if parts.len() == 1 {
        lemma_find_from(parts[0], p, 0);
        assert(seq![parts[0]] =~= parts);
    } else {
        let a = parts[0];
        let rest = parts.subrange(1, parts.len() as int);
        assert(parts =~= seq![a] + rest);
        lemma_join_with_cons(a, rest, p);
        let s = a + p + join_with(rest, p);
        lemma_find_from(s, p, 0);
        assert(s.subrange(a.len() as int, (a.len() + p.len()) as int) =~= p);
        assert(occurs_at(s, p, a.len() as int));
        match find_from(s, p, 0) {
            Some(i) => {
                if i < a.len() {
                    assert(!contains(parts[0], p));
                    if i + p.len() <= a.len() {
                        assert(s.subrange(i, i + p.len()) =~= a.subrange(i, i + p.len()));
                        assert(occurs_at(a, p, i));
                    } else {
                        assert(s.subrange(i, i + p.len())[a.len() - 1 - i] == s[a.len() - 1]);
                        assert(s[a.len() - 1] == a.last());
                    }
                }
            },
            None => {},
        }
        assert(s.take(a.len() as int) =~= a);
        assert(s.skip((a.len() + p.len()) as int) =~= join_with(rest, p));
        assert forall|i: int| 0 <= i < rest.len() implies !contains(#[trigger] rest[i], p) by {
            assert(rest[i] == parts[i + 1]);
        }
        assert forall|i: int| 0 <= i < rest.len() - 1 implies (#[trigger] rest[i]).len() > 0
            && rest[i].last() == '\n' by {
            assert(rest[i] == parts[i + 1]);
        }
        lemma_split_join(rest, p);
        assert(split_on(s, p) =~= seq![a] + rest);
    }
}

/// Replacing a pattern that does not occur changes nothing.
pub proof fn lemma_replace_absent(s: Seq<char>, pat: Seq<char>, rep: Seq<char>)
    requires
        !contains(s, pat),
    ensures
        replace_all(s, pat, rep) == s,
    decreases s.len(),
{
    if s.len() > 0 && pat.len() > 0 {
        if starts_with(s, pat) {
            assert(s.subrange(0, pat.len() as int) =~= s.take(pat.len() as int));
            assert(occurs_at(s, pat, 0));
        }
        assert forall|j: int| !occurs_at(s.drop_first(), pat, j) by {
            if occurs_at(s.drop_first(), pat, j) {
                assert(s.subrange(j + 1, j + 1 + pat.len()) =~= s.drop_first().subrange(j, j + pat.len()));
                assert(occurs_at(s, pat, j + 1));
            }
        }
        lemma_replace_absent(s.drop_first(), pat, rep);
        assert(seq![s[0]] + s.drop_first() =~= s);
    }
}

/// Replacing in a text that starts with a piece ending in a line feed, and
/// without the pattern (which holds no line feed), leaves that piece alone.
pub proof fn lemma_replace_prefix(a: Seq<char>, b: Seq<char>, pat: Seq<char>, rep: Seq<char>)
    requires
        pat.len() > 0,
        no_char(pat, '\n'),
        !contains(a, pat),
        a.len() == 0 || a.last() == '\n',
    ensures
        replace_all(a + b, pat, rep) == a + replace_all(b, pat, rep),
    decreases a.len(),
{
    let s = a + b;
    if a.len() == 0 {
        assert(s =~= b);
        assert(a + replace_all(b, pat, rep) =~= replace_all(b, pat, rep));
    } else {
        if starts_with(s, pat) {
            assert(s.subrange(0, pat.len() as int) =~= s.take(pat.len() as int));
            if pat.len() <= a.len() {
                assert(s.subrange(0, pat.len() as int) =~= a.subrange(0, pat.len() as int));
                assert(occurs_at(a, pat, 0));
            } else {
                assert(s.take(pat.len() as int)[a.len() - 1] == a.last());
            }
        }
        let a1 = a.drop_first();
        assert forall|j: int| !occurs_at(a1, pat, j) by {
            if occurs_at(a1, pat, j) {
                assert(a.subrange(j + 1, j + 1 + pat.len()) =~= a1.subrange(j, j + pat.len()));
                assert(occurs_at(a, pat, j + 1));
            }
        }
        if a1.len() > 0 {
            assert(a1.last() == a.last());
        }
        lemma_replace_prefix(a1, b, pat, rep);
        assert(s.drop_first() =~= a1 + b);
        assert(seq![s[0]] + (a1 + replace_all(b, pat, rep)) =~= a + replace_all(b, pat, rep));
    }
}

pub proof fn lemma_trim_start_ws_prefix(w: Seq<char>, t: Seq<char>)
    requires
        all_ws(w),
    ensures
        trim_start(w + t) == trim_start(t),
    decreases w.len(),
{
    if w.len() > 0 {
        assert((w + t)[0] == w[0]);
        assert((w + t).drop_first() =~= w.drop_first() + t);
        lemma_trim_start_ws_prefix(w.drop_first(), t);
    } else {
        assert(w + t =~= t);
    }
}

pub proof fn lemma_trim_end_ws_suffix(t: Seq<char>, w: Seq<char>)
    requires
        all_ws(w),
    ensures
        trim_end(t + w) == trim_end(t),
    decreases w.len(),
{
    if w.len() > 0 {
        assert((t + w).last() == w.last());
        assert((t + w).drop_last() =~= t + w.drop_last());
        lemma_trim_end_ws_suffix(t, w.drop_last());
    } else {
        assert(t + w =~= t);
    }
}

proof fn lemma_trim_ws_suffix(t: Seq<char>, w: Seq<char>)
    requires
        all_ws(w),
    ensures
        trim(t + w) == trim(t),
    decreases t.len(),
{
    if t.len() == 0 {
        assert(t + w =~= w);
        lemma_trim_start_ws_prefix(w, Seq::<char>::empty());
        assert(w + Seq::<char>::empty() =~= w);
    } else if is_ws(t[0]) {
        assert((t + w)[0] == t[0]);
        assert((t + w).drop_first() =~= t.drop_first() + w);
        lemma_trim_ws_suffix(t.drop_first(), w);
    } else {
        assert((t + w)[0] == t[0]);
        lemma_trim_end_ws_suffix(t, w);
    }
}

/// Trimming ignores white space around a text.
pub proof fn lemma_trim_ws_around(w1: Seq<char>, t: Seq<char>, w2: Seq<char>)
    requires
        all_ws(w1),
        all_ws(w2),
    ensures
        trim(w1 + t + w2) == trim(t),
{
    assert(w1 + t + w2 =~= w1 + (t + w2));
    lemma_trim_start_ws_prefix(w1, t + w2);
    lemma_trim_ws_suffix(t, w2);
}

} // verus!

verus! {

/// `a` comes strictly before `b` in the order of their characters' code
/// points, a proper prefix first (the order of UTF-8 bytes too).
pub open spec fn lex_lt(a: Seq<char>, b: Seq<char>) -> bool
    decreases a.len(),
{
    if a.len() == 0 {
        b.len() > 0
    } else if b.len() == 0 {
        false
    } else if a[0] != b[0] {
        (a[0] as int) < (b[0] as int)
    } else {
        lex_lt(a.drop_first(), b.drop_first())
    }
}

pub proof fn lemma_lex_lt_irreflexive(a: Seq<char>)
    ensures
        !lex_lt(a, a),
    decreases a.len(),
{
    if a.len() > 0 {
        lemma_lex_lt_irreflexive(a.drop_first());
    }
}

pub proof fn lemma_lex_lt_transitive(a: Seq<char>, b: Seq<char>, c: Seq<char>)
    requires
        lex_lt(a, b),
        lex_lt(b, c),
    ensures
        lex_lt(a, c),
    decreases a.len(),
{
    if a.len() > 0 && b.len() > 0 && c.len() > 0 && a[0] == b[0] && b[0] == c[0] {
        lemma_lex_lt_transitive(a.drop_first(), b.drop_first(), c.drop_first());
    }
}

pub proof fn lemma_lex_lt_total(a: Seq<char>, b: Seq<char>)
    ensures
        a == b || lex_lt(a, b) || lex_lt(b, a),
    decreases a.len(),
{
    if a.len() > 0 && b.len() > 0 && a[0] == b[0] {
        lemma_lex_lt_total(a.drop_first(), b.drop_first());
        if a.drop_first() == b.drop_first() {
            assert(a =~= seq![a[0]] + a.drop_first());
            assert(b =~= seq![b[0]] + b.drop_first());
        }
    } else if a.len() > 0 && b.len() > 0 {
        assert((a[0] as int) != (b[0] as int));
    } else if a.len() == 0 && b.len() == 0 {
        assert(a =~= b);
    }
}

/// Whether `a` comes strictly before `b` (code point order).
pub fn lex_less(a: &str, b: &str) -> (res: bool)
    ensures
        res == lex_lt(a@, b@),
{
    let x = chars_of(a);
    let y = chars_of(b);
    let mut i: usize = 0;
    assert(a@.skip(0) =~= a@);
    assert(b@.skip(0) =~= b@);
    while i < x.len() && i < y.len() && x[i] == y[i]
        invariant
            i <= x@.len(),
            i <= y@.len(),
            x@ == a@,
            y@ == b@,
            lex_lt(a@, b@) == lex_lt(a@.skip(i as int), b@.skip(i as int)),
        decreases x.len() - i,
    {
        proof {
            let xs = a@.skip(i as int);
            let ys = b@.skip(i as int);
            assert(xs[0] == ys[0]);
            assert(xs.drop_first() =~= a@.skip(i + 1));
            assert(ys.drop_first() =~= b@.skip(i + 1));
        }
        i = i + 1;
    }
    proof {
        let xs = a@.skip(i as int);
        let ys = b@.skip(i as int);
        if i < x.len() && i < y.len() {
            assert(xs[0] == x@[i as int]);
            assert(ys[0] == y@[i as int]);
        }
    }
    if i == x.len() {
        i < y.len()
    } else if i == y.len() {
        false
    } else {
        x[i] < y[i]
    }
}

} // verus!

verus! {

proof fn lemma_digit_char_value(d: nat)
    requires
        d < 10,
    ensures
        digit_value(digit_char(d)) == d,
        is_digit(digit_char(d)),
{
    assert((48 + d) as char as int == 48 + d);
}

/// The decimal digits of a number spell it back.
pub proof fn lemma_decimal_digits(n: nat)
    ensures
        decimal(n).len() > 0,
        all_digits(decimal(n)),
        digits_value(decimal(n)) == n,
    decreases n,
{
    lemma_digit_char_value((n % 10) as nat);
    if n >= 10 {
        lemma_decimal_digits(n / 10);
        let d = decimal(n);
        let prev = decimal(n / 10);
        assert(d == prev.push(digit_char((n % 10) as nat)));
        assert(d.drop_last() =~= prev);
        assert(d.last() == digit_char((n % 10) as nat));
        assert forall|i: int| 0 <= i < d.len() implies is_digit(#[trigger] d[i]) by {
            if i < prev.len() {
                assert(d[i] == prev[i]);
            }
        }
        assert(digits_value(d) == digits_value(prev) * 10 + (n % 10));
        assert(n == (n / 10) * 10 + n % 10) by (nonlinear_arith);
    } else {
        let d = decimal(n);
        assert(d == seq![digit_char(n)]);
        assert(d.drop_last() =~= Seq::<char>::empty());
        assert(digits_value(Seq::<char>::empty()) == 0);
        assert(digits_value(d) == digits_value(d.drop_last()) * 10 + digit_value(d.last()));
    }
}

/// Reading the decimal text of a number gives the number back
/// (`str::parse::<i64>` of its `Display`).
pub proof fn lemma_parse_signed_decimal(n: i64)
    ensures
        parse_i64(signed_decimal(n as int)) == Some(n),
        no_char(signed_decimal(n as int), ':'),
{
    let s = signed_decimal(n as int);
    if n < 0 {
        let m = (-n) as nat;
        lemma_decimal_digits(m);
        assert(s.drop_first() =~= decimal(m));
        assert forall|k: int| 0 <= k < s.len() implies s[k] != ':' by {
            if k > 0 {
                assert(s[k] == decimal(m)[k - 1]);
            }
        }
    } else {
        lemma_decimal_digits(n as nat);
        assert(is_digit(s[0]));
        assert forall|k: int| 0 <= k < s.len() implies s[k] != ':' by {
            assert(is_digit(s[k]));
        }
    }
}

} // verus!
