//! Character-level text rules: whitespace, trimming, comma splitting and
//! decimal rendering, stated over `Seq<char>`.

use vstd::prelude::*;

verus! {

/// The Unicode `White_Space` property, which is what `char::is_whitespace`
/// and `str::trim` use.
pub open spec fn is_ws(c: char) -> bool {
    let u = c as u32;
    ||| 0x09 <= u <= 0x0D
    ||| u == 0x20
    ||| u == 0x85
    ||| u == 0xA0
    ||| u == 0x1680
    ||| 0x2000 <= u <= 0x200A
    ||| u == 0x2028
    ||| u == 0x2029
    ||| u == 0x202F
    ||| u == 0x205F
    ||| u == 0x3000
}

/// Executable test of the `White_Space` property.
pub fn is_unicode_whitespace(c: char) -> (r: bool)
    ensures
        r == is_ws(c),
{
    let u = c as u32;
    (0x09 <= u && u <= 0x0D) || u == 0x20 || u == 0x85 || u == 0xA0 || u == 0x1680 || (0x2000
        <= u && u <= 0x200A) || u == 0x2028 || u == 0x2029 || u == 0x202F || u == 0x205F || u
        == 0x3000
}

/// The characters of a string slice, in order.
pub fn chars_of(s: &str) -> (v: Vec<char>)
    ensures
        v@ == s@,
{
    let mut v: Vec<char> = Vec::new();
    for c in it: s.chars()
        invariant
            v@ == it.seq().take(it.index()),
            it.seq() == s@,
    {
        v.push(c);
    }
    v
}


/// `s` with leading `White_Space` removed, as `str::trim_start` does.
pub open spec fn trim_start(s: Seq<char>) -> Seq<char>
    decreases s.len(),
{
    if s.len() > 0 && is_ws(s[0]) {
        trim_start(s.drop_first())
    } else {
        s
    }
}

/// `s` with trailing `White_Space` removed, as `str::trim_end` does.
pub open spec fn trim_end(s: Seq<char>) -> Seq<char>
    decreases s.len(),
{
    if s.len() > 0 && is_ws(s.last()) {
        trim_end(s.drop_last())
    } else {
        s
    }
}

/// `s` with whitespace removed at both ends, as `str::trim` does.
pub open spec fn trim(s: Seq<char>) -> Seq<char> {
    trim_end(trim_start(s))
}

/// The pieces of `s` between occurrences of `sep`, as `str::split` yields
/// them for a `char` pattern: there is always one more piece than there are
/// separators, and pieces may be empty.
pub open spec fn split_on(s: Seq<char>, sep: char) -> Seq<Seq<char>>
    decreases s.len(),
{
    if s.len() == 0 {
        seq![Seq::<char>::empty()]
    } else {
        let rest = split_on(s.drop_last(), sep);
        if s.last() == sep {
            rest.push(Seq::<char>::empty())
        } else {
            rest.update(rest.len() - 1, rest.last().push(s.last()))
        }
    }
}

/// Each comma-separated field of `s`, trimmed.
pub open spec fn trimmed_fields(s: Seq<char>) -> Seq<Seq<char>> {
    split_on(s, ',').map_values(|p: Seq<char>| trim(p))
}

/// The pieces that are not empty, in their order.
pub open spec fn drop_empty(p: Seq<Seq<char>>) -> Seq<Seq<char>>
    decreases p.len(),
{
    if p.len() == 0 {
        p
    } else {
        let r = drop_empty(p.drop_last());
        if p.last().len() == 0 {
            r
        } else {
            r.push(p.last())
        }
    }
}

/// The character contents of each string.
pub open spec fn string_views(v: Seq<String>) -> Seq<Seq<char>> {
    v.map_values(|s: String| s@)
}

pub proof fn lemma_split_on_nonempty(s: Seq<char>, sep: char)
    ensures
        split_on(s, sep).len() >= 1,
    decreases s.len(),
{
    if s.len() > 0 {
        lemma_split_on_nonempty(s.drop_last(), sep);
    }
}

proof fn lemma_trim_start_at(s: Seq<char>, i: int)
    requires
        0 <= i <= s.len(),
        forall|k: int| 0 <= k < i ==> is_ws(#[trigger] s[k]),
        i == s.len() || !is_ws(s[i]),
    ensures
        trim_start(s) == s.subrange(i, s.len() as int),
    decreases i,
{
    if i > 0 {
        let t = s.drop_first();
        assert forall|k: int| 0 <= k < i - 1 implies is_ws(#[trigger] t[k]) by {
            assert(t[k] == s[k + 1]);
        }
        lemma_trim_start_at(t, i - 1);
        assert(t.subrange(i - 1, t.len() as int) =~= s.subrange(i, s.len() as int));
    } else {
        assert(s.subrange(0, s.len() as int) =~= s);
    }
}

proof fn lemma_trim_end_at(s: Seq<char>, j: int)
    requires
        0 <= j <= s.len(),
        forall|k: int| j <= k < s.len() ==> is_ws(#[trigger] s[k]),
        j == 0 || !is_ws(s[j - 1]),
    ensures
        trim_end(s) == s.subrange(0, j),
    decreases s.len() - j,
{
    if j < s.len() {
        let t = s.drop_last();
        assert forall|k: int| j <= k < t.len() implies is_ws(#[trigger] t[k]) by {
            assert(t[k] == s[k]);
        }
        lemma_trim_end_at(t, j);
        assert(t.subrange(0, j) =~= s.subrange(0, j));
    } else {
        assert(s.subrange(0, j) =~= s);
    }
}

/// How many times `c` occurs in `s`.
pub open spec fn count_char(s: Seq<char>, c: char) -> nat
    decreases s.len(),
{
    if s.len() == 0 {
        0
    } else {
        count_char(s.drop_last(), c) + if s.last() == c {
            1nat
        } else {
            0nat
        }
    }
}

/// Splitting yields one more field than there are separators.
pub proof fn lemma_field_count(s: Seq<char>, sep: char)
    ensures
        split_on(s, sep).len() == count_char(s, sep) + 1,
    decreases s.len(),
{
    if s.len() > 0 {
        lemma_field_count(s.drop_last(), sep);
    }
}

/// The code points with the Unicode `White_Space` property, listed one by
/// one.
pub open spec fn white_space_code_points() -> Seq<u32> {
    seq![
        0x09u32, 0x0A, 0x0B, 0x0C, 0x0D, 0x20, 0x85, 0xA0, 0x1680, 0x2000, 0x2001, 0x2002, 0x2003,
        0x2004, 0x2005, 0x2006, 0x2007, 0x2008, 0x2009, 0x200A, 0x2028, 0x2029, 0x202F, 0x205F,
        0x3000,
    ]
}

/// A character is whitespace exactly when its code point is in the list.
pub proof fn lemma_ws_is_listed(c: char)
    ensures
        is_ws(c) <==> white_space_code_points().contains(c as u32),
{
    let t = white_space_code_points();
    let u = c as u32;
    if is_ws(c) {
        if 0x09 <= u <= 0x0D {
            assert(t[u as int - 0x09] == u);
        } else if u == 0x20 {
            assert(t[5] == u);
        } else if u == 0x85 {
            assert(t[6] == u);
        } else if u == 0xA0 {
            assert(t[7] == u);
        } else if u == 0x1680 {
            assert(t[8] == u);
        } else if 0x2000 <= u <= 0x200A {
            assert(t[u as int - 0x2000 + 9] == u);
        } else if u == 0x2028 {
            assert(t[20] == u);
        } else if u == 0x2029 {
            assert(t[21] == u);
        } else if u == 0x202F {
            assert(t[22] == u);
        } else if u == 0x205F {
            assert(t[23] == u);
        } else {
            assert(t[24] == u);
        }
    }
}

/// The separated pieces joined back with the separator.
pub open spec fn join_with(pieces: Seq<Seq<char>>, sep: char) -> Seq<char>
    decreases pieces.len(),
{
    if pieces.len() == 0 {
        Seq::<char>::empty()
    } else if pieces.len() == 1 {
        pieces[0]
    } else {
        join_with(pieces.drop_last(), sep).push(sep) + pieces.last()
    }
}

/// Splitting loses nothing: joining the pieces with the separator gives the
/// text back, and no piece holds the separator.
pub proof fn lemma_split_join(s: Seq<char>, sep: char)
    ensures
        join_with(split_on(s, sep), sep) == s,
        forall|k: int| 0 <= k < split_on(s, sep).len() ==> !(#[trigger] split_on(s, sep)[k]).contains(sep),
    decreases s.len(),
{
    assert forall|k: int| 0 <= k < split_on(s, sep).len() implies !(#[trigger] split_on(s, sep)[k]).contains(sep) by {
        lemma_split_pieces_have_no_sep(s, sep, k);
    }
    if s.len() > 0 {
        let d = s.drop_last();
        lemma_split_join(d, sep);
        lemma_split_on_nonempty(d, sep);
        let rest = split_on(d, sep);
        if s.last() == sep {
            let p = rest.push(Seq::<char>::empty());
            assert(p.drop_last() =~= rest);
            assert(join_with(p, sep) == join_with(rest, sep).push(sep) + Seq::<char>::empty());
            assert(join_with(rest, sep).push(sep) + Seq::<char>::empty() =~= s);
        } else {
            let p = rest.update(rest.len() - 1, rest.last().push(s.last()));
            if rest.len() == 1 {
                assert(join_with(rest, sep) == rest[0]);
                assert(p[0] =~= s);
            } else {
                assert(p.drop_last() =~= rest.drop_last());
                assert(join_with(rest, sep) == join_with(rest.drop_last(), sep).push(sep) + rest.last());
                assert(join_with(p, sep) =~= join_with(rest, sep).push(s.last()));
                assert(join_with(rest, sep).push(s.last()) =~= s);
            }
        }
    } else {
        assert(split_on(s, sep) == seq![Seq::<char>::empty()]);
        assert(s =~= Seq::<char>::empty());
    }
}

/// Trimming keeps a contiguous middle part: everything removed is
/// whitespace, and what is kept neither starts nor ends with whitespace.
pub proof fn lemma_trim_characterized(s: Seq<char>)
    ensures
        exists|i: int, j: int|
            0 <= i <= j <= s.len() && trim(s) == s.subrange(i, j) && (forall|k: int|
                0 <= k < i ==> is_ws(#[trigger] s[k])) && (forall|k: int|
                j <= k < s.len() ==> is_ws(#[trigger] s[k])),
        trim(s).len() > 0 ==> !is_ws(trim(s)[0]) && !is_ws(trim(s).last()),
{
    let a = trim_start(s);
    lemma_trim_start_shape(s);
    lemma_trim_end_shape(a);
    let i = choose|i: int|
        0 <= i <= s.len() && a == s.subrange(i, s.len() as int) && forall|k: int|
            0 <= k < i ==> is_ws(#[trigger] s[k]);
    let j = choose|j: int|
        0 <= j <= a.len() && trim_end(a) == a.subrange(0, j) && forall|k: int|
            j <= k < a.len() ==> is_ws(#[trigger] a[k]);
    assert(a.subrange(0, j) =~= s.subrange(i, i + j));
    assert forall|k: int| i + j <= k < s.len() implies is_ws(#[trigger] s[k]) by {
        assert(s[k] == a[k - i]);
    }
    if trim(s).len() > 0 {
        assert(trim(s)[0] == a[0]);
    }
    assert(0 <= i <= i + j <= s.len() && trim(s) == s.subrange(i, i + j));
}

/// An entry of a comma-separated list as `parse_list_string` leaves it:
/// non-empty, free of commas, and without whitespace at either end.
pub open spec fn clean_entry(e: Seq<char>) -> bool {
    &&& e.len() > 0
    &&& !e.contains(',')
    &&& !is_ws(e[0])
    &&& !is_ws(e.last())
}

proof fn lemma_split_pieces_have_no_sep(s: Seq<char>, sep: char, k: int)
    requires
        0 <= k < split_on(s, sep).len(),
    ensures
        !split_on(s, sep)[k].contains(sep),
    decreases s.len(),
{
    if s.len() > 0 {
        let rest = split_on(s.drop_last(), sep);
        lemma_split_on_nonempty(s.drop_last(), sep);
        if s.last() == sep {
            if k < rest.len() {
                lemma_split_pieces_have_no_sep(s.drop_last(), sep, k);
            }
        } else {
            lemma_split_pieces_have_no_sep(s.drop_last(), sep, k);
            if k == rest.len() - 1 {
                let piece = rest.last().push(s.last());
                if piece.contains(sep) {
                    let j = choose|j: int| 0 <= j < piece.len() && piece[j] == sep;
                    assert(rest.last()[j] == sep);
                }
            }
        }
    }
}

proof fn lemma_trim_start_shape(s: Seq<char>)
    ensures
        exists|i: int|
            0 <= i <= s.len() && trim_start(s) == s.subrange(i, s.len() as int) && forall|k: int|
                0 <= k < i ==> is_ws(#[trigger] s[k]),
        trim_start(s).len() > 0 ==> !is_ws(trim_start(s)[0]),
    decreases s.len(),
{
    if s.len() > 0 && is_ws(s[0]) {
        let t = s.drop_first();
        lemma_trim_start_shape(t);
        let i = choose|i: int|
            0 <= i <= t.len() && trim_start(t) == t.subrange(i, t.len() as int) && forall|k: int|
                0 <= k < i ==> is_ws(#[trigger] t[k]);
        assert(t.subrange(i, t.len() as int) =~= s.subrange(i + 1, s.len() as int));
        assert forall|k: int| 0 <= k < i + 1 implies is_ws(#[trigger] s[k]) by {
            if k > 0 {
                assert(s[k] == t[k - 1]);
            }
        }
    } else {
        assert(s.subrange(0, s.len() as int) =~= s);
    }
}

proof fn lemma_trim_end_shape(s: Seq<char>)
    ensures
        exists|j: int|
            0 <= j <= s.len() && trim_end(s) == s.subrange(0, j) && forall|k: int|
                j <= k < s.len() ==> is_ws(#[trigger] s[k]),
        trim_end(s).len() > 0 ==> !is_ws(trim_end(s).last()),
    decreases s.len(),
{
    if s.len() > 0 && is_ws(s.last()) {
        let t = s.drop_last();
        lemma_trim_end_shape(t);
        let j = choose|j: int|
            0 <= j <= t.len() && trim_end(t) == t.subrange(0, j) && forall|k: int|
                j <= k < t.len() ==> is_ws(#[trigger] t[k]);
        assert(t.subrange(0, j) =~= s.subrange(0, j));
        assert forall|k: int| j <= k < s.len() implies is_ws(#[trigger] s[k]) by {
            if k < t.len() {
                assert(s[k] == t[k]);
            }
        }
    } else {
        assert(s.subrange(0, s.len() as int) =~= s);
    }
}

proof fn lemma_trim_clean(p: Seq<char>)
    requires
        !p.contains(','),
        trim(p).len() > 0,
    ensures
        clean_entry(trim(p)),
{
    let a = trim_start(p);
    lemma_trim_start_shape(p);
    lemma_trim_end_shape(a);
    let i = choose|i: int|
        0 <= i <= p.len() && a == p.subrange(i, p.len() as int) && forall|k: int|
            0 <= k < i ==> is_ws(#[trigger] p[k]);
    let j = choose|j: int|
        0 <= j <= a.len() && trim_end(a) == a.subrange(0, j) && forall|k: int|
            j <= k < a.len() ==> is_ws(#[trigger] a[k]);
    let t = trim(p);
    assert(t[0] == a[0]);
    if t.contains(',') {
        let k = choose|k: int| 0 <= k < t.len() && t[k] == ',';
        assert(p[i + k] == ',');
    }
}

proof fn lemma_drop_empty_members(p: Seq<Seq<char>>, k: int)
    requires
        0 <= k < drop_empty(p).len(),
    ensures
        drop_empty(p)[k].len() > 0,
        p.contains(drop_empty(p)[k]),
    decreases p.len(),
{
    if p.len() > 0 {
        let r = drop_empty(p.drop_last());
        if k < r.len() {
            lemma_drop_empty_members(p.drop_last(), k);
            let j = choose|j: int| 0 <= j < p.drop_last().len() && p.drop_last()[j] == r[k];
            assert(p[j] == r[k]);
        } else {
            assert(p[p.len() - 1] == drop_empty(p)[k]);
        }
    }
}

/// Every entry that `parse_list_string` returns is non-empty, holds no comma
/// and has no whitespace at either end.
pub proof fn lemma_list_entries_clean(value: Seq<char>, k: int)
    requires
        0 <= k < drop_empty(trimmed_fields(value)).len(),
    ensures
        clean_entry(drop_empty(trimmed_fields(value))[k]),
{
    let f = trimmed_fields(value);
    let e = drop_empty(f)[k];
    lemma_drop_empty_members(f, k);
    let j = choose|j: int| 0 <= j < f.len() && f[j] == e;
    lemma_split_pieces_have_no_sep(value, ',', j);
    lemma_trim_clean(split_on(value, ',')[j]);
}

/// Appends one character to a `String`.
///
/// Calls std's `String::push`; the contract claims only that the character
/// is appended at the end.
#[verifier::external_body]
pub(crate) fn push_char(s: &mut String, c: char)
    ensures
        final(s)@ == old(s)@.push(c),
{
    s.push(c);
}

/// A `String` holding `v[from..to]`.
pub fn string_from_range(v: &Vec<char>, from: usize, to: usize) -> (r: String)
    requires
        from <= to <= v.len(),
    ensures
        r@ == v@.subrange(from as int, to as int),
{
    let mut r = String::new();
    let mut i = from;
    while i < to
        invariant
            from <= i <= to <= v.len(),
            r@ == v@.subrange(from as int, i as int),
        decreases to - i,
    {
        push_char(&mut r, v[i]);
        i = i + 1;
        assert(r@ =~= v@.subrange(from as int, i as int));
    }
    r
}

/// `v[from..to]` with `White_Space` removed at both ends, as a `String`.
pub fn trimmed_range(v: &Vec<char>, from: usize, to: usize) -> (r: String)
    requires
        from <= to <= v.len(),
    ensures
        r@ == trim(v@.subrange(from as int, to as int)),
{
    let ghost s = v@.subrange(from as int, to as int);
    let mut i = from;
    while i < to && is_unicode_whitespace(v[i])
        invariant
            from <= i <= to <= v.len(),
            s == v@.subrange(from as int, to as int),
            forall|k: int| 0 <= k < i - from ==> is_ws(#[trigger] s[k]),
        decreases to - i,
    {
        i = i + 1;
    }
    proof {
        lemma_trim_start_at(s, i - from);
    }
    let ghost t = s.subrange(i - from, s.len() as int);
    let mut j = to;
    while j > i && is_unicode_whitespace(v[j - 1])
        invariant
            from <= i <= j <= to <= v.len(),
            s == v@.subrange(from as int, to as int),
            t == s.subrange(i - from, s.len() as int),
            forall|k: int| j - i <= k < t.len() ==> is_ws(#[trigger] t[k]),
        decreases j - i,
    {
        j = j - 1;
    }
    proof {
        lemma_trim_end_at(t, j - i);
        assert(t.subrange(0, j - i) =~= v@.subrange(i as int, j as int));
    }
    string_from_range(v, i, j)
}


/// Splits `value` at every comma and trims each piece; the pieces keep their
/// order and empty pieces are kept.
pub fn split_trimmed(value: &str) -> (out: Vec<String>)
    ensures
        string_views(out@) == trimmed_fields(value@),
        out.len() == count_char(value@, ',') + 1,
{
    proof {
        lemma_field_count(value@, ',');
    }
    let chars = chars_of(value);
    let n = chars.len();
    let mut out: Vec<String> = Vec::new();
    let mut start: usize = 0;
    let mut i: usize = 0;
    proof {
        assert(chars@.take(0) =~= Seq::<char>::empty());
    }
    while i < n
        invariant
            n == chars.len(),
            chars@ == value@,
            start <= i <= n,
            ({
                let sp = split_on(chars@.take(i as int), ',');
                &&& sp.len() == out.len() + 1
                &&& sp.last() == chars@.subrange(start as int, i as int)
                &&& forall|k: int|
                    0 <= k < out.len() ==> (#[trigger] out@[k])@ == trim(sp[k])
            }),
        decreases n - i,
    {
        let ghost sp = split_on(chars@.take(i as int), ',');
        proof {
            assert(chars@.take(i + 1).drop_last() =~= chars@.take(i as int));
            assert(chars@.take(i + 1).last() == chars@[i as int]);
        }
        if chars[i] == ',' {
            let piece = trimmed_range(&chars, start, i);
            out.push(piece);
            start = i + 1;
            i = i + 1;
            proof {
                assert(chars@.subrange(start as int, i as int) =~= Seq::<char>::empty());
            }
        } else {
            i = i + 1;
            proof {
                assert(chars@.subrange(start as int, i as int) =~= chars@.subrange(
                    start as int,
                    i - 1,
                ).push(chars@[i - 1]));
            }
        }
    }
    let ghost sp = split_on(chars@.take(n as int), ',');
    let last = trimmed_range(&chars, start, n);
    out.push(last);
    proof {
        assert(chars@.take(n as int) =~= value@);
        assert(string_views(out@) =~= trimmed_fields(value@));
    }
    out
}

/// Splits `value` at commas, trims each piece and drops the empty ones.
pub fn parse_list_string(value: &str) -> (out: Vec<String>)
    ensures
        string_views(out@) == drop_empty(trimmed_fields(value@)),
{
    let fields = split_trimmed(value);
    let ghost f = string_views(fields@);
    let mut out: Vec<String> = Vec::new();
    let mut i: usize = 0;
    while i < fields.len()
        invariant
            i <= fields.len(),
            f == string_views(fields@),
            string_views(out@) == drop_empty(f.take(i as int)),
        decreases fields.len() - i,
    {
        proof {
            assert(f.take(i + 1).drop_last() =~= f.take(i as int));
        }
        if fields[i].as_str().is_empty() == false {
            out.push(fields[i].clone());
            proof {
                assert(string_views(out@) =~= drop_empty(f.take(i as int)).push(f[i as int]));
            }
        }
        i = i + 1;
    }
    proof {
        assert(f.take(i as int) =~= f);
    }
    out
}


/// The ASCII digit for `d`, for `d < 10`.
pub open spec fn digit_char(d: nat) -> char {
    (48 + d) as char
}

/// Decimal digits of `n` without leading zeros, as `Display` renders an
/// unsigned integer.
pub open spec fn dec_nat(n: nat) -> Seq<char>
    decreases n,
{
    if n < 10 {
        seq![digit_char(n)]
    } else {
        dec_nat(n / 10).push(digit_char(n % 10))
    }
}

/// Decimal rendering of a signed integer, as `Display` renders it.
pub open spec fn dec_int(i: int) -> Seq<char> {
    if i < 0 {
        seq!['-'] + dec_nat((-i) as nat)
    } else {
        dec_nat(i as nat)
    }
}

/// The number that a string of decimal digits denotes, most significant
/// digit first.
pub open spec fn digits_value(s: Seq<char>) -> int
    decreases s.len(),
{
    if s.len() == 0 {
        0
    } else {
        digits_value(s.drop_last()) * 10 + (s.last() as int - 48)
    }
}

/// The decimal rendering of n consists of ASCII digits that denote n, with
/// no leading zero.
pub proof fn lemma_dec_nat_digits(n: nat)
    ensures
        digits_value(dec_nat(n)) == n,
        dec_nat(n).len() >= 1,
        forall|i: int| 0 <= i < dec_nat(n).len() ==> 48 <= #[trigger] (dec_nat(n)[i] as int) <= 57,
        n > 0 ==> dec_nat(n)[0] != '0',
        n == 0 ==> dec_nat(n) == seq!['0'],
    decreases n,
{
    if n >= 10 {
        lemma_dec_nat_digits(n / 10);
        let h = dec_nat(n / 10);
        assert(dec_nat(n) == h.push(digit_char(n % 10)));
        assert(dec_nat(n).drop_last() =~= h);
        assert(dec_nat(n).last() == digit_char(n % 10));
        assert(((48 + n % 10) as char) as int == 48 + n % 10);
        assert(digits_value(dec_nat(n)) == digits_value(h) * 10 + (n % 10));
        assert(forall|i: int| 0 <= i < h.len() ==> dec_nat(n)[i] == h[i]);
    } else {
        let s = seq![digit_char(n)];
        assert(dec_nat(n) == s);
        assert(((48 + n) as char) as int == 48 + n);
        assert(s.drop_last() =~= Seq::<char>::empty());
        assert(digits_value(Seq::<char>::empty()) == 0);
        assert(digits_value(s) == digits_value(s.drop_last()) * 10 + (s.last() as int - 48));
    }
}

/// Appends the decimal digits of `n` to `s`.
pub fn push_decimal(s: &mut String, n: u64)
    ensures
        final(s)@ == old(s)@ + dec_nat(n as nat),
    decreases n,
{
    if n >= 10 {
        push_decimal(s, n / 10);
    }
    let d = (n % 10) as u8;
    let c = (48u8 + d) as char;
    push_char(s, c);
    proof {
        assert(dec_nat(n as nat) == if n < 10 {
            seq![digit_char(n as nat)]
        } else {
            dec_nat((n / 10) as nat).push(digit_char((n % 10) as nat))
        });
        if n < 10 {
            assert(old(s)@ + dec_nat(n as nat) =~= old(s)@.push(c));
        } else {
            assert((old(s)@ + dec_nat((n / 10) as nat)).push(c) =~= old(s)@ + dec_nat(
                n as nat,
            ));
        }
    }
}

/// Appends the decimal rendering of a signed `i` to `s`.
pub fn push_signed_decimal(s: &mut String, i: i64)
    ensures
        final(s)@ == old(s)@ + dec_int(i as int),
{
    if i < 0 {
        push_char(s, '-');
        let mag: u64 = if i == i64::MIN {
            0x8000_0000_0000_0000u64
        } else {
            (-i) as u64
        };
        push_decimal(s, mag);
        proof {
            assert(old(s)@ + dec_int(i as int) =~= old(s)@.push('-') + dec_nat(mag as nat));
        }
    } else {
        push_decimal(s, i as u64);
    }
}

/// Whether two string slices hold the same characters.
pub fn str_eq(a: &str, b: &str) -> (r: bool)
    ensures
        r == (a@ == b@),
{
    let x = chars_of(a);
    let y = chars_of(b);
    if x.len() != y.len() {
        return false;
    }
    let mut i: usize = 0;
    while i < x.len()
        invariant
            x.len() == y.len(),
            i <= x.len(),
            x@ == a@,
            y@ == b@,
            forall|k: int| 0 <= k < i ==> x@[k] == y@[k],
        decreases x.len() - i,
    {
        if x[i] != y[i] {
            return false;
        }
        i = i + 1;
    }
    proof {
        assert(x@ =~= y@);
    }
    true
}

/// Whether `p` is a prefix of the characters of `s`.
pub fn chars_start_with(s: &Vec<char>, p: &str) -> (r: bool)
    ensures
        r == p@.is_prefix_of(s@),
{
    let q = chars_of(p);
    if q.len() > s.len() {
        return false;
    }
    let mut i: usize = 0;
    while i < q.len()
        invariant
            q.len() <= s.len(),
            i <= q.len(),
            q@ == p@,
            forall|k: int| 0 <= k < i ==> q@[k] == s@[k],
        decreases q.len() - i,
    {
        if q[i] != s[i] {
            return false;
        }
        i = i + 1;
    }
    true
}

/// `s` with every `/` replaced by `_`.
pub open spec fn slash_free(s: Seq<char>) -> Seq<char> {
    s.map_values(|c: char| if c == '/' { '_' } else { c })
}

/// A state name made safe for use inside a file name: each `/` becomes `_`.
pub fn safe_state_tag(state: &str) -> (r: String)
    ensures
        r@ == slash_free(state@),
{
    let chars = chars_of(state);
    let mut r = String::new();
    let mut i: usize = 0;
    while i < chars.len()
        invariant
            i <= chars.len(),
            chars@ == state@,
            r@ == slash_free(chars@.take(i as int)),
        decreases chars.len() - i,
    {
        let c = chars[i];
        if c == '/' {
            push_char(&mut r, '_');
        } else {
            push_char(&mut r, c);
        }
        i = i + 1;
        assert(r@ =~= slash_free(chars@.take(i as int)));
    }
    assert(chars@.take(i as int) =~= chars@);
    r
}

/// Replacing `/` is idempotent: a tag that is already safe is kept as it is.
pub proof fn lemma_safe_state_tag_idempotent(s: Seq<char>)
    ensures
        slash_free(slash_free(s)) == slash_free(s),
        !slash_free(s).contains('/'),
        slash_free(s).len() == s.len(),
{
    assert(slash_free(slash_free(s)) =~= slash_free(s));
}

} // verus!
