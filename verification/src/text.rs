//! Text: white space, trimming, searching, joining and splitting lists, and
//! reading decimal numbers, each with its meaning stated over character sequences.
use vstd::prelude::*;

verus! {

/// The Unicode `White_Space` property: the characters that `char::is_whitespace`
/// accepts and that `str::trim` removes.
pub open spec fn is_white_space(c: char) -> bool {
    let u = c as u32;
    ||| 0x9 <= u <= 0xd
    ||| u == 0x20
    ||| u == 0x85
    ||| u == 0xa0
    ||| u == 0x1680
    ||| 0x2000 <= u <= 0x200a
    ||| u == 0x2028
    ||| u == 0x2029
    ||| u == 0x202f
    ||| u == 0x205f
    ||| u == 0x3000
}

/// Whether `c` is white space, as `char::is_whitespace` tells.
pub fn is_whitespace(c: char) -> (r: bool)
    ensures
        r == is_white_space(c),
{
    let u = c as u32;
    (0x9 <= u && u <= 0xd) || u == 0x20 || u == 0x85 || u == 0xa0 || u == 0x1680 || (0x2000
        <= u && u <= 0x200a) || u == 0x2028 || u == 0x2029 || u == 0x202f || u == 0x205f || u
        == 0x3000
}

/// Every character of a string, in order.
pub fn chars_of(s: &str) -> (r: Vec<char>)
    ensures
        r@ == s@,
{
    let mut v: Vec<char> = Vec::new();
    for c in it: s.chars()
        invariant
            v@ == it.seq().take(it.index() as int),
    {
        v.push(c);
    }
    v
}


/// `String::push`: appends one character at the end.
#[verifier::external_body]
pub(crate) fn push_char(s: &mut String, c: char)
    ensures
        final(s)@ == old(s)@.push(c),
{
    s.push(c);
}

/// The string made of the given characters, in order.
pub fn string_of(v: &Vec<char>) -> (r: String)
    ensures
        r@ == v@,
{
    let mut s = String::new();
    let n = v.len();
    for i in 0..n
        invariant
            n == v.len(),
            s@ == v@.take(i as int),
    {
        push_char(&mut s, v[i]);
        assert(v@.take(i + 1) =~= v@.take(i as int).push(v@[i as int]));
    }
    assert(v@.take(n as int) =~= v@);
    s
}

/// `s` with the leading white space removed.
pub open spec fn trim_start(s: Seq<char>) -> Seq<char>
    decreases s.len(),
{
    if s.len() > 0 && is_white_space(s[0]) {
        trim_start(s.drop_first())
    } else {
        s
    }
}

/// `s` with the trailing white space removed.
pub open spec fn trim_end(s: Seq<char>) -> Seq<char>
    decreases s.len(),
{
    if s.len() > 0 && is_white_space(s.last()) {
        trim_end(s.drop_last())
    } else {
        s
    }
}

/// `s` with white space removed at both ends, as `str::trim` does.
pub open spec fn trim(s: Seq<char>) -> Seq<char> {
    trim_end(trim_start(s))
}

proof fn lemma_trim_start_at(s: Seq<char>, i: int)
    requires
        0 <= i <= s.len(),
        forall|k: int| 0 <= k < i ==> is_white_space(#[trigger] s[k]),
        i == s.len() || !is_white_space(s[i]),
    ensures
        trim_start(s) == s.subrange(i, s.len() as int),
    decreases i,
{
    if i == 0 {
        assert(s.subrange(0, s.len() as int) =~= s);
    } else {
        let t = s.drop_first();
        assert forall|k: int| 0 <= k < i - 1 implies is_white_space(#[trigger] t[k]) by {
            assert(t[k] == s[k + 1]);
        }
        lemma_trim_start_at(t, i - 1);
        assert(t.subrange(i - 1, t.len() as int) =~= s.subrange(i, s.len() as int));
    }
}

proof fn lemma_trim_end_at(s: Seq<char>, j: int)
    requires
        0 <= j <= s.len(),
        forall|k: int| j <= k < s.len() ==> is_white_space(#[trigger] s[k]),
        j == 0 || !is_white_space(s[j - 1]),
    ensures
        trim_end(s) == s.subrange(0, j),
    decreases s.len() - j,
{
    if j == s.len() {
        assert(s.subrange(0, j) =~= s);
    } else {
        let t = s.drop_last();
        assert forall|k: int| j <= k < t.len() implies is_white_space(#[trigger] t[k]) by {
            assert(t[k] == s[k]);
        }
        assert(is_white_space(s[s.len() - 1]));
        lemma_trim_end_at(t, j);
        assert(t.subrange(0, j) =~= s.subrange(0, j));
    }
}

/// The characters of `v` between the first and the last one that is not white space.
pub fn trim_chars(v: &Vec<char>) -> (r: Vec<char>)
    ensures
        r@ == trim(v@),
{
    let n = v.len();
    let mut i: usize = 0;
    while i < n && is_whitespace(v[i])
        invariant
            n == v.len(),
            i <= n,
            forall|k: int| 0 <= k < i ==> is_white_space(#[trigger] v@[k]),
        decreases n - i,
    {
        i = i + 1;
    }
    proof {
        lemma_trim_start_at(v@, i as int);
    }
    let ghost mid = v@.subrange(i as int, n as int);
    let mut j: usize = n;
    while j > i && is_whitespace(v[j - 1])
        invariant
            n == v.len(),
            i <= j <= n,
            mid == v@.subrange(i as int, n as int),
            forall|k: int| j <= k < n ==> is_white_space(#[trigger] v@[k]),
        decreases j - i,
    {
        j = j - 1;
    }
    proof {
        assert forall|k: int| j - i <= k < mid.len() implies is_white_space(#[trigger] mid[k]) by {
            assert(mid[k] == v@[k + i]);
        }
        if j > i {
            assert(mid[j - i - 1] == v@[j - 1]);
        }
        lemma_trim_end_at(mid, j - i);
    }
    let mut r: Vec<char> = Vec::new();
    let mut k: usize = i;
    while k < j
        invariant
            n == v.len(),
            i <= k <= j <= n,
            r@ == v@.subrange(i as int, k as int),
        decreases j - k,
    {
        r.push(v[k]);
        assert(v@.subrange(i as int, k + 1) =~= v@.subrange(i as int, k as int).push(v@[k as int]));
        k = k + 1;
    }
    assert(mid.subrange(0, j - i) =~= v@.subrange(i as int, j as int));
    r
}

/// `str::trim`, returned as an owned string.
pub fn trim_str(s: &str) -> (r: String)
    ensures
        r@ == trim(s@),
{
    let v = chars_of(s);
    let t = trim_chars(&v);
    string_of(&t)
}


/// `p` occurs in `s` starting at index `i`.
pub open spec fn occurs_at(s: Seq<char>, p: Seq<char>, i: int) -> bool {
    0 <= i && i + p.len() <= s.len() && s.subrange(i, i + p.len()) == p
}

/// `p` occurs somewhere in `s`, as `str::contains` tests for a string pattern.
pub open spec fn contains(s: Seq<char>, p: Seq<char>) -> bool {
    exists|i: int| occurs_at(s, p, i)
}

fn matches_at(s: &Vec<char>, p: &Vec<char>, i: usize) -> (r: bool)
    requires
        i + p.len() <= s.len(),
    ensures
        r == occurs_at(s@, p@, i as int),
{
    let m = p.len();
    let mut k: usize = 0;
    while k < m
        invariant
            m == p.len(),
            i + m <= s.len(),
            k <= m,
            forall|t: int| 0 <= t < k ==> s@[i + t] == p@[t],
        decreases m - k,
    {
        if s[i + k] != p[k] {
            assert(s@.subrange(i as int, i + m)[k as int] != p@[k as int]);
            return false;
        }
        k = k + 1;
    }
    assert(s@.subrange(i as int, i + m) =~= p@);
    true
}

/// Whether `p` occurs in `s`.
pub fn contains_chars(s: &Vec<char>, p: &Vec<char>) -> (r: bool)
    ensures
        r == contains(s@, p@),
{
    if p.len() > s.len() {
        assert forall|i: int| !occurs_at(s@, p@, i) by {}
        return false;
    }
    let last = s.len() - p.len();
    let mut i: usize = 0;
    loop
        invariant
            last == s.len() - p.len(),
            p.len() <= s.len(),
            i <= last,
            forall|t: int| 0 <= t < i ==> !occurs_at(s@, p@, t),
        ensures
            forall|t: int| 0 <= t <= last ==> !occurs_at(s@, p@, t),
        decreases last - i,
    {
        if matches_at(s, p, i) {
            return true;
        }
        if i == last {
            break;
        }
        i = i + 1;
    }
    assert forall|t: int| !occurs_at(s@, p@, t) by {
        if 0 <= t && t <= last {
        }
    }
    false
}

/// Whether `pattern` occurs in `s`.
pub fn str_contains(s: &str, pattern: &str) -> (r: bool)
    ensures
        r == contains(s@, pattern@),
{
    let sv = chars_of(s);
    let pv = chars_of(pattern);
    contains_chars(&sv, &pv)
}

/// The Unicode lower-case mapping of a string, as `str::to_lowercase` computes it.
pub uninterp spec fn lowercase(s: Seq<char>) -> Seq<char>;

/// Every character of `s` is ASCII.
pub open spec fn all_ascii(s: Seq<char>) -> bool {
    forall|i: int| 0 <= i < s.len() ==> (#[trigger] s[i] as u32) < 128
}

/// `c` with an ASCII capital letter turned into its small letter.
pub open spec fn ascii_lower_char(c: char) -> char {
    if 65 <= (c as u32) <= 90 {
        ((c as u32) + 32) as char
    } else {
        c
    }
}

/// `c` with an ASCII small letter turned into its capital letter.
pub open spec fn ascii_upper_char(c: char) -> char {
    if 97 <= (c as u32) <= 122 {
        ((c as u32) - 32) as char
    } else {
        c
    }
}

/// `s` with its ASCII capital letters made small, as `str::to_ascii_lowercase` does.
pub open spec fn ascii_lower(s: Seq<char>) -> Seq<char> {
    Seq::new(s.len(), |i: int| ascii_lower_char(s[i]))
}

/// `s` with its ASCII small letters made capital, as `str::to_ascii_uppercase` does.
pub open spec fn ascii_upper(s: Seq<char>) -> Seq<char> {
    Seq::new(s.len(), |i: int| ascii_upper_char(s[i]))
}

/// Upper-casing an ASCII string keeps it ASCII, and lower-casing it afterwards
/// gives what lower-casing the string itself gives.
pub proof fn lemma_ascii_case_round(t: Seq<char>)
    requires
        all_ascii(t),
    ensures
        all_ascii(ascii_upper(t)),
        ascii_lower(ascii_upper(t)) == ascii_lower(t),
{
    let u = ascii_upper(t);
    assert forall|i: int| 0 <= i < u.len() implies (#[trigger] u[i] as u32) < 128 by {
        assert((t[i] as u32) < 128);
    }
    assert forall|i: int| 0 <= i < t.len() implies ascii_lower_char(#[trigger] u[i])
        == ascii_lower_char(t[i]) by {
        let c = t[i];
        if 97 <= (c as u32) <= 122 {
            assert(((((c as u32) - 32) as char) as u32) == (c as u32) - 32);
            vstd::utf8::char_u32_cast(c, c as u32);
            assert((((c as u32) - 32 + 32) as char) == ((c as u32) as char));
        }
    }
    assert(ascii_lower(u) =~= ascii_lower(t));
}

/// `str::to_lowercase`: the Unicode lower-case mapping of `s`, named by
/// `lowercase`. Of that mapping only its effect on ASCII text is claimed, as the
/// Unicode case mapping gives it: the capital letters `A`-`Z` become `a`-`z`,
/// one for one, and every other ASCII character stays as it is.
#[verifier::external_body]
pub(crate) fn to_lowercase(s: &str) -> (r: String)
    ensures
        r@ == lowercase(s@),
        all_ascii(s@) ==> r@ == ascii_lower(s@),
{
    s.to_lowercase()
}

/// `a` followed by `b`.
pub fn concat2(a: &str, b: &str) -> (r: String)
    ensures
        r@ == a@ + b@,
{
    let mut r = a.to_owned();
    r.append(b);
    r
}

/// `a`, then `b`, then `c`.
pub fn concat3(a: &str, b: &str, c: &str) -> (r: String)
    ensures
        r@ == a@ + b@ + c@,
{
    let mut r = a.to_owned();
    r.append(b);
    r.append(c);
    r
}

/// The items, with `sep` between each two neighbours, as `[String]::join` builds it.
pub open spec fn join(items: Seq<Seq<char>>, sep: Seq<char>) -> Seq<char>
    decreases items.len(),
{
    if items.len() == 0 {
        seq![]
    } else if items.len() == 1 {
        items[0]
    } else {
        join(items.drop_last(), sep) + sep + items.last()
    }
}

/// The strings of `items` joined with `sep`.
pub fn join_strings(items: &Vec<String>, sep: &str) -> (r: String)
    ensures
        r@ == join(items.deep_view(), sep@),
{
    let mut r = String::new();
    let n = items.len();
    let ghost dv = items.deep_view();
    for i in 0..n
        invariant
            n == items.len(),
            dv == items.deep_view(),
            r@ == join(dv.take(i as int), sep@),
    {
        assert(dv.take(i + 1).drop_last() =~= dv.take(i as int));
        assert(dv[i as int] == items@[i as int]@);
        if i != 0 {
            r.append(sep);
        }
        r.append(items[i].as_str());
    }
    assert(dv.take(n as int) =~= dv);
    r
}


/// The pieces of `s` between the occurrences of `sep`, as `str::split` with a
/// character pattern yields them (always at least one piece).
pub open spec fn split_on(s: Seq<char>, sep: char) -> Seq<Seq<char>>
    decreases s.len(),
{
    if s.len() == 0 {
        seq![Seq::empty()]
    } else {
        let parts = split_on(s.drop_last(), sep);
        if s.last() == sep {
            parts.push(Seq::empty())
        } else {
            parts.update(parts.len() - 1, parts.last().push(s.last()))
        }
    }
}

pub proof fn lemma_split_on_not_empty(s: Seq<char>, sep: char)
    ensures
        split_on(s, sep).len() >= 1,
    decreases s.len(),
{
    if s.len() > 0 {
        lemma_split_on_not_empty(s.drop_last(), sep);
    }
}

/// Each piece trimmed, the pieces that are then empty left out.
pub open spec fn trimmed_non_empty(parts: Seq<Seq<char>>) -> Seq<Seq<char>>
    decreases parts.len(),
{
    if parts.len() == 0 {
        seq![]
    } else {
        let rest = trimmed_non_empty(parts.drop_last());
        let t = trim(parts.last());
        if t.len() > 0 {
            rest.push(t)
        } else {
            rest
        }
    }
}

/// The entries of a comma-separated list: split at each `,`, each piece trimmed,
/// empty pieces dropped.
pub open spec fn comma_list(s: Seq<char>) -> Seq<Seq<char>> {
    trimmed_non_empty(split_on(s, ','))
}

/// The pieces of `v` between the occurrences of `sep`.
pub fn split_chars(v: &Vec<char>, sep: char) -> (r: Vec<Vec<char>>)
    ensures
        r.deep_view() == split_on(v@, sep),
{
    let mut done: Vec<Vec<char>> = Vec::new();
    let mut cur: Vec<char> = Vec::new();
    let n = v.len();
    for i in 0..n
        invariant
            n == v.len(),
            done.deep_view().push(cur@) == split_on(v@.take(i as int), sep),
    {
        let c = v[i];
        let ghost pre = v@.take(i as int);
        assert(v@.take(i + 1).drop_last() =~= pre);
        assert(v@.take(i + 1).last() == c);
        proof {
            lemma_split_on_not_empty(pre, sep);
        }
        let ghost old_done = done.deep_view();
        if c == sep {
            let piece = cur;
            assert(piece.deep_view() =~= piece@);
            cur = Vec::new();
            done.push(piece);
            assert(done.deep_view() =~= old_done.push(piece@));
            assert(done.deep_view().push(cur@) =~= split_on(v@.take(i + 1), sep));
        } else {
            cur.push(c);
            assert(done.deep_view().push(cur@) =~= split_on(v@.take(i + 1), sep));
        }
    }
    assert(v@.take(n as int) =~= v@);
    let ghost old_done = done.deep_view();
    assert(cur.deep_view() =~= cur@);
    done.push(cur);
    assert(done.deep_view() =~= old_done.push(cur@));
    done
}

/// The entries of the comma-separated list `s`, each trimmed, the empty ones left out.
pub fn parse_comma_list(s: &str) -> (r: Vec<String>)
    ensures
        r.deep_view() == comma_list(s@),
{
    let v = chars_of(s);
    let parts = split_chars(&v, ',');
    let ghost pv = parts.deep_view();
    let mut r: Vec<String> = Vec::new();
    let n = parts.len();
    for i in 0..n
        invariant
            n == parts.len(),
            pv == parts.deep_view(),
            pv == split_on(v@, ','),
            r.deep_view() == trimmed_non_empty(pv.take(i as int)),
    {
        assert(pv.take(i + 1).drop_last() =~= pv.take(i as int));
        assert(pv.take(i + 1).last() == parts@[i as int]@);
        let t = trim_chars(&parts[i]);
        if t.len() > 0 {
            let ts = string_of(&t);
            r.push(ts);
            assert(r.deep_view() =~= trimmed_non_empty(pv.take(i + 1)));
        } else {
            assert(r.deep_view() =~= trimmed_non_empty(pv.take(i + 1)));
        }
    }
    assert(pv.take(n as int) =~= pv);
    r
}


/// `c` does not occur in `s`.
pub open spec fn lacks(s: Seq<char>, c: char) -> bool {
    forall|i: int| 0 <= i < s.len() ==> s[i] != c
}

proof fn lemma_split_extend(a: Seq<char>, b: Seq<char>, sep: char)
    requires
        lacks(b, sep),
    ensures
        split_on(a, sep).len() >= 1,
        split_on(a + b, sep) == split_on(a, sep).update(
            split_on(a, sep).len() - 1,
            split_on(a, sep).last() + b,
        ),
    decreases b.len(),
{
    lemma_split_on_not_empty(a, sep);
    let p = split_on(a, sep);
    if b.len() == 0 {
        assert(a + b =~= a);
        assert(p.last() + b =~= p.last());
        assert(p.update(p.len() - 1, p.last()) =~= p);
    } else {
        let b0 = b.drop_last();
        assert forall|i: int| 0 <= i < b0.len() implies b0[i] != sep by {
            assert(b0[i] == b[i]);
        }
        lemma_split_extend(a, b0, sep);
        assert((a + b).drop_last() =~= a + b0);
        assert((a + b).last() == b.last());
        assert(b.last() != sep);
        let q = p.update(p.len() - 1, p.last() + b0);
        assert(q.last() == p.last() + b0);
        assert((p.last() + b0).push(b.last()) =~= p.last() + b);
        assert(q.update(q.len() - 1, q.last().push(b.last())) =~= p.update(
            p.len() - 1,
            p.last() + b,
        ));
    }
}

proof fn lemma_split_after_sep(a: Seq<char>, b: Seq<char>, sep: char)
    requires
        lacks(b, sep),
    ensures
        split_on(a.push(sep) + b, sep) == split_on(a, sep).push(b),
{
    lemma_split_extend(a.push(sep), b, sep);
    assert(a.push(sep).drop_last() =~= a);
    let p = split_on(a, sep).push(Seq::empty());
    assert(split_on(a.push(sep), sep) == p);
    assert(Seq::<char>::empty() + b =~= b);
    assert(p.update(p.len() - 1, p.last() + b) =~= split_on(a, sep).push(b));
}

/// The pieces that splitting a `", "`-joined list at `,` yields: the first item
/// as it is, each later one behind a space.
pub open spec fn spaced(items: Seq<Seq<char>>) -> Seq<Seq<char>> {
    Seq::new(
        items.len(),
        |i: int|
            if i == 0 {
                items[0]
            } else {
                seq![' '] + items[i]
            },
    )
}

proof fn lemma_split_join(items: Seq<Seq<char>>)
    requires
        items.len() >= 1,
        forall|i: int| 0 <= i < items.len() ==> lacks(#[trigger] items[i], ','),
    ensures
        split_on(join(items, seq![',', ' ']), ',') == spaced(items),
    decreases items.len(),
{
    if items.len() == 1 {
        lemma_split_extend(Seq::empty(), items[0], ',');
        assert(Seq::<char>::empty() + items[0] =~= items[0]);
        assert(split_on(Seq::empty(), ',') =~= seq![Seq::<char>::empty()]);
        assert(spaced(items) =~= seq![items[0]]);
        assert(seq![Seq::<char>::empty()].update(0, Seq::<char>::empty() + items[0]) =~= seq![
            items[0],
        ]);
    } else {
        let d = items.drop_last();
        assert forall|i: int| 0 <= i < d.len() implies lacks(#[trigger] d[i], ',') by {
            assert(d[i] == items[i]);
        }
        lemma_split_join(d);
        let last = items.last();
        let b = seq![' '] + last;
        assert(lacks(last, ','));
        assert forall|i: int| 0 <= i < b.len() implies b[i] != ',' by {
            if i > 0 {
                assert(b[i] == last[i - 1]);
            }
        }
        lemma_split_after_sep(join(d, seq![',', ' ']), b, ',');
        assert(join(items, seq![',', ' ']) =~= join(d, seq![',', ' ']).push(',') + b);
        assert(spaced(d).push(b) =~= spaced(items));
    }
}

proof fn lemma_trim_after_space(x: Seq<char>)
    ensures
        trim(seq![' '] + x) == trim(x),
{
    let s = seq![' '] + x;
    assert(is_white_space(s[0]));
    assert(s.drop_first() =~= x);
}

proof fn lemma_trim_spaced(items: Seq<Seq<char>>)
    requires
        forall|i: int|
            0 <= i < items.len() ==> (#[trigger] items[i]).len() > 0 && trim(items[i])
                == items[i],
    ensures
        trimmed_non_empty(spaced(items)) == items,
    decreases items.len(),
{
    if items.len() == 0 {
        assert(spaced(items) =~= Seq::<Seq<char>>::empty());
        assert(items =~= Seq::<Seq<char>>::empty());
    } else {
        let d = items.drop_last();
        assert forall|i: int| 0 <= i < d.len() implies (#[trigger] d[i]).len() > 0 && trim(d[i])
            == d[i] by {
            assert(d[i] == items[i]);
        }
        lemma_trim_spaced(d);
        assert(spaced(items).drop_last() =~= spaced(d));
        let n = items.len() - 1;
        assert(items[n] == items.last());
        if n > 0 {
            lemma_trim_after_space(items.last());
            assert(spaced(items).last() == seq![' '] + items.last());
        } else {
            assert(spaced(items).last() == items.last());
        }
        assert(d.push(items.last()) =~= items);
    }
}

/// A list whose entries are non-empty, free of commas and of surrounding white
/// space comes back unchanged when it is joined with `", "` and read again as a
/// comma-separated list.
pub proof fn law_comma_list_undoes_join(items: Seq<Seq<char>>)
    requires
        forall|i: int|
            0 <= i < items.len() ==> (#[trigger] items[i]).len() > 0 && lacks(items[i], ',')
                && trim(items[i]) == items[i],
    ensures
        comma_list(join(items, seq![',', ' '])) == items,
{
    if items.len() == 0 {
        assert(split_on(Seq::empty(), ',') =~= seq![Seq::<char>::empty()]);
        let p = seq![Seq::<char>::empty()];
        assert(p.drop_last() =~= Seq::<Seq<char>>::empty());
        assert(trim(Seq::<char>::empty()) =~= Seq::<char>::empty());
        assert(trimmed_non_empty(Seq::<Seq<char>>::empty()) =~= Seq::<Seq<char>>::empty());
        assert(trimmed_non_empty(p) =~= Seq::<Seq<char>>::empty());
        assert(join(items, seq![',', ' ']) =~= Seq::<char>::empty());
        assert(items =~= Seq::<Seq<char>>::empty());
    } else {
        lemma_split_join(items);
        lemma_trim_spaced(items);
    }
}


/// Why a decimal number could not be read, with the kinds that `core::num::IntErrorKind`
/// gives for unsigned targets.
#[derive(Debug, Clone, Copy, PartialEq, Eq, Structural)]
pub enum IntErrorKind {
    Empty,
    InvalidDigit,
    PosOverflow,
}

impl IntErrorKind {
    pub open spec fn message_spec(self) -> Seq<char> {
        match self {
            IntErrorKind::Empty => "cannot parse integer from empty string"@,
            IntErrorKind::InvalidDigit => "invalid digit found in string"@,
            IntErrorKind::PosOverflow => "number too large to fit in target type"@,
        }
    }

    /// The description that `ParseIntError` displays for this kind.
    pub fn message(self) -> (r: String)
        ensures
            r@ == self.message_spec(),
    {
        match self {
            IntErrorKind::Empty => "cannot parse integer from empty string".to_owned(),
            IntErrorKind::InvalidDigit => "invalid digit found in string".to_owned(),
            IntErrorKind::PosOverflow => "number too large to fit in target type".to_owned(),
        }
    }
}

pub open spec fn is_decimal_digit(c: char) -> bool {
    48 <= (c as u32) <= 57
}

pub open spec fn digit_value(c: char) -> int {
    (c as u32) - 48
}

/// Reads the digits of `d` from left to right; the first character that is not
/// a digit, or the first digit after which the value exceeds `max`, decides the error.
pub open spec fn scan_digits(d: Seq<char>, max: int) -> Result<int, IntErrorKind>
    decreases d.len(),
{
    if d.len() == 0 {
        Ok(0)
    } else {
        match scan_digits(d.drop_last(), max) {
            Err(e) => Err(e),
            Ok(v) => if !is_decimal_digit(d.last()) {
                Err(IntErrorKind::InvalidDigit)
            } else if v * 10 + digit_value(d.last()) > max {
                Err(IntErrorKind::PosOverflow)
            } else {
                Ok(v * 10 + digit_value(d.last()))
            },
        }
    }
}

/// How `str::parse` reads an unsigned integer no larger than `max`: an optional `+`
/// followed by decimal digits.
pub open spec fn parse_unsigned_spec(s: Seq<char>, max: int) -> Result<int, IntErrorKind> {
    if s.len() == 0 {
        Err(IntErrorKind::Empty)
    } else if s.len() == 1 && (s[0] == '+' || s[0] == '-') {
        Err(IntErrorKind::InvalidDigit)
    } else if s[0] == '+' {
        scan_digits(s.drop_first(), max)
    } else {
        scan_digits(s, max)
    }
}

proof fn lemma_scan_bounded(d: Seq<char>, max: int)
    requires
        max >= 0,
    ensures
        scan_digits(d, max) matches Ok(v) ==> 0 <= v <= max,
    decreases d.len(),
{
    if d.len() > 0 {
        lemma_scan_bounded(d.drop_last(), max);
    }
}

fn scan_chars(v: &Vec<char>, start: usize, max: u32) -> (r: Result<u32, IntErrorKind>)
    requires
        start <= v.len(),
    ensures
        match scan_digits(v@.subrange(start as int, v@.len() as int), max as int) {
            Ok(n) => r == Ok::<u32, IntErrorKind>(n as u32),
            Err(e) => r == Err::<u32, IntErrorKind>(e),
        },
{
    let n = v.len();
    let mut acc: u64 = 0;
    let mut i: usize = start;
    while i < n
        invariant
            n == v.len(),
            start <= i <= n,
            scan_digits(v@.subrange(start as int, i as int), max as int) == Ok::<
                int,
                IntErrorKind,
            >(acc as int),
            acc <= max,
        decreases n - i,
    {
        let c = v[i];
        let ghost pre = v@.subrange(start as int, i as int);
        assert(v@.subrange(start as int, i + 1).drop_last() =~= pre);
        assert(v@.subrange(start as int, i + 1).last() == c);
        let u = c as u32;
        if u < 48 || u > 57 {
            proof {
                lemma_scan_rest_err(v@, start as int, i + 1, max as int, IntErrorKind::InvalidDigit);
            }
            return Err(IntErrorKind::InvalidDigit);
        }
        let next: u64 = acc * 10 + (u - 48) as u64;
        if next > max as u64 {
            proof {
                lemma_scan_rest_err(v@, start as int, i + 1, max as int, IntErrorKind::PosOverflow);
            }
            return Err(IntErrorKind::PosOverflow);
        }
        acc = next;
        i = i + 1;
    }
    assert(v@.subrange(start as int, n as int) =~= v@.subrange(start as int, v@.len() as int));
    Ok(acc as u32)
}

proof fn lemma_scan_rest_err(s: Seq<char>, start: int, i: int, max: int, e: IntErrorKind)
    requires
        0 <= start <= i <= s.len(),
        scan_digits(s.subrange(start, i), max) == Err::<int, IntErrorKind>(e),
    ensures
        scan_digits(s.subrange(start, s.len() as int), max) == Err::<int, IntErrorKind>(e),
    decreases s.len() - i,
{
    if i < s.len() {
        assert(s.subrange(start, i + 1).drop_last() =~= s.subrange(start, i));
        lemma_scan_rest_err(s, start, i + 1, max, e);
    }
}

/// Reads an unsigned decimal number no larger than `max`, as `str::parse` does for
/// the unsigned integer types.
pub fn parse_unsigned(s: &str, max: u32) -> (r: Result<u32, IntErrorKind>)
    ensures
        match parse_unsigned_spec(s@, max as int) {
            Ok(n) => r == Ok::<u32, IntErrorKind>(n as u32),
            Err(e) => r == Err::<u32, IntErrorKind>(e),
        },
        r matches Ok(n) ==> n <= max,
        parse_unsigned_spec(s@, max as int) matches Ok(n) ==> 0 <= n <= max,
{
    let v = chars_of(s);
    proof {
        lemma_scan_bounded(v@, max as int);
        lemma_scan_bounded(v@.drop_first(), max as int);
        assert(v@.subrange(0, v@.len() as int) =~= v@);
        if v@.len() > 0 {
            assert(v@.subrange(1, v@.len() as int) =~= v@.drop_first());
        }
    }
    if v.len() == 0 {
        return Err(IntErrorKind::Empty);
    }
    if v.len() == 1 && (v[0] == '+' || v[0] == '-') {
        return Err(IntErrorKind::InvalidDigit);
    }
    if v[0] == '+' {
        scan_chars(&v, 1, max)
    } else {
        scan_chars(&v, 0, max)
    }
}


/// Whether `a` and `b` hold the same characters.
pub fn str_eq(a: &str, b: &str) -> (r: bool)
    ensures
        r == (a@ == b@),
{
    let av = chars_of(a);
    let bv = chars_of(b);
    if av.len() != bv.len() {
        return false;
    }
    let n = av.len();
    let mut i: usize = 0;
    while i < n
        invariant
            n == av.len(),
            n == bv.len(),
            av@ == a@,
            bv@ == b@,
            i <= n,
            forall|k: int| 0 <= k < i ==> av@[k] == bv@[k],
        decreases n - i,
    {
        if av[i] != bv[i] {
            assert(av@[i as int] != bv@[i as int]);
            return false;
        }
        i = i + 1;
    }
    assert(av@ =~= bv@);
    true
}

/// The value, or the empty string when there is none.
pub fn or_empty(v: Option<String>) -> (r: String)
    ensures
        r@ == match v {
            Some(s) => s@,
            None => Seq::<char>::empty(),
        },
{
    match v {
        Some(s) => s,
        None => String::new(),
    }
}


proof fn lemma_split_pieces_lack(s: Seq<char>, sep: char)
    ensures
        forall|k: int|
            0 <= k < split_on(s, sep).len() ==> lacks(#[trigger] split_on(s, sep)[k], sep),
    decreases s.len(),
{
    if s.len() > 0 {
        lemma_split_pieces_lack(s.drop_last(), sep);
        lemma_split_on_not_empty(s.drop_last(), sep);
        let parts = split_on(s.drop_last(), sep);
        if s.last() != sep {
            let last = parts.last().push(s.last());
            assert forall|i: int| 0 <= i < last.len() implies last[i] != sep by {
                if i < parts.last().len() {
                    assert(lacks(parts[parts.len() - 1], sep));
                }
            }
        }
        assert forall|k: int|
            0 <= k < split_on(s, sep).len() implies lacks(#[trigger] split_on(s, sep)[k], sep) by {
            if k < parts.len() - 1 || (k == parts.len() - 1 && s.last() == sep) {
                assert(split_on(s, sep)[k] == parts[k]);
            }
        }
    }
}

proof fn lemma_trim_start_shape(x: Seq<char>)
    ensures
        trim_start(x).len() <= x.len(),
        trim_start(x) == x.subrange(x.len() - trim_start(x).len(), x.len() as int),
        trim_start(x).len() == 0 || !is_white_space(trim_start(x)[0]),
    decreases x.len(),
{
    if x.len() > 0 && is_white_space(x[0]) {
        lemma_trim_start_shape(x.drop_first());
        let t = trim_start(x.drop_first());
        assert(x.drop_first().subrange(x.len() - 1 - t.len(), x.len() - 1) =~= x.subrange(
            x.len() - t.len(),
            x.len() as int,
        ));
    } else {
        assert(x.subrange(0, x.len() as int) =~= x);
    }
}

proof fn lemma_trim_end_shape(y: Seq<char>)
    ensures
        trim_end(y).len() <= y.len(),
        trim_end(y) == y.subrange(0, trim_end(y).len() as int),
        trim_end(y).len() == 0 || !is_white_space(trim_end(y).last()),
    decreases y.len(),
{
    if y.len() > 0 && is_white_space(y.last()) {
        lemma_trim_end_shape(y.drop_last());
        let t = trim_end(y.drop_last());
        assert(y.drop_last().subrange(0, t.len() as int) =~= y.subrange(0, t.len() as int));
    } else {
        assert(y.subrange(0, y.len() as int) =~= y);
    }
}

proof fn lemma_trim_is_plain(x: Seq<char>, c: char)
    requires
        lacks(x, c),
    ensures
        lacks(trim(x), c),
        trim(trim(x)) == trim(x),
{
    lemma_trim_start_shape(x);
    let a = trim_start(x);
    lemma_trim_end_shape(a);
    let t = trim_end(a);
    assert forall|i: int| 0 <= i < t.len() implies t[i] != c by {
        assert(t[i] == a[i]);
        assert(a[i] == x[x.len() - a.len() + i]);
    }
    if t.len() > 0 {
        assert(t[0] == a[0]);
        assert(!is_white_space(t[0]));
        assert(trim_start(t) == t);
        assert(t.last() == t[t.len() - 1]);
    } else {
        assert(trim_start(t) == t);
    }
}

proof fn lemma_trimmed_entries(parts: Seq<Seq<char>>, c: char)
    requires
        forall|j: int| 0 <= j < parts.len() ==> lacks(#[trigger] parts[j], c),
    ensures
        forall|k: int|
            0 <= k < trimmed_non_empty(parts).len() ==> {
                let e = #[trigger] trimmed_non_empty(parts)[k];
                e.len() > 0 && lacks(e, c) && trim(e) == e
            },
    decreases parts.len(),
{
    if parts.len() > 0 {
        let d = parts.drop_last();
        assert forall|j: int| 0 <= j < d.len() implies lacks(#[trigger] d[j], c) by {
            assert(d[j] == parts[j]);
        }
        lemma_trimmed_entries(d, c);
        assert(lacks(parts[parts.len() - 1], c));
        assert(parts.last() == parts[parts.len() - 1]);
        lemma_trim_is_plain(parts.last(), c);
        let r = trimmed_non_empty(parts);
        assert forall|k: int| 0 <= k < r.len() implies {
            let e = #[trigger] r[k];
            e.len() > 0 && lacks(e, c) && trim(e) == e
        } by {
            if k < trimmed_non_empty(d).len() {
                assert(r[k] == trimmed_non_empty(d)[k]);
            }
        }
    }
}

/// Reading a comma-separated list, joining its entries with `", "` and reading
/// the result again gives the same entries.
pub proof fn law_comma_list_is_stable(s: Seq<char>)
    ensures
        comma_list(join(comma_list(s), seq![',', ' '])) == comma_list(s),
{
    lemma_split_pieces_lack(s, ',');
    lemma_trimmed_entries(split_on(s, ','), ',');
    law_comma_list_undoes_join(comma_list(s));
}

} // verus!
