//! Character-sequence utilities shared by the parsers and flag builders:
//! decimal digits, prefix handling, splitting, trimming and searching.

use vstd::prelude::*;

verus! {

// ---------------------------------------------------------------------------
// Decimal digits.
// ---------------------------------------------------------------------------

/// `c` is an ASCII decimal digit.
pub open spec fn is_digit(c: char) -> bool {
    '0' <= c && c <= '9'
}

/// Numeric value of a digit character.
pub open spec fn digit_val(c: char) -> int {
    c as int - '0' as int
}

/// The digit character for a value in `0..=9`.
pub open spec fn digit_char(d: int) -> char {
    if d == 0 { '0' }
    else if d == 1 { '1' }
    else if d == 2 { '2' }
    else if d == 3 { '3' }
    else if d == 4 { '4' }
    else if d == 5 { '5' }
    else if d == 6 { '6' }
    else if d == 7 { '7' }
    else if d == 8 { '8' }
    else { '9' }
}

/// `s` is a non-empty run of decimal digits.
pub open spec fn is_dec_digits(s: Seq<char>) -> bool {
    s.len() > 0 && forall|i: int| 0 <= i < s.len() ==> is_digit(#[trigger] s[i])
}

/// Value of a digit run read in base ten.
pub open spec fn dec_val(s: Seq<char>) -> int
    decreases s.len(),
{
    if s.len() == 0 {
        0
    } else {
        dec_val(s.drop_last()) * 10 + digit_val(s.last())
    }
}

/// Canonical base-ten rendering of a non-negative value (no leading zeros).
pub open spec fn dec_str(n: int) -> Seq<char>
    decreases n,
{
    if n < 0 {
        Seq::empty()
    } else if n < 10 {
        seq![digit_char(n)]
    } else {
        dec_str(n / 10).push(digit_char(n % 10))
    }
}

/// `s` carries no redundant leading zero.
pub open spec fn no_leading_zero(s: Seq<char>) -> bool {
    s.len() == 1 || (s.len() > 1 && s[0] != '0')
}

pub proof fn lemma_dec_val_singleton(c: char)
    ensures
        dec_val(seq![c]) == digit_val(c),
{
    let s = seq![c];
    assert(s.drop_last() =~= Seq::<char>::empty());
    assert(dec_val(Seq::<char>::empty()) == 0);
    assert(s.last() == c);
    assert(dec_val(s) == dec_val(s.drop_last()) * 10 + digit_val(s.last()));
}

pub proof fn lemma_digit_char_val(d: int)
    requires
        0 <= d < 10,
    ensures
        is_digit(digit_char(d)),
        digit_val(digit_char(d)) == d,
{
}

pub proof fn lemma_digit_val_char(c: char)
    requires
        is_digit(c),
    ensures
        0 <= digit_val(c) < 10,
        digit_char(digit_val(c)) == c,
{
}

/// The canonical rendering is a digit run without leading zeros whose value
/// is the rendered number.
pub proof fn lemma_dec_str_val(n: int)
    requires
        n >= 0,
    ensures
        is_dec_digits(dec_str(n)),
        no_leading_zero(dec_str(n)),
        dec_val(dec_str(n)) == n,
        n >= 10 ==> dec_str(n)[0] != '0',
    decreases n,
{
    if n < 10 {
        lemma_digit_char_val(n);
        lemma_dec_val_singleton(digit_char(n));
        assert(dec_str(n) == seq![digit_char(n)]);
        assert(dec_str(n).len() == 1);
    } else {
        lemma_dec_str_val(n / 10);
        lemma_digit_char_val(n % 10);
        let s = dec_str(n);
        assert(s == dec_str(n / 10).push(digit_char(n % 10)));
        assert(s.drop_last() =~= dec_str(n / 10));
        assert(s.last() == digit_char(n % 10));
        assert(forall|i: int| 0 <= i < s.len() ==> is_digit(#[trigger] s[i])) by {
            assert(forall|i: int| 0 <= i < s.len() - 1 ==> s[i] == #[trigger] dec_str(n / 10)[i]);
        }
        assert(s[0] == dec_str(n / 10)[0]);
        if n / 10 < 10 {
            assert(dec_str(n / 10) == seq![digit_char(n / 10)]);
            assert(n / 10 >= 1);
            assert(digit_char(n / 10) != '0');
        }
        assert(s.len() > 1 && s[0] != '0');
    }
}

/// A digit run without leading zeros starting with a non-zero digit has a
/// positive value, and rendering its value gives the run back.
pub proof fn lemma_dec_val_pos(s: Seq<char>)
    requires
        is_dec_digits(s),
        s[0] != '0',
    ensures
        dec_val(s) >= 1,
    decreases s.len(),
{
    if s.len() == 1 {
        lemma_digit_val_char(s[0]);
        assert(s =~= seq![s[0]]);
        lemma_dec_val_singleton(s[0]);
        assert(digit_val(s[0]) >= 1) by {
            assert(s[0] != '0' && is_digit(s[0]));
        }
    } else {
        let p = s.drop_last();
        assert(p[0] == s[0]);
        assert(is_dec_digits(p)) by {
            assert(forall|i: int| 0 <= i < p.len() ==> p[i] == #[trigger] s[i]);
        }
        lemma_dec_val_pos(p);
        lemma_digit_val_char(s.last());
    }
}

/// Every digit run has a non-negative value.
pub proof fn lemma_dec_val_nonneg(s: Seq<char>)
    requires
        forall|i: int| 0 <= i < s.len() ==> is_digit(#[trigger] s[i]),
    ensures
        dec_val(s) >= 0,
    decreases s.len(),
{
    if s.len() > 0 {
        let p = s.drop_last();
        lemma_dec_val_nonneg(p);
        lemma_digit_val_char(s.last());
    }
}

/// Rendering the value of a digit run without leading zeros gives the run
/// back: `dec_str` and `dec_val` are mutually inverse on canonical runs.
pub proof fn lemma_dec_str_of_val(s: Seq<char>)
    requires
        is_dec_digits(s),
        no_leading_zero(s),
    ensures
        dec_str(dec_val(s)) == s,
    decreases s.len(),
{
    if s.len() == 1 {
        lemma_digit_val_char(s[0]);
        assert(s =~= seq![s[0]]);
        lemma_dec_val_singleton(s[0]);
        assert(dec_str(dec_val(s)) == seq![digit_char(digit_val(s[0]))]);
        assert(dec_str(dec_val(s)) =~= s);
    } else {
        let p = s.drop_last();
        assert(is_dec_digits(p) && p[0] == s[0]) by {
            assert(forall|i: int| 0 <= i < p.len() ==> p[i] == #[trigger] s[i]);
        }
        assert(no_leading_zero(p));
        lemma_dec_str_of_val(p);
        lemma_dec_val_pos(p);
        lemma_digit_val_char(s.last());
        let n = dec_val(s);
        assert(n == dec_val(p) * 10 + digit_val(s.last()));
        assert(n / 10 == dec_val(p) && n % 10 == digit_val(s.last())) by (nonlinear_arith)
            requires
                n == dec_val(p) * 10 + digit_val(s.last()),
                dec_val(p) >= 1,
                0 <= digit_val(s.last()) < 10,
        ;
        assert(n >= 10) by (nonlinear_arith)
            requires
                n == dec_val(p) * 10 + digit_val(s.last()),
                dec_val(p) >= 1,
                0 <= digit_val(s.last()),
        ;
        assert(dec_str(n) == dec_str(n / 10).push(digit_char(n % 10)));
        assert(dec_str(n) =~= s);
    }
}

/// The digit character for `d`, as executable code.
pub fn digit_char_of(d: u32) -> (c: char)
    requires
        d < 10,
    ensures
        c == digit_char(d as int),
{
    match d {
        0 => '0',
        1 => '1',
        2 => '2',
        3 => '3',
        4 => '4',
        5 => '5',
        6 => '6',
        7 => '7',
        8 => '8',
        _ => '9',
    }
}

/// Relies on `String::push`: appends exactly one character at the end.
#[verifier::external_body]
pub fn push_char(s: &mut String, c: char)
    ensures
        final(s)@ == old(s)@.push(c),
{
    s.push(c);
}

/// Renders `n` in base ten with no leading zeros.
pub fn u32_to_dec_string(n: u32) -> (r: String)
    ensures
        r@ == dec_str(n as int),
    decreases n,
{
    if n < 10 {
        let mut s = String::new();
        push_char(&mut s, digit_char_of(n));
        proof {
            assert(s@ =~= dec_str(n as int));
        }
        s
    } else {
        let mut s = u32_to_dec_string(n / 10);
        push_char(&mut s, digit_char_of(n % 10));
        s
    }
}

// ---------------------------------------------------------------------------
// Sequence membership helpers.
// ---------------------------------------------------------------------------

pub proof fn lemma_contains_push<T>(s: Seq<T>, x: T, y: T)
    ensures
        s.push(x).contains(y) <==> (s.contains(y) || x == y),
{
    if s.push(x).contains(y) {
        let w = choose|w: int| 0 <= w < s.push(x).len() && s.push(x)[w] == y;
        if w < s.len() {
            assert(s[w] == y);
        }
    }
    if s.contains(y) {
        let w = choose|w: int| 0 <= w < s.len() && s[w] == y;
        assert(s.push(x)[w] == y);
    }
    if x == y {
        assert(s.push(x)[s.len() as int] == y);
    }
}

pub proof fn lemma_contains_insert<T>(s: Seq<T>, i: int, x: T, y: T)
    requires
        0 <= i <= s.len(),
    ensures
        s.insert(i, x).contains(y) <==> (s.contains(y) || x == y),
{
    let t = s.insert(i, x);
    if t.contains(y) {
        let w = choose|w: int| 0 <= w < t.len() && t[w] == y;
        if w < i {
            assert(s[w] == y);
        } else if w > i {
            assert(s[w - 1] == y);
        }
    }
    if s.contains(y) {
        let w = choose|w: int| 0 <= w < s.len() && s[w] == y;
        if w < i {
            assert(t[w] == y);
        } else {
            assert(t[w + 1] == y);
        }
    }
    if x == y {
        assert(t[i] == y);
    }
}

/// `s` with later repetitions removed: each value keeps its first position.
pub open spec fn dedup_seq<T>(s: Seq<T>) -> Seq<T>
    decreases s.len(),
{
    if s.len() == 0 {
        Seq::empty()
    } else {
        let pre = dedup_seq(s.drop_last());
        if s.drop_last().contains(s.last()) {
            pre
        } else {
            pre.push(s.last())
        }
    }
}

pub proof fn lemma_dedup_seq_contains<T>(s: Seq<T>, e: T)
    ensures
        dedup_seq(s).contains(e) <==> s.contains(e),
    decreases s.len(),
{
    if s.len() > 0 {
        let p = s.drop_last();
        lemma_dedup_seq_contains(p, e);
        assert(s.contains(e) <==> (p.contains(e) || s.last() == e)) by {
            if s.contains(e) {
                let w = choose|w: int| 0 <= w < s.len() && s[w] == e;
                if w < s.len() - 1 {
                    assert(p[w] == e);
                }
            }
            if p.contains(e) {
                let w = choose|w: int| 0 <= w < p.len() && p[w] == e;
                assert(s[w] == e);
            }
            if s.last() == e {
                assert(s[s.len() - 1] == e);
            }
        }
        if !p.contains(s.last()) {
            lemma_contains_push(dedup_seq(p), s.last(), e);
        }
    }
}

pub proof fn lemma_dedup_seq_unique<T>(s: Seq<T>)
    ensures
        forall|i: int, j: int|
            0 <= i < j < dedup_seq(s).len() ==> dedup_seq(s)[i] != dedup_seq(s)[j],
    decreases s.len(),
{
    if s.len() > 0 {
        let p = s.drop_last();
        lemma_dedup_seq_unique(p);
        if !p.contains(s.last()) {
            lemma_dedup_seq_contains(p, s.last());
            let pre = dedup_seq(p);
            assert(!pre.contains(s.last()));
            assert(forall|w: int| 0 <= w < pre.len() ==> #[trigger] pre[w] != s.last());
        }
    }
}

// ---------------------------------------------------------------------------
// Comparison, prefixes, searching.
// ---------------------------------------------------------------------------

/// `p` is a prefix of `s`.
pub open spec fn has_prefix(s: Seq<char>, p: Seq<char>) -> bool {
    p.len() <= s.len() && s.subrange(0, p.len() as int) == p
}

/// Character-by-character string equality.
pub fn str_eq(a: &str, b: &str) -> (r: bool)
    ensures
        r == (a@ == b@),
{
    let alen = a.unicode_len();
    let blen = b.unicode_len();
    if alen != blen {
        return false;
    }
    let mut i: usize = 0;
    while i < alen
        invariant
            alen == a@.len(),
            alen == b@.len(),
            i <= alen,
            forall|j: int| 0 <= j < i ==> a@[j] == b@[j],
        decreases alen - i,
    {
        let ca = a.get_char(i);
        let cb = b.get_char(i);
        if ca != cb {
            return false;
        }
        i = i + 1;
    }
    proof {
        assert(a@ =~= b@);
    }
    true
}

/// If `p` is a prefix of `s`, the remainder of `s` after it.
pub fn strip_prefix_str(s: &str, p: &str) -> (r: Option<String>)
    ensures
        match r {
            Some(t) => has_prefix(s@, p@) && t@ == s@.skip(p@.len() as int),
            None => !has_prefix(s@, p@),
        },
{
    let slen = s.unicode_len();
    let plen = p.unicode_len();
    if plen > slen {
        return None;
    }
    let head = s.substring_char(0, plen);
    if str_eq(head, p) {
        let tail = s.substring_char(plen, slen);
        proof {
            assert(s@.skip(plen as int) =~= s@.subrange(plen as int, slen as int));
        }
        Some(String::from_str(tail))
    } else {
        None
    }
}

/// `s` with every leading copy of `p` removed.
pub open spec fn strip_all_prefix(s: Seq<char>, p: Seq<char>) -> Seq<char>
    decreases s.len(),
{
    if p.len() > 0 && has_prefix(s, p) && s.len() > 0 {
        strip_all_prefix(s.skip(p.len() as int), p)
    } else {
        s
    }
}

/// Removes every leading copy of `p` from `s`.
pub fn strip_all_prefix_str(s: &str, p: &str) -> (r: String)
    requires
        p@.len() > 0,
    ensures
        r@ == strip_all_prefix(s@, p@),
{
    let mut cur = String::from_str(s);
    loop
        invariant
            p@.len() > 0,
            strip_all_prefix(cur@, p@) == strip_all_prefix(s@, p@),
        decreases cur@.len(),
    {
        match strip_prefix_str(cur.as_str(), p) {
            Some(t) => {
                proof {
                    assert(cur@.len() > 0);
                }
                cur = t;
            },
            None => {
                return cur;
            },
        }
    }
}

/// `p` occurs somewhere in `s`.
pub open spec fn contains_seq(s: Seq<char>, p: Seq<char>) -> bool {
    exists|i: int|
        0 <= i && i + p.len() <= s.len() && #[trigger] s.subrange(i, i + p.len() as int) == p
}

/// Substring search.
pub fn contains_substr(s: &str, p: &str) -> (r: bool)
    ensures
        r == contains_seq(s@, p@),
{
    let slen = s.unicode_len();
    let plen = p.unicode_len();
    if plen > slen {
        proof {
            assert(!contains_seq(s@, p@));
        }
        return false;
    }
    if plen == 0 {
        proof {
            assert(s@.subrange(0, 0 + p@.len() as int) =~= p@);
        }
        return true;
    }
    let mut i: usize = 0;
    while i <= slen - plen
        invariant
            plen == p@.len(),
            slen == s@.len(),
            1 <= plen <= slen,
            i <= slen - plen + 1,
            forall|j: int| 0 <= j < i ==> #[trigger] s@.subrange(j, j + p@.len() as int) != p@,
        decreases slen - i,
    {
        let piece = s.substring_char(i, i + plen);
        if str_eq(piece, p) {
            proof {
                assert(contains_seq(s@, p@)) by {
                    assert(s@.subrange(i as int, i + p@.len() as int) == p@);
                }
            }
            return true;
        }
        i = i + 1;
    }
    false
}

/// Membership of a character in a list of separators.
pub fn contains_char(v: &Vec<char>, c: char) -> (r: bool)
    ensures
        r == v@.contains(c),
{
    let mut i: usize = 0;
    while i < v.len()
        invariant
            i <= v@.len(),
            forall|j: int| 0 <= j < i ==> v@[j] != c,
        decreases v@.len() - i,
    {
        if v[i] == c {
            return true;
        }
        i = i + 1;
    }
    false
}

// ---------------------------------------------------------------------------
// Splitting.
// ---------------------------------------------------------------------------

/// Split `s` on any character of `seps`, keeping empty pieces, as `str::split`
/// does: the empty input yields one empty piece.
pub open spec fn spec_split(s: Seq<char>, seps: Seq<char>) -> Seq<Seq<char>>
    decreases s.len(),
{
    if s.len() == 0 {
        seq![Seq::<char>::empty()]
    } else if seps.contains(s[0]) {
        seq![Seq::<char>::empty()].add(spec_split(s.skip(1), seps))
    } else {
        let rest = spec_split(s.skip(1), seps);
        seq![seq![s[0]].add(rest[0])].add(rest.skip(1))
    }
}

pub proof fn lemma_split_len(s: Seq<char>, seps: Seq<char>)
    ensures
        spec_split(s, seps).len() >= 1,
    decreases s.len(),
{
    if s.len() > 0 {
        lemma_split_len(s.skip(1), seps);
    }
}

/// Appending one character extends the last piece, or opens a new empty one.
pub proof fn lemma_split_push(t: Seq<char>, c: char, seps: Seq<char>)
    ensures
        ({
            let r = spec_split(t, seps);
            spec_split(t.push(c), seps) == if seps.contains(c) {
                r.push(Seq::<char>::empty())
            } else {
                r.update(r.len() - 1, r.last().push(c))
            }
        }),
    decreases t.len(),
{
    lemma_split_len(t, seps);
    let r = spec_split(t, seps);
    if t.len() == 0 {
        let s1 = t.push(c);
        assert(s1.len() == 1 && s1[0] == c);
        assert(s1.skip(1) =~= Seq::<char>::empty());
        assert(spec_split(Seq::<char>::empty(), seps) == seq![Seq::<char>::empty()]);
        assert(r == seq![Seq::<char>::empty()]);
        if seps.contains(c) {
            assert(spec_split(s1, seps) =~~= r.push(Seq::<char>::empty()));
        } else {
            let rest = spec_split(s1.skip(1), seps);
            assert(rest == seq![Seq::<char>::empty()]);
            assert(spec_split(s1, seps) == seq![seq![c].add(rest[0])].add(rest.skip(1)));
            assert(spec_split(s1, seps) =~~= seq![seq![c]]);
            assert(r.update(r.len() - 1, r.last().push(c)) =~~= seq![seq![c]]);
        }
    } else {
        lemma_split_push(t.skip(1), c, seps);
        lemma_split_len(t.skip(1), seps);
        let rr = spec_split(t.skip(1), seps);
        assert(t.push(c)[0] == t[0]);
        assert(t.push(c).skip(1) =~= t.skip(1).push(c));
        if seps.contains(t[0]) {
            assert(r == seq![Seq::<char>::empty()].add(rr));
            assert(r.last() == rr.last());
            if seps.contains(c) {
                assert(spec_split(t.push(c), seps) =~~= r.push(Seq::<char>::empty()));
            } else {
                assert(spec_split(t.push(c), seps) =~~= r.update(r.len() - 1, r.last().push(c)));
            }
        } else {
            let rest2 = spec_split(t.skip(1).push(c), seps);
            assert(r == seq![seq![t[0]].add(rr[0])].add(rr.skip(1)));
            if seps.contains(c) {
                assert(rest2 == rr.push(Seq::<char>::empty()));
                assert(rest2[0] == rr[0]);
                assert(rest2.skip(1) =~= rr.skip(1).push(Seq::<char>::empty()));
                assert(spec_split(t.push(c), seps) =~~= r.push(Seq::<char>::empty()));
            } else {
                assert(rest2 == rr.update(rr.len() - 1, rr.last().push(c)));
                if rr.len() == 1 {
                    assert(rest2[0] == rr.last().push(c));
                    assert(rest2.skip(1) =~= rr.skip(1));
                    assert(spec_split(t.push(c), seps) =~~= r.update(
                        r.len() - 1,
                        r.last().push(c),
                    ));
                } else {
                    assert(rest2[0] == rr[0]);
                    assert(rest2.skip(1) =~= rr.skip(1).update(rr.len() - 2, rr.last().push(c)));
                    assert(r.last() == rr.last());
                    assert(spec_split(t.push(c), seps) =~~= r.update(
                        r.len() - 1,
                        r.last().push(c),
                    ));
                }
            }
        }
    }
}

/// Splits `s` on any character of `seps`.
pub fn split_str(s: &str, seps: &Vec<char>) -> (r: Vec<String>)
    ensures
        r.deep_view() == spec_split(s@, seps@),
        r.len() >= 1,
{
    let len = s.unicode_len();
    let mut done: Vec<String> = Vec::new();
    let mut cur: String = String::new();
    let mut i: usize = 0;
    while i < len
        invariant
            i <= len,
            len == s@.len(),
            done.deep_view().push(cur@) == spec_split(s@.take(i as int), seps@),
        decreases len - i,
    {
        let c = s.get_char(i);
        proof {
            lemma_split_push(s@.take(i as int), c, seps@);
            assert(s@.take(i + 1 as int) =~= s@.take(i as int).push(s@[i as int]));
        }
        if contains_char(seps, c) {
            done.push(cur);
            cur = String::new();
            proof {
                assert(done.deep_view().push(cur@) =~= spec_split(s@.take(i + 1 as int), seps@));
            }
        } else {
            push_char(&mut cur, c);
            proof {
                let old_split = spec_split(s@.take(i as int), seps@);
                assert(done.deep_view().push(cur@) =~= old_split.update(
                    old_split.len() - 1,
                    old_split.last().push(c),
                ));
            }
        }
        i = i + 1;
    }
    proof {
        assert(s@.take(len as int) =~= s@);
    }
    done.push(cur);
    proof {
        assert(done.deep_view() =~= spec_split(s@, seps@));
    }
    done
}

// ---------------------------------------------------------------------------
// Trimming.
// ---------------------------------------------------------------------------

/// ASCII whitespace, the forms that appear in tool output.
pub open spec fn is_space(c: char) -> bool {
    c == ' ' || c == '\t' || c == '\r' || c == '\n'
}

/// `s` without leading whitespace.
pub open spec fn trim_front(s: Seq<char>) -> Seq<char>
    decreases s.len(),
{
    if s.len() > 0 && is_space(s[0]) {
        trim_front(s.skip(1))
    } else {
        s
    }
}

/// `s` without trailing whitespace.
pub open spec fn trim_back(s: Seq<char>) -> Seq<char>
    decreases s.len(),
{
    if s.len() > 0 && is_space(s.last()) {
        trim_back(s.drop_last())
    } else {
        s
    }
}

/// `s` without leading and trailing whitespace.
pub open spec fn spec_trim(s: Seq<char>) -> Seq<char> {
    trim_back(trim_front(s))
}

/// Removes leading and trailing ASCII whitespace.
pub fn trim_str(s: &str) -> (r: String)
    ensures
        r@ == spec_trim(s@),
{
    let len = s.unicode_len();
    let mut i: usize = 0;
    proof {
        assert(s@.skip(0) =~= s@);
    }
    while i < len && is_space_exec(s.get_char(i))
        invariant
            i <= len,
            len == s@.len(),
            trim_front(s@) == trim_front(s@.skip(i as int)),
        decreases len - i,
    {
        proof {
            assert(s@.skip(i as int)[0] == s@[i as int]);
            assert(s@.skip(i as int).skip(1) =~= s@.skip(i + 1 as int));
        }
        i = i + 1;
    }
    proof {
        if i < len {
            assert(trim_front(s@.skip(i as int)) == s@.skip(i as int)) by {
                assert(s@.skip(i as int)[0] == s@[i as int]);
            }
        } else {
            assert(s@.skip(i as int) =~= Seq::<char>::empty());
        }
    }
    let ghost t = s@.skip(i as int);
    let mut j: usize = len;
    proof {
        assert(t.take(len - i as int) =~= t);
    }
    while j > i && is_space_exec(s.get_char(j - 1))
        invariant
            i <= j <= len,
            len == s@.len(),
            trim_front(s@) == t,
            t == s@.skip(i as int),
            trim_back(t) == trim_back(t.take(j - i as int)),
        decreases j,
    {
        proof {
            let piece = t.take(j - i as int);
            assert(piece.last() == s@[j - 1 as int]);
            assert(piece.drop_last() =~= t.take(j - 1 - i as int));
        }
        j = j - 1;
    }
    proof {
        let piece = t.take(j - i as int);
        if j > i {
            assert(trim_back(piece) == piece) by {
                assert(piece.last() == s@[j - 1 as int]);
            }
        } else {
            assert(piece =~= Seq::<char>::empty());
        }
        assert(s@.subrange(i as int, j as int) =~= t.take(j - i as int));
    }
    let out = s.substring_char(i, j);
    String::from_str(out)
}

/// Whitespace test, as executable code.
pub fn is_space_exec(c: char) -> (r: bool)
    ensures
        r == is_space(c),
{
    c == ' ' || c == '\t' || c == '\r' || c == '\n'
}

// ---------------------------------------------------------------------------
// ASCII lowercase.
// ---------------------------------------------------------------------------

/// ASCII lowercase of one character; other characters are unchanged.
pub open spec fn lower_char(c: char) -> char {
    if c == 'A' { 'a' }
    else if c == 'B' { 'b' }
    else if c == 'C' { 'c' }
    else if c == 'D' { 'd' }
    else if c == 'E' { 'e' }
    else if c == 'F' { 'f' }
    else if c == 'G' { 'g' }
    else if c == 'H' { 'h' }
    else if c == 'I' { 'i' }
    else if c == 'J' { 'j' }
    else if c == 'K' { 'k' }
    else if c == 'L' { 'l' }
    else if c == 'M' { 'm' }
    else if c == 'N' { 'n' }
    else if c == 'O' { 'o' }
    else if c == 'P' { 'p' }
    else if c == 'Q' { 'q' }
    else if c == 'R' { 'r' }
    else if c == 'S' { 's' }
    else if c == 'T' { 't' }
    else if c == 'U' { 'u' }
    else if c == 'V' { 'v' }
    else if c == 'W' { 'w' }
    else if c == 'X' { 'x' }
    else if c == 'Y' { 'y' }
    else if c == 'Z' { 'z' }
    else { c }
}

/// ASCII lowercase of a character sequence.
pub open spec fn lower_seq(s: Seq<char>) -> Seq<char> {
    s.map_values(|c: char| lower_char(c))
}

/// ASCII lowercase of one character, as executable code.
pub fn lower_char_exec(c: char) -> (r: char)
    ensures
        r == lower_char(c),
{
    match c {
        'A' => 'a',
        'B' => 'b',
        'C' => 'c',
        'D' => 'd',
        'E' => 'e',
        'F' => 'f',
        'G' => 'g',
        'H' => 'h',
        'I' => 'i',
        'J' => 'j',
        'K' => 'k',
        'L' => 'l',
        'M' => 'm',
        'N' => 'n',
        'O' => 'o',
        'P' => 'p',
        'Q' => 'q',
        'R' => 'r',
        'S' => 's',
        'T' => 't',
        'U' => 'u',
        'V' => 'v',
        'W' => 'w',
        'X' => 'x',
        'Y' => 'y',
        'Z' => 'z',
        _ => c,
    }
}

/// Lowercases the ASCII letters of `s`.
pub fn to_lower_str(s: &str) -> (r: String)
    ensures
        r@ == lower_seq(s@),
{
    let len = s.unicode_len();
    let mut out = String::new();
    let mut i: usize = 0;
    while i < len
        invariant
            i <= len,
            len == s@.len(),
            out@ == lower_seq(s@.take(i as int)),
        decreases len - i,
    {
        let c = s.get_char(i);
        push_char(&mut out, lower_char_exec(c));
        proof {
            assert(out@ =~= lower_seq(s@.take(i + 1 as int))) by {
                assert(s@.take(i + 1 as int) =~= s@.take(i as int).push(s@[i as int]));
                assert(lower_seq(s@.take(i as int).push(s@[i as int])) =~= lower_seq(
                    s@.take(i as int),
                ).push(lower_char(s@[i as int])));
            }
        }
        i = i + 1;
    }
    proof {
        assert(s@.take(len as int) =~= s@);
    }
    out
}

} // verus!
