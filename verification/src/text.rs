//! Character-level string helpers: splitting on a separator, prefix and
//! suffix tests, and building strings character by character. Everything
//! is specified over `Seq<char>` views.

use vstd::prelude::*;

verus! {

/// `String::push` appends one character at the end.
pub assume_specification[ String::push ](s: &mut String, ch: char)
    ensures
        final(s)@ == old(s)@.push(ch),
;

/// The fields of `s` delimited by `sep`: splitting the empty string gives
/// one empty field, and every separator closes the field before it.
pub open spec fn split_on(s: Seq<char>, sep: char) -> Seq<Seq<char>>
    decreases s.len(),
{
    if s.len() == 0 {
        seq![Seq::<char>::empty()]
    } else if s[0] == sep {
        seq![Seq::<char>::empty()] + split_on(s.skip(1), sep)
    } else {
        let rest = split_on(s.skip(1), sep);
        seq![seq![s[0]] + rest[0]] + rest.skip(1)
    }
}

pub proof fn lemma_split_on_nonempty(s: Seq<char>, sep: char)
    ensures
        split_on(s, sep).len() >= 1,
    decreases s.len(),
{
    if s.len() > 0 && s[0] != sep {
        lemma_split_on_nonempty(s.skip(1), sep);
    }
}

/// Splitting a separator-free string gives the string back as its one field.
pub proof fn lemma_split_on_no_sep(s: Seq<char>, sep: char)
    requires
        forall|j: int| 0 <= j < s.len() ==> s[j] != sep,
    ensures
        split_on(s, sep) == seq![s],
    decreases s.len(),
{
    if s.len() == 0 {
        assert(split_on(s, sep) =~~= seq![s]);
    } else {
        lemma_split_on_no_sep(s.skip(1), sep);
        let rest = split_on(s.skip(1), sep);
        assert(rest[0] == s.skip(1));
        assert(seq![s[0]] + s.skip(1) =~= s);
        assert(split_on(s, sep) =~~= seq![s]);
    }
}

/// If the first separator stands at `i`, the split is the prefix before it
/// followed by the split of what comes after it.
pub proof fn lemma_split_on_at_first(s: Seq<char>, sep: char, i: int)
    requires
        0 <= i < s.len(),
        s[i] == sep,
        forall|j: int| 0 <= j < i ==> s[j] != sep,
    ensures
        split_on(s, sep) == seq![s.take(i)] + split_on(s.skip(i + 1), sep),
    decreases i,
{
    if i == 0 {
        assert(s.take(0) =~= Seq::<char>::empty());
        assert(split_on(s, sep) =~~= seq![s.take(0)] + split_on(s.skip(1), sep));
    } else {
        let t = s.skip(1);
        assert(t[i - 1] == sep);
        assert(forall|j: int| 0 <= j < i - 1 ==> t[j] == s[j + 1] && t[j] != sep);
        lemma_split_on_at_first(t, sep, i - 1);
        let rest = split_on(t, sep);
        assert(rest[0] == t.take(i - 1));
        assert(seq![s[0]] + t.take(i - 1) =~= s.take(i));
        assert(rest.skip(1) =~= split_on(t.skip(i), sep));
        assert(t.skip(i) =~= s.skip(i + 1));
        assert(split_on(s, sep) =~~= seq![s.take(i)] + split_on(s.skip(i + 1), sep));
    }
}

/// Splitting `a + sep + b` where `a` is separator-free yields `a` as the
/// first field, followed by the fields of `b`.
pub proof fn lemma_split_on_prepend_field(a: Seq<char>, b: Seq<char>, sep: char)
    requires
        forall|j: int| 0 <= j < a.len() ==> a[j] != sep,
    ensures
        split_on(a + seq![sep] + b, sep) == seq![a] + split_on(b, sep),
{
    let s = a + seq![sep] + b;
    assert(s[a.len() as int] == sep);
    assert(forall|j: int| 0 <= j < a.len() ==> s[j] == a[j] && s[j] != sep);
    lemma_split_on_at_first(s, sep, a.len() as int);
    assert(s.take(a.len() as int) =~= a);
    assert(s.skip(a.len() as int + 1) =~= b);
}

/// No field of a split contains the separator.
pub proof fn lemma_split_fields_no_sep(s: Seq<char>, sep: char, k: int, j: int)
    requires
        0 <= k < split_on(s, sep).len(),
        0 <= j < split_on(s, sep)[k].len(),
    ensures
        split_on(s, sep)[k][j] != sep,
    decreases s.len(),
{
    if s.len() == 0 {
    } else if s[0] == sep {
        if k > 0 {
            lemma_split_fields_no_sep(s.skip(1), sep, k - 1, j);
        }
    } else {
        let rest = split_on(s.skip(1), sep);
        lemma_split_on_nonempty(s.skip(1), sep);
        if k == 0 {
            if j > 0 {
                lemma_split_fields_no_sep(s.skip(1), sep, 0, j - 1);
                assert(split_on(s, sep)[0][j] == rest[0][j - 1]);
            }
        } else {
            lemma_split_fields_no_sep(s.skip(1), sep, k, j);
            assert(split_on(s, sep)[k] == rest[k]);
        }
    }
}

/// Appending something that starts with the separator does not change the
/// first field of the split.
pub proof fn lemma_split_first_field_append(p: Seq<char>, suffix: Seq<char>, sep: char)
    requires
        suffix.len() > 0,
        suffix[0] == sep,
    ensures
        split_on(p + suffix, sep)[0] == split_on(p, sep)[0],
    decreases p.len(),
{
    let s = p + suffix;
    if p.len() == 0 {
        assert(s =~= suffix);
        assert(s[0] == sep);
    } else if p[0] == sep {
        assert(s[0] == sep);
    } else {
        assert(s[0] == p[0]);
        lemma_split_first_field_append(p.skip(1), suffix, sep);
        assert(s.skip(1) =~= p.skip(1) + suffix);
        lemma_split_on_nonempty(s.skip(1), sep);
        lemma_split_on_nonempty(p.skip(1), sep);
    }
}

/// Split `s` into its `sep`-delimited fields.
pub fn split_str(s: &str, sep: char) -> (r: Vec<String>)
    ensures
        r.deep_view() == split_on(s@, sep),
{
    let n = s.unicode_len();
    let mut out: Vec<String> = Vec::new();
    let mut cur = String::new();
    let mut start: usize = 0;
    let mut i: usize = 0;
    proof {
        assert(s@.skip(0) =~= s@);
        assert(out.deep_view() =~= Seq::<Seq<char>>::empty());
        assert(out.deep_view() + split_on(s@.skip(0), sep) =~~= split_on(s@, sep));
    }
    while i < n
        invariant
            start <= i <= n,
            n == s@.len(),
            cur@ == s@.subrange(start as int, i as int),
            forall|j: int| start <= j < i ==> s@[j] != sep,
            split_on(s@, sep) == out.deep_view() + split_on(s@.skip(start as int), sep),
        decreases n - i,
    {
        let c = s.get_char(i);
        if c == sep {
            proof {
                let tail = s@.skip(start as int);
                assert(tail[i - start] == sep);
                assert(forall|j: int| 0 <= j < i - start ==> tail[j] == s@[j + start] && tail[j]
                    != sep);
                lemma_split_on_at_first(tail, sep, i - start);
                assert(tail.take(i - start) =~= s@.subrange(start as int, i as int));
                assert(tail.skip(i - start + 1) =~= s@.skip(i + 1));
            }
            let ghost old_out = out.deep_view();
            let ghost field = cur@;
            out.push(cur);
            proof {
                assert(out.deep_view() =~= old_out.push(field));
                assert(out.deep_view() + split_on(s@.skip(i + 1), sep) =~~= old_out + (seq![field]
                    + split_on(s@.skip(i + 1), sep)));
            }
            cur = String::new();
            start = i + 1;
        } else {
            cur.push(c);
            proof {
                assert(cur@ =~= s@.subrange(start as int, i + 1));
            }
        }
        i += 1;
    }
    proof {
        let tail = s@.skip(start as int);
        assert(forall|j: int| 0 <= j < tail.len() ==> tail[j] == s@[j + start] && tail[j] != sep);
        lemma_split_on_no_sep(tail, sep);
        assert(cur@ =~= tail);
    }
    let ghost old_out = out.deep_view();
    let ghost field = cur@;
    out.push(cur);
    proof {
        assert(out.deep_view() =~= old_out.push(field));
        assert(out.deep_view() =~~= split_on(s@, sep));
    }
    out
}

/// Does `suffix` end `s`?
pub fn str_ends_with(s: &str, suffix: &str) -> (r: bool)
    ensures
        r == suffix@.is_suffix_of(s@),
{
    let n = s.unicode_len();
    let m = suffix.unicode_len();
    if m > n {
        return false;
    }
    let mut k: usize = 0;
    while k < m
        invariant
            m <= n,
            k <= m,
            n == s@.len(),
            m == suffix@.len(),
            forall|j: int| 0 <= j < k ==> s@[n - m + j] == suffix@[j],
        decreases m - k,
    {
        if s.get_char(n - m + k) != suffix.get_char(k) {
            proof {
                assert(s@.subrange(n - m, n as int)[k as int] != suffix@[k as int]);
            }
            return false;
        }
        k += 1;
    }
    proof {
        assert(s@.subrange(n - m, n as int) =~= suffix@);
    }
    true
}

/// Does `prefix` begin `s`?
pub fn str_starts_with(s: &str, prefix: &str) -> (r: bool)
    ensures
        r == prefix@.is_prefix_of(s@),
{
    let n = s.unicode_len();
    let m = prefix.unicode_len();
    if m > n {
        return false;
    }
    let mut k: usize = 0;
    while k < m
        invariant
            m <= n,
            k <= m,
            n == s@.len(),
            m == prefix@.len(),
            forall|j: int| 0 <= j < k ==> s@[j] == prefix@[j],
        decreases m - k,
    {
        if s.get_char(k) != prefix.get_char(k) {
            proof {
                assert(s@.subrange(0, m as int)[k as int] != prefix@[k as int]);
            }
            return false;
        }
        k += 1;
    }
    proof {
        assert(s@.subrange(0, m as int) =~= prefix@);
    }
    true
}

/// Are `a` and `b` the same string?
pub fn str_eq(a: &str, b: &str) -> (r: bool)
    ensures
        r == (a@ == b@),
{
    let n = a.unicode_len();
    let m = b.unicode_len();
    if m != n {
        return false;
    }
    let mut k: usize = 0;
    while k < n
        invariant
            k <= n,
            n == a@.len(),
            n == b@.len(),
            forall|j: int| 0 <= j < k ==> a@[j] == b@[j],
        decreases n - k,
    {
        if a.get_char(k) != b.get_char(k) {
            return false;
        }
        k += 1;
    }
    proof {
        assert(a@ =~= b@);
    }
    true
}

} // verus!
