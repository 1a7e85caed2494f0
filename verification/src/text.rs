//! Text utilities shared by the codec and the entry ordering: splitting a
//! line into space-separated tokens, joining tokens back, and the
//! lexicographic order on character sequences.

use vstd::prelude::*;

verus! {

/// Whether `t` contains no space character.
pub open spec fn no_space(t: Seq<char>) -> bool {
    forall|i: int| 0 <= i < t.len() ==> #[trigger] t[i] != ' '
}

/// Index of the first space in `s`, or -1 if there is none.
pub open spec fn first_space(s: Seq<char>) -> int
    decreases s.len(),
{
    if s.len() == 0 {
        -1
    } else if s[0] == ' ' {
        0
    } else {
        let r = first_space(s.drop_first());
        if r < 0 {
            -1
        } else {
            r + 1
        }
    }
}

/// The fields of `s`, split on every single space character.
pub open spec fn split_sp(s: Seq<char>) -> Seq<Seq<char>>
    decreases s.len(),
{
    let k = first_space(s);
    if 0 <= k < s.len() {
        seq![s.subrange(0, k)] + split_sp(s.skip(k + 1))
    } else {
        seq![s]
    }
}

/// The tokens joined by single spaces.
pub open spec fn join_sp(ts: Seq<Seq<char>>) -> Seq<char>
    decreases ts.len(),
{
    if ts.len() == 0 {
        Seq::empty()
    } else if ts.len() == 1 {
        ts[0]
    } else {
        ts[0] + seq![' '] + join_sp(ts.drop_first())
    }
}

pub proof fn lemma_first_space_none(s: Seq<char>)
    requires
        no_space(s),
    ensures
        first_space(s) == -1,
        split_sp(s) == seq![s],
    decreases s.len(),
{
    if s.len() > 0 {
        assert(s[0] != ' ');
        assert(forall|i: int|
            0 <= i < s.drop_first().len() ==> #[trigger] s.drop_first()[i] == s[i + 1]);
        lemma_first_space_none(s.drop_first());
    }
}

pub proof fn lemma_first_space_at(s: Seq<char>, k: int)
    requires
        0 <= k < s.len(),
        s[k] == ' ',
        no_space(s.subrange(0, k)),
    ensures
        first_space(s) == k,
        split_sp(s) == seq![s.subrange(0, k)] + split_sp(s.skip(k + 1)),
    decreases s.len(),
{
    if k == 0 {
    } else {
        assert(s.subrange(0, k)[0] != ' ');
        assert(s[0] != ' ');
        let t = s.drop_first();
        assert(t[k - 1] == s[k]);
        assert(t.subrange(0, k - 1) =~= s.subrange(0, k).drop_first());
        assert(forall|i: int|
            0 <= i < k - 1 ==> #[trigger] t.subrange(0, k - 1)[i] == s.subrange(0, k)[i + 1]);
        lemma_first_space_at(t, k - 1);
    }
}

/// Joining one more token appends one space and the token.
pub proof fn lemma_join_push(ts: Seq<Seq<char>>, x: Seq<char>)
    requires
        ts.len() >= 1,
    ensures
        join_sp(ts.push(x)) == join_sp(ts) + seq![' '] + x,
    decreases ts.len(),
{
    let p = ts.push(x);
    if ts.len() == 1 {
        assert(p.drop_first() =~= seq![x]);
        assert(join_sp(p) == p[0] + seq![' '] + join_sp(p.drop_first()));
        assert(p[0] == ts[0]);
    } else {
        assert(p.drop_first() =~= ts.drop_first().push(x));
        lemma_join_push(ts.drop_first(), x);
        assert(join_sp(p) == p[0] + seq![' '] + join_sp(ts.drop_first().push(x)));
        assert(p[0] + seq![' '] + (join_sp(ts.drop_first()) + seq![' '] + x) =~= (ts[0]
            + seq![' '] + join_sp(ts.drop_first())) + seq![' '] + x);
    }
}

/// Splitting the space-joined tokens recovers the tokens, provided each
/// token is free of spaces.
pub proof fn lemma_split_join(ts: Seq<Seq<char>>)
    requires
        ts.len() >= 1,
        forall|i: int| 0 <= i < ts.len() ==> no_space(#[trigger] ts[i]),
    ensures
        split_sp(join_sp(ts)) == ts,
    decreases ts.len(),
{
    if ts.len() == 1 {
        lemma_first_space_none(ts[0]);
        assert(split_sp(join_sp(ts)) =~= ts);
    } else {
        let s = join_sp(ts);
        let t0 = ts[0];
        let rest = join_sp(ts.drop_first());
        assert(s == t0 + seq![' '] + rest);
        let k = t0.len() as int;
        assert(s[k] == ' ');
        assert(s.subrange(0, k) =~= t0);
        lemma_first_space_at(s, k);
        assert(s.skip(k + 1) =~= rest);
        lemma_split_join(ts.drop_first());
        assert(split_sp(s) =~= ts);
    }
}

/// Relies on `String::push`: appends exactly one character.
#[verifier::external_body]
pub fn push_char(s: &mut String, c: char)
    ensures
        final(s)@ == old(s)@ + seq![c],
{
    s.push(c)
}

/// Relies on `String::pop`: removes the last character when there is one,
/// and leaves an empty string empty.
#[verifier::external_body]
pub fn pop_char(s: &mut String)
    ensures
        old(s)@.len() == 0 ==> final(s)@ == old(s)@,
        old(s)@.len() > 0 ==> final(s)@ == old(s)@.drop_last(),
{
    s.pop();
}

/// Splits a line on every single space character, as `split_sp` says.
#[verifier::loop_isolation(false)]
pub fn split_spaces(s: &str) -> (r: Vec<String>)
    ensures
        r.deep_view() == split_sp(s@),
        r.deep_view().len() >= 1,
{
    let len = s.unicode_len();
    let mut toks: Vec<String> = Vec::new();
    let mut start: usize = 0;
    let mut i: usize = 0;
    proof {
        assert(s@.skip(0) =~= s@);
    }
    while i < len
        invariant
            0 <= start <= i <= len,
            no_space(s@.subrange(start as int, i as int)),
            split_sp(s@) =~= toks.deep_view() + split_sp(s@.skip(start as int)),
        decreases len - i,
    {
        let c = s.get_char(i);
        if c == ' ' {
            let t = s.substring_char(start, i).to_owned();
            proof {
                let suf = s@.skip(start as int);
                assert(suf[i - start] == s@[i as int]);
                assert(suf.subrange(0, i - start) =~= s@.subrange(start as int, i as int));
                lemma_first_space_at(suf, i - start);
                assert(suf.skip(i - start + 1) =~= s@.skip(i + 1));
            }
            let ghost old_toks = toks.deep_view();
            toks.push(t);
            proof {
                assert(toks.deep_view() =~= old_toks.push(
                    s@.subrange(start as int, i as int),
                ));
                assert(split_sp(s@) =~= toks.deep_view() + split_sp(s@.skip(i + 1)));
            }
            start = i + 1;
        }
        i = i + 1;
        proof {
            assert(no_space(s@.subrange(start as int, i as int)));
        }
    }
    proof {
        assert(s@.skip(start as int) =~= s@.subrange(start as int, len as int));
        lemma_first_space_none(s@.skip(start as int));
    }
    let t = s.substring_char(start, len).to_owned();
    let ghost old_toks = toks.deep_view();
    toks.push(t);
    proof {
        assert(toks.deep_view() =~= old_toks.push(s@.skip(start as int)));
        assert(toks.deep_view() =~= split_sp(s@));
    }
    toks
}

/// Strict lexicographic order on character sequences, by code point, a
/// proper prefix ordering first.
pub open spec fn str_lt(a: Seq<char>, b: Seq<char>) -> bool
    decreases a.len() + b.len(),
{
    if b.len() == 0 {
        false
    } else if a.len() == 0 {
        true
    } else if a[0] != b[0] {
        (a[0] as int) < (b[0] as int)
    } else {
        str_lt(a.drop_first(), b.drop_first())
    }
}

/// Non-strict lexicographic order.
pub open spec fn str_le(a: Seq<char>, b: Seq<char>) -> bool {
    str_lt(a, b) || a == b
}

pub proof fn lemma_str_lt_irrefl(a: Seq<char>)
    ensures
        !str_lt(a, a),
    decreases a.len(),
{
    if a.len() > 0 {
        lemma_str_lt_irrefl(a.drop_first());
    }
}

pub proof fn lemma_str_lt_total(a: Seq<char>, b: Seq<char>)
    ensures
        str_lt(a, b) || str_lt(b, a) || a == b,
    decreases a.len() + b.len(),
{
    if a.len() > 0 && b.len() > 0 && a[0] == b[0] {
        lemma_str_lt_total(a.drop_first(), b.drop_first());
        if a.drop_first() == b.drop_first() {
            assert(a.drop_first().len() == b.drop_first().len());
            assert(a.len() == b.len());
            assert forall|i: int| 0 <= i < a.len() implies a[i] == b[i] by {
                if i > 0 {
                    assert(a[i] == a.drop_first()[i - 1]);
                    assert(b[i] == b.drop_first()[i - 1]);
                }
            }
            assert(a =~= b);
        }
    } else if a.len() == 0 && b.len() == 0 {
        assert(a =~= b);
    }
}

pub proof fn lemma_str_lt_trans(a: Seq<char>, b: Seq<char>, c: Seq<char>)
    requires
        str_lt(a, b),
        str_lt(b, c),
    ensures
        str_lt(a, c),
    decreases a.len() + b.len() + c.len(),
{
    if a.len() > 0 && b.len() > 0 && c.len() > 0 && a[0] == b[0] && b[0] == c[0] {
        lemma_str_lt_trans(a.drop_first(), b.drop_first(), c.drop_first());
    }
}

pub proof fn lemma_str_lt_asym(a: Seq<char>, b: Seq<char>)
    requires
        str_lt(a, b),
    ensures
        !str_lt(b, a),
{
    if str_lt(b, a) {
        lemma_str_lt_trans(a, b, a);
        lemma_str_lt_irrefl(a);
    }
}

/// Whether `a` comes strictly before `b` lexicographically, decided by a
/// character scan.
pub fn str_lt_exec(a: &str, b: &str) -> (r: bool)
    ensures
        r == str_lt(a@, b@),
{
    let alen = a.unicode_len();
    let blen = b.unicode_len();
    let mut i: usize = 0;
    proof {
        assert(a@.skip(0) =~= a@);
        assert(b@.skip(0) =~= b@);
    }
    loop
        invariant
            0 <= i <= alen,
            0 <= i <= blen,
            alen == a@.len(),
            blen == b@.len(),
            str_lt(a@, b@) == str_lt(a@.skip(i as int), b@.skip(i as int)),
        decreases alen - i,
    {
        if i >= blen {
            proof {
                assert(b@.skip(i as int).len() == 0);
            }
            return false;
        }
        if i >= alen {
            proof {
                assert(a@.skip(i as int).len() == 0);
                assert(b@.skip(i as int).len() > 0);
            }
            return true;
        }
        let ca = a.get_char(i);
        let cb = b.get_char(i);
        proof {
            assert(a@.skip(i as int)[0] == a@[i as int]);
            assert(b@.skip(i as int)[0] == b@[i as int]);
            assert(a@.skip(i as int).drop_first() =~= a@.skip(i + 1));
            assert(b@.skip(i as int).drop_first() =~= b@.skip(i + 1));
        }
        if ca != cb {
            return (ca as u32) < (cb as u32);
        }
        i = i + 1;
    }
}

/// Strict lexicographic order on sequences of tokens, ordering elementwise
/// by `str_lt`.
pub open spec fn toks_lt(a: Seq<Seq<char>>, b: Seq<Seq<char>>) -> bool
    decreases a.len() + b.len(),
{
    if b.len() == 0 {
        false
    } else if a.len() == 0 {
        true
    } else if a[0] != b[0] {
        str_lt(a[0], b[0])
    } else {
        toks_lt(a.drop_first(), b.drop_first())
    }
}

pub proof fn lemma_toks_lt_irrefl(a: Seq<Seq<char>>)
    ensures
        !toks_lt(a, a),
    decreases a.len(),
{
    if a.len() > 0 {
        lemma_toks_lt_irrefl(a.drop_first());
    }
}

pub proof fn lemma_toks_lt_total(a: Seq<Seq<char>>, b: Seq<Seq<char>>)
    ensures
        toks_lt(a, b) || toks_lt(b, a) || a == b,
    decreases a.len() + b.len(),
{
    if a.len() > 0 && b.len() > 0 && a[0] == b[0] {
        lemma_toks_lt_total(a.drop_first(), b.drop_first());
        if a.drop_first() == b.drop_first() {
            assert(a.drop_first().len() == b.drop_first().len());
            assert(a.len() == b.len());
            assert forall|i: int| 0 <= i < a.len() implies a[i] == b[i] by {
                if i > 0 {
                    assert(a[i] == a.drop_first()[i - 1]);
                    assert(b[i] == b.drop_first()[i - 1]);
                }
            }
            assert(a =~= b);
        }
    } else if a.len() > 0 && b.len() > 0 {
        lemma_str_lt_total(a[0], b[0]);
    } else if a.len() == 0 && b.len() == 0 {
        assert(a =~= b);
    }
}

pub proof fn lemma_toks_lt_trans(a: Seq<Seq<char>>, b: Seq<Seq<char>>, c: Seq<Seq<char>>)
    requires
        toks_lt(a, b),
        toks_lt(b, c),
    ensures
        toks_lt(a, c),
    decreases a.len() + b.len() + c.len(),
{
    if a.len() > 0 && b.len() > 0 && c.len() > 0 {
        if a[0] == b[0] && b[0] == c[0] {
            lemma_toks_lt_trans(a.drop_first(), b.drop_first(), c.drop_first());
        } else if a[0] == b[0] {
        } else if b[0] == c[0] {
        } else {
            lemma_str_lt_trans(a[0], b[0], c[0]);
            if a[0] == c[0] {
                lemma_str_lt_asym(a[0], b[0]);
            }
        }
    }
}

/// Whether token sequence `a` comes strictly before `b`, decided
/// elementwise.
pub fn toks_lt_exec(a: &Vec<String>, b: &Vec<String>) -> (r: bool)
    ensures
        r == toks_lt(a.deep_view(), b.deep_view()),
{
    let alen = a.len();
    let blen = b.len();
    let mut i: usize = 0;
    proof {
        assert(a.deep_view().skip(0) =~= a.deep_view());
        assert(b.deep_view().skip(0) =~= b.deep_view());
    }
    loop
        invariant
            0 <= i <= alen,
            0 <= i <= blen,
            alen == a@.len(),
            blen == b@.len(),
            toks_lt(a.deep_view(), b.deep_view()) == toks_lt(
                a.deep_view().skip(i as int),
                b.deep_view().skip(i as int),
            ),
        decreases alen - i,
    {
        if i >= blen {
            proof {
                assert(b.deep_view().skip(i as int).len() == 0);
            }
            return false;
        }
        if i >= alen {
            proof {
                assert(a.deep_view().skip(i as int).len() == 0);
                assert(b.deep_view().skip(i as int).len() > 0);
            }
            return true;
        }
        proof {
            assert(a.deep_view().skip(i as int)[0] == a@[i as int]@);
            assert(b.deep_view().skip(i as int)[0] == b@[i as int]@);
            assert(a.deep_view().skip(i as int).drop_first() =~= a.deep_view().skip(i + 1));
            assert(b.deep_view().skip(i as int).drop_first() =~= b.deep_view().skip(i + 1));
        }
        let ai = &a[i];
        let bi = &b[i];
        if !ai.eq(bi) {
            return str_lt_exec(ai.as_str(), bi.as_str());
        }
        i = i + 1;
    }
}

} // verus!
