//! Stable ordering of records by a text key (ascending or descending), as
//! `sort_by` with `cmp` on the key gives it.
use vstd::prelude::*;

use crate::text::chars_of;

verus! {

/// `a` comes strictly before `b` in the ordering of strings, looking from
/// index `i` on: code point by code point, a proper prefix first (the order
/// `str::cmp` uses, since UTF-8 keeps code point order).
pub open spec fn lex_lt_from(a: Seq<char>, b: Seq<char>, i: int) -> bool
    decreases a.len() - i,
{
    if i < 0 {
        false
    } else if i >= a.len() {
        i < b.len()
    } else if i >= b.len() {
        false
    } else if a[i] != b[i] {
        (a[i] as u32) < (b[i] as u32)
    } else {
        lex_lt_from(a, b, i + 1)
    }
}

/// `a` sorts strictly before `b`.
pub open spec fn lex_lt(a: Seq<char>, b: Seq<char>) -> bool {
    lex_lt_from(a, b, 0)
}

/// Record `i` must precede record `j` in the stable order by `keys`
/// (ascending, or descending when `desc`): its key is strictly earlier, or
/// the keys are equal and `i` came first.
pub open spec fn precedes(keys: Seq<Seq<char>>, desc: bool, i: int, j: int) -> bool {
    if desc {
        lex_lt(keys[j], keys[i]) || (keys[i] == keys[j] && i < j)
    } else {
        lex_lt(keys[i], keys[j]) || (keys[i] == keys[j] && i < j)
    }
}

/// `p` lists every index of `keys` once, in the stable order by the keys.
pub open spec fn is_stable_order(keys: Seq<Seq<char>>, desc: bool, p: Seq<usize>) -> bool {
    &&& p.len() == keys.len()
    &&& forall|i: int| 0 <= i < p.len() ==> (#[trigger] p[i]) < keys.len()
    &&& forall|i: int, j: int| 0 <= i < j < p.len() ==> p[i] != p[j]
    &&& forall|i: int, j: int|
        0 <= i < j < p.len() ==> precedes(keys, desc, #[trigger] p[i] as int, #[trigger] p[j] as int)
}

/// The string order is asymmetric: of two strings, at most one comes first.
pub proof fn lemma_lex_asym(a: Seq<char>, b: Seq<char>, i: int)
    requires
        lex_lt_from(a, b, i),
    ensures
        !lex_lt_from(b, a, i),
    decreases a.len() - i,
{
    if i >= 0 && i < a.len() && i < b.len() && a[i] == b[i] {
        lemma_lex_asym(a, b, i + 1);
    }
}

/// The string order is transitive.
pub proof fn lemma_lex_trans(a: Seq<char>, b: Seq<char>, c: Seq<char>, i: int)
    requires
        lex_lt_from(a, b, i),
        lex_lt_from(b, c, i),
    ensures
        lex_lt_from(a, c, i),
    decreases a.len() - i,
{
    if i < a.len() && a[i] == b[i] && b[i] == c[i] {
        lemma_lex_trans(a, b, c, i + 1);
    }
}

/// The string order is total: of two different strings, one comes first.
pub proof fn lemma_lex_total(a: Seq<char>, b: Seq<char>, i: int)
    requires
        0 <= i <= a.len(),
        i <= b.len(),
    ensures
        lex_lt_from(a, b, i) || lex_lt_from(b, a, i) || a.subrange(i, a.len() as int) == b.subrange(
            i,
            b.len() as int,
        ),
    decreases a.len() - i,
{
    if i < a.len() && i < b.len() && a[i] == b[i] {
        lemma_lex_total(a, b, i + 1);
        if a.subrange(i + 1, a.len() as int) == b.subrange(i + 1, b.len() as int) {
            assert(a.subrange(i, a.len() as int) =~= seq![a[i]] + a.subrange(i + 1, a.len() as int));
            assert(b.subrange(i, b.len() as int) =~= seq![b[i]] + b.subrange(i + 1, b.len() as int));
        }
    } else if i == a.len() && i == b.len() {
        assert(a.subrange(i, a.len() as int) =~= b.subrange(i, b.len() as int));
    } else if i < a.len() && i < b.len() {
        vstd::utf8::char_u32_cast(a[i], a[i] as u32);
        vstd::utf8::char_u32_cast(b[i], b[i] as u32);
        assert((a[i] as u32) != (b[i] as u32));
    }
}

proof fn lemma_lex_total_full(a: Seq<char>, b: Seq<char>)
    ensures
        lex_lt(a, b) || lex_lt(b, a) || a == b,
{
    lemma_lex_total(a, b, 0);
    assert(a.subrange(0, a.len() as int) == a);
    assert(b.subrange(0, b.len() as int) == b);
}

proof fn lemma_precedes_total(keys: Seq<Seq<char>>, desc: bool, i: int, j: int)
    requires
        i != j,
    ensures
        precedes(keys, desc, i, j) || precedes(keys, desc, j, i),
{
    lemma_lex_total_full(keys[i], keys[j]);
}

proof fn lemma_precedes_trans(keys: Seq<Seq<char>>, desc: bool, i: int, j: int, k: int)
    requires
        precedes(keys, desc, i, j),
        precedes(keys, desc, j, k),
    ensures
        precedes(keys, desc, i, k),
{
    if desc {
        if lex_lt(keys[k], keys[j]) && lex_lt(keys[j], keys[i]) {
            lemma_lex_trans(keys[k], keys[j], keys[i], 0);
        }
    } else {
        if lex_lt(keys[i], keys[j]) && lex_lt(keys[j], keys[k]) {
            lemma_lex_trans(keys[i], keys[j], keys[k], 0);
        }
    }
}

/// Whether `a` sorts strictly before `b`.
pub fn lex_lt_exec(a: &Vec<char>, b: &Vec<char>) -> (r: bool)
    ensures
        r == lex_lt(a@, b@),
{
    let mut i: usize = 0;
    while i < a.len() && i < b.len() && a[i] == b[i]
        invariant
            i <= a@.len(),
            i <= b@.len(),
            lex_lt_from(a@, b@, i as int) == lex_lt_from(a@, b@, 0),
        decreases a@.len() - i,
    {
        i = i + 1;
    }
    if i >= a.len() {
        i < b.len()
    } else if i >= b.len() {
        false
    } else {
        (a[i] as u32) < (b[i] as u32)
    }
}

/// Whether record `i` precedes record `j` in the stable order.
fn precedes_exec(keys: &Vec<Vec<char>>, desc: bool, i: usize, j: usize) -> (r: bool)
    requires
        i < keys@.len(),
        j < keys@.len(),
    ensures
        r == precedes(keys@.map_values(|k: Vec<char>| k@), desc, i as int, j as int),
{
    let ghost ks = keys@.map_values(|k: Vec<char>| k@);
    let lt = if desc {
        lex_lt_exec(&keys[j], &keys[i])
    } else {
        lex_lt_exec(&keys[i], &keys[j])
    };
    if lt {
        return true;
    }
    let eq = crate::text::chars_eq(&keys[i], &keys[j]);
    eq && i < j
}

/// The stable order of records by their keys: record indices, sorted
/// ascending (or descending when `desc`) by key, records with equal keys
/// kept in their original order.
pub fn stable_order(keys: &Vec<String>, desc: bool) -> (p: Vec<usize>)
    ensures
        is_stable_order(keys@.map_values(|k: String| k@), desc, p@),
{
    let ghost ks = keys@.map_values(|k: String| k@);
    let mut kv: Vec<Vec<char>> = Vec::new();
    let mut m: usize = 0;
    while m < keys.len()
        invariant
            m <= keys@.len(),
            kv@.len() == m,
            forall|t: int| 0 <= t < m ==> (#[trigger] kv@[t])@ == keys@[t]@,
        decreases keys@.len() - m,
    {
        kv.push(chars_of(keys[m].as_str()));
        m = m + 1;
    }
    assert(kv@.map_values(|k: Vec<char>| k@) =~= ks);
    let mut p: Vec<usize> = Vec::new();
    let mut k: usize = 0;
    while k < keys.len()
        invariant
            k <= keys@.len(),
            kv@.len() == keys@.len(),
            kv@.map_values(|k: Vec<char>| k@) == ks,
            p@.len() == k,
            forall|i: int| 0 <= i < p@.len() ==> (#[trigger] p@[i]) < k,
            forall|i: int, j: int| 0 <= i < j < p@.len() ==> p@[i] != p@[j],
            forall|i: int, j: int|
                0 <= i < j < p@.len() ==> precedes(ks, desc, #[trigger] p@[i] as int, #[trigger] p@[j] as int),
        decreases keys@.len() - k,
    {
        // first position whose record must come after record k
        let mut pos: usize = 0;
        while pos < p.len() && !precedes_exec(&kv, desc, k, p[pos])
            invariant
                pos <= p@.len(),
                k < kv@.len(),
                kv@.len() == keys@.len(),
                kv@.map_values(|k: Vec<char>| k@) == ks,
                forall|i: int| 0 <= i < p@.len() ==> (#[trigger] p@[i]) < k,
                forall|i: int| 0 <= i < pos ==> !precedes(ks, desc, k as int, #[trigger] p@[i] as int),
            decreases p@.len() - pos,
        {
            pos = pos + 1;
        }
        let ghost old_p = p@;
        p.insert(pos, k);
        assert(p@ == old_p.insert(pos as int, k));
        assert forall|i: int| 0 <= i < p@.len() implies (#[trigger] p@[i]) < k + 1 by {
            if i < pos {
                assert(p@[i] == old_p[i]);
            } else if i > pos {
                assert(p@[i] == old_p[i - 1]);
            }
        }
        assert forall|i: int, j: int| 0 <= i < j < p@.len() implies p@[i] != p@[j] by {
            if i < pos {
                assert(p@[i] == old_p[i]);
            } else if i > pos {
                assert(p@[i] == old_p[i - 1]);
            }
            if j < pos {
                assert(p@[j] == old_p[j]);
            } else if j > pos {
                assert(p@[j] == old_p[j - 1]);
            }
        }
        assert forall|i: int, j: int| 0 <= i < j < p@.len() implies precedes(
            ks,
            desc,
            #[trigger] p@[i] as int,
            #[trigger] p@[j] as int,
        ) by {
            if j < pos {
                assert(p@[i] == old_p[i] && p@[j] == old_p[j]);
            } else if j == pos {
                assert(p@[i] == old_p[i]);
                assert(!precedes(ks, desc, k as int, old_p[i] as int));
                lemma_precedes_total(ks, desc, k as int, old_p[i] as int);
            } else if i > pos {
                assert(p@[i] == old_p[i - 1] && p@[j] == old_p[j - 1]);
            } else if i == pos {
                assert(p@[j] == old_p[j - 1]);
                assert(precedes(ks, desc, k as int, old_p[pos as int] as int));
                if j - 1 > pos {
                    assert(precedes(ks, desc, old_p[pos as int] as int, old_p[j - 1] as int));
                    lemma_precedes_trans(ks, desc, k as int, old_p[pos as int] as int, old_p[j - 1] as int);
                }
            } else {
                assert(p@[i] == old_p[i] && p@[j] == old_p[j - 1]);
            }
        }
        k = k + 1;
    }
    p
}

} // verus!
