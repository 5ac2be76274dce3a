//! A small theory of keyed row sequences.
//!
//! Every table of the store is a sequence of rows with a key.  All writes go
//! through two shapes: `upsert_seq` (update the first row matching the key,
//! or append a fresh row when none matches) and `update_first` (update the
//! first matching row, or leave the sequence unchanged).  The lemmas below
//! relate these recursive definitions to index-based updates, show that keys
//! and unrelated rows are preserved, and show when applying the same write
//! twice equals applying it once — the root of the engine's idempotence.

use vstd::prelude::*;

verus! {

/// True if no row matches `keyf`.
pub open spec fn no_match<T>(s: Seq<T>, keyf: spec_fn(T) -> bool) -> bool {
    forall|i: int| 0 <= i < s.len() ==> !keyf(s[i])
}

/// Update the first row matching `keyf` with `mergef`, or append `fresh`.
pub open spec fn upsert_seq<T>(
    s: Seq<T>,
    keyf: spec_fn(T) -> bool,
    mergef: spec_fn(T) -> T,
    fresh: T,
) -> Seq<T>
    decreases s.len(),
{
    if s.len() == 0 {
        seq![fresh]
    } else if keyf(s[0]) {
        seq![mergef(s[0])] + s.skip(1)
    } else {
        seq![s[0]] + upsert_seq(s.skip(1), keyf, mergef, fresh)
    }
}

/// Update the first row matching `keyf` with `mergef`; no row matching,
/// nothing changes.
pub open spec fn update_first<T>(s: Seq<T>, keyf: spec_fn(T) -> bool, mergef: spec_fn(T) -> T) -> Seq<
    T,
>
    decreases s.len(),
{
    if s.len() == 0 {
        s
    } else if keyf(s[0]) {
        seq![mergef(s[0])] + s.skip(1)
    } else {
        seq![s[0]] + update_first(s.skip(1), keyf, mergef)
    }
}

/// When row `i` is the first match, the upsert is the update of row `i`.
pub proof fn lemma_upsert_found<T>(
    s: Seq<T>,
    keyf: spec_fn(T) -> bool,
    mergef: spec_fn(T) -> T,
    fresh: T,
    i: int,
)
    requires
        0 <= i < s.len(),
        keyf(s[i]),
        forall|j: int| 0 <= j < i ==> !keyf(s[j]),
    ensures
        upsert_seq(s, keyf, mergef, fresh) =~= s.update(i, mergef(s[i])),
    decreases i,
{
    if i == 0 {
        assert(upsert_seq(s, keyf, mergef, fresh) =~= s.update(0, mergef(s[0])));
    } else {
        lemma_upsert_found(s.skip(1), keyf, mergef, fresh, i - 1);
        assert(upsert_seq(s, keyf, mergef, fresh) =~= s.update(i, mergef(s[i])));
    }
}

/// When no row matches, the upsert appends the fresh row.
pub proof fn lemma_upsert_none<T>(s: Seq<T>, keyf: spec_fn(T) -> bool, mergef: spec_fn(T) -> T, fresh: T)
    requires
        no_match(s, keyf),
    ensures
        upsert_seq(s, keyf, mergef, fresh) =~= s.push(fresh),
    decreases s.len(),
{
    if s.len() > 0 {
        lemma_upsert_none(s.skip(1), keyf, mergef, fresh);
        assert(upsert_seq(s, keyf, mergef, fresh) =~= s.push(fresh));
    }
}

/// When row `i` is the first match, the update is the update of row `i`.
pub proof fn lemma_update_first_found<T>(
    s: Seq<T>,
    keyf: spec_fn(T) -> bool,
    mergef: spec_fn(T) -> T,
    i: int,
)
    requires
        0 <= i < s.len(),
        keyf(s[i]),
        forall|j: int| 0 <= j < i ==> !keyf(s[j]),
    ensures
        update_first(s, keyf, mergef) =~= s.update(i, mergef(s[i])),
    decreases i,
{
    if i == 0 {
        assert(update_first(s, keyf, mergef) =~= s.update(0, mergef(s[0])));
    } else {
        lemma_update_first_found(s.skip(1), keyf, mergef, i - 1);
        assert(update_first(s, keyf, mergef) =~= s.update(i, mergef(s[i])));
    }
}

/// When no row matches, the update does nothing.
pub proof fn lemma_update_first_none<T>(s: Seq<T>, keyf: spec_fn(T) -> bool, mergef: spec_fn(T) -> T)
    requires
        no_match(s, keyf),
    ensures
        update_first(s, keyf, mergef) =~= s,
    decreases s.len(),
{
    if s.len() > 0 {
        lemma_update_first_none(s.skip(1), keyf, mergef);
        assert(update_first(s, keyf, mergef) =~= s);
    }
}

/// Applying the same upsert twice equals applying it once, provided the
/// merge settles: the fresh row carries the key and merging changes nothing
/// the merge itself wrote (`mergef(mergef(x)) == mergef(x)`,
/// `mergef(fresh) == fresh`).
pub proof fn lemma_upsert_idempotent<T>(
    s: Seq<T>,
    keyf: spec_fn(T) -> bool,
    mergef: spec_fn(T) -> T,
    fresh: T,
)
    requires
        keyf(fresh),
        forall|x: T| keyf(x) ==> keyf(#[trigger] mergef(x)),
        forall|x: T| keyf(x) ==> #[trigger] mergef(mergef(x)) == mergef(x),
        mergef(fresh) == fresh,
    ensures
        upsert_seq(upsert_seq(s, keyf, mergef, fresh), keyf, mergef, fresh) == upsert_seq(
            s,
            keyf,
            mergef,
            fresh,
        ),
    decreases s.len(),
{
    let once = upsert_seq(s, keyf, mergef, fresh);
    if s.len() == 0 {
        assert(once =~= seq![fresh]);
        assert(upsert_seq(once, keyf, mergef, fresh) =~= seq![mergef(fresh)] + once.skip(1));
        assert(upsert_seq(once, keyf, mergef, fresh) =~= once);
    } else if keyf(s[0]) {
        assert(once[0] == mergef(s[0]));
        assert(upsert_seq(once, keyf, mergef, fresh) =~= seq![mergef(once[0])] + once.skip(1));
        assert(once.skip(1) =~= s.skip(1));
        assert(upsert_seq(once, keyf, mergef, fresh) =~= once);
    } else {
        lemma_upsert_idempotent(s.skip(1), keyf, mergef, fresh);
        assert(once[0] == s[0]);
        assert(once.skip(1) =~= upsert_seq(s.skip(1), keyf, mergef, fresh));
        assert(upsert_seq(once, keyf, mergef, fresh) =~= seq![once[0]] + upsert_seq(
            once.skip(1),
            keyf,
            mergef,
            fresh,
        ));
        assert(upsert_seq(once, keyf, mergef, fresh) =~= once);
    }
}

/// Applying the same first-match update twice equals applying it once,
/// provided the merge settles.
pub proof fn lemma_update_first_idempotent<T>(
    s: Seq<T>,
    keyf: spec_fn(T) -> bool,
    mergef: spec_fn(T) -> T,
)
    requires
        forall|x: T| keyf(x) ==> keyf(#[trigger] mergef(x)),
        forall|x: T| keyf(x) ==> #[trigger] mergef(mergef(x)) == mergef(x),
    ensures
        update_first(update_first(s, keyf, mergef), keyf, mergef) == update_first(s, keyf, mergef),
    decreases s.len(),
{
    let once = update_first(s, keyf, mergef);
    if s.len() == 0 {
    } else if keyf(s[0]) {
        assert(once[0] == mergef(s[0]));
        assert(once.skip(1) =~= s.skip(1));
        assert(update_first(once, keyf, mergef) =~= seq![mergef(once[0])] + once.skip(1));
        assert(update_first(once, keyf, mergef) =~= once);
    } else {
        lemma_update_first_idempotent(s.skip(1), keyf, mergef);
        assert(once[0] == s[0]);
        assert(once.skip(1) =~= update_first(s.skip(1), keyf, mergef));
        assert(update_first(once, keyf, mergef) =~= seq![once[0]] + update_first(
            once.skip(1),
            keyf,
            mergef,
        ));
        assert(update_first(once, keyf, mergef) =~= once);
    }
}

/// An upsert keeps every row or adds one.
pub proof fn lemma_upsert_len<T>(s: Seq<T>, keyf: spec_fn(T) -> bool, mergef: spec_fn(T) -> T, fresh: T)
    ensures
        s.len() <= upsert_seq(s, keyf, mergef, fresh).len() <= s.len() + 1,
    decreases s.len(),
{
    if s.len() > 0 && !keyf(s[0]) {
        lemma_upsert_len(s.skip(1), keyf, mergef, fresh);
    }
}

/// A first-match update keeps the length, and each row is either kept or
/// merged.
pub proof fn lemma_update_first_shape<T>(s: Seq<T>, keyf: spec_fn(T) -> bool, mergef: spec_fn(T) -> T)
    ensures
        update_first(s, keyf, mergef).len() == s.len(),
        forall|i: int|
            0 <= i < s.len() ==> (#[trigger] update_first(s, keyf, mergef)[i] == s[i]
                || update_first(s, keyf, mergef)[i] == mergef(s[i])),
    decreases s.len(),
{
    if s.len() > 0 && !keyf(s[0]) {
        lemma_update_first_shape(s.skip(1), keyf, mergef);
        assert forall|i: int|
            0 <= i < s.len() implies (#[trigger] update_first(s, keyf, mergef)[i] == s[i]
                || update_first(s, keyf, mergef)[i] == mergef(s[i])) by {
            if i > 0 {
                assert(update_first(s, keyf, mergef)[i] == update_first(s.skip(1), keyf, mergef)[i
                    - 1]);
                assert(s.skip(1)[i - 1] == s[i]);
            }
        }
    }
}

/// The first row matching a key, if any.
pub open spec fn find_first<T>(s: Seq<T>, keyf: spec_fn(T) -> bool) -> Option<T>
    decreases s.len(),
{
    if s.len() == 0 {
        None
    } else if keyf(s[0]) {
        Some(s[0])
    } else {
        find_first(s.skip(1), keyf)
    }
}

/// The first matching index yields the found row.
pub proof fn lemma_find_first_at<T>(s: Seq<T>, keyf: spec_fn(T) -> bool, i: int)
    requires
        0 <= i < s.len(),
        keyf(s[i]),
        forall|j: int| 0 <= j < i ==> !keyf(#[trigger] s[j]),
    ensures
        find_first(s, keyf) == Some(s[i]),
    decreases i,
{
    if i > 0 {
        assert(s.skip(1)[i - 1] == s[i]);
        assert(forall|j: int| 0 <= j < i - 1 ==> s.skip(1)[j] == #[trigger] s[j + 1]);
        lemma_find_first_at(s.skip(1), keyf, i - 1);
    }
}

/// No match: nothing found.
pub proof fn lemma_find_first_none<T>(s: Seq<T>, keyf: spec_fn(T) -> bool)
    requires
        forall|j: int| 0 <= j < s.len() ==> !keyf(#[trigger] s[j]),
    ensures
        find_first(s, keyf) is None,
    decreases s.len(),
{
    if s.len() > 0 {
        assert(forall|j: int| 0 <= j < s.skip(1).len() ==> s.skip(1)[j] == #[trigger] s[j + 1]);
        lemma_find_first_none(s.skip(1), keyf);
    }
}

/// A match somewhere: a first matching index exists and is found.
pub proof fn lemma_find_first_index<T>(s: Seq<T>, keyf: spec_fn(T) -> bool)
    requires
        exists|i: int| 0 <= i < s.len() && keyf(#[trigger] s[i]),
    ensures
        exists|i: int|
            0 <= i < s.len() && keyf(#[trigger] s[i]) && find_first(s, keyf) == Some(s[i]) && (
            forall|j: int| 0 <= j < i ==> !keyf(#[trigger] s[j])),
    decreases s.len(),
{
    if keyf(s[0]) {
        assert(find_first(s, keyf) == Some(s[0]));
    } else {
        assert(forall|j: int| 0 <= j < s.skip(1).len() ==> s.skip(1)[j] == #[trigger] s[j + 1]);
        let w = choose|i: int| 0 <= i < s.len() && keyf(#[trigger] s[i]);
        assert(s.skip(1)[w - 1] == s[w]);
        lemma_find_first_index(s.skip(1), keyf);
        let i1 = choose|i: int|
            0 <= i < s.skip(1).len() && keyf(#[trigger] s.skip(1)[i]) && find_first(
                s.skip(1),
                keyf,
            ) == Some(s.skip(1)[i]) && (forall|j: int| 0 <= j < i ==> !keyf(#[trigger] s.skip(1)[j]));
        assert(s.skip(1)[i1] == s[i1 + 1]);
        assert forall|j: int| 0 <= j < i1 + 1 implies !keyf(#[trigger] s[j]) by {
            if j > 0 {
                assert(s.skip(1)[j - 1] == s[j]);
            }
        }
        assert(keyf(s[i1 + 1]));
    }
}

/// Tables agreeing match-wise, and value-wise on matches, are found
/// alike.
pub proof fn lemma_find_first_frame<T>(a: Seq<T>, b: Seq<T>, keyf: spec_fn(T) -> bool)
    requires
        a.len() == b.len(),
        forall|j: int| 0 <= j < a.len() ==> keyf(#[trigger] b[j]) == keyf(#[trigger] a[j]),
        forall|j: int| 0 <= j < a.len() && keyf(#[trigger] a[j]) ==> b[j] == a[j],
    ensures
        find_first(b, keyf) == find_first(a, keyf),
    decreases a.len(),
{
    if a.len() > 0 {
        if keyf(a[0]) {
        } else {
            assert(forall|j: int| 0 <= j < a.skip(1).len() ==> #[trigger] a.skip(1)[j] == a[j + 1]);
            assert(forall|j: int| 0 <= j < b.skip(1).len() ==> #[trigger] b.skip(1)[j] == b[j + 1]);
            lemma_find_first_frame(a.skip(1), b.skip(1), keyf);
        }
    }
}

/// Appending a non-matching row does not change what is found.
pub proof fn lemma_find_first_push_other<T>(s: Seq<T>, x: T, keyf: spec_fn(T) -> bool)
    requires
        !keyf(x),
    ensures
        find_first(s.push(x), keyf) == find_first(s, keyf),
    decreases s.len(),
{
    if s.len() == 0 {
        assert(s.push(x)[0] == x);
        assert(s.push(x).skip(1) =~= Seq::<T>::empty());
        assert(find_first(s.push(x), keyf) == find_first(Seq::<T>::empty(), keyf));
        assert(find_first(Seq::<T>::empty(), keyf) is None);
    } else {
        assert(s.push(x)[0] == s[0]);
        assert(s.push(x).skip(1) =~= s.skip(1).push(x));
        lemma_find_first_push_other(s.skip(1), x, keyf);
    }
}

} // verus!

