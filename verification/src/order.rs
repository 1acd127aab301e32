//! Lexicographic ordering of strings and the stable sorts the
//! dispatcher uses: pod summaries by (namespace, name), environment
//! entries by (name, value).
//!
//! The orders and the sorts are specified as total spec-level
//! functions; the executable sorts return exactly what the spec sort
//! says, so every caller's contract pins the order of its output.

use vstd::prelude::*;

use crate::protocol::{EnvEntry, EnvEntryV, PodSummary, PodSummaryV};

verus! {

// ---------------------------------------------------------------------
// Lexicographic order on character sequences, by code point.
// ---------------------------------------------------------------------
pub open spec fn seq_char_lt(a: Seq<char>, b: Seq<char>) -> bool
    decreases a.len(),
{
    if b.len() == 0 {
        false
    } else if a.len() == 0 {
        true
    } else if a[0] != b[0] {
        (a[0] as u32) < (b[0] as u32)
    } else {
        seq_char_lt(a.drop_first(), b.drop_first())
    }
}

pub open spec fn seq_char_le(a: Seq<char>, b: Seq<char>) -> bool {
    !seq_char_lt(b, a)
}

/// Two sequences that agree on their first `i` characters compare the
/// same as their tails after those characters.
proof fn lemma_seq_char_lt_common(a: Seq<char>, b: Seq<char>, i: int)
    requires
        0 <= i <= a.len(),
        i <= b.len(),
        forall|j: int| 0 <= j < i ==> a[j] == b[j],
    ensures
        seq_char_lt(a, b) == seq_char_lt(a.skip(i), b.skip(i)),
    decreases i,
{
    if i > 0 {
        assert(a[0] == b[0]);
        assert(a.drop_first().skip(i - 1) =~= a.skip(i));
        assert(b.drop_first().skip(i - 1) =~= b.skip(i));
        assert(forall|j: int| 0 <= j < i - 1 ==> a.drop_first()[j] == b.drop_first()[j]);
        lemma_seq_char_lt_common(a.drop_first(), b.drop_first(), i - 1);
    } else {
        assert(a.skip(0) =~= a);
        assert(b.skip(0) =~= b);
    }
}

/// Compares two strings in the lexicographic order of their
/// characters.
pub fn str_lt(a: &str, b: &str) -> (r: bool)
    ensures
        r == seq_char_lt(a@, b@),
{
    let la = a.unicode_len();
    let lb = b.unicode_len();
    let mut i: usize = 0;
    loop
        invariant_except_break
            i <= la,
            i <= lb,
            la == a@.len(),
            lb == b@.len(),
            forall|j: int| 0 <= j < i ==> a@[j] == b@[j],
        ensures
            i >= la || i >= lb,
            i <= la,
            i <= lb,
            la == a@.len(),
            lb == b@.len(),
            forall|j: int| 0 <= j < i ==> a@[j] == b@[j],
        decreases la - i,
    {
        if i >= la || i >= lb {
            break ;
        }
        let ca = a.get_char(i);
        let cb = b.get_char(i);
        if ca != cb {
            proof {
                lemma_seq_char_lt_common(a@, b@, i as int);
            }
            return (ca as u32) < (cb as u32);
        }
        i = i + 1;
    }
    proof {
        lemma_seq_char_lt_common(a@, b@, i as int);
    }
    la < lb
}

// ---------------------------------------------------------------------
// The dispatcher's orders.
// ---------------------------------------------------------------------
/// Pod summaries are ordered by namespace, then by name.
pub open spec fn pod_le(a: PodSummaryV, b: PodSummaryV) -> bool {
    if a.namespace != b.namespace {
        seq_char_lt(a.namespace, b.namespace)
    } else {
        seq_char_le(a.name, b.name)
    }
}

pub open spec fn opt_seq_char_le(a: Option<Seq<char>>, b: Option<Seq<char>>) -> bool {
    match (a, b) {
        (None, _) => true,
        (Some(_), None) => false,
        (Some(x), Some(y)) => seq_char_le(x, y),
    }
}

/// Environment entries are ordered by name, then by value, with an
/// absent value before any present one.
pub open spec fn env_le(a: EnvEntryV, b: EnvEntryV) -> bool {
    if a.name != b.name {
        seq_char_lt(a.name, b.name)
    } else {
        opt_seq_char_le(a.value, b.value)
    }
}

fn exec_str_le(a: &String, b: &String) -> (r: bool)
    ensures
        r == seq_char_le(a@, b@),
{
    !str_lt(b.as_str(), a.as_str())
}

fn exec_pod_le(a: &PodSummary, b: &PodSummary) -> (r: bool)
    ensures
        r == pod_le(a@, b@),
{
    if !a.namespace.eq(&b.namespace) {
        str_lt(a.namespace.as_str(), b.namespace.as_str())
    } else {
        exec_str_le(&a.name, &b.name)
    }
}

fn exec_env_le(a: &EnvEntry, b: &EnvEntry) -> (r: bool)
    ensures
        r == env_le(a@, b@),
{
    if !a.name.eq(&b.name) {
        str_lt(a.name.as_str(), b.name.as_str())
    } else {
        match (&a.value, &b.value) {
            (None, _) => true,
            (Some(_), None) => false,
            (Some(x), Some(y)) => exec_str_le(x, y),
        }
    }
}

// ---------------------------------------------------------------------
// Stable insertion sort, specified as a total function.  An element
// goes after every element already placed that is less than or equal
// to it, so elements with equal keys keep their first-come order.
// ---------------------------------------------------------------------
pub open spec fn spec_insert_pod(s: Seq<PodSummaryV>, x: PodSummaryV) -> Seq<PodSummaryV>
    decreases s.len(),
{
    if s.len() == 0 {
        seq![x]
    } else if pod_le(s[0], x) {
        seq![s[0]] + spec_insert_pod(s.drop_first(), x)
    } else {
        seq![x] + s
    }
}

/// The pods of a reply, in order: each pod inserted in turn into the
/// sorted sequence of the pods before it.
pub open spec fn spec_sort_pods(s: Seq<PodSummaryV>) -> Seq<PodSummaryV>
    decreases s.len(),
{
    if s.len() == 0 {
        Seq::empty()
    } else {
        spec_insert_pod(spec_sort_pods(s.drop_last()), s.last())
    }
}

pub open spec fn spec_insert_env(s: Seq<EnvEntryV>, x: EnvEntryV) -> Seq<EnvEntryV>
    decreases s.len(),
{
    if s.len() == 0 {
        seq![x]
    } else if env_le(s[0], x) {
        seq![s[0]] + spec_insert_env(s.drop_first(), x)
    } else {
        seq![x] + s
    }
}

pub open spec fn spec_sort_env(s: Seq<EnvEntryV>) -> Seq<EnvEntryV>
    decreases s.len(),
{
    if s.len() == 0 {
        Seq::empty()
    } else {
        spec_insert_env(spec_sort_env(s.drop_last()), s.last())
    }
}

/// Inserting at the first position whose element is not `<= x` is the
/// same as the recursive insertion.
proof fn lemma_insert_pod_at(s: Seq<PodSummaryV>, x: PodSummaryV, j: int)
    requires
        0 <= j <= s.len(),
        forall|t: int| 0 <= t < j ==> pod_le(#[trigger] s[t], x),
        j < s.len() ==> !pod_le(s[j], x),
    ensures
        spec_insert_pod(s, x) == s.take(j) + seq![x] + s.skip(j),
    decreases j,
{
    if s.len() == 0 {
        assert(s.take(0) + seq![x] + s.skip(0) =~= seq![x]);
    } else if j == 0 {
        assert(s.take(0) + seq![x] + s.skip(0) =~= seq![x] + s);
    } else {
        assert(pod_le(s[0], x));
        lemma_insert_pod_at(s.drop_first(), x, j - 1);
        assert(s.drop_first().take(j - 1) =~= s.take(j).drop_first());
        assert(s.drop_first().skip(j - 1) =~= s.skip(j));
        assert(seq![s[0]] + (s.take(j).drop_first() + seq![x] + s.skip(j)) =~= s.take(j) + seq![x]
            + s.skip(j));
    }
}

proof fn lemma_insert_env_at(s: Seq<EnvEntryV>, x: EnvEntryV, j: int)
    requires
        0 <= j <= s.len(),
        forall|t: int| 0 <= t < j ==> env_le(#[trigger] s[t], x),
        j < s.len() ==> !env_le(s[j], x),
    ensures
        spec_insert_env(s, x) == s.take(j) + seq![x] + s.skip(j),
    decreases j,
{
    if s.len() == 0 {
        assert(s.take(0) + seq![x] + s.skip(0) =~= seq![x]);
    } else if j == 0 {
        assert(s.take(0) + seq![x] + s.skip(0) =~= seq![x] + s);
    } else {
        assert(env_le(s[0], x));
        lemma_insert_env_at(s.drop_first(), x, j - 1);
        assert(s.drop_first().take(j - 1) =~= s.take(j).drop_first());
        assert(s.drop_first().skip(j - 1) =~= s.skip(j));
        assert(seq![s[0]] + (s.take(j).drop_first() + seq![x] + s.skip(j)) =~= s.take(j) + seq![x]
            + s.skip(j));
    }
}

fn insert_pod(acc: &mut Vec<PodSummary>, x: PodSummary)
    ensures
        final(acc)@.map_values(|p: PodSummary| p@) == spec_insert_pod(
            old(acc)@.map_values(|p: PodSummary| p@),
            x@,
        ),
{
    let ghost views = acc@.map_values(|p: PodSummary| p@);
    let mut j: usize = 0;
    while j < acc.len() && exec_pod_le(&acc[j], &x)
        invariant
            j <= acc@.len(),
            views == acc@.map_values(|p: PodSummary| p@),
            forall|t: int| 0 <= t < j ==> pod_le(#[trigger] views[t], x@),
        decreases acc@.len() - j,
    {
        j = j + 1;
    }
    proof {
        lemma_insert_pod_at(views, x@, j as int);
    }
    acc.insert(j, x);
    proof {
        assert(acc@.map_values(|p: PodSummary| p@) =~= views.take(j as int) + seq![x@] + views.skip(
            j as int,
        ));
    }
}

fn insert_env(acc: &mut Vec<EnvEntry>, x: EnvEntry)
    ensures
        final(acc)@.map_values(|e: EnvEntry| e@) == spec_insert_env(
            old(acc)@.map_values(|e: EnvEntry| e@),
            x@,
        ),
{
    let ghost views = acc@.map_values(|e: EnvEntry| e@);
    let mut j: usize = 0;
    while j < acc.len() && exec_env_le(&acc[j], &x)
        invariant
            j <= acc@.len(),
            views == acc@.map_values(|e: EnvEntry| e@),
            forall|t: int| 0 <= t < j ==> env_le(#[trigger] views[t], x@),
        decreases acc@.len() - j,
    {
        j = j + 1;
    }
    proof {
        lemma_insert_env_at(views, x@, j as int);
    }
    acc.insert(j, x);
    proof {
        assert(acc@.map_values(|e: EnvEntry| e@) =~= views.take(j as int) + seq![x@] + views.skip(
            j as int,
        ));
    }
}

/// Sorts pod summaries by (namespace, name), keeping the first-come
/// order of summaries with equal keys.
pub fn sort_pods(v: Vec<PodSummary>) -> (r: Vec<PodSummary>)
    ensures
        r@.map_values(|p: PodSummary| p@) == spec_sort_pods(v@.map_values(|p: PodSummary| p@)),
{
    let ghost views = v@.map_values(|p: PodSummary| p@);
    let mut acc: Vec<PodSummary> = Vec::new();
    let mut v = v;
    let mut k: usize = 0;
    assert(acc@.map_values(|p: PodSummary| p@) =~= spec_sort_pods(views.take(0)));
    let n = v.len();
    while k < n
        invariant
            k <= n,
            n == v@.len(),
            views == v@.map_values(|p: PodSummary| p@),
            acc@.map_values(|p: PodSummary| p@) == spec_sort_pods(views.take(k as int)),
        decreases n - k,
    {
        let x = v[k].clone();
        assert(x@ == views[k as int]);
        insert_pod(&mut acc, x);
        k = k + 1;
        proof {
            assert(views.take(k as int).drop_last() =~= views.take(k as int - 1));
            assert(views.take(k as int).last() == views[k as int - 1]);
        }
    }
    proof {
        assert(views.take(n as int) =~= views);
    }
    acc
}

/// Sorts environment entries by (name, value), keeping the first-come
/// order of equal entries.
pub fn sort_env(v: Vec<EnvEntry>) -> (r: Vec<EnvEntry>)
    ensures
        r@.map_values(|e: EnvEntry| e@) == spec_sort_env(v@.map_values(|e: EnvEntry| e@)),
{
    let ghost views = v@.map_values(|e: EnvEntry| e@);
    let mut acc: Vec<EnvEntry> = Vec::new();
    let mut v = v;
    let mut k: usize = 0;
    assert(acc@.map_values(|e: EnvEntry| e@) =~= spec_sort_env(views.take(0)));
    let n = v.len();
    while k < n
        invariant
            k <= n,
            n == v@.len(),
            views == v@.map_values(|e: EnvEntry| e@),
            acc@.map_values(|e: EnvEntry| e@) == spec_sort_env(views.take(k as int)),
        decreases n - k,
    {
        let x = v[k].clone();
        assert(x@ == views[k as int]);
        insert_env(&mut acc, x);
        k = k + 1;
        proof {
            assert(views.take(k as int).drop_last() =~= views.take(k as int - 1));
            assert(views.take(k as int).last() == views[k as int - 1]);
        }
    }
    proof {
        assert(views.take(n as int) =~= views);
    }
    acc
}


// ---------------------------------------------------------------------
// Laws of the orders: the sorts really sort.
// ---------------------------------------------------------------------
/// Two sequences cannot each precede the other.
proof fn lemma_seq_char_lt_asym(a: Seq<char>, b: Seq<char>)
    requires
        seq_char_lt(a, b),
    ensures
        !seq_char_lt(b, a),
    decreases a.len(),
{
    if b.len() == 0 {
    } else if a.len() == 0 {
    } else if a[0] != b[0] {
    } else {
        lemma_seq_char_lt_asym(a.drop_first(), b.drop_first());
    }
}

/// Two distinct sequences are ordered one way or the other.
proof fn lemma_seq_char_lt_connected(a: Seq<char>, b: Seq<char>)
    requires
        a != b,
    ensures
        seq_char_lt(a, b) || seq_char_lt(b, a),
    decreases a.len(),
{
    if b.len() == 0 {
        if a.len() == 0 {
            assert(a =~= b);
        }
    } else if a.len() == 0 {
    } else if a[0] != b[0] {
        if (a[0] as u32) == (b[0] as u32) {
            vstd::utf8::char_u32_cast(a[0], a[0] as u32);
            vstd::utf8::char_u32_cast(b[0], b[0] as u32);
            assert(a[0] == b[0]);
        }
    } else {
        if a.drop_first() == b.drop_first() {
            assert(seq![a[0]] + a.drop_first() =~= a);
            assert(seq![b[0]] + b.drop_first() =~= b);
        }
        lemma_seq_char_lt_connected(a.drop_first(), b.drop_first());
    }
}

/// One of two pod summaries always precedes the other.
pub proof fn lemma_pod_le_total(a: PodSummaryV, b: PodSummaryV)
    ensures
        pod_le(a, b) || pod_le(b, a),
{
    if a.namespace == b.namespace {
        if seq_char_lt(b.name, a.name) {
            lemma_seq_char_lt_asym(b.name, a.name);
        }
    } else {
        lemma_seq_char_lt_connected(a.namespace, b.namespace);
    }
}

/// One of two environment entries always precedes the other.
pub proof fn lemma_env_le_total(a: EnvEntryV, b: EnvEntryV)
    ensures
        env_le(a, b) || env_le(b, a),
{
    if a.name == b.name {
        match (a.value, b.value) {
            (Some(x), Some(y)) => {
                if seq_char_lt(y, x) {
                    lemma_seq_char_lt_asym(y, x);
                }
            },
            _ => {},
        }
    } else {
        lemma_seq_char_lt_connected(a.name, b.name);
    }
}

/// Each consecutive pair of the sequence is in order.
pub open spec fn pods_sorted(s: Seq<PodSummaryV>) -> bool {
    forall|i: int| 0 <= i < s.len() - 1 ==> pod_le(#[trigger] s[i], s[i + 1])
}

pub open spec fn env_sorted(s: Seq<EnvEntryV>) -> bool {
    forall|i: int| 0 <= i < s.len() - 1 ==> env_le(#[trigger] s[i], s[i + 1])
}

proof fn lemma_insert_pod_keeps_sorted(s: Seq<PodSummaryV>, x: PodSummaryV)
    requires
        pods_sorted(s),
    ensures
        pods_sorted(spec_insert_pod(s, x)),
    decreases s.len(),
{
    if s.len() == 0 {
    } else if pod_le(s[0], x) {
        assert(forall|i: int|
            0 <= i < s.drop_first().len() - 1 ==> pod_le(
                #[trigger] s.drop_first()[i],
                s.drop_first()[i + 1],
            ));
        lemma_insert_pod_keeps_sorted(s.drop_first(), x);
        let r = spec_insert_pod(s, x);
        let rest = spec_insert_pod(s.drop_first(), x);
        assert(r == seq![s[0]] + rest);
        // the head stays ordered against whatever now follows it
        if s.drop_first().len() == 0 {
            assert(rest == seq![x]);
            assert(r[1] == x);
        } else if pod_le(s.drop_first()[0], x) {
            assert(rest[0] == s.drop_first()[0]);
            assert(pod_le(s[0], s[1]));
        } else {
            assert(rest[0] == x);
        }
        assert forall|i: int| 0 <= i < r.len() - 1 implies pod_le(#[trigger] r[i], r[i + 1]) by {
            if i == 0 {
            } else {
                assert(r[i] == rest[i - 1]);
                assert(r[i + 1] == rest[i]);
            }
        }
    } else {
        lemma_pod_le_total(s[0], x);
        let r = spec_insert_pod(s, x);
        assert(r == seq![x] + s);
        assert forall|i: int| 0 <= i < r.len() - 1 implies pod_le(#[trigger] r[i], r[i + 1]) by {
            if i == 0 {
                assert(r[0] == x);
                assert(r[1] == s[0]);
            } else {
                assert(r[i] == s[i - 1]);
                assert(r[i + 1] == s[i]);
            }
        }
    }
}

proof fn lemma_insert_env_keeps_sorted(s: Seq<EnvEntryV>, x: EnvEntryV)
    requires
        env_sorted(s),
    ensures
        env_sorted(spec_insert_env(s, x)),
    decreases s.len(),
{
    if s.len() == 0 {
    } else if env_le(s[0], x) {
        assert(forall|i: int|
            0 <= i < s.drop_first().len() - 1 ==> env_le(
                #[trigger] s.drop_first()[i],
                s.drop_first()[i + 1],
            ));
        lemma_insert_env_keeps_sorted(s.drop_first(), x);
        let r = spec_insert_env(s, x);
        let rest = spec_insert_env(s.drop_first(), x);
        assert(r == seq![s[0]] + rest);
        if s.drop_first().len() == 0 {
            assert(rest == seq![x]);
            assert(r[1] == x);
        } else if env_le(s.drop_first()[0], x) {
            assert(rest[0] == s.drop_first()[0]);
            assert(env_le(s[0], s[1]));
        } else {
            assert(rest[0] == x);
        }
        assert forall|i: int| 0 <= i < r.len() - 1 implies env_le(#[trigger] r[i], r[i + 1]) by {
            if i == 0 {
            } else {
                assert(r[i] == rest[i - 1]);
                assert(r[i + 1] == rest[i]);
            }
        }
    } else {
        lemma_env_le_total(s[0], x);
        let r = spec_insert_env(s, x);
        assert(r == seq![x] + s);
        assert forall|i: int| 0 <= i < r.len() - 1 implies env_le(#[trigger] r[i], r[i + 1]) by {
            if i == 0 {
                assert(r[0] == x);
                assert(r[1] == s[0]);
            } else {
                assert(r[i] == s[i - 1]);
                assert(r[i + 1] == s[i]);
            }
        }
    }
}

/// The pod sort really sorts: each consecutive pair of its output is
/// ordered by (namespace, name).
pub proof fn lemma_sort_pods_sorted(s: Seq<PodSummaryV>)
    ensures
        pods_sorted(spec_sort_pods(s)),
    decreases s.len(),
{
    if s.len() > 0 {
        lemma_sort_pods_sorted(s.drop_last());
        lemma_insert_pod_keeps_sorted(spec_sort_pods(s.drop_last()), s.last());
    }
}

/// The environment sort really sorts: each consecutive pair of its
/// output is ordered by (name, value).
pub proof fn lemma_sort_env_sorted(s: Seq<EnvEntryV>)
    ensures
        env_sorted(spec_sort_env(s)),
    decreases s.len(),
{
    if s.len() > 0 {
        lemma_sort_env_sorted(s.drop_last());
        lemma_insert_env_keeps_sorted(spec_sort_env(s.drop_last()), s.last());
    }
}

} // verus!
