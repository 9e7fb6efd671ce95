use vstd::prelude::*;

verus! {

/// A JSON value as the object codec handles it. Objects are ordered lists
/// of entries; when a key occurs twice, the later entry is the one that counts.
#[derive(Debug)]
pub enum Json {
    Null,
    Bool(bool),
    Int(i64),
    Str(String),
    Array(Vec<Json>),
    Object(Vec<(String, Json)>),
}

/// The mathematical value of a `Json`.
pub enum JsonV {
    Null,
    Bool(bool),
    Int(int),
    Str(Seq<char>),
    Array(Seq<JsonV>),
    Object(Seq<(Seq<char>, JsonV)>),
}

pub open spec fn items_view(s: Seq<Json>) -> Seq<JsonV>
    decreases s,
{
    if s.len() == 0 {
        Seq::empty()
    } else {
        items_view(s.drop_last()).push(json_view(s.last()))
    }
}

pub open spec fn entries_view(s: Seq<(String, Json)>) -> Seq<(Seq<char>, JsonV)>
    decreases s,
{
    if s.len() == 0 {
        Seq::empty()
    } else {
        entries_view(s.drop_last()).push((s.last().0@, json_view(s.last().1)))
    }
}

pub open spec fn json_view(j: Json) -> JsonV
    decreases j,
{
    match j {
        Json::Null => JsonV::Null,
        Json::Bool(b) => JsonV::Bool(b),
        Json::Int(n) => JsonV::Int(n as int),
        Json::Str(s) => JsonV::Str(s@),
        Json::Array(a) => JsonV::Array(items_view(a@)),
        Json::Object(e) => JsonV::Object(entries_view(e@)),
    }
}

impl View for Json {
    type V = JsonV;

    open spec fn view(&self) -> JsonV {
        json_view(*self)
    }
}


/// The entries of an object, as seen by its readers.
pub type Entries = Seq<(Seq<char>, JsonV)>;

/// The value stored under `k`: the last entry with that key.
pub open spec fn lookup(s: Entries, k: Seq<char>) -> Option<JsonV>
    decreases s.len(),
{
    if s.len() == 0 {
        None
    } else if s.last().0 == k {
        Some(s.last().1)
    } else {
        lookup(s.drop_last(), k)
    }
}

/// The entries whose key is not `k`, in their order.
pub open spec fn without(s: Entries, k: Seq<char>) -> Entries
    decreases s.len(),
{
    if s.len() == 0 {
        s
    } else if s.last().0 == k {
        without(s.drop_last(), k)
    } else {
        without(s.drop_last(), k).push(s.last())
    }
}

/// Sets `k` to `v`: any earlier entry for `k` goes, the new one comes last.
pub open spec fn put(s: Entries, k: Seq<char>, v: JsonV) -> Entries {
    without(s, k).push((k, v))
}

/// Puts every entry of `t`, in order, into `s`: a later entry overwrites an earlier one.
pub open spec fn put_all(s: Entries, t: Entries) -> Entries
    decreases t.len(),
{
    if t.len() == 0 {
        s
    } else {
        let r = put_all(s, t.drop_last());
        put(r, t.last().0, t.last().1)
    }
}

pub proof fn lemma_push_last(s: Entries, x: (Seq<char>, JsonV))
    ensures
        s.push(x).drop_last() == s,
        s.push(x).last() == x,
        s.push(x).len() > 0,
{
    assert(s.push(x).drop_last() =~= s);
}

pub proof fn lemma_lookup_without(s: Entries, k: Seq<char>, k2: Seq<char>)
    ensures
        lookup(without(s, k), k2) == if k2 == k {
            None
        } else {
            lookup(s, k2)
        },
    decreases s.len(),
{
    if s.len() > 0 {
        lemma_lookup_without(s.drop_last(), k, k2);
        if s.last().0 != k {
            lemma_push_last(without(s.drop_last(), k), s.last());
        }
    }
}

pub proof fn lemma_lookup_put(s: Entries, k: Seq<char>, v: JsonV, k2: Seq<char>)
    ensures
        lookup(put(s, k, v), k2) == if k2 == k {
            Some(v)
        } else {
            lookup(s, k2)
        },
{
    lemma_push_last(without(s, k), (k, v));
    lemma_lookup_without(s, k, k2);
}

pub proof fn lemma_lookup_put_all(s: Entries, t: Entries, k: Seq<char>)
    ensures
        lookup(put_all(s, t), k) == match lookup(t, k) {
            Some(v) => Some(v),
            None => lookup(s, k),
        },
    decreases t.len(),
{
    if t.len() > 0 {
        lemma_lookup_put_all(s, t.drop_last(), k);
        lemma_lookup_put(put_all(s, t.drop_last()), t.last().0, t.last().1, k);
    }
}

/// Every entry left by `without` was in `s` and has another key.
pub proof fn lemma_without_entries(s: Entries, k: Seq<char>)
    ensures
        forall|e: (Seq<char>, JsonV)| #[trigger] without(s, k).contains(e) ==> s.contains(e) && e.0 != k,
    decreases s.len(),
{
    if s.len() > 0 {
        let p = s.drop_last();
        lemma_without_entries(p, k);
        assert forall|e: (Seq<char>, JsonV)| #[trigger] without(s, k).contains(e) implies s.contains(e) && e.0 != k by {
            if s.last().0 == k {
                assert(without(s, k) == without(p, k));
                let j = choose|j: int| 0 <= j < without(p, k).len() && without(p, k)[j] == e;
                assert(p.contains(e));
                let j2 = choose|j2: int| 0 <= j2 < p.len() && p[j2] == e;
                assert(s[j2] == e);
            } else {
                let w = without(p, k);
                assert(without(s, k) == w.push(s.last()));
                let j = choose|j: int| 0 <= j < w.push(s.last()).len() && w.push(s.last())[j] == e;
                if j < w.len() {
                    assert(w[j] == e);
                    assert(w.contains(e));
                    let j2 = choose|j2: int| 0 <= j2 < p.len() && p[j2] == e;
                    assert(s[j2] == e);
                } else {
                    assert(s[s.len() - 1] == e);
                }
            }
        }
    }
}

pub proof fn lemma_entries_view_push(s: Seq<(String, Json)>, x: (String, Json))
    ensures
        entries_view(s.push(x)) == entries_view(s).push((x.0@, json_view(x.1))),
{
    assert(s.push(x).drop_last() =~= s);
}

pub proof fn lemma_entries_view_take(s: Seq<(String, Json)>, i: int)
    requires
        0 <= i < s.len(),
    ensures
        entries_view(s.take(i + 1)) == entries_view(s.take(i)).push((s[i].0@, json_view(s[i].1))),
        entries_view(s.take(i)).len() == i,
{
    lemma_entries_view_len(s.take(i));
    assert(s.take(i + 1) =~= s.take(i).push(s[i]));
    lemma_entries_view_push(s.take(i), s[i]);
}

pub proof fn lemma_entries_view_index(s: Seq<(String, Json)>, i: int)
    requires
        0 <= i < s.len(),
    ensures
        entries_view(s)[i] == (s[i].0@, json_view(s[i].1)),
        entries_view(s).len() == s.len(),
    decreases s.len(),
{
    lemma_entries_view_len(s);
    lemma_entries_view_len(s.drop_last());
    if i < s.len() - 1 {
        lemma_entries_view_index(s.drop_last(), i);
    }
}

pub proof fn lemma_entries_view_len(s: Seq<(String, Json)>)
    ensures
        entries_view(s).len() == s.len(),
    decreases s.len(),
{
    if s.len() > 0 {
        lemma_entries_view_len(s.drop_last());
    }
}

/// Whether the object's entries hold the key `k`.
pub fn contains_key(e: &Vec<(String, Json)>, k: &String) -> (r: bool)
    ensures
        r == lookup(entries_view(e@), k@).is_some(),
{
    let mut found = false;
    let mut i: usize = 0;
    while i < e.len()
        invariant
            i <= e.len(),
            found == lookup(entries_view(e@.take(i as int)), k@).is_some(),
        decreases e.len() - i,
    {
        proof {
            lemma_entries_view_take(e@, i as int);
            lemma_push_last(entries_view(e@.take(i as int)), (e@[i as int].0@, json_view(e@[i as int].1)));
        }
        if e[i].0 == *k {
            found = true;
        }
        i += 1;
    }
    proof {
        assert(e@.take(e@.len() as int) =~= e@);
    }
    found
}

/// The entries whose key is not `k`, and the value that `k` held.
pub fn remove_key(e: &Vec<(String, Json)>, k: &String) -> (r: (Vec<(String, Json)>, Option<Json>))
    ensures
        entries_view(r.0@) == without(entries_view(e@), k@),
        r.1 is None <==> lookup(entries_view(e@), k@) is None,
        r.1 is Some ==> lookup(entries_view(e@), k@) == Some(r.1->0@),
{
    let mut out: Vec<(String, Json)> = Vec::new();
    let mut found: Option<Json> = None;
    let mut i: usize = 0;
    while i < e.len()
        invariant
            i <= e.len(),
            entries_view(out@) == without(entries_view(e@.take(i as int)), k@),
            found is None <==> lookup(entries_view(e@.take(i as int)), k@) is None,
            found is Some ==> lookup(entries_view(e@.take(i as int)), k@) == Some(found->0@),
        decreases e.len() - i,
    {
        proof {
            lemma_entries_view_take(e@, i as int);
            lemma_push_last(entries_view(e@.take(i as int)), (e@[i as int].0@, json_view(e@[i as int].1)));
        }
        if e[i].0 == *k {
            found = Some(e[i].1.copy());
        } else {
            let kc = e[i].0.clone();
            let vc = e[i].1.copy();
            proof {
                lemma_entries_view_push(out@, (kc, vc));
            }
            out.push((kc, vc));
        }
        i += 1;
    }
    proof {
        assert(e@.take(e@.len() as int) =~= e@);
    }
    (out, found)
}

/// Sets `k` to `v` in the object's entries.
pub fn put_entry(e: &mut Vec<(String, Json)>, k: String, v: Json)
    ensures
        entries_view(final(e)@) == put(entries_view(old(e)@), k@, v@),
{
    let (mut rest, _) = remove_key(e, &k);
    proof {
        lemma_entries_view_push(rest@, (k, v));
    }
    rest.push((k, v));
    *e = rest;
}

/// Puts every entry of `t` into `e`, in order.
pub fn put_entries(e: &mut Vec<(String, Json)>, t: &Vec<(String, Json)>)
    ensures
        entries_view(final(e)@) == put_all(entries_view(old(e)@), entries_view(t@)),
{
    let ghost start = entries_view(e@);
    let mut i: usize = 0;
    while i < t.len()
        invariant
            i <= t.len(),
            entries_view(e@) == put_all(start, entries_view(t@.take(i as int))),
        decreases t.len() - i,
    {
        proof {
            lemma_entries_view_take(t@, i as int);
            lemma_push_last(entries_view(t@.take(i as int)), (t@[i as int].0@, json_view(t@[i as int].1)));
        }
        put_entry(e, t[i].0.clone(), t[i].1.copy());
        i += 1;
    }
    proof {
        assert(t@.take(t@.len() as int) =~= t@);
    }
}

impl Json {
    /// A copy of the value.
    pub fn copy(&self) -> (r: Json)
        ensures
            r@ == self@,
        decreases self,
    {
        match self {
            Json::Null => Json::Null,
            Json::Bool(b) => Json::Bool(*b),
            Json::Int(n) => Json::Int(*n),
            Json::Str(s) => Json::Str(s.clone()),
            Json::Array(a) => Json::Array(copy_items(a)),
            Json::Object(e) => Json::Object(copy_entries(e)),
        }
    }
}

/// A copy of an array's items.
pub fn copy_items(a: &Vec<Json>) -> (r: Vec<Json>)
    ensures
        items_view(r@) == items_view(a@),
    decreases a,
{
    let mut out: Vec<Json> = Vec::new();
    let mut i: usize = 0;
    while i < a.len()
        invariant
            i <= a.len(),
            items_view(out@) == items_view(a@.take(i as int)),
        decreases a.len() - i,
    {
        let v = a[i].copy();
        proof {
            assert(a@.take(i + 1).drop_last() =~= a@.take(i as int));
            assert(out@.push(v).drop_last() =~= out@);
        }
        out.push(v);
        i += 1;
    }
    proof {
        assert(a@.take(a@.len() as int) =~= a@);
    }
    out
}

/// A copy of an object's entries.
pub fn copy_entries(e: &Vec<(String, Json)>) -> (r: Vec<(String, Json)>)
    ensures
        entries_view(r@) == entries_view(e@),
    decreases e,
{
    let mut out: Vec<(String, Json)> = Vec::new();
    let mut i: usize = 0;
    while i < e.len()
        invariant
            i <= e.len(),
            entries_view(out@) == entries_view(e@.take(i as int)),
        decreases e.len() - i,
    {
        let k = e[i].0.clone();
        let v = e[i].1.copy();
        proof {
            lemma_entries_view_take(e@, i as int);
            lemma_entries_view_push(out@, (k, v));
        }
        out.push((k, v));
        i += 1;
    }
    proof {
        assert(e@.take(e@.len() as int) =~= e@);
    }
    out
}

} // verus!
