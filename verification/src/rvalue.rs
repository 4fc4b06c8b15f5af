//! Ruby values as the adapter reads and builds them.
//!
//! `RValue` holds what the conversions look at: nil, booleans, integers,
//! strings, symbols, arrays, hashes (as ordered key/value pairs, the order in
//! which Ruby walks them), and any other object by its class name. The Ruby
//! bindings translate between live Ruby objects and this type.

use crate::text::{push_str, str_eq};
use vstd::prelude::*;

verus! {

broadcast use vstd::string::group_string_axioms;

/// A Ruby value.
#[derive(Debug, PartialEq)]
pub enum RValue {
    Nil,
    Bool(bool),
    Integer(i128),
    Str(String),
    Symbol(String),
    Array(Vec<RValue>),
    Hash(Vec<(RValue, RValue)>),
    /// Any other object, by its class name.
    Other(String),
}

/// A Ruby value with its texts as sequences.
pub enum RView {
    Nil,
    Bool(bool),
    Integer(int),
    Str(Seq<char>),
    Symbol(Seq<char>),
    Array(Seq<RView>),
    Hash(Seq<(RView, RView)>),
    Other(Seq<char>),
}

/// The view of a Ruby value.
pub open spec fn rv(v: RValue) -> RView
    decreases v,
{
    match v {
        RValue::Nil => RView::Nil,
        RValue::Bool(b) => RView::Bool(b),
        RValue::Integer(i) => RView::Integer(i as int),
        RValue::Str(s) => RView::Str(s@),
        RValue::Symbol(s) => RView::Symbol(s@),
        RValue::Array(items) => RView::Array(rvs(items@)),
        RValue::Hash(pairs) => RView::Hash(rpairs(pairs@)),
        RValue::Other(c) => RView::Other(c@),
    }
}

/// The views of a sequence of Ruby values.
pub open spec fn rvs(s: Seq<RValue>) -> Seq<RView>
    decreases s,
{
    if s.len() == 0 {
        Seq::empty()
    } else {
        rvs(s.drop_last()).push(rv(s.last()))
    }
}

/// The views of a sequence of hash entries.
pub open spec fn rpairs(s: Seq<(RValue, RValue)>) -> Seq<(RView, RView)>
    decreases s,
{
    if s.len() == 0 {
        Seq::empty()
    } else {
        rpairs(s.drop_last()).push((rv(s.last().0), rv(s.last().1)))
    }
}

impl View for RValue {
    type V = RView;

    open spec fn view(&self) -> RView {
        rv(*self)
    }
}

pub proof fn lemma_rvs_len(s: Seq<RValue>)
    ensures
        rvs(s).len() == s.len(),
        forall|i: int| 0 <= i < s.len() ==> #[trigger] rvs(s)[i] == rv(s[i]),
    decreases s.len(),
{
    if s.len() > 0 {
        lemma_rvs_len(s.drop_last());
    }
}

pub proof fn lemma_rpairs_len(s: Seq<(RValue, RValue)>)
    ensures
        rpairs(s).len() == s.len(),
        forall|i: int| 0 <= i < s.len() ==> #[trigger] rpairs(s)[i] == (rv(s[i].0), rv(s[i].1)),
    decreases s.len(),
{
    if s.len() > 0 {
        lemma_rpairs_len(s.drop_last());
    }
}

pub proof fn lemma_rvs_push(s: Seq<RValue>, v: RValue)
    ensures
        rvs(s.push(v)) == rvs(s).push(rv(v)),
{
    assert(s.push(v).drop_last() =~= s);
}

pub proof fn lemma_rpairs_push(s: Seq<(RValue, RValue)>, k: RValue, v: RValue)
    ensures
        rpairs(s.push((k, v))) == rpairs(s).push((rv(k), rv(v))),
{
    assert(s.push((k, v)).drop_last() =~= s);
}

/// The symbol `:name`.
pub open spec fn sym(name: Seq<char>) -> RView {
    RView::Symbol(name)
}

/// The position of the first entry whose key is `key`, or `-1`.
pub open spec fn entry_index(pairs: Seq<(RView, RView)>, key: RView) -> int
    decreases pairs.len(),
{
    if pairs.len() == 0 {
        -1
    } else if pairs.last().0 == key && entry_index(pairs.drop_last(), key) == -1 {
        pairs.len() - 1
    } else {
        entry_index(pairs.drop_last(), key)
    }
}

/// What `Hash#[]`-style lookup of `key` finds among `pairs`.
pub open spec fn hash_get(pairs: Seq<(RView, RView)>, key: RView) -> Option<RView> {
    let i = entry_index(pairs, key);
    if i == -1 {
        None
    } else {
        Some(pairs[i].1)
    }
}

pub proof fn lemma_entry_index(pairs: Seq<(RView, RView)>, key: RView)
    ensures
        -1 <= entry_index(pairs, key) < pairs.len(),
        entry_index(pairs, key) == -1 <==> (forall|j: int| 0 <= j < pairs.len() ==> pairs[j].0 != key),
        entry_index(pairs, key) != -1 ==> pairs[entry_index(pairs, key)].0 == key
            && (forall|j: int| 0 <= j < entry_index(pairs, key) ==> pairs[j].0 != key),
    decreases pairs.len(),
{
    if pairs.len() > 0 {
        let d = pairs.drop_last();
        lemma_entry_index(d, key);
        if entry_index(d, key) == -1 {
            assert forall|j: int| 0 <= j < d.len() implies pairs[j].0 != key by {
                assert(d[j] == pairs[j]);
            }
        } else {
            assert(pairs[entry_index(d, key)] == d[entry_index(d, key)]);
            assert forall|j: int| 0 <= j < entry_index(d, key) implies pairs[j].0 != key by {
                assert(d[j] == pairs[j]);
            }
        }
    }
}

/// The result of `hash[key] = value`: the entry with that key takes the new
/// value and keeps its place, or a new entry comes last.
pub open spec fn hash_aset(pairs: Seq<(RView, RView)>, key: RView, value: RView) -> Seq<(RView, RView)> {
    let i = entry_index(pairs, key);
    if i == -1 {
        pairs.push((key, value))
    } else {
        pairs.update(i, (key, value))
    }
}

/// Whether two values are the same symbol.
pub fn is_symbol(v: &RValue, name: &str) -> (r: bool)
    ensures
        r == (v@ == sym(name@)),
{
    match v {
        RValue::Symbol(s) => str_eq(s.as_str(), name),
        _ => false,
    }
}

/// Find the entry of `pairs` whose key is the symbol `:name`.
pub fn find_symbol_key(pairs: &Vec<(RValue, RValue)>, name: &str) -> (r: Option<usize>)
    ensures
        match r {
            Some(i) => i as int == entry_index(rpairs(pairs@), sym(name@)),
            None => entry_index(rpairs(pairs@), sym(name@)) == -1,
        },
{
    let ghost ps = rpairs(pairs@);
    proof {
        lemma_rpairs_len(pairs@);
        lemma_entry_index(ps, sym(name@));
    }
    let mut i: usize = 0;
    while i < pairs.len()
        invariant
            ps == rpairs(pairs@),
            ps.len() == pairs@.len(),
            i <= pairs@.len(),
            forall|j: int| 0 <= j < i ==> ps[j].0 != sym(name@),
            forall|j: int| 0 <= j < pairs@.len() ==> #[trigger] ps[j] == (rv(pairs@[j].0), rv(pairs@[j].1)),
        decreases pairs.len() - i,
    {
        if is_symbol(&pairs[i].0, name) {
            proof {
                lemma_entry_index(ps, sym(name@));
                assert(ps[i as int].0 == sym(name@));
                let e = entry_index(ps, sym(name@));
                if e == -1 {
                    assert(ps[i as int].0 != sym(name@));
                } else if e < i {
                    assert(ps[e].0 != sym(name@));
                } else if e > i {
                    assert(ps[i as int].0 != sym(name@));
                }
            }
            return Some(i);
        }
        i = i + 1;
    }
    None
}

/// A copy of a Ruby value.
pub fn clone_value(v: &RValue) -> (r: RValue)
    ensures
        r@ == v@,
    decreases v, 1nat,
{
    match v {
        RValue::Nil => RValue::Nil,
        RValue::Bool(b) => RValue::Bool(*b),
        RValue::Integer(i) => RValue::Integer(*i),
        RValue::Str(s) => RValue::Str(s.clone()),
        RValue::Symbol(s) => RValue::Symbol(s.clone()),
        RValue::Other(c) => RValue::Other(c.clone()),
        RValue::Array(items) => RValue::Array(clone_values(items)),
        RValue::Hash(pairs) => RValue::Hash(clone_pairs(pairs)),
    }
}

/// A copy of a sequence of Ruby values.
pub fn clone_values(items: &Vec<RValue>) -> (r: Vec<RValue>)
    ensures
        rvs(r@) == rvs(items@),
    decreases items, 0nat,
{
    let mut out: Vec<RValue> = Vec::new();
    let n = items.len();
    let mut i: usize = 0;
    proof {
        assert(out@ =~= items@.take(0));
    }
    while i < n
        invariant
            n == items@.len(),
            i <= n,
            rvs(out@) == rvs(items@.take(i as int)),
        decreases n - i,
    {
        let c = clone_value(&items[i]);
        proof {
            lemma_rvs_push(out@, c);
            assert(items@.take(i + 1).drop_last() =~= items@.take(i as int));
            assert(items@.take(i + 1).last() == items@[i as int]);
        }
        out.push(c);
        i = i + 1;
    }
    proof {
        assert(items@.take(n as int) =~= items@);
    }
    out
}

/// A copy of a sequence of hash entries.
pub fn clone_pairs(pairs: &Vec<(RValue, RValue)>) -> (r: Vec<(RValue, RValue)>)
    ensures
        rpairs(r@) == rpairs(pairs@),
    decreases pairs, 0nat,
{
    let mut out: Vec<(RValue, RValue)> = Vec::new();
    let n = pairs.len();
    let mut i: usize = 0;
    proof {
        assert(out@ =~= pairs@.take(0));
    }
    while i < n
        invariant
            n == pairs@.len(),
            i <= n,
            rpairs(out@) == rpairs(pairs@.take(i as int)),
        decreases n - i,
    {
        let k = clone_value(&pairs[i].0);
        let w = clone_value(&pairs[i].1);
        proof {
            lemma_rpairs_push(out@, k, w);
            assert(pairs@.take(i + 1).drop_last() =~= pairs@.take(i as int));
            assert(pairs@.take(i + 1).last() == pairs@[i as int]);
        }
        out.push((k, w));
        i = i + 1;
    }
    proof {
        assert(pairs@.take(n as int) =~= pairs@);
    }
    out
}

/// The symbol `:name` as a value.
pub fn symbol(name: &str) -> (r: RValue)
    ensures
        r@ == sym(name@),
{
    let mut s = String::new();
    push_str(&mut s, name);
    proof {
        assert(Seq::<char>::empty() + name@ =~= name@);
    }
    RValue::Symbol(s)
}

/// The string `text` as a value.
pub fn string_value(text: &str) -> (r: RValue)
    ensures
        r@ == RView::Str(text@),
{
    let mut s = String::new();
    push_str(&mut s, text);
    proof {
        assert(Seq::<char>::empty() + text@ =~= text@);
    }
    RValue::Str(s)
}

/// Append an entry to a hash under construction.
pub fn push_entry(pairs: &mut Vec<(RValue, RValue)>, k: RValue, v: RValue)
    ensures
        rpairs(final(pairs)@) == rpairs(old(pairs)@).push((rv(k), rv(v))),
{
    proof {
        lemma_rpairs_push(pairs@, k, v);
    }
    pairs.push((k, v));
}

/// Append an item to an array under construction.
pub fn push_item(items: &mut Vec<RValue>, v: RValue)
    ensures
        rvs(final(items)@) == rvs(old(items)@).push(rv(v)),
{
    proof {
        lemma_rvs_push(items@, v);
    }
    items.push(v);
}

} // verus!
