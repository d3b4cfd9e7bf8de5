use crate::ids::ObjId;
use crate::utils::text::{is_text_eq, is_text_like, str_chars, text_eq, text_like};
use std::collections::HashMap;
use vstd::prelude::*;
use vstd::string::StringExecFns;

verus! {

broadcast use {vstd::std_specs::hash::group_hash_axioms, vstd::seq_lib::group_to_multiset_ensures};

pub const NO_LABEL: &'static str = "???";

/// The label of an object, or `NO_LABEL` where it has none (see `Labels::get_label_f`).
pub open spec fn label_text(m: Map<u32, Label>, id: u32) -> Seq<char> {
    if m.contains_key(id) {
        m[id].label@
    } else {
        NO_LABEL@
    }
}

/// Name and description of an object.
#[derive(Clone, Debug)]
pub struct Label {
    pub id: ObjId,
    pub label: String,
    pub desc: String,
}

impl Label {
    pub fn new(id: ObjId, label: &str) -> (r: Self)
        ensures
            r.id == id,
            r.label@ == label@,
            r.desc@ == label@,
    {
        Label { id, label: label.to_owned(), desc: label.to_owned() }
    }

    pub fn new_desc(id: ObjId, label: &str, desc: &str) -> (r: Self)
        ensures
            r.id == id,
            r.label@ == label@,
            r.desc@ == desc@,
    {
        Label { id, label: label.to_owned(), desc: desc.to_owned() }
    }
}

/// The label of every labelled object, by object id.
pub struct Labels {
    index: HashMap<u32, Label>,
}

impl View for Labels {
    type V = Map<u32, Label>;

    closed spec fn view(&self) -> Map<u32, Label> {
        self.index@
    }
}

impl Labels {
    /// Every label is stored under the id it names.
    pub open spec fn wf(&self) -> bool {
        forall|k: u32| #[trigger] self@.contains_key(k) ==> self@[k].id.0 == k
    }

    pub fn new() -> (r: Self)
        ensures
            r.wf(),
            r@ == Map::<u32, Label>::empty(),
    {
        Labels { index: HashMap::new() }
    }

    /// Add the label of an object that has none yet.
    pub fn add(&mut self, label: Label)
        requires
            old(self).wf(),
            !old(self)@.contains_key(label.id.0),
        ensures
            final(self).wf(),
            final(self)@ == old(self)@.insert(label.id.0, label),
    {
        let k = label.id.0;
        self.index.insert(k, label);
    }

    /// Replace the label of an object that has one.
    pub fn update(&mut self, label: Label)
        requires
            old(self).wf(),
            old(self)@.contains_key(label.id.0),
        ensures
            final(self).wf(),
            final(self)@ == old(self)@.insert(label.id.0, label),
    {
        let k = label.id.0;
        self.index.insert(k, label);
    }

    pub fn remove(&mut self, id: ObjId) -> (r: Option<Label>)
        requires
            old(self).wf(),
        ensures
            final(self).wf(),
            final(self)@ == old(self)@.remove(id.0),
            r == old(self)@.get(id.0),
    {
        self.index.remove(&id.0)
    }

    pub fn get(&self, id: ObjId) -> (r: Option<&Label>)
        ensures
            match r {
                Some(l) => self@.contains_key(id.0) && *l == self@[id.0],
                None => !self@.contains_key(id.0),
            },
    {
        match self.index.get(&id.0) {
            Some(l) => Some(l),
            None => None,
        }
    }

    pub fn get_label(&self, id: ObjId) -> (r: Option<&str>)
        ensures
            match r {
                Some(s) => self@.contains_key(id.0) && s@ == self@[id.0].label@,
                None => !self@.contains_key(id.0),
            },
    {
        match self.index.get(&id.0) {
            Some(l) => Some(l.label.as_str()),
            None => None,
        }
    }

    /// The label of the object, or `NO_LABEL` where it has none.
    pub fn get_label_f(&self, id: ObjId) -> (r: &str)
        ensures
            self@.contains_key(id.0) ==> r@ == self@[id.0].label@,
            !self@.contains_key(id.0) ==> r@ == NO_LABEL@,
    {
        match self.index.get(&id.0) {
            Some(l) => l.label.as_str(),
            None => NO_LABEL,
        }
    }

    /// The labels of the given objects, which must all have one.
    pub fn resolve(&self, ids: &Vec<ObjId>) -> (r: Vec<&Label>)
        requires
            forall|i: int| 0 <= i < ids.len() ==> self@.contains_key(#[trigger] ids@[i].0),
        ensures
            r.len() == ids.len(),
            forall|i: int| 0 <= i < ids.len() ==> *r@[i] == self@[#[trigger] ids@[i].0],
    {
        let mut r: Vec<&Label> = Vec::new();
        let mut i: usize = 0;
        while i < ids.len()
            invariant
                i <= ids.len(),
                r.len() == i,
                forall|i: int| 0 <= i < ids.len() ==> self@.contains_key(#[trigger] ids@[i].0),
                forall|j: int| 0 <= j < i ==> *r@[j] == self@[#[trigger] ids@[j].0],
            decreases ids.len() - i,
        {
            let id = ids[i];
            let l = self.index.get(&id.0);
            match l {
                Some(l) => r.push(l),
                None => {
                    assert(false);
                },
            }
            i = i + 1;
        }
        r
    }

    /// The label, or `NO_LABEL`, of each of the given objects.
    pub fn resolve_labels(&self, ids: &Vec<ObjId>) -> (r: Vec<&str>)
        ensures
            r.len() == ids.len(),
            forall|i: int|
                0 <= i < ids.len() ==> (#[trigger] r@[i])@ == if self@.contains_key(ids@[i].0) {
                    self@[ids@[i].0].label@
                } else {
                    NO_LABEL@
                },
    {
        let mut r: Vec<&str> = Vec::new();
        let mut i: usize = 0;
        while i < ids.len()
            invariant
                i <= ids.len(),
                r.len() == i,
                forall|j: int|
                    0 <= j < i ==> (#[trigger] r@[j])@ == if self@.contains_key(ids@[j].0) {
                        self@[ids@[j].0].label@
                    } else {
                        NO_LABEL@
                    },
            decreases ids.len() - i,
        {
            let s = self.get_label_f(ids[i]);
            r.push(s);
            i = i + 1;
        }
        r
    }
}

} // verus!

verus! {

/// Lexicographic order of texts, by character code.
pub open spec fn lex_lt(a: Seq<char>, b: Seq<char>) -> bool
    decreases a.len(),
{
    if a.len() == 0 {
        b.len() > 0
    } else if b.len() == 0 {
        false
    } else if a[0] != b[0] {
        (a[0] as int) < (b[0] as int)
    } else {
        lex_lt(a.drop_first(), b.drop_first())
    }
}

pub proof fn lemma_lex_irreflexive(a: Seq<char>)
    ensures
        !lex_lt(a, a),
    decreases a.len(),
{
    if a.len() > 0 {
        lemma_lex_irreflexive(a.drop_first());
    }
}

pub proof fn lemma_lex_asymmetric(a: Seq<char>, b: Seq<char>)
    requires
        lex_lt(a, b),
    ensures
        !lex_lt(b, a),
    decreases a.len(),
{
    if a.len() > 0 && b.len() > 0 && a[0] == b[0] {
        lemma_lex_asymmetric(a.drop_first(), b.drop_first());
    }
}

pub proof fn lemma_lex_transitive(a: Seq<char>, b: Seq<char>, c: Seq<char>)
    requires
        lex_lt(a, b),
        lex_lt(b, c),
    ensures
        lex_lt(a, c),
    decreases a.len(),
{
    if a.len() > 0 && b.len() > 0 && c.len() > 0 && a[0] == b[0] && b[0] == c[0] {
        lemma_lex_transitive(a.drop_first(), b.drop_first(), c.drop_first());
    }
}

pub proof fn lemma_lex_total(a: Seq<char>, b: Seq<char>)
    requires
        a != b,
    ensures
        lex_lt(a, b) || lex_lt(b, a),
    decreases a.len(),
{
    if a.len() > 0 && b.len() > 0 {
        if a[0] == b[0] {
            if a.drop_first() == b.drop_first() {
                assert(a =~= seq![a[0]] + a.drop_first());
                assert(b =~= seq![b[0]] + b.drop_first());
            }
            lemma_lex_total(a.drop_first(), b.drop_first());
        } else {
            assert((a[0] as int) != (b[0] as int));
        }
    } else if a.len() == 0 && b.len() == 0 {
        assert(a =~= b);
    }
}

/// Sorting key of a candidate label: its text, then its object id.
pub type Key = (Seq<char>, u32);

pub open spec fn key_lt(a: Key, b: Key) -> bool {
    lex_lt(a.0, b.0) || (a.0 == b.0 && a.1 < b.1)
}

pub proof fn lemma_key_asymmetric(a: Key, b: Key)
    requires
        key_lt(a, b),
    ensures
        !key_lt(b, a),
{
    if lex_lt(a.0, b.0) {
        lemma_lex_asymmetric(a.0, b.0);
    } else {
        lemma_lex_irreflexive(a.0);
    }
}

pub proof fn lemma_key_transitive(a: Key, b: Key, c: Key)
    requires
        key_lt(a, b),
        key_lt(b, c),
    ensures
        key_lt(a, c),
{
    if lex_lt(a.0, b.0) && lex_lt(b.0, c.0) {
        lemma_lex_transitive(a.0, b.0, c.0);
    }
}

pub proof fn lemma_key_total(a: Key, b: Key)
    requires
        a != b,
    ensures
        key_lt(a, b) || key_lt(b, a),
{
    if a.0 != b.0 {
        lemma_lex_total(a.0, b.0);
    }
}

/// Non decreasing by `key_lt`.
pub open spec fn sorted_keys(s: Seq<Key>) -> bool {
    forall|i: int, j: int| 0 <= i < j < s.len() ==> !key_lt(#[trigger] s[j], #[trigger] s[i])
}

/// First index of the run of equal texts that holds index `i`.
pub open spec fn run_start(s: Seq<Key>, i: int) -> int
    decreases i,
{
    if i <= 0 {
        0
    } else if s[i - 1].0 == s[i].0 {
        run_start(s, i - 1)
    } else {
        i
    }
}

/// The candidate name of the entry at `i`: its text where it is the first of its run of equal
/// texts, else the text, a dot and its position in the run counted from 1.
pub open spec fn numbered_text(s: Seq<Key>, i: int) -> Seq<char> {
    if run_start(s, i) == i {
        s[i].0
    } else {
        s[i].0 + seq!['.'] + crate::utils::text::decimal((i - run_start(s, i) + 1) as nat)
    }
}

pub open spec fn numbered(s: Seq<Key>) -> Seq<(u32, Seq<char>)> {
    Seq::new(s.len(), |i: int| (s[i].1, numbered_text(s, i)))
}

pub open spec fn label_keys(labels: Seq<&Label>) -> Seq<Key> {
    labels.map_values(|l: &Label| (l.label@, l.id.0))
}

pub open spec fn pairs_view(r: Seq<(ObjId, String)>) -> Seq<(u32, Seq<char>)> {
    r.map_values(|p: (ObjId, String)| (p.0.0, p.1@))
}

/// `r` is the numbered candidate names of the keys `ks` sorted by text then id.
pub open spec fn candidates_of(ks: Seq<Key>, r: Seq<(u32, Seq<char>)>) -> bool {
    exists|s: Seq<Key>|
        #![trigger numbered(s)]
        sorted_keys(s) && s.to_multiset() == ks.to_multiset() && r == numbered(s)
}

/// Two sorted orderings of the same keys are the same sequence.
pub proof fn lemma_sorted_unique(s: Seq<Key>, t: Seq<Key>)
    requires
        sorted_keys(s),
        sorted_keys(t),
        s.to_multiset() == t.to_multiset(),
    ensures
        s == t,
    decreases s.len(),
{
    broadcast use vstd::seq_lib::group_to_multiset_ensures;

    assert(s.len() == s.to_multiset().len());
    assert(t.len() == t.to_multiset().len());
    if s.len() == 0 {
        assert(s =~= t);
    } else {
        assert(s.to_multiset().count(s[0]) > 0);
        assert(t.contains(s[0]));
        let j = choose|j: int| 0 <= j < t.len() && t[j] == s[0];
        assert(t.to_multiset().count(t[0]) > 0);
        assert(s.contains(t[0]));
        let i = choose|i: int| 0 <= i < s.len() && s[i] == t[0];
        if j > 0 {
            assert(!key_lt(t[j], t[0]));
        }
        if i > 0 {
            assert(!key_lt(s[i], s[0]));
        }
        if s[0] != t[0] {
            lemma_key_total(s[0], t[0]);
            if j == 0 {
                assert(t[0] == s[0]);
            }
            if i == 0 {
                assert(s[0] == t[0]);
            }
        }
        assert(s.remove(0) =~= s.drop_first());
        assert(t.remove(0) =~= t.drop_first());
        assert(s.drop_first().to_multiset() == s.to_multiset().remove(s[0]));
        assert(t.drop_first().to_multiset() == t.to_multiset().remove(t[0]));
        assert forall|a: int, b: int| 0 <= a < b < s.drop_first().len() implies !key_lt(
            #[trigger] s.drop_first()[b],
            #[trigger] s.drop_first()[a],
        ) by {
            assert(s.drop_first()[b] == s[b + 1] && s.drop_first()[a] == s[a + 1]);
        }
        assert forall|a: int, b: int| 0 <= a < b < t.drop_first().len() implies !key_lt(
            #[trigger] t.drop_first()[b],
            #[trigger] t.drop_first()[a],
        ) by {
            assert(t.drop_first()[b] == t[b + 1] && t.drop_first()[a] == t[a + 1]);
        }
        lemma_sorted_unique(s.drop_first(), t.drop_first());
        assert(s[0] == t[0]);
        assert forall|k: int| 0 <= k < s.len() implies s[k] == t[k] by {
            if k > 0 {
                assert(s.drop_first()[k - 1] == t.drop_first()[k - 1]);
            }
        }
        assert(s =~= t);
    }
}

/// The keys `ks` sorted by text then id.
pub open spec fn sort_keys(ks: Seq<Key>) -> Seq<Key> {
    choose|s: Seq<Key>| sorted_keys(s) && s.to_multiset() == ks.to_multiset()
}

/// The candidate names of the keys, sorted by text then id and numbered within runs of equal
/// texts.
pub open spec fn candidates(ks: Seq<Key>) -> Seq<(u32, Seq<char>)> {
    numbered(sort_keys(ks))
}

pub proof fn lemma_candidates_of(ks: Seq<Key>, r: Seq<(u32, Seq<char>)>)
    requires
        candidates_of(ks, r),
    ensures
        r == candidates(ks),
{
    let s = choose|s: Seq<Key>| #![trigger numbered(s)] sorted_keys(s) && s.to_multiset() == ks.to_multiset() && r == numbered(s);
    let t = sort_keys(ks);
    assert(sorted_keys(t) && t.to_multiset() == ks.to_multiset());
    lemma_sorted_unique(s, t);
}

/// The candidate names of `labels` sorted by text then id.
pub open spec fn is_candidates(labels: Seq<&Label>, r: Seq<(u32, Seq<char>)>) -> bool {
    candidates_of(label_keys(labels), r)
}

fn chars_lt(a: &Vec<char>, b: &Vec<char>) -> (r: bool)
    ensures
        r == lex_lt(a@, b@),
{
    let mut i: usize = 0;
    proof {
        assert(a@.skip(0) =~= a@);
        assert(b@.skip(0) =~= b@);
    }
    while i < a.len() && i < b.len()
        invariant
            i <= a.len(),
            i <= b.len(),
            lex_lt(a@, b@) == lex_lt(a@.skip(i as int), b@.skip(i as int)),
        decreases a.len() - i,
    {
        if a[i] != b[i] {
            return a[i] < b[i];
        }
        proof {
            assert(a@.skip(i as int).drop_first() =~= a@.skip(i + 1));
            assert(b@.skip(i as int).drop_first() =~= b@.skip(i + 1));
        }
        i = i + 1;
    }
    a.len() == i && b.len() > i
}

struct Cand {
    chars: Vec<char>,
    id: ObjId,
    text: String,
}

spec fn cand_keys(v: Seq<Cand>) -> Seq<Key> {
    v.map_values(|c: Cand| (c.chars@, c.id.0))
}

fn cand_lt(a: &Cand, b: &Cand) -> (r: bool)
    ensures
        r == key_lt((a.chars@, a.id.0), (b.chars@, b.id.0)),
{
    if chars_lt(&a.chars, &b.chars) {
        true
    } else if crate::utils::text::chars_eq(&a.chars, &b.chars) {
        a.id.0 < b.id.0
    } else {
        false
    }
}

/// Inserting `k` before the first element that is greater keeps a sequence sorted.
proof fn lemma_insert_sorted(s: Seq<Key>, p: int, k: Key)
    requires
        sorted_keys(s),
        0 <= p <= s.len(),
        forall|j: int| 0 <= j < p ==> !key_lt(k, #[trigger] s[j]),
        p < s.len() ==> key_lt(k, s[p]),
    ensures
        sorted_keys(s.insert(p, k)),
{
    let t = s.insert(p, k);
    assert forall|i: int, j: int| 0 <= i < j < t.len() implies !key_lt(#[trigger] t[j], #[trigger] t[i]) by {
        if j < p {
            assert(t[i] == s[i] && t[j] == s[j]);
        } else if j == p {
            assert(t[i] == s[i]);
        } else if i == p {
            assert(t[j] == s[j - 1]);
            if key_lt(s[j - 1], k) {
                if j - 1 == p {
                    lemma_key_asymmetric(k, s[p]);
                } else {
                    lemma_key_transitive(s[j - 1], k, s[p]);
                    assert(!key_lt(s[j - 1], s[p]));
                }
            }
        } else if i < p {
            assert(t[i] == s[i] && t[j] == s[j - 1]);
        } else {
            assert(t[i] == s[i - 1] && t[j] == s[j - 1]);
        }
    }
}

/// The labels with names to pick them from a list: sorted by label text then id, and in each
/// run of equal texts every entry after the first gets the text, a dot and its position in the
/// run (the second is "text.2").
pub fn labels_for_candidates(labels: &Vec<&Label>) -> (r: Vec<(ObjId, String)>)
    ensures
        pairs_view(r@) == candidates(label_keys(labels@)),
{
    // sort by label, id
    let mut sorted: Vec<Cand> = Vec::new();
    let mut i: usize = 0;
    while i < labels.len()
        invariant
            i <= labels.len(),
            sorted_keys(cand_keys(sorted@)),
            cand_keys(sorted@).to_multiset() == label_keys(labels@).take(i as int).to_multiset(),
            forall|j: int| 0 <= j < sorted.len() ==> (#[trigger] sorted@[j]).text@ == sorted@[j].chars@,
        decreases labels.len() - i,
    {
        let l: &Label = labels[i];
        let c = Cand { chars: str_chars(l.label.as_str()), id: l.id, text: l.label.clone() };
        let mut p: usize = 0;
        while p < sorted.len() && !cand_lt(&c, &sorted[p])
            invariant
                p <= sorted.len(),
                forall|j: int|
                    0 <= j < p ==> !key_lt((c.chars@, c.id.0), #[trigger] cand_keys(sorted@)[j]),
            decreases sorted.len() - p,
        {
            p = p + 1;
        }
        let ghost old_sorted = sorted@;
        let ghost k: Key = (c.chars@, c.id.0);
        proof {
            lemma_insert_sorted(cand_keys(old_sorted), p as int, k);
        }
        sorted.insert(p, c);
        proof {
            assert(cand_keys(sorted@) =~= cand_keys(old_sorted).insert(p as int, k));
            assert(label_keys(labels@).take(i + 1) =~= label_keys(labels@).take(i as int).push(k));
            assert(forall|j: int| 0 <= j < sorted.len() ==> (#[trigger] sorted@[j]).text@ == sorted@[j].chars@
            ) by {
                assert forall|j: int| 0 <= j < sorted.len() implies (#[trigger] sorted@[j]).text@
                    == sorted@[j].chars@ by {
                    if j < p {
                        assert(sorted@[j] == old_sorted[j]);
                    } else if j > p {
                        assert(sorted@[j] == old_sorted[j - 1]);
                    }
                }
            }
        }
        i = i + 1;
    }
    let ghost s = cand_keys(sorted@);
    proof {
        assert(label_keys(labels@).take(labels.len() as int) =~= label_keys(labels@));
    }
    // for each run of equal labels, append a number after the first occurrence
    let mut r: Vec<(ObjId, String)> = Vec::new();
    let mut start: usize = 0;
    let mut i: usize = 0;
    while i < sorted.len()
        invariant
            s == cand_keys(sorted@),
            i <= sorted.len(),
            start <= i,
            i > 0 ==> start < i && start == run_start(s, i - 1),
            forall|j: int| start <= j < i ==> (#[trigger] s[j]).0 == s[start as int].0,
            forall|j: int| 0 <= j < sorted.len() ==> (#[trigger] sorted@[j]).text@ == sorted@[j].chars@,
            r.len() == i,
            pairs_view(r@) == numbered(s).take(i as int),
        decreases sorted.len() - i,
    {
        let ghost old_r = r@;
        if i > 0 && crate::utils::text::chars_eq(&sorted[i].chars, &sorted[start].chars) {
            proof {
                assert(s[i - 1].0 == s[i as int].0);
                assert(run_start(s, i as int) == start);
                reveal_strlit(".");
            }
            let num = crate::utils::text::usize_to_string(i - start + 1);
            let t0 = sorted[i].text.clone();
            assert(t0@ == s[i as int].0);
            let t = t0.concat(".").concat(num.as_str());
            assert(t@ == numbered_text(s, i as int));
            r.push((sorted[i].id, t));
        } else {
            proof {
                if i > 0 {
                    assert(s[i - 1].0 == s[start as int].0);
                    assert(s[i - 1].0 != s[i as int].0);
                }
                assert(run_start(s, i as int) == i);
            }
            start = i;
            let t = sorted[i].text.clone();
            assert(t@ == numbered_text(s, i as int));
            r.push((sorted[i].id, t));
        }
        proof {
            assert(r@[i as int].0.0 == s[i as int].1);
            assert(pairs_view(r@)[i as int] == numbered(s)[i as int]);
            assert(pairs_view(r@) =~= pairs_view(old_r).push(numbered(s)[i as int]));
            assert(pairs_view(r@) =~= numbered(s).take(i + 1));
        }
        i = i + 1;
    }
    proof {
        assert(numbered(s).take(sorted.len() as int) =~= numbered(s));
        assert(pairs_view(r@) == numbered(s));
        assert(is_candidates(labels@, pairs_view(r@)));
        lemma_candidates_of(label_keys(labels@), pairs_view(r@));
    }
    r
}

/// Ids of the candidates whose name matches `input`: equal to it (`exact`) or starting with it,
/// ignoring ASCII letter case, in candidate order.
pub open spec fn matching(c: Seq<(u32, Seq<char>)>, input: Seq<char>, exact: bool) -> Seq<u32>
    decreases c.len(),
{
    if c.len() == 0 {
        Seq::empty()
    } else {
        let rest = matching(c.drop_last(), input, exact);
        let l = c.last();
        if (exact && text_eq(l.1, input)) || (!exact && text_like(l.1, input)) {
            rest.push(l.0)
        } else {
            rest
        }
    }
}

/// The candidates whose name equals `input`; where there is none, those whose name starts with
/// it.
pub open spec fn search_in(c: Seq<(u32, Seq<char>)>, input: Seq<char>) -> Seq<u32> {
    if matching(c, input, true).len() > 0 {
        matching(c, input, true)
    } else {
        matching(c, input, false)
    }
}

pub open spec fn id_values(r: Seq<ObjId>) -> Seq<u32> {
    r.map_values(|o: ObjId| o.0)
}

fn collect_matching(cands: &Vec<(ObjId, String)>, input: &str, exact: bool) -> (r: Vec<ObjId>)
    ensures
        id_values(r@) == matching(pairs_view(cands@), input@, exact),
{
    let ghost c = pairs_view(cands@);
    let mut r: Vec<ObjId> = Vec::new();
    let mut i: usize = 0;
    proof {
        assert(c.take(0) =~= Seq::<(u32, Seq<char>)>::empty());
        assert(id_values(r@) =~= Seq::<u32>::empty());
    }
    while i < cands.len()
        invariant
            c == pairs_view(cands@),
            i <= cands.len(),
            id_values(r@) == matching(c.take(i as int), input@, exact),
        decreases cands.len() - i,
    {
        let ok = if exact {
            is_text_eq(cands[i].1.as_str(), input)
        } else {
            is_text_like(cands[i].1.as_str(), input)
        };
        let ghost old_r = r@;
        proof {
            assert(c.take(i + 1).drop_last() =~= c.take(i as int));
            assert(c.take(i + 1).last() == c[i as int]);
        }
        if ok {
            r.push(cands[i].0);
            proof {
                assert(id_values(r@) =~= id_values(old_r).push(c[i as int].0));
            }
        }
        i = i + 1;
    }
    proof {
        assert(c.take(cands.len() as int) =~= c);
    }
    r
}

/// Objects whose candidate name (see `labels_for_candidates`) equals the input, ignoring ASCII
/// letter case; where none does, those whose name starts with it.
pub fn label_search(labels: &Vec<&Label>, input: &str) -> (r: Vec<ObjId>)
    ensures
        id_values(r@) == search_in(candidates(label_keys(labels@)), input@),
{
    let candidates = labels_for_candidates(labels);
    let ghost c = pairs_view(candidates@);
    let result = collect_matching(&candidates, input, true);
    if result.len() > 0 {
        proof {
            assert(id_values(result@).len() > 0);
        }
        return result;
    }
    let result = collect_matching(&candidates, input, false);
    result
}

impl Labels {
    /// Keys (label text, id) of the labels of those of `ids` that have one, in order.
    pub open spec fn keys_of(&self, ids: Seq<ObjId>) -> Seq<Key> {
        self.labelled(ids).map_values(|id: ObjId| (self@[id.0].label@, self@[id.0].id.0))
    }

    /// The ids of `ids` that have a label.
    pub open spec fn labelled(&self, ids: Seq<ObjId>) -> Seq<ObjId> {
        ids.filter(self.has_label())
    }

    pub open spec fn has_label(&self) -> spec_fn(ObjId) -> bool {
        |id: ObjId| self@.contains_key(id.0)
    }

    /// The labels of those of `ids` that have one, in order.
    pub fn resolve_present(&self, ids: &Vec<ObjId>) -> (r: Vec<&Label>)
        ensures
            label_keys(r@) == self.keys_of(ids@),
    {
        let mut present: Vec<&Label> = Vec::new();
        let ghost mut present_ids: Seq<ObjId> = Seq::empty();
        let mut i: usize = 0;
        proof {
            assert(ids@.take(0) =~= Seq::<ObjId>::empty());
        }
        while i < ids.len()
            invariant
                i <= ids.len(),
                present_ids == ids@.take(i as int).filter(self.has_label()),
                present.len() == present_ids.len(),
                forall|j: int|
                    0 <= j < present.len() ==> *(#[trigger] present@[j]) == self@[present_ids[j].0]
                        && self@.contains_key(present_ids[j].0),
            decreases ids.len() - i,
        {
            let id = ids[i];
            proof {
                assert(ids@.take(i + 1).drop_last() =~= ids@.take(i as int));
                assert(ids@.take(i + 1).last() == id);
                assert(ids@.take(i + 1) =~= ids@.take(i as int).push(id));
                ids@.take(i as int).lemma_filter_push(id, self.has_label());
            }
            match self.index.get(&id.0) {
                Some(l) => {
                    present.push(l);
                    proof {
                        present_ids = present_ids.push(id);
                    }
                },
                None => {},
            }
            i = i + 1;
        }
        proof {
            assert(ids@.take(ids.len() as int) =~= ids@);
            assert(label_keys(present@) =~= self.keys_of(ids@));
        }
        present
    }

    /// The candidate names (see `labels_for_candidates`) of those of `ids` that have a label.
    pub fn resolve_labels_candidates(&self, ids: &Vec<ObjId>) -> (r: Vec<String>)
        ensures
            r.len() == candidates(self.keys_of(ids@)).len(),
            forall|i: int|
                0 <= i < r.len() ==> (#[trigger] r@[i])@ == candidates(
                    self.keys_of(ids@),
                )[i].1,
    {
        let present = self.resolve_present(ids);
        let cands = labels_for_candidates(&present);
        let ghost c = pairs_view(cands@);
        let mut r: Vec<String> = Vec::new();
        let mut k: usize = 0;
        while k < cands.len()
            invariant
                c == pairs_view(cands@),
                k <= cands.len(),
                r.len() == k,
                forall|j: int| 0 <= j < k ==> (#[trigger] r@[j])@ == c[j].1,
            decreases cands.len() - k,
        {
            r.push(cands[k].1.clone());
            k = k + 1;
        }
        r
    }

    /// Objects among `ids` whose candidate name matches the input (see `label_search`); those
    /// without a label are not candidates.
    pub fn search(&self, ids: &Vec<ObjId>, input: &str) -> (r: Vec<ObjId>)
        requires
            self.wf(),
        ensures
            id_values(r@) == search_in(candidates(self.keys_of(ids@)), input@),
    {
        let labels = self.resolve_present(ids);
        label_search(&labels, input)
    }
}

} // verus!
