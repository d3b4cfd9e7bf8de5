use crate::controller::{ConnectionView, ConnectionViewAction};
use crate::errors::Error;
use crate::game::comm::{join, joined};
use crate::game::container::Container;
use crate::game::location::children;
use crate::ids::{ObjId, StaticId};
use crate::utils::strinput::{words, StrInput};
use crate::utils::text::{debug_str, debug_str_text, debug_strs, debug_strs_text, decimal, str_chars, str_eq, usize_to_string};
use vstd::prelude::*;
use vstd::string::StringExecFns;

verus! {

pub open spec fn admin_welcome_text() -> Seq<char> {
    "[Admin]\n"@
}

/// The greeting of the admin view.
pub fn handle_welcome() -> (r: String)
    ensures
        r@ == admin_welcome_text(),
{
    String::from_str("[Admin]\n")
}

/// What the admin listing reads of an object or prefab: its id, label, parent and children,
/// and whether it is a room, a mob or an item.
#[derive(Clone, Debug)]
pub struct ObjSummary {
    pub id: u32,
    pub label: Option<String>,
    pub parent: Option<u32>,
    pub children: Option<Vec<u32>>,
    pub is_room: bool,
    pub is_mob: bool,
    pub is_item: bool,
}

pub open spec fn string_views(v: Seq<String>) -> Seq<Seq<char>> {
    v.map_values(|s: String| s@)
}

/// `args` without its first element equal to `s`, and whether there was one.
pub open spec fn drained(args: Seq<Seq<char>>, s: Seq<char>) -> (Seq<Seq<char>>, Option<bool>)
    decreases args.len(),
{
    if args.len() == 0 {
        (args, None)
    } else if args[0] == s {
        (args.drop_first(), Some(true))
    } else {
        let rest = drained(args.drop_first(), s);
        (seq![args[0]] + rest.0, rest.1)
    }
}

/// A filter of the admin listing: words the label or id must hold, and kinds.
#[derive(Debug)]
pub struct VecStringFilter {
    pub labels: Vec<String>,
    pub is_mob: Option<bool>,
    pub is_item: Option<bool>,
    pub is_room: Option<bool>,
}

fn drain(v: &mut Vec<String>, s: &str) -> (r: Option<bool>)
    ensures
        string_views(final(v)@) == drained(string_views(old(v)@), s@).0,
        r == drained(string_views(old(v)@), s@).1,
{
    let ghost a = string_views(v@);
    let mut i: usize = 0;
    proof {
        assert(a.skip(0) =~= a);
        assert(a.take(0) + drained(a.skip(0), s@).0 =~= drained(a, s@).0);
    }
    while i < v.len()
        invariant
            i <= v.len(),
            string_views(v@) == a,
            a == string_views(old(v)@),
            drained(a, s@).0 == a.take(i as int) + drained(a.skip(i as int), s@).0,
            drained(a, s@).1 == drained(a.skip(i as int), s@).1,
        decreases v.len() - i,
    {
        proof {
            assert(a.skip(i as int).drop_first() =~= a.skip(i + 1));
            assert(a.skip(i as int)[0] == a[i as int]);
        }
        if str_eq(v[i].as_str(), s) {
            proof {
                assert(a[i as int] == s@);
                assert(drained(a.skip(i as int), s@) == (a.skip(i + 1), Some(true)));
            }
            v.remove(i);
            proof {
                assert(string_views(v@) =~= a.take(i as int) + a.skip(i + 1));
            }
            return Some(true);
        }
        proof {
            assert(a.take(i + 1) =~= a.take(i as int).push(a[i as int]));
            assert(a.take(i as int) + (seq![a[i as int]] + drained(a.skip(i + 1), s@).0) =~= a.take(i + 1) + drained(
                a.skip(i + 1),
                s@,
            ).0);
        }
        i = i + 1;
    }
    proof {
        assert(a.take(i as int) =~= a);
        assert(a.skip(i as int).len() == 0);
        assert(a.take(i as int) + drained(a.skip(i as int), s@).0 =~= a);
    }
    None
}

impl VecStringFilter {
    /// The words "mob", "room" and "item", each at its first place, set the kinds; the other
    /// words stay.
    pub fn new(args: Vec<String>) -> (r: Self)
        ensures
            filter_view(&r) == filter_of(string_views(args@)),
    {
        let mut args = args;
        let is_mob = drain(&mut args, "mob");
        let is_room = drain(&mut args, "room");
        let is_item = drain(&mut args, "item");
        VecStringFilter { labels: args, is_mob, is_item, is_room }
    }
}

/// `t` occurs in `s`.
pub open spec fn holds_text(s: Seq<char>, t: Seq<char>) -> bool {
    exists|i: int| 0 <= i && i + t.len() <= s.len() && #[trigger] s.subrange(i, i + t.len()) == t
}

fn contains_text(s: &str, t: &str) -> (r: bool)
    ensures
        r == holds_text(s@, t@),
{
    let cs = str_chars(s);
    let ct = str_chars(t);
    if ct.len() > cs.len() {
        return false;
    }
    let mut i: usize = 0;
    while i <= cs.len() - ct.len()
        invariant
            cs@ == s@,
            ct@ == t@,
            ct.len() <= cs.len(),
            i <= cs.len() - ct.len() + 1,
            forall|k: int| 0 <= k < i ==> #[trigger] s@.subrange(k, k + t@.len()) != t@,
        decreases cs.len() - i,
    {
        let mut j: usize = 0;
        let mut same = true;
        while j < ct.len()
            invariant
                cs@ == s@,
                ct@ == t@,
                i + ct.len() <= cs.len(),
                j <= ct.len(),
                same == forall|m: int| 0 <= m < j ==> cs@[i + m] == ct@[m],
            decreases ct.len() - j,
        {
            if cs[i + j] != ct[j] {
                same = false;
            }
            j = j + 1;
        }
        if same {
            proof {
                assert(s@.subrange(i as int, i + t@.len()) =~= t@);
            }
            return true;
        }
        proof {
            let m = choose|m: int| 0 <= m < ct.len() && cs@[i + m] != ct@[m];
            assert(s@.subrange(i as int, i + t@.len())[m] != t@[m]);
        }
        i = i + 1;
    }
    false
}

/// Every word of the filter is in the label or in the id, written in decimal.
pub open spec fn valid_label(labels: Seq<Seq<char>>, d: ObjSummary) -> bool {
    forall|i: int|
        0 <= i < labels.len() ==> (match d.label {
            Some(l) => holds_text(l@, #[trigger] labels[i]),
            None => false,
        } || holds_text(decimal(d.id as nat), labels[i]))
}

/// The object is of every kind the filter asks for.
pub open spec fn valid_tags(f: &VecStringFilter, d: ObjSummary) -> bool {
    &&& f.is_room == Some(true) ==> d.is_room
    &&& f.is_mob == Some(true) ==> d.is_mob
    &&& f.is_item == Some(true) ==> d.is_item
}

/// What a filter holds: its words, and whether it asks for mobs, items and rooms.
pub type FilterView = (Seq<Seq<char>>, Option<bool>, Option<bool>, Option<bool>);

pub open spec fn filter_view(f: &VecStringFilter) -> FilterView {
    (string_views(f.labels@), f.is_mob, f.is_item, f.is_room)
}

/// The filter made of the words (see `VecStringFilter::new`).
pub open spec fn filter_of(args: Seq<Seq<char>>) -> FilterView {
    let (a1, is_mob) = drained(args, "mob"@);
    let (a2, is_room) = drained(a1, "room"@);
    let (a3, is_item) = drained(a2, "item"@);
    (a3, is_mob, is_item, is_room)
}

/// The object passes the filter.
pub open spec fn visible(fv: FilterView, d: ObjSummary) -> bool {
    &&& valid_label(fv.0, d)
    &&& fv.3 == Some(true) ==> d.is_room
    &&& fv.1 == Some(true) ==> d.is_mob
    &&& fv.2 == Some(true) ==> d.is_item
}

impl VecStringFilter {
    pub fn is_valid_label(&self, data: &ObjSummary) -> (r: bool)
        ensures
            r == valid_label(string_views(self.labels@), *data),
    {
        let id_text = usize_to_string(data.id as usize);
        let mut i: usize = 0;
        while i < self.labels.len()
            invariant
                i <= self.labels.len(),
                id_text@ == decimal(data.id as nat),
                forall|k: int| 0 <= k < i ==> (match data.label {
                    Some(l) => holds_text(l@, #[trigger] string_views(self.labels@)[k]),
                    None => false,
                } || holds_text(decimal(data.id as nat), string_views(self.labels@)[k])),
            decreases self.labels.len() - i,
        {
            let s = self.labels[i].as_str();
            let is_label = match &data.label {
                Some(l) => contains_text(l.as_str(), s),
                None => false,
            };
            let is_id = contains_text(id_text.as_str(), s);
            if !(is_label || is_id) {
                proof {
                    assert(string_views(self.labels@)[i as int] == s@);
                }
                return false;
            }
            i = i + 1;
        }
        true
    }

    pub fn is_valid_tags(&self, data: &ObjSummary) -> (r: bool)
        ensures
            r == valid_tags(self, *data),
    {
        if self.is_room.unwrap_or(false) && !data.is_room {
            return false;
        }
        if self.is_mob.unwrap_or(false) && !data.is_mob {
            return false;
        }
        if self.is_item.unwrap_or(false) && !data.is_item {
            return false;
        }
        true
    }

    /// The object has the words and kinds of the filter.
    pub fn is_visible(&self, data: &ObjSummary) -> (r: bool)
        ensures
            r == visible(filter_view(self), *data),
    {
        self.is_valid_label(data) && self.is_valid_tags(data)
    }
}

/// `x` put in `s` before the first element that is not smaller.
pub open spec fn insert_sorted(s: Seq<u32>, x: u32) -> Seq<u32>
    decreases s.len(),
{
    if s.len() == 0 {
        seq![x]
    } else if x <= s[0] {
        seq![x] + s
    } else {
        seq![s[0]] + insert_sorted(s.drop_first(), x)
    }
}

/// The elements of `s` in increasing order.
pub open spec fn sort_seq(s: Seq<u32>) -> Seq<u32>
    decreases s.len(),
{
    if s.len() == 0 {
        Seq::empty()
    } else {
        insert_sorted(sort_seq(s.drop_last()), s.last())
    }
}

/// Where every element before `k` is smaller than `x`, and `x` is not greater than the element
/// at `k`, `x` goes at `k`.
proof fn lemma_insert_at(s: Seq<u32>, x: u32, k: int)
    requires
        0 <= k <= s.len(),
        forall|j: int| 0 <= j < k ==> s[j] < x,
        k < s.len() ==> x <= s[k],
    ensures
        insert_sorted(s, x) == s.take(k) + seq![x] + s.skip(k),
    decreases s.len(),
{
    if s.len() == 0 {
        assert(s.take(k) + seq![x] + s.skip(k) =~= seq![x]);
    } else if k == 0 {
        assert(s.take(0) + seq![x] + s.skip(0) =~= seq![x] + s);
    } else {
        let t = s.drop_first();
        assert forall|j: int| 0 <= j < k - 1 implies t[j] < x by {
            assert(t[j] == s[j + 1]);
        }
        lemma_insert_at(t, x, k - 1);
        assert(seq![s[0]] + (t.take(k - 1) + seq![x] + t.skip(k - 1)) =~= s.take(k) + seq![x] + s.skip(k));
    }
}

/// The numbers in increasing order.
fn sorted(v: &Vec<u32>) -> (r: Vec<u32>)
    ensures
        r@ == sort_seq(v@),
{
    let mut r: Vec<u32> = Vec::new();
    let mut i: usize = 0;
    while i < v.len()
        invariant
            i <= v.len(),
            r@ == sort_seq(v@.take(i as int)),
        decreases v.len() - i,
    {
        let x = v[i];
        let mut k: usize = 0;
        while k < r.len() && r[k] < x
            invariant
                k <= r.len(),
                forall|j: int| 0 <= j < k ==> r@[j] < x,
            decreases r.len() - k,
        {
            k = k + 1;
        }
        proof {
            lemma_insert_at(r@, x, k as int);
            assert(v@.take(i + 1).drop_last() =~= v@.take(i as int));
        }
        r.insert(k, x);
        proof {
            assert(r@ =~= sort_seq(v@.take(i + 1)));
        }
        i = i + 1;
    }
    proof {
        assert(v@.take(v.len() as int) =~= v@);
    }
    r
}

/// `n` spaces.
pub open spec fn spaces(n: nat) -> Seq<char> {
    Seq::new(n, |i: int| ' ')
}

/// The children ids, sorted, as a list.
pub open spec fn children_text(children: Option<Vec<u32>>) -> Seq<char> {
    match children {
        Some(ids) => " - ["@ + joined(sort_seq(ids@).map_values(|x: u32| decimal(x as nat)), ", "@) + "]"@,
        None => Seq::empty(),
    }
}

/// A line of the listing: indented two spaces for each level, the id, the label and the
/// children.
pub open spec fn print_one_text(deep: u32, d: ObjSummary) -> Seq<char> {
    spaces(2 * deep as nat) + decimal(d.id as nat) + ") "@ + match d.label {
        Some(l) => l@,
        None => "undefined"@,
    } + children_text(d.children)
}

pub fn print_one(deep: u32, data: &ObjSummary) -> (r: String)
    requires
        deep < 0x8000_0000,
    ensures
        r@ == print_one_text(deep, *data),
{
    let mut prefix = String::new();
    let n: u32 = deep * 2;
    let mut i: u32 = 0;
    while i < n
        invariant
            i <= n,
            n == 2 * deep,
            prefix@ == spaces(i as nat),
        decreases n - i,
    {
        prefix.append(" ");
        proof {
            reveal_strlit(" ");
            assert(prefix@ =~= spaces((i + 1) as nat));
        }
        i = i + 1;
    }
    let mut children_str = String::new();
    match &data.children {
        Some(children) => {
            let ids = sorted(children);
            let mut texts: Vec<String> = Vec::new();
            let mut j: usize = 0;
            while j < ids.len()
                invariant
                    j <= ids.len(),
                    crate::game::comm::string_views(texts@) == ids@.take(j as int).map_values(|x: u32| decimal(x as nat)),
                decreases ids.len() - j,
            {
                let ghost before = texts@;
                texts.push(usize_to_string(ids[j] as usize));
                proof {
                    assert(ids@.take(j + 1) =~= ids@.take(j as int).push(ids@[j as int]));
                    assert(crate::game::comm::string_views(texts@) =~= crate::game::comm::string_views(before).push(
                        decimal(ids@[j as int] as nat),
                    ));
                }
                j = j + 1;
            }
            proof {
                assert(ids@.take(ids.len() as int) =~= ids@);
            }
            let list = join(&texts, ", ");
            children_str.append(" - [");
            children_str.append(list.as_str());
            children_str.append("]");
        },
        None => {},
    }
    let mut r = prefix;
    r.append(usize_to_string(data.id as usize).as_str());
    r.append(") ");
    match &data.label {
        Some(l) => r.append(l.as_str()),
        None => r.append("undefined"),
    }
    r.append(children_str.as_str());
    r
}

/// The last entry with the id (entries given later replace earlier ones).
pub open spec fn data_of(es: Seq<ObjSummary>, id: u32) -> Option<ObjSummary>
    decreases es.len(),
{
    if es.len() == 0 {
        None
    } else if es.last().id == id {
        Some(es.last())
    } else {
        data_of(es.drop_last(), id)
    }
}

/// The parent of the id: that of the last entry with the id that has one.
pub open spec fn parent_of(es: Seq<ObjSummary>, id: u32) -> Option<u32>
    decreases es.len(),
{
    if es.len() == 0 {
        None
    } else if es.last().id == id && es.last().parent is Some {
        es.last().parent
    } else {
        parent_of(es.drop_last(), id)
    }
}

/// The ids among the first `n` entries whose parent (in all of `es`) is `key`, each once, in
/// order of first appearance.
pub open spec fn children_of(es: Seq<ObjSummary>, n: int, key: u32) -> Seq<u32>
    decreases n,
{
    if n <= 0 {
        Seq::empty()
    } else {
        let f = children_of(es, n - 1, key);
        let x = es[n - 1].id;
        if parent_of(es, x) == Some(key) && !f.contains(x) {
            f.push(x)
        } else {
            f
        }
    }
}

/// The ids of the entries without parent, in order.
pub open spec fn roots_of(es: Seq<ObjSummary>) -> Seq<u32> {
    es.filter(|e: ObjSummary| e.parent is None).map_values(|e: ObjSummary| e.id)
}

/// The lines of the object and, as deep as `fuel` allows, of everything below it, children in
/// increasing id order.
pub open spec fn listing(es: Seq<ObjSummary>, f: FilterView, deep: u32, key: u32, fuel: nat) -> Seq<Seq<char>>
    decreases fuel, 0nat,
{
    let d = data_of(es, key)->Some_0;
    let line = if visible(f, d) {
        seq![print_one_text(deep, d)]
    } else {
        Seq::empty()
    };
    if fuel == 0 {
        line
    } else {
        line + listing_all(es, f, (deep + 1) as u32, sort_seq(children_of(es, es.len() as int, key)), (fuel - 1) as nat)
    }
}

pub open spec fn listing_all(es: Seq<ObjSummary>, f: FilterView, deep: u32, keys: Seq<u32>, fuel: nat) -> Seq<Seq<char>>
    decreases fuel, keys.len() + 1,
{
    if keys.len() == 0 {
        Seq::empty()
    } else {
        listing_all(es, f, deep, keys.drop_last(), fuel) + listing(es, f, deep, keys.last(), fuel)
    }
}

proof fn lemma_insert_contains(s: Seq<u32>, x: u32, y: u32)
    ensures
        insert_sorted(s, x).contains(y) <==> s.contains(y) || y == x,
    decreases s.len(),
{
    if s.len() > 0 && x > s[0] {
        let t = s.drop_first();
        lemma_insert_contains(t, x, y);
        let r = insert_sorted(t, x);
        assert((seq![s[0]] + r).contains(y) <==> y == s[0] || r.contains(y)) by {
            if (seq![s[0]] + r).contains(y) && y != s[0] {
                let i = choose|i: int| 0 <= i < (seq![s[0]] + r).len() && (seq![s[0]] + r)[i] == y;
                assert(r[i - 1] == y);
            }
            if r.contains(y) {
                let i = choose|i: int| 0 <= i < r.len() && r[i] == y;
                assert((seq![s[0]] + r)[i + 1] == y);
            }
            if y == s[0] {
                assert((seq![s[0]] + r)[0] == y);
            }
        }
        assert(s.contains(y) <==> y == s[0] || t.contains(y)) by {
            if s.contains(y) && y != s[0] {
                let i = choose|i: int| 0 <= i < s.len() && s[i] == y;
                assert(t[i - 1] == y);
            }
            if t.contains(y) {
                let i = choose|i: int| 0 <= i < t.len() && t[i] == y;
                assert(s[i + 1] == y);
            }
        }
    } else {
        let r = if s.len() == 0 {
            seq![x]
        } else {
            seq![x] + s
        };
        assert(r.contains(y) <==> s.contains(y) || y == x) by {
            if r.contains(y) && y != x {
                let i = choose|i: int| 0 <= i < r.len() && r[i] == y;
                assert(s[i - 1] == y);
            }
            if s.contains(y) {
                let i = choose|i: int| 0 <= i < s.len() && s[i] == y;
                assert(r[i + 1] == y);
            }
            if y == x {
                assert(r[0] == y);
            }
        }
    }
}

proof fn lemma_sort_contains(s: Seq<u32>, y: u32)
    ensures
        sort_seq(s).contains(y) ==> s.contains(y),
    decreases s.len(),
{
    if s.len() > 0 {
        lemma_sort_contains(s.drop_last(), y);
        lemma_insert_contains(sort_seq(s.drop_last()), s.last(), y);
        if s.drop_last().contains(y) {
            let i = choose|i: int| 0 <= i < s.drop_last().len() && s.drop_last()[i] == y;
            assert(s[i] == y);
        }
        if y == s.last() {
            assert(s[s.len() - 1] == y);
        }
    }
}

proof fn lemma_children_from_entries(es: Seq<ObjSummary>, n: int, key: u32, y: u32)
    requires
        0 <= n <= es.len(),
    ensures
        children_of(es, n, key).contains(y) ==> exists|i: int| 0 <= i < n && es[i].id == y,
    decreases n,
{
    if n > 0 {
        lemma_children_from_entries(es, n - 1, key, y);
        let f = children_of(es, n - 1, key);
        let x = es[n - 1].id;
        if parent_of(es, x) == Some(key) && !f.contains(x) && f.push(x).contains(y) && y != x {
            let i = choose|i: int| 0 <= i < f.push(x).len() && f.push(x)[i] == y;
            assert(f[i] == y);
        }
    }
}

proof fn lemma_data_of_entry(es: Seq<ObjSummary>, i: int)
    requires
        0 <= i < es.len(),
    ensures
        data_of(es, es[i].id) is Some,
    decreases es.len(),
{
    if es.last().id != es[i].id {
        assert(i < es.len() - 1);
        assert(es.drop_last()[i] == es[i]);
        lemma_data_of_entry(es.drop_last(), i);
    }
}

fn find_data(es: &Vec<ObjSummary>, id: u32) -> (r: Option<&ObjSummary>)
    ensures
        match r {
            Some(d) => data_of(es@, id) == Some(*d),
            None => data_of(es@, id) is None,
        },
{
    let mut i: usize = es.len();
    proof {
        assert(es@.take(es.len() as int) =~= es@);
    }
    while i > 0
        invariant
            i <= es.len(),
            data_of(es@, id) == data_of(es@.take(i as int), id),
        decreases i,
    {
        proof {
            assert(es@.take(i as int).drop_last() =~= es@.take(i - 1));
        }
        if es[i - 1].id == id {
            return Some(&es[i - 1]);
        }
        i = i - 1;
    }
    None
}

fn parent_in(es: &Vec<ObjSummary>, id: u32) -> (r: Option<u32>)
    ensures
        r == parent_of(es@, id),
{
    let mut i: usize = es.len();
    proof {
        assert(es@.take(es.len() as int) =~= es@);
    }
    while i > 0
        invariant
            i <= es.len(),
            parent_of(es@, id) == parent_of(es@.take(i as int), id),
        decreases i,
    {
        proof {
            assert(es@.take(i as int).drop_last() =~= es@.take(i - 1));
        }
        if es[i - 1].id == id && es[i - 1].parent.is_some() {
            return es[i - 1].parent;
        }
        i = i - 1;
    }
    None
}

fn children_in(es: &Vec<ObjSummary>, key: u32) -> (r: Vec<u32>)
    ensures
        r@ == children_of(es@, es.len() as int, key),
{
    let mut r: Vec<u32> = Vec::new();
    let mut i: usize = 0;
    while i < es.len()
        invariant
            i <= es.len(),
            r@ == children_of(es@, i as int, key),
        decreases es.len() - i,
    {
        let x = es[i].id;
        if parent_in(es, x) == Some(key) && !crate::controller::contains_id(&r, x) {
            r.push(x);
        }
        i = i + 1;
    }
    r
}

fn roots_in(es: &Vec<ObjSummary>) -> (r: Vec<u32>)
    ensures
        r@ == roots_of(es@),
{
    let ghost pred = |e: ObjSummary| e.parent is None;
    let mut r: Vec<u32> = Vec::new();
    let mut i: usize = 0;
    while i < es.len()
        invariant
            i <= es.len(),
            pred == (|e: ObjSummary| e.parent is None),
            r@ == es@.take(i as int).filter(pred).map_values(|e: ObjSummary| e.id),
        decreases es.len() - i,
    {
        proof {
            assert(es@.take(i + 1) =~= es@.take(i as int).push(es@[i as int]));
            es@.take(i as int).lemma_filter_push(es@[i as int], pred);
        }
        if es[i].parent.is_none() {
            r.push(es[i].id);
            proof {
                assert(r@ =~= es@.take(i + 1).filter(pred).map_values(|e: ObjSummary| e.id));
            }
        } else {
            proof {
                assert(r@ =~= es@.take(i + 1).filter(pred).map_values(|e: ObjSummary| e.id));
            }
        }
        i = i + 1;
    }
    proof {
        assert(es@.take(es.len() as int) =~= es@);
    }
    r
}

/// Add the lines of the object and of what is below it (see `listing`).
fn print_deep(
    filters: &VecStringFilter,
    outputs: &mut Vec<String>,
    deep: u32,
    key: u32,
    es: &Vec<ObjSummary>,
    fuel: u32,
)
    requires
        data_of(es@, key) is Some,
        deep + fuel < 0x8000_0000,
    ensures
        string_views(final(outputs)@) == string_views(old(outputs)@) + listing(
            es@,
            filter_view(filters),
            deep,
            key,
            fuel as nat,
        ),
    decreases fuel,
{
    let data = find_data(es, key).unwrap();
    let ghost fv = filter_view(filters);
    let ghost start = string_views(outputs@);
    if filters.is_visible(data) {
        outputs.push(print_one(deep, data));
    }
    let ghost line = if visible(fv, *data) {
        seq![print_one_text(deep, *data)]
    } else {
        Seq::<Seq<char>>::empty()
    };
    proof {
        assert(string_views(outputs@) =~= start + line);
    }
    if fuel == 0 {
        return;
    }
    let children = children_in(es, key);
    let keys = sorted(&children);
    let mut j: usize = 0;
    while j < keys.len()
        invariant
            j <= keys.len(),
            keys@ == sort_seq(children_of(es@, es.len() as int, key)),
            fv == filter_view(filters),
            deep + fuel < 0x8000_0000,
            fuel > 0,
            string_views(outputs@) == start + line + listing_all(es@, fv, (deep + 1) as u32, keys@.take(j as int), (fuel - 1) as nat),
        decreases keys.len() - j,
    {
        let k = keys[j];
        proof {
            assert(keys@.take(j + 1).drop_last() =~= keys@.take(j as int));
            assert(keys@.contains(k)) by {
                assert(keys@[j as int] == k);
            }
            lemma_sort_contains(children_of(es@, es.len() as int, key), k);
            lemma_children_from_entries(es@, es.len() as int, key, k);
            let i = choose|i: int| 0 <= i < es.len() && es@[i].id == k;
            lemma_data_of_entry(es@, i);
        }
        print_deep(filters, outputs, deep + 1, k, es, fuel - 1);
        proof {
            assert(string_views(outputs@) =~= start + line + listing_all(es@, fv, (deep + 1) as u32, keys@.take(j + 1), (fuel - 1) as nat));
        }
        j = j + 1;
    }
    proof {
        assert(keys@.take(keys.len() as int) =~= keys@);
    }
}

/// The words after the command word of the admin listing.
pub open spec fn list_args(input: Seq<char>) -> Seq<Seq<char>> {
    crate::controller::input_handle_items::command_args(input)
}

/// What the admin listing adds for one part: a blank line, a title, and the lines of each root
/// and what is below it, roots in increasing id order.
pub open spec fn list_part(title: Seq<char>, es: Seq<ObjSummary>, roots: Seq<ObjSummary>, fv: FilterView) -> Seq<Seq<char>> {
    seq![Seq::<char>::empty(), title] + listing_all(es, fv, 0, sort_seq(roots_of(roots)), es.len() as nat)
}

/// The admin listing of the objects and prefabs given: "p" lists only the prefabs, "o" only the
/// objects; the other words filter (see `VecStringFilter`). Every object and prefab is listed
/// under its parent, the objects first and the prefabs after them replacing their data.
pub fn handle_list(objects: Vec<ObjSummary>, prefabs: Vec<ObjSummary>, outputs: &mut Vec<String>, input: StrInput) -> (r: Result<(), crate::errors::Error>)
    requires
        objects.len() + prefabs.len() < 0x8000_0000,
    ensures
        r is Ok,
        ({
            let a = list_args(input.0@);
            let only_prefabs = a.len() > 0 && a[0] == "p"@;
            let only_objects = a.len() > 0 && a[0] == "o"@;
            let rest = if only_prefabs || only_objects {
                a.drop_first()
            } else {
                a
            };
            let fv = filter_of(rest);
            let es = objects@ + prefabs@;
            string_views(final(outputs)@) == string_views(old(outputs)@) + if !only_objects {
                list_part("Prefabs:"@, es, prefabs@, fv)
            } else {
                Seq::empty()
            } + if !only_prefabs {
                list_part("Objects:"@, es, objects@, fv)
            } else {
                Seq::empty()
            }
        }),
{
    let roots_objects = sorted(&roots_in(&objects));
    let roots_prefabs = sorted(&roots_in(&prefabs));
    let ghost objs = objects@;
    let ghost pres = prefabs@;
    let mut es = objects;
    let mut others = prefabs;
    es.append(&mut others);
    let words = input.parse_arguments();
    let mut args: Vec<String> = Vec::new();
    let mut w: usize = 0;
    while w < words.len()
        invariant
            w <= words.len(),
            string_views(args@) == crate::utils::strinput::views(words@).take(w as int),
        decreases words.len() - w,
    {
        args.push(String::from_str(words[w]));
        proof {
            assert(crate::utils::strinput::views(words@).take(w + 1) =~= crate::utils::strinput::views(words@).take(
                w as int,
            ).push(words@[w as int]@));
            assert(string_views(args@) =~= crate::utils::strinput::views(words@).take(w + 1));
        }
        w = w + 1;
    }
    proof {
        assert(crate::utils::strinput::views(words@).take(words.len() as int) =~= crate::utils::strinput::views(words@));
        assert(string_views(args@) == list_args(input.0@));
    }
    let mut show_prefabs = true;
    let mut show_objects = true;
    proof {
        reveal_strlit("p");
        reveal_strlit("o");
        if args.len() > 0 {
            assert(string_views(args@)[0] == args@[0]@);
        }
    }
    let ghost a = list_args(input.0@);
    let ghost only_p = a.len() > 0 && a[0] == "p"@;
    let ghost only_o = a.len() > 0 && a[0] == "o"@;
    if args.len() > 0 {
        if str_eq(args[0].as_str(), "p") {
            show_objects = false;
            proof {
                assert("p"@[0] != "o"@[0]);
                assert(only_p && !only_o);
            }
            args.remove(0);
        } else if str_eq(args[0].as_str(), "o") {
            show_prefabs = false;
            proof {
                assert(only_o && !only_p);
            }
            args.remove(0);
        } else {
            proof {
                assert(!only_o && !only_p);
            }
        }
    }
    proof {
        assert(show_prefabs == !only_o);
        assert(show_objects == !only_p);
    }
    proof {
        let a = list_args(input.0@);
        if a.len() > 0 && (a[0] == "p"@ || a[0] == "o"@) {
            assert(string_views(args@) =~= a.drop_first());
        }
    }
    let filters = VecStringFilter::new(args);
    let fuel: u32 = es.len() as u32;
    if show_prefabs {
        let ghost before_part = string_views(outputs@);
        outputs.push(String::new());
        outputs.push(String::from_str("Prefabs:"));
        proof {
            assert(string_views(outputs@) =~= before_part + seq![Seq::<char>::empty(), "Prefabs:"@]);
        }
        let roots = roots_prefabs;
        let mut j: usize = 0;
        let ghost start = string_views(outputs@);
        while j < roots.len()
            invariant
                j <= roots.len(),
                es@ == objs + pres,
                fuel == es.len(),
                fuel < 0x8000_0000,
                roots@ == sort_seq(roots_of(pres)),
                string_views(outputs@) == start + listing_all(es@, filter_view(&filters), 0, roots@.take(j as int), fuel as nat),
            decreases roots.len() - j,
        {
            let k = roots[j];
            proof {
                assert(roots@.take(j + 1).drop_last() =~= roots@.take(j as int));
                assert(roots@.contains(k)) by {
                    assert(roots@[j as int] == k);
                }
                lemma_sort_contains(roots_of(pres), k);
                lemma_roots_from_entries(pres, k);
                let i = choose|i: int| 0 <= i < pres.len() && pres[i].id == k;
                assert(es@[objs.len() + i] == pres[i]);
                lemma_data_of_entry(es@, objs.len() + i);
            }
            print_deep(&filters, outputs, 0, k, &es, fuel);
            proof {
                assert(string_views(outputs@) =~= start + listing_all(es@, filter_view(&filters), 0, roots@.take(j + 1), fuel as nat));
            }
            j = j + 1;
        }
        proof {
            assert(roots@.take(roots.len() as int) =~= roots@);
            assert(string_views(outputs@) =~= before_part + list_part("Prefabs:"@, es@, pres, filter_view(&filters)));
        }
    }
    let ghost mid = string_views(outputs@);
    if show_objects {
        let ghost before_part = string_views(outputs@);
        outputs.push(String::new());
        outputs.push(String::from_str("Objects:"));
        proof {
            assert(string_views(outputs@) =~= before_part + seq![Seq::<char>::empty(), "Objects:"@]);
        }
        let roots = roots_objects;
        let mut j: usize = 0;
        let ghost start = string_views(outputs@);
        while j < roots.len()
            invariant
                j <= roots.len(),
                es@ == objs + pres,
                fuel == es.len(),
                fuel < 0x8000_0000,
                roots@ == sort_seq(roots_of(objs)),
                string_views(outputs@) == start + listing_all(es@, filter_view(&filters), 0, roots@.take(j as int), fuel as nat),
            decreases roots.len() - j,
        {
            let k = roots[j];
            proof {
                assert(roots@.take(j + 1).drop_last() =~= roots@.take(j as int));
                assert(roots@.contains(k)) by {
                    assert(roots@[j as int] == k);
                }
                lemma_sort_contains(roots_of(objs), k);
                lemma_roots_from_entries(objs, k);
                let i = choose|i: int| 0 <= i < objs.len() && objs[i].id == k;
                assert(es@[i] == objs[i]);
                lemma_data_of_entry(es@, i);
            }
            print_deep(&filters, outputs, 0, k, &es, fuel);
            proof {
                assert(string_views(outputs@) =~= start + listing_all(es@, filter_view(&filters), 0, roots@.take(j + 1), fuel as nat));
            }
            j = j + 1;
        }
        proof {
            assert(roots@.take(roots.len() as int) =~= roots@);
            assert(string_views(outputs@) =~= before_part + list_part("Objects:"@, es@, objs, filter_view(&filters)));
        }
    }
    proof {
        let a = list_args(input.0@);
        let only_prefabs = a.len() > 0 && a[0] == "p"@;
        let only_objects = a.len() > 0 && a[0] == "o"@;
        assert(show_prefabs == !only_objects);
        assert(show_objects == !only_prefabs);
        assert(string_views(outputs@) =~= string_views(old(outputs)@) + (if !only_objects {
            list_part("Prefabs:"@, es@, pres, filter_view(&filters))
        } else {
            Seq::empty()
        }) + (if !only_prefabs {
            list_part("Objects:"@, es@, objs, filter_view(&filters))
        } else {
            Seq::empty()
        }));
    }
    Ok(())
}

proof fn lemma_roots_from_entries(es: Seq<ObjSummary>, k: u32)
    ensures
        roots_of(es).contains(k) ==> exists|i: int| 0 <= i < es.len() && es[i].id == k,
{
    let pred = |e: ObjSummary| e.parent is None;
    if roots_of(es).contains(k) {
        let j = choose|j: int| 0 <= j < roots_of(es).len() && roots_of(es)[j] == k;
        let e = es.filter(pred)[j];
        assert(es.filter(pred).contains(e));
        es.lemma_filter_contains_rev(pred, e);
        let i = choose|i: int| 0 <= i < es.len() && es[i] == e;
        assert(es[i].id == k);
    }
}

pub open spec fn is_digit(c: char) -> bool {
    '0' <= c && c <= '9'
}

/// The value of decimal digits.
pub open spec fn digits_value(s: Seq<char>) -> nat
    decreases s.len(),
{
    if s.len() == 0 {
        0
    } else {
        digits_value(s.drop_last()) * 10 + (s.last() as nat - '0' as nat) as nat
    }
}

pub open spec fn all_digits(d: Seq<char>) -> bool {
    forall|i: int| 0 <= i < d.len() ==> is_digit(#[trigger] d[i])
}

/// `s` without a leading "+".
pub open spec fn unsigned_part(s: Seq<char>) -> Seq<char> {
    if s.len() > 0 && s[0] == '+' {
        s.drop_first()
    } else {
        s
    }
}

/// A number as `u32::from_str` reads it: an optional "+" and at least one decimal digit, of a
/// value that fits.
pub open spec fn parsed_u32(s: Seq<char>) -> Option<u32> {
    let d = unsigned_part(s);
    if d.len() > 0 && all_digits(d) && digits_value(d) <= u32::MAX {
        Some(digits_value(d) as u32)
    } else {
        None
    }
}

proof fn lemma_digits_value_grows(s: Seq<char>, n: int)
    requires
        0 <= n <= s.len(),
        forall|i: int| 0 <= i < s.len() ==> is_digit(#[trigger] s[i]),
    ensures
        digits_value(s.take(n)) <= digits_value(s),
    decreases s.len() - n,
{
    if n < s.len() {
        lemma_digits_value_grows(s, n + 1);
        assert(s.take(n + 1).drop_last() =~= s.take(n));
    } else {
        assert(s.take(n) =~= s);
    }
}

/// Read a number (see `parsed_u32`).
pub fn parse_u32(s: &str) -> (r: Option<u32>)
    ensures
        r == parsed_u32(s@),
{
    let cs = str_chars(s);
    let mut start: usize = 0;
    if cs.len() > 0 && cs[0] == '+' {
        start = 1;
    }
    let ghost d = unsigned_part(s@);
    proof {
        assert(d =~= cs@.skip(start as int));
    }
    if start >= cs.len() {
        proof {
            assert(d.len() == 0);
        }
        return None;
    }
    let mut value: u64 = 0;
    let mut i: usize = start;
    while i < cs.len()
        invariant
            cs@ == s@,
            start <= i <= cs.len(),
            d == cs@.skip(start as int),
            d == unsigned_part(s@),
            forall|k: int| 0 <= k < i - start ==> is_digit(#[trigger] d[k]),
            value == digits_value(d.take(i - start)),
            value <= u32::MAX,
        decreases cs.len() - i,
    {
        let c = cs[i];
        if !('0' <= c && c <= '9') {
            proof {
                assert(!is_digit(d[i - start]));
                assert(!all_digits(d));
            }
            return None;
        }
        let digit: u64 = (c as u32 - '0' as u32) as u64;
        let next: u64 = value * 10 + digit;
        proof {
            assert(d.take(i - start + 1).drop_last() =~= d.take(i - start));
            assert(d[i - start] == c);
        }
        if next > 0xffff_ffff {
            proof {
                if all_digits(d) {
                    lemma_digits_value_grows(d, i - start + 1);
                }
            }
            return None;
        }
        value = next;
        i = i + 1;
    }
    proof {
        assert(d.take(d.len() as int) =~= d);
    }
    Some(value as u32)
}

proof fn lemma_decimal_digits(n: nat)
    ensures
        decimal(n).len() > 0,
        all_digits(decimal(n)),
        digits_value(decimal(n)) == n,
    decreases n,
{
    let d = decimal(n);
    if n < 10 {
        assert(d == seq![crate::utils::text::digit(n)]);
        assert(d.drop_last() =~= Seq::<char>::empty());
        assert(crate::utils::text::digit(n) as nat == n + 48);
        assert(d.last() == crate::utils::text::digit(n));
        assert(digits_value(d) == digits_value(d.drop_last()) * 10 + (d.last() as nat - '0' as nat) as nat);
        assert(digits_value(Seq::<char>::empty()) == 0);
    } else {
        lemma_decimal_digits(n / 10);
        let p = decimal(n / 10);
        assert(d == p.push(crate::utils::text::digit(n % 10)));
        assert(d.drop_last() =~= p);
        assert(crate::utils::text::digit(n % 10) as nat == n % 10 + 48);
        assert(d.last() == crate::utils::text::digit(n % 10));
        assert(digits_value(d) == digits_value(p) * 10 + (d.last() as nat - '0' as nat) as nat);
        assert((n / 10) * 10 + n % 10 == n) by (nonlinear_arith);
        assert forall|i: int| 0 <= i < d.len() implies is_digit(#[trigger] d[i]) by {
            if i < p.len() {
                assert(d[i] == p[i]);
            }
        }
    }
}

/// Law: reading back the decimal writing of a number gives the number, so the ids the admin
/// view writes can be typed back.
pub proof fn parse_reads_back_decimal(n: u32)
    ensures
        parsed_u32(decimal(n as nat)) == Some(n),
{
    lemma_decimal_digits(n as nat);
    let d = decimal(n as nat);
    assert(is_digit(d[0]));
    assert(unsigned_part(d) == d);
}

/// The admin commands that need the prefabs or the data format, which the program around the
/// library carries out.
#[derive(Debug, Clone, Copy, PartialEq, Eq, Structural)]
pub enum AdminCommand {
    List,
    Get,
    Add,
    Verify,
    Spawn,
}

/// What handling an admin line gives: an action for the connection, or a command for the
/// program around the library.
#[derive(Debug, Clone, Copy, PartialEq, Eq, Structural)]
pub enum AdminOutcome {
    Action(ConnectionViewAction),
    Pending(AdminCommand),
}

/// The first argument of the line, read as an id.
pub open spec fn remove_target(input: Seq<char>) -> Option<u32> {
    let a = crate::controller::input_handle_items::command_args(input);
    if a.len() > 0 {
        parsed_u32(a[0])
    } else {
        None
    }
}

/// What removing an object from the admin view does (see `handle_remove`).
pub open spec fn removed_by_admin(c: &Container, f: &Container, o1: Seq<Seq<char>>, o2: Seq<Seq<char>>, input: Seq<char>) -> bool {
    match remove_target(input) {
        None => o2 == o1.push("invalid number argument"@) && *f == *c,
        Some(id) => if children(c.locations@, id).len() > 0 {
            o2 == o1.push("could not remove object with children"@) && *f == *c
        } else {
            o2 == o1.push("object "@ + decimal(id as nat) + " removed"@) && crate::game::inventory_service::removed(
                c,
                f,
                id,
            )
        },
    }
}

/// Remove an object that has nothing located at it.
pub fn handle_remove(container: &mut Container, outputs: &mut Vec<String>, input: StrInput) -> (r: Result<(), Error>)
    requires
        old(container).wf(),
    ensures
        final(container).wf(),
        r is Ok,
        removed_by_admin(old(container), final(container), string_views(old(outputs)@), string_views(final(outputs)@), input.0@),
{
    let args = input.parse_arguments();
    proof {
        assert(crate::utils::strinput::views(args@) == crate::controller::input_handle_items::command_args(input.0@));
        if args.len() > 0 {
            assert(crate::utils::strinput::views(args@)[0] == args@[0]@);
        }
    }
    let parsed = if args.len() > 0 {
        parse_u32(args[0])
    } else {
        None
    };
    let id = match parsed {
        Some(id) => ObjId(id),
        None => {
            outputs.push(String::from_str("invalid number argument"));
            proof {
                assert(string_views(outputs@) =~= string_views(old(outputs)@).push("invalid number argument"@));
            }
            return Ok(());
        },
    };
    let list = container.locations.list_at(id);
    proof {
        vstd::seq_lib::seq_to_set_is_finite(crate::game::location::obj_values(list@));
        if list.len() > 0 {
            assert(crate::game::location::obj_values(list@)[0] == list@[0].0);
            assert(crate::game::location::obj_values(list@).contains(list@[0].0));
            assert(crate::game::location::obj_values(list@).to_set().contains(list@[0].0));
            assert(children(container.locations@, id.0).contains(list@[0].0));
        } else {
            assert(crate::game::location::obj_values(list@).to_set() =~= Set::<u32>::empty());
        }
    }
    if list.len() > 0 {
        outputs.push(String::from_str("could not remove object with children"));
        proof {
            assert(string_views(outputs@) =~= string_views(old(outputs)@).push("could not remove object with children"@));
        }
        return Ok(());
    }
    container.remove(id);
    let mut msg = String::from_str("object ");
    msg.append(usize_to_string(id.0 as usize).as_str());
    msg.append(" removed");
    outputs.push(msg);
    proof {
        assert(string_views(outputs@) =~= string_views(old(outputs)@).push("object "@ + decimal(id.0 as nat) + " removed"@));
    }
    Ok(())
}

pub open spec fn admin_help_text() -> Seq<Seq<char>> {
    seq!["Available commands:"@, "list get update remove spawn exit"@, Seq::empty()]
}

/// What handling a line in the admin view does (see `handle`).
pub open spec fn admin_handled(
    c: &Container,
    f: &Container,
    o1: Seq<Seq<char>>,
    o2: Seq<Seq<char>>,
    input: Seq<char>,
    r: Result<AdminOutcome, Error>,
) -> bool {
    let cmd = crate::controller::view_main::first_word(input);
    let none = Ok::<AdminOutcome, Error>(AdminOutcome::Action(ConnectionViewAction::NoAction));
    if cmd == "help"@ {
        r == none && o2 == o1 + admin_help_text() && *f == *c
    } else if cmd == "list"@ || cmd == "ls"@ {
        r == Ok::<AdminOutcome, Error>(AdminOutcome::Pending(AdminCommand::List)) && o2 == o1 && *f == *c
    } else if cmd == "get"@ || cmd == "g"@ {
        r == Ok::<AdminOutcome, Error>(AdminOutcome::Pending(AdminCommand::Get)) && o2 == o1 && *f == *c
    } else if cmd == "add"@ {
        r == Ok::<AdminOutcome, Error>(AdminOutcome::Pending(AdminCommand::Add)) && o2 == o1 && *f == *c
    } else if cmd == "remove"@ {
        r == none && removed_by_admin(c, f, o1, o2, input)
    } else if cmd == "update"@ {
        r == none && o2 == o1 && *f == *c
    } else if cmd == "verify"@ {
        r == Ok::<AdminOutcome, Error>(AdminOutcome::Pending(AdminCommand::Verify)) && o2 == o1 && *f == *c
    } else if cmd == "spawn"@ {
        r == Ok::<AdminOutcome, Error>(AdminOutcome::Pending(AdminCommand::Spawn)) && o2 == o1 && *f == *c
    } else if cmd == "exit"@ {
        r == Ok::<AdminOutcome, Error>(AdminOutcome::Action(ConnectionViewAction::SwitchView(ConnectionView::Game)))
            && o2 == o1 && *f == *c
    } else {
        r == none && o2 == o1.push("unknown command ["@ + input + "]"@) && *f == *c
    }
}

/// Handle a line in the admin view (see `admin_handled`).
pub fn handle(container: &mut Container, outputs: &mut Vec<String>, input: &str) -> (r: Result<AdminOutcome, Error>)
    requires
        old(container).wf(),
    ensures
        final(container).wf(),
        admin_handled(old(container), final(container), string_views(old(outputs)@), string_views(final(outputs)@), input@, r),
{
    let line = StrInput(input);
    let command = line.get_command();
    proof {
        assert(command@ == crate::controller::view_main::first_word(input@));
    }
    let none = Ok(AdminOutcome::Action(ConnectionViewAction::NoAction));
    if str_eq(command, "help") {
        outputs.push(String::from_str("Available commands:"));
        outputs.push(String::from_str("list get update remove spawn exit"));
        outputs.push(String::new());
        proof {
            assert(string_views(outputs@) =~= string_views(old(outputs)@) + admin_help_text());
        }
        none
    } else if str_eq(command, "list") || str_eq(command, "ls") {
        Ok(AdminOutcome::Pending(AdminCommand::List))
    } else if str_eq(command, "get") || str_eq(command, "g") {
        Ok(AdminOutcome::Pending(AdminCommand::Get))
    } else if str_eq(command, "add") {
        Ok(AdminOutcome::Pending(AdminCommand::Add))
    } else if str_eq(command, "remove") {
        handle_remove(container, outputs, line)?;
        none
    } else if str_eq(command, "update") {
        none
    } else if str_eq(command, "verify") {
        Ok(AdminOutcome::Pending(AdminCommand::Verify))
    } else if str_eq(command, "spawn") {
        Ok(AdminOutcome::Pending(AdminCommand::Spawn))
    } else if str_eq(command, "exit") {
        Ok(AdminOutcome::Action(ConnectionViewAction::SwitchView(ConnectionView::Game)))
    } else {
        let mut msg = String::from_str("unknown command [");
        msg.append(input);
        msg.append("]");
        outputs.push(msg);
        proof {
            assert(string_views(outputs@) =~= string_views(old(outputs)@).push("unknown command ["@ + input@ + "]"@));
        }
        none
    }
}

/// What the `get` command asks for: a prefab or an object, by id.
#[derive(Debug, Clone, Copy, PartialEq, Eq, Structural)]
pub enum GetTarget {
    Prefab(StaticId),
    Object(ObjId),
}

/// What reading the arguments of the `get` command gives and answers (see `get_request`).
pub open spec fn get_request_done(o1: Seq<Seq<char>>, o2: Seq<Seq<char>>, input: Seq<char>, r: Option<GetTarget>) -> bool {
    let a = crate::controller::input_handle_items::command_args(input);
    if a.len() < 2 {
        r is None && o2 == o1.push("invalid number argument"@)
    } else {
        match parsed_u32(a[1]) {
            None => r is None && o2 == o1.push("invalid id "@ + debug_str_text(a[1])),
            Some(id) => if a[0] == "p"@ {
                r == Some(GetTarget::Prefab(StaticId(id))) && o2 == o1
            } else if a[0] == "o"@ {
                r == Some(GetTarget::Object(ObjId(id))) && o2 == o1
            } else {
                r is None && o2 == o1.push(
                    "invalid type "@ + debug_str_text(a[0]) + ", only p (prefab) and o (object) are supported"@,
                )
            },
        }
    }
}

/// Read the arguments of the `get` command, `p` or `o` and an id, telling what is wrong with
/// them (see `get_request_done`).
pub fn get_request(outputs: &mut Vec<String>, input: StrInput) -> (r: Option<GetTarget>)
    ensures
        get_request_done(string_views(old(outputs)@), string_views(final(outputs)@), input.0@, r),
{
    let args = input.parse_arguments();
    proof {
        assert(crate::utils::strinput::views(args@) == crate::controller::input_handle_items::command_args(input.0@));
    }
    if args.len() < 2 {
        outputs.push(String::from_str("invalid number argument"));
        proof {
            assert(string_views(outputs@) =~= string_views(old(outputs)@).push("invalid number argument"@));
        }
        return None;
    }
    proof {
        assert(crate::utils::strinput::views(args@)[0] == args@[0]@);
        assert(crate::utils::strinput::views(args@)[1] == args@[1]@);
    }
    let id = match parse_u32(args[1]) {
        Some(id) => id,
        None => {
            let mut msg = String::from_str("invalid id ");
            msg.append(debug_str(args[1]).as_str());
            outputs.push(msg);
            proof {
                assert(string_views(outputs@) =~= string_views(old(outputs)@).push("invalid id "@ + debug_str_text(args@[1]@)));
            }
            return None;
        },
    };
    if str_eq(args[0], "p") {
        Some(GetTarget::Prefab(StaticId(id)))
    } else if str_eq(args[0], "o") {
        Some(GetTarget::Object(ObjId(id)))
    } else {
        let mut msg = String::from_str("invalid type ");
        msg.append(debug_str(args[0]).as_str());
        msg.append(", only p (prefab) and o (object) are supported");
        outputs.push(msg);
        proof {
            assert(string_views(outputs@) =~= string_views(old(outputs)@).push(
                "invalid type "@ + debug_str_text(args@[0]@) + ", only p (prefab) and o (object) are supported"@,
            ));
        }
        None
    }
}

/// What reading the arguments of the `spawn` command gives and answers (see `spawn_request`).
pub open spec fn spawn_request_done(
    o1: Seq<Seq<char>>,
    o2: Seq<Seq<char>>,
    input: Seq<char>,
    r: Option<(StaticId, ObjId)>,
) -> bool {
    let a = crate::controller::input_handle_items::command_args(input);
    if a.len() >= 2 && parsed_u32(a[0]) is Some && parsed_u32(a[1]) is Some {
        r == Some((StaticId(parsed_u32(a[0])->0), ObjId(parsed_u32(a[1])->0))) && o2 == o1
    } else {
        r is None && o2 == o1.push("invalid arguments "@ + debug_strs_text(a)).push(
            "spawn <static_id> <parent_obj_id>"@,
        )
    }
}

/// Read the arguments of the `spawn` command, a prefab id and the id of the object to spawn
/// it in, telling how to write them where they are wrong (see `spawn_request_done`).
pub fn spawn_request(outputs: &mut Vec<String>, input: StrInput) -> (r: Option<(StaticId, ObjId)>)
    ensures
        spawn_request_done(string_views(old(outputs)@), string_views(final(outputs)@), input.0@, r),
{
    let args = input.parse_arguments();
    proof {
        assert(crate::utils::strinput::views(args@) == crate::controller::input_handle_items::command_args(input.0@));
        if args.len() >= 2 {
            assert(crate::utils::strinput::views(args@)[0] == args@[0]@);
            assert(crate::utils::strinput::views(args@)[1] == args@[1]@);
        }
    }
    let static_id = if args.len() > 0 {
        parse_u32(args[0])
    } else {
        None
    };
    let parent_id = if args.len() > 1 {
        parse_u32(args[1])
    } else {
        None
    };
    match (static_id, parent_id) {
        (Some(static_id), Some(parent_id)) => Some((StaticId(static_id), ObjId(parent_id))),
        _ => {
            let mut msg = String::from_str("invalid arguments ");
            msg.append(debug_strs(&args).as_str());
            outputs.push(msg);
            outputs.push(String::from_str("spawn <static_id> <parent_obj_id>"));
            proof {
                assert(crate::utils::text::str_seq_views(args@) =~= crate::utils::strinput::views(args@));
                assert(string_views(outputs@) =~= string_views(old(outputs)@).push(
                    "invalid arguments "@ + debug_strs_text(crate::controller::input_handle_items::command_args(input.0@)),
                ).push("spawn <static_id> <parent_obj_id>"@));
            }
            None
        },
    }
}

/// What reading the arguments of the `add` command gives and answers (see `add_request`).
pub open spec fn add_request_done(o1: Seq<Seq<char>>, o2: Seq<Seq<char>>, input: Seq<char>, r: Option<(bool, Seq<char>)>) -> bool {
    let p = crate::utils::strinput::arguments_text(input);
    let is_prefab = p.len() >= 2 && p.take(2) == "p "@;
    let is_obj = p.len() >= 2 && p.take(2) == "o "@;
    if is_prefab || is_obj {
        r == Some((is_prefab, p.skip(2))) && o2 == o1
    } else {
        r is None && o2 == o1.push("you need to specific p or o as first argument"@)
    }
}

/// Read the arguments of the `add` command: whether a prefab (`p`) or an object (`o`) is
/// added, and the data that follows (see `add_request_done`).
pub fn add_request<'a>(outputs: &mut Vec<String>, input: StrInput<'a>) -> (r: Option<(bool, &'a str)>)
    ensures
        add_request_done(
            string_views(old(outputs)@),
            string_views(final(outputs)@),
            input.0@,
            match r {
                Some((b, json)) => Some((b, json@)),
                None => None,
            },
        ),
{
    let plains = input.plain_arguments();
    let cs = str_chars(plains);
    let starts = cs.len() >= 2 && cs[1] == ' ';
    let is_prefab = starts && cs[0] == 'p';
    let is_obj = starts && cs[0] == 'o';
    proof {
        reveal_strlit("p ");
        reveal_strlit("o ");
        assert("p "@ =~= seq!['p', ' ']);
        assert("o "@ =~= seq!['o', ' ']);
        if cs.len() >= 2 {
            assert(cs@.take(2) =~= seq![cs@[0], cs@[1]]);
            assert((cs@.take(2) == "p "@) <==> (cs@[0] == 'p' && cs@[1] == ' ')) by {
                if cs@.take(2) == "p "@ {
                    assert(cs@.take(2)[0] == 'p' && cs@.take(2)[1] == ' ');
                }
            }
            assert((cs@.take(2) == "o "@) <==> (cs@[0] == 'o' && cs@[1] == ' ')) by {
                if cs@.take(2) == "o "@ {
                    assert(cs@.take(2)[0] == 'o' && cs@.take(2)[1] == ' ');
                }
            }
        }
    }
    if !is_prefab && !is_obj {
        outputs.push(String::from_str("you need to specific p or o as first argument"));
        proof {
            assert(string_views(outputs@) =~= string_views(old(outputs)@).push("you need to specific p or o as first argument"@));
        }
        return None;
    }
    let json = plains.substring_char(2, cs.len());
    proof {
        assert(plains@.subrange(2, cs.len() as int) =~= plains@.skip(2));
    }
    Some((is_prefab, json))
}

} // verus!
