use vstd::prelude::*;
use vstd::string::StrSliceExecFns;
use vstd::string::StringExecFns;

verus! {

broadcast use vstd::string::group_string_axioms;

/// The characters of a string slice, in order.
pub fn str_chars(s: &str) -> (r: Vec<char>)
    ensures
        r@ == s@,
{
    let mut r: Vec<char> = Vec::new();
    for c in it: s.chars()
        invariant
            r@ == it.seq().take(it.index() as int),
            it.seq() == s@,
    {
        r.push(c);
    }
    proof {
        assert(r@ =~= s@);
    }
    r
}

/// Whether two string slices hold the same characters.
pub fn str_eq(a: &str, b: &str) -> (r: bool)
    ensures
        r == (a@ == b@),
{
    let ca = str_chars(a);
    let cb = str_chars(b);
    chars_eq(&ca, &cb)
}

/// Whether two character vectors are equal.
pub fn chars_eq(a: &Vec<char>, b: &Vec<char>) -> (r: bool)
    ensures
        r == (a@ == b@),
{
    if a.len() != b.len() {
        return false;
    }
    let mut i: usize = 0;
    while i < a.len()
        invariant
            a.len() == b.len(),
            i <= a.len(),
            forall|k: int| 0 <= k < i ==> a@[k] == b@[k],
        decreases a.len() - i,
    {
        if a[i] != b[i] {
            return false;
        }
        i = i + 1;
    }
    proof {
        assert(a@ =~= b@);
    }
    true
}

/// Lower case of an ASCII upper case letter, any other character unchanged.
pub open spec fn lower(c: char) -> char {
    if 'A' <= c && c <= 'Z' {
        ((c as u32) + 32) as char
    } else {
        c
    }
}

pub open spec fn lower_seq(s: Seq<char>) -> Seq<char> {
    s.map_values(|c: char| lower(c))
}

pub fn lower_char(c: char) -> (r: char)
    ensures
        r == lower(c),
{
    if c >= 'A' && c <= 'Z' {
        let b: u8 = c as u8;
        let l: u8 = b + 32;
        l as char
    } else {
        c
    }
}


/// Texts are equal ignoring ASCII letter case.
pub open spec fn text_eq(a: Seq<char>, b: Seq<char>) -> bool {
    lower_seq(a) == lower_seq(b)
}

/// The first text starts with the second one, ignoring ASCII letter case.
pub open spec fn text_like(a: Seq<char>, b: Seq<char>) -> bool {
    b.len() <= a.len() && lower_seq(a).take(b.len() as int) == lower_seq(b)
}

/// Whether the lower case of `a` from index 0 agrees with the lower case of `b` on `n` characters.
fn lower_prefix_eq(a: &Vec<char>, b: &Vec<char>, n: usize) -> (r: bool)
    requires
        n <= a.len(),
        n <= b.len(),
    ensures
        r == (lower_seq(a@).take(n as int) == lower_seq(b@).take(n as int)),
{
    let mut i: usize = 0;
    while i < n
        invariant
            n <= a.len(),
            n <= b.len(),
            i <= n,
            forall|k: int| 0 <= k < i ==> lower(a@[k]) == lower(b@[k]),
        decreases n - i,
    {
        if lower_char(a[i]) != lower_char(b[i]) {
            proof {
                assert(lower_seq(a@).take(n as int)[i as int] != lower_seq(b@).take(n as int)[i as int]);
            }
            return false;
        }
        i = i + 1;
    }
    proof {
        assert(lower_seq(a@).take(n as int) =~= lower_seq(b@).take(n as int));
    }
    true
}

/// Compare two texts ignoring ASCII letter case.
pub fn is_text_eq(a: &str, b: &str) -> (r: bool)
    ensures
        r == text_eq(a@, b@),
{
    let ca = str_chars(a);
    let cb = str_chars(b);
    if ca.len() != cb.len() {
        return false;
    }
    let r = lower_prefix_eq(&ca, &cb, ca.len());
    proof {
        assert(lower_seq(ca@).take(ca.len() as int) =~= lower_seq(ca@));
        assert(lower_seq(cb@).take(cb.len() as int) =~= lower_seq(cb@));
    }
    r
}

/// Whether `a` starts with `b`, ignoring ASCII letter case.
pub fn is_text_like(a: &str, b: &str) -> (r: bool)
    ensures
        r == text_like(a@, b@),
{
    let ca = str_chars(a);
    let cb = str_chars(b);
    if cb.len() > ca.len() {
        return false;
    }
    let r = lower_prefix_eq(&ca, &cb, cb.len());
    proof {
        assert(lower_seq(cb@).take(cb.len() as int) =~= lower_seq(cb@));
        assert(lower_seq(ca@).take(cb.len() as int) =~= lower_seq(ca@).take(cb.len() as int));
    }
    r
}


pub open spec fn digit(d: nat) -> char {
    ((d + 48) as u32) as char
}

/// Decimal writing of a natural number, without leading zeros.
pub open spec fn decimal(n: nat) -> Seq<char>
    decreases n,
{
    if n < 10 {
        seq![digit(n)]
    } else {
        decimal(n / 10).push(digit(n % 10))
    }
}

/// The text of one decimal digit.
fn digit_str(d: usize) -> (r: &'static str)
    requires
        d < 10,
    ensures
        r@ == seq![digit(d as nat)],
{
    proof {
        reveal_strlit("0");
        reveal_strlit("1");
        reveal_strlit("2");
        reveal_strlit("3");
        reveal_strlit("4");
        reveal_strlit("5");
        reveal_strlit("6");
        reveal_strlit("7");
        reveal_strlit("8");
        reveal_strlit("9");
    }
    if d == 0 {
        "0"
    } else if d == 1 {
        "1"
    } else if d == 2 {
        "2"
    } else if d == 3 {
        "3"
    } else if d == 4 {
        "4"
    } else if d == 5 {
        "5"
    } else if d == 6 {
        "6"
    } else if d == 7 {
        "7"
    } else if d == 8 {
        "8"
    } else {
        "9"
    }
}

/// The decimal writing of the number, as `to_string` gives it.
pub fn usize_to_string(n: usize) -> (r: String)
    ensures
        r@ == decimal(n as nat),
    decreases n,
{
    if n < 10 {
        String::from_str(digit_str(n))
    } else {
        let mut r = usize_to_string(n / 10);
        r.append(digit_str(n % 10));
        r
    }
}

/// What `{:?}` writes of a string: the string in double quotes, its special characters escaped.
pub uninterp spec fn debug_str_text(s: Seq<char>) -> Seq<char>;

/// `<str as Debug>::fmt`, through `format!("{:?}", ..)`: the text is named `debug_str_text`.
#[verifier::external_body]
pub fn debug_str(s: &str) -> (r: String)
    ensures
        r@ == debug_str_text(s@),
{
    format!("{:?}", s)
}

/// The items of a list as `{:?}` writes them: each as `debug_str_text` writes it, with ", "
/// between each two.
pub open spec fn debug_items(v: Seq<Seq<char>>) -> Seq<char>
    decreases v.len(),
{
    if v.len() == 0 {
        Seq::empty()
    } else if v.len() == 1 {
        debug_str_text(v[0])
    } else {
        debug_items(v.drop_last()) + ", "@ + debug_str_text(v.last())
    }
}

/// What `{:?}` writes of a list of strings: its items between brackets.
pub open spec fn debug_strs_text(v: Seq<Seq<char>>) -> Seq<char> {
    "["@ + debug_items(v) + "]"@
}

pub open spec fn str_seq_views(v: Seq<&str>) -> Seq<Seq<char>> {
    v.map_values(|x: &str| x@)
}

/// A list of strings as `{:?}` writes it (see `debug_strs_text`).
pub fn debug_strs(v: &Vec<&str>) -> (r: String)
    ensures
        r@ == debug_strs_text(str_seq_views(v@)),
{
    let mut r = String::from_str("[");
    let mut i: usize = 0;
    while i < v.len()
        invariant
            i <= v.len(),
            r@ == "["@ + debug_items(str_seq_views(v@).take(i as int)),
        decreases v.len() - i,
    {
        let ghost before = str_seq_views(v@).take(i as int);
        let ghost after = str_seq_views(v@).take(i + 1);
        proof {
            assert(after.drop_last() =~= before);
            assert(after.last() == v@[i as int]@);
        }
        if i > 0 {
            r.append(", ");
        } else {
            proof {
                assert(after =~= seq![v@[0]@]);
                assert(before =~= Seq::<Seq<char>>::empty());
            }
        }
        r.append(debug_str(v[i]).as_str());
        i = i + 1;
    }
    r.append("]");
    proof {
        assert(str_seq_views(v@).take(v.len() as int) =~= str_seq_views(v@));
    }
    r
}

} // verus!
