use crate::utils::text::str_chars;
use vstd::prelude::*;
use vstd::string::StrSliceExecFns;

verus! {

broadcast use vstd::string::group_string_axioms;

/// Length of the run at the start of `s` of characters that are spaces (`space == true`)
/// or that are not spaces (`space == false`).
pub open spec fn lead(s: Seq<char>, space: bool) -> nat
    decreases s.len(),
{
    if s.len() > 0 && (s[0] == ' ') == space {
        1 + lead(s.drop_first(), space)
    } else {
        0
    }
}

/// Length of the run of spaces at the end of `s`.
pub open spec fn trail(s: Seq<char>) -> nat
    decreases s.len(),
{
    if s.len() > 0 && s.last() == ' ' {
        1 + trail(s.drop_last())
    } else {
        0
    }
}

/// `s` without its leading and trailing spaces.
pub open spec fn trim(s: Seq<char>) -> Seq<char> {
    let t = s.skip(lead(s, true) as int);
    t.take(t.len() - trail(t))
}

/// The words of `s`: its maximal runs of characters other than the space, in order.
pub open spec fn words(s: Seq<char>) -> Seq<Seq<char>>
    decreases s.len(),
{
    let t = s.skip(lead(s, true) as int);
    if t.len() == 0 {
        Seq::empty()
    } else {
        let n = lead(t, false);
        if n == 0 {
            Seq::empty()
        } else {
            proof {
                lemma_lead_le(s, true);
                lemma_lead_le(t, false);
            }
            seq![t.take(n as int)] + words(t.skip(n as int))
        }
    }
}

/// Every character of the leading run is a space exactly when `space`.
proof fn lemma_lead_prefix(s: Seq<char>, space: bool)
    ensures
        lead(s, space) <= s.len(),
        forall|k: int| 0 <= k < lead(s, space) ==> (#[trigger] s[k] == ' ') == space,
    decreases s.len(),
{
    if s.len() > 0 && (s[0] == ' ') == space {
        lemma_lead_prefix(s.drop_first(), space);
        assert forall|k: int| 0 <= k < lead(s, space) implies (#[trigger] s[k] == ' ') == space by {
            if k > 0 {
                assert(s[k] == s.drop_first()[k - 1]);
            }
        }
    }
}

/// Law: the words of a text are not empty and hold no space.
pub proof fn words_hold_no_spaces(s: Seq<char>)
    ensures
        forall|i: int| 0 <= i < words(s).len() ==> (#[trigger] words(s)[i]).len() > 0 && forall|k: int|
            0 <= k < words(s)[i].len() ==> words(s)[i][k] != ' ',
    decreases s.len(),
{
    lemma_lead_prefix(s, true);
    let t = s.skip(lead(s, true) as int);
    if t.len() > 0 {
        lemma_lead_prefix(t, false);
        let n = lead(t, false);
        if n > 0 {
            words_hold_no_spaces(t.skip(n as int));
            let w = t.take(n as int);
            let rest = words(t.skip(n as int));
            assert(words(s) == seq![w] + rest);
            assert forall|i: int| 0 <= i < words(s).len() implies (#[trigger] words(s)[i]).len() > 0 && forall|k: int|
                0 <= k < words(s)[i].len() ==> words(s)[i][k] != ' ' by {
                if i == 0 {
                    assert(words(s)[0] == w);
                    assert forall|k: int| 0 <= k < w.len() implies w[k] != ' ' by {
                        assert(w[k] == t[k]);
                    }
                } else {
                    assert(words(s)[i] == rest[i - 1]);
                }
            }
        }
    }
}

/// What follows the first word of `s`, without leading and trailing spaces.
pub open spec fn arguments_text(s: Seq<char>) -> Seq<char> {
    let t = s.skip(lead(s, true) as int);
    trim(t.skip(lead(t, false) as int))
}

pub open spec fn views(v: Seq<&str>) -> Seq<Seq<char>> {
    v.map_values(|x: &str| x@)
}

pub proof fn lemma_lead_le(s: Seq<char>, space: bool)
    ensures
        lead(s, space) <= s.len(),
    decreases s.len(),
{
    if s.len() > 0 && (s[0] == ' ') == space {
        lemma_lead_le(s.drop_first(), space);
    }
}

/// A run found by scanning has the length that `lead` gives.
pub proof fn lemma_lead_scan(s: Seq<char>, space: bool, m: int)
    requires
        0 <= m <= s.len(),
        forall|k: int| 0 <= k < m ==> (s[k] == ' ') == space,
        m == s.len() || (s[m] == ' ') != space,
    ensures
        lead(s, space) == m,
    decreases m,
{
    if m > 0 {
        lemma_lead_scan(s.drop_first(), space, m - 1);
    }
}

pub proof fn lemma_lead_first(s: Seq<char>, space: bool)
    requires
        s.len() > 0,
        (s[0] == ' ') == space,
    ensures
        lead(s, space) >= 1,
{
}

pub proof fn lemma_trail_scan(s: Seq<char>, m: int)
    requires
        0 <= m <= s.len(),
        forall|k: int| s.len() - m <= k < s.len() ==> s[k] == ' ',
        m == s.len() || s[s.len() - m - 1] != ' ',
    ensures
        trail(s) == m,
    decreases m,
{
    if m > 0 {
        lemma_trail_scan(s.drop_last(), m - 1);
    }
}

/// Index of the first character at or after `i` that is (or is not) a space.
fn scan(cs: &Vec<char>, i: usize, space: bool) -> (j: usize)
    requires
        i <= cs.len(),
    ensures
        i <= j <= cs.len(),
        j - i == lead(cs@.skip(i as int), space),
        j == cs.len() || (cs@[j as int] == ' ') != space,
{
    let mut j = i;
    while j < cs.len() && (cs[j] == ' ') == space
        invariant
            i <= j <= cs.len(),
            forall|k: int| i <= k < j ==> (cs@[k] == ' ') == space,
        decreases cs.len() - j,
    {
        j = j + 1;
    }
    proof {
        lemma_lead_scan(cs@.skip(i as int), space, j - i);
    }
    j
}

/// A line of user input, read as a command word followed by arguments.
#[derive(Clone, Copy, Debug)]
pub struct StrInput<'a>(pub &'a str);

impl<'a> StrInput<'a> {
    pub fn as_str(&self) -> (r: &'a str)
        ensures
            r@ == self.0@,
    {
        self.0
    }

    /// All words of the input.
    pub fn split(&self) -> (r: Vec<&'a str>)
        ensures
            views(r@) == words(self.0@),
    {
        let s = self.0;
        let cs = str_chars(s);
        let mut r: Vec<&'a str> = Vec::new();
        let mut i: usize = 0;
        proof {
            assert(cs@.skip(0) =~= cs@);
            assert(views(r@) =~= Seq::<Seq<char>>::empty());
        }
        while i < cs.len()
            invariant
                cs@ == s@,
                i <= cs.len(),
                views(r@) + words(cs@.skip(i as int)) == words(cs@),
            decreases cs.len() - i,
        {
            let j = scan(&cs, i, true);
            proof {
                assert(cs@.skip(i as int).skip((j - i) as int) =~= cs@.skip(j as int));
            }
            if j == cs.len() {
                proof {
                    assert(words(cs@.skip(i as int)) =~= Seq::<Seq<char>>::empty());
                }
                i = j;
            } else {
                let k = scan(&cs, j, false);
                proof {
                    lemma_lead_first(cs@.skip(j as int), false);
                    assert(cs@.skip(j as int).skip((k - j) as int) =~= cs@.skip(k as int));
                    assert(cs@.skip(j as int).take((k - j) as int) =~= cs@.subrange(j as int, k as int));
                }
                let w = s.substring_char(j, k);
                let ghost old_r = r@;
                r.push(w);
                proof {
                    assert(views(r@) =~= views(old_r).push(cs@.subrange(j as int, k as int)));
                    assert(views(old_r) + words(cs@.skip(i as int)) == words(cs@));
                    assert(words(cs@.skip(i as int)) == seq![cs@.subrange(j as int, k as int)] + words(cs@.skip(k as int)));
                    assert(views(r@) + words(cs@.skip(k as int)) =~= views(old_r) + words(cs@.skip(i as int)));
                }
                i = k;
            }
        }
        proof {
            assert(cs@.skip(i as int) =~= Seq::<char>::empty());
            assert(words(cs@.skip(i as int)) =~= Seq::<Seq<char>>::empty());
            assert(views(r@) =~= words(cs@));
        }
        r
    }

    /// The first word, or the empty text where there is none.
    pub fn first(&self) -> (r: &'a str)
        ensures
            words(self.0@).len() > 0 ==> r@ == words(self.0@)[0],
            words(self.0@).len() == 0 ==> r@ == Seq::<char>::empty(),
    {
        let w = self.split();
        if w.len() > 0 {
            proof {
                assert(views(w@)[0] == w@[0]@);
            }
            w[0]
        } else {
            proof {
                reveal_strlit("");
            }
            ""
        }
    }

    /// The command is the first word.
    pub fn get_command(&self) -> (r: &'a str)
        ensures
            words(self.0@).len() > 0 ==> r@ == words(self.0@)[0],
            words(self.0@).len() == 0 ==> r@ == Seq::<char>::empty(),
    {
        self.first()
    }

    /// Whether the first word is `command`.
    pub fn has_command(&self, command: &str) -> (r: bool)
        ensures
            r == ((words(self.0@).len() > 0 && words(self.0@)[0] == command@) || (words(
                self.0@,
            ).len() == 0 && command@.len() == 0)),
    {
        let f = self.first();
        proof {
            if words(self.0@).len() == 0 && command@.len() == 0 {
                assert(f@ =~= command@);
            }
        }
        crate::utils::text::str_eq(f, command)
    }

    /// Whether the first word is one of `commands`.
    pub fn has_commands(&self, commands: &[&str]) -> (r: bool)
        ensures
            r == exists|i: int|
                0 <= i < commands@.len() && ((words(self.0@).len() > 0 && words(self.0@)[0]
                    == #[trigger] commands@[i]@) || (words(self.0@).len() == 0
                    && commands@[i]@.len() == 0)),
    {
        let mut i: usize = 0;
        while i < commands.len()
            invariant
                i <= commands@.len(),
                forall|k: int|
                    0 <= k < i ==> !((words(self.0@).len() > 0 && words(self.0@)[0]
                        == #[trigger] commands@[k]@) || (words(self.0@).len() == 0
                        && commands@[k]@.len() == 0)),
            decreases commands.len() - i,
        {
            let c: &str = commands[i];
            let b = self.has_command(c);
            if b {
                return true;
            }
            assert(c == commands@[i as int]);
            i = i + 1;
        }
        false
    }

    /// The words after the first one.
    pub fn parse_arguments(&self) -> (r: Vec<&'a str>)
        ensures
            words(self.0@).len() > 0 ==> views(r@) == words(self.0@).drop_first(),
            words(self.0@).len() == 0 ==> r@.len() == 0,
    {
        let w = self.split();
        let mut r: Vec<&'a str> = Vec::new();
        if w.len() == 0 {
            return r;
        }
        let mut i: usize = 1;
        while i < w.len()
            invariant
                1 <= i <= w.len(),
                views(w@) == words(self.0@),
                views(r@) == views(w@).subrange(1, i as int),
            decreases w.len() - i,
        {
            let ghost old_r = r@;
            r.push(w[i]);
            proof {
                assert(views(r@) =~= views(old_r).push(w@[i as int]@));
                assert(views(w@).subrange(1, i + 1) =~= views(w@).subrange(1, i as int).push(
                    views(w@)[i as int],
                ));
            }
            i = i + 1;
        }
        proof {
            assert(views(w@).subrange(1, w.len() as int) =~= views(w@).drop_first());
        }
        r
    }

    /// What follows the first word, without leading and trailing spaces.
    pub fn plain_arguments(&self) -> (r: &'a str)
        ensures
            r@ == arguments_text(self.0@),
    {
        let s = self.0;
        let cs = str_chars(s);
        let i = scan(&cs, 0, true);
        let j = scan(&cs, i, false);
        let k = scan(&cs, j, true);
        let mut e: usize = cs.len();
        while e > k && cs[e - 1] == ' '
            invariant
                k <= e <= cs.len(),
                forall|m: int| e <= m < cs.len() ==> cs@[m] == ' ',
            decreases e,
        {
            e = e - 1;
        }
        proof {
            let t = cs@.skip(lead(cs@, true) as int);
            assert(cs@.skip(0) =~= cs@);
            assert(t =~= cs@.skip(i as int));
            assert(t.skip(lead(t, false) as int) =~= cs@.skip(j as int));
            let u = cs@.skip(j as int);
            assert(u.skip(lead(u, true) as int) =~= cs@.skip(k as int));
            let v = cs@.skip(k as int);
            lemma_trail_scan(v, (cs.len() - e) as int);
            assert(v.take(v.len() - trail(v)) =~= cs@.subrange(k as int, e as int));
        }
        s.substring_char(k, e)
    }
}

} // verus!