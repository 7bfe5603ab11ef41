//! Best-effort `{name}`-style template substitution over a set of named
//! capture variables. Substitution never fails: a placeholder whose variable
//! is absent renders as the empty string, and malformed braces stay literal.

use vstd::prelude::*;

use crate::text::{
    chars_of, find_char, lemma_find_char_bounds, lemma_find_char_found, lemma_find_char_none,
    str_eq_chars, string_from_chars, subrange_vec,
};

verus! {

/// Named regex capture variables: pairs of group name and matched text.
/// When a name repeats, the later pair wins.
#[derive(Clone, Debug)]
pub struct CaptureSet {
    pub entries: Vec<(String, String)>,
}

/// The mapping a list of pairs denotes, later pairs overriding earlier ones.
pub open spec fn pairs_map(s: Seq<(String, String)>) -> Map<Seq<char>, Seq<char>>
    decreases s.len(),
{
    if s.len() == 0 {
        Map::empty()
    } else {
        pairs_map(s.drop_last()).insert(s.last().0@, s.last().1@)
    }
}

proof fn lemma_pairs_map_found(s: Seq<(String, String)>, n: Seq<char>, i: int)
    requires
        0 <= i < s.len(),
        s[i].0@ == n,
        forall|k: int| i < k < s.len() ==> s[k].0@ != n,
    ensures
        pairs_map(s).dom().contains(n),
        pairs_map(s)[n] == s[i].1@,
    decreases s.len(),
{
    if i == s.len() - 1 {
        assert(s.last() == s[i]);
    } else {
        assert(s.last().0@ != n);
        assert(s.drop_last()[i] == s[i]);
        assert forall|k: int| i < k < s.drop_last().len() implies s.drop_last()[k].0@ != n by {
            assert(s.drop_last()[k] == s[k]);
        }
        lemma_pairs_map_found(s.drop_last(), n, i);
    }
}

proof fn lemma_pairs_map_absent(s: Seq<(String, String)>, n: Seq<char>)
    requires
        forall|k: int| 0 <= k < s.len() ==> s[k].0@ != n,
    ensures
        !pairs_map(s).dom().contains(n),
    decreases s.len(),
{
    if s.len() > 0 {
        assert(s.last().0@ != n);
        assert forall|k: int| 0 <= k < s.drop_last().len() implies s.drop_last()[k].0@ != n by {
            assert(s.drop_last()[k] == s[k]);
        }
        lemma_pairs_map_absent(s.drop_last(), n);
    }
}

/// Looks `name` up among `entries`, honouring later-pair-wins.
pub fn pairs_lookup(entries: &Vec<(String, String)>, name: &Vec<char>) -> (r: Option<String>)
    ensures
        match r {
            Some(v) => pairs_map(entries@).dom().contains(name@) && v@ == pairs_map(
                entries@,
            ).index(name@),
            None => !pairs_map(entries@).dom().contains(name@),
        },
{
    let mut i: usize = entries.len();
    while i > 0
        invariant
            i <= entries.len(),
            forall|k: int| i <= k < entries@.len() ==> entries@[k].0@ != name@,
        decreases i,
    {
        i = i - 1;
        if str_eq_chars(entries[i].0.as_str(), name) {
            proof {
                lemma_pairs_map_found(entries@, name@, i as int);
            }
            return Some(entries[i].1.clone());
        }
    }
    proof {
        lemma_pairs_map_absent(entries@, name@);
    }
    None
}

impl CaptureSet {
    /// The mapping from group names to matched text that this set denotes.
    pub open spec fn as_map(&self) -> Map<Seq<char>, Seq<char>> {
        pairs_map(self.entries@)
    }

    /// An empty capture set.
    pub fn new() -> (r: CaptureSet)
        ensures
            r.as_map() == Map::<Seq<char>, Seq<char>>::empty(),
            r.entries@.len() == 0,
    {
        CaptureSet { entries: Vec::new() }
    }

    /// Adds one variable, overriding any earlier pair with the same name.
    pub fn insert(&mut self, name: String, value: String)
        ensures
            final(self).as_map() == old(self).as_map().insert(name@, value@),
    {
        self.entries.push((name, value));
        proof {
            assert(self.entries@.drop_last() =~= old(self).entries@);
        }
    }

    /// Looks a name up, honouring later-pair-wins.
    pub fn lookup(&self, name: &Vec<char>) -> (r: Option<String>)
        ensures
            match r {
                Some(v) => self.as_map().dom().contains(name@) && v@ == self.as_map()[name@],
                None => !self.as_map().dom().contains(name@),
            },
    {
        pairs_lookup(&self.entries, name)
    }
}

/// A well-formed placeholder name: nonempty, with no spaces, tabs or braces.
pub open spec fn placeholder_name_ok(s: Seq<char>) -> bool {
    s.len() > 0 && forall|m: int| 0 <= m < s.len() ==> !(s[m] == ' ' || s[m] == '\t' || s[m] == '{')
}

fn placeholder_name_ok_exec(v: &Vec<char>) -> (r: bool)
    ensures
        r == placeholder_name_ok(v@),
{
    if v.len() == 0 {
        return false;
    }
    let mut m: usize = 0;
    while m < v.len()
        invariant
            m <= v.len(),
            forall|q: int| 0 <= q < m ==> !(v@[q] == ' ' || v@[q] == '\t' || v@[q] == '{'),
        decreases v.len() - m,
    {
        let c = v[m];
        if c == ' ' || c == '\t' || c == '{' {
            return false;
        }
        m = m + 1;
    }
    true
}

/// The rendering of template `t` under `vars`: a `{name}` placeholder whose
/// variable is present becomes the variable's text; one whose variable is
/// absent becomes the empty string; braces that do not form a well-formed
/// placeholder stay literal, as does everything after an unclosed `{`.
pub open spec fn render_spec(t: Seq<char>, vars: Map<Seq<char>, Seq<char>>) -> Seq<char>
    decreases t.len(),
    via render_spec_decreases
{
    if t.len() == 0 {
        Seq::empty()
    } else if t[0] == '{' {
        match find_char(t, '}') {
            Some(j) => {
                let name = t.subrange(1, j);
                if placeholder_name_ok(name) {
                    (if vars.dom().contains(name) {
                        vars[name]
                    } else {
                        Seq::empty()
                    }) + render_spec(t.skip(j + 1), vars)
                } else {
                    seq!['{'] + render_spec(t.skip(1), vars)
                }
            },
            None => t,
        }
    } else {
        seq![t[0]] + render_spec(t.skip(1), vars)
    }
}

#[via_fn]
proof fn render_spec_decreases(t: Seq<char>, vars: Map<Seq<char>, Seq<char>>) {
    lemma_find_char_bounds(t, '}');
}

/// Renders `template` with the captured variables, exactly as `render_spec`
/// describes.
pub fn render_template(template: &str, vars: &CaptureSet) -> (r: String)
    ensures
        r@ == render_spec(template@, vars.as_map()),
{
    let t = chars_of(template);
    let mut out: Vec<char> = Vec::new();
    let mut i: usize = 0;
    proof {
        assert(t@.skip(0) =~= t@);
        assert(out@ + render_spec(t@, vars.as_map()) =~= render_spec(t@, vars.as_map()));
    }
    while i < t.len()
        invariant
            i <= t.len(),
            t@ == template@,
            render_spec(t@, vars.as_map()) == out@ + render_spec(t@.skip(i as int), vars.as_map()),
        decreases t.len() - i,
    {
        let ghost rem = t@.skip(i as int);
        let ghost vm = vars.as_map();
        proof {
            assert(rem[0] == t@[i as int]);
        }
        let c = t[i];
        if c == '{' {
            let mut k: usize = i + 1;
            while k < t.len() && t[k] != '}'
                invariant
                    i + 1 <= k <= t.len(),
                    forall|m: int| i < m < k ==> t@[m] != '}',
                decreases t.len() - k,
            {
                k = k + 1;
            }
            if k == t.len() {
                proof {
                    assert forall|m: int| 0 <= m < rem.len() implies rem[m] != '}' by {
                        assert(rem[m] == t@[i + m]);
                    }
                    lemma_find_char_none(rem, '}');
                    assert(render_spec(rem, vm) == rem);
                }
                let mut rest = subrange_vec(&t, i, t.len());
                proof {
                    assert(rest@ =~= rem);
                }
                out.append(&mut rest);
                i = t.len();
                proof {
                    assert(t@.skip(i as int) =~= Seq::<char>::empty());
                    assert(render_spec(t@.skip(i as int), vm) == Seq::<char>::empty());
                    assert(out@ + Seq::<char>::empty() =~= out@);
                }
            } else {
                proof {
                    assert forall|m: int| 0 <= m < k - i implies rem[m] != '}' by {
                        assert(rem[m] == t@[i + m]);
                    }
                    assert(rem[k - i] == t@[k as int]);
                    lemma_find_char_found(rem, '}', k - i);
                }
                let name_v = subrange_vec(&t, i + 1, k);
                proof {
                    assert(name_v@ =~= rem.subrange(1, k - i));
                }
                if placeholder_name_ok_exec(&name_v) {
                    let ghost repl = if vm.dom().contains(name_v@) {
                        vm[name_v@]
                    } else {
                        Seq::<char>::empty()
                    };
                    proof {
                        assert(render_spec(rem, vm) == repl + render_spec(rem.skip(k - i + 1), vm));
                    }
                    match vars.lookup(&name_v) {
                        Some(val) => {
                            let mut vchars = chars_of(val.as_str());
                            out.append(&mut vchars);
                        },
                        None => {
                            proof {
                                assert(repl =~= Seq::<char>::empty());
                                assert(out@ + repl =~= out@);
                            }
                        },
                    }
                    proof {
                        assert(rem.skip(k - i + 1) =~= t@.skip(k as int + 1));
                    }
                    i = k + 1;
                } else {
                    proof {
                        assert(render_spec(rem, vm) == seq!['{'] + render_spec(rem.skip(1), vm));
                        assert(rem.skip(1) =~= t@.skip(i as int + 1));
                    }
                    out.push('{');
                    i = i + 1;
                }
            }
        } else {
            proof {
                assert(render_spec(rem, vm) == seq![rem[0]] + render_spec(rem.skip(1), vm));
                assert(rem.skip(1) =~= t@.skip(i as int + 1));
            }
            out.push(c);
            i = i + 1;
        }
    }
    proof {
        assert(t@.skip(i as int) =~= Seq::<char>::empty());
        assert(out@ + Seq::<char>::empty() =~= out@);
    }
    string_from_chars(&out)
}

} // verus!
