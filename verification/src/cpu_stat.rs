//! Parser for the cgroup v2 `cpu.stat` text format: newline-separated
//! `key value` pairs. A line with an unknown key or an unparsable value is
//! skipped; the rest of the blob is still read.

use vstd::prelude::*;

use crate::text::{
    chars_of, find_char, head_token, is_space, lemma_find_char_bounds, lemma_find_char_found,
    lemma_find_char_none, lemma_head_token_at, lemma_skip_ws_at, parse_u64_chars, parse_u64_spec,
    skip_ws, space_char, str_eq_chars, subrange_vec,
};

verus! {

/// Counters read from a cgroup v2 `cpu.stat` blob; each is absent until a
/// well-formed line supplies it, and the last well-formed line wins.
#[derive(Clone, Copy, Debug, PartialEq, Eq)]
pub struct CpuStat {
    pub usage_usec: Option<u64>,
    pub user_usec: Option<u64>,
    pub system_usec: Option<u64>,
    pub nice_usec: Option<u64>,
    pub nr_periods: Option<u64>,
    pub nr_throttled: Option<u64>,
    pub throttled_usec: Option<u64>,
    pub nr_bursts: Option<u64>,
    pub burst_usec: Option<u64>,
}

impl CpuStat {
    /// The record before any line has been read: every counter absent.
    pub open spec fn absent() -> CpuStat {
        CpuStat {
            usage_usec: None,
            user_usec: None,
            system_usec: None,
            nice_usec: None,
            nr_periods: None,
            nr_throttled: None,
            throttled_usec: None,
            nr_bursts: None,
            burst_usec: None,
        }
    }
}

impl Default for CpuStat {
    fn default() -> (r: Self)
        ensures
            r == CpuStat::absent(),
    {
        CpuStat {
            usage_usec: None,
            user_usec: None,
            system_usec: None,
            nice_usec: None,
            nr_periods: None,
            nr_throttled: None,
            throttled_usec: None,
            nr_bursts: None,
            burst_usec: None,
        }
    }
}

/// The segments of `s` between newline characters, in order.
pub open spec fn split_lines(s: Seq<char>) -> Seq<Seq<char>>
    decreases s.len(),
    via split_lines_decreases
{
    match find_char(s, '\n') {
        Some(j) => seq![s.take(j)] + split_lines(s.skip(j + 1)),
        None => seq![s],
    }
}

#[via_fn]
proof fn split_lines_decreases(s: Seq<char>) {
    lemma_find_char_bounds(s, '\n');
}

/// The first two whitespace-separated tokens of a line, if it has two.
pub open spec fn line_key_value(line: Seq<char>) -> Option<(Seq<char>, Seq<char>)> {
    let rest1 = skip_ws(line);
    let key = head_token(rest1);
    if key.len() == 0 {
        None
    } else {
        let rest2 = skip_ws(rest1.skip(key.len() as int));
        let value = head_token(rest2);
        if value.len() == 0 {
            None
        } else {
            Some((key, value))
        }
    }
}

/// Stores `n` in the counter that `key` names, or changes nothing when the
/// key is not one of the nine known counters.
pub open spec fn set_counter(acc: CpuStat, key: Seq<char>, n: u64) -> CpuStat {
    if key == "usage_usec"@ {
        CpuStat { usage_usec: Some(n), ..acc }
    } else if key == "user_usec"@ {
        CpuStat { user_usec: Some(n), ..acc }
    } else if key == "system_usec"@ {
        CpuStat { system_usec: Some(n), ..acc }
    } else if key == "nice_usec"@ {
        CpuStat { nice_usec: Some(n), ..acc }
    } else if key == "nr_periods"@ {
        CpuStat { nr_periods: Some(n), ..acc }
    } else if key == "nr_throttled"@ {
        CpuStat { nr_throttled: Some(n), ..acc }
    } else if key == "throttled_usec"@ {
        CpuStat { throttled_usec: Some(n), ..acc }
    } else if key == "nr_bursts"@ {
        CpuStat { nr_bursts: Some(n), ..acc }
    } else if key == "burst_usec"@ {
        CpuStat { burst_usec: Some(n), ..acc }
    } else {
        acc
    }
}

/// Effect of one line on the record: a line without two tokens, or whose
/// value is not a decimal `u64`, leaves the record unchanged.
pub open spec fn apply_line(acc: CpuStat, line: Seq<char>) -> CpuStat {
    match line_key_value(line) {
        Some(kv) => match parse_u64_spec(kv.1) {
            Some(n) => set_counter(acc, kv.0, n),
            None => acc,
        },
        None => acc,
    }
}

pub open spec fn stat_fold(lines: Seq<Seq<char>>, acc: CpuStat) -> CpuStat
    decreases lines.len(),
{
    if lines.len() == 0 {
        acc
    } else {
        stat_fold(lines.skip(1), apply_line(acc, lines[0]))
    }
}

/// What `parse_v2_stat` returns: every line applied in order, starting from
/// the all-absent record.
pub open spec fn parse_v2_stat_spec(s: Seq<char>) -> CpuStat {
    stat_fold(split_lines(s), CpuStat::absent())
}

fn set_counter_exec(acc: CpuStat, key: &Vec<char>, n: u64) -> (r: CpuStat)
    ensures
        r == set_counter(acc, key@, n),
{
    if str_eq_chars("usage_usec", key) {
        CpuStat { usage_usec: Some(n), ..acc }
    } else if str_eq_chars("user_usec", key) {
        CpuStat { user_usec: Some(n), ..acc }
    } else if str_eq_chars("system_usec", key) {
        CpuStat { system_usec: Some(n), ..acc }
    } else if str_eq_chars("nice_usec", key) {
        CpuStat { nice_usec: Some(n), ..acc }
    } else if str_eq_chars("nr_periods", key) {
        CpuStat { nr_periods: Some(n), ..acc }
    } else if str_eq_chars("nr_throttled", key) {
        CpuStat { nr_throttled: Some(n), ..acc }
    } else if str_eq_chars("throttled_usec", key) {
        CpuStat { throttled_usec: Some(n), ..acc }
    } else if str_eq_chars("nr_bursts", key) {
        CpuStat { nr_bursts: Some(n), ..acc }
    } else if str_eq_chars("burst_usec", key) {
        CpuStat { burst_usec: Some(n), ..acc }
    } else {
        acc
    }
}

fn apply_line_exec(acc: CpuStat, line_v: &Vec<char>) -> (r: CpuStat)
    ensures
        r == apply_line(acc, line_v@),
{
    let ghost line = line_v@;
    let n = line_v.len();
    let mut a: usize = 0;
    while a < n && space_char(line_v[a])
        invariant
            line == line_v@,
            a <= n == line_v.len(),
            forall|m: int| 0 <= m < a ==> is_space(line[m]),
        decreases n - a,
    {
        a = a + 1;
    }
    proof {
        lemma_skip_ws_at(line, a as int);
    }
    if a == n {
        proof {
            assert(skip_ws(line) =~= Seq::<char>::empty());
        }
        return acc;
    }
    let mut b: usize = a;
    while b < n && !space_char(line_v[b])
        invariant
            line == line_v@,
            a <= b <= n == line_v.len(),
            forall|m: int| a <= m < b ==> !is_space(line[m]),
        decreases n - b,
    {
        b = b + 1;
    }
    proof {
        assert forall|m: int| 0 <= m < b - a implies !is_space(line.skip(a as int)[m]) by {
            assert(line.skip(a as int)[m] == line[a + m]);
        }
        if b < n {
            assert(line.skip(a as int)[b - a] == line[b as int]);
        }
        lemma_head_token_at(line.skip(a as int), b - a);
        assert(line.skip(a as int).take(b - a) =~= line.subrange(a as int, b as int));
    }
    let key = subrange_vec(line_v, a, b);
    let mut c: usize = b;
    while c < n && space_char(line_v[c])
        invariant
            line == line_v@,
            b <= c <= n == line_v.len(),
            forall|m: int| b <= m < c ==> is_space(line[m]),
        decreases n - c,
    {
        c = c + 1;
    }
    proof {
        assert forall|m: int| 0 <= m < c - b implies is_space(line.skip(b as int)[m]) by {
            assert(line.skip(b as int)[m] == line[b + m]);
        }
        if c < n {
            assert(line.skip(b as int)[c - b] == line[c as int]);
        }
        lemma_skip_ws_at(line.skip(b as int), c - b);
        assert(line.skip(a as int).skip(b - a) =~= line.skip(b as int));
        assert(line.skip(b as int).skip(c - b) =~= line.skip(c as int));
    }
    if c == n {
        proof {
            assert(skip_ws(line.skip(b as int)) =~= Seq::<char>::empty());
        }
        return acc;
    }
    let mut d: usize = c;
    while d < n && !space_char(line_v[d])
        invariant
            line == line_v@,
            c <= d <= n == line_v.len(),
            forall|m: int| c <= m < d ==> !is_space(line[m]),
        decreases n - d,
    {
        d = d + 1;
    }
    proof {
        assert forall|m: int| 0 <= m < d - c implies !is_space(line.skip(c as int)[m]) by {
            assert(line.skip(c as int)[m] == line[c + m]);
        }
        if d < n {
            assert(line.skip(c as int)[d - c] == line[d as int]);
        }
        lemma_head_token_at(line.skip(c as int), d - c);
        assert(line.skip(c as int).take(d - c) =~= line.subrange(c as int, d as int));
    }
    let value = subrange_vec(line_v, c, d);
    match parse_u64_chars(&value) {
        Some(num) => set_counter_exec(acc, &key, num),
        None => acc,
    }
}

/// Reads a cgroup v2 `cpu.stat` blob. Exactly the lines of the form
/// `key value` whose key is one of the nine counters and whose value is a
/// decimal `u64` take effect, in order; every other line is skipped.
pub fn parse_v2_stat(stat: &str) -> (r: CpuStat)
    ensures
        r == parse_v2_stat_spec(stat@),
{
    let t = chars_of(stat);
    let mut acc = CpuStat::default();
    let mut pos: usize = 0;
    proof {
        assert(t@.skip(0) =~= t@);
    }
    loop
        invariant
            pos <= t.len(),
            t@ == stat@,
            stat_fold(split_lines(t@.skip(pos as int)), acc) == parse_v2_stat_spec(stat@),
        ensures
            acc == parse_v2_stat_spec(stat@),
        decreases t.len() - pos,
    {
        let ghost rem = t@.skip(pos as int);
        let ghost prev_acc = acc;
        let mut end: usize = pos;
        while end < t.len() && t[end] != '\n'
            invariant
                pos <= end <= t.len(),
                forall|m: int| pos <= m < end ==> t@[m] != '\n',
            decreases t.len() - end,
        {
            end = end + 1;
        }
        let line_v = subrange_vec(&t, pos, end);
        proof {
            if end < t.len() {
                assert forall|m: int| 0 <= m < end - pos implies rem[m] != '\n' by {
                    assert(rem[m] == t@[pos + m]);
                }
                assert(rem[end - pos] == t@[end as int]);
                lemma_find_char_found(rem, '\n', end - pos);
                assert(rem.take(end - pos) =~= line_v@);
            } else {
                assert forall|m: int| 0 <= m < rem.len() implies rem[m] != '\n' by {
                    assert(rem[m] == t@[pos + m]);
                }
                lemma_find_char_none(rem, '\n');
                assert(rem =~= line_v@);
            }
        }
        acc = apply_line_exec(acc, &line_v);
        if end == t.len() {
            proof {
                assert(split_lines(rem) =~= seq![rem]);
                assert(seq![rem][0] == rem);
                assert(seq![rem].skip(1) =~= Seq::<Seq<char>>::empty());
                assert(stat_fold(seq![rem], prev_acc) == stat_fold(
                    seq![rem].skip(1),
                    apply_line(prev_acc, rem),
                ));
                assert(stat_fold(Seq::<Seq<char>>::empty(), apply_line(prev_acc, rem))
                    == apply_line(prev_acc, rem));
                assert(rem == line_v@);
                assert(stat_fold(split_lines(rem), prev_acc) == acc);
            }
            break ;
        }
        proof {
            let j = end - pos;
            let lines = split_lines(rem);
            assert(lines =~= seq![rem.take(j)] + split_lines(rem.skip(j + 1)));
            assert(lines[0] == rem.take(j));
            assert(lines.skip(1) =~= split_lines(rem.skip(j + 1)));
            assert(rem.skip(j + 1) =~= t@.skip(end + 1));
            assert(stat_fold(lines, prev_acc) == stat_fold(split_lines(t@.skip(end + 1)), acc));
        }
        pos = end + 1;
    }
    acc
}

} // verus!
