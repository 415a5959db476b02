use vstd::prelude::*;
use crate::activity::{keys_distinct, lemma_map_of_domain, lemma_map_of_insert, map_of, ActivityState};
use crate::store::{load, stored_state};

verus! {

/// The character of a decimal digit.
pub open spec fn digit_char(d: nat) -> char {
    if d == 0 {
        '0'
    } else if d == 1 {
        '1'
    } else if d == 2 {
        '2'
    } else if d == 3 {
        '3'
    } else if d == 4 {
        '4'
    } else if d == 5 {
        '5'
    } else if d == 6 {
        '6'
    } else if d == 7 {
        '7'
    } else if d == 8 {
        '8'
    } else {
        '9'
    }
}

/// `n` written in decimal, without leading zeros.
pub open spec fn decimal(n: nat) -> Seq<char>
    decreases n,
{
    if n < 10 {
        seq![digit_char(n)]
    } else {
        decimal(n / 10).push(digit_char(n % 10))
    }
}

/// A duration in seconds as the viewer shows it: `"{h}h {m}m {s}s"` from an
/// hour on, `"{m}m {s}s"` from a minute on, else `"{s}s"`.
pub open spec fn time_text(uptime: u64) -> Seq<char> {
    if uptime >= 3600 {
        decimal((uptime / 3600) as nat) + seq!['h', ' '] + decimal(((uptime % 3600) / 60) as nat)
            + seq!['m', ' '] + decimal((uptime % 60) as nat) + seq!['s']
    } else if uptime >= 60 {
        decimal((uptime / 60) as nat) + seq!['m', ' '] + decimal((uptime % 60) as nat) + seq!['s']
    } else {
        decimal(uptime as nat) + seq!['s']
    }
}

/// Relies on String::push: appends one character.
#[verifier::external_body]
fn push_char(s: &mut String, c: char)
    ensures
        final(s)@ == old(s)@.push(c),
{
    s.push(c)
}

fn digit(d: u64) -> (r: char)
    requires
        d < 10,
    ensures
        r == digit_char(d as nat),
{
    if d == 0 {
        '0'
    } else if d == 1 {
        '1'
    } else if d == 2 {
        '2'
    } else if d == 3 {
        '3'
    } else if d == 4 {
        '4'
    } else if d == 5 {
        '5'
    } else if d == 6 {
        '6'
    } else if d == 7 {
        '7'
    } else if d == 8 {
        '8'
    } else {
        '9'
    }
}

fn push_decimal(s: &mut String, n: u64)
    ensures
        final(s)@ == old(s)@ + decimal(n as nat),
    decreases n,
{
    if n >= 10 {
        push_decimal(s, n / 10);
    }
    push_char(s, digit(n % 10));
    proof {
        if n < 10 {
            assert(old(s)@ + decimal(n as nat) =~= old(s)@.push(digit_char(n as nat)));
        } else {
            assert(old(s)@ + decimal(n as nat) =~= (old(s)@ + decimal((n / 10) as nat)).push(
                digit_char((n % 10) as nat),
            ));
        }
    }
}

fn push_unit(s: &mut String, unit: char, spaced: bool)
    ensures
        spaced ==> final(s)@ == old(s)@ + seq![unit, ' '],
        !spaced ==> final(s)@ == old(s)@ + seq![unit],
{
    push_char(s, unit);
    if spaced {
        push_char(s, ' ');
    }
    proof {
        if spaced {
            assert(old(s)@.push(unit).push(' ') =~= old(s)@ + seq![unit, ' ']);
        } else {
            assert(old(s)@.push(unit) =~= old(s)@ + seq![unit]);
        }
    }
}

/// A duration in seconds as hours, minutes and seconds, leading units of
/// zero left out: `"1h 1m 1s"`, `"1m 0s"`, `"59s"`.
pub fn format_time(uptime: u64) -> (r: String)
    ensures
        r@ == time_text(uptime),
{
    let mut s = String::new();
    if uptime >= 3600 {
        push_decimal(&mut s, uptime / 3600);
        push_unit(&mut s, 'h', true);
        push_decimal(&mut s, (uptime % 3600) / 60);
        push_unit(&mut s, 'm', true);
        push_decimal(&mut s, uptime % 60);
        push_unit(&mut s, 's', false);
    } else if uptime >= 60 {
        push_decimal(&mut s, uptime / 60);
        push_unit(&mut s, 'm', true);
        push_decimal(&mut s, uptime % 60);
        push_unit(&mut s, 's', false);
    } else {
        push_decimal(&mut s, uptime);
        push_unit(&mut s, 's', false);
    }
    proof {
        assert(s@ =~= time_text(uptime));
    }
    s
}

/// The line shown above an identity's bar: `"{name}: {time}"`.
pub fn label(name: &String, uptime: u64) -> (r: String)
    ensures
        r@ == name@ + seq![':', ' '] + time_text(uptime),
{
    let mut s = name.clone();
    push_char(&mut s, ':');
    push_char(&mut s, ' ');
    let t = format_time(uptime);
    s.append(t.as_str());
    proof {
        assert(s@ =~= name@ + seq![':', ' '] + time_text(uptime));
    }
    s
}

/// The entries ordered by seconds, most first.
pub open spec fn ranked(s: Seq<(String, u64)>) -> bool {
    forall|i: int, j: int| 0 <= i < j < s.len() ==> s[i].1 >= s[j].1
}

/// What the viewer shows: the state read once from the store file at start.
pub struct ProcessUptimeApp {
    process_data: ActivityState,
}

impl ProcessUptimeApp {
    #[verifier::type_invariant]
    spec fn inv(&self) -> bool {
        self.process_data.wf()
    }

    /// The state this viewer shows.
    pub closed spec fn shown(&self) -> Map<Seq<char>, u64> {
        self.process_data@
    }

    /// Reads the store file's text; where it is missing, empty or invalid
    /// the viewer shows no identity.
    pub fn new(stored: &str) -> (r: ProcessUptimeApp)
        ensures
            r.shown() == stored_state(stored@),
    {
        ProcessUptimeApp { process_data: load(stored) }
    }

    /// The identities with their seconds, one row each, most seconds first.
    pub fn rows(&self) -> (r: Vec<(String, u64)>)
        ensures
            keys_distinct(r@),
            map_of(r@) == self.shown(),
            ranked(r@),
    {
        proof {
            use_type_invariant(self);
        }
        let entries = self.process_data.entries();
        let mut out: Vec<(String, u64)> = Vec::new();
        let mut i: usize = 0;
        while i < entries.len()
            invariant
                i <= entries@.len(),
                keys_distinct(entries@),
                map_of(entries@) == self.process_data@,
                keys_distinct(out@),
                map_of(out@) == map_of(entries@.subrange(0, i as int)),
                ranked(out@),
            decreases entries@.len() - i,
        {
            let secs = entries[i].1;
            let mut p: usize = 0;
            while p < out.len() && out[p].1 >= secs
                invariant
                    p <= out@.len(),
                    forall|j: int| 0 <= j < p ==> out@[j].1 >= secs,
                decreases out@.len() - p,
            {
                p += 1;
            }
            proof {
                let pre = entries@.subrange(0, i as int);
                assert(entries@.subrange(0, i + 1).drop_last() =~= pre);
                lemma_map_of_domain(pre, entries@[i as int].0@);
                if map_of(pre).contains_key(entries@[i as int].0@) {
                    let j = choose|j: int| 0 <= j < pre.len() && pre[j].0@ == entries@[i as int].0@;
                    assert(entries@[j].0@ == entries@[i as int].0@);
                }
                lemma_map_of_insert(out@, p as int, (entries@[i as int].0, secs));
            }
            let old_out = Ghost(out@);
            out.insert(p, (entries[i].0.clone(), secs));
            proof {
                assert forall|a: int, b: int| 0 <= a < b < out@.len() implies out@[a].1 >= out@[b].1 by {
                    if b > p && a < p {
                        assert(out@[b] == old_out@[b - 1]);
                    } else if a > p {
                        assert(out@[a] == old_out@[a - 1] && out@[b] == old_out@[b - 1]);
                    } else if a == p && b > p {
                        assert(out@[b] == old_out@[b - 1]);
                        if b - 1 > p {
                            assert(old_out@[p as int].1 >= old_out@[b - 1].1);
                        }
                    }
                }
            }
            i += 1;
        }
        proof {
            assert(entries@.subrange(0, entries@.len() as int) =~= entries@);
        }
        out
    }
}

} // verus!
