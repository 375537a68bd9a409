//! Hot reload of hooks, signalled through a stamp file that holds a Unix timestamp.
use vstd::prelude::*;
use crate::text::{chars_of, trim, trim_range};

verus! {

/// The name of the stamp file in the workspace directory.
pub const HOOKS_RELOAD_STAMP: &'static str = ".hooks-reload-stamp";

/// The value of a string of ASCII decimal digits.
pub open spec fn digits_value(d: Seq<char>) -> nat
    decreases d.len(),
{
    if d.len() == 0 {
        0
    } else {
        digits_value(d.drop_last()) * 10 + ((d.last() as u32) - ('0' as u32)) as nat
    }
}

/// `s` without a leading `+`.
pub open spec fn unsigned_digits(s: Seq<char>) -> Seq<char> {
    if s.len() > 0 && s[0] == '+' {
        s.drop_first()
    } else {
        s
    }
}

/// Whether every character of `d` is an ASCII digit.
pub open spec fn all_digits(d: Seq<char>) -> bool {
    forall|i: int| 0 <= i < d.len() ==> '0' <= #[trigger] d[i] && d[i] <= '9'
}

/// What `str::parse::<u64>` gives for `s`: an optional `+`, then one or more ASCII digits whose
/// value fits in 64 bits.
pub open spec fn parse_u64_spec(s: Seq<char>) -> Option<u64> {
    let d = unsigned_digits(s);
    if d.len() == 0 || !all_digits(d) {
        None
    } else if digits_value(d) > u64::MAX {
        None
    } else {
        Some(digits_value(d) as u64)
    }
}

proof fn lemma_digits_value_grows(d: Seq<char>, k: int)
    requires
        0 <= k <= d.len(),
        forall|i: int| 0 <= i < d.len() ==> '0' <= #[trigger] d[i] && d[i] <= '9',
    ensures
        digits_value(d.take(k)) <= digits_value(d),
    decreases d.len(),
{
    if k < d.len() {
        assert(d.drop_last().take(k) =~= d.take(k));
        lemma_digits_value_grows(d.drop_last(), k);
    } else {
        assert(d.take(k) =~= d);
    }
}

/// Parses a decimal `u64` from `v[lo..hi]`, as `str::parse::<u64>` does.
pub fn parse_u64_range(v: &Vec<char>, lo: usize, hi: usize) -> (r: Option<u64>)
    requires
        lo <= hi <= v.len(),
    ensures
        r == parse_u64_spec(v@.subrange(lo as int, hi as int)),
{
    let ghost s = v@.subrange(lo as int, hi as int);
    let start = if lo < hi && v[lo] == '+' {
        lo + 1
    } else {
        lo
    };
    let ghost d = v@.subrange(start as int, hi as int);
    assert(d =~= unsigned_digits(s));
    if start == hi {
        return None;
    }
    let mut k = start;
    while k < hi
        invariant
            start <= k <= hi <= v.len(),
            s == v@.subrange(lo as int, hi as int),
            d == unsigned_digits(s),
            d == v@.subrange(start as int, hi as int),
            forall|i: int| start <= i < k ==> '0' <= #[trigger] v@[i] && v@[i] <= '9',
        decreases hi - k,
    {
        if !('0' <= v[k] && v[k] <= '9') {
            assert(!('0' <= d[k - start] && d[k - start] <= '9'));
            assert(!all_digits(d));
            return None;
        }
        k = k + 1;
    }
    assert(forall|i: int| 0 <= i < d.len() ==> d[i] == v@[start + i]);
    assert(forall|i: int| 0 <= i < d.len() ==> '0' <= #[trigger] d[i] && d[i] <= '9') by {
        assert forall|i: int| 0 <= i < d.len() implies '0' <= #[trigger] d[i] && d[i] <= '9' by {
            assert(d[i] == v@[start + i]);
        }
    }
    let mut acc: u64 = 0;
    let mut j = start;
    assert(d.take(0) =~= Seq::<char>::empty());
    while j < hi
        invariant
            start <= j <= hi <= v.len(),
            s == v@.subrange(lo as int, hi as int),
            d == unsigned_digits(s),
            d == v@.subrange(start as int, hi as int),
            forall|i: int| 0 <= i < d.len() ==> '0' <= #[trigger] d[i] && d[i] <= '9',
            forall|i: int| 0 <= i < d.len() ==> d[i] == v@[start + i],
            acc == digits_value(d.take(j - start)),
        decreases hi - j,
    {
        assert(d[j - start] == v@[j as int]);
        let dig = (v[j] as u32 - '0' as u32) as u64;
        proof {
            assert(d.take(j - start + 1).drop_last() =~= d.take(j - start));
            assert(d.take(j - start + 1).last() == v@[j as int]);
        }
        if acc > 1844674407370955161u64 || (acc == 1844674407370955161u64 && dig > 5) {
            proof {
                assert(digits_value(d.take(j - start + 1)) > u64::MAX);
                lemma_digits_value_grows(d, j - start + 1);
            }
            assert(digits_value(d) > u64::MAX);
            assert(all_digits(d));
            return None;
        }
        acc = acc * 10 + dig;
        j = j + 1;
    }
    assert(d.take(d.len() as int) =~= d);
    assert(all_digits(d));
    Some(acc)
}

/// Whether a stamp with content `content` signals a reload after `last`, and the stamp
/// remembered afterwards.
pub open spec fn stamp_observation(content: Seq<char>, last: Option<u64>) -> (bool, Option<u64>) {
    match parse_u64_spec(trim(content)) {
        None => (false, last),
        Some(ts) => match last {
            Some(prev) => if ts <= prev {
                (false, last)
            } else {
                (true, Some(ts))
            },
            None => (true, Some(ts)),
        },
    }
}

/// Decides whether the stamp file content signals a reload: it does when it holds a timestamp
/// newer than the one last seen (or none was seen), which is then remembered.
pub fn observe_reload_stamp(content: &str, last_stamp: &mut Option<u64>) -> (r: bool)
    ensures
        (r, *final(last_stamp)) == stamp_observation(content@, *old(last_stamp)),
{
    let v = chars_of(content);
    let (a, b) = trim_range(&v, 0, v.len());
    assert(v@.subrange(0, v@.len() as int) =~= v@);
    let ts = match parse_u64_range(&v, a, b) {
        Some(t) => t,
        None => return false,
    };
    match *last_stamp {
        Some(prev) => {
            if ts <= prev {
                return false;
            }
        },
        None => {},
    }
    *last_stamp = Some(ts);
    true
}

/// Law: the remembered stamp never decreases, and a reload is signalled exactly when it
/// changes.
pub proof fn law_stamp_monotone(content: Seq<char>, last: Option<u64>)
    ensures
        ({
            let (fire, next) = stamp_observation(content, last);
            &&& fire <==> next != last
            &&& last matches Some(prev) ==> (next matches Some(n) && n >= prev)
            &&& last is None && next is Some ==> fire
        }),
{
}

} // verus!
