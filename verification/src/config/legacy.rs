//! Warnings for flat keys of older configuration files, which the sectioned
//! schema replaced.

use vstd::prelude::*;

use crate::config::root::RexConfig;
use crate::text::chars_of;

verus! {

/// The flat keys that older files used, in the order they are reported.
pub open spec fn legacy_keys() -> Seq<Seq<char>> {
    seq![
        "persistence_enabled"@,
        "persistence_path"@,
        "offline_enabled"@,
        "offline_ttl"@,
        "ack_enabled"@,
        "ack_timeout"@,
        "ack_retries"@,
    ]
}

/// `pat` occurs in `t`.
pub open spec fn contains_text(t: Seq<char>, pat: Seq<char>) -> bool {
    exists|i: int| 0 <= i && i + pat.len() <= t.len() && #[trigger] t.subrange(i, i + pat.len()) == pat
}

/// The warning for one legacy key.
pub open spec fn legacy_warning(k: Seq<char>) -> Seq<char> {
    k + " is deprecated; use [persistence]/[persistence.offline]/[ack] section in rex.toml"@
}

/// The warnings for the first `n` legacy keys that the body assigns
/// (`key =`), in order.
pub open spec fn legacy_warnings(body: Seq<char>, n: int) -> Seq<Seq<char>>
    decreases n,
{
    if n <= 0 {
        Seq::empty()
    } else {
        let prev = legacy_warnings(body, n - 1);
        let k = legacy_keys()[n - 1];
        if contains_text(body, k + " ="@) {
            prev.push(legacy_warning(k))
        } else {
            prev
        }
    }
}

/// Whether `pat` occurs in `t`.
fn chars_contain(t: &[char], pat: &[char]) -> (r: bool)
    requires
        pat@.len() > 0,
    ensures
        r == contains_text(t@, pat@),
{
    if pat.len() > t.len() {
        assert forall|i: int| 0 <= i && i + pat@.len() <= t@.len() implies #[trigger] t@.subrange(
            i,
            i + pat@.len(),
        ) != pat@ by {}
        return false;
    }
    let tl = t.len();
    let pl = pat.len();
    let last = tl - pl;
    let mut i: usize = 0;
    while i <= last
        invariant
            tl == t@.len(),
            pl == pat@.len(),
            0 < pl <= tl,
            pat@.len() <= t@.len(),
            last == t@.len() - pat@.len(),
            i <= last + 1,
            forall|k: int| 0 <= k < i ==> #[trigger] t@.subrange(k, k + pat@.len()) != pat@,
        decreases t@.len() - i,
    {
        let mut j: usize = 0;
        let mut same = true;
        while j < pat.len()
            invariant
                tl == t@.len(),
                pl == pat@.len(),
                0 < pl <= tl,
                i <= last,
                last == t@.len() - pat@.len(),
                j <= pat@.len(),
                same <==> forall|m: int| 0 <= m < j ==> t@[i + m] == pat@[m],
            decreases pat@.len() - j,
        {
            if t[i + j] != pat[j] {
                same = false;
            }
            j = j + 1;
        }
        if same {
            assert(t@.subrange(i as int, i + pat@.len()) =~= pat@);
            return true;
        }
        assert(t@.subrange(i as int, i + pat@.len()) != pat@) by {
            let m = choose|m: int| 0 <= m < pat@.len() && t@[i + m] != pat@[m];
            assert(t@.subrange(i as int, i + pat@.len())[m] != pat@[m]);
        }
        i = i + 1;
    }
    assert forall|k: int| 0 <= k && k + pat@.len() <= t@.len() implies #[trigger] t@.subrange(
        k,
        k + pat@.len(),
    ) != pat@ by {
        assert(k < i);
    }
    false
}

/// The warnings for the legacy flat keys that a configuration file assigns.
pub fn collect_legacy_alias_warnings(_cfg: &RexConfig, body: &str) -> (r: Vec<String>)
    ensures
        r@.map_values(|s: String| s@) == legacy_warnings(body@, 7),
{
    let keys: [&str; 7] = [
        "persistence_enabled",
        "persistence_path",
        "offline_enabled",
        "offline_ttl",
        "ack_enabled",
        "ack_timeout",
        "ack_retries",
    ];
    proof {
        reveal_strlit("persistence_enabled");
        reveal_strlit("persistence_path");
        reveal_strlit("offline_enabled");
        reveal_strlit("offline_ttl");
        reveal_strlit("ack_enabled");
        reveal_strlit("ack_timeout");
        reveal_strlit("ack_retries");
        reveal_strlit(" =");
    }
    assert(keys@.map_values(|k: &str| k@) =~= legacy_keys());
    let text = chars_of(body);
    let mut out: Vec<String> = Vec::new();
    let mut n: usize = 0;
    while n < 7
        invariant
            n <= 7,
            keys@.len() == 7,
            keys@.map_values(|k: &str| k@) == legacy_keys(),
            text@ == body@,
            out@.map_values(|s: String| s@) == legacy_warnings(body@, n as int),
        decreases 7 - n,
    {
        let k = keys[n];
        assert(k@ == legacy_keys()[n as int]);
        let mut pat = String::from_str(k);
        pat.append(" =");
        proof {
            reveal_strlit(" =");
        }
        let pv = chars_of(pat.as_str());
        let found = chars_contain(text.as_slice(), pv.as_slice());
        let ghost before = out@;
        if found {
            let mut w = String::from_str(k);
            w.append(" is deprecated; use [persistence]/[persistence.offline]/[ack] section in rex.toml");
            out.push(w);
            assert(out@.map_values(|s: String| s@) =~= before.map_values(|s: String| s@).push(w@));
        }
        n = n + 1;
    }
    out
}

} // verus!
