//! The route-planner bookkeeping: a map of failing addresses and the
//! status report built from it.

use vstd::prelude::*;
use vstd::string::StringExecFns;
use chrono::TimeZone;

verus! {

/// One failing address: when it failed (epoch milliseconds) and that
/// moment rendered as text.
pub struct FailingAddress {
    pub address: String,
    pub timestamp: u64,
    pub time: String,
}

/// The `/v4/routeplanner/status` answer.
pub struct RoutePlannerStatus {
    pub class: Option<String>,
    pub details: Option<RoutePlannerDetails>,
}

/// The status details when any address is marked failing.
pub struct RoutePlannerDetails {
    pub ip_block: IpBlock,
    pub failing_addresses: Vec<FailingAddress>,
    pub rotate_index: String,
    pub ip_index: String,
    pub current_address: String,
}

/// The advertised address block.
pub struct IpBlock {
    pub kind: String,
    pub size: String,
}

/// The first index whose pair carries this address.
pub open spec fn find_banned(m: Seq<(String, u64)>, a: Seq<char>) -> Option<int>
    decreases m.len(),
{
    if m.len() == 0 {
        None
    } else if m[0].0@ == a {
        Some(0int)
    } else {
        match find_banned(m.drop_first(), a) {
            Some(i) => Some(i + 1),
            None => None,
        }
    }
}

pub proof fn lemma_find_banned(m: Seq<(String, u64)>, a: Seq<char>)
    ensures
        match find_banned(m, a) {
            Some(i) => 0 <= i < m.len() && m[i].0@ == a,
            None => forall|j: int| 0 <= j < m.len() ==> m[j].0@ != a,
        },
    decreases m.len(),
{
    if m.len() > 0 && m[0].0@ != a {
        lemma_find_banned(m.drop_first(), a);
        match find_banned(m.drop_first(), a) {
            Some(i) => {
                assert(m[i + 1] == m.drop_first()[i]);
            },
            None => {
                assert forall|j: int| 0 <= j < m.len() implies m[j].0@ != a by {
                    if j >= 1 {
                        assert(m[j] == m.drop_first()[j - 1]);
                    }
                }
            },
        }
    }
}

pub proof fn lemma_find_banned_first(m: Seq<(String, u64)>, a: Seq<char>, i: int)
    requires
        0 <= i < m.len(),
        m[i].0@ == a,
        forall|j: int| 0 <= j < i ==> m[j].0@ != a,
    ensures
        find_banned(m, a) == Some(i),
    decreases m.len(),
{
    if i > 0 {
        assert forall|j: int| 0 <= j < i - 1 implies m.drop_first()[j].0@ != a by {
            assert(m.drop_first()[j] == m[j + 1]);
        }
        assert(m.drop_first()[i - 1] == m[i]);
        lemma_find_banned_first(m.drop_first(), a, i - 1);
    }
}

/// Relies on chrono's `timestamp_millis_opt` and `to_rfc3339`: the
/// machine's time zone decides the text, so nothing is promised of it; a
/// moment outside chrono's calendar range yields the empty text rather
/// than a fault.
#[verifier::external_body]
fn rfc3339_local_of_millis(ts: u64) -> (r: String) {
    let millis = i64::try_from(ts).unwrap_or(i64::MAX);
    match chrono::Local.timestamp_millis_opt(millis) {
        chrono::MappedLocalTime::Single(dt) => dt.to_rfc3339(),
        chrono::MappedLocalTime::Ambiguous(dt, _) => dt.to_rfc3339(),
        chrono::MappedLocalTime::None => String::new(),
    }
}

/// No two entries mark the same address, as a keyed map admits no
/// duplicate key.
pub open spec fn wf_banned(m: Seq<(String, u64)>) -> bool {
    forall|i: int, j: int| 0 <= i < j < m.len() ==> #[trigger] m[i].0@ != #[trigger] m[j].0@
}

/// The map of addresses marked failing, by failure time.
pub struct RoutePlannerManager {
    pub banned_ips: Vec<(String, u64)>,
}

impl RoutePlannerManager {
    pub fn new() -> (r: Self)
        ensures
            r.banned_ips@.len() == 0,
            wf_banned(r.banned_ips@),
    {
        RoutePlannerManager { banned_ips: Vec::new() }
    }

    /// The status report: nothing when no address is failing; otherwise
    /// the rotating-planner class with one entry per failing address, in
    /// map order.
    pub fn get_status(&self) -> (r: RoutePlannerStatus)
        ensures
            self.banned_ips@.len() == 0 ==> r.class is None && r.details is None,
            self.banned_ips@.len() > 0 ==> {
                &&& r.class matches Some(c) && c@ == "RotatingIpRoutePlanner"@
                &&& r.details matches Some(d) && {
                    &&& d.failing_addresses@.len() == self.banned_ips@.len()
                    &&& (forall|k: int|
                        0 <= k < self.banned_ips@.len() ==> {
                            &&& (#[trigger] d.failing_addresses@[k]).address@
                                == self.banned_ips@[k].0@
                            &&& d.failing_addresses@[k].timestamp == self.banned_ips@[k].1
                        })
                    &&& d.ip_block.kind@ == "Inet4Address"@
                    &&& d.ip_block.size@ == "1"@
                    &&& d.rotate_index@ == "0"@
                    &&& d.ip_index@ == "0"@
                    &&& d.current_address@ == "0.0.0.0"@
                }
            },
    {
        let mut failing: Vec<FailingAddress> = Vec::new();
        let mut i: usize = 0;
        while i < self.banned_ips.len()
            invariant
                i <= self.banned_ips@.len(),
                failing@.len() == i,
                forall|k: int|
                    0 <= k < i ==> {
                        &&& (#[trigger] failing@[k]).address@ == self.banned_ips@[k].0@
                        &&& failing@[k].timestamp == self.banned_ips@[k].1
                    },
            decreases self.banned_ips@.len() - i,
        {
            let ts = self.banned_ips[i].1;
            let entry = FailingAddress {
                address: self.banned_ips[i].0.clone(),
                timestamp: ts,
                time: rfc3339_local_of_millis(ts),
            };
            failing.push(entry);
            i += 1;
        }
        if failing.len() == 0 {
            RoutePlannerStatus { class: None, details: None }
        } else {
            RoutePlannerStatus {
                class: Some(String::from_str("RotatingIpRoutePlanner")),
                details: Some(
                    RoutePlannerDetails {
                        ip_block: IpBlock {
                            kind: String::from_str("Inet4Address"),
                            size: String::from_str("1"),
                        },
                        failing_addresses: failing,
                        rotate_index: String::from_str("0"),
                        ip_index: String::from_str("0"),
                        current_address: String::from_str("0.0.0.0"),
                    },
                ),
            }
        }
    }

    /// Unmarks one address: afterwards it is marked no longer, every
    /// other entry stays, and a repeated call changes nothing.
    pub fn unmark_address(&mut self, address: &String)
        requires
            wf_banned(old(self).banned_ips@),
        ensures
            wf_banned(final(self).banned_ips@),
            forall|j: int|
                0 <= j < final(self).banned_ips@.len()
                    ==> (#[trigger] final(self).banned_ips@[j]).0@ != address@,
            match find_banned(old(self).banned_ips@, address@) {
                Some(i) => final(self).banned_ips@ == old(self).banned_ips@.remove(i),
                None => final(self).banned_ips@ == old(self).banned_ips@,
            },
    {
        proof {
            lemma_find_banned(self.banned_ips@, address@);
        }
        let n = self.banned_ips.len();
        let mut i: usize = 0;
        while i < n
            invariant
                n == self.banned_ips@.len(),
                self.banned_ips@ == old(self).banned_ips@,
                wf_banned(old(self).banned_ips@),
                i <= n,
                forall|j: int| 0 <= j < i ==> self.banned_ips@[j].0@ != address@,
            decreases n - i,
        {
            if self.banned_ips[i].0 == *address {
                proof {
                    lemma_find_banned_first(self.banned_ips@, address@, i as int);
                }
                self.banned_ips.remove(i);
                proof {
                    let before = old(self).banned_ips@;
                    let after = self.banned_ips@;
                    assert(after.len() == before.len() - 1);
                    assert forall|j: int|
                        0 <= j < after.len() implies (#[trigger] after[j]).0@ != address@ by {
                        if j < i as int {
                            assert(after[j] == before[j]);
                        } else {
                            assert(after[j] == before[j + 1]);
                            assert(i as int <= j);
                            assert(j + 1 < before.len());
                            assert(before[i as int].0@ != before[j + 1].0@);
                        }
                    }
                    assert forall|a: int, b: int|
                        0 <= a < b < after.len() implies #[trigger] after[a].0@
                        != #[trigger] after[b].0@ by {
                        let a0 = if a < i as int { a } else { a + 1 };
                        let b0 = if b < i as int { b } else { b + 1 };
                        assert(after[a] == before[a0]);
                        assert(after[b] == before[b0]);
                        assert(before[a0].0@ != before[b0].0@);
                    }
                }
                return ;
            }
            i += 1;
        }
        proof {
            match find_banned(self.banned_ips@, address@) {
                Some(k) => {
                    assert(self.banned_ips@[k].0@ == address@);
                },
                None => {},
            }
        }
    }

    /// Unmarks every address.
    pub fn unmark_all_addresses(&mut self)
        ensures
            final(self).banned_ips@.len() == 0,
            wf_banned(final(self).banned_ips@),
    {
        self.banned_ips.clear();
    }
}

} // verus!
