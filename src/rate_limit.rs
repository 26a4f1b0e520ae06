use vstd::prelude::*;

verus! {

/// Failed validations after which an address is blocked.
pub const MAX_AUTH_FAILURES: u32 = 5;

/// Seconds an address stays blocked after its last failure.
pub const AUTH_BLOCK_DURATION_SECS: u64 = 60;

/// Per-address failure counts: address to (count, time of last failure).
pub type FailureMap = Map<Seq<char>, (u32, u64)>;

/// One address's failure count and time of its last failure, in seconds.
#[derive(Debug, Clone)]
pub struct FailureRecord {
    pub ip: String,
    pub count: u32,
    pub last_failure: u64,
}

/// The auth-failure table of a session.
#[derive(Debug, Clone)]
pub struct AuthFailures {
    records: Vec<FailureRecord>,
}

/// The table that a list of records describes; a later record of an
/// address overrides an earlier one.
pub open spec fn records_map(s: Seq<FailureRecord>) -> FailureMap
    decreases s.len(),
{
    if s.len() == 0 {
        Map::empty()
    } else {
        records_map(s.drop_last()).insert(s.last().ip@, (s.last().count, s.last().last_failure))
    }
}

/// Seconds from `then` to `now`, zero if `now` is earlier.
pub open spec fn elapsed_secs(now: u64, then: u64) -> nat {
    if now >= then { (now - then) as nat } else { 0 }
}

/// Seconds `ip` stays blocked at `now`, if it is blocked.
pub open spec fn block_remaining(m: FailureMap, ip: Seq<char>, now: u64) -> Option<nat> {
    if m.contains_key(ip) && m[ip].0 >= MAX_AUTH_FAILURES
        && elapsed_secs(now, m[ip].1) < AUTH_BLOCK_DURATION_SECS {
        Some((AUTH_BLOCK_DURATION_SECS - elapsed_secs(now, m[ip].1)) as nat)
    } else {
        None
    }
}

/// The table after a failed validation from `ip` at `now`: the count goes
/// up by one (saturating), or restarts at one where there was no record or
/// the block duration has passed since the last failure.
pub open spec fn failure_recorded(m: FailureMap, ip: Seq<char>, now: u64) -> FailureMap {
    let count: u32 = if m.contains_key(ip) && elapsed_secs(now, m[ip].1) < AUTH_BLOCK_DURATION_SECS {
        if m[ip].0 < u32::MAX { (m[ip].0 + 1) as u32 } else { u32::MAX }
    } else {
        1
    };
    m.insert(ip, (count, now))
}

/// The table after failed validations from `ip` at each of `times`, in order.
pub open spec fn failures_recorded(m: FailureMap, ip: Seq<char>, times: Seq<u64>) -> FailureMap
    decreases times.len(),
{
    if times.len() == 0 {
        m
    } else {
        failure_recorded(failures_recorded(m, ip, times.drop_last()), ip, times.last())
    }
}

/// Times in order, each less than the block duration after the one before.
pub open spec fn within_block_window(times: Seq<u64>) -> bool {
    forall|i: int|
        0 < i < times.len() ==> times[i - 1] <= #[trigger] times[i] && times[i]
            - times[i - 1] < AUTH_BLOCK_DURATION_SECS
}

impl View for AuthFailures {
    type V = FailureMap;

    closed spec fn view(&self) -> FailureMap {
        records_map(self.records@)
    }
}

impl AuthFailures {
    /// An empty table.
    pub fn new() -> (r: Self)
        ensures
            r@ == FailureMap::empty(),
    {
        AuthFailures { records: Vec::new() }
    }

    /// The count and last-failure time recorded for `ip`.
    pub fn get(&self, ip: &str) -> (r: Option<(u32, u64)>)
        ensures
            r is Some <==> self@.contains_key(ip@),
            r matches Some(v) ==> v == self@[ip@],
    {
        let key = ip.to_owned();
        let mut i: usize = self.records.len();
        assert(self.records@.subrange(0, i as int) == self.records@);
        while i > 0
            invariant
                i <= self.records.len(),
                key@ == ip@,
                self@.contains_key(ip@) == records_map(self.records@.subrange(0, i as int)).contains_key(ip@),
                self@.contains_key(ip@) ==> self@[ip@] == records_map(self.records@.subrange(0, i as int))[ip@],
            decreases i,
        {
            let ghost pre = self.records@.subrange(0, i as int);
            assert(pre.drop_last() == self.records@.subrange(0, i - 1));
            let rec = &self.records[i - 1];
            assert(pre.last() == *rec);
            assert(records_map(pre) == records_map(pre.drop_last()).insert(rec.ip@, (rec.count, rec.last_failure)));
            if rec.ip == key {
                return Some((rec.count, rec.last_failure));
            }
            i -= 1;
        }
        None
    }

    /// Removes the record of `ip`.
    pub fn clear(&mut self, ip: &str)
        ensures
            final(self)@ == old(self)@.remove(ip@),
    {
        let key = ip.to_owned();
        let mut kept: Vec<FailureRecord> = Vec::new();
        let mut i: usize = 0;
        while i < self.records.len()
            invariant
                i <= self.records.len(),
                key@ == ip@,
                records_map(kept@) == records_map(self.records@.subrange(0, i as int)).remove(ip@),
            decreases self.records.len() - i,
        {
            let ghost pre = self.records@.subrange(0, i as int);
            assert(self.records@.subrange(0, i + 1).drop_last() == pre);
            let rec = &self.records[i];
            if rec.ip != key {
                let ghost before = kept@;
                kept.push(FailureRecord { ip: rec.ip.clone(), count: rec.count, last_failure: rec.last_failure });
                assert(kept@.drop_last() == before);
                assert(records_map(kept@) == records_map(before).insert(rec.ip@, (rec.count, rec.last_failure)));
            }
            assert(self.records@.subrange(0, i + 1).last() == *rec);
            assert(records_map(self.records@.subrange(0, i + 1)) == records_map(pre).insert(rec.ip@, (rec.count, rec.last_failure)));
            assert(records_map(kept@) =~= records_map(self.records@.subrange(0, i + 1)).remove(ip@));
            i += 1;
        }
        assert(self.records@.subrange(0, self.records.len() as int) == self.records@);
        self.records = kept;
    }

    /// Sets the record of `ip`.
    pub fn set(&mut self, ip: &str, count: u32, last_failure: u64)
        ensures
            final(self)@ == old(self)@.insert(ip@, (count, last_failure)),
    {
        self.clear(ip);
        let ghost before = self.records@;
        self.records.push(FailureRecord { ip: ip.to_owned(), count, last_failure });
        assert(self.records@.drop_last() == before);
    }

    /// Seconds that `ip` stays blocked at `now`, if it has reached the
    /// failure limit and the block duration has not passed since its last
    /// failure.
    pub fn blocked_for(&self, ip: &str, now: u64) -> (r: Option<u64>)
        ensures
            r matches Some(s) ==> block_remaining(self@, ip@, now) == Some(s as nat),
            r is None ==> block_remaining(self@, ip@, now) is None,
    {
        match self.get(ip) {
            Some((count, last)) => {
                let elapsed: u64 = if now >= last { now - last } else { 0 };
                if count >= MAX_AUTH_FAILURES && elapsed < AUTH_BLOCK_DURATION_SECS {
                    Some(AUTH_BLOCK_DURATION_SECS - elapsed)
                } else {
                    None
                }
            },
            None => None,
        }
    }

    /// Records a failed validation from `ip` at `now`.
    pub fn record_failure(&mut self, ip: &str, now: u64)
        ensures
            final(self)@ == failure_recorded(old(self)@, ip@, now),
    {
        let count: u32 = match self.get(ip) {
            Some((count, last)) => {
                let elapsed: u64 = if now >= last { now - last } else { 0 };
                if elapsed < AUTH_BLOCK_DURATION_SECS {
                    count.saturating_add(1)
                } else {
                    1
                }
            },
            None => 1,
        };
        self.set(ip, count, now);
    }
}

/// A lemma on the failure table alone: `MAX_AUTH_FAILURES` failed
/// validations from an address with no record, each within the block
/// duration of the one before, block that address until the block duration
/// has passed since the last of them, whatever is presented meanwhile; fewer
/// failures do not block it; and clearing the address's record (what a
/// successful validation does) unblocks it at once.
pub proof fn lemma_failures_block_address(m: FailureMap, ip: Seq<char>, times: Seq<u64>, now: u64)
    requires
        !m.contains_key(ip),
        0 < times.len() <= MAX_AUTH_FAILURES,
        within_block_window(times),
        times.last() <= now,
        now - times.last() < AUTH_BLOCK_DURATION_SECS,
    ensures
        failures_recorded(m, ip, times).contains_key(ip),
        failures_recorded(m, ip, times)[ip] == (times.len() as u32, times.last()),
        times.len() == MAX_AUTH_FAILURES ==> block_remaining(failures_recorded(m, ip, times), ip, now)
            == Some((AUTH_BLOCK_DURATION_SECS - (now - times.last())) as nat),
        times.len() < MAX_AUTH_FAILURES ==> block_remaining(failures_recorded(m, ip, times), ip, now) is None,
        block_remaining(failures_recorded(m, ip, times).remove(ip), ip, now) is None,
{
    lemma_count_follows_failures(m, ip, times);
}

proof fn lemma_count_follows_failures(m: FailureMap, ip: Seq<char>, times: Seq<u64>)
    requires
        !m.contains_key(ip),
        0 < times.len() <= MAX_AUTH_FAILURES,
        within_block_window(times),
    ensures
        failures_recorded(m, ip, times).contains_key(ip),
        failures_recorded(m, ip, times)[ip] == (times.len() as u32, times.last()),
    decreases times.len(),
{
    let init = times.drop_last();
    if init.len() == 0 {
        assert(failures_recorded(m, ip, init) == m);
    } else {
        assert forall|i: int| 0 < i < init.len() implies init[i - 1] <= #[trigger] init[i] && init[i]
            - init[i - 1] < AUTH_BLOCK_DURATION_SECS by {
            assert(init[i] == times[i] && init[i - 1] == times[i - 1]);
        }
        lemma_count_follows_failures(m, ip, init);
        assert(times[times.len() - 1] - times[times.len() - 2] < AUTH_BLOCK_DURATION_SECS);
    }
}

} // verus!
