use vstd::prelude::*;

verus! {

/// The RPC surface of a journal server that a call goes to.
#[derive(Clone, Copy, Debug, PartialEq, Eq, Structural)]
pub enum JournalEngineService {
    Admin,
    Inner,
}

/// The journal-server RPCs that the placement center makes.
#[derive(Clone, Copy, Debug, PartialEq, Eq, Structural)]
pub enum JournalEngineInterface {
    UpdateCache,
    DeleteShardFile,
    GetShardDeleteStatus,
    DeleteSegmentFile,
    GetSegmentDeleteStatus,
    ListShard,
    ListSegment,
}

impl JournalEngineInterface {
    /// The service that serves this interface.
    pub fn service(&self) -> (r: JournalEngineService)
        ensures
            r == spec_service_of(*self),
    {
        match self {
            JournalEngineInterface::ListShard | JournalEngineInterface::ListSegment => {
                JournalEngineService::Admin
            },
            _ => JournalEngineService::Inner,
        }
    }
}

pub open spec fn spec_service_of(i: JournalEngineInterface) -> JournalEngineService {
    match i {
        JournalEngineInterface::ListShard | JournalEngineInterface::ListSegment => {
            JournalEngineService::Admin
        },
        _ => JournalEngineService::Inner,
    }
}

/// Why a retried call gave up.
#[derive(Debug, PartialEq, Eq)]
pub enum RetryError {
    /// The call was given no address to try.
    EmptyAddrList,
    /// The last attempt failed with this message.
    CallFailed(String),
}

/// The bookkeeping of one retried call: which attempt is under way,
/// how many retries the configuration allows, over how many addresses.
#[derive(Clone, Copy, Debug)]
pub struct RetryCall {
    times: u64,
    retry_max: u64,
    addr_count: usize,
}

/// Attempt `n` (counted from 1) is made: the first always is, and each later
/// one follows a failed attempt that was still within the retry budget.
pub open spec fn attempt_reached(retry_max: u64, n: int) -> bool
    decreases n,
{
    if n <= 0 {
        false
    } else if n == 1 {
        true
    } else {
        attempt_reached(retry_max, n - 1) && retries_after(n - 1, retry_max)
    }
}

/// After a failed attempt `n`, another one is made (attempts are counted in a `u64`).
pub open spec fn retries_after(n: int, retry_max: u64) -> bool {
    n <= retry_max && n < u64::MAX
}

/// The address index that attempt `n` goes to.
pub open spec fn target_of(n: int, addr_count: int) -> int {
    n % addr_count
}

impl RetryCall {
    pub closed spec fn attempt(&self) -> int {
        self.times as int
    }

    pub closed spec fn max_retries(&self) -> u64 {
        self.retry_max
    }

    pub closed spec fn addr_count(&self) -> int {
        self.addr_count as int
    }

    pub closed spec fn wf(&self) -> bool {
        &&& 1 <= self.times <= self.retry_max as int + 1
        &&& self.addr_count > 0
        &&& attempt_reached(self.retry_max, self.times as int)
    }

    /// Starts a call over `addr_count` addresses; it fails at once when there are none.
    pub fn start(addr_count: usize, retry_max: u64) -> (r: Result<RetryCall, RetryError>)
        ensures
            addr_count == 0 <==> r == Err::<RetryCall, RetryError>(RetryError::EmptyAddrList),
            match r {
                Ok(c) => c.wf() && c.attempt() == 1 && c.max_retries() == retry_max
                    && c.addr_count() == addr_count,
                Err(e) => e == RetryError::EmptyAddrList,
            },
    {
        if addr_count == 0 {
            return Err(RetryError::EmptyAddrList);
        }
        Ok(RetryCall { times: 1, retry_max, addr_count })
    }

    /// The index in the address list of the current attempt's target.
    pub fn target(&self) -> (r: usize)
        requires
            self.wf(),
        ensures
            r as int == target_of(self.attempt(), self.addr_count()),
            r < self.addr_count(),
    {
        (self.times % (self.addr_count as u64)) as usize
    }

    /// Records that the current attempt failed. Returns whether another attempt
    /// follows; if not, the caller surfaces the last error.
    pub fn on_failure(&mut self) -> (retry: bool)
        requires
            old(self).wf(),
        ensures
            final(self).wf(),
            retry == retries_after(old(self).attempt(), old(self).max_retries()),
            retry ==> final(self).attempt() == old(self).attempt() + 1,
            !retry ==> *final(self) == *old(self),
            final(self).max_retries() == old(self).max_retries(),
            final(self).addr_count() == old(self).addr_count(),
    {
        if self.times > self.retry_max || self.times == u64::MAX {
            return false;
        }
        self.times = self.times + 1;
        true
    }

    /// Seconds to wait before the current attempt: `step` per attempt, at most `cap`.
    pub fn backoff_secs(&self, step: u64, cap: u64) -> (r: u64)
        requires
            self.wf(),
        ensures
            r == backoff_of(self.attempt(), step as int, cap as int),
    {
        backoff(self.times, step, cap)
    }
}

/// The wait before attempt `n`: linear in `n`, capped.
pub open spec fn backoff_of(n: int, step: int, cap: int) -> int {
    if n * step < cap {
        n * step
    } else {
        cap
    }
}

/// The wait before attempt `times`, computed without overflow.
pub fn backoff(times: u64, step: u64, cap: u64) -> (r: u64)
    ensures
        r == backoff_of(times as int, step as int, cap as int),
{
    if step == 0 {
        proof {
            assert(times as int * 0 == 0) by (nonlinear_arith);
        }
        return if 0 < cap {
            0
        } else {
            cap
        };
    }
    if times > cap / step {
        proof {
            assert(times as int * step as int >= cap as int) by (nonlinear_arith)
                requires
                    times > cap / step,
                    step > 0,
            ;
        }
        cap
    } else {
        proof {
            assert(times as int * step as int <= cap as int) by (nonlinear_arith)
                requires
                    times <= cap / step,
                    step > 0,
            ;
        }
        let p = times * step;
        if p < cap {
            p
        } else {
            cap
        }
    }
}

/// The wait never decreases from one attempt to the next and never exceeds the cap.
pub proof fn lemma_backoff_bounded_monotone(a: int, b: int, step: int, cap: int)
    requires
        0 <= a <= b,
        0 <= step,
        0 <= cap,
    ensures
        backoff_of(a, step, cap) <= backoff_of(b, step, cap),
        backoff_of(b, step, cap) <= cap,
{
    assert(a * step <= b * step) by (nonlinear_arith)
        requires
            0 <= a <= b,
            0 <= step,
    ;
}

/// A retried call makes at most `retry_max + 1` attempts.
pub proof fn lemma_attempts_bounded(retry_max: u64, n: int)
    requires
        attempt_reached(retry_max, n),
    ensures
        1 <= n <= retry_max + 1,
    decreases n,
{
    if n > 1 {
        lemma_attempts_bounded(retry_max, n - 1);
    }
}

/// Over attempts `1..=k` with `k` at least the number of addresses, every
/// address is the target of some attempt.
pub proof fn lemma_rotation_covers(addr_count: int, k: int, idx: int)
    requires
        addr_count > 0,
        k >= addr_count,
        0 <= idx < addr_count,
    ensures
        exists|n: int| 1 <= n <= k && target_of(n, addr_count) == idx,
{
    if idx == 0 {
        assert(target_of(addr_count, addr_count) == 0) by (nonlinear_arith)
            requires
                addr_count > 0,
        ;
    } else {
        assert(target_of(idx, addr_count) == idx) by (nonlinear_arith)
            requires
                0 < idx < addr_count,
        ;
    }
}

} // verus!
