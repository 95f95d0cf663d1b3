//! Retry policies: how often a node is tried and how long to wait in between.
use crate::clock::TimeSpan;
use vstd::prelude::*;

verus! {

/// Retry policy attached to the graph or overridden per-node.
#[derive(Debug, Clone, Copy, PartialEq, Eq, Structural)]
pub struct RetryPolicy {
    /// Maximum number of attempts (including the first). Default: 3.
    pub max_attempts: u8,
    /// Base delay in milliseconds before the first retry. Default: 500ms.
    pub base_delay_ms: u64,
    /// Maximum delay cap in milliseconds. Default: 30_000ms.
    pub max_delay_ms: u64,
    /// Apply random jitter to each delay, within 25% either way. Default: true.
    pub jitter: bool,
}

impl Default for RetryPolicy {
    fn default() -> (policy: Self)
        ensures
            policy == (RetryPolicy {
                max_attempts: 3,
                base_delay_ms: 500,
                max_delay_ms: 30_000,
                jitter: true,
            }),
    {
        RetryPolicy { max_attempts: 3, base_delay_ms: 500, max_delay_ms: 30_000, jitter: true }
    }
}

/// Two to the power `n`.
pub open spec fn pow2(n: nat) -> nat
    decreases n,
{
    if n == 0 {
        1
    } else {
        2 * pow2((n - 1) as nat)
    }
}

/// The smaller of two numbers.
pub open spec fn smaller(a: int, b: int) -> int {
    if a <= b {
        a
    } else {
        b
    }
}

impl RetryPolicy {
    /// The delay before jitter: the base delay, doubled with each attempt and
    /// capped.
    pub open spec fn plain_delay(self, attempt: u8) -> int {
        smaller(self.base_delay_ms * pow2(attempt as nat), self.max_delay_ms as int)
    }

    /// The delay with jitter: a draw moves the plain delay within a band of a
    /// quarter of it, centred on it.
    pub open spec fn delay_ms(self, attempt: u8, draw: u64) -> int {
        let plain = self.plain_delay(attempt);
        let band = plain / 4;
        if self.jitter && band > 0 {
            smaller(plain - band / 2 + draw as int % band, u64::MAX as int)
        } else {
            plain
        }
    }

    /// Compute the delay for a given attempt (0-indexed) from a drawn number.
    pub fn delay_with_draw(&self, attempt: u8, draw: u64) -> (delay: TimeSpan)
        ensures
            delay.wf(),
            delay.total_nanos() == self.delay_ms(attempt, draw) * 1_000_000,
    {
        let mut plain: u64 = if self.base_delay_ms <= self.max_delay_ms {
            self.base_delay_ms
        } else {
            self.max_delay_ms
        };
        assert(pow2(0) == 1);
        assert(self.base_delay_ms * 1 == self.base_delay_ms);
        let mut i: u8 = 0;
        while i < attempt
            invariant
                i <= attempt,
                plain == self.plain_delay(i),
            decreases attempt - i,
        {
            proof {
                law_delay_backs_off(*self, i);
            }
            plain = if plain <= self.max_delay_ms / 2 {
                plain * 2
            } else {
                self.max_delay_ms
            };
            i = i + 1;
        }
        let band: u64 = plain / 4;
        let ms: u64 = if self.jitter && band > 0 {
            let low: u64 = plain - band / 2;
            low.saturating_add(draw % band)
        } else {
            plain
        };
        TimeSpan::from_millis(ms)
    }

    /// Compute the delay for a given attempt (0-indexed), with optional jitter.
    pub fn delay_for(&self, attempt: u8) -> (delay: TimeSpan)
        ensures
            delay.wf(),
            exists|draw: u64|
                delay.total_nanos() == #[trigger] self.delay_ms(attempt, draw) * 1_000_000,
            !self.jitter ==> delay.total_nanos() == self.plain_delay(attempt) * 1_000_000,
    {
        let draw: u64 = random_draw();
        let delay = self.delay_with_draw(attempt, draw);
        assert(delay.total_nanos() == self.delay_ms(attempt, draw) * 1_000_000);
        delay
    }

    /// The wait before a try, in milliseconds: none before the first, then the
    /// delay of the retry that the try is.
    pub open spec fn wait_ms(self, attempt: u8, draw: u64) -> int {
        if attempt == 0 {
            0
        } else {
            self.delay_ms((attempt - 1) as u8, draw)
        }
    }

    /// How long to wait before a try (0-indexed), from a drawn number.
    pub fn wait_with_draw(&self, attempt: u8, draw: u64) -> (delay: TimeSpan)
        ensures
            delay.wf(),
            delay.total_nanos() == self.wait_ms(attempt, draw) * 1_000_000,
    {
        if attempt == 0 {
            TimeSpan::from_millis(0)
        } else {
            self.delay_with_draw(attempt - 1, draw)
        }
    }

    /// How long to wait before a try (0-indexed), with optional jitter.
    pub fn wait_before(&self, attempt: u8) -> (delay: TimeSpan)
        ensures
            delay.wf(),
            exists|draw: u64|
                delay.total_nanos() == #[trigger] self.wait_ms(attempt, draw) * 1_000_000,
            attempt == 0 ==> delay.total_nanos() == 0,
            attempt > 0 && !self.jitter ==> delay.total_nanos() == self.plain_delay(
                (attempt - 1) as u8,
            ) * 1_000_000,
    {
        let draw: u64 = random_draw();
        let delay = self.wait_with_draw(attempt, draw);
        assert(delay.total_nanos() == self.wait_ms(attempt, draw) * 1_000_000);
        delay
    }
}

/// `rand::random`: any 64-bit number.
#[verifier::external_body]
fn random_draw() -> (draw: u64) {
    rand::random::<u64>()
}

proof fn lemma_pow2_positive(n: nat)
    ensures
        1 <= pow2(n),
    decreases n,
{
    if n > 0 {
        lemma_pow2_positive((n - 1) as nat);
    }
}

/// Whatever is drawn, a delay lies within a quarter of the plain delay, either
/// way, and without jitter it is the plain delay, which never passes the cap.
pub proof fn law_delay_within_a_quarter(policy: RetryPolicy, attempt: u8, draw: u64)
    ensures
        0 <= policy.plain_delay(attempt) <= policy.max_delay_ms,
        4 * policy.delay_ms(attempt, draw) >= 3 * policy.plain_delay(attempt),
        4 * policy.delay_ms(attempt, draw) <= 5 * policy.plain_delay(attempt),
        !policy.jitter ==> policy.delay_ms(attempt, draw) == policy.plain_delay(attempt),
{
    lemma_pow2_positive(attempt as nat);
    assert(policy.base_delay_ms * pow2(attempt as nat) >= 0) by (nonlinear_arith)
        requires
            policy.base_delay_ms >= 0,
            pow2(attempt as nat) >= 1,
    ;
    let plain = policy.plain_delay(attempt);
    let band = plain / 4;
    if band > 0 {
        assert(0 <= draw as int % band < band);
    }
}

/// Delays double from one attempt to the next until they reach the cap; they
/// never shrink.
pub proof fn law_delay_backs_off(policy: RetryPolicy, attempt: u8)
    requires
        attempt < 255,
    ensures
        policy.plain_delay((attempt + 1) as u8) == smaller(
            2 * policy.plain_delay(attempt),
            policy.max_delay_ms as int,
        ),
        policy.plain_delay(attempt) <= policy.plain_delay((attempt + 1) as u8),
{
    let n = attempt as nat;
    let b = policy.base_delay_ms as int;
    lemma_pow2_positive(n);
    assert(pow2(n + 1) == 2 * pow2(n));
    assert(b * (2 * pow2(n)) == 2 * (b * pow2(n))) by (nonlinear_arith);
    assert(b * pow2(n) >= 0) by (nonlinear_arith)
        requires
            b >= 0,
            pow2(n) >= 1,
    ;
}

/// Delays by their calls: the first retry waits for the base delay or the cap,
/// whichever is less, and each later one twice as long as the one before, up to
/// the cap.
pub proof fn law_delays_double(
    policy: RetryPolicy,
    attempt: u8,
    first: TimeSpan,
    delay: TimeSpan,
    next: TimeSpan,
)
    requires
        !policy.jitter,
        attempt < 255,
        call_ensures(RetryPolicy::delay_for, (&policy, 0), first),
        call_ensures(RetryPolicy::delay_for, (&policy, attempt), delay),
        call_ensures(RetryPolicy::delay_for, (&policy, (attempt + 1) as u8), next),
    ensures
        policy.base_delay_ms <= policy.max_delay_ms ==> first.secs * 1_000_000_000 + first.nanos
            == policy.base_delay_ms * 1_000_000,
        policy.base_delay_ms > policy.max_delay_ms ==> first.secs * 1_000_000_000 + first.nanos
            == policy.max_delay_ms * 1_000_000,
        ({
            let nanos = delay.secs * 1_000_000_000 + delay.nanos;
            let doubled = next.secs * 1_000_000_000 + next.nanos;
            &&& 2 * nanos <= policy.max_delay_ms * 1_000_000 ==> doubled == 2 * nanos
            &&& 2 * nanos > policy.max_delay_ms * 1_000_000 ==> doubled == policy.max_delay_ms
                * 1_000_000
        }),
{
    law_delay_backs_off(policy, attempt);
    assert(pow2(0) == 1);
    assert(policy.base_delay_ms * 1 == policy.base_delay_ms);
}

/// Jitter moves a delay by a quarter at most, and two draws move a long delay
/// differently.
pub proof fn law_jitter_spreads_delays(
    policy: RetryPolicy,
    attempt: u8,
    draw: u64,
    plain: TimeSpan,
    drawn: TimeSpan,
    zero: TimeSpan,
    one: TimeSpan,
)
    requires
        policy.jitter,
        call_ensures(
            RetryPolicy::delay_for,
            (&RetryPolicy { jitter: false, ..policy }, attempt),
            plain,
        ),
        call_ensures(RetryPolicy::delay_with_draw, (&policy, attempt, draw), drawn),
        call_ensures(RetryPolicy::delay_with_draw, (&policy, attempt, 0), zero),
        call_ensures(RetryPolicy::delay_with_draw, (&policy, attempt, 1), one),
    ensures
        ({
            let straight = plain.secs * 1_000_000_000 + plain.nanos;
            let moved = drawn.secs * 1_000_000_000 + drawn.nanos;
            &&& 4 * moved >= 3 * straight
            &&& 4 * moved <= 5 * straight
            &&& straight >= 8_000_000 ==> zero.secs * 1_000_000_000 + zero.nanos != one.secs
                * 1_000_000_000 + one.nanos
        }),
{
    let straight = RetryPolicy { jitter: false, ..policy };
    assert(straight.plain_delay(attempt) == policy.plain_delay(attempt));
    law_delay_within_a_quarter(policy, attempt, draw);
    law_delay_within_a_quarter(policy, attempt, 0);
    let p = policy.plain_delay(attempt);
    let band = p / 4;
    if p >= 8 {
        assert(0int % band == 0);
        assert(1int % band == 1) by (nonlinear_arith)
            requires
                band >= 2,
        ;
    }
}

/// Nothing is waited for before the first try, and before a retry as long as the
/// policy says for the attempt before.
pub proof fn law_retries_wait(
    policy: RetryPolicy,
    attempt: u8,
    draw: u64,
    before: TimeSpan,
    wait: TimeSpan,
    delay: TimeSpan,
)
    requires
        attempt > 0,
        call_ensures(RetryPolicy::wait_with_draw, (&policy, 0, draw), before),
        call_ensures(RetryPolicy::wait_with_draw, (&policy, attempt, draw), wait),
        call_ensures(RetryPolicy::delay_with_draw, (&policy, (attempt - 1) as u8, draw), delay),
    ensures
        before.secs == 0 && before.nanos == 0,
        wait.secs == delay.secs && wait.nanos == delay.nanos,
{
}

} // verus!
