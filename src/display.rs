//! The display state: an ordered, fixed-length sequence of (label, value) rows,
//! advanced by one rotation on every tick.

use rand::Rng;
use vstd::prelude::*;

verus! {

/// Number of rows in a freshly sampled display state.
pub const SAMPLE_ROWS: usize = 10;

/// Smallest sampled value (inclusive).
pub const SAMPLE_LOW: u64 = 1;

/// Bound of the sampled values (exclusive).
pub const SAMPLE_HIGH: u64 = 20;

/// Moves the last element of `s` to the front; the empty sequence stays empty.
pub open spec fn rotated<T>(s: Seq<T>) -> Seq<T> {
    if s.len() == 0 {
        s
    } else {
        seq![s.last()] + s.drop_last()
    }
}

/// `rotated` applied `k` times.
pub open spec fn rotated_n<T>(s: Seq<T>, k: nat) -> Seq<T>
    decreases k,
{
    if k == 0 {
        s
    } else {
        rotated(rotated_n(s, (k - 1) as nat))
    }
}

/// Relies on rand's `thread_rng().gen_range(lo..hi)`: a value drawn from the
/// half-open range, which must not be empty.
#[verifier::external_body]
fn draw_in_range(lo: u64, hi: u64) -> (r: u64)
    requires
        lo < hi,
    ensures
        lo <= r < hi,
{
    rand::thread_rng().gen_range(lo..hi)
}

/// The rows shown on screen.
#[derive(Debug)]
pub struct App {
    pub data: Vec<(&'static str, u64)>,
}

impl App {
    pub open spec fn view(&self) -> Seq<(&'static str, u64)> {
        self.data@
    }

    /// A display state of `SAMPLE_ROWS` rows labelled "service", each with a
    /// random value in `SAMPLE_LOW..SAMPLE_HIGH`.
    pub fn new() -> (r: App)
        ensures
            r.data@.len() == SAMPLE_ROWS,
            forall|i: int|
                0 <= i < r.data@.len() ==> {
                    &&& (#[trigger] r.data@[i]).0@ == "service"@
                    &&& SAMPLE_LOW <= r.data@[i].1 < SAMPLE_HIGH
                },
    {
        let mut data: Vec<(&'static str, u64)> = Vec::new();
        let mut n: usize = 0;
        while n < SAMPLE_ROWS
            invariant
                n <= SAMPLE_ROWS,
                data@.len() == n,
                forall|i: int|
                    0 <= i < data@.len() ==> {
                        &&& (#[trigger] data@[i]).0@ == "service"@
                        &&& SAMPLE_LOW <= data@[i].1 < SAMPLE_HIGH
                    },
            decreases SAMPLE_ROWS - n,
        {
            let value = draw_in_range(SAMPLE_LOW, SAMPLE_HIGH);
            data.push(("service", value));
            n = n + 1;
        }
        App { data }
    }

    /// Advances the display by one tick: the last row moves to the front.
    pub fn on_tick(&mut self)
        ensures
            final(self).data@ == rotated(old(self).data@),
    {
        match self.data.pop() {
            Some(value) => {
                self.data.insert(0, value);
                proof {
                    assert(self.data@ =~= rotated(old(self).data@));
                }
            },
            None => {},
        }
    }
}

/// Rotating a sequence of length `n` by one, `n` times, gives back the
/// sequence in its original order.
pub proof fn lemma_rotation_full_cycle<T>(s: Seq<T>)
    ensures
        rotated_n(s, s.len()) == s,
{
    if s.len() > 0 {
        lemma_rotated_n_split(s, s.len());
        assert(s.subrange(0, s.len() as int) + s.subrange(s.len() as int, s.len() as int) =~= s);
    }
}

/// After `k <= n` rotations the last `k` elements lead, followed by the rest.
proof fn lemma_rotated_n_split<T>(s: Seq<T>, k: nat)
    requires
        k <= s.len(),
    ensures
        rotated_n(s, k) == s.subrange(s.len() - k, s.len() as int) + s.subrange(0, s.len() - k),
    decreases k,
{
    let n = s.len() as int;
    if k == 0 {
        assert(s.subrange(n, n) + s.subrange(0, n) =~= s);
    } else {
        lemma_rotated_n_split(s, (k - 1) as nat);
        let prev = rotated_n(s, (k - 1) as nat);
        assert(prev.len() == n);
        assert(rotated(prev) =~= s.subrange(n - k, n) + s.subrange(0, n - k));
    }
}

} // verus!
