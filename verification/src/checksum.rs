//! The adler-32 primitive beneath every checksum channel, and the `DataWalk` visitor the
//! channels are walked through.
use vstd::prelude::*;

verus! {

/// The adler-32 modulus.
pub const ADLER_BASE: u32 = 65521;

/// One byte of the adler-32 recurrence over the `(a, b)` pair.
pub open spec fn adler_update(state: (nat, nat), byte: u8) -> (nat, nat) {
    let a = (state.0 + byte as nat) % 65521;
    (a, (state.1 + a) % 65521)
}

/// The adler-32 recurrence run over a whole byte sequence from a given `(a, b)` pair.
pub open spec fn adler_run(state: (nat, nat), s: Seq<u8>) -> (nat, nat)
    decreases s.len(),
{
    if s.len() == 0 {
        state
    } else {
        adler_update(adler_run(state, s.drop_last()), s.last())
    }
}

/// The `(a, b)` pair a 32-bit running value encodes: `a` in the low half, `b` in the high.
pub open spec fn adler_seed_state(seed: u32) -> (nat, nat) {
    ((seed % 65536) as nat, (seed / 65536) as nat)
}

/// The 32-bit running value of an `(a, b)` pair.
pub open spec fn adler_digest(state: (nat, nat)) -> u32 {
    (state.1 * 65536 + state.0) as u32
}

/// adler-32 of `s`, continuing from the running value `seed` (1 starts a fresh sum).
pub open spec fn adler32_spec(seed: u32, s: Seq<u8>) -> u32 {
    adler_digest(adler_run(adler_seed_state(seed), s))
}

proof fn lemma_adler_run_bounded(state: (nat, nat), s: Seq<u8>)
    requires
        state.0 < 65536,
        state.1 < 65536,
    ensures
        adler_run(state, s).0 < 65536,
        adler_run(state, s).1 < 65536,
        s.len() > 0 ==> adler_run(state, s).0 < 65521 && adler_run(state, s).1 < 65521,
    decreases s.len(),
{
    if s.len() > 0 {
        lemma_adler_run_bounded(state, s.drop_last());
    }
}

/// Running the recurrence over `s + t` is running it over `s`, then over `t`.
pub proof fn lemma_adler_run_append(state: (nat, nat), s: Seq<u8>, t: Seq<u8>)
    ensures
        adler_run(state, s + t) == adler_run(adler_run(state, s), t),
    decreases t.len(),
{
    if t.len() == 0 {
        assert(s + t =~= s);
    } else {
        assert((s + t).drop_last() =~= s + t.drop_last());
        assert((s + t).last() == t.last());
        lemma_adler_run_append(state, s, t.drop_last());
    }
}

/// Fold one byte into a running pair; both halves stay below 65536.
fn adler_step(a: u32, b: u32, byte: u8) -> (r: (u32, u32))
    requires
        a < 65536,
        b < 65536,
    ensures
        (r.0 as nat, r.1 as nat) == adler_update((a as nat, b as nat), byte),
        r.0 < 65521,
        r.1 < 65521,
{
    let a2 = (a + byte as u32) % ADLER_BASE;
    let b2 = (b + a2) % ADLER_BASE;
    (a2, b2)
}

fn adler_pack(a: u32, b: u32) -> (r: u32)
    requires
        a < 65536,
        b < 65536,
    ensures
        r == adler_digest((a as nat, b as nat)),
{
    assert(b * 65536 <= 65535 * 65536) by (nonlinear_arith)
        requires
            b < 65536,
    ;
    b * 65536 + a
}

/// adler-32 over `data`, continuing from the running value `seed`.
pub fn adler32(seed: u32, data: &[u8]) -> (r: u32)
    ensures
        r == adler32_spec(seed, data@),
{
    let mut a: u32 = seed % 65536;
    let mut b: u32 = seed / 65536;
    let ghost start = adler_seed_state(seed);
    let n = data.len();
    let mut i: usize = 0;
    while i < n
        invariant
            n == data@.len(),
            i <= n,
            a < 65536,
            b < 65536,
            (a as nat, b as nat) == adler_run(start, data@.take(i as int)),
        decreases n - i,
    {
        assert(data@.take(i as int + 1).drop_last() =~= data@.take(i as int));
        let r = adler_step(a, b, data[i]);
        a = r.0;
        b = r.1;
        i = i + 1;
    }
    assert(data@.take(n as int) =~= data@);
    adler_pack(a, b)
}

/// A visitor over the byte stream a checksum channel walks.
pub trait DataWalk {
    /// Every byte handed to the visitor so far, in order.
    spec fn walked(&self) -> Seq<u8>;

    /// The visitor's internal state agrees with what it has walked.
    spec fn walk_ready(&self) -> bool;

    /// Hand the visitor the next run of bytes.
    fn walk(&mut self, data: &[u8])
        requires
            old(self).walk_ready(),
        ensures
            final(self).walk_ready(),
            final(self).walked() == old(self).walked() + data@,
    ;
}

/// A streaming adler-32 accumulator seeded to 1, as every checksum channel starts.
pub struct Adler32 {
    /// The running `a` half.
    pub a: u32,
    /// The running `b` half.
    pub b: u32,
    /// How many bytes have been walked, modulo 2^64.
    pub bytes: u64,
    /// Every byte summed so far.
    pub history: Ghost<Seq<u8>>,
}

impl Adler32 {
    /// A fresh accumulator: adler value 1, nothing walked.
    pub fn new() -> (r: Adler32)
        ensures
            r.walk_ready(),
            r.walked() == Seq::<u8>::empty(),
            r.bytes == 0,
    {
        Adler32 { a: 1, b: 0, bytes: 0, history: Ghost(Seq::empty()) }
    }

    /// The adler-32 of everything walked so far.
    pub fn finish(&self) -> (r: u32)
        requires
            self.walk_ready(),
        ensures
            r == adler32_spec(1, self.walked()),
    {
        adler_pack(self.a, self.b)
    }
}

impl DataWalk for Adler32 {
    open spec fn walked(&self) -> Seq<u8> {
        self.history@
    }

    open spec fn walk_ready(&self) -> bool {
        &&& self.a < 65536
        &&& self.b < 65536
        &&& (self.a as nat, self.b as nat) == adler_run((1, 0), self.history@)
        &&& self.bytes as int == self.history@.len() % 0x1_0000_0000_0000_0000
    }

    fn walk(&mut self, data: &[u8]) {
        let n = data.len();
        let mut i: usize = 0;
        let ghost h0 = self.history@;
        while i < n
            invariant
                n == data@.len(),
                i <= n,
                self.a < 65536,
                self.b < 65536,
                self.history@ == h0 + data@.take(i as int),
                (self.a as nat, self.b as nat) == adler_run((1, 0), self.history@),
                self.bytes as int == self.history@.len() % 0x1_0000_0000_0000_0000,
            decreases n - i,
        {
            let byte = data[i];
            let r = adler_step(self.a, self.b, byte);
            proof {
                assert((h0 + data@.take(i as int + 1)).drop_last() =~= h0 + data@.take(i as int));
                assert((h0 + data@.take(i as int + 1)).last() == byte);
            }
            self.a = r.0;
            self.b = r.1;
            self.bytes = self.bytes.wrapping_add(1);
            self.history = Ghost(h0 + data@.take(i as int + 1));
            i = i + 1;
        }
        assert(data@.take(n as int) =~= data@);
    }
}

/// A visitor that keeps every byte it is handed, for locating the first differing offset
/// between two walks.
pub struct ByteSink(pub Vec<u8>);

impl ByteSink {
    /// An empty sink.
    pub fn new() -> (r: ByteSink)
        ensures
            r.0@ == Seq::<u8>::empty(),
    {
        ByteSink(Vec::new())
    }

    /// adler-32 over the captured bytes, seeded to 1.
    pub fn checksum(&self) -> (r: u32)
        ensures
            r == adler32_spec(1, self.0@),
    {
        adler32(1, self.0.as_slice())
    }

    /// The first offset at which the two captures differ, or the shorter length when one is
    /// a strict prefix of the other; `None` when they are identical.
    pub fn first_difference(&self, other: &ByteSink) -> (r: Option<usize>)
        ensures
            r is None <==> self.0@ == other.0@,
            r matches Some(i) ==> {
                &&& i <= self.0@.len()
                &&& i <= other.0@.len()
                &&& forall|j: int| 0 <= j < i ==> self.0@[j] == other.0@[j]
                &&& (i == self.0@.len() || i == other.0@.len() || self.0@[i as int]
                    != other.0@[i as int])
            },
    {
        let n = if self.0.len() < other.0.len() { self.0.len() } else { other.0.len() };
        let mut i: usize = 0;
        while i < n
            invariant
                n <= self.0@.len(),
                n <= other.0@.len(),
                n == self.0@.len() || n == other.0@.len(),
                i <= n,
                forall|j: int| 0 <= j < i ==> self.0@[j] == other.0@[j],
            decreases n - i,
        {
            if self.0[i] != other.0[i] {
                return Some(i);
            }
            i = i + 1;
        }
        if self.0.len() == other.0.len() {
            assert(self.0@ =~= other.0@);
            None
        } else {
            Some(n)
        }
    }
}

impl DataWalk for ByteSink {
    open spec fn walked(&self) -> Seq<u8> {
        self.0@
    }

    open spec fn walk_ready(&self) -> bool {
        true
    }

    fn walk(&mut self, data: &[u8]) {
        let n = data.len();
        let mut i: usize = 0;
        let ghost v0 = self.0@;
        while i < n
            invariant
                n == data@.len(),
                i <= n,
                self.0@ == v0 + data@.take(i as int),
            decreases n - i,
        {
            self.0.push(data[i]);
            assert(v0 + data@.take(i as int + 1) =~= (v0 + data@.take(i as int)).push(data@[i as int]));
            i = i + 1;
        }
        assert(data@.take(n as int) =~= data@);
    }
}

/// The adler-32 a fresh accumulator reaches over `s` is the one-shot digest of `s`.
pub proof fn lemma_stream_matches_oneshot(s: Seq<u8>)
    ensures
        adler32_spec(1, s) == adler_digest(adler_run((1, 0), s)),
{
    assert(adler_seed_state(1) == (1nat, 0nat));
}

} // verus!
