//! The capital lookup of the opcode-70/71 player-lifecycle cohort.
//!
//! `Player::leave_game` `0x006EE010` reaches `LeaderData::find_capital` `0x006EB930` only
//! when capital elimination is active and the departing leader has a running
//! `lost_capital_timer`. The lookup runs here over a complete immutable image of the city
//! pointer rows and leader flags, and its receipt carries that image so a bridge can check
//! a result without trusting a bare boolean. The pass-two `leader_flags & 3` guard at
//! `0x006EB9A4..0x006EB9B0` uses the departing leader's offset on every iteration: it is
//! loop-invariant, and testing the candidate leader instead would be a plausible but wrong
//! repair.
use vstd::prelude::*;

verus! {

pub const LEADER_FIND_CAPITAL_VA: u32 = 0x006e_b930;
pub const LEADER_FIND_CAPITAL_END_VA: u32 = 0x006e_ba4a;
pub const CITY_VALID: u16 = 0x0001;
pub const CITY_CAPITAL: u16 = 0x0010;
pub const PLAYER_SLOTS: usize = 8;
/// A valid current capital carries both city bits.
pub const CAPITAL_MASK: u16 = 0x0011;
/// The leader flags valid and active, both required by the pass-two guard.
pub const LEADER_VALID_ACTIVE: i32 = 3;

#[derive(Clone, Copy, Debug, PartialEq, Eq)]
pub struct FindCapitalRequest {
    pub who: usize,
    pub skip_city: i32,
    pub skip_who: i32,
}

#[derive(Clone, Copy, Debug, PartialEq, Eq, Structural)]
pub struct CapitalIdentity {
    pub city: i32,
    pub who: i32,
}

#[derive(Clone, Copy, Debug, PartialEq, Eq, Structural)]
pub enum CapitalPass {
    Own,
    Former,
    Fallback,
}

#[derive(Clone, Copy, Debug, PartialEq, Eq)]
pub enum FindCapitalError {
    LeaderOutOfRange { who: usize },
    /// `LeaderData::city_mark +0x408` may not index beyond the installed pointer rows.
    CityMarkOutOfRange { who: usize, mark: i32, installed: usize },
    ResolutionShape,
}

#[derive(Clone, Copy, Debug, Default, PartialEq, Eq)]
pub struct CapitalRowImage {
    pub city_flags: u16,
    pub was_capital_flags: u8,
}

/// The complete immutable input to `find_capital`.
#[derive(Clone, Debug, PartialEq, Eq)]
pub struct FindCapitalImage {
    pub rows: [Vec<CapitalRowImage>; 8],
    pub leader_flags: [i32; 8],
}

#[derive(Clone, Debug, PartialEq, Eq)]
pub struct FindCapitalReceipt {
    pub request: FindCapitalRequest,
    pub image: FindCapitalImage,
    pub result: CapitalIdentity,
    pub pass: CapitalPass,
    /// Number of city pointer rows tested, in traversal order.
    pub visited: usize,
    /// The pass-two guard, kept so a candidate-index mutation is visible even when the
    /// selected capital happens to agree.
    pub departing_leader_active_guard: bool,
}

/// The rows of every player as sequences.
pub open spec fn rows_view(image: FindCapitalImage) -> Seq<Seq<CapitalRowImage>> {
    image.rows@.map_values(|v: Vec<CapitalRowImage>| v@)
}

/// The total number of rows.
pub open spec fn total_rows(rows: Seq<Seq<CapitalRowImage>>, k: int) -> nat
    decreases k,
{
    if k <= 0 {
        0
    } else {
        total_rows(rows, k - 1) + rows[k - 1].len()
    }
}

/// Whether the lookup skips `(city, who)`, both compared as dwords.
pub open spec fn skipped(req: FindCapitalRequest, city: int, who: int) -> bool {
    city as i32 == req.skip_city && who as i32 == req.skip_who
}

/// Pass one wants a valid current capital of the departing owner.
pub open spec fn own_wanted(row: CapitalRowImage, req: FindCapitalRequest, city: int) -> bool {
    row.city_flags & CAPITAL_MASK == CAPITAL_MASK && !skipped(
        req,
        city,
        req.who as int,
    )
}

/// Pass two wants a valid city that was once the departing owner's capital.
pub open spec fn former_wanted(row: CapitalRowImage, req: FindCapitalRequest, candidate: int, city: int) -> bool {
    row.city_flags & CITY_VALID != 0 && row.was_capital_flags & (1u8 << ((req.who as u32) & 0x1f))
        != 0 && !skipped(req, city, candidate)
}

/// The first row at or after `c` that pass one wants.
pub open spec fn first_own(rows: Seq<CapitalRowImage>, req: FindCapitalRequest, c: int) -> Option<int>
    decreases rows.len() - c,
{
    if c < 0 || c >= rows.len() {
        None
    } else if own_wanted(rows[c], req, c) {
        Some(c)
    } else {
        first_own(rows, req, c + 1)
    }
}

/// The first row at or after `c` of `candidate` that pass two wants.
pub open spec fn first_former_in(rows: Seq<CapitalRowImage>, req: FindCapitalRequest, candidate: int, c: int) -> Option<int>
    decreases rows.len() - c,
{
    if c < 0 || c >= rows.len() {
        None
    } else if former_wanted(rows[c], req, candidate, c) {
        Some(c)
    } else {
        first_former_in(rows, req, candidate, c + 1)
    }
}

/// The first `(candidate, row)` at or after `candidate` that pass two wants, skipping the
/// departing owner.
pub open spec fn first_former(rows: Seq<Seq<CapitalRowImage>>, req: FindCapitalRequest, candidate: int) -> Option<(int, int)>
    decreases 8 - candidate,
{
    if candidate < 0 || candidate >= 8 {
        None
    } else if candidate == req.who {
        first_former(rows, req, candidate + 1)
    } else {
        match first_former_in(rows[candidate], req, candidate, 0) {
            Some(c) => Some((candidate, c)),
            None => first_former(rows, req, candidate + 1),
        }
    }
}

/// The rows of candidates `0..k` other than the departing owner.
pub open spec fn other_rows_before(rows: Seq<Seq<CapitalRowImage>>, who: int, k: int) -> nat
    decreases k,
{
    if k <= 0 {
        0
    } else {
        other_rows_before(rows, who, k - 1) + if k - 1 == who {
            0
        } else {
            rows[k - 1].len()
        }
    }
}

/// The lookup's answer: the result, the pass, the rows visited and the guard. Pass one
/// scans the departing owner's rows for a current capital; then, only under the guard,
/// pass two scans the other owners' rows for a city that was once its capital; otherwise
/// the answer is city `-1` of the departing owner.
pub open spec fn find_capital_spec(rows: Seq<Seq<CapitalRowImage>>, flags: Seq<i32>, req: FindCapitalRequest) -> (
    CapitalIdentity,
    CapitalPass,
    nat,
    bool,
) {
    let who = req.who as int;
    let guard = flags[who] & LEADER_VALID_ACTIVE == LEADER_VALID_ACTIVE;
    match first_own(rows[who], req, 0) {
        Some(c) => (CapitalIdentity { city: c as i32, who: who as i32 }, CapitalPass::Own, (c + 1) as nat, guard),
        None => {
            let base = rows[who].len();
            if !guard {
                (CapitalIdentity { city: -1i32, who: who as i32 }, CapitalPass::Fallback, base, guard)
            } else {
                match first_former(rows, req, 0) {
                    Some((cand, c)) => (
                        CapitalIdentity { city: c as i32, who: cand as i32 },
                        CapitalPass::Former,
                        base + other_rows_before(rows, who, cand) + (c + 1) as nat,
                        guard,
                    ),
                    None => (
                        CapitalIdentity { city: -1i32, who: who as i32 },
                        CapitalPass::Fallback,
                        base + other_rows_before(rows, who, 8),
                        guard,
                    ),
                }
            }
        },
    }
}

/// Whether a receipt is the lookup's answer for its own request and image.
pub open spec fn receipt_is_lookup(r: FindCapitalReceipt) -> bool {
    let (result, pass, visited, guard) = find_capital_spec(rows_view(r.image), r.image.leader_flags@, r.request);
    &&& r.result == result
    &&& r.pass == pass
    &&& r.visited == visited
    &&& r.departing_leader_active_guard == guard
}

proof fn lemma_other_rows_monotone(rows: Seq<Seq<CapitalRowImage>>, who: int, k: int, n: int)
    requires
        0 <= k <= n,
    ensures
        other_rows_before(rows, who, k) <= other_rows_before(rows, who, n),
    decreases n - k,
{
    if n > k {
        lemma_other_rows_monotone(rows, who, k, n - 1);
    }
}

proof fn lemma_other_rows_bounded(rows: Seq<Seq<CapitalRowImage>>, who: int, k: int)
    requires
        0 <= k,
    ensures
        other_rows_before(rows, who, k) <= total_rows(rows, k),
    decreases k,
{
    if k > 0 {
        lemma_other_rows_bounded(rows, who, k - 1);
    }
}

proof fn lemma_total_rows_split(rows: Seq<Seq<CapitalRowImage>>, who: int, k: int)
    requires
        0 <= who < k,
    ensures
        rows[who].len() + other_rows_before(rows, who, k) == total_rows(rows, k),
    decreases k,
{
    if k - 1 > who {
        lemma_total_rows_split(rows, who, k - 1);
    } else {
        lemma_other_rows_bounded(rows, who, k - 1);
        lemma_other_rows_equal_total_below(rows, who, k - 1);
    }
}

proof fn lemma_other_rows_equal_total_below(rows: Seq<Seq<CapitalRowImage>>, who: int, k: int)
    requires
        0 <= k <= who,
    ensures
        other_rows_before(rows, who, k) == total_rows(rows, k),
    decreases k,
{
    if k > 0 {
        lemma_other_rows_equal_total_below(rows, who, k - 1);
    }
}

fn is_skipped_at(request: FindCapitalRequest, city: usize, who: usize) -> (r: bool)
    ensures
        r == skipped(request, city as int, who as int),
{
    city as i32 == request.skip_city && who as i32 == request.skip_who
}

fn own_wanted_at(row: CapitalRowImage, request: FindCapitalRequest, city: usize) -> (r: bool)
    ensures
        r == own_wanted(row, request, city as int),
{
    row.city_flags & CAPITAL_MASK == CAPITAL_MASK && !is_skipped_at(request, city, request.who)
}

fn former_wanted_at(row: CapitalRowImage, request: FindCapitalRequest, candidate: usize, city: usize, bit: u8) -> (r: bool)
    requires
        bit == (1u8 << ((request.who as u32) & 0x1f)),
    ensures
        r == former_wanted(row, request, candidate as int, city as int),
{
    row.city_flags & CITY_VALID != 0 && row.was_capital_flags & bit != 0 && !is_skipped_at(
        request,
        city,
        candidate,
    )
}

/// `LeaderData::find_capital` `0x006EB930` over an image.
#[verifier::rlimit(40)]
fn find_capital_image(image: FindCapitalImage, request: FindCapitalRequest) -> (r: FindCapitalReceipt)
    requires
        request.who < 8,
        total_rows(rows_view(image), 8) <= usize::MAX,
    ensures
        r.request == request,
        r.image == image,
        receipt_is_lookup(r),
{
    let ghost rows = rows_view(image);
    let who = request.who;
    let departing_leader_active_guard = image.leader_flags[who] & LEADER_VALID_ACTIVE
        == LEADER_VALID_ACTIVE;
    proof {
        lemma_total_rows_split(rows, who as int, 8);
    }
    let mut visited: usize = 0;
    let n_own = image.rows[who].len();
    assert(rows[who as int] == image.rows@[who as int]@);
    let mut city: usize = 0;
    while city < n_own
        invariant
            city <= n_own,
            who < 8,
            who == request.who,
            departing_leader_active_guard == (image.leader_flags@[who as int] & LEADER_VALID_ACTIVE == LEADER_VALID_ACTIVE),
            n_own == rows[who as int].len(),
            rows == rows_view(image),
            visited == city,
            first_own(rows[who as int], request, 0) == first_own(rows[who as int], request, city as int),
        decreases n_own - city,
    {
        visited = visited + 1;
        let row = image.rows[who][city];
        assert(row == rows[who as int][city as int]);
        if own_wanted_at(row, request, city) {
            assert(first_own(rows[who as int], request, city as int) == Some(city as int));
            return FindCapitalReceipt {
                request,
                image,
                result: CapitalIdentity { city: city as i32, who: who as i32 },
                pass: CapitalPass::Own,
                visited,
                departing_leader_active_guard,
            };
        }
        city = city + 1;
    }
    if departing_leader_active_guard {
        let w = who as u32;
        assert(w & 0x1f == w) by (bit_vector)
            requires
                w < 8,
        ;
        let prior_capital_bit = 1u8 << (w & 0x1f);
        let mut candidate: usize = 0;
        while candidate < 8
            invariant
                candidate <= 8,
                who < 8,
                who == request.who,
                departing_leader_active_guard == (image.leader_flags@[who as int] & LEADER_VALID_ACTIVE == LEADER_VALID_ACTIVE),
                rows == rows_view(image),
                total_rows(rows, 8) <= usize::MAX,
                rows[who as int].len() + other_rows_before(rows, who as int, 8) == total_rows(rows, 8),
                prior_capital_bit == (1u8 << ((who as u32) & 0x1f)),
                visited == rows[who as int].len() + other_rows_before(rows, who as int, candidate as int),
                first_own(rows[who as int], request, 0) is None,
                departing_leader_active_guard,
                first_former(rows, request, 0) == first_former(rows, request, candidate as int),
            decreases 8 - candidate,
        {
            if candidate != who {
                let n = image.rows[candidate].len();
                assert(rows[candidate as int] == image.rows@[candidate as int]@);
                let mut c: usize = 0;
                while c < n
                    invariant
                        c <= n,
                        who < 8,
                        who == request.who,
                        departing_leader_active_guard == (image.leader_flags@[who as int] & LEADER_VALID_ACTIVE == LEADER_VALID_ACTIVE),
                        candidate < 8,
                        candidate != who,
                        n == rows[candidate as int].len(),
                        rows == rows_view(image),
                        total_rows(rows, 8) <= usize::MAX,
                        rows[who as int].len() + other_rows_before(rows, who as int, 8) == total_rows(rows, 8),
                        prior_capital_bit == (1u8 << ((who as u32) & 0x1f)),
                        visited == rows[who as int].len() + other_rows_before(rows, who as int, candidate as int) + c,
                        first_own(rows[who as int], request, 0) is None,
                        departing_leader_active_guard,
                        first_former(rows, request, 0) == first_former(rows, request, candidate as int),
                        first_former_in(rows[candidate as int], request, candidate as int, 0) == first_former_in(
                            rows[candidate as int],
                            request,
                            candidate as int,
                            c as int,
                        ),
                    decreases n - c,
                {
                    proof {
                        lemma_other_rows_monotone(rows, who as int, candidate + 1, 8);
                    }
                    visited = visited + 1;
                    let row = image.rows[candidate][c];
                    assert(row == rows[candidate as int][c as int]);
                    if former_wanted_at(row, request, candidate, c, prior_capital_bit) {
                        assert(first_former_in(rows[candidate as int], request, candidate as int, c as int) == Some(c as int));
                        assert(first_former(rows, request, candidate as int) == Some((candidate as int, c as int)));
                        return FindCapitalReceipt {
                            request,
                            image,
                            result: CapitalIdentity { city: c as i32, who: candidate as i32 },
                            pass: CapitalPass::Former,
                            visited,
                            departing_leader_active_guard,
                        };
                    }
                    c = c + 1;
                }
            }
            candidate = candidate + 1;
        }
    }
    FindCapitalReceipt {
        request,
        image,
        result: CapitalIdentity { city: -1, who: who as i32 },
        pass: CapitalPass::Fallback,
        visited,
        departing_leader_active_guard,
    }
}

impl FindCapitalImage {
    /// A copy with the same rows and flags.
    pub fn duplicate(&self) -> (r: Self)
        ensures
            rows_view(r) == rows_view(*self),
            r.leader_flags == self.leader_flags,
    {
        let r = FindCapitalImage {
            rows: [
                self.rows[0].clone(),
                self.rows[1].clone(),
                self.rows[2].clone(),
                self.rows[3].clone(),
                self.rows[4].clone(),
                self.rows[5].clone(),
                self.rows[6].clone(),
                self.rows[7].clone(),
            ],
            leader_flags: self.leader_flags,
        };
        assert forall|i: int| 0 <= i < 8 implies r.rows@[i]@ == self.rows@[i]@ by {
            assert(r.rows@[i]@ =~= self.rows@[i]@);
        }
        assert(rows_view(r) =~= rows_view(*self));
        r
    }
}

impl FindCapitalReceipt {
    /// Whether this receipt is the lookup's own answer for its request and image. The rows
    /// of the image must be countable in a `usize`.
    pub fn validates(&self) -> (r: bool)
        requires
            total_rows(rows_view(self.image), 8) <= usize::MAX,
        ensures
            r == (self.request.who < 8 && receipt_is_lookup(*self)),
    {
        if self.request.who >= 8 {
            return false;
        }
        let again = find_capital_image(self.image.duplicate(), self.request);
        again.result == self.result && again.pass == self.pass && again.visited == self.visited
            && again.departing_leader_active_guard == self.departing_leader_active_guard
    }
}

/// The city rows `find_capital` reads from the city pool: each owner's mark
/// (`LeaderData::city_mark +0x408`) and its installed pointer rows, each row reduced to the
/// two flag fields the lookup tests.
#[derive(Clone, Debug, PartialEq, Eq)]
pub struct CapitalCityPool {
    pub city_mark: [i32; 8],
    pub slots: [Vec<CapitalRowImage>; 8],
}

/// The installed rows of every owner.
pub open spec fn pool_rows(pool: CapitalCityPool) -> Seq<Seq<CapitalRowImage>> {
    pool.slots@.map_values(|v: Vec<CapitalRowImage>| v@)
}

/// Whether owner `who`'s mark indexes inside its installed rows.
pub open spec fn mark_ok(pool: CapitalCityPool, who: int) -> bool {
    0 <= pool.city_mark@[who] <= pool.slots@[who]@.len()
}

/// The first owner from `who` on whose mark is out of range.
pub open spec fn first_bad_mark(pool: CapitalCityPool, who: int) -> Option<int>
    decreases 8 - who,
{
    if who >= 8 {
        None
    } else if !mark_ok(pool, who) {
        Some(who)
    } else {
        first_bad_mark(pool, who + 1)
    }
}

/// Each owner's rows below its mark, for marks in range.
pub open spec fn marked_rows(pool: CapitalCityPool) -> Seq<Seq<CapitalRowImage>> {
    Seq::new(8, |k: int| pool.slots@[k]@.subrange(0, pool.city_mark@[k] as int))
}

proof fn lemma_marked_total(pool: CapitalCityPool, k: int)
    requires
        0 <= k <= 8,
        forall|j: int| 0 <= j < 8 ==> mark_ok(pool, j),
    ensures
        total_rows(marked_rows(pool), k) <= total_rows(pool_rows(pool), k),
    decreases k,
{
    if k > 0 {
        lemma_marked_total(pool, k - 1);
        assert(mark_ok(pool, k - 1));
        assert(marked_rows(pool)[k - 1].len() <= pool_rows(pool)[k - 1].len());
    }
}

/// `LeaderData::find_capital(int*, int*, int, int)` `0x006EB930` against a city pool and
/// the leader flag words: a departing owner outside the eight slots or the flag table is
/// refused; every owner's mark is checked against its installed rows before anything is
/// read (the first bad one is the error); then the lookup runs over the marked rows, as
/// [`find_capital_spec`] says. The installed rows must be countable in a `usize`.
pub fn find_capital(
    cities: &CapitalCityPool,
    leader_flags: &[i32],
    request: FindCapitalRequest,
) -> (r: Result<FindCapitalReceipt, FindCapitalError>)
    requires
        leader_flags@.len() >= 8,
        total_rows(pool_rows(*cities), 8) <= usize::MAX,
    ensures
        request.who >= 8 ==> r == Err::<FindCapitalReceipt, FindCapitalError>(
            FindCapitalError::LeaderOutOfRange { who: request.who },
        ),
        request.who < 8 ==> match first_bad_mark(*cities, 0) {
            Some(who) => r == Err::<FindCapitalReceipt, FindCapitalError>(
                FindCapitalError::CityMarkOutOfRange {
                    who: who as usize,
                    mark: cities.city_mark@[who],
                    installed: cities.slots@[who]@.len() as usize,
                },
            ),
            None => r matches Ok(receipt) && receipt.request == request && rows_view(receipt.image)
                == marked_rows(*cities) && receipt.image.leader_flags@ == leader_flags@.subrange(0, 8)
                && receipt_is_lookup(receipt),
        },
{
    if request.who >= 8 || request.who >= leader_flags.len() {
        return Err(FindCapitalError::LeaderOutOfRange { who: request.who });
    }
    let mut who: usize = 0;
    while who < 8
        invariant
            who <= 8,
            request.who < 8,
            first_bad_mark(*cities, 0) == first_bad_mark(*cities, who as int),
            forall|j: int| 0 <= j < who ==> mark_ok(*cities, j),
        decreases 8 - who,
    {
        if let Err(e) = checked_mark(cities, who) {
            return Err(e);
        }
        who = who + 1;
    }
    assert(mark_ok(*cities, 0) && mark_ok(*cities, 1) && mark_ok(*cities, 2) && mark_ok(*cities, 3));
    assert(mark_ok(*cities, 4) && mark_ok(*cities, 5) && mark_ok(*cities, 6) && mark_ok(*cities, 7));
    let rows: [Vec<CapitalRowImage>; 8] = [
        prefix_rows(&cities.slots[0], cities.city_mark[0] as usize),
        prefix_rows(&cities.slots[1], cities.city_mark[1] as usize),
        prefix_rows(&cities.slots[2], cities.city_mark[2] as usize),
        prefix_rows(&cities.slots[3], cities.city_mark[3] as usize),
        prefix_rows(&cities.slots[4], cities.city_mark[4] as usize),
        prefix_rows(&cities.slots[5], cities.city_mark[5] as usize),
        prefix_rows(&cities.slots[6], cities.city_mark[6] as usize),
        prefix_rows(&cities.slots[7], cities.city_mark[7] as usize),
    ];
    let flags: [i32; 8] = [
        leader_flags[0],
        leader_flags[1],
        leader_flags[2],
        leader_flags[3],
        leader_flags[4],
        leader_flags[5],
        leader_flags[6],
        leader_flags[7],
    ];
    let image = FindCapitalImage { rows, leader_flags: flags };
    proof {
        assert(rows_view(image) =~= marked_rows(*cities));
        assert(image.leader_flags@ =~= leader_flags@.subrange(0, 8));
        lemma_marked_total(*cities, 8);
    }
    Ok(find_capital_image(image, request))
}

/// Owner `who`'s mark, when it indexes inside the installed rows.
fn checked_mark(cities: &CapitalCityPool, who: usize) -> (r: Result<usize, FindCapitalError>)
    requires
        who < 8,
    ensures
        mark_ok(*cities, who as int) ==> r == Ok::<usize, FindCapitalError>(cities.city_mark@[who as int] as usize),
        !mark_ok(*cities, who as int) ==> r == Err::<usize, FindCapitalError>(
            FindCapitalError::CityMarkOutOfRange {
                who,
                mark: cities.city_mark@[who as int],
                installed: cities.slots@[who as int]@.len() as usize,
            },
        ),
{
    let mark = cities.city_mark[who];
    let installed = cities.slots[who].len();
    if mark < 0 || mark as usize > installed {
        Err(FindCapitalError::CityMarkOutOfRange { who, mark, installed })
    } else {
        Ok(mark as usize)
    }
}

/// The first `n` rows of an owner.
fn prefix_rows(rows: &Vec<CapitalRowImage>, n: usize) -> (r: Vec<CapitalRowImage>)
    requires
        n <= rows@.len(),
    ensures
        r@ == rows@.subrange(0, n as int),
{
    let mut out: Vec<CapitalRowImage> = Vec::new();
    let mut i: usize = 0;
    while i < n
        invariant
            i <= n,
            n <= rows@.len(),
            out@ == rows@.subrange(0, i as int),
        decreases n - i,
    {
        out.push(rows[i]);
        i = i + 1;
    }
    out
}

} // verus!
