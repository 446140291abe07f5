use crate::geometry::Rect;
use bracket_random::prelude::RandomNumberGenerator;
use vstd::prelude::*;

verus! {

/// bracket-random's xorshift generator, carried through the generation stages.
#[verifier::external_type_specification]
#[verifier::external_body]
pub struct ExRandomNumberGenerator(RandomNumberGenerator);

/// Relies on `RandomNumberGenerator::new`: a generator seeded from the system's entropy.
/// Nothing is promised of what it will draw.
pub assume_specification[ RandomNumberGenerator::new ]() -> RandomNumberGenerator;

/// Relies on `RandomNumberGenerator::seeded`: a generator seeded with `seed`.
/// Nothing is promised of what it will draw.
pub assume_specification[ RandomNumberGenerator::seeded ](seed: u64) -> RandomNumberGenerator;

/// Relies on `RandomNumberGenerator::range`: a draw from `low` inclusive to
/// `high` exclusive (it hands the range to rand's `gen_range`, which panics on an
/// empty range, hence `low < high`).
#[verifier::external_body]
fn draw(rng: &mut RandomNumberGenerator, low: i32, high: i32) -> (r: i32)
    requires
        low < high,
    ensures
        low <= r < high,
{
    rng.range(low, high)
}

/// The generator that world generation draws from, with a record of every value it
/// has handed out, in order.
pub struct WorldGenRng {
    pub rng: RandomNumberGenerator,
    pub drawn: Ghost<Seq<i32>>,
}

impl WorldGenRng {
    /// A generator with a fresh seed.
    pub fn new() -> (r: WorldGenRng)
        ensures
            r.drawn@ == Seq::<i32>::empty(),
    {
        WorldGenRng { rng: RandomNumberGenerator::new(), drawn: Ghost(Seq::empty()) }
    }

    /// A generator seeded with `seed`.
    pub fn seeded(seed: u64) -> (r: WorldGenRng)
        ensures
            r.drawn@ == Seq::<i32>::empty(),
    {
        WorldGenRng { rng: RandomNumberGenerator::seeded(seed), drawn: Ghost(Seq::empty()) }
    }

    /// A value from `low` inclusive to `high` exclusive, recorded after the earlier ones.
    pub fn range(&mut self, low: i32, high: i32) -> (r: i32)
        requires
            low < high,
        ensures
            low <= r < high,
            final(self).drawn@ == old(self).drawn@.push(r),
    {
        let r = draw(&mut self.rng, low, high);
        self.drawn = Ghost(self.drawn@.push(r));
        r
    }
}

/// The values that `after` handed out since `before`, when its record extends the earlier one.
pub open spec fn drawn_since(before: WorldGenRng, after: WorldGenRng) -> Seq<i32> {
    after.drawn@.subrange(before.drawn@.len() as int, after.drawn@.len() as int)
}

/// `after`'s record is `before`'s followed by `d`.
pub open spec fn drew(before: WorldGenRng, after: WorldGenRng, d: Seq<i32>) -> bool {
    after.drawn@ == before.drawn@ + d
}

/// Whether every value drawn lies in the range asked for at its place.
pub open spec fn draws_fit(ranges: Seq<(int, int)>, d: Seq<i32>) -> bool {
    &&& d.len() == ranges.len()
    &&& forall|i: int| 0 <= i < d.len() ==> ranges[i].0 <= #[trigger] d[i] < ranges[i].1
}

/// The candidate room that four draws describe: position, then width and height.
pub open spec fn drawn_room(d: Seq<i32>) -> Rect {
    Rect { x1: d[0], y1: d[1], x2: (d[0] + d[2]) as i32, y2: (d[1] + d[3]) as i32 }
}

/// The four draws that describe a candidate room.
pub open spec fn room_draws(room: Rect) -> Seq<i32> {
    seq![room.x1, room.y1, (room.x2 - room.x1) as i32, (room.y2 - room.y1) as i32]
}

/// The draws that describe a run of candidate rooms, four per room.
pub open spec fn draws_of(cands: Seq<Rect>) -> Seq<i32>
    decreases cands.len(),
{
    if cands.len() == 0 {
        Seq::empty()
    } else {
        draws_of(cands.drop_last()) + room_draws(cands.last())
    }
}

} // verus!
