//! The chunk cache: at most one chunk for each coordinate, and never more
//! chunks than its capacity. What has to go is what was used least recently.

use crate::chunk::BufferHandles;
use crate::chunk::Chunk;
use crate::chunk::ChunkBuild;
use crate::chunk::LoadError;
use crate::clock::precise_time_ns;
use crate::MAX_CHUNKS;
use vstd::prelude::*;

verus! {

/// Whether the chunk stands at the coordinate `(x, z)`.
pub open spec fn is_at(chunk: Chunk, x: int, z: int) -> bool {
    chunk.x == x && chunk.z == z
}

/// Whether the two chunks stand at the same coordinate.
pub open spec fn same_place(first: Chunk, second: Chunk) -> bool {
    first.x == second.x && first.z == second.z
}

/// Whether no two of the chunks stand at the same coordinate.
pub open spec fn distinct_coordinates(chunks: Seq<Chunk>) -> bool {
    forall|i: int, j: int|
        0 <= i < j < chunks.len() ==> !same_place(#[trigger] chunks[i], #[trigger] chunks[j])
}

/// Whether one of the chunks stands at the coordinate `(x, z)`.
pub open spec fn holds_coordinate(chunks: Seq<Chunk>, x: int, z: int) -> bool {
    exists|i: int| 0 <= i < chunks.len() && is_at(#[trigger] chunks[i], x, z)
}

/// What a load took out of the cache.
pub struct Displaced {
    /// The chunk that stood at the loaded coordinate before.
    pub replaced: Option<Chunk>,
    /// The chunks that were evicted to get back within capacity.
    pub evicted: Vec<Chunk>,
}

/// Whether putting `chunk` into a cache of the given capacity that held
/// `before` can leave it holding `after` and hand back `displaced`:
/// - what is replaced is the chunk that stood at the same coordinate;
/// - every chunk that was cached, and the new one, is afterwards either
///   cached or handed back, and none is both or lost;
/// - chunks are evicted only down to the capacity;
/// - every evicted chunk was used no later than every chunk that stays.
pub open spec fn is_insertion(
    before: Seq<Chunk>,
    capacity: int,
    chunk: Chunk,
    after: Seq<Chunk>,
    displaced: Displaced,
) -> bool {
    &&& match displaced.replaced {
        Some(old) => before.contains(old) && is_at(old, chunk.x as int, chunk.z as int),
        None => !holds_coordinate(before, chunk.x as int, chunk.z as int),
    }
    &&& after.to_multiset().add(displaced.evicted@.to_multiset()).add(
        match displaced.replaced {
            Some(old) => Seq::<Chunk>::empty().push(old).to_multiset(),
            None => Seq::<Chunk>::empty().to_multiset(),
        },
    ) == before.to_multiset().insert(chunk)
    &&& after.len() + displaced.evicted@.len() == before.len() + (if displaced.replaced is Some {
        0int
    } else {
        1int
    })
    &&& after.len() <= capacity
    &&& after.len() == capacity || displaced.evicted@.len() == 0
    &&& forall|i: int, j: int|
        0 <= i < displaced.evicted@.len() && 0 <= j < after.len() ==> (
        #[trigger] displaced.evicted@[i]).used_time <= (#[trigger] after[j]).used_time
}

/// What an insertion means chunk by chunk: what is cached afterwards was
/// cached before or is the new chunk, and every chunk that was cached before,
/// and the new one, is afterwards cached, evicted or replaced.
pub proof fn lemma_insertion_members(
    before: Seq<Chunk>,
    capacity: int,
    chunk: Chunk,
    after: Seq<Chunk>,
    displaced: Displaced,
)
    requires
        is_insertion(before, capacity, chunk, after, displaced),
    ensures
        forall|c: Chunk| #[trigger] after.contains(c) ==> before.contains(c) || c == chunk,
        forall|c: Chunk| #[trigger]
            displaced.evicted@.contains(c) ==> before.contains(c) || c == chunk,
        forall|c: Chunk|
            #[trigger] before.contains(c) || c == chunk ==> after.contains(c)
                || displaced.evicted@.contains(c) || displaced.replaced == Some(c),
{
    broadcast use vstd::seq_lib::group_to_multiset_ensures;

    let gone = match displaced.replaced {
        Some(old) => Seq::<Chunk>::empty().push(old),
        None => Seq::<Chunk>::empty(),
    };
    let pool = before.to_multiset().insert(chunk);
    let rest = after.to_multiset().add(displaced.evicted@.to_multiset()).add(gone.to_multiset());
    assert(rest == pool);
    after.to_multiset_ensures();
    before.to_multiset_ensures();
    gone.to_multiset_ensures();
    displaced.evicted@.to_multiset_ensures();
    assert forall|c: Chunk| #[trigger] after.contains(c) implies before.contains(c) || c
        == chunk by {
        assert(after.to_multiset().count(c) > 0);
        assert(rest.count(c) > 0);
        assert(pool.count(c) > 0);
        if c != chunk {
            assert(before.to_multiset().count(c) > 0);
        }
    }
    assert forall|c: Chunk| #[trigger] displaced.evicted@.contains(c) implies before.contains(c)
        || c == chunk by {
        assert(displaced.evicted@.to_multiset().count(c) > 0);
        assert(rest.count(c) > 0);
        assert(pool.count(c) > 0);
        if c != chunk {
            assert(before.to_multiset().count(c) > 0);
        }
    }
    assert forall|c: Chunk| #[trigger] before.contains(c) || c == chunk implies after.contains(c)
        || displaced.evicted@.contains(c) || displaced.replaced == Some(c) by {
        assert(pool.count(c) > 0) by {
            if before.contains(c) {
                assert(before.to_multiset().count(c) > 0);
            }
        }
        assert(rest.count(c) > 0);
        if after.to_multiset().count(c) == 0 && displaced.evicted@.to_multiset().count(c) == 0 {
            assert(gone.to_multiset().count(c) > 0);
            assert(gone.contains(c));
            assert(gone.len() == 1 && gone[0] == c);
        }
    }
}

/// The cache of generated chunks of one world.
pub struct ChunkLoader {
    seed: u32,
    capacity: usize,
    cache: Vec<Chunk>,
}

impl View for ChunkLoader {
    type V = Seq<Chunk>;

    /// The cached chunks.
    closed spec fn view(&self) -> Seq<Chunk> {
        self.cache@
    }
}

impl ChunkLoader {
    /// The seed of the world.
    pub closed spec fn spec_seed(&self) -> u32 {
        self.seed
    }

    /// The largest number of chunks that the cache keeps.
    pub closed spec fn spec_capacity(&self) -> usize {
        self.capacity
    }

    /// No coordinate is cached twice, and the cache is within its capacity.
    pub open spec fn wf(&self) -> bool {
        &&& distinct_coordinates(self@)
        &&& self@.len() <= self.spec_capacity()
    }

    /// An empty cache for the world with the given seed, with room for
    /// `MAX_CHUNKS` chunks.
    pub fn new(seed: u32) -> (loader: ChunkLoader)
        ensures
            loader.wf(),
            loader.spec_seed() == seed,
            loader.spec_capacity() == MAX_CHUNKS,
            loader@.len() == 0,
    {
        Self::with_capacity(seed, MAX_CHUNKS)
    }

    /// An empty cache for the world with the given seed, with room for
    /// `capacity` chunks.
    pub fn with_capacity(seed: u32, capacity: usize) -> (loader: ChunkLoader)
        ensures
            loader.wf(),
            loader.spec_seed() == seed,
            loader.spec_capacity() == capacity,
            loader@.len() == 0,
    {
        ChunkLoader { seed, capacity, cache: Vec::new() }
    }

    /// The seed of the world.
    #[verifier::when_used_as_spec(spec_seed)]
    pub fn seed(&self) -> (seed: u32)
        ensures
            seed == self.spec_seed(),
    {
        self.seed
    }

    /// The largest number of chunks that the cache keeps.
    #[verifier::when_used_as_spec(spec_capacity)]
    pub fn capacity(&self) -> (capacity: usize)
        ensures
            capacity == self.spec_capacity(),
    {
        self.capacity
    }

    /// The number of cached chunks.
    pub fn size(&self) -> (size: usize)
        ensures
            size == self@.len(),
    {
        self.cache.len()
    }

    /// Where in the cache the chunk at `(cx, cz)` stands, if it is cached.
    fn position(&self, cx: i64, cz: i64) -> (place: Option<usize>)
        ensures
            match place {
                Some(i) => i < self@.len() && is_at(self@[i as int], cx as int, cz as int),
                None => !holds_coordinate(self@, cx as int, cz as int),
            },
    {
        let mut i: usize = 0;
        while i < self.cache.len()
            invariant
                i <= self.cache@.len(),
                forall|j: int| 0 <= j < i ==> !is_at(#[trigger] self.cache@[j], cx as int, cz as int),
            decreases self.cache@.len() - i,
        {
            if self.cache[i].x == cx && self.cache[i].z == cz {
                return Some(i);
            }
            i += 1;
        }
        None
    }

    /// The cached chunk at `(cx, cz)`, if there is one.
    pub fn get(&self, cx: i64, cz: i64) -> (found: Option<&Chunk>)
        ensures
            match found {
                Some(chunk) => self@.contains(*chunk) && is_at(*chunk, cx as int, cz as int),
                None => !holds_coordinate(self@, cx as int, cz as int),
            },
    {
        match self.position(cx, cz) {
            Some(i) => Some(&self.cache[i]),
            None => None,
        }
    }

    /// Marks the cached chunk at `(cx, cz)` as used at the time `now`, and
    /// says whether there is such a chunk. Every other chunk stays as it is.
    pub fn touch_at(&mut self, cx: i64, cz: i64, now: u64) -> (found: bool)
        requires
            old(self).wf(),
        ensures
            final(self).wf(),
            final(self).spec_seed() == old(self).spec_seed(),
            final(self).spec_capacity() == old(self).spec_capacity(),
            found == holds_coordinate(old(self)@, cx as int, cz as int),
            final(self)@.len() == old(self)@.len(),
            forall|i: int|
                0 <= i < old(self)@.len() ==> #[trigger] final(self)@[i] == (if is_at(
                    old(self)@[i],
                    cx as int,
                    cz as int,
                ) {
                    Chunk { used_time: now, ..old(self)@[i] }
                } else {
                    old(self)@[i]
                }),
    {
        match self.position(cx, cz) {
            Some(i) => {
                let mut chunk = self.cache.remove(i);
                chunk.touch_at(now);
                self.cache.insert(i, chunk);
                proof {
                    assert forall|j: int| 0 <= j < old(self)@.len() implies #[trigger] self@[j] == (
                    if is_at(old(self)@[j], cx as int, cz as int) {
                        Chunk { used_time: now, ..old(self)@[j] }
                    } else {
                        old(self)@[j]
                    }) by {
                        if j != i {
                            if j < i {
                                assert(!same_place(old(self)@[j], old(self)@[i as int]));
                            } else {
                                assert(!same_place(old(self)@[i as int], old(self)@[j]));
                            }
                        }
                    }
                }
                true
            },
            None => false,
        }
    }

    /// Marks the cached chunk at `(cx, cz)` as used at the present time, and
    /// says whether there is such a chunk. Nothing but that chunk's time of
    /// use changes.
    pub fn touch(&mut self, cx: i64, cz: i64) -> (found: bool)
        requires
            old(self).wf(),
        ensures
            final(self).wf(),
            final(self).spec_seed() == old(self).spec_seed(),
            final(self).spec_capacity() == old(self).spec_capacity(),
            found == holds_coordinate(old(self)@, cx as int, cz as int),
            final(self)@.len() == old(self)@.len(),
            forall|i: int|
                0 <= i < old(self)@.len() ==> #[trigger] final(self)@[i] == (Chunk {
                    used_time: final(self)@[i].used_time,
                    ..old(self)@[i]
                }) && (!is_at(old(self)@[i], cx as int, cz as int) ==> final(self)@[i] == old(
                    self,
                )@[i]),
    {
        let now = precise_time_ns();
        self.touch_at(cx, cz, now)
    }

    /// The place of a chunk that was used no later than any other.
    fn least_recently_used(&self) -> (place: usize)
        requires
            self@.len() > 0,
        ensures
            place < self@.len(),
            forall|j: int| 0 <= j < self@.len() ==> self@[place as int].used_time <= (
            #[trigger] self@[j]).used_time,
    {
        let mut place: usize = 0;
        let mut i: usize = 1;
        while i < self.cache.len()
            invariant
                place < i <= self.cache@.len(),
                forall|j: int| 0 <= j < i ==> self.cache@[place as int].used_time <= (
                #[trigger] self.cache@[j]).used_time,
            decreases self.cache@.len() - i,
        {
            if self.cache[i].used_time < self.cache[place].used_time {
                place = i;
            }
            i += 1;
        }
        place
    }

    /// Puts a chunk into the cache. A chunk that stood at the same coordinate
    /// is replaced. Then, as long as the cache holds more chunks than its
    /// capacity, a chunk that was used no later than any other is evicted.
    pub fn insert(&mut self, chunk: Chunk) -> (displaced: Displaced)
        requires
            old(self).wf(),
        ensures
            final(self).wf(),
            final(self).spec_seed() == old(self).spec_seed(),
            final(self).spec_capacity() == old(self).spec_capacity(),
            is_insertion(
                old(self)@,
                old(self).spec_capacity() as int,
                chunk,
                final(self)@,
                displaced,
            ),
    {
        broadcast use vstd::seq_lib::group_to_multiset_ensures;

        let replaced = match self.position(chunk.x, chunk.z) {
            Some(i) => {
                let before = self.cache.remove(i);
                proof {
                    assert(old(self)@[i as int] == before);
                    assert forall|a: int, b: int| 0 <= a < b < self.cache@.len() implies !same_place(
                        #[trigger] self.cache@[a],
                        #[trigger] self.cache@[b],
                    ) by {
                        let a0 = if a < i { a } else { a + 1 };
                        let b0 = if b < i { b } else { b + 1 };
                        assert(self.cache@[a] == old(self)@[a0]);
                        assert(self.cache@[b] == old(self)@[b0]);
                    }
                    assert forall|a: int| 0 <= a < self.cache@.len() implies !is_at(
                        #[trigger] self.cache@[a],
                        chunk.x as int,
                        chunk.z as int,
                    ) by {
                        let a0 = if a < i { a } else { a + 1 };
                        assert(self.cache@[a] == old(self)@[a0]);
                        if a0 < i {
                            assert(!same_place(old(self)@[a0], old(self)@[i as int]));
                        } else {
                            assert(!same_place(old(self)@[i as int], old(self)@[a0]));
                        }
                    }
                }
                Some(before)
            },
            None => {
                proof {
                    assert forall|a: int| 0 <= a < self.cache@.len() implies !is_at(
                        #[trigger] self.cache@[a],
                        chunk.x as int,
                        chunk.z as int,
                    ) by {
                        if is_at(self.cache@[a], chunk.x as int, chunk.z as int) {
                            assert(holds_coordinate(self@, chunk.x as int, chunk.z as int));
                        }
                    }
                }
                None
            },
        };
        let ghost kept = self.cache@;
        self.cache.push(chunk);
        let ghost pool = self.cache@;
        let ghost taken = replaced;
        proof {
            assert(distinct_coordinates(pool));
            match taken {
                Some(before) => {
                    assert(Seq::<Chunk>::empty().push(before).to_multiset()
                        =~= Seq::<Chunk>::empty().to_multiset().insert(before));
                    assert(pool.to_multiset().add(Seq::<Chunk>::empty().push(before).to_multiset())
                        =~= old(self)@.to_multiset().insert(chunk));
                },
                None => {
                    assert(pool.to_multiset().add(Seq::<Chunk>::empty().to_multiset())
                        =~= old(self)@.to_multiset().insert(chunk));
                },
            }
        }
        let mut evicted: Vec<Chunk> = Vec::new();
        while self.cache.len() > self.capacity
            invariant
                self.spec_seed() == old(self).spec_seed(),
                self.spec_capacity() == old(self).spec_capacity(),
                distinct_coordinates(self.cache@),
                self.cache@.to_multiset().add(evicted@.to_multiset()) == pool.to_multiset(),
                self.cache@.len() + evicted@.len() == pool.len(),
                self.cache@.len() >= self.capacity || evicted@.len() == 0,
                forall|i: int, j: int|
                    0 <= i < evicted@.len() && 0 <= j < self.cache@.len() ==> (
                    #[trigger] evicted@[i]).used_time <= (#[trigger] self.cache@[j]).used_time,
            decreases self.cache@.len(),
        {
            let place = self.least_recently_used();
            let ghost before = self.cache@;
            let ghost gone = evicted@;
            let oldest = self.cache.remove(place);
            evicted.push(oldest);
            proof {
                assert(before[place as int] == oldest);
                assert(before.contains(oldest));
                before.to_multiset_ensures();
                gone.to_multiset_ensures();
                assert(before.to_multiset().count(oldest) > 0);
                assert(self.cache@.to_multiset() == before.to_multiset().remove(oldest));
                assert(evicted@.to_multiset() == gone.to_multiset().insert(oldest));
                assert(self.cache@.to_multiset().add(evicted@.to_multiset())
                    =~= before.to_multiset().add(gone.to_multiset()));
                assert forall|a: int, b: int| 0 <= a < b < self.cache@.len() implies !same_place(
                    #[trigger] self.cache@[a],
                    #[trigger] self.cache@[b],
                ) by {
                    let a0 = if a < place { a } else { a + 1 };
                    let b0 = if b < place { b } else { b + 1 };
                    assert(self.cache@[a] == before[a0]);
                    assert(self.cache@[b] == before[b0]);
                }
                assert forall|i: int, j: int|
                    0 <= i < evicted@.len() && 0 <= j < self.cache@.len() implies (
                #[trigger] evicted@[i]).used_time <= (#[trigger] self.cache@[j]).used_time by {
                    let j0 = if j < place { j } else { j + 1 };
                    assert(self.cache@[j] == before[j0]);
                    if i < gone.len() {
                        assert(evicted@[i] == gone[i]);
                    } else {
                        assert(evicted@[i] == oldest);
                    }
                }
            }
        }
        Displaced { replaced, evicted }
    }

    /// Loads a generated chunk, used at the time `now`: makes it ready with
    /// the buffers that its geometry went to, and puts it into the cache.
    /// Where the chunk has geometry and got no buffers, the load fails and
    /// the cache stays as it is.
    pub fn load_at(&mut self, build: ChunkBuild, buffers: Option<BufferHandles>, now: u64) -> (loaded:
        Result<Displaced, LoadError>)
        requires
            old(self).wf(),
        ensures
            final(self).wf(),
            final(self).spec_seed() == old(self).spec_seed(),
            final(self).spec_capacity() == old(self).spec_capacity(),
            match build.finished(buffers, now) {
                Ok(chunk) => loaded matches Ok(displaced) && is_insertion(
                    old(self)@,
                    old(self).spec_capacity() as int,
                    chunk,
                    final(self)@,
                    displaced,
                ),
                Err(error) => loaded matches Err(e) && e == error && final(self)@ == old(self)@,
            },
    {
        match build.finish_at(buffers, now) {
            Ok(chunk) => Ok(self.insert(chunk)),
            Err(error) => Err(error),
        }
    }

    /// Loads a generated chunk, used at the present time.
    pub fn load(&mut self, build: ChunkBuild, buffers: Option<BufferHandles>) -> (loaded: Result<
        Displaced,
        LoadError,
    >)
        requires
            old(self).wf(),
        ensures
            final(self).wf(),
            final(self).spec_seed() == old(self).spec_seed(),
            final(self).spec_capacity() == old(self).spec_capacity(),
            exists|now: u64|
                match #[trigger] build.finished(buffers, now) {
                    Ok(chunk) => loaded matches Ok(displaced) && is_insertion(
                        old(self)@,
                        old(self).spec_capacity() as int,
                        chunk,
                        final(self)@,
                        displaced,
                    ),
                    Err(error) => loaded matches Err(e) && e == error && final(self)@ == old(
                        self,
                    )@,
                },
    {
        let now = precise_time_ns();
        self.load_at(build, buffers, now)
    }
}

} // verus!
