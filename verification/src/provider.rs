//! Persistence: the buffer of chunks that wait to be written, the cycle of
//! the loop that writes them, and what a world is loaded from.
//!
//! Reading and writing files is the host's part. It hands over what it read
//! and is told what to write.

use crate::collections::{lists_map, ChunkKey, ChunkMap};
use crate::terrain::{terrain_view, Chunk, ChunkView, TerrainMap};
use crate::world::ChunkSupplement;
use vstd::prelude::*;

verus! {

/// The pause between two cycles of the save loop unless it is told another,
/// in milliseconds.
pub const DEFAULT_SAVE_INTERVAL: u32 = 1000;

/// A message to the save loop.
#[derive(Clone, Copy, Debug, PartialEq, Eq, Structural)]
pub enum SaveMsg {
    /// Ends the loop.
    END,
    /// Sets the pause between two cycles, in milliseconds.
    RATE(u32),
}

/// The three files that describe a saved world as a whole. The two indexes
/// are kept as the bytes that were read.
#[derive(Debug, PartialEq, Eq)]
pub struct WorldFiles {
    pub chunks: Vec<u8>,
    pub locations: Vec<u8>,
    pub seed: u32,
}

/// The first of the three files of a world that is missing.
#[derive(Clone, Copy, Debug, PartialEq, Eq, Structural)]
pub enum LoadError {
    MissingChunks,
    MissingLocations,
    MissingSeed,
}

/// A failure of the disk that the server lives with.
#[derive(Clone, Copy, Debug, PartialEq, Eq)]
pub enum PersistenceError {
    /// The file of a chunk could not be written. The chunk waits for the
    /// next flush.
    Write { key: ChunkKey },
    /// The file of a chunk could not be read. The chunk is generated.
    Read { key: ChunkKey },
}

/// Where the world of a server comes from.
#[derive(Debug, PartialEq, Eq)]
pub enum WorldSource {
    /// From the files of a saved world.
    Loaded(WorldFiles),
    /// From the generator, started with the seed.
    Generated(u32),
}

/// What the loop does in one cycle.
#[derive(Debug, PartialEq, Eq)]
pub enum SaveStep {
    /// The loop ends; nothing is written.
    Stop,
    /// The chunks to write, one file each; then the loop pauses and goes on.
    Flush(Vec<(ChunkKey, Chunk)>),
}

/// The character of a decimal digit.
pub open spec fn digit_char(d: int) -> char {
    if d == 0 {
        '0'
    } else if d == 1 {
        '1'
    } else if d == 2 {
        '2'
    } else if d == 3 {
        '3'
    } else if d == 4 {
        '4'
    } else if d == 5 {
        '5'
    } else if d == 6 {
        '6'
    } else if d == 7 {
        '7'
    } else if d == 8 {
        '8'
    } else {
        '9'
    }
}

/// The decimal digits of a natural number, without leading zeros.
pub open spec fn digits(n: nat) -> Seq<char>
    decreases n,
{
    if n < 10 {
        seq![digit_char(n as int)]
    } else {
        digits(n / 10).push(digit_char((n % 10) as int))
    }
}

/// An integer in decimal, with a minus sign in front if it is negative.
pub open spec fn decimal(i: int) -> Seq<char> {
    if i < 0 {
        seq!['-'] + digits((-i) as nat)
    } else {
        digits(i as nat)
    }
}

/// The name of the file of a chunk: its two coordinates in decimal, with
/// an underscore between them.
pub open spec fn chunk_name_text(key: ChunkKey) -> Seq<char> {
    decimal(key.0 as int) + seq!['_'] + decimal(key.1 as int)
}

/// The digit that a character stands for; zero for any other character.
pub open spec fn digit_value(c: char) -> nat {
    if c == '1' {
        1
    } else if c == '2' {
        2
    } else if c == '3' {
        3
    } else if c == '4' {
        4
    } else if c == '5' {
        5
    } else if c == '6' {
        6
    } else if c == '7' {
        7
    } else if c == '8' {
        8
    } else if c == '9' {
        9
    } else {
        0
    }
}

/// The number that a sequence of digits is read as.
pub open spec fn digits_value(text: Seq<char>) -> nat
    decreases text.len(),
{
    if text.len() == 0 {
        0
    } else {
        digits_value(text.drop_last()) * 10 + digit_value(text.last())
    }
}

/// The integer that a text is read as: with a minus sign in front, the
/// negative of what follows.
pub open spec fn decimal_value(text: Seq<char>) -> int {
    if text.len() > 0 && text[0] == '-' {
        -(digits_value(text.skip(1)) as int)
    } else {
        digits_value(text) as int
    }
}

/// The place of the first underscore in a text, or the length of the text
/// if there is none.
pub open spec fn underscore_at(text: Seq<char>) -> int
    decreases text.len(),
{
    if text.len() == 0 {
        0
    } else if text[0] == '_' {
        0
    } else {
        1 + underscore_at(text.drop_first())
    }
}

/// The key that the name of a chunk file is read as.
pub open spec fn chunk_key_of(name: Seq<char>) -> (int, int) {
    let at = underscore_at(name);
    (decimal_value(name.take(at)), decimal_value(name.skip(at + 1)))
}

/// The digits of a number are read as the number; there is at least one,
/// and none is a minus sign or an underscore.
pub proof fn lemma_digits_are_read_back(n: nat)
    ensures
        digits_value(digits(n)) == n,
        digits(n).len() > 0,
        forall|i: int| 0 <= i < digits(n).len() ==> (#[trigger] digits(n)[i]) != '_' && digits(n)[i] != '-',
    decreases n,
{
    if n < 10 {
        let text = digits(n);
        assert(text.drop_last() =~= Seq::<char>::empty());
        assert(digits_value(text.drop_last()) == 0);
    } else {
        lemma_digits_are_read_back(n / 10);
        let text = digits(n);
        assert(text.drop_last() =~= digits(n / 10));
    }
}

/// An integer in decimal is read as the integer, and holds no underscore.
pub proof fn lemma_decimal_is_read_back(i: int)
    ensures
        decimal_value(decimal(i)) == i,
        decimal(i).len() > 0,
        forall|k: int| 0 <= k < decimal(i).len() ==> (#[trigger] decimal(i)[k]) != '_',
{
    if i < 0 {
        lemma_digits_are_read_back((-i) as nat);
        let text = decimal(i);
        assert(text.skip(1) =~= digits((-i) as nat));
    } else {
        lemma_digits_are_read_back(i as nat);
    }
}

/// In a text that begins with a part without an underscore, followed by an
/// underscore, the first underscore stands right behind that part.
proof fn lemma_underscore_behind(front: Seq<char>, back: Seq<char>)
    requires
        forall|k: int| 0 <= k < front.len() ==> (#[trigger] front[k]) != '_',
    ensures
        underscore_at(front + seq!['_'] + back) == front.len(),
    decreases front.len(),
{
    let text = front + seq!['_'] + back;
    if front.len() == 0 {
        assert(text[0] == '_');
    } else {
        assert(text[0] == front[0]);
        assert(text.drop_first() =~= front.drop_first() + seq!['_'] + back);
        assert forall|k: int| 0 <= k < front.drop_first().len() implies (
        #[trigger] front.drop_first()[k]) != '_' by {
            assert(front.drop_first()[k] == front[k + 1]);
        }
        lemma_underscore_behind(front.drop_first(), back);
    }
}

/// The name of the file of a chunk is read back as the key of the chunk.
pub proof fn lemma_chunk_name_is_read_back(key: ChunkKey)
    ensures
        chunk_key_of(chunk_name_text(key)) == (key.0 as int, key.1 as int),
{
    let front = decimal(key.0 as int);
    let back = decimal(key.1 as int);
    let name = chunk_name_text(key);
    lemma_decimal_is_read_back(key.0 as int);
    lemma_decimal_is_read_back(key.1 as int);
    lemma_underscore_behind(front, back);
    assert(name.take(front.len() as int) =~= front);
    assert(name.skip(front.len() as int + 1) =~= back);
}

/// Two chunks with different keys have files with different names.
pub proof fn lemma_chunk_names_differ(a: ChunkKey, b: ChunkKey)
    requires
        a != b,
    ensures
        chunk_name_text(a) != chunk_name_text(b),
{
    lemma_chunk_name_is_read_back(a);
    lemma_chunk_name_is_read_back(b);
}

/// One decimal digit as text.
fn digit_str(d: u64) -> (text: &'static str)
    requires
        d < 10,
    ensures
        text@ == seq![digit_char(d as int)],
{
    proof {
        reveal_strlit("0");
        reveal_strlit("1");
        reveal_strlit("2");
        reveal_strlit("3");
        reveal_strlit("4");
        reveal_strlit("5");
        reveal_strlit("6");
        reveal_strlit("7");
        reveal_strlit("8");
        reveal_strlit("9");
    }
    let text = if d == 0 {
        "0"
    } else if d == 1 {
        "1"
    } else if d == 2 {
        "2"
    } else if d == 3 {
        "3"
    } else if d == 4 {
        "4"
    } else if d == 5 {
        "5"
    } else if d == 6 {
        "6"
    } else if d == 7 {
        "7"
    } else if d == 8 {
        "8"
    } else {
        "9"
    };
    assert(text@ =~= seq![digit_char(d as int)]);
    text
}

/// Puts the decimal digits of a number behind a text.
fn push_digits(text: &mut String, n: u64)
    ensures
        final(text)@ == old(text)@ + digits(n as nat),
    decreases n,
{
    if n >= 10 {
        push_digits(text, n / 10);
    }
    text.append(digit_str(n % 10));
    assert(text@ =~= old(text)@ + digits(n as nat));
}

/// Puts an integer in decimal behind a text.
fn push_decimal(text: &mut String, i: i32)
    ensures
        final(text)@ == old(text)@ + decimal(i as int),
{
    if i < 0 {
        proof {
            reveal_strlit("-");
        }
        text.append("-");
        push_digits(text, (-(i as i64)) as u64);
        assert(text@ =~= old(text)@ + decimal(i as int));
    } else {
        push_digits(text, i as u64);
    }
}

/// The chunks of a list of entries as mathematical values.
pub open spec fn entries_view(entries: Seq<(ChunkKey, Chunk)>) -> Seq<(ChunkKey, ChunkView)> {
    entries.map_values(|e: (ChunkKey, Chunk)| (e.0, e.1@))
}

/// The world and the chunks that wait to be written.
#[derive(Debug, PartialEq, Eq)]
pub struct Provider {
    pub world: WorldSource,
    /// The save buffer: at most one chunk per key, the one that was handed
    /// in last.
    pub chunks: ChunkMap,
}

impl Provider {
    /// The save buffer as a mathematical value.
    pub open spec fn buffer(&self) -> Map<ChunkKey, ChunkView> {
        terrain_view(self.chunks@)
    }

    /// The seed of the world.
    pub open spec fn spec_seed(&self) -> u32 {
        match self.world {
            WorldSource::Loaded(files) => files.seed,
            WorldSource::Generated(seed) => seed,
        }
    }

    /// The three files of a world, if none of them is missing; else the
    /// first that is, in the order chunks, locations, seed.
    pub fn load(chunks: Option<Vec<u8>>, locations: Option<Vec<u8>>, seed: Option<u32>) -> (r:
        Result<WorldFiles, LoadError>)
        ensures
            match r {
                Ok(files) => chunks == Some(files.chunks) && locations == Some(files.locations)
                    && seed == Some(files.seed),
                Err(LoadError::MissingChunks) => chunks.is_none(),
                Err(LoadError::MissingLocations) => chunks.is_some() && locations.is_none(),
                Err(LoadError::MissingSeed) => chunks.is_some() && locations.is_some()
                    && seed.is_none(),
            },
    {
        match chunks {
            None => Err(LoadError::MissingChunks),
            Some(chunks) => match locations {
                None => Err(LoadError::MissingLocations),
                Some(locations) => match seed {
                    None => Err(LoadError::MissingSeed),
                    Some(seed) => Ok(WorldFiles { chunks, locations, seed }),
                },
            },
        }
    }

    /// A provider for the world that was loaded, or, if loading failed, for
    /// a world to generate at `seed`. Its save buffer is empty.
    pub fn new(seed: u32, loaded: Result<WorldFiles, LoadError>) -> (provider: Provider)
        ensures
            provider.buffer() == Map::<ChunkKey, ChunkView>::empty(),
            match loaded {
                Ok(files) => provider.world == WorldSource::Loaded(files),
                Err(_) => provider.world == WorldSource::Generated(seed),
            },
    {
        let world = match loaded {
            Ok(files) => WorldSource::Loaded(files),
            Err(_) => WorldSource::Generated(seed),
        };
        let provider = Provider { world, chunks: ChunkMap::new() };
        assert(provider.buffer() =~= Map::<ChunkKey, ChunkView>::empty());
        provider
    }

    /// The seed of the world.
    #[verifier::when_used_as_spec(spec_seed)]
    pub fn seed(&self) -> (seed: u32)
        ensures
            seed == self.spec_seed(),
    {
        match &self.world {
            WorldSource::Loaded(files) => files.seed,
            WorldSource::Generated(seed) => *seed,
        }
    }

    /// The name of the file of a chunk.
    pub fn chunk_name(v: ChunkKey) -> (name: String)
        ensures
            name@ == chunk_name_text(v),
    {
        let mut name = String::new();
        push_decimal(&mut name, v.0);
        proof {
            reveal_strlit("_");
        }
        name.append("_");
        push_decimal(&mut name, v.1);
        assert(name@ =~= chunk_name_text(v));
        name
    }

    /// Hands a chunk to the save buffer. A chunk that waits under the same
    /// key is replaced: a key is written once per flush, with the chunk that
    /// came last.
    pub fn set_chunk(&mut self, pos: ChunkKey, chunk: Chunk)
        ensures
            final(self).buffer() == old(self).buffer().insert(pos, chunk@),
            final(self).world == old(self).world,
    {
        self.chunks.insert(pos, chunk);
        assert(self.buffer() =~= old(self).buffer().insert(pos, chunk@));
    }

    /// Notes that a chunk of a flush could not be written: the chunk goes
    /// back into the save buffer for the next flush, unless a later chunk
    /// waits under its key by now.
    pub fn write_failed(&mut self, pos: ChunkKey, chunk: Chunk) -> (error: PersistenceError)
        ensures
            error == (PersistenceError::Write { key: pos }),
            final(self).buffer() == (if old(self).buffer().contains_key(pos) {
                old(self).buffer()
            } else {
                old(self).buffer().insert(pos, chunk@)
            }),
            final(self).world == old(self).world,
    {
        if !self.chunks.contains_key(pos) {
            self.chunks.insert(pos, chunk);
            assert(self.buffer() =~= old(self).buffer().insert(pos, chunk@));
        }
        PersistenceError::Write { key: pos }
    }

    /// Takes the save buffer and leaves an empty one in its place.
    pub fn take_chunks(&mut self) -> (taken: ChunkMap)
        ensures
            terrain_view(taken@) == old(self).buffer(),
            final(self).buffer() == Map::<ChunkKey, ChunkView>::empty(),
            final(self).world == old(self).world,
    {
        let mut taken = ChunkMap::new();
        std::mem::swap(&mut taken, &mut self.chunks);
        assert(self.buffer() =~= Map::<ChunkKey, ChunkView>::empty());
        taken
    }

    /// Copies of the chunks of `map` under the given keys, to be written
    /// one file each, in the order of the keys.
    pub fn save_chunks(map: &TerrainMap, chunks: &Vec<ChunkKey>) -> (copies: Vec<(ChunkKey, Chunk)>)
        requires
            forall|i: int| 0 <= i < chunks.len() ==> map@.contains_key(#[trigger] chunks[i]),
        ensures
            copies.len() == chunks.len(),
            forall|i: int|
                0 <= i < chunks.len() ==> (#[trigger] copies[i]).0 == chunks[i] && copies[i].1@
                    == map@[chunks[i]],
    {
        let mut copies: Vec<(ChunkKey, Chunk)> = Vec::new();
        let mut i: usize = 0;
        while i < chunks.len()
            invariant
                i <= chunks.len(),
                copies.len() == i,
                forall|j: int| 0 <= j < chunks.len() ==> map@.contains_key(#[trigger] chunks[j]),
                forall|j: int|
                    0 <= j < i ==> (#[trigger] copies[j]).0 == chunks[j] && copies[j].1@
                        == map@[chunks[j]],
            decreases chunks.len() - i,
        {
            let key = chunks[i];
            match map.get_key(key) {
                Some(chunk) => {
                    copies.push((key, chunk.cloned()));
                },
                None => {
                    assert(map@.contains_key(chunks[i as int]));
                },
            }
            i = i + 1;
        }
        copies
    }

    /// Copies of the chunks of `map` under the given keys, as
    /// [`Provider::save_chunks`] gives them, if every key has a chunk in
    /// `map`; nothing, if one has none.
    pub fn try_save_chunks(map: &TerrainMap, chunks: &Vec<ChunkKey>) -> (copies: Option<
        Vec<(ChunkKey, Chunk)>,
    >)
        ensures
            copies is Some <==> forall|i: int|
                0 <= i < chunks.len() ==> map@.contains_key(#[trigger] chunks[i]),
            copies is Some ==> copies->0.len() == chunks.len() && forall|i: int|
                0 <= i < chunks.len() ==> (#[trigger] copies->0[i]).0 == chunks[i] && copies->0[i].1@
                    == map@[chunks[i]],
    {
        let mut i: usize = 0;
        while i < chunks.len()
            invariant
                i <= chunks.len(),
                forall|j: int| 0 <= j < i ==> map@.contains_key(#[trigger] chunks[j]),
            decreases chunks.len() - i,
        {
            if !map.contains_key(chunks[i]) {
                assert(!map@.contains_key(chunks[i as int]));
                return None;
            }
            i = i + 1;
        }
        Some(Provider::save_chunks(map, chunks))
    }

    /// The chunk that was read from the file of a key, with nothing to spawn;
    /// or, if the file could not be read, the failure: the chunk has to be
    /// generated.
    pub fn get_chunk(chunk_pos: ChunkKey, stored: Option<Chunk>) -> (r: Result<
        (Chunk, ChunkSupplement),
        PersistenceError,
    >)
        ensures
            match r {
                Ok((chunk, supplement)) => stored == Some(chunk) && supplement.npcs@.len() == 0,
                Err(error) => stored.is_none() && error == (PersistenceError::Read {
                    key: chunk_pos,
                }),
            },
    {
        match stored {
            Some(chunk) => Ok((chunk, ChunkSupplement::new())),
            None => Err(PersistenceError::Read { key: chunk_pos }),
        }
    }
}

/// Of two chunks that are handed to the save buffer under one key before a
/// flush, the later stays: the buffer holds one chunk under the key, and it
/// is the later one.
pub proof fn lemma_saves_coalesce(
    buffer: Map<ChunkKey, ChunkView>,
    key: ChunkKey,
    first: ChunkView,
    second: ChunkView,
)
    ensures
        buffer.insert(key, first).insert(key, second) == buffer.insert(key, second),
        buffer.insert(key, first).insert(key, second)[key] == second,
        buffer.insert(key, first).insert(key, second).dom() == buffer.dom().insert(key),
{
    assert(buffer.insert(key, first).insert(key, second) =~= buffer.insert(key, second));
    assert(buffer.insert(key, second).dom() =~= buffer.dom().insert(key));
}

/// What a flush writes holds every key of the buffer once: no chunk is
/// written twice in one flush.
pub proof fn lemma_flush_writes_each_key_once(
    entries: Seq<(ChunkKey, ChunkView)>,
    buffer: Map<ChunkKey, ChunkView>,
    i: int,
    j: int,
)
    requires
        lists_map(entries, buffer),
        0 <= i < entries.len(),
        0 <= j < entries.len(),
        entries[i].0 == entries[j].0,
    ensures
        i == j,
        buffer[entries[i].0] == entries[i].1,
{
    if i < j {
        assert(entries[i].0 != entries[j].0);
    }
    if j < i {
        assert(entries[j].0 != entries[i].0);
    }
}

/// The loop that writes the save buffer out, cycle by cycle.
#[derive(Clone, Copy, Debug, PartialEq, Eq, Structural)]
pub struct SaveLoop {
    /// The pause before the next cycle, in milliseconds.
    pub wait_time: u32,
}

impl SaveLoop {
    /// A loop with the default pause.
    pub fn new() -> (save_loop: SaveLoop)
        ensures
            save_loop.wait_time == DEFAULT_SAVE_INTERVAL,
    {
        SaveLoop { wait_time: DEFAULT_SAVE_INTERVAL }
    }

    /// One cycle, after the pause. `msg` is the message that waited, if one
    /// did. On `END` the loop stops and the buffer is left alone. Else the
    /// buffer is taken as a whole, to be written with every key once, and an
    /// empty one is left; `RATE` sets the pause from then on.
    pub fn cycle(&mut self, msg: Option<SaveMsg>, provider: &mut Provider) -> (step: SaveStep)
        ensures
            final(provider).world == old(provider).world,
            msg == Some(SaveMsg::END) ==> step is Stop && final(provider).buffer() == old(
                provider,
            ).buffer() && final(self).wait_time == old(self).wait_time,
            msg != Some(SaveMsg::END) ==> step is Flush && lists_map(
                entries_view(step->Flush_0@),
                old(provider).buffer(),
            ) && final(provider).buffer() == Map::<ChunkKey, ChunkView>::empty(),
            final(self).wait_time == (match msg {
                Some(SaveMsg::RATE(rate)) => rate,
                _ => old(self).wait_time,
            }),
    {
        match msg {
            Some(SaveMsg::END) => {
                return SaveStep::Stop;
            },
            Some(SaveMsg::RATE(rate)) => {
                self.wait_time = rate;
            },
            None => {},
        }
        let mut taken = provider.take_chunks();
        let ghost held = taken@;
        let entries = taken.drain();
        proof {
            let views = entries_view(entries@);
            let buffer = old(provider).buffer();
            assert forall|k: ChunkKey| buffer.contains_key(k) implies exists|i: int|
                0 <= i < views.len() && (#[trigger] views[i]).0 == k by {
                assert(held.contains_key(k));
                let i = choose|i: int| 0 <= i < entries@.len() && (#[trigger] entries@[i]).0 == k;
                assert(views[i].0 == k);
            }
            assert forall|i: int| 0 <= i < views.len() implies buffer.contains_key(
                (#[trigger] views[i]).0,
            ) && buffer[views[i].0] == views[i].1 by {
                assert(held.contains_key(entries@[i].0));
            }
            assert forall|i: int, j: int| 0 <= i < j < views.len() implies (#[trigger] views[i]).0
                != (#[trigger] views[j]).0 by {
                assert(entries@[i].0 != entries@[j].0);
            }
        }
        SaveStep::Flush(entries)
    }
}

} // verus!
