//! Errors of the state database.

use crate::address::H256;
use crate::bytes::{bytes_eq, copy_bytes};
use vstd::prelude::*;

verus! {

/// A fault of the state database. It is no outcome of a transaction: whoever runs the
/// transaction has to treat it as a failure of the machinery underneath.
#[derive(Clone, Copy, Debug, PartialEq, Eq, Structural)]
pub enum DbError {
    /// A part of the database that was needed is missing.
    IncompleteDatabase,
    /// A stored value could not be decoded.
    DecoderError,
}

/// The key of a value in the state database: a byte string whose layout the database does
/// not look into.
#[derive(Clone, Debug, PartialEq, Eq)]
pub struct StateKey {
    pub bytes: Vec<u8>,
}

/// The identifier under which a commit publishes a version of the state.
pub type EpochId = H256;

/// One write: a value put under a key, or, with no value, the key deleted.
#[derive(Clone, Debug, PartialEq, Eq)]
pub struct Write {
    pub key: Vec<u8>,
    pub value: Option<Vec<u8>>,
}

/// A write as mathematics.
pub struct WriteModel {
    pub key: Seq<u8>,
    pub value: Option<Seq<u8>>,
}

impl View for Write {
    type V = WriteModel;

    open spec fn view(&self) -> WriteModel {
        WriteModel {
            key: self.key@,
            value: match self.value {
                Some(v) => Some(v@),
                None => None,
            },
        }
    }
}

/// A ledger for diagnosis: it takes down every write in the order in which it was made.
#[derive(Debug)]
pub struct ComputeEpochDebugRecord {
    pub writes: Vec<Write>,
}

impl ComputeEpochDebugRecord {
    /// What the ledger has taken down.
    pub open spec fn entries(&self) -> Seq<WriteModel> {
        self.writes@.map_values(|w: Write| w@)
    }

    /// A ledger that has taken down nothing.
    pub fn new() -> (r: ComputeEpochDebugRecord)
        ensures
            r.entries() == Seq::<WriteModel>::empty(),
    {
        let r = ComputeEpochDebugRecord { writes: Vec::new() };
        assert(r.entries() =~= Seq::<WriteModel>::empty());
        r
    }

    /// Takes down one write.
    pub fn record(&mut self, write: Write)
        ensures
            final(self).entries() == old(self).entries().push(write@),
    {
        self.writes.push(write);
        assert(self.entries() =~= old(self).entries().push(write@));
    }
}

/// A mapping after a list of writes was applied to it, the first write first.
pub open spec fn apply_writes(base: Map<Seq<u8>, Seq<u8>>, writes: Seq<Write>) -> Map<Seq<u8>, Seq<u8>>
    decreases writes.len(),
{
    if writes.len() == 0 {
        base
    } else {
        let before = apply_writes(base, writes.drop_last());
        match writes.last().value {
            Some(v) => before.insert(writes.last().key@, v@),
            None => before.remove(writes.last().key@),
        }
    }
}

/// Applying two lists of writes one after the other is applying them joined.
pub proof fn lemma_apply_writes_concat(base: Map<Seq<u8>, Seq<u8>>, a: Seq<Write>, b: Seq<Write>)
    ensures
        apply_writes(base, a + b) == apply_writes(apply_writes(base, a), b),
    decreases b.len(),
{
    if b.len() == 0 {
        assert(a + b =~= a);
    } else {
        lemma_apply_writes_concat(base, a, b.drop_last());
        assert((a + b).drop_last() =~= a + b.drop_last());
        assert((a + b).last() == b.last());
    }
}

/// What a mapping holds under a key.
pub open spec fn lookup(m: Map<Seq<u8>, Seq<u8>>, key: Seq<u8>) -> Option<Seq<u8>> {
    if m.contains_key(key) {
        Some(m[key])
    } else {
        None
    }
}

/// The bytes of an optional byte string.
pub open spec fn opt_view(v: Option<Vec<u8>>) -> Option<Seq<u8>> {
    match v {
        Some(b) => Some(b@),
        None => None,
    }
}

/// A keyed byte store whose writes are staged until a commit publishes them.
///
/// `visible` is what the store itself reads: the committed values with the staged writes
/// on top. `committed` is what others see.
pub trait StateDbTrait {
    spec fn committed(&self) -> Map<Seq<u8>, Seq<u8>>;

    spec fn visible(&self) -> Map<Seq<u8>, Seq<u8>>;

    /// Reads a raw value. That there is none is no error.
    fn get_raw(&self, key: StateKey) -> (r: Result<Option<Vec<u8>>, DbError>)
        ensures
            r matches Ok(v) ==> opt_view(v) == lookup(self.visible(), key.bytes@),
    ;

    /// Stages a write. Where a ledger is given, it takes the write down. A write that
    /// fails changes nothing.
    fn set_raw(&mut self, key: StateKey, value: Vec<u8>, debug_record: Option<&mut ComputeEpochDebugRecord>) -> (r:
        Result<(), DbError>)
        ensures
            final(self).committed() == old(self).committed(),
            r is Ok ==> final(self).visible() == old(self).visible().insert(key.bytes@, value@),
            r is Err ==> final(self).visible() == old(self).visible(),
            debug_record matches Some(ledger) ==> final(ledger).entries() == if r is Ok {
                ledger.entries().push(WriteModel { key: key.bytes@, value: Some(value@) })
            } else {
                ledger.entries()
            },
    ;

    /// Stages the deletion of a key. Where a ledger is given, it takes the deletion down.
    /// A deletion that fails changes nothing.
    fn delete(&mut self, key: StateKey, debug_record: Option<&mut ComputeEpochDebugRecord>) -> (r: Result<
        (),
        DbError,
    >)
        ensures
            final(self).committed() == old(self).committed(),
            r is Ok ==> final(self).visible() == old(self).visible().remove(key.bytes@),
            r is Err ==> final(self).visible() == old(self).visible(),
            debug_record matches Some(ledger) ==> final(ledger).entries() == if r is Ok {
                ledger.entries().push(WriteModel { key: key.bytes@, value: None })
            } else {
                ledger.entries()
            },
    ;

    /// Publishes all staged writes at once under `epoch_id`; after it nothing is staged.
    /// A commit that fails publishes nothing.
    fn commit(&mut self, epoch_id: EpochId, debug_record: Option<&mut ComputeEpochDebugRecord>) -> (r: Result<
        (),
        DbError,
    >)
        ensures
            final(self).visible() == old(self).visible(),
            r is Ok ==> final(self).committed() == old(self).visible(),
            r is Err ==> final(self).committed() == old(self).committed(),
            debug_record matches Some(ledger) ==> final(ledger).entries() == ledger.entries(),
    ;
}

/// A state database in memory. It keeps the committed writes and the staged writes as two
/// lists, each in the order in which the writes were made.
#[derive(Debug)]
pub struct StateDb {
    committed: Vec<Write>,
    staged: Vec<Write>,
    epoch: Option<EpochId>,
}

/// What a list of writes says of a key: the value of the last write to it; `None` where
/// no write touches it.
pub open spec fn last_write(writes: Seq<Write>, key: Seq<u8>) -> Option<Option<Seq<u8>>>
    decreases writes.len(),
{
    if writes.len() == 0 {
        None
    } else if writes.last().key@ == key {
        Some(opt_view(writes.last().value))
    } else {
        last_write(writes.drop_last(), key)
    }
}

/// Under a key, a mapping after some writes holds what the last write to the key put
/// there, and what it held before where no write touches the key.
pub proof fn lemma_lookup_after_writes(base: Map<Seq<u8>, Seq<u8>>, writes: Seq<Write>, key: Seq<u8>)
    ensures
        lookup(apply_writes(base, writes), key) == match last_write(writes, key) {
            Some(v) => v,
            None => lookup(base, key),
        },
    decreases writes.len(),
{
    if writes.len() > 0 {
        lemma_lookup_after_writes(base, writes.drop_last(), key);
    }
}

/// Finds the last write to a key in a list.
fn find_last_write(writes: &Vec<Write>, key: &[u8]) -> (r: Option<Option<Vec<u8>>>)
    ensures
        match r {
            Some(v) => last_write(writes@, key@) == Some(opt_view(v)),
            None => last_write(writes@, key@) is None,
        },
{
    let mut i: usize = writes.len();
    assert(writes@.subrange(0, i as int) =~= writes@);
    while i > 0
        invariant
            i <= writes.len(),
            last_write(writes@, key@) == last_write(writes@.subrange(0, i as int), key@),
        decreases i,
    {
        let ghost prefix = writes@.subrange(0, i as int);
        i -= 1;
        assert(prefix.drop_last() =~= writes@.subrange(0, i as int));
        assert(prefix.last() == writes@[i as int]);
        if bytes_eq(writes[i].key.as_slice(), key) {
            return Some(
                match &writes[i].value {
                    Some(v) => Some(copy_bytes(v.as_slice())),
                    None => None,
                },
            );
        }
    }
    None
}

impl StateDb {
    /// An empty database.
    pub fn new() -> (r: StateDb)
        ensures
            r.committed() == Map::<Seq<u8>, Seq<u8>>::empty(),
            r.visible() == Map::<Seq<u8>, Seq<u8>>::empty(),
            r.spec_epoch() is None,
    {
        StateDb { committed: Vec::new(), staged: Vec::new(), epoch: None }
    }

    /// The identifier of the last commit.
    pub closed spec fn spec_epoch(&self) -> Option<EpochId> {
        self.epoch
    }

    /// The identifier of the last commit; `None` before the first.
    pub fn epoch(&self) -> (r: Option<EpochId>)
        ensures
            r == self.spec_epoch(),
    {
        self.epoch
    }
}

impl StateDbTrait for StateDb {
    closed spec fn committed(&self) -> Map<Seq<u8>, Seq<u8>> {
        apply_writes(Map::empty(), self.committed@)
    }

    closed spec fn visible(&self) -> Map<Seq<u8>, Seq<u8>> {
        apply_writes(apply_writes(Map::empty(), self.committed@), self.staged@)
    }

    fn get_raw(&self, key: StateKey) -> (r: Result<Option<Vec<u8>>, DbError>)
        ensures
            r is Ok,
    {
        proof {
            lemma_lookup_after_writes(self.committed(), self.staged@, key.bytes@);
            lemma_lookup_after_writes(Map::empty(), self.committed@, key.bytes@);
        }
        match find_last_write(&self.staged, key.bytes.as_slice()) {
            Some(v) => Ok(v),
            None => match find_last_write(&self.committed, key.bytes.as_slice()) {
                Some(v) => Ok(v),
                None => Ok(None),
            },
        }
    }

    fn set_raw(&mut self, key: StateKey, value: Vec<u8>, debug_record: Option<&mut ComputeEpochDebugRecord>) -> (r:
        Result<(), DbError>)
        ensures
            r is Ok,
    {
        let ghost before = self.staged@;
        match debug_record {
            Some(ledger) => {
                ledger.record(
                    Write {
                        key: copy_bytes(key.bytes.as_slice()),
                        value: Some(copy_bytes(value.as_slice())),
                    },
                );
            },
            None => {},
        }
        self.staged.push(Write { key: key.bytes, value: Some(value) });
        assert(self.staged@.drop_last() =~= before);
        Ok(())
    }

    fn delete(&mut self, key: StateKey, debug_record: Option<&mut ComputeEpochDebugRecord>) -> (r: Result<
        (),
        DbError,
    >)
        ensures
            r is Ok,
    {
        let ghost before = self.staged@;
        match debug_record {
            Some(ledger) => {
                ledger.record(Write { key: copy_bytes(key.bytes.as_slice()), value: None });
            },
            None => {},
        }
        self.staged.push(Write { key: key.bytes, value: None });
        assert(self.staged@.drop_last() =~= before);
        Ok(())
    }

    fn commit(&mut self, epoch_id: EpochId, debug_record: Option<&mut ComputeEpochDebugRecord>) -> (r: Result<
        (),
        DbError,
    >)
        ensures
            r is Ok,
            final(self).spec_epoch() == Some(epoch_id),
    {
        proof {
            lemma_apply_writes_concat(Map::empty(), self.committed@, self.staged@);
        }
        self.committed.append(&mut self.staged);
        self.epoch = Some(epoch_id);
        Ok(())
    }
}

} // verus!
