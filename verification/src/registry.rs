//! The bot registry: components are registered under the content hash of
//! their bytes, so that uploading the same bytes twice yields the same bot.

use vstd::prelude::*;

verus! {

use crate::records::Bot;

/// The hex digest of a byte string under the registry's content hash.
pub uninterp spec fn sha256_hex_of(bytes: Seq<u8>) -> Seq<char>;

/// Relies on sha2's `Sha256`: the digest is a function of the input bytes
/// alone, printed here as lower-case hex.
#[verifier::external_body]
fn sha256_hex(bytes: &Vec<u8>) -> (r: String)
    ensures
        r@ == sha256_hex_of(bytes@),
{
    let mut hasher = <sha2::Sha256 as sha2::Digest>::new();
    sha2::Digest::update(&mut hasher, bytes.as_slice());
    format!("{:x}", sha2::Digest::finalize(hasher))
}

/// No two records share a content hash.
pub open spec fn unique_hashes(bots: Seq<Bot>) -> bool {
    forall|i: int, j: int|
        0 <= i < j < bots.len() ==> (#[trigger] bots[i]).wasm_hash@ != (
        #[trigger] bots[j]).wasm_hash@
}

/// Some record carries this content hash.
pub open spec fn has_hash(bots: Seq<Bot>, hash: Seq<char>) -> bool {
    exists|j: int| 0 <= j < bots.len() && (#[trigger] bots[j]).wasm_hash@ == hash
}

/// The id of the record carrying this content hash (unique under
/// [`unique_hashes`]).
pub open spec fn id_for_hash(bots: Seq<Bot>, hash: Seq<char>) -> Seq<char> {
    let j = choose|j: int| 0 <= j < bots.len() && (#[trigger] bots[j]).wasm_hash@ == hash;
    bots[j].id@
}

/// Registering a component under a hash nobody holds makes a later upload
/// of the same bytes a hit on that very record: the same id comes back.
pub proof fn lemma_dedupe_same_id(bots: Seq<Bot>, record: Bot)
    requires
        unique_hashes(bots),
        !has_hash(bots, record.wasm_hash@),
    ensures
        unique_hashes(bots.push(record)),
        has_hash(bots.push(record), record.wasm_hash@),
        id_for_hash(bots.push(record), record.wasm_hash@) == record.id@,
{
    let pushed = bots.push(record);
    assert(pushed[bots.len() as int] == record);
    assert forall|i: int, j: int|
        0 <= i < j < pushed.len() implies (#[trigger] pushed[i]).wasm_hash@ != (
    #[trigger] pushed[j]).wasm_hash@ by {
        if j == bots.len() {
            assert(pushed[i] == bots[i]);
        }
    }
    let j = choose|j: int|
        0 <= j < pushed.len() && (#[trigger] pushed[j]).wasm_hash@ == record.wasm_hash@;
    if j != bots.len() {
        assert(pushed[j] == bots[j]);
    }
}

/// The content-addressed store of registered components.
pub struct BotRegistry {
    /// The records, in registration order.
    pub bots: Vec<Bot>,
}

impl BotRegistry {
    /// The registry's records carry pairwise distinct hashes.
    pub open spec fn wf(self) -> bool {
        unique_hashes(self.bots@)
    }

    /// An empty registry.
    pub fn new() -> (r: BotRegistry)
        ensures
            r.wf(),
            r.bots@.len() == 0,
    {
        BotRegistry { bots: Vec::new() }
    }

    /// The index of the record carrying `hash`, if any.
    fn find_by_hash(&self, hash: &String) -> (r: Option<usize>)
        ensures
            match r {
                Some(j) => j < self.bots@.len() && self.bots@[j as int].wasm_hash@ == hash@,
                None => !has_hash(self.bots@, hash@),
            },
    {
        let n: usize = self.bots.len();
        let mut i: usize = 0;
        while i < n
            invariant
                0 <= i <= n,
                n == self.bots@.len(),
                forall|k: int| 0 <= k < i ==> (#[trigger] self.bots@[k]).wasm_hash@ != hash@,
            decreases n - i,
        {
            if self.bots[i].wasm_hash.eq(hash) {
                return Some(i);
            }
            i = i + 1;
        }
        None
    }

    /// Register component bytes: a record already carrying the bytes' hash
    /// wins (its id comes back, with `false`), otherwise a record is
    /// appended under `fresh_id` (which comes back with `true`).
    pub fn register_component(
        &mut self,
        wasm_bytes: &Vec<u8>,
        fresh_id: String,
        name: String,
        description: Option<String>,
        file_path: String,
        created_at: String,
    ) -> (r: (String, bool))
        requires
            old(self).wf(),
        ensures
            final(self).wf(),
            ({
                let h = sha256_hex_of(wasm_bytes@);
                if has_hash(old(self).bots@, h) {
                    &&& *final(self) == *old(self)
                    &&& !r.1
                    &&& r.0@ == id_for_hash(old(self).bots@, h)
                } else {
                    &&& final(self).bots@.len() == old(self).bots@.len() + 1
                    &&& final(self).bots@.drop_last() == old(self).bots@
                    &&& ({
                        let added = final(self).bots@.last();
                        &&& added.id@ == fresh_id@
                        &&& added.name == name
                        &&& added.description == description
                        &&& added.wasm_hash@ == h
                        &&& added.file_path == file_path
                        &&& added.created_at == created_at
                    })
                    &&& r.1
                    &&& r.0@ == fresh_id@
                }
            }),
    {
        let hash = sha256_hex(wasm_bytes);
        match self.find_by_hash(&hash) {
            Some(j) => {
                proof {
                    let h = sha256_hex_of(wasm_bytes@);
                    let k = choose|k: int|
                        0 <= k < self.bots@.len() && (#[trigger] self.bots@[k]).wasm_hash@ == h;
                    assert(k == j as int);
                }
                (self.bots[j].id.clone(), false)
            },
            None => {
                let record = Bot {
                    id: fresh_id.clone(),
                    name,
                    description,
                    wasm_hash: hash,
                    file_path,
                    created_at,
                };
                proof {
                    lemma_dedupe_same_id(self.bots@, record);
                }
                self.bots.push(record);
                proof {
                    assert(self.bots@.drop_last() =~= old(self).bots@);
                }
                (fresh_id, true)
            },
        }
    }
}

} // verus!
