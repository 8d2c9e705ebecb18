//! The scene document: the role-bearing entities of a store, as records, with
//! metadata.
use vstd::prelude::*;

use crate::components::SerializableEntity;
use crate::world::{doc_ids_ok, records, World};

verus! {

/// Metadata of a scene document. `next_id` is the scene-local id counter, so
/// that reloading does not collide with ids handed out since.
#[derive(Debug)]
pub struct SceneMetadata {
    pub name: String,
    pub version: String,
    pub created_at: String,
    pub last_modified: String,
    pub next_id: u64,
}

/// A scene document: records in write order, and metadata.
#[derive(Debug)]
pub struct Scene {
    pub entities: Vec<SerializableEntity>,
    pub metadata: SceneMetadata,
}

/// The format version written into every document.
pub open spec fn format_version() -> Seq<char> {
    seq!['1', '.', '0']
}

#[verifier::external_type_specification]
#[verifier::external_body]
pub struct ExSystemTime(std::time::SystemTime);

/// Relies on `std::time::SystemTime::now`: a reading of the system clock.
/// Nothing is assumed of it.
#[verifier::external_body]
fn system_now() -> (t: std::time::SystemTime) {
    std::time::SystemTime::now()
}

/// Relies on `std::time::SystemTime::duration_since`: the time `t` lies after
/// the Unix epoch, as whole seconds and the nanoseconds beyond them; `None`
/// when `t` lies before it. The nanoseconds are below one second.
#[verifier::external_body]
fn since_unix_epoch(t: &std::time::SystemTime) -> (r: Option<(u64, u32)>)
    ensures
        match r {
            Some(d) => d.1 < 1_000_000_000,
            None => true,
        },
{
    match t.duration_since(std::time::UNIX_EPOCH) {
        Ok(d) => Some((d.as_secs(), d.subsec_nanos())),
        Err(_) => None,
    }
}

/// Relies on chrono's `DateTime::<Utc>::from_timestamp`, which gives `None`
/// for an instant out of its range, and `DateTime::to_rfc3339`: the instant
/// `secs` seconds and `nanos` nanoseconds after the Unix epoch as RFC 3339
/// text. Nothing is assumed of the text.
#[verifier::external_body]
fn rfc3339_at(secs: i64, nanos: u32) -> (r: Option<String>) {
    match chrono::DateTime::<chrono::Utc>::from_timestamp(secs, nanos) {
        Some(d) => Some(d.to_rfc3339()),
        None => None,
    }
}

/// The current UTC time as RFC 3339 text, or empty text when the clock reads
/// before the Unix epoch or beyond what can be written.
pub fn now_stamp() -> (r: String) {
    let t = system_now();
    match since_unix_epoch(&t) {
        Some(d) => if d.0 <= i64::MAX as u64 {
            match rfc3339_at(d.0 as i64, d.1) {
                Some(text) => text,
                None => String::new(),
            }
        } else {
            String::new()
        },
        None => String::new(),
    }
}

/// Why a scene document was refused.
#[derive(Debug, Clone, Copy, PartialEq, Eq, Structural)]
pub enum SceneError {
    /// The document is malformed: a record id repeats, or is not below the
    /// document's id counter.
    DocumentParse,
}

impl SceneMetadata {
    /// A copy equal to `self`.
    pub fn duplicate(&self) -> (r: SceneMetadata)
        ensures
            r == *self,
    {
        SceneMetadata {
            name: self.name.clone(),
            version: self.version.clone(),
            created_at: self.created_at.clone(),
            last_modified: self.last_modified.clone(),
            next_id: self.next_id,
        }
    }
}

impl Scene {
    /// The document for `world`: one record per live role-bearing entity,
    /// in slot order, stamped with `stamp` as both creation and modification
    /// time.
    pub fn from_world(world: &World, name: String, stamp: String, next_id: u64) -> (s: Scene)
        ensures
            s.entities@ == records(world@),
            s.metadata.name == name,
            s.metadata.version@ == format_version(),
            s.metadata.created_at == stamp,
            s.metadata.last_modified == stamp,
            s.metadata.next_id == next_id,
    {
        let version = String::from_str("1.0");
        proof {
            reveal_strlit("1.0");
            assert(version@ =~= format_version());
        }
        Scene {
            entities: world.to_records(),
            metadata: SceneMetadata {
                name,
                version,
                created_at: stamp.clone(),
                last_modified: stamp,
                next_id,
            },
        }
    }

    /// The document for `world`, stamped with the current time.
    pub fn capture(world: &World, name: String, next_id: u64) -> (s: Scene)
        ensures
            s.entities@ == records(world@),
            s.metadata.name == name,
            s.metadata.version@ == format_version(),
            s.metadata.created_at == s.metadata.last_modified,
            s.metadata.next_id == next_id,
    {
        Scene::from_world(world, name, now_stamp(), next_id)
    }

    /// Whether the record ids are distinct and below the id counter.
    pub fn ids_valid(&self) -> (ok: bool)
        ensures
            ok == doc_ids_ok(self.entities@, self.metadata.next_id),
    {
        let rs = &self.entities;
        let n = self.metadata.next_id;
        let mut i: usize = 0;
        while i < rs.len()
            invariant
                i <= rs@.len(),
                rs@ == self.entities@,
                n == self.metadata.next_id,
                forall|a: int| 0 <= a < i ==> (#[trigger] rs@[a]).id < n,
                forall|a: int, b: int| 0 <= a < i && 0 <= b < rs@.len() && a != b ==> (#[trigger] rs@[a]).id != (#[trigger] rs@[b]).id,
            decreases rs@.len() - i,
        {
            if rs[i].id >= n {
                assert(!((rs@[i as int]).id < n));
                assert(!doc_ids_ok(self.entities@, self.metadata.next_id));
                return false;
            }
            let mut j: usize = 0;
            while j < rs.len()
                invariant
                    i < rs@.len(),
                    j <= rs@.len(),
                    rs@ == self.entities@,
                    n == self.metadata.next_id,
                    forall|b: int| 0 <= b < j && b != i ==> rs@[i as int].id != (#[trigger] rs@[b]).id,
                decreases rs@.len() - j,
            {
                if j != i && rs[j].id == rs[i].id {
                    assert(rs@[i as int].id == rs@[j as int].id);
                    assert(!doc_ids_ok(self.entities@, self.metadata.next_id));
                    return false;
                }
                j = j + 1;
            }
            i = i + 1;
        }
        true
    }

    /// A copy holding the same records and metadata.
    pub fn duplicate(&self) -> (r: Scene)
        ensures
            r.entities@ == self.entities@,
            r.metadata == self.metadata,
    {
        let mut v: Vec<SerializableEntity> = Vec::new();
        let mut i: usize = 0;
        while i < self.entities.len()
            invariant
                i <= self.entities@.len(),
                v@ == self.entities@.subrange(0, i as int),
            decreases self.entities@.len() - i,
        {
            v.push(self.entities[i].duplicate());
            proof {
                assert(v@ =~= self.entities@.subrange(0, i + 1));
            }
            i = i + 1;
        }
        assert(v@ =~= self.entities@);
        Scene { entities: v, metadata: self.metadata.duplicate() }
    }
}

} // verus!
