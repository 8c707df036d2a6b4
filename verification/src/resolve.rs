//! The reference-resolution protocol.
//!
//! A typed payload may embed references to other records. A [`Resolvable`]
//! payload can list the identifiers it references, replace them with loaded
//! records fetched through a [`Resolver`] (hydration), and reverse that
//! replacement, handing the loaded records back and restoring plain
//! identifier references (extraction). The record model defines only the
//! shape of this collaboration; what store the resolver reads from is the
//! caller's business.

use vstd::prelude::*;

use crate::record::{TypedRecord, TypedValue, UntypedRecord};

verus! {

/// A reference held inside a typed payload: either the plain identifier of
/// another record, or that record itself once it has been resolved.
#[derive(Debug, Clone, PartialEq)]
pub enum Reference {
    /// A not-yet-resolved identifier.
    Id(String),
    /// A resolved record.
    Resolved(UntypedRecord),
}

impl Reference {
    /// The identifier this reference points at: the id itself while
    /// pending, the record's id once resolved.
    pub open spec fn spec_id(self) -> Seq<char> {
        match self {
            Reference::Id(s) => s@,
            Reference::Resolved(r) => r@.meta.id,
        }
    }
}

/// The identifiers of the not-yet-resolved references, in order.
pub open spec fn pending_ids(refs: Seq<Reference>) -> Seq<Seq<char>>
    decreases refs.len(),
{
    if refs.len() == 0 {
        Seq::empty()
    } else {
        pending_ids(refs.drop_last()) + (if refs.last() is Id {
            seq![refs.last().spec_id()]
        } else {
            Seq::empty()
        })
    }
}

/// The resolved records, in order.
pub open spec fn loaded_records(refs: Seq<Reference>) -> Seq<UntypedRecord>
    decreases refs.len(),
{
    if refs.len() == 0 {
        Seq::empty()
    } else {
        loaded_records(refs.drop_last()) + (match refs.last() {
            Reference::Resolved(r) => seq![r],
            Reference::Id(_) => Seq::empty(),
        })
    }
}

/// The resolved records among the first `n` references, in order.
pub open spec fn loaded_records_prefix(refs: Seq<Reference>, n: int) -> Seq<UntypedRecord> {
    loaded_records(refs.take(n))
}

/// The error of a failed resolution: every identifier that could not be
/// resolved, never only the first one.
#[derive(Debug, Clone, PartialEq)]
pub struct MissingRefsError {
    /// The unresolved identifiers, in reference order.
    pub missing: Vec<String>,
}

/// The capability of a storage layer to load a record by identifier.
///
/// A lookup may read from disk or from the network; the record model
/// assumes nothing about its outcome, so an absent record and a failed
/// load both come back as `None`.
pub trait Resolver {
    /// Load the record with the given identifier, or report it absent.
    fn lookup(&self, id: &str) -> Option<UntypedRecord>;
}

/// The capability of a payload type to have its embedded references
/// hydrated into records and stripped back to identifiers.
pub trait Resolvable: TypedValue {
    /// The references embedded in this value, in order.
    spec fn refs(&self) -> Seq<Reference>;

    /// Replace every pending reference with the record the resolver returns
    /// for its identifier. References the resolver cannot supply stay
    /// pending and are all reported together in the error.
    fn resolve_refs<R: Resolver>(&mut self, resolver: &R) -> (r: Result<(), MissingRefsError>)
        ensures
            final(self).refs().len() == old(self).refs().len(),
            forall|i: int|
                0 <= i < old(self).refs().len() ==> (final(self).refs()[i]
                    == old(self).refs()[i] || (old(self).refs()[i] is Id && final(self).refs()[i]
                    is Resolved)),
            (r matches Ok(()) ==> pending_ids(final(self).refs()) == Seq::<Seq<char>>::empty()),
            (r matches Err(e) ==> e.missing@.map_values(|s: String| s@) == pending_ids(
                final(self).refs(),
            ) && e.missing@.len() > 0),
    ;

    /// Remove every resolved record, restoring a plain identifier reference
    /// in its place, and hand the removed records back in order.
    fn extract_refs(&mut self) -> (r: Vec<UntypedRecord>)
        ensures
            r@ == loaded_records(old(self).refs()),
            final(self).refs().len() == old(self).refs().len(),
            forall|i: int|
                0 <= i < old(self).refs().len() ==> (final(self).refs()[i] is Id && final(self).refs()[i].spec_id() == old(self).refs()[i].spec_id()),
    ;
}

impl<T: Resolvable> TypedRecord<T> {
    /// Resolve all references within this record into loaded records: a
    /// thin delegation to the payload's own resolution capability. The
    /// envelope is untouched.
    pub fn resolve_refs<R: Resolver>(&mut self, resolver: &R) -> (r: Result<
        (),
        MissingRefsError,
    >)
        ensures
            final(self).meta == old(self).meta,
            final(self).value.refs().len() == old(self).value.refs().len(),
            forall|i: int|
                0 <= i < old(self).value.refs().len() ==> (final(self).value.refs()[i]
                    == old(self).value.refs()[i] || (old(self).value.refs()[i] is Id && final(self).value.refs()[i] is Resolved)),
            (r matches Ok(()) ==> pending_ids(final(self).value.refs())
                == Seq::<Seq<char>>::empty()),
            (r matches Err(e) ==> e.missing@.map_values(|s: String| s@) == pending_ids(
                final(self).value.refs(),
            ) && e.missing@.len() > 0),
    {
        self.value.resolve_refs(resolver)
    }

    /// Extract all loaded referenced records from within the record,
    /// converting the references back to identifiers. The envelope is
    /// untouched.
    pub fn extract_refs(&mut self) -> (r: Vec<UntypedRecord>)
        ensures
            final(self).meta == old(self).meta,
            r@ == loaded_records(old(self).value.refs()),
            final(self).value.refs().len() == old(self).value.refs().len(),
            forall|i: int|
                0 <= i < old(self).value.refs().len() ==> (final(self).value.refs()[i] is Id
                    && final(self).value.refs()[i].spec_id()
                    == old(self).value.refs()[i].spec_id()),
    {
        self.value.extract_refs()
    }
}

/// Law: once every reference is a plain identifier — as extraction leaves
/// them — there are no loaded records left, so extracting a second time
/// returns the empty sequence.
pub proof fn lemma_extract_twice_empty(refs: Seq<Reference>)
    requires
        forall|i: int| 0 <= i < refs.len() ==> refs[i] is Id,
    ensures
        loaded_records(refs) == Seq::<UntypedRecord>::empty(),
    decreases refs.len(),
{
    if refs.len() == 0 {
        assert(loaded_records(refs) =~= Seq::<UntypedRecord>::empty());
    } else {
        lemma_extract_twice_empty(refs.drop_last());
        assert(loaded_records(refs) =~= Seq::<UntypedRecord>::empty());
    }
}

/// Law: after a successful resolution no identifier is pending, so every
/// reference holds a loaded record and a following extraction returns
/// exactly one record per reference — exactly the hydrated sub-records.
pub proof fn lemma_resolution_completeness(refs: Seq<Reference>)
    requires
        pending_ids(refs) == Seq::<Seq<char>>::empty(),
    ensures
        forall|i: int| 0 <= i < refs.len() ==> refs[i] is Resolved,
        loaded_records(refs).len() == refs.len(),
    decreases refs.len(),
{
    if refs.len() == 0 {
    } else {
        assert(pending_ids(refs.drop_last()) =~= Seq::<Seq<char>>::empty()) by {
            if pending_ids(refs.drop_last()).len() > 0 {
                assert(pending_ids(refs).len() > 0);
            }
        }
        lemma_resolution_completeness(refs.drop_last());
        assert(refs.last() is Resolved) by {
            if refs.last() is Id {
                assert(pending_ids(refs).len() > 0);
            }
        }
        assert(forall|i: int|
            0 <= i < refs.len() ==> refs[i] == (if i < refs.len() - 1 {
                refs.drop_last()[i]
            } else {
                refs.last()
            }));
    }
}

} // verus!
