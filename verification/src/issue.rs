//! The Issue record and its curated index of Associated Resources.

use vstd::prelude::*;

use crate::domain::{
    Dependency, IssueId, IssueKind, IssueStatus, Note, NoteContent, Timestamp, issue_fields_error,
    opt_as_str, opt_string_view, strings_view, validate_text_fields, validate_title_and_priority,
};
use crate::resource::{
    AssociatedResource, NewResource, ResourceError, ResourceErrorView, ResourceId, ResourceRole,
    ResourceTarget, ResourceUpdate, ResourceView, TargetView, ResourceLabel, opt_label_view,
};
use crate::text::{
    chars_of, decimal, lemma_decimal_injective, lemma_parse_decimal, parse_u64_from,
    parse_u64_spec, push_decimal, string_of,
};

verus! {

// ---------------------------------------------------------------------------
// Resource identifier numbers
// ---------------------------------------------------------------------------

/// The sequence number of an identifier of the form `r<u64>`, as the
/// persistence boundary reads it back (`strip_prefix('r')` then
/// `u64::from_str`).
pub open spec fn resource_id_number(id: Seq<char>) -> Option<nat> {
    if id.len() > 0 && id[0] == 'r' {
        parse_u64_spec(id.drop_first())
    } else {
        None
    }
}

/// The identifier the index assigns for sequence number `n`: `r<n>`.
pub open spec fn assigned_id(n: nat) -> Seq<char> {
    seq!['r'] + decimal(n)
}

pub proof fn lemma_assigned_id_number(n: nat)
    requires
        n <= u64::MAX,
    ensures
        resource_id_number(assigned_id(n)) == Some(n),
{
    lemma_parse_decimal(n);
    assert(assigned_id(n).drop_first() =~= decimal(n));
}

/// Identifiers assigned for different sequence numbers differ.
pub proof fn lemma_assigned_ids_distinct(a: nat, b: nat)
    requires
        a != b,
    ensures
        assigned_id(a) != assigned_id(b),
{
    if assigned_id(a) == assigned_id(b) {
        assert(assigned_id(a).drop_first() =~= decimal(a));
        assert(assigned_id(b).drop_first() =~= decimal(b));
        lemma_decimal_injective(a, b);
    }
}

fn resource_number(id: &ResourceId) -> (r: Option<u64>)
    ensures
        match r {
            Some(x) => resource_id_number(id@) == Some(x as nat),
            None => resource_id_number(id@) is None,
        },
{
    let v = chars_of(id.as_str());
    if v.len() == 0 || v[0] != 'r' {
        return None;
    }
    assert(v@.subrange(1, v@.len() as int) =~= v@.drop_first());
    parse_u64_from(&v, 1)
}

// ---------------------------------------------------------------------------
// Index invariants
// ---------------------------------------------------------------------------

/// The invariants of a resource index: identifiers are unique, no two
/// resources share both target and role, every `r<k>` identifier has
/// `k < next`, and `next >= 1`.
pub open spec fn index_wf(rs: Seq<ResourceView>, next: u64) -> bool {
    &&& next >= 1
    &&& forall|i: int, j: int| 0 <= i < j < rs.len() ==> #[trigger] rs[i].id != #[trigger] rs[j].id
    &&& forall|i: int, j: int|
        0 <= i < j < rs.len() ==> !(#[trigger] rs[i].target == #[trigger] rs[j].target
            && rs[i].role == rs[j].role)
    &&& forall|i: int|
        0 <= i < rs.len() ==> (#[trigger] resource_id_number(rs[i].id) matches Some(k) ==> k
            < next)
}

/// Whether some resource has this target and role.
pub open spec fn has_target_role(rs: Seq<ResourceView>, target: TargetView, role: ResourceRole) -> bool {
    exists|i: int| 0 <= i < rs.len() && #[trigger] rs[i].target == target && rs[i].role == role
}

/// Some resource other than the one at `k` has this target and role.
pub open spec fn held_by_other(rs: Seq<ResourceView>, k: int, target: TargetView, role: ResourceRole) -> bool {
    exists|j: int| 0 <= j < rs.len() && j != k && #[trigger] rs[j].target == target && rs[j].role == role
}

/// The position of the resource with this identifier, if any.
pub open spec fn has_id(rs: Seq<ResourceView>, id: Seq<char>) -> bool {
    exists|i: int| 0 <= i < rs.len() && #[trigger] rs[i].id == id
}

/// The error, if any, that position `j` raises when rehydrating.
pub open spec fn dup_error_at(rs: Seq<ResourceView>, j: int) -> Option<ResourceErrorView> {
    if exists|i: int| 0 <= i < j && #[trigger] rs[i].id == rs[j].id {
        Some(ResourceErrorView::DuplicateResourceId { id: rs[j].id })
    } else if exists|i: int|
        0 <= i < j && #[trigger] rs[i].target == rs[j].target && rs[i].role == rs[j].role {
        Some(ResourceErrorView::DuplicateTargetRole { target: rs[j].target, role: rs[j].role })
    } else {
        None
    }
}

/// The first duplicate found scanning positions `from..`.
pub open spec fn first_dup_error(rs: Seq<ResourceView>, from: nat) -> Option<ResourceErrorView>
    decreases rs.len() - from,
{
    if from >= rs.len() {
        None
    } else if dup_error_at(rs, from as int) is Some {
        dup_error_at(rs, from as int)
    } else {
        first_dup_error(rs, from + 1)
    }
}

/// The largest `r<k>` sequence number present, if any.
pub open spec fn max_id_number(rs: Seq<ResourceView>) -> Option<nat>
    decreases rs.len(),
{
    if rs.len() == 0 {
        None
    } else {
        let m = max_id_number(rs.drop_last());
        match resource_id_number(rs.last().id) {
            None => m,
            Some(k) => match m {
                None => Some(k),
                Some(x) => Some(if x >= k { x } else { k }),
            },
        }
    }
}

/// The next identifier number after rehydrating `rs` with a persisted
/// `next`, or the error that rejects the index.
pub open spec fn rehydrate_outcome(rs: Seq<ResourceView>, next: u64) -> Result<
    u64,
    ResourceErrorView,
> {
    if first_dup_error(rs, 0) is Some {
        Err(first_dup_error(rs, 0)->0)
    } else {
        match max_id_number(rs) {
            None => Ok(if next >= 1 { next } else { 1 }),
            Some(m) => if m >= u64::MAX {
                Err(ResourceErrorView::IdSequenceExhausted)
            } else {
                let a: int = if next >= m + 1 { next as int } else { (m + 1) as int };
                Ok(a as u64)
            },
        }
    }
}

proof fn lemma_max_id_number_bound(rs: Seq<ResourceView>)
    ensures
        forall|i: int|
            0 <= i < rs.len() ==> (#[trigger] resource_id_number(rs[i].id) matches Some(k) ==> (
            max_id_number(rs) matches Some(m) && k <= m)),
        max_id_number(rs) matches Some(m) ==> m <= u64::MAX,
    decreases rs.len(),
{
    if rs.len() > 0 {
        lemma_max_id_number_bound(rs.drop_last());
        assert forall|i: int|
            0 <= i < rs.len() implies (#[trigger] resource_id_number(rs[i].id) matches Some(k) ==> (
            max_id_number(rs) matches Some(m) && k <= m)) by {
            if i < rs.len() - 1 {
                assert(rs[i] == rs.drop_last()[i]);
            }
        }
        let last = rs.last();
        if let Some(k) = resource_id_number(last.id) {
            assert(last.id.len() > 0);
        }
    }
}

proof fn lemma_first_dup_none(rs: Seq<ResourceView>)
    requires
        first_dup_error(rs, 0) is None,
    ensures
        forall|i: int, j: int| 0 <= i < j < rs.len() ==> #[trigger] rs[i].id != #[trigger] rs[j].id,
        forall|i: int, j: int|
            0 <= i < j < rs.len() ==> !(#[trigger] rs[i].target == #[trigger] rs[j].target
                && rs[i].role == rs[j].role),
{
    assert forall|j: int| 0 <= j < rs.len() implies dup_error_at(rs, j) is None by {
        lemma_first_dup_none_at(rs, 0, j);
    }
    assert forall|i: int, j: int| 0 <= i < j < rs.len() implies #[trigger] rs[i].id
        != #[trigger] rs[j].id by {
        assert(dup_error_at(rs, j) is None);
    }
    assert forall|i: int, j: int| 0 <= i < j < rs.len() implies !(#[trigger] rs[i].target
        == #[trigger] rs[j].target && rs[i].role == rs[j].role) by {
        assert(dup_error_at(rs, j) is None);
    }
}

proof fn lemma_first_dup_none_at(rs: Seq<ResourceView>, from: nat, j: int)
    requires
        first_dup_error(rs, from) is None,
        from <= j < rs.len(),
    ensures
        dup_error_at(rs, j) is None,
    decreases rs.len() - from,
{
    if from < j {
        lemma_first_dup_none_at(rs, from + 1, j);
    }
}

// ---------------------------------------------------------------------------
// The index
// ---------------------------------------------------------------------------

/// An ordered, curated Associated Resource index with a monotonic
/// identifier sequence.
#[derive(Debug)]
pub struct ResourceIndex {
    resources: Vec<AssociatedResource>,
    next_resource_id: u64,
}

pub open spec fn views(rs: Seq<AssociatedResource>) -> Seq<ResourceView> {
    rs.map_values(|r: AssociatedResource| r@)
}

impl ResourceIndex {
    #[verifier::type_invariant]
    closed spec fn inv(self) -> bool {
        index_wf(views(self.resources@), self.next_resource_id)
    }

    /// The resources, in insertion order.
    pub closed spec fn spec_resources(&self) -> Seq<ResourceView> {
        views(self.resources@)
    }

    /// The next identifier number to assign.
    pub closed spec fn spec_next(&self) -> u64 {
        self.next_resource_id
    }

    /// An empty index whose first identifier will be `r1`.
    pub fn new() -> (r: ResourceIndex)
        ensures
            r.spec_resources().len() == 0,
            r.spec_next() == 1,
    {
        let r = ResourceIndex { resources: Vec::new(), next_resource_id: 1 };
        assert(views(r.resources@) =~= Seq::<ResourceView>::empty());
        r
    }

    /// The resources, in insertion order.
    pub fn resources(&self) -> (r: &[AssociatedResource])
        ensures
            views(r@) == self.spec_resources(),
            index_wf(self.spec_resources(), self.spec_next()),
    {
        proof {
            use_type_invariant(self);
        }
        self.resources.as_slice()
    }

    /// The next identifier number to assign.
    pub fn next_resource_id(&self) -> (r: u64)
        ensures
            r == self.spec_next(),
    {
        self.next_resource_id
    }

    fn position_of(&self, id: &ResourceId) -> (r: Option<usize>)
        ensures
            match r {
                Some(i) => i < self.spec_resources().len() && self.spec_resources()[i as int].id
                    == id@,
                None => !has_id(self.spec_resources(), id@),
            },
    {
        let mut i: usize = 0;
        while i < self.resources.len()
            invariant
                i <= self.resources.len(),
                forall|j: int| 0 <= j < i ==> #[trigger] views(self.resources@)[j].id != id@,
            decreases self.resources.len() - i,
        {
            if self.resources[i].id().same_as(id) {
                return Some(i);
            }
            i += 1;
        }
        None
    }

    fn find_target_role(&self, target: &ResourceTarget, role: ResourceRole, skip: Option<usize>) -> (r: bool)
        ensures
            r == exists|i: int|
                0 <= i < self.spec_resources().len() && (skip is None || i != skip->0)
                    && #[trigger] self.spec_resources()[i].target == target@
                    && self.spec_resources()[i].role == role,
    {
        let ghost rs = views(self.resources@);
        let mut i: usize = 0;
        while i < self.resources.len()
            invariant
                i <= self.resources.len(),
                rs == views(self.resources@),
                forall|j: int|
                    0 <= j < i ==> !((skip is None || j != skip->0) && #[trigger] rs[j].target
                        == target@ && rs[j].role == role),
            decreases self.resources.len() - i,
        {
            let skipped = match skip {
                Some(s) => s == i,
                None => false,
            };
            if !skipped && self.resources[i].target().same_as(target) && self.resources[i].role()
                == role {
                assert(rs[i as int].target == target@ && rs[i as int].role == role);
                return true;
            }
            i += 1;
        }
        false
    }

    /// Associate a new resource, assigning identifier `r<next>`.
    pub fn add(&mut self, new: NewResource) -> (r: Result<ResourceId, ResourceError>)
        ensures
            match r {
                Ok(id) => {
                    &&& !has_target_role(old(self).spec_resources(), new.target@, new.role)
                    &&& old(self).spec_next() < u64::MAX
                    &&& id@ == assigned_id(old(self).spec_next() as nat)
                    &&& !has_id(old(self).spec_resources(), id@)
                    &&& final(self).spec_resources() == old(self).spec_resources().push(
                        ResourceView {
                            id: id@,
                            target: new.target@,
                            role: new.role,
                            label: opt_label_view(new.label),
                        },
                    )
                    &&& final(self).spec_next() == old(self).spec_next() + 1
                },
                Err(e) => {
                    &&& final(self).spec_resources() == old(self).spec_resources()
                    &&& final(self).spec_next() == old(self).spec_next()
                    &&& if has_target_role(old(self).spec_resources(), new.target@, new.role) {
                        e@ == ResourceErrorView::DuplicateTargetRole {
                            target: new.target@,
                            role: new.role,
                        }
                    } else {
                        old(self).spec_next() == u64::MAX && e@
                            == ResourceErrorView::IdSequenceExhausted
                    }
                },
            },
    {
        proof {
            use_type_invariant(&*self);
        }
        if self.find_target_role(&new.target, new.role, None) {
            return Err(ResourceError::DuplicateTargetRole { target: new.target, role: new.role });
        }
        if self.next_resource_id == u64::MAX {
            return Err(ResourceError::IdSequenceExhausted);
        }
        let n = self.next_resource_id;
        let mut text: Vec<char> = Vec::new();
        text.push('r');
        push_decimal(&mut text, n);
        let id_str = string_of(&text);
        proof {
            assert(text@ =~= assigned_id(n as nat));
            crate::text::lemma_decimal_digits(n as nat);
        }
        let id = match ResourceId::new(id_str.as_str()) {
            Ok(id) => id,
            Err(e) => {
                proof {
                    lemma_assigned_id_valid(n as nat);
                }
                return Err(e);
            },
        };
        let ghost old_rs = views(self.resources@);
        proof {
            lemma_assigned_id_number(n as nat);
            assert forall|i: int| 0 <= i < old_rs.len() implies old_rs[i].id != id@ by {
                if old_rs[i].id == id@ {
                    assert(resource_id_number(old_rs[i].id) == Some(n as nat));
                }
            }
        }
        let resource = AssociatedResource::from_parts(id.clone(), new.target, new.role, new.label);
        let mut resources = Vec::new();
        core::mem::swap(&mut resources, &mut self.resources);
        resources.push(resource);
        let ghost new_rs = views(resources@);
        proof {
            assert(new_rs =~= old_rs.push(resources@.last()@));
            assert(index_wf(new_rs, (n + 1) as u64)) by {
                assert forall|i: int|
                    0 <= i < new_rs.len() implies (#[trigger] resource_id_number(new_rs[i].id) matches Some(
                    k) ==> k < n + 1) by {
                    if i < old_rs.len() {
                        assert(new_rs[i] == old_rs[i]);
                    }
                }
                assert forall|i: int, j: int| 0 <= i < j < new_rs.len() implies #[trigger] new_rs[i].id
                    != #[trigger] new_rs[j].id by {
                    if j == old_rs.len() {
                        assert(new_rs[i] == old_rs[i]);
                    } else {
                        assert(new_rs[i] == old_rs[i]);
                        assert(new_rs[j] == old_rs[j]);
                    }
                }
                assert forall|i: int, j: int| 0 <= i < j < new_rs.len() implies !(
                #[trigger] new_rs[i].target == #[trigger] new_rs[j].target && new_rs[i].role
                    == new_rs[j].role) by {
                    if j == old_rs.len() {
                        assert(new_rs[i] == old_rs[i]);
                    } else {
                        assert(new_rs[i] == old_rs[i]);
                        assert(new_rs[j] == old_rs[j]);
                    }
                }
            }
        }
        *self = ResourceIndex { resources, next_resource_id: n + 1 };
        Ok(id)
    }

    /// Update a resource in place; it keeps its identifier and position.
    pub fn update(&mut self, id: &ResourceId, update: ResourceUpdate) -> (r: Result<
        (),
        ResourceError,
    >)
        ensures
            final(self).spec_next() == old(self).spec_next(),
            match r {
                Ok(()) => exists|k: int|
                    {
                        &&& 0 <= k < old(self).spec_resources().len()
                        &&& #[trigger] old(self).spec_resources()[k].id == id@
                        &&& !held_by_other(
                            old(self).spec_resources(),
                            k,
                            updated_view(old(self).spec_resources()[k], update_view(update)).target,
                            updated_view(old(self).spec_resources()[k], update_view(update)).role,
                        )
                        &&& final(self).spec_resources() == old(self).spec_resources().update(
                            k,
                            updated_view(old(self).spec_resources()[k], update_view(update)),
                        )
                    },
                Err(e) => final(self).spec_resources() == old(self).spec_resources() && if update.target is None
                    && update.role is None && update.label is None {
                    e@ == ResourceErrorView::EmptyUpdate
                } else if !has_id(old(self).spec_resources(), id@) {
                    e@ == ResourceErrorView::ResourceNotFound { id: id@ }
                } else {
                    exists|k: int|
                        {
                            &&& 0 <= k < old(self).spec_resources().len()
                            &&& #[trigger] old(self).spec_resources()[k].id == id@
                            &&& held_by_other(
                                old(self).spec_resources(),
                                k,
                                updated_view(old(self).spec_resources()[k], update_view(update)).target,
                                updated_view(old(self).spec_resources()[k], update_view(update)).role,
                            )
                            &&& e@ == ResourceErrorView::DuplicateTargetRole {
                                target: updated_view(
                                    old(self).spec_resources()[k],
                                    update_view(update),
                                ).target,
                                role: updated_view(
                                    old(self).spec_resources()[k],
                                    update_view(update),
                                ).role,
                            }
                        }
                },
            },
    {
        proof {
            use_type_invariant(&*self);
        }
        if update.target.is_none() && update.role.is_none() && update.label.is_none() {
            return Err(ResourceError::EmptyUpdate);
        }
        let index = match self.position_of(id) {
            Some(i) => i,
            None => {
                return Err(ResourceError::ResourceNotFound { id: id.clone() });
            },
        };
        let ghost uv = update_view(update);
        let ghost old_rs = views(self.resources@);
        let ResourceUpdate { target, role, label } = update;
        let current = &self.resources[index];
        let target = match target {
            Some(t) => t,
            None => current.target().clone(),
        };
        let role = match role {
            Some(r) => r,
            None => current.role(),
        };
        let label = match label {
            Some(l) => l,
            None => match current.label() {
                Some(l) => Some(l.clone()),
                None => None,
            },
        };
        let ghost nv = ResourceView {
            id: id@,
            target: target@,
            role: role,
            label: opt_label_view(label),
        };
        assert(nv == updated_view(old_rs[index as int], uv));
        if self.find_target_role(&target, role, Some(index)) {
            return Err(ResourceError::DuplicateTargetRole { target, role });
        }
        let resource = AssociatedResource::from_parts(id.clone(), target, role, label);
        let mut resources = Vec::new();
        core::mem::swap(&mut resources, &mut self.resources);
        resources.set(index, resource);
        let ghost new_rs = views(resources@);
        proof {
            assert(new_rs =~= old_rs.update(index as int, nv));
            assert forall|i: int, j: int| 0 <= i < j < new_rs.len() implies #[trigger] new_rs[i].id
                != #[trigger] new_rs[j].id by {
                assert(old_rs[i].id != old_rs[j].id);
            }
            assert forall|i: int, j: int| 0 <= i < j < new_rs.len() implies !(
            #[trigger] new_rs[i].target == #[trigger] new_rs[j].target && new_rs[i].role
                == new_rs[j].role) by {
                if i == index {
                    assert(new_rs[j] == old_rs[j]);
                } else if j == index {
                    assert(new_rs[i] == old_rs[i]);
                } else {
                    assert(old_rs[i] == new_rs[i]);
                }
            }
            assert forall|i: int|
                0 <= i < new_rs.len() implies (#[trigger] resource_id_number(new_rs[i].id) matches Some(
                k) ==> k < self.next_resource_id) by {
                assert(new_rs[i].id == old_rs[i].id);
            }
        }
        *self = ResourceIndex { resources, next_resource_id: self.next_resource_id };
        Ok(())
    }

    /// Remove a resource; the others keep their identifiers and order, and
    /// the identifier sequence is untouched.
    pub fn remove(&mut self, id: &ResourceId) -> (r: Result<(), ResourceError>)
        ensures
            final(self).spec_next() == old(self).spec_next(),
            match r {
                Ok(()) => exists|k: int|
                    {
                        &&& 0 <= k < old(self).spec_resources().len()
                        &&& #[trigger] old(self).spec_resources()[k].id == id@
                        &&& final(self).spec_resources() == old(self).spec_resources().remove(k)
                    },
                Err(e) => final(self).spec_resources() == old(self).spec_resources() && !has_id(
                    old(self).spec_resources(),
                    id@,
                ) && e@ == ResourceErrorView::ResourceNotFound { id: id@ },
            },
    {
        proof {
            use_type_invariant(&*self);
        }
        let index = match self.position_of(id) {
            Some(i) => i,
            None => {
                return Err(ResourceError::ResourceNotFound { id: id.clone() });
            },
        };
        let ghost old_rs = views(self.resources@);
        let mut resources = Vec::new();
        core::mem::swap(&mut resources, &mut self.resources);
        resources.remove(index);
        let ghost new_rs = views(resources@);
        proof {
            assert(new_rs =~= old_rs.remove(index as int));
            assert forall|i: int, j: int| 0 <= i < j < new_rs.len() implies #[trigger] new_rs[i].id
                != #[trigger] new_rs[j].id by {
                let a = if i < index { i } else { i + 1 };
                let b = if j < index { j } else { j + 1 };
                assert(new_rs[i] == old_rs[a]);
                assert(new_rs[j] == old_rs[b]);
            }
            assert forall|i: int, j: int| 0 <= i < j < new_rs.len() implies !(
            #[trigger] new_rs[i].target == #[trigger] new_rs[j].target && new_rs[i].role
                == new_rs[j].role) by {
                let a = if i < index { i } else { i + 1 };
                let b = if j < index { j } else { j + 1 };
                assert(new_rs[i] == old_rs[a]);
                assert(new_rs[j] == old_rs[b]);
            }
            assert forall|i: int|
                0 <= i < new_rs.len() implies (#[trigger] resource_id_number(new_rs[i].id) matches Some(
                k) ==> k < self.next_resource_id) by {
                let a = if i < index { i } else { i + 1 };
                assert(new_rs[i] == old_rs[a]);
            }
        }
        *self = ResourceIndex { resources, next_resource_id: self.next_resource_id };
        Ok(())
    }

    /// Rebuild an index from persisted resources, restoring its invariants.
    ///
    /// Rejects duplicate identifiers and duplicate target-and-role pairs
    /// (the first offending position wins, identifiers checked first), and
    /// raises the identifier sequence past every `r<k>` identifier present.
    pub fn rehydrate(resources: Vec<AssociatedResource>, next_resource_id: u64) -> (r: Result<
        ResourceIndex,
        ResourceError,
    >)
        ensures
            match r {
                Ok(idx) => rehydrate_outcome(views(resources@), next_resource_id) == Ok::<
                    u64,
                    ResourceErrorView,
                >(idx.spec_next()) && idx.spec_resources() == views(resources@),
                Err(e) => rehydrate_outcome(views(resources@), next_resource_id) == Err::<
                    u64,
                    ResourceErrorView,
                >(e@),
            },
    {
        let ghost rs = views(resources@);
        let mut j: usize = 0;
        while j < resources.len()
            invariant
                j <= resources.len(),
                rs == views(resources@),
                first_dup_error(rs, 0) == first_dup_error(rs, j as nat),
            decreases resources.len() - j,
        {
            let mut i: usize = 0;
            while i < j
                invariant
                    i <= j < resources.len(),
                    rs == views(resources@),
                    first_dup_error(rs, 0) == first_dup_error(rs, j as nat),
                    forall|k: int| 0 <= k < i ==> #[trigger] rs[k].id != rs[j as int].id,
                decreases j - i,
            {
                if resources[i].id().same_as(resources[j].id()) {
                    assert(rs[i as int].id == rs[j as int].id);
                    assert(dup_error_at(rs, j as int) == Some(
                        ResourceErrorView::DuplicateResourceId { id: rs[j as int].id },
                    ));
                    return Err(ResourceError::DuplicateResourceId { id: resources[j].id().clone() });
                }
                i += 1;
            }
            let mut i: usize = 0;
            while i < j
                invariant
                    i <= j < resources.len(),
                    rs == views(resources@),
                    first_dup_error(rs, 0) == first_dup_error(rs, j as nat),
                    forall|k: int| 0 <= k < j ==> #[trigger] rs[k].id != rs[j as int].id,
                    forall|k: int|
                        0 <= k < i ==> !(#[trigger] rs[k].target == rs[j as int].target
                            && rs[k].role == rs[j as int].role),
                decreases j - i,
            {
                if resources[i].target().same_as(resources[j].target()) && resources[i].role()
                    == resources[j].role() {
                    assert(rs[i as int].target == rs[j as int].target && rs[i as int].role
                        == rs[j as int].role);
                    assert(dup_error_at(rs, j as int) == Some(
                        ResourceErrorView::DuplicateTargetRole {
                            target: rs[j as int].target,
                            role: rs[j as int].role,
                        },
                    ));
                    return Err(
                        ResourceError::DuplicateTargetRole {
                            target: resources[j].target().clone(),
                            role: resources[j].role(),
                        },
                    );
                }
                i += 1;
            }
            assert(dup_error_at(rs, j as int) is None);
            j += 1;
        }
        let mut max: Option<u64> = None;
        let mut k: usize = 0;
        while k < resources.len()
            invariant
                k <= resources.len(),
                rs == views(resources@),
                first_dup_error(rs, 0) is None,
                match max {
                    Some(m) => max_id_number(rs.subrange(0, k as int)) == Some(m as nat),
                    None => max_id_number(rs.subrange(0, k as int)) is None,
                },
            decreases resources.len() - k,
        {
            let number = resource_number(resources[k].id());
            proof {
                let p = rs.subrange(0, k as int + 1);
                assert(p.drop_last() =~= rs.subrange(0, k as int));
                assert(p.last() == rs[k as int]);
            }
            match number {
                Some(x) => {
                    max = match max {
                        None => Some(x),
                        Some(m) => Some(if m >= x { m } else { x }),
                    };
                },
                None => {},
            }
            k += 1;
        }
        assert(rs.subrange(0, resources.len() as int) =~= rs);
        let min_unused = match max {
            Some(m) => {
                if m == u64::MAX {
                    return Err(ResourceError::IdSequenceExhausted);
                }
                m + 1
            },
            None => 1,
        };
        let next = if next_resource_id >= min_unused {
            next_resource_id
        } else {
            min_unused
        };
        proof {
            lemma_first_dup_none(rs);
            lemma_max_id_number_bound(rs);
        }
        Ok(ResourceIndex { resources, next_resource_id: next })
    }
}

proof fn lemma_assigned_id_valid(n: nat)
    ensures
        crate::resource::resource_id_error(assigned_id(n)) is None,
{
    let s = assigned_id(n);
    crate::text::lemma_decimal_digits(n);
    assert(!crate::text::is_ws(s[0]));
    crate::text::lemma_trim_empty_iff_all_ws(s);
    assert forall|i: int| 0 <= i < s.len() implies !crate::text::is_cc(#[trigger] s[i]) by {
        if i > 0 {
            assert(s[i] == decimal(n)[i - 1]);
            assert(crate::text::is_ascii_digit(decimal(n)[i - 1]));
        }
    }
    lemma_first_pos_none_cc(s);
}

proof fn lemma_first_pos_none_cc(s: Seq<char>)
    requires
        forall|i: int| 0 <= i < s.len() ==> !crate::text::is_cc(#[trigger] s[i]),
    ensures
        crate::domain::first_pos(s, crate::text::cc_pred()) is None,
    decreases s.len(),
{
    if s.len() > 0 {
        assert(!crate::text::is_cc(s[0]));
        assert forall|i: int| 0 <= i < s.drop_first().len() implies !crate::text::is_cc(
            #[trigger] s.drop_first()[i],
        ) by {
            assert(s.drop_first()[i] == s[i + 1]);
        }
        lemma_first_pos_none_cc(s.drop_first());
    }
}

/// The abstract value of a [`ResourceUpdate`].
pub struct UpdateView {
    pub target: Option<TargetView>,
    pub role: Option<ResourceRole>,
    pub label: Option<Option<Seq<char>>>,
}

pub open spec fn update_view(u: ResourceUpdate) -> UpdateView {
    UpdateView {
        target: match u.target {
            Some(t) => Some(t@),
            None => None,
        },
        role: u.role,
        label: match u.label {
            Some(l) => Some(opt_label_view(l)),
            None => None,
        },
    }
}

/// A resource after applying an update: every supplied field replaces the
/// current one.
pub open spec fn updated_view(r: ResourceView, u: UpdateView) -> ResourceView {
    ResourceView {
        id: r.id,
        target: match u.target {
            Some(t) => t,
            None => r.target,
        },
        role: match u.role {
            Some(x) => x,
            None => r.role,
        },
        label: match u.label {
            Some(l) => l,
            None => r.label,
        },
    }
}

// ---------------------------------------------------------------------------
// Issues
// ---------------------------------------------------------------------------

/// An issue in the tracking system.
#[derive(Debug)]
pub struct Issue {
    /// Unique identifier for the issue.
    pub id: IssueId,
    /// Issue title.
    pub title: String,
    /// Issue description.
    pub description: String,
    /// Current status.
    pub status: IssueStatus,
    /// Priority level (0 = highest, 4 = lowest).
    pub priority: u8,
    /// Issue kind.
    pub issue_kind: IssueKind,
    /// Assignee (optional).
    pub assignee: Option<String>,
    /// Labels.
    pub labels: Vec<String>,
    /// Design notes (optional).
    pub design: Option<String>,
    /// Acceptance criteria (optional).
    pub acceptance_criteria: Option<String>,
    /// Ordered, append-only Note history.
    pub notes: Vec<Note>,
    /// Ordered, curated Associated Resource index.
    pub resources: ResourceIndex,
    /// Dependencies (issues this issue depends on).
    pub dependencies: Vec<Dependency>,
    /// Creation timestamp.
    pub created_at: Timestamp,
    /// Last update timestamp.
    pub updated_at: Timestamp,
    /// Closed timestamp (optional).
    pub closed_at: Option<Timestamp>,
}

impl Issue {
    /// The resources, in insertion order.
    pub open spec fn spec_resources(&self) -> Seq<ResourceView> {
        self.resources.spec_resources()
    }

    /// The next resource identifier number.
    pub open spec fn spec_next_resource_id(&self) -> u64 {
        self.resources.spec_next()
    }

    /// The Note history.
    pub open spec fn spec_notes(&self) -> Seq<Note> {
        self.notes@
    }

    /// A fresh Issue with no Notes, Resources, labels or dependencies,
    /// created and last updated at `created_at`.
    pub fn new(
        id: IssueId,
        title: String,
        description: String,
        status: IssueStatus,
        priority: u8,
        issue_kind: IssueKind,
        created_at: Timestamp,
    ) -> (r: Issue)
        ensures
            r.id@ == id@,
            r.title@ == title@,
            r.description@ == description@,
            r.status == status,
            r.priority == priority,
            r.issue_kind == issue_kind,
            r.assignee is None,
            r.labels@.len() == 0,
            r.design is None,
            r.acceptance_criteria is None,
            r.spec_notes().len() == 0,
            r.spec_resources().len() == 0,
            r.spec_next_resource_id() == 1,
            r.dependencies@.len() == 0,
            r.created_at == created_at,
            r.updated_at == created_at,
            r.closed_at is None,
    {
        Issue {
            id,
            title,
            description,
            status,
            priority,
            issue_kind,
            assignee: None,
            labels: Vec::new(),
            design: None,
            acceptance_criteria: None,
            notes: Vec::new(),
            resources: ResourceIndex::new(),
            dependencies: Vec::new(),
            created_at,
            updated_at: created_at,
            closed_at: None,
        }
    }

    /// Notes in chronological insertion order.
    pub fn notes(&self) -> (r: &[Note])
        ensures
            r@ == self.spec_notes(),
    {
        self.notes.as_slice()
    }

    /// Append a Note; earlier Notes are untouched.
    pub fn append_note(&mut self, content: NoteContent, created_at: Timestamp)
        ensures
            final(self).spec_notes().len() == old(self).spec_notes().len() + 1,
            final(self).spec_notes().drop_last() == old(self).spec_notes(),
            final(self).spec_notes().last().spec_content() == content@,
            final(self).spec_notes().last().spec_created_at() == created_at,
            final(self).spec_resources() == old(self).spec_resources(),
            final(self).spec_next_resource_id() == old(self).spec_next_resource_id(),
    {
        let note = Note::from_parts(content, created_at);
        self.notes.push(note);
        assert(self.notes@.drop_last() =~= old(self).notes@);
    }

    /// Associated Resources in insertion order.
    pub fn resources(&self) -> (r: &[AssociatedResource])
        ensures
            views(r@) == self.spec_resources(),
            index_wf(self.spec_resources(), self.spec_next_resource_id()),
    {
        self.resources.resources()
    }

    /// Replace the resource index with persisted resources, restoring its
    /// invariants; on error the Issue is unchanged.
    pub fn rehydrate_resources(
        &mut self,
        resources: Vec<AssociatedResource>,
        next_resource_id: u64,
    ) -> (r: Result<(), ResourceError>)
        ensures
            match r {
                Ok(()) => rehydrate_outcome(views(resources@), next_resource_id) == Ok::<
                    u64,
                    ResourceErrorView,
                >(final(self).spec_next_resource_id()) && final(self).spec_resources() == views(
                    resources@,
                ),
                Err(e) => rehydrate_outcome(views(resources@), next_resource_id) == Err::<
                    u64,
                    ResourceErrorView,
                >(e@) && final(self).spec_resources() == old(self).spec_resources()
                    && final(self).spec_next_resource_id() == old(self).spec_next_resource_id(),
            },
            final(self).spec_notes() == old(self).spec_notes(),
    {
        let index = ResourceIndex::rehydrate(resources, next_resource_id)?;
        self.resources = index;
        Ok(())
    }

    /// Associate a new resource, assigning the stable identifier
    /// `r<next>`; identifiers come from a per-Issue sequence that only
    /// grows, so they are never reused.
    pub fn add_resource(&mut self, new: NewResource) -> (r: Result<ResourceId, ResourceError>)
        ensures
            match r {
                Ok(id) => {
                    &&& !has_target_role(old(self).spec_resources(), new.target@, new.role)
                    &&& id@ == assigned_id(old(self).spec_next_resource_id() as nat)
                    &&& !has_id(old(self).spec_resources(), id@)
                    &&& final(self).spec_resources() == old(self).spec_resources().push(
                        ResourceView {
                            id: id@,
                            target: new.target@,
                            role: new.role,
                            label: opt_label_view(new.label),
                        },
                    )
                    &&& final(self).spec_next_resource_id() == old(self).spec_next_resource_id()
                        + 1
                },
                Err(e) => {
                    &&& final(self).spec_resources() == old(self).spec_resources()
                    &&& final(self).spec_next_resource_id() == old(self).spec_next_resource_id()
                    &&& if has_target_role(old(self).spec_resources(), new.target@, new.role) {
                        e@ == ResourceErrorView::DuplicateTargetRole {
                            target: new.target@,
                            role: new.role,
                        }
                    } else {
                        old(self).spec_next_resource_id() == u64::MAX && e@
                            == ResourceErrorView::IdSequenceExhausted
                    }
                },
            },
            final(self).spec_notes() == old(self).spec_notes(),
    {
        self.resources.add(new)
    }

    /// Update an existing resource by its identifier; it keeps its
    /// identifier and position. The duplicate check runs against the
    /// post-update state, excluding the resource itself.
    pub fn update_resource(&mut self, id: &ResourceId, update: ResourceUpdate) -> (r: Result<
        (),
        ResourceError,
    >)
        ensures
            final(self).spec_next_resource_id() == old(self).spec_next_resource_id(),
            final(self).spec_notes() == old(self).spec_notes(),
            match r {
                Ok(()) => exists|k: int|
                    {
                        &&& 0 <= k < old(self).spec_resources().len()
                        &&& #[trigger] old(self).spec_resources()[k].id == id@
                        &&& !held_by_other(
                            old(self).spec_resources(),
                            k,
                            updated_view(old(self).spec_resources()[k], update_view(update)).target,
                            updated_view(old(self).spec_resources()[k], update_view(update)).role,
                        )
                        &&& final(self).spec_resources() == old(self).spec_resources().update(
                            k,
                            updated_view(old(self).spec_resources()[k], update_view(update)),
                        )
                    },
                Err(e) => final(self).spec_resources() == old(self).spec_resources() && if update.target is None
                    && update.role is None && update.label is None {
                    e@ == ResourceErrorView::EmptyUpdate
                } else if !has_id(old(self).spec_resources(), id@) {
                    e@ == ResourceErrorView::ResourceNotFound { id: id@ }
                } else {
                    exists|k: int|
                        {
                            &&& 0 <= k < old(self).spec_resources().len()
                            &&& #[trigger] old(self).spec_resources()[k].id == id@
                            &&& held_by_other(
                                old(self).spec_resources(),
                                k,
                                updated_view(old(self).spec_resources()[k], update_view(update)).target,
                                updated_view(old(self).spec_resources()[k], update_view(update)).role,
                            )
                            &&& e@ == ResourceErrorView::DuplicateTargetRole {
                                target: updated_view(
                                    old(self).spec_resources()[k],
                                    update_view(update),
                                ).target,
                                role: updated_view(
                                    old(self).spec_resources()[k],
                                    update_view(update),
                                ).role,
                            }
                        }
                },
            },
    {
        let ghost old_rs = self.spec_resources();
        let ghost uv = update_view(update);
        let r = self.resources.update(id, update);
        proof {
            if r is Ok {
                let k = choose|k: int|
                    0 <= k < old_rs.len() && #[trigger] old_rs[k].id == id@
                        && self.resources.spec_resources() == old_rs.update(
                        k,
                        updated_view(old_rs[k], uv),
                    );
                assert(old_rs[k].id == id@);
            }
        }
        r
    }

    /// Remove a resource by its identifier; the others keep their
    /// identifiers and order, and the identifier sequence is untouched.
    pub fn remove_resource(&mut self, id: &ResourceId) -> (r: Result<(), ResourceError>)
        ensures
            final(self).spec_next_resource_id() == old(self).spec_next_resource_id(),
            final(self).spec_notes() == old(self).spec_notes(),
            match r {
                Ok(()) => exists|k: int|
                    {
                        &&& 0 <= k < old(self).spec_resources().len()
                        &&& #[trigger] old(self).spec_resources()[k].id == id@
                        &&& final(self).spec_resources() == old(self).spec_resources().remove(k)
                    },
                Err(e) => final(self).spec_resources() == old(self).spec_resources() && !has_id(
                    old(self).spec_resources(),
                    id@,
                ) && e@ == ResourceErrorView::ResourceNotFound { id: id@ },
            },
    {
        let ghost old_rs = self.spec_resources();
        let r = self.resources.remove(id);
        proof {
            if r is Ok {
                let k = choose|k: int|
                    0 <= k < old_rs.len() && #[trigger] old_rs[k].id == id@
                        && self.resources.spec_resources() == old_rs.remove(k);
                assert(old_rs[k].id == id@);
            }
        }
        r
    }

    pub open spec fn fields_error(&self) -> Option<Seq<char>> {
        issue_fields_error(
            self.title@,
            self.priority,
            self.description@,
            opt_string_view(self.assignee),
            strings_view(self.labels@),
            opt_string_view(self.design),
            opt_string_view(self.acceptance_criteria),
        )
    }

    /// Validate issue data integrity: title and priority, then every text
    /// field for control characters.
    pub fn validate(&self) -> (r: Result<(), String>)
        ensures
            match r {
                Ok(()) => self.fields_error() is None,
                Err(msg) => self.fields_error() == Some(msg@),
            },
    {
        validate_title_and_priority(self.title.as_str(), self.priority)?;
        validate_text_fields(
            self.description.as_str(),
            opt_as_str(&self.assignee),
            self.labels.as_slice(),
            opt_as_str(&self.design),
            opt_as_str(&self.acceptance_criteria),
        )
    }
}

/// Identifiers are never reused: every identifier `add_resource` hands out
/// is `r<n>` for the sequence number `n` current at that call, that number
/// only grows (add raises it by one; update, remove and note appends leave
/// it alone), and identifiers for different numbers differ.
pub proof fn lemma_resource_ids_never_reused(first: nat, later: nat)
    requires
        first < later,
    ensures
        assigned_id(first) != assigned_id(later),
{
    lemma_assigned_ids_distinct(first, later);
}

/// Removing the resource just added gives the resources back as they were:
/// an added resource carries an identifier no other resource has, so the
/// only resource `remove_resource` can pick for it is the one at the end.
/// (The identifier sequence is not rewound.)
pub proof fn lemma_remove_undoes_add(rs: Seq<ResourceView>, added: ResourceView, k: int)
    requires
        !has_id(rs, added.id),
        0 <= k < rs.len() + 1,
        rs.push(added)[k].id == added.id,
    ensures
        k == rs.len(),
        rs.push(added).remove(k) == rs,
{
    if k < rs.len() {
        assert(rs[k] == rs.push(added)[k]);
        assert(has_id(rs, added.id));
    }
    assert(rs.push(added).remove(k) =~= rs);
}

} // verus!
