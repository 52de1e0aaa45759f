//! The chat registry: a mapping from moderator identity to the public
//! destination that moderator administers, together with the consecutive
//! delivery-failure counter that drives automatic eviction.
//!
//! The registry is the single source of truth for who moderates which
//! destination. All mutation goes through registration, unregistration and
//! the two failure-policy operations; each states exactly how the registry
//! model (a map from moderator identity to entry) changes.

use vstd::prelude::*;
use vstd::std_specs::iter::IteratorSpec;

verus! {

/// The longest destination name the registry stores, in characters.
pub const MAX_DESTINATION_LEN: usize = 100;

/// How many consecutive publish failures a registration survives; the next
/// failure evicts it.
pub const FAILURE_THRESHOLD: u32 = 3;

/// One registration row: a moderator and the destination they administer.
pub struct Registration {
    pub moderator_id: i64,
    pub destination_name: String,
    pub error_count: u32,
}

/// The mathematical model of one registration.
pub ghost struct RegEntry {
    pub destination: Seq<char>,
    pub errors: int,
}

impl Registration {
    /// The model of this row.
    pub open spec fn entry(&self) -> RegEntry {
        RegEntry { destination: self.destination_name@, errors: self.error_count as int }
    }
}

/// The model of a whole registry: moderator identity to registration entry.
pub open spec fn as_reg_map(s: Seq<Registration>) -> Map<int, RegEntry>
    decreases s.len(),
{
    if s.len() == 0 {
        Map::empty()
    } else {
        as_reg_map(s.drop_last()).insert(s.last().moderator_id as int, s.last().entry())
    }
}

/// No two rows share a moderator identity.
pub open spec fn unique_moderators(s: Seq<Registration>) -> bool {
    forall|i: int, j: int| 0 <= i < j < s.len() ==> s[i].moderator_id != s[j].moderator_id
}

/// What holds of every entry a well-formed registry stores: the failure
/// counter has not passed the eviction threshold (an entry past it is
/// evicted at once) and the destination name fits the store.
pub open spec fn wf_entry(e: RegEntry) -> bool {
    &&& 0 <= e.errors <= FAILURE_THRESHOLD
    &&& e.destination.len() <= MAX_DESTINATION_LEN
}

/// Well-formedness of a registry model.
pub open spec fn wf_reg_map(r: Map<int, RegEntry>) -> bool {
    forall|m: int| r.dom().contains(m) ==> wf_entry(#[trigger] r[m])
}

/// What registration does to the registry model: any prior registration of
/// the moderator is replaced and the fresh entry starts with no failures. A
/// destination name too long for the store leaves the registry unchanged
/// (the operation is fail-silent, as a failed row write would be).
pub open spec fn spec_register(r: Map<int, RegEntry>, m: int, d: Seq<char>) -> Map<int, RegEntry> {
    if d.len() <= MAX_DESTINATION_LEN {
        r.insert(m, RegEntry { destination: d, errors: 0 })
    } else {
        r
    }
}

/// What unregistration does to the registry model.
pub open spec fn spec_unregister(r: Map<int, RegEntry>, m: int) -> Map<int, RegEntry> {
    r.remove(m)
}

/// What recording a delivery failure does to the registry model: the
/// moderator's counter grows by one, and an entry whose counter passes the
/// threshold is evicted. Unregistered moderators are untouched.
pub open spec fn spec_record_failure(r: Map<int, RegEntry>, m: int) -> Map<int, RegEntry> {
    if !r.dom().contains(m) {
        r
    } else if r[m].errors + 1 > FAILURE_THRESHOLD {
        r.remove(m)
    } else {
        r.insert(m, RegEntry { destination: r[m].destination, errors: r[m].errors + 1 })
    }
}

/// What recording a delivery success does to the registry model: the
/// moderator's counter is reset to zero. Unregistered moderators are
/// untouched.
pub open spec fn spec_record_success(r: Map<int, RegEntry>, m: int) -> Map<int, RegEntry> {
    if r.dom().contains(m) {
        r.insert(m, RegEntry { destination: r[m].destination, errors: 0 })
    } else {
        r
    }
}

/// How a sequence of unique rows and its map model correspond: each row is
/// in the map under its moderator identity, every key of the map comes from
/// a row, and the map has exactly one key per row.
proof fn lemma_reg_map_char(s: Seq<Registration>)
    requires
        unique_moderators(s),
    ensures
        forall|i: int|
            0 <= i < s.len() ==> as_reg_map(s).dom().contains((#[trigger] s[i]).moderator_id as int)
                && as_reg_map(s)[s[i].moderator_id as int] == s[i].entry(),
        forall|m: int|
            #[trigger] as_reg_map(s).dom().contains(m) ==> exists|i: int|
                0 <= i < s.len() && s[i].moderator_id as int == m,
        as_reg_map(s).dom().finite(),
        as_reg_map(s).dom().len() == s.len(),
    decreases s.len(),
{
    if s.len() > 0 {
        let pre = s.drop_last();
        let last = s.last();
        let lid = last.moderator_id as int;
        assert(forall|i: int| 0 <= i < pre.len() ==> pre[i] == s[i]);
        lemma_reg_map_char(pre);
        assert(!as_reg_map(pre).dom().contains(lid)) by {
            if as_reg_map(pre).dom().contains(lid) {
                let i = choose|i: int| 0 <= i < pre.len() && pre[i].moderator_id as int == lid;
                assert(s[i].moderator_id == s[s.len() - 1].moderator_id);
                assert(false);
            }
        }
        assert forall|i: int| 0 <= i < s.len() implies as_reg_map(s).dom().contains(
            (#[trigger] s[i]).moderator_id as int,
        ) && as_reg_map(s)[s[i].moderator_id as int] == s[i].entry() by {
            if i < s.len() - 1 {
                assert(pre[i] == s[i]);
                assert(s[i].moderator_id != s[s.len() - 1].moderator_id);
            }
        }
        assert(as_reg_map(s).dom() =~= as_reg_map(pre).dom().insert(lid));
    }
}

/// Dropping a row keeps rows unique and well-formed, and no remaining row
/// carries the dropped row's moderator identity.
proof fn lemma_remove_preserves_inv(s: Seq<Registration>, idx: int)
    requires
        unique_moderators(s),
        forall|i: int| 0 <= i < s.len() ==> wf_entry((#[trigger] s[i]).entry()),
        0 <= idx < s.len(),
    ensures
        unique_moderators(s.remove(idx)),
        forall|i: int| 0 <= i < s.remove(idx).len() ==> wf_entry((#[trigger] s.remove(idx)[i]).entry()),
        forall|i: int|
            0 <= i < s.remove(idx).len() ==> (#[trigger] s.remove(idx)[i]).moderator_id
                != s[idx].moderator_id,
{
    s.remove_ensures(idx);
    assert forall|i: int| 0 <= i < s.remove(idx).len() implies (#[trigger] s.remove(idx)[i]).entry()
        == (if i < idx {
        s[i]
    } else {
        s[i + 1]
    }).entry() && s.remove(idx)[i].moderator_id == (if i < idx {
        s[i]
    } else {
        s[i + 1]
    }).moderator_id by {}
    assert forall|i: int, j: int| 0 <= i < j < s.remove(idx).len() implies s.remove(idx)[i].moderator_id
        != s.remove(idx)[j].moderator_id by {
        let pi: int = if i < idx { i } else { i + 1 };
        let pj: int = if j < idx { j } else { j + 1 };
        assert(s.remove(idx)[i] == s[pi]);
        assert(s.remove(idx)[j] == s[pj]);
        assert(s[pi].moderator_id != s[pj].moderator_id);
    }
}

/// Removing the one row of a moderator removes exactly that moderator's key
/// from the map model.
proof fn lemma_remove_at(s: Seq<Registration>, idx: int)
    requires
        unique_moderators(s),
        0 <= idx < s.len(),
    ensures
        as_reg_map(s.remove(idx)) == as_reg_map(s).remove(s[idx].moderator_id as int),
    decreases s.len(),
{
    let m = s[idx].moderator_id as int;
    let pre = s.drop_last();
    assert(forall|i: int| 0 <= i < pre.len() ==> pre[i] == s[i]);
    if idx == s.len() - 1 {
        assert(s.remove(idx) =~= pre);
        lemma_reg_map_char(pre);
        assert(!as_reg_map(pre).dom().contains(m)) by {
            if as_reg_map(pre).dom().contains(m) {
                let i = choose|i: int| 0 <= i < pre.len() && pre[i].moderator_id as int == m;
                assert(s[i].moderator_id == s[idx].moderator_id);
                assert(false);
            }
        }
        assert(as_reg_map(pre).insert(m, s.last().entry()).remove(m) =~= as_reg_map(pre));
    } else {
        lemma_remove_at(pre, idx);
        let lid = s.last().moderator_id as int;
        let e = s.last().entry();
        assert(s[idx].moderator_id != s[s.len() - 1].moderator_id);
        assert(s.remove(idx).drop_last() =~= pre.remove(idx));
        assert(s.remove(idx).last() == s.last());
        assert(s.remove(idx).len() > 0);
        assert(as_reg_map(s.remove(idx)) == as_reg_map(pre.remove(idx)).insert(lid, e));
        assert(as_reg_map(pre).remove(m).insert(lid, e) =~= as_reg_map(pre).insert(lid, e).remove(m));
    }
}

/// Replacing the one row of a moderator by a row for the same moderator
/// updates exactly that moderator's entry in the map model.
proof fn lemma_update_at(s: Seq<Registration>, idx: int, r: Registration)
    requires
        unique_moderators(s),
        0 <= idx < s.len(),
        r.moderator_id == s[idx].moderator_id,
    ensures
        as_reg_map(s.update(idx, r)) == as_reg_map(s).insert(r.moderator_id as int, r.entry()),
    decreases s.len(),
{
    let m = r.moderator_id as int;
    let pre = s.drop_last();
    assert(forall|i: int| 0 <= i < pre.len() ==> pre[i] == s[i]);
    if idx == s.len() - 1 {
        assert(s.update(idx, r).drop_last() =~= pre);
        assert(s.update(idx, r).last() == r);
        assert(as_reg_map(pre).insert(m, s.last().entry()).insert(m, r.entry()) =~= as_reg_map(
            pre,
        ).insert(m, r.entry()));
    } else {
        lemma_update_at(pre, idx, r);
        let lid = s.last().moderator_id as int;
        let e = s.last().entry();
        assert(s[idx].moderator_id != s[s.len() - 1].moderator_id);
        assert(s.update(idx, r).drop_last() =~= pre.update(idx, r));
        assert(s.update(idx, r).last() == s.last());
        assert(as_reg_map(s.update(idx, r)) == as_reg_map(pre.update(idx, r)).insert(lid, e));
        assert(as_reg_map(pre).insert(m, r.entry()).insert(lid, e) =~= as_reg_map(pre).insert(
            lid,
            e,
        ).insert(m, r.entry()));
    }
}

/// A registry of unique, well-formed rows has a well-formed map model.
proof fn lemma_wf_from_rows(s: Seq<Registration>)
    requires
        unique_moderators(s),
        forall|i: int| 0 <= i < s.len() ==> wf_entry((#[trigger] s[i]).entry()),
    ensures
        wf_reg_map(as_reg_map(s)),
{
    lemma_reg_map_char(s);
    assert forall|m: int| as_reg_map(s).dom().contains(m) implies wf_entry(
        #[trigger] as_reg_map(s)[m],
    ) by {
        let i = choose|i: int| 0 <= i < s.len() && s[i].moderator_id as int == m;
        assert(as_reg_map(s)[m] == s[i].entry());
    }
}

/// The moderator's key is absent from the map model exactly when no row
/// carries it.
proof fn lemma_absent_rows(s: Seq<Registration>, moderator_id: i64)
    requires
        unique_moderators(s),
        forall|j: int| 0 <= j < s.len() ==> (#[trigger] s[j]).moderator_id != moderator_id,
    ensures
        !as_reg_map(s).dom().contains(moderator_id as int),
{
    lemma_reg_map_char(s);
    if as_reg_map(s).dom().contains(moderator_id as int) {
        let i = choose|i: int| 0 <= i < s.len() && s[i].moderator_id as int == moderator_id as int;
        assert(false);
    }
}

/// The index of the moderator's row, if any.
fn find_row(regs: &Vec<Registration>, moderator_id: i64) -> (r: Option<usize>)
    ensures
        match r {
            Some(i) => i < regs@.len() && regs@[i as int].moderator_id == moderator_id,
            None => forall|j: int|
                0 <= j < regs@.len() ==> (#[trigger] regs@[j]).moderator_id != moderator_id,
        },
{
    let n = regs.len();
    let mut i: usize = 0;
    while i < n
        invariant
            i <= n,
            n == regs@.len(),
            forall|j: int| 0 <= j < i ==> (#[trigger] regs@[j]).moderator_id != moderator_id,
        decreases n - i,
    {
        if regs[i].moderator_id == moderator_id {
            return Some(i);
        }
        i = i + 1;
    }
    None
}

/// The registry service.
pub struct Registry {
    regs: Vec<Registration>,
}

impl Registry {
    #[verifier::type_invariant]
    spec fn type_inv(&self) -> bool {
        &&& unique_moderators(self.regs@)
        &&& forall|i: int| 0 <= i < self.regs@.len() ==> wf_entry((#[trigger] self.regs@[i]).entry())
    }

    pub closed spec fn view(&self) -> Map<int, RegEntry> {
        as_reg_map(self.regs@)
    }

    /// An empty registry: nobody is registered.
    pub fn new() -> (r: Registry)
        ensures
            r@ == Map::<int, RegEntry>::empty(),
            wf_reg_map(r@),
    {
        Registry { regs: Vec::new() }
    }

    /// Register `moderator_id` for `destination_name`: any prior
    /// registration of this moderator is replaced and the fresh entry starts
    /// with no failures. A name longer than the store holds is dropped
    /// silently, as a failed row write would be. Whether the destination is
    /// already owned by someone else is deliberately not checked here: that
    /// check belongs to the command layer.
    pub fn register(&mut self, moderator_id: i64, destination_name: String)
        ensures
            final(self)@ == spec_register(old(self)@, moderator_id as int, destination_name@),
            wf_reg_map(final(self)@),
    {
        proof {
            use_type_invariant(&*self);
        }
        if !char_len_at_most(destination_name.as_str(), MAX_DESTINATION_LEN) {
            proof {
                lemma_wf_from_rows(self.regs@);
            }
            return ;
        }
        let ghost s0 = self.regs@;
        let mut regs: Vec<Registration> = Vec::new();
        core::mem::swap(&mut self.regs, &mut regs);
        match find_row(&regs, moderator_id) {
            Some(idx) => {
                proof {
                    lemma_remove_at(s0, idx as int);
                    lemma_remove_preserves_inv(s0, idx as int);
                }
                regs.remove(idx);
            },
            None => {
                proof {
                    lemma_absent_rows(s0, moderator_id);
                    assert(as_reg_map(s0).remove(moderator_id as int) =~= as_reg_map(s0));
                }
            },
        }
        let ghost s1 = regs@;
        assert(as_reg_map(s1) == as_reg_map(s0).remove(moderator_id as int));
        assert(forall|j: int| 0 <= j < s1.len() ==> (#[trigger] s1[j]).moderator_id != moderator_id);
        let row = Registration { moderator_id, destination_name, error_count: 0 };
        regs.push(row);
        self.regs = regs;
        proof {
            assert(self.regs@.drop_last() =~= s1);
            assert(self.regs@.last() == row);
            assert(self@ =~= spec_register(old(self)@, moderator_id as int, row.destination_name@));
            lemma_wf_from_rows(self.regs@);
        }
    }

    /// Forget the moderator's registration; a no-op if there is none.
    pub fn unregister(&mut self, moderator_id: i64)
        ensures
            final(self)@ == spec_unregister(old(self)@, moderator_id as int),
            wf_reg_map(final(self)@),
    {
        proof {
            use_type_invariant(&*self);
        }
        let ghost s0 = self.regs@;
        let mut regs: Vec<Registration> = Vec::new();
        core::mem::swap(&mut self.regs, &mut regs);
        match find_row(&regs, moderator_id) {
            Some(idx) => {
                proof {
                    lemma_remove_at(s0, idx as int);
                    lemma_remove_preserves_inv(s0, idx as int);
                }
                regs.remove(idx);
            },
            None => {
                proof {
                    lemma_absent_rows(s0, moderator_id);
                    assert(as_reg_map(s0).remove(moderator_id as int) =~= as_reg_map(s0));
                }
            },
        }
        self.regs = regs;
        proof {
            lemma_wf_from_rows(self.regs@);
        }
    }

    /// The destination the moderator administers, if registered.
    pub fn lookup_destination(&self, moderator_id: i64) -> (r: Option<String>)
        ensures
            match r {
                Some(d) => self@.dom().contains(moderator_id as int)
                    && d@ == self@[moderator_id as int].destination,
                None => !self@.dom().contains(moderator_id as int),
            },
    {
        proof {
            use_type_invariant(self);
            lemma_reg_map_char(self.regs@);
        }
        match find_row(&self.regs, moderator_id) {
            Some(idx) => Some(self.regs[idx].destination_name.clone()),
            None => {
                proof {
                    lemma_absent_rows(self.regs@, moderator_id);
                }
                None
            },
        }
    }

    /// The moderator's consecutive delivery-failure count, if registered.
    pub fn error_count(&self, moderator_id: i64) -> (r: Option<u32>)
        ensures
            match r {
                Some(c) => self@.dom().contains(moderator_id as int)
                    && c as int == self@[moderator_id as int].errors,
                None => !self@.dom().contains(moderator_id as int),
            },
    {
        proof {
            use_type_invariant(self);
            lemma_reg_map_char(self.regs@);
        }
        match find_row(&self.regs, moderator_id) {
            Some(idx) => Some(self.regs[idx].error_count),
            None => {
                proof {
                    lemma_absent_rows(self.regs@, moderator_id);
                }
                None
            },
        }
    }

    /// The moderator who owns the destination, if any does.
    pub fn lookup_moderator(&self, destination_name: &String) -> (r: Option<i64>)
        ensures
            match r {
                Some(m) => self@.dom().contains(m as int) && self@[m as int].destination
                    == destination_name@,
                None => forall|m: int|
                    self@.dom().contains(m) ==> (#[trigger] self@[m]).destination
                        != destination_name@,
            },
    {
        proof {
            use_type_invariant(self);
            lemma_reg_map_char(self.regs@);
        }
        let n = self.regs.len();
        let mut i: usize = 0;
        while i < n
            invariant
                i <= n,
                n == self.regs@.len(),
                unique_moderators(self.regs@),
                forall|j: int|
                    0 <= j < i ==> (#[trigger] self.regs@[j]).destination_name@
                        != destination_name@,
            decreases n - i,
        {
            if self.regs[i].destination_name == *destination_name {
                proof {
                    lemma_reg_map_char(self.regs@);
                }
                return Some(self.regs[i].moderator_id);
            }
            i = i + 1;
        }
        proof {
            lemma_reg_map_char(self.regs@);
            assert forall|m: int| self@.dom().contains(m) implies (#[trigger] self@[m]).destination
                != destination_name@ by {
                let j = choose|j: int|
                    0 <= j < self.regs@.len() && self.regs@[j].moderator_id as int == m;
                assert(self@[m] == self.regs@[j].entry());
            }
        }
        None
    }

    /// All destinations with an active registration, one per registered
    /// moderator, in the registry's storage order.
    pub fn list_destinations(&self) -> (r: Vec<String>)
        ensures
            r@.len() == self@.dom().len(),
            forall|k: int|
                0 <= k < r@.len() ==> exists|m: int|
                    #[trigger] self@.dom().contains(m) && self@[m].destination == (#[trigger] r@[k])@,
            forall|m: int|
                #[trigger] self@.dom().contains(m) ==> exists|k: int|
                    0 <= k < r@.len() && (#[trigger] r@[k])@ == self@[m].destination,
    {
        proof {
            use_type_invariant(self);
            lemma_reg_map_char(self.regs@);
        }
        let n = self.regs.len();
        let mut r: Vec<String> = Vec::new();
        let mut i: usize = 0;
        while i < n
            invariant
                i <= n,
                n == self.regs@.len(),
                r@.len() == i,
                forall|k: int| 0 <= k < i ==> (#[trigger] r@[k]) == self.regs@[k].destination_name,
            decreases n - i,
        {
            r.push(self.regs[i].destination_name.clone());
            i = i + 1;
        }
        proof {
            assert forall|k: int| 0 <= k < r@.len() implies exists|m: int|
                #[trigger] self@.dom().contains(m) && self@[m].destination == (#[trigger] r@[k])@ by {
                let m = self.regs@[k].moderator_id as int;
                assert(self@.dom().contains(m) && self@[m] == self.regs@[k].entry());
            }
            assert forall|m: int| #[trigger] self@.dom().contains(m) implies exists|k: int|
                0 <= k < r@.len() && (#[trigger] r@[k])@ == self@[m].destination by {
                let j = choose|j: int|
                    0 <= j < self.regs@.len() && self.regs@[j].moderator_id as int == m;
                assert(self@[m] == self.regs@[j].entry());
                assert((r@[j])@ == self@[m].destination);
            }
        }
        r
    }

    /// Count one failed delivery into the moderator's public destination.
    /// The counter grows by one; past the threshold, the registration is
    /// evicted. Call this only for failed publication into the destination,
    /// never for a failed private notice to the moderator.
    pub fn record_delivery_failure(&mut self, moderator_id: i64)
        ensures
            final(self)@ == spec_record_failure(old(self)@, moderator_id as int),
            wf_reg_map(final(self)@),
    {
        proof {
            use_type_invariant(&*self);
            lemma_reg_map_char(self.regs@);
        }
        let ghost s0 = self.regs@;
        let mut regs: Vec<Registration> = Vec::new();
        core::mem::swap(&mut self.regs, &mut regs);
        match find_row(&regs, moderator_id) {
            Some(idx) => {
                assert(as_reg_map(s0)[moderator_id as int] == s0[idx as int].entry());
                let current = regs[idx].error_count;
                if current >= FAILURE_THRESHOLD {
                    proof {
                        lemma_remove_at(s0, idx as int);
                        lemma_remove_preserves_inv(s0, idx as int);
                    }
                    regs.remove(idx);
                } else {
                    let row = Registration {
                        moderator_id,
                        destination_name: regs[idx].destination_name.clone(),
                        error_count: current + 1,
                    };
                    proof {
                        lemma_update_at(s0, idx as int, row);
                        assert forall|i: int, j: int|
                            0 <= i < j < s0.update(idx as int, row).len() implies s0.update(
                            idx as int,
                            row,
                        )[i].moderator_id != s0.update(idx as int, row)[j].moderator_id by {
                            assert(s0[i].moderator_id != s0[j].moderator_id);
                        }
                    }
                    regs.set(idx, row);
                }
            },
            None => {
                proof {
                    lemma_absent_rows(s0, moderator_id);
                }
            },
        }
        self.regs = regs;
        proof {
            lemma_wf_from_rows(self.regs@);
        }
    }

    /// Count one successful publication into the moderator's public
    /// destination: the failure counter starts over. Call this only after
    /// successful publication into the destination, never after a successful
    /// private notice to the moderator.
    pub fn record_delivery_success(&mut self, moderator_id: i64)
        ensures
            final(self)@ == spec_record_success(old(self)@, moderator_id as int),
            wf_reg_map(final(self)@),
    {
        proof {
            use_type_invariant(&*self);
            lemma_reg_map_char(self.regs@);
        }
        let ghost s0 = self.regs@;
        let mut regs: Vec<Registration> = Vec::new();
        core::mem::swap(&mut self.regs, &mut regs);
        match find_row(&regs, moderator_id) {
            Some(idx) => {
                assert(as_reg_map(s0)[moderator_id as int] == s0[idx as int].entry());
                let row = Registration {
                    moderator_id,
                    destination_name: regs[idx].destination_name.clone(),
                    error_count: 0,
                };
                proof {
                    lemma_update_at(s0, idx as int, row);
                    assert forall|i: int, j: int|
                        0 <= i < j < s0.update(idx as int, row).len() implies s0.update(
                        idx as int,
                        row,
                    )[i].moderator_id != s0.update(idx as int, row)[j].moderator_id by {
                        assert(s0[i].moderator_id != s0[j].moderator_id);
                    }
                }
                regs.set(idx, row);
            },
            None => {
                proof {
                    lemma_absent_rows(s0, moderator_id);
                }
            },
        }
        self.regs = regs;
        proof {
            lemma_wf_from_rows(self.regs@);
        }
    }
}

/// Whether the text holds at most `limit` characters, counted as characters
/// (not bytes).
pub(crate) fn char_len_at_most(s: &str, limit: usize) -> (r: bool)
    requires
        limit < usize::MAX,
    ensures
        r == (s@.len() <= limit),
{
    let mut it = s.chars();
    let mut n: usize = 0;
    loop
        invariant
            n <= limit < usize::MAX,
            it.remaining() =~= s@.skip(n as int),
            n <= s@.len(),
        ensures
            n <= limit && s@.len() == n,
        decreases limit - n,
    {
        let next = it.next();
        match next {
            None => {
                assert(s@.skip(n as int).len() == 0);
                break ;
            },
            Some(_) => {
                assert(s@.skip(n as int).len() > 0);
                if n == limit {
                    assert(s@.len() > limit);
                    return false;
                }
                assert(s@.skip(n as int).drop_first() =~= s@.skip(n as int + 1));
                n = n + 1;
            },
        }
    }
    true
}

/// Law: registering a moderator for a new destination replaces the old one.
/// Afterwards the moderator's destination is the new name, and the old name
/// — provided nobody else owned it — resolves to no moderator at all.
pub proof fn lemma_register_replaces(r0: Map<int, RegEntry>, m: int, d: Seq<char>, d2: Seq<char>)
    requires
        d != d2,
        d.len() <= MAX_DESTINATION_LEN,
        d2.len() <= MAX_DESTINATION_LEN,
        forall|m2: int|
            r0.dom().contains(m2) && m2 != m ==> (#[trigger] r0[m2]).destination != d,
    ensures
        ({
            let r2 = spec_register(spec_register(r0, m, d), m, d2);
            &&& r2.dom().contains(m)
            &&& r2[m].destination == d2
            &&& forall|m2: int| r2.dom().contains(m2) ==> (#[trigger] r2[m2]).destination != d
        }),
{
}

/// Law: four consecutive delivery failures without an intervening success
/// evict the registration, and — starting from a clean counter — the first
/// three alone do not.
pub proof fn lemma_four_failures_evict(r0: Map<int, RegEntry>, m: int)
    requires
        wf_reg_map(r0),
    ensures
        ({
            let r1 = spec_record_failure(r0, m);
            let r2 = spec_record_failure(r1, m);
            let r3 = spec_record_failure(r2, m);
            let r4 = spec_record_failure(r3, m);
            &&& !r4.dom().contains(m)
            &&& (r0.dom().contains(m) && r0[m].errors == 0 ==> r3.dom().contains(m)
                && r3[m].errors == FAILURE_THRESHOLD && r3[m].destination == r0[m].destination)
        }),
{
}

/// Law: a recorded success resets the counter, so one subsequent failure
/// does not evict: the registration survives with a single counted failure.
pub proof fn lemma_success_resets(r0: Map<int, RegEntry>, m: int)
    requires
        wf_reg_map(r0),
        r0.dom().contains(m),
    ensures
        ({
            let r1 = spec_record_success(r0, m);
            let r2 = spec_record_failure(r1, m);
            &&& r2.dom().contains(m)
            &&& r2[m].destination == r0[m].destination
            &&& r2[m].errors == 1
        }),
{
}

} // verus!
