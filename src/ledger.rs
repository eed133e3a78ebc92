use vstd::prelude::*;

verus! {

/// One committed unit of ceremony history.
pub struct Slot {
    pub slot_number: u64,
    pub is_root: bool,
    /// Serialized reference string (root) or serialized contribution.
    pub payload: Vec<u8>,
    /// Encoded address of the contributor; absent only for the root.
    pub contributor: Option<Vec<u8>>,
}

/// Mathematical view of a slot.
pub struct SlotView {
    pub slot_number: nat,
    pub is_root: bool,
    pub payload: Seq<u8>,
    pub contributor: Option<Seq<u8>>,
}

impl View for Slot {
    type V = SlotView;

    open spec fn view(&self) -> SlotView {
        SlotView {
            slot_number: self.slot_number as nat,
            is_root: self.is_root,
            payload: self.payload@,
            contributor: match self.contributor {
                Some(c) => Some(c@),
                None => None,
            },
        }
    }
}

/// Failures of the ledger.
#[derive(PartialEq, Eq, Structural, Debug, Clone, Copy)]
pub enum LedgerError {
    /// A store already exists where a new one was to be created.
    AlreadyExists,
    /// No store exists at the location that was to be loaded.
    StoreUnavailable,
    /// The stored history holds no slot at all.
    MissingRoot,
    /// The stored slot with this position breaks the ledger's invariant.
    CorruptSlot(u64),
    /// The contribution was validated against a tip that is no longer current.
    Conflict,
    /// No further slot number can be assigned.
    Full,
}

/// Where the payload of the current tip comes from.
pub enum TipSource<'a> {
    /// The tip is the genesis reference string itself.
    Root(&'a Vec<u8>),
    /// The tip is the reference string derived from this contribution.
    Contribution(&'a Vec<u8>),
}

/// Mathematical view of a tip source.
pub enum TipView {
    Root(Seq<u8>),
    Contribution(Seq<u8>),
}

impl<'a> View for TipSource<'a> {
    type V = TipView;

    open spec fn view(&self) -> TipView {
        match self {
            TipSource::Root(p) => TipView::Root(p@),
            TipSource::Contribution(p) => TipView::Contribution(p@),
        }
    }
}

/// Whether the slot at position `i` of `v` is well formed there: the root
/// alone at position 0, and a contribution with a contributor elsewhere.
pub open spec fn slot_ok(v: Seq<SlotView>, i: int) -> bool {
    &&& v[i].slot_number == i
    &&& v[i].is_root == (i == 0)
    &&& v[i].contributor.is_none() == (i == 0)
}

/// Whether `v` is a ledger history: a root at slot 0 followed by
/// contributions numbered without gaps.
pub open spec fn ledger_wf(v: Seq<SlotView>) -> bool {
    &&& v.len() >= 1
    &&& forall|i: int| 0 <= i < v.len() ==> #[trigger] slot_ok(v, i)
}

/// The history of a freshly created ledger.
pub open spec fn fresh_ledger(root: Seq<u8>) -> Seq<SlotView> {
    seq![SlotView { slot_number: 0, is_root: true, payload: root, contributor: None }]
}

/// The number of the most recent slot.
pub open spec fn tip_number(v: Seq<SlotView>) -> nat {
    (v.len() - 1) as nat
}

/// Where the tip of `v` comes from.
pub open spec fn tip_of(v: Seq<SlotView>) -> TipView {
    let last = v.last();
    if last.is_root {
        TipView::Root(last.payload)
    } else {
        TipView::Contribution(last.payload)
    }
}

/// The history `v` with one contribution appended.
pub open spec fn appended(v: Seq<SlotView>, contributor: Seq<u8>, payload: Seq<u8>) -> Seq<SlotView> {
    v.push(
        SlotView {
            slot_number: v.len(),
            is_root: false,
            payload,
            contributor: Some(contributor),
        },
    )
}

/// Whether a contribution validated against slot `observed` may be appended to `v`.
pub open spec fn accepts(v: Seq<SlotView>, observed: u64) -> bool {
    &&& observed == tip_number(v)
    &&& v.len() < usize::MAX
}

/// The ledger: the full ordered history of the ceremony.
pub struct Storage {
    slots: Vec<Slot>,
}

impl View for Storage {
    type V = Seq<SlotView>;

    closed spec fn view(&self) -> Seq<SlotView> {
        self.slots@.map_values(|s: Slot| s@)
    }
}

impl Storage {
    /// The ledger's invariant.
    pub open spec fn wf(&self) -> bool {
        ledger_wf(self@)
    }

    /// Creates a ledger whose only slot is the root holding `root_payload`.
    /// Fails with `AlreadyExists` when a store already exists at the target.
    pub fn initialize(exists: bool, root_payload: Vec<u8>) -> (r: Result<Storage, LedgerError>)
        ensures
            exists <==> r is Err,
            r is Err ==> r->Err_0 == LedgerError::AlreadyExists,
            r is Ok ==> r->Ok_0.wf() && r->Ok_0@ == fresh_ledger(root_payload@),
    {
        if exists {
            return Err(LedgerError::AlreadyExists);
        }
        let root = Slot { slot_number: 0, is_root: true, payload: root_payload, contributor: None };
        let mut slots: Vec<Slot> = Vec::new();
        slots.push(root);
        let s = Storage { slots };
        proof {
            assert(s@ =~= fresh_ledger(root_payload@));
        }
        Ok(s)
    }

    /// Attaches to the stored history `rows`, given in slot order. Fails with
    /// `StoreUnavailable` when no store exists, with `MissingRoot` when it holds
    /// no slot, and with `CorruptSlot` at the first slot that breaks the
    /// ledger's invariant.
    pub fn load(exists: bool, rows: Vec<Slot>) -> (r: Result<Storage, LedgerError>)
        ensures
            r is Ok <==> exists && ledger_wf(rows_view(rows@)),
            r is Ok ==> r->Ok_0.wf() && r->Ok_0@ == rows_view(rows@),
            !exists ==> r == Err::<Storage, LedgerError>(LedgerError::StoreUnavailable),
            exists && rows@.len() == 0 ==> r == Err::<Storage, LedgerError>(LedgerError::MissingRoot),
            r matches Err(LedgerError::CorruptSlot(k)) ==> {
                &&& exists
                &&& k < rows@.len()
                &&& !slot_ok(rows_view(rows@), k as int)
                &&& forall|j: int| 0 <= j < k ==> slot_ok(rows_view(rows@), j)
            },
            r is Err ==> (r->Err_0 is StoreUnavailable || r->Err_0 is MissingRoot || r->Err_0 is CorruptSlot),
            r is Err ==> (r->Err_0 is StoreUnavailable <==> !exists),
    {
        if !exists {
            return Err(LedgerError::StoreUnavailable);
        }
        if rows.len() == 0 {
            return Err(LedgerError::MissingRoot);
        }
        let ghost v = rows_view(rows@);
        let mut i: usize = 0;
        while i < rows.len()
            invariant
                exists,
                0 <= i <= rows@.len(),
                v == rows_view(rows@),
                v.len() == rows@.len(),
                forall|j: int| 0 <= j < i ==> #[trigger] slot_ok(v, j),
            decreases rows@.len() - i,
        {
            let row = &rows[i];
            let ok = row.slot_number == i as u64 && row.is_root == (i == 0) && row.contributor.is_none() == (i == 0);
            proof {
                assert(v[i as int] == row@);
                assert(row@.contributor.is_none() == row.contributor.is_none());
                assert(ok == slot_ok(v, i as int));
            }
            if !ok {
                return Err(LedgerError::CorruptSlot(i as u64));
            }
            i += 1;
        }
        Ok(Storage { slots: rows })
    }

    /// Loads the store when it exists, else creates it with `root_payload`
    /// as its root.
    pub fn load_or_initialize(exists: bool, rows: Vec<Slot>, root_payload: Vec<u8>) -> (r: Result<Storage, LedgerError>)
        ensures
            exists ==> (r is Ok <==> ledger_wf(rows_view(rows@))),
            exists && r is Ok ==> r->Ok_0@ == rows_view(rows@),
            exists && rows@.len() == 0 ==> r == Err::<Storage, LedgerError>(LedgerError::MissingRoot),
            exists && r is Err ==> r->Err_0 is MissingRoot || r->Err_0 is CorruptSlot,
            !exists ==> r is Ok && r->Ok_0@ == fresh_ledger(root_payload@),
            r is Ok ==> r->Ok_0.wf(),
    {
        if exists {
            Storage::load(exists, rows)
        } else {
            Storage::initialize(exists, root_payload)
        }
    }

    /// The number of the most recent slot; 0 while only the root exists.
    pub fn current_slot(&self) -> (r: u64)
        requires
            self.wf(),
        ensures
            r == tip_number(self@),
    {
        (self.slots.len() - 1) as u64
    }

    /// Appends `payload`, contributed by `contributor` and validated against
    /// the tip of slot `observed`, as the next slot. The slot number is
    /// assigned here, one above the current tip. Fails with `Conflict`, and
    /// changes nothing, when the tip has moved on since `observed`.
    pub fn commit_contribution(&mut self, contributor: Vec<u8>, payload: Vec<u8>, observed: u64) -> (r: Result<u64, LedgerError>)
        requires
            old(self).wf(),
        ensures
            final(self).wf(),
            r is Ok <==> accepts(old(self)@, observed),
            r is Ok ==> r->Ok_0 == old(self)@.len() && final(self)@ == appended(old(self)@, contributor@, payload@),
            r is Err ==> final(self)@ == old(self)@,
            r is Err ==> r->Err_0 == (if observed != tip_number(old(self)@) {
                LedgerError::Conflict
            } else {
                LedgerError::Full
            }),
    {
        let n = self.slots.len();
        if observed != (n - 1) as u64 {
            return Err(LedgerError::Conflict);
        }
        if n == usize::MAX {
            return Err(LedgerError::Full);
        }
        let slot = Slot { slot_number: n as u64, is_root: false, payload, contributor: Some(contributor) };
        proof {
            assert(slot@.slot_number == n);
        }
        self.slots.push(slot);
        proof {
            assert(self@ =~= appended(old(self)@, contributor@, payload@));
            lemma_append_wf(old(self)@, contributor@, payload@);
        }
        Ok(n as u64)
    }

    /// Where the current tip comes from: the root payload while no
    /// contribution is committed, else the payload of the latest contribution,
    /// whose derived reference string is the tip.
    pub fn current_crs(&self) -> (r: TipSource<'_>)
        requires
            self.wf(),
        ensures
            r@ == tip_of(self@),
    {
        let n = self.slots.len();
        let last = &self.slots[n - 1];
        proof {
            assert(self@.last() == last@);
        }
        if last.is_root {
            TipSource::Root(&last.payload)
        } else {
            TipSource::Contribution(&last.payload)
        }
    }

    /// The payload of the slot marked as root, whatever the tip.
    pub fn root(&self) -> (r: &Vec<u8>)
        requires
            self.wf(),
        ensures
            r@ == self@[0].payload,
            self@[0].is_root,
    {
        proof {
            assert(slot_ok(self@, 0));
        }
        &self.slots[0].payload
    }

    /// All slots, in slot order, as they are to be persisted.
    pub fn rows(&self) -> (r: &Vec<Slot>)
        ensures
            rows_view(r@) == self@,
    {
        &self.slots
    }

    /// The slot numbered `n`.
    pub fn slot(&self, n: u64) -> (r: Option<&Slot>)
        requires
            self.wf(),
        ensures
            n < self@.len() <==> r is Some,
            r is Some ==> r->Some_0@ == self@[n as int],
    {
        if n < self.slots.len() as u64 {
            Some(&self.slots[n as usize])
        } else {
            None
        }
    }

    /// Whether `address` is recorded as the contributor of some slot.
    pub fn has_contributed(&self, address: &Vec<u8>) -> (r: bool)
        requires
            self.wf(),
        ensures
            r <==> contributed(self@, address@),
    {
        let mut i: usize = 0;
        while i < self.slots.len()
            invariant
                0 <= i <= self.slots@.len(),
                self@.len() == self.slots@.len(),
                forall|j: int| 0 <= j < i ==> self@[j].contributor != Some(address@),
            decreases self.slots@.len() - i,
        {
            let found = match &self.slots[i].contributor {
                Some(c) => bytes_eq(c, address),
                None => false,
            };
            proof {
                assert(self@[i as int] == self.slots@[i as int]@);
            }
            if found {
                return true;
            }
            i += 1;
        }
        false
    }
}

/// The views of stored rows, in order.
pub open spec fn rows_view(rows: Seq<Slot>) -> Seq<SlotView> {
    rows.map_values(|s: Slot| s@)
}

/// Whether `address` is the contributor of some slot of `v`.
pub open spec fn contributed(v: Seq<SlotView>, address: Seq<u8>) -> bool {
    exists|j: int| 0 <= j < v.len() && #[trigger] v[j].contributor == Some(address)
}

/// Byte-wise equality of two byte strings.
pub fn bytes_eq(a: &Vec<u8>, b: &Vec<u8>) -> (r: bool)
    ensures
        r <==> a@ == b@,
{
    if a.len() != b.len() {
        return false;
    }
    let mut i: usize = 0;
    while i < a.len()
        invariant
            0 <= i <= a@.len(),
            a@.len() == b@.len(),
            forall|j: int| 0 <= j < i ==> a@[j] == b@[j],
        decreases a@.len() - i,
    {
        if a[i] != b[i] {
            return false;
        }
        i += 1;
    }
    proof {
        assert(a@ =~= b@);
    }
    true
}


/// The history `v` after the contributions `cs` (contributor, payload) are
/// appended in order.
pub open spec fn appended_all(v: Seq<SlotView>, cs: Seq<(Seq<u8>, Seq<u8>)>) -> Seq<SlotView>
    decreases cs.len(),
{
    if cs.len() == 0 {
        v
    } else {
        appended(appended_all(v, cs.drop_last()), cs.last().0, cs.last().1)
    }
}

/// Appending a contribution keeps a history well formed and numbers the new
/// slot one above the previous tip.
pub proof fn lemma_append_wf(v: Seq<SlotView>, contributor: Seq<u8>, payload: Seq<u8>)
    requires
        ledger_wf(v),
    ensures
        ledger_wf(appended(v, contributor, payload)),
        tip_number(appended(v, contributor, payload)) == tip_number(v) + 1,
{
    let w = appended(v, contributor, payload);
    assert forall|i: int| 0 <= i < w.len() implies #[trigger] slot_ok(w, i) by {
        if i < v.len() {
            assert(slot_ok(v, i));
        }
    }
}

/// Slot numbers are gap-free from 0 and strictly increasing along the
/// history, for every sequence of appends to a fresh ledger.
pub proof fn lemma_slots_monotonic(root: Seq<u8>, cs: Seq<(Seq<u8>, Seq<u8>)>)
    ensures
        ledger_wf(appended_all(fresh_ledger(root), cs)),
        tip_number(appended_all(fresh_ledger(root), cs)) == cs.len(),
        forall|i: int| 0 <= i < appended_all(fresh_ledger(root), cs).len()
            ==> #[trigger] appended_all(fresh_ledger(root), cs)[i].slot_number == i,
        forall|i: int, j: int| 0 <= i < j < appended_all(fresh_ledger(root), cs).len()
            ==> #[trigger] appended_all(fresh_ledger(root), cs)[i].slot_number
                < #[trigger] appended_all(fresh_ledger(root), cs)[j].slot_number,
    decreases cs.len(),
{
    let v = appended_all(fresh_ledger(root), cs);
    if cs.len() == 0 {
        assert(slot_ok(fresh_ledger(root), 0));
    } else {
        lemma_slots_monotonic(root, cs.drop_last());
        lemma_append_wf(appended_all(fresh_ledger(root), cs.drop_last()), cs.last().0, cs.last().1);
    }
    assert forall|i: int| 0 <= i < v.len() implies #[trigger] v[i].slot_number == i by {
        assert(slot_ok(v, i));
    }
    assert forall|i: int, j: int| 0 <= i < j < v.len() implies #[trigger] v[i].slot_number < #[trigger] v[j].slot_number by {
        assert(slot_ok(v, i));
        assert(slot_ok(v, j));
    }
}

/// Exactly one slot of a well-formed history is the root, and it is slot 0.
pub proof fn lemma_single_root(v: Seq<SlotView>)
    requires
        ledger_wf(v),
    ensures
        v[0].is_root,
        v[0].slot_number == 0,
        forall|i: int| 0 <= i < v.len() ==> (#[trigger] v[i].is_root <==> i == 0),
{
    assert(slot_ok(v, 0));
    assert forall|i: int| 0 <= i < v.len() implies (#[trigger] v[i].is_root <==> i == 0) by {
        assert(slot_ok(v, i));
    }
}

/// Appending any sequence of contributions keeps a history well formed and
/// moves its tip up by one slot per contribution.
pub proof fn lemma_appended_all_wf(v: Seq<SlotView>, cs: Seq<(Seq<u8>, Seq<u8>)>)
    requires
        ledger_wf(v),
    ensures
        ledger_wf(appended_all(v, cs)),
        appended_all(v, cs).len() == v.len() + cs.len(),
        appended_all(v, cs).subrange(0, v.len() as int) == v,
    decreases cs.len(),
{
    if cs.len() > 0 {
        lemma_appended_all_wf(v, cs.drop_last());
        let w = appended_all(v, cs.drop_last());
        lemma_append_wf(w, cs.last().0, cs.last().1);
        assert(appended_all(v, cs).subrange(0, v.len() as int) =~= w.subrange(0, v.len() as int));
    } else {
        assert(v.subrange(0, v.len() as int) =~= v);
    }
}

/// Of any number of contributions validated against the same tip, at most
/// one commits: once one has been appended, whatever follows, an attempt
/// against that tip fails with a conflict, while the same attempt made
/// against the current tip is accepted unless the ledger is full.
pub proof fn lemma_one_winner(v: Seq<SlotView>, observed: u64, cs: Seq<(Seq<u8>, Seq<u8>)>)
    requires
        ledger_wf(v),
        accepts(v, observed),
        cs.len() >= 1,
    ensures
        !accepts(appended_all(v, cs), observed),
        observed != tip_number(appended_all(v, cs)),
        appended_all(v, cs).len() < usize::MAX ==> accepts(
            appended_all(v, cs),
            tip_number(appended_all(v, cs)) as u64,
        ),
{
    lemma_appended_all_wf(v, cs);
}

/// The tip of a fresh ledger is its root; after a contribution is appended
/// the tip is derived from that contribution.
pub proof fn lemma_tip_derivation(v: Seq<SlotView>, root: Seq<u8>, contributor: Seq<u8>, payload: Seq<u8>)
    requires
        ledger_wf(v),
    ensures
        tip_of(fresh_ledger(root)) == TipView::Root(root),
        tip_of(appended(v, contributor, payload)) == TipView::Contribution(payload),
{
}

/// A ledger created and then given `cs` contributions, once its rows are
/// loaded again, has its tip at slot `cs.len()` and the tip it had before.
pub proof fn lemma_reload(root: Seq<u8>, cs: Seq<(Seq<u8>, Seq<u8>)>, rows: Seq<Slot>)
    requires
        rows_view(rows) == appended_all(fresh_ledger(root), cs),
    ensures
        ledger_wf(rows_view(rows)),
        tip_number(rows_view(rows)) == cs.len(),
        tip_of(rows_view(rows)) == tip_of(appended_all(fresh_ledger(root), cs)),
{
    lemma_slots_monotonic(root, cs);
}

} // verus!
