use vstd::prelude::*;
use vstd::string::{StrSliceExecFns, StringExecFns};
use crate::principal::Principal;
use crate::url::{is_url, url_valid};

verus! {

/// A typed, possibly nested, attribute value of a record.
#[derive(Debug)]
pub enum DetailValue {
    True,
    False,
    U64(u64),
    I64(i64),
    /// The IEEE-754 bit pattern of a 64-bit float.
    Float(u64),
    Text(String),
    Principal(Principal),
    Slice(Vec<u8>),
    Vec(Vec<DetailValue>),
}

/// The descriptor stored for one registered canister.
#[derive(Debug)]
pub struct NftCanister {
    pub name: String,
    pub description: String,
    pub thumbnail: String,
    pub frontend: Option<String>,
    pub principal_id: Principal,
    pub details: Vec<(String, DetailValue)>,
}

/// The failures an operation reports.
#[derive(Debug)]
pub enum OperationError {
    NotAuthorized,
    NonExistentItem,
    BadParameters,
    Unknown(String),
}

/// The single identity allowed to change the registry.
#[derive(Debug)]
pub struct Controller(pub Principal);

/// Whether the keys of a list of pairs are pairwise distinct.
pub open spec fn keys_unique(s: Seq<(Principal, NftCanister)>) -> bool {
    forall|i: int, j: int|
        0 <= i < s.len() && 0 <= j < s.len() && i != j ==> s[i].0@ != s[j].0@
}

/// The map obtained by inserting the pairs one after another, a later pair
/// replacing an earlier one with the same key.
pub open spec fn pairs_map(s: Seq<(Principal, NftCanister)>) -> Map<Seq<u8>, NftCanister>
    decreases s.len(),
{
    if s.len() == 0 {
        Map::empty()
    } else {
        pairs_map(s.drop_last()).insert(s.last().0@, s.last().1)
    }
}

proof fn lemma_pairs_map_dom(s: Seq<(Principal, NftCanister)>, k: Seq<u8>)
    ensures
        pairs_map(s).contains_key(k) <==> exists|i: int| 0 <= i < s.len() && s[i].0@ == k,
    decreases s.len(),
{
    if s.len() > 0 {
        let d = s.drop_last();
        lemma_pairs_map_dom(d, k);
        if pairs_map(s).contains_key(k) && k != s.last().0@ {
            let i = choose|i: int| 0 <= i < d.len() && d[i].0@ == k;
            assert(s[i] == d[i]);
        }
        if exists|i: int| 0 <= i < s.len() && s[i].0@ == k {
            let i = choose|i: int| 0 <= i < s.len() && s[i].0@ == k;
            if i < s.len() - 1 {
                assert(d[i] == s[i]);
            }
        }
    }
}

proof fn lemma_pairs_map_index(s: Seq<(Principal, NftCanister)>, i: int)
    requires
        keys_unique(s),
        0 <= i < s.len(),
    ensures
        pairs_map(s).contains_key(s[i].0@),
        pairs_map(s)[s[i].0@] == s[i].1,
    decreases s.len(),
{
    let d = s.drop_last();
    if i < s.len() - 1 {
        assert(d[i] == s[i]);
        lemma_pairs_map_index(d, i);
    }
}

proof fn lemma_pairs_map_update(s: Seq<(Principal, NftCanister)>, i: int, e: (Principal, NftCanister))
    requires
        keys_unique(s),
        0 <= i < s.len(),
        e.0@ == s[i].0@,
    ensures
        keys_unique(s.update(i, e)),
        pairs_map(s.update(i, e)) == pairs_map(s).insert(e.0@, e.1),
    decreases s.len(),
{
    let t = s.update(i, e);
    let d = s.drop_last();
    assert(keys_unique(t));
    if i == s.len() - 1 {
        assert(t.drop_last() =~= d);
        assert(pairs_map(t) =~= pairs_map(s).insert(e.0@, e.1));
    } else {
        assert(t.drop_last() =~= d.update(i, e));
        assert(keys_unique(d));
        lemma_pairs_map_update(d, i, e);
        assert(s[i].0@ != s.last().0@);
        assert(pairs_map(t) =~= pairs_map(s).insert(e.0@, e.1));
    }
}

proof fn lemma_pairs_map_remove(s: Seq<(Principal, NftCanister)>, i: int)
    requires
        keys_unique(s),
        0 <= i < s.len(),
    ensures
        keys_unique(s.remove(i)),
        pairs_map(s.remove(i)) == pairs_map(s).remove(s[i].0@),
    decreases s.len(),
{
    let t = s.remove(i);
    let d = s.drop_last();
    assert(keys_unique(t)) by {
        assert forall|a: int, b: int|
            0 <= a < t.len() && 0 <= b < t.len() && a != b implies t[a].0@ != t[b].0@ by {
            let a2 = if a < i { a } else { a + 1 };
            let b2 = if b < i { b } else { b + 1 };
            assert(t[a] == s[a2]);
            assert(t[b] == s[b2]);
        }
    }
    assert(keys_unique(d));
    if i == s.len() - 1 {
        assert(t =~= d);
        lemma_pairs_map_dom(d, s.last().0@);
        if pairs_map(d).contains_key(s.last().0@) {
            let j = choose|j: int| 0 <= j < d.len() && d[j].0@ == s.last().0@;
            assert(d[j] == s[j]);
        }
        assert(pairs_map(t) =~= pairs_map(s).remove(s[i].0@));
    } else {
        assert(t.drop_last() =~= d.remove(i));
        assert(t.last() == s.last());
        lemma_pairs_map_remove(d, i);
        assert(s[i].0@ != s.last().0@);
        assert(pairs_map(t) =~= pairs_map(s).remove(s[i].0@));
    }
}

/// `r` lists the values of `m` once for each key, by the keys `ks` in turn.
pub open spec fn lists_values_by(
    r: Seq<&NftCanister>,
    m: Map<Seq<u8>, NftCanister>,
    ks: Seq<Seq<u8>>,
) -> bool {
    &&& ks.no_duplicates()
    &&& ks.to_set() == m.dom()
    &&& r.len() == ks.len()
    &&& forall|j: int| 0 <= j < r.len() ==> *r[j] == m[ks[j]]
}

/// `r` lists the values of `m` once for each key, in some order.
pub open spec fn lists_values(r: Seq<&NftCanister>, m: Map<Seq<u8>, NftCanister>) -> bool {
    exists|ks: Seq<Seq<u8>>| lists_values_by(r, m, ks)
}

/// The identifier → record store.
pub struct Registry {
    entries: Vec<(Principal, NftCanister)>,
}

impl View for Registry {
    type V = Map<Seq<u8>, NftCanister>;

    closed spec fn view(&self) -> Map<Seq<u8>, NftCanister> {
        pairs_map(self.entries@)
    }
}

impl Registry {
    /// Keys are stored at most once.
    pub closed spec fn wf(&self) -> bool {
        keys_unique(self.entries@)
    }

    /// An empty registry.
    pub fn new() -> (r: Registry)
        ensures
            r.wf(),
            r@ == Map::<Seq<u8>, NftCanister>::empty(),
    {
        Registry { entries: Vec::new() }
    }

    /// The position of the entry with the given key, if there is one.
    fn find(&self, key: &Principal) -> (r: Option<usize>)
        requires
            self.wf(),
        ensures
            match r {
                Some(i) => i < self.entries@.len() && self.entries@[i as int].0@ == key@,
                None => !self@.contains_key(key@),
            },
    {
        let n = self.entries.len();
        let mut i: usize = 0;
        while i < n
            invariant
                n == self.entries@.len(),
                i <= n,
                forall|j: int| 0 <= j < i ==> self.entries@[j].0@ != key@,
            decreases n - i,
        {
            if self.entries[i].0.same_as(key) {
                return Some(i);
            }
            i = i + 1;
        }
        proof {
            lemma_pairs_map_dom(self.entries@, key@);
        }
        None
    }

    /// Whether the registry holds no record.
    pub fn is_empty(&self) -> (r: bool)
        requires
            self.wf(),
        ensures
            r == (self@ == Map::<Seq<u8>, NftCanister>::empty()),
    {
        proof {
            if self.entries@.len() > 0 {
                lemma_pairs_map_index(self.entries@, 0);
            } else {
                assert(self@ =~= Map::<Seq<u8>, NftCanister>::empty());
            }
        }
        self.entries.len() == 0
    }

    /// Stores a record under its own identifier, replacing any record stored there.
    pub fn add(&mut self, canister_info: NftCanister) -> (r: Result<(), OperationError>)
        requires
            old(self).wf(),
        ensures
            final(self).wf(),
            r == Ok::<(), OperationError>(()),
            final(self)@ == old(self)@.insert(canister_info.principal_id@, canister_info),
    {
        let key = canister_info.principal_id.duplicate();
        self.upsert(key, canister_info);
        Ok(())
    }

    /// Removes the record stored under `principal_id`.
    pub fn remove(&mut self, principal_id: &Principal) -> (r: Result<(), OperationError>)
        requires
            old(self).wf(),
        ensures
            final(self).wf(),
            old(self)@.contains_key(principal_id@) ==> r is Ok
                && final(self)@ == old(self)@.remove(principal_id@),
            !old(self)@.contains_key(principal_id@) ==> r == Err::<(), OperationError>(
                OperationError::NonExistentItem,
            ) && final(self)@ == old(self)@,
    {
        match self.find(principal_id) {
            Some(i) => {
                proof {
                    lemma_pairs_map_index(self.entries@, i as int);
                    lemma_pairs_map_remove(self.entries@, i as int);
                }
                self.entries.remove(i);
                Ok(())
            },
            None => Err(OperationError::NonExistentItem),
        }
    }

    /// The record stored under `principal_id`, if any.
    pub fn get(&self, principal_id: &Principal) -> (r: Option<&NftCanister>)
        requires
            self.wf(),
        ensures
            match r {
                Some(v) => self@.contains_key(principal_id@) && *v == self@[principal_id@],
                None => !self@.contains_key(principal_id@),
            },
    {
        match self.find(principal_id) {
            Some(i) => {
                proof {
                    lemma_pairs_map_index(self.entries@, i as int);
                }
                Some(&self.entries[i].1)
            },
            None => None,
        }
    }

    /// Every stored record, in no particular order.
    pub fn get_all(&self) -> (r: Vec<&NftCanister>)
        requires
            self.wf(),
        ensures
            lists_values(r@, self@),
    {
        let n = self.entries.len();
        let mut r: Vec<&NftCanister> = Vec::new();
        let mut i: usize = 0;
        while i < n
            invariant
                n == self.entries@.len(),
                i <= n,
                r@.len() == i,
                forall|j: int| 0 <= j < i ==> *r@[j] == self.entries@[j].1,
            decreases n - i,
        {
            r.push(&self.entries[i].1);
            i = i + 1;
        }
        proof {
            let s = self.entries@;
            let ks = s.map_values(|e: (Principal, NftCanister)| e.0@);
            assert forall|a: int, b: int| 0 <= a < ks.len() && 0 <= b < ks.len() && a != b
                implies ks[a] != ks[b] by {}
            assert forall|k: Seq<u8>| ks.to_set().contains(k) <==> self@.contains_key(k) by {
                lemma_pairs_map_dom(s, k);
                if self@.contains_key(k) {
                    let j = choose|j: int| 0 <= j < s.len() && s[j].0@ == k;
                    assert(ks[j] == k);
                }
            }
            assert(ks.to_set() =~= self@.dom());
            assert forall|j: int| 0 <= j < r@.len() implies *r@[j] == self@[ks[j]] by {
                lemma_pairs_map_index(s, j);
            }
            assert(lists_values_by(r@, self@, ks));
        }
        r
    }

    /// Empties the registry and hands back its former contents as pairs.
    pub fn archive(&mut self) -> (r: Vec<(Principal, NftCanister)>)
        requires
            old(self).wf(),
        ensures
            final(self).wf(),
            final(self)@ == Map::<Seq<u8>, NftCanister>::empty(),
            keys_unique(r@),
            pairs_map(r@) == old(self)@,
    {
        let mut map: Vec<(Principal, NftCanister)> = Vec::new();
        std::mem::swap(&mut self.entries, &mut map);
        map
    }

    /// Fills an empty registry with the given pairs, a later pair replacing an
    /// earlier one with the same key.
    pub fn load(&mut self, archive: Vec<(Principal, NftCanister)>)
        requires
            old(self).wf(),
            old(self)@ == Map::<Seq<u8>, NftCanister>::empty(),
        ensures
            final(self).wf(),
            final(self)@ == pairs_map(archive@),
    {
        let ghost pairs = archive@;
        let mut rest = archive;
        assert(pairs.take(0) =~= Seq::<(Principal, NftCanister)>::empty());
        while rest.len() > 0
            invariant
                self.wf(),
                rest@.len() <= pairs.len(),
                rest@ == pairs.skip(pairs.len() - rest@.len()),
                self@ == pairs_map(pairs.take(pairs.len() - rest@.len())),
            decreases rest@.len(),
        {
            let ghost done = pairs.len() - rest@.len();
            let (key, value) = rest.remove(0);
            assert(rest@ =~= pairs.skip(done + 1));
            assert(pairs.take(done + 1).drop_last() =~= pairs.take(done));
            self.upsert(key, value);
        }
        assert(pairs.take(pairs.len() as int) =~= pairs);
    }

    /// Stores `value` under `key`, replacing what was stored there.
    fn upsert(&mut self, key: Principal, value: NftCanister)
        requires
            old(self).wf(),
        ensures
            final(self).wf(),
            final(self)@ == old(self)@.insert(key@, value),
    {
        match self.find(&key) {
            Some(i) => {
                proof {
                    lemma_pairs_map_update(self.entries@, i as int, (key, value));
                }
                self.entries.set(i, (key, value));
            },
            None => {
                proof {
                    lemma_pairs_map_dom(self.entries@, key@);
                }
                self.entries.push((key, value));
                assert(self.entries@.drop_last() =~= old(self).entries@);
            },
        }
    }
}

impl Default for Registry {
    fn default() -> (r: Registry)
        ensures
            r.wf(),
            r@ == Map::<Seq<u8>, NftCanister>::empty(),
    {
        Registry::new()
    }
}

/// The characters of the one attribute key a record may carry.
pub open spec fn standard_key() -> Seq<char> {
    seq!['s', 't', 'a', 'n', 'd', 'a', 'r', 'd']
}

/// Whether a record meets the field rules, given whether its thumbnail and
/// its frontend (when present) are valid URLs.
pub open spec fn fields_ok(c: NftCanister, thumbnail_ok: bool, frontend_ok: bool) -> bool {
    &&& thumbnail_ok
    &&& frontend_ok
    &&& c.details@.len() == 1
    &&& c.details@[0].0@ == standard_key()
    &&& c.name@.len() <= 120
    &&& c.description@.len() <= 1200
}

/// Whether the frontend of a record, when present, is a valid URL.
pub open spec fn frontend_valid(c: NftCanister) -> bool {
    match c.frontend {
        Some(f) => url_valid(f@),
        None => true,
    }
}

/// Whether a record may enter the registry.
pub open spec fn record_valid(c: NftCanister) -> bool {
    fields_ok(c, url_valid(c.thumbnail@), frontend_valid(c))
}

/// What a call of `add` by `caller` returns under `controller`.
pub open spec fn add_outcome(controller: Seq<u8>, caller: Seq<u8>, c: NftCanister) -> Result<
    (),
    OperationError,
> {
    if caller != controller {
        Err(OperationError::NotAuthorized)
    } else if !record_valid(c) {
        Err(OperationError::BadParameters)
    } else {
        Ok(())
    }
}

/// Whether `key` is the standard attribute key.
fn is_standard_key(key: &String) -> (r: bool)
    ensures
        r == (key@ == standard_key()),
{
    let k = key.as_str();
    if k.unicode_len() != 8 {
        return false;
    }
    let r = k.get_char(0) == 's' && k.get_char(1) == 't' && k.get_char(2) == 'a'
        && k.get_char(3) == 'n' && k.get_char(4) == 'd' && k.get_char(5) == 'a'
        && k.get_char(6) == 'r' && k.get_char(7) == 'd';
    proof {
        if r {
            assert(k@ =~= standard_key());
        } else if key@ == standard_key() {
            assert(k@[0] == 's' && k@[1] == 't' && k@[2] == 'a' && k@[3] == 'n');
            assert(k@[4] == 'd' && k@[5] == 'a' && k@[6] == 'r' && k@[7] == 'd');
        }
    }
    r
}

/// Applies the field rules to a record, given whether its thumbnail and its
/// frontend (when present) are valid URLs.
pub fn check_fields(canister_info: &NftCanister, thumbnail_ok: bool, frontend_ok: bool) -> (r: Result<
    (),
    OperationError,
>)
    ensures
        fields_ok(*canister_info, thumbnail_ok, frontend_ok) ==> r is Ok,
        !fields_ok(*canister_info, thumbnail_ok, frontend_ok) ==> r == Err::<(), OperationError>(
            OperationError::BadParameters,
        ),
{
    if !thumbnail_ok || !frontend_ok {
        return Err(OperationError::BadParameters);
    }
    if canister_info.details.len() != 1 || !is_standard_key(&canister_info.details[0].0) {
        return Err(OperationError::BadParameters);
    }
    if canister_info.name.as_str().unicode_len() > 120 {
        return Err(OperationError::BadParameters);
    }
    if canister_info.description.as_str().unicode_len() > 1200 {
        return Err(OperationError::BadParameters);
    }
    Ok(())
}

/// Checks a record against the rules for entering the registry.
pub fn validate(canister_info: &NftCanister) -> (r: Result<(), OperationError>)
    ensures
        record_valid(*canister_info) ==> r is Ok,
        !record_valid(*canister_info) ==> r == Err::<(), OperationError>(
            OperationError::BadParameters,
        ),
{
    let thumbnail_ok = is_url(canister_info.thumbnail.as_str());
    if !thumbnail_ok {
        return Err(OperationError::BadParameters);
    }
    let frontend_ok = match &canister_info.frontend {
        Some(f) => is_url(f.as_str()),
        None => true,
    };
    check_fields(canister_info, thumbnail_ok, frontend_ok)
}

/// Makes `caller` the controller.
pub fn init(caller: Principal) -> (r: Controller)
    ensures
        r.0@ == caller@,
{
    Controller(caller)
}

/// Whether `account` is the current controller.
pub fn is_controller(controller: &Controller, account: &Principal) -> (r: bool)
    ensures
        r == (account@ == controller.0@),
{
    account.same_as(&controller.0)
}

/// Hands control to `new_controller`, if `caller` holds it now.
pub fn set_controller(controller: &mut Controller, caller: &Principal, new_controller: Principal) -> (r:
    Result<(), OperationError>)
    ensures
        caller@ == old(controller).0@ ==> r is Ok && final(controller).0@ == new_controller@,
        caller@ != old(controller).0@ ==> r == Err::<(), OperationError>(
            OperationError::NotAuthorized,
        ) && *final(controller) == *old(controller),
{
    if is_controller(controller, caller) {
        *controller = Controller(new_controller);
        return Ok(());
    }
    Err(OperationError::NotAuthorized)
}

/// Adds a record on behalf of `caller`: the caller must be the controller and
/// the record must be valid.
pub fn add(controller: &Controller, registry: &mut Registry, caller: &Principal, canister_info: NftCanister) -> (r:
    Result<(), OperationError>)
    requires
        old(registry).wf(),
    ensures
        final(registry).wf(),
        r == add_outcome(controller.0@, caller@, canister_info),
        r is Ok ==> final(registry)@ == old(registry)@.insert(
            canister_info.principal_id@,
            canister_info,
        ),
        r is Err ==> final(registry)@ == old(registry)@,
{
    if !is_controller(controller, caller) {
        return Err(OperationError::NotAuthorized);
    }
    match validate(&canister_info) {
        Ok(()) => registry.add(canister_info),
        Err(e) => Err(e),
    }
}

/// Removes a record on behalf of `caller`, who must be the controller.
pub fn remove(controller: &Controller, registry: &mut Registry, caller: &Principal, principal_id: &Principal) -> (r:
    Result<(), OperationError>)
    requires
        old(registry).wf(),
    ensures
        final(registry).wf(),
        caller@ != controller.0@ ==> r == Err::<(), OperationError>(
            OperationError::NotAuthorized,
        ) && final(registry)@ == old(registry)@,
        caller@ == controller.0@ && old(registry)@.contains_key(principal_id@) ==> r is Ok
            && final(registry)@ == old(registry)@.remove(principal_id@),
        caller@ == controller.0@ && !old(registry)@.contains_key(principal_id@) ==> r == Err::<
            (),
            OperationError,
        >(OperationError::NonExistentItem) && final(registry)@ == old(registry)@,
{
    if !is_controller(controller, caller) {
        return Err(OperationError::NotAuthorized);
    }
    registry.remove(principal_id)
}

/// The record registered under `principal_id`, if any; open to every caller.
pub fn get<'a>(registry: &'a Registry, principal_id: &Principal) -> (r: Option<&'a NftCanister>)
    requires
        registry.wf(),
    ensures
        match r {
            Some(v) => registry@.contains_key(principal_id@) && *v == registry@[principal_id@],
            None => !registry@.contains_key(principal_id@),
        },
{
    registry.get(principal_id)
}

/// Every registered record, in no particular order; open to every caller.
pub fn get_all(registry: &Registry) -> (r: Vec<&NftCanister>)
    requires
        registry.wf(),
    ensures
        lists_values(r@, registry@),
{
    registry.get_all()
}

/// The name of the registry service.
pub fn name() -> (r: String)
    ensures
        r@ == "NFT Registry Canister"@,
{
    String::from_str("NFT Registry Canister")
}

} // verus!
