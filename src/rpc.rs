use vstd::prelude::*;

verus! {

/// A value inside a request's parameters or a response's result.
#[derive(Debug, PartialEq, Eq)]
pub enum ParamsValue {
    Int(u64),
    String(String),
    List(Vec<ParamsValue>),
    Object(Vec<(String, ParamsValue)>),
}

/// An entry list with each key seen through its characters.
pub open spec fn entries_view(entries: Seq<(String, ParamsValue)>) -> Seq<(Seq<char>, ParamsValue)> {
    entries.map_values(|e: (String, ParamsValue)| (e.0@, e.1))
}

/// No key occurs twice.
pub open spec fn keys_unique(entries: Seq<(Seq<char>, ParamsValue)>) -> bool {
    forall|i: int, j: int|
        0 <= i < j < entries.len() ==> #[trigger] entries[i].0 != #[trigger] entries[j].0
}

/// The value stored under `k`: that of the first entry with that key.
pub open spec fn lookup(entries: Seq<(Seq<char>, ParamsValue)>, k: Seq<char>) -> Option<ParamsValue>
    decreases entries.len(),
{
    if entries.len() == 0 {
        None
    } else if entries[0].0 == k {
        Some(entries[0].1)
    } else {
        lookup(entries.drop_first(), k)
    }
}

/// The entries after `k` is set to `v`: an existing entry is replaced in
/// place, a new key is appended.
pub open spec fn inserted(entries: Seq<(Seq<char>, ParamsValue)>, k: Seq<char>, v: ParamsValue) -> Seq<(Seq<char>, ParamsValue)> {
    if exists|i: int| 0 <= i < entries.len() && #[trigger] entries[i].0 == k {
        let i = choose|i: int| 0 <= i < entries.len() && #[trigger] entries[i].0 == k;
        entries.update(i, (k, v))
    } else {
        entries.push((k, v))
    }
}

/// `lookup` finds the first entry with the key.
pub proof fn lemma_lookup_first(entries: Seq<(Seq<char>, ParamsValue)>, k: Seq<char>, i: int)
    requires
        0 <= i < entries.len(),
        entries[i].0 == k,
        forall|j: int| 0 <= j < i ==> #[trigger] entries[j].0 != k,
    ensures
        lookup(entries, k) == Some(entries[i].1),
    decreases i,
{
    if i > 0 {
        assert(entries[0].0 != k);
        let rest = entries.drop_first();
        assert forall|j: int| 0 <= j < i - 1 implies #[trigger] rest[j].0 != k by {
            assert(rest[j] == entries[j + 1]);
        }
        lemma_lookup_first(rest, k, i - 1);
    }
}

/// `lookup` finds nothing when no entry has the key.
pub proof fn lemma_lookup_absent(entries: Seq<(Seq<char>, ParamsValue)>, k: Seq<char>)
    requires
        forall|j: int| 0 <= j < entries.len() ==> #[trigger] entries[j].0 != k,
    ensures
        lookup(entries, k) is None,
    decreases entries.len(),
{
    if entries.len() > 0 {
        assert(entries[0].0 != k);
        let rest = entries.drop_first();
        assert forall|j: int| 0 <= j < rest.len() implies #[trigger] rest[j].0 != k by {
            assert(rest[j] == entries[j + 1]);
        }
        lemma_lookup_absent(rest, k);
    }
}

/// Replacing an entry whose key is not `keep` leaves `keep`'s value alone.
proof fn lemma_lookup_update_other(entries: Seq<(Seq<char>, ParamsValue)>, i: int, e: (Seq<char>, ParamsValue), keep: Seq<char>)
    requires
        0 <= i < entries.len(),
        entries[i].0 != keep,
        e.0 != keep,
    ensures
        lookup(entries.update(i, e), keep) == lookup(entries, keep),
    decreases entries.len(),
{
    let n = entries.update(i, e);
    if i == 0 {
        assert(n.drop_first() =~= entries.drop_first());
    } else if entries[0].0 != keep {
        assert(n.drop_first() =~= entries.drop_first().update(i - 1, e));
        lemma_lookup_update_other(entries.drop_first(), i - 1, e, keep);
    }
}

/// Appending an entry whose key is not `keep` leaves `keep`'s value alone.
proof fn lemma_lookup_push_other(entries: Seq<(Seq<char>, ParamsValue)>, e: (Seq<char>, ParamsValue), keep: Seq<char>)
    requires
        e.0 != keep,
    ensures
        lookup(entries.push(e), keep) == lookup(entries, keep),
    decreases entries.len(),
{
    let n = entries.push(e);
    if entries.len() == 0 {
        assert(n.drop_first() =~= Seq::<(Seq<char>, ParamsValue)>::empty());
        assert(lookup(n.drop_first(), keep) is None);
    } else {
        assert(n[0] == entries[0]);
        assert(n.drop_first() =~= entries.drop_first().push(e));
        lemma_lookup_push_other(entries.drop_first(), e, keep);
    }
}

/// After `k` is set to `v`, `k` holds `v` and every other key holds what it
/// held before.
pub proof fn lemma_inserted_lookup(entries: Seq<(Seq<char>, ParamsValue)>, keep: Seq<char>, k: Seq<char>, v: ParamsValue)
    requires
        keys_unique(entries),
    ensures
        lookup(inserted(entries, k, v), k) == Some(v),
        keep != k ==> lookup(inserted(entries, k, v), keep) == lookup(entries, keep),
{
    if exists|i: int| 0 <= i < entries.len() && #[trigger] entries[i].0 == k {
        let i = choose|i: int| 0 <= i < entries.len() && #[trigger] entries[i].0 == k;
        let n = entries.update(i, (k, v));
        assert forall|j: int| 0 <= j < i implies #[trigger] n[j].0 != k by {
            assert(entries[j].0 != entries[i].0);
        }
        lemma_lookup_first(n, k, i);
        if keep != k {
            lemma_lookup_update_other(entries, i, (k, v), keep);
        }
    } else {
        let n = entries.push((k, v));
        assert forall|j: int| 0 <= j < entries.len() implies #[trigger] n[j].0 != k by {
            assert(n[j] == entries[j]);
        }
        lemma_lookup_first(n, k, entries.len() as int);
        if keep != k {
            lemma_lookup_push_other(entries, (k, v), keep);
        }
    }
}

/// Index of the first entry whose key is `k`, if any.
pub fn find_key(entries: &Vec<(String, ParamsValue)>, k: &String) -> (r: Option<usize>)
    ensures
        match r {
            Some(i) => i < entries@.len() && entries@[i as int].0@ == k@
                && forall|j: int| 0 <= j < i ==> #[trigger] entries@[j].0@ != k@,
            None => forall|j: int| 0 <= j < entries@.len() ==> #[trigger] entries@[j].0@ != k@,
        },
        r matches Some(i) ==> lookup(entries_view(entries@), k@) == Some(entries@[i as int].1),
        r is None ==> lookup(entries_view(entries@), k@) is None,
{
    let mut i: usize = 0;
    while i < entries.len()
        invariant
            i <= entries@.len(),
            forall|j: int| 0 <= j < i ==> #[trigger] entries@[j].0@ != k@,
        decreases entries@.len() - i,
    {
        if entries[i].0 == *k {
            proof {
                let ev = entries_view(entries@);
                assert forall|j: int| 0 <= j < i implies #[trigger] ev[j].0 != k@ by {
                    assert(ev[j].0 == entries@[j].0@);
                }
                lemma_lookup_first(ev, k@, i as int);
            }
            return Some(i);
        }
        i = i + 1;
    }
    proof {
        let ev = entries_view(entries@);
        assert forall|j: int| 0 <= j < ev.len() implies #[trigger] ev[j].0 != k@ by {
            assert(ev[j].0 == entries@[j].0@);
        }
        lemma_lookup_absent(ev, k@);
    }
    None
}

/// The parameters of one outbound call: an ordered list of entries whose keys
/// are unique.
#[derive(Debug, PartialEq, Eq)]
pub struct JsonRpcParams {
    entries: Vec<(String, ParamsValue)>,
}

impl View for JsonRpcParams {
    type V = Seq<(Seq<char>, ParamsValue)>;

    closed spec fn view(&self) -> Seq<(Seq<char>, ParamsValue)> {
        entries_view(self.entries@)
    }
}

impl JsonRpcParams {
    #[verifier::type_invariant]
    spec fn inv(self) -> bool {
        keys_unique(entries_view(self.entries@))
    }

    /// Parameters holding only the protocol version, `"jsonrpc": "2.0"`.
    pub fn new() -> (r: Self)
        ensures
            r@.len() == 1,
            r@[0].0 == "jsonrpc"@,
            r@[0].1 matches ParamsValue::String(v) && v@ == "2.0"@,
            keys_unique(r@),
    {
        let mut entries: Vec<(String, ParamsValue)> = Vec::new();
        entries.push((String::from_str("jsonrpc"), ParamsValue::String(String::from_str("2.0"))));
        JsonRpcParams { entries }
    }

    /// Sets `key` to `value`: an existing entry keeps its place, a new key goes
    /// last.
    pub fn insert(self, key: String, value: ParamsValue) -> (r: Self)
        ensures
            r@ == inserted(self@, key@, value),
            keys_unique(r@),
    {
        proof {
            use_type_invariant(&self);
        }
        let mut entries = self.entries;
        match find_key(&entries, &key) {
            Some(i) => {
                let ghost old_view = entries_view(entries@);
                proof {
                    assert(old_view[i as int].0 == key@);
                    let c = choose|j: int| 0 <= j < old_view.len() && #[trigger] old_view[j].0 == key@;
                    assert(c == i as int);
                }
                entries.set(i, (key, value));
                assert(entries_view(entries@) =~= old_view.update(i as int, (key@, value)));
                JsonRpcParams { entries }
            },
            None => {
                let ghost old_view = entries_view(entries@);
                proof {
                    assert forall|j: int| 0 <= j < old_view.len() implies #[trigger] old_view[j].0 != key@ by {
                        assert(old_view[j].0 == entries@[j].0@);
                    }
                }
                entries.push((key, value));
                assert(entries_view(entries@) =~= old_view.push((key@, value)));
                JsonRpcParams { entries }
            },
        }
    }

    /// The entries, in order.
    pub fn entries(&self) -> (r: &Vec<(String, ParamsValue)>)
        ensures
            entries_view(r@) == self@,
            keys_unique(self@),
    {
        proof {
            use_type_invariant(self);
        }
        &self.entries
    }
}

/// The error object of a failed call.
#[derive(Debug, PartialEq, Eq)]
pub struct RpcError {
    pub code: i64,
    pub message: String,
}

/// What a node answered: a result, or an error.
#[derive(Debug, PartialEq, Eq)]
pub enum ResponseBody {
    Success(ParamsValue),
    Failure(RpcError),
}

/// One node's answer to one call.
#[derive(Debug, PartialEq, Eq)]
pub struct JsonRpcResponse {
    pub id: u64,
    pub body: ResponseBody,
}

impl JsonRpcResponse {
    /// The result, when the call succeeded.
    pub fn result(&self) -> (r: Option<&ParamsValue>)
        ensures
            match self.body {
                ResponseBody::Success(v) => r == Some(&v),
                ResponseBody::Failure(_) => r is None,
            },
    {
        match &self.body {
            ResponseBody::Success(v) => Some(v),
            ResponseBody::Failure(_) => None,
        }
    }
}

} // verus!
