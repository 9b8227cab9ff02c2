use vstd::prelude::*;

verus! {

/// A JSON value as the configuration document holds it.
#[derive(Debug, PartialEq)]
pub enum Json {
    Null,
    Bool(bool),
    /// A number, kept as its JSON text.
    Number(String),
    Str(String),
    Array(Vec<Json>),
    /// Members in document order.
    Object(Vec<(String, Json)>),
}

/// Mathematical model of a JSON value.
pub enum JValue {
    Null,
    Bool(bool),
    Number(Seq<char>),
    Str(Seq<char>),
    Array(Seq<JValue>),
    Object(Seq<(Seq<char>, JValue)>),
}

impl Json {
    pub open spec fn view(self) -> JValue
        decreases self,
    {
        match self {
            Json::Null => JValue::Null,
            Json::Bool(b) => JValue::Bool(b),
            Json::Number(n) => JValue::Number(n@),
            Json::Str(s) => JValue::Str(s@),
            Json::Array(items) => JValue::Array(
                Seq::new(items@.len(), |i: int| if 0 <= i < items@.len() { items@[i].view() } else { JValue::Null }),
            ),
            Json::Object(members) => JValue::Object(
                Seq::new(members@.len(), |i: int| if 0 <= i < members@.len() {
                    (members@[i].0@, members@[i].1.view())
                } else {
                    (Seq::empty(), JValue::Null)
                }),
            ),
        }
    }
}


pub open spec fn items_view(items: Seq<Json>) -> Seq<JValue> {
    Seq::new(items.len(), |i: int| items[i].view())
}

pub open spec fn members_view(members: Seq<(String, Json)>) -> Seq<(Seq<char>, JValue)> {
    Seq::new(members.len(), |i: int| (members[i].0@, members[i].1.view()))
}

/// The array's items in the model.
pub proof fn lemma_array_view(items: Vec<Json>)
    ensures
        Json::Array(items)@ == JValue::Array(items_view(items@)),
{
    assert(Json::Array(items)@->Array_0 =~= items_view(items@));
}

/// The object's members in the model.
pub proof fn lemma_object_view(members: Vec<(String, Json)>)
    ensures
        Json::Object(members)@ == JValue::Object(members_view(members@)),
{
    assert(Json::Object(members)@->Object_0 =~= members_view(members@));
}

/// `j` is the first position of key `k` among the members `m`.
pub open spec fn is_first_member(m: Seq<(Seq<char>, JValue)>, k: Seq<char>, j: int) -> bool {
    &&& 0 <= j < m.len()
    &&& m[j].0 == k
    &&& forall|t: int| 0 <= t < j ==> m[t].0 != k
}

pub open spec fn has_member(m: Seq<(Seq<char>, JValue)>, k: Seq<char>) -> bool {
    exists|t: int| 0 <= t < m.len() && m[t].0 == k
}

/// Position of the first member with key `k`, or -1 where there is none.
pub open spec fn member_index(m: Seq<(Seq<char>, JValue)>, k: Seq<char>) -> int {
    if has_member(m, k) {
        choose|j: int| is_first_member(m, k, j)
    } else {
        -1
    }
}

/// The value under key `k`: that of its first member.
pub open spec fn lookup(m: Seq<(Seq<char>, JValue)>, k: Seq<char>) -> Option<JValue> {
    if has_member(m, k) {
        Some(m[member_index(m, k)].1)
    } else {
        None
    }
}

/// No key occurs twice among the members.
pub open spec fn keys_unique(m: Seq<(Seq<char>, JValue)>) -> bool {
    forall|i: int, j: int| 0 <= i < m.len() && 0 <= j < m.len() && i != j ==> m[i].0 != m[j].0
}

/// Deep merge of `b` into `a`: two objects merge member by member, in the
/// order of `b`'s members; anything else is replaced by `b`.
pub open spec fn merge_value(a: JValue, b: JValue) -> JValue
    decreases b,
{
    match a {
        JValue::Object(am) => match b {
            JValue::Object(bm) => JValue::Object(merge_members(am, bm)),
            _ => b,
        },
        _ => b,
    }
}

/// Folds the members `bm` into the members `am`: a key already present has
/// its value merged in place, a new key is appended.
pub open spec fn merge_members(am: Seq<(Seq<char>, JValue)>, bm: Seq<(Seq<char>, JValue)>) -> Seq<(Seq<char>, JValue)>
    decreases bm,
{
    if bm.len() == 0 {
        am
    } else {
        let acc = merge_members(am, bm.drop_last());
        let k = bm.last().0;
        let j = member_index(acc, k);
        if j >= 0 {
            acc.update(j, (k, merge_value(acc[j].1, bm.last().1)))
        } else {
            acc.push(bm.last())
        }
    }
}


/// Position of the first member whose key is `k`.
pub fn find_member(members: &Vec<(String, Json)>, k: &String) -> (r: Option<usize>)
    ensures
        r is Some ==> is_first_member(members_view(members@), k@, r->0 as int),
        r is Some <==> has_member(members_view(members@), k@),
        r is Some ==> member_index(members_view(members@), k@) == r->0 as int,
        r is None ==> member_index(members_view(members@), k@) == -1,
{
    let ghost mv = members_view(members@);
    let mut i: usize = 0;
    while i < members.len()
        invariant
            i <= members.len(),
            mv == members_view(members@),
            forall|t: int| 0 <= t < i ==> mv[t].0 != k@,
        decreases members.len() - i,
    {
        if members[i].0 == *k {
            proof {
                assert(is_first_member(mv, k@, i as int));
                let c = choose|j: int| is_first_member(mv, k@, j);
                assert(is_first_member(mv, k@, c));
                assert(c == i as int);
            }
            return Some(i);
        }
        i = i + 1;
    }
    None
}

impl Json {
    /// A value equal to this one.
    pub fn deep_copy(&self) -> (r: Json)
        ensures
            r@ == self@,
        decreases self,
    {
        match self {
            Json::Null => Json::Null,
            Json::Bool(b) => Json::Bool(*b),
            Json::Number(n) => Json::Number(n.clone()),
            Json::Str(t) => Json::Str(t.clone()),
            Json::Array(items) => {
                let mut out: Vec<Json> = Vec::new();
                let mut i: usize = 0;
                while i < items.len()
                    invariant
                        i <= items.len(),
                        out.len() == i,
                        *self == Json::Array(*items),
                        items_view(out@) =~= items_view(items@).subrange(0, i as int),
                    decreases items.len() - i,
                {
                    proof {
                        assert(decreases_to!(*self => (*self)->Array_0));
                        assert(decreases_to!(*items => items@));
                        assert(decreases_to!(items@ => items@[i as int]));
                    }
                    let c = items[i].deep_copy();
                    let ghost prev = out@;
                    out.push(c);
                    assert(out@[i as int]@ == items@[i as int]@);
                    assert(forall|t: int| 0 <= t < i ==> out@[t] == prev[t]);
                    i = i + 1;
                    assert(items_view(out@) =~= items_view(items@).subrange(0, i as int));
                }
                proof {
                    assert(items_view(out@) =~= items_view(items@));
                    lemma_array_view(out);
                    lemma_array_view(*items);
                }
                Json::Array(out)
            },
            Json::Object(members) => {
                let mut out: Vec<(String, Json)> = Vec::new();
                let mut i: usize = 0;
                while i < members.len()
                    invariant
                        i <= members.len(),
                        out.len() == i,
                        *self == Json::Object(*members),
                        members_view(out@) =~= members_view(members@).subrange(0, i as int),
                    decreases members.len() - i,
                {
                    proof {
                        assert(decreases_to!(*self => (*self)->Object_0));
                        assert(decreases_to!(*members => members@));
                        assert(decreases_to!(members@ => members@[i as int]));
                        assert(decreases_to!(members@[i as int] => members@[i as int].1));
                    }
                    let c = members[i].1.deep_copy();
                    let ghost prev = out@;
                    out.push((members[i].0.clone(), c));
                    assert(forall|t: int| 0 <= t < i ==> out@[t] == prev[t]);
                    i = i + 1;
                    assert(members_view(out@) =~= members_view(members@).subrange(0, i as int));
                }
                proof {
                    assert(members_view(out@) =~= members_view(members@));
                    lemma_object_view(out);
                    lemma_object_view(*members);
                }
                Json::Object(out)
            },
        }
    }
}


/// Deep merge of `b` into `a`: where both are objects, `b`'s members are
/// merged into `a`'s one by one; otherwise `b` replaces `a`.
pub fn merge(a: Json, b: &Json) -> (r: Json)
    ensures
        r@ == merge_value(a@, b@),
    decreases b,
{
    match a {
        Json::Object(am) => match b {
            Json::Object(bm) => {
                proof {
                    lemma_object_view(am);
                    lemma_object_view(*bm);
                }
                let ghost a0 = members_view(am@);
                let ghost b0 = members_view(bm@);
                let mut acc = am;
                let mut i: usize = 0;
                while i < bm.len()
                    invariant
                        i <= bm.len(),
                        *b == Json::Object(*bm),
                        b0 == members_view(bm@),
                        members_view(acc@) == merge_members(a0, b0.subrange(0, i as int)),
                    decreases bm.len() - i,
                {
                    let ghost before = acc@;
                    let ghost mv = members_view(acc@);
                    let ghost prefix = b0.subrange(0, i as int + 1);
                    assert(prefix.drop_last() =~= b0.subrange(0, i as int));
                    assert(prefix.last() == b0[i as int]);
                    match find_member(&acc, &bm[i].0) {
                        Some(j) => {
                            let (key, cur) = acc.remove(j);
                            proof {
                                assert(decreases_to!(*b => (*b)->Object_0));
                                assert(decreases_to!(*bm => bm@));
                                assert(decreases_to!(bm@ => bm@[i as int]));
                                assert(decreases_to!(bm@[i as int] => bm@[i as int].1));
                            }
                            let m = merge(cur, &bm[i].1);
                            acc.insert(j, (key, m));
                            assert(acc@ =~= before.update(j as int, (key, m)));
                            assert(members_view(acc@) =~= mv.update(
                                j as int,
                                (b0[i as int].0, merge_value(mv[j as int].1, b0[i as int].1)),
                            ));
                        },
                        None => {
                            let v = bm[i].1.deep_copy();
                            acc.push((bm[i].0.clone(), v));
                            assert(members_view(acc@) =~= mv.push(b0[i as int]));
                        },
                    }
                    i = i + 1;
                }
                assert(b0.subrange(0, bm.len() as int) =~= b0);
                proof {
                    lemma_object_view(acc);
                }
                Json::Object(acc)
            },
            _ => b.deep_copy(),
        },
        _ => b.deep_copy(),
    }
}


/// What a merged object holds under a key, given what the two sides hold.
pub open spec fn merged_entry(x: Option<JValue>, y: Option<JValue>) -> Option<JValue> {
    match (x, y) {
        (Some(xv), Some(yv)) => Some(merge_value(xv, yv)),
        (Some(xv), None) => Some(xv),
        (None, _) => y,
    }
}

/// In members with unique keys, a key found at `t` is looked up there.
pub proof fn lemma_lookup_at(m: Seq<(Seq<char>, JValue)>, k: Seq<char>, t: int)
    requires
        keys_unique(m),
        0 <= t < m.len(),
        m[t].0 == k,
    ensures
        member_index(m, k) == t,
        lookup(m, k) == Some(m[t].1),
{
    assert(has_member(m, k));
    assert(is_first_member(m, k, t));
    let c = choose|j: int| is_first_member(m, k, j);
    assert(is_first_member(m, k, c));
}

proof fn lemma_merge_members(am: Seq<(Seq<char>, JValue)>, bm: Seq<(Seq<char>, JValue)>)
    requires
        keys_unique(am),
        keys_unique(bm),
    ensures
        keys_unique(merge_members(am, bm)),
        forall|k: Seq<char>| #[trigger] lookup(merge_members(am, bm), k)
            == merged_entry(lookup(am, k), lookup(bm, k)),
    decreases bm.len(),
{
    if bm.len() > 0 {
        let bp = bm.drop_last();
        assert(keys_unique(bp));
        lemma_merge_members(am, bp);
        let acc = merge_members(am, bp);
        let k0 = bm.last().0;
        let v0 = bm.last().1;
        let j = member_index(acc, k0);
        let res = merge_members(am, bm);
        lemma_lookup_at(bm, k0, bm.len() - 1);
        assert(!has_member(bp, k0));
        if has_member(acc, k0) {
            let t = choose|t: int| 0 <= t < acc.len() && acc[t].0 == k0;
            lemma_lookup_at(acc, k0, t);
        } else {
            assert(j == -1);
        }
        assert(keys_unique(res));
        assert forall|k: Seq<char>| #[trigger] lookup(res, k) == merged_entry(lookup(am, k), lookup(bm, k)) by {
            if k == k0 {
                assert(lookup(bp, k) is None);
                assert(lookup(acc, k) == merged_entry(lookup(am, k), lookup(bp, k)));
                if j >= 0 {
                    lemma_lookup_at(res, k, j);
                    assert(lookup(acc, k) == Some(acc[j].1));
                } else {
                    lemma_lookup_at(res, k, res.len() - 1);
                    assert(lookup(acc, k) is None);
                }
            } else {
                if has_member(bm, k) {
                    let t = choose|t: int| 0 <= t < bm.len() && bm[t].0 == k;
                    lemma_lookup_at(bm, k, t);
                    lemma_lookup_at(bp, k, t);
                } else {
                    assert(!has_member(bp, k));
                }
                if has_member(acc, k) {
                    let t = choose|t: int| 0 <= t < acc.len() && acc[t].0 == k;
                    lemma_lookup_at(acc, k, t);
                    lemma_lookup_at(res, k, t);
                } else {
                    assert(!has_member(res, k));
                }
                assert(lookup(acc, k) == merged_entry(lookup(am, k), lookup(bp, k)));
                assert(lookup(bm, k) == lookup(bp, k));
                assert(lookup(res, k) == lookup(acc, k));
            }
        }
    }
}

/// Merging object `b` into object `a` keeps every key of `a` that `b` lacks
/// with its value, inserts every key of `b` that `a` lacks, and merges the
/// values of shared keys in turn; where either of two values is not an
/// object, the merge is the second value.
pub proof fn law_merge_left_biased_additive(a: JValue, b: JValue)
    requires
        a is Object,
        b is Object,
        keys_unique(a->Object_0),
        keys_unique(b->Object_0),
    ensures
        merge_value(a, b) is Object,
        keys_unique(merge_value(a, b)->Object_0),
        forall|k: Seq<char>| #[trigger] lookup(merge_value(a, b)->Object_0, k)
            == merged_entry(lookup(a->Object_0, k), lookup(b->Object_0, k)),
        forall|x: JValue, y: JValue| !(x is Object && y is Object) ==> #[trigger] merge_value(x, y) == y,
{
    lemma_merge_members(a->Object_0, b->Object_0);
}

} // verus!
