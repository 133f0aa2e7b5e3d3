//! Navigation of a value tree along a path: `refer` reads the value a
//! path addresses, `modify` replaces it, creating missing object keys
//! on the way.
//!
//! Both operations are specified by `sp_refer` and `sp_modify`;
//! `modify` either succeeds and leaves exactly the specified tree, or
//! fails and leaves the tree untouched.

use vstd::prelude::*;
use crate::path::{Path, Step, StepView};
use crate::value::{find_key, Json, Kind, kind_of, Member, Value};

verus! {

/// The ways navigation can fail.
#[derive(Clone, Copy, Debug, PartialEq, Eq, Structural)]
pub enum QueryError {
    /// A key or index that does not exist was read; reported to the
    /// user as a normal result, not a hard failure.
    NotFound,
    /// A step expects one container kind but found another.
    TypeMismatch { expected: Kind, found: Kind },
    /// A write addressed an array slot that does not exist; arrays
    /// are never grown implicitly.
    IndexOutOfBounds,
}

/// The value reached from `j` by following `steps`, or the error met
/// on the way.
pub open spec fn sp_refer(j: Json, steps: Seq<StepView>) -> Result<Json, QueryError>
    decreases steps.len(),
{
    if steps.len() == 0 {
        Ok(j)
    } else {
        match steps[0] {
            StepView::Field(name) => match j {
                Json::Obj(ms) => {
                    let fk = find_key(ms, name);
                    if fk >= 0 {
                        sp_refer(ms[fk].1, steps.drop_first())
                    } else {
                        Err(QueryError::NotFound)
                    }
                },
                _ => Err(QueryError::TypeMismatch { expected: Kind::Obj, found: kind_of(j) }),
            },
            StepView::Index(ix) => match j {
                Json::Arr(items) => if 0 <= ix < items.len() {
                    sp_refer(items[ix], steps.drop_first())
                } else {
                    Err(QueryError::NotFound)
                },
                _ => Err(QueryError::TypeMismatch { expected: Kind::Arr, found: kind_of(j) }),
            },
        }
    }
}

/// The tree that results from replacing the value `steps` addresses
/// in `j` with `nv`, or the error met on the way.  A field step whose
/// key is absent creates the key, with an empty object as the value
/// to descend into; an index step outside the array fails.
pub open spec fn sp_modify(j: Json, steps: Seq<StepView>, nv: Json) -> Result<Json, QueryError>
    decreases steps.len(),
{
    if steps.len() == 0 {
        Ok(nv)
    } else {
        match steps[0] {
            StepView::Field(name) => match j {
                Json::Obj(ms) => {
                    let fk = find_key(ms, name);
                    if fk >= 0 {
                        match sp_modify(ms[fk].1, steps.drop_first(), nv) {
                            Ok(w) => Ok(Json::Obj(ms.update(fk, (name, w)))),
                            Err(e) => Err(e),
                        }
                    } else {
                        match sp_modify(Json::Obj(Seq::empty()), steps.drop_first(), nv) {
                            Ok(w) => Ok(Json::Obj(ms.push((name, w)))),
                            Err(e) => Err(e),
                        }
                    }
                },
                _ => Err(QueryError::TypeMismatch { expected: Kind::Obj, found: kind_of(j) }),
            },
            StepView::Index(ix) => match j {
                Json::Arr(items) => if 0 <= ix < items.len() {
                    match sp_modify(items[ix], steps.drop_first(), nv) {
                        Ok(w) => Ok(Json::Arr(items.update(ix, w))),
                        Err(e) => Err(e),
                    }
                } else {
                    Err(QueryError::IndexOutOfBounds)
                },
                _ => Err(QueryError::TypeMismatch { expected: Kind::Arr, found: kind_of(j) }),
            },
        }
    }
}

/// Index of the first member of `members` carrying `key`, if any.
fn find_member(members: &Vec<Member>, key: &String) -> (r: Option<usize>)
    ensures
        r matches Some(ix) ==> ix < members@.len() && find_key(
            crate::value::json_of_members(members@),
            key@,
        ) == ix as int,
        r is None ==> find_key(crate::value::json_of_members(members@), key@) == -1,
{
    proof {
        crate::value::lemma_json_of_members(members@);
        crate::value::lemma_find_key(crate::value::json_of_members(members@), key@);
    }
    let ghost pairs = crate::value::json_of_members(members@);
    let mut t: usize = 0;
    while t < members.len()
        invariant
            t <= members.len(),
            forall|u: int| 0 <= u < t ==> members@[u].key@ != key@,
        decreases members.len() - t,
    {
        if members[t].key.eq(key) {
            proof {
                let fk = find_key(pairs, key@);
                assert(pairs[t as int].0 == key@);
                if fk == -1 {
                    assert(false);
                }
                if 0 <= fk < t {
                    assert(members@[fk].key@ != key@);
                    assert(pairs[fk].0 == key@);
                    assert(false);
                }
                if fk > t {
                    assert(pairs[t as int].0 != key@);
                    assert(false);
                }
            }
            return Some(t);
        }
        t = t + 1;
    }
    proof {
        let fk = find_key(pairs, key@);
        if fk >= 0 {
            assert(pairs[fk].0 == key@);
            assert(members@[fk].key@ == key@);
            assert(false);
        }
    }
    None
}

/// Reads the value `path` addresses inside `root`, without changing
/// the tree.
pub fn refer<'a>(root: &'a Value, path: &Path) -> (r: Result<&'a Value, QueryError>)
    ensures
        r matches Ok(v) ==> sp_refer(root@, path@) == Ok::<_, QueryError>(v@),
        r matches Err(e) ==> sp_refer(root@, path@) == Err::<Json, _>(e),
{
    proof {
        crate::path::lemma_views_of_steps(path.steps@);
    }
    let mut cur: &Value = root;
    let mut k: usize = 0;
    let n = path.steps.len();
    assert(path@.skip(0) =~= path@);
    while k < n
        invariant
            k <= n,
            n == path.steps@.len(),
            sp_refer(root@, path@) == sp_refer(cur@, path@.skip(k as int)),
        decreases n - k,
    {
        let ghost steps_left = path@.skip(k as int);
        proof {
            assert(steps_left.len() > 0);
            assert(steps_left[0] == path@[k as int]);
            assert(steps_left.drop_first() =~= path@.skip(k as int + 1));
        }
        match &path.steps[k] {
            Step::Field(name) => {
                match cur {
                    Value::Obj(members) => {
                        proof {
                            crate::value::lemma_json_of_members(members@);
                        }
                        match find_member(members, name) {
                            Some(ix) => {
                                proof {
                                    crate::value::lemma_find_key(
                                        crate::value::json_of_members(members@),
                                        name@,
                                    );
                                    assert(crate::value::json_of_members(members@)[ix as int].1
                                        == crate::value::json_of(members@[ix as int].value));
                                }
                                cur = &members[ix].value;
                            },
                            None => {
                                return Err(QueryError::NotFound);
                            },
                        }
                    },
                    _ => {
                        let found = cur.kind();
                        return Err(QueryError::TypeMismatch { expected: Kind::Obj, found });
                    },
                }
            },
            Step::Index(ix) => {
                match cur {
                    Value::Arr(items) => {
                        proof {
                            crate::value::lemma_json_of_seq(items@);
                        }
                        if *ix < items.len() {
                            proof {
                                assert(crate::value::json_of_seq(items@)[*ix as int]
                                    == crate::value::json_of(items@[*ix as int]));
                            }
                            cur = &items[*ix];
                        } else {
                            return Err(QueryError::NotFound);
                        }
                    },
                    _ => {
                        let found = cur.kind();
                        return Err(QueryError::TypeMismatch { expected: Kind::Arr, found });
                    },
                }
            },
        }
        k = k + 1;
    }
    assert(path@.skip(n as int) =~= Seq::<StepView>::empty());
    Ok(cur)
}

/// Applies a modification along `steps[k..]` to an owned tree.
/// Returns the new tree; on an error, the tree comes back unchanged.
fn apply_modify(cur: Value, steps: &Vec<Step>, k: usize, nv: Value) -> (r: (
    Value,
    Option<QueryError>,
))
    requires
        k <= steps@.len(),
    ensures
        r.1 is None ==> sp_modify(cur@, crate::path::views_of_steps(steps@).skip(k as int), nv@)
            == Ok::<_, QueryError>(r.0@),
        r.1 matches Some(e) ==> sp_modify(
            cur@,
            crate::path::views_of_steps(steps@).skip(k as int),
            nv@,
        ) == Err::<Json, _>(e) && r.0@ == cur@,
    decreases steps@.len() - k,
{
    proof {
        crate::path::lemma_views_of_steps(steps@);
    }
    let ghost steps_left = crate::path::views_of_steps(steps@).skip(k as int);
    if k == steps.len() {
        assert(steps_left =~= Seq::<StepView>::empty());
        return (nv, None);
    }
    proof {
        assert(steps_left.len() > 0);
        assert(steps_left[0] == crate::path::views_of_steps(steps@)[k as int]);
        assert(steps_left[0] == steps@[k as int]@);
        assert(steps_left.drop_first() =~= crate::path::views_of_steps(steps@).skip(k as int + 1));
    }
    match &steps[k] {
        Step::Field(name) => {
            match cur {
                Value::Obj(mut members) => {
                    let ghost members0 = members@;
                    proof {
                        crate::value::lemma_json_of_members(members0);
                    }
                    match find_member(&members, name) {
                        Some(ix) => {
                            proof {
                                crate::value::lemma_find_key(
                                    crate::value::json_of_members(members0),
                                    name@,
                                );
                            }
                            let m = members.remove(ix);
                            let mkey = m.key;
                            let ghost mkey_view = mkey@;
                            assert(mkey_view == name@);
                            let (w, err) = apply_modify(m.value, steps, k + 1, nv);
                            let m2 = Member { key: mkey, value: w };
                            members.insert(ix, m2);
                            proof {
                                assert(members@ =~= members0.update(ix as int, m2));
                                crate::value::lemma_json_of_members(members@);
                            }
                            let ghost w_view = crate::value::json_of(m2.value);
                            proof {
                                assert(crate::value::json_of_members(members@)
                                    =~= crate::value::json_of_members(members0).update(
                                    ix as int,
                                    (name@, w_view),
                                ));
                            }
                            match err {
                                None => (Value::Obj(members), None),
                                Some(e) => {
                                    proof {
                                        assert(crate::value::json_of_members(members0)[ix as int]
                                            == (name@, w_view));
                                        assert(crate::value::json_of_members(members0).update(
                                            ix as int,
                                            (name@, w_view),
                                        ) =~= crate::value::json_of_members(members0));
                                    }
                                    (Value::Obj(members), Some(e))
                                },
                            }
                        },
                        None => {
                            let fresh_members: Vec<Member> = Vec::new();
                            let fresh = Value::Obj(fresh_members);
                            proof {
                                assert(crate::value::json_of_members(Seq::<Member>::empty())
                                    =~= Seq::<(Seq<char>, Json)>::empty());
                            }
                            let (w, err) = apply_modify(fresh, steps, k + 1, nv);
                            match err {
                                None => {
                                    let key2 = name.clone();
                                    let m2 = Member { key: key2, value: w };
                                    members.push(m2);
                                    proof {
                                        assert(members@ =~= members0.push(m2));
                                        crate::value::lemma_json_of_members(members@);
                                        assert(crate::value::json_of_members(members@)
                                            =~= crate::value::json_of_members(members0).push(
                                            (name@, crate::value::json_of(m2.value)),
                                        ));
                                    }
                                    (Value::Obj(members), None)
                                },
                                Some(e) => (Value::Obj(members), Some(e)),
                            }
                        },
                    }
                },
                other => {
                    let found = other.kind();
                    (other, Some(QueryError::TypeMismatch { expected: Kind::Obj, found }))
                },
            }
        },
        Step::Index(ix) => {
            match cur {
                Value::Arr(mut items) => {
                    let ghost items0 = items@;
                    proof {
                        crate::value::lemma_json_of_seq(items0);
                    }
                    if *ix < items.len() {
                        let child = items.remove(*ix);
                        let ghost child_view = crate::value::json_of(child);
                        let (w, err) = apply_modify(child, steps, k + 1, nv);
                        let ghost w_view = crate::value::json_of(w);
                        items.insert(*ix, w);
                        proof {
                            assert(items@ =~= items0.update(*ix as int, items@[*ix as int]));
                            crate::value::lemma_json_of_seq(items@);
                            assert(crate::value::json_of_seq(items@)
                                =~= crate::value::json_of_seq(items0).update(*ix as int, w_view));
                        }
                        match err {
                            None => (Value::Arr(items), None),
                            Some(e) => {
                                proof {
                                    assert(w_view == child_view);
                                    assert(crate::value::json_of_seq(items0).update(
                                        *ix as int,
                                        w_view,
                                    ) =~= crate::value::json_of_seq(items0));
                                }
                                (Value::Arr(items), Some(e))
                            },
                        }
                    } else {
                        (Value::Arr(items), Some(QueryError::IndexOutOfBounds))
                    }
                },
                other => {
                    let found = other.kind();
                    (other, Some(QueryError::TypeMismatch { expected: Kind::Arr, found }))
                },
            }
        },
    }
}

/// Replaces the value `path` addresses inside `root` with
/// `new_value`, creating missing object keys on the way.  On an
/// error, the tree is left exactly as it was.
pub fn modify(root: &mut Value, path: &Path, new_value: Value) -> (r: Result<(), QueryError>)
    ensures
        r is Ok ==> sp_modify(old(root)@, path@, new_value@) == Ok::<_, QueryError>(final(root)@),
        r matches Err(e) ==> sp_modify(old(root)@, path@, new_value@) == Err::<Json, _>(e)
            && final(root)@ == old(root)@,
{
    let mut cur = Value::Null;
    core::mem::swap(root, &mut cur);
    let (res, err) = apply_modify(cur, &path.steps, 0, new_value);
    let mut res2 = res;
    core::mem::swap(root, &mut res2);
    proof {
        assert(crate::path::views_of_steps(path.steps@).skip(0) =~= path@);
    }
    match err {
        None => Ok(()),
        Some(e) => Err(e),
    }
}

} // verus!
