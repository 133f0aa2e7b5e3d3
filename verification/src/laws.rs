//! Laws that relate the engine's operations to each other.
//!
//! The serialization round trip lives in `roundtrip.rs`
//! (`lemma_parse_of_serialized`); this module holds the laws about
//! reading and writing.

use vstd::prelude::*;
use crate::path::StepView;
use crate::query::{sp_modify, sp_refer, QueryError};
use crate::value::{find_key, Json};

verus! {

/// Reading is pure: `refer` borrows the tree immutably, and its
/// contract ties the outcome to the document model and the path
/// alone, so two consecutive reads of the same document with the same
/// path return equal results.
pub proof fn lemma_refer_repeatable(
    j1: Json,
    j2: Json,
    steps1: Seq<StepView>,
    steps2: Seq<StepView>,
)
    requires
        j1 == j2,
        steps1 == steps2,
    ensures
        sp_refer(j1, steps1) == sp_refer(j2, steps2),
{
}

/// Updating one pair's value leaves `find_key` unchanged for every
/// key.
proof fn lemma_find_key_update(
    ms: Seq<(Seq<char>, Json)>,
    fk: int,
    w: Json,
    key: Seq<char>,
)
    requires
        0 <= fk < ms.len(),
    ensures
        find_key(ms.update(fk, (ms[fk].0, w)), key) == find_key(ms, key),
    decreases ms.len(),
{
    let ms2 = ms.update(fk, (ms[fk].0, w));
    assert(ms2.len() == ms.len());
    assert(ms2[0].0 == ms[0].0);
    if ms[0].0 == key {
    } else {
        if fk == 0 {
            assert(ms2.drop_first() =~= ms.drop_first());
        } else {
            assert(ms2.drop_first() =~= ms.drop_first().update(
                fk - 1,
                (ms.drop_first()[fk - 1].0, w),
            ));
            lemma_find_key_update(ms.drop_first(), fk - 1, w, key);
        }
    }
}

/// Appending a pair with a fresh key makes `find_key` find it last.
proof fn lemma_find_key_push_new(ms: Seq<(Seq<char>, Json)>, key: Seq<char>, w: Json)
    requires
        find_key(ms, key) == -1,
    ensures
        find_key(ms.push((key, w)), key) == ms.len(),
    decreases ms.len(),
{
    let ms2 = ms.push((key, w));
    if ms.len() == 0 {
        assert(ms2[0].0 == key);
    } else {
        assert(ms2[0] == ms[0]);
        assert(ms2.drop_first() =~= ms.drop_first().push((key, w)));
        assert(!(find_key(ms, key) >= 0));
        assert(find_key(ms.drop_first(), key) == -1) by {
            if find_key(ms.drop_first(), key) != -1 {
                crate::value::lemma_find_key(ms.drop_first(), key);
            }
        }
        lemma_find_key_push_new(ms.drop_first(), key, w);
    }
}

/// Writing then reading: when `modify` succeeds, `refer` with the
/// same path on the resulting tree returns exactly the value that was
/// written.
pub proof fn lemma_modify_then_refer(j: Json, steps: Seq<StepView>, nv: Json)
    requires
        sp_modify(j, steps, nv) is Ok,
    ensures
        sp_refer(sp_modify(j, steps, nv).unwrap(), steps) == Ok::<Json, QueryError>(nv),
    decreases steps.len(),
{
    if steps.len() == 0 {
    } else {
        match steps[0] {
            StepView::Field(name) => {
                match j {
                    Json::Obj(ms) => {
                        let fk = find_key(ms, name);
                        if fk >= 0 {
                            crate::value::lemma_find_key(ms, name);
                            lemma_modify_then_refer(ms[fk].1, steps.drop_first(), nv);
                            let w = sp_modify(ms[fk].1, steps.drop_first(), nv).unwrap();
                            lemma_find_key_update(ms, fk, w, name);
                            assert(ms.update(fk, (ms[fk].0, w))[fk].1 == w);
                            assert((ms[fk].0, w) == (name, w));
                        } else {
                            crate::value::lemma_find_key(ms, name);
                            lemma_modify_then_refer(
                                Json::Obj(Seq::empty()),
                                steps.drop_first(),
                                nv,
                            );
                            let w = sp_modify(
                                Json::Obj(Seq::empty()),
                                steps.drop_first(),
                                nv,
                            ).unwrap();
                            lemma_find_key_push_new(ms, name, w);
                            assert(ms.push((name, w))[ms.len() as int].1 == w);
                        }
                    },
                    _ => {},
                }
            },
            StepView::Index(ix) => {
                match j {
                    Json::Arr(items) => {
                        if 0 <= ix < items.len() {
                            lemma_modify_then_refer(items[ix], steps.drop_first(), nv);
                            let w = sp_modify(items[ix], steps.drop_first(), nv).unwrap();
                            assert(items.update(ix, w)[ix] == w);
                        }
                    },
                    _ => {},
                }
            },
        }
    }
}


/// Writing keeps the document valid: when both the tree and the new
/// value are well formed and `modify` succeeds, the resulting tree is
/// well formed too — its numerals are valid literals and its object
/// keys stay pairwise distinct.
pub proof fn lemma_modify_preserves_wf(j: Json, steps: Seq<StepView>, nv: Json)
    requires
        crate::value::json_wf(j),
        crate::value::json_wf(nv),
        sp_modify(j, steps, nv) is Ok,
    ensures
        crate::value::json_wf(sp_modify(j, steps, nv).unwrap()),
    decreases steps.len(),
{
    if steps.len() == 0 {
    } else {
        match steps[0] {
            StepView::Field(name) => {
                match j {
                    Json::Obj(ms) => {
                        let fk = find_key(ms, name);
                        crate::value::lemma_find_key(ms, name);
                        if fk >= 0 {
                            assert(crate::value::json_wf(ms[fk].1));
                            lemma_modify_preserves_wf(ms[fk].1, steps.drop_first(), nv);
                            let w = sp_modify(ms[fk].1, steps.drop_first(), nv).unwrap();
                            let ms2 = ms.update(fk, (name, w));
                            assert(ms[fk].0 == name);
                            assert forall|a: int, b: int| 0 <= a < b < ms2.len() implies ms2[a].0
                                != ms2[b].0 by {
                                assert(ms2[a].0 == ms[a].0);
                                assert(ms2[b].0 == ms[b].0);
                            }
                            assert forall|a: int| 0 <= a < ms2.len() implies crate::value::json_wf(
                                #[trigger] ms2[a].1,
                            ) by {
                                if a != fk {
                                    assert(ms2[a] == ms[a]);
                                }
                            }
                        } else {
                            let fresh = Json::Obj(Seq::empty());
                            assert(crate::value::json_wf(fresh));
                            lemma_modify_preserves_wf(fresh, steps.drop_first(), nv);
                            let w = sp_modify(fresh, steps.drop_first(), nv).unwrap();
                            let ms2 = ms.push((name, w));
                            assert forall|a: int, b: int| 0 <= a < b < ms2.len() implies ms2[a].0
                                != ms2[b].0 by {
                                if b < ms.len() {
                                    assert(ms2[a] == ms[a]);
                                    assert(ms2[b] == ms[b]);
                                } else {
                                    assert(ms2[a] == ms[a]);
                                    assert(ms2[b].0 == name);
                                    assert(ms[a].0 != name);
                                }
                            }
                            assert forall|a: int| 0 <= a < ms2.len() implies crate::value::json_wf(
                                #[trigger] ms2[a].1,
                            ) by {
                                if a < ms.len() {
                                    assert(ms2[a] == ms[a]);
                                }
                            }
                        }
                    },
                    _ => {},
                }
            },
            StepView::Index(ix) => {
                match j {
                    Json::Arr(items) => {
                        if 0 <= ix < items.len() {
                            assert(crate::value::json_wf(items[ix]));
                            lemma_modify_preserves_wf(items[ix], steps.drop_first(), nv);
                            let w = sp_modify(items[ix], steps.drop_first(), nv).unwrap();
                            let items2 = items.update(ix, w);
                            assert forall|a: int| 0 <= a < items2.len() implies crate::value::json_wf(
                                #[trigger] items2[a],
                            ) by {
                                if a != ix {
                                    assert(items2[a] == items[a]);
                                }
                            }
                        }
                    },
                    _ => {},
                }
            },
        }
    }
}
} // verus!
