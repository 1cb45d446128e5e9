//! The models that a source offers.

use vstd::prelude::*;

use crate::json::{self, Json, JsonObject, Tree};
use crate::text::chars::{self, chars_of, same};
use crate::text::search::{self, stripped};

verus! {

/// Whether the rest of a model's name begins with a digit.
pub open spec fn begins_with_digit(rest: Seq<char>) -> bool {
    rest.len() > 0 && chars::is_digit(rest[0])
}

/// Whether a model is one of those that are listed first: with a number behind the name
/// of its family. The first family whose name it begins with decides.
pub open spec fn is_main(families: Seq<Seq<char>>, id: Seq<char>) -> bool
    decreases families.len(),
{
    if families.len() == 0 {
        false
    } else {
        match search::after_prefix(id, families[0]) {
            Some(rest) => begins_with_digit(rest),
            None => is_main(families.drop_first(), id),
        }
    }
}

/// Whether the rest of a model's name begins with a digit.
fn digit_first(rest: &str) -> (r: bool)
    ensures
        r == begins_with_digit(rest@),
{
    let cs = chars_of(rest);
    cs.len() > 0 && '0' <= cs[0] && cs[0] <= '9'
}

/// Whether a model is one of those that are listed first.
pub fn is_main_list_model(families: &Vec<String>, id: &str) -> (r: bool)
    ensures
        r == is_main(chars::texts(families@), id@),
{
    let ghost all = chars::texts(families@);
    let n = families.len();
    let mut i: usize = 0;
    assert(all.skip(0) =~= all);
    while i < n
        invariant
            n == families@.len(),
            i <= n,
            all == chars::texts(families@),
            is_main(all, id@) == is_main(all.skip(i as int), id@),
        decreases n - i,
    {
        proof {
            assert(all.skip(i as int)[0] == families@[i as int]@);
            assert(all.skip(i as int).drop_first() =~= all.skip(i + 1));
        }
        if let Some(rest) = stripped(id, families[i].as_str()) {
            return digit_first(rest.as_str());
        }
        i = i + 1;
    }
    false
}

/// A model: its name, and whether it can use tools, if that is known.
#[derive(Debug)]
pub struct ModelEntry {
    pub id: String,
    pub supports_tools: Option<bool>,
}

/// The contents of a model.
pub struct ModelView {
    pub id: Seq<char>,
    pub supports_tools: Option<bool>,
}

impl View for ModelEntry {
    type V = ModelView;

    open spec fn view(&self) -> ModelView {
        ModelView { id: self.id@, supports_tools: self.supports_tools }
    }
}

/// The contents of models.
pub open spec fn model_views(v: Seq<ModelEntry>) -> Seq<ModelView> {
    Seq::new(v.len(), |i: int| v[i]@)
}

/// Whether one of the models has a name.
pub open spec fn has_model(v: Seq<ModelView>, id: Seq<char>) -> bool {
    exists|i: int| 0 <= i < v.len() && (#[trigger] v[i]).id == id
}

/// The models without those whose name stands before.
pub open spec fn distinct(v: Seq<ModelView>) -> Seq<ModelView>
    decreases v.len(),
{
    if v.len() == 0 {
        Seq::empty()
    } else {
        let before = distinct(v.drop_last());
        if has_model(before, v.last().id) {
            before
        } else {
            before.push(v.last())
        }
    }
}

/// Models of which nothing but the name is known.
pub open spec fn named(ids: Seq<Seq<char>>) -> Seq<ModelView> {
    Seq::new(ids.len(), |i: int| ModelView { id: ids[i], supports_tools: None })
}

/// Where a model is listed: those that can use tools first, then those of which that is
/// not known, then the others; and within each, the main ones first.
pub open spec fn rank(families: Seq<Seq<char>>, m: ModelView) -> int {
    (match m.supports_tools {
        Some(true) => 0int,
        None => 2int,
        Some(false) => 4int,
    }) + (if is_main(families, m.id) {
        0int
    } else {
        1int
    })
}

/// The models of one rank, in order.
pub open spec fn of_rank(families: Seq<Seq<char>>, v: Seq<ModelView>, k: int) -> Seq<ModelView>
    decreases v.len(),
{
    if v.len() == 0 {
        Seq::empty()
    } else if rank(families, v.last()) == k {
        of_rank(families, v.drop_last(), k).push(v.last())
    } else {
        of_rank(families, v.drop_last(), k)
    }
}

/// The models of the ranks below `k`, rank by rank. Models of one rank keep their order.
pub open spec fn by_rank(families: Seq<Seq<char>>, v: Seq<ModelView>, k: nat) -> Seq<ModelView>
    decreases k,
{
    if k == 0 {
        Seq::empty()
    } else {
        by_rank(families, v, (k - 1) as nat) + of_rank(families, v, k - 1)
    }
}

/// The models that are offered: those that the source listed, then those that are known
/// of it, each name once, in the order of their ranks.
pub open spec fn offered(
    families: Seq<Seq<char>>,
    live: Seq<ModelView>,
    builtin: Seq<Seq<char>>,
) -> Seq<ModelView> {
    by_rank(families, distinct(live + named(builtin)), 6)
}

/// What is reported of something that is true, false or not known.
pub open spec fn flag(b: Option<bool>) -> Tree {
    match b {
        Some(b) => Tree::Bool(b),
        None => Tree::Null,
    }
}

/// What is reported of a model.
pub open spec fn model_tree(m: ModelView) -> Tree {
    Tree::Object(
        seq![
            ("id"@, Tree::Text(m.id)),
            ("supports_tools"@, flag(m.supports_tools)),
        ],
    )
}

/// What is reported of models.
pub open spec fn model_trees(v: Seq<ModelView>) -> Seq<Tree> {
    Seq::new(v.len(), |i: int| model_tree(v[i]))
}

/// Whether one of the models has a name.
fn holds_model(v: &Vec<ModelEntry>, id: &str) -> (r: bool)
    ensures
        r == has_model(model_views(v@), id@),
{
    let ghost views = model_views(v@);
    let n = v.len();
    let mut i: usize = 0;
    while i < n
        invariant
            n == v@.len(),
            i <= n,
            views == model_views(v@),
            forall|j: int| 0 <= j < i ==> (#[trigger] views[j]).id != id@,
        decreases n - i,
    {
        assert(views[i as int] == v@[i as int]@);
        if same(v[i].id.as_str(), id) {
            return true;
        }
        i = i + 1;
    }
    false
}

/// Appends a model, if its name is new.
fn push_new(v: &mut Vec<ModelEntry>, m: ModelEntry)
    ensures
        model_views(final(v)@) == if has_model(model_views(old(v)@), m@.id) {
            model_views(old(v)@)
        } else {
            model_views(old(v)@).push(m@)
        },
{
    if !holds_model(v, m.id.as_str()) {
        let ghost added = m@;
        v.push(m);
        assert(model_views(v@) =~= model_views(old(v)@).push(added));
    }
}

/// The models of the source and those known of it, each name once.
fn merged(live: &Vec<ModelEntry>, builtin: &Vec<String>) -> (r: Vec<ModelEntry>)
    ensures
        model_views(r@) == distinct(model_views(live@) + named(chars::texts(builtin@))),
{
    let ghost all = model_views(live@) + named(chars::texts(builtin@));
    let mut out: Vec<ModelEntry> = Vec::new();
    assert(model_views(out@) =~= Seq::empty());
    let n = live.len();
    let mut i: usize = 0;
    while i < n
        invariant
            n == live@.len(),
            i <= n,
            all == model_views(live@) + named(chars::texts(builtin@)),
            model_views(out@) == distinct(all.take(i as int)),
        decreases n - i,
    {
        proof {
            assert(all.take(i + 1).drop_last() =~= all.take(i as int));
            assert(all.take(i + 1).last() == live@[i as int]@);
        }
        let copy = ModelEntry {
            id: live[i].id.as_str().to_string(),
            supports_tools: live[i].supports_tools,
        };
        push_new(&mut out, copy);
        i = i + 1;
    }
    let k = builtin.len();
    let mut j: usize = 0;
    while j < k
        invariant
            n == live@.len(),
            k == builtin@.len(),
            j <= k,
            all == model_views(live@) + named(chars::texts(builtin@)),
            model_views(out@) == distinct(all.take(n + j)),
        decreases k - j,
    {
        proof {
            assert(all.take(n + j + 1).drop_last() =~= all.take(n + j));
            assert(all.take(n + j + 1).last() == named(chars::texts(builtin@))[j as int]);
        }
        push_new(
            &mut out,
            ModelEntry { id: builtin[j].as_str().to_string(), supports_tools: None },
        );
        j = j + 1;
    }
    assert(all.take(n + k) =~= all);
    out
}

/// Where a model is listed.
fn rank_of(families: &Vec<String>, m: &ModelEntry) -> (r: u8)
    ensures
        r == rank(chars::texts(families@), m@),
        r < 6,
{
    let cap: u8 = match m.supports_tools {
        Some(true) => 0,
        None => 2,
        Some(false) => 4,
    };
    if is_main_list_model(families, m.id.as_str()) {
        cap
    } else {
        cap + 1
    }
}

/// What is reported of a model.
fn model_json(m: &ModelEntry) -> (r: Json)
    ensures
        r@ == model_tree(m@),
{
    let mut o = JsonObject::new();
    o.put("id", Json::text(m.id.as_str()));
    let tools = match m.supports_tools {
        Some(b) => Json::Bool(b),
        None => Json::Null,
    };
    o.put("supports_tools", tools);
    assert(o@ =~= seq![
        ("id"@, Tree::Text(m@.id)),
        ("supports_tools"@, flag(m@.supports_tools)),
    ]);
    o.done()
}

/// The models that are offered: those that the source listed, then those that are known
/// of it, each name once, in the order of their ranks.
pub fn merge_and_sort_models(
    families: &Vec<String>,
    live: &Vec<ModelEntry>,
    builtin: &Vec<String>,
) -> (r: Vec<Json>)
    ensures
        json::trees(r@) == model_trees(
            offered(
                chars::texts(families@),
                model_views(live@),
                chars::texts(builtin@),
            ),
        ),
{
    let v = merged(live, builtin);
    let ghost views = model_views(v@);
    let ghost fams = chars::texts(families@);
    let mut out: Vec<Json> = Vec::new();
    assert(json::trees(out@) =~= model_trees(by_rank(fams, views, 0)));
    let n = v.len();
    let mut k: u8 = 0;
    while k < 6
        invariant
            n == v@.len(),
            k <= 6,
            views == model_views(v@),
            fams == chars::texts(families@),
            json::trees(out@) == model_trees(by_rank(fams, views, k as nat)),
        decreases 6 - k,
    {
        let ghost start = by_rank(fams, views, k as nat);
        let mut i: usize = 0;
        assert(of_rank(fams, views.take(0), k as int) =~= Seq::empty());
        assert(start + Seq::empty() =~= start);
        while i < n
            invariant
                n == v@.len(),
                k < 6,
                i <= n,
                views == model_views(v@),
                fams == chars::texts(families@),
                json::trees(out@) == model_trees(start + of_rank(fams, views.take(i as int), k as int)),
            decreases n - i,
        {
            proof {
                assert(views.take(i + 1).drop_last() =~= views.take(i as int));
                assert(views.take(i + 1).last() == v@[i as int]@);
            }
            if rank_of(families, &v[i]) == k {
                let ghost before = start + of_rank(fams, views.take(i as int), k as int);
                let ghost shown = json::trees(out@);
                let item = model_json(&v[i]);
                out.push(item);
                proof {
                    assert(json::trees(out@) =~= shown.push(model_tree(v@[i as int]@)));
                    assert(start + of_rank(fams, views.take(i + 1), k as int) =~= before.push(
                        v@[i as int]@,
                    ));
                    assert(model_trees(before.push(v@[i as int]@)) =~= model_trees(before).push(
                        model_tree(v@[i as int]@),
                    ));
                }
            }
            i = i + 1;
        }
        assert(views.take(n as int) =~= views);
        k = k + 1;
    }
    out
}

/// Each rank is below 6, so that no model is left out.
proof fn lemma_rank(families: Seq<Seq<char>>, m: ModelView)
    ensures
        0 <= rank(families, m) < 6,
{
}

/// What `of_rank` holds.
proof fn lemma_of_rank(families: Seq<Seq<char>>, v: Seq<ModelView>, k: int)
    ensures
        forall|i: int| 0 <= i < of_rank(families, v, k).len() ==> rank(families, #[trigger] of_rank(families, v, k)[i]) == k,
        forall|m: ModelView| #[trigger] of_rank(families, v, k).contains(m) <==> v.contains(m) && rank(families, m)
            == k,
    decreases v.len(),
{
    if v.len() > 0 {
        let t = v.drop_last();
        lemma_of_rank(families, t, k);
        let o = of_rank(families, v, k);
        let ot = of_rank(families, t, k);
        assert forall|i: int| 0 <= i < o.len() implies rank(families, #[trigger] o[i]) == k by {
            if i < ot.len() {
                assert(o[i] == ot[i]);
            }
        }
        assert forall|m: ModelView| #[trigger] o.contains(m) <==> v.contains(m) && rank(families, m) == k by {
            if o.contains(m) {
                let i = choose|i: int| 0 <= i < o.len() && o[i] == m;
                if i < ot.len() {
                    assert(ot[i] == m);
                    assert(ot.contains(m));
                    let j = choose|j: int| 0 <= j < t.len() && t[j] == m;
                    assert(v[j] == m);
                } else {
                    assert(v[v.len() - 1] == m);
                }
            }
            if v.contains(m) && rank(families, m) == k {
                let i = choose|i: int| 0 <= i < v.len() && v[i] == m;
                if i < t.len() {
                    assert(t[i] == m);
                    assert(t.contains(m));
                    assert(ot.contains(m));
                    let j = choose|j: int| 0 <= j < ot.len() && ot[j] == m;
                    assert(o[j] == m);
                } else {
                    assert(o[o.len() - 1] == m);
                }
            }
        }
    }
}

/// What `by_rank` holds.
proof fn lemma_by_rank(families: Seq<Seq<char>>, v: Seq<ModelView>, k: nat)
    ensures
        forall|m: ModelView| #[trigger] by_rank(families, v, k).contains(m) <==> v.contains(m) && rank(families, m) < k,
        forall|i: int, j: int|
            0 <= i <= j < by_rank(families, v, k).len() ==> rank(families, #[trigger] by_rank(families, v, k)[i]) <= rank(families, 
                #[trigger] by_rank(families, v, k)[j],
            ),
    decreases k,
{
    if k > 0 {
        let a = by_rank(families, v, (k - 1) as nat);
        let b = of_rank(families, v, k - 1);
        let c = by_rank(families, v, k);
        lemma_by_rank(families, v, (k - 1) as nat);
        lemma_of_rank(families, v, k - 1);
        assert forall|m: ModelView| #[trigger] c.contains(m) <==> v.contains(m) && rank(families, m) < k by {
            if c.contains(m) {
                let i = choose|i: int| 0 <= i < c.len() && c[i] == m;
                if i < a.len() {
                    assert(a[i] == m);
                    assert(a.contains(m));
                } else {
                    assert(b[i - a.len()] == m);
                    assert(b.contains(m));
                }
            }
            if v.contains(m) && rank(families, m) < k {
                if rank(families, m) < k - 1 {
                    assert(a.contains(m));
                    let i = choose|i: int| 0 <= i < a.len() && a[i] == m;
                    assert(c[i] == m);
                } else {
                    assert(b.contains(m));
                    let i = choose|i: int| 0 <= i < b.len() && b[i] == m;
                    assert(c[a.len() + i] == m);
                }
            }
        }
        assert forall|i: int, j: int| 0 <= i <= j < c.len() implies rank(families, #[trigger] c[i]) <= rank(families, 
            #[trigger] c[j],
        ) by {
            if j < a.len() {
                assert(c[i] == a[i] && c[j] == a[j]);
            } else {
                assert(c[j] == b[j - a.len()]);
                if i < a.len() {
                    assert(c[i] == a[i]);
                    assert(a.contains(a[i]));
                } else {
                    assert(c[i] == b[i - a.len()]);
                }
            }
        }
    } else {
        assert forall|m: ModelView| #[trigger] by_rank(families, v, k).contains(m) <==> v.contains(m)
            && rank(families, m) < k by {
            lemma_rank(families, m);
        }
    }
}

/// In a list without repetitions each name stands once.
proof fn lemma_distinct_ids(v: Seq<ModelView>)
    ensures
        forall|i: int, j: int|
            0 <= i < j < distinct(v).len() ==> (#[trigger] distinct(v)[i]).id != (
            #[trigger] distinct(v)[j]).id,
    decreases v.len(),
{
    if v.len() > 0 {
        let d = distinct(v);
        let dt = distinct(v.drop_last());
        lemma_distinct_ids(v.drop_last());
        assert forall|i: int, j: int| 0 <= i < j < d.len() implies (#[trigger] d[i]).id != (
        #[trigger] d[j]).id by {
            assert(d[i] == dt[i]);
            if j < dt.len() {
                assert(d[j] == dt[j]);
            }
        }
    }
}

/// A list without repetitions holds only what is in the list.
proof fn lemma_distinct_within(v: Seq<ModelView>, m: ModelView)
    requires
        distinct(v).contains(m),
    ensures
        v.contains(m),
    decreases v.len(),
{
    if v.len() > 0 {
        let t = v.drop_last();
        let d = distinct(v);
        let dt = distinct(t);
        let i = choose|i: int| 0 <= i < d.len() && d[i] == m;
        if i < dt.len() {
            assert(dt[i] == m);
            lemma_distinct_within(t, m);
            let j = choose|j: int| 0 <= j < t.len() && t[j] == m;
            assert(v[j] == m);
        } else {
            assert(v[v.len() - 1] == m);
        }
    }
}

/// The first model with a name stays in a list without repetitions.
proof fn lemma_distinct_first(v: Seq<ModelView>, i: int)
    requires
        0 <= i < v.len(),
        forall|j: int| 0 <= j < i ==> (#[trigger] v[j]).id != v[i].id,
    ensures
        distinct(v).contains(v[i]),
    decreases v.len(),
{
    let t = v.drop_last();
    let d = distinct(v);
    let dt = distinct(t);
    if i < t.len() {
        assert forall|j: int| 0 <= j < i implies (#[trigger] t[j]).id != t[i].id by {
            assert(v[j].id != v[i].id);
        }
        lemma_distinct_first(t, i);
        let j = choose|j: int| 0 <= j < dt.len() && dt[j] == t[i];
        assert(d[j] == v[i]);
    } else {
        if has_model(dt, v[i].id) {
            let k = choose|k: int| 0 <= k < dt.len() && (#[trigger] dt[k]).id == v[i].id;
            assert(dt.contains(dt[k]));
            lemma_distinct_within(t, dt[k]);
            let j = choose|j: int| 0 <= j < t.len() && t[j] == dt[k];
            assert(v[j].id == v[i].id);
        }
        assert(d[d.len() - 1] == v[i]);
    }
}

/// Each name in a list is in the list without repetitions.
proof fn lemma_distinct_names(v: Seq<ModelView>, i: int)
    requires
        0 <= i < v.len(),
    ensures
        has_model(distinct(v), v[i].id),
    decreases i,
{
    if forall|j: int| 0 <= j < i ==> (#[trigger] v[j]).id != v[i].id {
        lemma_distinct_first(v, i);
        let k = choose|k: int| 0 <= k < distinct(v).len() && distinct(v)[k] == v[i];
        assert(distinct(v)[k].id == v[i].id);
    } else {
        let j = choose|j: int| 0 <= j < i && (#[trigger] v[j]).id == v[i].id;
        lemma_distinct_names(v, j);
    }
}

/// Of the models that are offered: each that was listed or is known is there; where the
/// source listed one, what it said of it stands, as it said first; and they are in the
/// order of their ranks.
pub proof fn lemma_offered(
    families: Seq<Seq<char>>,
    live: Seq<ModelView>,
    builtin: Seq<Seq<char>>,
)
    ensures
        forall|i: int, j: int|
            0 <= i <= j < offered(families, live, builtin).len() ==> rank(families, 
                #[trigger] offered(families, live, builtin)[i],
            ) <= rank(families, #[trigger] offered(families, live, builtin)[j]),
        forall|id: Seq<char>| #[trigger]
            has_model(offered(families, live, builtin), id) <==> has_model(live, id) || builtin.contains(id),
        forall|i: int|
            0 <= i < live.len() && (forall|j: int|
                0 <= j < i ==> (#[trigger] live[j]).id != live[i].id) ==> offered(families, 
                live,
                builtin,
            ).contains(#[trigger] live[i]),
        forall|m: ModelView, n: ModelView|
            #![trigger offered(families, live, builtin).contains(m), offered(families, live, builtin).contains(n)]
            offered(families, live, builtin).contains(m) && offered(families, live, builtin).contains(n) && m.id == n.id
                ==> m == n,
{
    let all = live + named(builtin);
    let d = distinct(all);
    let o = offered(families, live, builtin);
    lemma_distinct_ids(all);
    lemma_by_rank(families, d, 6);
    assert forall|id: Seq<char>| #[trigger]
        has_model(o, id) <==> has_model(live, id) || builtin.contains(id) by {
        lemma_offered_names(families, live, builtin, id);
    }
    assert forall|i: int|
        0 <= i < live.len() && (forall|j: int| 0 <= j < i ==> (#[trigger] live[j]).id != live[i].id)
            implies o.contains(#[trigger] live[i]) by {
        assert(all[i] == live[i]);
        assert forall|j: int| 0 <= j < i implies (#[trigger] all[j]).id != all[i].id by {
            assert(all[j] == live[j]);
            assert(live[j].id != live[i].id);
        }
        lemma_distinct_first(all, i);
        lemma_rank(families, live[i]);
    }
    assert forall|m: ModelView, n: ModelView|
        #![trigger o.contains(m), o.contains(n)]
        o.contains(m) && o.contains(n) && m.id == n.id implies m == n by {
        assert(d.contains(m) && d.contains(n));
        let i = choose|i: int| 0 <= i < d.len() && d[i] == m;
        let j = choose|j: int| 0 <= j < d.len() && d[j] == n;
        if i < j {
            assert(d[i].id != d[j].id);
        } else if j < i {
            assert(d[j].id != d[i].id);
        }
    }
}

/// A name is offered exactly where the source listed it or it is known.
proof fn lemma_offered_names(
    families: Seq<Seq<char>>,
    live: Seq<ModelView>,
    builtin: Seq<Seq<char>>,
    id: Seq<char>,
)
    ensures
        has_model(offered(families, live, builtin), id) <==> has_model(live, id) || builtin.contains(id),
{
    let all = live + named(builtin);
    let d = distinct(all);
    let o = offered(families, live, builtin);
    lemma_by_rank(families, d, 6);
    if has_model(o, id) {
        let i = choose|i: int| 0 <= i < o.len() && (#[trigger] o[i]).id == id;
        assert(o.contains(o[i]));
        assert(d.contains(o[i]));
        lemma_distinct_within(all, o[i]);
        let k = choose|k: int| 0 <= k < all.len() && all[k] == o[i];
        if k < live.len() {
            assert(live[k].id == id);
        } else {
            assert(builtin[k - live.len()] == id);
        }
    }
    if has_model(live, id) || builtin.contains(id) {
        let k = if has_model(live, id) {
            choose|k: int| 0 <= k < live.len() && (#[trigger] live[k]).id == id
        } else {
            live.len() + choose|k: int| 0 <= k < builtin.len() && builtin[k] == id
        };
        assert(all[k].id == id);
        lemma_distinct_names(all, k);
        let j = choose|j: int| 0 <= j < d.len() && (#[trigger] d[j]).id == id;
        assert(d.contains(d[j]));
        lemma_rank(families, d[j]);
        assert(o.contains(d[j]));
        let i = choose|i: int| 0 <= i < o.len() && o[i] == d[j];
        assert(o[i].id == id);
    }
}

/// A model that can use tools is listed before one of which that is not known, and that one
/// before one that cannot; of models alike in that, those of the main families come first.
pub proof fn lemma_rank_order(families: Seq<Seq<char>>, m: ModelView, n: ModelView)
    ensures
        m.supports_tools == Some(true) && n.supports_tools != Some(true) ==> rank(families, m)
            < rank(families, n),
        m.supports_tools is None && n.supports_tools == Some(false) ==> rank(families, m) < rank(
            families,
            n,
        ),
        m.supports_tools == n.supports_tools && is_main(families, m.id) && !is_main(families, n.id)
            ==> rank(families, m) < rank(families, n),
        m.supports_tools == n.supports_tools && is_main(families, m.id) == is_main(families, n.id)
            ==> rank(families, m) == rank(families, n),
{
}

/// The first family whose name a model begins with decides whether it is a main one: it
/// is, if a digit follows that name.
pub proof fn lemma_main_model(families: Seq<Seq<char>>, k: int, rest: Seq<char>)
    requires
        0 <= k < families.len(),
        forall|j: int|
            0 <= j < k ==> !search::begins(families[k] + rest, #[trigger] families[j]),
    ensures
        is_main(families, families[k] + rest) == (rest.len() > 0 && '0' <= rest[0] <= '9'),
    decreases k,
{
    let id = families[k] + rest;
    if k == 0 {
        assert(id.take(families[0].len() as int) =~= families[0]);
        assert(id.skip(families[0].len() as int) =~= rest);
    } else {
        let more = families.drop_first();
        assert(!search::begins(id, families[0]));
        assert(more[k - 1] == families[k]);
        assert forall|j: int| 0 <= j < k - 1 implies !search::begins(
            more[k - 1] + rest,
            #[trigger] more[j],
        ) by {
            assert(more[j] == families[j + 1]);
        }
        lemma_main_model(more, k - 1, rest);
    }
}

/// What is reported of a model is its name, and whether it can use tools, if that is known.
pub proof fn lemma_model_tree(m: ModelView)
    ensures
        json::text_field(model_tree(m), "id"@) == Some(m.id),
        json::bool_field(model_tree(m), "supports_tools"@) == m.supports_tools,
{
    let t = model_tree(m)->Object_0;
    reveal_strlit("id");
    reveal_strlit("supports_tools");
    assert("id"@.len() != "supports_tools"@.len());
    json::lemma_member(t, "id"@, 0);
    json::lemma_member(t, "supports_tools"@, 1);
}

/// Each model is listed once, as it stands first; the names that are built in are listed
/// without anything known of them.
pub proof fn lemma_distinct(v: Seq<ModelView>, m: ModelView, ids: Seq<Seq<char>>, i: int)
    requires
        0 <= i < ids.len(),
    ensures
        has_model(distinct(v), m.id) ==> distinct(v.push(m)) == distinct(v),
        !has_model(distinct(v), m.id) ==> distinct(v.push(m)) == distinct(v).push(m),
        distinct(Seq::<ModelView>::empty()).len() == 0,
        named(ids).len() == ids.len(),
        named(ids)[i].id == ids[i] && named(ids)[i].supports_tools is None,
{
    assert(v.push(m).drop_last() =~= v);
}

} // verus!
