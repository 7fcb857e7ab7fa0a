use vstd::prelude::*;

verus! {

/// One node of a JSON document: its JSON text as it stands in the document,
/// and its shape.
pub struct JsonNode {
    pub text: String,
    pub kind: JsonKind,
}

/// The shape of a JSON node, as far as path queries look into it.
pub enum JsonKind {
    /// A number, `true`, `false` or `null`.
    Scalar,
    /// A string, with its decoded contents.
    Str(String),
    /// An array, with its elements in order.
    Array(Vec<JsonNode>),
    /// An object, with its members in order.
    Object(Vec<(String, JsonNode)>),
}

/// One step of a path query: `.name` or `[*]`.
pub enum PathStep {
    Field(String),
    Wildcard,
}

/// The first member of an object whose key is `key`.
pub open spec fn lookup(entries: Seq<(String, JsonNode)>, key: Seq<char>) -> Option<JsonNode>
    decreases entries.len(),
{
    if entries.len() == 0 {
        None
    } else if entries[0].0@ == key {
        Some(entries[0].1)
    } else {
        lookup(entries.drop_first(), key)
    }
}

/// The nodes that one step reaches from `j`; `None` where the step does not
/// fit the node's shape.
pub open spec fn step_node(j: JsonNode, s: PathStep) -> Option<Seq<JsonNode>> {
    match s {
        PathStep::Field(k) => match j.kind {
            JsonKind::Object(es) => match lookup(es@, k@) {
                Some(c) => Some(seq![c]),
                None => Some(Seq::empty()),
            },
            _ => None,
        },
        PathStep::Wildcard => match j.kind {
            JsonKind::Array(v) => Some(v@),
            _ => None,
        },
    }
}

/// One step applied to every node of `f`, the results concatenated in order.
pub open spec fn step_frontier(f: Seq<JsonNode>, s: PathStep) -> Option<Seq<JsonNode>>
    decreases f.len(),
{
    if f.len() == 0 {
        Some(Seq::empty())
    } else {
        match (step_frontier(f.drop_last(), s), step_node(f.last(), s)) {
            (Some(a), Some(b)) => Some(a + b),
            _ => None,
        }
    }
}

/// The nodes that a sequence of steps reaches from the nodes `f`.
pub open spec fn eval_steps(f: Seq<JsonNode>, steps: Seq<PathStep>) -> Option<Seq<JsonNode>>
    decreases steps.len(),
{
    if steps.len() == 0 {
        Some(f)
    } else {
        match step_frontier(f, steps[0]) {
            Some(g) => eval_steps(g, steps.drop_first()),
            None => None,
        }
    }
}

/// The JSON texts of the nodes that one query matches in `doc`.
pub open spec fn query_values(doc: JsonNode, q: Seq<PathStep>) -> Option<Seq<Seq<char>>> {
    match eval_steps(seq![doc], q) {
        Some(ns) => Some(ns.map_values(|n: JsonNode| n.text@)),
        None => None,
    }
}

/// The matches of every query, grouped by query in order.
pub open spec fn extract_values(doc: JsonNode, qs: Seq<Seq<PathStep>>) -> Option<Seq<Seq<char>>>
    decreases qs.len(),
{
    if qs.len() == 0 {
        Some(Seq::empty())
    } else {
        match (extract_values(doc, qs.drop_last()), query_values(doc, qs.last())) {
            (Some(a), Some(b)) => Some(a + b),
            _ => None,
        }
    }
}

proof fn lemma_frontier_none_extends(f: Seq<JsonNode>, s: PathStep, i: int)
    requires
        0 <= i <= f.len(),
        step_frontier(f.subrange(0, i), s) is None,
    ensures
        step_frontier(f, s) is None,
    decreases f.len() - i,
{
    if i < f.len() {
        assert(f.subrange(0, i + 1).drop_last() =~= f.subrange(0, i));
        lemma_frontier_none_extends(f, s, i + 1);
    } else {
        assert(f.subrange(0, i) =~= f);
    }
}

fn find_member<'a>(es: &'a Vec<(String, JsonNode)>, key: &String) -> (r: Option<&'a JsonNode>)
    ensures
        match r {
            Some(c) => lookup(es@, key@) == Some(*c),
            None => lookup(es@, key@) is None,
        },
{
    let mut i: usize = 0;
    assert(es@.subrange(0, es.len() as int) =~= es@);
    while i < es.len()
        invariant
            i <= es.len(),
            lookup(es@, key@) == lookup(es@.subrange(i as int, es.len() as int), key@),
        decreases es.len() - i,
    {
        assert(es@.subrange(i as int, es.len() as int).drop_first()
            =~= es@.subrange(i + 1, es.len() as int));
        if es[i].0 == *key {
            return Some(&es[i].1);
        }
        i = i + 1;
    }
    None
}

fn step_all<'a>(f: &Vec<&'a JsonNode>, s: &PathStep) -> (r: Option<Vec<&'a JsonNode>>)
    ensures
        match r {
            Some(g) => step_frontier(f@.map_values(|n: &JsonNode| *n), *s) == Some(
                g@.map_values(|n: &JsonNode| *n),
            ),
            None => step_frontier(f@.map_values(|n: &JsonNode| *n), *s) is None,
        },
{
    let ghost fv = f@.map_values(|n: &JsonNode| *n);
    let mut out: Vec<&'a JsonNode> = Vec::new();
    let mut i: usize = 0;
    while i < f.len()
        invariant
            i <= f.len(),
            fv == f@.map_values(|n: &JsonNode| *n),
            step_frontier(fv.subrange(0, i as int), *s) == Some(
                out@.map_values(|n: &JsonNode| *n),
            ),
        decreases f.len() - i,
    {
        let node: &'a JsonNode = f[i];
        assert(fv.subrange(0, i + 1).drop_last() =~= fv.subrange(0, i as int));
        assert(fv.subrange(0, i + 1).last() == *node);
        let ghost before = out@.map_values(|n: &JsonNode| *n);
        match s {
            PathStep::Field(k) => match &node.kind {
                JsonKind::Object(es) => {
                    match find_member(es, k) {
                        Some(c) => {
                            out.push(c);
                            assert(out@.map_values(|n: &JsonNode| *n) =~= before + seq![*c]);
                        },
                        None => {
                            assert(before + Seq::<JsonNode>::empty() =~= before);
                        },
                    }
                },
                _ => {
                    proof {
                        lemma_frontier_none_extends(fv, *s, i + 1);
                    }
                    return None;
                },
            },
            PathStep::Wildcard => match &node.kind {
                JsonKind::Array(v) => {
                    let mut j: usize = 0;
                    while j < v.len()
                        invariant
                            j <= v.len(),
                            out@.map_values(|n: &JsonNode| *n) =~= before + v@.subrange(0, j as int),
                        decreases v.len() - j,
                    {
                        let ghost prev = out@;
                        out.push(&v[j]);
                        assert(out@.map_values(|n: &JsonNode| *n) =~= prev.map_values(
                            |n: &JsonNode| *n,
                        ).push(v@[j as int]));
                        assert(v@.subrange(0, j + 1) =~= v@.subrange(0, j as int) + seq![v@[j as int]]);
                        j = j + 1;
                    }
                    assert(v@.subrange(0, v.len() as int) =~= v@);
                },
                _ => {
                    proof {
                        lemma_frontier_none_extends(fv, *s, i + 1);
                    }
                    return None;
                },
            },
        }
        i = i + 1;
    }
    assert(fv.subrange(0, f.len() as int) =~= fv);
    Some(out)
}

fn eval_query<'a>(doc: &'a JsonNode, q: &Vec<PathStep>) -> (r: Option<Vec<&'a JsonNode>>)
    ensures
        match r {
            Some(ns) => eval_steps(seq![*doc], q@) == Some(ns@.map_values(|n: &JsonNode| *n)),
            None => eval_steps(seq![*doc], q@) is None,
        },
{
    let mut cur: Vec<&'a JsonNode> = Vec::new();
    cur.push(doc);
    assert(cur@.map_values(|n: &JsonNode| *n) =~= seq![*doc]);
    assert(q@.subrange(0, q.len() as int) =~= q@);
    let mut k: usize = 0;
    while k < q.len()
        invariant
            k <= q.len(),
            eval_steps(seq![*doc], q@) == eval_steps(
                cur@.map_values(|n: &JsonNode| *n),
                q@.subrange(k as int, q.len() as int),
            ),
        decreases q.len() - k,
    {
        let ghost rest = q@.subrange(k as int, q.len() as int);
        assert(rest[0] == q@[k as int]);
        assert(rest.drop_first() =~= q@.subrange(k + 1, q.len() as int));
        match step_all(&cur, &q[k]) {
            Some(g) => {
                cur = g;
            },
            None => {
                return None;
            },
        }
        k = k + 1;
    }
    Some(cur)
}

/// Evaluates each query against `doc` and returns the JSON texts of all
/// matches, grouped by query in the order of `queries`; `None` where a
/// query does not fit the document's shape. A query that matches nothing
/// contributes no values.
pub fn get_json_values(doc: &JsonNode, queries: &Vec<Vec<PathStep>>) -> (r: Option<Vec<String>>)
    ensures
        match r {
            Some(v) => extract_values(*doc, queries@.map_values(|q: Vec<PathStep>| q@)) == Some(
                v.deep_view(),
            ),
            None => extract_values(*doc, queries@.map_values(|q: Vec<PathStep>| q@)) is None,
        },
{
    let ghost qs = queries@.map_values(|q: Vec<PathStep>| q@);
    let mut out: Vec<String> = Vec::new();
    let mut k: usize = 0;
    while k < queries.len()
        invariant
            k <= queries.len(),
            qs == queries@.map_values(|q: Vec<PathStep>| q@),
            extract_values(*doc, qs.subrange(0, k as int)) == Some(out.deep_view()),
        decreases queries.len() - k,
    {
        assert(qs.subrange(0, k + 1).drop_last() =~= qs.subrange(0, k as int));
        assert(qs.subrange(0, k + 1).last() == queries@[k as int]@);
        match eval_query(doc, &queries[k]) {
            Some(ns) => {
                let ghost before = out.deep_view();
                let ghost texts = ns@.map_values(|n: &JsonNode| *n).map_values(
                    |n: JsonNode| n.text@,
                );
                let mut j: usize = 0;
                while j < ns.len()
                    invariant
                        j <= ns.len(),
                        texts == ns@.map_values(|n: &JsonNode| *n).map_values(|n: JsonNode| n.text@),
                        out.deep_view() =~= before + texts.subrange(0, j as int),
                    decreases ns.len() - j,
                {
                    let ghost prev = out.deep_view();
                    let t = ns[j].text.clone();
                    out.push(t);
                    assert(out.deep_view() =~= prev.push(texts[j as int]));
                    assert(texts.subrange(0, j + 1) =~= texts.subrange(0, j as int).push(
                        texts[j as int],
                    ));
                    j = j + 1;
                }
                assert(texts.subrange(0, ns.len() as int) =~= texts);
            },
            None => {
                proof {
                    lemma_extract_none_extends(*doc, qs, k + 1);
                }
                return None;
            },
        }
        k = k + 1;
    }
    assert(qs.subrange(0, queries.len() as int) =~= qs);
    Some(out)
}

proof fn lemma_extract_none_extends(doc: JsonNode, qs: Seq<Seq<PathStep>>, i: int)
    requires
        0 <= i <= qs.len(),
        extract_values(doc, qs.subrange(0, i)) is None,
    ensures
        extract_values(doc, qs) is None,
    decreases qs.len() - i,
{
    if i < qs.len() {
        assert(qs.subrange(0, i + 1).drop_last() =~= qs.subrange(0, i));
        lemma_extract_none_extends(doc, qs, i + 1);
    } else {
        assert(qs.subrange(0, i) =~= qs);
    }
}

/// The member `key` of an object node; `None` for a missing key or a node
/// that is no object.
pub open spec fn member_of(j: JsonNode, key: Seq<char>) -> Option<JsonNode> {
    match j.kind {
        JsonKind::Object(es) => lookup(es@, key),
        _ => None,
    }
}

/// The element `i` of an array node; `None` out of range or for a node that
/// is no array.
pub open spec fn element_of(j: JsonNode, i: int) -> Option<JsonNode> {
    match j.kind {
        JsonKind::Array(v) => if 0 <= i < v.len() {
            Some(v@[i])
        } else {
            None
        },
        _ => None,
    }
}

/// The member `key` of an object node.
pub fn member<'a>(j: &'a JsonNode, key: &String) -> (r: Option<&'a JsonNode>)
    ensures
        match r {
            Some(c) => member_of(*j, key@) == Some(*c),
            None => member_of(*j, key@) is None,
        },
{
    match &j.kind {
        JsonKind::Object(es) => find_member(es, key),
        _ => None,
    }
}

/// The element `i` of an array node.
pub fn element<'a>(j: &'a JsonNode, i: usize) -> (r: Option<&'a JsonNode>)
    ensures
        match r {
            Some(c) => element_of(*j, i as int) == Some(*c),
            None => element_of(*j, i as int) is None,
        },
{
    match &j.kind {
        JsonKind::Array(v) => if i < v.len() {
            Some(&v[i])
        } else {
            None
        },
        _ => None,
    }
}

} // verus!
