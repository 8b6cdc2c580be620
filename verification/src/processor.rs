//! The rebalance pass: deterministic ordering and round-robin assignment.
//!
//! The pass filters the node lookup down to the candidate pool — the nodes
//! carrying the target role, in lookup order — sorts the documents by the
//! composite key (data-stream name, index name, shard number,
//! primary-before-replica) and assigns the document at sorted position `i`
//! the pool entry at `i` modulo the pool size.  An empty pool is reported
//! as an explicit error, never as an arithmetic fault.

use vstd::prelude::*;
use vstd::arithmetic::div_mod::{
    lemma_fundamental_div_mod, lemma_fundamental_div_mod_converse_div,
    lemma_fundamental_div_mod_converse_mod, lemma_mod_pos_bound,
};
use vstd::pervasive::VecAdditionalExecFns;

use crate::data_streams::DataStreams;
use crate::errors::BalanceError;
use crate::index_stats::{extract_shard_docs, spec_extract_docs};
use crate::indices_settings::IndicesSettings;
use crate::lookup::Lookup;
use crate::lookups::{
    spec_data_stream_lookup, spec_index_settings_lookup, spec_node_lookup, Lookups,
};
use crate::nodes::{Node, Nodes};
use crate::shards::{
    spec_data_stream_name, spec_index_name, spec_set_desired, IndicesStats, ShardDoc,
};
use crate::text::{
    compare_str, lemma_str_cmp_antisym, lemma_str_cmp_eq, lemma_str_cmp_trans, spec_str_cmp,
    str_eq,
};

verus! {

/// Three-way comparison of two documents by the composite rebalance key:
/// data-stream name, then index name, then shard number, then primary
/// before replica.
pub open spec fn spec_doc_cmp(a: ShardDoc, b: ShardDoc) -> int {
    let stream_order = spec_str_cmp(spec_data_stream_name(a), spec_data_stream_name(b));
    if stream_order != 0 {
        stream_order
    } else {
        let index_order = spec_str_cmp(spec_index_name(a), spec_index_name(b));
        if index_order != 0 {
            index_order
        } else if a.shard.number < b.shard.number {
            -1
        } else if a.shard.number > b.shard.number {
            1
        } else {
            let a_rank: int = if a.shard.routing.primary { 0 } else { 1 };
            let b_rank: int = if b.shard.routing.primary { 0 } else { 1 };
            if a_rank < b_rank {
                -1
            } else if a_rank > b_rank {
                1
            } else {
                0
            }
        }
    }
}

/// `a` sorts no later than `b` under the composite key.
pub open spec fn spec_doc_le(a: ShardDoc, b: ShardDoc) -> bool {
    spec_doc_cmp(a, b) <= 0
}

/// The composite key order is total: one of the two directions holds.
pub proof fn lemma_doc_le_total(a: ShardDoc, b: ShardDoc)
    ensures
        spec_doc_cmp(a, b) == -spec_doc_cmp(b, a),
        spec_doc_le(a, b) || spec_doc_le(b, a),
{
    lemma_str_cmp_antisym(spec_data_stream_name(a), spec_data_stream_name(b));
    lemma_str_cmp_antisym(spec_index_name(a), spec_index_name(b));
}

/// The composite key order is transitive.
pub proof fn lemma_doc_le_trans(a: ShardDoc, b: ShardDoc, c: ShardDoc)
    requires
        spec_doc_le(a, b),
        spec_doc_le(b, c),
    ensures
        spec_doc_le(a, c),
{
    let ds_ab = spec_str_cmp(spec_data_stream_name(a), spec_data_stream_name(b));
    let ds_bc = spec_str_cmp(spec_data_stream_name(b), spec_data_stream_name(c));
    if ds_ab == 0 {
        lemma_str_cmp_eq(spec_data_stream_name(a), spec_data_stream_name(b));
    }
    if ds_bc == 0 {
        lemma_str_cmp_eq(spec_data_stream_name(b), spec_data_stream_name(c));
    }
    if ds_ab == 0 && ds_bc == 0 {
        let ix_ab = spec_str_cmp(spec_index_name(a), spec_index_name(b));
        let ix_bc = spec_str_cmp(spec_index_name(b), spec_index_name(c));
        if ix_ab == 0 {
            lemma_str_cmp_eq(spec_index_name(a), spec_index_name(b));
        }
        if ix_bc == 0 {
            lemma_str_cmp_eq(spec_index_name(b), spec_index_name(c));
        }
        if ix_ab < 0 || ix_bc < 0 {
            lemma_str_cmp_strict_trans(spec_index_name(a), spec_index_name(b), spec_index_name(c));
        }
    } else {
        lemma_str_cmp_strict_trans(
            spec_data_stream_name(a),
            spec_data_stream_name(b),
            spec_data_stream_name(c),
        );
    }
}

/// Chaining two comparisons that are not both ties keeps the strict one.
proof fn lemma_str_cmp_strict_trans(x: Seq<char>, y: Seq<char>, z: Seq<char>)
    requires
        spec_str_cmp(x, y) <= 0,
        spec_str_cmp(y, z) <= 0,
        spec_str_cmp(x, y) < 0 || spec_str_cmp(y, z) < 0,
    ensures
        spec_str_cmp(x, z) < 0,
{
    lemma_str_cmp_trans(x, y, z);
    if spec_str_cmp(x, z) == 0 {
        lemma_str_cmp_eq(x, z);
        lemma_str_cmp_antisym(x, y);
    }
}

/// Compares two documents by the composite rebalance key.
pub fn doc_le(a: &ShardDoc, b: &ShardDoc) -> (r: bool)
    ensures
        r == spec_doc_le(*a, *b),
{
    let a_stream = a.data_stream_name();
    let b_stream = b.data_stream_name();
    let stream_order = compare_str(a_stream.as_str(), b_stream.as_str());
    if stream_order != 0 {
        return stream_order < 0;
    }
    let a_index = a.index_name();
    let b_index = b.index_name();
    let index_order = compare_str(a_index.as_str(), b_index.as_str());
    if index_order != 0 {
        return index_order < 0;
    }
    if a.shard.number != b.shard.number {
        return a.shard.number < b.shard.number;
    }
    let a_rank: u8 = if a.shard.routing.primary { 0 } else { 1 };
    let b_rank: u8 = if b.shard.routing.primary { 0 } else { 1 };
    a_rank <= b_rank
}

/// The documents are ordered by the composite key.
pub open spec fn docs_sorted(s: Seq<ShardDoc>) -> bool {
    forall|i: int, j: int| 0 <= i < j < s.len() ==> spec_doc_le(#[trigger] s[i], #[trigger] s[j])
}

/// `d` inserted behind every element it does not sort strictly before, so
/// that equal-key documents keep their arrival order.
pub open spec fn spec_sorted_insert(s: Seq<ShardDoc>, d: ShardDoc) -> Seq<ShardDoc>
    decreases s.len(),
{
    if s.len() == 0 {
        seq![d]
    } else if spec_doc_le(s.last(), d) {
        s.push(d)
    } else {
        spec_sorted_insert(s.drop_last(), d).push(s.last())
    }
}

/// The stable sort of a document run under the composite key: documents
/// are inserted in arrival order, each behind its equal-key predecessors.
pub open spec fn spec_sort_docs(s: Seq<ShardDoc>) -> Seq<ShardDoc>
    decreases s.len(),
{
    if s.len() == 0 {
        Seq::empty()
    } else {
        spec_sorted_insert(spec_sort_docs(s.drop_last()), s.last())
    }
}

/// Everything in a sorted insertion came from the run or is the new document.
proof fn lemma_sorted_insert_elems(s: Seq<ShardDoc>, d: ShardDoc)
    ensures
        forall|x: ShardDoc| #[trigger]
            spec_sorted_insert(s, d).contains(x) ==> s.contains(x) || x == d,
    decreases s.len(),
{
    if s.len() > 0 && !spec_doc_le(s.last(), d) {
        lemma_sorted_insert_elems(s.drop_last(), d);
        assert forall|x: ShardDoc| #[trigger]
            spec_sorted_insert(s, d).contains(x) implies s.contains(x) || x == d by {
            let inserted = spec_sorted_insert(s.drop_last(), d);
            if inserted.contains(x) {
                if s.drop_last().contains(x) {
                    let i = choose|i: int| 0 <= i < s.drop_last().len() && s.drop_last()[i] == x;
                    assert(s[i] == x);
                } else {
                    assert(x == d);
                }
            } else {
                assert(x == s.last());
                assert(s[s.len() - 1] == x);
            }
        }
    } else {
        assert forall|x: ShardDoc| #[trigger]
            spec_sorted_insert(s, d).contains(x) implies s.contains(x) || x == d by {
            if s.len() > 0 {
                let i = choose|i: int| 0 <= i < s.push(d).len() && s.push(d)[i] == x;
                if i < s.len() {
                    assert(s[i] == x);
                }
            }
        }
    }
}

/// Sorted insertion keeps the run sorted, grows it by one, and adds exactly
/// the new document to the multiset.
proof fn lemma_sorted_insert_props(s: Seq<ShardDoc>, d: ShardDoc)
    requires
        docs_sorted(s),
    ensures
        docs_sorted(spec_sorted_insert(s, d)),
        spec_sorted_insert(s, d).len() == s.len() + 1,
        spec_sorted_insert(s, d).to_multiset() == s.to_multiset().insert(d),
    decreases s.len(),
{
    broadcast use vstd::seq_lib::group_to_multiset_ensures;

    if s.len() == 0 {
        assert(seq![d] =~= Seq::empty().push(d));
        assert(Seq::<ShardDoc>::empty().push(d).to_multiset() =~= Seq::<
            ShardDoc,
        >::empty().to_multiset().insert(d));
        assert(s.to_multiset() =~= Seq::<ShardDoc>::empty().to_multiset());
    } else if spec_doc_le(s.last(), d) {
        let out = s.push(d);
        assert forall|i: int, j: int| 0 <= i < j < out.len() implies spec_doc_le(
            #[trigger] out[i],
            #[trigger] out[j],
        ) by {
            if j == out.len() - 1 {
                if i < s.len() - 1 {
                    lemma_doc_le_trans(s[i], s.last(), d);
                }
            }
        }
    } else {
        let rec = spec_sorted_insert(s.drop_last(), d);
        assert(docs_sorted(s.drop_last()));
        lemma_sorted_insert_props(s.drop_last(), d);
        lemma_sorted_insert_elems(s.drop_last(), d);
        let out = rec.push(s.last());
        lemma_doc_le_total(s.last(), d);
        assert forall|i: int, j: int| 0 <= i < j < out.len() implies spec_doc_le(
            #[trigger] out[i],
            #[trigger] out[j],
        ) by {
            if j == out.len() - 1 {
                assert(rec.contains(rec[i]));
                if s.drop_last().contains(rec[i]) {
                    let t = choose|t: int|
                        0 <= t < s.drop_last().len() && s.drop_last()[t] == rec[i];
                    assert(s[t] == rec[i]);
                    assert(spec_doc_le(s[t], s.last()));
                } else {
                    assert(rec[i] == d);
                }
            }
        }
        assert(s =~= s.drop_last().push(s.last()));
        assert(s.drop_last().push(s.last()).to_multiset() =~= s.drop_last().to_multiset().insert(
            s.last(),
        ));
        assert(out.to_multiset() =~= rec.to_multiset().insert(s.last()));
        assert(rec.to_multiset() =~= s.drop_last().to_multiset().insert(d));
        assert(out.to_multiset() =~= s.to_multiset().insert(d)) by {
            assert(s.drop_last().to_multiset().insert(d).insert(s.last())
                =~= s.drop_last().to_multiset().insert(s.last()).insert(d));
        }
    }
}

/// The stable sort is sorted and is a permutation of its input.
pub proof fn lemma_sort_docs_props(s: Seq<ShardDoc>)
    ensures
        docs_sorted(spec_sort_docs(s)),
        spec_sort_docs(s).len() == s.len(),
        spec_sort_docs(s).to_multiset() == s.to_multiset(),
    decreases s.len(),
{
    broadcast use vstd::seq_lib::group_to_multiset_ensures;

    if s.len() == 0 {
        assert(spec_sort_docs(s).to_multiset() =~= s.to_multiset());
    } else {
        lemma_sort_docs_props(s.drop_last());
        lemma_sorted_insert_props(spec_sort_docs(s.drop_last()), s.last());
        assert(s =~= s.drop_last().push(s.last()));
        assert(s.drop_last().push(s.last()).to_multiset() =~= s.drop_last().to_multiset().insert(
            s.last(),
        ));
    }
}

/// Where the insertion point lies, the insertion is take, new document, skip.
proof fn lemma_sorted_insert_at(s: Seq<ShardDoc>, d: ShardDoc, p: int)
    requires
        0 <= p <= s.len(),
        forall|j: int| p <= j < s.len() ==> !spec_doc_le(#[trigger] s[j], d),
        p > 0 ==> spec_doc_le(s[p - 1], d),
    ensures
        spec_sorted_insert(s, d) == s.take(p).push(d) + s.skip(p),
    decreases s.len(),
{
    if p == s.len() {
        if s.len() == 0 {
            assert(spec_sorted_insert(s, d) =~= s.take(p).push(d) + s.skip(p));
        } else {
            assert(spec_doc_le(s.last(), d));
            assert(spec_sorted_insert(s, d) =~= s.take(p).push(d) + s.skip(p));
        }
    } else {
        assert(!spec_doc_le(s.last(), d));
        lemma_sorted_insert_at(s.drop_last(), d, p);
        assert(s.drop_last().take(p) =~= s.take(p));
        assert(spec_sorted_insert(s, d) =~= s.take(p).push(d) + s.skip(p));
    }
}

/// Sorts the documents in place by the composite rebalance key.  The sort
/// is stable, so the result is exactly [`spec_sort_docs`] of the input.
pub fn sort_shard_docs(docs: &mut Vec<ShardDoc>)
    ensures
        final(docs)@ == spec_sort_docs(old(docs)@),
        docs_sorted(final(docs)@),
        final(docs)@.to_multiset() == old(docs)@.to_multiset(),
{
    let mut sorted: Vec<ShardDoc> = Vec::new();
    let n = docs.len();
    proof {
        assert(docs@.take(0) =~= Seq::<ShardDoc>::empty());
        assert(sorted@ =~= spec_sort_docs(docs@.take(0)));
    }
    for i in 0..n
        invariant
            n == docs@.len(),
            sorted@ == spec_sort_docs(docs@.take(i as int)),
            docs_sorted(sorted@),
    {
        let d = docs[i].clone();
        let mut p: usize = sorted.len();
        while p > 0 && !doc_le(&sorted[p - 1], &d)
            invariant
                p <= sorted@.len(),
                forall|j: int| p <= j < sorted@.len() ==> !spec_doc_le(#[trigger] sorted@[j], d),
            decreases p,
        {
            p = p - 1;
        }
        proof {
            lemma_sorted_insert_at(sorted@, d, p as int);
            lemma_sorted_insert_props(sorted@, d);
            assert(docs@.take(i + 1).drop_last() =~= docs@.take(i as int));
            assert(docs@.take(i + 1).last() == docs@[i as int]);
        }
        let ghost before = sorted@;
        sorted.insert(p, d);
        proof {
            assert(sorted@ =~= before.take(p as int).push(d) + before.skip(p as int));
        }
    }
    proof {
        assert(docs@.take(n as int) =~= docs@);
    }
    let ghost input = docs@;
    *docs = sorted;
    proof {
        lemma_sort_docs_props(input);
    }
}

/// Whether one of the node's roles is exactly `role`.
pub open spec fn spec_role_match(node: Node, role: Seq<char>) -> bool {
    exists|j: int| 0 <= j < node.roles@.len() && #[trigger] node.roles@[j]@ == role
}

/// The names of the nodes carrying `role`, in lookup order.
pub open spec fn spec_candidate_pool(nodes: Seq<Node>, role: Seq<char>) -> Seq<String>
    decreases nodes.len(),
{
    if nodes.len() == 0 {
        Seq::empty()
    } else {
        spec_candidate_pool(nodes.drop_last(), role) + if spec_role_match(nodes.last(), role) {
            seq![nodes.last().name]
        } else {
            Seq::empty()
        }
    }
}

/// Whether one of the node's declared roles is exactly `role`.
fn node_has_role(node: &Node, role: &str) -> (r: bool)
    ensures
        r == spec_role_match(*node, role@),
{
    let n = node.roles.len();
    for j in 0..n
        invariant
            n == node.roles@.len(),
            forall|k: int| 0 <= k < j ==> #[trigger] node.roles@[k]@ != role@,
    {
        if str_eq(node.roles[j].as_str(), role) {
            return true;
        }
    }
    false
}

/// The candidate pool: the names of every node in the lookup whose role
/// set contains the target role, in lookup iteration order.
pub fn candidate_pool(node_lookup: &Lookup<Node>, role: &str) -> (r: Vec<String>)
    ensures
        r@ == spec_candidate_pool(node_lookup@.entries, role@),
{
    let entries = node_lookup.get_entries();
    let mut pool: Vec<String> = Vec::new();
    let n = entries.len();
    proof {
        assert(entries@.take(0) =~= Seq::<Node>::empty());
        assert(pool@ =~= spec_candidate_pool(entries@.take(0), role@));
    }
    for i in 0..n
        invariant
            n == entries@.len(),
            entries@ == node_lookup@.entries,
            pool@ == spec_candidate_pool(entries@.take(i as int), role@),
    {
        proof {
            assert(entries@.take(i + 1).drop_last() =~= entries@.take(i as int));
            assert(entries@.take(i + 1).last() == entries@[i as int]);
        }
        let ghost before = pool@;
        if node_has_role(&entries[i], role) {
            pool.push(entries[i].name.clone());
            proof {
                assert(pool@ =~= before + seq![entries@[i as int].name]);
            }
        } else {
            proof {
                assert(pool@ =~= before + Seq::<String>::empty());
            }
        }
    }
    proof {
        assert(entries@.take(n as int) =~= entries@);
    }
    pool
}

/// The documents with the advisory desired-target-node of position `i` set
/// to the pool entry at `i` modulo the pool size.
pub open spec fn spec_assign(s: Seq<ShardDoc>, pool: Seq<String>) -> Seq<ShardDoc> {
    Seq::new(s.len(), |i: int| spec_set_desired(s[i], pool[i % (pool.len() as int)]))
}

/// Walks the documents in order, assigning position `i` the candidate at
/// `i` modulo the pool size.
pub fn assign_desired_nodes(docs: &mut Vec<ShardDoc>, pool: &Vec<String>)
    requires
        pool@.len() > 0,
    ensures
        final(docs)@ == spec_assign(old(docs)@, pool@),
{
    let n = docs.len();
    let k = pool.len();
    for i in 0..n
        invariant
            n == docs@.len(),
            n == old(docs)@.len(),
            k == pool@.len(),
            k > 0,
            forall|j: int| i <= j < n ==> docs@[j] == old(docs)@[j],
            forall|j: int| 0 <= j < i ==> docs@[j] == #[trigger] spec_assign(old(docs)@, pool@)[j],
    {
        let mut doc = docs[i].clone();
        doc.set_desired_node(pool[i % k].clone());
        proof {
            assert(spec_assign(old(docs)@, pool@)[i as int] == spec_set_desired(
                old(docs)@[i as int],
                pool@[(i as int) % (pool@.len() as int)],
            ));
        }
        docs.set(i, doc);
    }
    proof {
        assert(docs@ =~= spec_assign(old(docs)@, pool@));
    }
}

/// The full rebalance of a document run over a candidate pool: stable sort
/// by the composite key, then round-robin assignment by sorted position.
pub open spec fn spec_rebalance(docs: Seq<ShardDoc>, pool: Seq<String>) -> Seq<ShardDoc> {
    spec_assign(spec_sort_docs(docs), pool)
}

/// Annotates every document with its advisory desired-target-node: the
/// candidate pool is the node lookup filtered by `role`, the documents are
/// sorted by the composite key, and position `i` receives candidate
/// `i % pool size`.  Fails with [`BalanceError::NoEligibleNode`] exactly
/// when no node carries `role`; the documents are then left untouched.
pub fn rebalance_shards(lookups: &Lookups, shards: &mut Vec<ShardDoc>, role: &str) -> (r: Result<
    (),
    BalanceError,
>)
    ensures
        match r {
            Ok(_) => spec_candidate_pool(lookups.node@.entries, role@).len() > 0 && final(shards)@
                == spec_rebalance(old(shards)@, spec_candidate_pool(lookups.node@.entries, role@)),
            Err(e) => e == BalanceError::NoEligibleNode && spec_candidate_pool(
                lookups.node@.entries,
                role@,
            ).len() == 0 && final(shards)@ == old(shards)@,
        },
{
    let pool = candidate_pool(&lookups.node, role);
    if pool.len() == 0 {
        return Err(BalanceError::NoEligibleNode);
    }
    sort_shard_docs(shards);
    assign_desired_nodes(shards, &pool);
    Ok(())
}

/// The result of one whole run over the four frozen payloads: the lookup
/// bundle is built, the statistics payload is flattened into documents, and
/// the documents are rebalanced over the nodes carrying `role`.
pub open spec fn spec_evaluate(
    data_streams: DataStreams,
    indices_settings: IndicesSettings,
    nodes: Nodes,
    indices_stats: IndicesStats,
    role: Seq<char>,
    timestamp: i64,
) -> Result<Seq<ShardDoc>, BalanceError> {
    let stream_model = spec_data_stream_lookup(data_streams.data_streams@);
    let index_model = spec_index_settings_lookup(indices_settings@);
    let node_model = spec_node_lookup(nodes.nodes@);
    match spec_extract_docs(
        indices_stats.indices@,
        stream_model,
        index_model,
        node_model,
        timestamp,
    ) {
        Err(e) => Err(e),
        Ok(docs) => {
            let pool = spec_candidate_pool(node_model.entries, role);
            if pool.len() == 0 {
                Err(BalanceError::NoEligibleNode)
            } else {
                Ok(spec_rebalance(docs, pool))
            }
        },
    }
}

/// One whole run: builds the lookups from the three metadata payloads,
/// extracts one document per replica snapshot, and assigns every document
/// an advisory desired-target-node by round robin over the nodes carrying
/// `role`.  Fails exactly when a replica references an unknown node or no
/// node carries the role.
pub fn evaluate_shard_balance(
    data_streams: DataStreams,
    indices_settings: IndicesSettings,
    nodes: Nodes,
    indices_stats: IndicesStats,
    role: &str,
    timestamp: i64,
) -> (r: Result<Vec<ShardDoc>, BalanceError>)
    ensures
        spec_evaluate(data_streams, indices_settings, nodes, indices_stats, role@, timestamp)
            == match r {
            Ok(docs) => Ok::<Seq<ShardDoc>, BalanceError>(docs@),
            Err(e) => Err::<Seq<ShardDoc>, BalanceError>(e),
        },
{
    let lookups = Lookups::new(data_streams, indices_settings, nodes);
    let mut docs = match extract_shard_docs(indices_stats, &lookups, timestamp) {
        Ok(docs) => docs,
        Err(e) => {
            return Err(e);
        },
    };
    match rebalance_shards(&lookups, &mut docs, role) {
        Ok(_) => Ok(docs),
        Err(e) => Err(e),
    }
}

/// Two sorted runs holding the same documents are identical, provided no
/// two distinct documents in them share the composite key.
proof fn lemma_sorted_docs_unique(x: Seq<ShardDoc>, y: Seq<ShardDoc>)
    requires
        docs_sorted(x),
        docs_sorted(y),
        x.to_multiset() == y.to_multiset(),
        forall|a: ShardDoc, b: ShardDoc|
            x.to_multiset().contains(a) && x.to_multiset().contains(b) && spec_doc_cmp(a, b) == 0
                ==> a == b,
    ensures
        x == y,
    decreases x.len(),
{
    broadcast use vstd::seq_lib::group_to_multiset_ensures;
    broadcast use vstd::multiset::group_multiset_axioms;

    assert(x.to_multiset().len() == x.len());
    assert(y.to_multiset().len() == y.len());
    if x.len() == 0 {
        assert(x =~= y);
    } else {
        assert(y.len() > 0);
        assert(x.contains(x[0]) && y.contains(y[0]));
        assert(x.to_multiset().contains(y[0]));
        assert(x.contains(y[0]));
        let i = choose|i: int| 0 <= i < x.len() && x[i] == y[0];
        assert(y.to_multiset().contains(x[0]));
        assert(y.contains(x[0]));
        let j = choose|j: int| 0 <= j < y.len() && y[j] == x[0];
        lemma_doc_le_total(x[0], y[0]);
        if i > 0 {
            assert(spec_doc_le(x[0], x[i]));
        } else {
            lemma_doc_le_total(x[0], x[0]);
        }
        if j > 0 {
            assert(spec_doc_le(y[0], y[j]));
        } else {
            lemma_doc_le_total(y[0], y[0]);
        }
        assert(spec_doc_cmp(x[0], y[0]) == 0);
        assert(x[0] == y[0]);
        assert(x.remove(0) =~= x.drop_first());
        assert(y.remove(0) =~= y.drop_first());
        assert(x.drop_first().to_multiset() =~= x.to_multiset().remove(x[0]));
        assert(y.drop_first().to_multiset() =~= y.to_multiset().remove(y[0]));
        assert forall|a: ShardDoc, b: ShardDoc|
            x.drop_first().to_multiset().contains(a) && x.drop_first().to_multiset().contains(b)
                && spec_doc_cmp(a, b) == 0 implies a == b by {
            assert(x.to_multiset().contains(a) && x.to_multiset().contains(b));
        }
        lemma_sorted_docs_unique(x.drop_first(), y.drop_first());
        assert forall|t: int| 0 <= t < x.len() implies x[t] == y[t] by {
            if t > 0 {
                assert(x[t] == x.drop_first()[t - 1]);
                assert(y[t] == y.drop_first()[t - 1]);
            }
        }
        assert(x =~= y);
    }
}

/// The rebalance pass is insensitive to the order in which extraction
/// emitted the documents: two runs over the same document set (taken as a
/// multiset) and the same candidate pool produce identical desired-target
/// assignments, provided no two distinct documents share the composite
/// sort key.
pub proof fn lemma_rebalance_deterministic(
    docs1: Seq<ShardDoc>,
    docs2: Seq<ShardDoc>,
    pool: Seq<String>,
)
    requires
        docs1.to_multiset() == docs2.to_multiset(),
        forall|a: ShardDoc, b: ShardDoc|
            docs1.to_multiset().contains(a) && docs1.to_multiset().contains(b) && spec_doc_cmp(
                a,
                b,
            ) == 0 ==> a == b,
    ensures
        spec_rebalance(docs1, pool) == spec_rebalance(docs2, pool),
{
    lemma_sort_docs_props(docs1);
    lemma_sort_docs_props(docs2);
    lemma_sorted_docs_unique(spec_sort_docs(docs1), spec_sort_docs(docs2));
}

/// How many of the first `n` positions round robin sends to pool slot `j`.
pub open spec fn count_mod(n: int, k: int, j: int) -> int
    decreases n,
{
    if n <= 0 {
        0
    } else {
        count_mod(n - 1, k, j) + if (n - 1) % k == j {
            1int
        } else {
            0int
        }
    }
}

/// How many documents of the run carry `name` as their desired target.
pub open spec fn count_desired(docs: Seq<ShardDoc>, name: String) -> int
    decreases docs.len(),
{
    if docs.len() == 0 {
        0
    } else {
        count_desired(docs.drop_last(), name) + if spec_doc_desires(docs.last(), name) {
            1int
        } else {
            0int
        }
    }
}

/// Whether the document's node enrichment carries `name` as desired target.
pub open spec fn spec_doc_desires(doc: ShardDoc, name: String) -> bool {
    match doc.enrich.node {
        Some(node) => node.desired == Some(name),
        None => false,
    }
}

/// The closed form of [`count_mod`]: slot `j` takes `n / k` positions,
/// plus one for a slot that lies before the remainder.
proof fn lemma_count_mod_value(n: int, k: int, j: int)
    requires
        0 <= n,
        0 < k,
        0 <= j < k,
    ensures
        count_mod(n, k, j) == n / k + if j < n % k {
            1int
        } else {
            0int
        },
    decreases n,
{
    if n == 0 {
        lemma_fundamental_div_mod_converse_div(0, k, 0, 0);
        lemma_fundamental_div_mod_converse_mod(0, k, 0, 0);
    } else {
        lemma_count_mod_value(n - 1, k, j);
        lemma_fundamental_div_mod(n - 1, k);
        lemma_mod_pos_bound(n - 1, k);
        let q = (n - 1) / k;
        let r = (n - 1) % k;
        if r == k - 1 {
            assert(n == (q + 1) * k + 0) by (nonlinear_arith)
                requires
                    n - 1 == q * k + r,
                    r == k - 1,
            ;
            lemma_fundamental_div_mod_converse_div(n, k, q + 1, 0);
            lemma_fundamental_div_mod_converse_mod(n, k, q + 1, 0);
        } else {
            assert(n == q * k + (r + 1)) by (nonlinear_arith)
                requires
                    n - 1 == q * k + r,
            ;
            lemma_fundamental_div_mod_converse_div(n, k, q, r + 1);
            lemma_fundamental_div_mod_converse_mod(n, k, q, r + 1);
        }
    }
}

/// The number of documents assigned to pool slot `j` equals the number of
/// positions round robin sends there, provided every document carries node
/// enrichment and the pool names are pairwise distinct.
proof fn lemma_assign_count(docs: Seq<ShardDoc>, pool: Seq<String>, j: int)
    requires
        pool.len() > 0,
        0 <= j < pool.len(),
        forall|i: int| 0 <= i < docs.len() ==> (#[trigger] docs[i].enrich.node) is Some,
        forall|j1: int, j2: int|
            0 <= j1 < j2 < pool.len() ==> (#[trigger] pool[j1]@) != (#[trigger] pool[j2]@),
    ensures
        count_desired(spec_assign(docs, pool), pool[j]) == count_mod(
            docs.len() as int,
            pool.len() as int,
            j,
        ),
    decreases docs.len(),
{
    let n = docs.len() as int;
    let k = pool.len() as int;
    let assigned = spec_assign(docs, pool);
    if docs.len() == 0 {
        assert(assigned =~= Seq::<ShardDoc>::empty());
    } else {
        lemma_assign_count(docs.drop_last(), pool, j);
        assert(assigned.drop_last() =~= spec_assign(docs.drop_last(), pool));
        assert(assigned.last() == spec_set_desired(docs.last(), pool[(n - 1) % k]));
        lemma_mod_pos_bound(n - 1, k);
        let slot = (n - 1) % k;
        assert(docs[n - 1].enrich.node is Some);
        if slot == j {
            assert(spec_doc_desires(assigned.last(), pool[j]));
        } else {
            assert(pool[slot]@ != pool[j]@) by {
                if slot < j {
                    assert(pool[slot]@ != pool[j]@);
                } else {
                    assert(pool[j]@ != pool[slot]@);
                }
            }
            assert(!spec_doc_desires(assigned.last(), pool[j]));
        }
    }
}

/// Round-robin fairness: over `n` documents and a pool of `k` candidates
/// with pairwise distinct names, the candidate at pool position `j` is
/// assigned exactly `n / k` documents, plus one when `j` lies before the
/// remainder `n % k` — so always at least `floor(n / k)` and at most
/// `ceil(n / k)` documents.  Every document is assumed to carry node
/// enrichment, which extraction guarantees.
pub proof fn lemma_round_robin_fair(docs: Seq<ShardDoc>, pool: Seq<String>, j: int)
    requires
        pool.len() > 0,
        0 <= j < pool.len(),
        forall|i: int| 0 <= i < docs.len() ==> (#[trigger] docs[i].enrich.node) is Some,
        forall|j1: int, j2: int|
            0 <= j1 < j2 < pool.len() ==> (#[trigger] pool[j1]@) != (#[trigger] pool[j2]@),
    ensures
        ({
            let n = docs.len() as int;
            let k = pool.len() as int;
            let assigned_count = count_desired(spec_assign(docs, pool), pool[j]);
            &&& assigned_count == n / k + if j < n % k {
                1int
            } else {
                0int
            }
            &&& n / k <= assigned_count
            &&& assigned_count <= (n + k - 1) / k
        }),
{
    let n = docs.len() as int;
    let k = pool.len() as int;
    lemma_assign_count(docs, pool, j);
    lemma_count_mod_value(n, k, j);
    lemma_fundamental_div_mod(n, k);
    lemma_mod_pos_bound(n, k);
    let q = n / k;
    let r = n % k;
    if r == 0 {
        assert(n + k - 1 == q * k + (k - 1)) by (nonlinear_arith)
            requires
                n == k * q + r,
                r == 0,
        ;
        lemma_fundamental_div_mod_converse_div(n + k - 1, k, q, k - 1);
    } else {
        assert(n + k - 1 == (q + 1) * k + (r - 1)) by (nonlinear_arith)
            requires
                n == k * q + r,
        ;
        lemma_fundamental_div_mod_converse_div(n + k - 1, k, q + 1, r - 1);
    }
}

} // verus!
