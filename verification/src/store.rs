//! The table of recent blocks: the statement that writes a window of rows
//! into it, and what the table holds afterwards.
//!
//! The table is keyed by the position in the window. Writing a row whose
//! position is already present overwrites every other column of that row, so
//! the table is a sliding window and not a history.

use crate::block::{rows, BlockInfo, BlockRow};
use crate::error::IngestError;
use crate::walker::{lemma_walk_result, lemma_walk_rows_fit, walk, Reply, WalkView};
use std::collections::HashMap;
use vstd::prelude::*;

verus! {

broadcast use vstd::std_specs::hash::group_hash_axioms;

/// The value bound to one named parameter of the statement.
#[derive(Debug, PartialEq, Eq)]
pub enum FieldValue {
    /// An unsigned integer column.
    Number(usize),
    /// A text column.
    Text(String),
}

/// The mathematical content of a [`FieldValue`].
pub enum FieldView {
    Number(nat),
    Text(Seq<char>),
}

impl View for FieldValue {
    type V = FieldView;

    open spec fn view(&self) -> FieldView {
        match self {
            FieldValue::Number(n) => FieldView::Number(*n as nat),
            FieldValue::Text(text) => FieldView::Text(text@),
        }
    }
}

/// The text of the statement that writes one row: an insert keyed by `id`
/// that, where the key is present, overwrites every other column.
pub open spec fn upsert_sql() -> Seq<char> {
    "INSERT INTO Best_blocks (id, hash, height, timestamp, size, merkle_root, num_transactions) VALUES (:id, :hash, :height, :timestamp, :size, :merkle_root, :num_transactions) ON DUPLICATE KEY UPDATE hash = VALUES(hash), height = VALUES(height), timestamp = VALUES(timestamp), size = VALUES(size), merkle_root = VALUES(merkle_root), num_transactions = VALUES(num_transactions)"@
}

/// The statement to execute once for each row of a batch, with the row's
/// [`row_parameters`] bound to its named parameters.
pub fn upsert_statement() -> (sql: String)
    ensures
        sql@ == upsert_sql(),
{
    String::from_str(
        "INSERT INTO Best_blocks (id, hash, height, timestamp, size, merkle_root, num_transactions) VALUES (:id, :hash, :height, :timestamp, :size, :merkle_root, :num_transactions) ON DUPLICATE KEY UPDATE hash = VALUES(hash), height = VALUES(height), timestamp = VALUES(timestamp), size = VALUES(size), merkle_root = VALUES(merkle_root), num_transactions = VALUES(num_transactions)",
    )
}

/// The named parameters of the statement for `row`, in the order of the
/// table's columns.
pub open spec fn parameters_of(row: BlockRow) -> Seq<(Seq<char>, FieldView)> {
    seq![
        ("id"@, FieldView::Number(row.id)),
        ("hash"@, FieldView::Text(row.hash)),
        ("height"@, FieldView::Number(row.height)),
        ("timestamp"@, FieldView::Number(row.timestamp)),
        ("size"@, FieldView::Number(row.size)),
        ("merkle_root"@, FieldView::Text(row.merkle_root)),
        ("num_transactions"@, FieldView::Number(row.num_transactions)),
    ]
}

/// What a list of named parameters stands for.
pub open spec fn named(params: Seq<(String, FieldValue)>) -> Seq<(Seq<char>, FieldView)> {
    params.map_values(|p: (String, FieldValue)| (p.0@, p.1@))
}

/// The named parameters of the statement for `block`.
pub fn row_parameters(block: &BlockInfo) -> (params: Vec<(String, FieldValue)>)
    ensures
        named(params@) == parameters_of(block@),
{
    let mut params: Vec<(String, FieldValue)> = Vec::new();
    params.push((String::from_str("id"), FieldValue::Number(block.id)));
    params.push((String::from_str("hash"), FieldValue::Text(block.hash.clone())));
    params.push((String::from_str("height"), FieldValue::Number(block.height)));
    params.push((String::from_str("timestamp"), FieldValue::Number(block.timestamp)));
    params.push((String::from_str("size"), FieldValue::Number(block.size)));
    params.push((String::from_str("merkle_root"), FieldValue::Text(block.merkle_root.clone())));
    params.push(
        (String::from_str("num_transactions"), FieldValue::Number(block.num_transactions)),
    );
    assert(named(params@) =~= parameters_of(block@));
    params
}

/// No two parameters of a row share a name.
pub proof fn lemma_parameter_names_distinct(row: BlockRow)
    ensures
        parameters_of(row).len() == 7,
        forall|i: int, j: int|
            0 <= i < j < 7 ==> (#[trigger] parameters_of(row)[i]).0 != (
            #[trigger] parameters_of(row)[j]).0,
{
    reveal_strlit("id");
    reveal_strlit("hash");
    reveal_strlit("height");
    reveal_strlit("timestamp");
    reveal_strlit("size");
    reveal_strlit("merkle_root");
    reveal_strlit("num_transactions");
    let p = parameters_of(row);
    assert(p[0].0.len() == 2);
    assert(p[1].0.len() == 4);
    assert(p[2].0.len() == 6);
    assert(p[3].0.len() == 9);
    assert(p[4].0.len() == 4);
    assert(p[5].0.len() == 11);
    assert(p[6].0.len() == 16);
    assert(p[1].0[0] == 'h');
    assert(p[4].0[0] == 's');
}

/// What the table holds after the statement has run for `row`: the row
/// stands at its position, whatever stood there before.
pub open spec fn upsert_one(table: Map<nat, BlockRow>, row: BlockRow) -> Map<nat, BlockRow> {
    table.insert(row.id, row)
}

/// What the table holds after the statement has run for each row of `batch`
/// in turn.
pub open spec fn upserted(table: Map<nat, BlockRow>, batch: Seq<BlockRow>) -> Map<nat, BlockRow>
    decreases batch.len(),
{
    if batch.len() == 0 {
        table
    } else {
        upsert_one(upserted(table, batch.drop_last()), batch.last())
    }
}

/// The index of the last row of `batch` at position `id`, or -1 if the batch
/// has no row there.
pub open spec fn last_at(batch: Seq<BlockRow>, id: nat) -> int
    decreases batch.len(),
{
    if batch.len() == 0 {
        -1
    } else if batch.last().id == id {
        batch.len() - 1
    } else {
        last_at(batch.drop_last(), id)
    }
}

/// `last_at` finds a row at the position, and no row after it is there too.
pub proof fn lemma_last_at(batch: Seq<BlockRow>, id: nat)
    ensures
        -1 <= last_at(batch, id) < batch.len(),
        last_at(batch, id) >= 0 ==> batch[last_at(batch, id)].id == id,
        forall|j: int| last_at(batch, id) < j < batch.len() ==> (#[trigger] batch[j]).id != id,
    decreases batch.len(),
{
    if batch.len() > 0 && batch.last().id != id {
        let front = batch.drop_last();
        lemma_last_at(front, id);
        assert forall|j: int| last_at(batch, id) < j < batch.len() implies (#[trigger] batch[j]).id
            != id by {
            if j < front.len() {
                assert(batch[j] == front[j]);
            }
        }
    }
}

/// After a batch, each position that the batch names holds the last row that
/// the batch has for it, and every other position holds what it held before.
pub proof fn lemma_upserted_rows(table: Map<nat, BlockRow>, batch: Seq<BlockRow>)
    ensures
        forall|id: nat|
            #![trigger upserted(table, batch).contains_key(id)]
            upserted(table, batch).contains_key(id) <==> (last_at(batch, id) >= 0
                || table.contains_key(id)),
        forall|id: nat|
            #![trigger upserted(table, batch)[id]]
            upserted(table, batch)[id] == if last_at(batch, id) >= 0 {
                batch[last_at(batch, id)]
            } else {
                table[id]
            },
    decreases batch.len(),
{
    if batch.len() > 0 {
        let front = batch.drop_last();
        lemma_upserted_rows(table, front);
        assert forall|id: nat|
            #![trigger upserted(table, batch)[id]]
            upserted(table, batch)[id] == if last_at(batch, id) >= 0 {
                batch[last_at(batch, id)]
            } else {
                table[id]
            } by {
            if batch.last().id != id {
                lemma_last_at(front, id);
                assert(upserted(table, batch)[id] == upserted(table, front)[id]);
                if last_at(front, id) >= 0 {
                    assert(front[last_at(front, id)] == batch[last_at(front, id)]);
                }
            }
        }
        assert forall|id: nat|
            #![trigger upserted(table, batch).contains_key(id)]
            upserted(table, batch).contains_key(id) <==> (last_at(batch, id) >= 0
                || table.contains_key(id)) by {
            if batch.last().id != id {
                assert(upserted(table, batch).contains_key(id) == upserted(
                    table,
                    front,
                ).contains_key(id));
            }
        }
    }
}

/// Writing the same batch twice leaves the table as writing it once does.
pub proof fn lemma_upsert_idempotent(table: Map<nat, BlockRow>, batch: Seq<BlockRow>)
    ensures
        upserted(upserted(table, batch), batch) == upserted(table, batch),
{
    let once = upserted(table, batch);
    let twice = upserted(once, batch);
    lemma_upserted_rows(table, batch);
    lemma_upserted_rows(once, batch);
    assert forall|id: nat| twice.contains_key(id) == once.contains_key(id) by {}
    assert forall|id: nat| twice.contains_key(id) implies twice[id] == once[id] by {}
    assert(twice =~= once);
}

/// Whether no two rows of `batch` share a position.
pub open spec fn distinct_positions(batch: Seq<BlockRow>) -> bool {
    forall|i: int, j: int|
        0 <= i < j < batch.len() ==> (#[trigger] batch[i]).id != (#[trigger] batch[j]).id
}

/// A later batch overwrites what an earlier one wrote: after both, each row
/// of the later batch stands in the table as it is, with its own hash and
/// height, and a position that only the earlier batch names keeps the row of
/// the earlier batch.
pub proof fn lemma_upsert_overwrites(
    table: Map<nat, BlockRow>,
    earlier: Seq<BlockRow>,
    later: Seq<BlockRow>,
)
    requires
        distinct_positions(later),
    ensures
        forall|i: int|
            #![trigger later[i]]
            0 <= i < later.len() ==> {
                let after = upserted(upserted(table, earlier), later);
                after.contains_key(later[i].id) && after[later[i].id] == later[i]
            },
        forall|id: nat|
            #![trigger upserted(upserted(table, earlier), later)[id]]
            last_at(later, id) < 0 ==> {
                let after = upserted(upserted(table, earlier), later);
                &&& after.contains_key(id) == upserted(table, earlier).contains_key(id)
                &&& after[id] == upserted(table, earlier)[id]
            },
{
    let between = upserted(table, earlier);
    let after = upserted(between, later);
    lemma_upserted_rows(between, later);
    assert forall|i: int| #![trigger later[i]] 0 <= i < later.len() implies after.contains_key(
        later[i].id,
    ) && after[later[i].id] == later[i] by {
        let id = later[i].id;
        lemma_last_at(later, id);
        let k = last_at(later, id);
        assert(k >= i);
        assert(after.contains_key(id));
        assert(after[id] == later[k]);
        if k > i {
            assert(later[i].id != later[k].id);
        }
    }
}

/// Whether every row of `batch` stands at a position from 1 to `window`.
pub open spec fn within_window(batch: Seq<BlockRow>, window: nat) -> bool {
    forall|i: int| 0 <= i < batch.len() ==> 1 <= (#[trigger] batch[i]).id <= window
}

/// A table whose positions lie within the window keeps them there under
/// every batch that lies within the window: it never grows past `window`
/// rows.
pub proof fn lemma_upsert_keeps_window(
    table: Map<nat, BlockRow>,
    batch: Seq<BlockRow>,
    window: nat,
)
    requires
        forall|id: nat| table.contains_key(id) ==> 1 <= id <= window,
        within_window(batch, window),
    ensures
        forall|id: nat| #[trigger] upserted(table, batch).contains_key(id) ==> 1 <= id <= window,
        upserted(table, batch).dom().finite(),
        upserted(table, batch).dom().len() <= window,
{
    let after = upserted(table, batch);
    lemma_upserted_rows(table, batch);
    assert forall|id: nat| #[trigger] after.contains_key(id) implies 1 <= id <= window by {
        if last_at(batch, id) >= 0 {
            lemma_last_at(batch, id);
            assert(batch[last_at(batch, id)].id == id);
        }
    }
    let positions = Set::<nat>::new(|id: nat| 1 <= id <= window);
    lemma_positions(window);
    assert(after.dom().subset_of(positions));
    vstd::set_lib::lemma_len_subset(after.dom(), positions);
}

/// There are `window` positions from 1 to `window`.
proof fn lemma_positions(window: nat)
    ensures
        Set::<nat>::new(|id: nat| 1 <= id <= window).finite(),
        Set::<nat>::new(|id: nat| 1 <= id <= window).len() == window,
    decreases window,
{
    let all = Set::<nat>::new(|id: nat| 1 <= id <= window);
    if window == 0 {
        assert(all =~= Set::<nat>::empty());
    } else {
        let fewer = Set::<nat>::new(|id: nat| 1 <= id <= window - 1);
        lemma_positions((window - 1) as nat);
        assert(all =~= fewer.insert(window));
    }
}

/// What a cycle leaves in the table. Once the rows of a walk that succeeded
/// are written, the positions from 1 to their number hold those rows, the
/// tip at position 1, and every other position holds what it held before:
/// the table slides with the chain and is no history of it.
pub proof fn lemma_walk_upserted(
    table: Map<nat, BlockRow>,
    node: spec_fn([u8; 32]) -> Reply,
    tip: [u8; 32],
    window: nat,
)
    ensures
        walk(node, tip, window) matches WalkView::Finished(taken) ==> {
            let after = upserted(table, taken);
            &&& forall|id: nat|
                #![trigger after.contains_key(id)]
                #![trigger after[id]]
                1 <= id <= taken.len() ==> after.contains_key(id) && after[id] == taken[id - 1]
            &&& forall|id: nat|
                #![trigger after.contains_key(id)]
                #![trigger after[id]]
                id == 0 || id > taken.len() ==> (after.contains_key(id) <==> table.contains_key(
                    id,
                )) && after[id] == table[id]
        },
{
    if let WalkView::Finished(taken) = walk(node, tip, window) {
        let after = upserted(table, taken);
        lemma_walk_result(node, tip, window);
        lemma_walk_rows_fit(node, tip, window);
        lemma_upserted_rows(table, taken);
        assert forall|id: nat|
            #![trigger after.contains_key(id)]
            #![trigger after[id]]
            1 <= id <= taken.len() implies after.contains_key(id) && after[id] == taken[id
                - 1] by {
            lemma_last_at(taken, id);
            let k = last_at(taken, id);
            assert(taken[id - 1].id == id);
            assert(k >= id - 1);
            assert(taken[k].id == k + 1);
        }
        assert forall|id: nat|
            #![trigger after.contains_key(id)]
            #![trigger after[id]]
            id == 0 || id > taken.len() implies (after.contains_key(id) <==> table.contains_key(
            id,
        )) && after[id] == table[id] by {
            lemma_last_at(taken, id);
            if last_at(taken, id) >= 0 {
                assert(taken[last_at(taken, id)].id == last_at(taken, id) + 1);
            }
        }
    }
}

/// The table of recent blocks, held in memory: a store for dry runs, which
/// can be made unreachable to see how a cycle copes.
pub struct BlockStore {
    rows: HashMap<usize, BlockInfo>,
    reachable: bool,
}

impl View for BlockStore {
    type V = Map<nat, BlockRow>;

    closed spec fn view(&self) -> Map<nat, BlockRow> {
        Map::new(
            |id: nat| id <= usize::MAX && self.rows@.contains_key(id as usize),
            |id: nat| self.rows@[id as usize]@,
        )
    }
}

impl BlockStore {
    /// Whether writes reach the store.
    pub closed spec fn reachable(&self) -> bool {
        self.reachable
    }

    /// An empty table, within reach.
    pub fn new() -> (store: BlockStore)
        ensures
            store@ == Map::<nat, BlockRow>::empty(),
            store.reachable(),
    {
        let store = BlockStore { rows: HashMap::new(), reachable: true };
        assert(store@ =~= Map::<nat, BlockRow>::empty());
        store
    }

    /// Puts the store within or out of reach. Its rows stay as they are.
    pub fn set_reachable(&mut self, reachable: bool)
        ensures
            final(self)@ == old(self)@,
            final(self).reachable() == reachable,
    {
        self.reachable = reachable;
    }

    /// Whether writes reach the store.
    pub fn is_reachable(&self) -> (reachable: bool)
        ensures
            reachable == self.reachable(),
    {
        self.reachable
    }

    /// Writes a batch of rows: each one is inserted at its position, or
    /// overwrites the row that stands there. Out of reach, the store fails
    /// the batch as a whole with a persistence error and keeps every row as
    /// it was.
    pub fn upsert(&mut self, blocks: &Vec<BlockInfo>) -> (result: Result<(), IngestError>)
        ensures
            final(self).reachable() == old(self).reachable(),
            match result {
                Ok(()) => old(self).reachable() && final(self)@ == upserted(
                    old(self)@,
                    rows(blocks@),
                ),
                Err(error) => !old(self).reachable() && error == IngestError::PersistenceError
                    && final(self)@ == old(self)@,
            },
    {
        if !self.reachable {
            return Err(IngestError::PersistenceError);
        }
        let ghost batch = rows(blocks@);
        let mut i: usize = 0;
        assert(batch.take(0) =~= Seq::<BlockRow>::empty());
        while i < blocks.len()
            invariant
                i <= blocks.len(),
                batch == rows(blocks@),
                self@ == upserted(old(self)@, batch.take(i as int)),
                self.reachable() == old(self).reachable(),
            decreases blocks.len() - i,
        {
            let ghost before = self@;
            let block = blocks[i].clone();
            self.rows.insert(block.id, block);
            proof {
                let row = batch[i as int];
                assert(row == blocks@[i as int]@);
                assert(self@ =~= upsert_one(before, row));
                assert(batch.take(i + 1).drop_last() =~= batch.take(i as int));
                assert(batch.take(i + 1).last() == row);
            }
            i = i + 1;
        }
        assert(batch.take(blocks.len() as int) =~= batch);
        Ok(())
    }

    /// The row at position `id`, if the table has one.
    pub fn get(&self, id: usize) -> (row: Option<BlockInfo>)
        ensures
            match row {
                Some(block) => self@.contains_key(id as nat) && block@ == self@[id as nat],
                None => !self@.contains_key(id as nat),
            },
    {
        match self.rows.get(&id) {
            Some(block) => Some(block.clone()),
            None => None,
        }
    }

    /// The number of rows in the table.
    pub fn len(&self) -> (count: usize)
        ensures
            self@.dom().finite(),
            count == self@.dom().len(),
    {
        proof {
            let keys = self.rows@.dom();
            let widen = |id: usize| id as nat;
            assert(keys.map(widen) =~= self@.dom()) by {
                assert forall|id: nat| self@.dom().contains(id) implies keys.map(widen).contains(
                    id,
                ) by {
                    assert(keys.contains(id as usize) && widen(id as usize) == id);
                }
            }
            assert(vstd::relations::injective_on(widen, keys));
            vstd::set_lib::lemma_map_size(keys, self@.dom(), widen);
        }
        self.rows.len()
    }
}

} // verus!
