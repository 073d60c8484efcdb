//! Rendering finished paths into final public items, and the id-to-items
//! multimap that exposes re-export fan-out.

use vstd::prelude::*;
use crate::graph::Crate;
use crate::graph::ItemId;
use crate::intermediate_public_item::Comp;
use crate::intermediate_public_item::IntermediatePublicItem;
use crate::intermediate_public_item::SortEntry;
use crate::intermediate_public_item::entry_model;
use crate::intermediate_public_item::sort_key;
use crate::intermediate_public_item::visible_path;

verus! {

/// One id mapped to the positions, in output order, of every finished item
/// that ends at it.
pub struct IdToItems {
    pub entries: Vec<(ItemId, Vec<usize>)>,
}

/// Looks an id up in an association list of index lists.
pub open spec fn assoc_lookup(entries: Seq<(ItemId, Seq<int>)>, id: ItemId) -> Option<Seq<int>>
    decreases entries.len(),
{
    if entries.len() == 0 {
        None
    } else if entries[0].0 == id {
        Some(entries[0].1)
    } else {
        assoc_lookup(entries.drop_first(), id)
    }
}

/// Records one position under an id: a present key's list grows at its end,
/// an absent key joins at the back of the list.
pub open spec fn assoc_add(m: Seq<(ItemId, Seq<int>)>, id: ItemId, idx: int) -> Seq<
    (ItemId, Seq<int>),
>
    decreases m.len(),
{
    if m.len() == 0 {
        seq![(id, seq![idx])]
    } else if m[0].0 == id {
        seq![(m[0].0, m[0].1.push(idx))] + m.drop_first()
    } else {
        seq![m[0]] + assoc_add(m.drop_first(), id, idx)
    }
}

/// Recording under an id makes that id's list end with the position.
pub proof fn lemma_assoc_add_lookup_same(m: Seq<(ItemId, Seq<int>)>, id: ItemId, idx: int)
    ensures
        assoc_lookup(assoc_add(m, id, idx), id) == Some(
            match assoc_lookup(m, id) {
                Some(s) => s.push(idx),
                None => seq![idx],
            },
        ),
    decreases m.len(),
{
    if m.len() == 0 {
        assert(assoc_add(m, id, idx) == seq![(id, seq![idx])]);
    } else if m[0].0 == id {
        let a = seq![(m[0].0, m[0].1.push(idx))] + m.drop_first();
        assert(a[0].0 == id);
    } else {
        lemma_assoc_add_lookup_same(m.drop_first(), id, idx);
        let a = seq![m[0]] + assoc_add(m.drop_first(), id, idx);
        assert(a.drop_first() =~= assoc_add(m.drop_first(), id, idx));
    }
}

/// Recording under one id leaves every other id's list as it stands.
pub proof fn lemma_assoc_add_lookup_other(
    m: Seq<(ItemId, Seq<int>)>,
    id: ItemId,
    idx: int,
    id2: ItemId,
)
    requires
        id2 != id,
    ensures
        assoc_lookup(assoc_add(m, id, idx), id2) == assoc_lookup(m, id2),
    decreases m.len(),
{
    if m.len() == 0 {
        let a = seq![(id, seq![idx])];
        assert(a.drop_first() =~= Seq::<(ItemId, Seq<int>)>::empty());
        assert(assoc_lookup(a.drop_first(), id2) is None);
        assert(assoc_lookup(assoc_add(m, id, idx), id2) is None);
    } else if m[0].0 == id {
        let a = seq![(m[0].0, m[0].1.push(idx))] + m.drop_first();
        assert(a.drop_first() =~= m.drop_first());
        assert(assoc_lookup(a, id2) == assoc_lookup(m.drop_first(), id2));
        assert(assoc_lookup(m, id2) == assoc_lookup(m.drop_first(), id2));
    } else {
        let a = seq![m[0]] + assoc_add(m.drop_first(), id, idx);
        assert(a.drop_first() =~= assoc_add(m.drop_first(), id, idx));
        if m[0].0 == id2 {
            assert(assoc_lookup(a, id2) == Some(m[0].1));
            assert(assoc_lookup(m, id2) == Some(m[0].1));
        } else {
            lemma_assoc_add_lookup_other(m.drop_first(), id, idx, id2);
            assert(assoc_lookup(a, id2) == assoc_lookup(assoc_add(m.drop_first(), id, idx), id2));
            assert(assoc_lookup(m, id2) == assoc_lookup(m.drop_first(), id2));
        }
    }
}

/// Recording a present key rewrites exactly that key's entry in place.
pub proof fn lemma_assoc_add_found(m: Seq<(ItemId, Seq<int>)>, id: ItemId, idx: int, j: int)
    requires
        0 <= j < m.len(),
        m[j].0 == id,
        forall|jj: int| 0 <= jj < j ==> (#[trigger] m[jj]).0 != id,
    ensures
        assoc_add(m, id, idx) == m.update(j, (id, m[j].1.push(idx))),
    decreases m.len(),
{
    if j == 0 {
        assert(assoc_add(m, id, idx) =~= m.update(0, (id, m[0].1.push(idx))));
    } else {
        assert(m[0].0 != id);
        lemma_assoc_add_found(m.drop_first(), id, idx, j - 1);
        assert(seq![m[0]] + m.drop_first().update(j - 1, (id, m.drop_first()[j - 1].1.push(idx)))
            =~= m.update(j, (id, m[j].1.push(idx))));
    }
}

/// Recording an absent key appends it at the back.
pub proof fn lemma_assoc_add_missing(m: Seq<(ItemId, Seq<int>)>, id: ItemId, idx: int)
    requires
        forall|jj: int| 0 <= jj < m.len() ==> (#[trigger] m[jj]).0 != id,
    ensures
        assoc_add(m, id, idx) == m.push((id, seq![idx])),
    decreases m.len(),
{
    if m.len() == 0 {
        assert(assoc_add(m, id, idx) =~= m.push((id, seq![idx])));
    } else {
        assert(m[0].0 != id);
        lemma_assoc_add_missing(m.drop_first(), id, idx);
        assert(seq![m[0]] + m.drop_first().push((id, seq![idx])) =~= m.push((id, seq![idx])));
    }
}

impl IdToItems {
    /// The model of the map.
    pub open spec fn model(self) -> Seq<(ItemId, Seq<int>)> {
        self.entries@.map_values(
            |e: (ItemId, Vec<usize>)| (e.0, e.1@.map_values(|u: usize| u as int)),
        )
    }

    /// The positions recorded for an id.
    pub open spec fn spec_get(self, id: ItemId) -> Option<Seq<int>> {
        assoc_lookup(self.model(), id)
    }
}

/// What the traversal hands the renderer: the graph and the id-to-items
/// multimap of the traversal's output.
pub struct RenderingContext<'c> {
    pub crate_: &'c Crate,
    pub id_to_items: IdToItems,
}

/// One public item in final display form: the rendered visible path and the
/// sortable path used only for ordering.
pub struct PublicItem {
    pub visible_path: Vec<Vec<u8>>,
    pub sortable_path: Vec<SortEntry>,
}

/// Mathematical model of a final public item.
#[verifier::ext_equal]
pub ghost struct PubModel {
    pub vis: Seq<Seq<u8>>,
    pub key: Seq<(u8, Seq<u8>)>,
}

impl PublicItem {
    /// The model of this item.
    pub open spec fn model(self) -> PubModel {
        PubModel {
            vis: self.visible_path@.map_values(|s: Vec<u8>| s@),
            key: self.sortable_path@.map_values(|e: SortEntry| entry_model(e)),
        }
    }

    /// The final form of a finished path: its visible rendering and its
    /// sortable path.
    pub open spec fn render_spec(p: Seq<Comp>) -> PubModel {
        PubModel { vis: visible_path(p), key: sort_key(p) }
    }

    /// Renders one finished path into its final display form.
    pub fn from_intermediate_public_item<'c>(
        context: &RenderingContext<'c>,
        item: &IntermediatePublicItem<'c>,
    ) -> (r: PublicItem)
        ensures
            r.model() == PublicItem::render_spec(item.model()),
    {
        let visible_path = item.render_token_stream(context);
        let sortable_path = item.sortable_path(context);
        let r = PublicItem { visible_path, sortable_path };
        assert(r.model() =~= PublicItem::render_spec(item.model()));
        r
    }

    /// Renders the visible path as one byte string with `::` between
    /// segments.
    pub fn render(&self) -> (r: Vec<u8>)
        ensures
            r@ == join_segments(self.model().vis),
    {
        let mut r: Vec<u8> = Vec::new();
        let mut i: usize = 0;
        while i < self.visible_path.len()
            invariant
                i <= self.visible_path@.len(),
                r@ =~= join_segments(self.model().vis.take(i as int)),
            decreases self.visible_path@.len() - i,
        {
            proof {
                assert(self.model().vis.take(i + 1).drop_last() =~= self.model().vis.take(i as int));
                assert(self.model().vis.take(i + 1).last() == self.visible_path@[i as int]@);
            }
            if i > 0 {
                r.push(':' as u8);
                r.push(':' as u8);
            }
            crate::text::push_all(&mut r, &self.visible_path[i]);
            i = i + 1;
        }
        assert(self.model().vis.take(self.visible_path@.len() as int) =~= self.model().vis);
        r
    }

    /// Orders two items by their sortable paths: the total lexicographic
    /// order over (priority, name) sequences.
    pub fn grouping_cmp(&self, other: &PublicItem) -> (r: Rel)
        ensures
            r is Less <==> key_lt(self.model().key, other.model().key),
            r is Greater <==> key_lt(other.model().key, self.model().key),
            r is Equal <==> self.model().key == other.model().key,
    {
        let r = key_cmp_from(&self.sortable_path, &other.sortable_path, 0);
        proof {
            assert(self.model().key.skip(0) =~= self.model().key);
            assert(other.model().key.skip(0) =~= other.model().key);
        }
        r
    }
}

/// Joins path segments with `::` into one byte string.
pub open spec fn join_segments(vis: Seq<Seq<u8>>) -> Seq<u8>
    decreases vis.len(),
{
    if vis.len() == 0 {
        Seq::empty()
    } else if vis.len() == 1 {
        vis[0]
    } else {
        join_segments(vis.drop_last()) + seq![':' as u8, ':' as u8] + vis.last()
    }
}

/// The outcome of a comparison.
pub enum Rel {
    Less,
    Equal,
    Greater,
}

/// Strict lexicographic order on byte strings.
pub open spec fn bytes_lt(a: Seq<u8>, b: Seq<u8>) -> bool
    decreases a.len(),
{
    if b.len() == 0 {
        false
    } else if a.len() == 0 {
        true
    } else if a[0] < b[0] {
        true
    } else if b[0] < a[0] {
        false
    } else {
        bytes_lt(a.drop_first(), b.drop_first())
    }
}

/// Strict order on sortable-path entries: by priority, then by name.
pub open spec fn entry_lt(x: (u8, Seq<u8>), y: (u8, Seq<u8>)) -> bool {
    x.0 < y.0 || (x.0 == y.0 && bytes_lt(x.1, y.1))
}

/// Strict lexicographic order on sortable paths.
pub open spec fn key_lt(a: Seq<(u8, Seq<u8>)>, b: Seq<(u8, Seq<u8>)>) -> bool
    decreases a.len(),
{
    if b.len() == 0 {
        false
    } else if a.len() == 0 {
        true
    } else if entry_lt(a[0], b[0]) {
        true
    } else if entry_lt(b[0], a[0]) {
        false
    } else {
        key_lt(a.drop_first(), b.drop_first())
    }
}

/// No byte string orders strictly below itself.
pub proof fn lemma_bytes_lt_irrefl(a: Seq<u8>)
    ensures
        !bytes_lt(a, a),
    decreases a.len(),
{
    if a.len() > 0 {
        lemma_bytes_lt_irrefl(a.drop_first());
    }
}

/// Byte strings that neither order strictly are equal.
pub proof fn lemma_bytes_lt_connected(a: Seq<u8>, b: Seq<u8>)
    requires
        !bytes_lt(a, b),
        !bytes_lt(b, a),
    ensures
        a == b,
    decreases a.len(),
{
    if a.len() == 0 || b.len() == 0 {
        assert(a =~= b);
    } else {
        lemma_bytes_lt_connected(a.drop_first(), b.drop_first());
        assert(a =~= seq![a[0]] + a.drop_first());
        assert(b =~= seq![b[0]] + b.drop_first());
    }
}

/// Entries that neither order strictly are equal.
pub proof fn lemma_entry_lt_connected(x: (u8, Seq<u8>), y: (u8, Seq<u8>))
    requires
        !entry_lt(x, y),
        !entry_lt(y, x),
    ensures
        x == y,
{
    lemma_bytes_lt_connected(x.1, y.1);
}

/// Sortable paths that neither order strictly are equal.
pub proof fn lemma_key_lt_connected(a: Seq<(u8, Seq<u8>)>, b: Seq<(u8, Seq<u8>)>)
    requires
        !key_lt(a, b),
        !key_lt(b, a),
    ensures
        a == b,
    decreases a.len(),
{
    if a.len() == 0 || b.len() == 0 {
        assert(a =~= b);
    } else {
        lemma_entry_lt_connected(a[0], b[0]);
        lemma_key_lt_connected(a.drop_first(), b.drop_first());
        assert(a =~= seq![a[0]] + a.drop_first());
        assert(b =~= seq![b[0]] + b.drop_first());
    }
}

/// The byte order is transitive.
pub proof fn lemma_bytes_lt_trans(a: Seq<u8>, b: Seq<u8>, c: Seq<u8>)
    requires
        bytes_lt(a, b),
        bytes_lt(b, c),
    ensures
        bytes_lt(a, c),
    decreases a.len(),
{
    if a.len() > 0 && b.len() > 0 && c.len() > 0 {
        if a[0] == b[0] && b[0] == c[0] {
            lemma_bytes_lt_trans(a.drop_first(), b.drop_first(), c.drop_first());
        }
    }
}

/// No entry orders strictly below itself.
pub proof fn lemma_entry_lt_irrefl(x: (u8, Seq<u8>))
    ensures
        !entry_lt(x, x),
{
    lemma_bytes_lt_irrefl(x.1);
}

/// The entry order is transitive.
pub proof fn lemma_entry_lt_trans(x: (u8, Seq<u8>), y: (u8, Seq<u8>), z: (u8, Seq<u8>))
    requires
        entry_lt(x, y),
        entry_lt(y, z),
    ensures
        entry_lt(x, z),
{
    if x.0 == y.0 && y.0 == z.0 {
        lemma_bytes_lt_trans(x.1, y.1, z.1);
    }
}

/// No sortable path orders strictly below itself.
pub proof fn lemma_key_lt_irrefl(a: Seq<(u8, Seq<u8>)>)
    ensures
        !key_lt(a, a),
    decreases a.len(),
{
    if a.len() > 0 {
        lemma_entry_lt_irrefl(a[0]);
        lemma_key_lt_irrefl(a.drop_first());
    }
}

/// The sortable-path order is transitive.
pub proof fn lemma_key_lt_trans(a: Seq<(u8, Seq<u8>)>, b: Seq<(u8, Seq<u8>)>, c: Seq<(u8, Seq<u8>)>)
    requires
        key_lt(a, b),
        key_lt(b, c),
    ensures
        key_lt(a, c),
    decreases a.len(),
{
    if a.len() > 0 && b.len() > 0 && c.len() > 0 {
        if entry_lt(a[0], b[0]) {
            if entry_lt(b[0], c[0]) {
                lemma_entry_lt_trans(a[0], b[0], c[0]);
            } else {
                lemma_entry_lt_connected(b[0], c[0]);
            }
        } else {
            lemma_entry_lt_connected(a[0], b[0]);
            if entry_lt(b[0], c[0]) {
            } else {
                lemma_entry_lt_connected(b[0], c[0]);
                lemma_entry_lt_irrefl(a[0]);
                lemma_key_lt_trans(a.drop_first(), b.drop_first(), c.drop_first());
            }
        }
    }
}

/// The sortable-path order is asymmetric.
pub proof fn lemma_key_lt_asymm(a: Seq<(u8, Seq<u8>)>, b: Seq<(u8, Seq<u8>)>)
    requires
        key_lt(a, b),
    ensures
        !key_lt(b, a),
{
    if key_lt(b, a) {
        lemma_key_lt_trans(a, b, a);
        lemma_key_lt_irrefl(a);
    }
}

/// Below-or-equal carries over: what does not exceed a bound does not exceed
/// anything the bound does not exceed.
pub proof fn lemma_key_le_trans(a: Seq<(u8, Seq<u8>)>, b: Seq<(u8, Seq<u8>)>, c: Seq<(u8, Seq<u8>)>)
    requires
        !key_lt(b, a),
        !key_lt(c, b),
    ensures
        !key_lt(c, a),
{
    if key_lt(c, a) {
        if key_lt(a, b) {
            lemma_key_lt_trans(c, a, b);
        } else {
            lemma_key_lt_connected(a, b);
        }
    }
}

/// Compares two byte strings from position `i` on.
fn bytes_cmp_from(a: &Vec<u8>, b: &Vec<u8>, i: usize) -> (r: Rel)
    requires
        i <= a.len(),
        i <= b.len(),
    ensures
        r is Less <==> bytes_lt(a@.skip(i as int), b@.skip(i as int)),
        r is Greater <==> bytes_lt(b@.skip(i as int), a@.skip(i as int)),
        r is Equal <==> a@.skip(i as int) == b@.skip(i as int),
    decreases a.len() - i,
{
    let ghost sa = a@.skip(i as int);
    let ghost sb = b@.skip(i as int);
    if i == b.len() {
        if i == a.len() {
            assert(sa =~= sb);
            Rel::Equal
        } else {
            assert(sa.len() > 0 && sb.len() == 0);
            assert(sa != sb) by {
                assert(sa.len() != sb.len());
            }
            Rel::Greater
        }
    } else if i == a.len() {
        assert(sa.len() == 0 && sb.len() > 0);
        assert(sa != sb) by {
            assert(sa.len() != sb.len());
        }
        Rel::Less
    } else {
        assert(sa[0] == a@[i as int] && sb[0] == b@[i as int]);
        if a[i] < b[i] {
            Rel::Less
        } else if b[i] < a[i] {
            Rel::Greater
        } else {
            let r = bytes_cmp_from(a, b, i + 1);
            proof {
                assert(sa.drop_first() =~= a@.skip(i + 1));
                assert(sb.drop_first() =~= b@.skip(i + 1));
                if a@.skip(i + 1) == b@.skip(i + 1) {
                    assert(sa =~= seq![sa[0]] + sa.drop_first());
                    assert(sb =~= seq![sb[0]] + sb.drop_first());
                }
                if sa == sb {
                    assert(sa.drop_first() == sb.drop_first());
                }
            }
            r
        }
    }
}

/// Compares two sortable paths from position `i` on.
fn key_cmp_from(a: &Vec<SortEntry>, b: &Vec<SortEntry>, i: usize) -> (r: Rel)
    requires
        i <= a.len(),
        i <= b.len(),
    ensures
        r is Less <==> key_lt(
            a@.map_values(|e: SortEntry| entry_model(e)).skip(i as int),
            b@.map_values(|e: SortEntry| entry_model(e)).skip(i as int),
        ),
        r is Greater <==> key_lt(
            b@.map_values(|e: SortEntry| entry_model(e)).skip(i as int),
            a@.map_values(|e: SortEntry| entry_model(e)).skip(i as int),
        ),
        r is Equal <==> a@.map_values(|e: SortEntry| entry_model(e)).skip(i as int) == b@.map_values(
            |e: SortEntry| entry_model(e),
        ).skip(i as int),
    decreases a.len() - i,
{
    let ghost ka = a@.map_values(|e: SortEntry| entry_model(e)).skip(i as int);
    let ghost kb = b@.map_values(|e: SortEntry| entry_model(e)).skip(i as int);
    if i == b.len() {
        if i == a.len() {
            assert(ka =~= kb);
            Rel::Equal
        } else {
            assert(ka.len() > 0 && kb.len() == 0);
            assert(ka != kb) by {
                assert(ka.len() != kb.len());
            }
            Rel::Greater
        }
    } else if i == a.len() {
        assert(ka.len() == 0 && kb.len() > 0);
        assert(ka != kb) by {
            assert(ka.len() != kb.len());
        }
        Rel::Less
    } else {
        let ea = &a[i];
        let eb = &b[i];
        assert(ka[0] == entry_model(a@[i as int]) && kb[0] == entry_model(b@[i as int]));
        if ea.prio < eb.prio {
            assert(entry_lt(ka[0], kb[0]));
            Rel::Less
        } else if eb.prio < ea.prio {
            assert(entry_lt(kb[0], ka[0]));
            Rel::Greater
        } else {
            let bc = bytes_cmp_from(&ea.name, &eb.name, 0);
            proof {
                assert(ea.name@.skip(0) =~= ea.name@);
                assert(eb.name@.skip(0) =~= eb.name@);
            }
            match bc {
                Rel::Less => {
                    assert(entry_lt(ka[0], kb[0]));
                    Rel::Less
                },
                Rel::Greater => {
                    assert(entry_lt(kb[0], ka[0]));
                    Rel::Greater
                },
                Rel::Equal => {
                    assert(!entry_lt(ka[0], kb[0]) && !entry_lt(kb[0], ka[0])) by {
                        assert(ka[0].1 == kb[0].1);
                        lemma_bytes_lt_irrefl(ka[0].1);
                    }
                    let r = key_cmp_from(a, b, i + 1);
                    proof {
                        assert(ka.drop_first() =~= a@.map_values(|e: SortEntry| entry_model(e)).skip(
                            i + 1,
                        ));
                        assert(kb.drop_first() =~= b@.map_values(|e: SortEntry| entry_model(e)).skip(
                            i + 1,
                        ));
                        if ka.drop_first() == kb.drop_first() {
                            assert(ka =~= seq![ka[0]] + ka.drop_first());
                            assert(kb =~= seq![kb[0]] + kb.drop_first());
                        }
                        if ka == kb {
                            assert(ka.drop_first() == kb.drop_first());
                        }
                    }
                    r
                },
            }
        }
    }
}

} // verus!
