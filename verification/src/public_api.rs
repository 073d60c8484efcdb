//! The assembled public API of a crate: the deterministically sorted public
//! items, with the missing-reference diagnostics.

use vstd::prelude::*;
use crate::graph::ItemId;
use crate::render::PubModel;
use crate::render::PublicItem;
use crate::render::join_segments;

verus! {

/// The public API of a crate: its items sorted by sortable path, and the
/// ids of missing but referenced items.
pub struct PublicApi {
    /// The items of the public API, in sorted order.
    pub items: Vec<PublicItem>,
    /// The recorded ids of missing but referenced items.
    pub missing_item_ids: Vec<ItemId>,
}

/// The rendered bytes of a sorted item list: one line per item, each closed
/// by a line feed.
pub open spec fn api_render(items: Seq<PubModel>) -> Seq<u8>
    decreases items.len(),
{
    if items.len() == 0 {
        Seq::empty()
    } else {
        api_render(items.drop_last()) + join_segments(items.last().vis) + seq![10u8]
    }
}

impl PublicApi {
    /// The models of the items, in order.
    pub open spec fn items_model(self) -> Seq<PubModel> {
        self.items@.map_values(|p: PublicItem| p.model())
    }

    /// The items of the public API, in sorted order.
    pub fn items(&self) -> (r: &Vec<PublicItem>)
        ensures
            r@ == self.items@,
    {
        &self.items
    }

    /// The items of the public API, handing ownership to the caller.
    pub fn into_items(self) -> (r: Vec<PublicItem>)
        ensures
            r@ == self.items@,
    {
        self.items
    }

    /// The recorded ids of missing but referenced items.
    pub fn missing_item_ids(&self) -> (r: &Vec<ItemId>)
        ensures
            r@ == self.missing_item_ids@,
    {
        &self.missing_item_ids
    }

    /// Renders the whole public API: each item's visible path on a line of
    /// its own.  The result is a pure function of the items, so equal item
    /// lists render to identical bytes.
    pub fn render(&self) -> (r: Vec<u8>)
        ensures
            r@ == api_render(self.items_model()),
    {
        let mut r: Vec<u8> = Vec::new();
        let mut i: usize = 0;
        while i < self.items.len()
            invariant
                i <= self.items@.len(),
                r@ =~= api_render(self.items_model().take(i as int)),
            decreases self.items@.len() - i,
        {
            proof {
                assert(self.items_model().take(i + 1).drop_last() =~= self.items_model().take(
                    i as int,
                ));
                assert(self.items_model().take(i + 1).last() == self.items@[i as int].model());
            }
            let line = self.items[i].render();
            crate::text::push_all(&mut r, &line);
            r.push(10u8);
            proof {
                assert(r@ =~= api_render(self.items_model().take(i + 1)));
            }
            i = i + 1;
        }
        assert(self.items_model().take(self.items@.len() as int) =~= self.items_model());
        r
    }
}

} // verus!
