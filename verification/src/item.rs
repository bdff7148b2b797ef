//! Items and the requests that create and change them.

use crate::identity::Identity;
use vstd::prelude::*;

verus! {

/// What an [`Item`] stands for in contracts.
pub struct ItemView {
    pub id: u64,
    pub owner: Seq<u8>,
    pub name: Seq<char>,
    pub description: Seq<char>,
    pub created_at: u64,
    pub updated_at: u64,
}

/// A named record that belongs to the caller who created it.
#[derive(Debug, Clone, PartialEq, Eq)]
pub struct Item {
    /// Assigned at creation and never changed or given out again.
    pub id: u64,
    /// The caller who created the item.
    pub owner: Identity,
    pub name: String,
    pub description: String,
    /// The time of creation.
    pub created_at: u64,
    /// The time of the last successful update, or of creation.
    pub updated_at: u64,
}

impl View for Item {
    type V = ItemView;

    open spec fn view(&self) -> ItemView {
        ItemView {
            id: self.id,
            owner: self.owner@,
            name: self.name@,
            description: self.description@,
            created_at: self.created_at,
            updated_at: self.updated_at,
        }
    }
}

/// What a caller supplies to create an item.
#[derive(Debug, Clone, PartialEq, Eq)]
pub struct CreateItemRequest {
    pub name: String,
    pub description: String,
}

/// What a caller supplies to change an item: both texts are always replaced.
#[derive(Debug, Clone, PartialEq, Eq)]
pub struct UpdateItemRequest {
    pub id: u64,
    pub name: String,
    pub description: String,
}

} // verus!
