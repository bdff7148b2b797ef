//! A store of named items, each owned by the caller who created it.
//!
//! Callers create, read, update and delete items. Anyone may read any item;
//! only its owner may change or delete it. Ids are given out by a counter
//! that only grows, so that no id is used twice. The items are kept as
//! records in stable memory and survive a restart of the process.

pub mod error;
pub mod identity;
pub mod item;
pub mod laws;
pub mod model;
pub mod record;
pub mod service;
pub mod store;
pub mod text;

pub use crate::error::{Action, ItemError, OpenError};
pub use crate::identity::Identity;
pub use crate::item::{CreateItemRequest, Item, UpdateItemRequest};
pub use crate::service::{
    create_item, create_with, delete_item, get_all_items, get_item, get_my_items, owned_item,
    update_item, whoami,
};
pub use crate::store::{next_id, Backing, Store};
