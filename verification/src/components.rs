//! The decisions of the browser client's components on its local copy of the
//! list: which todos the list shows, what the
//! footer counts and shows, what the header sends, and how an item's toggle,
//! edit and delete change the list.

pub mod footer;
pub mod header;
pub mod todo_item;
pub mod todo_list;
