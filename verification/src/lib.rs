//! Node-side coordination core: role dispatch, block import ordering, slot-based
//! authoring and weighted finality voting, with every rule stated and proved.

pub mod authority;
pub mod chain;
pub mod discovery;
pub mod finality;
pub mod import_queue;
pub mod ipci;
pub mod node;
pub mod primitives;
pub mod production;
pub mod robonomics;
pub mod role;
pub mod service;
