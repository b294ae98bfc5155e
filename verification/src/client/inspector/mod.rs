//! Bookkeeping of the local request inspector: previews of bodies, the log of
//! recent exchanges, and the helpers behind its pages and exports.
pub mod model;
pub mod island;
pub mod log;
pub mod replay;
pub mod har;
pub mod view;
pub mod json_tree;
