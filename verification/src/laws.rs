//! What the panel's operations promise, operation by operation.

pub mod booting;
pub mod deleting;
pub mod exports;
pub mod forms;
pub mod lists;
pub mod permissions;
pub mod plugins;
pub mod repeating;
pub mod routing;
pub mod rows;
pub mod saving;
pub mod serving;
pub mod sessions;
pub mod settings;
pub mod texts;
pub mod values;
