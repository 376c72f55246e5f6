pub mod node;
pub mod builders;
pub mod registry;
pub mod draw_order;
pub mod context;
