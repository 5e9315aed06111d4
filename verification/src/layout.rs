//! Operations on the layout tree and the geometry that places it on screen.

pub mod geometry;
pub mod ids;
pub mod laws;
pub mod manipulation;
pub mod navigation;
pub mod search;

pub use geometry::{clamp_ratio, point_in_rect, split_rect, Rect, MAX_RATIO, MIN_RATIO, RATIO_UNIT};
pub use navigation::{collect_bites, first_bite, layout_rects, walk};
pub use search::{
    find_bite, find_bite_at, find_bite_mut, find_node, find_node_mut, find_pane_at,
};
pub use manipulation::{
    delete_node, next_id, resize_from_bite, rollback_split_bite, split_bite, swap_adjacent_bites,
    DeleteNodeError,
};
