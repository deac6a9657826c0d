//! The bookkeeping of a retained-mode GUI: style dirty-marking, show
//! propagation, classes and render bookkeeping, with their behaviour stated
//! in contracts and proved.
pub mod style_type;
pub mod style_mark;
pub mod idtree;
pub mod show;
pub mod class;
pub mod id_set;
pub mod items;
pub mod style_version;
pub mod res_release;
pub mod clip;
pub mod charblock;
pub mod render_dirty;
pub mod context_mark;
pub mod will_change;
pub mod render_matrix;
