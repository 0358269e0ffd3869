use vstd::prelude::*;

pub mod browser;
pub mod date;
pub mod date_format;
pub mod date_picker;
pub mod hover;
pub mod image_alt;
pub mod input_edit;
pub mod selection;
pub mod scroll_layout;
pub mod selector;
pub mod text;
pub mod widget_classes;
pub mod widget_state;

verus! {

} // verus!
