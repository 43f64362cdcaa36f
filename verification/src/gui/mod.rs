//! What the windows show and do.

pub mod cloud_cinema;
pub mod composer;
pub mod composer_state;
pub mod job_cards;
pub mod layout;
pub mod media_list;
pub mod model_controls;
pub mod restore;
pub mod review;
pub mod view_laws;
pub mod window;
pub mod window_laws;
