//! The keyboard's geometry and the sampling of touch input.
pub mod near_keys;
pub mod proximity_info;
pub mod proximity_info_params;
pub mod proximity_info_state;
