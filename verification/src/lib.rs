pub mod assemblages;
pub mod codec;
pub mod compendium;
pub mod component;
pub mod comps;
pub mod dyon;
pub mod editor;
pub mod frame;
pub mod glutin_state;
pub mod image_bundle;
pub mod json;
pub mod local_state;
pub mod phys_state;
pub mod saves;
pub mod scalar;
pub mod systems;
pub mod user_input;
pub mod util;
pub mod world;
