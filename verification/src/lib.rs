//! Scene, material and asset logic of a small forward renderer.

pub mod accessors;
pub mod anim;
pub mod authoring;
pub mod clips;
pub mod format;
pub mod frame;
pub mod glb;
pub mod import;
pub mod layout;
pub mod loaded;
pub mod loading;
pub mod material;
pub mod mesh;
pub mod messages;
pub mod model;
pub mod morph;
pub mod overrides;
pub mod renderer;
pub mod resources;
pub mod scalar;
pub mod search;
pub mod skeleton;
pub mod smaa;
pub mod source;
pub mod submission;
pub mod text;
pub mod texture;
pub mod uniforms;
pub mod validation;
pub mod window;
