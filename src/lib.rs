//! An editable 2D scene: an entity store, a scene document codec, the
//! play-mode snapshot, and the selection, drag and camera controllers that
//! keep weak entity references consistent as entities come and go.

pub mod assets;
pub mod camera;
pub mod components;
pub mod editor;
pub mod gameplay;
pub mod scene;
pub mod world;
