//! Core of a spherical-panorama viewer and editor.
//!
//! An equirectangular image is navigated through a perspective window onto a
//! virtual sphere.  The camera is an orthonormal basis (`look_at`, `up`,
//! `right`) together with an angle of view; tools pan it, zoom it, and paint
//! circular brush strokes onto the texture through the projection.
//!
//! All geometry is carried out in fixed-point arithmetic: an `i64` holds a
//! real number scaled by one million.  This keeps every computation exact in
//! the sense that each function's result is pinned down, to the last unit,
//! by its contract.

pub mod canvas;
pub mod dispatch;
pub mod fixed;
pub mod pan;
pub mod pen;
pub mod projection;
pub mod quat;
pub mod state;
pub mod trig;
pub mod vec3;
pub mod zoom;
