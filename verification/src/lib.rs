//! Navigation core for a demo-page application.
//!
//! The library models the state that a demo menu and a content view share:
//! which demo is currently selected ([`selection::NavigationSelection`],
//! held by a [`holder::NavigationHolder`] that notifies registered
//! observers), a registry mapping route segments to renderers
//! ([`registry::DemoRegistry`]), the menu rows derived from both
//! ([`menu`]), and the reaction to a route change ([`route`]).
//!
//! Rendering and the browser are outside collaborators: the library only
//! decides what is selected, which renderer a path resolves to, which menu
//! row is active, and who is notified of a change.

pub mod holder;
pub mod menu;
pub mod registry;
pub mod route;
pub mod selection;
