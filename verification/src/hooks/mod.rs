//! Hooks: per-component state, effects and helpers, kept in the hook cells
//! of the currently rendering fiber.
pub mod state;
pub mod ref_hook;
pub mod effect;
pub mod memo;
pub mod reducer;
pub mod id;
pub mod effect_event;
pub mod history;
pub mod scroll;
pub mod timing;
pub mod context;
pub mod event;
pub mod layout;
pub mod mouse;
pub mod async_hooks;
pub mod validator;
pub mod form;
