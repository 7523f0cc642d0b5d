pub mod text;

pub mod general_helpers;

pub mod boards;

pub mod thread;

pub mod db;

pub mod codec;

pub mod glob;

pub mod store;

pub mod ban;

pub mod images;

pub mod queries;

pub mod submit;
