pub mod embed_updater;
pub mod status;
