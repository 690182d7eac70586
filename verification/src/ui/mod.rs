pub mod embeds;
