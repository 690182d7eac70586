pub mod paths;
