pub mod feed_model;
