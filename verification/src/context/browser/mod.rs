pub mod extractor;
