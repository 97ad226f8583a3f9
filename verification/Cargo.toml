[package]
name = "tantiny"
version = "0.1.0"
edition = "2021"
publish = false

[dependencies]
levenshtein_automata = "=0.2.1"
magnus = "=0.7.1"
tantivy = { version = "=0.24.2", default-features = false, features = ["mmap", "stopwords", "lz4-compression"] }
time = { version = "=0.3.55", features = ["parsing"] }

[dev-dependencies]
tempfile = "=3.27.0"
