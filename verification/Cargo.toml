[package]
name = "funclens"
version = "0.1.0"
edition = "2021"
publish = false

[dependencies]
tree-sitter = "*"
streaming-iterator = "*"
tree-sitter-bash = "*"
tree-sitter-c = "*"
tree-sitter-c-sharp = "*"
tree-sitter-cpp = "*"
tree-sitter-dart = "*"
tree-sitter-elixir = "*"
tree-sitter-go = "*"
tree-sitter-haskell = "*"
tree-sitter-java = "*"
tree-sitter-javascript = "*"
tree-sitter-julia = "*"
tree-sitter-kotlin-ng = "*"
tree-sitter-lua = "*"
tree-sitter-ocaml = "*"
tree-sitter-perl = "*"
tree-sitter-php = "*"
tree-sitter-python = "*"
tree-sitter-r = "*"
tree-sitter-ruby = "*"
tree-sitter-rust = "*"
tree-sitter-scala = "*"
tree-sitter-swift = "*"
tree-sitter-typescript = "*"
tree-sitter-zig = "*"
ignore = "*"
rayon = "*"
clap = { version = "*", features = ["derive"] }
