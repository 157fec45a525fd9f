[package]
name = "leo_synthesis"
version = "0.1.0"
edition = "2021"
publish = false

[dependencies]
leo-ast = "=1.0.4"
leo-errors = "=2.7.3"
serde = { version = "=1.0.229", features = ["derive"] }
# The proof backend. These three crates carry on snarkos-models and
# snarkos-errors under their later names: the gadgets, the constraint system
# with its errors, and the fields.
snarkvm-fields = "=0.2.3"
snarkvm-gadgets = "=0.2.3"
snarkvm-r1cs = "=0.2.3"
