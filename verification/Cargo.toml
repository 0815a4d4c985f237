[package]
name = "p3_playground"
version = "0.1.0"
edition = "2021"
publish = false

[dependencies]
p3-air = "=0.1.0"
p3-baby-bear = "=0.1.0"
p3-challenger = "=0.1.0"
p3-commit = "=0.1.0"
p3-dft = "=0.1.0"
p3-field = "=0.1.0"
p3-fri = "=0.1.0"
p3-matrix = "=0.1.0"
p3-merkle-tree = "=0.1.0"
p3-poseidon2 = "=0.1.0"
p3-symmetric = "=0.1.0"
p3-uni-stark = "=0.1.0"
rand = "0.8"
