[package]
name = "stock_rpg"
version = "0.1.0"
edition = "2021"
publish = false

[dependencies]
boolinator = "=2.4.0"
nalgebra = "=0.29.0"
nalgebra-glm = "0.15"
ncollide3d = "=0.32.0"
nphysics3d = "=0.24.0"
rand = "=0.6.5"
serde_json = "=1.0.154"
