[package]
name = "kitsune_types"
version = "0.1.0"
edition = "2021"
publish = false

[dependencies]
base64 = "=0.21.7"
holo_hash = "=0.7.1"
holochain_serialized_bytes = "*"
kitsune_p2p_bin_data = "=0.4.4"
tokio = { version = "=1.54.1", features = ["time"] }
once_cell = "=1.21.4"
futures = "=0.3.34"
ghost_actor = "=0.2.1"
thiserror = "=1.0.69"
serde = { version = "1", features = ["derive"] }
