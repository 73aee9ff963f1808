[package]
name = "modality_ctf"
version = "0.1.0"
edition = "2021"
publish = false

[dependencies]
uuid = { version = "1", features = ["v4", "v5"] }
modality-api = "*"
babeltrace2-sys = "*"
modality-ingest-client = "*"
modality-ingest-protocol = "*"
modality-reflector-config = "*"
tokio = { version = "1", features = ["rt-multi-thread", "macros"] }
clap = { version = "4", features = ["derive", "env"] }
ctrlc = "*"
exitcode = "*"
tracing = "*"
tracing-subscriber = { version = "*", features = ["env-filter"] }
url = "*"
serde = { version = "*", features = ["derive"] }
socket2 = "*"
