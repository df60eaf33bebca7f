[package]
name = "ecs_sync"
version = "0.1.0"
edition = "2021"
publish = false

[dependencies]
backoff = "*"
log = "*"
rusoto_core = { version = "*", default-features = false, features = ["rustls"] }
rusoto_credential = "*"
rusoto_ecr = { version = "*", default-features = false, features = ["rustls"] }
rusoto_ecs = { version = "*", default-features = false, features = ["rustls"] }
rusoto_elbv2 = { version = "*", default-features = false, features = ["rustls"] }
serde_json = "*"
stderrlog = "*"
structopt = "*"
tokio = { version = "*", features = ["macros", "rt-multi-thread"] }
