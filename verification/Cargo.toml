[package]
name = "tui_preview"
version = "0.1.0"
edition = "2021"
publish = false

[dependencies]
sha2 = "*"
num_cpus = "*"
mime_guess = "*"
content_inspector = "*"
encoding_rs = "*"
csv = "*"
zip = { version = "*", default-features = false, features = ["deflate"] }
quick-xml = "*"
calamine = "*"
pulldown-cmark = { version = "*", default-features = false }
syntect = { version = "*", default-features = false, features = ["default-fancy"] }
docx-rs = "*"
lopdf = "*"
pdf-extract = "*"
anyhow = "*"
clap = { version = "4", features = ["derive"] }
crossterm = "*"
ratatui = "*"
tokio = { version = "1", features = ["rt-multi-thread", "macros", "sync", "time"] }
directories = "*"
open = "*"
tracing = "*"
tracing-subscriber = { version = "*", features = ["env-filter"] }
image = { version = "*", default-features = false, features = ["png", "jpeg", "gif", "bmp", "webp", "ico", "tiff"] }
base64 = "*"
lofty = "*"
symphonia = "*"
resvg = { version = "*", default-features = false }
