[package]
name = "materia_forge"
version = "0.1.0"
edition = "2021"
publish = false

[dependencies]
anyhow = "=1.0.104"
console = "=0.16.6"
dialoguer = "=0.12.0"
home = "=0.5.12"
indicatif = "=0.18.6"
keyvalues-parser = "=0.2.4"
lib_game_detector = "=0.0.39"
log = "=0.4.34"
reqwest = { version = "=0.13.5", features = ["blocking", "json"] }
rfd = { version = "=0.17.2", default-features = false, features = ["xdg-portal"] }
serde_json = "=1.0.154"
steamlocate = "=2.1.1"
textwrap = "=0.16.4"
xdg = "=3.0.0"

[dev-dependencies]
regex = "=1.13.1"
