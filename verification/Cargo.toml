[package]
name = "rgb_iface"
version = "0.1.0"
edition = "2021"
publish = false

[dependencies]
amplify = "=4.7.1"
chrono = "=0.4.45"
rgb-core = "=0.11.0-beta.7"
rgb-invoice = "=0.11.0-beta.7"
strict_encoding = "=2.7.3"
strict_types = "=2.7.2"
bp-core = "=0.11.0-beta.7"
# No code here names the six crates below. rgb-core 0.11.0-beta.7 asks for
# them by ranges that also admit 0.11.0, against which it does not compile
# (`dbc::Proof` changed), so they are held to the line it was written for.
aluvm = "=0.11.0-beta.7"
bp-consensus = "=0.11.0-beta.7"
bp-dbc = "=0.11.0-beta.7"
bp-seals = "=0.11.0-beta.7"
commit_verify = "=0.11.0-beta.7"
single_use_seals = "=0.11.0-beta.7"
