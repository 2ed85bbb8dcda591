[package]
name = "sarkara"
version = "0.10.0"
edition = "2021"
publish = false

[dependencies]
argon2rs = "=0.2.5"
ascon = "=0.1.4"
blake2-rfc = "=0.2.18"
blissb = "=0.2.3"
byteorder = "=1.5.0"
dilithium = "=0.1.2"
failure = "=0.1.8"
hc128 = "=0.1.6"
hc256 = "=0.1.6"
kyber = "=0.1.1"
newhope = "=0.2.0"
mem-aead-mrs = "=0.1.1"
norx-permutation = "=0.1.4"
rabbit = "=0.1.0"
rand = "=0.4.6"
seckey = "=0.9.3"
serde = "1"
sidh = "=0.2.3"
sparx-cipher = "=0.1.2"
