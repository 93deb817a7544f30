//! Player profiles of the Mojang and GeyserMC lookup services.
use crate::text::string_of;
use vstd::prelude::*;

verus! {

/// A Bedrock player's Xbox user id, as 32 lower-case hex digits.
#[derive(Debug)]
pub struct GeyserProfile {
    pub xuid: String,
}

/// An error reported by the GeyserMC service.
#[derive(Debug)]
pub struct GeyserError {
    pub message: String,
}

/// A Java player's id and name.
#[derive(Debug)]
pub struct MojangProfile {
    pub id: String,
    pub name: String,
}

/// An error reported by the Mojang service.
#[derive(Debug)]
pub struct MojangError {
    pub path: String,
    pub error_message: String,
}

/// The lower-case hex digit for `d`.
pub open spec fn hex_char(d: nat) -> char {
    if d < 10 {
        (('0' as u32) + d) as char
    } else {
        (('a' as u32) + d - 10) as char
    }
}

/// The low `n` hex digits of `v`, most significant first.
pub open spec fn hex_digits(v: nat, n: nat) -> Seq<char>
    decreases n,
{
    if n == 0 {
        Seq::empty()
    } else {
        hex_digits(v / 16, (n - 1) as nat).push(hex_char(v % 16))
    }
}

fn hex_digit(d: u64) -> (r: char)
    requires
        d < 16,
    ensures
        r == hex_char(d as nat),
{
    let table: [char; 16] = [
        '0', '1', '2', '3', '4', '5', '6', '7', '8', '9', 'a', 'b', 'c', 'd', 'e', 'f',
    ];
    table[d as usize]
}

fn hex_digits_of(v: u64, n: usize) -> (r: Vec<char>)
    ensures
        r@ == hex_digits(v as nat, n as nat),
    decreases n,
{
    if n == 0 {
        Vec::new()
    } else {
        let mut r = hex_digits_of(v / 16, n - 1);
        r.push(hex_digit(v % 16));
        r
    }
}

/// `value` as 32 lower-case hex digits, zero-padded.
pub fn u64_to_hex_string(value: u64) -> (r: String)
    ensures
        r@ == hex_digits(value as nat, 32),
{
    let v = hex_digits_of(value, 32);
    string_of(v.as_slice())
}

} // verus!
