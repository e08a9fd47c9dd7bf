//! Report identifiers: drawing a fresh random id (the one trusted call)
//! and rendering an id in its canonical hyphenated lowercase-hex form,
//! which the ingestion acknowledgement embeds in its message.

use vstd::prelude::*;
use vstd::string::StringExecFns;

use crate::types::Uuid;

verus! {

/// Relies on uuid::Uuid::new_v4 and uuid::Uuid::as_u128: a version-4
/// identifier drawn from fresh randomness. Nothing relates two calls, and
/// nothing is assumed of the value.
#[verifier::external_body]
pub fn fresh_log_id() -> (id: Uuid)
{
    Uuid { value: uuid::Uuid::new_v4().as_u128() }
}

/// Relies on std's String::push: appends exactly one character.
#[verifier::external_body]
fn push_char(s: &mut String, c: char)
    ensures
        final(s)@ == old(s)@.push(c),
{
    s.push(c);
}

/// The lowercase hex digit for a value below 16.
pub open spec fn hex_digit(d: int) -> char {
    if d == 0 {
        '0'
    } else if d == 1 {
        '1'
    } else if d == 2 {
        '2'
    } else if d == 3 {
        '3'
    } else if d == 4 {
        '4'
    } else if d == 5 {
        '5'
    } else if d == 6 {
        '6'
    } else if d == 7 {
        '7'
    } else if d == 8 {
        '8'
    } else if d == 9 {
        '9'
    } else if d == 10 {
        'a'
    } else if d == 11 {
        'b'
    } else if d == 12 {
        'c'
    } else if d == 13 {
        'd'
    } else if d == 14 {
        'e'
    } else {
        'f'
    }
}

/// The `k`-th hex digit (most significant first, of 32) of a 128-bit id.
pub open spec fn nibble(v: u128, k: int) -> int {
    ((v >> (((31 - k) * 4) as u128)) & 0xf) as int
}

/// How many hyphens precede position `i` of the canonical rendering.
pub open spec fn hyphens_before(i: int) -> int {
    if i < 8 {
        0
    } else if i < 13 {
        1
    } else if i < 18 {
        2
    } else if i < 23 {
        3
    } else {
        4
    }
}

/// The character at position `i` of the canonical 36-character rendering:
/// 32 lowercase hex digits in groups of 8-4-4-4-12, separated by hyphens.
pub open spec fn uuid_char_at(v: u128, i: int) -> char {
    if i == 8 || i == 13 || i == 18 || i == 23 {
        '-'
    } else {
        hex_digit(nibble(v, i - hyphens_before(i)))
    }
}

/// The canonical hyphenated lowercase-hex rendering of an id.
pub open spec fn uuid_string(v: u128) -> Seq<char> {
    Seq::new(36, |i: int| uuid_char_at(v, i))
}

fn hex_digit_char(d: u128) -> (c: char)
    requires
        d < 16,
    ensures
        c == hex_digit(d as int),
{
    match d {
        0 => '0',
        1 => '1',
        2 => '2',
        3 => '3',
        4 => '4',
        5 => '5',
        6 => '6',
        7 => '7',
        8 => '8',
        9 => '9',
        10 => 'a',
        11 => 'b',
        12 => 'c',
        13 => 'd',
        14 => 'e',
        _ => 'f',
    }
}

impl Uuid {
    /// The canonical hyphenated lowercase-hex form of this id.
    pub fn to_hyphenated(&self) -> (s: String)
        ensures
            s@ == uuid_string(self.value),
    {
        let v = self.value;
        let mut s = String::new();
        let mut i: usize = 0;
        while i < 36
            invariant
                i <= 36,
                s@ =~= Seq::new(i as nat, |j: int| uuid_char_at(v, j)),
            decreases 36 - i,
        {
            if i == 8 || i == 13 || i == 18 || i == 23 {
                push_char(&mut s, '-');
            } else {
                let k: usize = if i < 8 {
                    i
                } else if i < 13 {
                    i - 1
                } else if i < 18 {
                    i - 2
                } else if i < 23 {
                    i - 3
                } else {
                    i - 4
                };
                let sh: u128 = ((31 - k) * 4) as u128;
                let d: u128 = (v >> sh) & 0xf;
                proof {
                    assert(((v >> sh) & 0xf) < 16) by (bit_vector);
                    assert(k as int == i - hyphens_before(i as int));
                }
                let c = hex_digit_char(d);
                push_char(&mut s, c);
            }
            i = i + 1;
            proof {
                assert(s@ =~= Seq::new(i as nat, |j: int| uuid_char_at(v, j)));
            }
        }
        proof {
            assert(s@ =~= uuid_string(v));
        }
        s
    }
}

/// The acknowledgement message for a created report: a fixed prefix
/// followed by the id's canonical hyphenated form.
pub open spec fn created_message_text(v: u128) -> Seq<char> {
    "Log was created with ID "@ + uuid_string(v)
}

impl Uuid {
    /// The acknowledgement message carrying this id.
    pub fn created_message(&self) -> (s: String)
        ensures
            s@ == created_message_text(self.value),
    {
        let hex = self.to_hyphenated();
        let s = String::from_str("Log was created with ID ");
        let s = s.concat(hex.as_str());
        s
    }
}

} // verus!
