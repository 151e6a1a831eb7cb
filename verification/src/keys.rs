//! Resolution of symbolic key and modifier names to USB HID usage codes
//! and modifier bitmasks.
//!
//! Names follow the W3 browser event codes ("KeyA", "ControlLeft", ...).
//! The lookup itself is done by the `keycode` crate; everything around it —
//! recognizing the eight standard modifier usages, splitting a modifier
//! string on whitespace, combining bits — is verified here.

use vstd::prelude::*;

verus! {

/// The USB HID usage code the `keycode` crate assigns to a key name, if
/// the name is known. A function of the name alone.
pub uninterp spec fn usb_usage_of(name: Seq<char>) -> Option<u16>;

/// Relies on keycode's `KeyMappingCode::from_str` (which recognizes exactly
/// the W3 key-name strings of its table) composed with `KeyMap::from`
/// (which returns the matching entry of the same table), to read the `usb`
/// usage code of a named key. The eight standard modifier rows of that
/// table carry the contiguous usages 0xE0 through 0xE7.
#[verifier::external_body]
pub fn usb_usage_for_name(name: &str) -> (r: Option<u16>)
    ensures
        r == usb_usage_of(name@),
        name@ == "ControlLeft"@ ==> r == Some(0xE0u16),
        name@ == "ShiftLeft"@ ==> r == Some(0xE1u16),
        name@ == "AltLeft"@ ==> r == Some(0xE2u16),
        name@ == "MetaLeft"@ ==> r == Some(0xE3u16),
        name@ == "ControlRight"@ ==> r == Some(0xE4u16),
        name@ == "ShiftRight"@ ==> r == Some(0xE5u16),
        name@ == "AltRight"@ ==> r == Some(0xE6u16),
        name@ == "MetaRight"@ ==> r == Some(0xE7u16),
{
    match <keycode::KeyMappingCode as core::str::FromStr>::from_str(name) {
        Ok(code) => Some(keycode::KeyMap::from(code).usb),
        Err(_) => None,
    }
}

/// Whether `c` has the Unicode `White_Space` property, the separator that
/// splits a modifier string into names.
pub open spec fn is_space_char(c: char) -> bool {
    let u = c as u32;
    ||| u == 0x20
    ||| (0x09 <= u && u <= 0x0D)
    ||| u == 0x85
    ||| u == 0xA0
    ||| u == 0x1680
    ||| (0x2000 <= u && u <= 0x200A)
    ||| u == 0x2028
    ||| u == 0x2029
    ||| u == 0x202F
    ||| u == 0x205F
    ||| u == 0x3000
}

/// Executable test for `is_space_char`.
pub fn is_space(c: char) -> (r: bool)
    ensures
        r == is_space_char(c),
{
    let u = c as u32;
    u == 0x20 || (0x09 <= u && u <= 0x0D) || u == 0x85 || u == 0xA0 || u == 0x1680
        || (0x2000 <= u && u <= 0x200A) || u == 0x2028 || u == 0x2029 || u == 0x202F
        || u == 0x205F || u == 0x3000
}

/// Length of the run of non-whitespace characters at the head of `s`.
pub open spec fn token_end(s: Seq<char>) -> int
    decreases s.len(),
{
    if s.len() == 0 || is_space_char(s[0]) {
        0
    } else {
        1 + token_end(s.drop_first())
    }
}

pub proof fn lemma_token_end_bounds(s: Seq<char>)
    ensures
        0 <= token_end(s) <= s.len(),
        s.len() > 0 && !is_space_char(s[0]) ==> 1 <= token_end(s),
    decreases s.len(),
{
    if s.len() > 0 && !is_space_char(s[0]) {
        lemma_token_end_bounds(s.drop_first());
    }
}

/// `token_end` is the position of the first whitespace character, or the
/// length when there is none.
pub proof fn lemma_token_end_value(s: Seq<char>, d: int)
    requires
        0 <= d <= s.len(),
        forall|k: int| 0 <= k < d ==> !is_space_char(#[trigger] s[k]),
        d == s.len() || is_space_char(s[d]),
    ensures
        token_end(s) == d,
    decreases d,
{
    if d == 0 {
    } else {
        assert(!is_space_char(s[0]));
        lemma_token_end_value(s.drop_first(), d - 1);
    }
}

/// The maximal non-whitespace runs of `s`, in order: what splitting on
/// whitespace yields.
pub open spec fn split_ws(s: Seq<char>) -> Seq<Seq<char>>
    decreases s.len(),
    via split_ws_decreases
{
    if s.len() == 0 {
        seq![]
    } else if is_space_char(s[0]) {
        split_ws(s.drop_first())
    } else {
        seq![s.take(token_end(s))] + split_ws(s.skip(token_end(s)))
    }
}

#[via_fn]
proof fn split_ws_decreases(s: Seq<char>) {
    lemma_token_end_bounds(s);
}

/// The modifier bit a usage code contributes: one of the eight contiguous
/// modifier usages sets its bit, anything else contributes nothing.
pub open spec fn modifier_bit_of_usage(u: u16) -> u8 {
    if 0xE0 <= u && u <= 0xE7 {
        1u8 << ((u - 0xE0) as u8)
    } else {
        0u8
    }
}

/// The modifier bit a name contributes: unknown and non-modifier names
/// contribute nothing.
pub open spec fn modifier_bit_of_name(part: Seq<char>) -> u8 {
    match usb_usage_of(part) {
        Some(u) => modifier_bit_of_usage(u),
        None => 0u8,
    }
}

/// The bits of all the names, combined.
pub open spec fn modifier_mask_of(parts: Seq<Seq<char>>) -> u8
    decreases parts.len(),
{
    if parts.len() == 0 {
        0u8
    } else {
        modifier_bit_of_name(parts[0]) | modifier_mask_of(parts.drop_first())
    }
}

/// The modifier bit a single named part contributes, resolved through the
/// key-name table.
fn modifier_bit_for(part: &str) -> (b: u8)
    ensures
        b == modifier_bit_of_name(part@),
{
    match usb_usage_for_name(part) {
        Some(u) => {
            if 0xE0 <= u && u <= 0xE7 {
                1u8 << ((u - 0xE0) as u8)
            } else {
                0u8
            }
        },
        None => 0u8,
    }
}

/// Splits `mods` on whitespace and combines the modifier bits of the
/// parts; non-modifier and unknown parts contribute nothing.
pub fn modifier_mask(mods: &str) -> (m: u8)
    ensures
        m == modifier_mask_of(split_ws(mods@)),
{
    let n = mods.unicode_len();
    let mut i: usize = 0;
    let mut m: u8 = 0;
    proof {
        assert(mods@.skip(0) =~= mods@);
        lemma_or_zero(modifier_mask_of(split_ws(mods@)));
    }
    while i < n
        invariant
            i <= n,
            n == mods@.len(),
            modifier_mask_of(split_ws(mods@)) == m | modifier_mask_of(split_ws(mods@.skip(i as int))),
        decreases n - i,
    {
        let ghost pre = mods@.skip(i as int);
        let c = mods.get_char(i);
        if is_space(c) {
            i = i + 1;
            proof {
                assert(pre.drop_first() =~= mods@.skip(i as int));
            }
        } else {
            let mut j: usize = i + 1;
            while j < n && !is_space(mods.get_char(j))
                invariant
                    i < j <= n,
                    n == mods@.len(),
                    forall|k: int| i <= k < j ==> !is_space_char(#[trigger] mods@[k]),
                decreases n - j,
            {
                j = j + 1;
            }
            proof {
                assert forall|k: int| 0 <= k < j - i implies !is_space_char(#[trigger] pre[k]) by {
                    assert(pre[k] == mods@[k + i]);
                }
                assert(j - i == pre.len() || is_space_char(pre[j - i]));
                lemma_token_end_value(pre, j - i);
                assert(split_ws(pre) == seq![pre.take(j - i)] + split_ws(pre.skip(j - i)));
            }
            let part = mods.substring_char(i, j);
            proof {
                assert(part@ =~= pre.take(j - i));
            }
            let b = modifier_bit_for(part);
            proof {
                assert(pre.skip(j - i) =~= mods@.skip(j as int));
                let rest = split_ws(pre.skip(j - i));
                assert((seq![pre.take(j - i)] + rest).drop_first() =~= rest);
                assert((seq![pre.take(j - i)] + rest)[0] == pre.take(j - i));
                assert(modifier_mask_of(split_ws(pre)) == b | modifier_mask_of(rest));
                lemma_or_assoc(m, b, modifier_mask_of(rest));
            }
            m = m | b;
            i = j;
        }
    }
    proof {
        assert(mods@.skip(n as int) =~= Seq::<char>::empty());
        lemma_or_zero_right(m);
    }
    m
}

proof fn lemma_or_assoc(a: u8, b: u8, c: u8)
    ensures
        a | (b | c) == (a | b) | c,
{
    assert(a | (b | c) == (a | b) | c) by (bit_vector);
}

proof fn lemma_or_zero(a: u8)
    ensures
        0u8 | a == a,
{
    assert(0u8 | a == a) by (bit_vector);
}

proof fn lemma_or_zero_right(a: u8)
    ensures
        a | 0u8 == a,
{
    assert(a | 0u8 == a) by (bit_vector);
}

/// Which of the eight standard modifier names `name` is, as the offset of
/// its usage from the first modifier usage.
pub open spec fn modifier_name_offset(name: Seq<char>) -> Option<u8> {
    if name == "ControlLeft"@ {
        Some(0u8)
    } else if name == "ShiftLeft"@ {
        Some(1u8)
    } else if name == "AltLeft"@ {
        Some(2u8)
    } else if name == "MetaLeft"@ {
        Some(3u8)
    } else if name == "ControlRight"@ {
        Some(4u8)
    } else if name == "ShiftRight"@ {
        Some(5u8)
    } else if name == "AltRight"@ {
        Some(6u8)
    } else if name == "MetaRight"@ {
        Some(7u8)
    } else {
        None
    }
}

/// What resolving `name` with optional modifier names yields: the combined
/// modifier bitmask and the keycode. A name that itself denotes one of the
/// eight standard modifier usages sets its bit and yields keycode zero; an
/// unknown primary name yields (0, 0) outright.
pub open spec fn spec_translate_key(name: Seq<char>, modifier: Option<Seq<char>>) -> (u8, u8) {
    match usb_usage_of(name) {
        None => (0u8, 0u8),
        Some(u) => {
            let kc = (u & 0xFF) as u8;
            let mask = match modifier {
                None => 0u8,
                Some(m) => modifier_mask_of(split_ws(m)),
            };
            if 0xE0 <= kc && kc <= 0xE7 {
                ((mask | (1u8 << ((kc - 0xE0) as u8))), 0u8)
            } else {
                (mask, kc)
            }
        },
    }
}

/// Resolves a key name and an optional whitespace-separated modifier
/// string to a modifier bitmask and a keycode.
pub fn translate_key(key_name: &str, mod_name: Option<&str>) -> (r: (u8, u8))
    ensures
        r == spec_translate_key(key_name@, match mod_name {
            Some(m) => Some(m@),
            None => None::<Seq<char>>,
        }),
        // Each of the eight standard modifier names, given as the primary
        // key with no modifier string, yields its own bit and keycode zero.
        mod_name is None ==> (match modifier_name_offset(key_name@) {
            Some(off) => r == ((1u8 << off), 0u8),
            None => true,
        }),
{
    let usage = usb_usage_for_name(key_name);
    match usage {
        None => {
            proof {
                // A standard modifier name is in the table, so it cannot
                // have failed to resolve.
                assert(modifier_name_offset(key_name@) is None);
            }
            (0u8, 0u8)
        },
        Some(u) => {
            assert(u & 0xFF <= 0xFF) by (bit_vector);
            let kc = (u & 0xFF) as u8;
            let mask = match mod_name {
                None => 0u8,
                Some(m) => modifier_mask(m),
            };
            proof {
                if modifier_name_offset(key_name@) is Some {
                    assert(0xE0 <= u && u <= 0xE7);
                    assert(u & 0xFF == u) by (bit_vector)
                        requires 0xE0 <= u && u <= 0xE7;
                }
            }
            if 0xE0 <= kc && kc <= 0xE7 {
                let bit = 1u8 << ((kc - 0xE0) as u8);
                proof {
                    lemma_or_zero(bit);
                }
                (mask | bit, 0u8)
            } else {
                (mask, kc)
            }
        },
    }
}

} // verus!
