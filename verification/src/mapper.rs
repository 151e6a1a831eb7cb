//! Resolution of button identifiers to action sequences.
//!
//! A `Mapper` owns a hot-swappable table from stringified button ids to
//! configured action sequences, and lowers each configured action — still
//! carrying symbolic key names — into the primitive `HidAction`s the actor
//! executes.

use vstd::prelude::*;
use crate::events::{HidAction, HidActionV};
use crate::keys::{spec_translate_key, translate_key};

verus! {

/// One configured action, as it appears in the device configuration: keys
/// and modifiers are symbolic names.
#[derive(Debug, PartialEq)]
pub enum ConfigAction {
    KeyPress { keys: Vec<String>, modifier: Option<String> },
    KeyRelease,
    MouseMove { dx: i8, dy: i8 },
    MousePress { button: u8 },
    MouseRelease,
    MouseWheel { amount: i8 },
    ConsumerPress { usage_id: u16 },
    ConsumerRelease,
    Delay { ms: u64 },
    SendString { keys: Vec<String>, modifiers: Vec<String> },
    Sequence(Vec<ConfigAction>),
}

/// The mathematical value of a `ConfigAction`: strings become character
/// sequences, vectors become sequences.
pub enum ConfigActionV {
    KeyPress { keys: Seq<Seq<char>>, modifier: Option<Seq<char>> },
    KeyRelease,
    MouseMove { dx: i8, dy: i8 },
    MousePress { button: u8 },
    MouseRelease,
    MouseWheel { amount: i8 },
    ConsumerPress { usage_id: u16 },
    ConsumerRelease,
    Delay { ms: u64 },
    SendString { keys: Seq<Seq<char>>, modifiers: Seq<Seq<char>> },
    Sequence(Seq<ConfigActionV>),
}

/// The mathematical value of a configured action.
pub open spec fn ca_view(a: ConfigAction) -> ConfigActionV
    decreases a,
{
    match a {
        ConfigAction::KeyPress { keys, modifier } => ConfigActionV::KeyPress {
            keys: keys.deep_view(),
            modifier: match modifier {
                Some(m) => Some(m@),
                None => None,
            },
        },
        ConfigAction::KeyRelease => ConfigActionV::KeyRelease,
        ConfigAction::MouseMove { dx, dy } => ConfigActionV::MouseMove { dx, dy },
        ConfigAction::MousePress { button } => ConfigActionV::MousePress { button },
        ConfigAction::MouseRelease => ConfigActionV::MouseRelease,
        ConfigAction::MouseWheel { amount } => ConfigActionV::MouseWheel { amount },
        ConfigAction::ConsumerPress { usage_id } => ConfigActionV::ConsumerPress { usage_id },
        ConfigAction::ConsumerRelease => ConfigActionV::ConsumerRelease,
        ConfigAction::Delay { ms } => ConfigActionV::Delay { ms },
        ConfigAction::SendString { keys, modifiers } => ConfigActionV::SendString {
            keys: keys.deep_view(),
            modifiers: modifiers.deep_view(),
        },
        ConfigAction::Sequence(sub) => ConfigActionV::Sequence(ca_seq_view(sub@)),
    }
}

/// The mathematical value of a sequence of configured actions.
pub open spec fn ca_seq_view(s: Seq<ConfigAction>) -> Seq<ConfigActionV>
    decreases s,
{
    if s.len() == 0 {
        seq![]
    } else {
        seq![ca_view(s[0])] + ca_seq_view(s.drop_first())
    }
}

pub proof fn lemma_ca_seq_view_props(s: Seq<ConfigAction>)
    ensures
        ca_seq_view(s).len() == s.len(),
        forall|i: int| 0 <= i < s.len() ==> #[trigger] ca_seq_view(s)[i] == ca_view(s[i]),
    decreases s.len(),
{
    if s.len() > 0 {
        lemma_ca_seq_view_props(s.drop_first());
    }
}

impl View for ConfigAction {
    type V = ConfigActionV;

    open spec fn view(&self) -> ConfigActionV {
        ca_view(*self)
    }
}

impl DeepView for ConfigAction {
    type V = ConfigActionV;

    open spec fn deep_view(&self) -> ConfigActionV {
        ca_view(*self)
    }
}

impl Clone for ConfigAction {
    /// A clone has the same mathematical value.
    fn clone(&self) -> (r: Self)
        ensures
            ca_view(r) == ca_view(*self),
        decreases *self,
    {
        match self {
            ConfigAction::KeyPress { keys, modifier } => {
                let ks = keys.clone();
                let md = match modifier {
                    Some(m) => Some(m.clone()),
                    None => None,
                };
                proof {
                    lemma_cloned_string_vec(*keys, ks);
                }
                ConfigAction::KeyPress { keys: ks, modifier: md }
            },
            ConfigAction::KeyRelease => ConfigAction::KeyRelease,
            ConfigAction::MouseMove { dx, dy } => ConfigAction::MouseMove { dx: *dx, dy: *dy },
            ConfigAction::MousePress { button } => ConfigAction::MousePress { button: *button },
            ConfigAction::MouseRelease => ConfigAction::MouseRelease,
            ConfigAction::MouseWheel { amount } => ConfigAction::MouseWheel { amount: *amount },
            ConfigAction::ConsumerPress { usage_id } => ConfigAction::ConsumerPress { usage_id: *usage_id },
            ConfigAction::ConsumerRelease => ConfigAction::ConsumerRelease,
            ConfigAction::Delay { ms } => ConfigAction::Delay { ms: *ms },
            ConfigAction::SendString { keys, modifiers } => {
                let ks = keys.clone();
                let ms = modifiers.clone();
                proof {
                    lemma_cloned_string_vec(*keys, ks);
                    lemma_cloned_string_vec(*modifiers, ms);
                }
                ConfigAction::SendString { keys: ks, modifiers: ms }
            },
            ConfigAction::Sequence(sub) => {
                let mut out: Vec<ConfigAction> = Vec::new();
                let mut i: usize = 0;
                while i < sub.len()
                    invariant
                        *self == ConfigAction::Sequence(*sub),
                        i <= sub@.len(),
                        out@.len() == i,
                        forall|k: int| 0 <= k < i ==> ca_view(#[trigger] out@[k]) == ca_view(sub@[k]),
                    decreases sub@.len() - i,
                {
                    proof {
                        assert(self->Sequence_0 == *sub);
                        assert(decreases_to!(*self => self->Sequence_0));
                        assert(decreases_to!(*sub => sub@));
                        assert(decreases_to!(sub@ => sub@[i as int]));
                    }
                    out.push(sub[i].clone());
                    i = i + 1;
                }
                proof {
                    lemma_ca_seq_view_eq(out@, sub@);
                }
                ConfigAction::Sequence(out)
            },
        }
    }
}

/// Cloning a vector of strings keeps its mathematical value.
proof fn lemma_cloned_string_vec(a: Vec<String>, b: Vec<String>)
    requires
        a.len() == b.len(),
        forall|i: int| #![all_triggers] 0 <= i < a.len() ==> vstd::pervasive::cloned::<String>(a[i], b[i]),
    ensures
        b.deep_view() == a.deep_view(),
{
    assert(b.deep_view() =~~= a.deep_view());
}

/// Element-wise equal views give equal sequence views.
proof fn lemma_ca_seq_view_eq(a: Seq<ConfigAction>, b: Seq<ConfigAction>)
    requires
        a.len() == b.len(),
        forall|k: int| 0 <= k < a.len() ==> ca_view(#[trigger] a[k]) == ca_view(b[k]),
    ensures
        ca_seq_view(a) == ca_seq_view(b),
{
    lemma_ca_seq_view_props(a);
    lemma_ca_seq_view_props(b);
    assert(ca_seq_view(a) =~= ca_seq_view(b));
}

/// At most the first six keys of a chord are kept.
pub open spec fn first6(keys: Seq<Seq<char>>) -> Seq<Seq<char>> {
    if keys.len() > 6 {
        keys.take(6)
    } else {
        keys
    }
}

/// The modifier bits of a chord: each key resolved with the same modifier
/// string, bits combined left to right.
pub open spec fn kp_mods(keys: Seq<Seq<char>>, m: Option<Seq<char>>) -> u8
    decreases keys.len(),
{
    if keys.len() == 0 {
        0u8
    } else {
        kp_mods(keys.drop_last(), m) | spec_translate_key(keys.last(), m).0
    }
}

/// The six keycode slots of a chord: resolved keys in order, zero beyond.
pub open spec fn kp_keys(keys: Seq<Seq<char>>, m: Option<Seq<char>>) -> Seq<u8> {
    Seq::new(6, |i: int| if 0 <= i < keys.len() && i < 6 {
        spec_translate_key(keys[i], m).1
    } else {
        0u8
    })
}

/// What typing a string yields: each key pressed alone with its own
/// modifier, then released, in order; an empty modifier name means none.
pub open spec fn send_string_actions(keys: Seq<Seq<char>>, modifiers: Seq<Seq<char>>) -> Seq<HidActionV>
    decreases keys.len(),
{
    if keys.len() == 0 || modifiers.len() == 0 {
        seq![]
    } else {
        let m = if modifiers[0].len() > 0 {
            Some(modifiers[0])
        } else {
            None
        };
        let mk = spec_translate_key(keys[0], m);
        seq![
            HidActionV::KeyPress(mk.0, seq![mk.1, 0u8, 0u8, 0u8, 0u8, 0u8]),
            HidActionV::KeyRelease,
        ] + send_string_actions(keys.drop_first(), modifiers.drop_first())
    }
}

/// What one configured action lowers to.
pub open spec fn spec_translate_action(a: ConfigActionV) -> Seq<HidActionV>
    decreases a,
{
    match a {
        ConfigActionV::KeyPress { keys, modifier } => seq![
            HidActionV::KeyPress(kp_mods(first6(keys), modifier), kp_keys(keys, modifier)),
        ],
        ConfigActionV::KeyRelease => seq![HidActionV::KeyRelease],
        ConfigActionV::MouseMove { dx, dy } => seq![HidActionV::MouseMove(dx, dy)],
        ConfigActionV::MousePress { button } => seq![HidActionV::MousePress(button)],
        ConfigActionV::MouseRelease => seq![HidActionV::MouseRelease],
        ConfigActionV::MouseWheel { amount } => seq![HidActionV::MouseWheel(amount)],
        ConfigActionV::ConsumerPress { usage_id } => seq![HidActionV::ConsumerPress(usage_id)],
        ConfigActionV::ConsumerRelease => seq![HidActionV::ConsumerRelease],
        ConfigActionV::Delay { ms } => seq![HidActionV::Delay(ms)],
        ConfigActionV::SendString { keys, modifiers } => send_string_actions(keys, modifiers),
        ConfigActionV::Sequence(sub) => spec_translate_seq(sub),
    }
}

/// What a sequence of configured actions lowers to: each action's lowering,
/// concatenated in order; nested sequences are flattened.
pub open spec fn spec_translate_seq(s: Seq<ConfigActionV>) -> Seq<HidActionV>
    decreases s,
{
    if s.len() == 0 {
        seq![]
    } else {
        spec_translate_action(s[0]) + spec_translate_seq(s.drop_first())
    }
}

/// Lowers one configured action into the primitive actions it stands for.
pub fn translate_action(action: &ConfigAction) -> (r: Vec<HidAction>)
    ensures
        r.deep_view() == spec_translate_action(ca_view(*action)),
    decreases *action,
{
    match action {
        ConfigAction::KeyPress { keys, modifier } => {
            let mstr: Option<&str> = match modifier {
                Some(m) => Some(m.as_str()),
                None => None,
            };
            let ghost mview: Option<Seq<char>> = match modifier {
                Some(m) => Some(m@),
                None => None,
            };
            let ghost kv = keys.deep_view();
            let kn = if keys.len() > 6 { 6 } else { keys.len() };
            let mut mods: u8 = 0;
            let mut kcs: Vec<u8> = Vec::new();
            proof {
                assert(first6(kv).take(0) =~= Seq::<Seq<char>>::empty());
            }
            let mut idx: usize = 0;
            while idx < kn
                invariant
                    idx <= kn <= keys@.len(),
                    kn <= 6,
                    keys@.len() >= 6 ==> kn == 6,
                    keys@.len() <= 6 ==> kn == keys@.len(),
                    kv == keys.deep_view(),
                    mview == (match mstr {
                        Some(m) => Some(m@),
                        None => None::<Seq<char>>,
                    }),
                    mods == kp_mods(first6(kv).take(idx as int), mview),
                    kcs@.len() == idx,
                    forall|j: int| 0 <= j < idx
                        ==> #[trigger] kcs@[j] == spec_translate_key(kv[j], mview).1,
                decreases kn - idx,
            {
                let key = &keys[idx];
                let mk = translate_key(key.as_str(), mstr);
                proof {
                    assert(kv[idx as int] == keys@[idx as int]@);
                    assert(first6(kv).take(idx + 1).drop_last() =~= first6(kv).take(idx as int));
                    assert(first6(kv).take(idx + 1).last() == kv[idx as int]);
                }
                mods = mods | mk.0;
                kcs.push(mk.1);
                idx = idx + 1;
            }
            while kcs.len() < 6
                invariant
                    kn <= kcs@.len() <= 6,
                    kv == keys.deep_view(),
                    keys@.len() >= 6 ==> kn == 6,
                    keys@.len() <= 6 ==> kn == keys@.len(),
                    forall|j: int| 0 <= j < kn
                        ==> #[trigger] kcs@[j] == spec_translate_key(kv[j], mview).1,
                    forall|j: int| kn <= j < kcs@.len() ==> #[trigger] kcs@[j] == 0u8,
                decreases 6 - kcs@.len(),
            {
                kcs.push(0u8);
            }
            let arr: [u8; 6] = [kcs[0], kcs[1], kcs[2], kcs[3], kcs[4], kcs[5]];
            proof {
                assert(arr@ =~= kp_keys(kv, mview));
                assert(first6(kv).take(kn as int) =~= first6(kv));
            }
            let mut r: Vec<HidAction> = Vec::new();
            r.push(HidAction::KeyPress(mods, arr));
            proof {
                assert(r.deep_view() =~~= spec_translate_action(ca_view(*action)));
            }
            r
        },
        ConfigAction::KeyRelease => {
            let mut r: Vec<HidAction> = Vec::new();
            r.push(HidAction::KeyRelease);
            proof {
                assert(r.deep_view() =~~= spec_translate_action(ca_view(*action)));
            }
            r
        },
        ConfigAction::MouseMove { dx, dy } => {
            let mut r: Vec<HidAction> = Vec::new();
            r.push(HidAction::MouseMove(*dx, *dy));
            proof {
                assert(r.deep_view() =~~= spec_translate_action(ca_view(*action)));
            }
            r
        },
        ConfigAction::MousePress { button } => {
            let mut r: Vec<HidAction> = Vec::new();
            r.push(HidAction::MousePress(*button));
            proof {
                assert(r.deep_view() =~~= spec_translate_action(ca_view(*action)));
            }
            r
        },
        ConfigAction::MouseRelease => {
            let mut r: Vec<HidAction> = Vec::new();
            r.push(HidAction::MouseRelease);
            proof {
                assert(r.deep_view() =~~= spec_translate_action(ca_view(*action)));
            }
            r
        },
        ConfigAction::MouseWheel { amount } => {
            let mut r: Vec<HidAction> = Vec::new();
            r.push(HidAction::MouseWheel(*amount));
            proof {
                assert(r.deep_view() =~~= spec_translate_action(ca_view(*action)));
            }
            r
        },
        ConfigAction::ConsumerPress { usage_id } => {
            let mut r: Vec<HidAction> = Vec::new();
            r.push(HidAction::ConsumerPress(*usage_id));
            proof {
                assert(r.deep_view() =~~= spec_translate_action(ca_view(*action)));
            }
            r
        },
        ConfigAction::ConsumerRelease => {
            let mut r: Vec<HidAction> = Vec::new();
            r.push(HidAction::ConsumerRelease);
            proof {
                assert(r.deep_view() =~~= spec_translate_action(ca_view(*action)));
            }
            r
        },
        ConfigAction::Delay { ms } => {
            let mut r: Vec<HidAction> = Vec::new();
            r.push(HidAction::Delay(*ms));
            proof {
                assert(r.deep_view() =~~= spec_translate_action(ca_view(*action)));
            }
            r
        },
        ConfigAction::SendString { keys, modifiers } => {
            let ghost kv = keys.deep_view();
            let ghost mv = modifiers.deep_view();
            let n = if keys.len() < modifiers.len() { keys.len() } else { modifiers.len() };
            let mut r: Vec<HidAction> = Vec::new();
            let mut i: usize = 0;
            proof {
                assert(kv.skip(0) =~= kv);
                assert(mv.skip(0) =~= mv);
                assert(r.deep_view() + send_string_actions(kv, mv) =~~= send_string_actions(kv, mv));
            }
            while i < n
                invariant
                    i <= n,
                    n <= keys@.len(),
                    n <= modifiers@.len(),
                    n == keys@.len() || n == modifiers@.len(),
                    kv == keys.deep_view(),
                    mv == modifiers.deep_view(),
                    r.deep_view() + send_string_actions(kv.skip(i as int), mv.skip(i as int))
                        == send_string_actions(kv, mv),
                decreases n - i,
            {
                let ghost r0 = r.deep_view();
                let ghost ks = kv.skip(i as int);
                let ghost ms = mv.skip(i as int);
                let modifier = &modifiers[i];
                let mstr: Option<&str> = if modifier.as_str().is_empty() {
                    None
                } else {
                    Some(modifier.as_str())
                };
                let key = &keys[i];
                let mk = translate_key(key.as_str(), mstr);
                r.push(HidAction::KeyPress(mk.0, [mk.1, 0u8, 0u8, 0u8, 0u8, 0u8]));
                r.push(HidAction::KeyRelease);
                proof {
                    assert(ks[0] == kv[i as int]);
                    assert(ms[0] == mv[i as int]);
                    assert(kv[i as int] == keys@[i as int]@);
                    assert(mv[i as int] == modifiers@[i as int]@);
                    assert(ks.drop_first() =~= kv.skip(i + 1));
                    assert(ms.drop_first() =~= mv.skip(i + 1));
                    let smk = spec_translate_key(ks[0], if ms[0].len() > 0 { Some(ms[0]) } else { None });
                    let pair = seq![
                        HidActionV::KeyPress(smk.0, seq![smk.1, 0u8, 0u8, 0u8, 0u8, 0u8]),
                        HidActionV::KeyRelease,
                    ];
                    assert(send_string_actions(ks, ms) == pair + send_string_actions(kv.skip(i + 1), mv.skip(i + 1)));
                    assert(r.deep_view() =~~= r0 + pair);
                    assert((r0 + pair) + send_string_actions(kv.skip(i + 1), mv.skip(i + 1))
                        =~~= r0 + (pair + send_string_actions(kv.skip(i + 1), mv.skip(i + 1))));
                }
                i = i + 1;
            }
            proof {
                if n == keys@.len() {
                    assert(kv.skip(n as int).len() == 0);
                } else {
                    assert(mv.skip(n as int).len() == 0);
                }
                assert(send_string_actions(kv.skip(n as int), mv.skip(n as int))
                    =~~= Seq::<HidActionV>::empty());
                assert(r.deep_view() + Seq::<HidActionV>::empty() =~~= r.deep_view());
            }
            r
        },
        ConfigAction::Sequence(sub) => {
            proof {
                assert(action->Sequence_0 == *sub);
                assert(decreases_to!(*action => action->Sequence_0));
                assert(decreases_to!(*sub => sub@));
            }
            translate_sequence(sub)
        },
    }
}

/// Lowers a sequence of configured actions, in order; nested sequences are
/// flattened.
pub fn translate_sequence(actions: &Vec<ConfigAction>) -> (r: Vec<HidAction>)
    ensures
        r.deep_view() == spec_translate_seq(ca_seq_view(actions@)),
    decreases actions@,
{
    let mut out: Vec<HidAction> = Vec::new();
    let mut i: usize = 0;
    proof {
        assert(actions@.skip(0) =~= actions@);
        assert(out.deep_view() + spec_translate_seq(ca_seq_view(actions@))
            =~~= spec_translate_seq(ca_seq_view(actions@)));
    }
    while i < actions.len()
        invariant
            i <= actions@.len(),
            out.deep_view() + spec_translate_seq(ca_seq_view(actions@.skip(i as int)))
                == spec_translate_seq(ca_seq_view(actions@)),
        decreases actions@.len() - i,
    {
        proof {
            assert(decreases_to!(actions@ => actions@[i as int]));
        }
        let ghost out0 = out.deep_view();
        let mut acts = translate_action(&actions[i]);
        let ghost acts_dv = acts.deep_view();
        out.append(&mut acts);
        proof {
            let pre = ca_seq_view(actions@.skip(i as int));
            lemma_ca_seq_view_props(actions@.skip(i as int));
            lemma_ca_seq_view_props(actions@.skip(i + 1));
            assert(pre[0] == ca_view(actions@[i as int]));
            assert(pre.drop_first() =~= ca_seq_view(actions@.skip(i + 1)));
            assert(spec_translate_seq(pre)
                == spec_translate_action(pre[0]) + spec_translate_seq(pre.drop_first()));
            assert(out.deep_view() =~~= out0 + acts_dv);
            assert((out0 + acts_dv) + spec_translate_seq(ca_seq_view(actions@.skip(i + 1)))
                =~~= out0 + (acts_dv + spec_translate_seq(ca_seq_view(actions@.skip(i + 1)))));
        }
        i = i + 1;
    }
    proof {
        assert(actions@.skip(actions@.len() as int) =~= Seq::<ConfigAction>::empty());
        assert(spec_translate_seq(ca_seq_view(Seq::<ConfigAction>::empty()))
            =~~= Seq::<HidActionV>::empty());
        assert(out.deep_view() + Seq::<HidActionV>::empty() =~~= out.deep_view());
    }
    out
}

/// The decimal digit character for `d`.
pub open spec fn digit_char(d: u8) -> char {
    if d == 0 { '0' }
    else if d == 1 { '1' }
    else if d == 2 { '2' }
    else if d == 3 { '3' }
    else if d == 4 { '4' }
    else if d == 5 { '5' }
    else if d == 6 { '6' }
    else if d == 7 { '7' }
    else if d == 8 { '8' }
    else { '9' }
}

/// The characters of a digit list read back to front: the list holds the
/// least significant digit first.
pub open spec fn rev_digit_chars(ds: Seq<u8>) -> Seq<char>
    decreases ds.len(),
{
    if ds.len() == 0 {
        seq![]
    } else {
        seq![digit_char(ds.last())] + rev_digit_chars(ds.drop_last())
    }
}

proof fn lemma_rev_digit_chars_props(ds: Seq<u8>)
    ensures
        rev_digit_chars(ds).len() == ds.len(),
        forall|j: int| 0 <= j < ds.len()
            ==> #[trigger] rev_digit_chars(ds)[j] == digit_char(ds[ds.len() - 1 - j]),
    decreases ds.len(),
{
    if ds.len() > 0 {
        lemma_rev_digit_chars_props(ds.drop_last());
    }
}

/// The decimal digits of `n`, most significant first.
pub open spec fn spec_udigits(n: nat) -> Seq<char>
    decreases n,
{
    if n < 10 {
        seq![digit_char(n as u8)]
    } else {
        spec_udigits(n / 10).push(digit_char((n % 10) as u8))
    }
}

/// The decimal representation of `v`, as `to_string` writes it.
pub open spec fn spec_int_string(v: int) -> Seq<char> {
    if v < 0 {
        seq!['-'] + spec_udigits((-v) as nat)
    } else {
        spec_udigits(v as nat)
    }
}

/// The one-character string for a decimal digit.
fn digit_str(d: u8) -> (r: &'static str)
    requires
        d < 10,
    ensures
        r@ == seq![digit_char(d)],
{
    proof {
        reveal_strlit("0");
        reveal_strlit("1");
        reveal_strlit("2");
        reveal_strlit("3");
        reveal_strlit("4");
        reveal_strlit("5");
        reveal_strlit("6");
        reveal_strlit("7");
        reveal_strlit("8");
        reveal_strlit("9");
    }
    match d {
        0 => "0",
        1 => "1",
        2 => "2",
        3 => "3",
        4 => "4",
        5 => "5",
        6 => "6",
        7 => "7",
        8 => "8",
        _ => "9",
    }
}

/// Writes `v` in decimal, as the stringified button identifier.
pub fn i32_to_decimal(v: i32) -> (s: String)
    ensures
        s@ == spec_int_string(v as int),
{
    let neg = v < 0;
    let mut mag: u64 = if v < 0 {
        (-(v as i64)) as u64
    } else {
        v as u64
    };
    let ghost m0 = mag as nat;
    let mut digits: Vec<u8> = Vec::new();
    loop
        invariant_except_break
            digits@.len() > 0 ==> mag > 0 && spec_udigits(m0) == spec_udigits(mag as nat)
                + rev_digit_chars(digits@),
        invariant
            mag as nat <= m0,
            digits@.len() == 0 ==> mag as nat == m0,
            forall|j: int| 0 <= j < digits@.len() ==> #[trigger] digits@[j] < 10,
        ensures
            spec_udigits(m0) == rev_digit_chars(digits@),
            digits@.len() > 0,
            forall|j: int| 0 <= j < digits@.len() ==> #[trigger] digits@[j] < 10,
        decreases mag,
    {
        let ghost ds0 = digits@;
        let ghost mag0 = mag as nat;
        let d = (mag % 10) as u8;
        digits.push(d);
        mag = mag / 10;
        proof {
            assert(digits@.drop_last() =~= ds0);
            assert(digits@.last() == d);
            assert(rev_digit_chars(digits@) == seq![digit_char(d)] + rev_digit_chars(ds0));
            if mag0 < 10 {
                assert(mag0 % 10 == mag0);
                assert(mag0 / 10 == 0);
                assert(spec_udigits(mag0) =~= seq![digit_char(d)]);
                if ds0.len() == 0 {
                    assert(rev_digit_chars(ds0) =~= Seq::<char>::empty());
                    assert(spec_udigits(m0) =~= rev_digit_chars(digits@));
                } else {
                    assert(spec_udigits(m0) =~= rev_digit_chars(digits@)) by {
                        assert(spec_udigits(m0) == spec_udigits(mag0) + rev_digit_chars(ds0));
                        assert(seq![digit_char(d)] + rev_digit_chars(ds0)
                            =~= rev_digit_chars(digits@));
                    }
                }
            } else {
                assert(mag0 / 10 >= 1 && mag0 / 10 < mag0) by (nonlinear_arith)
                    requires mag0 >= 10;
                assert(spec_udigits(mag0) == spec_udigits(mag0 / 10).push(digit_char((mag0 % 10) as u8)));
                assert((mag0 % 10) as u8 == d);
                assert(spec_udigits(mag0 / 10).push(digit_char(d))
                    =~= spec_udigits(mag0 / 10) + seq![digit_char(d)]);
                if ds0.len() == 0 {
                    assert(rev_digit_chars(ds0) =~= Seq::<char>::empty());
                    assert(spec_udigits(mag0 / 10) + seq![digit_char(d)]
                        =~= spec_udigits(mag0 / 10) + rev_digit_chars(digits@));
                } else {
                    assert(spec_udigits(m0) =~= spec_udigits(mag0 / 10) + rev_digit_chars(digits@)) by {
                        assert(spec_udigits(m0) == spec_udigits(mag0) + rev_digit_chars(ds0));
                        assert((spec_udigits(mag0 / 10) + seq![digit_char(d)]) + rev_digit_chars(ds0)
                            =~= spec_udigits(mag0 / 10) + (seq![digit_char(d)] + rev_digit_chars(ds0)));
                    }
                }
            }
        }
        if mag == 0 {
            break;
        }
    }
    let mut s = String::new();
    if neg {
        s.append("-");
        proof {
            reveal_strlit("-");
        }
    }
    let ghost prefix0 = s@;
    proof {
        lemma_rev_digit_chars_props(digits@);
        assert(rev_digit_chars(digits@).take(0) =~= Seq::<char>::empty());
        assert(s@ =~= prefix0 + rev_digit_chars(digits@).take(0));
    }
    let mut k = digits.len();
    while k > 0
        invariant
            k <= digits@.len(),
            forall|j: int| 0 <= j < digits@.len()
                ==> #[trigger] rev_digit_chars(digits@)[j] == digit_char(digits@[digits@.len() - 1 - j]),
            rev_digit_chars(digits@).len() == digits@.len(),
            forall|j: int| 0 <= j < digits@.len() ==> #[trigger] digits@[j] < 10,
            s@ == prefix0 + rev_digit_chars(digits@).take(digits@.len() - k),
        decreases k,
    {
        k = k - 1;
        let d = digits[k];
        s.append(digit_str(d));
        proof {
            let rc = rev_digit_chars(digits@);
            assert(rc.take(digits@.len() - k)
                =~= rc.take(digits@.len() - (k + 1)) + seq![digit_char(digits@[k as int])]);
            assert(s@ =~= prefix0 + rc.take(digits@.len() - k));
        }
    }
    proof {
        assert(rev_digit_chars(digits@).take(digits@.len() as int) =~= rev_digit_chars(digits@));
        if v < 0 {
            assert(m0 == (-(v as int)) as nat);
            assert(s@ =~= spec_int_string(v as int));
        } else {
            assert(m0 == (v as int) as nat);
            assert(prefix0 =~= Seq::<char>::empty());
            assert(s@ =~= spec_int_string(v as int));
        }
    }
    s
}

/// One row of the mapping table: a stringified button identifier and its
/// configured action sequence.
#[derive(Debug, PartialEq)]
pub struct MappingEntry {
    pub button: String,
    pub actions: Vec<ConfigAction>,
}

/// A copy of an action list with the same mathematical value.
pub fn clone_actions(actions: &Vec<ConfigAction>) -> (r: Vec<ConfigAction>)
    ensures
        ca_seq_view(r@) == ca_seq_view(actions@),
{
    let mut acts: Vec<ConfigAction> = Vec::new();
    let mut i: usize = 0;
    while i < actions.len()
        invariant
            i <= actions@.len(),
            acts@.len() == i,
            forall|k: int| 0 <= k < i ==> ca_view(#[trigger] acts@[k]) == ca_view(actions@[k]),
        decreases actions@.len() - i,
    {
        acts.push(actions[i].clone());
        i = i + 1;
    }
    proof {
        lemma_ca_seq_view_eq(acts@, actions@);
    }
    acts
}

impl Clone for MappingEntry {
    /// A clone has the same mathematical value.
    fn clone(&self) -> (r: Self)
        ensures
            r.button@ == self.button@,
            ca_seq_view(r.actions@) == ca_seq_view(self.actions@),
    {
        MappingEntry { button: self.button.clone(), actions: clone_actions(&self.actions) }
    }
}

/// The table from stringified button identifiers to configured action
/// sequences; the first row with a matching identifier wins.
pub type MappingConfiguration = Vec<MappingEntry>;

/// The mathematical value of a mapping table.
pub open spec fn mapping_view(m: Seq<MappingEntry>) -> Seq<(Seq<char>, Seq<ConfigActionV>)> {
    Seq::new(m.len(), |i: int| (m[i].button@, ca_seq_view(m[i].actions@)))
}

/// The action sequence the table assigns to `key`: its first row for `key`.
pub open spec fn mapping_lookup(cfg: Seq<(Seq<char>, Seq<ConfigActionV>)>, key: Seq<char>) -> Option<Seq<ConfigActionV>>
    decreases cfg.len(),
{
    if cfg.len() == 0 {
        None
    } else if cfg[0].0 == key {
        Some(cfg[0].1)
    } else {
        mapping_lookup(cfg.drop_first(), key)
    }
}

/// What a button press resolves to: the button's own row, else the row of
/// the reserved identifier "default", else nothing — lowered to primitive
/// actions.
pub open spec fn spec_get_action_sequence(cfg: Seq<(Seq<char>, Seq<ConfigActionV>)>, id: int) -> Seq<HidActionV> {
    match mapping_lookup(cfg, spec_int_string(id)) {
        Some(s) => spec_translate_seq(s),
        None => match mapping_lookup(cfg, "default"@) {
            Some(s) => spec_translate_seq(s),
            None => seq![],
        },
    }
}

/// Fallback: a button identifier without a row of its own resolves exactly
/// as the reserved identifier "default" does.
pub proof fn lemma_fallback(cfg: Seq<(Seq<char>, Seq<ConfigActionV>)>, id: int)
    requires
        mapping_lookup(cfg, spec_int_string(id)) is None,
    ensures
        spec_get_action_sequence(cfg, id) == (match mapping_lookup(cfg, "default"@) {
            Some(s) => spec_translate_seq(s),
            None => Seq::<HidActionV>::empty(),
        }),
{
    assert(Seq::<HidActionV>::empty() =~= seq![]);
}

/// Resolves button identifiers to the primitive action sequences configured
/// for them, through a hot-swappable table.
pub struct Mapper {
    config: MappingConfiguration,
}

impl Mapper {
    /// The mathematical value of the current table.
    pub closed spec fn cfg(&self) -> Seq<(Seq<char>, Seq<ConfigActionV>)> {
        mapping_view(self.config@)
    }

    pub fn new(config: MappingConfiguration) -> (r: Self)
        ensures
            r.cfg() == mapping_view(config@),
    {
        Mapper { config }
    }

    /// Replaces the whole table; sequences already handed out are
    /// unaffected.
    pub fn update_mapping_config(&mut self, config: MappingConfiguration)
        ensures
            final(self).cfg() == mapping_view(config@),
    {
        self.config = config;
    }

}

/// The first row of `config` for `key`, if any.
pub fn mapping_get<'a>(config: &'a MappingConfiguration, key: &String) -> (r: Option<&'a Vec<ConfigAction>>)
    ensures
        match r {
            Some(v) => mapping_lookup(mapping_view(config@), key@)
                == Some(ca_seq_view(v@)),
            None => mapping_lookup(mapping_view(config@), key@) is None,
        },
{
    let ghost whole = mapping_view(config@);
    let mut i: usize = 0;
    proof {
        assert(whole.skip(0) =~= whole);
    }
    while i < config.len()
        invariant
            i <= config@.len(),
            whole == mapping_view(config@),
            whole.len() == config@.len(),
            mapping_lookup(whole, key@) == mapping_lookup(whole.skip(i as int), key@),
        decreases config@.len() - i,
    {
        let entry = &config[i];
        if entry.button == *key {
            proof {
                assert(whole.skip(i as int)[0] == (entry.button@, ca_seq_view(entry.actions@)));
            }
            return Some(&entry.actions);
        }
        proof {
            assert(whole.skip(i as int)[0] == (entry.button@, ca_seq_view(entry.actions@)));
            assert(whole.skip(i as int).drop_first() =~= whole.skip(i + 1));
        }
        i = i + 1;
    }
    proof {
        assert(whole.skip(config@.len() as int) =~= Seq::<(Seq<char>, Seq<ConfigActionV>)>::empty());
    }
    None
}

impl Mapper {
    /// Retrieves the primitive action sequence for a button: the button's
    /// own row, falling back to the reserved identifier "default", else an
    /// empty sequence. Never fails.
    pub fn get_action_sequence(&self, button_id: i32) -> (r: Vec<HidAction>)
        ensures
            r.deep_view() == spec_get_action_sequence(self.cfg(), button_id as int),
    {
        let key = i32_to_decimal(button_id);
        match mapping_get(&self.config, &key) {
            Some(v) => translate_sequence(v),
            None => {
                let dkey = String::from_str("default");
                match mapping_get(&self.config, &dkey) {
                    Some(v) => translate_sequence(v),
                    None => {
                        let r: Vec<HidAction> = Vec::new();
                        proof {
                            assert(r.deep_view() =~= Seq::<HidActionV>::empty());
                            assert(Seq::<HidActionV>::empty() =~= seq![]);
                        }
                        r
                    },
                }
            },
        }
    }
}

/// Skipping rows whose identifier is not `key` does not change a lookup.
pub proof fn lemma_mapping_lookup_skip(cfg: Seq<(Seq<char>, Seq<ConfigActionV>)>, key: Seq<char>, n: int)
    requires
        0 <= n <= cfg.len(),
        forall|j: int| 0 <= j < n ==> (#[trigger] cfg[j]).0 != key,
    ensures
        mapping_lookup(cfg, key) == mapping_lookup(cfg.skip(n), key),
    decreases n,
{
    if n > 0 {
        assert(cfg.skip(0) =~= cfg);
        lemma_mapping_lookup_skip(cfg.drop_first(), key, n - 1);
        assert(cfg.drop_first().skip(n - 1) =~= cfg.skip(n));
    } else {
        assert(cfg.skip(0) =~= cfg);
    }
}

/// The panel's default button labels, in order.
pub open spec fn default_button_names() -> Seq<Seq<char>> {
    seq![
        "A"@, "Ctrl+C"@, "Hello"@, "F5"@, "Left Click"@, "Move Square"@,
        "Scroll Down"@, "Right Click"@, "Vol Up"@, "Vol Down"@, "Mute"@,
        "Play/Pause"@, "Alt+Tab"@, "Ctrl+Alt+Del"@, "Copy+Paste"@, "TaskMgr"@,
    ]
}

impl Mapper {
    /// The panel's default button labels, one per button, in order.
    pub fn get_default_button_names() -> (r: Vec<&'static str>)
        ensures
            r.deep_view() == default_button_names(),
    {
        let r: Vec<&'static str> = vec![
            "A",
            "Ctrl+C",
            "Hello",
            "F5",
            "Left Click",
            "Move Square",
            "Scroll Down",
            "Right Click",
            "Vol Up",
            "Vol Down",
            "Mute",
            "Play/Pause",
            "Alt+Tab",
            "Ctrl+Alt+Del",
            "Copy+Paste",
            "TaskMgr",
        ];
        proof {
            assert(r.deep_view() =~= default_button_names());
        }
        r
    }
}

/// The button identifiers of the default table, in order: the sixteen
/// panel buttons and the reserved fallback identifier.
pub open spec fn default_mapping_keys() -> Seq<Seq<char>> {
    seq![
        "1"@, "2"@, "3"@, "4"@, "5"@, "6"@, "7"@, "8"@, "9"@, "10"@, "11"@, "12"@,
        "13"@, "14"@, "15"@, "16"@, "default"@,
    ]
}

impl Mapper {
    /// The built-in mapping table: one row per panel button and one for the
    /// reserved fallback identifier "default".
    pub fn load_default_config() -> (r: MappingConfiguration)
        ensures
            mapping_view(r@).len() == 17,
            forall|i: int| 0 <= i < 17
                ==> (#[trigger] mapping_view(r@)[i]).0 == default_mapping_keys()[i],
            mapping_lookup(mapping_view(r@), "default"@)
                == Some(seq![ConfigActionV::Delay { ms: 1 }]),
            mapping_lookup(mapping_view(r@), "1"@) == Some(seq![
                ConfigActionV::KeyPress { keys: seq!["KeyA"@], modifier: Some("ShiftLeft"@) },
                ConfigActionV::Delay { ms: 10 },
                ConfigActionV::KeyRelease,
            ]),
    {
        // Button 1: shifted 'A'.
        let e1 = MappingEntry { button: String::from_str("1"), actions: vec![
            ConfigAction::KeyPress {
                keys: vec![String::from_str("KeyA")],
                modifier: Some(String::from_str("ShiftLeft")),
            },
            ConfigAction::Delay { ms: 10 },
            ConfigAction::KeyRelease,
        ] };
        // Button 2: copy.
        let e2 = MappingEntry { button: String::from_str("2"), actions: vec![
            ConfigAction::KeyPress {
                keys: vec![String::from_str("KeyC")],
                modifier: Some(String::from_str("ControlLeft")),
            },
            ConfigAction::Delay { ms: 10 },
            ConfigAction::KeyRelease,
        ] };
        // Button 3: type "Hello".
        let e3 = MappingEntry { button: String::from_str("3"), actions: vec![
            ConfigAction::SendString {
                keys: vec![
                    String::from_str("KeyH"),
                    String::from_str("KeyE"),
                    String::from_str("KeyL"),
                    String::from_str("KeyL"),
                    String::from_str("KeyO"),
                ],
                modifiers: vec![
                    String::from_str("ShiftLeft"),
                    String::from_str(""),
                    String::from_str(""),
                    String::from_str(""),
                    String::from_str(""),
                ],
            },
        ] };
        // Button 4: F5.
        let e4 = MappingEntry { button: String::from_str("4"), actions: vec![
            ConfigAction::KeyPress { keys: vec![String::from_str("F5")], modifier: None },
            ConfigAction::Delay { ms: 10 },
            ConfigAction::KeyRelease,
        ] };
        // Button 5: left mouse click.
        let e5 = MappingEntry { button: String::from_str("5"), actions: vec![
            ConfigAction::MousePress { button: 1 },
            ConfigAction::Delay { ms: 10 },
            ConfigAction::MouseRelease,
        ] };
        // Button 6: move the pointer in a square.
        let e6 = MappingEntry { button: String::from_str("6"), actions: vec![
            ConfigAction::MouseMove { dx: 0, dy: 15 },
            ConfigAction::Delay { ms: 100 },
            ConfigAction::MouseMove { dx: 15, dy: 0 },
            ConfigAction::Delay { ms: 100 },
            ConfigAction::MouseMove { dx: 0, dy: -15 },
            ConfigAction::Delay { ms: 100 },
            ConfigAction::MouseMove { dx: -15, dy: 0 },
            ConfigAction::Delay { ms: 100 },
        ] };
        // Button 7: scroll down.
        let e7 = MappingEntry { button: String::from_str("7"), actions: vec![
            ConfigAction::MouseWheel { amount: -5 },
            ConfigAction::Delay { ms: 10 },
        ] };
        // Button 8: right mouse click.
        let e8 = MappingEntry { button: String::from_str("8"), actions: vec![
            ConfigAction::MousePress { button: 2 },
            ConfigAction::Delay { ms: 10 },
            ConfigAction::MouseRelease,
        ] };
        // Button 9: volume up.
        let e9 = MappingEntry { button: String::from_str("9"), actions: vec![
            ConfigAction::ConsumerPress { usage_id: 0xE9 },
            ConfigAction::Delay { ms: 10 },
            ConfigAction::ConsumerRelease,
        ] };
        // Button 10: volume down.
        let e10 = MappingEntry { button: String::from_str("10"), actions: vec![
            ConfigAction::ConsumerPress { usage_id: 0xEA },
            ConfigAction::Delay { ms: 10 },
            ConfigAction::ConsumerRelease,
        ] };
        // Button 11: mute.
        let e11 = MappingEntry { button: String::from_str("11"), actions: vec![
            ConfigAction::ConsumerPress { usage_id: 0xE2 },
            ConfigAction::Delay { ms: 10 },
            ConfigAction::ConsumerRelease,
        ] };
        // Button 12: play/pause.
        let e12 = MappingEntry { button: String::from_str("12"), actions: vec![
            ConfigAction::ConsumerPress { usage_id: 0xCD },
            ConfigAction::Delay { ms: 10 },
            ConfigAction::ConsumerRelease,
        ] };
        // Button 13: task switch.
        let e13 = MappingEntry { button: String::from_str("13"), actions: vec![
            ConfigAction::KeyPress {
                keys: vec![String::from_str("Tab")],
                modifier: Some(String::from_str("AltLeft")),
            },
            ConfigAction::Delay { ms: 10 },
            ConfigAction::KeyRelease,
        ] };
        // Button 14: Ctrl+Alt+Delete, pressed and released one key at a time.
        let e14 = MappingEntry { button: String::from_str("14"), actions: vec![
            ConfigAction::KeyPress { keys: vec![String::from_str("ControlLeft")], modifier: None },
            ConfigAction::Delay { ms: 5 },
            ConfigAction::KeyPress {
                keys: vec![String::from_str("AltLeft")],
                modifier: Some(String::from_str("ControlLeft")),
            },
            ConfigAction::Delay { ms: 5 },
            ConfigAction::KeyPress {
                keys: vec![String::from_str("Delete")],
                modifier: Some(String::from_str("ControlLeft AltLeft")),
            },
            ConfigAction::Delay { ms: 10 },
            ConfigAction::KeyPress {
                keys: vec![String::from_str("AltLeft")],
                modifier: Some(String::from_str("ControlLeft")),
            },
            ConfigAction::Delay { ms: 5 },
            ConfigAction::KeyPress { keys: vec![String::from_str("ControlLeft")], modifier: None },
            ConfigAction::Delay { ms: 5 },
            ConfigAction::KeyRelease,
        ] };
        // Button 15: copy, wait, paste.
        let e15 = MappingEntry { button: String::from_str("15"), actions: vec![
            ConfigAction::KeyPress { keys: vec![String::from_str("ControlLeft")], modifier: None },
            ConfigAction::Delay { ms: 5 },
            ConfigAction::KeyPress {
                keys: vec![String::from_str("KeyC")],
                modifier: Some(String::from_str("ControlLeft")),
            },
            ConfigAction::Delay { ms: 10 },
            ConfigAction::KeyPress { keys: vec![String::from_str("ControlLeft")], modifier: None },
            ConfigAction::Delay { ms: 5 },
            ConfigAction::KeyRelease,
            ConfigAction::Delay { ms: 100 },
            ConfigAction::KeyPress { keys: vec![String::from_str("ControlLeft")], modifier: None },
            ConfigAction::Delay { ms: 5 },
            ConfigAction::KeyPress {
                keys: vec![String::from_str("KeyV")],
                modifier: Some(String::from_str("ControlLeft")),
            },
            ConfigAction::Delay { ms: 10 },
            ConfigAction::KeyPress { keys: vec![String::from_str("ControlLeft")], modifier: None },
            ConfigAction::Delay { ms: 5 },
            ConfigAction::KeyRelease,
        ] };
        // Button 16: open the task manager.
        let e16 = MappingEntry { button: String::from_str("16"), actions: vec![
            ConfigAction::KeyPress { keys: vec![String::from_str("ControlLeft")], modifier: None },
            ConfigAction::Delay { ms: 5 },
            ConfigAction::KeyPress {
                keys: vec![String::from_str("ShiftLeft")],
                modifier: Some(String::from_str("ControlLeft")),
            },
            ConfigAction::Delay { ms: 5 },
            ConfigAction::KeyPress {
                keys: vec![String::from_str("Escape")],
                modifier: Some(String::from_str("ControlLeft ShiftLeft")),
            },
            ConfigAction::Delay { ms: 10 },
            ConfigAction::KeyPress {
                keys: vec![String::from_str("ShiftLeft")],
                modifier: Some(String::from_str("ControlLeft")),
            },
            ConfigAction::Delay { ms: 5 },
            ConfigAction::KeyPress { keys: vec![String::from_str("ControlLeft")], modifier: None },
            ConfigAction::Delay { ms: 5 },
            ConfigAction::KeyRelease,
        ] };
        // Any unassigned button: a minimal action.
        let edefault = MappingEntry { button: String::from_str("default"), actions: vec![
            ConfigAction::Delay { ms: 1 },
        ] };
        let r: MappingConfiguration = vec![
            e1, e2, e3, e4, e5, e6, e7, e8, e9, e10, e11, e12, e13, e14, e15, e16, edefault,
        ];
        proof {
            let mv = mapping_view(r@);
            assert forall|i: int| 0 <= i < 17 implies (#[trigger] mv[i]).0
                == default_mapping_keys()[i] by {
            }
            reveal_strlit("1");
            reveal_strlit("2");
            reveal_strlit("3");
            reveal_strlit("4");
            reveal_strlit("5");
            reveal_strlit("6");
            reveal_strlit("7");
            reveal_strlit("8");
            reveal_strlit("9");
            reveal_strlit("10");
            reveal_strlit("11");
            reveal_strlit("12");
            reveal_strlit("13");
            reveal_strlit("14");
            reveal_strlit("15");
            reveal_strlit("16");
            reveal_strlit("default");
            assert forall|j: int| 0 <= j < 16 implies (#[trigger] mv[j]).0 != "default"@ by {
                assert(mv[j].0 == default_mapping_keys()[j]);
                assert(default_mapping_keys()[j].len() <= 2);
                assert("default"@.len() == 7);
            }
            lemma_mapping_lookup_skip(mv, "default"@, 16);
            assert(mv.skip(16)[0] == mv[16]);
            assert(mv[16].0 == "default"@);
            assert(mapping_lookup(mv, "default"@) == Some(mv[16].1));
            lemma_ca_seq_view_props(r@[16].actions@);
            assert(mv[16].1 =~= seq![ConfigActionV::Delay { ms: 1 }]);
            assert(mv[0].0 == "1"@);
            assert(mapping_lookup(mv, "1"@) == Some(mv[0].1)) by {
                assert(mv.skip(0) =~= mv);
                lemma_mapping_lookup_skip(mv, "1"@, 0);
            }
            lemma_ca_seq_view_props(r@[0].actions@);
            assert(r@[0].actions@[0]->KeyPress_keys.deep_view() =~= seq!["KeyA"@]);
            assert(mv[0].1 =~= seq![
                ConfigActionV::KeyPress { keys: seq!["KeyA"@], modifier: Some("ShiftLeft"@) },
                ConfigActionV::Delay { ms: 10 },
                ConfigActionV::KeyRelease,
            ]);
        }
        r
    }
}

/// Truncation: a chord's lowering depends only on its first six keys.
pub proof fn lemma_keypress_truncation(keys: Seq<Seq<char>>, modifier: Option<Seq<char>>)
    requires
        keys.len() >= 6,
    ensures
        spec_translate_action(ConfigActionV::KeyPress { keys, modifier })
            == spec_translate_action(ConfigActionV::KeyPress { keys: keys.take(6), modifier }),
{
    assert(first6(keys) =~= first6(keys.take(6)));
    assert(kp_keys(keys, modifier) =~= kp_keys(keys.take(6), modifier));
}

} // verus!
